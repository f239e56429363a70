//! The social exchange state of a scene: stances, unresolved asks, and the
//! exchanges and commitments a turn proposes.
use vstd::prelude::*;

verus! {

pub const SOCIAL_EXCHANGE_PROPOSAL_SCHEMA_VERSION: &'static str =
    "singulari.social_exchange_proposal.v1";

#[derive(Debug, Clone, Copy, PartialEq, Eq, Structural)]
pub enum AskStatus {
    Open,
    Evaded,
    Refused,
}

#[derive(Debug, Clone, Copy, PartialEq, Eq, Structural)]
pub enum DialogueStanceKind {
    Neutral,
    Cooperative,
    GuardedHelpful,
    Evasive,
    Withholding,
    Offended,
    Threatening,
    Indebted,
}

#[derive(Debug, Clone, Copy, PartialEq, Eq, Structural)]
pub enum SocialIntensity {
    Trace,
    Low,
    Medium,
    High,
    Crisis,
}

#[derive(Debug, Clone, Copy, PartialEq, Eq, Structural)]
pub enum SocialCommitmentKind {
    Promise,
    Debt,
    ConditionalPermission,
    Truce,
    Threat,
    Demand,
    Price,
}

#[derive(Debug, Clone, Copy, PartialEq, Eq, Structural)]
pub enum SocialDueWindow {
    CurrentScene,
    NextTurn,
    WhenRelevant,
}

/// The stance an actor holds toward a target in the current scene.
#[derive(Debug, Clone)]
pub struct DialogueStance {
    pub stance_id: String,
    pub actor_ref: String,
    pub target_ref: String,
    pub summary: String,
    pub player_visible_signal: String,
    pub source_refs: Vec<String>,
}

/// A question that was asked and not yet answered.
#[derive(Debug, Clone)]
pub struct UnresolvedSocialAsk {
    pub ask_id: String,
    pub asked_by_ref: String,
    pub asked_to_ref: String,
    pub question_summary: String,
    pub last_response: String,
    pub current_status: AskStatus,
    pub allowed_next_moves: Vec<String>,
    pub blocked_repetitions: Vec<String>,
    pub source_refs: Vec<String>,
}

#[derive(Debug, Clone)]
pub struct SocialExchangePacket {
    pub world_id: String,
    pub turn_id: String,
    pub active_stances: Vec<DialogueStance>,
    pub unresolved_asks: Vec<UnresolvedSocialAsk>,
}

impl Default for SocialExchangePacket {
    fn default() -> (r: Self)
        ensures
            r.active_stances@.len() == 0,
            r.unresolved_asks@.len() == 0,
    {
        SocialExchangePacket {
            world_id: String::new(),
            turn_id: String::new(),
            active_stances: Vec::new(),
            unresolved_asks: Vec::new(),
        }
    }
}

/// One exchange of the turn and the stance it leaves.
#[derive(Debug, Clone)]
pub struct SocialExchangeMutation {
    pub summary: String,
    pub player_visible_signal: String,
    pub stance_after: DialogueStanceKind,
    pub intensity_after: SocialIntensity,
    pub source_refs: Vec<String>,
    pub relationship_refs: Vec<String>,
    pub consequence_refs: Vec<String>,
}

/// A commitment made in the turn.
#[derive(Debug, Clone)]
pub struct SocialCommitmentMutation {
    pub commitment_id: String,
    pub actor_ref: String,
    pub target_ref: String,
    pub kind: SocialCommitmentKind,
    pub summary: String,
    pub condition: String,
    pub due_window: SocialDueWindow,
    pub source_refs: Vec<String>,
    pub consequence_refs: Vec<String>,
}

#[derive(Debug, Clone)]
pub struct SocialExchangeProposal {
    pub schema_version: String,
    pub world_id: String,
    pub turn_id: String,
    pub exchanges: Vec<SocialExchangeMutation>,
    pub commitments: Vec<SocialCommitmentMutation>,
}

} // verus!
