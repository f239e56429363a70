//! The resolution proposal of a turn: the gates it passed or failed, the
//! effects it proposes and the process clocks it ticks.
use vstd::prelude::*;

verus! {

pub const RESOLUTION_PROPOSAL_SCHEMA_VERSION: &'static str = "singulari.resolution_proposal.v1";

/// Who may see a resolution part.
#[derive(Debug, Clone, Copy, PartialEq, Eq, Structural)]
pub enum ResolutionVisibility {
    PlayerVisible,
    AdjudicationOnly,
}

#[derive(Debug, Clone, Copy, PartialEq, Eq, Structural)]
pub enum GateKind {
    Body,
    Resource,
    Location,
    SocialPermission,
    Knowledge,
    TimePressure,
    HiddenConstraint,
    WorldLaw,
    Affordance,
}

#[derive(Debug, Clone, Copy, PartialEq, Eq, Structural)]
pub enum GateStatus {
    Passed,
    Softened,
    Blocked,
    CostImposed,
    UnknownNeedsProbe,
}

#[derive(Debug, Clone, Copy, PartialEq, Eq, Structural)]
pub enum ResolutionOutcomeKind {
    Success,
    CostlySuccess,
    Blocked,
    Delayed,
}

#[derive(Debug, Clone, Copy, PartialEq, Eq, Structural)]
pub enum ProposedEffectKind {
    BodyResourceDelta,
    LocationDelta,
    RelationshipDelta,
    BeliefDelta,
    WorldLoreDelta,
    ScenePressureDelta,
    PatternDebt,
    PlayerIntentTrace,
}

#[derive(Debug, Clone)]
pub struct ResolutionOutcome {
    pub kind: ResolutionOutcomeKind,
    pub summary: String,
    pub evidence_refs: Vec<String>,
}

#[derive(Debug, Clone)]
pub struct GateResult {
    pub gate_kind: GateKind,
    pub gate_ref: String,
    pub visibility: ResolutionVisibility,
    pub status: GateStatus,
    pub reason: String,
    pub evidence_refs: Vec<String>,
}

#[derive(Debug, Clone)]
pub struct ProposedEffect {
    pub effect_kind: ProposedEffectKind,
    pub target_ref: String,
    pub visibility: ResolutionVisibility,
    pub summary: String,
    pub evidence_refs: Vec<String>,
}

#[derive(Debug, Clone)]
pub struct ProcessTickProposal {
    pub process_ref: String,
    pub visibility: ResolutionVisibility,
    pub summary: String,
    pub evidence_refs: Vec<String>,
}

#[derive(Debug, Clone)]
pub struct ResolutionProposal {
    pub schema_version: String,
    pub world_id: String,
    pub turn_id: String,
    pub outcome: ResolutionOutcome,
    pub gate_results: Vec<GateResult>,
    pub proposed_effects: Vec<ProposedEffect>,
    pub process_ticks: Vec<ProcessTickProposal>,
}

} // verus!
