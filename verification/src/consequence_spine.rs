//! The consequence spine: what a turn's choices leave behind, derived from
//! the consequence proposal, the resolution and the social exchange, and
//! materialised from the consequence event log.
use crate::clock::now_rfc3339;
use crate::resolution::{
    GateKind, GateResult, GateStatus, ProcessTickProposal, ProposedEffect, ProposedEffectKind,
    ResolutionOutcomeKind, ResolutionProposal, ResolutionVisibility,
};
use crate::social_exchange::{
    DialogueStanceKind, SocialCommitmentKind, SocialCommitmentMutation, SocialExchangeMutation,
    SocialExchangeProposal, SocialIntensity,
};
use crate::text::{
    clone_strings, concat2, concat3, concat4, contains, contains_str, dec, dec2_string, dec_padded,
    dec_string, has_text_exec, is_blank, is_blank_str, join, join_strings, lemma_has_text_views,
    seq_lt, str_eq, str_lt, trim, trim_str, views,
};
use vstd::prelude::*;

verus! {

pub const CONSEQUENCE_SPINE_PACKET_SCHEMA_VERSION: &'static str = "singulari.consequence_spine_packet.v1";
pub const CONSEQUENCE_SCHEMA_VERSION: &'static str = "singulari.consequence.v1";
pub const CONSEQUENCE_EVENT_SCHEMA_VERSION: &'static str = "singulari.consequence_event.v1";
pub const CONSEQUENCE_PROPOSAL_SCHEMA_VERSION: &'static str = "singulari.consequence_proposal.v1";
pub const CONSEQUENCE_EVENTS_FILENAME: &'static str = "consequence_events.jsonl";
pub const ACTIVE_CONSEQUENCES_FILENAME: &'static str = "active_consequences.json";

pub const ACTIVE_CONSEQUENCE_BUDGET: usize = 8;
pub const PAID_OFF_MEMORY_BUDGET: usize = 5;

#[derive(Debug, Clone)]
pub struct ConsequenceSpinePacket {
    pub schema_version: String,
    pub world_id: String,
    pub turn_id: String,
    pub active: Vec<ActiveConsequence>,
    pub recently_paid_off: Vec<ConsequenceMemory>,
    pub pressure_links: Vec<ConsequencePressureLink>,
    pub required_followups: Vec<ConsequenceFollowup>,
    pub compiler_policy: ConsequenceSpinePolicy,
}

#[derive(Debug, Clone)]
pub struct ActiveConsequence {
    pub schema_version: String,
    pub consequence_id: String,
    pub origin_turn_id: String,
    pub kind: ConsequenceKind,
    pub scope: ConsequenceScope,
    pub status: ConsequenceStatus,
    pub severity: ConsequenceSeverity,
    pub summary: String,
    pub player_visible_signal: String,
    pub source_refs: Vec<String>,
    pub linked_entity_refs: Vec<String>,
    pub linked_projection_refs: Vec<String>,
    pub expected_return: ConsequenceReturnWindow,
    pub decay: ConsequenceDecay,
}

#[derive(Debug, Clone)]
pub struct ConsequenceMemory {
    pub consequence_id: String,
    pub kind: ConsequenceKind,
    pub summary: String,
    pub payoff_summary: String,
    pub source_refs: Vec<String>,
}

#[derive(Debug, Clone)]
pub struct ConsequencePressureLink {
    pub consequence_id: String,
    pub pressure_kind: String,
    pub observable_signal: String,
}

#[derive(Debug, Clone)]
pub struct ConsequenceFollowup {
    pub followup_id: String,
    pub reason: String,
    pub source_refs: Vec<String>,
}

#[derive(Debug, Clone)]
pub struct ConsequenceSpinePolicy {
    pub source: String,
    pub use_rules: Vec<String>,
}

impl Default for ConsequenceSpinePolicy {
    fn default() -> (r: Self)
        ensures
            r.source@ == "materialized_from_consequence_events_v1"@,
            r.use_rules@.len() == 3,
    {
        let mut use_rules = Vec::new();
        use_rules.push(
            String::from_str(
                "Use active consequences to make prior choices return as pressure, not as exposition.",
            ),
        );
        use_rules.push(
            String::from_str(
                "Do not treat consequence labels as hidden future truth or route guidance.",
            ),
        );
        use_rules.push(
            String::from_str(
                "Player-visible summaries must describe only what the player can fairly know.",
            ),
        );
        ConsequenceSpinePolicy {
            source: String::from_str("materialized_from_consequence_events_v1"),
            use_rules,
        }
    }
}

impl Default for ConsequenceSpinePacket {
    fn default() -> (r: Self)
        ensures
            r.schema_version@ == CONSEQUENCE_SPINE_PACKET_SCHEMA_VERSION@,
            r.world_id@.len() == 0,
            r.turn_id@.len() == 0,
            r.active@.len() == 0,
            r.recently_paid_off@.len() == 0,
            r.pressure_links@.len() == 0,
            r.required_followups@.len() == 0,
    {
        ConsequenceSpinePacket {
            schema_version: String::from_str(CONSEQUENCE_SPINE_PACKET_SCHEMA_VERSION),
            world_id: String::new(),
            turn_id: String::new(),
            active: Vec::new(),
            recently_paid_off: Vec::new(),
            pressure_links: Vec::new(),
            required_followups: Vec::new(),
            compiler_policy: ConsequenceSpinePolicy::default(),
        }
    }
}

#[derive(Debug, Clone, Copy, PartialEq, Eq, Structural)]
pub enum ConsequenceKind {
    BodyCost,
    ResourceCost,
    SocialDebt,
    TrustShift,
    SuspicionRaised,
    AlarmRaised,
    KnowledgeOpened,
    KnowledgeResolved,
    LocationAccessChanged,
    ProcessAccelerated,
    ProcessDelayed,
    MoralDebt,
    OpportunityOpened,
    OpportunityLost,
}

#[derive(Debug, Clone, Copy, PartialEq, Eq, Structural)]
pub enum ConsequenceScope {
    Body,
    Inventory,
    Relationship,
    Location,
    Faction,
    Knowledge,
    WorldProcess,
    Scene,
}

#[derive(Debug, Clone, Copy, PartialEq, Eq, Structural)]
pub enum ConsequenceSeverity {
    Trace,
    Minor,
    Moderate,
    Major,
    Critical,
}

#[derive(Debug, Clone, Copy, PartialEq, Eq, Structural)]
pub enum ConsequenceStatus {
    Active,
    Escalated,
    Softened,
    Transferred,
    PaidOff,
    Decayed,
    Superseded,
}

#[derive(Debug, Clone, Copy, PartialEq, Eq, Structural)]
pub enum ConsequenceReturnWindow {
    SearchOnly,
    WhenRelevant,
    Soon,
    NextTurn,
    CurrentScene,
}

#[derive(Debug, Clone)]
pub struct ConsequenceDecay {
    pub mode: String,
    pub remaining_turns: u8,
    pub payoff_hint: String,
}

impl Default for ConsequenceDecay {
    fn default() -> (r: Self)
        ensures
            r.mode@ == "relevance"@,
            r.remaining_turns == 3,
            r.payoff_hint@
                == "Escalate, soften, pay off, or let it decay when no longer relevant."@,
    {
        ConsequenceDecay {
            mode: String::from_str("relevance"),
            remaining_turns: 3,
            payoff_hint: String::from_str(
                "Escalate, soften, pay off, or let it decay when no longer relevant.",
            ),
        }
    }
}

#[derive(Debug, Clone)]
pub struct ConsequenceProposal {
    pub schema_version: String,
    pub world_id: String,
    pub turn_id: String,
    pub introduced: Vec<ConsequenceMutation>,
    pub updated: Vec<ConsequenceMutation>,
    pub paid_off: Vec<ConsequencePayoff>,
    pub ephemeral_effects: Vec<EphemeralConsequenceReason>,
}

#[derive(Debug, Clone)]
pub struct ConsequenceMutation {
    pub consequence_id: String,
    pub kind: ConsequenceKind,
    pub scope: ConsequenceScope,
    pub severity: ConsequenceSeverity,
    pub summary: String,
    pub player_visible_signal: String,
    pub source_refs: Vec<String>,
    pub linked_entity_refs: Vec<String>,
    pub linked_projection_refs: Vec<String>,
}

#[derive(Debug, Clone)]
pub struct ConsequencePayoff {
    pub consequence_id: String,
    pub payoff_summary: String,
    pub evidence_refs: Vec<String>,
}

#[derive(Debug, Clone)]
pub struct EphemeralConsequenceReason {
    pub effect_ref: String,
    pub reason: String,
    pub evidence_refs: Vec<String>,
}

#[derive(Debug, Clone)]
pub struct ConsequenceEventPlan {
    pub world_id: String,
    pub turn_id: String,
    pub records: Vec<ConsequenceEventRecord>,
}

#[derive(Debug, Clone)]
pub struct ConsequenceEventRecord {
    pub schema_version: String,
    pub world_id: String,
    pub turn_id: String,
    pub event_id: String,
    pub consequence_id: String,
    pub event_kind: ConsequenceEventKind,
    pub kind: ConsequenceKind,
    pub scope: ConsequenceScope,
    pub severity: ConsequenceSeverity,
    pub summary: String,
    pub player_visible_signal: String,
    pub source_refs: Vec<String>,
    pub linked_entity_refs: Vec<String>,
    pub linked_projection_refs: Vec<String>,
    pub recorded_at: String,
}

#[derive(Debug, Clone, Copy, PartialEq, Eq, Structural)]
pub enum ConsequenceEventKind {
    Introduced,
    Escalated,
    Softened,
    Transferred,
    PaidOff,
    Decayed,
    Superseded,
}

/// Why a consequence proposal was refused.
#[derive(Debug, Clone)]
pub enum ConsequenceSpineError {
    SchemaVersionMismatch,
    WorldTurnMismatch,
    MutationMissingSourceRefs,
    MutationMissingVisibleText,
    EphemeralMissingEvidence,
    PayoffInactive { consequence_id: String },
    PayoffMissingEvidence,
}

/// The text of a refused consequence proposal.
pub open spec fn spine_error_text(e: ConsequenceSpineError) -> Seq<char> {
    match e {
        ConsequenceSpineError::SchemaVersionMismatch => "consequence proposal schema_version mismatch"@,
        ConsequenceSpineError::WorldTurnMismatch => "consequence proposal world_id/turn_id mismatch"@,
        ConsequenceSpineError::MutationMissingSourceRefs => "consequence mutation requires source_refs"@,
        ConsequenceSpineError::MutationMissingVisibleText => "consequence mutation requires player-visible summary and signal"@,
        ConsequenceSpineError::EphemeralMissingEvidence => "ephemeral consequence reason requires evidence_refs"@,
        ConsequenceSpineError::PayoffInactive { consequence_id } => "consequence payoff references inactive consequence: "@
            + consequence_id@,
        ConsequenceSpineError::PayoffMissingEvidence => "consequence payoff requires evidence_refs"@,
    }
}

impl ConsequenceSpineError {
    pub fn message(&self) -> (r: String)
        ensures
            r@ == spine_error_text(*self),
    {
        match self {
            ConsequenceSpineError::SchemaVersionMismatch => String::from_str(
                "consequence proposal schema_version mismatch",
            ),
            ConsequenceSpineError::WorldTurnMismatch => String::from_str(
                "consequence proposal world_id/turn_id mismatch",
            ),
            ConsequenceSpineError::MutationMissingSourceRefs => String::from_str(
                "consequence mutation requires source_refs",
            ),
            ConsequenceSpineError::MutationMissingVisibleText => String::from_str(
                "consequence mutation requires player-visible summary and signal",
            ),
            ConsequenceSpineError::EphemeralMissingEvidence => String::from_str(
                "ephemeral consequence reason requires evidence_refs",
            ),
            ConsequenceSpineError::PayoffInactive { consequence_id } => concat2(
                "consequence payoff references inactive consequence: ",
                consequence_id.as_str(),
            ),
            ConsequenceSpineError::PayoffMissingEvidence => String::from_str(
                "consequence payoff requires evidence_refs",
            ),
        }
    }
}

// ---------------------------------------------------------------------------
// Fixed tables.
// ---------------------------------------------------------------------------

pub open spec fn gate_consequence(g: GateKind) -> (ConsequenceKind, ConsequenceScope) {
    match g {
        GateKind::Body => (ConsequenceKind::BodyCost, ConsequenceScope::Body),
        GateKind::Resource => (ConsequenceKind::ResourceCost, ConsequenceScope::Inventory),
        GateKind::Location => (ConsequenceKind::LocationAccessChanged, ConsequenceScope::Location),
        GateKind::SocialPermission => (
            ConsequenceKind::SuspicionRaised,
            ConsequenceScope::Relationship,
        ),
        GateKind::Knowledge => (ConsequenceKind::KnowledgeOpened, ConsequenceScope::Knowledge),
        GateKind::TimePressure | GateKind::HiddenConstraint => (
            ConsequenceKind::ProcessAccelerated,
            ConsequenceScope::WorldProcess,
        ),
        GateKind::WorldLaw | GateKind::Affordance => (
            ConsequenceKind::OpportunityLost,
            ConsequenceScope::Scene,
        ),
    }
}

fn consequence_for_gate(g: GateKind) -> (r: (ConsequenceKind, ConsequenceScope))
    ensures
        r == gate_consequence(g),
{
    match g {
        GateKind::Body => (ConsequenceKind::BodyCost, ConsequenceScope::Body),
        GateKind::Resource => (ConsequenceKind::ResourceCost, ConsequenceScope::Inventory),
        GateKind::Location => (ConsequenceKind::LocationAccessChanged, ConsequenceScope::Location),
        GateKind::SocialPermission => (
            ConsequenceKind::SuspicionRaised,
            ConsequenceScope::Relationship,
        ),
        GateKind::Knowledge => (ConsequenceKind::KnowledgeOpened, ConsequenceScope::Knowledge),
        GateKind::TimePressure | GateKind::HiddenConstraint => (
            ConsequenceKind::ProcessAccelerated,
            ConsequenceScope::WorldProcess,
        ),
        GateKind::WorldLaw | GateKind::Affordance => (
            ConsequenceKind::OpportunityLost,
            ConsequenceScope::Scene,
        ),
    }
}

pub open spec fn effect_consequence(e: ProposedEffectKind) -> Option<
    (ConsequenceKind, ConsequenceScope, ConsequenceSeverity),
> {
    match e {
        ProposedEffectKind::BodyResourceDelta => Some(
            (ConsequenceKind::BodyCost, ConsequenceScope::Body, ConsequenceSeverity::Moderate),
        ),
        ProposedEffectKind::LocationDelta => Some(
            (
                ConsequenceKind::LocationAccessChanged,
                ConsequenceScope::Location,
                ConsequenceSeverity::Moderate,
            ),
        ),
        ProposedEffectKind::RelationshipDelta => Some(
            (
                ConsequenceKind::TrustShift,
                ConsequenceScope::Relationship,
                ConsequenceSeverity::Moderate,
            ),
        ),
        ProposedEffectKind::BeliefDelta | ProposedEffectKind::WorldLoreDelta => Some(
            (ConsequenceKind::KnowledgeOpened, ConsequenceScope::Knowledge, ConsequenceSeverity::Minor),
        ),
        ProposedEffectKind::ScenePressureDelta => Some(
            (ConsequenceKind::OpportunityOpened, ConsequenceScope::Scene, ConsequenceSeverity::Minor),
        ),
        ProposedEffectKind::PatternDebt | ProposedEffectKind::PlayerIntentTrace => None,
    }
}

fn consequence_for_effect(e: ProposedEffectKind) -> (r: Option<
    (ConsequenceKind, ConsequenceScope, ConsequenceSeverity),
>)
    ensures
        r == effect_consequence(e),
{
    match e {
        ProposedEffectKind::BodyResourceDelta => Some(
            (ConsequenceKind::BodyCost, ConsequenceScope::Body, ConsequenceSeverity::Moderate),
        ),
        ProposedEffectKind::LocationDelta => Some(
            (
                ConsequenceKind::LocationAccessChanged,
                ConsequenceScope::Location,
                ConsequenceSeverity::Moderate,
            ),
        ),
        ProposedEffectKind::RelationshipDelta => Some(
            (
                ConsequenceKind::TrustShift,
                ConsequenceScope::Relationship,
                ConsequenceSeverity::Moderate,
            ),
        ),
        ProposedEffectKind::BeliefDelta | ProposedEffectKind::WorldLoreDelta => Some(
            (ConsequenceKind::KnowledgeOpened, ConsequenceScope::Knowledge, ConsequenceSeverity::Minor),
        ),
        ProposedEffectKind::ScenePressureDelta => Some(
            (ConsequenceKind::OpportunityOpened, ConsequenceScope::Scene, ConsequenceSeverity::Minor),
        ),
        ProposedEffectKind::PatternDebt | ProposedEffectKind::PlayerIntentTrace => None,
    }
}

pub open spec fn kind_signal(k: ConsequenceKind) -> Seq<char> {
    match k {
        ConsequenceKind::BodyCost => "몸에 남은 대가가 선택을 좁힌다."@,
        ConsequenceKind::ResourceCost => "쓴 자원이나 잃은 물건이 다음 판단에 남는다."@,
        ConsequenceKind::SocialDebt | ConsequenceKind::TrustShift => "관계의 변화가 다음 대화의 출발점을 바꾼다."@,
        ConsequenceKind::SuspicionRaised | ConsequenceKind::AlarmRaised => "의심이나 경계가 아직 가라앉지 않았다."@,
        ConsequenceKind::KnowledgeOpened | ConsequenceKind::KnowledgeResolved => "알게 된 사실이 다음 행동의 방향을 바꾼다."@,
        ConsequenceKind::LocationAccessChanged => "장소 접근 조건이 달라졌다."@,
        ConsequenceKind::ProcessAccelerated | ConsequenceKind::ProcessDelayed => "세계 진행 시계가 선택의 여파를 들고 움직인다."@,
        ConsequenceKind::MoralDebt => "선택의 도덕적 빚이 장면에 남아 있다."@,
        ConsequenceKind::OpportunityOpened | ConsequenceKind::OpportunityLost => "열리거나 닫힌 기회가 다음 선택지를 바꾼다."@,
    }
}

fn signal_for_kind(k: ConsequenceKind) -> (r: String)
    ensures
        r@ == kind_signal(k),
{
    let s = match k {
        ConsequenceKind::BodyCost => "몸에 남은 대가가 선택을 좁힌다.",
        ConsequenceKind::ResourceCost => "쓴 자원이나 잃은 물건이 다음 판단에 남는다.",
        ConsequenceKind::SocialDebt | ConsequenceKind::TrustShift => "관계의 변화가 다음 대화의 출발점을 바꾼다.",
        ConsequenceKind::SuspicionRaised | ConsequenceKind::AlarmRaised => "의심이나 경계가 아직 가라앉지 않았다.",
        ConsequenceKind::KnowledgeOpened | ConsequenceKind::KnowledgeResolved => "알게 된 사실이 다음 행동의 방향을 바꾼다.",
        ConsequenceKind::LocationAccessChanged => "장소 접근 조건이 달라졌다.",
        ConsequenceKind::ProcessAccelerated | ConsequenceKind::ProcessDelayed => "세계 진행 시계가 선택의 여파를 들고 움직인다.",
        ConsequenceKind::MoralDebt => "선택의 도덕적 빚이 장면에 남아 있다.",
        ConsequenceKind::OpportunityOpened | ConsequenceKind::OpportunityLost => "열리거나 닫힌 기회가 다음 선택지를 바꾼다.",
    };
    String::from_str(s)
}

pub open spec fn exchange_is_consequence(s: DialogueStanceKind, i: SocialIntensity) -> bool {
    i == SocialIntensity::High || i == SocialIntensity::Crisis || s == DialogueStanceKind::Offended
        || s == DialogueStanceKind::Threatening || s == DialogueStanceKind::Indebted
        || s == DialogueStanceKind::Withholding
}

pub open spec fn stance_consequence(s: DialogueStanceKind) -> ConsequenceKind {
    match s {
        DialogueStanceKind::Offended | DialogueStanceKind::Threatening => ConsequenceKind::SuspicionRaised,
        DialogueStanceKind::Withholding | DialogueStanceKind::Evasive => ConsequenceKind::OpportunityLost,
        DialogueStanceKind::Cooperative | DialogueStanceKind::GuardedHelpful => ConsequenceKind::TrustShift,
        _ => ConsequenceKind::SocialDebt,
    }
}

fn consequence_kind_from_stance(s: DialogueStanceKind) -> (r: ConsequenceKind)
    ensures
        r == stance_consequence(s),
{
    match s {
        DialogueStanceKind::Offended | DialogueStanceKind::Threatening => ConsequenceKind::SuspicionRaised,
        DialogueStanceKind::Withholding | DialogueStanceKind::Evasive => ConsequenceKind::OpportunityLost,
        DialogueStanceKind::Cooperative | DialogueStanceKind::GuardedHelpful => ConsequenceKind::TrustShift,
        _ => ConsequenceKind::SocialDebt,
    }
}

pub open spec fn commitment_consequence(k: SocialCommitmentKind) -> ConsequenceKind {
    match k {
        SocialCommitmentKind::Promise | SocialCommitmentKind::Debt
        | SocialCommitmentKind::ConditionalPermission | SocialCommitmentKind::Truce => ConsequenceKind::SocialDebt,
        SocialCommitmentKind::Threat | SocialCommitmentKind::Demand => ConsequenceKind::SuspicionRaised,
        SocialCommitmentKind::Price => ConsequenceKind::OpportunityOpened,
    }
}

fn consequence_kind_from_commitment(k: SocialCommitmentKind) -> (r: ConsequenceKind)
    ensures
        r == commitment_consequence(k),
{
    match k {
        SocialCommitmentKind::Promise | SocialCommitmentKind::Debt
        | SocialCommitmentKind::ConditionalPermission | SocialCommitmentKind::Truce => ConsequenceKind::SocialDebt,
        SocialCommitmentKind::Threat | SocialCommitmentKind::Demand => ConsequenceKind::SuspicionRaised,
        SocialCommitmentKind::Price => ConsequenceKind::OpportunityOpened,
    }
}

pub open spec fn intensity_severity(i: SocialIntensity) -> ConsequenceSeverity {
    match i {
        SocialIntensity::Trace | SocialIntensity::Low => ConsequenceSeverity::Minor,
        SocialIntensity::Medium => ConsequenceSeverity::Moderate,
        SocialIntensity::High => ConsequenceSeverity::Major,
        SocialIntensity::Crisis => ConsequenceSeverity::Critical,
    }
}

fn severity_from_social_intensity(i: SocialIntensity) -> (r: ConsequenceSeverity)
    ensures
        r == intensity_severity(i),
{
    match i {
        SocialIntensity::Trace | SocialIntensity::Low => ConsequenceSeverity::Minor,
        SocialIntensity::Medium => ConsequenceSeverity::Moderate,
        SocialIntensity::High => ConsequenceSeverity::Major,
        SocialIntensity::Crisis => ConsequenceSeverity::Critical,
    }
}

// ---------------------------------------------------------------------------
// Drafts: what each record of a plan says, before it is stamped.
// ---------------------------------------------------------------------------

/// The content of a consequence event record; `event_turn` is the turn id
/// that its event id is numbered under.
pub struct ConsequenceDraft {
    pub event_turn: Seq<char>,
    pub consequence_id: Seq<char>,
    pub event_kind: ConsequenceEventKind,
    pub kind: ConsequenceKind,
    pub scope: ConsequenceScope,
    pub severity: ConsequenceSeverity,
    pub summary: Seq<char>,
    pub player_visible_signal: Seq<char>,
    pub source_refs: Seq<Seq<char>>,
    pub linked_entity_refs: Seq<Seq<char>>,
    pub linked_projection_refs: Seq<Seq<char>>,
}

/// `r` is draft `d` stamped as the `index`-th record of a plan of `current`.
pub open spec fn stamped(
    r: ConsequenceEventRecord,
    d: ConsequenceDraft,
    current: ConsequenceSpinePacket,
    index: int,
    recorded_at: Seq<char>,
) -> bool {
    &&& r.schema_version@ == CONSEQUENCE_EVENT_SCHEMA_VERSION@
    &&& r.world_id@ == current.world_id@
    &&& r.turn_id@ == current.turn_id@
    &&& r.event_id@ == "consequence_event:"@ + d.event_turn + ":"@ + dec_padded(index as nat, 2)
    &&& r.consequence_id@ == d.consequence_id
    &&& r.event_kind == d.event_kind
    &&& r.kind == d.kind
    &&& r.scope == d.scope
    &&& r.severity == d.severity
    &&& r.summary@ == d.summary
    &&& r.player_visible_signal@ == d.player_visible_signal
    &&& views(r.source_refs@) == d.source_refs
    &&& views(r.linked_entity_refs@) == d.linked_entity_refs
    &&& views(r.linked_projection_refs@) == d.linked_projection_refs
    &&& r.recorded_at@ == recorded_at
}

/// The records from index `start` on are the drafts `ds` stamped in order.
pub open spec fn stamped_from(
    rs: Seq<ConsequenceEventRecord>,
    start: int,
    ds: Seq<ConsequenceDraft>,
    current: ConsequenceSpinePacket,
    recorded_at: Seq<char>,
) -> bool {
    &&& rs.len() == start + ds.len()
    &&& forall|k: int|
        0 <= k < ds.len() ==> stamped(#[trigger] rs[start + k], ds[k], current, start + k, recorded_at)
}

/// One of `refs` is among `existing`.
pub open spec fn refs_hit(refs: Seq<Seq<char>>, existing: Seq<Seq<char>>) -> bool {
    exists|i: int| 0 <= i < refs.len() && existing.contains(#[trigger] refs[i])
}

/// The source refs of the drafts, in order.
pub open spec fn draft_refs(ds: Seq<ConsequenceDraft>) -> Seq<Seq<char>>
    decreases ds.len(),
{
    if ds.len() == 0 {
        Seq::empty()
    } else {
        draft_refs(ds.drop_last()) + ds.last().source_refs
    }
}

pub open spec fn gate_draft(g: GateResult, turn: Seq<char>, index: int) -> ConsequenceDraft {
    ConsequenceDraft {
        event_turn: turn,
        consequence_id: "consequence:"@ + turn + ":gate:"@ + dec(index as nat),
        event_kind: ConsequenceEventKind::Introduced,
        kind: gate_consequence(g.gate_kind).0,
        scope: gate_consequence(g.gate_kind).1,
        severity: ConsequenceSeverity::Moderate,
        summary: g.reason@,
        player_visible_signal: "그 선택의 비용이 아직 장면에 남아 있다."@,
        source_refs: views(g.evidence_refs@),
        linked_entity_refs: Seq::empty(),
        linked_projection_refs: seq![g.gate_ref@],
    }
}

/// Player-visible gates that imposed a cost, and whose evidence no earlier
/// record already carries.
pub open spec fn gate_drafts(gs: Seq<GateResult>, turn: Seq<char>, existing: Seq<Seq<char>>) -> Seq<
    ConsequenceDraft,
>
    decreases gs.len(),
{
    if gs.len() == 0 {
        Seq::empty()
    } else {
        let prev = gate_drafts(gs.drop_last(), turn, existing);
        let g = gs.last();
        if g.visibility == ResolutionVisibility::PlayerVisible && g.status == GateStatus::CostImposed
            && !refs_hit(views(g.evidence_refs@), existing) {
            prev.push(gate_draft(g, turn, gs.len() - 1))
        } else {
            prev
        }
    }
}

pub open spec fn effect_draft(e: ProposedEffect, turn: Seq<char>, index: int) -> ConsequenceDraft {
    let c = effect_consequence(e.effect_kind).unwrap();
    ConsequenceDraft {
        event_turn: turn,
        consequence_id: "consequence:"@ + turn + ":effect:"@ + dec(index as nat),
        event_kind: ConsequenceEventKind::Introduced,
        kind: c.0,
        scope: c.1,
        severity: c.2,
        summary: e.summary@,
        player_visible_signal: kind_signal(c.0),
        source_refs: views(e.evidence_refs@),
        linked_entity_refs: Seq::empty(),
        linked_projection_refs: seq![e.target_ref@],
    }
}

/// Player-visible effects of a kind that leaves a consequence, and whose
/// evidence no earlier record already carries.
pub open spec fn effect_drafts(
    es: Seq<ProposedEffect>,
    turn: Seq<char>,
    existing: Seq<Seq<char>>,
) -> Seq<ConsequenceDraft>
    decreases es.len(),
{
    if es.len() == 0 {
        Seq::empty()
    } else {
        let prev = effect_drafts(es.drop_last(), turn, existing);
        let e = es.last();
        if e.visibility == ResolutionVisibility::PlayerVisible && !refs_hit(
            views(e.evidence_refs@),
            existing,
        ) && effect_consequence(e.effect_kind) is Some {
            prev.push(effect_draft(e, turn, es.len() - 1))
        } else {
            prev
        }
    }
}

pub open spec fn tick_draft(t: ProcessTickProposal, turn: Seq<char>, index: int) -> ConsequenceDraft {
    ConsequenceDraft {
        event_turn: turn,
        consequence_id: "consequence:"@ + turn + ":process:"@ + dec(index as nat),
        event_kind: ConsequenceEventKind::Introduced,
        kind: ConsequenceKind::ProcessAccelerated,
        scope: ConsequenceScope::WorldProcess,
        severity: ConsequenceSeverity::Moderate,
        summary: t.summary@,
        player_visible_signal: "건드린 진행 시계가 다음 장면에도 압력으로 남는다."@,
        source_refs: views(t.evidence_refs@),
        linked_entity_refs: Seq::empty(),
        linked_projection_refs: seq![t.process_ref@],
    }
}

/// Every player-visible process tick.
pub open spec fn tick_drafts(ts: Seq<ProcessTickProposal>, turn: Seq<char>) -> Seq<ConsequenceDraft>
    decreases ts.len(),
{
    if ts.len() == 0 {
        Seq::empty()
    } else {
        let prev = tick_drafts(ts.drop_last(), turn);
        let t = ts.last();
        if t.visibility == ResolutionVisibility::PlayerVisible {
            prev.push(tick_draft(t, turn, ts.len() - 1))
        } else {
            prev
        }
    }
}

pub open spec fn costly_success_draft(res: ResolutionProposal) -> ConsequenceDraft {
    ConsequenceDraft {
        event_turn: res.turn_id@,
        consequence_id: "consequence:"@ + res.turn_id@ + ":costly_success"@,
        event_kind: ConsequenceEventKind::Introduced,
        kind: ConsequenceKind::MoralDebt,
        scope: ConsequenceScope::Scene,
        severity: ConsequenceSeverity::Moderate,
        summary: res.outcome.summary@,
        player_visible_signal: "성공의 대가가 아직 완전히 사라지지 않았다."@,
        source_refs: views(res.outcome.evidence_refs@),
        linked_entity_refs: Seq::empty(),
        linked_projection_refs: Seq::empty(),
    }
}

/// What a resolution leaves: its costly gates, its effects, its ticks, and,
/// when none of those left anything, the price of a costly success.
pub open spec fn resolution_drafts(res: ResolutionProposal, existing: Seq<Seq<char>>) -> Seq<
    ConsequenceDraft,
> {
    let turn = res.turn_id@;
    let base = gate_drafts(res.gate_results@, turn, existing) + effect_drafts(
        res.proposed_effects@,
        turn,
        existing,
    ) + tick_drafts(res.process_ticks@, turn);
    if res.outcome.kind == ResolutionOutcomeKind::CostlySuccess && base.len() == 0
        && res.outcome.evidence_refs@.len() > 0 {
        seq![costly_success_draft(res)]
    } else {
        base
    }
}

pub open spec fn exchange_draft(x: SocialExchangeMutation, cur_turn: Seq<char>, social_turn: Seq<char>, index: int) -> ConsequenceDraft {
    ConsequenceDraft {
        event_turn: cur_turn,
        consequence_id: "consequence:"@ + social_turn + ":social_exchange:"@ + dec(index as nat),
        event_kind: ConsequenceEventKind::Introduced,
        kind: stance_consequence(x.stance_after),
        scope: ConsequenceScope::Relationship,
        severity: intensity_severity(x.intensity_after),
        summary: x.summary@,
        player_visible_signal: x.player_visible_signal@,
        source_refs: views(x.source_refs@),
        linked_entity_refs: Seq::empty(),
        linked_projection_refs: views(x.relationship_refs@) + views(x.consequence_refs@),
    }
}

pub open spec fn exchange_drafts(
    xs: Seq<SocialExchangeMutation>,
    cur_turn: Seq<char>,
    social_turn: Seq<char>,
    existing: Seq<Seq<char>>,
) -> Seq<ConsequenceDraft>
    decreases xs.len(),
{
    if xs.len() == 0 {
        Seq::empty()
    } else {
        let prev = exchange_drafts(xs.drop_last(), cur_turn, social_turn, existing);
        let x = xs.last();
        if !refs_hit(views(x.source_refs@), existing) && exchange_is_consequence(
            x.stance_after,
            x.intensity_after,
        ) {
            prev.push(exchange_draft(x, cur_turn, social_turn, xs.len() - 1))
        } else {
            prev
        }
    }
}

pub open spec fn commitment_draft(c: SocialCommitmentMutation, cur_turn: Seq<char>, social_turn: Seq<char>, index: int) -> ConsequenceDraft {
    ConsequenceDraft {
        event_turn: cur_turn,
        consequence_id: "consequence:"@ + social_turn + ":social_commitment:"@ + dec(index as nat),
        event_kind: ConsequenceEventKind::Introduced,
        kind: commitment_consequence(c.kind),
        scope: ConsequenceScope::Relationship,
        severity: ConsequenceSeverity::Moderate,
        summary: c.summary@,
        player_visible_signal: c.condition@,
        source_refs: views(c.source_refs@),
        linked_entity_refs: Seq::empty(),
        linked_projection_refs: views(c.consequence_refs@),
    }
}

pub open spec fn commitment_drafts(
    cs: Seq<SocialCommitmentMutation>,
    cur_turn: Seq<char>,
    social_turn: Seq<char>,
    existing: Seq<Seq<char>>,
) -> Seq<ConsequenceDraft>
    decreases cs.len(),
{
    if cs.len() == 0 {
        Seq::empty()
    } else {
        let prev = commitment_drafts(cs.drop_last(), cur_turn, social_turn, existing);
        let c = cs.last();
        if !refs_hit(views(c.source_refs@), existing) {
            prev.push(commitment_draft(c, cur_turn, social_turn, cs.len() - 1))
        } else {
            prev
        }
    }
}

/// What a social exchange leaves: its charged exchanges, then its commitments.
pub open spec fn social_drafts(
    cur_turn: Seq<char>,
    social: SocialExchangeProposal,
    existing: Seq<Seq<char>>,
) -> Seq<ConsequenceDraft> {
    exchange_drafts(social.exchanges@, cur_turn, social.turn_id@, existing) + commitment_drafts(
        social.commitments@,
        cur_turn,
        social.turn_id@,
        existing,
    )
}


pub proof fn lemma_stamped_push(
    rs: Seq<ConsequenceEventRecord>,
    start: int,
    ds: Seq<ConsequenceDraft>,
    r: ConsequenceEventRecord,
    d: ConsequenceDraft,
    current: ConsequenceSpinePacket,
    recorded_at: Seq<char>,
)
    requires
        0 <= start,
        stamped_from(rs, start, ds, current, recorded_at),
        stamped(r, d, current, start + ds.len(), recorded_at),
    ensures
        stamped_from(rs.push(r), start, ds.push(d), current, recorded_at),
{
    assert forall|k: int| 0 <= k < ds.push(d).len() implies stamped(
        #[trigger] rs.push(r)[start + k],
        ds.push(d)[k],
        current,
        start + k,
        recorded_at,
    ) by {
        if k < ds.len() {
            assert(rs.push(r)[start + k] == rs[start + k]);
        }
    }
}

pub proof fn lemma_stamped_concat(
    rs: Seq<ConsequenceEventRecord>,
    rs2: Seq<ConsequenceEventRecord>,
    start: int,
    a: Seq<ConsequenceDraft>,
    b: Seq<ConsequenceDraft>,
    current: ConsequenceSpinePacket,
    recorded_at: Seq<char>,
)
    requires
        0 <= start,
        stamped_from(rs, start, a, current, recorded_at),
        stamped_from(rs2, start + a.len(), b, current, recorded_at),
        rs2.subrange(0, start + a.len()) == rs,
    ensures
        stamped_from(rs2, start, a + b, current, recorded_at),
{
    assert forall|k: int| 0 <= k < (a + b).len() implies stamped(
        #[trigger] rs2[start + k],
        (a + b)[k],
        current,
        start + k,
        recorded_at,
    ) by {
        if k < a.len() {
            assert(rs2[start + k] == rs2.subrange(0, start + a.len())[start + k]);
            assert(rs[start + k] == rs2[start + k]);
        } else {
            let j = k - a.len();
            assert(stamped(rs2[start + a.len() + j], b[j], current, start + a.len() + j, recorded_at));
            assert(start + a.len() + j == start + k);
        }
    }
}

fn any_ref_in(refs: &Vec<String>, existing: &Vec<String>) -> (r: bool)
    ensures
        r == refs_hit(views(refs@), views(existing@)),
{
    let mut i: usize = 0;
    while i < refs.len()
        invariant
            i <= refs@.len(),
            forall|k: int| 0 <= k < i ==> !views(existing@).contains(#[trigger] views(refs@)[k]),
        decreases refs.len() - i,
    {
        let mut j: usize = 0;
        while j < existing.len()
            invariant
                i < refs@.len(),
                j <= existing@.len(),
                forall|m: int| 0 <= m < j ==> existing@[m]@ != refs@[i as int]@,
            decreases existing.len() - j,
        {
            if str_eq(existing[j].as_str(), refs[i].as_str()) {
                proof {
                    assert(views(existing@)[j as int] == views(refs@)[i as int]);
                    assert(views(existing@).contains(views(refs@)[i as int]));
                }
                return true;
            }
            j = j + 1;
        }
        proof {
            if views(existing@).contains(views(refs@)[i as int]) {
                let m = choose|m: int|
                    0 <= m < views(existing@).len() && views(existing@)[m] == views(refs@)[i as int];
                assert(existing@[m]@ == refs@[i as int]@);
            }
        }
        i = i + 1;
    }
    false
}

/// Builds one event record; every field is the argument of the same name.
#[verifier::rlimit(20)]
fn make_record(
    current: &ConsequenceSpinePacket,
    event_turn: &str,
    index: usize,
    consequence_id: String,
    event_kind: ConsequenceEventKind,
    kind: ConsequenceKind,
    scope: ConsequenceScope,
    severity: ConsequenceSeverity,
    summary: String,
    player_visible_signal: String,
    source_refs: Vec<String>,
    linked_entity_refs: Vec<String>,
    linked_projection_refs: Vec<String>,
    recorded_at: &str,
) -> (r: ConsequenceEventRecord)
    ensures
        stamped(
            r,
            ConsequenceDraft {
                event_turn: event_turn@,
                consequence_id: consequence_id@,
                event_kind,
                kind,
                scope,
                severity,
                summary: summary@,
                player_visible_signal: player_visible_signal@,
                source_refs: views(source_refs@),
                linked_entity_refs: views(linked_entity_refs@),
                linked_projection_refs: views(linked_projection_refs@),
            },
            *current,
            index as int,
            recorded_at@,
        ),
{
    let n = dec2_string(index as u64);
    ConsequenceEventRecord {
        schema_version: String::from_str(CONSEQUENCE_EVENT_SCHEMA_VERSION),
        world_id: current.world_id.clone(),
        turn_id: current.turn_id.clone(),
        event_id: concat4("consequence_event:", event_turn, ":", n.as_str()),
        consequence_id,
        event_kind,
        kind,
        scope,
        severity,
        summary,
        player_visible_signal,
        source_refs,
        linked_entity_refs,
        linked_projection_refs,
        recorded_at: String::from_str(recorded_at),
    }
}

fn one_string(s: &String) -> (r: Vec<String>)
    ensures
        views(r@) == seq![s@],
{
    let mut v = Vec::new();
    v.push(s.clone());
    assert(views(v@) =~= seq![s@]);
    v
}

fn append_gate_records(
    records: &mut Vec<ConsequenceEventRecord>,
    current: &ConsequenceSpinePacket,
    res: &ResolutionProposal,
    existing: &Vec<String>,
    recorded_at: &str,
)
    ensures
        final(records)@.subrange(0, old(records)@.len() as int) == old(records)@,
        stamped_from(
            final(records)@,
            old(records)@.len() as int,
            gate_drafts(res.gate_results@, res.turn_id@, views(existing@)),
            *current,
            recorded_at@,
        ),
{
    let ghost start = records@.len() as int;
    let ghost prefix = records@;
    let gs = &res.gate_results;
    let mut i: usize = 0;
    assert(gs@.subrange(0, 0) =~= Seq::<GateResult>::empty());
    while i < gs.len()
        invariant
            i <= gs@.len(),
            gs@ == res.gate_results@,
            start == prefix.len(),
            records@.subrange(0, start) == prefix,
            stamped_from(
                records@,
                start,
                gate_drafts(gs@.subrange(0, i as int), res.turn_id@, views(existing@)),
                *current,
                recorded_at@,
            ),
        decreases gs.len() - i,
    {
        let g = &gs[i];
        proof {
            assert(gs@.subrange(0, i + 1).drop_last() =~= gs@.subrange(0, i as int));
        }
        if g.visibility == ResolutionVisibility::PlayerVisible && g.status == GateStatus::CostImposed
            && !any_ref_in(&g.evidence_refs, existing) {
            let (kind, scope) = consequence_for_gate(g.gate_kind);
            let idx = dec_string(i as u64);
            let cid = concat4("consequence:", res.turn_id.as_str(), ":gate:", idx.as_str());
            let no_entities: Vec<String> = Vec::new();
            assert(views(no_entities@) =~= Seq::<Seq<char>>::empty());
            let r = make_record(
                current,
                res.turn_id.as_str(),
                records.len(),
                cid,
                ConsequenceEventKind::Introduced,
                kind,
                scope,
                ConsequenceSeverity::Moderate,
                g.reason.clone(),
                String::from_str("그 선택의 비용이 아직 장면에 남아 있다."),
                clone_strings(&g.evidence_refs),
                no_entities,
                one_string(&g.gate_ref),
                recorded_at,
            );
            proof {
                let ds = gate_drafts(gs@.subrange(0, i as int), res.turn_id@, views(existing@));
                lemma_stamped_push(records@, start, ds, r, gate_draft(*g, res.turn_id@, i as int), *current, recorded_at@);
            }
            records.push(r);
        }
        i = i + 1;
    }
    assert(gs@.subrange(0, gs@.len() as int) =~= gs@);
}


fn append_effect_records(
    records: &mut Vec<ConsequenceEventRecord>,
    current: &ConsequenceSpinePacket,
    res: &ResolutionProposal,
    existing: &Vec<String>,
    recorded_at: &str,
)
    ensures
        final(records)@.subrange(0, old(records)@.len() as int) == old(records)@,
        stamped_from(
            final(records)@,
            old(records)@.len() as int,
            effect_drafts(res.proposed_effects@, res.turn_id@, views(existing@)),
            *current,
            recorded_at@,
        ),
{
    let ghost start = records@.len() as int;
    let ghost prefix = records@;
    let es = &res.proposed_effects;
    let mut i: usize = 0;
    assert(es@.subrange(0, 0) =~= Seq::<ProposedEffect>::empty());
    while i < es.len()
        invariant
            i <= es@.len(),
            es@ == res.proposed_effects@,
            start == prefix.len(),
            records@.subrange(0, start) == prefix,
            stamped_from(
                records@,
                start,
                effect_drafts(es@.subrange(0, i as int), res.turn_id@, views(existing@)),
                *current,
                recorded_at@,
            ),
        decreases es.len() - i,
    {
        let e = &es[i];
        proof {
            assert(es@.subrange(0, i + 1).drop_last() =~= es@.subrange(0, i as int));
        }
        if e.visibility == ResolutionVisibility::PlayerVisible && !any_ref_in(&e.evidence_refs, existing) {
            match consequence_for_effect(e.effect_kind) {
                Some((kind, scope, severity)) => {
                    let idx = dec_string(i as u64);
                    let cid = concat4("consequence:", res.turn_id.as_str(), ":effect:", idx.as_str());
                    let no_entities: Vec<String> = Vec::new();
                    assert(views(no_entities@) =~= Seq::<Seq<char>>::empty());
                    let r = make_record(
                        current,
                        res.turn_id.as_str(),
                        records.len(),
                        cid,
                        ConsequenceEventKind::Introduced,
                        kind,
                        scope,
                        severity,
                        e.summary.clone(),
                        signal_for_kind(kind),
                        clone_strings(&e.evidence_refs),
                        no_entities,
                        one_string(&e.target_ref),
                        recorded_at,
                    );
                    proof {
                        let ds = effect_drafts(es@.subrange(0, i as int), res.turn_id@, views(existing@));
                        lemma_stamped_push(records@, start, ds, r, effect_draft(*e, res.turn_id@, i as int), *current, recorded_at@);
                    }
                    records.push(r);
                },
                None => {},
            }
        }
        i = i + 1;
    }
    assert(es@.subrange(0, es@.len() as int) =~= es@);
}

fn append_tick_records(
    records: &mut Vec<ConsequenceEventRecord>,
    current: &ConsequenceSpinePacket,
    res: &ResolutionProposal,
    recorded_at: &str,
)
    ensures
        final(records)@.subrange(0, old(records)@.len() as int) == old(records)@,
        stamped_from(
            final(records)@,
            old(records)@.len() as int,
            tick_drafts(res.process_ticks@, res.turn_id@),
            *current,
            recorded_at@,
        ),
{
    let ghost start = records@.len() as int;
    let ghost prefix = records@;
    let ts = &res.process_ticks;
    let mut i: usize = 0;
    assert(ts@.subrange(0, 0) =~= Seq::<ProcessTickProposal>::empty());
    while i < ts.len()
        invariant
            i <= ts@.len(),
            ts@ == res.process_ticks@,
            start == prefix.len(),
            records@.subrange(0, start) == prefix,
            stamped_from(
                records@,
                start,
                tick_drafts(ts@.subrange(0, i as int), res.turn_id@),
                *current,
                recorded_at@,
            ),
        decreases ts.len() - i,
    {
        let t = &ts[i];
        proof {
            assert(ts@.subrange(0, i + 1).drop_last() =~= ts@.subrange(0, i as int));
        }
        if t.visibility == ResolutionVisibility::PlayerVisible {
            let idx = dec_string(i as u64);
            let cid = concat4("consequence:", res.turn_id.as_str(), ":process:", idx.as_str());
            let no_entities: Vec<String> = Vec::new();
            assert(views(no_entities@) =~= Seq::<Seq<char>>::empty());
            let r = make_record(
                current,
                res.turn_id.as_str(),
                records.len(),
                cid,
                ConsequenceEventKind::Introduced,
                ConsequenceKind::ProcessAccelerated,
                ConsequenceScope::WorldProcess,
                ConsequenceSeverity::Moderate,
                t.summary.clone(),
                String::from_str("건드린 진행 시계가 다음 장면에도 압력으로 남는다."),
                clone_strings(&t.evidence_refs),
                no_entities,
                one_string(&t.process_ref),
                recorded_at,
            );
            proof {
                let ds = tick_drafts(ts@.subrange(0, i as int), res.turn_id@);
                lemma_stamped_push(records@, start, ds, r, tick_draft(*t, res.turn_id@, i as int), *current, recorded_at@);
            }
            records.push(r);
        }
        i = i + 1;
    }
    assert(ts@.subrange(0, ts@.len() as int) =~= ts@);
}

/// Appends what a resolution leaves to the records, numbering on from them;
/// `existing` holds the evidence refs that earlier records already carry.
pub fn derive_consequence_records(
    records: &mut Vec<ConsequenceEventRecord>,
    current: &ConsequenceSpinePacket,
    resolution: &ResolutionProposal,
    existing: &Vec<String>,
    recorded_at: &str,
)
    ensures
        final(records)@.subrange(0, old(records)@.len() as int) == old(records)@,
        stamped_from(
            final(records)@,
            old(records)@.len() as int,
            resolution_drafts(*resolution, views(existing@)),
            *current,
            recorded_at@,
        ),
{
    let ghost start = records@.len() as int;
    let ghost r0 = records@;
    let start_len = records.len();
    let ghost turn = resolution.turn_id@;
    let ghost ex = views(existing@);
    append_gate_records(records, current, resolution, existing, recorded_at);
    let ghost r1 = records@;
    append_effect_records(records, current, resolution, existing, recorded_at);
    let ghost r2 = records@;
    proof {
        let g = gate_drafts(resolution.gate_results@, turn, ex);
        let e = effect_drafts(resolution.proposed_effects@, turn, ex);
        assert(r2.subrange(0, start + g.len()) =~= r1);
        lemma_stamped_concat(r1, r2, start, g, e, *current, recorded_at@);
    }
    append_tick_records(records, current, resolution, recorded_at);
    let ghost r3 = records@;
    proof {
        let g = gate_drafts(resolution.gate_results@, turn, ex);
        let e = effect_drafts(resolution.proposed_effects@, turn, ex);
        let t = tick_drafts(resolution.process_ticks@, turn);
        assert(r3.subrange(0, start + (g + e).len()) =~= r2);
        lemma_stamped_concat(r2, r3, start, g + e, t, *current, recorded_at@);
        assert(r3.subrange(0, start) =~= r2.subrange(0, start));
        assert(r2.subrange(0, start) =~= r1.subrange(0, start));
    }
    if resolution.outcome.kind == ResolutionOutcomeKind::CostlySuccess && records.len() == start_len
        && resolution.outcome.evidence_refs.len() > 0 {
        let cid = concat2("consequence:", resolution.turn_id.as_str());
        let cid = concat2(cid.as_str(), ":costly_success");
        let no_entities: Vec<String> = Vec::new();
        let no_projections: Vec<String> = Vec::new();
        assert(views(no_entities@) =~= Seq::<Seq<char>>::empty());
        assert(views(no_projections@) =~= Seq::<Seq<char>>::empty());
        let r = make_record(
            current,
            resolution.turn_id.as_str(),
            records.len(),
            cid,
            ConsequenceEventKind::Introduced,
            ConsequenceKind::MoralDebt,
            ConsequenceScope::Scene,
            ConsequenceSeverity::Moderate,
            resolution.outcome.summary.clone(),
            String::from_str("성공의 대가가 아직 완전히 사라지지 않았다."),
            clone_strings(&resolution.outcome.evidence_refs),
            no_entities,
            no_projections,
            recorded_at,
        );
        proof {
            lemma_stamped_push(records@, start, Seq::empty(), r, costly_success_draft(*resolution), *current, recorded_at@);
            assert(Seq::<ConsequenceDraft>::empty().push(costly_success_draft(*resolution)) =~= seq![costly_success_draft(*resolution)]);
            assert(records@.push(r).subrange(0, start) =~= records@.subrange(0, start));
        }
        records.push(r);
    }
}


fn append_exchange_records(
    records: &mut Vec<ConsequenceEventRecord>,
    current: &ConsequenceSpinePacket,
    social: &SocialExchangeProposal,
    existing: &Vec<String>,
    recorded_at: &str,
)
    ensures
        final(records)@.subrange(0, old(records)@.len() as int) == old(records)@,
        stamped_from(
            final(records)@,
            old(records)@.len() as int,
            exchange_drafts(social.exchanges@, current.turn_id@, social.turn_id@, views(existing@)),
            *current,
            recorded_at@,
        ),
{
    let ghost start = records@.len() as int;
    let ghost prefix = records@;
    let xs = &social.exchanges;
    let mut i: usize = 0;
    assert(xs@.subrange(0, 0) =~= Seq::<SocialExchangeMutation>::empty());
    while i < xs.len()
        invariant
            i <= xs@.len(),
            xs@ == social.exchanges@,
            start == prefix.len(),
            records@.subrange(0, start) == prefix,
            stamped_from(
                records@,
                start,
                exchange_drafts(xs@.subrange(0, i as int), current.turn_id@, social.turn_id@, views(existing@)),
                *current,
                recorded_at@,
            ),
        decreases xs.len() - i,
    {
        let x = &xs[i];
        proof {
            assert(xs@.subrange(0, i + 1).drop_last() =~= xs@.subrange(0, i as int));
        }
        let charged = x.intensity_after == SocialIntensity::High || x.intensity_after == SocialIntensity::Crisis
            || x.stance_after == DialogueStanceKind::Offended || x.stance_after == DialogueStanceKind::Threatening
            || x.stance_after == DialogueStanceKind::Indebted || x.stance_after == DialogueStanceKind::Withholding;
        if !any_ref_in(&x.source_refs, existing) && charged {
            let idx = dec_string(i as u64);
            let cid = concat4("consequence:", social.turn_id.as_str(), ":social_exchange:", idx.as_str());
            let mut linked = clone_strings(&x.relationship_refs);
            let mut more = clone_strings(&x.consequence_refs);
            let ghost l0 = linked@;
            let ghost m0 = more@;
            linked.append(&mut more);
            proof {
                assert(views(linked@) =~= views(l0) + views(m0));
            }
            let no_entities: Vec<String> = Vec::new();
            assert(views(no_entities@) =~= Seq::<Seq<char>>::empty());
            let r = make_record(
                current,
                current.turn_id.as_str(),
                records.len(),
                cid,
                ConsequenceEventKind::Introduced,
                consequence_kind_from_stance(x.stance_after),
                ConsequenceScope::Relationship,
                severity_from_social_intensity(x.intensity_after),
                x.summary.clone(),
                x.player_visible_signal.clone(),
                clone_strings(&x.source_refs),
                no_entities,
                linked,
                recorded_at,
            );
            proof {
                let ds = exchange_drafts(xs@.subrange(0, i as int), current.turn_id@, social.turn_id@, views(existing@));
                lemma_stamped_push(records@, start, ds, r, exchange_draft(*x, current.turn_id@, social.turn_id@, i as int), *current, recorded_at@);
            }
            records.push(r);
        }
        i = i + 1;
    }
    assert(xs@.subrange(0, xs@.len() as int) =~= xs@);
}

fn append_commitment_records(
    records: &mut Vec<ConsequenceEventRecord>,
    current: &ConsequenceSpinePacket,
    social: &SocialExchangeProposal,
    existing: &Vec<String>,
    recorded_at: &str,
)
    ensures
        final(records)@.subrange(0, old(records)@.len() as int) == old(records)@,
        stamped_from(
            final(records)@,
            old(records)@.len() as int,
            commitment_drafts(social.commitments@, current.turn_id@, social.turn_id@, views(existing@)),
            *current,
            recorded_at@,
        ),
{
    let ghost start = records@.len() as int;
    let ghost prefix = records@;
    let cs = &social.commitments;
    let mut i: usize = 0;
    assert(cs@.subrange(0, 0) =~= Seq::<SocialCommitmentMutation>::empty());
    while i < cs.len()
        invariant
            i <= cs@.len(),
            cs@ == social.commitments@,
            start == prefix.len(),
            records@.subrange(0, start) == prefix,
            stamped_from(
                records@,
                start,
                commitment_drafts(cs@.subrange(0, i as int), current.turn_id@, social.turn_id@, views(existing@)),
                *current,
                recorded_at@,
            ),
        decreases cs.len() - i,
    {
        let c = &cs[i];
        proof {
            assert(cs@.subrange(0, i + 1).drop_last() =~= cs@.subrange(0, i as int));
        }
        if !any_ref_in(&c.source_refs, existing) {
            let idx = dec_string(i as u64);
            let cid = concat4("consequence:", social.turn_id.as_str(), ":social_commitment:", idx.as_str());
            let no_entities: Vec<String> = Vec::new();
            assert(views(no_entities@) =~= Seq::<Seq<char>>::empty());
            let r = make_record(
                current,
                current.turn_id.as_str(),
                records.len(),
                cid,
                ConsequenceEventKind::Introduced,
                consequence_kind_from_commitment(c.kind),
                ConsequenceScope::Relationship,
                ConsequenceSeverity::Moderate,
                c.summary.clone(),
                c.condition.clone(),
                clone_strings(&c.source_refs),
                no_entities,
                clone_strings(&c.consequence_refs),
                recorded_at,
            );
            proof {
                let ds = commitment_drafts(cs@.subrange(0, i as int), current.turn_id@, social.turn_id@, views(existing@));
                lemma_stamped_push(records@, start, ds, r, commitment_draft(*c, current.turn_id@, social.turn_id@, i as int), *current, recorded_at@);
            }
            records.push(r);
        }
        i = i + 1;
    }
    assert(cs@.subrange(0, cs@.len() as int) =~= cs@);
}

/// Appends what a social exchange leaves to the records, numbering on from
/// them; `existing` holds the refs that earlier records already carry.
pub fn derive_consequence_records_from_social_exchange(
    records: &mut Vec<ConsequenceEventRecord>,
    current: &ConsequenceSpinePacket,
    social: &SocialExchangeProposal,
    existing: &Vec<String>,
    recorded_at: &str,
)
    ensures
        final(records)@.subrange(0, old(records)@.len() as int) == old(records)@,
        stamped_from(
            final(records)@,
            old(records)@.len() as int,
            social_drafts(current.turn_id@, *social, views(existing@)),
            *current,
            recorded_at@,
        ),
{
    let ghost start = records@.len() as int;
    let ghost r0 = records@;
    append_exchange_records(records, current, social, existing, recorded_at);
    let ghost r1 = records@;
    append_commitment_records(records, current, social, existing, recorded_at);
    proof {
        let x = exchange_drafts(social.exchanges@, current.turn_id@, social.turn_id@, views(existing@));
        let c = commitment_drafts(social.commitments@, current.turn_id@, social.turn_id@, views(existing@));
        assert(records@.subrange(0, start + x.len()) =~= r1);
        lemma_stamped_concat(r1, records@, start, x, c, *current, recorded_at@);
        assert(records@.subrange(0, start) =~= r1.subrange(0, start));
    }
}

/// The source refs of the records, in order.
pub open spec fn record_refs(rs: Seq<ConsequenceEventRecord>) -> Seq<Seq<char>>
    decreases rs.len(),
{
    if rs.len() == 0 {
        Seq::empty()
    } else {
        record_refs(rs.drop_last()) + views(rs.last().source_refs@)
    }
}

pub proof fn lemma_record_refs_of_stamped(
    rs: Seq<ConsequenceEventRecord>,
    ds: Seq<ConsequenceDraft>,
    current: ConsequenceSpinePacket,
    recorded_at: Seq<char>,
)
    requires
        stamped_from(rs, 0, ds, current, recorded_at),
    ensures
        record_refs(rs) == draft_refs(ds),
    decreases ds.len(),
{
    if ds.len() > 0 {
        let rs0 = rs.drop_last();
        let ds0 = ds.drop_last();
        assert forall|k: int| 0 <= k < ds0.len() implies stamped(
            #[trigger] rs0[0 + k],
            ds0[k],
            current,
            0 + k,
            recorded_at,
        ) by {
            assert(stamped(rs[0 + k], ds[k], current, 0 + k, recorded_at));
        }
        lemma_record_refs_of_stamped(rs0, ds0, current, recorded_at);
        assert(stamped(rs[0 + (ds.len() - 1)], ds[ds.len() - 1], current, ds.len() - 1, recorded_at));
    }
}

fn collect_record_refs(rs: &Vec<ConsequenceEventRecord>) -> (r: Vec<String>)
    ensures
        views(r@) == record_refs(rs@),
{
    let mut out: Vec<String> = Vec::new();
    let mut i: usize = 0;
    while i < rs.len()
        invariant
            i <= rs@.len(),
            views(out@) == record_refs(rs@.subrange(0, i as int)),
        decreases rs.len() - i,
    {
        let mut more = clone_strings(&rs[i].source_refs);
        let ghost o0 = out@;
        let ghost m0 = more@;
        out.append(&mut more);
        proof {
            assert(rs@.subrange(0, i + 1).drop_last() =~= rs@.subrange(0, i as int));
            assert(views(out@) =~= views(o0) + views(m0));
        }
        i = i + 1;
    }
    assert(rs@.subrange(0, rs@.len() as int) =~= rs@);
    out
}


// ---------------------------------------------------------------------------
// The consequence proposal.
// ---------------------------------------------------------------------------

/// The reason a proposal is refused, as the contracts speak of it.
pub enum ConsequenceFault {
    SchemaVersionMismatch,
    WorldTurnMismatch,
    MutationMissingSourceRefs,
    MutationMissingVisibleText,
    EphemeralMissingEvidence,
    PayoffInactive(Seq<char>),
    PayoffMissingEvidence,
}

pub open spec fn fault_of(e: ConsequenceSpineError) -> ConsequenceFault {
    match e {
        ConsequenceSpineError::SchemaVersionMismatch => ConsequenceFault::SchemaVersionMismatch,
        ConsequenceSpineError::WorldTurnMismatch => ConsequenceFault::WorldTurnMismatch,
        ConsequenceSpineError::MutationMissingSourceRefs => ConsequenceFault::MutationMissingSourceRefs,
        ConsequenceSpineError::MutationMissingVisibleText => ConsequenceFault::MutationMissingVisibleText,
        ConsequenceSpineError::EphemeralMissingEvidence => ConsequenceFault::EphemeralMissingEvidence,
        ConsequenceSpineError::PayoffInactive { consequence_id } => ConsequenceFault::PayoffInactive(
            consequence_id@,
        ),
        ConsequenceSpineError::PayoffMissingEvidence => ConsequenceFault::PayoffMissingEvidence,
    }
}

/// The first mutation check that fails, in order.
pub open spec fn mutation_fault(ms: Seq<ConsequenceMutation>) -> Option<ConsequenceFault>
    decreases ms.len(),
{
    if ms.len() == 0 {
        None
    } else {
        match mutation_fault(ms.drop_last()) {
            Some(f) => Some(f),
            None => {
                let m = ms.last();
                if m.source_refs@.len() == 0 {
                    Some(ConsequenceFault::MutationMissingSourceRefs)
                } else if is_blank(m.summary@) || is_blank(m.player_visible_signal@) {
                    Some(ConsequenceFault::MutationMissingVisibleText)
                } else {
                    None
                }
            },
        }
    }
}

pub proof fn lemma_mutation_fault_prefix(ms: Seq<ConsequenceMutation>, k: int)
    requires
        0 <= k <= ms.len(),
        mutation_fault(ms.subrange(0, k)) is Some,
    ensures
        mutation_fault(ms) == mutation_fault(ms.subrange(0, k)),
    decreases ms.len() - k,
{
    if k < ms.len() {
        assert(ms.subrange(0, k + 1).drop_last() =~= ms.subrange(0, k));
        lemma_mutation_fault_prefix(ms, k + 1);
    } else {
        assert(ms.subrange(0, k) =~= ms);
    }
}

/// The first active consequence with id `id`, or -1.
pub open spec fn first_active(active: Seq<ActiveConsequence>, id: Seq<char>) -> int
    decreases active.len(),
{
    if active.len() == 0 {
        -1
    } else {
        let f = first_active(active.drop_last(), id);
        if f >= 0 {
            f
        } else if active.last().consequence_id@ == id {
            active.len() - 1
        } else {
            -1
        }
    }
}

pub proof fn lemma_first_active(active: Seq<ActiveConsequence>, id: Seq<char>)
    ensures
        -1 <= first_active(active, id) < active.len(),
        first_active(active, id) >= 0 ==> active[first_active(active, id)].consequence_id@ == id,
        first_active(active, id) >= 0 ==> forall|j: int|
            0 <= j < first_active(active, id) ==> active[j].consequence_id@ != id,
        first_active(active, id) < 0 ==> forall|j: int|
            0 <= j < active.len() ==> active[j].consequence_id@ != id,
    decreases active.len(),
{
    if active.len() > 0 {
        let d = active.drop_last();
        lemma_first_active(d, id);
        assert forall|j: int| 0 <= j < d.len() implies active[j] == d[j] by {}
    }
}

pub proof fn lemma_first_active_is(active: Seq<ActiveConsequence>, id: Seq<char>, i: int)
    requires
        0 <= i < active.len(),
        active[i].consequence_id@ == id,
        forall|j: int| 0 <= j < i ==> active[j].consequence_id@ != id,
    ensures
        first_active(active, id) == i,
    decreases active.len(),
{
    let d = active.drop_last();
    if i < active.len() - 1 {
        lemma_first_active_is(d, id, i);
    } else {
        lemma_first_active(d, id);
        if first_active(d, id) >= 0 {
            assert(d[first_active(d, id)] == active[first_active(d, id)]);
        }
    }
}

/// The first payoff check that fails, in order.
pub open spec fn payoff_fault(active: Seq<ActiveConsequence>, ps: Seq<ConsequencePayoff>) -> Option<
    ConsequenceFault,
>
    decreases ps.len(),
{
    if ps.len() == 0 {
        None
    } else {
        match payoff_fault(active, ps.drop_last()) {
            Some(f) => Some(f),
            None => {
                let p = ps.last();
                if first_active(active, p.consequence_id@) < 0 {
                    Some(ConsequenceFault::PayoffInactive(p.consequence_id@))
                } else if p.evidence_refs@.len() == 0 {
                    Some(ConsequenceFault::PayoffMissingEvidence)
                } else {
                    None
                }
            },
        }
    }
}

pub proof fn lemma_payoff_fault_prefix(
    active: Seq<ActiveConsequence>,
    ps: Seq<ConsequencePayoff>,
    k: int,
)
    requires
        0 <= k <= ps.len(),
        payoff_fault(active, ps.subrange(0, k)) is Some,
    ensures
        payoff_fault(active, ps) == payoff_fault(active, ps.subrange(0, k)),
    decreases ps.len() - k,
{
    if k < ps.len() {
        assert(ps.subrange(0, k + 1).drop_last() =~= ps.subrange(0, k));
        lemma_payoff_fault_prefix(active, ps, k + 1);
    } else {
        assert(ps.subrange(0, k) =~= ps);
    }
}

pub open spec fn ephemeral_fault(es: Seq<EphemeralConsequenceReason>) -> bool {
    exists|i: int| 0 <= i < es.len() && (#[trigger] es[i]).evidence_refs@.len() == 0
}

/// The checks of a proposal's own shape, before its payoffs are matched.
pub open spec fn validation_fault(current: ConsequenceSpinePacket, p: ConsequenceProposal) -> Option<
    ConsequenceFault,
> {
    if p.schema_version@ != CONSEQUENCE_PROPOSAL_SCHEMA_VERSION@ {
        Some(ConsequenceFault::SchemaVersionMismatch)
    } else if p.world_id@ != current.world_id@ || p.turn_id@ != current.turn_id@ {
        Some(ConsequenceFault::WorldTurnMismatch)
    } else if mutation_fault(p.introduced@ + p.updated@) is Some {
        mutation_fault(p.introduced@ + p.updated@)
    } else if ephemeral_fault(p.ephemeral_effects@) {
        Some(ConsequenceFault::EphemeralMissingEvidence)
    } else {
        None
    }
}

/// Why the proposal is refused against the current packet, if it is.
pub open spec fn proposal_fault(current: ConsequenceSpinePacket, p: ConsequenceProposal) -> Option<
    ConsequenceFault,
> {
    if p.schema_version@ != CONSEQUENCE_PROPOSAL_SCHEMA_VERSION@ {
        Some(ConsequenceFault::SchemaVersionMismatch)
    } else if p.world_id@ != current.world_id@ || p.turn_id@ != current.turn_id@ {
        Some(ConsequenceFault::WorldTurnMismatch)
    } else if mutation_fault(p.introduced@ + p.updated@) is Some {
        mutation_fault(p.introduced@ + p.updated@)
    } else if ephemeral_fault(p.ephemeral_effects@) {
        Some(ConsequenceFault::EphemeralMissingEvidence)
    } else {
        payoff_fault(current.active@, p.paid_off@)
    }
}

pub open spec fn is_active_id(active: Seq<ActiveConsequence>, id: Seq<char>) -> bool {
    exists|i: int| 0 <= i < active.len() && (#[trigger] active[i]).consequence_id@ == id
}

pub open spec fn mutation_draft(
    active: Seq<ActiveConsequence>,
    m: ConsequenceMutation,
    turn: Seq<char>,
) -> ConsequenceDraft {
    ConsequenceDraft {
        event_turn: turn,
        consequence_id: m.consequence_id@,
        event_kind: if is_active_id(active, m.consequence_id@) {
            ConsequenceEventKind::Escalated
        } else {
            ConsequenceEventKind::Introduced
        },
        kind: m.kind,
        scope: m.scope,
        severity: m.severity,
        summary: m.summary@,
        player_visible_signal: m.player_visible_signal@,
        source_refs: views(m.source_refs@),
        linked_entity_refs: views(m.linked_entity_refs@),
        linked_projection_refs: views(m.linked_projection_refs@),
    }
}

pub open spec fn payoff_draft(a: ActiveConsequence, p: ConsequencePayoff, turn: Seq<char>) -> ConsequenceDraft {
    ConsequenceDraft {
        event_turn: turn,
        consequence_id: p.consequence_id@,
        event_kind: ConsequenceEventKind::PaidOff,
        kind: a.kind,
        scope: a.scope,
        severity: a.severity,
        summary: p.payoff_summary@,
        player_visible_signal: p.payoff_summary@,
        source_refs: views(p.evidence_refs@),
        linked_entity_refs: views(a.linked_entity_refs@),
        linked_projection_refs: views(a.linked_projection_refs@),
    }
}

/// The records a valid proposal makes: its mutations (introduced, then
/// updated), then its payoffs.
pub open spec fn proposal_drafts(current: ConsequenceSpinePacket, p: ConsequenceProposal) -> Seq<
    ConsequenceDraft,
> {
    let ms = p.introduced@ + p.updated@;
    let active = current.active@;
    Seq::new(ms.len(), |i: int| mutation_draft(active, ms[i], current.turn_id@)) + Seq::new(
        p.paid_off@.len(),
        |i: int|
            payoff_draft(
                active[first_active(active, p.paid_off@[i].consequence_id@)],
                p.paid_off@[i],
                current.turn_id@,
            ),
    )
}

/// Every record of a plan: the proposal's, then the resolution's, then the
/// social exchange's, each derivation skipping evidence that earlier
/// records already carry.
pub open spec fn plan_drafts(
    current: ConsequenceSpinePacket,
    proposal: Option<ConsequenceProposal>,
    resolution: Option<ResolutionProposal>,
    social: Option<SocialExchangeProposal>,
) -> Seq<ConsequenceDraft> {
    let a = match proposal {
        Some(p) => proposal_drafts(current, p),
        None => Seq::empty(),
    };
    let b = match resolution {
        Some(r) => resolution_drafts(r, draft_refs(a)),
        None => Seq::empty(),
    };
    let c = match social {
        Some(s) => social_drafts(current.turn_id@, s, draft_refs(a + b)),
        None => Seq::empty(),
    };
    a + b + c
}

pub proof fn lemma_draft_refs_concat(a: Seq<ConsequenceDraft>, b: Seq<ConsequenceDraft>)
    ensures
        draft_refs(a + b) == draft_refs(a) + draft_refs(b),
    decreases b.len(),
{
    if b.len() == 0 {
        assert(a + b =~= a);
    } else {
        assert((a + b).drop_last() =~= a + b.drop_last());
        lemma_draft_refs_concat(a, b.drop_last());
    }
}

fn validate_consequence_proposal(current: &ConsequenceSpinePacket, p: &ConsequenceProposal) -> (r:
    Result<(), ConsequenceSpineError>)
    ensures
        match r {
            Ok(()) => proposal_fault(*current, *p) == payoff_fault(current.active@, p.paid_off@),
            Err(e) => proposal_fault(*current, *p) == Some(fault_of(e)),
        },
        match r {
            Ok(()) => validation_fault(*current, *p) is None,
            Err(e) => validation_fault(*current, *p) == Some(fault_of(e)),
        },
{
    if !str_eq(p.schema_version.as_str(), CONSEQUENCE_PROPOSAL_SCHEMA_VERSION) {
        return Err(ConsequenceSpineError::SchemaVersionMismatch);
    }
    if !str_eq(p.world_id.as_str(), current.world_id.as_str()) || !str_eq(
        p.turn_id.as_str(),
        current.turn_id.as_str(),
    ) {
        return Err(ConsequenceSpineError::WorldTurnMismatch);
    }
    let ghost ms = p.introduced@ + p.updated@;
    let mut i: usize = 0;
    while i < p.introduced.len()
        invariant
            i <= p.introduced@.len(),
            ms == p.introduced@ + p.updated@,
            p.schema_version@ == CONSEQUENCE_PROPOSAL_SCHEMA_VERSION@,
            p.world_id@ == current.world_id@,
            p.turn_id@ == current.turn_id@,
            mutation_fault(ms.subrange(0, i as int)) is None,
        decreases p.introduced.len() - i,
    {
        let m = &p.introduced[i];
        proof {
            assert(ms.subrange(0, i + 1).drop_last() =~= ms.subrange(0, i as int));
            assert(ms[i as int] == *m);
        }
        proof {
            assert(ms.subrange(0, i + 1).last() == *m);
        }
        if m.source_refs.len() == 0 {
            proof { lemma_mutation_fault_prefix(ms, i + 1); }
            return Err(ConsequenceSpineError::MutationMissingSourceRefs);
        }
        if is_blank_str(m.summary.as_str()) || is_blank_str(m.player_visible_signal.as_str()) {
            proof { lemma_mutation_fault_prefix(ms, i + 1); }
            return Err(ConsequenceSpineError::MutationMissingVisibleText);
        }
        i = i + 1;
    }
    let n = p.introduced.len();
    let mut j: usize = 0;
    while j < p.updated.len()
        invariant
            j <= p.updated@.len(),
            n == p.introduced@.len(),
            ms == p.introduced@ + p.updated@,
            p.schema_version@ == CONSEQUENCE_PROPOSAL_SCHEMA_VERSION@,
            p.world_id@ == current.world_id@,
            p.turn_id@ == current.turn_id@,
            mutation_fault(ms.subrange(0, n + j)) is None,
        decreases p.updated.len() - j,
    {
        let m = &p.updated[j];
        proof {
            assert(ms.subrange(0, n + j + 1).drop_last() =~= ms.subrange(0, n + j));
            assert(ms[n + j] == *m);
        }
        proof {
            assert(ms.subrange(0, n + j + 1).last() == *m);
        }
        if m.source_refs.len() == 0 {
            proof { lemma_mutation_fault_prefix(ms, n + j + 1); }
            return Err(ConsequenceSpineError::MutationMissingSourceRefs);
        }
        if is_blank_str(m.summary.as_str()) || is_blank_str(m.player_visible_signal.as_str()) {
            proof { lemma_mutation_fault_prefix(ms, n + j + 1); }
            return Err(ConsequenceSpineError::MutationMissingVisibleText);
        }
        j = j + 1;
    }
    assert(ms.subrange(0, ms.len() as int) =~= ms);
    let mut k: usize = 0;
    while k < p.ephemeral_effects.len()
        invariant
            k <= p.ephemeral_effects@.len(),
            ms == p.introduced@ + p.updated@,
            mutation_fault(ms) is None,
            p.schema_version@ == CONSEQUENCE_PROPOSAL_SCHEMA_VERSION@,
            p.world_id@ == current.world_id@,
            p.turn_id@ == current.turn_id@,
            forall|x: int| 0 <= x < k ==> (#[trigger] p.ephemeral_effects@[x]).evidence_refs@.len() > 0,
        decreases p.ephemeral_effects.len() - k,
    {
        if p.ephemeral_effects[k].evidence_refs.len() == 0 {
            proof {
                assert(p.ephemeral_effects@[k as int].evidence_refs@.len() == 0);
                assert(mutation_fault(ms) is None);
            }
            return Err(ConsequenceSpineError::EphemeralMissingEvidence);
        }
        k = k + 1;
    }
    Ok(())
}

fn find_active(active: &Vec<ActiveConsequence>, id: &str) -> (r: Option<usize>)
    ensures
        match r {
            Some(k) => k as int == first_active(active@, id@),
            None => first_active(active@, id@) < 0,
        },
{
    let mut i: usize = 0;
    while i < active.len()
        invariant
            i <= active@.len(),
            forall|j: int| 0 <= j < i ==> active@[j].consequence_id@ != id@,
        decreases active.len() - i,
    {
        if str_eq(active[i].consequence_id.as_str(), id) {
            proof {
                lemma_first_active_is(active@, id@, i as int);
            }
            return Some(i);
        }
        i = i + 1;
    }
    proof {
        lemma_first_active(active@, id@);
        if first_active(active@, id@) >= 0 {
            assert(active@[first_active(active@, id@)].consequence_id@ == id@);
        }
    }
    None
}

fn active_id_known(active: &Vec<ActiveConsequence>, id: &str) -> (r: bool)
    ensures
        r == is_active_id(active@, id@),
{
    proof { lemma_first_active(active@, id@); }
    match find_active(active, id) {
        Some(_) => true,
        None => false,
    }
}

fn append_mutation_record(
    records: &mut Vec<ConsequenceEventRecord>,
    current: &ConsequenceSpinePacket,
    m: &ConsequenceMutation,
    recorded_at: &str,
)
    ensures
        final(records)@ == old(records)@.push(final(records)@.last()),
        stamped(
            final(records)@.last(),
            mutation_draft(current.active@, *m, current.turn_id@),
            *current,
            old(records)@.len() as int,
            recorded_at@,
        ),
{
    let event_kind = if active_id_known(&current.active, m.consequence_id.as_str()) {
        ConsequenceEventKind::Escalated
    } else {
        ConsequenceEventKind::Introduced
    };
    let r = make_record(
        current,
        current.turn_id.as_str(),
        records.len(),
        m.consequence_id.clone(),
        event_kind,
        m.kind,
        m.scope,
        m.severity,
        m.summary.clone(),
        m.player_visible_signal.clone(),
        clone_strings(&m.source_refs),
        clone_strings(&m.linked_entity_refs),
        clone_strings(&m.linked_projection_refs),
        recorded_at,
    );
    records.push(r);
}

/// The records a proposal makes, appended after validating it.
fn append_proposal_records(
    records: &mut Vec<ConsequenceEventRecord>,
    current: &ConsequenceSpinePacket,
    p: &ConsequenceProposal,
    recorded_at: &str,
) -> (r: Result<(), ConsequenceSpineError>)
    requires
        old(records)@.len() == 0,
    ensures
        match r {
            Ok(()) => proposal_fault(*current, *p) is None && stamped_from(
                final(records)@,
                0,
                proposal_drafts(*current, *p),
                *current,
                recorded_at@,
            ),
            Err(e) => proposal_fault(*current, *p) == Some(fault_of(e)),
        },
{
    validate_consequence_proposal(current, p)?;
    let ghost ms = p.introduced@ + p.updated@;
    let ghost active = current.active@;
    let ghost mds = Seq::new(ms.len(), |i: int| mutation_draft(active, ms[i], current.turn_id@));
    let mut i: usize = 0;
    while i < p.introduced.len()
        invariant
            i <= p.introduced@.len(),
            ms == p.introduced@ + p.updated@,
            active == current.active@,
            mds == Seq::new(ms.len(), |i: int| mutation_draft(active, ms[i], current.turn_id@)),
            stamped_from(records@, 0, mds.subrange(0, i as int), *current, recorded_at@),
        decreases p.introduced.len() - i,
    {
        let ghost before = records@;
        append_mutation_record(records, current, &p.introduced[i], recorded_at);
        proof {
            assert(ms[i as int] == p.introduced@[i as int]);
            lemma_stamped_push(before, 0, mds.subrange(0, i as int), records@.last(), mds[i as int], *current, recorded_at@);
            assert(mds.subrange(0, i as int).push(mds[i as int]) =~= mds.subrange(0, i + 1));
        }
        i = i + 1;
    }
    let n = p.introduced.len();
    let mut j: usize = 0;
    while j < p.updated.len()
        invariant
            j <= p.updated@.len(),
            n == p.introduced@.len(),
            ms == p.introduced@ + p.updated@,
            active == current.active@,
            mds == Seq::new(ms.len(), |i: int| mutation_draft(active, ms[i], current.turn_id@)),
            stamped_from(records@, 0, mds.subrange(0, n + j), *current, recorded_at@),
        decreases p.updated.len() - j,
    {
        let ghost before = records@;
        append_mutation_record(records, current, &p.updated[j], recorded_at);
        proof {
            assert(ms[n + j] == p.updated@[j as int]);
            lemma_stamped_push(before, 0, mds.subrange(0, n + j), records@.last(), mds[n + j], *current, recorded_at@);
            assert(mds.subrange(0, n + j).push(mds[n + j]) =~= mds.subrange(0, n + j + 1));
        }
        j = j + 1;
    }
    assert(mds.subrange(0, ms.len() as int) =~= mds);
    let ghost pds = Seq::new(
        p.paid_off@.len(),
        |i: int|
            payoff_draft(
                active[first_active(active, p.paid_off@[i].consequence_id@)],
                p.paid_off@[i],
                current.turn_id@,
            ),
    );
    let ghost base = records@;
    let mut k: usize = 0;
    while k < p.paid_off.len()
        invariant
            k <= p.paid_off@.len(),
            active == current.active@,
            proposal_fault(*current, *p) == payoff_fault(current.active@, p.paid_off@),
            base.len() == mds.len(),
            payoff_fault(active, p.paid_off@.subrange(0, k as int)) is None,
            stamped_from(base, 0, mds, *current, recorded_at@),
            records@.subrange(0, base.len() as int) == base,
            pds == Seq::new(
                p.paid_off@.len(),
                |i: int|
                    payoff_draft(
                        active[first_active(active, p.paid_off@[i].consequence_id@)],
                        p.paid_off@[i],
                        current.turn_id@,
                    ),
            ),
            stamped_from(records@, base.len() as int, pds.subrange(0, k as int), *current, recorded_at@),
        decreases p.paid_off.len() - k,
    {
        let payoff = &p.paid_off[k];
        proof {
            assert(p.paid_off@.subrange(0, k + 1).drop_last() =~= p.paid_off@.subrange(0, k as int));
            assert(p.paid_off@.subrange(0, k + 1).last() == *payoff);
        }
        let found = find_active(&current.active, payoff.consequence_id.as_str());
        match found {
            None => {
                proof { lemma_payoff_fault_prefix(active, p.paid_off@, k + 1); }
                return Err(
                    ConsequenceSpineError::PayoffInactive {
                        consequence_id: payoff.consequence_id.clone(),
                    },
                );
            },
            Some(a) => {
                if payoff.evidence_refs.len() == 0 {
                    proof { lemma_payoff_fault_prefix(active, p.paid_off@, k + 1); }
                    return Err(ConsequenceSpineError::PayoffMissingEvidence);
                }
                proof {
                    lemma_first_active(current.active@, payoff.consequence_id@);
                }
                let act = &current.active[a];
                let r = make_record(
                    current,
                    current.turn_id.as_str(),
                    records.len(),
                    payoff.consequence_id.clone(),
                    ConsequenceEventKind::PaidOff,
                    act.kind,
                    act.scope,
                    act.severity,
                    payoff.payoff_summary.clone(),
                    payoff.payoff_summary.clone(),
                    clone_strings(&payoff.evidence_refs),
                    clone_strings(&act.linked_entity_refs),
                    clone_strings(&act.linked_projection_refs),
                    recorded_at,
                );
                proof {
                    lemma_stamped_push(records@, base.len() as int, pds.subrange(0, k as int), r, pds[k as int], *current, recorded_at@);
                    assert(pds.subrange(0, k as int).push(pds[k as int]) =~= pds.subrange(0, k + 1));
                    assert(records@.push(r).subrange(0, base.len() as int) =~= records@.subrange(0, base.len() as int));
                }
                records.push(r);
            },
        }
        k = k + 1;
    }
    proof {
        assert(p.paid_off@.subrange(0, p.paid_off@.len() as int) =~= p.paid_off@);
        assert(pds.subrange(0, pds.len() as int) =~= pds);
        lemma_stamped_concat(base, records@, 0, mds, pds, *current, recorded_at@);
    }
    Ok(())
}


pub open spec fn some_proposal(o: Option<&ConsequenceProposal>) -> Option<ConsequenceProposal> {
    match o {
        Some(p) => Some(*p),
        None => None,
    }
}

pub open spec fn some_resolution(o: Option<&ResolutionProposal>) -> Option<ResolutionProposal> {
    match o {
        Some(p) => Some(*p),
        None => None,
    }
}

pub open spec fn some_social(o: Option<&SocialExchangeProposal>) -> Option<SocialExchangeProposal> {
    match o {
        Some(p) => Some(*p),
        None => None,
    }
}

/// The proposal is refused exactly when `proposal_fault` names a fault.
pub open spec fn plan_refused(current: ConsequenceSpinePacket, proposal: Option<ConsequenceProposal>) -> bool {
    match proposal {
        Some(p) => proposal_fault(current, p) is Some,
        None => false,
    }
}

/// The consequence event plan of a turn, stamped `recorded_at`: the
/// proposal's records (after validating it), then what the resolution
/// leaves, then what the social exchange leaves.
pub fn plan_consequence_events(
    current: &ConsequenceSpinePacket,
    proposal: Option<&ConsequenceProposal>,
    resolution: Option<&ResolutionProposal>,
    social_exchange: Option<&SocialExchangeProposal>,
    recorded_at: &str,
) -> (r: Result<ConsequenceEventPlan, ConsequenceSpineError>)
    ensures
        r is Err <==> plan_refused(*current, some_proposal(proposal)),
        match r {
            Ok(plan) => {
                &&& plan.world_id@ == current.world_id@
                &&& plan.turn_id@ == current.turn_id@
                &&& stamped_from(
                    plan.records@,
                    0,
                    plan_drafts(
                        *current,
                        some_proposal(proposal),
                        some_resolution(resolution),
                        some_social(social_exchange),
                    ),
                    *current,
                    recorded_at@,
                )
            },
            Err(e) => proposal_fault(*current, *proposal.unwrap()) == Some(fault_of(e)),
        },
{
    let mut records: Vec<ConsequenceEventRecord> = Vec::new();
    let ghost a: Seq<ConsequenceDraft> = match proposal {
        Some(p) => proposal_drafts(*current, *p),
        None => Seq::empty(),
    };
    match proposal {
        Some(p) => {
            append_proposal_records(&mut records, current, p, recorded_at)?;
        },
        None => {},
    }
    assert(stamped_from(records@, 0, a, *current, recorded_at@));
    let ghost r1 = records@;
    let ghost b: Seq<ConsequenceDraft> = match resolution {
        Some(res) => resolution_drafts(*res, draft_refs(a)),
        None => Seq::empty(),
    };
    match resolution {
        Some(res) => {
            let existing = collect_record_refs(&records);
            proof {
                lemma_record_refs_of_stamped(records@, a, *current, recorded_at@);
            }
            derive_consequence_records(&mut records, current, res, &existing, recorded_at);
        },
        None => {},
    }
    proof {
        assert(records@.subrange(0, a.len() as int) =~= r1);
        lemma_stamped_concat(r1, records@, 0, a, b, *current, recorded_at@);
    }
    let ghost r2 = records@;
    let ghost c: Seq<ConsequenceDraft> = match social_exchange {
        Some(soc) => social_drafts(current.turn_id@, *soc, draft_refs(a + b)),
        None => Seq::empty(),
    };
    match social_exchange {
        Some(soc) => {
            let existing = collect_record_refs(&records);
            proof {
                lemma_record_refs_of_stamped(records@, a + b, *current, recorded_at@);
            }
            derive_consequence_records_from_social_exchange(&mut records, current, soc, &existing, recorded_at);
        },
        None => {},
    }
    proof {
        assert(records@.subrange(0, (a + b).len() as int) =~= r2);
        lemma_stamped_concat(r2, records@, 0, a + b, c, *current, recorded_at@);
    }
    Ok(ConsequenceEventPlan {
        world_id: current.world_id.clone(),
        turn_id: current.turn_id.clone(),
        records,
    })
}

/// The consequence event plan of a turn, stamped with the current time
/// (`Utc::now`). Whatever time came back, the records are the plan's drafts
/// stamped with it.
pub fn prepare_consequence_event_plan(
    current: &ConsequenceSpinePacket,
    proposal: Option<&ConsequenceProposal>,
    resolution: Option<&ResolutionProposal>,
    social_exchange: Option<&SocialExchangeProposal>,
) -> (out: Option<Result<ConsequenceEventPlan, ConsequenceSpineError>>)
    ensures
        out matches Some(r) ==> ({
            &&& (r is Err <==> plan_refused(*current, some_proposal(proposal)))
            &&& (match r {
                Ok(plan) => {
                    &&& plan.world_id@ == current.world_id@
                    &&& plan.turn_id@ == current.turn_id@
                    &&& exists|t: Seq<char>|
                        stamped_from(
                            plan.records@,
                            0,
                            plan_drafts(
                                *current,
                                some_proposal(proposal),
                                some_resolution(resolution),
                                some_social(social_exchange),
                            ),
                            *current,
                            t,
                        )
                },
                Err(e) => proposal_fault(*current, *proposal.unwrap()) == Some(fault_of(e)),
            })
        }),
{
    let now = match now_rfc3339() {
        Some(t) => t,
        None => return None,
    };
    Some(plan_consequence_events(current, proposal, resolution, social_exchange, now.as_str()))
}


// ---------------------------------------------------------------------------
// Materialising the spine from the event log.
// ---------------------------------------------------------------------------

/// The first record with consequence id `id`, or -1.
pub open spec fn record_index(s: Seq<ConsequenceEventRecord>, id: Seq<char>) -> int
    decreases s.len(),
{
    if s.len() == 0 {
        -1
    } else {
        let f = record_index(s.drop_last(), id);
        if f >= 0 {
            f
        } else if s.last().consequence_id@ == id {
            s.len() - 1
        } else {
            -1
        }
    }
}

pub proof fn lemma_record_index(s: Seq<ConsequenceEventRecord>, id: Seq<char>)
    ensures
        -1 <= record_index(s, id) < s.len(),
        record_index(s, id) >= 0 ==> s[record_index(s, id)].consequence_id@ == id,
        record_index(s, id) < 0 ==> forall|j: int| 0 <= j < s.len() ==> s[j].consequence_id@ != id,
    decreases s.len(),
{
    if s.len() > 0 {
        let d = s.drop_last();
        lemma_record_index(d, id);
        assert forall|j: int| 0 <= j < d.len() implies s[j] == d[j] by {}
    }
}

pub proof fn lemma_record_index_is(s: Seq<ConsequenceEventRecord>, id: Seq<char>, i: int)
    requires
        0 <= i < s.len(),
        s[i].consequence_id@ == id,
        forall|j: int| 0 <= j < i ==> s[j].consequence_id@ != id,
    ensures
        record_index(s, id) == i,
    decreases s.len(),
{
    let d = s.drop_last();
    if i < s.len() - 1 {
        lemma_record_index_is(d, id, i);
    } else {
        lemma_record_index(d, id);
        if record_index(d, id) >= 0 {
            assert(d[record_index(d, id)] == s[record_index(d, id)]);
        }
    }
}

/// Where a record with id `id` goes in a list kept in descending id order:
/// before the first entry whose id is not greater.
pub open spec fn desc_insert_pos(s: Seq<ConsequenceEventRecord>, id: Seq<char>) -> int
    decreases s.len(),
{
    if s.len() == 0 {
        0
    } else {
        let p = desc_insert_pos(s.drop_last(), id);
        if p < s.len() - 1 {
            p
        } else if !seq_lt(id, s.last().consequence_id@) {
            s.len() - 1
        } else {
            s.len() as int
        }
    }
}

pub proof fn lemma_desc_insert_pos_is(s: Seq<ConsequenceEventRecord>, id: Seq<char>, k: int)
    requires
        0 <= k <= s.len(),
        forall|j: int| 0 <= j < k ==> seq_lt(id, s[j].consequence_id@),
        k < s.len() ==> !seq_lt(id, s[k].consequence_id@),
    ensures
        desc_insert_pos(s, id) == k,
    decreases s.len(),
{
    if s.len() > 0 {
        let d = s.drop_last();
        if k < s.len() {
            if k < s.len() - 1 {
                lemma_desc_insert_pos_is(d, id, k);
            } else {
                lemma_desc_insert_pos_is(d, id, d.len() as int);
            }
        } else {
            lemma_desc_insert_pos_is(d, id, d.len() as int);
        }
    }
}

/// The latest record of each consequence still in play, in descending id
/// order, and the payoff records in log order.
pub open spec fn spine_state(recs: Seq<ConsequenceEventRecord>) -> (
    Seq<ConsequenceEventRecord>,
    Seq<ConsequenceEventRecord>,
)
    decreases recs.len(),
{
    if recs.len() == 0 {
        (Seq::empty(), Seq::empty())
    } else {
        let (act, paid) = spine_state(recs.drop_last());
        let r = recs.last();
        let id = r.consequence_id@;
        let i = record_index(act, id);
        let without = if i >= 0 {
            act.remove(i)
        } else {
            act
        };
        match r.event_kind {
            ConsequenceEventKind::Introduced | ConsequenceEventKind::Escalated
            | ConsequenceEventKind::Softened | ConsequenceEventKind::Transferred => (
                without.insert(desc_insert_pos(without, id), r),
                paid,
            ),
            ConsequenceEventKind::PaidOff => (without, paid.push(r)),
            _ => (without, paid),
        }
    }
}

pub open spec fn event_status(k: ConsequenceEventKind) -> ConsequenceStatus {
    match k {
        ConsequenceEventKind::Introduced => ConsequenceStatus::Active,
        ConsequenceEventKind::Escalated => ConsequenceStatus::Escalated,
        ConsequenceEventKind::Softened => ConsequenceStatus::Softened,
        ConsequenceEventKind::Transferred => ConsequenceStatus::Transferred,
        ConsequenceEventKind::PaidOff => ConsequenceStatus::PaidOff,
        ConsequenceEventKind::Decayed => ConsequenceStatus::Decayed,
        ConsequenceEventKind::Superseded => ConsequenceStatus::Superseded,
    }
}

pub open spec fn severity_window(s: ConsequenceSeverity) -> ConsequenceReturnWindow {
    match s {
        ConsequenceSeverity::Trace => ConsequenceReturnWindow::SearchOnly,
        ConsequenceSeverity::Minor => ConsequenceReturnWindow::WhenRelevant,
        ConsequenceSeverity::Moderate => ConsequenceReturnWindow::Soon,
        ConsequenceSeverity::Major => ConsequenceReturnWindow::CurrentScene,
        ConsequenceSeverity::Critical => ConsequenceReturnWindow::NextTurn,
    }
}

/// `a` is the active consequence that record `r` makes.
pub open spec fn active_of(a: ActiveConsequence, r: ConsequenceEventRecord) -> bool {
    &&& a.schema_version@ == CONSEQUENCE_SCHEMA_VERSION@
    &&& a.consequence_id@ == r.consequence_id@
    &&& a.origin_turn_id@ == r.turn_id@
    &&& a.kind == r.kind
    &&& a.scope == r.scope
    &&& a.status == event_status(r.event_kind)
    &&& a.severity == r.severity
    &&& a.summary@ == r.summary@
    &&& a.player_visible_signal@ == r.player_visible_signal@
    &&& a.source_refs@ == r.source_refs@
    &&& a.linked_entity_refs@ == r.linked_entity_refs@
    &&& a.linked_projection_refs@ == r.linked_projection_refs@
    &&& a.expected_return == severity_window(r.severity)
    &&& a.decay.mode@ == "relevance"@
    &&& a.decay.remaining_turns == 3
}

/// `m` is the memory that payoff record `r` leaves.
pub open spec fn memory_of(m: ConsequenceMemory, r: ConsequenceEventRecord) -> bool {
    &&& m.consequence_id@ == r.consequence_id@
    &&& m.kind == r.kind
    &&& m.summary@ == r.player_visible_signal@
    &&& m.payoff_summary@ == r.summary@
    &&& m.source_refs@ == r.source_refs@
}

pub open spec fn kind_pressure(k: ConsequenceKind) -> Seq<char> {
    match k {
        ConsequenceKind::BodyCost => "body"@,
        ConsequenceKind::ResourceCost => "resource"@,
        ConsequenceKind::SocialDebt | ConsequenceKind::TrustShift
        | ConsequenceKind::SuspicionRaised => "social_permission"@,
        ConsequenceKind::AlarmRaised => "threat"@,
        ConsequenceKind::KnowledgeOpened | ConsequenceKind::KnowledgeResolved => "knowledge"@,
        ConsequenceKind::LocationAccessChanged => "environment"@,
        ConsequenceKind::ProcessAccelerated | ConsequenceKind::ProcessDelayed => "time_pressure"@,
        ConsequenceKind::MoralDebt => "moral_cost"@,
        ConsequenceKind::OpportunityOpened | ConsequenceKind::OpportunityLost => "desire"@,
    }
}

/// A rebuilt spine links every active consequence to the scene pressure it
/// feeds. A raised alarm feeds the threat pressure; a social debt, a shift of
/// trust or raised suspicion feeds social permission; so an alarm's link and a
/// social consequence's link never name the same pressure.
pub proof fn law_alarm_links_to_threat_not_social(
    alarm: ActiveConsequence,
    alarm_link: ConsequencePressureLink,
    social: ActiveConsequence,
    social_link: ConsequencePressureLink,
)
    requires
        alarm.kind == ConsequenceKind::AlarmRaised,
        social.kind == ConsequenceKind::SocialDebt || social.kind == ConsequenceKind::TrustShift
            || social.kind == ConsequenceKind::SuspicionRaised,
        alarm_link.pressure_kind@ == kind_pressure(alarm.kind),
        social_link.pressure_kind@ == kind_pressure(social.kind),
    ensures
        alarm_link.pressure_kind@ == "threat"@,
        social_link.pressure_kind@ == "social_permission"@,
        alarm_link.pressure_kind@ != social_link.pressure_kind@,
{
    reveal_strlit("threat");
    reveal_strlit("social_permission");
    assert("threat"@[0] != "social_permission"@[0]);
}

fn status_from_event(k: ConsequenceEventKind) -> (r: ConsequenceStatus)
    ensures
        r == event_status(k),
{
    match k {
        ConsequenceEventKind::Introduced => ConsequenceStatus::Active,
        ConsequenceEventKind::Escalated => ConsequenceStatus::Escalated,
        ConsequenceEventKind::Softened => ConsequenceStatus::Softened,
        ConsequenceEventKind::Transferred => ConsequenceStatus::Transferred,
        ConsequenceEventKind::PaidOff => ConsequenceStatus::PaidOff,
        ConsequenceEventKind::Decayed => ConsequenceStatus::Decayed,
        ConsequenceEventKind::Superseded => ConsequenceStatus::Superseded,
    }
}

fn return_window_for_severity(s: ConsequenceSeverity) -> (r: ConsequenceReturnWindow)
    ensures
        r == severity_window(s),
{
    match s {
        ConsequenceSeverity::Trace => ConsequenceReturnWindow::SearchOnly,
        ConsequenceSeverity::Minor => ConsequenceReturnWindow::WhenRelevant,
        ConsequenceSeverity::Moderate => ConsequenceReturnWindow::Soon,
        ConsequenceSeverity::Major => ConsequenceReturnWindow::CurrentScene,
        ConsequenceSeverity::Critical => ConsequenceReturnWindow::NextTurn,
    }
}

fn active_from_record(r: &ConsequenceEventRecord) -> (a: ActiveConsequence)
    ensures
        active_of(a, *r),
{
    ActiveConsequence {
        schema_version: String::from_str(CONSEQUENCE_SCHEMA_VERSION),
        consequence_id: r.consequence_id.clone(),
        origin_turn_id: r.turn_id.clone(),
        kind: r.kind,
        scope: r.scope,
        status: status_from_event(r.event_kind),
        severity: r.severity,
        summary: r.summary.clone(),
        player_visible_signal: r.player_visible_signal.clone(),
        source_refs: clone_strings(&r.source_refs),
        linked_entity_refs: clone_strings(&r.linked_entity_refs),
        linked_projection_refs: clone_strings(&r.linked_projection_refs),
        expected_return: return_window_for_severity(r.severity),
        decay: ConsequenceDecay::default(),
    }
}

fn pressure_link_for(a: &ActiveConsequence) -> (l: ConsequencePressureLink)
    ensures
        l.consequence_id@ == a.consequence_id@,
        l.pressure_kind@ == kind_pressure(a.kind),
        l.observable_signal@ == a.player_visible_signal@,
{
    let kind = match a.kind {
        ConsequenceKind::BodyCost => "body",
        ConsequenceKind::ResourceCost => "resource",
        ConsequenceKind::SocialDebt | ConsequenceKind::TrustShift
        | ConsequenceKind::SuspicionRaised => "social_permission",
        ConsequenceKind::AlarmRaised => "threat",
        ConsequenceKind::KnowledgeOpened | ConsequenceKind::KnowledgeResolved => "knowledge",
        ConsequenceKind::LocationAccessChanged => "environment",
        ConsequenceKind::ProcessAccelerated | ConsequenceKind::ProcessDelayed => "time_pressure",
        ConsequenceKind::MoralDebt => "moral_cost",
        ConsequenceKind::OpportunityOpened | ConsequenceKind::OpportunityLost => "desire",
    };
    ConsequencePressureLink {
        consequence_id: a.consequence_id.clone(),
        pressure_kind: String::from_str(kind),
        observable_signal: a.player_visible_signal.clone(),
    }
}

fn index_of_record(s: &Vec<ConsequenceEventRecord>, id: &str) -> (r: Option<usize>)
    ensures
        match r {
            Some(k) => k as int == record_index(s@, id@),
            None => record_index(s@, id@) < 0,
        },
{
    let mut i: usize = 0;
    while i < s.len()
        invariant
            i <= s@.len(),
            forall|j: int| 0 <= j < i ==> s@[j].consequence_id@ != id@,
        decreases s.len() - i,
    {
        if str_eq(s[i].consequence_id.as_str(), id) {
            proof { lemma_record_index_is(s@, id@, i as int); }
            return Some(i);
        }
        i = i + 1;
    }
    proof {
        lemma_record_index(s@, id@);
        if record_index(s@, id@) >= 0 {
            assert(s@[record_index(s@, id@)].consequence_id@ == id@);
        }
    }
    None
}

fn desc_position(s: &Vec<ConsequenceEventRecord>, id: &str) -> (r: usize)
    ensures
        r as int == desc_insert_pos(s@, id@),
{
    let mut i: usize = 0;
    while i < s.len() && str_lt(id, s[i].consequence_id.as_str())
        invariant
            i <= s@.len(),
            forall|j: int| 0 <= j < i ==> seq_lt(id@, s@[j].consequence_id@),
        decreases s.len() - i,
    {
        i = i + 1;
    }
    proof { lemma_desc_insert_pos_is(s@, id@, i as int); }
    i
}

/// The consequence spine that a log of consequence event records
/// materialises over a base packet: the latest record of each consequence
/// still in play, highest id first, at most eight; the last five payoffs,
/// newest first; and a pressure link for each active consequence.
pub fn rebuild_consequence_spine(
    base_packet: &ConsequenceSpinePacket,
    records: Vec<ConsequenceEventRecord>,
) -> (r: ConsequenceSpinePacket)
    ensures
        r.schema_version@ == CONSEQUENCE_SPINE_PACKET_SCHEMA_VERSION@,
        r.world_id@ == base_packet.world_id@,
        r.turn_id@ == base_packet.turn_id@,
        ({
            let act = spine_state(records@).0;
            &&& r.active@.len() == if act.len() < 8 { act.len() } else { 8 }
            &&& forall|i: int| 0 <= i < r.active@.len() ==> active_of(#[trigger] r.active@[i], act[i])
        }),
        ({
            let paid = spine_state(records@).1;
            &&& r.recently_paid_off@.len() == if paid.len() < 5 { paid.len() } else { 5 }
            &&& forall|i: int|
                0 <= i < r.recently_paid_off@.len() ==> memory_of(
                    #[trigger] r.recently_paid_off@[i],
                    paid[paid.len() - 1 - i],
                )
        }),
        r.pressure_links@.len() == r.active@.len(),
        forall|i: int|
            0 <= i < r.pressure_links@.len() ==> {
                &&& (#[trigger] r.pressure_links@[i]).consequence_id@ == r.active@[i].consequence_id@
                &&& r.pressure_links@[i].pressure_kind@ == kind_pressure(r.active@[i].kind)
                &&& r.pressure_links@[i].observable_signal@ == r.active@[i].player_visible_signal@
            },
        r.required_followups@.len() == 0,
{
    let mut rest = records;
    let ghost all = rest@;
    let total = rest.len();
    let mut act: Vec<ConsequenceEventRecord> = Vec::new();
    let mut paid: Vec<ConsequenceEventRecord> = Vec::new();
    let mut n: usize = 0;
    while rest.len() > 0
        invariant
            n + rest@.len() == all.len(),
            all.len() == total,
            rest@ == all.subrange(n as int, all.len() as int),
            (act@, paid@) == spine_state(all.subrange(0, n as int)),
        decreases rest.len(),
    {
        let r = rest.remove(0);
        proof {
            assert(all.subrange(0, n + 1).drop_last() =~= all.subrange(0, n as int));
            assert(all.subrange(0, n + 1).last() == r);
            assert(rest@ =~= all.subrange(n + 1, all.len() as int));
        }
        match index_of_record(&act, r.consequence_id.as_str()) {
            Some(k) => {
                proof { lemma_record_index(act@, r.consequence_id@); }
                act.remove(k);
            },
            None => {},
        }
        match r.event_kind {
            ConsequenceEventKind::Introduced | ConsequenceEventKind::Escalated
            | ConsequenceEventKind::Softened | ConsequenceEventKind::Transferred => {
                let pos = desc_position(&act, r.consequence_id.as_str());
                act.insert(pos, r);
            },
            ConsequenceEventKind::PaidOff => {
                paid.push(r);
            },
            _ => {},
        }
        n = n + 1;
    }
    proof {
        assert(all.subrange(0, all.len() as int) =~= all);
    }
    let mut active: Vec<ActiveConsequence> = Vec::new();
    let mut i: usize = 0;
    while i < act.len() && i < ACTIVE_CONSEQUENCE_BUDGET
        invariant
            i <= act@.len(),
            i <= 8,
            active@.len() == i,
            forall|k: int| 0 <= k < i ==> active_of(#[trigger] active@[k], act@[k]),
        decreases act.len() - i,
    {
        active.push(active_from_record(&act[i]));
        i = i + 1;
    }
    let mut recently_paid_off: Vec<ConsequenceMemory> = Vec::new();
    let mut j: usize = 0;
    while j < paid.len() && j < PAID_OFF_MEMORY_BUDGET
        invariant
            j <= paid@.len(),
            j <= 5,
            recently_paid_off@.len() == j,
            forall|k: int|
                0 <= k < j ==> memory_of(#[trigger] recently_paid_off@[k], paid@[paid@.len() - 1 - k]),
        decreases paid.len() - j,
    {
        let rec = &paid[paid.len() - 1 - j];
        recently_paid_off.push(
            ConsequenceMemory {
                consequence_id: rec.consequence_id.clone(),
                kind: rec.kind,
                summary: rec.player_visible_signal.clone(),
                payoff_summary: rec.summary.clone(),
                source_refs: clone_strings(&rec.source_refs),
            },
        );
        j = j + 1;
    }
    let mut pressure_links: Vec<ConsequencePressureLink> = Vec::new();
    let mut k: usize = 0;
    while k < active.len()
        invariant
            k <= active@.len(),
            pressure_links@.len() == k,
            forall|m: int|
                0 <= m < k ==> {
                    &&& (#[trigger] pressure_links@[m]).consequence_id@ == active@[m].consequence_id@
                    &&& pressure_links@[m].pressure_kind@ == kind_pressure(active@[m].kind)
                    &&& pressure_links@[m].observable_signal@ == active@[m].player_visible_signal@
                },
        decreases active.len() - k,
    {
        pressure_links.push(pressure_link_for(&active[k]));
        k = k + 1;
    }
    ConsequenceSpinePacket {
        schema_version: String::from_str(CONSEQUENCE_SPINE_PACKET_SCHEMA_VERSION),
        world_id: base_packet.world_id.clone(),
        turn_id: base_packet.turn_id.clone(),
        active,
        recently_paid_off,
        pressure_links,
        required_followups: Vec::new(),
        compiler_policy: ConsequenceSpinePolicy::default(),
    }
}

// ---------------------------------------------------------------------------
// Auditing a proposal against what the player can see.
// ---------------------------------------------------------------------------

/// Why a consequence proposal fails its contract with the visible context.
#[derive(Debug, Clone)]
pub enum ConsequenceAuditError {
    Proposal(ConsequenceSpineError),
    MissingRefs { label: String },
    NonVisibleRefs { label: String, missing: Vec<String> },
    MajorWithoutProjection,
    HiddenText,
    NoConsequencePath { target_ref: String },
}

pub enum AuditFault {
    Proposal(ConsequenceFault),
    MissingRefs(Seq<char>),
    NonVisibleRefs(Seq<char>, Seq<Seq<char>>),
    MajorWithoutProjection,
    HiddenText,
    NoConsequencePath(Seq<char>),
}

pub open spec fn audit_fault_of(e: ConsequenceAuditError) -> AuditFault {
    match e {
        ConsequenceAuditError::Proposal(p) => AuditFault::Proposal(fault_of(p)),
        ConsequenceAuditError::MissingRefs { label } => AuditFault::MissingRefs(label@),
        ConsequenceAuditError::NonVisibleRefs { label, missing } => AuditFault::NonVisibleRefs(
            label@,
            views(missing@),
        ),
        ConsequenceAuditError::MajorWithoutProjection => AuditFault::MajorWithoutProjection,
        ConsequenceAuditError::HiddenText => AuditFault::HiddenText,
        ConsequenceAuditError::NoConsequencePath { target_ref } => AuditFault::NoConsequencePath(target_ref@),
    }
}

impl ConsequenceAuditError {
    pub fn message(&self) -> (r: String)
        ensures
            match self {
                ConsequenceAuditError::MissingRefs { label } => r@ == label@ + " requires evidence/source refs"@,
                ConsequenceAuditError::NonVisibleRefs { label, missing } => r@ == label@
                    + " references non-visible refs: "@ + join(views(missing@), ", "@),
                ConsequenceAuditError::MajorWithoutProjection => r@
                    == "major/critical consequence mutation requires linked_projection_refs"@,
                ConsequenceAuditError::HiddenText => r@
                    == "consequence visible field contains hidden/adjudication-only text"@,
                ConsequenceAuditError::NoConsequencePath { target_ref } => r@
                    == "significant resolution effect has no consequence path: "@ + target_ref@,
                ConsequenceAuditError::Proposal(e) => r@ == spine_error_text(*e),
            },
    {
        match self {
            ConsequenceAuditError::Proposal(e) => e.message(),
            ConsequenceAuditError::MissingRefs { label } => concat2(label.as_str(), " requires evidence/source refs"),
            ConsequenceAuditError::NonVisibleRefs { label, missing } => {
                let joined = join_strings(missing, ", ");
                concat3(label.as_str(), " references non-visible refs: ", joined.as_str())
            },
            ConsequenceAuditError::MajorWithoutProjection => String::from_str(
                "major/critical consequence mutation requires linked_projection_refs",
            ),
            ConsequenceAuditError::HiddenText => String::from_str(
                "consequence visible field contains hidden/adjudication-only text",
            ),
            ConsequenceAuditError::NoConsequencePath { target_ref } => concat2(
                "significant resolution effect has no consequence path: ",
                target_ref.as_str(),
            ),
        }
    }
}

/// The reference is one of the visible context's non-blank strings.
pub open spec fn is_visible_ref(visible: Seq<String>, r: Seq<char>) -> bool {
    trim(r).len() > 0 && exists|i: int| 0 <= i < visible.len() && #[trigger] visible[i]@ == r
}

/// The references that are not visible, in order.
pub open spec fn non_visible(visible: Seq<String>, refs: Seq<Seq<char>>) -> Seq<Seq<char>>
    decreases refs.len(),
{
    if refs.len() == 0 {
        Seq::empty()
    } else {
        let p = non_visible(visible, refs.drop_last());
        if is_visible_ref(visible, refs.last()) {
            p
        } else {
            p.push(refs.last())
        }
    }
}

/// References must be given, and all be visible.
pub open spec fn refs_fault(visible: Seq<String>, label: Seq<char>, refs: Seq<Seq<char>>) -> Option<AuditFault> {
    if refs.len() == 0 {
        Some(AuditFault::MissingRefs(label))
    } else if non_visible(visible, refs).len() > 0 {
        Some(AuditFault::NonVisibleRefs(label, non_visible(visible, refs)))
    } else {
        None
    }
}

/// A hidden string of eight characters or more, not blank, occurs in the text.
pub open spec fn leaks_into(h: Seq<char>, text: Seq<char>) -> bool {
    trim(h).len() > 0 && h.len() >= 8 && contains(text, h)
}

/// A non-blank visible text repeats hidden context.
pub open spec fn hidden_hit(hidden: Seq<String>, text: Seq<char>) -> bool {
    trim(text).len() > 0 && exists|i: int| 0 <= i < hidden.len() && #[trigger] leaks_into(hidden[i]@, text)
}

pub open spec fn is_major(s: ConsequenceSeverity) -> bool {
    s == ConsequenceSeverity::Major || s == ConsequenceSeverity::Critical
}

pub open spec fn mutation_audit(visible: Seq<String>, hidden: Seq<String>, m: ConsequenceMutation) -> Option<AuditFault> {
    match refs_fault(visible, "consequence mutation"@, views(m.source_refs@)) {
        Some(f) => Some(f),
        None => if is_major(m.severity) && m.linked_projection_refs@.len() == 0 {
            Some(AuditFault::MajorWithoutProjection)
        } else if hidden_hit(hidden, m.summary@) || hidden_hit(hidden, m.player_visible_signal@) {
            Some(AuditFault::HiddenText)
        } else {
            None
        },
    }
}

pub open spec fn mutations_audit(visible: Seq<String>, hidden: Seq<String>, ms: Seq<ConsequenceMutation>) -> Option<
    AuditFault,
>
    decreases ms.len(),
{
    if ms.len() == 0 {
        None
    } else {
        match mutations_audit(visible, hidden, ms.drop_last()) {
            Some(f) => Some(f),
            None => mutation_audit(visible, hidden, ms.last()),
        }
    }
}

pub open spec fn payoff_audit(visible: Seq<String>, hidden: Seq<String>, p: ConsequencePayoff) -> Option<AuditFault> {
    match refs_fault(visible, "consequence payoff"@, views(p.evidence_refs@)) {
        Some(f) => Some(f),
        None => if hidden_hit(hidden, p.payoff_summary@) {
            Some(AuditFault::HiddenText)
        } else {
            None
        },
    }
}

pub open spec fn payoffs_audit(visible: Seq<String>, hidden: Seq<String>, ps: Seq<ConsequencePayoff>) -> Option<
    AuditFault,
>
    decreases ps.len(),
{
    if ps.len() == 0 {
        None
    } else {
        match payoffs_audit(visible, hidden, ps.drop_last()) {
            Some(f) => Some(f),
            None => payoff_audit(visible, hidden, ps.last()),
        }
    }
}

pub open spec fn ephemeral_audit(visible: Seq<String>, hidden: Seq<String>, e: EphemeralConsequenceReason) -> Option<
    AuditFault,
> {
    match refs_fault(visible, "ephemeral consequence reason"@, views(e.evidence_refs@)) {
        Some(f) => Some(f),
        None => if hidden_hit(hidden, e.reason@) {
            Some(AuditFault::HiddenText)
        } else {
            None
        },
    }
}

pub open spec fn ephemerals_audit(
    visible: Seq<String>,
    hidden: Seq<String>,
    es: Seq<EphemeralConsequenceReason>,
) -> Option<AuditFault>
    decreases es.len(),
{
    if es.len() == 0 {
        None
    } else {
        match ephemerals_audit(visible, hidden, es.drop_last()) {
            Some(f) => Some(f),
            None => ephemeral_audit(visible, hidden, es.last()),
        }
    }
}

/// The proposal's own checks, then its mutations (introduced, then updated),
/// payoffs and ephemeral reasons, each against the visible and hidden
/// strings.
pub open spec fn proposal_audit(
    current: ConsequenceSpinePacket,
    visible: Seq<String>,
    hidden: Seq<String>,
    p: ConsequenceProposal,
) -> Option<AuditFault> {
    match validation_fault(current, p) {
        Some(f) => Some(AuditFault::Proposal(f)),
        None => match mutations_audit(visible, hidden, p.introduced@ + p.updated@) {
            Some(f) => Some(f),
            None => match payoffs_audit(visible, hidden, p.paid_off@) {
                Some(f) => Some(f),
                None => ephemerals_audit(visible, hidden, p.ephemeral_effects@),
            },
        },
    }
}

proof fn lemma_non_visible_prefix(visible: Seq<String>, refs: Seq<Seq<char>>, k: int)
    requires
        0 <= k <= refs.len(),
    ensures
        non_visible(visible, refs.subrange(0, k)).len() <= non_visible(visible, refs).len(),
    decreases refs.len() - k,
{
    if k < refs.len() {
        assert(refs.subrange(0, k + 1).drop_last() =~= refs.subrange(0, k));
        lemma_non_visible_prefix(visible, refs, k + 1);
    } else {
        assert(refs.subrange(0, k) =~= refs);
    }
}

fn is_visible_ref_exec(visible: &Vec<String>, r: &str) -> (b: bool)
    ensures
        b == is_visible_ref(visible@, r@),
{
    trim_str(r).unicode_len() > 0 && {
        let mut i: usize = 0;
        let mut found = false;
        while i < visible.len()
            invariant
                i <= visible@.len(),
                found == exists|k: int| 0 <= k < i && #[trigger] visible@[k]@ == r@,
            decreases visible.len() - i,
        {
            if str_eq(visible[i].as_str(), r) {
                found = true;
            }
            i = i + 1;
        }
        found
    }
}

pub fn require_visible_refs(visible: &Vec<String>, label: &str, refs: &Vec<String>) -> (r: Result<
    (),
    ConsequenceAuditError,
>)
    ensures
        match r {
            Ok(()) => refs_fault(visible@, label@, views(refs@)) is None,
            Err(e) => refs_fault(visible@, label@, views(refs@)) == Some(audit_fault_of(e)),
        },
{
    if refs.len() == 0 {
        return Err(ConsequenceAuditError::MissingRefs { label: String::from_str(label) });
    }
    let ghost rs = views(refs@);
    let mut missing: Vec<String> = Vec::new();
    let mut i: usize = 0;
    while i < refs.len()
        invariant
            i <= refs@.len(),
            rs == views(refs@),
            views(missing@) == non_visible(visible@, rs.subrange(0, i as int)),
        decreases refs.len() - i,
    {
        proof {
            assert(rs.subrange(0, i + 1).drop_last() =~= rs.subrange(0, i as int));
            assert(rs.subrange(0, i + 1).last() == refs@[i as int]@);
        }
        if !is_visible_ref_exec(visible, refs[i].as_str()) {
            let ghost before = missing@;
            let c = refs[i].clone();
            missing.push(c);
            assert(views(missing@) =~= views(before).push(c@));
        }
        i = i + 1;
    }
    assert(rs.subrange(0, rs.len() as int) =~= rs);
    if missing.len() > 0 {
        return Err(ConsequenceAuditError::NonVisibleRefs { label: String::from_str(label), missing });
    }
    Ok(())
}

pub fn reject_hidden_text(hidden: &Vec<String>, text: &str) -> (r: Result<(), ConsequenceAuditError>)
    ensures
        match r {
            Ok(()) => !hidden_hit(hidden@, text@),
            Err(e) => hidden_hit(hidden@, text@) && e is HiddenText,
        },
{
    if trim_str(text).unicode_len() == 0 {
        return Ok(());
    }
    let mut i: usize = 0;
    while i < hidden.len()
        invariant
            i <= hidden@.len(),
            trim(text@).len() > 0,
            forall|k: int| 0 <= k < i ==> !leaks_into(#[trigger] hidden@[k]@, text@),
        decreases hidden.len() - i,
    {
        let h = hidden[i].as_str();
        if trim_str(h).unicode_len() > 0 && h.unicode_len() >= 8 && contains_str(text, h) {
            assert(leaks_into(hidden@[i as int]@, text@));
            return Err(ConsequenceAuditError::HiddenText);
        }
        i = i + 1;
    }
    Ok(())
}

fn audit_mutation(visible: &Vec<String>, hidden: &Vec<String>, m: &ConsequenceMutation) -> (r: Result<
    (),
    ConsequenceAuditError,
>)
    ensures
        match r {
            Ok(()) => mutation_audit(visible@, hidden@, *m) is None,
            Err(e) => mutation_audit(visible@, hidden@, *m) == Some(audit_fault_of(e)),
        },
{
    match require_visible_refs(visible, "consequence mutation", &m.source_refs) {
        Ok(()) => {},
        Err(e) => {
            return Err(e);
        },
    }
    let major = match m.severity {
        ConsequenceSeverity::Major | ConsequenceSeverity::Critical => true,
        _ => false,
    };
    if major && m.linked_projection_refs.len() == 0 {
        return Err(ConsequenceAuditError::MajorWithoutProjection);
    }
    match reject_hidden_text(hidden, m.summary.as_str()) {
        Ok(()) => {},
        Err(e) => {
            return Err(e);
        },
    }
    reject_hidden_text(hidden, m.player_visible_signal.as_str())
}

fn audit_mutations(visible: &Vec<String>, hidden: &Vec<String>, ms: &Vec<ConsequenceMutation>, prior: Ghost<
    Seq<ConsequenceMutation>,
>) -> (r: Result<(), ConsequenceAuditError>)
    requires
        mutations_audit(visible@, hidden@, prior@) is None,
    ensures
        match r {
            Ok(()) => mutations_audit(visible@, hidden@, prior@ + ms@) is None,
            Err(e) => mutations_audit(visible@, hidden@, prior@ + ms@) == Some(audit_fault_of(e)),
        },
{
    let ghost all = prior@ + ms@;
    assert(all.subrange(0, prior@.len() as int) =~= prior@);
    let mut i: usize = 0;
    while i < ms.len()
        invariant
            i <= ms@.len(),
            all == prior@ + ms@,
            mutations_audit(visible@, hidden@, all.subrange(0, prior@.len() as int + i as int)) is None,
        decreases ms.len() - i,
    {
        let ghost n: int = prior@.len() as int + i as int;
        proof {
            assert(all.subrange(0, n + 1).drop_last() =~= all.subrange(0, n));
            assert(all.subrange(0, n + 1).last() == ms@[i as int]);
        }
        match audit_mutation(visible, hidden, &ms[i]) {
            Ok(()) => {},
            Err(e) => {
                proof {
                    lemma_mutations_audit_prefix(visible@, hidden@, all, n + 1);
                }
                return Err(e);
            },
        }
        i = i + 1;
    }
    assert(all.subrange(0, all.len() as int) =~= all);
    Ok(())
}

proof fn lemma_mutations_audit_prefix(visible: Seq<String>, hidden: Seq<String>, ms: Seq<ConsequenceMutation>, k: int)
    requires
        0 <= k <= ms.len(),
        mutations_audit(visible, hidden, ms.subrange(0, k)) is Some,
    ensures
        mutations_audit(visible, hidden, ms) == mutations_audit(visible, hidden, ms.subrange(0, k)),
    decreases ms.len() - k,
{
    if k < ms.len() {
        assert(ms.subrange(0, k + 1).drop_last() =~= ms.subrange(0, k));
        lemma_mutations_audit_prefix(visible, hidden, ms, k + 1);
    } else {
        assert(ms.subrange(0, k) =~= ms);
    }
}

proof fn lemma_payoffs_audit_prefix(visible: Seq<String>, hidden: Seq<String>, ps: Seq<ConsequencePayoff>, k: int)
    requires
        0 <= k <= ps.len(),
        payoffs_audit(visible, hidden, ps.subrange(0, k)) is Some,
    ensures
        payoffs_audit(visible, hidden, ps) == payoffs_audit(visible, hidden, ps.subrange(0, k)),
    decreases ps.len() - k,
{
    if k < ps.len() {
        assert(ps.subrange(0, k + 1).drop_last() =~= ps.subrange(0, k));
        lemma_payoffs_audit_prefix(visible, hidden, ps, k + 1);
    } else {
        assert(ps.subrange(0, k) =~= ps);
    }
}

proof fn lemma_ephemerals_audit_prefix(
    visible: Seq<String>,
    hidden: Seq<String>,
    es: Seq<EphemeralConsequenceReason>,
    k: int,
)
    requires
        0 <= k <= es.len(),
        ephemerals_audit(visible, hidden, es.subrange(0, k)) is Some,
    ensures
        ephemerals_audit(visible, hidden, es) == ephemerals_audit(visible, hidden, es.subrange(0, k)),
    decreases es.len() - k,
{
    if k < es.len() {
        assert(es.subrange(0, k + 1).drop_last() =~= es.subrange(0, k));
        lemma_ephemerals_audit_prefix(visible, hidden, es, k + 1);
    } else {
        assert(es.subrange(0, k) =~= es);
    }
}

fn audit_payoffs(visible: &Vec<String>, hidden: &Vec<String>, ps: &Vec<ConsequencePayoff>) -> (r: Result<
    (),
    ConsequenceAuditError,
>)
    ensures
        match r {
            Ok(()) => payoffs_audit(visible@, hidden@, ps@) is None,
            Err(e) => payoffs_audit(visible@, hidden@, ps@) == Some(audit_fault_of(e)),
        },
{
    let mut i: usize = 0;
    while i < ps.len()
        invariant
            i <= ps@.len(),
            payoffs_audit(visible@, hidden@, ps@.subrange(0, i as int)) is None,
        decreases ps.len() - i,
    {
        proof {
            assert(ps@.subrange(0, i + 1).drop_last() =~= ps@.subrange(0, i as int));
            assert(ps@.subrange(0, i + 1).last() == ps@[i as int]);
        }
        let p = &ps[i];
        let step = match require_visible_refs(visible, "consequence payoff", &p.evidence_refs) {
            Ok(()) => reject_hidden_text(hidden, p.payoff_summary.as_str()),
            Err(e) => Err(e),
        };
        match step {
            Ok(()) => {},
            Err(e) => {
                proof {
                    lemma_payoffs_audit_prefix(visible@, hidden@, ps@, i + 1);
                }
                return Err(e);
            },
        }
        i = i + 1;
    }
    assert(ps@.subrange(0, ps@.len() as int) =~= ps@);
    Ok(())
}

fn audit_ephemerals(visible: &Vec<String>, hidden: &Vec<String>, es: &Vec<EphemeralConsequenceReason>) -> (r:
    Result<(), ConsequenceAuditError>)
    ensures
        match r {
            Ok(()) => ephemerals_audit(visible@, hidden@, es@) is None,
            Err(e) => ephemerals_audit(visible@, hidden@, es@) == Some(audit_fault_of(e)),
        },
{
    let mut i: usize = 0;
    while i < es.len()
        invariant
            i <= es@.len(),
            ephemerals_audit(visible@, hidden@, es@.subrange(0, i as int)) is None,
        decreases es.len() - i,
    {
        proof {
            assert(es@.subrange(0, i + 1).drop_last() =~= es@.subrange(0, i as int));
            assert(es@.subrange(0, i + 1).last() == es@[i as int]);
        }
        let e = &es[i];
        let step = match require_visible_refs(visible, "ephemeral consequence reason", &e.evidence_refs) {
            Ok(()) => reject_hidden_text(hidden, e.reason.as_str()),
            Err(x) => Err(x),
        };
        match step {
            Ok(()) => {},
            Err(x) => {
                proof {
                    lemma_ephemerals_audit_prefix(visible@, hidden@, es@, i + 1);
                }
                return Err(x);
            },
        }
        i = i + 1;
    }
    assert(es@.subrange(0, es@.len() as int) =~= es@);
    Ok(())
}

/// A resolution effect the player sees that changes body, place, relation,
/// belief, lore or scene pressure.
pub open spec fn is_significant_effect(k: ProposedEffectKind) -> bool {
    k == ProposedEffectKind::BodyResourceDelta || k == ProposedEffectKind::LocationDelta || k
        == ProposedEffectKind::RelationshipDelta || k == ProposedEffectKind::BeliefDelta || k
        == ProposedEffectKind::WorldLoreDelta || k == ProposedEffectKind::ScenePressureDelta
}

/// A significant visible effect with no consequence path: none of its
/// evidence is covered by the proposal and its kind derives no consequence.
pub open spec fn lacks_consequence_path(e: ProposedEffect, covered: bool) -> bool {
    e.visibility == ResolutionVisibility::PlayerVisible && is_significant_effect(e.effect_kind) && !covered
        && effect_consequence(e.effect_kind) is None
}

/// Every significant kind of effect derives a consequence of its own, so no
/// effect ever lacks a consequence path, whatever the proposal covers.
pub proof fn law_significant_effects_have_consequence_paths(e: ProposedEffect, covered: bool)
    ensures
        !lacks_consequence_path(e, covered),
{
}

/// Every significant, player-visible effect of the resolution has a
/// consequence path: its evidence is covered by the proposal, or its kind
/// derives a consequence. Since every significant kind derives one, this
/// never refuses.
pub fn audit_significant_resolution_has_consequence_path(
    proposal: Option<&ConsequenceProposal>,
    resolution: &ResolutionProposal,
) -> (r: Result<(), ConsequenceAuditError>)
    ensures
        r is Ok,
{
    let mut i: usize = 0;
    while i < resolution.proposed_effects.len()
        invariant
            i <= resolution.proposed_effects@.len(),
        decreases resolution.proposed_effects.len() - i,
    {
        let e = &resolution.proposed_effects[i];
        let visible = match e.visibility {
            ResolutionVisibility::PlayerVisible => true,
            ResolutionVisibility::AdjudicationOnly => false,
        };
        let path = consequence_for_effect(e.effect_kind);
        if visible && path.is_none() {
            proof {
                law_significant_effects_have_consequence_paths(*e, false);
            }
            let significant = match e.effect_kind {
                ProposedEffectKind::PatternDebt | ProposedEffectKind::PlayerIntentTrace => false,
                _ => true,
            };
            if significant && !proposal_covers_any(proposal, &e.evidence_refs) {
                assert(false);
                return Err(ConsequenceAuditError::NoConsequencePath { target_ref: e.target_ref.clone() });
            }
        }
        i = i + 1;
    }
    Ok(())
}

fn refs_contain(refs: &Vec<String>, r: &str) -> (b: bool)
    ensures
        b == views(refs@).contains(r@),
{
    proof {
        lemma_has_text_views(refs@, r@);
    }
    has_text_exec(refs, r)
}

/// The reference `r` is named by the proposal: by a mutation's source refs
/// (introduced or updated), a payoff's or an ephemeral reason's evidence.
pub open spec fn proposal_names_ref(p: ConsequenceProposal, r: Seq<char>) -> bool {
    ||| exists|k: int| 0 <= k < p.introduced@.len() && views(#[trigger] p.introduced@[k].source_refs@).contains(r)
    ||| exists|k: int| 0 <= k < p.updated@.len() && views(#[trigger] p.updated@[k].source_refs@).contains(r)
    ||| exists|k: int| 0 <= k < p.paid_off@.len() && views(#[trigger] p.paid_off@[k].evidence_refs@).contains(r)
    ||| exists|k: int|
        0 <= k < p.ephemeral_effects@.len() && views(#[trigger] p.ephemeral_effects@[k].evidence_refs@).contains(r)
}

/// Some of `refs` is named by the proposal; never so without a proposal.
pub open spec fn proposal_covers(proposal: Option<ConsequenceProposal>, refs: Seq<String>) -> bool {
    match proposal {
        None => false,
        Some(p) => exists|i: int| 0 <= i < refs.len() && proposal_names_ref(p, #[trigger] refs[i]@),
    }
}

/// Some of the references is named by the proposal: by a mutation's source
/// refs, a payoff's or an ephemeral reason's evidence.
fn proposal_covers_any(proposal: Option<&ConsequenceProposal>, refs: &Vec<String>) -> (b: bool)
    ensures
        b == proposal_covers(
            match proposal {
                Some(p) => Some(*p),
                None => None,
            },
            refs@,
        ),
{
    match proposal {
        None => false,
        Some(p) => {
            let mut i: usize = 0;
            while i < refs.len()
                invariant
                    i <= refs@.len(),
                    proposal == Some(p),
                    forall|j: int| 0 <= j < i ==> !proposal_names_ref(*p, #[trigger] refs@[j]@),
                decreases refs.len() - i,
            {
                let r = refs[i].as_str();
                let mut k: usize = 0;
                while k < p.introduced.len()
                    invariant
                        k <= p.introduced@.len(),
                        i < refs@.len(),
                        proposal == Some(p),
                        r@ == refs@[i as int]@,
                        forall|j: int| 0 <= j < i ==> !proposal_names_ref(*p, #[trigger] refs@[j]@),
                        forall|m: int| 0 <= m < k ==> !views(#[trigger] p.introduced@[m].source_refs@).contains(r@),
                    decreases p.introduced.len() - k,
                {
                    if refs_contain(&p.introduced[k].source_refs, r) {
                        assert(proposal_names_ref(*p, refs@[i as int]@));
                        assert(proposal_covers(Some(*p), refs@));
                        return true;
                    }
                    k = k + 1;
                }
                let mut k: usize = 0;
                while k < p.updated.len()
                    invariant
                        k <= p.updated@.len(),
                        i < refs@.len(),
                        proposal == Some(p),
                        r@ == refs@[i as int]@,
                        forall|j: int| 0 <= j < i ==> !proposal_names_ref(*p, #[trigger] refs@[j]@),
                        forall|m: int| 0 <= m < k ==> !views(#[trigger] p.updated@[m].source_refs@).contains(r@),
                    decreases p.updated.len() - k,
                {
                    if refs_contain(&p.updated[k].source_refs, r) {
                        assert(proposal_names_ref(*p, refs@[i as int]@));
                        assert(proposal_covers(Some(*p), refs@));
                        return true;
                    }
                    k = k + 1;
                }
                let mut k: usize = 0;
                while k < p.paid_off.len()
                    invariant
                        k <= p.paid_off@.len(),
                        i < refs@.len(),
                        proposal == Some(p),
                        r@ == refs@[i as int]@,
                        forall|j: int| 0 <= j < i ==> !proposal_names_ref(*p, #[trigger] refs@[j]@),
                        forall|m: int| 0 <= m < k ==> !views(#[trigger] p.paid_off@[m].evidence_refs@).contains(r@),
                    decreases p.paid_off.len() - k,
                {
                    if refs_contain(&p.paid_off[k].evidence_refs, r) {
                        assert(proposal_names_ref(*p, refs@[i as int]@));
                        assert(proposal_covers(Some(*p), refs@));
                        return true;
                    }
                    k = k + 1;
                }
                let mut k: usize = 0;
                while k < p.ephemeral_effects.len()
                    invariant
                        k <= p.ephemeral_effects@.len(),
                        i < refs@.len(),
                        proposal == Some(p),
                        r@ == refs@[i as int]@,
                        forall|j: int| 0 <= j < i ==> !proposal_names_ref(*p, #[trigger] refs@[j]@),
                        forall|m: int|
                            0 <= m < k ==> !views(#[trigger] p.ephemeral_effects@[m].evidence_refs@).contains(r@),
                    decreases p.ephemeral_effects.len() - k,
                {
                    if refs_contain(&p.ephemeral_effects[k].evidence_refs, r) {
                        assert(proposal_names_ref(*p, refs@[i as int]@));
                        assert(proposal_covers(Some(*p), refs@));
                        return true;
                    }
                    k = k + 1;
                }
                assert(!proposal_names_ref(*p, refs@[i as int]@));
                i = i + 1;
            }
            false
        },
    }
}

/// The contract of a proposal with the prompt context: the visible context's
/// strings (`visible`) and the adjudication-only context's strings
/// (`hidden`), each as the list of string values of its JSON form.
pub open spec fn contract_fault(
    current: ConsequenceSpinePacket,
    visible: Seq<String>,
    hidden: Seq<String>,
    proposal: Option<ConsequenceProposal>,
) -> Option<AuditFault> {
    match proposal {
        Some(p) => proposal_audit(current, visible, hidden, p),
        None => None,
    }
}

/// Audits a proposal against the visible and hidden strings of the prompt
/// context (see `proposal_audit`), then the resolution's significant effects
/// (which always have a consequence path).
pub fn audit_consequence_contract(
    visible: &Vec<String>,
    hidden: &Vec<String>,
    current: &ConsequenceSpinePacket,
    proposal: Option<&ConsequenceProposal>,
    resolution: Option<&ResolutionProposal>,
) -> (r: Result<(), ConsequenceAuditError>)
    ensures
        match r {
            Ok(()) => contract_fault(*current, visible@, hidden@, some_proposal(proposal)) is None,
            Err(e) => contract_fault(*current, visible@, hidden@, some_proposal(proposal)) == Some(audit_fault_of(e)),
        },
{
    match proposal {
        None => {},
        Some(p) => {
            match validate_consequence_proposal(current, p) {
                Ok(()) => {},
                Err(e) => {
                    return Err(ConsequenceAuditError::Proposal(e));
                },
            }
            assert(mutations_audit(visible@, hidden@, Seq::<ConsequenceMutation>::empty()) is None);
            assert(Seq::<ConsequenceMutation>::empty() + p.introduced@ =~= p.introduced@);
            match audit_mutations(visible, hidden, &p.introduced, Ghost(Seq::empty())) {
                Ok(()) => {},
                Err(e) => {
                    proof {
                        let all = p.introduced@ + p.updated@;
                        assert(all.subrange(0, p.introduced@.len() as int) =~= p.introduced@);
                        lemma_mutations_audit_prefix(visible@, hidden@, all, p.introduced@.len() as int);
                    }
                    return Err(e);
                },
            }
            match audit_mutations(visible, hidden, &p.updated, Ghost(p.introduced@)) {
                Ok(()) => {},
                Err(e) => {
                    return Err(e);
                },
            }
            match audit_payoffs(visible, hidden, &p.paid_off) {
                Ok(()) => {},
                Err(e) => {
                    return Err(e);
                },
            }
            match audit_ephemerals(visible, hidden, &p.ephemeral_effects) {
                Ok(()) => {},
                Err(e) => {
                    return Err(e);
                },
            }
        },
    }
    match resolution {
        None => Ok(()),
        Some(res) => audit_significant_resolution_has_consequence_path(proposal, res),
    }
}

} // verus!
