//! Encounter surfaces: the current scene's interaction handles (exits,
//! traces, tools, social handles, hazards) compiled from the visible choices
//! and the scene's packets, and materialised from encounter events.
use crate::body_resource::{BodyConstraint, BodyResourcePacket, ResourceItem};
use crate::chat::{parse_u8, parse_u8_str};
use crate::hook_ledger::{OmissionProfile, omission_profile_for_choice, omission_profile_of, ordinary_choices};
use crate::location_graph::{LocationGraphPacket, LocationNode, take_at_most};
use crate::models::TurnChoice;
use crate::resolution::{
    GateKind, GateResult, GateStatus, ResolutionOutcomeKind, ResolutionProposal,
    ResolutionVisibility,
};
use crate::scene_pressure::{ScenePressure, ScenePressureKind, ScenePressurePacket};
use crate::social_exchange::{AskStatus, DialogueStance, SocialExchangePacket, UnresolvedSocialAsk};
use crate::text::{
    ascii_lower, ascii_lower_char, ascii_lower_chars, chars_of, clone_strings, concat2, concat3,
    concat4, concat5, contains, contains_any, contains_any_str, contains_str, dec, dec2_string,
    dec_padded, dec_string, ends_with, is_blank, is_blank_str, is_ws, is_ws_char, seq_lt,
    starts_with, str_eq, str_lt, str_views, string_of_chars, strip_prefix_str, strip_suffix_str,
    views, lemma_seq_lt_asymmetric, lemma_seq_lt_irreflexive, lemma_seq_lt_transitive,
};
use vstd::prelude::*;

verus! {

pub const ENCOUNTER_SURFACE_PACKET_SCHEMA_VERSION: &'static str = "singulari.encounter_surface_packet.v1";
pub const ENCOUNTER_SURFACE_SCHEMA_VERSION: &'static str = "singulari.encounter_surface.v1";
pub const ENCOUNTER_AFFORDANCE_SCHEMA_VERSION: &'static str = "singulari.encounter_affordance.v1";
pub const ENCOUNTER_CONSTRAINT_SCHEMA_VERSION: &'static str = "singulari.encounter_constraint.v1";
pub const ENCOUNTER_CHANGE_POTENTIAL_SCHEMA_VERSION: &'static str = "singulari.encounter_change_potential.v1";
pub const CHOICE_CONTRACT_SCHEMA_VERSION: &'static str = "singulari.choice_contract.v1";
pub const ENCOUNTER_SURFACE_EVENT_SCHEMA_VERSION: &'static str = "singulari.encounter_surface_event.v1";
pub const ENCOUNTER_PROPOSAL_SCHEMA_VERSION: &'static str = "singulari.encounter_proposal.v1";
pub const ENCOUNTER_SURFACE_EVENTS_FILENAME: &'static str = "encounter_events.jsonl";
pub const ENCOUNTER_SURFACE_FILENAME: &'static str = "encounter_surface.json";

pub const ACTIVE_SURFACE_BUDGET: usize = 12;
pub const RECENT_CHANGE_BUDGET: usize = 12;
pub const BLOCKED_INTERACTION_BUDGET: usize = 8;
pub const REQUIRED_FOLLOWUP_BUDGET: usize = 8;

#[derive(Debug, Clone)]
pub struct EncounterSurfacePacket {
    pub schema_version: String,
    pub world_id: String,
    pub turn_id: String,
    pub scene_id: String,
    pub active_surfaces: Vec<EncounterSurface>,
    pub recent_surface_changes: Vec<EncounterSurfaceChange>,
    pub blocked_interactions: Vec<BlockedInteraction>,
    pub required_followups: Vec<String>,
    pub choice_contracts: Vec<ChoiceContract>,
    pub compiler_policy: EncounterSurfacePolicy,
}

#[derive(Debug, Clone)]
pub struct EncounterSurfacePolicy {
    pub source: String,
    pub use_rules: Vec<String>,
}

impl Default for EncounterSurfacePolicy {
    fn default() -> (r: Self)
        ensures
            r.source@ == "materialized_from_encounter_events_and_visible_choices_v1"@,
            r.use_rules@.len() == 4,
    {
        let mut use_rules = Vec::new();
        use_rules.push(String::from_str("Encounter surfaces are current-scene interaction handles, not puzzle solutions."));
        use_rules.push(String::from_str("Use active_surfaces to ground concrete choices, object handling, social access, and probe actions."));
        use_rules.push(String::from_str("HiddenButSignaled surfaces may expose only the visible signal, never the hidden content."));
        use_rules.push(String::from_str("Player-visible fields must not contain hidden adjudication-only facts."));
        EncounterSurfacePolicy {
            source: String::from_str("materialized_from_encounter_events_and_visible_choices_v1"),
            use_rules,
        }
    }
}

impl Default for EncounterSurfacePacket {
    fn default() -> (r: Self)
        ensures
            r.schema_version@ == ENCOUNTER_SURFACE_PACKET_SCHEMA_VERSION@,
            r.world_id@.len() == 0,
            r.turn_id@.len() == 0,
            r.scene_id@.len() == 0,
            r.active_surfaces@.len() == 0,
            r.recent_surface_changes@.len() == 0,
            r.blocked_interactions@.len() == 0,
            r.required_followups@.len() == 0,
            r.choice_contracts@.len() == 0,
    {
        EncounterSurfacePacket {
            schema_version: String::from_str(ENCOUNTER_SURFACE_PACKET_SCHEMA_VERSION),
            world_id: String::new(),
            turn_id: String::new(),
            scene_id: String::new(),
            active_surfaces: Vec::new(),
            recent_surface_changes: Vec::new(),
            blocked_interactions: Vec::new(),
            required_followups: Vec::new(),
            choice_contracts: Vec::new(),
            compiler_policy: EncounterSurfacePolicy::default(),
        }
    }
}

#[derive(Debug, Clone)]
pub struct EncounterSurface {
    pub schema_version: String,
    pub surface_id: String,
    pub label: String,
    pub kind: EncounterSurfaceKind,
    pub status: EncounterSurfaceStatus,
    pub salience: EncounterSalience,
    pub summary: String,
    pub player_visible_signal: String,
    pub location_ref: Option<String>,
    pub holder_ref: Option<String>,
    pub source_refs: Vec<String>,
    pub linked_entity_refs: Vec<String>,
    pub linked_pressure_refs: Vec<String>,
    pub linked_social_refs: Vec<String>,
    pub physical_anchors: Vec<EncounterPhysicalAnchor>,
    pub affordances: Vec<EncounterAffordance>,
    pub constraints: Vec<EncounterConstraint>,
    pub change_potential: Vec<EncounterChangePotential>,
    pub lifecycle: EncounterSurfaceLifecycle,
}

#[derive(Debug, Clone)]
pub struct EncounterPhysicalAnchor {
    pub anchor_ref: String,
    pub kind: EncounterPhysicalAnchorKind,
    pub relation: String,
    pub evidence_refs: Vec<String>,
}

#[derive(Debug, Clone, Copy, PartialEq, Eq, Structural)]
pub enum EncounterPhysicalAnchorKind {
    CurrentLocation,
    NearbyLocation,
    BodyConstraint,
    Resource,
    Actor,
    SocialExchange,
    ChoiceSlot,
    Gate,
}

#[derive(Debug, Clone, Copy, PartialEq, Eq, Structural)]
pub enum EncounterSurfaceKind {
    Barrier,
    AccessController,
    EvidenceTrace,
    MovableObject,
    UsableTool,
    Container,
    Hazard,
    Exit,
    HidingPlace,
    SocialHandle,
    EnvironmentalFeature,
    TimeSensitiveCue,
}

#[derive(Debug, Clone, Copy, PartialEq, Eq, Structural)]
pub enum EncounterSurfaceStatus {
    Available,
    Blocked,
    Locked,
    HiddenButSignaled,
    Degraded,
    ClaimedByActor,
    Moving,
    Exhausted,
    Resolved,
    Gone,
}

/// Salience, from least to most; `salience_rank` gives the order.
#[derive(Debug, Clone, Copy, PartialEq, Eq, Structural)]
pub enum EncounterSalience {
    Background,
    Useful,
    Important,
    Critical,
}

pub open spec fn salience_rank(s: EncounterSalience) -> int {
    match s {
        EncounterSalience::Background => 0,
        EncounterSalience::Useful => 1,
        EncounterSalience::Important => 2,
        EncounterSalience::Critical => 3,
    }
}

fn rank_of(s: EncounterSalience) -> (r: u8)
    ensures
        r as int == salience_rank(s),
{
    match s {
        EncounterSalience::Background => 0,
        EncounterSalience::Useful => 1,
        EncounterSalience::Important => 2,
        EncounterSalience::Critical => 3,
    }
}

#[derive(Debug, Clone)]
pub struct EncounterAffordance {
    pub schema_version: String,
    pub affordance_id: String,
    pub action_kind: EncounterActionKind,
    pub label_seed: String,
    pub intent_seed: String,
    pub availability: AffordanceAvailability,
    pub required_refs: Vec<String>,
    pub risk_tags: Vec<String>,
    pub evidence_refs: Vec<String>,
}

#[derive(Debug, Clone, Copy, PartialEq, Eq, Structural)]
pub enum EncounterActionKind {
    Inspect,
    Touch,
    Move,
    Open,
    Close,
    Force,
    Repair,
    Break,
    Take,
    Use,
    TalkAbout,
    TradeOver,
    ThreatenWith,
    HideBehind,
    Follow,
    Wait,
    Listen,
    Smell,
    Compare,
    Mark,
    Bypass,
}

#[derive(Debug, Clone, Copy, PartialEq, Eq, Structural)]
pub enum AffordanceAvailability {
    Available,
    RequiresCondition,
    Risky,
    Blocked,
    UnknownNeedsProbe,
}

#[derive(Debug, Clone)]
pub struct EncounterConstraint {
    pub schema_version: String,
    pub constraint_id: String,
    pub kind: EncounterConstraintKind,
    pub summary: String,
    pub visible_reason: String,
    pub unblock_refs: Vec<String>,
    pub evidence_refs: Vec<String>,
}

#[derive(Debug, Clone, Copy, PartialEq, Eq, Structural)]
pub enum EncounterConstraintKind {
    Body,
    Resource,
    Tool,
    Knowledge,
    SocialPermission,
    TimePressure,
    Noise,
    Visibility,
    ActorOpposition,
    WorldLaw,
}

#[derive(Debug, Clone)]
pub struct EncounterChangePotential {
    pub schema_version: String,
    pub change_id: String,
    pub kind: EncounterChangeKind,
    pub summary: String,
    pub likely_scope: String,
    pub evidence_refs: Vec<String>,
}

#[derive(Debug, Clone)]
pub struct ChoiceContract {
    pub schema_version: String,
    pub choice_id: String,
    pub target_ref: String,
    pub verb: EncounterActionKind,
    pub visible_label: String,
    pub preconditions: Vec<String>,
    pub expected_cost: ChoiceTimeCost,
    pub risk_tags: Vec<String>,
    pub possible_event_kinds: Vec<String>,
    pub evidence_refs: Vec<String>,
    pub forbidden_outcomes: Vec<String>,
    pub omission_profile: Option<OmissionProfile>,
}

#[derive(Debug, Clone, Copy, PartialEq, Eq, Structural)]
pub enum ChoiceTimeCost {
    NoTime,
    Moment,
    Exchange,
    SceneBeat,
    TravelStep,
    LongWait,
}

#[derive(Debug, Clone, Copy, PartialEq, Eq, Structural)]
pub enum EncounterChangeKind {
    RevealDetail,
    ChangeAccess,
    ConsumeSurface,
    MoveSurface,
    DamageSurface,
    CreateNoise,
    ShiftActorStance,
    AdvanceClock,
    ProduceResource,
    DestroyEvidence,
    OpenExit,
    CloseExit,
}

#[derive(Debug, Clone)]
pub struct EncounterSurfaceLifecycle {
    pub opened_turn_id: String,
    pub last_changed_turn_id: String,
    pub persistence: EncounterPersistence,
}

#[derive(Debug, Clone, Copy, PartialEq, Eq, Structural)]
pub enum EncounterPersistence {
    CurrentBeat,
    CurrentScene,
    UntilChanged,
    SearchOnly,
}

#[derive(Debug, Clone)]
pub struct EncounterSurfaceChange {
    pub surface_id: String,
    pub summary: String,
    pub turn_id: String,
    pub evidence_refs: Vec<String>,
}

#[derive(Debug, Clone)]
pub struct BlockedInteraction {
    pub surface_id: String,
    pub action_kind: EncounterActionKind,
    pub reason: String,
    pub unblock_refs: Vec<String>,
    pub evidence_refs: Vec<String>,
}

#[derive(Debug, Clone)]
pub struct EncounterProposal {
    pub schema_version: String,
    pub world_id: String,
    pub turn_id: String,
    pub mutations: Vec<EncounterSurfaceMutation>,
    pub closures: Vec<EncounterSurfaceClosure>,
}

#[derive(Debug, Clone)]
pub struct EncounterSurfaceMutation {
    pub surface_id: String,
    pub label: String,
    pub kind: EncounterSurfaceKind,
    pub status: EncounterSurfaceStatus,
    pub salience: EncounterSalience,
    pub summary: String,
    pub player_visible_signal: String,
    pub location_ref: Option<String>,
    pub holder_ref: Option<String>,
    pub source_refs: Vec<String>,
    pub linked_entity_refs: Vec<String>,
    pub linked_pressure_refs: Vec<String>,
    pub linked_social_refs: Vec<String>,
    pub physical_anchors: Vec<EncounterPhysicalAnchor>,
    pub affordances: Vec<EncounterAffordance>,
    pub constraints: Vec<EncounterConstraint>,
    pub change_potential: Vec<EncounterChangePotential>,
    pub persistence: EncounterPersistence,
}

#[derive(Debug, Clone)]
pub struct EncounterSurfaceClosure {
    pub surface_id: String,
    pub kind: EncounterClosureKind,
    pub summary: String,
    pub evidence_refs: Vec<String>,
    pub replacement_surface_id: Option<String>,
}

#[derive(Debug, Clone, Copy, PartialEq, Eq, Structural)]
pub enum EncounterClosureKind {
    Resolved,
    Exhausted,
    Destroyed,
    MovedAway,
    SceneTransition,
    Superseded,
}

#[derive(Debug, Clone)]
pub struct EncounterSurfaceEventRecord {
    pub schema_version: String,
    pub world_id: String,
    pub turn_id: String,
    pub event_id: String,
    pub mutation: Option<EncounterSurfaceMutation>,
    pub closure: Option<EncounterSurfaceClosure>,
    pub recorded_at: String,
}

#[derive(Debug, Clone)]
pub struct EncounterSurfaceEventPlan {
    pub records: Vec<EncounterSurfaceEventRecord>,
}


// ---------------------------------------------------------------------------
// Reading a choice.
// ---------------------------------------------------------------------------

/// The text a choice is classified by: tag and intent, ASCII-lowercased.
pub open spec fn choice_text(c: TurnChoice) -> Seq<char> {
    ascii_lower(c.tag@ + " "@ + c.intent@)
}

fn choice_text_of(c: &TurnChoice) -> (r: String)
    ensures
        r@ == choice_text(*c),
{
    let joined = concat3(c.tag.as_str(), " ", c.intent.as_str());
    let lowered = ascii_lower_chars(joined.as_str());
    string_of_chars(&lowered)
}

pub open spec fn social_words() -> Seq<Seq<char>> {
    seq!["말"@, "묻"@, "대화"@, "설득"@, "거래"@, "협상"@]
}

pub open spec fn exit_words() -> Seq<Seq<char>> {
    seq!["문"@, "길"@, "통로"@, "출구"@, "넘어"@, "들어"@, "이동"@]
}

pub open spec fn trace_words() -> Seq<Seq<char>> {
    seq!["흔적"@, "단서"@, "확인"@, "살핀"@, "관찰"@, "조사"@]
}

pub open spec fn tool_words() -> Seq<Seq<char>> {
    seq!["도구"@, "소지"@, "손"@, "사용"@, "꺼내"@, "쥐"@]
}

pub open spec fn hazard_words() -> Seq<Seq<char>> {
    seq!["위험"@, "공격"@, "피"@, "숨"@, "막"@, "압박"@]
}

/// The kind of surface a choice's text names.
pub open spec fn choice_kind(slot: u8, text: Seq<char>) -> EncounterSurfaceKind {
    if contains_any(text, social_words()) {
        EncounterSurfaceKind::SocialHandle
    } else if contains_any(text, exit_words()) || slot == 1 {
        EncounterSurfaceKind::Exit
    } else if contains_any(text, trace_words()) || slot == 2 {
        EncounterSurfaceKind::EvidenceTrace
    } else if contains_any(text, tool_words()) || slot == 4 {
        EncounterSurfaceKind::UsableTool
    } else if contains_any(text, hazard_words()) || slot == 5 {
        EncounterSurfaceKind::Hazard
    } else {
        EncounterSurfaceKind::EnvironmentalFeature
    }
}

fn kind_from_choice_text(slot: u8, text: &str) -> (r: EncounterSurfaceKind)
    ensures
        r == choice_kind(slot, text@),
{
    let social: [&str; 6] = ["말", "묻", "대화", "설득", "거래", "협상"];
    assert(str_views(social@) =~= social_words());
    let exit: [&str; 7] = ["문", "길", "통로", "출구", "넘어", "들어", "이동"];
    assert(str_views(exit@) =~= exit_words());
    let trace: [&str; 6] = ["흔적", "단서", "확인", "살핀", "관찰", "조사"];
    assert(str_views(trace@) =~= trace_words());
    let tool: [&str; 6] = ["도구", "소지", "손", "사용", "꺼내", "쥐"];
    assert(str_views(tool@) =~= tool_words());
    let hazard: [&str; 6] = ["위험", "공격", "피", "숨", "막", "압박"];
    assert(str_views(hazard@) =~= hazard_words());
    if contains_any_str(text, &social) {
        EncounterSurfaceKind::SocialHandle
    } else if contains_any_str(text, &exit) || slot == 1 {
        EncounterSurfaceKind::Exit
    } else if contains_any_str(text, &trace) || slot == 2 {
        EncounterSurfaceKind::EvidenceTrace
    } else if contains_any_str(text, &tool) || slot == 4 {
        EncounterSurfaceKind::UsableTool
    } else if contains_any_str(text, &hazard) || slot == 5 {
        EncounterSurfaceKind::Hazard
    } else {
        EncounterSurfaceKind::EnvironmentalFeature
    }
}

pub open spec fn talk_words() -> Seq<Seq<char>> {
    seq!["말"@, "묻"@, "대화"@, "설득"@, "거래"@]
}

/// The action a choice's text names.
pub open spec fn choice_action(slot: u8, text: Seq<char>) -> EncounterActionKind {
    if contains_any(text, talk_words()) {
        EncounterActionKind::TalkAbout
    } else if contains_any(text, seq!["열"@, "문"@]) {
        EncounterActionKind::Open
    } else if contains_any(text, seq!["부수"@, "밀"@, "억지"@, "강행"@]) {
        EncounterActionKind::Force
    } else if contains_any(text, seq!["따라"@]) {
        EncounterActionKind::Follow
    } else if contains_any(text, seq!["기다"@, "버틴"@]) {
        EncounterActionKind::Wait
    } else if contains_any(text, seq!["듣"@]) {
        EncounterActionKind::Listen
    } else if slot == 1 {
        EncounterActionKind::Move
    } else if slot == 2 {
        EncounterActionKind::Inspect
    } else if slot == 4 {
        EncounterActionKind::Use
    } else if slot == 5 {
        EncounterActionKind::Bypass
    } else {
        EncounterActionKind::Inspect
    }
}

fn action_from_choice_text(slot: u8, text: &str) -> (r: EncounterActionKind)
    ensures
        r == choice_action(slot, text@),
{
    let talk: [&str; 5] = ["말", "묻", "대화", "설득", "거래"];
    assert(str_views(talk@) =~= talk_words());
    let open: [&str; 2] = ["열", "문"];
    assert(str_views(open@) =~= seq!["열"@, "문"@]);
    let force: [&str; 4] = ["부수", "밀", "억지", "강행"];
    assert(str_views(force@) =~= seq!["부수"@, "밀"@, "억지"@, "강행"@]);
    let follow: [&str; 1] = ["따라"];
    assert(str_views(follow@) =~= seq!["따라"@]);
    let wait: [&str; 2] = ["기다", "버틴"];
    assert(str_views(wait@) =~= seq!["기다"@, "버틴"@]);
    let listen: [&str; 1] = ["듣"];
    assert(str_views(listen@) =~= seq!["듣"@]);
    if contains_any_str(text, &talk) {
        EncounterActionKind::TalkAbout
    } else if contains_any_str(text, &open) {
        EncounterActionKind::Open
    } else if contains_any_str(text, &force) {
        EncounterActionKind::Force
    } else if contains_any_str(text, &follow) {
        EncounterActionKind::Follow
    } else if contains_any_str(text, &wait) {
        EncounterActionKind::Wait
    } else if contains_any_str(text, &listen) {
        EncounterActionKind::Listen
    } else if slot == 1 {
        EncounterActionKind::Move
    } else if slot == 2 {
        EncounterActionKind::Inspect
    } else if slot == 4 {
        EncounterActionKind::Use
    } else if slot == 5 {
        EncounterActionKind::Bypass
    } else {
        EncounterActionKind::Inspect
    }
}

/// The status a choice's text signals.
pub open spec fn choice_status(text: Seq<char>) -> EncounterSurfaceStatus {
    if contains_any(text, seq!["막"@, "불가"@, "닫혀"@, "잠겨"@, "조건"@]) {
        EncounterSurfaceStatus::Blocked
    } else if contains_any(text, seq!["숨"@, "기척"@, "희미"@, "흔적"@]) {
        EncounterSurfaceStatus::HiddenButSignaled
    } else {
        EncounterSurfaceStatus::Available
    }
}

fn status_from_choice_text(text: &str) -> (r: EncounterSurfaceStatus)
    ensures
        r == choice_status(text@),
{
    let blocked: [&str; 5] = ["막", "불가", "닫혀", "잠겨", "조건"];
    assert(str_views(blocked@) =~= seq!["막"@, "불가"@, "닫혀"@, "잠겨"@, "조건"@]);
    let hidden: [&str; 4] = ["숨", "기척", "희미", "흔적"];
    assert(str_views(hidden@) =~= seq!["숨"@, "기척"@, "희미"@, "흔적"@]);
    if contains_any_str(text, &blocked) {
        EncounterSurfaceStatus::Blocked
    } else if contains_any_str(text, &hidden) {
        EncounterSurfaceStatus::HiddenButSignaled
    } else {
        EncounterSurfaceStatus::Available
    }
}

pub open spec fn status_availability(s: EncounterSurfaceStatus) -> AffordanceAvailability {
    match s {
        EncounterSurfaceStatus::Available => AffordanceAvailability::Available,
        EncounterSurfaceStatus::Blocked | EncounterSurfaceStatus::Locked => AffordanceAvailability::Blocked,
        EncounterSurfaceStatus::HiddenButSignaled => AffordanceAvailability::UnknownNeedsProbe,
        EncounterSurfaceStatus::Degraded | EncounterSurfaceStatus::ClaimedByActor => AffordanceAvailability::Risky,
        _ => AffordanceAvailability::RequiresCondition,
    }
}

fn availability_from_status(s: EncounterSurfaceStatus) -> (r: AffordanceAvailability)
    ensures
        r == status_availability(s),
{
    match s {
        EncounterSurfaceStatus::Available => AffordanceAvailability::Available,
        EncounterSurfaceStatus::Blocked | EncounterSurfaceStatus::Locked => AffordanceAvailability::Blocked,
        EncounterSurfaceStatus::HiddenButSignaled => AffordanceAvailability::UnknownNeedsProbe,
        EncounterSurfaceStatus::Degraded | EncounterSurfaceStatus::ClaimedByActor => AffordanceAvailability::Risky,
        _ => AffordanceAvailability::RequiresCondition,
    }
}

pub open spec fn is_blocking(s: EncounterSurfaceStatus) -> bool {
    s == EncounterSurfaceStatus::Blocked || s == EncounterSurfaceStatus::Locked
}

/// The risk tags a surface of kind `k` carries.
pub open spec fn kind_risk_tags(k: EncounterSurfaceKind, pressure_linked: bool) -> Seq<Seq<char>> {
    (if k == EncounterSurfaceKind::Hazard || k == EncounterSurfaceKind::Barrier {
        seq!["danger"@]
    } else {
        Seq::empty()
    }) + (if k == EncounterSurfaceKind::SocialHandle || k == EncounterSurfaceKind::AccessController {
        seq!["social"@]
    } else {
        Seq::empty()
    }) + (if pressure_linked {
        seq!["pressure_linked"@]
    } else {
        Seq::empty()
    })
}

fn risk_tags_from_kind(k: EncounterSurfaceKind, pressure_linked: bool) -> (r: Vec<String>)
    ensures
        views(r@) == kind_risk_tags(k, pressure_linked),
{
    let mut tags: Vec<String> = Vec::new();
    if k == EncounterSurfaceKind::Hazard || k == EncounterSurfaceKind::Barrier {
        tags.push(String::from_str("danger"));
    }
    let ghost t1 = tags@;
    if k == EncounterSurfaceKind::SocialHandle || k == EncounterSurfaceKind::AccessController {
        tags.push(String::from_str("social"));
    }
    let ghost t2 = tags@;
    if pressure_linked {
        tags.push(String::from_str("pressure_linked"));
    }
    assert(views(tags@) =~= kind_risk_tags(k, pressure_linked));
    tags
}

pub open spec fn action_cost(a: EncounterActionKind) -> ChoiceTimeCost {
    match a {
        EncounterActionKind::Wait => ChoiceTimeCost::LongWait,
        EncounterActionKind::Move | EncounterActionKind::Follow | EncounterActionKind::Bypass => ChoiceTimeCost::TravelStep,
        EncounterActionKind::TalkAbout | EncounterActionKind::TradeOver | EncounterActionKind::ThreatenWith => ChoiceTimeCost::Exchange,
        EncounterActionKind::Open | EncounterActionKind::Force | EncounterActionKind::Repair
        | EncounterActionKind::Break | EncounterActionKind::Take | EncounterActionKind::Use
        | EncounterActionKind::HideBehind => ChoiceTimeCost::SceneBeat,
        EncounterActionKind::Inspect | EncounterActionKind::Touch | EncounterActionKind::Close
        | EncounterActionKind::Listen | EncounterActionKind::Smell | EncounterActionKind::Compare
        | EncounterActionKind::Mark => ChoiceTimeCost::Moment,
    }
}

fn expected_cost_for_action(a: EncounterActionKind) -> (r: ChoiceTimeCost)
    ensures
        r == action_cost(a),
{
    match a {
        EncounterActionKind::Wait => ChoiceTimeCost::LongWait,
        EncounterActionKind::Move | EncounterActionKind::Follow | EncounterActionKind::Bypass => ChoiceTimeCost::TravelStep,
        EncounterActionKind::TalkAbout | EncounterActionKind::TradeOver | EncounterActionKind::ThreatenWith => ChoiceTimeCost::Exchange,
        EncounterActionKind::Open | EncounterActionKind::Force | EncounterActionKind::Repair
        | EncounterActionKind::Break | EncounterActionKind::Take | EncounterActionKind::Use
        | EncounterActionKind::HideBehind => ChoiceTimeCost::SceneBeat,
        EncounterActionKind::Inspect | EncounterActionKind::Touch | EncounterActionKind::Close
        | EncounterActionKind::Listen | EncounterActionKind::Smell | EncounterActionKind::Compare
        | EncounterActionKind::Mark => ChoiceTimeCost::Moment,
    }
}

pub open spec fn is_probe_action(a: EncounterActionKind) -> bool {
    a == EncounterActionKind::Inspect || a == EncounterActionKind::Listen
        || a == EncounterActionKind::Smell || a == EncounterActionKind::Compare
}

pub open spec fn is_talk_action(a: EncounterActionKind) -> bool {
    a == EncounterActionKind::TalkAbout || a == EncounterActionKind::TradeOver
        || a == EncounterActionKind::ThreatenWith
}

pub open spec fn is_travel_action(a: EncounterActionKind) -> bool {
    a == EncounterActionKind::Move || a == EncounterActionKind::Follow
        || a == EncounterActionKind::Bypass
}

pub open spec fn action_event_kinds(a: EncounterActionKind) -> Seq<Seq<char>> {
    if is_probe_action(a) {
        seq!["knowledge_observed"@, "surface_state_revealed"@]
    } else if is_talk_action(a) {
        seq!["dialogue_exchange"@, "relationship_changed"@]
    } else if is_travel_action(a) {
        seq!["entity_moved"@, "location_access_changed"@]
    } else if a == EncounterActionKind::Wait {
        seq!["process_ticked"@]
    } else {
        seq!["surface_state_changed"@]
    }
}

fn two_strings(a: &str, b: &str) -> (r: Vec<String>)
    ensures
        views(r@) == seq![a@, b@],
{
    let mut v = Vec::new();
    v.push(String::from_str(a));
    v.push(String::from_str(b));
    assert(views(v@) =~= seq![a@, b@]);
    v
}

fn single_string(a: &str) -> (r: Vec<String>)
    ensures
        views(r@) == seq![a@],
{
    let mut v = Vec::new();
    v.push(String::from_str(a));
    assert(views(v@) =~= seq![a@]);
    v
}

fn possible_event_kinds_for_action(a: EncounterActionKind) -> (r: Vec<String>)
    ensures
        views(r@) == action_event_kinds(a),
{
    match a {
        EncounterActionKind::Inspect | EncounterActionKind::Listen | EncounterActionKind::Smell
        | EncounterActionKind::Compare => two_strings("knowledge_observed", "surface_state_revealed"),
        EncounterActionKind::TalkAbout | EncounterActionKind::TradeOver
        | EncounterActionKind::ThreatenWith => two_strings("dialogue_exchange", "relationship_changed"),
        EncounterActionKind::Move | EncounterActionKind::Follow | EncounterActionKind::Bypass => two_strings(
            "entity_moved",
            "location_access_changed",
        ),
        EncounterActionKind::Wait => single_string("process_ticked"),
        _ => single_string("surface_state_changed"),
    }
}

pub open spec fn action_forbidden_outcomes(a: EncounterActionKind) -> Seq<Seq<char>> {
    seq!["invent_hidden_truth_without_evidence"@] + (if is_probe_action(a) {
        seq!["reveal_hidden_truth_directly"@]
    } else {
        Seq::empty()
    }) + (if a == EncounterActionKind::Open || a == EncounterActionKind::Force {
        seq!["unlock_without_tool_or_permission"@]
    } else {
        Seq::empty()
    })
}

fn forbidden_outcomes_for_action(a: EncounterActionKind) -> (r: Vec<String>)
    ensures
        views(r@) == action_forbidden_outcomes(a),
{
    let mut out = single_string("invent_hidden_truth_without_evidence");
    if a == EncounterActionKind::Inspect || a == EncounterActionKind::Listen
        || a == EncounterActionKind::Smell || a == EncounterActionKind::Compare {
        out.push(String::from_str("reveal_hidden_truth_directly"));
    }
    if a == EncounterActionKind::Open || a == EncounterActionKind::Force {
        out.push(String::from_str("unlock_without_tool_or_permission"));
    }
    assert(views(out@) =~= action_forbidden_outcomes(a));
    out
}

/// The slot a `next_choices[slot=N]` reference names, if it is one.
pub open spec fn slot_of_ref(r: Seq<char>) -> Option<nat> {
    let pre = "next_choices[slot="@;
    if starts_with(r, pre) && r.len() >= pre.len() + 1 && r.last() == ']' {
        parse_u8(r.subrange(pre.len() as int, r.len() - 1))
    } else {
        None
    }
}


/// `next_choices[slot=N]` names slot `N`.
pub fn choice_slot_from_ref(source_ref: &str) -> (r: Option<u8>)
    ensures
        match r {
            Some(v) => slot_of_ref(source_ref@) == Some(v as nat),
            None => slot_of_ref(source_ref@) is None,
        },
{
    let ghost pre = "next_choices[slot="@;
    proof {
        reveal_strlit("next_choices[slot=");
        reveal_strlit("]");
    }
    match strip_prefix_str(source_ref, "next_choices[slot=") {
        None => None,
        Some(rest) => {
            match strip_suffix_str(rest, "]") {
                None => {
                    proof {
                        assert("]"@.len() == 1);
                        if rest@.len() >= 1 && source_ref@.last() == ']' {
                            assert(rest@.last() == source_ref@.last());
                            assert(rest@.subrange(rest@.len() - 1, rest@.len() as int) =~= "]"@);
                            assert(ends_with(rest@, "]"@));
                        }
                    }
                    None
                },
                Some(digits) => {
                    proof {
                        assert("]"@.len() == 1);
                        assert(rest@.len() >= 1);
                        assert(rest@.subrange(rest@.len() - 1, rest@.len() as int) == "]"@);
                        assert(rest@.subrange(rest@.len() - 1, rest@.len() as int)[0] == rest@[rest@.len() - 1]);
                        assert(rest@[rest@.len() - 1] == ']');
                        assert(rest@.last() == source_ref@.last());
                        assert(source_ref@.len() >= pre.len() + 1);
                        assert(digits@ =~= source_ref@.subrange(pre.len() as int, source_ref@.len() - 1));
                    }
                    parse_u8_str(digits)
                },
            }
        },
    }
}

// ---------------------------------------------------------------------------
// Surface ids.
// ---------------------------------------------------------------------------

pub open spec fn is_ascii_alnum(c: char) -> bool {
    ('0' <= c && c <= '9') || ('a' <= c && c <= 'z') || ('A' <= c && c <= 'Z')
}

/// Each character of an id seed: ASCII letters and digits lowercased,
/// whitespace and `- _ : /` to `-`, anything else to `_`.
pub open spec fn id_char(c: char) -> char {
    if is_ascii_alnum(c) {
        ascii_lower_char(c)
    } else if is_ws(c) || c == '-' || c == '_' || c == ':' || c == '/' {
        '-'
    } else {
        '_'
    }
}

/// Joining the non-empty `-`-separated parts of `s` with `-`, read left to
/// right: the text so far, and whether a `-` is pending before the next part.
pub open spec fn dash_join(s: Seq<char>) -> (Seq<char>, bool)
    decreases s.len(),
{
    if s.len() == 0 {
        (Seq::empty(), false)
    } else {
        let (out, pending) = dash_join(s.drop_last());
        let c = s.last();
        if c == '-' {
            (out, out.len() > 0)
        } else if pending {
            (out.push('-').push(c), false)
        } else {
            (out.push(c), false)
        }
    }
}

/// The id segment a text makes: mapped, with empty parts dropped, at most
/// 48 characters, `surface` when nothing is left.
pub open spec fn normalized_id(text: Seq<char>) -> Seq<char> {
    let compact = dash_join(Seq::new(text.len(), |i: int| id_char(text[i]))).0;
    if compact.len() == 0 {
        "surface"@
    } else if compact.len() <= 48 {
        compact
    } else {
        compact.subrange(0, 48)
    }
}

fn id_char_of(c: char) -> (r: char)
    ensures
        r == id_char(c),
{
    if ('0' <= c && c <= '9') || ('a' <= c && c <= 'z') {
        c
    } else if 'A' <= c && c <= 'Z' {
        crate::text::ascii_lower_of(c)
    } else if is_ws_char(c) || c == '-' || c == '_' || c == ':' || c == '/' {
        '-'
    } else {
        '_'
    }
}

pub fn normalize_id(text: &str) -> (r: String)
    ensures
        r@ == normalized_id(text@),
{
    let cs = chars_of(text);
    let ghost mapped = Seq::new(text@.len(), |i: int| id_char(text@[i]));
    let mut out: Vec<char> = Vec::new();
    let mut pending = false;
    let mut i: usize = 0;
    while i < cs.len()
        invariant
            cs@ == text@,
            i <= cs@.len(),
            mapped == Seq::new(text@.len(), |i: int| id_char(text@[i])),
            (out@, pending) == dash_join(mapped.subrange(0, i as int)),
        decreases cs.len() - i,
    {
        let c = id_char_of(cs[i]);
        proof {
            assert(mapped.subrange(0, i + 1).drop_last() =~= mapped.subrange(0, i as int));
            assert(mapped.subrange(0, i + 1).last() == c);
        }
        if c == '-' {
            pending = out.len() > 0;
        } else if pending {
            out.push('-');
            out.push(c);
            pending = false;
        } else {
            out.push(c);
        }
        i = i + 1;
    }
    proof {
        assert(mapped.subrange(0, mapped.len() as int) =~= mapped);
    }
    if out.len() == 0 {
        String::from_str("surface")
    } else {
        out.truncate(48);
        string_of_chars(&out)
    }
}


// ---------------------------------------------------------------------------
// Parts of a surface.
// ---------------------------------------------------------------------------

pub open spec fn anchor_is(
    a: EncounterPhysicalAnchor,
    anchor_ref: Seq<char>,
    kind: EncounterPhysicalAnchorKind,
    relation: Seq<char>,
    evidence: Seq<Seq<char>>,
) -> bool {
    a.anchor_ref@ == anchor_ref && a.kind == kind && a.relation@ == relation && views(
        a.evidence_refs@,
    ) == evidence
}

fn make_anchor(anchor_ref: &str, kind: EncounterPhysicalAnchorKind, relation: &str, evidence: Vec<String>) -> (r: EncounterPhysicalAnchor)
    ensures
        anchor_is(r, anchor_ref@, kind, relation@, views(evidence@)),
{
    EncounterPhysicalAnchor {
        anchor_ref: String::from_str(anchor_ref),
        kind,
        relation: String::from_str(relation),
        evidence_refs: evidence,
    }
}

pub open spec fn affordance_is(
    a: EncounterAffordance,
    id: Seq<char>,
    action: EncounterActionKind,
    label: Seq<char>,
    intent: Seq<char>,
    availability: AffordanceAvailability,
    required: Seq<Seq<char>>,
    risk_tags: Seq<Seq<char>>,
    evidence: Seq<Seq<char>>,
) -> bool {
    &&& a.schema_version@ == ENCOUNTER_AFFORDANCE_SCHEMA_VERSION@
    &&& a.affordance_id@ == id
    &&& a.action_kind == action
    &&& a.label_seed@ == label
    &&& a.intent_seed@ == intent
    &&& a.availability == availability
    &&& views(a.required_refs@) == required
    &&& views(a.risk_tags@) == risk_tags
    &&& views(a.evidence_refs@) == evidence
}

fn make_affordance(
    id: String,
    action: EncounterActionKind,
    label: String,
    intent: String,
    availability: AffordanceAvailability,
    required: Vec<String>,
    risk_tags: Vec<String>,
    evidence: Vec<String>,
) -> (r: EncounterAffordance)
    ensures
        affordance_is(r, id@, action, label@, intent@, availability, views(required@), views(risk_tags@), views(evidence@)),
{
    EncounterAffordance {
        schema_version: String::from_str(ENCOUNTER_AFFORDANCE_SCHEMA_VERSION),
        affordance_id: id,
        action_kind: action,
        label_seed: label,
        intent_seed: intent,
        availability,
        required_refs: required,
        risk_tags,
        evidence_refs: evidence,
    }
}

pub open spec fn constraint_is(
    c: EncounterConstraint,
    id: Seq<char>,
    kind: EncounterConstraintKind,
    summary: Seq<char>,
    reason: Seq<char>,
    unblock: Seq<Seq<char>>,
    evidence: Seq<Seq<char>>,
) -> bool {
    &&& c.schema_version@ == ENCOUNTER_CONSTRAINT_SCHEMA_VERSION@
    &&& c.constraint_id@ == id
    &&& c.kind == kind
    &&& c.summary@ == summary
    &&& c.visible_reason@ == reason
    &&& views(c.unblock_refs@) == unblock
    &&& views(c.evidence_refs@) == evidence
}

fn make_constraint(
    id: String,
    kind: EncounterConstraintKind,
    summary: String,
    reason: String,
    unblock: Vec<String>,
    evidence: Vec<String>,
) -> (r: EncounterConstraint)
    ensures
        constraint_is(r, id@, kind, summary@, reason@, views(unblock@), views(evidence@)),
{
    EncounterConstraint {
        schema_version: String::from_str(ENCOUNTER_CONSTRAINT_SCHEMA_VERSION),
        constraint_id: id,
        kind,
        summary,
        visible_reason: reason,
        unblock_refs: unblock,
        evidence_refs: evidence,
    }
}

pub open spec fn change_is(
    c: EncounterChangePotential,
    id: Seq<char>,
    kind: EncounterChangeKind,
    summary: Seq<char>,
    scope: Seq<char>,
    evidence: Seq<Seq<char>>,
) -> bool {
    &&& c.schema_version@ == ENCOUNTER_CHANGE_POTENTIAL_SCHEMA_VERSION@
    &&& c.change_id@ == id
    &&& c.kind == kind
    &&& c.summary@ == summary
    &&& c.likely_scope@ == scope
    &&& views(c.evidence_refs@) == evidence
}

fn make_change(id: String, kind: EncounterChangeKind, summary: &str, scope: &str, evidence: Vec<String>) -> (r: EncounterChangePotential)
    ensures
        change_is(r, id@, kind, summary@, scope@, views(evidence@)),
{
    EncounterChangePotential {
        schema_version: String::from_str(ENCOUNTER_CHANGE_POTENTIAL_SCHEMA_VERSION),
        change_id: id,
        kind,
        summary: String::from_str(summary),
        likely_scope: String::from_str(scope),
        evidence_refs: evidence,
    }
}

/// What acting on a choice surface may change.
pub open spec fn action_change(a: EncounterActionKind) -> (EncounterChangeKind, Seq<char>) {
    if is_probe_action(a) {
        (EncounterChangeKind::RevealDetail, "조사하면 세부 단서가 드러날 수 있다."@)
    } else if a == EncounterActionKind::Open || a == EncounterActionKind::Bypass {
        (EncounterChangeKind::OpenExit, "접근 경로가 열릴 수 있다."@)
    } else if a == EncounterActionKind::Force || a == EncounterActionKind::Break {
        (EncounterChangeKind::CreateNoise, "강행하면 소음이나 손상이 생길 수 있다."@)
    } else if is_talk_action(a) {
        (EncounterChangeKind::ShiftActorStance, "상대 태도나 허가 조건이 바뀔 수 있다."@)
    } else if a == EncounterActionKind::Take || a == EncounterActionKind::Use {
        (EncounterChangeKind::ConsumeSurface, "자원 상태가 바뀔 수 있다."@)
    } else {
        (EncounterChangeKind::AdvanceClock, "시간과 장면 압력이 조금 움직일 수 있다."@)
    }
}

fn change_from_action(surface_id: &str, a: EncounterActionKind) -> (r: EncounterChangePotential)
    ensures
        change_is(r, surface_id@ + ":change"@, action_change(a).0, action_change(a).1, "current_scene"@, Seq::empty()),
{
    let (kind, summary) = match a {
        EncounterActionKind::Inspect | EncounterActionKind::Listen | EncounterActionKind::Smell
        | EncounterActionKind::Compare => (EncounterChangeKind::RevealDetail, "조사하면 세부 단서가 드러날 수 있다."),
        EncounterActionKind::Open | EncounterActionKind::Bypass => (EncounterChangeKind::OpenExit, "접근 경로가 열릴 수 있다."),
        EncounterActionKind::Force | EncounterActionKind::Break => (EncounterChangeKind::CreateNoise, "강행하면 소음이나 손상이 생길 수 있다."),
        EncounterActionKind::TalkAbout | EncounterActionKind::TradeOver
        | EncounterActionKind::ThreatenWith => (EncounterChangeKind::ShiftActorStance, "상대 태도나 허가 조건이 바뀔 수 있다."),
        EncounterActionKind::Take | EncounterActionKind::Use => (EncounterChangeKind::ConsumeSurface, "자원 상태가 바뀔 수 있다."),
        _ => (EncounterChangeKind::AdvanceClock, "시간과 장면 압력이 조금 움직일 수 있다."),
    };
    let no_evidence: Vec<String> = Vec::new();
    assert(views(no_evidence@) =~= Seq::<Seq<char>>::empty());
    make_change(concat2(surface_id, ":change"), kind, summary, "current_scene", no_evidence)
}

/// `next_choices[slot=N]`.
pub open spec fn slot_ref(slot: u8) -> Seq<char> {
    "next_choices[slot="@ + dec(slot as nat) + "]"@
}

pub(crate) fn slot_ref_of(slot: u8) -> (r: String)
    ensures
        r@ == slot_ref(slot),
{
    let n = dec_string(slot as u64);
    concat3("next_choices[slot=", n.as_str(), "]")
}

/// The constraint a blocked choice surface carries.
pub open spec fn choice_constraint_is(c: EncounterConstraint, surface_id: Seq<char>) -> bool {
    constraint_is(
        c,
        surface_id + ":constraint"@,
        EncounterConstraintKind::Knowledge,
        "아직 조건이 충분히 열리지 않았다."@,
        "먼저 확인하거나 조건을 바꿔야 한다."@,
        Seq::empty(),
        Seq::empty(),
    )
}

fn constraint_from_choice_status(surface_id: &str, status: EncounterSurfaceStatus) -> (r: Vec<EncounterConstraint>)
    ensures
        r@.len() == if is_blocking(status) { 1nat } else { 0nat },
        r@.len() == 1 ==> choice_constraint_is(r@[0], surface_id@),
{
    let mut out = Vec::new();
    if status == EncounterSurfaceStatus::Blocked || status == EncounterSurfaceStatus::Locked {
        let no_unblock: Vec<String> = Vec::new();
        let no_evidence: Vec<String> = Vec::new();
        assert(views(no_unblock@) =~= Seq::<Seq<char>>::empty());
        assert(views(no_evidence@) =~= Seq::<Seq<char>>::empty());
        out.push(make_constraint(
            concat2(surface_id, ":constraint"),
            EncounterConstraintKind::Knowledge,
            String::from_str("아직 조건이 충분히 열리지 않았다."),
            String::from_str("먼저 확인하거나 조건을 바꿔야 한다."),
            no_unblock,
            no_evidence,
        ));
    }
    out
}

/// `m` is the surface mutation that choice `c` makes in `turn_id` and
/// `scene_id`, linked to `pressure_refs` and sourced from `source_refs`
/// (or from the choice's slot when none are given).
pub open spec fn choice_mutation_is(
    m: EncounterSurfaceMutation,
    turn_id: Seq<char>,
    scene_id: Seq<char>,
    c: TurnChoice,
    pressure_refs: Seq<Seq<char>>,
    source_refs: Seq<Seq<char>>,
) -> bool {
    let text = choice_text(c);
    let kind = choice_kind(c.slot, text);
    let action = choice_action(c.slot, text);
    let status = choice_status(text);
    let sid = "encounter:"@ + turn_id + ":slot:"@ + dec(c.slot as nat) + ":"@ + normalized_id(c.tag@);
    let sref = slot_ref(c.slot);
    &&& m.surface_id@ == sid
    &&& m.label@ == c.tag@
    &&& m.kind == kind
    &&& m.status == status
    &&& m.salience == if c.slot == 5 || pressure_refs.len() > 0 {
        EncounterSalience::Important
    } else {
        EncounterSalience::Useful
    }
    &&& m.summary@ == c.intent@
    &&& m.player_visible_signal@ == c.tag@
    &&& m.location_ref matches Some(l) && l@ == scene_id
    &&& m.holder_ref is None
    &&& views(m.source_refs@) == if source_refs.len() == 0 {
        seq![sref]
    } else {
        source_refs
    }
    &&& m.linked_entity_refs@.len() == 0
    &&& views(m.linked_pressure_refs@) == pressure_refs
    &&& m.linked_social_refs@.len() == 0
    &&& m.physical_anchors@.len() == 1
    &&& anchor_is(m.physical_anchors@[0], sref, EncounterPhysicalAnchorKind::ChoiceSlot, "choice_surface_source"@, seq![sref])
    &&& m.affordances@.len() == 1
    &&& affordance_is(
        m.affordances@[0],
        sid + ":affordance"@,
        action,
        c.tag@,
        c.intent@,
        status_availability(status),
        Seq::empty(),
        kind_risk_tags(kind, pressure_refs.len() > 0),
        seq![sref],
    )
    &&& m.constraints@.len() == if is_blocking(status) { 1nat } else { 0nat }
    &&& m.constraints@.len() == 1 ==> choice_constraint_is(m.constraints@[0], sid)
    &&& m.change_potential@.len() == 1
    &&& change_is(m.change_potential@[0], sid + ":change"@, action_change(action).0, action_change(action).1, "current_scene"@, Seq::empty())
    &&& m.persistence == EncounterPersistence::CurrentScene
}

/// The surface mutation a displayed choice makes.
pub fn mutation_from_choice(
    turn_id: &str,
    scene_id: &str,
    choice: &TurnChoice,
    pressure_refs: &Vec<String>,
    source_refs: Vec<String>,
) -> (r: EncounterSurfaceMutation)
    ensures
        choice_mutation_is(r, turn_id@, scene_id@, *choice, views(pressure_refs@), views(source_refs@)),
{
    let text = choice_text_of(choice);
    let kind = kind_from_choice_text(choice.slot, text.as_str());
    let action = action_from_choice_text(choice.slot, text.as_str());
    let status = status_from_choice_text(text.as_str());
    let salience = if choice.slot == 5 || pressure_refs.len() > 0 {
        EncounterSalience::Important
    } else {
        EncounterSalience::Useful
    };
    let slot = dec_string(choice.slot as u64);
    let norm = normalize_id(choice.tag.as_str());
    let head = concat4("encounter:", turn_id, ":slot:", slot.as_str());
    let surface_id = concat3(head.as_str(), ":", norm.as_str());
    let sref = slot_ref_of(choice.slot);
    let sources = if source_refs.len() == 0 {
        let mut v = Vec::new();
        v.push(sref.clone());
        assert(views(v@) =~= seq![sref@]);
        v
    } else {
        source_refs
    };
    let mut physical_anchors = Vec::new();
    physical_anchors.push(make_anchor(sref.as_str(), EncounterPhysicalAnchorKind::ChoiceSlot, "choice_surface_source", single_string(sref.as_str())));
    let no_required: Vec<String> = Vec::new();
    assert(views(no_required@) =~= Seq::<Seq<char>>::empty());
    let mut affordances = Vec::new();
    affordances.push(make_affordance(
        concat2(surface_id.as_str(), ":affordance"),
        action,
        choice.tag.clone(),
        choice.intent.clone(),
        availability_from_status(status),
        no_required,
        risk_tags_from_kind(kind, pressure_refs.len() > 0),
        single_string(sref.as_str()),
    ));
    let mut change_potential = Vec::new();
    change_potential.push(change_from_action(surface_id.as_str(), action));
    let constraints = constraint_from_choice_status(surface_id.as_str(), status);
    EncounterSurfaceMutation {
        surface_id: surface_id.clone(),
        label: choice.tag.clone(),
        kind,
        status,
        salience,
        summary: choice.intent.clone(),
        player_visible_signal: choice.tag.clone(),
        location_ref: Some(String::from_str(scene_id)),
        holder_ref: None,
        source_refs: sources,
        linked_entity_refs: Vec::new(),
        linked_pressure_refs: clone_strings(pressure_refs),
        linked_social_refs: Vec::new(),
        physical_anchors,
        affordances,
        constraints,
        change_potential,
        persistence: EncounterPersistence::CurrentScene,
    }
}


pub open spec fn gate_surface_kind(g: GateKind) -> EncounterSurfaceKind {
    match g {
        GateKind::SocialPermission => EncounterSurfaceKind::AccessController,
        GateKind::Location | GateKind::TimePressure => EncounterSurfaceKind::Barrier,
        GateKind::Knowledge => EncounterSurfaceKind::EvidenceTrace,
        GateKind::Resource => EncounterSurfaceKind::UsableTool,
        GateKind::Body => EncounterSurfaceKind::Hazard,
        GateKind::WorldLaw | GateKind::HiddenConstraint | GateKind::Affordance => EncounterSurfaceKind::EnvironmentalFeature,
    }
}

pub open spec fn gate_surface_status(g: GateStatus) -> EncounterSurfaceStatus {
    match g {
        GateStatus::Passed | GateStatus::Softened => EncounterSurfaceStatus::Available,
        GateStatus::Blocked => EncounterSurfaceStatus::Blocked,
        GateStatus::CostImposed => EncounterSurfaceStatus::Degraded,
        GateStatus::UnknownNeedsProbe => EncounterSurfaceStatus::HiddenButSignaled,
    }
}

pub open spec fn gate_constraint_kind(g: GateKind) -> EncounterConstraintKind {
    match g {
        GateKind::SocialPermission => EncounterConstraintKind::SocialPermission,
        GateKind::Resource => EncounterConstraintKind::Resource,
        GateKind::Body => EncounterConstraintKind::Body,
        GateKind::Knowledge => EncounterConstraintKind::Knowledge,
        GateKind::TimePressure => EncounterConstraintKind::TimePressure,
        GateKind::WorldLaw => EncounterConstraintKind::WorldLaw,
        _ => EncounterConstraintKind::Visibility,
    }
}

/// `m` is the surface mutation that a resolution gate makes.
pub open spec fn gate_mutation_is(
    m: EncounterSurfaceMutation,
    current: EncounterSurfacePacket,
    gate_kind: GateKind,
    gate_status: GateStatus,
    gate_ref: Seq<char>,
    reason: Seq<char>,
    evidence: Seq<Seq<char>>,
    index: int,
) -> bool {
    let sid = "encounter:"@ + current.turn_id@ + ":gate:"@ + dec(index as nat) + ":"@ + normalized_id(gate_ref);
    let kind = gate_surface_kind(gate_kind);
    let status = gate_surface_status(gate_status);
    &&& m.surface_id@ == sid
    &&& m.label@ == gate_ref
    &&& m.kind == kind
    &&& m.status == status
    &&& m.salience == EncounterSalience::Important
    &&& m.summary@ == reason
    &&& m.player_visible_signal@ == reason
    &&& m.location_ref matches Some(l) && l@ == current.scene_id@
    &&& m.holder_ref is None
    &&& views(m.source_refs@) == evidence
    &&& m.linked_entity_refs@.len() == 0
    &&& m.linked_pressure_refs@.len() == 0
    &&& m.linked_social_refs@.len() == 0
    &&& m.physical_anchors@.len() == 1
    &&& anchor_is(m.physical_anchors@[0], gate_ref, EncounterPhysicalAnchorKind::Gate, "resolution_gate"@, evidence)
    &&& m.affordances@.len() == 1
    &&& affordance_is(
        m.affordances@[0],
        sid + ":probe"@,
        EncounterActionKind::Inspect,
        gate_ref,
        reason,
        status_availability(status),
        Seq::empty(),
        kind_risk_tags(kind, false),
        evidence,
    )
    &&& m.constraints@.len() == if is_blocking(status) { 1nat } else { 0nat }
    &&& m.constraints@.len() == 1 ==> constraint_is(
        m.constraints@[0],
        sid + ":constraint"@,
        gate_constraint_kind(gate_kind),
        reason,
        reason,
        Seq::empty(),
        evidence,
    )
    &&& m.change_potential@.len() == 1
    &&& change_is(
        m.change_potential@[0],
        sid + ":change"@,
        if gate_status == GateStatus::Passed || gate_status == GateStatus::Softened {
            EncounterChangeKind::ChangeAccess
        } else {
            EncounterChangeKind::RevealDetail
        },
        "조건을 건드리면 접근 상태가 바뀔 수 있다."@,
        "current_scene"@,
        evidence,
    )
    &&& m.persistence == EncounterPersistence::CurrentScene
}

/// The surface mutation that a resolution gate makes: a probe-able surface
/// anchored to that gate, blocked with a constraint when it blocked.
pub fn mutation_from_resolution_gate(
    current: &EncounterSurfacePacket,
    gate_kind: GateKind,
    gate_status: GateStatus,
    gate_ref: &str,
    reason: &str,
    evidence_refs: &Vec<String>,
    index: usize,
) -> (r: EncounterSurfaceMutation)
    ensures
        gate_mutation_is(r, *current, gate_kind, gate_status, gate_ref@, reason@, views(evidence_refs@), index as int),
{
    let idx = dec_string(index as u64);
    let norm = normalize_id(gate_ref);
    let head = concat4("encounter:", current.turn_id.as_str(), ":gate:", idx.as_str());
    let surface_id = concat3(head.as_str(), ":", norm.as_str());
    let kind = match gate_kind {
        GateKind::SocialPermission => EncounterSurfaceKind::AccessController,
        GateKind::Location | GateKind::TimePressure => EncounterSurfaceKind::Barrier,
        GateKind::Knowledge => EncounterSurfaceKind::EvidenceTrace,
        GateKind::Resource => EncounterSurfaceKind::UsableTool,
        GateKind::Body => EncounterSurfaceKind::Hazard,
        GateKind::WorldLaw | GateKind::HiddenConstraint | GateKind::Affordance => EncounterSurfaceKind::EnvironmentalFeature,
    };
    let status = match gate_status {
        GateStatus::Passed | GateStatus::Softened => EncounterSurfaceStatus::Available,
        GateStatus::Blocked => EncounterSurfaceStatus::Blocked,
        GateStatus::CostImposed => EncounterSurfaceStatus::Degraded,
        GateStatus::UnknownNeedsProbe => EncounterSurfaceStatus::HiddenButSignaled,
    };
    let mut physical_anchors = Vec::new();
    physical_anchors.push(make_anchor(gate_ref, EncounterPhysicalAnchorKind::Gate, "resolution_gate", clone_strings(evidence_refs)));
    let no_required: Vec<String> = Vec::new();
    assert(views(no_required@) =~= Seq::<Seq<char>>::empty());
    let mut affordances = Vec::new();
    affordances.push(make_affordance(
        concat2(surface_id.as_str(), ":probe"),
        EncounterActionKind::Inspect,
        String::from_str(gate_ref),
        String::from_str(reason),
        availability_from_status(status),
        no_required,
        risk_tags_from_kind(kind, false),
        clone_strings(evidence_refs),
    ));
    let mut constraints = Vec::new();
    if status == EncounterSurfaceStatus::Blocked || status == EncounterSurfaceStatus::Locked {
        let ckind = match gate_kind {
            GateKind::SocialPermission => EncounterConstraintKind::SocialPermission,
            GateKind::Resource => EncounterConstraintKind::Resource,
            GateKind::Body => EncounterConstraintKind::Body,
            GateKind::Knowledge => EncounterConstraintKind::Knowledge,
            GateKind::TimePressure => EncounterConstraintKind::TimePressure,
            GateKind::WorldLaw => EncounterConstraintKind::WorldLaw,
            _ => EncounterConstraintKind::Visibility,
        };
        let no_unblock: Vec<String> = Vec::new();
        assert(views(no_unblock@) =~= Seq::<Seq<char>>::empty());
        constraints.push(make_constraint(
            concat2(surface_id.as_str(), ":constraint"),
            ckind,
            String::from_str(reason),
            String::from_str(reason),
            no_unblock,
            clone_strings(evidence_refs),
        ));
    }
    let change_kind = if gate_status == GateStatus::Passed || gate_status == GateStatus::Softened {
        EncounterChangeKind::ChangeAccess
    } else {
        EncounterChangeKind::RevealDetail
    };
    let mut change_potential = Vec::new();
    change_potential.push(make_change(
        concat2(surface_id.as_str(), ":change"),
        change_kind,
        "조건을 건드리면 접근 상태가 바뀔 수 있다.",
        "current_scene",
        clone_strings(evidence_refs),
    ));
    EncounterSurfaceMutation {
        surface_id,
        label: String::from_str(gate_ref),
        kind,
        status,
        salience: EncounterSalience::Important,
        summary: String::from_str(reason),
        player_visible_signal: String::from_str(reason),
        location_ref: Some(current.scene_id.clone()),
        holder_ref: None,
        source_refs: clone_strings(evidence_refs),
        linked_entity_refs: Vec::new(),
        linked_pressure_refs: Vec::new(),
        linked_social_refs: Vec::new(),
        physical_anchors,
        affordances,
        constraints,
        change_potential,
        persistence: EncounterPersistence::CurrentScene,
    }
}

/// The gates whose mutation a resolution derives: player-visible gates with
/// evidence, in order, each with its index among all gate results.
pub open spec fn gate_sources(gs: Seq<GateResult>) -> Seq<int>
    decreases gs.len(),
{
    if gs.len() == 0 {
        Seq::empty()
    } else {
        let prev = gate_sources(gs.drop_last());
        let g = gs.last();
        if g.visibility == ResolutionVisibility::PlayerVisible && g.evidence_refs@.len() > 0 {
            prev.push(gs.len() - 1)
        } else {
            prev
        }
    }
}

pub proof fn lemma_gate_sources_bounds(gs: Seq<GateResult>)
    ensures
        forall|k: int| 0 <= k < gate_sources(gs).len() ==> 0 <= #[trigger] gate_sources(gs)[k] < gs.len(),
    decreases gs.len(),
{
    if gs.len() > 0 {
        let prev = gate_sources(gs.drop_last());
        lemma_gate_sources_bounds(gs.drop_last());
        assert forall|k: int| 0 <= k < gate_sources(gs).len() implies 0 <= #[trigger] gate_sources(gs)[k] < gs.len() by {
            if k < prev.len() {
                assert(gate_sources(gs)[k] == prev[k]);
                assert(0 <= prev[k] < gs.drop_last().len());
            }
        }
    }
}

/// A blocked or delayed outcome with evidence adds a blocked surface.
pub open spec fn outcome_blocks(res: ResolutionProposal) -> bool {
    (res.outcome.kind == ResolutionOutcomeKind::Blocked || res.outcome.kind == ResolutionOutcomeKind::Delayed)
        && res.outcome.evidence_refs@.len() > 0
}

/// The mutations a resolution's gates make, numbered from `offset` (see
/// `derive_resolution_gate_mutations`).
pub open spec fn gate_mutations_are(
    r: Seq<EncounterSurfaceMutation>,
    current: EncounterSurfacePacket,
    resolution: Option<ResolutionProposal>,
    offset: int,
) -> bool {
    match resolution {
        None => r.len() == 0,
        Some(res) => {
            let src = gate_sources(res.gate_results@);
            &&& r.len() == src.len() + if outcome_blocks(res) { 1nat } else { 0nat }
            &&& forall|k: int|
                0 <= k < src.len() ==> {
                    let g = res.gate_results@[src[k]];
                    gate_mutation_is(
                        #[trigger] r[k],
                        current,
                        g.gate_kind,
                        g.status,
                        g.gate_ref@,
                        g.reason@,
                        views(g.evidence_refs@),
                        offset + src[k],
                    )
                }
            &&& outcome_blocks(res) ==> gate_mutation_is(
                r[src.len() as int],
                current,
                GateKind::Affordance,
                GateStatus::Blocked,
                "scene:resolution_outcome"@,
                res.outcome.summary@,
                views(res.outcome.evidence_refs@),
                offset + res.gate_results@.len(),
            )
        },
    }
}

/// The surface mutations a resolution makes: one per player-visible gate
/// with evidence, numbered from `offset` by its position, then one for
/// a blocked or delayed outcome.
pub fn derive_resolution_gate_mutations(
    current: &EncounterSurfacePacket,
    resolution: Option<&ResolutionProposal>,
    offset: usize,
) -> (r: Vec<EncounterSurfaceMutation>)
    requires
        resolution matches Some(res) ==> offset + res.gate_results@.len() <= usize::MAX,
    ensures
        gate_mutations_are(r@, *current, match resolution { Some(res) => Some(*res), None => None }, offset as int),
{
    let mut out: Vec<EncounterSurfaceMutation> = Vec::new();
    match resolution {
        None => out,
        Some(res) => {
            let gs = &res.gate_results;
            let mut i: usize = 0;
            while i < gs.len()
                invariant
                    i <= gs@.len(),
                    offset + gs@.len() <= usize::MAX,
                    out@.len() == gate_sources(gs@.subrange(0, i as int)).len(),
                    forall|k: int|
                        0 <= k < out@.len() ==> {
                            let src = gate_sources(gs@.subrange(0, i as int));
                            let g = gs@[src[k]];
                            gate_mutation_is(
                                #[trigger] out@[k],
                                *current,
                                g.gate_kind,
                                g.status,
                                g.gate_ref@,
                                g.reason@,
                                views(g.evidence_refs@),
                                offset + src[k],
                            )
                        },
                decreases gs.len() - i,
            {
                proof {
                    assert(gs@.subrange(0, i + 1).drop_last() =~= gs@.subrange(0, i as int));
                    lemma_gate_sources_bounds(gs@.subrange(0, i as int));
                    assert forall|k: int| 0 <= k < gate_sources(gs@.subrange(0, i as int)).len() implies
                        gs@.subrange(0, i + 1)[gate_sources(gs@.subrange(0, i as int))[k]] == gs@[gate_sources(gs@.subrange(0, i as int))[k]] by {}
                }
                let g = &gs[i];
                if g.visibility == ResolutionVisibility::PlayerVisible && g.evidence_refs.len() > 0 {
                    let m = mutation_from_resolution_gate(
                        current,
                        g.gate_kind,
                        g.status,
                        g.gate_ref.as_str(),
                        g.reason.as_str(),
                        &g.evidence_refs,
                        offset + i,
                    );
                    out.push(m);
                }
                i = i + 1;
            }
            assert(gs@.subrange(0, gs@.len() as int) =~= gs@);
            if (res.outcome.kind == ResolutionOutcomeKind::Blocked || res.outcome.kind == ResolutionOutcomeKind::Delayed)
                && res.outcome.evidence_refs.len() > 0 {
                let m = mutation_from_resolution_gate(
                    current,
                    GateKind::Affordance,
                    GateStatus::Blocked,
                    "scene:resolution_outcome",
                    res.outcome.summary.as_str(),
                    &res.outcome.evidence_refs,
                    offset + gs.len(),
                );
                out.push(m);
            }
            out
        },
    }
}


// ---------------------------------------------------------------------------
// The status line.
// ---------------------------------------------------------------------------

pub open spec fn encounter_status_text(ss: Seq<EncounterSurface>) -> Seq<char> {
    if exists|i: int| 0 <= i < ss.len() && (#[trigger] ss[i]).salience == EncounterSalience::Critical {
        "치명 상호작용 표면 있음"@
    } else if exists|i: int| 0 <= i < ss.len() && is_blocking((#[trigger] ss[i]).status) {
        "막힌 표면을 우회해야 함"@
    } else if exists|i: int|
        0 <= i < ss.len() && ((#[trigger] ss[i]).kind == EncounterSurfaceKind::EvidenceTrace
            || ss[i].status == EncounterSurfaceStatus::HiddenButSignaled) {
        "조사 가능한 표면 있음"@
    } else if ss.len() == 0 {
        "뚜렷한 조작 표면 없음"@
    } else {
        "상호작용 표면 열림"@
    }
}

/// A one-line summary of the packet's surfaces for the status view.
pub fn encounter_status(packet: &EncounterSurfacePacket) -> (r: String)
    ensures
        r@ == encounter_status_text(packet.active_surfaces@),
{
    let ss = &packet.active_surfaces;
    let mut critical = false;
    let mut blocked = false;
    let mut probe = false;
    let mut i: usize = 0;
    while i < ss.len()
        invariant
            i <= ss@.len(),
            critical == exists|j: int| 0 <= j < i && (#[trigger] ss@[j]).salience == EncounterSalience::Critical,
            blocked == exists|j: int| 0 <= j < i && is_blocking((#[trigger] ss@[j]).status),
            probe == exists|j: int|
                0 <= j < i && ((#[trigger] ss@[j]).kind == EncounterSurfaceKind::EvidenceTrace
                    || ss@[j].status == EncounterSurfaceStatus::HiddenButSignaled),
        decreases ss.len() - i,
    {
        let s = &ss[i];
        if s.salience == EncounterSalience::Critical {
            critical = true;
        }
        if s.status == EncounterSurfaceStatus::Blocked || s.status == EncounterSurfaceStatus::Locked {
            blocked = true;
        }
        if s.kind == EncounterSurfaceKind::EvidenceTrace || s.status == EncounterSurfaceStatus::HiddenButSignaled {
            probe = true;
        }
        i = i + 1;
    }
    if critical {
        String::from_str("치명 상호작용 표면 있음")
    } else if blocked {
        String::from_str("막힌 표면을 우회해야 함")
    } else if probe {
        String::from_str("조사 가능한 표면 있음")
    } else if ss.len() == 0 {
        String::from_str("뚜렷한 조작 표면 없음")
    } else {
        String::from_str("상호작용 표면 열림")
    }
}

// ---------------------------------------------------------------------------
// Surfaces from the scene's packets.
// ---------------------------------------------------------------------------

pub open spec fn lifecycle_is(l: EncounterSurfaceLifecycle, turn_id: Seq<char>, p: EncounterPersistence) -> bool {
    l.opened_turn_id@ == turn_id && l.last_changed_turn_id@ == turn_id && l.persistence == p
}

fn make_lifecycle(turn_id: &str, p: EncounterPersistence) -> (r: EncounterSurfaceLifecycle)
    ensures
        lifecycle_is(r, turn_id@, p),
{
    EncounterSurfaceLifecycle {
        opened_turn_id: String::from_str(turn_id),
        last_changed_turn_id: String::from_str(turn_id),
        persistence: p,
    }
}

pub open spec fn opt_is(o: Option<String>, v: Seq<char>) -> bool {
    o matches Some(x) && x@ == v
}

/// The evidence a location carries: its source refs, or its graph entry.
pub open spec fn location_evidence(l: LocationNode) -> Seq<Seq<char>> {
    if l.source_refs@.len() == 0 {
        seq!["location_graph:"@ + l.location_id@]
    } else {
        views(l.source_refs@)
    }
}

fn location_evidence_refs(l: &LocationNode) -> (r: Vec<String>)
    ensures
        views(r@) == location_evidence(*l),
{
    if l.source_refs.len() == 0 {
        single_string(concat2("location_graph:", l.location_id.as_str()).as_str())
    } else {
        clone_strings(&l.source_refs)
    }
}

/// Where the player stands: the current location, or the scene.
pub open spec fn origin_ref(g: LocationGraphPacket, scene_id: Seq<char>) -> Seq<char> {
    match g.current_location {
        Some(l) => l.location_id@,
        None => scene_id,
    }
}

/// `s` is the exit surface toward a known nearby location.
pub open spec fn location_surface_is(s: EncounterSurface, turn_id: Seq<char>, origin: Seq<char>, l: LocationNode) -> bool {
    let sid = "encounter:"@ + turn_id + ":location:"@ + normalized_id(l.location_id@);
    let ev = location_evidence(l);
    &&& s.schema_version@ == ENCOUNTER_SURFACE_SCHEMA_VERSION@
    &&& s.surface_id@ == sid
    &&& s.label@ == l.name@
    &&& s.kind == EncounterSurfaceKind::Exit
    &&& s.status == EncounterSurfaceStatus::Available
    &&& s.salience == EncounterSalience::Useful
    &&& s.summary@ == "현재 장면에서 도달 가능한 인접 위치: "@ + l.name@
    &&& s.player_visible_signal@ == l.name@
    &&& opt_is(s.location_ref, origin)
    &&& s.holder_ref is None
    &&& views(s.source_refs@) == ev
    &&& s.linked_entity_refs@.len() == 0
    &&& s.linked_pressure_refs@.len() == 0
    &&& s.linked_social_refs@.len() == 0
    &&& s.physical_anchors@.len() == 2
    &&& anchor_is(s.physical_anchors@[0], origin, EncounterPhysicalAnchorKind::CurrentLocation, "movement_origin"@, ev)
    &&& anchor_is(s.physical_anchors@[1], l.location_id@, EncounterPhysicalAnchorKind::NearbyLocation, "movement_destination"@, ev)
    &&& s.affordances@.len() == 1
    &&& affordance_is(
        s.affordances@[0],
        sid + ":move"@,
        EncounterActionKind::Move,
        l.name@,
        l.name@ + " 쪽으로 이동한다"@,
        AffordanceAvailability::Available,
        seq![l.location_id@],
        Seq::empty(),
        ev,
    )
    &&& s.constraints@.len() == 0
    &&& s.change_potential@.len() == 1
    &&& change_is(s.change_potential@[0], sid + ":move"@, EncounterChangeKind::MoveSurface, "플레이어 위치가 바뀔 수 있다."@, "current_scene_or_next_scene"@, ev)
    &&& lifecycle_is(s.lifecycle, turn_id, EncounterPersistence::CurrentScene)
}

fn origin_of(g: &LocationGraphPacket, scene_id: &str) -> (r: String)
    ensures
        r@ == origin_ref(*g, scene_id@),
{
    match &g.current_location {
        Some(l) => l.location_id.clone(),
        None => String::from_str(scene_id),
    }
}

fn location_surface(turn_id: &str, origin: &str, l: &LocationNode) -> (s: EncounterSurface)
    ensures
        location_surface_is(s, turn_id@, origin@, *l),
{
    let norm = normalize_id(l.location_id.as_str());
    let sid = concat3("encounter:", turn_id, ":location:");
    let sid = concat2(sid.as_str(), norm.as_str());
    let mut anchors = Vec::new();
    anchors.push(make_anchor(origin, EncounterPhysicalAnchorKind::CurrentLocation, "movement_origin", location_evidence_refs(l)));
    anchors.push(make_anchor(l.location_id.as_str(), EncounterPhysicalAnchorKind::NearbyLocation, "movement_destination", location_evidence_refs(l)));
    let no_risk: Vec<String> = Vec::new();
    assert(views(no_risk@) =~= Seq::<Seq<char>>::empty());
    let mut affordances = Vec::new();
    affordances.push(make_affordance(
        concat2(sid.as_str(), ":move"),
        EncounterActionKind::Move,
        l.name.clone(),
        concat2(l.name.as_str(), " 쪽으로 이동한다"),
        AffordanceAvailability::Available,
        single_string(l.location_id.as_str()),
        no_risk,
        location_evidence_refs(l),
    ));
    let mut change_potential = Vec::new();
    change_potential.push(make_change(
        concat2(sid.as_str(), ":move"),
        EncounterChangeKind::MoveSurface,
        "플레이어 위치가 바뀔 수 있다.",
        "current_scene_or_next_scene",
        location_evidence_refs(l),
    ));
    EncounterSurface {
        schema_version: String::from_str(ENCOUNTER_SURFACE_SCHEMA_VERSION),
        surface_id: sid,
        label: l.name.clone(),
        kind: EncounterSurfaceKind::Exit,
        status: EncounterSurfaceStatus::Available,
        salience: EncounterSalience::Useful,
        summary: concat2("현재 장면에서 도달 가능한 인접 위치: ", l.name.as_str()),
        player_visible_signal: l.name.clone(),
        location_ref: Some(String::from_str(origin)),
        holder_ref: None,
        source_refs: location_evidence_refs(l),
        linked_entity_refs: Vec::new(),
        linked_pressure_refs: Vec::new(),
        linked_social_refs: Vec::new(),
        physical_anchors: anchors,
        affordances,
        constraints: Vec::new(),
        change_potential,
        lifecycle: make_lifecycle(turn_id, EncounterPersistence::CurrentScene),
    }
}

/// Appends an exit surface for each known nearby location.
fn append_location_surfaces(out: &mut Vec<EncounterSurface>, turn_id: &str, scene_id: &str, g: &LocationGraphPacket)
    ensures
        final(out)@.len() == old(out)@.len() + g.known_nearby_locations@.len(),
        final(out)@.subrange(0, old(out)@.len() as int) == old(out)@,
        forall|k: int|
            0 <= k < g.known_nearby_locations@.len() ==> location_surface_is(
                #[trigger] final(out)@[old(out)@.len() + k],
                turn_id@,
                origin_ref(*g, scene_id@),
                g.known_nearby_locations@[k],
            ),
{
    let origin = origin_of(g, scene_id);
    let ghost start = out@.len();
    let ghost prefix = out@;
    let mut i: usize = 0;
    while i < g.known_nearby_locations.len()
        invariant
            i <= g.known_nearby_locations@.len(),
            origin@ == origin_ref(*g, scene_id@),
            out@.len() == start + i,
            out@.subrange(0, start as int) == prefix,
            forall|k: int|
                0 <= k < i ==> location_surface_is(#[trigger] out@[start + k], turn_id@, origin@, g.known_nearby_locations@[k]),
        decreases g.known_nearby_locations.len() - i,
    {
        let s = location_surface(turn_id, origin.as_str(), &g.known_nearby_locations[i]);
        proof {
            assert(out@.push(s).subrange(0, start as int) =~= out@.subrange(0, start as int));
        }
        out.push(s);
        i = i + 1;
    }
}


/// `s` is the hazard surface of a body constraint.
pub open spec fn body_surface_is(s: EncounterSurface, turn_id: Seq<char>, scene_id: Seq<char>, c: BodyConstraint) -> bool {
    let sid = "encounter:"@ + turn_id + ":body:"@ + normalized_id(c.constraint_id@);
    let ev = views(c.source_refs@);
    &&& s.schema_version@ == ENCOUNTER_SURFACE_SCHEMA_VERSION@
    &&& s.surface_id@ == sid
    &&& s.label@ == c.summary@
    &&& s.kind == EncounterSurfaceKind::Hazard
    &&& s.status == EncounterSurfaceStatus::Degraded
    &&& s.salience == if c.severity >= 3 { EncounterSalience::Important } else { EncounterSalience::Useful }
    &&& s.summary@ == c.summary@
    &&& s.player_visible_signal@ == c.summary@
    &&& opt_is(s.location_ref, scene_id)
    &&& opt_is(s.holder_ref, "player"@)
    &&& views(s.source_refs@) == ev
    &&& views(s.linked_entity_refs@) == seq!["player"@]
    &&& views(s.linked_pressure_refs@) == views(c.scene_pressure_kinds@)
    &&& s.linked_social_refs@.len() == 0
    &&& s.physical_anchors@.len() == 1
    &&& anchor_is(s.physical_anchors@[0], c.constraint_id@, EncounterPhysicalAnchorKind::BodyConstraint, "player_body_state"@, ev)
    &&& s.affordances@.len() == 1
    &&& affordance_is(
        s.affordances@[0],
        sid + ":adjust"@,
        EncounterActionKind::Inspect,
        c.summary@,
        "몸 상태가 현재 행동에 어떤 제약을 주는지 확인한다"@,
        AffordanceAvailability::Risky,
        seq![c.constraint_id@],
        seq!["body"@],
        ev,
    )
    &&& s.constraints@.len() == 1
    &&& constraint_is(s.constraints@[0], sid + ":constraint"@, EncounterConstraintKind::Body, c.summary@, c.summary@, Seq::empty(), ev)
    &&& s.change_potential@.len() == 1
    &&& change_is(s.change_potential@[0], sid + ":cost"@, EncounterChangeKind::AdvanceClock, "몸 상태가 행동 비용이나 위험을 바꿀 수 있다."@, "current_action"@, ev)
    &&& lifecycle_is(s.lifecycle, turn_id, EncounterPersistence::UntilChanged)
}

fn body_surface(turn_id: &str, scene_id: &str, c: &BodyConstraint) -> (s: EncounterSurface)
    ensures
        body_surface_is(s, turn_id@, scene_id@, *c),
{
    let norm = normalize_id(c.constraint_id.as_str());
    let sid = concat3("encounter:", turn_id, ":body:");
    let sid = concat2(sid.as_str(), norm.as_str());
    let mut anchors = Vec::new();
    anchors.push(make_anchor(c.constraint_id.as_str(), EncounterPhysicalAnchorKind::BodyConstraint, "player_body_state", clone_strings(&c.source_refs)));
    let mut affordances = Vec::new();
    affordances.push(make_affordance(
        concat2(sid.as_str(), ":adjust"),
        EncounterActionKind::Inspect,
        c.summary.clone(),
        String::from_str("몸 상태가 현재 행동에 어떤 제약을 주는지 확인한다"),
        AffordanceAvailability::Risky,
        single_string(c.constraint_id.as_str()),
        single_string("body"),
        clone_strings(&c.source_refs),
    ));
    let no_unblock: Vec<String> = Vec::new();
    assert(views(no_unblock@) =~= Seq::<Seq<char>>::empty());
    let mut constraints = Vec::new();
    constraints.push(make_constraint(
        concat2(sid.as_str(), ":constraint"),
        EncounterConstraintKind::Body,
        c.summary.clone(),
        c.summary.clone(),
        no_unblock,
        clone_strings(&c.source_refs),
    ));
    let mut change_potential = Vec::new();
    change_potential.push(make_change(
        concat2(sid.as_str(), ":cost"),
        EncounterChangeKind::AdvanceClock,
        "몸 상태가 행동 비용이나 위험을 바꿀 수 있다.",
        "current_action",
        clone_strings(&c.source_refs),
    ));
    EncounterSurface {
        schema_version: String::from_str(ENCOUNTER_SURFACE_SCHEMA_VERSION),
        surface_id: sid,
        label: c.summary.clone(),
        kind: EncounterSurfaceKind::Hazard,
        status: EncounterSurfaceStatus::Degraded,
        salience: if c.severity >= 3 { EncounterSalience::Important } else { EncounterSalience::Useful },
        summary: c.summary.clone(),
        player_visible_signal: c.summary.clone(),
        location_ref: Some(String::from_str(scene_id)),
        holder_ref: Some(String::from_str("player")),
        source_refs: clone_strings(&c.source_refs),
        linked_entity_refs: single_string("player"),
        linked_pressure_refs: clone_strings(&c.scene_pressure_kinds),
        linked_social_refs: Vec::new(),
        physical_anchors: anchors,
        affordances,
        constraints,
        change_potential,
        lifecycle: make_lifecycle(turn_id, EncounterPersistence::UntilChanged),
    }
}

/// `s` is the tool surface of a held resource.
pub open spec fn resource_surface_is(s: EncounterSurface, turn_id: Seq<char>, scene_id: Seq<char>, r: ResourceItem) -> bool {
    let sid = "encounter:"@ + turn_id + ":resource:"@ + normalized_id(r.resource_id@);
    let ev = views(r.source_refs@);
    &&& s.schema_version@ == ENCOUNTER_SURFACE_SCHEMA_VERSION@
    &&& s.surface_id@ == sid
    &&& s.label@ == r.summary@
    &&& s.kind == EncounterSurfaceKind::UsableTool
    &&& s.status == EncounterSurfaceStatus::Available
    &&& s.salience == EncounterSalience::Useful
    &&& s.summary@ == r.summary@
    &&& s.player_visible_signal@ == r.summary@
    &&& opt_is(s.location_ref, scene_id)
    &&& opt_is(s.holder_ref, "player"@)
    &&& views(s.source_refs@) == ev
    &&& views(s.linked_entity_refs@) == seq!["player"@]
    &&& s.linked_pressure_refs@.len() == 0
    &&& s.linked_social_refs@.len() == 0
    &&& s.physical_anchors@.len() == 1
    &&& anchor_is(s.physical_anchors@[0], r.resource_id@, EncounterPhysicalAnchorKind::Resource, "held_resource"@, ev)
    &&& s.affordances@.len() == 1
    &&& affordance_is(
        s.affordances@[0],
        sid + ":use"@,
        EncounterActionKind::Use,
        r.summary@,
        r.summary@,
        AffordanceAvailability::Available,
        seq![r.resource_id@],
        Seq::empty(),
        ev,
    )
    &&& s.constraints@.len() == 0
    &&& s.change_potential@.len() == 1
    &&& change_is(s.change_potential@[0], sid + ":consume"@, EncounterChangeKind::ConsumeSurface, "자원을 쓰거나 잃을 수 있다."@, "current_scene"@, ev)
    &&& lifecycle_is(s.lifecycle, turn_id, EncounterPersistence::UntilChanged)
}

fn resource_surface(turn_id: &str, scene_id: &str, r: &ResourceItem) -> (s: EncounterSurface)
    ensures
        resource_surface_is(s, turn_id@, scene_id@, *r),
{
    let norm = normalize_id(r.resource_id.as_str());
    let sid = concat3("encounter:", turn_id, ":resource:");
    let sid = concat2(sid.as_str(), norm.as_str());
    let mut anchors = Vec::new();
    anchors.push(make_anchor(r.resource_id.as_str(), EncounterPhysicalAnchorKind::Resource, "held_resource", clone_strings(&r.source_refs)));
    let no_risk: Vec<String> = Vec::new();
    assert(views(no_risk@) =~= Seq::<Seq<char>>::empty());
    let mut affordances = Vec::new();
    affordances.push(make_affordance(
        concat2(sid.as_str(), ":use"),
        EncounterActionKind::Use,
        r.summary.clone(),
        r.summary.clone(),
        AffordanceAvailability::Available,
        single_string(r.resource_id.as_str()),
        no_risk,
        clone_strings(&r.source_refs),
    ));
    let mut change_potential = Vec::new();
    change_potential.push(make_change(
        concat2(sid.as_str(), ":consume"),
        EncounterChangeKind::ConsumeSurface,
        "자원을 쓰거나 잃을 수 있다.",
        "current_scene",
        clone_strings(&r.source_refs),
    ));
    EncounterSurface {
        schema_version: String::from_str(ENCOUNTER_SURFACE_SCHEMA_VERSION),
        surface_id: sid,
        label: r.summary.clone(),
        kind: EncounterSurfaceKind::UsableTool,
        status: EncounterSurfaceStatus::Available,
        salience: EncounterSalience::Useful,
        summary: r.summary.clone(),
        player_visible_signal: r.summary.clone(),
        location_ref: Some(String::from_str(scene_id)),
        holder_ref: Some(String::from_str("player")),
        source_refs: clone_strings(&r.source_refs),
        linked_entity_refs: single_string("player"),
        linked_pressure_refs: Vec::new(),
        linked_social_refs: Vec::new(),
        physical_anchors: anchors,
        affordances,
        constraints: Vec::new(),
        change_potential,
        lifecycle: make_lifecycle(turn_id, EncounterPersistence::UntilChanged),
    }
}

pub open spec fn min_nat(a: nat, b: nat) -> nat {
    if a < b { a } else { b }
}

/// Appends a hazard surface for each of the first four body constraints.
fn append_body_surfaces(out: &mut Vec<EncounterSurface>, turn_id: &str, scene_id: &str, b: &BodyResourcePacket)
    ensures
        final(out)@.len() == old(out)@.len() + min_nat(b.body_constraints@.len(), 4),
        final(out)@.subrange(0, old(out)@.len() as int) == old(out)@,
        forall|k: int|
            0 <= k < min_nat(b.body_constraints@.len(), 4) ==> body_surface_is(
                #[trigger] final(out)@[old(out)@.len() + k],
                turn_id@,
                scene_id@,
                b.body_constraints@[k],
            ),
{
    let ghost start = out@.len();
    let ghost prefix = out@;
    let mut i: usize = 0;
    while i < b.body_constraints.len() && i < 4
        invariant
            i <= min_nat(b.body_constraints@.len(), 4),
            out@.len() == start + i,
            out@.subrange(0, start as int) == prefix,
            forall|k: int|
                0 <= k < i ==> body_surface_is(#[trigger] out@[start + k], turn_id@, scene_id@, b.body_constraints@[k]),
        decreases b.body_constraints.len() - i,
    {
        let s = body_surface(turn_id, scene_id, &b.body_constraints[i]);
        proof {
            assert(out@.push(s).subrange(0, start as int) =~= out@.subrange(0, start as int));
        }
        out.push(s);
        i = i + 1;
    }
}

/// Appends a tool surface for each of the first four held resources.
fn append_resource_surfaces(out: &mut Vec<EncounterSurface>, turn_id: &str, scene_id: &str, b: &BodyResourcePacket)
    ensures
        final(out)@.len() == old(out)@.len() + min_nat(b.resources@.len(), 4),
        final(out)@.subrange(0, old(out)@.len() as int) == old(out)@,
        forall|k: int|
            0 <= k < min_nat(b.resources@.len(), 4) ==> resource_surface_is(
                #[trigger] final(out)@[old(out)@.len() + k],
                turn_id@,
                scene_id@,
                b.resources@[k],
            ),
{
    let ghost start = out@.len();
    let ghost prefix = out@;
    let mut i: usize = 0;
    while i < b.resources.len() && i < 4
        invariant
            i <= min_nat(b.resources@.len(), 4),
            out@.len() == start + i,
            out@.subrange(0, start as int) == prefix,
            forall|k: int|
                0 <= k < i ==> resource_surface_is(#[trigger] out@[start + k], turn_id@, scene_id@, b.resources@[k]),
        decreases b.resources.len() - i,
    {
        let s = resource_surface(turn_id, scene_id, &b.resources[i]);
        proof {
            assert(out@.push(s).subrange(0, start as int) =~= out@.subrange(0, start as int));
        }
        out.push(s);
        i = i + 1;
    }
}


/// `s` is the social handle of a dialogue stance.
pub open spec fn stance_surface_is(s: EncounterSurface, turn_id: Seq<char>, scene_id: Seq<char>, st: DialogueStance) -> bool {
    let sid = "encounter:"@ + turn_id + ":social:"@ + normalized_id(st.stance_id@);
    let ev = views(st.source_refs@);
    &&& s.schema_version@ == ENCOUNTER_SURFACE_SCHEMA_VERSION@
    &&& s.surface_id@ == sid
    &&& s.label@ == "대화 표면"@
    &&& s.kind == EncounterSurfaceKind::SocialHandle
    &&& s.status == EncounterSurfaceStatus::Available
    &&& s.salience == EncounterSalience::Important
    &&& s.summary@ == st.summary@
    &&& s.player_visible_signal@ == st.player_visible_signal@
    &&& opt_is(s.location_ref, scene_id)
    &&& opt_is(s.holder_ref, st.actor_ref@)
    &&& views(s.source_refs@) == ev
    &&& views(s.linked_entity_refs@) == seq![st.actor_ref@, st.target_ref@]
    &&& s.linked_pressure_refs@.len() == 0
    &&& views(s.linked_social_refs@) == seq![st.stance_id@]
    &&& s.physical_anchors@.len() == 2
    &&& anchor_is(s.physical_anchors@[0], st.actor_ref@, EncounterPhysicalAnchorKind::Actor, "stance_actor"@, ev)
    &&& anchor_is(s.physical_anchors@[1], st.stance_id@, EncounterPhysicalAnchorKind::SocialExchange, "relationship_stance"@, ev)
    &&& s.affordances@.len() == 1
    &&& affordance_is(
        s.affordances@[0],
        sid + ":talk"@,
        EncounterActionKind::TalkAbout,
        "말을 건다"@,
        st.player_visible_signal@,
        AffordanceAvailability::Risky,
        Seq::empty(),
        seq!["social"@],
        ev,
    )
    &&& s.constraints@.len() == 0
    &&& s.change_potential@.len() == 1
    &&& change_is(s.change_potential@[0], sid + ":stance"@, EncounterChangeKind::ShiftActorStance, "대화 태도가 바뀔 수 있다."@, "current_scene"@, ev)
    &&& lifecycle_is(s.lifecycle, turn_id, EncounterPersistence::CurrentScene)
}

fn stance_surface(turn_id: &str, scene_id: &str, st: &DialogueStance) -> (s: EncounterSurface)
    ensures
        stance_surface_is(s, turn_id@, scene_id@, *st),
{
    let norm = normalize_id(st.stance_id.as_str());
    let sid = concat3("encounter:", turn_id, ":social:");
    let sid = concat2(sid.as_str(), norm.as_str());
    let mut anchors = Vec::new();
    anchors.push(make_anchor(st.actor_ref.as_str(), EncounterPhysicalAnchorKind::Actor, "stance_actor", clone_strings(&st.source_refs)));
    anchors.push(make_anchor(st.stance_id.as_str(), EncounterPhysicalAnchorKind::SocialExchange, "relationship_stance", clone_strings(&st.source_refs)));
    let no_required: Vec<String> = Vec::new();
    assert(views(no_required@) =~= Seq::<Seq<char>>::empty());
    let mut affordances = Vec::new();
    affordances.push(make_affordance(
        concat2(sid.as_str(), ":talk"),
        EncounterActionKind::TalkAbout,
        String::from_str("말을 건다"),
        st.player_visible_signal.clone(),
        AffordanceAvailability::Risky,
        no_required,
        single_string("social"),
        clone_strings(&st.source_refs),
    ));
    let mut change_potential = Vec::new();
    change_potential.push(make_change(
        concat2(sid.as_str(), ":stance"),
        EncounterChangeKind::ShiftActorStance,
        "대화 태도가 바뀔 수 있다.",
        "current_scene",
        clone_strings(&st.source_refs),
    ));
    EncounterSurface {
        schema_version: String::from_str(ENCOUNTER_SURFACE_SCHEMA_VERSION),
        surface_id: sid,
        label: String::from_str("대화 표면"),
        kind: EncounterSurfaceKind::SocialHandle,
        status: EncounterSurfaceStatus::Available,
        salience: EncounterSalience::Important,
        summary: st.summary.clone(),
        player_visible_signal: st.player_visible_signal.clone(),
        location_ref: Some(String::from_str(scene_id)),
        holder_ref: Some(st.actor_ref.clone()),
        source_refs: clone_strings(&st.source_refs),
        linked_entity_refs: two_strings(st.actor_ref.as_str(), st.target_ref.as_str()),
        linked_pressure_refs: Vec::new(),
        linked_social_refs: single_string(st.stance_id.as_str()),
        physical_anchors: anchors,
        affordances,
        constraints: Vec::new(),
        change_potential,
        lifecycle: make_lifecycle(turn_id, EncounterPersistence::CurrentScene),
    }
}

pub open spec fn ask_blocked(a: UnresolvedSocialAsk) -> bool {
    a.current_status == AskStatus::Evaded || a.current_status == AskStatus::Refused
}

/// `s` is the access controller of an unresolved ask.
pub open spec fn ask_surface_is(s: EncounterSurface, turn_id: Seq<char>, scene_id: Seq<char>, a: UnresolvedSocialAsk) -> bool {
    let sid = "encounter:"@ + turn_id + ":ask:"@ + normalized_id(a.ask_id@);
    let ev = views(a.source_refs@);
    let moves = views(a.allowed_next_moves@);
    &&& s.schema_version@ == ENCOUNTER_SURFACE_SCHEMA_VERSION@
    &&& s.surface_id@ == sid
    &&& s.label@ == "유보된 질문"@
    &&& s.kind == EncounterSurfaceKind::AccessController
    &&& s.status == if ask_blocked(a) { EncounterSurfaceStatus::Blocked } else { EncounterSurfaceStatus::Available }
    &&& s.salience == EncounterSalience::Important
    &&& s.summary@ == a.question_summary@
    &&& s.player_visible_signal@ == a.last_response@
    &&& opt_is(s.location_ref, scene_id)
    &&& opt_is(s.holder_ref, a.asked_to_ref@)
    &&& views(s.source_refs@) == ev
    &&& views(s.linked_entity_refs@) == seq![a.asked_by_ref@, a.asked_to_ref@]
    &&& s.linked_pressure_refs@.len() == 0
    &&& views(s.linked_social_refs@) == seq![a.ask_id@]
    &&& s.physical_anchors@.len() == 2
    &&& anchor_is(s.physical_anchors@[0], a.asked_to_ref@, EncounterPhysicalAnchorKind::Actor, "ask_controller"@, ev)
    &&& anchor_is(s.physical_anchors@[1], a.ask_id@, EncounterPhysicalAnchorKind::SocialExchange, "unresolved_ask"@, ev)
    &&& s.affordances@.len() == 1
    &&& affordance_is(
        s.affordances@[0],
        sid + ":probe"@,
        EncounterActionKind::TalkAbout,
        "다시 묻는다"@,
        a.question_summary@,
        if ask_blocked(a) { AffordanceAvailability::RequiresCondition } else { AffordanceAvailability::Available },
        moves,
        seq!["repetition"@, "social"@],
        ev,
    )
    &&& s.constraints@.len() == a.blocked_repetitions@.len()
    &&& forall|k: int|
        0 <= k < s.constraints@.len() ==> constraint_is(
            #[trigger] s.constraints@[k],
            sid + ":repeat:"@ + dec(k as nat),
            EncounterConstraintKind::SocialPermission,
            a.blocked_repetitions@[k]@,
            a.blocked_repetitions@[k]@,
            moves,
            ev,
        )
    &&& s.change_potential@.len() == 1
    &&& change_is(s.change_potential@[0], sid + ":answer"@, EncounterChangeKind::RevealDetail, "조건이 맞으면 답변 일부가 드러날 수 있다."@, "current_scene"@, ev)
    &&& lifecycle_is(s.lifecycle, turn_id, EncounterPersistence::CurrentScene)
}

fn ask_surface(turn_id: &str, scene_id: &str, a: &UnresolvedSocialAsk) -> (s: EncounterSurface)
    ensures
        ask_surface_is(s, turn_id@, scene_id@, *a),
{
    let norm = normalize_id(a.ask_id.as_str());
    let sid = concat3("encounter:", turn_id, ":ask:");
    let sid = concat2(sid.as_str(), norm.as_str());
    let blocked = a.current_status == AskStatus::Evaded || a.current_status == AskStatus::Refused;
    let mut anchors = Vec::new();
    anchors.push(make_anchor(a.asked_to_ref.as_str(), EncounterPhysicalAnchorKind::Actor, "ask_controller", clone_strings(&a.source_refs)));
    anchors.push(make_anchor(a.ask_id.as_str(), EncounterPhysicalAnchorKind::SocialExchange, "unresolved_ask", clone_strings(&a.source_refs)));
    let mut affordances = Vec::new();
    affordances.push(make_affordance(
        concat2(sid.as_str(), ":probe"),
        EncounterActionKind::TalkAbout,
        String::from_str("다시 묻는다"),
        a.question_summary.clone(),
        if blocked { AffordanceAvailability::RequiresCondition } else { AffordanceAvailability::Available },
        clone_strings(&a.allowed_next_moves),
        two_strings("repetition", "social"),
        clone_strings(&a.source_refs),
    ));
    let mut constraints: Vec<EncounterConstraint> = Vec::new();
    let mut k: usize = 0;
    while k < a.blocked_repetitions.len()
        invariant
            k <= a.blocked_repetitions@.len(),
            constraints@.len() == k,
            forall|j: int|
                0 <= j < k ==> constraint_is(
                    #[trigger] constraints@[j],
                    sid@ + ":repeat:"@ + dec(j as nat),
                    EncounterConstraintKind::SocialPermission,
                    a.blocked_repetitions@[j]@,
                    a.blocked_repetitions@[j]@,
                    views(a.allowed_next_moves@),
                    views(a.source_refs@),
                ),
        decreases a.blocked_repetitions.len() - k,
    {
        let n = dec_string(k as u64);
        let reason = &a.blocked_repetitions[k];
        constraints.push(make_constraint(
            concat3(sid.as_str(), ":repeat:", n.as_str()),
            EncounterConstraintKind::SocialPermission,
            reason.clone(),
            reason.clone(),
            clone_strings(&a.allowed_next_moves),
            clone_strings(&a.source_refs),
        ));
        k = k + 1;
    }
    let mut change_potential = Vec::new();
    change_potential.push(make_change(
        concat2(sid.as_str(), ":answer"),
        EncounterChangeKind::RevealDetail,
        "조건이 맞으면 답변 일부가 드러날 수 있다.",
        "current_scene",
        clone_strings(&a.source_refs),
    ));
    EncounterSurface {
        schema_version: String::from_str(ENCOUNTER_SURFACE_SCHEMA_VERSION),
        surface_id: sid,
        label: String::from_str("유보된 질문"),
        kind: EncounterSurfaceKind::AccessController,
        status: if blocked { EncounterSurfaceStatus::Blocked } else { EncounterSurfaceStatus::Available },
        salience: EncounterSalience::Important,
        summary: a.question_summary.clone(),
        player_visible_signal: a.last_response.clone(),
        location_ref: Some(String::from_str(scene_id)),
        holder_ref: Some(a.asked_to_ref.clone()),
        source_refs: clone_strings(&a.source_refs),
        linked_entity_refs: two_strings(a.asked_by_ref.as_str(), a.asked_to_ref.as_str()),
        linked_pressure_refs: Vec::new(),
        linked_social_refs: single_string(a.ask_id.as_str()),
        physical_anchors: anchors,
        affordances,
        constraints,
        change_potential,
        lifecycle: make_lifecycle(turn_id, EncounterPersistence::CurrentScene),
    }
}

/// Appends the social surfaces of a scene: a handle for each active stance,
/// then an access controller for each unresolved ask.
pub fn social_surfaces(out: &mut Vec<EncounterSurface>, turn_id: &str, scene_id: &str, social: &SocialExchangePacket)
    ensures
        final(out)@.len() == old(out)@.len() + social.active_stances@.len() + social.unresolved_asks@.len(),
        final(out)@.subrange(0, old(out)@.len() as int) == old(out)@,
        forall|k: int|
            0 <= k < social.active_stances@.len() ==> stance_surface_is(
                #[trigger] final(out)@[old(out)@.len() + k],
                turn_id@,
                scene_id@,
                social.active_stances@[k],
            ),
        forall|k: int|
            0 <= k < social.unresolved_asks@.len() ==> ask_surface_is(
                #[trigger] final(out)@[old(out)@.len() + social.active_stances@.len() + k],
                turn_id@,
                scene_id@,
                social.unresolved_asks@[k],
            ),
{
    let ghost start = out@.len();
    let ghost prefix = out@;
    let mut i: usize = 0;
    while i < social.active_stances.len()
        invariant
            i <= social.active_stances@.len(),
            out@.len() == start + i,
            out@.subrange(0, start as int) == prefix,
            forall|k: int|
                0 <= k < i ==> stance_surface_is(#[trigger] out@[start + k], turn_id@, scene_id@, social.active_stances@[k]),
        decreases social.active_stances.len() - i,
    {
        let s = stance_surface(turn_id, scene_id, &social.active_stances[i]);
        proof {
            assert(out@.push(s).subrange(0, start as int) =~= out@.subrange(0, start as int));
        }
        out.push(s);
        i = i + 1;
    }
    let ghost mid = out@.len();
    let mut j: usize = 0;
    while j < social.unresolved_asks.len()
        invariant
            j <= social.unresolved_asks@.len(),
            mid == start + social.active_stances@.len(),
            out@.len() == mid + j,
            out@.subrange(0, start as int) == prefix,
            forall|k: int|
                0 <= k < social.active_stances@.len() ==> stance_surface_is(#[trigger] out@[start + k], turn_id@, scene_id@, social.active_stances@[k]),
            forall|k: int|
                0 <= k < j ==> ask_surface_is(#[trigger] out@[mid + k], turn_id@, scene_id@, social.unresolved_asks@[k]),
        decreases social.unresolved_asks.len() - j,
    {
        let s = ask_surface(turn_id, scene_id, &social.unresolved_asks[j]);
        proof {
            assert(out@.push(s).subrange(0, start as int) =~= out@.subrange(0, start as int));
            assert forall|k: int| 0 <= k < social.active_stances@.len() implies #[trigger] out@.push(s)[start + k] == out@[start + k] by {}
        }
        out.push(s);
        j = j + 1;
    }
}


// ---------------------------------------------------------------------------
// Surfaces from the displayed choices.
// ---------------------------------------------------------------------------

/// A choice's tag and intent as the player reads them.
pub open spec fn raw_choice_text(c: TurnChoice) -> Seq<char> {
    c.tag@ + " "@ + c.intent@
}

pub open spec fn any_contained(text: Seq<char>, words: Seq<String>) -> bool {
    exists|i: int| 0 <= i < words.len() && contains(text, #[trigger] words[i]@)
}

/// A visible pressure bears on a choice when the choice names one of its
/// signals or affordances or its paragraph pressure, or when it is a threat,
/// time or permission pressure and the choice is slot 5.
pub open spec fn pressure_hits(p: ScenePressure, text: Seq<char>, slot: u8) -> bool {
    any_contained(text, p.observable_signals@) || any_contained(text, p.choice_affordances@)
        || contains(text, p.prose_effect.paragraph_pressure@) || ((p.kind == ScenePressureKind::Threat
        || p.kind == ScenePressureKind::TimePressure || p.kind == ScenePressureKind::SocialPermission)
        && slot == 5)
}

pub open spec fn pressure_refs_of(ps: Seq<ScenePressure>, text: Seq<char>, slot: u8) -> Seq<Seq<char>>
    decreases ps.len(),
{
    if ps.len() == 0 {
        Seq::empty()
    } else {
        let prev = pressure_refs_of(ps.drop_last(), text, slot);
        if pressure_hits(ps.last(), text, slot) {
            prev.push(ps.last().pressure_id@)
        } else {
            prev
        }
    }
}

fn any_contained_in(text: &str, words: &Vec<String>) -> (r: bool)
    ensures
        r == any_contained(text@, words@),
{
    let mut i: usize = 0;
    while i < words.len()
        invariant
            i <= words@.len(),
            forall|k: int| 0 <= k < i ==> !contains(text@, #[trigger] words@[k]@),
        decreases words.len() - i,
    {
        if contains_str(text, words[i].as_str()) {
            return true;
        }
        i = i + 1;
    }
    false
}

fn pressure_refs_for_choice(choice: &TurnChoice, pressure: &ScenePressurePacket) -> (r: Vec<String>)
    ensures
        views(r@) == pressure_refs_of(pressure.visible_active@, raw_choice_text(*choice), choice.slot),
{
    let text = concat3(choice.tag.as_str(), " ", choice.intent.as_str());
    let ps = &pressure.visible_active;
    let mut out: Vec<String> = Vec::new();
    let mut i: usize = 0;
    while i < ps.len()
        invariant
            i <= ps@.len(),
            text@ == raw_choice_text(*choice),
            views(out@) == pressure_refs_of(ps@.subrange(0, i as int), text@, choice.slot),
        decreases ps.len() - i,
    {
        let p = &ps[i];
        proof {
            assert(ps@.subrange(0, i + 1).drop_last() =~= ps@.subrange(0, i as int));
        }
        let hit = any_contained_in(text.as_str(), &p.observable_signals)
            || any_contained_in(text.as_str(), &p.choice_affordances)
            || contains_str(text.as_str(), p.prose_effect.paragraph_pressure.as_str())
            || ((p.kind == ScenePressureKind::Threat || p.kind == ScenePressureKind::TimePressure
                || p.kind == ScenePressureKind::SocialPermission) && choice.slot == 5);
        if hit {
            let ghost before = out@;
            out.push(p.pressure_id.clone());
            proof {
                crate::text::lemma_views_push(before, p.pressure_id);
            }
        }
        i = i + 1;
    }
    assert(ps@.subrange(0, ps@.len() as int) =~= ps@);
    out
}

/// What an anchor says: its ref, kind, relation and evidence.
pub type AnchorSpec = (Seq<char>, EncounterPhysicalAnchorKind, Seq<char>, Seq<Seq<char>>);

pub open spec fn anchor_spec_of(a: EncounterPhysicalAnchor) -> AnchorSpec {
    (a.anchor_ref@, a.kind, a.relation@, views(a.evidence_refs@))
}

pub open spec fn nearby_targets(ls: Seq<LocationNode>, text: Seq<char>) -> Seq<AnchorSpec>
    decreases ls.len(),
{
    if ls.len() == 0 {
        Seq::empty()
    } else {
        let prev = nearby_targets(ls.drop_last(), text);
        let l = ls.last();
        if contains(text, l.name@) || contains(text, l.location_id@) {
            prev.push((l.location_id@, EncounterPhysicalAnchorKind::NearbyLocation, "choice_movement_target"@, location_evidence(l)))
        } else {
            prev
        }
    }
}

pub open spec fn current_anchor_specs(g: LocationGraphPacket) -> Seq<AnchorSpec> {
    match g.current_location {
        Some(l) => seq![(l.location_id@, EncounterPhysicalAnchorKind::CurrentLocation, "choice_scene_origin"@, location_evidence(l))],
        None => Seq::empty(),
    }
}

/// The anchors a choice surface collects before deduplication: its slot,
/// the current location, each nearby location it names, then its mutation's
/// own slot anchor.
pub open spec fn choice_anchor_specs(c: TurnChoice, g: LocationGraphPacket) -> Seq<AnchorSpec> {
    let sref = slot_ref(c.slot);
    let slot_anchor = (sref, EncounterPhysicalAnchorKind::ChoiceSlot, "choice_surface_source"@, seq![sref]);
    seq![slot_anchor] + current_anchor_specs(g) + nearby_targets(g.known_nearby_locations@, raw_choice_text(c)) + seq![slot_anchor]
}

pub open spec fn same_anchor_key(a: AnchorSpec, b: AnchorSpec) -> bool {
    a.0 == b.0 && a.1 == b.1 && a.2 == b.2
}

/// The first anchor of each (ref, kind, relation), in order.
pub open spec fn dedupe_anchor_specs(s: Seq<AnchorSpec>) -> Seq<AnchorSpec>
    decreases s.len(),
{
    if s.len() == 0 {
        Seq::empty()
    } else {
        let prev = dedupe_anchor_specs(s.drop_last());
        if exists|j: int| 0 <= j < s.len() - 1 && same_anchor_key(#[trigger] s[j], s.last()) {
            prev
        } else {
            prev.push(s.last())
        }
    }
}

fn copy_anchor(a: &EncounterPhysicalAnchor) -> (r: EncounterPhysicalAnchor)
    ensures
        anchor_spec_of(r) == anchor_spec_of(*a),
{
    EncounterPhysicalAnchor {
        anchor_ref: a.anchor_ref.clone(),
        kind: a.kind,
        relation: a.relation.clone(),
        evidence_refs: clone_strings(&a.evidence_refs),
    }
}

fn dedupe_physical_anchors(all: &Vec<EncounterPhysicalAnchor>) -> (r: Vec<EncounterPhysicalAnchor>)
    ensures
        r@.len() == dedupe_anchor_specs(all@.map_values(|a: EncounterPhysicalAnchor| anchor_spec_of(a))).len(),
        forall|k: int|
            0 <= k < r@.len() ==> anchor_spec_of(#[trigger] r@[k]) == dedupe_anchor_specs(
                all@.map_values(|a: EncounterPhysicalAnchor| anchor_spec_of(a)),
            )[k],
{
    let ghost specs = all@.map_values(|a: EncounterPhysicalAnchor| anchor_spec_of(a));
    let mut out: Vec<EncounterPhysicalAnchor> = Vec::new();
    let mut i: usize = 0;
    while i < all.len()
        invariant
            i <= all@.len(),
            specs == all@.map_values(|a: EncounterPhysicalAnchor| anchor_spec_of(a)),
            out@.len() == dedupe_anchor_specs(specs.subrange(0, i as int)).len(),
            forall|k: int|
                0 <= k < out@.len() ==> anchor_spec_of(#[trigger] out@[k]) == dedupe_anchor_specs(
                    specs.subrange(0, i as int),
                )[k],
        decreases all.len() - i,
    {
        let a = &all[i];
        let mut seen = false;
        let mut j: usize = 0;
        while j < i
            invariant
                j <= i,
                i < all@.len(),
                specs == all@.map_values(|a: EncounterPhysicalAnchor| anchor_spec_of(a)),
                seen == exists|m: int| 0 <= m < j && same_anchor_key(#[trigger] specs[m], specs[i as int]),
            decreases i - j,
        {
            let b = &all[j];
            proof {
                assert(specs[j as int] == anchor_spec_of(all@[j as int]));
                assert(specs[i as int] == anchor_spec_of(all@[i as int]));
            }
            let a = &all[i];
            if str_eq(b.anchor_ref.as_str(), a.anchor_ref.as_str()) && b.kind == a.kind && str_eq(
                b.relation.as_str(),
                a.relation.as_str(),
            ) {
                assert(same_anchor_key(specs[j as int], specs[i as int]));
                seen = true;
            }
            j = j + 1;
        }
        proof {
            let sub = specs.subrange(0, i + 1);
            assert(sub.drop_last() =~= specs.subrange(0, i as int));
            assert(sub.last() == specs[i as int]);
            assert((exists|m: int| 0 <= m < sub.len() - 1 && same_anchor_key(#[trigger] sub[m], sub.last()))
                == (exists|m: int| 0 <= m < i && same_anchor_key(#[trigger] specs[m], specs[i as int]))) by {
                if exists|m: int| 0 <= m < i && same_anchor_key(#[trigger] specs[m], specs[i as int]) {
                    let m = choose|m: int| 0 <= m < i && same_anchor_key(#[trigger] specs[m], specs[i as int]);
                    assert(sub[m] == specs[m]);
                }
                if exists|m: int| 0 <= m < sub.len() - 1 && same_anchor_key(#[trigger] sub[m], sub.last()) {
                    let m = choose|m: int| 0 <= m < sub.len() - 1 && same_anchor_key(#[trigger] sub[m], sub.last());
                    assert(sub[m] == specs[m]);
                }
            }
        }
        proof {
            assert(specs[i as int] == anchor_spec_of(all@[i as int]));
        }
        if !seen {
            out.push(copy_anchor(a));
        }
        i = i + 1;
    }
    assert(specs.subrange(0, all@.len() as int) =~= specs);
    out
}


pub open spec fn specs_of(v: Seq<EncounterPhysicalAnchor>) -> Seq<AnchorSpec> {
    v.map_values(|a: EncounterPhysicalAnchor| anchor_spec_of(a))
}

fn choice_physical_anchors(choice: &TurnChoice, g: &LocationGraphPacket) -> (r: Vec<EncounterPhysicalAnchor>)
    ensures
        specs_of(r@) == choice_anchor_specs(*choice, *g).drop_last(),
{
    let sref = slot_ref_of(choice.slot);
    let mut anchors: Vec<EncounterPhysicalAnchor> = Vec::new();
    anchors.push(make_anchor(sref.as_str(), EncounterPhysicalAnchorKind::ChoiceSlot, "choice_surface_source", single_string(sref.as_str())));
    let ghost head: Seq<AnchorSpec> = seq![(sref@, EncounterPhysicalAnchorKind::ChoiceSlot, "choice_surface_source"@, seq![sref@])] + current_anchor_specs(*g);
    match &g.current_location {
        Some(l) => {
            anchors.push(make_anchor(l.location_id.as_str(), EncounterPhysicalAnchorKind::CurrentLocation, "choice_scene_origin", location_evidence_refs(l)));
        },
        None => {},
    }
    assert(specs_of(anchors@) =~= head);
    let text = concat3(choice.tag.as_str(), " ", choice.intent.as_str());
    let ls = &g.known_nearby_locations;
    let mut i: usize = 0;
    while i < ls.len()
        invariant
            i <= ls@.len(),
            text@ == raw_choice_text(*choice),
            specs_of(anchors@) == head + nearby_targets(ls@.subrange(0, i as int), text@),
        decreases ls.len() - i,
    {
        let l = &ls[i];
        proof {
            assert(ls@.subrange(0, i + 1).drop_last() =~= ls@.subrange(0, i as int));
        }
        if contains_str(text.as_str(), l.name.as_str()) || contains_str(text.as_str(), l.location_id.as_str()) {
            let a = make_anchor(l.location_id.as_str(), EncounterPhysicalAnchorKind::NearbyLocation, "choice_movement_target", location_evidence_refs(l));
            let ghost before = anchors@;
            anchors.push(a);
            assert(specs_of(anchors@) =~= specs_of(before).push(anchor_spec_of(a)));
        }
        i = i + 1;
    }
    assert(ls@.subrange(0, ls@.len() as int) =~= ls@);
    assert(choice_anchor_specs(*choice, *g).drop_last() =~= head + nearby_targets(ls@, text@));
    anchors
}

/// `s` is the surface a displayed ordinary choice makes.
pub open spec fn choice_surface_is(
    s: EncounterSurface,
    turn_id: Seq<char>,
    scene_id: Seq<char>,
    c: TurnChoice,
    pressure: ScenePressurePacket,
    g: LocationGraphPacket,
) -> bool {
    let text = choice_text(c);
    let kind = choice_kind(c.slot, text);
    let action = choice_action(c.slot, text);
    let status = choice_status(text);
    let pr = pressure_refs_of(pressure.visible_active@, raw_choice_text(c), c.slot);
    let sid = "encounter:"@ + turn_id + ":slot:"@ + dec(c.slot as nat) + ":"@ + normalized_id(c.tag@);
    let sref = slot_ref(c.slot);
    let anchors = dedupe_anchor_specs(choice_anchor_specs(c, g));
    &&& s.schema_version@ == ENCOUNTER_SURFACE_SCHEMA_VERSION@
    &&& s.surface_id@ == sid
    &&& s.label@ == c.tag@
    &&& s.kind == kind
    &&& s.status == status
    &&& s.salience == if c.slot == 5 || pr.len() > 0 {
        EncounterSalience::Important
    } else {
        EncounterSalience::Useful
    }
    &&& s.summary@ == c.intent@
    &&& s.player_visible_signal@ == c.tag@
    &&& opt_is(s.location_ref, origin_ref(g, scene_id))
    &&& s.holder_ref is None
    &&& views(s.source_refs@) == seq![sref]
    &&& s.linked_entity_refs@.len() == 0
    &&& views(s.linked_pressure_refs@) == pr
    &&& s.linked_social_refs@.len() == 0
    &&& s.physical_anchors@.len() == anchors.len()
    &&& forall|k: int| 0 <= k < anchors.len() ==> anchor_spec_of(#[trigger] s.physical_anchors@[k]) == anchors[k]
    &&& s.affordances@.len() == 1
    &&& affordance_is(
        s.affordances@[0],
        sid + ":affordance"@,
        action,
        c.tag@,
        c.intent@,
        status_availability(status),
        Seq::empty(),
        kind_risk_tags(kind, pr.len() > 0),
        seq![sref],
    )
    &&& s.constraints@.len() == if is_blocking(status) { 1nat } else { 0nat }
    &&& s.constraints@.len() == 1 ==> choice_constraint_is(s.constraints@[0], sid)
    &&& s.change_potential@.len() == 1
    &&& change_is(s.change_potential@[0], sid + ":change"@, action_change(action).0, action_change(action).1, "current_scene"@, Seq::empty())
    &&& lifecycle_is(s.lifecycle, turn_id, EncounterPersistence::CurrentScene)
}

fn surface_from_choice(
    turn_id: &str,
    scene_id: &str,
    choice: &TurnChoice,
    pressure: &ScenePressurePacket,
    g: &LocationGraphPacket,
) -> (s: EncounterSurface)
    ensures
        choice_surface_is(s, turn_id@, scene_id@, *choice, *pressure, *g),
{
    let pressure_refs = pressure_refs_for_choice(choice, pressure);
    let sref = slot_ref_of(choice.slot);
    let sources = single_string(sref.as_str());
    let m = mutation_from_choice(turn_id, scene_id, choice, &pressure_refs, sources);
    let mut all = choice_physical_anchors(choice, g);
    let ghost before = all@;
    all.push(copy_anchor(&m.physical_anchors[0]));
    proof {
        assert(specs_of(all@) =~= specs_of(before).push(anchor_spec_of(all@.last())));
        assert(choice_anchor_specs(*choice, *g) =~= choice_anchor_specs(*choice, *g).drop_last().push(
            choice_anchor_specs(*choice, *g).last(),
        ));
        assert(specs_of(all@) =~= choice_anchor_specs(*choice, *g));
    }
    let physical_anchors = dedupe_physical_anchors(&all);
    EncounterSurface {
        schema_version: String::from_str(ENCOUNTER_SURFACE_SCHEMA_VERSION),
        surface_id: m.surface_id,
        label: m.label,
        kind: m.kind,
        status: m.status,
        salience: m.salience,
        summary: m.summary,
        player_visible_signal: m.player_visible_signal,
        location_ref: Some(origin_of(g, scene_id)),
        holder_ref: m.holder_ref,
        source_refs: m.source_refs,
        linked_entity_refs: m.linked_entity_refs,
        linked_pressure_refs: m.linked_pressure_refs,
        linked_social_refs: m.linked_social_refs,
        physical_anchors,
        affordances: m.affordances,
        constraints: m.constraints,
        change_potential: m.change_potential,
        lifecycle: make_lifecycle(turn_id, EncounterPersistence::CurrentScene),
    }
}


// ---------------------------------------------------------------------------
// Ordering surfaces: most salient first, then by id.
// ---------------------------------------------------------------------------

/// `a` sorts before `b`: more salient, or as salient with a smaller id.
pub open spec fn surface_before(a: EncounterSurface, b: EncounterSurface) -> bool {
    salience_rank(a.salience) > salience_rank(b.salience) || (salience_rank(a.salience)
        == salience_rank(b.salience) && seq_lt(a.surface_id@, b.surface_id@))
}

/// Where `x` goes in a sorted list: before the first entry it sorts before.
pub open spec fn surface_insert_pos(t: Seq<EncounterSurface>, x: EncounterSurface) -> int
    decreases t.len(),
{
    if t.len() == 0 {
        0
    } else {
        let p = surface_insert_pos(t.drop_last(), x);
        if p < t.len() - 1 {
            p
        } else if surface_before(x, t.last()) {
            t.len() - 1
        } else {
            t.len() as int
        }
    }
}

/// The stable sort of the surfaces by `surface_before`.
pub open spec fn sort_surfaces(s: Seq<EncounterSurface>) -> Seq<EncounterSurface>
    decreases s.len(),
{
    if s.len() == 0 {
        Seq::empty()
    } else {
        let t = sort_surfaces(s.drop_last());
        t.insert(surface_insert_pos(t, s.last()), s.last())
    }
}

pub proof fn lemma_surface_insert_pos_is(t: Seq<EncounterSurface>, x: EncounterSurface, k: int)
    requires
        0 <= k <= t.len(),
        forall|j: int| 0 <= j < k ==> !surface_before(x, #[trigger] t[j]),
        k < t.len() ==> surface_before(x, t[k]),
    ensures
        surface_insert_pos(t, x) == k,
    decreases t.len(),
{
    if t.len() > 0 {
        let d = t.drop_last();
        assert forall|j: int| 0 <= j < d.len() implies d[j] == t[j] by {}
        if k < t.len() - 1 {
            lemma_surface_insert_pos_is(d, x, k);
        } else {
            lemma_surface_insert_pos_is(d, x, d.len() as int);
        }
    }
}

proof fn lemma_surface_insert_pos_bounds(t: Seq<EncounterSurface>, x: EncounterSurface)
    ensures
        0 <= surface_insert_pos(t, x) <= t.len(),
    decreases t.len(),
{
    if t.len() > 0 {
        lemma_surface_insert_pos_bounds(t.drop_last(), x);
    }
}

pub proof fn lemma_sort_surfaces_len(s: Seq<EncounterSurface>)
    ensures
        sort_surfaces(s).len() == s.len(),
    decreases s.len(),
{
    if s.len() > 0 {
        lemma_sort_surfaces_len(s.drop_last());
        lemma_surface_insert_pos_bounds(sort_surfaces(s.drop_last()), s.last());
    }
}

/// Listed in order: no surface is before one listed ahead of it.
pub open spec fn surfaces_sorted(s: Seq<EncounterSurface>) -> bool {
    forall|i: int, j: int| 0 <= i < j < s.len() ==> !surface_before(#[trigger] s[j], #[trigger] s[i])
}

proof fn lemma_surface_before_order(a: EncounterSurface, b: EncounterSurface, c: EncounterSurface)
    ensures
        surface_before(a, b) ==> !surface_before(b, a),
        !surface_before(a, a),
        surface_before(a, b) && surface_before(b, c) ==> surface_before(a, c),
{
    lemma_seq_lt_asymmetric(a.surface_id@, b.surface_id@);
    lemma_seq_lt_irreflexive(a.surface_id@);
    if seq_lt(a.surface_id@, b.surface_id@) && seq_lt(b.surface_id@, c.surface_id@) {
        lemma_seq_lt_transitive(a.surface_id@, b.surface_id@, c.surface_id@);
    }
}

proof fn lemma_surface_insert_pos_props(t: Seq<EncounterSurface>, x: EncounterSurface)
    ensures
        0 <= surface_insert_pos(t, x) <= t.len(),
        forall|j: int| 0 <= j < surface_insert_pos(t, x) ==> !surface_before(x, #[trigger] t[j]),
        surface_insert_pos(t, x) < t.len() ==> surface_before(x, t[surface_insert_pos(t, x)]),
    decreases t.len(),
{
    if t.len() > 0 {
        let d = t.drop_last();
        lemma_surface_insert_pos_props(d, x);
        assert forall|j: int| 0 <= j < d.len() implies d[j] == t[j] by {}
    }
}

/// The surface order sorts: the result lists every surface exactly as often
/// as the input does, and no surface comes after one it is before.
pub proof fn law_sorted_surfaces_are_ordered_permutation(s: Seq<EncounterSurface>)
    ensures
        surfaces_sorted(sort_surfaces(s)),
        sort_surfaces(s).to_multiset() == s.to_multiset(),
        sort_surfaces(s).len() == s.len(),
    decreases s.len(),
{
    if s.len() == 0 {
        assert(sort_surfaces(s) =~= s);
    } else {
        let d = s.drop_last();
        let x = s.last();
        law_sorted_surfaces_are_ordered_permutation(d);
        let t = sort_surfaces(d);
        lemma_surface_insert_pos_props(t, x);
        let p = surface_insert_pos(t, x);
        let r = t.insert(p, x);
        assert(r == sort_surfaces(s));
        assert(s =~= d.push(x));
        vstd::seq_lib::to_multiset_insert(t, p, x);
        vstd::seq_lib::to_multiset_build(d, x);
        assert forall|i: int, j: int| 0 <= i < j < r.len() implies !surface_before(#[trigger] r[j], #[trigger] r[i]) by {
            if j < p {
                assert(r[i] == t[i] && r[j] == t[j]);
            } else if j == p {
                assert(r[i] == t[i] && r[j] == x);
            } else {
                assert(r[j] == t[j - 1]);
                if i < p {
                    assert(r[i] == t[i]);
                } else if i == p {
                    assert(r[i] == x);
                    lemma_surface_before_order(t[j - 1], x, t[p]);
                    lemma_surface_before_order(x, t[p], t[p]);
                    if j - 1 > p {
                        assert(!surface_before(t[j - 1], t[p]));
                    }
                } else {
                    assert(r[i] == t[i - 1]);
                }
            }
        }
    }
}

fn before_exec(a: &EncounterSurface, b: &EncounterSurface) -> (r: bool)
    ensures
        r == surface_before(*a, *b),
{
    let ra = rank_of(a.salience);
    let rb = rank_of(b.salience);
    ra > rb || (ra == rb && str_lt(a.surface_id.as_str(), b.surface_id.as_str()))
}

/// Sorts surfaces, most salient first and then by id, keeping the given
/// order among equals.
pub fn sort_encounter_surfaces(v: Vec<EncounterSurface>) -> (r: Vec<EncounterSurface>)
    ensures
        r@ == sort_surfaces(v@),
        surfaces_sorted(r@),
        r@.to_multiset() == v@.to_multiset(),
{
    proof {
        law_sorted_surfaces_are_ordered_permutation(v@);
    }
    let mut rest = v;
    let ghost all = rest@;
    let total = rest.len();
    let mut out: Vec<EncounterSurface> = Vec::new();
    let mut n: usize = 0;
    while rest.len() > 0
        invariant
            n + rest@.len() == all.len(),
            all.len() == total,
            rest@ == all.subrange(n as int, all.len() as int),
            out@ == sort_surfaces(all.subrange(0, n as int)),
        decreases rest.len(),
    {
        let x = rest.remove(0);
        proof {
            assert(all.subrange(0, n + 1).drop_last() =~= all.subrange(0, n as int));
            assert(all.subrange(0, n + 1).last() == x);
            assert(rest@ =~= all.subrange(n + 1, all.len() as int));
        }
        let mut k: usize = 0;
        while k < out.len() && !before_exec(&x, &out[k])
            invariant
                k <= out@.len(),
                forall|j: int| 0 <= j < k ==> !surface_before(x, #[trigger] out@[j]),
            decreases out.len() - k,
        {
            k = k + 1;
        }
        proof {
            lemma_surface_insert_pos_is(out@, x, k as int);
        }
        out.insert(k, x);
        n = n + 1;
    }
    proof {
        assert(all.subrange(0, all.len() as int) =~= all);
    }
    out
}

// ---------------------------------------------------------------------------
// Choice contracts.
// ---------------------------------------------------------------------------

/// The first slot that a list of refs names, or 0.
pub open spec fn first_slot(refs: Seq<Seq<char>>) -> u8
    decreases refs.len(),
{
    if refs.len() == 0 {
        0
    } else {
        match slot_of_ref(refs[0]) {
            Some(v) => v as u8,
            None => first_slot(refs.drop_first()),
        }
    }
}

fn first_slot_of(a: &Vec<String>, b: &Vec<String>) -> (r: u8)
    ensures
        r == first_slot(views(a@) + views(b@)),
{
    let ghost all = views(a@) + views(b@);
    assert(all.subrange(0, all.len() as int) =~= all);
    let mut i: usize = 0;
    while i < a.len()
        invariant
            i <= a@.len(),
            all == views(a@) + views(b@),
            first_slot(all) == first_slot(all.subrange(i as int, all.len() as int)),
        decreases a.len() - i,
    {
        let ghost rest = all.subrange(i as int, all.len() as int);
        proof {
            assert(rest[0] == a@[i as int]@);
            assert(rest.drop_first() =~= all.subrange(i + 1, all.len() as int));
        }
        match choice_slot_from_ref(a[i].as_str()) {
            Some(v) => {
                return v;
            },
            None => {},
        }
        i = i + 1;
    }
    let mut j: usize = 0;
    while j < b.len()
        invariant
            j <= b@.len(),
            all == views(a@) + views(b@),
            first_slot(all) == first_slot(all.subrange(a@.len() + j, all.len() as int)),
        decreases b.len() - j,
    {
        let ghost rest = all.subrange(a@.len() + j, all.len() as int);
        proof {
            assert(rest[0] == b@[j as int]@);
            assert(rest.drop_first() =~= all.subrange(a@.len() + j + 1, all.len() as int));
        }
        match choice_slot_from_ref(b[j].as_str()) {
            Some(v) => {
                return v;
            },
            None => {},
        }
        j = j + 1;
    }
    proof {
        assert(all.subrange(all.len() as int, all.len() as int) =~= Seq::<Seq<char>>::empty());
    }
    0
}

/// `c` is the choice contract that affordance `a` of surface `s` offers.
pub open spec fn contract_is(c: ChoiceContract, s: EncounterSurface, a: EncounterAffordance) -> bool {
    &&& c.schema_version@ == CHOICE_CONTRACT_SCHEMA_VERSION@
    &&& c.choice_id@ == a.affordance_id@
    &&& c.target_ref@ == s.surface_id@
    &&& c.verb == a.action_kind
    &&& c.visible_label@ == a.label_seed@
    &&& views(c.preconditions@) == views(a.required_refs@)
    &&& c.expected_cost == action_cost(a.action_kind)
    &&& views(c.risk_tags@) == views(a.risk_tags@)
    &&& views(c.possible_event_kinds@) == action_event_kinds(a.action_kind)
    &&& views(c.evidence_refs@) == views(a.evidence_refs@)
    &&& views(c.forbidden_outcomes@) == action_forbidden_outcomes(a.action_kind)
    &&& c.omission_profile matches Some(op) && omission_profile_of(
        op,
        first_slot(views(s.source_refs@) + views(a.evidence_refs@)),
        a.label_seed@,
        a.intent_seed@,
        a.risk_tags@,
        a.evidence_refs@,
    )
}

/// Every (surface, affordance) pair, surface by surface.
pub open spec fn contract_pairs(ss: Seq<EncounterSurface>) -> Seq<(EncounterSurface, EncounterAffordance)>
    decreases ss.len(),
{
    if ss.len() == 0 {
        Seq::empty()
    } else {
        let s = ss.last();
        contract_pairs(ss.drop_last()) + s.affordances@.map_values(|a: EncounterAffordance| (s, a))
    }
}

fn choice_contract_from_affordance(s: &EncounterSurface, a: &EncounterAffordance) -> (c: ChoiceContract)
    ensures
        contract_is(c, *s, *a),
{
    let slot = first_slot_of(&s.source_refs, &a.evidence_refs);
    ChoiceContract {
        schema_version: String::from_str(CHOICE_CONTRACT_SCHEMA_VERSION),
        choice_id: a.affordance_id.clone(),
        target_ref: s.surface_id.clone(),
        verb: a.action_kind,
        visible_label: a.label_seed.clone(),
        preconditions: clone_strings(&a.required_refs),
        expected_cost: expected_cost_for_action(a.action_kind),
        risk_tags: clone_strings(&a.risk_tags),
        possible_event_kinds: possible_event_kinds_for_action(a.action_kind),
        evidence_refs: clone_strings(&a.evidence_refs),
        forbidden_outcomes: forbidden_outcomes_for_action(a.action_kind),
        omission_profile: Some(omission_profile_for_choice(
            slot,
            a.label_seed.as_str(),
            a.intent_seed.as_str(),
            a.risk_tags.as_slice(),
            a.evidence_refs.as_slice(),
        )),
    }
}

/// One contract per affordance of each surface, in order.
pub fn compile_choice_contracts(ss: &Vec<EncounterSurface>) -> (r: Vec<ChoiceContract>)
    ensures
        r@.len() == contract_pairs(ss@).len(),
        forall|k: int|
            0 <= k < r@.len() ==> contract_is(#[trigger] r@[k], contract_pairs(ss@)[k].0, contract_pairs(ss@)[k].1),
{
    let mut out: Vec<ChoiceContract> = Vec::new();
    let mut i: usize = 0;
    while i < ss.len()
        invariant
            i <= ss@.len(),
            out@.len() == contract_pairs(ss@.subrange(0, i as int)).len(),
            forall|k: int|
                0 <= k < out@.len() ==> contract_is(
                    #[trigger] out@[k],
                    contract_pairs(ss@.subrange(0, i as int))[k].0,
                    contract_pairs(ss@.subrange(0, i as int))[k].1,
                ),
        decreases ss.len() - i,
    {
        let s = &ss[i];
        let ghost base = contract_pairs(ss@.subrange(0, i as int));
        let ghost next = contract_pairs(ss@.subrange(0, i + 1));
        proof {
            assert(ss@.subrange(0, i + 1).drop_last() =~= ss@.subrange(0, i as int));
            assert(ss@.subrange(0, i + 1).last() == *s);
            assert(next == base + s.affordances@.map_values(|a: EncounterAffordance| (*s, a)));
        }
        let mut j: usize = 0;
        while j < s.affordances.len()
            invariant
                j <= s.affordances@.len(),
                next == base + s.affordances@.map_values(|a: EncounterAffordance| (*s, a)),
                out@.len() == base.len() + j,
                forall|k: int| 0 <= k < out@.len() ==> contract_is(#[trigger] out@[k], next[k].0, next[k].1),
            decreases s.affordances.len() - j,
        {
            let c = choice_contract_from_affordance(s, &s.affordances[j]);
            proof {
                assert(next[base.len() + j] == (*s, s.affordances@[j as int]));
            }
            out.push(c);
            j = j + 1;
        }
        proof {
            assert forall|k: int| 0 <= k < out@.len() implies contract_is(
                #[trigger] out@[k],
                contract_pairs(ss@.subrange(0, i + 1))[k].0,
                contract_pairs(ss@.subrange(0, i + 1))[k].1,
            ) by {
                if k < base.len() {
                    assert(next[k] == base[k]);
                }
            }
        }
        i = i + 1;
    }
    assert(ss@.subrange(0, ss@.len() as int) =~= ss@);
    out
}


// ---------------------------------------------------------------------------
// The packet.
// ---------------------------------------------------------------------------

/// The candidate surfaces of a scene, in order: one per displayed ordinary
/// choice, then the social surfaces, the exits, up to four body hazards and
/// up to four held resources.
pub open spec fn candidates_are(
    cand: Seq<EncounterSurface>,
    turn_id: Seq<char>,
    scene_id: Seq<char>,
    choices: Seq<TurnChoice>,
    pressure: ScenePressurePacket,
    g: LocationGraphPacket,
    body: BodyResourcePacket,
    social: SocialExchangePacket,
) -> bool {
    let oc = ordinary_choices(choices);
    let n1 = oc.len() as int;
    let n2 = n1 + social.active_stances@.len();
    let n3 = n2 + social.unresolved_asks@.len();
    let n4 = n3 + g.known_nearby_locations@.len();
    let n5 = n4 + min_nat(body.body_constraints@.len(), 4);
    let n6 = n5 + min_nat(body.resources@.len(), 4);
    &&& cand.len() == n6
    &&& forall|k: int| 0 <= k < n1 ==> choice_surface_is(#[trigger] cand[k], turn_id, scene_id, oc[k], pressure, g)
    &&& forall|k: int| n1 <= k < n2 ==> stance_surface_is(#[trigger] cand[k], turn_id, scene_id, social.active_stances@[k - n1])
    &&& forall|k: int| n2 <= k < n3 ==> ask_surface_is(#[trigger] cand[k], turn_id, scene_id, social.unresolved_asks@[k - n2])
    &&& forall|k: int| n3 <= k < n4 ==> location_surface_is(#[trigger] cand[k], turn_id, origin_ref(g, scene_id), g.known_nearby_locations@[k - n3])
    &&& forall|k: int| n4 <= k < n5 ==> body_surface_is(#[trigger] cand[k], turn_id, scene_id, body.body_constraints@[k - n4])
    &&& forall|k: int| n5 <= k < n6 ==> resource_surface_is(#[trigger] cand[k], turn_id, scene_id, body.resources@[k - n5])
}

/// The packet's contracts are those of its surfaces' affordances.
pub open spec fn contracts_follow(p: EncounterSurfacePacket) -> bool {
    &&& p.choice_contracts@.len() == contract_pairs(p.active_surfaces@).len()
    &&& forall|k: int|
        0 <= k < p.choice_contracts@.len() ==> contract_is(
            #[trigger] p.choice_contracts@[k],
            contract_pairs(p.active_surfaces@)[k].0,
            contract_pairs(p.active_surfaces@)[k].1,
        )
}

fn append_choice_surfaces(
    out: &mut Vec<EncounterSurface>,
    turn_id: &str,
    scene_id: &str,
    choices: &[TurnChoice],
    pressure: &ScenePressurePacket,
    g: &LocationGraphPacket,
)
    requires
        old(out)@.len() == 0,
    ensures
        final(out)@.len() == ordinary_choices(choices@).len(),
        forall|k: int|
            0 <= k < final(out)@.len() ==> choice_surface_is(
                #[trigger] final(out)@[k],
                turn_id@,
                scene_id@,
                ordinary_choices(choices@)[k],
                *pressure,
                *g,
            ),
{
    let mut i: usize = 0;
    while i < choices.len()
        invariant
            i <= choices@.len(),
            out@.len() == ordinary_choices(choices@.subrange(0, i as int)).len(),
            forall|k: int|
                0 <= k < out@.len() ==> choice_surface_is(
                    #[trigger] out@[k],
                    turn_id@,
                    scene_id@,
                    ordinary_choices(choices@.subrange(0, i as int))[k],
                    *pressure,
                    *g,
                ),
        decreases choices.len() - i,
    {
        proof {
            assert(choices@.subrange(0, i + 1).drop_last() =~= choices@.subrange(0, i as int));
        }
        let c = &choices[i];
        if 1 <= c.slot && c.slot <= 5 {
            let s = surface_from_choice(turn_id, scene_id, c, pressure, g);
            out.push(s);
        }
        i = i + 1;
    }
    assert(choices@.subrange(0, choices@.len() as int) =~= choices@);
}

/// `r` is the encounter surface packet compiled for a turn: the candidate
/// surfaces of its choices, pressures, places, body, resources and social
/// stances, most salient first, at most twelve, with their choice contracts.
pub open spec fn encounter_packet_compiled(
    r: EncounterSurfacePacket,
    world_id: Seq<char>,
    turn_id: Seq<char>,
    scene_id: Seq<char>,
    choices: Seq<TurnChoice>,
    scene_pressure: ScenePressurePacket,
    location_graph: LocationGraphPacket,
    body_resource: BodyResourcePacket,
    social_exchange: SocialExchangePacket,
) -> bool {
    &&& r.schema_version@ == ENCOUNTER_SURFACE_PACKET_SCHEMA_VERSION@
    &&& r.world_id@ == world_id
    &&& r.turn_id@ == turn_id
    &&& r.scene_id@ == scene_id
    &&& exists|cand: Seq<EncounterSurface>|
        #[trigger] candidates_are(cand, turn_id, scene_id, choices, scene_pressure, location_graph, body_resource, social_exchange)
            && r.active_surfaces@ == take_at_most(sort_surfaces(cand), 12)
    &&& r.recent_surface_changes@.len() == 0
    &&& r.blocked_interactions@.len() == 0
    &&& r.required_followups@.len() == 0
    &&& contracts_follow(r)
}

/// The encounter surface packet of a scene: its candidate surfaces, most
/// salient first and then by id, at most twelve, with one choice contract
/// per affordance.
pub fn compile_encounter_surface_packet(
    world_id: &str,
    turn_id: &str,
    scene_id: &str,
    choices: &[TurnChoice],
    scene_pressure: &ScenePressurePacket,
    location_graph: &LocationGraphPacket,
    body_resource: &BodyResourcePacket,
    social_exchange: &SocialExchangePacket,
) -> (r: EncounterSurfacePacket)
    ensures
        r.schema_version@ == ENCOUNTER_SURFACE_PACKET_SCHEMA_VERSION@,
        r.world_id@ == world_id@,
        r.turn_id@ == turn_id@,
        r.scene_id@ == scene_id@,
        exists|cand: Seq<EncounterSurface>|
            candidates_are(cand, turn_id@, scene_id@, choices@, *scene_pressure, *location_graph, *body_resource, *social_exchange)
                && r.active_surfaces@ == take_at_most(sort_surfaces(cand), 12),
        r.recent_surface_changes@.len() == 0,
        r.blocked_interactions@.len() == 0,
        r.required_followups@.len() == 0,
        contracts_follow(r),        encounter_packet_compiled(
            r,
            world_id@,
            turn_id@,
            scene_id@,
            choices@,
            *scene_pressure,
            *location_graph,
            *body_resource,
            *social_exchange,
        ),
{
    let mut surfaces: Vec<EncounterSurface> = Vec::new();
    append_choice_surfaces(&mut surfaces, turn_id, scene_id, choices, scene_pressure, location_graph);
    let ghost s1 = surfaces@;
    social_surfaces(&mut surfaces, turn_id, scene_id, social_exchange);
    let ghost s2 = surfaces@;
    append_location_surfaces(&mut surfaces, turn_id, scene_id, location_graph);
    let ghost s3 = surfaces@;
    append_body_surfaces(&mut surfaces, turn_id, scene_id, body_resource);
    let ghost s4 = surfaces@;
    append_resource_surfaces(&mut surfaces, turn_id, scene_id, body_resource);
    let ghost cand = surfaces@;
    proof {
        let oc = ordinary_choices(choices@);
        let n1 = oc.len() as int;
        let n2 = n1 + social_exchange.active_stances@.len();
        let n3 = n2 + social_exchange.unresolved_asks@.len();
        let n4 = n3 + location_graph.known_nearby_locations@.len();
        let n5 = n4 + min_nat(body_resource.body_constraints@.len(), 4);
        assert forall|k: int| 0 <= k < n1 implies cand[k] == s1[k] by {
            assert(cand[k] == s4.subrange(0, s4.len() as int)[k]);
            assert(s4[k] == s3.subrange(0, s3.len() as int)[k]);
            assert(s3[k] == s2.subrange(0, s2.len() as int)[k]);
            assert(s2[k] == s2.subrange(0, s1.len() as int)[k]);
        }
        assert forall|k: int| n1 <= k < n3 implies cand[k] == s2[k] by {
            assert(cand[k] == cand.subrange(0, s4.len() as int)[k]);
            assert(s4[k] == s4.subrange(0, s3.len() as int)[k]);
            assert(s3[k] == s3.subrange(0, s2.len() as int)[k]);
        }
        assert forall|k: int| n3 <= k < n4 implies cand[k] == s3[k] by {
            assert(cand[k] == cand.subrange(0, s4.len() as int)[k]);
            assert(s4[k] == s4.subrange(0, s3.len() as int)[k]);
        }
        assert forall|k: int| n4 <= k < n5 implies cand[k] == s4[k] by {
            assert(cand[k] == cand.subrange(0, s4.len() as int)[k]);
        }
        let n6 = n5 + min_nat(body_resource.resources@.len(), 4);
        assert forall|k: int| 0 <= k < n1 implies choice_surface_is(#[trigger] cand[k], turn_id@, scene_id@, oc[k], *scene_pressure, *location_graph) by {
            assert(choice_surface_is(s1[k], turn_id@, scene_id@, oc[k], *scene_pressure, *location_graph));
        }
        assert forall|k: int| n1 <= k < n2 implies stance_surface_is(#[trigger] cand[k], turn_id@, scene_id@, social_exchange.active_stances@[k - n1]) by {
            assert(stance_surface_is(s2[s1.len() + (k - n1)], turn_id@, scene_id@, social_exchange.active_stances@[k - n1]));
        }
        assert forall|k: int| n2 <= k < n3 implies ask_surface_is(#[trigger] cand[k], turn_id@, scene_id@, social_exchange.unresolved_asks@[k - n2]) by {
            assert(ask_surface_is(s2[s1.len() + social_exchange.active_stances@.len() + (k - n2)], turn_id@, scene_id@, social_exchange.unresolved_asks@[k - n2]));
        }
        assert forall|k: int| n3 <= k < n4 implies location_surface_is(#[trigger] cand[k], turn_id@, origin_ref(*location_graph, scene_id@), location_graph.known_nearby_locations@[k - n3]) by {
            assert(location_surface_is(s3[s2.len() + (k - n3)], turn_id@, origin_ref(*location_graph, scene_id@), location_graph.known_nearby_locations@[k - n3]));
        }
        assert forall|k: int| n4 <= k < n5 implies body_surface_is(#[trigger] cand[k], turn_id@, scene_id@, body_resource.body_constraints@[k - n4]) by {
            assert(body_surface_is(s4[s3.len() + (k - n4)], turn_id@, scene_id@, body_resource.body_constraints@[k - n4]));
        }
        assert forall|k: int| n5 <= k < n6 implies resource_surface_is(#[trigger] cand[k], turn_id@, scene_id@, body_resource.resources@[k - n5]) by {
            assert(resource_surface_is(cand[s4.len() + (k - n5)], turn_id@, scene_id@, body_resource.resources@[k - n5]));
        }
        assert(candidates_are(cand, turn_id@, scene_id@, choices@, *scene_pressure, *location_graph, *body_resource, *social_exchange));
    }
    let mut sorted = sort_encounter_surfaces(surfaces);
    proof {
        lemma_sort_surfaces_len(cand);
    }
    sorted.truncate(ACTIVE_SURFACE_BUDGET);
    assert(sorted@ == take_at_most(sort_surfaces(cand), 12));
    let choice_contracts = compile_choice_contracts(&sorted);
    EncounterSurfacePacket {
        schema_version: String::from_str(ENCOUNTER_SURFACE_PACKET_SCHEMA_VERSION),
        world_id: String::from_str(world_id),
        turn_id: String::from_str(turn_id),
        scene_id: String::from_str(scene_id),
        active_surfaces: sorted,
        recent_surface_changes: Vec::new(),
        blocked_interactions: Vec::new(),
        required_followups: Vec::new(),
        choice_contracts,
        compiler_policy: EncounterSurfacePolicy::default(),
    }
}

/// The surface a displayed choice makes offers nothing to act on while it is
/// blocked or locked: every affordance on it is blocked.
pub proof fn law_blocked_choice_surface_blocks_affordances(
    s: EncounterSurface,
    turn_id: Seq<char>,
    scene_id: Seq<char>,
    c: TurnChoice,
    pressure: ScenePressurePacket,
    graph: LocationGraphPacket,
)
    requires
        choice_surface_is(s, turn_id, scene_id, c, pressure, graph),
        s.status == EncounterSurfaceStatus::Blocked || s.status == EncounterSurfaceStatus::Locked,
    ensures
        forall|j: int|
            0 <= j < s.affordances@.len() ==> (#[trigger] s.affordances@[j]).availability
                == AffordanceAvailability::Blocked,
{
}

/// The mutation a displayed choice makes carries only blocked affordances
/// while its surface is blocked or locked.
pub proof fn law_blocked_choice_mutation_blocks_affordances(
    m: EncounterSurfaceMutation,
    turn_id: Seq<char>,
    scene_id: Seq<char>,
    c: TurnChoice,
    pressure_refs: Seq<Seq<char>>,
    source_refs: Seq<Seq<char>>,
)
    requires
        choice_mutation_is(m, turn_id, scene_id, c, pressure_refs, source_refs),
        m.status == EncounterSurfaceStatus::Blocked || m.status == EncounterSurfaceStatus::Locked,
    ensures
        forall|j: int|
            0 <= j < m.affordances@.len() ==> (#[trigger] m.affordances@[j]).availability
                == AffordanceAvailability::Blocked,
{
}

/// The mutation a blocking resolution gate makes carries only blocked
/// affordances.
pub proof fn law_blocked_gate_mutation_blocks_affordances(
    g: EncounterSurfaceMutation,
    current: EncounterSurfacePacket,
    gate_kind: GateKind,
    gate_status: GateStatus,
    gate_ref: Seq<char>,
    reason: Seq<char>,
    evidence: Seq<Seq<char>>,
    index: int,
)
    requires
        gate_mutation_is(g, current, gate_kind, gate_status, gate_ref, reason, evidence, index),
        g.status == EncounterSurfaceStatus::Blocked || g.status == EncounterSurfaceStatus::Locked,
    ensures
        forall|j: int|
            0 <= j < g.affordances@.len() ==> (#[trigger] g.affordances@[j]).availability
                == AffordanceAvailability::Blocked,
{
}

/// No surface of a compiled encounter packet that is blocked or locked offers
/// an affordance as available.
pub proof fn law_compiled_blocked_surfaces_offer_nothing_available(
    r: EncounterSurfacePacket,
    world_id: Seq<char>,
    turn_id: Seq<char>,
    scene_id: Seq<char>,
    choices: Seq<TurnChoice>,
    scene_pressure: ScenePressurePacket,
    location_graph: LocationGraphPacket,
    body_resource: BodyResourcePacket,
    social_exchange: SocialExchangePacket,
)
    requires
        encounter_packet_compiled(
            r,
            world_id,
            turn_id,
            scene_id,
            choices,
            scene_pressure,
            location_graph,
            body_resource,
            social_exchange,
        ),
    ensures
        forall|k: int, j: int|
            0 <= k < r.active_surfaces@.len() && (r.active_surfaces@[k].status
                == EncounterSurfaceStatus::Blocked || r.active_surfaces@[k].status
                == EncounterSurfaceStatus::Locked) && 0 <= j
                < r.active_surfaces@[k].affordances@.len() ==> (
            #[trigger] r.active_surfaces@[k].affordances@[j]).availability
                != AffordanceAvailability::Available,
{
    let cand = choose|cand: Seq<EncounterSurface>|
        #[trigger] candidates_are(cand, turn_id, scene_id, choices, scene_pressure, location_graph, body_resource, social_exchange)
            && r.active_surfaces@ == take_at_most(sort_surfaces(cand), 12);
    let sorted = sort_surfaces(cand);
    law_sorted_surfaces_are_ordered_permutation(cand);
    let oc = ordinary_choices(choices);
    let n1 = oc.len() as int;
    let n2 = n1 + social_exchange.active_stances@.len();
    let n3 = n2 + social_exchange.unresolved_asks@.len();
    let n4 = n3 + location_graph.known_nearby_locations@.len();
    let n5 = n4 + min_nat(body_resource.body_constraints@.len(), 4);
    assert forall|k: int, j: int|
        0 <= k < r.active_surfaces@.len() && (r.active_surfaces@[k].status
            == EncounterSurfaceStatus::Blocked || r.active_surfaces@[k].status
            == EncounterSurfaceStatus::Locked) && 0 <= j
            < r.active_surfaces@[k].affordances@.len() implies (
        #[trigger] r.active_surfaces@[k].affordances@[j]).availability
            != AffordanceAvailability::Available by {
        let x = r.active_surfaces@[k];
        assert(x == sorted[k]);
        assert(sorted.contains(x));
        sorted.to_multiset_ensures();
        cand.to_multiset_ensures();
        assert(sorted.to_multiset().count(x) > 0);
        assert(cand.to_multiset().count(x) > 0);
        assert(cand.contains(x));
        let m = choose|m: int| 0 <= m < cand.len() && cand[m] == x;
        if m < n1 {
            assert(choice_surface_is(cand[m], turn_id, scene_id, oc[m], scene_pressure, location_graph));
        } else if m < n2 {
            assert(stance_surface_is(cand[m], turn_id, scene_id, social_exchange.active_stances@[m - n1]));
        } else if m < n3 {
            assert(ask_surface_is(cand[m], turn_id, scene_id, social_exchange.unresolved_asks@[m - n2]));
        } else if m < n4 {
            assert(location_surface_is(cand[m], turn_id, origin_ref(location_graph, scene_id), location_graph.known_nearby_locations@[m - n3]));
        } else if m < n5 {
            assert(body_surface_is(cand[m], turn_id, scene_id, body_resource.body_constraints@[m - n4]));
        } else {
            assert(resource_surface_is(cand[m], turn_id, scene_id, body_resource.resources@[m - n5]));
        }
    }
}

} // verus!
