//! The promise ledger (hooks owed a payoff) and unchosen-choice echoes.
use crate::clock::now_rfc3339;
use crate::models::TurnChoice;
use crate::text::{
    clone_strings, concat2, concat3, concat4, contains, contains_str, dec, dec_string, dedupe,
    dedupe_strings, is_blank, is_blank_str, str_eq, to_lowercase, unicode_lowercase, views,
};
use vstd::prelude::*;

verus! {

pub const HOOK_LEDGER_PACKET_SCHEMA_VERSION: &'static str = "singulari.hook_ledger_packet.v1";
pub const HOOK_LEDGER_STATE_SCHEMA_VERSION: &'static str = "singulari.hook_ledger_state.v1";
pub const HOOK_EVENT_SCHEMA_VERSION: &'static str = "singulari.hook_event.v1";
pub const OFFERED_CHOICE_SET_SCHEMA_VERSION: &'static str = "singulari.offered_choice_set.v1";
pub const UNCHOSEN_ECHO_SCHEMA_VERSION: &'static str = "singulari.unchosen_echo.v1";
pub const ECHO_LEDGER_STATE_SCHEMA_VERSION: &'static str = "singulari.echo_ledger_state.v1";
pub const SESSION_RECEIPT_SCHEMA_VERSION: &'static str = "singulari.session_receipt.v1";

pub const HOOK_THREADS_FILENAME: &'static str = "hook_threads.json";
pub const HOOK_EVENTS_FILENAME: &'static str = "hook_events.jsonl";
pub const OFFERED_CHOICE_SETS_FILENAME: &'static str = "offered_choice_sets.jsonl";
pub const UNCHOSEN_ECHOES_FILENAME: &'static str = "unchosen_echoes.json";
pub const SESSION_RECEIPT_FILENAME: &'static str = "session_receipt.json";

#[derive(Debug, Clone)]
pub struct HookPacket {
    pub schema_version: String,
    pub world_id: String,
    pub turn_id: String,
    pub active_promises: Vec<HookThread>,
    pub due_promises: Vec<HookThread>,
    pub active_echoes: Vec<UnchosenEcho>,
    pub returning_echoes: Vec<UnchosenEcho>,
    pub choice_biases: Vec<HookChoiceBias>,
    pub tea_recap: TeaRecap,
    pub compiler_policy: HookLedgerPolicy,
}

#[derive(Debug, Clone)]
pub struct HookLedgerState {
    pub schema_version: String,
    pub world_id: String,
    pub turn_id: String,
    pub active_threads: Vec<HookThread>,
    pub compiler_policy: HookLedgerPolicy,
}

#[derive(Debug, Clone)]
pub struct EchoLedgerState {
    pub schema_version: String,
    pub world_id: String,
    pub turn_id: String,
    pub active_echoes: Vec<UnchosenEcho>,
    pub compiler_policy: HookLedgerPolicy,
}

#[derive(Debug, Clone)]
pub struct HookLedgerPolicy {
    pub source: String,
    pub max_new_promises_per_turn: u8,
    pub max_new_echoes_per_turn: u8,
    pub max_teases_without_progress: u8,
    pub use_rules: Vec<String>,
}

#[derive(Debug, Clone)]
pub struct HookThread {
    pub hook_id: String,
    pub kind: HookKind,
    pub visible_promise: String,
    pub anchor_refs: Vec<String>,
    pub evidence_refs: Vec<String>,
    pub opened_by_event: String,
    pub payoff_contract: PayoffContract,
    pub return_rights: HookReturnRights,
    pub fatigue_score: u8,
    pub status: HookStatus,
    pub opened_turn_id: String,
    pub last_touched_turn_id: String,
}

#[derive(Debug, Clone, Copy, PartialEq, Eq, Structural)]
pub enum HookKind {
    Mystery,
    RelationshipDebt,
    PlaceMemory,
    BodyScar,
    ProcessCountdown,
    Rumor,
    PersonalAnchor,
}

#[derive(Debug, Clone, Copy, PartialEq, Eq, Structural)]
pub enum HookStatus {
    Opened,
    Progressing,
    PayoffDue,
    PaidOff,
    Suppressed,
    Archived,
}

#[derive(Debug, Clone)]
pub struct PayoffContract {
    pub owed_payoff: Vec<PayoffKind>,
    pub minimum_progress_interval: u32,
    pub max_teases_without_progress: u8,
    pub possible_resolutions: Vec<ResolutionMode>,
}

#[derive(Debug, Clone, Copy, PartialEq, Eq, Structural)]
pub enum PayoffKind {
    Progress,
    Reveal,
    RelationshipShift,
    Cost,
    AccessChange,
    Reframe,
}

#[derive(Debug, Clone, Copy, PartialEq, Eq, Structural)]
pub enum ResolutionMode {
    Clarified,
    Misread,
    PaidCost,
    RelationshipChanged,
    Transformed,
}

#[derive(Debug, Clone)]
pub struct HookReturnRights {
    pub touch_conditions: Vec<TouchCondition>,
    pub may_bias_choice: bool,
    pub may_enter_recap: bool,
}

#[derive(Debug, Clone, Copy, PartialEq, Eq, Structural)]
pub enum TouchCondition {
    SceneContact,
    SameLocation,
    SameActor,
    ProcessTick,
    SessionEnd,
    PlayerAsks,
}

#[derive(Debug, Clone)]
pub struct OmissionProfile {
    pub can_create_echo: bool,
    pub echo_weight: u8,
    pub omission_meaning: OmissionMeaning,
    pub visible_stakes: Vec<String>,
    pub return_conditions: Vec<TouchCondition>,
    pub non_punitive: bool,
}

#[derive(Debug, Clone, Copy, PartialEq, Eq, Structural)]
pub enum OmissionMeaning {
    UnaskedQuestion,
    IgnoredSurface,
    DeferredCare,
    UnchallengedLie,
    UnusedLeverage,
    UnansweredAppeal,
    UnspokenName,
}

#[derive(Debug, Clone)]
pub struct OfferedChoiceSet {
    pub schema_version: String,
    pub world_id: String,
    pub turn_id: String,
    pub scene_id: String,
    pub choices: Vec<OfferedChoice>,
    pub visible_context_refs: Vec<String>,
    pub recorded_at: String,
}

#[derive(Debug, Clone)]
pub struct OfferedChoice {
    pub choice_id: String,
    pub slot: u8,
    pub visible_label: String,
    pub visible_intent: String,
    pub evidence_refs: Vec<String>,
    pub omission_profile: OmissionProfile,
}

#[derive(Debug, Clone)]
pub struct UnchosenEcho {
    pub schema_version: String,
    pub echo_id: String,
    pub source_turn_id: String,
    pub unchosen_choice_id: String,
    pub visible_summary: String,
    pub implied_meaning: Option<String>,
    pub anchor_refs: Vec<String>,
    pub evidence_refs: Vec<String>,
    pub return_conditions: Vec<TouchCondition>,
    pub possible_payoffs: Vec<PayoffKind>,
    pub decay: DecayMode,
    pub status: EchoStatus,
    pub created_turn_id: String,
}

#[derive(Debug, Clone, Copy, PartialEq, Eq, Structural)]
pub enum DecayMode {
    SoftenAfterScene,
    ArchiveAfterPayoff,
    LongAnchor,
}

#[derive(Debug, Clone, Copy, PartialEq, Eq, Structural)]
pub enum EchoStatus {
    Active,
    Returning,
    PaidOff,
    Softened,
    Archived,
}

#[derive(Debug, Clone)]
pub struct HookChoiceBias {
    pub source_ref: String,
    pub target_ref: String,
    pub bias: String,
    pub evidence_refs: Vec<String>,
}

#[derive(Debug, Clone)]
pub struct TeaRecap {
    pub schema_version: String,
    pub remaining_fragrance: Vec<String>,
    pub remaining_words: Vec<String>,
    pub residual_heat: Vec<String>,
}

#[derive(Debug, Clone)]
pub struct SessionReceipt {
    pub schema_version: String,
    pub world_id: String,
    pub turn_id: String,
    pub tea_recap: TeaRecap,
    pub updated_at: String,
}

#[derive(Debug, Clone)]
pub struct AgentHookEvent {
    pub schema_version: String,
    pub event_kind: HookEventKind,
    pub hook_id: String,
    pub kind: HookKind,
    pub visible_promise: String,
    pub anchor_refs: Vec<String>,
    pub evidence_refs: Vec<String>,
    pub opened_by_event: String,
    pub payoff_contract: PayoffContract,
    pub return_rights: HookReturnRights,
    pub summary: String,
}

#[derive(Debug, Clone, Copy, PartialEq, Eq, Structural)]
pub enum HookEventKind {
    Opened,
    Progressed,
    PayoffDue,
    PaidOff,
    Suppressed,
}

#[derive(Debug, Clone)]
pub struct HookEventRecord {
    pub schema_version: String,
    pub world_id: String,
    pub turn_id: String,
    pub event_kind: HookEventKind,
    pub hook_id: String,
    pub kind: HookKind,
    pub visible_promise: String,
    pub anchor_refs: Vec<String>,
    pub evidence_refs: Vec<String>,
    pub opened_by_event: String,
    pub payoff_contract: PayoffContract,
    pub return_rights: HookReturnRights,
    pub recorded_at: String,
}

/// Why agent-authored hook events were refused.
#[derive(Debug, Clone)]
pub enum HookLedgerError {
    TooManyPromiseEvents { actual: usize },
    MissingHookId,
    MissingVisiblePromise { hook_id: String },
    MissingEvidenceRefs { hook_id: String, visible_promise: String },
    MissingOpenedByEvent { hook_id: String },
    MissingPayoffContract { hook_id: String },
}

impl HookLedgerError {
    pub fn message(&self) -> (r: String)
        ensures
            r@ == match self {
                HookLedgerError::TooManyPromiseEvents { actual } => "hook ledger accepts at most one new promise event per turn: actual="@
                    + dec(*actual as nat),
                HookLedgerError::MissingHookId => "hook event missing hook_id"@,
                HookLedgerError::MissingVisiblePromise { hook_id } => "hook event missing visible_promise: hook_id="@
                    + hook_id@,
                HookLedgerError::MissingEvidenceRefs { hook_id, visible_promise } => "hook event missing evidence_refs: hook_id="@
                    + hook_id@ + ", visible_promise="@ + visible_promise@,
                HookLedgerError::MissingOpenedByEvent { hook_id } => "hook event missing opened_by_event: hook_id="@
                    + hook_id@,
                HookLedgerError::MissingPayoffContract { hook_id } => "hook event missing payoff contract: hook_id="@
                    + hook_id@,
            },
    {
        match self {
            HookLedgerError::TooManyPromiseEvents { actual } => {
                let n = dec_string(*actual as u64);
                concat2(
                    "hook ledger accepts at most one new promise event per turn: actual=",
                    n.as_str(),
                )
            },
            HookLedgerError::MissingHookId => String::from_str("hook event missing hook_id"),
            HookLedgerError::MissingVisiblePromise { hook_id } => concat2(
                "hook event missing visible_promise: hook_id=",
                hook_id.as_str(),
            ),
            HookLedgerError::MissingEvidenceRefs { hook_id, visible_promise } => concat4(
                "hook event missing evidence_refs: hook_id=",
                hook_id.as_str(),
                ", visible_promise=",
                visible_promise.as_str(),
            ),
            HookLedgerError::MissingOpenedByEvent { hook_id } => concat2(
                "hook event missing opened_by_event: hook_id=",
                hook_id.as_str(),
            ),
            HookLedgerError::MissingPayoffContract { hook_id } => concat2(
                "hook event missing payoff contract: hook_id=",
                hook_id.as_str(),
            ),
        }
    }
}

// ---------------------------------------------------------------------------
// Defaults.
// ---------------------------------------------------------------------------

impl Default for HookLedgerPolicy {
    fn default() -> (r: Self)
        ensures
            r.max_new_promises_per_turn == 1,
            r.max_new_echoes_per_turn == 1,
            r.max_teases_without_progress == 3,
            r.source@ == "promise_ledger_unchosen_echoes_mvp"@,
    {
        let mut use_rules = Vec::new();
        use_rules.push(
            String::from_str("HookPacket is a player-visible advisory packet, not hidden truth."),
        );
        use_rules.push(String::from_str("Promises must be evidence-backed and payoff-bound."));
        use_rules.push(
            String::from_str("Unchosen Echoes must come from choices actually shown to the player."),
        );
        use_rules.push(
            String::from_str("Echoes are non-punitive and may not encode real-time FOMO."),
        );
        HookLedgerPolicy {
            source: String::from_str("promise_ledger_unchosen_echoes_mvp"),
            max_new_promises_per_turn: 1,
            max_new_echoes_per_turn: 1,
            max_teases_without_progress: 3,
            use_rules,
        }
    }
}

impl Default for PayoffContract {
    fn default() -> (r: Self)
        ensures
            r.owed_payoff@ == seq![PayoffKind::Progress],
            r.minimum_progress_interval == 3,
            r.max_teases_without_progress == 3,
            r.possible_resolutions@ == seq![ResolutionMode::Clarified, ResolutionMode::Transformed],
    {
        let mut owed_payoff = Vec::new();
        owed_payoff.push(PayoffKind::Progress);
        let mut possible_resolutions = Vec::new();
        possible_resolutions.push(ResolutionMode::Clarified);
        possible_resolutions.push(ResolutionMode::Transformed);
        PayoffContract {
            owed_payoff,
            minimum_progress_interval: 3,
            max_teases_without_progress: 3,
            possible_resolutions,
        }
    }
}

impl Default for HookReturnRights {
    fn default() -> (r: Self)
        ensures
            r.touch_conditions@ == seq![TouchCondition::SceneContact],
            r.may_bias_choice,
            r.may_enter_recap,
    {
        let mut touch_conditions = Vec::new();
        touch_conditions.push(TouchCondition::SceneContact);
        HookReturnRights { touch_conditions, may_bias_choice: true, may_enter_recap: true }
    }
}

impl Default for OmissionProfile {
    fn default() -> (r: Self)
        ensures
            !r.can_create_echo,
            r.echo_weight == 0,
            r.omission_meaning == OmissionMeaning::IgnoredSurface,
            r.visible_stakes@.len() == 0,
            r.return_conditions@ == seq![TouchCondition::SceneContact],
            r.non_punitive,
    {
        let mut return_conditions = Vec::new();
        return_conditions.push(TouchCondition::SceneContact);
        OmissionProfile {
            can_create_echo: false,
            echo_weight: 0,
            omission_meaning: OmissionMeaning::IgnoredSurface,
            visible_stakes: Vec::new(),
            return_conditions,
            non_punitive: true,
        }
    }
}

impl Default for TeaRecap {
    fn default() -> (r: Self)
        ensures
            r.schema_version@ == SESSION_RECEIPT_SCHEMA_VERSION@,
            r.remaining_fragrance@.len() == 0,
            r.remaining_words@.len() == 0,
            r.residual_heat@.len() == 0,
    {
        TeaRecap {
            schema_version: String::from_str(SESSION_RECEIPT_SCHEMA_VERSION),
            remaining_fragrance: Vec::new(),
            remaining_words: Vec::new(),
            residual_heat: Vec::new(),
        }
    }
}

impl HookLedgerState {
    pub fn empty(world_id: &str, turn_id: &str) -> (r: Self)
        ensures
            r.schema_version@ == HOOK_LEDGER_STATE_SCHEMA_VERSION@,
            r.world_id@ == world_id@,
            r.turn_id@ == turn_id@,
            r.active_threads@.len() == 0,
    {
        HookLedgerState {
            schema_version: String::from_str(HOOK_LEDGER_STATE_SCHEMA_VERSION),
            world_id: String::from_str(world_id),
            turn_id: String::from_str(turn_id),
            active_threads: Vec::new(),
            compiler_policy: HookLedgerPolicy::default(),
        }
    }
}

impl EchoLedgerState {
    pub fn empty(world_id: &str, turn_id: &str) -> (r: Self)
        ensures
            r.schema_version@ == ECHO_LEDGER_STATE_SCHEMA_VERSION@,
            r.world_id@ == world_id@,
            r.turn_id@ == turn_id@,
            r.active_echoes@.len() == 0,
    {
        EchoLedgerState {
            schema_version: String::from_str(ECHO_LEDGER_STATE_SCHEMA_VERSION),
            world_id: String::from_str(world_id),
            turn_id: String::from_str(turn_id),
            active_echoes: Vec::new(),
            compiler_policy: HookLedgerPolicy::default(),
        }
    }
}

impl Default for HookPacket {
    fn default() -> (r: Self)
        ensures
            r.schema_version@ == HOOK_LEDGER_PACKET_SCHEMA_VERSION@,
            r.active_promises@.len() == 0,
            r.active_echoes@.len() == 0,
    {
        HookPacket {
            schema_version: String::from_str(HOOK_LEDGER_PACKET_SCHEMA_VERSION),
            world_id: String::new(),
            turn_id: String::new(),
            active_promises: Vec::new(),
            due_promises: Vec::new(),
            active_echoes: Vec::new(),
            returning_echoes: Vec::new(),
            choice_biases: Vec::new(),
            tea_recap: TeaRecap::default(),
            compiler_policy: HookLedgerPolicy::default(),
        }
    }
}

pub fn default_hook_event_schema() -> (r: String)
    ensures
        r@ == HOOK_EVENT_SCHEMA_VERSION@,
{
    String::from_str(HOOK_EVENT_SCHEMA_VERSION)
}

// ---------------------------------------------------------------------------
// Copies.
// ---------------------------------------------------------------------------

fn copy_payoffs(v: &Vec<PayoffKind>) -> (r: Vec<PayoffKind>)
    ensures
        r@ == v@,
{
    let mut out = Vec::new();
    let mut i: usize = 0;
    while i < v.len()
        invariant
            i <= v.len(),
            out@ == v@.subrange(0, i as int),
        decreases v.len() - i,
    {
        out.push(v[i]);
        assert(out@ =~= v@.subrange(0, i + 1));
        i = i + 1;
    }
    assert(out@ =~= v@);
    out
}

fn copy_resolutions(v: &Vec<ResolutionMode>) -> (r: Vec<ResolutionMode>)
    ensures
        r@ == v@,
{
    let mut out = Vec::new();
    let mut i: usize = 0;
    while i < v.len()
        invariant
            i <= v.len(),
            out@ == v@.subrange(0, i as int),
        decreases v.len() - i,
    {
        out.push(v[i]);
        assert(out@ =~= v@.subrange(0, i + 1));
        i = i + 1;
    }
    assert(out@ =~= v@);
    out
}

fn copy_touches(v: &Vec<TouchCondition>) -> (r: Vec<TouchCondition>)
    ensures
        r@ == v@,
{
    let mut out = Vec::new();
    let mut i: usize = 0;
    while i < v.len()
        invariant
            i <= v.len(),
            out@ == v@.subrange(0, i as int),
        decreases v.len() - i,
    {
        out.push(v[i]);
        assert(out@ =~= v@.subrange(0, i + 1));
        i = i + 1;
    }
    assert(out@ =~= v@);
    out
}

pub open spec fn contract_same(a: PayoffContract, b: PayoffContract) -> bool {
    a.owed_payoff@ == b.owed_payoff@ && a.minimum_progress_interval == b.minimum_progress_interval
        && a.max_teases_without_progress == b.max_teases_without_progress
        && a.possible_resolutions@ == b.possible_resolutions@
}

pub open spec fn rights_same(a: HookReturnRights, b: HookReturnRights) -> bool {
    a.touch_conditions@ == b.touch_conditions@ && a.may_bias_choice == b.may_bias_choice
        && a.may_enter_recap == b.may_enter_recap
}

fn copy_contract(c: &PayoffContract) -> (r: PayoffContract)
    ensures
        contract_same(r, *c),
{
    PayoffContract {
        owed_payoff: copy_payoffs(&c.owed_payoff),
        minimum_progress_interval: c.minimum_progress_interval,
        max_teases_without_progress: c.max_teases_without_progress,
        possible_resolutions: copy_resolutions(&c.possible_resolutions),
    }
}

fn copy_rights(c: &HookReturnRights) -> (r: HookReturnRights)
    ensures
        rights_same(r, *c),
{
    HookReturnRights {
        touch_conditions: copy_touches(&c.touch_conditions),
        may_bias_choice: c.may_bias_choice,
        may_enter_recap: c.may_enter_recap,
    }
}

/// Two hook events carry the same content.
pub open spec fn hook_event_same(a: AgentHookEvent, b: AgentHookEvent) -> bool {
    &&& a.schema_version@ == b.schema_version@
    &&& a.event_kind == b.event_kind
    &&& a.hook_id@ == b.hook_id@
    &&& a.kind == b.kind
    &&& a.visible_promise@ == b.visible_promise@
    &&& views(a.anchor_refs@) == views(b.anchor_refs@)
    &&& views(a.evidence_refs@) == views(b.evidence_refs@)
    &&& a.opened_by_event@ == b.opened_by_event@
    &&& contract_same(a.payoff_contract, b.payoff_contract)
    &&& rights_same(a.return_rights, b.return_rights)
    &&& a.summary@ == b.summary@
}

fn copy_hook_event(e: &AgentHookEvent) -> (r: AgentHookEvent)
    ensures
        hook_event_same(r, *e),
{
    AgentHookEvent {
        schema_version: e.schema_version.clone(),
        event_kind: e.event_kind,
        hook_id: e.hook_id.clone(),
        kind: e.kind,
        visible_promise: e.visible_promise.clone(),
        anchor_refs: clone_strings(&e.anchor_refs),
        evidence_refs: clone_strings(&e.evidence_refs),
        opened_by_event: e.opened_by_event.clone(),
        payoff_contract: copy_contract(&e.payoff_contract),
        return_rights: copy_rights(&e.return_rights),
        summary: e.summary.clone(),
    }
}

// ---------------------------------------------------------------------------
// Agent hook events.
// ---------------------------------------------------------------------------

/// The first check an agent hook event fails, in checking order.
pub open spec fn hook_event_fault(e: AgentHookEvent) -> Option<u8> {
    if is_blank(e.hook_id@) {
        Some(1)
    } else if is_blank(e.visible_promise@) {
        Some(2)
    } else if e.evidence_refs@.len() == 0 {
        Some(3)
    } else if is_blank(e.opened_by_event@) {
        Some(4)
    } else if e.payoff_contract.owed_payoff@.len() == 0
        || e.payoff_contract.possible_resolutions@.len() == 0 {
        Some(5)
    } else {
        None
    }
}

pub open spec fn is_hook_event_error(err: HookLedgerError, e: AgentHookEvent) -> bool {
    match hook_event_fault(e) {
        Some(1) => err is MissingHookId,
        Some(2) => err matches HookLedgerError::MissingVisiblePromise { hook_id } && hook_id@
            == e.hook_id@,
        Some(3) => err matches HookLedgerError::MissingEvidenceRefs { hook_id, visible_promise }
            && hook_id@ == e.hook_id@ && visible_promise@ == e.visible_promise@,
        Some(4) => err matches HookLedgerError::MissingOpenedByEvent { hook_id } && hook_id@
            == e.hook_id@,
        Some(5) => err matches HookLedgerError::MissingPayoffContract { hook_id } && hook_id@
            == e.hook_id@,
        _ => false,
    }
}

/// Validates agent hook events before they enter the authoritative ledger:
/// at most one per turn, each with an id, a visible promise, evidence, an
/// opener and a payoff contract.
pub fn accepted_agent_hook_events(events: &[AgentHookEvent]) -> (r: Result<
    Vec<AgentHookEvent>,
    HookLedgerError,
>)
    ensures
        match r {
            Ok(accepted) => {
                &&& events@.len() <= 1
                &&& accepted@.len() == events@.len()
                &&& forall|i: int|
                    0 <= i < events@.len() ==> hook_event_fault(#[trigger] events@[i]) is None
                        && hook_event_same(accepted@[i], events@[i])
            },
            Err(err) => if events@.len() > 1 {
                err matches HookLedgerError::TooManyPromiseEvents { actual } && actual
                    == events@.len()
            } else {
                exists|i: int|
                    0 <= i < events@.len() && (forall|k: int|
                        0 <= k < i ==> hook_event_fault(#[trigger] events@[k]) is None)
                        && is_hook_event_error(err, events@[i])
            },
        },
{
    let policy = HookLedgerPolicy::default();
    if events.len() > policy.max_new_promises_per_turn as usize {
        return Err(HookLedgerError::TooManyPromiseEvents { actual: events.len() });
    }
    let mut accepted: Vec<AgentHookEvent> = Vec::new();
    let mut i: usize = 0;
    while i < events.len()
        invariant
            i <= events@.len(),
            events@.len() <= 1,
            accepted@.len() == i,
            forall|k: int|
                0 <= k < i ==> hook_event_fault(#[trigger] events@[k]) is None && hook_event_same(
                    accepted@[k],
                    events@[k],
                ),
        decreases events.len() - i,
    {
        let event = &events[i];
        if is_blank_str(event.hook_id.as_str()) {
            return Err(HookLedgerError::MissingHookId);
        }
        if is_blank_str(event.visible_promise.as_str()) {
            return Err(HookLedgerError::MissingVisiblePromise { hook_id: event.hook_id.clone() });
        }
        if event.evidence_refs.len() == 0 {
            return Err(
                HookLedgerError::MissingEvidenceRefs {
                    hook_id: event.hook_id.clone(),
                    visible_promise: event.visible_promise.clone(),
                },
            );
        }
        if is_blank_str(event.opened_by_event.as_str()) {
            return Err(HookLedgerError::MissingOpenedByEvent { hook_id: event.hook_id.clone() });
        }
        if event.payoff_contract.owed_payoff.len() == 0
            || event.payoff_contract.possible_resolutions.len() == 0 {
            return Err(HookLedgerError::MissingPayoffContract { hook_id: event.hook_id.clone() });
        }
        accepted.push(copy_hook_event(event));
        i = i + 1;
    }
    Ok(accepted)
}

// ---------------------------------------------------------------------------
// Omission profiles and unchosen echoes.
// ---------------------------------------------------------------------------

pub open spec fn any_social_tag(tags: Seq<String>) -> bool {
    exists|i: int| 0 <= i < tags.len() && contains(#[trigger] tags[i]@, "social"@)
}

pub open spec fn omission_meaning_of(text: Seq<char>, tags: Seq<String>) -> OmissionMeaning {
    if contains(text, "묻"@) || contains(text, "질문"@) {
        OmissionMeaning::UnaskedQuestion
    } else if contains(text, "이름"@) || contains(text, "정체"@) {
        OmissionMeaning::UnspokenName
    } else if contains(text, "돌보"@) || contains(text, "치료"@) || contains(text, "쉰"@) {
        OmissionMeaning::DeferredCare
    } else if contains(text, "거짓"@) || contains(text, "모순"@) {
        OmissionMeaning::UnchallengedLie
    } else if contains(text, "단서"@) || contains(text, "증거"@) || contains(text, "이용"@) {
        OmissionMeaning::UnusedLeverage
    } else if contains(text, "요청"@) || contains(text, "도와"@) || contains(text, "시선"@)
        || any_social_tag(tags) {
        OmissionMeaning::UnansweredAppeal
    } else {
        OmissionMeaning::IgnoredSurface
    }
}

pub open spec fn visible_stake_of(text: Seq<char>, tags: Seq<String>) -> Seq<char> {
    if contains(text, "묻"@) || contains(text, "말"@) || contains(text, "이름"@) {
        "말하지 않은 질문이 다음 접촉의 거리감을 바꿀 수 있다."@
    } else if contains(text, "살피"@) || contains(text, "조사"@) || contains(text, "문"@) {
        "살피지 않은 표면이 장면의 미결로 남을 수 있다."@
    } else if tags.len() > 0 {
        "이 선택지는 장면 압력과 연결되어 있다."@
    } else {
        "선택하지 않은 행동의 결이 약하게 남을 수 있다."@
    }
}

/// The omission text of a choice: label and intent, lowercased.
pub open spec fn omission_text(label: Seq<char>, intent: Seq<char>) -> Seq<char> {
    unicode_lowercase(label + " "@ + intent)
}

/// `r` is what leaving displayed choice `slot` unchosen may mean.
pub open spec fn omission_profile_of(
    r: OmissionProfile,
    slot: u8,
    label: Seq<char>,
    intent: Seq<char>,
    risk_tags: Seq<String>,
    evidence_refs: Seq<String>,
) -> bool {
    if !(1 <= slot <= 5) || evidence_refs.len() == 0 {
        &&& !r.can_create_echo
        &&& r.echo_weight == 0
        &&& r.omission_meaning == OmissionMeaning::IgnoredSurface
        &&& r.visible_stakes@.len() == 0
        &&& r.return_conditions@ == seq![TouchCondition::SceneContact]
        &&& r.non_punitive
    } else {
        let text = omission_text(label, intent);
        &&& r.can_create_echo
        &&& r.echo_weight == if risk_tags.len() == 0 {
            4u8
        } else {
            7u8
        }
        &&& r.omission_meaning == omission_meaning_of(text, risk_tags)
        &&& views(r.visible_stakes@) == seq![visible_stake_of(text, risk_tags)]
        &&& r.return_conditions@ == seq![TouchCondition::SceneContact]
        &&& r.non_punitive
    }
}

/// What leaving a displayed ordinary choice unchosen may mean.
pub fn omission_profile_for_choice(
    slot: u8,
    label: &str,
    intent: &str,
    risk_tags: &[String],
    evidence_refs: &[String],
) -> (r: OmissionProfile)
    ensures
        omission_profile_of(r, slot, label@, intent@, risk_tags@, evidence_refs@),
{
    if !(1 <= slot && slot <= 5) || evidence_refs.len() == 0 {
        return OmissionProfile::default();
    }
    let joined = concat3(label, " ", intent);
    let lowered = to_lowercase(joined.as_str());
    let text = lowered.as_str();
    let omission_meaning = omission_meaning_from_text(text, risk_tags);
    let stake = if contains_str(text, "묻") || contains_str(text, "말") || contains_str(text, "이름") {
        "말하지 않은 질문이 다음 접촉의 거리감을 바꿀 수 있다."
    } else if contains_str(text, "살피") || contains_str(text, "조사") || contains_str(text, "문") {
        "살피지 않은 표면이 장면의 미결로 남을 수 있다."
    } else if risk_tags.len() > 0 {
        "이 선택지는 장면 압력과 연결되어 있다."
    } else {
        "선택하지 않은 행동의 결이 약하게 남을 수 있다."
    };
    let mut visible_stakes = Vec::new();
    visible_stakes.push(String::from_str(stake));
    assert(views(visible_stakes@) =~= seq![visible_stake_of(text@, risk_tags@)]);
    let mut return_conditions = Vec::new();
    return_conditions.push(TouchCondition::SceneContact);
    OmissionProfile {
        can_create_echo: true,
        echo_weight: if risk_tags.len() == 0 {
            4
        } else {
            7
        },
        omission_meaning,
        visible_stakes,
        return_conditions,
        non_punitive: true,
    }
}

fn omission_meaning_from_text(text: &str, risk_tags: &[String]) -> (r: OmissionMeaning)
    ensures
        r == omission_meaning_of(text@, risk_tags@),
{
    if contains_str(text, "묻") || contains_str(text, "질문") {
        OmissionMeaning::UnaskedQuestion
    } else if contains_str(text, "이름") || contains_str(text, "정체") {
        OmissionMeaning::UnspokenName
    } else if contains_str(text, "돌보") || contains_str(text, "치료") || contains_str(text, "쉰") {
        OmissionMeaning::DeferredCare
    } else if contains_str(text, "거짓") || contains_str(text, "모순") {
        OmissionMeaning::UnchallengedLie
    } else if contains_str(text, "단서") || contains_str(text, "증거") || contains_str(text, "이용") {
        OmissionMeaning::UnusedLeverage
    } else if contains_str(text, "요청") || contains_str(text, "도와") || contains_str(text, "시선")
        || has_social_tag(risk_tags) {
        OmissionMeaning::UnansweredAppeal
    } else {
        OmissionMeaning::IgnoredSurface
    }
}

fn has_social_tag(tags: &[String]) -> (r: bool)
    ensures
        r == any_social_tag(tags@),
{
    let mut i: usize = 0;
    while i < tags.len()
        invariant
            i <= tags@.len(),
            forall|k: int| 0 <= k < i ==> !contains(#[trigger] tags@[k]@, "social"@),
        decreases tags.len() - i,
    {
        if contains_str(tags[i].as_str(), "social") {
            return true;
        }
        i = i + 1;
    }
    false
}

/// `c` is the offered choice recorded for displayed choice `t`.
pub open spec fn offered_choice_of(c: OfferedChoice, t: TurnChoice, turn_id: Seq<char>) -> bool {
    let refs = seq!["turn:"@ + turn_id + ":choice:"@ + dec(t.slot as nat), "choice:"@ + dec(t.slot as nat)];
    let text = omission_text(t.tag@, t.spec_visible_intent());
    &&& c.choice_id@ == "choice:"@ + dec(t.slot as nat)
    &&& c.slot == t.slot
    &&& c.visible_label@ == t.tag@
    &&& c.visible_intent@ == t.spec_visible_intent()
    &&& views(c.evidence_refs@) == refs
    &&& c.omission_profile.can_create_echo
    &&& c.omission_profile.echo_weight == 4
    &&& c.omission_profile.omission_meaning == omission_meaning_of(text, Seq::empty())
    &&& views(c.omission_profile.visible_stakes@) == seq![visible_stake_of(text, Seq::empty())]
    &&& c.omission_profile.non_punitive
    &&& c.omission_profile.return_conditions@ == seq![TouchCondition::SceneContact]
}

/// The displayed ordinary choices (slots 1..5), in order.
pub open spec fn ordinary_choices(cs: Seq<TurnChoice>) -> Seq<TurnChoice>
    decreases cs.len(),
{
    if cs.len() == 0 {
        Seq::empty()
    } else if 1 <= cs.last().slot <= 5 {
        ordinary_choices(cs.drop_last()).push(cs.last())
    } else {
        ordinary_choices(cs.drop_last())
    }
}

/// Record the ordinary choices shown this turn, stamped `recorded_at`.
pub fn offered_choice_set(
    world_id: &str,
    turn_id: &str,
    scene_id: &str,
    choices: &[TurnChoice],
    recorded_at: &str,
) -> (r: OfferedChoiceSet)
    ensures
        r.schema_version@ == OFFERED_CHOICE_SET_SCHEMA_VERSION@,
        r.world_id@ == world_id@,
        r.turn_id@ == turn_id@,
        r.scene_id@ == scene_id@,
        r.recorded_at@ == recorded_at@,
        views(r.visible_context_refs@) == seq!["visible_state.choices"@],
        r.choices@.len() == ordinary_choices(choices@).len(),
        forall|i: int|
            0 <= i < r.choices@.len() ==> offered_choice_of(
                #[trigger] r.choices@[i],
                ordinary_choices(choices@)[i],
                turn_id@,
            ),
{
    let mut out: Vec<OfferedChoice> = Vec::new();
    let mut i: usize = 0;
    while i < choices.len()
        invariant
            i <= choices@.len(),
            out@.len() == ordinary_choices(choices@.subrange(0, i as int)).len(),
            forall|k: int|
                0 <= k < out@.len() ==> offered_choice_of(
                    #[trigger] out@[k],
                    ordinary_choices(choices@.subrange(0, i as int))[k],
                    turn_id@,
                ),
        decreases choices.len() - i,
    {
        proof {
            assert(choices@.subrange(0, i + 1).drop_last() =~= choices@.subrange(0, i as int));
        }
        let choice = &choices[i];
        if 1 <= choice.slot && choice.slot <= 5 {
            out.push(offered_choice(turn_id, choice));
        }
        i = i + 1;
    }
    assert(choices@.subrange(0, choices@.len() as int) =~= choices@);
    let mut visible_context_refs = Vec::new();
    visible_context_refs.push(String::from_str("visible_state.choices"));
    assert(views(visible_context_refs@) =~= seq!["visible_state.choices"@]);
    OfferedChoiceSet {
        schema_version: String::from_str(OFFERED_CHOICE_SET_SCHEMA_VERSION),
        world_id: String::from_str(world_id),
        turn_id: String::from_str(turn_id),
        scene_id: String::from_str(scene_id),
        choices: out,
        visible_context_refs,
        recorded_at: String::from_str(recorded_at),
    }
}

fn offered_choice(turn_id: &str, choice: &TurnChoice) -> (r: OfferedChoice)
    requires
        1 <= choice.slot <= 5,
    ensures
        offered_choice_of(r, *choice, turn_id@),
{
    let slot = dec_string(choice.slot as u64);
    let mut evidence_refs = Vec::new();
    evidence_refs.push(concat4("turn:", turn_id, ":choice:", slot.as_str()));
    evidence_refs.push(concat2("choice:", slot.as_str()));
    let ghost refs = seq![
        "turn:"@ + turn_id@ + ":choice:"@ + dec(choice.slot as nat),
        "choice:"@ + dec(choice.slot as nat),
    ];
    assert(views(evidence_refs@) =~= refs);
    let no_tags: Vec<String> = Vec::new();
    let profile = omission_profile_for_choice(
        choice.slot,
        choice.tag.as_str(),
        choice.player_visible_intent(),
        no_tags.as_slice(),
        evidence_refs.as_slice(),
    );
    assert(no_tags@ =~= Seq::<String>::empty());
    OfferedChoice {
        choice_id: concat2("choice:", slot.as_str()),
        slot: choice.slot,
        visible_label: choice.tag.clone(),
        visible_intent: String::from_str(choice.player_visible_intent()),
        evidence_refs,
        omission_profile: profile,
    }
}

/// The offered choice can leave an echo when not selected.
pub open spec fn echo_candidate(c: OfferedChoice, selected_slot: Option<u8>) -> bool {
    &&& selected_slot != Some(c.slot)
    &&& c.omission_profile.can_create_echo
    &&& c.omission_profile.non_punitive
    &&& c.omission_profile.visible_stakes@.len() > 0
}

/// `i` is the candidate that `max_by_key(echo_weight)` picks: the heaviest,
/// the last among equals.
pub open spec fn is_echo_pick(cs: Seq<OfferedChoice>, selected_slot: Option<u8>, i: int) -> bool {
    &&& 0 <= i < cs.len()
    &&& echo_candidate(cs[i], selected_slot)
    &&& forall|j: int|
        0 <= j < cs.len() && echo_candidate(cs[j], selected_slot) ==> cs[j].omission_profile.echo_weight
            <= cs[i].omission_profile.echo_weight
    &&& forall|j: int|
        i < j < cs.len() && echo_candidate(cs[j], selected_slot) ==> cs[j].omission_profile.echo_weight
            < cs[i].omission_profile.echo_weight
}

pub open spec fn meaning_debug(m: OmissionMeaning) -> Seq<char> {
    match m {
        OmissionMeaning::UnaskedQuestion => "UnaskedQuestion"@,
        OmissionMeaning::IgnoredSurface => "IgnoredSurface"@,
        OmissionMeaning::DeferredCare => "DeferredCare"@,
        OmissionMeaning::UnchallengedLie => "UnchallengedLie"@,
        OmissionMeaning::UnusedLeverage => "UnusedLeverage"@,
        OmissionMeaning::UnansweredAppeal => "UnansweredAppeal"@,
        OmissionMeaning::UnspokenName => "UnspokenName"@,
    }
}

pub open spec fn echo_summary_of(label: Seq<char>, m: OmissionMeaning) -> Seq<char> {
    match m {
        OmissionMeaning::UnaskedQuestion => "'"@ + label + "'라는 질문은 그 자리에서 입 밖으로 나오지 않았다."@,
        OmissionMeaning::UnspokenName => "'"@ + label + "'에 닿는 이름은 아직 말해지지 않았다."@,
        OmissionMeaning::DeferredCare => "'"@ + label + "'로 돌볼 수 있던 일이 잠시 뒤로 밀렸다."@,
        OmissionMeaning::UnchallengedLie => "'"@ + label + "'의 모순은 그 순간 바로 찔리지 않았다."@,
        OmissionMeaning::UnusedLeverage => "'"@ + label + "'로 쓸 수 있던 단서는 아직 쓰이지 않았다."@,
        OmissionMeaning::UnansweredAppeal => "'"@ + label + "'에 담긴 요청은 대답 없이 남았다."@,
        OmissionMeaning::IgnoredSurface => "'"@ + label + "'의 표면은 지나쳤지만, 장면에는 결이 남았다."@,
    }
}

/// `e` is the echo that leaving offered choice `c` unchosen leaves.
pub open spec fn echo_of(e: UnchosenEcho, offered: OfferedChoiceSet, c: OfferedChoice) -> bool {
    &&& e.schema_version@ == UNCHOSEN_ECHO_SCHEMA_VERSION@
    &&& e.echo_id@ == "echo:"@ + offered.turn_id@ + ":slot_"@ + dec(c.slot as nat)
    &&& e.source_turn_id@ == offered.turn_id@
    &&& e.unchosen_choice_id@ == c.choice_id@
    &&& e.visible_summary@ == echo_summary_of(c.visible_label@, c.omission_profile.omission_meaning)
    &&& e.implied_meaning matches Some(m) && m@ == meaning_debug(c.omission_profile.omission_meaning)
    &&& views(e.anchor_refs@) == seq![offered.scene_id@]
    &&& views(e.evidence_refs@) == views(c.evidence_refs@)
    &&& e.return_conditions@ == c.omission_profile.return_conditions@
    &&& e.possible_payoffs@ == seq![PayoffKind::Progress, PayoffKind::Reframe]
    &&& e.decay == DecayMode::SoftenAfterScene
    &&& e.status == EchoStatus::Active
    &&& e.created_turn_id@ == offered.turn_id@
}

/// The echo of the heaviest unchosen, echo-capable displayed choice, if any.
pub fn create_unchosen_echo(offered: &OfferedChoiceSet, selected_slot: Option<u8>) -> (r: Option<
    UnchosenEcho,
>)
    ensures
        match r {
            Some(e) => exists|i: int|
                is_echo_pick(offered.choices@, selected_slot, i) && echo_of(
                    e,
                    *offered,
                    offered.choices@[i],
                ),
            None => forall|i: int|
                0 <= i < offered.choices@.len() ==> !echo_candidate(
                    #[trigger] offered.choices@[i],
                    selected_slot,
                ),
        },
{
    let cs = &offered.choices;
    let mut best: Option<usize> = None;
    let mut i: usize = 0;
    while i < cs.len()
        invariant
            i <= cs@.len(),
            match best {
                Some(b) => {
                    &&& b < i
                    &&& echo_candidate(cs@[b as int], selected_slot)
                    &&& forall|j: int|
                        0 <= j < i && echo_candidate(cs@[j], selected_slot)
                            ==> cs@[j].omission_profile.echo_weight
                            <= cs@[b as int].omission_profile.echo_weight
                    &&& forall|j: int|
                        b < j < i && echo_candidate(cs@[j], selected_slot)
                            ==> cs@[j].omission_profile.echo_weight
                            < cs@[b as int].omission_profile.echo_weight
                },
                None => forall|j: int| 0 <= j < i ==> !echo_candidate(#[trigger] cs@[j], selected_slot),
            },
        decreases cs.len() - i,
    {
        let c = &cs[i];
        let unselected = match selected_slot {
            Some(s) => s != c.slot,
            None => true,
        };
        if unselected && c.omission_profile.can_create_echo && c.omission_profile.non_punitive
            && c.omission_profile.visible_stakes.len() > 0 {
            match best {
                Some(b) => {
                    if c.omission_profile.echo_weight >= cs[b].omission_profile.echo_weight {
                        best = Some(i);
                    }
                },
                None => {
                    best = Some(i);
                },
            }
        }
        i = i + 1;
    }
    match best {
        Some(b) => {
            let e = echo_from_choice(offered, &cs[b]);
            assert(is_echo_pick(offered.choices@, selected_slot, b as int));
            Some(e)
        },
        None => None,
    }
}

fn meaning_debug_name(m: OmissionMeaning) -> (r: &'static str)
    ensures
        r@ == meaning_debug(m),
{
    match m {
        OmissionMeaning::UnaskedQuestion => "UnaskedQuestion",
        OmissionMeaning::IgnoredSurface => "IgnoredSurface",
        OmissionMeaning::DeferredCare => "DeferredCare",
        OmissionMeaning::UnchallengedLie => "UnchallengedLie",
        OmissionMeaning::UnusedLeverage => "UnusedLeverage",
        OmissionMeaning::UnansweredAppeal => "UnansweredAppeal",
        OmissionMeaning::UnspokenName => "UnspokenName",
    }
}

fn echo_visible_summary(choice: &OfferedChoice) -> (r: String)
    ensures
        r@ == echo_summary_of(choice.visible_label@, choice.omission_profile.omission_meaning),
{
    let label = choice.visible_label.as_str();
    match choice.omission_profile.omission_meaning {
        OmissionMeaning::UnaskedQuestion => concat3("'", label, "'라는 질문은 그 자리에서 입 밖으로 나오지 않았다."),
        OmissionMeaning::UnspokenName => concat3("'", label, "'에 닿는 이름은 아직 말해지지 않았다."),
        OmissionMeaning::DeferredCare => concat3("'", label, "'로 돌볼 수 있던 일이 잠시 뒤로 밀렸다."),
        OmissionMeaning::UnchallengedLie => concat3("'", label, "'의 모순은 그 순간 바로 찔리지 않았다."),
        OmissionMeaning::UnusedLeverage => concat3("'", label, "'로 쓸 수 있던 단서는 아직 쓰이지 않았다."),
        OmissionMeaning::UnansweredAppeal => concat3("'", label, "'에 담긴 요청은 대답 없이 남았다."),
        OmissionMeaning::IgnoredSurface => concat3("'", label, "'의 표면은 지나쳤지만, 장면에는 결이 남았다."),
    }
}

fn echo_from_choice(offered: &OfferedChoiceSet, choice: &OfferedChoice) -> (r: UnchosenEcho)
    ensures
        echo_of(r, *offered, *choice),
{
    let slot = dec_string(choice.slot as u64);
    let mut anchor_refs = Vec::new();
    anchor_refs.push(offered.scene_id.clone());
    assert(views(anchor_refs@) =~= seq![offered.scene_id@]);
    let mut possible_payoffs = Vec::new();
    possible_payoffs.push(PayoffKind::Progress);
    possible_payoffs.push(PayoffKind::Reframe);
    assert(possible_payoffs@ =~= seq![PayoffKind::Progress, PayoffKind::Reframe]);
    UnchosenEcho {
        schema_version: String::from_str(UNCHOSEN_ECHO_SCHEMA_VERSION),
        echo_id: concat4("echo:", offered.turn_id.as_str(), ":slot_", slot.as_str()),
        source_turn_id: offered.turn_id.clone(),
        unchosen_choice_id: choice.choice_id.clone(),
        visible_summary: echo_visible_summary(choice),
        implied_meaning: Some(String::from_str(meaning_debug_name(choice.omission_profile.omission_meaning))),
        anchor_refs,
        evidence_refs: clone_strings(&choice.evidence_refs),
        return_conditions: copy_touches(&choice.omission_profile.return_conditions),
        possible_payoffs,
        decay: DecayMode::SoftenAfterScene,
        status: EchoStatus::Active,
        created_turn_id: offered.turn_id.clone(),
    }
}

/// Add a new echo to the echo ledger unless an echo with its id is already
/// there, and restamp the ledger for this turn.
pub fn record_unchosen_echo(
    echo_state: &mut EchoLedgerState,
    world_id: &str,
    turn_id: &str,
    echo: UnchosenEcho,
)
    ensures
        final(echo_state).world_id@ == world_id@,
        final(echo_state).turn_id@ == turn_id@,
        final(echo_state).schema_version == old(echo_state).schema_version,
        (exists|i: int|
            0 <= i < old(echo_state).active_echoes@.len()
                && old(echo_state).active_echoes@[i].echo_id@ == echo.echo_id@)
            ==> final(echo_state).active_echoes@ == old(echo_state).active_echoes@,
        !(exists|i: int|
            0 <= i < old(echo_state).active_echoes@.len()
                && old(echo_state).active_echoes@[i].echo_id@ == echo.echo_id@)
            ==> final(echo_state).active_echoes@ == old(echo_state).active_echoes@.push(echo),
{
    let mut found = false;
    let mut i: usize = 0;
    while i < echo_state.active_echoes.len()
        invariant
            i <= echo_state.active_echoes@.len(),
            echo_state.active_echoes@ == old(echo_state).active_echoes@,
            found == exists|k: int|
                0 <= k < i && echo_state.active_echoes@[k].echo_id@ == echo.echo_id@,
        decreases echo_state.active_echoes.len() - i,
    {
        if str_eq(echo_state.active_echoes[i].echo_id.as_str(), echo.echo_id.as_str()) {
            found = true;
        }
        i = i + 1;
    }
    if !found {
        echo_state.active_echoes.push(echo);
    }
    echo_state.world_id = String::from_str(world_id);
    echo_state.turn_id = String::from_str(turn_id);
}

// ---------------------------------------------------------------------------
// Hook threads rebuilt from the event log.
// ---------------------------------------------------------------------------

/// The text content and state of a hook thread.
pub struct ThreadView {
    pub hook_id: Seq<char>,
    pub kind: HookKind,
    pub visible_promise: Seq<char>,
    pub anchor_refs: Seq<Seq<char>>,
    pub evidence_refs: Seq<Seq<char>>,
    pub opened_by_event: Seq<char>,
    pub owed_payoff: Seq<PayoffKind>,
    pub minimum_progress_interval: u32,
    pub max_teases_without_progress: u8,
    pub possible_resolutions: Seq<ResolutionMode>,
    pub touch_conditions: Seq<TouchCondition>,
    pub may_bias_choice: bool,
    pub may_enter_recap: bool,
    pub fatigue_score: u8,
    pub status: HookStatus,
    pub opened_turn_id: Seq<char>,
    pub last_touched_turn_id: Seq<char>,
}

pub open spec fn thread_view(t: HookThread) -> ThreadView {
    ThreadView {
        hook_id: t.hook_id@,
        kind: t.kind,
        visible_promise: t.visible_promise@,
        anchor_refs: views(t.anchor_refs@),
        evidence_refs: views(t.evidence_refs@),
        opened_by_event: t.opened_by_event@,
        owed_payoff: t.payoff_contract.owed_payoff@,
        minimum_progress_interval: t.payoff_contract.minimum_progress_interval,
        max_teases_without_progress: t.payoff_contract.max_teases_without_progress,
        possible_resolutions: t.payoff_contract.possible_resolutions@,
        touch_conditions: t.return_rights.touch_conditions@,
        may_bias_choice: t.return_rights.may_bias_choice,
        may_enter_recap: t.return_rights.may_enter_recap,
        fatigue_score: t.fatigue_score,
        status: t.status,
        opened_turn_id: t.opened_turn_id@,
        last_touched_turn_id: t.last_touched_turn_id@,
    }
}

pub open spec fn thread_views(ts: Seq<HookThread>) -> Seq<ThreadView> {
    Seq::new(ts.len(), |i: int| thread_view(ts[i]))
}

/// The thread an `Opened` record creates.
pub open spec fn opened_thread(rec: HookEventRecord) -> ThreadView {
    ThreadView {
        hook_id: rec.hook_id@,
        kind: rec.kind,
        visible_promise: rec.visible_promise@,
        anchor_refs: views(rec.anchor_refs@),
        evidence_refs: views(rec.evidence_refs@),
        opened_by_event: rec.opened_by_event@,
        owed_payoff: rec.payoff_contract.owed_payoff@,
        minimum_progress_interval: rec.payoff_contract.minimum_progress_interval,
        max_teases_without_progress: rec.payoff_contract.max_teases_without_progress,
        possible_resolutions: rec.payoff_contract.possible_resolutions@,
        touch_conditions: rec.return_rights.touch_conditions@,
        may_bias_choice: rec.return_rights.may_bias_choice,
        may_enter_recap: rec.return_rights.may_enter_recap,
        fatigue_score: 0,
        status: HookStatus::Opened,
        opened_turn_id: rec.turn_id@,
        last_touched_turn_id: rec.turn_id@,
    }
}

/// The first thread at or after `k` with the given hook id.
pub open spec fn find_thread(ts: Seq<ThreadView>, id: Seq<char>, k: int) -> Option<int>
    decreases ts.len() - k,
{
    if k < 0 || k >= ts.len() {
        None
    } else if ts[k].hook_id == id {
        Some(k)
    } else {
        find_thread(ts, id, k + 1)
    }
}

/// One hook event applied to the threads: `Opened` adds an unknown hook;
/// progress, due and suppression move a known hook's status and merge its
/// evidence; a payoff closes it. Events about unknown hooks change nothing.
pub open spec fn apply_record(ts: Seq<ThreadView>, rec: HookEventRecord) -> Seq<ThreadView> {
    match find_thread(ts, rec.hook_id@, 0) {
        None => if rec.event_kind == HookEventKind::Opened {
            ts.push(opened_thread(rec))
        } else {
            ts
        },
        Some(k) => match rec.event_kind {
            HookEventKind::Opened => ts,
            HookEventKind::PaidOff => ts.update(
                k,
                ThreadView { status: HookStatus::PaidOff, last_touched_turn_id: rec.turn_id@, ..ts[k] },
            ),
            _ => ts.update(
                k,
                ThreadView {
                    status: if rec.event_kind == HookEventKind::Progressed {
                        HookStatus::Progressing
                    } else if rec.event_kind == HookEventKind::PayoffDue {
                        HookStatus::PayoffDue
                    } else {
                        HookStatus::Suppressed
                    },
                    last_touched_turn_id: rec.turn_id@,
                    evidence_refs: dedupe(ts[k].evidence_refs + views(rec.evidence_refs@)),
                    ..ts[k]
                },
            ),
        },
    }
}

/// All records applied in order.
pub open spec fn apply_records(ts: Seq<ThreadView>, recs: Seq<HookEventRecord>) -> Seq<ThreadView>
    decreases recs.len(),
{
    if recs.len() == 0 {
        ts
    } else {
        apply_record(apply_records(ts, recs.drop_last()), recs.last())
    }
}

fn find_thread_index(threads: &Vec<HookThread>, id: &str) -> (r: Option<usize>)
    ensures
        match r {
            Some(k) => k < threads@.len() && find_thread(thread_views(threads@), id@, 0) == Some(
                k as int,
            ),
            None => find_thread(thread_views(threads@), id@, 0) is None,
        },
{
    let ghost ts = thread_views(threads@);
    let mut i: usize = 0;
    while i < threads.len()
        invariant
            i <= threads.len(),
            ts == thread_views(threads@),
            find_thread(ts, id@, 0) == find_thread(ts, id@, i as int),
        decreases threads.len() - i,
    {
        if str_eq(threads[i].hook_id.as_str(), id) {
            assert(ts[i as int].hook_id == id@);
            return Some(i);
        }
        i = i + 1;
    }
    None
}

fn append_views(a: &Vec<String>, b: &Vec<String>) -> (r: Vec<String>)
    ensures
        views(r@) == views(a@) + views(b@),
{
    let mut out = clone_strings(a);
    let mut i: usize = 0;
    while i < b.len()
        invariant
            i <= b.len(),
            views(out@) == views(a@) + views(b@.subrange(0, i as int)),
        decreases b.len() - i,
    {
        let ghost prev = out@;
        out.push(b[i].clone());
        proof {
            crate::text::lemma_views_push(prev, b@[i as int]);
        }
        assert(views(out@) =~= views(a@) + views(b@.subrange(0, i + 1)));
        i = i + 1;
    }
    assert(b@.subrange(0, b.len() as int) =~= b@);
    out
}

/// Apply one hook event record to the threads.
pub fn apply_hook_event_record(threads: &mut Vec<HookThread>, record: &HookEventRecord)
    ensures
        thread_views(final(threads)@) == apply_record(thread_views(old(threads)@), *record),
{
    let ghost before = threads@;
    match find_thread_index(threads, record.hook_id.as_str()) {
        None => {
            if record.event_kind == HookEventKind::Opened {
                let thread = HookThread {
                    hook_id: record.hook_id.clone(),
                    kind: record.kind,
                    visible_promise: record.visible_promise.clone(),
                    anchor_refs: clone_strings(&record.anchor_refs),
                    evidence_refs: clone_strings(&record.evidence_refs),
                    opened_by_event: record.opened_by_event.clone(),
                    payoff_contract: copy_contract(&record.payoff_contract),
                    return_rights: copy_rights(&record.return_rights),
                    fatigue_score: 0,
                    status: HookStatus::Opened,
                    opened_turn_id: record.turn_id.clone(),
                    last_touched_turn_id: record.turn_id.clone(),
                };
                threads.push(thread);
                assert(thread_views(threads@) =~= thread_views(before).push(thread_view(thread)));
            }
        },
        Some(k) => {
            match record.event_kind {
                HookEventKind::Opened => {},
                HookEventKind::PaidOff => {
                    let mut t = threads.remove(k);
                    t.status = HookStatus::PaidOff;
                    t.last_touched_turn_id = record.turn_id.clone();
                    threads.insert(k, t);
                    assert(thread_views(threads@) =~= thread_views(before).update(
                        k as int,
                        thread_view(t),
                    ));
                },
                _ => {
                    let mut t = threads.remove(k);
                    t.status = if record.event_kind == HookEventKind::Progressed {
                        HookStatus::Progressing
                    } else if record.event_kind == HookEventKind::PayoffDue {
                        HookStatus::PayoffDue
                    } else {
                        HookStatus::Suppressed
                    };
                    t.last_touched_turn_id = record.turn_id.clone();
                    let merged = append_views(&t.evidence_refs, &record.evidence_refs);
                    t.evidence_refs = dedupe_strings(&merged);
                    threads.insert(k, t);
                    assert(thread_views(threads@) =~= thread_views(before).update(
                        k as int,
                        thread_view(t),
                    ));
                },
            }
        },
    }
}

/// The hook threads that a log of hook event records materialises.
pub fn threads_from_records(records: Vec<HookEventRecord>) -> (r: Vec<HookThread>)
    ensures
        thread_views(r@) == apply_records(Seq::empty(), records@),
{
    let mut threads: Vec<HookThread> = Vec::new();
    let mut i: usize = 0;
    let n = records.len();
    let ghost all = records@;
    assert(thread_views(threads@) =~= apply_records(Seq::empty(), all.subrange(0, 0)));
    while i < n
        invariant
            i <= n,
            n == all.len(),
            records@ == all,
            thread_views(threads@) == apply_records(Seq::empty(), all.subrange(0, i as int)),
        decreases n - i,
    {
        proof {
            assert(all.subrange(0, i + 1).drop_last() =~= all.subrange(0, i as int));
        }
        apply_hook_event_record(&mut threads, &records[i]);
        i = i + 1;
    }
    assert(all.subrange(0, n as int) =~= all);
    threads
}

// ---------------------------------------------------------------------------
// The hook packet.
// ---------------------------------------------------------------------------

pub open spec fn is_open_status(s: HookStatus) -> bool {
    s == HookStatus::Opened || s == HookStatus::Progressing || s == HookStatus::PayoffDue
}

pub open spec fn open_threads(ts: Seq<HookThread>) -> Seq<HookThread>
    decreases ts.len(),
{
    if ts.len() == 0 {
        Seq::empty()
    } else if is_open_status(ts.last().status) {
        open_threads(ts.drop_last()).push(ts.last())
    } else {
        open_threads(ts.drop_last())
    }
}

pub open spec fn due_threads(ts: Seq<HookThread>) -> Seq<HookThread>
    decreases ts.len(),
{
    if ts.len() == 0 {
        Seq::empty()
    } else if ts.last().status == HookStatus::PayoffDue {
        due_threads(ts.drop_last()).push(ts.last())
    } else {
        due_threads(ts.drop_last())
    }
}

pub open spec fn live_echoes(es: Seq<UnchosenEcho>) -> Seq<UnchosenEcho>
    decreases es.len(),
{
    if es.len() == 0 {
        Seq::empty()
    } else if es.last().status == EchoStatus::Active || es.last().status == EchoStatus::Returning {
        live_echoes(es.drop_last()).push(es.last())
    } else {
        live_echoes(es.drop_last())
    }
}

fn filter_open_threads(ts: &Vec<HookThread>) -> (r: Vec<HookThread>)
    ensures
        thread_views(r@) == thread_views(open_threads(ts@)),
{
    let mut out: Vec<HookThread> = Vec::new();
    let mut i: usize = 0;
    while i < ts.len()
        invariant
            i <= ts.len(),
            thread_views(out@) == thread_views(open_threads(ts@.subrange(0, i as int))),
        decreases ts.len() - i,
    {
        proof {
            assert(ts@.subrange(0, i + 1).drop_last() =~= ts@.subrange(0, i as int));
        }
        let ghost prev = out@;
        let s = ts[i].status;
        if s == HookStatus::Opened || s == HookStatus::Progressing || s == HookStatus::PayoffDue {
            let c = copy_thread(&ts[i]);
            out.push(c);
            assert(thread_views(out@) =~= thread_views(prev).push(thread_view(c)));
            assert(thread_views(open_threads(ts@.subrange(0, i + 1))) =~= thread_views(
                open_threads(ts@.subrange(0, i as int)),
            ).push(thread_view(ts@[i as int])));
        }
        i = i + 1;
    }
    assert(ts@.subrange(0, ts.len() as int) =~= ts@);
    out
}

fn filter_due_threads(ts: &Vec<HookThread>) -> (r: Vec<HookThread>)
    ensures
        thread_views(r@) == thread_views(due_threads(ts@)),
{
    let mut out: Vec<HookThread> = Vec::new();
    let mut i: usize = 0;
    while i < ts.len()
        invariant
            i <= ts.len(),
            thread_views(out@) == thread_views(due_threads(ts@.subrange(0, i as int))),
        decreases ts.len() - i,
    {
        proof {
            assert(ts@.subrange(0, i + 1).drop_last() =~= ts@.subrange(0, i as int));
        }
        let ghost prev = out@;
        if ts[i].status == HookStatus::PayoffDue {
            let c = copy_thread(&ts[i]);
            out.push(c);
            assert(thread_views(out@) =~= thread_views(prev).push(thread_view(c)));
            assert(thread_views(due_threads(ts@.subrange(0, i + 1))) =~= thread_views(
                due_threads(ts@.subrange(0, i as int)),
            ).push(thread_view(ts@[i as int])));
        }
        i = i + 1;
    }
    assert(ts@.subrange(0, ts.len() as int) =~= ts@);
    out
}

fn copy_thread(t: &HookThread) -> (r: HookThread)
    ensures
        thread_view(r) == thread_view(*t),
{
    HookThread {
        hook_id: t.hook_id.clone(),
        kind: t.kind,
        visible_promise: t.visible_promise.clone(),
        anchor_refs: clone_strings(&t.anchor_refs),
        evidence_refs: clone_strings(&t.evidence_refs),
        opened_by_event: t.opened_by_event.clone(),
        payoff_contract: copy_contract(&t.payoff_contract),
        return_rights: copy_rights(&t.return_rights),
        fatigue_score: t.fatigue_score,
        status: t.status,
        opened_turn_id: t.opened_turn_id.clone(),
        last_touched_turn_id: t.last_touched_turn_id.clone(),
    }
}

/// The text content and state of an echo.
pub open spec fn echo_same(a: UnchosenEcho, b: UnchosenEcho) -> bool {
    &&& a.schema_version@ == b.schema_version@
    &&& a.echo_id@ == b.echo_id@
    &&& a.source_turn_id@ == b.source_turn_id@
    &&& a.unchosen_choice_id@ == b.unchosen_choice_id@
    &&& a.visible_summary@ == b.visible_summary@
    &&& match (a.implied_meaning, b.implied_meaning) {
        (Some(x), Some(y)) => x@ == y@,
        (None, None) => true,
        _ => false,
    }
    &&& views(a.anchor_refs@) == views(b.anchor_refs@)
    &&& views(a.evidence_refs@) == views(b.evidence_refs@)
    &&& a.return_conditions@ == b.return_conditions@
    &&& a.possible_payoffs@ == b.possible_payoffs@
    &&& a.decay == b.decay
    &&& a.status == b.status
    &&& a.created_turn_id@ == b.created_turn_id@
}

fn copy_echo(e: &UnchosenEcho) -> (r: UnchosenEcho)
    ensures
        echo_same(r, *e),
{
    UnchosenEcho {
        schema_version: e.schema_version.clone(),
        echo_id: e.echo_id.clone(),
        source_turn_id: e.source_turn_id.clone(),
        unchosen_choice_id: e.unchosen_choice_id.clone(),
        visible_summary: e.visible_summary.clone(),
        implied_meaning: match &e.implied_meaning {
            Some(m) => Some(m.clone()),
            None => None,
        },
        anchor_refs: clone_strings(&e.anchor_refs),
        evidence_refs: clone_strings(&e.evidence_refs),
        return_conditions: copy_touches(&e.return_conditions),
        possible_payoffs: copy_payoffs(&e.possible_payoffs),
        decay: e.decay,
        status: e.status,
        created_turn_id: e.created_turn_id.clone(),
    }
}

fn filter_live_echoes(es: &Vec<UnchosenEcho>) -> (r: Vec<UnchosenEcho>)
    ensures
        r@.len() == live_echoes(es@).len(),
        forall|i: int| 0 <= i < r@.len() ==> echo_same(#[trigger] r@[i], live_echoes(es@)[i]),
{
    let mut out: Vec<UnchosenEcho> = Vec::new();
    let mut i: usize = 0;
    while i < es.len()
        invariant
            i <= es.len(),
            out@.len() == live_echoes(es@.subrange(0, i as int)).len(),
            forall|k: int|
                0 <= k < out@.len() ==> echo_same(
                    #[trigger] out@[k],
                    live_echoes(es@.subrange(0, i as int))[k],
                ),
        decreases es.len() - i,
    {
        proof {
            assert(es@.subrange(0, i + 1).drop_last() =~= es@.subrange(0, i as int));
        }
        if es[i].status == EchoStatus::Active || es[i].status == EchoStatus::Returning {
            out.push(copy_echo(&es[i]));
        }
        i = i + 1;
    }
    assert(es@.subrange(0, es.len() as int) =~= es@);
    out
}

pub open spec fn first_or_scene(refs: Seq<String>) -> Seq<char> {
    if refs.len() > 0 {
        refs[0]@
    } else {
        "current_scene"@
    }
}

fn first_ref_or_scene(refs: &Vec<String>) -> (r: String)
    ensures
        r@ == first_or_scene(refs@),
{
    if refs.len() > 0 {
        refs[0].clone()
    } else {
        String::from_str("current_scene")
    }
}

/// `b` is the bias a promise whose payoff is due puts on the next choices.
pub open spec fn promise_bias(b: HookChoiceBias, t: HookThread) -> bool {
    &&& b.source_ref@ == t.hook_id@
    &&& b.target_ref@ == first_or_scene(t.anchor_refs@)
    &&& b.bias@ == "progress_or_payoff_due_promise"@
    &&& views(b.evidence_refs@) == views(t.evidence_refs@)
}

/// `b` is the bias a returning echo puts on the next choices.
pub open spec fn echo_bias(b: HookChoiceBias, e: UnchosenEcho) -> bool {
    &&& b.source_ref@ == e.echo_id@
    &&& b.target_ref@ == first_or_scene(e.anchor_refs@)
    &&& b.bias@ == "return_non_punitive_unchosen_echo"@
    &&& views(b.evidence_refs@) == views(e.evidence_refs@)
}

/// The player-visible hook packet of a turn, compiled from the two ledgers.
pub fn hook_packet_from_states(
    world_id: &str,
    turn_id: &str,
    hook_state: &HookLedgerState,
    echo_state: &EchoLedgerState,
) -> (r: HookPacket)
    ensures
        r.schema_version@ == HOOK_LEDGER_PACKET_SCHEMA_VERSION@,
        r.world_id@ == world_id@,
        r.turn_id@ == turn_id@,
        thread_views(r.active_promises@) == thread_views(open_threads(hook_state.active_threads@)),
        thread_views(r.due_promises@) == thread_views(
            due_threads(open_threads(hook_state.active_threads@)),
        ),
        r.active_echoes@.len() == live_echoes(echo_state.active_echoes@).len(),
        forall|i: int|
            0 <= i < r.active_echoes@.len() ==> echo_same(
                #[trigger] r.active_echoes@[i],
                live_echoes(echo_state.active_echoes@)[i],
            ),
        r.returning_echoes@.len() == if live_echoes(echo_state.active_echoes@).len() > 0 {
            1nat
        } else {
            0nat
        },
        r.returning_echoes@.len() > 0 ==> echo_same(
            r.returning_echoes@[0],
            live_echoes(echo_state.active_echoes@)[0],
        ),
        r.choice_biases@.len() == r.due_promises@.len() + r.returning_echoes@.len(),
        forall|i: int|
            0 <= i < r.due_promises@.len() ==> promise_bias(
                #[trigger] r.choice_biases@[i],
                r.due_promises@[i],
            ),
        r.returning_echoes@.len() > 0 ==> echo_bias(
            r.choice_biases@[r.due_promises@.len() as int],
            r.returning_echoes@[0],
        ),
        tea_recap_of(r.tea_recap, r.active_promises@, r.active_echoes@),
{
    let active_promises = filter_open_threads(&hook_state.active_threads);
    let due_promises = filter_due_threads(&active_promises);
    proof {
        // Filtering for due promises sees only thread views.
        lemma_due_threads_views(active_promises@, open_threads(hook_state.active_threads@));
    }
    let active_echoes = filter_live_echoes(&echo_state.active_echoes);
    let mut returning_echoes: Vec<UnchosenEcho> = Vec::new();
    if active_echoes.len() > 0 {
        returning_echoes.push(copy_echo(&active_echoes[0]));
    }
    let mut choice_biases: Vec<HookChoiceBias> = Vec::new();
    let mut i: usize = 0;
    while i < due_promises.len()
        invariant
            i <= due_promises.len(),
            choice_biases@.len() == i,
            forall|k: int|
                0 <= k < i ==> promise_bias(#[trigger] choice_biases@[k], due_promises@[k]),
        decreases due_promises.len() - i,
    {
        let t = &due_promises[i];
        choice_biases.push(
            HookChoiceBias {
                source_ref: t.hook_id.clone(),
                target_ref: first_ref_or_scene(&t.anchor_refs),
                bias: String::from_str("progress_or_payoff_due_promise"),
                evidence_refs: clone_strings(&t.evidence_refs),
            },
        );
        i = i + 1;
    }
    if returning_echoes.len() > 0 {
        let e = &returning_echoes[0];
        choice_biases.push(
            HookChoiceBias {
                source_ref: e.echo_id.clone(),
                target_ref: first_ref_or_scene(&e.anchor_refs),
                bias: String::from_str("return_non_punitive_unchosen_echo"),
                evidence_refs: clone_strings(&e.evidence_refs),
            },
        );
    }
    let recap = tea_recap(&active_promises, &active_echoes);
    HookPacket {
        schema_version: String::from_str(HOOK_LEDGER_PACKET_SCHEMA_VERSION),
        world_id: String::from_str(world_id),
        turn_id: String::from_str(turn_id),
        active_promises,
        due_promises,
        active_echoes,
        returning_echoes,
        choice_biases,
        tea_recap: recap,
        compiler_policy: HookLedgerPolicy::default(),
    }
}

proof fn lemma_due_threads_views(a: Seq<HookThread>, b: Seq<HookThread>)
    requires
        thread_views(a) == thread_views(b),
    ensures
        thread_views(due_threads(a)) == thread_views(due_threads(b)),
    decreases a.len(),
{
    assert(a.len() == thread_views(a).len());
    assert(b.len() == thread_views(b).len());
    if a.len() > 0 {
        assert(thread_views(a.drop_last()) =~= thread_views(a).drop_last());
        assert(thread_views(b.drop_last()) =~= thread_views(b).drop_last());
        lemma_due_threads_views(a.drop_last(), b.drop_last());
        assert(thread_view(a.last()) == thread_views(a)[a.len() - 1]);
        assert(thread_view(b.last()) == thread_views(b)[b.len() - 1]);
        if a.last().status == HookStatus::PayoffDue {
            assert(thread_views(due_threads(a)) =~= thread_views(due_threads(a.drop_last())).push(
                thread_view(a.last()),
            ));
            assert(thread_views(due_threads(b)) =~= thread_views(due_threads(b.drop_last())).push(
                thread_view(b.last()),
            ));
        }
    }
}

pub open spec fn first_promises(ts: Seq<HookThread>, n: nat) -> Seq<Seq<char>> {
    let m = if ts.len() < n {
        ts.len()
    } else {
        n
    };
    Seq::new(m, |i: int| ts[i].visible_promise@)
}

pub open spec fn first_echo_words(es: Seq<UnchosenEcho>, n: nat) -> Seq<Seq<char>> {
    let m = if es.len() < n {
        es.len()
    } else {
        n
    };
    Seq::new(m, |i: int| es[i].visible_summary@)
}

pub open spec fn heat_lines(ts: Seq<HookThread>) -> Seq<Seq<char>>
    decreases ts.len(),
{
    if ts.len() == 0 {
        Seq::empty()
    } else if ts.last().status == HookStatus::PayoffDue {
        heat_lines(ts.drop_last()).push(
            ts.last().hook_id@ + ": 다음 접촉에서 진전 또는 상환이 필요하다."@,
        )
    } else {
        heat_lines(ts.drop_last())
    }
}

/// The session recap: up to three promises, three echoes, and two lines of
/// heat for promises whose payoff is due.
pub open spec fn tea_recap_of(t: TeaRecap, promises: Seq<HookThread>, echoes: Seq<UnchosenEcho>) -> bool {
    &&& t.schema_version@ == SESSION_RECEIPT_SCHEMA_VERSION@
    &&& views(t.remaining_fragrance@) == first_promises(promises, 3)
    &&& views(t.remaining_words@) == first_echo_words(echoes, 3)
    &&& views(t.residual_heat@) == crate::location_graph::take_at_most(heat_lines(promises), 2)
}

fn tea_recap(promises: &Vec<HookThread>, echoes: &Vec<UnchosenEcho>) -> (r: TeaRecap)
    ensures
        tea_recap_of(r, promises@, echoes@),
{
    let mut fragrance: Vec<String> = Vec::new();
    let mut i: usize = 0;
    while i < promises.len() && i < 3
        invariant
            i <= promises.len(),
            i <= 3,
            views(fragrance@) == Seq::new(i as nat, |k: int| promises@[k].visible_promise@),
        decreases promises.len() - i,
    {
        let ghost prev = fragrance@;
        fragrance.push(promises[i].visible_promise.clone());
        proof {
            crate::text::lemma_views_push(prev, promises@[i as int].visible_promise);
        }
        assert(views(fragrance@) =~= Seq::new((i + 1) as nat, |k: int| promises@[k].visible_promise@));
        i = i + 1;
    }
    assert(views(fragrance@) =~= first_promises(promises@, 3));
    let mut words: Vec<String> = Vec::new();
    let mut j: usize = 0;
    while j < echoes.len() && j < 3
        invariant
            j <= echoes.len(),
            j <= 3,
            views(words@) == Seq::new(j as nat, |k: int| echoes@[k].visible_summary@),
        decreases echoes.len() - j,
    {
        let ghost prev = words@;
        words.push(echoes[j].visible_summary.clone());
        proof {
            crate::text::lemma_views_push(prev, echoes@[j as int].visible_summary);
        }
        assert(views(words@) =~= Seq::new((j + 1) as nat, |k: int| echoes@[k].visible_summary@));
        j = j + 1;
    }
    assert(views(words@) =~= first_echo_words(echoes@, 3));
    let mut heat: Vec<String> = Vec::new();
    let mut k: usize = 0;
    while k < promises.len()
        invariant
            k <= promises.len(),
            views(heat@) == crate::location_graph::take_at_most(
                heat_lines(promises@.subrange(0, k as int)),
                2,
            ),
        decreases promises.len() - k,
    {
        let ghost before = heat_lines(promises@.subrange(0, k as int));
        proof {
            assert(promises@.subrange(0, k + 1).drop_last() =~= promises@.subrange(0, k as int));
        }
        if promises[k].status == HookStatus::PayoffDue && heat.len() < 2 {
            let ghost prev = heat@;
            let line = concat2(
                promises[k].hook_id.as_str(),
                ": 다음 접촉에서 진전 또는 상환이 필요하다.",
            );
            heat.push(line);
            proof {
                crate::text::lemma_views_push(prev, line);
            }
        }
        proof {
            let after = heat_lines(promises@.subrange(0, k + 1));
            if before.len() >= 2 {
                assert(crate::location_graph::take_at_most(after, 2) =~= crate::location_graph::take_at_most(before, 2));
            }
        }
        assert(views(heat@) =~= crate::location_graph::take_at_most(
            heat_lines(promises@.subrange(0, k + 1)),
            2,
        ));
        k = k + 1;
    }
    assert(promises@.subrange(0, promises.len() as int) =~= promises@);
    TeaRecap {
        schema_version: String::from_str(SESSION_RECEIPT_SCHEMA_VERSION),
        remaining_fragrance: fragrance,
        remaining_words: words,
        residual_heat: heat,
    }
}

// ---------------------------------------------------------------------------
// Laws.
// ---------------------------------------------------------------------------

pub open spec fn ids_unique(ts: Seq<ThreadView>) -> bool {
    forall|i: int, j: int| 0 <= i < j < ts.len() ==> ts[i].hook_id != ts[j].hook_id
}

proof fn lemma_find_thread(ts: Seq<ThreadView>, id: Seq<char>, k: int)
    requires
        0 <= k,
    ensures
        match find_thread(ts, id, k) {
            Some(j) => k <= j < ts.len() && ts[j].hook_id == id && forall|m: int|
                k <= m < j ==> ts[m].hook_id != id,
            None => forall|m: int| k <= m < ts.len() ==> ts[m].hook_id != id,
        },
    decreases ts.len() - k,
{
    if k < ts.len() && ts[k].hook_id != id {
        lemma_find_thread(ts, id, k + 1);
    }
}

/// Replaying hook events never creates two threads for one hook id: an
/// `Opened` event for a known hook is ignored.
pub proof fn law_hook_ids_stay_unique(ts: Seq<ThreadView>, recs: Seq<HookEventRecord>)
    requires
        ids_unique(ts),
    ensures
        ids_unique(apply_records(ts, recs)),
    decreases recs.len(),
{
    if recs.len() > 0 {
        law_hook_ids_stay_unique(ts, recs.drop_last());
        let prev = apply_records(ts, recs.drop_last());
        let rec = recs.last();
        lemma_find_thread(prev, rec.hook_id@, 0);
        let next = apply_record(prev, rec);
        assert forall|i: int, j: int| 0 <= i < j < next.len() implies next[i].hook_id
            != next[j].hook_id by {
            if j == prev.len() {
                assert(next[j].hook_id == rec.hook_id@);
                assert(next[i] == prev[i]);
            } else {
                assert(next[i].hook_id == prev[i].hook_id);
                assert(next[j].hook_id == prev[j].hook_id);
            }
        }
    }
}

/// A payoff closes a known hook: after it the hook is no longer an open
/// promise, whatever state it was in.
pub proof fn law_paid_off_hook_is_closed(ts: Seq<ThreadView>, rec: HookEventRecord, k: int)
    requires
        rec.event_kind == HookEventKind::PaidOff,
        find_thread(ts, rec.hook_id@, 0) == Some(k),
    ensures
        apply_record(ts, rec)[k].status == HookStatus::PaidOff,
        !is_open_status(apply_record(ts, rec)[k].status),
        apply_record(ts, rec).len() == ts.len(),
{
    lemma_find_thread(ts, rec.hook_id@, 0);
}

// ---------------------------------------------------------------------------
// Ledger records and rebuilds.
// ---------------------------------------------------------------------------

/// The ledger record of an accepted agent hook event.
pub open spec fn hook_record_is(
    r: HookEventRecord,
    world_id: Seq<char>,
    turn_id: Seq<char>,
    e: AgentHookEvent,
    recorded_at: Seq<char>,
) -> bool {
    &&& r.schema_version@ == HOOK_EVENT_SCHEMA_VERSION@
    &&& r.world_id@ == world_id
    &&& r.turn_id@ == turn_id
    &&& r.event_kind == e.event_kind
    &&& r.hook_id@ == e.hook_id@
    &&& r.kind == e.kind
    &&& r.visible_promise@ == e.visible_promise@
    &&& views(r.anchor_refs@) == views(e.anchor_refs@)
    &&& views(r.evidence_refs@) == views(e.evidence_refs@)
    &&& r.opened_by_event@ == e.opened_by_event@
    &&& contract_same(r.payoff_contract, e.payoff_contract)
    &&& rights_same(r.return_rights, e.return_rights)
    &&& r.recorded_at@ == recorded_at
}

/// The ledger record of an accepted agent hook event, at some time.
pub open spec fn hook_record_for(r: HookEventRecord, world_id: Seq<char>, turn_id: Seq<char>, e: AgentHookEvent) -> bool {
    exists|t: Seq<char>| #[trigger] hook_record_is(r, world_id, turn_id, e, t)
}

/// The record of one accepted event, at the given time.
pub fn hook_event_record(world_id: &str, turn_id: &str, e: &AgentHookEvent, recorded_at: &str) -> (r:
    HookEventRecord)
    ensures
        hook_record_is(r, world_id@, turn_id@, *e, recorded_at@),
{
    HookEventRecord {
        schema_version: String::from_str(HOOK_EVENT_SCHEMA_VERSION),
        world_id: String::from_str(world_id),
        turn_id: String::from_str(turn_id),
        event_kind: e.event_kind,
        hook_id: e.hook_id.clone(),
        kind: e.kind,
        visible_promise: e.visible_promise.clone(),
        anchor_refs: clone_strings(&e.anchor_refs),
        evidence_refs: clone_strings(&e.evidence_refs),
        opened_by_event: e.opened_by_event.clone(),
        payoff_contract: copy_contract(&e.payoff_contract),
        return_rights: copy_rights(&e.return_rights),
        recorded_at: String::from_str(recorded_at),
    }
}

/// The records that a turn's agent hook events append: one per event, each
/// stamped with the current time (of which nothing is promised), once every
/// event is accepted.
pub fn plan_agent_hook_events(world_id: &str, turn_id: &str, events: &[AgentHookEvent]) -> (out: Option<Result<
    Vec<HookEventRecord>,
    HookLedgerError,
>>)
    ensures
        out matches Some(r) ==> ({
            &&& (match r {
                Ok(rs) => {
                    &&& events@.len() <= 1
                    &&& forall|i: int| 0 <= i < events@.len() ==> hook_event_fault(#[trigger] events@[i]) is None
                    &&& rs@.len() == events@.len()
                    &&& forall|i: int|
                        0 <= i < events@.len() ==> #[trigger] hook_record_for(rs@[i], world_id@, turn_id@, events@[i])
                },
                Err(err) => if events@.len() > 1 {
                    err matches HookLedgerError::TooManyPromiseEvents { actual } && actual == events@.len()
                } else {
                    exists|i: int|
                        0 <= i < events@.len() && (forall|k: int|
                            0 <= k < i ==> hook_event_fault(#[trigger] events@[k]) is None)
                            && is_hook_event_error(err, events@[i])
                },
            })
        }),
{
    let accepted = match accepted_agent_hook_events(events) {
        Ok(a) => a,
        Err(e) => {
            return Some(Err(e));
        },
    };
    let mut out: Vec<HookEventRecord> = Vec::new();
    let mut i: usize = 0;
    while i < accepted.len()
        invariant
            i <= accepted@.len(),
            accepted@.len() == events@.len(),
            forall|k: int| 0 <= k < events@.len() ==> hook_event_same(#[trigger] accepted@[k], events@[k]),
            out@.len() == i,
            forall|k: int| 0 <= k < i ==> #[trigger] hook_record_for(out@[k], world_id@, turn_id@, events@[k]),
        decreases accepted.len() - i,
    {
        let now = match now_rfc3339() {
            Some(t) => t,
            None => return None,
        };
        let rec = hook_event_record(world_id, turn_id, &accepted[i], now.as_str());
        proof {
            assert(hook_event_same(accepted@[i as int], events@[i as int]));
            assert(hook_record_is(rec, world_id@, turn_id@, events@[i as int], now@));
        }
        out.push(rec);
        proof {
            assert forall|k: int| 0 <= k < i + 1 implies #[trigger] hook_record_for(out@[k], world_id@, turn_id@, events@[k]) by {
                if k == i {
                    assert(hook_record_is(out@[k], world_id@, turn_id@, events@[k], now@));
                }
            }
        }
        i = i + 1;
    }
    Some(Ok(out))
}

/// What a rebuild of the hook ledger writes and returns.
#[derive(Debug, Clone)]
pub struct HookLedgerRebuild {
    pub hook_state: HookLedgerState,
    pub echo_state: EchoLedgerState,
    pub packet: HookPacket,
    pub receipt: SessionReceipt,
}

fn copy_tea_recap(t: &TeaRecap) -> (r: TeaRecap)
    ensures
        r.schema_version == t.schema_version,
        r.remaining_fragrance@ == t.remaining_fragrance@,
        r.remaining_words@ == t.remaining_words@,
        r.residual_heat@ == t.residual_heat@,
{
    TeaRecap {
        schema_version: t.schema_version.clone(),
        remaining_fragrance: clone_strings(&t.remaining_fragrance),
        remaining_words: clone_strings(&t.remaining_words),
        residual_heat: clone_strings(&t.residual_heat),
    }
}

/// Rebuilds the hook threads from the event log, restamps the echo ledger
/// for this turn, compiles the packet and its session receipt (stamped with
/// the current time, of which nothing is promised).
pub fn rebuild_hook_packet(
    world_id: &str,
    turn_id: &str,
    records: Vec<HookEventRecord>,
    echo_state: EchoLedgerState,
) -> (out: Option<HookLedgerRebuild>)
    ensures
        out matches Some(r) ==> ({
            &&& (r.hook_state.schema_version@ == HOOK_LEDGER_STATE_SCHEMA_VERSION@)
            &&& (r.hook_state.world_id@ == world_id@)
            &&& (r.hook_state.turn_id@ == turn_id@)
            &&& (thread_views(r.hook_state.active_threads@) == apply_records(Seq::empty(), records@))
            &&& (r.echo_state.schema_version == echo_state.schema_version)
            &&& (r.echo_state.world_id@ == world_id@)
            &&& (r.echo_state.turn_id@ == turn_id@)
            &&& (r.echo_state.active_echoes@ == echo_state.active_echoes@)
            &&& (r.packet.world_id@ == world_id@)
            &&& (r.packet.turn_id@ == turn_id@)
            &&& (thread_views(r.packet.active_promises@) == thread_views(open_threads(r.hook_state.active_threads@)))
            &&& (thread_views(r.packet.due_promises@) == thread_views(due_threads(open_threads(r.hook_state.active_threads@))))
            &&& (r.packet.active_echoes@.len() == live_echoes(echo_state.active_echoes@).len())
            &&& (r.receipt.schema_version@ == SESSION_RECEIPT_SCHEMA_VERSION@)
            &&& (r.receipt.world_id@ == world_id@)
            &&& (r.receipt.turn_id@ == turn_id@)
            &&& (r.receipt.tea_recap.schema_version == r.packet.tea_recap.schema_version)
            &&& (r.receipt.tea_recap.remaining_fragrance@ == r.packet.tea_recap.remaining_fragrance@)
            &&& (r.receipt.tea_recap.remaining_words@ == r.packet.tea_recap.remaining_words@)
            &&& (r.receipt.tea_recap.residual_heat@ == r.packet.tea_recap.residual_heat@)
        }),
{
    let now = match now_rfc3339() {
        Some(t) => t,
        None => return None,
    };
    let threads = threads_from_records(records);
    let hook_state = HookLedgerState {
        schema_version: String::from_str(HOOK_LEDGER_STATE_SCHEMA_VERSION),
        world_id: String::from_str(world_id),
        turn_id: String::from_str(turn_id),
        active_threads: threads,
        compiler_policy: HookLedgerPolicy::default(),
    };
    let mut echo_state = echo_state;
    echo_state.world_id = String::from_str(world_id);
    echo_state.turn_id = String::from_str(turn_id);
    let packet = hook_packet_from_states(world_id, turn_id, &hook_state, &echo_state);
    let receipt = SessionReceipt {
        schema_version: String::from_str(SESSION_RECEIPT_SCHEMA_VERSION),
        world_id: String::from_str(world_id),
        turn_id: String::from_str(turn_id),
        tea_recap: copy_tea_recap(&packet.tea_recap),
        updated_at: now,
    };
    Some(HookLedgerRebuild { hook_state, echo_state, packet, receipt })
}


/// The echoes an echo ledger holds, none when there is no ledger yet.
pub open spec fn prior_echoes(s: Option<EchoLedgerState>) -> Seq<UnchosenEcho> {
    match s {
        Some(s) => s.active_echoes@,
        None => Seq::empty(),
    }
}

pub open spec fn has_echo_id(es: Seq<UnchosenEcho>, id: Seq<char>) -> bool {
    exists|i: int| 0 <= i < es.len() && #[trigger] es[i].echo_id@ == id
}

/// The echoes after a choice set was offered: unchanged when no displayed
/// choice can echo; otherwise the echo of the picked choice is added unless
/// an echo with its id is already there.
pub open spec fn echoes_after_offer(
    before: Seq<UnchosenEcho>,
    offered: OfferedChoiceSet,
    selected_slot: Option<u8>,
    after: Seq<UnchosenEcho>,
) -> bool {
    ||| {
        &&& forall|i: int|
            0 <= i < offered.choices@.len() ==> !echo_candidate(
                #[trigger] offered.choices@[i],
                selected_slot,
            )
        &&& after == before
    }
    ||| exists|e: UnchosenEcho, i: int|
        #![trigger echo_of(e, offered, offered.choices@[i])]
        {
            &&& is_echo_pick(offered.choices@, selected_slot, i)
            &&& echo_of(e, offered, offered.choices@[i])
            &&& after == (if has_echo_id(before, e.echo_id@) {
                before
            } else {
                before.push(e)
            })
        }
}

/// What recording an offered choice set gives: the set to append to the
/// offered-choice log, and the hook ledger rebuilt with the echo ledger that
/// holds at most one new echo.
#[derive(Debug, Clone)]
pub struct OfferedChoiceRecord {
    pub offered: OfferedChoiceSet,
    pub rebuild: HookLedgerRebuild,
}

/// Records the offered choice set (stamped with the time of the call),
/// adds the echo of the heaviest unchosen choice to the echo ledger (a fresh
/// one when there is none), and rebuilds the hook ledger from its event log.
pub fn record_offered_choice_set_and_echo(
    world_id: &str,
    turn_id: &str,
    scene_id: &str,
    choices: &[TurnChoice],
    selected_slot: Option<u8>,
    records: Vec<HookEventRecord>,
    echo_state: Option<EchoLedgerState>,
) -> (out: Option<OfferedChoiceRecord>)
    ensures
        out matches Some(r) ==> ({
            &&& (r.offered.schema_version@ == OFFERED_CHOICE_SET_SCHEMA_VERSION@)
            &&& (r.offered.world_id@ == world_id@)
            &&& (r.offered.turn_id@ == turn_id@)
            &&& (r.offered.scene_id@ == scene_id@)
            &&& (r.offered.choices@.len() == ordinary_choices(choices@).len())
            &&& (forall|i: int|
                0 <= i < r.offered.choices@.len() ==> offered_choice_of(
                    #[trigger] r.offered.choices@[i],
                    ordinary_choices(choices@)[i],
                    turn_id@,
                ))
            &&& (echoes_after_offer(
                prior_echoes(echo_state),
                r.offered,
                selected_slot,
                r.rebuild.echo_state.active_echoes@,
            ))
            &&& (r.rebuild.echo_state.world_id@ == world_id@)
            &&& (r.rebuild.echo_state.turn_id@ == turn_id@)
            &&& (echo_state is None ==> r.rebuild.echo_state.schema_version@ == ECHO_LEDGER_STATE_SCHEMA_VERSION@)
            &&& (echo_state matches Some(s) ==> r.rebuild.echo_state.schema_version == s.schema_version)
            &&& (r.rebuild.hook_state.world_id@ == world_id@)
            &&& (r.rebuild.hook_state.turn_id@ == turn_id@)
            &&& (thread_views(r.rebuild.hook_state.active_threads@) == apply_records(Seq::empty(), records@))
            &&& (r.rebuild.packet.world_id@ == world_id@)
            &&& (r.rebuild.packet.turn_id@ == turn_id@)
            &&& (r.rebuild.packet.active_echoes@.len() == live_echoes(r.rebuild.echo_state.active_echoes@).len())
        }),
{
    let recorded_at = match now_rfc3339() {
        Some(t) => t,
        None => return None,
    };
    let offered = offered_choice_set(world_id, turn_id, scene_id, choices, recorded_at.as_str());
    let mut state = match echo_state {
        Some(s) => s,
        None => EchoLedgerState::empty(world_id, turn_id),
    };
    let ghost before = state.active_echoes@;
    assert(before == prior_echoes(echo_state));
    match create_unchosen_echo(&offered, selected_slot) {
        Some(echo) => {
            let ghost e = echo;
            record_unchosen_echo(&mut state, world_id, turn_id, echo);
            proof {
                let i = choose|i: int|
                    is_echo_pick(offered.choices@, selected_slot, i) && echo_of(e, offered, offered.choices@[i]);
                assert(echo_of(e, offered, offered.choices@[i]));
                if has_echo_id(before, e.echo_id@) {
                    assert(state.active_echoes@ == before);
                } else {
                    assert(state.active_echoes@ == before.push(e));
                }
                assert(echoes_after_offer(before, offered, selected_slot, state.active_echoes@));
            }
        },
        None => {
            state.world_id = String::from_str(world_id);
            state.turn_id = String::from_str(turn_id);
        },
    }
    let rebuild = match rebuild_hook_packet(world_id, turn_id, records, state) {
        Some(b) => b,
        None => return None,
    };
    Some(OfferedChoiceRecord { offered, rebuild })
}


/// Recording an offered choice set adds at most one echo, keeps every echo
/// that was there, and never adds a second echo with an id already present.
pub proof fn law_offer_adds_at_most_one_echo(
    before: Seq<UnchosenEcho>,
    offered: OfferedChoiceSet,
    selected_slot: Option<u8>,
    after: Seq<UnchosenEcho>,
)
    requires
        echoes_after_offer(before, offered, selected_slot, after),
    ensures
        before.len() <= after.len() <= before.len() + 1,
        after.subrange(0, before.len() as int) == before,
        after.len() == before.len() + 1 ==> !has_echo_id(before, after.last().echo_id@),
{
    if after != before {
        let (e, i) = choose|e: UnchosenEcho, i: int|
            #![trigger echo_of(e, offered, offered.choices@[i])]
            {
                &&& is_echo_pick(offered.choices@, selected_slot, i)
                &&& echo_of(e, offered, offered.choices@[i])
                &&& after == (if has_echo_id(before, e.echo_id@) {
                    before
                } else {
                    before.push(e)
                })
            };
        assert(after == before.push(e));
        assert(after.subrange(0, before.len() as int) =~= before);
    } else {
        assert(after.subrange(0, before.len() as int) =~= before);
    }
}

} // verus!
