//! The agent turn contract: narrative budgets, the shape of an agent's
//! response, and the checks on its next choices.
use crate::actor_agency::{AgentActorGoalUpdate, AgentActorMoveUpdate};
use crate::consequence_spine::ConsequenceProposal;
use crate::encounter_surface::EncounterProposal;
use crate::hook_ledger::AgentHookEvent;
use crate::models::{
    AdjudicationGate, CharacterRecord, CharacterVoiceAnchor, EntityRecords, FREEFORM_CHOICE_SLOT, FREEFORM_CHOICE_TAG,
    GUIDE_CHOICE_REDACTED_INTENT, GUIDE_CHOICE_SLOT, GUIDE_CHOICE_TAG, HiddenState, TurnChoice,
    TurnSnapshot,
};
use crate::resolution::ResolutionProposal;
use crate::response_context::AgentCharacterTextDesignUpdate;
use crate::social_exchange::SocialExchangeProposal;
use crate::chat::{parse_u8, parse_u8_str};
use crate::encounter_events::{parse_u64_str, parse_u64_text};
use crate::text::{
    chars_of, concat2, concat3, concat4, contains, contains_any, contains_any_str, contains_str,
    dec, dec_string, is_blank, is_blank_str, is_ws, is_ws_char, join, join_strings, starts_with,
    str_eq, str_views, trim, trim_str, views, clone_strings, lemma_views_push,
};
use crate::scene_director::SceneDirectorProposal;
use crate::clock::now_rfc3339;
use crate::extra_memory::{copy_voice, voice_view};
use vstd::prelude::*;

verus! {

/// How long a narrated turn should run at a narrative level.
#[derive(Debug, Clone)]
pub struct AgentNarrativeBudget {
    pub level_label: String,
    pub ordinary_turn_blocks: u8,
    pub standard_choice_turn_blocks: u8,
    pub major_turn_blocks: u8,
    pub opening_or_climax_blocks: u8,
    pub target_chars: u32,
    pub major_target_chars: u32,
    pub ordinary_turn: String,
    pub standard_choice_turn: String,
    pub major_turn: String,
    pub opening_or_climax: String,
    pub character_budget: String,
}

pub const DEFAULT_NARRATIVE_LEVEL: u8 = 1;

/// The narrative level asked for, defaulting to 1 and clamped to 1..=3.
pub open spec fn narrative_level(level: Option<u8>) -> u8 {
    let l = match level {
        Some(l) => l,
        None => DEFAULT_NARRATIVE_LEVEL,
    };
    if l < 1 {
        1
    } else if l > 3 {
        3
    } else {
        l
    }
}

pub fn normalize_narrative_level(level: Option<u8>) -> (r: u8)
    ensures
        r == narrative_level(level),
        1 <= r <= 3,
{
    let l = match level {
        Some(l) => l,
        None => DEFAULT_NARRATIVE_LEVEL,
    };
    if l < 1 {
        1
    } else if l > 3 {
        3
    } else {
        l
    }
}

/// The budget of each narrative level: (blocks for an ordinary turn, a
/// standard choice turn, a major turn, an opening or climax; target
/// characters for a turn and a major turn).
pub open spec fn budget_numbers(level: u8) -> (u8, u8, u8, u8, u32, u32) {
    if level == 1 {
        (3, 6, 8, 10, 1400, 2200)
    } else if level == 2 {
        (5, 9, 12, 14, 3400, 4800)
    } else {
        (9, 14, 20, 24, 7000, 12000)
    }
}

/// The wording of each narrative level: (label, ordinary turn, standard
/// choice turn, major turn, opening or climax, character budget).
pub open spec fn budget_texts(level: u8) -> (Seq<char>, Seq<char>, Seq<char>, Seq<char>, Seq<char>, Seq<char>) {
    if level == 1 {
        (
            "서사레벨 1: 표준 VN 밀도"@,
            "일상/이동/짧은 관찰은 2-3문단"@,
            "기본 선택 턴은 4-6문단"@,
            "전투 시작, 첫 인물 등장, 장소 전환, 비밀 단서 발견은 6-8문단"@,
            "챕터 오프닝/클라이맥스는 8-10문단"@,
            "기본 턴 900-1400자, 큰 턴 1600-2200자"@,
        )
    } else if level == 2 {
        (
            "서사레벨 2: 장면 확장 밀도"@,
            "일상/이동/짧은 관찰도 4-5문단"@,
            "기본 선택 턴은 7-9문단"@,
            "전투 시작, 첫 인물 등장, 장소 전환, 비밀 단서 발견은 10-12문단"@,
            "챕터 오프닝/클라이맥스는 12-14문단"@,
            "기본 턴 2200-3400자, 큰 턴 3600-4800자"@,
        )
    } else {
        (
            "서사레벨 3: 장편 연재 밀도"@,
            "일상/이동/짧은 관찰도 7-9문단"@,
            "기본 선택 턴은 11-14문단"@,
            "전투 시작, 첫 인물 등장, 장소 전환, 비밀 단서 발견은 16-20문단"@,
            "챕터 오프닝/클라이맥스는 20-24문단"@,
            "기본 턴 4500-7000자, 큰 턴 8000-12000자"@,
        )
    }
}

pub open spec fn is_budget_for(b: AgentNarrativeBudget, level: u8) -> bool {
    let n = budget_numbers(level);
    let t = budget_texts(level);
    &&& b.ordinary_turn_blocks == n.0
    &&& b.standard_choice_turn_blocks == n.1
    &&& b.major_turn_blocks == n.2
    &&& b.opening_or_climax_blocks == n.3
    &&& b.target_chars == n.4
    &&& b.major_target_chars == n.5
    &&& b.level_label@ == t.0
    &&& b.ordinary_turn@ == t.1
    &&& b.standard_choice_turn@ == t.2
    &&& b.major_turn@ == t.3
    &&& b.opening_or_climax@ == t.4
    &&& b.character_budget@ == t.5
}

/// The narrative budget of the (normalised) level.
pub fn narrative_budget_for_level(level: Option<u8>) -> (r: AgentNarrativeBudget)
    ensures
        is_budget_for(r, narrative_level(level)),
{
    match normalize_narrative_level(level) {
        1 => AgentNarrativeBudget {
            level_label: String::from_str("서사레벨 1: 표준 VN 밀도"),
            ordinary_turn_blocks: 3,
            standard_choice_turn_blocks: 6,
            major_turn_blocks: 8,
            opening_or_climax_blocks: 10,
            target_chars: 1400,
            major_target_chars: 2200,
            ordinary_turn: String::from_str("일상/이동/짧은 관찰은 2-3문단"),
            standard_choice_turn: String::from_str("기본 선택 턴은 4-6문단"),
            major_turn: String::from_str("전투 시작, 첫 인물 등장, 장소 전환, 비밀 단서 발견은 6-8문단"),
            opening_or_climax: String::from_str("챕터 오프닝/클라이맥스는 8-10문단"),
            character_budget: String::from_str("기본 턴 900-1400자, 큰 턴 1600-2200자"),
        },
        2 => AgentNarrativeBudget {
            level_label: String::from_str("서사레벨 2: 장면 확장 밀도"),
            ordinary_turn_blocks: 5,
            standard_choice_turn_blocks: 9,
            major_turn_blocks: 12,
            opening_or_climax_blocks: 14,
            target_chars: 3400,
            major_target_chars: 4800,
            ordinary_turn: String::from_str("일상/이동/짧은 관찰도 4-5문단"),
            standard_choice_turn: String::from_str("기본 선택 턴은 7-9문단"),
            major_turn: String::from_str("전투 시작, 첫 인물 등장, 장소 전환, 비밀 단서 발견은 10-12문단"),
            opening_or_climax: String::from_str("챕터 오프닝/클라이맥스는 12-14문단"),
            character_budget: String::from_str("기본 턴 2200-3400자, 큰 턴 3600-4800자"),
        },
        _ => AgentNarrativeBudget {
            level_label: String::from_str("서사레벨 3: 장편 연재 밀도"),
            ordinary_turn_blocks: 9,
            standard_choice_turn_blocks: 14,
            major_turn_blocks: 20,
            opening_or_climax_blocks: 24,
            target_chars: 7000,
            major_target_chars: 12000,
            ordinary_turn: String::from_str("일상/이동/짧은 관찰도 7-9문단"),
            standard_choice_turn: String::from_str("기본 선택 턴은 11-14문단"),
            major_turn: String::from_str("전투 시작, 첫 인물 등장, 장소 전환, 비밀 단서 발견은 16-20문단"),
            opening_or_climax: String::from_str("챕터 오프닝/클라이맥스는 20-24문단"),
            character_budget: String::from_str("기본 턴 4500-7000자, 큰 턴 8000-12000자"),
        },
    }
}

/// Each level has its own choice-turn length, and levels past 3 read as 3.
pub proof fn law_narrative_levels_distinct_and_clamped(a: Option<u8>, b: Option<u8>)
    ensures
        narrative_level(a) != narrative_level(b) ==> budget_numbers(narrative_level(a)).1
            != budget_numbers(narrative_level(b)).1,
        1 <= narrative_level(a) <= 3,
        (a matches Some(x) && x >= 3) ==> narrative_level(a) == 3,
        (a matches Some(x) && x <= 1) ==> narrative_level(a) == 1,
        a is None ==> narrative_level(a) == 1,
{
}


// ---------------------------------------------------------------------------
// The agent's response.
// ---------------------------------------------------------------------------

pub const AGENT_TURN_RESPONSE_SCHEMA_VERSION: &'static str = "singulari.agent_turn_response.v1";
pub const NARRATIVE_SCENE_SCHEMA_VERSION: &'static str = "singulari.narrative_scene.v1";

/// The player-visible scene text of a turn.
#[derive(Debug, Clone)]
pub struct NarrativeScene {
    pub schema_version: String,
    pub speaker: Option<String>,
    pub text_blocks: Vec<String>,
    pub tone_notes: Vec<String>,
}

#[derive(Debug, Clone)]
pub struct AgentResponseAdjudication {
    pub outcome: String,
    pub summary: String,
    pub gates: Vec<AdjudicationGate>,
    pub visible_constraints: Vec<String>,
    pub consequences: Vec<String>,
}

#[derive(Debug, Clone)]
pub struct AgentResponseCanonEvent {
    pub visibility: String,
    pub kind: String,
    pub summary: String,
}

#[derive(Debug, Clone)]
pub struct AgentContextRepairRequest {
    pub request_id: String,
    pub capsule_kinds: Vec<String>,
    pub query: String,
    pub reason: String,
    pub evidence_refs: Vec<String>,
}

#[derive(Debug, Clone)]
pub struct AgentExtraContact {
    pub surface_label: String,
    pub known_name: Option<String>,
    pub role: Option<String>,
    pub location_id: Option<String>,
    pub scene_role: Option<String>,
    pub contact_summary: String,
    pub pressure_tags: Vec<String>,
    pub promotion_hint: Option<String>,
    pub memory_action: Option<String>,
    pub disposition: Option<String>,
    pub text_design: Option<CharacterVoiceAnchor>,
    pub open_hooks: Vec<String>,
}

/// What an agent returns for a pending turn.
#[derive(Debug, Clone)]
pub struct AgentTurnResponse {
    pub schema_version: String,
    pub world_id: String,
    pub turn_id: String,
    pub resolution_proposal: Option<ResolutionProposal>,
    pub scene_director_proposal: Option<SceneDirectorProposal>,
    pub consequence_proposal: Option<ConsequenceProposal>,
    pub social_exchange_proposal: Option<SocialExchangeProposal>,
    pub encounter_proposal: Option<EncounterProposal>,
    pub visible_scene: NarrativeScene,
    pub adjudication: Option<AgentResponseAdjudication>,
    pub canon_event: Option<AgentResponseCanonEvent>,
    pub entity_updates: Vec<AgentEntityUpdate>,
    pub character_text_design_updates: Vec<AgentCharacterTextDesignUpdate>,
    pub extra_contacts: Vec<AgentExtraContact>,
    pub needs_context: Vec<AgentContextRepairRequest>,
    pub next_choices: Vec<TurnChoice>,
    pub actor_goal_events: Vec<AgentActorGoalUpdate>,
    pub actor_move_events: Vec<AgentActorMoveUpdate>,
    pub hook_events: Vec<AgentHookEvent>,
}

/// An entity change an agent reports.
#[derive(Debug, Clone)]
pub struct AgentEntityUpdate {
    pub entity_id: String,
    pub update_kind: String,
    pub visibility: String,
    pub summary: String,
}

// ---------------------------------------------------------------------------
// The slot contract of the next choices.
// ---------------------------------------------------------------------------

pub const LEGACY_GUIDE_CHOICE_TAG: &'static str = "판단 위임";
pub const DEFAULT_FREEFORM_INTENT: &'static str = "6 뒤에 직접 행동, 말, 내면 독백을 서술한다";

/// The tags the delegated-judgment choice goes by.
pub open spec fn is_guide_tag(tag: Seq<char>) -> bool {
    tag == GUIDE_CHOICE_TAG@ || tag == LEGACY_GUIDE_CHOICE_TAG@
}

pub fn is_guide_choice_tag(tag: &str) -> (r: bool)
    ensures
        r == is_guide_tag(tag@),
{
    str_eq(tag, GUIDE_CHOICE_TAG) || str_eq(tag, LEGACY_GUIDE_CHOICE_TAG)
}

/// The older layout: slots 1 to 7 in order, the guide choice at slot 4 and
/// the freeform choice at slot 7.
pub open spec fn legacy_layout(cs: Seq<TurnChoice>) -> bool {
    &&& cs.len() == 7
    &&& forall|k: int| 0 <= k < 7 ==> (#[trigger] cs[k]).slot == k + 1
    &&& is_guide_tag(cs[3].tag@)
}

pub open spec fn choice_is(c: TurnChoice, slot: u8, tag: Seq<char>, intent: Seq<char>) -> bool {
    c.slot == slot && c.tag@ == tag && c.intent@ == intent
}

fn copy_choice(c: &TurnChoice) -> (r: TurnChoice)
    ensures
        r == *c,
{
    TurnChoice { slot: c.slot, tag: c.tag.clone(), intent: c.intent.clone() }
}

fn make_choice(slot: u8, tag: &str, intent: &str) -> (r: TurnChoice)
    ensures
        choice_is(r, slot, tag@, intent@),
{
    TurnChoice { slot, tag: String::from_str(tag), intent: String::from_str(intent) }
}

/// Choices in the older layout move to the current one: slots 5 and 6 step
/// down to 4 and 5, and slots 6 and 7 become the freeform and guide
/// choices; any other list is kept as it is.
pub fn normalize_turn_choices(cs: &Vec<TurnChoice>) -> (r: Vec<TurnChoice>)
    ensures
        !legacy_layout(cs@) ==> r@ == cs@,
        legacy_layout(cs@) ==> {
            &&& r@.len() == 7
            &&& r@[0] == cs@[0]
            &&& r@[1] == cs@[1]
            &&& r@[2] == cs@[2]
            &&& choice_is(r@[3], 4, cs@[4].tag@, cs@[4].intent@)
            &&& choice_is(r@[4], 5, cs@[5].tag@, cs@[5].intent@)
            &&& choice_is(r@[5], FREEFORM_CHOICE_SLOT, FREEFORM_CHOICE_TAG@, DEFAULT_FREEFORM_INTENT@)
            &&& choice_is(r@[6], GUIDE_CHOICE_SLOT, GUIDE_CHOICE_TAG@, GUIDE_CHOICE_REDACTED_INTENT@)
        },
{
    let mut legacy = cs.len() == 7;
    let mut k: usize = 0;
    while legacy && k < 7
        invariant
            k <= 7,
            legacy ==> cs@.len() == 7,
            legacy ==> forall|j: int| 0 <= j < k ==> (#[trigger] cs@[j]).slot == j + 1,
            !legacy ==> !legacy_layout(cs@),
        decreases 7 - k,
    {
        if cs[k].slot as usize != k + 1 {
            legacy = false;
        }
        k = k + 1;
    }
    if legacy && !is_guide_choice_tag(cs[3].tag.as_str()) {
        legacy = false;
    }
    let mut out: Vec<TurnChoice> = Vec::new();
    if legacy {
        out.push(copy_choice(&cs[0]));
        out.push(copy_choice(&cs[1]));
        out.push(copy_choice(&cs[2]));
        out.push(TurnChoice { slot: 4, tag: cs[4].tag.clone(), intent: cs[4].intent.clone() });
        out.push(TurnChoice { slot: 5, tag: cs[5].tag.clone(), intent: cs[5].intent.clone() });
        out.push(make_choice(FREEFORM_CHOICE_SLOT, FREEFORM_CHOICE_TAG, DEFAULT_FREEFORM_INTENT));
        out.push(make_choice(GUIDE_CHOICE_SLOT, GUIDE_CHOICE_TAG, GUIDE_CHOICE_REDACTED_INTENT));
    } else {
        let mut i: usize = 0;
        while i < cs.len()
            invariant
                i <= cs@.len(),
                out@ == cs@.subrange(0, i as int),
            decreases cs.len() - i,
        {
            out.push(copy_choice(&cs[i]));
            assert(out@ =~= cs@.subrange(0, i + 1));
            i = i + 1;
        }
        assert(cs@.subrange(0, cs@.len() as int) =~= cs@);
    }
    out
}

/// `r` is `response` with its next choices put in the current slot layout
/// when they are seven in the legacy layout; every other field is kept.
pub open spec fn canonical_is(response: AgentTurnResponse, r: AgentTurnResponse) -> bool {
    &&& (response.next_choices@.len() != 7 ==> r.next_choices@ == response.next_choices@)
    &&& (response.next_choices@.len() == 7 && !legacy_layout(response.next_choices@) ==> r.next_choices@
        == response.next_choices@)
    &&& (response.next_choices@.len() == 7 && legacy_layout(response.next_choices@) ==> {
        let cs = response.next_choices@;
        &&& r.next_choices@.len() == 7
        &&& r.next_choices@[0] == cs[0]
        &&& r.next_choices@[1] == cs[1]
        &&& r.next_choices@[2] == cs[2]
        &&& choice_is(r.next_choices@[3], 4, cs[4].tag@, cs[4].intent@)
        &&& choice_is(r.next_choices@[4], 5, cs[5].tag@, cs[5].intent@)
        &&& choice_is(r.next_choices@[5], FREEFORM_CHOICE_SLOT, FREEFORM_CHOICE_TAG@, DEFAULT_FREEFORM_INTENT@)
        &&& choice_is(r.next_choices@[6], GUIDE_CHOICE_SLOT, GUIDE_CHOICE_TAG@, GUIDE_CHOICE_REDACTED_INTENT@)
    })
    &&& r == (AgentTurnResponse { next_choices: r.next_choices, ..response })
}

/// A response of seven choices has them put in the current slot layout.
pub fn canonical_agent_turn_response(response: AgentTurnResponse) -> (r: AgentTurnResponse)
    ensures
        response.next_choices@.len() != 7 ==> r.next_choices@ == response.next_choices@,
        response.next_choices@.len() == 7 && !legacy_layout(response.next_choices@) ==> r.next_choices@
            == response.next_choices@,
        response.next_choices@.len() == 7 && legacy_layout(response.next_choices@) ==> {
            let cs = response.next_choices@;
            &&& r.next_choices@.len() == 7
            &&& r.next_choices@[0] == cs[0]
            &&& r.next_choices@[1] == cs[1]
            &&& r.next_choices@[2] == cs[2]
            &&& choice_is(r.next_choices@[3], 4, cs[4].tag@, cs[4].intent@)
            &&& choice_is(r.next_choices@[4], 5, cs[5].tag@, cs[5].intent@)
            &&& choice_is(r.next_choices@[5], FREEFORM_CHOICE_SLOT, FREEFORM_CHOICE_TAG@, DEFAULT_FREEFORM_INTENT@)
            &&& choice_is(r.next_choices@[6], GUIDE_CHOICE_SLOT, GUIDE_CHOICE_TAG@, GUIDE_CHOICE_REDACTED_INTENT@)
        },
        r.schema_version == response.schema_version,
        r.world_id == response.world_id,
        r.turn_id == response.turn_id,
        r == (AgentTurnResponse { next_choices: r.next_choices, ..response }),
        canonical_is(response, r),
{
    let mut response = response;
    if response.next_choices.len() == 7 {
        response.next_choices = normalize_turn_choices(&response.next_choices);
    }
    response
}

pub open spec fn internal_tokens() -> Seq<Seq<char>> {
    seq![
        "char:anchor"@,
        "anchor_character"@,
        "앵커 인물"@,
        "hidden"@,
        "secret"@,
        "숨겨진 진실"@,
        "시드가 정한"@,
        "seed-defined"@,
    ]
}

/// The text names something only the engine should see.
pub fn leaks_internal_choice_token(value: &str) -> (r: bool)
    ensures
        r == contains_any(value@, internal_tokens()),
{
    let tokens: [&str; 8] = [
        "char:anchor",
        "anchor_character",
        "앵커 인물",
        "hidden",
        "secret",
        "숨겨진 진실",
        "시드가 정한",
        "seed-defined",
    ];
    assert(str_views(tokens@) =~= internal_tokens());
    contains_any_str(value, &tokens)
}


/// Why an agent's next choices were refused.
#[derive(Debug, Clone)]
pub enum AgentResponseError {
    NextChoicesCount { actual: usize },
    NextChoicesSlots { actual: Vec<u8> },
    GuideSlotRewritten,
    FreeformSlotRewritten,
    InternalToken { slot: u8, field: String },
    DefaultTemplate,
}

/// The faults of a choice list, as the contracts speak of them.
pub enum ChoiceFault {
    Count(nat),
    Slots(Seq<u8>),
    GuideSlot,
    FreeformSlot,
    InternalToken(u8, Seq<char>),
    DefaultTemplate,
}

pub open spec fn choice_fault_of(e: AgentResponseError) -> ChoiceFault {
    match e {
        AgentResponseError::NextChoicesCount { actual } => ChoiceFault::Count(actual as nat),
        AgentResponseError::NextChoicesSlots { actual } => ChoiceFault::Slots(actual@),
        AgentResponseError::GuideSlotRewritten => ChoiceFault::GuideSlot,
        AgentResponseError::FreeformSlotRewritten => ChoiceFault::FreeformSlot,
        AgentResponseError::InternalToken { slot, field } => ChoiceFault::InternalToken(slot, field@),
        AgentResponseError::DefaultTemplate => ChoiceFault::DefaultTemplate,
    }
}

pub open spec fn slot_set_text(slots: Seq<u8>) -> Seq<char> {
    "{"@ + join(slots.map_values(|v: u8| dec(v as nat)), ", "@) + "}"@
}

impl AgentResponseError {
    pub fn message(&self) -> (r: String)
        ensures
            match self {
                AgentResponseError::NextChoicesCount { actual } => r@
                    == "agent response next_choices must contain exactly slots 1..7: actual_len="@
                    + dec(*actual as nat),
                AgentResponseError::NextChoicesSlots { actual } => r@
                    == "agent response next_choices must contain slots 1..7 exactly: actual="@
                    + slot_set_text(actual@),
                AgentResponseError::GuideSlotRewritten => r@
                    == "agent response slot 7 must keep hidden delegated-judgment wording"@,
                AgentResponseError::FreeformSlotRewritten => r@
                    == "agent response slot 6 must remain inline freeform"@,
                AgentResponseError::InternalToken { slot, field } => r@
                    == "agent response next_choices[slot="@ + dec(*slot as nat) + "] "@ + field@
                    + " contains internal token"@,
                AgentResponseError::DefaultTemplate => r@
                    == "agent response next_choices must be scene-specific; default template choices leaked"@,
            },
    {
        match self {
            AgentResponseError::NextChoicesCount { actual } => {
                let n = dec_string(*actual as u64);
                concat2("agent response next_choices must contain exactly slots 1..7: actual_len=", n.as_str())
            },
            AgentResponseError::NextChoicesSlots { actual } => {
                let mut parts: Vec<String> = Vec::new();
                let mut i: usize = 0;
                while i < actual.len()
                    invariant
                        i <= actual@.len(),
                        views(parts@) == actual@.subrange(0, i as int).map_values(|v: u8| dec(v as nat)),
                    decreases actual.len() - i,
                {
                    let ghost before = parts@;
                    let d = dec_string(actual[i] as u64);
                    parts.push(d);
                    proof {
                        crate::text::lemma_views_push(before, d);
                        assert(actual@.subrange(0, i + 1).map_values(|v: u8| dec(v as nat)) =~= actual@.subrange(
                            0,
                            i as int,
                        ).map_values(|v: u8| dec(v as nat)).push(dec(actual@[i as int] as nat)));
                    }
                    i = i + 1;
                }
                assert(actual@.subrange(0, actual@.len() as int) =~= actual@);
                let joined = join_strings(&parts, ", ");
                let set = concat3("{", joined.as_str(), "}");
                concat2("agent response next_choices must contain slots 1..7 exactly: actual=", set.as_str())
            },
            AgentResponseError::GuideSlotRewritten => String::from_str(
                "agent response slot 7 must keep hidden delegated-judgment wording",
            ),
            AgentResponseError::FreeformSlotRewritten => String::from_str(
                "agent response slot 6 must remain inline freeform",
            ),
            AgentResponseError::InternalToken { slot, field } => {
                let n = dec_string(*slot as u64);
                let head = concat3("agent response next_choices[slot=", n.as_str(), "] ");
                concat3(head.as_str(), field.as_str(), " contains internal token")
            },
            AgentResponseError::DefaultTemplate => String::from_str(
                "agent response next_choices must be scene-specific; default template choices leaked",
            ),
        }
    }
}

pub open spec fn has_choice_slot(cs: Seq<TurnChoice>, slot: u8) -> bool {
    exists|i: int| 0 <= i < cs.len() && (#[trigger] cs[i]).slot == slot
}

/// The slots 1 to 7 each appear, and no other.
pub open spec fn slots_exact(cs: Seq<TurnChoice>) -> bool {
    &&& forall|s: u8| 1 <= s <= 7 ==> has_choice_slot(cs, s)
    &&& forall|i: int| 0 <= i < cs.len() ==> 1 <= (#[trigger] cs[i]).slot <= 7
}

/// The distinct slots below `n`, in increasing order.
pub open spec fn present_slots_below(cs: Seq<TurnChoice>, n: nat) -> Seq<u8>
    decreases n,
{
    if n == 0 {
        Seq::empty()
    } else {
        let prev = present_slots_below(cs, (n - 1) as nat);
        if has_choice_slot(cs, (n - 1) as u8) {
            prev.push((n - 1) as u8)
        } else {
            prev
        }
    }
}

/// The first choice at `slot`, or -1.
pub open spec fn choice_index(cs: Seq<TurnChoice>, slot: u8) -> int
    decreases cs.len(),
{
    if cs.len() == 0 {
        -1
    } else {
        let f = choice_index(cs.drop_last(), slot);
        if f >= 0 {
            f
        } else if cs.last().slot == slot {
            cs.len() - 1
        } else {
            -1
        }
    }
}

pub proof fn lemma_choice_index(cs: Seq<TurnChoice>, slot: u8)
    ensures
        -1 <= choice_index(cs, slot) < cs.len(),
        choice_index(cs, slot) >= 0 ==> cs[choice_index(cs, slot)].slot == slot,
        choice_index(cs, slot) >= 0 ==> forall|j: int| 0 <= j < choice_index(cs, slot) ==> cs[j].slot != slot,
        choice_index(cs, slot) < 0 ==> forall|j: int| 0 <= j < cs.len() ==> cs[j].slot != slot,
    decreases cs.len(),
{
    if cs.len() > 0 {
        let d = cs.drop_last();
        lemma_choice_index(d, slot);
        assert forall|j: int| 0 <= j < d.len() implies cs[j] == d[j] by {}
    }
}

pub proof fn lemma_choice_index_is(cs: Seq<TurnChoice>, slot: u8, i: int)
    requires
        0 <= i < cs.len(),
        cs[i].slot == slot,
        forall|j: int| 0 <= j < i ==> cs[j].slot != slot,
    ensures
        choice_index(cs, slot) == i,
    decreases cs.len(),
{
    let d = cs.drop_last();
    if i < cs.len() - 1 {
        lemma_choice_index_is(d, slot, i);
    } else {
        lemma_choice_index(d, slot);
        if choice_index(d, slot) >= 0 {
            assert(d[choice_index(d, slot)] == cs[choice_index(d, slot)]);
        }
    }
}

/// The first choice whose tag, then intent, names an internal token.
pub open spec fn first_leak(cs: Seq<TurnChoice>) -> Option<(u8, Seq<char>)>
    decreases cs.len(),
{
    if cs.len() == 0 {
        None
    } else {
        match first_leak(cs.drop_last()) {
            Some(x) => Some(x),
            None => {
                let c = cs.last();
                if contains_any(c.tag@, internal_tokens()) {
                    Some((c.slot, "tag"@))
                } else if contains_any(c.intent@, internal_tokens()) {
                    Some((c.slot, "intent"@))
                } else {
                    None
                }
            },
        }
    }
}

pub proof fn lemma_first_leak_prefix(cs: Seq<TurnChoice>, k: int)
    requires
        0 <= k <= cs.len(),
        first_leak(cs.subrange(0, k)) is Some,
    ensures
        first_leak(cs) == first_leak(cs.subrange(0, k)),
    decreases cs.len() - k,
{
    if k < cs.len() {
        assert(cs.subrange(0, k + 1).drop_last() =~= cs.subrange(0, k));
        lemma_first_leak_prefix(cs, k + 1);
    } else {
        assert(cs.subrange(0, k) =~= cs);
    }
}

/// Slot `s` reads exactly as the default choice at `s` does.
pub open spec fn slot_matches_default(cs: Seq<TurnChoice>, defaults: Seq<TurnChoice>, s: u8) -> bool {
    let i = choice_index(cs, s);
    let d = choice_index(defaults, s);
    &&& i >= 0
    &&& d >= 0
    &&& cs[i].tag@ == defaults[d].tag@
    &&& cs[i].intent@ == defaults[d].intent@
}

/// Slots 1 to 5 all read exactly as the default choices do.
pub open spec fn keeps_default_template(cs: Seq<TurnChoice>, defaults: Seq<TurnChoice>) -> bool {
    forall|s: u8| 1 <= s <= 5 ==> #[trigger] slot_matches_default(cs, defaults, s)
}

/// The first fault of an agent's next choices, in checking order.
pub open spec fn next_choices_fault(cs: Seq<TurnChoice>, defaults: Seq<TurnChoice>) -> Option<ChoiceFault> {
    if cs.len() != 7 {
        Some(ChoiceFault::Count(cs.len()))
    } else if !slots_exact(cs) {
        Some(ChoiceFault::Slots(present_slots_below(cs, 256)))
    } else if !(is_guide_tag(cs[choice_index(cs, 7)].tag@) && cs[choice_index(cs, 7)].intent@
        == GUIDE_CHOICE_REDACTED_INTENT@) {
        Some(ChoiceFault::GuideSlot)
    } else if !(cs[choice_index(cs, 6)].tag@ == FREEFORM_CHOICE_TAG@ && contains(
        cs[choice_index(cs, 6)].intent@,
        "직접"@,
    )) {
        Some(ChoiceFault::FreeformSlot)
    } else if first_leak(cs) is Some {
        Some(ChoiceFault::InternalToken(first_leak(cs).unwrap().0, first_leak(cs).unwrap().1))
    } else if keeps_default_template(cs, defaults) {
        Some(ChoiceFault::DefaultTemplate)
    } else {
        None
    }
}

fn find_choice(cs: &Vec<TurnChoice>, slot: u8) -> (r: Option<usize>)
    ensures
        match r {
            Some(k) => k as int == choice_index(cs@, slot),
            None => choice_index(cs@, slot) < 0,
        },
{
    let mut i: usize = 0;
    while i < cs.len()
        invariant
            i <= cs@.len(),
            forall|j: int| 0 <= j < i ==> cs@[j].slot != slot,
        decreases cs.len() - i,
    {
        if cs[i].slot == slot {
            proof { lemma_choice_index_is(cs@, slot, i as int); }
            return Some(i);
        }
        i = i + 1;
    }
    proof {
        lemma_choice_index(cs@, slot);
        if choice_index(cs@, slot) >= 0 {
            assert(cs@[choice_index(cs@, slot)].slot == slot);
        }
    }
    None
}

fn has_slot_exec(cs: &Vec<TurnChoice>, slot: u8) -> (r: bool)
    ensures
        r == has_choice_slot(cs@, slot),
{
    proof { lemma_choice_index(cs@, slot); }
    match find_choice(cs, slot) {
        Some(k) => {
            assert(cs@[k as int].slot == slot);
            true
        },
        None => false,
    }
}

fn present_slots(cs: &Vec<TurnChoice>) -> (r: Vec<u8>)
    ensures
        r@ == present_slots_below(cs@, 256),
{
    let mut out: Vec<u8> = Vec::new();
    let mut v: u16 = 0;
    while v < 256
        invariant
            v <= 256,
            out@ == present_slots_below(cs@, v as nat),
        decreases 256 - v,
    {
        if has_slot_exec(cs, v as u8) {
            out.push(v as u8);
        }
        v = v + 1;
    }
    out
}

fn keeps_default_template_exec(cs: &Vec<TurnChoice>, defaults: &Vec<TurnChoice>) -> (r: bool)
    ensures
        r == keeps_default_template(cs@, defaults@),
{
    let mut s: u8 = 1;
    while s <= 5
        invariant
            1 <= s <= 6,
            forall|t: u8| 1 <= t < s ==> #[trigger] slot_matches_default(cs@, defaults@, t),
        decreases 6 - s,
    {
        proof {
            lemma_choice_index(cs@, s);
            lemma_choice_index(defaults@, s);
        }
        let i = match find_choice(cs, s) {
            Some(i) => i,
            None => {
                assert(!slot_matches_default(cs@, defaults@, s));
                return false;
            },
        };
        let d = match find_choice(defaults, s) {
            Some(d) => d,
            None => {
                assert(!slot_matches_default(cs@, defaults@, s));
                return false;
            },
        };
        if !str_eq(cs[i].tag.as_str(), defaults[d].tag.as_str()) || !str_eq(
            cs[i].intent.as_str(),
            defaults[d].intent.as_str(),
        ) {
            assert(!slot_matches_default(cs@, defaults@, s));
            return false;
        }
        s = s + 1;
    }
    true
}

/// Checks an agent's next choices against the slot contract: exactly slots
/// 1 to 7, the guide choice at 7 with its hidden wording, freeform at 6, no
/// internal tokens, and not the default template choices.
pub fn validate_agent_next_choices(response: &AgentTurnResponse, default_choices: &Vec<TurnChoice>) -> (r: Result<
    (),
    AgentResponseError,
>)
    ensures
        r is Ok <==> next_choices_fault(response.next_choices@, default_choices@) is None,
        r matches Err(e) ==> next_choices_fault(response.next_choices@, default_choices@) == Some(
            choice_fault_of(e),
        ),
{
    let cs = &response.next_choices;
    if cs.len() != 7 {
        return Err(AgentResponseError::NextChoicesCount { actual: cs.len() });
    }
    let mut exact = true;
    let mut s: u8 = 1;
    while s <= 7
        invariant
            1 <= s <= 8,
            exact == forall|t: u8| 1 <= t < s ==> has_choice_slot(cs@, t),
        decreases 8 - s,
    {
        if !has_slot_exec(cs, s) {
            exact = false;
        }
        s = s + 1;
    }
    let mut i: usize = 0;
    while i < cs.len()
        invariant
            i <= cs@.len(),
            exact ==> forall|t: u8| 1 <= t <= 7 ==> has_choice_slot(cs@, t),
            !exact ==> !slots_exact(cs@),
            exact ==> forall|j: int| 0 <= j < i ==> 1 <= (#[trigger] cs@[j]).slot <= 7,
        decreases cs.len() - i,
    {
        if cs[i].slot < 1 || cs[i].slot > 7 {
            exact = false;
        }
        i = i + 1;
    }
    if !exact {
        return Err(AgentResponseError::NextChoicesSlots { actual: present_slots(cs) });
    }
    proof {
        lemma_choice_index(cs@, 7);
        lemma_choice_index(cs@, 6);
        assert(has_choice_slot(cs@, 7));
        assert(has_choice_slot(cs@, 6));
        if choice_index(cs@, 7) < 0 {
            let w = choose|w: int| 0 <= w < cs@.len() && (#[trigger] cs@[w]).slot == 7;
            assert(cs@[w].slot != 7);
        }
        if choice_index(cs@, 6) < 0 {
            let w = choose|w: int| 0 <= w < cs@.len() && (#[trigger] cs@[w]).slot == 6;
            assert(cs@[w].slot != 6);
        }
    }
    let g = match find_choice(cs, 7) {
        Some(g) => g,
        None => return Err(AgentResponseError::GuideSlotRewritten),
    };
    if !is_guide_choice_tag(cs[g].tag.as_str()) || !str_eq(cs[g].intent.as_str(), GUIDE_CHOICE_REDACTED_INTENT) {
        return Err(AgentResponseError::GuideSlotRewritten);
    }
    let f = match find_choice(cs, 6) {
        Some(f) => f,
        None => return Err(AgentResponseError::FreeformSlotRewritten),
    };
    if !str_eq(cs[f].tag.as_str(), FREEFORM_CHOICE_TAG) || !contains_str(cs[f].intent.as_str(), "직접") {
        return Err(AgentResponseError::FreeformSlotRewritten);
    }
    let mut k: usize = 0;
    while k < cs.len()
        invariant
            k <= cs@.len(),
            cs@ == response.next_choices@,
            cs@.len() == 7,
            slots_exact(cs@),
            is_guide_tag(cs@[choice_index(cs@, 7)].tag@) && cs@[choice_index(cs@, 7)].intent@ == GUIDE_CHOICE_REDACTED_INTENT@,
            cs@[choice_index(cs@, 6)].tag@ == FREEFORM_CHOICE_TAG@ && contains(cs@[choice_index(cs@, 6)].intent@, "직접"@),
            first_leak(cs@.subrange(0, k as int)) is None,
        decreases cs.len() - k,
    {
        proof {
            assert(cs@.subrange(0, k + 1).drop_last() =~= cs@.subrange(0, k as int));
            assert(cs@.subrange(0, k + 1).last() == cs@[k as int]);
        }
        let leak_tag = leaks_internal_choice_token(cs[k].tag.as_str());
        let leak_intent = leaks_internal_choice_token(cs[k].intent.as_str());
        if leak_tag || leak_intent {
            let field: &str = if leak_tag { "tag" } else { "intent" };
            proof {
                assert(first_leak(cs@.subrange(0, k + 1)) == Some((cs@[k as int].slot, field@)));
                lemma_first_leak_prefix(cs@, k + 1);
                assert(first_leak(cs@) == Some((cs@[k as int].slot, field@)));
                assert(cs@.len() == 7);
                assert(slots_exact(cs@));
                assert(next_choices_fault(cs@, default_choices@) == Some(ChoiceFault::InternalToken(cs@[k as int].slot, field@)));
            }
            let e = AgentResponseError::InternalToken { slot: cs[k].slot, field: String::from_str(field) };
            return Err(e);
        }
        k = k + 1;
    }
    assert(cs@.subrange(0, cs@.len() as int) =~= cs@);
    if keeps_default_template_exec(cs, default_choices) {
        return Err(AgentResponseError::DefaultTemplate);
    }
    Ok(())
}

// ---------------------------------------------------------------------------
// Checking a whole response before it is committed.
// ---------------------------------------------------------------------------

#[derive(Debug, Clone)]
pub struct AgentHiddenTimer {
    pub timer_id: String,
    pub kind: String,
    pub remaining_turns: u32,
    pub effect: String,
}

#[derive(Debug, Clone)]
pub struct AgentHiddenSecret {
    pub secret_id: String,
    pub status: String,
    pub truth: String,
    pub reveal_conditions: Vec<String>,
    pub forbidden_leaks: Vec<String>,
}

/// What the adjudicating agent knows and the player must not see.
#[derive(Debug, Clone)]
pub struct AgentPrivateAdjudicationContext {
    pub hidden_timers: Vec<AgentHiddenTimer>,
    pub unrevealed_constraints: Vec<AgentHiddenSecret>,
    pub plausibility_gates: Vec<String>,
}

/// A hidden text of four characters or more, trimmed, shows in the visible text.
pub open spec fn needle_leaks(visible: Seq<char>, needle: Seq<char>) -> bool {
    trim(needle).len() >= 4 && contains(visible, trim(needle))
}

/// A secret's truth, or one of its forbidden leaks, shows.
pub open spec fn secret_leaks(visible: Seq<char>, s: AgentHiddenSecret) -> bool {
    needle_leaks(visible, s.truth@) || exists|i: int|
        0 <= i < s.forbidden_leaks@.len() && #[trigger] needle_leaks(visible, s.forbidden_leaks@[i]@)
}

/// The first secret that shows, by id.
pub open spec fn first_leaking_secret(visible: Seq<char>, secrets: Seq<AgentHiddenSecret>) -> Option<Seq<char>>
    decreases secrets.len(),
{
    if secrets.len() == 0 {
        None
    } else {
        match first_leaking_secret(visible, secrets.drop_last()) {
            Some(id) => Some(id),
            None => if secret_leaks(visible, secrets.last()) {
                Some(secrets.last().secret_id@)
            } else {
                None
            },
        }
    }
}

/// Whether a hidden text shows in the visible text (see `needle_leaks`).
pub fn reject_visible_needle(visible_text: &str, needle: &str) -> (r: bool)
    ensures
        r == needle_leaks(visible_text@, needle@),
{
    let n = trim_str(needle);
    chars_of(n).len() >= 4 && contains_str(visible_text, n)
}

fn secret_leaks_exec(visible_text: &str, s: &AgentHiddenSecret) -> (r: bool)
    ensures
        r == secret_leaks(visible_text@, *s),
{
    if reject_visible_needle(visible_text, s.truth.as_str()) {
        return true;
    }
    let mut i: usize = 0;
    while i < s.forbidden_leaks.len()
        invariant
            i <= s.forbidden_leaks@.len(),
            forall|j: int| 0 <= j < i ==> !#[trigger] needle_leaks(visible_text@, s.forbidden_leaks@[j]@),
        decreases s.forbidden_leaks.len() - i,
    {
        if reject_visible_needle(visible_text, s.forbidden_leaks[i].as_str()) {
            return true;
        }
        i = i + 1;
    }
    false
}

proof fn lemma_first_secret_prefix(visible: Seq<char>, secrets: Seq<AgentHiddenSecret>, n: int)
    requires
        0 <= n <= secrets.len(),
        first_leaking_secret(visible, secrets.subrange(0, n)) is Some,
    ensures
        first_leaking_secret(visible, secrets) == first_leaking_secret(visible, secrets.subrange(0, n)),
    decreases secrets.len(),
{
    if n < secrets.len() {
        assert(secrets.drop_last().subrange(0, n) =~= secrets.subrange(0, n));
        lemma_first_secret_prefix(visible, secrets.drop_last(), n);
    } else {
        assert(secrets.subrange(0, n) =~= secrets);
    }
}

/// The first unrevealed secret whose truth or forbidden leaks show in the
/// visible scene (its blocks joined by newlines).
pub fn ensure_no_hidden_leak(context: &AgentPrivateAdjudicationContext, response: &AgentTurnResponse) -> (r:
    Option<String>)
    ensures
        match r {
            Some(id) => first_leaking_secret(
                join(views(response.visible_scene.text_blocks@), "\n"@),
                context.unrevealed_constraints@,
            ) == Some(id@),
            None => first_leaking_secret(
                join(views(response.visible_scene.text_blocks@), "\n"@),
                context.unrevealed_constraints@,
            ) is None,
        },
{
    let visible = join_strings(&response.visible_scene.text_blocks, "\n");
    let ss = &context.unrevealed_constraints;
    let mut i: usize = 0;
    while i < ss.len()
        invariant
            i <= ss@.len(),
            ss == &context.unrevealed_constraints,
            visible@ == join(views(response.visible_scene.text_blocks@), "\n"@),
            first_leaking_secret(visible@, ss@.subrange(0, i as int)) is None,
        decreases ss.len() - i,
    {
        proof {
            assert(ss@.subrange(0, i + 1).drop_last() =~= ss@.subrange(0, i as int));
            assert(ss@.subrange(0, i + 1).last() == ss@[i as int]);
        }
        if secret_leaks_exec(visible.as_str(), &ss[i]) {
            proof {
                lemma_first_secret_prefix(visible@, ss@, i + 1);
            }
            return Some(ss[i].secret_id.clone());
        }
        i = i + 1;
    }
    assert(ss@.subrange(0, ss@.len() as int) =~= ss@);
    None
}

#[derive(Debug, Clone)]
pub enum AgentResponseRejection {
    SchemaMismatch { actual: String },
    TargetMismatch {
        pending_world: String,
        pending_turn: String,
        response_world: String,
        response_turn: String,
    },
    NeedsContext { requests: usize },
    SceneSchemaMismatch { actual: String },
    EmptyScene,
    Choices(AgentResponseError),
    HiddenLeak { secret_id: String },
}

/// Why a response is refused, as text.
pub enum ResponseFault {
    SchemaMismatch(Seq<char>),
    TargetMismatch,
    NeedsContext(nat),
    SceneSchemaMismatch(Seq<char>),
    EmptyScene,
    Choices(ChoiceFault),
    HiddenLeak(Seq<char>),
}

pub open spec fn response_fault_of(e: AgentResponseRejection) -> ResponseFault {
    match e {
        AgentResponseRejection::SchemaMismatch { actual } => ResponseFault::SchemaMismatch(actual@),
        AgentResponseRejection::TargetMismatch { .. } => ResponseFault::TargetMismatch,
        AgentResponseRejection::NeedsContext { requests } => ResponseFault::NeedsContext(requests as nat),
        AgentResponseRejection::SceneSchemaMismatch { actual } => ResponseFault::SceneSchemaMismatch(actual@),
        AgentResponseRejection::EmptyScene => ResponseFault::EmptyScene,
        AgentResponseRejection::Choices(c) => ResponseFault::Choices(choice_fault_of(c)),
        AgentResponseRejection::HiddenLeak { secret_id } => ResponseFault::HiddenLeak(secret_id@),
    }
}

/// Every scene block is blank.
pub open spec fn scene_is_blank(blocks: Seq<String>) -> bool {
    forall|i: int| 0 <= i < blocks.len() ==> is_blank(#[trigger] blocks[i]@)
}

/// The first reason to refuse a response, in checking order: schema,
/// target, context repair requests, scene schema, blank scene, the next
/// choices, hidden leaks.
pub open spec fn response_fault(
    pending_world: Seq<char>,
    pending_turn: Seq<char>,
    context: AgentPrivateAdjudicationContext,
    response: AgentTurnResponse,
    defaults: Seq<TurnChoice>,
) -> Option<ResponseFault> {
    if response.schema_version@ != AGENT_TURN_RESPONSE_SCHEMA_VERSION@ {
        Some(ResponseFault::SchemaMismatch(response.schema_version@))
    } else if response.world_id@ != pending_world || response.turn_id@ != pending_turn {
        Some(ResponseFault::TargetMismatch)
    } else if response.needs_context@.len() > 0 {
        Some(ResponseFault::NeedsContext(response.needs_context@.len()))
    } else if response.visible_scene.schema_version@ != NARRATIVE_SCENE_SCHEMA_VERSION@ {
        Some(ResponseFault::SceneSchemaMismatch(response.visible_scene.schema_version@))
    } else if scene_is_blank(response.visible_scene.text_blocks@) {
        Some(ResponseFault::EmptyScene)
    } else {
        match next_choices_fault(response.next_choices@, defaults) {
            Some(f) => Some(ResponseFault::Choices(f)),
            None => match first_leaking_secret(
                join(views(response.visible_scene.text_blocks@), "\n"@),
                context.unrevealed_constraints@,
            ) {
                Some(id) => Some(ResponseFault::HiddenLeak(id)),
                None => None,
            },
        }
    }
}

impl AgentResponseRejection {
    pub fn message(&self) -> (r: String)
        ensures
            match self {
                AgentResponseRejection::SchemaMismatch { actual } => r@
                    == "agent response schema_version mismatch: expected "@
                    + AGENT_TURN_RESPONSE_SCHEMA_VERSION@ + ", got "@ + actual@,
                AgentResponseRejection::TargetMismatch {
                    pending_world,
                    pending_turn,
                    response_world,
                    response_turn,
                } => r@ == "agent response target mismatch: pending="@ + pending_world@ + "/"@
                    + pending_turn@ + ", response="@ + response_world@ + "/"@ + response_turn@,
                AgentResponseRejection::NeedsContext { requests } => r@
                    == "agent response requested bounded context repair before commit: requests="@
                    + dec(*requests as nat),
                AgentResponseRejection::SceneSchemaMismatch { actual } => r@
                    == "visible_scene schema_version mismatch: expected "@
                    + NARRATIVE_SCENE_SCHEMA_VERSION@ + ", got "@ + actual@,
                AgentResponseRejection::EmptyScene => r@
                    == "agent response visible_scene.text_blocks must contain visible narrative text"@,
                AgentResponseRejection::Choices(_) => true,
                AgentResponseRejection::HiddenLeak { secret_id } => r@
                    == "agent response leaks hidden truth: secret_id="@ + secret_id@,
            },
    {
        match self {
            AgentResponseRejection::SchemaMismatch { actual } => {
                let mut m = String::from_str("agent response schema_version mismatch: expected ");
                m.append(AGENT_TURN_RESPONSE_SCHEMA_VERSION);
                m.append(", got ");
                m.append(actual.as_str());
                m
            },
            AgentResponseRejection::TargetMismatch {
                pending_world,
                pending_turn,
                response_world,
                response_turn,
            } => {
                let mut m = String::from_str("agent response target mismatch: pending=");
                m.append(pending_world.as_str());
                m.append("/");
                m.append(pending_turn.as_str());
                m.append(", response=");
                m.append(response_world.as_str());
                m.append("/");
                m.append(response_turn.as_str());
                m
            },
            AgentResponseRejection::NeedsContext { requests } => {
                let n = dec_string(*requests as u64);
                concat2(
                    "agent response requested bounded context repair before commit: requests=",
                    n.as_str(),
                )
            },
            AgentResponseRejection::SceneSchemaMismatch { actual } => {
                let mut m = String::from_str("visible_scene schema_version mismatch: expected ");
                m.append(NARRATIVE_SCENE_SCHEMA_VERSION);
                m.append(", got ");
                m.append(actual.as_str());
                m
            },
            AgentResponseRejection::EmptyScene => String::from_str(
                "agent response visible_scene.text_blocks must contain visible narrative text",
            ),
            AgentResponseRejection::Choices(e) => e.message(),
            AgentResponseRejection::HiddenLeak { secret_id } => concat2(
                "agent response leaks hidden truth: secret_id=",
                secret_id.as_str(),
            ),
        }
    }
}

fn scene_is_blank_exec(blocks: &Vec<String>) -> (r: bool)
    ensures
        r == scene_is_blank(blocks@),
{
    let mut i: usize = 0;
    while i < blocks.len()
        invariant
            i <= blocks@.len(),
            forall|j: int| 0 <= j < i ==> is_blank(#[trigger] blocks@[j]@),
        decreases blocks.len() - i,
    {
        if !is_blank_str(blocks[i].as_str()) {
            return false;
        }
        i = i + 1;
    }
    true
}

/// Checks an agent's response against the pending turn it answers (its
/// world, turn and private context) before anything is committed.
pub fn validate_agent_response(
    pending_world_id: &str,
    pending_turn_id: &str,
    context: &AgentPrivateAdjudicationContext,
    response: &AgentTurnResponse,
    default_choices: &Vec<TurnChoice>,
) -> (r: Result<(), AgentResponseRejection>)
    ensures
        r is Ok <==> response_fault(pending_world_id@, pending_turn_id@, *context, *response, default_choices@) is None,
        r matches Err(e) ==> response_fault(pending_world_id@, pending_turn_id@, *context, *response, default_choices@)
            == Some(response_fault_of(e)),
{
    if !str_eq(response.schema_version.as_str(), AGENT_TURN_RESPONSE_SCHEMA_VERSION) {
        return Err(AgentResponseRejection::SchemaMismatch { actual: response.schema_version.clone() });
    }
    if !str_eq(response.world_id.as_str(), pending_world_id) || !str_eq(response.turn_id.as_str(), pending_turn_id) {
        return Err(
            AgentResponseRejection::TargetMismatch {
                pending_world: String::from_str(pending_world_id),
                pending_turn: String::from_str(pending_turn_id),
                response_world: response.world_id.clone(),
                response_turn: response.turn_id.clone(),
            },
        );
    }
    if response.needs_context.len() > 0 {
        return Err(AgentResponseRejection::NeedsContext { requests: response.needs_context.len() });
    }
    if !str_eq(response.visible_scene.schema_version.as_str(), NARRATIVE_SCENE_SCHEMA_VERSION) {
        return Err(
            AgentResponseRejection::SceneSchemaMismatch { actual: response.visible_scene.schema_version.clone() },
        );
    }
    if scene_is_blank_exec(&response.visible_scene.text_blocks) {
        return Err(AgentResponseRejection::EmptyScene);
    }
    match validate_agent_next_choices(response, default_choices) {
        Ok(()) => {},
        Err(e) => {
            return Err(AgentResponseRejection::Choices(e));
        },
    }
    match ensure_no_hidden_leak(context, response) {
        Some(id) => Err(AgentResponseRejection::HiddenLeak { secret_id: id }),
        None => Ok(()),
    }
}

// ---------------------------------------------------------------------------
// The choice a player's input picks.
// ---------------------------------------------------------------------------

/// The choice a pending turn records: slot, tag and the intent as shown.
#[derive(Debug, Clone)]
pub struct PendingAgentChoice {
    pub slot: u8,
    pub tag: String,
    pub visible_intent: String,
}

/// A choice as text: slot, tag, intent.
pub open spec fn choice_view(c: TurnChoice) -> (u8, Seq<char>, Seq<char>) {
    (c.slot, c.tag@, c.intent@)
}

pub open spec fn choice_views(cs: Seq<TurnChoice>) -> Seq<(u8, Seq<char>, Seq<char>)> {
    cs.map_values(|c: TurnChoice| choice_view(c))
}

/// The choices in the current slot layout (see `normalize_turn_choices`).
pub open spec fn normalized_views(cs: Seq<TurnChoice>) -> Seq<(u8, Seq<char>, Seq<char>)> {
    if legacy_layout(cs) {
        seq![
            choice_view(cs[0]),
            choice_view(cs[1]),
            choice_view(cs[2]),
            (4u8, cs[4].tag@, cs[4].intent@),
            (5u8, cs[5].tag@, cs[5].intent@),
            (FREEFORM_CHOICE_SLOT, FREEFORM_CHOICE_TAG@, DEFAULT_FREEFORM_INTENT@),
            (GUIDE_CHOICE_SLOT, GUIDE_CHOICE_TAG@, GUIDE_CHOICE_REDACTED_INTENT@),
        ]
    } else {
        choice_views(cs)
    }
}

/// The first choice with the slot.
pub open spec fn view_with_slot(vs: Seq<(u8, Seq<char>, Seq<char>)>, slot: u8) -> Option<(u8, Seq<char>, Seq<char>)>
    decreases vs.len(),
{
    if vs.len() == 0 {
        None
    } else if vs[0].0 == slot {
        Some(vs[0])
    } else {
        view_with_slot(vs.drop_first(), slot)
    }
}

/// A bare number picks the choice of that slot.
pub open spec fn numeric_pick(input: Seq<char>, vs: Seq<(u8, Seq<char>, Seq<char>)>) -> Option<
    (u8, Seq<char>, Seq<char>),
> {
    match parse_u8(trim(input)) {
        Some(v) => view_with_slot(vs, v as u8),
        None => None,
    }
}

/// `6` followed by `번`, whitespace or a separator starts a freeform action.
pub open spec fn starts_freeform(input: Seq<char>) -> bool {
    let t = trim(input);
    &&& t.len() > 0
    &&& t[0] == '6'
    &&& {
        let rest = t.drop_first();
        starts_with(rest, "번"@) || (rest.len() > 0 && (is_ws(rest[0]) || rest[0] == '.' || rest[0]
            == ')' || rest[0] == ':' || rest[0] == '-' || rest[0] == '—'))
    }
}

pub open spec fn freeform_pick(input: Seq<char>, vs: Seq<(u8, Seq<char>, Seq<char>)>) -> Option<
    (u8, Seq<char>, Seq<char>),
> {
    if starts_freeform(input) {
        match view_with_slot(vs, FREEFORM_CHOICE_SLOT) {
            Some(v) => Some(v),
            None => Some((FREEFORM_CHOICE_SLOT, FREEFORM_CHOICE_TAG@, DEFAULT_FREEFORM_INTENT@)),
        }
    } else {
        None
    }
}

/// The choice an input picks: a slot number first, then a freeform prefix.
pub open spec fn picked_choice(input: Seq<char>, cs: Seq<TurnChoice>) -> Option<(u8, Seq<char>, Seq<char>)> {
    let vs = normalized_views(cs);
    match numeric_pick(input, vs) {
        Some(v) => Some(v),
        None => freeform_pick(input, vs),
    }
}

proof fn lemma_view_with_slot(cs: Seq<TurnChoice>, slot: u8)
    ensures
        choice_index(cs, slot) >= 0 ==> view_with_slot(choice_views(cs), slot) == Some(
            choice_view(cs[choice_index(cs, slot)]),
        ),
        choice_index(cs, slot) < 0 ==> view_with_slot(choice_views(cs), slot) is None,
    decreases cs.len(),
{
    lemma_choice_index(cs, slot);
    if cs.len() > 0 {
        let rest = cs.drop_first();
        assert(choice_views(cs).drop_first() =~= choice_views(rest));
        lemma_view_with_slot(rest, slot);
        lemma_choice_index(rest, slot);
        if cs[0].slot != slot {
            if choice_index(cs, slot) >= 0 {
                assert(choice_index(cs, slot) > 0);
                let k = choice_index(cs, slot);
                assert(cs[k].slot == slot);
                assert(rest[k - 1].slot == slot);
                assert forall|j: int| 0 <= j < k - 1 implies rest[j].slot != slot by {
                    assert(rest[j] == cs[j + 1]);
                }
                lemma_choice_index_is(rest, slot, k - 1);
            } else {
                if choice_index(rest, slot) >= 0 {
                    let j = choice_index(rest, slot);
                    assert(rest[j] == cs[j + 1]);
                    assert(cs[j + 1].slot == slot);
                }
            }
        } else {
            lemma_choice_index_is(cs, slot, 0);
        }
    }
}

/// Parses the trimmed input as a slot number and picks that choice.
pub fn numeric_choice(input: &str, choices: &Vec<TurnChoice>) -> (r: Option<TurnChoice>)
    ensures
        match numeric_pick(input@, choice_views(choices@)) {
            Some(v) => r matches Some(c) && choice_view(c) == v,
            None => r is None,
        },
{
    let slot = match parse_u8_str(trim_str(input)) {
        Some(v) => v,
        None => {
            return None;
        },
    };
    proof {
        lemma_view_with_slot(choices@, slot);
        lemma_choice_index(choices@, slot);
    }
    match find_choice(choices, slot) {
        Some(k) => Some(copy_choice(&choices[k])),
        None => None,
    }
}

/// `6` followed by `번`, whitespace or a separator picks the freeform choice,
/// or the default one when the list has none.
pub fn inline_freeform_choice(input: &str, choices: &Vec<TurnChoice>) -> (r: Option<TurnChoice>)
    ensures
        match freeform_pick(input@, choice_views(choices@)) {
            Some(v) => r matches Some(c) && choice_view(c) == v,
            None => r is None,
        },
{
    let t = trim_str(input);
    let cs = chars_of(t);
    if cs.len() == 0 || cs[0] != '6' {
        return None;
    }
    let rest = t.substring_char(1, cs.len());
    let ghost tv = trim(input@);
    assert(rest@ =~= tv.drop_first());
    let ok = crate::text::starts_with_str(rest, "번") || (cs.len() > 1 && (is_ws_char(cs[1]) || cs[1] == '.'
        || cs[1] == ')' || cs[1] == ':' || cs[1] == '-' || cs[1] == '—'));
    proof {
        if cs.len() > 1 {
            assert(tv.drop_first()[0] == cs@[1]);
        }
    }
    if !ok {
        return None;
    }
    proof {
        lemma_view_with_slot(choices@, FREEFORM_CHOICE_SLOT);
        lemma_choice_index(choices@, FREEFORM_CHOICE_SLOT);
    }
    match find_choice(choices, FREEFORM_CHOICE_SLOT) {
        Some(k) => Some(copy_choice(&choices[k])),
        None => Some(make_choice(FREEFORM_CHOICE_SLOT, FREEFORM_CHOICE_TAG, DEFAULT_FREEFORM_INTENT)),
    }
}

/// The choice the player's input picks among the last displayed choices, in
/// the current layout, as a pending turn records it.
pub fn selected_choice(input: &str, last_choices: &Vec<TurnChoice>) -> (r: Option<PendingAgentChoice>)
    ensures
        match picked_choice(input@, last_choices@) {
            Some(v) => r matches Some(p) && p.slot == v.0 && p.tag@ == v.1 && p.visible_intent@ == (if v.0
                == GUIDE_CHOICE_SLOT {
                GUIDE_CHOICE_REDACTED_INTENT@
            } else {
                v.2
            }),
            None => r is None,
        },
{
    let choices = normalize_turn_choices(last_choices);
    proof {
        let cs = last_choices@;
        if legacy_layout(cs) {
            assert(choice_views(choices@) =~= normalized_views(cs));
        } else {
            assert(choice_views(choices@) =~= normalized_views(cs));
        }
    }
    let picked = match numeric_choice(input, &choices) {
        Some(c) => Some(c),
        None => inline_freeform_choice(input, &choices),
    };
    match picked {
        Some(c) => {
            let visible = String::from_str(c.player_visible_intent());
            Some(PendingAgentChoice { slot: c.slot, tag: c.tag, visible_intent: visible })
        },
        None => None,
    }
}

/// `str::parse::<u32>`.
pub open spec fn parse_u32_text(s: Seq<char>) -> Option<nat> {
    match parse_u64_text(s) {
        Some(v) => if v <= u32::MAX {
            Some(v)
        } else {
            None
        },
        None => None,
    }
}

/// The id of the turn after `turn_<n>`, if the id is `turn_` and a `u32`.
pub open spec fn next_turn_of_id(turn_id: Seq<char>) -> Option<Seq<char>> {
    if starts_with(turn_id, "turn_"@) {
        match parse_u32_text(turn_id.subrange(5, turn_id.len() as int)) {
            Some(v) => Some("turn_"@ + crate::text::dec_padded((v + 1) as nat, 4)),
            None => None,
        }
    } else {
        None
    }
}

/// The id of the turn after `turn_<n>`: `turn_` and `n + 1` padded to four
/// digits; `None` when the id is not `turn_` and a `u32`.
pub fn next_turn_id(turn_id: &str) -> (r: Option<String>)
    requires
        !(starts_with(turn_id@, "turn_"@) && parse_u32_text(turn_id@.subrange(5, turn_id@.len() as int))
            == Some(u32::MAX as nat)),
    ensures
        match r {
            Some(t) => starts_with(turn_id@, "turn_"@) && (parse_u32_text(
                turn_id@.subrange(5, turn_id@.len() as int),
            ) matches Some(v) && t@ == "turn_"@ + crate::text::dec_padded((v + 1) as nat, 4)),
            None => !starts_with(turn_id@, "turn_"@) || parse_u32_text(
                turn_id@.subrange(5, turn_id@.len() as int),
            ) is None,
        },
{
    proof {
        reveal_strlit("turn_");
    }
    let rest = match crate::text::strip_prefix_str(turn_id, "turn_") {
        Some(rest) => rest,
        None => {
            return None;
        },
    };
    let v = match parse_u64_str(rest) {
        Some(v) => v,
        None => {
            return None;
        },
    };
    if v > 4294967295u64 {
        return None;
    }
    let digits = crate::text::dec4_string(v + 1);
    Some(concat2("turn_", digits.as_str()))
}

// ---------------------------------------------------------------------------
// What a pending turn tells the agent.
// ---------------------------------------------------------------------------

/// Each item with the prefix in front.
pub open spec fn prefixed(prefix: Seq<char>, items: Seq<String>) -> Seq<Seq<char>> {
    Seq::new(items.len(), |i: int| prefix + items[i]@)
}

fn push_prefixed(out: &mut Vec<String>, prefix: &str, items: &Vec<String>)
    ensures
        views(final(out)@) == views(old(out)@) + prefixed(prefix@, items@),
{
    let ghost start = views(out@);
    let mut i: usize = 0;
    while i < items.len()
        invariant
            i <= items@.len(),
            views(out@) == start + prefixed(prefix@, items@.subrange(0, i as int)),
        decreases items.len() - i,
    {
        let ghost before = out@;
        let line = concat2(prefix, items[i].as_str());
        out.push(line);
        proof {
            lemma_views_push(before, line);
            assert(prefixed(prefix@, items@.subrange(0, i + 1)) =~= prefixed(prefix@, items@.subrange(0, i as int)).push(
                prefix@ + items@[i as int]@,
            ));
        }
        i = i + 1;
    }
    assert(items@.subrange(0, items@.len() as int) =~= items@);
}

/// The facts a pending turn states: open questions, the protagonist's mind
/// and body, and the current event with its progress.
pub open spec fn known_facts_of(s: TurnSnapshot) -> Seq<Seq<char>> {
    prefixed("open_question: "@, s.open_questions@) + prefixed("mind: "@, s.protagonist_state.mind@) + prefixed(
        "body: "@,
        s.protagonist_state.body@,
    ) + match s.current_event {
        Some(e) => seq!["current_event: "@ + e.event_id@ + " / "@ + e.progress@],
        None => Seq::empty(),
    }
}

pub fn known_facts(snapshot: &TurnSnapshot) -> (r: Vec<String>)
    ensures
        views(r@) == known_facts_of(*snapshot),
{
    let mut facts: Vec<String> = Vec::new();
    assert(views(facts@) =~= Seq::empty());
    push_prefixed(&mut facts, "open_question: ", &snapshot.open_questions);
    push_prefixed(&mut facts, "mind: ", &snapshot.protagonist_state.mind);
    push_prefixed(&mut facts, "body: ", &snapshot.protagonist_state.body);
    match &snapshot.current_event {
        Some(e) => {
            let ghost before = facts@;
            let line = concat4("current_event: ", e.event_id.as_str(), " / ", e.progress.as_str());
            facts.push(line);
            proof {
                lemma_views_push(before, line);
            }
        },
        None => {},
    }
    assert(views(facts@) =~= known_facts_of(*snapshot));
    facts
}

/// The hidden state as the adjudicating agent gets it: every timer and
/// secret as they are, and the five plausibility gates.
/// `ctx` is the hidden state as the adjudicating agent gets it: every timer
/// and secret as they are, and the five plausibility gates.
pub open spec fn private_context_is(ctx: AgentPrivateAdjudicationContext, h: HiddenState) -> bool {
    &&& (ctx.hidden_timers@.len() == h.timers@.len())
    &&& (forall|i: int|
        0 <= i < ctx.hidden_timers@.len() ==> {
            let a = #[trigger] ctx.hidden_timers@[i];
            let t = h.timers@[i];
            &&& a.timer_id == t.timer_id
            &&& a.kind == t.kind
            &&& a.remaining_turns == t.remaining_turns
            &&& a.effect == t.effect
        })
    &&& (ctx.unrevealed_constraints@.len() == h.secrets@.len())
    &&& (forall|i: int|
        0 <= i < ctx.unrevealed_constraints@.len() ==> {
            let a = #[trigger] ctx.unrevealed_constraints@[i];
            let s = h.secrets@[i];
            &&& a.secret_id == s.secret_id
            &&& a.status == s.status
            &&& a.truth == s.truth
            &&& a.reveal_conditions@ == s.reveal_conditions@
            &&& a.forbidden_leaks@ == s.forbidden_leaks@
        })
    &&& (views(ctx.plausibility_gates@) == seq!["body"@, "resource"@, "time"@, "social_permission"@, "knowledge"@])
}

pub fn private_context(hidden_state: &HiddenState) -> (r: AgentPrivateAdjudicationContext)
    ensures
        r.hidden_timers@.len() == hidden_state.timers@.len(),
        forall|i: int|
            0 <= i < r.hidden_timers@.len() ==> {
                let a = #[trigger] r.hidden_timers@[i];
                let t = hidden_state.timers@[i];
                &&& a.timer_id == t.timer_id
                &&& a.kind == t.kind
                &&& a.remaining_turns == t.remaining_turns
                &&& a.effect == t.effect
            },
        r.unrevealed_constraints@.len() == hidden_state.secrets@.len(),
        forall|i: int|
            0 <= i < r.unrevealed_constraints@.len() ==> {
                let a = #[trigger] r.unrevealed_constraints@[i];
                let s = hidden_state.secrets@[i];
                &&& a.secret_id == s.secret_id
                &&& a.status == s.status
                &&& a.truth == s.truth
                &&& a.reveal_conditions@ == s.reveal_conditions@
                &&& a.forbidden_leaks@ == s.forbidden_leaks@
            },
        views(r.plausibility_gates@) == seq!["body"@, "resource"@, "time"@, "social_permission"@, "knowledge"@],
        private_context_is(r, *hidden_state),
{
    let mut hidden_timers: Vec<AgentHiddenTimer> = Vec::new();
    let mut i: usize = 0;
    while i < hidden_state.timers.len()
        invariant
            i <= hidden_state.timers@.len(),
            hidden_timers@.len() == i,
            forall|k: int|
                0 <= k < i ==> {
                    let a = #[trigger] hidden_timers@[k];
                    let t = hidden_state.timers@[k];
                    &&& a.timer_id == t.timer_id
                    &&& a.kind == t.kind
                    &&& a.remaining_turns == t.remaining_turns
                    &&& a.effect == t.effect
                },
        decreases hidden_state.timers.len() - i,
    {
        let t = &hidden_state.timers[i];
        hidden_timers.push(
            AgentHiddenTimer {
                timer_id: t.timer_id.clone(),
                kind: t.kind.clone(),
                remaining_turns: t.remaining_turns,
                effect: t.effect.clone(),
            },
        );
        i = i + 1;
    }
    let mut unrevealed_constraints: Vec<AgentHiddenSecret> = Vec::new();
    let mut j: usize = 0;
    while j < hidden_state.secrets.len()
        invariant
            j <= hidden_state.secrets@.len(),
            unrevealed_constraints@.len() == j,
            forall|k: int|
                0 <= k < j ==> {
                    let a = #[trigger] unrevealed_constraints@[k];
                    let s = hidden_state.secrets@[k];
                    &&& a.secret_id == s.secret_id
                    &&& a.status == s.status
                    &&& a.truth == s.truth
                    &&& a.reveal_conditions@ == s.reveal_conditions@
                    &&& a.forbidden_leaks@ == s.forbidden_leaks@
                },
        decreases hidden_state.secrets.len() - j,
    {
        let s = &hidden_state.secrets[j];
        unrevealed_constraints.push(
            AgentHiddenSecret {
                secret_id: s.secret_id.clone(),
                status: s.status.clone(),
                truth: s.truth.clone(),
                reveal_conditions: clone_strings(&s.reveal_conditions),
                forbidden_leaks: clone_strings(&s.forbidden_leaks),
            },
        );
        j = j + 1;
    }
    let mut plausibility_gates: Vec<String> = Vec::new();
    plausibility_gates.push(String::from_str("body"));
    plausibility_gates.push(String::from_str("resource"));
    plausibility_gates.push(String::from_str("time"));
    plausibility_gates.push(String::from_str("social_permission"));
    plausibility_gates.push(String::from_str("knowledge"));
    assert(views(plausibility_gates@) =~= seq!["body"@, "resource"@, "time"@, "social_permission"@, "knowledge"@]);
    AgentPrivateAdjudicationContext { hidden_timers, unrevealed_constraints, plausibility_gates }
}


// ---------------------------------------------------------------------------
// Queued and committed turns.
// ---------------------------------------------------------------------------

pub const POST_COMMIT_MATERIALIZATION_EVENT_SCHEMA_VERSION: &'static str =
    "singulari.post_commit_materialization_event.v1";

/// What a player submits to queue a turn.
#[derive(Debug, Clone)]
pub struct AgentSubmitTurnOptions {
    pub store_root: Option<String>,
    pub world_id: String,
    pub input: String,
    pub narrative_level: Option<u8>,
}

/// What an agent submits to commit the pending turn.
#[derive(Debug, Clone)]
pub struct AgentCommitTurnOptions {
    pub store_root: Option<String>,
    pub world_id: String,
    pub response: AgentTurnResponse,
}

/// A character's voice anchor as the narrating agent sees it.
#[derive(Debug, Clone)]
pub struct AgentVoiceAnchor {
    pub character_id: String,
    pub name: String,
    pub anchor: CharacterVoiceAnchor,
}

/// What the agent's answer must look like.
#[derive(Debug, Clone)]
pub struct AgentOutputContract {
    pub language: String,
    pub must_return_json: bool,
    pub hidden_truth_must_not_appear_in_visible_text: bool,
    pub narrative_level: u8,
    pub narrative_budget: AgentNarrativeBudget,
}

/// The submitted input with surrounding whitespace removed, or `None` when
/// nothing but whitespace was submitted (such a turn is refused).
pub fn submitted_player_input(input: &str) -> (r: Option<String>)
    ensures
        match r {
            Some(t) => t@ == trim(input@) && t@.len() > 0,
            None => trim(input@).len() == 0,
        },
{
    let t = trim_str(input);
    if t.unicode_len() == 0 {
        None
    } else {
        Some(String::from_str(t))
    }
}

/// The output contract of a queued turn: Korean JSON with no hidden truth in
/// the visible text, at the (normalised) narrative level and its budget.
pub open spec fn output_contract_is(c: AgentOutputContract, level: Option<u8>) -> bool {
    &&& c.language@ == "ko"@
    &&& c.must_return_json
    &&& c.hidden_truth_must_not_appear_in_visible_text
    &&& c.narrative_level == narrative_level(level)
    &&& is_budget_for(c.narrative_budget, narrative_level(level))
}

pub fn agent_output_contract(level: Option<u8>) -> (r: AgentOutputContract)
    ensures
        r.language@ == "ko"@,
        r.must_return_json,
        r.hidden_truth_must_not_appear_in_visible_text,
        r.narrative_level == narrative_level(level),
        is_budget_for(r.narrative_budget, narrative_level(level)),
        output_contract_is(r, level),
{
    let language = String::from_str("ko");
    proof {
        reveal_strlit("ko");
    }
    AgentOutputContract {
        language,
        must_return_json: true,
        hidden_truth_must_not_appear_in_visible_text: true,
        narrative_level: normalize_narrative_level(level),
        narrative_budget: narrative_budget_for_level(level),
    }
}

/// The voice anchor of a character, as the agent gets it.
pub open spec fn voice_anchor_of(c: CharacterRecord, a: AgentVoiceAnchor) -> bool {
    &&& a.character_id == c.id
    &&& a.name == c.name.visible
    &&& voice_view(a.anchor) == voice_view(c.voice_anchor)
}

/// The characters whose voice anchor holds anything, in their order.
pub open spec fn anchored_characters(cs: Seq<CharacterRecord>) -> Seq<CharacterRecord> {
    cs.filter(|c: CharacterRecord| !c.voice_anchor.spec_is_empty())
}

/// One voice anchor for each character whose anchor is not empty, in the
/// order of the entity records.
pub fn agent_voice_anchors(entities: &EntityRecords) -> (r: Vec<AgentVoiceAnchor>)
    ensures
        r@.len() == anchored_characters(entities.characters@).len(),
        forall|i: int|
            0 <= i < r@.len() ==> voice_anchor_of(
                anchored_characters(entities.characters@)[i],
                #[trigger] r@[i],
            ),
{
    let cs = &entities.characters;
    let mut out: Vec<AgentVoiceAnchor> = Vec::new();
    let mut i: usize = 0;
    while i < cs.len()
        invariant
            i <= cs@.len(),
            out@.len() == anchored_characters(cs@.subrange(0, i as int)).len(),
            forall|k: int|
                0 <= k < out@.len() ==> voice_anchor_of(
                    anchored_characters(cs@.subrange(0, i as int))[k],
                    #[trigger] out@[k],
                ),
        decreases cs.len() - i,
    {
        let c = &cs[i];
        proof {
            let pre = cs@.subrange(0, i as int);
            assert(cs@.subrange(0, i as int + 1) =~= pre.push(cs@[i as int]));
            pre.lemma_filter_push(cs@[i as int], |c: CharacterRecord| !c.voice_anchor.spec_is_empty());
        }
        if !c.voice_anchor.is_empty() {
            let anchor = AgentVoiceAnchor {
                character_id: c.id.clone(),
                name: c.name.visible.clone(),
                anchor: copy_voice(&c.voice_anchor),
            };
            out.push(anchor);
        }
        i = i + 1;
    }
    assert(cs@.subrange(0, cs@.len() as int) =~= cs@);
    out
}

/// How one materialisation step after a commit went.
#[derive(Debug, Clone)]
pub struct PostCommitMaterializationEvent {
    pub schema_version: String,
    pub world_id: String,
    pub turn_id: String,
    pub component: String,
    pub status: String,
    pub error: Option<String>,
    pub recorded_at: String,
}

/// The record of a materialisation step: `committed` when it went through,
/// `failed` with its error otherwise, stamped with the time of the call.
pub fn post_commit_materialization_event(
    world_id: &str,
    turn_id: &str,
    component: &str,
    error: Option<String>,
) -> (out: Option<PostCommitMaterializationEvent>)
    ensures
        out matches Some(r) ==> ({
            &&& (r.schema_version@ == POST_COMMIT_MATERIALIZATION_EVENT_SCHEMA_VERSION@)
            &&& (r.world_id@ == world_id@)
            &&& (r.turn_id@ == turn_id@)
            &&& (r.component@ == component@)
            &&& (r.status@ == (if error is None { "committed"@ } else { "failed"@ }))
            &&& (r.error == error)
        }),
{
    let now = match now_rfc3339() {
        Some(t) => t,
        None => return None,
    };
    proof {
        reveal_strlit("committed");
        reveal_strlit("failed");
    }
    let status = if error.is_none() {
        String::from_str("committed")
    } else {
        String::from_str("failed")
    };
    Some(PostCommitMaterializationEvent {
        schema_version: String::from_str(POST_COMMIT_MATERIALIZATION_EVENT_SCHEMA_VERSION),
        world_id: String::from_str(world_id),
        turn_id: String::from_str(turn_id),
        component: String::from_str(component),
        status,
        error,
        recorded_at: now,
    })
}

} // verus!
