//! World, snapshot, entity and event records that the compilers read.
use vstd::prelude::*;

verus! {

pub const WORLD_SEED_SCHEMA_VERSION: &'static str = "singulari.world_seed.v1";
pub const WORLD_SCHEMA_VERSION: &'static str = "singulari.world.v1";
pub const TURN_SNAPSHOT_SCHEMA_VERSION: &'static str = "singulari.turn_snapshot.v1";
pub const HIDDEN_STATE_SCHEMA_VERSION: &'static str = "singulari.hidden_state.v1";
pub const ENTITY_RECORDS_SCHEMA_VERSION: &'static str = "singulari.entities.v1";
pub const CANON_EVENT_SCHEMA_VERSION: &'static str = "singulari.canon_event.v1";
pub const ADJUDICATION_SCHEMA_VERSION: &'static str = "singulari.adjudication.v1";

pub const PROTAGONIST_CHARACTER_ID: &'static str = "char:protagonist";
pub const ANCHOR_CHARACTER_ID: &'static str = "char:anchor";
pub const OPENING_LOCATION_ID: &'static str = "place:opening_location";

pub const FREEFORM_CHOICE_SLOT: u8 = 6;
pub const GUIDE_CHOICE_SLOT: u8 = 7;
pub const FREEFORM_CHOICE_TAG: &'static str = "자유서술";
pub const GUIDE_CHOICE_TAG: &'static str = "안내자의 선택";

/// One displayed choice of a turn.
#[derive(Debug, Clone)]
pub struct TurnChoice {
    pub slot: u8,
    pub tag: String,
    pub intent: String,
}

pub const GUIDE_CHOICE_REDACTED_INTENT: &'static str = "맡긴다. 세부 내용은 선택 후 드러난다.";

impl TurnChoice {
    pub open spec fn spec_visible_intent(&self) -> Seq<char> {
        if self.slot == GUIDE_CHOICE_SLOT {
            GUIDE_CHOICE_REDACTED_INTENT@
        } else {
            self.intent@
        }
    }

    /// The intent as the player sees it: the delegated-judgment slot keeps
    /// its details hidden until chosen.
    pub fn player_visible_intent(&self) -> (r: &str)
        ensures
            r@ == self.spec_visible_intent(),
    {
        if self.slot == GUIDE_CHOICE_SLOT {
            GUIDE_CHOICE_REDACTED_INTENT
        } else {
            self.intent.as_str()
        }
    }
}

/// How the player's input for a turn was classified.
#[derive(Debug, Clone, Copy, PartialEq, Eq, Structural)]
pub enum TurnInputKind {
    NumericChoice,
    GuideChoice,
    FreeformAction,
    CodexQuery,
    MacroTimeFlow,
    CcCanvas,
}

#[derive(Debug, Clone)]
pub struct ProtagonistState {
    pub location: String,
    pub inventory: Vec<String>,
    pub body: Vec<String>,
    pub mind: Vec<String>,
}

/// The event a world is in the middle of, and how far it has come.
#[derive(Debug, Clone)]
pub struct CurrentEvent {
    pub event_id: String,
    pub progress: String,
}

/// The latest player-visible state of a world.
#[derive(Debug, Clone)]
pub struct TurnSnapshot {
    pub schema_version: String,
    pub world_id: String,
    pub session_id: String,
    pub turn_id: String,
    pub phase: String,
    pub current_event: Option<CurrentEvent>,
    pub protagonist_state: ProtagonistState,
    pub open_questions: Vec<String>,
    pub last_choices: Vec<TurnChoice>,
}

#[derive(Debug, Clone)]
pub struct RuntimeContract {
    pub mode: String,
}

#[derive(Debug, Clone)]
pub struct WorldPremise {
    pub genre: String,
    pub protagonist: String,
    pub special_condition: Option<String>,
    pub opening_state: String,
}

#[derive(Debug, Clone)]
pub struct AnchorCharacter {
    pub name: String,
    pub role: String,
}

#[derive(Debug, Clone)]
pub struct LanguagePolicy {
    pub primary: String,
}

/// The world laws that adjudication consults.
#[derive(Debug, Clone, Copy)]
pub struct WorldLaws {
    pub bodily_needs_active: bool,
    pub discovery_required: bool,
    pub death_is_final: bool,
}

#[derive(Debug, Clone)]
pub struct WorldSeed {
    pub schema_version: String,
    pub world_id: String,
    pub title: String,
    pub created_by: String,
    pub runtime_contract: RuntimeContract,
    pub premise: WorldPremise,
    pub anchor_character: AnchorCharacter,
    pub language: LanguagePolicy,
    pub laws: WorldLaws,
    pub non_goals: Vec<String>,
}

#[derive(Debug, Clone)]
pub struct WorldRecord {
    pub schema_version: String,
    pub world_id: String,
    pub title: String,
    pub created_by: String,
    pub premise: WorldPremise,
    pub laws: WorldLaws,
    pub created_at: String,
}

#[derive(Debug, Clone)]
pub struct HiddenSecret {
    pub secret_id: String,
    pub status: String,
    pub truth: String,
    pub reveal_conditions: Vec<String>,
    pub forbidden_leaks: Vec<String>,
}

#[derive(Debug, Clone)]
pub struct HiddenTimer {
    pub timer_id: String,
    pub kind: String,
    pub remaining_turns: u32,
    pub effect: String,
}

/// Hidden truth that adjudication counts but never renders.
#[derive(Debug, Clone)]
pub struct HiddenState {
    pub schema_version: String,
    pub world_id: String,
    pub secrets: Vec<HiddenSecret>,
    pub timers: Vec<HiddenTimer>,
}

#[derive(Debug, Clone)]
pub struct AdjudicationGate {
    pub gate: String,
    pub status: String,
    pub reason: String,
}

#[derive(Debug, Clone)]
pub struct AdjudicationReport {
    pub schema_version: String,
    pub world_id: String,
    pub turn_id: String,
    pub outcome: String,
    pub summary: String,
    pub gates: Vec<AdjudicationGate>,
    pub visible_constraints: Vec<String>,
    pub consequences: Vec<String>,
}

#[derive(Debug, Clone)]
pub struct EntityName {
    pub visible: String,
    pub native: Option<String>,
}

#[derive(Debug, Clone)]
pub struct TraitSet {
    pub confirmed: Vec<String>,
    pub rumored: Vec<String>,
    pub hidden: Vec<String>,
}

#[derive(Debug, Clone)]
pub struct CharacterVoiceAnchor {
    pub speech: Vec<String>,
    pub endings: Vec<String>,
    pub tone: Vec<String>,
    pub gestures: Vec<String>,
    pub habits: Vec<String>,
    pub drift: Vec<String>,
}

impl CharacterVoiceAnchor {
    /// An anchor with no voice material at all.
    pub open spec fn spec_is_empty(&self) -> bool {
        &&& self.speech@.len() == 0
        &&& self.endings@.len() == 0
        &&& self.tone@.len() == 0
        &&& self.gestures@.len() == 0
        &&& self.habits@.len() == 0
        &&& self.drift@.len() == 0
    }

    pub fn empty() -> (r: Self)
        ensures
            r.spec_is_empty(),
    {
        CharacterVoiceAnchor {
            speech: Vec::new(),
            endings: Vec::new(),
            tone: Vec::new(),
            gestures: Vec::new(),
            habits: Vec::new(),
            drift: Vec::new(),
        }
    }

    #[verifier::when_used_as_spec(spec_is_empty)]
    pub fn is_empty(&self) -> (r: bool)
        ensures
            r == self.spec_is_empty(),
    {
        self.speech.len() == 0 && self.endings.len() == 0 && self.tone.len() == 0
            && self.gestures.len() == 0 && self.habits.len() == 0 && self.drift.len() == 0
    }
}

#[derive(Debug, Clone)]
pub struct BodyNeeds {
    pub hunger: String,
    pub thirst: String,
    pub fatigue: String,
}

#[derive(Debug, Clone)]
pub struct CharacterBody {
    pub injuries: Vec<String>,
    pub needs: BodyNeeds,
}

#[derive(Debug, Clone)]
pub struct CharacterRecord {
    pub id: String,
    pub name: EntityName,
    pub role: String,
    pub knowledge_state: String,
    pub traits: TraitSet,
    pub voice_anchor: CharacterVoiceAnchor,
    pub body: CharacterBody,
    pub history: Vec<String>,
    pub relationships: Vec<String>,
}

#[derive(Debug, Clone)]
pub struct PlaceRecord {
    pub id: String,
    pub name: String,
    pub coordinates: Option<String>,
    pub known_to_protagonist: bool,
    pub notes: Vec<String>,
}

/// Characters, places and other entities of a world.
#[derive(Debug, Clone)]
pub struct EntityRecords {
    pub schema_version: String,
    pub world_id: String,
    pub characters: Vec<CharacterRecord>,
    pub places: Vec<PlaceRecord>,
    pub factions: Vec<String>,
    pub items: Vec<String>,
    pub concepts: Vec<String>,
}

/// Which actor wrote an event into the canon ledger.
#[derive(Debug, Clone, Copy, PartialEq, Eq, Structural)]
pub enum EventAuthority {
    TurnReducer,
    AgentCommit,
    WorldInit,
}

/// The typed kind sidecar of a canon event.
#[derive(Debug, Clone, Copy, PartialEq, Eq, Structural)]
pub enum WorldEventKind {
    NumericChoice,
    GuideChoice,
    FreeformAction,
    CodexQuery,
    MacroTimeFlow,
    CcCanvas,
}

impl WorldEventKind {
    pub open spec fn spec_legacy_kind(self) -> Seq<char> {
        match self {
            WorldEventKind::NumericChoice => "numeric_choice"@,
            WorldEventKind::GuideChoice => "guide_choice"@,
            WorldEventKind::FreeformAction => "freeform_action"@,
            WorldEventKind::CodexQuery => "codex_query"@,
            WorldEventKind::MacroTimeFlow => "macro_time_flow"@,
            WorldEventKind::CcCanvas => "cc_canvas"@,
        }
    }

    /// The untyped `kind` string this typed kind stands for.
    pub fn as_legacy_kind(self) -> (r: &'static str)
        ensures
            r@ == self.spec_legacy_kind(),
    {
        match self {
            WorldEventKind::NumericChoice => "numeric_choice",
            WorldEventKind::GuideChoice => "guide_choice",
            WorldEventKind::FreeformAction => "freeform_action",
            WorldEventKind::CodexQuery => "codex_query",
            WorldEventKind::MacroTimeFlow => "macro_time_flow",
            WorldEventKind::CcCanvas => "cc_canvas",
        }
    }

    /// The typed kind matches the legacy `kind` string.
    pub fn matches_legacy_kind(self, kind: &str) -> (r: bool)
        ensures
            r == (kind@ == self.spec_legacy_kind()),
    {
        crate::text::str_eq(kind, self.as_legacy_kind())
    }

    /// The typed kind that a legacy `kind` string names, if any.
    pub fn from_legacy_kind(kind: &str) -> (r: Option<WorldEventKind>)
        ensures
            r matches Some(k) ==> k.spec_legacy_kind() == kind@,
            r is None ==> forall|k: WorldEventKind| #[trigger] k.spec_legacy_kind() != kind@,
    {
        if WorldEventKind::NumericChoice.matches_legacy_kind(kind) {
            Some(WorldEventKind::NumericChoice)
        } else if WorldEventKind::GuideChoice.matches_legacy_kind(kind) {
            Some(WorldEventKind::GuideChoice)
        } else if WorldEventKind::FreeformAction.matches_legacy_kind(kind) {
            Some(WorldEventKind::FreeformAction)
        } else if WorldEventKind::CodexQuery.matches_legacy_kind(kind) {
            Some(WorldEventKind::CodexQuery)
        } else if WorldEventKind::MacroTimeFlow.matches_legacy_kind(kind) {
            Some(WorldEventKind::MacroTimeFlow)
        } else if WorldEventKind::CcCanvas.matches_legacy_kind(kind) {
            Some(WorldEventKind::CcCanvas)
        } else {
            None
        }
    }
}

#[derive(Debug, Clone)]
pub struct EventEvidence {
    pub source: String,
    pub user_input: String,
    pub narrative_ref: String,
}

/// One entry of the append-only canon event ledger.
#[derive(Debug, Clone)]
pub struct CanonEvent {
    pub schema_version: String,
    pub event_id: String,
    pub world_id: String,
    pub turn_id: String,
    pub occurred_at_world_time: String,
    pub visibility: String,
    pub kind: String,
    pub event_kind: Option<WorldEventKind>,
    pub authority: Option<EventAuthority>,
    pub summary: String,
    pub entities: Vec<String>,
    pub location: Option<String>,
    pub evidence: EventEvidence,
    pub consequences: Vec<String>,
}

/// A projection row describing one entity change.
#[derive(Debug, Clone)]
pub struct EntityUpdateRecord {
    pub update_id: String,
    pub world_id: String,
    pub turn_id: String,
    pub entity_id: String,
    pub update_kind: String,
    pub visibility: String,
    pub summary: String,
    pub source_event_id: String,
    pub created_at: String,
}

/// A projection row describing one relationship change.
#[derive(Debug, Clone)]
pub struct RelationshipUpdateRecord {
    pub update_id: String,
    pub world_id: String,
    pub turn_id: String,
    pub source_entity_id: String,
    pub target_entity_id: String,
    pub relation_kind: String,
    pub visibility: String,
    pub summary: String,
    pub source_event_id: String,
    pub created_at: String,
}

#[derive(Debug, Clone)]
pub struct StructuredEntityUpdates {
    pub world_id: String,
    pub turn_id: String,
    pub entity_updates: Vec<EntityUpdateRecord>,
    pub relationship_updates: Vec<RelationshipUpdateRecord>,
}

impl StructuredEntityUpdates {
    pub fn empty(world_id: &str, turn_id: &str) -> (r: Self)
        ensures
            r.world_id@ == world_id@,
            r.turn_id@ == turn_id@,
            r.entity_updates@.len() == 0,
            r.relationship_updates@.len() == 0,
    {
        StructuredEntityUpdates {
            world_id: world_id.to_owned(),
            turn_id: turn_id.to_owned(),
            entity_updates: Vec::new(),
            relationship_updates: Vec::new(),
        }
    }
}

impl WorldLaws {
    /// The laws a new world starts with: bodies need care and hidden truth
    /// must be discovered.
    pub fn standard() -> (r: Self)
        ensures
            r.bodily_needs_active,
            r.discovery_required,
            !r.death_is_final,
    {
        WorldLaws { bodily_needs_active: true, discovery_required: true, death_is_final: false }
    }
}

impl RuntimeContract {
    pub fn standard() -> (r: Self)
        ensures
            r.mode@ == "local_cli"@,
    {
        RuntimeContract { mode: String::from_str("local_cli") }
    }
}

impl AnchorCharacter {
    pub fn standard() -> (r: Self)
        ensures
            r.name@ == "안내자"@,
            r.role@ == "guide"@,
    {
        AnchorCharacter { name: String::from_str("안내자"), role: String::from_str("guide") }
    }
}

impl LanguagePolicy {
    pub fn standard() -> (r: Self)
        ensures
            r.primary@ == "ko"@,
    {
        LanguagePolicy { primary: String::from_str("ko") }
    }
}

impl WorldRecord {
    /// The world record that a seed creates.
    pub fn from_seed(seed: WorldSeed, created_at: String) -> (r: Self)
        ensures
            r.world_id == seed.world_id,
            r.title == seed.title,
            r.laws == seed.laws,
            r.created_at == created_at,
    {
        WorldRecord {
            schema_version: String::from_str(WORLD_SCHEMA_VERSION),
            world_id: seed.world_id,
            title: seed.title,
            created_by: seed.created_by,
            premise: seed.premise,
            laws: seed.laws,
            created_at,
        }
    }
}

impl HiddenState {
    /// The hidden ledger of a new world: the anchor character's identity is
    /// its one sealed secret.
    pub fn initial(world_id: &str) -> (r: Self)
        ensures
            r.world_id@ == world_id@,
            r.secrets@.len() == 1,
            r.timers@.len() == 0,
    {
        let mut secrets = Vec::new();
        secrets.push(
            HiddenSecret {
                secret_id: String::from_str("secret:anchor_identity"),
                status: String::from_str("sealed"),
                truth: String::from_str("anchor character identity is sealed"),
                reveal_conditions: Vec::new(),
                forbidden_leaks: Vec::new(),
            },
        );
        HiddenState {
            schema_version: String::from_str(HIDDEN_STATE_SCHEMA_VERSION),
            world_id: String::from_str(world_id),
            secrets,
            timers: Vec::new(),
        }
    }
}

impl TurnSnapshot {
    /// The snapshot of a new world before its first turn.
    pub fn initial(world: &WorldRecord, session_id: String) -> (r: Self)
        ensures
            r.world_id == world.world_id,
            r.session_id == session_id,
            r.protagonist_state.location@ == OPENING_LOCATION_ID@,
            r.protagonist_state.inventory@.len() == 0,
            r.protagonist_state.body@.len() == 0,
    {
        TurnSnapshot {
            schema_version: String::from_str(TURN_SNAPSHOT_SCHEMA_VERSION),
            world_id: world.world_id.clone(),
            session_id,
            turn_id: String::from_str("turn_0000"),
            phase: String::from_str("interlude"),
            current_event: None,
            protagonist_state: ProtagonistState {
                location: String::from_str(OPENING_LOCATION_ID),
                inventory: Vec::new(),
                body: Vec::new(),
                mind: Vec::new(),
            },
            open_questions: Vec::new(),
            last_choices: Vec::new(),
        }
    }
}

fn named_character(id: &str, visible: &str, role: &str) -> (r: CharacterRecord)
    ensures
        r.id@ == id@,
        r.history@.len() == 0,
        r.relationships@.len() == 0,
{
    CharacterRecord {
        id: String::from_str(id),
        name: EntityName { visible: String::from_str(visible), native: None },
        role: String::from_str(role),
        knowledge_state: String::from_str("player_visible"),
        traits: TraitSet { confirmed: Vec::new(), rumored: Vec::new(), hidden: Vec::new() },
        voice_anchor: CharacterVoiceAnchor::empty(),
        body: CharacterBody {
            injuries: Vec::new(),
            needs: BodyNeeds {
                hunger: String::from_str("stable"),
                thirst: String::from_str("stable"),
                fatigue: String::from_str("stable"),
            },
        },
        history: Vec::new(),
        relationships: Vec::new(),
    }
}

impl EntityRecords {
    /// The entities of a new world: the protagonist, the anchor character and
    /// the opening location.
    pub fn initial(world: &WorldRecord) -> (r: Self)
        ensures
            r.world_id == world.world_id,
            r.characters@.len() == 2,
            r.characters@[0].id@ == PROTAGONIST_CHARACTER_ID@,
            r.characters@[1].id@ == ANCHOR_CHARACTER_ID@,
            r.places@.len() == 1,
            r.places@[0].id@ == OPENING_LOCATION_ID@,
    {
        let mut characters = Vec::new();
        characters.push(named_character(PROTAGONIST_CHARACTER_ID, "주인공", "protagonist"));
        characters.push(named_character(ANCHOR_CHARACTER_ID, "안내자", "anchor"));
        let mut places = Vec::new();
        places.push(
            PlaceRecord {
                id: String::from_str(OPENING_LOCATION_ID),
                name: String::from_str("시작 장소"),
                coordinates: None,
                known_to_protagonist: true,
                notes: Vec::new(),
            },
        );
        EntityRecords {
            schema_version: String::from_str(ENTITY_RECORDS_SCHEMA_VERSION),
            world_id: world.world_id.clone(),
            characters,
            places,
            factions: Vec::new(),
            items: Vec::new(),
            concepts: Vec::new(),
        }
    }
}

/// The canon event that records a world's creation.
pub fn initial_canon_event(world: &WorldRecord) -> (r: CanonEvent)
    ensures
        r.world_id == world.world_id,
        r.schema_version@ == CANON_EVENT_SCHEMA_VERSION@,
        r.event_id@ == "evt_000000"@,
        r.turn_id@ == "turn_0000"@,
        r.occurred_at_world_time@ == "opening"@,
        r.visibility@ == "player_visible"@,
        r.kind@ == "world_created"@,
        r.event_kind is None,
        r.authority == Some(EventAuthority::WorldInit),
        r.summary@ == "세계가 시작되었다"@,
        r.entities@.len() == 0,
        r.location matches Some(l) && l@ == OPENING_LOCATION_ID@,
        r.evidence.source@ == "world_init"@,
        r.evidence.user_input@.len() == 0,
        r.evidence.narrative_ref@ == "turn_0000"@,
        r.consequences@.len() == 0,
{
    CanonEvent {
        schema_version: String::from_str(CANON_EVENT_SCHEMA_VERSION),
        event_id: String::from_str("evt_000000"),
        world_id: world.world_id.clone(),
        turn_id: String::from_str("turn_0000"),
        occurred_at_world_time: String::from_str("opening"),
        visibility: String::from_str("player_visible"),
        kind: String::from_str("world_created"),
        event_kind: None,
        authority: Some(EventAuthority::WorldInit),
        summary: String::from_str("세계가 시작되었다"),
        entities: Vec::new(),
        location: Some(String::from_str(OPENING_LOCATION_ID)),
        evidence: EventEvidence {
            source: String::from_str("world_init"),
            user_input: String::new(),
            narrative_ref: String::from_str("turn_0000"),
        },
        consequences: Vec::new(),
    }
}

} // verus!
