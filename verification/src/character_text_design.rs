//! Character text designs: voice anchors, projected context and design events.
use crate::location_graph::take_at_most;
use crate::models::{CharacterRecord, EntityRecords};
use crate::response_context::{
    AgentCharacterTextDesignUpdate, AgentContextProjection, AgentContextProjectionItem,
    ContextVisibility,
};
use crate::text::{clone_strings, concat2, concat4, dec2_string, dec_padded, is_blank, is_blank_str, str_eq, trim, trim_str, views};
use vstd::prelude::*;

verus! {

pub const CHARACTER_TEXT_DESIGN_PACKET_SCHEMA_VERSION: &'static str = "singulari.character_text_design_packet.v1";
pub const CHARACTER_TEXT_DESIGN_SCHEMA_VERSION: &'static str = "singulari.character_text_design.v1";
pub const CHARACTER_TEXT_DESIGN_EVENT_SCHEMA_VERSION: &'static str = "singulari.character_text_design_event.v1";
pub const CHARACTER_TEXT_DESIGN_FILENAME: &'static str = "character_text_design.json";
pub const CHARACTER_TEXT_DESIGN_EVENTS_FILENAME: &'static str = "character_text_design_events.jsonl";

pub const CHARACTER_TEXT_DESIGN_BUDGET: usize = 8;

#[derive(Debug, Clone)]
pub struct CharacterTextDesignPacket {
    pub schema_version: String,
    pub world_id: String,
    pub active_designs: Vec<CharacterTextDesign>,
    pub compiler_policy: CharacterTextDesignPolicy,
}

#[derive(Debug, Clone)]
pub struct CharacterTextDesign {
    pub schema_version: String,
    pub entity_id: String,
    pub visible_name: String,
    pub role: String,
    pub visibility: String,
    pub speech: Vec<String>,
    pub endings: Vec<String>,
    pub tone: Vec<String>,
    pub gestures: Vec<String>,
    pub habits: Vec<String>,
    pub drift: Vec<String>,
    pub source_refs: Vec<String>,
}

#[derive(Debug, Clone)]
pub struct CharacterTextDesignEventPlan {
    pub world_id: String,
    pub turn_id: String,
    pub records: Vec<CharacterTextDesignEventRecord>,
}

#[derive(Debug, Clone)]
pub struct CharacterTextDesignEventRecord {
    pub schema_version: String,
    pub world_id: String,
    pub turn_id: String,
    pub event_id: String,
    pub character_id: String,
    pub speech_pattern: String,
    pub gesture_pattern: String,
    pub drift_note: String,
    pub visibility: ContextVisibility,
    pub evidence_refs: Vec<String>,
    pub recorded_at: String,
}

#[derive(Debug, Clone)]
pub struct CharacterTextDesignPolicy {
    pub source: String,
    pub active_design_budget: usize,
    pub use_rules: Vec<String>,
}

/// Why a character text-design update was refused.
#[derive(Debug, Clone, Copy, PartialEq, Eq, Structural)]
pub enum CharacterTextDesignError {
    EmptyRequiredField,
    MissingEvidenceRefs,
}

impl CharacterTextDesignError {
    pub fn message(&self) -> (r: &'static str)
        ensures
            r@ == match self {
                CharacterTextDesignError::EmptyRequiredField => "character_text_design_updates contains an empty required field"@,
                CharacterTextDesignError::MissingEvidenceRefs => "character_text_design_updates evidence_refs must contain non-empty visible refs"@,
            },
    {
        match self {
            CharacterTextDesignError::EmptyRequiredField => "character_text_design_updates contains an empty required field",
            CharacterTextDesignError::MissingEvidenceRefs => "character_text_design_updates evidence_refs must contain non-empty visible refs",
        }
    }
}

impl CharacterTextDesignPolicy {
    pub fn with_source(source: &str) -> (r: Self)
        ensures
            r.source@ == source@,
            r.active_design_budget == CHARACTER_TEXT_DESIGN_BUDGET,
            r.use_rules@.len() == 3,
    {
        let mut use_rules = Vec::new();
        use_rules.push(
            String::from_str(
                "Character text design controls speech, endings, tone, gestures, habits, and drift.",
            ),
        );
        use_rules.push(String::from_str("Do not let prose style overwrite character-specific voice."));
        use_rules.push(
            String::from_str(
                "Relationship stance may modify delivery, but does not create base voice.",
            ),
        );
        CharacterTextDesignPolicy {
            source: String::from_str(source),
            active_design_budget: CHARACTER_TEXT_DESIGN_BUDGET,
            use_rules,
        }
    }
}

impl Default for CharacterTextDesignPolicy {
    fn default() -> (r: Self)
        ensures
            r.source@ == "compiled_from_entity_voice_anchors_v0"@,
            r.active_design_budget == CHARACTER_TEXT_DESIGN_BUDGET,
    {
        Self::with_source("compiled_from_entity_voice_anchors_v0")
    }
}

impl Default for CharacterTextDesignPacket {
        fn default() -> (r: Self)
        ensures
            r.schema_version@ == CHARACTER_TEXT_DESIGN_PACKET_SCHEMA_VERSION@,
            r.active_designs@.len() == 0,
    {
        CharacterTextDesignPacket {
            schema_version: String::from_str(CHARACTER_TEXT_DESIGN_PACKET_SCHEMA_VERSION),
            world_id: String::new(),
            active_designs: Vec::new(),
            compiler_policy: CharacterTextDesignPolicy::default(),
        }
    }
}

// ---------------------------------------------------------------------------
// Specification.
// ---------------------------------------------------------------------------

/// The text content of a design.
pub struct DesignView {
    pub schema_version: Seq<char>,
    pub entity_id: Seq<char>,
    pub visible_name: Seq<char>,
    pub role: Seq<char>,
    pub visibility: Seq<char>,
    pub speech: Seq<Seq<char>>,
    pub endings: Seq<Seq<char>>,
    pub tone: Seq<Seq<char>>,
    pub gestures: Seq<Seq<char>>,
    pub habits: Seq<Seq<char>>,
    pub drift: Seq<Seq<char>>,
    pub source_refs: Seq<Seq<char>>,
}

pub open spec fn design_view(d: CharacterTextDesign) -> DesignView {
    DesignView {
        schema_version: d.schema_version@,
        entity_id: d.entity_id@,
        visible_name: d.visible_name@,
        role: d.role@,
        visibility: d.visibility@,
        speech: views(d.speech@),
        endings: views(d.endings@),
        tone: views(d.tone@),
        gestures: views(d.gestures@),
        habits: views(d.habits@),
        drift: views(d.drift@),
        source_refs: views(d.source_refs@),
    }
}

pub open spec fn design_views(ds: Seq<CharacterTextDesign>) -> Seq<DesignView> {
    Seq::new(ds.len(), |i: int| design_view(ds[i]))
}

/// The design that a character's voice anchor compiles to.
pub open spec fn design_of_character(c: CharacterRecord) -> DesignView {
    DesignView {
        schema_version: CHARACTER_TEXT_DESIGN_SCHEMA_VERSION@,
        entity_id: c.id@,
        visible_name: c.name.visible@,
        role: c.role@,
        visibility: c.knowledge_state@,
        speech: views(c.voice_anchor.speech@),
        endings: views(c.voice_anchor.endings@),
        tone: views(c.voice_anchor.tone@),
        gestures: views(c.voice_anchor.gestures@),
        habits: views(c.voice_anchor.habits@),
        drift: views(c.voice_anchor.drift@),
        source_refs: seq!["entities.characters:"@ + c.id@],
    }
}

/// The design that a projected context summary stands for.
pub open spec fn design_of_item(it: AgentContextProjectionItem) -> DesignView {
    DesignView {
        schema_version: CHARACTER_TEXT_DESIGN_SCHEMA_VERSION@,
        entity_id: it.target@,
        visible_name: it.target@,
        role: "context-projected character"@,
        visibility: "player_visible"@,
        speech: seq![it.summary@],
        endings: Seq::empty(),
        tone: Seq::empty(),
        gestures: seq![it.summary@],
        habits: Seq::empty(),
        drift: seq![it.summary@],
        source_refs: seq!["agent_context_event:"@ + it.source_event_id@],
    }
}

/// The design a design event yields, keeping name, role, endings, tone and
/// habits of the design it replaces.
pub open spec fn design_of_event(rec: CharacterTextDesignEventRecord, existing: Option<DesignView>) -> DesignView {
    DesignView {
        schema_version: CHARACTER_TEXT_DESIGN_SCHEMA_VERSION@,
        entity_id: rec.character_id@,
        visible_name: match existing {
            Some(d) => d.visible_name,
            None => rec.character_id@,
        },
        role: match existing {
            Some(d) => d.role,
            None => "context-designed character"@,
        },
        visibility: "player_visible"@,
        speech: seq![rec.speech_pattern@],
        endings: match existing {
            Some(d) => d.endings,
            None => Seq::empty(),
        },
        tone: match existing {
            Some(d) => d.tone,
            None => Seq::empty(),
        },
        gestures: seq![rec.gesture_pattern@],
        habits: match existing {
            Some(d) => d.habits,
            None => Seq::empty(),
        },
        drift: seq![rec.drift_note@],
        source_refs: seq!["character_text_design_event:"@ + rec.event_id@],
    }
}

/// The first position at or after `k` whose design has the given entity id.
pub open spec fn find_from(ds: Seq<DesignView>, id: Seq<char>, k: int) -> Option<int>
    decreases ds.len() - k,
{
    if k < 0 || k >= ds.len() {
        None
    } else if ds[k].entity_id == id {
        Some(k)
    } else {
        find_from(ds, id, k + 1)
    }
}

/// Replace the first design with the same entity id, or append.
pub open spec fn upsert(ds: Seq<DesignView>, d: DesignView) -> Seq<DesignView> {
    match find_from(ds, d.entity_id, 0) {
        Some(k) => ds.update(k, d),
        None => ds.push(d),
    }
}

/// Designs of the characters whose voice anchor is not empty, in order.
pub open spec fn base_designs(cs: Seq<CharacterRecord>) -> Seq<DesignView>
    decreases cs.len(),
{
    if cs.len() == 0 {
        Seq::empty()
    } else if !cs.last().voice_anchor.spec_is_empty() {
        base_designs(cs.drop_last()).push(design_of_character(cs.last()))
    } else {
        base_designs(cs.drop_last())
    }
}

/// Player-visible projected summaries upserted in order.
pub open spec fn project_items(ds: Seq<DesignView>, items: Seq<AgentContextProjectionItem>) -> Seq<DesignView>
    decreases items.len(),
{
    if items.len() == 0 {
        ds
    } else {
        let prev = project_items(ds, items.drop_last());
        let it = items.last();
        if it.visibility == ContextVisibility::PlayerVisible {
            upsert(prev, design_of_item(it))
        } else {
            prev
        }
    }
}

/// Player-visible design events upserted in order.
pub open spec fn apply_records(ds: Seq<DesignView>, recs: Seq<CharacterTextDesignEventRecord>) -> Seq<
    DesignView,
>
    decreases recs.len(),
{
    if recs.len() == 0 {
        ds
    } else {
        let prev = apply_records(ds, recs.drop_last());
        let rec = recs.last();
        if rec.visibility == ContextVisibility::PlayerVisible {
            let existing = match find_from(prev, rec.character_id@, 0) {
                Some(k) => Some(prev[k]),
                None => None,
            };
            upsert(prev, design_of_event(rec, existing))
        } else {
            prev
        }
    }
}

// ---------------------------------------------------------------------------
// Implementation.
// ---------------------------------------------------------------------------

pub fn compile_character_text_design_packet(entities: &EntityRecords) -> (r: CharacterTextDesignPacket)
    ensures
        r.schema_version@ == CHARACTER_TEXT_DESIGN_PACKET_SCHEMA_VERSION@,
        r.world_id == entities.world_id,
        design_views(r.active_designs@) == take_at_most(base_designs(entities.characters@), 8),
        r.compiler_policy.source@ == "compiled_from_entity_voice_anchors_v0"@,
{
    let projection = AgentContextProjection::default();
    let r = compile_character_text_design_with_projection(entities, &projection);
    assert(projection.character_text_design_summaries@ =~= Seq::<AgentContextProjectionItem>::empty());
    assert(project_items(take_at_most(base_designs(entities.characters@), 8), projection.character_text_design_summaries@)
        == take_at_most(base_designs(entities.characters@), 8));
    proof {
        let b = take_at_most(base_designs(entities.characters@), 8);
        assert(take_at_most(b, 8) =~= b);
    }
    r
}

pub fn compile_character_text_design_with_projection(
    entities: &EntityRecords,
    projection: &AgentContextProjection,
) -> (r: CharacterTextDesignPacket)
    ensures
        r.schema_version@ == CHARACTER_TEXT_DESIGN_PACKET_SCHEMA_VERSION@,
        r.world_id == entities.world_id,
        design_views(r.active_designs@) == take_at_most(
            project_items(
                take_at_most(base_designs(entities.characters@), 8),
                projection.character_text_design_summaries@,
            ),
            8,
        ),
        r.compiler_policy.source@ == if projection.character_text_design_summaries@.len() == 0 {
            "compiled_from_entity_voice_anchors_v0"@
        } else {
            "compiled_from_entity_voice_anchors_and_agent_context_projection_v1"@
        },
        r.compiler_policy.active_design_budget == CHARACTER_TEXT_DESIGN_BUDGET,
{
    let cs = &entities.characters;
    let mut designs: Vec<CharacterTextDesign> = Vec::new();
    let mut i: usize = 0;
    while i < cs.len()
        invariant
            i <= cs.len(),
            design_views(designs@) == take_at_most(base_designs(cs@.subrange(0, i as int)), 8),
        decreases cs.len() - i,
    {
        let ghost before = base_designs(cs@.subrange(0, i as int));
        proof {
            assert(cs@.subrange(0, i + 1).drop_last() =~= cs@.subrange(0, i as int));
        }
        if !cs[i].voice_anchor.is_empty() && designs.len() < CHARACTER_TEXT_DESIGN_BUDGET {
            let d = character_text_design(&cs[i]);
            let ghost prev = designs@;
            designs.push(d);
            assert(design_views(designs@) =~= design_views(prev).push(design_view(d)));
        }
        proof {
            let after = base_designs(cs@.subrange(0, i + 1));
            if before.len() >= 8 {
                assert(take_at_most(after, 8) =~= take_at_most(before, 8));
            }
        }
        assert(design_views(designs@) =~= take_at_most(base_designs(cs@.subrange(0, i + 1)), 8));
        i = i + 1;
    }
    assert(cs@.subrange(0, cs.len() as int) =~= cs@);
    let ghost base = design_views(designs@);
    let items = &projection.character_text_design_summaries;
    let mut k: usize = 0;
    while k < items.len()
        invariant
            k <= items.len(),
            design_views(designs@) == project_items(base, items@.subrange(0, k as int)),
        decreases items.len() - k,
    {
        proof {
            assert(items@.subrange(0, k + 1).drop_last() =~= items@.subrange(0, k as int));
        }
        if items[k].visibility == ContextVisibility::PlayerVisible {
            let d = projected_character_text_design(&items[k]);
            upsert_design(&mut designs, d);
        }
        k = k + 1;
    }
    assert(items@.subrange(0, items.len() as int) =~= items@);
    let ghost before_truncate = designs@;
    designs.truncate(CHARACTER_TEXT_DESIGN_BUDGET);
    assert(design_views(designs@) =~= take_at_most(design_views(before_truncate), 8));
    let policy = if items.len() == 0 {
        CharacterTextDesignPolicy::with_source("compiled_from_entity_voice_anchors_v0")
    } else {
        CharacterTextDesignPolicy::with_source(
            "compiled_from_entity_voice_anchors_and_agent_context_projection_v1",
        )
    };
    CharacterTextDesignPacket {
        schema_version: String::from_str(CHARACTER_TEXT_DESIGN_PACKET_SCHEMA_VERSION),
        world_id: entities.world_id.clone(),
        active_designs: designs,
        compiler_policy: policy,
    }
}

/// Position of the first design with the given entity id.
fn find_design(designs: &Vec<CharacterTextDesign>, id: &str) -> (r: Option<usize>)
    ensures
        match r {
            Some(k) => k < designs@.len() && find_from(design_views(designs@), id@, 0) == Some(
                k as int,
            ),
            None => find_from(design_views(designs@), id@, 0) is None,
        },
{
    let ghost ds = design_views(designs@);
    let mut i: usize = 0;
    while i < designs.len()
        invariant
            i <= designs.len(),
            ds == design_views(designs@),
            find_from(ds, id@, 0) == find_from(ds, id@, i as int),
        decreases designs.len() - i,
    {
        if str_eq(designs[i].entity_id.as_str(), id) {
            assert(ds[i as int].entity_id == id@);
            return Some(i);
        }
        i = i + 1;
    }
    None
}

fn upsert_design(designs: &mut Vec<CharacterTextDesign>, design: CharacterTextDesign)
    ensures
        design_views(final(designs)@) == upsert(design_views(old(designs)@), design_view(design)),
{
    let ghost before = designs@;
    match find_design(designs, design.entity_id.as_str()) {
        Some(k) => {
            let _ = designs.remove(k);
            designs.insert(k, design);
            assert(design_views(designs@) =~= design_views(before).update(
                k as int,
                design_view(design),
            ));
        },
        None => {
            designs.push(design);
            assert(design_views(designs@) =~= design_views(before).push(design_view(design)));
        },
    }
}

/// Materialise player-visible design events over a base packet.
pub fn build_character_text_design_from_events(
    base_packet: &CharacterTextDesignPacket,
    records: &[CharacterTextDesignEventRecord],
) -> (r: CharacterTextDesignPacket)
    ensures
        r.schema_version@ == CHARACTER_TEXT_DESIGN_PACKET_SCHEMA_VERSION@,
        r.world_id == base_packet.world_id,
        design_views(r.active_designs@) == take_at_most(
            apply_records(design_views(base_packet.active_designs@), records@),
            8,
        ),
        r.compiler_policy.source@ == "materialized_from_character_text_design_events_v1"@,
{
    let mut designs = clone_designs(&base_packet.active_designs);
    let ghost base = design_views(base_packet.active_designs@);
    let mut k: usize = 0;
    while k < records.len()
        invariant
            k <= records@.len(),
            design_views(designs@) == apply_records(base, records@.subrange(0, k as int)),
        decreases records.len() - k,
    {
        proof {
            assert(records@.subrange(0, k + 1).drop_last() =~= records@.subrange(0, k as int));
        }
        if records[k].visibility == ContextVisibility::PlayerVisible {
            let d = character_text_design_from_event(&records[k], &designs);
            upsert_design(&mut designs, d);
        }
        k = k + 1;
    }
    assert(records@.subrange(0, records@.len() as int) =~= records@);
    let ghost before_truncate = designs@;
    designs.truncate(CHARACTER_TEXT_DESIGN_BUDGET);
    assert(design_views(designs@) =~= take_at_most(design_views(before_truncate), 8));
    CharacterTextDesignPacket {
        schema_version: String::from_str(CHARACTER_TEXT_DESIGN_PACKET_SCHEMA_VERSION),
        world_id: base_packet.world_id.clone(),
        active_designs: designs,
        compiler_policy: CharacterTextDesignPolicy::with_source(
            "materialized_from_character_text_design_events_v1",
        ),
    }
}

fn clone_design(d: &CharacterTextDesign) -> (r: CharacterTextDesign)
    ensures
        design_view(r) == design_view(*d),
{
    CharacterTextDesign {
        schema_version: d.schema_version.clone(),
        entity_id: d.entity_id.clone(),
        visible_name: d.visible_name.clone(),
        role: d.role.clone(),
        visibility: d.visibility.clone(),
        speech: clone_strings(&d.speech),
        endings: clone_strings(&d.endings),
        tone: clone_strings(&d.tone),
        gestures: clone_strings(&d.gestures),
        habits: clone_strings(&d.habits),
        drift: clone_strings(&d.drift),
        source_refs: clone_strings(&d.source_refs),
    }
}

fn clone_designs(ds: &Vec<CharacterTextDesign>) -> (r: Vec<CharacterTextDesign>)
    ensures
        design_views(r@) == design_views(ds@),
{
    let mut out: Vec<CharacterTextDesign> = Vec::new();
    let mut i: usize = 0;
    while i < ds.len()
        invariant
            i <= ds.len(),
            design_views(out@) == design_views(ds@.subrange(0, i as int)),
        decreases ds.len() - i,
    {
        let ghost prev = out@;
        let c = clone_design(&ds[i]);
        out.push(c);
        assert(design_views(out@) =~= design_views(prev).push(design_view(c)));
        assert(design_views(out@) =~= design_views(ds@.subrange(0, i + 1)));
        i = i + 1;
    }
    assert(ds@.subrange(0, ds.len() as int) =~= ds@);
    out
}

fn one_string(s: &str) -> (r: Vec<String>)
    ensures
        views(r@) == seq![s@],
{
    let mut v = Vec::new();
    v.push(String::from_str(s));
    assert(views(v@) =~= seq![s@]);
    v
}

fn projected_character_text_design(item: &AgentContextProjectionItem) -> (r: CharacterTextDesign)
    ensures
        design_view(r) == design_of_item(*item),
{
    let r = CharacterTextDesign {
        schema_version: String::from_str(CHARACTER_TEXT_DESIGN_SCHEMA_VERSION),
        entity_id: item.target.clone(),
        visible_name: item.target.clone(),
        role: String::from_str("context-projected character"),
        visibility: String::from_str("player_visible"),
        speech: one_string(item.summary.as_str()),
        endings: Vec::new(),
        tone: Vec::new(),
        gestures: one_string(item.summary.as_str()),
        habits: Vec::new(),
        drift: one_string(item.summary.as_str()),
        source_refs: one_string(concat2("agent_context_event:", item.source_event_id.as_str()).as_str()),
    };
    assert(views(r.endings@) =~= Seq::<Seq<char>>::empty());
    assert(views(r.tone@) =~= Seq::<Seq<char>>::empty());
    assert(views(r.habits@) =~= Seq::<Seq<char>>::empty());
    r
}

fn character_text_design(character: &CharacterRecord) -> (r: CharacterTextDesign)
    ensures
        design_view(r) == design_of_character(*character),
{
    CharacterTextDesign {
        schema_version: String::from_str(CHARACTER_TEXT_DESIGN_SCHEMA_VERSION),
        entity_id: character.id.clone(),
        visible_name: character.name.visible.clone(),
        role: character.role.clone(),
        visibility: character.knowledge_state.clone(),
        speech: clone_strings(&character.voice_anchor.speech),
        endings: clone_strings(&character.voice_anchor.endings),
        tone: clone_strings(&character.voice_anchor.tone),
        gestures: clone_strings(&character.voice_anchor.gestures),
        habits: clone_strings(&character.voice_anchor.habits),
        drift: clone_strings(&character.voice_anchor.drift),
        source_refs: one_string(concat2("entities.characters:", character.id.as_str()).as_str()),
    }
}

fn character_text_design_from_event(
    record: &CharacterTextDesignEventRecord,
    current_designs: &Vec<CharacterTextDesign>,
) -> (r: CharacterTextDesign)
    ensures
        design_view(r) == design_of_event(
            *record,
            match find_from(design_views(current_designs@), record.character_id@, 0) {
                Some(k) => Some(design_views(current_designs@)[k]),
                None => None,
            },
        ),
{
    let source_refs = one_string(
        concat2("character_text_design_event:", record.event_id.as_str()).as_str(),
    );
    match find_design(current_designs, record.character_id.as_str()) {
        Some(k) => {
            let existing = &current_designs[k];
            CharacterTextDesign {
                schema_version: String::from_str(CHARACTER_TEXT_DESIGN_SCHEMA_VERSION),
                entity_id: record.character_id.clone(),
                visible_name: existing.visible_name.clone(),
                role: existing.role.clone(),
                visibility: String::from_str("player_visible"),
                speech: one_string(record.speech_pattern.as_str()),
                endings: clone_strings(&existing.endings),
                tone: clone_strings(&existing.tone),
                gestures: one_string(record.gesture_pattern.as_str()),
                habits: clone_strings(&existing.habits),
                drift: one_string(record.drift_note.as_str()),
                source_refs,
            }
        },
        None => {
            let r = CharacterTextDesign {
                schema_version: String::from_str(CHARACTER_TEXT_DESIGN_SCHEMA_VERSION),
                entity_id: record.character_id.clone(),
                visible_name: record.character_id.clone(),
                role: String::from_str("context-designed character"),
                visibility: String::from_str("player_visible"),
                speech: one_string(record.speech_pattern.as_str()),
                endings: Vec::new(),
                tone: Vec::new(),
                gestures: one_string(record.gesture_pattern.as_str()),
                habits: Vec::new(),
                drift: one_string(record.drift_note.as_str()),
                source_refs,
            };
            assert(views(r.endings@) =~= Seq::<Seq<char>>::empty());
            assert(views(r.tone@) =~= Seq::<Seq<char>>::empty());
            assert(views(r.habits@) =~= Seq::<Seq<char>>::empty());
            r
        },
    }
}

/// An update is acceptable when its four text fields are not blank and it
/// names at least one non-blank evidence reference.
pub open spec fn update_error(u: AgentCharacterTextDesignUpdate) -> Option<CharacterTextDesignError> {
    if is_blank(u.character_id@) || is_blank(u.speech_pattern@) || is_blank(u.gesture_pattern@)
        || is_blank(u.drift_note@) {
        Some(CharacterTextDesignError::EmptyRequiredField)
    } else if u.evidence_refs@.len() == 0 || exists|i: int|
        0 <= i < u.evidence_refs@.len() && is_blank(#[trigger] u.evidence_refs@[i]@) {
        Some(CharacterTextDesignError::MissingEvidenceRefs)
    } else {
        None
    }
}

fn validate_character_text_design_update(update: &AgentCharacterTextDesignUpdate) -> (r: Result<
    (),
    CharacterTextDesignError,
>)
    ensures
        match r {
            Ok(()) => update_error(*update) is None,
            Err(e) => update_error(*update) == Some(e),
        },
{
    if is_blank_str(update.character_id.as_str()) || is_blank_str(update.speech_pattern.as_str())
        || is_blank_str(update.gesture_pattern.as_str()) || is_blank_str(
        update.drift_note.as_str(),
    ) {
        return Err(CharacterTextDesignError::EmptyRequiredField);
    }
    if update.evidence_refs.len() == 0 {
        return Err(CharacterTextDesignError::MissingEvidenceRefs);
    }
    let mut i: usize = 0;
    while i < update.evidence_refs.len()
        invariant
            i <= update.evidence_refs@.len(),
            update.evidence_refs@.len() > 0,
            !(is_blank(update.character_id@) || is_blank(update.speech_pattern@) || is_blank(
                update.gesture_pattern@,
            ) || is_blank(update.drift_note@)),
            forall|k: int| 0 <= k < i ==> !is_blank(#[trigger] update.evidence_refs@[k]@),
        decreases update.evidence_refs.len() - i,
    {
        if is_blank_str(update.evidence_refs[i].as_str()) {
            assert(is_blank(update.evidence_refs@[i as int]@));
            return Err(CharacterTextDesignError::MissingEvidenceRefs);
        }
        i = i + 1;
    }
    Ok(())
}

/// `rec` is the event recorded for update `u` as the `index`-th of the turn.
pub open spec fn record_of_update(
    rec: CharacterTextDesignEventRecord,
    u: AgentCharacterTextDesignUpdate,
    world_id: Seq<char>,
    turn_id: Seq<char>,
    index: nat,
    recorded_at: Seq<char>,
) -> bool {
    &&& rec.schema_version@ == CHARACTER_TEXT_DESIGN_EVENT_SCHEMA_VERSION@
    &&& rec.world_id@ == world_id
    &&& rec.turn_id@ == turn_id
    &&& rec.event_id@ == "character_text_design_event:"@ + turn_id + ":"@ + dec_padded(index, 2)
    &&& rec.character_id@ == trim(u.character_id@)
    &&& rec.speech_pattern@ == trim(u.speech_pattern@)
    &&& rec.gesture_pattern@ == trim(u.gesture_pattern@)
    &&& rec.drift_note@ == trim(u.drift_note@)
    &&& rec.visibility == u.visibility
    &&& views(rec.evidence_refs@) == Seq::new(u.evidence_refs@.len(), |i: int| trim(u.evidence_refs@[i]@))
    &&& rec.recorded_at@ == recorded_at
}

/// Validate every update and record them, stamped with `recorded_at`.
pub fn build_character_text_design_event_plan(
    world_id: &str,
    turn_id: &str,
    updates: &[AgentCharacterTextDesignUpdate],
    recorded_at: &str,
) -> (r: Result<CharacterTextDesignEventPlan, CharacterTextDesignError>)
    ensures
        match r {
            Ok(plan) => {
                &&& plan.world_id@ == world_id@
                &&& plan.turn_id@ == turn_id@
                &&& plan.records@.len() == updates@.len()
                &&& forall|i: int|
                    0 <= i < updates@.len() ==> update_error(#[trigger] updates@[i]) is None
                        && record_of_update(
                        plan.records@[i],
                        updates@[i],
                        world_id@,
                        turn_id@,
                        i as nat,
                        recorded_at@,
                    )
            },
            Err(e) => exists|i: int|
                0 <= i < updates@.len() && (forall|k: int|
                    0 <= k < i ==> update_error(#[trigger] updates@[k]) is None) && update_error(
                    updates@[i],
                ) == Some(e),
        },
{
    let mut records: Vec<CharacterTextDesignEventRecord> = Vec::new();
    let mut i: usize = 0;
    while i < updates.len()
        invariant
            i <= updates@.len(),
            records@.len() == i,
            forall|k: int|
                0 <= k < i ==> update_error(#[trigger] updates@[k]) is None && record_of_update(
                    records@[k],
                    updates@[k],
                    world_id@,
                    turn_id@,
                    k as nat,
                    recorded_at@,
                ),
        decreases updates.len() - i,
    {
        let update = &updates[i];
        match validate_character_text_design_update(update) {
            Ok(()) => {},
            Err(e) => return Err(e),
        }
        let index = dec2_string(i as u64);
        let event_id = concat4(
            "character_text_design_event:",
            turn_id,
            ":",
            index.as_str(),
        );
        let rec = CharacterTextDesignEventRecord {
            schema_version: String::from_str(CHARACTER_TEXT_DESIGN_EVENT_SCHEMA_VERSION),
            world_id: String::from_str(world_id),
            turn_id: String::from_str(turn_id),
            event_id,
            character_id: String::from_str(trim_str(update.character_id.as_str())),
            speech_pattern: String::from_str(trim_str(update.speech_pattern.as_str())),
            gesture_pattern: String::from_str(trim_str(update.gesture_pattern.as_str())),
            drift_note: String::from_str(trim_str(update.drift_note.as_str())),
            visibility: update.visibility,
            evidence_refs: trimmed_refs(&update.evidence_refs),
            recorded_at: String::from_str(recorded_at),
        };
        records.push(rec);
        i = i + 1;
    }
    Ok(
        CharacterTextDesignEventPlan {
            world_id: String::from_str(world_id),
            turn_id: String::from_str(turn_id),
            records,
        },
    )
}

fn trimmed_refs(refs: &Vec<String>) -> (r: Vec<String>)
    ensures
        views(r@) == Seq::new(refs@.len(), |i: int| trim(refs@[i]@)),
{
    let mut out: Vec<String> = Vec::new();
    let mut i: usize = 0;
    while i < refs.len()
        invariant
            i <= refs.len(),
            views(out@) == Seq::new(i as nat, |k: int| trim(refs@[k]@)),
        decreases refs.len() - i,
    {
        let ghost prev = out@;
        out.push(String::from_str(trim_str(refs[i].as_str())));
        proof {
            crate::text::lemma_views_push(prev, out@.last());
        }
        assert(views(out@) =~= Seq::new((i + 1) as nat, |k: int| trim(refs@[k]@)));
        i = i + 1;
    }
    out
}

/// Validate character text-design updates before the turn is advanced,
/// stamping the records with the current time.
pub fn prepare_character_text_design_event_plan(
    world_id: &str,
    turn_id: &str,
    updates: &[AgentCharacterTextDesignUpdate],
) -> (out: Option<Result<CharacterTextDesignEventPlan, CharacterTextDesignError>>)
    ensures
        out matches Some(r) ==> ({
            &&& (match r {
                Ok(plan) => {
                    &&& plan.records@.len() == updates@.len()
                    &&& forall|i: int|
                        0 <= i < updates@.len() ==> update_error(#[trigger] updates@[i]) is None
                            && record_of_update(
                            plan.records@[i],
                            updates@[i],
                            world_id@,
                            turn_id@,
                            i as nat,
                            plan.records@[0].recorded_at@,
                        )
                },
                Err(e) => exists|i: int|
                    0 <= i < updates@.len() && (forall|k: int|
                        0 <= k < i ==> update_error(#[trigger] updates@[k]) is None) && update_error(
                        updates@[i],
                    ) == Some(e),
            })
        }),
{
    let recorded_at = match crate::clock::now_rfc3339() {
        Some(t) => t,
        None => return None,
    };
    let r = build_character_text_design_event_plan(world_id, turn_id, updates, recorded_at.as_str());
    proof {
        if r is Ok {
            let plan = r->Ok_0;
            if updates@.len() > 0 {
                assert(update_error(updates@[0]) is None && record_of_update(
                    plan.records@[0],
                    updates@[0],
                    world_id@,
                    turn_id@,
                    0,
                    recorded_at@,
                ));
            }
        }
    }
    Some(r)
}

/// A design event for a character already in the packet replaces that
/// character's design in place; the packet never grows past its budget.
pub proof fn law_event_replaces_existing_design(ds: Seq<DesignView>, rec: CharacterTextDesignEventRecord, k: int)
    requires
        rec.visibility == ContextVisibility::PlayerVisible,
        find_from(ds, rec.character_id@, 0) == Some(k),
    ensures
        apply_records(ds, seq![rec]).len() == ds.len(),
        apply_records(ds, seq![rec])[k] == design_of_event(rec, Some(ds[k])),
        apply_records(ds, seq![rec])[k].visible_name == ds[k].visible_name,
        take_at_most(apply_records(ds, seq![rec]), 8).len() <= 8,
{
    lemma_find_from_in_range(ds, rec.character_id@, 0);
    assert(seq![rec].drop_last() =~= Seq::<CharacterTextDesignEventRecord>::empty());
    assert(apply_records(ds, Seq::<CharacterTextDesignEventRecord>::empty()) == ds);
}

pub proof fn lemma_find_from_in_range(ds: Seq<DesignView>, id: Seq<char>, k: int)
    ensures
        find_from(ds, id, k) matches Some(j) ==> k <= j < ds.len() && ds[j].entity_id == id,
    decreases ds.len() - k,
{
    if k >= 0 && k < ds.len() && ds[k].entity_id != id {
        lemma_find_from_in_range(ds, id, k + 1);
    }
}

} // verus!
