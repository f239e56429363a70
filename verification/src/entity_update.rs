//! The deterministic entity and relationship update applied after a turn.
use crate::models::{
    ANCHOR_CHARACTER_ID, AdjudicationReport, CanonEvent, CharacterRecord, EntityRecords,
    EntityUpdateRecord, OPENING_LOCATION_ID, PROTAGONIST_CHARACTER_ID, PlaceRecord,
    RelationshipUpdateRecord, StructuredEntityUpdates, TurnInputKind,
};
use crate::text::{concat2, concat3, concat5, str_eq, views};
use vstd::prelude::*;

verus! {

pub const PLAYER_VISIBLE: &'static str = "player_visible";
pub const UPDATE_KIND_HISTORY: &'static str = "personal_history";
pub const UPDATE_KIND_PLACE_STATE: &'static str = "place_state";
pub const UPDATE_KIND_FACTION_PRESSURE: &'static str = "faction_pressure";
pub const RELATION_KIND_STORY_TENSION: &'static str = "story_tension";

pub struct EntityUpdateInput<'a> {
    pub entities: &'a mut EntityRecords,
    pub event: &'a CanonEvent,
    pub adjudication: &'a AdjudicationReport,
    pub input_kind: TurnInputKind,
    pub created_at: &'a str,
}

/// `value` appended unless already present, keeping only the last `limit`.
pub open spec fn push_limited_unique_spec(values: Seq<Seq<char>>, value: Seq<char>, limit: nat) -> Seq<
    Seq<char>,
> {
    if values.contains(value) {
        values
    } else {
        let w = values.push(value);
        if w.len() > limit {
            w.subrange(w.len() - limit, w.len() as int)
        } else {
            w
        }
    }
}

pub fn push_limited_unique(values: &mut Vec<String>, value: &str, limit: usize)
    ensures
        views(final(values)@) == push_limited_unique_spec(views(old(values)@), value@, limit as nat),
{
    let mut i: usize = 0;
    while i < values.len()
        invariant
            i <= values.len(),
            forall|k: int| 0 <= k < i ==> values@[k]@ != value@,
        decreases values.len() - i,
    {
        if str_eq(values[i].as_str(), value) {
            assert(views(values@)[i as int] == value@);
            return;
        }
        i = i + 1;
    }
    assert(!views(values@).contains(value@));
    let ghost before = values@;
    values.push(String::from_str(value));
    proof {
        crate::text::lemma_views_push(before, values@.last());
    }
    if values.len() > limit {
        let overflow = values.len() - limit;
        let mut kept: Vec<String> = Vec::new();
        let mut j: usize = overflow;
        while j < values.len()
            invariant
                overflow <= j <= values.len(),
                kept@ == values@.subrange(overflow as int, j as int),
            decreases values.len() - j,
        {
            kept.push(values[j].clone());
            assert(kept@ =~= values@.subrange(overflow as int, j + 1));
            j = j + 1;
        }
        assert(views(kept@) =~= views(values@).subrange(overflow as int, values@.len() as int));
        *values = kept;
    }
}

pub open spec fn history_summary(event: CanonEvent, adjudication: AdjudicationReport) -> Seq<char> {
    event.turn_id@ + ": "@ + event.summary@ + " ("@ + adjudication.summary@ + ")"@
}

pub open spec fn location_of(event: CanonEvent) -> Seq<char> {
    match event.location {
        Some(l) => l@,
        None => OPENING_LOCATION_ID@,
    }
}

pub open spec fn place_summary(event: CanonEvent, adjudication: AdjudicationReport) -> Seq<char> {
    event.turn_id@ + " 이후 장소 상태: "@ + adjudication.outcome@
}

pub open spec fn relation_summary(kind: TurnInputKind) -> Seq<char> {
    match kind {
        TurnInputKind::GuideChoice => "주인공이 안내자의 숨은 안내에 맡긴 기록"@,
        TurnInputKind::CodexQuery => "주인공이 세계 기록을 통해 안내자의 기록자 권한에 닿은 기록"@,
        TurnInputKind::FreeformAction | TurnInputKind::NumericChoice => {
            "주인공과 앵커 인물 사이의 이야기 장력이 한 박자 누적됨"@
        },
        TurnInputKind::MacroTimeFlow => "거시 흐름 속에서 앵커 인물 가능성이 다시 고정됨"@,
        TurnInputKind::CcCanvas => "장면 표면 전환 중에도 앵커 인물 상수가 유지됨"@,
    }
}

/// `i` is the first character with the given id.
pub open spec fn first_character(cs: Seq<CharacterRecord>, id: Seq<char>, i: int) -> bool {
    0 <= i < cs.len() && cs[i].id@ == id && forall|j: int| 0 <= j < i ==> cs[j].id@ != id
}

pub open spec fn first_place(ps: Seq<PlaceRecord>, id: Seq<char>, i: int) -> bool {
    0 <= i < ps.len() && ps[i].id@ == id && forall|j: int| 0 <= j < i ==> ps[j].id@ != id
}

/// Two characters differ at most in their history and relationship lists.
pub open spec fn same_character_identity(a: CharacterRecord, b: CharacterRecord) -> bool {
    &&& a.id == b.id
    &&& a.name == b.name
    &&& a.role == b.role
    &&& a.knowledge_state == b.knowledge_state
    &&& a.traits == b.traits
    &&& a.voice_anchor == b.voice_anchor
    &&& a.body == b.body
}

pub open spec fn same_place_identity(a: PlaceRecord, b: PlaceRecord) -> bool {
    &&& a.id == b.id
    &&& a.name == b.name
    &&& a.coordinates == b.coordinates
    &&& a.known_to_protagonist == b.known_to_protagonist
}

/// `u` is the projection row of an entity update made by this event.
pub open spec fn entity_row(
    u: EntityUpdateRecord,
    event: CanonEvent,
    created_at: Seq<char>,
    entity_id: Seq<char>,
    kind: Seq<char>,
    summary: Seq<char>,
) -> bool {
    &&& u.update_id@ == event.event_id@ + ":"@ + kind
    &&& u.world_id == event.world_id
    &&& u.turn_id == event.turn_id
    &&& u.entity_id@ == entity_id
    &&& u.update_kind@ == kind
    &&& u.visibility@ == PLAYER_VISIBLE@
    &&& u.summary@ == summary
    &&& u.source_event_id == event.event_id
    &&& u.created_at@ == created_at
}

/// The rows an entity update returns: the protagonist's history row, the
/// place row, the faction-pressure row for macro time flow, and the story
/// tension relationship row, all stamped with the event and `created_at`.
pub open spec fn update_rows_are(
    r: StructuredEntityUpdates,
    event: CanonEvent,
    adjudication: AdjudicationReport,
    input_kind: TurnInputKind,
    created_at: Seq<char>,
) -> bool {
    &&& r.world_id@ == event.world_id@
    &&& r.turn_id@ == event.turn_id@
    &&& r.entity_updates@.len() == (if input_kind == TurnInputKind::MacroTimeFlow {
        3nat
    } else {
        2nat
    })
    &&& entity_row(
        r.entity_updates@[0],
        event,
        created_at,
        PROTAGONIST_CHARACTER_ID@,
        UPDATE_KIND_HISTORY@,
        history_summary(event, adjudication),
    )
    &&& entity_row(
        r.entity_updates@[1],
        event,
        created_at,
        location_of(event),
        UPDATE_KIND_PLACE_STATE@,
        place_summary(event, adjudication),
    )
    &&& (input_kind == TurnInputKind::MacroTimeFlow ==> entity_row(
        r.entity_updates@[2],
        event,
        created_at,
        "concept:unresolved_faction_pressure"@,
        UPDATE_KIND_FACTION_PRESSURE@,
        "아직 이름 없는 세력/도시 압력이 거시 흐름 후보로 기록됨"@,
    ))
    &&& r.relationship_updates@.len() == 1
    &&& {
        let rel = r.relationship_updates@[0];
        &&& rel.update_id@ == event.event_id@ + ":"@ + RELATION_KIND_STORY_TENSION@
        &&& rel.world_id == event.world_id
        &&& rel.turn_id == event.turn_id
        &&& rel.source_entity_id@ == PROTAGONIST_CHARACTER_ID@
        &&& rel.target_entity_id@ == ANCHOR_CHARACTER_ID@
        &&& rel.relation_kind@ == RELATION_KIND_STORY_TENSION@
        &&& rel.visibility@ == PLAYER_VISIBLE@
        &&& rel.summary@ == relation_summary(input_kind)
        &&& rel.source_event_id == event.event_id
        &&& rel.created_at@ == created_at
    }
}

/// Character `k` after the update: identity kept, the protagonist's history
/// and the anchor character's relationships pushed, other lists unchanged.
pub open spec fn character_updated(
    olds: Seq<CharacterRecord>,
    k: int,
    c: CharacterRecord,
    event: CanonEvent,
    adjudication: AdjudicationReport,
    input_kind: TurnInputKind,
) -> bool {
    let b = olds[k];
    &&& same_character_identity(b, c)
    &&& views(c.history@) == if first_character(olds, PROTAGONIST_CHARACTER_ID@, k) {
        push_limited_unique_spec(views(b.history@), history_summary(event, adjudication), 24)
    } else {
        views(b.history@)
    }
    &&& views(c.relationships@) == if first_character(olds, ANCHOR_CHARACTER_ID@, k) {
        push_limited_unique_spec(views(b.relationships@), "protagonist: "@ + relation_summary(input_kind), 24)
    } else {
        views(b.relationships@)
    }
}

/// Place `k` after the update: identity kept, the event place's notes pushed.
pub open spec fn place_updated(
    olds: Seq<PlaceRecord>,
    k: int,
    p: PlaceRecord,
    event: CanonEvent,
    adjudication: AdjudicationReport,
) -> bool {
    let b = olds[k];
    &&& same_place_identity(b, p)
    &&& views(p.notes@) == if first_place(olds, location_of(event), k) {
        push_limited_unique_spec(views(b.notes@), place_summary(event, adjudication), 16)
    } else {
        views(b.notes@)
    }
}

/// `after` is `before` with the protagonist's history line, the anchor
/// character's relationship line and the event place's note pushed (each kept
/// unique and to its limit), and nothing else changed.
pub open spec fn entities_updated(
    before: EntityRecords,
    after: EntityRecords,
    event: CanonEvent,
    adjudication: AdjudicationReport,
    input_kind: TurnInputKind,
) -> bool {
    &&& after.schema_version == before.schema_version
    &&& after.world_id == before.world_id
    &&& after.factions == before.factions
    &&& after.items == before.items
    &&& after.concepts == before.concepts
    &&& after.characters@.len() == before.characters@.len()
    &&& forall|k: int|
        0 <= k < before.characters@.len() ==> character_updated(
            before.characters@,
            k,
            #[trigger] after.characters@[k],
            event,
            adjudication,
            input_kind,
        )
    &&& after.places@.len() == before.places@.len()
    &&& forall|k: int|
        0 <= k < before.places@.len() ==> place_updated(
            before.places@,
            k,
            #[trigger] after.places@[k],
            event,
            adjudication,
        )
}

/// Apply the deterministic entity/relationship update helper: the protagonist
/// gains a history line, the event location a place note, the anchor
/// character a relationship line, and the returned rows mirror them.
pub fn apply_structured_entity_updates(input: EntityUpdateInput) -> (r: StructuredEntityUpdates)
    ensures
        r.world_id@ == input.event.world_id@,
        r.turn_id@ == input.event.turn_id@,
        r.entity_updates@.len() == if input.input_kind == TurnInputKind::MacroTimeFlow {
            3nat
        } else {
            2nat
        },
        entity_row(
            r.entity_updates@[0],
            *input.event,
            input.created_at@,
            PROTAGONIST_CHARACTER_ID@,
            UPDATE_KIND_HISTORY@,
            history_summary(*input.event, *input.adjudication),
        ),
        entity_row(
            r.entity_updates@[1],
            *input.event,
            input.created_at@,
            location_of(*input.event),
            UPDATE_KIND_PLACE_STATE@,
            place_summary(*input.event, *input.adjudication),
        ),
        r.relationship_updates@.len() == 1,
        r.relationship_updates@[0].summary@ == relation_summary(input.input_kind),
        update_rows_are(r, *input.event, *input.adjudication, input.input_kind, input.created_at@),
        entities_updated(
            *old(input.entities),
            *final(input.entities),
            *input.event,
            *input.adjudication,
            input.input_kind,
        ),
{
    let EntityUpdateInput { entities, event, adjudication, input_kind, created_at } = input;
    apply_entity_updates(entities, event, adjudication, input_kind, created_at)
}

pub fn apply_entity_updates(
    entities: &mut EntityRecords,
    event: &CanonEvent,
    adjudication: &AdjudicationReport,
    input_kind: TurnInputKind,
    created_at: &str,
) -> (r: StructuredEntityUpdates)
    ensures
        r.world_id@ == event.world_id@,
        r.turn_id@ == event.turn_id@,
        r.entity_updates@.len() == if input_kind == TurnInputKind::MacroTimeFlow {
            3nat
        } else {
            2nat
        },
        entity_row(
            r.entity_updates@[0],
            *event,
            created_at@,
            PROTAGONIST_CHARACTER_ID@,
            UPDATE_KIND_HISTORY@,
            history_summary(*event, *adjudication),
        ),
        entity_row(
            r.entity_updates@[1],
            *event,
            created_at@,
            location_of(*event),
            UPDATE_KIND_PLACE_STATE@,
            place_summary(*event, *adjudication),
        ),
        input_kind == TurnInputKind::MacroTimeFlow ==> entity_row(
            r.entity_updates@[2],
            *event,
            created_at@,
            "concept:unresolved_faction_pressure"@,
            UPDATE_KIND_FACTION_PRESSURE@,
            "아직 이름 없는 세력/도시 압력이 거시 흐름 후보로 기록됨"@,
        ),
        r.relationship_updates@.len() == 1,
        ({
            let rel = r.relationship_updates@[0];
            &&& rel.update_id@ == event.event_id@ + ":"@ + RELATION_KIND_STORY_TENSION@
            &&& rel.world_id == event.world_id
            &&& rel.turn_id == event.turn_id
            &&& rel.source_entity_id@ == PROTAGONIST_CHARACTER_ID@
            &&& rel.target_entity_id@ == ANCHOR_CHARACTER_ID@
            &&& rel.relation_kind@ == RELATION_KIND_STORY_TENSION@
            &&& rel.visibility@ == PLAYER_VISIBLE@
            &&& rel.summary@ == relation_summary(input_kind)
            &&& rel.source_event_id == event.event_id
            &&& rel.created_at@ == created_at@
        }),
        final(entities).schema_version == old(entities).schema_version,
        final(entities).world_id == old(entities).world_id,
        final(entities).factions == old(entities).factions,
        final(entities).items == old(entities).items,
        final(entities).concepts == old(entities).concepts,
        final(entities).characters@.len() == old(entities).characters@.len(),
        forall|k: int|
            0 <= k < old(entities).characters@.len() ==> {
                let before = old(entities).characters@[k];
                let after = #[trigger] final(entities).characters@[k];
                &&& same_character_identity(before, after)
                &&& views(after.history@) == if first_character(
                    old(entities).characters@,
                    PROTAGONIST_CHARACTER_ID@,
                    k,
                ) {
                    push_limited_unique_spec(
                        views(before.history@),
                        history_summary(*event, *adjudication),
                        24,
                    )
                } else {
                    views(before.history@)
                }
                &&& views(after.relationships@) == if first_character(
                    old(entities).characters@,
                    ANCHOR_CHARACTER_ID@,
                    k,
                ) {
                    push_limited_unique_spec(
                        views(before.relationships@),
                        "protagonist: "@ + relation_summary(input_kind),
                        24,
                    )
                } else {
                    views(before.relationships@)
                }
            },
        final(entities).places@.len() == old(entities).places@.len(),
        forall|k: int|
            0 <= k < old(entities).places@.len() ==> {
                let before = old(entities).places@[k];
                let after = #[trigger] final(entities).places@[k];
                &&& same_place_identity(before, after)
                &&& views(after.notes@) == if first_place(
                    old(entities).places@,
                    location_of(*event),
                    k,
                ) {
                    push_limited_unique_spec(
                        views(before.notes@),
                        place_summary(*event, *adjudication),
                        16,
                    )
                } else {
                    views(before.notes@)
                }
            },
        update_rows_are(r, *event, *adjudication, input_kind, created_at@),
        entities_updated(*old(entities), *final(entities), *event, *adjudication, input_kind),
{
    let mut updates = StructuredEntityUpdates::empty(
        event.world_id.as_str(),
        event.turn_id.as_str(),
    );
    proof {
        reveal_strlit("char:protagonist");
        reveal_strlit("char:anchor");
    }
    // Protagonist history.
    let head = concat5(
        event.turn_id.as_str(),
        ": ",
        event.summary.as_str(),
        " (",
        adjudication.summary.as_str(),
    );
    let summary = concat2(head.as_str(), ")");
    let ghost chars0 = entities.characters@;
    match find_character(&entities.characters, PROTAGONIST_CHARACTER_ID) {
        Some(i) => {
            let mut c = entities.characters.remove(i);
            push_limited_unique(&mut c.history, summary.as_str(), 24);
            entities.characters.insert(i, c);
            assert(entities.characters@ =~= chars0.update(i as int, c));
        },
        None => {},
    }
    updates.entity_updates.push(
        entity_update_record(
            event,
            created_at,
            PROTAGONIST_CHARACTER_ID,
            UPDATE_KIND_HISTORY,
            summary,
        ),
    );
    // Location note.
    let location: &str = match &event.location {
        Some(l) => l.as_str(),
        None => OPENING_LOCATION_ID,
    };
    let place_note = concat3(
        event.turn_id.as_str(),
        " 이후 장소 상태: ",
        adjudication.outcome.as_str(),
    );
    let ghost places0 = entities.places@;
    match find_place(&entities.places, location) {
        Some(i) => {
            let mut p = entities.places.remove(i);
            push_limited_unique(&mut p.notes, place_note.as_str(), 16);
            entities.places.insert(i, p);
            assert(entities.places@ =~= places0.update(i as int, p));
        },
        None => {},
    }
    updates.entity_updates.push(
        entity_update_record(event, created_at, location, UPDATE_KIND_PLACE_STATE, place_note),
    );
    // Guide relationship.
    let relation = relation_summary_text(input_kind);
    let line = concat2("protagonist: ", relation);
    let ghost chars1 = entities.characters@;
    match find_character(&entities.characters, ANCHOR_CHARACTER_ID) {
        Some(i) => {
            let mut c = entities.characters.remove(i);
            push_limited_unique(&mut c.relationships, line.as_str(), 24);
            entities.characters.insert(i, c);
            assert(entities.characters@ =~= chars1.update(i as int, c));
        },
        None => {},
    }
    updates.relationship_updates.push(
        RelationshipUpdateRecord {
            update_id: concat3(event.event_id.as_str(), ":", RELATION_KIND_STORY_TENSION),
            world_id: event.world_id.clone(),
            turn_id: event.turn_id.clone(),
            source_entity_id: String::from_str(PROTAGONIST_CHARACTER_ID),
            target_entity_id: String::from_str(ANCHOR_CHARACTER_ID),
            relation_kind: String::from_str(RELATION_KIND_STORY_TENSION),
            visibility: String::from_str(PLAYER_VISIBLE),
            summary: String::from_str(relation),
            source_event_id: event.event_id.clone(),
            created_at: String::from_str(created_at),
        },
    );
    if input_kind == TurnInputKind::MacroTimeFlow {
        updates.entity_updates.push(
            entity_update_record(
                event,
                created_at,
                "concept:unresolved_faction_pressure",
                UPDATE_KIND_FACTION_PRESSURE,
                String::from_str("아직 이름 없는 세력/도시 압력이 거시 흐름 후보로 기록됨"),
            ),
        );
    }
    proof {
        assert(chars1.len() == chars0.len());
        assert forall|k: int| 0 <= k < chars0.len() implies same_character_identity(
            chars0[k],
            #[trigger] chars1[k],
        ) by {}
        assert forall|k: int| 0 <= k < chars0.len() implies first_character(
            chars1,
            ANCHOR_CHARACTER_ID@,
            k,
        ) == first_character(chars0, ANCHOR_CHARACTER_ID@, k) by {
            assert forall|j: int| 0 <= j < k implies chars1[j].id == chars0[j].id by {
                assert(same_character_identity(chars0[j], chars1[j]));
            }
        }
        assert forall|k: int| 0 <= k < chars0.len() implies !(first_character(
            chars0,
            PROTAGONIST_CHARACTER_ID@,
            k,
        ) && first_character(chars0, ANCHOR_CHARACTER_ID@, k)) by {
            reveal_strlit("char:protagonist");
            reveal_strlit("char:anchor");
            assert(PROTAGONIST_CHARACTER_ID@[5] != ANCHOR_CHARACTER_ID@[5]);
        }
    }
    updates
}

fn find_character(cs: &Vec<CharacterRecord>, id: &str) -> (r: Option<usize>)
    ensures
        match r {
            Some(i) => first_character(cs@, id@, i as int),
            None => forall|j: int| 0 <= j < cs@.len() ==> cs@[j].id@ != id@,
        },
{
    let mut i: usize = 0;
    while i < cs.len()
        invariant
            i <= cs.len(),
            forall|j: int| 0 <= j < i ==> cs@[j].id@ != id@,
        decreases cs.len() - i,
    {
        if str_eq(cs[i].id.as_str(), id) {
            return Some(i);
        }
        i = i + 1;
    }
    None
}

fn find_place(ps: &Vec<PlaceRecord>, id: &str) -> (r: Option<usize>)
    ensures
        match r {
            Some(i) => first_place(ps@, id@, i as int),
            None => forall|j: int| 0 <= j < ps@.len() ==> ps@[j].id@ != id@,
        },
{
    let mut i: usize = 0;
    while i < ps.len()
        invariant
            i <= ps.len(),
            forall|j: int| 0 <= j < i ==> ps@[j].id@ != id@,
        decreases ps.len() - i,
    {
        if str_eq(ps[i].id.as_str(), id) {
            return Some(i);
        }
        i = i + 1;
    }
    None
}

fn relation_summary_text(kind: TurnInputKind) -> (r: &'static str)
    ensures
        r@ == relation_summary(kind),
{
    match kind {
        TurnInputKind::GuideChoice => "주인공이 안내자의 숨은 안내에 맡긴 기록",
        TurnInputKind::CodexQuery => "주인공이 세계 기록을 통해 안내자의 기록자 권한에 닿은 기록",
        TurnInputKind::FreeformAction | TurnInputKind::NumericChoice => {
            "주인공과 앵커 인물 사이의 이야기 장력이 한 박자 누적됨"
        },
        TurnInputKind::MacroTimeFlow => "거시 흐름 속에서 앵커 인물 가능성이 다시 고정됨",
        TurnInputKind::CcCanvas => "장면 표면 전환 중에도 앵커 인물 상수가 유지됨",
    }
}

fn entity_update_record(
    event: &CanonEvent,
    created_at: &str,
    entity_id: &str,
    kind: &str,
    summary: String,
) -> (r: EntityUpdateRecord)
    ensures
        entity_row(r, *event, created_at@, entity_id@, kind@, summary@),
{
    EntityUpdateRecord {
        update_id: concat3(event.event_id.as_str(), ":", kind),
        world_id: event.world_id.clone(),
        turn_id: event.turn_id.clone(),
        entity_id: String::from_str(entity_id),
        update_kind: String::from_str(kind),
        visibility: String::from_str(PLAYER_VISIBLE),
        summary,
        source_event_id: event.event_id.clone(),
        created_at: String::from_str(created_at),
    }
}

/// Recording a line twice leaves the list as it was after the first time.
pub proof fn law_push_limited_unique_idempotent(values: Seq<Seq<char>>, value: Seq<char>, limit: nat)
    requires
        limit > 0,
    ensures
        push_limited_unique_spec(push_limited_unique_spec(values, value, limit), value, limit)
            == push_limited_unique_spec(values, value, limit),
        push_limited_unique_spec(values, value, limit).contains(value),
        push_limited_unique_spec(values, value, limit).len() <= if values.len() > limit {
            values.len()
        } else {
            limit
        },
{
    let r = push_limited_unique_spec(values, value, limit);
    if !values.contains(value) {
        let w = values.push(value);
        assert(w[w.len() - 1] == value);
        if w.len() > limit {
            let s = w.subrange(w.len() - limit, w.len() as int);
            assert(s[s.len() - 1] == value);
        }
    }
    assert(r.contains(value));
}


/// No text twice, and at most `limit` of them.
pub open spec fn unique_within(v: Seq<Seq<char>>, limit: nat) -> bool {
    v.no_duplicates() && v.len() <= limit
}

proof fn lemma_push_keeps_unique_within(values: Seq<Seq<char>>, value: Seq<char>, limit: nat)
    requires
        unique_within(values, limit),
    ensures
        unique_within(push_limited_unique_spec(values, value, limit), limit),
{
    if !values.contains(value) {
        let w = values.push(value);
        assert forall|i: int, j: int| 0 <= i < w.len() && 0 <= j < w.len() && i != j implies w[i] != w[j] by {
            if i == values.len() {
                assert(values.contains(w[j]) || j == values.len());
            } else if j == values.len() {
                assert(values[i] == w[i]);
            }
        }
        if w.len() > limit {
            let s = w.subrange(w.len() - limit, w.len() as int);
            assert forall|i: int, j: int| 0 <= i < s.len() && 0 <= j < s.len() && i != j implies s[i] != s[j] by {
                assert(s[i] == w[i + (w.len() - limit)]);
                assert(s[j] == w[j + (w.len() - limit)]);
            }
        }
    }
}

/// An entity update keeps the protagonist's history and the anchor
/// character's relationships (at most 24 each) and every place's notes (at
/// most 16) free of repeats and within their limits.
pub proof fn law_entity_updates_keep_lists_unique_and_bounded(
    before: EntityRecords,
    after: EntityRecords,
    event: CanonEvent,
    adjudication: AdjudicationReport,
    input_kind: TurnInputKind,
)
    requires
        entities_updated(before, after, event, adjudication, input_kind),
        forall|k: int|
            0 <= k < before.characters@.len() ==> unique_within(views((#[trigger] before.characters@[k]).history@), 24)
                && unique_within(views(before.characters@[k].relationships@), 24),
        forall|k: int| 0 <= k < before.places@.len() ==> unique_within(views((#[trigger] before.places@[k]).notes@), 16),
    ensures
        forall|k: int|
            0 <= k < after.characters@.len() ==> unique_within(views((#[trigger] after.characters@[k]).history@), 24)
                && unique_within(views(after.characters@[k].relationships@), 24),
        forall|k: int| 0 <= k < after.places@.len() ==> unique_within(views((#[trigger] after.places@[k]).notes@), 16),
{
    assert forall|k: int| 0 <= k < after.characters@.len() implies unique_within(
        views((#[trigger] after.characters@[k]).history@),
        24,
    ) && unique_within(views(after.characters@[k].relationships@), 24) by {
        let b = before.characters@[k];
        assert(character_updated(before.characters@, k, after.characters@[k], event, adjudication, input_kind));
        lemma_push_keeps_unique_within(views(b.history@), history_summary(event, adjudication), 24);
        lemma_push_keeps_unique_within(views(b.relationships@), "protagonist: "@ + relation_summary(input_kind), 24);
    }
    assert forall|k: int| 0 <= k < after.places@.len() implies unique_within(views((#[trigger] after.places@[k]).notes@), 16) by {
        let b = before.places@[k];
        assert(place_updated(before.places@, k, after.places@[k], event, adjudication));
        lemma_push_keeps_unique_within(views(b.notes@), place_summary(event, adjudication), 16);
    }
}

} // verus!
