use singulari_world::adjudication::{adjudicate_turn, AdjudicationInput};
use singulari_world::entity_update::{
    apply_structured_entity_updates, push_limited_unique, EntityUpdateInput,
};
use singulari_world::models::{
    initial_canon_event, AnchorCharacter, EntityRecords, HiddenState, LanguagePolicy,
    RuntimeContract, TurnInputKind, TurnSnapshot, WorldLaws, WorldPremise, WorldRecord, WorldSeed,
    ANCHOR_CHARACTER_ID, PROTAGONIST_CHARACTER_ID, WORLD_SEED_SCHEMA_VERSION,
};

fn world() -> WorldRecord {
    WorldRecord::from_seed(
        WorldSeed {
            schema_version: WORLD_SEED_SCHEMA_VERSION.to_owned(),
            world_id: "stw_entities".to_owned(),
            title: "엔티티 세계".to_owned(),
            created_by: "local_user".to_owned(),
            runtime_contract: RuntimeContract::standard(),
            premise: WorldPremise {
                genre: "중세 판타지".to_owned(),
                protagonist: "현대인 전생".to_owned(),
                special_condition: None,
                opening_state: "interlude".to_owned(),
            },
            anchor_character: AnchorCharacter::standard(),
            language: LanguagePolicy::standard(),
            laws: WorldLaws::standard(),
            non_goals: Vec::new(),
        },
        "2026-04-27T00:00:00Z".to_owned(),
    )
}

#[test]
fn helper_updates_protagonist_history_and_relationships() {
    let world = world();
    let snapshot = TurnSnapshot::initial(&world, "session".to_owned());
    let hidden = HiddenState::initial(world.world_id.as_str());
    let mut event = initial_canon_event(&world);
    event.turn_id = "turn_0001".to_owned();
    event.event_id = "evt_000001".to_owned();
    event.summary = "4번 [안내자의 선택] 선택이 접수됐다".to_owned();
    let adjudication = adjudicate_turn(&AdjudicationInput {
        world: &world,
        snapshot: &snapshot,
        hidden_state: &hidden,
        turn_id: "turn_0001",
        input_kind: TurnInputKind::GuideChoice,
        selected_choice: None,
        effective_input: "4",
    });
    let mut entities = EntityRecords::initial(&world);
    let updates = apply_structured_entity_updates(EntityUpdateInput {
        entities: &mut entities,
        event: &event,
        adjudication: &adjudication,
        input_kind: TurnInputKind::GuideChoice,
        created_at: "2026-04-27T00:00:00Z",
    });
    assert_eq!(updates.entity_updates.len(), 2);
    assert_eq!(updates.relationship_updates.len(), 1);
    assert!(entities
        .characters
        .iter()
        .find(|character| character.id == PROTAGONIST_CHARACTER_ID)
        .is_some_and(|character| !character.history.is_empty()));
}

#[test]
fn macro_time_flow_adds_faction_pressure_row_and_anchor_relationship() {
    let world = world();
    let snapshot = TurnSnapshot::initial(&world, "session".to_owned());
    let hidden = HiddenState::initial(world.world_id.as_str());
    let mut event = initial_canon_event(&world);
    event.event_id = "evt_000002".to_owned();
    event.turn_id = "turn_0002".to_owned();
    let adjudication = adjudicate_turn(&AdjudicationInput {
        world: &world,
        snapshot: &snapshot,
        hidden_state: &hidden,
        turn_id: "turn_0002",
        input_kind: TurnInputKind::MacroTimeFlow,
        selected_choice: None,
        effective_input: "흐름을 본다",
    });
    let mut entities = EntityRecords::initial(&world);
    let updates = apply_structured_entity_updates(EntityUpdateInput {
        entities: &mut entities,
        event: &event,
        adjudication: &adjudication,
        input_kind: TurnInputKind::MacroTimeFlow,
        created_at: "now",
    });
    assert_eq!(updates.entity_updates.len(), 3);
    assert_eq!(
        updates.entity_updates[2].update_id,
        "evt_000002:faction_pressure"
    );
    assert_eq!(
        updates.entity_updates[1].summary,
        "turn_0002 이후 장소 상태: constrained"
    );
    let anchor = entities
        .characters
        .iter()
        .find(|c| c.id == ANCHOR_CHARACTER_ID)
        .unwrap();
    assert_eq!(
        anchor.relationships,
        vec!["protagonist: 거시 흐름 속에서 앵커 인물 가능성이 다시 고정됨".to_owned()]
    );
    assert_eq!(entities.places[0].notes.len(), 1);
}

#[test]
fn push_limited_unique_skips_duplicates_and_drops_oldest() {
    let mut values = vec!["a".to_owned(), "b".to_owned()];
    push_limited_unique(&mut values, "a", 2);
    assert_eq!(values, vec!["a".to_owned(), "b".to_owned()]);
    push_limited_unique(&mut values, "c", 2);
    assert_eq!(values, vec!["b".to_owned(), "c".to_owned()]);
    push_limited_unique(&mut values, "c", 2);
    assert_eq!(values, vec!["b".to_owned(), "c".to_owned()]);
}
