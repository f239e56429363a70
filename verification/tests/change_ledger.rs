use singulari_world::change_ledger::{
    plan_change_events, prepare_change_event_plan, rebuild_change_ledger, ChangeAxis,
    ChangeEventPlanInput, ChangeEventRecord, ChangeLedgerPacket, CHANGE_EVENT_SCHEMA_VERSION,
};
use singulari_world::character_text_design::CharacterTextDesignEventPlan;
use singulari_world::plot_thread::{PlotThreadEventPlan, PlotThreadEventRecord, PlotThreadStatus};
use singulari_world::relationship_graph::{
    RelationshipGraphEventPlan, RelationshipGraphEventRecord, RELATIONSHIP_GRAPH_EVENT_SCHEMA_VERSION,
};
use singulari_world::response_context::ContextVisibility;
use singulari_world::scene_pressure::{ScenePressureChange, ScenePressureEventPlan, ScenePressureEventRecord};
use singulari_world::world_lore::{WorldLoreUpdatePlan, WorldLoreUpdateRecord};

fn relationship_plan(visibility: ContextVisibility) -> RelationshipGraphEventPlan {
    RelationshipGraphEventPlan {
        world_id: "stw_change".to_owned(),
        turn_id: "turn_0003".to_owned(),
        records: vec![RelationshipGraphEventRecord {
            schema_version: RELATIONSHIP_GRAPH_EVENT_SCHEMA_VERSION.to_owned(),
            world_id: "stw_change".to_owned(),
            turn_id: "turn_0003".to_owned(),
            event_id: "relationship_graph_event:turn_0003:00".to_owned(),
            source_entity_id: "char:protagonist".to_owned(),
            target_entity_id: "char:porter".to_owned(),
            relation_kind: "trust".to_owned(),
            visibility,
            summary: "문지기가 주인공을 경계하지만 말을 듣기 시작한다".to_owned(),
            evidence_refs: vec!["canon_event:turn_0003".to_owned()],
            recorded_at: "2026-04-29T00:00:00Z".to_owned(),
        }],
    }
}

fn empty_lore() -> WorldLoreUpdatePlan {
    WorldLoreUpdatePlan { world_id: "stw_change".to_owned(), turn_id: "turn_0003".to_owned(), records: Vec::new() }
}

fn empty_designs() -> CharacterTextDesignEventPlan {
    CharacterTextDesignEventPlan {
        world_id: "stw_change".to_owned(),
        turn_id: "turn_0003".to_owned(),
        records: Vec::new(),
    }
}

fn empty_plots() -> PlotThreadEventPlan {
    PlotThreadEventPlan { world_id: "stw_change".to_owned(), turn_id: "turn_0003".to_owned(), records: Vec::new() }
}

fn empty_pressures() -> ScenePressureEventPlan {
    ScenePressureEventPlan {
        world_id: "stw_change".to_owned(),
        turn_id: "turn_0003".to_owned(),
        records: Vec::new(),
    }
}

#[test]
fn materializes_player_visible_relationship_change() {
    let relationships = relationship_plan(ContextVisibility::PlayerVisible);
    let (lore, designs, plots, pressures) = (empty_lore(), empty_designs(), empty_plots(), empty_pressures());
    let plan = prepare_change_event_plan(ChangeEventPlanInput {
        world_id: "stw_change",
        turn_id: "turn_0003",
        relationship_graph_events: &relationships,
        world_lore_updates: &lore,
        character_text_design_events: &designs,
        plot_thread_events: &plots,
        scene_pressure_events: &pressures,
    }).expect("clock");

    let packet = rebuild_change_ledger(
        &ChangeLedgerPacket {
            world_id: "stw_change".to_owned(),
            turn_id: "turn_0003".to_owned(),
            ..ChangeLedgerPacket::default()
        },
        &plan.records,
    );

    assert_eq!(packet.active_changes.len(), 1);
    assert_eq!(packet.active_changes[0].axis, ChangeAxis::Relationship);
    assert_eq!(packet.active_changes[0].target_id, "char:protagonist->char:porter");
}

#[test]
fn change_records_are_numbered_in_axis_order() {
    let relationships = relationship_plan(ContextVisibility::AdjudicationOnly);
    let lore = WorldLoreUpdatePlan {
        world_id: "w".to_owned(),
        turn_id: "TURN_0009".to_owned(),
        records: vec![WorldLoreUpdateRecord {
            category: "law".to_owned(),
            subject: "curfew".to_owned(),
            summary: "curfew at dusk".to_owned(),
            visibility: ContextVisibility::PlayerVisible,
            evidence_refs: vec!["e:1".to_owned()],
        }],
    };
    let plots = PlotThreadEventPlan {
        world_id: "w".to_owned(),
        turn_id: "TURN_0009".to_owned(),
        records: vec![PlotThreadEventRecord {
            thread_id: "thread:gate".to_owned(),
            status_after: PlotThreadStatus::Active,
            summary: "the north door matters".to_owned(),
            evidence_refs: Vec::new(),
        }],
    };
    let pressures = ScenePressureEventPlan {
        world_id: "w".to_owned(),
        turn_id: "TURN_0009".to_owned(),
        records: vec![ScenePressureEventRecord {
            pressure_id: "pressure:rain".to_owned(),
            change: ScenePressureChange::Escalated,
            summary: "rain hardens".to_owned(),
            evidence_refs: Vec::new(),
        }],
    };
    let designs = empty_designs();
    let plan = plan_change_events(
        ChangeEventPlanInput {
            world_id: "w",
            turn_id: "TURN_0009",
            relationship_graph_events: &relationships,
            world_lore_updates: &lore,
            character_text_design_events: &designs,
            plot_thread_events: &plots,
            scene_pressure_events: &pressures,
        },
        "now",
    );
    assert_eq!(plan.records.len(), 4);
    let ids: Vec<&str> = plan.records.iter().map(|r| r.change_id.as_str()).collect();
    assert_eq!(
        ids,
        vec![
            "change:relationship:turn_0009:00",
            "change:worldlore:turn_0009:01",
            "change:plotthread:turn_0009:02",
            "change:scenepressure:turn_0009:03"
        ]
    );
    assert!(!plan.records[0].player_visible);
    assert_eq!(plan.records[1].target_id, "law:curfew");
    assert_eq!(plan.records[1].revival_triggers, vec!["curfew", "law"]);
    assert_eq!(plan.records[2].revival_triggers, vec!["thread:gate", "Active"]);
    assert_eq!(plan.records[3].revival_triggers, vec!["pressure:rain", "Escalated"]);
    assert_eq!(plan.records[3].cause_turns, vec!["TURN_0009"]);
    assert_eq!(plan.records[3].schema_version, CHANGE_EVENT_SCHEMA_VERSION);
}

fn change(id: usize, visible: bool) -> ChangeEventRecord {
    ChangeEventRecord {
        schema_version: CHANGE_EVENT_SCHEMA_VERSION.to_owned(),
        world_id: "w".to_owned(),
        turn_id: "t".to_owned(),
        change_id: format!("change:{id}"),
        axis: ChangeAxis::ScenePressure,
        target_id: "p".to_owned(),
        before: "b".to_owned(),
        after: "a".to_owned(),
        cause_turns: vec!["t".to_owned()],
        player_visible: visible,
        revival_triggers: Vec::new(),
        evidence_refs: Vec::new(),
        recorded_at: "now".to_owned(),
    }
}

#[test]
fn ledger_keeps_the_latest_twelve_visible_changes() {
    let records: Vec<ChangeEventRecord> = (0..20).map(|i| change(i, i % 3 != 0)).collect();
    let packet = rebuild_change_ledger(&ChangeLedgerPacket::default(), &records);
    assert_eq!(packet.active_changes.len(), 12);
    assert!(packet.active_changes.iter().all(|c| c.player_visible));
    assert_eq!(packet.active_changes[0].change_id, "change:2");
    assert_eq!(packet.active_changes[11].change_id, "change:19");
}
