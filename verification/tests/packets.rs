use singulari_world::affordance_graph::{compile_affordance_graph_packet, AffordanceKind};
use singulari_world::body_resource::{
    compile_body_resource_packet, BodyConstraint, BodyResourcePacket, BodyResourcePolicy,
    BodyResourceVisibility, ResourceItem, ResourceKind, BODY_CONSTRAINT_SCHEMA_VERSION,
    BODY_RESOURCE_PACKET_SCHEMA_VERSION, RESOURCE_ITEM_SCHEMA_VERSION,
};
use singulari_world::location_graph::{
    compile_location_graph_packet, LocationGraphPacket, LocationGraphPolicy,
    LocationKnowledgeState, LocationNode, LOCATION_GRAPH_PACKET_SCHEMA_VERSION,
    LOCATION_NODE_SCHEMA_VERSION,
};
use singulari_world::models::{
    EntityRecords, PlaceRecord, ProtagonistState, TurnSnapshot, TURN_SNAPSHOT_SCHEMA_VERSION,
};
use singulari_world::scene_pressure::{
    ScenePressure, ScenePressureKind, ScenePressurePacket, ScenePressurePolicy,
    ScenePressureProseEffect, ScenePressureUrgency, ScenePressureVisibility,
    SCENE_PRESSURE_PACKET_SCHEMA_VERSION, SCENE_PRESSURE_SCHEMA_VERSION,
};

fn snapshot(world_id: &str, location: &str, inventory: Vec<String>, body: Vec<String>) -> TurnSnapshot {
    TurnSnapshot {
        schema_version: TURN_SNAPSHOT_SCHEMA_VERSION.to_owned(),
        world_id: world_id.to_owned(),
        session_id: "session".to_owned(),
        turn_id: "turn_0001".to_owned(),
        phase: "choice".to_owned(),
        current_event: None,
        protagonist_state: ProtagonistState {
            location: location.to_owned(),
            inventory,
            body,
            mind: Vec::new(),
        },
        open_questions: Vec::new(),
        last_choices: Vec::new(),
    }
}

fn place(id: &str, name: &str, known: bool, notes: Vec<String>) -> PlaceRecord {
    PlaceRecord {
        id: id.to_owned(),
        name: name.to_owned(),
        coordinates: None,
        known_to_protagonist: known,
        notes,
    }
}

#[test]
fn compiles_current_and_known_nearby_locations() {
    let snapshot = snapshot("stw_location", "place:gate", Vec::new(), Vec::new());
    let entities = EntityRecords {
        schema_version: "singulari.entities.v1".to_owned(),
        world_id: "stw_location".to_owned(),
        characters: Vec::new(),
        places: vec![
            place("place:gate", "West Gate", true, vec!["wet stone arch".to_owned()]),
            place("place:road", "Old Road", true, Vec::new()),
        ],
        factions: Vec::new(),
        items: Vec::new(),
        concepts: Vec::new(),
    };

    let packet = compile_location_graph_packet(&snapshot, &entities);

    assert_eq!(
        packet
            .current_location
            .as_ref()
            .map(|location| location.location_id.as_str()),
        Some("place:gate")
    );
    assert_eq!(packet.known_nearby_locations.len(), 1);
    assert_eq!(
        packet.known_nearby_locations[0].knowledge_state,
        LocationKnowledgeState::Known
    );
}

#[test]
fn nearby_locations_keep_only_three_known_places() {
    let snapshot = snapshot("w", "place:x", Vec::new(), Vec::new());
    let entities = EntityRecords {
        schema_version: "singulari.entities.v1".to_owned(),
        world_id: "w".to_owned(),
        characters: Vec::new(),
        places: vec![
            place("place:a", "A", true, Vec::new()),
            place("place:b", "B", false, Vec::new()),
            place("place:c", "C", true, Vec::new()),
            place("place:d", "D", true, Vec::new()),
            place("place:e", "E", true, Vec::new()),
        ],
        factions: Vec::new(),
        items: Vec::new(),
        concepts: Vec::new(),
    };
    let packet = compile_location_graph_packet(&snapshot, &entities);
    assert!(packet.current_location.is_none());
    let ids: Vec<&str> = packet
        .known_nearby_locations
        .iter()
        .map(|node| node.location_id.as_str())
        .collect();
    assert_eq!(ids, vec!["place:a", "place:c", "place:d"]);
    assert_eq!(
        packet.known_nearby_locations[1].source_refs,
        vec!["entities.places:place:c".to_owned()]
    );
}

#[test]
fn compiles_body_and_inventory() {
    let snapshot = snapshot(
        "stw_body",
        "place:gate",
        vec!["wooden entry token".to_owned()],
        vec!["left wrist aches".to_owned()],
    );

    let packet = compile_body_resource_packet(&snapshot);

    assert_eq!(packet.body_constraints.len(), 1);
    assert_eq!(packet.body_constraints[0].severity, 2);
    assert_eq!(packet.resources.len(), 1);
    assert_eq!(packet.resources[0].resource_kind, ResourceKind::Document);
}

#[test]
fn body_and_inventory_ids_are_zero_padded() {
    let snapshot = snapshot(
        "w",
        "place:gate",
        vec!["Copper COINS".to_owned(), "물병".to_owned(), "rope".to_owned()],
        vec!["BLEEDING palm".to_owned(), "tired".to_owned()],
    );
    let packet = compile_body_resource_packet(&snapshot);
    assert_eq!(packet.body_constraints[0].constraint_id, "body:constraint:00");
    assert_eq!(packet.body_constraints[0].severity, 4);
    assert_eq!(packet.body_constraints[1].severity, 1);
    assert_eq!(
        packet.body_constraints[1].source_refs,
        vec!["latest_snapshot.protagonist_state.body[1]".to_owned()]
    );
    assert_eq!(packet.resources[2].resource_id, "resource:inventory:02");
    assert_eq!(packet.resources[0].resource_kind, ResourceKind::Money);
    assert_eq!(packet.resources[1].resource_kind, ResourceKind::Water);
    assert_eq!(packet.resources[2].resource_kind, ResourceKind::Unknown);
}

fn pressure(id: &str, kind: ScenePressureKind, intensity: u8, signals: Vec<String>) -> ScenePressure {
    ScenePressure {
        schema_version: SCENE_PRESSURE_SCHEMA_VERSION.to_owned(),
        pressure_id: id.to_owned(),
        kind,
        visibility: ScenePressureVisibility::PlayerVisible,
        intensity,
        urgency: ScenePressureUrgency::Immediate,
        source_refs: vec!["turn:0001".to_owned()],
        observable_signals: signals,
        choice_affordances: vec!["listen".to_owned()],
        prose_effect: ScenePressureProseEffect {
            paragraph_pressure: "short".to_owned(),
            sensory_focus: vec!["sound".to_owned()],
            dialogue_style: "low".to_owned(),
        },
    }
}

fn body_packet() -> BodyResourcePacket {
    BodyResourcePacket {
        schema_version: BODY_RESOURCE_PACKET_SCHEMA_VERSION.to_owned(),
        world_id: "stw_affordance".to_owned(),
        turn_id: "turn_0002".to_owned(),
        body_constraints: vec![BodyConstraint {
            schema_version: BODY_CONSTRAINT_SCHEMA_VERSION.to_owned(),
            constraint_id: "body:constraint:00".to_owned(),
            visibility: BodyResourceVisibility::PlayerVisible,
            summary: "왼손이 저리다".to_owned(),
            severity: 2,
            source_refs: vec!["body:0".to_owned()],
            scene_pressure_kinds: vec!["body".to_owned()],
        }],
        resources: vec![ResourceItem {
            schema_version: RESOURCE_ITEM_SCHEMA_VERSION.to_owned(),
            resource_id: "resource:inventory:00".to_owned(),
            visibility: BodyResourceVisibility::PlayerVisible,
            summary: "짧은 끈".to_owned(),
            resource_kind: ResourceKind::Tool,
            source_refs: vec!["inventory:0".to_owned()],
        }],
        compiler_policy: BodyResourcePolicy::default(),
    }
}

fn room_graph() -> LocationGraphPacket {
    LocationGraphPacket {
        schema_version: LOCATION_GRAPH_PACKET_SCHEMA_VERSION.to_owned(),
        world_id: "stw_affordance".to_owned(),
        turn_id: "turn_0002".to_owned(),
        current_location: Some(LocationNode {
            schema_version: LOCATION_NODE_SCHEMA_VERSION.to_owned(),
            location_id: "place:room".to_owned(),
            name: "방".to_owned(),
            knowledge_state: LocationKnowledgeState::Visited,
            notes: Vec::new(),
            source_refs: vec!["place:room:source".to_owned()],
        }),
        known_nearby_locations: Vec::new(),
        compiler_policy: LocationGraphPolicy::default(),
    }
}

#[test]
fn compiles_five_ordinary_affordances_from_visible_state() {
    let graph = compile_affordance_graph_packet(
        "stw_affordance",
        "turn_0002",
        &ScenePressurePacket {
            schema_version: SCENE_PRESSURE_PACKET_SCHEMA_VERSION.to_owned(),
            world_id: "stw_affordance".to_owned(),
            turn_id: "turn_0002".to_owned(),
            visible_active: vec![pressure(
                "pressure:threat:noise",
                ScenePressureKind::Threat,
                4,
                vec!["문밖 발소리".to_owned()],
            )],
            hidden_adjudication_only: Vec::new(),
            compiler_policy: ScenePressurePolicy::default(),
        },
        &body_packet(),
        &room_graph(),
    );

    assert_eq!(graph.ordinary_choice_slots.len(), 5);
    assert_eq!(graph.ordinary_choice_slots[0].slot, 1);
    assert_eq!(
        graph.ordinary_choice_slots[3].affordance_kind,
        AffordanceKind::ResourceOrBody
    );
    assert!(graph.ordinary_choice_slots[3]
        .source_refs
        .contains(&"body:0".to_owned()));
    assert!(graph.ordinary_choice_slots[4]
        .source_refs
        .contains(&"pressure:threat:noise".to_owned()));
}

#[test]
fn strongest_pressure_prefers_the_last_of_equal_intensity() {
    let graph = compile_affordance_graph_packet(
        "w",
        "turn_0002",
        &ScenePressurePacket {
            schema_version: SCENE_PRESSURE_PACKET_SCHEMA_VERSION.to_owned(),
            world_id: "w".to_owned(),
            turn_id: "turn_0002".to_owned(),
            visible_active: vec![
                pressure("p:a", ScenePressureKind::TimePressure, 3, Vec::new()),
                pressure("p:b", ScenePressureKind::Desire, 5, Vec::new()),
                pressure("p:c", ScenePressureKind::Threat, 5, Vec::new()),
            ],
            hidden_adjudication_only: Vec::new(),
            compiler_policy: ScenePressurePolicy::default(),
        },
        &body_packet(),
        &room_graph(),
    );
    let slots = &graph.ordinary_choice_slots;
    assert_eq!(slots[4].source_refs, vec!["p:c".to_owned()]);
    assert_eq!(slots[2].source_refs, vec!["p:b".to_owned(), "p:c".to_owned()]);
    assert_eq!(
        slots[1].source_refs,
        vec!["place:room:source".to_owned(), "place:room".to_owned()]
    );
    assert_eq!(
        slots[3].source_refs,
        vec![
            "body:0".to_owned(),
            "inventory:0".to_owned(),
            "resource:inventory:00".to_owned()
        ]
    );
    assert_eq!(slots[0].pressure_refs.len(), 3);
}
