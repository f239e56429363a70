use singulari_world::body_resource::{
    BodyConstraint, BodyResourcePacket, BodyResourceVisibility, BODY_CONSTRAINT_SCHEMA_VERSION,
};
use singulari_world::encounter_surface::{
    choice_slot_from_ref, compile_encounter_surface_packet, derive_resolution_gate_mutations,
    encounter_status, mutation_from_resolution_gate, normalize_id, sort_encounter_surfaces,
    ChoiceTimeCost, EncounterActionKind, EncounterConstraintKind, EncounterPhysicalAnchorKind,
    EncounterSalience, EncounterSurfaceKind, EncounterSurfacePacket, EncounterSurfaceStatus,
};
use singulari_world::location_graph::{
    LocationGraphPacket, LocationKnowledgeState, LocationNode, LOCATION_NODE_SCHEMA_VERSION,
};
use singulari_world::models::TurnChoice;
use singulari_world::resolution::{
    GateKind, GateResult, GateStatus, ResolutionOutcome, ResolutionOutcomeKind,
    ResolutionProposal, ResolutionVisibility, RESOLUTION_PROPOSAL_SCHEMA_VERSION,
};
use singulari_world::scene_pressure::ScenePressurePacket;
use singulari_world::social_exchange::{
    AskStatus, DialogueStance, SocialExchangePacket, UnresolvedSocialAsk,
};

fn choice(slot: u8, tag: &str, intent: &str) -> TurnChoice {
    TurnChoice {
        slot,
        tag: tag.to_owned(),
        intent: intent.to_owned(),
    }
}

#[test]
fn compiles_choice_surfaces_from_current_scene() {
    let packet = compile_encounter_surface_packet(
        "world",
        "turn_0002",
        "place:gate",
        &[
            choice(1, "문 쪽으로 다가간다", "닫히기 전 통로를 확인한다"),
            choice(2, "흔적을 살핀다", "바닥에 남은 단서를 조사한다"),
        ],
        &ScenePressurePacket::default(),
        &LocationGraphPacket::default(),
        &BodyResourcePacket::default(),
        &SocialExchangePacket::default(),
    );

    assert_eq!(packet.active_surfaces.len(), 2);
    assert!(packet
        .active_surfaces
        .iter()
        .any(|surface| surface.kind == EncounterSurfaceKind::EvidenceTrace));
    assert_eq!(packet.choice_contracts.len(), 2);
    let Some(inspect_contract) = packet
        .choice_contracts
        .iter()
        .find(|contract| contract.verb == EncounterActionKind::Inspect)
    else {
        panic!("inspect choice contract should exist");
    };
    assert_eq!(inspect_contract.expected_cost, ChoiceTimeCost::Moment);
    assert!(inspect_contract
        .possible_event_kinds
        .iter()
        .any(|kind| kind == "knowledge_observed"));
    assert!(inspect_contract
        .forbidden_outcomes
        .iter()
        .any(|outcome| outcome == "reveal_hidden_truth_directly"));
}

#[test]
fn compiles_physical_location_and_body_surfaces() {
    let location_graph = LocationGraphPacket {
        world_id: "world".to_owned(),
        turn_id: "turn_0002".to_owned(),
        current_location: Some(LocationNode {
            schema_version: LOCATION_NODE_SCHEMA_VERSION.to_owned(),
            location_id: "place:gate".to_owned(),
            name: "북문".to_owned(),
            knowledge_state: LocationKnowledgeState::Visited,
            notes: Vec::new(),
            source_refs: vec!["location_graph.current_location".to_owned()],
        }),
        known_nearby_locations: vec![LocationNode {
            schema_version: LOCATION_NODE_SCHEMA_VERSION.to_owned(),
            location_id: "place:courtyard".to_owned(),
            name: "안뜰".to_owned(),
            knowledge_state: LocationKnowledgeState::Known,
            notes: Vec::new(),
            source_refs: vec!["location_graph.known_nearby_locations[0]".to_owned()],
        }],
        ..LocationGraphPacket::default()
    };
    let body_resource = BodyResourcePacket {
        world_id: "world".to_owned(),
        turn_id: "turn_0002".to_owned(),
        body_constraints: vec![BodyConstraint {
            schema_version: BODY_CONSTRAINT_SCHEMA_VERSION.to_owned(),
            constraint_id: "body:constraint:left_hand_numb".to_owned(),
            visibility: BodyResourceVisibility::PlayerVisible,
            summary: "왼손이 저리다".to_owned(),
            severity: 3,
            source_refs: vec!["latest_snapshot.protagonist_state.body[0]".to_owned()],
            scene_pressure_kinds: vec!["body".to_owned()],
        }],
        ..BodyResourcePacket::default()
    };
    let packet = compile_encounter_surface_packet(
        "world",
        "turn_0002",
        "place:gate",
        &[choice(1, "안뜰 쪽으로 움직인다", "북문에서 안뜰로 들어갈 길을 확인한다")],
        &ScenePressurePacket::default(),
        &location_graph,
        &body_resource,
        &SocialExchangePacket::default(),
    );

    let Some(location_surface) = packet
        .active_surfaces
        .iter()
        .find(|surface| surface.surface_id == "encounter:turn_0002:location:place-courtyard")
    else {
        panic!("nearby location should compile into an exit surface");
    };
    assert_eq!(location_surface.kind, EncounterSurfaceKind::Exit);
    assert!(location_surface.physical_anchors.iter().any(|anchor| {
        anchor.kind == EncounterPhysicalAnchorKind::NearbyLocation
            && anchor.anchor_ref == "place:courtyard"
    }));

    let Some(choice_surface) = packet
        .active_surfaces
        .iter()
        .find(|surface| surface.surface_id.contains(":slot:1:"))
    else {
        panic!("choice surface should compile");
    };
    assert!(choice_surface.physical_anchors.iter().any(|anchor| {
        anchor.kind == EncounterPhysicalAnchorKind::NearbyLocation
            && anchor.anchor_ref == "place:courtyard"
            && anchor.relation == "choice_movement_target"
    }));

    let Some(body_surface) = packet
        .active_surfaces
        .iter()
        .find(|surface| surface.kind == EncounterSurfaceKind::Hazard)
    else {
        panic!("body constraint should compile into a hazard surface");
    };
    assert!(body_surface.physical_anchors.iter().any(|anchor| {
        anchor.kind == EncounterPhysicalAnchorKind::BodyConstraint
            && anchor.anchor_ref == "body:constraint:left_hand_numb"
    }));
    assert_eq!(packet.choice_contracts.len(), packet.active_surfaces.len());
}

#[test]
fn choice_surface_ids_and_duplicate_anchors() {
    let packet = compile_encounter_surface_packet(
        "w",
        "turn_0003",
        "scene",
        &[
            choice(1, "Open Gate", "go"),
            choice(6, "자유서술", "x"),
            choice(7, "판단 위임", "y"),
        ],
        &ScenePressurePacket::default(),
        &LocationGraphPacket::default(),
        &BodyResourcePacket::default(),
        &SocialExchangePacket::default(),
    );
    assert_eq!(packet.active_surfaces.len(), 1);
    let surface = &packet.active_surfaces[0];
    assert_eq!(surface.surface_id, "encounter:turn_0003:slot:1:open-gate");
    assert_eq!(surface.location_ref.as_deref(), Some("scene"));
    // The slot anchor of the choice and of its mutation are one anchor.
    assert_eq!(surface.physical_anchors.len(), 1);
    assert_eq!(surface.affordances[0].affordance_id, "encounter:turn_0003:slot:1:open-gate:affordance");
    let contract = &packet.choice_contracts[0];
    let profile = contract.omission_profile.as_ref().expect("profile");
    assert!(profile.can_create_echo);
}

#[test]
fn social_surfaces_order_before_useful_ones() {
    let social = SocialExchangePacket {
        active_stances: vec![DialogueStance {
            stance_id: "stance:guard".to_owned(),
            actor_ref: "char:guard".to_owned(),
            target_ref: "player".to_owned(),
            summary: "경계한다".to_owned(),
            player_visible_signal: "창을 고쳐 쥔다".to_owned(),
            source_refs: vec!["s1".to_owned()],
        }],
        unresolved_asks: vec![UnresolvedSocialAsk {
            ask_id: "ask:name".to_owned(),
            asked_by_ref: "player".to_owned(),
            asked_to_ref: "char:guard".to_owned(),
            question_summary: "이름을 물었다".to_owned(),
            last_response: "대답하지 않았다".to_owned(),
            current_status: AskStatus::Refused,
            allowed_next_moves: vec!["offer_token".to_owned()],
            blocked_repetitions: vec!["같은 질문 반복".to_owned(), "재촉".to_owned()],
            source_refs: vec!["s2".to_owned()],
        }],
        ..SocialExchangePacket::default()
    };
    let packet = compile_encounter_surface_packet(
        "w",
        "turn_0004",
        "scene",
        &[choice(3, "주변을 본다", "벽을 본다")],
        &ScenePressurePacket::default(),
        &LocationGraphPacket::default(),
        &BodyResourcePacket::default(),
        &social,
    );
    assert_eq!(packet.active_surfaces.len(), 3);
    assert_eq!(packet.active_surfaces[0].surface_id, "encounter:turn_0004:ask:ask-name");
    assert_eq!(packet.active_surfaces[0].status, EncounterSurfaceStatus::Blocked);
    assert_eq!(packet.active_surfaces[0].constraints.len(), 2);
    assert_eq!(packet.active_surfaces[0].constraints[1].constraint_id, "encounter:turn_0004:ask:ask-name:repeat:1");
    assert_eq!(packet.active_surfaces[1].surface_id, "encounter:turn_0004:social:stance-guard");
    assert_eq!(packet.active_surfaces[2].salience, EncounterSalience::Useful);
    assert_eq!(encounter_status(&packet), "막힌 표면을 우회해야 함");
}

#[test]
fn status_line_follows_the_surfaces() {
    assert_eq!(encounter_status(&EncounterSurfacePacket::default()), "뚜렷한 조작 표면 없음");
    let packet = compile_encounter_surface_packet(
        "w",
        "t",
        "scene",
        &[choice(2, "흔적을 살핀다", "바닥")],
        &ScenePressurePacket::default(),
        &LocationGraphPacket::default(),
        &BodyResourcePacket::default(),
        &SocialExchangePacket::default(),
    );
    assert_eq!(encounter_status(&packet), "조사 가능한 표면 있음");
}

#[test]
fn normalize_id_collapses_separators_and_caps_length() {
    assert_eq!(normalize_id("place:North Gate"), "place-north-gate");
    assert_eq!(normalize_id("--a__b//c--"), "a-b-c");
    assert_eq!(normalize_id("북문"), "__");
    assert_eq!(normalize_id("::"), "surface");
    assert_eq!(normalize_id(&"x".repeat(60)).len(), 48);
}

#[test]
fn slot_refs_parse_only_their_own_shape() {
    assert_eq!(choice_slot_from_ref("next_choices[slot=3]"), Some(3));
    assert_eq!(choice_slot_from_ref("next_choices[slot=+4]"), Some(4));
    assert_eq!(choice_slot_from_ref("next_choices[slot=]"), None);
    assert_eq!(choice_slot_from_ref("next_choices[slot=300]"), None);
    assert_eq!(choice_slot_from_ref("visible_scene.text_blocks[0]"), None);
}

#[test]
fn blocked_gate_makes_a_constrained_surface() {
    let current = EncounterSurfacePacket {
        world_id: "w".to_owned(),
        turn_id: "turn_0005".to_owned(),
        scene_id: "place:gate".to_owned(),
        ..EncounterSurfacePacket::default()
    };
    let m = mutation_from_resolution_gate(
        &current,
        GateKind::SocialPermission,
        GateStatus::Blocked,
        "rel:guard",
        "문지기가 막는다",
        &vec!["e1".to_owned()],
        2,
    );
    assert_eq!(m.surface_id, "encounter:turn_0005:gate:2:rel-guard");
    assert_eq!(m.kind, EncounterSurfaceKind::AccessController);
    assert_eq!(m.status, EncounterSurfaceStatus::Blocked);
    assert_eq!(m.constraints.len(), 1);
    assert_eq!(m.constraints[0].kind, EncounterConstraintKind::SocialPermission);
    assert_eq!(m.affordances[0].risk_tags, vec!["social".to_owned()]);

    let resolution = ResolutionProposal {
        schema_version: RESOLUTION_PROPOSAL_SCHEMA_VERSION.to_owned(),
        world_id: "w".to_owned(),
        turn_id: "turn_0005".to_owned(),
        outcome: ResolutionOutcome {
            kind: ResolutionOutcomeKind::Blocked,
            summary: "막혔다".to_owned(),
            evidence_refs: vec!["e2".to_owned()],
        },
        gate_results: vec![
            GateResult {
                gate_kind: GateKind::Body,
                gate_ref: "body:leg".to_owned(),
                visibility: ResolutionVisibility::AdjudicationOnly,
                status: GateStatus::CostImposed,
                reason: "숨김".to_owned(),
                evidence_refs: vec!["e0".to_owned()],
            },
            GateResult {
                gate_kind: GateKind::Knowledge,
                gate_ref: "clue".to_owned(),
                visibility: ResolutionVisibility::PlayerVisible,
                status: GateStatus::Passed,
                reason: "보인다".to_owned(),
                evidence_refs: vec!["e3".to_owned()],
            },
        ],
        proposed_effects: Vec::new(),
        process_ticks: Vec::new(),
    };
    let ms = derive_resolution_gate_mutations(&current, Some(&resolution), 10);
    assert_eq!(ms.len(), 2);
    assert_eq!(ms[0].surface_id, "encounter:turn_0005:gate:11:clue");
    assert_eq!(ms[0].status, EncounterSurfaceStatus::Available);
    assert_eq!(ms[1].surface_id, "encounter:turn_0005:gate:12:scene-resolution-outcome");
    assert!(derive_resolution_gate_mutations(&current, None, 0).is_empty());
}

#[test]
fn sort_puts_salient_first_then_ids() {
    let packet = compile_encounter_surface_packet(
        "w",
        "t",
        "s",
        &[
            choice(3, "b", "x"),
            choice(4, "a", "x"),
            choice(5, "c", "x"),
        ],
        &ScenePressurePacket::default(),
        &LocationGraphPacket::default(),
        &BodyResourcePacket::default(),
        &SocialExchangePacket::default(),
    );
    let ids: Vec<&str> = packet.active_surfaces.iter().map(|s| s.surface_id.as_str()).collect();
    assert_eq!(ids, vec!["encounter:t:slot:5:c", "encounter:t:slot:3:b", "encounter:t:slot:4:a"]);
    let resorted = sort_encounter_surfaces(packet.active_surfaces.clone());
    assert_eq!(resorted[0].surface_id, "encounter:t:slot:5:c");
}
