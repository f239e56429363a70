use singulari_world::actor_agency::{
    build_actor_agency_from_events, plan_actor_agency_events, prepare_actor_agency_event_plan,
    ActorAgencyPacket, ActorGoalEventRecord, AgentActorGoalUpdate, AgentActorMoveUpdate,
    ACTOR_GOAL_EVENT_SCHEMA_VERSION,
};
use singulari_world::agent_bridge::{
    AgentEntityUpdate, AgentTurnResponse, NarrativeScene, AGENT_TURN_RESPONSE_SCHEMA_VERSION,
    NARRATIVE_SCENE_SCHEMA_VERSION,
};
use singulari_world::relationship_graph::{
    RelationshipEdge, RelationshipGraphPacket, RELATIONSHIP_EDGE_SCHEMA_VERSION,
    RELATIONSHIP_GRAPH_PACKET_SCHEMA_VERSION,
};
use singulari_world::response_context::ContextVisibility;

fn sample_relationship_graph() -> RelationshipGraphPacket {
    RelationshipGraphPacket {
        schema_version: RELATIONSHIP_GRAPH_PACKET_SCHEMA_VERSION.to_owned(),
        world_id: "stw_actor".to_owned(),
        turn_id: "turn_0003".to_owned(),
        active_edges: vec![RelationshipEdge {
            schema_version: RELATIONSHIP_EDGE_SCHEMA_VERSION.to_owned(),
            edge_id: "rel:char:guard->player:suspicious".to_owned(),
            source_entity_id: "char:guard".to_owned(),
            target_entity_id: "player".to_owned(),
            stance: "suspicious".to_owned(),
            visibility: "player_visible".to_owned(),
            visible_summary: "문지기가 플레이어를 의심한다.".to_owned(),
            source_refs: vec!["visible_scene:guard".to_owned()],
            voice_effects: Vec::new(),
        }],
    }
}

fn empty_graph() -> RelationshipGraphPacket {
    RelationshipGraphPacket {
        schema_version: RELATIONSHIP_GRAPH_PACKET_SCHEMA_VERSION.to_owned(),
        world_id: String::new(),
        turn_id: String::new(),
        active_edges: Vec::new(),
    }
}

fn goal_update() -> AgentActorGoalUpdate {
    AgentActorGoalUpdate {
        actor_ref: "char:guard".to_owned(),
        goal_id: "goal:guard:hold_gate".to_owned(),
        visibility: ContextVisibility::PlayerVisible,
        desire: "문을 함부로 열지 않는다.".to_owned(),
        fear_or_constraint: "상관의 문책을 피해야 한다.".to_owned(),
        current_leverage: vec!["문 앞 위치".to_owned()],
        pressure_refs: vec!["pressure:social:gate".to_owned()],
        evidence_refs: vec!["visible_scene:guard".to_owned()],
        retired: false,
    }
}

fn sample_response() -> AgentTurnResponse {
    AgentTurnResponse {
        schema_version: AGENT_TURN_RESPONSE_SCHEMA_VERSION.to_owned(),
        world_id: "stw_actor".to_owned(),
        turn_id: "turn_0003".to_owned(),
        resolution_proposal: None,
        scene_director_proposal: None,
        consequence_proposal: None,
        social_exchange_proposal: None,
        encounter_proposal: None,
        visible_scene: NarrativeScene {
            schema_version: NARRATIVE_SCENE_SCHEMA_VERSION.to_owned(),
            speaker: None,
            text_blocks: vec!["문지기가 손을 들어 길을 막는다.".to_owned()],
            tone_notes: Vec::new(),
        },
        adjudication: None,
        canon_event: None,
        entity_updates: Vec::new(),
        character_text_design_updates: Vec::new(),
        extra_contacts: Vec::new(),
        needs_context: Vec::new(),
        next_choices: Vec::new(),
        actor_goal_events: vec![goal_update()],
        actor_move_events: vec![AgentActorMoveUpdate {
            actor_ref: "char:guard".to_owned(),
            move_id: "move:guard:block_path".to_owned(),
            visibility: ContextVisibility::PlayerVisible,
            action_summary: "문지기가 길을 막는다.".to_owned(),
            produced_pressure_refs: vec!["pressure:social:gate".to_owned()],
            relationship_refs: vec!["rel:char:guard->player:suspicious".to_owned()],
            evidence_refs: vec!["visible_scene:guard".to_owned()],
        }],
        hook_events: Vec::new(),
    }
}

fn base_packet() -> ActorAgencyPacket {
    ActorAgencyPacket {
        world_id: "stw_actor".to_owned(),
        turn_id: "turn_0003".to_owned(),
        ..ActorAgencyPacket::default()
    }
}

#[test]
fn materializes_visible_actor_goal_and_move() {
    let relationship_graph = sample_relationship_graph();
    let response = sample_response();
    let plan = prepare_actor_agency_event_plan("stw_actor", "turn_0003", &relationship_graph, &response).expect("clock")
        .expect("known actor");
    let packet = build_actor_agency_from_events(&base_packet(), &plan.goal_records, &plan.move_records);

    assert_eq!(packet.active_goals.len(), 1);
    assert_eq!(packet.recent_moves.len(), 1);
    assert_eq!(packet.active_goals[0].actor_ref, "char:guard");
}

#[test]
fn rejects_unknown_actor_goal_ref() {
    let relationship_graph = empty_graph();
    let response = sample_response();

    let Err(error) = prepare_actor_agency_event_plan("stw_actor", "turn_0003", &relationship_graph, &response).expect("clock") else {
        panic!("unknown actor should fail");
    };

    assert!(error.message().contains("unknown actor_ref=char:guard"));
}

#[test]
fn plan_trims_updates_and_numbers_records() {
    let mut response = sample_response();
    response.actor_goal_events[0].goal_id = "  goal:guard:hold_gate  ".to_owned();
    response.actor_goal_events[0].current_leverage = vec![" 문 앞 ".to_owned(), "   ".to_owned()];
    response.entity_updates.push(AgentEntityUpdate {
        entity_id: " char:merchant ".to_owned(),
        update_kind: "seen".to_owned(),
        visibility: "player_visible".to_owned(),
        summary: "상인이 보인다.".to_owned(),
    });
    let mut second = goal_update();
    second.actor_ref = "char:merchant".to_owned();
    second.goal_id = "goal:merchant:sell".to_owned();
    response.actor_goal_events.push(second);
    let plan = plan_actor_agency_events("stw_actor", "turn_0003", &empty_graph(), &response, "t0")
        .err()
        .expect("the guard is unknown without the graph");
    assert!(plan.message().ends_with("char:guard"));

    let plan = plan_actor_agency_events("stw_actor", "turn_0003", &sample_relationship_graph(), &response, "t0")
        .expect("both actors are known");
    assert_eq!(plan.goal_records.len(), 2);
    assert_eq!(plan.goal_records[0].goal_id, "goal:guard:hold_gate");
    assert_eq!(plan.goal_records[0].current_leverage, vec!["문 앞"]);
    assert_eq!(plan.goal_records[1].event_id, "actor_goal_event:turn_0003:01");
    assert_eq!(plan.move_records[0].event_id, "actor_move_event:turn_0003:00");
    assert_eq!(plan.goal_records[0].recorded_at, "t0");

    let mut empty_evidence = sample_response();
    empty_evidence.actor_goal_events[0].evidence_refs = vec![" ".to_owned()];
    let Err(e) = plan_actor_agency_events("stw_actor", "turn_0003", &sample_relationship_graph(), &empty_evidence, "t0") else {
        panic!("evidence is required");
    };
    assert_eq!(e.message(), "actor_goal_events must include evidence_refs");
}

fn goal_record(goal_id: &str, turn_id: &str, retired: bool, visibility: ContextVisibility) -> ActorGoalEventRecord {
    ActorGoalEventRecord {
        schema_version: ACTOR_GOAL_EVENT_SCHEMA_VERSION.to_owned(),
        world_id: "stw_actor".to_owned(),
        turn_id: turn_id.to_owned(),
        event_id: format!("actor_goal_event:{turn_id}:{goal_id}"),
        actor_ref: "char:guard".to_owned(),
        goal_id: goal_id.to_owned(),
        visibility,
        desire: "d".to_owned(),
        fear_or_constraint: "f".to_owned(),
        current_leverage: Vec::new(),
        pressure_refs: Vec::new(),
        evidence_refs: vec!["e".to_owned()],
        retired,
        recorded_at: "t".to_owned(),
    }
}

#[test]
fn build_applies_visible_goal_records_in_order_and_keeps_budget() {
    let mut records = Vec::new();
    for n in 0..14 {
        records.push(goal_record(&format!("goal:{n:02}"), "turn_0004", false, ContextVisibility::PlayerVisible));
    }
    records.push(goal_record("goal:03", "turn_0005", true, ContextVisibility::PlayerVisible));
    records.push(goal_record("goal:99", "turn_0006", false, ContextVisibility::AdjudicationOnly));
    let packet = build_actor_agency_from_events(&base_packet(), &records, &Vec::new());

    assert_eq!(packet.turn_id, "turn_0006");
    assert_eq!(packet.active_goals.len(), 12);
    assert_eq!(packet.active_goals[0].goal_id, "goal:01");
    assert!(packet.active_goals.iter().all(|goal| goal.goal_id != "goal:03"));
    assert!(packet.active_goals.iter().all(|goal| goal.goal_id != "goal:99"));
    assert_eq!(packet.active_goals[11].goal_id, "goal:13");
    assert_eq!(packet.active_goals[11].source_event_id, "actor_goal_event:turn_0004:goal:13");
}

#[test]
fn hidden_goal_records_change_no_goal() {
    let visible = vec![
        goal_record("goal:a", "turn_0001", false, ContextVisibility::PlayerVisible),
        goal_record("goal:b", "turn_0002", false, ContextVisibility::PlayerVisible),
    ];
    let mut with_hidden = visible.clone();
    with_hidden.insert(1, goal_record("goal:a", "turn_0001", true, ContextVisibility::AdjudicationOnly));
    with_hidden.insert(0, goal_record("goal:z", "turn_0001", false, ContextVisibility::AdjudicationOnly));
    let plain = build_actor_agency_from_events(&base_packet(), &visible, &Vec::new());
    let hidden = build_actor_agency_from_events(&base_packet(), &with_hidden, &Vec::new());
    let ids = |p: &singulari_world::actor_agency::ActorAgencyPacket| {
        p.active_goals.iter().map(|g| (g.goal_id.clone(), g.source_event_id.clone())).collect::<Vec<_>>()
    };
    assert_eq!(ids(&plain), ids(&hidden));
    assert_eq!(plain.active_goals.len(), 2);
    assert_eq!(plain.compiler_policy.use_rules.len(), 3);
    assert_eq!(plain.compiler_policy.recent_move_budget, 16);
}
