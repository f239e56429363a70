use singulari_world::agent_bridge::{
    AgentResponseAdjudication, AgentResponseCanonEvent, AgentTurnResponse, NarrativeScene,
    AGENT_TURN_RESPONSE_SCHEMA_VERSION, NARRATIVE_SCENE_SCHEMA_VERSION,
};
use singulari_world::belief_graph::{
    belief_node_from_event, compile_belief_graph_packet, non_empty, plan_belief_events,
    prepare_belief_event_plan, rebuild_belief_graph, visible_statement, BeliefConfidence,
    BeliefEventRecord, BeliefGraphPacket, BeliefHolder, BeliefNode, JsonField,
    SelectedMemoryItem, StatementSource, BELIEF_EVENT_SCHEMA_VERSION,
    BELIEF_MATERIALIZED_SOURCE, BELIEF_NODE_SCHEMA_VERSION,
};

fn text(s: &str) -> StatementSource {
    StatementSource::Text(s.to_owned())
}

#[test]
fn compiles_visible_beliefs_without_hidden_explanation() {
    let known_facts = vec![text("문이 안쪽에서 막혀 있다")];
    let selected = vec![SelectedMemoryItem {
        source_id: JsonField::Text("lore:visible:door".to_owned()),
        payload_visible_summary: Some(text("낡은 문은 자주 습기를 먹는다")),
        payload_summary: None,
        whole: StatementSource::Other,
    }];
    let graph = compile_belief_graph_packet("stw_belief", "turn_0004", Some(&known_facts), Some(&selected));

    assert_eq!(graph.protagonist_visible_beliefs.len(), 2);
    assert_eq!(graph.protagonist_visible_beliefs[0].confidence, BeliefConfidence::Observed);
    assert_eq!(graph.protagonist_visible_beliefs[1].confidence, BeliefConfidence::Reported);
    assert!(graph
        .narrator_knowledge_limits
        .iter()
        .any(|rule| rule.contains("belief node가 없으면 유보")));
}

#[test]
fn compiled_beliefs_carry_ids_and_sources() {
    let known_facts = vec![text("  "), text(" 횃불이 꺼져 있다 ")];
    let selected = vec![SelectedMemoryItem {
        source_id: JsonField::Text("lore:visible:door".to_owned()),
        payload_visible_summary: Some(text("낡은 문")),
        payload_summary: None,
        whole: StatementSource::Other,
    }];
    let graph = compile_belief_graph_packet("w", "t", Some(&known_facts), Some(&selected));
    assert_eq!(graph.world_id, "w");
    assert_eq!(graph.turn_id, "t");
    assert_eq!(graph.protagonist_visible_beliefs.len(), 2);
    let first = &graph.protagonist_visible_beliefs[0];
    assert_eq!(first.belief_id, "belief:known_facts:01");
    assert_eq!(first.statement, "횃불이 꺼져 있다");
    assert_eq!(first.source_refs, vec!["known_facts[1]".to_owned()]);
    assert_eq!(first.holder, BeliefHolder::Protagonist);
    let second = &graph.protagonist_visible_beliefs[1];
    assert_eq!(second.belief_id, "belief:selected_memory:00");
    assert_eq!(second.source_refs, vec!["lore:visible:door".to_owned()]);
}

#[test]
fn compiles_no_beliefs_from_absent_values() {
    let graph = compile_belief_graph_packet("w", "t", None, None);
    assert!(graph.protagonist_visible_beliefs.is_empty());
    assert_eq!(graph.narrator_knowledge_limits.len(), 3);
}

#[test]
fn visible_statement_takes_the_first_present_key() {
    let v = StatementSource::Fields {
        summary: JsonField::Absent,
        visible_summary: JsonField::Text(" seen ".to_owned()),
        statement: JsonField::Text("other".to_owned()),
    };
    assert_eq!(visible_statement(&v), Some("seen".to_owned()));
    let blocked = StatementSource::Fields {
        summary: JsonField::NonText,
        visible_summary: JsonField::Text("seen".to_owned()),
        statement: JsonField::Absent,
    };
    assert_eq!(visible_statement(&blocked), None);
    assert_eq!(visible_statement(&StatementSource::Other), None);
    assert_eq!(non_empty("   "), None);
    assert_eq!(non_empty(" a "), Some("a".to_owned()));
}

fn response_with_canon() -> AgentTurnResponse {
    AgentTurnResponse {
        schema_version: AGENT_TURN_RESPONSE_SCHEMA_VERSION.to_owned(),
        world_id: "stw_belief".to_owned(),
        turn_id: "turn_0004".to_owned(),
        resolution_proposal: None,
        scene_director_proposal: None,
        consequence_proposal: None,
        social_exchange_proposal: None,
        encounter_proposal: None,
        visible_scene: NarrativeScene {
            schema_version: NARRATIVE_SCENE_SCHEMA_VERSION.to_owned(),
            speaker: None,
            text_blocks: vec!["문이 열리지 않는다.".to_owned()],
            tone_notes: Vec::new(),
        },
        adjudication: Some(AgentResponseAdjudication {
            outcome: "blocked".to_owned(),
            summary: "문이 막혔다".to_owned(),
            gates: Vec::new(),
            visible_constraints: vec![" 문은 안에서 잠겼다 ".to_owned()],
            consequences: Vec::new(),
        }),
        canon_event: Some(AgentResponseCanonEvent {
            visibility: "player_visible".to_owned(),
            kind: "observation".to_owned(),
            summary: "문이 꿈쩍하지 않는다".to_owned(),
        }),
        entity_updates: Vec::new(),
        character_text_design_updates: Vec::new(),
        extra_contacts: Vec::new(),
        needs_context: Vec::new(),
        next_choices: Vec::new(),
        actor_goal_events: Vec::new(),
        actor_move_events: Vec::new(),
        hook_events: Vec::new(),
    }
}

#[test]
fn plans_canon_observation_then_inferred_constraints() {
    let plan = plan_belief_events("stw_belief", "turn_0004", &response_with_canon(), "2026-01-01T00:00:00Z");
    assert_eq!(plan.records.len(), 2);
    let canon = &plan.records[0];
    assert_eq!(canon.event_id, "belief_event:turn_0004:00");
    assert_eq!(canon.holder, BeliefHolder::PlayerVisibleNarrator);
    assert_eq!(canon.confidence, BeliefConfidence::Observed);
    assert_eq!(canon.source_refs, vec!["canon_event:turn_0004".to_owned()]);
    let constraint = &plan.records[1];
    assert_eq!(constraint.event_id, "belief_event:turn_0004:01");
    assert_eq!(constraint.statement, "문은 안에서 잠겼다");
    assert_eq!(constraint.confidence, BeliefConfidence::Inferred);
    assert_eq!(constraint.source_refs, vec!["adjudication:turn_0004".to_owned()]);
    assert_eq!(constraint.recorded_at, "2026-01-01T00:00:00Z");
}

#[test]
fn hidden_canon_event_is_not_a_belief() {
    let mut response = response_with_canon();
    response.canon_event.as_mut().expect("canon").visibility = "hidden".to_owned();
    let plan = prepare_belief_event_plan("stw_belief", "turn_0004", &response).expect("clock");
    assert_eq!(plan.records.len(), 1);
    assert_eq!(plan.records[0].confidence, BeliefConfidence::Inferred);
    assert!(!plan.records[0].recorded_at.is_empty());
}

fn record(event_id: &str) -> BeliefEventRecord {
    BeliefEventRecord {
        schema_version: BELIEF_EVENT_SCHEMA_VERSION.to_owned(),
        world_id: "w".to_owned(),
        turn_id: "t".to_owned(),
        event_id: event_id.to_owned(),
        holder: BeliefHolder::Protagonist,
        confidence: BeliefConfidence::Inferred,
        statement: format!("statement {event_id}"),
        source_refs: vec!["adjudication:t".to_owned()],
        recorded_at: "now".to_owned(),
    }
}

fn node(id: &str) -> BeliefNode {
    BeliefNode {
        schema_version: BELIEF_NODE_SCHEMA_VERSION.to_owned(),
        belief_id: id.to_owned(),
        holder: BeliefHolder::Protagonist,
        confidence: BeliefConfidence::Observed,
        statement: id.to_owned(),
        source_refs: Vec::new(),
    }
}

#[test]
fn event_node_takes_the_event_id() {
    let n = belief_node_from_event(record("e1"));
    assert_eq!(n.belief_id, "belief:event:e1");
    assert_eq!(n.statement, "statement e1");
    assert_eq!(n.schema_version, BELIEF_NODE_SCHEMA_VERSION);
}

#[test]
fn rebuild_appends_newest_events_within_budget() {
    let mut base = BeliefGraphPacket::default();
    base.world_id = "w".to_owned();
    base.turn_id = "t".to_owned();
    base.protagonist_visible_beliefs = (0..14).map(|i| node(&format!("base{i}"))).collect();
    base.narrator_knowledge_limits = vec!["limit".to_owned()];
    let records = vec![record("e1"), record("e2"), record("e3")];
    let packet = rebuild_belief_graph(&base, records);
    assert_eq!(packet.protagonist_visible_beliefs.len(), 16);
    assert_eq!(packet.protagonist_visible_beliefs[13].belief_id, "base13");
    assert_eq!(packet.protagonist_visible_beliefs[14].belief_id, "belief:event:e3");
    assert_eq!(packet.protagonist_visible_beliefs[15].belief_id, "belief:event:e2");
    assert_eq!(packet.narrator_knowledge_limits, vec!["limit".to_owned()]);
    assert_eq!(packet.compiler_policy.source, BELIEF_MATERIALIZED_SOURCE);
}

#[test]
fn rebuild_without_events_keeps_base() {
    let mut base = BeliefGraphPacket::default();
    base.protagonist_visible_beliefs = vec![node("a")];
    let packet = rebuild_belief_graph(&base, Vec::new());
    assert_eq!(packet.protagonist_visible_beliefs.len(), 1);
    assert_eq!(packet.protagonist_visible_beliefs[0].belief_id, "a");
}
