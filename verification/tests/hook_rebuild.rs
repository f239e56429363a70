use singulari_world::hook_ledger::{
    create_unchosen_echo, offered_choice_set, plan_agent_hook_events, rebuild_hook_packet,
    record_unchosen_echo, AgentHookEvent, EchoLedgerState, HookEventKind, HookKind,
    HookLedgerError, HookReturnRights, HookStatus, PayoffContract, HOOK_EVENT_SCHEMA_VERSION,
};
use singulari_world::models::TurnChoice;

fn agent_event(hook_id: &str, evidence: &[&str]) -> AgentHookEvent {
    AgentHookEvent {
        schema_version: HOOK_EVENT_SCHEMA_VERSION.to_owned(),
        event_kind: HookEventKind::Opened,
        hook_id: hook_id.to_owned(),
        kind: HookKind::Mystery,
        visible_promise: "북문 안쪽 걸쇠는 아직 설명되지 않았다.".to_owned(),
        anchor_refs: vec!["place:north_gate".to_owned()],
        evidence_refs: evidence.iter().map(|e| (*e).to_owned()).collect(),
        opened_by_event: "event:north_gate".to_owned(),
        payoff_contract: PayoffContract::default(),
        return_rights: HookReturnRights::default(),
        summary: String::new(),
    }
}

#[test]
fn accepted_agent_events_become_ledger_records() {
    let records = plan_agent_hook_events("w", "turn_0002", &[agent_event("hook:gate", &["event:1"])]).expect("clock")
        .expect("records");
    assert_eq!(records.len(), 1);
    assert_eq!(records[0].world_id, "w");
    assert_eq!(records[0].turn_id, "turn_0002");
    assert_eq!(records[0].hook_id, "hook:gate");
    assert_eq!(records[0].evidence_refs, vec!["event:1".to_owned()]);
    assert!(!records[0].recorded_at.is_empty());
}

#[test]
fn refused_agent_events_append_nothing() {
    match plan_agent_hook_events("w", "t", &[agent_event("a", &["e"]), agent_event("b", &["e"])]).expect("clock") {
        Err(HookLedgerError::TooManyPromiseEvents { actual }) => assert_eq!(actual, 2),
        _ => panic!("two events must be refused"),
    }
    assert!(plan_agent_hook_events("w", "t", &[agent_event("a", &[])]).expect("clock").is_err());
}

#[test]
fn rebuild_restamps_ledgers_and_compiles_the_packet() {
    let records = plan_agent_hook_events("w", "turn_0002", &[agent_event("hook:gate", &["event:1"])]).expect("clock")
        .expect("records");
    let choices = vec![TurnChoice {
        slot: 1,
        tag: "이름을 묻는다".to_owned(),
        intent: "문지기가 반응한 이름을 확인한다".to_owned(),
    }];
    let offered = offered_choice_set("w", "turn_0002", "place:north_gate", &choices, "now");
    let mut echoes = EchoLedgerState::empty("w", "turn_0001");
    if let Some(echo) = create_unchosen_echo(&offered, None) {
        record_unchosen_echo(&mut echoes, "w", "turn_0001", echo);
    }
    let echo_count = echoes.active_echoes.len();
    let rebuilt = rebuild_hook_packet("w", "turn_0003", records, echoes).expect("clock");
    assert_eq!(rebuilt.hook_state.turn_id, "turn_0003");
    assert_eq!(rebuilt.hook_state.active_threads.len(), 1);
    assert_eq!(rebuilt.hook_state.active_threads[0].status, HookStatus::Opened);
    assert_eq!(rebuilt.echo_state.turn_id, "turn_0003");
    assert_eq!(rebuilt.echo_state.active_echoes.len(), echo_count);
    assert_eq!(rebuilt.packet.active_promises.len(), 1);
    assert_eq!(rebuilt.receipt.turn_id, "turn_0003");
    assert_eq!(rebuilt.receipt.tea_recap.remaining_words, rebuilt.packet.tea_recap.remaining_words);
}
