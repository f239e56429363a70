use singulari_world::hook_ledger::{
    accepted_agent_hook_events, create_unchosen_echo, hook_packet_from_states,
    offered_choice_set, record_offered_choice_set_and_echo, record_unchosen_echo, threads_from_records, AgentHookEvent,
    EchoLedgerState, HookEventKind, HookEventRecord, HookKind, HookLedgerError, HookLedgerState,
    HookReturnRights, HookStatus, PayoffContract, HOOK_EVENT_SCHEMA_VERSION,
};
use singulari_world::models::TurnChoice;

fn choices() -> Vec<TurnChoice> {
    vec![
        TurnChoice {
            slot: 1,
            tag: "이름을 묻는다".to_owned(),
            intent: "문지기가 반응한 이름을 바로 확인한다".to_owned(),
        },
        TurnChoice {
            slot: 2,
            tag: "걸쇠를 살핀다".to_owned(),
            intent: "안쪽에서 휘어진 자국을 확인한다".to_owned(),
        },
        TurnChoice {
            slot: 6,
            tag: "자유서술".to_owned(),
            intent: "6 뒤에 행동을 쓴다".to_owned(),
        },
    ]
}

fn hook_event(evidence_refs: Vec<String>) -> AgentHookEvent {
    AgentHookEvent {
        schema_version: HOOK_EVENT_SCHEMA_VERSION.to_owned(),
        event_kind: HookEventKind::Opened,
        hook_id: "hook:north_gate".to_owned(),
        kind: HookKind::Mystery,
        visible_promise: "북문 안쪽 걸쇠는 아직 설명되지 않았다.".to_owned(),
        anchor_refs: vec!["place:north_gate".to_owned()],
        evidence_refs,
        opened_by_event: "event:north_gate".to_owned(),
        payoff_contract: PayoffContract::default(),
        return_rights: HookReturnRights::default(),
        summary: String::new(),
    }
}

fn record_echo(choices: &[TurnChoice], selected: Option<u8>) -> singulari_world::hook_ledger::HookPacket {
    let recorded = record_offered_choice_set_and_echo(
        "stw_hook",
        "turn_0001",
        "place:north_gate",
        choices,
        selected,
        Vec::new(),
        Some(EchoLedgerState::empty("stw_hook", "turn_0000")),
    ).expect("clock");
    assert_eq!(recorded.offered.scene_id, "place:north_gate");
    assert_eq!(recorded.rebuild.echo_state.turn_id, "turn_0001");
    recorded.rebuild.packet
}

#[test]
fn offering_twice_keeps_one_echo_and_fresh_ledger_when_missing() {
    let first = record_offered_choice_set_and_echo(
        "stw_hook", "turn_0001", "scene", &choices(), Some(2), Vec::new(), None,
    ).expect("clock");
    assert_eq!(first.rebuild.echo_state.active_echoes.len(), 1);
    let again = record_offered_choice_set_and_echo(
        "stw_hook",
        "turn_0001",
        "scene",
        &choices(),
        Some(2),
        Vec::new(),
        Some(first.rebuild.echo_state.clone()),
    ).expect("clock");
    assert_eq!(again.rebuild.echo_state.active_echoes.len(), 1);
    assert_eq!(again.rebuild.packet.active_echoes.len(), 1);
}

#[test]
fn hook_events_require_payoff_and_evidence() {
    let result = accepted_agent_hook_events(&[hook_event(Vec::new())]);
    match result {
        Ok(_) => panic!("missing evidence should fail"),
        Err(err) => assert!(err.message().contains("missing evidence_refs")),
    }
}

#[test]
fn hook_events_with_evidence_are_accepted_and_two_are_refused() {
    let accepted = accepted_agent_hook_events(&[hook_event(vec!["event:north_gate".to_owned()])])
        .expect("complete hook event");
    assert_eq!(accepted.len(), 1);
    assert_eq!(accepted[0].hook_id, "hook:north_gate");
    let two = vec![
        hook_event(vec!["a".to_owned()]),
        hook_event(vec!["b".to_owned()]),
    ];
    match accepted_agent_hook_events(&two) {
        Err(HookLedgerError::TooManyPromiseEvents { actual }) => assert_eq!(actual, 2),
        _ => panic!("two promise events must be refused"),
    }
    let mut no_contract = hook_event(vec!["a".to_owned()]);
    no_contract.payoff_contract.owed_payoff.clear();
    let err = accepted_agent_hook_events(&[no_contract]).unwrap_err();
    assert_eq!(
        err.message(),
        "hook event missing payoff contract: hook_id=hook:north_gate"
    );
}

#[test]
fn records_at_most_one_unchosen_echo_from_displayed_slots() {
    let packet = record_echo(&choices(), Some(2));
    assert_eq!(packet.active_echoes.len(), 1);
    assert_eq!(packet.active_echoes[0].unchosen_choice_id, "choice:1");
    assert!(packet.tea_recap.remaining_words[0].contains("입 밖으로 나오지 않았다"));
}

#[test]
fn selected_or_system_slots_do_not_create_echoes() {
    let packet = record_echo(
        &[TurnChoice {
            slot: 6,
            tag: "자유서술".to_owned(),
            intent: "6 뒤에 행동을 쓴다".to_owned(),
        }],
        Some(6),
    );
    assert!(packet.active_echoes.is_empty());
}

#[test]
fn offered_choice_set_keeps_only_ordinary_slots() {
    let offered = offered_choice_set("w", "turn_0002", "scene", &choices(), "now");
    assert_eq!(offered.choices.len(), 2);
    assert_eq!(offered.choices[0].choice_id, "choice:1");
    assert_eq!(offered.choices[1].evidence_refs[0], "turn:turn_0002:choice:2");
    assert_eq!(offered.choices[0].omission_profile.echo_weight, 4);
}

#[test]
fn recording_the_same_echo_twice_keeps_one() {
    let offered = offered_choice_set("w", "turn_0001", "scene", &choices(), "now");
    let echo = create_unchosen_echo(&offered, Some(2)).expect("echo");
    assert_eq!(echo.echo_id, "echo:turn_0001:slot_1");
    let mut state = EchoLedgerState::empty("w", "turn_0000");
    record_unchosen_echo(&mut state, "w", "turn_0001", echo.clone());
    record_unchosen_echo(&mut state, "w", "turn_0002", echo);
    assert_eq!(state.active_echoes.len(), 1);
    assert_eq!(state.turn_id, "turn_0002");
}

fn record(kind: HookEventKind, turn: &str, evidence: &str) -> HookEventRecord {
    HookEventRecord {
        schema_version: HOOK_EVENT_SCHEMA_VERSION.to_owned(),
        world_id: "w".to_owned(),
        turn_id: turn.to_owned(),
        event_kind: kind,
        hook_id: "hook:north_gate".to_owned(),
        kind: HookKind::Mystery,
        visible_promise: "걸쇠".to_owned(),
        anchor_refs: vec![],
        evidence_refs: vec![evidence.to_owned()],
        opened_by_event: "event:1".to_owned(),
        payoff_contract: PayoffContract::default(),
        return_rights: HookReturnRights::default(),
        recorded_at: "now".to_owned(),
    }
}

#[test]
fn paid_off_hook_leaves_the_active_packet() {
    let threads = threads_from_records(vec![
        record(HookEventKind::Opened, "turn_0001", "e1"),
        record(HookEventKind::PayoffDue, "turn_0002", "e2"),
    ]);
    assert_eq!(threads.len(), 1);
    assert_eq!(threads[0].status, HookStatus::PayoffDue);
    assert_eq!(threads[0].evidence_refs, vec!["e1".to_owned(), "e2".to_owned()]);
    let mut state = HookLedgerState::empty("w", "turn_0002");
    state.active_threads = threads;
    let echoes = EchoLedgerState::empty("w", "turn_0002");
    let packet = hook_packet_from_states("w", "turn_0002", &state, &echoes);
    assert_eq!(packet.due_promises.len(), 1);
    assert_eq!(packet.choice_biases.len(), 1);

    let closed = threads_from_records(vec![
        record(HookEventKind::Opened, "turn_0001", "e1"),
        record(HookEventKind::PaidOff, "turn_0003", "e3"),
    ]);
    assert_eq!(closed[0].status, HookStatus::PaidOff);
    let mut state = HookLedgerState::empty("w", "turn_0003");
    state.active_threads = closed;
    let packet = hook_packet_from_states("w", "turn_0003", &state, &echoes);
    assert!(packet.active_promises.is_empty());
}
