use singulari_world::event_ledger::{
    ensure_event_can_append, plan_world_event_append, verify_world_event_ledger,
    verify_world_events, EventLedgerError,
};
use singulari_world::models::{
    CanonEvent, EventAuthority, EventEvidence, WorldEventKind, CANON_EVENT_SCHEMA_VERSION,
};

fn event(event_id: &str, turn_id: &str, kind: &str) -> CanonEvent {
    CanonEvent {
        schema_version: CANON_EVENT_SCHEMA_VERSION.to_owned(),
        event_id: event_id.to_owned(),
        world_id: "stw_event_ledger".to_owned(),
        turn_id: turn_id.to_owned(),
        occurred_at_world_time: "test-time".to_owned(),
        visibility: "player_visible".to_owned(),
        kind: kind.to_owned(),
        event_kind: WorldEventKind::from_legacy_kind(kind),
        authority: Some(EventAuthority::TurnReducer),
        summary: format!("event {event_id}"),
        entities: Vec::new(),
        location: None,
        evidence: EventEvidence {
            source: "test".to_owned(),
            user_input: "test input".to_owned(),
            narrative_ref: turn_id.to_owned(),
        },
        consequences: Vec::new(),
    }
}

#[test]
fn rejects_duplicate_event_ids() {
    let events = vec![
        event("evt_000001", "turn_0001", "first"),
        event("evt_000001", "turn_0002", "duplicate"),
    ];
    let Err(error) = verify_world_events("stw_event_ledger", &events) else {
        panic!("duplicate event ids should be rejected");
    };
    assert!(error.message().contains("duplicate event_id"));
}

#[test]
fn rejects_mismatched_event_kind_sidecar() {
    let mut event = event("evt_000001", "turn_0001", "numeric_choice");
    event.event_kind = Some(WorldEventKind::FreeformAction);

    let Err(error) = verify_world_events("stw_event_ledger", &[event]) else {
        panic!("mismatched event kind sidecar should be rejected");
    };
    assert!(error.message().contains("kind mismatch"));
    assert_eq!(
        error.message(),
        "world event ledger kind mismatch: event_id=evt_000001, kind=numeric_choice, event_kind=FreeformAction, expected_kind=freeform_action"
    );
}

#[test]
fn verification_report_names_first_and_last_events() {
    let events = vec![
        event("evt_000000", "turn_0000", "world:created"),
        event("evt_000001", "turn_0001", "player:acted"),
    ];
    let report = verify_world_event_ledger("ledger.jsonl", "stw_event_ledger", &events).unwrap();
    assert_eq!(report.event_count, 2);
    assert_eq!(report.first_event_id.as_deref(), Some("evt_000000"));
    assert_eq!(report.last_event_id.as_deref(), Some("evt_000001"));
    assert_eq!(report.path, "ledger.jsonl");
}

#[test]
fn rejects_cross_world_append_and_blank_fields() {
    let existing = vec![event("evt_000000", "turn_0000", "world:created")];
    let mut other_world = event("evt_000001", "turn_0001", "wrong world");
    other_world.world_id = "stw_other_world".to_owned();
    let Err(error) = ensure_event_can_append("canon_events.jsonl", &existing, &other_world) else {
        panic!("cross-world append should be rejected");
    };
    assert!(error.message().contains("world_id mismatch"));
    let plan = plan_world_event_append(
        "canon_events.jsonl",
        Some(&existing),
        &event("evt_000001", "turn_0001", "player:acted"),
    )
    .unwrap();
    assert_eq!(plan.event_id, "evt_000001");
    let mut blank = event("  ", "turn_0001", "x");
    blank.event_id = "   ".to_owned();
    assert!(matches!(
        verify_world_events("stw_event_ledger", &[blank]),
        Err(EventLedgerError::EmptyEventId)
    ));
    let Err(dup) = ensure_event_can_append(
        "canon_events.jsonl",
        &existing,
        &event("evt_000000", "turn_0001", "again"),
    ) else {
        panic!("duplicate append should be rejected");
    };
    assert!(dup.message().contains("append duplicate event_id"));
}
