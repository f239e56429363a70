use singulari_world::agent_bridge::AgentExtraContact;
use singulari_world::extra_memory::{
    check_trace_worlds, compile_extra_memory_projection, extra_score, extra_trace_from_contact,
    failed_projection_records_after_latest_repair, load_remembered_extras,
    local_faces_for_codex_view, merge_voice_anchor, normalized_required, promotion_score,
    push_limited_unique, rebuild_remembered_extras_from_traces, repair_extra_memory_projection,
    retrieve_extra_memory_packet, extra_scores_fit, select_recent_traces, select_remembered_extras, stable_slug,
    text_matches, upsert_remembered_extra, ExtraMemoryError, ExtraMemoryProjectionRecord,
    ExtraMemoryProjectionStatus, ExtraTrace, RememberedExtra, RememberedExtrasStore,
    EXTRA_MEMORY_PROJECTION_RECORD_SCHEMA_VERSION, EXTRA_TRACE_SCHEMA_VERSION,
    REMEMBERED_EXTRAS_SCHEMA_VERSION, REMEMBERED_EXTRA_SCHEMA_VERSION,
};
use singulari_world::models::{CharacterVoiceAnchor, ProtagonistState, TurnSnapshot};

fn first_contact() -> AgentExtraContact {
    AgentExtraContact {
        surface_label: "gate porter".to_owned(),
        known_name: None,
        role: Some("porter near the west gate".to_owned()),
        location_id: Some("place:west_gate".to_owned()),
        scene_role: Some("witness".to_owned()),
        contact_summary: "saw the protagonist hide a bloodied sleeve".to_owned(),
        pressure_tags: vec!["social".to_owned()],
        promotion_hint: Some("witnessed risky action".to_owned()),
        memory_action: None,
        disposition: Some("wary".to_owned()),
        text_design: None,
        open_hooks: Vec::new(),
    }
}

fn second_contact() -> AgentExtraContact {
    AgentExtraContact {
        contact_summary: "later blocked the side door after recognizing the same sleeve".to_owned(),
        ..first_contact()
    }
}

fn empty_store(world_id: &str) -> RememberedExtrasStore {
    load_remembered_extras(None, world_id).expect("clock").expect("empty store")
}

/// Runs two turns of contacts and returns the traces and the store after them.
fn two_turns() -> (Vec<ExtraTrace>, RememberedExtrasStore) {
    let first = compile_extra_memory_projection(
        "stw_extra",
        "turn_0001",
        "place:west_gate",
        &vec![first_contact()],
        empty_store("stw_extra"),
        Vec::new(),
    ).expect("clock")
    .expect("first turn");
    assert!(first.remembered_store.extras.is_empty());
    let traces = first.traces_to_append.clone();
    let second = compile_extra_memory_projection(
        "stw_extra",
        "turn_0002",
        "place:west_gate",
        &vec![second_contact()],
        first.remembered_store,
        traces.clone(),
    ).expect("clock")
    .expect("second turn");
    let mut all = traces;
    all.extend(second.traces_to_append);
    (all, second.remembered_store)
}

#[test]
fn second_trace_promotes_extra_to_remembered() {
    let (_, remembered) = two_turns();
    assert_eq!(remembered.extras.len(), 1);
    assert_eq!(remembered.extras[0].contact_count, 2);
    assert_eq!(remembered.extras[0].first_seen_turn, "turn_0001");
    assert_eq!(
        remembered.extras[0].memory,
        vec![
            "saw the protagonist hide a bloodied sleeve",
            "later blocked the side door after recognizing the same sleeve"
        ]
    );
}

#[test]
fn repair_extra_memory_rebuilds_from_traces_and_closes_failed_records() {
    let (traces, _) = two_turns();
    let mut records = vec![ExtraMemoryProjectionRecord {
        schema_version: EXTRA_MEMORY_PROJECTION_RECORD_SCHEMA_VERSION.to_owned(),
        world_id: "stw_extra".to_owned(),
        turn_id: "turn_0002".to_owned(),
        status: ExtraMemoryProjectionStatus::Failed,
        traces_planned: 1,
        remembered_extras_planned: None,
        error: Some("simulated failure".to_owned()),
        recorded_at: "2026-01-01T00:00:00Z".to_owned(),
    }];

    let repair = repair_extra_memory_projection("stw_extra", &traces, &records).expect("clock").expect("repair");

    assert_eq!(repair.report.traces_read, 2);
    assert_eq!(repair.report.remembered_extras_rebuilt, 1);
    assert_eq!(repair.report.repaired_failed_records, 1);
    records.push(repair.repair_record.clone());
    assert_eq!(failed_projection_records_after_latest_repair(&records), 0);
    let remembered = repair.remembered_store;
    assert_eq!(remembered.extras[0].contact_count, 2);
    assert_eq!(
        remembered.extras[0].memory,
        vec![
            "saw the protagonist hide a bloodied sleeve",
            "later blocked the side door after recognizing the same sleeve"
        ]
    );
}

#[test]
fn remembered_extra_carries_contact_details() {
    let (_, remembered) = two_turns();
    let extra = &remembered.extras[0];
    assert_eq!(extra.extra_id, "extra:place_west_gate:gate_porter");
    assert_eq!(extra.role, "porter near the west gate");
    assert_eq!(extra.home_location_id, "place:west_gate");
    assert_eq!(extra.last_seen_turn, "turn_0002");
    assert_eq!(extra.disposition, "wary");
    assert_eq!(extra.visibility, "player_visible");
    assert_eq!(extra.schema_version, REMEMBERED_EXTRA_SCHEMA_VERSION);
    // 1 + one pressure tag.
    assert_eq!(extra.promotion_score, 2);
}

#[test]
fn slugs_keep_ascii_alphanumerics() {
    assert_eq!(stable_slug("Gate Porter!"), "gate_porter");
    assert_eq!(stable_slug("place:west_gate"), "place_west_gate");
    assert_eq!(stable_slug("__"), "extra");
    assert_eq!(stable_slug("문지기"), "extra");
    assert_eq!(stable_slug(" A1 "), "a1");
}

#[test]
fn text_matching_trims_the_needle() {
    assert!(text_matches(" porter ", "a gate porter waves"));
    assert!(!text_matches("   ", "anything"));
    assert!(!text_matches("guard", "a gate porter"));
}

#[test]
fn required_fields_refuse_blank_and_placeholder() {
    assert_eq!(normalized_required("f", "  x ").expect("ok"), "x");
    match normalized_required("extra surface_label", "   ") {
        Err(ExtraMemoryError::EmptyField { field }) => assert_eq!(field, "extra surface_label"),
        other => panic!("unexpected {other:?}"),
    }
    let err = normalized_required("extra surface_label", " player-visible 주변 인물 표지 ")
        .expect_err("placeholder");
    assert!(err.message().contains("schema placeholder"));
}

#[test]
fn trace_defaults_fill_missing_fields() {
    let contact = AgentExtraContact {
        surface_label: " Old Woman ".to_owned(),
        known_name: None,
        role: None,
        location_id: Some("  ".to_owned()),
        scene_role: None,
        contact_summary: " sold bread ".to_owned(),
        pressure_tags: vec![" ".to_owned(), " hunger ".to_owned()],
        promotion_hint: None,
        memory_action: None,
        disposition: None,
        text_design: None,
        open_hooks: Vec::new(),
    };
    let trace = extra_trace_from_contact("w", "turn_0003", "place:market", &contact, "now").expect("trace");
    assert_eq!(trace.schema_version, EXTRA_TRACE_SCHEMA_VERSION);
    assert_eq!(trace.trace_id, "extra_trace:turn_0003:old_woman");
    assert_eq!(trace.surface_label, "Old Woman");
    assert_eq!(trace.location_id, "place:market");
    assert_eq!(trace.scene_role, "background_contact");
    assert_eq!(trace.contact_summary, "sold bread");
    assert_eq!(trace.pressure_tags, vec!["hunger".to_owned()]);
    assert_eq!(trace.promotion_hint, "player-visible contact");
}

#[test]
fn placeholder_contact_stops_the_projection() {
    let bad = AgentExtraContact {
        contact_summary: "이번 턴에서 플레이어-visible로 남은 접촉/목격/거래/감정 흔적".to_owned(),
        ..first_contact()
    };
    let err = compile_extra_memory_projection(
        "w",
        "turn_0001",
        "place:x",
        &vec![first_contact(), bad],
        empty_store("w"),
        Vec::new(),
    ).expect("clock")
    .expect_err("placeholder summary");
    match err {
        ExtraMemoryError::PlaceholderField { field, .. } => assert_eq!(field, "extra contact_summary"),
        other => panic!("unexpected {other:?}"),
    }
}

#[test]
fn remember_action_remembers_at_first_contact() {
    let contact = AgentExtraContact {
        memory_action: Some("remember".to_owned()),
        known_name: Some("Han".to_owned()),
        open_hooks: vec![" may report ".to_owned()],
        ..first_contact()
    };
    // 1 + 2 (remember) + 1 tag + 1 known name + 1 hook.
    assert_eq!(promotion_score(&contact), 6);
    let plan = compile_extra_memory_projection(
        "w",
        "turn_0001",
        "place:x",
        &vec![contact],
        empty_store("w"),
        Vec::new(),
    ).expect("clock")
    .expect("plan");
    assert_eq!(plan.traces_to_append.len(), 1);
    assert_eq!(plan.remembered_store.extras.len(), 1);
    let extra = &plan.remembered_store.extras[0];
    assert_eq!(extra.contact_count, 1);
    assert_eq!(extra.promotion_score, 6);
    assert_eq!(extra.open_hooks, vec!["may report".to_owned()]);
    assert_eq!(extra.known_name.as_deref(), Some("Han"));
}

fn voice(speech: &[&str]) -> CharacterVoiceAnchor {
    CharacterVoiceAnchor {
        speech: speech.iter().map(|s| (*s).to_owned()).collect(),
        endings: Vec::new(),
        tone: Vec::new(),
        gestures: Vec::new(),
        habits: Vec::new(),
        drift: Vec::new(),
    }
}

fn extra(name: &str, home: &str, last_seen: &str, count: u32, score: u32) -> RememberedExtra {
    RememberedExtra {
        schema_version: REMEMBERED_EXTRA_SCHEMA_VERSION.to_owned(),
        world_id: "w".to_owned(),
        extra_id: format!("extra:{home}:{name}"),
        display_name: name.to_owned(),
        known_name: Some(format!("{name}-known")),
        role: format!("{name} role"),
        home_location_id: home.to_owned(),
        visibility: "player_visible".to_owned(),
        first_seen_turn: "turn_0001".to_owned(),
        last_seen_turn: last_seen.to_owned(),
        contact_count: count,
        disposition: "calm".to_owned(),
        memory: vec!["one".to_owned(), "two".to_owned()],
        text_design: voice(&[]),
        open_hooks: vec!["debt".to_owned()],
        promotion_score: score,
    }
}

#[test]
fn upsert_updates_the_matching_extra() {
    let mut store = empty_store("w");
    store.extras.push(extra("gate porter", "place:west_gate", "turn_0001", u32::MAX, 3));
    let trace = extra_trace_from_contact("w", "turn_0009", "place:west_gate", &first_contact(), "now")
        .expect("trace");
    let contact = AgentExtraContact {
        disposition: Some("  hostile ".to_owned()),
        text_design: Some(voice(&["curt", ""])),
        open_hooks: vec!["debt".to_owned(), "grudge".to_owned()],
        ..first_contact()
    };
    upsert_remembered_extra(&mut store, &trace, &contact, &Vec::new());
    assert_eq!(store.extras.len(), 1);
    let e = &store.extras[0];
    assert_eq!(e.last_seen_turn, "turn_0009");
    assert_eq!(e.contact_count, u32::MAX);
    // 1 + 1 tag + 1 hook.
    assert_eq!(e.promotion_score, 6);
    assert_eq!(e.disposition, "hostile");
    assert_eq!(e.memory, vec!["one", "two", "saw the protagonist hide a bloodied sleeve"]);
    assert_eq!(e.text_design.speech, vec!["curt".to_owned()]);
    assert_eq!(e.open_hooks, vec!["debt".to_owned(), "grudge".to_owned()]);
}

#[test]
fn bounded_lists_drop_the_oldest() {
    let mut values: Vec<String> = Vec::new();
    for v in ["a", "b", " a ", "c", "", "d"] {
        push_limited_unique(&mut values, v, 3);
    }
    assert_eq!(values, vec!["b", "c", "d"]);
    let mut anchor = voice(&["x"]);
    merge_voice_anchor(&mut anchor, Some(&voice(&["x", "y"])));
    assert_eq!(anchor.speech, vec!["x", "y"]);
    merge_voice_anchor(&mut anchor, None);
    assert_eq!(anchor.speech, vec!["x", "y"]);
}

#[test]
fn extra_score_adds_location_name_and_hook() {
    let e = extra("gate porter", "place:west_gate", "turn_0001", 2, 3);
    assert_eq!(extra_score(&e, "place:elsewhere", ""), 5);
    assert_eq!(extra_score(&e, "place:west_gate", ""), 11);
    assert_eq!(extra_score(&e, "place:west_gate", "ask a gate porter about the debt"), 18);
}

#[test]
fn selection_orders_by_score_then_latest() {
    let extras = vec![
        extra("a", "place:x", "turn_0001", 1, 1),
        extra("b", "place:y", "turn_0005", 1, 1),
        extra("c", "place:x", "turn_0003", 1, 1),
        extra("d", "place:z", "turn_0002", 0, 0),
    ];
    let chosen = select_remembered_extras(&extras, "place:x", "");
    let names: Vec<&str> = chosen.iter().map(|e| e.display_name.as_str()).collect();
    assert_eq!(names, vec!["c", "a", "b"]);
}

fn trace(label: &str, location: &str, turn: &str) -> ExtraTrace {
    ExtraTrace {
        schema_version: EXTRA_TRACE_SCHEMA_VERSION.to_owned(),
        world_id: "w".to_owned(),
        turn_id: turn.to_owned(),
        trace_id: format!("extra_trace:{turn}:{label}"),
        surface_label: label.to_owned(),
        location_id: location.to_owned(),
        scene_role: "witness".to_owned(),
        contact_summary: format!("{label} was there"),
        pressure_tags: Vec::new(),
        promotion_hint: "hint".to_owned(),
        created_at: "now".to_owned(),
    }
}

#[test]
fn recent_traces_skip_recalled_extras() {
    let traces = vec![
        trace("a", "place:x", "turn_0001"),
        trace("b", "place:y", "turn_0004"),
        trace("c", "place:x", "turn_0002"),
    ];
    let recalled = vec![extra("a", "place:x", "turn_0001", 1, 1)];
    let chosen = select_recent_traces(&traces, "place:x", "", &recalled);
    let labels: Vec<&str> = chosen.iter().map(|t| t.surface_label.as_str()).collect();
    assert_eq!(labels, vec!["c", "b"]);
}

#[test]
fn rebuild_groups_by_location_and_label_in_order() {
    let traces = vec![
        trace("zed", "place:b", "turn_0001"),
        trace("amy", "place:b", "turn_0002"),
        trace("zed", "place:a", "turn_0003"),
        trace("amy", "place:b", "turn_0004"),
        trace("zed", "place:a", "turn_0005"),
        trace("solo", "place:a", "turn_0006"),
    ];
    let store = rebuild_remembered_extras_from_traces("w", &traces, "later");
    assert_eq!(store.schema_version, REMEMBERED_EXTRAS_SCHEMA_VERSION);
    assert_eq!(store.updated_at, "later");
    let ids: Vec<&str> = store.extras.iter().map(|e| e.extra_id.as_str()).collect();
    assert_eq!(ids, vec!["extra:place_a:zed", "extra:place_b:amy"]);
    assert_eq!(store.extras[0].first_seen_turn, "turn_0003");
    assert_eq!(store.extras[0].last_seen_turn, "turn_0005");
    assert_eq!(store.extras[0].disposition, "unsettled");
    assert_eq!(store.extras[1].memory, vec!["amy was there"]);
}

#[test]
fn repair_refuses_foreign_traces() {
    let mut traces = vec![trace("a", "place:x", "turn_0001"), trace("b", "place:x", "turn_0002")];
    traces[1].world_id = "other".to_owned();
    match check_trace_worlds(&traces, "w") {
        Err(ExtraMemoryError::TraceWorldMismatch { expected, actual, trace_id }) => {
            assert_eq!(expected, "w");
            assert_eq!(actual, "other");
            assert_eq!(trace_id, "extra_trace:turn_0002:b");
        }
        other => panic!("unexpected {other:?}"),
    }
    assert!(repair_extra_memory_projection("w", &traces, &Vec::new()).expect("clock").is_err());
}

#[test]
fn store_of_another_world_is_refused() {
    let mut store = empty_store("w");
    store.world_id = "other".to_owned();
    let err = load_remembered_extras(Some(store.clone()), "w").expect("clock").expect_err("mismatch");
    assert_eq!(err.message(), "remembered extras world mismatch: expected=w, actual=other");
    let snapshot = TurnSnapshot {
        schema_version: "s".to_owned(),
        world_id: "w".to_owned(),
        session_id: "session".to_owned(),
        turn_id: "turn_0002".to_owned(),
        phase: "pending".to_owned(),
        current_event: None,
        protagonist_state: ProtagonistState {
            location: "place:x".to_owned(),
            inventory: Vec::new(),
            body: Vec::new(),
            mind: Vec::new(),
        },
        open_questions: Vec::new(),
        last_choices: Vec::new(),
    };
    let err = retrieve_extra_memory_packet(Some(store), "w", &Vec::new(), &snapshot, "")
        .expect_err("store of another world");
    assert_eq!(err.message(), "remembered extras world mismatch: expected=w, actual=other");
    let empty = retrieve_extra_memory_packet(None, "w", &Vec::new(), &snapshot, "").expect("no store");
    assert!(empty.remembered_extras.is_empty());
}

#[test]
fn score_overflow_is_detected() {
    let mut store = empty_store("w");
    store.extras = vec![extra("a", "place:x", "turn_0001", u32::MAX, 1)];
    assert!(!extra_scores_fit(&store.extras));
}

#[test]
fn pending_turn_and_archive_see_local_extras() {
    let mut store = empty_store("w");
    store.extras = vec![
        extra("a", "place:x", "turn_0001", 1, 1),
        extra("b", "place:y", "turn_0005", 1, 1),
    ];
    let traces = vec![trace("a", "place:x", "turn_0001"), trace("q", "place:x", "turn_0002")];
    let snapshot = TurnSnapshot {
        schema_version: "s".to_owned(),
        world_id: "w".to_owned(),
        session_id: "session".to_owned(),
        turn_id: "turn_0006".to_owned(),
        phase: "pending".to_owned(),
        current_event: None,
        protagonist_state: ProtagonistState {
            location: "place:x".to_owned(),
            inventory: Vec::new(),
            body: Vec::new(),
            mind: Vec::new(),
        },
        open_questions: Vec::new(),
        last_choices: Vec::new(),
    };
    assert!(extra_scores_fit(&store.extras));
    let packet = retrieve_extra_memory_packet(Some(store.clone()), "w", &traces, &snapshot, "")
        .expect("same world");
    assert_eq!(packet.remembered_extras[0].display_name, "a");
    assert_eq!(packet.recent_extra_traces.len(), 1);
    assert_eq!(packet.recent_extra_traces[0].surface_label, "q");
    assert_eq!(packet.extra_memory_policy.use_rules.len(), 4);
    let faces = local_faces_for_codex_view(&store, "place:x", 1);
    assert_eq!(faces.len(), 1);
    assert_eq!(faces[0].display_name, "a");
    assert_eq!(faces[0].last_contact, "two");
}

#[test]
fn terminal_record_reports_write_failures() {
    let plan = compile_extra_memory_projection(
        "w",
        "turn_0001",
        "place:x",
        &vec![first_contact()],
        empty_store("w"),
        Vec::new(),
    ).expect("clock")
    .expect("plan");
    let ok = plan.terminal_record(None).expect("clock");
    assert_eq!(ok.status, ExtraMemoryProjectionStatus::Committed);
    assert_eq!(ok.traces_planned, 1);
    assert_eq!(ok.remembered_extras_planned, Some(0));
    let failed = plan.terminal_record(Some("disk full".to_owned())).expect("clock");
    assert_eq!(failed.status, ExtraMemoryProjectionStatus::Failed);
    assert_eq!(failed.error.as_deref(), Some("disk full"));
}
