use singulari_world::context_capsule::{
    capsule_id_for, capsule_relative_path, check_context_capsule_body, check_context_capsule_index,
    sanitize_ref, select_context_capsules, selection_event, selection_event_recorded,
    token_estimate, trigger_terms, visibility_from_str, ContextCapsuleError,
    ContextCapsuleEvidenceRef, ContextCapsuleIndex, ContextCapsuleIndexEntry, ContextCapsuleKind,
    ContextCapsulePolicy, ContextCapsuleRejectReason, ContextCapsuleSelectionEvent,
    ContextCapsuleSelectionInput, ContextCapsuleSelectionReason, ContextCapsuleVisibility,
    TurnRetrievalCue, TurnRetrievalCueReason, TurnRetrievalTargetKind, TurnRetrievalVisibility,
    CONTEXT_CAPSULE_INDEX_ENTRY_SCHEMA_VERSION, CONTEXT_CAPSULE_INDEX_SCHEMA_VERSION,
    CONTEXT_CAPSULE_SCHEMA_VERSION, CONTEXT_CAPSULE_SELECTION_EVENT_SCHEMA_VERSION,
};

fn lore_entry(lore_id: &str, name: &str, summary: &str) -> ContextCapsuleIndexEntry {
    let capsule_id = capsule_id_for(ContextCapsuleKind::WorldLore, lore_id);
    ContextCapsuleIndexEntry {
        schema_version: CONTEXT_CAPSULE_INDEX_ENTRY_SCHEMA_VERSION.to_owned(),
        world_id: "stw_capsule".to_owned(),
        content_ref: capsule_relative_path(ContextCapsuleKind::WorldLore, &capsule_id),
        capsule_id,
        kind: ContextCapsuleKind::WorldLore,
        visibility: ContextCapsuleVisibility::PlayerVisible,
        summary: summary.to_owned(),
        triggers: trigger_terms(&[name, summary]),
        evidence_refs: vec![ContextCapsuleEvidenceRef {
            source: "world_lore".to_owned(),
            id: "world_lore_update:turn_0001:00".to_owned(),
        }],
        token_estimate: token_estimate(summary),
        last_used_turn: None,
        recent_use_count: 0,
        updated_at: "2026-01-01T00:00:00+00:00".to_owned(),
    }
}

fn sample_index() -> ContextCapsuleIndex {
    ContextCapsuleIndex {
        schema_version: CONTEXT_CAPSULE_INDEX_SCHEMA_VERSION.to_owned(),
        world_id: "stw_capsule".to_owned(),
        turn_id: "turn_0002".to_owned(),
        entries: vec![lore_entry(
            "gate_custom",
            "Gate custom",
            "Gate officials require a local token.",
        )],
        compiler_policy: ContextCapsulePolicy::default(),
    }
}

fn input(player_input: &str, cues: Vec<TurnRetrievalCue>) -> ContextCapsuleSelectionInput {
    ContextCapsuleSelectionInput {
        world_id: "stw_capsule".to_owned(),
        turn_id: "turn_0002".to_owned(),
        player_input: player_input.to_owned(),
        retrieval_cues: cues,
    }
}

fn gate_cue(visibility: TurnRetrievalVisibility) -> TurnRetrievalCue {
    TurnRetrievalCue {
        cue_id: "cue:turn_0002:gate".to_owned(),
        cue: "Gate access".to_owned(),
        reason: TurnRetrievalCueReason::CurrentGoalMatch,
        target_kinds: vec![TurnRetrievalTargetKind::WorldLore],
        visibility,
        source_refs: vec!["plot_thread:gate".to_owned()],
    }
}

fn prior_selection(turn_id: &str) -> ContextCapsuleSelectionEvent {
    ContextCapsuleSelectionEvent {
        schema_version: CONTEXT_CAPSULE_SELECTION_EVENT_SCHEMA_VERSION.to_owned(),
        world_id: "stw_capsule".to_owned(),
        turn_id: turn_id.to_owned(),
        event_id: format!("context_capsule_selection_event:{turn_id}"),
        selected_capsule_ids: vec!["world_lore:gate_custom".to_owned()],
        rejected_capsule_ids: Vec::new(),
        created_at: "2026-01-01T00:00:00+00:00".to_owned(),
    }
}

#[test]
fn trigger_terms_are_lowercased_sorted_and_unique() {
    let terms = trigger_terms(&["Gate custom", "Gate officials require a local token."]);
    assert_eq!(terms, vec!["custom", "gate", "local", "officials", "require", "token"]);
    let terms = trigger_terms(&["char:anchor -> place:gate; A", "(x) [yy]"]);
    assert_eq!(terms, vec!["anchor", "char", "gate", "place", "yy"]);
}

#[test]
fn selects_capsule_from_index_as_fallback() {
    let plan = select_context_capsules(&input("", Vec::new()), &sample_index(), &Vec::new())
        .expect("index fits the turn");
    assert_eq!(plan.selected.len(), 1);
    assert_eq!(plan.selected[0].entry_index, 0);
    assert_eq!(plan.selected[0].reason, ContextCapsuleSelectionReason::ActiveProjectionFallback);
    assert_eq!(plan.selected[0].score, 35);
    assert_eq!(plan.budget_report.capsule_index_entries_seen, 1);
    assert_eq!(plan.budget_report.capsules_loaded, 1);
    assert_eq!(plan.budget_report.capsules_rejected, 0);
    assert_eq!(plan.budget_report.estimated_tokens, 24);
    assert_eq!(plan.budget_report.selected_limit, 8);
}

#[test]
fn retrieval_controller_goal_boosts_matching_capsule() {
    let plan = select_context_capsules(
        &input("", vec![gate_cue(TurnRetrievalVisibility::PlayerVisible)]),
        &sample_index(),
        &Vec::new(),
    )
    .expect("index fits the turn");
    assert_eq!(plan.selected[0].reason, ContextCapsuleSelectionReason::CurrentGoalMatch);
    assert_eq!(plan.selected[0].score, 90);
}

#[test]
fn hidden_retrieval_cue_is_blocked_from_visible_capsule_selection() {
    let plan = select_context_capsules(
        &input("", vec![gate_cue(TurnRetrievalVisibility::AdjudicationOnly)]),
        &sample_index(),
        &Vec::new(),
    )
    .expect("index fits the turn");
    assert_eq!(plan.selected[0].reason, ContextCapsuleSelectionReason::ActiveProjectionFallback);
}

#[test]
fn repeated_fallback_capsule_is_rejected_without_current_effect() {
    let events = vec![prior_selection("turn_0000"), prior_selection("turn_0001")];
    let plan = select_context_capsules(&input("", Vec::new()), &sample_index(), &events)
        .expect("index fits the turn");
    assert!(plan.selected.is_empty());
    assert!(plan
        .rejected_capsules
        .iter()
        .any(|capsule| capsule.reason == ContextCapsuleRejectReason::RepeatedWithoutEffect));
}

#[test]
fn one_prior_fallback_selection_is_not_yet_stale() {
    let events = vec![prior_selection("turn_0001")];
    let plan = select_context_capsules(&input("", Vec::new()), &sample_index(), &events)
        .expect("index fits the turn");
    assert_eq!(plan.selected.len(), 1);
}

#[test]
fn fallback_reuse_outside_the_recent_window_is_forgotten() {
    let mut events = vec![prior_selection("turn_0000"), prior_selection("turn_0001")];
    for turn in 2..8 {
        let mut event = prior_selection(&format!("turn_{turn:04}"));
        event.selected_capsule_ids.clear();
        events.push(event);
    }
    let plan = select_context_capsules(&input("", Vec::new()), &sample_index(), &events)
        .expect("index fits the turn");
    assert_eq!(plan.selected.len(), 1);
}

#[test]
fn current_goal_match_overrides_recent_fallback_suppression() {
    let events = vec![prior_selection("turn_0000"), prior_selection("turn_0001")];
    let plan = select_context_capsules(
        &input("", vec![gate_cue(TurnRetrievalVisibility::PlayerVisible)]),
        &sample_index(),
        &events,
    )
    .expect("index fits the turn");
    assert_eq!(plan.selected.len(), 1);
    assert_eq!(plan.selected[0].reason, ContextCapsuleSelectionReason::CurrentGoalMatch);
    assert!(!plan
        .rejected_capsules
        .iter()
        .any(|capsule| capsule.reason == ContextCapsuleRejectReason::RepeatedWithoutEffect));
}

#[test]
fn direct_player_trigger_overrides_recent_fallback_repetition() {
    let events = vec![prior_selection("turn_0000"), prior_selection("turn_0001")];
    let plan =
        select_context_capsules(&input("gate token을 살핀다", Vec::new()), &sample_index(), &events)
            .expect("index fits the turn");
    assert_eq!(plan.selected.len(), 1);
    assert_eq!(plan.selected[0].reason, ContextCapsuleSelectionReason::DirectPlayerInputTrigger);
    assert_eq!(plan.selected[0].score, 100);
}

#[test]
fn rejects_index_for_wrong_turn() {
    let mut wrong = input("", Vec::new());
    wrong.turn_id = "turn_0003".to_owned();
    let Err(error) = select_context_capsules(&wrong, &sample_index(), &Vec::new()) else {
        panic!("an index of another turn must be refused");
    };
    assert!(matches!(error, ContextCapsuleError::IndexTargetMismatch { .. }));
    assert!(error.message().contains("context capsule index target mismatch"));
    assert!(error.message().contains("expected_turn=turn_0003, actual_turn=turn_0002"));

    let mut stale = sample_index();
    stale.schema_version = "old".to_owned();
    let Err(error) = check_context_capsule_index(&stale, "stw_capsule", "turn_0002") else {
        panic!("an index of another schema must be refused");
    };
    assert_eq!(
        error.message(),
        "context capsule index schema mismatch: expected=singulari.context_capsule_index.v1, actual=old"
    );
}

#[test]
fn rejects_capsule_body_mismatch() {
    let index = sample_index();
    let entry = &index.entries[0];
    assert!(check_context_capsule_body(
        entry,
        CONTEXT_CAPSULE_SCHEMA_VERSION,
        "world_lore:gate_custom",
        "stw_capsule",
        ContextCapsuleKind::WorldLore
    )
    .is_ok());
    let Err(error) = check_context_capsule_body(
        entry,
        CONTEXT_CAPSULE_SCHEMA_VERSION,
        "world_lore:other",
        "stw_capsule",
        ContextCapsuleKind::WorldLore,
    ) else {
        panic!("a body of another capsule must be refused");
    };
    assert_eq!(
        error.message(),
        "context capsule body id mismatch: index=world_lore:gate_custom, body=world_lore:other"
    );
    let Err(error) = check_context_capsule_body(
        entry,
        CONTEXT_CAPSULE_SCHEMA_VERSION,
        "world_lore:gate_custom",
        "stw_capsule",
        ContextCapsuleKind::RelationshipGraph,
    ) else {
        panic!("a body of another kind must be refused");
    };
    assert!(error.message().ends_with("index_kind=WorldLore, body_kind=RelationshipGraph"));
}

#[test]
fn hidden_and_unsupported_capsules_are_rejected_before_scoring() {
    let mut index = sample_index();
    let mut hidden = lore_entry("secret", "Secret", "A hidden pact.");
    hidden.visibility = ContextCapsuleVisibility::Hidden;
    let mut seedless = lore_entry("seedless", "Seedless", "No evidence here.");
    seedless.evidence_refs.clear();
    index.entries.push(hidden);
    index.entries.push(seedless);
    let plan = select_context_capsules(&input("", Vec::new()), &index, &Vec::new())
        .expect("index fits the turn");
    assert_eq!(plan.selected.len(), 1);
    assert_eq!(plan.rejected_capsules.len(), 2);
    assert_eq!(plan.rejected_capsules[0].capsule_id, "world_lore:secret");
    assert_eq!(plan.rejected_capsules[0].reason, ContextCapsuleRejectReason::VisibilityBlocked);
    assert_eq!(plan.rejected_capsules[1].capsule_id, "world_lore:seedless");
    assert_eq!(plan.rejected_capsules[1].reason, ContextCapsuleRejectReason::SeedLeakageRisk);
}

#[test]
fn selection_keeps_the_budget_in_score_kind_and_id_order() {
    let mut index = sample_index();
    index.entries.clear();
    for n in 0..10 {
        index.entries.push(lore_entry(&format!("lore_{n:02}"), "Lore", "Some lore."));
    }
    let plan = select_context_capsules(&input("", Vec::new()), &index, &Vec::new())
        .expect("index fits the turn");
    assert_eq!(plan.selected.len(), 8);
    let order: Vec<usize> = plan.selected.iter().map(|c| c.entry_index).collect();
    assert_eq!(order, vec![0, 1, 2, 3, 4, 5, 6, 7]);
    assert_eq!(plan.rejected_capsules.len(), 2);
    assert_eq!(plan.rejected_capsules[0].capsule_id, "world_lore:lore_08");
    assert_eq!(plan.rejected_capsules[0].reason, ContextCapsuleRejectReason::BudgetExceeded);
    assert_eq!(plan.budget_report.estimated_tokens, 8 * 24);

    let plan = select_context_capsules(
        &input("", vec![gate_cue(TurnRetrievalVisibility::PlayerVisible)]),
        &{
            let mut both = index.clone();
            both.entries.push(lore_entry("gate_custom", "Gate custom", "Gate officials."));
            both
        },
        &Vec::new(),
    )
    .expect("index fits the turn");
    assert_eq!(plan.selected[0].entry_index, 10);
    assert_eq!(plan.selected[0].reason, ContextCapsuleSelectionReason::CurrentGoalMatch);
}

#[test]
fn selection_event_lists_ids_once_per_turn() {
    let index = sample_index();
    let plan = select_context_capsules(&input("", Vec::new()), &index, &Vec::new())
        .expect("index fits the turn");
    let event = selection_event("stw_capsule", "turn_0002", &plan, &index.entries).expect("clock");
    assert_eq!(event.event_id, "context_capsule_selection_event:turn_0002");
    assert_eq!(event.selected_capsule_ids, vec!["world_lore:gate_custom"]);
    assert!(event.rejected_capsule_ids.is_empty());
    let log = vec![prior_selection("turn_0001"), event];
    assert!(selection_event_recorded(&log, "context_capsule_selection_event:turn_0002"));
    assert!(!selection_event_recorded(&log, "context_capsule_selection_event:turn_0003"));
}

#[test]
fn capsule_paths_and_estimates() {
    assert_eq!(sanitize_ref("a b/c:d-é_9"), "a_b_c_d-__9");
    assert_eq!(
        capsule_relative_path(ContextCapsuleKind::RelationshipGraph, "relationship:x:y"),
        "context_capsules/relationship/relationship_x_y.json"
    );
    assert_eq!(capsule_id_for(ContextCapsuleKind::CharacterTextDesign, "char:mira"), "character_text:char_mira");
    assert_eq!(token_estimate(""), 24);
    assert_eq!(token_estimate(&"가".repeat(100)), 34);
    assert_eq!(token_estimate(&"a".repeat(99)), 33);
    assert_eq!(visibility_from_str("private"), ContextCapsuleVisibility::Private);
    assert_eq!(visibility_from_str("whatever"), ContextCapsuleVisibility::PlayerVisible);
}
