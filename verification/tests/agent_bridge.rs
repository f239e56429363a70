use singulari_world::agent_bridge::{
    next_turn_id, selected_choice, validate_agent_response, AgentContextRepairRequest,
    AgentHiddenSecret, AgentPrivateAdjudicationContext, AgentResponseRejection,
    canonical_agent_turn_response, narrative_budget_for_level, normalize_narrative_level,
    validate_agent_next_choices, AgentResponseError, AgentTurnResponse, NarrativeScene,
    AGENT_TURN_RESPONSE_SCHEMA_VERSION, NARRATIVE_SCENE_SCHEMA_VERSION,
};
use singulari_world::models::{TurnChoice, GUIDE_CHOICE_TAG};

#[test]
fn narrative_budget_levels_are_distinct_and_clamped() {
    let level_one = narrative_budget_for_level(Some(1));
    let level_three = narrative_budget_for_level(Some(3));

    assert_eq!(normalize_narrative_level(None), 1);
    assert_eq!(normalize_narrative_level(Some(0)), 1);
    assert_eq!(normalize_narrative_level(Some(4)), 3);
    assert_ne!(level_one.standard_choice_turn, level_three.standard_choice_turn);
    assert_eq!(level_one.standard_choice_turn_blocks, 6);
    assert_eq!(level_three.standard_choice_turn_blocks, 14);
    assert_eq!(level_three.target_chars, 7_000);
    assert!(level_three.character_budget.contains("8000-12000자"));
}

#[test]
fn level_two_budget_and_default_level() {
    let two = narrative_budget_for_level(Some(2));
    assert_eq!(two.major_turn_blocks, 12);
    assert_eq!(two.major_target_chars, 4_800);
    assert_eq!(two.level_label, "서사레벨 2: 장면 확장 밀도");
    let default = narrative_budget_for_level(None);
    assert_eq!(default.level_label, "서사레벨 1: 표준 VN 밀도");
    assert_eq!(narrative_budget_for_level(Some(200)).opening_or_climax_blocks, 24);
}

fn choice(slot: u8, tag: &str, intent: &str) -> TurnChoice {
    TurnChoice { slot, tag: tag.to_owned(), intent: intent.to_owned() }
}

fn scene_specific_choices() -> Vec<TurnChoice> {
    vec![
        choice(1, "단서", "이번 장면에서 새로 드러난 단서를 따라 조심스럽게 움직인다"),
        choice(2, "몸 상태", "현재 몸 상태와 주변 조건이 가능한 행동을 얼마나 제한하는지 살핀다"),
        choice(3, "낮은 부름", "가까운 수풀 뒤쪽에 사람이 있는지 낮은 목소리로 확인한다"),
        choice(4, "기록", "방금 본 단서의 의미를 세계 기록에서 대조한다"),
        choice(5, "먼 시야", "이 장소를 둘러싼 변화 압력을 더 넓게 본다"),
        choice(6, "자유서술", "6 뒤에 직접 행동, 말, 내면 독백을 서술한다"),
        choice(7, GUIDE_CHOICE_TAG, "맡긴다. 세부 내용은 선택 후 드러난다."),
    ]
}

fn legacy_slot_contract_choices() -> Vec<TurnChoice> {
    let mut choices = scene_specific_choices();
    choices[3] = choice(4, GUIDE_CHOICE_TAG, "맡긴다. 세부 내용은 선택 후 드러난다.");
    choices[4] = choice(5, "기록", "현재 알려진 세계 기록을 연다");
    choices[5] = choice(6, "흐름", "시간의 관찰자 시점으로 다음 흐름을 본다");
    choices[6] = choice(7, "자유서술", "7 뒤에 직접 행동, 말, 내면 독백을 서술한다");
    choices
}

fn response_with(world_id: &str, block: &str, next_choices: Vec<TurnChoice>) -> AgentTurnResponse {
    AgentTurnResponse {
        schema_version: AGENT_TURN_RESPONSE_SCHEMA_VERSION.to_owned(),
        world_id: world_id.to_owned(),
        turn_id: "turn_0001".to_owned(),
        resolution_proposal: None,
        scene_director_proposal: None,
        consequence_proposal: None,
        social_exchange_proposal: None,
        encounter_proposal: None,
        visible_scene: NarrativeScene {
            schema_version: NARRATIVE_SCENE_SCHEMA_VERSION.to_owned(),
            speaker: None,
            text_blocks: vec![block.to_owned()],
            tone_notes: Vec::new(),
        },
        adjudication: None,
        canon_event: None,
        entity_updates: Vec::new(),
        character_text_design_updates: Vec::new(),
        extra_contacts: Vec::new(),
        needs_context: Vec::new(),
        next_choices,
        actor_goal_events: Vec::new(),
        actor_move_events: Vec::new(),
        hook_events: Vec::new(),
    }
}

#[test]
fn canonicalizes_legacy_slot_contract_agent_response() {
    let response = response_with(
        "stw_legacy_contract",
        "agent-authored visible scene",
        legacy_slot_contract_choices(),
    );

    let canonical = canonical_agent_turn_response(response);

    assert_eq!(canonical.next_choices[3].slot, 4);
    assert_eq!(canonical.next_choices[3].tag, "기록");
    assert_eq!(canonical.next_choices[4].slot, 5);
    assert_eq!(canonical.next_choices[4].tag, "흐름");
    assert_eq!(canonical.next_choices[5].slot, 6);
    assert_eq!(canonical.next_choices[5].tag, "자유서술");
    assert!(canonical.next_choices[5].intent.contains("6 뒤에"));
    assert_eq!(canonical.next_choices[6].slot, 7);
    assert_eq!(canonical.next_choices[6].tag, GUIDE_CHOICE_TAG);
}

#[test]
fn rejects_agent_choices_that_leak_internal_anchor_ids() {
    let mut response = response_with("stw_anchor_leak", "장면이 이어진다.", scene_specific_choices());
    response.next_choices[2].intent = "char:anchor의 반 걸음 뒤에 멈춰 선다".to_owned();

    let Err(error) = validate_agent_next_choices(&response, &Vec::new()) else {
        panic!("internal anchor id must reject agent choices");
    };
    assert!(error.message().contains("internal token"));
}

#[test]
fn accepts_scene_specific_choices() {
    let response = response_with("stw_ok", "장면이 이어진다.", scene_specific_choices());
    assert!(validate_agent_next_choices(&response, &Vec::new()).is_ok());
}

#[test]
fn rejects_wrong_choice_count_and_rewritten_guide_slot() {
    let mut short = scene_specific_choices();
    short.pop();
    let response = response_with("stw_short", "장면", short);
    let Err(error) = validate_agent_next_choices(&response, &Vec::new()) else {
        panic!("six choices must be refused");
    };
    assert!(matches!(error, AgentResponseError::NextChoicesCount { actual: 6 }));

    let mut rewritten = scene_specific_choices();
    rewritten[6].intent = "직접 고른다".to_owned();
    let response = response_with("stw_guide", "장면", rewritten);
    let Err(error) = validate_agent_next_choices(&response, &Vec::new()) else {
        panic!("a rewritten guide slot must be refused");
    };
    assert!(matches!(error, AgentResponseError::GuideSlotRewritten));
}

#[test]
fn rejects_choices_that_keep_the_default_template() {
    let response = response_with("stw_default", "장면", scene_specific_choices());
    let defaults = scene_specific_choices();
    let Err(error) = validate_agent_next_choices(&response, &defaults) else {
        panic!("default template choices must be refused");
    };
    assert!(matches!(error, AgentResponseError::DefaultTemplate));
}

#[test]
fn selected_choice_interprets_legacy_snapshot_with_current_slots() {
    let last_choices = legacy_slot_contract_choices();

    let Some(guide) = selected_choice("7", &last_choices) else {
        panic!("slot 7 should map to guide");
    };
    assert_eq!(guide.slot, 7);
    assert_eq!(guide.tag, GUIDE_CHOICE_TAG);
    let Some(freeform) = selected_choice("6 문 아래의 흙을 살핀다", &last_choices) else {
        panic!("slot 6 should map to freeform");
    };
    assert_eq!(freeform.slot, 6);
    assert_eq!(freeform.tag, "자유서술");
}

#[test]
fn selected_choice_reads_numbers_and_freeform_prefixes() {
    let choices = scene_specific_choices();
    let third = selected_choice(" 3 ", &choices).expect("slot 3 exists");
    assert_eq!(third.slot, 3);
    assert_eq!(third.tag, "낮은 부름");
    let guide = selected_choice("7", &choices).expect("slot 7 exists");
    assert_eq!(guide.visible_intent, "맡긴다. 세부 내용은 선택 후 드러난다.");
    let freeform = selected_choice("6번 문을 민다", &Vec::new()).expect("freeform falls back");
    assert_eq!(freeform.slot, 6);
    assert_eq!(freeform.visible_intent, "6 뒤에 직접 행동, 말, 내면 독백을 서술한다");
    assert!(selected_choice("60", &choices).is_none());
    assert!(selected_choice("문을 연다", &choices).is_none());
}

#[test]
fn next_turn_id_counts_up() {
    assert_eq!(next_turn_id("turn_0009").as_deref(), Some("turn_0010"));
    assert_eq!(next_turn_id("turn_99999").as_deref(), Some("turn_100000"));
    assert_eq!(next_turn_id("turn_4294967296"), None);
    assert_eq!(next_turn_id("t_1"), None);
}

fn empty_context() -> AgentPrivateAdjudicationContext {
    AgentPrivateAdjudicationContext {
        hidden_timers: Vec::new(),
        unrevealed_constraints: Vec::new(),
        plausibility_gates: Vec::new(),
    }
}

#[test]
fn validates_whole_agent_response() {
    let response = response_with("stw_ok", "장면이 이어진다.", scene_specific_choices());
    assert!(validate_agent_response("stw_ok", "turn_0001", &empty_context(), &response, &Vec::new()).is_ok());

    let Err(e) = validate_agent_response("stw_ok", "turn_0002", &empty_context(), &response, &Vec::new()) else {
        panic!("another turn must be refused");
    };
    assert_eq!(
        e.message(),
        "agent response target mismatch: pending=stw_ok/turn_0002, response=stw_ok/turn_0001"
    );

    let mut repair = response_with("stw_ok", "장면이 이어진다.", scene_specific_choices());
    repair.needs_context.push(AgentContextRepairRequest {
        request_id: "r1".to_owned(),
        capsule_kinds: Vec::new(),
        query: "q".to_owned(),
        reason: "why".to_owned(),
        evidence_refs: Vec::new(),
    });
    let Err(e) = validate_agent_response("stw_ok", "turn_0001", &empty_context(), &repair, &Vec::new()) else {
        panic!("context repair requests stop the commit");
    };
    assert_eq!(
        e.message(),
        "agent response requested bounded context repair before commit: requests=1"
    );

    let blank = response_with("stw_ok", "   ", scene_specific_choices());
    let Err(e) = validate_agent_response("stw_ok", "turn_0001", &empty_context(), &blank, &Vec::new()) else {
        panic!("a blank scene must be refused");
    };
    assert!(matches!(e, AgentResponseRejection::EmptyScene));

    let leaking = response_with("stw_ok", "문지기는 사실 왕의 동생이다.", scene_specific_choices());
    let mut context = empty_context();
    context.unrevealed_constraints.push(AgentHiddenSecret {
        secret_id: "secret:gate".to_owned(),
        status: "hidden".to_owned(),
        truth: "왕의 동생".to_owned(),
        reveal_conditions: Vec::new(),
        forbidden_leaks: Vec::new(),
    });
    let Err(e) = validate_agent_response("stw_ok", "turn_0001", &context, &leaking, &Vec::new()) else {
        panic!("hidden truth must not leak");
    };
    assert_eq!(e.message(), "agent response leaks hidden truth: secret_id=secret:gate");
}
