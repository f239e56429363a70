use singulari_world::adjudication::{adjudicate_turn, AdjudicationInput};
use singulari_world::models::{
    AnchorCharacter, HiddenState, LanguagePolicy, RuntimeContract, TurnChoice, TurnInputKind,
    TurnSnapshot, WorldLaws, WorldPremise, WorldRecord, WorldSeed, WORLD_SEED_SCHEMA_VERSION,
};

fn test_world() -> WorldRecord {
    WorldRecord::from_seed(
        WorldSeed {
            schema_version: WORLD_SEED_SCHEMA_VERSION.to_owned(),
            world_id: "stw_adj".to_owned(),
            title: "판정 세계".to_owned(),
            created_by: "local_user".to_owned(),
            runtime_contract: RuntimeContract::standard(),
            premise: WorldPremise {
                genre: "중세 판타지".to_owned(),
                protagonist: "변경 순찰자".to_owned(),
                special_condition: None,
                opening_state: "interlude".to_owned(),
            },
            anchor_character: AnchorCharacter::standard(),
            language: LanguagePolicy::standard(),
            laws: WorldLaws::standard(),
            non_goals: Vec::new(),
        },
        "2026-04-27T00:00:00Z".to_owned(),
    )
}

#[test]
fn hidden_probe_is_blocked_by_knowledge_gate() {
    let world = test_world();
    let snapshot = TurnSnapshot::initial(&world, "session".to_owned());
    let hidden_state = HiddenState::initial(world.world_id.as_str());
    let report = adjudicate_turn(&AdjudicationInput {
        world: &world,
        snapshot: &snapshot,
        hidden_state: &hidden_state,
        turn_id: "turn_0001",
        input_kind: TurnInputKind::FreeformAction,
        selected_choice: None,
        effective_input: "흑막의 정체와 비밀을 바로 알아낸다",
    });
    assert_eq!(report.outcome, "blocked");
    assert!(report
        .gates
        .iter()
        .any(|gate| gate.gate == "knowledge" && gate.status == "blocked"));
}

#[test]
fn guide_choice_adds_delegated_gate_and_summarises_the_slot() {
    let world = test_world();
    let snapshot = TurnSnapshot::initial(&world, "session".to_owned());
    let hidden_state = HiddenState::initial(world.world_id.as_str());
    let choice = TurnChoice {
        slot: 7,
        tag: "안내자의 선택".to_owned(),
        intent: "맡긴다.".to_owned(),
    };
    let report = adjudicate_turn(&AdjudicationInput {
        world: &world,
        snapshot: &snapshot,
        hidden_state: &hidden_state,
        turn_id: "turn_0002",
        input_kind: TurnInputKind::GuideChoice,
        selected_choice: Some(&choice),
        effective_input: "7",
    });
    assert_eq!(report.gates.len(), 6);
    assert_eq!(report.gates[5].gate, "delegated_judgment");
    assert_eq!(report.outcome, "constrained");
    assert_eq!(
        report.summary,
        "7번 [안내자의 선택]: 성립하지만 비용, 시간, 권한, 지식 제한을 남긴다"
    );
    assert_eq!(
        report.consequences,
        vec!["time_constrained".to_owned(), "delegated_judgment_constrained".to_owned()]
    );
    assert_eq!(report.visible_constraints.len(), 2);
    assert!(report.visible_constraints[0].starts_with("time: "));
}

#[test]
fn missing_tool_is_blocked_by_resource_gate() {
    let world = test_world();
    let snapshot = TurnSnapshot::initial(&world, "session".to_owned());
    let hidden_state = HiddenState::initial(world.world_id.as_str());
    let report = adjudicate_turn(&AdjudicationInput {
        world: &world,
        snapshot: &snapshot,
        hidden_state: &hidden_state,
        turn_id: "turn_0003",
        input_kind: TurnInputKind::CodexQuery,
        selected_choice: None,
        effective_input: "지도를 펼친다",
    });
    assert_eq!(report.gates[1].status, "blocked");
    assert_eq!(report.gates[2].status, "allowed");
    assert_eq!(report.outcome, "blocked");
    assert_eq!(
        report.summary,
        "지도를 펼친다: 세계 법칙 때문에 그대로 성립하지 않는다"
    );
}
