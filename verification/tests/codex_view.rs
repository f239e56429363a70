use singulari_world::codex_view::{
    assemble_codex_view, CodexRecommendation, CodexViewParts, PlayerKnowledge,
    CODEX_HIDDEN_FILTER_POLICY,
};
use singulari_world::models::{HiddenSecret, HiddenState, HiddenTimer, ProtagonistState, TurnSnapshot};
use singulari_world::codex_view::{
    render_codex_view_markdown, render_codex_view_section_markdown, visible_voice_anchors,
    BuildCodexViewOptions, CodexAnalysisEntry, CodexFactEntry, CodexHiddenFilter,
    CodexTimelineEntry, CodexView, CodexViewSection, CodexVoiceAnchorEntry,
    CODEX_VIEW_SCHEMA_VERSION, DEFAULT_CODEX_LIMIT,
};
use singulari_world::models::{
    AnchorCharacter, CharacterVoiceAnchor, EntityRecords, LanguagePolicy, RuntimeContract,
    WorldLaws, WorldPremise, WorldRecord, WorldSeed, WORLD_SEED_SCHEMA_VERSION,
};

fn view() -> CodexView {
    CodexView {
        schema_version: CODEX_VIEW_SCHEMA_VERSION.to_owned(),
        world_id: "stw_codex_view".to_owned(),
        turn_id: "turn_0001".to_owned(),
        title: "기록 세계".to_owned(),
        protagonist_timeline: vec![CodexTimelineEntry {
            turn_id: "turn_0001".to_owned(),
            event_id: "evt_000001".to_owned(),
            kind: "turn".to_owned(),
            summary: "문을 두드렸다".to_owned(),
        }],
        world_almanac: vec![CodexFactEntry {
            fact_id: "fact:1".to_owned(),
            category: "law".to_owned(),
            subject: "gate".to_owned(),
            predicate: "closes".to_owned(),
            object: "dusk".to_owned(),
        }],
        world_blueprint: Vec::new(),
        voice_anchors: vec![CodexVoiceAnchorEntry {
            character_id: "char:guard".to_owned(),
            name: "문지기".to_owned(),
            speech: vec!["짧게".to_owned(), "낮게".to_owned()],
            gestures: Vec::new(),
            habits: Vec::new(),
            drift: Vec::new(),
        }],
        realtime_analysis: vec![CodexAnalysisEntry { label: "phase".to_owned(), value: "interlude".to_owned() }],
        related_recommendations: Vec::new(),
        hidden_filter: CodexHiddenFilter {
            hidden_secrets: 1,
            hidden_timers: 0,
            policy: "hidden truth is counted but never rendered in Archive View".to_owned(),
        },
    }
}

#[test]
fn archive_markdown_lists_visible_sections() {
    let rendered = render_codex_view_markdown(&view());
    assert!(rendered.starts_with("# World Archive\n\n- world: `stw_codex_view`\n- turn: `turn_0001`\n- hidden filter: 1 secrets / 0 timers\n"));
    assert!(rendered.contains("주인공의 연대기"));
    assert!(rendered.contains("- `turn_0001` `evt_000001` [turn] 문을 두드렸다\n"));
    assert!(rendered.contains("세계 연감"));
    assert!(rendered.contains("- `fact:1` gate.closes = dusk\n"));
    assert!(rendered.contains("- 아직 주인공이 확실히 아는 항목이 적다\n"));
    assert!(rendered.contains("캐릭터 음성 앵커"));
    assert!(rendered.contains("- `char:guard` 문지기\n  - 말투: 짧게 / 낮게\n"));
    assert!(rendered.contains("- phase: interlude\n"));
    assert!(rendered.ends_with("## 관련 항목 추천\n- 현재 추천할 검색 항목이 없다\n"));
}

#[test]
fn one_section_has_its_own_title() {
    let rendered = render_codex_view_section_markdown(&view(), CodexViewSection::Almanac);
    assert!(rendered.starts_with("# World Archive: almanac\n"));
    assert!(rendered.contains("세계 연감"));
    assert!(!rendered.contains("주인공의 연대기"));
    assert_eq!(
        render_codex_view_section_markdown(&view(), CodexViewSection::All),
        render_codex_view_markdown(&view())
    );
}

#[test]
fn section_names_and_aliases_parse() {
    assert_eq!(CodexViewSection::parse("history"), Ok(CodexViewSection::Timeline));
    assert_eq!(CodexViewSection::parse("live"), Ok(CodexViewSection::Analysis));
    assert_eq!(CodexViewSection::Related.as_str(), "related");
    assert_eq!(
        CodexViewSection::parse("nope"),
        Err("unknown Archive View section: nope; expected all|timeline|almanac|blueprint|analysis|related".to_owned())
    );
    let options = BuildCodexViewOptions::new("w".to_owned());
    assert_eq!(options.limit, DEFAULT_CODEX_LIMIT);
    assert!(options.query.is_none());
}

fn world() -> WorldRecord {
    WorldRecord::from_seed(
        WorldSeed {
            schema_version: WORLD_SEED_SCHEMA_VERSION.to_owned(),
            world_id: "stw_codex_view".to_owned(),
            title: "기록 세계".to_owned(),
            created_by: "local_user".to_owned(),
            runtime_contract: RuntimeContract::standard(),
            premise: WorldPremise {
                genre: "중세 판타지".to_owned(),
                protagonist: "현대인의 전생, 남자 주인공".to_owned(),
                special_condition: None,
                opening_state: "interlude".to_owned(),
            },
            anchor_character: AnchorCharacter::standard(),
            language: LanguagePolicy::standard(),
            laws: WorldLaws::standard(),
            non_goals: Vec::new(),
        },
        "2026-04-27T00:00:00Z".to_owned(),
    )
}

#[test]
fn voice_anchors_fall_back_for_the_protagonist_only() {
    let mut entities = EntityRecords::initial(&world());
    for c in entities.characters.iter_mut() {
        c.knowledge_state = "known".to_owned();
    }
    let default = CharacterVoiceAnchor {
        speech: vec!["담담하게".to_owned()],
        endings: Vec::new(),
        tone: Vec::new(),
        gestures: Vec::new(),
        habits: Vec::new(),
        drift: Vec::new(),
    };
    let anchors = visible_voice_anchors(&entities, 5, &default);
    assert_eq!(anchors.len(), 1);
    assert_eq!(anchors[0].character_id, "char:protagonist");
    assert_eq!(anchors[0].speech, vec!["담담하게".to_owned()]);
    assert!(visible_voice_anchors(&entities, 0, &default).is_empty());
}

#[test]
fn codex_view_is_assembled_with_hidden_truth_only_counted() {
    let snapshot = TurnSnapshot {
        schema_version: "s".to_owned(),
        world_id: "stw_codex_view".to_owned(),
        session_id: "session".to_owned(),
        turn_id: "turn_0003".to_owned(),
        phase: "interlude".to_owned(),
        current_event: None,
        protagonist_state: ProtagonistState {
            location: "place:archive".to_owned(),
            inventory: Vec::new(),
            body: Vec::new(),
            mind: Vec::new(),
        },
        open_questions: vec!["q1".to_owned()],
        last_choices: Vec::new(),
    };
    let knowledge = PlayerKnowledge {
        open_questions: (1..=7).map(|n| format!("open {n}")).collect(),
        known_entities: vec!["char:guard".to_owned(), "place:archive".to_owned()],
    };
    let hidden = HiddenState {
        schema_version: "h".to_owned(),
        world_id: "stw_codex_view".to_owned(),
        secrets: vec![HiddenSecret {
            secret_id: "secret:1".to_owned(),
            status: "sealed".to_owned(),
            truth: "the archivist forged the seal".to_owned(),
            reveal_conditions: Vec::new(),
            forbidden_leaks: Vec::new(),
        }],
        timers: vec![HiddenTimer {
            timer_id: "timer:1".to_owned(),
            kind: "patrol".to_owned(),
            remaining_turns: 2,
            effect: "guard returns".to_owned(),
        }],
    };
    let parts = CodexViewParts {
        world_id: "stw_codex_view".to_owned(),
        title: "기록 세계".to_owned(),
        snapshot,
        hidden_state: hidden,
        knowledge,
        entities: EntityRecords::initial(&world()),
        protagonist_default: CharacterVoiceAnchor::empty(),
        timeline: Vec::new(),
        almanac: Vec::new(),
        blueprint: Vec::new(),
        hit_recommendations: Vec::new(),
        search_hit_count: 0,
        limit: 0,
    };
    let view = assemble_codex_view(parts.clone());
    assert_eq!(view.turn_id, "turn_0003");
    assert_eq!(view.hidden_filter.hidden_secrets, 1);
    assert_eq!(view.hidden_filter.hidden_timers, 1);
    assert_eq!(view.hidden_filter.policy, CODEX_HIDDEN_FILTER_POLICY);
    assert!(view.voice_anchors.len() <= 1);
    let analysis: Vec<(&str, &str)> =
        view.realtime_analysis.iter().map(|e| (e.label.as_str(), e.value.as_str())).collect();
    assert_eq!(
        analysis,
        vec![
            ("phase", "interlude"),
            ("location", "place:archive"),
            ("open_questions", "8"),
            ("known_entities", "2"),
            ("related_search_hits", "0"),
        ]
    );
    assert_eq!(view.related_recommendations.len(), 5);
    assert_eq!(view.related_recommendations[0].source, "open_question");
    assert_eq!(view.related_recommendations[4].target, "open 5");
    let markdown = render_codex_view_markdown(&view);
    assert!(!markdown.contains("forged"));

    let mut with_hits = parts;
    with_hits.hit_recommendations = vec![CodexRecommendation {
        source: "world_facts".to_owned(),
        target: "fact:1".to_owned(),
        reason: "seal: wax".to_owned(),
    }];
    with_hits.search_hit_count = 1;
    let view = assemble_codex_view(with_hits);
    assert_eq!(view.related_recommendations.len(), 1);
    assert_eq!(view.realtime_analysis[4].value, "1");
}
