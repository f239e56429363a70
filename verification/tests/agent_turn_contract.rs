use singulari_world::agent_bridge::{
    agent_output_contract, agent_voice_anchors, post_commit_materialization_event,
    submitted_player_input, POST_COMMIT_MATERIALIZATION_EVENT_SCHEMA_VERSION,
};
use singulari_world::models::{
    BodyNeeds, CharacterBody, CharacterRecord, CharacterVoiceAnchor, EntityName, EntityRecords,
    TraitSet,
};

fn anchor(speech: &[&str]) -> CharacterVoiceAnchor {
    CharacterVoiceAnchor {
        speech: speech.iter().map(|s| (*s).to_owned()).collect(),
        endings: Vec::new(),
        tone: Vec::new(),
        gestures: Vec::new(),
        habits: Vec::new(),
        drift: Vec::new(),
    }
}

fn character(id: &str, name: &str, voice_anchor: CharacterVoiceAnchor) -> CharacterRecord {
    CharacterRecord {
        id: id.to_owned(),
        name: EntityName {
            visible: name.to_owned(),
            native: None,
        },
        role: "npc".to_owned(),
        knowledge_state: "player_visible".to_owned(),
        traits: TraitSet {
            confirmed: Vec::new(),
            rumored: Vec::new(),
            hidden: Vec::new(),
        },
        voice_anchor,
        body: CharacterBody {
            injuries: Vec::new(),
            needs: BodyNeeds {
                hunger: "stable".to_owned(),
                thirst: "stable".to_owned(),
                fatigue: "stable".to_owned(),
            },
        },
        history: Vec::new(),
        relationships: Vec::new(),
    }
}

#[test]
fn submitted_input_is_trimmed_and_blank_input_refused() {
    assert_eq!(
        submitted_player_input("  open the door \n"),
        Some("open the door".to_owned())
    );
    assert_eq!(submitted_player_input(" \t\n "), None);
    assert_eq!(submitted_player_input(""), None);
}

#[test]
fn output_contract_follows_the_narrative_level() {
    let contract = agent_output_contract(Some(2));
    assert_eq!(contract.language, "ko");
    assert!(contract.must_return_json);
    assert!(contract.hidden_truth_must_not_appear_in_visible_text);
    assert_eq!(contract.narrative_level, 2);
    assert_eq!(contract.narrative_budget.standard_choice_turn_blocks, 9);

    let clamped = agent_output_contract(Some(9));
    assert_eq!(clamped.narrative_level, 3);
    assert_eq!(clamped.narrative_budget.target_chars, 7000);

    let default = agent_output_contract(None);
    assert_eq!(default.narrative_level, 1);
    assert_eq!(default.narrative_budget.target_chars, 1400);
}

#[test]
fn voice_anchors_skip_characters_without_voice() {
    let entities = EntityRecords {
        schema_version: "singulari.entities.v1".to_owned(),
        world_id: "stw_voice".to_owned(),
        characters: vec![
            character("char:guard", "Gate Guard", anchor(&["short questions"])),
            character("char:crowd", "Crowd", anchor(&[])),
            character("char:clerk", "Clerk", anchor(&["formal", "slow"])),
        ],
        places: Vec::new(),
        factions: Vec::new(),
        items: Vec::new(),
        concepts: Vec::new(),
    };
    let anchors = agent_voice_anchors(&entities);
    assert_eq!(anchors.len(), 2);
    assert_eq!(anchors[0].character_id, "char:guard");
    assert_eq!(anchors[0].name, "Gate Guard");
    assert_eq!(anchors[0].anchor.speech, vec!["short questions".to_owned()]);
    assert_eq!(anchors[1].character_id, "char:clerk");
    assert_eq!(
        anchors[1].anchor.speech,
        vec!["formal".to_owned(), "slow".to_owned()]
    );
}

#[test]
fn materialization_event_records_success_and_failure() {
    let ok = post_commit_materialization_event("stw_a", "turn_0003", "extra_memory", None).expect("clock");
    assert_eq!(ok.schema_version, POST_COMMIT_MATERIALIZATION_EVENT_SCHEMA_VERSION);
    assert_eq!(ok.world_id, "stw_a");
    assert_eq!(ok.turn_id, "turn_0003");
    assert_eq!(ok.component, "extra_memory");
    assert_eq!(ok.status, "committed");
    assert_eq!(ok.error, None);
    assert!(!ok.recorded_at.is_empty());

    let failed = post_commit_materialization_event(
        "stw_a",
        "turn_0003",
        "belief_graph",
        Some("disk full".to_owned()),
    ).expect("clock");
    assert_eq!(failed.status, "failed");
    assert_eq!(failed.error, Some("disk full".to_owned()));
}
