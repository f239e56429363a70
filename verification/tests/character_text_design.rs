use singulari_world::character_text_design::{
    build_character_text_design_from_events, compile_character_text_design_packet,
    compile_character_text_design_with_projection, prepare_character_text_design_event_plan,
    CharacterTextDesign, CharacterTextDesignError, CharacterTextDesignPacket,
    CHARACTER_TEXT_DESIGN_SCHEMA_VERSION,
};
use singulari_world::models::{
    BodyNeeds, CharacterBody, CharacterRecord, CharacterVoiceAnchor, EntityName, EntityRecords,
    TraitSet,
};
use singulari_world::response_context::{
    AgentCharacterTextDesignUpdate, AgentContextProjection, AgentContextProjectionItem,
    ContextVisibility,
};

fn guard(voice_anchor: CharacterVoiceAnchor) -> CharacterRecord {
    CharacterRecord {
        id: "char:guard".to_owned(),
        name: EntityName {
            visible: "Gate Guard".to_owned(),
            native: None,
        },
        role: "guard".to_owned(),
        knowledge_state: "player_visible".to_owned(),
        traits: TraitSet {
            confirmed: Vec::new(),
            rumored: Vec::new(),
            hidden: Vec::new(),
        },
        voice_anchor,
        body: CharacterBody {
            injuries: Vec::new(),
            needs: BodyNeeds {
                hunger: "stable".to_owned(),
                thirst: "stable".to_owned(),
                fatigue: "stable".to_owned(),
            },
        },
        history: Vec::new(),
        relationships: Vec::new(),
    }
}

#[test]
fn compiles_voice_anchor_as_text_design() {
    let entities = EntityRecords {
        schema_version: "singulari.entities.v1".to_owned(),
        world_id: "stw_voice".to_owned(),
        characters: vec![guard(CharacterVoiceAnchor {
            speech: vec!["short procedural questions".to_owned()],
            endings: Vec::new(),
            tone: Vec::new(),
            gestures: Vec::new(),
            habits: Vec::new(),
            drift: Vec::new(),
        })],
        places: Vec::new(),
        factions: Vec::new(),
        items: Vec::new(),
        concepts: Vec::new(),
    };

    let packet = compile_character_text_design_packet(&entities);

    assert_eq!(packet.active_designs.len(), 1);
    assert_eq!(packet.active_designs[0].entity_id, "char:guard");
    assert_eq!(
        packet.active_designs[0].speech,
        vec!["short procedural questions".to_owned()]
    );
}

#[test]
fn projection_overrides_character_text_design() {
    let mut entities = EntityRecords {
        schema_version: "singulari.entities.v1".to_owned(),
        world_id: "stw_voice".to_owned(),
        characters: Vec::new(),
        places: Vec::new(),
        factions: Vec::new(),
        items: Vec::new(),
        concepts: Vec::new(),
    };
    entities.characters.push(guard(CharacterVoiceAnchor::empty()));
    let projection = AgentContextProjection {
        world_id: "stw_voice".to_owned(),
        character_text_design_summaries: vec![AgentContextProjectionItem {
            target: "char:guard".to_owned(),
            summary: "short clipped warnings".to_owned(),
            source_event_id: "ctx_1".to_owned(),
            turn_id: "turn_0002".to_owned(),
            visibility: ContextVisibility::PlayerVisible,
        }],
        ..AgentContextProjection::default()
    };

    let packet = compile_character_text_design_with_projection(&entities, &projection);

    assert_eq!(packet.active_designs.len(), 1);
    assert_eq!(packet.active_designs[0].entity_id, "char:guard");
    assert!(packet.active_designs[0].speech[0].contains("short clipped"));
}

#[test]
fn materializes_character_text_design_events_over_base_packet() {
    let base_packet = CharacterTextDesignPacket {
        world_id: "stw_voice".to_owned(),
        active_designs: vec![CharacterTextDesign {
            schema_version: CHARACTER_TEXT_DESIGN_SCHEMA_VERSION.to_owned(),
            entity_id: "char:guard".to_owned(),
            visible_name: "Gate Guard".to_owned(),
            role: "guard".to_owned(),
            visibility: "player_visible".to_owned(),
            speech: vec!["brief questions".to_owned()],
            endings: Vec::new(),
            tone: Vec::new(),
            gestures: Vec::new(),
            habits: Vec::new(),
            drift: Vec::new(),
            source_refs: Vec::new(),
        }],
        ..CharacterTextDesignPacket::default()
    };
    let plan = prepare_character_text_design_event_plan(
        "stw_voice",
        "turn_0002",
        &[AgentCharacterTextDesignUpdate {
            character_id: "char:guard".to_owned(),
            speech_pattern: "short clipped warnings".to_owned(),
            gesture_pattern: ["keeps one hand on the", "gate chain"].join(" "),
            drift_note: "warms only after proven caution".to_owned(),
            visibility: ContextVisibility::PlayerVisible,
            evidence_refs: vec!["visible_scene.text_blocks[0]".to_owned()],
        }],
    ).expect("clock")
    .unwrap();

    let packet = build_character_text_design_from_events(&base_packet, &plan.records);

    assert_eq!(packet.active_designs.len(), 1);
    assert_eq!(packet.active_designs[0].visible_name, "Gate Guard");
    assert_eq!(
        packet.compiler_policy.source,
        "materialized_from_character_text_design_events_v1"
    );
}

#[test]
fn update_validation_and_record_ids() {
    let update = AgentCharacterTextDesignUpdate {
        character_id: "  char:new ".to_owned(),
        speech_pattern: "slow".to_owned(),
        gesture_pattern: "nods".to_owned(),
        drift_note: "opens up".to_owned(),
        visibility: ContextVisibility::PlayerVisible,
        evidence_refs: vec![" ref ".to_owned()],
    };
    let plan = prepare_character_text_design_event_plan("w", "turn_0003", &[update.clone(), update.clone()]).expect("clock")
        .unwrap();
    assert_eq!(plan.records[1].event_id, "character_text_design_event:turn_0003:01");
    assert_eq!(plan.records[0].character_id, "char:new");
    assert_eq!(plan.records[0].evidence_refs, vec!["ref".to_owned()]);
    let mut blank = update.clone();
    blank.drift_note = "  ".to_owned();
    assert_eq!(
        prepare_character_text_design_event_plan("w", "t", &[blank]).expect("clock").unwrap_err(),
        CharacterTextDesignError::EmptyRequiredField
    );
    let mut no_refs = update;
    no_refs.evidence_refs = vec!["".to_owned()];
    assert_eq!(
        prepare_character_text_design_event_plan("w", "t", &[no_refs]).expect("clock").unwrap_err(),
        CharacterTextDesignError::MissingEvidenceRefs
    );
    let packet = build_character_text_design_from_events(&CharacterTextDesignPacket::default(), &plan.records);
    assert_eq!(packet.active_designs.len(), 1);
    assert_eq!(packet.active_designs[0].visible_name, "char:new");
    assert_eq!(packet.active_designs[0].role, "context-designed character");
}
