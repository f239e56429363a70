use singulari_world::agent_bridge::{
    AgentTurnResponse, NarrativeScene, AGENT_TURN_RESPONSE_SCHEMA_VERSION,
    NARRATIVE_SCENE_SCHEMA_VERSION,
};
use singulari_world::encounter_events::{
    encounter_next_turn_id, parse_u64_str, plan_encounter_surface_events,
    prepare_encounter_surface_event_plan, response_visible_refs, validate_encounter_proposal,
    EncounterProposalError,
};
use singulari_world::encounter_surface::{
    mutation_from_choice, EncounterClosureKind, EncounterPersistence, EncounterProposal,
    EncounterSurfaceClosure, EncounterSurfaceMutation, EncounterSurfacePacket,
    ENCOUNTER_PROPOSAL_SCHEMA_VERSION,
};
use singulari_world::encounter_replay::rebuild_encounter_surface;
use singulari_world::models::TurnChoice;
use singulari_world::scene_director::{SceneDirectorProposal, SceneTransitionProposal};

fn response(choices: Vec<TurnChoice>, proposal: Option<EncounterProposal>) -> AgentTurnResponse {
    AgentTurnResponse {
        schema_version: AGENT_TURN_RESPONSE_SCHEMA_VERSION.to_owned(),
        world_id: "w".to_owned(),
        turn_id: "turn_0006".to_owned(),
        resolution_proposal: None,
        scene_director_proposal: None,
        consequence_proposal: None,
        social_exchange_proposal: None,
        encounter_proposal: proposal,
        visible_scene: NarrativeScene {
            schema_version: NARRATIVE_SCENE_SCHEMA_VERSION.to_owned(),
            speaker: None,
            text_blocks: vec!["문이 반쯤 열려 있다.".to_owned(), "  ".to_owned()],
            tone_notes: Vec::new(),
        },
        adjudication: None,
        canon_event: None,
        entity_updates: Vec::new(),
        character_text_design_updates: Vec::new(),
        extra_contacts: Vec::new(),
        needs_context: Vec::new(),
        next_choices: choices,
        actor_goal_events: Vec::new(),
        actor_move_events: Vec::new(),
        hook_events: Vec::new(),
    }
}

fn choice(slot: u8, tag: &str, intent: &str) -> TurnChoice {
    TurnChoice { slot, tag: tag.to_owned(), intent: intent.to_owned() }
}

fn current() -> EncounterSurfacePacket {
    EncounterSurfacePacket {
        world_id: "w".to_owned(),
        turn_id: "turn_0005".to_owned(),
        scene_id: "place:gate".to_owned(),
        ..EncounterSurfacePacket::default()
    }
}

fn door_mutation() -> EncounterSurfaceMutation {
    let mut m = mutation_from_choice(
        "turn_0006",
        "place:gate",
        &choice(1, "문", "문틈을 살핀다"),
        &Vec::new(),
        vec!["visible_scene.text_blocks[0]".to_owned()],
    );
    m.surface_id = "encounter:door".to_owned();
    for affordance in &mut m.affordances {
        affordance.evidence_refs = vec!["문이 반쯤 열려 있다.".to_owned()];
    }
    m
}

fn proposal(mutations: Vec<EncounterSurfaceMutation>, closures: Vec<EncounterSurfaceClosure>) -> EncounterProposal {
    EncounterProposal {
        schema_version: ENCOUNTER_PROPOSAL_SCHEMA_VERSION.to_owned(),
        world_id: "w".to_owned(),
        turn_id: "turn_0006".to_owned(),
        mutations,
        closures,
    }
}

#[test]
fn next_turn_ids_are_zero_padded() {
    assert_eq!(encounter_next_turn_id("turn_0005").as_deref(), Some("turn_0006"));
    assert_eq!(encounter_next_turn_id("turn_12345").as_deref(), Some("turn_12346"));
    assert_eq!(encounter_next_turn_id("turn_+7").as_deref(), Some("turn_0008"));
    assert_eq!(encounter_next_turn_id("turn_x"), None);
    assert_eq!(encounter_next_turn_id("round_1"), None);
    assert_eq!(parse_u64_str("18446744073709551615"), Some(u64::MAX));
    assert_eq!(parse_u64_str("18446744073709551616"), None);
    assert_eq!(parse_u64_str(""), None);
}

#[test]
fn visible_refs_list_blocks_and_choices() {
    let r = response(vec![choice(2, "흔적", "바닥을 본다")], None);
    let refs = response_visible_refs(&r);
    assert_eq!(
        refs,
        vec![
            "visible_scene.text_blocks[0]",
            "문이 반쯤 열려 있다.",
            "visible_scene.text_blocks[1]",
            "next_choices[slot=2]",
            "흔적",
            "바닥을 본다",
        ]
    );
}

#[test]
fn encounter_proposal_checks_refs_and_targets() {
    let r = response(Vec::new(), None);
    assert!(validate_encounter_proposal(&current(), &r, &proposal(vec![door_mutation()], Vec::new())).is_ok());

    let mut wrong_world = proposal(Vec::new(), Vec::new());
    wrong_world.world_id = "other".to_owned();
    let Err(e) = validate_encounter_proposal(&current(), &r, &wrong_world) else {
        panic!("another world must be refused");
    };
    assert_eq!(e.message(), "encounter proposal world_id/turn_id mismatch");

    let mut hidden = door_mutation();
    hidden.source_refs = vec!["hidden:truth".to_owned(), "visible_scene.text_blocks[0]".to_owned()];
    let Err(e) = validate_encounter_proposal(&current(), &r, &proposal(vec![hidden], Vec::new())) else {
        panic!("hidden refs must be refused");
    };
    assert_eq!(e.message(), "encounter mutation references non-visible refs: hidden:truth");

    let mut blank = door_mutation();
    blank.label = " ".to_owned();
    let Err(e) = validate_encounter_proposal(&current(), &r, &proposal(vec![blank], Vec::new())) else {
        panic!("a blank label must be refused");
    };
    assert!(matches!(e, EncounterProposalError::MutationIncomplete));

    let superseded = EncounterSurfaceClosure {
        surface_id: "encounter:door".to_owned(),
        kind: EncounterClosureKind::Superseded,
        summary: "바뀌었다".to_owned(),
        evidence_refs: vec!["visible_scene.text_blocks[0]".to_owned()],
        replacement_surface_id: None,
    };
    let Err(e) = validate_encounter_proposal(&current(), &r, &proposal(Vec::new(), vec![superseded])) else {
        panic!("a superseding closure needs a replacement");
    };
    assert_eq!(e.message(), "superseded encounter closure requires replacement_surface_id");
}

#[test]
fn plan_orders_proposal_transition_choice_records() {
    let mut base = current();
    let door = door_mutation();
    let seeded = rebuild_encounter_surface(
        base.clone(),
        vec![singulari_world::encounter_surface::EncounterSurfaceEventRecord {
            schema_version: "x".to_owned(),
            world_id: "w".to_owned(),
            turn_id: "turn_0005".to_owned(),
            event_id: "e".to_owned(),
            mutation: Some({
                let mut m = door.clone();
                m.surface_id = "encounter:old".to_owned();
                m.persistence = EncounterPersistence::CurrentScene;
                m
            }),
            closure: None,
            recorded_at: "t".to_owned(),
        }],
    );
    base.active_surfaces = seeded.active_surfaces;
    let closure = EncounterSurfaceClosure {
        surface_id: "encounter:door".to_owned(),
        kind: EncounterClosureKind::Resolved,
        summary: "끝났다".to_owned(),
        evidence_refs: vec!["visible_scene.text_blocks[0]".to_owned()],
        replacement_surface_id: None,
    };
    let mut r = response(
        vec![choice(1, "문", "문틈을 살핀다"), choice(6, "자유서술", "직접")],
        Some(proposal(vec![door], vec![closure])),
    );
    r.scene_director_proposal = Some(SceneDirectorProposal {
        transition: Some(SceneTransitionProposal { transition_reason: "장소 이동".to_owned() }),
        evidence_refs: vec!["visible_scene.text_blocks[0]".to_owned()],
    });
    let plan = plan_encounter_surface_events(&base, r, "2026-01-01T00:00:00+00:00")
        .expect("the proposal is valid");
    assert_eq!(plan.records.len(), 4);
    assert_eq!(plan.records[0].event_id, "encounter_event:turn_0006:00");
    assert!(plan.records[0].mutation.is_some());
    assert_eq!(plan.records[1].closure.as_ref().unwrap().surface_id, "encounter:door");
    let transition = plan.records[2].closure.as_ref().unwrap();
    assert_eq!(transition.surface_id, "encounter:old");
    assert_eq!(transition.kind, EncounterClosureKind::SceneTransition);
    assert_eq!(
        transition.summary,
        "Scene transition closed the current interaction surface: 장소 이동"
    );
    let derived = plan.records[3].mutation.as_ref().unwrap();
    assert_eq!(derived.source_refs, vec!["next_choices[slot=1]"]);
    assert_eq!(plan.records[3].event_id, "encounter_event:turn_0006:03");
    assert_eq!(plan.records[3].recorded_at, "2026-01-01T00:00:00+00:00");
}

#[test]
fn plan_refuses_closure_of_unknown_surface() {
    let closure = EncounterSurfaceClosure {
        surface_id: "encounter:nowhere".to_owned(),
        kind: EncounterClosureKind::Resolved,
        summary: "끝났다".to_owned(),
        evidence_refs: vec!["visible_scene.text_blocks[0]".to_owned()],
        replacement_surface_id: None,
    };
    let r = response(Vec::new(), Some(proposal(Vec::new(), vec![closure])));
    let Err(e) = prepare_encounter_surface_event_plan(&current(), r).expect("clock") else {
        panic!("an unknown surface cannot be closed");
    };
    assert_eq!(e.message(), "encounter closure references unknown surface_id: encounter:nowhere");
}
