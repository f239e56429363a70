use singulari_world::actor_agency::ActorAgencyPacket;
use singulari_world::agent_bridge::{
    agent_output_contract, AgentContextRepairRequest, AgentPrivateAdjudicationContext,
    AgentTurnResponse, NarrativeScene, AGENT_TURN_RESPONSE_SCHEMA_VERSION,
    NARRATIVE_SCENE_SCHEMA_VERSION,
};
use singulari_world::autobiographical_index::AutobiographicalIndexPacket;
use singulari_world::belief_graph::BeliefGraphPacket;
use singulari_world::body_resource::BodyResourcePacket;
use singulari_world::change_ledger::ChangeLedgerPacket;
use singulari_world::character_text_design::CharacterTextDesignPacket;
use singulari_world::consequence_spine::ConsequenceSpinePacket;
use singulari_world::encounter_surface::EncounterSurfacePacket;
use singulari_world::extra_memory::{load_remembered_extras, RememberedExtrasStore};
use singulari_world::location_graph::LocationGraphPacket;
use singulari_world::models::{
    EntityRecords, HiddenState, ProtagonistState, TurnChoice, TurnSnapshot, GUIDE_CHOICE_TAG,
};
use singulari_world::plot_thread::{PlotThreadEventPlan, PlotThreadPacket};
use singulari_world::relationship_graph::{RelationshipGraphEventPlan, RelationshipGraphPacket};
use singulari_world::scene_pressure::{ScenePressureEventPlan, ScenePressurePacket};
use singulari_world::social_exchange::SocialExchangePacket;
use singulari_world::turn_commit::{
    assemble_visible_context, plan_agent_turn_commit, plan_pending_agent_turn,
    prepare_pending_agent_turn, AgentCommitError, AgentCommitInputs, AgentEnqueueError,
    PendingAgentTurn, VisibleContextError, VisibleContextParts, AGENT_PENDING_TURN_SCHEMA_VERSION,
};
use singulari_world::world_lore::{WorldLorePacket, WorldLoreUpdatePlan};
use singulari_world::world_process_clock::WorldProcessClockPacket;

const WORLD: &str = "stw_needs_context";

fn choice(slot: u8, tag: &str, intent: &str) -> TurnChoice {
    TurnChoice { slot, tag: tag.to_owned(), intent: intent.to_owned() }
}

fn choices() -> Vec<TurnChoice> {
    vec![
        choice(1, "단서", "이번 장면에서 새로 드러난 단서를 따라 조심스럽게 움직인다"),
        choice(2, "몸 상태", "현재 몸 상태와 주변 조건이 가능한 행동을 얼마나 제한하는지 살핀다"),
        choice(3, "낮은 부름", "가까운 수풀 뒤쪽에 사람이 있는지 낮은 목소리로 확인한다"),
        choice(4, "기록", "방금 본 단서의 의미를 세계 기록에서 대조한다"),
        choice(5, "먼 시야", "이 장소를 둘러싼 변화 압력을 더 넓게 본다"),
        choice(6, "자유서술", "6 뒤에 직접 행동, 말, 내면 독백을 서술한다"),
        choice(7, GUIDE_CHOICE_TAG, "맡긴다. 세부 내용은 선택 후 드러난다."),
    ]
}

fn response() -> AgentTurnResponse {
    AgentTurnResponse {
        schema_version: AGENT_TURN_RESPONSE_SCHEMA_VERSION.to_owned(),
        world_id: WORLD.to_owned(),
        turn_id: "turn_0001".to_owned(),
        resolution_proposal: None,
        scene_director_proposal: None,
        consequence_proposal: None,
        social_exchange_proposal: None,
        encounter_proposal: None,
        visible_scene: NarrativeScene {
            schema_version: NARRATIVE_SCENE_SCHEMA_VERSION.to_owned(),
            speaker: None,
            text_blocks: vec!["장면을 닫지 않는다.".to_owned()],
            tone_notes: Vec::new(),
        },
        adjudication: None,
        canon_event: None,
        entity_updates: Vec::new(),
        character_text_design_updates: Vec::new(),
        extra_contacts: Vec::new(),
        needs_context: Vec::new(),
        next_choices: choices(),
        actor_goal_events: Vec::new(),
        actor_move_events: Vec::new(),
        hook_events: Vec::new(),
    }
}

fn snapshot() -> TurnSnapshot {
    TurnSnapshot {
        schema_version: "s".to_owned(),
        world_id: WORLD.to_owned(),
        session_id: "session".to_owned(),
        turn_id: "turn_0000".to_owned(),
        phase: "pending".to_owned(),
        current_event: None,
        protagonist_state: ProtagonistState {
            location: "place:gate".to_owned(),
            inventory: Vec::new(),
            body: vec!["tired".to_owned()],
            mind: Vec::new(),
        },
        open_questions: vec!["who marked the door?".to_owned()],
        last_choices: Vec::new(),
    }
}

fn store() -> RememberedExtrasStore {
    load_remembered_extras(None, WORLD).expect("clock").expect("empty store")
}

fn parts(remembered: Option<RememberedExtrasStore>) -> VisibleContextParts {
    VisibleContextParts {
        world_id: WORLD.to_owned(),
        snapshot: snapshot(),
        entities: EntityRecords {
            schema_version: "singulari.entities.v1".to_owned(),
            world_id: WORLD.to_owned(),
            characters: Vec::new(),
            places: Vec::new(),
            factions: Vec::new(),
            items: Vec::new(),
            concepts: Vec::new(),
        },
        recent_scene: vec!["문 앞의 낡은 표식.".to_owned()],
        player_input: "문 앞의 낡은 표식을 읽는다".to_owned(),
        remembered_extras: remembered,
        extra_traces: Vec::new(),
        active_scene_pressure: ScenePressurePacket::default(),
        active_plot_threads: PlotThreadPacket {
            schema_version: "p".to_owned(),
            world_id: WORLD.to_owned(),
            turn_id: "turn_0001".to_owned(),
            active_visible: Vec::new(),
        },
        active_body_resource_state: BodyResourcePacket::default(),
        active_location_graph: LocationGraphPacket::default(),
        active_character_text_design: CharacterTextDesignPacket::default(),
        active_world_lore: WorldLorePacket {
            schema_version: "l".to_owned(),
            world_id: WORLD.to_owned(),
            turn_id: "turn_0001".to_owned(),
            entries: Vec::new(),
        },
        active_relationship_graph: RelationshipGraphPacket {
            schema_version: "r".to_owned(),
            world_id: WORLD.to_owned(),
            turn_id: "turn_0001".to_owned(),
            active_edges: Vec::new(),
        },
        active_actor_agency: ActorAgencyPacket::default(),
        active_change_ledger: ChangeLedgerPacket::default(),
        active_belief_graph: BeliefGraphPacket::default(),
        active_world_process_clock: WorldProcessClockPacket {
            schema_version: "w".to_owned(),
            world_id: WORLD.to_owned(),
            turn_id: "turn_0001".to_owned(),
            visible_processes: Vec::new(),
        },
        active_consequence_spine: ConsequenceSpinePacket::default(),
        active_social_exchange: SocialExchangePacket::default(),
        loaded_encounter_surface: Some(EncounterSurfacePacket::default()),
        active_autobiographical_index: AutobiographicalIndexPacket::default(),
    }
}

fn pending() -> PendingAgentTurn {
    let visible_context = assemble_visible_context(parts(Some(store()))).expect("same world");
    PendingAgentTurn {
        schema_version: "singulari.pending_agent_turn.v1".to_owned(),
        world_id: WORLD.to_owned(),
        turn_id: "turn_0001".to_owned(),
        status: "pending".to_owned(),
        player_input: "문 앞의 낡은 표식을 읽는다".to_owned(),
        selected_choice: None,
        visible_context,
        private_adjudication_context: AgentPrivateAdjudicationContext {
            hidden_timers: Vec::new(),
            unrevealed_constraints: Vec::new(),
            plausibility_gates: Vec::new(),
        },
        output_contract: agent_output_contract(None),
        pending_ref: "agent_bridge/pending_turn.json".to_owned(),
        created_at: "2026-04-29T00:00:00Z".to_owned(),
    }
}

fn inputs() -> AgentCommitInputs {
    AgentCommitInputs {
        default_choices: Vec::new(),
        relationship_graph_events: RelationshipGraphEventPlan {
            world_id: WORLD.to_owned(),
            turn_id: "turn_0001".to_owned(),
            records: Vec::new(),
        },
        world_lore_updates: WorldLoreUpdatePlan {
            world_id: WORLD.to_owned(),
            turn_id: "turn_0001".to_owned(),
            records: Vec::new(),
        },
        plot_thread_events: PlotThreadEventPlan {
            world_id: WORLD.to_owned(),
            turn_id: "turn_0001".to_owned(),
            records: Vec::new(),
        },
        scene_pressure_events: ScenePressureEventPlan {
            world_id: WORLD.to_owned(),
            turn_id: "turn_0001".to_owned(),
            records: Vec::new(),
        },
        visible_context_strings: vec!["prompt_context.visible_context.selected_context_capsules".to_owned()],
        hidden_context_strings: Vec::new(),
        remembered_extras: store(),
        extra_traces: Vec::new(),
    }
}

#[test]
fn visible_context_assembles_facts_and_refuses_foreign_store() {
    let context = assemble_visible_context(parts(Some(store()))).expect("same world");
    assert_eq!(context.location, "place:gate");
    assert_eq!(context.recent_scene, vec!["문 앞의 낡은 표식.".to_owned()]);
    assert_eq!(
        context.known_facts,
        vec!["open_question: who marked the door?".to_owned(), "body: tired".to_owned()]
    );
    assert!(context.voice_anchors.is_empty());
    assert!(context.extra_memory.remembered_extras.is_empty());
    assert_eq!(context.active_relationship_graph.schema_version, "r");

    let mut foreign = store();
    foreign.world_id = "stw_other".to_owned();
    let Err(VisibleContextError::ExtraMemory(err)) = assemble_visible_context(parts(Some(foreign))) else {
        panic!("foreign store");
    };
    assert_eq!(
        err.message(),
        "remembered extras world mismatch: expected=stw_needs_context, actual=stw_other"
    );

    let mut fresh = parts(None);
    fresh.loaded_encounter_surface = None;
    let compiled = assemble_visible_context(fresh).expect("compiled surface");
    assert_eq!(compiled.active_encounter_surface.turn_id, "turn_0001");
    assert_eq!(compiled.active_encounter_surface.scene_id, "place:gate");

    let mut odd = parts(None);
    odd.snapshot.turn_id = "round_3".to_owned();
    let Err(VisibleContextError::InvalidTurnId { turn_id }) = assemble_visible_context(odd) else {
        panic!("turn id");
    };
    assert_eq!(turn_id, "round_3");
}

#[test]
fn needs_context_request_rejects_before_commit_contract() {
    let mut answer = response();
    answer.needs_context.push(AgentContextRepairRequest {
        request_id: "needs_context:turn_0001:ash_mark".to_owned(),
        capsule_kinds: vec!["world_lore".to_owned()],
        query: "ash mark custom".to_owned(),
        reason: "selected capsules do not explain the visible mark".to_owned(),
        evidence_refs: vec!["prompt_context.visible_context.selected_context_capsules".to_owned()],
    });
    let Err(error) = plan_agent_turn_commit(&pending(), answer, inputs(), "2026-04-29T00:00:00Z") else {
        panic!("needs_context must reject before turn commit");
    };
    let AgentCommitError::Response(rejection) = error else {
        panic!("the response check refuses first");
    };
    assert!(rejection.message().contains("requested bounded context repair before commit"));
}

#[test]
fn complete_answer_is_planned_with_every_ledger() {
    let plan = plan_agent_turn_commit(&pending(), response(), inputs(), "2026-04-29T00:00:00Z")
        .expect("a complete answer commits");
    assert_eq!(plan.actor_agency.goal_records.len(), 0);
    assert_eq!(plan.character_text_design.records.len(), 0);
    assert_eq!(plan.change.records.len(), 0);
    assert_eq!(plan.extra_memory.world_id, WORLD);
    assert_eq!(plan.extra_memory.remembered_store.updated_at, "2026-04-29T00:00:00Z");

    let mut wrong_turn = response();
    wrong_turn.turn_id = "turn_0002".to_owned();
    let Err(AgentCommitError::Response(_)) =
        plan_agent_turn_commit(&pending(), wrong_turn, inputs(), "2026-04-29T00:00:00Z")
    else {
        panic!("an answer to another turn is refused");
    };
}

fn hidden() -> HiddenState {
    HiddenState {
        schema_version: "h".to_owned(),
        world_id: WORLD.to_owned(),
        secrets: Vec::new(),
        timers: Vec::new(),
    }
}

#[test]
fn pending_turn_is_planned_from_trimmed_input() {
    let pending = plan_pending_agent_turn(
        WORLD,
        "  문 앞의 낡은 표식을 읽는다 ",
        None,
        &hidden(),
        parts(Some(store())),
        Some(2),
        "agent_bridge/pending_turn.json",
        "2026-04-29T00:00:00Z",
    )
    .expect("queued");
    assert_eq!(pending.schema_version, AGENT_PENDING_TURN_SCHEMA_VERSION);
    assert_eq!(pending.turn_id, "turn_0001");
    assert_eq!(pending.status, "pending");
    assert_eq!(pending.player_input, "문 앞의 낡은 표식을 읽는다");
    assert!(pending.selected_choice.is_none());
    assert_eq!(pending.output_contract.narrative_level, 2);
    assert_eq!(pending.private_adjudication_context.plausibility_gates.len(), 5);
    assert_eq!(pending.visible_context.location, "place:gate");
    assert_eq!(pending.created_at, "2026-04-29T00:00:00Z");

    let again = plan_pending_agent_turn(
        WORLD, "다시", Some(&pending), &hidden(), parts(Some(store())), None, "p", "t",
    )
    .expect_err("a turn is still pending");
    assert_eq!(
        again.message(),
        "agent turn already pending: world_id=stw_needs_context, turn_id=turn_0001, pending_ref=agent_bridge/pending_turn.json"
    );

    let blank = plan_pending_agent_turn(WORLD, " \n ", None, &hidden(), parts(None), None, "p", "t")
        .expect_err("blank input");
    assert!(matches!(blank, AgentEnqueueError::EmptyInput));
    assert_eq!(blank.message(), "agent bridge input must not be empty");

    let mut odd = parts(None);
    odd.snapshot.turn_id = "round_3".to_owned();
    let bad = plan_pending_agent_turn(WORLD, "go", None, &hidden(), odd, None, "p", "t")
        .expect_err("turn id");
    assert!(matches!(bad, AgentEnqueueError::InvalidTurnId { .. }));

    let stamped = prepare_pending_agent_turn(WORLD, "go", None, &hidden(), parts(None), None, "p")
        .expect("clock")
        .expect("queued");
    assert!(!stamped.created_at.is_empty());
}
