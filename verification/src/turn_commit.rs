//! The pending turn handed to the narrating agent, and the plan that
//! committing the agent's answer carries out: every check, then every event
//! plan, decided before anything is written.
use crate::actor_agency::{
    ActorAgencyEventPlan, ActorAgencyError, ActorAgencyPacket, actor_plan_is, first_bad_goal, first_bad_move,
    goal_update_error, known_actor_list, move_update_error, plan_actor_agency_events,
};
use crate::agent_bridge::{
    AgentOutputContract, AgentPrivateAdjudicationContext, AgentResponseRejection, AgentTurnResponse,
    AgentVoiceAnchor, PendingAgentChoice, agent_voice_anchors, anchored_characters, canonical_agent_turn_response,
    canonical_is, known_facts, known_facts_of, response_fault, response_fault_of, validate_agent_response,
    voice_anchor_of, next_turn_id, next_turn_of_id, output_contract_is, parse_u32_text, picked_choice,
    private_context, private_context_is, selected_choice, submitted_player_input, agent_output_contract,
};
use crate::autobiographical_index::AutobiographicalIndexPacket;
use crate::belief_graph::{BeliefEventPlan, BeliefGraphPacket, belief_plan_is, plan_belief_events};
use crate::body_resource::BodyResourcePacket;
use crate::change_ledger::{
    ChangeEventPlan, ChangeEventPlanInput, ChangeLedgerPacket, change_record_is, design_seeds, lore_seeds,
    plan_change_events, plot_seeds, pressure_seeds, relationship_seeds,
};
use crate::character_text_design::{
    CharacterTextDesignError, CharacterTextDesignEventPlan, CharacterTextDesignPacket,
    build_character_text_design_event_plan, record_of_update, update_error,
};
use crate::consequence_spine::{
    ConsequenceAuditError, ConsequenceEventPlan, ConsequenceProposal, ConsequenceSpineError, ConsequenceSpinePacket,
    audit_consequence_contract, audit_fault_of, contract_fault, plan_consequence_events, plan_drafts, plan_refused,
    proposal_fault, stamped_from, fault_of as consequence_fault_of,
};
use crate::encounter_events::{
    fault_of as encounter_fault_of, plan_encounter_surface_events, plan_fault, plan_fits, plan_records_are,
};
use crate::encounter_surface::{
    EncounterSurfaceEventPlan, EncounterSurfacePacket, compile_encounter_surface_packet, encounter_packet_compiled,
};
use crate::encounter_events::EncounterProposalError;
use crate::extra_memory::{
    ExtraMemoryError, ExtraMemoryPacket, ExtraMemoryProjectionPlan, ExtraTrace, RememberedExtrasStore,
    all_scores_fit, contact_error, extra_error_text, first_invalid, plan_extra_memory_projection, projection_plan_is, refused_store, retrieve_extra_memory_packet, selected_extras,
    selected_traces, store_extras, trace_views, extra_views,
};
use crate::location_graph::LocationGraphPacket;
use crate::models::{
    EntityRecords, GUIDE_CHOICE_REDACTED_INTENT, GUIDE_CHOICE_SLOT, HiddenState, TurnChoice, TurnSnapshot,
};
use crate::clock::now_rfc3339;
use crate::agent_bridge::AgentExtraContact;
use crate::resolution::ResolutionProposal;
use crate::response_context::AgentCharacterTextDesignUpdate;
use crate::social_exchange::SocialExchangeProposal;
use crate::plot_thread::{PlotThreadEventPlan, PlotThreadPacket};
use crate::relationship_graph::{RelationshipGraphEventPlan, RelationshipGraphPacket};
use crate::scene_pressure::{ScenePressureEventPlan, ScenePressurePacket};
use crate::social_exchange::SocialExchangePacket;
use crate::text::{clone_strings, concat2, concat3, concat4, starts_with, str_eq, trim, views};
use crate::world_lore::{WorldLorePacket, WorldLoreUpdatePlan};
use crate::world_process_clock::WorldProcessClockPacket;
use vstd::prelude::*;

verus! {

/// What the narrating agent sees of the world for the next turn.
#[derive(Debug, Clone)]
pub struct AgentVisibleContext {
    pub location: String,
    pub recent_scene: Vec<String>,
    pub known_facts: Vec<String>,
    pub voice_anchors: Vec<AgentVoiceAnchor>,
    pub extra_memory: ExtraMemoryPacket,
    pub active_scene_pressure: ScenePressurePacket,
    pub active_plot_threads: PlotThreadPacket,
    pub active_body_resource_state: BodyResourcePacket,
    pub active_location_graph: LocationGraphPacket,
    pub active_character_text_design: CharacterTextDesignPacket,
    pub active_world_lore: WorldLorePacket,
    pub active_relationship_graph: RelationshipGraphPacket,
    pub active_actor_agency: ActorAgencyPacket,
    pub active_change_ledger: ChangeLedgerPacket,
    pub active_belief_graph: BeliefGraphPacket,
    pub active_world_process_clock: WorldProcessClockPacket,
    pub active_consequence_spine: ConsequenceSpinePacket,
    pub active_social_exchange: SocialExchangePacket,
    pub active_encounter_surface: EncounterSurfacePacket,
    pub active_autobiographical_index: AutobiographicalIndexPacket,
}

/// A turn queued for the narrating agent.
#[derive(Debug, Clone)]
pub struct PendingAgentTurn {
    pub schema_version: String,
    pub world_id: String,
    pub turn_id: String,
    pub status: String,
    pub player_input: String,
    pub selected_choice: Option<PendingAgentChoice>,
    pub visible_context: AgentVisibleContext,
    pub private_adjudication_context: AgentPrivateAdjudicationContext,
    pub output_contract: AgentOutputContract,
    pub pending_ref: String,
    pub created_at: String,
}

/// What the visible context is assembled from: the turn's snapshot, entities
/// and last scene, the extra memory store and traces as read (`None` when
/// there is no store), the packets of the world's ledgers as loaded, and the
/// encounter surface packet as stored (`None` when there is none yet).
#[derive(Debug, Clone)]
pub struct VisibleContextParts {
    pub world_id: String,
    pub snapshot: TurnSnapshot,
    pub entities: EntityRecords,
    pub recent_scene: Vec<String>,
    pub player_input: String,
    pub remembered_extras: Option<RememberedExtrasStore>,
    pub extra_traces: Vec<ExtraTrace>,
    pub active_scene_pressure: ScenePressurePacket,
    pub active_plot_threads: PlotThreadPacket,
    pub active_body_resource_state: BodyResourcePacket,
    pub active_location_graph: LocationGraphPacket,
    pub active_character_text_design: CharacterTextDesignPacket,
    pub active_world_lore: WorldLorePacket,
    pub active_relationship_graph: RelationshipGraphPacket,
    pub active_actor_agency: ActorAgencyPacket,
    pub active_change_ledger: ChangeLedgerPacket,
    pub active_belief_graph: BeliefGraphPacket,
    pub active_world_process_clock: WorldProcessClockPacket,
    pub active_consequence_spine: ConsequenceSpinePacket,
    pub active_social_exchange: SocialExchangePacket,
    pub loaded_encounter_surface: Option<EncounterSurfacePacket>,
    pub active_autobiographical_index: AutobiographicalIndexPacket,
}

/// `v` is the visible context assembled from `parts` for the world
/// `world_id` and the input `player_input` (see `assemble_visible_context`).
pub open spec fn visible_context_is(
    v: AgentVisibleContext,
    world_id: Seq<char>,
    player_input: Seq<char>,
    parts: VisibleContextParts,
) -> bool {
    &&& (parts.remembered_extras matches Some(s) ==> s.world_id@ == world_id)
    &&& v.location@ == parts.snapshot.protagonist_state.location@
    &&& v.recent_scene@ == parts.recent_scene@
    &&& views(v.known_facts@) == known_facts_of(parts.snapshot)
    &&& v.voice_anchors@.len() == anchored_characters(parts.entities.characters@).len()
    &&& forall|i: int|
        0 <= i < v.voice_anchors@.len() ==> voice_anchor_of(
            anchored_characters(parts.entities.characters@)[i],
            #[trigger] v.voice_anchors@[i],
        )
    &&& extra_views(v.extra_memory.remembered_extras@) == selected_extras(
        store_extras(parts.remembered_extras),
        parts.snapshot.protagonist_state.location@,
        player_input,
    )
    &&& trace_views(v.extra_memory.recent_extra_traces@) == selected_traces(
        trace_views(parts.extra_traces@),
        parts.snapshot.protagonist_state.location@,
        player_input,
        extra_views(v.extra_memory.remembered_extras@),
    )
    &&& v.active_scene_pressure == parts.active_scene_pressure
    &&& v.active_plot_threads == parts.active_plot_threads
    &&& v.active_body_resource_state == parts.active_body_resource_state
    &&& v.active_location_graph == parts.active_location_graph
    &&& v.active_character_text_design == parts.active_character_text_design
    &&& v.active_world_lore == parts.active_world_lore
    &&& v.active_relationship_graph == parts.active_relationship_graph
    &&& v.active_actor_agency == parts.active_actor_agency
    &&& v.active_change_ledger == parts.active_change_ledger
    &&& v.active_belief_graph == parts.active_belief_graph
    &&& v.active_world_process_clock == parts.active_world_process_clock
    &&& v.active_consequence_spine == parts.active_consequence_spine
    &&& v.active_social_exchange == parts.active_social_exchange
    &&& match parts.loaded_encounter_surface {
        Some(e) => v.active_encounter_surface == e,
        None => encounter_packet_compiled(
            v.active_encounter_surface,
            world_id,
            next_turn_of_id(parts.snapshot.turn_id@)->0,
            parts.snapshot.protagonist_state.location@,
            parts.snapshot.last_choices@,
            parts.active_scene_pressure,
            parts.active_location_graph,
            parts.active_body_resource_state,
            parts.active_social_exchange,
        ),
    }
    &&& v.active_autobiographical_index == parts.active_autobiographical_index
}

/// Why the visible context of a turn could not be assembled.
#[derive(Debug)]
pub enum VisibleContextError {
    InvalidTurnId { turn_id: String },
    ExtraMemory(ExtraMemoryError),
}

/// The visible context of the next turn: the protagonist's location, the
/// last scene, the known facts, the voice anchors of the characters that
/// have one, the extra memory recalled at the location, the ledgers' packets
/// as they are, and the encounter surface as stored or, when none is, as
/// compiled for the next turn. Refused when the snapshot's turn id is not
/// `turn_` and a number, or when the remembered-extras store is of another
/// world.
pub fn assemble_visible_context(parts: VisibleContextParts) -> (r: Result<AgentVisibleContext, VisibleContextError>)
    requires
        all_scores_fit(store_extras(parts.remembered_extras)),
        !(starts_with(parts.snapshot.turn_id@, "turn_"@) && parse_u32_text(
            parts.snapshot.turn_id@.subrange(5, parts.snapshot.turn_id@.len() as int),
        ) == Some(u32::MAX as nat)),
    ensures
        match r {
            Ok(v) => next_turn_of_id(parts.snapshot.turn_id@) is Some && visible_context_is(
                v,
                parts.world_id@,
                parts.player_input@,
                parts,
            ),
            Err(VisibleContextError::InvalidTurnId { turn_id }) => next_turn_of_id(parts.snapshot.turn_id@) is None
                && turn_id == parts.snapshot.turn_id,
            Err(VisibleContextError::ExtraMemory(e)) => next_turn_of_id(parts.snapshot.turn_id@) is Some
                && refused_store(parts.remembered_extras, parts.world_id@, e),
        },
{
    let next = match next_turn_id(parts.snapshot.turn_id.as_str()) {
        Some(t) => t,
        None => {
            return Err(VisibleContextError::InvalidTurnId { turn_id: parts.snapshot.turn_id.clone() });
        },
    };
    let extra_memory = match retrieve_extra_memory_packet(
        parts.remembered_extras,
        parts.world_id.as_str(),
        &parts.extra_traces,
        &parts.snapshot,
        parts.player_input.as_str(),
    ) {
        Ok(p) => p,
        Err(e) => return Err(VisibleContextError::ExtraMemory(e)),
    };
    let active_encounter_surface = match parts.loaded_encounter_surface {
        Some(e) => e,
        None => compile_encounter_surface_packet(
            parts.world_id.as_str(),
            next.as_str(),
            parts.snapshot.protagonist_state.location.as_str(),
            parts.snapshot.last_choices.as_slice(),
            &parts.active_scene_pressure,
            &parts.active_location_graph,
            &parts.active_body_resource_state,
            &parts.active_social_exchange,
        ),
    };
    let facts = known_facts(&parts.snapshot);
    let anchors = agent_voice_anchors(&parts.entities);
    Ok(
        AgentVisibleContext {
            location: parts.snapshot.protagonist_state.location,
            recent_scene: parts.recent_scene,
            known_facts: facts,
            voice_anchors: anchors,
            extra_memory,
            active_scene_pressure: parts.active_scene_pressure,
            active_plot_threads: parts.active_plot_threads,
            active_body_resource_state: parts.active_body_resource_state,
            active_location_graph: parts.active_location_graph,
            active_character_text_design: parts.active_character_text_design,
            active_world_lore: parts.active_world_lore,
            active_relationship_graph: parts.active_relationship_graph,
            active_actor_agency: parts.active_actor_agency,
            active_change_ledger: parts.active_change_ledger,
            active_belief_graph: parts.active_belief_graph,
            active_world_process_clock: parts.active_world_process_clock,
            active_consequence_spine: parts.active_consequence_spine,
            active_social_exchange: parts.active_social_exchange,
            active_encounter_surface,
            active_autobiographical_index: parts.active_autobiographical_index,
        },
    )
}


/// What committing a turn takes besides the pending turn and the answer:
/// the next choices a turn starts from, the event plans of the relationship
/// graph, world lore, plot threads and scene pressure (prepared by their own
/// ledgers), the string values of the prompt context's visible and
/// adjudication-only parts, and the extra memory store and traces as read.
#[derive(Debug, Clone)]
pub struct AgentCommitInputs {
    pub default_choices: Vec<TurnChoice>,
    pub relationship_graph_events: RelationshipGraphEventPlan,
    pub world_lore_updates: WorldLoreUpdatePlan,
    pub plot_thread_events: PlotThreadEventPlan,
    pub scene_pressure_events: ScenePressureEventPlan,
    pub visible_context_strings: Vec<String>,
    pub hidden_context_strings: Vec<String>,
    pub remembered_extras: RememberedExtrasStore,
    pub extra_traces: Vec<ExtraTrace>,
}

/// Every plan a committed turn writes (the answer as committed is its
/// canonical form, `canonical_agent_turn_response`).
#[derive(Debug, Clone)]
pub struct AgentTurnCommitPlan {
    pub actor_agency: ActorAgencyEventPlan,
    pub character_text_design: CharacterTextDesignEventPlan,
    pub change: ChangeEventPlan,
    pub belief: BeliefEventPlan,
    pub consequence: ConsequenceEventPlan,
    pub encounter_surface: EncounterSurfaceEventPlan,
    pub extra_memory: ExtraMemoryProjectionPlan,
}

/// Why a turn's answer was refused before anything was written.
#[derive(Debug)]
pub enum AgentCommitError {
    Response(AgentResponseRejection),
    ActorAgency(ActorAgencyError),
    CharacterTextDesign(CharacterTextDesignError),
    ConsequenceAudit(ConsequenceAuditError),
    Consequence(ConsequenceSpineError),
    Encounter(EncounterProposalError),
    ExtraMemory(ExtraMemoryError),
}

/// The outcome of planning the actor agency events.
pub open spec fn actor_outcome(
    world_id: Seq<char>,
    turn_id: Seq<char>,
    graph: RelationshipGraphPacket,
    response: AgentTurnResponse,
    t: Seq<char>,
    r: Result<ActorAgencyEventPlan, ActorAgencyError>,
) -> bool {
    let known = known_actor_list(graph, response);
    let g = first_bad_goal(response.actor_goal_events@, known);
    let m = first_bad_move(response.actor_move_events@, known);
    &&& (r is Ok <==> g < 0 && m < 0)
    &&& (g >= 0 ==> (r matches Err(e) && goal_update_error(response.actor_goal_events@[g], known, e)))
    &&& (g < 0 && m >= 0 ==> (r matches Err(e) && move_update_error(response.actor_move_events@[m], known, e)))
    &&& (r matches Ok(plan) ==> actor_plan_is(plan, world_id, turn_id, response, t))
}

/// The outcome of planning the character text design events.
pub open spec fn design_outcome(
    world_id: Seq<char>,
    turn_id: Seq<char>,
    updates: Seq<AgentCharacterTextDesignUpdate>,
    t: Seq<char>,
    r: Result<CharacterTextDesignEventPlan, CharacterTextDesignError>,
) -> bool {
    match r {
        Ok(plan) => {
            &&& plan.world_id@ == world_id
            &&& plan.turn_id@ == turn_id
            &&& plan.records@.len() == updates.len()
            &&& forall|i: int|
                0 <= i < updates.len() ==> update_error(#[trigger] updates[i]) is None && record_of_update(
                    plan.records@[i],
                    updates[i],
                    world_id,
                    turn_id,
                    i as nat,
                    t,
                )
        },
        Err(e) => exists|i: int|
            0 <= i < updates.len() && (forall|k: int| 0 <= k < i ==> update_error(#[trigger] updates[k]) is None)
                && update_error(updates[i]) == Some(e),
    }
}

/// The outcome of planning the consequence events.
pub open spec fn consequence_outcome(
    current: ConsequenceSpinePacket,
    response: AgentTurnResponse,
    t: Seq<char>,
    r: Result<ConsequenceEventPlan, ConsequenceSpineError>,
) -> bool {
    &&& (r is Err <==> plan_refused(current, response.consequence_proposal))
    &&& match r {
        Ok(plan) => {
            &&& plan.world_id@ == current.world_id@
            &&& plan.turn_id@ == current.turn_id@
            &&& stamped_from(
                plan.records@,
                0,
                plan_drafts(
                    current,
                    response.consequence_proposal,
                    response.resolution_proposal,
                    response.social_exchange_proposal,
                ),
                current,
                t,
            )
        },
        Err(e) => proposal_fault(current, response.consequence_proposal->0) == Some(consequence_fault_of(e)),
    }
}

/// The outcome of planning the encounter surface events.
pub open spec fn encounter_outcome(
    current: EncounterSurfacePacket,
    response: AgentTurnResponse,
    t: Seq<char>,
    r: Result<EncounterSurfaceEventPlan, EncounterProposalError>,
) -> bool {
    &&& (r is Err <==> plan_fault(current, response) is Some)
    &&& (r matches Err(e) ==> plan_fault(current, response) == Some(encounter_fault_of(e)))
    &&& (r matches Ok(plan) ==> plan_records_are(plan.records@, current, response, t))
}

/// The outcome of planning the extra memory projection.
pub open spec fn extra_outcome(
    world_id: Seq<char>,
    turn_id: Seq<char>,
    location_id: Seq<char>,
    contacts: Seq<AgentExtraContact>,
    store: RememberedExtrasStore,
    traces: Seq<ExtraTrace>,
    t: Seq<char>,
    r: Result<ExtraMemoryProjectionPlan, ExtraMemoryError>,
) -> bool {
    match r {
        Ok(plan) => first_invalid(contacts) is None && projection_plan_is(
            plan,
            world_id,
            turn_id,
            location_id,
            contacts,
            store,
            traces,
            t,
            t,
        ),
        Err(e) => first_invalid(contacts) matches Some(k) && contact_error(e, contacts[k]),
    }
}

/// The change plan of a turn: one record per seed of the given plans and the
/// character text design plan made here, in ledger order.
pub open spec fn change_outcome(
    plan: ChangeEventPlan,
    world_id: Seq<char>,
    turn_id: Seq<char>,
    inputs: AgentCommitInputs,
    design: CharacterTextDesignEventPlan,
    t: Seq<char>,
) -> bool {
    let seeds = relationship_seeds(inputs.relationship_graph_events) + lore_seeds(inputs.world_lore_updates)
        + design_seeds(design) + plot_seeds(inputs.plot_thread_events) + pressure_seeds(inputs.scene_pressure_events);
    &&& plan.world_id@ == world_id
    &&& plan.turn_id@ == turn_id
    &&& plan.records@.len() == seeds.len()
    &&& forall|k: int|
        0 <= k < seeds.len() ==> change_record_is(#[trigger] plan.records@[k], world_id, turn_id, k, seeds[k], t)
}


/// How committing `c`, the canonical form of the answer, ends: the first
/// check that fails, in the order response, actor agency, character text
/// design, consequence audit, consequence plan, encounter surface, extra
/// memory, refuses with its error; otherwise every plan is made from the
/// answer stamped `t`.
pub open spec fn commit_outcome(
    pending: PendingAgentTurn,
    inputs: AgentCommitInputs,
    c: AgentTurnResponse,
    t: Seq<char>,
    r: Result<AgentTurnCommitPlan, AgentCommitError>,
) -> bool {
    let world = pending.world_id@;
    let turn = pending.turn_id@;
    let vc = pending.visible_context;
    let rf = response_fault(world, turn, pending.private_adjudication_context, c, inputs.default_choices@);
    let known = known_actor_list(vc.active_relationship_graph, c);
    let actor_fails = first_bad_goal(c.actor_goal_events@, known) >= 0 || first_bad_move(c.actor_move_events@, known) >= 0;
    let design_fails = exists|i: int|
        0 <= i < c.character_text_design_updates@.len() && update_error(
            #[trigger] c.character_text_design_updates@[i],
        ) is Some;
    let audit = contract_fault(
        vc.active_consequence_spine,
        inputs.visible_context_strings@,
        inputs.hidden_context_strings@,
        c.consequence_proposal,
    );
    let consequence_fails = plan_refused(vc.active_consequence_spine, c.consequence_proposal);
    let encounter_fails = plan_fault(vc.active_encounter_surface, c) is Some;
    match r {
        Ok(p) => {
            &&& rf is None
            &&& actor_outcome(world, turn, vc.active_relationship_graph, c, t, Ok(p.actor_agency))
            &&& design_outcome(world, turn, c.character_text_design_updates@, t, Ok(p.character_text_design))
            &&& audit is None
            &&& change_outcome(p.change, world, turn, inputs, p.character_text_design, t)
            &&& belief_plan_is(p.belief, world, turn, c, t)
            &&& consequence_outcome(vc.active_consequence_spine, c, t, Ok(p.consequence))
            &&& encounter_outcome(vc.active_encounter_surface, c, t, Ok(p.encounter_surface))
            &&& extra_outcome(
                world,
                turn,
                vc.location@,
                c.extra_contacts@,
                inputs.remembered_extras,
                inputs.extra_traces@,
                t,
                Ok(p.extra_memory),
            )
        },
        Err(AgentCommitError::Response(e)) => rf == Some(response_fault_of(e)),
        Err(AgentCommitError::ActorAgency(e)) => rf is None && actor_outcome(
            world,
            turn,
            vc.active_relationship_graph,
            c,
            t,
            Err(e),
        ),
        Err(AgentCommitError::CharacterTextDesign(e)) => rf is None && !actor_fails && design_outcome(
            world,
            turn,
            c.character_text_design_updates@,
            t,
            Err(e),
        ),
        Err(AgentCommitError::ConsequenceAudit(e)) => rf is None && !actor_fails && !design_fails && audit == Some(
            audit_fault_of(e),
        ),
        Err(AgentCommitError::Consequence(e)) => rf is None && !actor_fails && !design_fails && audit is None
            && consequence_outcome(vc.active_consequence_spine, c, t, Err(e)),
        Err(AgentCommitError::Encounter(e)) => rf is None && !actor_fails && !design_fails && audit is None
            && !consequence_fails && encounter_outcome(vc.active_encounter_surface, c, t, Err(e)),
        Err(AgentCommitError::ExtraMemory(e)) => rf is None && !actor_fails && !design_fails && audit is None
            && !consequence_fails && !encounter_fails && extra_outcome(
            world,
            turn,
            vc.location@,
            c.extra_contacts@,
            inputs.remembered_extras,
            inputs.extra_traces@,
            t,
            Err(e),
        ),
    }
}

/// Plans the commit of an agent's answer to a pending turn, every plan
/// stamped `recorded_at`: the answer is put in canonical form, checked, and
/// every ledger's events are planned. Nothing is written here; on `Err` the
/// caller writes nothing and the turn does not advance.
pub fn plan_agent_turn_commit(
    pending: &PendingAgentTurn,
    response: AgentTurnResponse,
    inputs: AgentCommitInputs,
    recorded_at: &str,
) -> (r: Result<AgentTurnCommitPlan, AgentCommitError>)
    requires
        forall|c: AgentTurnResponse|
            canonical_is(response, c) ==> plan_fits(pending.visible_context.active_encounter_surface, c),
    ensures
        exists|c: AgentTurnResponse|
            #[trigger] canonical_is(response, c) && commit_outcome(*pending, inputs, c, recorded_at@, r),
{
    let ghost orig = response;
    let c = canonical_agent_turn_response(response);
    let ghost cg = c;
    assert(canonical_is(orig, cg));
    let world = pending.world_id.as_str();
    let turn = pending.turn_id.as_str();
    let vc = &pending.visible_context;
    match validate_agent_response(world, turn, &pending.private_adjudication_context, &c, &inputs.default_choices) {
        Ok(()) => {},
        Err(e) => {
            return Err(AgentCommitError::Response(e));
        },
    }
    let actor = match plan_actor_agency_events(world, turn, &vc.active_relationship_graph, &c, recorded_at) {
        Ok(p) => p,
        Err(e) => {
            return Err(AgentCommitError::ActorAgency(e));
        },
    };
    let design = match build_character_text_design_event_plan(
        world,
        turn,
        c.character_text_design_updates.as_slice(),
        recorded_at,
    ) {
        Ok(p) => p,
        Err(e) => {
            return Err(AgentCommitError::CharacterTextDesign(e));
        },
    };
    let proposal: Option<&ConsequenceProposal> = match &c.consequence_proposal {
        Some(p) => Some(p),
        None => None,
    };
    let resolution: Option<&ResolutionProposal> = match &c.resolution_proposal {
        Some(p) => Some(p),
        None => None,
    };
    let social: Option<&SocialExchangeProposal> = match &c.social_exchange_proposal {
        Some(p) => Some(p),
        None => None,
    };
    match audit_consequence_contract(
        &inputs.visible_context_strings,
        &inputs.hidden_context_strings,
        &vc.active_consequence_spine,
        proposal,
        resolution,
    ) {
        Ok(()) => {},
        Err(e) => {
            return Err(AgentCommitError::ConsequenceAudit(e));
        },
    }
    let change = plan_change_events(
        ChangeEventPlanInput {
            world_id: world,
            turn_id: turn,
            relationship_graph_events: &inputs.relationship_graph_events,
            world_lore_updates: &inputs.world_lore_updates,
            character_text_design_events: &design,
            plot_thread_events: &inputs.plot_thread_events,
            scene_pressure_events: &inputs.scene_pressure_events,
        },
        recorded_at,
    );
    let belief = plan_belief_events(world, turn, &c, recorded_at);
    let consequence = match plan_consequence_events(
        &vc.active_consequence_spine,
        proposal,
        resolution,
        social,
        recorded_at,
    ) {
        Ok(p) => p,
        Err(e) => {
            return Err(AgentCommitError::Consequence(e));
        },
    };
    let extra = plan_extra_memory_projection(
        world,
        turn,
        vc.location.as_str(),
        &c.extra_contacts,
        inputs.remembered_extras,
        inputs.extra_traces,
        recorded_at,
        recorded_at,
    );
    let encounter = match plan_encounter_surface_events(&vc.active_encounter_surface, c, recorded_at) {
        Ok(p) => p,
        Err(e) => {
            return Err(AgentCommitError::Encounter(e));
        },
    };
    let extra = match extra {
        Ok(p) => p,
        Err(e) => {
            return Err(AgentCommitError::ExtraMemory(e));
        },
    };
    Ok(
        AgentTurnCommitPlan {
            actor_agency: actor,
            character_text_design: design,
            change,
            belief,
            consequence,
            encounter_surface: encounter,
            extra_memory: extra,
        },
    )
}


pub const AGENT_PENDING_TURN_SCHEMA_VERSION: &'static str = "singulari.agent_pending_turn.v1";

/// Why a turn could not be queued for the narrating agent.
#[derive(Debug)]
pub enum AgentEnqueueError {
    EmptyInput,
    AlreadyPending { world_id: String, turn_id: String, pending_ref: String },
    InvalidTurnId { turn_id: String },
    ExtraMemory(ExtraMemoryError),
}

impl AgentEnqueueError {
    /// The error as one line.
    pub fn message(&self) -> (r: String)
        ensures
            r@ == match self {
                AgentEnqueueError::EmptyInput => "agent bridge input must not be empty"@,
                AgentEnqueueError::AlreadyPending { world_id, turn_id, pending_ref } => "agent turn already pending: world_id="@
                    + world_id@ + ", turn_id="@ + turn_id@ + ", pending_ref="@ + pending_ref@,
                AgentEnqueueError::InvalidTurnId { turn_id } => "turn_id has invalid numeric suffix: "@ + turn_id@,
                AgentEnqueueError::ExtraMemory(e) => extra_error_text(*e),
            },
    {
        match self {
            AgentEnqueueError::EmptyInput => String::from_str("agent bridge input must not be empty"),
            AgentEnqueueError::AlreadyPending { world_id, turn_id, pending_ref } => {
                let head = concat4("agent turn already pending: world_id=", world_id.as_str(), ", turn_id=", turn_id.as_str());
                concat3(head.as_str(), ", pending_ref=", pending_ref.as_str())
            },
            AgentEnqueueError::InvalidTurnId { turn_id } => concat2("turn_id has invalid numeric suffix: ", turn_id.as_str()),
            AgentEnqueueError::ExtraMemory(e) => e.message(),
        }
    }
}

/// A turn still waiting for the agent.
pub open spec fn is_pending_status(p: PendingAgentTurn) -> bool {
    p.status@ == "pending"@
}

/// A queued turn is there and still waiting.
pub open spec fn has_pending(existing: Option<&PendingAgentTurn>) -> bool {
    match existing {
        Some(p) => is_pending_status(*p),
        None => false,
    }
}

/// The pending choice records the picked choice, if any, in the current
/// layout, with the guide choice's intent redacted.
pub open spec fn chosen_as(c: Option<PendingAgentChoice>, picked: Option<(u8, Seq<char>, Seq<char>)>) -> bool {
    match picked {
        Some(v) => match c {
            Some(p) => p.slot == v.0 && p.tag@ == v.1 && p.visible_intent@ == (if v.0 == GUIDE_CHOICE_SLOT {
                GUIDE_CHOICE_REDACTED_INTENT@
            } else {
                v.2
            }),
            None => false,
        },
        None => c is None,
    }
}

/// Plans the turn queued for the narrating agent: the trimmed input, the
/// next turn id, the choice the input picks, the hidden state as the agent
/// gets it, the output contract and the visible context. Refused when the
/// input is blank, when a turn is still pending, when the snapshot's turn id
/// is not `turn_` and a number, or when the extra memory store is of another
/// world.
pub fn plan_pending_agent_turn(
    world_id: &str,
    input: &str,
    existing: Option<&PendingAgentTurn>,
    hidden_state: &HiddenState,
    parts: VisibleContextParts,
    narrative_level: Option<u8>,
    pending_ref: &str,
    created_at: &str,
) -> (r: Result<PendingAgentTurn, AgentEnqueueError>)
    requires
        all_scores_fit(store_extras(parts.remembered_extras)),
        !(starts_with(parts.snapshot.turn_id@, "turn_"@) && parse_u32_text(
            parts.snapshot.turn_id@.subrange(5, parts.snapshot.turn_id@.len() as int),
        ) == Some(u32::MAX as nat)),
    ensures
        match r {
            Err(AgentEnqueueError::EmptyInput) => trim(input@).len() == 0,
            Err(AgentEnqueueError::AlreadyPending { world_id: w, turn_id: t, pending_ref: pr }) => {
                &&& trim(input@).len() > 0
                &&& has_pending(existing)
                &&& w == existing->0.world_id
                &&& t == existing->0.turn_id
                &&& pr == existing->0.pending_ref
            },
            Err(AgentEnqueueError::InvalidTurnId { turn_id }) => {
                &&& trim(input@).len() > 0
                &&& !has_pending(existing)
                &&& next_turn_of_id(parts.snapshot.turn_id@) is None
                &&& turn_id == parts.snapshot.turn_id
            },
            Err(AgentEnqueueError::ExtraMemory(e)) => {
                &&& trim(input@).len() > 0
                &&& !has_pending(existing)
                &&& next_turn_of_id(parts.snapshot.turn_id@) is Some
                &&& refused_store(parts.remembered_extras, world_id@, e)
            },
            Ok(p) => {
                &&& trim(input@).len() > 0
                &&& !has_pending(existing)
                &&& p.schema_version@ == AGENT_PENDING_TURN_SCHEMA_VERSION@
                &&& p.world_id@ == world_id@
                &&& next_turn_of_id(parts.snapshot.turn_id@) == Some(p.turn_id@)
                &&& is_pending_status(p)
                &&& p.player_input@ == trim(input@)
                &&& chosen_as(p.selected_choice, picked_choice(trim(input@), parts.snapshot.last_choices@))
                &&& private_context_is(p.private_adjudication_context, *hidden_state)
                &&& output_contract_is(p.output_contract, narrative_level)
                &&& visible_context_is(p.visible_context, world_id@, trim(input@), parts)
                &&& p.pending_ref@ == pending_ref@
                &&& p.created_at@ == created_at@
            },
        },
{
    let player_input = match submitted_player_input(input) {
        Some(t) => t,
        None => {
            return Err(AgentEnqueueError::EmptyInput);
        },
    };
    match existing {
        Some(p) => {
            proof {
                reveal_strlit("pending");
            }
            if str_eq(p.status.as_str(), "pending") {
                return Err(
                    AgentEnqueueError::AlreadyPending {
                        world_id: p.world_id.clone(),
                        turn_id: p.turn_id.clone(),
                        pending_ref: p.pending_ref.clone(),
                    },
                );
            }
        },
        None => {},
    }
    let turn_id = match next_turn_id(parts.snapshot.turn_id.as_str()) {
        Some(t) => t,
        None => {
            return Err(AgentEnqueueError::InvalidTurnId { turn_id: parts.snapshot.turn_id.clone() });
        },
    };
    let pending_choice = selected_choice(player_input.as_str(), &parts.snapshot.last_choices);
    let private_adjudication_context = private_context(hidden_state);
    let output_contract = agent_output_contract(narrative_level);
    let ghost parts0 = parts;
    let mut parts = parts;
    parts.world_id = String::from_str(world_id);
    parts.player_input = player_input.clone();
    let visible_context = match assemble_visible_context(parts) {
        Ok(v) => v,
        Err(VisibleContextError::ExtraMemory(e)) => {
            return Err(AgentEnqueueError::ExtraMemory(e));
        },
        Err(VisibleContextError::InvalidTurnId { turn_id }) => {
            return Err(AgentEnqueueError::InvalidTurnId { turn_id });
        },
    };
    proof {
        reveal_strlit("pending");
    }
    Ok(
        PendingAgentTurn {
            schema_version: String::from_str(AGENT_PENDING_TURN_SCHEMA_VERSION),
            world_id: String::from_str(world_id),
            turn_id,
            status: String::from_str("pending"),
            player_input,
            selected_choice: pending_choice,
            visible_context,
            private_adjudication_context,
            output_contract,
            pending_ref: String::from_str(pending_ref),
            created_at: String::from_str(created_at),
        },
    )
}

/// The pending turn planned as `plan_pending_agent_turn` does, stamped with
/// the current time; `None` when the system clock cannot be read.
pub fn prepare_pending_agent_turn(
    world_id: &str,
    input: &str,
    existing: Option<&PendingAgentTurn>,
    hidden_state: &HiddenState,
    parts: VisibleContextParts,
    narrative_level: Option<u8>,
    pending_ref: &str,
) -> (out: Option<Result<PendingAgentTurn, AgentEnqueueError>>)
    requires
        all_scores_fit(store_extras(parts.remembered_extras)),
        !(starts_with(parts.snapshot.turn_id@, "turn_"@) && parse_u32_text(
            parts.snapshot.turn_id@.subrange(5, parts.snapshot.turn_id@.len() as int),
        ) == Some(u32::MAX as nat)),
    ensures
        out matches Some(r) ==> exists|t: &str|
            #[trigger] plan_pending_agent_turn.ensures(
                (world_id, input, existing, hidden_state, parts, narrative_level, pending_ref, t),
                r,
            ),
{
    let now = match now_rfc3339() {
        Some(t) => t,
        None => return None,
    };
    let r = plan_pending_agent_turn(world_id, input, existing, hidden_state, parts, narrative_level, pending_ref, now.as_str());
    Some(r)
}

} // verus!
