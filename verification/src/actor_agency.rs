//! Actor agency: the bounded goals that actors pursue and the moves they
//! make, recorded as events and materialised into a packet of the player-
//! visible ones.
use crate::agent_bridge::AgentTurnResponse;
use crate::clock::now_rfc3339;
use crate::encounter_replay::{remove_source, source_ids, upsert_source};
use crate::relationship_graph::RelationshipGraphPacket;
use crate::response_context::ContextVisibility;
use crate::text::{
    clone_strings, dec2_string, dec_padded, has_text, has_text_exec, is_blank, is_blank_str,
    lemma_unique_insert_pos_bounds, lemma_unique_insert_pos_is, lemma_views_push, seq_lt, starts_with, str_eq, str_lt, trim,
    trim_str, trimmed_nonblank, trimmed_vec, unique_insert_pos, views,
};
use vstd::prelude::*;

verus! {

pub const ACTOR_AGENCY_PACKET_SCHEMA_VERSION: &'static str = "singulari.actor_agency_packet.v1";
pub const ACTOR_GOAL_SCHEMA_VERSION: &'static str = "singulari.actor_goal.v1";
pub const ACTOR_MOVE_SCHEMA_VERSION: &'static str = "singulari.actor_move.v1";
pub const ACTOR_GOAL_EVENT_SCHEMA_VERSION: &'static str = "singulari.actor_goal_event.v1";
pub const ACTOR_MOVE_EVENT_SCHEMA_VERSION: &'static str = "singulari.actor_move_event.v1";
pub const ACTOR_AGENCY_FILENAME: &'static str = "actor_agency.json";
pub const ACTOR_GOAL_EVENTS_FILENAME: &'static str = "actor_goal_events.jsonl";
pub const ACTOR_MOVE_EVENTS_FILENAME: &'static str = "actor_move_events.jsonl";

pub const ACTIVE_ACTOR_GOAL_BUDGET: usize = 12;
pub const RECENT_ACTOR_MOVE_BUDGET: usize = 16;

#[derive(Debug, Clone)]
pub struct ActorGoal {
    pub schema_version: String,
    pub actor_ref: String,
    pub goal_id: String,
    pub visibility: ContextVisibility,
    pub desire: String,
    pub fear_or_constraint: String,
    pub current_leverage: Vec<String>,
    pub pressure_refs: Vec<String>,
    pub evidence_refs: Vec<String>,
    pub source_event_id: String,
}

#[derive(Debug, Clone)]
pub struct ActorMove {
    pub schema_version: String,
    pub actor_ref: String,
    pub move_id: String,
    pub visibility: ContextVisibility,
    pub action_summary: String,
    pub produced_pressure_refs: Vec<String>,
    pub relationship_refs: Vec<String>,
    pub evidence_refs: Vec<String>,
    pub source_event_id: String,
}

#[derive(Debug, Clone)]
pub struct ActorAgencyPolicy {
    pub source: String,
    pub active_goal_budget: usize,
    pub recent_move_budget: usize,
    pub use_rules: Vec<String>,
}

pub const ACTOR_AGENCY_POLICY_SOURCE: &'static str = "materialized_from_actor_goal_and_move_events_v1";

/// The actor agency's standard policy: its source, its two budgets and its
/// three use rules.
pub open spec fn is_default_agency_policy(p: ActorAgencyPolicy) -> bool {
    &&& p.source@ == ACTOR_AGENCY_POLICY_SOURCE@
    &&& p.active_goal_budget == ACTIVE_ACTOR_GOAL_BUDGET
    &&& p.recent_move_budget == RECENT_ACTOR_MOVE_BUDGET
    &&& views(p.use_rules@) == seq![
        "Actor goals are bounded local pressures, not full autonomous planners."@,
        "Hidden goals may shape adjudication but must not appear in visible prose."@,
        "Visible moves are observable behavior; motives must be inferred through evidence."@,
    ]
}

impl Default for ActorAgencyPolicy {
    fn default() -> (r: Self)
        ensures
            r.source@ == ACTOR_AGENCY_POLICY_SOURCE@,
            r.active_goal_budget == ACTIVE_ACTOR_GOAL_BUDGET,
            r.recent_move_budget == RECENT_ACTOR_MOVE_BUDGET,
            r.use_rules@.len() == 3,
            is_default_agency_policy(r),
    {
        let mut use_rules: Vec<String> = Vec::new();
        use_rules.push(String::from_str("Actor goals are bounded local pressures, not full autonomous planners."));
        use_rules.push(String::from_str("Hidden goals may shape adjudication but must not appear in visible prose."));
        use_rules.push(String::from_str("Visible moves are observable behavior; motives must be inferred through evidence."));
        assert(views(use_rules@) =~= seq![
            "Actor goals are bounded local pressures, not full autonomous planners."@,
            "Hidden goals may shape adjudication but must not appear in visible prose."@,
            "Visible moves are observable behavior; motives must be inferred through evidence."@,
        ]);
        ActorAgencyPolicy {
            source: String::from_str(ACTOR_AGENCY_POLICY_SOURCE),
            active_goal_budget: ACTIVE_ACTOR_GOAL_BUDGET,
            recent_move_budget: RECENT_ACTOR_MOVE_BUDGET,
            use_rules,
        }
    }
}

#[derive(Debug, Clone)]
pub struct ActorAgencyPacket {
    pub schema_version: String,
    pub world_id: String,
    pub turn_id: String,
    pub active_goals: Vec<ActorGoal>,
    pub recent_moves: Vec<ActorMove>,
    pub compiler_policy: ActorAgencyPolicy,
}

impl Default for ActorAgencyPacket {
    fn default() -> (r: Self)
        ensures
            r.schema_version@ == ACTOR_AGENCY_PACKET_SCHEMA_VERSION@,
            r.world_id@.len() == 0,
            r.turn_id@.len() == 0,
            r.active_goals@.len() == 0,
            r.recent_moves@.len() == 0,
    {
        ActorAgencyPacket {
            schema_version: String::from_str(ACTOR_AGENCY_PACKET_SCHEMA_VERSION),
            world_id: String::new(),
            turn_id: String::new(),
            active_goals: Vec::new(),
            recent_moves: Vec::new(),
            compiler_policy: ActorAgencyPolicy::default(),
        }
    }
}

#[derive(Debug, Clone)]
pub struct AgentActorGoalUpdate {
    pub actor_ref: String,
    pub goal_id: String,
    pub visibility: ContextVisibility,
    pub desire: String,
    pub fear_or_constraint: String,
    pub current_leverage: Vec<String>,
    pub pressure_refs: Vec<String>,
    pub evidence_refs: Vec<String>,
    pub retired: bool,
}

#[derive(Debug, Clone)]
pub struct AgentActorMoveUpdate {
    pub actor_ref: String,
    pub move_id: String,
    pub visibility: ContextVisibility,
    pub action_summary: String,
    pub produced_pressure_refs: Vec<String>,
    pub relationship_refs: Vec<String>,
    pub evidence_refs: Vec<String>,
}

#[derive(Debug, Clone)]
pub struct ActorGoalEventRecord {
    pub schema_version: String,
    pub world_id: String,
    pub turn_id: String,
    pub event_id: String,
    pub actor_ref: String,
    pub goal_id: String,
    pub visibility: ContextVisibility,
    pub desire: String,
    pub fear_or_constraint: String,
    pub current_leverage: Vec<String>,
    pub pressure_refs: Vec<String>,
    pub evidence_refs: Vec<String>,
    pub retired: bool,
    pub recorded_at: String,
}

#[derive(Debug, Clone)]
pub struct ActorMoveEventRecord {
    pub schema_version: String,
    pub world_id: String,
    pub turn_id: String,
    pub event_id: String,
    pub actor_ref: String,
    pub move_id: String,
    pub visibility: ContextVisibility,
    pub action_summary: String,
    pub produced_pressure_refs: Vec<String>,
    pub relationship_refs: Vec<String>,
    pub evidence_refs: Vec<String>,
    pub recorded_at: String,
}

#[derive(Debug, Clone)]
pub struct ActorAgencyEventPlan {
    pub world_id: String,
    pub turn_id: String,
    pub goal_records: Vec<ActorGoalEventRecord>,
    pub move_records: Vec<ActorMoveEventRecord>,
}

// ---------------------------------------------------------------------------
// Checking updates.
// ---------------------------------------------------------------------------

#[derive(Debug, Clone)]
pub enum ActorAgencyError {
    MissingActorRef,
    UnknownActor { actor_ref: String },
    EmptyField { label: String },
    MissingEvidence { label: String },
}

impl ActorAgencyError {
    pub fn message(&self) -> (r: String)
        ensures
            match self {
                ActorAgencyError::MissingActorRef => r@ == "actor agency update is missing actor_ref"@,
                ActorAgencyError::UnknownActor { actor_ref } => r@
                    == "actor agency update references unknown actor_ref="@ + actor_ref@,
                ActorAgencyError::EmptyField { label } => r@ == label@
                    + " contains an empty required field"@,
                ActorAgencyError::MissingEvidence { label } => r@ == label@
                    + " must include evidence_refs"@,
            },
    {
        match self {
            ActorAgencyError::MissingActorRef => String::from_str("actor agency update is missing actor_ref"),
            ActorAgencyError::UnknownActor { actor_ref } => {
                let mut m = String::from_str("actor agency update references unknown actor_ref=");
                m.append(actor_ref.as_str());
                m
            },
            ActorAgencyError::EmptyField { label } => {
                let mut m = label.clone();
                m.append(" contains an empty required field");
                m
            },
            ActorAgencyError::MissingEvidence { label } => {
                let mut m = label.clone();
                m.append(" must include evidence_refs");
                m
            },
        }
    }
}

/// The trimmed ends of the relationship edges, blank ones and the player left out.
pub open spec fn edge_actor_list(edges: Seq<crate::relationship_graph::RelationshipEdge>) -> Seq<Seq<char>>
    decreases edges.len(),
{
    if edges.len() == 0 {
        Seq::empty()
    } else {
        let p = edge_actor_list(edges.drop_last());
        let a = trim(edges.last().source_entity_id@);
        let b = trim(edges.last().target_entity_id@);
        let p1 = if a.len() > 0 && a != "player"@ {
            p.push(a)
        } else {
            p
        };
        if b.len() > 0 && b != "player"@ {
            p1.push(b)
        } else {
            p1
        }
    }
}

/// The trimmed ids of the characters the response updates.
pub open spec fn updated_character_list(ups: Seq<crate::agent_bridge::AgentEntityUpdate>) -> Seq<Seq<char>>
    decreases ups.len(),
{
    if ups.len() == 0 {
        Seq::empty()
    } else {
        let p = updated_character_list(ups.drop_last());
        let t = trim(ups.last().entity_id@);
        if t.len() > 0 && starts_with(t, "char:"@) {
            p.push(t)
        } else {
            p
        }
    }
}

/// The actors the player knows of: the ends of the relationship edges other
/// than the player, and the characters the response updates.
pub open spec fn known_actor_list(graph: RelationshipGraphPacket, response: AgentTurnResponse) -> Seq<Seq<char>> {
    edge_actor_list(graph.active_edges@) + updated_character_list(response.entity_updates@)
}

fn push_string(out: &mut Vec<String>, s: String)
    ensures
        views(final(out)@) == views(old(out)@).push(s@),
{
    let ghost prev = out@;
    out.push(s);
    proof {
        lemma_views_push(prev, s);
    }
}

/// The ids of the actors the player knows of (see `known_actor_list`).
pub fn known_actor_refs(graph: &RelationshipGraphPacket, response: &AgentTurnResponse) -> (r: Vec<String>)
    ensures
        views(r@) == known_actor_list(*graph, *response),
{
    let mut refs: Vec<String> = Vec::new();
    let edges = &graph.active_edges;
    let mut i: usize = 0;
    while i < edges.len()
        invariant
            i <= edges@.len(),
            views(refs@) == edge_actor_list(edges@.subrange(0, i as int)),
        decreases edges.len() - i,
    {
        proof {
            assert(edges@.subrange(0, i + 1).drop_last() =~= edges@.subrange(0, i as int));
            assert(edges@.subrange(0, i + 1).last() == edges@[i as int]);
        }
        let a = trim_str(edges[i].source_entity_id.as_str());
        if a.unicode_len() > 0 && !str_eq(a, "player") {
            push_string(&mut refs, String::from_str(a));
        }
        let b = trim_str(edges[i].target_entity_id.as_str());
        if b.unicode_len() > 0 && !str_eq(b, "player") {
            push_string(&mut refs, String::from_str(b));
        }
        i = i + 1;
    }
    assert(edges@.subrange(0, edges@.len() as int) =~= edges@);
    let ghost after_edges = views(refs@);
    let ups = &response.entity_updates;
    let mut j: usize = 0;
    while j < ups.len()
        invariant
            j <= ups@.len(),
            views(refs@) == after_edges + updated_character_list(ups@.subrange(0, j as int)),
        decreases ups.len() - j,
    {
        proof {
            assert(ups@.subrange(0, j + 1).drop_last() =~= ups@.subrange(0, j as int));
            assert(ups@.subrange(0, j + 1).last() == ups@[j as int]);
        }
        let t = trim_str(ups[j].entity_id.as_str());
        if t.unicode_len() > 0 && crate::text::starts_with_str(t, "char:") {
            let ghost before = views(refs@);
            push_string(&mut refs, String::from_str(t));
            assert(after_edges + updated_character_list(ups@.subrange(0, j + 1)) =~= before.push(t@));
        } else {
            assert(after_edges + updated_character_list(ups@.subrange(0, j + 1)) =~= views(refs@));
        }
        j = j + 1;
    }
    assert(ups@.subrange(0, ups@.len() as int) =~= ups@);
    refs
}

/// Checks that an update's actor is given and known.
pub fn validate_known_actor(actor_ref: &str, known: &Vec<String>) -> (r: Result<(), ActorAgencyError>)
    ensures
        r is Ok <==> !is_blank(actor_ref@) && views(known@).contains(trim(actor_ref@)),
        is_blank(actor_ref@) ==> r matches Err(ActorAgencyError::MissingActorRef),
        !is_blank(actor_ref@) && !views(known@).contains(trim(actor_ref@)) ==> (r matches Err(
            ActorAgencyError::UnknownActor { actor_ref: a },
        ) && a@ == actor_ref@),
{
    if is_blank_str(actor_ref) {
        return Err(ActorAgencyError::MissingActorRef);
    }
    let t = trim_str(actor_ref);
    proof {
        crate::text::lemma_has_text_views(known@, t@);
    }
    if has_text_exec(known, t) {
        return Ok(());
    }
    Err(ActorAgencyError::UnknownActor { actor_ref: String::from_str(actor_ref) })
}

/// Every given text is blank.
pub open spec fn all_blank(v: Seq<String>) -> bool {
    forall|i: int| 0 <= i < v.len() ==> is_blank(#[trigger] v[i]@)
}

fn all_blank_exec(v: &Vec<String>) -> (r: bool)
    ensures
        r == all_blank(v@),
{
    let mut i: usize = 0;
    while i < v.len()
        invariant
            i <= v@.len(),
            forall|j: int| 0 <= j < i ==> is_blank(#[trigger] v@[j]@),
        decreases v.len() - i,
    {
        if !is_blank_str(v[i].as_str()) {
            return false;
        }
        i = i + 1;
    }
    true
}

/// What an actor goal update must carry: a known actor, an id, a desire, a
/// fear or constraint, and some evidence.
pub open spec fn goal_update_ok(u: AgentActorGoalUpdate, known: Seq<Seq<char>>) -> bool {
    &&& !is_blank(u.actor_ref@)
    &&& known.contains(trim(u.actor_ref@))
    &&& !(is_blank(u.goal_id@) || is_blank(u.desire@) || is_blank(u.fear_or_constraint@))
    &&& !all_blank(u.evidence_refs@)
}

pub open spec fn move_update_ok(u: AgentActorMoveUpdate, known: Seq<Seq<char>>) -> bool {
    &&& !is_blank(u.actor_ref@)
    &&& known.contains(trim(u.actor_ref@))
    &&& !(is_blank(u.move_id@) || is_blank(u.action_summary@))
    &&& !all_blank(u.evidence_refs@)
}

/// The error a goal update gets: actor first, then the fields, then the evidence.
pub open spec fn goal_update_error(u: AgentActorGoalUpdate, known: Seq<Seq<char>>, e: ActorAgencyError) -> bool {
    if is_blank(u.actor_ref@) {
        e is MissingActorRef
    } else if !known.contains(trim(u.actor_ref@)) {
        e matches ActorAgencyError::UnknownActor { actor_ref } && actor_ref@ == u.actor_ref@
    } else if is_blank(u.goal_id@) || is_blank(u.desire@) || is_blank(u.fear_or_constraint@) {
        e matches ActorAgencyError::EmptyField { label } && label@ == "actor_goal_events"@
    } else {
        e matches ActorAgencyError::MissingEvidence { label } && label@ == "actor_goal_events"@
    }
}

pub open spec fn move_update_error(u: AgentActorMoveUpdate, known: Seq<Seq<char>>, e: ActorAgencyError) -> bool {
    if is_blank(u.actor_ref@) {
        e is MissingActorRef
    } else if !known.contains(trim(u.actor_ref@)) {
        e matches ActorAgencyError::UnknownActor { actor_ref } && actor_ref@ == u.actor_ref@
    } else if is_blank(u.move_id@) || is_blank(u.action_summary@) {
        e matches ActorAgencyError::EmptyField { label } && label@ == "actor_move_events"@
    } else {
        e matches ActorAgencyError::MissingEvidence { label } && label@ == "actor_move_events"@
    }
}

pub fn validate_actor_goal_update(update: &AgentActorGoalUpdate, known: &Vec<String>) -> (r: Result<
    (),
    ActorAgencyError,
>)
    ensures
        r is Ok <==> goal_update_ok(*update, views(known@)),
        r matches Err(e) ==> goal_update_error(*update, views(known@), e),
{
    match validate_known_actor(update.actor_ref.as_str(), known) {
        Ok(()) => {},
        Err(e) => {
            return Err(e);
        },
    }
    if is_blank_str(update.goal_id.as_str()) || is_blank_str(update.desire.as_str()) || is_blank_str(
        update.fear_or_constraint.as_str(),
    ) {
        return Err(ActorAgencyError::EmptyField { label: String::from_str("actor_goal_events") });
    }
    if all_blank_exec(&update.evidence_refs) {
        return Err(ActorAgencyError::MissingEvidence { label: String::from_str("actor_goal_events") });
    }
    Ok(())
}

pub fn validate_actor_move_update(update: &AgentActorMoveUpdate, known: &Vec<String>) -> (r: Result<
    (),
    ActorAgencyError,
>)
    ensures
        r is Ok <==> move_update_ok(*update, views(known@)),
        r matches Err(e) ==> move_update_error(*update, views(known@), e),
{
    match validate_known_actor(update.actor_ref.as_str(), known) {
        Ok(()) => {},
        Err(e) => {
            return Err(e);
        },
    }
    if is_blank_str(update.move_id.as_str()) || is_blank_str(update.action_summary.as_str()) {
        return Err(ActorAgencyError::EmptyField { label: String::from_str("actor_move_events") });
    }
    if all_blank_exec(&update.evidence_refs) {
        return Err(ActorAgencyError::MissingEvidence { label: String::from_str("actor_move_events") });
    }
    Ok(())
}

// ---------------------------------------------------------------------------
// The event records of a turn.
// ---------------------------------------------------------------------------

/// The record of a goal update: the update's texts trimmed, numbered within the turn.
pub open spec fn goal_record_is(
    r: ActorGoalEventRecord,
    world_id: Seq<char>,
    turn_id: Seq<char>,
    index: int,
    u: AgentActorGoalUpdate,
    recorded_at: Seq<char>,
) -> bool {
    &&& r.schema_version@ == ACTOR_GOAL_EVENT_SCHEMA_VERSION@
    &&& r.world_id@ == world_id
    &&& r.turn_id@ == turn_id
    &&& r.event_id@ == "actor_goal_event:"@ + turn_id + ":"@ + dec_padded(index as nat, 2)
    &&& r.actor_ref@ == trim(u.actor_ref@)
    &&& r.goal_id@ == trim(u.goal_id@)
    &&& r.visibility == u.visibility
    &&& r.desire@ == trim(u.desire@)
    &&& r.fear_or_constraint@ == trim(u.fear_or_constraint@)
    &&& views(r.current_leverage@) == trimmed_nonblank(u.current_leverage@)
    &&& views(r.pressure_refs@) == trimmed_nonblank(u.pressure_refs@)
    &&& views(r.evidence_refs@) == trimmed_nonblank(u.evidence_refs@)
    &&& r.retired == u.retired
    &&& r.recorded_at@ == recorded_at
}

pub open spec fn move_record_is(
    r: ActorMoveEventRecord,
    world_id: Seq<char>,
    turn_id: Seq<char>,
    index: int,
    u: AgentActorMoveUpdate,
    recorded_at: Seq<char>,
) -> bool {
    &&& r.schema_version@ == ACTOR_MOVE_EVENT_SCHEMA_VERSION@
    &&& r.world_id@ == world_id
    &&& r.turn_id@ == turn_id
    &&& r.event_id@ == "actor_move_event:"@ + turn_id + ":"@ + dec_padded(index as nat, 2)
    &&& r.actor_ref@ == trim(u.actor_ref@)
    &&& r.move_id@ == trim(u.move_id@)
    &&& r.visibility == u.visibility
    &&& r.action_summary@ == trim(u.action_summary@)
    &&& views(r.produced_pressure_refs@) == trimmed_nonblank(u.produced_pressure_refs@)
    &&& views(r.relationship_refs@) == trimmed_nonblank(u.relationship_refs@)
    &&& views(r.evidence_refs@) == trimmed_nonblank(u.evidence_refs@)
    &&& r.recorded_at@ == recorded_at
}

fn numbered_id(prefix: &str, turn_id: &str, index: usize) -> (r: String)
    ensures
        r@ == prefix@ + turn_id@ + ":"@ + dec_padded(index as nat, 2),
{
    let mut m = String::from_str(prefix);
    m.append(turn_id);
    m.append(":");
    let n = dec2_string(index as u64);
    m.append(n.as_str());
    m
}

/// Where a turn's actor updates first fail: the first goal update that does
/// not pass, else the first move update.
pub open spec fn first_bad_goal(ups: Seq<AgentActorGoalUpdate>, known: Seq<Seq<char>>) -> int
    decreases ups.len(),
{
    if ups.len() == 0 {
        -1
    } else {
        let p = first_bad_goal(ups.drop_last(), known);
        if p >= 0 {
            p
        } else if !goal_update_ok(ups.last(), known) {
            ups.len() - 1
        } else {
            -1
        }
    }
}

pub open spec fn first_bad_move(ups: Seq<AgentActorMoveUpdate>, known: Seq<Seq<char>>) -> int
    decreases ups.len(),
{
    if ups.len() == 0 {
        -1
    } else {
        let p = first_bad_move(ups.drop_last(), known);
        if p >= 0 {
            p
        } else if !move_update_ok(ups.last(), known) {
            ups.len() - 1
        } else {
            -1
        }
    }
}

proof fn lemma_first_bad_goal_prefix(ups: Seq<AgentActorGoalUpdate>, known: Seq<Seq<char>>, n: int)
    requires
        0 <= n <= ups.len(),
        first_bad_goal(ups.subrange(0, n), known) >= 0,
    ensures
        first_bad_goal(ups, known) == first_bad_goal(ups.subrange(0, n), known),
    decreases ups.len(),
{
    if n < ups.len() {
        assert(ups.drop_last().subrange(0, n) =~= ups.subrange(0, n));
        lemma_first_bad_goal_prefix(ups.drop_last(), known, n);
    } else {
        assert(ups.subrange(0, n) =~= ups);
    }
}

proof fn lemma_first_bad_move_prefix(ups: Seq<AgentActorMoveUpdate>, known: Seq<Seq<char>>, n: int)
    requires
        0 <= n <= ups.len(),
        first_bad_move(ups.subrange(0, n), known) >= 0,
    ensures
        first_bad_move(ups, known) == first_bad_move(ups.subrange(0, n), known),
    decreases ups.len(),
{
    if n < ups.len() {
        assert(ups.drop_last().subrange(0, n) =~= ups.subrange(0, n));
        lemma_first_bad_move_prefix(ups.drop_last(), known, n);
    } else {
        assert(ups.subrange(0, n) =~= ups);
    }
}

/// The records of a plan: one per goal update, then one per move update,
/// all stamped with `recorded_at`.
pub open spec fn actor_plan_is(
    plan: ActorAgencyEventPlan,
    world_id: Seq<char>,
    turn_id: Seq<char>,
    response: AgentTurnResponse,
    recorded_at: Seq<char>,
) -> bool {
    &&& plan.world_id@ == world_id
    &&& plan.turn_id@ == turn_id
    &&& plan.goal_records@.len() == response.actor_goal_events@.len()
    &&& forall|k: int|
        0 <= k < plan.goal_records@.len() ==> goal_record_is(
            #[trigger] plan.goal_records@[k],
            world_id,
            turn_id,
            k,
            response.actor_goal_events@[k],
            recorded_at,
        )
    &&& plan.move_records@.len() == response.actor_move_events@.len()
    &&& forall|k: int|
        0 <= k < plan.move_records@.len() ==> move_record_is(
            #[trigger] plan.move_records@[k],
            world_id,
            turn_id,
            k,
            response.actor_move_events@[k],
            recorded_at,
        )
}

/// Plans the actor agency records of a turn, stamped with `recorded_at`:
/// each goal update, then each move update, checked against the actors the
/// player knows of; the first that fails refuses the plan.
pub fn plan_actor_agency_events(
    world_id: &str,
    turn_id: &str,
    graph: &RelationshipGraphPacket,
    response: &AgentTurnResponse,
    recorded_at: &str,
) -> (r: Result<ActorAgencyEventPlan, ActorAgencyError>)
    ensures
        ({
            let known = known_actor_list(*graph, *response);
            let g = first_bad_goal(response.actor_goal_events@, known);
            let m = first_bad_move(response.actor_move_events@, known);
            &&& (r is Ok <==> g < 0 && m < 0)
            &&& (g >= 0 ==> (r matches Err(e) && goal_update_error(response.actor_goal_events@[g], known, e)))
            &&& (g < 0 && m >= 0 ==> (r matches Err(e) && move_update_error(
                response.actor_move_events@[m],
                known,
                e,
            )))
        }),
        r matches Ok(plan) ==> actor_plan_is(plan, world_id@, turn_id@, *response, recorded_at@),
{
    let known = known_actor_refs(graph, response);
    let ghost kv = views(known@);
    let gs = &response.actor_goal_events;
    let mut goal_records: Vec<ActorGoalEventRecord> = Vec::new();
    let mut i: usize = 0;
    while i < gs.len()
        invariant
            i <= gs@.len(),
            gs == &response.actor_goal_events,
            kv == views(known@),
            kv == known_actor_list(*graph, *response),
            first_bad_goal(gs@.subrange(0, i as int), kv) < 0,
            goal_records@.len() == i,
            forall|k: int|
                0 <= k < i ==> goal_record_is(#[trigger] goal_records@[k], world_id@, turn_id@, k, gs@[k], recorded_at@),
        decreases gs.len() - i,
    {
        proof {
            assert(gs@.subrange(0, i + 1).drop_last() =~= gs@.subrange(0, i as int));
            assert(gs@.subrange(0, i + 1).last() == gs@[i as int]);
        }
        let u = &gs[i];
        match validate_actor_goal_update(u, &known) {
            Ok(()) => {},
            Err(e) => {
                proof {
                    lemma_first_bad_goal_prefix(gs@, kv, i + 1);
                }
                return Err(e);
            },
        }
        goal_records.push(
            ActorGoalEventRecord {
                schema_version: String::from_str(ACTOR_GOAL_EVENT_SCHEMA_VERSION),
                world_id: String::from_str(world_id),
                turn_id: String::from_str(turn_id),
                event_id: numbered_id("actor_goal_event:", turn_id, i),
                actor_ref: String::from_str(trim_str(u.actor_ref.as_str())),
                goal_id: String::from_str(trim_str(u.goal_id.as_str())),
                visibility: u.visibility,
                desire: String::from_str(trim_str(u.desire.as_str())),
                fear_or_constraint: String::from_str(trim_str(u.fear_or_constraint.as_str())),
                current_leverage: trimmed_vec(&u.current_leverage),
                pressure_refs: trimmed_vec(&u.pressure_refs),
                evidence_refs: trimmed_vec(&u.evidence_refs),
                retired: u.retired,
                recorded_at: String::from_str(recorded_at),
            },
        );
        i = i + 1;
    }
    assert(gs@.subrange(0, gs@.len() as int) =~= gs@);
    let ms = &response.actor_move_events;
    let mut move_records: Vec<ActorMoveEventRecord> = Vec::new();
    let mut j: usize = 0;
    while j < ms.len()
        invariant
            j <= ms@.len(),
            ms == &response.actor_move_events,
            kv == views(known@),
            kv == known_actor_list(*graph, *response),
            first_bad_goal(response.actor_goal_events@, kv) < 0,
            first_bad_move(ms@.subrange(0, j as int), kv) < 0,
            move_records@.len() == j,
            forall|k: int|
                0 <= k < j ==> move_record_is(#[trigger] move_records@[k], world_id@, turn_id@, k, ms@[k], recorded_at@),
        decreases ms.len() - j,
    {
        proof {
            assert(ms@.subrange(0, j + 1).drop_last() =~= ms@.subrange(0, j as int));
            assert(ms@.subrange(0, j + 1).last() == ms@[j as int]);
        }
        let u = &ms[j];
        match validate_actor_move_update(u, &known) {
            Ok(()) => {},
            Err(e) => {
                proof {
                    lemma_first_bad_move_prefix(ms@, kv, j + 1);
                }
                return Err(e);
            },
        }
        move_records.push(
            ActorMoveEventRecord {
                schema_version: String::from_str(ACTOR_MOVE_EVENT_SCHEMA_VERSION),
                world_id: String::from_str(world_id),
                turn_id: String::from_str(turn_id),
                event_id: numbered_id("actor_move_event:", turn_id, j),
                actor_ref: String::from_str(trim_str(u.actor_ref.as_str())),
                move_id: String::from_str(trim_str(u.move_id.as_str())),
                visibility: u.visibility,
                action_summary: String::from_str(trim_str(u.action_summary.as_str())),
                produced_pressure_refs: trimmed_vec(&u.produced_pressure_refs),
                relationship_refs: trimmed_vec(&u.relationship_refs),
                evidence_refs: trimmed_vec(&u.evidence_refs),
                recorded_at: String::from_str(recorded_at),
            },
        );
        j = j + 1;
    }
    assert(ms@.subrange(0, ms@.len() as int) =~= ms@);
    Ok(ActorAgencyEventPlan {
        world_id: String::from_str(world_id),
        turn_id: String::from_str(turn_id),
        goal_records,
        move_records,
    })
}

/// The actor agency records of a turn, stamped with the current time.
/// Whatever time came back, the records are the plan's records stamped with it.
pub fn prepare_actor_agency_event_plan(
    world_id: &str,
    turn_id: &str,
    graph: &RelationshipGraphPacket,
    response: &AgentTurnResponse,
) -> (out: Option<Result<ActorAgencyEventPlan, ActorAgencyError>>)
    ensures
        out matches Some(r) ==> ({
            &&& (({
                let known = known_actor_list(*graph, *response);
                let g = first_bad_goal(response.actor_goal_events@, known);
                let m = first_bad_move(response.actor_move_events@, known);
                &&& (r is Ok <==> g < 0 && m < 0)
                &&& (g >= 0 ==> (r matches Err(e) && goal_update_error(response.actor_goal_events@[g], known, e)))
                &&& (g < 0 && m >= 0 ==> (r matches Err(e) && move_update_error(
                    response.actor_move_events@[m],
                    known,
                    e,
                )))
            }))
            &&& (r matches Ok(plan) ==> exists|t: Seq<char>| #[trigger] actor_plan_is(plan, world_id@, turn_id@, *response, t))
        }),
{
    let now = match now_rfc3339() {
        Some(t) => t,
        None => return None,
    };
    Some(plan_actor_agency_events(world_id, turn_id, graph, response, now.as_str()))
}

// ---------------------------------------------------------------------------
// Materialising the packet from the records.
// ---------------------------------------------------------------------------

/// A copy of a goal: texts equal, lists with the same items.
pub open spec fn same_goal(a: ActorGoal, b: ActorGoal) -> bool {
    &&& a.schema_version == b.schema_version
    &&& a.actor_ref == b.actor_ref
    &&& a.goal_id == b.goal_id
    &&& a.visibility == b.visibility
    &&& a.desire == b.desire
    &&& a.fear_or_constraint == b.fear_or_constraint
    &&& a.current_leverage@ == b.current_leverage@
    &&& a.pressure_refs@ == b.pressure_refs@
    &&& a.evidence_refs@ == b.evidence_refs@
    &&& a.source_event_id == b.source_event_id
}

/// The goal a record sets.
pub open spec fn goal_of_record(g: ActorGoal, r: ActorGoalEventRecord) -> bool {
    &&& g.schema_version@ == ACTOR_GOAL_SCHEMA_VERSION@
    &&& g.actor_ref == r.actor_ref
    &&& g.goal_id == r.goal_id
    &&& g.visibility == r.visibility
    &&& g.desire == r.desire
    &&& g.fear_or_constraint == r.fear_or_constraint
    &&& g.current_leverage@ == r.current_leverage@
    &&& g.pressure_refs@ == r.pressure_refs@
    &&& g.evidence_refs@ == r.evidence_refs@
    &&& g.source_event_id == r.event_id
}

pub open spec fn same_move(a: ActorMove, b: ActorMove) -> bool {
    &&& a.schema_version == b.schema_version
    &&& a.actor_ref == b.actor_ref
    &&& a.move_id == b.move_id
    &&& a.visibility == b.visibility
    &&& a.action_summary == b.action_summary
    &&& a.produced_pressure_refs@ == b.produced_pressure_refs@
    &&& a.relationship_refs@ == b.relationship_refs@
    &&& a.evidence_refs@ == b.evidence_refs@
    &&& a.source_event_id == b.source_event_id
}

pub open spec fn move_of_record(m: ActorMove, r: ActorMoveEventRecord) -> bool {
    &&& m.schema_version@ == ACTOR_MOVE_SCHEMA_VERSION@
    &&& m.actor_ref == r.actor_ref
    &&& m.move_id == r.move_id
    &&& m.visibility == r.visibility
    &&& m.action_summary == r.action_summary
    &&& m.produced_pressure_refs@ == r.produced_pressure_refs@
    &&& m.relationship_refs@ == r.relationship_refs@
    &&& m.evidence_refs@ == r.evidence_refs@
    &&& m.source_event_id == r.event_id
}

fn copy_goal(g: &ActorGoal) -> (r: ActorGoal)
    ensures
        same_goal(r, *g),
{
    ActorGoal {
        schema_version: g.schema_version.clone(),
        actor_ref: g.actor_ref.clone(),
        goal_id: g.goal_id.clone(),
        visibility: g.visibility,
        desire: g.desire.clone(),
        fear_or_constraint: g.fear_or_constraint.clone(),
        current_leverage: clone_strings(&g.current_leverage),
        pressure_refs: clone_strings(&g.pressure_refs),
        evidence_refs: clone_strings(&g.evidence_refs),
        source_event_id: g.source_event_id.clone(),
    }
}

fn copy_move(m: &ActorMove) -> (r: ActorMove)
    ensures
        same_move(r, *m),
{
    ActorMove {
        schema_version: m.schema_version.clone(),
        actor_ref: m.actor_ref.clone(),
        move_id: m.move_id.clone(),
        visibility: m.visibility,
        action_summary: m.action_summary.clone(),
        produced_pressure_refs: clone_strings(&m.produced_pressure_refs),
        relationship_refs: clone_strings(&m.relationship_refs),
        evidence_refs: clone_strings(&m.evidence_refs),
        source_event_id: m.source_event_id.clone(),
    }
}

/// The goal a record sets.
pub fn actor_goal_from_record(record: &ActorGoalEventRecord) -> (r: ActorGoal)
    ensures
        goal_of_record(r, *record),
{
    ActorGoal {
        schema_version: String::from_str(ACTOR_GOAL_SCHEMA_VERSION),
        actor_ref: record.actor_ref.clone(),
        goal_id: record.goal_id.clone(),
        visibility: record.visibility,
        desire: record.desire.clone(),
        fear_or_constraint: record.fear_or_constraint.clone(),
        current_leverage: clone_strings(&record.current_leverage),
        pressure_refs: clone_strings(&record.pressure_refs),
        evidence_refs: clone_strings(&record.evidence_refs),
        source_event_id: record.event_id.clone(),
    }
}

/// The move a record reports.
pub fn actor_move_from_record(record: &ActorMoveEventRecord) -> (r: ActorMove)
    ensures
        move_of_record(r, *record),
{
    ActorMove {
        schema_version: String::from_str(ACTOR_MOVE_SCHEMA_VERSION),
        actor_ref: record.actor_ref.clone(),
        move_id: record.move_id.clone(),
        visibility: record.visibility,
        action_summary: record.action_summary.clone(),
        produced_pressure_refs: clone_strings(&record.produced_pressure_refs),
        relationship_refs: clone_strings(&record.relationship_refs),
        evidence_refs: clone_strings(&record.evidence_refs),
        source_event_id: record.event_id.clone(),
    }
}

/// Where a kept goal came from: the base packet or a record.
#[derive(Debug, Clone, Copy, PartialEq, Eq, Structural)]
pub enum GoalSource {
    Base(usize),
    Record(usize),
}

/// The base packet's goals by id, later ones replacing earlier ones.
pub open spec fn base_goal_sources(base: Seq<ActorGoal>) -> Seq<(Seq<char>, GoalSource)>
    decreases base.len(),
{
    if base.len() == 0 {
        Seq::empty()
    } else {
        upsert_source(
            base_goal_sources(base.drop_last()),
            base.last().goal_id@,
            GoalSource::Base((base.len() - 1) as usize),
        )
    }
}

/// The player-visible records applied in order: retiring removes a goal,
/// anything else sets it.
pub open spec fn replay_goals(st: Seq<(Seq<char>, GoalSource)>, recs: Seq<ActorGoalEventRecord>) -> Seq<
    (Seq<char>, GoalSource),
>
    decreases recs.len(),
{
    if recs.len() == 0 {
        st
    } else {
        let prev = replay_goals(st, recs.drop_last());
        let r = recs.last();
        if r.visibility != ContextVisibility::PlayerVisible {
            prev
        } else if r.retired {
            remove_source(prev, r.goal_id@)
        } else {
            upsert_source(prev, r.goal_id@, GoalSource::Record((recs.len() - 1) as usize))
        }
    }
}

/// The last `n` items at most.
pub open spec fn keep_last<T>(s: Seq<T>, n: nat) -> Seq<T> {
    if s.len() > n {
        s.subrange(s.len() - n, s.len() as int)
    } else {
        s
    }
}

pub open spec fn goal_realizes(
    g: ActorGoal,
    base: Seq<ActorGoal>,
    recs: Seq<ActorGoalEventRecord>,
    src: GoalSource,
) -> bool {
    match src {
        GoalSource::Base(b) => same_goal(g, base[b as int]),
        GoalSource::Record(k) => goal_of_record(g, recs[k as int]),
    }
}

pub open spec fn goals_realize(
    gs: Seq<ActorGoal>,
    st: Seq<(Seq<char>, GoalSource)>,
    base: Seq<ActorGoal>,
    recs: Seq<ActorGoalEventRecord>,
) -> bool {
    &&& gs.len() == st.len()
    &&& forall|j: int|
        0 <= j < st.len() ==> (#[trigger] gs[j]).goal_id@ == st[j].0 && goal_realizes(gs[j], base, recs, st[j].1)
}

fn goal_position(state: &Vec<ActorGoal>, id: &str, Ghost(st): Ghost<Seq<(Seq<char>, GoalSource)>>) -> (r: usize)
    requires
        state@.len() == st.len(),
        forall|j: int| 0 <= j < st.len() ==> (#[trigger] state@[j]).goal_id@ == st[j].0,
    ensures
        r as int == unique_insert_pos(source_ids(st), id@),
        r <= state@.len(),
{
    let mut k: usize = 0;
    while k < state.len() && str_lt(state[k].goal_id.as_str(), id)
        invariant
            k <= state@.len(),
            state@.len() == st.len(),
            forall|j: int| 0 <= j < st.len() ==> (#[trigger] state@[j]).goal_id@ == st[j].0,
            forall|j: int| 0 <= j < k ==> seq_lt(#[trigger] source_ids(st)[j], id@),
        decreases state.len() - k,
    {
        assert(source_ids(st)[k as int] == st[k as int].0);
        k = k + 1;
    }
    proof {
        if k < state@.len() {
            assert(source_ids(st)[k as int] == st[k as int].0);
        }
        lemma_unique_insert_pos_is(source_ids(st), id@, k as int);
    }
    k
}

fn keep_goal(
    state: &mut Vec<ActorGoal>,
    g: ActorGoal,
    Ghost(st): Ghost<Seq<(Seq<char>, GoalSource)>>,
    Ghost(src): Ghost<GoalSource>,
    Ghost(base): Ghost<Seq<ActorGoal>>,
    Ghost(recs): Ghost<Seq<ActorGoalEventRecord>>,
)
    requires
        goals_realize(old(state)@, st, base, recs),
        goal_realizes(g, base, recs, src),
    ensures
        goals_realize(final(state)@, upsert_source(st, g.goal_id@, src), base, recs),
{
    let ghost id = g.goal_id@;
    let p = goal_position(state, g.goal_id.as_str(), Ghost(st));
    let ghost before = state@;
    if p < state.len() && str_eq(state[p].goal_id.as_str(), g.goal_id.as_str()) {
        state.remove(p);
        state.insert(p, g);
        proof {
            let st2 = upsert_source(st, id, src);
            assert(st2 == st.update(p as int, (id, src)));
            assert forall|j: int| 0 <= j < st2.len() implies (#[trigger] state@[j]).goal_id@ == st2[j].0
                && goal_realizes(state@[j], base, recs, st2[j].1) by {
                if j != p {
                    assert(state@[j] == before[j]);
                }
            }
        }
    } else {
        state.insert(p, g);
        proof {
            let st2 = upsert_source(st, id, src);
            assert(st2 == st.insert(p as int, (id, src)));
            assert forall|j: int| 0 <= j < st2.len() implies (#[trigger] state@[j]).goal_id@ == st2[j].0
                && goal_realizes(state@[j], base, recs, st2[j].1) by {
                if j < p {
                    assert(state@[j] == before[j]);
                } else if j > p {
                    assert(state@[j] == before[j - 1]);
                }
            }
        }
    }
}

fn drop_goal(
    state: &mut Vec<ActorGoal>,
    id: &str,
    Ghost(st): Ghost<Seq<(Seq<char>, GoalSource)>>,
    Ghost(base): Ghost<Seq<ActorGoal>>,
    Ghost(recs): Ghost<Seq<ActorGoalEventRecord>>,
)
    requires
        goals_realize(old(state)@, st, base, recs),
    ensures
        goals_realize(final(state)@, remove_source(st, id@), base, recs),
{
    let p = goal_position(state, id, Ghost(st));
    let ghost before = state@;
    if p < state.len() && str_eq(state[p].goal_id.as_str(), id) {
        state.remove(p);
        proof {
            let st2 = remove_source(st, id@);
            assert(st2 == st.remove(p as int));
            assert forall|j: int| 0 <= j < st2.len() implies (#[trigger] state@[j]).goal_id@ == st2[j].0
                && goal_realizes(state@[j], base, recs, st2[j].1) by {
                if j < p {
                    assert(state@[j] == before[j]);
                } else {
                    assert(state@[j] == before[j + 1]);
                }
            }
        }
    }
}

/// The goals kept: the base's, then the records' applied, the last of them
/// in id order up to the budget.
pub open spec fn kept_goal_sources(base: Seq<ActorGoal>, recs: Seq<ActorGoalEventRecord>) -> Seq<
    (Seq<char>, GoalSource),
> {
    keep_last(replay_goals(base_goal_sources(base), recs), ACTIVE_ACTOR_GOAL_BUDGET as nat)
}

/// The moves kept: the base's, then the player-visible records', the last
/// ones up to the budget. `None` marks a base move by its index.
pub open spec fn visible_move_records(recs: Seq<ActorMoveEventRecord>) -> Seq<int>
    decreases recs.len(),
{
    if recs.len() == 0 {
        Seq::empty()
    } else if recs.last().visibility == ContextVisibility::PlayerVisible {
        visible_move_records(recs.drop_last()).push(recs.len() - 1)
    } else {
        visible_move_records(recs.drop_last())
    }
}

/// The move at position `i` of the base moves followed by the visible
/// record moves.
pub open spec fn move_is_at(
    m: ActorMove,
    base: Seq<ActorMove>,
    recs: Seq<ActorMoveEventRecord>,
    i: int,
) -> bool {
    if i < base.len() {
        same_move(m, base[i])
    } else {
        move_of_record(m, recs[visible_move_records(recs)[i - base.len()]])
    }
}

/// The turn the packet speaks for: the last goal record's, else the last
/// move record's, else the base packet's.
pub open spec fn agency_turn(
    base: ActorAgencyPacket,
    goals: Seq<ActorGoalEventRecord>,
    moves: Seq<ActorMoveEventRecord>,
) -> String {
    if goals.len() > 0 {
        goals.last().turn_id
    } else if moves.len() > 0 {
        moves.last().turn_id
    } else {
        base.turn_id
    }
}

/// The kept moves: the base's moves followed by the player-visible record
/// moves, the last ones up to the budget.
pub open spec fn recent_moves_are(ms: Seq<ActorMove>, base: Seq<ActorMove>, recs: Seq<ActorMoveEventRecord>) -> bool {
    let n = base.len() + visible_move_records(recs).len();
    let kept = if n > RECENT_ACTOR_MOVE_BUDGET { RECENT_ACTOR_MOVE_BUDGET as int } else { n as int };
    &&& ms.len() == kept
    &&& forall|k: int| 0 <= k < kept ==> move_is_at(#[trigger] ms[k], base, recs, n - kept + k)
}

/// Materialises the actor agency packet: the base's goals by id with the
/// player-visible records applied, the last twelve in id order; the base's
/// moves followed by the player-visible record moves, the last sixteen.
pub fn build_actor_agency_from_events(
    base_packet: &ActorAgencyPacket,
    goal_records: &Vec<ActorGoalEventRecord>,
    move_records: &Vec<ActorMoveEventRecord>,
) -> (r: ActorAgencyPacket)
    ensures
        r.schema_version@ == ACTOR_AGENCY_PACKET_SCHEMA_VERSION@,
        r.world_id == base_packet.world_id,
        r.turn_id == agency_turn(*base_packet, goal_records@, move_records@),
        goals_realize(
            r.active_goals@,
            kept_goal_sources(base_packet.active_goals@, goal_records@),
            base_packet.active_goals@,
            goal_records@,
        ),
        ({
            let n = base_packet.recent_moves@.len() + visible_move_records(move_records@).len();
            let kept = if n > RECENT_ACTOR_MOVE_BUDGET { RECENT_ACTOR_MOVE_BUDGET as int } else { n as int };
            &&& r.recent_moves@.len() == kept
            &&& forall|k: int|
                0 <= k < kept ==> move_is_at(
                    #[trigger] r.recent_moves@[k],
                    base_packet.recent_moves@,
                    move_records@,
                    n - kept + k,
                )
        }),
        recent_moves_are(r.recent_moves@, base_packet.recent_moves@, move_records@),
        is_default_agency_policy(r.compiler_policy),
{
    let ghost base = base_packet.active_goals@;
    let ghost recs = goal_records@;
    let mut state: Vec<ActorGoal> = Vec::new();
    let bg = &base_packet.active_goals;
    let mut i: usize = 0;
    while i < bg.len()
        invariant
            i <= bg@.len(),
            bg@ == base,
            goals_realize(state@, base_goal_sources(base.subrange(0, i as int)), base, recs),
        decreases bg.len() - i,
    {
        proof {
            assert(base.subrange(0, i + 1).drop_last() =~= base.subrange(0, i as int));
            assert(base.subrange(0, i + 1).last() == base[i as int]);
        }
        let g = copy_goal(&bg[i]);
        keep_goal(&mut state, g, Ghost(base_goal_sources(base.subrange(0, i as int))), Ghost(GoalSource::Base(i)), Ghost(base), Ghost(recs));
        i = i + 1;
    }
    assert(base.subrange(0, base.len() as int) =~= base);
    let ghost st0 = base_goal_sources(base);
    let mut k: usize = 0;
    while k < goal_records.len()
        invariant
            k <= recs.len(),
            recs == goal_records@,
            goals_realize(state@, replay_goals(st0, recs.subrange(0, k as int)), base, recs),
        decreases goal_records.len() - k,
    {
        let ghost st = replay_goals(st0, recs.subrange(0, k as int));
        proof {
            assert(recs.subrange(0, k + 1).drop_last() =~= recs.subrange(0, k as int));
            assert(recs.subrange(0, k + 1).last() == recs[k as int]);
        }
        let rec = &goal_records[k];
        if rec.visibility == ContextVisibility::PlayerVisible {
            if rec.retired {
                drop_goal(&mut state, rec.goal_id.as_str(), Ghost(st), Ghost(base), Ghost(recs));
            } else {
                let g = actor_goal_from_record(rec);
                keep_goal(&mut state, g, Ghost(st), Ghost(GoalSource::Record(k)), Ghost(base), Ghost(recs));
            }
        }
        k = k + 1;
    }
    assert(recs.subrange(0, recs.len() as int) =~= recs);
    let ghost full = replay_goals(st0, recs);
    let ghost all_goals = state@;
    let mut active_goals = state;
    if active_goals.len() > ACTIVE_ACTOR_GOAL_BUDGET {
        let overflow = active_goals.len() - ACTIVE_ACTOR_GOAL_BUDGET;
        let mut dropped: usize = 0;
        while dropped < overflow
            invariant
                dropped <= overflow,
                overflow == all_goals.len() - ACTIVE_ACTOR_GOAL_BUDGET,
                active_goals@ == all_goals.subrange(dropped as int, all_goals.len() as int),
            decreases overflow - dropped,
        {
            active_goals.remove(0);
            dropped = dropped + 1;
        }
        proof {
            let kept = keep_last(full, ACTIVE_ACTOR_GOAL_BUDGET as nat);
            assert(kept == full.subrange(overflow as int, full.len() as int));
            assert forall|j: int| 0 <= j < kept.len() implies (#[trigger] active_goals@[j]).goal_id@ == kept[j].0
                && goal_realizes(active_goals@[j], base, recs, kept[j].1) by {
                assert(active_goals@[j] == all_goals[j + overflow]);
                assert(kept[j] == full[j + overflow]);
            }
        }
    }

    let ghost bm = base_packet.recent_moves@;
    let ghost mrecs = move_records@;
    let mut moves: Vec<ActorMove> = Vec::new();
    let bms = &base_packet.recent_moves;
    let mut a: usize = 0;
    while a < bms.len()
        invariant
            a <= bm.len(),
            bms@ == bm,
            moves@.len() == a,
            forall|q: int| 0 <= q < a ==> move_is_at(#[trigger] moves@[q], bm, mrecs, q),
        decreases bms.len() - a,
    {
        moves.push(copy_move(&bms[a]));
        a = a + 1;
    }
    let mut b: usize = 0;
    while b < move_records.len()
        invariant
            b <= mrecs.len(),
            mrecs == move_records@,
            moves@.len() == bm.len() + visible_move_records(mrecs.subrange(0, b as int)).len(),
            forall|q: int| 0 <= q < moves@.len() ==> (q < bm.len() ==> same_move(#[trigger] moves@[q], bm[q])),
            forall|q: int| bm.len() <= q < moves@.len() ==> move_of_record(#[trigger] moves@[q], mrecs[visible_move_records(mrecs.subrange(0, b as int))[q - bm.len()]]),
        decreases move_records.len() - b,
    {
        let ghost vis = visible_move_records(mrecs.subrange(0, b as int));
        proof {
            assert(mrecs.subrange(0, b + 1).drop_last() =~= mrecs.subrange(0, b as int));
            assert(mrecs.subrange(0, b + 1).last() == mrecs[b as int]);
        }
        if move_records[b].visibility == ContextVisibility::PlayerVisible {
            moves.push(actor_move_from_record(&move_records[b]));
            proof {
                let vis2 = visible_move_records(mrecs.subrange(0, b + 1));
                assert(vis2 == vis.push(b as int));
                assert forall|q: int| bm.len() <= q < moves@.len() implies move_of_record(#[trigger] moves@[q], mrecs[vis2[q - bm.len()]]) by {
                    if q < moves@.len() - 1 {
                        assert(vis2[q - bm.len()] == vis[q - bm.len()]);
                    }
                }
            }
        }
        b = b + 1;
    }
    assert(mrecs.subrange(0, mrecs.len() as int) =~= mrecs);
    let ghost all_moves = moves@;
    let n = moves.len();
    if n > RECENT_ACTOR_MOVE_BUDGET {
        let overflow = n - RECENT_ACTOR_MOVE_BUDGET;
        let mut dropped: usize = 0;
        while dropped < overflow
            invariant
                dropped <= overflow,
                overflow == all_moves.len() - RECENT_ACTOR_MOVE_BUDGET,
                moves@ == all_moves.subrange(dropped as int, all_moves.len() as int),
            decreases overflow - dropped,
        {
            moves.remove(0);
            dropped = dropped + 1;
        }
    }
    proof {
        let nn = all_moves.len();
        let kept = if nn > RECENT_ACTOR_MOVE_BUDGET { RECENT_ACTOR_MOVE_BUDGET as int } else { nn as int };
        assert(moves@.len() == kept);
        assert forall|k: int| 0 <= k < kept implies move_is_at(#[trigger] moves@[k], bm, mrecs, nn - kept + k) by {
            assert(moves@[k] == all_moves[nn - kept + k]);
            if nn - kept + k < bm.len() {
                assert(same_move(all_moves[nn - kept + k], bm[nn - kept + k]));
            } else {
                assert(move_of_record(all_moves[nn - kept + k], mrecs[visible_move_records(mrecs)[nn - kept + k - bm.len()]]));
            }
        }
    }
    let turn_id = if goal_records.len() > 0 {
        goal_records[goal_records.len() - 1].turn_id.clone()
    } else if move_records.len() > 0 {
        move_records[move_records.len() - 1].turn_id.clone()
    } else {
        base_packet.turn_id.clone()
    };
    ActorAgencyPacket {
        schema_version: String::from_str(ACTOR_AGENCY_PACKET_SCHEMA_VERSION),
        world_id: base_packet.world_id.clone(),
        turn_id,
        active_goals,
        recent_moves: moves,
        compiler_policy: ActorAgencyPolicy::default(),
    }
}


// ---------------------------------------------------------------------------
// Hidden records change nothing the player sees.
// ---------------------------------------------------------------------------

/// The source of a kept goal once a record is inserted at `q`: records from
/// `q` on move one place later.
pub open spec fn shift_source(s: GoalSource, q: int) -> GoalSource {
    match s {
        GoalSource::Record(k) => if k >= q {
            GoalSource::Record((k + 1) as usize)
        } else {
            s
        },
        GoalSource::Base(_) => s,
    }
}

pub open spec fn shift_sources(st: Seq<(Seq<char>, GoalSource)>, q: int) -> Seq<(Seq<char>, GoalSource)> {
    Seq::new(st.len(), |i: int| (st[i].0, shift_source(st[i].1, q)))
}

/// A record source names one of the first `n` records.
pub open spec fn record_below(s: GoalSource, n: int) -> bool {
    match s {
        GoalSource::Record(k) => k < n,
        GoalSource::Base(_) => true,
    }
}

/// Every record source names one of the first `n` records.
pub open spec fn sources_below(st: Seq<(Seq<char>, GoalSource)>, n: int) -> bool {
    forall|i: int| 0 <= i < st.len() ==> record_below((#[trigger] st[i]).1, n)
}

proof fn lemma_shift_upsert(st: Seq<(Seq<char>, GoalSource)>, id: Seq<char>, src: GoalSource, q: int)
    ensures
        upsert_source(shift_sources(st, q), id, shift_source(src, q)) == shift_sources(upsert_source(st, id, src), q),
        sources_below(st, q) && record_below(src, q) ==> sources_below(
            upsert_source(st, id, src),
            q,
        ),
{
    let sh = shift_sources(st, q);
    assert(source_ids(sh) =~= source_ids(st));
    let p = unique_insert_pos(source_ids(st), id);
    lemma_unique_insert_pos_bounds(source_ids(st), id);
    if p < st.len() && st[p].0 == id {
        assert(upsert_source(sh, id, shift_source(src, q)) =~= shift_sources(upsert_source(st, id, src), q));
    } else {
        assert(upsert_source(sh, id, shift_source(src, q)) =~= shift_sources(upsert_source(st, id, src), q));
        if sources_below(st, q) && record_below(src, q) {
            let u = upsert_source(st, id, src);
            assert forall|i: int| 0 <= i < u.len() implies record_below((#[trigger] u[i]).1, q) by {
                if i > p {
                    assert(u[i] == st[i - 1]);
                }
            }
        }
    }
}

proof fn lemma_shift_remove(st: Seq<(Seq<char>, GoalSource)>, id: Seq<char>, q: int)
    ensures
        remove_source(shift_sources(st, q), id) == shift_sources(remove_source(st, id), q),
        sources_below(st, q) ==> sources_below(remove_source(st, id), q),
{
    let sh = shift_sources(st, q);
    assert(source_ids(sh) =~= source_ids(st));
    let p = unique_insert_pos(source_ids(st), id);
    lemma_unique_insert_pos_bounds(source_ids(st), id);
    assert(remove_source(sh, id) =~= shift_sources(remove_source(st, id), q));
    if sources_below(st, q) && p < st.len() && st[p].0 == id {
        let u = remove_source(st, id);
        assert forall|i: int| 0 <= i < u.len() implies record_below((#[trigger] u[i]).1, q) by {
            if i >= p {
                assert(u[i] == st[i + 1]);
            }
        }
    }
}

/// Replaying from sources that name only earlier records, with every record
/// before `q`, leaves the sources unmoved by a shift at `q`.
proof fn lemma_replay_below(st: Seq<(Seq<char>, GoalSource)>, recs: Seq<ActorGoalEventRecord>, q: int)
    requires
        recs.len() <= q,
        recs.len() < usize::MAX,
        sources_below(st, q),
    ensures
        replay_goals(shift_sources(st, q), recs) == shift_sources(replay_goals(st, recs), q),
        sources_below(replay_goals(st, recs), q),
    decreases recs.len(),
{
    if recs.len() > 0 {
        let d = recs.drop_last();
        let r = recs.last();
        lemma_replay_below(st, d, q);
        let prev = replay_goals(st, d);
        if r.visibility != ContextVisibility::PlayerVisible {
        } else if r.retired {
            lemma_shift_remove(prev, r.goal_id@, q);
        } else {
            lemma_shift_upsert(prev, r.goal_id@, GoalSource::Record((recs.len() - 1) as usize), q);
        }
    }
}

/// Replaying with a hidden record inserted at `q` gives the same goals, their
/// record sources moved past it.
proof fn lemma_replay_hidden_insert(
    st: Seq<(Seq<char>, GoalSource)>,
    recs: Seq<ActorGoalEventRecord>,
    q: int,
    h: ActorGoalEventRecord,
)
    requires
        0 <= q <= recs.len(),
        recs.len() + 1 < usize::MAX,
        h.visibility != ContextVisibility::PlayerVisible,
        sources_below(st, q),
    ensures
        replay_goals(shift_sources(st, q), recs.insert(q, h)) == shift_sources(replay_goals(st, recs), q),
    decreases recs.len(),
{
    let r2 = recs.insert(q, h);
    if q == recs.len() {
        assert(r2.drop_last() =~= recs);
        lemma_replay_below(st, recs, q);
    } else {
        let d = recs.drop_last();
        let r = recs.last();
        lemma_replay_hidden_insert(st, d, q, h);
        assert(r2.drop_last() =~= d.insert(q, h));
        assert(r2.last() == r);
        let prev = replay_goals(st, d);
        if r.visibility != ContextVisibility::PlayerVisible {
        } else if r.retired {
            lemma_shift_remove(prev, r.goal_id@, q);
        } else {
            assert(shift_source(GoalSource::Record((recs.len() - 1) as usize), q) == GoalSource::Record(
                (r2.len() - 1) as usize,
            ));
            lemma_shift_upsert(prev, r.goal_id@, GoalSource::Record((recs.len() - 1) as usize), q);
        }
    }
}

proof fn lemma_base_sources_are_base(base: Seq<ActorGoal>)
    ensures
        sources_below(base_goal_sources(base), 0),
    decreases base.len(),
{
    if base.len() > 0 {
        lemma_base_sources_are_base(base.drop_last());
        lemma_shift_upsert(
            base_goal_sources(base.drop_last()),
            base.last().goal_id@,
            GoalSource::Base((base.len() - 1) as usize),
            0,
        );
    }
}

proof fn lemma_shift_of_base(st: Seq<(Seq<char>, GoalSource)>, q: int)
    requires
        sources_below(st, 0),
    ensures
        shift_sources(st, q) == st,
{
    assert forall|i: int| 0 <= i < st.len() implies shift_sources(st, q)[i] == st[i] by {
        assert(st[i].1 is Base);
    }
    assert(shift_sources(st, q) =~= st);
}

proof fn lemma_replay_sources_valid(st: Seq<(Seq<char>, GoalSource)>, recs: Seq<ActorGoalEventRecord>)
    requires
        sources_below(st, 0),
        recs.len() < usize::MAX,
    ensures
        sources_below(replay_goals(st, recs), recs.len() as int),
    decreases recs.len(),
{
    if recs.len() > 0 {
        let d = recs.drop_last();
        let r = recs.last();
        lemma_replay_sources_valid(st, d);
        let prev = replay_goals(st, d);
        assert forall|i: int| 0 <= i < prev.len() implies record_below((#[trigger] prev[i]).1, recs.len() as int) by {
            assert(record_below(prev[i].1, recs.len() - 1));
        }
        if r.visibility != ContextVisibility::PlayerVisible {
        } else if r.retired {
            lemma_shift_remove(prev, r.goal_id@, recs.len() as int);
        } else {
            lemma_shift_upsert(prev, r.goal_id@, GoalSource::Record((recs.len() - 1) as usize), recs.len() as int);
        }
    }
}

/// Adding a hidden goal record anywhere in the log, or taking one out, leaves
/// the kept goals exactly as they were: the same goals realise both.
pub proof fn law_hidden_goal_records_change_nothing(
    base: Seq<ActorGoal>,
    recs: Seq<ActorGoalEventRecord>,
    q: int,
    h: ActorGoalEventRecord,
    gs: Seq<ActorGoal>,
)
    requires
        0 <= q <= recs.len(),
        recs.len() + 1 < usize::MAX,
        h.visibility != ContextVisibility::PlayerVisible,
    ensures
        goals_realize(gs, kept_goal_sources(base, recs), base, recs) <==> goals_realize(
            gs,
            kept_goal_sources(base, recs.insert(q, h)),
            base,
            recs.insert(q, h),
        ),
{
    let st = base_goal_sources(base);
    let r2 = recs.insert(q, h);
    lemma_base_sources_are_base(base);
    assert(sources_below(st, q));
    lemma_shift_of_base(st, q);
    lemma_replay_hidden_insert(st, recs, q, h);
    let full = replay_goals(st, recs);
    assert(replay_goals(st, r2) == shift_sources(full, q));
    lemma_replay_sources_valid(st, recs);
    let n = ACTIVE_ACTOR_GOAL_BUDGET as nat;
    let k1 = keep_last(full, n);
    let k2 = keep_last(shift_sources(full, q), n);
    assert(k2 =~= shift_sources(k1, q));
    assert forall|j: int| 0 <= j < k1.len() implies #[trigger] k1[j] == full[j + (full.len() - k1.len())] by {}
    assert forall|j: int| 0 <= j < k1.len() && j < gs.len() implies goal_realizes(gs[j], base, r2, #[trigger] k2[j].1)
        == goal_realizes(gs[j], base, recs, k1[j].1) by {
        let s = k1[j].1;
        assert(full[j + (full.len() - k1.len())].1 == s);
        match s {
            GoalSource::Record(k) => {
                assert(k < recs.len());
                if k >= q {
                    assert(r2[k + 1] == recs[k as int]);
                } else {
                    assert(r2[k as int] == recs[k as int]);
                }
            },
            GoalSource::Base(_) => {},
        }
    }
    if goals_realize(gs, k1, base, recs) {
        assert forall|j: int| 0 <= j < k2.len() implies (#[trigger] gs[j]).goal_id@ == k2[j].0 && goal_realizes(
            gs[j],
            base,
            r2,
            k2[j].1,
        ) by {
            assert(goal_realizes(gs[j], base, r2, k2[j].1) == goal_realizes(gs[j], base, recs, k1[j].1));
        }
    }
    if goals_realize(gs, k2, base, r2) {
        assert forall|j: int| 0 <= j < k1.len() implies (#[trigger] gs[j]).goal_id@ == k1[j].0 && goal_realizes(
            gs[j],
            base,
            recs,
            k1[j].1,
        ) by {
            assert(goal_realizes(gs[j], base, r2, k2[j].1) == goal_realizes(gs[j], base, recs, k1[j].1));
        }
    }
}


pub open spec fn shift_positions(v: Seq<int>, q: int) -> Seq<int> {
    Seq::new(v.len(), |i: int| if v[i] >= q { v[i] + 1 } else { v[i] })
}

proof fn lemma_visible_moves_below(recs: Seq<ActorMoveEventRecord>)
    ensures
        forall|i: int|
            0 <= i < visible_move_records(recs).len() ==> 0 <= #[trigger] visible_move_records(recs)[i] < recs.len(),
    decreases recs.len(),
{
    if recs.len() > 0 {
        let d = recs.drop_last();
        lemma_visible_moves_below(d);
        let vd = visible_move_records(d);
        let v = visible_move_records(recs);
        assert forall|i: int| 0 <= i < v.len() implies 0 <= #[trigger] v[i] < recs.len() by {
            if i < vd.len() {
                assert(v[i] == vd[i]);
            }
        }
    }
}

proof fn lemma_visible_moves_hidden_insert(recs: Seq<ActorMoveEventRecord>, q: int, h: ActorMoveEventRecord)
    requires
        0 <= q <= recs.len(),
        h.visibility != ContextVisibility::PlayerVisible,
    ensures
        visible_move_records(recs.insert(q, h)) == shift_positions(visible_move_records(recs), q),
    decreases recs.len(),
{
    let r2 = recs.insert(q, h);
    if q == recs.len() {
        assert(r2.drop_last() =~= recs);
        lemma_visible_moves_below(recs);
        assert(shift_positions(visible_move_records(recs), q) =~= visible_move_records(recs));
    } else {
        let d = recs.drop_last();
        lemma_visible_moves_hidden_insert(d, q, h);
        assert(r2.drop_last() =~= d.insert(q, h));
        assert(r2.last() == recs.last());
        if recs.last().visibility == ContextVisibility::PlayerVisible {
            assert(shift_positions(visible_move_records(recs), q) =~= shift_positions(visible_move_records(d), q).push(
                r2.len() - 1,
            ));
        }
    }
}

/// Adding a hidden move record anywhere in the log, or taking one out, leaves
/// the kept moves exactly as they were.
pub proof fn law_hidden_move_records_change_nothing(
    base: Seq<ActorMove>,
    recs: Seq<ActorMoveEventRecord>,
    q: int,
    h: ActorMoveEventRecord,
    ms: Seq<ActorMove>,
)
    requires
        0 <= q <= recs.len(),
        h.visibility != ContextVisibility::PlayerVisible,
    ensures
        recent_moves_are(ms, base, recs) <==> recent_moves_are(ms, base, recs.insert(q, h)),
{
    let r2 = recs.insert(q, h);
    let v = visible_move_records(recs);
    lemma_visible_moves_hidden_insert(recs, q, h);
    lemma_visible_moves_below(recs);
    let n = base.len() + v.len();
    let kept = if n > RECENT_ACTOR_MOVE_BUDGET { RECENT_ACTOR_MOVE_BUDGET as int } else { n as int };
    assert(visible_move_records(r2).len() == v.len());
    assert forall|k: int| 0 <= k < kept && k < ms.len() implies move_is_at(#[trigger] ms[k], base, r2, n - kept + k)
        == move_is_at(ms[k], base, recs, n - kept + k) by {
        let i = n - kept + k;
        if i >= base.len() {
            let j = i - base.len();
            assert(0 <= v[j] < recs.len());
            if v[j] >= q {
                assert(r2[v[j] + 1] == recs[v[j]]);
            } else {
                assert(r2[v[j]] == recs[v[j]]);
            }
        }
    }
    if recent_moves_are(ms, base, recs) {
        assert forall|k: int| 0 <= k < kept implies move_is_at(#[trigger] ms[k], base, r2, n - kept + k) by {
            assert(move_is_at(ms[k], base, r2, n - kept + k) == move_is_at(ms[k], base, recs, n - kept + k));
        }
    }
    if recent_moves_are(ms, base, r2) {
        assert forall|k: int| 0 <= k < kept implies move_is_at(#[trigger] ms[k], base, recs, n - kept + k) by {
            assert(move_is_at(ms[k], base, r2, n - kept + k) == move_is_at(ms[k], base, recs, n - kept + k));
        }
    }
}

} // verus!
