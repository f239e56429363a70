//! The change ledger: before/after records of what a turn's typed deltas
//! changed, and the player-visible window of the latest ones.
use crate::character_text_design::CharacterTextDesignEventPlan;
use crate::clock::now_rfc3339;
use crate::plot_thread::{plot_status_label, plot_status_name, PlotThreadEventPlan};
use crate::relationship_graph::RelationshipGraphEventPlan;
use crate::response_context::ContextVisibility;
use crate::scene_pressure::{pressure_change_label, pressure_change_name, ScenePressureEventPlan};
use crate::text::{
    clone_strings, concat3, concat4, dec2_string, dec_padded, lemma_views_push, to_lowercase,
    unicode_lowercase, views,
};
use crate::world_lore::WorldLoreUpdatePlan;
use vstd::prelude::*;

verus! {

pub const CHANGE_LEDGER_SCHEMA_VERSION: &'static str = "singulari.change_ledger.v1";
pub const CHANGE_EVENT_SCHEMA_VERSION: &'static str = "singulari.change_event.v1";
pub const CHANGE_LEDGER_FILENAME: &'static str = "change_ledger.json";
pub const CHANGE_EVENTS_FILENAME: &'static str = "change_events.jsonl";
pub const ACTIVE_CHANGE_BUDGET: usize = 12;

#[derive(Debug, Clone)]
pub struct ChangeLedgerPacket {
    pub schema_version: String,
    pub world_id: String,
    pub turn_id: String,
    pub active_changes: Vec<ChangeEventRecord>,
    pub compiler_policy: ChangeLedgerPolicy,
}

impl Default for ChangeLedgerPacket {
    fn default() -> (r: Self)
        ensures
            r.schema_version@ == CHANGE_LEDGER_SCHEMA_VERSION@,
            r.world_id@.len() == 0,
            r.turn_id@.len() == 0,
            r.active_changes@.len() == 0,
    {
        ChangeLedgerPacket {
            schema_version: String::from_str(CHANGE_LEDGER_SCHEMA_VERSION),
            world_id: String::new(),
            turn_id: String::new(),
            active_changes: Vec::new(),
            compiler_policy: ChangeLedgerPolicy::default(),
        }
    }
}

#[derive(Debug, Clone)]
pub struct ChangeEventPlan {
    pub world_id: String,
    pub turn_id: String,
    pub records: Vec<ChangeEventRecord>,
}

#[derive(Debug, Clone)]
pub struct ChangeEventRecord {
    pub schema_version: String,
    pub world_id: String,
    pub turn_id: String,
    pub change_id: String,
    pub axis: ChangeAxis,
    pub target_id: String,
    pub before: String,
    pub after: String,
    pub cause_turns: Vec<String>,
    pub player_visible: bool,
    pub revival_triggers: Vec<String>,
    pub evidence_refs: Vec<String>,
    pub recorded_at: String,
}

#[derive(Debug, Clone, Copy, PartialEq, Eq, Structural)]
pub enum ChangeAxis {
    Relationship,
    WorldLore,
    CharacterTextDesign,
    PlotThread,
    ScenePressure,
}

/// The name of an axis, as `Debug` writes it.
pub open spec fn axis_name(a: ChangeAxis) -> Seq<char> {
    match a {
        ChangeAxis::Relationship => "Relationship"@,
        ChangeAxis::WorldLore => "WorldLore"@,
        ChangeAxis::CharacterTextDesign => "CharacterTextDesign"@,
        ChangeAxis::PlotThread => "PlotThread"@,
        ChangeAxis::ScenePressure => "ScenePressure"@,
    }
}

fn axis_label(a: ChangeAxis) -> (r: &'static str)
    ensures
        r@ == axis_name(a),
{
    match a {
        ChangeAxis::Relationship => "Relationship",
        ChangeAxis::WorldLore => "WorldLore",
        ChangeAxis::CharacterTextDesign => "CharacterTextDesign",
        ChangeAxis::PlotThread => "PlotThread",
        ChangeAxis::ScenePressure => "ScenePressure",
    }
}

#[derive(Debug, Clone)]
pub struct ChangeLedgerPolicy {
    pub source: String,
    pub active_change_budget: usize,
    pub use_rules: Vec<String>,
}

/// The change ledger's standard policy: its source, its budget and its three
/// use rules.
pub open spec fn is_default_change_policy(p: ChangeLedgerPolicy) -> bool {
    &&& p.source@ == "compiled_from_typed_turn_deltas_v1"@
    &&& p.active_change_budget == ACTIVE_CHANGE_BUDGET
    &&& views(p.use_rules@) == seq![
        "Change ledger records before/after pressure; it is not a raw event transcript."@,
        "Prompt revival should prefer player-visible changes over old raw facts when both explain the same current scene."@,
        "Hidden or adjudication-only changes stay out of this player-visible packet."@,
    ]
}

impl Default for ChangeLedgerPolicy {
    fn default() -> (r: Self)
        ensures
            r.source@ == "compiled_from_typed_turn_deltas_v1"@,
            r.active_change_budget == ACTIVE_CHANGE_BUDGET,
            r.use_rules@.len() == 3,
            is_default_change_policy(r),
    {
        let mut use_rules: Vec<String> = Vec::new();
        use_rules.push(String::from_str("Change ledger records before/after pressure; it is not a raw event transcript."));
        use_rules.push(String::from_str("Prompt revival should prefer player-visible changes over old raw facts when both explain the same current scene."));
        use_rules.push(String::from_str("Hidden or adjudication-only changes stay out of this player-visible packet."));
        assert(views(use_rules@) =~= seq![
            "Change ledger records before/after pressure; it is not a raw event transcript."@,
            "Prompt revival should prefer player-visible changes over old raw facts when both explain the same current scene."@,
            "Hidden or adjudication-only changes stay out of this player-visible packet."@,
        ]);
        ChangeLedgerPolicy {
            source: String::from_str("compiled_from_typed_turn_deltas_v1"),
            active_change_budget: ACTIVE_CHANGE_BUDGET,
            use_rules,
        }
    }
}

/// A turn's typed delta plans, already validated.
pub struct ChangeEventPlanInput<'a> {
    pub world_id: &'a str,
    pub turn_id: &'a str,
    pub relationship_graph_events: &'a RelationshipGraphEventPlan,
    pub world_lore_updates: &'a WorldLoreUpdatePlan,
    pub character_text_design_events: &'a CharacterTextDesignEventPlan,
    pub plot_thread_events: &'a PlotThreadEventPlan,
    pub scene_pressure_events: &'a ScenePressureEventPlan,
}

// ---------------------------------------------------------------------------
// From deltas to change records.
// ---------------------------------------------------------------------------

/// What one delta changed, before it is numbered and stamped.
pub struct ChangeSeed {
    pub axis: ChangeAxis,
    pub target_id: Seq<char>,
    pub before: Seq<char>,
    pub after: Seq<char>,
    pub player_visible: bool,
    pub revival_triggers: Seq<Seq<char>>,
    pub evidence_refs: Seq<Seq<char>>,
}

pub open spec fn relationship_seeds(p: RelationshipGraphEventPlan) -> Seq<ChangeSeed> {
    Seq::new(
        p.records@.len(),
        |i: int|
            {
                let e = p.records@[i];
                ChangeSeed {
                    axis: ChangeAxis::Relationship,
                    target_id: e.source_entity_id@ + "->"@ + e.target_entity_id@,
                    before: "previous relationship stance"@,
                    after: e.summary@,
                    player_visible: e.visibility == ContextVisibility::PlayerVisible,
                    revival_triggers: seq![e.source_entity_id@, e.target_entity_id@, e.relation_kind@],
                    evidence_refs: views(e.evidence_refs@),
                }
            },
    )
}

pub open spec fn lore_seeds(p: WorldLoreUpdatePlan) -> Seq<ChangeSeed> {
    Seq::new(
        p.records@.len(),
        |i: int|
            {
                let u = p.records@[i];
                ChangeSeed {
                    axis: ChangeAxis::WorldLore,
                    target_id: u.category@ + ":"@ + u.subject@,
                    before: "unrecorded or less specific lore"@,
                    after: u.summary@,
                    player_visible: u.visibility == ContextVisibility::PlayerVisible,
                    revival_triggers: seq![u.subject@, u.category@],
                    evidence_refs: views(u.evidence_refs@),
                }
            },
    )
}

pub open spec fn design_seeds(p: CharacterTextDesignEventPlan) -> Seq<ChangeSeed> {
    Seq::new(
        p.records@.len(),
        |i: int|
            {
                let e = p.records@[i];
                ChangeSeed {
                    axis: ChangeAxis::CharacterTextDesign,
                    target_id: e.character_id@,
                    before: "previous speech or gesture design"@,
                    after: e.drift_note@,
                    player_visible: e.visibility == ContextVisibility::PlayerVisible,
                    revival_triggers: seq![e.character_id@],
                    evidence_refs: views(e.evidence_refs@),
                }
            },
    )
}

pub open spec fn plot_seeds(p: PlotThreadEventPlan) -> Seq<ChangeSeed> {
    Seq::new(
        p.records@.len(),
        |i: int|
            {
                let e = p.records@[i];
                ChangeSeed {
                    axis: ChangeAxis::PlotThread,
                    target_id: e.thread_id@,
                    before: "previous thread state"@,
                    after: e.summary@,
                    player_visible: true,
                    revival_triggers: seq![e.thread_id@, plot_status_name(e.status_after)],
                    evidence_refs: views(e.evidence_refs@),
                }
            },
    )
}

pub open spec fn pressure_seeds(p: ScenePressureEventPlan) -> Seq<ChangeSeed> {
    Seq::new(
        p.records@.len(),
        |i: int|
            {
                let e = p.records@[i];
                ChangeSeed {
                    axis: ChangeAxis::ScenePressure,
                    target_id: e.pressure_id@,
                    before: "previous scene pressure"@,
                    after: e.summary@,
                    player_visible: true,
                    revival_triggers: seq![e.pressure_id@, pressure_change_name(e.change)],
                    evidence_refs: views(e.evidence_refs@),
                }
            },
    )
}

/// The changes of a turn, in order: relationships, lore, character text
/// designs, plot threads, scene pressures.
pub open spec fn change_seeds(input: ChangeEventPlanInput) -> Seq<ChangeSeed> {
    relationship_seeds(*input.relationship_graph_events) + lore_seeds(*input.world_lore_updates) + design_seeds(
        *input.character_text_design_events,
    ) + plot_seeds(*input.plot_thread_events) + pressure_seeds(*input.scene_pressure_events)
}

/// The record of the `k`-th change of a turn.
pub open spec fn change_record_is(
    r: ChangeEventRecord,
    world_id: Seq<char>,
    turn_id: Seq<char>,
    k: int,
    s: ChangeSeed,
    recorded_at: Seq<char>,
) -> bool {
    &&& r.schema_version@ == CHANGE_EVENT_SCHEMA_VERSION@
    &&& r.world_id@ == world_id
    &&& r.turn_id@ == turn_id
    &&& r.change_id@ == unicode_lowercase("change:"@ + axis_name(s.axis) + ":"@ + turn_id + ":"@ + dec_padded(k as nat, 2))
    &&& r.axis == s.axis
    &&& r.target_id@ == s.target_id
    &&& r.before@ == s.before
    &&& r.after@ == s.after
    &&& views(r.cause_turns@) == seq![turn_id]
    &&& r.player_visible == s.player_visible
    &&& views(r.revival_triggers@) == s.revival_triggers
    &&& views(r.evidence_refs@) == s.evidence_refs
    &&& r.recorded_at@ == recorded_at
}

pub open spec fn change_plan_is(
    plan: ChangeEventPlan,
    input: ChangeEventPlanInput,
    recorded_at: Seq<char>,
) -> bool {
    let seeds = change_seeds(input);
    &&& plan.world_id@ == input.world_id@
    &&& plan.turn_id@ == input.turn_id@
    &&& plan.records@.len() == seeds.len()
    &&& forall|k: int|
        0 <= k < seeds.len() ==> change_record_is(
            #[trigger] plan.records@[k],
            input.world_id@,
            input.turn_id@,
            k,
            seeds[k],
            recorded_at,
        )
}

/// Appends the next change record of a turn.
fn push_change(
    records: &mut Vec<ChangeEventRecord>,
    world_id: &str,
    turn_id: &str,
    recorded_at: &str,
    axis: ChangeAxis,
    target_id: String,
    before: &str,
    after: String,
    player_visible: bool,
    revival_triggers: Vec<String>,
    evidence_refs: Vec<String>,
)
    ensures
        final(records)@.len() == old(records)@.len() + 1,
        forall|k: int| 0 <= k < old(records)@.len() ==> final(records)@[k] == old(records)@[k],
        change_record_is(
            final(records)@[old(records)@.len() as int],
            world_id@,
            turn_id@,
            old(records)@.len() as int,
            ChangeSeed {
                axis,
                target_id: target_id@,
                before: before@,
                after: after@,
                player_visible,
                revival_triggers: views(revival_triggers@),
                evidence_refs: views(evidence_refs@),
            },
            recorded_at@,
        ),
{
    let index = records.len();
    let number = dec2_string(index as u64);
    let raw = concat4("change:", axis_label(axis), ":", turn_id);
    let raw = concat3(raw.as_str(), ":", number.as_str());
    let change_id = to_lowercase(raw.as_str());
    let mut cause_turns: Vec<String> = Vec::new();
    cause_turns.push(String::from_str(turn_id));
    assert(views(cause_turns@) =~= seq![turn_id@]);
    records.push(
        ChangeEventRecord {
            schema_version: String::from_str(CHANGE_EVENT_SCHEMA_VERSION),
            world_id: String::from_str(world_id),
            turn_id: String::from_str(turn_id),
            change_id,
            axis,
            target_id,
            before: String::from_str(before),
            after,
            cause_turns,
            player_visible,
            revival_triggers,
            evidence_refs,
            recorded_at: String::from_str(recorded_at),
        },
    );
}

fn three_strings(a: String, b: String, c: String) -> (r: Vec<String>)
    ensures
        views(r@) == seq![a@, b@, c@],
{
    let mut v: Vec<String> = Vec::new();
    v.push(a);
    v.push(b);
    v.push(c);
    assert(views(v@) =~= seq![a@, b@, c@]);
    v
}

fn two_strings(a: String, b: String) -> (r: Vec<String>)
    ensures
        views(r@) == seq![a@, b@],
{
    let mut v: Vec<String> = Vec::new();
    v.push(a);
    v.push(b);
    assert(views(v@) =~= seq![a@, b@]);
    v
}

fn one_string(a: String) -> (r: Vec<String>)
    ensures
        views(r@) == seq![a@],
{
    let mut v: Vec<String> = Vec::new();
    v.push(a);
    assert(views(v@) =~= seq![a@]);
    v
}

/// The records of a turn's changes at the given time (see `change_seeds`).
pub fn plan_change_events(input: ChangeEventPlanInput, recorded_at: &str) -> (r: ChangeEventPlan)
    ensures
        change_plan_is(r, input, recorded_at@),
{
    let ghost seeds = change_seeds(input);
    let world_id = input.world_id;
    let turn_id = input.turn_id;
    let mut records: Vec<ChangeEventRecord> = Vec::new();
    let ghost o1 = relationship_seeds(*input.relationship_graph_events).len();
    let ghost o2 = o1 + lore_seeds(*input.world_lore_updates).len();
    let ghost o3 = o2 + design_seeds(*input.character_text_design_events).len();
    let ghost o4 = o3 + plot_seeds(*input.plot_thread_events).len();
    let rel = &input.relationship_graph_events.records;
    let mut i: usize = 0;
    while i < rel.len()
        invariant
            i <= rel@.len(),
            rel@ == input.relationship_graph_events.records@,
            seeds == change_seeds(input),
            records@.len() == i,
            forall|k: int|
                0 <= k < records@.len() ==> change_record_is(
                    #[trigger] records@[k],
                    world_id@,
                    turn_id@,
                    k,
                    seeds[k],
                    recorded_at@,
                ),
        decreases rel.len() - i,
    {
        let e = &rel[i];
        let target = concat3(e.source_entity_id.as_str(), "->", e.target_entity_id.as_str());
        let visible = match e.visibility {
            ContextVisibility::PlayerVisible => true,
            ContextVisibility::AdjudicationOnly => false,
        };
        let triggers = three_strings(e.source_entity_id.clone(), e.target_entity_id.clone(), e.relation_kind.clone());
        push_change(
            &mut records,
            world_id,
            turn_id,
            recorded_at,
            ChangeAxis::Relationship,
            target,
            "previous relationship stance",
            e.summary.clone(),
            visible,
            triggers,
            clone_strings(&e.evidence_refs),
        );
        proof {
            assert(seeds[i as int] == relationship_seeds(*input.relationship_graph_events)[i as int]);
        }
        i = i + 1;
    }
    let lore = &input.world_lore_updates.records;
    let mut i: usize = 0;
    while i < lore.len()
        invariant
            i <= lore@.len(),
            lore@ == input.world_lore_updates.records@,
            seeds == change_seeds(input),
            o1 == relationship_seeds(*input.relationship_graph_events).len(),
            records@.len() == o1 + i,
            forall|k: int|
                0 <= k < records@.len() ==> change_record_is(
                    #[trigger] records@[k],
                    world_id@,
                    turn_id@,
                    k,
                    seeds[k],
                    recorded_at@,
                ),
        decreases lore.len() - i,
    {
        let u = &lore[i];
        let target = concat3(u.category.as_str(), ":", u.subject.as_str());
        let visible = match u.visibility {
            ContextVisibility::PlayerVisible => true,
            ContextVisibility::AdjudicationOnly => false,
        };
        let triggers = two_strings(u.subject.clone(), u.category.clone());
        push_change(
            &mut records,
            world_id,
            turn_id,
            recorded_at,
            ChangeAxis::WorldLore,
            target,
            "unrecorded or less specific lore",
            u.summary.clone(),
            visible,
            triggers,
            clone_strings(&u.evidence_refs),
        );
        proof {
            assert(seeds[o1 + i] == lore_seeds(*input.world_lore_updates)[i as int]);
        }
        i = i + 1;
    }
    let designs = &input.character_text_design_events.records;
    let mut i: usize = 0;
    while i < designs.len()
        invariant
            i <= designs@.len(),
            designs@ == input.character_text_design_events.records@,
            seeds == change_seeds(input),
            o2 == o1 + lore_seeds(*input.world_lore_updates).len(),
            o1 == relationship_seeds(*input.relationship_graph_events).len(),
            records@.len() == o2 + i,
            forall|k: int|
                0 <= k < records@.len() ==> change_record_is(
                    #[trigger] records@[k],
                    world_id@,
                    turn_id@,
                    k,
                    seeds[k],
                    recorded_at@,
                ),
        decreases designs.len() - i,
    {
        let e = &designs[i];
        let visible = match e.visibility {
            ContextVisibility::PlayerVisible => true,
            ContextVisibility::AdjudicationOnly => false,
        };
        let triggers = one_string(e.character_id.clone());
        push_change(
            &mut records,
            world_id,
            turn_id,
            recorded_at,
            ChangeAxis::CharacterTextDesign,
            e.character_id.clone(),
            "previous speech or gesture design",
            e.drift_note.clone(),
            visible,
            triggers,
            clone_strings(&e.evidence_refs),
        );
        proof {
            assert(seeds[o2 + i] == design_seeds(*input.character_text_design_events)[i as int]);
        }
        i = i + 1;
    }
    let plots = &input.plot_thread_events.records;
    let mut i: usize = 0;
    while i < plots.len()
        invariant
            i <= plots@.len(),
            plots@ == input.plot_thread_events.records@,
            seeds == change_seeds(input),
            o3 == o2 + design_seeds(*input.character_text_design_events).len(),
            o2 == o1 + lore_seeds(*input.world_lore_updates).len(),
            o1 == relationship_seeds(*input.relationship_graph_events).len(),
            records@.len() == o3 + i,
            forall|k: int|
                0 <= k < records@.len() ==> change_record_is(
                    #[trigger] records@[k],
                    world_id@,
                    turn_id@,
                    k,
                    seeds[k],
                    recorded_at@,
                ),
        decreases plots.len() - i,
    {
        let e = &plots[i];
        let triggers = two_strings(e.thread_id.clone(), String::from_str(plot_status_label(e.status_after)));
        push_change(
            &mut records,
            world_id,
            turn_id,
            recorded_at,
            ChangeAxis::PlotThread,
            e.thread_id.clone(),
            "previous thread state",
            e.summary.clone(),
            true,
            triggers,
            clone_strings(&e.evidence_refs),
        );
        proof {
            assert(seeds[o3 + i] == plot_seeds(*input.plot_thread_events)[i as int]);
        }
        i = i + 1;
    }
    let pressures = &input.scene_pressure_events.records;
    let mut i: usize = 0;
    while i < pressures.len()
        invariant
            i <= pressures@.len(),
            pressures@ == input.scene_pressure_events.records@,
            seeds == change_seeds(input),
            o4 == o3 + plot_seeds(*input.plot_thread_events).len(),
            o3 == o2 + design_seeds(*input.character_text_design_events).len(),
            o2 == o1 + lore_seeds(*input.world_lore_updates).len(),
            o1 == relationship_seeds(*input.relationship_graph_events).len(),
            records@.len() == o4 + i,
            forall|k: int|
                0 <= k < records@.len() ==> change_record_is(
                    #[trigger] records@[k],
                    world_id@,
                    turn_id@,
                    k,
                    seeds[k],
                    recorded_at@,
                ),
        decreases pressures.len() - i,
    {
        let e = &pressures[i];
        let triggers = two_strings(e.pressure_id.clone(), String::from_str(pressure_change_label(e.change)));
        push_change(
            &mut records,
            world_id,
            turn_id,
            recorded_at,
            ChangeAxis::ScenePressure,
            e.pressure_id.clone(),
            "previous scene pressure",
            e.summary.clone(),
            true,
            triggers,
            clone_strings(&e.evidence_refs),
        );
        proof {
            assert(seeds[o4 + i] == pressure_seeds(*input.scene_pressure_events)[i as int]);
        }
        i = i + 1;
    }
    ChangeEventPlan { world_id: String::from_str(world_id), turn_id: String::from_str(turn_id), records }
}

/// The records of a turn's changes, stamped with the current time (of
/// which nothing is promised).
pub fn prepare_change_event_plan(input: ChangeEventPlanInput) -> (out: Option<ChangeEventPlan>)
    ensures
        out is Some ==> exists|t: Seq<char>| #[trigger] change_plan_is(out->0, input, t),
{
    let now = match now_rfc3339() {
        Some(t) => t,
        None => return None,
    };
    let plan = plan_change_events(input, now.as_str());
    assert(change_plan_is(plan, input, now@));
    let out = Some(plan);
    assert(out->0 == plan);
    out
}

// ---------------------------------------------------------------------------
// The player-visible window.
// ---------------------------------------------------------------------------

/// The positions of the player-visible records, in order.
pub open spec fn visible_positions(rs: Seq<ChangeEventRecord>) -> Seq<int>
    decreases rs.len(),
{
    if rs.len() == 0 {
        Seq::empty()
    } else if rs.last().player_visible {
        visible_positions(rs.drop_last()).push(rs.len() - 1)
    } else {
        visible_positions(rs.drop_last())
    }
}

/// The latest player-visible records, at most the budget, oldest first.
pub open spec fn active_window(rs: Seq<ChangeEventRecord>) -> Seq<int> {
    let v = visible_positions(rs);
    if v.len() > ACTIVE_CHANGE_BUDGET {
        v.subrange(v.len() - ACTIVE_CHANGE_BUDGET, v.len() as int)
    } else {
        v
    }
}

pub open spec fn same_change(a: ChangeEventRecord, b: ChangeEventRecord) -> bool {
    &&& a.schema_version@ == b.schema_version@
    &&& a.world_id@ == b.world_id@
    &&& a.turn_id@ == b.turn_id@
    &&& a.change_id@ == b.change_id@
    &&& a.axis == b.axis
    &&& a.target_id@ == b.target_id@
    &&& a.before@ == b.before@
    &&& a.after@ == b.after@
    &&& a.cause_turns@ == b.cause_turns@
    &&& a.player_visible == b.player_visible
    &&& a.revival_triggers@ == b.revival_triggers@
    &&& a.evidence_refs@ == b.evidence_refs@
    &&& a.recorded_at@ == b.recorded_at@
}

fn copy_change(r: &ChangeEventRecord) -> (c: ChangeEventRecord)
    ensures
        same_change(c, *r),
{
    ChangeEventRecord {
        schema_version: r.schema_version.clone(),
        world_id: r.world_id.clone(),
        turn_id: r.turn_id.clone(),
        change_id: r.change_id.clone(),
        axis: r.axis,
        target_id: r.target_id.clone(),
        before: r.before.clone(),
        after: r.after.clone(),
        cause_turns: clone_strings(&r.cause_turns),
        player_visible: r.player_visible,
        revival_triggers: clone_strings(&r.revival_triggers),
        evidence_refs: clone_strings(&r.evidence_refs),
        recorded_at: r.recorded_at.clone(),
    }
}

proof fn lemma_visible_positions_bounds(rs: Seq<ChangeEventRecord>)
    ensures
        forall|k: int|
            0 <= k < visible_positions(rs).len() ==> 0 <= #[trigger] visible_positions(rs)[k] < rs.len()
                && rs[visible_positions(rs)[k]].player_visible,
    decreases rs.len(),
{
    if rs.len() > 0 {
        lemma_visible_positions_bounds(rs.drop_last());
        let p = visible_positions(rs.drop_last());
        assert forall|k: int| 0 <= k < p.len() implies rs[p[k]] == rs.drop_last()[p[k]] by {}
    }
}

/// The change ledger from the change log: the latest player-visible changes
/// within the budget, oldest first.
pub fn rebuild_change_ledger(base_packet: &ChangeLedgerPacket, records: &Vec<ChangeEventRecord>) -> (r:
    ChangeLedgerPacket)
    ensures
        r.schema_version@ == CHANGE_LEDGER_SCHEMA_VERSION@,
        r.world_id == base_packet.world_id,
        r.turn_id == base_packet.turn_id,
        r.active_changes@.len() == active_window(records@).len(),
        forall|k: int|
            0 <= k < r.active_changes@.len() ==> same_change(
                #[trigger] r.active_changes@[k],
                records@[active_window(records@)[k]],
            ),
        forall|k: int| 0 <= k < r.active_changes@.len() ==> (#[trigger] r.active_changes@[k]).player_visible,
        r.compiler_policy.source@ == "compiled_from_typed_turn_deltas_v1"@,
        is_default_change_policy(r.compiler_policy),
{
    let ghost rs = records@;
    let mut positions: Vec<usize> = Vec::new();
    let mut i: usize = 0;
    while i < records.len()
        invariant
            i <= rs.len(),
            rs == records@,
            positions@.len() == visible_positions(rs.subrange(0, i as int)).len(),
            forall|k: int|
                0 <= k < positions@.len() ==> #[trigger] positions@[k] as int == visible_positions(
                    rs.subrange(0, i as int),
                )[k],
        decreases records.len() - i,
    {
        proof {
            assert(rs.subrange(0, i + 1).drop_last() =~= rs.subrange(0, i as int));
            assert(rs.subrange(0, i + 1).last() == rs[i as int]);
        }
        if records[i].player_visible {
            positions.push(i);
        }
        i = i + 1;
    }
    proof {
        assert(rs.subrange(0, rs.len() as int) =~= rs);
        lemma_visible_positions_bounds(rs);
    }
    let ghost vis = visible_positions(rs);
    let ghost win = active_window(rs);
    let n = positions.len();
    let start: usize = if n > ACTIVE_CHANGE_BUDGET {
        n - ACTIVE_CHANGE_BUDGET
    } else {
        0
    };
    let mut active_changes: Vec<ChangeEventRecord> = Vec::new();
    let mut k: usize = start;
    while k < n
        invariant
            start <= k <= n,
            n == positions@.len(),
            n == vis.len(),
            vis == visible_positions(rs),
            win == active_window(rs),
            start == (if n > ACTIVE_CHANGE_BUDGET { n - ACTIVE_CHANGE_BUDGET } else { 0 }),
            rs == records@,
            forall|j: int| 0 <= j < n ==> #[trigger] positions@[j] as int == vis[j],
            forall|j: int| 0 <= j < vis.len() ==> 0 <= #[trigger] vis[j] < rs.len() && rs[vis[j]].player_visible,
            active_changes@.len() == k - start,
            forall|j: int|
                0 <= j < active_changes@.len() ==> same_change(#[trigger] active_changes@[j], rs[win[j]]),
        decreases n - k,
    {
        let p = positions[k];
        let c = copy_change(&records[p]);
        proof {
            assert(win[(k - start) as int] == vis[k as int]);
        }
        active_changes.push(c);
        proof {
            assert forall|j: int| 0 <= j < active_changes@.len() implies same_change(
                #[trigger] active_changes@[j],
                rs[win[j]],
            ) by {
                if j == k - start {
                    assert(active_changes@[j] == c);
                }
            }
        }
        k = k + 1;
    }
    proof {
        assert forall|j: int| 0 <= j < active_changes@.len() implies (#[trigger] active_changes@[j]).player_visible by {
            assert(win[j] == vis[j + start]);
        }
    }
    let policy = ChangeLedgerPolicy::default();
    ChangeLedgerPacket {
        schema_version: String::from_str(CHANGE_LEDGER_SCHEMA_VERSION),
        world_id: base_packet.world_id.clone(),
        turn_id: base_packet.turn_id.clone(),
        active_changes,
        compiler_policy: policy,
    }
}

} // verus!
