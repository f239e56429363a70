//! Replaying encounter events over a base packet: closures remove surfaces,
//! mutations open or replace them, and the packet keeps the live surfaces
//! by salience, the latest changes, the latest blocked interactions and the
//! replacement follow-ups.
use crate::encounter_surface::{
    compile_choice_contracts, contracts_follow, salience_rank, BlockedInteraction,
    EncounterActionKind, EncounterAffordance, EncounterSalience, EncounterSurface,
    EncounterSurfaceChange, EncounterSurfaceEventRecord, EncounterSurfaceLifecycle,
    EncounterSurfaceMutation, EncounterSurfacePacket, EncounterSurfacePolicy,
    EncounterSurfaceStatus, ENCOUNTER_SURFACE_PACKET_SCHEMA_VERSION,
    ENCOUNTER_SURFACE_SCHEMA_VERSION, ACTIVE_SURFACE_BUDGET, BLOCKED_INTERACTION_BUDGET,
    RECENT_CHANGE_BUDGET, REQUIRED_FOLLOWUP_BUDGET,
};
use crate::location_graph::take_at_most;
use crate::text::{
    clone_strings, concat2, lemma_unique_insert_pos_is, seq_lt, sort_dedup, sort_dedup_strings,
    str_eq, str_lt, unique_insert_pos, views,
};
use vstd::prelude::*;

verus! {

/// Where the surface now kept under an id came from: a surface of the base
/// packet, or the mutation of a record.
#[derive(Debug, Clone, Copy, PartialEq, Eq, Structural)]
pub enum SurfaceSource {
    Base(usize),
    Record(usize),
}

/// The ids of entries kept by id, in id order, each with its source.
pub open spec fn source_ids<S>(st: Seq<(Seq<char>, S)>) -> Seq<Seq<char>> {
    Seq::new(st.len(), |i: int| st[i].0)
}

/// Keeps `src` under `id`: replaces the surface with that id, or inserts it
/// in id order.
pub open spec fn upsert_source<S>(st: Seq<(Seq<char>, S)>, id: Seq<char>, src: S) -> Seq<(Seq<char>, S)> {
    let p = unique_insert_pos(source_ids(st), id);
    if p < st.len() && st[p].0 == id {
        st.update(p, (id, src))
    } else {
        st.insert(p, (id, src))
    }
}

/// Drops the surface kept under `id`, if any.
pub open spec fn remove_source<S>(st: Seq<(Seq<char>, S)>, id: Seq<char>) -> Seq<(Seq<char>, S)> {
    let p = unique_insert_pos(source_ids(st), id);
    if p < st.len() && st[p].0 == id {
        st.remove(p)
    } else {
        st
    }
}

/// The base packet's surfaces, later ones replacing earlier ones of the same id.
pub open spec fn base_sources(base: Seq<EncounterSurface>) -> Seq<(Seq<char>, SurfaceSource)>
    decreases base.len(),
{
    if base.len() == 0 {
        Seq::empty()
    } else {
        upsert_source(
            base_sources(base.drop_last()),
            base.last().surface_id@,
            SurfaceSource::Base((base.len() - 1) as usize),
        )
    }
}

/// The records applied in order: a record's closure first, then its mutation.
pub open spec fn replay_sources(
    st: Seq<(Seq<char>, SurfaceSource)>,
    records: Seq<EncounterSurfaceEventRecord>,
) -> Seq<(Seq<char>, SurfaceSource)>
    decreases records.len(),
{
    if records.len() == 0 {
        st
    } else {
        let prev = replay_sources(st, records.drop_last());
        let rec = records.last();
        let closed = match rec.closure {
            Some(c) => remove_source(prev, c.surface_id@),
            None => prev,
        };
        match rec.mutation {
            Some(m) => upsert_source(closed, m.surface_id@, SurfaceSource::Record((records.len() - 1) as usize)),
            None => closed,
        }
    }
}

pub open spec fn source_status(
    base: Seq<EncounterSurface>,
    records: Seq<EncounterSurfaceEventRecord>,
    src: SurfaceSource,
) -> EncounterSurfaceStatus {
    match src {
        SurfaceSource::Base(b) => base[b as int].status,
        SurfaceSource::Record(k) => records[k as int].mutation.unwrap().status,
    }
}

pub open spec fn source_salience(
    base: Seq<EncounterSurface>,
    records: Seq<EncounterSurfaceEventRecord>,
    src: SurfaceSource,
) -> EncounterSalience {
    match src {
        SurfaceSource::Base(b) => base[b as int].salience,
        SurfaceSource::Record(k) => records[k as int].mutation.unwrap().salience,
    }
}

/// The surface a mutation opens at a record's turn.
pub open spec fn opened_by(s: EncounterSurface, m: EncounterSurfaceMutation, turn_id: String) -> bool {
    &&& s.schema_version@ == ENCOUNTER_SURFACE_SCHEMA_VERSION@
    &&& s.surface_id == m.surface_id
    &&& s.label == m.label
    &&& s.kind == m.kind
    &&& s.status == m.status
    &&& s.salience == m.salience
    &&& s.summary == m.summary
    &&& s.player_visible_signal == m.player_visible_signal
    &&& s.location_ref == m.location_ref
    &&& s.holder_ref == m.holder_ref
    &&& s.source_refs == m.source_refs
    &&& s.linked_entity_refs == m.linked_entity_refs
    &&& s.linked_pressure_refs == m.linked_pressure_refs
    &&& s.linked_social_refs == m.linked_social_refs
    &&& s.physical_anchors == m.physical_anchors
    &&& s.affordances == m.affordances
    &&& s.constraints == m.constraints
    &&& s.change_potential == m.change_potential
    &&& s.lifecycle.opened_turn_id == turn_id
    &&& s.lifecycle.last_changed_turn_id == turn_id
    &&& s.lifecycle.persistence == m.persistence
}

/// `s` is the surface its source gives.
pub open spec fn realizes(
    s: EncounterSurface,
    base: Seq<EncounterSurface>,
    records: Seq<EncounterSurfaceEventRecord>,
    src: SurfaceSource,
) -> bool {
    match src {
        SurfaceSource::Base(b) => s == base[b as int],
        SurfaceSource::Record(k) => opened_by(s, records[k as int].mutation.unwrap(), records[k as int].turn_id),
    }
}

pub open spec fn state_realizes(
    state: Seq<EncounterSurface>,
    st: Seq<(Seq<char>, SurfaceSource)>,
    base: Seq<EncounterSurface>,
    records: Seq<EncounterSurfaceEventRecord>,
) -> bool {
    &&& state.len() == st.len()
    &&& forall|j: int|
        0 <= j < st.len() ==> (#[trigger] state[j]).surface_id@ == st[j].0 && realizes(
            state[j],
            base,
            records,
            st[j].1,
        )
}

pub open spec fn is_live(status: EncounterSurfaceStatus) -> bool {
    !(status == EncounterSurfaceStatus::Gone || status == EncounterSurfaceStatus::Resolved || status
        == EncounterSurfaceStatus::Exhausted)
}

/// The live surfaces of one salience rank, in id order.
pub open spec fn live_of_rank(
    st: Seq<(Seq<char>, SurfaceSource)>,
    base: Seq<EncounterSurface>,
    records: Seq<EncounterSurfaceEventRecord>,
    rank: int,
) -> Seq<(Seq<char>, SurfaceSource)>
    decreases st.len(),
{
    if st.len() == 0 {
        Seq::empty()
    } else {
        let p = live_of_rank(st.drop_last(), base, records, rank);
        let e = st.last();
        if is_live(source_status(base, records, e.1)) && salience_rank(source_salience(base, records, e.1))
            == rank {
            p.push(e)
        } else {
            p
        }
    }
}

/// The live surfaces, most salient first and by id among equals.
pub open spec fn ordered_live(
    st: Seq<(Seq<char>, SurfaceSource)>,
    base: Seq<EncounterSurface>,
    records: Seq<EncounterSurfaceEventRecord>,
) -> Seq<(Seq<char>, SurfaceSource)> {
    live_of_rank(st, base, records, 3) + live_of_rank(st, base, records, 2) + live_of_rank(
        st,
        base,
        records,
        1,
    ) + live_of_rank(st, base, records, 0)
}

/// The active surfaces of the rebuilt packet.
pub open spec fn rebuilt_active(
    base: Seq<EncounterSurface>,
    records: Seq<EncounterSurfaceEventRecord>,
) -> Seq<(Seq<char>, SurfaceSource)> {
    take_at_most(
        ordered_live(replay_sources(base_sources(base), records), base, records),
        ACTIVE_SURFACE_BUDGET as nat,
    )
}

/// A change as text: surface id, summary, turn id, evidence refs.
pub open spec fn change_view(c: EncounterSurfaceChange) -> (Seq<char>, Seq<char>, Seq<char>, Seq<Seq<char>>) {
    (c.surface_id@, c.summary@, c.turn_id@, views(c.evidence_refs@))
}

/// The changes the records make, in record order.
pub open spec fn replay_changes(records: Seq<EncounterSurfaceEventRecord>) -> Seq<
    (Seq<char>, Seq<char>, Seq<char>, Seq<Seq<char>>),
>
    decreases records.len(),
{
    if records.len() == 0 {
        Seq::empty()
    } else {
        let prev = replay_changes(records.drop_last());
        let rec = records.last();
        let closed = match rec.closure {
            Some(c) => prev.push((c.surface_id@, c.summary@, rec.turn_id@, views(c.evidence_refs@))),
            None => prev,
        };
        match rec.mutation {
            Some(m) => closed.push((m.surface_id@, m.summary@, rec.turn_id@, views(m.source_refs@))),
            None => closed,
        }
    }
}

/// A blocked interaction as text and kind.
pub open spec fn blocked_view(b: BlockedInteraction) -> (
    Seq<char>,
    EncounterActionKind,
    Seq<char>,
    Seq<Seq<char>>,
    Seq<Seq<char>>,
) {
    (b.surface_id@, b.action_kind, b.reason@, views(b.unblock_refs@), views(b.evidence_refs@))
}

/// The first affordance's action, or inspecting.
pub open spec fn first_action(affordances: Seq<EncounterAffordance>) -> EncounterActionKind {
    if affordances.len() > 0 {
        affordances[0].action_kind
    } else {
        EncounterActionKind::Inspect
    }
}

/// One blocked interaction per constraint of a blocked or locked mutation.
pub open spec fn blocked_of(m: EncounterSurfaceMutation) -> Seq<
    (Seq<char>, EncounterActionKind, Seq<char>, Seq<Seq<char>>, Seq<Seq<char>>),
> {
    if m.status == EncounterSurfaceStatus::Blocked || m.status == EncounterSurfaceStatus::Locked {
        Seq::new(
            m.constraints@.len(),
            |i: int|
                (
                    m.surface_id@,
                    first_action(m.affordances@),
                    m.constraints@[i].visible_reason@,
                    views(m.constraints@[i].unblock_refs@),
                    views(m.constraints@[i].evidence_refs@),
                ),
        )
    } else {
        Seq::empty()
    }
}

pub open spec fn replay_blocked(records: Seq<EncounterSurfaceEventRecord>) -> Seq<
    (Seq<char>, EncounterActionKind, Seq<char>, Seq<Seq<char>>, Seq<Seq<char>>),
>
    decreases records.len(),
{
    if records.len() == 0 {
        Seq::empty()
    } else {
        match records.last().mutation {
            Some(m) => replay_blocked(records.drop_last()) + blocked_of(m),
            None => replay_blocked(records.drop_last()),
        }
    }
}

/// `replacement_surface:<id>` for each closure that names a replacement.
pub open spec fn replay_followups(records: Seq<EncounterSurfaceEventRecord>) -> Seq<Seq<char>>
    decreases records.len(),
{
    if records.len() == 0 {
        Seq::empty()
    } else {
        let prev = replay_followups(records.drop_last());
        match records.last().closure {
            Some(c) => match c.replacement_surface_id {
                Some(x) => prev.push("replacement_surface:"@ + x@),
                None => prev,
            },
            None => prev,
        }
    }
}

// ---------------------------------------------------------------------------
// The kept surfaces.
// ---------------------------------------------------------------------------

/// Where `id` belongs among the kept surfaces, which are in id order.
fn surface_position(
    state: &Vec<EncounterSurface>,
    id: &str,
    Ghost(st): Ghost<Seq<(Seq<char>, SurfaceSource)>>,
) -> (r: usize)
    requires
        state@.len() == st.len(),
        forall|j: int| 0 <= j < st.len() ==> (#[trigger] state@[j]).surface_id@ == st[j].0,
    ensures
        r as int == unique_insert_pos(source_ids(st), id@),
        r <= state@.len(),
{
    let mut k: usize = 0;
    while k < state.len() && str_lt(state[k].surface_id.as_str(), id)
        invariant
            k <= state@.len(),
            state@.len() == st.len(),
            forall|j: int| 0 <= j < st.len() ==> (#[trigger] state@[j]).surface_id@ == st[j].0,
            forall|j: int| 0 <= j < k ==> seq_lt(#[trigger] source_ids(st)[j], id@),
        decreases state.len() - k,
    {
        assert(source_ids(st)[k as int] == st[k as int].0);
        k = k + 1;
    }
    proof {
        if k < state@.len() {
            assert(source_ids(st)[k as int] == st[k as int].0);
        }
        lemma_unique_insert_pos_is(source_ids(st), id@, k as int);
    }
    k
}

fn keep_surface(
    state: &mut Vec<EncounterSurface>,
    s: EncounterSurface,
    Ghost(st): Ghost<Seq<(Seq<char>, SurfaceSource)>>,
    Ghost(src): Ghost<SurfaceSource>,
    Ghost(base): Ghost<Seq<EncounterSurface>>,
    Ghost(records): Ghost<Seq<EncounterSurfaceEventRecord>>,
)
    requires
        state_realizes(old(state)@, st, base, records),
        realizes(s, base, records, src),
    ensures
        state_realizes(final(state)@, upsert_source(st, s.surface_id@, src), base, records),
{
    let ghost id = s.surface_id@;
    let p = surface_position(state, s.surface_id.as_str(), Ghost(st));
    let ghost before = state@;
    if p < state.len() && str_eq(state[p].surface_id.as_str(), s.surface_id.as_str()) {
        state.remove(p);
        state.insert(p, s);
        proof {
            let st2 = upsert_source(st, id, src);
            assert(st2 == st.update(p as int, (id, src)));
            assert forall|j: int| 0 <= j < st2.len() implies (#[trigger] state@[j]).surface_id@ == st2[j].0
                && realizes(state@[j], base, records, st2[j].1) by {
                if j != p {
                    assert(state@[j] == before[j]);
                }
            }
        }
    } else {
        state.insert(p, s);
        proof {
            let st2 = upsert_source(st, id, src);
            assert(st2 == st.insert(p as int, (id, src)));
            assert forall|j: int| 0 <= j < st2.len() implies (#[trigger] state@[j]).surface_id@ == st2[j].0
                && realizes(state@[j], base, records, st2[j].1) by {
                if j < p {
                    assert(state@[j] == before[j]);
                } else if j > p {
                    assert(state@[j] == before[j - 1]);
                }
            }
        }
    }
}

fn drop_surface(
    state: &mut Vec<EncounterSurface>,
    id: &str,
    Ghost(st): Ghost<Seq<(Seq<char>, SurfaceSource)>>,
    Ghost(base): Ghost<Seq<EncounterSurface>>,
    Ghost(records): Ghost<Seq<EncounterSurfaceEventRecord>>,
)
    requires
        state_realizes(old(state)@, st, base, records),
    ensures
        state_realizes(final(state)@, remove_source(st, id@), base, records),
{
    let p = surface_position(state, id, Ghost(st));
    let ghost before = state@;
    if p < state.len() && str_eq(state[p].surface_id.as_str(), id) {
        state.remove(p);
        proof {
            let st2 = remove_source(st, id@);
            assert(st2 == st.remove(p as int));
            assert forall|j: int| 0 <= j < st2.len() implies (#[trigger] state@[j]).surface_id@ == st2[j].0
                && realizes(state@[j], base, records, st2[j].1) by {
                if j < p {
                    assert(state@[j] == before[j]);
                } else {
                    assert(state@[j] == before[j + 1]);
                }
            }
        }
    }
}

// ---------------------------------------------------------------------------
// Rebuilding.
// ---------------------------------------------------------------------------

proof fn lemma_realizes_keys(
    s: EncounterSurface,
    base: Seq<EncounterSurface>,
    records: Seq<EncounterSurfaceEventRecord>,
    src: SurfaceSource,
)
    requires
        realizes(s, base, records, src),
    ensures
        source_status(base, records, src) == s.status,
        source_salience(base, records, src) == s.salience,
{
}

proof fn lemma_state_realizes_concat(
    a: Seq<EncounterSurface>,
    sa: Seq<(Seq<char>, SurfaceSource)>,
    b: Seq<EncounterSurface>,
    sb: Seq<(Seq<char>, SurfaceSource)>,
    base: Seq<EncounterSurface>,
    records: Seq<EncounterSurfaceEventRecord>,
)
    requires
        state_realizes(a, sa, base, records),
        state_realizes(b, sb, base, records),
    ensures
        state_realizes(a + b, sa + sb, base, records),
{
    assert forall|j: int| 0 <= j < (sa + sb).len() implies (#[trigger] (a + b)[j]).surface_id@ == (sa
        + sb)[j].0 && realizes((a + b)[j], base, records, (sa + sb)[j].1) by {
        if j >= a.len() {
            assert((a + b)[j] == b[j - a.len()]);
            assert((sa + sb)[j] == sb[j - sa.len()]);
        }
    }
}

/// The base packet's surfaces, kept by id.
fn base_state(
    surfaces: Vec<EncounterSurface>,
    Ghost(records): Ghost<Seq<EncounterSurfaceEventRecord>>,
) -> (state: Vec<EncounterSurface>)
    ensures
        state_realizes(state@, base_sources(surfaces@), surfaces@, records),
{
    let ghost base = surfaces@;
    let mut rest = surfaces;
    let total = rest.len();
    let mut state: Vec<EncounterSurface> = Vec::new();
    let mut i: usize = 0;
    while rest.len() > 0
        invariant
            i + rest@.len() == base.len(),
            base.len() == total,
            rest@ == base.subrange(i as int, base.len() as int),
            state_realizes(state@, base_sources(base.subrange(0, i as int)), base, records),
        decreases rest.len(),
    {
        let s = rest.remove(0);
        proof {
            assert(base.subrange(0, i + 1).drop_last() =~= base.subrange(0, i as int));
            assert(base.subrange(0, i + 1).last() == s);
            assert(rest@ =~= base.subrange(i + 1, base.len() as int));
        }
        keep_surface(
            &mut state,
            s,
            Ghost(base_sources(base.subrange(0, i as int))),
            Ghost(SurfaceSource::Base(i)),
            Ghost(base),
            Ghost(records),
        );
        i = i + 1;
    }
    assert(base.subrange(0, base.len() as int) =~= base);
    state
}

fn first_action_exec(affordances: &Vec<EncounterAffordance>) -> (r: EncounterActionKind)
    ensures
        r == first_action(affordances@),
{
    if affordances.len() > 0 {
        affordances[0].action_kind
    } else {
        EncounterActionKind::Inspect
    }
}

/// The blocked interactions a mutation adds, appended to `blocked`.
fn push_blocked(blocked: &mut Vec<BlockedInteraction>, m: &EncounterSurfaceMutation)
    ensures
        final(blocked)@.len() == old(blocked)@.len() + blocked_of(*m).len(),
        forall|j: int| 0 <= j < old(blocked)@.len() ==> #[trigger] final(blocked)@[j] == old(blocked)@[j],
        forall|j: int|
            0 <= j < blocked_of(*m).len() ==> blocked_view(#[trigger] final(blocked)@[old(blocked)@.len() + j])
                == blocked_of(*m)[j],
{
    if m.status == EncounterSurfaceStatus::Blocked || m.status == EncounterSurfaceStatus::Locked {
        let action = first_action_exec(&m.affordances);
        let ghost start = blocked@.len();
        let ghost before = blocked@;
        let mut c: usize = 0;
        while c < m.constraints.len()
            invariant
                c <= m.constraints@.len(),
                m.status == EncounterSurfaceStatus::Blocked || m.status == EncounterSurfaceStatus::Locked,
                action == first_action(m.affordances@),
                blocked@.len() == start + c,
                start == before.len(),
                forall|j: int| 0 <= j < start ==> #[trigger] blocked@[j] == before[j],
                forall|j: int| 0 <= j < c ==> blocked_view(#[trigger] blocked@[start + j]) == blocked_of(*m)[j],
            decreases m.constraints.len() - c,
        {
            let con = &m.constraints[c];
            blocked.push(
                BlockedInteraction {
                    surface_id: m.surface_id.clone(),
                    action_kind: action,
                    reason: con.visible_reason.clone(),
                    unblock_refs: clone_strings(&con.unblock_refs),
                    evidence_refs: clone_strings(&con.evidence_refs),
                },
            );
            proof {
                assert(blocked@[start + c as int] == blocked@.last());
            }
            c = c + 1;
        }
    }
}

/// The latest `n` items, latest first.
fn latest_first<T>(v: Vec<T>, n: usize) -> (r: Vec<T>)
    ensures
        r@.len() == (if v@.len() < n { v@.len() } else { n as nat }),
        forall|i: int| 0 <= i < r@.len() ==> #[trigger] r@[i] == v@[v@.len() - 1 - i],
{
    let ghost all = v@;
    let mut rest = v;
    let mut out: Vec<T> = Vec::new();
    while out.len() < n && rest.len() > 0
        invariant
            out@.len() + rest@.len() == all.len(),
            out@.len() <= n,
            rest@ == all.subrange(0, rest@.len() as int),
            forall|i: int| 0 <= i < out@.len() ==> #[trigger] out@[i] == all[all.len() - 1 - i],
        decreases rest.len(),
    {
        match rest.pop() {
            Some(x) => {
                out.push(x);
            },
            None => {},
        }
    }
    out
}

/// Buckets the live surfaces by salience, most salient first, and keeps the budget.
fn order_live(
    state: Vec<EncounterSurface>,
    Ghost(st): Ghost<Seq<(Seq<char>, SurfaceSource)>>,
    Ghost(base): Ghost<Seq<EncounterSurface>>,
    Ghost(records): Ghost<Seq<EncounterSurfaceEventRecord>>,
) -> (r: Vec<EncounterSurface>)
    requires
        state_realizes(state@, st, base, records),
    ensures
        state_realizes(r@, take_at_most(ordered_live(st, base, records), ACTIVE_SURFACE_BUDGET as nat), base, records),
{
    let ghost all = state@;
    let mut rest = state;
    let total = rest.len();
    let mut b3: Vec<EncounterSurface> = Vec::new();
    let mut b2: Vec<EncounterSurface> = Vec::new();
    let mut b1: Vec<EncounterSurface> = Vec::new();
    let mut b0: Vec<EncounterSurface> = Vec::new();
    let mut n: usize = 0;
    while rest.len() > 0
        invariant
            n + rest@.len() == all.len(),
            all.len() == total,
            rest@ == all.subrange(n as int, all.len() as int),
            state_realizes(all, st, base, records),
            state_realizes(b3@, live_of_rank(st.subrange(0, n as int), base, records, 3), base, records),
            state_realizes(b2@, live_of_rank(st.subrange(0, n as int), base, records, 2), base, records),
            state_realizes(b1@, live_of_rank(st.subrange(0, n as int), base, records, 1), base, records),
            state_realizes(b0@, live_of_rank(st.subrange(0, n as int), base, records, 0), base, records),
        decreases rest.len(),
    {
        let s = rest.remove(0);
        proof {
            assert(s == all[n as int]);
            assert(st.subrange(0, n + 1).drop_last() =~= st.subrange(0, n as int));
            assert(st.subrange(0, n + 1).last() == st[n as int]);
            assert(rest@ =~= all.subrange(n + 1, all.len() as int));
            lemma_realizes_keys(s, base, records, st[n as int].1);
        }
        let live = !(s.status == EncounterSurfaceStatus::Gone || s.status == EncounterSurfaceStatus::Resolved
            || s.status == EncounterSurfaceStatus::Exhausted);
        let ghost e = st[n as int];
        if live {
            match s.salience {
                EncounterSalience::Critical => {
                    let ghost pb = b3@;
                    b3.push(s);
                    proof {
                        assert(b3@ == pb.push(all[n as int]));
                    }
                },
                EncounterSalience::Important => {
                    b2.push(s);
                },
                EncounterSalience::Useful => {
                    b1.push(s);
                },
                EncounterSalience::Background => {
                    b0.push(s);
                },
            }
        }
        n = n + 1;
    }
    assert(st.subrange(0, st.len() as int) =~= st);
    let ghost l3 = live_of_rank(st, base, records, 3);
    let ghost l2 = live_of_rank(st, base, records, 2);
    let ghost l1 = live_of_rank(st, base, records, 1);
    let ghost l0 = live_of_rank(st, base, records, 0);
    let ghost (v3, v2, v1, v0) = (b3@, b2@, b1@, b0@);
    let mut out = b3;
    out.append(&mut b2);
    out.append(&mut b1);
    out.append(&mut b0);
    proof {
        lemma_state_realizes_concat(v3, l3, v2, l2, base, records);
        lemma_state_realizes_concat(v3 + v2, l3 + l2, v1, l1, base, records);
        lemma_state_realizes_concat(v3 + v2 + v1, l3 + l2 + l1, v0, l0, base, records);
    }
    let ghost full = out@;
    out.truncate(ACTIVE_SURFACE_BUDGET);
    proof {
        let ol = ordered_live(st, base, records);
        if ol.len() > ACTIVE_SURFACE_BUDGET {
            assert(out@ == full.subrange(0, ACTIVE_SURFACE_BUDGET as int));
        } else {
            assert(out@ == full);
        }
    }
    out
}

/// What replaying the records yields before ordering and budgets.
pub struct ReplayOutcome {
    pub state: Vec<EncounterSurface>,
    pub changes: Vec<EncounterSurfaceChange>,
    pub blocked: Vec<BlockedInteraction>,
    pub followups: Vec<String>,
}

#[verifier::rlimit(40)]
fn replay_records(
    state: Vec<EncounterSurface>,
    records: Vec<EncounterSurfaceEventRecord>,
    Ghost(base): Ghost<Seq<EncounterSurface>>,
) -> (r: ReplayOutcome)
    requires
        state_realizes(state@, base_sources(base), base, records@),
    ensures
        state_realizes(r.state@, replay_sources(base_sources(base), records@), base, records@),
        r.changes@.len() == replay_changes(records@).len(),
        forall|j: int| 0 <= j < r.changes@.len() ==> change_view(#[trigger] r.changes@[j]) == replay_changes(records@)[j],
        r.blocked@.len() == replay_blocked(records@).len(),
        forall|j: int| 0 <= j < r.blocked@.len() ==> blocked_view(#[trigger] r.blocked@[j]) == replay_blocked(records@)[j],
        views(r.followups@) == replay_followups(records@),
{
    let ghost recs = records@;
    let mut state = state;
    let mut pending = records;
    let total = pending.len();
    let mut changes: Vec<EncounterSurfaceChange> = Vec::new();
    let mut blocked: Vec<BlockedInteraction> = Vec::new();
    let mut followups: Vec<String> = Vec::new();
    let mut k: usize = 0;
    while pending.len() > 0
        invariant
            k + pending@.len() == recs.len(),
            recs.len() == total,
            pending@ == recs.subrange(k as int, recs.len() as int),
            state_realizes(state@, replay_sources(base_sources(base), recs.subrange(0, k as int)), base, recs),
            changes@.len() == replay_changes(recs.subrange(0, k as int)).len(),
            forall|j: int| 0 <= j < changes@.len() ==> change_view(#[trigger] changes@[j]) == replay_changes(
                recs.subrange(0, k as int),
            )[j],
            blocked@.len() == replay_blocked(recs.subrange(0, k as int)).len(),
            forall|j: int| 0 <= j < blocked@.len() ==> blocked_view(#[trigger] blocked@[j]) == replay_blocked(
                recs.subrange(0, k as int),
            )[j],
            views(followups@) == replay_followups(recs.subrange(0, k as int)),
        decreases pending.len(),
    {
        let rec = pending.remove(0);
        let ghost sub = recs.subrange(0, k as int);
        let ghost sub1 = recs.subrange(0, k + 1);
        let ghost st0 = replay_sources(base_sources(base), sub);
        let ghost ch0 = replay_changes(sub);
        proof {
            assert(sub1.drop_last() =~= sub);
            assert(sub1.last() == rec);
            assert(rec == recs[k as int]);
            assert(pending@ =~= recs.subrange(k + 1, recs.len() as int));
        }
        let ghost st1 = match recs[k as int].closure {
            Some(c) => remove_source(st0, c.surface_id@),
            None => st0,
        };
        let ghost ch1 = match recs[k as int].closure {
            Some(c) => ch0.push((c.surface_id@, c.summary@, recs[k as int].turn_id@, views(c.evidence_refs@))),
            None => ch0,
        };
        match rec.closure {
            Some(closure) => {
                drop_surface(&mut state, closure.surface_id.as_str(), Ghost(st0), Ghost(base), Ghost(recs));
                let ghost before = changes@;
                changes.push(
                    EncounterSurfaceChange {
                        surface_id: closure.surface_id.clone(),
                        summary: closure.summary,
                        turn_id: rec.turn_id.clone(),
                        evidence_refs: closure.evidence_refs,
                    },
                );
                proof {
                    assert forall|j: int| 0 <= j < changes@.len() implies change_view(#[trigger] changes@[j]) == ch1[j] by {
                        if j < before.len() {
                            assert(changes@[j] == before[j]);
                        }
                    }
                }
                match closure.replacement_surface_id {
                    Some(x) => {
                        let ghost fb = followups@;
                        let f = concat2("replacement_surface:", x.as_str());
                        followups.push(f);
                        proof {
                            crate::text::lemma_views_push(fb, f);
                        }
                    },
                    None => {},
                }
            },
            None => {},
        }
        match rec.mutation {
            Some(mutation) => {
                proof {
                    assert(replay_blocked(sub1) == replay_blocked(sub) + blocked_of(mutation));
                }
                let ghost bb = blocked@;
                push_blocked(&mut blocked, &mutation);
                proof {
                    let target = replay_blocked(sub) + blocked_of(mutation);
                    assert forall|j: int| 0 <= j < blocked@.len() implies blocked_view(#[trigger] blocked@[j]) == target[j] by {
                        if j < bb.len() {
                            assert(blocked@[j] == bb[j]);
                        } else {
                            let i = j - bb.len();
                            assert(blocked@[bb.len() + i] == blocked@[j]);
                        }
                    }
                }
                let ghost before = changes@;
                changes.push(
                    EncounterSurfaceChange {
                        surface_id: mutation.surface_id.clone(),
                        summary: mutation.summary.clone(),
                        turn_id: rec.turn_id.clone(),
                        evidence_refs: clone_strings(&mutation.source_refs),
                    },
                );
                proof {
                    let ch2 = ch1.push((mutation.surface_id@, mutation.summary@, rec.turn_id@, views(mutation.source_refs@)));
                    assert forall|j: int| 0 <= j < changes@.len() implies change_view(#[trigger] changes@[j]) == ch2[j] by {
                        if j < before.len() {
                            assert(changes@[j] == before[j]);
                        }
                    }
                }
                let opened = rec.turn_id.clone();
                let surface = EncounterSurface {
                    schema_version: String::from_str(ENCOUNTER_SURFACE_SCHEMA_VERSION),
                    surface_id: mutation.surface_id,
                    label: mutation.label,
                    kind: mutation.kind,
                    status: mutation.status,
                    salience: mutation.salience,
                    summary: mutation.summary,
                    player_visible_signal: mutation.player_visible_signal,
                    location_ref: mutation.location_ref,
                    holder_ref: mutation.holder_ref,
                    source_refs: mutation.source_refs,
                    linked_entity_refs: mutation.linked_entity_refs,
                    linked_pressure_refs: mutation.linked_pressure_refs,
                    linked_social_refs: mutation.linked_social_refs,
                    physical_anchors: mutation.physical_anchors,
                    affordances: mutation.affordances,
                    constraints: mutation.constraints,
                    change_potential: mutation.change_potential,
                    lifecycle: EncounterSurfaceLifecycle {
                        opened_turn_id: opened,
                        last_changed_turn_id: rec.turn_id,
                        persistence: mutation.persistence,
                    },
                };
                keep_surface(&mut state, surface, Ghost(st1), Ghost(SurfaceSource::Record(k)), Ghost(base), Ghost(recs));
            },
            None => {
                proof {
                    assert(replay_blocked(sub1) == replay_blocked(sub));
                }
            },
        }
        k = k + 1;
    }
    assert(recs.subrange(0, recs.len() as int) =~= recs);
    ReplayOutcome { state, changes, blocked, followups }
}

/// Rebuilds the encounter packet from a base packet and the event records:
/// closures remove surfaces, mutations open or replace them (a record's
/// closure first); the live surfaces are kept most salient first and by id,
/// up to the budget; the latest changes and blocked interactions come first;
/// replacement follow-ups are sorted and deduplicated.
pub fn rebuild_encounter_surface(
    base_packet: EncounterSurfacePacket,
    records: Vec<EncounterSurfaceEventRecord>,
) -> (r: EncounterSurfacePacket)
    ensures
        r.schema_version@ == ENCOUNTER_SURFACE_PACKET_SCHEMA_VERSION@,
        r.world_id == base_packet.world_id,
        r.turn_id == base_packet.turn_id,
        r.scene_id == base_packet.scene_id,
        state_realizes(
            r.active_surfaces@,
            rebuilt_active(base_packet.active_surfaces@, records@),
            base_packet.active_surfaces@,
            records@,
        ),
        r.recent_surface_changes@.len() == (if replay_changes(records@).len() < RECENT_CHANGE_BUDGET {
            replay_changes(records@).len()
        } else {
            RECENT_CHANGE_BUDGET as nat
        }),
        forall|i: int|
            0 <= i < r.recent_surface_changes@.len() ==> change_view(#[trigger] r.recent_surface_changes@[i])
                == replay_changes(records@)[replay_changes(records@).len() - 1 - i],
        r.blocked_interactions@.len() == (if replay_blocked(records@).len() < BLOCKED_INTERACTION_BUDGET {
            replay_blocked(records@).len()
        } else {
            BLOCKED_INTERACTION_BUDGET as nat
        }),
        forall|i: int|
            0 <= i < r.blocked_interactions@.len() ==> blocked_view(#[trigger] r.blocked_interactions@[i])
                == replay_blocked(records@)[replay_blocked(records@).len() - 1 - i],
        views(r.required_followups@) == take_at_most(
            sort_dedup(replay_followups(records@)),
            REQUIRED_FOLLOWUP_BUDGET as nat,
        ),
        contracts_follow(r),
{
    let ghost base = base_packet.active_surfaces@;
    let ghost recs = records@;
    let state = base_state(base_packet.active_surfaces, Ghost(recs));
    let out = replay_records(state, records, Ghost(base));
    let ghost stf = replay_sources(base_sources(base), recs);
    let ghost all_changes = out.changes@;
    let ghost all_blocked = out.blocked@;
    let active = order_live(out.state, Ghost(stf), Ghost(base), Ghost(recs));
    let changes = latest_first(out.changes, RECENT_CHANGE_BUDGET);
    let blocked = latest_first(out.blocked, BLOCKED_INTERACTION_BUDGET);
    let sorted = sort_dedup_strings(out.followups);
    let ghost sorted_all = sorted@;
    let mut followups = sorted;
    followups.truncate(REQUIRED_FOLLOWUP_BUDGET);
    proof {
        if sorted_all.len() > REQUIRED_FOLLOWUP_BUDGET {
            crate::text::lemma_views_subrange(sorted_all, REQUIRED_FOLLOWUP_BUDGET as int);
        }
        assert forall|i: int| 0 <= i < changes@.len() implies change_view(#[trigger] changes@[i])
            == replay_changes(recs)[replay_changes(recs).len() - 1 - i] by {
            assert(changes@[i] == all_changes[all_changes.len() - 1 - i]);
        }
        assert forall|i: int| 0 <= i < blocked@.len() implies blocked_view(#[trigger] blocked@[i])
            == replay_blocked(recs)[replay_blocked(recs).len() - 1 - i] by {
            assert(blocked@[i] == all_blocked[all_blocked.len() - 1 - i]);
        }
    }
    let contracts = compile_choice_contracts(&active);
    EncounterSurfacePacket {
        schema_version: String::from_str(ENCOUNTER_SURFACE_PACKET_SCHEMA_VERSION),
        world_id: base_packet.world_id,
        turn_id: base_packet.turn_id,
        scene_id: base_packet.scene_id,
        active_surfaces: active,
        recent_surface_changes: changes,
        blocked_interactions: blocked,
        required_followups: followups,
        choice_contracts: contracts,
        compiler_policy: EncounterSurfacePolicy::default(),
    }
}

} // verus!
