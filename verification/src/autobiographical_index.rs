//! The autobiographical index: periods of the protagonist's story and the
//! recurring general events, grouped from memory that already exists.
use crate::clock::now_rfc3339;
use crate::context_capsule::{ref_char, sanitize_ref, ContextCapsuleIndex, ContextCapsuleIndexEntry, ContextCapsuleKind};
use crate::plot_thread::PlotThreadPacket;
use crate::relationship_graph::RelationshipGraphPacket;
use crate::text::{
    chars_of, clone_strings, concat2, concat3, contains, contains_str, has_text_exec, is_alphanumeric_char,
    lemma_has_text_views, lemma_views_push, seq_lt, sort_dedup, sort_dedup_strings, str_lt, to_lowercase, trim,
    trim_str, unicode_alphanumeric, unicode_lowercase, views,
};
use crate::world_db::ChapterSummaryRecord;
use crate::world_process_clock::WorldProcessClockPacket;
use vstd::prelude::*;

verus! {

pub const AUTOBIOGRAPHICAL_INDEX_SCHEMA_VERSION: &'static str = "singulari.autobiographical_index.v1";
pub const AUTOBIOGRAPHICAL_PERIOD_SCHEMA_VERSION: &'static str = "singulari.autobiographical_period.v1";
pub const AUTOBIOGRAPHICAL_GENERAL_EVENT_SCHEMA_VERSION: &'static str = "singulari.autobiographical_general_event.v1";
pub const AUTOBIOGRAPHICAL_INDEX_FILENAME: &'static str = "autobiographical_index.json";
pub const PERIOD_BUDGET: usize = 8;
pub const GENERAL_EVENT_BUDGET: usize = 16;

#[derive(Debug, Clone)]
pub struct AutobiographicalIndexPacket {
    pub schema_version: String,
    pub world_id: String,
    pub turn_id: String,
    pub periods: Vec<AutobiographicalPeriod>,
    pub general_events: Vec<AutobiographicalGeneralEvent>,
    pub compiler_policy: AutobiographicalIndexPolicy,
    pub updated_at: String,
}

impl Default for AutobiographicalIndexPacket {
    fn default() -> (r: Self)
        ensures
            r.schema_version@ == AUTOBIOGRAPHICAL_INDEX_SCHEMA_VERSION@,
            r.world_id@.len() == 0,
            r.turn_id@.len() == 0,
            r.periods@.len() == 0,
            r.general_events@.len() == 0,
            r.updated_at@.len() == 0,
    {
        AutobiographicalIndexPacket {
            schema_version: String::from_str(AUTOBIOGRAPHICAL_INDEX_SCHEMA_VERSION),
            world_id: String::new(),
            turn_id: String::new(),
            periods: Vec::new(),
            general_events: Vec::new(),
            compiler_policy: AutobiographicalIndexPolicy::default(),
            updated_at: String::new(),
        }
    }
}

#[derive(Debug, Clone)]
pub struct AutobiographicalPeriod {
    pub schema_version: String,
    pub period_id: String,
    pub label: String,
    pub turn_range: [String; 2],
    pub dominant_goals: Vec<String>,
    pub capsule_refs: Vec<String>,
    pub evidence_refs: Vec<String>,
}

#[derive(Debug, Clone)]
pub struct AutobiographicalGeneralEvent {
    pub schema_version: String,
    pub event_cluster_id: String,
    pub pattern: String,
    pub event_kind: AutobiographicalGeneralEventKind,
    pub capsule_refs: Vec<String>,
    pub evidence_refs: Vec<String>,
}

#[derive(Debug, Clone, Copy, PartialEq, Eq, Structural)]
pub enum AutobiographicalGeneralEventKind {
    PlotThread,
    RelationshipPattern,
    WorldProcess,
}

#[derive(Debug, Clone)]
pub struct AutobiographicalIndexPolicy {
    pub source: String,
    pub period_budget: usize,
    pub general_event_budget: usize,
    pub use_rules: Vec<String>,
}

impl Default for AutobiographicalIndexPolicy {
    fn default() -> (r: Self)
        ensures
            r.source@ == "compiled_from_chapters_threads_relationships_processes_v1"@,
            r.period_budget == PERIOD_BUDGET,
            r.general_event_budget == GENERAL_EVENT_BUDGET,
            r.use_rules@.len() == 3,
    {
        let mut use_rules: Vec<String> = Vec::new();
        use_rules.push(String::from_str("Autobiographical index groups existing memory; it is not canon."));
        use_rules.push(String::from_str("Periods and general events may guide retrieval, but source evidence remains authoritative."));
        use_rules.push(String::from_str("Do not infer protagonist personality, past life, or hidden motive from index labels."));
        AutobiographicalIndexPolicy {
            source: String::from_str("compiled_from_chapters_threads_relationships_processes_v1"),
            period_budget: PERIOD_BUDGET,
            general_event_budget: GENERAL_EVENT_BUDGET,
            use_rules,
        }
    }
}

/// The memory layers an index is grouped from.
pub struct AutobiographicalIndexInput<'a> {
    pub world_id: &'a str,
    pub turn_id: &'a str,
    pub chapter_summaries: &'a Vec<ChapterSummaryRecord>,
    pub plot_threads: &'a PlotThreadPacket,
    pub relationship_graph: &'a RelationshipGraphPacket,
    pub world_process_clock: &'a WorldProcessClockPacket,
    pub context_capsule_index: &'a ContextCapsuleIndex,
}

// ---------------------------------------------------------------------------
// Index terms and the capsules they reach.
// ---------------------------------------------------------------------------

/// Words break at characters that are neither alphanumeric, `:` nor `_`.
pub open spec fn is_word_break(c: char) -> bool {
    !unicode_alphanumeric(c) && c != ':' && c != '_'
}

fn is_word_break_exec(c: char) -> (r: bool)
    ensures
        r == is_word_break(c),
{
    !is_alphanumeric_char(c) && c != ':' && c != '_'
}

/// The pieces between word breaks, empty ones included.
pub open spec fn word_pieces(s: Seq<char>) -> Seq<Seq<char>>
    decreases s.len(),
{
    if s.len() == 0 {
        seq![Seq::<char>::empty()]
    } else {
        let p = word_pieces(s.drop_last());
        if is_word_break(s.last()) {
            p.push(Seq::<char>::empty())
        } else {
            p.update(p.len() - 1, p.last().push(s.last()))
        }
    }
}

proof fn lemma_word_pieces_nonempty(s: Seq<char>)
    ensures
        word_pieces(s).len() >= 1,
    decreases s.len(),
{
    if s.len() > 0 {
        lemma_word_pieces_nonempty(s.drop_last());
    }
}

/// The pieces of every part, part after part.
pub open spec fn all_word_pieces(parts: Seq<Seq<char>>) -> Seq<Seq<char>>
    decreases parts.len(),
{
    if parts.len() == 0 {
        Seq::empty()
    } else {
        all_word_pieces(parts.drop_last()) + word_pieces(parts.last())
    }
}

/// Each piece trimmed; those of three characters or more kept, lowercased.
pub open spec fn long_words(pieces: Seq<Seq<char>>) -> Seq<Seq<char>>
    decreases pieces.len(),
{
    if pieces.len() == 0 {
        Seq::empty()
    } else {
        let k = long_words(pieces.drop_last());
        let t = trim(pieces.last());
        if t.len() >= 3 {
            k.push(unicode_lowercase(t))
        } else {
            k
        }
    }
}

/// The index terms of some texts: their words of three characters or more,
/// lowercased, sorted, each once.
pub open spec fn index_terms_of(parts: Seq<Seq<char>>) -> Seq<Seq<char>> {
    sort_dedup(long_words(all_word_pieces(parts)))
}

fn keep_long_word(terms: &mut Vec<String>, piece: &str)
    ensures
        views(final(terms)@) == (if trim(piece@).len() >= 3 {
            views(old(terms)@).push(unicode_lowercase(trim(piece@)))
        } else {
            views(old(terms)@)
        }),
{
    let t = trim_str(piece);
    if chars_of(t).len() >= 3 {
        let ghost prev = terms@;
        let low = to_lowercase(t);
        terms.push(low);
        proof {
            lemma_views_push(prev, low);
        }
    }
}

/// The index terms of some texts (see `index_terms_of`).
pub fn index_terms(parts: &Vec<String>) -> (r: Vec<String>)
    ensures
        views(r@) == index_terms_of(views(parts@)),
{
    let ghost ps = views(parts@);
    let mut terms: Vec<String> = Vec::new();
    let mut p: usize = 0;
    while p < parts.len()
        invariant
            p <= parts@.len(),
            ps == views(parts@),
            views(terms@) == long_words(all_word_pieces(ps.subrange(0, p as int))),
        decreases parts.len() - p,
    {
        let cs = chars_of(parts[p].as_str());
        let ghost done = all_word_pieces(ps.subrange(0, p as int));
        let mut cur = String::new();
        let mut i: usize = 0;
        proof {
            assert(cs@.subrange(0, 0) =~= Seq::<char>::empty());
            assert(word_pieces(Seq::<char>::empty()).drop_last() =~= Seq::<Seq<char>>::empty());
            assert(done + Seq::<Seq<char>>::empty() =~= done);
        }
        while i < cs.len()
            invariant
                i <= cs@.len(),
                done == all_word_pieces(ps.subrange(0, p as int)),
                views(terms@) == long_words(done + word_pieces(cs@.subrange(0, i as int)).drop_last()),
                word_pieces(cs@.subrange(0, i as int)).len() >= 1,
                word_pieces(cs@.subrange(0, i as int)).last() == cur@,
            decreases cs.len() - i,
        {
            let c = cs[i];
            let ghost before = word_pieces(cs@.subrange(0, i as int));
            proof {
                assert(cs@.subrange(0, i + 1).drop_last() =~= cs@.subrange(0, i as int));
                assert(cs@.subrange(0, i + 1).last() == c);
            }
            if is_word_break_exec(c) {
                keep_long_word(&mut terms, cur.as_str());
                proof {
                    assert(word_pieces(cs@.subrange(0, i + 1)) == before.push(Seq::<char>::empty()));
                    assert(word_pieces(cs@.subrange(0, i + 1)).drop_last() =~= before);
                    assert((done + before.drop_last()).push(cur@) =~= done + before);
                    assert((done + before.drop_last()).push(cur@).drop_last() =~= done + before.drop_last());
                }
                cur = String::new();
            } else {
                cur.push(c);
                proof {
                    let after = word_pieces(cs@.subrange(0, i + 1));
                    assert(after == before.update(before.len() - 1, before.last().push(c)));
                    assert(after.drop_last() =~= before.drop_last());
                }
            }
            i = i + 1;
        }
        keep_long_word(&mut terms, cur.as_str());
        proof {
            let sp = word_pieces(cs@);
            assert(cs@.subrange(0, cs@.len() as int) =~= cs@);
            assert(ps.subrange(0, p + 1).drop_last() =~= ps.subrange(0, p as int));
            assert(ps.subrange(0, p + 1).last() == cs@);
            assert(all_word_pieces(ps.subrange(0, p + 1)) == done + sp);
            assert((done + sp.drop_last()).push(cur@) =~= done + sp);
            assert((done + sp.drop_last()).push(cur@).drop_last() =~= done + sp.drop_last());
        }
        p = p + 1;
    }
    proof {
        assert(ps.subrange(0, ps.len() as int) =~= ps);
    }
    sort_dedup_strings(terms)
}

/// A capsule answers to the terms: one of its triggers and one of the terms
/// occur in each other; a character text design capsule also needs one of
/// its triggers to be a term exactly.
pub open spec fn capsule_answers(e: ContextCapsuleIndexEntry, terms: Seq<Seq<char>>) -> bool {
    &&& (e.kind == ContextCapsuleKind::CharacterTextDesign ==> exists|j: int|
        0 <= j < terms.len() && views(e.triggers@).contains(#[trigger] terms[j]))
    &&& exists|a: int, b: int|
        0 <= a < e.triggers@.len() && 0 <= b < terms.len() && (contains(
            #[trigger] e.triggers@[a]@,
            #[trigger] terms[b],
        ) || contains(terms[b], e.triggers@[a]@))
}

/// The ids of the answering capsules, in index order.
pub open spec fn answering_ids(es: Seq<ContextCapsuleIndexEntry>, terms: Seq<Seq<char>>) -> Seq<Seq<char>>
    decreases es.len(),
{
    if es.len() == 0 {
        Seq::empty()
    } else {
        let p = answering_ids(es.drop_last(), terms);
        if capsule_answers(es.last(), terms) {
            p.push(es.last().capsule_id@)
        } else {
            p
        }
    }
}

/// The capsules that some texts reach, sorted, each once.
pub open spec fn capsule_refs_of(index: ContextCapsuleIndex, parts: Seq<Seq<char>>) -> Seq<Seq<char>> {
    sort_dedup(answering_ids(index.entries@, index_terms_of(parts)))
}

fn any_exact_term(triggers: &Vec<String>, terms: &Vec<String>) -> (r: bool)
    ensures
        r == exists|j: int| 0 <= j < terms@.len() && views(triggers@).contains(#[trigger] views(terms@)[j]),
{
    let mut j: usize = 0;
    while j < terms.len()
        invariant
            j <= terms@.len(),
            forall|k: int| 0 <= k < j ==> !views(triggers@).contains(#[trigger] views(terms@)[k]),
        decreases terms.len() - j,
    {
        proof {
            lemma_has_text_views(triggers@, terms@[j as int]@);
        }
        if has_text_exec(triggers, terms[j].as_str()) {
            assert(views(triggers@).contains(views(terms@)[j as int]));
            return true;
        }
        j = j + 1;
    }
    false
}

fn any_overlap(triggers: &Vec<String>, terms: &Vec<String>) -> (r: bool)
    ensures
        r == exists|a: int, b: int|
            0 <= a < triggers@.len() && 0 <= b < terms@.len() && (contains(
                #[trigger] triggers@[a]@,
                #[trigger] views(terms@)[b],
            ) || contains(views(terms@)[b], triggers@[a]@)),
{
    let mut a: usize = 0;
    while a < triggers.len()
        invariant
            a <= triggers@.len(),
            forall|x: int, y: int|
                0 <= x < a && 0 <= y < terms@.len() ==> !(contains(
                    #[trigger] triggers@[x]@,
                    #[trigger] views(terms@)[y],
                ) || contains(views(terms@)[y], triggers@[x]@)),
        decreases triggers.len() - a,
    {
        let mut b: usize = 0;
        while b < terms.len()
            invariant
                a < triggers@.len(),
                b <= terms@.len(),
                forall|x: int, y: int|
                    0 <= x < a && 0 <= y < terms@.len() ==> !(contains(
                        #[trigger] triggers@[x]@,
                        #[trigger] views(terms@)[y],
                    ) || contains(views(terms@)[y], triggers@[x]@)),
                forall|y: int|
                    0 <= y < b ==> !(contains(triggers@[a as int]@, #[trigger] views(terms@)[y]) || contains(
                        views(terms@)[y],
                        triggers@[a as int]@,
                    )),
            decreases terms.len() - b,
        {
            let t = triggers[a].as_str();
            let u = terms[b].as_str();
            if contains_str(t, u) || contains_str(u, t) {
                assert(contains(triggers@[a as int]@, views(terms@)[b as int]) || contains(
                    views(terms@)[b as int],
                    triggers@[a as int]@,
                ));
                return true;
            }
            b = b + 1;
        }
        a = a + 1;
    }
    false
}

/// The capsules that some texts reach (see `capsule_refs_of`).
pub fn capsule_refs_for_text(index: &ContextCapsuleIndex, parts: &Vec<String>) -> (r: Vec<String>)
    ensures
        views(r@) == capsule_refs_of(*index, views(parts@)),
{
    let terms = index_terms(parts);
    let ghost ts = views(terms@);
    let es = &index.entries;
    let mut ids: Vec<String> = Vec::new();
    let mut i: usize = 0;
    while i < es.len()
        invariant
            i <= es@.len(),
            es@ == index.entries@,
            ts == views(terms@),
            views(ids@) == answering_ids(es@.subrange(0, i as int), ts),
        decreases es.len() - i,
    {
        proof {
            assert(es@.subrange(0, i + 1).drop_last() =~= es@.subrange(0, i as int));
            assert(es@.subrange(0, i + 1).last() == es@[i as int]);
        }
        let e = &es[i];
        let is_design = match e.kind {
            ContextCapsuleKind::CharacterTextDesign => true,
            _ => false,
        };
        let exact_ok = !is_design || any_exact_term(&e.triggers, &terms);
        if exact_ok && any_overlap(&e.triggers, &terms) {
            let ghost before = ids@;
            let id = e.capsule_id.clone();
            ids.push(id);
            proof {
                lemma_views_push(before, id);
            }
        }
        i = i + 1;
    }
    assert(es@.subrange(0, es@.len() as int) =~= es@);
    sort_dedup_strings(ids)
}

// ---------------------------------------------------------------------------
// Periods: one per chapter, latest chapter first.
// ---------------------------------------------------------------------------

/// Where chapter `x` goes in an order sorted by chapter index: after every
/// chapter whose index is not greater.
pub open spec fn chapter_insert_pos(cs: Seq<ChapterSummaryRecord>, t: Seq<usize>, x: usize) -> int
    decreases t.len(),
{
    if t.len() == 0 {
        0
    } else {
        let p = chapter_insert_pos(cs, t.drop_last(), x);
        if p < t.len() - 1 {
            p
        } else if cs[x as int].chapter_index < cs[t.last() as int].chapter_index {
            t.len() - 1
        } else {
            t.len() as int
        }
    }
}

/// The chapters in order of chapter index; equal ones keep their order.
pub open spec fn sort_chapters(cs: Seq<ChapterSummaryRecord>, s: Seq<usize>) -> Seq<usize>
    decreases s.len(),
{
    if s.len() == 0 {
        Seq::empty()
    } else {
        let t = sort_chapters(cs, s.drop_last());
        t.insert(chapter_insert_pos(cs, t, s.last()), s.last())
    }
}

proof fn lemma_chapter_insert_pos_is(cs: Seq<ChapterSummaryRecord>, t: Seq<usize>, x: usize, k: int)
    requires
        0 <= k <= t.len(),
        forall|j: int| 0 <= j < k ==> !(cs[x as int].chapter_index < cs[#[trigger] t[j] as int].chapter_index),
        k < t.len() ==> cs[x as int].chapter_index < cs[t[k] as int].chapter_index,
    ensures
        chapter_insert_pos(cs, t, x) == k,
    decreases t.len(),
{
    if t.len() > 0 {
        let d = t.drop_last();
        assert forall|j: int| 0 <= j < d.len() implies d[j] == t[j] by {}
        if k < t.len() - 1 {
            lemma_chapter_insert_pos_is(cs, d, x, k);
        } else {
            lemma_chapter_insert_pos_is(cs, d, x, d.len() as int);
        }
    }
}

pub open spec fn positions(n: nat) -> Seq<usize> {
    Seq::new(n, |i: int| i as usize)
}

/// The chapters that become periods: by chapter index, latest first, at
/// most the budget.
pub open spec fn period_order(cs: Seq<ChapterSummaryRecord>) -> Seq<usize> {
    let r = sort_chapters(cs, positions(cs.len())).reverse();
    if r.len() > PERIOD_BUDGET {
        r.take(PERIOD_BUDGET as int)
    } else {
        r
    }
}

/// The non-blank texts, untrimmed, in order.
pub open spec fn nonblank_texts(v: Seq<String>) -> Seq<Seq<char>>
    decreases v.len(),
{
    if v.len() == 0 {
        Seq::empty()
    } else if trim(v.last()@).len() > 0 {
        nonblank_texts(v.drop_last()).push(v.last()@)
    } else {
        nonblank_texts(v.drop_last())
    }
}

pub open spec fn first_three(v: Seq<String>) -> Seq<String> {
    if v.len() > 3 {
        v.take(3)
    } else {
        v
    }
}

/// What a chapter was about: its open ambiguities, process changes,
/// relationship changes and first three facts (the blank ones dropped),
/// else its summary; at most five.
pub open spec fn goals_of(s: ChapterSummaryRecord) -> Seq<Seq<char>> {
    let all = nonblank_texts(
        s.v2.open_ambiguities@ + s.v2.process_changes@ + s.v2.relationship_changes@ + first_three(s.v2.facts@),
    );
    let g = if all.len() == 0 && trim(s.summary@).len() > 0 {
        seq![s.summary@]
    } else {
        all
    };
    if g.len() > 5 {
        g.take(5)
    } else {
        g
    }
}

pub open spec fn sanitized(s: Seq<char>) -> Seq<char> {
    s.map_values(|c: char| ref_char(c))
}

/// The period a chapter becomes.
pub open spec fn period_is(p: AutobiographicalPeriod, s: ChapterSummaryRecord, index: ContextCapsuleIndex) -> bool {
    &&& p.schema_version@ == AUTOBIOGRAPHICAL_PERIOD_SCHEMA_VERSION@
    &&& p.period_id@ == "period:"@ + sanitized(s.summary_id@)
    &&& p.label@ == s.title@
    &&& p.turn_range@[0]@ == s.source_turn_start@
    &&& p.turn_range@[1]@ == s.source_turn_end@
    &&& views(p.dominant_goals@) == goals_of(s)
    &&& views(p.capsule_refs@) == capsule_refs_of(index, goals_of(s).push(s.summary@))
    &&& views(p.evidence_refs@) == seq!["chapter_summary:"@ + s.summary_id@]
}

fn push_nonblank(out: &mut Vec<String>, v: &Vec<String>, limit: usize)
    ensures
        views(final(out)@) == views(old(out)@) + nonblank_texts(
            if v@.len() > limit {
                v@.take(limit as int)
            } else {
                v@
            },
        ),
{
    let ghost start = views(out@);
    let n: usize = if v.len() > limit {
        limit
    } else {
        v.len()
    };
    let ghost src = if v@.len() > limit {
        v@.take(limit as int)
    } else {
        v@
    };
    let mut i: usize = 0;
    while i < n
        invariant
            i <= n,
            n == src.len(),
            src == (if v@.len() > limit {
                v@.take(limit as int)
            } else {
                v@
            }),
            n <= v@.len(),
            forall|k: int| 0 <= k < n ==> src[k] == v@[k],
            views(out@) == start + nonblank_texts(src.subrange(0, i as int)),
        decreases n - i,
    {
        proof {
            assert(src.subrange(0, i + 1).drop_last() =~= src.subrange(0, i as int));
            assert(src.subrange(0, i + 1).last() == v@[i as int]);
        }
        if trim_str(v[i].as_str()).unicode_len() > 0 {
            let ghost before = out@;
            let c = v[i].clone();
            out.push(c);
            proof {
                lemma_views_push(before, c);
            }
        }
        i = i + 1;
    }
    assert(src.subrange(0, n as int) =~= src);
}

proof fn lemma_nonblank_concat(a: Seq<String>, b: Seq<String>)
    ensures
        nonblank_texts(a + b) == nonblank_texts(a) + nonblank_texts(b),
    decreases b.len(),
{
    if b.len() == 0 {
        assert(a + b =~= a);
        assert(nonblank_texts(a) + nonblank_texts(b) =~= nonblank_texts(a));
    } else {
        lemma_nonblank_concat(a, b.drop_last());
        assert((a + b).drop_last() =~= a + b.drop_last());
        assert((a + b).last() == b.last());
        if trim(b.last()@).len() > 0 {
            assert(nonblank_texts(a) + nonblank_texts(b) =~= (nonblank_texts(a) + nonblank_texts(b.drop_last())).push(
                b.last()@,
            ));
        }
    }
}

/// What a chapter was about (see `goals_of`).
pub fn chapter_dominant_goals(summary: &ChapterSummaryRecord) -> (r: Vec<String>)
    ensures
        views(r@) == goals_of(*summary),
{
    let v2 = &summary.v2;
    let mut goals: Vec<String> = Vec::new();
    assert(views(goals@) =~= Seq::<Seq<char>>::empty());
    push_nonblank(&mut goals, &v2.open_ambiguities, v2.open_ambiguities.len());
    let ghost g1 = views(goals@);
    assert(g1 == nonblank_texts(v2.open_ambiguities@));
    push_nonblank(&mut goals, &v2.process_changes, v2.process_changes.len());
    let ghost g2 = views(goals@);
    assert(g2 == g1 + nonblank_texts(v2.process_changes@));
    push_nonblank(&mut goals, &v2.relationship_changes, v2.relationship_changes.len());
    let ghost g3 = views(goals@);
    assert(g3 == g2 + nonblank_texts(v2.relationship_changes@));
    push_nonblank(&mut goals, &v2.facts, 3);
    assert(views(goals@) == g3 + nonblank_texts(first_three(v2.facts@)));
    proof {
        let a = v2.open_ambiguities@;
        let b = v2.process_changes@;
        let c = v2.relationship_changes@;
        let d = first_three(v2.facts@);
        lemma_nonblank_concat(a, b);
        lemma_nonblank_concat(a + b, c);
        lemma_nonblank_concat(a + b + c, d);
        assert(g1 + nonblank_texts(b) + nonblank_texts(c) + nonblank_texts(d) =~= nonblank_texts(a) + nonblank_texts(b) + nonblank_texts(c) + nonblank_texts(d));
        assert(views(goals@) =~= nonblank_texts(a + b + c + d));
    }
    if goals.len() == 0 && trim_str(summary.summary.as_str()).unicode_len() > 0 {
        let ghost before = goals@;
        let s = summary.summary.clone();
        goals.push(s);
        proof {
            lemma_views_push(before, s);
            assert(views(goals@) =~= seq![summary.summary@]);
        }
    }
    if goals.len() > 5 {
        let ghost before = goals@;
        goals.truncate(5);
        assert(views(goals@) =~= views(before).take(5));
    }
    goals
}

fn period_of(summary: &ChapterSummaryRecord, index: &ContextCapsuleIndex) -> (r: AutobiographicalPeriod)
    ensures
        period_is(r, *summary, *index),
{
    let dominant_goals = chapter_dominant_goals(summary);
    let mut parts = clone_strings(&dominant_goals);
    let ghost before = parts@;
    let s = summary.summary.clone();
    parts.push(s);
    proof {
        lemma_views_push(before, s);
    }
    let capsule_refs = capsule_refs_for_text(index, &parts);
    let sanitized_id = sanitize_ref(summary.summary_id.as_str());
    let mut evidence_refs: Vec<String> = Vec::new();
    evidence_refs.push(concat2("chapter_summary:", summary.summary_id.as_str()));
    assert(views(evidence_refs@) =~= seq!["chapter_summary:"@ + summary.summary_id@]);
    let turn_range = [summary.source_turn_start.clone(), summary.source_turn_end.clone()];
    AutobiographicalPeriod {
        schema_version: String::from_str(AUTOBIOGRAPHICAL_PERIOD_SCHEMA_VERSION),
        period_id: concat2("period:", sanitized_id.as_str()),
        label: summary.title.clone(),
        turn_range,
        dominant_goals,
        capsule_refs,
        evidence_refs,
    }
}

/// The periods of the index (see `period_order` and `period_is`).
pub fn compile_periods(chapters: &Vec<ChapterSummaryRecord>, index: &ContextCapsuleIndex) -> (r: Vec<
    AutobiographicalPeriod,
>)
    ensures
        r@.len() == period_order(chapters@).len(),
        forall|k: int|
            0 <= k < r@.len() ==> period_is(#[trigger] r@[k], chapters@[period_order(chapters@)[k] as int], *index),
{
    let ghost cs = chapters@;
    let n = chapters.len();
    let mut sorted: Vec<usize> = Vec::new();
    let mut i: usize = 0;
    while i < n
        invariant
            i <= n,
            n == cs.len(),
            cs == chapters@,
            sorted@ == sort_chapters(cs, positions(n as nat).subrange(0, i as int)),
            forall|j: int| 0 <= j < sorted@.len() ==> (#[trigger] sorted@[j]) < n,
        decreases n - i,
    {
        proof {
            assert(positions(n as nat).subrange(0, i + 1).drop_last() =~= positions(n as nat).subrange(0, i as int));
            assert(positions(n as nat).subrange(0, i + 1).last() == i);
        }
        let key = chapters[i].chapter_index;
        let mut k: usize = 0;
        while k < sorted.len() && !(key < chapters[sorted[k]].chapter_index)
            invariant
                k <= sorted@.len(),
                i < n,
                n == cs.len(),
                cs == chapters@,
                key == cs[i as int].chapter_index,
                forall|j: int| 0 <= j < sorted@.len() ==> (#[trigger] sorted@[j]) < n,
                forall|j: int|
                    0 <= j < k ==> !(cs[i as int].chapter_index < cs[#[trigger] sorted@[j] as int].chapter_index),
            decreases sorted.len() - k,
        {
            k = k + 1;
        }
        proof {
            lemma_chapter_insert_pos_is(cs, sorted@, i, k as int);
        }
        let ghost before = sorted@;
        sorted.insert(k, i);
        proof {
            assert forall|j: int| 0 <= j < sorted@.len() implies (#[trigger] sorted@[j]) < n by {
                if j < k {
                    assert(sorted@[j] == before[j]);
                } else if j > k {
                    assert(sorted@[j] == before[j - 1]);
                }
            }
        }
        i = i + 1;
    }
    assert(positions(n as nat).subrange(0, n as int) =~= positions(n as nat));
    let ghost order = period_order(cs);
    let ghost rev = sorted@.reverse();
    let m = sorted.len();
    let mut out: Vec<AutobiographicalPeriod> = Vec::new();
    let mut k: usize = 0;
    while k < m && k < PERIOD_BUDGET
        invariant
            k <= m,
            m == sorted@.len(),
            cs == chapters@,
            rev == sorted@.reverse(),
            order == period_order(cs),
            sorted@ == sort_chapters(cs, positions(cs.len())),
            forall|j: int| 0 <= j < sorted@.len() ==> (#[trigger] sorted@[j]) < cs.len(),
            out@.len() == k,
            k <= PERIOD_BUDGET,
            forall|j: int| 0 <= j < k ==> period_is(#[trigger] out@[j], cs[order[j] as int], *index),
        decreases m - k,
    {
        let c = sorted[m - 1 - k];
        proof {
            assert(rev[k as int] == sorted@[m - 1 - k]);
            assert(order[k as int] == rev[k as int]);
        }
        let p = period_of(&chapters[c], index);
        out.push(p);
        proof {
            assert forall|j: int| 0 <= j < k + 1 implies period_is(#[trigger] out@[j], cs[order[j] as int], *index) by {
                if j == k {
                    assert(out@[j] == p);
                }
            }
        }
        k = k + 1;
    }
    out
}

// ---------------------------------------------------------------------------
// General events: visible threads, relationships and processes.
// ---------------------------------------------------------------------------

pub struct EventView {
    pub schema_version: Seq<char>,
    pub cluster_id: Seq<char>,
    pub pattern: Seq<char>,
    pub kind: AutobiographicalGeneralEventKind,
    pub capsule_refs: Seq<Seq<char>>,
    pub evidence_refs: Seq<Seq<char>>,
}

pub open spec fn event_view(e: AutobiographicalGeneralEvent) -> EventView {
    EventView {
        schema_version: e.schema_version@,
        cluster_id: e.event_cluster_id@,
        pattern: e.pattern@,
        kind: e.event_kind,
        capsule_refs: views(e.capsule_refs@),
        evidence_refs: views(e.evidence_refs@),
    }
}

pub open spec fn event_views(es: Seq<AutobiographicalGeneralEvent>) -> Seq<EventView> {
    Seq::new(es.len(), |i: int| event_view(es[i]))
}

/// Visible plot threads, then relationships, then world processes.
pub open spec fn raw_events(input: AutobiographicalIndexInput) -> Seq<EventView> {
    let index = *input.context_capsule_index;
    let threads = input.plot_threads.active_visible@;
    let edges = input.relationship_graph.active_edges@;
    let processes = input.world_process_clock.visible_processes@;
    Seq::new(
        threads.len(),
        |i: int|
            {
                let t = threads[i];
                EventView {
                    schema_version: AUTOBIOGRAPHICAL_GENERAL_EVENT_SCHEMA_VERSION@,
                    cluster_id: "general_event:plot:"@ + sanitized(t.thread_id@),
                    pattern: t.title@ + ": "@ + t.current_question@,
                    kind: AutobiographicalGeneralEventKind::PlotThread,
                    capsule_refs: capsule_refs_of(index, seq![t.title@ + " "@ + t.summary@ + " "@ + t.current_question@]),
                    evidence_refs: views(t.source_refs@),
                }
            },
    ) + Seq::new(
        edges.len(),
        |i: int|
            {
                let e = edges[i];
                EventView {
                    schema_version: AUTOBIOGRAPHICAL_GENERAL_EVENT_SCHEMA_VERSION@,
                    cluster_id: "general_event:relationship:"@ + sanitized(e.edge_id@),
                    pattern: e.visible_summary@,
                    kind: AutobiographicalGeneralEventKind::RelationshipPattern,
                    capsule_refs: capsule_refs_of(
                        index,
                        seq![e.source_entity_id@, e.target_entity_id@, e.stance@, e.visible_summary@],
                    ),
                    evidence_refs: views(e.source_refs@),
                }
            },
    ) + Seq::new(
        processes.len(),
        |i: int|
            {
                let p = processes[i];
                EventView {
                    schema_version: AUTOBIOGRAPHICAL_GENERAL_EVENT_SCHEMA_VERSION@,
                    cluster_id: "general_event:process:"@ + sanitized(p.process_id@),
                    pattern: p.next_tick_contract@,
                    kind: AutobiographicalGeneralEventKind::WorldProcess,
                    capsule_refs: capsule_refs_of(index, seq![p.summary@, p.next_tick_contract@]),
                    evidence_refs: views(p.source_refs@),
                }
            },
    )
}

pub open spec fn kind_priority(k: AutobiographicalGeneralEventKind) -> int {
    match k {
        AutobiographicalGeneralEventKind::PlotThread => 0,
        AutobiographicalGeneralEventKind::RelationshipPattern => 1,
        AutobiographicalGeneralEventKind::WorldProcess => 2,
    }
}

/// Threads before relationships before processes; then by cluster id.
pub open spec fn event_before(a: EventView, b: EventView) -> bool {
    kind_priority(a.kind) < kind_priority(b.kind) || (kind_priority(a.kind) == kind_priority(b.kind) && seq_lt(
        a.cluster_id,
        b.cluster_id,
    ))
}

pub open spec fn event_insert_pos(t: Seq<EventView>, x: EventView) -> int
    decreases t.len(),
{
    if t.len() == 0 {
        0
    } else {
        let p = event_insert_pos(t.drop_last(), x);
        if p < t.len() - 1 {
            p
        } else if event_before(x, t.last()) {
            t.len() - 1
        } else {
            t.len() as int
        }
    }
}

/// The events in priority order; equal ones keep their order.
pub open spec fn sort_events(s: Seq<EventView>) -> Seq<EventView>
    decreases s.len(),
{
    if s.len() == 0 {
        Seq::empty()
    } else {
        let t = sort_events(s.drop_last());
        t.insert(event_insert_pos(t, s.last()), s.last())
    }
}

proof fn lemma_event_insert_pos_is(t: Seq<EventView>, x: EventView, k: int)
    requires
        0 <= k <= t.len(),
        forall|j: int| 0 <= j < k ==> !event_before(x, #[trigger] t[j]),
        k < t.len() ==> event_before(x, t[k]),
    ensures
        event_insert_pos(t, x) == k,
    decreases t.len(),
{
    if t.len() > 0 {
        let d = t.drop_last();
        assert forall|j: int| 0 <= j < d.len() implies d[j] == t[j] by {}
        if k < t.len() - 1 {
            lemma_event_insert_pos_is(d, x, k);
        } else {
            lemma_event_insert_pos_is(d, x, d.len() as int);
        }
    }
}

/// The general events of the index: sorted, at most the budget.
pub open spec fn general_events_of(input: AutobiographicalIndexInput) -> Seq<EventView> {
    let s = sort_events(raw_events(input));
    if s.len() > GENERAL_EVENT_BUDGET {
        s.take(GENERAL_EVENT_BUDGET as int)
    } else {
        s
    }
}

fn kind_priority_exec(k: AutobiographicalGeneralEventKind) -> (r: u8)
    ensures
        r as int == kind_priority(k),
{
    match k {
        AutobiographicalGeneralEventKind::PlotThread => 0,
        AutobiographicalGeneralEventKind::RelationshipPattern => 1,
        AutobiographicalGeneralEventKind::WorldProcess => 2,
    }
}

fn event_before_exec(a: &AutobiographicalGeneralEvent, b: &AutobiographicalGeneralEvent) -> (r: bool)
    ensures
        r == event_before(event_view(*a), event_view(*b)),
{
    let pa = kind_priority_exec(a.event_kind);
    let pb = kind_priority_exec(b.event_kind);
    pa < pb || (pa == pb && str_lt(a.event_cluster_id.as_str(), b.event_cluster_id.as_str()))
}

fn general_event(
    cluster_prefix: &str,
    id: &str,
    pattern: String,
    kind: AutobiographicalGeneralEventKind,
    index: &ContextCapsuleIndex,
    parts: &Vec<String>,
    evidence_refs: &Vec<String>,
) -> (r: AutobiographicalGeneralEvent)
    ensures
        event_view(r) == (EventView {
            schema_version: AUTOBIOGRAPHICAL_GENERAL_EVENT_SCHEMA_VERSION@,
            cluster_id: cluster_prefix@ + sanitized(id@),
            pattern: pattern@,
            kind,
            capsule_refs: capsule_refs_of(*index, views(parts@)),
            evidence_refs: views(evidence_refs@),
        }),
        r.schema_version@ == AUTOBIOGRAPHICAL_GENERAL_EVENT_SCHEMA_VERSION@,
{
    let sanitized_id = sanitize_ref(id);
    AutobiographicalGeneralEvent {
        schema_version: String::from_str(AUTOBIOGRAPHICAL_GENERAL_EVENT_SCHEMA_VERSION),
        event_cluster_id: concat2(cluster_prefix, sanitized_id.as_str()),
        pattern,
        event_kind: kind,
        capsule_refs: capsule_refs_for_text(index, parts),
        evidence_refs: clone_strings(evidence_refs),
    }
}

fn collect_raw_events(input: &AutobiographicalIndexInput) -> (r: Vec<AutobiographicalGeneralEvent>)
    ensures
        event_views(r@) == raw_events(*input),
        forall|k: int| 0 <= k < r@.len() ==> (#[trigger] r@[k]).schema_version@ == AUTOBIOGRAPHICAL_GENERAL_EVENT_SCHEMA_VERSION@,
{
    let ghost all = raw_events(*input);
    let index = input.context_capsule_index;
    let threads = &input.plot_threads.active_visible;
    let edges = &input.relationship_graph.active_edges;
    let processes = &input.world_process_clock.visible_processes;
    let ghost n1 = threads@.len();
    let ghost n2 = n1 + edges@.len();
    let mut events: Vec<AutobiographicalGeneralEvent> = Vec::new();
    let mut i: usize = 0;
    while i < threads.len()
        invariant
            i <= threads@.len(),
            all == raw_events(*input),
            threads@ == input.plot_threads.active_visible@,
            index == input.context_capsule_index,
            events@.len() == i,
            forall|k: int| 0 <= k < i ==> event_view(#[trigger] events@[k]) == all[k],
            forall|k: int| 0 <= k < events@.len() ==> (#[trigger] events@[k]).schema_version@ == AUTOBIOGRAPHICAL_GENERAL_EVENT_SCHEMA_VERSION@,
        decreases threads.len() - i,
    {
        let t = &threads[i];
        let mut parts: Vec<String> = Vec::new();
        let mut text = concat3(t.title.as_str(), " ", t.summary.as_str());
        text.append(" ");
        text.append(t.current_question.as_str());
        parts.push(text);
        assert(views(parts@) =~= seq![t.title@ + " "@ + t.summary@ + " "@ + t.current_question@]);
        let pattern = concat3(t.title.as_str(), ": ", t.current_question.as_str());
        let e = general_event(
            "general_event:plot:",
            t.thread_id.as_str(),
            pattern,
            AutobiographicalGeneralEventKind::PlotThread,
            index,
            &parts,
            &t.source_refs,
        );
        events.push(e);
        proof {
            assert forall|k: int| 0 <= k < i + 1 implies event_view(#[trigger] events@[k]) == all[k] by {
                if k == i {
                    assert(events@[k] == e);
                }
            }
        }
        i = i + 1;
    }
    let mut i: usize = 0;
    while i < edges.len()
        invariant
            i <= edges@.len(),
            all == raw_events(*input),
            edges@ == input.relationship_graph.active_edges@,
            index == input.context_capsule_index,
            n1 == input.plot_threads.active_visible@.len(),
            events@.len() == n1 + i,
            forall|k: int| 0 <= k < n1 + i ==> event_view(#[trigger] events@[k]) == all[k],
            forall|k: int| 0 <= k < events@.len() ==> (#[trigger] events@[k]).schema_version@ == AUTOBIOGRAPHICAL_GENERAL_EVENT_SCHEMA_VERSION@,
        decreases edges.len() - i,
    {
        let e0 = &edges[i];
        let mut parts: Vec<String> = Vec::new();
        parts.push(e0.source_entity_id.clone());
        parts.push(e0.target_entity_id.clone());
        parts.push(e0.stance.clone());
        parts.push(e0.visible_summary.clone());
        assert(views(parts@) =~= seq![e0.source_entity_id@, e0.target_entity_id@, e0.stance@, e0.visible_summary@]);
        let e = general_event(
            "general_event:relationship:",
            e0.edge_id.as_str(),
            e0.visible_summary.clone(),
            AutobiographicalGeneralEventKind::RelationshipPattern,
            index,
            &parts,
            &e0.source_refs,
        );
        events.push(e);
        proof {
            assert forall|k: int| 0 <= k < n1 + i + 1 implies event_view(#[trigger] events@[k]) == all[k] by {
                if k == n1 + i {
                    assert(events@[k] == e);
                }
            }
        }
        i = i + 1;
    }
    let mut i: usize = 0;
    while i < processes.len()
        invariant
            i <= processes@.len(),
            all == raw_events(*input),
            processes@ == input.world_process_clock.visible_processes@,
            index == input.context_capsule_index,
            n2 == n1 + input.relationship_graph.active_edges@.len(),
            n1 == input.plot_threads.active_visible@.len(),
            events@.len() == n2 + i,
            forall|k: int| 0 <= k < n2 + i ==> event_view(#[trigger] events@[k]) == all[k],
            forall|k: int| 0 <= k < events@.len() ==> (#[trigger] events@[k]).schema_version@ == AUTOBIOGRAPHICAL_GENERAL_EVENT_SCHEMA_VERSION@,
        decreases processes.len() - i,
    {
        let p = &processes[i];
        let mut parts: Vec<String> = Vec::new();
        parts.push(p.summary.clone());
        parts.push(p.next_tick_contract.clone());
        assert(views(parts@) =~= seq![p.summary@, p.next_tick_contract@]);
        let e = general_event(
            "general_event:process:",
            p.process_id.as_str(),
            p.next_tick_contract.clone(),
            AutobiographicalGeneralEventKind::WorldProcess,
            index,
            &parts,
            &p.source_refs,
        );
        events.push(e);
        proof {
            assert forall|k: int| 0 <= k < n2 + i + 1 implies event_view(#[trigger] events@[k]) == all[k] by {
                if k == n2 + i {
                    assert(events@[k] == e);
                }
            }
        }
        i = i + 1;
    }
    assert(event_views(events@) =~= all);
    events
}

/// The general events of the index (see `general_events_of`).
pub fn compile_general_events(input: &AutobiographicalIndexInput) -> (r: Vec<AutobiographicalGeneralEvent>)
    ensures
        event_views(r@) == general_events_of(*input),
        forall|k: int| 0 <= k < r@.len() ==> (#[trigger] r@[k]).schema_version@ == AUTOBIOGRAPHICAL_GENERAL_EVENT_SCHEMA_VERSION@,
{
    let mut events = collect_raw_events(input);
    let ghost all = event_views(events@);
    let ghost orig = events@;
    let n = events.len();
    let mut sorted: Vec<AutobiographicalGeneralEvent> = Vec::new();
    let mut i: usize = 0;
    while i < n
        invariant
            i <= n,
            n == orig.len(),
            all == event_views(orig),
            events@ == orig.subrange(i as int, n as int),
            event_views(sorted@) == sort_events(all.subrange(0, i as int)),
            forall|k: int| 0 <= k < orig.len() ==> (#[trigger] orig[k]).schema_version@ == AUTOBIOGRAPHICAL_GENERAL_EVENT_SCHEMA_VERSION@,
            forall|k: int| 0 <= k < sorted@.len() ==> (#[trigger] sorted@[k]).schema_version@ == AUTOBIOGRAPHICAL_GENERAL_EVENT_SCHEMA_VERSION@,
        decreases n - i,
    {
        let x = events.remove(0);
        proof {
            assert(x == orig[i as int]);
            assert(events@ =~= orig.subrange(i + 1, n as int));
            assert(all.subrange(0, i + 1).drop_last() =~= all.subrange(0, i as int));
            assert(all.subrange(0, i + 1).last() == event_view(x));
        }
        let mut k: usize = 0;
        while k < sorted.len() && !event_before_exec(&x, &sorted[k])
            invariant
                k <= sorted@.len(),
                forall|j: int| 0 <= j < k ==> !event_before(event_view(x), #[trigger] event_views(sorted@)[j]),
            decreases sorted.len() - k,
        {
            k = k + 1;
        }
        proof {
            lemma_event_insert_pos_is(event_views(sorted@), event_view(x), k as int);
        }
        let ghost before = sorted@;
        sorted.insert(k, x);
        proof {
            assert(event_views(sorted@) =~= event_views(before).insert(k as int, event_view(x)));
            assert forall|j: int| 0 <= j < sorted@.len() implies (#[trigger] sorted@[j]).schema_version@ == AUTOBIOGRAPHICAL_GENERAL_EVENT_SCHEMA_VERSION@ by {
                if j < k {
                    assert(sorted@[j] == before[j]);
                } else if j > k {
                    assert(sorted@[j] == before[j - 1]);
                }
            }
        }
        i = i + 1;
    }
    assert(all.subrange(0, n as int) =~= all);
    if sorted.len() > GENERAL_EVENT_BUDGET {
        let ghost before = sorted@;
        sorted.truncate(GENERAL_EVENT_BUDGET);
        assert(event_views(sorted@) =~= event_views(before).take(GENERAL_EVENT_BUDGET as int));
    }
    sorted
}

// ---------------------------------------------------------------------------
// The index.
// ---------------------------------------------------------------------------

pub open spec fn index_is(r: AutobiographicalIndexPacket, input: AutobiographicalIndexInput, updated_at: Seq<char>) -> bool {
    let order = period_order(input.chapter_summaries@);
    &&& r.schema_version@ == AUTOBIOGRAPHICAL_INDEX_SCHEMA_VERSION@
    &&& r.world_id@ == input.world_id@
    &&& r.turn_id@ == input.turn_id@
    &&& r.periods@.len() == order.len()
    &&& forall|k: int|
        0 <= k < order.len() ==> period_is(
            #[trigger] r.periods@[k],
            input.chapter_summaries@[order[k] as int],
            *input.context_capsule_index,
        )
    &&& event_views(r.general_events@) == general_events_of(input)
    &&& r.compiler_policy.period_budget == PERIOD_BUDGET
    &&& r.compiler_policy.general_event_budget == GENERAL_EVENT_BUDGET
    &&& r.updated_at@ == updated_at
}

/// The index of some memory layers, stamped with the given time.
pub fn compile_autobiographical_index(input: &AutobiographicalIndexInput, updated_at: &str) -> (r:
    AutobiographicalIndexPacket)
    ensures
        index_is(r, *input, updated_at@),
{
    let periods = compile_periods(input.chapter_summaries, input.context_capsule_index);
    let general_events = compile_general_events(input);
    AutobiographicalIndexPacket {
        schema_version: String::from_str(AUTOBIOGRAPHICAL_INDEX_SCHEMA_VERSION),
        world_id: String::from_str(input.world_id),
        turn_id: String::from_str(input.turn_id),
        periods,
        general_events,
        compiler_policy: AutobiographicalIndexPolicy::default(),
        updated_at: String::from_str(updated_at),
    }
}

/// The index of some memory layers, stamped with the current time (of
/// which nothing is promised).
pub fn rebuild_autobiographical_index(input: &AutobiographicalIndexInput) -> (out: Option<AutobiographicalIndexPacket>)
    ensures
        out is Some ==> exists|t: Seq<char>| #[trigger] index_is(out->0, *input, t),
{
    let now = match now_rfc3339() {
        Some(t) => t,
        None => return None,
    };
    let index = compile_autobiographical_index(input, now.as_str());
    assert(index_is(index, *input, now@));
    let out = Some(index);
    assert(out->0 == index);
    out
}

} // verus!
