//! Context capsules: prompt transport units compiled from world projections,
//! and the selection of the capsules a turn's prompt may load.
//!
//! Capsule bodies carry JSON payloads and live on disk; the library decides
//! which index entries are selected or rejected, in which order, why and at
//! what score. Scores are kept in hundredths.
use crate::text::{
    sort_dedup, sort_dedup_strings, chars_of, contains, contains_str, is_blank, is_blank_str, is_ws, is_ws_char, seq_lt,
    str_eq, str_lt, str_views, trim, trim_str, to_lowercase, unicode_lowercase, views,
    lemma_seq_lt_asymmetric, lemma_seq_lt_irreflexive, lemma_seq_lt_total,
    lemma_seq_lt_transitive, lemma_views_push,
};
use crate::clock::now_rfc3339;
use crate::character_text_design::{CharacterTextDesign, CharacterTextDesignPacket};
use crate::relationship_graph::{RelationshipEdge, RelationshipGraphPacket};
use crate::world_lore::{WorldLoreEntry, WorldLorePacket};
use crate::text::concat3;
use vstd::prelude::*;

verus! {

pub const CONTEXT_CAPSULE_INDEX_SCHEMA_VERSION: &'static str = "singulari.context_capsule_index.v1";
pub const CONTEXT_CAPSULE_INDEX_ENTRY_SCHEMA_VERSION: &'static str =
    "singulari.context_capsule_index_entry.v1";
pub const CONTEXT_CAPSULE_SCHEMA_VERSION: &'static str = "singulari.context_capsule.v1";
pub const CONTEXT_CAPSULE_SELECTION_SCHEMA_VERSION: &'static str =
    "singulari.context_capsule_selection.v1";
pub const CONTEXT_CAPSULE_SELECTION_EVENT_SCHEMA_VERSION: &'static str =
    "singulari.context_capsule_selection_event.v1";
pub const CONTEXT_CAPSULE_DIR: &'static str = "context_capsules";
pub const CONTEXT_CAPSULE_INDEX_FILENAME: &'static str = "capsule_index.json";
pub const CONTEXT_CAPSULE_SELECTION_EVENTS_FILENAME: &'static str =
    "context_capsule_selection_events.jsonl";

/// How many capsules one prompt may load.
pub const SELECTED_CONTEXT_CAPSULE_BUDGET: usize = 8;
/// How many of the latest selection events count as recent use.
pub const RECENT_SELECTION_EVENT_WINDOW: usize = 6;
/// Recent fallback selections after which a fallback capsule is dropped.
pub const STALE_FALLBACK_REUSE_LIMIT: u32 = 2;

#[derive(Debug, Clone, Copy, PartialEq, Eq, Structural)]
pub enum ContextCapsuleKind {
    WorldLore,
    RelationshipGraph,
    CharacterTextDesign,
}

#[derive(Debug, Clone, Copy, PartialEq, Eq, Structural)]
pub enum ContextCapsuleVisibility {
    PlayerVisible,
    InferredVisible,
    Private,
    Hidden,
}

#[derive(Debug, Clone, Copy, PartialEq, Eq, Structural)]
pub enum ContextCapsuleSelectionReason {
    DirectPlayerInputTrigger,
    CurrentGoalMatch,
    RoleStanceMatch,
    ScenePressureSource,
    ActiveProcessSource,
    ActiveProjectionFallback,
}

#[derive(Debug, Clone, Copy, PartialEq, Eq, Structural)]
pub enum ContextCapsuleRejectReason {
    VisibilityBlocked,
    BudgetExceeded,
    ZeroScore,
    RepeatedWithoutEffect,
    SeedLeakageRisk,
}

#[derive(Debug, Clone)]
pub struct ContextCapsuleEvidenceRef {
    pub source: String,
    pub id: String,
}

/// One entry of the capsule index: what a capsule is about and where its
/// body lies, without the body.
#[derive(Debug, Clone)]
pub struct ContextCapsuleIndexEntry {
    pub schema_version: String,
    pub world_id: String,
    pub capsule_id: String,
    pub kind: ContextCapsuleKind,
    pub visibility: ContextCapsuleVisibility,
    pub summary: String,
    pub triggers: Vec<String>,
    pub evidence_refs: Vec<ContextCapsuleEvidenceRef>,
    pub content_ref: String,
    pub token_estimate: usize,
    pub last_used_turn: Option<String>,
    pub recent_use_count: u32,
    pub updated_at: String,
}

#[derive(Debug, Clone)]
pub struct ContextCapsulePolicy {
    pub source: String,
    pub selected_capsule_budget: usize,
    pub use_rules: Vec<String>,
}

pub const CONTEXT_CAPSULE_POLICY_SOURCE: &'static str =
    "compiled_from_materialized_world_projections_v1";

impl Default for ContextCapsulePolicy {
    fn default() -> (r: Self)
        ensures
            r.source@ == CONTEXT_CAPSULE_POLICY_SOURCE@,
            r.selected_capsule_budget == SELECTED_CONTEXT_CAPSULE_BUDGET,
            r.use_rules@.len() == 3,
    {
        ContextCapsulePolicy {
            source: String::from_str(CONTEXT_CAPSULE_POLICY_SOURCE),
            selected_capsule_budget: SELECTED_CONTEXT_CAPSULE_BUDGET,
            use_rules: vec![
                String::from_str("Context capsules are prompt transport units, not source-of-truth state."),
                String::from_str("Capsule bodies must be rebuilt from typed projections, never invented as fallback summaries."),
                String::from_str("Visible prompt selection may load only player-visible or inferred-visible capsules."),
            ],
        }
    }
}

#[derive(Debug, Clone)]
pub struct ContextCapsuleIndex {
    pub schema_version: String,
    pub world_id: String,
    pub turn_id: String,
    pub entries: Vec<ContextCapsuleIndexEntry>,
    pub compiler_policy: ContextCapsulePolicy,
}

#[derive(Debug, Clone)]
pub struct RejectedContextCapsule {
    pub capsule_id: String,
    pub kind: ContextCapsuleKind,
    pub reason: ContextCapsuleRejectReason,
}

#[derive(Debug, Clone)]
pub struct ContextCapsuleBudgetReport {
    pub capsule_index_entries_seen: usize,
    pub capsules_loaded: usize,
    pub capsules_rejected: usize,
    pub estimated_tokens: usize,
    pub selected_limit: usize,
}

impl Default for ContextCapsuleBudgetReport {
    fn default() -> (r: Self)
        ensures
            r.capsule_index_entries_seen == 0,
            r.capsules_loaded == 0,
            r.capsules_rejected == 0,
            r.estimated_tokens == 0,
            r.selected_limit == SELECTED_CONTEXT_CAPSULE_BUDGET,
    {
        ContextCapsuleBudgetReport {
            capsule_index_entries_seen: 0,
            capsules_loaded: 0,
            capsules_rejected: 0,
            estimated_tokens: 0,
            selected_limit: SELECTED_CONTEXT_CAPSULE_BUDGET,
        }
    }
}

/// The record of one turn's selection, appended once per turn.
#[derive(Debug, Clone)]
pub struct ContextCapsuleSelectionEvent {
    pub schema_version: String,
    pub world_id: String,
    pub turn_id: String,
    pub event_id: String,
    pub selected_capsule_ids: Vec<String>,
    pub rejected_capsule_ids: Vec<String>,
    pub created_at: String,
}

// ---------------------------------------------------------------------------
// Retrieval cues handed over by the turn's retrieval controller.
// ---------------------------------------------------------------------------

#[derive(Debug, Clone, Copy, PartialEq, Eq, Structural)]
pub enum TurnRetrievalVisibility {
    PlayerVisible,
    AdjudicationOnly,
}

#[derive(Debug, Clone, Copy, PartialEq, Eq, Structural)]
pub enum TurnRetrievalTargetKind {
    WorldLore,
    RelationshipGraph,
    CharacterTextDesign,
}

#[derive(Debug, Clone, Copy, PartialEq, Eq, Structural)]
pub enum TurnRetrievalCueReason {
    CurrentGoalMatch,
    PlayerIntentContinuity,
    SpatialAffordance,
    BodyResourceGate,
    RoleStanceMatch,
    ScenePressureSource,
    ActiveProcessSource,
}

#[derive(Debug, Clone)]
pub struct TurnRetrievalCue {
    pub cue_id: String,
    pub cue: String,
    pub reason: TurnRetrievalCueReason,
    pub target_kinds: Vec<TurnRetrievalTargetKind>,
    pub visibility: TurnRetrievalVisibility,
    pub source_refs: Vec<String>,
}

// ---------------------------------------------------------------------------
// Small rules.
// ---------------------------------------------------------------------------

/// Only player-visible and inferred-visible capsules may enter a prompt.
pub fn is_visible_for_prompt(visibility: ContextCapsuleVisibility) -> (r: bool)
    ensures
        r == (visibility == ContextCapsuleVisibility::PlayerVisible || visibility
            == ContextCapsuleVisibility::InferredVisible),
{
    match visibility {
        ContextCapsuleVisibility::PlayerVisible | ContextCapsuleVisibility::InferredVisible => true,
        _ => false,
    }
}

pub open spec fn leaks_seed(entry: ContextCapsuleIndexEntry) -> bool {
    entry.evidence_refs@.len() == 0 && (entry.kind == ContextCapsuleKind::WorldLore || entry.kind
        == ContextCapsuleKind::RelationshipGraph)
}

/// Lore and relationship capsules without evidence could carry seed text.
pub fn seed_leakage_risk(entry: &ContextCapsuleIndexEntry) -> (r: bool)
    ensures
        r == leaks_seed(*entry),
{
    entry.evidence_refs.len() == 0 && match entry.kind {
        ContextCapsuleKind::WorldLore | ContextCapsuleKind::RelationshipGraph => true,
        ContextCapsuleKind::CharacterTextDesign => false,
    }
}

pub open spec fn target_kind_of(kind: ContextCapsuleKind) -> TurnRetrievalTargetKind {
    match kind {
        ContextCapsuleKind::WorldLore => TurnRetrievalTargetKind::WorldLore,
        ContextCapsuleKind::RelationshipGraph => TurnRetrievalTargetKind::RelationshipGraph,
        ContextCapsuleKind::CharacterTextDesign => TurnRetrievalTargetKind::CharacterTextDesign,
    }
}

/// A cue aims at capsules of `kind`.
pub fn cue_target_matches_entry(targets: &Vec<TurnRetrievalTargetKind>, kind: ContextCapsuleKind) -> (r:
    bool)
    ensures
        r == targets@.contains(target_kind_of(kind)),
{
    let expected = match kind {
        ContextCapsuleKind::WorldLore => TurnRetrievalTargetKind::WorldLore,
        ContextCapsuleKind::RelationshipGraph => TurnRetrievalTargetKind::RelationshipGraph,
        ContextCapsuleKind::CharacterTextDesign => TurnRetrievalTargetKind::CharacterTextDesign,
    };
    let mut i: usize = 0;
    while i < targets.len()
        invariant
            i <= targets@.len(),
            expected == target_kind_of(kind),
            forall|j: int| 0 <= j < i ==> targets@[j] != expected,
        decreases targets.len() - i,
    {
        if targets[i] == expected {
            assert(targets@[i as int] == target_kind_of(kind));
            return true;
        }
        i = i + 1;
    }
    false
}

pub open spec fn cue_selection_reason(reason: TurnRetrievalCueReason) -> ContextCapsuleSelectionReason {
    match reason {
        TurnRetrievalCueReason::CurrentGoalMatch
        | TurnRetrievalCueReason::PlayerIntentContinuity
        | TurnRetrievalCueReason::SpatialAffordance
        | TurnRetrievalCueReason::BodyResourceGate => ContextCapsuleSelectionReason::CurrentGoalMatch,
        TurnRetrievalCueReason::RoleStanceMatch => ContextCapsuleSelectionReason::RoleStanceMatch,
        TurnRetrievalCueReason::ScenePressureSource => ContextCapsuleSelectionReason::ScenePressureSource,
        TurnRetrievalCueReason::ActiveProcessSource => ContextCapsuleSelectionReason::ActiveProcessSource,
    }
}

pub fn selection_reason_from_cue(reason: TurnRetrievalCueReason) -> (r: ContextCapsuleSelectionReason)
    ensures
        r == cue_selection_reason(reason),
{
    match reason {
        TurnRetrievalCueReason::CurrentGoalMatch
        | TurnRetrievalCueReason::PlayerIntentContinuity
        | TurnRetrievalCueReason::SpatialAffordance
        | TurnRetrievalCueReason::BodyResourceGate => ContextCapsuleSelectionReason::CurrentGoalMatch,
        TurnRetrievalCueReason::RoleStanceMatch => ContextCapsuleSelectionReason::RoleStanceMatch,
        TurnRetrievalCueReason::ScenePressureSource => ContextCapsuleSelectionReason::ScenePressureSource,
        TurnRetrievalCueReason::ActiveProcessSource => ContextCapsuleSelectionReason::ActiveProcessSource,
    }
}

/// A cue's score, in hundredths.
pub open spec fn cue_score(reason: TurnRetrievalCueReason) -> u32 {
    match reason {
        TurnRetrievalCueReason::CurrentGoalMatch => 90,
        TurnRetrievalCueReason::ScenePressureSource => 82,
        TurnRetrievalCueReason::RoleStanceMatch => 78,
        TurnRetrievalCueReason::ActiveProcessSource => 74,
        TurnRetrievalCueReason::SpatialAffordance
        | TurnRetrievalCueReason::BodyResourceGate
        | TurnRetrievalCueReason::PlayerIntentContinuity => 70,
    }
}

pub fn score_from_cue_reason(reason: TurnRetrievalCueReason) -> (r: u32)
    ensures
        r == cue_score(reason),
{
    match reason {
        TurnRetrievalCueReason::CurrentGoalMatch => 90,
        TurnRetrievalCueReason::ScenePressureSource => 82,
        TurnRetrievalCueReason::RoleStanceMatch => 78,
        TurnRetrievalCueReason::ActiveProcessSource => 74,
        TurnRetrievalCueReason::SpatialAffordance
        | TurnRetrievalCueReason::BodyResourceGate
        | TurnRetrievalCueReason::PlayerIntentContinuity => 70,
    }
}

/// Score of a direct player-input trigger, in hundredths.
pub const DIRECT_TRIGGER_SCORE: u32 = 100;
/// Score of a capsule picked only because its projection is active.
pub const FALLBACK_SCORE: u32 = 35;

pub open spec fn visibility_of_text(value: Seq<char>) -> ContextCapsuleVisibility {
    if value == "inferred_visible"@ {
        ContextCapsuleVisibility::InferredVisible
    } else if value == "private"@ {
        ContextCapsuleVisibility::Private
    } else if value == "hidden"@ {
        ContextCapsuleVisibility::Hidden
    } else {
        ContextCapsuleVisibility::PlayerVisible
    }
}

/// Reads a projection's visibility label; anything unknown is player-visible.
pub fn visibility_from_str(value: &str) -> (r: ContextCapsuleVisibility)
    ensures
        r == visibility_of_text(value@),
{
    if str_eq(value, "inferred_visible") {
        ContextCapsuleVisibility::InferredVisible
    } else if str_eq(value, "private") {
        ContextCapsuleVisibility::Private
    } else if str_eq(value, "hidden") {
        ContextCapsuleVisibility::Hidden
    } else {
        ContextCapsuleVisibility::PlayerVisible
    }
}

/// The prompt-size estimate of a capsule: a third of its summary's
/// characters, rounded up, and never below 24.
pub open spec fn token_estimate_of(summary: Seq<char>) -> nat {
    let third = if summary.len() % 3 == 0 {
        summary.len() / 3
    } else {
        summary.len() / 3 + 1
    };
    if third < 24 {
        24
    } else {
        third
    }
}

pub fn token_estimate(summary: &str) -> (r: usize)
    ensures
        r == token_estimate_of(summary@),
{
    let n = chars_of(summary).len();
    let third = if n % 3 == 0 {
        n / 3
    } else {
        n / 3 + 1
    };
    if third < 24 {
        24
    } else {
        third
    }
}

pub open spec fn ref_char(c: char) -> char {
    if ('a' <= c && c <= 'z') || ('A' <= c && c <= 'Z') || ('0' <= c && c <= '9') || c == '_'
        || c == '-' {
        c
    } else {
        '_'
    }
}

/// ASCII letters, digits, `_` and `-` kept; every other character becomes `_`.
pub fn sanitize_ref(value: &str) -> (r: String)
    ensures
        r@ == value@.map_values(|c: char| ref_char(c)),
{
    let cs = chars_of(value);
    let mut out = String::new();
    let mut i: usize = 0;
    while i < cs.len()
        invariant
            i <= cs@.len(),
            cs@ == value@,
            out@ == cs@.subrange(0, i as int).map_values(|c: char| ref_char(c)),
        decreases cs.len() - i,
    {
        let c = cs[i];
        let kept = ('a' <= c && c <= 'z') || ('A' <= c && c <= 'Z') || ('0' <= c && c <= '9')
            || c == '_' || c == '-';
        if kept {
            out.push(c);
        } else {
            out.push('_');
        }
        assert(cs@.subrange(0, i + 1).map_values(|c: char| ref_char(c)) =~= cs@.subrange(
            0,
            i as int,
        ).map_values(|c: char| ref_char(c)).push(ref_char(c)));
        i = i + 1;
    }
    assert(cs@.subrange(0, cs@.len() as int) =~= cs@);
    out
}

pub open spec fn kind_dir(kind: ContextCapsuleKind) -> Seq<char> {
    match kind {
        ContextCapsuleKind::WorldLore => "world_lore"@,
        ContextCapsuleKind::RelationshipGraph => "relationship"@,
        ContextCapsuleKind::CharacterTextDesign => "character_text"@,
    }
}

/// Where a capsule body lies below the world directory:
/// `context_capsules/<kind dir>/<sanitized id>.json`.
pub fn capsule_relative_path(kind: ContextCapsuleKind, capsule_id: &str) -> (r: String)
    ensures
        r@ == CONTEXT_CAPSULE_DIR@ + "/"@ + kind_dir(kind) + "/"@ + capsule_id@.map_values(
            |c: char| ref_char(c),
        ) + ".json"@,
{
    let subdir: &str = match kind {
        ContextCapsuleKind::WorldLore => "world_lore",
        ContextCapsuleKind::RelationshipGraph => "relationship",
        ContextCapsuleKind::CharacterTextDesign => "character_text",
    };
    let mut out = String::from_str(CONTEXT_CAPSULE_DIR);
    out.append("/");
    out.append(subdir);
    out.append("/");
    let id = sanitize_ref(capsule_id);
    out.append(id.as_str());
    out.append(".json");
    out
}

pub open spec fn kind_id_prefix(kind: ContextCapsuleKind) -> Seq<char> {
    match kind {
        ContextCapsuleKind::WorldLore => "world_lore:"@,
        ContextCapsuleKind::RelationshipGraph => "relationship:"@,
        ContextCapsuleKind::CharacterTextDesign => "character_text:"@,
    }
}

/// The capsule id of a projection record: the kind's prefix and the
/// sanitized record id (a lore id, an edge id or an entity id).
pub fn capsule_id_for(kind: ContextCapsuleKind, record_id: &str) -> (r: String)
    ensures
        r@ == kind_id_prefix(kind) + record_id@.map_values(|c: char| ref_char(c)),
{
    let prefix: &str = match kind {
        ContextCapsuleKind::WorldLore => "world_lore:",
        ContextCapsuleKind::RelationshipGraph => "relationship:",
        ContextCapsuleKind::CharacterTextDesign => "character_text:",
    };
    let mut out = String::from_str(prefix);
    let id = sanitize_ref(record_id);
    out.append(id.as_str());
    out
}

// ---------------------------------------------------------------------------
// Trigger terms: the words a capsule answers to.
// ---------------------------------------------------------------------------

/// Whitespace and the punctuation that separate trigger words.
pub open spec fn is_term_separator(c: char) -> bool {
    is_ws(c) || c == ':' || c == ';' || c == ',' || c == '.' || c == '(' || c == ')' || c == '['
        || c == ']' || c == '-' || c == '>'
}

fn is_term_separator_exec(c: char) -> (r: bool)
    ensures
        r == is_term_separator(c),
{
    is_ws_char(c) || c == ':' || c == ';' || c == ',' || c == '.' || c == '(' || c == ')' || c
        == '[' || c == ']' || c == '-' || c == '>'
}

/// The pieces between separators, empty ones included, as `str::split`
/// with a character predicate yields them.
pub open spec fn split_pieces(s: Seq<char>) -> Seq<Seq<char>>
    decreases s.len(),
{
    if s.len() == 0 {
        seq![Seq::<char>::empty()]
    } else {
        let p = split_pieces(s.drop_last());
        if is_term_separator(s.last()) {
            p.push(Seq::<char>::empty())
        } else {
            p.update(p.len() - 1, p.last().push(s.last()))
        }
    }
}

proof fn lemma_split_pieces_nonempty(s: Seq<char>)
    ensures
        split_pieces(s).len() >= 1,
    decreases s.len(),
{
    if s.len() > 0 {
        lemma_split_pieces_nonempty(s.drop_last());
    }
}

/// The pieces of every part, part after part.
pub open spec fn part_pieces(parts: Seq<Seq<char>>) -> Seq<Seq<char>>
    decreases parts.len(),
{
    if parts.len() == 0 {
        Seq::empty()
    } else {
        part_pieces(parts.drop_last()) + split_pieces(parts.last())
    }
}

/// Each piece trimmed and lowercased; those of fewer than two characters dropped.
pub open spec fn kept_terms(pieces: Seq<Seq<char>>) -> Seq<Seq<char>>
    decreases pieces.len(),
{
    if pieces.len() == 0 {
        Seq::empty()
    } else {
        let k = kept_terms(pieces.drop_last());
        let t = unicode_lowercase(trim(pieces.last()));
        if t.len() >= 2 {
            k.push(t)
        } else {
            k
        }
    }
}

/// The trigger terms of some texts: split into words, trimmed, lowercased,
/// words of fewer than two characters dropped, sorted and deduplicated.
pub open spec fn trigger_terms_of(parts: Seq<Seq<char>>) -> Seq<Seq<char>> {
    sort_dedup(kept_terms(part_pieces(parts)))
}

/// Appends the trimmed, lowercased piece when it has two characters or more.
fn keep_term(terms: &mut Vec<String>, piece: &str)
    ensures
        views(final(terms)@) == (if unicode_lowercase(trim(piece@)).len() >= 2 {
            views(old(terms)@).push(unicode_lowercase(trim(piece@)))
        } else {
            views(old(terms)@)
        }),
{
    let t = to_lowercase(trim_str(piece));
    if chars_of(t.as_str()).len() >= 2 {
        let ghost prev = terms@;
        terms.push(t);
        proof {
            lemma_views_push(prev, terms@.last());
            assert(prev.push(terms@.last()) =~= terms@);
        }
    }
}

/// The trigger terms of some texts (see `trigger_terms_of`).
pub fn trigger_terms(parts: &[&str]) -> (r: Vec<String>)
    ensures
        views(r@) == trigger_terms_of(str_views(parts@)),
{
    let mut terms: Vec<String> = Vec::new();
    let mut p: usize = 0;
    while p < parts.len()
        invariant
            p <= parts@.len(),
            views(terms@) == kept_terms(part_pieces(str_views(parts@).subrange(0, p as int))),
        decreases parts.len() - p,
    {
        let cs = chars_of(parts[p]);
        let ghost done = part_pieces(str_views(parts@).subrange(0, p as int));
        let mut cur = String::new();
        let mut i: usize = 0;
        proof {
            assert(cs@.subrange(0, 0) =~= Seq::<char>::empty());
            assert(split_pieces(Seq::<char>::empty()).drop_last() =~= Seq::<Seq<char>>::empty());
            assert(done + Seq::<Seq<char>>::empty() =~= done);
        }
        while i < cs.len()
            invariant
                i <= cs@.len(),
                done == part_pieces(str_views(parts@).subrange(0, p as int)),
                views(terms@) == kept_terms(done + split_pieces(cs@.subrange(0, i as int)).drop_last()),
                split_pieces(cs@.subrange(0, i as int)).len() >= 1,
                split_pieces(cs@.subrange(0, i as int)).last() == cur@,
            decreases cs.len() - i,
        {
            let c = cs[i];
            let ghost before = split_pieces(cs@.subrange(0, i as int));
            proof {
                assert(cs@.subrange(0, i + 1).drop_last() =~= cs@.subrange(0, i as int));
                assert(cs@.subrange(0, i + 1).last() == c);
            }
            if is_term_separator_exec(c) {
                keep_term(&mut terms, cur.as_str());
                proof {
                    assert(split_pieces(cs@.subrange(0, i + 1)) == before.push(Seq::<char>::empty()));
                    assert(split_pieces(cs@.subrange(0, i + 1)).drop_last() =~= before);
                    assert((done + before.drop_last()).push(cur@) =~= done + before);
                    assert((done + before.drop_last()).push(cur@).drop_last() =~= done + before.drop_last());
                }
                cur = String::new();
            } else {
                cur.push(c);
                proof {
                    let after = split_pieces(cs@.subrange(0, i + 1));
                    assert(after == before.update(before.len() - 1, before.last().push(c)));
                    assert(after.drop_last() =~= before.drop_last());
                }
            }
            i = i + 1;
        }
        keep_term(&mut terms, cur.as_str());
        proof {
            let sp = split_pieces(cs@);
            assert(cs@.subrange(0, cs@.len() as int) =~= cs@);
            assert(str_views(parts@).subrange(0, p + 1).drop_last() =~= str_views(parts@).subrange(0, p as int));
            assert(str_views(parts@).subrange(0, p + 1).last() == cs@);
            assert(part_pieces(str_views(parts@).subrange(0, p + 1)) == done + sp);
            assert((done + sp.drop_last()).push(cur@) =~= done + sp);
            assert((done + sp.drop_last()).push(cur@).drop_last() =~= done + sp.drop_last());
        }
        p = p + 1;
    }
    proof {
        assert(str_views(parts@).subrange(0, parts@.len() as int) =~= str_views(parts@));
    }
    sort_dedup_strings(terms)
}

// ---------------------------------------------------------------------------
// Scoring one index entry.
// ---------------------------------------------------------------------------

/// Either of two texts occurs in the other.
pub open spec fn touches(a: Seq<char>, b: Seq<char>) -> bool {
    contains(a, b) || contains(b, a)
}

/// Some trigger and some term occur one in the other.
pub open spec fn terms_touch(triggers: Seq<String>, terms: Seq<Seq<char>>) -> bool {
    exists|i: int, j: int|
        0 <= i < triggers.len() && 0 <= j < terms.len() && #[trigger] touches(triggers[i]@, terms[j])
}

fn terms_touch_exec(triggers: &Vec<String>, terms: &Vec<String>) -> (r: bool)
    ensures
        r == terms_touch(triggers@, views(terms@)),
{
    let mut i: usize = 0;
    while i < triggers.len()
        invariant
            i <= triggers@.len(),
            forall|a: int, b: int|
                0 <= a < i && 0 <= b < terms@.len() ==> !#[trigger] touches(triggers@[a]@, views(terms@)[b]),
        decreases triggers.len() - i,
    {
        let mut j: usize = 0;
        while j < terms.len()
            invariant
                i < triggers@.len(),
                j <= terms@.len(),
                forall|a: int, b: int|
                    0 <= a < i && 0 <= b < terms@.len() ==> !#[trigger] touches(triggers@[a]@, views(terms@)[b]),
                forall|b: int| 0 <= b < j ==> !#[trigger] touches(triggers@[i as int]@, views(terms@)[b]),
            decreases terms.len() - j,
        {
            let t = triggers[i].as_str();
            let c = terms[j].as_str();
            if contains_str(t, c) || contains_str(c, t) {
                assert(touches(triggers@[i as int]@, views(terms@)[j as int]));
                return true;
            }
            j = j + 1;
        }
        i = i + 1;
    }
    false
}

/// A cue applies to an entry: it is player-visible, aims at the entry's kind
/// and one of its terms touches one of the entry's triggers.
pub open spec fn cue_applies(entry: ContextCapsuleIndexEntry, cue: TurnRetrievalCue) -> bool {
    &&& cue.visibility == TurnRetrievalVisibility::PlayerVisible
    &&& cue.target_kinds@.contains(target_kind_of(entry.kind))
    &&& terms_touch(entry.triggers@, trigger_terms_of(seq![cue.cue@]))
}

/// The best applying cue, the first one among equal scores.
pub open spec fn best_cue(entry: ContextCapsuleIndexEntry, cues: Seq<TurnRetrievalCue>) -> Option<
    (ContextCapsuleSelectionReason, u32),
>
    decreases cues.len(),
{
    if cues.len() == 0 {
        None
    } else {
        let b = best_cue(entry, cues.drop_last());
        let c = cues.last();
        if cue_applies(entry, c) && (b is None || cue_score(c.reason) > b.unwrap().1) {
            Some((cue_selection_reason(c.reason), cue_score(c.reason)))
        } else {
            b
        }
    }
}

fn cue_applies_exec(entry: &ContextCapsuleIndexEntry, cue: &TurnRetrievalCue) -> (r: bool)
    ensures
        r == cue_applies(*entry, *cue),
{
    if cue.visibility != TurnRetrievalVisibility::PlayerVisible {
        return false;
    }
    if !cue_target_matches_entry(&cue.target_kinds, entry.kind) {
        return false;
    }
    let parts: Vec<&str> = vec![cue.cue.as_str()];
    assert(str_views(parts@) =~= seq![cue.cue@]);
    let terms = trigger_terms(parts.as_slice());
    terms_touch_exec(&entry.triggers, &terms)
}

/// The reason and score the best applying retrieval cue gives an entry.
pub fn score_entry_from_retrieval_cues(entry: &ContextCapsuleIndexEntry, cues: &Vec<TurnRetrievalCue>) -> (r:
    Option<(ContextCapsuleSelectionReason, u32)>)
    ensures
        r == best_cue(*entry, cues@),
{
    let mut best: Option<(ContextCapsuleSelectionReason, u32)> = None;
    let mut k: usize = 0;
    while k < cues.len()
        invariant
            k <= cues@.len(),
            best == best_cue(*entry, cues@.subrange(0, k as int)),
        decreases cues.len() - k,
    {
        proof {
            assert(cues@.subrange(0, k + 1).drop_last() =~= cues@.subrange(0, k as int));
            assert(cues@.subrange(0, k + 1).last() == cues@[k as int]);
        }
        let cue = &cues[k];
        if cue_applies_exec(entry, cue) {
            let score = score_from_cue_reason(cue.reason);
            let better = match best {
                None => true,
                Some(b) => score > b.1,
            };
            if better {
                best = Some((selection_reason_from_cue(cue.reason), score));
            }
        }
        k = k + 1;
    }
    assert(cues@.subrange(0, cues@.len() as int) =~= cues@);
    best
}

/// The player's lowercased input is not blank and holds one of the entry's
/// non-empty triggers.
pub open spec fn direct_trigger_hit(triggers: Seq<String>, haystack: Seq<char>) -> bool {
    !is_blank(haystack) && exists|i: int|
        0 <= i < triggers.len() && triggers[i]@.len() > 0 && #[trigger] contains(haystack, triggers[i]@)
}

fn direct_trigger_hit_exec(triggers: &Vec<String>, haystack: &str) -> (r: bool)
    ensures
        r == direct_trigger_hit(triggers@, haystack@),
{
    if is_blank_str(haystack) {
        return false;
    }
    let mut i: usize = 0;
    while i < triggers.len()
        invariant
            i <= triggers@.len(),
            !is_blank(haystack@),
            forall|j: int|
                0 <= j < i ==> !(triggers@[j]@.len() > 0 && #[trigger] contains(haystack@, triggers@[j]@)),
        decreases triggers.len() - i,
    {
        let t = triggers[i].as_str();
        if t.unicode_len() > 0 && contains_str(haystack, t) {
            assert(contains(haystack@, triggers@[i as int]@));
            return true;
        }
        i = i + 1;
    }
    false
}

/// The reason and score of an entry for a turn: a direct trigger in the
/// player's input first, then the best retrieval cue, else the fallback.
pub open spec fn capsule_score(
    entry: ContextCapsuleIndexEntry,
    haystack: Seq<char>,
    cues: Seq<TurnRetrievalCue>,
) -> (ContextCapsuleSelectionReason, u32) {
    if direct_trigger_hit(entry.triggers@, haystack) {
        (ContextCapsuleSelectionReason::DirectPlayerInputTrigger, DIRECT_TRIGGER_SCORE)
    } else {
        match best_cue(entry, cues) {
            Some(b) => b,
            None => (ContextCapsuleSelectionReason::ActiveProjectionFallback, FALLBACK_SCORE),
        }
    }
}

/// Scores an entry against the lowercased player input and the cues.
pub fn score_capsule_entry(entry: &ContextCapsuleIndexEntry, haystack: &str, cues: &Vec<TurnRetrievalCue>) -> (r:
    (ContextCapsuleSelectionReason, u32))
    ensures
        r == capsule_score(*entry, haystack@, cues@),
{
    if direct_trigger_hit_exec(&entry.triggers, haystack) {
        return (ContextCapsuleSelectionReason::DirectPlayerInputTrigger, DIRECT_TRIGGER_SCORE);
    }
    match score_entry_from_retrieval_cues(entry, cues) {
        Some(b) => b,
        None => (ContextCapsuleSelectionReason::ActiveProjectionFallback, FALLBACK_SCORE),
    }
}

// ---------------------------------------------------------------------------
// Recent use.
// ---------------------------------------------------------------------------

/// How often `id` occurs in `ids`.
pub open spec fn occurrences(ids: Seq<String>, id: Seq<char>) -> nat
    decreases ids.len(),
{
    if ids.len() == 0 {
        0
    } else {
        occurrences(ids.drop_last(), id) + if ids.last()@ == id {
            1nat
        } else {
            0nat
        }
    }
}

/// How often `id` was selected over the given events.
pub open spec fn use_count(events: Seq<ContextCapsuleSelectionEvent>, id: Seq<char>) -> nat
    decreases events.len(),
{
    if events.len() == 0 {
        0
    } else {
        use_count(events.drop_last(), id) + occurrences(events.last().selected_capsule_ids@, id)
    }
}

/// The latest events, as many as the recent window holds.
pub open spec fn recent_events(events: Seq<ContextCapsuleSelectionEvent>) -> Seq<ContextCapsuleSelectionEvent> {
    if events.len() > RECENT_SELECTION_EVENT_WINDOW {
        events.subrange(events.len() - RECENT_SELECTION_EVENT_WINDOW, events.len() as int)
    } else {
        events
    }
}

/// A fallback pick of a capsule that recent turns already selected often
/// enough brings nothing new.
pub open spec fn stale_fallback(
    reason: ContextCapsuleSelectionReason,
    id: Seq<char>,
    events: Seq<ContextCapsuleSelectionEvent>,
) -> bool {
    reason == ContextCapsuleSelectionReason::ActiveProjectionFallback && use_count(
        recent_events(events),
        id,
    ) >= STALE_FALLBACK_REUSE_LIMIT
}

proof fn lemma_use_count_monotone(events: Seq<ContextCapsuleSelectionEvent>, n: int, id: Seq<char>)
    requires
        0 <= n <= events.len(),
    ensures
        use_count(events.subrange(0, n), id) <= use_count(events, id),
    decreases events.len(),
{
    if n < events.len() {
        assert(events.drop_last().subrange(0, n) =~= events.subrange(0, n));
        lemma_use_count_monotone(events.drop_last(), n, id);
    } else {
        assert(events.subrange(0, n) =~= events);
    }
}

proof fn lemma_occurrences_monotone(ids: Seq<String>, n: int, id: Seq<char>)
    requires
        0 <= n <= ids.len(),
    ensures
        occurrences(ids.subrange(0, n), id) <= occurrences(ids, id),
    decreases ids.len(),
{
    if n < ids.len() {
        assert(ids.drop_last().subrange(0, n) =~= ids.subrange(0, n));
        lemma_occurrences_monotone(ids.drop_last(), n, id);
    } else {
        assert(ids.subrange(0, n) =~= ids);
    }
}

/// Whether the latest events selected `id` at least as often as the stale
/// fallback limit.
pub fn recently_reused(events: &Vec<ContextCapsuleSelectionEvent>, id: &str) -> (r: bool)
    ensures
        r == (use_count(recent_events(events@), id@) >= STALE_FALLBACK_REUSE_LIMIT),
{
    let start: usize = if events.len() > RECENT_SELECTION_EVENT_WINDOW {
        events.len() - RECENT_SELECTION_EVENT_WINDOW
    } else {
        0
    };
    let ghost window = events@.subrange(start as int, events@.len() as int);
    assert(recent_events(events@) == window);
    let mut count: u32 = 0;
    let mut e: usize = start;
    while e < events.len()
        invariant
            start <= e <= events@.len(),
            window == events@.subrange(start as int, events@.len() as int),
            recent_events(events@) == window,
            count as nat == use_count(events@.subrange(start as int, e as int), id@),
            count < STALE_FALLBACK_REUSE_LIMIT,
        decreases events.len() - e,
    {
        let ids = &events[e].selected_capsule_ids;
        let ghost before = count as nat;
        proof {
            assert(events@.subrange(start as int, e + 1).drop_last() =~= events@.subrange(start as int, e as int));
            assert(events@.subrange(start as int, e + 1).last() == events@[e as int]);
        }
        let mut k: usize = 0;
        while k < ids.len()
            invariant
                k <= ids@.len(),
                start <= e < events@.len(),
                ids@ == events@[e as int].selected_capsule_ids@,
                window == events@.subrange(start as int, events@.len() as int),
                recent_events(events@) == window,
                before == use_count(events@.subrange(start as int, e as int), id@),
                events@.subrange(start as int, e + 1).drop_last() == events@.subrange(start as int, e as int),
                events@.subrange(start as int, e + 1).last() == events@[e as int],
                count as nat == before + occurrences(ids@.subrange(0, k as int), id@),
                count < STALE_FALLBACK_REUSE_LIMIT,
            decreases ids.len() - k,
        {
            proof {
                assert(ids@.subrange(0, k + 1).drop_last() =~= ids@.subrange(0, k as int));
            }
            if str_eq(ids[k].as_str(), id) {
                count = count + 1;
                if count >= STALE_FALLBACK_REUSE_LIMIT {
                    proof {
                        let upto = events@.subrange(start as int, e + 1);
                        lemma_occurrences_monotone(ids@, k + 1, id@);
                        assert(use_count(upto, id@) == before + occurrences(ids@, id@));
                        assert(use_count(upto, id@) >= count);
                        lemma_use_count_monotone(window, e + 1 - start, id@);
                        assert(window.subrange(0, e + 1 - start) =~= upto);
                    }
                    return true;
                }
            }
            k = k + 1;
        }
        assert(ids@.subrange(0, ids@.len() as int) =~= ids@);
        e = e + 1;
    }
    false
}

// ---------------------------------------------------------------------------
// The selection plan.
// ---------------------------------------------------------------------------

/// An index entry that passed the filters, with its reason and score.
#[derive(Debug, Clone, Copy, PartialEq, Eq, Structural)]
pub struct ScoredCapsule {
    pub entry_index: usize,
    pub reason: ContextCapsuleSelectionReason,
    pub score: u32,
}

/// What the filters make of one entry.
pub enum CapsuleVerdict {
    Rejected(ContextCapsuleRejectReason),
    Scored(ContextCapsuleSelectionReason, u32),
}

/// Visibility first, then seed leakage, then the score; a fallback pick
/// that recent turns already reused is dropped.
pub open spec fn capsule_verdict(
    entry: ContextCapsuleIndexEntry,
    haystack: Seq<char>,
    cues: Seq<TurnRetrievalCue>,
    events: Seq<ContextCapsuleSelectionEvent>,
) -> CapsuleVerdict {
    if !(entry.visibility == ContextCapsuleVisibility::PlayerVisible || entry.visibility
        == ContextCapsuleVisibility::InferredVisible) {
        CapsuleVerdict::Rejected(ContextCapsuleRejectReason::VisibilityBlocked)
    } else if leaks_seed(entry) {
        CapsuleVerdict::Rejected(ContextCapsuleRejectReason::SeedLeakageRisk)
    } else {
        let sc = capsule_score(entry, haystack, cues);
        if stale_fallback(sc.0, entry.capsule_id@, events) {
            CapsuleVerdict::Rejected(ContextCapsuleRejectReason::RepeatedWithoutEffect)
        } else {
            CapsuleVerdict::Scored(sc.0, sc.1)
        }
    }
}

/// The scored entries, in index order.
pub open spec fn scored_candidates(
    entries: Seq<ContextCapsuleIndexEntry>,
    haystack: Seq<char>,
    cues: Seq<TurnRetrievalCue>,
    events: Seq<ContextCapsuleSelectionEvent>,
) -> Seq<ScoredCapsule>
    decreases entries.len(),
{
    if entries.len() == 0 {
        Seq::empty()
    } else {
        let c = scored_candidates(entries.drop_last(), haystack, cues, events);
        match capsule_verdict(entries.last(), haystack, cues, events) {
            CapsuleVerdict::Scored(reason, score) => c.push(
                ScoredCapsule { entry_index: (entries.len() - 1) as usize, reason, score },
            ),
            CapsuleVerdict::Rejected(_) => c,
        }
    }
}

/// The entries the filters reject, as (index, reason), in index order.
pub open spec fn filter_rejections(
    entries: Seq<ContextCapsuleIndexEntry>,
    haystack: Seq<char>,
    cues: Seq<TurnRetrievalCue>,
    events: Seq<ContextCapsuleSelectionEvent>,
) -> Seq<(int, ContextCapsuleRejectReason)>
    decreases entries.len(),
{
    if entries.len() == 0 {
        Seq::empty()
    } else {
        let r = filter_rejections(entries.drop_last(), haystack, cues, events);
        match capsule_verdict(entries.last(), haystack, cues, events) {
            CapsuleVerdict::Rejected(reason) => r.push((entries.len() - 1, reason)),
            CapsuleVerdict::Scored(_, _) => r,
        }
    }
}

pub open spec fn kind_rank(kind: ContextCapsuleKind) -> int {
    match kind {
        ContextCapsuleKind::WorldLore => 0,
        ContextCapsuleKind::RelationshipGraph => 1,
        ContextCapsuleKind::CharacterTextDesign => 2,
    }
}

/// Higher score first, then by kind, then by capsule id.
pub open spec fn scored_before(
    entries: Seq<ContextCapsuleIndexEntry>,
    a: ScoredCapsule,
    b: ScoredCapsule,
) -> bool {
    let ea = entries[a.entry_index as int];
    let eb = entries[b.entry_index as int];
    a.score > b.score || (a.score == b.score && (kind_rank(ea.kind) < kind_rank(eb.kind) || (
    kind_rank(ea.kind) == kind_rank(eb.kind) && seq_lt(ea.capsule_id@, eb.capsule_id@))))
}

pub open spec fn scored_insert_pos(
    entries: Seq<ContextCapsuleIndexEntry>,
    t: Seq<ScoredCapsule>,
    x: ScoredCapsule,
) -> int
    decreases t.len(),
{
    if t.len() == 0 {
        0
    } else {
        let p = scored_insert_pos(entries, t.drop_last(), x);
        if p < t.len() - 1 {
            p
        } else if scored_before(entries, x, t.last()) {
            t.len() - 1
        } else {
            t.len() as int
        }
    }
}

/// The candidates in selection order; equal ones keep their order.
pub open spec fn sort_scored(entries: Seq<ContextCapsuleIndexEntry>, s: Seq<ScoredCapsule>) -> Seq<
    ScoredCapsule,
>
    decreases s.len(),
{
    if s.len() == 0 {
        Seq::empty()
    } else {
        let t = sort_scored(entries, s.drop_last());
        t.insert(scored_insert_pos(entries, t, s.last()), s.last())
    }
}

proof fn lemma_scored_insert_pos_is(
    entries: Seq<ContextCapsuleIndexEntry>,
    t: Seq<ScoredCapsule>,
    x: ScoredCapsule,
    k: int,
)
    requires
        0 <= k <= t.len(),
        forall|j: int| 0 <= j < k ==> !scored_before(entries, x, #[trigger] t[j]),
        k < t.len() ==> scored_before(entries, x, t[k]),
    ensures
        scored_insert_pos(entries, t, x) == k,
    decreases t.len(),
{
    if t.len() > 0 {
        let d = t.drop_last();
        assert forall|j: int| 0 <= j < d.len() implies d[j] == t[j] by {}
        if k < t.len() - 1 {
            lemma_scored_insert_pos_is(entries, d, x, k);
        } else {
            lemma_scored_insert_pos_is(entries, d, x, d.len() as int);
        }
    }
}

/// The selection: the sorted candidates up to the budget.
pub open spec fn planned_selection(
    entries: Seq<ContextCapsuleIndexEntry>,
    haystack: Seq<char>,
    cues: Seq<TurnRetrievalCue>,
    events: Seq<ContextCapsuleSelectionEvent>,
) -> Seq<ScoredCapsule> {
    let sorted = sort_scored(entries, scored_candidates(entries, haystack, cues, events));
    if sorted.len() > SELECTED_CONTEXT_CAPSULE_BUDGET {
        sorted.take(SELECTED_CONTEXT_CAPSULE_BUDGET as int)
    } else {
        sorted
    }
}

/// The rejections: those of the filters in index order, then the sorted
/// candidates beyond the budget.
pub open spec fn planned_rejections(
    entries: Seq<ContextCapsuleIndexEntry>,
    haystack: Seq<char>,
    cues: Seq<TurnRetrievalCue>,
    events: Seq<ContextCapsuleSelectionEvent>,
) -> Seq<(int, ContextCapsuleRejectReason)> {
    let sorted = sort_scored(entries, scored_candidates(entries, haystack, cues, events));
    let over = if sorted.len() > SELECTED_CONTEXT_CAPSULE_BUDGET {
        sorted.skip(SELECTED_CONTEXT_CAPSULE_BUDGET as int)
    } else {
        Seq::empty()
    };
    filter_rejections(entries, haystack, cues, events) + over.map_values(
        |c: ScoredCapsule| (c.entry_index as int, ContextCapsuleRejectReason::BudgetExceeded),
    )
}

/// The rejection records name the entries and reasons of `spec`, in order.
pub open spec fn rejections_match(
    rejected: Seq<RejectedContextCapsule>,
    entries: Seq<ContextCapsuleIndexEntry>,
    spec: Seq<(int, ContextCapsuleRejectReason)>,
) -> bool {
    &&& rejected.len() == spec.len()
    &&& forall|k: int|
        0 <= k < spec.len() ==> {
            &&& 0 <= (#[trigger] spec[k]).0 < entries.len()
            &&& rejected[k].capsule_id@ == entries[spec[k].0].capsule_id@
            &&& rejected[k].kind == entries[spec[k].0].kind
            &&& rejected[k].reason == spec[k].1
        }
}

/// The first entry with the given capsule id.
pub open spec fn first_entry_with_id(entries: Seq<ContextCapsuleIndexEntry>, id: Seq<char>) -> Option<
    int,
>
    decreases entries.len(),
{
    if entries.len() == 0 {
        None
    } else {
        match first_entry_with_id(entries.drop_last(), id) {
            Some(i) => Some(i),
            None => if entries.last().capsule_id@ == id {
                Some(entries.len() - 1)
            } else {
                None
            },
        }
    }
}

/// The token estimate booked for a selected capsule: that of the first
/// index entry with its id.
pub open spec fn booked_tokens(entries: Seq<ContextCapsuleIndexEntry>, id: Seq<char>) -> nat {
    match first_entry_with_id(entries, id) {
        Some(i) => entries[i].token_estimate as nat,
        None => 0,
    }
}

pub open spec fn selected_tokens(entries: Seq<ContextCapsuleIndexEntry>, sel: Seq<ScoredCapsule>) -> nat
    decreases sel.len(),
{
    if sel.len() == 0 {
        0
    } else {
        selected_tokens(entries, sel.drop_last()) + booked_tokens(
            entries,
            entries[sel.last().entry_index as int].capsule_id@,
        )
    }
}

/// A turn's capsule selection before the bodies are loaded.
#[derive(Debug, Clone)]
pub struct ContextCapsuleSelectionPlan {
    pub selected: Vec<ScoredCapsule>,
    pub rejected_capsules: Vec<RejectedContextCapsule>,
    pub budget_report: ContextCapsuleBudgetReport,
}

/// `plan` is the selection of `entries` for the lowercased input `haystack`.
pub open spec fn plan_matches(
    plan: ContextCapsuleSelectionPlan,
    entries: Seq<ContextCapsuleIndexEntry>,
    haystack: Seq<char>,
    cues: Seq<TurnRetrievalCue>,
    events: Seq<ContextCapsuleSelectionEvent>,
) -> bool {
    &&& plan.selected@ == planned_selection(entries, haystack, cues, events)
    &&& forall|k: int| 0 <= k < plan.selected@.len() ==> (#[trigger] plan.selected@[k]).entry_index < entries.len()
    &&& rejections_match(plan.rejected_capsules@, entries, planned_rejections(entries, haystack, cues, events))
    &&& plan.budget_report.capsule_index_entries_seen == entries.len()
    &&& plan.budget_report.capsules_loaded == plan.selected@.len()
    &&& plan.budget_report.capsules_rejected == plan.rejected_capsules@.len()
    &&& plan.budget_report.estimated_tokens == selected_tokens(entries, plan.selected@)
    &&& plan.budget_report.selected_limit == SELECTED_CONTEXT_CAPSULE_BUDGET
}

proof fn lemma_first_entry_prefix(entries: Seq<ContextCapsuleIndexEntry>, n: int, id: Seq<char>)
    requires
        0 <= n <= entries.len(),
        first_entry_with_id(entries.subrange(0, n), id) is Some,
    ensures
        first_entry_with_id(entries, id) == first_entry_with_id(entries.subrange(0, n), id),
    decreases entries.len(),
{
    if n < entries.len() {
        assert(entries.drop_last().subrange(0, n) =~= entries.subrange(0, n));
        lemma_first_entry_prefix(entries.drop_last(), n, id);
    } else {
        assert(entries.subrange(0, n) =~= entries);
    }
}

fn booked_tokens_exec(entries: &Vec<ContextCapsuleIndexEntry>, id: &str) -> (r: usize)
    ensures
        r == booked_tokens(entries@, id@),
{
    let mut i: usize = 0;
    while i < entries.len()
        invariant
            i <= entries@.len(),
            first_entry_with_id(entries@.subrange(0, i as int), id@) is None,
        decreases entries.len() - i,
    {
        assert(entries@.subrange(0, i + 1).drop_last() =~= entries@.subrange(0, i as int));
        if str_eq(entries[i].capsule_id.as_str(), id) {
            proof {
                assert(first_entry_with_id(entries@.subrange(0, i + 1), id@) == Some(i as int));
                lemma_first_entry_prefix(entries@, i + 1, id@);
            }
            return entries[i].token_estimate;
        }
        i = i + 1;
    }
    assert(entries@.subrange(0, entries@.len() as int) =~= entries@);
    0
}

proof fn lemma_selected_tokens_prefix(entries: Seq<ContextCapsuleIndexEntry>, sel: Seq<ScoredCapsule>, n: int)
    requires
        0 <= n <= sel.len(),
    ensures
        selected_tokens(entries, sel.subrange(0, n)) <= selected_tokens(entries, sel),
    decreases sel.len(),
{
    if n < sel.len() {
        assert(sel.drop_last().subrange(0, n) =~= sel.subrange(0, n));
        lemma_selected_tokens_prefix(entries, sel.drop_last(), n);
    } else {
        assert(sel.subrange(0, n) =~= sel);
    }
}

fn rejected(entry: &ContextCapsuleIndexEntry, reason: ContextCapsuleRejectReason) -> (r:
    RejectedContextCapsule)
    ensures
        r.capsule_id@ == entry.capsule_id@,
        r.kind == entry.kind,
        r.reason == reason,
{
    RejectedContextCapsule { capsule_id: entry.capsule_id.clone(), kind: entry.kind, reason }
}

fn kind_rank_exec(kind: ContextCapsuleKind) -> (r: u8)
    ensures
        r as int == kind_rank(kind),
{
    match kind {
        ContextCapsuleKind::WorldLore => 0,
        ContextCapsuleKind::RelationshipGraph => 1,
        ContextCapsuleKind::CharacterTextDesign => 2,
    }
}

fn scored_before_exec(entries: &Vec<ContextCapsuleIndexEntry>, a: ScoredCapsule, b: ScoredCapsule) -> (r:
    bool)
    requires
        a.entry_index < entries@.len(),
        b.entry_index < entries@.len(),
    ensures
        r == scored_before(entries@, a, b),
{
    let ea = &entries[a.entry_index];
    let eb = &entries[b.entry_index];
    let ra = kind_rank_exec(ea.kind);
    let rb = kind_rank_exec(eb.kind);
    a.score > b.score || (a.score == b.score && (ra < rb || (ra == rb && str_lt(
        ea.capsule_id.as_str(),
        eb.capsule_id.as_str(),
    ))))
}

proof fn lemma_rejections_push(
    rejected: Seq<RejectedContextCapsule>,
    entries: Seq<ContextCapsuleIndexEntry>,
    spec: Seq<(int, ContextCapsuleRejectReason)>,
    x: RejectedContextCapsule,
    idx: int,
    reason: ContextCapsuleRejectReason,
)
    requires
        rejections_match(rejected, entries, spec),
        0 <= idx < entries.len(),
        x.capsule_id@ == entries[idx].capsule_id@,
        x.kind == entries[idx].kind,
        x.reason == reason,
    ensures
        rejections_match(rejected.push(x), entries, spec.push((idx, reason))),
{
    let s2 = spec.push((idx, reason));
    let r2 = rejected.push(x);
    assert forall|k: int| 0 <= k < s2.len() implies {
        &&& 0 <= (#[trigger] s2[k]).0 < entries.len()
        &&& r2[k].capsule_id@ == entries[s2[k].0].capsule_id@
        &&& r2[k].kind == entries[s2[k].0].kind
        &&& r2[k].reason == s2[k].1
    } by {
        if k < spec.len() {
            assert(s2[k] == spec[k]);
            assert(r2[k] == rejected[k]);
        }
    }
}

pub open spec fn budget_rejections(s: Seq<ScoredCapsule>) -> Seq<(int, ContextCapsuleRejectReason)> {
    s.map_values(|c: ScoredCapsule| (c.entry_index as int, ContextCapsuleRejectReason::BudgetExceeded))
}

proof fn lemma_scored_insert_pos_bounds(
    entries: Seq<ContextCapsuleIndexEntry>,
    t: Seq<ScoredCapsule>,
    x: ScoredCapsule,
)
    ensures
        0 <= scored_insert_pos(entries, t, x) <= t.len(),
    decreases t.len(),
{
    if t.len() > 0 {
        lemma_scored_insert_pos_bounds(entries, t.drop_last(), x);
    }
}

/// Sorting keeps the candidates: every sorted candidate is one of them.
proof fn lemma_sort_scored_members(entries: Seq<ContextCapsuleIndexEntry>, s: Seq<ScoredCapsule>)
    ensures
        sort_scored(entries, s).len() == s.len(),
        forall|k: int|
            0 <= k < s.len() ==> exists|j: int|
                0 <= j < s.len() && #[trigger] sort_scored(entries, s)[k] == s[j],
    decreases s.len(),
{
    if s.len() > 0 {
        let d = s.drop_last();
        lemma_sort_scored_members(entries, d);
        let t = sort_scored(entries, d);
        let p = scored_insert_pos(entries, t, s.last());
        lemma_scored_insert_pos_bounds(entries, t, s.last());
        let u = t.insert(p, s.last());
        assert forall|k: int| 0 <= k < s.len() implies exists|j: int|
            0 <= j < s.len() && #[trigger] sort_scored(entries, s)[k] == s[j] by {
            assert(sort_scored(entries, s) == u);
            if k < p {
                assert(u[k] == t[k]);
                let j = choose|j: int| 0 <= j < d.len() && t[k] == d[j];
                assert(s[j] == d[j]);
            } else if k == p {
                assert(u[k] == s[s.len() - 1]);
            } else {
                assert(u[k] == t[k - 1]);
                let j = choose|j: int| 0 <= j < d.len() && t[k - 1] == d[j];
                assert(s[j] == d[j]);
            }
        }
    }
}

/// Every scored candidate points at an entry of the index that the filters
/// let through.
proof fn lemma_scored_candidates_pass(
    entries: Seq<ContextCapsuleIndexEntry>,
    haystack: Seq<char>,
    cues: Seq<TurnRetrievalCue>,
    events: Seq<ContextCapsuleSelectionEvent>,
)
    requires
        entries.len() <= usize::MAX,
    ensures
        forall|k: int|
            0 <= k < scored_candidates(entries, haystack, cues, events).len() ==> {
                let c = #[trigger] scored_candidates(entries, haystack, cues, events)[k];
                &&& c.entry_index < entries.len()
                &&& capsule_verdict(entries[c.entry_index as int], haystack, cues, events) is Scored
            },
    decreases entries.len(),
{
    if entries.len() > 0 {
        let d = entries.drop_last();
        lemma_scored_candidates_pass(d, haystack, cues, events);
        let c = scored_candidates(d, haystack, cues, events);
        assert forall|k: int| 0 <= k < scored_candidates(entries, haystack, cues, events).len() implies {
            let x = #[trigger] scored_candidates(entries, haystack, cues, events)[k];
            &&& x.entry_index < entries.len()
            &&& capsule_verdict(entries[x.entry_index as int], haystack, cues, events) is Scored
        } by {
            if k < c.len() {
                assert(scored_candidates(entries, haystack, cues, events)[k] == c[k]);
                assert(entries[c[k].entry_index as int] == d[c[k].entry_index as int]);
            }
        }
    }
}

/// An entry that the filters reject is listed among their rejections, with
/// its reason.
proof fn lemma_filter_rejections_list(
    entries: Seq<ContextCapsuleIndexEntry>,
    haystack: Seq<char>,
    cues: Seq<TurnRetrievalCue>,
    events: Seq<ContextCapsuleSelectionEvent>,
    i: int,
    reason: ContextCapsuleRejectReason,
)
    requires
        0 <= i < entries.len(),
        capsule_verdict(entries[i], haystack, cues, events) == CapsuleVerdict::Rejected(reason),
    ensures
        exists|k: int|
            0 <= k < filter_rejections(entries, haystack, cues, events).len()
                && #[trigger] filter_rejections(entries, haystack, cues, events)[k] == (i, reason),
    decreases entries.len(),
{
    let d = entries.drop_last();
    let f = filter_rejections(entries, haystack, cues, events);
    if i < entries.len() - 1 {
        assert(d[i] == entries[i]);
        lemma_filter_rejections_list(d, haystack, cues, events, i, reason);
        let k = choose|k: int|
            0 <= k < filter_rejections(d, haystack, cues, events).len()
                && #[trigger] filter_rejections(d, haystack, cues, events)[k] == (i, reason);
        assert(f[k] == filter_rejections(d, haystack, cues, events)[k]);
    } else {
        let n = filter_rejections(d, haystack, cues, events).len() as int;
        assert(f[n] == (i, reason));
    }
}

/// A lore or relationship capsule that cites no evidence could carry seed
/// text: a plan never selects it, and, where its visibility lets it through,
/// lists it among the rejected capsules for seed leakage risk.
pub proof fn law_unevidenced_lore_is_never_selected(
    plan: ContextCapsuleSelectionPlan,
    entries: Seq<ContextCapsuleIndexEntry>,
    haystack: Seq<char>,
    cues: Seq<TurnRetrievalCue>,
    events: Seq<ContextCapsuleSelectionEvent>,
    i: int,
)
    requires
        entries.len() <= usize::MAX,
        plan_matches(plan, entries, haystack, cues, events),
        0 <= i < entries.len(),
        entries[i].evidence_refs@.len() == 0,
        entries[i].kind == ContextCapsuleKind::WorldLore || entries[i].kind
            == ContextCapsuleKind::RelationshipGraph,
    ensures
        forall|k: int| 0 <= k < plan.selected@.len() ==> (#[trigger] plan.selected@[k]).entry_index != i,
        (entries[i].visibility == ContextCapsuleVisibility::PlayerVisible || entries[i].visibility
            == ContextCapsuleVisibility::InferredVisible) ==> exists|k: int|
            0 <= k < plan.rejected_capsules@.len() && {
                let x = #[trigger] plan.rejected_capsules@[k];
                &&& x.capsule_id@ == entries[i].capsule_id@
                &&& x.kind == entries[i].kind
                &&& x.reason == ContextCapsuleRejectReason::SeedLeakageRisk
            },
{
    let cands = scored_candidates(entries, haystack, cues, events);
    let sorted = sort_scored(entries, cands);
    lemma_scored_candidates_pass(entries, haystack, cues, events);
    lemma_sort_scored_members(entries, cands);
    assert(capsule_verdict(entries[i], haystack, cues, events) is Rejected);
    assert forall|k: int| 0 <= k < plan.selected@.len() implies (#[trigger] plan.selected@[k]).entry_index
        != i by {
        assert(plan.selected@[k] == sorted[k]);
        let j = choose|j: int| 0 <= j < cands.len() && sorted[k] == cands[j];
        assert(capsule_verdict(entries[cands[j].entry_index as int], haystack, cues, events) is Scored);
    }
    let visible = entries[i].visibility == ContextCapsuleVisibility::PlayerVisible
        || entries[i].visibility == ContextCapsuleVisibility::InferredVisible;
    if visible {
        let reason = ContextCapsuleRejectReason::SeedLeakageRisk;
        assert(capsule_verdict(entries[i], haystack, cues, events) == CapsuleVerdict::Rejected(reason));
        lemma_filter_rejections_list(entries, haystack, cues, events, i, reason);
        let f = filter_rejections(entries, haystack, cues, events);
        let k = choose|k: int| 0 <= k < f.len() && #[trigger] f[k] == (i, reason);
        let pr = planned_rejections(entries, haystack, cues, events);
        assert(pr[k] == f[k]);
        assert(pr[k].0 == i);
        let x = plan.rejected_capsules@[k];
        assert(x.capsule_id@ == entries[i].capsule_id@ && x.kind == entries[i].kind && x.reason == reason);
    }
}

/// Plans the selection for the lowercased player input `haystack`: filters,
/// scores, sorts, keeps the budget and books the token estimate. `None` when
/// the booked estimate does not fit in `usize`.
#[verifier::rlimit(30)]
pub fn plan_capsule_selection(
    entries: &Vec<ContextCapsuleIndexEntry>,
    haystack: &str,
    cues: &Vec<TurnRetrievalCue>,
    events: &Vec<ContextCapsuleSelectionEvent>,
) -> (r: Option<ContextCapsuleSelectionPlan>)
    ensures
        r is None <==> selected_tokens(entries@, planned_selection(entries@, haystack@, cues@, events@))
            > usize::MAX,
        r matches Some(plan) ==> plan_matches(plan, entries@, haystack@, cues@, events@),
{
    let mut cands: Vec<ScoredCapsule> = Vec::new();
    let mut rejected_capsules: Vec<RejectedContextCapsule> = Vec::new();
    let mut i: usize = 0;
    while i < entries.len()
        invariant
            i <= entries@.len(),
            cands@ == scored_candidates(entries@.subrange(0, i as int), haystack@, cues@, events@),
            forall|k: int| 0 <= k < cands@.len() ==> (#[trigger] cands@[k]).entry_index < i,
            rejections_match(
                rejected_capsules@,
                entries@,
                filter_rejections(entries@.subrange(0, i as int), haystack@, cues@, events@),
            ),
        decreases entries.len() - i,
    {
        proof {
            assert(entries@.subrange(0, i + 1).drop_last() =~= entries@.subrange(0, i as int));
            assert(entries@.subrange(0, i + 1).last() == entries@[i as int]);
        }
        let entry = &entries[i];
        let ghost prev = rejected_capsules@;
        let ghost prev_spec = filter_rejections(entries@.subrange(0, i as int), haystack@, cues@, events@);
        if !is_visible_for_prompt(entry.visibility) {
            let x = rejected(entry, ContextCapsuleRejectReason::VisibilityBlocked);
            rejected_capsules.push(x);
            proof {
                lemma_rejections_push(prev, entries@, prev_spec, x, i as int, ContextCapsuleRejectReason::VisibilityBlocked);
            }
        } else if seed_leakage_risk(entry) {
            let x = rejected(entry, ContextCapsuleRejectReason::SeedLeakageRisk);
            rejected_capsules.push(x);
            proof {
                lemma_rejections_push(prev, entries@, prev_spec, x, i as int, ContextCapsuleRejectReason::SeedLeakageRisk);
            }
        } else {
            let (reason, score) = score_capsule_entry(entry, haystack, cues);
            let stale = reason == ContextCapsuleSelectionReason::ActiveProjectionFallback
                && recently_reused(events, entry.capsule_id.as_str());
            if stale {
                let x = rejected(entry, ContextCapsuleRejectReason::RepeatedWithoutEffect);
                rejected_capsules.push(x);
                proof {
                    lemma_rejections_push(prev, entries@, prev_spec, x, i as int, ContextCapsuleRejectReason::RepeatedWithoutEffect);
                }
            } else {
                cands.push(ScoredCapsule { entry_index: i, reason, score });
            }
        }
        i = i + 1;
    }
    assert(entries@.subrange(0, entries@.len() as int) =~= entries@);
    let ghost filt = filter_rejections(entries@, haystack@, cues@, events@);
    let ghost all = cands@;

    let mut sorted: Vec<ScoredCapsule> = Vec::new();
    let mut n: usize = 0;
    while n < cands.len()
        invariant
            n <= cands@.len(),
            cands@ == all,
            forall|k: int| 0 <= k < all.len() ==> (#[trigger] all[k]).entry_index < entries@.len(),
            sorted@ == sort_scored(entries@, all.subrange(0, n as int)),
            forall|k: int| 0 <= k < sorted@.len() ==> (#[trigger] sorted@[k]).entry_index < entries@.len(),
        decreases cands.len() - n,
    {
        let x = cands[n];
        proof {
            assert(all.subrange(0, n + 1).drop_last() =~= all.subrange(0, n as int));
            assert(all.subrange(0, n + 1).last() == x);
        }
        let mut k: usize = 0;
        while k < sorted.len() && !scored_before_exec(entries, x, sorted[k])
            invariant
                k <= sorted@.len(),
                x.entry_index < entries@.len(),
                forall|j: int| 0 <= j < sorted@.len() ==> (#[trigger] sorted@[j]).entry_index < entries@.len(),
                forall|j: int| 0 <= j < k ==> !scored_before(entries@, x, #[trigger] sorted@[j]),
            decreases sorted.len() - k,
        {
            k = k + 1;
        }
        proof {
            lemma_scored_insert_pos_is(entries@, sorted@, x, k as int);
        }
        let ghost before = sorted@;
        sorted.insert(k, x);
        proof {
            assert forall|j: int| 0 <= j < sorted@.len() implies (#[trigger] sorted@[j]).entry_index < entries@.len() by {
                if j < k {
                    assert(sorted@[j] == before[j]);
                } else if j > k {
                    assert(sorted@[j] == before[j - 1]);
                }
            }
        }
        n = n + 1;
    }
    assert(all.subrange(0, all.len() as int) =~= all);
    let ghost srt = sorted@;

    let mut selected: Vec<ScoredCapsule> = Vec::new();
    let mut j: usize = 0;
    while j < sorted.len()
        invariant
            j <= sorted@.len(),
            sorted@ == srt,
            forall|k: int| 0 <= k < srt.len() ==> (#[trigger] srt[k]).entry_index < entries@.len(),
            selected@ == srt.subrange(0, if j < SELECTED_CONTEXT_CAPSULE_BUDGET { j as int } else { SELECTED_CONTEXT_CAPSULE_BUDGET as int }),
            rejections_match(
                rejected_capsules@,
                entries@,
                filt + budget_rejections(if j > SELECTED_CONTEXT_CAPSULE_BUDGET { srt.subrange(SELECTED_CONTEXT_CAPSULE_BUDGET as int, j as int) } else { Seq::empty() }),
            ),
        decreases sorted.len() - j,
    {
        let c = sorted[j];
        if j < SELECTED_CONTEXT_CAPSULE_BUDGET {
            selected.push(c);
            proof {
                assert(srt.subrange(0, j + 1) =~= srt.subrange(0, j as int).push(c));
            }
        } else {
            let ghost prev = rejected_capsules@;
            let ghost old_over = if j > SELECTED_CONTEXT_CAPSULE_BUDGET { srt.subrange(SELECTED_CONTEXT_CAPSULE_BUDGET as int, j as int) } else { Seq::empty() };
            let x = rejected(&entries[c.entry_index], ContextCapsuleRejectReason::BudgetExceeded);
            rejected_capsules.push(x);
            proof {
                lemma_rejections_push(prev, entries@, filt + budget_rejections(old_over), x, c.entry_index as int, ContextCapsuleRejectReason::BudgetExceeded);
                assert(srt.subrange(SELECTED_CONTEXT_CAPSULE_BUDGET as int, j + 1) =~= old_over.push(c));
                assert(budget_rejections(old_over.push(c)) =~= budget_rejections(old_over).push((c.entry_index as int, ContextCapsuleRejectReason::BudgetExceeded)));
                assert(filt + budget_rejections(old_over.push(c)) =~= (filt + budget_rejections(old_over)).push((c.entry_index as int, ContextCapsuleRejectReason::BudgetExceeded)));
            }
        }
        j = j + 1;
    }
    proof {
        if srt.len() > SELECTED_CONTEXT_CAPSULE_BUDGET {
            assert(srt.subrange(SELECTED_CONTEXT_CAPSULE_BUDGET as int, srt.len() as int) =~= srt.skip(SELECTED_CONTEXT_CAPSULE_BUDGET as int));
            assert(srt.subrange(0, SELECTED_CONTEXT_CAPSULE_BUDGET as int) =~= srt.take(SELECTED_CONTEXT_CAPSULE_BUDGET as int));
        } else {
            assert(srt.subrange(0, srt.len() as int) =~= srt);
            assert(budget_rejections(Seq::<ScoredCapsule>::empty()) =~= Seq::<(int, ContextCapsuleRejectReason)>::empty());
            assert(filt + Seq::<(int, ContextCapsuleRejectReason)>::empty() =~= filt);
        }
        assert(selected@ == planned_selection(entries@, haystack@, cues@, events@));
        assert(forall|k: int| 0 <= k < selected@.len() ==> selected@[k] == srt[k]);
    }

    let mut total: usize = 0;
    let mut q: usize = 0;
    while q < selected.len()
        invariant
            q <= selected@.len(),
            selected@ == planned_selection(entries@, haystack@, cues@, events@),
            forall|k: int| 0 <= k < selected@.len() ==> (#[trigger] selected@[k]).entry_index < entries@.len(),
            total as nat == selected_tokens(entries@, selected@.subrange(0, q as int)),
        decreases selected.len() - q,
    {
        proof {
            assert(selected@.subrange(0, q + 1).drop_last() =~= selected@.subrange(0, q as int));
            assert(selected@.subrange(0, q + 1).last() == selected@[q as int]);
        }
        let t = booked_tokens_exec(entries, entries[selected[q].entry_index].capsule_id.as_str());
        if t > usize::MAX - total {
            proof {
                lemma_selected_tokens_prefix(entries@, selected@, q + 1);
            }
            return None;
        }
        total = total + t;
        q = q + 1;
    }
    assert(selected@.subrange(0, selected@.len() as int) =~= selected@);
    let seen = entries.len();
    let loaded = selected.len();
    let rejected_count = rejected_capsules.len();
    Some(ContextCapsuleSelectionPlan {
        selected,
        rejected_capsules,
        budget_report: ContextCapsuleBudgetReport {
            capsule_index_entries_seen: seen,
            capsules_loaded: loaded,
            capsules_rejected: rejected_count,
            estimated_tokens: total,
            selected_limit: SELECTED_CONTEXT_CAPSULE_BUDGET,
        },
    })
}

// ---------------------------------------------------------------------------
// Index and body checks, and the selection of a turn.
// ---------------------------------------------------------------------------

#[derive(Debug, Clone)]
pub enum ContextCapsuleError {
    IndexSchemaMismatch { actual: String },
    IndexTargetMismatch {
        expected_world: String,
        actual_world: String,
        expected_turn: String,
        actual_turn: String,
    },
    EntrySchemaMismatch { capsule_id: String, actual: String },
    BodySchemaMismatch { capsule_id: String, actual: String },
    BodyIdMismatch { index: String, body: String },
    BodyTargetMismatch {
        capsule_id: String,
        index_world: String,
        body_world: String,
        index_kind: ContextCapsuleKind,
        body_kind: ContextCapsuleKind,
    },
    /// The booked token estimate of the selection does not fit in `usize`.
    TokenEstimateOverflow,
}

/// The kind as `{:?}` prints it.
pub open spec fn kind_debug(kind: ContextCapsuleKind) -> Seq<char> {
    match kind {
        ContextCapsuleKind::WorldLore => "WorldLore"@,
        ContextCapsuleKind::RelationshipGraph => "RelationshipGraph"@,
        ContextCapsuleKind::CharacterTextDesign => "CharacterTextDesign"@,
    }
}

fn kind_debug_str(kind: ContextCapsuleKind) -> (r: &'static str)
    ensures
        r@ == kind_debug(kind),
{
    match kind {
        ContextCapsuleKind::WorldLore => "WorldLore",
        ContextCapsuleKind::RelationshipGraph => "RelationshipGraph",
        ContextCapsuleKind::CharacterTextDesign => "CharacterTextDesign",
    }
}

impl ContextCapsuleError {
    /// The error's text; the caller adds the file path where it has one.
    pub fn message(&self) -> (r: String)
        ensures
            match self {
                ContextCapsuleError::IndexSchemaMismatch { actual } => r@
                    == "context capsule index schema mismatch: expected="@
                    + CONTEXT_CAPSULE_INDEX_SCHEMA_VERSION@ + ", actual="@ + actual@,
                ContextCapsuleError::IndexTargetMismatch {
                    expected_world,
                    actual_world,
                    expected_turn,
                    actual_turn,
                } => r@ == "context capsule index target mismatch: expected_world="@
                    + expected_world@ + ", actual_world="@ + actual_world@ + ", expected_turn="@
                    + expected_turn@ + ", actual_turn="@ + actual_turn@,
                ContextCapsuleError::EntrySchemaMismatch { capsule_id, actual } => r@
                    == "context capsule index entry schema mismatch: capsule_id="@ + capsule_id@
                    + ", expected="@ + CONTEXT_CAPSULE_INDEX_ENTRY_SCHEMA_VERSION@ + ", actual="@
                    + actual@,
                ContextCapsuleError::BodySchemaMismatch { capsule_id, actual } => r@
                    == "context capsule body schema mismatch: capsule_id="@ + capsule_id@
                    + ", expected="@ + CONTEXT_CAPSULE_SCHEMA_VERSION@ + ", actual="@ + actual@,
                ContextCapsuleError::BodyIdMismatch { index, body } => r@
                    == "context capsule body id mismatch: index="@ + index@ + ", body="@ + body@,
                ContextCapsuleError::BodyTargetMismatch {
                    capsule_id,
                    index_world,
                    body_world,
                    index_kind,
                    body_kind,
                } => r@ == "context capsule body target mismatch: capsule_id="@ + capsule_id@
                    + ", index_world="@ + index_world@ + ", body_world="@ + body_world@
                    + ", index_kind="@ + kind_debug(*index_kind) + ", body_kind="@ + kind_debug(
                    *body_kind,
                ),
                ContextCapsuleError::TokenEstimateOverflow => r@
                    == "context capsule token estimate overflows usize"@,
            },
    {
        match self {
            ContextCapsuleError::IndexSchemaMismatch { actual } => {
                let mut m = String::from_str("context capsule index schema mismatch: expected=");
                m.append(CONTEXT_CAPSULE_INDEX_SCHEMA_VERSION);
                m.append(", actual=");
                m.append(actual.as_str());
                m
            },
            ContextCapsuleError::IndexTargetMismatch {
                expected_world,
                actual_world,
                expected_turn,
                actual_turn,
            } => {
                let mut m = String::from_str("context capsule index target mismatch: expected_world=");
                m.append(expected_world.as_str());
                m.append(", actual_world=");
                m.append(actual_world.as_str());
                m.append(", expected_turn=");
                m.append(expected_turn.as_str());
                m.append(", actual_turn=");
                m.append(actual_turn.as_str());
                m
            },
            ContextCapsuleError::EntrySchemaMismatch { capsule_id, actual } => {
                let mut m = String::from_str("context capsule index entry schema mismatch: capsule_id=");
                m.append(capsule_id.as_str());
                m.append(", expected=");
                m.append(CONTEXT_CAPSULE_INDEX_ENTRY_SCHEMA_VERSION);
                m.append(", actual=");
                m.append(actual.as_str());
                m
            },
            ContextCapsuleError::BodySchemaMismatch { capsule_id, actual } => {
                let mut m = String::from_str("context capsule body schema mismatch: capsule_id=");
                m.append(capsule_id.as_str());
                m.append(", expected=");
                m.append(CONTEXT_CAPSULE_SCHEMA_VERSION);
                m.append(", actual=");
                m.append(actual.as_str());
                m
            },
            ContextCapsuleError::BodyIdMismatch { index, body } => {
                let mut m = String::from_str("context capsule body id mismatch: index=");
                m.append(index.as_str());
                m.append(", body=");
                m.append(body.as_str());
                m
            },
            ContextCapsuleError::BodyTargetMismatch {
                capsule_id,
                index_world,
                body_world,
                index_kind,
                body_kind,
            } => {
                let mut m = String::from_str("context capsule body target mismatch: capsule_id=");
                m.append(capsule_id.as_str());
                m.append(", index_world=");
                m.append(index_world.as_str());
                m.append(", body_world=");
                m.append(body_world.as_str());
                m.append(", index_kind=");
                m.append(kind_debug_str(*index_kind));
                m.append(", body_kind=");
                m.append(kind_debug_str(*body_kind));
                m
            },
            ContextCapsuleError::TokenEstimateOverflow => String::from_str(
                "context capsule token estimate overflows usize",
            ),
        }
    }
}

/// The index is for this world and turn and has the expected schema.
pub open spec fn index_fits(index: ContextCapsuleIndex, world_id: Seq<char>, turn_id: Seq<char>) -> bool {
    index.schema_version@ == CONTEXT_CAPSULE_INDEX_SCHEMA_VERSION@ && index.world_id@ == world_id
        && index.turn_id@ == turn_id
}

/// The error the index check gives: the schema first, then the target.
pub open spec fn index_error_is(
    e: ContextCapsuleError,
    index: ContextCapsuleIndex,
    world_id: Seq<char>,
    turn_id: Seq<char>,
) -> bool {
    if index.schema_version@ != CONTEXT_CAPSULE_INDEX_SCHEMA_VERSION@ {
        e matches ContextCapsuleError::IndexSchemaMismatch { actual } && actual@
            == index.schema_version@
    } else {
        e matches ContextCapsuleError::IndexTargetMismatch {
            expected_world,
            actual_world,
            expected_turn,
            actual_turn,
        } && expected_world@ == world_id && actual_world@ == index.world_id@ && expected_turn@
            == turn_id && actual_turn@ == index.turn_id@
    }
}

/// Checks that a loaded index belongs to the world and turn being played.
pub fn check_context_capsule_index(index: &ContextCapsuleIndex, world_id: &str, turn_id: &str) -> (r:
    Result<(), ContextCapsuleError>)
    ensures
        r is Ok <==> index_fits(*index, world_id@, turn_id@),
        r matches Err(e) ==> index_error_is(e, *index, world_id@, turn_id@),
{
    if !str_eq(index.schema_version.as_str(), CONTEXT_CAPSULE_INDEX_SCHEMA_VERSION) {
        return Err(ContextCapsuleError::IndexSchemaMismatch { actual: index.schema_version.clone() });
    }
    if !str_eq(index.world_id.as_str(), world_id) || !str_eq(index.turn_id.as_str(), turn_id) {
        return Err(
            ContextCapsuleError::IndexTargetMismatch {
                expected_world: String::from_str(world_id),
                actual_world: index.world_id.clone(),
                expected_turn: String::from_str(turn_id),
                actual_turn: index.turn_id.clone(),
            },
        );
    }
    Ok(())
}

/// Checks an index entry's schema before its body is read.
pub fn check_index_entry_schema(entry: &ContextCapsuleIndexEntry) -> (r: Result<(), ContextCapsuleError>)
    ensures
        r is Ok <==> entry.schema_version@ == CONTEXT_CAPSULE_INDEX_ENTRY_SCHEMA_VERSION@,
        r matches Err(e) ==> (e matches ContextCapsuleError::EntrySchemaMismatch { capsule_id, actual }
            && capsule_id@ == entry.capsule_id@ && actual@ == entry.schema_version@),
{
    if !str_eq(entry.schema_version.as_str(), CONTEXT_CAPSULE_INDEX_ENTRY_SCHEMA_VERSION) {
        return Err(
            ContextCapsuleError::EntrySchemaMismatch {
                capsule_id: entry.capsule_id.clone(),
                actual: entry.schema_version.clone(),
            },
        );
    }
    Ok(())
}

/// Checks that a loaded capsule body is the one its index entry names:
/// schema, then id, then world and kind.
pub fn check_context_capsule_body(
    entry: &ContextCapsuleIndexEntry,
    body_schema: &str,
    body_capsule_id: &str,
    body_world_id: &str,
    body_kind: ContextCapsuleKind,
) -> (r: Result<(), ContextCapsuleError>)
    ensures
        r is Ok <==> (body_schema@ == CONTEXT_CAPSULE_SCHEMA_VERSION@ && body_capsule_id@
            == entry.capsule_id@ && body_world_id@ == entry.world_id@ && body_kind == entry.kind),
        body_schema@ != CONTEXT_CAPSULE_SCHEMA_VERSION@ ==> (r matches Err(
            ContextCapsuleError::BodySchemaMismatch { capsule_id, actual },
        ) && capsule_id@ == entry.capsule_id@ && actual@ == body_schema@),
        body_schema@ == CONTEXT_CAPSULE_SCHEMA_VERSION@ && body_capsule_id@ != entry.capsule_id@
            ==> (r matches Err(ContextCapsuleError::BodyIdMismatch { index, body }) && index@
            == entry.capsule_id@ && body@ == body_capsule_id@),
        body_schema@ == CONTEXT_CAPSULE_SCHEMA_VERSION@ && body_capsule_id@ == entry.capsule_id@ && (
        body_world_id@ != entry.world_id@ || body_kind != entry.kind) ==> (r matches Err(
            ContextCapsuleError::BodyTargetMismatch {
                capsule_id,
                index_world,
                body_world,
                index_kind,
                body_kind: bk,
            },
        ) && capsule_id@ == entry.capsule_id@ && index_world@ == entry.world_id@ && body_world@
            == body_world_id@ && index_kind == entry.kind && bk == body_kind),
{
    if !str_eq(body_schema, CONTEXT_CAPSULE_SCHEMA_VERSION) {
        return Err(
            ContextCapsuleError::BodySchemaMismatch {
                capsule_id: entry.capsule_id.clone(),
                actual: String::from_str(body_schema),
            },
        );
    }
    if !str_eq(body_capsule_id, entry.capsule_id.as_str()) {
        return Err(
            ContextCapsuleError::BodyIdMismatch {
                index: entry.capsule_id.clone(),
                body: String::from_str(body_capsule_id),
            },
        );
    }
    if !str_eq(body_world_id, entry.world_id.as_str()) || body_kind != entry.kind {
        return Err(
            ContextCapsuleError::BodyTargetMismatch {
                capsule_id: entry.capsule_id.clone(),
                index_world: entry.world_id.clone(),
                body_world: String::from_str(body_world_id),
                index_kind: entry.kind,
                body_kind,
            },
        );
    }
    Ok(())
}

/// What a turn's capsule selection starts from.
#[derive(Debug, Clone)]
pub struct ContextCapsuleSelectionInput {
    pub world_id: String,
    pub turn_id: String,
    pub player_input: String,
    pub retrieval_cues: Vec<TurnRetrievalCue>,
}

/// Selects the capsules of a turn from its loaded index and the earlier
/// selection events: the index must belong to the turn; the player input is
/// lowercased and the selection planned from it.
pub fn select_context_capsules(
    input: &ContextCapsuleSelectionInput,
    index: &ContextCapsuleIndex,
    recent_events: &Vec<ContextCapsuleSelectionEvent>,
) -> (r: Result<ContextCapsuleSelectionPlan, ContextCapsuleError>)
    ensures
        !index_fits(*index, input.world_id@, input.turn_id@) ==> (r matches Err(e) && index_error_is(
            e,
            *index,
            input.world_id@,
            input.turn_id@,
        )),
        index_fits(*index, input.world_id@, input.turn_id@) ==> {
            let h = unicode_lowercase(input.player_input@);
            let fits = selected_tokens(
                index.entries@,
                planned_selection(index.entries@, h, input.retrieval_cues@, recent_events@),
            ) <= usize::MAX;
            &&& r is Ok <==> fits
            &&& !fits ==> r matches Err(ContextCapsuleError::TokenEstimateOverflow)
        },
        r matches Ok(plan) ==> plan_matches(
            plan,
            index.entries@,
            unicode_lowercase(input.player_input@),
            input.retrieval_cues@,
            recent_events@,
        ),
{
    match check_context_capsule_index(index, input.world_id.as_str(), input.turn_id.as_str()) {
        Ok(()) => {},
        Err(e) => {
            return Err(e);
        },
    }
    let haystack = to_lowercase(input.player_input.as_str());
    match plan_capsule_selection(&index.entries, haystack.as_str(), &input.retrieval_cues, recent_events) {
        Some(plan) => Ok(plan),
        None => Err(ContextCapsuleError::TokenEstimateOverflow),
    }
}

/// The id of a turn's selection event.
pub fn selection_event_id(turn_id: &str) -> (r: String)
    ensures
        r@ == "context_capsule_selection_event:"@ + turn_id@,
{
    let mut m = String::from_str("context_capsule_selection_event:");
    m.append(turn_id);
    m
}

/// The record of a planned selection, stamped with the current time.
pub fn selection_event(
    world_id: &str,
    turn_id: &str,
    plan: &ContextCapsuleSelectionPlan,
    entries: &Vec<ContextCapsuleIndexEntry>,
) -> (out: Option<ContextCapsuleSelectionEvent>)
    requires
        forall|k: int| 0 <= k < plan.selected@.len() ==> (#[trigger] plan.selected@[k]).entry_index < entries@.len(),
    ensures
        out matches Some(r) ==> ({
            &&& (r.schema_version@ == CONTEXT_CAPSULE_SELECTION_EVENT_SCHEMA_VERSION@)
            &&& (r.world_id@ == world_id@)
            &&& (r.turn_id@ == turn_id@)
            &&& (r.event_id@ == "context_capsule_selection_event:"@ + turn_id@)
            &&& (r.selected_capsule_ids@.len() == plan.selected@.len())
            &&& (forall|k: int| 0 <= k < plan.selected@.len() ==> (#[trigger] r.selected_capsule_ids@[k])@
                == entries@[plan.selected@[k].entry_index as int].capsule_id@)
            &&& (r.rejected_capsule_ids@.len() == plan.rejected_capsules@.len())
            &&& (forall|k: int| 0 <= k < plan.rejected_capsules@.len() ==> (#[trigger] r.rejected_capsule_ids@[k])@
                == plan.rejected_capsules@[k].capsule_id@)
        }),
{
    let mut selected_ids: Vec<String> = Vec::new();
    let mut i: usize = 0;
    while i < plan.selected.len()
        invariant
            i <= plan.selected@.len(),
            forall|k: int| 0 <= k < plan.selected@.len() ==> (#[trigger] plan.selected@[k]).entry_index < entries@.len(),
            selected_ids@.len() == i,
            forall|k: int| 0 <= k < i ==> (#[trigger] selected_ids@[k])@
                == entries@[plan.selected@[k].entry_index as int].capsule_id@,
        decreases plan.selected.len() - i,
    {
        selected_ids.push(entries[plan.selected[i].entry_index].capsule_id.clone());
        i = i + 1;
    }
    let mut rejected_ids: Vec<String> = Vec::new();
    let mut j: usize = 0;
    while j < plan.rejected_capsules.len()
        invariant
            j <= plan.rejected_capsules@.len(),
            rejected_ids@.len() == j,
            forall|k: int| 0 <= k < j ==> (#[trigger] rejected_ids@[k])@
                == plan.rejected_capsules@[k].capsule_id@,
        decreases plan.rejected_capsules.len() - j,
    {
        rejected_ids.push(plan.rejected_capsules[j].capsule_id.clone());
        j = j + 1;
    }
    let now = match now_rfc3339() {
        Some(t) => t,
        None => return None,
    };
    Some(ContextCapsuleSelectionEvent {
        schema_version: String::from_str(CONTEXT_CAPSULE_SELECTION_EVENT_SCHEMA_VERSION),
        world_id: String::from_str(world_id),
        turn_id: String::from_str(turn_id),
        event_id: selection_event_id(turn_id),
        selected_capsule_ids: selected_ids,
        rejected_capsule_ids: rejected_ids,
        created_at: now,
    })
}

/// Whether an event with this id is already on record; a turn's selection
/// is appended once.
pub fn selection_event_recorded(existing: &Vec<ContextCapsuleSelectionEvent>, event_id: &str) -> (r: bool)
    ensures
        r == exists|k: int| 0 <= k < existing@.len() && (#[trigger] existing@[k]).event_id@ == event_id@,
{
    let mut i: usize = 0;
    while i < existing.len()
        invariant
            i <= existing@.len(),
            forall|k: int| 0 <= k < i ==> (#[trigger] existing@[k]).event_id@ != event_id@,
        decreases existing.len() - i,
    {
        if str_eq(existing[i].event_id.as_str(), event_id) {
            return true;
        }
        i = i + 1;
    }
    false
}

// ---------------------------------------------------------------------------
// Building the index from the active projections.
// ---------------------------------------------------------------------------

/// The index entry of a capsule with the given content.
pub open spec fn index_entry_is(
    e: ContextCapsuleIndexEntry,
    world_id: Seq<char>,
    kind: ContextCapsuleKind,
    record_id: Seq<char>,
    visibility: Seq<char>,
    summary: Seq<char>,
    trigger_parts: Seq<Seq<char>>,
    evidence_source: Seq<char>,
    evidence_ids: Seq<String>,
    updated_at: Seq<char>,
) -> bool {
    let capsule_id = kind_id_prefix(kind) + record_id.map_values(|c: char| ref_char(c));
    &&& e.schema_version@ == CONTEXT_CAPSULE_INDEX_ENTRY_SCHEMA_VERSION@
    &&& e.world_id@ == world_id
    &&& e.capsule_id@ == capsule_id
    &&& e.kind == kind
    &&& e.visibility == visibility_of_text(visibility)
    &&& e.summary@ == summary
    &&& views(e.triggers@) == trigger_terms_of(trigger_parts)
    &&& e.evidence_refs@.len() == evidence_ids.len()
    &&& forall|k: int|
        0 <= k < evidence_ids.len() ==> (#[trigger] e.evidence_refs@[k]).source@ == evidence_source
            && e.evidence_refs@[k].id@ == evidence_ids[k]@
    &&& e.content_ref@ == CONTEXT_CAPSULE_DIR@ + "/"@ + kind_dir(kind) + "/"@ + capsule_id.map_values(
        |c: char| ref_char(c),
    ) + ".json"@
    &&& e.token_estimate == token_estimate_of(summary)
    &&& e.last_used_turn is None
    &&& e.recent_use_count == 0
    &&& e.updated_at@ == updated_at
}

fn evidence_of(source: &str, ids: &Vec<String>) -> (r: Vec<ContextCapsuleEvidenceRef>)
    ensures
        r@.len() == ids@.len(),
        forall|k: int| 0 <= k < ids@.len() ==> (#[trigger] r@[k]).source@ == source@ && r@[k].id@ == ids@[k]@,
{
    let mut out: Vec<ContextCapsuleEvidenceRef> = Vec::new();
    let mut i: usize = 0;
    while i < ids.len()
        invariant
            i <= ids@.len(),
            out@.len() == i,
            forall|k: int| 0 <= k < i ==> (#[trigger] out@[k]).source@ == source@ && out@[k].id@ == ids@[k]@,
        decreases ids.len() - i,
    {
        out.push(ContextCapsuleEvidenceRef { source: String::from_str(source), id: ids[i].clone() });
        i = i + 1;
    }
    out
}

fn index_entry(
    world_id: &str,
    kind: ContextCapsuleKind,
    record_id: &str,
    visibility: &str,
    summary: String,
    parts: &[&str],
    evidence_source: &str,
    evidence_ids: &Vec<String>,
    updated_at: &str,
) -> (r: ContextCapsuleIndexEntry)
    ensures
        index_entry_is(
            r,
            world_id@,
            kind,
            record_id@,
            visibility@,
            summary@,
            str_views(parts@),
            evidence_source@,
            evidence_ids@,
            updated_at@,
        ),
{
    let capsule_id = capsule_id_for(kind, record_id);
    let content_ref = capsule_relative_path(kind, capsule_id.as_str());
    let estimate = token_estimate(summary.as_str());
    ContextCapsuleIndexEntry {
        schema_version: String::from_str(CONTEXT_CAPSULE_INDEX_ENTRY_SCHEMA_VERSION),
        world_id: String::from_str(world_id),
        capsule_id,
        kind,
        visibility: visibility_from_str(visibility),
        summary,
        triggers: trigger_terms(parts),
        evidence_refs: evidence_of(evidence_source, evidence_ids),
        content_ref,
        token_estimate: estimate,
        last_used_turn: None,
        recent_use_count: 0,
        updated_at: String::from_str(updated_at),
    }
}

/// The index entry of an active lore entry.
pub fn world_lore_capsule_entry(world_id: &str, entry: &WorldLoreEntry, updated_at: &str) -> (r:
    ContextCapsuleIndexEntry)
    ensures
        index_entry_is(
            r,
            world_id@,
            ContextCapsuleKind::WorldLore,
            entry.lore_id@,
            entry.visibility@,
            entry.summary@,
            seq![entry.name@, entry.summary@],
            "world_lore"@,
            entry.source_refs@,
            updated_at@,
        ),
{
    let parts = [entry.name.as_str(), entry.summary.as_str()];
    assert(str_views(parts@) =~= seq![entry.name@, entry.summary@]);
    index_entry(
        world_id,
        ContextCapsuleKind::WorldLore,
        entry.lore_id.as_str(),
        entry.visibility.as_str(),
        entry.summary.clone(),
        &parts,
        "world_lore",
        &entry.source_refs,
        updated_at,
    )
}

/// The index entry of an active relationship edge.
pub fn relationship_capsule_entry(world_id: &str, edge: &RelationshipEdge, updated_at: &str) -> (r:
    ContextCapsuleIndexEntry)
    ensures
        index_entry_is(
            r,
            world_id@,
            ContextCapsuleKind::RelationshipGraph,
            edge.edge_id@,
            edge.visibility@,
            edge.visible_summary@,
            seq![edge.source_entity_id@, edge.target_entity_id@, edge.stance@, edge.visible_summary@],
            "relationship_graph"@,
            edge.source_refs@,
            updated_at@,
        ),
{
    let parts = [
        edge.source_entity_id.as_str(),
        edge.target_entity_id.as_str(),
        edge.stance.as_str(),
        edge.visible_summary.as_str(),
    ];
    assert(str_views(parts@) =~= seq![edge.source_entity_id@, edge.target_entity_id@, edge.stance@, edge.visible_summary@]);
    index_entry(
        world_id,
        ContextCapsuleKind::RelationshipGraph,
        edge.edge_id.as_str(),
        edge.visibility.as_str(),
        edge.visible_summary.clone(),
        &parts,
        "relationship_graph",
        &edge.source_refs,
        updated_at,
    )
}

/// The index entry of an active character text design; its summary names
/// the character and role.
pub fn character_text_capsule_entry(world_id: &str, design: &CharacterTextDesign, updated_at: &str) -> (r:
    ContextCapsuleIndexEntry)
    ensures
        index_entry_is(
            r,
            world_id@,
            ContextCapsuleKind::CharacterTextDesign,
            design.entity_id@,
            design.visibility@,
            design.visible_name@ + " speech design: "@ + design.role@,
            seq![design.entity_id@, design.visible_name@, design.role@],
            "character_text_design"@,
            design.source_refs@,
            updated_at@,
        ),
{
    let parts = [design.entity_id.as_str(), design.visible_name.as_str(), design.role.as_str()];
    assert(str_views(parts@) =~= seq![design.entity_id@, design.visible_name@, design.role@]);
    let summary = concat3(design.visible_name.as_str(), " speech design: ", design.role.as_str());
    index_entry(
        world_id,
        ContextCapsuleKind::CharacterTextDesign,
        design.entity_id.as_str(),
        design.visibility.as_str(),
        summary,
        &parts,
        "character_text_design",
        &design.source_refs,
        updated_at,
    )
}

/// The use rules a capsule body carries, by kind.
pub open spec fn capsule_use_rules(kind: ContextCapsuleKind) -> Seq<Seq<char>> {
    match kind {
        ContextCapsuleKind::WorldLore => seq![
            "Use as player-visible world constraint only."@,
            "Do not invent additional customs, institutions, or history from this capsule."@,
        ],
        ContextCapsuleKind::RelationshipGraph => seq![
            "Use as social stance and dialogue-distance pressure."@,
            "Do not infer hidden motives or personality traits."@,
        ],
        ContextCapsuleKind::CharacterTextDesign => seq![
            "Use only when this character speaks, acts, or is directly perceived."@,
            "Do not let character voice override global prose style."@,
        ],
    }
}

pub fn use_rules_for(kind: ContextCapsuleKind) -> (r: Vec<String>)
    ensures
        views(r@) == capsule_use_rules(kind),
{
    let (a, b) = match kind {
        ContextCapsuleKind::WorldLore => (
            "Use as player-visible world constraint only.",
            "Do not invent additional customs, institutions, or history from this capsule.",
        ),
        ContextCapsuleKind::RelationshipGraph => (
            "Use as social stance and dialogue-distance pressure.",
            "Do not infer hidden motives or personality traits.",
        ),
        ContextCapsuleKind::CharacterTextDesign => (
            "Use only when this character speaks, acts, or is directly perceived.",
            "Do not let character voice override global prose style.",
        ),
    };
    let mut v: Vec<String> = Vec::new();
    v.push(String::from_str(a));
    v.push(String::from_str(b));
    assert(views(v@) =~= capsule_use_rules(kind));
    v
}

/// The capsule index of the active projections: one entry per lore entry,
/// then per relationship edge, then per character text design.
pub open spec fn capsule_index_is(
    r: ContextCapsuleIndex,
    world_id: Seq<char>,
    turn_id: Seq<char>,
    lore: WorldLorePacket,
    relationships: RelationshipGraphPacket,
    designs: CharacterTextDesignPacket,
    updated_at: Seq<char>,
) -> bool {
    &&& (r.schema_version@ == CONTEXT_CAPSULE_INDEX_SCHEMA_VERSION@)
    &&& (r.world_id@ == world_id)
    &&& (r.turn_id@ == turn_id)
    &&& (r.entries@.len() == lore.entries@.len() + relationships.active_edges@.len() + designs.active_designs@.len())
    &&& (forall|k: int|
                0 <= k < lore.entries@.len() ==> {
                    let e = lore.entries@[k];
                    index_entry_is(
                        #[trigger] r.entries@[k],
                        world_id,
                        ContextCapsuleKind::WorldLore,
                        e.lore_id@,
                        e.visibility@,
                        e.summary@,
                        seq![e.name@, e.summary@],
                        "world_lore"@,
                        e.source_refs@,
                        updated_at,
                    )
                })
    &&& (forall|k: int|
                0 <= k < relationships.active_edges@.len() ==> {
                    let e = relationships.active_edges@[k];
                    index_entry_is(
                        #[trigger] r.entries@[lore.entries@.len() + k],
                        world_id,
                        ContextCapsuleKind::RelationshipGraph,
                        e.edge_id@,
                        e.visibility@,
                        e.visible_summary@,
                        seq![e.source_entity_id@, e.target_entity_id@, e.stance@, e.visible_summary@],
                        "relationship_graph"@,
                        e.source_refs@,
                        updated_at,
                    )
                })
    &&& (forall|k: int|
                0 <= k < designs.active_designs@.len() ==> {
                    let d = designs.active_designs@[k];
                    index_entry_is(
                        #[trigger] r.entries@[lore.entries@.len() + relationships.active_edges@.len() + k],
                        world_id,
                        ContextCapsuleKind::CharacterTextDesign,
                        d.entity_id@,
                        d.visibility@,
                        d.visible_name@ + " speech design: "@ + d.role@,
                        seq![d.entity_id@, d.visible_name@, d.role@],
                        "character_text_design"@,
                        d.source_refs@,
                        updated_at,
                    )
                })
}

/// The capsule index of the active projections: one entry per lore entry,
/// then per relationship edge, then per character text design, all stamped
/// with `updated_at`.
pub fn build_context_capsule_index(
    world_id: &str,
    turn_id: &str,
    lore: &WorldLorePacket,
    relationships: &RelationshipGraphPacket,
    designs: &CharacterTextDesignPacket,
    updated_at: &str,
) -> (r: ContextCapsuleIndex)
    ensures
        capsule_index_is(r, world_id@, turn_id@, *lore, *relationships, *designs, updated_at@),
{
    let mut entries: Vec<ContextCapsuleIndexEntry> = Vec::new();
    let n1 = lore.entries.len();
    let mut i: usize = 0;
    while i < n1
        invariant
            i <= n1,
            n1 == lore.entries@.len(),
            entries@.len() == i,
            forall|k: int|
                0 <= k < i ==> {
                    let e = lore.entries@[k];
                    index_entry_is(
                        #[trigger] entries@[k],
                        world_id@,
                        ContextCapsuleKind::WorldLore,
                        e.lore_id@,
                        e.visibility@,
                        e.summary@,
                        seq![e.name@, e.summary@],
                        "world_lore"@,
                        e.source_refs@,
                        updated_at@,
                    )
                },
        decreases n1 - i,
    {
        entries.push(world_lore_capsule_entry(world_id, &lore.entries[i], updated_at));
        i = i + 1;
    }
    let n2 = relationships.active_edges.len();
    let mut j: usize = 0;
    while j < n2
        invariant
            j <= n2,
            n1 == lore.entries@.len(),
            n2 == relationships.active_edges@.len(),
            entries@.len() == n1 + j,
            forall|k: int|
                0 <= k < n1 ==> {
                    let e = lore.entries@[k];
                    index_entry_is(
                        #[trigger] entries@[k],
                        world_id@,
                        ContextCapsuleKind::WorldLore,
                        e.lore_id@,
                        e.visibility@,
                        e.summary@,
                        seq![e.name@, e.summary@],
                        "world_lore"@,
                        e.source_refs@,
                        updated_at@,
                    )
                },
            forall|k: int|
                0 <= k < j ==> {
                    let e = relationships.active_edges@[k];
                    index_entry_is(
                        #[trigger] entries@[n1 + k],
                        world_id@,
                        ContextCapsuleKind::RelationshipGraph,
                        e.edge_id@,
                        e.visibility@,
                        e.visible_summary@,
                        seq![e.source_entity_id@, e.target_entity_id@, e.stance@, e.visible_summary@],
                        "relationship_graph"@,
                        e.source_refs@,
                        updated_at@,
                    )
                },
        decreases n2 - j,
    {
        entries.push(relationship_capsule_entry(world_id, &relationships.active_edges[j], updated_at));
        j = j + 1;
    }
    let n3 = designs.active_designs.len();
    let mut k0: usize = 0;
    while k0 < n3
        invariant
            k0 <= n3,
            n1 == lore.entries@.len(),
            n2 == relationships.active_edges@.len(),
            n3 == designs.active_designs@.len(),
            entries@.len() == n1 + n2 + k0,
            forall|k: int|
                0 <= k < n1 ==> {
                    let e = lore.entries@[k];
                    index_entry_is(
                        #[trigger] entries@[k],
                        world_id@,
                        ContextCapsuleKind::WorldLore,
                        e.lore_id@,
                        e.visibility@,
                        e.summary@,
                        seq![e.name@, e.summary@],
                        "world_lore"@,
                        e.source_refs@,
                        updated_at@,
                    )
                },
            forall|k: int|
                0 <= k < n2 ==> {
                    let e = relationships.active_edges@[k];
                    index_entry_is(
                        #[trigger] entries@[n1 + k],
                        world_id@,
                        ContextCapsuleKind::RelationshipGraph,
                        e.edge_id@,
                        e.visibility@,
                        e.visible_summary@,
                        seq![e.source_entity_id@, e.target_entity_id@, e.stance@, e.visible_summary@],
                        "relationship_graph"@,
                        e.source_refs@,
                        updated_at@,
                    )
                },
            forall|k: int|
                0 <= k < k0 ==> {
                    let d = designs.active_designs@[k];
                    index_entry_is(
                        #[trigger] entries@[n1 + n2 + k],
                        world_id@,
                        ContextCapsuleKind::CharacterTextDesign,
                        d.entity_id@,
                        d.visibility@,
                        d.visible_name@ + " speech design: "@ + d.role@,
                        seq![d.entity_id@, d.visible_name@, d.role@],
                        "character_text_design"@,
                        d.source_refs@,
                        updated_at@,
                    )
                },
        decreases n3 - k0,
    {
        entries.push(character_text_capsule_entry(world_id, &designs.active_designs[k0], updated_at));
        k0 = k0 + 1;
    }
    ContextCapsuleIndex {
        schema_version: String::from_str(CONTEXT_CAPSULE_INDEX_SCHEMA_VERSION),
        world_id: String::from_str(world_id),
        turn_id: String::from_str(turn_id),
        entries,
        compiler_policy: ContextCapsulePolicy::default(),
    }
}

/// The active projections a capsule registry is rebuilt from.
pub struct ContextCapsuleBuildInput<'a> {
    pub world_id: &'a str,
    pub turn_id: &'a str,
    pub active_world_lore: &'a WorldLorePacket,
    pub active_relationship_graph: &'a RelationshipGraphPacket,
    pub active_character_text_design: &'a CharacterTextDesignPacket,
}

/// The capsule index of the active projections (see
/// `build_context_capsule_index`), stamped with the current time, of which
/// nothing is promised.
pub fn rebuild_context_capsule_registry(input: &ContextCapsuleBuildInput) -> (out: Option<ContextCapsuleIndex>)

    ensures
        out matches Some(r) ==> ({
            &&& (r.world_id@ == input.world_id@)
            &&& (r.turn_id@ == input.turn_id@)
            &&& (r.entries@.len() == input.active_world_lore.entries@.len() + input.active_relationship_graph.active_edges@.len()
                + input.active_character_text_design.active_designs@.len())
            &&& (exists|t: Seq<char>|
                #[trigger] capsule_index_is(
                    r,
                    input.world_id@,
                    input.turn_id@,
                    *input.active_world_lore,
                    *input.active_relationship_graph,
                    *input.active_character_text_design,
                    t,
                ))
        }),
{
    let now = match now_rfc3339() {
        Some(t) => t,
        None => return None,
    };
    let r = build_context_capsule_index(
        input.world_id,
        input.turn_id,
        input.active_world_lore,
        input.active_relationship_graph,
        input.active_character_text_design,
        now.as_str(),
    );
    Some(r)
}

} // verus!
