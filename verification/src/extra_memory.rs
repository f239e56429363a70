//! Memory of background contacts ("extras"): traces of each contact,
//! extras remembered once they recur, and the records of projecting them.
use crate::agent_bridge::AgentExtraContact;
use crate::clock::now_rfc3339;
use crate::models::{CharacterVoiceAnchor, TurnSnapshot};
use crate::text::{
    ascii_lower_char, ascii_lower_of, chars_of, clone_strings, concat2, concat3, concat4, contains, contains_str,
    has_text_exec, lemma_has_text_views, lemma_views_push, seq_lt, str_eq, str_lt, trim, trim_str, trimmed_nonblank, trimmed_vec, views,
};
use vstd::prelude::*;

verus! {

pub const EXTRA_TRACE_SCHEMA_VERSION: &'static str = "singulari.extra_trace.v1";
pub const REMEMBERED_EXTRAS_SCHEMA_VERSION: &'static str = "singulari.remembered_extras.v1";
pub const REMEMBERED_EXTRA_SCHEMA_VERSION: &'static str = "singulari.remembered_extra.v1";
pub const EXTRA_MEMORY_PROJECTION_RECORD_SCHEMA_VERSION: &'static str = "singulari.extra_memory_projection.v1";
pub const EXTRA_TRACES_FILENAME: &'static str = "extra_traces.jsonl";
pub const REMEMBERED_EXTRAS_FILENAME: &'static str = "remembered_extras.json";
pub const EXTRA_MEMORY_PROJECTIONS_FILENAME: &'static str = "extra_memory_projections.jsonl";

pub const REMEMBERED_EXTRA_LIMIT: usize = 7;
pub const RECENT_TRACE_LIMIT: usize = 5;
pub const MAX_EXTRA_MEMORY_ITEMS: usize = 8;
pub const MAX_OPEN_HOOKS: usize = 6;

#[derive(Debug, Clone)]
pub struct ExtraTrace {
    pub schema_version: String,
    pub world_id: String,
    pub turn_id: String,
    pub trace_id: String,
    pub surface_label: String,
    pub location_id: String,
    pub scene_role: String,
    pub contact_summary: String,
    pub pressure_tags: Vec<String>,
    pub promotion_hint: String,
    pub created_at: String,
}

#[derive(Debug, Clone)]
pub struct RememberedExtrasStore {
    pub schema_version: String,
    pub world_id: String,
    pub extras: Vec<RememberedExtra>,
    pub updated_at: String,
}

#[derive(Debug, Clone)]
pub struct RememberedExtra {
    pub schema_version: String,
    pub world_id: String,
    pub extra_id: String,
    pub display_name: String,
    pub known_name: Option<String>,
    pub role: String,
    pub home_location_id: String,
    pub visibility: String,
    pub first_seen_turn: String,
    pub last_seen_turn: String,
    pub contact_count: u32,
    pub disposition: String,
    pub memory: Vec<String>,
    pub text_design: CharacterVoiceAnchor,
    pub open_hooks: Vec<String>,
    pub promotion_score: u32,
}

#[derive(Debug, Clone)]
pub struct ExtraMemoryPacket {
    pub remembered_extras: Vec<RememberedExtra>,
    pub recent_extra_traces: Vec<ExtraTrace>,
    pub extra_memory_policy: ExtraMemoryPolicy,
}

#[derive(Debug, Clone)]
pub struct ExtraMemoryPolicy {
    pub evidence_tiers: Vec<String>,
    pub retrieval_budget: ExtraMemoryRetrievalBudget,
    pub use_rules: Vec<String>,
}

impl Default for ExtraMemoryPolicy {
    fn default() -> (r: Self)
        ensures
            r.evidence_tiers@.len() == 4,
            r.retrieval_budget.remembered_extras == REMEMBERED_EXTRA_LIMIT,
            r.retrieval_budget.recent_extra_traces == RECENT_TRACE_LIMIT,
            r.use_rules@.len() == 3,
    {
        let mut evidence_tiers = Vec::new();
        evidence_tiers.push(String::from_str("CharacterRecord"));
        evidence_tiers.push(String::from_str("RememberedExtra"));
        evidence_tiers.push(String::from_str("ExtraTrace"));
        evidence_tiers.push(String::from_str("DerivedCandidate"));
        let mut use_rules = Vec::new();
        use_rules.push(String::from_str("Use retrieved extras only when they naturally fit the current scene."));
        use_rules.push(String::from_str("Do not force every remembered extra to appear."));
        use_rules.push(String::from_str("Never use extra memory to leak hidden truth."));
        ExtraMemoryPolicy {
            evidence_tiers,
            retrieval_budget: ExtraMemoryRetrievalBudget {
                remembered_extras: REMEMBERED_EXTRA_LIMIT,
                recent_extra_traces: RECENT_TRACE_LIMIT,
            },
            use_rules,
        }
    }
}

#[derive(Debug, Clone)]
pub struct ExtraMemoryRetrievalBudget {
    pub remembered_extras: usize,
    pub recent_extra_traces: usize,
}

#[derive(Debug, Clone)]
pub struct LocalFaceEntry {
    pub extra_id: String,
    pub display_name: String,
    pub role: String,
    pub home_location_id: String,
    pub last_seen_turn: String,
    pub disposition: String,
    pub last_contact: String,
    pub open_hooks: Vec<String>,
}

#[derive(Debug, Clone, Copy, PartialEq, Eq, Structural)]
pub enum ExtraMemoryProjectionStatus {
    Committed,
    Failed,
    Repaired,
}

#[derive(Debug, Clone)]
pub struct ExtraMemoryProjectionRecord {
    pub schema_version: String,
    pub world_id: String,
    pub turn_id: String,
    pub status: ExtraMemoryProjectionStatus,
    pub traces_planned: usize,
    pub remembered_extras_planned: Option<usize>,
    pub error: Option<String>,
    pub recorded_at: String,
}

#[derive(Debug, Clone)]
pub struct ExtraMemoryRepairReport {
    pub world_id: String,
    pub traces_read: usize,
    pub remembered_extras_rebuilt: usize,
    pub projection_records_read: usize,
    pub repaired_failed_records: usize,
    pub repaired_at: String,
}

/// Where the records after the latest repair begin: just past the last
/// `Repaired` record, or at the start.
pub open spec fn after_latest_repair(rs: Seq<ExtraMemoryProjectionRecord>) -> int
    decreases rs.len(),
{
    if rs.len() == 0 {
        0
    } else if rs.last().status == ExtraMemoryProjectionStatus::Repaired {
        rs.len() as int
    } else {
        after_latest_repair(rs.drop_last())
    }
}

/// The number of `Failed` records in a list.
pub open spec fn failed_count(rs: Seq<ExtraMemoryProjectionRecord>) -> nat
    decreases rs.len(),
{
    if rs.len() == 0 {
        0
    } else {
        failed_count(rs.drop_last()) + if rs.last().status == ExtraMemoryProjectionStatus::Failed {
            1nat
        } else {
            0nat
        }
    }
}

proof fn lemma_after_latest_repair_bounds(rs: Seq<ExtraMemoryProjectionRecord>)
    ensures
        0 <= after_latest_repair(rs) <= rs.len(),
    decreases rs.len(),
{
    if rs.len() > 0 {
        lemma_after_latest_repair_bounds(rs.drop_last());
    }
}

proof fn lemma_failed_count_bound(rs: Seq<ExtraMemoryProjectionRecord>)
    ensures
        failed_count(rs) <= rs.len(),
    decreases rs.len(),
{
    if rs.len() > 0 {
        lemma_failed_count_bound(rs.drop_last());
    }
}

/// How many projection failures are still open: the `Failed` records after
/// the latest `Repaired` one.
pub fn failed_projection_records_after_latest_repair(records: &[ExtraMemoryProjectionRecord]) -> (r: usize)
    ensures
        r == failed_count(records@.subrange(after_latest_repair(records@), records@.len() as int)),
{
    let n = records.len();
    let mut start: usize = 0;
    let mut i: usize = 0;
    while i < n
        invariant
            n == records@.len(),
            i <= n,
            start as int == after_latest_repair(records@.subrange(0, i as int)),
        decreases n - i,
    {
        proof {
            assert(records@.subrange(0, i + 1).drop_last() =~= records@.subrange(0, i as int));
        }
        if records[i].status == ExtraMemoryProjectionStatus::Repaired {
            start = i + 1;
        }
        i = i + 1;
    }
    proof {
        assert(records@.subrange(0, n as int) =~= records@);
        lemma_after_latest_repair_bounds(records@);
    }
    let mut count: usize = 0;
    let mut k: usize = start;
    while k < n
        invariant
            n == records@.len(),
            start <= k <= n,
            count == failed_count(records@.subrange(start as int, k as int)),
            count <= k - start,
        decreases n - k,
    {
        proof {
            assert(records@.subrange(start as int, k + 1).drop_last() =~= records@.subrange(start as int, k as int));
        }
        if records[k].status == ExtraMemoryProjectionStatus::Failed {
            count = count + 1;
        }
        k = k + 1;
    }
    count
}

// ---------------------------------------------------------------------------
// Text helpers.
// ---------------------------------------------------------------------------

pub open spec fn is_ascii_alnum(c: char) -> bool {
    ('a' <= c && c <= 'z') || ('A' <= c && c <= 'Z') || ('0' <= c && c <= '9')
}

pub open spec fn slug_char(c: char) -> char {
    if is_ascii_alnum(c) {
        ascii_lower_char(c)
    } else {
        '_'
    }
}

pub open spec fn strip_us_start(s: Seq<char>) -> Seq<char>
    decreases s.len(),
{
    if s.len() > 0 && s[0] == '_' {
        strip_us_start(s.subrange(1, s.len() as int))
    } else {
        s
    }
}

pub open spec fn strip_us_end(s: Seq<char>) -> Seq<char>
    decreases s.len(),
{
    if s.len() > 0 && s[s.len() - 1] == '_' {
        strip_us_end(s.subrange(0, s.len() - 1))
    } else {
        s
    }
}

/// ASCII letters and digits lowercased, every other character `_`, leading
/// and trailing `_` removed; `extra` when nothing is left.
pub open spec fn slug_of(s: Seq<char>) -> Seq<char> {
    let t = strip_us_end(strip_us_start(s.map_values(|c: char| slug_char(c))));
    if t.len() == 0 {
        "extra"@
    } else {
        t
    }
}

proof fn lemma_strip_us_start_skip(s: Seq<char>, k: int)
    requires
        0 <= k <= s.len(),
        forall|i: int| 0 <= i < k ==> #[trigger] s[i] == '_',
    ensures
        strip_us_start(s) == strip_us_start(s.subrange(k, s.len() as int)),
    decreases k,
{
    if k == 0 {
        assert(s.subrange(0, s.len() as int) =~= s);
    } else {
        let t = s.subrange(1, s.len() as int);
        assert(s[0] == '_');
        assert forall|i: int| 0 <= i < k - 1 implies #[trigger] t[i] == '_' by {
            assert(t[i] == s[i + 1]);
        }
        lemma_strip_us_start_skip(t, k - 1);
        assert(t.subrange(k - 1, t.len() as int) =~= s.subrange(k, s.len() as int));
    }
}

proof fn lemma_strip_us_end_skip(s: Seq<char>, k: int)
    requires
        0 <= k <= s.len(),
        forall|i: int| k <= i < s.len() ==> #[trigger] s[i] == '_',
    ensures
        strip_us_end(s) == strip_us_end(s.subrange(0, k)),
    decreases s.len() - k,
{
    if k == s.len() {
        assert(s.subrange(0, k) =~= s);
    } else {
        let t = s.subrange(0, s.len() - 1);
        assert(s[s.len() - 1] == '_');
        assert forall|i: int| k <= i < t.len() implies #[trigger] t[i] == '_' by {
            assert(t[i] == s[i]);
        }
        lemma_strip_us_end_skip(t, k);
        assert(t.subrange(0, k) =~= s.subrange(0, k));
    }
}

/// The slug of a label, used in extra and trace ids (see `slug_of`).
pub fn stable_slug(value: &str) -> (r: String)
    ensures
        r@ == slug_of(value@),
{
    let cs = chars_of(value);
    let mut mapped: Vec<char> = Vec::new();
    let mut i: usize = 0;
    while i < cs.len()
        invariant
            i <= cs@.len(),
            cs@ == value@,
            mapped@ == cs@.subrange(0, i as int).map_values(|c: char| slug_char(c)),
        decreases cs.len() - i,
    {
        let c = cs[i];
        let kept = ('a' <= c && c <= 'z') || ('A' <= c && c <= 'Z') || ('0' <= c && c <= '9');
        if kept {
            mapped.push(ascii_lower_of(c));
        } else {
            mapped.push('_');
        }
        assert(cs@.subrange(0, i + 1).map_values(|c: char| slug_char(c)) =~= cs@.subrange(
            0,
            i as int,
        ).map_values(|c: char| slug_char(c)).push(slug_char(c)));
        i = i + 1;
    }
    assert(cs@.subrange(0, cs@.len() as int) =~= cs@);
    let ghost m = mapped@;
    let n = mapped.len();
    let mut a: usize = 0;
    while a < n && mapped[a] == '_'
        invariant
            n == m.len(),
            mapped@ == m,
            a <= n,
            forall|k: int| 0 <= k < a ==> #[trigger] m[k] == '_',
        decreases n - a,
    {
        a = a + 1;
    }
    let mut b: usize = n;
    while b > a && mapped[b - 1] == '_'
        invariant
            n == m.len(),
            mapped@ == m,
            a <= b <= n,
            a < n ==> m[a as int] != '_',
            forall|k: int| b <= k < n ==> #[trigger] m[k] == '_',
        decreases b,
    {
        b = b - 1;
    }
    proof {
        lemma_strip_us_start_skip(m, a as int);
        let t = m.subrange(a as int, n as int);
        if a < n {
            assert(t[0] == m[a as int]);
        }
        assert(strip_us_start(t) == t);
        assert forall|k: int| (b - a) <= k < t.len() implies #[trigger] t[k] == '_' by {
            assert(t[k] == m[k + a]);
        }
        lemma_strip_us_end_skip(t, (b - a) as int);
        let u = t.subrange(0, (b - a) as int);
        if b > a {
            assert(u[u.len() - 1] == m[b - 1]);
        }
        assert(strip_us_end(u) == u);
        assert(u =~= m.subrange(a as int, b as int));
    }
    if a == b {
        return String::from_str("extra");
    }
    let mut out = String::new();
    let mut k: usize = a;
    while k < b
        invariant
            a <= k <= b,
            b <= n,
            n == m.len(),
            mapped@ == m,
            out@ == m.subrange(a as int, k as int),
        decreases b - k,
    {
        out.push(mapped[k]);
        assert(out@ =~= m.subrange(a as int, k + 1));
        k = k + 1;
    }
    out
}

/// The trimmed needle is not blank and occurs in the haystack.
pub open spec fn text_hit(needle: Seq<char>, haystack: Seq<char>) -> bool {
    trim(needle).len() > 0 && contains(haystack, trim(needle))
}

pub fn text_matches(needle: &str, haystack: &str) -> (r: bool)
    ensures
        r == text_hit(needle@, haystack@),
{
    let t = trim_str(needle);
    t.unicode_len() > 0 && contains_str(haystack, t)
}

pub const PLACEHOLDER_SURFACE_LABEL: &'static str = "player-visible 주변 인물 표지";
pub const PLACEHOLDER_CONTACT_SUMMARY: &'static str = "이번 턴에서 플레이어-visible로 남은 접촉/목격/거래/감정 흔적";
pub const PLACEHOLDER_SCENE_ROLE: &'static str = "장소/사건 안 역할";
pub const PLACEHOLDER_LOCATION_ID: &'static str = "현재 장소 id 또는 null";
pub const PLACEHOLDER_PROMOTION_HINT: &'static str = "왜 나중에 다시 떠오를 수 있는지";
pub const PLACEHOLDER_OPEN_HOOK: &'static str = "플레이어-visible 후속 가능성";

/// The text is one of the placeholders of the contact schema.
pub open spec fn is_placeholder(s: Seq<char>) -> bool {
    s == PLACEHOLDER_SURFACE_LABEL@ || s == PLACEHOLDER_CONTACT_SUMMARY@ || s == PLACEHOLDER_SCENE_ROLE@
        || s == PLACEHOLDER_LOCATION_ID@ || s == PLACEHOLDER_PROMOTION_HINT@ || s
        == PLACEHOLDER_OPEN_HOOK@
}

pub fn is_placeholder_extra_field(value: &str) -> (r: bool)
    ensures
        r == is_placeholder(value@),
{
    str_eq(value, PLACEHOLDER_SURFACE_LABEL) || str_eq(value, PLACEHOLDER_CONTACT_SUMMARY) || str_eq(
        value,
        PLACEHOLDER_SCENE_ROLE,
    ) || str_eq(value, PLACEHOLDER_LOCATION_ID) || str_eq(value, PLACEHOLDER_PROMOTION_HINT)
        || str_eq(value, PLACEHOLDER_OPEN_HOOK)
}

/// Why extra memory refused a contact, a trace or a store.
#[derive(Debug, Clone)]
pub enum ExtraMemoryError {
    EmptyField { field: String },
    PlaceholderField { field: String, value: String },
    TraceWorldMismatch { expected: String, actual: String, trace_id: String },
    StoreWorldMismatch { expected: String, actual: String },
}

/// The text of an extra memory error.
pub open spec fn extra_error_text(e: ExtraMemoryError) -> Seq<char> {
    match e {
        ExtraMemoryError::EmptyField { field } => field@ + " must not be empty"@,
        ExtraMemoryError::PlaceholderField { field, value } => field@ + " contains schema placeholder text: "@ + value@,
        ExtraMemoryError::TraceWorldMismatch { expected, actual, trace_id } => "extra trace world mismatch: expected="@
            + expected@ + ", actual="@ + actual@ + ", trace_id="@ + trace_id@,
        ExtraMemoryError::StoreWorldMismatch { expected, actual } => "remembered extras world mismatch: expected="@
            + expected@ + ", actual="@ + actual@,
    }
}

impl ExtraMemoryError {
    pub fn message(&self) -> (r: String)
        ensures
            r@ == extra_error_text(*self),
            match self {
                ExtraMemoryError::EmptyField { field } => r@ == field@ + " must not be empty"@,
                ExtraMemoryError::PlaceholderField { field, value } => r@ == field@
                    + " contains schema placeholder text: "@ + value@,
                ExtraMemoryError::TraceWorldMismatch { expected, actual, trace_id } => r@
                    == "extra trace world mismatch: expected="@ + expected@ + ", actual="@ + actual@
                    + ", trace_id="@ + trace_id@,
                ExtraMemoryError::StoreWorldMismatch { expected, actual } => r@
                    == "remembered extras world mismatch: expected="@ + expected@ + ", actual="@
                    + actual@,
            },
    {
        match self {
            ExtraMemoryError::EmptyField { field } => concat2(field.as_str(), " must not be empty"),
            ExtraMemoryError::PlaceholderField { field, value } => concat3(
                field.as_str(),
                " contains schema placeholder text: ",
                value.as_str(),
            ),
            ExtraMemoryError::TraceWorldMismatch { expected, actual, trace_id } => {
                let mut m = concat4(
                    "extra trace world mismatch: expected=",
                    expected.as_str(),
                    ", actual=",
                    actual.as_str(),
                );
                m.append(", trace_id=");
                m.append(trace_id.as_str());
                m
            },
            ExtraMemoryError::StoreWorldMismatch { expected, actual } => concat4(
                "remembered extras world mismatch: expected=",
                expected.as_str(),
                ", actual=",
                actual.as_str(),
            ),
        }
    }
}

/// A required contact field: trimmed, neither blank nor a schema placeholder.
pub open spec fn required_field_ok(value: Seq<char>) -> bool {
    trim(value).len() > 0 && !is_placeholder(trim(value))
}

pub open spec fn required_field_error(e: ExtraMemoryError, field: Seq<char>, value: Seq<char>) -> bool {
    if trim(value).len() == 0 {
        e matches ExtraMemoryError::EmptyField { field: f } && f@ == field
    } else {
        e matches ExtraMemoryError::PlaceholderField { field: f, value: v } && f@ == field && v@ == trim(
            value,
        )
    }
}

pub fn normalized_required(field: &str, value: &str) -> (r: Result<String, ExtraMemoryError>)
    ensures
        match r {
            Ok(s) => required_field_ok(value@) && s@ == trim(value@),
            Err(e) => !required_field_ok(value@) && required_field_error(e, field@, value@),
        },
{
    let normalized = trim_str(value);
    if normalized.unicode_len() == 0 {
        return Err(ExtraMemoryError::EmptyField { field: String::from_str(field) });
    }
    if is_placeholder_extra_field(normalized) {
        return Err(
            ExtraMemoryError::PlaceholderField {
                field: String::from_str(field),
                value: String::from_str(normalized),
            },
        );
    }
    Ok(String::from_str(normalized))
}

// ---------------------------------------------------------------------------
// Bounded lists without repeats.
// ---------------------------------------------------------------------------

/// `value` trimmed and appended unless blank or already present; the oldest
/// item dropped when the list then exceeds `limit`.
pub open spec fn pushed_limited(vs: Seq<Seq<char>>, value: Seq<char>, limit: nat) -> Seq<Seq<char>> {
    let n = trim(value);
    if n.len() == 0 || vs.contains(n) {
        vs
    } else if vs.len() + 1 > limit {
        vs.push(n).drop_first()
    } else {
        vs.push(n)
    }
}

/// Each value pushed in turn (see `pushed_limited`).
pub open spec fn pushed_all(vs: Seq<Seq<char>>, values: Seq<Seq<char>>, limit: nat) -> Seq<Seq<char>>
    decreases values.len(),
{
    if values.len() == 0 {
        vs
    } else {
        pushed_limited(pushed_all(vs, values.drop_last(), limit), values.last(), limit)
    }
}

pub fn push_limited_unique(values: &mut Vec<String>, value: &str, limit: usize)
    ensures
        views(final(values)@) == pushed_limited(views(old(values)@), value@, limit as nat),
{
    let normalized = trim_str(value);
    proof {
        lemma_has_text_views(values@, normalized@);
    }
    if normalized.unicode_len() == 0 || has_text_exec(values, normalized) {
        return;
    }
    let ghost before = values@;
    let s = String::from_str(normalized);
    values.push(s);
    proof {
        lemma_views_push(before, s);
    }
    if values.len() > limit {
        let ghost pushed = values@;
        values.remove(0);
        assert(views(values@) =~= views(pushed).drop_first());
    }
}

/// Pushes each of `src` in turn (see `pushed_all`).
pub fn push_all_limited(values: &mut Vec<String>, src: &Vec<String>, limit: usize)
    ensures
        views(final(values)@) == pushed_all(views(old(values)@), views(src@), limit as nat),
{
    let ghost start = views(values@);
    let mut i: usize = 0;
    while i < src.len()
        invariant
            i <= src@.len(),
            views(values@) == pushed_all(start, views(src@).subrange(0, i as int), limit as nat),
        decreases src.len() - i,
    {
        push_limited_unique(values, src[i].as_str(), limit);
        proof {
            let p = views(src@).subrange(0, i + 1);
            assert(p.drop_last() =~= views(src@).subrange(0, i as int));
            assert(p.last() == src@[i as int]@);
        }
        i = i + 1;
    }
    assert(views(src@).subrange(0, src@.len() as int) =~= views(src@));
}

/// A list that `pushed_limited` keeps: at most `limit` items, none twice.
pub open spec fn bounded_unique(vs: Seq<Seq<char>>, limit: nat) -> bool {
    &&& vs.len() <= limit
    &&& forall|i: int, j: int| 0 <= i < j < vs.len() ==> vs[i] != vs[j]
}

/// Pushing keeps a list within its limit and free of repeats, whatever is
/// pushed.
pub proof fn law_push_keeps_list_bounded_and_unique(vs: Seq<Seq<char>>, value: Seq<char>, limit: nat)
    requires
        bounded_unique(vs, limit),
    ensures
        bounded_unique(pushed_limited(vs, value, limit), limit),
{
    let n = trim(value);
    if !(n.len() == 0 || vs.contains(n)) {
        let p = vs.push(n);
        assert forall|i: int, j: int| 0 <= i < j < p.len() implies p[i] != p[j] by {
            if j == vs.len() {
                assert(p[i] == vs[i]);
                assert(vs.contains(vs[i]));
            }
        }
        if vs.len() + 1 > limit {
            let d = p.drop_first();
            assert forall|i: int, j: int| 0 <= i < j < d.len() implies d[i] != d[j] by {
                assert(d[i] == p[i + 1]);
                assert(d[j] == p[j + 1]);
            }
        }
    }
}

/// Any sequence of pushes into a bounded list without repeats leaves one.
pub proof fn law_pushes_keep_list_bounded_and_unique(vs: Seq<Seq<char>>, values: Seq<Seq<char>>, limit: nat)
    requires
        bounded_unique(vs, limit),
    ensures
        bounded_unique(pushed_all(vs, values, limit), limit),
    decreases values.len(),
{
    if values.len() > 0 {
        law_pushes_keep_list_bounded_and_unique(vs, values.drop_last(), limit);
        law_push_keeps_list_bounded_and_unique(pushed_all(vs, values.drop_last(), limit), values.last(), limit);
    }
}

// ---------------------------------------------------------------------------
// Text views of traces and extras.
// ---------------------------------------------------------------------------

pub struct VoiceView {
    pub speech: Seq<Seq<char>>,
    pub endings: Seq<Seq<char>>,
    pub tone: Seq<Seq<char>>,
    pub gestures: Seq<Seq<char>>,
    pub habits: Seq<Seq<char>>,
    pub drift: Seq<Seq<char>>,
}

pub open spec fn voice_view(a: CharacterVoiceAnchor) -> VoiceView {
    VoiceView {
        speech: views(a.speech@),
        endings: views(a.endings@),
        tone: views(a.tone@),
        gestures: views(a.gestures@),
        habits: views(a.habits@),
        drift: views(a.drift@),
    }
}

pub open spec fn empty_voice() -> VoiceView {
    VoiceView {
        speech: Seq::empty(),
        endings: Seq::empty(),
        tone: Seq::empty(),
        gestures: Seq::empty(),
        habits: Seq::empty(),
        drift: Seq::empty(),
    }
}

pub struct TraceView {
    pub schema_version: Seq<char>,
    pub world_id: Seq<char>,
    pub turn_id: Seq<char>,
    pub trace_id: Seq<char>,
    pub surface_label: Seq<char>,
    pub location_id: Seq<char>,
    pub scene_role: Seq<char>,
    pub contact_summary: Seq<char>,
    pub pressure_tags: Seq<Seq<char>>,
    pub promotion_hint: Seq<char>,
    pub created_at: Seq<char>,
}

pub open spec fn trace_view(t: ExtraTrace) -> TraceView {
    TraceView {
        schema_version: t.schema_version@,
        world_id: t.world_id@,
        turn_id: t.turn_id@,
        trace_id: t.trace_id@,
        surface_label: t.surface_label@,
        location_id: t.location_id@,
        scene_role: t.scene_role@,
        contact_summary: t.contact_summary@,
        pressure_tags: views(t.pressure_tags@),
        promotion_hint: t.promotion_hint@,
        created_at: t.created_at@,
    }
}

pub open spec fn trace_views(ts: Seq<ExtraTrace>) -> Seq<TraceView> {
    Seq::new(ts.len(), |i: int| trace_view(ts[i]))
}

pub open spec fn opt_view(o: Option<String>) -> Option<Seq<char>> {
    match o {
        Some(s) => Some(s@),
        None => None,
    }
}

pub struct ExtraView {
    pub schema_version: Seq<char>,
    pub world_id: Seq<char>,
    pub extra_id: Seq<char>,
    pub display_name: Seq<char>,
    pub known_name: Option<Seq<char>>,
    pub role: Seq<char>,
    pub home_location_id: Seq<char>,
    pub visibility: Seq<char>,
    pub first_seen_turn: Seq<char>,
    pub last_seen_turn: Seq<char>,
    pub contact_count: u32,
    pub disposition: Seq<char>,
    pub memory: Seq<Seq<char>>,
    pub text_design: VoiceView,
    pub open_hooks: Seq<Seq<char>>,
    pub promotion_score: u32,
}

pub open spec fn extra_view(e: RememberedExtra) -> ExtraView {
    ExtraView {
        schema_version: e.schema_version@,
        world_id: e.world_id@,
        extra_id: e.extra_id@,
        display_name: e.display_name@,
        known_name: opt_view(e.known_name),
        role: e.role@,
        home_location_id: e.home_location_id@,
        visibility: e.visibility@,
        first_seen_turn: e.first_seen_turn@,
        last_seen_turn: e.last_seen_turn@,
        contact_count: e.contact_count,
        disposition: e.disposition@,
        memory: views(e.memory@),
        text_design: voice_view(e.text_design),
        open_hooks: views(e.open_hooks@),
        promotion_score: e.promotion_score,
    }
}

pub open spec fn extra_views(es: Seq<RememberedExtra>) -> Seq<ExtraView> {
    Seq::new(es.len(), |i: int| extra_view(es[i]))
}

pub fn copy_opt_string(o: &Option<String>) -> (r: Option<String>)
    ensures
        opt_view(r) == opt_view(*o),
{
    match o {
        Some(s) => Some(s.clone()),
        None => None,
    }
}

pub fn copy_voice(a: &CharacterVoiceAnchor) -> (r: CharacterVoiceAnchor)
    ensures
        voice_view(r) == voice_view(*a),
{
    CharacterVoiceAnchor {
        speech: clone_strings(&a.speech),
        endings: clone_strings(&a.endings),
        tone: clone_strings(&a.tone),
        gestures: clone_strings(&a.gestures),
        habits: clone_strings(&a.habits),
        drift: clone_strings(&a.drift),
    }
}

pub fn copy_trace(t: &ExtraTrace) -> (r: ExtraTrace)
    ensures
        trace_view(r) == trace_view(*t),
{
    ExtraTrace {
        schema_version: t.schema_version.clone(),
        world_id: t.world_id.clone(),
        turn_id: t.turn_id.clone(),
        trace_id: t.trace_id.clone(),
        surface_label: t.surface_label.clone(),
        location_id: t.location_id.clone(),
        scene_role: t.scene_role.clone(),
        contact_summary: t.contact_summary.clone(),
        pressure_tags: clone_strings(&t.pressure_tags),
        promotion_hint: t.promotion_hint.clone(),
        created_at: t.created_at.clone(),
    }
}

pub fn copy_extra(e: &RememberedExtra) -> (r: RememberedExtra)
    ensures
        extra_view(r) == extra_view(*e),
{
    RememberedExtra {
        schema_version: e.schema_version.clone(),
        world_id: e.world_id.clone(),
        extra_id: e.extra_id.clone(),
        display_name: e.display_name.clone(),
        known_name: copy_opt_string(&e.known_name),
        role: e.role.clone(),
        home_location_id: e.home_location_id.clone(),
        visibility: e.visibility.clone(),
        first_seen_turn: e.first_seen_turn.clone(),
        last_seen_turn: e.last_seen_turn.clone(),
        contact_count: e.contact_count,
        disposition: e.disposition.clone(),
        memory: clone_strings(&e.memory),
        text_design: copy_voice(&e.text_design),
        open_hooks: clone_strings(&e.open_hooks),
        promotion_score: e.promotion_score,
    }
}

// ---------------------------------------------------------------------------
// Scores.
// ---------------------------------------------------------------------------

/// The contact asks to be remembered: `remember`, `promote` or `update`.
pub open spec fn remember_action(a: Option<String>) -> bool {
    a matches Some(s) && (s@ == "remember"@ || s@ == "promote"@ || s@ == "update"@)
}

pub fn asks_to_remember(a: &Option<String>) -> (r: bool)
    ensures
        r == remember_action(*a),
{
    match a {
        Some(s) => str_eq(s.as_str(), "remember") || str_eq(s.as_str(), "promote") || str_eq(
            s.as_str(),
            "update",
        ),
        None => false,
    }
}

/// 1, plus 2 for a request to remember, one per pressure tag up to 3, one for
/// a known name and one for open hooks.
pub open spec fn promotion_score_of(c: AgentExtraContact) -> int {
    1 + (if remember_action(c.memory_action) {
        2int
    } else {
        0
    }) + (if c.pressure_tags@.len() < 3 {
        c.pressure_tags@.len() as int
    } else {
        3
    }) + (if c.known_name is Some {
        1int
    } else {
        0
    }) + (if c.open_hooks@.len() > 0 {
        1int
    } else {
        0
    })
}

pub fn promotion_score(contact: &AgentExtraContact) -> (r: u32)
    ensures
        r == promotion_score_of(*contact),
{
    let mut score: u32 = 1;
    if asks_to_remember(&contact.memory_action) {
        score = score + 2;
    }
    let n = contact.pressure_tags.len();
    if n < 3 {
        score = score + n as u32;
    } else {
        score = score + 3;
    }
    if contact.known_name.is_some() {
        score = score + 1;
    }
    if contact.open_hooks.len() > 0 {
        score = score + 1;
    }
    score
}

pub open spec fn any_text_hit(needles: Seq<Seq<char>>, haystack: Seq<char>) -> bool {
    exists|i: int| 0 <= i < needles.len() && #[trigger] text_hit(needles[i], haystack)
}

fn any_text_matches(needles: &Vec<String>, haystack: &str) -> (r: bool)
    ensures
        r == any_text_hit(views(needles@), haystack@),
{
    let mut i: usize = 0;
    while i < needles.len()
        invariant
            i <= needles@.len(),
            forall|k: int| 0 <= k < i ==> !text_hit(#[trigger] views(needles@)[k], haystack@),
        decreases needles.len() - i,
    {
        if text_matches(needles[i].as_str(), haystack) {
            assert(text_hit(views(needles@)[i as int], haystack@));
            return true;
        }
        i = i + 1;
    }
    false
}

/// The input names the extra: by display name, known name or role.
pub open spec fn extra_named(e: ExtraView, input: Seq<char>) -> bool {
    text_hit(e.display_name, input) || (e.known_name matches Some(n) && text_hit(n, input)) || text_hit(
        e.role,
        input,
    )
}

/// Promotion score and contact count, plus 6 at its home location, 4 when
/// the input names it and 3 when the input touches one of its hooks.
pub open spec fn extra_score_of(e: ExtraView, location_id: Seq<char>, input: Seq<char>) -> int {
    e.promotion_score + e.contact_count + (if e.home_location_id == location_id {
        6int
    } else {
        0
    }) + (if extra_named(e, input) {
        4int
    } else {
        0
    }) + (if any_text_hit(e.open_hooks, input) {
        3int
    } else {
        0
    })
}

/// The score of an extra fits a `u32`.
pub open spec fn score_fits(e: ExtraView) -> bool {
    e.promotion_score + e.contact_count + 13 <= u32::MAX
}

pub fn extra_score(extra: &RememberedExtra, location_id: &str, player_input: &str) -> (r: u32)
    requires
        score_fits(extra_view(*extra)),
    ensures
        r == extra_score_of(extra_view(*extra), location_id@, player_input@),
{
    let mut score = extra.promotion_score + extra.contact_count;
    if str_eq(extra.home_location_id.as_str(), location_id) {
        score = score + 6;
    }
    let named = text_matches(extra.display_name.as_str(), player_input) || match &extra.known_name {
        Some(n) => text_matches(n.as_str(), player_input),
        None => false,
    } || text_matches(extra.role.as_str(), player_input);
    if named {
        score = score + 4;
    }
    if any_text_matches(&extra.open_hooks, player_input) {
        score = score + 3;
    }
    score
}

/// 1, plus 4 at the location and 3 when the input touches its label, role
/// or summary.
pub open spec fn trace_score_of(t: TraceView, location_id: Seq<char>, input: Seq<char>) -> int {
    1 + (if t.location_id == location_id {
        4int
    } else {
        0
    }) + (if text_hit(t.surface_label, input) || text_hit(t.scene_role, input) || text_hit(
        t.contact_summary,
        input,
    ) {
        3int
    } else {
        0
    })
}

pub fn trace_score(trace: &ExtraTrace, location_id: &str, player_input: &str) -> (r: u32)
    ensures
        r == trace_score_of(trace_view(*trace), location_id@, player_input@),
{
    let mut score: u32 = 1;
    if str_eq(trace.location_id.as_str(), location_id) {
        score = score + 4;
    }
    if text_matches(trace.surface_label.as_str(), player_input) || text_matches(
        trace.scene_role.as_str(),
        player_input,
    ) || text_matches(trace.contact_summary.as_str(), player_input) {
        score = score + 3;
    }
    score
}

// ---------------------------------------------------------------------------
// Ranked selection.
// ---------------------------------------------------------------------------

/// A candidate: its score and its position in the list it was scored from.
#[derive(Debug, Clone, Copy)]
pub struct Ranked {
    pub score: u32,
    pub index: usize,
}

/// Higher score first; among equal scores the later key (a turn id) first.
pub open spec fn ranked_before(keys: Seq<Seq<char>>, a: Ranked, b: Ranked) -> bool {
    a.score > b.score || (a.score == b.score && seq_lt(keys[b.index as int], keys[a.index as int]))
}

pub open spec fn ranked_insert_pos(keys: Seq<Seq<char>>, t: Seq<Ranked>, x: Ranked) -> int
    decreases t.len(),
{
    if t.len() == 0 {
        0
    } else {
        let p = ranked_insert_pos(keys, t.drop_last(), x);
        if p < t.len() - 1 {
            p
        } else if ranked_before(keys, x, t.last()) {
            t.len() - 1
        } else {
            t.len() as int
        }
    }
}

/// The candidates in ranking order; equal ones keep their order.
pub open spec fn sort_ranked(keys: Seq<Seq<char>>, s: Seq<Ranked>) -> Seq<Ranked>
    decreases s.len(),
{
    if s.len() == 0 {
        Seq::empty()
    } else {
        let t = sort_ranked(keys, s.drop_last());
        t.insert(ranked_insert_pos(keys, t, s.last()), s.last())
    }
}

proof fn lemma_ranked_insert_pos_is(keys: Seq<Seq<char>>, t: Seq<Ranked>, x: Ranked, k: int)
    requires
        0 <= k <= t.len(),
        forall|j: int| 0 <= j < k ==> !ranked_before(keys, x, #[trigger] t[j]),
        k < t.len() ==> ranked_before(keys, x, t[k]),
    ensures
        ranked_insert_pos(keys, t, x) == k,
    decreases t.len(),
{
    if t.len() > 0 {
        let d = t.drop_last();
        assert forall|j: int| 0 <= j < d.len() implies d[j] == t[j] by {}
        if k < t.len() - 1 {
            lemma_ranked_insert_pos_is(keys, d, x, k);
        } else {
            lemma_ranked_insert_pos_is(keys, d, x, d.len() as int);
        }
    }
}

pub open spec fn indices_below(s: Seq<Ranked>, n: nat) -> bool {
    forall|k: int| 0 <= k < s.len() ==> (#[trigger] s[k]).index < n
}

fn ranked_before_exec(keys: &Vec<String>, a: Ranked, b: Ranked) -> (r: bool)
    requires
        a.index < keys@.len(),
        b.index < keys@.len(),
    ensures
        r == ranked_before(views(keys@), a, b),
{
    a.score > b.score || (a.score == b.score && str_lt(keys[b.index].as_str(), keys[a.index].as_str()))
}

/// Sorts candidates into ranking order (see `sort_ranked`).
pub fn sort_ranked_vec(keys: &Vec<String>, items: Vec<Ranked>) -> (r: Vec<Ranked>)
    requires
        indices_below(items@, keys@.len()),
    ensures
        r@ == sort_ranked(views(keys@), items@),
        indices_below(r@, keys@.len()),
{
    let ghost ks = views(keys@);
    let ghost all = items@;
    let mut sorted: Vec<Ranked> = Vec::new();
    let mut n: usize = 0;
    while n < items.len()
        invariant
            n <= all.len(),
            items@ == all,
            ks == views(keys@),
            indices_below(all, keys@.len()),
            sorted@ == sort_ranked(ks, all.subrange(0, n as int)),
            indices_below(sorted@, keys@.len()),
        decreases items.len() - n,
    {
        let x = items[n];
        proof {
            assert(all.subrange(0, n + 1).drop_last() =~= all.subrange(0, n as int));
            assert(all.subrange(0, n + 1).last() == x);
        }
        let mut k: usize = 0;
        while k < sorted.len() && !ranked_before_exec(keys, x, sorted[k])
            invariant
                k <= sorted@.len(),
                x.index < keys@.len(),
                ks == views(keys@),
                indices_below(sorted@, keys@.len()),
                forall|j: int| 0 <= j < k ==> !ranked_before(ks, x, #[trigger] sorted@[j]),
            decreases sorted.len() - k,
        {
            k = k + 1;
        }
        proof {
            lemma_ranked_insert_pos_is(ks, sorted@, x, k as int);
        }
        let ghost before = sorted@;
        sorted.insert(k, x);
        proof {
            assert forall|j: int| 0 <= j < sorted@.len() implies (#[trigger] sorted@[j]).index < keys@.len() by {
                if j < k {
                    assert(sorted@[j] == before[j]);
                } else if j > k {
                    assert(sorted@[j] == before[j - 1]);
                }
            }
        }
        n = n + 1;
    }
    assert(all.subrange(0, all.len() as int) =~= all);
    sorted
}

pub open spec fn take_at_most<A>(s: Seq<A>, n: nat) -> Seq<A> {
    if s.len() > n {
        s.take(n as int)
    } else {
        s
    }
}

// ---------------------------------------------------------------------------
// Which extras and traces a turn sees.
// ---------------------------------------------------------------------------

/// The extras with a positive score, in list order.
pub open spec fn extra_candidates(es: Seq<ExtraView>, location_id: Seq<char>, input: Seq<char>) -> Seq<Ranked>
    decreases es.len(),
{
    if es.len() == 0 {
        Seq::empty()
    } else {
        let p = extra_candidates(es.drop_last(), location_id, input);
        let sc = extra_score_of(es.last(), location_id, input);
        if sc > 0 {
            p.push(Ranked { score: sc as u32, index: (es.len() - 1) as usize })
        } else {
            p
        }
    }
}

pub open spec fn last_seen_keys(es: Seq<ExtraView>) -> Seq<Seq<char>> {
    Seq::new(es.len(), |i: int| es[i].last_seen_turn)
}

/// The extras a turn recalls: those with a positive score, highest first
/// (the most recently seen first among equals), at most seven.
pub open spec fn selected_extras(es: Seq<ExtraView>, location_id: Seq<char>, input: Seq<char>) -> Seq<ExtraView> {
    let order = take_at_most(
        sort_ranked(last_seen_keys(es), extra_candidates(es, location_id, input)),
        REMEMBERED_EXTRA_LIMIT as nat,
    );
    Seq::new(order.len(), |k: int| es[order[k].index as int])
}

pub open spec fn all_scores_fit(es: Seq<ExtraView>) -> bool {
    forall|i: int| 0 <= i < es.len() ==> score_fits(#[trigger] es[i])
}

proof fn lemma_extra_candidates_below(es: Seq<ExtraView>, location_id: Seq<char>, input: Seq<char>)
    ensures
        indices_below(extra_candidates(es, location_id, input), es.len()),
    decreases es.len(),
{
    if es.len() > 0 {
        lemma_extra_candidates_below(es.drop_last(), location_id, input);
    }
}

/// Copies out the items at the given positions, in order.
fn copy_extras_at(extras: &Vec<RememberedExtra>, order: &Vec<Ranked>, limit: usize) -> (r: Vec<RememberedExtra>)
    requires
        indices_below(order@, extras@.len()),
    ensures
        extra_views(r@) == ({
            let o = take_at_most(order@, limit as nat);
            Seq::new(o.len(), |k: int| extra_views(extras@)[o[k].index as int])
        }),
{
    let ghost o = take_at_most(order@, limit as nat);
    let mut out: Vec<RememberedExtra> = Vec::new();
    let mut k: usize = 0;
    while k < order.len() && k < limit
        invariant
            k <= order@.len(),
            k <= limit,
            o == take_at_most(order@, limit as nat),
            indices_below(order@, extras@.len()),
            out@.len() == k,
            extra_views(out@) =~= Seq::new(k as nat, |j: int| extra_views(extras@)[o[j].index as int]),
        decreases order.len() - k,
    {
        let e = copy_extra(&extras[order[k].index]);
        let ghost before = out@;
        out.push(e);
        proof {
            assert(o[k as int] == order@[k as int]);
            assert forall|j: int| 0 <= j < k + 1 implies #[trigger] extra_views(out@)[j] == extra_views(extras@)[o[j].index as int] by {
                if j < k {
                    assert(out@[j] == before[j]);
                    assert(extra_views(before)[j] == extra_views(extras@)[o[j].index as int]);
                }
            }
            assert(extra_views(out@) =~= Seq::new((k + 1) as nat, |j: int| extra_views(extras@)[o[j].index as int]));
        }
        k = k + 1;
    }
    out
}

pub fn select_remembered_extras(extras: &Vec<RememberedExtra>, location_id: &str, player_input: &str) -> (r: Vec<
    RememberedExtra,
>)
    requires
        all_scores_fit(extra_views(extras@)),
    ensures
        extra_views(r@) == selected_extras(extra_views(extras@), location_id@, player_input@),
{
    let ghost es = extra_views(extras@);
    let mut cands: Vec<Ranked> = Vec::new();
    let mut keys: Vec<String> = Vec::new();
    let mut i: usize = 0;
    while i < extras.len()
        invariant
            i <= extras@.len(),
            es == extra_views(extras@),
            all_scores_fit(es),
            cands@ == extra_candidates(es.subrange(0, i as int), location_id@, player_input@),
            views(keys@) == last_seen_keys(es.subrange(0, i as int)),
        decreases extras.len() - i,
    {
        proof {
            assert(es.subrange(0, i + 1).drop_last() =~= es.subrange(0, i as int));
            assert(es.subrange(0, i + 1).last() == extra_view(extras@[i as int]));
            assert(score_fits(es[i as int]));
        }
        let sc = extra_score(&extras[i], location_id, player_input);
        if sc > 0 {
            cands.push(Ranked { score: sc, index: i });
        }
        let ghost kv = keys@;
        let key = extras[i].last_seen_turn.clone();
        keys.push(key);
        proof {
            lemma_views_push(kv, key);
            assert(views(keys@) =~= last_seen_keys(es.subrange(0, i + 1)));
        }
        i = i + 1;
    }
    proof {
        assert(es.subrange(0, es.len() as int) =~= es);
        lemma_extra_candidates_below(es, location_id@, player_input@);
    }
    let sorted = sort_ranked_vec(&keys, cands);
    copy_extras_at(extras, &sorted, REMEMBERED_EXTRA_LIMIT)
}

/// The traces not of a recalled extra, scored (see `trace_score_of`).
pub open spec fn trace_candidates(
    ts: Seq<TraceView>,
    location_id: Seq<char>,
    input: Seq<char>,
    labels: Seq<Seq<char>>,
) -> Seq<Ranked>
    decreases ts.len(),
{
    if ts.len() == 0 {
        Seq::empty()
    } else {
        let p = trace_candidates(ts.drop_last(), location_id, input, labels);
        let sc = trace_score_of(ts.last(), location_id, input);
        if !labels.contains(ts.last().surface_label) && sc > 0 {
            p.push(Ranked { score: sc as u32, index: (ts.len() - 1) as usize })
        } else {
            p
        }
    }
}

pub open spec fn turn_keys(ts: Seq<TraceView>) -> Seq<Seq<char>> {
    Seq::new(ts.len(), |i: int| ts[i].turn_id)
}

pub open spec fn display_names(es: Seq<ExtraView>) -> Seq<Seq<char>> {
    Seq::new(es.len(), |i: int| es[i].display_name)
}

/// The recent traces a turn sees: those not of a recalled extra, highest
/// score first (the latest turn first among equals), at most five.
pub open spec fn selected_traces(
    ts: Seq<TraceView>,
    location_id: Seq<char>,
    input: Seq<char>,
    recalled: Seq<ExtraView>,
) -> Seq<TraceView> {
    let order = take_at_most(
        sort_ranked(turn_keys(ts), trace_candidates(ts, location_id, input, display_names(recalled))),
        RECENT_TRACE_LIMIT as nat,
    );
    Seq::new(order.len(), |k: int| ts[order[k].index as int])
}

proof fn lemma_trace_candidates_below(
    ts: Seq<TraceView>,
    location_id: Seq<char>,
    input: Seq<char>,
    labels: Seq<Seq<char>>,
)
    ensures
        indices_below(trace_candidates(ts, location_id, input, labels), ts.len()),
    decreases ts.len(),
{
    if ts.len() > 0 {
        lemma_trace_candidates_below(ts.drop_last(), location_id, input, labels);
    }
}

fn names_label(extras: &Vec<RememberedExtra>, label: &str) -> (r: bool)
    ensures
        r == display_names(extra_views(extras@)).contains(label@),
{
    let ghost names = display_names(extra_views(extras@));
    let mut i: usize = 0;
    while i < extras.len()
        invariant
            i <= extras@.len(),
            names == display_names(extra_views(extras@)),
            forall|k: int| 0 <= k < i ==> #[trigger] names[k] != label@,
        decreases extras.len() - i,
    {
        if str_eq(extras[i].display_name.as_str(), label) {
            assert(names[i as int] == label@);
            return true;
        }
        i = i + 1;
    }
    false
}

fn copy_traces_at(traces: &Vec<ExtraTrace>, order: &Vec<Ranked>, limit: usize) -> (r: Vec<ExtraTrace>)
    requires
        indices_below(order@, traces@.len()),
    ensures
        trace_views(r@) == ({
            let o = take_at_most(order@, limit as nat);
            Seq::new(o.len(), |k: int| trace_views(traces@)[o[k].index as int])
        }),
{
    let ghost o = take_at_most(order@, limit as nat);
    let mut out: Vec<ExtraTrace> = Vec::new();
    let mut k: usize = 0;
    while k < order.len() && k < limit
        invariant
            k <= order@.len(),
            k <= limit,
            o == take_at_most(order@, limit as nat),
            indices_below(order@, traces@.len()),
            out@.len() == k,
            trace_views(out@) =~= Seq::new(k as nat, |j: int| trace_views(traces@)[o[j].index as int]),
        decreases order.len() - k,
    {
        let t = copy_trace(&traces[order[k].index]);
        let ghost before = out@;
        out.push(t);
        proof {
            assert(o[k as int] == order@[k as int]);
            assert forall|j: int| 0 <= j < k + 1 implies #[trigger] trace_views(out@)[j] == trace_views(traces@)[o[j].index as int] by {
                if j < k {
                    assert(out@[j] == before[j]);
                    assert(trace_views(before)[j] == trace_views(traces@)[o[j].index as int]);
                }
            }
            assert(trace_views(out@) =~= Seq::new((k + 1) as nat, |j: int| trace_views(traces@)[o[j].index as int]));
        }
        k = k + 1;
    }
    out
}

pub fn select_recent_traces(
    traces: &Vec<ExtraTrace>,
    location_id: &str,
    player_input: &str,
    remembered_extras: &Vec<RememberedExtra>,
) -> (r: Vec<ExtraTrace>)
    ensures
        trace_views(r@) == selected_traces(
            trace_views(traces@),
            location_id@,
            player_input@,
            extra_views(remembered_extras@),
        ),
{
    let ghost ts = trace_views(traces@);
    let ghost labels = display_names(extra_views(remembered_extras@));
    let mut cands: Vec<Ranked> = Vec::new();
    let mut keys: Vec<String> = Vec::new();
    let mut i: usize = 0;
    while i < traces.len()
        invariant
            i <= traces@.len(),
            ts == trace_views(traces@),
            labels == display_names(extra_views(remembered_extras@)),
            cands@ == trace_candidates(ts.subrange(0, i as int), location_id@, player_input@, labels),
            views(keys@) == turn_keys(ts.subrange(0, i as int)),
        decreases traces.len() - i,
    {
        proof {
            assert(ts.subrange(0, i + 1).drop_last() =~= ts.subrange(0, i as int));
            assert(ts.subrange(0, i + 1).last() == trace_view(traces@[i as int]));
        }
        let recalled = names_label(remembered_extras, traces[i].surface_label.as_str());
        let sc = trace_score(&traces[i], location_id, player_input);
        if !recalled && sc > 0 {
            cands.push(Ranked { score: sc, index: i });
        }
        let ghost kv = keys@;
        let key = traces[i].turn_id.clone();
        keys.push(key);
        proof {
            lemma_views_push(kv, key);
            assert(views(keys@) =~= turn_keys(ts.subrange(0, i + 1)));
        }
        i = i + 1;
    }
    proof {
        assert(ts.subrange(0, ts.len() as int) =~= ts);
        lemma_trace_candidates_below(ts, location_id@, player_input@, labels);
    }
    let sorted = sort_ranked_vec(&keys, cands);
    copy_traces_at(traces, &sorted, RECENT_TRACE_LIMIT)
}

// ---------------------------------------------------------------------------
// From contacts to traces and remembered extras.
// ---------------------------------------------------------------------------

/// The option's text trimmed, unless absent or blank: then `default`.
pub open spec fn opt_trimmed_or(o: Option<String>, default: Seq<char>) -> Seq<char> {
    match o {
        Some(s) => if trim(s@).len() > 0 {
            trim(s@)
        } else {
            default
        },
        None => default,
    }
}

fn trimmed_or(o: &Option<String>, default: &str) -> (r: String)
    ensures
        r@ == opt_trimmed_or(*o, default@),
{
    match o {
        Some(s) => {
            let t = trim_str(s.as_str());
            if t.unicode_len() > 0 {
                String::from_str(t)
            } else {
                String::from_str(default)
            }
        },
        None => String::from_str(default),
    }
}

/// A contact's label and summary are both usable.
pub open spec fn contact_ok(c: AgentExtraContact) -> bool {
    required_field_ok(c.surface_label@) && required_field_ok(c.contact_summary@)
}

/// The error a contact that is not usable gives: its label's first, then its
/// summary's.
pub open spec fn contact_error(e: ExtraMemoryError, c: AgentExtraContact) -> bool {
    if !required_field_ok(c.surface_label@) {
        required_field_error(e, "extra surface_label"@, c.surface_label@)
    } else {
        required_field_error(e, "extra contact_summary"@, c.contact_summary@)
    }
}

/// The trace a usable contact leaves.
pub open spec fn trace_of_contact(
    world_id: Seq<char>,
    turn_id: Seq<char>,
    fallback_location_id: Seq<char>,
    c: AgentExtraContact,
    created_at: Seq<char>,
) -> TraceView {
    TraceView {
        schema_version: EXTRA_TRACE_SCHEMA_VERSION@,
        world_id,
        turn_id,
        trace_id: "extra_trace:"@ + turn_id + ":"@ + slug_of(trim(c.surface_label@)),
        surface_label: trim(c.surface_label@),
        location_id: opt_trimmed_or(c.location_id, fallback_location_id),
        scene_role: opt_trimmed_or(c.scene_role, "background_contact"@),
        contact_summary: trim(c.contact_summary@),
        pressure_tags: trimmed_nonblank(c.pressure_tags@),
        promotion_hint: opt_trimmed_or(c.promotion_hint, "player-visible contact"@),
        created_at,
    }
}

pub fn extra_trace_from_contact(
    world_id: &str,
    turn_id: &str,
    fallback_location_id: &str,
    contact: &AgentExtraContact,
    created_at: &str,
) -> (r: Result<ExtraTrace, ExtraMemoryError>)
    ensures
        match r {
            Ok(t) => contact_ok(*contact) && trace_view(t) == trace_of_contact(
                world_id@,
                turn_id@,
                fallback_location_id@,
                *contact,
                created_at@,
            ),
            Err(e) => !contact_ok(*contact) && contact_error(e, *contact),
        },
{
    let surface_label = match normalized_required("extra surface_label", contact.surface_label.as_str()) {
        Ok(s) => s,
        Err(e) => {
            return Err(e);
        },
    };
    let contact_summary = match normalized_required("extra contact_summary", contact.contact_summary.as_str()) {
        Ok(s) => s,
        Err(e) => {
            return Err(e);
        },
    };
    let location_id = trimmed_or(&contact.location_id, fallback_location_id);
    let scene_role = trimmed_or(&contact.scene_role, "background_contact");
    let slug = stable_slug(surface_label.as_str());
    let trace_id = concat4("extra_trace:", turn_id, ":", slug.as_str());
    Ok(
        ExtraTrace {
            schema_version: String::from_str(EXTRA_TRACE_SCHEMA_VERSION),
            world_id: String::from_str(world_id),
            turn_id: String::from_str(turn_id),
            trace_id,
            surface_label,
            location_id,
            scene_role,
            contact_summary,
            pressure_tags: trimmed_vec(&contact.pressure_tags),
            promotion_hint: trimmed_or(&contact.promotion_hint, "player-visible contact"),
            created_at: String::from_str(created_at),
        },
    )
}

/// The earlier traces of the same label at the same location, in order.
pub open spec fn matching_traces(t: TraceView, ts: Seq<TraceView>) -> Seq<TraceView>
    decreases ts.len(),
{
    if ts.len() == 0 {
        Seq::empty()
    } else {
        let p = matching_traces(t, ts.drop_last());
        if ts.last().surface_label == t.surface_label && ts.last().location_id == t.location_id {
            p.push(ts.last())
        } else {
            p
        }
    }
}

pub fn matching_prior_traces(trace: &ExtraTrace, traces: &Vec<ExtraTrace>) -> (r: Vec<ExtraTrace>)
    ensures
        trace_views(r@) == matching_traces(trace_view(*trace), trace_views(traces@)),
{
    let ghost ts = trace_views(traces@);
    let mut out: Vec<ExtraTrace> = Vec::new();
    let mut i: usize = 0;
    while i < traces.len()
        invariant
            i <= traces@.len(),
            ts == trace_views(traces@),
            trace_views(out@) == matching_traces(trace_view(*trace), ts.subrange(0, i as int)),
        decreases traces.len() - i,
    {
        proof {
            assert(ts.subrange(0, i + 1).drop_last() =~= ts.subrange(0, i as int));
            assert(ts.subrange(0, i + 1).last() == trace_view(traces@[i as int]));
        }
        if str_eq(traces[i].surface_label.as_str(), trace.surface_label.as_str()) && str_eq(
            traces[i].location_id.as_str(),
            trace.location_id.as_str(),
        ) {
            let ghost before = out@;
            let t = copy_trace(&traces[i]);
            out.push(t);
            assert(trace_views(out@) =~= trace_views(before).push(trace_view(t)));
        }
        i = i + 1;
    }
    assert(ts.subrange(0, ts.len() as int) =~= ts);
    out
}

/// The extra has the contact's raw label as its name, or the same known name
/// (both absent counts as the same).
pub open spec fn recalls_contact(e: ExtraView, c: AgentExtraContact) -> bool {
    e.display_name == c.surface_label@ || e.known_name == opt_view(c.known_name)
}

/// A contact is remembered when it asks to be, when a remembered extra
/// recalls it, or when it was seen here before.
pub open spec fn should_remember(c: AgentExtraContact, es: Seq<ExtraView>, prior_count: nat) -> bool {
    remember_action(c.memory_action) || (exists|i: int| 0 <= i < es.len() && #[trigger] recalls_contact(es[i], c))
        || prior_count > 0
}

fn same_opt_text(a: &Option<String>, b: &Option<String>) -> (r: bool)
    ensures
        r == (opt_view(*a) == opt_view(*b)),
{
    match (a, b) {
        (Some(x), Some(y)) => str_eq(x.as_str(), y.as_str()),
        (None, None) => true,
        _ => false,
    }
}

pub fn should_remember_contact(
    contact: &AgentExtraContact,
    store: &RememberedExtrasStore,
    matching_prior_traces: &Vec<ExtraTrace>,
) -> (r: bool)
    ensures
        r == should_remember(*contact, extra_views(store.extras@), matching_prior_traces@.len()),
{
    if asks_to_remember(&contact.memory_action) {
        return true;
    }
    let ghost es = extra_views(store.extras@);
    let mut i: usize = 0;
    while i < store.extras.len()
        invariant
            i <= store.extras@.len(),
            es == extra_views(store.extras@),
            forall|k: int| 0 <= k < i ==> !recalls_contact(#[trigger] es[k], *contact),
        decreases store.extras.len() - i,
    {
        let e = &store.extras[i];
        if str_eq(e.display_name.as_str(), contact.surface_label.as_str()) || same_opt_text(
            &e.known_name,
            &contact.known_name,
        ) {
            assert(recalls_contact(es[i as int], *contact));
            return true;
        }
        i = i + 1;
    }
    matching_prior_traces.len() > 0
}

pub open spec fn extra_id_of(location_id: Seq<char>, label: Seq<char>) -> Seq<char> {
    "extra:"@ + slug_of(location_id) + ":"@ + slug_of(label)
}

pub open spec fn summaries(ts: Seq<TraceView>) -> Seq<Seq<char>> {
    Seq::new(ts.len(), |i: int| ts[i].contact_summary)
}

pub open spec fn count_u32(n: nat) -> u32 {
    if n <= u32::MAX {
        n as u32
    } else {
        u32::MAX
    }
}

pub open spec fn sat_add(a: u32, b: int) -> u32 {
    if a + b <= u32::MAX {
        (a + b) as u32
    } else {
        u32::MAX
    }
}

/// The extra a contact becomes when no remembered extra matches it.
pub open spec fn new_extra(t: TraceView, c: AgentExtraContact, prior: Seq<TraceView>) -> ExtraView {
    ExtraView {
        schema_version: REMEMBERED_EXTRA_SCHEMA_VERSION@,
        world_id: t.world_id,
        extra_id: extra_id_of(t.location_id, t.surface_label),
        display_name: t.surface_label,
        known_name: opt_view(c.known_name),
        role: match c.role {
            Some(r) => r@,
            None => t.scene_role,
        },
        home_location_id: t.location_id,
        visibility: "player_visible"@,
        first_seen_turn: if prior.len() > 0 {
            prior[0].turn_id
        } else {
            t.turn_id
        },
        last_seen_turn: t.turn_id,
        contact_count: count_u32(prior.len() + 1),
        disposition: match c.disposition {
            Some(d) => d@,
            None => "unsettled"@,
        },
        memory: pushed_all(Seq::empty(), summaries(prior).push(t.contact_summary), MAX_EXTRA_MEMORY_ITEMS as nat),
        text_design: match c.text_design {
            Some(a) => voice_view(a),
            None => empty_voice(),
        },
        open_hooks: trimmed_nonblank(c.open_hooks@),
        promotion_score: promotion_score_of(c) as u32,
    }
}

/// Voice material merged in, each list kept to six items without repeats.
pub open spec fn merged_voice(v: VoiceView, src: Option<CharacterVoiceAnchor>) -> VoiceView {
    match src {
        None => v,
        Some(a) => VoiceView {
            speech: pushed_all(v.speech, views(a.speech@), 6),
            endings: pushed_all(v.endings, views(a.endings@), 6),
            tone: pushed_all(v.tone, views(a.tone@), 6),
            gestures: pushed_all(v.gestures, views(a.gestures@), 6),
            habits: pushed_all(v.habits, views(a.habits@), 6),
            drift: pushed_all(v.drift, views(a.drift@), 6),
        },
    }
}

pub fn merge_voice_anchor(target: &mut CharacterVoiceAnchor, source: Option<&CharacterVoiceAnchor>)
    ensures
        voice_view(*final(target)) == merged_voice(
            voice_view(*old(target)),
            match source {
                Some(a) => Some(*a),
                None => None,
            },
        ),
{
    match source {
        None => {},
        Some(src) => {
            push_all_limited(&mut target.speech, &src.speech, 6);
            push_all_limited(&mut target.endings, &src.endings, 6);
            push_all_limited(&mut target.tone, &src.tone, 6);
            push_all_limited(&mut target.gestures, &src.gestures, 6);
            push_all_limited(&mut target.habits, &src.habits, 6);
            push_all_limited(&mut target.drift, &src.drift, 6);
        },
    }
}

/// A remembered extra seen again: last seen now, one more contact, the
/// contact's promotion score (at least 1) added, its summary remembered, a
/// non-blank disposition taken, its voice material and hooks merged.
pub open spec fn updated_extra(e: ExtraView, t: TraceView, c: AgentExtraContact) -> ExtraView {
    ExtraView {
        schema_version: e.schema_version,
        world_id: e.world_id,
        extra_id: e.extra_id,
        display_name: e.display_name,
        known_name: e.known_name,
        role: e.role,
        home_location_id: e.home_location_id,
        visibility: e.visibility,
        first_seen_turn: e.first_seen_turn,
        last_seen_turn: t.turn_id,
        contact_count: sat_add(e.contact_count, 1),
        disposition: match c.disposition {
            Some(d) => if trim(d@).len() > 0 {
                trim(d@)
            } else {
                e.disposition
            },
            None => e.disposition,
        },
        memory: pushed_limited(e.memory, t.contact_summary, MAX_EXTRA_MEMORY_ITEMS as nat),
        text_design: merged_voice(e.text_design, c.text_design),
        open_hooks: pushed_all(e.open_hooks, trimmed_nonblank(c.open_hooks@), MAX_OPEN_HOOKS as nat),
        promotion_score: sat_add(
            e.promotion_score,
            if promotion_score_of(c) > 1 {
                promotion_score_of(c)
            } else {
                1
            },
        ),
    }
}

pub open spec fn upsert_hit(e: ExtraView, id: Seq<char>, label: Seq<char>) -> bool {
    e.extra_id == id || e.display_name == label
}

/// The first extra at or after `k` with the id or the display name.
pub open spec fn find_extra_from(es: Seq<ExtraView>, id: Seq<char>, label: Seq<char>, k: int) -> Option<int>
    decreases es.len() - k,
{
    if k < 0 || k >= es.len() {
        None
    } else if upsert_hit(es[k], id, label) {
        Some(k)
    } else {
        find_extra_from(es, id, label, k + 1)
    }
}

/// The contact folded into the remembered extras: the first extra with its id
/// or label updated, or a new extra appended.
pub open spec fn upserted(es: Seq<ExtraView>, t: TraceView, c: AgentExtraContact, prior: Seq<TraceView>) -> Seq<
    ExtraView,
> {
    match find_extra_from(es, extra_id_of(t.location_id, t.surface_label), t.surface_label, 0) {
        None => es.push(new_extra(t, c, prior)),
        Some(j) => es.update(j, updated_extra(es[j], t, c)),
    }
}

fn find_extra(extras: &Vec<RememberedExtra>, id: &str, label: &str) -> (r: Option<usize>)
    ensures
        match r {
            Some(k) => k < extras@.len() && find_extra_from(extra_views(extras@), id@, label@, 0) == Some(
                k as int,
            ),
            None => find_extra_from(extra_views(extras@), id@, label@, 0) is None,
        },
{
    let ghost es = extra_views(extras@);
    let mut i: usize = 0;
    while i < extras.len()
        invariant
            i <= extras.len(),
            es == extra_views(extras@),
            find_extra_from(es, id@, label@, 0) == find_extra_from(es, id@, label@, i as int),
        decreases extras.len() - i,
    {
        if str_eq(extras[i].extra_id.as_str(), id) || str_eq(extras[i].display_name.as_str(), label) {
            assert(upsert_hit(es[i as int], id@, label@));
            return Some(i);
        }
        i = i + 1;
    }
    None
}

fn contact_memory_from_traces(prior: &Vec<ExtraTrace>, trace: &ExtraTrace) -> (r: Vec<String>)
    ensures
        views(r@) == pushed_all(
            Seq::empty(),
            summaries(trace_views(prior@)).push(trace.contact_summary@),
            MAX_EXTRA_MEMORY_ITEMS as nat,
        ),
{
    let ghost ps = summaries(trace_views(prior@)).push(trace.contact_summary@);
    let mut memory: Vec<String> = Vec::new();
    let mut i: usize = 0;
    while i < prior.len()
        invariant
            i <= prior@.len(),
            ps == summaries(trace_views(prior@)).push(trace.contact_summary@),
            views(memory@) == pushed_all(Seq::empty(), ps.subrange(0, i as int), MAX_EXTRA_MEMORY_ITEMS as nat),
        decreases prior.len() - i,
    {
        push_limited_unique(&mut memory, prior[i].contact_summary.as_str(), MAX_EXTRA_MEMORY_ITEMS);
        proof {
            assert(ps.subrange(0, i + 1).drop_last() =~= ps.subrange(0, i as int));
            assert(ps.subrange(0, i + 1).last() == prior@[i as int].contact_summary@);
        }
        i = i + 1;
    }
    push_limited_unique(&mut memory, trace.contact_summary.as_str(), MAX_EXTRA_MEMORY_ITEMS);
    proof {
        assert(ps.subrange(0, prior@.len() as int + 1) =~= ps);
        assert(ps.subrange(0, prior@.len() as int + 1).drop_last() =~= ps.subrange(0, prior@.len() as int));
    }
    memory
}

fn count_with_one_more(n: usize) -> (r: u32)
    ensures
        r == count_u32(n as nat + 1),
{
    if n < 0xffff_ffffusize {
        (n + 1) as u32
    } else {
        0xffff_ffffu32
    }
}

proof fn lemma_empty_voice(a: CharacterVoiceAnchor)
    requires
        a.spec_is_empty(),
    ensures
        voice_view(a) == empty_voice(),
{
    assert(views(a.speech@) =~= Seq::empty());
    assert(views(a.endings@) =~= Seq::empty());
    assert(views(a.tone@) =~= Seq::empty());
    assert(views(a.gestures@) =~= Seq::empty());
    assert(views(a.habits@) =~= Seq::empty());
    assert(views(a.drift@) =~= Seq::empty());
}

pub fn upsert_remembered_extra(
    store: &mut RememberedExtrasStore,
    trace: &ExtraTrace,
    contact: &AgentExtraContact,
    matching_prior_traces: &Vec<ExtraTrace>,
)
    ensures
        extra_views(final(store).extras@) == upserted(
            extra_views(old(store).extras@),
            trace_view(*trace),
            *contact,
            trace_views(matching_prior_traces@),
        ),
        final(store).schema_version == old(store).schema_version,
        final(store).world_id == old(store).world_id,
        final(store).updated_at == old(store).updated_at,
{
    let loc_slug = stable_slug(trace.location_id.as_str());
    let label_slug = stable_slug(trace.surface_label.as_str());
    let extra_id = concat4("extra:", loc_slug.as_str(), ":", label_slug.as_str());
    let ghost before = store.extras@;
    match find_extra(&store.extras, extra_id.as_str(), trace.surface_label.as_str()) {
        None => {
            let first_seen_turn = if matching_prior_traces.len() > 0 {
                matching_prior_traces[0].turn_id.clone()
            } else {
                trace.turn_id.clone()
            };
            let role = match &contact.role {
                Some(r) => r.clone(),
                None => trace.scene_role.clone(),
            };
            let disposition = match &contact.disposition {
                Some(d) => d.clone(),
                None => String::from_str("unsettled"),
            };
            let text_design = match &contact.text_design {
                Some(a) => copy_voice(a),
                None => {
                    let a = CharacterVoiceAnchor::empty();
                    proof {
                        lemma_empty_voice(a);
                    }
                    a
                },
            };
            let e = RememberedExtra {
                schema_version: String::from_str(REMEMBERED_EXTRA_SCHEMA_VERSION),
                world_id: trace.world_id.clone(),
                extra_id,
                display_name: trace.surface_label.clone(),
                known_name: copy_opt_string(&contact.known_name),
                role,
                home_location_id: trace.location_id.clone(),
                visibility: String::from_str("player_visible"),
                first_seen_turn,
                last_seen_turn: trace.turn_id.clone(),
                contact_count: count_with_one_more(matching_prior_traces.len()),
                disposition,
                memory: contact_memory_from_traces(matching_prior_traces, trace),
                text_design,
                open_hooks: trimmed_vec(&contact.open_hooks),
                promotion_score: promotion_score(contact),
            };
            proof {
                assert(voice_view(e.text_design) == (match contact.text_design {
                    Some(a) => voice_view(a),
                    None => empty_voice(),
                }));
                assert(extra_view(e) == new_extra(trace_view(*trace), *contact, trace_views(matching_prior_traces@)));
            }
            store.extras.push(e);
            assert(extra_views(store.extras@) =~= extra_views(before).push(extra_view(e)));
        },
        Some(j) => {
            let mut e = copy_extra(&store.extras[j]);
            let ghost old_e = extra_view(e);
            e.last_seen_turn = trace.turn_id.clone();
            e.contact_count = e.contact_count.saturating_add(1);
            let p = promotion_score(contact);
            let bump = if p > 1 {
                p
            } else {
                1
            };
            e.promotion_score = e.promotion_score.saturating_add(bump);
            push_limited_unique(&mut e.memory, trace.contact_summary.as_str(), MAX_EXTRA_MEMORY_ITEMS);
            match &contact.disposition {
                Some(d) => {
                    let t = trim_str(d.as_str());
                    if t.unicode_len() > 0 {
                        e.disposition = String::from_str(t);
                    }
                },
                None => {},
            }
            match &contact.text_design {
                Some(a) => merge_voice_anchor(&mut e.text_design, Some(a)),
                None => {},
            }
            let hooks = trimmed_vec(&contact.open_hooks);
            push_all_limited(&mut e.open_hooks, &hooks, MAX_OPEN_HOOKS);
            proof {
                assert(extra_view(e) == updated_extra(old_e, trace_view(*trace), *contact));
            }
            store.extras.set(j, e);
            assert(extra_views(store.extras@) =~= extra_views(before).update(j as int, extra_view(e)));
        },
    }
}

// ---------------------------------------------------------------------------
// Projecting a turn's contacts.
// ---------------------------------------------------------------------------

/// What a turn's contacts add: the traces to append and the remembered
/// extras after them.
#[derive(Debug, Clone)]
pub struct ExtraMemoryProjectionPlan {
    pub world_id: String,
    pub turn_id: String,
    pub traces_to_append: Vec<ExtraTrace>,
    pub remembered_store: RememberedExtrasStore,
}

/// The first contact that is not usable.
pub open spec fn first_invalid(cs: Seq<AgentExtraContact>) -> Option<int>
    decreases cs.len(),
{
    if cs.len() == 0 {
        None
    } else {
        match first_invalid(cs.drop_last()) {
            Some(k) => Some(k),
            None => if !contact_ok(cs.last()) {
                Some(cs.len() - 1)
            } else {
                None
            },
        }
    }
}

proof fn lemma_first_invalid_prefix(cs: Seq<AgentExtraContact>, m: int)
    requires
        0 <= m <= cs.len(),
        first_invalid(cs.subrange(0, m)) is Some,
    ensures
        first_invalid(cs) == first_invalid(cs.subrange(0, m)),
    decreases cs.len(),
{
    if m == cs.len() {
        assert(cs.subrange(0, m) =~= cs);
    } else {
        assert(cs.drop_last().subrange(0, m) =~= cs.subrange(0, m));
        lemma_first_invalid_prefix(cs.drop_last(), m);
    }
}

/// The contacts folded in order into the remembered extras and the traces:
/// each leaves a trace; each to be remembered (see `should_remember`, with
/// the traces before it, the earlier ones of this turn included) is
/// upserted.
pub open spec fn projected(
    es: Seq<ExtraView>,
    ts: Seq<TraceView>,
    cs: Seq<AgentExtraContact>,
    world_id: Seq<char>,
    turn_id: Seq<char>,
    location_id: Seq<char>,
    created_at: Seq<char>,
) -> (Seq<ExtraView>, Seq<TraceView>)
    decreases cs.len(),
{
    if cs.len() == 0 {
        (es, Seq::empty())
    } else {
        let prev = projected(es, ts, cs.drop_last(), world_id, turn_id, location_id, created_at);
        let c = cs.last();
        let t = trace_of_contact(world_id, turn_id, location_id, c, created_at);
        let prior = matching_traces(t, ts + prev.1);
        let es2 = if should_remember(c, prev.0, prior.len()) {
            upserted(prev.0, t, c, prior)
        } else {
            prev.0
        };
        (es2, prev.1.push(t))
    }
}

/// The plan of a batch of usable contacts.
pub open spec fn projection_plan_is(
    plan: ExtraMemoryProjectionPlan,
    world_id: Seq<char>,
    turn_id: Seq<char>,
    location_id: Seq<char>,
    contacts: Seq<AgentExtraContact>,
    store: RememberedExtrasStore,
    traces: Seq<ExtraTrace>,
    created_at: Seq<char>,
    updated_at: Seq<char>,
) -> bool {
    let p = projected(extra_views(store.extras@), trace_views(traces), contacts, world_id, turn_id, location_id, created_at);
    &&& plan.world_id@ == world_id
    &&& plan.turn_id@ == turn_id
    &&& extra_views(plan.remembered_store.extras@) == p.0
    &&& trace_views(plan.traces_to_append@) == p.1
    &&& plan.remembered_store.schema_version == store.schema_version
    &&& plan.remembered_store.world_id == store.world_id
    &&& plan.remembered_store.updated_at@ == updated_at
}

/// Folds a turn's contacts into the store and the traces (see `projected`),
/// or refuses the first contact that is not usable.
pub fn plan_extra_memory_projection(
    world_id: &str,
    turn_id: &str,
    location_id: &str,
    contacts: &Vec<AgentExtraContact>,
    store: RememberedExtrasStore,
    existing_traces: Vec<ExtraTrace>,
    created_at: &str,
    updated_at: &str,
) -> (r: Result<ExtraMemoryProjectionPlan, ExtraMemoryError>)
    ensures
        match r {
            Ok(plan) => first_invalid(contacts@) is None && projection_plan_is(
                plan,
                world_id@,
                turn_id@,
                location_id@,
                contacts@,
                store,
                existing_traces@,
                created_at@,
                updated_at@,
            ),
            Err(e) => first_invalid(contacts@) matches Some(k) && contact_error(e, contacts@[k]),
        },
{
    let ghost s0 = store;
    let ghost es0 = extra_views(store.extras@);
    let ghost ts0 = trace_views(existing_traces@);
    let ghost cs = contacts@;
    let mut store = store;
    let mut all_traces = existing_traces;
    let mut appended: Vec<ExtraTrace> = Vec::new();
    let mut i: usize = 0;
    while i < contacts.len()
        invariant
            i <= cs.len(),
            cs == contacts@,
            first_invalid(cs.subrange(0, i as int)) is None,
            extra_views(store.extras@) == projected(es0, ts0, cs.subrange(0, i as int), world_id@, turn_id@, location_id@, created_at@).0,
            trace_views(appended@) == projected(es0, ts0, cs.subrange(0, i as int), world_id@, turn_id@, location_id@, created_at@).1,
            trace_views(all_traces@) == ts0 + trace_views(appended@),
            store.schema_version == s0.schema_version,
            store.world_id == s0.world_id,
        decreases contacts.len() - i,
    {
        let ghost sub = cs.subrange(0, i as int);
        let ghost sub1 = cs.subrange(0, i + 1);
        proof {
            assert(sub1.drop_last() =~= sub);
            assert(sub1.last() == cs[i as int]);
        }
        let contact = &contacts[i];
        let trace = match extra_trace_from_contact(world_id, turn_id, location_id, contact, created_at) {
            Ok(t) => t,
            Err(e) => {
                proof {
                    assert(first_invalid(sub1) == Some(i as int));
                    lemma_first_invalid_prefix(cs, i + 1);
                }
                return Err(e);
            },
        };
        let prior = matching_prior_traces(&trace, &all_traces);
        let remember = should_remember_contact(contact, &store, &prior);
        if remember {
            upsert_remembered_extra(&mut store, &trace, contact, &prior);
        }
        let ghost app_before = appended@;
        let ghost all_before = all_traces@;
        let copy = copy_trace(&trace);
        all_traces.push(copy);
        appended.push(trace);
        proof {
            assert(trace_views(appended@) =~= trace_views(app_before).push(trace_view(trace)));
            assert(trace_views(all_traces@) =~= trace_views(all_before).push(trace_view(copy)));
            assert(trace_views(all_traces@) =~= ts0 + trace_views(appended@));
        }
        i = i + 1;
    }
    proof {
        assert(cs.subrange(0, cs.len() as int) =~= cs);
    }
    store.updated_at = String::from_str(updated_at);
    Ok(
        ExtraMemoryProjectionPlan {
            world_id: String::from_str(world_id),
            turn_id: String::from_str(turn_id),
            traces_to_append: appended,
            remembered_store: store,
        },
    )
}

/// Preflights a turn's contacts against the store and the traces read,
/// stamping traces and store with the current time. Whatever time came back,
/// the plan is the fold of `plan_extra_memory_projection`.
pub fn compile_extra_memory_projection(
    world_id: &str,
    turn_id: &str,
    location_id: &str,
    contacts: &Vec<AgentExtraContact>,
    store: RememberedExtrasStore,
    existing_traces: Vec<ExtraTrace>,
) -> (out: Option<Result<ExtraMemoryProjectionPlan, ExtraMemoryError>>)
    ensures
        out matches Some(r) ==> ({
            &&& (match r {
                Ok(plan) => first_invalid(contacts@) is None && exists|c: Seq<char>, u: Seq<char>|
                    #[trigger] projection_plan_is(
                        plan,
                        world_id@,
                        turn_id@,
                        location_id@,
                        contacts@,
                        store,
                        existing_traces@,
                        c,
                        u,
                    ),
                Err(e) => first_invalid(contacts@) matches Some(k) && contact_error(e, contacts@[k]),
            })
        }),
{
    let created_at = match now_rfc3339() {
        Some(t) => t,
        None => return None,
    };
    let updated_at = match now_rfc3339() {
        Some(t) => t,
        None => return None,
    };
    Some(plan_extra_memory_projection(
        world_id,
        turn_id,
        location_id,
        contacts,
        store,
        existing_traces,
        created_at.as_str(),
        updated_at.as_str(),
    ))
}

// ---------------------------------------------------------------------------
// Rebuilding remembered extras from traces alone.
// ---------------------------------------------------------------------------

pub open spec fn key_of(t: TraceView) -> (Seq<char>, Seq<char>) {
    (t.location_id, t.surface_label)
}

/// Location first, then label, each in `str` order.
pub open spec fn key_lt(a: (Seq<char>, Seq<char>), b: (Seq<char>, Seq<char>)) -> bool {
    seq_lt(a.0, b.0) || (a.0 == b.0 && seq_lt(a.1, b.1))
}

pub open spec fn key_insert_pos(t: Seq<(Seq<char>, Seq<char>)>, x: (Seq<char>, Seq<char>)) -> int
    decreases t.len(),
{
    if t.len() == 0 {
        0
    } else {
        let p = key_insert_pos(t.drop_last(), x);
        if p < t.len() - 1 {
            p
        } else if key_lt(t.last(), x) {
            t.len() as int
        } else {
            t.len() - 1
        }
    }
}

/// The (location, label) keys of the traces, sorted, each once.
pub open spec fn group_keys(ts: Seq<TraceView>) -> Seq<(Seq<char>, Seq<char>)>
    decreases ts.len(),
{
    if ts.len() == 0 {
        Seq::empty()
    } else {
        let g = group_keys(ts.drop_last());
        let x = key_of(ts.last());
        let p = key_insert_pos(g, x);
        if p < g.len() && g[p] == x {
            g
        } else {
            g.insert(p, x)
        }
    }
}

proof fn lemma_key_insert_pos_is(t: Seq<(Seq<char>, Seq<char>)>, x: (Seq<char>, Seq<char>), k: int)
    requires
        0 <= k <= t.len(),
        forall|j: int| 0 <= j < k ==> key_lt(#[trigger] t[j], x),
        k < t.len() ==> !key_lt(t[k], x),
    ensures
        key_insert_pos(t, x) == k,
    decreases t.len(),
{
    if t.len() > 0 {
        let d = t.drop_last();
        assert forall|j: int| 0 <= j < d.len() implies d[j] == t[j] by {}
        if k < t.len() - 1 {
            lemma_key_insert_pos_is(d, x, k);
        } else {
            lemma_key_insert_pos_is(d, x, d.len() as int);
        }
    }
}

/// The traces with the key, in order.
pub open spec fn group_of(ts: Seq<TraceView>, key: (Seq<char>, Seq<char>)) -> Seq<TraceView>
    decreases ts.len(),
{
    if ts.len() == 0 {
        Seq::empty()
    } else {
        let p = group_of(ts.drop_last(), key);
        if key_of(ts.last()) == key {
            p.push(ts.last())
        } else {
            p
        }
    }
}

/// The extra that a group of two or more traces stands for.
pub open spec fn rebuilt_extra(world_id: Seq<char>, key: (Seq<char>, Seq<char>), g: Seq<TraceView>) -> ExtraView {
    ExtraView {
        schema_version: REMEMBERED_EXTRA_SCHEMA_VERSION@,
        world_id,
        extra_id: extra_id_of(key.0, key.1),
        display_name: key.1,
        known_name: None,
        role: g[0].scene_role,
        home_location_id: key.0,
        visibility: "player_visible"@,
        first_seen_turn: g[0].turn_id,
        last_seen_turn: g.last().turn_id,
        contact_count: count_u32(g.len()),
        disposition: "unsettled"@,
        memory: pushed_all(Seq::empty(), summaries(g), MAX_EXTRA_MEMORY_ITEMS as nat),
        text_design: empty_voice(),
        open_hooks: Seq::empty(),
        promotion_score: count_u32(g.len()),
    }
}

/// One extra per key seen at least twice, in key order.
pub open spec fn rebuilt_extras(world_id: Seq<char>, ts: Seq<TraceView>, keys: Seq<(Seq<char>, Seq<char>)>) -> Seq<
    ExtraView,
>
    decreases keys.len(),
{
    if keys.len() == 0 {
        Seq::empty()
    } else {
        let p = rebuilt_extras(world_id, ts, keys.drop_last());
        let g = group_of(ts, keys.last());
        if g.len() >= 2 {
            p.push(rebuilt_extra(world_id, keys.last(), g))
        } else {
            p
        }
    }
}

pub open spec fn key_views(v: Seq<(String, String)>) -> Seq<(Seq<char>, Seq<char>)> {
    Seq::new(v.len(), |i: int| (v[i].0@, v[i].1@))
}

fn key_lt_exec(a: &(String, String), b: &(String, String)) -> (r: bool)
    ensures
        r == key_lt((a.0@, a.1@), (b.0@, b.1@)),
{
    str_lt(a.0.as_str(), b.0.as_str()) || (str_eq(a.0.as_str(), b.0.as_str()) && str_lt(a.1.as_str(), b.1.as_str()))
}

fn sorted_group_keys(traces: &Vec<ExtraTrace>) -> (r: Vec<(String, String)>)
    ensures
        key_views(r@) == group_keys(trace_views(traces@)),
{
    let ghost ts = trace_views(traces@);
    let mut out: Vec<(String, String)> = Vec::new();
    let mut i: usize = 0;
    while i < traces.len()
        invariant
            i <= traces@.len(),
            ts == trace_views(traces@),
            key_views(out@) == group_keys(ts.subrange(0, i as int)),
        decreases traces.len() - i,
    {
        proof {
            assert(ts.subrange(0, i + 1).drop_last() =~= ts.subrange(0, i as int));
            assert(ts.subrange(0, i + 1).last() == trace_view(traces@[i as int]));
        }
        let x = (traces[i].location_id.clone(), traces[i].surface_label.clone());
        let mut k: usize = 0;
        while k < out.len() && key_lt_exec(&out[k], &x)
            invariant
                k <= out@.len(),
                forall|j: int| 0 <= j < k ==> key_lt(#[trigger] key_views(out@)[j], (x.0@, x.1@)),
            decreases out.len() - k,
        {
            k = k + 1;
        }
        proof {
            lemma_key_insert_pos_is(key_views(out@), (x.0@, x.1@), k as int);
        }
        let same = k < out.len() && str_eq(out[k].0.as_str(), x.0.as_str()) && str_eq(
            out[k].1.as_str(),
            x.1.as_str(),
        );
        if same {
            assert(key_views(out@)[k as int] == (x.0@, x.1@));
        } else {
            let ghost prev = out@;
            out.insert(k, x);
            proof {
                assert(key_views(out@) =~= key_views(prev).insert(k as int, (x.0@, x.1@)));
            }
        }
        i = i + 1;
    }
    assert(ts.subrange(0, ts.len() as int) =~= ts);
    out
}

fn traces_with_key(traces: &Vec<ExtraTrace>, key: &(String, String)) -> (r: Vec<ExtraTrace>)
    ensures
        trace_views(r@) == group_of(trace_views(traces@), (key.0@, key.1@)),
{
    let ghost ts = trace_views(traces@);
    let mut out: Vec<ExtraTrace> = Vec::new();
    let mut i: usize = 0;
    while i < traces.len()
        invariant
            i <= traces@.len(),
            ts == trace_views(traces@),
            trace_views(out@) == group_of(ts.subrange(0, i as int), (key.0@, key.1@)),
        decreases traces.len() - i,
    {
        proof {
            assert(ts.subrange(0, i + 1).drop_last() =~= ts.subrange(0, i as int));
            assert(ts.subrange(0, i + 1).last() == trace_view(traces@[i as int]));
        }
        if str_eq(traces[i].location_id.as_str(), key.0.as_str()) && str_eq(
            traces[i].surface_label.as_str(),
            key.1.as_str(),
        ) {
            let ghost before = out@;
            let t = copy_trace(&traces[i]);
            out.push(t);
            assert(trace_views(out@) =~= trace_views(before).push(trace_view(t)));
        }
        i = i + 1;
    }
    assert(ts.subrange(0, ts.len() as int) =~= ts);
    out
}

fn memory_of_group(group: &Vec<ExtraTrace>) -> (r: Vec<String>)
    ensures
        views(r@) == pushed_all(Seq::empty(), summaries(trace_views(group@)), MAX_EXTRA_MEMORY_ITEMS as nat),
{
    let ghost ss = summaries(trace_views(group@));
    let mut memory: Vec<String> = Vec::new();
    let mut i: usize = 0;
    while i < group.len()
        invariant
            i <= group@.len(),
            ss == summaries(trace_views(group@)),
            views(memory@) == pushed_all(Seq::empty(), ss.subrange(0, i as int), MAX_EXTRA_MEMORY_ITEMS as nat),
        decreases group.len() - i,
    {
        push_limited_unique(&mut memory, group[i].contact_summary.as_str(), MAX_EXTRA_MEMORY_ITEMS);
        proof {
            assert(ss.subrange(0, i + 1).drop_last() =~= ss.subrange(0, i as int));
            assert(ss.subrange(0, i + 1).last() == group@[i as int].contact_summary@);
        }
        i = i + 1;
    }
    assert(ss.subrange(0, ss.len() as int) =~= ss);
    memory
}

fn count_of(n: usize) -> (r: u32)
    ensures
        r == count_u32(n as nat),
{
    if n <= 0xffff_ffffusize {
        n as u32
    } else {
        0xffff_ffffu32
    }
}

/// The store that the traces alone give (see `rebuilt_extras`).
pub fn rebuild_remembered_extras_from_traces(world_id: &str, traces: &Vec<ExtraTrace>, updated_at: &str) -> (r:
    RememberedExtrasStore)
    ensures
        r.schema_version@ == REMEMBERED_EXTRAS_SCHEMA_VERSION@,
        r.world_id@ == world_id@,
        extra_views(r.extras@) == rebuilt_extras(world_id@, trace_views(traces@), group_keys(trace_views(traces@))),
        r.updated_at@ == updated_at@,
{
    let ghost ts = trace_views(traces@);
    let keys = sorted_group_keys(traces);
    let ghost ks = key_views(keys@);
    let mut extras: Vec<RememberedExtra> = Vec::new();
    let mut k: usize = 0;
    while k < keys.len()
        invariant
            k <= keys@.len(),
            ts == trace_views(traces@),
            ks == key_views(keys@),
            extra_views(extras@) == rebuilt_extras(world_id@, ts, ks.subrange(0, k as int)),
        decreases keys.len() - k,
    {
        proof {
            assert(ks.subrange(0, k + 1).drop_last() =~= ks.subrange(0, k as int));
            assert(ks.subrange(0, k + 1).last() == ks[k as int]);
        }
        let key = &keys[k];
        let group = traces_with_key(traces, key);
        if group.len() >= 2 {
            let n = group.len();
            let text_design = CharacterVoiceAnchor::empty();
            proof {
                lemma_empty_voice(text_design);
            }
            let e = RememberedExtra {
                schema_version: String::from_str(REMEMBERED_EXTRA_SCHEMA_VERSION),
                world_id: String::from_str(world_id),
                extra_id: {
                    let a = stable_slug(key.0.as_str());
                    let b = stable_slug(key.1.as_str());
                    concat4("extra:", a.as_str(), ":", b.as_str())
                },
                display_name: key.1.clone(),
                known_name: None,
                role: group[0].scene_role.clone(),
                home_location_id: key.0.clone(),
                visibility: String::from_str("player_visible"),
                first_seen_turn: group[0].turn_id.clone(),
                last_seen_turn: group[n - 1].turn_id.clone(),
                contact_count: count_of(n),
                disposition: String::from_str("unsettled"),
                memory: memory_of_group(&group),
                text_design,
                open_hooks: Vec::new(),
                promotion_score: count_of(n),
            };
            proof {
                let g = trace_views(group@);
                assert(g[0] == trace_view(group@[0]));
                assert(g.last() == trace_view(group@[n - 1]));
                assert(views(e.open_hooks@) =~= Seq::empty());
                assert(extra_view(e) == rebuilt_extra(world_id@, ks[k as int], g));
            }
            let ghost before = extras@;
            extras.push(e);
            assert(extra_views(extras@) =~= extra_views(before).push(extra_view(e)));
        }
        k = k + 1;
    }
    assert(ks.subrange(0, ks.len() as int) =~= ks);
    RememberedExtrasStore {
        schema_version: String::from_str(REMEMBERED_EXTRAS_SCHEMA_VERSION),
        world_id: String::from_str(world_id),
        extras,
        updated_at: String::from_str(updated_at),
    }
}

// ---------------------------------------------------------------------------
// Projection records and repair.
// ---------------------------------------------------------------------------

impl ExtraMemoryProjectionPlan {
    /// The terminal record of this plan with the given status, at the given
    /// time.
    pub fn projection_record_at(
        &self,
        status: ExtraMemoryProjectionStatus,
        error: Option<String>,
        recorded_at: &str,
    ) -> (r: ExtraMemoryProjectionRecord)
        ensures
            r.schema_version@ == EXTRA_MEMORY_PROJECTION_RECORD_SCHEMA_VERSION@,
            r.world_id == self.world_id,
            r.turn_id == self.turn_id,
            r.status == status,
            r.traces_planned == self.traces_to_append@.len(),
            r.remembered_extras_planned == Some(self.remembered_store.extras@.len() as usize),
            r.error == error,
            r.recorded_at@ == recorded_at@,
    {
        ExtraMemoryProjectionRecord {
            schema_version: String::from_str(EXTRA_MEMORY_PROJECTION_RECORD_SCHEMA_VERSION),
            world_id: self.world_id.clone(),
            turn_id: self.turn_id.clone(),
            status,
            traces_planned: self.traces_to_append.len(),
            remembered_extras_planned: Some(self.remembered_store.extras.len()),
            error,
            recorded_at: String::from_str(recorded_at),
        }
    }

    /// The terminal record of this plan once its writes were tried:
    /// `Committed`, or `Failed` with the write error. Stamped with the
    /// current time, of which nothing is promised.
    pub fn terminal_record(&self, write_error: Option<String>) -> (out: Option<ExtraMemoryProjectionRecord>)
        ensures
            out matches Some(r) ==> ({
                &&& (r.schema_version@ == EXTRA_MEMORY_PROJECTION_RECORD_SCHEMA_VERSION@)
                &&& (r.world_id == self.world_id)
                &&& (r.turn_id == self.turn_id)
                &&& (r.status == (if write_error is Some {
                    ExtraMemoryProjectionStatus::Failed
                } else {
                    ExtraMemoryProjectionStatus::Committed
                }))
                &&& (r.traces_planned == self.traces_to_append@.len())
                &&& (r.remembered_extras_planned == Some(self.remembered_store.extras@.len() as usize))
                &&& (r.error == write_error)
            }),
    {
        let now = match now_rfc3339() {
            Some(t) => t,
            None => return None,
        };
        let status = if write_error.is_some() {
            ExtraMemoryProjectionStatus::Failed
        } else {
            ExtraMemoryProjectionStatus::Committed
        };
        Some(self.projection_record_at(status, write_error, now.as_str()))
    }
}

/// `k` is the first trace from another world.
pub open spec fn first_foreign_trace(ts: Seq<ExtraTrace>, world_id: Seq<char>, k: int) -> bool {
    &&& 0 <= k < ts.len()
    &&& ts[k].world_id@ != world_id
    &&& forall|j: int| 0 <= j < k ==> (#[trigger] ts[j]).world_id@ == world_id
}

/// The error names the first trace from another world.
pub open spec fn names_foreign_trace(e: ExtraMemoryError, ts: Seq<ExtraTrace>, world_id: Seq<char>, k: int) -> bool {
    &&& first_foreign_trace(ts, world_id, k)
    &&& e matches ExtraMemoryError::TraceWorldMismatch { expected, actual, trace_id }
    &&& expected@ == world_id
    &&& actual@ == ts[k].world_id@
    &&& trace_id@ == ts[k].trace_id@
}

/// Every trace belongs to the world, or the first that does not is named.
pub fn check_trace_worlds(traces: &Vec<ExtraTrace>, world_id: &str) -> (r: Result<(), ExtraMemoryError>)
    ensures
        r is Ok <==> forall|j: int| 0 <= j < traces@.len() ==> (#[trigger] traces@[j]).world_id@ == world_id@,
        match r {
            Ok(()) => true,
            Err(e) => exists|k: int| #[trigger] names_foreign_trace(e, traces@, world_id@, k),
        },
{
    let mut i: usize = 0;
    while i < traces.len()
        invariant
            i <= traces@.len(),
            forall|j: int| 0 <= j < i ==> (#[trigger] traces@[j]).world_id@ == world_id@,
        decreases traces.len() - i,
    {
        if !str_eq(traces[i].world_id.as_str(), world_id) {
            let e = ExtraMemoryError::TraceWorldMismatch {
                expected: String::from_str(world_id),
                actual: traces[i].world_id.clone(),
                trace_id: traces[i].trace_id.clone(),
            };
            assert(names_foreign_trace(e, traces@, world_id@, i as int));
            return Err(e);
        }
        i = i + 1;
    }
    Ok(())
}

/// What a repair writes: the rebuilt store, its `Repaired` record and the
/// report.
#[derive(Debug, Clone)]
pub struct ExtraMemoryRepairPlan {
    pub remembered_store: RememberedExtrasStore,
    pub repair_record: ExtraMemoryProjectionRecord,
    pub report: ExtraMemoryRepairReport,
}

pub open spec fn repair_plan_is(
    plan: ExtraMemoryRepairPlan,
    world_id: Seq<char>,
    traces: Seq<ExtraTrace>,
    records: Seq<ExtraMemoryProjectionRecord>,
    repaired_at: Seq<char>,
) -> bool {
    let store = plan.remembered_store;
    let rec = plan.repair_record;
    let rep = plan.report;
    &&& store.schema_version@ == REMEMBERED_EXTRAS_SCHEMA_VERSION@
    &&& store.world_id@ == world_id
    &&& extra_views(store.extras@) == rebuilt_extras(world_id, trace_views(traces), group_keys(trace_views(traces)))
    &&& store.updated_at@ == repaired_at
    &&& rec.schema_version@ == EXTRA_MEMORY_PROJECTION_RECORD_SCHEMA_VERSION@
    &&& rec.world_id@ == world_id
    &&& rec.turn_id@ == "__repair__"@
    &&& rec.status == ExtraMemoryProjectionStatus::Repaired
    &&& rec.traces_planned == traces.len()
    &&& rec.remembered_extras_planned == Some(store.extras@.len() as usize)
    &&& rec.error is None
    &&& rec.recorded_at@ == repaired_at
    &&& rep.world_id@ == world_id
    &&& rep.traces_read == traces.len()
    &&& rep.remembered_extras_rebuilt == store.extras@.len()
    &&& rep.projection_records_read == records.len()
    &&& rep.repaired_failed_records == failed_count(records.subrange(after_latest_repair(records), records.len() as int))
    &&& rep.repaired_at@ == repaired_at
}

/// Rebuilds the store from the traces and closes the open failures, once
/// every trace is known to belong to the world.
pub fn plan_extra_memory_repair(
    world_id: &str,
    traces: &Vec<ExtraTrace>,
    records: &Vec<ExtraMemoryProjectionRecord>,
    repaired_at: &str,
) -> (r: Result<ExtraMemoryRepairPlan, ExtraMemoryError>)
    ensures
        r is Ok <==> forall|j: int| 0 <= j < traces@.len() ==> (#[trigger] traces@[j]).world_id@ == world_id@,
        match r {
            Ok(plan) => repair_plan_is(plan, world_id@, traces@, records@, repaired_at@),
            Err(e) => exists|k: int| #[trigger] names_foreign_trace(e, traces@, world_id@, k),
        },
{
    match check_trace_worlds(traces, world_id) {
        Ok(()) => {},
        Err(e) => {
            return Err(e);
        },
    }
    let repaired_failed_records = failed_projection_records_after_latest_repair(records.as_slice());
    let store = rebuild_remembered_extras_from_traces(world_id, traces, repaired_at);
    let rebuilt = store.extras.len();
    let repair_record = ExtraMemoryProjectionRecord {
        schema_version: String::from_str(EXTRA_MEMORY_PROJECTION_RECORD_SCHEMA_VERSION),
        world_id: String::from_str(world_id),
        turn_id: String::from_str("__repair__"),
        status: ExtraMemoryProjectionStatus::Repaired,
        traces_planned: traces.len(),
        remembered_extras_planned: Some(rebuilt),
        error: None,
        recorded_at: String::from_str(repaired_at),
    };
    let report = ExtraMemoryRepairReport {
        world_id: String::from_str(world_id),
        traces_read: traces.len(),
        remembered_extras_rebuilt: rebuilt,
        projection_records_read: records.len(),
        repaired_failed_records,
        repaired_at: String::from_str(repaired_at),
    };
    Ok(ExtraMemoryRepairPlan { remembered_store: store, repair_record, report })
}

/// Plans the repair of a world's extra memory from the traces and records
/// read, stamped with the current time (of which nothing is promised).
pub fn repair_extra_memory_projection(
    world_id: &str,
    traces: &Vec<ExtraTrace>,
    records: &Vec<ExtraMemoryProjectionRecord>,
) -> (out: Option<Result<ExtraMemoryRepairPlan, ExtraMemoryError>>)
    ensures
        out matches Some(r) ==> ({
            &&& (r is Ok <==> forall|j: int| 0 <= j < traces@.len() ==> (#[trigger] traces@[j]).world_id@ == world_id@)
            &&& (match r {
                Ok(plan) => exists|t: Seq<char>| #[trigger] repair_plan_is(plan, world_id@, traces@, records@, t),
                Err(e) => exists|k: int| #[trigger] names_foreign_trace(e, traces@, world_id@, k),
            })
        }),
{
    let now = match now_rfc3339() {
        Some(t) => t,
        None => return None,
    };
    Some(plan_extra_memory_repair(world_id, traces, records, now.as_str()))
}

/// Once a `Repaired` record is appended, no projection failure is open.
pub proof fn law_repair_record_closes_failures(
    records: Seq<ExtraMemoryProjectionRecord>,
    repaired: ExtraMemoryProjectionRecord,
)
    requires
        repaired.status == ExtraMemoryProjectionStatus::Repaired,
    ensures
        ({
            let rs = records.push(repaired);
            failed_count(rs.subrange(after_latest_repair(rs), rs.len() as int)) == 0
        }),
{
    let rs = records.push(repaired);
    assert(rs.last() == repaired);
    assert(after_latest_repair(rs) == rs.len());
    assert(rs.subrange(rs.len() as int, rs.len() as int) =~= Seq::<ExtraMemoryProjectionRecord>::empty());
}

// ---------------------------------------------------------------------------
// What a pending turn and the archive view see.
// ---------------------------------------------------------------------------

/// The policy handed with retrieved extra memory.
pub fn retrieval_policy() -> (r: ExtraMemoryPolicy)
    ensures
        views(r.evidence_tiers@) == seq!["CharacterRecord"@, "RememberedExtra"@, "ExtraTrace"@, "DerivedCandidate"@],
        r.retrieval_budget.remembered_extras == REMEMBERED_EXTRA_LIMIT,
        r.retrieval_budget.recent_extra_traces == RECENT_TRACE_LIMIT,
        r.use_rules@.len() == 4,
{
    let mut evidence_tiers: Vec<String> = Vec::new();
    evidence_tiers.push(String::from_str("CharacterRecord"));
    evidence_tiers.push(String::from_str("RememberedExtra"));
    evidence_tiers.push(String::from_str("ExtraTrace"));
    evidence_tiers.push(String::from_str("DerivedCandidate"));
    assert(views(evidence_tiers@) =~= seq!["CharacterRecord"@, "RememberedExtra"@, "ExtraTrace"@, "DerivedCandidate"@]);
    let mut use_rules: Vec<String> = Vec::new();
    use_rules.push(String::from_str("Use retrieved extras only when they naturally fit the current scene."));
    use_rules.push(String::from_str("Do not force every remembered extra to appear."));
    use_rules.push(String::from_str("Preserve speech, endings, tone, gestures, habits, and drift if an extra reappears."));
    use_rules.push(String::from_str("Never use extra memory to leak hidden truth or imply an authorial guide."));
    ExtraMemoryPolicy {
        evidence_tiers,
        retrieval_budget: ExtraMemoryRetrievalBudget {
            remembered_extras: REMEMBERED_EXTRA_LIMIT,
            recent_extra_traces: RECENT_TRACE_LIMIT,
        },
        use_rules,
    }
}

/// Every stored extra's score fits in `u32` (the scores add the promotion
/// score, the contact count and at most 13 more).
pub fn extra_scores_fit(extras: &Vec<RememberedExtra>) -> (b: bool)
    ensures
        b == all_scores_fit(extra_views(extras@)),
{
    let mut i: usize = 0;
    while i < extras.len()
        invariant
            i <= extras@.len(),
            forall|k: int| 0 <= k < i ==> score_fits(#[trigger] extra_views(extras@)[k]),
        decreases extras.len() - i,
    {
        let e = &extras[i];
        let total: u64 = e.promotion_score as u64 + e.contact_count as u64 + 13;
        if total > 0xffff_ffffu64 {
            assert(!score_fits(extra_views(extras@)[i as int]));
            return false;
        }
        i = i + 1;
    }
    true
}

/// The store that a retrieval reads: the one loaded, or an empty one.
pub open spec fn store_extras(loaded: Option<RememberedExtrasStore>) -> Seq<ExtraView> {
    match loaded {
        Some(s) => extra_views(s.extras@),
        None => Seq::empty(),
    }
}

/// `e` refuses a loaded store of another world.
pub open spec fn refused_store(loaded: Option<RememberedExtrasStore>, world_id: Seq<char>, e: ExtraMemoryError) -> bool {
    match (loaded, e) {
        (Some(s), ExtraMemoryError::StoreWorldMismatch { expected, actual }) => {
            &&& s.world_id@ != world_id
            &&& expected@ == world_id
            &&& actual@ == s.world_id@
        },
        _ => false,
    }
}

/// The extra memory of the next pending turn: the recalled extras at the
/// protagonist's location and the recent traces not of them. `loaded` is the
/// remembered-extras store read for the world, `None` when there is none; a
/// store of another world is refused.
pub fn retrieve_extra_memory_packet(
    loaded: Option<RememberedExtrasStore>,
    world_id: &str,
    traces: &Vec<ExtraTrace>,
    snapshot: &TurnSnapshot,
    player_input: &str,
) -> (r: Result<ExtraMemoryPacket, ExtraMemoryError>)
    requires
        all_scores_fit(store_extras(loaded)),
    ensures
        match r {
            Ok(p) => {
                &&& (loaded matches Some(s) ==> s.world_id@ == world_id@)
                &&& extra_views(p.remembered_extras@) == selected_extras(
                    store_extras(loaded),
                    snapshot.protagonist_state.location@,
                    player_input@,
                )
                &&& trace_views(p.recent_extra_traces@) == selected_traces(
                    trace_views(traces@),
                    snapshot.protagonist_state.location@,
                    player_input@,
                    extra_views(p.remembered_extras@),
                )
                &&& p.extra_memory_policy.retrieval_budget.remembered_extras == REMEMBERED_EXTRA_LIMIT
                &&& p.extra_memory_policy.retrieval_budget.recent_extra_traces == RECENT_TRACE_LIMIT
                &&& p.extra_memory_policy.use_rules@.len() == 4
            },
            Err(e) => refused_store(loaded, world_id@, e),
        },
{
    let empty: Vec<RememberedExtra> = Vec::new();
    let extras: &Vec<RememberedExtra> = match &loaded {
        Some(s) => {
            if !str_eq(s.world_id.as_str(), world_id) {
                return Err(
                    ExtraMemoryError::StoreWorldMismatch {
                        expected: String::from_str(world_id),
                        actual: s.world_id.clone(),
                    },
                );
            }
            &s.extras
        },
        None => &empty,
    };
    assert(extra_views(extras@) =~= store_extras(loaded));
    let location = snapshot.protagonist_state.location.as_str();
    let remembered_extras = select_remembered_extras(extras, location, player_input);
    let recent_extra_traces = select_recent_traces(traces, location, player_input, &remembered_extras);
    Ok(ExtraMemoryPacket { remembered_extras, recent_extra_traces, extra_memory_policy: retrieval_policy() })
}

/// The archive entry of a remembered extra; its last memory is the last
/// contact.
pub open spec fn face_of(f: LocalFaceEntry, e: ExtraView) -> bool {
    &&& f.extra_id@ == e.extra_id
    &&& f.display_name@ == e.display_name
    &&& f.role@ == e.role
    &&& f.home_location_id@ == e.home_location_id
    &&& f.last_seen_turn@ == e.last_seen_turn
    &&& f.disposition@ == e.disposition
    &&& f.last_contact@ == (if e.memory.len() > 0 {
        e.memory.last()
    } else {
        Seq::empty()
    })
    &&& views(f.open_hooks@) == e.open_hooks
}

/// The local faces of a location: the extras recalled there without any
/// input, at most `limit`.
pub fn local_faces_for_codex_view(store: &RememberedExtrasStore, location_id: &str, limit: usize) -> (r: Vec<
    LocalFaceEntry,
>)
    requires
        all_scores_fit(extra_views(store.extras@)),
    ensures
        ({
            let sel = take_at_most(selected_extras(extra_views(store.extras@), location_id@, Seq::empty()), limit as nat);
            &&& r@.len() == sel.len()
            &&& forall|k: int| 0 <= k < sel.len() ==> face_of(#[trigger] r@[k], sel[k])
        }),
{
    let empty = String::new();
    let selected = select_remembered_extras(&store.extras, location_id, empty.as_str());
    let ghost sel_all = extra_views(selected@);
    let ghost sel = take_at_most(sel_all, limit as nat);
    let mut out: Vec<LocalFaceEntry> = Vec::new();
    let mut k: usize = 0;
    while k < selected.len() && k < limit
        invariant
            k <= selected@.len(),
            k <= limit,
            sel_all == extra_views(selected@),
            sel == take_at_most(sel_all, limit as nat),
            out@.len() == k,
            forall|j: int| 0 <= j < k ==> face_of(#[trigger] out@[j], sel[j]),
        decreases selected.len() - k,
    {
        let e = &selected[k];
        let n = e.memory.len();
        let last_contact = if n > 0 {
            e.memory[n - 1].clone()
        } else {
            String::new()
        };
        let face = LocalFaceEntry {
            extra_id: e.extra_id.clone(),
            display_name: e.display_name.clone(),
            role: e.role.clone(),
            home_location_id: e.home_location_id.clone(),
            last_seen_turn: e.last_seen_turn.clone(),
            disposition: e.disposition.clone(),
            last_contact,
            open_hooks: clone_strings(&e.open_hooks),
        };
        proof {
            assert(sel[k as int] == sel_all[k as int]);
            assert(sel_all[k as int] == extra_view(selected@[k as int]));
            if n > 0 {
                assert(views(e.memory@).last() == e.memory@[n - 1]@);
            }
            assert(face_of(face, sel[k as int]));
        }
        out.push(face);
        proof {
            assert forall|j: int| 0 <= j < k + 1 implies face_of(#[trigger] out@[j], sel[j]) by {
                if j == k {
                    assert(out@[j] == face);
                }
            }
        }
        k = k + 1;
    }
    assert(sel.len() == k);
    out
}

/// The store of a world: the one read, when it belongs to the world, or an
/// empty one stamped with the current time when none was there.
pub fn load_remembered_extras(loaded: Option<RememberedExtrasStore>, world_id: &str) -> (out: Option<Result<
    RememberedExtrasStore,
    ExtraMemoryError,
>>)
    ensures
        loaded is Some ==> out is Some,
        out matches Some(r) ==> ({
            &&& (match loaded {
                None => r matches Ok(s) && s.schema_version@ == REMEMBERED_EXTRAS_SCHEMA_VERSION@ && s.world_id@
                    == world_id@ && s.extras@.len() == 0,
                Some(s0) => if s0.world_id@ == world_id@ {
                    r == Ok::<RememberedExtrasStore, ExtraMemoryError>(s0)
                } else {
                    r matches Err(ExtraMemoryError::StoreWorldMismatch { expected, actual }) && expected@ == world_id@
                        && actual@ == s0.world_id@
                },
            })
        }),
{
    match loaded {
        None => {
            let now = match now_rfc3339() {
                Some(t) => t,
                None => return None,
            };
            Some(
                Ok(
                    RememberedExtrasStore {
                        schema_version: String::from_str(REMEMBERED_EXTRAS_SCHEMA_VERSION),
                        world_id: String::from_str(world_id),
                        extras: Vec::new(),
                        updated_at: now,
                    },
                ),
            )
        },
        Some(store) => {
            if str_eq(store.world_id.as_str(), world_id) {
                Some(Ok(store))
            } else {
                Some(
                    Err(
                        ExtraMemoryError::StoreWorldMismatch {
                            expected: String::from_str(world_id),
                            actual: store.world_id,
                        },
                    ),
                )
            }
        },
    }
}

/// Every remembered extra keeps at most eight memories, none twice, and at
/// most six open hooks, none twice.
pub open spec fn extras_bounded(es: Seq<ExtraView>) -> bool {
    forall|i: int|
        0 <= i < es.len() ==> bounded_unique((#[trigger] es[i]).memory, MAX_EXTRA_MEMORY_ITEMS as nat)
            && bounded_unique(es[i].open_hooks, MAX_OPEN_HOOKS as nat)
}

/// Folding a contact into the remembered extras keeps every extra's memory
/// and hooks bounded and free of repeats.
pub proof fn law_upsert_keeps_extras_bounded(
    es: Seq<ExtraView>,
    t: TraceView,
    c: AgentExtraContact,
    prior: Seq<TraceView>,
)
    requires
        extras_bounded(es),
        trimmed_nonblank(c.open_hooks@).len() <= MAX_OPEN_HOOKS,
        forall|i: int, j: int|
            0 <= i < j < trimmed_nonblank(c.open_hooks@).len() ==> trimmed_nonblank(c.open_hooks@)[i]
                != trimmed_nonblank(c.open_hooks@)[j],
    ensures
        extras_bounded(upserted(es, t, c, prior)),
{
    let r = upserted(es, t, c, prior);
    let id = extra_id_of(t.location_id, t.surface_label);
    assert(bounded_unique(Seq::<Seq<char>>::empty(), MAX_EXTRA_MEMORY_ITEMS as nat));
    match find_extra_from(es, id, t.surface_label, 0) {
        None => {
            let n = new_extra(t, c, prior);
            law_pushes_keep_list_bounded_and_unique(
                Seq::empty(),
                summaries(prior).push(t.contact_summary),
                MAX_EXTRA_MEMORY_ITEMS as nat,
            );
            assert forall|i: int| 0 <= i < r.len() implies bounded_unique((#[trigger] r[i]).memory, MAX_EXTRA_MEMORY_ITEMS as nat)
                && bounded_unique(r[i].open_hooks, MAX_OPEN_HOOKS as nat) by {
                if i < es.len() {
                    assert(r[i] == es[i]);
                } else {
                    assert(r[i] == n);
                }
            }
        },
        Some(j) => {
            lemma_find_extra_in_range(es, id, t.surface_label, 0);
            let e = es[j];
            assert(bounded_unique(e.memory, MAX_EXTRA_MEMORY_ITEMS as nat));
            law_push_keeps_list_bounded_and_unique(e.memory, t.contact_summary, MAX_EXTRA_MEMORY_ITEMS as nat);
            law_pushes_keep_list_bounded_and_unique(e.open_hooks, trimmed_nonblank(c.open_hooks@), MAX_OPEN_HOOKS as nat);
            assert forall|i: int| 0 <= i < r.len() implies bounded_unique((#[trigger] r[i]).memory, MAX_EXTRA_MEMORY_ITEMS as nat)
                && bounded_unique(r[i].open_hooks, MAX_OPEN_HOOKS as nat) by {
                if i != j {
                    assert(r[i] == es[i]);
                }
            }
        },
    }
}

proof fn lemma_find_extra_in_range(es: Seq<ExtraView>, id: Seq<char>, label: Seq<char>, k: int)
    ensures
        find_extra_from(es, id, label, k) matches Some(j) ==> k <= j < es.len(),
    decreases es.len() - k,
{
    if 0 <= k < es.len() && !upsert_hit(es[k], id, label) {
        lemma_find_extra_in_range(es, id, label, k + 1);
    }
}

} // verus!
