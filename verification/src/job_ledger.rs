//! The job ledger of a world: the pending text turn and the visual jobs,
//! pending, claimed or completed, read together in one order.
use crate::text::{
    concat2, lemma_seq_lt_asymmetric, lemma_seq_lt_irreflexive, lemma_seq_lt_transitive, seq_lt, starts_with,
    str_eq, str_lt, strip_prefix_str,
};
use vstd::seq_lib::{to_multiset_build, to_multiset_insert};
use vstd::prelude::*;

verus! {

pub const WORLD_JOB_LEDGER_SCHEMA_VERSION: &'static str = "singulari.world_job_ledger.v1";

#[derive(Debug, Clone, Copy, PartialEq, Eq, Structural)]
pub enum WorldJobKind {
    TextTurn,
    SceneCg,
    ReferenceAsset,
    UiAsset,
}

#[derive(Debug, Clone, Copy, PartialEq, Eq, Structural)]
pub enum WorldJobStatus {
    Pending,
    Claimed,
    Completed,
}

/// The kinds of visual artifact a world asks for.
#[derive(Debug, Clone, Copy, PartialEq, Eq, Structural)]
pub enum VisualArtifactKind {
    SceneCg,
    CharacterDesignSheet,
    LocationDesignSheet,
    UiBackground,
}

#[derive(Debug, Clone)]
pub struct WorldJob {
    pub schema_version: String,
    pub world_id: String,
    pub job_id: String,
    pub kind: WorldJobKind,
    pub status: WorldJobStatus,
    pub slot: String,
    pub turn_id: Option<String>,
    pub artifact_kind: Option<VisualArtifactKind>,
    pub path: Option<String>,
}

/// An image the world still needs, with where it will be written.
#[derive(Debug, Clone)]
pub struct ImageGenerationJob {
    pub slot: String,
    pub artifact_kind: VisualArtifactKind,
    pub destination_path: String,
}

/// A visual asset slot of the world and whether its file exists.
#[derive(Debug, Clone)]
pub struct VisualAssetEntry {
    pub slot: String,
    pub artifact_kind: VisualArtifactKind,
    pub recommended_path: String,
    pub exists: bool,
}

/// The text turn waiting for an agent.
#[derive(Debug, Clone)]
pub struct PendingTextTurn {
    pub world_id: String,
    pub turn_id: String,
    pub pending_ref: String,
}

/// What the job ledger is read from: the pending text turn, the manifest's
/// image jobs and the extra ones asked for, the slots that hold a claim, and
/// the world's visual asset slots (menu background, stage background, then
/// the visual entities).
#[derive(Debug, Clone)]
pub struct ReadWorldJobsOptions {
    pub world_id: String,
    pub pending_text_turn: Option<PendingTextTurn>,
    pub visual_jobs: Vec<ImageGenerationJob>,
    pub extra_visual_jobs: Vec<ImageGenerationJob>,
    pub claimed_slots: Vec<String>,
    pub visual_assets: Vec<VisualAssetEntry>,
}

pub open spec fn kind_label(k: WorldJobKind) -> Seq<char> {
    match k {
        WorldJobKind::TextTurn => "text_turn"@,
        WorldJobKind::SceneCg => "scene_cg"@,
        WorldJobKind::ReferenceAsset => "reference_asset"@,
        WorldJobKind::UiAsset => "ui_asset"@,
    }
}

fn kind_label_of(k: WorldJobKind) -> (r: &'static str)
    ensures
        r@ == kind_label(k),
{
    match k {
        WorldJobKind::TextTurn => "text_turn",
        WorldJobKind::SceneCg => "scene_cg",
        WorldJobKind::ReferenceAsset => "reference_asset",
        WorldJobKind::UiAsset => "ui_asset",
    }
}

pub open spec fn artifact_job_kind(a: VisualArtifactKind) -> WorldJobKind {
    match a {
        VisualArtifactKind::SceneCg => WorldJobKind::SceneCg,
        VisualArtifactKind::CharacterDesignSheet | VisualArtifactKind::LocationDesignSheet => WorldJobKind::ReferenceAsset,
        VisualArtifactKind::UiBackground => WorldJobKind::UiAsset,
    }
}

fn visual_job_kind(a: VisualArtifactKind) -> (r: WorldJobKind)
    ensures
        r == artifact_job_kind(a),
{
    match a {
        VisualArtifactKind::SceneCg => WorldJobKind::SceneCg,
        VisualArtifactKind::CharacterDesignSheet | VisualArtifactKind::LocationDesignSheet => WorldJobKind::ReferenceAsset,
        VisualArtifactKind::UiBackground => WorldJobKind::UiAsset,
    }
}

/// The turn a `turn_cg:` slot belongs to.
pub open spec fn slot_turn(slot: Seq<char>) -> Option<Seq<char>> {
    if starts_with(slot, "turn_cg:"@) {
        Some(slot.subrange("turn_cg:"@.len() as int, slot.len() as int))
    } else {
        None
    }
}

fn turn_id_from_slot(slot: &str) -> (r: Option<String>)
    ensures
        match r {
            Some(t) => slot_turn(slot@) == Some(t@),
            None => slot_turn(slot@) is None,
        },
{
    match strip_prefix_str(slot, "turn_cg:") {
        Some(rest) => Some(String::from_str(rest)),
        None => None,
    }
}

pub open spec fn opt_view(o: Option<String>) -> Option<Seq<char>> {
    match o {
        Some(s) => Some(s@),
        None => None,
    }
}

/// `j` is the job of a visual slot of world `world_id`.
pub open spec fn visual_job_is(
    j: WorldJob,
    world_id: Seq<char>,
    slot: Seq<char>,
    artifact: VisualArtifactKind,
    status: WorldJobStatus,
    path: Seq<char>,
) -> bool {
    let kind = artifact_job_kind(artifact);
    &&& j.schema_version@ == WORLD_JOB_LEDGER_SCHEMA_VERSION@
    &&& j.world_id@ == world_id
    &&& j.job_id@ == kind_label(kind) + ":"@ + slot
    &&& j.kind == kind
    &&& j.status == status
    &&& j.slot@ == slot
    &&& opt_view(j.turn_id) == slot_turn(slot)
    &&& j.artifact_kind == Some(artifact)
    &&& opt_view(j.path) == Some(path)
}

fn visual_job(world_id: &str, slot: &str, artifact: VisualArtifactKind, status: WorldJobStatus, path: &str) -> (j: WorldJob)
    ensures
        visual_job_is(j, world_id@, slot@, artifact, status, path@),
{
    let kind = visual_job_kind(artifact);
    let head = concat2(kind_label_of(kind), ":");
    WorldJob {
        schema_version: String::from_str(WORLD_JOB_LEDGER_SCHEMA_VERSION),
        world_id: String::from_str(world_id),
        job_id: concat2(head.as_str(), slot),
        kind,
        status,
        slot: String::from_str(slot),
        turn_id: turn_id_from_slot(slot),
        artifact_kind: Some(artifact),
        path: Some(String::from_str(path)),
    }
}

/// `j` is the pending text turn's job.
pub open spec fn text_job_is(j: WorldJob, p: PendingTextTurn) -> bool {
    &&& j.schema_version@ == WORLD_JOB_LEDGER_SCHEMA_VERSION@
    &&& j.world_id@ == p.world_id@
    &&& j.job_id@ == "text_turn:"@ + p.turn_id@
    &&& j.kind == WorldJobKind::TextTurn
    &&& j.status == WorldJobStatus::Pending
    &&& j.slot@ == p.turn_id@
    &&& opt_view(j.turn_id) == Some(p.turn_id@)
    &&& j.artifact_kind is None
    &&& opt_view(j.path) == Some(p.pending_ref@)
}

pub open spec fn has_slot(jobs: Seq<ImageGenerationJob>, slot: Seq<char>) -> bool {
    exists|i: int| 0 <= i < jobs.len() && (#[trigger] jobs[i]).slot@ == slot
}

/// The image jobs: the manifest's, then each extra job whose slot is not
/// already taken, in order.
pub open spec fn merged_jobs(jobs: Seq<ImageGenerationJob>, extra: Seq<ImageGenerationJob>) -> Seq<ImageGenerationJob>
    decreases extra.len(),
{
    if extra.len() == 0 {
        jobs
    } else {
        let prev = merged_jobs(jobs, extra.drop_last());
        if has_slot(prev, extra.last().slot@) {
            prev
        } else {
            prev.push(extra.last())
        }
    }
}

fn copy_image_job(j: &ImageGenerationJob) -> (r: ImageGenerationJob)
    ensures
        r == *j,
{
    ImageGenerationJob {
        slot: j.slot.clone(),
        artifact_kind: j.artifact_kind,
        destination_path: j.destination_path.clone(),
    }
}

/// The manifest's image jobs, then each extra job whose slot is not taken.
pub fn merge_visual_jobs(jobs: &Vec<ImageGenerationJob>, extra: &Vec<ImageGenerationJob>) -> (r: Vec<ImageGenerationJob>)
    ensures
        r@ == merged_jobs(jobs@, extra@),
{
    let mut out: Vec<ImageGenerationJob> = Vec::new();
    let mut i: usize = 0;
    while i < jobs.len()
        invariant
            i <= jobs@.len(),
            out@ == jobs@.subrange(0, i as int),
        decreases jobs.len() - i,
    {
        out.push(copy_image_job(&jobs[i]));
        assert(out@ =~= jobs@.subrange(0, i + 1));
        i = i + 1;
    }
    assert(jobs@.subrange(0, jobs@.len() as int) =~= jobs@);
    assert(merged_jobs(jobs@, extra@.subrange(0, 0)) == jobs@);
    let mut k: usize = 0;
    while k < extra.len()
        invariant
            k <= extra@.len(),
            out@ == merged_jobs(jobs@, extra@.subrange(0, k as int)),
        decreases extra.len() - k,
    {
        let e = &extra[k];
        proof {
            assert(extra@.subrange(0, k + 1).drop_last() =~= extra@.subrange(0, k as int));
        }
        let mut taken = false;
        let mut j: usize = 0;
        while j < out.len()
            invariant
                j <= out@.len(),
                k < extra@.len(),
                taken == exists|m: int| 0 <= m < j && (#[trigger] out@[m]).slot@ == extra@[k as int].slot@,
            decreases out.len() - j,
        {
            if str_eq(out[j].slot.as_str(), extra[k].slot.as_str()) {
                taken = true;
            }
            j = j + 1;
        }
        if !taken {
            out.push(copy_image_job(e));
        }
        k = k + 1;
    }
    assert(extra@.subrange(0, extra@.len() as int) =~= extra@);
    out
}

pub open spec fn is_claimed(claimed: Seq<String>, slot: Seq<char>) -> bool {
    exists|i: int| 0 <= i < claimed.len() && (#[trigger] claimed[i])@ == slot
}

fn slot_claimed(claimed: &Vec<String>, slot: &str) -> (r: bool)
    ensures
        r == is_claimed(claimed@, slot@),
{
    let mut i: usize = 0;
    while i < claimed.len()
        invariant
            i <= claimed@.len(),
            forall|m: int| 0 <= m < i ==> (#[trigger] claimed@[m])@ != slot@,
        decreases claimed.len() - i,
    {
        if str_eq(claimed[i].as_str(), slot) {
            return true;
        }
        i = i + 1;
    }
    false
}

pub open spec fn status_rank(s: WorldJobStatus) -> int {
    match s {
        WorldJobStatus::Claimed => 0,
        WorldJobStatus::Pending => 1,
        WorldJobStatus::Completed => 2,
    }
}

/// `a` is listed before `b`: claimed, then pending, then completed; then by
/// kind label; then by slot.
pub open spec fn job_before(a: WorldJob, b: WorldJob) -> bool {
    status_rank(a.status) < status_rank(b.status) || (status_rank(a.status) == status_rank(b.status)
        && (seq_lt(kind_label(a.kind), kind_label(b.kind)) || (kind_label(a.kind) == kind_label(b.kind)
        && seq_lt(a.slot@, b.slot@))))
}

fn status_rank_of(s: WorldJobStatus) -> (r: u8)
    ensures
        r as int == status_rank(s),
{
    match s {
        WorldJobStatus::Claimed => 0,
        WorldJobStatus::Pending => 1,
        WorldJobStatus::Completed => 2,
    }
}

fn job_before_exec(a: &WorldJob, b: &WorldJob) -> (r: bool)
    ensures
        r == job_before(*a, *b),
{
    let ra = status_rank_of(a.status);
    let rb = status_rank_of(b.status);
    if ra != rb {
        return ra < rb;
    }
    let la = kind_label_of(a.kind);
    let lb = kind_label_of(b.kind);
    if str_lt(la, lb) {
        return true;
    }
    if !str_eq(la, lb) {
        return false;
    }
    str_lt(a.slot.as_str(), b.slot.as_str())
}

pub open spec fn job_insert_pos(t: Seq<WorldJob>, x: WorldJob) -> int
    decreases t.len(),
{
    if t.len() == 0 {
        0
    } else {
        let p = job_insert_pos(t.drop_last(), x);
        if p < t.len() - 1 {
            p
        } else if job_before(x, t.last()) {
            t.len() - 1
        } else {
            t.len() as int
        }
    }
}

/// The stable sort of the jobs by `job_before`.
pub open spec fn sort_jobs(s: Seq<WorldJob>) -> Seq<WorldJob>
    decreases s.len(),
{
    if s.len() == 0 {
        Seq::empty()
    } else {
        let t = sort_jobs(s.drop_last());
        t.insert(job_insert_pos(t, s.last()), s.last())
    }
}

proof fn lemma_job_insert_pos_is(t: Seq<WorldJob>, x: WorldJob, k: int)
    requires
        0 <= k <= t.len(),
        forall|j: int| 0 <= j < k ==> !job_before(x, #[trigger] t[j]),
        k < t.len() ==> job_before(x, t[k]),
    ensures
        job_insert_pos(t, x) == k,
    decreases t.len(),
{
    if t.len() > 0 {
        let d = t.drop_last();
        assert forall|j: int| 0 <= j < d.len() implies d[j] == t[j] by {}
        if k < t.len() - 1 {
            lemma_job_insert_pos_is(d, x, k);
        } else {
            lemma_job_insert_pos_is(d, x, d.len() as int);
        }
    }
}

/// Listed in order: no job is before one listed ahead of it.
pub open spec fn jobs_sorted(s: Seq<WorldJob>) -> bool {
    forall|i: int, j: int| 0 <= i < j < s.len() ==> !job_before(#[trigger] s[j], #[trigger] s[i])
}

proof fn lemma_job_before_asymmetric(a: WorldJob, b: WorldJob)
    ensures
        job_before(a, b) ==> !job_before(b, a),
        !job_before(a, a),
{
    lemma_seq_lt_asymmetric(kind_label(a.kind), kind_label(b.kind));
    lemma_seq_lt_asymmetric(a.slot@, b.slot@);
    lemma_seq_lt_irreflexive(kind_label(a.kind));
    lemma_seq_lt_irreflexive(kind_label(b.kind));
    lemma_seq_lt_irreflexive(a.slot@);
}

proof fn lemma_job_before_transitive(a: WorldJob, b: WorldJob, c: WorldJob)
    requires
        job_before(a, b),
        job_before(b, c),
    ensures
        job_before(a, c),
{
    let (ka, kb, kc) = (kind_label(a.kind), kind_label(b.kind), kind_label(c.kind));
    if status_rank(a.status) == status_rank(b.status) && status_rank(b.status) == status_rank(c.status) {
        if seq_lt(ka, kb) && seq_lt(kb, kc) {
            lemma_seq_lt_transitive(ka, kb, kc);
        }
        if ka == kb && kb == kc && seq_lt(a.slot@, b.slot@) && seq_lt(b.slot@, c.slot@) {
            lemma_seq_lt_transitive(a.slot@, b.slot@, c.slot@);
        }
    }
}

proof fn lemma_job_insert_pos_props(t: Seq<WorldJob>, x: WorldJob)
    ensures
        0 <= job_insert_pos(t, x) <= t.len(),
        forall|j: int| 0 <= j < job_insert_pos(t, x) ==> !job_before(x, #[trigger] t[j]),
        job_insert_pos(t, x) < t.len() ==> job_before(x, t[job_insert_pos(t, x)]),
    decreases t.len(),
{
    if t.len() > 0 {
        let d = t.drop_last();
        lemma_job_insert_pos_props(d, x);
        assert forall|j: int| 0 <= j < d.len() implies d[j] == t[j] by {}
    }
}

/// The job order sorts: the result lists every job exactly as often as the
/// input does, and no job comes after one it is before.
pub proof fn law_sorted_jobs_are_ordered_permutation(s: Seq<WorldJob>)
    ensures
        jobs_sorted(sort_jobs(s)),
        sort_jobs(s).to_multiset() == s.to_multiset(),
        sort_jobs(s).len() == s.len(),
    decreases s.len(),
{
    if s.len() == 0 {
        assert(sort_jobs(s) =~= s);
    } else {
        let d = s.drop_last();
        let x = s.last();
        law_sorted_jobs_are_ordered_permutation(d);
        let t = sort_jobs(d);
        lemma_job_insert_pos_props(t, x);
        let p = job_insert_pos(t, x);
        let r = t.insert(p, x);
        assert(r == sort_jobs(s));
        assert(s =~= d.push(x));
        to_multiset_insert(t, p, x);
        to_multiset_build(d, x);
        assert forall|i: int, j: int| 0 <= i < j < r.len() implies !job_before(#[trigger] r[j], #[trigger] r[i]) by {
            if j < p {
                assert(r[i] == t[i] && r[j] == t[j]);
            } else if j == p {
                assert(r[i] == t[i] && r[j] == x);
            } else {
                assert(r[j] == t[j - 1]);
                if i < p {
                    assert(r[i] == t[i]);
                } else if i == p {
                    assert(r[i] == x);
                    lemma_job_before_asymmetric(x, t[p]);
                    if job_before(t[j - 1], x) {
                        lemma_job_before_transitive(t[j - 1], x, t[p]);
                        if j - 1 > p {
                            assert(!job_before(t[j - 1], t[p]));
                        }
                    }
                } else {
                    assert(r[i] == t[i - 1]);
                }
            }
        }
    }
}

fn sort_world_jobs(v: Vec<WorldJob>) -> (r: Vec<WorldJob>)
    ensures
        r@ == sort_jobs(v@),
{
    let mut rest = v;
    let ghost all = rest@;
    let total = rest.len();
    let mut out: Vec<WorldJob> = Vec::new();
    let mut n: usize = 0;
    while rest.len() > 0
        invariant
            n + rest@.len() == all.len(),
            all.len() == total,
            rest@ == all.subrange(n as int, all.len() as int),
            out@ == sort_jobs(all.subrange(0, n as int)),
        decreases rest.len(),
    {
        let x = rest.remove(0);
        proof {
            assert(all.subrange(0, n + 1).drop_last() =~= all.subrange(0, n as int));
            assert(all.subrange(0, n + 1).last() == x);
            assert(rest@ =~= all.subrange(n + 1, all.len() as int));
        }
        let mut k: usize = 0;
        while k < out.len() && !job_before_exec(&x, &out[k])
            invariant
                k <= out@.len(),
                forall|j: int| 0 <= j < k ==> !job_before(x, #[trigger] out@[j]),
            decreases out.len() - k,
        {
            k = k + 1;
        }
        proof {
            lemma_job_insert_pos_is(out@, x, k as int);
        }
        out.insert(k, x);
        n = n + 1;
    }
    proof {
        assert(all.subrange(0, all.len() as int) =~= all);
    }
    out
}

/// The assets whose files exist, in order.
pub open spec fn existing_assets(a: Seq<VisualAssetEntry>) -> Seq<VisualAssetEntry>
    decreases a.len(),
{
    if a.len() == 0 {
        Seq::empty()
    } else if a.last().exists {
        existing_assets(a.drop_last()).push(a.last())
    } else {
        existing_assets(a.drop_last())
    }
}

/// The unsorted jobs: the text turn, the image jobs (an extra one only where
/// no earlier job has its slot), the completed assets.
pub open spec fn job_candidates_are(c: Seq<WorldJob>, o: ReadWorldJobsOptions) -> bool {
    let t: int = if o.pending_text_turn is Some { 1 } else { 0 };
    let vj = merged_jobs(o.visual_jobs@, o.extra_visual_jobs@);
    let ea = existing_assets(o.visual_assets@);
    &&& c.len() == t + vj.len() + ea.len()
    &&& o.pending_text_turn matches Some(p) ==> text_job_is(c[0], p)
    &&& forall|k: int|
        0 <= k < vj.len() ==> visual_job_is(
            #[trigger] c[t + k],
            o.world_id@,
            vj[k].slot@,
            vj[k].artifact_kind,
            if is_claimed(o.claimed_slots@, vj[k].slot@) { WorldJobStatus::Claimed } else { WorldJobStatus::Pending },
            vj[k].destination_path@,
        )
    &&& forall|k: int|
        0 <= k < ea.len() ==> visual_job_is(
            #[trigger] c[t + vj.len() + k],
            o.world_id@,
            ea[k].slot@,
            ea[k].artifact_kind,
            WorldJobStatus::Completed,
            ea[k].recommended_path@,
        )
}

/// The world's jobs, claimed first, then pending, then completed, each group
/// by kind label and slot.
pub fn read_world_jobs(options: &ReadWorldJobsOptions) -> (r: Vec<WorldJob>)
    ensures
        exists|c: Seq<WorldJob>|
            #![trigger job_candidates_are(c, *options)]
            {
                &&& job_candidates_are(c, *options)
                &&& r@ == sort_jobs(c)
                &&& r@.to_multiset() == c.to_multiset()
            },
        jobs_sorted(r@),
{
    let mut jobs: Vec<WorldJob> = Vec::new();
    match &options.pending_text_turn {
        Some(p) => {
            jobs.push(WorldJob {
                schema_version: String::from_str(WORLD_JOB_LEDGER_SCHEMA_VERSION),
                world_id: p.world_id.clone(),
                job_id: concat2("text_turn:", p.turn_id.as_str()),
                kind: WorldJobKind::TextTurn,
                status: WorldJobStatus::Pending,
                slot: p.turn_id.clone(),
                turn_id: Some(p.turn_id.clone()),
                artifact_kind: None,
                path: Some(p.pending_ref.clone()),
            });
        },
        None => {},
    }
    let t = jobs.len();
    let ghost first = jobs@;
    let merged = merge_visual_jobs(&options.visual_jobs, &options.extra_visual_jobs);
    let vj = &merged;
    let mut i: usize = 0;
    while i < vj.len()
        invariant
            i <= vj@.len(),
            vj@ == merged_jobs(options.visual_jobs@, options.extra_visual_jobs@),
            t == first.len(),
            jobs@.len() == t + i,
            jobs@.subrange(0, t as int) == first,
            forall|k: int|
                0 <= k < i ==> visual_job_is(
                    #[trigger] jobs@[t + k],
                    options.world_id@,
                    vj@[k].slot@,
                    vj@[k].artifact_kind,
                    if is_claimed(options.claimed_slots@, vj@[k].slot@) { WorldJobStatus::Claimed } else { WorldJobStatus::Pending },
                    vj@[k].destination_path@,
                ),
        decreases vj.len() - i,
    {
        let j = &vj[i];
        let status = if slot_claimed(&options.claimed_slots, j.slot.as_str()) {
            WorldJobStatus::Claimed
        } else {
            WorldJobStatus::Pending
        };
        let job = visual_job(options.world_id.as_str(), j.slot.as_str(), j.artifact_kind, status, j.destination_path.as_str());
        proof {
            assert(jobs@.push(job).subrange(0, t as int) =~= jobs@.subrange(0, t as int));
        }
        jobs.push(job);
        i = i + 1;
    }
    let mid = jobs.len();
    let ghost second = jobs@;
    let assets = &options.visual_assets;
    let mut n: usize = 0;
    let mut a: usize = 0;
    while a < assets.len()
        invariant
            a <= assets@.len(),
            mid == second.len(),
            n == existing_assets(assets@.subrange(0, a as int)).len(),
            jobs@.len() == mid + n,
            jobs@.subrange(0, mid as int) == second,
            forall|k: int|
                0 <= k < n ==> visual_job_is(
                    #[trigger] jobs@[mid + k],
                    options.world_id@,
                    existing_assets(assets@.subrange(0, a as int))[k].slot@,
                    existing_assets(assets@.subrange(0, a as int))[k].artifact_kind,
                    WorldJobStatus::Completed,
                    existing_assets(assets@.subrange(0, a as int))[k].recommended_path@,
                ),
        decreases assets.len() - a,
    {
        let e = &assets[a];
        proof {
            assert(assets@.subrange(0, a + 1).drop_last() =~= assets@.subrange(0, a as int));
            assert(assets@.subrange(0, a + 1).last() == *e);
        }
        if e.exists {
            let job = visual_job(options.world_id.as_str(), e.slot.as_str(), e.artifact_kind, WorldJobStatus::Completed, e.recommended_path.as_str());
            proof {
                assert(jobs@.push(job).subrange(0, mid as int) =~= jobs@.subrange(0, mid as int));
            }
            jobs.push(job);
            n = jobs.len() - mid;
        }
        a = a + 1;
    }
    let ghost c = jobs@;
    proof {
        assert(assets@.subrange(0, assets@.len() as int) =~= assets@);
        assert forall|k: int| 0 <= k < vj@.len() implies #[trigger] c[t + k] == second[t + k] by {
            assert(c[t + k] == c.subrange(0, mid as int)[t + k]);
        }
        if options.pending_text_turn is Some {
            assert(c[0] == c.subrange(0, mid as int)[0]);
            assert(second[0] == second.subrange(0, t as int)[0]);
        }
        assert(job_candidates_are(c, *options));
        law_sorted_jobs_are_ordered_permutation(c);
    }
    sort_world_jobs(jobs)
}

} // verus!
