//! The host supervisor's view of a world: which worker lanes have jobs to
//! run, and whether projection health blocks dispatch.
use crate::job_ledger::{WorldJob, WorldJobKind, WorldJobStatus};
use crate::text::{concat2, concat3, concat4, dec, dec_string, join, join_strings, views};
use vstd::prelude::*;

verus! {

pub const HOST_SUPERVISOR_PLAN_SCHEMA_VERSION: &'static str = "singulari.host_supervisor_plan.v1";

#[derive(Debug, Clone, Copy, PartialEq, Eq, Structural)]
pub enum HostSupervisorStatus {
    Idle,
    Ready,
    Blocked,
}

pub open spec fn status_name(s: HostSupervisorStatus) -> Seq<char> {
    match s {
        HostSupervisorStatus::Idle => "idle"@,
        HostSupervisorStatus::Ready => "ready"@,
        HostSupervisorStatus::Blocked => "blocked"@,
    }
}

impl HostSupervisorStatus {
    pub fn as_str(self) -> (r: &'static str)
        ensures
            r@ == status_name(self),
    {
        match self {
            HostSupervisorStatus::Idle => "idle",
            HostSupervisorStatus::Ready => "ready",
            HostSupervisorStatus::Blocked => "blocked",
        }
    }
}

#[derive(Debug, Clone, Copy, PartialEq, Eq, Structural)]
pub enum HostSupervisorLaneKind {
    Text,
    Image,
}

pub open spec fn lane_name(l: HostSupervisorLaneKind) -> Seq<char> {
    match l {
        HostSupervisorLaneKind::Text => "text"@,
        HostSupervisorLaneKind::Image => "image"@,
    }
}

impl HostSupervisorLaneKind {
    pub fn as_str(self) -> (r: &'static str)
        ensures
            r@ == lane_name(self),
    {
        match self {
            HostSupervisorLaneKind::Text => "text",
            HostSupervisorLaneKind::Image => "image",
        }
    }
}

/// How healthy a world's projections are.
#[derive(Debug, Clone, Copy, PartialEq, Eq, Structural)]
pub enum ProjectionHealthStatus {
    Healthy,
    Degraded,
    Failed,
}

pub open spec fn health_name(s: ProjectionHealthStatus) -> Seq<char> {
    match s {
        ProjectionHealthStatus::Healthy => "healthy"@,
        ProjectionHealthStatus::Degraded => "degraded"@,
        ProjectionHealthStatus::Failed => "failed"@,
    }
}

impl ProjectionHealthStatus {
    pub fn as_str(self) -> (r: &'static str)
        ensures
            r@ == health_name(self),
    {
        match self {
            ProjectionHealthStatus::Healthy => "healthy",
            ProjectionHealthStatus::Degraded => "degraded",
            ProjectionHealthStatus::Failed => "failed",
        }
    }
}

/// The projection health of a world, as its report gives it.
#[derive(Debug, Clone)]
pub struct ProjectionHealthReport {
    pub world_id: String,
    pub status: ProjectionHealthStatus,
}

#[derive(Debug, Clone)]
pub struct HostSupervisorLanePlan {
    pub lane: HostSupervisorLaneKind,
    pub status: HostSupervisorStatus,
    pub pending_jobs: Vec<WorldJob>,
    pub claimed_jobs: Vec<WorldJob>,
    pub detail: String,
}

#[derive(Debug, Clone)]
pub struct HostSupervisorPlan {
    pub schema_version: String,
    pub world_id: String,
    pub status: HostSupervisorStatus,
    pub lanes: Vec<HostSupervisorLanePlan>,
    pub projection_health: ProjectionHealthReport,
    pub recommended_action: String,
}

/// The text lane runs text turns; the image lane runs scene CGs, reference
/// assets and UI assets.
pub open spec fn lane_owns(l: HostSupervisorLaneKind, k: WorldJobKind) -> bool {
    match l {
        HostSupervisorLaneKind::Text => k == WorldJobKind::TextTurn,
        HostSupervisorLaneKind::Image => k == WorldJobKind::SceneCg || k == WorldJobKind::ReferenceAsset
            || k == WorldJobKind::UiAsset,
    }
}

/// The jobs a lane owns with the given status, in order.
pub open spec fn lane_jobs(jobs: Seq<WorldJob>, l: HostSupervisorLaneKind, s: WorldJobStatus) -> Seq<WorldJob>
    decreases jobs.len(),
{
    if jobs.len() == 0 {
        Seq::empty()
    } else {
        let prev = lane_jobs(jobs.drop_last(), l, s);
        if lane_owns(l, jobs.last().kind) && jobs.last().status == s {
            prev.push(jobs.last())
        } else {
            prev
        }
    }
}

pub open spec fn lane_detail_text(s: HostSupervisorStatus, pending: nat, claimed: nat) -> Seq<char> {
    match s {
        HostSupervisorStatus::Blocked => "blocked by failed projection health; pending="@ + dec(pending)
            + ", claimed="@ + dec(claimed),
        HostSupervisorStatus::Ready => "ready jobs pending="@ + dec(pending) + ", claimed="@ + dec(claimed),
        HostSupervisorStatus::Idle => "no pending jobs; claimed="@ + dec(claimed),
    }
}

/// `p` is the plan of lane `l` over `jobs`.
pub open spec fn lane_plan_is(p: HostSupervisorLanePlan, l: HostSupervisorLaneKind, jobs: Seq<WorldJob>, blocked: bool) -> bool {
    let pending = lane_jobs(jobs, l, WorldJobStatus::Pending);
    let claimed = lane_jobs(jobs, l, WorldJobStatus::Claimed);
    let status = if blocked {
        HostSupervisorStatus::Blocked
    } else if pending.len() > 0 {
        HostSupervisorStatus::Ready
    } else {
        HostSupervisorStatus::Idle
    };
    &&& p.lane == l
    &&& p.status == status
    &&& p.pending_jobs@ == pending
    &&& p.claimed_jobs@ == claimed
    &&& p.detail@ == lane_detail_text(status, pending.len(), claimed.len())
}

fn copy_job(j: &WorldJob) -> (r: WorldJob)
    ensures
        r == *j,
{
    WorldJob {
        schema_version: j.schema_version.clone(),
        world_id: j.world_id.clone(),
        job_id: j.job_id.clone(),
        kind: j.kind,
        status: j.status,
        slot: j.slot.clone(),
        turn_id: match &j.turn_id {
            Some(t) => Some(t.clone()),
            None => None,
        },
        artifact_kind: j.artifact_kind,
        path: match &j.path {
            Some(p) => Some(p.clone()),
            None => None,
        },
    }
}

fn owns_job(l: HostSupervisorLaneKind, k: WorldJobKind) -> (r: bool)
    ensures
        r == lane_owns(l, k),
{
    match l {
        HostSupervisorLaneKind::Text => k == WorldJobKind::TextTurn,
        HostSupervisorLaneKind::Image => k == WorldJobKind::SceneCg || k == WorldJobKind::ReferenceAsset
            || k == WorldJobKind::UiAsset,
    }
}

fn collect_lane_jobs(jobs: &Vec<WorldJob>, l: HostSupervisorLaneKind, s: WorldJobStatus) -> (r: Vec<WorldJob>)
    ensures
        r@ == lane_jobs(jobs@, l, s),
{
    let mut out: Vec<WorldJob> = Vec::new();
    let mut i: usize = 0;
    while i < jobs.len()
        invariant
            i <= jobs@.len(),
            out@ == lane_jobs(jobs@.subrange(0, i as int), l, s),
        decreases jobs.len() - i,
    {
        proof {
            assert(jobs@.subrange(0, i + 1).drop_last() =~= jobs@.subrange(0, i as int));
        }
        if owns_job(l, jobs[i].kind) && jobs[i].status == s {
            out.push(copy_job(&jobs[i]));
        }
        i = i + 1;
    }
    assert(jobs@.subrange(0, jobs@.len() as int) =~= jobs@);
    out
}

fn supervisor_lane_plan(l: HostSupervisorLaneKind, jobs: &Vec<WorldJob>, blocked: bool) -> (r: HostSupervisorLanePlan)
    ensures
        lane_plan_is(r, l, jobs@, blocked),
{
    let pending_jobs = collect_lane_jobs(jobs, l, WorldJobStatus::Pending);
    let claimed_jobs = collect_lane_jobs(jobs, l, WorldJobStatus::Claimed);
    let status = if blocked {
        HostSupervisorStatus::Blocked
    } else if pending_jobs.len() > 0 {
        HostSupervisorStatus::Ready
    } else {
        HostSupervisorStatus::Idle
    };
    let p = dec_string(pending_jobs.len() as u64);
    let c = dec_string(claimed_jobs.len() as u64);
    let detail = match status {
        HostSupervisorStatus::Blocked => {
            let head = concat4("blocked by failed projection health; pending=", p.as_str(), ", claimed=", c.as_str());
            head
        },
        HostSupervisorStatus::Ready => concat4("ready jobs pending=", p.as_str(), ", claimed=", c.as_str()),
        HostSupervisorStatus::Idle => concat2("no pending jobs; claimed=", c.as_str()),
    };
    HostSupervisorLanePlan { lane: l, status, pending_jobs, claimed_jobs, detail }
}

/// The names of the ready lanes, text before image.
pub open spec fn ready_lane_names(lanes: Seq<HostSupervisorLanePlan>) -> Seq<Seq<char>>
    decreases lanes.len(),
{
    if lanes.len() == 0 {
        Seq::empty()
    } else {
        let prev = ready_lane_names(lanes.drop_last());
        if lanes.last().status == HostSupervisorStatus::Ready {
            prev.push(lane_name(lanes.last().lane))
        } else {
            prev
        }
    }
}

pub open spec fn action_text(s: HostSupervisorStatus, lanes: Seq<HostSupervisorLanePlan>) -> Seq<char> {
    match s {
        HostSupervisorStatus::Blocked => "repair_projection_before_dispatch"@,
        HostSupervisorStatus::Idle => "sleep_until_new_job"@,
        HostSupervisorStatus::Ready => "dispatch_lanes:"@ + join(ready_lane_names(lanes), ","@),
    }
}

fn recommended_action(s: HostSupervisorStatus, lanes: &Vec<HostSupervisorLanePlan>) -> (r: String)
    ensures
        r@ == action_text(s, lanes@),
{
    match s {
        HostSupervisorStatus::Blocked => String::from_str("repair_projection_before_dispatch"),
        HostSupervisorStatus::Idle => String::from_str("sleep_until_new_job"),
        HostSupervisorStatus::Ready => {
            let mut names: Vec<String> = Vec::new();
            let mut i: usize = 0;
            while i < lanes.len()
                invariant
                    i <= lanes@.len(),
                    views(names@) == ready_lane_names(lanes@.subrange(0, i as int)),
                decreases lanes.len() - i,
            {
                proof {
                    assert(lanes@.subrange(0, i + 1).drop_last() =~= lanes@.subrange(0, i as int));
                }
                if lanes[i].status == HostSupervisorStatus::Ready {
                    let ghost before = names@;
                    let name = String::from_str(lanes[i].lane.as_str());
                    names.push(name);
                    proof {
                        crate::text::lemma_views_push(before, name);
                    }
                }
                i = i + 1;
            }
            assert(lanes@.subrange(0, lanes@.len() as int) =~= lanes@);
            let joined = join_strings(&names, ",");
            concat2("dispatch_lanes:", joined.as_str())
        },
    }
}

/// The supervisor's plan for a world over its jobs and projection health:
/// a text lane and an image lane; blocked when projection health failed,
/// ready when some lane has pending jobs, idle otherwise.
pub fn build_host_supervisor_plan(
    world_id: &str,
    jobs: &Vec<WorldJob>,
    projection_health: ProjectionHealthReport,
) -> (r: HostSupervisorPlan)
    ensures
        r.schema_version@ == HOST_SUPERVISOR_PLAN_SCHEMA_VERSION@,
        r.world_id@ == world_id@,
        r.lanes@.len() == 2,
        lane_plan_is(r.lanes@[0], HostSupervisorLaneKind::Text, jobs@, projection_health.status == ProjectionHealthStatus::Failed),
        lane_plan_is(r.lanes@[1], HostSupervisorLaneKind::Image, jobs@, projection_health.status == ProjectionHealthStatus::Failed),
        r.status == if projection_health.status == ProjectionHealthStatus::Failed {
            HostSupervisorStatus::Blocked
        } else if r.lanes@[0].status == HostSupervisorStatus::Ready || r.lanes@[1].status == HostSupervisorStatus::Ready {
            HostSupervisorStatus::Ready
        } else {
            HostSupervisorStatus::Idle
        },
        r.recommended_action@ == action_text(r.status, r.lanes@),
        r.projection_health == projection_health,
{
    let blocked = projection_health.status == ProjectionHealthStatus::Failed;
    let mut lanes: Vec<HostSupervisorLanePlan> = Vec::new();
    lanes.push(supervisor_lane_plan(HostSupervisorLaneKind::Text, jobs, blocked));
    lanes.push(supervisor_lane_plan(HostSupervisorLaneKind::Image, jobs, blocked));
    let status = if blocked {
        HostSupervisorStatus::Blocked
    } else if lanes[0].status == HostSupervisorStatus::Ready || lanes[1].status == HostSupervisorStatus::Ready {
        HostSupervisorStatus::Ready
    } else {
        HostSupervisorStatus::Idle
    };
    let recommended_action = recommended_action(status, &lanes);
    HostSupervisorPlan {
        schema_version: String::from_str(HOST_SUPERVISOR_PLAN_SCHEMA_VERSION),
        world_id: String::from_str(world_id),
        status,
        lanes,
        projection_health,
        recommended_action,
    }
}

/// The lines a lane shows: its status line, then its pending and claimed
/// jobs.
pub open spec fn lane_lines(l: HostSupervisorLanePlan) -> Seq<Seq<char>> {
    seq![lane_name(l.lane) + ": "@ + status_name(l.status) + " - "@ + l.detail@]
        + l.pending_jobs@.map_values(|j: WorldJob| "  pending: "@ + j.job_id@ + " "@ + j.slot@)
        + l.claimed_jobs@.map_values(|j: WorldJob| "  claimed: "@ + j.job_id@ + " "@ + j.slot@)
}

pub open spec fn all_lane_lines(ls: Seq<HostSupervisorLanePlan>) -> Seq<Seq<char>>
    decreases ls.len(),
{
    if ls.len() == 0 {
        Seq::empty()
    } else {
        all_lane_lines(ls.drop_last()) + lane_lines(ls.last())
    }
}

pub open spec fn plan_lines(p: HostSupervisorPlan) -> Seq<Seq<char>> {
    seq![
        "world: "@ + p.world_id@,
        "status: "@ + status_name(p.status),
        "recommended_action: "@ + p.recommended_action@,
        "projection_health: "@ + health_name(p.projection_health.status),
    ] + all_lane_lines(p.lanes@)
}

fn push_line(lines: &mut Vec<String>, line: String)
    ensures
        views(final(lines)@) == views(old(lines)@).push(line@),
{
    let ghost before = lines@;
    lines.push(line);
    proof {
        crate::text::lemma_views_push(before, line);
    }
}

/// The plan as text, one line per fact.
pub fn render_host_supervisor_plan(plan: &HostSupervisorPlan) -> (r: String)
    ensures
        r@ == join(plan_lines(*plan), "\n"@),
{
    let mut lines: Vec<String> = Vec::new();
    push_line(&mut lines, concat2("world: ", plan.world_id.as_str()));
    push_line(&mut lines, concat2("status: ", plan.status.as_str()));
    push_line(&mut lines, concat2("recommended_action: ", plan.recommended_action.as_str()));
    push_line(&mut lines, concat2("projection_health: ", plan.projection_health.status.as_str()));
    let ghost head = views(lines@);
    assert(head =~= seq![
        "world: "@ + plan.world_id@,
        "status: "@ + status_name(plan.status),
        "recommended_action: "@ + plan.recommended_action@,
        "projection_health: "@ + health_name(plan.projection_health.status),
    ]);
    let mut i: usize = 0;
    while i < plan.lanes.len()
        invariant
            i <= plan.lanes@.len(),
            views(lines@) == head + all_lane_lines(plan.lanes@.subrange(0, i as int)),
        decreases plan.lanes.len() - i,
    {
        let lane = &plan.lanes[i];
        let ghost base = views(lines@);
        let status_line = concat4(lane.lane.as_str(), ": ", lane.status.as_str(), " - ");
        push_line(&mut lines, concat2(status_line.as_str(), lane.detail.as_str()));
        let mut j: usize = 0;
        while j < lane.pending_jobs.len()
            invariant
                j <= lane.pending_jobs@.len(),
                views(lines@) == base + seq![lane_name(lane.lane) + ": "@ + status_name(lane.status) + " - "@ + lane.detail@]
                    + lane.pending_jobs@.subrange(0, j as int).map_values(|x: WorldJob| "  pending: "@ + x.job_id@ + " "@ + x.slot@),
            decreases lane.pending_jobs.len() - j,
        {
            let job = &lane.pending_jobs[j];
            push_line(&mut lines, concat4("  pending: ", job.job_id.as_str(), " ", job.slot.as_str()));
            assert(lane.pending_jobs@.subrange(0, j + 1).map_values(|x: WorldJob| "  pending: "@ + x.job_id@ + " "@ + x.slot@)
                =~= lane.pending_jobs@.subrange(0, j as int).map_values(|x: WorldJob| "  pending: "@ + x.job_id@ + " "@ + x.slot@).push(
                "  pending: "@ + job.job_id@ + " "@ + job.slot@));
            j = j + 1;
        }
        assert(lane.pending_jobs@.subrange(0, lane.pending_jobs@.len() as int) =~= lane.pending_jobs@);
        let ghost mid = views(lines@);
        let mut k: usize = 0;
        while k < lane.claimed_jobs.len()
            invariant
                k <= lane.claimed_jobs@.len(),
                views(lines@) == mid + lane.claimed_jobs@.subrange(0, k as int).map_values(|x: WorldJob| "  claimed: "@ + x.job_id@ + " "@ + x.slot@),
            decreases lane.claimed_jobs.len() - k,
        {
            let job = &lane.claimed_jobs[k];
            push_line(&mut lines, concat4("  claimed: ", job.job_id.as_str(), " ", job.slot.as_str()));
            assert(lane.claimed_jobs@.subrange(0, k + 1).map_values(|x: WorldJob| "  claimed: "@ + x.job_id@ + " "@ + x.slot@)
                =~= lane.claimed_jobs@.subrange(0, k as int).map_values(|x: WorldJob| "  claimed: "@ + x.job_id@ + " "@ + x.slot@).push(
                "  claimed: "@ + job.job_id@ + " "@ + job.slot@));
            k = k + 1;
        }
        assert(lane.claimed_jobs@.subrange(0, lane.claimed_jobs@.len() as int) =~= lane.claimed_jobs@);
        proof {
            assert(plan.lanes@.subrange(0, i + 1).drop_last() =~= plan.lanes@.subrange(0, i as int));
            assert(views(lines@) =~= head + all_lane_lines(plan.lanes@.subrange(0, i + 1)));
        }
        i = i + 1;
    }
    assert(plan.lanes@.subrange(0, plan.lanes@.len() as int) =~= plan.lanes@);
    join_strings(&lines, "\n")
}

} // verus!
