use singulari_world::extra_memory::{
    failed_projection_records_after_latest_repair, ExtraMemoryProjectionRecord,
    ExtraMemoryProjectionStatus, EXTRA_MEMORY_PROJECTION_RECORD_SCHEMA_VERSION,
};
use singulari_world::host_supervisor::{
    build_host_supervisor_plan, render_host_supervisor_plan, HostSupervisorStatus,
    ProjectionHealthReport, ProjectionHealthStatus,
};
use singulari_world::job_ledger::{
    merge_visual_jobs, read_world_jobs, ImageGenerationJob, PendingTextTurn, ReadWorldJobsOptions,
    VisualArtifactKind, VisualAssetEntry, WorldJobKind, WorldJobStatus,
};

fn image_job(slot: &str, kind: VisualArtifactKind) -> ImageGenerationJob {
    ImageGenerationJob {
        slot: slot.to_owned(),
        artifact_kind: kind,
        destination_path: format!("assets/{slot}.png"),
    }
}

fn options() -> ReadWorldJobsOptions {
    let manifest = vec![
        image_job("stage_background", VisualArtifactKind::UiBackground),
        image_job("character:guard", VisualArtifactKind::CharacterDesignSheet),
    ];
    let extra = vec![
        image_job("turn_cg:turn_0001", VisualArtifactKind::SceneCg),
        image_job("stage_background", VisualArtifactKind::UiBackground),
    ];
    ReadWorldJobsOptions {
        world_id: "stw_job_ledger".to_owned(),
        pending_text_turn: None,
        visual_jobs: manifest,
        extra_visual_jobs: extra,
        claimed_slots: vec!["stage_background".to_owned()],
        visual_assets: vec![
            VisualAssetEntry {
                slot: "menu_background".to_owned(),
                artifact_kind: VisualArtifactKind::UiBackground,
                recommended_path: "assets/menu_background.png".to_owned(),
                exists: true,
            },
            VisualAssetEntry {
                slot: "location:gate".to_owned(),
                artifact_kind: VisualArtifactKind::LocationDesignSheet,
                recommended_path: "assets/gate.png".to_owned(),
                exists: false,
            },
        ],
    }
}

#[test]
fn reads_visual_jobs_across_pending_claimed_and_completed_files() {
    let opts = options();
    assert_eq!(merge_visual_jobs(&opts.visual_jobs, &opts.extra_visual_jobs).len(), 3);
    let jobs = read_world_jobs(&opts);
    assert_eq!(jobs.len(), 4);
    assert!(jobs.iter().any(|job| {
        job.slot == "menu_background"
            && job.kind == WorldJobKind::UiAsset
            && job.status == WorldJobStatus::Completed
    }));
    assert!(jobs.iter().any(|job| {
        job.slot == "stage_background"
            && job.kind == WorldJobKind::UiAsset
            && job.status == WorldJobStatus::Claimed
    }));
    assert!(jobs.iter().any(|job| {
        job.slot == "turn_cg:turn_0001"
            && job.kind == WorldJobKind::SceneCg
            && job.status == WorldJobStatus::Pending
            && job.turn_id.as_deref() == Some("turn_0001")
    }));
    let order: Vec<&str> = jobs.iter().map(|job| job.job_id.as_str()).collect();
    assert_eq!(
        order,
        vec![
            "ui_asset:stage_background",
            "reference_asset:character:guard",
            "scene_cg:turn_cg:turn_0001",
            "ui_asset:menu_background",
        ]
    );
}

#[test]
fn supervisor_plan_sees_initial_visual_jobs() {
    let jobs = read_world_jobs(&options());
    let plan = build_host_supervisor_plan(
        "stw_job_ledger",
        &jobs,
        ProjectionHealthReport {
            world_id: "stw_job_ledger".to_owned(),
            status: ProjectionHealthStatus::Healthy,
        },
    );
    assert_eq!(plan.status, HostSupervisorStatus::Ready);
    assert!(plan.recommended_action.contains("image"));
    assert_eq!(plan.recommended_action, "dispatch_lanes:image");
    let text = render_host_supervisor_plan(&plan);
    assert!(text.contains("image: ready"));
    assert!(text.starts_with("world: stw_job_ledger\nstatus: ready\n"));
    assert!(text.contains("  claimed: ui_asset:stage_background stage_background"));
    assert!(text.contains("text: idle - no pending jobs; claimed=0"));
}

#[test]
fn supervisor_plan_blocks_on_failed_projection_health() {
    let mut opts = options();
    opts.pending_text_turn = Some(PendingTextTurn {
        world_id: "stw_job_ledger".to_owned(),
        turn_id: "turn_0002".to_owned(),
        pending_ref: "agent_bridge/pending_turn.json".to_owned(),
    });
    let jobs = read_world_jobs(&opts);
    assert!(jobs.iter().any(|job| job.job_id == "text_turn:turn_0002"));
    let plan = build_host_supervisor_plan(
        "stw_job_ledger",
        &jobs,
        ProjectionHealthReport {
            world_id: "stw_job_ledger".to_owned(),
            status: ProjectionHealthStatus::Failed,
        },
    );
    assert_eq!(plan.status, HostSupervisorStatus::Blocked);
    assert_eq!(plan.recommended_action, "repair_projection_before_dispatch");
    assert_eq!(
        plan.lanes[0].detail,
        "blocked by failed projection health; pending=1, claimed=0"
    );
}

fn record(status: ExtraMemoryProjectionStatus) -> ExtraMemoryProjectionRecord {
    ExtraMemoryProjectionRecord {
        schema_version: EXTRA_MEMORY_PROJECTION_RECORD_SCHEMA_VERSION.to_owned(),
        world_id: "w".to_owned(),
        turn_id: "t".to_owned(),
        status,
        traces_planned: 0,
        remembered_extras_planned: None,
        error: None,
        recorded_at: "now".to_owned(),
    }
}

#[test]
fn failures_before_the_latest_repair_are_closed() {
    assert_eq!(failed_projection_records_after_latest_repair(&[]), 0);
    let records = vec![
        record(ExtraMemoryProjectionStatus::Failed),
        record(ExtraMemoryProjectionStatus::Failed),
        record(ExtraMemoryProjectionStatus::Repaired),
        record(ExtraMemoryProjectionStatus::Committed),
        record(ExtraMemoryProjectionStatus::Failed),
    ];
    assert_eq!(failed_projection_records_after_latest_repair(&records), 1);
    assert_eq!(failed_projection_records_after_latest_repair(&records[..2]), 2);
    assert_eq!(failed_projection_records_after_latest_repair(&records[..3]), 0);
}
