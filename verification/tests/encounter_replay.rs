use singulari_world::encounter_replay::rebuild_encounter_surface;
use singulari_world::encounter_surface::{
    mutation_from_choice, mutation_from_resolution_gate, EncounterClosureKind,
    EncounterSalience, EncounterSurfaceClosure, EncounterSurfaceEventRecord,
    EncounterSurfaceMutation, EncounterSurfacePacket, EncounterSurfaceStatus,
    ENCOUNTER_SURFACE_EVENT_SCHEMA_VERSION,
};
use singulari_world::models::TurnChoice;
use singulari_world::resolution::{GateKind, GateStatus};

fn base_packet() -> EncounterSurfacePacket {
    EncounterSurfacePacket {
        world_id: "w".to_owned(),
        turn_id: "turn_0005".to_owned(),
        scene_id: "place:gate".to_owned(),
        ..EncounterSurfacePacket::default()
    }
}

fn choice_mutation(slot: u8, tag: &str, intent: &str) -> EncounterSurfaceMutation {
    mutation_from_choice(
        "turn_0005",
        "place:gate",
        &TurnChoice { slot, tag: tag.to_owned(), intent: intent.to_owned() },
        &Vec::new(),
        vec![format!("next_choices[slot={slot}]")],
    )
}

fn record(
    turn_id: &str,
    index: usize,
    mutation: Option<EncounterSurfaceMutation>,
    closure: Option<EncounterSurfaceClosure>,
) -> EncounterSurfaceEventRecord {
    EncounterSurfaceEventRecord {
        schema_version: ENCOUNTER_SURFACE_EVENT_SCHEMA_VERSION.to_owned(),
        world_id: "w".to_owned(),
        turn_id: turn_id.to_owned(),
        event_id: format!("encounter_event:{turn_id}:{index:02}"),
        mutation,
        closure,
        recorded_at: "2026-01-01T00:00:00+00:00".to_owned(),
    }
}

fn closure(surface_id: &str, replacement: Option<&str>) -> EncounterSurfaceClosure {
    EncounterSurfaceClosure {
        surface_id: surface_id.to_owned(),
        kind: EncounterClosureKind::Superseded,
        summary: "닫혔다".to_owned(),
        evidence_refs: vec!["e9".to_owned()],
        replacement_surface_id: replacement.map(str::to_owned),
    }
}

#[test]
fn rebuild_replays_mutations_and_closures() {
    let door = choice_mutation(1, "문 쪽으로 다가간다", "닫히기 전 통로를 확인한다");
    let trace = choice_mutation(2, "흔적을 살핀다", "바닥에 남은 단서를 조사한다");
    let door_id = door.surface_id.clone();
    let trace_id = trace.surface_id.clone();
    let records = vec![
        record("turn_0005", 0, Some(door), None),
        record("turn_0005", 1, Some(trace), None),
        record("turn_0006", 0, None, Some(closure(&door_id, Some("encounter:next")))),
        record("turn_0006", 1, None, Some(closure("unknown", Some("encounter:next")))),
    ];
    let packet = rebuild_encounter_surface(base_packet(), records);

    assert_eq!(packet.world_id, "w");
    assert_eq!(packet.active_surfaces.len(), 1);
    assert_eq!(packet.active_surfaces[0].surface_id, trace_id);
    assert_eq!(packet.active_surfaces[0].lifecycle.opened_turn_id, "turn_0005");
    assert_eq!(packet.recent_surface_changes.len(), 4);
    assert_eq!(packet.recent_surface_changes[0].surface_id, "unknown");
    assert_eq!(packet.recent_surface_changes[1].surface_id, door_id);
    assert_eq!(packet.recent_surface_changes[1].turn_id, "turn_0006");
    assert_eq!(packet.required_followups, vec!["replacement_surface:encounter:next"]);
    assert_eq!(packet.choice_contracts.len(), packet.active_surfaces[0].affordances.len());
}

#[test]
fn rebuild_keeps_blocked_interactions_and_drops_resolved_surfaces() {
    let current = base_packet();
    let gate = mutation_from_resolution_gate(
        &current,
        GateKind::SocialPermission,
        GateStatus::Blocked,
        "rel:guard",
        "문지기가 막는다",
        &vec!["e1".to_owned()],
        2,
    );
    let gate_id = gate.surface_id.clone();
    let mut resolved = choice_mutation(3, "말을 건다", "문지기에게 묻는다");
    resolved.status = EncounterSurfaceStatus::Resolved;
    let mut critical = choice_mutation(4, "뛴다", "통로로 달린다");
    critical.salience = EncounterSalience::Critical;
    let critical_id = critical.surface_id.clone();
    let records = vec![
        record("turn_0005", 0, Some(gate), None),
        record("turn_0005", 1, Some(resolved), None),
        record("turn_0005", 2, Some(critical), None),
    ];
    let packet = rebuild_encounter_surface(base_packet(), records);

    assert_eq!(packet.active_surfaces.len(), 2);
    assert_eq!(packet.active_surfaces[0].surface_id, critical_id);
    assert_eq!(packet.active_surfaces[1].surface_id, gate_id);
    assert_eq!(packet.blocked_interactions.len(), 1);
    assert_eq!(packet.blocked_interactions[0].surface_id, gate_id);
    assert_eq!(packet.blocked_interactions[0].reason, "문지기가 막는다");
}

#[test]
fn rebuild_replaces_a_surface_with_the_same_id_and_keeps_budgets() {
    let first = choice_mutation(1, "문 쪽으로 다가간다", "닫히기 전 통로를 확인한다");
    let mut second = first.clone();
    second.summary = "다시 본다".to_owned();
    let mut records = vec![
        record("turn_0005", 0, Some(first), None),
        record("turn_0006", 0, Some(second), None),
    ];
    for n in 0..14u8 {
        let mut m = choice_mutation(1, "살핀다", "주변을 본다");
        m.surface_id = format!("encounter:extra:{n:02}");
        records.push(record("turn_0007", usize::from(n), Some(m), None));
    }
    let packet = rebuild_encounter_surface(base_packet(), records);

    assert_eq!(packet.active_surfaces.len(), 12);
    assert_eq!(packet.recent_surface_changes.len(), 12);
    assert_eq!(packet.recent_surface_changes[0].surface_id, "encounter:extra:13");
    let replaced: Vec<_> = packet
        .active_surfaces
        .iter()
        .filter(|s| s.summary == "다시 본다")
        .collect();
    assert!(replaced.len() <= 1);
    assert!(packet
        .active_surfaces
        .windows(2)
        .all(|w| w[0].surface_id < w[1].surface_id || w[0].salience != w[1].salience));
}
