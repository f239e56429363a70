use singulari_world::consequence_spine::{
    plan_consequence_events, prepare_consequence_event_plan, rebuild_consequence_spine,
    ActiveConsequence, ConsequenceDecay, ConsequenceEventKind, ConsequenceEventRecord,
    ConsequenceKind, ConsequenceMutation, ConsequencePayoff, ConsequenceProposal,
    ConsequenceReturnWindow, ConsequenceScope, ConsequenceSeverity, ConsequenceSpineError,
    ConsequenceSpinePacket, ConsequenceStatus, CONSEQUENCE_EVENT_SCHEMA_VERSION,
    CONSEQUENCE_PROPOSAL_SCHEMA_VERSION, CONSEQUENCE_SCHEMA_VERSION,
};
use singulari_world::resolution::{
    GateKind, GateResult, GateStatus, ProposedEffect, ProposedEffectKind, ResolutionOutcome,
    ResolutionOutcomeKind, ResolutionProposal, ResolutionVisibility,
    RESOLUTION_PROPOSAL_SCHEMA_VERSION,
};
use singulari_world::social_exchange::{
    SocialCommitmentKind, SocialCommitmentMutation, SocialDueWindow, SocialExchangeProposal,
    SOCIAL_EXCHANGE_PROPOSAL_SCHEMA_VERSION,
};

fn packet() -> ConsequenceSpinePacket {
    ConsequenceSpinePacket {
        world_id: "world".to_owned(),
        turn_id: "turn_0003".to_owned(),
        ..ConsequenceSpinePacket::default()
    }
}

fn sample_resolution() -> ResolutionProposal {
    ResolutionProposal {
        schema_version: RESOLUTION_PROPOSAL_SCHEMA_VERSION.to_owned(),
        world_id: "world".to_owned(),
        turn_id: "turn_0003".to_owned(),
        outcome: ResolutionOutcome {
            kind: ResolutionOutcomeKind::CostlySuccess,
            summary: "안으로 들어가지만 문지기의 의심을 산다.".to_owned(),
            evidence_refs: vec!["choice:1".to_owned()],
        },
        gate_results: vec![GateResult {
            gate_kind: GateKind::SocialPermission,
            gate_ref: "rel:guard".to_owned(),
            visibility: ResolutionVisibility::PlayerVisible,
            status: GateStatus::CostImposed,
            reason: "절차를 무시한 행동이 의심을 남긴다.".to_owned(),
            evidence_refs: vec!["choice:1".to_owned()],
        }],
        proposed_effects: vec![ProposedEffect {
            effect_kind: ProposedEffectKind::RelationshipDelta,
            target_ref: "rel:guard".to_owned(),
            visibility: ResolutionVisibility::PlayerVisible,
            summary: "문지기는 주인공을 절차를 무시한 사람으로 기억한다.".to_owned(),
            evidence_refs: vec!["choice:1".to_owned()],
        }],
        process_ticks: Vec::new(),
    }
}

#[test]
fn derives_consequence_from_costly_resolution_effect() {
    let plan = prepare_consequence_event_plan(&packet(), None, Some(&sample_resolution()), None).expect("clock")
        .expect("plan");
    assert!(plan
        .records
        .iter()
        .any(|record| record.kind == ConsequenceKind::SuspicionRaised));
    assert!(plan
        .records
        .iter()
        .any(|record| record.kind == ConsequenceKind::TrustShift));
}

#[test]
fn derived_records_are_numbered_and_stamped() {
    let plan = plan_consequence_events(&packet(), None, Some(&sample_resolution()), None, "now")
        .expect("plan");
    assert_eq!(plan.records.len(), 2);
    assert_eq!(plan.records[0].event_id, "consequence_event:turn_0003:00");
    assert_eq!(plan.records[0].consequence_id, "consequence:turn_0003:gate:0");
    assert_eq!(plan.records[0].linked_projection_refs, vec!["rel:guard".to_owned()]);
    assert_eq!(plan.records[1].event_id, "consequence_event:turn_0003:01");
    assert_eq!(plan.records[1].consequence_id, "consequence:turn_0003:effect:0");
    assert_eq!(plan.records[1].recorded_at, "now");
    assert_eq!(plan.records[1].player_visible_signal, "관계의 변화가 다음 대화의 출발점을 바꾼다.");
}

#[test]
fn costly_success_alone_leaves_moral_debt() {
    let mut resolution = sample_resolution();
    resolution.gate_results.clear();
    resolution.proposed_effects.clear();
    let plan = plan_consequence_events(&packet(), None, Some(&resolution), None, "now").expect("plan");
    assert_eq!(plan.records.len(), 1);
    assert_eq!(plan.records[0].kind, ConsequenceKind::MoralDebt);
    assert_eq!(plan.records[0].consequence_id, "consequence:turn_0003:costly_success");
}

#[test]
fn derives_consequence_from_social_exchange_commitment() {
    let social = SocialExchangeProposal {
        schema_version: SOCIAL_EXCHANGE_PROPOSAL_SCHEMA_VERSION.to_owned(),
        world_id: "world".to_owned(),
        turn_id: "turn_0003".to_owned(),
        exchanges: Vec::new(),
        commitments: vec![SocialCommitmentMutation {
            commitment_id: "commitment:guard:entry".to_owned(),
            actor_ref: "char:guard".to_owned(),
            target_ref: "player".to_owned(),
            kind: SocialCommitmentKind::ConditionalPermission,
            summary: "문지기는 신원을 밝히면 검문을 이어가겠다고 했다.".to_owned(),
            condition: "이름과 온 길을 말해야 한다.".to_owned(),
            due_window: SocialDueWindow::CurrentScene,
            source_refs: vec!["visible_scene.text_blocks[0]".to_owned()],
            consequence_refs: Vec::new(),
        }],
    };
    let plan = prepare_consequence_event_plan(&packet(), None, None, Some(&social)).expect("clock").expect("plan");
    assert_eq!(plan.records.len(), 1);
    assert_eq!(plan.records[0].kind, ConsequenceKind::SocialDebt);
}

fn mutation(id: &str, refs: Vec<String>) -> ConsequenceMutation {
    ConsequenceMutation {
        consequence_id: id.to_owned(),
        kind: ConsequenceKind::AlarmRaised,
        scope: ConsequenceScope::Scene,
        severity: ConsequenceSeverity::Major,
        summary: "경보".to_owned(),
        player_visible_signal: "종이 울린다".to_owned(),
        source_refs: refs,
        linked_entity_refs: Vec::new(),
        linked_projection_refs: Vec::new(),
    }
}

fn proposal() -> ConsequenceProposal {
    ConsequenceProposal {
        schema_version: CONSEQUENCE_PROPOSAL_SCHEMA_VERSION.to_owned(),
        world_id: "world".to_owned(),
        turn_id: "turn_0003".to_owned(),
        introduced: vec![mutation("consequence:alarm", vec!["choice:1".to_owned()])],
        updated: Vec::new(),
        paid_off: Vec::new(),
        ephemeral_effects: Vec::new(),
    }
}

#[test]
fn proposal_refs_suppress_derived_duplicates() {
    let plan = plan_consequence_events(&packet(), Some(&proposal()), Some(&sample_resolution()), None, "t")
        .expect("plan");
    // Both derivations share the proposal evidence; only the price of
    // the costly success, which checks no evidence, is derived.
    assert_eq!(plan.records.len(), 2);
    assert_eq!(plan.records[0].event_kind, ConsequenceEventKind::Introduced);
    assert_eq!(plan.records[0].consequence_id, "consequence:alarm");
    assert_eq!(plan.records[1].kind, ConsequenceKind::MoralDebt);
    assert_eq!(plan.records[1].event_id, "consequence_event:turn_0003:01");
}

#[test]
fn proposal_errors_are_named() {
    let mut bad = proposal();
    bad.schema_version = "x".to_owned();
    assert!(matches!(
        plan_consequence_events(&packet(), Some(&bad), None, None, "t"),
        Err(ConsequenceSpineError::SchemaVersionMismatch)
    ));
    let mut bad = proposal();
    bad.turn_id = "turn_0009".to_owned();
    assert!(matches!(
        plan_consequence_events(&packet(), Some(&bad), None, None, "t"),
        Err(ConsequenceSpineError::WorldTurnMismatch)
    ));
    let mut bad = proposal();
    bad.updated = vec![mutation("c", Vec::new())];
    assert!(matches!(
        plan_consequence_events(&packet(), Some(&bad), None, None, "t"),
        Err(ConsequenceSpineError::MutationMissingSourceRefs)
    ));
    let mut bad = proposal();
    bad.paid_off = vec![ConsequencePayoff {
        consequence_id: "consequence:gone".to_owned(),
        payoff_summary: "끝".to_owned(),
        evidence_refs: vec!["e".to_owned()],
    }];
    match plan_consequence_events(&packet(), Some(&bad), None, None, "t") {
        Err(err) => assert_eq!(
            err.message(),
            "consequence payoff references inactive consequence: consequence:gone"
        ),
        Ok(_) => panic!("inactive payoff must fail"),
    }
}

fn record(id: &str, kind: ConsequenceEventKind, summary: &str) -> ConsequenceEventRecord {
    ConsequenceEventRecord {
        schema_version: CONSEQUENCE_EVENT_SCHEMA_VERSION.to_owned(),
        world_id: "world".to_owned(),
        turn_id: "turn_0003".to_owned(),
        event_id: "e".to_owned(),
        consequence_id: id.to_owned(),
        event_kind: kind,
        kind: ConsequenceKind::BodyCost,
        scope: ConsequenceScope::Body,
        severity: ConsequenceSeverity::Critical,
        summary: summary.to_owned(),
        player_visible_signal: "signal".to_owned(),
        source_refs: vec!["r".to_owned()],
        linked_entity_refs: Vec::new(),
        linked_projection_refs: Vec::new(),
        recorded_at: "now".to_owned(),
    }
}

#[test]
fn materializes_active_and_paid_off_consequences() {
    let plan = prepare_consequence_event_plan(&packet(), None, Some(&sample_resolution()), None).expect("clock")
        .expect("plan");
    let rebuilt = rebuild_consequence_spine(&packet(), plan.records);
    assert!(!rebuilt.active.is_empty());
    assert!(!rebuilt.pressure_links.is_empty());
}

#[test]
fn rebuild_keeps_latest_per_id_highest_id_first() {
    let rebuilt = rebuild_consequence_spine(
        &packet(),
        vec![
            record("c:a", ConsequenceEventKind::Introduced, "a1"),
            record("c:b", ConsequenceEventKind::Introduced, "b1"),
            record("c:a", ConsequenceEventKind::Escalated, "a2"),
            record("c:c", ConsequenceEventKind::Introduced, "c1"),
            record("c:c", ConsequenceEventKind::PaidOff, "paid"),
        ],
    );
    assert_eq!(rebuilt.active.len(), 2);
    assert_eq!(rebuilt.active[0].consequence_id, "c:b");
    assert_eq!(rebuilt.active[1].consequence_id, "c:a");
    assert_eq!(rebuilt.active[1].summary, "a2");
    assert_eq!(rebuilt.active[1].status, ConsequenceStatus::Escalated);
    assert_eq!(rebuilt.active[1].expected_return, ConsequenceReturnWindow::NextTurn);
    assert_eq!(rebuilt.recently_paid_off.len(), 1);
    assert_eq!(rebuilt.recently_paid_off[0].payoff_summary, "paid");
    assert_eq!(rebuilt.pressure_links[0].pressure_kind, "body");
}

#[test]
fn escalation_of_an_active_consequence_is_marked() {
    let mut current = packet();
    current.active.push(ActiveConsequence {
        schema_version: CONSEQUENCE_SCHEMA_VERSION.to_owned(),
        consequence_id: "consequence:alarm".to_owned(),
        origin_turn_id: "turn_0001".to_owned(),
        kind: ConsequenceKind::AlarmRaised,
        scope: ConsequenceScope::Scene,
        status: ConsequenceStatus::Active,
        severity: ConsequenceSeverity::Minor,
        summary: "s".to_owned(),
        player_visible_signal: "p".to_owned(),
        source_refs: Vec::new(),
        linked_entity_refs: Vec::new(),
        linked_projection_refs: vec!["proj".to_owned()],
        expected_return: ConsequenceReturnWindow::WhenRelevant,
        decay: ConsequenceDecay::default(),
    });
    let mut p = proposal();
    p.paid_off = vec![ConsequencePayoff {
        consequence_id: "consequence:alarm".to_owned(),
        payoff_summary: "가라앉았다".to_owned(),
        evidence_refs: vec!["e".to_owned()],
    }];
    let plan = plan_consequence_events(&current, Some(&p), None, None, "t").expect("plan");
    assert_eq!(plan.records.len(), 2);
    assert_eq!(plan.records[0].event_kind, ConsequenceEventKind::Escalated);
    assert_eq!(plan.records[1].event_kind, ConsequenceEventKind::PaidOff);
    assert_eq!(plan.records[1].linked_projection_refs, vec!["proj".to_owned()]);
    assert_eq!(plan.records[1].kind, ConsequenceKind::AlarmRaised);
}
