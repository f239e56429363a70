use singulari_world::consequence_spine::{
    audit_consequence_contract, audit_significant_resolution_has_consequence_path,
    reject_hidden_text, require_visible_refs, ConsequenceAuditError, ConsequenceKind,
    ConsequenceMutation, ConsequencePayoff, ConsequenceProposal, ConsequenceScope,
    ConsequenceSeverity, ConsequenceSpineError, ConsequenceSpinePacket,
    EphemeralConsequenceReason, CONSEQUENCE_PROPOSAL_SCHEMA_VERSION,
};
use singulari_world::resolution::{
    ProposedEffect, ProposedEffectKind, ResolutionOutcome, ResolutionOutcomeKind,
    ResolutionProposal, ResolutionVisibility, RESOLUTION_PROPOSAL_SCHEMA_VERSION,
};

fn packet() -> ConsequenceSpinePacket {
    ConsequenceSpinePacket {
        world_id: "world".to_owned(),
        turn_id: "turn_0003".to_owned(),
        ..ConsequenceSpinePacket::default()
    }
}

fn strings(items: &[&str]) -> Vec<String> {
    items.iter().map(|s| (*s).to_owned()).collect()
}

fn mutation(severity: ConsequenceSeverity, refs: &[&str], projections: &[&str], summary: &str) -> ConsequenceMutation {
    ConsequenceMutation {
        consequence_id: "consequence:guard".to_owned(),
        kind: ConsequenceKind::SuspicionRaised,
        scope: ConsequenceScope::Relationship,
        severity,
        summary: summary.to_owned(),
        player_visible_signal: "문지기가 눈을 가늘게 뜬다".to_owned(),
        source_refs: strings(refs),
        linked_entity_refs: Vec::new(),
        linked_projection_refs: strings(projections),
    }
}

fn proposal(introduced: Vec<ConsequenceMutation>) -> ConsequenceProposal {
    ConsequenceProposal {
        schema_version: CONSEQUENCE_PROPOSAL_SCHEMA_VERSION.to_owned(),
        world_id: "world".to_owned(),
        turn_id: "turn_0003".to_owned(),
        introduced,
        updated: Vec::new(),
        paid_off: Vec::new(),
        ephemeral_effects: Vec::new(),
    }
}

fn visible() -> Vec<String> {
    strings(&["choice:1", "visible_scene:guard", "  "])
}

fn hidden() -> Vec<String> {
    strings(&["the guard is the missing heir", "short"])
}

#[test]
fn visible_refs_must_be_given_and_seen() {
    match require_visible_refs(&visible(), "consequence payoff", &Vec::new()) {
        Err(ConsequenceAuditError::MissingRefs { label }) => assert_eq!(label, "consequence payoff"),
        other => panic!("unexpected {other:?}"),
    }
    let err = require_visible_refs(&visible(), "consequence mutation", &strings(&["choice:1", "secret:1", "  "]))
        .expect_err("non-visible");
    assert_eq!(err.message(), "consequence mutation references non-visible refs: secret:1,   ");
    assert!(require_visible_refs(&visible(), "x", &strings(&["choice:1"])).is_ok());
}

#[test]
fn hidden_strings_of_eight_characters_are_rejected() {
    assert!(reject_hidden_text(&hidden(), "rumor: the guard is the missing heir!").is_err());
    assert!(reject_hidden_text(&hidden(), "a short walk").is_ok());
    assert!(reject_hidden_text(&hidden(), "   ").is_ok());
}

#[test]
fn audit_accepts_a_visible_proposal() {
    let p = proposal(vec![mutation(ConsequenceSeverity::Minor, &["choice:1"], &[], "문지기가 의심한다")]);
    assert!(audit_consequence_contract(&visible(), &hidden(), &packet(), Some(&p), None).is_ok());
    assert!(audit_consequence_contract(&visible(), &hidden(), &packet(), None, None).is_ok());
}

#[test]
fn audit_refuses_major_mutation_without_projection() {
    let p = proposal(vec![mutation(ConsequenceSeverity::Major, &["choice:1"], &[], "문지기가 의심한다")]);
    let err = audit_consequence_contract(&visible(), &hidden(), &packet(), Some(&p), None).expect_err("major");
    assert_eq!(err.message(), "major/critical consequence mutation requires linked_projection_refs");
    let ok = proposal(vec![mutation(ConsequenceSeverity::Critical, &["choice:1"], &["rel:guard"], "문지기가 의심한다")]);
    assert!(audit_consequence_contract(&visible(), &hidden(), &packet(), Some(&ok), None).is_ok());
}

#[test]
fn audit_refuses_hidden_text_and_unseen_refs() {
    let leak = proposal(vec![mutation(
        ConsequenceSeverity::Minor,
        &["choice:1"],
        &[],
        "the guard is the missing heir",
    )]);
    assert!(matches!(
        audit_consequence_contract(&visible(), &hidden(), &packet(), Some(&leak), None),
        Err(ConsequenceAuditError::HiddenText)
    ));
    let mut unseen = proposal(Vec::new());
    unseen.paid_off = vec![ConsequencePayoff {
        consequence_id: "consequence:x".to_owned(),
        payoff_summary: "paid".to_owned(),
        evidence_refs: strings(&["hidden:1"]),
    }];
    match audit_consequence_contract(&visible(), &hidden(), &packet(), Some(&unseen), None) {
        Err(ConsequenceAuditError::NonVisibleRefs { label, missing }) => {
            assert_eq!(label, "consequence payoff");
            assert_eq!(missing, strings(&["hidden:1"]));
        }
        other => panic!("unexpected {other:?}"),
    }
    let mut eph = proposal(Vec::new());
    eph.ephemeral_effects = vec![EphemeralConsequenceReason {
        effect_ref: "effect:0".to_owned(),
        reason: "passing".to_owned(),
        evidence_refs: strings(&["nowhere"]),
    }];
    match audit_consequence_contract(&visible(), &hidden(), &packet(), Some(&eph), None) {
        Err(ConsequenceAuditError::NonVisibleRefs { label, .. }) => {
            assert_eq!(label, "ephemeral consequence reason")
        }
        other => panic!("unexpected {other:?}"),
    }
}

#[test]
fn audit_reports_the_proposal_check_first() {
    let mut p = proposal(vec![mutation(ConsequenceSeverity::Major, &[], &[], "x")]);
    p.world_id = "other".to_owned();
    assert!(matches!(
        audit_consequence_contract(&visible(), &hidden(), &packet(), Some(&p), None),
        Err(ConsequenceAuditError::Proposal(ConsequenceSpineError::WorldTurnMismatch))
    ));
}

#[test]
fn significant_effects_always_have_a_consequence_path() {
    let resolution = ResolutionProposal {
        schema_version: RESOLUTION_PROPOSAL_SCHEMA_VERSION.to_owned(),
        world_id: "world".to_owned(),
        turn_id: "turn_0003".to_owned(),
        outcome: ResolutionOutcome {
            kind: ResolutionOutcomeKind::Success,
            summary: "ok".to_owned(),
            evidence_refs: Vec::new(),
        },
        gate_results: Vec::new(),
        proposed_effects: vec![ProposedEffect {
            effect_kind: ProposedEffectKind::BeliefDelta,
            target_ref: "belief:1".to_owned(),
            visibility: ResolutionVisibility::PlayerVisible,
            summary: "s".to_owned(),
            evidence_refs: strings(&["uncovered"]),
        }],
        process_ticks: Vec::new(),
    };
    assert!(audit_significant_resolution_has_consequence_path(None, &resolution).is_ok());
    assert!(audit_consequence_contract(&visible(), &hidden(), &packet(), None, Some(&resolution)).is_ok());
}
