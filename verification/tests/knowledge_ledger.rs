use singulari_world::knowledge_ledger::{
    can_render_knowledge_tier_to_player, player_render_permission, render_rule_for_player,
    visible_knowledge_text_is_qualified, KnowledgeTier, PlayerRenderPermission,
};

#[test]
fn hidden_truth_is_not_player_renderable() {
    assert!(!can_render_knowledge_tier_to_player(
        KnowledgeTier::WorldTrueHidden
    ));
    assert_eq!(
        player_render_permission(KnowledgeTier::WorldTrueHidden),
        PlayerRenderPermission::BlockedHiddenTruth
    );
}

#[test]
fn inferred_and_rumor_tiers_require_qualified_rendering() {
    assert_eq!(
        player_render_permission(KnowledgeTier::PlayerInferred),
        PlayerRenderPermission::UncertainInference
    );
    assert_eq!(
        player_render_permission(KnowledgeTier::Rumor),
        PlayerRenderPermission::SourcedRumor
    );
    assert!(render_rule_for_player(KnowledgeTier::Rumor).contains("source"));
    assert!(visible_knowledge_text_is_qualified(
        KnowledgeTier::PlayerInferred,
        "북문 뒤쪽에 누군가 있을 가능성이 있다"
    ));
    assert!(!visible_knowledge_text_is_qualified(
        KnowledgeTier::PlayerInferred,
        "북문 뒤쪽에 암살자가 있다"
    ));
}

#[test]
fn ascii_markers_match_case_insensitively() {
    assert!(visible_knowledge_text_is_qualified(
        KnowledgeTier::Rumor,
        "As REPORTED by the porter"
    ));
    assert!(visible_knowledge_text_is_qualified(
        KnowledgeTier::FalseBelief,
        "the guard BELIEVES the door stays closed"
    ));
    assert!(!visible_knowledge_text_is_qualified(
        KnowledgeTier::FalseBelief,
        "the door stays closed"
    ));
}

#[test]
fn hidden_truth_is_never_qualified_and_observed_always_is() {
    assert!(!visible_knowledge_text_is_qualified(
        KnowledgeTier::WorldTrueHidden,
        "it seems the rumor says so"
    ));
    assert!(visible_knowledge_text_is_qualified(
        KnowledgeTier::PlayerObserved,
        ""
    ));
    assert!(can_render_knowledge_tier_to_player(KnowledgeTier::Contradicted));
    assert_eq!(
        player_render_permission(KnowledgeTier::Contradicted),
        PlayerRenderPermission::BeliefOnly
    );
    assert_eq!(KnowledgeTier::default_tier(), KnowledgeTier::PlayerObserved);
}

#[test]
fn appending_text_keeps_qualified_text_qualified() {
    let base = "The door seems locked";
    assert!(visible_knowledge_text_is_qualified(KnowledgeTier::PlayerInferred, base));
    let longer = format!("{base}, and the hinge is rusted.");
    assert!(visible_knowledge_text_is_qualified(KnowledgeTier::PlayerInferred, &longer));
    let belief = "He BELIEVES the guard lied";
    assert!(visible_knowledge_text_is_qualified(KnowledgeTier::FalseBelief, belief));
    assert!(visible_knowledge_text_is_qualified(
        KnowledgeTier::FalseBelief,
        &format!("{belief} yesterday.")
    ));
    assert!(!visible_knowledge_text_is_qualified(KnowledgeTier::WorldTrueHidden, base));
}
