//! Knowledge tiers and how each may reach player-visible text.
use crate::text::{ascii_lower, contains, contains_any_ascii_ci, contains_any_ascii_ci_str, occurs_at, str_views};
use vstd::prelude::*;

verus! {

pub const KNOWLEDGE_CLAIM_SCHEMA_VERSION: &'static str = "singulari.knowledge_claim.v1";

/// How far a piece of knowledge is established for the player.
#[derive(Debug, Clone, Copy, PartialEq, Eq, Structural)]
pub enum KnowledgeTier {
    WorldTrueHidden,
    PlayerObserved,
    PlayerInferred,
    Rumor,
    FalseBelief,
    Contradicted,
}

impl KnowledgeTier {
    /// The tier a claim has when none is given.
    pub fn default_tier() -> (r: Self)
        ensures
            r == KnowledgeTier::PlayerObserved,
    {
        KnowledgeTier::PlayerObserved
    }
}

#[derive(Debug, Clone, Copy, PartialEq, Eq, Structural)]
pub enum TruthStatus {
    True,
    False,
    Unknown,
    Contested,
    Inferred,
    Rumored,
}

#[derive(Debug, Clone)]
pub struct KnowledgeClaim {
    pub schema_version: String,
    pub claim_id: String,
    pub holder_ref: String,
    pub tier: KnowledgeTier,
    pub truth_status: TruthStatus,
    pub proposition: String,
    pub evidence_refs: Vec<String>,
}

/// How a tier may be rendered on a player-visible surface.
#[derive(Debug, Clone, Copy, PartialEq, Eq, Structural)]
pub enum PlayerRenderPermission {
    DirectFact,
    UncertainInference,
    SourcedRumor,
    BeliefOnly,
    BlockedHiddenTruth,
}

pub open spec fn render_permission_of(tier: KnowledgeTier) -> PlayerRenderPermission {
    match tier {
        KnowledgeTier::WorldTrueHidden => PlayerRenderPermission::BlockedHiddenTruth,
        KnowledgeTier::PlayerObserved => PlayerRenderPermission::DirectFact,
        KnowledgeTier::PlayerInferred => PlayerRenderPermission::UncertainInference,
        KnowledgeTier::Rumor => PlayerRenderPermission::SourcedRumor,
        KnowledgeTier::FalseBelief | KnowledgeTier::Contradicted => PlayerRenderPermission::BeliefOnly,
    }
}

pub fn player_render_permission(tier: KnowledgeTier) -> (r: PlayerRenderPermission)
    ensures
        r == render_permission_of(tier),
{
    match tier {
        KnowledgeTier::WorldTrueHidden => PlayerRenderPermission::BlockedHiddenTruth,
        KnowledgeTier::PlayerObserved => PlayerRenderPermission::DirectFact,
        KnowledgeTier::PlayerInferred => PlayerRenderPermission::UncertainInference,
        KnowledgeTier::Rumor => PlayerRenderPermission::SourcedRumor,
        KnowledgeTier::FalseBelief | KnowledgeTier::Contradicted => PlayerRenderPermission::BeliefOnly,
    }
}

/// Every tier but hidden world truth may reach the player in some form.
pub fn can_render_knowledge_tier_to_player(tier: KnowledgeTier) -> (r: bool)
    ensures
        r == (render_permission_of(tier) != PlayerRenderPermission::BlockedHiddenTruth),
        r == (tier != KnowledgeTier::WorldTrueHidden),
{
    match player_render_permission(tier) {
        PlayerRenderPermission::BlockedHiddenTruth => false,
        _ => true,
    }
}

pub open spec fn render_rule_of(p: PlayerRenderPermission) -> Seq<char> {
    match p {
        PlayerRenderPermission::DirectFact => "may render as observed fact"@,
        PlayerRenderPermission::UncertainInference => "must render with uncertainty language"@,
        PlayerRenderPermission::SourcedRumor => "must render with source/rumor framing"@,
        PlayerRenderPermission::BeliefOnly => "must render as a holder belief, not world fact"@,
        PlayerRenderPermission::BlockedHiddenTruth => "must not render to player-visible surfaces"@,
    }
}

pub fn render_rule_for_player(tier: KnowledgeTier) -> (r: &'static str)
    ensures
        r@ == render_rule_of(render_permission_of(tier)),
{
    match player_render_permission(tier) {
        PlayerRenderPermission::DirectFact => "may render as observed fact",
        PlayerRenderPermission::UncertainInference => "must render with uncertainty language",
        PlayerRenderPermission::SourcedRumor => "must render with source/rumor framing",
        PlayerRenderPermission::BeliefOnly => "must render as a holder belief, not world fact",
        PlayerRenderPermission::BlockedHiddenTruth => "must not render to player-visible surfaces",
    }
}

pub open spec fn uncertainty_markers() -> Seq<Seq<char>> {
    seq![
        "추정"@,
        "가능성"@,
        "듯"@,
        "아마"@,
        "확실하지"@,
        "inferred"@,
        "seems"@,
        "may"@,
        "might"@,
        "uncertain"@,
    ]
}

pub open spec fn rumor_markers() -> Seq<Seq<char>> {
    seq!["소문"@, "전해"@, "들었"@, "출처"@, "rumor"@, "heard"@, "reported"@, "source"@]
}

pub open spec fn belief_markers() -> Seq<Seq<char>> {
    seq!["믿"@, "오해"@, "착각"@, "belief"@, "believes"@, "mistaken"@]
}

/// Player-visible text for a tier carries the framing that the tier demands.
pub open spec fn text_is_qualified(tier: KnowledgeTier, text: Seq<char>) -> bool {
    match render_permission_of(tier) {
        PlayerRenderPermission::DirectFact => true,
        PlayerRenderPermission::UncertainInference => contains_any_ascii_ci(text, uncertainty_markers()),
        PlayerRenderPermission::SourcedRumor => contains_any_ascii_ci(text, rumor_markers()),
        PlayerRenderPermission::BeliefOnly => contains_any_ascii_ci(text, belief_markers()),
        PlayerRenderPermission::BlockedHiddenTruth => false,
    }
}

pub fn visible_knowledge_text_is_qualified(tier: KnowledgeTier, text: &str) -> (r: bool)
    ensures
        r == text_is_qualified(tier, text@),
{
    match player_render_permission(tier) {
        PlayerRenderPermission::DirectFact => true,
        PlayerRenderPermission::UncertainInference => {
            let needles: [&str; 10] = [
                "추정",
                "가능성",
                "듯",
                "아마",
                "확실하지",
                "inferred",
                "seems",
                "may",
                "might",
                "uncertain",
            ];
            assert(str_views(needles@) =~= uncertainty_markers());
            contains_any_ascii_ci_str(text, &needles)
        },
        PlayerRenderPermission::SourcedRumor => {
            let needles: [&str; 8] = [
                "소문",
                "전해",
                "들었",
                "출처",
                "rumor",
                "heard",
                "reported",
                "source",
            ];
            assert(str_views(needles@) =~= rumor_markers());
            contains_any_ascii_ci_str(text, &needles)
        },
        PlayerRenderPermission::BeliefOnly => {
            let needles: [&str; 6] = ["믿", "오해", "착각", "belief", "believes", "mistaken"];
            assert(str_views(needles@) =~= belief_markers());
            contains_any_ascii_ci_str(text, &needles)
        },
        PlayerRenderPermission::BlockedHiddenTruth => false,
    }
}

/// Hidden world truth is never qualified for a player-visible surface,
/// whatever the text says; observed facts always are.
pub proof fn law_hidden_truth_never_renders(text: Seq<char>)
    ensures
        !text_is_qualified(KnowledgeTier::WorldTrueHidden, text),
        text_is_qualified(KnowledgeTier::PlayerObserved, text),
{
}


proof fn lemma_contains_extends(a: Seq<char>, b: Seq<char>, n: Seq<char>)
    requires
        contains(a, n),
    ensures
        contains(a + b, n),
{
    let i = choose|i: int| #[trigger] occurs_at(a, n, i);
    assert((a + b).subrange(i, i + n.len()) =~= a.subrange(i, i + n.len()));
    assert(occurs_at(a + b, n, i));
}

proof fn lemma_contains_any_ci_extends(a: Seq<char>, b: Seq<char>, needles: Seq<Seq<char>>)
    requires
        contains_any_ascii_ci(a, needles),
    ensures
        contains_any_ascii_ci(a + b, needles),
{
    let i = choose|i: int|
        0 <= i < needles.len() && (contains(a, #[trigger] needles[i]) || contains(
            ascii_lower(a),
            ascii_lower(needles[i]),
        ));
    assert(ascii_lower(a + b) =~= ascii_lower(a) + ascii_lower(b));
    if contains(a, needles[i]) {
        lemma_contains_extends(a, b, needles[i]);
    } else {
        lemma_contains_extends(ascii_lower(a), ascii_lower(b), ascii_lower(needles[i]));
    }
}

/// Appending text never takes away the framing a tier demands: text that is
/// qualified for a tier stays qualified with more text after it.
pub proof fn law_appending_keeps_text_qualified(tier: KnowledgeTier, a: Seq<char>, b: Seq<char>)
    requires
        text_is_qualified(tier, a),
    ensures
        text_is_qualified(tier, a + b),
{
    match render_permission_of(tier) {
        PlayerRenderPermission::UncertainInference => lemma_contains_any_ci_extends(a, b, uncertainty_markers()),
        PlayerRenderPermission::SourcedRumor => lemma_contains_any_ci_extends(a, b, rumor_markers()),
        PlayerRenderPermission::BeliefOnly => lemma_contains_any_ci_extends(a, b, belief_markers()),
        _ => {},
    }
}

} // verus!
