//! Deterministic world-law adjudication of one turn's input.
use crate::models::{
    ADJUDICATION_SCHEMA_VERSION, AdjudicationGate, AdjudicationReport, FREEFORM_CHOICE_TAG,
    HiddenState, TurnChoice, TurnInputKind, TurnSnapshot, WorldRecord,
};
use crate::text::{concat2, concat3, concat4, contains_any, contains_any_str, dec, dec_string, str_eq, str_views};
use vstd::prelude::*;

verus! {

pub const GATE_ALLOWED: &'static str = "allowed";
pub const GATE_CONSTRAINED: &'static str = "constrained";
pub const GATE_BLOCKED: &'static str = "blocked";

pub struct AdjudicationInput<'a> {
    pub world: &'a WorldRecord,
    pub snapshot: &'a TurnSnapshot,
    pub hidden_state: &'a HiddenState,
    pub turn_id: &'a str,
    pub input_kind: TurnInputKind,
    pub selected_choice: Option<&'a TurnChoice>,
    pub effective_input: &'a str,
}

/// A gate as `(gate, status, reason)`.
pub type GateView = (Seq<char>, Seq<char>, Seq<char>);

pub open spec fn gate_view(g: AdjudicationGate) -> GateView {
    (g.gate@, g.status@, g.reason@)
}

pub open spec fn gate_views(gs: Seq<AdjudicationGate>) -> Seq<GateView> {
    Seq::new(gs.len(), |i: int| gate_view(gs[i]))
}

pub open spec fn effort_words() -> Seq<Seq<char>> {
    seq!["달려"@, "전력"@, "싸움"@, "공격"@, "도망"@, "운반"@]
}

pub open spec fn tool_words() -> Seq<Seq<char>> {
    seq!["검"@, "돈"@, "말"@, "지도"@, "약"@, "치료"@, "도구"@, "식량"@]
}

pub open spec fn social_words() -> Seq<Seq<char>> {
    seq!["명령"@, "설득"@, "협박"@, "거짓말"@, "유혹"@, "거래"@]
}

pub open spec fn hidden_probe_words() -> Seq<Seq<char>> {
    seq!["정체"@, "비밀"@, "미래"@, "흑막"@, "앵커"@, "진실"@, "운명"@]
}

pub open spec fn is_lookup(kind: TurnInputKind) -> bool {
    kind == TurnInputKind::CodexQuery || kind == TurnInputKind::CcCanvas
}

pub open spec fn spec_body_gate(input: AdjudicationInput) -> GateView {
    if !input.world.laws.bodily_needs_active {
        ("body"@, GATE_ALLOWED@, "몸 상태 판정이 이 세계 법칙에서 비활성화되어 있다"@)
    } else if is_lookup(input.input_kind) {
        ("body"@, GATE_ALLOWED@, "정보 조회나 렌더 전환은 몸을 크게 소모하지 않는다"@)
    } else if contains_any(input.effective_input@, effort_words()) {
        ("body"@, GATE_CONSTRAINED@, "큰 움직임은 허기, 피로, 부상 위험을 남긴다"@)
    } else {
        ("body"@, GATE_ALLOWED@, "현재 몸 상태로는 시도 가능한 행동이다"@)
    }
}

pub open spec fn spec_resource_gate(input: AdjudicationInput) -> GateView {
    if contains_any(input.effective_input@, tool_words())
        && input.snapshot.protagonist_state.inventory@.len() == 0 {
        ("resource"@, GATE_BLOCKED@, "소지품에 없는 자원은 즉시 생기지 않는다"@)
    } else {
        ("resource"@, GATE_ALLOWED@, "현재 기록된 자원 안에서 처리한다"@)
    }
}

pub open spec fn spec_time_gate(input: AdjudicationInput) -> GateView {
    if is_lookup(input.input_kind) {
        ("time"@, GATE_ALLOWED@, "조회/렌더 전환은 사건 시간을 크게 밀지 않는다"@)
    } else if input.input_kind == TurnInputKind::MacroTimeFlow {
        (
            "time"@,
            GATE_CONSTRAINED@,
            "흐름 보기는 가능성을 보여주지만 확정 사건은 플레이어-visible 원인만큼만 전진한다"@,
        )
    } else {
        ("time"@, GATE_CONSTRAINED@, "행동은 최소 한 박자의 시간을 소비한다"@)
    }
}

pub open spec fn spec_social_gate(input: AdjudicationInput) -> GateView {
    if contains_any(input.effective_input@, social_words()) {
        ("social_permission"@, GATE_CONSTRAINED@, "타인의 마음과 권한은 자동으로 넘어오지 않는다"@)
    } else if input.selected_choice matches Some(choice) && (crate::text::contains(
        choice.tag@,
        "접촉"@,
    ) || crate::text::contains(choice.tag@, "관계"@)) {
        (
            "social_permission"@,
            GATE_CONSTRAINED@,
            "접촉 선택은 기회를 열지만 동의와 반응은 별도 판정한다"@,
        )
    } else {
        ("social_permission"@, GATE_ALLOWED@, "직접적인 사회적 강제는 없다"@)
    }
}

pub open spec fn spec_knowledge_gate(input: AdjudicationInput) -> GateView {
    if !input.world.laws.discovery_required {
        ("knowledge"@, GATE_ALLOWED@, "발견 요구 법칙이 비활성화되어 있다"@)
    } else if input.hidden_state.secrets@.len() == 0 {
        ("knowledge"@, GATE_ALLOWED@, "현재 숨겨진 진실 장부가 비어 있다"@)
    } else if input.input_kind == TurnInputKind::CodexQuery {
        ("knowledge"@, GATE_CONSTRAINED@, "기록는 플레이어가 알아도 되는 기록만 연다"@)
    } else if contains_any(input.effective_input@, hidden_probe_words()) {
        ("knowledge"@, GATE_BLOCKED@, "증거 없이 숨겨진 진실을 바로 확정할 수 없다"@)
    } else {
        ("knowledge"@, GATE_ALLOWED@, "보이는 증거 안에서 판정한다"@)
    }
}

pub open spec fn delegated_gate() -> GateView {
    (
        "delegated_judgment"@,
        GATE_CONSTRAINED@,
        "판단 위임은 보이는 증거 안에서 장면 압력, 존엄, 장기 흥미를 함께 보지만 세계 법칙을 우회하지 않는다"@,
    )
}

/// The gates of a turn, in their fixed order.
pub open spec fn spec_gates(input: AdjudicationInput) -> Seq<GateView> {
    let base = seq![
        spec_body_gate(input),
        spec_resource_gate(input),
        spec_time_gate(input),
        spec_social_gate(input),
        spec_knowledge_gate(input),
    ];
    if input.input_kind == TurnInputKind::GuideChoice {
        base.push(delegated_gate())
    } else {
        base
    }
}

pub open spec fn has_status(gs: Seq<GateView>, status: Seq<char>) -> bool {
    exists|i: int| 0 <= i < gs.len() && (#[trigger] gs[i]).1 == status
}

/// Blocked if any gate blocks, constrained if any constrains, else allowed.
pub open spec fn spec_outcome(gs: Seq<GateView>) -> Seq<char> {
    if has_status(gs, GATE_BLOCKED@) {
        GATE_BLOCKED@
    } else if has_status(gs, GATE_CONSTRAINED@) {
        GATE_CONSTRAINED@
    } else {
        GATE_ALLOWED@
    }
}

/// `gate: reason` for every gate that is not allowed, in order.
pub open spec fn spec_visible_constraints(gs: Seq<GateView>) -> Seq<Seq<char>>
    decreases gs.len(),
{
    if gs.len() == 0 {
        Seq::empty()
    } else {
        let g = gs.last();
        let rest = spec_visible_constraints(gs.drop_last());
        if g.1 != GATE_ALLOWED@ {
            rest.push(g.0 + ": "@ + g.2)
        } else {
            rest
        }
    }
}

/// `gate_status` for every gate that is not allowed, in order.
pub open spec fn spec_consequences(gs: Seq<GateView>) -> Seq<Seq<char>>
    decreases gs.len(),
{
    if gs.len() == 0 {
        Seq::empty()
    } else {
        let g = gs.last();
        let rest = spec_consequences(gs.drop_last());
        if g.1 != GATE_ALLOWED@ {
            rest.push(g.0 + "_"@ + g.1)
        } else {
            rest
        }
    }
}

pub open spec fn spec_action(input: AdjudicationInput) -> Seq<char> {
    match input.selected_choice {
        Some(choice) => if input.input_kind == TurnInputKind::FreeformAction && choice.tag@
            == FREEFORM_CHOICE_TAG@ {
            dec(choice.slot as nat) + "번 ["@ + choice.tag@ + "]: "@ + input.effective_input@
        } else {
            dec(choice.slot as nat) + "번 ["@ + choice.tag@ + "]"@
        },
        None => input.effective_input@,
    }
}

pub open spec fn spec_summary(outcome: Seq<char>, input: AdjudicationInput) -> Seq<char> {
    if outcome == GATE_BLOCKED@ {
        spec_action(input) + ": 세계 법칙 때문에 그대로 성립하지 않는다"@
    } else if outcome == GATE_CONSTRAINED@ {
        spec_action(input) + ": 성립하지만 비용, 시간, 권한, 지식 제한을 남긴다"@
    } else {
        spec_action(input) + ": 현재 기록 안에서는 그대로 시도 가능하다"@
    }
}

/// Build the deterministic adjudication report for a turn.
pub fn adjudicate_turn(input: &AdjudicationInput) -> (r: AdjudicationReport)
    ensures
        r.schema_version@ == ADJUDICATION_SCHEMA_VERSION@,
        r.world_id == input.world.world_id,
        r.turn_id@ == input.turn_id@,
        gate_views(r.gates@) == spec_gates(*input),
        r.outcome@ == spec_outcome(spec_gates(*input)),
        r.summary@ == spec_summary(spec_outcome(spec_gates(*input)), *input),
        crate::text::views(r.visible_constraints@) == spec_visible_constraints(
            spec_gates(*input),
        ),
        crate::text::views(r.consequences@) == spec_consequences(spec_gates(*input)),
{
    let mut gates: Vec<AdjudicationGate> = Vec::new();
    gates.push(body_gate(input));
    gates.push(resource_gate(input));
    gates.push(time_gate(input));
    gates.push(social_permission_gate(input));
    gates.push(knowledge_gate(input));
    if input.input_kind == TurnInputKind::GuideChoice {
        gates.push(
            AdjudicationGate {
                gate: String::from_str("delegated_judgment"),
                status: String::from_str(GATE_CONSTRAINED),
                reason: String::from_str(
                    "판단 위임은 보이는 증거 안에서 장면 압력, 존엄, 장기 흥미를 함께 보지만 세계 법칙을 우회하지 않는다",
                ),
            },
        );
    }
    assert(gate_views(gates@) =~= spec_gates(*input));
    let outcome = adjudication_outcome(&gates);
    let visible_constraints = visible_constraints_of(&gates);
    let consequences = consequences_of(&gates);
    let summary = adjudication_summary(outcome, input);
    AdjudicationReport {
        schema_version: String::from_str(ADJUDICATION_SCHEMA_VERSION),
        world_id: input.world.world_id.clone(),
        turn_id: String::from_str(input.turn_id),
        outcome: String::from_str(outcome),
        summary,
        gates,
        visible_constraints,
        consequences,
    }
}

fn visible_constraints_of(gates: &Vec<AdjudicationGate>) -> (r: Vec<String>)
    ensures
        crate::text::views(r@) == spec_visible_constraints(gate_views(gates@)),
{
    let mut out: Vec<String> = Vec::new();
    let mut i: usize = 0;
    while i < gates.len()
        invariant
            i <= gates.len(),
            crate::text::views(out@) == spec_visible_constraints(
                gate_views(gates@.subrange(0, i as int)),
            ),
        decreases gates.len() - i,
    {
        proof {
            assert(gate_views(gates@.subrange(0, i + 1)).drop_last() =~= gate_views(
                gates@.subrange(0, i as int),
            ));
        }
        if !str_eq(gates[i].status.as_str(), GATE_ALLOWED) {
            out.push(concat3(gates[i].gate.as_str(), ": ", gates[i].reason.as_str()));
        }
        assert(crate::text::views(out@) =~= spec_visible_constraints(
            gate_views(gates@.subrange(0, i + 1)),
        ));
        i = i + 1;
    }
    assert(gates@.subrange(0, gates.len() as int) =~= gates@);
    out
}

fn consequences_of(gates: &Vec<AdjudicationGate>) -> (r: Vec<String>)
    ensures
        crate::text::views(r@) == spec_consequences(gate_views(gates@)),
{
    let mut out: Vec<String> = Vec::new();
    let mut i: usize = 0;
    while i < gates.len()
        invariant
            i <= gates.len(),
            crate::text::views(out@) == spec_consequences(gate_views(gates@.subrange(0, i as int))),
        decreases gates.len() - i,
    {
        proof {
            assert(gate_views(gates@.subrange(0, i + 1)).drop_last() =~= gate_views(
                gates@.subrange(0, i as int),
            ));
        }
        if !str_eq(gates[i].status.as_str(), GATE_ALLOWED) {
            out.push(concat3(gates[i].gate.as_str(), "_", gates[i].status.as_str()));
        }
        assert(crate::text::views(out@) =~= spec_consequences(
            gate_views(gates@.subrange(0, i + 1)),
        ));
        i = i + 1;
    }
    assert(gates@.subrange(0, gates.len() as int) =~= gates@);
    out
}

fn is_lookup_kind(kind: TurnInputKind) -> (r: bool)
    ensures
        r == is_lookup(kind),
{
    kind == TurnInputKind::CodexQuery || kind == TurnInputKind::CcCanvas
}

fn body_gate(input: &AdjudicationInput) -> (r: AdjudicationGate)
    ensures
        gate_view(r) == spec_body_gate(*input),
{
    if !input.world.laws.bodily_needs_active {
        return allowed_gate("body", "몸 상태 판정이 이 세계 법칙에서 비활성화되어 있다");
    }
    if is_lookup_kind(input.input_kind) {
        return allowed_gate("body", "정보 조회나 렌더 전환은 몸을 크게 소모하지 않는다");
    }
    let words: [&str; 6] = ["달려", "전력", "싸움", "공격", "도망", "운반"];
    assert(str_views(words@) =~= effort_words());
    if contains_any_str(input.effective_input, &words) {
        return constrained_gate("body", "큰 움직임은 허기, 피로, 부상 위험을 남긴다");
    }
    allowed_gate("body", "현재 몸 상태로는 시도 가능한 행동이다")
}

fn resource_gate(input: &AdjudicationInput) -> (r: AdjudicationGate)
    ensures
        gate_view(r) == spec_resource_gate(*input),
{
    let words: [&str; 8] = ["검", "돈", "말", "지도", "약", "치료", "도구", "식량"];
    assert(str_views(words@) =~= tool_words());
    if contains_any_str(input.effective_input, &words)
        && input.snapshot.protagonist_state.inventory.len() == 0 {
        return blocked_gate("resource", "소지품에 없는 자원은 즉시 생기지 않는다");
    }
    allowed_gate("resource", "현재 기록된 자원 안에서 처리한다")
}

fn time_gate(input: &AdjudicationInput) -> (r: AdjudicationGate)
    ensures
        gate_view(r) == spec_time_gate(*input),
{
    match input.input_kind {
        TurnInputKind::CodexQuery | TurnInputKind::CcCanvas => {
            allowed_gate("time", "조회/렌더 전환은 사건 시간을 크게 밀지 않는다")
        },
        TurnInputKind::MacroTimeFlow => constrained_gate(
            "time",
            "흐름 보기는 가능성을 보여주지만 확정 사건은 플레이어-visible 원인만큼만 전진한다",
        ),
        TurnInputKind::NumericChoice
        | TurnInputKind::GuideChoice
        | TurnInputKind::FreeformAction => {
            constrained_gate("time", "행동은 최소 한 박자의 시간을 소비한다")
        },
    }
}

fn social_permission_gate(input: &AdjudicationInput) -> (r: AdjudicationGate)
    ensures
        gate_view(r) == spec_social_gate(*input),
{
    let words: [&str; 6] = ["명령", "설득", "협박", "거짓말", "유혹", "거래"];
    assert(str_views(words@) =~= social_words());
    if contains_any_str(input.effective_input, &words) {
        return constrained_gate(
            "social_permission",
            "타인의 마음과 권한은 자동으로 넘어오지 않는다",
        );
    }
    let contact_choice = match input.selected_choice {
        Some(choice) => crate::text::contains_str(choice.tag.as_str(), "접촉")
            || crate::text::contains_str(choice.tag.as_str(), "관계"),
        None => false,
    };
    if contact_choice {
        return constrained_gate(
            "social_permission",
            "접촉 선택은 기회를 열지만 동의와 반응은 별도 판정한다",
        );
    }
    allowed_gate("social_permission", "직접적인 사회적 강제는 없다")
}

fn knowledge_gate(input: &AdjudicationInput) -> (r: AdjudicationGate)
    ensures
        gate_view(r) == spec_knowledge_gate(*input),
{
    if !input.world.laws.discovery_required {
        return allowed_gate("knowledge", "발견 요구 법칙이 비활성화되어 있다");
    }
    if input.hidden_state.secrets.len() == 0 {
        return allowed_gate("knowledge", "현재 숨겨진 진실 장부가 비어 있다");
    }
    if input.input_kind == TurnInputKind::CodexQuery {
        return constrained_gate("knowledge", "기록는 플레이어가 알아도 되는 기록만 연다");
    }
    let words: [&str; 7] = ["정체", "비밀", "미래", "흑막", "앵커", "진실", "운명"];
    assert(str_views(words@) =~= hidden_probe_words());
    if contains_any_str(input.effective_input, &words) {
        return blocked_gate("knowledge", "증거 없이 숨겨진 진실을 바로 확정할 수 없다");
    }
    allowed_gate("knowledge", "보이는 증거 안에서 판정한다")
}

fn adjudication_outcome(gates: &Vec<AdjudicationGate>) -> (r: &'static str)
    ensures
        r@ == spec_outcome(gate_views(gates@)),
{
    let mut any_blocked = false;
    let mut any_constrained = false;
    let mut i: usize = 0;
    let ghost gv = gate_views(gates@);
    while i < gates.len()
        invariant
            i <= gates.len(),
            gv == gate_views(gates@),
            any_blocked == exists|k: int| 0 <= k < i && (#[trigger] gv[k]).1 == GATE_BLOCKED@,
            any_constrained == exists|k: int|
                0 <= k < i && (#[trigger] gv[k]).1 == GATE_CONSTRAINED@,
        decreases gates.len() - i,
    {
        assert(gv[i as int].1 == gates@[i as int].status@);
        if str_eq(gates[i].status.as_str(), GATE_BLOCKED) {
            any_blocked = true;
        }
        if str_eq(gates[i].status.as_str(), GATE_CONSTRAINED) {
            any_constrained = true;
        }
        i = i + 1;
    }
    if any_blocked {
        GATE_BLOCKED
    } else if any_constrained {
        GATE_CONSTRAINED
    } else {
        GATE_ALLOWED
    }
}

fn adjudication_action(input: &AdjudicationInput) -> (r: String)
    ensures
        r@ == spec_action(*input),
{
    match input.selected_choice {
        Some(choice) => {
            let slot = dec_string(choice.slot as u64);
            if input.input_kind == TurnInputKind::FreeformAction && str_eq(
                choice.tag.as_str(),
                FREEFORM_CHOICE_TAG,
            ) {
                let head = concat4(slot.as_str(), "번 [", choice.tag.as_str(), "]: ");
                concat2(head.as_str(), input.effective_input)
            } else {
                concat4(slot.as_str(), "번 [", choice.tag.as_str(), "]")
            }
        },
        None => String::from_str(input.effective_input),
    }
}

fn adjudication_summary(outcome: &str, input: &AdjudicationInput) -> (r: String)
    ensures
        r@ == spec_summary(outcome@, *input),
{
    let action = adjudication_action(input);
    if str_eq(outcome, GATE_BLOCKED) {
        concat2(action.as_str(), ": 세계 법칙 때문에 그대로 성립하지 않는다")
    } else if str_eq(outcome, GATE_CONSTRAINED) {
        concat2(action.as_str(), ": 성립하지만 비용, 시간, 권한, 지식 제한을 남긴다")
    } else {
        concat2(action.as_str(), ": 현재 기록 안에서는 그대로 시도 가능하다")
    }
}

fn make_gate(gate: &str, status: &str, reason: &str) -> (r: AdjudicationGate)
    ensures
        gate_view(r) == (gate@, status@, reason@),
{
    AdjudicationGate {
        gate: String::from_str(gate),
        status: String::from_str(status),
        reason: String::from_str(reason),
    }
}

fn allowed_gate(gate: &str, reason: &str) -> (r: AdjudicationGate)
    ensures
        gate_view(r) == (gate@, GATE_ALLOWED@, reason@),
{
    make_gate(gate, GATE_ALLOWED, reason)
}

fn constrained_gate(gate: &str, reason: &str) -> (r: AdjudicationGate)
    ensures
        gate_view(r) == (gate@, GATE_CONSTRAINED@, reason@),
{
    make_gate(gate, GATE_CONSTRAINED, reason)
}

fn blocked_gate(gate: &str, reason: &str) -> (r: AdjudicationGate)
    ensures
        gate_view(r) == (gate@, GATE_BLOCKED@, reason@),
{
    make_gate(gate, GATE_BLOCKED, reason)
}

/// A knowledge gate that blocks forces the whole turn to be blocked, whatever
/// the other gates say.
pub proof fn law_blocked_gate_blocks_turn(gs: Seq<GateView>, i: int)
    requires
        0 <= i < gs.len(),
        gs[i].1 == GATE_BLOCKED@,
    ensures
        spec_outcome(gs) == GATE_BLOCKED@,
{
    assert(has_status(gs, GATE_BLOCKED@));
}

proof fn lemma_consequences_list_gate(gs: Seq<GateView>, i: int)
    requires
        0 <= i < gs.len(),
        gs[i].1 != GATE_ALLOWED@,
    ensures
        spec_consequences(gs).contains(gs[i].0 + "_"@ + gs[i].1),
    decreases gs.len(),
{
    if i < gs.len() - 1 {
        assert(gs.drop_last()[i] == gs[i]);
        lemma_consequences_list_gate(gs.drop_last(), i);
        let c = spec_consequences(gs.drop_last());
        if gs.last().1 != GATE_ALLOWED@ {
            let k = choose|k: int| 0 <= k < c.len() && c[k] == gs[i].0 + "_"@ + gs[i].1;
            assert(spec_consequences(gs)[k] == c[k]);
        }
    } else {
        let c = spec_consequences(gs.drop_last());
        assert(spec_consequences(gs)[c.len() as int] == gs[i].0 + "_"@ + gs[i].1);
    }
}

/// An input that commands, persuades, threatens, lies, seduces or bargains
/// (명령, 설득, 협박, 거짓말, 유혹, 거래) never passes the social permission gate
/// unchecked: that gate, the fourth, is constrained, and so the turn as a
/// whole is not allowed outright.
pub proof fn law_social_push_constrains_permission(input: AdjudicationInput)
    requires
        crate::text::contains(input.effective_input@, "명령"@) || crate::text::contains(
            input.effective_input@,
            "설득"@,
        ) || crate::text::contains(input.effective_input@, "협박"@) || crate::text::contains(
            input.effective_input@,
            "거짓말"@,
        ) || crate::text::contains(input.effective_input@, "유혹"@) || crate::text::contains(
            input.effective_input@,
            "거래"@,
        ),
    ensures
        spec_gates(input)[3].0 == "social_permission"@,
        spec_gates(input)[3].1 == "constrained"@,
        spec_gates(input)[3].1 != "allowed"@,
        spec_outcome(spec_gates(input)) != "allowed"@,
        spec_consequences(spec_gates(input)).contains("social_permission"@ + "_"@ + "constrained"@),
{
    let ws = social_words();
    let x = input.effective_input@;
    if crate::text::contains(x, "명령"@) {
        assert(crate::text::contains(x, ws[0]));
    } else if crate::text::contains(x, "설득"@) {
        assert(crate::text::contains(x, ws[1]));
    } else if crate::text::contains(x, "협박"@) {
        assert(crate::text::contains(x, ws[2]));
    } else if crate::text::contains(x, "거짓말"@) {
        assert(crate::text::contains(x, ws[3]));
    } else if crate::text::contains(x, "유혹"@) {
        assert(crate::text::contains(x, ws[4]));
    } else {
        assert(crate::text::contains(x, ws[5]));
    }
    assert(crate::text::contains_any(x, ws));
    let gs = spec_gates(input);
    reveal_strlit("constrained");
    reveal_strlit("allowed");
    reveal_strlit("blocked");
    assert(gs[3].1 == GATE_CONSTRAINED@);
    assert(has_status(gs, GATE_CONSTRAINED@));
    assert(GATE_BLOCKED@ == "blocked"@);
    assert("blocked"@[0] != "allowed"@[0]);
    assert(GATE_CONSTRAINED@ != "allowed"@) by {
        assert("constrained"@[0] != "allowed"@[0]);
    }
    assert(GATE_BLOCKED@ != "allowed"@);
    lemma_consequences_list_gate(gs, 3);
}

} // verus!
