//! The five ordinary choice-slot affordances of a turn.
use crate::body_resource::{BodyResourcePacket, ResourceItem};
use crate::location_graph::{LocationGraphPacket, LocationNode};
use crate::scene_pressure::{ScenePressure, ScenePressureKind, ScenePressurePacket};
use crate::text::{clone_strings, views};
use vstd::prelude::*;

verus! {

pub const AFFORDANCE_GRAPH_PACKET_SCHEMA_VERSION: &'static str = "singulari.affordance_graph_packet.v1";
pub const AFFORDANCE_NODE_SCHEMA_VERSION: &'static str = "singulari.affordance_node.v1";
pub const ORDINARY_AFFORDANCE_SLOT_COUNT: u8 = 5;

#[derive(Debug, Clone)]
pub struct AffordanceGraphPacket {
    pub schema_version: String,
    pub world_id: String,
    pub turn_id: String,
    pub ordinary_choice_slots: Vec<AffordanceNode>,
    pub compiler_policy: AffordanceGraphPolicy,
}

#[derive(Debug, Clone)]
pub struct AffordanceNode {
    pub schema_version: String,
    pub slot: u8,
    pub affordance_id: String,
    pub affordance_kind: AffordanceKind,
    pub label_contract: String,
    pub action_contract: String,
    pub source_refs: Vec<String>,
    pub pressure_refs: Vec<String>,
    pub forbidden_shortcuts: Vec<String>,
}

#[derive(Debug, Clone, Copy, PartialEq, Eq, Structural)]
pub enum AffordanceKind {
    Move,
    Observe,
    Contact,
    ResourceOrBody,
    PressureResponse,
}

#[derive(Debug, Clone)]
pub struct AffordanceGraphPolicy {
    pub source: String,
    pub use_rules: Vec<String>,
}

impl Default for AffordanceGraphPolicy {
        fn default() -> (r: Self)
        ensures
            r.source@ == "compiled_from_visible_scene_pressure_body_resource_location_v1"@,
            r.use_rules@.len() == 4,
    {
        let mut use_rules = Vec::new();
        use_rules.push(
            String::from_str(
                "Slots 1..5 must be rewritten as scene-specific choices grounded in these affordances.",
            ),
        );
        use_rules.push(
            String::from_str(
                "Affordances are action permissions, not hidden lore or plot suggestions.",
            ),
        );
        use_rules.push(
            String::from_str(
                "Do not copy affordance_id/source_refs into player-visible choice text.",
            ),
        );
        use_rules.push(
            String::from_str(
                "Slot 6 remains freeform and slot 7 remains delegated judgment; this graph only covers ordinary slots 1..5.",
            ),
        );
        AffordanceGraphPolicy {
            source: String::from_str(
                "compiled_from_visible_scene_pressure_body_resource_location_v1",
            ),
            use_rules,
        }
    }
}

// ---------------------------------------------------------------------------
// Specification.
// ---------------------------------------------------------------------------

pub open spec fn pressure_ids(ps: Seq<ScenePressure>) -> Seq<Seq<char>> {
    Seq::new(ps.len(), |i: int| ps[i].pressure_id@)
}

/// All observable signals of the pressures, in order.
pub open spec fn signal_refs(ps: Seq<ScenePressure>) -> Seq<Seq<char>>
    decreases ps.len(),
{
    if ps.len() == 0 {
        Seq::empty()
    } else {
        signal_refs(ps.drop_last()) + views(ps.last().observable_signals@)
    }
}

pub open spec fn is_social_kind(k: ScenePressureKind) -> bool {
    k == ScenePressureKind::SocialPermission || k == ScenePressureKind::Threat || k
        == ScenePressureKind::Desire || k == ScenePressureKind::MoralCost
}

/// Ids of the pressures that invite a social reaction, in order.
pub open spec fn social_ids(ps: Seq<ScenePressure>) -> Seq<Seq<char>>
    decreases ps.len(),
{
    if ps.len() == 0 {
        Seq::empty()
    } else if is_social_kind(ps.last().kind) {
        social_ids(ps.drop_last()).push(ps.last().pressure_id@)
    } else {
        social_ids(ps.drop_last())
    }
}

/// `i` is the strongest pressure as `max_by_key` picks it: maximal
/// intensity, the last one among equals.
pub open spec fn is_strongest(ps: Seq<ScenePressure>, i: int) -> bool {
    &&& 0 <= i < ps.len()
    &&& forall|j: int| 0 <= j < ps.len() ==> ps[j].intensity <= ps[i].intensity
    &&& forall|j: int| i < j < ps.len() ==> ps[j].intensity < ps[i].intensity
}

pub open spec fn location_refs(loc: LocationNode) -> Seq<Seq<char>> {
    views(loc.source_refs@).push(loc.location_id@)
}

pub open spec fn movement_refs(g: LocationGraphPacket) -> Seq<Seq<char>> {
    if g.known_nearby_locations@.len() > 0 {
        location_refs(g.known_nearby_locations@[0])
    } else {
        match g.current_location {
            Some(loc) => location_refs(loc),
            None => Seq::empty(),
        }
    }
}

pub open spec fn observation_refs(p: ScenePressurePacket, g: LocationGraphPacket) -> Seq<Seq<char>> {
    if signal_refs(p.visible_active@).len() > 0 {
        signal_refs(p.visible_active@)
    } else {
        match g.current_location {
            Some(loc) => location_refs(loc),
            None => Seq::empty(),
        }
    }
}

pub open spec fn constraint_refs(b: BodyResourcePacket) -> Seq<Seq<char>>
    decreases b.body_constraints@.len(),
{
    constraint_refs_of(b.body_constraints@)
}

pub open spec fn constraint_refs_of(cs: Seq<crate::body_resource::BodyConstraint>) -> Seq<Seq<char>>
    decreases cs.len(),
{
    if cs.len() == 0 {
        Seq::empty()
    } else {
        constraint_refs_of(cs.drop_last()) + views(cs.last().source_refs@)
    }
}

pub open spec fn resource_refs_of(rs: Seq<ResourceItem>) -> Seq<Seq<char>>
    decreases rs.len(),
{
    if rs.len() == 0 {
        Seq::empty()
    } else {
        resource_refs_of(rs.drop_last()) + views(rs.last().source_refs@).push(
            rs.last().resource_id@,
        )
    }
}

pub open spec fn body_resource_refs(b: BodyResourcePacket) -> Seq<Seq<char>> {
    constraint_refs_of(b.body_constraints@) + resource_refs_of(b.resources@)
}

/// The fixed shape of the node for one slot.
pub open spec fn node_is(
    n: AffordanceNode,
    slot: u8,
    id: Seq<char>,
    kind: AffordanceKind,
    label: Seq<char>,
    forbidden: Seq<Seq<char>>,
    sources: Seq<Seq<char>>,
    pressures: Seq<Seq<char>>,
) -> bool {
    &&& n.schema_version@ == AFFORDANCE_NODE_SCHEMA_VERSION@
    &&& n.slot == slot
    &&& n.affordance_id@ == id
    &&& n.affordance_kind == kind
    &&& n.label_contract@ == label
    &&& views(n.forbidden_shortcuts@) == forbidden
    &&& views(n.source_refs@) == sources
    &&& views(n.pressure_refs@) == pressures
}

// ---------------------------------------------------------------------------
// Implementation.
// ---------------------------------------------------------------------------

pub fn compile_affordance_graph_packet(
    world_id: &str,
    turn_id: &str,
    scene_pressure: &ScenePressurePacket,
    body_resource: &BodyResourcePacket,
    location_graph: &LocationGraphPacket,
) -> (r: AffordanceGraphPacket)
    ensures
        r.schema_version@ == AFFORDANCE_GRAPH_PACKET_SCHEMA_VERSION@,
        r.world_id@ == world_id@,
        r.turn_id@ == turn_id@,
        r.ordinary_choice_slots@.len() == 5,
        ({
            let ps = pressure_ids(scene_pressure.visible_active@);
            let s = r.ordinary_choice_slots@;
            &&& node_is(
                s[0],
                1,
                "affordance:slot:1:move"@,
                AffordanceKind::Move,
                "이동/접근"@,
                seq!["지도에 없는 지름길 확정"@, "보이지 않는 안전지대 발명"@],
                movement_refs(*location_graph),
                ps,
            )
            &&& node_is(
                s[1],
                2,
                "affordance:slot:2:observe"@,
                AffordanceKind::Observe,
                "관찰/확인"@,
                seq!["장면 밖 배경지식 획득"@, "정답 해설식 추리 확정"@],
                observation_refs(*scene_pressure, *location_graph),
                ps,
            )
            &&& node_is(
                s[2],
                3,
                "affordance:slot:3:contact"@,
                AffordanceKind::Contact,
                "접촉/반응"@,
                seq!["존재하지 않는 조력자 호출"@, "사회적 허가 없는 친밀 행동"@],
                social_ids(scene_pressure.visible_active@),
                ps,
            )
            &&& node_is(
                s[3],
                4,
                "affordance:slot:4:body_resource"@,
                AffordanceKind::ResourceOrBody,
                "몸/자원"@,
                seq!["없는 도구 사용"@, "몸 제약 무시"@],
                body_resource_refs(*body_resource),
                ps,
            )
            &&& s[4].slot == 5
            &&& s[4].affordance_kind == AffordanceKind::PressureResponse
            &&& views(s[4].pressure_refs@) == ps
            &&& (if scene_pressure.visible_active@.len() == 0 {
                s[4].source_refs@.len() == 0
            } else {
                exists|i: int|
                    is_strongest(scene_pressure.visible_active@, i) && views(s[4].source_refs@)
                        == seq![scene_pressure.visible_active@[i].pressure_id@]
            })
        }),
{
    let pressure_refs = visible_pressure_refs(scene_pressure);
    let mut slots: Vec<AffordanceNode> = Vec::new();
    slots.push(movement_affordance(location_graph, &pressure_refs));
    slots.push(observation_affordance(scene_pressure, location_graph, &pressure_refs));
    slots.push(contact_affordance(scene_pressure, &pressure_refs));
    slots.push(body_resource_affordance(body_resource, &pressure_refs));
    slots.push(pressure_response_affordance(scene_pressure, &pressure_refs));
    AffordanceGraphPacket {
        schema_version: String::from_str(AFFORDANCE_GRAPH_PACKET_SCHEMA_VERSION),
        world_id: String::from_str(world_id),
        turn_id: String::from_str(turn_id),
        ordinary_choice_slots: slots,
        compiler_policy: AffordanceGraphPolicy::default(),
    }
}

fn two_strings(a: &str, b: &str) -> (r: Vec<String>)
    ensures
        views(r@) == seq![a@, b@],
{
    let mut v = Vec::new();
    v.push(String::from_str(a));
    v.push(String::from_str(b));
    assert(views(v@) =~= seq![a@, b@]);
    v
}

fn node(
    slot: u8,
    id: &str,
    kind: AffordanceKind,
    label: &str,
    action: &str,
    source_refs: Vec<String>,
    pressure_refs: &Vec<String>,
    forbidden: Vec<String>,
) -> (r: AffordanceNode)
    ensures
        r.schema_version@ == AFFORDANCE_NODE_SCHEMA_VERSION@,
        r.slot == slot,
        r.affordance_id@ == id@,
        r.affordance_kind == kind,
        r.label_contract@ == label@,
        r.action_contract@ == action@,
        r.source_refs@ == source_refs@,
        r.pressure_refs@ == pressure_refs@,
        r.forbidden_shortcuts@ == forbidden@,
{
    AffordanceNode {
        schema_version: String::from_str(AFFORDANCE_NODE_SCHEMA_VERSION),
        slot,
        affordance_id: String::from_str(id),
        affordance_kind: kind,
        label_contract: String::from_str(label),
        action_contract: String::from_str(action),
        source_refs,
        pressure_refs: clone_strings(pressure_refs),
        forbidden_shortcuts: forbidden,
    }
}

fn movement_affordance(location_graph: &LocationGraphPacket, pressure_refs: &Vec<String>) -> (r:
    AffordanceNode)
    ensures
        node_is(
            r,
            1,
            "affordance:slot:1:move"@,
            AffordanceKind::Move,
            "이동/접근"@,
            seq!["지도에 없는 지름길 확정"@, "보이지 않는 안전지대 발명"@],
            movement_refs(*location_graph),
            views(pressure_refs@),
        ),
{
    let source_refs = if location_graph.known_nearby_locations.len() > 0 {
        location_source_refs(&location_graph.known_nearby_locations[0])
    } else {
        match &location_graph.current_location {
            Some(loc) => location_source_refs(loc),
            None => Vec::new(),
        }
    };
    assert(views(source_refs@) == movement_refs(*location_graph));
    node(
        1,
        "affordance:slot:1:move",
        AffordanceKind::Move,
        "이동/접근",
        "현재 위치나 알려진 인접 장소가 허용하는 이동, 접근, 거리 조절만 제시한다.",
        source_refs,
        pressure_refs,
        two_strings("지도에 없는 지름길 확정", "보이지 않는 안전지대 발명"),
    )
}

fn observation_affordance(
    scene_pressure: &ScenePressurePacket,
    location_graph: &LocationGraphPacket,
    pressure_refs: &Vec<String>,
) -> (r: AffordanceNode)
    ensures
        node_is(
            r,
            2,
            "affordance:slot:2:observe"@,
            AffordanceKind::Observe,
            "관찰/확인"@,
            seq!["장면 밖 배경지식 획득"@, "정답 해설식 추리 확정"@],
            observation_refs(*scene_pressure, *location_graph),
            views(pressure_refs@),
        ),
{
    let mut source_refs = scene_pressure_signal_refs(scene_pressure);
    if source_refs.len() == 0 {
        source_refs = match &location_graph.current_location {
            Some(loc) => location_source_refs(loc),
            None => Vec::new(),
        };
    }
    assert(views(source_refs@) == observation_refs(*scene_pressure, *location_graph));
    node(
        2,
        "affordance:slot:2:observe",
        AffordanceKind::Observe,
        "관찰/확인",
        "이미 보이는 신호, 흔적, 몸 감각, 장소 메모를 더 자세히 읽는 행동만 제시한다.",
        source_refs,
        pressure_refs,
        two_strings("장면 밖 배경지식 획득", "정답 해설식 추리 확정"),
    )
}

fn contact_affordance(scene_pressure: &ScenePressurePacket, pressure_refs: &Vec<String>) -> (r:
    AffordanceNode)
    ensures
        node_is(
            r,
            3,
            "affordance:slot:3:contact"@,
            AffordanceKind::Contact,
            "접촉/반응"@,
            seq!["존재하지 않는 조력자 호출"@, "사회적 허가 없는 친밀 행동"@],
            social_ids(scene_pressure.visible_active@),
            views(pressure_refs@),
        ),
{
    let ps = &scene_pressure.visible_active;
    let mut social_refs: Vec<String> = Vec::new();
    let mut i: usize = 0;
    while i < ps.len()
        invariant
            i <= ps.len(),
            views(social_refs@) == social_ids(ps@.subrange(0, i as int)),
        decreases ps.len() - i,
    {
        proof {
            assert(ps@.subrange(0, i + 1).drop_last() =~= ps@.subrange(0, i as int));
        }
        let kind = ps[i].kind;
        if kind == ScenePressureKind::SocialPermission || kind == ScenePressureKind::Threat || kind
            == ScenePressureKind::Desire || kind == ScenePressureKind::MoralCost {
            social_refs.push(ps[i].pressure_id.clone());
        }
        assert(views(social_refs@) =~= social_ids(ps@.subrange(0, i + 1)));
        i = i + 1;
    }
    assert(ps@.subrange(0, ps.len() as int) =~= ps@);
    node(
        3,
        "affordance:slot:3:contact",
        AffordanceKind::Contact,
        "접촉/반응",
        "현장에 있는 사람, 기척, 시선, 사회적 위험에 반응하는 행동만 제시한다.",
        social_refs,
        pressure_refs,
        two_strings("존재하지 않는 조력자 호출", "사회적 허가 없는 친밀 행동"),
    )
}

fn append_strings(out: &mut Vec<String>, more: &Vec<String>)
    ensures
        views(final(out)@) == views(old(out)@) + views(more@),
{
    let ghost start = views(out@);
    let mut i: usize = 0;
    while i < more.len()
        invariant
            i <= more.len(),
            views(out@) == start + views(more@.subrange(0, i as int)),
        decreases more.len() - i,
    {
        let ghost prev = out@;
        out.push(more[i].clone());
        proof {
            crate::text::lemma_views_push(prev, more@[i as int]);
        }
        assert(views(out@) =~= start + views(more@.subrange(0, i + 1)));
        i = i + 1;
    }
    assert(more@.subrange(0, more.len() as int) =~= more@);
}

fn body_resource_affordance(body_resource: &BodyResourcePacket, pressure_refs: &Vec<String>) -> (r:
    AffordanceNode)
    ensures
        node_is(
            r,
            4,
            "affordance:slot:4:body_resource"@,
            AffordanceKind::ResourceOrBody,
            "몸/자원"@,
            seq!["없는 도구 사용"@, "몸 제약 무시"@],
            body_resource_refs(*body_resource),
            views(pressure_refs@),
        ),
{
    let cs = &body_resource.body_constraints;
    let mut source_refs: Vec<String> = Vec::new();
    let mut i: usize = 0;
    while i < cs.len()
        invariant
            i <= cs.len(),
            views(source_refs@) == constraint_refs_of(cs@.subrange(0, i as int)),
        decreases cs.len() - i,
    {
        proof {
            assert(cs@.subrange(0, i + 1).drop_last() =~= cs@.subrange(0, i as int));
        }
        append_strings(&mut source_refs, &cs[i].source_refs);
        i = i + 1;
    }
    assert(cs@.subrange(0, cs.len() as int) =~= cs@);
    let rs = &body_resource.resources;
    let ghost head = views(source_refs@);
    let mut j: usize = 0;
    while j < rs.len()
        invariant
            j <= rs.len(),
            views(source_refs@) == head + resource_refs_of(rs@.subrange(0, j as int)),
        decreases rs.len() - j,
    {
        proof {
            assert(rs@.subrange(0, j + 1).drop_last() =~= rs@.subrange(0, j as int));
        }
        let refs = resource_source_refs(&rs[j]);
        append_strings(&mut source_refs, &refs);
        assert(views(source_refs@) =~= head + resource_refs_of(rs@.subrange(0, j + 1)));
        j = j + 1;
    }
    assert(rs@.subrange(0, rs.len() as int) =~= rs@);
    node(
        4,
        "affordance:slot:4:body_resource",
        AffordanceKind::ResourceOrBody,
        "몸/자원",
        "현재 몸 상태와 실제 보유 자원으로 가능한 행동만 제시한다.",
        source_refs,
        pressure_refs,
        two_strings("없는 도구 사용", "몸 제약 무시"),
    )
}

fn pressure_response_affordance(scene_pressure: &ScenePressurePacket, pressure_refs: &Vec<String>) -> (r:
    AffordanceNode)
    ensures
        r.slot == 5,
        r.affordance_kind == AffordanceKind::PressureResponse,
        r.affordance_id@ == "affordance:slot:5:pressure_response"@,
        r.label_contract@ == "압력 대응"@,
        views(r.pressure_refs@) == views(pressure_refs@),
        if scene_pressure.visible_active@.len() == 0 {
            r.source_refs@.len() == 0
        } else {
            exists|i: int|
                is_strongest(scene_pressure.visible_active@, i) && views(r.source_refs@)
                    == seq![scene_pressure.visible_active@[i].pressure_id@]
        },
{
    let mut source_refs: Vec<String> = Vec::new();
    match strongest_pressure(scene_pressure) {
        Some(i) => {
            source_refs.push(scene_pressure.visible_active[i].pressure_id.clone());
            assert(views(source_refs@) =~= seq![scene_pressure.visible_active@[i as int].pressure_id@]);
        },
        None => {},
    }
    node(
        5,
        "affordance:slot:5:pressure_response",
        AffordanceKind::PressureResponse,
        "압력 대응",
        "가장 강한 현재 압력에 대응해 위험, 시간, 욕망, 비용을 조정하는 행동만 제시한다.",
        source_refs,
        pressure_refs,
        two_strings("압력 무시 후 안전한 관망", "숨은 판정 조건 노출"),
    )
}

fn visible_pressure_refs(scene_pressure: &ScenePressurePacket) -> (r: Vec<String>)
    ensures
        views(r@) == pressure_ids(scene_pressure.visible_active@),
{
    let ps = &scene_pressure.visible_active;
    let mut out: Vec<String> = Vec::new();
    let mut i: usize = 0;
    while i < ps.len()
        invariant
            i <= ps.len(),
            views(out@) == pressure_ids(ps@.subrange(0, i as int)),
        decreases ps.len() - i,
    {
        let ghost prev = out@;
        out.push(ps[i].pressure_id.clone());
        proof {
            crate::text::lemma_views_push(prev, ps@[i as int].pressure_id);
        }
        assert(views(out@) =~= pressure_ids(ps@.subrange(0, i + 1)));
        i = i + 1;
    }
    assert(ps@.subrange(0, ps.len() as int) =~= ps@);
    out
}

fn scene_pressure_signal_refs(scene_pressure: &ScenePressurePacket) -> (r: Vec<String>)
    ensures
        views(r@) == signal_refs(scene_pressure.visible_active@),
{
    let ps = &scene_pressure.visible_active;
    let mut out: Vec<String> = Vec::new();
    let mut i: usize = 0;
    while i < ps.len()
        invariant
            i <= ps.len(),
            views(out@) == signal_refs(ps@.subrange(0, i as int)),
        decreases ps.len() - i,
    {
        proof {
            assert(ps@.subrange(0, i + 1).drop_last() =~= ps@.subrange(0, i as int));
        }
        append_strings(&mut out, &ps[i].observable_signals);
        i = i + 1;
    }
    assert(ps@.subrange(0, ps.len() as int) =~= ps@);
    out
}

/// Index of the strongest visible pressure (the last among equals).
fn strongest_pressure(scene_pressure: &ScenePressurePacket) -> (r: Option<usize>)
    ensures
        match r {
            Some(i) => is_strongest(scene_pressure.visible_active@, i as int),
            None => scene_pressure.visible_active@.len() == 0,
        },
{
    let ps = &scene_pressure.visible_active;
    if ps.len() == 0 {
        return None;
    }
    let mut best: usize = 0;
    let mut i: usize = 1;
    while i < ps.len()
        invariant
            1 <= i <= ps.len(),
            best < i,
            forall|j: int| 0 <= j < i ==> ps@[j].intensity <= ps@[best as int].intensity,
            forall|j: int| best < j < i ==> ps@[j].intensity < ps@[best as int].intensity,
        decreases ps.len() - i,
    {
        if ps[i].intensity >= ps[best].intensity {
            best = i;
        }
        i = i + 1;
    }
    Some(best)
}

fn location_source_refs(location: &LocationNode) -> (r: Vec<String>)
    ensures
        views(r@) == location_refs(*location),
{
    let mut refs = clone_strings(&location.source_refs);
    refs.push(location.location_id.clone());
    proof {
        crate::text::lemma_views_push(location.source_refs@, location.location_id);
    }
    assert(views(refs@) =~= location_refs(*location));
    refs
}

fn resource_source_refs(resource: &ResourceItem) -> (r: Vec<String>)
    ensures
        views(r@) == views(resource.source_refs@).push(resource.resource_id@),
{
    let mut refs = clone_strings(&resource.source_refs);
    refs.push(resource.resource_id.clone());
    proof {
        crate::text::lemma_views_push(resource.source_refs@, resource.resource_id);
    }
    assert(views(refs@) =~= views(resource.source_refs@).push(resource.resource_id@));
    refs
}

} // verus!
