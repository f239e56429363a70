//! The protagonist's body constraints and carried resources for a turn.
use crate::models::TurnSnapshot;
use crate::text::{concat2, concat3, contains, contains_str, dec, dec2_string, dec_padded, dec_string, to_lowercase, unicode_lowercase, views};
use vstd::prelude::*;

verus! {

pub const BODY_RESOURCE_PACKET_SCHEMA_VERSION: &'static str = "singulari.body_resource_packet.v1";
pub const BODY_CONSTRAINT_SCHEMA_VERSION: &'static str = "singulari.body_constraint.v1";
pub const RESOURCE_ITEM_SCHEMA_VERSION: &'static str = "singulari.resource_item.v1";

#[derive(Debug, Clone)]
pub struct BodyResourcePacket {
    pub schema_version: String,
    pub world_id: String,
    pub turn_id: String,
    pub body_constraints: Vec<BodyConstraint>,
    pub resources: Vec<ResourceItem>,
    pub compiler_policy: BodyResourcePolicy,
}

#[derive(Debug, Clone)]
pub struct BodyConstraint {
    pub schema_version: String,
    pub constraint_id: String,
    pub visibility: BodyResourceVisibility,
    pub summary: String,
    pub severity: u8,
    pub source_refs: Vec<String>,
    pub scene_pressure_kinds: Vec<String>,
}

#[derive(Debug, Clone)]
pub struct ResourceItem {
    pub schema_version: String,
    pub resource_id: String,
    pub visibility: BodyResourceVisibility,
    pub summary: String,
    pub resource_kind: ResourceKind,
    pub source_refs: Vec<String>,
}

#[derive(Debug, Clone)]
pub struct BodyResourcePolicy {
    pub source: String,
    pub use_rules: Vec<String>,
}

impl Default for BodyResourcePolicy {
        fn default() -> (r: Self)
        ensures
            r.source@ == "compiled_from_protagonist_state_v0"@,
            r.use_rules@.len() == 3,
    {
        let mut use_rules = Vec::new();
        use_rules.push(
            String::from_str(
                "Body/resource state constrains choices and prose only when the current action touches it.",
            ),
        );
        use_rules.push(
            String::from_str(
                "Do not invent resources that are not in protagonist_state.inventory.",
            ),
        );
        use_rules.push(String::from_str("Render labels and visible consequences, not raw stat math."));
        BodyResourcePolicy { source: String::from_str("compiled_from_protagonist_state_v0"), use_rules }
    }
}

impl Default for BodyResourcePacket {
        fn default() -> (r: Self)
        ensures
            r.schema_version@ == BODY_RESOURCE_PACKET_SCHEMA_VERSION@,
            r.body_constraints@.len() == 0,
            r.resources@.len() == 0,
    {
        BodyResourcePacket {
            schema_version: String::from_str(BODY_RESOURCE_PACKET_SCHEMA_VERSION),
            world_id: String::new(),
            turn_id: String::new(),
            body_constraints: Vec::new(),
            resources: Vec::new(),
            compiler_policy: BodyResourcePolicy::default(),
        }
    }
}

#[derive(Debug, Clone, Copy, PartialEq, Eq, Structural)]
pub enum BodyResourceVisibility {
    PlayerVisible,
}

#[derive(Debug, Clone, Copy, PartialEq, Eq, Structural)]
pub enum ResourceKind {
    Money,
    Food,
    Water,
    Tool,
    Weapon,
    Document,
    Clothing,
    TradeGood,
    Medicine,
    Shelter,
    Transport,
    SocialCover,
    InformationToken,
    Unknown,
}

/// Severity read from the lowercased body note: bleeding 4, pain 2, else 1.
pub open spec fn severity_of(lower: Seq<char>) -> u8 {
    if contains(lower, "bleed"@) || contains(lower, "피"@) || contains(lower, "severe"@) {
        4
    } else if contains(lower, "pain"@) || contains(lower, "아프"@) || contains(lower, "ache"@) {
        2
    } else {
        1
    }
}

/// Resource kind read from the lowercased inventory entry.
pub open spec fn resource_kind_of(lower: Seq<char>) -> ResourceKind {
    if contains(lower, "coin"@) || contains(lower, "money"@) || contains(lower, "돈"@) {
        ResourceKind::Money
    } else if contains(lower, "food"@) || contains(lower, "bread"@) || contains(lower, "식량"@) {
        ResourceKind::Food
    } else if contains(lower, "water"@) || contains(lower, "물"@) {
        ResourceKind::Water
    } else if contains(lower, "knife"@) || contains(lower, "sword"@) || contains(lower, "검"@) {
        ResourceKind::Weapon
    } else if contains(lower, "token"@) || contains(lower, "paper"@) || contains(
        lower,
        "document"@,
    ) || contains(lower, "문서"@) || contains(lower, "패"@) {
        ResourceKind::Document
    } else {
        ResourceKind::Unknown
    }
}

/// `c` is the constraint compiled from body note `body` at position `i`.
pub open spec fn constraint_of(c: BodyConstraint, i: nat, body: Seq<char>) -> bool {
    &&& c.schema_version@ == BODY_CONSTRAINT_SCHEMA_VERSION@
    &&& c.constraint_id@ == "body:constraint:"@ + dec_padded(i, 2)
    &&& c.visibility == BodyResourceVisibility::PlayerVisible
    &&& c.summary@ == body
    &&& c.severity == severity_of(unicode_lowercase(body))
    &&& views(c.source_refs@) == seq!["latest_snapshot.protagonist_state.body["@ + dec(i) + "]"@]
    &&& views(c.scene_pressure_kinds@) == seq!["body"@]
}

/// `item` is the resource compiled from inventory entry `entry` at position `i`.
pub open spec fn resource_of(item: ResourceItem, i: nat, entry: Seq<char>) -> bool {
    &&& item.schema_version@ == RESOURCE_ITEM_SCHEMA_VERSION@
    &&& item.resource_id@ == "resource:inventory:"@ + dec_padded(i, 2)
    &&& item.visibility == BodyResourceVisibility::PlayerVisible
    &&& item.summary@ == entry
    &&& item.resource_kind == resource_kind_of(unicode_lowercase(entry))
    &&& views(item.source_refs@) == seq![
        "latest_snapshot.protagonist_state.inventory["@ + dec(i) + "]"@,
    ]
}

pub fn compile_body_resource_packet(snapshot: &TurnSnapshot) -> (r: BodyResourcePacket)
    ensures
        r.schema_version@ == BODY_RESOURCE_PACKET_SCHEMA_VERSION@,
        r.world_id == snapshot.world_id,
        r.turn_id == snapshot.turn_id,
        r.compiler_policy.source@ == "compiled_from_protagonist_state_v0"@,
        r.body_constraints@.len() == snapshot.protagonist_state.body@.len(),
        forall|i: int|
            0 <= i < r.body_constraints@.len() ==> constraint_of(
                #[trigger] r.body_constraints@[i],
                i as nat,
                snapshot.protagonist_state.body@[i]@,
            ),
        r.resources@.len() == snapshot.protagonist_state.inventory@.len(),
        forall|i: int|
            0 <= i < r.resources@.len() ==> resource_of(
                #[trigger] r.resources@[i],
                i as nat,
                snapshot.protagonist_state.inventory@[i]@,
            ),
{
    let body = &snapshot.protagonist_state.body;
    let mut body_constraints: Vec<BodyConstraint> = Vec::new();
    let mut i: usize = 0;
    while i < body.len()
        invariant
            i <= body.len(),
            body_constraints@.len() == i,
            forall|k: int|
                0 <= k < i ==> constraint_of(#[trigger] body_constraints@[k], k as nat, body@[k]@),
        decreases body.len() - i,
    {
        body_constraints.push(body_constraint(i, body[i].as_str()));
        i = i + 1;
    }
    let inventory = &snapshot.protagonist_state.inventory;
    let mut resources: Vec<ResourceItem> = Vec::new();
    let mut j: usize = 0;
    while j < inventory.len()
        invariant
            j <= inventory.len(),
            resources@.len() == j,
            forall|k: int|
                0 <= k < j ==> resource_of(#[trigger] resources@[k], k as nat, inventory@[k]@),
        decreases inventory.len() - j,
    {
        resources.push(resource_item(j, inventory[j].as_str()));
        j = j + 1;
    }
    BodyResourcePacket {
        schema_version: String::from_str(BODY_RESOURCE_PACKET_SCHEMA_VERSION),
        world_id: snapshot.world_id.clone(),
        turn_id: snapshot.turn_id.clone(),
        body_constraints,
        resources,
        compiler_policy: BodyResourcePolicy::default(),
    }
}

fn body_constraint(index: usize, body: &str) -> (r: BodyConstraint)
    ensures
        constraint_of(r, index as nat, body@),
{
    let padded = dec2_string(index as u64);
    let plain = dec_string(index as u64);
    let mut source_refs = Vec::new();
    source_refs.push(concat3("latest_snapshot.protagonist_state.body[", plain.as_str(), "]"));
    let mut kinds = Vec::new();
    kinds.push(String::from_str("body"));
    assert(views(source_refs@) =~= seq![
        "latest_snapshot.protagonist_state.body["@ + dec(index as nat) + "]"@,
    ]);
    assert(views(kinds@) =~= seq!["body"@]);
    BodyConstraint {
        schema_version: String::from_str(BODY_CONSTRAINT_SCHEMA_VERSION),
        constraint_id: concat2("body:constraint:", padded.as_str()),
        visibility: BodyResourceVisibility::PlayerVisible,
        summary: String::from_str(body),
        severity: infer_body_severity(body),
        source_refs,
        scene_pressure_kinds: kinds,
    }
}

fn resource_item(index: usize, item: &str) -> (r: ResourceItem)
    ensures
        resource_of(r, index as nat, item@),
{
    let padded = dec2_string(index as u64);
    let plain = dec_string(index as u64);
    let mut source_refs = Vec::new();
    source_refs.push(
        concat3("latest_snapshot.protagonist_state.inventory[", plain.as_str(), "]"),
    );
    assert(views(source_refs@) =~= seq![
        "latest_snapshot.protagonist_state.inventory["@ + dec(index as nat) + "]"@,
    ]);
    ResourceItem {
        schema_version: String::from_str(RESOURCE_ITEM_SCHEMA_VERSION),
        resource_id: concat2("resource:inventory:", padded.as_str()),
        visibility: BodyResourceVisibility::PlayerVisible,
        summary: String::from_str(item),
        resource_kind: infer_resource_kind(item),
        source_refs,
    }
}

fn infer_body_severity(body: &str) -> (r: u8)
    ensures
        r == severity_of(unicode_lowercase(body@)),
{
    let lowered = to_lowercase(body);
    let l = lowered.as_str();
    if contains_str(l, "bleed") || contains_str(l, "피") || contains_str(l, "severe") {
        4
    } else if contains_str(l, "pain") || contains_str(l, "아프") || contains_str(l, "ache") {
        2
    } else {
        1
    }
}

fn infer_resource_kind(item: &str) -> (r: ResourceKind)
    ensures
        r == resource_kind_of(unicode_lowercase(item@)),
{
    let lowered = to_lowercase(item);
    let l = lowered.as_str();
    if contains_str(l, "coin") || contains_str(l, "money") || contains_str(l, "돈") {
        ResourceKind::Money
    } else if contains_str(l, "food") || contains_str(l, "bread") || contains_str(l, "식량") {
        ResourceKind::Food
    } else if contains_str(l, "water") || contains_str(l, "물") {
        ResourceKind::Water
    } else if contains_str(l, "knife") || contains_str(l, "sword") || contains_str(l, "검") {
        ResourceKind::Weapon
    } else if contains_str(l, "token") || contains_str(l, "paper") || contains_str(l, "document")
        || contains_str(l, "문서") || contains_str(l, "패") {
        ResourceKind::Document
    } else {
        ResourceKind::Unknown
    }
}

} // verus!
