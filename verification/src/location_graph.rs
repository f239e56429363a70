//! The current and known nearby locations of the protagonist.
use crate::models::{EntityRecords, PlaceRecord, TurnSnapshot};
use crate::text::{clone_strings, concat2, views};
use vstd::prelude::*;

verus! {

pub const LOCATION_GRAPH_PACKET_SCHEMA_VERSION: &'static str = "singulari.location_graph_packet.v1";
pub const LOCATION_NODE_SCHEMA_VERSION: &'static str = "singulari.location_node.v1";

pub const NEARBY_LOCATION_BUDGET: usize = 3;

#[derive(Debug, Clone)]
pub struct LocationGraphPacket {
    pub schema_version: String,
    pub world_id: String,
    pub turn_id: String,
    pub current_location: Option<LocationNode>,
    pub known_nearby_locations: Vec<LocationNode>,
    pub compiler_policy: LocationGraphPolicy,
}

#[derive(Debug, Clone)]
pub struct LocationNode {
    pub schema_version: String,
    pub location_id: String,
    pub name: String,
    pub knowledge_state: LocationKnowledgeState,
    pub notes: Vec<String>,
    pub source_refs: Vec<String>,
}

#[derive(Debug, Clone)]
pub struct LocationGraphPolicy {
    pub source: String,
    pub nearby_location_budget: usize,
    pub use_rules: Vec<String>,
}

impl Default for LocationGraphPolicy {
    /// The policy the compiler stamps on every packet.
    fn default() -> (r: Self)
        ensures
            r.source@ == "compiled_from_entity_places_v0"@,
            r.nearby_location_budget == NEARBY_LOCATION_BUDGET,
            r.use_rules@.len() == 3,
    {
        let mut use_rules = Vec::new();
        use_rules.push(
            String::from_str("Movement choices should come from current or known nearby locations."),
        );
        use_rules.push(
            String::from_str(
                "Do not invent exits, towns, or landmarks unless visible evidence opens a discovery action.",
            ),
        );
        use_rules.push(
            String::from_str("Location notes may create sensory continuity but not hidden lore."),
        );
        LocationGraphPolicy {
            source: String::from_str("compiled_from_entity_places_v0"),
            nearby_location_budget: NEARBY_LOCATION_BUDGET,
            use_rules,
        }
    }
}

impl Default for LocationGraphPacket {
    /// An empty packet.
    fn default() -> (r: Self)
        ensures
            r.schema_version@ == LOCATION_GRAPH_PACKET_SCHEMA_VERSION@,
            r.current_location is None,
            r.known_nearby_locations@.len() == 0,
    {
        LocationGraphPacket {
            schema_version: String::from_str(LOCATION_GRAPH_PACKET_SCHEMA_VERSION),
            world_id: String::new(),
            turn_id: String::new(),
            current_location: None,
            known_nearby_locations: Vec::new(),
            compiler_policy: LocationGraphPolicy::default(),
        }
    }
}

#[derive(Debug, Clone, Copy, PartialEq, Eq, Structural)]
pub enum LocationKnowledgeState {
    Known,
    Visited,
    Unknown,
}

/// `n` is the node that `place` compiles to with the given knowledge state.
pub open spec fn node_of_place(n: LocationNode, place: PlaceRecord, state: LocationKnowledgeState) -> bool {
    &&& n.schema_version@ == LOCATION_NODE_SCHEMA_VERSION@
    &&& n.location_id@ == place.id@
    &&& n.name@ == place.name@
    &&& n.knowledge_state == state
    &&& views(n.notes@) == views(place.notes@)
    &&& views(n.source_refs@) == seq!["entities.places:"@ + place.id@]
}

/// Places other than the current one that the protagonist knows, in order.
pub open spec fn known_other_places(places: Seq<PlaceRecord>, current: Seq<char>) -> Seq<PlaceRecord>
    decreases places.len(),
{
    if places.len() == 0 {
        Seq::empty()
    } else {
        let rest = known_other_places(places.drop_last(), current);
        let p = places.last();
        if p.id@ != current && p.known_to_protagonist {
            rest.push(p)
        } else {
            rest
        }
    }
}

pub open spec fn take_at_most<T>(s: Seq<T>, n: nat) -> Seq<T> {
    if s.len() <= n {
        s
    } else {
        s.subrange(0, n as int)
    }
}

/// The first place whose id is the current location.
pub open spec fn is_first_place_with_id(places: Seq<PlaceRecord>, id: Seq<char>, i: int) -> bool {
    0 <= i < places.len() && places[i].id@ == id && forall|j: int|
        0 <= j < i ==> places[j].id@ != id
}

pub fn compile_location_graph_packet(snapshot: &TurnSnapshot, entities: &EntityRecords) -> (r:
    LocationGraphPacket)
    ensures
        r.schema_version@ == LOCATION_GRAPH_PACKET_SCHEMA_VERSION@,
        r.world_id == snapshot.world_id,
        r.turn_id == snapshot.turn_id,
        r.compiler_policy.source@ == "compiled_from_entity_places_v0"@,
        match r.current_location {
            Some(n) => exists|i: int|
                is_first_place_with_id(entities.places@, snapshot.protagonist_state.location@, i)
                    && node_of_place(n, entities.places@[i], LocationKnowledgeState::Visited),
            None => forall|j: int|
                0 <= j < entities.places@.len() ==> entities.places@[j].id@
                    != snapshot.protagonist_state.location@,
        },
        r.known_nearby_locations@.len() == take_at_most(
            known_other_places(entities.places@, snapshot.protagonist_state.location@),
            3,
        ).len(),
        forall|k: int|
            0 <= k < r.known_nearby_locations@.len() ==> node_of_place(
                #[trigger] r.known_nearby_locations@[k],
                known_other_places(entities.places@, snapshot.protagonist_state.location@)[k],
                LocationKnowledgeState::Known,
            ),
{
    let location = snapshot.protagonist_state.location.as_str();
    let ghost loc = location@;
    let current_location = current_location_node(&entities.places, location);
    let mut nearby: Vec<LocationNode> = Vec::new();
    let mut k: usize = 0;
    while k < entities.places.len()
        invariant
            k <= entities.places.len(),
            location@ == loc,
            nearby@.len() == take_at_most(known_other_places(entities.places@.subrange(0, k as int), loc), 3).len(),
            forall|m: int|
                0 <= m < nearby@.len() ==> node_of_place(
                    #[trigger] nearby@[m],
                    known_other_places(entities.places@.subrange(0, k as int), loc)[m],
                    LocationKnowledgeState::Known,
                ),
        decreases entities.places.len() - k,
    {
        let ghost before = known_other_places(entities.places@.subrange(0, k as int), loc);
        proof {
            assert(entities.places@.subrange(0, k + 1).drop_last() =~= entities.places@.subrange(0, k as int));
        }
        let place = &entities.places[k];
        if !crate::text::str_eq(place.id.as_str(), location) && place.known_to_protagonist {
            if nearby.len() < NEARBY_LOCATION_BUDGET {
                nearby.push(location_node(place, LocationKnowledgeState::Known));
            }
        }
        proof {
            let after = known_other_places(entities.places@.subrange(0, k + 1), loc);
            assert forall|m: int| 0 <= m < before.len() implies after[m] == before[m] by {}
        }
        k = k + 1;
    }
    assert(entities.places@.subrange(0, entities.places@.len() as int) =~= entities.places@);
    LocationGraphPacket {
        schema_version: String::from_str(LOCATION_GRAPH_PACKET_SCHEMA_VERSION),
        world_id: snapshot.world_id.clone(),
        turn_id: snapshot.turn_id.clone(),
        current_location,
        known_nearby_locations: nearby,
        compiler_policy: LocationGraphPolicy::default(),
    }
}

fn current_location_node(places: &Vec<PlaceRecord>, location: &str) -> (r: Option<LocationNode>)
    ensures
        match r {
            Some(n) => exists|i: int|
                is_first_place_with_id(places@, location@, i) && node_of_place(
                    n,
                    places@[i],
                    LocationKnowledgeState::Visited,
                ),
            None => forall|j: int| 0 <= j < places@.len() ==> places@[j].id@ != location@,
        },
{
    let mut i: usize = 0;
    while i < places.len()
        invariant
            i <= places.len(),
            forall|j: int| 0 <= j < i ==> places@[j].id@ != location@,
        decreases places.len() - i,
    {
        if crate::text::str_eq(places[i].id.as_str(), location) {
            let n = location_node(&places[i], LocationKnowledgeState::Visited);
            assert(is_first_place_with_id(places@, location@, i as int));
            return Some(n);
        }
        i = i + 1;
    }
    None
}

fn location_node(place: &PlaceRecord, knowledge_state: LocationKnowledgeState) -> (r: LocationNode)
    ensures
        node_of_place(r, *place, knowledge_state),
{
    let mut source_refs = Vec::new();
    source_refs.push(concat2("entities.places:", place.id.as_str()));
    assert(views(source_refs@) =~= seq!["entities.places:"@ + place.id@]);
    LocationNode {
        schema_version: String::from_str(LOCATION_NODE_SCHEMA_VERSION),
        location_id: place.id.clone(),
        name: place.name.clone(),
        knowledge_state,
        notes: clone_strings(&place.notes),
        source_refs,
    }
}

} // verus!
