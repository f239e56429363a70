//! The relationship graph as the actor checks read it: directed edges
//! between entities with a stance and the evidence behind them.
use crate::response_context::ContextVisibility;
use vstd::prelude::*;

verus! {

pub const RELATIONSHIP_GRAPH_PACKET_SCHEMA_VERSION: &'static str = "singulari.relationship_graph_packet.v1";
pub const RELATIONSHIP_EDGE_SCHEMA_VERSION: &'static str = "singulari.relationship_edge.v1";
pub const RELATIONSHIP_GRAPH_EVENT_SCHEMA_VERSION: &'static str = "singulari.relationship_graph_event.v1";

#[derive(Debug, Clone)]
pub struct RelationshipEdge {
    pub schema_version: String,
    pub edge_id: String,
    pub source_entity_id: String,
    pub target_entity_id: String,
    pub stance: String,
    pub visibility: String,
    pub visible_summary: String,
    pub source_refs: Vec<String>,
    pub voice_effects: Vec<String>,
}

#[derive(Debug, Clone)]
pub struct RelationshipGraphPacket {
    pub schema_version: String,
    pub world_id: String,
    pub turn_id: String,
    pub active_edges: Vec<RelationshipEdge>,
}

/// A relationship change recorded for a turn.
#[derive(Debug, Clone)]
pub struct RelationshipGraphEventRecord {
    pub schema_version: String,
    pub world_id: String,
    pub turn_id: String,
    pub event_id: String,
    pub source_entity_id: String,
    pub target_entity_id: String,
    pub relation_kind: String,
    pub visibility: ContextVisibility,
    pub summary: String,
    pub evidence_refs: Vec<String>,
    pub recorded_at: String,
}

/// The relationship changes of a turn.
#[derive(Debug, Clone)]
pub struct RelationshipGraphEventPlan {
    pub world_id: String,
    pub turn_id: String,
    pub records: Vec<RelationshipGraphEventRecord>,
}

} // verus!
