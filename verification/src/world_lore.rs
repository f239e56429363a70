//! World lore updates as the change ledger reads them.
use crate::response_context::ContextVisibility;
use vstd::prelude::*;

verus! {

/// One lore update: what it is about, and what is now known.
#[derive(Debug, Clone)]
pub struct WorldLoreUpdateRecord {
    pub category: String,
    pub subject: String,
    pub summary: String,
    pub visibility: ContextVisibility,
    pub evidence_refs: Vec<String>,
}

/// The lore updates of a turn.
#[derive(Debug, Clone)]
pub struct WorldLoreUpdatePlan {
    pub world_id: String,
    pub turn_id: String,
    pub records: Vec<WorldLoreUpdateRecord>,
}

/// A lore entry the world currently holds.
#[derive(Debug, Clone)]
pub struct WorldLoreEntry {
    pub lore_id: String,
    pub name: String,
    pub domain: String,
    pub summary: String,
    pub mechanical_axis: String,
    pub visibility: String,
    pub source_refs: Vec<String>,
}

/// The active lore of a world.
#[derive(Debug, Clone)]
pub struct WorldLorePacket {
    pub schema_version: String,
    pub world_id: String,
    pub turn_id: String,
    pub entries: Vec<WorldLoreEntry>,
}

} // verus!
