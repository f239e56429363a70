//! World processes as the autobiographical index reads them.
use vstd::prelude::*;

verus! {

pub const WORLD_PROCESS_CLOCK_PACKET_SCHEMA_VERSION: &'static str = "singulari.world_process_clock_packet.v1";
pub const WORLD_PROCESS_SCHEMA_VERSION: &'static str = "singulari.world_process.v1";

/// A process of the world the player can see, and what its next tick owes.
#[derive(Debug, Clone)]
pub struct WorldProcess {
    pub schema_version: String,
    pub process_id: String,
    pub summary: String,
    pub next_tick_contract: String,
    pub source_refs: Vec<String>,
}

/// The visible world processes of a turn.
#[derive(Debug, Clone)]
pub struct WorldProcessClockPacket {
    pub schema_version: String,
    pub world_id: String,
    pub turn_id: String,
    pub visible_processes: Vec<WorldProcess>,
}

} // verus!
