//! Plot thread events as the change ledger reads them.
use vstd::prelude::*;

verus! {

/// Where a plot thread stands.
#[derive(Debug, Clone, Copy, PartialEq, Eq, Structural)]
pub enum PlotThreadStatus {
    Active,
    Dormant,
    Resolved,
}

/// The name of a status, as `Debug` writes it.
pub open spec fn plot_status_name(s: PlotThreadStatus) -> Seq<char> {
    match s {
        PlotThreadStatus::Active => "Active"@,
        PlotThreadStatus::Dormant => "Dormant"@,
        PlotThreadStatus::Resolved => "Resolved"@,
    }
}

pub fn plot_status_label(s: PlotThreadStatus) -> (r: &'static str)
    ensures
        r@ == plot_status_name(s),
{
    match s {
        PlotThreadStatus::Active => "Active",
        PlotThreadStatus::Dormant => "Dormant",
        PlotThreadStatus::Resolved => "Resolved",
    }
}

/// One plot thread event: the thread, its status after it, and what happened.
#[derive(Debug, Clone)]
pub struct PlotThreadEventRecord {
    pub thread_id: String,
    pub status_after: PlotThreadStatus,
    pub summary: String,
    pub evidence_refs: Vec<String>,
}

/// The plot thread events of a turn.
#[derive(Debug, Clone)]
pub struct PlotThreadEventPlan {
    pub world_id: String,
    pub turn_id: String,
    pub records: Vec<PlotThreadEventRecord>,
}

pub const PLOT_THREAD_PACKET_SCHEMA_VERSION: &'static str = "singulari.plot_thread_packet.v1";
pub const PLOT_THREAD_SCHEMA_VERSION: &'static str = "singulari.plot_thread.v1";

/// A plot thread the player can see.
#[derive(Debug, Clone)]
pub struct PlotThread {
    pub schema_version: String,
    pub thread_id: String,
    pub title: String,
    pub status: PlotThreadStatus,
    pub summary: String,
    pub current_question: String,
    pub source_refs: Vec<String>,
}

/// The visible plot threads of a turn.
#[derive(Debug, Clone)]
pub struct PlotThreadPacket {
    pub schema_version: String,
    pub world_id: String,
    pub turn_id: String,
    pub active_visible: Vec<PlotThread>,
}

} // verus!
