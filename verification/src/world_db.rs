//! Chapter summaries as the autobiographical index reads them.
use vstd::prelude::*;

verus! {

/// The structured part of a chapter summary.
#[derive(Debug, Clone)]
pub struct ChapterSummaryV2 {
    pub summary_id: String,
    pub source_turn_start: String,
    pub source_turn_end: String,
    pub facts: Vec<String>,
    pub open_ambiguities: Vec<String>,
    pub process_changes: Vec<String>,
    pub relationship_changes: Vec<String>,
}

/// A summary of a chapter of turns.
#[derive(Debug, Clone)]
pub struct ChapterSummaryRecord {
    pub summary_id: String,
    pub chapter_index: u32,
    pub title: String,
    pub summary: String,
    pub v2: ChapterSummaryV2,
    pub source_turn_start: String,
    pub source_turn_end: String,
    pub created_at: String,
}

} // verus!
