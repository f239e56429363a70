//! Agent-authored context updates and the projection built from them.
use vstd::prelude::*;

verus! {

/// Who may see an agent-authored context record.
#[derive(Debug, Clone, Copy, PartialEq, Eq, Structural)]
pub enum ContextVisibility {
    PlayerVisible,
    AdjudicationOnly,
}

/// One summary line of the context projection.
#[derive(Debug, Clone)]
pub struct AgentContextProjectionItem {
    pub target: String,
    pub summary: String,
    pub source_event_id: String,
    pub turn_id: String,
    pub visibility: ContextVisibility,
}

/// The context projection that agent-authored updates have built so far.
#[derive(Debug, Clone)]
pub struct AgentContextProjection {
    pub world_id: String,
    pub character_text_design_summaries: Vec<AgentContextProjectionItem>,
    pub relationship_summaries: Vec<AgentContextProjectionItem>,
    pub world_lore_summaries: Vec<AgentContextProjectionItem>,
}

impl Default for AgentContextProjection {
    fn default() -> (r: Self)
        ensures
            r.world_id@.len() == 0,
            r.character_text_design_summaries@.len() == 0,
            r.relationship_summaries@.len() == 0,
            r.world_lore_summaries@.len() == 0,
    {
        AgentContextProjection {
            world_id: String::new(),
            character_text_design_summaries: Vec::new(),
            relationship_summaries: Vec::new(),
            world_lore_summaries: Vec::new(),
        }
    }
}

/// An agent-authored change to a character's text design.
#[derive(Debug, Clone)]
pub struct AgentCharacterTextDesignUpdate {
    pub character_id: String,
    pub speech_pattern: String,
    pub gesture_pattern: String,
    pub drift_note: String,
    pub visibility: ContextVisibility,
    pub evidence_refs: Vec<String>,
}

} // verus!
