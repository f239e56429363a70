//! The scene director's proposal as the encounter replay reads it: an
//! optional scene transition with its reason, and the evidence it cites.
use vstd::prelude::*;

verus! {

#[derive(Debug, Clone)]
pub struct SceneTransitionProposal {
    pub transition_reason: String,
}

#[derive(Debug, Clone)]
pub struct SceneDirectorProposal {
    pub transition: Option<SceneTransitionProposal>,
    pub evidence_refs: Vec<String>,
}

} // verus!
