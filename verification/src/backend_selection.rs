//! The text and visual backends a world was created with, locked once saved.
use crate::clock::now_rfc3339;
use crate::text::{concat2, concat4, str_eq};
use vstd::prelude::*;

verus! {

pub const WORLD_BACKEND_SELECTION_SCHEMA_VERSION: &'static str = "singulari.world_backend_selection.v1";
pub const WORLD_BACKEND_SELECTION_FILENAME: &'static str = "backend_selection.json";

#[derive(Debug, Clone, Copy, PartialEq, Eq, Structural)]
pub enum WorldTextBackend {
    CodexAppServer,
    Webgpt,
}

pub open spec fn text_backend_name(b: WorldTextBackend) -> Seq<char> {
    match b {
        WorldTextBackend::CodexAppServer => "codex-app-server"@,
        WorldTextBackend::Webgpt => "webgpt"@,
    }
}

impl WorldTextBackend {
    pub fn as_str(self) -> (r: &'static str)
        ensures
            r@ == text_backend_name(self),
    {
        match self {
            WorldTextBackend::CodexAppServer => "codex-app-server",
            WorldTextBackend::Webgpt => "webgpt",
        }
    }
}

#[derive(Debug, Clone, Copy, PartialEq, Eq, Structural)]
pub enum WorldVisualBackend {
    CodexAppServer,
    Webgpt,
}

pub open spec fn visual_backend_name(b: WorldVisualBackend) -> Seq<char> {
    match b {
        WorldVisualBackend::CodexAppServer => "codex-app-server"@,
        WorldVisualBackend::Webgpt => "webgpt"@,
    }
}

impl WorldVisualBackend {
    pub fn as_str(self) -> (r: &'static str)
        ensures
            r@ == visual_backend_name(self),
    {
        match self {
            WorldVisualBackend::CodexAppServer => "codex-app-server",
            WorldVisualBackend::Webgpt => "webgpt",
        }
    }
}

#[derive(Debug, Clone)]
pub struct WorldBackendSelection {
    pub schema_version: String,
    pub world_id: String,
    pub text_backend: WorldTextBackend,
    pub visual_backend: WorldVisualBackend,
    pub locked: bool,
    pub source: String,
    pub created_at: String,
}

impl WorldBackendSelection {
    /// A locked selection for a world, stamped with the current time.
    pub fn new(
        world_id: String,
        text_backend: WorldTextBackend,
        visual_backend: WorldVisualBackend,
        source: &str,
    ) -> (out: Option<Self>)
        ensures
            out matches Some(r) ==> ({
                &&& (r.schema_version@ == WORLD_BACKEND_SELECTION_SCHEMA_VERSION@)
                &&& (r.world_id == world_id)
                &&& (r.text_backend == text_backend)
                &&& (r.visual_backend == visual_backend)
                &&& (r.locked)
                &&& (r.source@ == source@)
            }),
    {
        let now = match now_rfc3339() {
            Some(t) => t,
            None => return None,
        };
        Some(WorldBackendSelection {
            schema_version: String::from_str(WORLD_BACKEND_SELECTION_SCHEMA_VERSION),
            world_id,
            text_backend,
            visual_backend,
            locked: true,
            source: String::from_str(source),
            created_at: now,
        })
    }
}

/// Why a backend selection was refused.
#[derive(Debug, Clone)]
pub enum BackendSelectionError {
    Locked { world_id: String, text: WorldTextBackend, visual: WorldVisualBackend },
    WorldMismatch { expected: String, actual: String },
}

impl BackendSelectionError {
    pub fn message(&self) -> (r: String)
        ensures
            match self {
                BackendSelectionError::Locked { world_id, text, visual } => r@
                    == "backend selection is locked for world_id="@ + world_id@ + ", text="@
                    + text_backend_name(*text) + ", visual="@ + visual_backend_name(*visual),
                BackendSelectionError::WorldMismatch { expected, actual } => r@
                    == "backend selection world mismatch: expected="@ + expected@ + ", actual="@
                    + actual@,
            },
    {
        match self {
            BackendSelectionError::Locked { world_id, text, visual } => {
                let head = concat4(
                    "backend selection is locked for world_id=",
                    world_id.as_str(),
                    ", text=",
                    text.as_str(),
                );
                let tail = concat2(", visual=", visual.as_str());
                concat2(head.as_str(), tail.as_str())
            },
            BackendSelectionError::WorldMismatch { expected, actual } => {
                let head = concat4(
                    "backend selection world mismatch: expected=",
                    expected.as_str(),
                    ", actual=",
                    actual.as_str(),
                );
                head
            },
        }
    }
}

/// Saving `selection` over `existing` changes a locked choice of backends.
pub open spec fn changes_locked(existing: WorldBackendSelection, selection: WorldBackendSelection) -> bool {
    existing.locked && (existing.text_backend != selection.text_backend
        || existing.visual_backend != selection.visual_backend)
}

/// A selection may replace the saved one unless that one is locked to other
/// backends.
pub fn check_backend_selection_update(
    existing: Option<&WorldBackendSelection>,
    selection: &WorldBackendSelection,
) -> (r: Result<(), BackendSelectionError>)
    ensures
        match existing {
            None => r is Ok,
            Some(e) => match r {
                Ok(()) => !changes_locked(*e, *selection),
                Err(err) => {
                    &&& changes_locked(*e, *selection)
                    &&& err matches BackendSelectionError::Locked { world_id, text, visual }
                    &&& world_id@ == e.world_id@
                    &&& text == e.text_backend
                    &&& visual == e.visual_backend
                },
            },
        },
{
    match existing {
        None => Ok(()),
        Some(e) => {
            if e.locked && (e.text_backend != selection.text_backend
                || e.visual_backend != selection.visual_backend) {
                Err(BackendSelectionError::Locked {
                    world_id: e.world_id.clone(),
                    text: e.text_backend,
                    visual: e.visual_backend,
                })
            } else {
                Ok(())
            }
        },
    }
}

/// A loaded selection must belong to the world it was loaded for.
pub fn check_loaded_backend_selection(selection: &WorldBackendSelection, world_id: &str) -> (r: Result<
    (),
    BackendSelectionError,
>)
    ensures
        r is Ok <==> selection.world_id@ == world_id@,
        r matches Err(BackendSelectionError::WorldMismatch { expected, actual }) ==> expected@
            == world_id@ && actual@ == selection.world_id@,
        r is Err ==> r matches Err(BackendSelectionError::WorldMismatch { .. }),
{
    if str_eq(selection.world_id.as_str(), world_id) {
        Ok(())
    } else {
        Err(BackendSelectionError::WorldMismatch {
            expected: String::from_str(world_id),
            actual: selection.world_id.clone(),
        })
    }
}

} // verus!
