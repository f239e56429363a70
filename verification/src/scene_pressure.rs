//! Scene pressure records that the affordance and encounter compilers read.
use vstd::prelude::*;

verus! {

pub const SCENE_PRESSURE_PACKET_SCHEMA_VERSION: &'static str = "singulari.scene_pressure_packet.v1";
pub const SCENE_PRESSURE_SCHEMA_VERSION: &'static str = "singulari.scene_pressure.v1";

#[derive(Debug, Clone, Copy, PartialEq, Eq, Structural)]
pub enum ScenePressureKind {
    Threat,
    SocialPermission,
    Desire,
    MoralCost,
    TimePressure,
    Body,
    Resource,
    Knowledge,
    Environment,
}

#[derive(Debug, Clone, Copy, PartialEq, Eq, Structural)]
pub enum ScenePressureVisibility {
    PlayerVisible,
    HiddenAdjudicationOnly,
}

#[derive(Debug, Clone, Copy, PartialEq, Eq, Structural)]
pub enum ScenePressureUrgency {
    Immediate,
    Soon,
    Background,
}

#[derive(Debug, Clone)]
pub struct ScenePressureProseEffect {
    pub paragraph_pressure: String,
    pub sensory_focus: Vec<String>,
    pub dialogue_style: String,
}

#[derive(Debug, Clone)]
pub struct ScenePressure {
    pub schema_version: String,
    pub pressure_id: String,
    pub kind: ScenePressureKind,
    pub visibility: ScenePressureVisibility,
    pub intensity: u8,
    pub urgency: ScenePressureUrgency,
    pub source_refs: Vec<String>,
    pub observable_signals: Vec<String>,
    pub choice_affordances: Vec<String>,
    pub prose_effect: ScenePressureProseEffect,
}

#[derive(Debug, Clone)]
pub struct ScenePressurePolicy {
    pub source: String,
    pub use_rules: Vec<String>,
}

impl Default for ScenePressurePolicy {
        fn default() -> (r: Self)
        ensures
            r.source@ == "compiled_from_visible_scene_state_v1"@,
    {
        ScenePressurePolicy {
            source: String::from_str("compiled_from_visible_scene_state_v1"),
            use_rules: Vec::new(),
        }
    }
}

/// The pressures of the current scene, split by visibility.
#[derive(Debug, Clone)]
pub struct ScenePressurePacket {
    pub schema_version: String,
    pub world_id: String,
    pub turn_id: String,
    pub visible_active: Vec<ScenePressure>,
    pub hidden_adjudication_only: Vec<ScenePressure>,
    pub compiler_policy: ScenePressurePolicy,
}

impl Default for ScenePressurePacket {
    fn default() -> (r: Self)
        ensures
            r.schema_version@ == SCENE_PRESSURE_PACKET_SCHEMA_VERSION@,
            r.visible_active@.len() == 0,
            r.hidden_adjudication_only@.len() == 0,
    {
        ScenePressurePacket {
            schema_version: String::from_str(SCENE_PRESSURE_PACKET_SCHEMA_VERSION),
            world_id: String::new(),
            turn_id: String::new(),
            visible_active: Vec::new(),
            hidden_adjudication_only: Vec::new(),
            compiler_policy: ScenePressurePolicy::default(),
        }
    }
}

/// How a scene pressure changed in a turn.
#[derive(Debug, Clone, Copy, PartialEq, Eq, Structural)]
pub enum ScenePressureChange {
    Introduced,
    Escalated,
    Eased,
    Resolved,
}

/// The name of a change, as `Debug` writes it.
pub open spec fn pressure_change_name(c: ScenePressureChange) -> Seq<char> {
    match c {
        ScenePressureChange::Introduced => "Introduced"@,
        ScenePressureChange::Escalated => "Escalated"@,
        ScenePressureChange::Eased => "Eased"@,
        ScenePressureChange::Resolved => "Resolved"@,
    }
}

pub fn pressure_change_label(c: ScenePressureChange) -> (r: &'static str)
    ensures
        r@ == pressure_change_name(c),
{
    match c {
        ScenePressureChange::Introduced => "Introduced",
        ScenePressureChange::Escalated => "Escalated",
        ScenePressureChange::Eased => "Eased",
        ScenePressureChange::Resolved => "Resolved",
    }
}

/// One scene pressure event: the pressure, how it changed, and what happened.
#[derive(Debug, Clone)]
pub struct ScenePressureEventRecord {
    pub pressure_id: String,
    pub change: ScenePressureChange,
    pub summary: String,
    pub evidence_refs: Vec<String>,
}

/// The scene pressure events of a turn.
#[derive(Debug, Clone)]
pub struct ScenePressureEventPlan {
    pub world_id: String,
    pub turn_id: String,
    pub records: Vec<ScenePressureEventRecord>,
}

} // verus!
