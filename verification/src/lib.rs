//! Verified core of the Singulari world simulator: ledgers, packet compilers,
//! turn adjudication and chat routing.
pub mod text;
pub mod models;
pub mod knowledge_ledger;
pub mod chat;
pub mod adjudication;
pub mod scene_pressure;
pub mod location_graph;
pub mod body_resource;
pub mod affordance_graph;
pub mod entity_update;
pub mod event_ledger;
pub mod clock;
pub mod response_context;
pub mod character_text_design;
pub mod hook_ledger;
pub mod resolution;
pub mod social_exchange;
pub mod consequence_spine;
pub mod encounter_surface;
pub mod agent_bridge;
pub mod backend_selection;
pub mod job_ledger;
pub mod host_supervisor;
pub mod extra_memory;
pub mod context_capsule;
pub mod encounter_replay;
pub mod scene_director;
pub mod encounter_events;
pub mod relationship_graph;
pub mod actor_agency;
pub mod belief_graph;
pub mod world_lore;
pub mod plot_thread;
pub mod change_ledger;
pub mod world_process_clock;
pub mod world_db;
pub mod autobiographical_index;
pub mod codex_view;
pub mod turn_commit;
