use singulari_world::autobiographical_index::{
    capsule_refs_for_text, chapter_dominant_goals, compile_autobiographical_index, index_terms,
    rebuild_autobiographical_index, AutobiographicalGeneralEventKind, AutobiographicalIndexInput,
    AUTOBIOGRAPHICAL_INDEX_SCHEMA_VERSION,
};
use singulari_world::context_capsule::{
    ContextCapsuleIndex, ContextCapsuleIndexEntry, ContextCapsuleKind, ContextCapsulePolicy,
    ContextCapsuleVisibility, CONTEXT_CAPSULE_INDEX_ENTRY_SCHEMA_VERSION,
    CONTEXT_CAPSULE_INDEX_SCHEMA_VERSION,
};
use singulari_world::plot_thread::{
    PlotThread, PlotThreadPacket, PlotThreadStatus, PLOT_THREAD_PACKET_SCHEMA_VERSION,
    PLOT_THREAD_SCHEMA_VERSION,
};
use singulari_world::relationship_graph::{
    RelationshipEdge, RelationshipGraphPacket, RELATIONSHIP_EDGE_SCHEMA_VERSION,
    RELATIONSHIP_GRAPH_PACKET_SCHEMA_VERSION,
};
use singulari_world::world_db::{ChapterSummaryRecord, ChapterSummaryV2};
use singulari_world::world_process_clock::{
    WorldProcess, WorldProcessClockPacket, WORLD_PROCESS_CLOCK_PACKET_SCHEMA_VERSION,
    WORLD_PROCESS_SCHEMA_VERSION,
};

fn v2(summary_id: &str, facts: Vec<String>) -> ChapterSummaryV2 {
    ChapterSummaryV2 {
        summary_id: summary_id.to_owned(),
        source_turn_start: "turn_0000".to_owned(),
        source_turn_end: "turn_0004".to_owned(),
        facts,
        open_ambiguities: Vec::new(),
        process_changes: Vec::new(),
        relationship_changes: Vec::new(),
    }
}

fn sample_chapter() -> ChapterSummaryRecord {
    ChapterSummaryRecord {
        summary_id: "chapter_0001".to_owned(),
        chapter_index: 1,
        title: "Chapter 1: gate".to_owned(),
        summary: "gate tax requires a stamped token".to_owned(),
        v2: v2("chapter_0001", vec!["gate tax requires a stamped token".to_owned()]),
        source_turn_start: "turn_0000".to_owned(),
        source_turn_end: "turn_0004".to_owned(),
        created_at: "2026-04-29T00:00:00Z".to_owned(),
    }
}

fn entry(capsule_id: &str, kind: ContextCapsuleKind, triggers: &[&str]) -> ContextCapsuleIndexEntry {
    ContextCapsuleIndexEntry {
        schema_version: CONTEXT_CAPSULE_INDEX_ENTRY_SCHEMA_VERSION.to_owned(),
        world_id: "stw_auto_index".to_owned(),
        capsule_id: capsule_id.to_owned(),
        kind,
        visibility: ContextCapsuleVisibility::PlayerVisible,
        summary: "gate tax requires a stamped token".to_owned(),
        triggers: triggers.iter().map(|t| (*t).to_owned()).collect(),
        evidence_refs: Vec::new(),
        content_ref: "context_capsules/world_lore/gate_tax.json".to_owned(),
        token_estimate: 12,
        last_used_turn: None,
        recent_use_count: 0,
        updated_at: "2026-04-29T00:00:00Z".to_owned(),
    }
}

fn sample_capsules() -> ContextCapsuleIndex {
    ContextCapsuleIndex {
        schema_version: CONTEXT_CAPSULE_INDEX_SCHEMA_VERSION.to_owned(),
        world_id: "stw_auto_index".to_owned(),
        turn_id: "turn_0005".to_owned(),
        entries: vec![entry("world_lore:gate_tax", ContextCapsuleKind::WorldLore, &["gate", "tax", "token"])],
        compiler_policy: ContextCapsulePolicy::default(),
    }
}

fn sample_threads() -> PlotThreadPacket {
    PlotThreadPacket {
        schema_version: PLOT_THREAD_PACKET_SCHEMA_VERSION.to_owned(),
        world_id: "stw_auto_index".to_owned(),
        turn_id: "turn_0005".to_owned(),
        active_visible: vec![PlotThread {
            schema_version: PLOT_THREAD_SCHEMA_VERSION.to_owned(),
            thread_id: "thread:gate_tax".to_owned(),
            title: "Gate tax".to_owned(),
            status: PlotThreadStatus::Active,
            summary: "A gate tax blocks passage.".to_owned(),
            current_question: "How can the protagonist secure a token?".to_owned(),
            source_refs: vec!["canon_event:turn_0002".to_owned()],
        }],
    }
}

fn sample_relationships() -> RelationshipGraphPacket {
    RelationshipGraphPacket {
        schema_version: RELATIONSHIP_GRAPH_PACKET_SCHEMA_VERSION.to_owned(),
        world_id: "stw_auto_index".to_owned(),
        turn_id: "turn_0005".to_owned(),
        active_edges: vec![RelationshipEdge {
            schema_version: RELATIONSHIP_EDGE_SCHEMA_VERSION.to_owned(),
            edge_id: "guard->protagonist:suspicious".to_owned(),
            source_entity_id: "char:guard".to_owned(),
            target_entity_id: "char:protagonist".to_owned(),
            stance: "suspicious".to_owned(),
            visibility: "player_visible".to_owned(),
            visible_summary: "The guard doubts the protagonist near a gate.".to_owned(),
            source_refs: vec!["relationship_graph_event:turn_0002:00".to_owned()],
            voice_effects: Vec::new(),
        }],
    }
}

fn sample_processes() -> WorldProcessClockPacket {
    WorldProcessClockPacket {
        schema_version: WORLD_PROCESS_CLOCK_PACKET_SCHEMA_VERSION.to_owned(),
        world_id: "stw_auto_index".to_owned(),
        turn_id: "turn_0005".to_owned(),
        visible_processes: vec![WorldProcess {
            schema_version: WORLD_PROCESS_SCHEMA_VERSION.to_owned(),
            process_id: "process:gate_closing".to_owned(),
            summary: "A gate will close soon.".to_owned(),
            next_tick_contract: "Gate access narrows unless a token is secured.".to_owned(),
            source_refs: vec!["scene_pressure:gate_time".to_owned()],
        }],
    }
}

#[test]
fn builds_periods_and_general_events_from_existing_memory_layers() {
    let chapters = vec![sample_chapter()];
    let (threads, relationships, processes, capsules) =
        (sample_threads(), sample_relationships(), sample_processes(), sample_capsules());
    let index = rebuild_autobiographical_index(&AutobiographicalIndexInput {
        world_id: "stw_auto_index",
        turn_id: "turn_0005",
        chapter_summaries: &chapters,
        plot_threads: &threads,
        relationship_graph: &relationships,
        world_process_clock: &processes,
        context_capsule_index: &capsules,
    }).expect("clock");

    assert_eq!(index.periods.len(), 1);
    assert!(index.periods[0].capsule_refs.contains(&"world_lore:gate_tax".to_owned()));
    assert!(index.general_events.iter().any(|event| {
        event.event_kind == AutobiographicalGeneralEventKind::PlotThread
            && event.capsule_refs.contains(&"world_lore:gate_tax".to_owned())
    }));
}

#[test]
fn periods_run_latest_chapter_first_with_their_goals() {
    let mut early = sample_chapter();
    early.summary_id = "chapter 0001".to_owned();
    let mut late = sample_chapter();
    late.summary_id = "chapter_0002".to_owned();
    late.chapter_index = 2;
    late.title = "Chapter 2".to_owned();
    late.v2.open_ambiguities = vec!["who stamps tokens?".to_owned(), "  ".to_owned()];
    let chapters = vec![late.clone(), early];
    let (threads, relationships, processes, capsules) =
        (sample_threads(), sample_relationships(), sample_processes(), sample_capsules());
    let index = compile_autobiographical_index(
        &AutobiographicalIndexInput {
            world_id: "w",
            turn_id: "t",
            chapter_summaries: &chapters,
            plot_threads: &threads,
            relationship_graph: &relationships,
            world_process_clock: &processes,
            context_capsule_index: &capsules,
        },
        "now",
    );
    assert_eq!(index.schema_version, AUTOBIOGRAPHICAL_INDEX_SCHEMA_VERSION);
    assert_eq!(index.updated_at, "now");
    assert_eq!(index.periods[0].period_id, "period:chapter_0002");
    assert_eq!(index.periods[1].period_id, "period:chapter_0001");
    assert_eq!(index.periods[0].turn_range, ["turn_0000".to_owned(), "turn_0004".to_owned()]);
    assert_eq!(
        index.periods[0].dominant_goals,
        vec!["who stamps tokens?", "gate tax requires a stamped token"]
    );
    assert_eq!(index.periods[1].evidence_refs, vec!["chapter_summary:chapter 0001"]);
    let kinds: Vec<AutobiographicalGeneralEventKind> = index.general_events.iter().map(|e| e.event_kind).collect();
    assert_eq!(
        kinds,
        vec![
            AutobiographicalGeneralEventKind::PlotThread,
            AutobiographicalGeneralEventKind::RelationshipPattern,
            AutobiographicalGeneralEventKind::WorldProcess
        ]
    );
    assert_eq!(index.general_events[1].event_cluster_id, "general_event:relationship:guard-_protagonist_suspicious");
    assert_eq!(index.general_events[0].pattern, "Gate tax: How can the protagonist secure a token?");
}

#[test]
fn dominant_goals_fall_back_to_summary_and_stop_at_five() {
    let mut c = sample_chapter();
    c.v2.facts = Vec::new();
    assert_eq!(chapter_dominant_goals(&c), vec!["gate tax requires a stamped token"]);
    c.v2.open_ambiguities = (0..7).map(|i| format!("open {i}")).collect();
    assert_eq!(chapter_dominant_goals(&c).len(), 5);
}

#[test]
fn index_terms_keep_long_lowercase_words() {
    let terms = index_terms(&vec!["Gate tax: the Token!".to_owned(), "no a_b place:gate".to_owned()]);
    assert_eq!(terms, vec!["a_b", "gate", "place:gate", "tax:", "the", "token"]);
}

#[test]
fn design_capsules_need_an_exact_trigger() {
    let mut capsules = sample_capsules();
    capsules.entries.push(entry("character_text_design:guard", ContextCapsuleKind::CharacterTextDesign, &["guardhouse"]));
    capsules.entries.push(entry("character_text_design:porter", ContextCapsuleKind::CharacterTextDesign, &["porter"]));
    let refs = capsule_refs_for_text(&capsules, &vec!["the guard and the porter at a gate".to_owned()]);
    assert_eq!(refs, vec!["character_text_design:porter", "world_lore:gate_tax"]);
}
