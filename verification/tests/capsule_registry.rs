use singulari_world::character_text_design::{
    CharacterTextDesign, CharacterTextDesignPacket, CharacterTextDesignPolicy,
};
use singulari_world::context_capsule::{
    build_context_capsule_index, rebuild_context_capsule_registry, use_rules_for,
    ContextCapsuleBuildInput, ContextCapsuleKind, ContextCapsuleVisibility,
};
use singulari_world::relationship_graph::{RelationshipEdge, RelationshipGraphPacket};
use singulari_world::world_lore::{WorldLoreEntry, WorldLorePacket};

fn lore() -> WorldLorePacket {
    WorldLorePacket {
        schema_version: "lore".to_owned(),
        world_id: "w".to_owned(),
        turn_id: "t".to_owned(),
        entries: vec![WorldLoreEntry {
            lore_id: "gate custom".to_owned(),
            name: "Gate custom".to_owned(),
            domain: "law".to_owned(),
            summary: "Gate officials require a local token.".to_owned(),
            mechanical_axis: "access".to_owned(),
            visibility: "player_visible".to_owned(),
            source_refs: vec!["world_lore_update:turn_0001:00".to_owned()],
        }],
    }
}

fn relationships() -> RelationshipGraphPacket {
    RelationshipGraphPacket {
        schema_version: "rel".to_owned(),
        world_id: "w".to_owned(),
        turn_id: "t".to_owned(),
        active_edges: vec![RelationshipEdge {
            schema_version: "edge".to_owned(),
            edge_id: "guard->player".to_owned(),
            source_entity_id: "char:guard".to_owned(),
            target_entity_id: "player".to_owned(),
            stance: "suspicious".to_owned(),
            visibility: "hidden".to_owned(),
            visible_summary: "The guard watches.".to_owned(),
            source_refs: vec!["e:1".to_owned(), "e:2".to_owned()],
            voice_effects: Vec::new(),
        }],
    }
}

fn designs() -> CharacterTextDesignPacket {
    CharacterTextDesignPacket {
        schema_version: "design".to_owned(),
        world_id: "w".to_owned(),
        active_designs: vec![CharacterTextDesign {
            schema_version: "d".to_owned(),
            entity_id: "char:guard".to_owned(),
            visible_name: "Guard".to_owned(),
            role: "gatekeeper".to_owned(),
            visibility: "player_visible".to_owned(),
            speech: Vec::new(),
            endings: Vec::new(),
            tone: Vec::new(),
            gestures: Vec::new(),
            habits: Vec::new(),
            drift: Vec::new(),
            source_refs: Vec::new(),
        }],
        compiler_policy: CharacterTextDesignPolicy::default(),
    }
}

#[test]
fn registry_indexes_every_active_projection_in_order() {
    let index = build_context_capsule_index("w", "turn_0002", &lore(), &relationships(), &designs(), "now");
    assert_eq!(index.entries.len(), 3);
    let lore_entry = &index.entries[0];
    assert_eq!(lore_entry.capsule_id, "world_lore:gate_custom");
    assert_eq!(lore_entry.content_ref, "context_capsules/world_lore/world_lore_gate_custom.json");
    assert_eq!(lore_entry.triggers, vec!["custom", "gate", "local", "officials", "require", "token"]);
    assert_eq!(lore_entry.evidence_refs[0].source, "world_lore");
    assert_eq!(lore_entry.token_estimate, 24);
    assert_eq!(lore_entry.updated_at, "now");
    let edge = &index.entries[1];
    assert_eq!(edge.kind, ContextCapsuleKind::RelationshipGraph);
    assert_eq!(edge.capsule_id, "relationship:guard-_player");
    assert_eq!(edge.visibility, ContextCapsuleVisibility::Hidden);
    assert_eq!(edge.evidence_refs.len(), 2);
    let design = &index.entries[2];
    assert_eq!(design.summary, "Guard speech design: gatekeeper");
    assert_eq!(design.capsule_id, "character_text:char_guard");
}

#[test]
fn rebuilt_registry_is_stamped_once() {
    let (l, r, d) = (lore(), relationships(), designs());
    let index = rebuild_context_capsule_registry(&ContextCapsuleBuildInput {
        world_id: "w",
        turn_id: "t",
        active_world_lore: &l,
        active_relationship_graph: &r,
        active_character_text_design: &d,
    }).expect("clock");
    assert_eq!(index.entries.len(), 3);
    assert!(index.entries.iter().all(|e| e.updated_at == index.entries[0].updated_at));
    assert_eq!(use_rules_for(ContextCapsuleKind::WorldLore).len(), 2);
}
