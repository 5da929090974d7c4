use knowledge_interface::bootstrap::default_edge_properties;
use knowledge_interface::domain::{
    BlockNode, EdgeEndpointRule, EntityNode, GraphDelta, GraphEdge, PropertyScalar, PropertyValue,
    SchemaSnapshot, SchemaType, TypeInheritance, TypeProperty, Visibility,
};
use knowledge_interface::hierarchy::{
    block_levels_for_blocks, finish_root_resolution, root_walks, summarize_parent_scopes,
};
use knowledge_interface::ingest::{build_embedded_blocks, prepare_ingest, EMBEDDING_DIM};

fn node_type(id: &str, name: &str) -> SchemaType {
    SchemaType {
        id: id.to_string(),
        kind: "node".to_string(),
        name: name.to_string(),
        description: String::new(),
        active: true,
    }
}

fn edge_type(id: &str, name: &str) -> SchemaType {
    SchemaType {
        id: id.to_string(),
        kind: "edge".to_string(),
        name: name.to_string(),
        description: String::new(),
        active: true,
    }
}

fn inherits(child: &str, parent: &str) -> TypeInheritance {
    TypeInheritance {
        child_type_id: child.to_string(),
        parent_type_id: parent.to_string(),
        description: String::new(),
        active: true,
    }
}

fn prop(owner: &str, name: &str, value_type: &str, required: bool) -> TypeProperty {
    TypeProperty {
        owner_type_id: owner.to_string(),
        prop_name: name.to_string(),
        value_type: value_type.to_string(),
        required,
        readable: true,
        writable: true,
        active: true,
        description: String::new(),
    }
}

fn rule(edge: &str, from: &str, to: &str) -> EdgeEndpointRule {
    EdgeEndpointRule {
        edge_type_id: edge.to_string(),
        from_node_type_id: from.to_string(),
        to_node_type_id: to.to_string(),
        active: true,
        description: String::new(),
    }
}

fn snapshot() -> SchemaSnapshot {
    SchemaSnapshot {
        node_types: vec![
            node_type("node.entity", "Entity"),
            node_type("node.person", "Person"),
            node_type("node.block", "Block"),
        ],
        edge_types: vec![
            edge_type("edge.described_by", "DESCRIBED_BY"),
            edge_type("edge.is_part_of", "IS_PART_OF"),
        ],
        inheritance: vec![inherits("node.person", "node.entity")],
        properties: vec![
            prop("node.entity", "name", "string", true),
            prop("node.block", "text", "string", true),
            prop("edge", "confidence", "float", true),
            prop("edge", "status", "string", true),
            prop("edge", "context", "string", true),
        ],
        edge_rules: vec![
            rule("edge.described_by", "node.entity", "node.block"),
            rule("edge.is_part_of", "node.entity", "node.universe"),
        ],
    }
}

fn minimal_delta() -> GraphDelta {
    GraphDelta {
        universes: vec![],
        entities: vec![EntityNode {
            id: "550e8400-e29b-41d4-a716-446655440001".to_string(),
            type_id: "node.person".to_string(),
            universe_id: None,
            user_id: "user-1".to_string(),
            visibility: Visibility::Private,
            properties: vec![PropertyValue {
                key: "name".to_string(),
                value: PropertyScalar::String("Alex".to_string()),
            }],
            resolved_labels: vec![],
        }],
        blocks: vec![BlockNode {
            id: "550e8400-e29b-41d4-a716-446655440002".to_string(),
            type_id: "node.block".to_string(),
            user_id: "user-1".to_string(),
            visibility: Visibility::Private,
            properties: vec![PropertyValue {
                key: "text".to_string(),
                value: PropertyScalar::String("Alex is a close friend.".to_string()),
            }],
            resolved_labels: vec![],
        }],
        edges: vec![
            GraphEdge {
                from_id: "550e8400-e29b-41d4-a716-446655440001".to_string(),
                to_id: "9d7f0fa5-78c1-4805-9efb-3f8f16090d7f".to_string(),
                edge_type: "IS_PART_OF".to_string(),
                user_id: "user-1".to_string(),
                visibility: Visibility::Private,
                properties: default_edge_properties("test universe assignment"),
            },
            GraphEdge {
                from_id: "550e8400-e29b-41d4-a716-446655440001".to_string(),
                to_id: "550e8400-e29b-41d4-a716-446655440002".to_string(),
                edge_type: "DESCRIBED_BY".to_string(),
                user_id: "user-1".to_string(),
                visibility: Visibility::Private,
                properties: default_edge_properties("test location"),
            },
        ],
    }
}

#[test]
fn ingests_blocks_and_creates_embeddings() {
    let snap = snapshot();
    let delta = minimal_delta();

    let prepared = prepare_ingest(&delta, &snap, &vec![]).expect("ingestion should succeed");
    assert_eq!(
        prepared.delta.entities[0].resolved_labels,
        vec!["Entity".to_string(), "Person".to_string()]
    );
    assert_eq!(
        prepared.delta.blocks[0].resolved_labels,
        vec!["Block".to_string()]
    );
    assert_eq!(prepared.texts, vec!["Alex is a close friend.".to_string()]);

    let blocks = &prepared.delta.blocks;
    let edges = &prepared.delta.edges;
    let scopes = summarize_parent_scopes(blocks, edges);
    assert!(scopes.is_empty());

    let levels = block_levels_for_blocks(blocks, edges, &vec![], &vec![]);
    assert_eq!(
        levels,
        vec![("550e8400-e29b-41d4-a716-446655440002".to_string(), 0)]
    );

    let walks = root_walks(blocks, edges, &vec![]).expect("the described block resolves");
    let roots = finish_root_resolution(&walks, &vec![]).expect("no extra context needed");
    assert_eq!(roots[0].1, "550e8400-e29b-41d4-a716-446655440001");

    let vectors = vec![vec![0u32; EMBEDDING_DIM]];
    let embedded = build_embedded_blocks(
        blocks,
        &prepared.texts,
        &vectors,
        &levels,
        &roots,
        &prepared.delta.entities,
    )
    .expect("one block, one vector");
    assert_eq!(embedded.len(), 1);
    assert_eq!(embedded[0].block.id, "550e8400-e29b-41d4-a716-446655440002");
    assert_eq!(embedded[0].vector.len(), EMBEDDING_DIM);
    assert_eq!(embedded[0].block_level, 0);
    assert_eq!(embedded[0].root_entity_id, "550e8400-e29b-41d4-a716-446655440001");
    assert_eq!(embedded[0].text, "Alex is a close friend.");
    assert_eq!(embedded[0].user_id, "user-1");
    assert_eq!(embedded[0].visibility, Visibility::Private);
    // the root entity carries no universe, so the block files under the common one
    assert_eq!(embedded[0].universe_id, "9d7f0fa5-78c1-4805-9efb-3f8f16090d7f");
}

#[test]
fn ingest_preparation_is_deterministic() {
    let snap = snapshot();
    let delta = minimal_delta();
    let first = prepare_ingest(&delta, &snap, &vec![]).expect("valid delta");
    let second = prepare_ingest(&delta, &snap, &vec![]).expect("valid delta");
    assert_eq!(first.texts, second.texts);
    assert_eq!(
        first.delta.entities[0].resolved_labels,
        second.delta.entities[0].resolved_labels
    );
    assert_eq!(first.delta.blocks[0].id, second.delta.blocks[0].id);
}
