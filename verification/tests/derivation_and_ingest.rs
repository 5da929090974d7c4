use knowledge_interface::bootstrap::default_edge_properties;
use knowledge_interface::domain::{
    BlockNode, ExistingBlockContext, GraphEdge, PropertyScalar, PropertyValue, Visibility,
};
use knowledge_interface::hierarchy::{
    block_levels_for_blocks, blocks_needing_context, extract_text, finish_root_resolution,
    root_walks, summarize_parent_scopes,
};
use knowledge_interface::ingest::{
    build_embedded_blocks, commit_step, CommitAction, CommitEvent, CommitState, EMBEDDING_DIM,
};

fn block(id: &str, text: &str) -> BlockNode {
    BlockNode {
        id: id.to_string(),
        type_id: "node.block".to_string(),
        user_id: "user-1".to_string(),
        visibility: Visibility::Private,
        properties: vec![PropertyValue {
            key: "text".to_string(),
            value: PropertyScalar::String(text.to_string()),
        }],
        resolved_labels: vec![],
    }
}

fn edge(from: &str, to: &str, kind: &str) -> GraphEdge {
    GraphEdge {
        from_id: from.to_string(),
        to_id: to.to_string(),
        edge_type: kind.to_string(),
        user_id: "user-1".to_string(),
        visibility: Visibility::Private,
        properties: default_edge_properties("test edge"),
    }
}

fn levels_of(
    blocks: &Vec<BlockNode>,
    edges: &Vec<GraphEdge>,
    ctxs: &Vec<(String, ExistingBlockContext)>,
) -> Vec<(String, i64)> {
    block_levels_for_blocks(blocks, edges, ctxs, &vec![])
}

#[test]
fn computes_block_levels_from_described_by_and_summarizes_edges() {
    let root_block_id = "550e8400-e29b-41d4-a716-446655440099";
    let child_block_id = "550e8400-e29b-41d4-a716-446655440098";
    let blocks = vec![block(root_block_id, ""), block(child_block_id, "")];
    let edges = vec![
        edge(
            "550e8400-e29b-41d4-a716-446655440001",
            root_block_id,
            "DESCRIBED_BY",
        ),
        edge(root_block_id, child_block_id, "SUMMARIZES"),
    ];

    let levels = levels_of(&blocks, &edges, &vec![]);
    assert_eq!(levels.len(), 2);
    assert_eq!(levels[0], (root_block_id.to_string(), 0));
    assert_eq!(levels[1], (child_block_id.to_string(), 1));
}

#[test]
fn resolves_root_entity_and_level_from_existing_summarize_parent_block() {
    let existing_parent_block_id = "9a8c589c-51ea-4e36-b60e-505769f19b7a";
    let new_block_id = "0fdfb642-1ec0-48c9-a8e1-3120e8da5d0f";
    let blocks = vec![BlockNode {
        user_id: "exobrain".to_string(),
        visibility: Visibility::Shared,
        ..block(new_block_id, "child")
    }];
    let edges = vec![GraphEdge {
        user_id: "exobrain".to_string(),
        visibility: Visibility::Shared,
        ..edge(existing_parent_block_id, new_block_id, "SUMMARIZES")
    }];

    let scopes = summarize_parent_scopes(&blocks, &edges);
    assert_eq!(scopes.len(), 1);
    assert_eq!(scopes[0].0, existing_parent_block_id);
    assert_eq!(scopes[0].1, "exobrain");

    let ctxs = vec![(
        existing_parent_block_id.to_string(),
        ExistingBlockContext {
            root_entity_id: "8c75cc89-6204-4fed-aec1-34d032ff95ee".to_string(),
            universe_id: "9d7f0fa5-78c1-4805-9efb-3f8f16090d7f".to_string(),
            block_level: 0,
        },
    )];

    let walks = root_walks(&blocks, &edges, &ctxs).expect("walk should resolve");
    let roots = finish_root_resolution(&walks, &vec![]).expect("no own context needed");
    assert_eq!(
        roots,
        vec![(
            new_block_id.to_string(),
            "8c75cc89-6204-4fed-aec1-34d032ff95ee".to_string()
        )]
    );

    let levels = levels_of(&blocks, &edges, &ctxs);
    assert_eq!(levels, vec![(new_block_id.to_string(), 1)]);
}

#[test]
fn rejects_summarize_cycle_in_payload() {
    let a = "550e8400-e29b-41d4-a716-4466554400a1";
    let b = "550e8400-e29b-41d4-a716-4466554400a2";
    let blocks = vec![block(a, ""), block(b, "")];
    let edges = vec![edge(a, b, "SUMMARIZES"), edge(b, a, "SUMMARIZES")];

    let err = root_walks(&blocks, &edges, &vec![]).expect_err("cycle must be refused");
    assert!(err.message().contains("cycle detected"));
}

#[test]
fn plans_own_context_lookup_for_lone_block_update() {
    let lone = "550e8400-e29b-41d4-a716-4466554400be";
    let blocks = vec![block(lone, "updated")];
    let plan = blocks_needing_context(&blocks, &vec![]);
    assert_eq!(plan.len(), 1);
    assert_eq!(plan[0].0, lone);
    assert_eq!(plan[0].1, "user-1");

    let walks = root_walks(&blocks, &vec![], &vec![]).expect("walk should defer to own context");
    let own = vec![(
        lone.to_string(),
        ExistingBlockContext {
            root_entity_id: "550e8400-e29b-41d4-a716-4466554400aa".to_string(),
            universe_id: "9d7f0fa5-78c1-4805-9efb-3f8f16090d7f".to_string(),
            block_level: 2,
        },
    )];
    let roots = finish_root_resolution(&walks, &own).expect("own context should resolve the root");
    assert_eq!(roots[0].1, "550e8400-e29b-41d4-a716-4466554400aa");

    let levels = block_levels_for_blocks(&blocks, &vec![], &vec![], &own);
    assert_eq!(levels, vec![(lone.to_string(), 2)]);
}

#[test]
fn fails_root_resolution_when_no_anchor_exists() {
    let lone = "550e8400-e29b-41d4-a716-4466554400bf";
    let blocks = vec![block(lone, "floating")];
    let walks = root_walks(&blocks, &vec![], &vec![]).expect("walk itself succeeds");
    let err = finish_root_resolution(&walks, &vec![]).expect_err("nothing anchors the block");
    assert!(err.message().contains("unable to resolve root_entity_id"));
}

#[test]
fn embeds_blocks_with_matching_vectors() {
    let block_id = "550e8400-e29b-41d4-a716-446655440002";
    let blocks = vec![block(block_id, "Alex is a close friend.")];
    let texts = vec![extract_text(&blocks[0].properties)];
    let vectors = vec![vec![0u32; EMBEDDING_DIM]];
    let levels = vec![(block_id.to_string(), 0i64)];
    let roots = vec![(
        block_id.to_string(),
        "550e8400-e29b-41d4-a716-446655440001".to_string(),
    )];

    let embedded = build_embedded_blocks(&blocks, &texts, &vectors, &levels, &roots, &vec![])
        .expect("the batch matches");
    assert_eq!(embedded.len(), 1);
    assert_eq!(embedded[0].block.id, block_id);
    assert_eq!(embedded[0].vector.len(), EMBEDDING_DIM);
    assert_eq!(embedded[0].block_level, 0);
    assert_eq!(embedded[0].text, "Alex is a close friend.");
    assert_eq!(
        embedded[0].root_entity_id,
        "550e8400-e29b-41d4-a716-446655440001"
    );
    assert_eq!(
        embedded[0].universe_id,
        "9d7f0fa5-78c1-4805-9efb-3f8f16090d7f"
    );
    assert_eq!(embedded[0].user_id, "user-1");
    assert_eq!(embedded[0].visibility, Visibility::Private);
}

#[test]
fn rejects_embedding_batch_of_wrong_shape() {
    let blocks = vec![block("550e8400-e29b-41d4-a716-446655440002", "text")];
    let texts = vec!["text".to_string()];

    let missing = build_embedded_blocks(&blocks, &texts, &vec![], &vec![], &vec![], &vec![]);
    assert!(missing.is_err());

    let short = build_embedded_blocks(
        &blocks,
        &texts,
        &vec![vec![0u32; 4]],
        &vec![],
        &vec![],
        &vec![],
    );
    assert!(short.is_err());
}

#[test]
fn vector_failure_rolls_back_graph() {
    let (s1, a1) = commit_step(CommitState::GraphPending, CommitEvent::GraphOk);
    assert_eq!(s1, CommitState::GraphApplied);
    assert_eq!(a1, CommitAction::UpsertVectors);

    let (s2, a2) = commit_step(s1, CommitEvent::VectorFailed);
    assert_eq!(s2, CommitState::RolledBack);
    assert_eq!(a2, CommitAction::RollbackGraph);

    let (s3, a3) = commit_step(s2, CommitEvent::CommitOk);
    assert_eq!(s3, CommitState::RolledBack);
    assert_eq!(a3, CommitAction::Ignore);
    assert!(s3 != CommitState::Committed);
}

#[test]
fn successful_commit_deletes_nothing() {
    let (s1, _) = commit_step(CommitState::GraphPending, CommitEvent::GraphOk);
    let (s2, a2) = commit_step(s1, CommitEvent::VectorOk);
    assert_eq!(a2, CommitAction::CommitGraph);
    let (s3, a3) = commit_step(s2, CommitEvent::CommitOk);
    assert_eq!(s3, CommitState::Committed);
    assert_eq!(a3, CommitAction::Done);
}

#[test]
fn commit_failure_after_vectors_compensates() {
    let (s1, _) = commit_step(CommitState::GraphPending, CommitEvent::GraphOk);
    let (s2, _) = commit_step(s1, CommitEvent::VectorOk);
    let (s3, a3) = commit_step(s2, CommitEvent::CommitFailed);
    assert_eq!(s3, CommitState::Compensated);
    assert_eq!(a3, CommitAction::DeleteVectors);
}
