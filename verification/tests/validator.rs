use knowledge_interface::bootstrap::default_edge_properties;
use knowledge_interface::domain::{
    BlockNode, EdgeEndpointRule, EntityNode, GraphDelta, GraphEdge, NodeRelationshipCounts,
    PropertyScalar, PropertyValue, SchemaSnapshot, SchemaType, TypeInheritance, TypeProperty,
    UniverseNode, Visibility,
};
use knowledge_interface::validate::validate_delta;

fn node_type(id: &str, name: &str) -> SchemaType {
    SchemaType {
        id: id.to_string(),
        kind: "node".to_string(),
        name: name.to_string(),
        description: String::new(),
        active: true,
    }
}

fn edge_type(id: &str, name: &str) -> SchemaType {
    SchemaType {
        id: id.to_string(),
        kind: "edge".to_string(),
        name: name.to_string(),
        description: String::new(),
        active: true,
    }
}

fn inherits(child: &str, parent: &str) -> TypeInheritance {
    TypeInheritance {
        child_type_id: child.to_string(),
        parent_type_id: parent.to_string(),
        description: String::new(),
        active: true,
    }
}

fn prop(owner: &str, name: &str, value_type: &str, required: bool) -> TypeProperty {
    TypeProperty {
        owner_type_id: owner.to_string(),
        prop_name: name.to_string(),
        value_type: value_type.to_string(),
        required,
        readable: true,
        writable: true,
        active: true,
        description: String::new(),
    }
}

fn rule(edge: &str, from: &str, to: &str) -> EdgeEndpointRule {
    EdgeEndpointRule {
        edge_type_id: edge.to_string(),
        from_node_type_id: from.to_string(),
        to_node_type_id: to.to_string(),
        active: true,
        description: String::new(),
    }
}

fn snapshot() -> SchemaSnapshot {
    SchemaSnapshot {
        node_types: vec![
            node_type("node.entity", "Entity"),
            node_type("node.person", "Person"),
            node_type("node.object", "Object"),
            node_type("node.concept", "Concept"),
            node_type("node.event", "Event"),
            node_type("node.task", "Task"),
            node_type("node.message", "Message"),
            node_type("node.chat_message", "Chat Message"),
            node_type("node.ai_agent", "AI Agent"),
            node_type("node.place", "Place"),
            node_type("node.block", "Block"),
        ],
        edge_types: vec![
            edge_type("edge.related_to", "RELATED_TO"),
            edge_type("edge.described_by", "DESCRIBED_BY"),
            edge_type("edge.is_part_of", "IS_PART_OF"),
            edge_type("edge.located_at", "LOCATED_AT"),
            edge_type("edge.sent_to", "SENT_TO"),
            edge_type("edge.sent_by", "SENT_BY"),
            edge_type("edge.contradicts", "CONTRADICTS"),
            edge_type("edge.summarizes", "SUMMARIZES"),
        ],
        inheritance: vec![
            inherits("node.person", "node.entity"),
            inherits("node.object", "node.entity"),
            inherits("node.concept", "node.entity"),
            inherits("node.event", "node.entity"),
            inherits("node.task", "node.event"),
            inherits("node.message", "node.event"),
            inherits("node.chat_message", "node.message"),
            inherits("node.ai_agent", "node.person"),
            inherits("node.place", "node.entity"),
        ],
        properties: vec![
            prop("node.entity", "name", "string", true),
            prop("node.entity", "aliases", "json", false),
            prop("node.block", "text", "string", true),
            prop("edge", "confidence", "float", true),
            prop("edge", "status", "string", true),
            prop("edge", "context", "string", true),
        ],
        edge_rules: vec![
            rule("edge.related_to", "node.entity", "node.entity"),
            rule("edge.described_by", "node.entity", "node.block"),
            rule("edge.is_part_of", "node.entity", "node.universe"),
            rule("edge.located_at", "node.event", "node.place"),
            rule("edge.sent_to", "node.message", "node.person"),
            rule("edge.sent_by", "node.message", "node.person"),
            rule("edge.contradicts", "node.block", "node.block"),
            rule("edge.summarizes", "node.block", "node.block"),
        ],
    }
}

fn person(id: &str, name: &str) -> EntityNode {
    EntityNode {
        id: id.to_string(),
        type_id: "node.person".to_string(),
        universe_id: None,
        user_id: "user-1".to_string(),
        visibility: Visibility::Private,
        properties: vec![PropertyValue {
            key: "name".to_string(),
            value: PropertyScalar::String(name.to_string()),
        }],
        resolved_labels: vec![],
    }
}

fn block(id: &str, text: &str) -> BlockNode {
    BlockNode {
        id: id.to_string(),
        type_id: "node.block".to_string(),
        user_id: "user-1".to_string(),
        visibility: Visibility::Private,
        properties: vec![PropertyValue {
            key: "text".to_string(),
            value: PropertyScalar::String(text.to_string()),
        }],
        resolved_labels: vec![],
    }
}

fn edge(from: &str, to: &str, kind: &str) -> GraphEdge {
    GraphEdge {
        from_id: from.to_string(),
        to_id: to.to_string(),
        edge_type: kind.to_string(),
        user_id: "user-1".to_string(),
        visibility: Visibility::Private,
        properties: default_edge_properties("test edge"),
    }
}

#[test]
fn validation_aggregates_all_issues() {
    let snap = snapshot();
    let mut bad_entity = person("not-a-uuid", "Broken");
    bad_entity.properties.clear();
    let nameless = EntityNode {
        properties: vec![],
        ..person("550e8400-e29b-41d4-a716-446655440007", "ignored")
    };
    let delta = GraphDelta {
        universes: vec![],
        entities: vec![bad_entity, nameless],
        blocks: vec![],
        edges: vec![edge(
            "550e8400-e29b-41d4-a716-446655440007",
            "550e8400-e29b-41d4-a716-446655440008",
            "UNKNOWN_EDGE",
        )],
    };

    let report = validate_delta(&delta, &snap, &vec![]).expect_err("three rules should fire");
    assert_eq!(report.issues.len(), 3);
    let lines: Vec<String> = report.issues.iter().map(|i| i.message()).collect();
    assert!(lines[0].contains("must be a valid UUID"));
    assert!(lines[1].contains("missing required property 'name'"));
    assert!(lines[2].contains("references unknown edge type UNKNOWN_EDGE"));
    assert!(lines[0] != lines[1] && lines[1] != lines[2] && lines[0] != lines[2]);
}

#[test]
fn accepts_block_text_update_without_parent_edges_when_graph_state_is_valid() {
    let snap = snapshot();
    let block_id = "550e8400-e29b-41d4-a716-4466554400be";
    let counts = vec![(
        block_id.to_string(),
        NodeRelationshipCounts {
            total: 1,
            entity_is_part_of: 0,
            block_parent_edges: 1,
        },
    )];
    let delta = GraphDelta {
        universes: vec![],
        entities: vec![],
        blocks: vec![block(block_id, "updated block text")],
        edges: vec![],
    };

    validate_delta(&delta, &snap, &counts)
        .expect("existing graph relationships should satisfy block parent validation");
}

#[test]
fn rejects_block_without_parent_edge_when_target_graph_state_is_invalid() {
    let snap = snapshot();
    let delta = GraphDelta {
        universes: vec![],
        entities: vec![],
        blocks: vec![block("550e8400-e29b-41d4-a716-4466554400bf", "new block")],
        edges: vec![],
    };

    let report = validate_delta(&delta, &snap, &vec![])
        .expect_err("block without existing/payload parent edge should fail");
    assert!(report
        .message()
        .contains("must have exactly one incoming DESCRIBED_BY or SUMMARIZES edge"));
}

#[test]
fn accepts_implicit_is_part_of_from_entity_universe_assignment() {
    let snap = snapshot();
    let delta = GraphDelta {
        universes: vec![UniverseNode {
            id: "26bcdef7-41ce-4dc5-81e2-d2ba786270c1".to_string(),
            name: "Fake World".to_string(),
            user_id: "exobrain".to_string(),
            visibility: Visibility::Shared,
        }],
        entities: vec![
            EntityNode {
                universe_id: Some("26bcdef7-41ce-4dc5-81e2-d2ba786270c1".to_string()),
                ..person("7ca59d34-ec3f-42a5-9500-0342f1690680", "Fake Person")
            },
            person("f78e0747-8948-4a2b-9540-06dc46a868f8", "Real Object"),
        ],
        blocks: vec![],
        edges: vec![],
    };

    validate_delta(&delta, &snap, &vec![])
        .expect("implicit IS_PART_OF relationships should satisfy topology rules");
}

#[test]
fn rejects_edges_missing_required_global_metadata() {
    let snap = snapshot();
    let mut bare = edge(
        "2b9bdcc4-2f4a-4b58-9097-8ab205d8d506",
        "f904fdb6-1770-4638-a2fd-65eae6553be8",
        "RELATED_TO",
    );
    bare.properties.clear();
    let delta = GraphDelta {
        universes: vec![],
        entities: vec![
            person("2b9bdcc4-2f4a-4b58-9097-8ab205d8d506", "Alex"),
            person("f904fdb6-1770-4638-a2fd-65eae6553be8", "Morgan"),
        ],
        blocks: vec![],
        edges: vec![bare],
    };

    let report = validate_delta(&delta, &snap, &vec![])
        .expect_err("edge metadata should be required for all edges");
    let message = report.message();
    assert!(message.contains("required property 'confidence'"));
    assert!(message.contains("required property 'status'"));
    assert!(message.contains("required property 'context'"));
}

#[test]
fn accepts_message_edges_and_located_at_rules() {
    let snap = snapshot();
    let msg = EntityNode {
        type_id: "node.message".to_string(),
        ..person("8fca4f08-c305-4d16-91b5-e283f5f723aa", "Update Message")
    };
    let alex = person("46a0475f-76da-4f50-8875-844fd4cb1770", "Alex");
    let place = EntityNode {
        type_id: "node.place".to_string(),
        ..person("a327877d-e8c4-4cd8-a889-a5251120cce5", "Workspace")
    };
    let delta = GraphDelta {
        universes: vec![],
        entities: vec![msg, alex, place],
        blocks: vec![],
        edges: vec![
            edge(
                "8fca4f08-c305-4d16-91b5-e283f5f723aa",
                "46a0475f-76da-4f50-8875-844fd4cb1770",
                "SENT_TO",
            ),
            edge(
                "8fca4f08-c305-4d16-91b5-e283f5f723aa",
                "46a0475f-76da-4f50-8875-844fd4cb1770",
                "SENT_BY",
            ),
            edge(
                "8fca4f08-c305-4d16-91b5-e283f5f723aa",
                "a327877d-e8c4-4cd8-a889-a5251120cce5",
                "LOCATED_AT",
            ),
        ],
    };

    validate_delta(&delta, &snap, &vec![])
        .expect("message and located_at edge rules should be accepted");
}

#[test]
fn rejects_endpoint_rule_violation() {
    let snap = snapshot();
    let delta = GraphDelta {
        universes: vec![],
        entities: vec![
            person("2b9bdcc4-2f4a-4b58-9097-8ab205d8d506", "Alex"),
            EntityNode {
                type_id: "node.place".to_string(),
                ..person("a327877d-e8c4-4cd8-a889-a5251120cce5", "Workspace")
            },
        ],
        blocks: vec![],
        edges: vec![edge(
            "2b9bdcc4-2f4a-4b58-9097-8ab205d8d506",
            "a327877d-e8c4-4cd8-a889-a5251120cce5",
            "LOCATED_AT",
        )],
    };

    let report = validate_delta(&delta, &snap, &vec![])
        .expect_err("a person is not an event, so LOCATED_AT must be refused");
    assert!(report.message().contains("violates schema endpoint rules"));
}

#[test]
fn accepts_block_contradicts_edge() {
    let snap = snapshot();
    let witness = person("64357dfa-389d-401e-a246-c7a97147f627", "Witness");
    let a = block("352832a6-fe04-4697-9de0-dbec398adf13", "Statement A");
    let b = block("afc3bff2-2478-43f0-bb88-9199f960d0c1", "Statement B");
    let delta = GraphDelta {
        universes: vec![],
        entities: vec![witness],
        blocks: vec![a, b],
        edges: vec![
            edge(
                "64357dfa-389d-401e-a246-c7a97147f627",
                "352832a6-fe04-4697-9de0-dbec398adf13",
                "DESCRIBED_BY",
            ),
            edge(
                "64357dfa-389d-401e-a246-c7a97147f627",
                "afc3bff2-2478-43f0-bb88-9199f960d0c1",
                "DESCRIBED_BY",
            ),
            edge(
                "352832a6-fe04-4697-9de0-dbec398adf13",
                "afc3bff2-2478-43f0-bb88-9199f960d0c1",
                "CONTRADICTS",
            ),
        ],
    };

    validate_delta(&delta, &snap, &vec![]).expect("block CONTRADICTS edge should be accepted");
}

#[test]
fn accepts_cross_user_scope_in_single_delta() {
    let snap = snapshot();
    let mut entity = person("550e8400-e29b-41d4-a716-4466554400ab", "Cross User Person");
    entity.user_id = "user-2".to_string();
    let mut blk = block("d0e2ceb6-3daa-441f-a87b-2168ac723ca7", "cross-user block");
    blk.user_id = "user-3".to_string();
    blk.visibility = Visibility::Shared;
    let mut link = edge(
        "550e8400-e29b-41d4-a716-4466554400ab",
        "d0e2ceb6-3daa-441f-a87b-2168ac723ca7",
        "DESCRIBED_BY",
    );
    link.user_id = "user-4".to_string();
    link.visibility = Visibility::Shared;
    let delta = GraphDelta {
        universes: vec![],
        entities: vec![entity],
        blocks: vec![blk],
        edges: vec![link],
    };

    validate_delta(&delta, &snap, &vec![])
        .expect("cross-user records should be accepted in a single delta");
}
