use knowledge_interface::bootstrap::{
    common_root_delta, initialize_user_graph_plan, user_init_delta,
};
use knowledge_interface::domain::{
    PropertyScalar, SchemaType, UpsertSchemaTypeCommand, UpsertSchemaTypePropertyInput,
};
use knowledge_interface::labels::{resolve_labels_for_type, sanitize_labels};
use knowledge_interface::schema::{
    hydrate_full_schema, plan_schema_type_upsert, schema_rule_error_to_kg, SchemaRuleError,
};
use knowledge_interface::text::is_valid_uuid;

fn schema_type(id: &str, kind: &str, name: &str) -> SchemaType {
    SchemaType {
        id: id.to_string(),
        kind: kind.to_string(),
        name: name.to_string(),
        description: String::new(),
        active: true,
    }
}

fn command(id: &str, kind: &str, name: &str, parent: Option<&str>) -> UpsertSchemaTypeCommand {
    UpsertSchemaTypeCommand {
        schema_type: schema_type(id, kind, name),
        parent_type_id: parent.map(|p| p.to_string()),
        properties: Vec::<UpsertSchemaTypePropertyInput>::new(),
    }
}

#[test]
fn rejects_invalid_schema_kind() {
    let err = plan_schema_type_upsert(&command("x", "invalid", "x", None), &None, false, &None)
        .expect_err("invalid schema kind should fail");
    assert_eq!(err, SchemaRuleError::KindInvalid);
    assert!(schema_rule_error_to_kg(&err)
        .message()
        .contains("schema kind must be one of"));
}

#[test]
fn rejects_node_without_parent() {
    let err = plan_schema_type_upsert(
        &command("node.person", "node", "Person", None),
        &None,
        false,
        &None,
    )
    .expect_err("missing parent should fail");
    assert_eq!(err, SchemaRuleError::ParentRequired);
    assert!(schema_rule_error_to_kg(&err)
        .message()
        .contains("must declare parent_type_id"));
}

#[test]
fn rejects_parent_change() {
    let err = plan_schema_type_upsert(
        &command("node.person", "node", "Person", Some("node.object")),
        &Some(schema_type("node.object", "node", "Object")),
        true,
        &Some("node.entity".to_string()),
    )
    .expect_err("a node type cannot change its parent");
    assert_eq!(err, SchemaRuleError::ParentChanged);
}

#[test]
fn rejects_edge_with_parent_and_missing_parent_type() {
    let err = plan_schema_type_upsert(
        &command("edge.related_to", "edge", "RELATED_TO", Some("edge.base")),
        &None,
        false,
        &None,
    )
    .expect_err("edge inheritance is unsupported");
    assert_eq!(err, SchemaRuleError::EdgeWithParent);

    let err = plan_schema_type_upsert(
        &command("node.person", "node", "Person", Some("node.ghost")),
        &None,
        false,
        &None,
    )
    .expect_err("the parent must exist");
    assert_eq!(err, SchemaRuleError::ParentMissing);
}

#[test]
fn schema_bootstrap_builds_parent_chain() {
    let entity = plan_schema_type_upsert(
        &command("node.entity", "node", "Entity", None),
        &None,
        false,
        &None,
    )
    .expect("the entity root needs no parent");
    assert!(entity.inheritance.is_none());

    let person = plan_schema_type_upsert(
        &command("node.person", "node", "Person", Some("node.entity")),
        &Some(schema_type("node.entity", "node", "Entity")),
        true,
        &None,
    )
    .expect("a node subtype with a valid parent is accepted");
    let inh = person.inheritance.expect("the subtype writes an inheritance edge");
    assert_eq!(inh.0, "node.person");
    assert_eq!(inh.1, "node.entity");

    let related = plan_schema_type_upsert(
        &command("edge.related_to", "edge", "RELATED_TO", None),
        &None,
        false,
        &None,
    )
    .expect("an edge type without a parent is accepted");
    assert!(related.inheritance.is_none());

    let node_types = vec![
        schema_type("node.entity", "node", "Entity"),
        schema_type("node.person", "node", "Person"),
    ];
    let edge_types = vec![schema_type("edge.related_to", "edge", "RELATED_TO")];
    let inheritance = vec![knowledge_interface::domain::TypeInheritance {
        child_type_id: inh.0.clone(),
        parent_type_id: inh.1.clone(),
        description: String::new(),
        active: true,
    }];
    let full = hydrate_full_schema(&node_types, &edge_types, &inheritance, &vec![], &vec![]);
    assert_eq!(full.node_types.len(), 2);
    assert_eq!(full.edge_types.len(), 1);
    let person_row = &full.node_types[1];
    assert_eq!(person_row.schema_type.id, "node.person");
    assert_eq!(person_row.parents.len(), 1);
    assert_eq!(person_row.parents[0].parent_type_id, "node.entity");
    assert_eq!(full.node_types[0].parents.len(), 0);
}

#[test]
fn resolves_label_chain_root_first() {
    let inheritance = vec![
        knowledge_interface::domain::TypeInheritance {
            child_type_id: "node.person".to_string(),
            parent_type_id: "node.entity".to_string(),
            description: String::new(),
            active: true,
        },
        knowledge_interface::domain::TypeInheritance {
            child_type_id: "node.ai_agent".to_string(),
            parent_type_id: "node.person".to_string(),
            description: String::new(),
            active: true,
        },
    ];
    let labels = resolve_labels_for_type(&"node.ai_agent".to_string(), &inheritance);
    assert_eq!(
        labels,
        vec![
            "Entity".to_string(),
            "Person".to_string(),
            "Ai_agent".to_string()
        ]
    );
}

#[test]
fn sanitize_labels_filters_and_validates() {
    let good = sanitize_labels(&vec![" Entity ".to_string(), "Person".to_string(), "".to_string()])
        .expect("trimmed labels are valid");
    assert_eq!(good, vec!["Entity".to_string(), "Person".to_string()]);

    assert!(sanitize_labels(&vec!["".to_string()]).is_err());
    assert!(sanitize_labels(&vec!["Entity; MATCH (n)".to_string()]).is_err());
}

#[test]
fn seeds_common_root_when_missing() {
    let delta = common_root_delta();
    assert_eq!(delta.universes.len(), 1);
    assert_eq!(delta.universes[0].id, "9d7f0fa5-78c1-4805-9efb-3f8f16090d7f");
    assert_eq!(delta.entities[0].id, "8c75cc89-6204-4fed-aec1-34d032ff95ee");
    assert_eq!(delta.blocks[0].id, "ea5ca80f-346b-4f66-bff2-d307ce5d7da9");
    assert_eq!(delta.blocks[0].user_id, "exobrain");
    assert_eq!(delta.edges.len(), 2);
    assert_eq!(delta.edges[0].edge_type, "IS_PART_OF");
    assert_eq!(delta.edges[1].edge_type, "DESCRIBED_BY");
}

#[test]
fn user_init_delta_is_deterministic() {
    let delta = user_init_delta("user-1", "Alex");
    assert_eq!(delta.entities.len(), 2);
    assert_eq!(delta.blocks.len(), 1);
    assert_eq!(delta.edges.len(), 4);
    assert!(delta.entities.iter().any(|entity| {
        entity.type_id == "node.ai_agent"
            && entity.properties.iter().any(|prop| {
                prop.key == "name"
                    && matches!(&prop.value, PropertyScalar::String(name) if name == "Exobrain Assistant")
            })
    }));

    // the derived ids are real identifiers, not the naming strings
    assert!(is_valid_uuid(&delta.entities[0].id));
    assert!(is_valid_uuid(&delta.entities[1].id));
    assert!(is_valid_uuid(&delta.blocks[0].id));
    assert!(delta.entities[0].id != "person:user-1");
    assert!(delta.entities[0].id != delta.entities[1].id);

    let again = user_init_delta("user-1", "Alex");
    assert_eq!(delta.entities[0].id, again.entities[0].id);
    assert_eq!(delta.blocks[0].id, again.blocks[0].id);

    let other = user_init_delta("user-2", "Alex");
    assert!(delta.entities[0].id != other.entities[0].id);
}

#[test]
fn skips_user_graph_init_when_marker_already_exists() {
    let plan = initialize_user_graph_plan("user-1", "Alex", true)
        .expect("an initialized user still gets the delta back");
    assert!(!plan.submit);
    assert_eq!(plan.delta.entities.len(), 2);

    let fresh = initialize_user_graph_plan(" user-1 ", "Alex", false)
        .expect("a fresh user gets a submitted delta");
    assert!(fresh.submit);
    assert_eq!(fresh.delta.entities[0].id, plan.delta.entities[0].id);

    assert!(initialize_user_graph_plan("  ", "Alex", false).is_err());
    assert!(initialize_user_graph_plan("user-1", "", false).is_err());
}
