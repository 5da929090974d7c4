use knowledge_interface::config::AppConfig;
use knowledge_interface::queryfmt::{
    allowed_node_visibilities, memgraph_user_or_shared_access_clause, normalize_qdrant_grpc_url,
    validate_edge_type, visibility_as_str,
};
use knowledge_interface::domain::Visibility;
use knowledge_interface::text::{is_valid_uuid, trim_str};
use knowledge_interface::wire::{
    map_visibility, to_domain_find_entity_candidates_query, to_domain_property_value,
    FindEntityCandidatesRequestMsg, PropertyValueMsg,
};

#[test]
fn normalizes_qdrant_rest_port_to_grpc_port() {
    assert_eq!(
        normalize_qdrant_grpc_url("http://localhost:6333"),
        "http://localhost:6334"
    );
    assert_eq!(
        normalize_qdrant_grpc_url("http://localhost:16333"),
        "http://localhost:16334"
    );
    assert_eq!(
        normalize_qdrant_grpc_url("localhost:6333"),
        "http://localhost:6334"
    );
}

#[test]
fn allows_private_edges_to_connect_shared_or_private_nodes() {
    assert_eq!(
        allowed_node_visibilities(Visibility::Private),
        vec!["PRIVATE".to_string(), "SHARED".to_string()]
    );
    assert_eq!(
        allowed_node_visibilities(Visibility::Shared),
        vec!["SHARED".to_string()]
    );
}

#[test]
fn builds_memgraph_user_or_shared_access_clause() {
    assert_eq!(
        memgraph_user_or_shared_access_clause("e"),
        "(e.user_id = $user_id OR e.visibility = 'SHARED')"
    );
}

#[test]
fn validates_good_edge_type() {
    assert!(validate_edge_type("RELATED_TO").is_ok());
    assert!(validate_edge_type("PART_OF_2").is_ok());
}

#[test]
fn rejects_unsafe_edge_type() {
    assert!(validate_edge_type("RELATED_TO); MATCH (n)").is_err());
    assert!(validate_edge_type("related_to").is_err());
}

#[test]
fn config_reflection_enabled_for_local() {
    let cfg = AppConfig {
        app_env: "local".to_string(),
        log_level: "DEBUG".to_string(),
        metastore_dsn: "postgresql://example".to_string(),
        memgraph_addr: "bolt://example".to_string(),
        memgraph_database: "memgraph".to_string(),
        qdrant_addr: "http://example".to_string(),
        model_provider_base_url: "http://localhost:8010/v1".to_string(),
        embedding_model_alias: "all-purpose".to_string(),
        use_mock_embedder: false,
    };

    assert!(cfg.enable_reflection());
}

#[test]
fn config_reflection_disabled_for_non_local() {
    let cfg = AppConfig {
        app_env: "cluster".to_string(),
        log_level: "INFO".to_string(),
        metastore_dsn: "postgresql://example".to_string(),
        memgraph_addr: "bolt://example".to_string(),
        memgraph_database: "memgraph".to_string(),
        qdrant_addr: "http://example".to_string(),
        model_provider_base_url: "http://localhost:8010/v1".to_string(),
        embedding_model_alias: "all-purpose".to_string(),
        use_mock_embedder: false,
    };

    assert!(!cfg.enable_reflection());
}

#[test]
fn main_reflection_enabled_for_local() {
    let cfg = AppConfig {
        app_env: "local".to_string(),
        log_level: "DEBUG".to_string(),
        metastore_dsn: "postgresql://example".to_string(),
        memgraph_addr: "bolt://example".to_string(),
        memgraph_database: "memgraph".to_string(),
        qdrant_addr: "http://example".to_string(),
        model_provider_base_url: "http://localhost:8010/v1".to_string(),
        embedding_model_alias: "text-embedding-3-large".to_string(),
        use_mock_embedder: false,
    };

    assert!(cfg.enable_reflection());
}

#[test]
fn main_reflection_disabled_for_non_local() {
    let cfg = AppConfig {
        app_env: "cluster".to_string(),
        log_level: "INFO".to_string(),
        metastore_dsn: "postgresql://example".to_string(),
        memgraph_addr: "bolt://example".to_string(),
        memgraph_database: "memgraph".to_string(),
        qdrant_addr: "http://example".to_string(),
        model_provider_base_url: "http://localhost:8010/v1".to_string(),
        embedding_model_alias: "text-embedding-3-large".to_string(),
        use_mock_embedder: false,
    };

    assert!(!cfg.enable_reflection());
}

#[test]
fn to_domain_find_entity_candidates_query_maps_empty_description_to_none() {
    let query = to_domain_find_entity_candidates_query(FindEntityCandidatesRequestMsg {
        names: vec!["Ada".to_string()],
        potential_type_ids: vec!["node.person".to_string()],
        short_description: "   ".to_string(),
        user_id: "u-1".to_string(),
        limit: Some(7),
    });

    assert_eq!(query.names, vec!["Ada".to_string()]);
    assert_eq!(query.short_description, None);
    assert_eq!(query.limit, Some(7));
}

#[test]
fn to_domain_property_value_rejects_missing_value() {
    let result = to_domain_property_value(PropertyValueMsg {
        key: "name".to_string(),
        value: None,
    });

    let error = result.expect_err("expected missing value to fail");
    assert_eq!(error.message().as_str(), "property value is required");
}

#[test]
fn map_visibility_rejects_invalid_enum_value() {
    let result = map_visibility(99);

    let error = result.expect_err("expected invalid visibility enum to fail");
    assert_eq!(error.message().as_str(), "visibility is invalid");
}

#[test]
fn uuid_syntax_accepts_canonical_forms_only() {
    assert!(is_valid_uuid("550e8400-e29b-41d4-a716-446655440001"));
    assert!(is_valid_uuid("550E8400-E29B-41D4-A716-446655440001"));
    assert!(!is_valid_uuid("550e8400e29b41d4a716446655440001"));
    assert!(!is_valid_uuid("550e8400-e29b-41d4-a716-44665544000"));
    assert!(!is_valid_uuid("550e8400-e29b-41d4-a716-44665544000g"));
    assert!(!is_valid_uuid(""));
}

#[test]
fn trim_strips_surrounding_whitespace() {
    assert_eq!(trim_str("  alex \t"), "alex");
    assert_eq!(trim_str("alex"), "alex");
    assert_eq!(trim_str("   "), "");
}

#[test]
fn visibility_labels_match_store_convention() {
    assert_eq!(visibility_as_str(Visibility::Private), "PRIVATE");
    assert_eq!(visibility_as_str(Visibility::Shared), "SHARED");
}
