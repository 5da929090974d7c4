//! Data model of the knowledge graph: schema types, inheritance, typed
//! properties, endpoint rules, graph nodes and edges, deltas and the
//! transient embedded-block records handed to the vector index.
//!
//! Values of floating-point origin (property scalars, embedding vectors)
//! are carried as their IEEE-754 bit patterns so that the model stays in
//! plain integers; the boundary converts bit-for-bit.

use vstd::prelude::*;

verus! {

/// Two-valued access scope of every node and edge.
#[derive(Debug, Clone, Copy, PartialEq, Eq, Structural)]
pub enum Visibility {
    Private,
    Shared,
}

/// A node- or edge-type declaration of the schema registry.
#[derive(Debug, Clone)]
pub struct SchemaType {
    pub id: String,
    pub kind: String,
    pub name: String,
    pub description: String,
    pub active: bool,
}

/// A property declared on a schema-type upsert.
#[derive(Debug, Clone)]
pub struct UpsertSchemaTypePropertyInput {
    pub prop_name: String,
    pub value_type: String,
    pub required: bool,
    pub readable: bool,
    pub writable: bool,
    pub active: bool,
    pub description: String,
}

/// The full payload of a schema-type upsert.
#[derive(Debug, Clone)]
pub struct UpsertSchemaTypeCommand {
    pub schema_type: SchemaType,
    pub parent_type_id: Option<String>,
    pub properties: Vec<UpsertSchemaTypePropertyInput>,
}

/// One edge of the single-parent inheritance relation.
#[derive(Debug, Clone)]
pub struct TypeInheritance {
    pub child_type_id: String,
    pub parent_type_id: String,
    pub description: String,
    pub active: bool,
}

/// A typed property owned by a schema type or by a pseudo-owner.
#[derive(Debug, Clone)]
pub struct TypeProperty {
    pub owner_type_id: String,
    pub prop_name: String,
    pub value_type: String,
    pub required: bool,
    pub readable: bool,
    pub writable: bool,
    pub active: bool,
    pub description: String,
}

/// An endpoint rule admitting an edge type between two node types.
#[derive(Debug, Clone)]
pub struct EdgeEndpointRule {
    pub edge_type_id: String,
    pub from_node_type_id: String,
    pub to_node_type_id: String,
    pub active: bool,
    pub description: String,
}

/// A property value; the float case carries the value's IEEE-754 bits.
#[derive(Debug, Clone)]
pub enum PropertyScalar {
    String(String),
    FloatBits(u64),
    Int(i64),
    Bool(bool),
    Datetime(String),
    Json(String),
}

#[derive(Debug, Clone)]
pub struct PropertyValue {
    pub key: String,
    pub value: PropertyScalar,
}

/// A top-level container scoping entity membership.
#[derive(Debug, Clone)]
pub struct UniverseNode {
    pub id: String,
    pub name: String,
    pub user_id: String,
    pub visibility: Visibility,
}

/// A node descending from the entity root type.
#[derive(Debug, Clone)]
pub struct EntityNode {
    pub id: String,
    pub type_id: String,
    pub universe_id: Option<String>,
    pub user_id: String,
    pub visibility: Visibility,
    pub properties: Vec<PropertyValue>,
    pub resolved_labels: Vec<String>,
}

/// A node descending from the block root type; carries text and is embedded.
#[derive(Debug, Clone)]
pub struct BlockNode {
    pub id: String,
    pub type_id: String,
    pub user_id: String,
    pub visibility: Visibility,
    pub properties: Vec<PropertyValue>,
    pub resolved_labels: Vec<String>,
}

/// A typed, directed edge between two nodes.
#[derive(Debug, Clone)]
pub struct GraphEdge {
    pub from_id: String,
    pub to_id: String,
    pub edge_type: String,
    pub user_id: String,
    pub visibility: Visibility,
    pub properties: Vec<PropertyValue>,
}

/// A batch of upserts submitted as one atomic unit.
#[derive(Debug, Clone)]
pub struct GraphDelta {
    pub universes: Vec<UniverseNode>,
    pub entities: Vec<EntityNode>,
    pub blocks: Vec<BlockNode>,
    pub edges: Vec<GraphEdge>,
}

/// A block joined with its derived hierarchy data and its embedding,
/// the vector given as the IEEE-754 bits of each component.
#[derive(Debug, Clone)]
pub struct EmbeddedBlock {
    pub block: BlockNode,
    pub universe_id: String,
    pub root_entity_id: String,
    pub user_id: String,
    pub visibility: Visibility,
    pub vector: Vec<u32>,
    pub block_level: i64,
    pub text: String,
}

/// Relationship counts the graph store reports for one node.
#[derive(Debug, Clone, Copy)]
pub struct NodeRelationshipCounts {
    pub total: usize,
    pub entity_is_part_of: usize,
    pub block_parent_edges: usize,
}

impl NodeRelationshipCounts {
    /// A node with no relationships at all.
    pub fn zero() -> (r: NodeRelationshipCounts)
        ensures
            r.total == 0,
            r.entity_is_part_of == 0,
            r.block_parent_edges == 0,
    {
        NodeRelationshipCounts { total: 0, entity_is_part_of: 0, block_parent_edges: 0 }
    }
}

/// Hierarchy data of a block already persisted in the graph.
#[derive(Debug, Clone)]
pub struct ExistingBlockContext {
    pub root_entity_id: String,
    pub universe_id: String,
    pub block_level: i64,
}

/// A node type hydrated with its properties and its parent edges.
#[derive(Debug, Clone)]
pub struct SchemaNodeTypeHydrated {
    pub schema_type: SchemaType,
    pub properties: Vec<TypeProperty>,
    pub parents: Vec<TypeInheritance>,
}

/// An edge type hydrated with its properties and its endpoint rules.
#[derive(Debug, Clone)]
pub struct SchemaEdgeTypeHydrated {
    pub schema_type: SchemaType,
    pub properties: Vec<TypeProperty>,
    pub rules: Vec<EdgeEndpointRule>,
}

/// The whole schema view served to clients.
#[derive(Debug, Clone)]
pub struct FullSchema {
    pub node_types: Vec<SchemaNodeTypeHydrated>,
    pub edge_types: Vec<SchemaEdgeTypeHydrated>,
}

/// One read of the schema registry, taken before validating a delta.
#[derive(Debug, Clone)]
pub struct SchemaSnapshot {
    pub node_types: Vec<SchemaType>,
    pub edge_types: Vec<SchemaType>,
    pub inheritance: Vec<TypeInheritance>,
    pub properties: Vec<TypeProperty>,
    pub edge_rules: Vec<EdgeEndpointRule>,
}

/// A candidate-search request.
#[derive(Debug, Clone)]
pub struct FindEntityCandidatesQuery {
    pub names: Vec<String>,
    pub potential_type_ids: Vec<String>,
    pub short_description: Option<String>,
    pub user_id: String,
    pub limit: Option<usize>,
}

/// One scored candidate; the score is a fixed-point fraction of
/// [`crate::scorer::SCORE_ONE`].
#[derive(Debug, Clone)]
pub struct EntityCandidate {
    pub id: String,
    pub name: String,
    pub described_by_text: Option<String>,
    pub score: u64,
    pub type_id: String,
    pub matched_tokens: Vec<String>,
}

#[derive(Debug, Clone)]
pub struct FindEntityCandidatesResult {
    pub candidates: Vec<EntityCandidate>,
}

/// The error kinds the core surfaces.
#[derive(Debug, Clone)]
pub enum KgError {
    /// A delta or schema command violated a validation or schema rule.
    InvalidInput(String),
    /// A referenced schema parent or block context is absent.
    NotFound(String),
    /// An upsert tried to change a node type's parent.
    Conflict(String),
    /// An embedding, graph-protocol or vector-index failure.
    Upstream(String),
    /// The graph commit failed after the vector upsert succeeded.
    CommitFailed(String),
}

impl KgError {
    /// The human-readable text carried by the error.
    pub fn message(&self) -> (r: &String)
        ensures
            r@ == self.spec_message(),
    {
        match self {
            KgError::InvalidInput(m) => m,
            KgError::NotFound(m) => m,
            KgError::Conflict(m) => m,
            KgError::Upstream(m) => m,
            KgError::CommitFailed(m) => m,
        }
    }

    pub open spec fn spec_message(&self) -> Seq<char> {
        match self {
            KgError::InvalidInput(m) => m@,
            KgError::NotFound(m) => m@,
            KgError::Conflict(m) => m@,
            KgError::Upstream(m) => m@,
            KgError::CommitFailed(m) => m@,
        }
    }
}

} // verus!
