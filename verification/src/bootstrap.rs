//! Bootstrap deltas: the common root subgraph every installation shares,
//! and the deterministic per-user subgraph (person, assistant, and the
//! assistant's descriptive block), with stable ids derived by name-based
//! UUIDs.

use vstd::prelude::*;

use crate::domain::{
    BlockNode, EntityNode, GraphDelta, GraphEdge, KgError, PropertyScalar, PropertyValue,
    UniverseNode, Visibility,
};
use crate::text::{append_str, is_blank, is_blank_seq, is_uuid_seq, trim_seq, trim_str};
use crate::validate::common_universe_id_seq;

verus! {

/// The IEEE-754 bits of the unit confidence every bootstrap edge carries.
pub const FLOAT_ONE_BITS: u64 = 0x3FF0000000000000;

/// The name-based UUID (version 5, OID namespace) of a name, rendered in
/// canonical hyphenated lower-case form.
pub uninterp spec fn uuid_v5_seq(name: Seq<char>) -> Seq<char>;

/// Relies on `uuid::Uuid::new_v5` with the OID namespace: the result is a
/// SHA-1 digest of namespace and name, a function of the name alone, and
/// its display form is the canonical hyphenated lower-case UUID.
#[verifier::external_body]
fn uuid_v5_from_name(name: &str) -> (r: String)
    ensures
        r@ == uuid_v5_seq(name@),
        is_uuid_seq(r@),
{
    uuid::Uuid::new_v5(&uuid::Uuid::NAMESPACE_OID, name.as_bytes()).to_string()
}

/// Derives the stable id of a user-graph element from its naming string.
pub fn derive_user_graph_id(name: &String) -> (r: String)
    ensures
        r@ == uuid_v5_seq(name@),
        is_uuid_seq(r@),
{
    uuid_v5_from_name(name.as_str())
}

/// The designated common universe id.
pub fn common_universe_id() -> (r: String)
    ensures
        r@ == common_universe_id_seq(),
{
    "9d7f0fa5-78c1-4805-9efb-3f8f16090d7f".to_owned()
}

pub open spec fn common_root_entity_id_seq() -> Seq<char> {
    "8c75cc89-6204-4fed-aec1-34d032ff95ee"@
}

pub fn common_root_entity_id() -> (r: String)
    ensures
        r@ == common_root_entity_id_seq(),
{
    "8c75cc89-6204-4fed-aec1-34d032ff95ee".to_owned()
}

pub open spec fn common_root_block_id_seq() -> Seq<char> {
    "ea5ca80f-346b-4f66-bff2-d307ce5d7da9"@
}

pub fn common_root_block_id() -> (r: String)
    ensures
        r@ == common_root_block_id_seq(),
{
    "ea5ca80f-346b-4f66-bff2-d307ce5d7da9".to_owned()
}

pub open spec fn exobrain_user_id_seq() -> Seq<char> {
    "exobrain"@
}

/// The fixed owner of the common root subgraph.
pub fn exobrain_user_id() -> (r: String)
    ensures
        r@ == exobrain_user_id_seq(),
{
    "exobrain".to_owned()
}

/// The metadata every bootstrap edge carries: unit confidence, asserted
/// status, and a context note.
pub open spec fn default_edge_props_ok(props: Seq<PropertyValue>, context: Seq<char>) -> bool {
    &&& props.len() == 3
    &&& props[0].key@ == "confidence"@ && props[0].value == PropertyScalar::FloatBits(
        FLOAT_ONE_BITS,
    )
    &&& props[1].key@ == "status"@ && (props[1].value matches PropertyScalar::String(s) && s@
        == "asserted"@)
    &&& props[2].key@ == "context"@ && (props[2].value matches PropertyScalar::String(s) && s@
        == context)
}

/// The default metadata attached to every edge a bootstrap delta writes.
pub fn default_edge_properties(context: &str) -> (r: Vec<PropertyValue>)
    ensures
        default_edge_props_ok(r@, context@),
{
    let mut out: Vec<PropertyValue> = Vec::new();
    out.push(
        PropertyValue {
            key: "confidence".to_owned(),
            value: PropertyScalar::FloatBits(FLOAT_ONE_BITS),
        },
    );
    out.push(
        PropertyValue {
            key: "status".to_owned(),
            value: PropertyScalar::String("asserted".to_owned()),
        },
    );
    out.push(
        PropertyValue { key: "context".to_owned(), value: PropertyScalar::String(context.to_owned()) },
    );
    out
}

/// The shape of the common root delta: one shared universe, the root
/// entity inside it, its descriptive block, and the two edges linking
/// them, all owned by the fixed bootstrap user.
pub open spec fn common_root_delta_ok(d: GraphDelta) -> bool {
    &&& d.universes@.len() == 1
    &&& d.universes@[0].id@ == common_universe_id_seq()
    &&& d.universes@[0].name@ == "Real World"@
    &&& d.universes@[0].user_id@ == exobrain_user_id_seq()
    &&& d.universes@[0].visibility == Visibility::Shared
    &&& d.entities@.len() == 1
    &&& d.entities@[0].id@ == common_root_entity_id_seq()
    &&& d.entities@[0].type_id@ == "node.concept"@
    &&& (d.entities@[0].universe_id matches Option::Some(u) && u@ == common_universe_id_seq())
    &&& d.entities@[0].user_id@ == exobrain_user_id_seq()
    &&& d.entities@[0].visibility == Visibility::Shared
    &&& d.entities@[0].properties@.len() == 1
    &&& d.entities@[0].properties@[0].key@ == "name"@
    &&& (d.entities@[0].properties@[0].value matches PropertyScalar::String(s) && s@
        == "Exobrain"@)
    &&& d.blocks@.len() == 1
    &&& d.blocks@[0].id@ == common_root_block_id_seq()
    &&& d.blocks@[0].type_id@ == "node.block"@
    &&& d.blocks@[0].user_id@ == exobrain_user_id_seq()
    &&& d.blocks@[0].visibility == Visibility::Shared
    &&& d.blocks@[0].properties@.len() == 1
    &&& d.blocks@[0].properties@[0].key@ == "text"@
    &&& d.blocks@[0].properties@[0].value is String
    &&& d.edges@.len() == 2
    &&& d.edges@[0].from_id@ == common_root_entity_id_seq()
    &&& d.edges@[0].to_id@ == common_universe_id_seq()
    &&& d.edges@[0].edge_type@ == "IS_PART_OF"@
    &&& d.edges@[0].user_id@ == exobrain_user_id_seq()
    &&& d.edges@[0].visibility == Visibility::Shared
    &&& default_edge_props_ok(d.edges@[0].properties@, "bootstrap universe assignment"@)
    &&& d.edges@[1].from_id@ == common_root_entity_id_seq()
    &&& d.edges@[1].to_id@ == common_root_block_id_seq()
    &&& d.edges@[1].edge_type@ == "DESCRIBED_BY"@
    &&& d.edges@[1].user_id@ == exobrain_user_id_seq()
    &&& d.edges@[1].visibility == Visibility::Shared
    &&& default_edge_props_ok(d.edges@[1].properties@, "bootstrap description link"@)
}

/// The delta that installs the common root subgraph when it is absent.
pub fn common_root_delta() -> (r: GraphDelta)
    ensures
        common_root_delta_ok(r),
{
    let mut universes: Vec<UniverseNode> = Vec::new();
    universes.push(
        UniverseNode {
            id: common_universe_id(),
            name: "Real World".to_owned(),
            user_id: exobrain_user_id(),
            visibility: Visibility::Shared,
        },
    );
    let mut entity_props: Vec<PropertyValue> = Vec::new();
    entity_props.push(
        PropertyValue { key: "name".to_owned(), value: PropertyScalar::String("Exobrain".to_owned()) },
    );
    let mut entities: Vec<EntityNode> = Vec::new();
    entities.push(
        EntityNode {
            id: common_root_entity_id(),
            type_id: "node.concept".to_owned(),
            universe_id: Some(common_universe_id()),
            user_id: exobrain_user_id(),
            visibility: Visibility::Shared,
            properties: entity_props,
            resolved_labels: Vec::new(),
        },
    );
    let mut block_props: Vec<PropertyValue> = Vec::new();
    block_props.push(
        PropertyValue {
            key: "text".to_owned(),
            value: PropertyScalar::String(
                "Exobrain is the shared platform for capturing and organizing knowledge, powering assistants and knowledge workflows.".to_owned(),
            ),
        },
    );
    let mut blocks: Vec<BlockNode> = Vec::new();
    blocks.push(
        BlockNode {
            id: common_root_block_id(),
            type_id: "node.block".to_owned(),
            user_id: exobrain_user_id(),
            visibility: Visibility::Shared,
            properties: block_props,
            resolved_labels: Vec::new(),
        },
    );
    let mut edges: Vec<GraphEdge> = Vec::new();
    edges.push(
        GraphEdge {
            from_id: common_root_entity_id(),
            to_id: common_universe_id(),
            edge_type: "IS_PART_OF".to_owned(),
            user_id: exobrain_user_id(),
            visibility: Visibility::Shared,
            properties: default_edge_properties("bootstrap universe assignment"),
        },
    );
    edges.push(
        GraphEdge {
            from_id: common_root_entity_id(),
            to_id: common_root_block_id(),
            edge_type: "DESCRIBED_BY".to_owned(),
            user_id: exobrain_user_id(),
            visibility: Visibility::Shared,
            properties: default_edge_properties("bootstrap description link"),
        },
    );
    GraphDelta { universes, entities, blocks, edges }
}

/// The shape of a user's bootstrap delta: a person entity and an
/// assistant entity in the common universe, the assistant's descriptive
/// block, and the four edges linking them, with stable name-derived ids.
pub open spec fn user_init_delta_ok(d: GraphDelta, uid: Seq<char>, uname: Seq<char>) -> bool {
    let pid = uuid_v5_seq("person:"@ + uid);
    let aid = uuid_v5_seq("assistant:"@ + uid);
    let bid = uuid_v5_seq("assistant-block:"@ + uid);
    &&& d.universes@.len() == 0
    &&& d.entities@.len() == 2
    &&& d.entities@[0].id@ == pid
    &&& d.entities@[0].type_id@ == "node.person"@
    &&& (d.entities@[0].universe_id matches Option::Some(u) && u@ == common_universe_id_seq())
    &&& d.entities@[0].user_id@ == uid
    &&& d.entities@[0].visibility == Visibility::Shared
    &&& d.entities@[0].properties@.len() == 2
    &&& d.entities@[0].properties@[0].key@ == "name"@
    &&& (d.entities@[0].properties@[0].value matches PropertyScalar::String(s) && s@ == uname)
    &&& d.entities@[0].properties@[1].key@ == "aliases"@
    &&& d.entities@[0].properties@[1].value is Json
    &&& d.entities@[1].id@ == aid
    &&& d.entities@[1].type_id@ == "node.ai_agent"@
    &&& (d.entities@[1].universe_id matches Option::Some(u) && u@ == common_universe_id_seq())
    &&& d.entities@[1].user_id@ == uid
    &&& d.entities@[1].visibility == Visibility::Shared
    &&& d.entities@[1].properties@.len() == 1
    &&& d.entities@[1].properties@[0].key@ == "name"@
    &&& (d.entities@[1].properties@[0].value matches PropertyScalar::String(s) && s@
        == "Exobrain Assistant"@)
    &&& d.blocks@.len() == 1
    &&& d.blocks@[0].id@ == bid
    &&& d.blocks@[0].type_id@ == "node.block"@
    &&& d.blocks@[0].user_id@ == uid
    &&& d.blocks@[0].visibility == Visibility::Shared
    &&& d.blocks@[0].properties@.len() == 1
    &&& d.blocks@[0].properties@[0].key@ == "text"@
    &&& d.blocks@[0].properties@[0].value is String
    &&& d.edges@.len() == 4
    &&& d.edges@[0].from_id@ == pid && d.edges@[0].to_id@ == common_universe_id_seq()
        && d.edges@[0].edge_type@ == "IS_PART_OF"@
    &&& d.edges@[1].from_id@ == aid && d.edges@[1].to_id@ == common_universe_id_seq()
        && d.edges@[1].edge_type@ == "IS_PART_OF"@
    &&& d.edges@[2].from_id@ == aid && d.edges@[2].to_id@ == pid && d.edges@[2].edge_type@
        == "RELATED_TO"@
    &&& d.edges@[3].from_id@ == aid && d.edges@[3].to_id@ == bid && d.edges@[3].edge_type@
        == "DESCRIBED_BY"@
    &&& forall|i: int|
        0 <= i < 4 ==> (#[trigger] d.edges@[i].user_id@) == uid && d.edges@[i].visibility
            == Visibility::Shared && d.edges@[i].properties@.len() == 3
}

/// Builds the bootstrap delta of one user, with ids derived from the
/// user id so that repeating the call repeats the ids.
pub fn user_init_delta(user_id: &str, user_name: &str) -> (r: GraphDelta)
    ensures
        user_init_delta_ok(r, user_id@, user_name@),
{
    let mut person_name = "person:".to_owned();
    append_str(&mut person_name, user_id);
    let person_entity_id = uuid_v5_from_name(person_name.as_str());
    let mut assistant_name = "assistant:".to_owned();
    append_str(&mut assistant_name, user_id);
    let assistant_entity_id = uuid_v5_from_name(assistant_name.as_str());
    let mut block_name = "assistant-block:".to_owned();
    append_str(&mut block_name, user_id);
    let assistant_block_id = uuid_v5_from_name(block_name.as_str());

    let mut person_props: Vec<PropertyValue> = Vec::new();
    person_props.push(
        PropertyValue {
            key: "name".to_owned(),
            value: PropertyScalar::String(user_name.to_owned()),
        },
    );
    person_props.push(
        PropertyValue {
            key: "aliases".to_owned(),
            value: PropertyScalar::Json("[\"me\",\"I\",\"myself\"]".to_owned()),
        },
    );
    let mut assistant_props: Vec<PropertyValue> = Vec::new();
    assistant_props.push(
        PropertyValue {
            key: "name".to_owned(),
            value: PropertyScalar::String("Exobrain Assistant".to_owned()),
        },
    );
    let mut entities: Vec<EntityNode> = Vec::new();
    entities.push(
        EntityNode {
            id: person_entity_id.clone(),
            type_id: "node.person".to_owned(),
            universe_id: Some(common_universe_id()),
            user_id: user_id.to_owned(),
            visibility: Visibility::Shared,
            properties: person_props,
            resolved_labels: Vec::new(),
        },
    );
    entities.push(
        EntityNode {
            id: assistant_entity_id.clone(),
            type_id: "node.ai_agent".to_owned(),
            universe_id: Some(common_universe_id()),
            user_id: user_id.to_owned(),
            visibility: Visibility::Shared,
            properties: assistant_props,
            resolved_labels: Vec::new(),
        },
    );
    let mut block_props: Vec<PropertyValue> = Vec::new();
    block_props.push(
        PropertyValue {
            key: "text".to_owned(),
            value: PropertyScalar::String(
                "Exobrain Assistant is your personal assistant in Exobrain. It chats with you and helps organize your knowledge graph.".to_owned(),
            ),
        },
    );
    let mut blocks: Vec<BlockNode> = Vec::new();
    blocks.push(
        BlockNode {
            id: assistant_block_id.clone(),
            type_id: "node.block".to_owned(),
            user_id: user_id.to_owned(),
            visibility: Visibility::Shared,
            properties: block_props,
            resolved_labels: Vec::new(),
        },
    );
    let mut edges: Vec<GraphEdge> = Vec::new();
    edges.push(
        GraphEdge {
            from_id: person_entity_id,
            to_id: common_universe_id(),
            edge_type: "IS_PART_OF".to_owned(),
            user_id: user_id.to_owned(),
            visibility: Visibility::Shared,
            properties: default_edge_properties("user universe assignment"),
        },
    );
    edges.push(
        GraphEdge {
            from_id: assistant_entity_id.clone(),
            to_id: common_universe_id(),
            edge_type: "IS_PART_OF".to_owned(),
            user_id: user_id.to_owned(),
            visibility: Visibility::Shared,
            properties: default_edge_properties("assistant universe assignment"),
        },
    );
    let mut person_name_again = "person:".to_owned();
    append_str(&mut person_name_again, user_id);
    let person_entity_id_again = uuid_v5_from_name(person_name_again.as_str());
    edges.push(
        GraphEdge {
            from_id: assistant_entity_id.clone(),
            to_id: person_entity_id_again,
            edge_type: "RELATED_TO".to_owned(),
            user_id: user_id.to_owned(),
            visibility: Visibility::Shared,
            properties: default_edge_properties("assistant relationship"),
        },
    );
    edges.push(
        GraphEdge {
            from_id: assistant_entity_id,
            to_id: assistant_block_id,
            edge_type: "DESCRIBED_BY".to_owned(),
            user_id: user_id.to_owned(),
            visibility: Visibility::Shared,
            properties: default_edge_properties("assistant description link"),
        },
    );
    GraphDelta { universes: Vec::new(), entities, blocks, edges }
}

/// A user-graph initialization: the delta to report, and whether it must
/// still be submitted and marked.
#[derive(Debug)]
pub struct UserInitPlan {
    pub delta: GraphDelta,
    pub submit: bool,
}

/// Decides a user-graph initialization: a blank user id or name is
/// refused; otherwise the deterministic delta is built from the trimmed
/// inputs, and it is submitted only when no initialization marker exists.
pub fn initialize_user_graph_plan(user_id: &str, user_name: &str, already_initialized: bool) -> (r:
    Result<UserInitPlan, KgError>)
    ensures
        match r {
            Ok(plan) => !is_blank_seq(user_id@) && !is_blank_seq(user_name@) && user_init_delta_ok(
                plan.delta,
                trim_seq(user_id@),
                trim_seq(user_name@),
            ) && plan.submit == !already_initialized,
            Err(e) => (is_blank_seq(user_id@) || is_blank_seq(user_name@)) && e is InvalidInput,
        },
{
    if is_blank(user_id) {
        return Err(KgError::InvalidInput("user_id is required".to_owned()));
    }
    if is_blank(user_name) {
        return Err(KgError::InvalidInput("user_name is required".to_owned()));
    }
    let trimmed_user_id = trim_str(user_id);
    let trimmed_user_name = trim_str(user_name);
    let delta = user_init_delta(trimmed_user_id.as_str(), trimmed_user_name.as_str());
    Ok(UserInitPlan { delta, submit: !already_initialized })
}

} // verus!
