//! Transport records: the flat message shapes the service exchanges with
//! its clients, and the mappings between them and the data model.

use vstd::prelude::*;

use crate::domain::{
    EdgeEndpointRule, FindEntityCandidatesQuery, KgError, PropertyScalar, PropertyValue,
    SchemaType, TypeInheritance, TypeProperty, UniverseNode, Visibility,
};
use crate::text::{is_blank, is_blank_seq};

verus! {

/// The wire value of an unspecified visibility.
pub const VISIBILITY_UNSPECIFIED: i32 = 0;

/// The wire value of the private visibility.
pub const VISIBILITY_PRIVATE: i32 = 1;

/// The wire value of the shared visibility.
pub const VISIBILITY_SHARED: i32 = 2;

/// A schema type on the wire.
pub struct SchemaTypeMsg {
    pub id: String,
    pub kind: String,
    pub name: String,
    pub description: String,
    pub active: bool,
}

/// A typed property on the wire.
pub struct TypePropertyMsg {
    pub owner_type_id: String,
    pub prop_name: String,
    pub value_type: String,
    pub required: bool,
    pub readable: bool,
    pub writable: bool,
    pub active: bool,
    pub description: String,
}

/// An inheritance edge on the wire.
pub struct TypeInheritanceMsg {
    pub child_type_id: String,
    pub parent_type_id: String,
    pub description: String,
    pub active: bool,
}

/// An endpoint rule on the wire.
pub struct EdgeEndpointRuleMsg {
    pub edge_type_id: String,
    pub from_node_type_id: String,
    pub to_node_type_id: String,
    pub active: bool,
    pub description: String,
}

/// A universe on the wire, its visibility as a wire value.
pub struct UniverseNodeMsg {
    pub id: String,
    pub name: String,
    pub user_id: String,
    pub visibility: i32,
}

/// A candidate-search request on the wire.
pub struct FindEntityCandidatesRequestMsg {
    pub names: Vec<String>,
    pub potential_type_ids: Vec<String>,
    pub short_description: String,
    pub user_id: String,
    pub limit: Option<u32>,
}

pub fn to_proto_schema_type(schema_type: SchemaType) -> (r: SchemaTypeMsg)
    ensures
        r.id == schema_type.id,
        r.kind == schema_type.kind,
        r.name == schema_type.name,
        r.description == schema_type.description,
        r.active == schema_type.active,
{
    SchemaTypeMsg {
        id: schema_type.id,
        kind: schema_type.kind,
        name: schema_type.name,
        description: schema_type.description,
        active: schema_type.active,
    }
}

pub fn to_proto_type_property(property: TypeProperty) -> (r: TypePropertyMsg)
    ensures
        r.owner_type_id == property.owner_type_id,
        r.prop_name == property.prop_name,
        r.value_type == property.value_type,
        r.required == property.required,
        r.readable == property.readable,
        r.writable == property.writable,
        r.active == property.active,
        r.description == property.description,
{
    TypePropertyMsg {
        owner_type_id: property.owner_type_id,
        prop_name: property.prop_name,
        value_type: property.value_type,
        required: property.required,
        readable: property.readable,
        writable: property.writable,
        active: property.active,
        description: property.description,
    }
}

pub fn to_proto_type_inheritance(inheritance: TypeInheritance) -> (r: TypeInheritanceMsg)
    ensures
        r.child_type_id == inheritance.child_type_id,
        r.parent_type_id == inheritance.parent_type_id,
        r.description == inheritance.description,
        r.active == inheritance.active,
{
    TypeInheritanceMsg {
        child_type_id: inheritance.child_type_id,
        parent_type_id: inheritance.parent_type_id,
        description: inheritance.description,
        active: inheritance.active,
    }
}

pub fn to_proto_edge_endpoint_rule(rule: EdgeEndpointRule) -> (r: EdgeEndpointRuleMsg)
    ensures
        r.edge_type_id == rule.edge_type_id,
        r.from_node_type_id == rule.from_node_type_id,
        r.to_node_type_id == rule.to_node_type_id,
        r.active == rule.active,
        r.description == rule.description,
{
    EdgeEndpointRuleMsg {
        edge_type_id: rule.edge_type_id,
        from_node_type_id: rule.from_node_type_id,
        to_node_type_id: rule.to_node_type_id,
        active: rule.active,
        description: rule.description,
    }
}

/// Maps a wire visibility value: unspecified and unknown values are
/// refused, each with its own message.
pub fn map_visibility(value: i32) -> (r: Result<Visibility, KgError>)
    ensures
        match r {
            Ok(v) => (value == VISIBILITY_PRIVATE && v == Visibility::Private) || (value
                == VISIBILITY_SHARED && v == Visibility::Shared),
            Err(e) => value != VISIBILITY_PRIVATE && value != VISIBILITY_SHARED && e
                is InvalidInput,
        },
{
    if value == VISIBILITY_PRIVATE {
        Ok(Visibility::Private)
    } else if value == VISIBILITY_SHARED {
        Ok(Visibility::Shared)
    } else if value == VISIBILITY_UNSPECIFIED {
        Err(KgError::InvalidInput("visibility is required".to_owned()))
    } else {
        Err(KgError::InvalidInput("visibility is invalid".to_owned()))
    }
}

pub fn to_domain_universe_node(universe: UniverseNodeMsg) -> (r: Result<UniverseNode, KgError>)
    ensures
        match r {
            Ok(u) => u.id == universe.id && u.name == universe.name && u.user_id
                == universe.user_id && ((universe.visibility == VISIBILITY_PRIVATE && u.visibility
                == Visibility::Private) || (universe.visibility == VISIBILITY_SHARED
                && u.visibility == Visibility::Shared)),
            Err(e) => universe.visibility != VISIBILITY_PRIVATE && universe.visibility
                != VISIBILITY_SHARED && e is InvalidInput,
        },
{
    let visibility = match map_visibility(universe.visibility) {
        Ok(v) => v,
        Err(e) => {
            return Err(e);
        },
    };
    Ok(
        UniverseNode {
            id: universe.id,
            name: universe.name,
            user_id: universe.user_id,
            visibility,
        },
    )
}

pub fn to_domain_find_entity_candidates_query(request: FindEntityCandidatesRequestMsg) -> (r:
    FindEntityCandidatesQuery)
    ensures
        r.names@ == request.names@,
        r.potential_type_ids@ == request.potential_type_ids@,
        is_blank_seq(request.short_description@) ==> r.short_description is None,
        !is_blank_seq(request.short_description@) ==> (r.short_description matches Option::Some(d)
            && d == request.short_description),
        r.user_id == request.user_id,
        match (r.limit, request.limit) {
            (Option::Some(l), Option::Some(w)) => l == w as usize,
            (Option::None, Option::None) => true,
            _ => false,
        },
{
    let blank = is_blank(request.short_description.as_str());
    FindEntityCandidatesQuery {
        names: request.names,
        potential_type_ids: request.potential_type_ids,
        short_description: if blank {
            None
        } else {
            Some(request.short_description)
        },
        user_id: request.user_id,
        limit: match request.limit {
            Some(v) => Some(v as usize),
            None => None,
        },
    }
}


/// A property scalar on the wire; the float case carries IEEE-754 bits,
/// converted bit-for-bit at the boundary.
pub enum PropertyScalarMsg {
    StringValue(String),
    FloatBits(u64),
    IntValue(i64),
    BoolValue(bool),
    DatetimeValue(String),
    JsonValue(String),
}

/// A keyed property on the wire; the value may be absent.
pub struct PropertyValueMsg {
    pub key: String,
    pub value: Option<PropertyScalarMsg>,
}

/// Maps a wire property value; an absent value is refused, a present one
/// keeps its key and carries the same scalar variant and payload.
pub fn to_domain_property_value(value: PropertyValueMsg) -> (r: Result<PropertyValue, KgError>)
    ensures
        match r {
            Ok(p) => p.key == value.key && (match (value.value, p.value) {
                (
                    Option::Some(PropertyScalarMsg::StringValue(v)),
                    PropertyScalar::String(w),
                ) => w == v,
                (
                    Option::Some(PropertyScalarMsg::FloatBits(v)),
                    PropertyScalar::FloatBits(w),
                ) => w == v,
                (Option::Some(PropertyScalarMsg::IntValue(v)), PropertyScalar::Int(w)) => w == v,
                (Option::Some(PropertyScalarMsg::BoolValue(v)), PropertyScalar::Bool(w)) => w == v,
                (
                    Option::Some(PropertyScalarMsg::DatetimeValue(v)),
                    PropertyScalar::Datetime(w),
                ) => w == v,
                (Option::Some(PropertyScalarMsg::JsonValue(v)), PropertyScalar::Json(w)) => w == v,
                _ => false,
            }),
            Err(e) => value.value is None && e is InvalidInput,
        },
{
    let scalar = match value.value {
        Some(PropertyScalarMsg::StringValue(v)) => PropertyScalar::String(v),
        Some(PropertyScalarMsg::FloatBits(v)) => PropertyScalar::FloatBits(v),
        Some(PropertyScalarMsg::IntValue(v)) => PropertyScalar::Int(v),
        Some(PropertyScalarMsg::BoolValue(v)) => PropertyScalar::Bool(v),
        Some(PropertyScalarMsg::DatetimeValue(v)) => PropertyScalar::Datetime(v),
        Some(PropertyScalarMsg::JsonValue(v)) => PropertyScalar::Json(v),
        None => {
            return Err(KgError::InvalidInput("property value is required".to_owned()));
        },
    };
    Ok(PropertyValue { key: value.key, value: scalar })
}

} // verus!
