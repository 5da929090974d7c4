//! Schema governance: the rules a schema-type upsert must pass, the
//! hydrated schema view served to clients, and the proof that the upsert
//! rules keep the inheritance relation a forest rooted at the entity type.

use vstd::prelude::*;

use crate::domain::{
    EdgeEndpointRule, FullSchema, KgError, SchemaEdgeTypeHydrated, SchemaNodeTypeHydrated,
    SchemaType, TypeInheritance, TypeProperty, UpsertSchemaTypeCommand,
};
use crate::inherit::{is_assignable, prop_applies, type_descends};
use crate::text::str_eq;

verus! {

/// The distinct ways a schema-type upsert can be refused, in the order
/// the rules are evaluated.
#[derive(Debug, Clone, Copy, PartialEq, Eq, Structural)]
pub enum SchemaRuleError {
    /// The kind is neither `node` nor `edge`.
    KindInvalid,
    /// An edge type declared a parent; edge inheritance is unsupported.
    EdgeWithParent,
    /// The entity root type declared a parent.
    EntityWithParent,
    /// A node type other than the entity root declared no parent.
    ParentRequired,
    /// The declared parent type does not exist.
    ParentMissing,
    /// The declared parent is not a node type.
    ParentNotNode,
    /// The declared parent does not descend from the entity root.
    ParentNotEntitySubtype,
    /// The type already has a different parent.
    ParentChanged,
}

/// What a permitted upsert writes besides the type itself: the
/// inheritance edge of a node subtype.
#[derive(Debug)]
pub struct SchemaUpsertPlan {
    pub inheritance: Option<(String, String)>,
}

/// The outcome the upsert rules prescribe, given the command, the looked
/// up parent type, whether that parent descends from the entity root, and
/// the parent already recorded for the child.
pub open spec fn spec_schema_upsert(
    cmd: UpsertSchemaTypeCommand,
    parent_lookup: Option<SchemaType>,
    parent_descends: bool,
    existing_parent: Option<String>,
) -> Result<Option<(Seq<char>, Seq<char>)>, SchemaRuleError> {
    let st = cmd.schema_type;
    if !(st.kind@ == "node"@ || st.kind@ == "edge"@) {
        Result::Err(SchemaRuleError::KindInvalid)
    } else if st.kind@ == "edge"@ {
        if cmd.parent_type_id is Some {
            Result::Err(SchemaRuleError::EdgeWithParent)
        } else {
            Result::Ok(Option::None)
        }
    } else if st.id@ == "node.entity"@ {
        if cmd.parent_type_id is Some {
            Result::Err(SchemaRuleError::EntityWithParent)
        } else {
            Result::Ok(Option::None)
        }
    } else {
        match cmd.parent_type_id {
            Option::None => Result::Err(SchemaRuleError::ParentRequired),
            Option::Some(p) => match parent_lookup {
                Option::None => Result::Err(SchemaRuleError::ParentMissing),
                Option::Some(ps) => if ps.kind@ != "node"@ {
                    Result::Err(SchemaRuleError::ParentNotNode)
                } else if !parent_descends {
                    Result::Err(SchemaRuleError::ParentNotEntitySubtype)
                } else {
                    match existing_parent {
                        Option::Some(ep) => if ep@ != p@ {
                            Result::Err(SchemaRuleError::ParentChanged)
                        } else {
                            Result::Ok(Option::Some((st.id@, p@)))
                        },
                        Option::None => Result::Ok(Option::Some((st.id@, p@))),
                    }
                },
            },
        }
    }
}

/// Applies the schema-upsert rules in order.  On success the plan names
/// the inheritance edge to write, if any; each refusal carries the first
/// rule that failed.
pub fn plan_schema_type_upsert(
    cmd: &UpsertSchemaTypeCommand,
    parent_lookup: &Option<SchemaType>,
    parent_descends: bool,
    existing_parent: &Option<String>,
) -> (r: Result<SchemaUpsertPlan, SchemaRuleError>)
    ensures
        match r {
            Ok(plan) => spec_schema_upsert(*cmd, *parent_lookup, parent_descends, *existing_parent)
                matches Result::Ok(inh) && match (plan.inheritance, inh) {
                (Option::Some(pair), Option::Some(spair)) => pair.0@ == spair.0 && pair.1@
                    == spair.1,
                (Option::None, Option::None) => true,
                _ => false,
            },
            Err(e) => spec_schema_upsert(*cmd, *parent_lookup, parent_descends, *existing_parent)
                == Result::<Option<(Seq<char>, Seq<char>)>, SchemaRuleError>::Err(e),
        },
{
    let st = &cmd.schema_type;
    let is_node = str_eq(st.kind.as_str(), "node");
    let is_edge = str_eq(st.kind.as_str(), "edge");
    if !is_node && !is_edge {
        return Err(SchemaRuleError::KindInvalid);
    }
    if is_edge {
        if cmd.parent_type_id.is_some() {
            return Err(SchemaRuleError::EdgeWithParent);
        }
        return Ok(SchemaUpsertPlan { inheritance: None });
    }
    if str_eq(st.id.as_str(), "node.entity") {
        if cmd.parent_type_id.is_some() {
            return Err(SchemaRuleError::EntityWithParent);
        }
        return Ok(SchemaUpsertPlan { inheritance: None });
    }
    match &cmd.parent_type_id {
        None => Err(SchemaRuleError::ParentRequired),
        Some(p) => {
            match parent_lookup {
                None => Err(SchemaRuleError::ParentMissing),
                Some(ps) => {
                    if !str_eq(ps.kind.as_str(), "node") {
                        return Err(SchemaRuleError::ParentNotNode);
                    }
                    if !parent_descends {
                        return Err(SchemaRuleError::ParentNotEntitySubtype);
                    }
                    if let Some(ep) = existing_parent {
                        if !str_eq(ep.as_str(), p.as_str()) {
                            return Err(SchemaRuleError::ParentChanged);
                        }
                    }
                    Ok(SchemaUpsertPlan { inheritance: Some((st.id.clone(), p.clone())) })
                },
            }
        },
    }
}

/// The message and kind an upsert refusal surfaces.
pub fn schema_rule_error_to_kg(e: &SchemaRuleError) -> (r: KgError)
    ensures
        (*e == SchemaRuleError::ParentMissing) == (r is NotFound),
        (*e == SchemaRuleError::ParentChanged) == (r is Conflict),
        (*e != SchemaRuleError::ParentMissing && *e != SchemaRuleError::ParentChanged) == (r
            is InvalidInput),
{
    match e {
        SchemaRuleError::KindInvalid => KgError::InvalidInput(
            "schema kind must be one of: node, edge".to_owned(),
        ),
        SchemaRuleError::EdgeWithParent => KgError::InvalidInput(
            "edge inheritance is out of scope".to_owned(),
        ),
        SchemaRuleError::EntityWithParent => KgError::InvalidInput(
            "node.entity cannot declare a parent".to_owned(),
        ),
        SchemaRuleError::ParentRequired => KgError::InvalidInput(
            "node types (except node.entity) must declare parent_type_id".to_owned(),
        ),
        SchemaRuleError::ParentMissing => KgError::NotFound("parent type does not exist".to_owned()),
        SchemaRuleError::ParentNotNode => KgError::InvalidInput(
            "parent type must be a node".to_owned(),
        ),
        SchemaRuleError::ParentNotEntitySubtype => KgError::InvalidInput(
            "node parent must descend from node.entity".to_owned(),
        ),
        SchemaRuleError::ParentChanged => KgError::Conflict(
            "a node type cannot have multiple parents".to_owned(),
        ),
    }
}

/// The properties shown on a hydrated type: its own, the inherited ones,
/// and the matching pseudo-owner's.
pub open spec fn hydrate_props(
    props: Seq<TypeProperty>,
    inh: Seq<TypeInheritance>,
    id: Seq<char>,
) -> Seq<TypeProperty> {
    props.filter(|p: TypeProperty| prop_applies(id, p, inh))
}

/// The parent chain shown on a hydrated node type: every inheritance edge
/// whose child the type descends from, so the type's whole ancestor line
/// in declaration order.
pub open spec fn hydrate_parents(inh: Seq<TypeInheritance>, id: Seq<char>) -> Seq<TypeInheritance> {
    inh.filter(|t: TypeInheritance| type_descends(inh, id, t.child_type_id@))
}

/// The endpoint rules shown on a hydrated edge type.
pub open spec fn hydrate_rules(rules: Seq<EdgeEndpointRule>, id: Seq<char>) -> Seq<
    EdgeEndpointRule,
> {
    rules.filter(|r: EdgeEndpointRule| r.edge_type_id@ == id)
}

fn clone_schema_type(s: &SchemaType) -> (r: SchemaType)
    ensures
        r == *s,
{
    SchemaType {
        id: s.id.clone(),
        kind: s.kind.clone(),
        name: s.name.clone(),
        description: s.description.clone(),
        active: s.active,
    }
}

fn clone_property(p: &TypeProperty) -> (r: TypeProperty)
    ensures
        r == *p,
{
    TypeProperty {
        owner_type_id: p.owner_type_id.clone(),
        prop_name: p.prop_name.clone(),
        value_type: p.value_type.clone(),
        required: p.required,
        readable: p.readable,
        writable: p.writable,
        active: p.active,
        description: p.description.clone(),
    }
}

fn clone_inheritance(t: &TypeInheritance) -> (r: TypeInheritance)
    ensures
        r == *t,
{
    TypeInheritance {
        child_type_id: t.child_type_id.clone(),
        parent_type_id: t.parent_type_id.clone(),
        description: t.description.clone(),
        active: t.active,
    }
}

fn clone_rule(rule: &EdgeEndpointRule) -> (r: EdgeEndpointRule)
    ensures
        r == *rule,
{
    EdgeEndpointRule {
        edge_type_id: rule.edge_type_id.clone(),
        from_node_type_id: rule.from_node_type_id.clone(),
        to_node_type_id: rule.to_node_type_id.clone(),
        active: rule.active,
        description: rule.description.clone(),
    }
}

fn filter_props_for(
    props: &Vec<TypeProperty>,
    inh: &Vec<TypeInheritance>,
    id: &String,
) -> (r: Vec<TypeProperty>)
    ensures
        r@ == hydrate_props(props@, inh@, id@),
{
    let ghost pred = |p: TypeProperty| prop_applies(id@, p, inh@);
    let mut out: Vec<TypeProperty> = Vec::new();
    let mut i: usize = 0;
    proof {
        reveal(Seq::filter);
        assert(props@.take(0int) =~= Seq::<TypeProperty>::empty());
    }
    while i < props.len()
        invariant
            pred == (|p: TypeProperty| prop_applies(id@, p, inh@)),
            i <= props@.len(),
            out@ =~= props@.take(i as int).filter(pred),
        decreases props@.len() - i,
    {
        let p = &props[i];
        let keep = if str_eq(p.owner_type_id.as_str(), id.as_str()) {
            true
        } else if is_assignable(id, &p.owner_type_id, inh) {
            true
        } else {
            crate::inherit::is_global_property_owner(id, &p.owner_type_id)
        };
        proof {
            reveal(Seq::filter);
            assert(props@.take(i + 1).drop_last() =~= props@.take(i as int));
            assert(props@.take(i + 1).last() == props@[i as int]);
        }
        if keep {
            out.push(clone_property(p));
        }
        i += 1;
    }
    proof {
        assert(props@.take(props@.len() as int) =~= props@);
    }
    out
}

fn filter_parents_for(inh: &Vec<TypeInheritance>, id: &String) -> (r: Vec<TypeInheritance>)
    ensures
        r@ == hydrate_parents(inh@, id@),
{
    let ghost pred = |t: TypeInheritance| type_descends(inh@, id@, t.child_type_id@);
    let mut out: Vec<TypeInheritance> = Vec::new();
    let mut i: usize = 0;
    proof {
        reveal(Seq::filter);
        assert(inh@.take(0int) =~= Seq::<TypeInheritance>::empty());
    }
    while i < inh.len()
        invariant
            pred == (|t: TypeInheritance| type_descends(inh@, id@, t.child_type_id@)),
            i <= inh@.len(),
            out@ =~= inh@.take(i as int).filter(pred),
        decreases inh@.len() - i,
    {
        proof {
            reveal(Seq::filter);
            assert(inh@.take(i + 1).drop_last() =~= inh@.take(i as int));
            assert(inh@.take(i + 1).last() == inh@[i as int]);
        }
        if is_assignable(id, &inh[i].child_type_id, inh) {
            out.push(clone_inheritance(&inh[i]));
        }
        i += 1;
    }
    proof {
        assert(inh@.take(inh@.len() as int) =~= inh@);
    }
    out
}

fn filter_rules_for(rules: &Vec<EdgeEndpointRule>, id: &String) -> (r: Vec<EdgeEndpointRule>)
    ensures
        r@ == hydrate_rules(rules@, id@),
{
    let ghost pred = |t: EdgeEndpointRule| t.edge_type_id@ == id@;
    let mut out: Vec<EdgeEndpointRule> = Vec::new();
    let mut i: usize = 0;
    proof {
        reveal(Seq::filter);
        assert(rules@.take(0int) =~= Seq::<EdgeEndpointRule>::empty());
    }
    while i < rules.len()
        invariant
            pred == (|t: EdgeEndpointRule| t.edge_type_id@ == id@),
            i <= rules@.len(),
            out@ =~= rules@.take(i as int).filter(pred),
        decreases rules@.len() - i,
    {
        proof {
            reveal(Seq::filter);
            assert(rules@.take(i + 1).drop_last() =~= rules@.take(i as int));
            assert(rules@.take(i + 1).last() == rules@[i as int]);
        }
        if str_eq(rules[i].edge_type_id.as_str(), id.as_str()) {
            out.push(clone_rule(&rules[i]));
        }
        i += 1;
    }
    proof {
        assert(rules@.take(rules@.len() as int) =~= rules@);
    }
    out
}

/// Joins the schema tables into the full view served to clients: every
/// node type with its properties (own, inherited and pseudo-owner) and
/// its whole parent chain, every edge type with its properties and
/// endpoint rules.
pub fn hydrate_full_schema(
    node_types: &Vec<SchemaType>,
    edge_types: &Vec<SchemaType>,
    inheritance: &Vec<TypeInheritance>,
    properties: &Vec<TypeProperty>,
    edge_rules: &Vec<EdgeEndpointRule>,
) -> (r: FullSchema)
    ensures
        r.node_types@.len() == node_types@.len(),
        forall|i: int|
            0 <= i < node_types@.len() ==> (#[trigger] r.node_types@[i]).schema_type
                == node_types@[i] && r.node_types@[i].properties@ == hydrate_props(
                properties@,
                inheritance@,
                node_types@[i].id@,
            ) && r.node_types@[i].parents@ == hydrate_parents(inheritance@, node_types@[i].id@),
        r.edge_types@.len() == edge_types@.len(),
        forall|i: int|
            0 <= i < edge_types@.len() ==> (#[trigger] r.edge_types@[i]).schema_type
                == edge_types@[i] && r.edge_types@[i].properties@ == hydrate_props(
                properties@,
                inheritance@,
                edge_types@[i].id@,
            ) && r.edge_types@[i].rules@ == hydrate_rules(edge_rules@, edge_types@[i].id@),
{
    let mut nodes: Vec<SchemaNodeTypeHydrated> = Vec::new();
    let mut i: usize = 0;
    while i < node_types.len()
        invariant
            i <= node_types@.len(),
            nodes@.len() == i,
            forall|j: int|
                0 <= j < i ==> (#[trigger] nodes@[j]).schema_type == node_types@[j]
                    && nodes@[j].properties@ == hydrate_props(
                    properties@,
                    inheritance@,
                    node_types@[j].id@,
                ) && nodes@[j].parents@ == hydrate_parents(inheritance@, node_types@[j].id@),
        decreases node_types@.len() - i,
    {
        let t = &node_types[i];
        nodes.push(
            SchemaNodeTypeHydrated {
                schema_type: clone_schema_type(t),
                properties: filter_props_for(properties, inheritance, &t.id),
                parents: filter_parents_for(inheritance, &t.id),
            },
        );
        i += 1;
    }
    let mut edges: Vec<SchemaEdgeTypeHydrated> = Vec::new();
    let mut k: usize = 0;
    while k < edge_types.len()
        invariant
            k <= edge_types@.len(),
            edges@.len() == k,
            forall|j: int|
                0 <= j < k ==> (#[trigger] edges@[j]).schema_type == edge_types@[j]
                    && edges@[j].properties@ == hydrate_props(
                    properties@,
                    inheritance@,
                    edge_types@[j].id@,
                ) && edges@[j].rules@ == hydrate_rules(edge_rules@, edge_types@[j].id@),
        decreases edge_types@.len() - k,
    {
        let t = &edge_types[k];
        edges.push(
            SchemaEdgeTypeHydrated {
                schema_type: clone_schema_type(t),
                properties: filter_props_for(properties, inheritance, &t.id),
                rules: filter_rules_for(edge_rules, &t.id),
            },
        );
        k += 1;
    }
    FullSchema { node_types: nodes, edge_types: edges }
}

/// The single-parent chain from `c` reaches the entity root within `fuel`
/// steps.
pub open spec fn chain_ok(m: Map<Seq<char>, Seq<char>>, c: Seq<char>, fuel: nat) -> bool
    decreases fuel,
{
    if c == "node.entity"@ {
        true
    } else {
        m.dom().contains(c) && fuel > 0 && chain_ok(m, m[c], (fuel - 1) as nat)
    }
}

/// The inheritance relation as a forest: the root has no parent, every
/// declared type's chain reaches the root, and so no chain can cycle.
pub open spec fn forest_inv(m: Map<Seq<char>, Seq<char>>) -> bool {
    &&& !m.dom().contains("node.entity"@)
    &&& m.dom().finite()
    &&& forall|c: Seq<char>| #[trigger] m.dom().contains(c) ==> chain_ok(m, c, m.dom().len())
}

proof fn lemma_chain_ok_mono(m: Map<Seq<char>, Seq<char>>, c: Seq<char>, f: nat, g: nat)
    requires
        chain_ok(m, c, f),
        f <= g,
    ensures
        chain_ok(m, c, g),
    decreases f,
{
    if c != "node.entity"@ {
        lemma_chain_ok_mono(m, m[c], (f - 1) as nat, (g - 1) as nat);
    }
}

/// A chain is untouched by inserting a binding for an undeclared type.
proof fn lemma_chain_ok_insert(
    m: Map<Seq<char>, Seq<char>>,
    c: Seq<char>,
    p: Seq<char>,
    x: Seq<char>,
    f: nat,
)
    requires
        chain_ok(m, x, f),
        !m.dom().contains(c),
    ensures
        chain_ok(m.insert(c, p), x, f),
    decreases f,
{
    broadcast use vstd::map::group_map_axioms;

    if x != "node.entity"@ {
        assert(x != c);
        lemma_chain_ok_insert(m, c, p, m[x], (f - 1) as nat);
    }
}

/// The inheritance-forest law: starting from a forest, an upsert the
/// schema rules admit — the child is not the root, the parent's chain
/// reaches the root, and a child already declared keeps its parent —
/// leaves a forest, and the child's own chain reaches the root.  Since
/// every chain reaches the root, no cycle exists, and the map shape gives
/// every declared type exactly one parent.
pub proof fn lemma_schema_upsert_preserves_forest(
    m: Map<Seq<char>, Seq<char>>,
    c: Seq<char>,
    p: Seq<char>,
)
    requires
        forest_inv(m),
        c != "node.entity"@,
        chain_ok(m, p, m.dom().len()),
        m.dom().contains(c) ==> m[c] == p,
    ensures
        forest_inv(m.insert(c, p)),
        chain_ok(m.insert(c, p), c, m.insert(c, p).dom().len()),
{
    broadcast use vstd::map::group_map_axioms;
    broadcast use vstd::set::group_set_axioms;

    let m2 = m.insert(c, p);
    if m.dom().contains(c) {
        assert(m2 =~= m);
        assert(chain_ok(m2, c, m2.dom().len()));
    } else {
        assert(m2.dom() =~= m.dom().insert(c));
        assert(m2.dom().len() == m.dom().len() + 1);
        let l2 = m2.dom().len();
        assert forall|x: Seq<char>| #[trigger] m2.dom().contains(x) implies chain_ok(
            m2,
            x,
            l2,
        ) by {
            if x == c {
                lemma_chain_ok_insert(m, c, p, p, m.dom().len());
                lemma_chain_ok_mono(m2, p, m.dom().len(), (l2 - 1) as nat);
                assert(m2[c] == p);
            } else {
                assert(m.dom().contains(x));
                assert(chain_ok(m, x, m.dom().len()));
                lemma_chain_ok_insert(m, c, p, x, m.dom().len());
                lemma_chain_ok_mono(m2, x, m.dom().len(), l2);
            }
        }
        assert(chain_ok(m2, c, l2));
    }
}

} // verus!
