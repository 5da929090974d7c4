//! The delta validator: a pure function from a delta, a schema snapshot and
//! the graph store's relationship counts to either acceptance or a report
//! holding one issue per violated rule and violating subject.

use vstd::prelude::*;

use crate::domain::{
    BlockNode, EntityNode, GraphDelta, GraphEdge, KgError, NodeRelationshipCounts, PropertyValue,
    SchemaSnapshot, SchemaType, TypeInheritance, TypeProperty, UniverseNode,
};
use crate::inherit::{prop_applies, type_descends};
use crate::text::{
    append_str, eq_ignore_case_str, is_blank, is_blank_seq, is_edge_type_seq, is_uuid_seq,
    is_valid_edge_type_str, is_valid_uuid, lower_seq, push_char, str_eq, to_ascii_lower,
};

verus! {

/// The designated common universe every entity may default to.
pub open spec fn common_universe_id_seq() -> Seq<char> {
    "9d7f0fa5-78c1-4805-9efb-3f8f16090d7f"@
}

/// One validation issue, at the specification level.
pub enum IssueSpec {
    EmptyId { kind: Seq<char> },
    MalformedId { kind: Seq<char>, id: Seq<char> },
    UniverseNameRequired { universe_id: Seq<char> },
    UnknownUniverse { entity_id: Seq<char>, universe_id: Seq<char> },
    EntityUnknownType { entity_id: Seq<char>, type_id: Seq<char> },
    EntityNotEntitySubtype { entity_id: Seq<char>, type_id: Seq<char> },
    BlockUnknownType { block_id: Seq<char>, type_id: Seq<char> },
    BlockNotBlockSubtype { block_id: Seq<char>, type_id: Seq<char> },
    MalformedEdgeType { from_id: Seq<char>, to_id: Seq<char>, edge_type: Seq<char> },
    UnknownEdgeType { from_id: Seq<char>, to_id: Seq<char>, edge_type: Seq<char> },
    PropertyNotAllowed { subject: Seq<char>, key: Seq<char>, owner_type_id: Seq<char> },
    MissingRequiredProperty { subject: Seq<char>, key: Seq<char> },
    EndpointRuleViolation {
        edge_type: Seq<char>,
        edge_type_id: Seq<char>,
        from_type: Seq<char>,
        to_type: Seq<char>,
    },
    UniverseNoRelationship { universe_id: Seq<char> },
    EntityNoRelationship { entity_id: Seq<char> },
    EntityNoIsPartOf { entity_id: Seq<char> },
    BlockNoRelationship { block_id: Seq<char> },
    BlockParentCount { block_id: Seq<char> },
}

/// One validation issue, carried at run time.
#[derive(Debug)]
pub enum ValidationIssue {
    EmptyId { kind: String },
    MalformedId { kind: String, id: String },
    UniverseNameRequired { universe_id: String },
    UnknownUniverse { entity_id: String, universe_id: String },
    EntityUnknownType { entity_id: String, type_id: String },
    EntityNotEntitySubtype { entity_id: String, type_id: String },
    BlockUnknownType { block_id: String, type_id: String },
    BlockNotBlockSubtype { block_id: String, type_id: String },
    MalformedEdgeType { from_id: String, to_id: String, edge_type: String },
    UnknownEdgeType { from_id: String, to_id: String, edge_type: String },
    PropertyNotAllowed { subject: String, key: String, owner_type_id: String },
    MissingRequiredProperty { subject: String, key: String },
    EndpointRuleViolation {
        edge_type: String,
        edge_type_id: String,
        from_type: String,
        to_type: String,
    },
    UniverseNoRelationship { universe_id: String },
    EntityNoRelationship { entity_id: String },
    EntityNoIsPartOf { entity_id: String },
    BlockNoRelationship { block_id: String },
    BlockParentCount { block_id: String },
}

impl View for ValidationIssue {
    type V = IssueSpec;

    open spec fn view(&self) -> IssueSpec {
        match self {
            ValidationIssue::EmptyId { kind } => IssueSpec::EmptyId { kind: kind@ },
            ValidationIssue::MalformedId { kind, id } => IssueSpec::MalformedId {
                kind: kind@,
                id: id@,
            },
            ValidationIssue::UniverseNameRequired { universe_id } => IssueSpec::UniverseNameRequired {
                universe_id: universe_id@,
            },
            ValidationIssue::UnknownUniverse { entity_id, universe_id } => IssueSpec::UnknownUniverse {
                entity_id: entity_id@,
                universe_id: universe_id@,
            },
            ValidationIssue::EntityUnknownType { entity_id, type_id } => IssueSpec::EntityUnknownType {
                entity_id: entity_id@,
                type_id: type_id@,
            },
            ValidationIssue::EntityNotEntitySubtype { entity_id, type_id } => IssueSpec::EntityNotEntitySubtype {
                entity_id: entity_id@,
                type_id: type_id@,
            },
            ValidationIssue::BlockUnknownType { block_id, type_id } => IssueSpec::BlockUnknownType {
                block_id: block_id@,
                type_id: type_id@,
            },
            ValidationIssue::BlockNotBlockSubtype { block_id, type_id } => IssueSpec::BlockNotBlockSubtype {
                block_id: block_id@,
                type_id: type_id@,
            },
            ValidationIssue::MalformedEdgeType { from_id, to_id, edge_type } => IssueSpec::MalformedEdgeType {
                from_id: from_id@,
                to_id: to_id@,
                edge_type: edge_type@,
            },
            ValidationIssue::UnknownEdgeType { from_id, to_id, edge_type } => IssueSpec::UnknownEdgeType {
                from_id: from_id@,
                to_id: to_id@,
                edge_type: edge_type@,
            },
            ValidationIssue::PropertyNotAllowed { subject, key, owner_type_id } => IssueSpec::PropertyNotAllowed {
                subject: subject@,
                key: key@,
                owner_type_id: owner_type_id@,
            },
            ValidationIssue::MissingRequiredProperty { subject, key } => IssueSpec::MissingRequiredProperty {
                subject: subject@,
                key: key@,
            },
            ValidationIssue::EndpointRuleViolation { edge_type, edge_type_id, from_type, to_type } => IssueSpec::EndpointRuleViolation {
                edge_type: edge_type@,
                edge_type_id: edge_type_id@,
                from_type: from_type@,
                to_type: to_type@,
            },
            ValidationIssue::UniverseNoRelationship { universe_id } => IssueSpec::UniverseNoRelationship {
                universe_id: universe_id@,
            },
            ValidationIssue::EntityNoRelationship { entity_id } => IssueSpec::EntityNoRelationship {
                entity_id: entity_id@,
            },
            ValidationIssue::EntityNoIsPartOf { entity_id } => IssueSpec::EntityNoIsPartOf {
                entity_id: entity_id@,
            },
            ValidationIssue::BlockNoRelationship { block_id } => IssueSpec::BlockNoRelationship {
                block_id: block_id@,
            },
            ValidationIssue::BlockParentCount { block_id } => IssueSpec::BlockParentCount {
                block_id: block_id@,
            },
        }
    }
}

/// The views of a list of issues.
pub open spec fn issue_views(s: Seq<ValidationIssue>) -> Seq<IssueSpec> {
    s.map_values(|i: ValidationIssue| i@)
}

/// ASCII case-insensitive equality.
pub open spec fn eq_ic(a: Seq<char>, b: Seq<char>) -> bool {
    lower_seq(a) == lower_seq(b)
}

/// The schema id an edge-type string maps to: `edge.` plus the
/// lower-cased name.
pub open spec fn edge_schema_id(edge_type: Seq<char>) -> Seq<char> {
    "edge."@ + lower_seq(edge_type)
}

/// Builds the schema id of an edge type.
pub fn edge_schema_id_exec(edge_type: &String) -> (r: String)
    ensures
        r@ == edge_schema_id(edge_type@),
{
    let mut id = "edge.".to_owned();
    let lowered = to_ascii_lower(edge_type.as_str());
    append_str(&mut id, lowered.as_str());
    id
}

/// Issues of the identifier syntax check: an id must be non-blank and a
/// canonical UUID; on failure the subject contributes exactly one issue.
pub open spec fn spec_id_issues(kind: Seq<char>, id: Seq<char>) -> Seq<IssueSpec> {
    if is_blank_seq(id) {
        seq![IssueSpec::EmptyId { kind: kind }]
    } else if !is_uuid_seq(id) {
        seq![IssueSpec::MalformedId { kind: kind, id: id }]
    } else {
        Seq::empty()
    }
}

/// Checks one id; the `kind` names the subject in the issue.
fn id_issues_exec(kind: &str, id: &String) -> (r: Vec<ValidationIssue>)
    ensures
        issue_views(r@) == spec_id_issues(kind@, id@),
{
    let mut out: Vec<ValidationIssue> = Vec::new();
    if is_blank(id.as_str()) {
        out.push(ValidationIssue::EmptyId { kind: kind.to_owned() });
        proof {
            assert(issue_views(out@) =~= spec_id_issues(kind@, id@));
        }
        return out;
    }
    if !is_valid_uuid(id.as_str()) {
        out.push(ValidationIssue::MalformedId { kind: kind.to_owned(), id: id.clone() });
        proof {
            assert(issue_views(out@) =~= spec_id_issues(kind@, id@));
        }
        return out;
    }
    proof {
        assert(issue_views(out@) =~= spec_id_issues(kind@, id@));
    }
    out
}

/// Whether some declared property applies to `owner` under `key`.
pub open spec fn spec_key_allowed(
    owner: Seq<char>,
    key: Seq<char>,
    props: Seq<TypeProperty>,
    inh: Seq<TypeInheritance>,
) -> bool {
    exists|i: int|
        0 <= i < props.len() && prop_applies(owner, #[trigger] props[i], inh) && props[i].prop_name@
            == key
}

fn key_allowed_exec(
    owner: &String,
    key: &String,
    props: &Vec<TypeProperty>,
    inh: &Vec<TypeInheritance>,
) -> (r: bool)
    ensures
        r == spec_key_allowed(owner@, key@, props@, inh@),
{
    let mut i: usize = 0;
    while i < props.len()
        invariant
            i <= props@.len(),
            forall|j: int|
                0 <= j < i ==> !(prop_applies(owner@, #[trigger] props@[j], inh@)
                    && props@[j].prop_name@ == key@),
        decreases props@.len() - i,
    {
        let p = &props[i];
        let applies = if str_eq(p.owner_type_id.as_str(), owner.as_str()) {
            true
        } else if crate::inherit::is_assignable(owner, &p.owner_type_id, inh) {
            true
        } else {
            crate::inherit::is_global_property_owner(owner, &p.owner_type_id)
        };
        if applies && str_eq(p.prop_name.as_str(), key.as_str()) {
            return true;
        }
        i += 1;
    }
    false
}

/// Whether the payload supplies a property under `key`.
pub open spec fn spec_provided_has(provided: Seq<PropertyValue>, key: Seq<char>) -> bool {
    exists|i: int| 0 <= i < provided.len() && (#[trigger] provided[i].key@) == key
}

fn provided_has_exec(provided: &Vec<PropertyValue>, key: &String) -> (r: bool)
    ensures
        r == spec_provided_has(provided@, key@),
{
    let mut i: usize = 0;
    while i < provided.len()
        invariant
            i <= provided@.len(),
            forall|j: int| 0 <= j < i ==> (#[trigger] provided@[j].key@) != key@,
        decreases provided@.len() - i,
    {
        if str_eq(provided[i].key.as_str(), key.as_str()) {
            return true;
        }
        i += 1;
    }
    false
}

/// A property is required on `owner` when it is declared required and
/// applies to the type.
pub open spec fn required_on(
    owner: Seq<char>,
    p: TypeProperty,
    inh: Seq<TypeInheritance>,
) -> bool {
    p.required && prop_applies(owner, p, inh)
}

/// The issues for supplied keys outside the allowed set, in payload order.
pub open spec fn spec_not_allowed_issues(
    subject: Seq<char>,
    owner: Seq<char>,
    provided: Seq<PropertyValue>,
    props: Seq<TypeProperty>,
    inh: Seq<TypeInheritance>,
) -> Seq<IssueSpec> {
    provided.filter(|pv: PropertyValue| !spec_key_allowed(owner, pv.key@, props, inh)).map_values(
        |pv: PropertyValue| IssueSpec::PropertyNotAllowed {
            subject: subject,
            key: pv.key@,
            owner_type_id: owner,
        },
    )
}

/// The issues for required properties missing from the payload: one per
/// distinct required name (other than `id`) that no supplied key matches,
/// in declaration order.
pub open spec fn spec_missing_issues(
    subject: Seq<char>,
    owner: Seq<char>,
    provided: Seq<PropertyValue>,
    props: Seq<TypeProperty>,
    inh: Seq<TypeInheritance>,
    seen: Set<Seq<char>>,
) -> Seq<IssueSpec>
    decreases props.len(),
{
    if props.len() == 0 {
        Seq::empty()
    } else {
        let p = props[0];
        if required_on(owner, p, inh) {
            let rest = spec_missing_issues(
                subject,
                owner,
                provided,
                props.drop_first(),
                inh,
                seen.insert(p.prop_name@),
            );
            if !seen.contains(p.prop_name@) && p.prop_name@ != "id"@ && !spec_provided_has(
                provided,
                p.prop_name@,
            ) {
                seq![IssueSpec::MissingRequiredProperty { subject: subject, key: p.prop_name@ }]
                    + rest
            } else {
                rest
            }
        } else {
            spec_missing_issues(subject, owner, provided, props.drop_first(), inh, seen)
        }
    }
}

/// All property-conformance issues of one subject: disallowed keys first,
/// then missing required names.
pub open spec fn spec_property_issues(
    subject: Seq<char>,
    owner: Seq<char>,
    provided: Seq<PropertyValue>,
    props: Seq<TypeProperty>,
    inh: Seq<TypeInheritance>,
) -> Seq<IssueSpec> {
    spec_not_allowed_issues(subject, owner, provided, props, inh) + spec_missing_issues(
        subject,
        owner,
        provided,
        props,
        inh,
        Set::empty(),
    )
}

/// Checks the supplied properties of one subject against the owner type's
/// allowed and required sets (own, inherited, and pseudo-owner properties).
pub fn validate_properties(
    subject: &String,
    owner_type_id: &String,
    provided: &Vec<PropertyValue>,
    all_properties: &Vec<TypeProperty>,
    inheritance: &Vec<TypeInheritance>,
) -> (r: Vec<ValidationIssue>)
    ensures
        issue_views(r@) == spec_property_issues(
            subject@,
            owner_type_id@,
            provided@,
            all_properties@,
            inheritance@,
        ),
{
    let ghost ownerv = owner_type_id@;
    let ghost inh = inheritance@;
    let ghost propsv = all_properties@;
    let ghost pred = |pv: PropertyValue| !spec_key_allowed(ownerv, pv.key@, propsv, inh);
    let mut out: Vec<ValidationIssue> = Vec::new();
    let mut i: usize = 0;
    proof {
        reveal(Seq::filter);
        assert(provided@.take(0int) =~= Seq::<PropertyValue>::empty());
    }
    while i < provided.len()
        invariant
            ownerv == owner_type_id@,
            inh == inheritance@,
            propsv == all_properties@,
            pred == (|pv: PropertyValue| !spec_key_allowed(ownerv, pv.key@, propsv, inh)),
            i <= provided@.len(),
            issue_views(out@) =~= provided@.take(i as int).filter(pred).map_values(
                |pv: PropertyValue| IssueSpec::PropertyNotAllowed {
                    subject: subject@,
                    key: pv.key@,
                    owner_type_id: ownerv,
                },
            ),
        decreases provided@.len() - i,
    {
        let allowed = key_allowed_exec(owner_type_id, &provided[i].key, all_properties, inheritance);
        let ghost f = |pv: PropertyValue| IssueSpec::PropertyNotAllowed {
            subject: subject@,
            key: pv.key@,
            owner_type_id: ownerv,
        };
        let ghost out_pre = issue_views(out@);
        proof {
            reveal(Seq::filter);
            assert(provided@.take(i + 1).drop_last() =~= provided@.take(i as int));
            assert(provided@.take(i + 1).last() == provided@[i as int]);
        }
        if !allowed {
            out.push(
                ValidationIssue::PropertyNotAllowed {
                    subject: subject.clone(),
                    key: provided[i].key.clone(),
                    owner_type_id: owner_type_id.clone(),
                },
            );
            proof {
                reveal(Seq::filter);
                assert(provided@.take(i + 1).filter(pred) =~= provided@.take(i as int).filter(
                    pred,
                ).push(provided@[i as int]));
                assert(issue_views(out@) =~= out_pre.push(f(provided@[i as int])));
                assert(issue_views(out@) =~= provided@.take(i + 1).filter(pred).map_values(f));
            }
        } else {
            proof {
                reveal(Seq::filter);
                assert(provided@.take(i + 1).filter(pred) =~= provided@.take(i as int).filter(
                    pred,
                ));
            }
        }
        i += 1;
    }
    proof {
        assert(provided@.take(provided@.len() as int) =~= provided@);
    }
    // missing required names, deduplicated, in declaration order
    let ghost base = issue_views(out@);
    let ghost missing_full = spec_missing_issues(
        subject@,
        ownerv,
        provided@,
        propsv,
        inh,
        Set::empty(),
    );
    let mut seen_names: Vec<String> = Vec::new();
    let mut k: usize = 0;
    proof {
        assert(propsv.skip(0int) =~= propsv);
        assert(crate::inherit::views(seen_names@).to_set() =~= Set::<Seq<char>>::empty());
        assert(seen_set(ownerv, propsv.take(0int), inh) =~= Set::<Seq<char>>::empty()) by {
            assert(propsv.take(0int) =~= Seq::<TypeProperty>::empty());
        }
        assert(issue_views(out@).skip(base.len() as int) =~= Seq::<IssueSpec>::empty());
        assert(issue_views(out@).take(base.len() as int) =~= base);
    }
    while k < all_properties.len()
        invariant
            ownerv == owner_type_id@,
            inh == inheritance@,
            propsv == all_properties@,
            missing_full == spec_missing_issues(subject@, ownerv, provided@, propsv, inh, Set::empty()),
            k <= propsv.len(),
            crate::inherit::views(seen_names@).to_set() == seen_set(ownerv, propsv.take(k as int), inh),
            base.len() <= issue_views(out@).len(),
            issue_views(out@).take(base.len() as int) == base,
            missing_full =~= issue_views(out@).skip(base.len() as int) + spec_missing_issues(
                subject@,
                ownerv,
                provided@,
                propsv.skip(k as int),
                inh,
                crate::inherit::views(seen_names@).to_set(),
            ),
        decreases propsv.len() - k,
    {
        let ghost seen_pre = crate::inherit::views(seen_names@).to_set();
        let p = &all_properties[k];
        let applies = if str_eq(p.owner_type_id.as_str(), owner_type_id.as_str()) {
            true
        } else if crate::inherit::is_assignable(owner_type_id, &p.owner_type_id, inheritance) {
            true
        } else {
            crate::inherit::is_global_property_owner(owner_type_id, &p.owner_type_id)
        };
        let req = p.required && applies;
        proof {
            assert(propsv.skip(k as int)[0] == propsv[k as int]);
            assert(propsv.skip(k as int).drop_first() =~= propsv.skip(k + 1));
        }
        if req {
            let fresh = !crate::inherit::vec_contains_str(&seen_names, &p.prop_name);
            proof {
                lemma_views_to_set_contains(seen_names@, propsv[k as int].prop_name@);
            }
            let is_id = str_eq(p.prop_name.as_str(), "id");
            let present = provided_has_exec(provided, &p.prop_name);
            if fresh && !is_id && !present {
                let ghost out_pre = issue_views(out@);
                out.push(
                    ValidationIssue::MissingRequiredProperty {
                        subject: subject.clone(),
                        key: p.prop_name.clone(),
                    },
                );
                proof {
                    assert(issue_views(out@) =~= out_pre.push(
                        IssueSpec::MissingRequiredProperty {
                            subject: subject@,
                            key: propsv[k as int].prop_name@,
                        },
                    ));
                    assert(issue_views(out@).take(base.len() as int) =~= base);
                    assert(issue_views(out@).skip(base.len() as int) =~= out_pre.skip(
                        base.len() as int,
                    ).push(
                        IssueSpec::MissingRequiredProperty {
                            subject: subject@,
                            key: propsv[k as int].prop_name@,
                        },
                    ));
                }
            }
            if fresh {
                let ghost pre = seen_names@;
                seen_names.push(p.prop_name.clone());
                proof {
                    assert(crate::inherit::views(seen_names@).drop_last() =~= crate::inherit::views(
                        pre,
                    ));
                    assert((crate::inherit::views(seen_names@).last())
                        == propsv[k as int].prop_name@);
                    lemma_views_to_set_push(pre, all_properties[k as int].prop_name);
                }
            } else {
                proof {
                    assert(seen_pre.insert(propsv[k as int].prop_name@) =~= seen_pre);
                }
            }
        }
        proof {
            lemma_seen_set_take_step(ownerv, propsv, inh, k as int);
            assert(missing_full =~= issue_views(out@).skip(base.len() as int)
                + spec_missing_issues(
                subject@,
                ownerv,
                provided@,
                propsv.skip(k + 1),
                inh,
                crate::inherit::views(seen_names@).to_set(),
            ));
        }
        k += 1;
    }
    proof {
        assert(propsv.skip(propsv.len() as int) =~= Seq::<TypeProperty>::empty());
        assert(spec_missing_issues(
            subject@,
            ownerv,
            provided@,
            propsv.skip(propsv.len() as int),
            inh,
            crate::inherit::views(seen_names@).to_set(),
        ) =~= Seq::<IssueSpec>::empty());
        assert(missing_full =~= issue_views(out@).skip(base.len() as int));
        assert(issue_views(out@) =~= issue_views(out@).take(base.len() as int) + issue_views(out@)
            .skip(base.len() as int));
        assert(issue_views(out@) =~= spec_property_issues(
            subject@,
            owner_type_id@,
            provided@,
            all_properties@,
            inheritance@,
        ));
    }
    out
}

/// Membership in the set of views matches membership in the list.
proof fn lemma_views_to_set_contains(s: Seq<String>, v: Seq<char>)
    ensures
        crate::inherit::views(s).to_set().contains(v) == crate::inherit::seq_contains_view(s, v),
{
    broadcast use vstd::set::group_set_axioms;
    let vs = crate::inherit::views(s);
    if vs.to_set().contains(v) {
        assert(vs.contains(v));
        let i = choose|i: int| 0 <= i < vs.len() && vs[i] == v;
        assert((s[i]@) == v);
    }
    if crate::inherit::seq_contains_view(s, v) {
        let i = choose|i: int| 0 <= i < s.len() && (#[trigger] s[i]@) == v;
        assert(vs[i] == v);
        assert(vs.contains(v));
    }
}

/// Pushing a string inserts its view into the set of views.
proof fn lemma_views_to_set_push(s: Seq<String>, x: String)
    ensures
        crate::inherit::views(s.push(x)).to_set() == crate::inherit::views(s).to_set().insert(x@),
{
    broadcast use vstd::set::group_set_axioms;
    let a = crate::inherit::views(s.push(x));
    let b = crate::inherit::views(s).to_set().insert(x@);
    assert(a.drop_last() =~= crate::inherit::views(s));
    assert forall|v: Seq<char>| a.to_set().contains(v) == b.contains(v) by {
        if a.to_set().contains(v) {
            let i = choose|i: int| 0 <= i < a.len() && a[i] == v;
            if i < a.len() - 1 {
                assert(crate::inherit::views(s)[i] == v);
                assert(crate::inherit::views(s).contains(v));
            }
        }
        if b.contains(v) {
            if v == x@ {
                assert(a[a.len() - 1] == v);
                assert(a.contains(v));
            } else {
                assert(crate::inherit::views(s).to_set().contains(v));
                let i = choose|i: int| 0 <= i < crate::inherit::views(s).len()
                    && crate::inherit::views(s)[i] == v;
                assert(a[i] == v);
                assert(a.contains(v));
            }
        }
    }
    assert(a.to_set() =~= b);
}

/// The required names seen among the first properties of the declaration
/// order.
pub open spec fn seen_set(
    owner: Seq<char>,
    props: Seq<TypeProperty>,
    inh: Seq<TypeInheritance>,
) -> Set<Seq<char>>
    decreases props.len(),
{
    if props.len() == 0 {
        Set::empty()
    } else {
        let rest = seen_set(owner, props.drop_last(), inh);
        if required_on(owner, props.last(), inh) {
            rest.insert(props.last().prop_name@)
        } else {
            rest
        }
    }
}

proof fn lemma_seen_set_take_step(
    owner: Seq<char>,
    props: Seq<TypeProperty>,
    inh: Seq<TypeInheritance>,
    k: int,
)
    requires
        0 <= k < props.len(),
    ensures
        seen_set(owner, props.take(k + 1), inh) == if required_on(owner, props[k], inh) {
            seen_set(owner, props.take(k), inh).insert(props[k].prop_name@)
        } else {
            seen_set(owner, props.take(k), inh)
        },
{
    assert(props.take(k + 1).drop_last() =~= props.take(k));
    assert(props.take(k + 1).last() == props[k]);
}


/// A generic counter over a sequence.
pub open spec fn count_where<T>(s: Seq<T>, p: spec_fn(T) -> bool) -> nat
    decreases s.len(),
{
    if s.len() == 0 {
        0
    } else {
        count_where(s.drop_last(), p) + if p(s.last()) {
            1nat
        } else {
            0nat
        }
    }
}

proof fn lemma_count_where_take_step<T>(s: Seq<T>, p: spec_fn(T) -> bool, k: int)
    requires
        0 <= k < s.len(),
    ensures
        count_where(s.take(k + 1), p) == count_where(s.take(k), p) + if p(s[k]) {
            1nat
        } else {
            0nat
        },
{
    assert(s.take(k + 1).drop_last() =~= s.take(k));
    assert(s.take(k + 1).last() == s[k]);
}

proof fn lemma_count_where_bound<T>(s: Seq<T>, p: spec_fn(T) -> bool)
    ensures
        count_where(s, p) <= s.len(),
    decreases s.len(),
{
    if s.len() > 0 {
        lemma_count_where_bound(s.drop_last(), p);
    }
}

/// A schema type with the given id exists in the list.
pub open spec fn type_exists(types: Seq<SchemaType>, id: Seq<char>) -> bool {
    exists|i: int| 0 <= i < types.len() && (#[trigger] types[i].id@) == id
}

fn type_exists_exec(types: &Vec<SchemaType>, id: &String) -> (r: bool)
    ensures
        r == type_exists(types@, id@),
{
    let mut i: usize = 0;
    while i < types.len()
        invariant
            i <= types@.len(),
            forall|j: int| 0 <= j < i ==> (#[trigger] types@[j].id@) != id@,
        decreases types@.len() - i,
    {
        if str_eq(types[i].id.as_str(), id.as_str()) {
            proof {
                assert((types@[i as int].id@) == id@);
            }
            return true;
        }
        i += 1;
    }
    false
}

/// A universe with the given id stands in the payload.
pub open spec fn universe_in_payload(universes: Seq<UniverseNode>, id: Seq<char>) -> bool {
    exists|i: int| 0 <= i < universes.len() && (#[trigger] universes[i].id@) == id
}

fn universe_in_payload_exec(universes: &Vec<UniverseNode>, id: &String) -> (r: bool)
    ensures
        r == universe_in_payload(universes@, id@),
{
    let mut i: usize = 0;
    while i < universes.len()
        invariant
            i <= universes@.len(),
            forall|j: int| 0 <= j < i ==> (#[trigger] universes@[j].id@) != id@,
        decreases universes@.len() - i,
    {
        if str_eq(universes[i].id.as_str(), id.as_str()) {
            proof {
                assert((universes@[i as int].id@) == id@);
            }
            return true;
        }
        i += 1;
    }
    false
}

/// The node type recorded for an id by the payload: the last block with a
/// well-formed matching id wins, then the last entity, then any universe
/// (whose type is always `node.universe`).
pub open spec fn last_block_type(blocks: Seq<BlockNode>, id: Seq<char>) -> Option<Seq<char>>
    decreases blocks.len(),
{
    if blocks.len() == 0 {
        Option::None
    } else if is_uuid_seq(blocks.last().id@) && blocks.last().id@ == id {
        Option::Some(blocks.last().type_id@)
    } else {
        last_block_type(blocks.drop_last(), id)
    }
}

pub open spec fn last_entity_type(entities: Seq<EntityNode>, id: Seq<char>) -> Option<Seq<char>>
    decreases entities.len(),
{
    if entities.len() == 0 {
        Option::None
    } else if is_uuid_seq(entities.last().id@) && entities.last().id@ == id {
        Option::Some(entities.last().type_id@)
    } else {
        last_entity_type(entities.drop_last(), id)
    }
}

pub open spec fn universe_with_valid_id(universes: Seq<UniverseNode>, id: Seq<char>) -> bool {
    exists|i: int|
        0 <= i < universes.len() && is_uuid_seq(#[trigger] universes[i].id@) && universes[i].id@
            == id
}

pub open spec fn node_type_of(delta: GraphDelta, id: Seq<char>) -> Option<Seq<char>> {
    match last_block_type(delta.blocks@, id) {
        Option::Some(t) => Option::Some(t),
        Option::None => match last_entity_type(delta.entities@, id) {
            Option::Some(t) => Option::Some(t),
            Option::None => if universe_with_valid_id(delta.universes@, id) {
                Option::Some("node.universe"@)
            } else {
                Option::None
            },
        },
    }
}

fn last_block_type_exec(blocks: &Vec<BlockNode>, id: &String) -> (r: Option<String>)
    ensures
        match r {
            Option::Some(t) => last_block_type(blocks@, id@) == Option::Some(t@),
            Option::None => last_block_type(blocks@, id@) is None,
        },
{
    let mut i: usize = blocks.len();
    proof {
        assert(blocks@.take(blocks@.len() as int) =~= blocks@);
    }
    while i > 0
        invariant
            i <= blocks@.len(),
            last_block_type(blocks@, id@) == last_block_type(blocks@.take(i as int), id@),
        decreases i,
    {
        i -= 1;
        proof {
            assert(blocks@.take(i + 1).last() == blocks@[i as int]);
            assert(blocks@.take(i + 1).drop_last() =~= blocks@.take(i as int));
        }
        if is_valid_uuid(blocks[i].id.as_str()) && str_eq(blocks[i].id.as_str(), id.as_str()) {
            return Some(blocks[i].type_id.clone());
        }
    }
    proof {
        assert(blocks@.take(0int) =~= Seq::<BlockNode>::empty());
    }
    None
}

fn last_entity_type_exec(entities: &Vec<EntityNode>, id: &String) -> (r: Option<String>)
    ensures
        match r {
            Option::Some(t) => last_entity_type(entities@, id@) == Option::Some(t@),
            Option::None => last_entity_type(entities@, id@) is None,
        },
{
    let mut i: usize = entities.len();
    proof {
        assert(entities@.take(entities@.len() as int) =~= entities@);
    }
    while i > 0
        invariant
            i <= entities@.len(),
            last_entity_type(entities@, id@) == last_entity_type(entities@.take(i as int), id@),
        decreases i,
    {
        i -= 1;
        proof {
            assert(entities@.take(i + 1).last() == entities@[i as int]);
            assert(entities@.take(i + 1).drop_last() =~= entities@.take(i as int));
        }
        if is_valid_uuid(entities[i].id.as_str()) && str_eq(entities[i].id.as_str(), id.as_str()) {
            return Some(entities[i].type_id.clone());
        }
    }
    proof {
        assert(entities@.take(0int) =~= Seq::<EntityNode>::empty());
    }
    None
}

fn node_type_of_exec(delta: &GraphDelta, id: &String) -> (r: Option<String>)
    ensures
        match r {
            Option::Some(t) => node_type_of(*delta, id@) == Option::Some(t@),
            Option::None => node_type_of(*delta, id@) is None,
        },
{
    let b = last_block_type_exec(&delta.blocks, id);
    if let Some(t) = b {
        return Some(t);
    }
    let e = last_entity_type_exec(&delta.entities, id);
    if let Some(t) = e {
        return Some(t);
    }
    let mut i: usize = 0;
    while i < delta.universes.len()
        invariant
            i <= delta.universes@.len(),
            last_block_type(delta.blocks@, id@) is None,
            last_entity_type(delta.entities@, id@) is None,
            forall|j: int|
                0 <= j < i ==> !(is_uuid_seq(#[trigger] delta.universes@[j].id@)
                    && delta.universes@[j].id@ == id@),
        decreases delta.universes@.len() - i,
    {
        if is_valid_uuid(delta.universes[i].id.as_str()) && str_eq(
            delta.universes[i].id.as_str(),
            id.as_str(),
        ) {
            proof {
                assert(is_uuid_seq(delta.universes@[i as int].id@) && delta.universes@[i as int].id@
                    == id@);
            }
            proof {
                assert(node_type_of(*delta, id@) == Option::Some("node.universe"@));
            }
            return Some("node.universe".to_owned());
        }
        i += 1;
    }
    None
}

/// Some active endpoint rule admits the edge between the two node types
/// under the inheritance relation.
pub open spec fn rule_admits(
    rules: Seq<crate::domain::EdgeEndpointRule>,
    inh: Seq<TypeInheritance>,
    edge_type_id: Seq<char>,
    from_type: Seq<char>,
    to_type: Seq<char>,
) -> bool {
    exists|i: int|
        0 <= i < rules.len() && (#[trigger] rules[i].edge_type_id@) == edge_type_id
            && type_descends(inh, from_type, rules[i].from_node_type_id@) && type_descends(
            inh,
            to_type,
            rules[i].to_node_type_id@,
        )
}

fn rule_admits_exec(
    rules: &Vec<crate::domain::EdgeEndpointRule>,
    inh: &Vec<TypeInheritance>,
    edge_type_id: &String,
    from_type: &String,
    to_type: &String,
) -> (r: bool)
    ensures
        r == rule_admits(rules@, inh@, edge_type_id@, from_type@, to_type@),
{
    let mut i: usize = 0;
    while i < rules.len()
        invariant
            i <= rules@.len(),
            forall|j: int|
                0 <= j < i ==> !((#[trigger] rules@[j].edge_type_id@) == edge_type_id@
                    && type_descends(inh@, from_type@, rules@[j].from_node_type_id@)
                    && type_descends(inh@, to_type@, rules@[j].to_node_type_id@)),
        decreases rules@.len() - i,
    {
        if str_eq(rules[i].edge_type_id.as_str(), edge_type_id.as_str()) {
            if crate::inherit::is_assignable(from_type, &rules[i].from_node_type_id, inh) {
                if crate::inherit::is_assignable(to_type, &rules[i].to_node_type_id, inh) {
                    proof {
                        assert((rules@[i as int].edge_type_id@) == edge_type_id@);
                    }
                    return true;
                }
            }
        }
        i += 1;
    }
    false
}

/// Issues of one universe: id syntax, then a non-blank name.
pub open spec fn spec_universe_issues(u: UniverseNode) -> Seq<IssueSpec> {
    let idi = spec_id_issues("universe"@, u.id@);
    if idi.len() > 0 {
        idi
    } else if is_blank_seq(u.name@) {
        seq![IssueSpec::UniverseNameRequired { universe_id: u.id@ }]
    } else {
        Seq::empty()
    }
}

fn universe_issues_exec(u: &UniverseNode) -> (r: Vec<ValidationIssue>)
    ensures
        issue_views(r@) == spec_universe_issues(*u),
{
    let mut out = id_issues_exec("universe", &u.id);
    if out.len() > 0 {
        return out;
    }
    if is_blank(u.name.as_str()) {
        out.push(ValidationIssue::UniverseNameRequired { universe_id: u.id.clone() });
        proof {
            assert(issue_views(out@) =~= spec_universe_issues(*u));
        }
        return out;
    }
    proof {
        assert(issue_views(out@) =~= spec_universe_issues(*u));
    }
    out
}

/// Issues of one entity: id syntax gates everything else; then the
/// universe reference, type conformance, and property conformance.
pub open spec fn spec_entity_issues(
    e: EntityNode,
    universes: Seq<UniverseNode>,
    snap: SchemaSnapshot,
) -> Seq<IssueSpec> {
    let idi = spec_id_issues("entity"@, e.id@);
    if idi.len() > 0 {
        idi
    } else {
        let uni = match e.universe_id {
            Option::Some(u) => if universe_in_payload(universes, u@) || u@
                == common_universe_id_seq() {
                Seq::empty()
            } else {
                seq![IssueSpec::UnknownUniverse { entity_id: e.id@, universe_id: u@ }]
            },
            Option::None => Seq::empty(),
        };
        let typ = if !type_exists(snap.node_types@, e.type_id@) {
            seq![IssueSpec::EntityUnknownType { entity_id: e.id@, type_id: e.type_id@ }]
        } else if !type_descends(snap.inheritance@, e.type_id@, "node.entity"@) {
            seq![IssueSpec::EntityNotEntitySubtype { entity_id: e.id@, type_id: e.type_id@ }]
        } else {
            Seq::empty()
        };
        uni + typ + spec_property_issues(
            e.id@,
            e.type_id@,
            e.properties@,
            snap.properties@,
            snap.inheritance@,
        )
    }
}

fn entity_issues_exec(e: &EntityNode, universes: &Vec<UniverseNode>, snap: &SchemaSnapshot) -> (r:
    Vec<ValidationIssue>)
    ensures
        issue_views(r@) == spec_entity_issues(*e, universes@, *snap),
{
    let mut out = id_issues_exec("entity", &e.id);
    if out.len() > 0 {
        return out;
    }
    if let Some(u) = &e.universe_id {
        let known = universe_in_payload_exec(universes, u);
        let common = str_eq(u.as_str(), "9d7f0fa5-78c1-4805-9efb-3f8f16090d7f");
        if !known && !common {
            out.push(
                ValidationIssue::UnknownUniverse { entity_id: e.id.clone(), universe_id: u.clone() },
            );
        }
    }
    let root = "node.entity".to_owned();
    if !type_exists_exec(&snap.node_types, &e.type_id) {
        out.push(
            ValidationIssue::EntityUnknownType {
                entity_id: e.id.clone(),
                type_id: e.type_id.clone(),
            },
        );
    } else if !crate::inherit::is_assignable(&e.type_id, &root, &snap.inheritance) {
        out.push(
            ValidationIssue::EntityNotEntitySubtype {
                entity_id: e.id.clone(),
                type_id: e.type_id.clone(),
            },
        );
    }
    let mut props = validate_properties(
        &e.id,
        &e.type_id,
        &e.properties,
        &snap.properties,
        &snap.inheritance,
    );
    let ghost out_pre = out@;
    let ghost props_pre = props@;
    out.append(&mut props);
    proof {
        assert(issue_views(out@) =~= issue_views(out_pre) + issue_views(props_pre));
        assert(issue_views(out@) =~= spec_entity_issues(*e, universes@, *snap));
    }
    out
}

/// Issues of one block: id syntax gates the rest; then type conformance
/// and property conformance.
pub open spec fn spec_block_issues(b: BlockNode, snap: SchemaSnapshot) -> Seq<IssueSpec> {
    let idi = spec_id_issues("block"@, b.id@);
    if idi.len() > 0 {
        idi
    } else {
        let typ = if !type_exists(snap.node_types@, b.type_id@) {
            seq![IssueSpec::BlockUnknownType { block_id: b.id@, type_id: b.type_id@ }]
        } else if !type_descends(snap.inheritance@, b.type_id@, "node.block"@) {
            seq![IssueSpec::BlockNotBlockSubtype { block_id: b.id@, type_id: b.type_id@ }]
        } else {
            Seq::empty()
        };
        typ + spec_property_issues(
            b.id@,
            b.type_id@,
            b.properties@,
            snap.properties@,
            snap.inheritance@,
        )
    }
}

fn block_issues_exec(b: &BlockNode, snap: &SchemaSnapshot) -> (r: Vec<ValidationIssue>)
    ensures
        issue_views(r@) == spec_block_issues(*b, *snap),
{
    let mut out = id_issues_exec("block", &b.id);
    if out.len() > 0 {
        return out;
    }
    let root = "node.block".to_owned();
    if !type_exists_exec(&snap.node_types, &b.type_id) {
        out.push(
            ValidationIssue::BlockUnknownType { block_id: b.id.clone(), type_id: b.type_id.clone() },
        );
    } else if !crate::inherit::is_assignable(&b.type_id, &root, &snap.inheritance) {
        out.push(
            ValidationIssue::BlockNotBlockSubtype {
                block_id: b.id.clone(),
                type_id: b.type_id.clone(),
            },
        );
    }
    let mut props = validate_properties(
        &b.id,
        &b.type_id,
        &b.properties,
        &snap.properties,
        &snap.inheritance,
    );
    let ghost out_pre = out@;
    let ghost props_pre = props@;
    out.append(&mut props);
    proof {
        assert(issue_views(out@) =~= issue_views(out_pre) + issue_views(props_pre));
        assert(issue_views(out@) =~= spec_block_issues(*b, *snap));
    }
    out
}

/// The subject string a property issue of an edge carries:
/// `TYPE:from->to`.
pub open spec fn edge_subject(e: GraphEdge) -> Seq<char> {
    e.edge_type@ + seq![':'] + e.from_id@ + seq!['-', '>'] + e.to_id@
}

fn edge_subject_exec(e: &GraphEdge) -> (r: String)
    ensures
        r@ == edge_subject(*e),
{
    let mut s = e.edge_type.clone();
    push_char(&mut s, ':');
    append_str(&mut s, e.from_id.as_str());
    push_char(&mut s, '-');
    push_char(&mut s, '>');
    append_str(&mut s, e.to_id.as_str());
    proof {
        assert(s@ =~= edge_subject(*e));
    }
    s
}

/// The endpoint-rule issue of an edge, when both endpoint types are known
/// from the payload: a rule must admit the pair unless either endpoint is
/// a universe.
pub open spec fn spec_endpoint_issues(e: GraphEdge, delta: GraphDelta, snap: SchemaSnapshot) -> Seq<
    IssueSpec,
> {
    match (node_type_of(delta, e.from_id@), node_type_of(delta, e.to_id@)) {
        (Option::Some(ft), Option::Some(tt)) => {
            let involves = ft == "node.universe"@ || tt == "node.universe"@;
            if involves || rule_admits(
                snap.edge_rules@,
                snap.inheritance@,
                edge_schema_id(e.edge_type@),
                ft,
                tt,
            ) {
                Seq::empty()
            } else {
                seq![
                    IssueSpec::EndpointRuleViolation {
                        edge_type: e.edge_type@,
                        edge_type_id: edge_schema_id(e.edge_type@),
                        from_type: ft,
                        to_type: tt,
                    },
                ]
            }
        },
        _ => Seq::empty(),
    }
}

/// Issues of one edge: endpoint id syntax, the edge-type name syntax, the
/// mapped schema type's existence (which gates the rest), then property
/// conformance and the endpoint rules.
pub open spec fn spec_edge_issues(e: GraphEdge, delta: GraphDelta, snap: SchemaSnapshot) -> Seq<
    IssueSpec,
> {
    let idf = spec_id_issues("edge.from_id"@, e.from_id@);
    let idt = spec_id_issues("edge.to_id"@, e.to_id@);
    let fmt = if !is_edge_type_seq(e.edge_type@) {
        seq![
            IssueSpec::MalformedEdgeType {
                from_id: e.from_id@,
                to_id: e.to_id@,
                edge_type: e.edge_type@,
            },
        ]
    } else {
        Seq::empty()
    };
    let rest = if !type_exists(snap.edge_types@, edge_schema_id(e.edge_type@)) {
        seq![
            IssueSpec::UnknownEdgeType {
                from_id: e.from_id@,
                to_id: e.to_id@,
                edge_type: e.edge_type@,
            },
        ]
    } else {
        spec_property_issues(
            edge_subject(e),
            edge_schema_id(e.edge_type@),
            e.properties@,
            snap.properties@,
            snap.inheritance@,
        ) + spec_endpoint_issues(e, delta, snap)
    };
    idf + idt + fmt + rest
}

fn edge_issues_exec(e: &GraphEdge, delta: &GraphDelta, snap: &SchemaSnapshot) -> (r: Vec<
    ValidationIssue,
>)
    ensures
        issue_views(r@) == spec_edge_issues(*e, *delta, *snap),
{
    let mut out = id_issues_exec("edge.from_id", &e.from_id);
    let mut idt = id_issues_exec("edge.to_id", &e.to_id);
    let ghost idf_pre = out@;
    let ghost idt_pre = idt@;
    out.append(&mut idt);
    proof {
        assert(issue_views(out@) =~= issue_views(idf_pre) + issue_views(idt_pre));
    }
    if !is_valid_edge_type_str(e.edge_type.as_str()) {
        out.push(
            ValidationIssue::MalformedEdgeType {
                from_id: e.from_id.clone(),
                to_id: e.to_id.clone(),
                edge_type: e.edge_type.clone(),
            },
        );
    }
    let ghost head = issue_views(out@);
    proof {
        assert(head =~= spec_id_issues("edge.from_id"@, e.from_id@) + spec_id_issues(
            "edge.to_id"@,
            e.to_id@,
        ) + (if !is_edge_type_seq(e.edge_type@) {
            seq![
                IssueSpec::MalformedEdgeType {
                    from_id: e.from_id@,
                    to_id: e.to_id@,
                    edge_type: e.edge_type@,
                },
            ]
        } else {
            Seq::<IssueSpec>::empty()
        }));
    }
    let etid = edge_schema_id_exec(&e.edge_type);
    if !type_exists_exec(&snap.edge_types, &etid) {
        out.push(
            ValidationIssue::UnknownEdgeType {
                from_id: e.from_id.clone(),
                to_id: e.to_id.clone(),
                edge_type: e.edge_type.clone(),
            },
        );
        proof {
            assert(issue_views(out@) =~= spec_edge_issues(*e, *delta, *snap));
        }
        return out;
    }
    let subject = edge_subject_exec(e);
    let mut props = validate_properties(
        &subject,
        &etid,
        &e.properties,
        &snap.properties,
        &snap.inheritance,
    );
    let ghost out_pre = out@;
    let ghost props_pre = props@;
    out.append(&mut props);
    proof {
        assert(issue_views(out@) =~= issue_views(out_pre) + issue_views(props_pre));
    }
    let ft = node_type_of_exec(delta, &e.from_id);
    let tt = node_type_of_exec(delta, &e.to_id);
    match (ft, tt) {
        (Some(ftv), Some(ttv)) => {
            let involves = str_eq(ftv.as_str(), "node.universe") || str_eq(
                ttv.as_str(),
                "node.universe",
            );
            let admitted = involves || rule_admits_exec(
                &snap.edge_rules,
                &snap.inheritance,
                &etid,
                &ftv,
                &ttv,
            );
            if !admitted {
                out.push(
                    ValidationIssue::EndpointRuleViolation {
                        edge_type: e.edge_type.clone(),
                        edge_type_id: etid,
                        from_type: ftv,
                        to_type: ttv,
                    },
                );
            }
        },
        _ => {},
    }
    proof {
        assert(issue_views(out@) =~= spec_edge_issues(*e, *delta, *snap));
    }
    out
}


/// No element of the sequence satisfies the predicate exactly when the
/// count is zero.
proof fn lemma_count_zero<T>(s: Seq<T>, p: spec_fn(T) -> bool)
    ensures
        (count_where(s, p) == 0) <==> (forall|i: int| 0 <= i < s.len() ==> !p(#[trigger] s[i])),
    decreases s.len(),
{
    if s.len() > 0 {
        lemma_count_zero(s.drop_last(), p);
        assert forall|i: int| 0 <= i < s.len() - 1 implies s.drop_last()[i] == s[i] by {}
        if count_where(s, p) == 0 {
            assert forall|i: int| 0 <= i < s.len() implies !p(#[trigger] s[i]) by {
                if i < s.len() - 1 {
                    assert(s.drop_last()[i] == s[i]);
                } else {
                    assert(s.last() == s[i]);
                }
            }
        }
    }
}

/// The universe an entity's membership edge points to: the one it names,
/// or the designated common universe.
pub open spec fn target_universe(e: EntityNode) -> Seq<char> {
    match e.universe_id {
        Option::Some(u) => u@,
        Option::None => common_universe_id_seq(),
    }
}

/// Payload relationships incident to an id: explicit edges in either
/// direction plus the implicit membership edge of every entity.
pub open spec fn incident_payload(delta: GraphDelta, id: Seq<char>) -> nat {
    count_where(delta.edges@, |e: GraphEdge| e.to_id@ == id) + count_where(
        delta.edges@,
        |e: GraphEdge| e.from_id@ == id,
    ) + count_where(delta.entities@, |e: EntityNode| e.id@ == id) + count_where(
        delta.entities@,
        |e: EntityNode| target_universe(e) == id,
    )
}

/// Payload membership edges leaving an id: explicit `IS_PART_OF` edges
/// plus the implicit one of every entity with that id.
pub open spec fn part_of_payload(delta: GraphDelta, id: Seq<char>) -> nat {
    count_where(
        delta.edges@,
        |e: GraphEdge| eq_ic(e.edge_type@, "IS_PART_OF"@) && e.from_id@ == id,
    ) + count_where(delta.entities@, |e: EntityNode| e.id@ == id)
}

/// Payload structural edges entering a block id.
pub open spec fn block_parents_payload(delta: GraphDelta, id: Seq<char>) -> nat {
    count_where(
        delta.edges@,
        |e: GraphEdge| (eq_ic(e.edge_type@, "DESCRIBED_BY"@) || eq_ic(e.edge_type@, "SUMMARIZES"@))
            && e.to_id@ == id,
    )
}

/// The counts the graph store reported for an id; zero when it reported
/// none.
pub open spec fn spec_counts_for(
    counts: Seq<(String, NodeRelationshipCounts)>,
    id: Seq<char>,
) -> NodeRelationshipCounts
    decreases counts.len(),
{
    if counts.len() == 0 {
        NodeRelationshipCounts { total: 0, entity_is_part_of: 0, block_parent_edges: 0 }
    } else if counts[0].0@ == id {
        counts[0].1
    } else {
        spec_counts_for(counts.drop_first(), id)
    }
}

fn counts_for_exec(counts: &Vec<(String, NodeRelationshipCounts)>, id: &String) -> (r:
    NodeRelationshipCounts)
    ensures
        r == spec_counts_for(counts@, id@),
{
    let mut i: usize = 0;
    proof {
        assert(counts@.skip(0int) =~= counts@);
    }
    while i < counts.len()
        invariant
            i <= counts@.len(),
            spec_counts_for(counts@, id@) == spec_counts_for(counts@.skip(i as int), id@),
        decreases counts@.len() - i,
    {
        proof {
            assert(counts@.skip(i as int)[0] == counts@[i as int]);
            assert(counts@.skip(i as int).drop_first() =~= counts@.skip(i + 1));
        }
        if str_eq(counts[i].0.as_str(), id.as_str()) {
            return counts[i].1;
        }
        i += 1;
    }
    proof {
        assert(counts@.skip(counts@.len() as int) =~= Seq::<(String, NodeRelationshipCounts)>::empty());
    }
    NodeRelationshipCounts { total: 0, entity_is_part_of: 0, block_parent_edges: 0 }
}

/// Whether the payload holds no relationship incident to the id.
fn incident_payload_zero(delta: &GraphDelta, id: &String) -> (r: bool)
    ensures
        r == (incident_payload(*delta, id@) == 0),
{
    let ghost p1 = |e: GraphEdge| e.to_id@ == id@;
    let ghost p2 = |e: GraphEdge| e.from_id@ == id@;
    let ghost p3 = |e: EntityNode| e.id@ == id@;
    let ghost p4 = |e: EntityNode| target_universe(e) == id@;
    let mut i: usize = 0;
    while i < delta.edges.len()
        invariant
            p1 == (|e: GraphEdge| e.to_id@ == id@),
            p2 == (|e: GraphEdge| e.from_id@ == id@),
            i <= delta.edges@.len(),
            forall|j: int| 0 <= j < i ==> !p1(#[trigger] delta.edges@[j]) && !p2(delta.edges@[j]),
        decreases delta.edges@.len() - i,
    {
        if str_eq(delta.edges[i].to_id.as_str(), id.as_str()) || str_eq(
            delta.edges[i].from_id.as_str(),
            id.as_str(),
        ) {
            proof {
                lemma_count_zero(delta.edges@, p1);
                lemma_count_zero(delta.edges@, p2);
            }
            return false;
        }
        i += 1;
    }
    let mut k: usize = 0;
    while k < delta.entities.len()
        invariant
            p3 == (|e: EntityNode| e.id@ == id@),
            p4 == (|e: EntityNode| target_universe(e) == id@),
            k <= delta.entities@.len(),
            forall|j: int|
                0 <= j < k ==> !p3(#[trigger] delta.entities@[j]) && !p4(delta.entities@[j]),
        decreases delta.entities@.len() - k,
    {
        let ent = &delta.entities[k];
        if str_eq(ent.id.as_str(), id.as_str()) {
            proof {
                lemma_count_zero(delta.entities@, p3);
            }
            return false;
        }
        let hits = match &ent.universe_id {
            Some(u) => str_eq(u.as_str(), id.as_str()),
            None => str_eq("9d7f0fa5-78c1-4805-9efb-3f8f16090d7f", id.as_str()),
        };
        if hits {
            proof {
                lemma_count_zero(delta.entities@, p4);
            }
            return false;
        }
        k += 1;
    }
    proof {
        lemma_count_zero(delta.edges@, p1);
        lemma_count_zero(delta.edges@, p2);
        lemma_count_zero(delta.entities@, p3);
        lemma_count_zero(delta.entities@, p4);
    }
    true
}

/// Whether the payload holds no membership edge leaving the id.
fn part_of_payload_zero(delta: &GraphDelta, id: &String) -> (r: bool)
    ensures
        r == (part_of_payload(*delta, id@) == 0),
{
    let ghost p1 = |e: GraphEdge| eq_ic(e.edge_type@, "IS_PART_OF"@) && e.from_id@ == id@;
    let ghost p3 = |e: EntityNode| e.id@ == id@;
    let mut i: usize = 0;
    while i < delta.edges.len()
        invariant
            p1 == (|e: GraphEdge| eq_ic(e.edge_type@, "IS_PART_OF"@) && e.from_id@ == id@),
            i <= delta.edges@.len(),
            forall|j: int| 0 <= j < i ==> !p1(#[trigger] delta.edges@[j]),
        decreases delta.edges@.len() - i,
    {
        if eq_ignore_case_str(delta.edges[i].edge_type.as_str(), "IS_PART_OF") && str_eq(
            delta.edges[i].from_id.as_str(),
            id.as_str(),
        ) {
            proof {
                lemma_count_zero(delta.edges@, p1);
            }
            return false;
        }
        i += 1;
    }
    let mut k: usize = 0;
    while k < delta.entities.len()
        invariant
            p3 == (|e: EntityNode| e.id@ == id@),
            k <= delta.entities@.len(),
            forall|j: int| 0 <= j < k ==> !p3(#[trigger] delta.entities@[j]),
        decreases delta.entities@.len() - k,
    {
        if str_eq(delta.entities[k].id.as_str(), id.as_str()) {
            proof {
                lemma_count_zero(delta.entities@, p3);
            }
            return false;
        }
        k += 1;
    }
    proof {
        lemma_count_zero(delta.edges@, p1);
        lemma_count_zero(delta.entities@, p3);
    }
    true
}

/// Counts the payload's structural edges entering a block id.
fn block_parents_payload_count(delta: &GraphDelta, id: &String) -> (r: usize)
    ensures
        r == block_parents_payload(*delta, id@),
{
    let ghost p = |e: GraphEdge| (eq_ic(e.edge_type@, "DESCRIBED_BY"@) || eq_ic(
        e.edge_type@,
        "SUMMARIZES"@,
    )) && e.to_id@ == id@;
    let mut count: usize = 0;
    let mut i: usize = 0;
    proof {
        assert(delta.edges@.take(0int) =~= Seq::<GraphEdge>::empty());
        lemma_count_where_bound(delta.edges@, p);
    }
    while i < delta.edges.len()
        invariant
            p == (|e: GraphEdge| (eq_ic(e.edge_type@, "DESCRIBED_BY"@) || eq_ic(
                e.edge_type@,
                "SUMMARIZES"@,
            )) && e.to_id@ == id@),
            i <= delta.edges@.len(),
            count == count_where(delta.edges@.take(i as int), p),
            count <= i,
        decreases delta.edges@.len() - i,
    {
        let e = &delta.edges[i];
        let matches_kind = eq_ignore_case_str(e.edge_type.as_str(), "DESCRIBED_BY")
            || eq_ignore_case_str(e.edge_type.as_str(), "SUMMARIZES");
        proof {
            lemma_count_where_take_step(delta.edges@, p, i as int);
        }
        if matches_kind && str_eq(e.to_id.as_str(), id.as_str()) {
            count += 1;
        }
        i += 1;
    }
    proof {
        assert(delta.edges@.take(delta.edges@.len() as int) =~= delta.edges@);
    }
    count
}

/// The topology issue of one universe: it must touch at least one
/// relationship, in the payload or already in the graph.
pub open spec fn spec_universe_topology(
    u: UniverseNode,
    delta: GraphDelta,
    counts: Seq<(String, NodeRelationshipCounts)>,
) -> Seq<IssueSpec> {
    let c = spec_counts_for(counts, u.id@);
    if c.total == 0 && incident_payload(delta, u.id@) == 0 {
        seq![IssueSpec::UniverseNoRelationship { universe_id: u.id@ }]
    } else {
        Seq::empty()
    }
}

/// The topology issues of one entity: at least one relationship, and at
/// least one membership edge to a universe.
pub open spec fn spec_entity_topology(
    e: EntityNode,
    delta: GraphDelta,
    counts: Seq<(String, NodeRelationshipCounts)>,
) -> Seq<IssueSpec> {
    let c = spec_counts_for(counts, e.id@);
    (if c.total == 0 && incident_payload(delta, e.id@) == 0 {
        seq![IssueSpec::EntityNoRelationship { entity_id: e.id@ }]
    } else {
        Seq::empty()
    }) + (if c.entity_is_part_of == 0 && part_of_payload(delta, e.id@) == 0 {
        seq![IssueSpec::EntityNoIsPartOf { entity_id: e.id@ }]
    } else {
        Seq::empty()
    })
}

/// The topology issues of one block: at least one relationship, and
/// exactly one incoming structural edge over payload and graph together.
pub open spec fn spec_block_topology(
    b: BlockNode,
    delta: GraphDelta,
    counts: Seq<(String, NodeRelationshipCounts)>,
) -> Seq<IssueSpec> {
    let c = spec_counts_for(counts, b.id@);
    (if c.total == 0 && incident_payload(delta, b.id@) == 0 {
        seq![IssueSpec::BlockNoRelationship { block_id: b.id@ }]
    } else {
        Seq::empty()
    }) + (if c.block_parent_edges + block_parents_payload(delta, b.id@) != 1 {
        seq![IssueSpec::BlockParentCount { block_id: b.id@ }]
    } else {
        Seq::empty()
    })
}

fn universe_topology_exec(
    u: &UniverseNode,
    delta: &GraphDelta,
    counts: &Vec<(String, NodeRelationshipCounts)>,
) -> (r: Vec<ValidationIssue>)
    ensures
        issue_views(r@) == spec_universe_topology(*u, *delta, counts@),
{
    let c = counts_for_exec(counts, &u.id);
    let mut out: Vec<ValidationIssue> = Vec::new();
    if c.total == 0 && incident_payload_zero(delta, &u.id) {
        out.push(ValidationIssue::UniverseNoRelationship { universe_id: u.id.clone() });
    }
    proof {
        assert(issue_views(out@) =~= spec_universe_topology(*u, *delta, counts@));
    }
    out
}

fn entity_topology_exec(
    e: &EntityNode,
    delta: &GraphDelta,
    counts: &Vec<(String, NodeRelationshipCounts)>,
) -> (r: Vec<ValidationIssue>)
    ensures
        issue_views(r@) == spec_entity_topology(*e, *delta, counts@),
{
    let c = counts_for_exec(counts, &e.id);
    let mut out: Vec<ValidationIssue> = Vec::new();
    if c.total == 0 && incident_payload_zero(delta, &e.id) {
        out.push(ValidationIssue::EntityNoRelationship { entity_id: e.id.clone() });
    }
    if c.entity_is_part_of == 0 && part_of_payload_zero(delta, &e.id) {
        out.push(ValidationIssue::EntityNoIsPartOf { entity_id: e.id.clone() });
    }
    proof {
        assert(issue_views(out@) =~= spec_entity_topology(*e, *delta, counts@));
    }
    out
}

fn block_topology_exec(
    b: &BlockNode,
    delta: &GraphDelta,
    counts: &Vec<(String, NodeRelationshipCounts)>,
) -> (r: Vec<ValidationIssue>)
    ensures
        issue_views(r@) == spec_block_topology(*b, *delta, counts@),
{
    let c = counts_for_exec(counts, &b.id);
    let mut out: Vec<ValidationIssue> = Vec::new();
    if c.total == 0 && incident_payload_zero(delta, &b.id) {
        out.push(ValidationIssue::BlockNoRelationship { block_id: b.id.clone() });
    }
    let payload_parents = block_parents_payload_count(delta, &b.id);
    let total_parents: u128 = c.block_parent_edges as u128 + payload_parents as u128;
    if total_parents != 1 {
        out.push(ValidationIssue::BlockParentCount { block_id: b.id.clone() });
    }
    proof {
        assert(issue_views(out@) =~= spec_block_topology(*b, *delta, counts@));
    }
    out
}

/// Every issue a delta draws from the rules, in a fixed order: per-element
/// checks first (universes, entities, blocks, edges), then the topology
/// checks against the union of payload and existing graph state.
pub open spec fn spec_validate(
    delta: GraphDelta,
    snap: SchemaSnapshot,
    counts: Seq<(String, NodeRelationshipCounts)>,
) -> Seq<IssueSpec> {
    delta.universes@.flat_map(|u: UniverseNode| spec_universe_issues(u)) + delta.entities@.flat_map(
        |e: EntityNode| spec_entity_issues(e, delta.universes@, snap),
    ) + delta.blocks@.flat_map(|b: BlockNode| spec_block_issues(b, snap)) + delta.edges@.flat_map(
        |e: GraphEdge| spec_edge_issues(e, delta, snap),
    ) + delta.universes@.flat_map(|u: UniverseNode| spec_universe_topology(u, delta, counts))
        + delta.entities@.flat_map(|e: EntityNode| spec_entity_topology(e, delta, counts))
        + delta.blocks@.flat_map(|b: BlockNode| spec_block_topology(b, delta, counts))
}

/// The aggregate outcome of a failed validation: one issue per violated
/// rule and subject.
#[derive(Debug)]
pub struct ValidationReport {
    pub issues: Vec<ValidationIssue>,
}

/// Validates a delta against a schema snapshot and the graph store's
/// relationship counts.  Acceptance means not a single rule fired; a
/// report carries exactly the issues of `spec_validate`, in order.
pub fn validate_delta(
    delta: &GraphDelta,
    snapshot: &SchemaSnapshot,
    counts: &Vec<(String, NodeRelationshipCounts)>,
) -> (r: Result<(), ValidationReport>)
    ensures
        match r {
            Ok(_) => spec_validate(*delta, *snapshot, counts@).len() == 0,
            Err(rep) => issue_views(rep.issues@) == spec_validate(*delta, *snapshot, counts@)
                && rep.issues@.len() > 0,
        },
{
    let ghost d = *delta;
    let ghost sn = *snapshot;
    let ghost cv = counts@;
    let ghost f1 = |u: UniverseNode| spec_universe_issues(u);
    let ghost f2 = |e: EntityNode| spec_entity_issues(e, d.universes@, sn);
    let ghost f3 = |b: BlockNode| spec_block_issues(b, sn);
    let ghost f4 = |e: GraphEdge| spec_edge_issues(e, d, sn);
    let ghost f5 = |u: UniverseNode| spec_universe_topology(u, d, cv);
    let ghost f6 = |e: EntityNode| spec_entity_topology(e, d, cv);
    let ghost f7 = |b: BlockNode| spec_block_topology(b, d, cv);
    let mut issues: Vec<ValidationIssue> = Vec::new();

    let mut i: usize = 0;
    proof {
        assert(d.universes@.take(0int).flat_map(f1) =~= Seq::<IssueSpec>::empty());
    }
    while i < delta.universes.len()
        invariant
            d == *delta && sn == *snapshot && cv == counts@,
            f1 == (|u: UniverseNode| spec_universe_issues(u)),
            i <= d.universes@.len(),
            issue_views(issues@) =~= d.universes@.take(i as int).flat_map(f1),
        decreases d.universes@.len() - i,
    {
        let mut part = universe_issues_exec(&delta.universes[i]);
        let ghost pre = issues@;
        let ghost partv = part@;
        issues.append(&mut part);
        proof {
            d.universes@.lemma_flat_map_take_append(f1, i as int);
            assert(issue_views(issues@) =~= issue_views(pre) + issue_views(partv));
        }
        i += 1;
    }
    let ghost acc1 = issue_views(issues@);
    proof {
        assert(d.universes@.take(d.universes@.len() as int) =~= d.universes@);
        assert(acc1 =~= d.universes@.flat_map(f1));
    }

    let mut i2: usize = 0;
    proof {
        assert(d.entities@.take(0int).flat_map(f2) =~= Seq::<IssueSpec>::empty());
    }
    while i2 < delta.entities.len()
        invariant
            d == *delta && sn == *snapshot && cv == counts@,
            f2 == (|e: EntityNode| spec_entity_issues(e, d.universes@, sn)),
            acc1 == d.universes@.flat_map(|u: UniverseNode| spec_universe_issues(u)),
            i2 <= d.entities@.len(),
            issue_views(issues@) =~= acc1 + d.entities@.take(i2 as int).flat_map(f2),
        decreases d.entities@.len() - i2,
    {
        let mut part = entity_issues_exec(&delta.entities[i2], &delta.universes, snapshot);
        let ghost pre = issues@;
        let ghost partv = part@;
        issues.append(&mut part);
        proof {
            d.entities@.lemma_flat_map_take_append(f2, i2 as int);
            assert(issue_views(issues@) =~= issue_views(pre) + issue_views(partv));
        }
        i2 += 1;
    }
    let ghost acc2 = issue_views(issues@);
    proof {
        assert(d.entities@.take(d.entities@.len() as int) =~= d.entities@);
        assert(acc2 =~= acc1 + d.entities@.flat_map(f2));
    }

    let mut i3: usize = 0;
    proof {
        assert(d.blocks@.take(0int).flat_map(f3) =~= Seq::<IssueSpec>::empty());
    }
    while i3 < delta.blocks.len()
        invariant
            d == *delta && sn == *snapshot && cv == counts@,
            f3 == (|b: BlockNode| spec_block_issues(b, sn)),
            i3 <= d.blocks@.len(),
            issue_views(issues@) =~= acc2 + d.blocks@.take(i3 as int).flat_map(f3),
        decreases d.blocks@.len() - i3,
    {
        let mut part = block_issues_exec(&delta.blocks[i3], snapshot);
        let ghost pre = issues@;
        let ghost partv = part@;
        issues.append(&mut part);
        proof {
            d.blocks@.lemma_flat_map_take_append(f3, i3 as int);
            assert(issue_views(issues@) =~= issue_views(pre) + issue_views(partv));
        }
        i3 += 1;
    }
    let ghost acc3 = issue_views(issues@);
    proof {
        assert(d.blocks@.take(d.blocks@.len() as int) =~= d.blocks@);
        assert(acc3 =~= acc2 + d.blocks@.flat_map(f3));
    }

    let mut i4: usize = 0;
    proof {
        assert(d.edges@.take(0int).flat_map(f4) =~= Seq::<IssueSpec>::empty());
    }
    while i4 < delta.edges.len()
        invariant
            d == *delta && sn == *snapshot && cv == counts@,
            f4 == (|e: GraphEdge| spec_edge_issues(e, d, sn)),
            i4 <= d.edges@.len(),
            issue_views(issues@) =~= acc3 + d.edges@.take(i4 as int).flat_map(f4),
        decreases d.edges@.len() - i4,
    {
        let mut part = edge_issues_exec(&delta.edges[i4], delta, snapshot);
        let ghost pre = issues@;
        let ghost partv = part@;
        issues.append(&mut part);
        proof {
            d.edges@.lemma_flat_map_take_append(f4, i4 as int);
            assert(issue_views(issues@) =~= issue_views(pre) + issue_views(partv));
        }
        i4 += 1;
    }
    let ghost acc4 = issue_views(issues@);
    proof {
        assert(d.edges@.take(d.edges@.len() as int) =~= d.edges@);
        assert(acc4 =~= acc3 + d.edges@.flat_map(f4));
    }

    let mut i5: usize = 0;
    proof {
        assert(d.universes@.take(0int).flat_map(f5) =~= Seq::<IssueSpec>::empty());
    }
    while i5 < delta.universes.len()
        invariant
            d == *delta && sn == *snapshot && cv == counts@,
            f5 == (|u: UniverseNode| spec_universe_topology(u, d, cv)),
            i5 <= d.universes@.len(),
            issue_views(issues@) =~= acc4 + d.universes@.take(i5 as int).flat_map(f5),
        decreases d.universes@.len() - i5,
    {
        let mut part = universe_topology_exec(&delta.universes[i5], delta, counts);
        let ghost pre = issues@;
        let ghost partv = part@;
        issues.append(&mut part);
        proof {
            d.universes@.lemma_flat_map_take_append(f5, i5 as int);
            assert(issue_views(issues@) =~= issue_views(pre) + issue_views(partv));
        }
        i5 += 1;
    }
    let ghost acc5 = issue_views(issues@);
    proof {
        assert(d.universes@.take(d.universes@.len() as int) =~= d.universes@);
        assert(acc5 =~= acc4 + d.universes@.flat_map(f5));
    }

    let mut i6: usize = 0;
    proof {
        assert(d.entities@.take(0int).flat_map(f6) =~= Seq::<IssueSpec>::empty());
    }
    while i6 < delta.entities.len()
        invariant
            d == *delta && sn == *snapshot && cv == counts@,
            f6 == (|e: EntityNode| spec_entity_topology(e, d, cv)),
            i6 <= d.entities@.len(),
            issue_views(issues@) =~= acc5 + d.entities@.take(i6 as int).flat_map(f6),
        decreases d.entities@.len() - i6,
    {
        let mut part = entity_topology_exec(&delta.entities[i6], delta, counts);
        let ghost pre = issues@;
        let ghost partv = part@;
        issues.append(&mut part);
        proof {
            d.entities@.lemma_flat_map_take_append(f6, i6 as int);
            assert(issue_views(issues@) =~= issue_views(pre) + issue_views(partv));
        }
        i6 += 1;
    }
    let ghost acc6 = issue_views(issues@);
    proof {
        assert(d.entities@.take(d.entities@.len() as int) =~= d.entities@);
        assert(acc6 =~= acc5 + d.entities@.flat_map(f6));
    }

    let mut i7: usize = 0;
    proof {
        assert(d.blocks@.take(0int).flat_map(f7) =~= Seq::<IssueSpec>::empty());
    }
    while i7 < delta.blocks.len()
        invariant
            d == *delta && sn == *snapshot && cv == counts@,
            f7 == (|b: BlockNode| spec_block_topology(b, d, cv)),
            i7 <= d.blocks@.len(),
            issue_views(issues@) =~= acc6 + d.blocks@.take(i7 as int).flat_map(f7),
        decreases d.blocks@.len() - i7,
    {
        let mut part = block_topology_exec(&delta.blocks[i7], delta, counts);
        let ghost pre = issues@;
        let ghost partv = part@;
        issues.append(&mut part);
        proof {
            d.blocks@.lemma_flat_map_take_append(f7, i7 as int);
            assert(issue_views(issues@) =~= issue_views(pre) + issue_views(partv));
        }
        i7 += 1;
    }
    proof {
        assert(d.blocks@.take(d.blocks@.len() as int) =~= d.blocks@);
        assert(issue_views(issues@) =~= spec_validate(d, sn, cv));
    }

    if issues.len() == 0 {
        proof {
            assert(issue_views(issues@).len() == 0);
        }
        Ok(())
    } else {
        Err(ValidationReport { issues })
    }
}


/// A sequence concatenation is empty only when both sides are.
proof fn lemma_flat_map_empty_parts<T>(s: Seq<T>, f: spec_fn(T) -> Seq<IssueSpec>, i: int)
    requires
        s.flat_map(f).len() == 0,
        0 <= i < s.len(),
    ensures
        f(s[i]).len() == 0,
{
    s.map_values(f).lemma_flatten_and_flatten_alt_are_equivalent();
    s.map_values(f).lemma_flatten_length_ge_single_element_length(i);
    assert(s.map_values(f)[i] == f(s[i]));
}

/// Topology preservation, validator side: a delta the validator accepts
/// gives every universe, entity and block at least one relationship over
/// payload and existing graph state together, every entity a membership
/// edge, and every block exactly one incoming structural edge.
#[verifier::rlimit(60)]
pub proof fn lemma_topology_of_valid_delta(
    delta: GraphDelta,
    snap: SchemaSnapshot,
    counts: Seq<(String, NodeRelationshipCounts)>,
)
    requires
        spec_validate(delta, snap, counts).len() == 0,
    ensures
        forall|i: int|
            0 <= i < delta.universes@.len() ==> spec_counts_for(
                counts,
                (#[trigger] delta.universes@[i]).id@,
            ).total + incident_payload(delta, delta.universes@[i].id@) > 0,
        forall|i: int|
            0 <= i < delta.entities@.len() ==> spec_counts_for(
                counts,
                (#[trigger] delta.entities@[i]).id@,
            ).entity_is_part_of + part_of_payload(delta, delta.entities@[i].id@) > 0,
        forall|i: int|
            0 <= i < delta.entities@.len() ==> spec_counts_for(
                counts,
                (#[trigger] delta.entities@[i]).id@,
            ).total + incident_payload(delta, delta.entities@[i].id@) > 0,
        forall|i: int|
            0 <= i < delta.blocks@.len() ==> spec_counts_for(
                counts,
                (#[trigger] delta.blocks@[i]).id@,
            ).block_parent_edges + block_parents_payload(delta, delta.blocks@[i].id@) == 1,
{
    let f5 = |u: UniverseNode| spec_universe_topology(u, delta, counts);
    let f6 = |e: EntityNode| spec_entity_topology(e, delta, counts);
    let f7 = |b: BlockNode| spec_block_topology(b, delta, counts);
    assert(delta.universes@.flat_map(f5).len() == 0);
    assert(delta.entities@.flat_map(f6).len() == 0);
    assert(delta.blocks@.flat_map(f7).len() == 0);
    assert forall|i: int| 0 <= i < delta.universes@.len() implies spec_counts_for(
        counts,
        (#[trigger] delta.universes@[i]).id@,
    ).total + incident_payload(delta, delta.universes@[i].id@) > 0 by {
        lemma_flat_map_empty_parts(delta.universes@, f5, i);
    }
    assert forall|i: int| 0 <= i < delta.entities@.len() implies spec_counts_for(
        counts,
        (#[trigger] delta.entities@[i]).id@,
    ).entity_is_part_of + part_of_payload(delta, delta.entities@[i].id@) > 0 && spec_counts_for(
        counts,
        delta.entities@[i].id@,
    ).total + incident_payload(delta, delta.entities@[i].id@) > 0 by {
        lemma_flat_map_empty_parts(delta.entities@, f6, i);
    }
    assert forall|i: int| 0 <= i < delta.blocks@.len() implies spec_counts_for(
        counts,
        (#[trigger] delta.blocks@[i]).id@,
    ).block_parent_edges + block_parents_payload(delta, delta.blocks@[i].id@) == 1 by {
        lemma_flat_map_empty_parts(delta.blocks@, f7, i);
    }
}


/// Referential conformance, validator side: in a delta the validator
/// accepts, every entity and block carries a well-formed id and a schema
/// type assignable to its root, every edge type is well-formed and
/// declared, and every edge whose endpoint types the payload knows is
/// admitted by an endpoint rule or touches a universe.
#[verifier::rlimit(60)]
pub proof fn lemma_conformance_of_valid_delta(
    delta: GraphDelta,
    snap: SchemaSnapshot,
    counts: Seq<(String, NodeRelationshipCounts)>,
)
    requires
        spec_validate(delta, snap, counts).len() == 0,
    ensures
        forall|i: int|
            0 <= i < delta.entities@.len() ==> {
                let e = #[trigger] delta.entities@[i];
                is_uuid_seq(e.id@) && type_exists(snap.node_types@, e.type_id@) && type_descends(
                    snap.inheritance@,
                    e.type_id@,
                    "node.entity"@,
                )
            },
        forall|i: int|
            0 <= i < delta.blocks@.len() ==> {
                let b = #[trigger] delta.blocks@[i];
                is_uuid_seq(b.id@) && type_exists(snap.node_types@, b.type_id@) && type_descends(
                    snap.inheritance@,
                    b.type_id@,
                    "node.block"@,
                )
            },
        forall|i: int|
            0 <= i < delta.edges@.len() ==> {
                let e = #[trigger] delta.edges@[i];
                is_edge_type_seq(e.edge_type@) && type_exists(
                    snap.edge_types@,
                    edge_schema_id(e.edge_type@),
                ) && (match (node_type_of(delta, e.from_id@), node_type_of(delta, e.to_id@)) {
                    (Option::Some(ft), Option::Some(tt)) => ft == "node.universe"@ || tt
                        == "node.universe"@ || rule_admits(
                        snap.edge_rules@,
                        snap.inheritance@,
                        edge_schema_id(e.edge_type@),
                        ft,
                        tt,
                    ),
                    _ => true,
                })
            },
{
    let f2 = |e: EntityNode| spec_entity_issues(e, delta.universes@, snap);
    let f3 = |b: BlockNode| spec_block_issues(b, snap);
    let f4 = |e: GraphEdge| spec_edge_issues(e, delta, snap);
    assert(delta.entities@.flat_map(f2).len() == 0);
    assert(delta.blocks@.flat_map(f3).len() == 0);
    assert(delta.edges@.flat_map(f4).len() == 0);
    assert forall|i: int| 0 <= i < delta.entities@.len() implies {
        let e = #[trigger] delta.entities@[i];
        is_uuid_seq(e.id@) && type_exists(snap.node_types@, e.type_id@) && type_descends(
            snap.inheritance@,
            e.type_id@,
            "node.entity"@,
        )
    } by {
        lemma_flat_map_empty_parts(delta.entities@, f2, i);
        let e = delta.entities@[i];
        assert(spec_id_issues("entity"@, e.id@).len() == 0);
    }
    assert forall|i: int| 0 <= i < delta.blocks@.len() implies {
        let b = #[trigger] delta.blocks@[i];
        is_uuid_seq(b.id@) && type_exists(snap.node_types@, b.type_id@) && type_descends(
            snap.inheritance@,
            b.type_id@,
            "node.block"@,
        )
    } by {
        lemma_flat_map_empty_parts(delta.blocks@, f3, i);
        let b = delta.blocks@[i];
        assert(spec_id_issues("block"@, b.id@).len() == 0);
    }
    assert forall|i: int| 0 <= i < delta.edges@.len() implies {
        let e = #[trigger] delta.edges@[i];
        is_edge_type_seq(e.edge_type@) && type_exists(
            snap.edge_types@,
            edge_schema_id(e.edge_type@),
        ) && (match (node_type_of(delta, e.from_id@), node_type_of(delta, e.to_id@)) {
            (Option::Some(ft), Option::Some(tt)) => ft == "node.universe"@ || tt
                == "node.universe"@ || rule_admits(
                snap.edge_rules@,
                snap.inheritance@,
                edge_schema_id(e.edge_type@),
                ft,
                tt,
            ),
            _ => true,
        })
    } by {
        lemma_flat_map_empty_parts(delta.edges@, f4, i);
        let e = delta.edges@[i];
        assert(spec_endpoint_issues(e, delta, snap).len() == 0);
    }
}

} // verus!
