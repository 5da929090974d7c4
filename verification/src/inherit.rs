//! The inheritance relation of the schema: reachability along child-to-parent
//! edges (type assignability) and the property sets a type inherits.

use vstd::prelude::*;
use vstd::set_lib::lemma_len_subset;

use crate::domain::{TypeInheritance, TypeProperty};
use crate::text::spec_starts_with;
use crate::text::starts_with_str;
use crate::text::str_eq;

verus! {

/// The views of a sequence of strings.
pub open spec fn views(s: Seq<String>) -> Seq<Seq<char>> {
    s.map_values(|x: String| x@)
}

/// Some element of `s` has view `v`.
pub open spec fn seq_contains_view(s: Seq<String>, v: Seq<char>) -> bool {
    exists|i: int| 0 <= i < s.len() && (#[trigger] s[i]@) == v
}

/// `v` is the parent side of some inheritance edge.
pub open spec fn is_parent_view(inh: Seq<TypeInheritance>, v: Seq<char>) -> bool {
    exists|j: int| 0 <= j < inh.len() && (#[trigger] inh[j].parent_type_id@) == v
}

/// Type `a` reaches type `b` along at most `fuel` child-to-parent edges.
pub open spec fn step_to(
    inh: Seq<TypeInheritance>,
    a: Seq<char>,
    b: Seq<char>,
    fuel: nat,
) -> bool
    decreases fuel,
{
    a == b || (fuel > 0 && exists|i: int|
        0 <= i < inh.len() && (#[trigger] inh[i].parent_type_id@) == b && step_to(
            inh,
            a,
            inh[i].child_type_id@,
            (fuel - 1) as nat,
        ))
}

/// Assignability: `a` descends from `b` under the inheritance relation.
/// A loop-free ancestor chain never uses more edges than the relation
/// holds, so the edge count bounds the search depth.
pub open spec fn type_descends(inh: Seq<TypeInheritance>, a: Seq<char>, b: Seq<char>) -> bool {
    step_to(inh, a, b, inh.len() as nat)
}

/// More fuel never loses reachability.
pub proof fn lemma_step_to_mono(inh: Seq<TypeInheritance>, a: Seq<char>, b: Seq<char>, f: nat, g: nat)
    requires
        step_to(inh, a, b, f),
        f <= g,
    ensures
        step_to(inh, a, b, g),
    decreases f,
{
    if a != b {
        let i = choose|i: int|
            0 <= i < inh.len() && (#[trigger] inh[i].parent_type_id@) == b && step_to(
                inh,
                a,
                inh[i].child_type_id@,
                (f - 1) as nat,
            );
        lemma_step_to_mono(inh, a, inh[i].child_type_id@, (f - 1) as nat, (g - 1) as nat);
    }
}

/// An edge whose child is reachable extends reachability to its parent.
pub proof fn lemma_step_to_extend(
    inh: Seq<TypeInheritance>,
    a: Seq<char>,
    i: int,
    fuel: nat,
)
    requires
        0 <= i < inh.len(),
        step_to(inh, a, inh[i].child_type_id@, fuel),
    ensures
        step_to(inh, a, inh[i].parent_type_id@, (fuel + 1) as nat),
{
}

/// Membership of a view survives extension of the list.
proof fn lemma_contains_view_prefix(a: Seq<String>, b: Seq<String>, v: Seq<char>)
    requires
        a.is_prefix_of(b),
        seq_contains_view(a, v),
    ensures
        seq_contains_view(b, v),
{
    let i = choose|i: int| 0 <= i < a.len() && (#[trigger] a[i]@) == v;
    assert(b.subrange(0, a.len() as int)[i] == b[i]);
    assert((b[i]@) == v);
}

/// Whether some element of the vector equals the given string.
pub fn vec_contains_str(v: &Vec<String>, x: &String) -> (r: bool)
    ensures
        r == seq_contains_view(v@, x@),
{
    let mut i: usize = 0;
    while i < v.len()
        invariant
            i <= v@.len(),
            forall|j: int| 0 <= j < i ==> #[trigger] v@[j]@ != x@,
        decreases v@.len() - i,
    {
        if str_eq(v[i].as_str(), x.as_str()) {
            proof {
                assert((v@[i as int]@) == x@);
            }
            return true;
        }
        i += 1;
    }
    false
}

/// Whether `actual` is assignable to `expected`: equal, or connected by a
/// chain of active inheritance edges from child to parent.
pub fn is_assignable(actual: &String, expected: &String, inheritance: &Vec<TypeInheritance>) -> (r:
    bool)
    ensures
        r == type_descends(inheritance@, actual@, expected@),
{
    let ghost inh = inheritance@;
    let ghost a0 = actual@;
    let n = inheritance.len();
    let mut seen: Vec<String> = Vec::new();
    seen.push(actual.clone());
    let mut round: usize = 0;
    proof {
        assert forall|x: Seq<char>| #[trigger] step_to(inh, a0, x, 0nat) implies seq_contains_view(
            seen@,
            x,
        ) by {
            assert(x == a0);
            assert((seen@[0]@) == x);
        }
    }
    while round < n
        invariant
            inh == inheritance@,
            a0 == actual@,
            n == inh.len(),
            round <= n,
            seen@.len() >= 1,
            seen@[0]@ == a0,
            views(seen@).no_duplicates(),
            forall|ii: int| 0 <= ii < seen@.len() ==> step_to(inh, a0, #[trigger] seen@[ii]@, ii as nat),
            forall|ii: int| 1 <= ii < seen@.len() ==> is_parent_view(inh, #[trigger] seen@[ii]@),
            forall|x: Seq<char>|
                #[trigger] step_to(inh, a0, x, round as nat) ==> seq_contains_view(seen@, x),
        decreases n - round,
    {
        let ghost seen0 = seen@;
        proof {
            assert(seen0.is_prefix_of(seen@)) by {
                assert(seen@.subrange(0, seen0.len() as int) =~= seen0);
            }
        }
        let mut j: usize = 0;
        while j < n
            invariant
                inh == inheritance@,
                a0 == actual@,
                n == inh.len(),
                seen@.len() >= 1,
                seen@[0]@ == a0,
                views(seen@).no_duplicates(),
                seen0.is_prefix_of(seen@),
                forall|ii: int|
                    0 <= ii < seen@.len() ==> step_to(inh, a0, #[trigger] seen@[ii]@, ii as nat),
                forall|ii: int|
                    1 <= ii < seen@.len() ==> is_parent_view(inh, #[trigger] seen@[ii]@),
                forall|k: int|
                    0 <= k < j ==> (seq_contains_view(seen0, #[trigger] inh[k].child_type_id@)
                        ==> seq_contains_view(seen@, inh[k].parent_type_id@)),
            decreases n - j,
        {
            let ghost iter_pre = seen@;
            let child_in = vec_contains_str(&seen, &inheritance[j].child_type_id);
            let parent_in = vec_contains_str(&seen, &inheritance[j].parent_type_id);
            if child_in {
                if !parent_in {
                    proof {
                        let ic = choose|ic: int|
                            0 <= ic < seen@.len() && #[trigger] seen@[ic]@
                                == inh[j as int].child_type_id@;
                        lemma_step_to_extend(inh, a0, j as int, ic as nat);
                        lemma_step_to_mono(
                            inh,
                            a0,
                            inh[j as int].parent_type_id@,
                            (ic + 1) as nat,
                            seen@.len() as nat,
                        );
                    }
                    let ghost pre = seen@;
                    seen.push(inheritance[j].parent_type_id.clone());
                    proof {
                        let last = seen@.len() - 1;
                        assert((seen@[last]@) == inh[j as int].parent_type_id@);
                        assert(views(seen@).no_duplicates()) by {
                            assert forall|p: int, q: int|
                                0 <= p < q < views(seen@).len() implies views(seen@)[p] != views(
                                seen@,
                            )[q] by {
                                if q < pre.len() {
                                    assert(views(pre)[p] == seen@[p]@ && views(pre)[q] == seen@[q]@);
                                } else {
                                    assert((pre[p]@) != inh[j as int].parent_type_id@);
                                }
                            }
                        }
                        assert(is_parent_view(inh, seen@[last]@));
                        assert(seen0.is_prefix_of(seen@)) by {
                            assert(seen@.subrange(0, seen0.len() as int) =~= seen0);
                        }
                        assert forall|ii: int|
                            0 <= ii < seen@.len() implies step_to(
                            inh,
                            a0,
                            #[trigger] seen@[ii]@,
                            ii as nat,
                        ) by {
                            if ii < pre.len() {
                                assert(seen@[ii]@ == pre[ii]@);
                            }
                        }
                    }
                }
            }
            proof {
                assert(iter_pre.is_prefix_of(seen@)) by {
                    assert(seen@.subrange(0, iter_pre.len() as int) =~= iter_pre);
                }
                assert forall|k: int|
                    0 <= k < j + 1 && seq_contains_view(
                        seen0,
                        #[trigger] inh[k].child_type_id@,
                    ) implies seq_contains_view(seen@, inh[k].parent_type_id@) by {
                    if k < j {
                        lemma_contains_view_prefix(iter_pre, seen@, inh[k].parent_type_id@);
                    } else {
                        lemma_contains_view_prefix(seen0, iter_pre, inh[k].child_type_id@);
                        if parent_in {
                            lemma_contains_view_prefix(iter_pre, seen@, inh[k].parent_type_id@);
                        } else {
                            assert((seen@[seen@.len() - 1]@) == inh[j as int].parent_type_id@);
                        }
                    }
                }
            }
            j += 1;
        }
        round += 1;
        proof {
            assert forall|x: Seq<char>|
                #[trigger] step_to(inh, a0, x, round as nat) implies seq_contains_view(
                seen@,
                x,
            ) by {
                if x == a0 {
                    assert((seen@[0]@) == a0);
                    assert(seq_contains_view(seen@, x));
                } else {
                    let i = choose|i: int|
                        0 <= i < inh.len() && (#[trigger] inh[i].parent_type_id@) == x && step_to(
                            inh,
                            a0,
                            inh[i].child_type_id@,
                            (round as nat - 1) as nat,
                        );
                    assert(seq_contains_view(seen0, inh[i].child_type_id@));
                    assert(seq_contains_view(seen@, inh[i].parent_type_id@));
                    assert(seq_contains_view(seen@, x));
                }
            }
        }
    }
    let r = vec_contains_str(&seen, expected);
    proof {
        if r {
            let ii = choose|ii: int| 0 <= ii < seen@.len() && (#[trigger] seen@[ii]@) == expected@;
            lemma_seen_len_bound(seen@, inh, a0);
            lemma_step_to_mono(inh, a0, expected@, ii as nat, inh.len() as nat);
        } else {
            if type_descends(inh, a0, expected@) {
                assert(step_to(inh, a0, expected@, round as nat));
                assert(seq_contains_view(seen@, expected@));
            }
        }
    }
    r
}

/// A duplicate-free list holding the start type and otherwise only parents
/// of inheritance edges cannot outgrow the edge count by more than one.
proof fn lemma_seen_len_bound(seen: Seq<String>, inh: Seq<TypeInheritance>, a0: Seq<char>)
    requires
        seen.len() >= 1,
        seen[0]@ == a0,
        views(seen).no_duplicates(),
        forall|ii: int| 1 <= ii < seen.len() ==> is_parent_view(inh, #[trigger] seen[ii]@),
    ensures
        seen.len() <= inh.len() + 1,
{
    broadcast use vstd::seq_lib::seq_to_set_is_finite;
    broadcast use vstd::set::group_set_axioms;

    let vs = views(seen);
    let parents = inh.map_values(|e: TypeInheritance| e.parent_type_id@);
    vs.unique_seq_to_set();
    parents.lemma_cardinality_of_set();
    let bigger = parents.to_set().insert(a0);
    assert forall|x: Seq<char>| vs.to_set().contains(x) implies bigger.contains(x) by {
        let ii = choose|ii: int| 0 <= ii < vs.len() && vs[ii] == x;
        if ii >= 1 {
            assert(is_parent_view(inh, seen[ii]@));
            let j = choose|j: int|
                0 <= j < inh.len() && (#[trigger] inh[j].parent_type_id@) == seen[ii]@;
            assert(parents[j] == x);
            assert(parents.to_set().contains(x));
        }
    }
    lemma_len_subset(vs.to_set(), bigger);
    assert(bigger.len() <= parents.to_set().len() + 1);
}

/// A property owned by a pseudo-owner `node` or `edge` applies to every
/// type of the matching kind.
pub open spec fn spec_is_global_property_owner(owner: Seq<char>, prop_owner: Seq<char>) -> bool {
    (prop_owner == "node"@ && (owner == "node"@ || spec_starts_with(owner, "node."@)))
        || (prop_owner == "edge"@ && (owner == "edge"@ || spec_starts_with(owner, "edge."@)))
}

pub fn is_global_property_owner(owner_type_id: &String, property_owner_type_id: &String) -> (r:
    bool)
    ensures
        r == spec_is_global_property_owner(owner_type_id@, property_owner_type_id@),
{
    (str_eq(property_owner_type_id.as_str(), "node") && (str_eq(owner_type_id.as_str(), "node")
        || starts_with_str(owner_type_id.as_str(), "node."))) || (str_eq(
        property_owner_type_id.as_str(),
        "edge",
    ) && (str_eq(owner_type_id.as_str(), "edge") || starts_with_str(owner_type_id.as_str(), "edge.")))
}

/// A declared property applies to `owner`: owned by it, inherited from an
/// ancestor, or owned by the matching pseudo-owner.
pub open spec fn prop_applies(
    owner: Seq<char>,
    p: TypeProperty,
    inh: Seq<TypeInheritance>,
) -> bool {
    p.owner_type_id@ == owner || type_descends(inh, owner, p.owner_type_id@)
        || spec_is_global_property_owner(owner, p.owner_type_id@)
}

/// The properties applying to `owner`, each as `(name, value type)`, in
/// declaration order.
pub open spec fn spec_allowed_properties(
    owner: Seq<char>,
    props: Seq<TypeProperty>,
    inh: Seq<TypeInheritance>,
) -> Seq<TypeProperty> {
    props.filter(|p: TypeProperty| prop_applies(owner, p, inh))
}

/// Collects the allowed-property set of a type: its own properties, the
/// inherited ones and those of the matching pseudo-owner.
pub fn collect_allowed_properties(
    owner_type_id: &String,
    all_properties: &Vec<TypeProperty>,
    inheritance: &Vec<TypeInheritance>,
) -> (r: Vec<(String, String)>)
    ensures
        ({
            let flt = spec_allowed_properties(owner_type_id@, all_properties@, inheritance@);
            r@.len() == flt.len() && forall|i: int|
                0 <= i < flt.len() ==> (#[trigger] r@[i]).0@ == flt[i].prop_name@ && r@[i].1@
                    == flt[i].value_type@
        }),
{
    let ghost pred = |p: TypeProperty| prop_applies(owner_type_id@, p, inheritance@);
    let mut out: Vec<(String, String)> = Vec::new();
    let mut i: usize = 0;
    proof {
        reveal(Seq::filter);
        assert(all_properties@.take(0int) =~= Seq::<TypeProperty>::empty());
    }
    while i < all_properties.len()
        invariant
            i <= all_properties@.len(),
            pred == (|p: TypeProperty| prop_applies(owner_type_id@, p, inheritance@)),
            ({
                let flt = all_properties@.take(i as int).filter(pred);
                out@.len() == flt.len() && forall|k: int|
                    0 <= k < flt.len() ==> (#[trigger] out@[k]).0@ == flt[k].prop_name@
                        && out@[k].1@ == flt[k].value_type@
            }),
        decreases all_properties@.len() - i,
    {
        let p = &all_properties[i];
        let applies = if str_eq(p.owner_type_id.as_str(), owner_type_id.as_str()) {
            true
        } else if is_assignable(owner_type_id, &p.owner_type_id, inheritance) {
            true
        } else {
            is_global_property_owner(owner_type_id, &p.owner_type_id)
        };
        proof {
            reveal(Seq::filter);
            assert(all_properties@.take(i + 1).drop_last() =~= all_properties@.take(i as int));
            assert(all_properties@.take(i + 1).last() == all_properties@[i as int]);
        }
        if applies {
            out.push((p.prop_name.clone(), p.value_type.clone()));
        }
        i += 1;
    }
    proof {
        assert(all_properties@.take(all_properties@.len() as int) =~= all_properties@);
    }
    out
}

} // verus!
