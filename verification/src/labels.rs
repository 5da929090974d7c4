//! Label resolution: the ordered ancestor chain of a type, rendered as
//! graph labels (root first, `node.` prefix stripped, first letter
//! capitalized), and the syntactic check every label must pass before it
//! is handed to the graph store.

use vstd::prelude::*;

use crate::domain::{KgError, TypeInheritance};
use crate::inherit::views;
use crate::text::{
    append_str, is_label_seq, is_valid_label_str, push_char, spec_starts_with, starts_with_str,
    trim_seq, trim_str,
};

verus! {

/// The parent of the first inheritance edge whose child is `t`, if any.
pub open spec fn find_parent(inh: Seq<TypeInheritance>, t: Seq<char>) -> Option<Seq<char>>
    decreases inh.len(),
{
    if inh.len() == 0 {
        Option::None
    } else if inh[0].child_type_id@ == t {
        Option::Some(inh[0].parent_type_id@)
    } else {
        find_parent(inh.drop_first(), t)
    }
}

/// The ancestor chain from `t` upward, following at most `fuel` edges:
/// the type itself, then its parent, and so on.
pub open spec fn spec_chain(inh: Seq<TypeInheritance>, t: Seq<char>, fuel: nat) -> Seq<Seq<char>>
    decreases fuel,
{
    match find_parent(inh, t) {
        Option::Some(p) => if fuel > 0 {
            seq![t] + spec_chain(inh, p, (fuel - 1) as nat)
        } else {
            seq![t]
        },
        Option::None => seq![t],
    }
}

/// The characters of the `node.` type-id prefix.
pub open spec fn node_prefix() -> Seq<char> {
    seq!['n', 'o', 'd', 'e', '.']
}

/// The id with every leading `node.` prefix removed.
pub open spec fn strip_node_prefix(id: Seq<char>) -> Seq<char>
    decreases id.len(),
{
    if spec_starts_with(id, node_prefix()) {
        strip_node_prefix(id.skip(5))
    } else {
        id
    }
}

/// The first character folded to upper case, the rest kept.
pub open spec fn upper_char(c: char) -> char {
    if 'a' <= c && c <= 'z' {
        (c as u8 - 32) as char
    } else {
        c
    }
}

pub open spec fn spec_capitalize(s: Seq<char>) -> Seq<char> {
    if s.len() == 0 {
        s
    } else {
        seq![upper_char(s[0])] + s.skip(1)
    }
}

/// One rendered label: prefix stripped, first letter capitalized.
pub open spec fn spec_label_of(id: Seq<char>) -> Seq<char> {
    spec_capitalize(strip_node_prefix(id))
}

/// The full label list of a type: its ancestor chain reversed (root first),
/// each id rendered as a label.
pub open spec fn spec_labels(inh: Seq<TypeInheritance>, t: Seq<char>) -> Seq<Seq<char>> {
    spec_chain(inh, t, inh.len() as nat).reverse().map_values(|id: Seq<char>| spec_label_of(id))
}

/// The parent recorded by the first matching inheritance edge.
fn find_parent_exec(inheritance: &Vec<TypeInheritance>, t: &String) -> (r: Option<String>)
    ensures
        match r {
            Option::Some(p) => find_parent(inheritance@, t@) == Option::Some(p@),
            Option::None => find_parent(inheritance@, t@) is None,
        },
{
    let mut i: usize = 0;
    proof {
        assert(inheritance@.skip(0int) =~= inheritance@);
    }
    while i < inheritance.len()
        invariant
            i <= inheritance@.len(),
            find_parent(inheritance@, t@) == find_parent(inheritance@.skip(i as int), t@),
        decreases inheritance@.len() - i,
    {
        proof {
            assert(inheritance@.skip(i as int)[0] == inheritance@[i as int]);
            assert(inheritance@.skip(i as int).drop_first() =~= inheritance@.skip(i + 1));
        }
        if crate::text::str_eq(inheritance[i].child_type_id.as_str(), t.as_str()) {
            return Some(inheritance[i].parent_type_id.clone());
        }
        i += 1;
    }
    proof {
        assert(inheritance@.skip(inheritance@.len() as int) =~= Seq::<TypeInheritance>::empty());
    }
    None
}

/// Strips every leading `node.` prefix from a type id.
fn strip_node_prefix_exec(s: &String) -> (r: String)
    ensures
        r@ == strip_node_prefix(s@),
{
    proof {
        reveal_strlit("node.");
        assert("node."@ =~= node_prefix());
    }
    let mut cur: String = s.clone();
    while starts_with_str(cur.as_str(), "node.")
        invariant
            "node."@ == node_prefix(),
            strip_node_prefix(s@) == strip_node_prefix(cur@),
        ensures
            strip_node_prefix(s@) == strip_node_prefix(cur@),
            !spec_starts_with(cur@, node_prefix()),
        decreases cur@.len(),
    {
        proof {
            reveal_strlit("node.");
            assert("node."@ =~= node_prefix());
        }
        let n = cur.as_str().unicode_len();
        let rest = cur.as_str().substring_char(5, n);
        let next = rest.to_owned();
        proof {
            assert(next@ =~= cur@.skip(5));
        }
        cur = next;
    }
    proof {
        reveal_strlit("node.");
        assert("node."@ =~= node_prefix());
    }
    cur
}

/// Upper-cases the first character of a label.
fn capitalize(s: &String) -> (r: String)
    ensures
        r@ == spec_capitalize(s@),
{
    let n = s.as_str().unicode_len();
    if n == 0 {
        return String::new();
    }
    let c = s.as_str().get_char(0);
    let up: char = if 'a' <= c && c <= 'z' {
        (c as u8 - 32) as char
    } else {
        c
    };
    let mut out = String::new();
    push_char(&mut out, up);
    let rest = s.as_str().substring_char(1, n);
    append_str(&mut out, rest);
    proof {
        assert(out@ =~= seq![upper_char(s@[0])] + s@.skip(1));
    }
    out
}

/// Resolves the ordered label list of a type: walk the single-parent
/// inheritance chain upward, then render it root-first with the `node.`
/// prefix stripped and the first letter of each label capitalized.
pub fn resolve_labels_for_type(type_id: &String, inheritance: &Vec<TypeInheritance>) -> (r: Vec<
    String,
>)
    ensures
        views(r@) == spec_labels(inheritance@, type_id@),
{
    let ghost inh = inheritance@;
    let ghost t0 = type_id@;
    let mut chain: Vec<String> = Vec::new();
    chain.push(type_id.clone());
    let mut current: String = type_id.clone();
    let mut fuel: usize = inheritance.len();
    while fuel > 0
        invariant
            inh == inheritance@,
            t0 == type_id@,
            chain@.len() >= 1,
            current@ == chain@[chain@.len() - 1]@,
            fuel <= inh.len(),
            spec_chain(inh, t0, inh.len() as nat) =~= views(chain@).drop_last() + spec_chain(
                inh,
                current@,
                fuel as nat,
            ),
        ensures
            chain@.len() >= 1,
            spec_chain(inh, t0, inh.len() as nat) =~= views(chain@),
        decreases fuel,
    {
        let next = find_parent_exec(inheritance, &current);
        match next {
            Some(p) => {
                let ghost pre = chain@;
                chain.push(p.clone());
                proof {
                    assert(views(chain@).drop_last() =~= views(pre));
                    assert(views(pre) =~= views(pre).drop_last() + seq![current@]);
                    assert(spec_chain(inh, current@, fuel as nat) =~= seq![current@] + spec_chain(
                        inh,
                        p@,
                        (fuel - 1) as nat,
                    ));
                }
                current = p;
                fuel -= 1;
            },
            None => {
                proof {
                    assert(spec_chain(inh, current@, fuel as nat) =~= seq![current@]);
                    assert(views(chain@) =~= views(chain@).drop_last() + seq![current@]);
                }
                break;
            },
        }
    }
    proof {
        if fuel == 0 {
            assert(spec_chain(inh, current@, 0nat) =~= seq![current@]);
            assert(views(chain@) =~= views(chain@).drop_last() + seq![current@]);
        }
    }
    let total = chain.len();
    let mut out: Vec<String> = Vec::new();
    let mut k: usize = 0;
    while k < total
        invariant
            total == chain@.len(),
            k <= total,
            out@.len() == k,
            forall|q: int|
                0 <= q < k ==> (#[trigger] out@[q]@) == spec_label_of(
                    chain@[total - 1 - q]@,
                ),
        decreases total - k,
    {
        let stripped = strip_node_prefix_exec(&chain[total - 1 - k]);
        let label = capitalize(&stripped);
        out.push(label);
        k += 1;
    }
    proof {
        let rev = spec_chain(inh, t0, inh.len() as nat).reverse();
        assert(views(out@) =~= rev.map_values(|id: Seq<char>| spec_label_of(id)));
    }
    out
}

/// The trimmed labels with empty entries dropped.
pub open spec fn spec_clean_labels(ls: Seq<Seq<char>>) -> Seq<Seq<char>> {
    ls.map_values(|l: Seq<char>| trim_seq(l)).filter(|l: Seq<char>| l.len() > 0)
}

/// Every cleaned label is syntactically valid.
pub open spec fn spec_labels_ok(cleaned: Seq<Seq<char>>) -> bool {
    cleaned.len() > 0 && forall|i: int| 0 <= i < cleaned.len() ==> is_label_seq(#[trigger] cleaned[i])
}

/// Trims the resolved labels, drops empty ones, and checks each against
/// the label syntax; fails when nothing is left or a label is malformed.
pub fn sanitize_labels(labels: &Vec<String>) -> (r: Result<Vec<String>, KgError>)
    ensures
        match r {
            Ok(v) => views(v@) == spec_clean_labels(views(labels@)) && spec_labels_ok(views(v@)),
            Err(e) => !spec_labels_ok(spec_clean_labels(views(labels@))) && e is InvalidInput,
        },
{
    let ghost lv = views(labels@);
    let ghost trimmed_pred = |l: Seq<char>| l.len() > 0;
    let mut cleaned: Vec<String> = Vec::new();
    let mut i: usize = 0;
    proof {
        reveal(Seq::filter);
        assert(lv.take(0int) =~= Seq::<Seq<char>>::empty());
        assert(lv.take(0int).map_values(|l: Seq<char>| trim_seq(l)) =~= Seq::<Seq<char>>::empty());
    }
    while i < labels.len()
        invariant
            lv == views(labels@),
            i <= labels@.len(),
            views(cleaned@) =~= spec_clean_labels(lv.take(i as int)),
        decreases labels@.len() - i,
    {
        let t = trim_str(labels[i].as_str());
        proof {
            reveal(Seq::filter);
            let m0 = lv.take(i as int).map_values(|l: Seq<char>| trim_seq(l));
            let m1 = lv.take(i + 1).map_values(|l: Seq<char>| trim_seq(l));
            assert(m1.drop_last() =~= m0);
            assert(m1.last() == trim_seq(lv[i as int]));
        }
        if t.as_str().unicode_len() > 0 {
            let ghost pre = cleaned@;
            cleaned.push(t);
            proof {
                assert(views(cleaned@).drop_last() =~= views(pre));
                assert(views(cleaned@) =~= views(pre).push(trim_seq(lv[i as int])));
            }
        }
        i += 1;
    }
    proof {
        assert(lv.take(lv.len() as int) =~= lv);
    }
    if cleaned.len() == 0 {
        return Err(KgError::InvalidInput("resolved labels cannot be empty".to_owned()));
    }
    let mut j: usize = 0;
    while j < cleaned.len()
        invariant
            views(cleaned@) =~= spec_clean_labels(lv),
            lv == views(labels@),
            cleaned@.len() > 0,
            j <= cleaned@.len(),
            forall|q: int| 0 <= q < j ==> is_label_seq(#[trigger] views(cleaned@)[q]),
        decreases cleaned@.len() - j,
    {
        if !is_valid_label_str(cleaned[j].as_str()) {
            let mut msg = "invalid label '".to_owned();
            append_str(&mut msg, cleaned[j].as_str());
            append_str(&mut msg, "'");
            proof {
                assert(!is_label_seq(views(cleaned@)[j as int]));
            }
            return Err(KgError::InvalidInput(msg));
        }
        j += 1;
    }
    Ok(cleaned)
}

} // verus!
