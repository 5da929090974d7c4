//! Store-facing query fragments: the visibility sets and clauses the
//! graph queries embed, and the normalization of the vector index's
//! endpoint address.

use vstd::prelude::*;

use crate::domain::{KgError, Visibility};
use crate::inherit::views;
use crate::text::{append_str, ends_with_str, spec_ends_with, spec_starts_with, starts_with_str};

verus! {

/// The visibility a node may have to be reachable from an edge of the
/// given visibility: a private edge may touch private and shared nodes,
/// a shared edge only shared ones.
pub open spec fn spec_allowed_node_visibilities(v: Visibility) -> Seq<Seq<char>> {
    match v {
        Visibility::Private => seq!["PRIVATE"@, "SHARED"@],
        Visibility::Shared => seq!["SHARED"@],
    }
}

pub fn allowed_node_visibilities(edge_visibility: Visibility) -> (r: Vec<String>)
    ensures
        views(r@) == spec_allowed_node_visibilities(edge_visibility),
{
    let mut out: Vec<String> = Vec::new();
    match edge_visibility {
        Visibility::Private => {
            out.push("PRIVATE".to_owned());
            out.push("SHARED".to_owned());
        },
        Visibility::Shared => {
            out.push("SHARED".to_owned());
        },
    }
    proof {
        assert(views(out@) =~= spec_allowed_node_visibilities(edge_visibility));
    }
    out
}

pub open spec fn spec_visibility_str(v: Visibility) -> Seq<char> {
    match v {
        Visibility::Private => "PRIVATE"@,
        Visibility::Shared => "SHARED"@,
    }
}

/// The visibility label stored on nodes and edges.
pub fn visibility_as_str(visibility: Visibility) -> (r: &'static str)
    ensures
        r@ == spec_visibility_str(visibility),
{
    match visibility {
        Visibility::Private => "PRIVATE",
        Visibility::Shared => "SHARED",
    }
}

/// The filter clause admitting the user's own nodes and shared ones.
pub open spec fn spec_access_clause(alias: Seq<char>) -> Seq<char> {
    "("@ + alias + ".user_id = $user_id OR "@ + alias + ".visibility = 'SHARED')"@
}

pub fn memgraph_user_or_shared_access_clause(alias: &str) -> (r: String)
    ensures
        r@ == spec_access_clause(alias@),
{
    let mut out = "(".to_owned();
    append_str(&mut out, alias);
    append_str(&mut out, ".user_id = $user_id OR ");
    append_str(&mut out, alias);
    append_str(&mut out, ".visibility = 'SHARED')");
    proof {
        assert(out@ =~= spec_access_clause(alias@));
    }
    out
}

/// The address the vector index's native protocol listens on: a scheme
/// is prepended when absent, and the conventional REST ports are moved
/// to their protocol counterparts.
pub open spec fn spec_normalize_grpc_url(url: Seq<char>) -> Seq<char> {
    let base = if spec_starts_with(url, "http://"@) || spec_starts_with(url, "https://"@) {
        url
    } else {
        "http://"@ + url
    };
    if spec_ends_with(base, ":6333"@) {
        base.take(base.len() - ":6333"@.len() as int) + ":6334"@
    } else if spec_ends_with(base, ":16333"@) {
        base.take(base.len() - ":16333"@.len() as int) + ":16334"@
    } else {
        base
    }
}

pub fn normalize_qdrant_grpc_url(url: &str) -> (r: String)
    ensures
        r@ == spec_normalize_grpc_url(url@),
{
    let base: String = if starts_with_str(url, "http://") || starts_with_str(url, "https://") {
        url.to_owned()
    } else {
        let mut b = "http://".to_owned();
        append_str(&mut b, url);
        b
    };
    if ends_with_str(base.as_str(), ":6333") {
        let n = base.as_str().unicode_len();
        let m = ":6333".unicode_len();
        let head = base.as_str().substring_char(0, n - m);
        let mut out = head.to_owned();
        append_str(&mut out, ":6334");
        proof {
            assert(out@ =~= spec_normalize_grpc_url(url@));
        }
        out
    } else if ends_with_str(base.as_str(), ":16333") {
        let n = base.as_str().unicode_len();
        let m = ":16333".unicode_len();
        let head = base.as_str().substring_char(0, n - m);
        let mut out = head.to_owned();
        append_str(&mut out, ":16334");
        proof {
            assert(out@ =~= spec_normalize_grpc_url(url@));
        }
        out
    } else {
        base
    }
}


/// Checks an edge-type name before it is embedded in a commit statement:
/// upper-case letters, digits and underscores only.
pub fn validate_edge_type(edge_type: &str) -> (r: Result<(), KgError>)
    ensures
        r is Ok == crate::text::is_edge_type_seq(edge_type@),
        r matches Result::Err(e) ==> e is InvalidInput,
{
    if crate::text::is_valid_edge_type_str(edge_type) {
        Ok(())
    } else {
        Err(
            KgError::InvalidInput(
                "edge_type must be uppercase letters, numbers, or underscore".to_owned(),
            ),
        )
    }
}

/// The visibility reachability rule: a private edge may connect nodes of
/// either visibility, a shared edge only shared nodes.
pub open spec fn visibility_admits(edge: Visibility, node: Visibility) -> bool {
    match edge {
        Visibility::Private => true,
        Visibility::Shared => node == Visibility::Shared,
    }
}

/// Visibility reachability, clause side: the label set an edge's commit
/// clause admits holds a node's label exactly when the rule admits the
/// node, so no committed edge can violate the rule.
pub proof fn lemma_allowed_matches_rule(edge: Visibility, node: Visibility)
    ensures
        spec_allowed_node_visibilities(edge).contains(spec_visibility_str(node))
            == visibility_admits(edge, node),
{
    reveal_strlit("PRIVATE");
    reveal_strlit("SHARED");
    assert("PRIVATE"@ != "SHARED"@) by {
        assert("PRIVATE"@.len() == 7);
        assert("SHARED"@.len() == 6);
    }
    match (edge, node) {
        (Visibility::Private, Visibility::Private) => {
            assert(spec_allowed_node_visibilities(edge)[0] == "PRIVATE"@);
        },
        (Visibility::Private, Visibility::Shared) => {
            assert(spec_allowed_node_visibilities(edge)[1] == "SHARED"@);
        },
        (Visibility::Shared, Visibility::Shared) => {
            assert(spec_allowed_node_visibilities(edge)[0] == "SHARED"@);
        },
        (Visibility::Shared, Visibility::Private) => {
            assert forall|i: int|
                0 <= i < spec_allowed_node_visibilities(edge).len() implies spec_allowed_node_visibilities(
                edge,
            )[i] != spec_visibility_str(node) by {}
        },
    }
}

} // verus!
