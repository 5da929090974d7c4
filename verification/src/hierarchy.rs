//! The block-derivation engine: for every block of a payload, the root
//! entity it describes and its level in the summary hierarchy, computed
//! from the payload's structural edges and the contexts of blocks already
//! persisted in the graph.
//!
//! The graph store is consulted in two rounds, both planned here: the
//! summarize parents outside the payload, and the own context of a block
//! that a walk cannot anchor inside the payload.  The caller performs the
//! lookups and hands the answers back as plain lists.

use vstd::prelude::*;

use crate::domain::{
    BlockNode, ExistingBlockContext, GraphEdge, KgError, PropertyScalar, PropertyValue, Visibility,
};
use crate::text::{append_str, eq_ignore_case_str, str_eq};
use crate::validate::eq_ic;

verus! {

/// A block with this id stands in the payload.
pub open spec fn block_ids_contain(blocks: Seq<BlockNode>, id: Seq<char>) -> bool {
    exists|i: int| 0 <= i < blocks.len() && (#[trigger] blocks[i].id@) == id
}

pub fn block_ids_contain_exec(blocks: &Vec<BlockNode>, id: &String) -> (r: bool)
    ensures
        r == block_ids_contain(blocks@, id@),
{
    let mut i: usize = 0;
    while i < blocks.len()
        invariant
            i <= blocks@.len(),
            forall|j: int| 0 <= j < i ==> (#[trigger] blocks@[j].id@) != id@,
        decreases blocks@.len() - i,
    {
        if str_eq(blocks[i].id.as_str(), id.as_str()) {
            proof {
                assert((blocks@[i as int].id@) == id@);
            }
            return true;
        }
        i += 1;
    }
    false
}

/// The context recorded for an id, if any (first match).
pub open spec fn ctx_for(
    ctxs: Seq<(String, ExistingBlockContext)>,
    id: Seq<char>,
) -> Option<ExistingBlockContext>
    decreases ctxs.len(),
{
    if ctxs.len() == 0 {
        Option::None
    } else if ctxs[0].0@ == id {
        Option::Some(ctxs[0].1)
    } else {
        ctx_for(ctxs.drop_first(), id)
    }
}

fn ctx_for_exec(ctxs: &Vec<(String, ExistingBlockContext)>, id: &String) -> (r: Option<
    ExistingBlockContext,
>)
    ensures
        match r {
            Option::Some(c) => ctx_for(ctxs@, id@) == Option::Some(c),
            Option::None => ctx_for(ctxs@, id@) is None,
        },
{
    let mut i: usize = 0;
    proof {
        assert(ctxs@.skip(0int) =~= ctxs@);
    }
    while i < ctxs.len()
        invariant
            i <= ctxs@.len(),
            ctx_for(ctxs@, id@) == ctx_for(ctxs@.skip(i as int), id@),
        decreases ctxs@.len() - i,
    {
        proof {
            assert(ctxs@.skip(i as int)[0] == ctxs@[i as int]);
            assert(ctxs@.skip(i as int).drop_first() =~= ctxs@.skip(i + 1));
        }
        if str_eq(ctxs[i].0.as_str(), id.as_str()) {
            let c = ExistingBlockContext {
                root_entity_id: ctxs[i].1.root_entity_id.clone(),
                universe_id: ctxs[i].1.universe_id.clone(),
                block_level: ctxs[i].1.block_level,
            };
            proof {
                assert(c == ctxs@[i as int].1);
            }
            return Some(c);
        }
        i += 1;
    }
    proof {
        assert(ctxs@.skip(ctxs@.len() as int) =~= Seq::<(String, ExistingBlockContext)>::empty());
    }
    None
}

/// A payload edge that makes an entity describe a payload block.
pub open spec fn is_db_edge(blocks: Seq<BlockNode>, e: GraphEdge) -> bool {
    eq_ic(e.edge_type@, "DESCRIBED_BY"@) && block_ids_contain(blocks, e.to_id@)
}

/// A payload edge that makes one block summarize a payload block.
pub open spec fn is_sum_edge(blocks: Seq<BlockNode>, e: GraphEdge) -> bool {
    eq_ic(e.edge_type@, "SUMMARIZES"@) && block_ids_contain(blocks, e.to_id@)
}

/// The describing entity of a block, by the last matching payload edge.
pub open spec fn db_parent(
    edges: Seq<GraphEdge>,
    blocks: Seq<BlockNode>,
    id: Seq<char>,
) -> Option<Seq<char>>
    decreases edges.len(),
{
    if edges.len() == 0 {
        Option::None
    } else if is_db_edge(blocks, edges.last()) && edges.last().to_id@ == id {
        Option::Some(edges.last().from_id@)
    } else {
        db_parent(edges.drop_last(), blocks, id)
    }
}

/// The summarizing parent block of a block, by the last matching payload
/// edge.
pub open spec fn sum_parent(
    edges: Seq<GraphEdge>,
    blocks: Seq<BlockNode>,
    id: Seq<char>,
) -> Option<Seq<char>>
    decreases edges.len(),
{
    if edges.len() == 0 {
        Option::None
    } else if is_sum_edge(blocks, edges.last()) && edges.last().to_id@ == id {
        Option::Some(edges.last().from_id@)
    } else {
        sum_parent(edges.drop_last(), blocks, id)
    }
}

fn db_parent_exec(edges: &Vec<GraphEdge>, blocks: &Vec<BlockNode>, id: &String) -> (r: Option<
    String,
>)
    ensures
        match r {
            Option::Some(p) => db_parent(edges@, blocks@, id@) == Option::Some(p@),
            Option::None => db_parent(edges@, blocks@, id@) is None,
        },
{
    let mut i: usize = edges.len();
    proof {
        assert(edges@.take(edges@.len() as int) =~= edges@);
    }
    while i > 0
        invariant
            i <= edges@.len(),
            db_parent(edges@, blocks@, id@) == db_parent(edges@.take(i as int), blocks@, id@),
        decreases i,
    {
        i -= 1;
        proof {
            assert(edges@.take(i + 1).last() == edges@[i as int]);
            assert(edges@.take(i + 1).drop_last() =~= edges@.take(i as int));
        }
        let e = &edges[i];
        if eq_ignore_case_str(e.edge_type.as_str(), "DESCRIBED_BY") && str_eq(
            e.to_id.as_str(),
            id.as_str(),
        ) && block_ids_contain_exec(blocks, &e.to_id) {
            return Some(e.from_id.clone());
        }
    }
    proof {
        assert(edges@.take(0int) =~= Seq::<GraphEdge>::empty());
    }
    None
}

fn sum_parent_exec(edges: &Vec<GraphEdge>, blocks: &Vec<BlockNode>, id: &String) -> (r: Option<
    String,
>)
    ensures
        match r {
            Option::Some(p) => sum_parent(edges@, blocks@, id@) == Option::Some(p@),
            Option::None => sum_parent(edges@, blocks@, id@) is None,
        },
{
    let mut i: usize = edges.len();
    proof {
        assert(edges@.take(edges@.len() as int) =~= edges@);
    }
    while i > 0
        invariant
            i <= edges@.len(),
            sum_parent(edges@, blocks@, id@) == sum_parent(edges@.take(i as int), blocks@, id@),
        decreases i,
    {
        i -= 1;
        proof {
            assert(edges@.take(i + 1).last() == edges@[i as int]);
            assert(edges@.take(i + 1).drop_last() =~= edges@.take(i as int));
        }
        let e = &edges[i];
        if eq_ignore_case_str(e.edge_type.as_str(), "SUMMARIZES") && str_eq(
            e.to_id.as_str(),
            id.as_str(),
        ) && block_ids_contain_exec(blocks, &e.to_id) {
            return Some(e.from_id.clone());
        }
    }
    proof {
        assert(edges@.take(0int) =~= Seq::<GraphEdge>::empty());
    }
    None
}

/// Where the upward walk of one block ends, at the specification level.
pub enum WalkSpec {
    /// A describing entity, or a persisted parent's recorded root.
    Root(Seq<char>),
    /// The walk left the payload at this id; its own persisted context
    /// decides.
    NeedOwn(Seq<char>),
    /// The payload's summarize edges close a cycle.
    Cycle,
}

/// The upward walk from a block: the first describing entity fixes the
/// root; a summarize edge continues the walk, or ends it at a persisted
/// parent's recorded root; otherwise the block's own persisted context is
/// asked for.  Exhausting the step bound means the walk revisited an id.
pub open spec fn spec_walk(
    edges: Seq<GraphEdge>,
    blocks: Seq<BlockNode>,
    ctxs: Seq<(String, ExistingBlockContext)>,
    current: Seq<char>,
    fuel: nat,
) -> WalkSpec
    decreases fuel,
{
    match db_parent(edges, blocks, current) {
        Option::Some(p) => WalkSpec::Root(p),
        Option::None => match sum_parent(edges, blocks, current) {
            Option::Some(pb) => match ctx_for(ctxs, pb) {
                Option::Some(c) => WalkSpec::Root(c.root_entity_id@),
                Option::None => if fuel == 0 {
                    WalkSpec::Cycle
                } else {
                    spec_walk(edges, blocks, ctxs, pb, (fuel - 1) as nat)
                },
            },
            Option::None => match ctx_for(ctxs, current) {
                Option::Some(c) => WalkSpec::Root(c.root_entity_id@),
                Option::None => WalkSpec::NeedOwn(current),
            },
        },
    }
}

/// The step bound of a walk: the edge count, enough for any walk that
/// never revisits an id, since every step enters a distinct edge.
pub open spec fn walk_fuel(edges: Seq<GraphEdge>) -> nat {
    edges.len() as nat
}

/// Where the upward walk of one block ends, as carried at run time.
#[derive(Debug)]
pub enum RootResolution {
    /// The block id and the root entity id the walk found.
    Resolved(String, String),
    /// The block id and the id whose own persisted context must decide.
    NeedsContext(String, String),
}

impl View for RootResolution {
    type V = WalkSpec;

    open spec fn view(&self) -> WalkSpec {
        match self {
            RootResolution::Resolved(_, root) => WalkSpec::Root(root@),
            RootResolution::NeedsContext(_, probe) => WalkSpec::NeedOwn(probe@),
        }
    }
}

/// The block id a resolution belongs to.
pub open spec fn resolution_block_id(r: RootResolution) -> Seq<char> {
    match r {
        RootResolution::Resolved(b, _) => b@,
        RootResolution::NeedsContext(b, _) => b@,
    }
}

fn walk_root_exec(
    edges: &Vec<GraphEdge>,
    blocks: &Vec<BlockNode>,
    ctxs: &Vec<(String, ExistingBlockContext)>,
    block_id: &String,
) -> (r: Result<RootResolution, KgError>)
    ensures
        match r {
            Ok(res) => spec_walk(edges@, blocks@, ctxs@, block_id@, walk_fuel(edges@)) == res@
                && resolution_block_id(res) == block_id@,
            Err(e) => spec_walk(edges@, blocks@, ctxs@, block_id@, walk_fuel(edges@))
                == WalkSpec::Cycle && e is InvalidInput,
        },
{
    let mut current: String = block_id.clone();
    let mut fuel: usize = edges.len();
    loop
        invariant
            fuel <= edges@.len(),
            spec_walk(edges@, blocks@, ctxs@, block_id@, walk_fuel(edges@)) == spec_walk(
                edges@,
                blocks@,
                ctxs@,
                current@,
                fuel as nat,
            ),
        decreases fuel,
    {
        if let Some(p) = db_parent_exec(edges, blocks, &current) {
            return Ok(RootResolution::Resolved(block_id.clone(), p));
        }
        if let Some(pb) = sum_parent_exec(edges, blocks, &current) {
            if let Some(c) = ctx_for_exec(ctxs, &pb) {
                return Ok(RootResolution::Resolved(block_id.clone(), c.root_entity_id));
            }
            if fuel == 0 {
                let mut msg = "cycle detected while resolving root_entity_id for block ".to_owned();
                append_str(&mut msg, block_id.as_str());
                return Err(KgError::InvalidInput(msg));
            }
            current = pb;
            fuel -= 1;
        } else {
            if let Some(c) = ctx_for_exec(ctxs, &current) {
                return Ok(RootResolution::Resolved(block_id.clone(), c.root_entity_id));
            }
            return Ok(RootResolution::NeedsContext(block_id.clone(), current));
        }
    }
}

/// Walks every payload block upward along its structural edges.  Each
/// block either resolves to a root entity, or names the id whose own
/// persisted context the caller must fetch; a cycle in the payload's
/// summarize edges fails the whole derivation.
pub fn root_walks(
    blocks: &Vec<BlockNode>,
    edges: &Vec<GraphEdge>,
    ctxs: &Vec<(String, ExistingBlockContext)>,
) -> (r: Result<Vec<RootResolution>, KgError>)
    ensures
        match r {
            Ok(v) => v@.len() == blocks@.len() && forall|i: int|
                0 <= i < blocks@.len() ==> (#[trigger] v@[i])@ == spec_walk(
                    edges@,
                    blocks@,
                    ctxs@,
                    blocks@[i].id@,
                    walk_fuel(edges@),
                ) && resolution_block_id(v@[i]) == blocks@[i].id@,
            Err(e) => (exists|i: int|
                0 <= i < blocks@.len() && spec_walk(
                    edges@,
                    blocks@,
                    ctxs@,
                    (#[trigger] blocks@[i]).id@,
                    walk_fuel(edges@),
                ) == WalkSpec::Cycle) && e is InvalidInput,
        },
{
    let mut out: Vec<RootResolution> = Vec::new();
    let mut i: usize = 0;
    while i < blocks.len()
        invariant
            i <= blocks@.len(),
            out@.len() == i,
            forall|j: int|
                0 <= j < i ==> (#[trigger] out@[j])@ == spec_walk(
                    edges@,
                    blocks@,
                    ctxs@,
                    blocks@[j].id@,
                    walk_fuel(edges@),
                ) && resolution_block_id(out@[j]) == blocks@[j].id@,
        decreases blocks@.len() - i,
    {
        match walk_root_exec(edges, blocks, ctxs, &blocks[i].id) {
            Ok(res) => {
                out.push(res);
            },
            Err(e) => {
                return Err(e);
            },
        }
        i += 1;
    }
    Ok(out)
}

/// Views of a list of id-to-id pairs.
pub open spec fn pair_views(s: Seq<(String, String)>) -> Seq<(Seq<char>, Seq<char>)> {
    s.map_values(|p: (String, String)| (p.0@, p.1@))
}

/// The root entity each walk outcome settles on, once the missing own
/// contexts are in: a walk that ended at a probe id takes that context's
/// recorded root, and fails if the store knows none.
pub fn finish_root_resolution(
    resolutions: &Vec<RootResolution>,
    own: &Vec<(String, ExistingBlockContext)>,
) -> (r: Result<Vec<(String, String)>, KgError>)
    ensures
        match r {
            Ok(v) => v@.len() == resolutions@.len() && forall|i: int|
                0 <= i < v@.len() ==> (#[trigger] v@[i]).0@ == resolution_block_id(resolutions@[i])
                    && match resolutions@[i]@ {
                    WalkSpec::Root(root) => v@[i].1@ == root,
                    WalkSpec::NeedOwn(probe) => ctx_for(own@, probe) is Some && v@[i].1@
                        == ctx_for(own@, probe)->Some_0.root_entity_id@,
                    WalkSpec::Cycle => false,
                },
            Err(e) => (exists|i: int|
                0 <= i < resolutions@.len() && ((#[trigger] resolutions@[i])@ matches
                    WalkSpec::NeedOwn(probe) && ctx_for(own@, probe) is None)) && e is InvalidInput,
        },
{
    let mut out: Vec<(String, String)> = Vec::new();
    let n = resolutions.len();
    let mut i: usize = 0;
    while i < n
        invariant
            n == resolutions@.len(),
            i <= n,
            out@.len() == i,
            forall|j: int|
                0 <= j < i ==> (#[trigger] out@[j]).0@ == resolution_block_id(resolutions@[j]) && match resolutions@[j]@ {
                    WalkSpec::Root(root) => out@[j].1@ == root,
                    WalkSpec::NeedOwn(probe) => ctx_for(own@, probe) is Some && out@[j].1@
                        == ctx_for(own@, probe)->Some_0.root_entity_id@,
                    WalkSpec::Cycle => false,
                },
        decreases n - i,
    {
        match &resolutions[i] {
            RootResolution::Resolved(b, root) => {
                out.push((b.clone(), root.clone()));
            },
            RootResolution::NeedsContext(b, probe) => {
                match ctx_for_exec(own, probe) {
                    Some(c) => {
                        out.push((b.clone(), c.root_entity_id));
                    },
                    None => {
                        proof {
                            assert(resolutions@[i as int]@ matches WalkSpec::NeedOwn(probe0)
                                && ctx_for(own@, probe0) is None);
                        }
                        let mut msg = "unable to resolve root_entity_id for block ".to_owned();
                        append_str(&mut msg, b.as_str());
                        append_str(&mut msg, " from DESCRIBED_BY/SUMMARIZES edges");
                        return Err(KgError::InvalidInput(msg));
                    },
                }
            },
        }
        i += 1;
    }
    Ok(out)
}

/// The root entity recorded for a block id, if any (first match).
pub open spec fn root_for(roots: Seq<(String, String)>, id: Seq<char>) -> Option<Seq<char>>
    decreases roots.len(),
{
    if roots.len() == 0 {
        Option::None
    } else if roots[0].0@ == id {
        Option::Some(roots[0].1@)
    } else {
        root_for(roots.drop_first(), id)
    }
}

pub fn root_for_exec(roots: &Vec<(String, String)>, id: &String) -> (r: Option<String>)
    ensures
        match r {
            Option::Some(v) => root_for(roots@, id@) == Option::Some(v@),
            Option::None => root_for(roots@, id@) is None,
        },
{
    let mut i: usize = 0;
    proof {
        assert(roots@.skip(0int) =~= roots@);
    }
    while i < roots.len()
        invariant
            i <= roots@.len(),
            root_for(roots@, id@) == root_for(roots@.skip(i as int), id@),
        decreases roots@.len() - i,
    {
        proof {
            assert(roots@.skip(i as int)[0] == roots@[i as int]);
            assert(roots@.skip(i as int).drop_first() =~= roots@.skip(i + 1));
        }
        if str_eq(roots[i].0.as_str(), id.as_str()) {
            return Some(roots[i].1.clone());
        }
        i += 1;
    }
    proof {
        assert(roots@.skip(roots@.len() as int) =~= Seq::<(String, String)>::empty());
    }
    None
}

/// The `text` property of a block, or the empty string: the first
/// property whose key is `text` and whose value is a plain string.
pub open spec fn spec_text_of(props: Seq<PropertyValue>) -> Seq<char>
    decreases props.len(),
{
    if props.len() == 0 {
        Seq::empty()
    } else if props[0].key@ == "text"@ && props[0].value is String {
        props[0].value->String_0@
    } else {
        spec_text_of(props.drop_first())
    }
}

/// Extracts a block's text for embedding.
pub fn extract_text(properties: &Vec<PropertyValue>) -> (r: String)
    ensures
        r@ == spec_text_of(properties@),
{
    let mut i: usize = 0;
    proof {
        assert(properties@.skip(0int) =~= properties@);
    }
    while i < properties.len()
        invariant
            i <= properties@.len(),
            spec_text_of(properties@) == spec_text_of(properties@.skip(i as int)),
        decreases properties@.len() - i,
    {
        proof {
            assert(properties@.skip(i as int)[0] == properties@[i as int]);
            assert(properties@.skip(i as int).drop_first() =~= properties@.skip(i + 1));
        }
        if str_eq(properties[i].key.as_str(), "text") {
            if let PropertyScalar::String(v) = &properties[i].value {
                return v.clone();
            }
        }
        i += 1;
    }
    proof {
        assert(properties@.skip(properties@.len() as int) =~= Seq::<PropertyValue>::empty());
    }
    String::new()
}


/// Saturating successor within the signed 64-bit range.
pub open spec fn succ_level(x: int) -> int {
    if x >= i64::MAX {
        i64::MAX as int
    } else {
        x + 1
    }
}

/// The smaller of two optional levels; an absent side never wins.
pub open spec fn opt_min(a: Option<int>, b: Option<int>) -> Option<int> {
    match (a, b) {
        (Option::Some(x), Option::Some(y)) => if x <= y {
            Option::Some(x)
        } else {
            Option::Some(y)
        },
        (Option::Some(x), Option::None) => Option::Some(x),
        (Option::None, Option::Some(y)) => Option::Some(y),
        (Option::None, Option::None) => Option::None,
    }
}

/// A payload summarize edge whose source carries a level: another payload
/// block, or a persisted parent with a fetched context.
pub open spec fn is_relax_edge(
    blocks: Seq<BlockNode>,
    ctxs: Seq<(String, ExistingBlockContext)>,
    e: GraphEdge,
) -> bool {
    is_sum_edge(blocks, e) && (block_ids_contain(blocks, e.from_id@) || ctx_for(ctxs, e.from_id@)
        is Some)
}

/// The seed level of an id: zero for a described block, else the level a
/// fetched context records for it (the parents' contexts first, then the
/// block's own).
pub open spec fn base_level(
    edges: Seq<GraphEdge>,
    blocks: Seq<BlockNode>,
    ctxs: Seq<(String, ExistingBlockContext)>,
    own: Seq<(String, ExistingBlockContext)>,
    id: Seq<char>,
) -> Option<int> {
    if db_parent(edges, blocks, id) is Some {
        Option::Some(0)
    } else {
        match ctx_for(ctxs, id) {
            Option::Some(c) => Option::Some(c.block_level as int),
            Option::None => match ctx_for(own, id) {
                Option::Some(c) => Option::Some(c.block_level as int),
                Option::None => Option::None,
            },
        }
    }
}

/// The level of an id: the least value derivable from a seed by walking
/// summarize edges downward, each hop adding one, within `fuel` hops.
pub open spec fn level_at(
    edges: Seq<GraphEdge>,
    blocks: Seq<BlockNode>,
    ctxs: Seq<(String, ExistingBlockContext)>,
    own: Seq<(String, ExistingBlockContext)>,
    id: Seq<char>,
    fuel: nat,
) -> Option<int>
    decreases fuel, edges.len() + 1,
{
    opt_min(base_level(edges, blocks, ctxs, own, id), best_via(edges, edges, blocks, ctxs, own, id, fuel))
}

/// The least level reachable through one of the given summarize edges
/// into `id`, each contributing its source's level plus one.
pub open spec fn best_via(
    sub: Seq<GraphEdge>,
    edges: Seq<GraphEdge>,
    blocks: Seq<BlockNode>,
    ctxs: Seq<(String, ExistingBlockContext)>,
    own: Seq<(String, ExistingBlockContext)>,
    id: Seq<char>,
    fuel: nat,
) -> Option<int>
    decreases fuel, sub.len(),
{
    if sub.len() == 0 || fuel == 0 {
        Option::None
    } else {
        let rest = best_via(sub.drop_first(), edges, blocks, ctxs, own, id, fuel);
        let head = if is_relax_edge(blocks, ctxs, sub[0]) && sub[0].to_id@ == id {
            match level_at(edges, blocks, ctxs, own, sub[0].from_id@, (fuel - 1) as nat) {
                Option::Some(v) => Option::Some(succ_level(v)),
                Option::None => Option::None,
            }
        } else {
            Option::None
        };
        opt_min(head, rest)
    }
}

/// The hop bound of the level search: the edge count, enough for any
/// derivation that never reuses an edge.
pub open spec fn level_fuel(edges: Seq<GraphEdge>) -> nat {
    edges.len() as nat
}

/// The level the derivation assigns to an id, if any seed reaches it.
pub open spec fn spec_block_level(
    edges: Seq<GraphEdge>,
    blocks: Seq<BlockNode>,
    ctxs: Seq<(String, ExistingBlockContext)>,
    own: Seq<(String, ExistingBlockContext)>,
    id: Seq<char>,
) -> Option<int> {
    level_at(edges, blocks, ctxs, own, id, level_fuel(edges))
}

fn base_level_exec(
    edges: &Vec<GraphEdge>,
    blocks: &Vec<BlockNode>,
    ctxs: &Vec<(String, ExistingBlockContext)>,
    own: &Vec<(String, ExistingBlockContext)>,
    id: &String,
) -> (r: Option<i64>)
    ensures
        match r {
            Option::Some(v) => base_level(edges@, blocks@, ctxs@, own@, id@) == Option::Some(
                v as int,
            ),
            Option::None => base_level(edges@, blocks@, ctxs@, own@, id@) is None,
        },
{
    if let Some(_) = db_parent_exec(edges, blocks, id) {
        return Some(0);
    }
    if let Some(c) = ctx_for_exec(ctxs, id) {
        return Some(c.block_level);
    }
    if let Some(c) = ctx_for_exec(own, id) {
        return Some(c.block_level);
    }
    None
}

/// Computes the least derivable level of one id within the hop bound.
fn level_at_exec(
    edges: &Vec<GraphEdge>,
    blocks: &Vec<BlockNode>,
    ctxs: &Vec<(String, ExistingBlockContext)>,
    own: &Vec<(String, ExistingBlockContext)>,
    id: &String,
    fuel: usize,
) -> (r: Option<i64>)
    ensures
        match r {
            Option::Some(v) => level_at(edges@, blocks@, ctxs@, own@, id@, fuel as nat)
                == Option::Some(v as int),
            Option::None => level_at(edges@, blocks@, ctxs@, own@, id@, fuel as nat) is None,
        },
    decreases fuel,
{
    let base = base_level_exec(edges, blocks, ctxs, own, id);
    let mut best: Option<i64> = None;
    let ghost fl = fuel as nat;
    if fuel > 0 {
        let mut j: usize = 0;
        proof {
            assert(edges@.skip(0int) =~= edges@);
        }
        while j < edges.len()
            invariant
                fl == fuel as nat,
                fuel > 0,
                j <= edges@.len(),
                best_via(edges@, edges@, blocks@, ctxs@, own@, id@, fl) == opt_min(
                    match best {
                        Option::Some(v) => Option::Some(v as int),
                        Option::None => Option::None,
                    },
                    best_via(edges@.skip(j as int), edges@, blocks@, ctxs@, own@, id@, fl),
                ),
            decreases edges@.len() - j,
        {
            proof {
                assert(edges@.skip(j as int)[0] == edges@[j as int]);
                assert(edges@.skip(j as int).drop_first() =~= edges@.skip(j + 1));
            }
            let e = &edges[j];
            let is_sum = eq_ignore_case_str(e.edge_type.as_str(), "SUMMARIZES") && block_ids_contain_exec(
                blocks,
                &e.to_id,
            );
            let mut relax = false;
            if is_sum && str_eq(e.to_id.as_str(), id.as_str()) {
                if block_ids_contain_exec(blocks, &e.from_id) {
                    relax = true;
                } else if let Some(_) = ctx_for_exec(ctxs, &e.from_id) {
                    relax = true;
                }
            }
            if relax {
                let rec = level_at_exec(edges, blocks, ctxs, own, &e.from_id, fuel - 1);
                let cand: Option<i64> = match rec {
                    Some(v) => if v == i64::MAX {
                        Some(i64::MAX)
                    } else {
                        Some(v + 1)
                    },
                    None => None,
                };
                let newbest: Option<i64> = match (best, cand) {
                    (Some(b), Some(c)) => if b <= c {
                        Some(b)
                    } else {
                        Some(c)
                    },
                    (Some(b), None) => Some(b),
                    (None, Some(c)) => Some(c),
                    (None, None) => None,
                };
                best = newbest;
            }
            j += 1;
        }
        proof {
            assert(edges@.skip(edges@.len() as int) =~= Seq::<GraphEdge>::empty());
        }
    }
    let r: Option<i64> = match (base, best) {
        (Some(b), Some(c)) => if b <= c {
            Some(b)
        } else {
            Some(c)
        },
        (Some(b), None) => Some(b),
        (None, Some(c)) => Some(c),
        (None, None) => None,
    };
    r
}

/// Views of a list of id-to-level pairs.
pub open spec fn level_views(s: Seq<(String, i64)>) -> Seq<(Seq<char>, int)> {
    s.map_values(|p: (String, i64)| (p.0@, p.1 as int))
}

/// Assigns each payload block its hierarchy level: zero for a described
/// block, a fetched context's level for an anchored one, and one more
/// than its summarizing parent otherwise, minimized over all derivations.
/// Blocks no derivation reaches are left out.
pub fn block_levels_for_blocks(
    blocks: &Vec<BlockNode>,
    edges: &Vec<GraphEdge>,
    ctxs: &Vec<(String, ExistingBlockContext)>,
    own: &Vec<(String, ExistingBlockContext)>,
) -> (r: Vec<(String, i64)>)
    ensures
        level_views(r@) == blocks@.flat_map(
            |b: BlockNode| match spec_block_level(edges@, blocks@, ctxs@, own@, b.id@) {
                Option::Some(v) => seq![(b.id@, v)],
                Option::None => Seq::<(Seq<char>, int)>::empty(),
            },
        ),
{
    let ghost g = |b: BlockNode| match spec_block_level(edges@, blocks@, ctxs@, own@, b.id@) {
        Option::Some(v) => seq![(b.id@, v)],
        Option::None => Seq::<(Seq<char>, int)>::empty(),
    };
    let mut out: Vec<(String, i64)> = Vec::new();
    let mut i: usize = 0;
    proof {
        assert(blocks@.take(0int).flat_map(g) =~= Seq::<(Seq<char>, int)>::empty());
    }
    while i < blocks.len()
        invariant
            g == (|b: BlockNode| match spec_block_level(edges@, blocks@, ctxs@, own@, b.id@) {
                Option::Some(v) => seq![(b.id@, v)],
                Option::None => Seq::<(Seq<char>, int)>::empty(),
            }),
            i <= blocks@.len(),
            level_views(out@) =~= blocks@.take(i as int).flat_map(g),
        decreases blocks@.len() - i,
    {
        let lvl = level_at_exec(edges, blocks, ctxs, own, &blocks[i].id, edges.len());
        let ghost pre = out@;
        if let Some(v) = lvl {
            out.push((blocks[i].id.clone(), v));
            proof {
                assert(level_views(out@) =~= level_views(pre).push(
                    (blocks@[i as int].id@, v as int),
                ));
            }
        }
        proof {
            blocks@.lemma_flat_map_take_append(g, i as int);
        }
        i += 1;
    }
    proof {
        assert(blocks@.take(blocks@.len() as int) =~= blocks@);
    }
    out
}

/// The level recorded for a block id, if any (first match).
pub open spec fn level_for(levels: Seq<(String, i64)>, id: Seq<char>) -> Option<int>
    decreases levels.len(),
{
    if levels.len() == 0 {
        Option::None
    } else if levels[0].0@ == id {
        Option::Some(levels[0].1 as int)
    } else {
        level_for(levels.drop_first(), id)
    }
}

pub fn level_for_exec(levels: &Vec<(String, i64)>, id: &String) -> (r: Option<i64>)
    ensures
        match r {
            Option::Some(v) => level_for(levels@, id@) == Option::Some(v as int),
            Option::None => level_for(levels@, id@) is None,
        },
{
    let mut i: usize = 0;
    proof {
        assert(levels@.skip(0int) =~= levels@);
    }
    while i < levels.len()
        invariant
            i <= levels@.len(),
            level_for(levels@, id@) == level_for(levels@.skip(i as int), id@),
        decreases levels@.len() - i,
    {
        proof {
            assert(levels@.skip(i as int)[0] == levels@[i as int]);
            assert(levels@.skip(i as int).drop_first() =~= levels@.skip(i + 1));
        }
        if str_eq(levels[i].0.as_str(), id.as_str()) {
            return Some(levels[i].1);
        }
        i += 1;
    }
    proof {
        assert(levels@.skip(levels@.len() as int) =~= Seq::<(String, i64)>::empty());
    }
    None
}

/// An id that summarizes a payload block from outside the payload, whose
/// persisted context must be fetched before derivation.
pub open spec fn is_external_sum_parent(
    blocks: Seq<BlockNode>,
    edges: Seq<GraphEdge>,
    pid: Seq<char>,
) -> bool {
    exists|i: int|
        0 <= i < edges.len() && is_sum_edge(blocks, #[trigger] edges[i]) && !block_ids_contain(
            blocks,
            edges[i].from_id@,
        ) && edges[i].from_id@ == pid
}

/// The user and visibility under which an external parent is looked up:
/// those of the last summarize edge naming it.
pub open spec fn scope_for(
    blocks: Seq<BlockNode>,
    edges: Seq<GraphEdge>,
    pid: Seq<char>,
) -> Option<(Seq<char>, Visibility)>
    decreases edges.len(),
{
    if edges.len() == 0 {
        Option::None
    } else if is_sum_edge(blocks, edges.last()) && !block_ids_contain(
        blocks,
        edges.last().from_id@,
    ) && edges.last().from_id@ == pid {
        Option::Some((edges.last().user_id@, edges.last().visibility))
    } else {
        scope_for(blocks, edges.drop_last(), pid)
    }
}

/// Views of a fetch plan.
pub open spec fn scope_views(s: Seq<(String, String, Visibility)>) -> Seq<
    (Seq<char>, Seq<char>, Visibility),
> {
    s.map_values(|p: (String, String, Visibility)| (p.0@, p.1@, p.2))
}

/// The ids whose persisted contexts the derivation needs before it can
/// run: every summarize parent outside the payload, each with the scope
/// of the last edge naming it.  Each id appears once.
pub fn summarize_parent_scopes(blocks: &Vec<BlockNode>, edges: &Vec<GraphEdge>) -> (r: Vec<
    (String, String, Visibility),
>)
    ensures
        forall|p: int, q: int| 0 <= p < q < r@.len() ==> (#[trigger] r@[p]).0@ != (#[trigger] r@[q]).0@,
        forall|k: int|
            0 <= k < r@.len() ==> is_external_sum_parent(blocks@, edges@, (#[trigger] r@[k]).0@)
                && scope_for(blocks@, edges@, r@[k].0@) == Option::Some((r@[k].1@, r@[k].2)),
        forall|pid: Seq<char>|
            is_external_sum_parent(blocks@, edges@, pid) ==> exists|k: int|
                0 <= k < r@.len() && (#[trigger] r@[k].0@) == pid,
{
    let mut out: Vec<(String, String, Visibility)> = Vec::new();
    let mut i: usize = edges.len();
    proof {
        assert(edges@.take(edges@.len() as int) =~= edges@);
    }
    while i > 0
        invariant
            i <= edges@.len(),
            forall|p: int, q: int|
                0 <= p < q < out@.len() ==> (#[trigger] out@[p]).0@ != (#[trigger] out@[q]).0@,
            forall|k: int|
                0 <= k < out@.len() ==> is_external_sum_parent(
                    blocks@,
                    edges@,
                    (#[trigger] out@[k]).0@,
                ) && scope_for(blocks@, edges@, out@[k].0@) == Option::Some(
                    (out@[k].1@, out@[k].2),
                ),
            forall|pid: Seq<char>|
                is_external_sum_parent_from(blocks@, edges@, i as int, pid) ==> exists|k: int|
                    0 <= k < out@.len() && (#[trigger] out@[k].0@) == pid,
        decreases i,
    {
        i -= 1;
        let ghost pre = out@;
        let e = &edges[i];
        let external = eq_ignore_case_str(e.edge_type.as_str(), "SUMMARIZES")
            && block_ids_contain_exec(blocks, &e.to_id) && !block_ids_contain_exec(
            blocks,
            &e.from_id,
        );
        if external {
            let present = scope_key_present(&out, &e.from_id);
            if !present {
                proof {
                    lemma_scope_for_from_last(blocks@, edges@, i as int);
                }
                out.push((e.from_id.clone(), e.user_id.clone(), e.visibility));
            }
            proof {
                if !present {
                    assert((out@[out@.len() - 1].0@) == edges@[i as int].from_id@);
                }
                assert(exists|k: int|
                    0 <= k < out@.len() && (#[trigger] out@[k].0@) == edges@[i as int].from_id@);
            }
        }
        proof {
            lemma_external_from_step(blocks@, edges@, i as int);
            assert forall|k: int| 0 <= k < pre.len() implies out@[k] == pre[k] by {}
            assert forall|pid: Seq<char>|
                is_external_sum_parent_from(blocks@, edges@, i as int, pid) implies exists|k: int|
                0 <= k < out@.len() && (#[trigger] out@[k].0@) == pid by {
                if is_external_sum_parent_from(blocks@, edges@, i + 1, pid) {
                    let k0 = choose|k0: int| 0 <= k0 < pre.len() && (#[trigger] pre[k0].0@) == pid;
                    assert((out@[k0].0@) == pid);
                } else {
                    assert(pid == edges@[i as int].from_id@);
                }
            }
        }
    }
    proof {
        assert forall|pid: Seq<char>|
            is_external_sum_parent(blocks@, edges@, pid) implies is_external_sum_parent_from(
            blocks@,
            edges@,
            0int,
            pid,
        ) by {}
    }
    out
}

/// Whether the plan already holds an entry for the id.
fn scope_key_present(out: &Vec<(String, String, Visibility)>, key: &String) -> (r: bool)
    ensures
        r == exists|k: int| 0 <= k < out@.len() && (#[trigger] out@[k].0@) == key@,
{
    let mut k: usize = 0;
    while k < out.len()
        invariant
            k <= out@.len(),
            forall|q: int| 0 <= q < k ==> (#[trigger] out@[q].0@) != key@,
        decreases out@.len() - k,
    {
        if str_eq(out[k].0.as_str(), key.as_str()) {
            proof {
                assert((out@[k as int].0@) == key@);
            }
            return true;
        }
        k += 1;
    }
    false
}

/// An external summarize parent named by an edge at or after position `i`.
pub open spec fn is_external_sum_parent_from(
    blocks: Seq<BlockNode>,
    edges: Seq<GraphEdge>,
    i: int,
    pid: Seq<char>,
) -> bool {
    exists|j: int|
        i <= j < edges.len() && is_sum_edge(blocks, #[trigger] edges[j]) && !block_ids_contain(
            blocks,
            edges[j].from_id@,
        ) && edges[j].from_id@ == pid
}

proof fn lemma_external_from_step(blocks: Seq<BlockNode>, edges: Seq<GraphEdge>, i: int)
    requires
        0 <= i < edges.len(),
    ensures
        forall|pid: Seq<char>|
            is_external_sum_parent_from(blocks, edges, i, pid) == (
            is_external_sum_parent_from(blocks, edges, i + 1, pid) || (is_sum_edge(
                blocks,
                edges[i],
            ) && !block_ids_contain(blocks, edges[i].from_id@) && edges[i].from_id@ == pid)),
{
    assert forall|pid: Seq<char>|
        is_external_sum_parent_from(blocks, edges, i, pid) == (
        is_external_sum_parent_from(blocks, edges, i + 1, pid) || (is_sum_edge(blocks, edges[i])
            && !block_ids_contain(blocks, edges[i].from_id@) && edges[i].from_id@ == pid)) by {
        if is_external_sum_parent_from(blocks, edges, i, pid) {
            let j = choose|j: int|
                i <= j < edges.len() && is_sum_edge(blocks, #[trigger] edges[j])
                    && !block_ids_contain(blocks, edges[j].from_id@) && edges[j].from_id@ == pid;
            if j > i {
                assert(is_external_sum_parent_from(blocks, edges, i + 1, pid));
            }
        }
        if is_external_sum_parent_from(blocks, edges, i + 1, pid) {
            assert(is_external_sum_parent_from(blocks, edges, i, pid));
        }
    }
}

/// The scope of an external parent named at position `i` and by no later
/// edge is the scope of that edge.
proof fn lemma_scope_for_from_last(blocks: Seq<BlockNode>, edges: Seq<GraphEdge>, i: int)
    requires
        0 <= i < edges.len(),
        is_sum_edge(blocks, edges[i]),
        !block_ids_contain(blocks, edges[i].from_id@),
        !is_external_sum_parent_from(blocks, edges, i + 1, edges[i].from_id@),
    ensures
        scope_for(blocks, edges, edges[i].from_id@) == Option::Some(
            (edges[i].user_id@, edges[i].visibility),
        ),
    decreases edges.len(),
{
    let pid = edges[i].from_id@;
    if i == edges.len() - 1 {
    } else {
        let last = edges.last();
        assert(!(is_sum_edge(blocks, last) && !block_ids_contain(blocks, last.from_id@)
            && last.from_id@ == pid)) by {
            if is_sum_edge(blocks, last) && !block_ids_contain(blocks, last.from_id@)
                && last.from_id@ == pid {
                assert(is_external_sum_parent_from(blocks, edges, i + 1, pid));
            }
        }
        assert(edges.drop_last()[i] == edges[i]);
        assert(!is_external_sum_parent_from(blocks, edges.drop_last(), i + 1, pid)) by {
            if is_external_sum_parent_from(blocks, edges.drop_last(), i + 1, pid) {
                let j = choose|j: int|
                    i + 1 <= j < edges.drop_last().len() && is_sum_edge(
                        blocks,
                        #[trigger] edges.drop_last()[j],
                    ) && !block_ids_contain(blocks, edges.drop_last()[j].from_id@)
                        && edges.drop_last()[j].from_id@ == pid;
                assert(edges.drop_last()[j] == edges[j]);
                assert(is_external_sum_parent_from(blocks, edges, i + 1, pid));
            }
        }
        lemma_scope_for_from_last(blocks, edges.drop_last(), i);
    }
}

/// The lookups the level derivation needs on top of the parent contexts:
/// the own context of every block that no payload edge describes, under
/// the block's own scope.
pub fn blocks_needing_context(blocks: &Vec<BlockNode>, edges: &Vec<GraphEdge>) -> (r: Vec<
    (String, String, Visibility),
>)
    ensures
        scope_views(r@) == blocks@.flat_map(
            |b: BlockNode| if db_parent(edges@, blocks@, b.id@) is None {
                seq![(b.id@, b.user_id@, b.visibility)]
            } else {
                Seq::<(Seq<char>, Seq<char>, Visibility)>::empty()
            },
        ),
{
    let ghost g = |b: BlockNode| if db_parent(edges@, blocks@, b.id@) is None {
        seq![(b.id@, b.user_id@, b.visibility)]
    } else {
        Seq::<(Seq<char>, Seq<char>, Visibility)>::empty()
    };
    let mut out: Vec<(String, String, Visibility)> = Vec::new();
    let mut i: usize = 0;
    proof {
        assert(blocks@.take(0int).flat_map(g) =~= Seq::<(Seq<char>, Seq<char>, Visibility)>::empty());
    }
    while i < blocks.len()
        invariant
            g == (|b: BlockNode| if db_parent(edges@, blocks@, b.id@) is None {
                seq![(b.id@, b.user_id@, b.visibility)]
            } else {
                Seq::<(Seq<char>, Seq<char>, Visibility)>::empty()
            }),
            i <= blocks@.len(),
            scope_views(out@) =~= blocks@.take(i as int).flat_map(g),
        decreases blocks@.len() - i,
    {
        let described = db_parent_exec(edges, blocks, &blocks[i].id);
        let ghost pre = out@;
        if described.is_none() {
            out.push((blocks[i].id.clone(), blocks[i].user_id.clone(), blocks[i].visibility));
            proof {
                assert(scope_views(out@) =~= scope_views(pre).push(
                    (blocks@[i as int].id@, blocks@[i as int].user_id@, blocks@[i as int].visibility),
                ));
            }
        }
        proof {
            blocks@.lemma_flat_map_take_append(g, i as int);
        }
        i += 1;
    }
    proof {
        assert(blocks@.take(blocks@.len() as int) =~= blocks@);
    }
    out
}


/// Pairs the planned parent lookups with the store's answers.  Every
/// planned parent must have a persisted context; a missing one fails the
/// derivation for its block tree.
pub fn assemble_parent_contexts(
    scopes: &Vec<(String, String, Visibility)>,
    fetched: &Vec<Option<ExistingBlockContext>>,
) -> (r: Result<Vec<(String, ExistingBlockContext)>, KgError>)
    requires
        fetched@.len() == scopes@.len(),
    ensures
        match r {
            Ok(v) => v@.len() == scopes@.len() && forall|i: int|
                0 <= i < scopes@.len() ==> (#[trigger] v@[i]).0 == scopes@[i].0 && (
                fetched@[i] matches Option::Some(c) && v@[i].1 == c),
            Err(e) => (exists|i: int| 0 <= i < fetched@.len() && (#[trigger] fetched@[i]) is None)
                && e is InvalidInput,
        },
{
    let mut out: Vec<(String, ExistingBlockContext)> = Vec::new();
    let mut i: usize = 0;
    while i < scopes.len()
        invariant
            fetched@.len() == scopes@.len(),
            i <= scopes@.len(),
            out@.len() == i,
            forall|j: int|
                0 <= j < i ==> (#[trigger] out@[j]).0 == scopes@[j].0 && (fetched@[j] matches
                    Option::Some(c) && out@[j].1 == c),
        decreases scopes@.len() - i,
    {
        match &fetched[i] {
            Some(c) => {
                out.push(
                    (
                        scopes[i].0.clone(),
                        ExistingBlockContext {
                            root_entity_id: c.root_entity_id.clone(),
                            universe_id: c.universe_id.clone(),
                            block_level: c.block_level,
                        },
                    ),
                );
            },
            None => {
                let mut msg = "unable to resolve root_entity_id for block ".to_owned();
                append_str(&mut msg, scopes[i].0.as_str());
                append_str(&mut msg, " from DESCRIBED_BY/SUMMARIZES edges");
                return Err(KgError::InvalidInput(msg));
            },
        }
        i += 1;
    }
    Ok(out)
}

} // verus!
