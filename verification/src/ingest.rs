//! The ingest pipeline around the validator: attaching resolved labels,
//! extracting block texts, joining blocks with their embeddings and
//! derived hierarchy into the records the vector index stores, and the
//! decision protocol of the two-store commit.

use vstd::prelude::*;

use crate::domain::{
    BlockNode, EmbeddedBlock, EntityNode, GraphDelta, KgError, NodeRelationshipCounts,
    SchemaSnapshot,
};
use crate::hierarchy::{extract_text, level_for, level_for_exec, root_for, root_for_exec, spec_text_of};
use crate::inherit::views;
use crate::labels::{resolve_labels_for_type, spec_labels};
use crate::text::str_eq;
use crate::validate::{
    common_universe_id_seq, spec_validate, validate_delta, ValidationReport,
};

verus! {

/// The dimension of every embedding vector the core stores.
pub const EMBEDDING_DIM: usize = 3072;

/// A delta that passed validation, with labels attached and the block
/// texts extracted in block order.
#[derive(Debug)]
pub struct PreparedDelta {
    pub delta: GraphDelta,
    pub texts: Vec<String>,
}

/// The second element keeps everything of the first but carries the
/// label chain resolved for its type.
pub open spec fn entity_labeled(a: EntityNode, b: EntityNode, snap: SchemaSnapshot) -> bool {
    &&& b.id == a.id
    &&& b.type_id == a.type_id
    &&& b.universe_id == a.universe_id
    &&& b.user_id == a.user_id
    &&& b.visibility == a.visibility
    &&& b.properties@ == a.properties@
    &&& views(b.resolved_labels@) == spec_labels(snap.inheritance@, a.type_id@)
}

pub open spec fn block_labeled(a: BlockNode, b: BlockNode, snap: SchemaSnapshot) -> bool {
    &&& b.id == a.id
    &&& b.type_id == a.type_id
    &&& b.user_id == a.user_id
    &&& b.visibility == a.visibility
    &&& b.properties@ == a.properties@
    &&& views(b.resolved_labels@) == spec_labels(snap.inheritance@, a.type_id@)
}

/// Validates a delta and, on acceptance, attaches to every entity and
/// block the label chain of its type and extracts every block's text in
/// order.  On refusal the report holds every issue the rules drew.
pub fn prepare_ingest(
    delta: &GraphDelta,
    snapshot: &SchemaSnapshot,
    counts: &Vec<(String, NodeRelationshipCounts)>,
) -> (r: Result<PreparedDelta, ValidationReport>)
    ensures
        match r {
            Ok(p) => {
                &&& spec_validate(*delta, *snapshot, counts@).len() == 0
                &&& p.delta.universes@ == delta.universes@
                &&& p.delta.edges@.len() == delta.edges@.len()
                &&& forall|i: int|
                    0 <= i < delta.edges@.len() ==> same_edge(
                        #[trigger] p.delta.edges@[i],
                        delta.edges@[i],
                    )
                &&& p.delta.entities@.len() == delta.entities@.len()
                &&& forall|i: int|
                    0 <= i < delta.entities@.len() ==> entity_labeled(
                        delta.entities@[i],
                        #[trigger] p.delta.entities@[i],
                        *snapshot,
                    )
                &&& p.delta.blocks@.len() == delta.blocks@.len()
                &&& forall|i: int|
                    0 <= i < delta.blocks@.len() ==> block_labeled(
                        delta.blocks@[i],
                        #[trigger] p.delta.blocks@[i],
                        *snapshot,
                    )
                &&& p.texts@.len() == delta.blocks@.len()
                &&& forall|i: int|
                    0 <= i < delta.blocks@.len() ==> (#[trigger] p.texts@[i])@ == spec_text_of(
                        delta.blocks@[i].properties@,
                    )
            },
            Err(rep) => crate::validate::issue_views(rep.issues@) == spec_validate(
                *delta,
                *snapshot,
                counts@,
            ) && rep.issues@.len() > 0,
        },
{
    if let Err(rep) = validate_delta(delta, snapshot, counts) {
        return Err(rep);
    }
    let mut entities: Vec<EntityNode> = Vec::new();
    let mut i: usize = 0;
    while i < delta.entities.len()
        invariant
            i <= delta.entities@.len(),
            entities@.len() == i,
            forall|j: int|
                0 <= j < i ==> entity_labeled(
                    delta.entities@[j],
                    #[trigger] entities@[j],
                    *snapshot,
                ),
        decreases delta.entities@.len() - i,
    {
        let e = &delta.entities[i];
        entities.push(
            EntityNode {
                id: e.id.clone(),
                type_id: e.type_id.clone(),
                universe_id: match &e.universe_id {
                    Some(u) => Some(u.clone()),
                    None => None,
                },
                user_id: e.user_id.clone(),
                visibility: e.visibility,
                properties: clone_properties(&e.properties),
                resolved_labels: resolve_labels_for_type(&e.type_id, &snapshot.inheritance),
            },
        );
        i += 1;
    }
    let mut blocks: Vec<BlockNode> = Vec::new();
    let mut texts: Vec<String> = Vec::new();
    let mut k: usize = 0;
    while k < delta.blocks.len()
        invariant
            k <= delta.blocks@.len(),
            blocks@.len() == k,
            texts@.len() == k,
            forall|j: int|
                0 <= j < k ==> block_labeled(delta.blocks@[j], #[trigger] blocks@[j], *snapshot),
            forall|j: int|
                0 <= j < k ==> (#[trigger] texts@[j])@ == spec_text_of(
                    delta.blocks@[j].properties@,
                ),
        decreases delta.blocks@.len() - k,
    {
        let b = &delta.blocks[k];
        texts.push(extract_text(&b.properties));
        blocks.push(
            BlockNode {
                id: b.id.clone(),
                type_id: b.type_id.clone(),
                user_id: b.user_id.clone(),
                visibility: b.visibility,
                properties: clone_properties(&b.properties),
                resolved_labels: resolve_labels_for_type(&b.type_id, &snapshot.inheritance),
            },
        );
        k += 1;
    }
    let universes = clone_universes(&delta.universes);
    let edges = clone_edges(&delta.edges);
    Ok(
        PreparedDelta {
            delta: GraphDelta { universes, entities, blocks, edges },
            texts,
        },
    )
}

fn clone_properties(props: &Vec<crate::domain::PropertyValue>) -> (r: Vec<
    crate::domain::PropertyValue,
>)
    ensures
        r@ == props@,
{
    let mut out: Vec<crate::domain::PropertyValue> = Vec::new();
    let mut i: usize = 0;
    while i < props.len()
        invariant
            i <= props@.len(),
            out@ =~= props@.take(i as int),
        decreases props@.len() - i,
    {
        let p = &props[i];
        let value = match &p.value {
            crate::domain::PropertyScalar::String(v) => crate::domain::PropertyScalar::String(
                v.clone(),
            ),
            crate::domain::PropertyScalar::FloatBits(v) => crate::domain::PropertyScalar::FloatBits(
                *v,
            ),
            crate::domain::PropertyScalar::Int(v) => crate::domain::PropertyScalar::Int(*v),
            crate::domain::PropertyScalar::Bool(v) => crate::domain::PropertyScalar::Bool(*v),
            crate::domain::PropertyScalar::Datetime(v) => crate::domain::PropertyScalar::Datetime(
                v.clone(),
            ),
            crate::domain::PropertyScalar::Json(v) => crate::domain::PropertyScalar::Json(
                v.clone(),
            ),
        };
        out.push(crate::domain::PropertyValue { key: p.key.clone(), value });
        proof {
            assert(out@ =~= props@.take(i + 1));
        }
        i += 1;
    }
    proof {
        assert(props@.take(props@.len() as int) =~= props@);
        assert(out@ =~= props@);
    }
    out
}

fn clone_universes(us: &Vec<crate::domain::UniverseNode>) -> (r: Vec<crate::domain::UniverseNode>)
    ensures
        r@ == us@,
{
    let mut out: Vec<crate::domain::UniverseNode> = Vec::new();
    let mut i: usize = 0;
    while i < us.len()
        invariant
            i <= us@.len(),
            out@ =~= us@.take(i as int),
        decreases us@.len() - i,
    {
        let u = &us[i];
        out.push(
            crate::domain::UniverseNode {
                id: u.id.clone(),
                name: u.name.clone(),
                user_id: u.user_id.clone(),
                visibility: u.visibility,
            },
        );
        proof {
            assert(out@ =~= us@.take(i + 1));
        }
        i += 1;
    }
    proof {
        assert(us@.take(us@.len() as int) =~= us@);
        assert(out@ =~= us@);
    }
    out
}

fn clone_edges(es: &Vec<crate::domain::GraphEdge>) -> (r: Vec<crate::domain::GraphEdge>)
    ensures
        r@.len() == es@.len(),
        forall|i: int| 0 <= i < es@.len() ==> same_edge(#[trigger] r@[i], es@[i]),
{
    let mut out: Vec<crate::domain::GraphEdge> = Vec::new();
    let mut i: usize = 0;
    while i < es.len()
        invariant
            i <= es@.len(),
            out@.len() == i,
            forall|j: int| 0 <= j < i ==> same_edge(#[trigger] out@[j], es@[j]),
        decreases es@.len() - i,
    {
        let e = &es[i];
        out.push(
            crate::domain::GraphEdge {
                from_id: e.from_id.clone(),
                to_id: e.to_id.clone(),
                edge_type: e.edge_type.clone(),
                user_id: e.user_id.clone(),
                visibility: e.visibility,
                properties: clone_properties(&e.properties),
            },
        );
        i += 1;
    }
    out
}

/// The same edge value, compared field by field.
pub open spec fn same_edge(a: crate::domain::GraphEdge, b: crate::domain::GraphEdge) -> bool {
    &&& a.from_id == b.from_id
    &&& a.to_id == b.to_id
    &&& a.edge_type == b.edge_type
    &&& a.user_id == b.user_id
    &&& a.visibility == b.visibility
    &&& a.properties@ == b.properties@
}

/// The same block value, compared field by field.
pub open spec fn same_block(a: BlockNode, b: BlockNode) -> bool {
    &&& a.id == b.id
    &&& a.type_id == b.type_id
    &&& a.user_id == b.user_id
    &&& a.visibility == b.visibility
    &&& a.properties@ == b.properties@
    &&& a.resolved_labels@ == b.resolved_labels@
}

/// The first payload entity with the given id.
pub open spec fn first_entity(entities: Seq<EntityNode>, id: Seq<char>) -> Option<EntityNode>
    decreases entities.len(),
{
    if entities.len() == 0 {
        Option::None
    } else if entities[0].id@ == id {
        Option::Some(entities[0])
    } else {
        first_entity(entities.drop_first(), id)
    }
}

/// The universe an embedded block is filed under: its root entity's
/// universe when that entity stands in the payload, else the common one.
pub open spec fn spec_block_universe(
    roots: Seq<(String, String)>,
    b: BlockNode,
    entities: Seq<EntityNode>,
) -> Seq<char> {
    match root_for(roots, b.id@) {
        Option::Some(rid) => match first_entity(entities, rid) {
            Option::Some(e) => match e.universe_id {
                Option::Some(u) => u@,
                Option::None => common_universe_id_seq(),
            },
            Option::None => common_universe_id_seq(),
        },
        Option::None => common_universe_id_seq(),
    }
}

/// Resolves the universe id an embedded block is filed under.
pub fn resolve_block_universe_id(
    root_entity_ids: &Vec<(String, String)>,
    block: &BlockNode,
    entities: &Vec<EntityNode>,
) -> (r: String)
    ensures
        r@ == spec_block_universe(root_entity_ids@, *block, entities@),
{
    if let Some(rid) = root_for_exec(root_entity_ids, &block.id) {
        let mut i: usize = 0;
        proof {
            assert(entities@.skip(0int) =~= entities@);
        }
        while i < entities.len()
            invariant
                root_for(root_entity_ids@, block.id@) == Option::Some(rid@),
                i <= entities@.len(),
                first_entity(entities@, rid@) == first_entity(entities@.skip(i as int), rid@),
            decreases entities@.len() - i,
        {
            proof {
                assert(entities@.skip(i as int)[0] == entities@[i as int]);
                assert(entities@.skip(i as int).drop_first() =~= entities@.skip(i + 1));
            }
            if str_eq(entities[i].id.as_str(), rid.as_str()) {
                match &entities[i].universe_id {
                    Some(u) => {
                        return u.clone();
                    },
                    None => {
                        return crate::bootstrap::common_universe_id();
                    },
                }
            }
            i += 1;
        }
        proof {
            assert(entities@.skip(entities@.len() as int) =~= Seq::<EntityNode>::empty());
        }
        crate::bootstrap::common_universe_id()
    } else {
        crate::bootstrap::common_universe_id()
    }
}

/// Joins the labeled blocks with their embeddings and derived hierarchy.
/// The batch is refused unless it carries exactly one vector per block,
/// each of the configured dimension; each record pairs a block with its
/// vector, text, level (zero when underived), root entity and universe.
pub fn build_embedded_blocks(
    blocks: &Vec<BlockNode>,
    texts: &Vec<String>,
    vectors: &Vec<Vec<u32>>,
    levels: &Vec<(String, i64)>,
    roots: &Vec<(String, String)>,
    entities: &Vec<EntityNode>,
) -> (r: Result<Vec<EmbeddedBlock>, KgError>)
    requires
        texts@.len() == blocks@.len(),
    ensures
        match r {
            Ok(v) => {
                &&& vectors@.len() == blocks@.len()
                &&& forall|i: int|
                    0 <= i < blocks@.len() ==> (#[trigger] vectors@[i])@.len() == EMBEDDING_DIM
                &&& v@.len() == blocks@.len()
                &&& forall|i: int|
                    0 <= i < blocks@.len() ==> {
                        let eb = #[trigger] v@[i];
                        &&& same_block(eb.block, blocks@[i])
                        &&& eb.vector@ == vectors@[i]@
                        &&& eb.text == texts@[i]
                        &&& eb.user_id == blocks@[i].user_id
                        &&& eb.visibility == blocks@[i].visibility
                        &&& eb.block_level as int == (match level_for(levels@, blocks@[i].id@) {
                            Option::Some(l) => l,
                            Option::None => 0,
                        })
                        &&& eb.root_entity_id@ == (match root_for(roots@, blocks@[i].id@) {
                            Option::Some(rid) => rid,
                            Option::None => Seq::<char>::empty(),
                        })
                        &&& eb.universe_id@ == spec_block_universe(roots@, blocks@[i], entities@)
                    }
            },
            Err(e) => (vectors@.len() != blocks@.len() || exists|i: int|
                0 <= i < vectors@.len() && (#[trigger] vectors@[i])@.len() != EMBEDDING_DIM) && e
                is Upstream,
        },
{
    if vectors.len() != blocks.len() {
        return Err(
            KgError::Upstream("embedding batch does not match the block batch".to_owned()),
        );
    }
    let mut out: Vec<EmbeddedBlock> = Vec::new();
    let mut i: usize = 0;
    while i < blocks.len()
        invariant
            texts@.len() == blocks@.len(),
            vectors@.len() == blocks@.len(),
            i <= blocks@.len(),
            out@.len() == i,
            forall|j: int| 0 <= j < i ==> (#[trigger] vectors@[j])@.len() == EMBEDDING_DIM,
            forall|j: int|
                0 <= j < i ==> {
                    let eb = #[trigger] out@[j];
                    &&& same_block(eb.block, blocks@[j])
                    &&& eb.vector@ == vectors@[j]@
                    &&& eb.text == texts@[j]
                    &&& eb.user_id == blocks@[j].user_id
                    &&& eb.visibility == blocks@[j].visibility
                    &&& eb.block_level as int == (match level_for(levels@, blocks@[j].id@) {
                        Option::Some(l) => l,
                        Option::None => 0,
                    })
                    &&& eb.root_entity_id@ == (match root_for(roots@, blocks@[j].id@) {
                        Option::Some(rid) => rid,
                        Option::None => Seq::<char>::empty(),
                    })
                    &&& eb.universe_id@ == spec_block_universe(roots@, blocks@[j], entities@)
                },
        decreases blocks@.len() - i,
    {
        let b = &blocks[i];
        if vectors[i].len() != EMBEDDING_DIM {
            return Err(
                KgError::Upstream(
                    "embedding dimension does not match the configured index dimension".to_owned(),
                ),
            );
        }
        let level: i64 = match level_for_exec(levels, &b.id) {
            Some(l) => l,
            None => 0,
        };
        let root: String = match root_for_exec(roots, &b.id) {
            Some(rid) => rid,
            None => String::new(),
        };
        let universe_id = resolve_block_universe_id(roots, b, entities);
        let block = BlockNode {
            id: b.id.clone(),
            type_id: b.type_id.clone(),
            user_id: b.user_id.clone(),
            visibility: b.visibility,
            properties: clone_properties(&b.properties),
            resolved_labels: clone_strings(&b.resolved_labels),
        };
        out.push(
            EmbeddedBlock {
                block,
                universe_id,
                root_entity_id: root,
                user_id: b.user_id.clone(),
                visibility: b.visibility,
                vector: vectors[i].clone(),
                block_level: level,
                text: texts[i].clone(),
            },
        );
        i += 1;
    }
    Ok(out)
}

fn clone_strings(ss: &Vec<String>) -> (r: Vec<String>)
    ensures
        r@ == ss@,
{
    let mut out: Vec<String> = Vec::new();
    let mut i: usize = 0;
    while i < ss.len()
        invariant
            i <= ss@.len(),
            out@ =~= ss@.take(i as int),
        decreases ss@.len() - i,
    {
        out.push(ss[i].clone());
        proof {
            assert(out@ =~= ss@.take(i + 1));
        }
        i += 1;
    }
    proof {
        assert(ss@.take(ss@.len() as int) =~= ss@);
        assert(out@ =~= ss@);
    }
    out
}

/// The states of one two-store commit.
#[derive(Debug, Clone, Copy, PartialEq, Eq, Structural)]
pub enum CommitState {
    /// The graph transaction is open; its writes are being applied.
    GraphPending,
    /// Every graph write succeeded inside the open transaction.
    GraphApplied,
    /// The vector upsert succeeded; the transaction may commit.
    VectorUpserted,
    /// The transaction committed; both stores agree.
    Committed,
    /// The transaction was rolled back; no graph write is visible.
    RolledBack,
    /// The commit failed after the vector upsert; the freshly written
    /// points are deleted best-effort.
    Compensated,
}

/// What the stores report between decisions.
#[derive(Debug, Clone, Copy, PartialEq, Eq, Structural)]
pub enum CommitEvent {
    GraphOk,
    GraphFailed,
    VectorOk,
    VectorFailed,
    CommitOk,
    CommitFailed,
}

/// The action the coordinator must take next.
#[derive(Debug, Clone, Copy, PartialEq, Eq, Structural)]
pub enum CommitAction {
    UpsertVectors,
    CommitGraph,
    RollbackGraph,
    DeleteVectors,
    Done,
    /// The event does not belong to the state; nothing is done.
    Ignore,
}

/// The transition relation of the commit protocol.
pub open spec fn spec_commit_step(s: CommitState, e: CommitEvent) -> (CommitState, CommitAction) {
    match (s, e) {
        (CommitState::GraphPending, CommitEvent::GraphOk) => (
            CommitState::GraphApplied,
            CommitAction::UpsertVectors,
        ),
        (CommitState::GraphPending, CommitEvent::GraphFailed) => (
            CommitState::RolledBack,
            CommitAction::RollbackGraph,
        ),
        (CommitState::GraphApplied, CommitEvent::VectorOk) => (
            CommitState::VectorUpserted,
            CommitAction::CommitGraph,
        ),
        (CommitState::GraphApplied, CommitEvent::VectorFailed) => (
            CommitState::RolledBack,
            CommitAction::RollbackGraph,
        ),
        (CommitState::VectorUpserted, CommitEvent::CommitOk) => (
            CommitState::Committed,
            CommitAction::Done,
        ),
        (CommitState::VectorUpserted, CommitEvent::CommitFailed) => (
            CommitState::Compensated,
            CommitAction::DeleteVectors,
        ),
        _ => (s, CommitAction::Ignore),
    }
}

/// One decision of the two-store commit: the graph transaction's writes
/// come first; the vector upsert runs before the commit; a vector
/// failure rolls the transaction back; a commit failure after the upsert
/// deletes the fresh points.
pub fn commit_step(state: CommitState, event: CommitEvent) -> (r: (CommitState, CommitAction))
    ensures
        r == spec_commit_step(state, event),
{
    match (state, event) {
        (CommitState::GraphPending, CommitEvent::GraphOk) => (
            CommitState::GraphApplied,
            CommitAction::UpsertVectors,
        ),
        (CommitState::GraphPending, CommitEvent::GraphFailed) => (
            CommitState::RolledBack,
            CommitAction::RollbackGraph,
        ),
        (CommitState::GraphApplied, CommitEvent::VectorOk) => (
            CommitState::VectorUpserted,
            CommitAction::CommitGraph,
        ),
        (CommitState::GraphApplied, CommitEvent::VectorFailed) => (
            CommitState::RolledBack,
            CommitAction::RollbackGraph,
        ),
        (CommitState::VectorUpserted, CommitEvent::CommitOk) => (
            CommitState::Committed,
            CommitAction::Done,
        ),
        (CommitState::VectorUpserted, CommitEvent::CommitFailed) => (
            CommitState::Compensated,
            CommitAction::DeleteVectors,
        ),
        _ => (state, CommitAction::Ignore),
    }
}

/// The state after a whole event sequence, decided step by step.
pub open spec fn run_protocol(events: Seq<CommitEvent>, s0: CommitState) -> CommitState
    decreases events.len(),
{
    if events.len() == 0 {
        s0
    } else {
        run_protocol(events.drop_first(), spec_commit_step(s0, events[0]).0)
    }
}

/// A rolled back commit stays rolled back whatever else is reported.
pub proof fn lemma_rolled_back_absorbs(events: Seq<CommitEvent>)
    ensures
        run_protocol(events, CommitState::RolledBack) == CommitState::RolledBack,
    decreases events.len(),
{
    if events.len() > 0 {
        lemma_rolled_back_absorbs(events.drop_first());
    }
}

/// Rollback atomicity: when the vector upsert fails while the graph
/// transaction is open, the protocol ends rolled back — never committed
/// — so no graph write of the call becomes visible.
pub proof fn lemma_vector_failure_rolls_back(events: Seq<CommitEvent>, i: int)
    requires
        0 <= i < events.len(),
        run_protocol(events.take(i), CommitState::GraphPending) == CommitState::GraphApplied,
        events[i] == CommitEvent::VectorFailed,
    ensures
        run_protocol(events, CommitState::GraphPending) == CommitState::RolledBack,
        run_protocol(events, CommitState::GraphPending) != CommitState::Committed,
{
    lemma_run_split(events, CommitState::GraphPending, i);
    assert(spec_commit_step(CommitState::GraphApplied, CommitEvent::VectorFailed).0
        == CommitState::RolledBack);
    lemma_rolled_back_absorbs(events.skip(i + 1));
}

/// Running a prefix and then the rest equals running the whole sequence.
proof fn lemma_run_split(events: Seq<CommitEvent>, s0: CommitState, i: int)
    requires
        0 <= i < events.len(),
    ensures
        run_protocol(events, s0) == run_protocol(
            events.skip(i + 1),
            spec_commit_step(run_protocol(events.take(i), s0), events[i]).0,
        ),
    decreases i,
{
    if i == 0 {
        assert(events.take(0int) =~= Seq::<CommitEvent>::empty());
        assert(events.skip(1) =~= events.drop_first());
    } else {
        let tail = events.drop_first();
        let s1 = spec_commit_step(s0, events[0]).0;
        lemma_run_split(tail, s1, i - 1);
        assert(tail.take(i - 1) =~= events.take(i).drop_first());
        assert(events.take(i)[0] == events[0]);
        assert(run_protocol(events.take(i), s0) == run_protocol(tail.take(i - 1), s1)) by {
            assert(events.take(i).drop_first() =~= tail.take(i - 1));
        }
        assert(tail.skip(i) =~= events.skip(i + 1));
        assert(tail[i - 1] == events[i]);
    }
}

} // verus!
