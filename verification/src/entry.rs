//! History entries and the edges derived from their parent lists.

use vstd::prelude::*;

verus! {

/// Identifier of one history entry. The store derives it from the entry's
/// content; here it is modelled as a fixed-width integer.
#[derive(PartialEq, Eq, Structural, Clone, Copy, Debug, Hash)]
pub struct OpId {
    pub value: u64,
}

/// One immutable history entry: its identifier, the identifiers of its
/// parents in their recorded order, and an opaque payload that only the
/// template environment reads. A missing payload makes a template that asks
/// for it fail to render.
#[derive(Debug)]
pub struct HistoryEntry {
    pub id: OpId,
    pub parents: Vec<OpId>,
    pub payload: Option<String>,
}

/// A directed relation from an entry to one of its parents. The pipeline
/// synthesizes no transitive or elided edges, so every edge is direct.
#[derive(PartialEq, Eq, Structural, Clone, Copy, Debug)]
pub enum Edge {
    Direct(OpId),
}

impl Edge {
    pub open spec fn target(self) -> OpId {
        match self {
            Edge::Direct(id) => id,
        }
    }
}

/// The edge sequence an entry contributes to the graph: one direct edge per
/// parent identifier, parent order preserved.
pub open spec fn edges_of(parents: Seq<OpId>) -> Seq<Edge> {
    parents.map_values(|p: OpId| Edge::Direct(p))
}

/// Builds one direct edge per parent identifier, in parent order.
pub fn derive_edges(parents: &Vec<OpId>) -> (r: Vec<Edge>)
    ensures
        r@ == edges_of(parents@),
{
    let mut edges: Vec<Edge> = Vec::new();
    let mut i: usize = 0;
    while i < parents.len()
        invariant
            i <= parents.len(),
            edges@ == edges_of(parents@.take(i as int)),
        decreases parents.len() - i,
    {
        edges.push(Edge::Direct(parents[i]));
        i = i + 1;
        proof {
            assert(edges@ =~= edges_of(parents@.take(i as int)));
        }
    }
    proof {
        assert(parents@.take(parents@.len() as int) =~= parents@);
    }
    edges
}

/// Failure reported by the entry store while the ancestor walk runs.
#[derive(Debug)]
pub struct StoreError {
    pub message: String,
}

} // verus!
