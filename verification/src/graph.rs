//! The query graph: a directed acyclic graph of typed operation nodes.

use vstd::prelude::*;
use crate::filter::Predicate;
use crate::values::{Record, ScalarValue};

verus! {

/// One typed storage operation.
pub enum Node {
    /// Read the rows the predicate selects.
    Read(Predicate),
    /// Insert one row.
    Create(Record),
    /// On every row the predicate selects, set the field at the given
    /// position to the given value.
    Update(Predicate, usize, ScalarValue),
    /// Remove the rows the predicate selects.
    Delete(Predicate),
    /// Intermediate step: of the rows consumed over the incoming data
    /// edge, keep those the predicate selects. Touches no storage.
    Filter(Predicate),
}

/// The two dependency kinds between nodes.
pub enum EdgeKind {
    /// The target consumes the source's result.
    Data,
    /// The target must not start before the source completes.
    Ordering,
}

/// A dependency edge between the nodes at positions `from` and `to`.
pub struct Edge {
    pub from: usize,
    pub to: usize,
    pub kind: EdgeKind,
}

/// A graph of operation nodes: the unit of execution for one operation.
/// Nodes stand in topological order, so every edge points forward; the
/// last node is the terminal node whose result is serialized.
pub struct QueryGraph {
    pub nodes: Vec<Node>,
    pub edges: Vec<Edge>,
}

impl QueryGraph {
    /// Well-formedness: at least one node, and every edge runs from a
    /// lower to a higher position. Forward edges make the graph acyclic
    /// and give every node a deterministic topological position.
    pub open spec fn wf(&self) -> bool {
        &&& self.nodes@.len() >= 1
        &&& forall|i: int|
            0 <= i < self.edges@.len() ==> (#[trigger] self.edges@[i]).from < self.edges@[i].to
                < self.nodes@.len()
    }
}

} // verus!
