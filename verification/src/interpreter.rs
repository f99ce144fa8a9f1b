//! The interpreter: walks one query graph against one open transaction.
//!
//! Nodes run in topological order. A node becomes ready once every
//! dependency edge into it comes from a completed node; the readiness
//! check is evaluated before each node starts. On the first failing
//! node, execution halts and the failure becomes the graph's outcome;
//! no later node starts. On success the terminal node's raw result is
//! handed back for serialization.

use vstd::prelude::*;
use vstd::pervasive::unreached;
use crate::connector::{same_semantics, Connection, StorageError};
use crate::graph::{Edge, EdgeKind, Node, QueryGraph};
use crate::values::{records_clone, results_view, rows_view, Record, ValueView};

verus! {

/// Execution state of one node.
#[derive(Clone, Copy, PartialEq, Eq, Structural)]
pub enum NodeState {
    Pending,
    Ready,
    Running,
    Completed,
    Failed,
}

/// A graph execution error: which node failed, and its storage error.
/// It triggers the graph's rollback; sibling graphs go on.
pub struct GraphError {
    pub failed_node: usize,
    pub error: StorageError,
}

/// The staged rows after the first `n` nodes of a graph, under the node
/// semantics the connection `c` gives them.
pub open spec fn nodes_effect<Conn: Connection>(
    c: Conn,
    s0: Seq<Seq<Option<ValueView>>>,
    nodes: Seq<Node>,
    n: int,
) -> Seq<Seq<Option<ValueView>>>
    decreases n,
{
    if n <= 0 {
        s0
    } else {
        c.node_effect(nodes_effect(c, s0, nodes, n - 1), nodes[n - 1])
    }
}

/// The inputs the data edges among the first `k` edges feed into the
/// node at position `i`: the results of the edges' source nodes, in
/// edge order.
pub open spec fn spec_inputs(
    edges: Seq<Edge>,
    results: Seq<Seq<Seq<Option<ValueView>>>>,
    i: int,
) -> Seq<Seq<Seq<Option<ValueView>>>>
    decreases edges.len(),
{
    if edges.len() == 0 {
        Seq::empty()
    } else {
        let rest = spec_inputs(edges.drop_last(), results, i);
        if edges.last().to == i && edges.last().kind is Data {
            rest.push(results[edges.last().from as int])
        } else {
            rest
        }
    }
}

/// The results of the first `n` nodes of a graph, under the node
/// semantics the connection `c` gives them: each node runs on the
/// staged rows left by its predecessors and consumes the results its
/// data edges feed it.
pub open spec fn nodes_results<Conn: Connection>(
    c: Conn,
    s0: Seq<Seq<Option<ValueView>>>,
    nodes: Seq<Node>,
    edges: Seq<Edge>,
    n: int,
) -> Seq<Seq<Seq<Option<ValueView>>>>
    decreases n,
{
    if n <= 0 {
        Seq::empty()
    } else {
        let prev = nodes_results(c, s0, nodes, edges, n - 1);
        prev.push(
            c.node_result(
                nodes_effect(c, s0, nodes, n - 1),
                nodes[n - 1],
                spec_inputs(edges, prev, n - 1),
            ),
        )
    }
}

/// Connections that agree on node semantics agree on every cumulative
/// graph effect.
pub proof fn lemma_nodes_effect_same<Conn: Connection>(
    a: Conn,
    b: Conn,
    s0: Seq<Seq<Option<ValueView>>>,
    nodes: Seq<Node>,
    n: int,
)
    requires
        same_semantics(a, b),
    ensures
        nodes_effect(a, s0, nodes, n) == nodes_effect(b, s0, nodes, n),
    decreases n,
{
    if n > 0 {
        lemma_nodes_effect_same(a, b, s0, nodes, n - 1);
        assert(a.node_effect(nodes_effect(a, s0, nodes, n - 1), nodes[n - 1]) == b.node_effect(
            nodes_effect(a, s0, nodes, n - 1),
            nodes[n - 1],
        ));
    }
}

/// Connections that agree on node semantics agree on every node's
/// result along a graph.
pub proof fn lemma_nodes_results_same<Conn: Connection>(
    a: Conn,
    b: Conn,
    s0: Seq<Seq<Option<ValueView>>>,
    nodes: Seq<Node>,
    edges: Seq<Edge>,
    n: int,
)
    requires
        same_semantics(a, b),
    ensures
        nodes_results(a, s0, nodes, edges, n) == nodes_results(b, s0, nodes, edges, n),
    decreases n,
{
    if n > 0 {
        lemma_nodes_results_same(a, b, s0, nodes, edges, n - 1);
        lemma_nodes_effect_same(a, b, s0, nodes, n - 1);
        let prev = nodes_results(a, s0, nodes, edges, n - 1);
        assert(a.node_result(nodes_effect(a, s0, nodes, n - 1), nodes[n - 1], spec_inputs(
            edges,
            prev,
            n - 1,
        )) == b.node_result(nodes_effect(a, s0, nodes, n - 1), nodes[n - 1], spec_inputs(
            edges,
            prev,
            n - 1,
        )));
    }
}

/// Whether the node at position `i` is ready: every dependency edge
/// into it leaves a completed node. `states` holds the states of the
/// nodes before `i`.
fn node_ready(states: &Vec<NodeState>, graph: &QueryGraph, i: usize) -> (r: bool)
    requires
        graph.wf(),
        i < graph.nodes@.len(),
        states@.len() == i as int,
    ensures
        r == (forall|k: int|
            0 <= k < graph.edges@.len() && (#[trigger] graph.edges@[k]).to == i
                ==> states@[graph.edges@[k].from as int] is Completed),
{
    let mut k: usize = 0;
    while k < graph.edges.len()
        invariant
            graph.wf(),
            i < graph.nodes@.len(),
            states@.len() == i as int,
            k <= graph.edges@.len(),
            forall|j: int|
                0 <= j < k && (#[trigger] graph.edges@[j]).to == i
                    ==> states@[graph.edges@[j].from as int] is Completed,
        decreases graph.edges@.len() - k,
    {
        let e = &graph.edges[k];
        if e.to == i {
            if !(states[e.from] == NodeState::Completed) {
                return false;
            }
        }
        k = k + 1;
    }
    true
}

/// Interpret one graph inside the open transaction: run every node in
/// topological order, halting on the first failure. A success leaves
/// the staged rows equal to the graph's cumulative effect; the
/// committed rows never change here.
pub fn interpret<Conn: Connection>(conn: &mut Conn, graph: &QueryGraph) -> (r: Result<
    Vec<Record>,
    GraphError,
>)
    requires
        old(conn).in_transaction(),
        graph.wf(),
    ensures
        final(conn).in_transaction(),
        final(conn).committed() == old(conn).committed(),
        same_semantics(*old(conn), *final(conn)),
        r is Ok ==> final(conn).staged() == nodes_effect(
            *old(conn),
            old(conn).staged(),
            graph.nodes@,
            graph.nodes@.len() as int,
        ),
        r matches Ok(rows) ==> rows_view(rows@) == nodes_results(
            *old(conn),
            old(conn).staged(),
            graph.nodes@,
            graph.edges@,
            graph.nodes@.len() as int,
        ).last(),
{
    let ghost c0 = *conn;
    let ghost s0 = conn.staged();
    let mut results: Vec<Vec<Record>> = Vec::new();
    let mut states: Vec<NodeState> = Vec::new();
    let mut i: usize = 0;
    while i < graph.nodes.len()
        invariant
            c0 == *old(conn),
            s0 == old(conn).staged(),
            graph.wf(),
            i <= graph.nodes@.len(),
            conn.in_transaction(),
            conn.committed() == c0.committed(),
            same_semantics(c0, *conn),
            results@.len() == i as int,
            states@.len() == i as int,
            forall|j: int| 0 <= j < i ==> states@[j] is Completed,
            conn.staged() == nodes_effect(c0, s0, graph.nodes@, i as int),
            results_view(results@) == nodes_results(c0, s0, graph.nodes@, graph.edges@, i as int),
        decreases graph.nodes@.len() - i,
    {
        // gather the inputs the data edges into this node carry
        let mut inputs: Vec<Vec<Record>> = Vec::new();
        let mut k: usize = 0;
        proof {
            assert(graph.edges@.take(0) =~= Seq::<Edge>::empty());
            assert(results_view(inputs@) =~= Seq::<Seq<Seq<Option<ValueView>>>>::empty());
        }
        while k < graph.edges.len()
            invariant
                graph.wf(),
                i < graph.nodes@.len(),
                results@.len() == i as int,
                k <= graph.edges@.len(),
                results_view(inputs@) == spec_inputs(
                    graph.edges@.take(k as int),
                    results_view(results@),
                    i as int,
                ),
            decreases graph.edges@.len() - k,
        {
            let e = &graph.edges[k];
            proof {
                assert(graph.edges@.take(k as int + 1).drop_last() =~= graph.edges@.take(
                    k as int,
                ));
                assert(graph.edges@.take(k as int + 1).last() == graph.edges@[k as int]);
            }
            if e.to == i {
                match e.kind {
                    EdgeKind::Data => {
                        let c = records_clone(&results[e.from]);
                        proof {
                            assert(results_view(results@)[e.from as int] == rows_view(
                                results@[e.from as int]@,
                            ));
                            assert(results_view(inputs@.push(c)) =~= results_view(
                                inputs@,
                            ).push(rows_view(c@)));
                        }
                        inputs.push(c);
                    },
                    EdgeKind::Ordering => {},
                }
            }
            k = k + 1;
        }
        proof {
            assert(graph.edges@.take(graph.edges@.len() as int) =~= graph.edges@);
        }
        let ghost inpv = results_view(inputs@);
        // in topological order, this node's dependencies are complete
        let ready = node_ready(&states, graph, i);
        proof {
            assert(ready);
        }
        let ghost cb = *conn;
        let ghost sb = conn.staged();
        match conn.execute_node(&graph.nodes[i], inputs) {
            Ok(rows) => {
                proof {
                    assert(conn.staged() == cb.node_effect(sb, graph.nodes@[i as int]));
                    assert(cb.node_effect(sb, graph.nodes@[i as int]) == c0.node_effect(
                        sb,
                        graph.nodes@[i as int],
                    ));
                    assert(nodes_effect(c0, s0, graph.nodes@, i as int + 1) == c0.node_effect(
                        nodes_effect(c0, s0, graph.nodes@, i as int),
                        graph.nodes@[i as int],
                    ));
                    assert(rows_view(rows@) == cb.node_result(sb, graph.nodes@[i as int], inpv));
                    assert(cb.node_result(sb, graph.nodes@[i as int], inpv) == c0.node_result(
                        sb,
                        graph.nodes@[i as int],
                        inpv,
                    ));
                    assert(nodes_results(c0, s0, graph.nodes@, graph.edges@, i as int + 1)
                        == nodes_results(c0, s0, graph.nodes@, graph.edges@, i as int).push(
                        c0.node_result(
                            nodes_effect(c0, s0, graph.nodes@, i as int),
                            graph.nodes@[i as int],
                            spec_inputs(
                                graph.edges@,
                                nodes_results(c0, s0, graph.nodes@, graph.edges@, i as int),
                                i as int,
                            ),
                        ),
                    ));
                    assert(results_view(results@.push(rows)) =~= results_view(results@).push(
                        rows_view(rows@),
                    ));
                    assert forall|s: Seq<Seq<Option<ValueView>>>, n: Node| #[trigger] c0
                        .node_effect(s, n) == conn.node_effect(s, n) by {
                        assert(conn.node_effect(s, n) == cb.node_effect(s, n));
                        assert(c0.node_effect(s, n) == cb.node_effect(s, n));
                    }
                    assert forall|s: Seq<Seq<Option<ValueView>>>, n: Node, inp: Seq<
                        Seq<Seq<Option<ValueView>>>,
                    >| #[trigger] c0.node_result(s, n, inp) == conn.node_result(s, n, inp) by {
                        assert(conn.node_result(s, n, inp) == cb.node_result(s, n, inp));
                        assert(c0.node_result(s, n, inp) == cb.node_result(s, n, inp));
                    }
                }
                results.push(rows);
                states.push(NodeState::Completed);
                i = i + 1;
            },
            Err(e) => {
                // the node failed: halt, no later node starts
                states.push(NodeState::Failed);
                proof {
                    assert forall|s: Seq<Seq<Option<ValueView>>>, n: Node| #[trigger] c0
                        .node_effect(s, n) == conn.node_effect(s, n) by {
                        assert(conn.node_effect(s, n) == cb.node_effect(s, n));
                        assert(c0.node_effect(s, n) == cb.node_effect(s, n));
                    }
                    assert forall|s: Seq<Seq<Option<ValueView>>>, n: Node, inp: Seq<
                        Seq<Seq<Option<ValueView>>>,
                    >| #[trigger] c0.node_result(s, n, inp) == conn.node_result(s, n, inp) by {
                        assert(conn.node_result(s, n, inp) == cb.node_result(s, n, inp));
                        assert(c0.node_result(s, n, inp) == cb.node_result(s, n, inp));
                    }
                }
                return Err(GraphError { failed_node: i, error: e });
            },
        }
    }
    // every node completed: the terminal node's result is the outcome
    let ghost resultsv = results_view(results@);
    let ghost pre_results = results@;
    match results.pop() {
        Some(rows) => {
            proof {
                assert(rows == pre_results.last());
                assert(resultsv.last() == rows_view(pre_results.last()@));
            }
            Ok(rows)
        },
        None => unreached(),
    }
}

} // verus!
