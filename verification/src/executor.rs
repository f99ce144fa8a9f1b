//! The executor: the orchestrator and main entry point of the core.
//!
//! For one request it acquires one connection, obtains the validated
//! graphs from the graph builder, and runs each graph in its own
//! transaction, strictly in document order: commit on success, rollback
//! on failure. Each graph's storage effects are all-or-nothing; nothing
//! is guaranteed across graphs of one request (a later graph may commit
//! although an earlier one rolled back). A connector/transport error
//! aborts the remaining batch; validation and graph errors do not.

use vstd::prelude::*;
use crate::builder::{doc_wf, QueryGraphBuilder, ValidationError};
use crate::connector::{
    lemma_same_semantics_sym, lemma_same_semantics_trans, same_semantics, Connection, Connector,
    ConnectorError,
};
use crate::document::{
    data_rows, is_data, response_name, IrSerializer, QueryDocument, QuerySchema, Response,
};
use crate::graph::QueryGraph;
use crate::interpreter::{
    lemma_nodes_effect_same, lemma_nodes_results_same, nodes_effect, nodes_results,
};
use crate::pipeline::QueryPipeline;
use crate::values::{rows_view, ValueView};

verus! {

/// Any error the core surfaces to its caller: a validation error raised
/// before any storage interaction, or a connector error that aborted
/// the batch.
#[derive(Debug)]
pub enum CoreError {
    Validation(ValidationError),
    Connector(ConnectorError),
}

/// The committed rows after the first `n` graphs of a batch: each graph
/// whose response carries data applies its cumulative effect, each
/// failed graph leaves the rows untouched.
pub open spec fn batch_effect<Conn: Connection>(
    c: Conn,
    s0: Seq<Seq<Option<ValueView>>>,
    queries: Seq<(QueryGraph, IrSerializer)>,
    rs: Seq<Response>,
    n: int,
) -> Seq<Seq<Option<ValueView>>>
    decreases n,
{
    if n <= 0 {
        s0
    } else {
        let prev = batch_effect(c, s0, queries, rs, n - 1);
        if is_data(rs[n - 1]) {
            nodes_effect(c, prev, queries[n - 1].0.nodes@, queries[n - 1].0.nodes@.len() as int)
        } else {
            prev
        }
    }
}

/// The rows a whole graph returns: its terminal node's result, under
/// the connection's semantics, starting from the given staged rows.
pub open spec fn graph_result<Conn: Connection>(
    c: Conn,
    s0: Seq<Seq<Option<ValueView>>>,
    g: QueryGraph,
) -> Seq<Seq<Option<ValueView>>> {
    nodes_results(c, s0, g.nodes@, g.edges@, g.nodes@.len() as int).last()
}

/// The batch effect of `n` graphs depends only on the first `n`
/// responses.
proof fn lemma_batch_effect_prefix<Conn: Connection>(
    c: Conn,
    s0: Seq<Seq<Option<ValueView>>>,
    queries: Seq<(QueryGraph, IrSerializer)>,
    rs1: Seq<Response>,
    rs2: Seq<Response>,
    n: int,
)
    requires
        forall|i: int| 0 <= i < n ==> rs1[i] == rs2[i],
    ensures
        batch_effect(c, s0, queries, rs1, n) == batch_effect(c, s0, queries, rs2, n),
    decreases n,
{
    if n > 0 {
        lemma_batch_effect_prefix(c, s0, queries, rs1, rs2, n - 1);
    }
}

/// Run one graph in its own transaction: start, interpret, then commit
/// on success or roll back on failure (a failed commit is rolled back
/// too). The graph's effects are all-or-nothing: a data response holds
/// the graph's terminal result and leaves the committed rows equal to
/// the graph's cumulative effect; every other outcome leaves them
/// exactly as they were.
pub fn execute_one<Conn: Connection>(
    conn: &mut Conn,
    graph: QueryGraph,
    serializer: IrSerializer,
) -> (r: Result<Response, ConnectorError>)
    requires
        !old(conn).in_transaction(),
        graph.wf(),
    ensures
        !final(conn).in_transaction(),
        same_semantics(*old(conn), *final(conn)),
        r matches Ok(resp) ==> response_name(resp) == serializer.operation_name@,
        r matches Ok(resp) && is_data(resp) ==> final(conn).committed() == nodes_effect(
            *old(conn),
            old(conn).committed(),
            graph.nodes@,
            graph.nodes@.len() as int,
        ),
        r matches Ok(resp) ==> (is_data(resp) ==> rows_view(data_rows(resp)) == graph_result(
            *old(conn),
            old(conn).committed(),
            graph,
        )),
        r matches Ok(resp) && !is_data(resp) ==> final(conn).committed() == old(conn).committed(),
        r is Err ==> final(conn).committed() == old(conn).committed(),
{
    let ghost c0 = *conn;
    let ghost g = graph;
    match conn.start_transaction() {
        Ok(()) => {},
        Err(e) => {
            return Err(e);
        },
    }
    let ghost c1 = *conn;
    let response = QueryPipeline::new(graph, serializer).execute(conn);
    let ghost c2 = *conn;
    proof {
        lemma_same_semantics_trans(c0, c1, c2);
    }
    let success = match &response {
        Response::Data { .. } => true,
        Response::Error { .. } => false,
    };
    if success {
        match conn.commit() {
            Ok(()) => {
                proof {
                    lemma_same_semantics_trans(c0, c2, *conn);
                    lemma_nodes_effect_same(c1, c0, c1.staged(), g.nodes@, g.nodes@.len() as int);
                    lemma_nodes_results_same(
                        c1,
                        c0,
                        c1.staged(),
                        g.nodes@,
                        g.edges@,
                        g.nodes@.len() as int,
                    );
                }
                Ok(response)
            },
            Err(e) => {
                // a failed commit is a hard error; roll the transaction
                // back so it is not left open, then surface the error
                let ghost c3 = *conn;
                let rollback_result = conn.rollback();
                proof {
                    lemma_same_semantics_trans(c0, c2, c3);
                    lemma_same_semantics_trans(c0, c3, *conn);
                }
                match rollback_result {
                    Ok(()) => Err(e),
                    Err(e2) => Err(e2),
                }
            },
        }
    } else {
        let rollback_result = conn.rollback();
        proof {
            lemma_same_semantics_trans(c0, c2, *conn);
        }
        match rollback_result {
            Ok(()) => Ok(response),
            Err(e) => Err(e),
        }
    }
}

/// Run every (graph, descriptor) pair of one request over one
/// connection, strictly sequentially and in input order. A success
/// returns one response per pair, keyed and ordered as the input, each
/// data response holding its graph's result over the rows committed so
/// far, and the committed rows equal to the batch effect of the data
/// responses. A connector error aborts the remaining pairs; the rows
/// committed by the graphs already finished stay committed.
pub fn execute_all<Conn: Connection>(
    conn: &mut Conn,
    queries: Vec<(QueryGraph, IrSerializer)>,
) -> (r: Result<Vec<Response>, ConnectorError>)
    requires
        !old(conn).in_transaction(),
        forall|i: int| 0 <= i < queries@.len() ==> (#[trigger] queries@[i]).0.wf(),
    ensures
        !final(conn).in_transaction(),
        same_semantics(*old(conn), *final(conn)),
        r matches Ok(rs) ==> {
            &&& rs@.len() == queries@.len()
            &&& forall|i: int|
                0 <= i < rs@.len() ==> response_name(#[trigger] rs@[i])
                    == queries@[i].1.operation_name@
            &&& final(conn).committed() == batch_effect(
                *old(conn),
                old(conn).committed(),
                queries@,
                rs@,
                queries@.len() as int,
            )
            &&& forall|i: int|
                0 <= i < rs@.len() && is_data(#[trigger] rs@[i]) ==> rows_view(data_rows(rs@[i]))
                    == graph_result(
                    *old(conn),
                    batch_effect(*old(conn), old(conn).committed(), queries@, rs@, i),
                    queries@[i].0,
                )
        },
        r is Err ==> exists|rs: Seq<Response>|
            rs.len() <= queries@.len() && final(conn).committed() == batch_effect(
                *old(conn),
                old(conn).committed(),
                queries@,
                rs,
                rs.len() as int,
            ),
{
    let ghost c0 = *conn;
    let ghost com0 = conn.committed();
    let ghost qs0 = queries@;
    let mut qs = queries;
    let mut results: Vec<Response> = Vec::new();
    while qs.len() > 0
        invariant
            c0 == *old(conn),
            com0 == old(conn).committed(),
            qs0 == queries@,
            qs@ == qs0.skip(results@.len() as int),
            results@.len() + qs@.len() == qs0.len(),
            forall|i: int| 0 <= i < qs0.len() ==> (#[trigger] qs0[i]).0.wf(),
            !conn.in_transaction(),
            same_semantics(c0, *conn),
            forall|i: int|
                0 <= i < results@.len() ==> response_name(#[trigger] results@[i])
                    == qs0[i].1.operation_name@,
            conn.committed() == batch_effect(c0, com0, qs0, results@, results@.len() as int),
            forall|i: int|
                0 <= i < results@.len() && is_data(#[trigger] results@[i]) ==> rows_view(
                    data_rows(results@[i]),
                ) == graph_result(c0, batch_effect(c0, com0, qs0, results@, i), qs0[i].0),
        decreases qs@.len(),
    {
        let ghost k = results@.len() as int;
        let (graph, serializer) = qs.remove(0);
        proof {
            assert((graph, serializer) == qs0[k]);
            assert(qs@ =~= qs0.skip(k + 1));
        }
        let ghost cb = *conn;
        let ghost comb = conn.committed();
        match execute_one(conn, graph, serializer) {
            Ok(resp) => {
                proof {
                    lemma_same_semantics_trans(c0, cb, *conn);
                    lemma_batch_effect_prefix(c0, com0, qs0, results@, results@.push(resp), k);
                    assert forall|i: int| 0 <= i < k implies batch_effect(
                        c0,
                        com0,
                        qs0,
                        results@.push(resp),
                        i,
                    ) == batch_effect(c0, com0, qs0, results@, i) by {
                        lemma_batch_effect_prefix(c0, com0, qs0, results@, results@.push(resp), i);
                    }
                    if is_data(resp) {
                        lemma_nodes_effect_same(
                            cb,
                            c0,
                            comb,
                            qs0[k].0.nodes@,
                            qs0[k].0.nodes@.len() as int,
                        );
                        lemma_same_semantics_sym(c0, cb);
                        lemma_nodes_results_same(
                            cb,
                            c0,
                            comb,
                            qs0[k].0.nodes@,
                            qs0[k].0.edges@,
                            qs0[k].0.nodes@.len() as int,
                        );
                    }
                }
                results.push(resp);
            },
            Err(e) => {
                proof {
                    lemma_same_semantics_trans(c0, cb, *conn);
                    assert(conn.committed() == batch_effect(
                        c0,
                        com0,
                        qs0,
                        results@,
                        results@.len() as int,
                    ));
                }
                return Err(e);
            },
        }
    }
    proof {
        assert(results@.len() == qs0.len());
    }
    Ok(results)
}

/// Central query executor and main entry point into the query core:
/// interprets the graphs of one request to produce its responses.
pub struct InterpretingExecutor<C> {
    pub connector: C,
    pub primary_connector: &'static str,
}

impl<C: Connector> InterpretingExecutor<C> {
    /// Bind an executor to its connector; the name labels the primary
    /// connector for diagnostics.
    pub fn new(connector: C, primary_connector: &'static str) -> (r: InterpretingExecutor<C>)
        ensures
            r.connector == connector,
            r.primary_connector == primary_connector,
    {
        InterpretingExecutor { connector, primary_connector }
    }

    /// Execute one request: acquire a connection, build the query
    /// graphs, and run each in its own transaction. A success returns
    /// exactly one response per operation, in document order, each keyed
    /// under its operation's name, whatever ordering was used
    /// internally; an ill-formed document never succeeds and surfaces a
    /// validation error before any storage interaction.
    pub fn execute(&self, query_doc: QueryDocument, query_schema: &QuerySchema) -> (r: Result<
        Vec<Response>,
        CoreError,
    >)
        ensures
            r matches Ok(rs) ==> {
                &&& doc_wf(*query_schema, query_doc)
                &&& rs@.len() == query_doc.operations@.len()
                &&& forall|i: int|
                    0 <= i < rs@.len() ==> response_name(#[trigger] rs@[i])
                        == query_doc.operations@[i].name@
            },
            !doc_wf(*query_schema, query_doc) ==> !(r is Ok),
            r matches Err(CoreError::Validation(_)) ==> !doc_wf(*query_schema, query_doc),
    {
        let mut conn = match self.connector.get_connection() {
            Ok(c) => c,
            Err(e) => {
                return Err(CoreError::Connector(e));
            },
        };
        let queries = match QueryGraphBuilder::new(query_schema).build(query_doc) {
            Ok(qs) => qs,
            Err(e) => {
                return Err(CoreError::Validation(e));
            },
        };
        match execute_all(&mut conn, queries) {
            Ok(rs) => Ok(rs),
            Err(e) => Err(CoreError::Connector(e)),
        }
    }

    /// The name of the primary connector.
    pub fn primary_connector(&self) -> (r: &'static str)
        ensures
            r == self.primary_connector,
    {
        self.primary_connector
    }
}

} // verus!
