//! The pipeline: a one-shot binding of one query graph, one interpreter
//! run, and one result-shape descriptor. It drives the graph to a
//! terminal outcome and serializes it into the response envelope; it
//! holds no state beyond the single run and is never reused.

use vstd::prelude::*;
use crate::connector::{same_semantics, Connection};
use crate::document::{data_rows, is_data, response_name, IrSerializer, Response};
use crate::graph::QueryGraph;
use crate::interpreter::{interpret, nodes_effect, nodes_results};
use crate::values::rows_view;

verus! {

/// One pipeline: a graph and the descriptor its result is shaped by.
pub struct QueryPipeline {
    pub graph: QueryGraph,
    pub serializer: IrSerializer,
}

impl QueryPipeline {
    /// Bind one graph to one result-shape descriptor.
    pub fn new(graph: QueryGraph, serializer: IrSerializer) -> (r: QueryPipeline)
        ensures
            r.graph == graph,
            r.serializer == serializer,
    {
        QueryPipeline { graph, serializer }
    }

    /// Drive the graph to its outcome inside the open transaction. A
    /// success becomes a payload keyed under the operation's name and
    /// holding the graph's terminal result, with the staged rows equal
    /// to the graph's cumulative effect; a graph failure becomes a
    /// structured error response under the same key.
    pub fn execute<Conn: Connection>(self, conn: &mut Conn) -> (r: Response)
        requires
            old(conn).in_transaction(),
            self.graph.wf(),
        ensures
            final(conn).in_transaction(),
            final(conn).committed() == old(conn).committed(),
            same_semantics(*old(conn), *final(conn)),
            response_name(r) == self.serializer.operation_name@,
            is_data(r) ==> final(conn).staged() == nodes_effect(
                *old(conn),
                old(conn).staged(),
                self.graph.nodes@,
                self.graph.nodes@.len() as int,
            ),
            is_data(r) ==> rows_view(data_rows(r)) == nodes_results(
                *old(conn),
                old(conn).staged(),
                self.graph.nodes@,
                self.graph.edges@,
                self.graph.nodes@.len() as int,
            ).last(),
    {
        match interpret(conn, &self.graph) {
            Ok(rows) => Response::Data { operation_name: self.serializer.operation_name, rows },
            Err(e) => Response::Error {
                operation_name: self.serializer.operation_name,
                message: e.error.message,
            },
        }
    }
}

} // verus!
