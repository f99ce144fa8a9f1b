//! The connector capability: connections with transactional node
//! execution. The core depends only on these interfaces, never on a
//! concrete backend; each backend family supplies an implementation.

use vstd::prelude::*;
use crate::graph::Node;
use crate::values::{results_view, rows_view, Record, ValueView};

verus! {

/// A connector/transport error: fatal to the remaining batch.
#[derive(Debug)]
pub enum ConnectorError {
    /// No connection could be acquired.
    ConnectionFailed,
    /// The transaction could not be started.
    TransactionFailed,
    /// The commit was rejected; the transaction stays open so that it
    /// can still be rolled back.
    CommitFailed,
    /// The rollback itself failed.
    RollbackFailed,
}

/// A storage error of one node: fails that node's graph, not the batch.
#[derive(Debug)]
pub struct StorageError {
    pub message: String,
}

/// Two connection states agree on storage semantics: every node has the
/// same effect on every staged row set, and returns the same rows.
pub open spec fn same_semantics<C: Connection>(a: C, b: C) -> bool {
    &&& forall|s: Seq<Seq<Option<ValueView>>>, n: Node|
        #![trigger a.node_effect(s, n)]
        #![trigger b.node_effect(s, n)]
        a.node_effect(s, n) == b.node_effect(s, n)
    &&& forall|s: Seq<Seq<Option<ValueView>>>, n: Node, inp: Seq<Seq<Seq<Option<ValueView>>>>|
        #![trigger a.node_result(s, n, inp)]
        #![trigger b.node_result(s, n, inp)]
        a.node_result(s, n, inp) == b.node_result(s, n, inp)
}

/// Agreement on node semantics is symmetric.
pub proof fn lemma_same_semantics_sym<C: Connection>(a: C, b: C)
    requires
        same_semantics(a, b),
    ensures
        same_semantics(b, a),
{
    assert forall|s: Seq<Seq<Option<ValueView>>>, n: Node| #[trigger] b.node_effect(s, n)
        == a.node_effect(s, n) by {
        assert(a.node_effect(s, n) == b.node_effect(s, n));
    }
    assert forall|s: Seq<Seq<Option<ValueView>>>, n: Node, inp: Seq<Seq<Seq<Option<ValueView>>>>|
        #[trigger] b.node_result(s, n, inp) == a.node_result(s, n, inp) by {
        assert(a.node_result(s, n, inp) == b.node_result(s, n, inp));
    }
}

/// Agreement on node semantics is transitive.
pub proof fn lemma_same_semantics_trans<C: Connection>(a: C, b: C, c: C)
    requires
        same_semantics(a, b),
        same_semantics(b, c),
    ensures
        same_semantics(a, c),
{
    assert forall|s: Seq<Seq<Option<ValueView>>>, n: Node| #[trigger] a.node_effect(s, n)
        == c.node_effect(s, n) by {
        assert(a.node_effect(s, n) == b.node_effect(s, n));
        assert(b.node_effect(s, n) == c.node_effect(s, n));
    }
    assert forall|s: Seq<Seq<Option<ValueView>>>, n: Node, inp: Seq<Seq<Seq<Option<ValueView>>>>|
        #[trigger] a.node_result(s, n, inp) == c.node_result(s, n, inp) by {
        assert(a.node_result(s, n, inp) == b.node_result(s, n, inp));
        assert(b.node_result(s, n, inp) == c.node_result(s, n, inp));
    }
}

/// One backend connection. At most one transaction is open on it at a
/// time, and transactions of one connection are never interleaved, so
/// the transaction lifecycle is part of the connection's state: started,
/// then either committed or rolled back, never both and never left open.
pub trait Connection: Sized {
    /// The rows visible outside any transaction.
    spec fn committed(&self) -> Seq<Seq<Option<ValueView>>>;

    /// The rows as the open transaction sees them.
    spec fn staged(&self) -> Seq<Seq<Option<ValueView>>>;

    /// Whether a transaction is open.
    spec fn in_transaction(&self) -> bool;

    /// The backend-specific storage semantics of one node: the staged
    /// rows after the node runs on the given staged rows.
    spec fn node_effect(
        &self,
        staged: Seq<Seq<Option<ValueView>>>,
        node: Node,
    ) -> Seq<Seq<Option<ValueView>>>;

    /// The rows one node returns: a function of the staged rows, the
    /// node, and the inputs its data edges feed it. Backend-specific.
    spec fn node_result(
        &self,
        staged: Seq<Seq<Option<ValueView>>>,
        node: Node,
        inputs: Seq<Seq<Seq<Option<ValueView>>>>,
    ) -> Seq<Seq<Option<ValueView>>>;

    /// Open a transaction whose staged rows start from the committed
    /// rows. May suspend or fail; a failure leaves no transaction open.
    fn start_transaction(&mut self) -> (r: Result<(), ConnectorError>)
        requires
            !old(self).in_transaction(),
        ensures
            final(self).committed() == old(self).committed(),
            forall|s: Seq<Seq<Option<ValueView>>>, n: Node| #[trigger] final(self).node_effect(
                s,
                n,
            ) == old(self).node_effect(s, n),
            forall|s: Seq<Seq<Option<ValueView>>>, n: Node, inp: Seq<Seq<Seq<Option<ValueView>>>>|
                #[trigger] final(self).node_result(s, n, inp) == old(self).node_result(s, n, inp),
            r is Ok ==> final(self).in_transaction() && final(self).staged() == old(
                self,
            ).committed(),
            r is Err ==> !final(self).in_transaction(),
    ;

    /// Run one node inside the open transaction. A success applies the
    /// node's effect to the staged rows and returns exactly the rows
    /// `node_result` assigns it; a failure leaves the staged rows as
    /// they were. The committed rows never change here.
    fn execute_node(&mut self, node: &Node, inputs: Vec<Vec<Record>>) -> (r: Result<
        Vec<Record>,
        StorageError,
    >)
        requires
            old(self).in_transaction(),
        ensures
            final(self).in_transaction(),
            final(self).committed() == old(self).committed(),
            forall|s: Seq<Seq<Option<ValueView>>>, n: Node| #[trigger] final(self).node_effect(
                s,
                n,
            ) == old(self).node_effect(s, n),
            forall|s: Seq<Seq<Option<ValueView>>>, n: Node, inp: Seq<Seq<Seq<Option<ValueView>>>>|
                #[trigger] final(self).node_result(s, n, inp) == old(self).node_result(s, n, inp),
            r is Ok ==> final(self).staged() == old(self).node_effect(old(self).staged(), *node),
            r matches Ok(rows) ==> rows_view(rows@) == old(self).node_result(
                old(self).staged(),
                *node,
                results_view(inputs@),
            ),
            r is Err ==> final(self).staged() == old(self).staged(),
    ;

    /// Close the transaction, making the staged rows the committed rows.
    /// On failure the transaction stays open with nothing changed, so
    /// that rollback remains callable; the state is never ambiguous.
    fn commit(&mut self) -> (r: Result<(), ConnectorError>)
        requires
            old(self).in_transaction(),
        ensures
            forall|s: Seq<Seq<Option<ValueView>>>, n: Node| #[trigger] final(self).node_effect(
                s,
                n,
            ) == old(self).node_effect(s, n),
            forall|s: Seq<Seq<Option<ValueView>>>, n: Node, inp: Seq<Seq<Seq<Option<ValueView>>>>|
                #[trigger] final(self).node_result(s, n, inp) == old(self).node_result(s, n, inp),
            r is Ok ==> !final(self).in_transaction() && final(self).committed() == old(
                self,
            ).staged(),
            r is Err ==> final(self).in_transaction() && final(self).committed() == old(
                self,
            ).committed() && final(self).staged() == old(self).staged(),
    ;

    /// Abandon the transaction: the committed rows stay what they were,
    /// and no transaction is left open, even when the rollback reports
    /// an error.
    fn rollback(&mut self) -> (r: Result<(), ConnectorError>)
        requires
            old(self).in_transaction(),
        ensures
            forall|s: Seq<Seq<Option<ValueView>>>, n: Node| #[trigger] final(self).node_effect(
                s,
                n,
            ) == old(self).node_effect(s, n),
            forall|s: Seq<Seq<Option<ValueView>>>, n: Node, inp: Seq<Seq<Seq<Option<ValueView>>>>|
                #[trigger] final(self).node_result(s, n, inp) == old(self).node_result(s, n, inp),
            !final(self).in_transaction(),
            final(self).committed() == old(self).committed(),
    ;
}

/// A connector: the capability to acquire connections.
pub trait Connector {
    type Conn: Connection;

    /// Acquire a fresh connection, with no transaction open on it.
    fn get_connection(&self) -> (r: Result<Self::Conn, ConnectorError>)
        ensures
            r matches Ok(c) ==> !c.in_transaction(),
    ;
}

} // verus!
