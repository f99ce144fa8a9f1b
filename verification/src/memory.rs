//! An in-memory backend: a reference implementation of the connector
//! capability, with exact storage semantics for every node kind. It
//! backs the executable tests and shows that the connection contract is
//! satisfiable.

use vstd::prelude::*;
use crate::connector::{Connection, Connector, ConnectorError, StorageError};
use crate::filter::{eval_predicate, eval_predicate_view, BackendFlavor, Predicate};
use crate::graph::Node;
use crate::values::{
    opt_view, record_clone, records_clone, results_view, rows_view, value_clone, Record,
    ScalarValue, ValueView,
};

verus! {

/// The rows of `rows` that the predicate selects, in order.
pub open spec fn spec_select_rows(
    flavor: BackendFlavor,
    p: Predicate,
    rows: Seq<Seq<Option<ValueView>>>,
) -> Seq<Seq<Option<ValueView>>>
    decreases rows.len(),
{
    if rows.len() == 0 {
        Seq::empty()
    } else {
        let rest = spec_select_rows(flavor, p, rows.drop_last());
        if eval_predicate_view(flavor, p, rows.last()) {
            rest.push(rows.last())
        } else {
            rest
        }
    }
}

/// The rows of `rows` that the predicate does not select, in order.
pub open spec fn spec_reject_rows(
    flavor: BackendFlavor,
    p: Predicate,
    rows: Seq<Seq<Option<ValueView>>>,
) -> Seq<Seq<Option<ValueView>>>
    decreases rows.len(),
{
    if rows.len() == 0 {
        Seq::empty()
    } else {
        let rest = spec_reject_rows(flavor, p, rows.drop_last());
        if eval_predicate_view(flavor, p, rows.last()) {
            rest
        } else {
            rest.push(rows.last())
        }
    }
}

/// One row with the field at position `f` set to `v`; rows too short to
/// hold the position stay unchanged.
pub open spec fn spec_set_field(
    row: Seq<Option<ValueView>>,
    f: int,
    v: ValueView,
) -> Seq<Option<ValueView>> {
    if 0 <= f < row.len() {
        row.update(f, Some(v))
    } else {
        row
    }
}

/// Every selected row with the field at position `f` set to `v`.
pub open spec fn spec_update_rows(
    flavor: BackendFlavor,
    p: Predicate,
    f: int,
    v: ValueView,
    rows: Seq<Seq<Option<ValueView>>>,
) -> Seq<Seq<Option<ValueView>>> {
    rows.map_values(
        |row: Seq<Option<ValueView>>|
            if eval_predicate_view(flavor, p, row) {
                spec_set_field(row, f, v)
            } else {
                row
            },
    )
}

proof fn lemma_rows_view_push(s: Seq<Record>, r: Record)
    ensures
        rows_view(s.push(r)) == rows_view(s).push(r@),
{
    assert(rows_view(s.push(r)) =~= rows_view(s).push(r@));
}

/// The rows of `rows` that the predicate selects, as fresh records.
fn select_rows(flavor: BackendFlavor, p: &Predicate, rows: &Vec<Record>) -> (out: Vec<Record>)
    ensures
        rows_view(out@) == spec_select_rows(flavor, *p, rows_view(rows@)),
{
    let ghost rv = rows_view(rows@);
    let mut out: Vec<Record> = Vec::new();
    let mut i: usize = 0;
    while i < rows.len()
        invariant
            i <= rows@.len(),
            rv == rows_view(rows@),
            rows_view(out@) == spec_select_rows(flavor, *p, rv.take(i as int)),
        decreases rows@.len() - i,
    {
        proof {
            assert(rv[i as int] == rows@[i as int]@);
            assert(rv.take(i as int + 1).drop_last() =~= rv.take(i as int));
            assert(rv.take(i as int + 1).last() == rv[i as int]);
        }
        if eval_predicate(flavor, p, &rows[i]) {
            let c = record_clone(&rows[i]);
            proof {
                lemma_rows_view_push(out@, c);
            }
            out.push(c);
        }
        i = i + 1;
    }
    proof {
        assert(rv.take(rows@.len() as int) =~= rv);
    }
    out
}

/// The rows of `rows` that the predicate does not select, as fresh
/// records.
fn reject_rows(flavor: BackendFlavor, p: &Predicate, rows: &Vec<Record>) -> (out: Vec<Record>)
    ensures
        rows_view(out@) == spec_reject_rows(flavor, *p, rows_view(rows@)),
{
    let ghost rv = rows_view(rows@);
    let mut out: Vec<Record> = Vec::new();
    let mut i: usize = 0;
    while i < rows.len()
        invariant
            i <= rows@.len(),
            rv == rows_view(rows@),
            rows_view(out@) == spec_reject_rows(flavor, *p, rv.take(i as int)),
        decreases rows@.len() - i,
    {
        proof {
            assert(rv[i as int] == rows@[i as int]@);
            assert(rv.take(i as int + 1).drop_last() =~= rv.take(i as int));
            assert(rv.take(i as int + 1).last() == rv[i as int]);
        }
        if !eval_predicate(flavor, p, &rows[i]) {
            let c = record_clone(&rows[i]);
            proof {
                lemma_rows_view_push(out@, c);
            }
            out.push(c);
        }
        i = i + 1;
    }
    proof {
        assert(rv.take(rows@.len() as int) =~= rv);
    }
    out
}

/// A copy of the row with the field at position `f` set to `v`.
fn set_field(row: &Record, f: usize, v: &ScalarValue) -> (out: Record)
    ensures
        out@ == spec_set_field(row@, f as int, v@),
{
    let mut fields: Vec<Option<ScalarValue>> = Vec::new();
    let mut j: usize = 0;
    while j < row.fields.len()
        invariant
            j <= row.fields@.len(),
            fields@.len() == j as int,
            forall|k: int|
                0 <= k < j ==> opt_view(fields@[k]) == (if k == f as int && (f as int)
                    < row.fields@.len() {
                    Some(v@)
                } else {
                    opt_view(row.fields@[k])
                }),
        decreases row.fields@.len() - j,
    {
        if j == f {
            fields.push(Some(value_clone(v)));
        } else {
            let c = match &row.fields[j] {
                Some(w) => Some(value_clone(w)),
                None => None,
            };
            fields.push(c);
        }
        j = j + 1;
    }
    let out = Record { fields };
    proof {
        assert(out@ =~= spec_set_field(row@, f as int, v@));
    }
    out
}

/// Every selected row updated, as fresh records.
fn update_rows(
    flavor: BackendFlavor,
    p: &Predicate,
    f: usize,
    v: &ScalarValue,
    rows: &Vec<Record>,
) -> (out: Vec<Record>)
    ensures
        rows_view(out@) == spec_update_rows(flavor, *p, f as int, v@, rows_view(rows@)),
{
    let ghost rv = rows_view(rows@);
    let mut out: Vec<Record> = Vec::new();
    let mut i: usize = 0;
    while i < rows.len()
        invariant
            i <= rows@.len(),
            rv == rows_view(rows@),
            out@.len() == i as int,
            forall|k: int|
                0 <= k < i ==> out@[k]@ == spec_update_rows(flavor, *p, f as int, v@, rv)[k],
        decreases rows@.len() - i,
    {
        proof {
            assert(rv[i as int] == rows@[i as int]@);
        }
        if eval_predicate(flavor, p, &rows[i]) {
            out.push(set_field(&rows[i], f, v));
        } else {
            out.push(record_clone(&rows[i]));
        }
        i = i + 1;
    }
    proof {
        assert(rows_view(out@) =~= spec_update_rows(flavor, *p, f as int, v@, rv));
    }
    out
}

/// An in-memory connection: committed rows, staged rows, and the
/// transaction flag. The two failure switches inject a storage error or
/// a commit rejection, so that the error paths can be exercised.
pub struct InMemoryConnection {
    pub flavor: BackendFlavor,
    pub committed_rows: Vec<Record>,
    pub staged_rows: Vec<Record>,
    pub tx_open: bool,
    pub fail_nodes: bool,
    pub fail_commit: bool,
}

impl Connection for InMemoryConnection {
    open spec fn committed(&self) -> Seq<Seq<Option<ValueView>>> {
        rows_view(self.committed_rows@)
    }

    open spec fn staged(&self) -> Seq<Seq<Option<ValueView>>> {
        rows_view(self.staged_rows@)
    }

    open spec fn in_transaction(&self) -> bool {
        self.tx_open
    }

    open spec fn node_effect(
        &self,
        staged: Seq<Seq<Option<ValueView>>>,
        node: Node,
    ) -> Seq<Seq<Option<ValueView>>> {
        match node {
            Node::Read(_) => staged,
            Node::Filter(_) => staged,
            Node::Create(rec) => staged.push(rec@),
            Node::Update(p, f, v) => spec_update_rows(self.flavor, p, f as int, v@, staged),
            Node::Delete(p) => spec_reject_rows(self.flavor, p, staged),
        }
    }

    open spec fn node_result(
        &self,
        staged: Seq<Seq<Option<ValueView>>>,
        node: Node,
        inputs: Seq<Seq<Seq<Option<ValueView>>>>,
    ) -> Seq<Seq<Option<ValueView>>> {
        match node {
            Node::Read(p) => spec_select_rows(self.flavor, p, staged),
            Node::Filter(p) => if inputs.len() >= 1 {
                spec_select_rows(self.flavor, p, inputs[0])
            } else {
                Seq::empty()
            },
            Node::Create(rec) => seq![rec@],
            Node::Update(p, _, _) => spec_select_rows(self.flavor, p, staged),
            Node::Delete(p) => spec_select_rows(self.flavor, p, staged),
        }
    }

    fn start_transaction(&mut self) -> (r: Result<(), ConnectorError>) {
        self.staged_rows = records_clone(&self.committed_rows);
        self.tx_open = true;
        Ok(())
    }

    fn execute_node(&mut self, node: &Node, inputs: Vec<Vec<Record>>) -> (r: Result<
        Vec<Record>,
        StorageError,
    >) {
        if self.fail_nodes {
            return Err(StorageError { message: String::from_str("storage operation failed") });
        }
        match node {
            Node::Read(p) => Ok(select_rows(self.flavor, p, &self.staged_rows)),
            Node::Filter(p) => {
                if inputs.len() >= 1 {
                    proof {
                        assert(results_view(inputs@)[0] == rows_view(inputs@[0]@));
                    }
                    Ok(select_rows(self.flavor, p, &inputs[0]))
                } else {
                    Ok(Vec::new())
                }
            },
            Node::Create(rec) => {
                let c = record_clone(rec);
                proof {
                    lemma_rows_view_push(self.staged_rows@, c);
                }
                self.staged_rows.push(c);
                let out = vec![record_clone(rec)];
                proof {
                    assert(rows_view(out@) =~= seq![rec@]);
                }
                Ok(out)
            },
            Node::Update(p, f, v) => {
                let updated = update_rows(self.flavor, p, *f, v, &self.staged_rows);
                let touched = select_rows(self.flavor, p, &self.staged_rows);
                self.staged_rows = updated;
                Ok(touched)
            },
            Node::Delete(p) => {
                let removed = select_rows(self.flavor, p, &self.staged_rows);
                let kept = reject_rows(self.flavor, p, &self.staged_rows);
                self.staged_rows = kept;
                Ok(removed)
            },
        }
    }

    fn commit(&mut self) -> (r: Result<(), ConnectorError>) {
        if self.fail_commit {
            return Err(ConnectorError::CommitFailed);
        }
        self.committed_rows = records_clone(&self.staged_rows);
        self.tx_open = false;
        Ok(())
    }

    fn rollback(&mut self) -> (r: Result<(), ConnectorError>) {
        self.staged_rows = Vec::new();
        self.tx_open = false;
        Ok(())
    }
}

/// An in-memory connector handing out connections that start from its
/// seed rows.
pub struct InMemoryConnector {
    pub flavor: BackendFlavor,
    pub rows: Vec<Record>,
    pub fail_nodes: bool,
    pub fail_commit: bool,
}

impl Connector for InMemoryConnector {
    type Conn = InMemoryConnection;

    fn get_connection(&self) -> (r: Result<InMemoryConnection, ConnectorError>) {
        Ok(
            InMemoryConnection {
                flavor: self.flavor,
                committed_rows: records_clone(&self.rows),
                staged_rows: Vec::new(),
                tx_open: false,
                fail_nodes: self.fail_nodes,
                fail_commit: self.fail_commit,
            },
        )
    }
}

} // verus!
