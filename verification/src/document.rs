//! The validated request document, the schema metadata it is checked
//! against, and the response envelope.

use vstd::prelude::*;
use crate::filter::FilterTree;
use crate::values::{Record, ScalarValue};

verus! {

/// The type a schema assigns to one field.
#[derive(Clone, Copy)]
pub enum ScalarType {
    Bool,
    Int,
    BigInt,
    Text,
}

/// One field of the schema: a name bound to a type. The field's position
/// in the schema is its position in every stored row.
pub struct FieldDef {
    pub name: String,
    pub field_type: ScalarType,
}

/// Schema metadata: the fields rows consist of.
pub struct QuerySchema {
    pub fields: Vec<FieldDef>,
}

/// What one named operation asks for.
pub enum OperationKind {
    /// Read every row the filter selects.
    FindMany { filter: Option<FilterTree> },
    /// Insert one row, given one value slot per schema field.
    CreateOne { values: Vec<Option<ScalarValue>> },
    /// On every row the filter selects, set one named field.
    UpdateMany { filter: Option<FilterTree>, field: String, value: ScalarValue },
    /// Remove every row the filter selects.
    DeleteMany { filter: Option<FilterTree> },
}

/// One named operation of a request.
pub struct Operation {
    pub name: String,
    pub kind: OperationKind,
}

/// The validated, parsed request: named operations in document order.
pub struct QueryDocument {
    pub operations: Vec<Operation>,
}

/// The result-shape descriptor bound to one query graph: it keys the
/// graph's terminal result under the operation's name in the response
/// envelope.
pub struct IrSerializer {
    pub operation_name: String,
}

/// The serialized outcome of one query graph: a success payload keyed by
/// the operation name, or a structured error.
pub enum Response {
    Data { operation_name: String, rows: Vec<Record> },
    Error { operation_name: String, message: String },
}

/// The operation name a response is keyed under.
pub open spec fn response_name(r: Response) -> Seq<char> {
    match r {
        Response::Data { operation_name, .. } => operation_name@,
        Response::Error { operation_name, .. } => operation_name@,
    }
}

/// Whether a response carries a success payload.
pub open spec fn is_data(r: Response) -> bool {
    r is Data
}

/// The rows of a success payload; an error response carries none.
pub open spec fn data_rows(r: Response) -> Seq<Record> {
    match r {
        Response::Data { rows, .. } => rows@,
        Response::Error { .. } => Seq::empty(),
    }
}

} // verus!
