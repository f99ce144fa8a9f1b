//! Typed scalar values carried by filters and stored in record fields.

use vstd::prelude::*;

verus! {

/// A typed scalar: the value vocabulary of filters and stored fields.
/// Numeric precision goes up to 128 bits, so that identifiers wider than
/// 64 bits can be filtered exactly.
pub enum ScalarValue {
    Null,
    Bool(bool),
    Int(i64),
    BigInt(i128),
    Text(String),
}

/// Mathematical view of a scalar.
pub enum ValueView {
    Null,
    Bool(bool),
    Int(int),
    BigInt(int),
    Text(Seq<char>),
}

impl View for ScalarValue {
    type V = ValueView;

    open spec fn view(&self) -> ValueView {
        match self {
            ScalarValue::Null => ValueView::Null,
            ScalarValue::Bool(b) => ValueView::Bool(*b),
            ScalarValue::Int(i) => ValueView::Int(*i as int),
            ScalarValue::BigInt(i) => ValueView::BigInt(*i as int),
            ScalarValue::Text(s) => ValueView::Text(s@),
        }
    }
}

/// The numeric content of a value, if it has one.
pub open spec fn numeric_of(v: ValueView) -> Option<int> {
    match v {
        ValueView::Int(i) => Some(i),
        ValueView::BigInt(i) => Some(i),
        _ => None,
    }
}

/// Whether a value is numeric (and hence admits order comparisons).
pub open spec fn is_numeric(v: ValueView) -> bool {
    numeric_of(v) is Some
}

/// Equality between two values: numeric values are equal when their
/// numbers are, whatever their width; everything else is structural.
pub open spec fn eq_view(a: ValueView, b: ValueView) -> bool {
    match (numeric_of(a), numeric_of(b)) {
        (Some(x), Some(y)) => x == y,
        _ => a == b,
    }
}

/// Strict order between two values: defined exactly on numeric pairs.
pub open spec fn lt_view(a: ValueView, b: ValueView) -> bool {
    match (numeric_of(a), numeric_of(b)) {
        (Some(x), Some(y)) => x < y,
        _ => false,
    }
}

/// Non-strict order between two values: defined exactly on numeric pairs.
pub open spec fn le_view(a: ValueView, b: ValueView) -> bool {
    match (numeric_of(a), numeric_of(b)) {
        (Some(x), Some(y)) => x <= y,
        _ => false,
    }
}

/// Equality on scalars: numeric across widths, structural otherwise.
pub fn value_eq(a: &ScalarValue, b: &ScalarValue) -> (r: bool)
    ensures
        r == eq_view(a@, b@),
{
    match (a, b) {
        (ScalarValue::Null, ScalarValue::Null) => true,
        (ScalarValue::Bool(x), ScalarValue::Bool(y)) => x == y,
        (ScalarValue::Int(x), ScalarValue::Int(y)) => x == y,
        (ScalarValue::Int(x), ScalarValue::BigInt(y)) => (*x as i128) == *y,
        (ScalarValue::BigInt(x), ScalarValue::Int(y)) => *x == (*y as i128),
        (ScalarValue::BigInt(x), ScalarValue::BigInt(y)) => x == y,
        (ScalarValue::Text(x), ScalarValue::Text(y)) => *x == *y,
        _ => false,
    }
}

/// Strict less-than on scalars; false on any non-numeric operand.
pub fn value_lt(a: &ScalarValue, b: &ScalarValue) -> (r: bool)
    ensures
        r == lt_view(a@, b@),
{
    match (a, b) {
        (ScalarValue::Int(x), ScalarValue::Int(y)) => x < y,
        (ScalarValue::Int(x), ScalarValue::BigInt(y)) => (*x as i128) < *y,
        (ScalarValue::BigInt(x), ScalarValue::Int(y)) => *x < (*y as i128),
        (ScalarValue::BigInt(x), ScalarValue::BigInt(y)) => x < y,
        _ => false,
    }
}

/// Non-strict less-than on scalars; false on any non-numeric operand.
pub fn value_le(a: &ScalarValue, b: &ScalarValue) -> (r: bool)
    ensures
        r == le_view(a@, b@),
{
    match (a, b) {
        (ScalarValue::Int(x), ScalarValue::Int(y)) => x <= y,
        (ScalarValue::Int(x), ScalarValue::BigInt(y)) => (*x as i128) <= *y,
        (ScalarValue::BigInt(x), ScalarValue::Int(y)) => *x <= (*y as i128),
        (ScalarValue::BigInt(x), ScalarValue::BigInt(y)) => x <= y,
        _ => false,
    }
}

/// A deep copy of a scalar, with the same view.
pub fn value_clone(v: &ScalarValue) -> (r: ScalarValue)
    ensures
        r@ == v@,
{
    match v {
        ScalarValue::Null => ScalarValue::Null,
        ScalarValue::Bool(b) => ScalarValue::Bool(*b),
        ScalarValue::Int(i) => ScalarValue::Int(*i),
        ScalarValue::BigInt(i) => ScalarValue::BigInt(*i),
        ScalarValue::Text(s) => ScalarValue::Text(s.clone()),
    }
}

/// View of one stored field: `None` means the field is absent.
pub open spec fn opt_view(f: Option<ScalarValue>) -> Option<ValueView> {
    match f {
        Some(v) => Some(v@),
        None => None,
    }
}

/// One stored row. Fields are kept by position; the schema maps field
/// names to positions. An absent field (`None`) is distinct from an
/// explicit null value (`Some(ScalarValue::Null)`), so that document
/// backends can tell the two apart.
pub struct Record {
    pub fields: Vec<Option<ScalarValue>>,
}

impl View for Record {
    type V = Seq<Option<ValueView>>;

    open spec fn view(&self) -> Seq<Option<ValueView>> {
        self.fields@.map_values(|f: Option<ScalarValue>| opt_view(f))
    }
}

/// View of a sequence of rows.
pub open spec fn rows_view(rows: Seq<Record>) -> Seq<Seq<Option<ValueView>>> {
    rows.map_values(|r: Record| r@)
}

/// View of a list of row lists (one entry per node result).
pub open spec fn results_view(s: Seq<Vec<Record>>) -> Seq<Seq<Seq<Option<ValueView>>>> {
    s.map_values(|v: Vec<Record>| rows_view(v@))
}

/// A deep copy of a row, with the same view.
pub fn record_clone(r: &Record) -> (c: Record)
    ensures
        c@ == r@,
{
    let mut fields: Vec<Option<ScalarValue>> = Vec::new();
    let mut i: usize = 0;
    while i < r.fields.len()
        invariant
            i <= r.fields@.len(),
            fields@.len() == i as int,
            forall|j: int| 0 <= j < i ==> opt_view(fields@[j]) == opt_view(r.fields@[j]),
        decreases r.fields@.len() - i,
    {
        let f = match &r.fields[i] {
            Some(v) => Some(value_clone(v)),
            None => None,
        };
        fields.push(f);
        i = i + 1;
    }
    let c = Record { fields };
    proof {
        assert(c@ =~= r@);
    }
    c
}

/// A deep copy of a sequence of rows, with the same views.
pub fn records_clone(rows: &Vec<Record>) -> (c: Vec<Record>)
    ensures
        rows_view(c@) == rows_view(rows@),
{
    let mut out: Vec<Record> = Vec::new();
    let mut i: usize = 0;
    while i < rows.len()
        invariant
            i <= rows@.len(),
            out@.len() == i as int,
            forall|j: int| 0 <= j < i ==> out@[j]@ == rows@[j]@,
        decreases rows@.len() - i,
    {
        out.push(record_clone(&rows[i]));
        i = i + 1;
    }
    proof {
        assert(rows_view(out@) =~= rows_view(rows@));
    }
    out
}

} // verus!
