//! Filter expressions and the predicate resolver.
//!
//! A request's `where` argument arrives as a [`FilterTree`]. The resolver
//! normalizes it into a canonical, connector-independent [`Predicate`]:
//! the bare-value shorthand becomes an equality, and negation is rewritten
//! away by the fixed table (`not { gt: v }` becomes `lte: v`, and so on).
//! Resolution is pure: it never touches storage.

use vstd::prelude::*;
use crate::values::{
    eq_view, le_view, lt_view, is_numeric, opt_view, value_clone, value_eq, value_le, value_lt,
    Record, ScalarValue, ValueView,
};

verus! {

/// How a backend treats a field that is absent from a row.
/// `Relational` folds an absent field into a null; `Document` keeps the
/// two distinct. The resulting row-set difference on null tests is a
/// documented connector-level variance.
#[derive(Clone, Copy)]
pub enum BackendFlavor {
    Relational,
    Document,
}

/// Comparison operators of canonical predicate leaves.
pub enum CompareOp {
    Equals,
    NotEquals,
    Gt,
    Gte,
    Lt,
    Lte,
}

/// One condition of a `where` argument, applied to a single field.
pub enum FilterCondition {
    /// The bare scalar shorthand `field: v`, equivalent to `equals: v`.
    Bare(ScalarValue),
    Equals(ScalarValue),
    In(Vec<ScalarValue>),
    NotIn(Vec<ScalarValue>),
    Gt(ScalarValue),
    Gte(ScalarValue),
    Lt(ScalarValue),
    Lte(ScalarValue),
    /// Negation of an inner condition.
    Not(Box<FilterCondition>),
}

/// A filter argument tree: conditions on named fields under `AND`/`OR`.
pub enum FilterTree {
    Cond(String, FilterCondition),
    And(Vec<FilterTree>),
    Or(Vec<FilterTree>),
}

/// Canonical predicate over field positions. Negation has been rewritten
/// away; `Always` and `Never` are the empty `AND` and the empty `OR`.
pub enum Predicate {
    Always,
    Never,
    Compare(usize, CompareOp, ScalarValue),
    In(usize, Vec<ScalarValue>),
    NotIn(usize, Vec<ScalarValue>),
    And(Box<Predicate>, Box<Predicate>),
    Or(Box<Predicate>, Box<Predicate>),
}

/// Views of a list of scalars.
pub open spec fn values_view(l: Seq<ScalarValue>) -> Seq<ValueView> {
    l.map_values(|v: ScalarValue| v@)
}

/// The field value a leaf comparison looks at, possibly out of range.
pub open spec fn field_of(row: Seq<Option<ValueView>>, f: int) -> Option<ValueView> {
    if 0 <= f < row.len() {
        row[f]
    } else {
        None
    }
}

/// The field value as the backend sees it: `Relational` folds an absent
/// field into an explicit null, `Document` keeps it absent.
pub open spec fn effective_value(flavor: BackendFlavor, fv: Option<ValueView>) -> Option<
    ValueView,
> {
    match flavor {
        BackendFlavor::Relational => match fv {
            None => Some(ValueView::Null),
            Some(v) => Some(v),
        },
        BackendFlavor::Document => fv,
    }
}

/// Semantics of one comparison leaf on one effective field value.
/// `NotEquals` selects exactly the complement of `Equals`; the four order
/// operators hold only of a present, numeric field value.
pub open spec fn eval_compare(op: CompareOp, target: ValueView, e: Option<ValueView>) -> bool {
    match op {
        CompareOp::Equals => match e {
            Some(v) => eq_view(v, target),
            None => false,
        },
        CompareOp::NotEquals => match e {
            Some(v) => !eq_view(v, target),
            None => true,
        },
        CompareOp::Gt => match e {
            Some(v) => lt_view(target, v),
            None => false,
        },
        CompareOp::Gte => match e {
            Some(v) => le_view(target, v),
            None => false,
        },
        CompareOp::Lt => match e {
            Some(v) => lt_view(v, target),
            None => false,
        },
        CompareOp::Lte => match e {
            Some(v) => le_view(v, target),
            None => false,
        },
    }
}

/// Semantics of an inclusion list on one effective field value.
pub open spec fn eval_in(list: Seq<ValueView>, e: Option<ValueView>) -> bool {
    match e {
        Some(v) => exists|i: int| 0 <= i < list.len() && eq_view(list[i], v),
        None => false,
    }
}

/// Predicate evaluation against one row, under a backend flavor.
/// Pure: a predicate never touches storage.
pub open spec fn eval_predicate_view(
    flavor: BackendFlavor,
    p: Predicate,
    row: Seq<Option<ValueView>>,
) -> bool
    decreases p,
{
    match p {
        Predicate::Always => true,
        Predicate::Never => false,
        Predicate::Compare(f, op, t) => eval_compare(
            op,
            t@,
            effective_value(flavor, field_of(row, f as int)),
        ),
        Predicate::In(f, l) => eval_in(
            values_view(l@),
            effective_value(flavor, field_of(row, f as int)),
        ),
        Predicate::NotIn(f, l) => !eval_in(
            values_view(l@),
            effective_value(flavor, field_of(row, f as int)),
        ),
        Predicate::And(a, b) => eval_predicate_view(flavor, *a, row) && eval_predicate_view(
            flavor,
            *b,
            row,
        ),
        Predicate::Or(a, b) => eval_predicate_view(flavor, *a, row) || eval_predicate_view(
            flavor,
            *b,
            row,
        ),
    }
}

/// Canonical form of one condition on the field at position `f`.
pub open spec fn spec_resolve_condition(f: usize, c: FilterCondition) -> Predicate
    decreases c,
{
    match c {
        FilterCondition::Bare(v) => Predicate::Compare(f, CompareOp::Equals, v),
        FilterCondition::Equals(v) => Predicate::Compare(f, CompareOp::Equals, v),
        FilterCondition::In(l) => Predicate::In(f, l),
        FilterCondition::NotIn(l) => Predicate::NotIn(f, l),
        FilterCondition::Gt(v) => Predicate::Compare(f, CompareOp::Gt, v),
        FilterCondition::Gte(v) => Predicate::Compare(f, CompareOp::Gte, v),
        FilterCondition::Lt(v) => Predicate::Compare(f, CompareOp::Lt, v),
        FilterCondition::Lte(v) => Predicate::Compare(f, CompareOp::Lte, v),
        FilterCondition::Not(inner) => spec_negate_condition(f, *inner),
    }
}

/// The fixed negation rewrite table, applied to one condition.
pub open spec fn spec_negate_condition(f: usize, c: FilterCondition) -> Predicate
    decreases c,
{
    match c {
        FilterCondition::Bare(v) => Predicate::Compare(f, CompareOp::NotEquals, v),
        FilterCondition::Equals(v) => Predicate::Compare(f, CompareOp::NotEquals, v),
        FilterCondition::In(l) => Predicate::NotIn(f, l),
        FilterCondition::NotIn(l) => Predicate::In(f, l),
        FilterCondition::Gt(v) => Predicate::Compare(f, CompareOp::Lte, v),
        FilterCondition::Gte(v) => Predicate::Compare(f, CompareOp::Lt, v),
        FilterCondition::Lt(v) => Predicate::Compare(f, CompareOp::Gte, v),
        FilterCondition::Lte(v) => Predicate::Compare(f, CompareOp::Gt, v),
        FilterCondition::Not(inner) => spec_resolve_condition(f, *inner),
    }
}

/// Resolve one condition on the field at position `f` into its canonical
/// predicate.
pub fn resolve_condition(f: usize, c: FilterCondition) -> (r: Predicate)
    ensures
        r == spec_resolve_condition(f, c),
    decreases c,
{
    match c {
        FilterCondition::Bare(v) => Predicate::Compare(f, CompareOp::Equals, v),
        FilterCondition::Equals(v) => Predicate::Compare(f, CompareOp::Equals, v),
        FilterCondition::In(l) => Predicate::In(f, l),
        FilterCondition::NotIn(l) => Predicate::NotIn(f, l),
        FilterCondition::Gt(v) => Predicate::Compare(f, CompareOp::Gt, v),
        FilterCondition::Gte(v) => Predicate::Compare(f, CompareOp::Gte, v),
        FilterCondition::Lt(v) => Predicate::Compare(f, CompareOp::Lt, v),
        FilterCondition::Lte(v) => Predicate::Compare(f, CompareOp::Lte, v),
        FilterCondition::Not(inner) => negate_condition(f, *inner),
    }
}

/// Apply the negation rewrite table to one condition.
pub fn negate_condition(f: usize, c: FilterCondition) -> (r: Predicate)
    ensures
        r == spec_negate_condition(f, c),
    decreases c,
{
    match c {
        FilterCondition::Bare(v) => Predicate::Compare(f, CompareOp::NotEquals, v),
        FilterCondition::Equals(v) => Predicate::Compare(f, CompareOp::NotEquals, v),
        FilterCondition::In(l) => Predicate::NotIn(f, l),
        FilterCondition::NotIn(l) => Predicate::In(f, l),
        FilterCondition::Gt(v) => Predicate::Compare(f, CompareOp::Lte, v),
        FilterCondition::Gte(v) => Predicate::Compare(f, CompareOp::Lt, v),
        FilterCondition::Lt(v) => Predicate::Compare(f, CompareOp::Gte, v),
        FilterCondition::Lte(v) => Predicate::Compare(f, CompareOp::Gt, v),
        FilterCondition::Not(inner) => resolve_condition(f, *inner),
    }
}

/// Evaluate a canonical predicate against one row.
pub fn eval_predicate(flavor: BackendFlavor, p: &Predicate, row: &Record) -> (r: bool)
    ensures
        r == eval_predicate_view(flavor, *p, row@),
    decreases *p,
{
    match p {
        Predicate::Always => true,
        Predicate::Never => false,
        Predicate::Compare(f, op, t) => eval_compare_exec(flavor, op, t, *f, row),
        Predicate::In(f, l) => eval_in_exec(flavor, l, *f, row),
        Predicate::NotIn(f, l) => !eval_in_exec(flavor, l, *f, row),
        Predicate::And(a, b) => {
            let ra = eval_predicate(flavor, &**a, row);
            ra && eval_predicate(flavor, &**b, row)
        },
        Predicate::Or(a, b) => {
            let ra = eval_predicate(flavor, &**a, row);
            ra || eval_predicate(flavor, &**b, row)
        },
    }
}

/// The effective field value at position `f` of a row, as an owned scalar;
/// `None` means the backend sees the field as absent.
fn effective_field(flavor: BackendFlavor, f: usize, row: &Record) -> (r: Option<ScalarValue>)
    ensures
        opt_view(r) == effective_value(flavor, field_of(row@, f as int)),
{
    let fv: Option<ScalarValue> = if f < row.fields.len() {
        match &row.fields[f] {
            Some(v) => Some(value_clone(v)),
            None => None,
        }
    } else {
        None
    };
    match flavor {
        BackendFlavor::Relational => match fv {
            None => Some(ScalarValue::Null),
            Some(v) => Some(v),
        },
        BackendFlavor::Document => fv,
    }
}

fn eval_compare_exec(
    flavor: BackendFlavor,
    op: &CompareOp,
    t: &ScalarValue,
    f: usize,
    row: &Record,
) -> (r: bool)
    ensures
        r == eval_compare(*op, t@, effective_value(flavor, field_of(row@, f as int))),
{
    let e = effective_field(flavor, f, row);
    match op {
        CompareOp::Equals => match &e {
            Some(v) => value_eq(v, t),
            None => false,
        },
        CompareOp::NotEquals => match &e {
            Some(v) => !value_eq(v, t),
            None => true,
        },
        CompareOp::Gt => match &e {
            Some(v) => value_lt(t, v),
            None => false,
        },
        CompareOp::Gte => match &e {
            Some(v) => value_le(t, v),
            None => false,
        },
        CompareOp::Lt => match &e {
            Some(v) => value_lt(v, t),
            None => false,
        },
        CompareOp::Lte => match &e {
            Some(v) => value_le(v, t),
            None => false,
        },
    }
}

fn eval_in_exec(flavor: BackendFlavor, l: &Vec<ScalarValue>, f: usize, row: &Record) -> (r: bool)
    ensures
        r == eval_in(values_view(l@), effective_value(flavor, field_of(row@, f as int))),
{
    let e = effective_field(flavor, f, row);
    match &e {
        Some(v) => {
            let mut i: usize = 0;
            let mut found = false;
            while i < l.len()
                invariant
                    i <= l@.len(),
                    found == exists|j: int| 0 <= j < i && eq_view(values_view(l@)[j], v@),
                decreases l@.len() - i,
            {
                proof {
                    assert(values_view(l@)[i as int] == l@[i as int]@);
                }
                if value_eq(&l[i], v) {
                    found = true;
                }
                i = i + 1;
            }
            found
        },
        None => false,
    }
}

/// Law: the bare scalar shorthand `field: v` resolves exactly as the
/// explicit `equals: v`.
pub proof fn shorthand_is_equality(f: usize, v: ScalarValue)
    ensures
        spec_resolve_condition(f, FilterCondition::Bare(v)) == spec_resolve_condition(
            f,
            FilterCondition::Equals(v),
        ),
{
}

/// Law: the negation rewrite table. `not { gt: v }` resolves to `lte: v`,
/// `not { gte: v }` to `lt: v`, `not { lt: v }` to `gte: v`,
/// `not { lte: v }` to `gt: v`, `not { in: l }` to `notIn: l`, and the
/// negated equality (bare or explicit) to `not-equals`.
pub proof fn negation_rewrite_table(f: usize, v: ScalarValue, l: Vec<ScalarValue>)
    ensures
        spec_negate_condition(f, FilterCondition::Gt(v)) == Predicate::Compare(
            f,
            CompareOp::Lte,
            v,
        ),
        spec_negate_condition(f, FilterCondition::Gte(v)) == Predicate::Compare(
            f,
            CompareOp::Lt,
            v,
        ),
        spec_negate_condition(f, FilterCondition::Lt(v)) == Predicate::Compare(
            f,
            CompareOp::Gte,
            v,
        ),
        spec_negate_condition(f, FilterCondition::Lte(v)) == Predicate::Compare(
            f,
            CompareOp::Gt,
            v,
        ),
        spec_negate_condition(f, FilterCondition::In(l)) == Predicate::NotIn(f, l),
        spec_negate_condition(f, FilterCondition::Bare(v)) == Predicate::Compare(
            f,
            CompareOp::NotEquals,
            v,
        ),
        spec_negate_condition(f, FilterCondition::Equals(v)) == Predicate::Compare(
            f,
            CompareOp::NotEquals,
            v,
        ),
{
}

/// Law: on every row whose field holds a numeric value, the negation of a
/// comparison operator selects exactly the complement of that operator,
/// boundary values included.
pub proof fn negated_comparison_selects_complement(
    flavor: BackendFlavor,
    f: usize,
    v: ScalarValue,
    row: Seq<Option<ValueView>>,
)
    requires
        is_numeric(v@),
        match effective_value(flavor, field_of(row, f as int)) {
            Some(w) => is_numeric(w),
            None => false,
        },
    ensures
        eval_predicate_view(flavor, spec_negate_condition(f, FilterCondition::Gt(v)), row)
            == !eval_predicate_view(flavor, Predicate::Compare(f, CompareOp::Gt, v), row),
        eval_predicate_view(flavor, spec_negate_condition(f, FilterCondition::Gte(v)), row)
            == !eval_predicate_view(flavor, Predicate::Compare(f, CompareOp::Gte, v), row),
        eval_predicate_view(flavor, spec_negate_condition(f, FilterCondition::Lt(v)), row)
            == !eval_predicate_view(flavor, Predicate::Compare(f, CompareOp::Lt, v), row),
        eval_predicate_view(flavor, spec_negate_condition(f, FilterCondition::Lte(v)), row)
            == !eval_predicate_view(flavor, Predicate::Compare(f, CompareOp::Lte, v), row),
{
}

/// Law: `in: [a, b]` together with `not: null` selects the same rows as
/// `equals: a OR equals: b` restricted to the non-null rows, for non-null
/// list values.
pub proof fn in_list_with_not_null_is_disjunction(
    flavor: BackendFlavor,
    f: usize,
    a: ScalarValue,
    b: ScalarValue,
    l: Vec<ScalarValue>,
    row: Seq<Option<ValueView>>,
)
    requires
        l@ == seq![a, b],
        a@ != ValueView::Null,
        b@ != ValueView::Null,
    ensures
        (eval_predicate_view(flavor, Predicate::In(f, l), row) && eval_predicate_view(
            flavor,
            Predicate::Compare(f, CompareOp::NotEquals, ScalarValue::Null),
            row,
        )) == ((eval_predicate_view(flavor, Predicate::Compare(f, CompareOp::Equals, a), row)
            || eval_predicate_view(flavor, Predicate::Compare(f, CompareOp::Equals, b), row))
            && eval_predicate_view(
            flavor,
            Predicate::Compare(f, CompareOp::NotEquals, ScalarValue::Null),
            row,
        )),
{
    assert(values_view(l@).len() == 2);
    assert(values_view(l@)[0] == a@);
    assert(values_view(l@)[1] == b@);
}

/// Law: `notIn: [a]` together with `not: null` selects exactly the
/// non-null rows minus the rows equal to `a`, for a non-null `a`.
pub proof fn not_in_with_not_null_is_non_null_minus(
    flavor: BackendFlavor,
    f: usize,
    a: ScalarValue,
    l: Vec<ScalarValue>,
    row: Seq<Option<ValueView>>,
)
    requires
        l@ == seq![a],
        a@ != ValueView::Null,
    ensures
        (eval_predicate_view(flavor, Predicate::NotIn(f, l), row) && eval_predicate_view(
            flavor,
            Predicate::Compare(f, CompareOp::NotEquals, ScalarValue::Null),
            row,
        )) == (eval_predicate_view(
            flavor,
            Predicate::Compare(f, CompareOp::NotEquals, ScalarValue::Null),
            row,
        ) && !eval_predicate_view(flavor, Predicate::Compare(f, CompareOp::Equals, a), row)),
{
    assert(values_view(l@).len() == 1);
    assert(values_view(l@)[0] == a@);
}

} // verus!
