//! The graph builder: compiles a validated request document into one
//! (query graph, result-shape descriptor) pair per operation, in
//! document order, resolving every filter through the predicate
//! resolver. It fails with a validation error — before any storage
//! interaction — exactly when an operation references an unknown field
//! or a type-incompatible value.

use vstd::prelude::*;
use vstd::pervasive::unreached;
use crate::document::{
    FieldDef, IrSerializer, Operation, OperationKind, QueryDocument, QuerySchema, ScalarType,
};
use crate::filter::{
    eval_predicate_view, resolve_condition, spec_resolve_condition, BackendFlavor,
    FilterCondition, FilterTree, Predicate,
};
use crate::graph::{Edge, EdgeKind, Node, QueryGraph};
use crate::values::{is_numeric, Record, ScalarValue, ValueView};

verus! {

/// A validation error: the request does not fit the schema.
#[derive(Debug)]
pub enum ValidationError {
    /// The named field does not exist in the schema.
    UnknownField(String),
    /// A value does not fit the named field's type.
    IncompatibleValue(String),
}

/// The position of the first schema field with the given name.
pub open spec fn spec_field_index(fields: Seq<FieldDef>, name: Seq<char>) -> Option<int>
    decreases fields.len(),
{
    if fields.len() == 0 {
        None
    } else if fields[0].name@ == name {
        Some(0)
    } else {
        match spec_field_index(fields.drop_first(), name) {
            Some(i) => Some(i + 1),
            None => None,
        }
    }
}

proof fn lemma_field_index_found(fields: Seq<FieldDef>, name: Seq<char>, i: int)
    requires
        0 <= i < fields.len(),
        forall|j: int| 0 <= j < i ==> (#[trigger] fields[j]).name@ != name,
        fields[i].name@ == name,
    ensures
        spec_field_index(fields, name) == Some(i),
    decreases i,
{
    if i > 0 {
        assert(forall|j: int|
            0 <= j < i - 1 ==> (#[trigger] fields.drop_first()[j]).name@ != name);
        lemma_field_index_found(fields.drop_first(), name, i - 1);
    }
}

proof fn lemma_field_index_none(fields: Seq<FieldDef>, name: Seq<char>)
    requires
        forall|j: int| 0 <= j < fields.len() ==> (#[trigger] fields[j]).name@ != name,
    ensures
        spec_field_index(fields, name) is None,
    decreases fields.len(),
{
    if fields.len() > 0 {
        assert(forall|j: int|
            0 <= j < fields.drop_first().len() ==> (#[trigger] fields.drop_first()[j]).name@
                != name);
        lemma_field_index_none(fields.drop_first(), name);
    }
}

/// Whether a filter or write value fits a field of the given type. The
/// null literal fits every field.
pub open spec fn value_matches_type(t: ScalarType, v: ValueView) -> bool {
    match v {
        ValueView::Null => true,
        ValueView::Bool(_) => t is Bool,
        ValueView::Int(_) => t is Int || t is BigInt,
        ValueView::BigInt(_) => t is BigInt,
        ValueView::Text(_) => t is Text,
    }
}

/// Whether a field type admits order comparisons.
pub open spec fn is_numeric_type(t: ScalarType) -> bool {
    t is Int || t is BigInt
}

/// Type compatibility of one condition with the field it applies to:
/// comparison operators demand a numeric field and a numeric value,
/// equality and inclusion demand values of the field's type.
pub open spec fn cond_compatible(t: ScalarType, c: FilterCondition) -> bool
    decreases c,
{
    match c {
        FilterCondition::Bare(v) => value_matches_type(t, v@),
        FilterCondition::Equals(v) => value_matches_type(t, v@),
        FilterCondition::In(l) => forall|i: int|
            0 <= i < l@.len() ==> value_matches_type(t, (#[trigger] l@[i])@),
        FilterCondition::NotIn(l) => forall|i: int|
            0 <= i < l@.len() ==> value_matches_type(t, (#[trigger] l@[i])@),
        FilterCondition::Gt(v) => is_numeric_type(t) && is_numeric(v@),
        FilterCondition::Gte(v) => is_numeric_type(t) && is_numeric(v@),
        FilterCondition::Lt(v) => is_numeric_type(t) && is_numeric(v@),
        FilterCondition::Lte(v) => is_numeric_type(t) && is_numeric(v@),
        FilterCondition::Not(inner) => cond_compatible(t, *inner),
    }
}

/// Well-formedness of a filter tree against the schema: every condition
/// names a known field and fits its type.
pub open spec fn tree_wf(schema: QuerySchema, t: FilterTree) -> bool
    decreases t,
{
    match t {
        FilterTree::Cond(name, c) => match spec_field_index(schema.fields@, name@) {
            Some(i) => cond_compatible(schema.fields@[i].field_type, c),
            None => false,
        },
        FilterTree::And(children) => forall|i: int|
            0 <= i < children@.len() ==> tree_wf(schema, #[trigger] children@[i]),
        FilterTree::Or(children) => forall|i: int|
            0 <= i < children@.len() ==> tree_wf(schema, #[trigger] children@[i]),
    }
}

/// The resolver's input/output relation: `p` is the canonical predicate
/// of the tree `t` under the schema. A conjunction folds to nested
/// binary `And`s closed by `Always` (the empty `AND` is vacuously true),
/// a disjunction to nested `Or`s closed by `Never` (the empty `OR` is
/// vacuously false).
pub open spec fn resolves_to(schema: QuerySchema, t: FilterTree, p: Predicate) -> bool
    decreases t,
{
    match t {
        FilterTree::Cond(name, c) => match spec_field_index(schema.fields@, name@) {
            Some(i) => p == spec_resolve_condition(i as usize, c),
            None => false,
        },
        FilterTree::And(children) => and_resolves_to(schema, children@, p),
        FilterTree::Or(children) => or_resolves_to(schema, children@, p),
    }
}

pub open spec fn and_resolves_to(schema: QuerySchema, cs: Seq<FilterTree>, p: Predicate) -> bool
    decreases cs,
{
    if cs.len() == 0 {
        p == Predicate::Always
    } else {
        match p {
            Predicate::And(a, b) => resolves_to(schema, cs[0], *a) && and_resolves_to(
                schema,
                cs.drop_first(),
                *b,
            ),
            _ => false,
        }
    }
}

pub open spec fn or_resolves_to(schema: QuerySchema, cs: Seq<FilterTree>, p: Predicate) -> bool
    decreases cs,
{
    if cs.len() == 0 {
        p == Predicate::Never
    } else {
        match p {
            Predicate::Or(a, b) => resolves_to(schema, cs[0], *a) && or_resolves_to(
                schema,
                cs.drop_first(),
                *b,
            ),
            _ => false,
        }
    }
}

/// Law: the empty `AND` resolves to the vacuously true predicate, the
/// empty `OR` to the vacuously false one, on every row and backend.
pub proof fn empty_combinators_are_vacuous(
    schema: QuerySchema,
    flavor: BackendFlavor,
    row: Seq<Option<ValueView>>,
)
    ensures
        and_resolves_to(schema, Seq::<FilterTree>::empty(), Predicate::Always),
        or_resolves_to(schema, Seq::<FilterTree>::empty(), Predicate::Never),
        eval_predicate_view(flavor, Predicate::Always, row),
        !eval_predicate_view(flavor, Predicate::Never, row),
{
}

/// Find a field's position by name.
pub fn find_field(schema: &QuerySchema, name: &String) -> (r: Option<usize>)
    ensures
        match r {
            Some(f) => spec_field_index(schema.fields@, name@) == Some(f as int) && (
            f as int) < schema.fields@.len(),
            None => spec_field_index(schema.fields@, name@) is None,
        },
{
    let mut i: usize = 0;
    while i < schema.fields.len()
        invariant
            i <= schema.fields@.len(),
            forall|j: int| 0 <= j < i ==> (#[trigger] schema.fields@[j]).name@ != name@,
        decreases schema.fields@.len() - i,
    {
        if schema.fields[i].name == *name {
            proof {
                lemma_field_index_found(schema.fields@, name@, i as int);
            }
            return Some(i);
        }
        i = i + 1;
    }
    proof {
        lemma_field_index_none(schema.fields@, name@);
    }
    None
}

/// Whether a value fits a field type.
pub fn matches_type(t: ScalarType, v: &ScalarValue) -> (r: bool)
    ensures
        r == value_matches_type(t, v@),
{
    match (v, t) {
        (ScalarValue::Null, _) => true,
        (ScalarValue::Bool(_), ScalarType::Bool) => true,
        (ScalarValue::Int(_), ScalarType::Int) => true,
        (ScalarValue::Int(_), ScalarType::BigInt) => true,
        (ScalarValue::BigInt(_), ScalarType::BigInt) => true,
        (ScalarValue::Text(_), ScalarType::Text) => true,
        _ => false,
    }
}

fn check_condition(t: ScalarType, c: &FilterCondition) -> (r: bool)
    ensures
        r == cond_compatible(t, *c),
    decreases *c,
{
    match c {
        FilterCondition::Bare(v) => matches_type(t, v),
        FilterCondition::Equals(v) => matches_type(t, v),
        FilterCondition::In(l) => check_values(t, l),
        FilterCondition::NotIn(l) => check_values(t, l),
        FilterCondition::Gt(v) => {
            let numeric_field = match t {
                ScalarType::Int => true,
                ScalarType::BigInt => true,
                _ => false,
            };
            numeric_field && is_numeric_value(v)
        },
        FilterCondition::Gte(v) => {
            let numeric_field = match t {
                ScalarType::Int => true,
                ScalarType::BigInt => true,
                _ => false,
            };
            numeric_field && is_numeric_value(v)
        },
        FilterCondition::Lt(v) => {
            let numeric_field = match t {
                ScalarType::Int => true,
                ScalarType::BigInt => true,
                _ => false,
            };
            numeric_field && is_numeric_value(v)
        },
        FilterCondition::Lte(v) => {
            let numeric_field = match t {
                ScalarType::Int => true,
                ScalarType::BigInt => true,
                _ => false,
            };
            numeric_field && is_numeric_value(v)
        },
        FilterCondition::Not(inner) => check_condition(t, &**inner),
    }
}

fn is_numeric_value(v: &ScalarValue) -> (r: bool)
    ensures
        r == is_numeric(v@),
{
    match v {
        ScalarValue::Int(_) => true,
        ScalarValue::BigInt(_) => true,
        _ => false,
    }
}

fn check_values(t: ScalarType, l: &Vec<ScalarValue>) -> (r: bool)
    ensures
        r == (forall|i: int| 0 <= i < l@.len() ==> value_matches_type(t, (#[trigger] l@[i])@)),
{
    let mut i: usize = 0;
    while i < l.len()
        invariant
            i <= l@.len(),
            forall|j: int| 0 <= j < i ==> value_matches_type(t, (#[trigger] l@[j])@),
        decreases l@.len() - i,
    {
        if !matches_type(t, &l[i]) {
            return false;
        }
        i = i + 1;
    }
    true
}

/// Resolve one filter tree into its canonical predicate, or report the
/// validation error that makes it ill-formed.
pub fn resolve_tree(schema: &QuerySchema, t: FilterTree) -> (r: Result<Predicate, ValidationError>)
    ensures
        r is Ok <==> tree_wf(*schema, t),
        r matches Ok(p) ==> resolves_to(*schema, t, p),
    decreases t,
{
    match t {
        FilterTree::Cond(name, c) => {
            match find_field(schema, &name) {
                Some(f) => {
                    if check_condition(schema.fields[f].field_type, &c) {
                        Ok(resolve_condition(f, c))
                    } else {
                        Err(ValidationError::IncompatibleValue(name))
                    }
                },
                None => Err(ValidationError::UnknownField(name)),
            }
        },
        FilterTree::And(children) => {
            let ghost t0 = FilterTree::And(children);
            let ghost all = children@;
            let mut cs = children;
            let mut acc = Predicate::Always;
            let mut m: usize = cs.len();
            proof {
                assert(cs@ =~= all.take(m as int));
                assert(all.skip(m as int) =~= Seq::<FilterTree>::empty());
            }
            while m > 0
                invariant
                    t == t0,
                    t0 is And,
                    all == t0->And_0@,
                    m <= all.len(),
                    m == cs@.len(),
                    cs@ == all.take(m as int),
                    and_resolves_to(*schema, all.skip(m as int), acc),
                    forall|j: int| m <= j < all.len() ==> tree_wf(*schema, #[trigger] all[j]),
                decreases m,
            {
                let c = match cs.pop() {
                    Some(c) => c,
                    None => unreached(),
                };
                proof {
                    assert(all.take(m as int).last() == all[m as int - 1]);
                    assert(c == all[m as int - 1]);
                    assert(decreases_to!(t0 => t0->And_0));
                    assert(decreases_to!(t0->And_0 => all));
                    assert(decreases_to!(all => c));
                    assert(decreases_to!(t0 => c));
                }
                match resolve_tree(schema, c) {
                    Ok(pc) => {
                        acc = Predicate::And(Box::new(pc), Box::new(acc));
                        proof {
                            assert(all.skip(m as int - 1).drop_first() =~= all.skip(m as int));
                            assert(all.skip(m as int - 1)[0] == all[m as int - 1]);
                            assert(cs@ =~= all.take(m as int - 1));
                        }
                        m = m - 1;
                    },
                    Err(e) => {
                        proof {
                            assert(!tree_wf(*schema, all[m as int - 1]));
                        }
                        return Err(e);
                    },
                }
            }
            proof {
                assert(all.skip(0) =~= all);
            }
            Ok(acc)
        },
        FilterTree::Or(children) => {
            let ghost t0 = FilterTree::Or(children);
            let ghost all = children@;
            let mut cs = children;
            let mut acc = Predicate::Never;
            let mut m: usize = cs.len();
            proof {
                assert(cs@ =~= all.take(m as int));
                assert(all.skip(m as int) =~= Seq::<FilterTree>::empty());
            }
            while m > 0
                invariant
                    t == t0,
                    t0 is Or,
                    all == t0->Or_0@,
                    m <= all.len(),
                    m == cs@.len(),
                    cs@ == all.take(m as int),
                    or_resolves_to(*schema, all.skip(m as int), acc),
                    forall|j: int| m <= j < all.len() ==> tree_wf(*schema, #[trigger] all[j]),
                decreases m,
            {
                let c = match cs.pop() {
                    Some(c) => c,
                    None => unreached(),
                };
                proof {
                    assert(all.take(m as int).last() == all[m as int - 1]);
                    assert(c == all[m as int - 1]);
                    assert(decreases_to!(t0 => t0->Or_0));
                    assert(decreases_to!(t0->Or_0 => all));
                    assert(decreases_to!(all => c));
                    assert(decreases_to!(t0 => c));
                }
                match resolve_tree(schema, c) {
                    Ok(pc) => {
                        acc = Predicate::Or(Box::new(pc), Box::new(acc));
                        proof {
                            assert(all.skip(m as int - 1).drop_first() =~= all.skip(m as int));
                            assert(all.skip(m as int - 1)[0] == all[m as int - 1]);
                            assert(cs@ =~= all.take(m as int - 1));
                        }
                        m = m - 1;
                    },
                    Err(e) => {
                        proof {
                            assert(!tree_wf(*schema, all[m as int - 1]));
                        }
                        return Err(e);
                    },
                }
            }
            proof {
                assert(all.skip(0) =~= all);
            }
            Ok(acc)
        },
    }
}

/// Well-formedness of an optional filter; no filter selects everything.
pub open spec fn filter_opt_wf(schema: QuerySchema, f: Option<FilterTree>) -> bool {
    match f {
        None => true,
        Some(t) => tree_wf(schema, t),
    }
}

/// The canonical predicate of an optional filter.
pub open spec fn filter_opt_resolves(
    schema: QuerySchema,
    f: Option<FilterTree>,
    p: Predicate,
) -> bool {
    match f {
        None => p == Predicate::Always,
        Some(t) => resolves_to(schema, t, p),
    }
}

fn resolve_filter_opt(schema: &QuerySchema, f: Option<FilterTree>) -> (r: Result<
    Predicate,
    ValidationError,
>)
    ensures
        r is Ok <==> filter_opt_wf(*schema, f),
        r matches Ok(p) ==> filter_opt_resolves(*schema, f, p),
{
    match f {
        None => Ok(Predicate::Always),
        Some(t) => resolve_tree(schema, t),
    }
}

/// Well-formedness of one operation against the schema.
pub open spec fn op_wf(schema: QuerySchema, op: Operation) -> bool {
    match op.kind {
        OperationKind::FindMany { filter } => filter_opt_wf(schema, filter),
        OperationKind::CreateOne { values } => values@.len() == schema.fields@.len(),
        OperationKind::UpdateMany { filter, field, value } => filter_opt_wf(schema, filter)
            && match spec_field_index(schema.fields@, field@) {
            Some(i) => value_matches_type(schema.fields@[i].field_type, value@),
            None => false,
        },
        OperationKind::DeleteMany { filter } => filter_opt_wf(schema, filter),
    }
}

/// Well-formedness of a whole document against the schema.
pub open spec fn doc_wf(schema: QuerySchema, doc: QueryDocument) -> bool {
    forall|i: int|
        0 <= i < doc.operations@.len() ==> op_wf(schema, #[trigger] doc.operations@[i])
}

/// The graph the builder owes one operation: the minimal storage
/// operations for its kind, with dependency edges wired forward.
pub open spec fn op_graph_matches(schema: QuerySchema, op: Operation, g: QueryGraph) -> bool {
    match op.kind {
        OperationKind::FindMany { filter } => {
            &&& g.nodes@.len() == 1
            &&& g.edges@.len() == 0
            &&& match g.nodes@[0] {
                Node::Read(p) => filter_opt_resolves(schema, filter, p),
                _ => false,
            }
        },
        OperationKind::CreateOne { values } => {
            &&& g.nodes@.len() == 2
            &&& g.edges@.len() == 1
            &&& match g.nodes@[0] {
                Node::Create(rec) => rec.fields == values,
                _ => false,
            }
            &&& g.nodes@[1] matches Node::Filter(Predicate::Always)
            &&& g.edges@[0].from == 0 && g.edges@[0].to == 1 && g.edges@[0].kind is Data
        },
        OperationKind::UpdateMany { filter, field, value } => {
            &&& g.nodes@.len() == 1
            &&& g.edges@.len() == 0
            &&& match g.nodes@[0] {
                Node::Update(p, f, v) => filter_opt_resolves(schema, filter, p)
                    && spec_field_index(schema.fields@, field@) == Some(f as int) && v == value,
                _ => false,
            }
        },
        OperationKind::DeleteMany { filter } => {
            &&& g.nodes@.len() == 1
            &&& g.edges@.len() == 0
            &&& match g.nodes@[0] {
                Node::Delete(p) => filter_opt_resolves(schema, filter, p),
                _ => false,
            }
        },
    }
}

/// Compile one operation into its graph and result-shape descriptor.
fn build_one(schema: &QuerySchema, op: Operation) -> (r: Result<
    (QueryGraph, IrSerializer),
    ValidationError,
>)
    ensures
        r is Ok <==> op_wf(*schema, op),
        r matches Ok(q) ==> q.0.wf() && q.1.operation_name@ == op.name@ && op_graph_matches(
            *schema,
            op,
            q.0,
        ),
{
    let Operation { name, kind } = op;
    match kind {
        OperationKind::FindMany { filter } => {
            let p = match resolve_filter_opt(schema, filter) {
                Ok(p) => p,
                Err(e) => { return Err(e) },
            };
            let g = QueryGraph { nodes: vec![Node::Read(p)], edges: Vec::new() };
            Ok((g, IrSerializer { operation_name: name }))
        },
        OperationKind::CreateOne { values } => {
            if values.len() != schema.fields.len() {
                return Err(ValidationError::IncompatibleValue(name));
            }
            let g = QueryGraph {
                nodes: vec![
                    Node::Create(Record { fields: values }),
                    Node::Filter(Predicate::Always),
                ],
                edges: vec![Edge { from: 0, to: 1, kind: EdgeKind::Data }],
            };
            Ok((g, IrSerializer { operation_name: name }))
        },
        OperationKind::UpdateMany { filter, field, value } => {
            let f = match find_field(schema, &field) {
                Some(f) => f,
                None => { return Err(ValidationError::UnknownField(field)) },
            };
            if !matches_type(schema.fields[f].field_type, &value) {
                return Err(ValidationError::IncompatibleValue(field));
            }
            let p = match resolve_filter_opt(schema, filter) {
                Ok(p) => p,
                Err(e) => { return Err(e) },
            };
            let g = QueryGraph { nodes: vec![Node::Update(p, f, value)], edges: Vec::new() };
            Ok((g, IrSerializer { operation_name: name }))
        },
        OperationKind::DeleteMany { filter } => {
            let p = match resolve_filter_opt(schema, filter) {
                Ok(p) => p,
                Err(e) => { return Err(e) },
            };
            let g = QueryGraph { nodes: vec![Node::Delete(p)], edges: Vec::new() };
            Ok((g, IrSerializer { operation_name: name }))
        },
    }
}

/// The graph builder: one instance per request, bound to the schema.
pub struct QueryGraphBuilder<'a> {
    pub schema: &'a QuerySchema,
}

impl<'a> QueryGraphBuilder<'a> {
    pub fn new(schema: &'a QuerySchema) -> (r: QueryGraphBuilder<'a>)
        ensures
            r.schema == schema,
    {
        QueryGraphBuilder { schema }
    }

    /// Compile the whole document: one (graph, descriptor) pair per
    /// operation, in document order. Succeeds exactly on well-formed
    /// documents; a validation error never touches storage.
    pub fn build(self, doc: QueryDocument) -> (r: Result<
        Vec<(QueryGraph, IrSerializer)>,
        ValidationError,
    >)
        ensures
            r is Ok <==> doc_wf(*self.schema, doc),
            r matches Ok(qs) ==> {
                &&& qs@.len() == doc.operations@.len()
                &&& forall|i: int|
                    0 <= i < qs@.len() ==> (#[trigger] qs@[i]).0.wf() && qs@[i].1.operation_name@
                        == doc.operations@[i].name@ && op_graph_matches(
                        *self.schema,
                        doc.operations@[i],
                        qs@[i].0,
                    )
            },
    {
        let ghost ops0 = doc.operations@;
        let mut ops = doc.operations;
        let mut out: Vec<(QueryGraph, IrSerializer)> = Vec::new();
        while ops.len() > 0
            invariant
                ops0 == doc.operations@,
                ops@ == ops0.skip(out@.len() as int),
                out@.len() + ops@.len() == ops0.len(),
                forall|j: int| 0 <= j < out@.len() ==> op_wf(*self.schema, #[trigger] ops0[j]),
                forall|j: int|
                    0 <= j < out@.len() ==> (#[trigger] out@[j]).0.wf()
                        && out@[j].1.operation_name@ == ops0[j].name@ && op_graph_matches(
                        *self.schema,
                        ops0[j],
                        out@[j].0,
                    ),
            decreases ops@.len(),
        {
            let ghost k = out@.len() as int;
            let op = ops.remove(0);
            proof {
                assert(op == ops0[k]);
                assert(ops@ =~= ops0.skip(k + 1));
            }
            match build_one(self.schema, op) {
                Ok(q) => {
                    out.push(q);
                },
                Err(e) => {
                    proof {
                        assert(!doc_wf(*self.schema, doc)) by {
                            assert(!op_wf(*self.schema, doc.operations@[k]));
                        }
                    }
                    return Err(e);
                },
            }
        }
        proof {
            assert(ops0.skip(out@.len() as int).len() == 0);
            assert(out@.len() == ops0.len());
        }
        Ok(out)
    }
}

} // verus!
