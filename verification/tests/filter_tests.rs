use query_core::filter::{
    eval_predicate, negate_condition, resolve_condition, BackendFlavor, CompareOp,
    FilterCondition, FilterTree, Predicate,
};
use query_core::builder::{resolve_tree, ValidationError};
use query_core::document::{FieldDef, QuerySchema, ScalarType};
use query_core::values::{value_clone, Record, ScalarValue};

fn row(v: Option<ScalarValue>) -> Record {
    Record { fields: vec![v] }
}

fn eval(p: &Predicate, r: &Record) -> bool {
    eval_predicate(BackendFlavor::Relational, p, r)
}

#[test]
fn bare_shorthand_is_equality() {
    let p = resolve_condition(0, FilterCondition::Bare(ScalarValue::BigInt(5)));
    match p {
        Predicate::Compare(0, CompareOp::Equals, ScalarValue::BigInt(5)) => {}
        _ => panic!("shorthand did not resolve to equals"),
    }
}

#[test]
fn negation_rewrites_gt_to_lte() {
    let p = negate_condition(0, FilterCondition::Gt(ScalarValue::Int(7)));
    assert!(matches!(p, Predicate::Compare(0, CompareOp::Lte, ScalarValue::Int(7))));
}

#[test]
fn negation_rewrites_gte_to_lt() {
    let p = negate_condition(0, FilterCondition::Gte(ScalarValue::Int(7)));
    assert!(matches!(p, Predicate::Compare(0, CompareOp::Lt, ScalarValue::Int(7))));
}

#[test]
fn negation_rewrites_lt_to_gte() {
    let p = negate_condition(0, FilterCondition::Lt(ScalarValue::Int(7)));
    assert!(matches!(p, Predicate::Compare(0, CompareOp::Gte, ScalarValue::Int(7))));
}

#[test]
fn negation_rewrites_lte_to_gt() {
    let p = negate_condition(0, FilterCondition::Lte(ScalarValue::Int(7)));
    assert!(matches!(p, Predicate::Compare(0, CompareOp::Gt, ScalarValue::Int(7))));
}

#[test]
fn negation_rewrites_in_to_not_in() {
    let p = negate_condition(0, FilterCondition::In(vec![ScalarValue::Int(1)]));
    assert!(matches!(p, Predicate::NotIn(0, _)));
}

#[test]
fn double_negation_resolves_plainly() {
    let p = resolve_condition(
        0,
        FilterCondition::Not(Box::new(FilterCondition::Not(Box::new(FilterCondition::Gt(
            ScalarValue::Int(3),
        ))))),
    );
    assert!(matches!(p, Predicate::Compare(0, CompareOp::Gt, ScalarValue::Int(3))));
}

#[test]
fn negated_comparison_selects_complement_with_boundary() {
    // rows with value 2, 3 (the boundary) and 4 against gt: 3
    for (v, gt_selected) in [(2i64, false), (3, false), (4, true)] {
        let r = row(Some(ScalarValue::Int(v)));
        let gt = resolve_condition(0, FilterCondition::Gt(ScalarValue::Int(3)));
        let not_gt = resolve_condition(
            0,
            FilterCondition::Not(Box::new(FilterCondition::Gt(ScalarValue::Int(3)))),
        );
        assert_eq!(eval(&gt, &r), gt_selected);
        assert_eq!(eval(&not_gt, &r), !gt_selected);
    }
}

#[test]
fn in_with_not_null_matches_equality_disjunction() {
    let a = ScalarValue::BigInt(5);
    let b = ScalarValue::BigInt(1);
    for value in [
        Some(ScalarValue::BigInt(5)),
        Some(ScalarValue::BigInt(1)),
        Some(ScalarValue::BigInt(9)),
        Some(ScalarValue::Null),
        None,
    ] {
        let r = row(value);
        let in_list = resolve_condition(
            0,
            FilterCondition::In(vec![ScalarValue::BigInt(5), ScalarValue::BigInt(1)]),
        );
        let not_null = resolve_condition(
            0,
            FilterCondition::Not(Box::new(FilterCondition::Bare(ScalarValue::Null))),
        );
        let eq_a = resolve_condition(0, FilterCondition::Equals(value_clone(&a)));
        let eq_b = resolve_condition(0, FilterCondition::Equals(value_clone(&b)));
        let lhs = eval(&in_list, &r) && eval(&not_null, &r);
        let rhs = (eval(&eq_a, &r) || eval(&eq_b, &r)) && eval(&not_null, &r);
        assert_eq!(lhs, rhs);
    }
}

#[test]
fn not_in_with_not_null_is_non_null_minus_value() {
    for value in [
        Some(ScalarValue::BigInt(5)),
        Some(ScalarValue::BigInt(1)),
        Some(ScalarValue::Null),
        None,
    ] {
        let r = row(value);
        let not_in = resolve_condition(0, FilterCondition::NotIn(vec![ScalarValue::BigInt(5)]));
        let not_null = resolve_condition(
            0,
            FilterCondition::Not(Box::new(FilterCondition::Bare(ScalarValue::Null))),
        );
        let eq_a = resolve_condition(0, FilterCondition::Equals(ScalarValue::BigInt(5)));
        let lhs = eval(&not_in, &r) && eval(&not_null, &r);
        let rhs = eval(&not_null, &r) && !eval(&eq_a, &r);
        assert_eq!(lhs, rhs);
    }
}

fn one_field_schema() -> QuerySchema {
    QuerySchema {
        fields: vec![FieldDef { name: String::from("field"), field_type: ScalarType::BigInt }],
    }
}

#[test]
fn empty_and_is_vacuously_true() {
    let schema = one_field_schema();
    let p = resolve_tree(&schema, FilterTree::And(vec![])).unwrap();
    assert!(matches!(p, Predicate::Always));
    assert!(eval(&p, &row(None)));
}

#[test]
fn empty_or_is_vacuously_false() {
    let schema = one_field_schema();
    let p = resolve_tree(&schema, FilterTree::Or(vec![])).unwrap();
    assert!(matches!(p, Predicate::Never));
    assert!(!eval(&p, &row(None)));
}

#[test]
fn unknown_field_is_a_validation_error() {
    let schema = one_field_schema();
    let r = resolve_tree(
        &schema,
        FilterTree::Cond(String::from("nope"), FilterCondition::Bare(ScalarValue::Int(1))),
    );
    assert!(matches!(r, Err(ValidationError::UnknownField(_))));
}

#[test]
fn non_numeric_value_against_comparison_is_a_validation_error() {
    let schema = one_field_schema();
    let r = resolve_tree(
        &schema,
        FilterTree::Cond(
            String::from("field"),
            FilterCondition::Gt(ScalarValue::Text(String::from("five"))),
        ),
    );
    assert!(matches!(r, Err(ValidationError::IncompatibleValue(_))));
}

#[test]
fn and_or_combinators_distribute_structurally() {
    let schema = one_field_schema();
    let t = FilterTree::And(vec![
        FilterTree::Cond(String::from("field"), FilterCondition::Gt(ScalarValue::BigInt(0))),
        FilterTree::Or(vec![
            FilterTree::Cond(String::from("field"), FilterCondition::Lt(ScalarValue::BigInt(3))),
            FilterTree::Cond(
                String::from("field"),
                FilterCondition::Equals(ScalarValue::BigInt(9)),
            ),
        ]),
    ]);
    let p = resolve_tree(&schema, t).unwrap();
    // selected: 0 < v and (v < 3 or v == 9)
    for (v, selected) in [(1i128, true), (2, true), (3, false), (9, true), (-1, false)] {
        assert_eq!(eval(&p, &row(Some(ScalarValue::BigInt(v)))), selected);
    }
}

#[test]
fn int_and_bigint_compare_across_widths() {
    let r = row(Some(ScalarValue::Int(i64::MAX)));
    let gt = resolve_condition(
        0,
        FilterCondition::Gt(ScalarValue::BigInt(i64::MAX as i128 - 1)),
    );
    let gt_large = resolve_condition(
        0,
        FilterCondition::Gt(ScalarValue::BigInt(i64::MAX as i128 + 1)),
    );
    assert!(eval(&gt, &r));
    assert!(!eval(&gt_large, &r));
}

#[test]
fn equality_is_numeric_across_integer_widths() {
    // a narrow integer stored in a wide field is the same number
    let r = row(Some(ScalarValue::Int(5)));
    let eq = resolve_condition(0, FilterCondition::Equals(ScalarValue::BigInt(5)));
    let gte = resolve_condition(0, FilterCondition::Gte(ScalarValue::BigInt(5)));
    let lte = resolve_condition(0, FilterCondition::Lte(ScalarValue::BigInt(5)));
    assert!(eval(&eq, &r));
    assert!(eval(&gte, &r) && eval(&lte, &r));
    assert!(query_core::values::value_eq(&ScalarValue::Int(5), &ScalarValue::BigInt(5)));
    assert!(!query_core::values::value_eq(&ScalarValue::Int(5), &ScalarValue::BigInt(6)));
}

#[test]
fn null_test_diverges_between_backends() {
    // absent field: a relational backend folds it into null, a document
    // backend keeps it distinct
    let absent = row(None);
    let explicit_null = row(Some(ScalarValue::Null));
    let eq_null = resolve_condition(0, FilterCondition::Bare(ScalarValue::Null));
    assert!(eval_predicate(BackendFlavor::Relational, &eq_null, &absent));
    assert!(!eval_predicate(BackendFlavor::Document, &eq_null, &absent));
    assert!(eval_predicate(BackendFlavor::Relational, &eq_null, &explicit_null));
    assert!(eval_predicate(BackendFlavor::Document, &eq_null, &explicit_null));
}
