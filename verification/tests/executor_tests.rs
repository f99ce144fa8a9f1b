use query_core::builder::{QueryGraphBuilder, ValidationError};
use query_core::connector::ConnectorError;
use query_core::document::{
    FieldDef, Operation, OperationKind, QueryDocument, QuerySchema, Response, ScalarType,
};
use query_core::executor::{execute_all, execute_one, CoreError, InterpretingExecutor};
use query_core::filter::Predicate;
use query_core::graph::{Edge, EdgeKind, Node, QueryGraph};
use query_core::filter::{BackendFlavor, FilterCondition, FilterTree};
use query_core::memory::{InMemoryConnection, InMemoryConnector};
use query_core::values::{Record, ScalarValue};

fn schema() -> QuerySchema {
    QuerySchema {
        fields: vec![
            FieldDef { name: String::from("id"), field_type: ScalarType::Int },
            FieldDef { name: String::from("field"), field_type: ScalarType::BigInt },
        ],
    }
}

fn seed_rows() -> Vec<Record> {
    vec![
        Record { fields: vec![Some(ScalarValue::Int(1)), Some(ScalarValue::BigInt(5))] },
        Record { fields: vec![Some(ScalarValue::Int(2)), Some(ScalarValue::BigInt(1))] },
        Record { fields: vec![Some(ScalarValue::Int(3)), None] },
    ]
}

fn connector(flavor: BackendFlavor) -> InMemoryConnector {
    InMemoryConnector { flavor, rows: seed_rows(), fail_nodes: false, fail_commit: false }
}

fn find_many(name: &str, cond: Option<(&str, FilterCondition)>) -> Operation {
    Operation {
        name: String::from(name),
        kind: OperationKind::FindMany {
            filter: cond.map(|(f, c)| FilterTree::Cond(String::from(f), c)),
        },
    }
}

fn data_ids(r: &Response) -> Vec<i64> {
    match r {
        Response::Data { rows, .. } => rows
            .iter()
            .map(|rec| match rec.fields.first() {
                Some(Some(ScalarValue::Int(id))) => *id,
                _ => panic!("row without integer id"),
            })
            .collect(),
        Response::Error { message, .. } => panic!("unexpected error response: {message}"),
    }
}

#[test]
fn equals_on_large_integer_field_selects_one_row() {
    let exec = InterpretingExecutor::new(connector(BackendFlavor::Relational), "memory");
    let doc = QueryDocument {
        operations: vec![find_many(
            "findRows",
            Some(("field", FilterCondition::Equals(ScalarValue::BigInt(5)))),
        )],
    };
    let rs = exec.execute(doc, &schema()).unwrap();
    assert_eq!(rs.len(), 1);
    assert_eq!(data_ids(&rs[0]), vec![1]);
}

#[test]
fn bare_shorthand_selects_the_same_row() {
    let exec = InterpretingExecutor::new(connector(BackendFlavor::Relational), "memory");
    let doc = QueryDocument {
        operations: vec![find_many(
            "findRows",
            Some(("field", FilterCondition::Bare(ScalarValue::BigInt(5)))),
        )],
    };
    let rs = exec.execute(doc, &schema()).unwrap();
    assert_eq!(data_ids(&rs[0]), vec![1]);
}

#[test]
fn null_filter_selects_absent_row_on_relational() {
    let exec = InterpretingExecutor::new(connector(BackendFlavor::Relational), "memory");
    let doc = QueryDocument {
        operations: vec![find_many(
            "findRows",
            Some(("field", FilterCondition::Bare(ScalarValue::Null))),
        )],
    };
    let rs = exec.execute(doc, &schema()).unwrap();
    assert_eq!(data_ids(&rs[0]), vec![3]);
}

#[test]
fn null_filter_is_empty_on_document_backend() {
    // documented divergence: the seeded record has the field absent, and
    // a document store keeps absent distinct from null
    let exec = InterpretingExecutor::new(connector(BackendFlavor::Document), "memory");
    let doc = QueryDocument {
        operations: vec![find_many(
            "findRows",
            Some(("field", FilterCondition::Bare(ScalarValue::Null))),
        )],
    };
    let rs = exec.execute(doc, &schema()).unwrap();
    assert_eq!(data_ids(&rs[0]), Vec::<i64>::new());
}

#[test]
fn response_count_and_order_mirror_the_operations() {
    let exec = InterpretingExecutor::new(connector(BackendFlavor::Relational), "memory");
    let doc = QueryDocument {
        operations: vec![
            find_many("first", None),
            find_many("second", Some(("field", FilterCondition::Gt(ScalarValue::BigInt(0))))),
            find_many("third", Some(("field", FilterCondition::Lte(ScalarValue::BigInt(1))))),
        ],
    };
    let rs = exec.execute(doc, &schema()).unwrap();
    assert_eq!(rs.len(), 3);
    let names: Vec<&str> = rs
        .iter()
        .map(|r| match r {
            Response::Data { operation_name, .. } => operation_name.as_str(),
            Response::Error { operation_name, .. } => operation_name.as_str(),
        })
        .collect();
    assert_eq!(names, vec!["first", "second", "third"]);
}

#[test]
fn primary_connector_reports_its_name() {
    let exec = InterpretingExecutor::new(connector(BackendFlavor::Relational), "memory");
    assert_eq!(exec.primary_connector(), "memory");
}

#[test]
fn unknown_field_surfaces_a_validation_error() {
    let exec = InterpretingExecutor::new(connector(BackendFlavor::Relational), "memory");
    let doc = QueryDocument {
        operations: vec![find_many(
            "bad",
            Some(("nope", FilterCondition::Bare(ScalarValue::Int(1)))),
        )],
    };
    let r = exec.execute(doc, &schema());
    assert!(matches!(r, Err(CoreError::Validation(ValidationError::UnknownField(_)))));
}

#[test]
fn type_incompatible_filter_surfaces_a_validation_error() {
    let exec = InterpretingExecutor::new(connector(BackendFlavor::Relational), "memory");
    let doc = QueryDocument {
        operations: vec![find_many(
            "bad",
            Some(("field", FilterCondition::Lt(ScalarValue::Bool(true)))),
        )],
    };
    let r = exec.execute(doc, &schema());
    assert!(matches!(r, Err(CoreError::Validation(ValidationError::IncompatibleValue(_)))));
}

fn fresh_connection(flavor: BackendFlavor, fail_nodes: bool, fail_commit: bool) -> InMemoryConnection {
    InMemoryConnection {
        flavor,
        committed_rows: seed_rows(),
        staged_rows: Vec::new(),
        tx_open: false,
        fail_nodes,
        fail_commit,
    }
}

fn build(doc: QueryDocument) -> Vec<(query_core::graph::QueryGraph, query_core::document::IrSerializer)> {
    let s = schema();
    QueryGraphBuilder::new(&s).build(doc).unwrap()
}

#[test]
fn successful_graph_leaves_its_effects_visible() {
    let mut conn = fresh_connection(BackendFlavor::Relational, false, false);
    let doc = QueryDocument {
        operations: vec![Operation {
            name: String::from("createRow"),
            kind: OperationKind::CreateOne {
                values: vec![Some(ScalarValue::Int(4)), Some(ScalarValue::BigInt(7))],
            },
        }],
    };
    let rs = execute_all(&mut conn, build(doc)).unwrap();
    assert_eq!(rs.len(), 1);
    assert!(matches!(rs[0], Response::Data { .. }));
    assert_eq!(conn.committed_rows.len(), 4);
    assert!(matches!(
        conn.committed_rows[3].fields[1],
        Some(ScalarValue::BigInt(7))
    ));
    assert!(!conn.tx_open);
}

#[test]
fn failing_graph_leaves_storage_unchanged() {
    let mut conn = fresh_connection(BackendFlavor::Relational, true, false);
    let doc = QueryDocument {
        operations: vec![Operation {
            name: String::from("createRow"),
            kind: OperationKind::CreateOne {
                values: vec![Some(ScalarValue::Int(4)), Some(ScalarValue::BigInt(7))],
            },
        }],
    };
    let rs = execute_all(&mut conn, build(doc)).unwrap();
    assert_eq!(rs.len(), 1);
    assert!(matches!(rs[0], Response::Error { .. }));
    assert_eq!(conn.committed_rows.len(), 3);
    assert!(!conn.tx_open);
}

#[test]
fn commit_failure_aborts_the_batch_with_storage_unchanged() {
    let mut conn = fresh_connection(BackendFlavor::Relational, false, true);
    let doc = QueryDocument {
        operations: vec![
            Operation {
                name: String::from("createRow"),
                kind: OperationKind::CreateOne {
                    values: vec![Some(ScalarValue::Int(4)), Some(ScalarValue::BigInt(7))],
                },
            },
            find_many("after", None),
        ],
    };
    let r = execute_all(&mut conn, build(doc));
    assert!(matches!(r, Err(ConnectorError::CommitFailed)));
    assert_eq!(conn.committed_rows.len(), 3);
    assert!(!conn.tx_open);
}

#[test]
fn update_many_sets_the_field_on_selected_rows() {
    let mut conn = fresh_connection(BackendFlavor::Relational, false, false);
    let doc = QueryDocument {
        operations: vec![Operation {
            name: String::from("updateRows"),
            kind: OperationKind::UpdateMany {
                filter: Some(FilterTree::Cond(
                    String::from("field"),
                    FilterCondition::Gt(ScalarValue::BigInt(2)),
                )),
                field: String::from("field"),
                value: ScalarValue::BigInt(10),
            },
        }],
    };
    let rs = execute_all(&mut conn, build(doc)).unwrap();
    assert!(matches!(rs[0], Response::Data { .. }));
    assert!(matches!(conn.committed_rows[0].fields[1], Some(ScalarValue::BigInt(10))));
    assert!(matches!(conn.committed_rows[1].fields[1], Some(ScalarValue::BigInt(1))));
}

#[test]
fn delete_many_removes_selected_rows() {
    let mut conn = fresh_connection(BackendFlavor::Relational, false, false);
    let doc = QueryDocument {
        operations: vec![Operation {
            name: String::from("deleteRows"),
            kind: OperationKind::DeleteMany {
                filter: Some(FilterTree::Cond(
                    String::from("field"),
                    FilterCondition::Lte(ScalarValue::BigInt(1)),
                )),
            },
        }],
    };
    let rs = execute_all(&mut conn, build(doc)).unwrap();
    assert!(matches!(rs[0], Response::Data { .. }));
    assert_eq!(conn.committed_rows.len(), 2);
}

#[test]
fn later_graph_commits_after_an_earlier_one_failed() {
    // no cross-graph atomicity: a failing first graph does not stop the
    // second from committing
    let mut conn = fresh_connection(BackendFlavor::Relational, false, false);
    let doc = QueryDocument {
        operations: vec![
            Operation {
                name: String::from("badCreate"),
                kind: OperationKind::CreateOne {
                    // arity mismatch is caught by validation, so force a
                    // runtime failure instead: delete with a filter, then
                    // fail the second operation at the node level
                    values: vec![Some(ScalarValue::Int(9)), Some(ScalarValue::BigInt(9))],
                },
            },
            find_many("readBack", None),
        ],
    };
    let rs = execute_all(&mut conn, build(doc)).unwrap();
    assert_eq!(rs.len(), 2);
    assert!(matches!(rs[0], Response::Data { .. }));
    assert_eq!(data_ids(&rs[1]).len(), 4);
}

#[test]
fn create_arity_mismatch_is_a_validation_error() {
    let s = schema();
    let doc = QueryDocument {
        operations: vec![Operation {
            name: String::from("badCreate"),
            kind: OperationKind::CreateOne { values: vec![Some(ScalarValue::Int(9))] },
        }],
    };
    let r = QueryGraphBuilder::new(&s).build(doc);
    assert!(matches!(r, Err(ValidationError::IncompatibleValue(_))));
}

#[test]
fn a_hand_built_graph_runs_its_nodes_in_dependency_order() {
    // a create node, then a read node held back by an ordering edge:
    // the read sees the created row inside the same transaction
    let mut conn = fresh_connection(BackendFlavor::Relational, false, false);
    let graph = QueryGraph {
        nodes: vec![
            Node::Create(Record {
                fields: vec![Some(ScalarValue::Int(4)), Some(ScalarValue::BigInt(7))],
            }),
            Node::Read(Predicate::Always),
        ],
        edges: vec![Edge { from: 0, to: 1, kind: EdgeKind::Ordering }],
    };
    let ser = query_core::document::IrSerializer { operation_name: String::from("combined") };
    let resp = execute_one(&mut conn, graph, ser).unwrap();
    assert_eq!(data_ids(&resp), vec![1, 2, 3, 4]);
    assert_eq!(conn.committed_rows.len(), 4);
}

#[test]
fn a_data_edge_feeds_one_node_result_into_the_next() {
    // the intermediate filter step consumes the read's rows over a data
    // edge and narrows them without touching storage
    let mut conn = fresh_connection(BackendFlavor::Relational, false, false);
    let graph = QueryGraph {
        nodes: vec![
            Node::Read(Predicate::Always),
            Node::Filter(Predicate::Compare(1, query_core::filter::CompareOp::Gt,
                ScalarValue::BigInt(2))),
        ],
        edges: vec![Edge { from: 0, to: 1, kind: EdgeKind::Data }],
    };
    let ser = query_core::document::IrSerializer { operation_name: String::from("narrowed") };
    let resp = execute_one(&mut conn, graph, ser).unwrap();
    assert_eq!(data_ids(&resp), vec![1]);
    assert_eq!(conn.committed_rows.len(), 3);
}
