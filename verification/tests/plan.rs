use sparrow_core::expr::Decimal;
use sparrow_core::expr::Expr;
use sparrow_core::expr::ExprId;
use sparrow_core::expr::ExprKind;
use sparrow_core::expr::validate_topology;
use sparrow_core::plan_doc::decode_plan;
use sparrow_core::plan_doc::encode_plan;
use sparrow_core::types::DataType;
use sparrow_core::types::Field;
use sparrow_core::types::TimeUnit;

fn three_node_plan() -> Vec<Expr> {
    vec![
        Expr {
            kind: ExprKind::Column("foo".to_owned()),
            args: vec![],
            result_type: DataType::Int32,
        },
        Expr {
            kind: ExprKind::Column("bar".to_owned()),
            args: vec![],
            result_type: DataType::Int32,
        },
        Expr {
            kind: ExprKind::Call("add".into()),
            args: vec![0.into(), 1.into()],
            result_type: DataType::Int32,
        },
    ]
}

#[test]
fn test_physical_exprs_yaml() {
    let exprs = three_node_plan();
    let doc = encode_plan(&exprs);
    assert_eq!(doc, "3 column 3:foo 0 i32 column 3:bar 0 i32 call 3:add 2 0 1 i32 ");
    let back = decode_plan(doc.as_str()).expect("document should decode");
    assert_eq!(back, exprs);
}

#[test]
fn documents_are_stable() {
    let exprs = three_node_plan();
    assert_eq!(encode_plan(&exprs), encode_plan(&three_node_plan()));
}

#[test]
fn rich_plans_roundtrip() {
    let exprs = vec![
        Expr {
            kind: ExprKind::Column("events".to_owned()),
            args: vec![],
            result_type: DataType::Struct(vec![
                Field { name: "when".to_owned(), data_type: DataType::Timestamp(TimeUnit::Nanosecond) },
                Field { name: "what".to_owned(), data_type: DataType::Utf8 },
            ]),
        },
        Expr {
            kind: ExprKind::BooleanLiteral(true),
            args: vec![],
            result_type: DataType::Boolean,
        },
        Expr {
            kind: ExprKind::StringLiteral("a b:c ".to_owned()),
            args: vec![],
            result_type: DataType::Utf8,
        },
        Expr {
            kind: ExprKind::NumericLiteral(Decimal { text: "12.5".to_owned() }),
            args: vec![],
            result_type: DataType::Float64,
        },
        Expr {
            kind: ExprKind::Call("collect".to_owned()),
            args: vec![ExprId(0), ExprId(2)],
            result_type: DataType::List(Box::new(DataType::Utf8)),
        },
        Expr {
            kind: ExprKind::Call("index".to_owned()),
            args: vec![ExprId(4)],
            result_type: DataType::Mapping(
                Box::new(DataType::Utf8),
                Box::new(DataType::Int64),
            ),
        },
    ];
    let doc = encode_plan(&exprs);
    let back = decode_plan(doc.as_str()).expect("document should decode");
    assert_eq!(back, exprs);
}

#[test]
fn garbage_documents_are_rejected() {
    assert_eq!(decode_plan("nonsense"), None);
    assert_eq!(decode_plan(""), None);
    assert_eq!(decode_plan("1 column 3:foo 0 i32 trailing"), None);
    assert_eq!(decode_plan("2 column 3:foo 0 i32 "), None);
}

#[test]
fn expr_kind_accessors() {
    let call = ExprKind::Call("add".to_owned());
    assert_eq!(call.as_call().map(|s| s.as_str()), Some("add"));
    assert_eq!(call.as_column(), None);
    let col = ExprKind::Column("foo".to_owned());
    assert_eq!(col.as_column().map(|s| s.as_str()), Some("foo"));
    assert_eq!(ExprKind::BooleanLiteral(true).as_boolean_literal(), Some(true));
    let lit = ExprKind::StringLiteral("x".to_owned());
    assert_eq!(lit.as_string_literal().map(|s| s.as_str()), Some("x"));
    let num = ExprKind::NumericLiteral(Decimal { text: "7".to_owned() });
    assert_eq!(num.as_numeric_literal().map(|d| d.text.as_str()), Some("7"));
}

#[test]
fn topology_holds_only_for_backward_references() {
    let good = three_node_plan();
    assert!(validate_topology(&good));
    let bad = vec![
        Expr {
            kind: ExprKind::Call("add".to_owned()),
            args: vec![ExprId(0), ExprId(1)],
            result_type: DataType::Int32,
        },
        Expr {
            kind: ExprKind::Column("foo".to_owned()),
            args: vec![],
            result_type: DataType::Int32,
        },
    ];
    assert!(!validate_topology(&bad));
    let self_ref = vec![Expr {
        kind: ExprKind::Call("add".to_owned()),
        args: vec![ExprId(0)],
        result_type: DataType::Int32,
    }];
    assert!(!validate_topology(&self_ref));
}

#[test]
fn empty_plans_roundtrip() {
    let exprs: Vec<Expr> = vec![];
    let doc = encode_plan(&exprs);
    assert_eq!(doc, "0 ");
    assert_eq!(decode_plan(doc.as_str()), Some(vec![]));
}
