use sparrow_core::column::Batch;
use sparrow_core::column::Column;
use sparrow_core::compile::compile;
use sparrow_core::compile::run;
use sparrow_core::errors::InstantiationError;
use sparrow_core::expr::Decimal;
use sparrow_core::expr::Expr;
use sparrow_core::expr::ExprId;
use sparrow_core::expr::ExprKind;
use sparrow_core::metrics::Counter;
use sparrow_core::metrics::Gauge;
use sparrow_core::metrics::IntoMetricValue;
use sparrow_core::metrics::MetricData;
use sparrow_core::metrics::MetricKind;
use sparrow_core::metrics::Registration;
use sparrow_core::registry::InstructionKind;
use sparrow_core::registry::Registry;
use sparrow_core::registry::RegistrationError;
use sparrow_core::registry::default_registry;
use sparrow_core::types::DataType;
use sparrow_core::types::TimeUnit;
use sparrow_core::types::Field;

fn int_schema() -> Vec<Field> {
    vec![
        Field { name: "a".to_owned(), data_type: DataType::Int32 },
        Field { name: "b".to_owned(), data_type: DataType::Int32 },
    ]
}

fn gte_plan() -> Vec<Expr> {
    vec![
        Expr {
            kind: ExprKind::Column("a".to_owned()),
            args: vec![],
            result_type: DataType::Int32,
        },
        Expr {
            kind: ExprKind::Column("b".to_owned()),
            args: vec![],
            result_type: DataType::Int32,
        },
        Expr {
            kind: ExprKind::Call("gte_primitive".to_owned()),
            args: vec![ExprId(0), ExprId(1)],
            result_type: DataType::Boolean,
        },
    ]
}

#[test]
fn gte_propagates_nulls() {
    let plan = gte_plan();
    let schema = int_schema();
    let registry = default_registry();
    let evaluators = compile(&plan, &schema, &registry).expect("plan should compile");
    let batch = Batch {
        fields: int_schema(),
        columns: vec![
            Column::Int32(vec![Some(1), None, Some(3)]),
            Column::Int32(vec![None, Some(2), Some(3)]),
        ],
        num_rows: 3,
    };
    let columns = run(&evaluators, &batch).expect("batch should evaluate");
    assert_eq!(columns.len(), 3);
    assert_eq!(columns[2], Column::Boolean(vec![None, None, Some(true)]));
}

fn struct_schema() -> Vec<Field> {
    vec![Field {
        name: "s".to_owned(),
        data_type: DataType::Struct(vec![
            Field { name: "foo".to_owned(), data_type: DataType::Int32 },
            Field { name: "bar".to_owned(), data_type: DataType::Int32 },
        ]),
    }]
}

fn field_ref_plan(field: &str, result_type: DataType) -> Vec<Expr> {
    vec![
        Expr {
            kind: ExprKind::Column("s".to_owned()),
            args: vec![],
            result_type: DataType::Struct(vec![
                Field { name: "foo".to_owned(), data_type: DataType::Int32 },
                Field { name: "bar".to_owned(), data_type: DataType::Int32 },
            ]),
        },
        Expr {
            kind: ExprKind::StringLiteral(field.to_owned()),
            args: vec![],
            result_type: DataType::Utf8,
        },
        Expr {
            kind: ExprKind::Call("field_ref".to_owned()),
            args: vec![ExprId(0), ExprId(1)],
            result_type,
        },
    ]
}

fn struct_batch() -> Batch {
    Batch {
        fields: struct_schema(),
        columns: vec![Column::Struct(
            vec![
                Field { name: "foo".to_owned(), data_type: DataType::Int32 },
                Field { name: "bar".to_owned(), data_type: DataType::Int32 },
            ],
            vec![
                Column::Int32(vec![Some(1)]),
                Column::Int32(vec![Some(2)]),
            ],
            1,
        )],
        num_rows: 1,
    }
}

#[test]
fn field_ref_projects_the_named_field() {
    let plan = field_ref_plan("bar", DataType::Int32);
    let registry = default_registry();
    let evaluators = compile(&plan, &struct_schema(), &registry).expect("should compile");
    let columns = run(&evaluators, &struct_batch()).expect("should evaluate");
    assert_eq!(columns[2], Column::Int32(vec![Some(2)]));
}

#[test]
fn field_ref_rejects_missing_fields() {
    let plan = field_ref_plan("baz", DataType::Int32);
    let registry = default_registry();
    match compile(&plan, &struct_schema(), &registry) {
        Err(InstantiationError::NoSuchField { field_name }) => {
            assert_eq!(field_name, "baz");
        }
        other => panic!("expected a no-such-field error, got {:?}", other),
    }
}

#[test]
fn field_ref_rejects_mismatched_result_types() {
    let plan = field_ref_plan("bar", DataType::Int64);
    let registry = default_registry();
    match compile(&plan, &struct_schema(), &registry) {
        Err(InstantiationError::UnexpectedResultType { actual, expected, .. }) => {
            assert_eq!(actual, DataType::Int32);
            assert_eq!(expected, DataType::Int64);
        }
        other => panic!("expected a type-mismatch error, got {:?}", other),
    }
}

#[test]
fn unknown_instructions_fail_instantiation() {
    let mut plan = gte_plan();
    plan[2].kind = ExprKind::Call("no_such_instruction".to_owned());
    let registry = default_registry();
    match compile(&plan, &int_schema(), &registry) {
        Err(InstantiationError::UnknownInstruction { name }) => {
            assert_eq!(name, "no_such_instruction");
        }
        other => panic!("expected an unknown-instruction error, got {:?}", other),
    }
}

#[test]
fn unknown_columns_fail_instantiation() {
    let mut plan = gte_plan();
    plan[0].kind = ExprKind::Column("missing".to_owned());
    let registry = default_registry();
    match compile(&plan, &int_schema(), &registry) {
        Err(InstantiationError::NoSuchColumn { name }) => {
            assert_eq!(name, "missing");
        }
        other => panic!("expected a no-such-column error, got {:?}", other),
    }
}

#[test]
fn forward_references_are_rejected_before_evaluation() {
    let mut plan = gte_plan();
    plan[2].args = vec![ExprId(0), ExprId(2)];
    let registry = default_registry();
    match compile(&plan, &int_schema(), &registry) {
        Err(InstantiationError::ArgumentOutOfOrder { index }) => {
            assert_eq!(index, 2);
        }
        other => panic!("expected an out-of-order error, got {:?}", other),
    }
}

#[test]
fn gte_compares_strings_lexicographically() {
    let mut plan = gte_plan();
    plan[0].result_type = DataType::Utf8;
    plan[1].result_type = DataType::Utf8;
    let mut schema = int_schema();
    schema[0].data_type = DataType::Utf8;
    schema[1].data_type = DataType::Utf8;
    let registry = default_registry();
    let evaluators = compile(&plan, &schema, &registry).expect("strings are ordered");
    let batch = Batch {
        fields: schema,
        columns: vec![
            Column::Utf8(vec![Some("pear".to_owned()), None, Some("fig".to_owned())]),
            Column::Utf8(vec![Some("apple".to_owned()), Some("kiwi".to_owned()), Some("fig".to_owned())]),
        ],
        num_rows: 3,
    };
    let columns = run(&evaluators, &batch).expect("batch should evaluate");
    assert_eq!(columns[2], Column::Boolean(vec![Some(true), None, Some(true)]));
}

#[test]
fn gte_rejects_unsupported_types() {
    let mut plan = gte_plan();
    plan[0].result_type = DataType::Boolean;
    plan[1].result_type = DataType::Boolean;
    let mut schema = int_schema();
    schema[0].data_type = DataType::Boolean;
    schema[1].data_type = DataType::Boolean;
    let registry = default_registry();
    match compile(&plan, &schema, &registry) {
        Err(InstantiationError::UnsupportedArgumentType { actual, .. }) => {
            assert_eq!(actual, DataType::Boolean);
        }
        other => panic!("expected an unsupported-type error, got {:?}", other),
    }
}

#[test]
fn mismatched_batch_column_types_abort_evaluation() {
    let plan = vec![Expr {
        kind: ExprKind::Column("a".to_owned()),
        args: vec![],
        result_type: DataType::Int32,
    }];
    let schema = vec![Field { name: "a".to_owned(), data_type: DataType::Int32 }];
    let registry = default_registry();
    let evaluators = compile(&plan, &schema, &registry).expect("should compile");
    // the batch hands a column of the wrong type under that name
    let batch = Batch {
        fields: vec![Field { name: "a".to_owned(), data_type: DataType::Int64 }],
        columns: vec![Column::Int64(vec![Some(1)])],
        num_rows: 1,
    };
    assert!(run(&evaluators, &batch).is_err());
}

#[test]
fn extreme_literals_narrow_exactly() {
    let plan = vec![
        Expr {
            kind: ExprKind::NumericLiteral(Decimal { text: "9223372036854775807".to_owned() }),
            args: vec![],
            result_type: DataType::Int64,
        },
        Expr {
            kind: ExprKind::NumericLiteral(Decimal { text: "-9223372036854775808".to_owned() }),
            args: vec![],
            result_type: DataType::Int64,
        },
        Expr {
            kind: ExprKind::NumericLiteral(Decimal { text: "18446744073709551615".to_owned() }),
            args: vec![],
            result_type: DataType::UInt64,
        },
    ];
    let registry = default_registry();
    let evaluators = compile(&plan, &vec![], &registry).expect("all fit their targets");
    let batch = Batch { fields: vec![], columns: vec![], num_rows: 1 };
    let columns = run(&evaluators, &batch).expect("should evaluate");
    assert_eq!(columns[0], Column::Int64(vec![Some(i64::MAX)]));
    assert_eq!(columns[1], Column::Int64(vec![Some(i64::MIN)]));
    assert_eq!(columns[2], Column::UInt64(vec![Some(u64::MAX)]));
    let over = vec![Expr {
        kind: ExprKind::NumericLiteral(Decimal { text: "99999999999999999999".to_owned() }),
        args: vec![],
        result_type: DataType::UInt64,
    }];
    match compile(&over, &vec![], &registry) {
        Err(InstantiationError::InvalidNumericLiteral { text }) => {
            assert_eq!(text, "99999999999999999999");
        }
        other => panic!("expected an invalid-literal error, got {:?}", other),
    }
}

#[test]
fn temporal_literals_materialize() {
    let plan = vec![
        Expr {
            kind: ExprKind::NumericLiteral(Decimal { text: "1700000000000".to_owned() }),
            args: vec![],
            result_type: DataType::Timestamp(TimeUnit::Millisecond),
        },
        Expr {
            kind: ExprKind::NumericLiteral(Decimal { text: "-30".to_owned() }),
            args: vec![],
            result_type: DataType::Duration(TimeUnit::Second),
        },
    ];
    let registry = default_registry();
    let evaluators = compile(&plan, &vec![], &registry).expect("temporal literals compile");
    let batch = Batch { fields: vec![], columns: vec![], num_rows: 2 };
    let columns = run(&evaluators, &batch).expect("should evaluate");
    assert_eq!(
        columns[0],
        Column::Timestamp(
            TimeUnit::Millisecond,
            vec![Some(1700000000000), Some(1700000000000)],
        )
    );
    assert_eq!(
        columns[1],
        Column::Duration(TimeUnit::Second, vec![Some(-30), Some(-30)])
    );
}

#[test]
fn literals_broadcast_to_the_batch_length() {
    let plan = vec![
        Expr {
            kind: ExprKind::BooleanLiteral(true),
            args: vec![],
            result_type: DataType::Boolean,
        },
        Expr {
            kind: ExprKind::NumericLiteral(Decimal { text: "-42".to_owned() }),
            args: vec![],
            result_type: DataType::Int32,
        },
        Expr {
            kind: ExprKind::StringLiteral("hi".to_owned()),
            args: vec![],
            result_type: DataType::Utf8,
        },
    ];
    let registry = default_registry();
    let evaluators = compile(&plan, &vec![], &registry).expect("should compile");
    let batch = Batch { fields: vec![], columns: vec![], num_rows: 2 };
    let columns = run(&evaluators, &batch).expect("should evaluate");
    assert_eq!(columns[0], Column::Boolean(vec![Some(true), Some(true)]));
    assert_eq!(columns[1], Column::Int32(vec![Some(-42), Some(-42)]));
    assert_eq!(
        columns[2],
        Column::Utf8(vec![Some("hi".to_owned()), Some("hi".to_owned())])
    );
}

#[test]
fn fractional_literals_cannot_narrow_to_integers() {
    let plan = vec![Expr {
        kind: ExprKind::NumericLiteral(Decimal { text: "12.5".to_owned() }),
        args: vec![],
        result_type: DataType::Int32,
    }];
    let registry = default_registry();
    match compile(&plan, &vec![], &registry) {
        Err(InstantiationError::InvalidNumericLiteral { text }) => {
            assert_eq!(text, "12.5");
        }
        other => panic!("expected an invalid-literal error, got {:?}", other),
    }
}

#[test]
fn duplicate_registrations_are_reported() {
    let mut registry = Registry::new();
    registry
        .register("gte_primitive".to_owned(), InstructionKind::GtePrimitive)
        .expect("first registration is fresh");
    match registry.register("gte_primitive".to_owned(), InstructionKind::FieldRef) {
        Err(RegistrationError::DuplicateName { name }) => {
            assert_eq!(name, "gte_primitive");
        }
        Ok(()) => panic!("a duplicate registration must be detected"),
    }
    // the original registration is untouched
    assert_eq!(
        registry.lookup("gte_primitive"),
        Some(InstructionKind::GtePrimitive)
    );
    assert_eq!(registry.lookup("field_ref"), None);
}

#[test]
fn metrics_carry_their_declaration() {
    let gauge: Gauge<u64> = Gauge::new("active_batches", 7);
    match gauge.registration() {
        Registration::Metric { metric_id, label, kind } => {
            assert_eq!(metric_id, 7);
            assert_eq!(label, "active_batches");
            assert_eq!(kind, MetricKind::U64Gauge);
        }
    }
    let counter: Counter<i64> = Counter::new("rows_out", 9);
    let value = counter.value(31);
    assert_eq!(value.metric_id, 9);
    assert_eq!(value.value, Some(MetricData::I64Value(31)));
    assert_eq!(5u64.into_metric_value(), MetricData::U64Value(5));
}
