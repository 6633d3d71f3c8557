use table_builder::query_builder::{
    decode_row, decode_rows, insert_executions, marker_types, DecodeError, Query, QueryArtifact,
    Select, Values,
};
use table_builder::registry::{FieldType, ScalarKind, Value};
use table_builder::table_builder::{Record, SchemaRegistry};
use table_builder::{query, table, CompileError};

fn kv_registry() -> SchemaRegistry {
    let mut reg = SchemaRegistry::new();
    let artifact = table("KeyValueTable (key: String, value: Option<i32>)").unwrap();
    reg.register(artifact.table).unwrap();
    reg
}

#[test]
fn select_statement_casts_every_projected_column() {
    let reg = kv_registry();
    let artifact = query(
        "client from: KeyValueTable select: (key, value) where: \"key <> 'foo'\"",
        &reg,
    )
    .unwrap();
    let select = match artifact {
        QueryArtifact::Select(s) => s,
        _ => panic!("expected a select artifact"),
    };
    assert_eq!(
        select.statement.as_str(),
        "SELECT key::text, value::integer FROM KeyValueTable WHERE key <> 'foo'"
    );
    assert_eq!(
        select.columns,
        vec![
            FieldType { kind: ScalarKind::Text, nullable: false },
            FieldType { kind: ScalarKind::I32, nullable: true },
        ]
    );
    assert_eq!(select.decl.spi_client.as_str(), "client");
}

#[test]
fn select_without_predicate_has_no_where() {
    let reg = kv_registry();
    let artifact = query("client from: KeyValueTable select: (value)", &reg).unwrap();
    let select = match artifact {
        QueryArtifact::Select(s) => s,
        _ => panic!("expected a select artifact"),
    };
    assert_eq!(select.statement.as_str(), "SELECT value::integer FROM KeyValueTable");
    assert_eq!(select.columns, vec![FieldType { kind: ScalarKind::I32, nullable: true }]);
}

#[test]
fn projection_order_fixes_decoded_tuple_order() {
    let reg = kv_registry();
    let artifact = query("client from: KeyValueTable select: (value, key)", &reg).unwrap();
    let select = match artifact {
        QueryArtifact::Select(s) => s,
        _ => panic!("expected a select artifact"),
    };
    assert_eq!(select.statement.as_str(), "SELECT value::integer, key::text FROM KeyValueTable");
    assert_eq!(
        select.columns,
        vec![
            FieldType { kind: ScalarKind::I32, nullable: true },
            FieldType { kind: ScalarKind::Text, nullable: false },
        ]
    );
    let row = vec![Some(Value::I32(6)), Some(Value::Text("111".to_string()))];
    let decoded = decode_row(&select.columns, row.clone()).unwrap();
    assert_eq!(decoded, row);
}

#[test]
fn duplicate_projection_is_allowed() {
    let reg = kv_registry();
    let artifact = query("client from: KeyValueTable select: (key, key)", &reg).unwrap();
    let select = match artifact {
        QueryArtifact::Select(s) => s,
        _ => panic!("expected a select artifact"),
    };
    assert_eq!(select.statement.as_str(), "SELECT key::text, key::text FROM KeyValueTable");
}

#[test]
fn insert_statement_has_one_parameter_per_field() {
    let reg = kv_registry();
    let artifact = query(
        "client insert into: KeyValueTable value: KeyValueTable { key, value }",
        &reg,
    )
    .unwrap();
    let insert = match artifact {
        QueryArtifact::Insert(i) => i,
        _ => panic!("expected an insert artifact"),
    };
    assert_eq!(insert.statement.as_str(), "INSERT INTO KeyValueTable VALUES ($1, $2)");
    assert_eq!(insert.n_params, 2);
    match &insert.decl.values {
        Values::Single(expr) => assert_eq!(expr.as_str(), "KeyValueTable { key, value }"),
        _ => panic!("expected the single-record form"),
    }
}

#[test]
fn insert_parameters_grow_with_field_count() {
    let mut reg = SchemaRegistry::new();
    let artifact = table("Wide (a: i16, b: i32, c: i64, d: bool, e: String)").unwrap();
    reg.register(artifact.table).unwrap();
    let artifact = query("client insert into: Wide values: rows.iter()", &reg).unwrap();
    let insert = match artifact {
        QueryArtifact::Insert(i) => i,
        _ => panic!("expected an insert artifact"),
    };
    assert_eq!(insert.statement.as_str(), "INSERT INTO Wide VALUES ($1, $2, $3, $4, $5)");
    match &insert.decl.values {
        Values::Multiple(expr) => assert_eq!(expr.as_str(), "rows.iter()"),
        _ => panic!("expected the multiple-records form"),
    }
}

#[test]
fn inserting_zero_records_executes_zero_statements() {
    let mut reg = SchemaRegistry::new();
    let schema = table("KeyValueTable (key: String, value: Option<i32>)").unwrap();
    reg.register(schema.table).unwrap();
    let artifact = query("client insert into: KeyValueTable values: empty_rows()", &reg).unwrap();
    let insert = match artifact {
        QueryArtifact::Insert(i) => i,
        _ => panic!("expected an insert artifact"),
    };
    let table_artifact = table("KeyValueTable (key: String, value: Option<i32>)").unwrap();
    let executions = insert_executions(&insert, &table_artifact.table, &vec![]);
    assert_eq!(executions.len(), 0);
}

#[test]
fn insert_multiple_executes_once_per_record_in_order() {
    let mut reg = SchemaRegistry::new();
    let schema = table("KeyValueTable (key: String, value: Option<i32>)").unwrap();
    let kv_table = table("KeyValueTable (key: String, value: Option<i32>)").unwrap().table;
    reg.register(schema.table).unwrap();
    let artifact = query("client insert into: KeyValueTable values: rows", &reg).unwrap();
    let insert = match artifact {
        QueryArtifact::Insert(i) => i,
        _ => panic!("expected an insert artifact"),
    };
    let records = vec![
        Record { values: vec![Some(Value::Text("a".to_string())), Some(Value::I32(1))] },
        Record { values: vec![Some(Value::Text("b".to_string())), None] },
        Record { values: vec![Some(Value::Text("c".to_string())), Some(Value::I32(3))] },
    ];
    let executions = insert_executions(&insert, &kv_table, &records);
    assert_eq!(executions.len(), 3);
    for (i, (statement, params)) in executions.iter().enumerate() {
        assert_eq!(statement.as_str(), "INSERT INTO KeyValueTable VALUES ($1, $2)");
        assert_eq!(params.len(), 2);
        assert_eq!(params[0].0, ScalarKind::Text);
        assert_eq!(params[1].0, ScalarKind::I32);
        assert_eq!(params[0].1, records[i].values[0]);
        assert_eq!(params[1].1, records[i].values[1]);
    }
}

#[test]
fn round_trip_returns_inserted_values() {
    let reg = kv_registry();
    let kv_table = table("KeyValueTable (key: String, value: Option<i32>)").unwrap().table;
    let record = Record { values: vec![Some(Value::Text("111".to_string())), Some(Value::I32(6))] };
    let pairs = record.to_values_vec(&kv_table);
    let stored_row: Vec<Option<Value>> = pairs.into_iter().map(|(_, v)| v).collect();

    let artifact = query(
        "client from: KeyValueTable select: (key, value) where: \"key <> 'foo'\"",
        &reg,
    )
    .unwrap();
    let select = match artifact {
        QueryArtifact::Select(s) => s,
        _ => panic!("expected a select artifact"),
    };
    let decoded = decode_row(&select.columns, stored_row).unwrap();
    assert_eq!(decoded, vec![Some(Value::Text("111".to_string())), Some(Value::I32(6))]);
    assert_eq!(decoded, record.values);
}

#[test]
fn absent_value_in_non_nullable_column_fails_fatally() {
    let reg = kv_registry();
    let artifact = query("client from: KeyValueTable select: (key, value)", &reg).unwrap();
    let select = match artifact {
        QueryArtifact::Select(s) => s,
        _ => panic!("expected a select artifact"),
    };
    let row = vec![None, Some(Value::I32(6))];
    assert_eq!(
        decode_row(&select.columns, row),
        Err(DecodeError::UnexpectedNull { column: 0 })
    );
    let rows = vec![
        vec![Some(Value::Text("ok".to_string())), None],
        vec![None, None],
    ];
    assert_eq!(
        decode_rows(&select.columns, &rows),
        Err(DecodeError::UnexpectedNull { column: 0 })
    );
}

#[test]
fn value_of_wrong_kind_fails_fatally() {
    let reg = kv_registry();
    let artifact = query("client from: KeyValueTable select: (key, value)", &reg).unwrap();
    let select = match artifact {
        QueryArtifact::Select(s) => s,
        _ => panic!("expected a select artifact"),
    };
    let row = vec![Some(Value::Text("k".to_string())), Some(Value::I64(6))];
    assert_eq!(
        decode_row(&select.columns, row),
        Err(DecodeError::KindMismatch { column: 1 })
    );
}

#[test]
fn decode_rows_returns_every_fitting_row_in_order() {
    let columns = vec![
        FieldType { kind: ScalarKind::Text, nullable: false },
        FieldType { kind: ScalarKind::I32, nullable: true },
    ];
    let rows = vec![
        vec![Some(Value::Text("a".to_string())), Some(Value::I32(1))],
        vec![Some(Value::Text("b".to_string())), None],
    ];
    let decoded = decode_rows(&columns, &rows).unwrap();
    assert_eq!(decoded, rows);
}

#[test]
fn query_must_begin_with_from_or_insert() {
    let reg = kv_registry();
    let err = query("client update: KeyValueTable", &reg).unwrap_err();
    assert_eq!(err, CompileError::ExpectedQueryStart { found: "update".to_string() });
}

#[test]
fn select_marker_is_mandatory() {
    let reg = kv_registry();
    let err = query("client from: KeyValueTable project: (key)", &reg).unwrap_err();
    assert_eq!(
        err,
        CompileError::ExpectedMarker { expected: "select", found: "project".to_string() }
    );
}

#[test]
fn insert_into_marker_is_mandatory() {
    let reg = kv_registry();
    let err = query("client insert in: KeyValueTable value: x", &reg).unwrap_err();
    assert_eq!(err, CompileError::ExpectedMarker { expected: "into", found: "in".to_string() });
}

#[test]
fn value_marker_must_be_value_or_values() {
    let reg = kv_registry();
    let err = query("client insert into: KeyValueTable record: x", &reg).unwrap_err();
    assert_eq!(err, CompileError::ExpectedValuesMarker { found: "record".to_string() });
}

#[test]
fn unknown_table_is_fatal() {
    let reg = kv_registry();
    let err = query("client from: Missing select: (key)", &reg).unwrap_err();
    assert_eq!(err, CompileError::UnknownTable { name: "Missing".to_string() });
    let err = query("client insert into: Missing value: x", &reg).unwrap_err();
    assert_eq!(err, CompileError::UnknownTable { name: "Missing".to_string() });
}

#[test]
fn unknown_projected_field_is_fatal() {
    let reg = kv_registry();
    let err = query("client from: KeyValueTable select: (key, missing)", &reg).unwrap_err();
    assert_eq!(
        err,
        CompileError::UnknownField {
            table: "KeyValueTable".to_string(),
            name: "missing".to_string(),
        }
    );
}

#[test]
fn marker_types_pair_declared_with_nullable_wrapped() {
    let kv_table = table("KeyValueTable (key: String, value: Option<i32>)").unwrap().table;
    let (declared, wrapped) = marker_types(&kv_table, "key").unwrap();
    assert_eq!(declared, FieldType { kind: ScalarKind::Text, nullable: false });
    assert_eq!(wrapped, FieldType { kind: ScalarKind::Text, nullable: true });
    let (declared, wrapped) = marker_types(&kv_table, "value").unwrap();
    assert_eq!(declared, FieldType { kind: ScalarKind::I32, nullable: true });
    assert_eq!(wrapped, declared);
    assert!(marker_types(&kv_table, "missing").is_none());
}

#[test]
fn select_parse_standalone_requires_from_marker() {
    let sel = Select::parse("client from: KeyValueTable select: (key)").unwrap();
    assert_eq!(sel.spi_client.as_str(), "client");
    assert_eq!(sel.table.as_str(), "KeyValueTable");
    let err = Select::parse("client of: KeyValueTable select: (key)").unwrap_err();
    assert_eq!(err, CompileError::ExpectedMarker { expected: "from", found: "of".to_string() });
}

#[test]
fn unterminated_predicate_literal_is_fatal() {
    let reg = kv_registry();
    let r = query("client from: KeyValueTable select: (key) where: \"key <> 'foo'", &reg);
    assert!(matches!(r, Err(CompileError::Syntax { .. })));
}

#[test]
fn predicate_literal_unescapes_quotes_and_backslashes() {
    let reg = kv_registry();
    let artifact = query(
        "client from: KeyValueTable select: (key) where: \"name = \\\"x\\\"\"",
        &reg,
    )
    .unwrap();
    let select = match artifact {
        QueryArtifact::Select(s) => s,
        _ => panic!("expected a select artifact"),
    };
    assert_eq!(select.decl.where_clause.as_deref(), Some("name = \"x\""));
    assert_eq!(
        select.statement.as_str(),
        "SELECT key::text FROM KeyValueTable WHERE name = \"x\""
    );

    let artifact = query("client from: KeyValueTable select: (key) where: \"a \\\\ b\"", &reg)
        .unwrap();
    let select = match artifact {
        QueryArtifact::Select(s) => s,
        _ => panic!("expected a select artifact"),
    };
    assert_eq!(select.decl.where_clause.as_deref(), Some("a \\ b"));
}

#[test]
fn unknown_escape_in_predicate_is_fatal() {
    let reg = kv_registry();
    let r = query("client from: KeyValueTable select: (key) where: \"a \\n b\"", &reg);
    assert!(matches!(r, Err(CompileError::Syntax { .. })));
}

#[test]
fn trailing_text_after_select_is_fatal() {
    let reg = kv_registry();
    let r = query(
        "client from: KeyValueTable select: (key) where: \"x\" extra",
        &reg,
    );
    assert!(matches!(r, Err(CompileError::Syntax { .. })));
}

#[test]
fn empty_insert_expression_is_fatal() {
    let reg = kv_registry();
    let r = query("client insert into: KeyValueTable value:   ", &reg);
    assert!(matches!(r, Err(CompileError::Syntax { .. })));
}

#[test]
fn insert_expression_is_trimmed_not_rewritten() {
    let reg = kv_registry();
    let artifact = query(
        "client insert into: KeyValueTable values:  rows.iter().map(|r| convert(r))  \n",
        &reg,
    )
    .unwrap();
    let insert = match artifact {
        QueryArtifact::Insert(i) => i,
        _ => panic!("expected an insert artifact"),
    };
    match &insert.decl.values {
        Values::Multiple(expr) => assert_eq!(expr.as_str(), "rows.iter().map(|r| convert(r))"),
        _ => panic!("expected the multiple-records form"),
    }
}

#[test]
fn query_parse_keeps_declaration_shape() {
    let parsed = Query::parse("client from: KeyValueTable select: (key, value)").unwrap();
    match parsed {
        Query::Select(s) => {
            assert_eq!(s.spi_client.as_str(), "client");
            assert_eq!(s.table.as_str(), "KeyValueTable");
            assert_eq!(s.fields.len(), 2);
            assert_eq!(s.fields[0].as_str(), "key");
            assert_eq!(s.fields[1].as_str(), "value");
            assert!(s.where_clause.is_none());
        },
        _ => panic!("expected a select declaration"),
    }
}
