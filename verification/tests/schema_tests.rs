use table_builder::registry::{FieldType, ScalarKind, Value};
use table_builder::table_builder::{Record, SchemaRegistry, Table};
use table_builder::{table, CompileError};

#[test]
fn example_table_data_definition() {
    let artifact = table(
        "ExampleTable (
            foo: i32,
            bar: i64,
            baz: String,
            avg: f64,
            optional: Option<f32>,
        )",
    )
    .unwrap();
    assert_eq!(
        artifact.create_sql.as_str(),
        "CREATE TABLE ExampleTable (\n    foo integer NOT NULL,\n    bar bigint NOT NULL,\n    baz text NOT NULL,\n    avg double precision NOT NULL,\n    optional real\n);\n"
    );
    assert_eq!(artifact.registration_name.as_str(), "__CREATE_TABLE_ExampleTable");
    assert!(artifact.insert_fn.is_none());
    assert_eq!(artifact.table.fields.len(), 5);
    assert_eq!(artifact.table.fields[4].ty, FieldType { kind: ScalarKind::F32, nullable: true });
}

#[test]
fn seed_block_emits_one_shot_seeding_statements() {
    let artifact = table(
        "InsertExample (
            foo: i32,
            avg: Option<f32>,
        )
        insert: { (0..3).map(|i| (i, Some(i as f32))) }",
    )
    .unwrap();
    assert_eq!(
        artifact.create_sql.as_str(),
        "CREATE TABLE InsertExample (\n    foo integer NOT NULL,\n    avg real\n);\nINSERT INTO InsertExample SELECT * FROM \"__table_builder_insert_InsertExample\"();\nDROP FUNCTION \"__table_builder_insert_InsertExample\";\n"
    );
    let seed = artifact.insert_fn.unwrap();
    assert_eq!(seed.name.as_str(), "__table_builder_insert_InsertExample");
    assert_eq!(seed.body.as_str(), " (0..3).map(|i| (i, Some(i as f32))) ");
}

#[test]
fn seeding_function_is_invoked_once_then_dropped() {
    let artifact = table("KV (key: String, value: Option<i32>) insert: { seed_rows() }").unwrap();
    let sql = artifact.create_sql.as_str();
    let seed = artifact.insert_fn.unwrap();
    let invoke = format!("INSERT INTO KV SELECT * FROM \"{}\"();\n", seed.name.as_str());
    let drop_stmt = format!("DROP FUNCTION \"{}\";\n", seed.name.as_str());
    assert_eq!(sql.matches(&invoke).count(), 1);
    assert_eq!(sql.matches(&drop_stmt).count(), 1);
    assert!(sql.find(&invoke).unwrap() < sql.find(&drop_stmt).unwrap());
    assert!(sql.ends_with(&drop_stmt));
}

#[test]
fn requires_block_is_parsed_but_unconsumed() {
    let artifact = table("Child (a: i32) requires: [Parent, Other]").unwrap();
    let deps = artifact.table.requires_tables.unwrap();
    assert_eq!(deps.len(), 2);
    assert_eq!(deps[0].as_str(), "Parent");
    assert_eq!(deps[1].as_str(), "Other");
    assert_eq!(
        artifact.create_sql.as_str(),
        "CREATE TABLE Child (\n    a integer NOT NULL\n);\n"
    );
}

#[test]
fn nullable_of_nullable_normalizes_in_declarations() {
    let artifact = table("T (a: Option<Option<i32>>, b: Option<i32>)").unwrap();
    assert_eq!(artifact.table.fields[0].ty, artifact.table.fields[1].ty);
    assert_eq!(
        artifact.create_sql.as_str(),
        "CREATE TABLE T (\n    a integer,\n    b integer\n);\n"
    );
}

#[test]
fn path_qualified_type_resolves_by_last_segment() {
    let artifact = table("T (a: std::string::String)").unwrap();
    assert_eq!(artifact.table.fields[0].ty, FieldType { kind: ScalarKind::Text, nullable: false });
}

#[test]
fn unknown_type_is_fatal() {
    let err = table("T (a: u32)").unwrap_err();
    assert_eq!(err, CompileError::UnknownType { name: "u32".to_string() });
}

#[test]
fn empty_field_list_is_fatal() {
    let err = table("T ()").unwrap_err();
    assert_eq!(err, CompileError::NoFields);
}

#[test]
fn duplicate_field_name_is_fatal() {
    let err = table("T (a: i32, b: i64, a: String)").unwrap_err();
    assert_eq!(err, CompileError::DuplicateField { name: "a".to_string() });
}

#[test]
fn duplicate_block_is_fatal() {
    let err = table("T (a: i32) insert: { x() } insert: { y() }").unwrap_err();
    assert_eq!(err, CompileError::DuplicateBlock { name: "insert".to_string() });
    let err = table("T (a: i32) requires: [A] requires: [B]").unwrap_err();
    assert_eq!(err, CompileError::DuplicateBlock { name: "requires".to_string() });
}

#[test]
fn unrecognized_block_is_fatal() {
    let err = table("T (a: i32) seed: { x() }").unwrap_err();
    assert_eq!(err, CompileError::UnrecognizedBlock { found: "seed".to_string() });
}

#[test]
fn malformed_field_syntax_is_fatal() {
    assert!(matches!(table("T (a i32)"), Err(CompileError::Syntax { .. })));
    assert!(matches!(table("T (a: )"), Err(CompileError::Syntax { .. })));
    assert!(matches!(table("T (a: Option<i32)"), Err(CompileError::Syntax { .. })));
    assert!(matches!(table("(a: i32)"), Err(CompileError::Syntax { .. })));
    assert!(matches!(table("T (a: i32"), Err(CompileError::Syntax { .. })));
}

#[test]
fn trailing_commas_are_allowed() {
    let artifact = table("T (a: i32,) requires: [A, B,]").unwrap();
    assert_eq!(artifact.table.fields.len(), 1);
    assert_eq!(artifact.table.requires_tables.unwrap().len(), 2);
}

#[test]
fn unterminated_seed_block_is_fatal() {
    let r = table("T (a: i32) insert: { (0..3).map(|i| (i,))");
    assert!(matches!(r, Err(CompileError::Syntax { .. })));
}

#[test]
fn seed_block_keeps_nested_braces_balanced() {
    let artifact = table("T (a: i32) insert: { build { inner: 1 } }").unwrap();
    assert_eq!(artifact.insert_fn.unwrap().body.as_str(), " build { inner: 1 } ");
}

#[test]
fn extraction_accessor_returns_all_fields_in_declared_order() {
    let artifact = table("Wide (p: i16, q: i64, r: bool, s: String)").unwrap();
    let record = Record {
        values: vec![
            Some(Value::I16(1)),
            Some(Value::I64(2)),
            Some(Value::Bool(false)),
            Some(Value::Text("x".to_string())),
        ],
    };
    let pairs = record.to_values_vec(&artifact.table);
    assert_eq!(pairs.len(), 4);
    assert_eq!(pairs[0], (ScalarKind::I16, Some(Value::I16(1))));
    assert_eq!(pairs[1], (ScalarKind::I64, Some(Value::I64(2))));
    assert_eq!(pairs[2], (ScalarKind::Bool, Some(Value::Bool(false))));
    assert_eq!(pairs[3], (ScalarKind::Text, Some(Value::Text("x".to_string()))));
}

#[test]
fn extraction_accessor_tags_by_declared_type_not_value() {
    let artifact = table("KV (key: String, value: Option<i32>)").unwrap();
    let record = Record { values: vec![Some(Value::Text("k".to_string())), None] };
    let pairs = record.to_values_vec(&artifact.table);
    assert_eq!(pairs.len(), 2);
    assert_eq!(pairs[0], (ScalarKind::Text, Some(Value::Text("k".to_string()))));
    assert_eq!(pairs[1], (ScalarKind::I32, None));
}

#[test]
fn registry_rejects_duplicate_table_names() {
    let mut reg = SchemaRegistry::new();
    let first = table("KV (key: String, value: Option<i32>)").unwrap();
    let second = table("KV (other: i64)").unwrap();
    assert_eq!(reg.register(first.table), Ok(()));
    let err = reg.register(second.table).unwrap_err();
    assert_eq!(err, CompileError::DuplicateTable { name: "KV".to_string() });
    assert_eq!(reg.tables.len(), 1);
}

#[test]
fn registry_lookup_finds_registered_tables() {
    let mut reg = SchemaRegistry::new();
    let artifact = table("KV (key: String, value: Option<i32>)").unwrap();
    reg.register(artifact.table).unwrap();
    let found: &Table = reg.lookup("KV").unwrap();
    assert_eq!(found.fields.len(), 2);
    assert_eq!(found.fields[0].name.as_str(), "key");
    assert!(reg.lookup("Missing").is_none());
}
