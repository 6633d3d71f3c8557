use table_builder::framework::{extract, PgTyped, UnexpectedNull, UnwrapTo};
use table_builder::registry::{
    kind_of_name, nullable, storage_name, value_kind, FieldType, ScalarKind, Value,
};

#[test]
fn storage_names_match_registry_table() {
    assert_eq!(storage_name(ScalarKind::I16), "smallint");
    assert_eq!(storage_name(ScalarKind::I32), "integer");
    assert_eq!(storage_name(ScalarKind::I64), "bigint");
    assert_eq!(storage_name(ScalarKind::F32), "real");
    assert_eq!(storage_name(ScalarKind::F64), "double precision");
    assert_eq!(storage_name(ScalarKind::Text), "text");
    assert_eq!(storage_name(ScalarKind::Bool), "boolean");
}

#[test]
fn nullable_keeps_storage_name_and_sets_flag() {
    let kinds = [
        ScalarKind::I16,
        ScalarKind::I32,
        ScalarKind::I64,
        ScalarKind::F32,
        ScalarKind::F64,
        ScalarKind::Text,
        ScalarKind::Bool,
    ];
    for kind in kinds {
        let plain = FieldType { kind, nullable: false };
        let wrapped = nullable(plain);
        assert_eq!(storage_name(wrapped.kind), storage_name(plain.kind));
        assert!(wrapped.nullable);
    }
}

#[test]
fn nullable_never_double_wraps() {
    let kinds = [
        ScalarKind::I16,
        ScalarKind::I32,
        ScalarKind::I64,
        ScalarKind::F32,
        ScalarKind::F64,
        ScalarKind::Text,
        ScalarKind::Bool,
    ];
    for kind in kinds {
        let once = nullable(FieldType { kind, nullable: false });
        let twice = nullable(once);
        assert_eq!(twice, once);
    }
}

#[test]
fn type_names_resolve_through_registry() {
    assert_eq!(kind_of_name("i16"), Some(ScalarKind::I16));
    assert_eq!(kind_of_name("i32"), Some(ScalarKind::I32));
    assert_eq!(kind_of_name("i64"), Some(ScalarKind::I64));
    assert_eq!(kind_of_name("f32"), Some(ScalarKind::F32));
    assert_eq!(kind_of_name("f64"), Some(ScalarKind::F64));
    assert_eq!(kind_of_name("String"), Some(ScalarKind::Text));
    assert_eq!(kind_of_name("bool"), Some(ScalarKind::Bool));
    assert_eq!(kind_of_name("u32"), None);
    assert_eq!(kind_of_name(""), None);
}

#[test]
fn value_kinds_follow_variants() {
    assert_eq!(value_kind(&Value::I16(1)), ScalarKind::I16);
    assert_eq!(value_kind(&Value::I32(1)), ScalarKind::I32);
    assert_eq!(value_kind(&Value::I64(1)), ScalarKind::I64);
    assert_eq!(value_kind(&Value::F32Bits(1.5f32.to_bits())), ScalarKind::F32);
    assert_eq!(value_kind(&Value::F64Bits(2.5f64.to_bits())), ScalarKind::F64);
    assert_eq!(value_kind(&Value::Text("x".to_string())), ScalarKind::Text);
    assert_eq!(value_kind(&Value::Bool(true)), ScalarKind::Bool);
}

#[test]
fn float_values_round_trip_through_bits() {
    let v = Value::F64Bits(3.25f64.to_bits());
    match v {
        Value::F64Bits(bits) => assert_eq!(f64::from_bits(bits), 3.25f64),
        _ => panic!("wrong variant"),
    }
}

#[test]
fn sql_type_of_host_types() {
    assert_eq!(<i16 as PgTyped>::sql_type(), "smallint");
    assert_eq!(<i32 as PgTyped>::sql_type(), "integer");
    assert_eq!(<i64 as PgTyped>::sql_type(), "bigint");
    assert_eq!(<String as PgTyped>::sql_type(), "text");
    assert_eq!(<bool as PgTyped>::sql_type(), "boolean");
}

#[test]
fn sql_type_of_optional_matches_content() {
    assert_eq!(<Option<i32> as PgTyped>::sql_type(), <i32 as PgTyped>::sql_type());
    assert_eq!(<Option<String> as PgTyped>::sql_type(), "text");
    assert_eq!(<Option<Option<i64>> as PgTyped>::sql_type(), "bigint");
}

#[test]
fn unwrap_to_demands_presence_for_content_type() {
    let present: Option<i32> = Some(41);
    let n: i32 = present.unwrap_to();
    assert_eq!(n, 41);
}

#[test]
fn unwrap_to_passes_optional_through_unchanged() {
    let present: Option<i32> = Some(7);
    let kept: Option<i32> = present.unwrap_to();
    assert_eq!(kept, Some(7));
    let absent: Option<i32> = None;
    let kept: Option<i32> = absent.unwrap_to();
    assert_eq!(kept, None);
}

#[test]
fn extract_passes_nullable_through() {
    let declared = FieldType { kind: ScalarKind::I32, nullable: true };
    assert_eq!(extract(declared, Some(Value::I32(6))), Ok(Some(Value::I32(6))));
    assert_eq!(extract(declared, None), Ok(None));
}

#[test]
fn extract_fails_on_absent_non_nullable() {
    let declared = FieldType { kind: ScalarKind::I32, nullable: false };
    assert_eq!(extract(declared, Some(Value::I32(6))), Ok(Some(Value::I32(6))));
    assert_eq!(extract(declared, None), Err(UnexpectedNull));
}
