//! The scalar type registry: the fixed mapping from primitive value kinds to
//! their storage-type names, the nullable wrapper, and the dynamic value
//! model used when records cross the statement-parameter boundary.

use vstd::prelude::*;
use crate::scan::str_eq;

verus! {

/// One of the primitive value categories the registry understands.
///
/// The two floating-point kinds are carried by name only; a value of such a
/// kind is held as its raw bit pattern (see [`Value`]), since the compilers
/// never do arithmetic on field values, they only move them around.
#[derive(Clone, Copy, PartialEq, Eq, Structural, Debug)]
pub enum ScalarKind {
    I16,
    I32,
    I64,
    F32,
    F64,
    Text,
    Bool,
}

/// A field's declared type: a scalar kind plus a nullability flag.
///
/// Nullability is a flag beside the kind rather than a different kind, so
/// wrapping is idempotent by construction and the storage name never changes
/// under wrapping.
#[derive(Clone, Copy, PartialEq, Eq, Structural, Debug)]
pub struct FieldType {
    pub kind: ScalarKind,
    pub nullable: bool,
}

/// The storage-type name of each scalar kind.
///
/// This table is the single source of truth for both the data-definition
/// generator and the per-column cast generator used by select statements.
pub open spec fn spec_storage_name(k: ScalarKind) -> Seq<char> {
    match k {
        ScalarKind::I16 => "smallint"@,
        ScalarKind::I32 => "integer"@,
        ScalarKind::I64 => "bigint"@,
        ScalarKind::F32 => "real"@,
        ScalarKind::F64 => "double precision"@,
        ScalarKind::Text => "text"@,
        ScalarKind::Bool => "boolean"@,
    }
}

/// Returns the storage-type name of `k` as a constant string.
pub fn storage_name(k: ScalarKind) -> (r: &'static str)
    ensures
        r@ == spec_storage_name(k),
{
    match k {
        ScalarKind::I16 => "smallint",
        ScalarKind::I32 => "integer",
        ScalarKind::I64 => "bigint",
        ScalarKind::F32 => "real",
        ScalarKind::F64 => "double precision",
        ScalarKind::Text => "text",
        ScalarKind::Bool => "boolean",
    }
}

/// A non-nullable type of kind `k`.
pub open spec fn spec_declared(k: ScalarKind) -> FieldType {
    FieldType { kind: k, nullable: false }
}

/// The nullable wrapper: the same kind, marked nullable.
pub open spec fn spec_nullable(t: FieldType) -> FieldType {
    FieldType { kind: t.kind, nullable: true }
}

/// Wraps `t` in the nullable modifier (idempotent).
pub fn nullable(t: FieldType) -> (r: FieldType)
    ensures
        r == spec_nullable(t),
{
    FieldType { kind: t.kind, nullable: true }
}

/// Law: wrapping a type nullable keeps its storage name unchanged and sets
/// the nullability flag; in particular this holds for every scalar kind in
/// the registry.
pub proof fn lemma_nullable_keeps_storage_name(t: FieldType)
    ensures
        spec_storage_name(spec_nullable(t).kind) == spec_storage_name(t.kind),
        spec_nullable(t).nullable,
{
}

/// Law: the nullable wrapper never double-wraps; a second application is the
/// identity.
pub proof fn lemma_nullable_idempotent(t: FieldType)
    ensures
        spec_nullable(spec_nullable(t)) == spec_nullable(t),
{
}

/// Resolves a declared type name through the registry.
///
/// These are the source-level spellings of the scalar kinds; anything else is
/// an unknown kind and resolves to `None` (a fatal diagnostic at the caller).
pub open spec fn spec_kind_of_name(name: Seq<char>) -> Option<ScalarKind> {
    if name == "i16"@ {
        Some(ScalarKind::I16)
    } else if name == "i32"@ {
        Some(ScalarKind::I32)
    } else if name == "i64"@ {
        Some(ScalarKind::I64)
    } else if name == "f32"@ {
        Some(ScalarKind::F32)
    } else if name == "f64"@ {
        Some(ScalarKind::F64)
    } else if name == "String"@ {
        Some(ScalarKind::Text)
    } else if name == "bool"@ {
        Some(ScalarKind::Bool)
    } else {
        None
    }
}

/// Looks a type name up in the registry.
pub fn kind_of_name(name: &str) -> (r: Option<ScalarKind>)
    ensures
        r == spec_kind_of_name(name@),
{
    if str_eq(name, "i16") {
        Some(ScalarKind::I16)
    } else if str_eq(name, "i32") {
        Some(ScalarKind::I32)
    } else if str_eq(name, "i64") {
        Some(ScalarKind::I64)
    } else if str_eq(name, "f32") {
        Some(ScalarKind::F32)
    } else if str_eq(name, "f64") {
        Some(ScalarKind::F64)
    } else if str_eq(name, "String") {
        Some(ScalarKind::Text)
    } else if str_eq(name, "bool") {
        Some(ScalarKind::Bool)
    } else {
        None
    }
}

/// A dynamic value of one of the registry's kinds, as it crosses the
/// statement-parameter boundary.
///
/// Floating-point values are carried as their raw bit patterns: the compilers
/// and the runtime layer only move values, they never compute with them, so
/// the bits are a faithful stand-in.
#[derive(PartialEq, Debug)]
pub enum Value {
    I16(i16),
    I32(i32),
    I64(i64),
    F32Bits(u32),
    F64Bits(u64),
    Text(String),
    Bool(bool),
}

impl Clone for Value {
    fn clone(&self) -> (r: Self)
        ensures
            r == *self,
    {
        match self {
            Value::I16(x) => Value::I16(*x),
            Value::I32(x) => Value::I32(*x),
            Value::I64(x) => Value::I64(*x),
            Value::F32Bits(x) => Value::F32Bits(*x),
            Value::F64Bits(x) => Value::F64Bits(*x),
            Value::Text(s) => Value::Text(s.clone()),
            Value::Bool(x) => Value::Bool(*x),
        }
    }
}

/// Copies an optionally-present dynamic value.
pub fn clone_cell(v: &Option<Value>) -> (r: Option<Value>)
    ensures
        r == *v,
{
    match v {
        None => None,
        Some(x) => Some(x.clone()),
    }
}

/// The scalar kind a dynamic value belongs to.
pub open spec fn spec_value_kind(v: Value) -> ScalarKind {
    match v {
        Value::I16(_) => ScalarKind::I16,
        Value::I32(_) => ScalarKind::I32,
        Value::I64(_) => ScalarKind::I64,
        Value::F32Bits(_) => ScalarKind::F32,
        Value::F64Bits(_) => ScalarKind::F64,
        Value::Text(_) => ScalarKind::Text,
        Value::Bool(_) => ScalarKind::Bool,
    }
}

/// Returns the scalar kind a dynamic value belongs to.
pub fn value_kind(v: &Value) -> (k: ScalarKind)
    ensures
        k == spec_value_kind(*v),
{
    match v {
        Value::I16(_) => ScalarKind::I16,
        Value::I32(_) => ScalarKind::I32,
        Value::I64(_) => ScalarKind::I64,
        Value::F32Bits(_) => ScalarKind::F32,
        Value::F64Bits(_) => ScalarKind::F64,
        Value::Text(_) => ScalarKind::Text,
        Value::Bool(_) => ScalarKind::Bool,
    }
}

/// Whether an optionally-present dynamic value fits a declared field type:
/// a present value must belong to the declared kind, and an absent one is
/// accepted only where the declared type is nullable.
pub open spec fn spec_cell_ok(declared: FieldType, v: Option<Value>) -> bool {
    match v {
        Some(x) => spec_value_kind(x) == declared.kind,
        None => declared.nullable,
    }
}

} // verus!
