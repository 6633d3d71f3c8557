//! The runtime contract layer: the marker capability for generated record
//! types, the storage-type name of a host-language type, and the extraction
//! contract that enforces nullability when a decoded value crosses back into
//! typed code.

use vstd::prelude::*;
use crate::registry::{FieldType, ScalarKind, Value, spec_storage_name};

verus! {

/// Marker capability: certifies that a record type was produced by the
/// schema compiler, so the query compiler may trust that its layout and its
/// value-extraction accessor exist without re-validating them.
pub trait PgTable {}

/// The storage-type equivalent of a host-language type.
///
/// A nullable wrapper maps to the same storage name as its content;
/// nullability is expressed separately, never as a different name.
pub trait PgTyped {
    spec fn spec_sql_type() -> Seq<char>;

    fn sql_type() -> (r: &'static str)
        ensures
            r@ == Self::spec_sql_type(),
    ;
}

impl PgTyped for i16 {
    open spec fn spec_sql_type() -> Seq<char> {
        spec_storage_name(ScalarKind::I16)
    }

    fn sql_type() -> (r: &'static str) {
        "smallint"
    }
}

impl PgTyped for i32 {
    open spec fn spec_sql_type() -> Seq<char> {
        spec_storage_name(ScalarKind::I32)
    }

    fn sql_type() -> (r: &'static str) {
        "integer"
    }
}

impl PgTyped for i64 {
    open spec fn spec_sql_type() -> Seq<char> {
        spec_storage_name(ScalarKind::I64)
    }

    fn sql_type() -> (r: &'static str) {
        "bigint"
    }
}

impl PgTyped for String {
    open spec fn spec_sql_type() -> Seq<char> {
        spec_storage_name(ScalarKind::Text)
    }

    fn sql_type() -> (r: &'static str) {
        "text"
    }
}

impl PgTyped for bool {
    open spec fn spec_sql_type() -> Seq<char> {
        spec_storage_name(ScalarKind::Bool)
    }

    fn sql_type() -> (r: &'static str) {
        "boolean"
    }
}

/// An optional value maps to the storage name of its content, unchanged.
impl<T: PgTyped> PgTyped for Option<T> {
    open spec fn spec_sql_type() -> Seq<char> {
        T::spec_sql_type()
    }

    fn sql_type() -> (r: &'static str) {
        T::sql_type()
    }
}

/// The statically-typed face of the extraction contract: produce a `T` from
/// an optionally-present value.
///
/// The instance where `T` is the content type demands presence; the instance
/// where `T` is itself optional passes the value through unchanged.
pub trait UnwrapTo<T>: Sized {
    spec fn spec_unwrap_ok(&self) -> bool;

    spec fn spec_unwrapped(&self) -> T;

    fn unwrap_to(self) -> (r: T)
        requires
            self.spec_unwrap_ok(),
        ensures
            r == self.spec_unwrapped(),
    ;
}

/// Demanding extraction: the value must be present. An absent value here is
/// the fatal "unexpected absent value" condition, which callers rule out or
/// surface as a decoding error before reaching this point.
impl<T> UnwrapTo<T> for Option<T> {
    open spec fn spec_unwrap_ok(&self) -> bool {
        self.is_some()
    }

    open spec fn spec_unwrapped(&self) -> T {
        self.unwrap()
    }

    fn unwrap_to(self) -> (r: T) {
        self.unwrap()
    }
}

/// Pass-through extraction: the declared type is itself optional, so the
/// value is returned unchanged, absent or not.
impl<T> UnwrapTo<Option<T>> for Option<T> {
    open spec fn spec_unwrap_ok(&self) -> bool {
        true
    }

    open spec fn spec_unwrapped(&self) -> Option<T> {
        *self
    }

    fn unwrap_to(self) -> (r: Option<T>) {
        self
    }
}

/// The failure of the extraction contract: a value was absent where the
/// declared type forbids absence.
#[derive(Clone, Copy, PartialEq, Eq, Structural, Debug)]
pub struct UnexpectedNull;

/// Whether an optionally-present dynamic value satisfies the extraction
/// contract for the declared type `declared`.
pub open spec fn spec_extract_ok(declared: FieldType, v: Option<Value>) -> bool {
    declared.nullable || v is Some
}

/// The extraction contract over dynamic values: if `declared` is nullable
/// the value passes through unchanged, absent or not; otherwise the value
/// must be present, and an absent value is a fatal decoding failure.
pub fn extract(declared: FieldType, v: Option<Value>) -> (r: Result<Option<Value>, UnexpectedNull>)
    ensures
        spec_extract_ok(declared, v) ==> r == Ok::<Option<Value>, UnexpectedNull>(v),
        !spec_extract_ok(declared, v) ==> r == Err::<Option<Value>, UnexpectedNull>(UnexpectedNull),
{
    if declared.nullable {
        Ok(v)
    } else {
        match v {
            Some(x) => Ok(Some(x)),
            None => Err(UnexpectedNull),
        }
    }
}

} // verus!
