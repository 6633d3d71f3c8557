//! A miniature schema and query compiler for a relational store.
//!
//! A table declaration (`Name (field: type, ...)` with optional seed and
//! dependency blocks) is compiled into a schema model, the data-definition
//! text that creates the matching relation, and a value-extraction plan.
//! A query declaration (`client from: ... select: (...)` or
//! `client insert into: ... value:/values: ...`) is compiled into a
//! parameterized statement plus the decoding plan for result rows.
//! A small runtime layer enforces the nullability contract when decoded
//! values cross back into typed code.

use vstd::prelude::*;

pub mod framework;
pub mod query_builder;
pub mod registry;
pub mod scan;
pub mod table_builder;

verus! {

/// A fatal compile-time diagnostic. No error here is recoverable: each one
/// aborts code generation for the declaration that raised it.
#[derive(PartialEq, Debug)]
pub enum CompileError {
    /// Malformed declaration grammar; `at` is the character offset at which
    /// parsing failed.
    Syntax { at: usize },
    /// A declared type name that does not resolve through the registry.
    UnknownType { name: String },
    /// A table declaration with no fields.
    NoFields,
    /// Two fields of one table share a name.
    DuplicateField { name: String },
    /// A named block appeared more than once in a table declaration.
    DuplicateBlock { name: String },
    /// A named block in a table declaration that is neither the seed block
    /// nor the dependency list.
    UnrecognizedBlock { found: String },
    /// A marker other than the expected one at a fixed grammar position.
    ExpectedMarker { expected: &'static str, found: String },
    /// A query declaration that begins with neither `from` nor `insert`.
    ExpectedQueryStart { found: String },
    /// An insert declaration whose value marker is neither `value` nor
    /// `values`.
    ExpectedValuesMarker { found: String },
    /// A query against a table that was never declared.
    UnknownTable { name: String },
    /// A projected field that does not exist in the referenced table.
    UnknownField { table: String, name: String },
    /// A second table declaration under an already-registered name.
    DuplicateTable { name: String },
}

/// The mathematical model of a compile-time diagnostic.
pub enum SpecCompileError {
    Syntax { at: int },
    UnknownType { name: Seq<char> },
    NoFields,
    DuplicateField { name: Seq<char> },
    DuplicateBlock { name: Seq<char> },
    UnrecognizedBlock { found: Seq<char> },
    ExpectedMarker { expected: Seq<char>, found: Seq<char> },
    ExpectedQueryStart { found: Seq<char> },
    ExpectedValuesMarker { found: Seq<char> },
    UnknownTable { name: Seq<char> },
    UnknownField { table: Seq<char>, name: Seq<char> },
    DuplicateTable { name: Seq<char> },
}

impl View for CompileError {
    type V = SpecCompileError;

    open spec fn view(&self) -> SpecCompileError {
        match self {
            CompileError::Syntax { at } => SpecCompileError::Syntax { at: *at as int },
            CompileError::UnknownType { name } => SpecCompileError::UnknownType { name: name@ },
            CompileError::NoFields => SpecCompileError::NoFields,
            CompileError::DuplicateField { name } => SpecCompileError::DuplicateField {
                name: name@,
            },
            CompileError::DuplicateBlock { name } => SpecCompileError::DuplicateBlock {
                name: name@,
            },
            CompileError::UnrecognizedBlock { found } => SpecCompileError::UnrecognizedBlock {
                found: found@,
            },
            CompileError::ExpectedMarker { expected, found } => SpecCompileError::ExpectedMarker {
                expected: expected@,
                found: found@,
            },
            CompileError::ExpectedQueryStart { found } => SpecCompileError::ExpectedQueryStart {
                found: found@,
            },
            CompileError::ExpectedValuesMarker { found } => {
                SpecCompileError::ExpectedValuesMarker { found: found@ }
            },
            CompileError::UnknownTable { name } => SpecCompileError::UnknownTable { name: name@ },
            CompileError::UnknownField { table, name } => SpecCompileError::UnknownField {
                table: table@,
                name: name@,
            },
            CompileError::DuplicateTable { name } => SpecCompileError::DuplicateTable {
                name: name@,
            },
        }
    }
}

/// Compiles one table declaration: parses it, checks the schema invariants,
/// and emits the full schema artifact. Succeeds exactly when the input reads
/// as a table declaration whose model is well-formed.
pub fn table(input: &str) -> (r: Result<table_builder::SchemaArtifact, CompileError>)
    ensures
        r is Ok <==> (table_builder::spec_parse_table(input@) matches Ok(m)
            && table_builder::spec_table_wf(m)),
        r matches Ok(a) ==> {
            &&& table_builder::spec_parse_table(input@) == Ok::<_, SpecCompileError>(a.table@)
            &&& a.table.wf()
            &&& a.wf()
        },
        match (r, table_builder::spec_parse_table(input@)) {
            (Err(e), Err(se)) => e@ == se,
            (Err(e), Ok(m)) => {
                &&& !table_builder::spec_table_wf(m)
                &&& match e {
                    CompileError::NoFields => m.fields.len() == 0,
                    CompileError::DuplicateField { name } => exists|i: int, j: int|
                        0 <= i < j < m.fields.len() && m.fields[i].name == m.fields[j].name
                            && name@ == m.fields[j].name,
                    _ => false,
                }
            },
            (Ok(_), Ok(_)) => true,
            (Ok(_), Err(_)) => false,
        },
{
    let t = match table_builder::Table::parse(input) {
        Err(e) => {
            return Err(e);
        },
        Ok(t) => t,
    };
    proof {
        table_builder::lemma_wf_view(&t);
    }
    match table_builder::validate(&t) {
        Err(e) => {
            proof {
                match &e {
                    CompileError::DuplicateField { name } => {
                        let (i, j) = choose|i: int, j: int|
                            0 <= i < j < t.fields@.len() && t.fields@[i].name@
                                == t.fields@[j].name@ && name@ == t.fields@[j].name@;
                        assert(t@.fields[i].name == t.fields@[i].name@);
                        assert(t@.fields[j].name == t.fields@[j].name@);
                        assert(0 <= i < j < t@.fields.len() && t@.fields[i].name
                            == t@.fields[j].name && name@ == t@.fields[j].name);
                    },
                    _ => {},
                }
            }
            return Err(e);
        },
        Ok(_) => {},
    }
    Ok(table_builder::expand(t))
}

/// Compiles one query declaration against the registered schemas: parses it
/// and emits the statement text with its decoding plan (select) or its
/// parameter count (insert). Succeeds exactly when the input reads as a
/// query declaration that resolves against the registered tables.
pub fn query(input: &str, reg: &table_builder::SchemaRegistry) -> (r: Result<
    query_builder::QueryArtifact,
    CompileError,
>)
    ensures
        r is Ok <==> match query_builder::spec_parse_query(input@) {
            Ok(query_builder::SpecQuery::Select(sel)) => query_builder::spec_select_resolves(
                reg.tables@,
                sel,
            ),
            Ok(query_builder::SpecQuery::Insert(ins)) => table_builder::spec_find_table(
                reg.tables@,
                ins.table,
            ) is Some,
            Err(_) => false,
        },
        match r {
            Ok(query_builder::QueryArtifact::Select(a)) => {
                &&& query_builder::spec_parse_query(input@) == Ok::<_, SpecCompileError>(
                    query_builder::SpecQuery::Select(a.decl@),
                )
                &&& a.wf(reg.tables@)
            },
            Ok(query_builder::QueryArtifact::Insert(a)) => {
                &&& query_builder::spec_parse_query(input@) == Ok::<_, SpecCompileError>(
                    query_builder::SpecQuery::Insert(a.decl@),
                )
                &&& a.wf(reg.tables@)
            },
            Err(_) => true,
        },
        match (r, query_builder::spec_parse_query(input@)) {
            (Err(e), Err(se)) => e@ == se,
            (Err(e), Ok(m)) => match m {
                query_builder::SpecQuery::Select(sel) => match e {
                    CompileError::UnknownTable { name } => name@ == sel.table
                        && table_builder::spec_find_table(reg.tables@, sel.table) is None,
                    CompileError::UnknownField { table, name } => {
                        &&& table@ == sel.table
                        &&& table_builder::spec_find_table(reg.tables@, sel.table) matches Some(
                            t,
                        ) && query_builder::spec_find_field(t.fields@, name@) is None
                        &&& exists|i: int| 0 <= i < sel.fields.len() && sel.fields[i] == name@
                    },
                    _ => false,
                },
                query_builder::SpecQuery::Insert(ins) => match e {
                    CompileError::UnknownTable { name } => name@ == ins.table
                        && table_builder::spec_find_table(reg.tables@, ins.table) is None,
                    _ => false,
                },
            },
            (Ok(_), Ok(_)) => true,
            (Ok(_), Err(_)) => false,
        },
{
    let q = match query_builder::Query::parse(input) {
        Err(e) => {
            return Err(e);
        },
        Ok(q) => q,
    };
    proof {
        match &q {
            query_builder::Query::Select(sel) => {
                query_builder::lemma_select_ok_view(reg.tables@, sel);
            },
            query_builder::Query::Insert(_) => {},
        }
    }
    q.expand(reg)
}

} // verus!
