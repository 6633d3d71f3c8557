//! The query compiler: parses a select or insert declaration against a
//! previously compiled table, and emits the parameterized statement text
//! together with the positional decoding plan for result rows.

use vstd::prelude::*;
use crate::CompileError;
use crate::SpecCompileError;
use crate::registry::{
    FieldType, ScalarKind, Value, spec_cell_ok, spec_storage_name, storage_name, value_kind,
    clone_cell, nullable, spec_nullable,
};
use crate::scan::{
    str_eq, skip_ws, scan_ident, scan_strlit, spec_dec, usize_to_string, is_ws, spec_skip_ws,
    spec_scan_ident, spec_scan_strlit,
};
use crate::table_builder::{
    Table, Field, Record, SchemaRegistry, spec_find_table, spec_to_values, spec_record_wf,
    spec_prepend, lemma_prepend_assoc, lemma_prepend_empty, spec_parse_ident_list,
};

verus! {

/// A query declaration: a tagged choice of select or insert.
#[derive(Debug)]
pub enum Query {
    Select(Select),
    Insert(Insert),
}

/// A select declaration: the store-client identifier, the referenced table,
/// the ordered projection list, and an optional raw filter predicate that is
/// inserted verbatim after `WHERE`.
#[derive(Debug)]
pub struct Select {
    pub spi_client: String,
    pub table: String,
    pub fields: Vec<String>,
    pub where_clause: Option<String>,
}

/// The record expressions an insert declaration can carry: one record, or a
/// finite sequence of records. Both are raw expression text, evaluated by
/// the surrounding host code, never interpreted here.
#[derive(Debug)]
pub enum Values {
    Single(String),
    Multiple(String),
}

/// An insert declaration: the store-client identifier, the referenced
/// table, and the record expression(s) to insert.
#[derive(Debug)]
pub struct Insert {
    pub spi_client: String,
    pub table: String,
    pub values: Values,
}

/// The mathematical model of a select declaration.
pub struct SpecSelect {
    pub spi_client: Seq<char>,
    pub table: Seq<char>,
    pub fields: Seq<Seq<char>>,
    pub where_clause: Option<Seq<char>>,
}

impl View for Select {
    type V = SpecSelect;

    open spec fn view(&self) -> SpecSelect {
        SpecSelect {
            spi_client: self.spi_client@,
            table: self.table@,
            fields: self.fields@.map_values(|n: String| n@),
            where_clause: match self.where_clause {
                Some(w) => Some(w@),
                None => None,
            },
        }
    }
}

/// The mathematical model of an insert declaration's record expressions.
pub enum SpecValues {
    Single(Seq<char>),
    Multiple(Seq<char>),
}

impl View for Values {
    type V = SpecValues;

    open spec fn view(&self) -> SpecValues {
        match self {
            Values::Single(expr) => SpecValues::Single(expr@),
            Values::Multiple(expr) => SpecValues::Multiple(expr@),
        }
    }
}

/// The mathematical model of an insert declaration.
pub struct SpecInsert {
    pub spi_client: Seq<char>,
    pub table: Seq<char>,
    pub values: SpecValues,
}

impl View for Insert {
    type V = SpecInsert;

    open spec fn view(&self) -> SpecInsert {
        SpecInsert { spi_client: self.spi_client@, table: self.table@, values: self.values@ }
    }
}

/// The mathematical model of a query declaration.
pub enum SpecQuery {
    Select(SpecSelect),
    Insert(SpecInsert),
}

impl View for Query {
    type V = SpecQuery;

    open spec fn view(&self) -> SpecQuery {
        match self {
            Query::Select(sel) => SpecQuery::Select(sel@),
            Query::Insert(ins) => SpecQuery::Insert(ins@),
        }
    }
}

/// The position just past `<expected>:` at `pos` — the exact marker
/// identifier followed by a colon — or the diagnostic naming what stands
/// there instead.
pub open spec fn spec_validate_marker(s: Seq<char>, pos: int, expected: Seq<char>) -> Result<
    int,
    SpecCompileError,
> {
    if !(0 <= pos <= s.len()) {
        Err(SpecCompileError::Syntax { at: pos })
    } else {
        let p = spec_skip_ws(s, pos);
        match spec_scan_ident(s, p) {
            None => Err(SpecCompileError::Syntax { at: p }),
            Some((id, e)) => {
                if id == expected {
                    let q = spec_skip_ws(s, e);
                    if q < s.len() && s[q] == ':' {
                        Ok(q + 1)
                    } else {
                        Err(SpecCompileError::Syntax { at: q })
                    }
                } else {
                    Err(SpecCompileError::ExpectedMarker { expected, found: id })
                }
            },
        }
    }
}


/// Parses `<expected>:` at `pos`: the exact marker identifier followed by a
/// colon. Any other identifier there is a fatal diagnostic naming both.
fn validate_marker(s: &str, pos: usize, expected: &'static str) -> (r: Result<
    usize,
    CompileError,
>)
    requires
        pos <= s@.len(),
    ensures
        r matches Ok(end) ==> pos < end <= s@.len(),
        match (r, spec_validate_marker(s@, pos as int, expected@)) {
            (Ok(end), Ok(send)) => end as int == send,
            (Err(e), Err(se)) => e@ == se,
            _ => false,
        },
{
    let len = s.unicode_len();
    let p = skip_ws(s, pos);
    let (id, e) = match scan_ident(s, p) {
        None => {
            return Err(CompileError::Syntax { at: p });
        },
        Some(x) => x,
    };
    if !str_eq(id.as_str(), expected) {
        return Err(CompileError::ExpectedMarker { expected, found: id });
    }
    let q = skip_ws(s, e);
    if q == len || s.get_char(q) != ':' {
        return Err(CompileError::Syntax { at: q });
    }
    Ok(q + 1)
}

/// The end of the text from `pos` to `end` with trailing whitespace
/// removed.
pub open spec fn spec_trim_end(s: Seq<char>, pos: int, end: int) -> int
    decreases end - pos,
{
    if pos < end <= s.len() && is_ws(s[end - 1]) {
        spec_trim_end(s, pos, end - 1)
    } else {
        end
    }
}

/// The trailing end of the expression that runs from `pos` to the end of the
/// input: the input length with trailing whitespace removed.
fn trim_end(s: &str, pos: usize) -> (r: usize)
    requires
        pos <= s@.len(),
    ensures
        pos <= r <= s@.len(),
        r == spec_trim_end(s@, pos as int, s@.len() as int),
{
    let mut end = s.unicode_len();
    loop
        invariant
            pos <= end <= s@.len(),
            spec_trim_end(s@, pos as int, s@.len() as int) == spec_trim_end(
                s@,
                pos as int,
                end as int,
            ),
        decreases end,
    {
        if end == pos {
            return end;
        }
        let c = s.get_char(end - 1);
        if c == ' ' || c == '\n' || c == '\t' || c == '\r' {
            end = end - 1;
        } else {
            return end;
        }
    }
}

/// The select declaration whose remainder — after the store-client
/// identifier and the `from:` marker — starts at `pos` and runs to the end
/// of the input.
pub open spec fn spec_parse_select_tail(s: Seq<char>, pos: int, spi_client: Seq<char>) -> Result<
    SpecSelect,
    SpecCompileError,
> {
    if !(0 <= pos <= s.len()) {
        Err(SpecCompileError::Syntax { at: pos })
    } else {
        let p = spec_skip_ws(s, pos);
        match spec_scan_ident(s, p) {
            None => Err(SpecCompileError::Syntax { at: p }),
            Some((table, after_table)) => match spec_validate_marker(s, after_table, "select"@) {
                Err(e) => Err(e),
                Ok(p1) => {
                    let p2 = spec_skip_ws(s, p1);
                    if p2 < s.len() && s[p2] == '(' {
                        match spec_parse_ident_list(s, p2 + 1, ')') {
                            Err(e) => Err(e),
                            Ok((fields, after_fields)) => {
                                let p3 = spec_skip_ws(s, after_fields);
                                if p3 == s.len() {
                                    Ok(
                                        SpecSelect {
                                            spi_client,
                                            table,
                                            fields,
                                            where_clause: None,
                                        },
                                    )
                                } else {
                                    match spec_scan_ident(s, p3) {
                                        None => Err(SpecCompileError::Syntax { at: p3 }),
                                        Some((id, e)) => {
                                            if id == "where"@ {
                                                let q1 = spec_skip_ws(s, e);
                                                if q1 < s.len() && s[q1] == ':' {
                                                    match spec_scan_strlit(
                                                        s,
                                                        spec_skip_ws(s, q1 + 1),
                                                    ) {
                                                        None => Err(
                                                            SpecCompileError::Syntax {
                                                                at: spec_skip_ws(s, q1 + 1),
                                                            },
                                                        ),
                                                        Some((lit, e2)) => {
                                                            if spec_skip_ws(s, e2) == s.len() {
                                                                Ok(
                                                                    SpecSelect {
                                                                        spi_client,
                                                                        table,
                                                                        fields,
                                                                        where_clause: Some(lit),
                                                                    },
                                                                )
                                                            } else {
                                                                Err(
                                                                    SpecCompileError::Syntax {
                                                                        at: spec_skip_ws(s, e2),
                                                                    },
                                                                )
                                                            }
                                                        },
                                                    }
                                                } else {
                                                    Err(SpecCompileError::Syntax { at: q1 })
                                                }
                                            } else {
                                                Err(
                                                    SpecCompileError::ExpectedMarker {
                                                        expected: "where"@,
                                                        found: id,
                                                    },
                                                )
                                            }
                                        },
                                    }
                                }
                            },
                        }
                    } else {
                        Err(SpecCompileError::Syntax { at: p2 })
                    }
                },
            },
        }
    }
}

/// The select declaration that the whole input reads as: the store-client
/// identifier, the `from:` marker, and the remainder.
pub open spec fn spec_parse_select(s: Seq<char>) -> Result<SpecSelect, SpecCompileError> {
    let p = spec_skip_ws(s, 0);
    match spec_scan_ident(s, p) {
        None => Err(SpecCompileError::Syntax { at: p }),
        Some((client, after_client)) => match spec_validate_marker(s, after_client, "from"@) {
            Err(e) => Err(e),
            Ok(p1) => spec_parse_select_tail(s, p1, client),
        },
    }
}

impl Select {
    /// Parses a complete select declaration: the store-client identifier,
    /// the `from:` marker, and the remainder.
    pub fn parse(s: &str) -> (r: Result<Select, CompileError>)
        ensures
            match (r, spec_parse_select(s@)) {
                (Ok(sel), Ok(m)) => sel@ == m,
                (Err(e), Err(se)) => e@ == se,
                _ => false,
            },
    {
        let p = skip_ws(s, 0);
        let (spi_client, after_client) = match scan_ident(s, p) {
            None => {
                return Err(CompileError::Syntax { at: p });
            },
            Some(x) => x,
        };
        let p1 = match validate_marker(s, after_client, "from") {
            Err(err) => {
                return Err(err);
            },
            Ok(x) => x,
        };
        Self::parse_after_first_marker(s, p1, spi_client)
    }

    /// Parses the remainder of a select declaration, after the store-client
    /// identifier and the `from:` marker: the table name, the `select:`
    /// marker with its parenthesized projection list, and an optional
    /// `where:` marker with a string literal.
    pub fn parse_after_first_marker(s: &str, pos: usize, spi_client: String) -> (r: Result<
        Select,
        CompileError,
    >)
        requires
            pos <= s@.len(),
        ensures
            match (r, spec_parse_select_tail(s@, pos as int, spi_client@)) {
                (Ok(sel), Ok(m)) => sel@ == m,
                (Err(e), Err(se)) => e@ == se,
                _ => false,
            },
    {
        let len = s.unicode_len();
        let p = skip_ws(s, pos);
        let (table, after_table) = match scan_ident(s, p) {
            None => {
                return Err(CompileError::Syntax { at: p });
            },
            Some(x) => x,
        };
        let p1 = match validate_marker(s, after_table, "select") {
            Err(err) => {
                return Err(err);
            },
            Ok(x) => x,
        };
        let p2 = skip_ws(s, p1);
        if p2 == len || s.get_char(p2) != '(' {
            return Err(CompileError::Syntax { at: p2 });
        }
        let mut q = p2 + 1;
        let mut fields: Vec<String> = Vec::new();
        let mut after_fields: usize = 0;
        let mut closed = false;
        proof {
            assert(fields@.map_values(|n: String| n@) =~= Seq::<Seq<char>>::empty());
            lemma_prepend_empty(spec_parse_ident_list(s@, q as int, ')'));
        }
        while !closed
            invariant
                p2 < q <= len,
                pos <= s@.len(),
                len == s@.len(),
                spec_skip_ws(s@, pos as int) == p as int,
                spec_scan_ident(s@, p as int) == Some((table@, after_table as int)),
                spec_validate_marker(s@, after_table as int, "select"@) == Ok::<
                    _,
                    SpecCompileError,
                >(p1 as int),
                spec_skip_ws(s@, p1 as int) == p2 as int,
                p2 < len && s@[p2 as int] == '(',
                closed ==> after_fields <= len,
                !closed ==> spec_parse_ident_list(s@, p2 + 1, ')') == spec_prepend(
                    fields@.map_values(|n: String| n@),
                    spec_parse_ident_list(s@, q as int, ')'),
                ),
                closed ==> spec_parse_ident_list(s@, p2 + 1, ')') == Ok::<
                    _,
                    SpecCompileError,
                >((fields@.map_values(|n: String| n@), after_fields as int)),
            decreases len - q + (if closed {
                0int
            } else {
                1int
            }),
        {
            let ghost prefix = fields@.map_values(|n: String| n@);
            let q2 = skip_ws(s, q);
            if q2 < len && s.get_char(q2) == ')' {
                proof {
                    assert(prefix + Seq::<Seq<char>>::empty() =~= prefix);
                }
                after_fields = q2 + 1;
                closed = true;
                q = q2 + 1;
            } else {
                let (f, e) = match scan_ident(s, q2) {
                    None => {
                        return Err(CompileError::Syntax { at: q2 });
                    },
                    Some(x) => x,
                };
                let ghost f_view = f@;
                fields.push(f);
                proof {
                    assert(fields@.map_values(|n: String| n@) =~= prefix.push(f_view));
                }
                let q3 = skip_ws(s, e);
                if q3 < len && s.get_char(q3) == ')' {
                    proof {
                        assert(prefix + seq![f_view] =~= prefix.push(f_view));
                    }
                    after_fields = q3 + 1;
                    closed = true;
                    q = q3 + 1;
                } else if q3 < len && s.get_char(q3) == ',' {
                    proof {
                        lemma_prepend_assoc(
                            prefix,
                            f_view,
                            spec_parse_ident_list(s@, q3 + 1, ')'),
                        );
                    }
                    q = q3 + 1;
                } else {
                    return Err(CompileError::Syntax { at: q3 });
                }
            }
        }
        let mut where_clause: Option<String> = None;
        let p3 = skip_ws(s, after_fields);
        if p3 < len {
            let (id, e) = match scan_ident(s, p3) {
                None => {
                    return Err(CompileError::Syntax { at: p3 });
                },
                Some(x) => x,
            };
            if !str_eq(id.as_str(), "where") {
                return Err(CompileError::ExpectedMarker { expected: "where", found: id });
            }
            let q1 = skip_ws(s, e);
            if q1 == len || s.get_char(q1) != ':' {
                return Err(CompileError::Syntax { at: q1 });
            }
            let q2 = skip_ws(s, q1 + 1);
            let (lit, e2) = match scan_strlit(s, q2) {
                None => {
                    return Err(CompileError::Syntax { at: q2 });
                },
                Some(x) => x,
            };
            where_clause = Some(lit);
            let q3 = skip_ws(s, e2);
            if q3 < len {
                return Err(CompileError::Syntax { at: q3 });
            }
        }
        Ok(Select { spi_client, table, fields, where_clause })
    }
}

/// The insert declaration whose remainder — after the store-client
/// identifier and the `insert` keyword — starts at `pos` and runs to the
/// end of the input.
pub open spec fn spec_parse_insert_tail(s: Seq<char>, pos: int, spi_client: Seq<char>) -> Result<
    SpecInsert,
    SpecCompileError,
> {
    match spec_validate_marker(s, pos, "into"@) {
        Err(e) => Err(e),
        Ok(after_into) => {
            let p1 = spec_skip_ws(s, after_into);
            match spec_scan_ident(s, p1) {
                None => Err(SpecCompileError::Syntax { at: p1 }),
                Some((table, after_table)) => {
                    let p2 = spec_skip_ws(s, after_table);
                    match spec_scan_ident(s, p2) {
                        None => Err(SpecCompileError::Syntax { at: p2 }),
                        Some((val_marker, e)) => {
                            let q = spec_skip_ws(s, e);
                            if q < s.len() && s[q] == ':' {
                                let expr_start = spec_skip_ws(s, q + 1);
                                let expr_end = spec_trim_end(s, expr_start, s.len() as int);
                                if expr_start == expr_end {
                                    Err(SpecCompileError::Syntax { at: expr_start })
                                } else {
                                    let expr = s.subrange(expr_start, expr_end);
                                    if val_marker == "value"@ {
                                        Ok(
                                            SpecInsert {
                                                spi_client,
                                                table,
                                                values: SpecValues::Single(expr),
                                            },
                                        )
                                    } else if val_marker == "values"@ {
                                        Ok(
                                            SpecInsert {
                                                spi_client,
                                                table,
                                                values: SpecValues::Multiple(expr),
                                            },
                                        )
                                    } else {
                                        Err(
                                            SpecCompileError::ExpectedValuesMarker {
                                                found: val_marker,
                                            },
                                        )
                                    }
                                }
                            } else {
                                Err(SpecCompileError::Syntax { at: q })
                            }
                        },
                    }
                },
            }
        },
    }
}

impl Insert {
    /// Parses the remainder of an insert declaration, after the store-client
    /// identifier and the `insert` keyword: the `into:` marker, the table
    /// name, and either `value:` with a single record expression or
    /// `values:` with a sequence-of-records expression. The expression is
    /// the remainder of the input, captured verbatim.
    pub fn parse_after_insert(s: &str, pos: usize, spi_client: String) -> (r: Result<
        Insert,
        CompileError,
    >)
        requires
            pos <= s@.len(),
        ensures
            match (r, spec_parse_insert_tail(s@, pos as int, spi_client@)) {
                (Ok(ins), Ok(m)) => ins@ == m,
                (Err(e), Err(se)) => e@ == se,
                _ => false,
            },
    {
        let len = s.unicode_len();
        let p = match validate_marker(s, pos, "into") {
            Err(err) => {
                return Err(err);
            },
            Ok(x) => x,
        };
        let p1 = skip_ws(s, p);
        let (table, after_table) = match scan_ident(s, p1) {
            None => {
                return Err(CompileError::Syntax { at: p1 });
            },
            Some(x) => x,
        };
        let p2 = skip_ws(s, after_table);
        let (val_marker, e) = match scan_ident(s, p2) {
            None => {
                return Err(CompileError::Syntax { at: p2 });
            },
            Some(x) => x,
        };
        let q = skip_ws(s, e);
        if q == len || s.get_char(q) != ':' {
            return Err(CompileError::Syntax { at: q });
        }
        let expr_start = skip_ws(s, q + 1);
        let expr_end = trim_end(s, expr_start);
        if expr_start == expr_end {
            return Err(CompileError::Syntax { at: expr_start });
        }
        let expr = String::from_str(s.substring_char(expr_start, expr_end));
        let values = if str_eq(val_marker.as_str(), "value") {
            Values::Single(expr)
        } else if str_eq(val_marker.as_str(), "values") {
            Values::Multiple(expr)
        } else {
            return Err(CompileError::ExpectedValuesMarker { found: val_marker });
        };
        Ok(Insert { spi_client, table, values })
    }
}

/// The query declaration model that the whole input reads as, or the
/// diagnostic that rejecting it raises.
pub open spec fn spec_parse_query(s: Seq<char>) -> Result<SpecQuery, SpecCompileError> {
    let p = spec_skip_ws(s, 0);
    match spec_scan_ident(s, p) {
        None => Err(SpecCompileError::Syntax { at: p }),
        Some((client, after_client)) => {
            let p1 = spec_skip_ws(s, after_client);
            match spec_scan_ident(s, p1) {
                None => Err(SpecCompileError::Syntax { at: p1 }),
                Some((marker, e)) => {
                    if marker == "from"@ {
                        let q = spec_skip_ws(s, e);
                        if q < s.len() && s[q] == ':' {
                            match spec_parse_select_tail(s, q + 1, client) {
                                Err(err) => Err(err),
                                Ok(sel) => Ok(SpecQuery::Select(sel)),
                            }
                        } else {
                            Err(SpecCompileError::Syntax { at: q })
                        }
                    } else if marker == "insert"@ {
                        match spec_parse_insert_tail(s, e, client) {
                            Err(err) => Err(err),
                            Ok(ins) => Ok(SpecQuery::Insert(ins)),
                        }
                    } else {
                        Err(SpecCompileError::ExpectedQueryStart { found: marker })
                    }
                },
            }
        },
    }
}

impl Query {
    /// Parses a query declaration: the store-client identifier, then the
    /// first marker decides the variant — `from` begins a select, `insert`
    /// begins an insert; anything else is a fatal diagnostic.
    pub fn parse(s: &str) -> (r: Result<Query, CompileError>)
        ensures
            match (r, spec_parse_query(s@)) {
                (Ok(q), Ok(m)) => q@ == m,
                (Err(e), Err(se)) => e@ == se,
                _ => false,
            },
    {
        let len = s.unicode_len();
        let p = skip_ws(s, 0);
        let (spi_client, after_client) = match scan_ident(s, p) {
            None => {
                return Err(CompileError::Syntax { at: p });
            },
            Some(x) => x,
        };
        let p1 = skip_ws(s, after_client);
        let (first_marker, e) = match scan_ident(s, p1) {
            None => {
                return Err(CompileError::Syntax { at: p1 });
            },
            Some(x) => x,
        };
        if str_eq(first_marker.as_str(), "from") {
            let q = skip_ws(s, e);
            if q == len || s.get_char(q) != ':' {
                return Err(CompileError::Syntax { at: q });
            }
            match Select::parse_after_first_marker(s, q + 1, spi_client) {
                Ok(sel) => Ok(Query::Select(sel)),
                Err(err) => Err(err),
            }
        } else if str_eq(first_marker.as_str(), "insert") {
            match Insert::parse_after_insert(s, e, spi_client) {
                Ok(ins) => Ok(Query::Insert(ins)),
                Err(err) => Err(err),
            }
        } else {
            Err(CompileError::ExpectedQueryStart { found: first_marker })
        }
    }
}

/// The first field with the given name in a field list, in declaration
/// order.
pub open spec fn spec_find_field(fields: Seq<Field>, name: Seq<char>) -> Option<FieldType>
    decreases fields.len(),
{
    if fields.len() == 0 {
        None
    } else if fields[0].name@ == name {
        Some(fields[0].ty)
    } else {
        spec_find_field(fields.drop_first(), name)
    }
}

proof fn lemma_find_field_skip(fields: Seq<Field>, name: Seq<char>, i: int)
    requires
        0 <= i <= fields.len(),
        forall|j: int| 0 <= j < i ==> fields[j].name@ != name,
    ensures
        spec_find_field(fields, name) == spec_find_field(fields.skip(i), name),
    decreases i,
{
    if i > 0 {
        lemma_find_field_skip(fields, name, i - 1);
        assert(fields.skip(i - 1).len() > 0);
        assert(fields.skip(i - 1)[0] == fields[i - 1]);
        assert(fields.skip(i - 1).drop_first() =~= fields.skip(i));
    } else {
        assert(fields.skip(0) =~= fields);
    }
}

/// Looks up a field by name in a table's field list.
pub fn find_field(t: &Table, name: &str) -> (r: Option<FieldType>)
    ensures
        r == spec_find_field(t.fields@, name@),
{
    let n = t.fields.len();
    let mut i: usize = 0;
    while i < n
        invariant
            i <= n,
            n == t.fields@.len(),
            forall|j: int| 0 <= j < i ==> t.fields@[j].name@ != name@,
        decreases n - i,
    {
        if str_eq(t.fields[i].name.as_str(), name) {
            proof {
                lemma_find_field_skip(t.fields@, name@, i as int);
                assert(t.fields@.skip(i as int)[0] == t.fields@[i as int]);
            }
            return Some(t.fields[i].ty);
        }
        i = i + 1;
    }
    proof {
        lemma_find_field_skip(t.fields@, name@, n as int);
        assert(t.fields@.skip(n as int) =~= Seq::<Field>::empty());
    }
    None
}

/// The pair of marker types of one field, as the query compiler reads them
/// through the registry: the type it expects to decode (the field's declared
/// type) and the type the store might actually hand back (its
/// nullable-wrapped version, idempotent if already nullable). Decoding reads
/// each column at the second and applies the extraction contract to reach
/// the first.
pub fn marker_types(t: &Table, name: &str) -> (r: Option<(FieldType, FieldType)>)
    ensures
        match (r, spec_find_field(t.fields@, name@)) {
            (Some((declared, wrapped)), Some(ty)) => declared == ty && wrapped == spec_nullable(
                ty,
            ),
            (None, None) => true,
            _ => false,
        },
{
    match find_field(t, name) {
        Some(ty) => Some((ty, nullable(ty))),
        None => None,
    }
}

/// One projected column with its defensive cast: the field name, `::`, and
/// the field's registry-declared storage type.
pub open spec fn spec_projection_item(fields: Seq<Field>, name: Seq<char>) -> Seq<char> {
    name + "::"@ + spec_storage_name(spec_find_field(fields, name).unwrap().kind)
}

/// The projection list of a select statement, in projection order, joined
/// by commas.
pub open spec fn spec_projection(fields: Seq<Field>, names: Seq<String>) -> Seq<char>
    decreases names.len(),
{
    if names.len() == 0 {
        Seq::<char>::empty()
    } else if names.len() == 1 {
        spec_projection_item(fields, names[0]@)
    } else {
        spec_projection(fields, names.drop_last()) + ", "@ + spec_projection_item(
            fields,
            names.last()@,
        )
    }
}

proof fn lemma_projection_step(fields: Seq<Field>, names: Seq<String>, i: int)
    requires
        0 <= i < names.len(),
    ensures
        spec_projection(fields, names.take(i + 1)) == if i == 0 {
            spec_projection_item(fields, names[0]@)
        } else {
            spec_projection(fields, names.take(i)) + ", "@ + spec_projection_item(
                fields,
                names[i]@,
            )
        },
{
    let t = names.take(i + 1);
    if i == 0 {
        assert(t[0] == names[0]);
    } else {
        assert(t.drop_last() =~= names.take(i));
        assert(t.last() == names[i]);
    }
}

/// The statement text of a select declaration against its table: every
/// projected column cast to its registry-declared storage type, and the raw
/// predicate inserted verbatim after `WHERE` when present.
pub open spec fn spec_select_statement(t: Table, q: Select) -> Seq<char> {
    "SELECT "@ + spec_projection(t.fields@, q.fields@) + " FROM "@ + q.table@ + (
    match q.where_clause {
        Some(w) => " WHERE "@ + w@,
        None => Seq::<char>::empty(),
    })
}

/// Whether a select declaration resolves against the registered tables: the
/// referenced table exists and every projected field exists in it.
pub open spec fn spec_select_ok(tables: Seq<Table>, q: Select) -> bool {
    match spec_find_table(tables, q.table@) {
        Some(t) => forall|i: int|
            0 <= i < q.fields@.len() ==> spec_find_field(t.fields@, #[trigger] q.fields@[i]@)
                is Some,
        None => false,
    }
}

/// Whether a select model resolves against the registered tables: the
/// referenced table exists and every projected field exists in it.
pub open spec fn spec_select_resolves(tables: Seq<Table>, sel: SpecSelect) -> bool {
    match spec_find_table(tables, sel.table) {
        Some(t) => forall|i: int|
            0 <= i < sel.fields.len() ==> spec_find_field(t.fields@, #[trigger] sel.fields[i])
                is Some,
        None => false,
    }
}

/// A select declaration resolves exactly when its model does.
pub proof fn lemma_select_ok_view(tables: Seq<Table>, q: &Select)
    ensures
        spec_select_ok(tables, *q) <==> spec_select_resolves(tables, q@),
{
    if spec_find_table(tables, q.table@) is Some {
        let t = spec_find_table(tables, q.table@).unwrap();
        if spec_select_ok(tables, *q) {
            assert forall|i: int|
                0 <= i < q@.fields.len() implies spec_find_field(
                t.fields@,
                #[trigger] q@.fields[i],
            ) is Some by {
                assert(spec_find_field(t.fields@, q.fields@[i]@) is Some);
            }
        }
        if spec_select_resolves(tables, q@) {
            assert forall|i: int|
                0 <= i < q.fields@.len() implies spec_find_field(
                t.fields@,
                #[trigger] q.fields@[i]@,
            ) is Some by {
                assert(spec_find_field(t.fields@, q@.fields[i]) is Some);
            }
        }
    }
}

/// Everything the query compiler emits for a select declaration: the
/// statement text and the positional decoding plan — the declared type of
/// each projected column, in projection order.
#[derive(Debug)]
pub struct SelectArtifact {
    pub decl: Select,
    pub statement: String,
    pub columns: Vec<FieldType>,
}

impl SelectArtifact {
    /// The artifact is exactly what the query compiler emits for its
    /// declaration against the registered tables: the statement text, and
    /// one decoding column per projected field, in projection order, typed
    /// by that field's declaration in the referenced table.
    pub open spec fn wf(&self, tables: Seq<Table>) -> bool {
        match spec_find_table(tables, self.decl.table@) {
            Some(t) => {
                &&& self.columns@.len() == self.decl.fields@.len()
                &&& forall|i: int|
                    0 <= i < self.decl.fields@.len() ==> spec_find_field(
                        t.fields@,
                        #[trigger] self.decl.fields@[i]@,
                    ) == Some(self.columns@[i])
                &&& self.statement@ == spec_select_statement(t, self.decl)
            },
            None => false,
        }
    }
}

impl Select {
    /// Compiles a select declaration against the registry: resolves the
    /// table and every projected field, and emits the statement text with
    /// per-column defensive casts plus the positional decoding plan.
    pub fn expand(self, reg: &SchemaRegistry) -> (r: Result<SelectArtifact, CompileError>)
        ensures
            r is Ok <==> spec_select_ok(reg.tables@, self),
            match r {
                Ok(a) => a.decl == self && a.wf(reg.tables@),
                Err(e) => match e {
                    CompileError::UnknownTable { name } => name@ == self@.table
                        && spec_find_table(reg.tables@, self@.table) is None,
                    CompileError::UnknownField { table, name } => {
                        &&& table@ == self@.table
                        &&& spec_find_table(reg.tables@, self@.table) matches Some(t)
                            && spec_find_field(t.fields@, name@) is None
                        &&& exists|i: int|
                            0 <= i < self@.fields.len() && self@.fields[i] == name@
                    },
                    _ => false,
                },
            },
    {
        let t = match reg.lookup(self.table.as_str()) {
            None => {
                return Err(CompileError::UnknownTable { name: self.table });
            },
            Some(t) => t,
        };
        let n = self.fields.len();
        let mut statement = String::from_str("SELECT ");
        let mut columns: Vec<FieldType> = Vec::new();
        let mut i: usize = 0;
        while i < n
            invariant
                i <= n,
                n == self.fields@.len(),
                spec_find_table(reg.tables@, self.table@) == Some(*t),
                columns@.len() == i,
                forall|j: int|
                    0 <= j < i ==> spec_find_field(t.fields@, #[trigger] self.fields@[j]@)
                        == Some(columns@[j]),
                statement@ == "SELECT "@ + spec_projection(t.fields@, self.fields@.take(i as int)),
            decreases n - i,
        {
            let ty = match find_field(t, self.fields[i].as_str()) {
                None => {
                    proof {
                        assert(self@.fields[i as int] == self.fields@[i as int]@);
                    }
                    return Err(
                        CompileError::UnknownField {
                            table: self.table.clone(),
                            name: self.fields[i].clone(),
                        },
                    );
                },
                Some(ty) => ty,
            };
            if i > 0 {
                statement.append(", ");
            }
            statement.append(self.fields[i].as_str());
            statement.append("::");
            statement.append(storage_name(ty.kind));
            columns.push(ty);
            proof {
                lemma_projection_step(t.fields@, self.fields@, i as int);
                assert(statement@ =~= "SELECT "@ + spec_projection(
                    t.fields@,
                    self.fields@.take(i as int + 1),
                ));
            }
            i = i + 1;
        }
        proof {
            assert(self.fields@.take(n as int) =~= self.fields@);
        }
        statement.append(" FROM ");
        statement.append(self.table.as_str());
        match &self.where_clause {
            Some(w) => {
                statement.append(" WHERE ");
                statement.append(w.as_str());
            },
            None => {},
        }
        proof {
            assert(statement@ =~= spec_select_statement(*t, self));
        }
        Ok(SelectArtifact { decl: self, statement, columns })
    }
}

/// The positional parameter list `$1, $2, ...` of an insert statement with
/// `n` parameters.
pub open spec fn spec_params(n: nat) -> Seq<char>
    decreases n,
{
    if n == 0 {
        Seq::<char>::empty()
    } else if n == 1 {
        "$"@ + spec_dec(1)
    } else {
        spec_params((n - 1) as nat) + ", "@ + "$"@ + spec_dec(n)
    }
}

/// The statement text of an insert declaration: one positional parameter
/// per field of the referenced table.
pub open spec fn spec_insert_statement(table: Seq<char>, n: nat) -> Seq<char> {
    "INSERT INTO "@ + table + " VALUES ("@ + spec_params(n) + ")"@
}

/// Renders the positional parameter list `$1, $2, ...` for `n` parameters.
fn build_params(n: usize) -> (r: String)
    ensures
        r@ == spec_params(n as nat),
{
    let mut s = String::new();
    let mut i: usize = 0;
    while i < n
        invariant
            i <= n,
            s@ == spec_params(i as nat),
        decreases n - i,
    {
        if i > 0 {
            s.append(", ");
        }
        s.append("$");
        let d = usize_to_string(i + 1);
        s.append(d.as_str());
        proof {
            assert(s@ =~= spec_params((i + 1) as nat));
        }
        i = i + 1;
    }
    s
}

/// Everything the query compiler emits for an insert declaration: the
/// parameterized statement text and its parameter count (one per field of
/// the referenced table).
#[derive(Debug)]
pub struct InsertArtifact {
    pub decl: Insert,
    pub statement: String,
    pub n_params: usize,
}

impl InsertArtifact {
    /// The artifact is exactly what the query compiler emits for its
    /// declaration against the registered tables.
    pub open spec fn wf(&self, tables: Seq<Table>) -> bool {
        match spec_find_table(tables, self.decl.table@) {
            Some(t) => {
                &&& self.n_params == t.fields@.len()
                &&& self.statement@ == spec_insert_statement(
                    self.decl.table@,
                    t.fields@.len() as nat,
                )
            },
            None => false,
        }
    }
}

impl Insert {
    /// Compiles an insert declaration against the registry: resolves the
    /// table and emits one parameterized statement with as many positional
    /// parameters as the table has fields.
    pub fn expand(self, reg: &SchemaRegistry) -> (r: Result<InsertArtifact, CompileError>)
        ensures
            r is Ok <==> spec_find_table(reg.tables@, self.table@) is Some,
            match r {
                Ok(a) => a.decl == self && a.wf(reg.tables@),
                Err(e) => match e {
                    CompileError::UnknownTable { name } => name@ == self.table@
                        && spec_find_table(reg.tables@, self.table@) is None,
                    _ => false,
                },
            },
    {
        let t = match reg.lookup(self.table.as_str()) {
            None => {
                return Err(CompileError::UnknownTable { name: self.table });
            },
            Some(t) => t,
        };
        let n = t.fields.len();
        let params = build_params(n);
        let mut statement = String::from_str("INSERT INTO ");
        statement.append(self.table.as_str());
        statement.append(" VALUES (");
        statement.append(params.as_str());
        statement.append(")");
        proof {
            assert(statement@ =~= spec_insert_statement(self.table@, n as nat));
        }
        Ok(InsertArtifact { decl: self, statement, n_params: n })
    }
}

/// A fatal run-time decoding failure: the positional column at which it was
/// detected, counted from zero in projection order.
#[derive(Clone, Copy, PartialEq, Eq, Structural, Debug)]
pub enum DecodeError {
    /// An absent value where the projected field is not declared nullable.
    UnexpectedNull { column: usize },
    /// A present value of a kind other than the projected field's declared
    /// kind.
    KindMismatch { column: usize },
}

/// Whether a result row fits a decoding plan: every cell fits its column's
/// declared type.
pub open spec fn spec_row_ok(columns: Seq<FieldType>, row: Seq<Option<Value>>) -> bool {
    forall|i: int| 0 <= i < columns.len() ==> spec_cell_ok(columns[i], #[trigger] row[i])
}

/// Decodes one result row against a decoding plan, by position in
/// projection order: each cell must hold a value of its column's declared
/// kind, present unless the column is nullable — the extraction contract,
/// applied per column. A fitting row passes through unchanged; the first
/// offending cell is a fatal decoding failure.
pub fn decode_row(columns: &Vec<FieldType>, row: Vec<Option<Value>>) -> (r: Result<
    Vec<Option<Value>>,
    DecodeError,
>)
    requires
        row@.len() == columns@.len(),
    ensures
        match r {
            Ok(vals) => vals == row && spec_row_ok(columns@, row@),
            Err(e) => match e {
                DecodeError::UnexpectedNull { column } => {
                    &&& column < columns@.len()
                    &&& row@[column as int] is None
                    &&& !columns@[column as int].nullable
                    &&& forall|j: int|
                        0 <= j < column ==> spec_cell_ok(columns@[j], #[trigger] row@[j])
                },
                DecodeError::KindMismatch { column } => {
                    &&& column < columns@.len()
                    &&& !spec_cell_ok(columns@[column as int], row@[column as int])
                    &&& row@[column as int] is Some
                    &&& forall|j: int|
                        0 <= j < column ==> spec_cell_ok(columns@[j], #[trigger] row@[j])
                },
            },
        },
{
    let n = columns.len();
    let mut i: usize = 0;
    while i < n
        invariant
            i <= n,
            n == columns@.len(),
            row@.len() == n,
            forall|j: int| 0 <= j < i ==> spec_cell_ok(columns@[j], #[trigger] row@[j]),
        decreases n - i,
    {
        match &row[i] {
            None => {
                if !columns[i].nullable {
                    return Err(DecodeError::UnexpectedNull { column: i });
                }
            },
            Some(v) => {
                if value_kind(v) != columns[i].kind {
                    return Err(DecodeError::KindMismatch { column: i });
                }
            },
        }
        i = i + 1;
    }
    Ok(row)
}

/// Copies a result row.
fn clone_row(row: &Vec<Option<Value>>) -> (r: Vec<Option<Value>>)
    ensures
        r@ == row@,
{
    let mut out: Vec<Option<Value>> = Vec::new();
    let mut i: usize = 0;
    while i < row.len()
        invariant
            i <= row@.len(),
            out@.len() == i,
            forall|j: int| 0 <= j < i ==> out@[j] == row@[j],
        decreases row@.len() - i,
    {
        out.push(clone_cell(&row[i]));
        i = i + 1;
    }
    proof {
        assert(out@ =~= row@);
    }
    out
}

/// Decodes every row of a result set, in order, against a decoding plan.
/// The first offending cell of the first offending row is a fatal decoding
/// failure for the whole result.
pub fn decode_rows(columns: &Vec<FieldType>, rows: &Vec<Vec<Option<Value>>>) -> (r: Result<
    Vec<Vec<Option<Value>>>,
    DecodeError,
>)
    requires
        forall|i: int| 0 <= i < rows@.len() ==> (#[trigger] rows@[i])@.len() == columns@.len(),
    ensures
        match r {
            Ok(out) => {
                &&& out@.len() == rows@.len()
                &&& forall|i: int| 0 <= i < rows@.len() ==> (#[trigger] out@[i])@ == rows@[i]@
                &&& forall|i: int|
                    0 <= i < rows@.len() ==> spec_row_ok(columns@, (#[trigger] rows@[i])@)
            },
            Err(_) => exists|i: int|
                0 <= i < rows@.len() && !spec_row_ok(columns@, (#[trigger] rows@[i])@),
        },
{
    let n = rows.len();
    let mut out: Vec<Vec<Option<Value>>> = Vec::new();
    let mut i: usize = 0;
    while i < n
        invariant
            i <= n,
            n == rows@.len(),
            forall|j: int| 0 <= j < n ==> (#[trigger] rows@[j])@.len() == columns@.len(),
            out@.len() == i,
            forall|j: int| 0 <= j < i ==> (#[trigger] out@[j])@ == rows@[j]@,
            forall|j: int| 0 <= j < i ==> spec_row_ok(columns@, (#[trigger] rows@[j])@),
        decreases n - i,
    {
        let copy = clone_row(&rows[i]);
        match decode_row(columns, copy) {
            Ok(vals) => {
                out.push(vals);
            },
            Err(e) => {
                return Err(e);
            },
        }
        i = i + 1;
    }
    Ok(out)
}

/// The sequence of statement executions the insert-multiple path performs:
/// exactly one (statement text, extracted parameter list) pair per record,
/// in record order — the statement text re-supplied for every element, with
/// no batching.
pub fn insert_executions(a: &InsertArtifact, t: &Table, records: &Vec<Record>) -> (r: Vec<
    (String, Vec<(ScalarKind, Option<Value>)>),
>)
    requires
        forall|i: int|
            0 <= i < records@.len() ==> (#[trigger] records@[i]).values@.len()
                == t.fields@.len(),
    ensures
        r@.len() == records@.len(),
        forall|i: int|
            0 <= i < records@.len() ==> (#[trigger] r@[i]).0@ == a.statement@ && r@[i].1@
                == spec_to_values(t.fields@, records@[i].values@),
{
    let n = records.len();
    let mut out: Vec<(String, Vec<(ScalarKind, Option<Value>)>)> = Vec::new();
    let mut i: usize = 0;
    while i < n
        invariant
            i <= n,
            n == records@.len(),
            forall|j: int|
                0 <= j < n ==> (#[trigger] records@[j]).values@.len() == t.fields@.len(),
            out@.len() == i,
            forall|j: int|
                0 <= j < i ==> (#[trigger] out@[j]).0@ == a.statement@ && out@[j].1@
                    == spec_to_values(t.fields@, records@[j].values@),
        decreases n - i,
    {
        let pairs = records[i].to_values_vec(t);
        out.push((a.statement.clone(), pairs));
        i = i + 1;
    }
    out
}

/// Law: the columns a table's own fields decode to. In a well-formed table
/// every field name resolves to that field's declared type, so a select
/// that projects the declared field names in declaration order decodes by
/// exactly the declared types.
pub proof fn lemma_full_projection_columns(t: Table, i: int)
    requires
        t.wf(),
        0 <= i < t.fields@.len(),
    ensures
        spec_find_field(t.fields@, t.fields@[i].name@) == Some(t.fields@[i].ty),
{
    lemma_find_field_skip(t.fields@, t.fields@[i].name@, i);
    assert(t.fields@.skip(i)[0] == t.fields@[i]);
}

/// Law: decoded tuples follow projection order. For a well-formed select
/// artifact, the decoding column at position `i` is typed by the `i`-th
/// projected field name — whatever the order of the fields in the table
/// declaration — and `decode_row` returns fitting rows unchanged, so the
/// `i`-th decoded value is the value of the `i`-th projected field.
pub proof fn lemma_projection_order(tables: Seq<Table>, a: SelectArtifact, i: int)
    requires
        a.wf(tables),
        0 <= i < a.decl.fields@.len(),
    ensures
        spec_find_table(tables, a.decl.table@) matches Some(t) && spec_find_field(
            t.fields@,
            a.decl.fields@[i]@,
        ) == Some(a.columns@[i]),
{
}

/// Law: a select that projects a well-formed table's own field names, in
/// declaration order, decodes by exactly the declared field types — the
/// decoding plan under which a record of the table round-trips unchanged.
pub proof fn lemma_full_projection_artifact(tables: Seq<Table>, a: SelectArtifact, i: int)
    requires
        a.wf(tables),
        spec_find_table(tables, a.decl.table@) matches Some(t) && t.wf() && a.decl.fields@.len()
            == t.fields@.len(),
        0 <= i < a.decl.fields@.len(),
        ({
            let t = spec_find_table(tables, a.decl.table@).unwrap();
            a.decl.fields@[i]@ == t.fields@[i].name@
        }),
    ensures
        ({
            let t = spec_find_table(tables, a.decl.table@).unwrap();
            a.columns@[i] == t.fields@[i].ty
        }),
{
    let t = spec_find_table(tables, a.decl.table@).unwrap();
    lemma_full_projection_columns(t, i);
}

/// Law: round trip. A record that fits its table extracts to parameter
/// values that, handed back as a result row and decoded against the
/// table's own column types, fit every column — so `decode_row` returns
/// them unchanged, equal to the values that were inserted.
pub proof fn lemma_insert_select_round_trip(t: Table, vals: Seq<Option<Value>>)
    requires
        spec_record_wf(t, vals),
    ensures
        spec_row_ok(t.fields@.map_values(|f: Field| f.ty), vals),
        forall|i: int|
            0 <= i < vals.len() ==> (#[trigger] spec_to_values(t.fields@, vals)[i]).1 == vals[i],
{
    let columns = t.fields@.map_values(|f: Field| f.ty);
    assert forall|i: int| 0 <= i < columns.len() implies spec_cell_ok(
        columns[i],
        #[trigger] vals[i],
    ) by {
        assert(columns[i] == t.fields@[i].ty);
    }
}

/// Everything the query compiler emits for one query declaration.
#[derive(Debug)]
pub enum QueryArtifact {
    Select(SelectArtifact),
    Insert(InsertArtifact),
}

impl Query {
    /// Compiles either query variant against the registry.
    pub fn expand(self, reg: &SchemaRegistry) -> (r: Result<QueryArtifact, CompileError>)
        ensures
            match r {
                Ok(QueryArtifact::Select(a)) => {
                    &&& self matches Query::Select(sel) && a.decl == sel
                    &&& a.wf(reg.tables@)
                },
                Ok(QueryArtifact::Insert(a)) => {
                    &&& self matches Query::Insert(ins) && a.decl == ins
                    &&& a.wf(reg.tables@)
                },
                Err(e) => match self@ {
                    SpecQuery::Select(sel) => match e {
                        CompileError::UnknownTable { name } => name@ == sel.table
                            && spec_find_table(reg.tables@, sel.table) is None,
                        CompileError::UnknownField { table, name } => {
                            &&& table@ == sel.table
                            &&& spec_find_table(reg.tables@, sel.table) matches Some(t)
                                && spec_find_field(t.fields@, name@) is None
                            &&& exists|i: int|
                                0 <= i < sel.fields.len() && sel.fields[i] == name@
                        },
                        _ => false,
                    },
                    SpecQuery::Insert(ins) => match e {
                        CompileError::UnknownTable { name } => name@ == ins.table
                            && spec_find_table(reg.tables@, ins.table) is None,
                        _ => false,
                    },
                },
            },
            r is Ok <==> match self {
                Query::Select(sel) => spec_select_ok(reg.tables@, sel),
                Query::Insert(ins) => spec_find_table(reg.tables@, ins.table@) is Some,
            },
    {
        match self {
            Query::Select(sel) => match sel.expand(reg) {
                Ok(a) => Ok(QueryArtifact::Select(a)),
                Err(e) => Err(e),
            },
            Query::Insert(ins) => match ins.expand(reg) {
                Ok(a) => Ok(QueryArtifact::Insert(a)),
                Err(e) => Err(e),
            },
        }
    }
}

} // verus!
