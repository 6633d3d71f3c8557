//! The schema compiler: parses a table declaration into a schema model and
//! emits the data-definition text, the install-time seeding statements, and
//! the value-extraction accessor for records of the table.

use vstd::prelude::*;
use crate::CompileError;
use crate::SpecCompileError;
use crate::framework::PgTable;
use crate::registry::{
    FieldType, ScalarKind, Value, spec_cell_ok, spec_storage_name, storage_name, clone_cell,
    kind_of_name, nullable, spec_kind_of_name, spec_nullable,
};
use crate::scan::{
    str_eq, skip_ws, scan_ident, scan_block, spec_skip_ws, spec_scan_ident, spec_scan_block,
    lemma_skip_ws_bounds, lemma_scan_ident_bounds, lemma_scan_block_bounds,
};

verus! {

/// One declared field: a name and a declared type.
#[derive(Debug)]
pub struct Field {
    pub name: String,
    pub ty: FieldType,
}

/// The mathematical model of a declared field.
pub struct SpecField {
    pub name: Seq<char>,
    pub ty: FieldType,
}

impl View for Field {
    type V = SpecField;

    open spec fn view(&self) -> SpecField {
        SpecField { name: self.name@, ty: self.ty }
    }
}

/// The schema model of one table declaration: the table name, the ordered
/// field list, the optional seed block (the raw text of an expression that
/// produces the initial rows, evaluated by the host at install time), and
/// the optional, parsed-but-unconsumed dependency list.
#[derive(Debug)]
pub struct Table {
    pub name: String,
    pub fields: Vec<Field>,
    pub insert: Option<String>,
    pub requires_tables: Option<Vec<String>>,
}

/// The mathematical model of a table declaration.
pub struct SpecTable {
    pub name: Seq<char>,
    pub fields: Seq<SpecField>,
    pub insert: Option<Seq<char>>,
    pub requires_tables: Option<Seq<Seq<char>>>,
}

impl View for Table {
    type V = SpecTable;

    open spec fn view(&self) -> SpecTable {
        SpecTable {
            name: self.name@,
            fields: self.fields@.map_values(|f: Field| f@),
            insert: match self.insert {
                Some(body) => Some(body@),
                None => None,
            },
            requires_tables: match self.requires_tables {
                Some(names) => Some(names@.map_values(|n: String| n@)),
                None => None,
            },
        }
    }
}

impl Table {
    /// Well-formed: at least one field, and field names unique within the
    /// table.
    pub open spec fn wf(&self) -> bool {
        &&& self.fields@.len() > 0
        &&& forall|i: int, j: int|
            0 <= i < j < self.fields@.len() ==> self.fields@[i].name@ != self.fields@[j].name@
    }
}

/// Well-formedness of a table model: at least one field, and field names
/// unique within the table.
pub open spec fn spec_table_wf(m: SpecTable) -> bool {
    &&& m.fields.len() > 0
    &&& forall|i: int, j: int|
        0 <= i < j < m.fields.len() ==> m.fields[i].name != m.fields[j].name
}

/// A table is well-formed exactly when its model is.
pub proof fn lemma_wf_view(t: &Table)
    ensures
        t.wf() <==> spec_table_wf(t@),
{
    if t.wf() {
        assert forall|i: int, j: int|
            0 <= i < j < t@.fields.len() implies t@.fields[i].name != t@.fields[j].name by {
            assert(t.fields@[i].name@ != t.fields@[j].name@);
        }
    }
    if spec_table_wf(t@) {
        assert forall|i: int, j: int|
            0 <= i < j < t.fields@.len() implies t.fields@[i].name@ != t.fields@[j].name@ by {
            assert(t@.fields[i].name != t@.fields[j].name);
        }
    }
}

/// The last segment of the path-qualified name whose first segment ends at
/// `q` with text `first`, and the position just past the whole path.
pub open spec fn spec_path_last(s: Seq<char>, first: Seq<char>, q: int) -> Result<
    (Seq<char>, int),
    SpecCompileError,
>
    decreases s.len() - q,
{
    if 0 <= q && q < s.len() && s[q] == ':' && q + 1 < s.len() && s[q + 1] == ':' {
        match spec_scan_ident(s, q + 2) {
            None => Err(SpecCompileError::Syntax { at: q + 2 }),
            Some((seg, e)) => {
                proof {
                    lemma_scan_ident_bounds(s, q + 2);
                }
                spec_path_last(s, seg, e)
            },
        }
    } else {
        Ok((first, q))
    }
}

pub proof fn lemma_path_last_bounds(s: Seq<char>, first: Seq<char>, q: int)
    requires
        0 <= q <= s.len(),
        spec_path_last(s, first, q) is Ok,
    ensures
        q <= (spec_path_last(s, first, q)->Ok_0).1 <= s.len(),
    decreases s.len() - q,
{
    if q < s.len() && s[q] == ':' && q + 1 < s.len() && s[q + 1] == ':' {
        if spec_scan_ident(s, q + 2) is Some {
            let (seg, e) = spec_scan_ident(s, q + 2).unwrap();
            lemma_scan_ident_bounds(s, q + 2);
            lemma_path_last_bounds(s, seg, e);
        }
    }
}

/// The declared type that starts at `pos` — a possibly path-qualified name
/// whose last segment either resolves through the registry or is the
/// nullable wrapper around a declared type — and the position just past it.
pub open spec fn spec_parse_type(s: Seq<char>, pos: int) -> Result<
    (FieldType, int),
    SpecCompileError,
>
    decreases s.len() - pos,
{
    if !(0 <= pos <= s.len()) {
        Err(SpecCompileError::Syntax { at: pos })
    } else {
        let p = spec_skip_ws(s, pos);
        match spec_scan_ident(s, p) {
            None => Err(SpecCompileError::Syntax { at: p }),
            Some((first, after)) => match spec_path_last(s, first, after) {
                Err(e) => Err(e),
                Ok((last, q)) => {
                    if last == "Option"@ {
                        proof {
                            lemma_skip_ws_bounds(s, pos);
                            lemma_scan_ident_bounds(s, p);
                            lemma_path_last_bounds(s, first, after);
                            lemma_skip_ws_bounds(s, q);
                        }
                        let p2 = spec_skip_ws(s, q);
                        if p2 < s.len() && s[p2] == '<' {
                            match spec_parse_type(s, p2 + 1) {
                                Err(e) => Err(e),
                                Ok((inner, e)) => {
                                    let p3 = spec_skip_ws(s, e);
                                    if p3 < s.len() && s[p3] == '>' {
                                        Ok((spec_nullable(inner), p3 + 1))
                                    } else {
                                        Err(SpecCompileError::Syntax { at: p3 })
                                    }
                                },
                            }
                        } else {
                            Err(SpecCompileError::Syntax { at: p2 })
                        }
                    } else {
                        match spec_kind_of_name(last) {
                            Some(k) => Ok((FieldType { kind: k, nullable: false }, q)),
                            None => Err(SpecCompileError::UnknownType { name: last }),
                        }
                    }
                },
            },
        }
    }
}

pub proof fn lemma_parse_type_bounds(s: Seq<char>, pos: int)
    requires
        0 <= pos <= s.len(),
        spec_parse_type(s, pos) is Ok,
    ensures
        pos < (spec_parse_type(s, pos)->Ok_0).1 <= s.len(),
    decreases s.len() - pos,
{
    let p = spec_skip_ws(s, pos);
    lemma_skip_ws_bounds(s, pos);
    let (first, after) = spec_scan_ident(s, p).unwrap();
    lemma_scan_ident_bounds(s, p);
    let (last, q) = spec_path_last(s, first, after)->Ok_0;
    lemma_path_last_bounds(s, first, after);
    if last == "Option"@ {
        lemma_skip_ws_bounds(s, q);
        let p2 = spec_skip_ws(s, q);
        let (inner, e) = spec_parse_type(s, p2 + 1)->Ok_0;
        lemma_parse_type_bounds(s, p2 + 1);
        lemma_skip_ws_bounds(s, e);
    }
}

/// Parses a declared type at `pos`: a possibly path-qualified type name
/// whose last segment either resolves through the registry or is the
/// nullable wrapper `Option` around a declared type. Wrapping an
/// already-nullable type normalizes to a single level of nullability.
pub fn parse_type(s: &str, pos: usize) -> (r: Result<(FieldType, usize), CompileError>)
    requires
        pos <= s@.len(),
    ensures
        r matches Ok((t, end)) ==> pos < end <= s@.len(),
        match (r, spec_parse_type(s@, pos as int)) {
            (Ok((t, end)), Ok((st, send))) => t == st && end as int == send,
            (Err(e), Err(se)) => e@ == se,
            _ => false,
        },
    decreases s@.len() - pos,
{
    let len = s.unicode_len();
    let p = skip_ws(s, pos);
    let (first, after) = match scan_ident(s, p) {
        None => {
            return Err(CompileError::Syntax { at: p });
        },
        Some(x) => x,
    };
    let ghost first_view = first@;
    let mut last = first;
    let mut q = after;
    while q < len && s.get_char(q) == ':' && q + 1 < len && s.get_char(q + 1) == ':'
        invariant
            pos < q <= len,
            len == s@.len(),
            spec_scan_ident(s@, spec_skip_ws(s@, pos as int)) == Some((first_view, after as int)),
            spec_path_last(s@, first_view, after as int) == spec_path_last(s@, last@, q as int),
        decreases len - q,
    {
        match scan_ident(s, q + 2) {
            None => {
                return Err(CompileError::Syntax { at: q + 2 });
            },
            Some((seg, e)) => {
                last = seg;
                q = e;
            },
        }
    }
    if str_eq(last.as_str(), "Option") {
        let p2 = skip_ws(s, q);
        if p2 == len || s.get_char(p2) != '<' {
            return Err(CompileError::Syntax { at: p2 });
        }
        let (inner, e) = match parse_type(s, p2 + 1) {
            Err(err) => {
                return Err(err);
            },
            Ok(x) => x,
        };
        let p3 = skip_ws(s, e);
        if p3 == len || s.get_char(p3) != '>' {
            return Err(CompileError::Syntax { at: p3 });
        }
        Ok((nullable(inner), p3 + 1))
    } else {
        match kind_of_name(last.as_str()) {
            Some(k) => Ok((FieldType { kind: k, nullable: false }, q)),
            None => Err(CompileError::UnknownType { name: last }),
        }
    }
}

/// The `name: type` pair that starts at `pos` and the position just past
/// it.
pub open spec fn spec_parse_field(s: Seq<char>, pos: int) -> Result<
    (SpecField, int),
    SpecCompileError,
> {
    if !(0 <= pos <= s.len()) {
        Err(SpecCompileError::Syntax { at: pos })
    } else {
        let p = spec_skip_ws(s, pos);
        match spec_scan_ident(s, p) {
            None => Err(SpecCompileError::Syntax { at: p }),
            Some((name, after)) => {
                let q = spec_skip_ws(s, after);
                if q < s.len() && s[q] == ':' {
                    match spec_parse_type(s, q + 1) {
                        Err(e) => Err(e),
                        Ok((ty, end)) => Ok((SpecField { name, ty }, end)),
                    }
                } else {
                    Err(SpecCompileError::Syntax { at: q })
                }
            },
        }
    }
}

pub proof fn lemma_parse_field_bounds(s: Seq<char>, pos: int)
    requires
        0 <= pos <= s.len(),
        spec_parse_field(s, pos) is Ok,
    ensures
        pos < (spec_parse_field(s, pos)->Ok_0).1 <= s.len(),
{
    let p = spec_skip_ws(s, pos);
    lemma_skip_ws_bounds(s, pos);
    let (name, after) = spec_scan_ident(s, p).unwrap();
    lemma_scan_ident_bounds(s, p);
    let q = spec_skip_ws(s, after);
    lemma_skip_ws_bounds(s, after);
    lemma_parse_type_bounds(s, q + 1);
}

impl Field {
    /// Parses one `name: type` pair at `pos`.
    pub fn parse(s: &str, pos: usize) -> (r: Result<(Field, usize), CompileError>)
        requires
            pos <= s@.len(),
        ensures
            r matches Ok((f, end)) ==> pos < end <= s@.len(),
            match (r, spec_parse_field(s@, pos as int)) {
                (Ok((f, end)), Ok((sf, send))) => f@ == sf && end as int == send,
                (Err(e), Err(se)) => e@ == se,
                _ => false,
            },
    {
        let len = s.unicode_len();
        let p = skip_ws(s, pos);
        let (name, after) = match scan_ident(s, p) {
            None => {
                return Err(CompileError::Syntax { at: p });
            },
            Some(x) => x,
        };
        let q = skip_ws(s, after);
        if q == len || s.get_char(q) != ':' {
            return Err(CompileError::Syntax { at: q });
        }
        match parse_type(s, q + 1) {
            Err(err) => Err(err),
            Ok((ty, end)) => Ok((Field { name, ty }, end)),
        }
    }
}

/// Prepends already-parsed items to the outcome of parsing the remaining
/// items of a list.
pub open spec fn spec_prepend<T>(prefix: Seq<T>, r: Result<(Seq<T>, int), SpecCompileError>) -> Result<
    (Seq<T>, int),
    SpecCompileError,
> {
    match r {
        Err(e) => Err(e),
        Ok((rest, end)) => Ok((prefix + rest, end)),
    }
}

pub proof fn lemma_prepend_assoc<T>(prefix: Seq<T>, x: T, r: Result<(Seq<T>, int), SpecCompileError>)
    ensures
        spec_prepend(prefix, spec_prepend(seq![x], r)) == spec_prepend(prefix.push(x), r),
{
    match r {
        Err(_) => {},
        Ok((rest, end)) => {
            assert(prefix + (seq![x] + rest) =~= prefix.push(x) + rest);
        },
    }
}

pub proof fn lemma_prepend_empty<T>(r: Result<(Seq<T>, int), SpecCompileError>)
    ensures
        spec_prepend(Seq::<T>::empty(), r) == r,
{
    match r {
        Err(_) => {},
        Ok((rest, end)) => {
            assert(Seq::<T>::empty() + rest =~= rest);
        },
    }
}

/// The comma-separated (trailing comma allowed) identifier list that starts
/// at `pos` and runs to the closing delimiter `close`, and the position just
/// past that delimiter.
pub open spec fn spec_parse_ident_list(s: Seq<char>, pos: int, close: char) -> Result<
    (Seq<Seq<char>>, int),
    SpecCompileError,
>
    decreases s.len() - pos,
{
    if !(0 <= pos <= s.len()) {
        Err(SpecCompileError::Syntax { at: pos })
    } else {
        let q2 = spec_skip_ws(s, pos);
        if q2 < s.len() && s[q2] == close {
            Ok((Seq::empty(), q2 + 1))
        } else {
            match spec_scan_ident(s, q2) {
                None => Err(SpecCompileError::Syntax { at: q2 }),
                Some((name, e)) => {
                    proof {
                        lemma_skip_ws_bounds(s, pos);
                        lemma_scan_ident_bounds(s, q2);
                        lemma_skip_ws_bounds(s, e);
                    }
                    let q3 = spec_skip_ws(s, e);
                    if q3 < s.len() && s[q3] == close {
                        Ok((seq![name], q3 + 1))
                    } else if q3 < s.len() && s[q3] == ',' {
                        spec_prepend(seq![name], spec_parse_ident_list(s, q3 + 1, close))
                    } else {
                        Err(SpecCompileError::Syntax { at: q3 })
                    }
                },
            }
        }
    }
}

pub proof fn lemma_parse_ident_list_bounds(s: Seq<char>, pos: int, close: char)
    requires
        0 <= pos <= s.len(),
        spec_parse_ident_list(s, pos, close) is Ok,
    ensures
        pos < (spec_parse_ident_list(s, pos, close)->Ok_0).1 <= s.len(),
    decreases s.len() - pos,
{
    let q2 = spec_skip_ws(s, pos);
    lemma_skip_ws_bounds(s, pos);
    if q2 < s.len() && s[q2] == close {
    } else {
        let (name, e) = spec_scan_ident(s, q2).unwrap();
        lemma_scan_ident_bounds(s, q2);
        let q3 = spec_skip_ws(s, e);
        lemma_skip_ws_bounds(s, e);
        if q3 < s.len() && s[q3] == close {
        } else {
            lemma_parse_ident_list_bounds(s, q3 + 1, close);
        }
    }
}

/// The bracketed dependency list that starts at `pos` and the position just
/// past its closing bracket.
pub open spec fn spec_parse_requires(s: Seq<char>, pos: int) -> Result<
    (Seq<Seq<char>>, int),
    SpecCompileError,
> {
    if !(0 <= pos <= s.len()) {
        Err(SpecCompileError::Syntax { at: pos })
    } else {
        let p = spec_skip_ws(s, pos);
        if p < s.len() && s[p] == '[' {
            spec_parse_ident_list(s, p + 1, ']')
        } else {
            Err(SpecCompileError::Syntax { at: p })
        }
    }
}

pub proof fn lemma_parse_requires_bounds(s: Seq<char>, pos: int)
    requires
        0 <= pos <= s.len(),
        spec_parse_requires(s, pos) is Ok,
    ensures
        pos < (spec_parse_requires(s, pos)->Ok_0).1 <= s.len(),
{
    let p = spec_skip_ws(s, pos);
    lemma_skip_ws_bounds(s, pos);
    lemma_parse_ident_list_bounds(s, p + 1, ']');
}

/// Parses the dependency list of a `requires` block at `pos`: a bracketed,
/// comma-separated (trailing comma allowed) list of table identifiers.
fn parse_requires_list(s: &str, pos: usize) -> (r: Result<(Vec<String>, usize), CompileError>)
    requires
        pos <= s@.len(),
    ensures
        r matches Ok((names, end)) ==> pos < end <= s@.len(),
        match (r, spec_parse_requires(s@, pos as int)) {
            (Ok((names, end)), Ok((snames, send))) => names@.map_values(|n: String| n@)
                == snames && end as int == send,
            (Err(e), Err(se)) => e@ == se,
            _ => false,
        },
{
    let len = s.unicode_len();
    let p = skip_ws(s, pos);
    if p == len || s.get_char(p) != '[' {
        return Err(CompileError::Syntax { at: p });
    }
    let mut q = p + 1;
    let mut names: Vec<String> = Vec::new();
    proof {
        assert(names@.map_values(|n: String| n@) =~= Seq::<Seq<char>>::empty());
        lemma_prepend_empty(spec_parse_ident_list(s@, q as int, ']'));
    }
    loop
        invariant
            pos <= p < q <= len,
            pos <= s@.len(),
            len == s@.len(),
            spec_skip_ws(s@, pos as int) == p as int,
            s@[p as int] == '[',
            spec_parse_ident_list(s@, p + 1, ']') == spec_prepend(
                names@.map_values(|n: String| n@),
                spec_parse_ident_list(s@, q as int, ']'),
            ),
        decreases len - q,
    {
        let ghost prefix = names@.map_values(|n: String| n@);
        let q2 = skip_ws(s, q);
        if q2 < len && s.get_char(q2) == ']' {
            proof {
                assert(prefix + Seq::<Seq<char>>::empty() =~= prefix);
            }
            return Ok((names, q2 + 1));
        }
        let (name, e) = match scan_ident(s, q2) {
            None => {
                return Err(CompileError::Syntax { at: q2 });
            },
            Some(x) => x,
        };
        let ghost name_view = name@;
        names.push(name);
        proof {
            assert(names@.map_values(|n: String| n@) =~= prefix.push(name_view));
        }
        let q3 = skip_ws(s, e);
        if q3 < len && s.get_char(q3) == ']' {
            proof {
                assert(spec_parse_ident_list(s@, q as int, ']') == Ok::<
                    _,
                    SpecCompileError,
                >((seq![name_view], q3 + 1)));
                assert(prefix + seq![name_view] =~= prefix.push(name_view));
            }
            return Ok((names, q3 + 1));
        }
        if q3 < len && s.get_char(q3) == ',' {
            proof {
                lemma_prepend_assoc(
                    prefix,
                    name_view,
                    spec_parse_ident_list(s@, q3 + 1, ']'),
                );
            }
            q = q3 + 1;
        } else {
            return Err(CompileError::Syntax { at: q3 });
        }
    }
}

/// The comma-separated (trailing comma allowed) field list that starts at
/// `pos` and runs to the closing parenthesis, and the position just past it.
pub open spec fn spec_parse_fields(s: Seq<char>, pos: int) -> Result<
    (Seq<SpecField>, int),
    SpecCompileError,
>
    decreases s.len() - pos,
{
    if !(0 <= pos <= s.len()) {
        Err(SpecCompileError::Syntax { at: pos })
    } else {
        let q2 = spec_skip_ws(s, pos);
        if q2 < s.len() && s[q2] == ')' {
            Ok((Seq::empty(), q2 + 1))
        } else {
            match spec_parse_field(s, q2) {
                Err(e) => Err(e),
                Ok((f, e)) => {
                    proof {
                        lemma_skip_ws_bounds(s, pos);
                        lemma_parse_field_bounds(s, q2);
                        lemma_skip_ws_bounds(s, e);
                    }
                    let q3 = spec_skip_ws(s, e);
                    if q3 < s.len() && s[q3] == ')' {
                        Ok((seq![f], q3 + 1))
                    } else if q3 < s.len() && s[q3] == ',' {
                        spec_prepend(seq![f], spec_parse_fields(s, q3 + 1))
                    } else {
                        Err(SpecCompileError::Syntax { at: q3 })
                    }
                },
            }
        }
    }
}


/// The named blocks that run from `pos` (already past any whitespace) to the
/// end of the input, folded over the blocks seen so far: a seed block and a
/// dependency list, each at most once, in any order; any other block name,
/// or a repeated one, fails.
pub open spec fn spec_parse_blocks(
    s: Seq<char>,
    pos: int,
    seed: Option<Seq<char>>,
    deps: Option<Seq<Seq<char>>>,
) -> Result<(Option<Seq<char>>, Option<Seq<Seq<char>>>), SpecCompileError>
    decreases s.len() - pos,
{
    if !(0 <= pos <= s.len()) {
        Err(SpecCompileError::Syntax { at: pos })
    } else if pos == s.len() {
        Ok((seed, deps))
    } else {
        match spec_scan_ident(s, pos) {
            None => Err(SpecCompileError::Syntax { at: pos }),
            Some((marker, e)) => {
                proof {
                    lemma_scan_ident_bounds(s, pos);
                    lemma_skip_ws_bounds(s, e);
                }
                let q1 = spec_skip_ws(s, e);
                if q1 < s.len() && s[q1] == ':' {
                    if marker == "insert"@ {
                        if seed is Some {
                            Err(SpecCompileError::DuplicateBlock { name: marker })
                        } else {
                            proof {
                                lemma_skip_ws_bounds(s, q1 + 1);
                            }
                            let q2 = spec_skip_ws(s, q1 + 1);
                            match spec_scan_block(s, q2) {
                                None => Err(SpecCompileError::Syntax { at: q2 }),
                                Some((body, e2)) => {
                                    proof {
                                        lemma_scan_block_bounds(s, q2);
                                        lemma_skip_ws_bounds(s, e2);
                                    }
                                    spec_parse_blocks(
                                        s,
                                        spec_skip_ws(s, e2),
                                        Some(body),
                                        deps,
                                    )
                                },
                            }
                        }
                    } else if marker == "requires"@ {
                        if deps is Some {
                            Err(SpecCompileError::DuplicateBlock { name: marker })
                        } else {
                            match spec_parse_requires(s, q1 + 1) {
                                Err(e2) => Err(e2),
                                Ok((names, e2)) => {
                                    proof {
                                        lemma_parse_requires_bounds(s, q1 + 1);
                                        lemma_skip_ws_bounds(s, e2);
                                    }
                                    spec_parse_blocks(
                                        s,
                                        spec_skip_ws(s, e2),
                                        seed,
                                        Some(names),
                                    )
                                },
                            }
                        }
                    } else {
                        Err(SpecCompileError::UnrecognizedBlock { found: marker })
                    }
                } else {
                    Err(SpecCompileError::Syntax { at: q1 })
                }
            },
        }
    }
}

/// The table declaration model that the whole input reads as, or the
/// diagnostic that rejecting it raises.
pub open spec fn spec_parse_table(s: Seq<char>) -> Result<SpecTable, SpecCompileError> {
    let p0 = spec_skip_ws(s, 0);
    match spec_scan_ident(s, p0) {
        None => Err(SpecCompileError::Syntax { at: p0 }),
        Some((name, after_name)) => {
            let p1 = spec_skip_ws(s, after_name);
            if p1 < s.len() && s[p1] == '(' {
                match spec_parse_fields(s, p1 + 1) {
                    Err(e) => Err(e),
                    Ok((fields, after_fields)) => {
                        match spec_parse_blocks(
                            s,
                            spec_skip_ws(s, after_fields),
                            None,
                            None,
                        ) {
                            Err(e) => Err(e),
                            Ok((seed, deps)) => Ok(
                                SpecTable { name, fields, insert: seed, requires_tables: deps },
                            ),
                        }
                    },
                }
            } else {
                Err(SpecCompileError::Syntax { at: p1 })
            }
        },
    }
}

impl Table {
    /// Parses a whole table declaration: the table name, the parenthesized
    /// field list, and any named blocks after it — a seed block
    /// (`insert: { ... }`, captured verbatim) and a dependency list
    /// (`requires: [ ... ]`), each at most once, in any order. Any other
    /// block name is a fatal diagnostic.
    pub fn parse(s: &str) -> (r: Result<Table, CompileError>)
        ensures
            match (r, spec_parse_table(s@)) {
                (Ok(t), Ok(m)) => t@ == m,
                (Err(e), Err(se)) => e@ == se,
                _ => false,
            },
    {
        let len = s.unicode_len();
        let p0 = skip_ws(s, 0);
        let (name, after_name) = match scan_ident(s, p0) {
            None => {
                return Err(CompileError::Syntax { at: p0 });
            },
            Some(x) => x,
        };
        let p1 = skip_ws(s, after_name);
        if p1 == len || s.get_char(p1) != '(' {
            return Err(CompileError::Syntax { at: p1 });
        }
        let mut q = p1 + 1;
        let mut fields: Vec<Field> = Vec::new();
        let mut after_fields: usize = 0;
        let mut closed = false;
        proof {
            assert(fields@.map_values(|f: Field| f@) =~= Seq::<SpecField>::empty());
            lemma_prepend_empty(spec_parse_fields(s@, q as int));
        }
        while !closed
            invariant
                p1 < q <= len,
                len == s@.len(),
                spec_skip_ws(s@, 0) == p0 as int,
                spec_scan_ident(s@, p0 as int) == Some((name@, after_name as int)),
                spec_skip_ws(s@, after_name as int) == p1 as int,
                p1 < len && s@[p1 as int] == '(',
                closed ==> after_fields <= len,
                !closed ==> spec_parse_fields(s@, p1 + 1) == spec_prepend(
                    fields@.map_values(|f: Field| f@),
                    spec_parse_fields(s@, q as int),
                ),
                closed ==> spec_parse_fields(s@, p1 + 1) == Ok::<_, SpecCompileError>(
                    (fields@.map_values(|f: Field| f@), after_fields as int),
                ),
            decreases len - q + (if closed {
                0int
            } else {
                1int
            }),
        {
            let ghost prefix = fields@.map_values(|f: Field| f@);
            let q2 = skip_ws(s, q);
            if q2 < len && s.get_char(q2) == ')' {
                proof {
                    assert(prefix + Seq::<SpecField>::empty() =~= prefix);
                }
                after_fields = q2 + 1;
                closed = true;
                q = q2 + 1;
            } else {
                let (f, e) = match Field::parse(s, q2) {
                    Err(err) => {
                        return Err(err);
                    },
                    Ok(x) => x,
                };
                let ghost f_view = f@;
                fields.push(f);
                proof {
                    assert(fields@.map_values(|f: Field| f@) =~= prefix.push(f_view));
                }
                let q3 = skip_ws(s, e);
                if q3 < len && s.get_char(q3) == ')' {
                    proof {
                        assert(prefix + seq![f_view] =~= prefix.push(f_view));
                    }
                    after_fields = q3 + 1;
                    closed = true;
                    q = q3 + 1;
                } else if q3 < len && s.get_char(q3) == ',' {
                    proof {
                        lemma_prepend_assoc(prefix, f_view, spec_parse_fields(s@, q3 + 1));
                    }
                    q = q3 + 1;
                } else {
                    return Err(CompileError::Syntax { at: q3 });
                }
            }
        }
        let start_blocks = skip_ws(s, after_fields);
        let mut p = start_blocks;
        let mut seed: Option<String> = None;
        let mut deps: Option<Vec<String>> = None;
        while p < len
            invariant
                p <= len,
                len == s@.len(),
                spec_skip_ws(s@, 0) == p0 as int,
                spec_scan_ident(s@, p0 as int) == Some((name@, after_name as int)),
                spec_skip_ws(s@, after_name as int) == p1 as int,
                p1 < len && s@[p1 as int] == '(',
                after_fields <= len,
                spec_parse_fields(s@, p1 + 1) == Ok::<_, SpecCompileError>(
                    (fields@.map_values(|f: Field| f@), after_fields as int),
                ),
                spec_skip_ws(s@, after_fields as int) == start_blocks as int,
                spec_parse_blocks(s@, start_blocks as int, None, None) == spec_parse_blocks(
                    s@,
                    p as int,
                    match seed {
                        Some(b) => Some(b@),
                        None => None,
                    },
                    match deps {
                        Some(d) => Some(d@.map_values(|n: String| n@)),
                        None => None,
                    },
                ),
            decreases len - p,
        {
            let (marker, e) = match scan_ident(s, p) {
                None => {
                    return Err(CompileError::Syntax { at: p });
                },
                Some(x) => x,
            };
            let q1 = skip_ws(s, e);
            if q1 == len || s.get_char(q1) != ':' {
                return Err(CompileError::Syntax { at: q1 });
            }
            if str_eq(marker.as_str(), "insert") {
                if seed.is_some() {
                    return Err(CompileError::DuplicateBlock { name: marker });
                }
                let q2 = skip_ws(s, q1 + 1);
                match scan_block(s, q2) {
                    None => {
                        return Err(CompileError::Syntax { at: q2 });
                    },
                    Some((body, e2)) => {
                        seed = Some(body);
                        p = skip_ws(s, e2);
                    },
                }
            } else if str_eq(marker.as_str(), "requires") {
                if deps.is_some() {
                    return Err(CompileError::DuplicateBlock { name: marker });
                }
                match parse_requires_list(s, q1 + 1) {
                    Err(err) => {
                        return Err(err);
                    },
                    Ok((names, e2)) => {
                        deps = Some(names);
                        p = skip_ws(s, e2);
                    },
                }
            } else {
                return Err(CompileError::UnrecognizedBlock { found: marker });
            }
        }
        Ok(Table { name, fields, insert: seed, requires_tables: deps })
    }
}

/// Checks the schema invariants: a table must have at least one field, and
/// no two fields may share a name. Succeeds exactly on well-formed tables.
pub fn validate(t: &Table) -> (r: Result<(), CompileError>)
    ensures
        r is Ok <==> t.wf(),
        match r {
            Ok(_) => t.wf(),
            Err(e) => match e {
                CompileError::NoFields => t.fields@.len() == 0,
                CompileError::DuplicateField { name } => exists|i: int, j: int|
                    0 <= i < j < t.fields@.len() && t.fields@[i].name@ == t.fields@[j].name@
                        && name@ == t.fields@[j].name@,
                _ => false,
            },
        },
{
    let n = t.fields.len();
    if n == 0 {
        return Err(CompileError::NoFields);
    }
    let mut j: usize = 1;
    while j < n
        invariant
            1 <= j <= n,
            n == t.fields@.len(),
            forall|i2: int, j2: int|
                0 <= i2 < j2 < j ==> t.fields@[i2].name@ != t.fields@[j2].name@,
        decreases n - j,
    {
        let mut i: usize = 0;
        while i < j
            invariant
                0 <= i <= j < n,
                n == t.fields@.len(),
                forall|i2: int| 0 <= i2 < i ==> t.fields@[i2].name@ != t.fields@[j as int].name@,
            decreases j - i,
        {
            if str_eq(t.fields[i].name.as_str(), t.fields[j].name.as_str()) {
                return Err(CompileError::DuplicateField { name: t.fields[j].name.clone() });
            }
            i = i + 1;
        }
        j = j + 1;
    }
    Ok(())
}

/// The storage type of a field in data-definition text: the storage name,
/// with ` NOT NULL` appended exactly when the field is not nullable.
pub open spec fn spec_sql_field_ty(ty: FieldType) -> Seq<char> {
    spec_storage_name(ty.kind) + (if ty.nullable {
        Seq::<char>::empty()
    } else {
        " NOT NULL"@
    })
}

/// Renders the storage type of one field for the data-definition text.
pub fn sql_field_ty(ty: &FieldType) -> (r: String)
    ensures
        r@ == spec_sql_field_ty(*ty),
{
    let mut s = String::from_str(storage_name(ty.kind));
    if !ty.nullable {
        s.append(" NOT NULL");
    }
    proof {
        assert(s@ =~= spec_sql_field_ty(*ty));
    }
    s
}

/// One line of the data-definition field list.
pub open spec fn spec_field_line(f: Field) -> Seq<char> {
    "    "@ + f.name@ + " "@ + spec_sql_field_ty(f.ty)
}

/// The data-definition field list: one line per field in declared order,
/// joined by commas.
pub open spec fn spec_fields_sql(fields: Seq<Field>) -> Seq<char>
    decreases fields.len(),
{
    if fields.len() == 0 {
        Seq::<char>::empty()
    } else if fields.len() == 1 {
        spec_field_line(fields[0])
    } else {
        spec_fields_sql(fields.drop_last()) + ",\n"@ + spec_field_line(fields.last())
    }
}

proof fn lemma_fields_sql_step(fields: Seq<Field>, i: int)
    requires
        0 <= i < fields.len(),
    ensures
        spec_fields_sql(fields.take(i + 1)) == if i == 0 {
            spec_field_line(fields[0])
        } else {
            spec_fields_sql(fields.take(i)) + ",\n"@ + spec_field_line(fields[i])
        },
{
    let t = fields.take(i + 1);
    if i == 0 {
        assert(t[0] == fields[0]);
    } else {
        assert(t.drop_last() =~= fields.take(i));
        assert(t.last() == fields[i]);
    }
}

/// Renders the data-definition field list in field-declaration order.
pub fn sql_fields(fields: &Vec<Field>) -> (r: String)
    ensures
        r@ == spec_fields_sql(fields@),
{
    let mut sql = String::new();
    let mut i: usize = 0;
    while i < fields.len()
        invariant
            i <= fields@.len(),
            sql@ == spec_fields_sql(fields@.take(i as int)),
        decreases fields@.len() - i,
    {
        if i > 0 {
            sql.append(",\n");
        }
        sql.append("    ");
        sql.append(fields[i].name.as_str());
        sql.append(" ");
        let ty = sql_field_ty(&fields[i].ty);
        sql.append(ty.as_str());
        proof {
            lemma_fields_sql_step(fields@, i as int);
            assert(sql@ =~= spec_fields_sql(fields@.take(i as int + 1)));
        }
        i = i + 1;
    }
    proof {
        assert(fields@.take(fields@.len() as int) =~= fields@);
    }
    sql
}

/// The name of the generated zero-argument seeding function of a table.
pub open spec fn spec_insert_fn_name(table: Seq<char>) -> Seq<char> {
    "__table_builder_insert_"@ + table
}

/// The unique generation-scoped name under which a table's data-definition
/// text is registered with the host's load-time registration sink.
pub open spec fn spec_registration_name(table: Seq<char>) -> Seq<char> {
    "__CREATE_TABLE_"@ + table
}

/// The install-time seeding statements: invoke the generated seeding
/// function exactly once, then drop it so no residual callable remains.
pub open spec fn spec_seed_sql(table: Seq<char>) -> Seq<char> {
    "INSERT INTO "@ + table + " SELECT * FROM \""@ + spec_insert_fn_name(table) + "\"();\n"@
        + "DROP FUNCTION \""@ + spec_insert_fn_name(table) + "\";\n"@
}

/// The complete data-definition text of a table: the CREATE TABLE statement
/// over the declared fields in order, followed by the seeding statements
/// exactly when a seed block was declared.
pub open spec fn spec_create_table_sql(t: Table) -> Seq<char> {
    "CREATE TABLE "@ + t.name@ + " (\n"@ + spec_fields_sql(t.fields@) + "\n);\n"@ + (
    if t.insert is Some {
        spec_seed_sql(t.name@)
    } else {
        Seq::<char>::empty()
    })
}

/// The generated install-time seeding function of a table: its name and the
/// raw text of its body (the declared seed block).
#[derive(Debug)]
pub struct InsertFn {
    pub name: String,
    pub body: String,
}

/// Everything the schema compiler emits for one table declaration.
#[derive(Debug)]
pub struct SchemaArtifact {
    pub table: Table,
    pub create_sql: String,
    pub registration_name: String,
    pub insert_fn: Option<InsertFn>,
}

impl SchemaArtifact {
    /// The artifact is exactly what the schema compiler emits for its table
    /// model: the data-definition text, the registration name, and the
    /// seeding function exactly when a seed block was declared.
    pub open spec fn wf(&self) -> bool {
        &&& self.create_sql@ == spec_create_table_sql(self.table)
        &&& self.registration_name@ == spec_registration_name(self.table.name@)
        &&& match self.table.insert {
            Some(body) => self.insert_fn matches Some(f) && f.name@ == spec_insert_fn_name(
                self.table.name@,
            ) && f.body@ == body@,
            None => self.insert_fn is None,
        }
    }
}

/// Emits all artifacts for a table model: the data-definition text (with the
/// seeding statements when a seed block is present), the registration name,
/// and the generated seeding function.
pub fn expand(t: Table) -> (r: SchemaArtifact)
    ensures
        r.table == t,
        r.wf(),
{
    let fields_sql = sql_fields(&t.fields);
    let mut create_sql = String::from_str("CREATE TABLE ");
    create_sql.append(t.name.as_str());
    create_sql.append(" (\n");
    create_sql.append(fields_sql.as_str());
    create_sql.append("\n);\n");
    let insert_fn: Option<InsertFn> = match &t.insert {
        Some(body) => {
            let mut fn_name = String::from_str("__table_builder_insert_");
            fn_name.append(t.name.as_str());
            create_sql.append("INSERT INTO ");
            create_sql.append(t.name.as_str());
            create_sql.append(" SELECT * FROM \"");
            create_sql.append(fn_name.as_str());
            create_sql.append("\"();\n");
            create_sql.append("DROP FUNCTION \"");
            create_sql.append(fn_name.as_str());
            create_sql.append("\";\n");
            Some(InsertFn { name: fn_name, body: body.clone() })
        },
        None => None,
    };
    let mut registration_name = String::from_str("__CREATE_TABLE_");
    registration_name.append(t.name.as_str());
    proof {
        assert(create_sql@ =~= spec_create_table_sql(t));
        assert(registration_name@ =~= spec_registration_name(t.name@));
    }
    SchemaArtifact { table: t, create_sql, registration_name, insert_fn }
}

/// A record of a table, as a dynamic value list in field-declaration order;
/// an absent entry stands for a stored NULL.
#[derive(Debug)]
pub struct Record {
    pub values: Vec<Option<Value>>,
}

/// Records are produced against a schema-compiled table model, so they carry
/// the marker capability.
impl PgTable for Record {

}

/// A record fits its table: one value slot per field in order, each present
/// value of the field's kind, and absence only where the field is nullable.
pub open spec fn spec_record_wf(t: Table, vals: Seq<Option<Value>>) -> bool {
    &&& vals.len() == t.fields@.len()
    &&& forall|i: int| 0 <= i < vals.len() ==> spec_cell_ok(t.fields@[i].ty, #[trigger] vals[i])
}

/// The ordered (storage-type tag, value) pairs extracted from a record: one
/// pair per field in field-declaration order, tagged with the field's
/// declared kind.
pub open spec fn spec_to_values(fields: Seq<Field>, vals: Seq<Option<Value>>) -> Seq<
    (ScalarKind, Option<Value>),
> {
    Seq::new(vals.len(), |i: int| (fields[i].ty.kind, vals[i]))
}

impl Record {
    /// The value-extraction accessor: destructures the record into exactly
    /// one (storage-type tag, optionally-present value) pair per field, in
    /// field-declaration order — the payload shape a parameterized statement
    /// execution needs.
    pub fn to_values_vec(&self, t: &Table) -> (r: Vec<(ScalarKind, Option<Value>)>)
        requires
            self.values@.len() == t.fields@.len(),
        ensures
            r@.len() == t.fields@.len(),
            forall|i: int|
                0 <= i < r@.len() ==> r@[i] == (t.fields@[i].ty.kind, self.values@[i]),
            r@ == spec_to_values(t.fields@, self.values@),
    {
        let n = t.fields.len();
        let mut r: Vec<(ScalarKind, Option<Value>)> = Vec::new();
        let mut i: usize = 0;
        while i < n
            invariant
                i <= n,
                n == t.fields@.len(),
                self.values@.len() == n,
                r@.len() == i,
                forall|j: int|
                    0 <= j < i ==> r@[j] == (t.fields@[j].ty.kind, self.values@[j]),
            decreases n - i,
        {
            let v = clone_cell(&self.values[i]);
            r.push((t.fields[i].ty.kind, v));
            i = i + 1;
        }
        proof {
            assert(r@ =~= spec_to_values(t.fields@, self.values@));
        }
        r
    }
}

/// The first table with the given name, in registration order.
pub open spec fn spec_find_table(tables: Seq<Table>, name: Seq<char>) -> Option<Table>
    decreases tables.len(),
{
    if tables.len() == 0 {
        None
    } else if tables[0].name@ == name {
        Some(tables[0])
    } else {
        spec_find_table(tables.drop_first(), name)
    }
}

proof fn lemma_find_table_skip(tables: Seq<Table>, name: Seq<char>, i: int)
    requires
        0 <= i <= tables.len(),
        forall|j: int| 0 <= j < i ==> tables[j].name@ != name,
    ensures
        spec_find_table(tables, name) == spec_find_table(tables.skip(i), name),
    decreases i,
{
    if i > 0 {
        lemma_find_table_skip(tables, name, i - 1);
        assert(tables.skip(i - 1).len() > 0);
        assert(tables.skip(i - 1)[0] == tables[i - 1]);
        assert(tables.skip(i - 1).drop_first() =~= tables.skip(i));
    } else {
        assert(tables.skip(0) =~= tables);
    }
}

/// The registry of compiled schemas: the query compiler resolves table and
/// field references through it instead of re-deriving them.
#[derive(Debug)]
pub struct SchemaRegistry {
    pub tables: Vec<Table>,
}

impl SchemaRegistry {
    /// An empty registry.
    pub fn new() -> (r: Self)
        ensures
            r.tables@ =~= Seq::<Table>::empty(),
    {
        SchemaRegistry { tables: Vec::new() }
    }

    /// Registers a compiled table model. Names must be unique across the
    /// registry: a second registration under an existing name is rejected as
    /// a fatal error and leaves the registry unchanged.
    pub fn register(&mut self, t: Table) -> (r: Result<(), CompileError>)
        ensures
            match r {
                Ok(_) => spec_find_table(old(self).tables@, t.name@) is None
                    && final(self).tables@ == old(self).tables@.push(t),
                Err(e) => {
                    &&& (e matches CompileError::DuplicateTable { name } && name@ == t.name@)
                    &&& spec_find_table(old(self).tables@, t.name@) is Some
                    &&& final(self).tables@ == old(self).tables@
                },
            },
    {
        let n = self.tables.len();
        let mut i: usize = 0;
        while i < n
            invariant
                i <= n,
                n == self.tables@.len(),
                forall|j: int| 0 <= j < i ==> self.tables@[j].name@ != t.name@,
        decreases n - i,
        {
            if str_eq(self.tables[i].name.as_str(), t.name.as_str()) {
                proof {
                    lemma_find_table_skip(self.tables@, t.name@, i as int);
                    assert(self.tables@.skip(i as int)[0] == self.tables@[i as int]);
                }
                return Err(CompileError::DuplicateTable { name: t.name.clone() });
            }
            i = i + 1;
        }
        proof {
            lemma_find_table_skip(self.tables@, t.name@, n as int);
            assert(self.tables@.skip(n as int) =~= Seq::<Table>::empty());
        }
        self.tables.push(t);
        Ok(())
    }

    /// Looks up the table registered under `name`.
    pub fn lookup(&self, name: &str) -> (r: Option<&Table>)
        ensures
            match r {
                Some(tb) => spec_find_table(self.tables@, name@) == Some(*tb),
                None => spec_find_table(self.tables@, name@) is None,
            },
    {
        let n = self.tables.len();
        let mut i: usize = 0;
        while i < n
            invariant
                i <= n,
                n == self.tables@.len(),
                forall|j: int| 0 <= j < i ==> self.tables@[j].name@ != name@,
            decreases n - i,
        {
            if str_eq(self.tables[i].name.as_str(), name) {
                proof {
                    lemma_find_table_skip(self.tables@, name@, i as int);
                    assert(self.tables@.skip(i as int)[0] == self.tables@[i as int]);
                }
                return Some(&self.tables[i]);
            }
            i = i + 1;
        }
        proof {
            lemma_find_table_skip(self.tables@, name@, n as int);
            assert(self.tables@.skip(n as int) =~= Seq::<Table>::empty());
        }
        None
    }
}

} // verus!
