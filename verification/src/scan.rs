//! Small text utilities shared by the schema and query compilers: a
//! character scanner for the declaration grammar and decimal rendering for
//! statement parameters.

use vstd::prelude::*;

verus! {

/// Character-for-character string equality, decided executably.
pub fn str_eq(a: &str, b: &str) -> (r: bool)
    ensures
        r == (a@ == b@),
{
    let alen = a.unicode_len();
    let blen = b.unicode_len();
    if alen != blen {
        return false;
    }
    let mut i: usize = 0;
    while i < alen
        invariant
            i <= alen,
            alen == a@.len(),
            alen == b@.len(),
            forall|j: int| 0 <= j < i ==> a@[j] == b@[j],
        decreases alen - i,
    {
        if a.get_char(i) != b.get_char(i) {
            return false;
        }
        i = i + 1;
    }
    proof {
        assert(a@ =~= b@);
    }
    true
}

/// Whitespace accepted between the tokens of a declaration.
pub open spec fn is_ws(c: char) -> bool {
    c == ' ' || c == '\n' || c == '\t' || c == '\r'
}

/// A character that may start an identifier.
pub open spec fn is_ident_start(c: char) -> bool {
    ('a' as u32 <= c as u32 && c as u32 <= 'z' as u32) || ('A' as u32 <= c as u32 && c as u32
        <= 'Z' as u32) || c == '_'
}

/// A character that may continue an identifier.
pub open spec fn is_ident_char(c: char) -> bool {
    is_ident_start(c) || ('0' as u32 <= c as u32 && c as u32 <= '9' as u32)
}

fn ws_char(c: char) -> (r: bool)
    ensures
        r == is_ws(c),
{
    c == ' ' || c == '\n' || c == '\t' || c == '\r'
}

fn ident_start_char(c: char) -> (r: bool)
    ensures
        r == is_ident_start(c),
{
    (c as u32 >= 'a' as u32 && c as u32 <= 'z' as u32) || (c as u32 >= 'A' as u32 && c as u32
        <= 'Z' as u32) || c == '_'
}

fn ident_char(c: char) -> (r: bool)
    ensures
        r == is_ident_char(c),
{
    ident_start_char(c) || (c as u32 >= '0' as u32 && c as u32 <= '9' as u32)
}

/// The first position at or after `pos` whose character is not whitespace
/// (or the end of the input).
pub open spec fn spec_skip_ws(s: Seq<char>, pos: int) -> int
    decreases s.len() - pos,
{
    if 0 <= pos < s.len() && is_ws(s[pos]) {
        spec_skip_ws(s, pos + 1)
    } else {
        pos
    }
}

pub proof fn lemma_skip_ws_bounds(s: Seq<char>, pos: int)
    requires
        0 <= pos <= s.len(),
    ensures
        pos <= spec_skip_ws(s, pos) <= s.len(),
    decreases s.len() - pos,
{
    if pos < s.len() && is_ws(s[pos]) {
        lemma_skip_ws_bounds(s, pos + 1);
    }
}

/// Advances past whitespace: returns the first position at or after `pos`
/// whose character is not whitespace (or the end of the input).
pub fn skip_ws(s: &str, pos: usize) -> (r: usize)
    requires
        pos <= s@.len(),
    ensures
        pos <= r <= s@.len(),
        forall|j: int| pos <= j < r ==> is_ws(s@[j]),
        r < s@.len() ==> !is_ws(s@[r as int]),
        r == spec_skip_ws(s@, pos as int),
{
    let len = s.unicode_len();
    let mut i = pos;
    while i < len
        invariant
            pos <= i <= len,
            len == s@.len(),
            forall|j: int| pos <= j < i ==> is_ws(s@[j]),
            spec_skip_ws(s@, pos as int) == spec_skip_ws(s@, i as int),
        decreases len - i,
    {
        if !ws_char(s.get_char(i)) {
            return i;
        }
        i = i + 1;
    }
    i
}

/// The end of the run of identifier characters that starts at `pos`.
pub open spec fn spec_ident_end(s: Seq<char>, pos: int) -> int
    decreases s.len() - pos,
{
    if 0 <= pos < s.len() && is_ident_char(s[pos]) {
        spec_ident_end(s, pos + 1)
    } else {
        pos
    }
}

pub proof fn lemma_ident_end_bounds(s: Seq<char>, pos: int)
    requires
        0 <= pos <= s.len(),
    ensures
        pos <= spec_ident_end(s, pos) <= s.len(),
    decreases s.len() - pos,
{
    if pos < s.len() && is_ident_char(s[pos]) {
        lemma_ident_end_bounds(s, pos + 1);
    }
}

/// The identifier that starts at `pos` — the longest run of identifier
/// characters beginning with an identifier-start character — and the
/// position just past it; nothing if no identifier starts at `pos`.
pub open spec fn spec_scan_ident(s: Seq<char>, pos: int) -> Option<(Seq<char>, int)> {
    if 0 <= pos < s.len() && is_ident_start(s[pos]) {
        Some((s.subrange(pos, spec_ident_end(s, pos)), spec_ident_end(s, pos)))
    } else {
        None
    }
}

pub proof fn lemma_scan_ident_bounds(s: Seq<char>, pos: int)
    requires
        0 <= pos <= s.len(),
        spec_scan_ident(s, pos) is Some,
    ensures
        pos < spec_scan_ident(s, pos).unwrap().1 <= s.len(),
{
    lemma_ident_end_bounds(s, pos + 1);
}

/// Scans the identifier that starts at `pos`: the longest run of identifier
/// characters beginning with an identifier-start character. Returns the
/// identifier and the position just past it, or `None` if no identifier
/// starts at `pos`.
pub fn scan_ident(s: &str, pos: usize) -> (r: Option<(String, usize)>)
    requires
        pos <= s@.len(),
    ensures
        match r {
            Some((id, end)) => {
                &&& pos < end <= s@.len()
                &&& id@ == s@.subrange(pos as int, end as int)
                &&& is_ident_start(s@[pos as int])
                &&& forall|j: int| pos <= j < end ==> is_ident_char(s@[j])
                &&& (end == s@.len() || !is_ident_char(s@[end as int]))
                &&& spec_scan_ident(s@, pos as int) == Some((id@, end as int))
            },
            None => {
                &&& pos == s@.len() || !is_ident_start(s@[pos as int])
                &&& spec_scan_ident(s@, pos as int) is None
            },
        },
{
    let len = s.unicode_len();
    if pos == len || !ident_start_char(s.get_char(pos)) {
        return None;
    }
    let mut end = pos + 1;
    while end < len && ident_char(s.get_char(end))
        invariant
            pos < end <= len,
            len == s@.len(),
            forall|j: int| pos <= j < end ==> is_ident_char(s@[j]),
            spec_ident_end(s@, pos as int) == spec_ident_end(s@, end as int),
            is_ident_start(s@[pos as int]),
        decreases len - end,
    {
        end = end + 1;
    }
    let id = String::from_str(s.substring_char(pos, end));
    Some((id, end))
}

/// Prepends already-built content to the outcome of scanning the rest of a
/// string literal.
pub open spec fn spec_prepend_lit(prefix: Seq<char>, r: Option<(Seq<char>, int)>) -> Option<
    (Seq<char>, int),
> {
    match r {
        None => None,
        Some((rest, end)) => Some((prefix + rest, end)),
    }
}

pub proof fn lemma_prepend_lit_assoc(prefix: Seq<char>, x: char, r: Option<(Seq<char>, int)>)
    ensures
        spec_prepend_lit(prefix, spec_prepend_lit(seq![x], r)) == spec_prepend_lit(
            prefix.push(x),
            r,
        ),
{
    match r {
        None => {},
        Some((rest, end)) => {
            assert(prefix + (seq![x] + rest) =~= prefix.push(x) + rest);
        },
    }
}

pub proof fn lemma_prepend_lit_empty(r: Option<(Seq<char>, int)>)
    ensures
        spec_prepend_lit(Seq::<char>::empty(), r) == r,
{
    match r {
        None => {},
        Some((rest, end)) => {
            assert(Seq::<char>::empty() + rest =~= rest);
        },
    }
}

/// The body of a string literal from `pos` (just past the opening quote) to
/// its closing quote: plain characters stand for themselves, a backslash
/// escapes a double quote or a backslash, and the content ends at the first
/// unescaped double quote. Yields the unescaped content and the position
/// just past the closing quote; nothing if the literal never closes or a
/// backslash precedes any other character.
pub open spec fn spec_strlit_body(s: Seq<char>, pos: int) -> Option<(Seq<char>, int)>
    decreases s.len() - pos,
{
    if !(0 <= pos < s.len()) {
        None
    } else if s[pos] == '"' {
        Some((Seq::<char>::empty(), pos + 1))
    } else if s[pos] == '\\' {
        if pos + 1 < s.len() && (s[pos + 1] == '"' || s[pos + 1] == '\\') {
            spec_prepend_lit(seq![s[pos + 1]], spec_strlit_body(s, pos + 2))
        } else {
            None
        }
    } else {
        spec_prepend_lit(seq![s[pos]], spec_strlit_body(s, pos + 1))
    }
}

/// The string literal that starts at `pos` — a double quote, a body whose
/// backslash escapes stand for a double quote or a backslash, and a closing
/// double quote — as its unescaped content and the position just past the
/// closing quote; nothing if no complete literal starts at `pos`.
pub open spec fn spec_scan_strlit(s: Seq<char>, pos: int) -> Option<(Seq<char>, int)> {
    if 0 <= pos < s.len() && s[pos] == '"' {
        spec_strlit_body(s, pos + 1)
    } else {
        None
    }
}

/// Scans the string literal that starts at `pos`: a double quote, content in
/// which `\\"` and `\\\\` stand for a double quote and a backslash, and a
/// closing double quote. Returns the unescaped content and the position just
/// past the closing quote.
pub fn scan_strlit(s: &str, pos: usize) -> (r: Option<(String, usize)>)
    requires
        pos <= s@.len(),
    ensures
        match r {
            Some((content, end)) => {
                &&& pos + 2 <= end <= s@.len()
                &&& s@[pos as int] == '"'
                &&& spec_scan_strlit(s@, pos as int) == Some((content@, end as int))
            },
            None => spec_scan_strlit(s@, pos as int) is None,
        },
{
    let len = s.unicode_len();
    if pos == len || s.get_char(pos) != '"' {
        return None;
    }
    let mut content = String::new();
    let mut seg_start = pos + 1;
    let mut i = pos + 1;
    proof {
        lemma_prepend_lit_empty(spec_strlit_body(s@, pos + 1));
        assert(content@ + s@.subrange(seg_start as int, i as int) =~= Seq::<char>::empty());
    }
    loop
        invariant
            pos < seg_start <= i <= len,
            len == s@.len(),
            s@[pos as int] == '"',
            spec_strlit_body(s@, pos + 1) == spec_prepend_lit(
                content@ + s@.subrange(seg_start as int, i as int),
                spec_strlit_body(s@, i as int),
            ),
        decreases len - i,
    {
        let ghost prefix = content@ + s@.subrange(seg_start as int, i as int);
        if i == len {
            return None;
        }
        let c = s.get_char(i);
        if c == '"' {
            let seg = s.substring_char(seg_start, i);
            content.append(seg);
            proof {
                assert(content@ =~= prefix);
                assert(prefix + Seq::<char>::empty() =~= prefix);
            }
            return Some((content, i + 1));
        }
        if c == '\\' {
            if i + 1 == len {
                return None;
            }
            let d = s.get_char(i + 1);
            if d == '"' || d == '\\' {
                let seg = s.substring_char(seg_start, i);
                content.append(seg);
                if d == '"' {
                    content.append("\"");
                } else {
                    content.append("\\");
                }
                proof {
                    reveal_strlit("\"");
                    reveal_strlit("\\");
                    lemma_prepend_lit_assoc(prefix, s@[i + 1], spec_strlit_body(s@, i + 2));
                    assert(content@ + s@.subrange(i + 2, i + 2) =~= prefix.push(s@[i + 1]));
                }
                i = i + 2;
                seg_start = i;
            } else {
                return None;
            }
        } else {
            proof {
                lemma_prepend_lit_assoc(prefix, s@[i as int], spec_strlit_body(s@, i + 1));
                assert(content@ + s@.subrange(seg_start as int, i + 1) =~= prefix.push(
                    s@[i as int],
                ));
            }
            i = i + 1;
        }
    }
}

/// The position just past the brace that closes a block already `depth`
/// braces deep at `pos`; nothing if the input ends first.
pub open spec fn spec_block_end(s: Seq<char>, pos: int, depth: nat) -> Option<int>
    decreases s.len() - pos,
{
    if !(0 <= pos < s.len()) {
        None
    } else if s[pos] == '{' {
        spec_block_end(s, pos + 1, depth + 1)
    } else if s[pos] == '}' {
        if depth == 1 {
            Some(pos + 1)
        } else {
            spec_block_end(s, pos + 1, (depth - 1) as nat)
        }
    } else {
        spec_block_end(s, pos + 1, depth)
    }
}

pub proof fn lemma_block_end_bounds(s: Seq<char>, pos: int, depth: nat)
    requires
        spec_block_end(s, pos, depth) is Some,
    ensures
        pos < spec_block_end(s, pos, depth).unwrap() <= s.len(),
    decreases s.len() - pos,
{
    if 0 <= pos < s.len() {
        if s[pos] == '{' {
            lemma_block_end_bounds(s, pos + 1, depth + 1);
        } else if s[pos] == '}' {
            if depth != 1 {
                lemma_block_end_bounds(s, pos + 1, (depth - 1) as nat);
            }
        } else {
            lemma_block_end_bounds(s, pos + 1, depth);
        }
    }
}

/// The brace block that starts at `pos` — an opening brace, raw content with
/// balanced braces, the matching closing brace — as its raw content and the
/// position just past the closing brace; nothing if no complete block starts
/// at `pos`.
pub open spec fn spec_scan_block(s: Seq<char>, pos: int) -> Option<(Seq<char>, int)> {
    if 0 <= pos < s.len() && s[pos] == '{' {
        match spec_block_end(s, pos + 1, 1) {
            Some(end) => Some((s.subrange(pos + 1, end - 1), end)),
            None => None,
        }
    } else {
        None
    }
}

pub proof fn lemma_scan_block_bounds(s: Seq<char>, pos: int)
    requires
        0 <= pos <= s.len(),
        spec_scan_block(s, pos) is Some,
    ensures
        pos < spec_scan_block(s, pos).unwrap().1 <= s.len(),
{
    lemma_block_end_bounds(s, pos + 1, 1);
}

/// Scans the brace block that starts at `pos`: an opening brace, raw content
/// with balanced braces, and the matching closing brace. Returns the raw
/// content and the position just past the closing brace.
pub fn scan_block(s: &str, pos: usize) -> (r: Option<(String, usize)>)
    requires
        pos <= s@.len(),
    ensures
        match r {
            Some((content, end)) => {
                &&& pos + 2 <= end <= s@.len()
                &&& s@[pos as int] == '{'
                &&& s@[end - 1] == '}'
                &&& content@ == s@.subrange(pos + 1, end - 1)
                &&& spec_scan_block(s@, pos as int) == Some((content@, end as int))
            },
            None => spec_scan_block(s@, pos as int) is None,
        },
{
    let len = s.unicode_len();
    if pos == len || s.get_char(pos) != '{' {
        return None;
    }
    let mut end = pos + 1;
    let mut depth: usize = 1;
    while end < len && depth > 0
        invariant
            pos < end <= len,
            len == s@.len(),
            depth <= end - pos,
            depth == 0 ==> pos + 2 <= end && s@[end - 1] == '}',
            depth > 0 ==> spec_block_end(s@, pos + 1, 1) == spec_block_end(
                s@,
                end as int,
                depth as nat,
            ),
            depth == 0 ==> spec_block_end(s@, pos + 1, 1) == Some(end as int),
        decreases len - end,
    {
        let c = s.get_char(end);
        if c == '{' {
            proof {
                assert(depth < end - pos + 1);
            }
            depth = depth + 1;
        } else if c == '}' {
            depth = depth - 1;
        }
        end = end + 1;
    }
    if depth != 0 {
        return None;
    }
    let content = String::from_str(s.substring_char(pos + 1, end - 1));
    Some((content, end))
}

/// The decimal digit characters.
pub open spec fn spec_digit_char(d: int) -> char {
    if d == 0 {
        '0'
    } else if d == 1 {
        '1'
    } else if d == 2 {
        '2'
    } else if d == 3 {
        '3'
    } else if d == 4 {
        '4'
    } else if d == 5 {
        '5'
    } else if d == 6 {
        '6'
    } else if d == 7 {
        '7'
    } else if d == 8 {
        '8'
    } else {
        '9'
    }
}

/// The decimal rendering of a non-negative integer, most significant digit
/// first, with no leading zero except for zero itself.
pub open spec fn spec_dec(n: nat) -> Seq<char>
    decreases n,
{
    if n < 10 {
        seq![spec_digit_char(n as int)]
    } else {
        spec_dec(n / 10).push(spec_digit_char((n % 10) as int))
    }
}

fn digit_str(d: usize) -> (r: &'static str)
    requires
        d < 10,
    ensures
        r@ == seq![spec_digit_char(d as int)],
{
    let r = match d {
        0 => "0",
        1 => "1",
        2 => "2",
        3 => "3",
        4 => "4",
        5 => "5",
        6 => "6",
        7 => "7",
        8 => "8",
        _ => "9",
    };
    proof {
        reveal_strlit("0");
        reveal_strlit("1");
        reveal_strlit("2");
        reveal_strlit("3");
        reveal_strlit("4");
        reveal_strlit("5");
        reveal_strlit("6");
        reveal_strlit("7");
        reveal_strlit("8");
        reveal_strlit("9");
        assert(r@ =~= seq![spec_digit_char(d as int)]);
    }
    r
}

/// Renders `n` in decimal.
pub fn usize_to_string(n: usize) -> (r: String)
    ensures
        r@ == spec_dec(n as nat),
    decreases n,
{
    if n < 10 {
        String::from_str(digit_str(n))
    } else {
        let mut s = usize_to_string(n / 10);
        s.append(digit_str(n % 10));
        proof {
            assert(s@ =~= spec_dec(n as nat));
        }
        s
    }
}

} // verus!
