pub mod str_utils;

use vstd::prelude::*;

use crate::parser::syntax::digits_value;
use crate::utils::{all_white_space, append, chars_of, owned, push_char, IsWhitespace};

verus! {

/// A token of the earlier tower syntax (`fn name = body ;`).
#[derive(Debug)]
pub enum Token {
    Keyword(KeywordType),
    Identifier(String),
    Literal(Literal),
}

#[derive(Debug, PartialEq, Eq, Clone, Copy, Structural)]
pub enum KeywordType {
    /// `fn`
    Fn,
    /// `=`
    FnDef,
    /// `;`
    FnEnd,
    /// `{`
    AnonFnOpen,
    /// `}`
    AnonFnClose,
    /// `<-`
    ReorderBefore,
}

/// A literal token. A floating-point literal is held as the bits of its value (as
/// `f64::to_bits` gives them).
#[derive(Debug)]
pub enum Literal {
    U64(u64),
    I64(i64),
    F64(u64),
    Bool(bool),
    String(String),
    FnPtr(String),
}

/// A token and how many grapheme clusters of the source it takes up.
pub struct ParsedToken {
    pub token: Token,
    pub len: usize,
}

/// The mathematical value of a `Literal`.
pub enum SpecLexLiteral {
    U64(u64),
    I64(i64),
    F64(u64),
    Bool(bool),
    String(Seq<char>),
    FnPtr(Seq<char>),
}

/// The mathematical value of a `Token`.
pub enum SpecToken {
    Keyword(KeywordType),
    Identifier(Seq<char>),
    Literal(SpecLexLiteral),
}

impl View for Literal {
    type V = SpecLexLiteral;

    open spec fn view(&self) -> SpecLexLiteral {
        match self {
            Literal::U64(v) => SpecLexLiteral::U64(*v),
            Literal::I64(v) => SpecLexLiteral::I64(*v),
            Literal::F64(v) => SpecLexLiteral::F64(*v),
            Literal::Bool(v) => SpecLexLiteral::Bool(*v),
            Literal::String(s) => SpecLexLiteral::String(s@),
            Literal::FnPtr(s) => SpecLexLiteral::FnPtr(s@),
        }
    }
}

impl View for Token {
    type V = SpecToken;

    open spec fn view(&self) -> SpecToken {
        match self {
            Token::Keyword(k) => SpecToken::Keyword(*k),
            Token::Identifier(s) => SpecToken::Identifier(s@),
            Token::Literal(l) => SpecToken::Literal(l@),
        }
    }
}

impl ParsedToken {
    pub fn new(token: Token, len: usize) -> (r: Self)
        ensures
            r.token@ == token@,
            r.len == len,
    {
        ParsedToken { token, len }
    }
}

// ---------------------------------------------------------------- grapheme clusters

/// The extended grapheme clusters of a text, in order, as unicode-segmentation splits it.
pub uninterp spec fn extended_graphemes(s: Seq<char>) -> Seq<Seq<char>>;

/// The concatenation of `gs[a..b]`.
pub open spec fn joined(gs: Seq<Seq<char>>, a: int, b: int) -> Seq<char>
    decreases b - a,
{
    if a >= b || a < 0 || b > gs.len() {
        Seq::empty()
    } else {
        joined(gs, a, b - 1) + gs[b - 1]
    }
}

/// unicode-segmentation's `UnicodeSegmentation::graphemes(code, true)`, collected.
/// Trusted: the contract claims that the clusters are those the crate splits `code` into,
/// that none is empty, and that together they make up `code` (the crate's iterator hands
/// out consecutive slices of the text, each ending at the next boundary after its start).
#[verifier::external_body]
fn graphemes_of(code: &str) -> (r: Vec<String>)
    ensures
        r@.map_values(|g: String| g@) == extended_graphemes(code@),
        forall|i: int| 0 <= i < r@.len() ==> (#[trigger] r@[i])@.len() > 0,
        joined(r@.map_values(|g: String| g@), 0, r@.len() as int) == code@,
{
    unicode_segmentation::UnicodeSegmentation::graphemes(code, true).map(|g| g.to_owned()).collect()
}

/// The first index at or after `idx` whose grapheme cluster is whitespace, or the end.
pub open spec fn ws_index(gs: Seq<Seq<char>>, idx: int) -> int
    decreases gs.len() - idx,
{
    if idx < 0 || idx >= gs.len() {
        gs.len() as int
    } else if all_white_space(gs[idx]) {
        idx
    } else {
        ws_index(gs, idx + 1)
    }
}

/// The text from cluster `idx` up to the next whitespace cluster, and how many clusters
/// that is.
pub open spec fn until_whitespace(gs: Seq<Seq<char>>, idx: int) -> (Seq<char>, int) {
    let w = ws_index(gs, idx);
    (joined(gs, idx, w), w - idx)
}

/// The keyword spelt `code`, if it is one.
pub open spec fn keyword_of(code: Seq<char>) -> Option<KeywordType> {
    if code == "fn"@ {
        Some(KeywordType::Fn)
    } else if code == "="@ {
        Some(KeywordType::FnDef)
    } else if code == ";"@ {
        Some(KeywordType::FnEnd)
    } else if code == "{"@ {
        Some(KeywordType::AnonFnOpen)
    } else if code == "}"@ {
        Some(KeywordType::AnonFnClose)
    } else {
        None
    }
}

// ---------------------------------------------------------------- numbers and truth values

pub open spec fn is_decimal_digit(c: char) -> bool {
    '0' <= c && c <= '9'
}

/// `d` is a non-empty run of decimal digits.
pub open spec fn is_digit_run(d: Seq<char>) -> bool {
    d.len() > 0 && forall|i: int| 0 <= i < d.len() ==> is_decimal_digit(#[trigger] d[i])
}

/// `s` without a leading `+`, if it has one.
pub open spec fn unsigned_digits(s: Seq<char>) -> Seq<char> {
    if s.len() > 0 && s[0] == '+' {
        s.drop_first()
    } else {
        s
    }
}

/// `s` without a leading sign, if it has one.
pub open spec fn signed_digits(s: Seq<char>) -> Seq<char> {
    if s.len() > 0 && (s[0] == '+' || s[0] == '-') {
        s.drop_first()
    } else {
        s
    }
}

/// What parsing `s` as a `u64` gives, as std's `str::parse` does: an optional `+`, then
/// decimal digits, of a value that fits.
pub open spec fn parse_u64_text(s: Seq<char>) -> Option<u64> {
    let d = unsigned_digits(s);
    if is_digit_run(d) && digits_value(d, 10) <= u64::MAX {
        Some(digits_value(d, 10) as u64)
    } else {
        None
    }
}

/// What parsing `s` as an `i64` gives, as std's `str::parse` does: an optional sign, then
/// decimal digits, of a value that fits.
pub open spec fn parse_i64_text(s: Seq<char>) -> Option<i64> {
    let d = signed_digits(s);
    let negative = s.len() > 0 && s[0] == '-';
    if !is_digit_run(d) {
        None
    } else if negative {
        if digits_value(d, 10) <= 0x8000_0000_0000_0000 {
            Some((-digits_value(d, 10)) as i64)
        } else {
            None
        }
    } else if digits_value(d, 10) <= i64::MAX {
        Some(digits_value(d, 10) as i64)
    } else {
        None
    }
}

/// What parsing `s` as a `bool` gives, as std's `str::parse` does.
pub open spec fn parse_bool_text(s: Seq<char>) -> Option<bool> {
    if s == "true"@ {
        Some(true)
    } else if s == "false"@ {
        Some(false)
    } else {
        None
    }
}

proof fn lemma_run_prefix(ds: Seq<char>, k: int)
    requires
        0 <= k <= ds.len(),
    ensures
        is_digit_run(ds) ==> digits_value(ds.take(k), 10) <= digits_value(ds, 10),
{
    if is_digit_run(ds) {
        assert forall|j: int| 0 <= j < ds.len() implies crate::parser::syntax::is_hex_digit(#[trigger] ds[j]) by {
            assert(is_decimal_digit(ds[j]));
        }
        crate::parser::lemma_digits_value_prefix(ds, 10, k);
    }
}

/// The value of the decimal digits `d[start..]`, if they are a non-empty run of digits
/// whose value is at most `limit`.
fn digits_at_most(d: &Vec<char>, start: usize, limit: u128) -> (r: Option<u128>)
    requires
        start <= d@.len(),
    ensures
        match r {
            Some(v) => is_digit_run(d@.skip(start as int)) && digits_value(d@.skip(start as int), 10) == v && v <= limit,
            None => !(is_digit_run(d@.skip(start as int)) && digits_value(d@.skip(start as int), 10) <= limit),
        },
{
    let ghost ds = d@.skip(start as int);
    if start >= d.len() {
        return None;
    }
    let mut value: u128 = 0;
    let mut i: usize = start;
    proof {
        assert(ds.take(0) =~= Seq::<char>::empty());
    }
    while i < d.len()
        invariant
            ds == d@.skip(start as int),
            start <= i <= d@.len(),
            forall|j: int| 0 <= j < i - start ==> is_decimal_digit(#[trigger] ds[j]),
            value == digits_value(ds.take(i - start), 10),
            value <= limit,
        decreases d.len() - i,
    {
        let c = d[i];
        proof {
            assert(ds[i - start] == c);
        }
        if !('0' <= c && c <= '9') {
            return None;
        }
        let dv = ((c as u32) - ('0' as u32)) as u128;
        proof {
            assert(ds.take(i + 1 - start).drop_last() =~= ds.take(i - start));
            assert(ds.take(i + 1 - start).last() == c);
        }
        let next = match value.checked_mul(10) {
            Some(m) => match m.checked_add(dv) {
                Some(v) => v,
                None => {
                    proof {
                        lemma_run_prefix(ds, i + 1 - start);
                    }
                    return None;
                },
            },
            None => {
                proof {
                    lemma_run_prefix(ds, i + 1 - start);
                }
                return None;
            },
        };
        if next > limit {
            proof {
                lemma_run_prefix(ds, i + 1 - start);
            }
            return None;
        }
        value = next;
        i += 1;
    }
    proof {
        assert(ds.take(i - start) =~= ds);
    }
    Some(value)
}

/// The first `n` characters of `v`.
fn prefix_of(v: &Vec<char>, n: usize) -> (r: Vec<char>)
    requires
        n <= v@.len(),
    ensures
        r@ == v@.take(n as int),
{
    let mut r: Vec<char> = Vec::new();
    let mut i: usize = 0;
    while i < n
        invariant
            i <= n <= v@.len(),
            r@ == v@.take(i as int),
        decreases n - i,
    {
        r.push(v[i]);
        proof {
            assert(v@.take(i + 1) =~= v@.take(i as int).push(v@[i as int]));
        }
        i += 1;
    }
    r
}

/// Parses the characters `s` as a `u64`; see `parse_u64_text`.
fn parse_u64(s: &Vec<char>) -> (r: Option<u64>)
    ensures
        r == parse_u64_text(s@),
{
    let start: usize = if s.len() > 0 && s[0] == '+' { 1 } else { 0 };
    proof {
        assert(s@.skip(start as int) =~= unsigned_digits(s@));
    }
    match digits_at_most(s, start, 0xffff_ffff_ffff_ffffu128) {
        Some(v) => Some(v as u64),
        None => None,
    }
}

/// Parses the characters `s` as an `i64`; see `parse_i64_text`.
fn parse_i64(s: &Vec<char>) -> (r: Option<i64>)
    ensures
        r == parse_i64_text(s@),
{
    let negative = s.len() > 0 && s[0] == '-';
    let start: usize = if s.len() > 0 && (s[0] == '+' || s[0] == '-') { 1 } else { 0 };
    proof {
        assert(s@.skip(start as int) =~= signed_digits(s@));
    }
    if negative {
        match digits_at_most(s, start, 0x8000_0000_0000_0000u128) {
            Some(v) => {
                let n = 0i128 - (v as i128);
                Some(n as i64)
            },
            None => None,
        }
    } else {
        match digits_at_most(s, start, 0x7fff_ffff_ffff_ffffu128) {
            Some(v) => Some(v as i64),
            None => None,
        }
    }
}

/// Whether `s` holds the characters of `word`.
fn chars_are(s: &Vec<char>, word: &str) -> (r: bool)
    ensures
        r == (s@ == word@),
{
    let w = chars_of(word);
    if s.len() != w.len() {
        proof {
            if s@ == word@ {
                assert(s@.len() == w@.len());
            }
        }
        return false;
    }
    let mut i: usize = 0;
    while i < w.len()
        invariant
            w@ == word@,
            s@.len() == w@.len(),
            i <= w@.len(),
            forall|j: int| 0 <= j < i ==> s@[j] == w@[j],
        decreases w.len() - i,
    {
        if s[i] != w[i] {
            return false;
        }
        i += 1;
    }
    proof {
        assert(s@ =~= w@);
    }
    true
}

/// Parses the characters `s` as a `bool`; see `parse_bool_text`.
fn parse_bool(s: &Vec<char>) -> (r: Option<bool>)
    ensures
        r == parse_bool_text(s@),
{
    if chars_are(s, "true") {
        Some(true)
    } else if chars_are(s, "false") {
        Some(false)
    } else {
        None
    }
}

// ---------------------------------------------------------------- string literals

/// `s` without its leading whitespace.
pub open spec fn trim_start(s: Seq<char>) -> Seq<char>
    decreases s.len(),
{
    if s.len() > 0 && crate::utils::is_white_space(s[0]) {
        trim_start(s.drop_first())
    } else {
        s
    }
}

/// `s` without its trailing whitespace.
pub open spec fn trim_end(s: Seq<char>) -> Seq<char>
    decreases s.len(),
{
    if s.len() > 0 && crate::utils::is_white_space(s.last()) {
        trim_end(s.drop_last())
    } else {
        s
    }
}

/// `s` without leading or trailing whitespace, as std's `str::trim` gives it.
pub open spec fn trimmed(s: Seq<char>) -> Seq<char> {
    trim_end(trim_start(s))
}

/// What std's `u32::from_str_radix(s, 16)` succeeds with: an optional `+`, then hexadecimal
/// digits, of a value that fits.
pub open spec fn hex_value_text(s: Seq<char>) -> Option<u32> {
    let d = unsigned_digits(s);
    if d.len() > 0 && (forall|i: int| 0 <= i < d.len() ==> crate::parser::syntax::is_hex_digit(#[trigger] d[i]))
        && digits_value(d, 16) <= u32::MAX {
        Some(digits_value(d, 16) as u32)
    } else {
        None
    }
}

/// The text of the error std's `u32::from_str_radix(s, 16)` fails with.
pub uninterp spec fn hex_parse_error_text(s: Seq<char>) -> Seq<char>;

/// std's `u32::from_str_radix(s, 16)`, with its error as text.
/// Trusted: the contract claims that the call succeeds exactly on an optional `+` followed
/// by hexadecimal digits whose value fits a `u32`, with that value, as std documents; the
/// text of its error is named, not stated.
#[verifier::external_body]
fn u32_from_hex(s: &str) -> (r: Result<u32, String>)
    ensures
        match r {
            Ok(v) => hex_value_text(s@) == Some(v),
            Err(m) => hex_value_text(s@) is None && m@ == hex_parse_error_text(s@),
        },
{
    match u32::from_str_radix(s, 16) {
        Ok(v) => Ok(v),
        Err(e) => Err(format!("{}", e)),
    }
}

/// The character with code point `v`, if there is one.
pub open spec fn char_of(v: u32) -> Option<char> {
    if v <= 0x10FFFF && !(0xD800 <= v && v <= 0xDFFF) {
        Some(v as char)
    } else {
        None
    }
}

/// std's `char::from_u32`.
/// Trusted: the contract claims the character with code point `v` is returned exactly when
/// `v` is at most `0x10FFFF` and not a surrogate, as std documents.
#[verifier::external_body]
fn char_from_u32(v: u32) -> (r: Option<char>)
    ensures
        r == char_of(v),
{
    char::from_u32(v)
}

/// What a backslash followed by the cluster `g` stands for, for the one-cluster escapes.
pub open spec fn escape_of(g: Seq<char>) -> Option<char> {
    if g == "\""@ {
        Some('"')
    } else if g == "\\"@ {
        Some('\\')
    } else if g == "n"@ {
        Some('\n')
    } else if g == "t"@ {
        Some('\t')
    } else if g == "r"@ {
        Some('\r')
    } else if g == "0"@ {
        Some('\0')
    } else {
        None
    }
}

/// The first index at or after `j` whose cluster is `}`, or the end.
pub open spec fn close_brace_index(gs: Seq<Seq<char>>, j: int) -> int
    decreases gs.len() - j,
{
    if j < 0 || j >= gs.len() {
        gs.len() as int
    } else if gs[j] == "}"@ {
        j
    } else {
        close_brace_index(gs, j + 1)
    }
}

pub open spec fn invalid_code_point(hex: Seq<char>) -> Seq<char> {
    "[ERROR]: Value "@ + hex + " is not a valid unicode code point"@
}

pub open spec fn hex_failure(hex: Seq<char>) -> Seq<char> {
    "[ERROR]: Failed to convert hex string "@ + hex + " to u32: "@ + hex_parse_error_text(trimmed(hex))
}

/// The body of a string literal from cluster `i`, after a backslash if `escaped`, with `sb`
/// the characters so far: the characters and the index it stops at (the closing quote, or
/// past the end), or an error.
pub open spec fn str_body(gs: Seq<Seq<char>>, i: int, escaped: bool, sb: Seq<char>) -> Result<(Seq<char>, int), Seq<char>>
    decreases gs.len() + 1 - i,
{
    if i < 0 || i >= gs.len() {
        Ok((sb, i))
    } else {
        let g = gs[i];
        if escaped {
            match escape_of(g) {
                Some(c) => str_body(gs, i + 1, false, sb.push(c)),
                None => if g == "u"@ {
                    if i + 1 < gs.len() && gs[i + 1] == "{"@ {
                        let j = close_brace_index(gs, i + 2);
                        let hex = joined(gs, i + 2, j);
                        if j - (i + 2) > 6 {
                            Err(invalid_code_point(hex))
                        } else {
                            match hex_value_text(trimmed(hex)) {
                                None => Err(hex_failure(hex)),
                                Some(v) => match char_of(v) {
                                    Some(c) => if i < j <= gs.len() {
                                        str_body(gs, j + 1, false, sb.push(c))
                                    } else {
                                        Ok((sb, i))
                                    },
                                    None => Err(invalid_code_point(hex)),
                                },
                            }
                        }
                    } else {
                        Err("[ERROR]: Expected { in unicode escape \\u{...}"@)
                    }
                } else {
                    str_body(gs, i + 1, false, sb)
                },
            }
        } else if g == "\\"@ {
            str_body(gs, i + 1, true, sb)
        } else if g == "\""@ {
            Ok((sb, i))
        } else {
            str_body(gs, i + 1, false, sb + g)
        }
    }
}

/// The string literal starting at cluster `idx`, if it starts with a quote: its characters
/// and how many clusters it takes up (up to its closing quote).
pub open spec fn str_literal(gs: Seq<Seq<char>>, idx: int) -> Result<Option<(SpecToken, int)>, Seq<char>> {
    if 0 <= idx < gs.len() && gs[idx] == "\""@ {
        match str_body(gs, idx + 1, false, Seq::empty()) {
            Ok((sb, i)) => Ok(Some((SpecToken::Literal(SpecLexLiteral::String(sb)), i - idx))),
            Err(e) => Err(e),
        }
    } else {
        Ok(None)
    }
}

// ---------------------------------------------------------------- exec helpers on clusters

/// The clusters seen as character sequences.
pub open spec fn clusters(v: Seq<String>) -> Seq<Seq<char>> {
    v.map_values(|g: String| g@)
}

/// Whether the cluster `g` is the text `word`.
fn is_text(g: &String, word: &str) -> (r: bool)
    ensures
        r == (g@ == word@),
{
    let c = chars_of(g.as_str());
    chars_are(&c, word)
}

/// The concatenation of the clusters `gs[a..b]`.
fn join_range(gs: &Vec<String>, a: usize, b: usize) -> (r: String)
    requires
        a <= b <= gs@.len(),
    ensures
        r@ == joined(clusters(gs@), a as int, b as int),
{
    let mut out = String::new();
    let mut i: usize = a;
    proof {
        assert(joined(clusters(gs@), a as int, a as int) == Seq::<char>::empty());
    }
    while i < b
        invariant
            a <= i <= b <= gs@.len(),
            out@ == joined(clusters(gs@), a as int, i as int),
        decreases b - i,
    {
        append(&mut out, gs[i].as_str());
        i += 1;
        proof {
            assert(clusters(gs@)[i - 1] == gs@[i - 1]@);
        }
    }
    out
}

/// `s` without leading or trailing whitespace.
fn trim_text(s: &String) -> (r: String)
    ensures
        r@ == trimmed(s@),
{
    let c = chars_of(s.as_str());
    let mut a: usize = 0;
    proof {
        assert(c@.subrange(0, c@.len() as int) =~= c@);
    }
    while a < c.len() && crate::utils::char_is_whitespace(c[a])
        invariant
            a <= c@.len(),
            trim_start(c@) == trim_start(c@.subrange(a as int, c@.len() as int)),
        decreases c.len() - a,
    {
        proof {
            assert(c@.subrange(a as int, c@.len() as int).drop_first() =~= c@.subrange(a + 1, c@.len() as int));
        }
        a += 1;
    }
    let mut b: usize = c.len();
    proof {
        assert(trim_start(c@) == c@.subrange(a as int, c@.len() as int));
    }
    while b > a && crate::utils::char_is_whitespace(c[b - 1])
        invariant
            a <= b <= c@.len(),
            trim_end(c@.subrange(a as int, c@.len() as int)) == trim_end(c@.subrange(a as int, b as int)),
        decreases b,
    {
        proof {
            assert(c@.subrange(a as int, b as int).drop_last() =~= c@.subrange(a as int, b - 1));
        }
        b -= 1;
    }
    proof {
        if b > a {
            assert(c@.subrange(a as int, b as int).last() == c@[b - 1]);
        }
    }
    crate::utils::string_of_chars(&c, a, b)
}

/// The string literal starting at cluster `idx`, if it starts with a quote; see `str_literal`.
fn parse_str_literal(code_gc: &Vec<String>, idx: usize) -> (r: Result<Option<ParsedToken>, String>)
    requires
        idx < code_gc@.len() < usize::MAX,
    ensures
        match r {
            Ok(Some(p)) => str_literal(clusters(code_gc@), idx as int) == Ok::<Option<(SpecToken, int)>, Seq<char>>(
                Some((p.token@, p.len as int)),
            ),
            Ok(None) => str_literal(clusters(code_gc@), idx as int) == Ok::<Option<(SpecToken, int)>, Seq<char>>(None),
            Err(e) => str_literal(clusters(code_gc@), idx as int) == Err::<Option<(SpecToken, int)>, Seq<char>>(e@),
        },
        r matches Ok(Some(p)) ==> 0 < p.len && idx + p.len <= code_gc@.len() + 1,
{
    let ghost gs = clusters(code_gc@);
    let n = code_gc.len();
    proof {
        reveal_strlit("\"");
        reveal_strlit("\\");
        reveal_strlit("n");
        reveal_strlit("t");
        reveal_strlit("r");
        reveal_strlit("0");
        reveal_strlit("u");
        reveal_strlit("{");
        reveal_strlit("}");
        assert(gs[idx as int] == code_gc@[idx as int]@);
    }
    if !is_text(&code_gc[idx], "\"") {
        return Ok(None);
    }
    let mut sb = String::new();
    let mut i: usize = idx + 1;
    let mut escaped = false;
    loop
        invariant_except_break
            idx < i <= n + 1,
        invariant
            gs == clusters(code_gc@),
            n == code_gc@.len() < usize::MAX,
            idx < i,
            idx < n,
            gs[idx as int] == "\""@,
            str_body(gs, idx + 1, false, Seq::empty()) == str_body(gs, i as int, escaped, sb@),
        ensures
            idx < i <= n + 1,
            str_body(gs, idx + 1, false, Seq::empty()) == Ok::<(Seq<char>, int), Seq<char>>((sb@, i as int)),
        decreases n + 1 - i,
    {
        if i >= n {
            break;
        }
        let ghost i_start = i as int;
        let ghost sb_start = sb@;
        let g = &code_gc[i];
        proof {
            assert(gs[i as int] == g@);
        }
        if escaped {
            escaped = false;
            if is_text(g, "\"") {
                push_char(&mut sb, '"');
            } else if is_text(g, "\\") {
                push_char(&mut sb, '\\');
            } else if is_text(g, "n") {
                push_char(&mut sb, '\n');
            } else if is_text(g, "t") {
                push_char(&mut sb, '\t');
            } else if is_text(g, "r") {
                push_char(&mut sb, '\r');
            } else if is_text(g, "0") {
                push_char(&mut sb, '\0');
            } else if is_text(g, "u") {
                if i + 1 < n && is_text(&code_gc[i + 1], "{") {
                    proof {
                        assert(gs[i + 1] == code_gc@[i + 1]@);
                    }
                    let i0 = i;
                    i += 2;
                    let mut u_hex_chars: usize = 0;
                    while i < n && !is_text(&code_gc[i], "}")
                        invariant
                            gs == clusters(code_gc@),
                            n == code_gc@.len(),
                            i0 + 2 <= i <= n,
                            u_hex_chars == i - (i0 + 2),
                            close_brace_index(gs, i0 + 2) == close_brace_index(gs, i as int),
                        decreases n - i,
                    {
                        proof {
                            assert(gs[i as int] == code_gc@[i as int]@);
                        }
                        u_hex_chars += 1;
                        i += 1;
                    }
                    proof {
                        if i < n {
                            assert(gs[i as int] == code_gc@[i as int]@);
                        }
                        assert(close_brace_index(gs, i as int) == i);
                    }
                    let u_start = i - u_hex_chars;
                    let hex_str = join_range(code_gc, u_start, i);
                    proof {
                        assert(escape_of(gs[i_start]) is None);
                        assert(gs[i_start] == "u"@);
                        assert(gs[i_start + 1] == "{"@);
                        assert(u_start == i_start + 2);
                    }
                    if u_hex_chars > 6 {
                        let e = invalid_code_point_text(&hex_str);
                        proof {
                            assert(str_body(gs, i_start, true, sb_start) == Err::<(Seq<char>, int), Seq<char>>(e@));
                        }
                        return Err(e);
                    }
                    let hex_trimmed = trim_text(&hex_str);
                    match u32_from_hex(hex_trimmed.as_str()) {
                        Err(m) => {
                            let mut e = owned("[ERROR]: Failed to convert hex string ");
                            append(&mut e, hex_str.as_str());
                            append(&mut e, " to u32: ");
                            append(&mut e, m.as_str());
                            proof {
                                reveal_strlit("[ERROR]: Failed to convert hex string ");
                                reveal_strlit(" to u32: ");
                                assert(e@ =~= hex_failure(hex_str@));
                                assert(str_body(gs, i_start, true, sb_start) == Err::<(Seq<char>, int), Seq<char>>(e@));
                            }
                            return Err(e);
                        },
                        Ok(hex_val) => match char_from_u32(hex_val) {
                            Some(code_point) => push_char(&mut sb, code_point),
                            None => {
                                let e = invalid_code_point_text(&hex_str);
                                proof {
                                    assert(str_body(gs, i_start, true, sb_start) == Err::<(Seq<char>, int), Seq<char>>(e@));
                                }
                                return Err(e);
                            },
                        },
                    }
                } else {
                    proof {
                        if i + 1 < n {
                            assert(gs[i + 1] == code_gc@[i + 1]@);
                        }
                    }
                    let e = owned("[ERROR]: Expected { in unicode escape \\u{...}");
                    return Err(e);
                }
            }
        } else if is_text(g, "\\") {
            escaped = true;
        } else if is_text(g, "\"") {
            break;
        } else {
            append(&mut sb, g.as_str());
        }
        i += 1;
    }
    let len = i - idx;
    Ok(Some(ParsedToken::new(Token::Literal(Literal::String(sb)), len)))
}

/// The error for a `\u{...}` escape that is not a code point.
fn invalid_code_point_text(hex: &String) -> (r: String)
    ensures
        r@ == invalid_code_point(hex@),
{
    let mut e = owned("[ERROR]: Value ");
    append(&mut e, hex.as_str());
    append(&mut e, " is not a valid unicode code point");
    proof {
        reveal_strlit("[ERROR]: Value ");
        reveal_strlit(" is not a valid unicode code point");
        assert(e@ =~= invalid_code_point(hex@));
    }
    e
}

// ---------------------------------------------------------------- tokens

/// A reading of text as the bits of a floating-point number.
pub type FloatReading = spec_fn(Seq<char>) -> Option<u64>;

/// `f` reads text as `fb` says: whatever it returns for a text is `fb` of that text.
pub open spec fn reads_as<F: Fn(&str) -> Option<u64>>(f: F, fb: FloatReading) -> bool {
    forall|s: &str, r: Option<u64>| #[trigger] f.ensures((s,), r) ==> r == fb(s@)
}

/// The keyword at cluster `idx`, if the text up to the next whitespace is one.
pub open spec fn keyword_at(gs: Seq<Seq<char>>, idx: int) -> Option<(SpecToken, int)> {
    let (code, skip) = until_whitespace(gs, idx);
    match keyword_of(code) {
        Some(k) => Some((SpecToken::Keyword(k), skip)),
        None => None,
    }
}

/// The literal at cluster `idx`: the text up to the next whitespace read as (in turn) a
/// `u64` (written with a final `u`, which is dropped), an `i64` (unless it ends in `f`; a
/// final `i` is dropped), a `u64` (unless it ends in `f` or `i`) for a number too large for
/// an `i64`, a float (a final `f` is dropped), a `bool`; else a string literal, if one
/// starts there. So `741u` and `18446744073709551615` are `u64`s, and `1`, `-19725` and
/// `64i` are `i64`s.
pub open spec fn literal_at(gs: Seq<Seq<char>>, idx: int, fb: FloatReading) -> Result<Option<(SpecToken, int)>, Seq<char>> {
    let (code, skip) = until_whitespace(gs, idx);
    let last = gs[idx + skip - 1];
    let u = parse_u64_text(code.drop_last());
    let i = if last == "i"@ { parse_i64_text(code.drop_last()) } else { parse_i64_text(code) };
    let f = if last == "f"@ { fb(code.drop_last()) } else { fb(code) };
    if last == "u"@ && u is Some {
        Ok(Some((SpecToken::Literal(SpecLexLiteral::U64(u->0)), skip)))
    } else if last != "f"@ && i is Some {
        Ok(Some((SpecToken::Literal(SpecLexLiteral::I64(i->0)), skip)))
    } else if last != "f"@ && last != "i"@ && parse_u64_text(code) is Some {
        Ok(Some((SpecToken::Literal(SpecLexLiteral::U64(parse_u64_text(code)->0)), skip)))
    } else if f is Some {
        Ok(Some((SpecToken::Literal(SpecLexLiteral::F64(f->0)), skip)))
    } else if parse_bool_text(code) is Some {
        Ok(Some((SpecToken::Literal(SpecLexLiteral::Bool(parse_bool_text(code)->0)), skip)))
    } else {
        str_literal(gs, idx)
    }
}

/// The identifier at cluster `idx`: the text up to the next whitespace; a function pointer
/// if it starts with `&`.
pub open spec fn identifier_at(gs: Seq<Seq<char>>, idx: int) -> (SpecToken, int) {
    let (code, skip) = until_whitespace(gs, idx);
    if gs[idx] == "&"@ {
        (SpecToken::Literal(SpecLexLiteral::FnPtr(joined(gs, idx + 1, idx + skip))), skip)
    } else {
        (SpecToken::Identifier(code), skip)
    }
}

/// The token at cluster `idx`: a keyword, else a literal, else an identifier.
pub open spec fn token_at(gs: Seq<Seq<char>>, idx: int, fb: FloatReading) -> Result<Option<(SpecToken, int)>, Seq<char>> {
    match keyword_at(gs, idx) {
        Some(t) => Ok(Some(t)),
        None => match literal_at(gs, idx, fb) {
            Err(e) => Err(e),
            Ok(Some(t)) => Ok(Some(t)),
            Ok(None) => Ok(Some(identifier_at(gs, idx))),
        },
    }
}

/// The first index at or after `i` whose cluster is a newline, or the end.
pub open spec fn newline_index(gs: Seq<Seq<char>>, i: int) -> int
    decreases gs.len() - i,
{
    if i < 0 || i >= gs.len() {
        gs.len() as int
    } else if gs[i] == "\n"@ {
        i
    } else {
        newline_index(gs, i + 1)
    }
}

/// The tokens of the clusters from `i` on, `prev_ws` telling whether whitespace (or a
/// comment, or the start) comes just before: whitespace is skipped; `#` starts a comment
/// up to the end of the line; a token is read only after whitespace, and the rest of a
/// word after a token that stops early is skipped.
pub open spec fn lex(gs: Seq<Seq<char>>, i: int, prev_ws: bool, fb: FloatReading) -> Result<Seq<SpecToken>, Seq<char>>
    decreases gs.len() + 1 - i,
{
    if i < 0 || i >= gs.len() {
        Ok(Seq::empty())
    } else if all_white_space(gs[i]) {
        lex(gs, i + 1, true, fb)
    } else if gs[i] == "#"@ {
        let e = newline_index(gs, i);
        if i < e <= gs.len() {
            lex(gs, e, true, fb)
        } else {
            Ok(Seq::empty())
        }
    } else if prev_ws {
        match token_at(gs, i, fb) {
            Err(e) => Err(e),
            Ok(Some((t, len))) => if 0 < len && i + len <= gs.len() + 1 {
                match lex(gs, i + len, false, fb) {
                    Ok(rest) => Ok(seq![t] + rest),
                    Err(e) => Err(e),
                }
            } else {
                Ok(Seq::empty())
            },
            Ok(None) => lex(gs, i + 1, false, fb),
        }
    } else {
        lex(gs, i + 1, false, fb)
    }
}

/// The tokens of a text.
pub open spec fn tokens_of(code: Seq<char>, fb: FloatReading) -> Result<Seq<SpecToken>, Seq<char>> {
    lex(extended_graphemes(code), 0, true, fb)
}

/// The views of tokens.
pub open spec fn view_tokens(ts: Seq<Token>) -> Seq<SpecToken> {
    Seq::new(ts.len(), |i: int| ts[i]@)
}

/// Every cluster holds at least one character.
pub open spec fn nonempty_clusters(gs: Seq<Seq<char>>) -> bool {
    forall|i: int| 0 <= i < gs.len() ==> (#[trigger] gs[i]).len() > 0
}

proof fn lemma_joined_len(gs: Seq<Seq<char>>, a: int, b: int)
    requires
        nonempty_clusters(gs),
        0 <= a <= b <= gs.len(),
    ensures
        joined(gs, a, b).len() >= b - a,
        b > a ==> joined(gs, a, b).len() > 0 && joined(gs, a, b).last() == gs[b - 1].last(),
    decreases b - a,
{
    if b > a {
        lemma_joined_len(gs, a, b - 1);
        assert(gs[b - 1].len() > 0);
    }
}

proof fn lemma_ws_index(gs: Seq<Seq<char>>, idx: int)
    requires
        0 <= idx <= gs.len(),
    ensures
        idx <= ws_index(gs, idx) <= gs.len(),
        idx < gs.len() && !all_white_space(gs[idx]) ==> ws_index(gs, idx) > idx,
    decreases gs.len() - idx,
{
    if idx < gs.len() && !all_white_space(gs[idx]) {
        lemma_ws_index(gs, idx + 1);
    }
}

/// The text from cluster `idx` up to the next whitespace cluster, and how many clusters
/// that is.
fn get_until_whitespace(code_gc: &Vec<String>, idx: usize) -> (r: (String, usize))
    requires
        idx <= code_gc@.len(),
    ensures
        (r.0@, r.1 as int) == until_whitespace(clusters(code_gc@), idx as int),
{
    let ghost gs = clusters(code_gc@);
    let mut j: usize = idx;
    while j < code_gc.len() && !code_gc[j].as_str().is_whitespace()
        invariant
            gs == clusters(code_gc@),
            idx <= j <= code_gc@.len(),
            ws_index(gs, idx as int) == ws_index(gs, j as int),
        decreases code_gc.len() - j,
    {
        proof {
            assert(gs[j as int] == code_gc@[j as int]@);
        }
        j += 1;
    }
    proof {
        if j < code_gc@.len() {
            assert(gs[j as int] == code_gc@[j as int]@);
        }
    }
    (join_range(code_gc, idx, j), j - idx)
}

/// The keyword at cluster `idx`; see `keyword_at`.
fn parse_keyword(code_gc: &Vec<String>, idx: usize) -> (r: Option<ParsedToken>)
    requires
        idx <= code_gc@.len(),
    ensures
        match r {
            Some(p) => keyword_at(clusters(code_gc@), idx as int) == Some((p.token@, p.len as int)),
            None => keyword_at(clusters(code_gc@), idx as int) is None,
        },
        r matches Some(p) ==> idx + p.len <= code_gc@.len(),
        r matches Some(p) ==> (idx < code_gc@.len() && !all_white_space(clusters(code_gc@)[idx as int]) ==> 0 < p.len),
{
    let (code, skip_amt) = get_until_whitespace(code_gc, idx);
    proof {
        lemma_ws_index(clusters(code_gc@), idx as int);
    }
    let c = chars_of(code.as_str());
    proof {
        reveal_strlit("fn");
        reveal_strlit("=");
        reveal_strlit(";");
        reveal_strlit("{");
        reveal_strlit("}");
    }
    if chars_are(&c, "fn") {
        Some(ParsedToken::new(Token::Keyword(KeywordType::Fn), skip_amt))
    } else if chars_are(&c, "=") {
        Some(ParsedToken::new(Token::Keyword(KeywordType::FnDef), skip_amt))
    } else if chars_are(&c, ";") {
        Some(ParsedToken::new(Token::Keyword(KeywordType::FnEnd), skip_amt))
    } else if chars_are(&c, "{") {
        Some(ParsedToken::new(Token::Keyword(KeywordType::AnonFnOpen), skip_amt))
    } else if chars_are(&c, "}") {
        Some(ParsedToken::new(Token::Keyword(KeywordType::AnonFnClose), skip_amt))
    } else {
        None
    }
}

/// The identifier at cluster `idx`; see `identifier_at`.
fn parse_identifier(code_gc: &Vec<String>, idx: usize) -> (r: Option<ParsedToken>)
    requires
        idx < code_gc@.len() < usize::MAX,
    ensures
        r matches Some(p) && identifier_at(clusters(code_gc@), idx as int) == (p.token@, p.len as int),
        r matches Some(p) ==> idx + p.len <= code_gc@.len(),
        r matches Some(p) ==> (!all_white_space(clusters(code_gc@)[idx as int]) ==> 0 < p.len),
{
    let ghost gs = clusters(code_gc@);
    let (code, skip_amt) = get_until_whitespace(code_gc, idx);
    proof {
        reveal_strlit("&");
        assert(gs[idx as int] == code_gc@[idx as int]@);
        lemma_ws_index(gs, idx as int);
    }
    if is_text(&code_gc[idx], "&") {
        proof {
            assert(gs[idx as int][0] == '&');
            assert(!all_white_space(gs[idx as int]));
        }
        let name = join_range(code_gc, idx + 1, idx + skip_amt);
        Some(ParsedToken::new(Token::Literal(Literal::FnPtr(name)), skip_amt))
    } else {
        Some(ParsedToken::new(Token::Identifier(code), skip_amt))
    }
}

/// The result of a token reader seen through views.
pub open spec fn token_view(r: Result<Option<ParsedToken>, String>) -> Result<Option<(SpecToken, int)>, Seq<char>> {
    match r {
        Ok(Some(p)) => Ok(Some((p.token@, p.len as int))),
        Ok(None) => Ok(None),
        Err(e) => Err(e@),
    }
}

/// The literal at cluster `idx`; see `literal_at`. `float_bits` reads text as a float.
fn parse_literal(code_gc: &Vec<String>, idx: usize, float_bits: &impl Fn(&str) -> Option<u64>) -> (r: Result<Option<ParsedToken>, String>)
    requires
        idx < code_gc@.len() < usize::MAX,
        nonempty_clusters(clusters(code_gc@)),
        !all_white_space(clusters(code_gc@)[idx as int]),
        forall|s: &str| float_bits.requires((s,)),
    ensures
        forall|fb: FloatReading| reads_as(*float_bits, fb) ==> token_view(r) == literal_at(clusters(code_gc@), idx as int, fb),
        r matches Ok(Some(p)) ==> 0 < p.len && idx + p.len <= code_gc@.len() + 1,
{
    let ghost gs = clusters(code_gc@);
    let (code, skip_amt) = get_until_whitespace(code_gc, idx);
    proof {
        lemma_ws_index(gs, idx as int);
        lemma_joined_len(gs, idx as int, idx + skip_amt);
        reveal_strlit("f");
        reveal_strlit("i");
        reveal_strlit("u");
    }
    let last_char = &code_gc[idx + skip_amt - 1];
    proof {
        assert(gs[idx + skip_amt - 1] == last_char@);
    }
    let code_chars = chars_of(code.as_str());
    let stripped_chars = prefix_of(&code_chars, code_chars.len() - 1);
    proof {
        assert(stripped_chars@ =~= code@.drop_last());
    }
    let is_f = is_text(last_char, "f");
    let is_i = is_text(last_char, "i");
    let is_u = is_text(last_char, "u");
    if is_u {
        if let Some(lit_val) = parse_u64(&stripped_chars) {
            return Ok(Some(ParsedToken::new(Token::Literal(Literal::U64(lit_val)), skip_amt)));
        }
    }
    if !is_f {
        let lit_i64 = if is_i { parse_i64(&stripped_chars) } else { parse_i64(&code_chars) };
        if let Some(lit_val) = lit_i64 {
            return Ok(Some(ParsedToken::new(Token::Literal(Literal::I64(lit_val)), skip_amt)));
        }
    }
    if !is_f && !is_i {
        if let Some(lit_val) = parse_u64(&code_chars) {
            return Ok(Some(ParsedToken::new(Token::Literal(Literal::U64(lit_val)), skip_amt)));
        }
    }
    let stripped = crate::utils::string_of_chars(&code_chars, 0, code_chars.len() - 1);
    let lit_f64 = if is_f { float_bits(stripped.as_str()) } else { float_bits(code.as_str()) };
    if let Some(bits) = lit_f64 {
        return Ok(Some(ParsedToken::new(Token::Literal(Literal::F64(bits)), skip_amt)));
    }
    if let Some(lit_val) = parse_bool(&code_chars) {
        return Ok(Some(ParsedToken::new(Token::Literal(Literal::Bool(lit_val)), skip_amt)));
    }
    let lit_str = parse_str_literal(code_gc, idx);
    lit_str
}

/// The token at cluster `idx`; see `token_at`.
fn parse_token(code_gc: &Vec<String>, idx: usize, float_bits: &impl Fn(&str) -> Option<u64>) -> (r: Result<Option<ParsedToken>, String>)
    requires
        idx < code_gc@.len() < usize::MAX,
        nonempty_clusters(clusters(code_gc@)),
        !all_white_space(clusters(code_gc@)[idx as int]),
        forall|s: &str| float_bits.requires((s,)),
    ensures
        forall|fb: FloatReading| reads_as(*float_bits, fb) ==> token_view(r) == token_at(clusters(code_gc@), idx as int, fb),
        r matches Ok(Some(p)) ==> 0 < p.len && idx + p.len <= code_gc@.len() + 1,
{
    let tok = parse_keyword(code_gc, idx);
    if tok.is_some() {
        return Ok(tok);
    }
    let tok = match parse_literal(code_gc, idx, float_bits) {
        Ok(t) => t,
        Err(e) => return Err(e),
    };
    if tok.is_some() {
        return Ok(tok);
    }
    let tok = parse_identifier(code_gc, idx);
    if tok.is_some() {
        return Ok(tok);
    }
    Ok(None)
}

/// `ts` followed by what `rest` lexes to; the error if there is one.
pub open spec fn after_tokens(ts: Seq<SpecToken>, rest: Result<Seq<SpecToken>, Seq<char>>) -> Result<Seq<SpecToken>, Seq<char>> {
    match rest {
        Ok(r) => Ok(ts + r),
        Err(e) => Err(e),
    }
}

/// Splits source text into tokens; see `tokens_of`. `float_bits` reads text as the bits of
/// a floating-point number (as `str::parse::<f64>` and `f64::to_bits` do), or gives None.
pub fn tokenise(code: &str, float_bits: impl Fn(&str) -> Option<u64>) -> (r: Result<Vec<Token>, String>)
    requires
        code@.len() < usize::MAX,
        forall|s: &str| float_bits.requires((s,)),
    ensures
        forall|fb: FloatReading| reads_as(float_bits, fb) ==> match r {
            Ok(ts) => tokens_of(code@, fb) == Ok::<Seq<SpecToken>, Seq<char>>(view_tokens(ts@)),
            Err(e) => tokens_of(code@, fb) == Err::<Seq<SpecToken>, Seq<char>>(e@),
        },
{
    let mut tokens: Vec<Token> = Vec::new();
    let code_chars = graphemes_of(code);
    let ghost gs = clusters(code_chars@);
    proof {
        lemma_joined_len(gs, 0, gs.len() as int);
        assert(view_tokens(tokens@) =~= Seq::<SpecToken>::empty());
        assert forall|fb: FloatReading| reads_as(float_bits, fb) implies lex(gs, 0, true, fb) == after_tokens(view_tokens(tokens@), lex(gs, 0, true, fb)) by {
            match lex(gs, 0, true, fb) {
                Ok(rest) => {
                    assert(Seq::<SpecToken>::empty() + rest =~= rest);
                },
                Err(_) => {},
            }
        }
    }
    let n = code_chars.len();
    let mut i: usize = 0;
    let mut prev_ws = true;
    while i < n
        invariant
            gs == clusters(code_chars@),
            gs == extended_graphemes(code@),
            nonempty_clusters(gs),
            n == gs.len() < usize::MAX,
            i <= n + 1,
            forall|s: &str| float_bits.requires((s,)),
            forall|fb: FloatReading| reads_as(float_bits, fb) ==> lex(gs, 0, true, fb) == after_tokens(view_tokens(tokens@), lex(gs, i as int, prev_ws, fb)),
        decreases n + 1 - i,
    {
        let g = &code_chars[i];
        proof {
            assert(gs[i as int] == g@);
            reveal_strlit("#");
            reveal_strlit("\n");
        }
        if g.as_str().is_whitespace() {
            i += 1;
            prev_ws = true;
        } else if is_text(g, "#") {
            let mut j: usize = i;
            while j < n && !is_text(&code_chars[j], "\n")
                invariant
                    gs == clusters(code_chars@),
                    n == gs.len(),
                    i <= j <= n,
                    newline_index(gs, i as int) == newline_index(gs, j as int),
                decreases n - j,
            {
                proof {
                    assert(gs[j as int] == code_chars@[j as int]@);
                }
                j += 1;
            }
            proof {
                if j < n {
                    assert(gs[j as int] == code_chars@[j as int]@);
                }
                assert(gs[i as int] != "\n"@);
            }
            i = j;
            prev_ws = true;
        } else if prev_ws {
            let parsed_token = match parse_token(&code_chars, i, &float_bits) {
                Ok(t) => t,
                Err(e) => return Err(e),
            };
            match parsed_token {
                Some(ptok) => {
                    let ghost before = view_tokens(tokens@);
                    let ghost t = ptok.token@;
                    tokens.push(ptok.token);
                    i += ptok.len;
                    proof {
                        assert(view_tokens(tokens@) =~= before.push(t));
                        assert forall|fb: FloatReading| reads_as(float_bits, fb) implies lex(gs, 0, true, fb) == after_tokens(view_tokens(tokens@), lex(gs, i as int, false, fb)) by {
                            match lex(gs, i as int, false, fb) {
                                Ok(rest) => {
                                    assert(before + (seq![t] + rest) =~= view_tokens(tokens@) + rest);
                                },
                                Err(_) => {},
                            }
                        }
                    }
                },
                None => {
                    i += 1;
                },
            }
            prev_ws = false;
        } else {
            i += 1;
            prev_ws = false;
        }
    }
    proof {
        assert forall|fb: FloatReading| reads_as(float_bits, fb) implies lex(gs, 0, true, fb) == after_tokens(view_tokens(tokens@), Ok(Seq::empty())) by {
            assert(view_tokens(tokens@) + Seq::<SpecToken>::empty() =~= view_tokens(tokens@));
        }
    }
    Ok(tokens)
}

} // verus!
