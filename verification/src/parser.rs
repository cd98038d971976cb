pub mod scanner;
pub mod tree;
pub mod syntax;

pub use crate::parser_new::result;

use vstd::prelude::*;
use vstd::string::StringSliceAdditionalSpecFns;

use crate::error::{error_view, SyntaxError};
use crate::analyser::{SpecTowerType, TowerType};
use crate::error::SyntaxErrorKind;
use crate::utils::{lemma_ascii_len, char_is_whitespace, is_white_space, is_xid_continue, is_xid_start, push_char, xid_continue};
use result::{map_valid, ScanResult};
use crate::sorted::{collect_named, lemma_view_from_pairs, view_pairs};
use scanner::{at, Scanner};
use tree::{view_nodes, view_string_pairs, SpecParseTree, Literal, ParseTree, ParseTreeNode, ParseTreeType};

verus! {

/// Outcome of parsing one structure.
pub type ParseResult<T> = ScanResult<T, SyntaxError>;

/// The scanner's text is unchanged and only its cursor may have moved.
pub open spec fn same_text(before: Scanner, after: Scanner) -> bool {
    after@ == at(before@, after@.cursor)
}

proof fn lemma_ws_end_bounds(c: Seq<char>, p: int)
    requires
        0 <= p <= c.len(),
    ensures
        p <= syntax::ws_end(c, p) <= c.len(),
    decreases c.len() - p,
{
    if p < c.len() && is_white_space(c[p]) {
        lemma_ws_end_bounds(c, p + 1);
    }
}

proof fn lemma_ident_end_bounds(c: Seq<char>, p: int)
    requires
        0 <= p <= c.len(),
    ensures
        p <= syntax::ident_end(c, p) <= c.len(),
    decreases c.len() - p,
{
    if p < c.len() && xid_continue(c[p]) {
        lemma_ident_end_bounds(c, p + 1);
    }
}

/// A single whitespace character.
fn s(scanner: &mut Scanner) -> (r: ParseResult<()>)
    ensures
        same_text(*old(scanner), *final(scanner)),
        (r is Valid) == (old(scanner)@.cursor < old(scanner)@.chars.len() && is_white_space(old(scanner)@.chars[old(scanner)@.cursor])),
        r is Valid || r is Unrecognised,
        final(scanner)@.cursor == if r is Valid { old(scanner)@.cursor + 1 } else { old(scanner)@.cursor },
{
    let cur = scanner.cursor();
    match scanner.take_if(|c: char| -> (b: bool) ensures b == is_white_space(c) { char_is_whitespace(c) }) {
        Some(_) => ScanResult::Valid(()),
        None => ScanResult::Unrecognised,
    }
}

/// Skips any whitespace.
fn skip_ws(scanner: &mut Scanner)
    ensures
        same_text(*old(scanner), *final(scanner)),
        final(scanner)@.cursor == syntax::ws_end(old(scanner)@.chars, old(scanner)@.cursor),
        old(scanner)@.cursor <= final(scanner)@.cursor,
{
    let start = scanner.cursor();
    loop
        invariant
            same_text(*old(scanner), *scanner),
            old(scanner)@.cursor <= scanner@.cursor <= scanner@.chars.len(),
            syntax::ws_end(scanner@.chars, scanner@.cursor) == syntax::ws_end(old(scanner)@.chars, old(scanner)@.cursor),
        ensures
            syntax::ws_end(scanner@.chars, scanner@.cursor) == scanner@.cursor,
        decreases scanner@.chars.len() - scanner@.cursor,
    {
        let before = scanner.cursor();
        if !s(scanner).is_valid() {
            break;
        }
    }
}

/// Returns an Identifier ASTNode
fn identifier(scanner: &mut Scanner) -> (r: ParseResult<ParseTree>)
    ensures
        same_text(*old(scanner), *final(scanner)),
        (r@, final(scanner)@.cursor) == syntax::identifier_tree(old(scanner)@.chars, old(scanner)@.cursor),
        r is Valid ==> old(scanner)@.cursor < final(scanner)@.cursor,
{
    let start = scanner.cursor();
    let first = match scanner.take_if(
        |c: char| -> (b: bool) ensures b == syntax::is_ident_start(c) { is_xid_start(c) || c == '_' },
    ) {
        Some(c) => c,
        None => {
            return ScanResult::Unrecognised;
        },
    };
    let rest = scanner.take_until(|c: char| -> (b: bool) ensures b == xid_continue(c) { is_xid_continue(c) });
    proof {
        let c = old(scanner)@.chars;
        let e = scanner@.cursor;
        assert(syntax::ident_end(c, start + 1) == e) by {
            lemma_take_until_ident(c, start + 1, e);
        }
    }
    let mut ident = String::new();
    push_char(&mut ident, first);
    ident.append(rest.as_str());
    proof {
        assert(ident@ =~= old(scanner)@.chars.subrange(start as int, scanner@.cursor));
    }
    ScanResult::Valid(ParseTree::Identifier(ident))
}

proof fn lemma_take_until_ident(c: Seq<char>, p: int, e: int)
    requires
        0 <= p <= e <= c.len(),
        forall|i: int| p <= i < e ==> #[trigger] xid_continue(c[i]),
        e < c.len() ==> !xid_continue(c[e]),
    ensures
        syntax::ident_end(c, p) == e,
    decreases e - p,
{
    if p < e {
        lemma_take_until_ident(c, p + 1, e);
    }
}

/// The kinds of token a syntax error can say were expected.
#[derive(Debug, Clone, Copy, PartialEq, Eq, Structural)]
pub enum TokenType {
    Unspecified,
    Identifier,
    LCurlyParen,
    RCurlyParen,
    Whitespace,
    Literal,
    Number,
    KeywordFn,
    Quote,
    EscapeSequence,
    Block,
    Colon,
    ConstructorArrow,
}

/// The name of a token type, as `{:?}` prints it.
pub open spec fn token_name(t: TokenType) -> Seq<char> {
    match t {
        TokenType::Unspecified => "None"@,
        TokenType::Identifier => "Identifier"@,
        TokenType::LCurlyParen => "LCurlyParen"@,
        TokenType::RCurlyParen => "RCurlyParen"@,
        TokenType::Whitespace => "Whitespace"@,
        TokenType::Literal => "Literal"@,
        TokenType::Number => "Number"@,
        TokenType::KeywordFn => "KeywordFn"@,
        TokenType::Quote => "Quote"@,
        TokenType::EscapeSequence => "EscapeSequence"@,
        TokenType::Block => "Block"@,
        TokenType::Colon => "Colon"@,
        TokenType::ConstructorArrow => "ConstructorArrow"@,
    }
}

impl TokenType {
    /// The variant's name, as `{:?}` prints it.
    pub fn name(&self) -> (r: &'static str)
        ensures
            r@ == token_name(*self),
    {
        match self {
            TokenType::Unspecified => "None",
            TokenType::Identifier => "Identifier",
            TokenType::LCurlyParen => "LCurlyParen",
            TokenType::RCurlyParen => "RCurlyParen",
            TokenType::Whitespace => "Whitespace",
            TokenType::Literal => "Literal",
            TokenType::Number => "Number",
            TokenType::KeywordFn => "KeywordFn",
            TokenType::Quote => "Quote",
            TokenType::EscapeSequence => "EscapeSequence",
            TokenType::Block => "Block",
            TokenType::Colon => "Colon",
            TokenType::ConstructorArrow => "ConstructorArrow",
        }
    }
}

/// The error that a token of type `t` was expected at `cursor`.
fn expect1(t: TokenType, while_parsing: ParseTreeType, cursor: usize) -> (r: SyntaxError)
    ensures
        r@ == syntax::expected(seq![t], while_parsing, cursor as int),
{
    let v = vec![t];
    proof {
        assert(v@ =~= seq![t]);
    }
    SyntaxError::expected(v, while_parsing, cursor)
}

/// The value of a hexadecimal digit.
fn hex_value(c: char) -> (r: u32)
    requires
        syntax::is_hex_digit(c),
    ensures
        r == syntax::digit_value(c),
        r < 16,
{
    if '0' <= c && c <= '9' {
        (c as u32) - ('0' as u32)
    } else if 'a' <= c && c <= 'f' {
        (c as u32) - ('a' as u32) + 10
    } else {
        (c as u32) - ('A' as u32) + 10
    }
}

/// The escape sequence whose backslash is under the cursor.
fn escape(scanner: &mut Scanner) -> (r: ParseResult<char>)
    requires
        scanner::peek_of(old(scanner)@) == Some('\\'),
    ensures
        same_text(*old(scanner), *final(scanner)),
        (r@, final(scanner)@.cursor) == syntax::escape(old(scanner)@.chars, old(scanner)@.cursor),
{
    let q = scanner.cursor();
    scanner.take('\\');
    let simple: [char; 6] = ['\\', 'n', 't', 'r', '0', '"'];
    proof {
        let c = old(scanner)@.chars;
        if q + 1 < c.len() {
            let ch = c[q + 1];
            if syntax::simple_escape(ch) is Some {
                if ch == '\\' { assert(simple@[0] == ch); }
                if ch == 'n' { assert(simple@[1] == ch); }
                if ch == 't' { assert(simple@[2] == ch); }
                if ch == 'r' { assert(simple@[3] == ch); }
                if ch == '0' { assert(simple@[4] == ch); }
                if ch == '"' { assert(simple@[5] == ch); }
            }
            assert(simple@.contains(ch) ==> syntax::simple_escape(ch) is Some);
        }
    }
    match scanner.take_of(simple.as_slice()) {
        Some(c) => {
            let mapped = if c == '\\' {
                '\\'
            } else if c == 'n' {
                '\n'
            } else if c == 't' {
                '\t'
            } else if c == 'r' {
                '\r'
            } else if c == '0' {
                '\0'
            } else {
                '"'
            };
            return ScanResult::Valid(mapped);
        },
        None => {},
    }
    if scanner.take('x') {
        let h1 = match scanner.take_if(|c: char| -> (b: bool) ensures b == syntax::is_hex_digit(c) { ('0' <= c && c <= '9') || ('a' <= c && c <= 'f') || ('A' <= c && c <= 'F') }) {
            Some(c) => c,
            None => {
                let cur = scanner.cursor();
                return ScanResult::WithErr(expect1(TokenType::EscapeSequence, ParseTreeType::Literal, cur));
            },
        };
        let h2 = match scanner.take_if(|c: char| -> (b: bool) ensures b == syntax::is_hex_digit(c) { ('0' <= c && c <= '9') || ('a' <= c && c <= 'f') || ('A' <= c && c <= 'F') }) {
            Some(c) => c,
            None => {
                let cur = scanner.cursor();
                return ScanResult::WithErr(expect1(TokenType::EscapeSequence, ParseTreeType::Literal, cur));
            },
        };
        let v = 16 * hex_value(h1) + hex_value(h2);
        let ch = (v as u8) as char;
        proof {
            assert(ch == (16 * syntax::digit_value(h1) + syntax::digit_value(h2)) as char);
        }
        ScanResult::Valid(ch)
    } else {
        let cur = scanner.cursor();
        ScanResult::WithErr(expect1(TokenType::EscapeSequence, ParseTreeType::Literal, cur))
    }
}


/// One character of a string literal's body.
fn string_char(scanner: &mut Scanner) -> (r: ParseResult<char>)
    ensures
        same_text(*old(scanner), *final(scanner)),
        (r@, final(scanner)@.cursor) == syntax::string_char(old(scanner)@.chars, old(scanner)@.cursor),
{
    let q = scanner.cursor();
    match scanner.peek() {
        Some(c) => {
            if c == '\\' {
                escape(scanner)
            } else if c == '"' {
                ScanResult::Unrecognised
            } else {
                scanner.pop();
                ScanResult::Valid(c)
            }
        },
        None => ScanResult::WithErr(expect1(TokenType::Quote, ParseTreeType::Literal, q)),
    }
}

/// Returns a Literal
fn literal_string(scanner: &mut Scanner) -> (r: ParseResult<Literal>)
    ensures
        same_text(*old(scanner), *final(scanner)),
        (r@, final(scanner)@.cursor) == syntax::literal_string(old(scanner)@.chars, old(scanner)@.cursor),
        r is Valid ==> old(scanner)@.cursor < final(scanner)@.cursor,
{
    let ghost c = old(scanner)@.chars;
    let p = scanner.cursor();
    if !scanner.take('"') {
        return ScanResult::Unrecognised;
    }
    let mut sb = String::new();
    let mut failure: Option<SyntaxError> = None;
    loop
        invariant_except_break
            p + 1 <= scanner@.cursor <= c.len(),
            failure is None,
            syntax::string_chars(c, p + 1) == ({
                let (rest, err, end) = syntax::string_chars(c, scanner@.cursor);
                (sb@ + rest, err, end)
            }),
        invariant
            same_text(*old(scanner), *scanner),
            c == old(scanner)@.chars,
        ensures
            failure is None ==> p + 1 <= scanner@.cursor,
            syntax::string_chars(c, p + 1) == (sb@, match failure {
                Some(e) => Some(e@),
                None => None::<crate::error::SpecSyntaxError>,
            }, scanner@.cursor),
        decreases c.len() - scanner@.cursor,
    {
        let q = scanner.cursor();
        let ghost old_sb = sb@;
        match string_char(scanner) {
            ScanResult::Valid(ch) => {
                push_char(&mut sb, ch);
                proof {
                    let (rest, err, end) = syntax::string_chars(c, scanner@.cursor);
                    assert(old_sb + (seq![ch] + rest) =~= sb@ + rest);
                }
            },
            ScanResult::WithErr(e) => {
                proof {
                    assert(old_sb + Seq::empty() =~= old_sb);
                }
                failure = Some(e);
                break;
            },
            ScanResult::Unrecognised => {
                proof {
                    assert(old_sb + Seq::empty() =~= old_sb);
                }
                break;
            },
        }
    }
    if let Some(e) = failure {
        return ScanResult::WithErr(e);
    }
    scanner.advance(1);
    ScanResult::Valid(Literal::String(sb))
}


pub(crate) proof fn lemma_digits_value_prefix(d: Seq<char>, radix: u8, i: int)
    requires
        0 <= i <= d.len(),
        radix >= 1,
        forall|j: int| 0 <= j < d.len() ==> syntax::is_hex_digit(#[trigger] d[j]),
    ensures
        syntax::digits_value(d.take(i), radix) <= syntax::digits_value(d, radix),
    decreases d.len() - i,
{
    if i < d.len() {
        lemma_digits_value_prefix(d, radix, i + 1);
        let t = d.take(i + 1);
        assert(t.drop_last() =~= d.take(i));
        let v = syntax::digits_value(d.take(i), radix);
        assert(t.last() == d[i]);
        assert(syntax::digit_value(d[i]) >= 0);
        assert(v * radix >= v) by (nonlinear_arith)
            requires
                v >= 0,
                radix >= 1,
        ;
    } else {
        assert(d.take(i) =~= d);
    }
}

/// Parses an integer (including prefix, not including suffix) using radix (radix ∈ [2, 8, 10, 16])
fn literal_integer_radix(scanner: &mut Scanner, radix: u8) -> (r: ParseResult<u128>)
    requires
        radix == 2 || radix == 8 || radix == 10 || radix == 16,
    ensures
        same_text(*old(scanner), *final(scanner)),
        (r@, final(scanner)@.cursor) == syntax::literal_integer_radix(old(scanner)@.chars, old(scanner)@.cursor, radix),
        old(scanner)@.cursor <= final(scanner)@.cursor,
        r is Valid ==> old(scanner)@.cursor < final(scanner)@.cursor,
{
    let ghost c = old(scanner)@.chars;
    let start_of_int = scanner.cursor();
    let prefix: &str = if radix == 2 {
        "0b"
    } else if radix == 8 {
        "0o"
    } else if radix == 10 {
        ""
    } else {
        "0x"
    };
    proof {
        reveal_strlit("0b");
        reveal_strlit("0o");
        reveal_strlit("");
        reveal_strlit("0x");
        assert(prefix@ =~= syntax::radix_prefix(radix));
        assert(vstd::utf8::is_ascii_chars(prefix@));
        lemma_ascii_len(prefix);
    }
    if !scanner.take_str(prefix) {
        return ScanResult::Unrecognised;
    }
    let q = scanner.cursor();
    let mut digits: Vec<char> = Vec::new();
    loop
        invariant
            same_text(*old(scanner), *scanner),
            c == old(scanner)@.chars,
            q <= scanner@.cursor <= c.len(),
            digits@ == c.subrange(q as int, scanner@.cursor),
            forall|j: int| 0 <= j < digits@.len() ==> syntax::is_radix_digit(radix, #[trigger] digits@[j]),
            syntax::digits_end(c, q as int, radix) == syntax::digits_end(c, scanner@.cursor, radix),
        ensures
            syntax::digits_end(c, q as int, radix) == scanner@.cursor,
        decreases c.len() - scanner@.cursor,
    {
        match scanner.take_if(|ch: char| -> (b: bool) ensures b == syntax::is_radix_digit(radix, ch) {
            if radix == 2 {
                ch == '0' || ch == '1'
            } else if radix == 8 {
                '0' <= ch && ch <= '7'
            } else if radix == 10 {
                '0' <= ch && ch <= '9'
            } else {
                ('0' <= ch && ch <= '9') || ('a' <= ch && ch <= 'f') || ('A' <= ch && ch <= 'F')
            }
        }) {
            Some(d) => {
                digits.push(d);
                proof {
                    assert(digits@ =~= c.subrange(q as int, scanner@.cursor));
                }
            },
            None => {
                break;
            },
        }
    }
    if digits.len() == 0 {
        if radix != 10 {
            return ScanResult::WithErr(expect1(TokenType::Number, ParseTreeType::Literal, q));
        } else {
            return ScanResult::Unrecognised;
        }
    }
    let ghost d = digits@;
    proof {
        assert(d.take(d.len() as int) =~= d);
    }
    let mut value: u128 = 0;
    let mut overflowed = false;
    let mut i: usize = 0;
    while i < digits.len()
        invariant_except_break
            !overflowed,
            value == syntax::digits_value(d.take(i as int), radix),
        invariant
            d == digits@,
            d.take(d.len() as int) == d,
            i <= digits@.len(),
            forall|j: int| 0 <= j < d.len() ==> syntax::is_radix_digit(radix, #[trigger] d[j]),
            radix == 2 || radix == 8 || radix == 10 || radix == 16,
        ensures
            overflowed ==> syntax::digits_value(d, radix) > u128::MAX,
            !overflowed ==> value == syntax::digits_value(d, radix),
        decreases digits.len() - i,
    {
        let dv = hex_value(digits[i]) as u128;
        proof {
            assert(d.take(i + 1).drop_last() =~= d.take(i as int));
            assert(dv == syntax::digit_value(d[i as int]));
        }
        match value.checked_mul(radix as u128) {
            Some(m) => match m.checked_add(dv) {
                Some(v2) => {
                    value = v2;
                },
                None => {
                    proof {
                        lemma_digits_value_prefix(d, radix, i + 1);
                    }
                    overflowed = true;
                    break;
                },
            },
            None => {
                proof {
                    lemma_digits_value_prefix(d, radix, i + 1);
                    assert(syntax::digits_value(d.take(i + 1), radix) >= value * radix);
                }
                overflowed = true;
                break;
            },
        }
        i += 1;
        proof {
            if i == d.len() {
                assert(d.take(i as int) =~= d);
            }
        }
    }
    proof {
        if i == 0 {
            assert(d.take(0) =~= Seq::<char>::empty());
        }
    }
    if overflowed {
        let mut num = crate::utils::owned(prefix);
        let mut j: usize = 0;
        while j < digits.len()
            invariant
                j <= digits@.len(),
                num@ == prefix@ + digits@.take(j as int),
            decreases digits.len() - j,
        {
            push_char(&mut num, digits[j]);
            proof {
                assert(prefix@ + digits@.take(j + 1) =~= (prefix@ + digits@.take(j as int)).push(digits@[j as int]));
            }
            j += 1;
        }
        proof {
            assert(digits@.take(digits@.len() as int) =~= digits@);
        }
        return ScanResult::WithErr(SyntaxError::new(
            SyntaxErrorKind::LiteralIntegerOverflow { num, target_type: crate::analyser::TowerType::U128 },
            ParseTreeType::Literal,
            start_of_int,
        ));
    }
    ScanResult::Valid(value)
}


/// The number written in binary, octal, hexadecimal or decimal (tried in that order) under
/// the cursor; with whether it was written in decimal.
fn literal_number(scanner: &mut Scanner) -> (r: ParseResult<(u128, bool)>)
    ensures
        same_text(*old(scanner), *final(scanner)),
        (r@, final(scanner)@.cursor) == syntax::literal_number(old(scanner)@.chars, old(scanner)@.cursor),
        old(scanner)@.cursor <= final(scanner)@.cursor,
        r is Valid ==> old(scanner)@.cursor < final(scanner)@.cursor,
{
    let radixes: [u8; 4] = [2, 8, 16, 10];
    match literal_integer_radix(scanner, 2) {
        ScanResult::Valid(n) => return ScanResult::Valid((n, false)),
        ScanResult::WithErr(e) => return ScanResult::WithErr(e),
        ScanResult::Unrecognised => {},
    }
    match literal_integer_radix(scanner, 8) {
        ScanResult::Valid(n) => return ScanResult::Valid((n, false)),
        ScanResult::WithErr(e) => return ScanResult::WithErr(e),
        ScanResult::Unrecognised => {},
    }
    match literal_integer_radix(scanner, 16) {
        ScanResult::Valid(n) => return ScanResult::Valid((n, false)),
        ScanResult::WithErr(e) => return ScanResult::WithErr(e),
        ScanResult::Unrecognised => {},
    }
    match literal_integer_radix(scanner, 10) {
        ScanResult::Valid(n) => ScanResult::Valid((n, true)),
        ScanResult::WithErr(e) => ScanResult::WithErr(e),
        ScanResult::Unrecognised => ScanResult::Unrecognised,
    }
}

/// The type suffix under the cursor (`u` or `i`, then perhaps a size), if there is one.
fn literal_suffix(scanner: &mut Scanner) -> (r: ParseResult<Option<(bool, Option<u128>)>>)
    ensures
        same_text(*old(scanner), *final(scanner)),
        (r@, final(scanner)@.cursor) == syntax::literal_suffix(old(scanner)@.chars, old(scanner)@.cursor),
        old(scanner)@.cursor <= final(scanner)@.cursor,
{
    let letters: [char; 2] = ['u', 'i'];
    let signed = match scanner.take_of(letters.as_slice()) {
        Some(c) => c == 'i',
        None => {
            proof {
                let c = old(scanner)@.chars;
                let p = old(scanner)@.cursor;
                if 0 <= p < c.len() && c[p] == 'u' { assert(letters@[0] == c[p]); }
                if 0 <= p < c.len() && c[p] == 'i' { assert(letters@[1] == c[p]); }
            }
            return ScanResult::Valid(None);
        },
    };
    match literal_integer_radix(scanner, 10) {
        ScanResult::Valid(b) => ScanResult::Valid(Some((signed, Some(b)))),
        ScanResult::WithErr(e) => ScanResult::WithErr(e),
        ScanResult::Unrecognised => ScanResult::Valid(Some((signed, None))),
    }
}

/// Checks that `num` fits the unsigned type `num_type`; otherwise the overflow error at `cursor`.
fn downcast_uint(num: u128, num_type: TowerType, cursor: usize) -> (r: ParseResult<u128>)
    requires
        num_type == TowerType::U64 || num_type == TowerType::U32 || num_type == TowerType::U16 || num_type == TowerType::U8,
    ensures
        r@ == if num <= syntax::uint_max(num_type@) {
            ScanResult::Valid(num)
        } else {
            ScanResult::WithErr(syntax::overflow(num, num_type@, cursor as int))
        },
{
    let max: u128 = match num_type {
        TowerType::U64 => 0xffff_ffff_ffff_ffffu128,
        TowerType::U32 => 0xffff_ffffu128,
        TowerType::U16 => 0xffffu128,
        _ => 0xffu128,
    };
    if num <= max {
        ScanResult::Valid(num)
    } else {
        ScanResult::WithErr(SyntaxError::new(
            SyntaxErrorKind::LiteralIntegerOverflow { num: crate::utils::u128_to_decimal(num), target_type: num_type },
            ParseTreeType::Literal,
            cursor,
        ))
    }
}

/// The type an integer literal is given from its suffix, sign and base.
fn literal_type(suffix: Option<(bool, Option<u128>)>, negative: bool, denary: bool, start_of_suffix: usize) -> (r: Result<TowerType, SyntaxError>)
    requires
        suffix is Some ==> start_of_suffix < usize::MAX,
    ensures
        match r {
            Ok(t) => syntax::literal_type(suffix, negative, denary, start_of_suffix as int) == Ok::<SpecTowerType, crate::error::SpecSyntaxError>(t@),
            Err(e) => syntax::literal_type(suffix, negative, denary, start_of_suffix as int) == Err::<SpecTowerType, crate::error::SpecSyntaxError>(e@),
        },
{
    match suffix {
        Some((signed, Some(bits))) => {
            if !signed && negative {
                return Err(SyntaxError::new(SyntaxErrorKind::NegativeUnsignedLiteral, ParseTreeType::Literal, start_of_suffix));
            }
            if bits == 8 {
                Ok(if signed { TowerType::I8 } else { TowerType::U8 })
            } else if bits == 16 {
                Ok(if signed { TowerType::I16 } else { TowerType::U16 })
            } else if bits == 32 {
                Ok(if signed { TowerType::I32 } else { TowerType::U32 })
            } else if bits == 64 {
                Ok(if signed { TowerType::I64 } else { TowerType::U64 })
            } else if bits == 128 {
                Ok(if signed { TowerType::I128 } else { TowerType::U128 })
            } else {
                Err(SyntaxError::new(SyntaxErrorKind::InvalidIntegerSize, ParseTreeType::Literal, start_of_suffix + 1))
            }
        },
        Some((signed, None)) => {
            if !signed && negative {
                return Err(SyntaxError::new(SyntaxErrorKind::NegativeUnsignedLiteral, ParseTreeType::Literal, start_of_suffix));
            }
            if signed {
                Ok(TowerType::I32)
            } else {
                Ok(TowerType::U32)
            }
        },
        None => if denary {
            Ok(TowerType::I32)
        } else if negative {
            Err(SyntaxError::new(SyntaxErrorKind::NegativeUnsignedLiteral, ParseTreeType::Literal, start_of_suffix))
        } else {
            Ok(TowerType::U32)
        },
    }
}

/// The literal of the signed type `num_type` holding `-num`; see `negated_literal`.
fn negated_literal(num: u128, num_type: TowerType, cursor: usize) -> (r: ParseResult<Literal>)
    requires
        syntax::is_signed(num_type@),
    ensures
        match syntax::negated_literal(num, num_type@, cursor as int) {
            Ok(l) => r@ == ScanResult::<tree::SpecLiteral, crate::error::SpecSyntaxError>::Valid(l),
            Err(x) => r@ == ScanResult::<tree::SpecLiteral, crate::error::SpecSyntaxError>::WithErr(x),
        },
{
    let limit: u128 = match num_type {
        TowerType::I8 => 0x80u128,
        TowerType::I16 => 0x8000u128,
        TowerType::I32 => 0x8000_0000u128,
        TowerType::I64 => 0x8000_0000_0000_0000u128,
        _ => 0x8000_0000_0000_0000_0000_0000_0000_0000u128,
    };
    if num > limit {
        return ScanResult::WithErr(SyntaxError::new(
            SyntaxErrorKind::LiteralIntegerOverflow { num: crate::utils::u128_to_decimal(num), target_type: num_type },
            ParseTreeType::Literal,
            cursor,
        ));
    }
    let lit = match num_type {
        TowerType::I8 => Literal::I8((0i16 - (num as i16)) as i8),
        TowerType::I16 => Literal::I16((0i32 - (num as i32)) as i16),
        TowerType::I32 => Literal::I32((0i64 - (num as i64)) as i32),
        TowerType::I64 => Literal::I64((0i128 - (num as i128)) as i64),
        _ => if num == limit {
            Literal::I128(i128::MIN)
        } else {
            Literal::I128(0i128 - (num as i128))
        },
    };
    ScanResult::Valid(lit)
}

/// Returns a Literal
fn literal_integer(scanner: &mut Scanner) -> (r: ParseResult<Literal>)
    ensures
        same_text(*old(scanner), *final(scanner)),
        (r@, final(scanner)@.cursor) == syntax::literal_integer(old(scanner)@.chars, old(scanner)@.cursor),
        r is Valid ==> old(scanner)@.cursor < final(scanner)@.cursor,
{
    let negative = scanner.take('-');
    let start_of_int = scanner.cursor();
    let (num, denary) = match literal_number(scanner) {
        ScanResult::Valid(v) => v,
        ScanResult::WithErr(e) => return ScanResult::WithErr(e),
        ScanResult::Unrecognised => return ScanResult::Unrecognised,
    };
    let start_of_suffix = scanner.cursor();
    let suffix = match literal_suffix(scanner) {
        ScanResult::Valid(v) => v,
        ScanResult::WithErr(e) => return ScanResult::WithErr(e),
        ScanResult::Unrecognised => return ScanResult::Unrecognised,
    };
    let _ = scanner.cursor();
    let num_type = match literal_type(suffix, negative, denary, start_of_suffix) {
        Ok(t) => t,
        Err(e) => return ScanResult::WithErr(e),
    };
    if negative {
        match num_type {
            TowerType::I8 | TowerType::I16 | TowerType::I32 | TowerType::I64 | TowerType::I128 => {
                return negated_literal(num, num_type, start_of_int);
            },
            _ => {},
        }
    }
    let literal = match num_type {
        TowerType::U128 => Literal::U128(num),
        TowerType::U64 => match downcast_uint(num, TowerType::U64, start_of_int) {
            ScanResult::Valid(n) => Literal::U64(n as u64),
            ScanResult::WithErr(e) => return ScanResult::WithErr(e),
            ScanResult::Unrecognised => return ScanResult::Unrecognised,
        },
        TowerType::U32 => match downcast_uint(num, TowerType::U32, start_of_int) {
            ScanResult::Valid(n) => Literal::U32(n as u32),
            ScanResult::WithErr(e) => return ScanResult::WithErr(e),
            ScanResult::Unrecognised => return ScanResult::Unrecognised,
        },
        TowerType::U16 => match downcast_uint(num, TowerType::U16, start_of_int) {
            ScanResult::Valid(n) => Literal::U16(n as u16),
            ScanResult::WithErr(e) => return ScanResult::WithErr(e),
            ScanResult::Unrecognised => return ScanResult::Unrecognised,
        },
        TowerType::U8 => match downcast_uint(num, TowerType::U8, start_of_int) {
            ScanResult::Valid(n) => Literal::U8(n as u8),
            ScanResult::WithErr(e) => return ScanResult::WithErr(e),
            ScanResult::Unrecognised => return ScanResult::Unrecognised,
        },
        TowerType::I128 => Literal::I128(num as i128),
        TowerType::I64 => match downcast_uint(num, TowerType::U64, start_of_int) {
            ScanResult::Valid(n) => Literal::I64(n as u64 as i64),
            ScanResult::WithErr(e) => return ScanResult::WithErr(e),
            ScanResult::Unrecognised => return ScanResult::Unrecognised,
        },
        TowerType::I32 => match downcast_uint(num, TowerType::U32, start_of_int) {
            ScanResult::Valid(n) => Literal::I32(n as u32 as i32),
            ScanResult::WithErr(e) => return ScanResult::WithErr(e),
            ScanResult::Unrecognised => return ScanResult::Unrecognised,
        },
        TowerType::I16 => match downcast_uint(num, TowerType::U16, start_of_int) {
            ScanResult::Valid(n) => Literal::I16(n as u16 as i16),
            ScanResult::WithErr(e) => return ScanResult::WithErr(e),
            ScanResult::Unrecognised => return ScanResult::Unrecognised,
        },
        _ => match downcast_uint(num, TowerType::U8, start_of_int) {
            ScanResult::Valid(n) => Literal::I8(n as u8 as i8),
            ScanResult::WithErr(e) => return ScanResult::WithErr(e),
            ScanResult::Unrecognised => return ScanResult::Unrecognised,
        },
    };
    ScanResult::Valid(literal)
}


/// Returns a Literal (floating-point literals are not recognised yet)
fn literal_float(scanner: &mut Scanner) -> (r: ParseResult<Literal>)
    ensures
        *final(scanner) == *old(scanner),
        r is Unrecognised,
{
    ScanResult::Unrecognised
}

/// Returns a Literal ASTNode
fn literal(scanner: &mut Scanner) -> (r: ParseResult<ParseTree>)
    ensures
        same_text(*old(scanner), *final(scanner)),
        (r@, final(scanner)@.cursor) == syntax::literal(old(scanner)@.chars, old(scanner)@.cursor),
        r is Valid ==> old(scanner)@.cursor < final(scanner)@.cursor,
{
    match literal_string(scanner) {
        ScanResult::Valid(l) => return ScanResult::Valid(ParseTree::Literal(l)),
        ScanResult::WithErr(e) => return ScanResult::WithErr(e),
        ScanResult::Unrecognised => {},
    }
    let p = scanner.cursor();
    match literal_integer(scanner) {
        ScanResult::Valid(l) => return ScanResult::Valid(ParseTree::Literal(l)),
        ScanResult::WithErr(e) => return ScanResult::WithErr(e),
        ScanResult::Unrecognised => scanner.rewind(p),
    }
    match literal_float(scanner) {
        ScanResult::Valid(l) => ScanResult::Valid(ParseTree::Literal(l)),
        ScanResult::WithErr(e) => ScanResult::WithErr(e),
        ScanResult::Unrecognised => ScanResult::Unrecognised,
    }
}

/// A struct constructor: `->`, whitespace, the struct's name
fn constructor_struct(scanner: &mut Scanner) -> (r: ParseResult<ParseTree>)
    ensures
        same_text(*old(scanner), *final(scanner)),
        (r@, final(scanner)@.cursor) == syntax::constructor_struct(old(scanner)@.chars, old(scanner)@.cursor),
        r is Valid ==> old(scanner)@.cursor < final(scanner)@.cursor,
{
    let p = scanner.cursor();
    let arrow: &str = "->";
    proof {
        reveal_strlit("->");
        assert(arrow@ =~= seq!['-', '>']);
        lemma_ascii_len(arrow);
    }
    if !scanner.take_str(arrow) {
        return ScanResult::Unrecognised;
    }
    let q = scanner.cursor();
    if !s(scanner).is_valid() {
        return ScanResult::WithErr(expect1(TokenType::Whitespace, ParseTreeType::Constructor, q));
    }
    skip_ws(scanner);
    let w = scanner.cursor();
    match identifier(scanner) {
        ScanResult::Valid(ParseTree::Identifier(ident)) => ScanResult::Valid(ParseTree::Constructor(ident)),
        _ => ScanResult::WithErr(expect1(TokenType::Identifier, ParseTreeType::Constructor, w)),
    }
}

/// One element of a block body (an identifier, a literal or a struct constructor) with the
/// whitespace around it; the cursor goes back where it was if there is none.
fn block_item(scanner: &mut Scanner) -> (r: ParseResult<ParseTreeNode>)
    ensures
        same_text(*old(scanner), *final(scanner)),
        (r@, final(scanner)@.cursor) == syntax::block_item(old(scanner)@.chars, old(scanner)@.cursor, old(scanner)@.file_path),
        r is Valid ==> old(scanner)@.cursor < final(scanner)@.cursor,
{
    let r = scanner.cursor();
    skip_ws(scanner);
    let r1 = scanner.cursor();
    let tree = match identifier(scanner) {
        ScanResult::Valid(t) => t,
        ScanResult::WithErr(e) => return ScanResult::WithErr(e),
        ScanResult::Unrecognised => match literal(scanner) {
            ScanResult::Valid(t) => t,
            ScanResult::WithErr(e) => return ScanResult::WithErr(e),
            ScanResult::Unrecognised => match constructor_struct(scanner) {
                ScanResult::Valid(t) => t,
                ScanResult::WithErr(e) => return ScanResult::WithErr(e),
                ScanResult::Unrecognised => {
                    scanner.rewind(r);
                    return ScanResult::Unrecognised;
                },
            },
        },
    };
    skip_ws(scanner);
    let node = tree.wrap(scanner.file_path(), r1);
    ScanResult::Valid(node)
}

/// Returns a Block ASTNode
fn block(scanner: &mut Scanner) -> (r: ParseResult<Vec<ParseTreeNode>>)
    ensures
        same_text(*old(scanner), *final(scanner)),
        (map_valid(r@, |v: Seq<ParseTreeNode>| view_nodes(v)), final(scanner)@.cursor)
            == syntax::block(old(scanner)@.chars, old(scanner)@.cursor, old(scanner)@.file_path),
        r is Valid ==> old(scanner)@.cursor < final(scanner)@.cursor,
{
    let ghost c = old(scanner)@.chars;
    let ghost fp = old(scanner)@.file_path;
    let p = scanner.cursor();
    if !scanner.take('{') {
        return ScanResult::Unrecognised;
    }
    let mut nodes: Vec<ParseTreeNode> = Vec::new();
    let mut failure: Option<SyntaxError> = None;
    proof {
        assert(view_nodes(nodes@) + syntax::block_items(c, p + 1, fp).0 =~= syntax::block_items(c, p + 1, fp).0);
    }
    loop
        invariant_except_break
            p + 1 <= scanner@.cursor <= c.len(),
            failure is None,
            syntax::block_items(c, p + 1, fp) == ({
                let (rest, err, end) = syntax::block_items(c, scanner@.cursor, fp);
                (view_nodes(nodes@) + rest, err, end)
            }),
        invariant
            same_text(*old(scanner), *scanner),
            c == old(scanner)@.chars,
            fp == old(scanner)@.file_path,
        ensures
            failure is None ==> p + 1 <= scanner@.cursor,
            syntax::block_items(c, p + 1, fp) == (view_nodes(nodes@), error_view(failure), scanner@.cursor),
        decreases c.len() - scanner@.cursor,
    {
        let ghost old_nodes = nodes@;
        let q = scanner.cursor();
        match block_item(scanner) {
            ScanResult::Valid(n) => {
                let _ = scanner.cursor();
                nodes.push(n);
                proof {
                    let (rest, err, end) = syntax::block_items(c, scanner@.cursor, fp);
                    assert(view_nodes(nodes@) =~= view_nodes(old_nodes) + seq![n@]);
                    assert(view_nodes(old_nodes) + (seq![n@] + rest) =~= view_nodes(nodes@) + rest);
                }
            },
            ScanResult::WithErr(e) => {
                proof {
                    assert(view_nodes(old_nodes) + Seq::empty() =~= view_nodes(old_nodes));
                }
                failure = Some(e);
                break;
            },
            ScanResult::Unrecognised => {
                proof {
                    assert(view_nodes(old_nodes) + Seq::empty() =~= view_nodes(old_nodes));
                }
                break;
            },
        }
    }
    if let Some(e) = failure {
        return ScanResult::WithErr(e);
    }
    skip_ws(scanner);
    let t = scanner.cursor();
    if scanner.take('}') {
        ScanResult::Valid(nodes)
    } else {
        let v = vec![TokenType::Identifier, TokenType::Literal, TokenType::RCurlyParen];
        proof {
            assert(v@ =~= seq![TokenType::Identifier, TokenType::Literal, TokenType::RCurlyParen]);
        }
        ScanResult::WithErr(SyntaxError::expected(v, ParseTreeType::Function, t))
    }
}

/// Returns a Function ASTNode, paired with the function name
fn function(scanner: &mut Scanner) -> (r: ParseResult<(String, ParseTree)>)
    ensures
        same_text(*old(scanner), *final(scanner)),
        (r@, final(scanner)@.cursor) == syntax::function(old(scanner)@.chars, old(scanner)@.cursor, old(scanner)@.file_path),
        r is Valid ==> old(scanner)@.cursor < final(scanner)@.cursor,
{
    let p = scanner.cursor();
    let keyword: &str = "fn";
    proof {
        reveal_strlit("fn");
        assert(keyword@ =~= seq!['f', 'n']);
        lemma_ascii_len(keyword);
    }
    if !scanner.take_str(keyword) {
        return ScanResult::Unrecognised;
    }
    let q = scanner.cursor();
    if !s(scanner).is_valid() {
        return ScanResult::WithErr(expect1(TokenType::Whitespace, ParseTreeType::Function, q));
    }
    skip_ws(scanner);
    let w = scanner.cursor();
    let name = match identifier(scanner) {
        ScanResult::Valid(ParseTree::Identifier(n)) => n,
        _ => return ScanResult::WithErr(expect1(TokenType::Identifier, ParseTreeType::Function, w)),
    };
    skip_ws(scanner);
    let e2 = scanner.cursor();
    match block(scanner) {
        ScanResult::Unrecognised => ScanResult::WithErr(expect1(TokenType::Block, ParseTreeType::Function, e2)),
        ScanResult::WithErr(e) => ScanResult::WithErr(e),
        ScanResult::Valid(body) => {
            let fn_name = crate::utils::owned(name.as_str());
            let tree = ParseTree::Function { name, body };
            proof {
                let b = match tree@ {
                    SpecParseTree::Function { body: b, .. } => b,
                    _ => Seq::empty(),
                };
                assert(b =~= view_nodes(body@));
            }
            ScanResult::Valid((fn_name, tree))
        },
    }
}

/// One field of a struct (`name: type`), after any whitespace; the cursor goes back where it
/// was if there is none.
fn struct_field(scanner: &mut Scanner) -> (r: ParseResult<(String, String)>)
    ensures
        same_text(*old(scanner), *final(scanner)),
        (r@, final(scanner)@.cursor) == syntax::struct_field(old(scanner)@.chars, old(scanner)@.cursor),
        r is Valid ==> old(scanner)@.cursor < final(scanner)@.cursor,
{
    let r0 = scanner.cursor();
    skip_ws(scanner);
    let field_name = match identifier(scanner) {
        ScanResult::Valid(ParseTree::Identifier(n)) => n,
        _ => {
            scanner.rewind(r0);
            return ScanResult::Unrecognised;
        },
    };
    skip_ws(scanner);
    let r3 = scanner.cursor();
    if !scanner.take(':') {
        return ScanResult::WithErr(expect1(TokenType::Colon, ParseTreeType::Struct, r3));
    }
    skip_ws(scanner);
    let r4 = scanner.cursor();
    let field_type = match identifier(scanner) {
        ScanResult::Valid(ParseTree::Identifier(n)) => n,
        _ => return ScanResult::WithErr(expect1(TokenType::Identifier, ParseTreeType::Struct, r4)),
    };
    ScanResult::Valid((field_name, field_type))
}

/// A struct definition: `struct`, its name, and its fields in braces; paired with its name
fn structure(scanner: &mut Scanner) -> (r: ParseResult<(String, ParseTree)>)
    ensures
        same_text(*old(scanner), *final(scanner)),
        (r@, final(scanner)@.cursor) == syntax::structure(old(scanner)@.chars, old(scanner)@.cursor),
        r is Valid ==> old(scanner)@.cursor < final(scanner)@.cursor,
{
    let ghost c = old(scanner)@.chars;
    let p = scanner.cursor();
    let keyword: &str = "struct";
    proof {
        reveal_strlit("struct");
        assert(keyword@ =~= seq!['s', 't', 'r', 'u', 'c', 't']);
        lemma_ascii_len(keyword);
    }
    if !scanner.take_str(keyword) {
        return ScanResult::Unrecognised;
    }
    let q = scanner.cursor();
    if !s(scanner).is_valid() {
        return ScanResult::WithErr(expect1(TokenType::Whitespace, ParseTreeType::Struct, q));
    }
    skip_ws(scanner);
    let w = scanner.cursor();
    let name = match identifier(scanner) {
        ScanResult::Valid(ParseTree::Identifier(n)) => n,
        _ => return ScanResult::WithErr(expect1(TokenType::Identifier, ParseTreeType::Struct, w)),
    };
    skip_ws(scanner);
    let e2 = scanner.cursor();
    if !scanner.take('{') {
        return ScanResult::WithErr(expect1(TokenType::LCurlyParen, ParseTreeType::Struct, e2));
    }
    let mut fields: Vec<(String, String)> = Vec::new();
    let mut failure: Option<SyntaxError> = None;
    proof {
        assert(view_string_pairs(fields@) + syntax::struct_fields(c, e2 + 1).0 =~= syntax::struct_fields(c, e2 + 1).0);
    }
    loop
        invariant_except_break
            e2 + 1 <= scanner@.cursor <= c.len(),
            failure is None,
            syntax::struct_fields(c, e2 + 1) == ({
                let (rest, err, end) = syntax::struct_fields(c, scanner@.cursor);
                (view_string_pairs(fields@) + rest, err, end)
            }),
        invariant
            same_text(*old(scanner), *scanner),
            c == old(scanner)@.chars,
        ensures
            failure is None ==> e2 + 1 <= scanner@.cursor,
            syntax::struct_fields(c, e2 + 1) == (view_string_pairs(fields@), error_view(failure), scanner@.cursor),
        decreases c.len() - scanner@.cursor,
    {
        let ghost old_fields = fields@;
        let q = scanner.cursor();
        match struct_field(scanner) {
            ScanResult::Valid(f) => {
                let _ = scanner.cursor();
                fields.push(f);
                proof {
                    let (rest, err, end) = syntax::struct_fields(c, scanner@.cursor);
                    assert(view_string_pairs(fields@) =~= view_string_pairs(old_fields) + seq![(f.0@, f.1@)]);
                    assert(view_string_pairs(old_fields) + (seq![(f.0@, f.1@)] + rest) =~= view_string_pairs(fields@) + rest);
                }
            },
            ScanResult::WithErr(e) => {
                let _ = scanner.cursor();
                proof {
                    assert(view_string_pairs(old_fields) + Seq::empty() =~= view_string_pairs(old_fields));
                }
                failure = Some(e);
                break;
            },
            ScanResult::Unrecognised => {
                proof {
                    assert(view_string_pairs(old_fields) + Seq::empty() =~= view_string_pairs(old_fields));
                }
                break;
            },
        }
    }
    if let Some(e) = failure {
        return ScanResult::WithErr(e);
    }
    skip_ws(scanner);
    let t = scanner.cursor();
    if !scanner.take('}') {
        return ScanResult::WithErr(expect1(TokenType::RCurlyParen, ParseTreeType::Struct, t));
    }
    let ghost pairs = fields@;
    let fields = collect_named(fields);
    proof {
        let vf = |s: String| s@;
        lemma_view_from_pairs(pairs, vf);
        assert(view_pairs(pairs, vf) =~= view_string_pairs(pairs));
        assert(view_pairs(fields@, vf) =~= view_string_pairs(fields@));
    }
    let struct_name = crate::utils::owned(name.as_str());
    ScanResult::Valid((struct_name, ParseTree::Struct { name, fields }))
}

/// One element of a module (a function or a struct) after any whitespace, paired with its
/// name; the cursor goes back where it was if there is none.
fn module_item(scanner: &mut Scanner) -> (r: ParseResult<(String, ParseTreeNode)>)
    ensures
        same_text(*old(scanner), *final(scanner)),
        (r@, final(scanner)@.cursor) == syntax::module_item(old(scanner)@.chars, old(scanner)@.cursor, old(scanner)@.file_path),
        r is Valid ==> old(scanner)@.cursor < final(scanner)@.cursor,
{
    let r0 = scanner.cursor();
    skip_ws(scanner);
    let r1 = scanner.cursor();
    let (name, tree) = match function(scanner) {
        ScanResult::Valid(v) => v,
        ScanResult::WithErr(e) => return ScanResult::WithErr(e),
        ScanResult::Unrecognised => match structure(scanner) {
            ScanResult::Valid(v) => v,
            ScanResult::WithErr(e) => return ScanResult::WithErr(e),
            ScanResult::Unrecognised => {
                scanner.rewind(r0);
                return ScanResult::Unrecognised;
            },
        },
    };
    let node = tree.wrap(scanner.file_path(), r1);
    ScanResult::Valid((name, node))
}

/// Returns a Module ASTNode
fn module(scanner: &mut Scanner) -> (r: ParseResult<ParseTree>)
    ensures
        same_text(*old(scanner), *final(scanner)),
        (r@, final(scanner)@.cursor) == syntax::module(old(scanner)@.chars, old(scanner)@.cursor, old(scanner)@.file_path),
{
    let ghost c = old(scanner)@.chars;
    let ghost fp = old(scanner)@.file_path;
    let ghost vf = |n: ParseTreeNode| n@;
    let p = scanner.cursor();
    let mut items: Vec<(String, ParseTreeNode)> = Vec::new();
    let mut failure: Option<SyntaxError> = None;
    proof {
        assert(view_pairs(items@, vf) + syntax::module_items(c, p as int, fp).0 =~= syntax::module_items(c, p as int, fp).0);
    }
    loop
        invariant_except_break
            p <= scanner@.cursor <= c.len(),
            failure is None,
            syntax::module_items(c, p as int, fp) == ({
                let (rest, err, end) = syntax::module_items(c, scanner@.cursor, fp);
                (view_pairs(items@, vf) + rest, err, end)
            }),
        invariant
            same_text(*old(scanner), *scanner),
            c == old(scanner)@.chars,
            fp == old(scanner)@.file_path,
            vf == |n: ParseTreeNode| n@,
        ensures
            syntax::module_items(c, p as int, fp) == (view_pairs(items@, vf), error_view(failure), scanner@.cursor),
        decreases c.len() - scanner@.cursor,
    {
        let ghost old_items = items@;
        let q = scanner.cursor();
        match module_item(scanner) {
            ScanResult::Valid(it) => {
                let _ = scanner.cursor();
                items.push(it);
                proof {
                    let (rest, err, end) = syntax::module_items(c, scanner@.cursor, fp);
                    assert(view_pairs(items@, vf) =~= view_pairs(old_items, vf) + seq![(it.0@, it.1@)]);
                    assert(view_pairs(old_items, vf) + (seq![(it.0@, it.1@)] + rest) =~= view_pairs(items@, vf) + rest);
                }
            },
            ScanResult::WithErr(e) => {
                let _ = scanner.cursor();
                proof {
                    assert(view_pairs(old_items, vf) + Seq::empty() =~= view_pairs(old_items, vf));
                }
                failure = Some(e);
                break;
            },
            ScanResult::Unrecognised => {
                proof {
                    assert(view_pairs(old_items, vf) + Seq::empty() =~= view_pairs(old_items, vf));
                }
                break;
            },
        }
    }
    if let Some(e) = failure {
        return ScanResult::WithErr(e);
    }
    let ghost pairs = items@;
    let elems = collect_named(items);
    let tree = ParseTree::Module { name: String::new(), elems };
    proof {
        lemma_view_from_pairs(pairs, vf);
        let m = match tree@ {
            SpecParseTree::Module { elems: m, .. } => m,
            _ => Seq::empty(),
        };
        assert(m =~= view_pairs(elems@, vf));
    }
    ScanResult::Valid(tree)
}

/// Parses a whole source text: a module, then nothing but whitespace.
pub fn parse(scanner: &mut Scanner) -> (r: ParseResult<ParseTreeNode>)
    ensures
        same_text(*old(scanner), *final(scanner)),
        (r@, final(scanner)@.cursor) == syntax::parse(old(scanner)@.chars, old(scanner)@.cursor, old(scanner)@.file_path),
{
    let cursor = scanner.cursor();
    let ret = match module(scanner) {
        ScanResult::Valid(t) => t,
        ScanResult::WithErr(e) => return ScanResult::WithErr(e),
        ScanResult::Unrecognised => return ScanResult::Unrecognised,
    };
    skip_ws(scanner);
    if scanner.has_next() {
        let at = scanner.cursor();
        return ScanResult::WithErr(SyntaxError::new(SyntaxErrorKind::Unexpected, ParseTreeType::Module, at));
    }
    ScanResult::Valid(ret.wrap(scanner.file_path(), cursor))
}

} // verus!
