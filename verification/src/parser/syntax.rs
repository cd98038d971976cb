use vstd::prelude::*;

use super::result::ScanResult;
use super::tree::{ParseTreeType, SpecLiteral, SpecParseTree, SpecParseTreeNode};
use super::TokenType;
use crate::analyser::SpecTowerType;
use crate::error::{SpecSyntaxError, SpecSyntaxErrorKind};
use crate::sorted::{from_pairs, seq_key};
use crate::utils::{decimal, is_white_space, xid_continue, xid_start};

verus! {

// The grammar of tower source text, as functions from the text `c` and a start position to
// what is recognised there and the position after it.

/// An outcome of scanning, and the position the scanner is left at.
pub type Scan<T> = (ScanResult<T, SpecSyntaxError>, int);

pub open spec fn syntax_error(kind: SpecSyntaxErrorKind, while_parsing: ParseTreeType, cursor: int) -> SpecSyntaxError {
    SpecSyntaxError { kind, cursor, while_parsing }
}

pub open spec fn expected(types: Seq<TokenType>, while_parsing: ParseTreeType, cursor: int) -> SpecSyntaxError {
    syntax_error(SpecSyntaxErrorKind::Expected(types), while_parsing, cursor)
}

/// The text `c` holds `s` at position `p`.
pub open spec fn holds_at(c: Seq<char>, p: int, s: Seq<char>) -> bool {
    0 <= p && p + s.len() <= c.len() && c.subrange(p, p + s.len()) == s
}

/// First position at or after `p` that does not hold whitespace.
pub open spec fn ws_end(c: Seq<char>, p: int) -> int
    decreases c.len() - p,
{
    if 0 <= p < c.len() && is_white_space(c[p]) {
        ws_end(c, p + 1)
    } else {
        p
    }
}

pub open spec fn is_ident_start(ch: char) -> bool {
    xid_start(ch) || ch == '_'
}

/// First position at or after `p` that does not hold an identifier-continuing character.
pub open spec fn ident_end(c: Seq<char>, p: int) -> int
    decreases c.len() - p,
{
    if 0 <= p < c.len() && xid_continue(c[p]) {
        ident_end(c, p + 1)
    } else {
        p
    }
}

/// The identifier at `p` and the position after it, if one starts there.
pub open spec fn identifier(c: Seq<char>, p: int) -> Option<(Seq<char>, int)> {
    if 0 <= p < c.len() && is_ident_start(c[p]) {
        let e = ident_end(c, p + 1);
        Some((c.subrange(p, e), e))
    } else {
        None
    }
}

pub open spec fn identifier_tree(c: Seq<char>, p: int) -> Scan<SpecParseTree> {
    match identifier(c, p) {
        Some((id, e)) => (ScanResult::Valid(SpecParseTree::Identifier(id)), e),
        None => (ScanResult::Unrecognised, p),
    }
}

// ---------------------------------------------------------------- string literals

pub open spec fn is_hex_digit(ch: char) -> bool {
    ('0' <= ch && ch <= '9') || ('a' <= ch && ch <= 'f') || ('A' <= ch && ch <= 'F')
}

pub open spec fn digit_value(ch: char) -> int {
    if '0' <= ch && ch <= '9' {
        (ch as int) - ('0' as int)
    } else if 'a' <= ch && ch <= 'z' {
        (ch as int) - ('a' as int) + 10
    } else {
        (ch as int) - ('A' as int) + 10
    }
}

/// What the character after a backslash stands for, for the one-character escapes.
pub open spec fn simple_escape(ch: char) -> Option<char> {
    if ch == '\\' {
        Some('\\')
    } else if ch == 'n' {
        Some('\n')
    } else if ch == 't' {
        Some('\t')
    } else if ch == 'r' {
        Some('\r')
    } else if ch == '0' {
        Some('\0')
    } else if ch == '"' {
        Some('"')
    } else {
        None
    }
}

/// The escape sequence whose backslash is at `q`.
pub open spec fn escape(c: Seq<char>, q: int) -> Scan<char> {
    let q1 = q + 1;
    if q1 < c.len() && simple_escape(c[q1]) is Some {
        (ScanResult::Valid(simple_escape(c[q1])->0), q1 + 1)
    } else if q1 < c.len() && c[q1] == 'x' {
        let h = q1 + 1;
        if !(h < c.len() && is_hex_digit(c[h])) {
            (ScanResult::WithErr(expected(seq![TokenType::EscapeSequence], ParseTreeType::Literal, h)), h)
        } else if !(h + 1 < c.len() && is_hex_digit(c[h + 1])) {
            (ScanResult::WithErr(expected(seq![TokenType::EscapeSequence], ParseTreeType::Literal, h + 1)), h + 1)
        } else {
            (ScanResult::Valid((16 * digit_value(c[h]) + digit_value(c[h + 1])) as char), h + 2)
        }
    } else {
        (ScanResult::WithErr(expected(seq![TokenType::EscapeSequence], ParseTreeType::Literal, q1)), q1)
    }
}

/// One character of a string literal's body, at `q`.
pub open spec fn string_char(c: Seq<char>, q: int) -> Scan<char> {
    if 0 <= q < c.len() && c[q] == '\\' {
        escape(c, q)
    } else if 0 <= q < c.len() {
        if c[q] == '"' {
            (ScanResult::Unrecognised, q)
        } else {
            (ScanResult::Valid(c[q]), q + 1)
        }
    } else {
        (ScanResult::WithErr(expected(seq![TokenType::Quote], ParseTreeType::Literal, q)), q)
    }
}

/// The characters of a string literal's body from `q`: the characters, the error that ended
/// them if any, and the position after.
pub open spec fn string_chars(c: Seq<char>, q: int) -> (Seq<char>, Option<SpecSyntaxError>, int)
    decreases c.len() - q,
{
    match string_char(c, q) {
        (ScanResult::Valid(ch), e) => if q < e <= c.len() {
            let (rest, err, end) = string_chars(c, e);
            (seq![ch] + rest, err, end)
        } else {
            (Seq::empty(), None, q)
        },
        (ScanResult::WithErr(x), e) => (Seq::empty(), Some(x), e),
        (ScanResult::Unrecognised, _) => (Seq::empty(), None, q),
    }
}


/// In a string literal a backslash and the character after it stand for one character:
/// `\n` a newline, `\t` a tab, `\r` a carriage return, `\0` the nul character, `\\` a
/// backslash and `\"` a double quote; the string goes on two characters later.
pub proof fn law_escapes(c: Seq<char>, q: int)
    requires
        0 <= q,
        q + 1 < c.len(),
        c[q] == '\\',
    ensures
        c[q + 1] == 'n' ==> string_char(c, q) == (ScanResult::<char, SpecSyntaxError>::Valid('\u{a}'), q + 2),
        c[q + 1] == 't' ==> string_char(c, q) == (ScanResult::<char, SpecSyntaxError>::Valid('\u{9}'), q + 2),
        c[q + 1] == 'r' ==> string_char(c, q) == (ScanResult::<char, SpecSyntaxError>::Valid('\u{d}'), q + 2),
        c[q + 1] == '0' ==> string_char(c, q) == (ScanResult::<char, SpecSyntaxError>::Valid('\u{0}'), q + 2),
        c[q + 1] == '\\' ==> string_char(c, q) == (ScanResult::<char, SpecSyntaxError>::Valid('\u{5c}'), q + 2),
        c[q + 1] == '"' ==> string_char(c, q) == (ScanResult::<char, SpecSyntaxError>::Valid('\u{22}'), q + 2),
        c[q + 1] == 'n' ==> string_chars(c, q).0 == seq!['\u{a}'] + string_chars(c, q + 2).0,
{
}

/// A string literal at `p`.
pub open spec fn literal_string(c: Seq<char>, p: int) -> Scan<SpecLiteral> {
    if 0 <= p < c.len() && c[p] == '"' {
        let (chars, err, end) = string_chars(c, p + 1);
        match err {
            Some(x) => (ScanResult::WithErr(x), end),
            None => (ScanResult::Valid(SpecLiteral::String(chars)), if end < c.len() { end + 1 } else { c.len() as int }),
        }
    } else {
        (ScanResult::Unrecognised, p)
    }
}

// ---------------------------------------------------------------- integer literals

pub open spec fn radix_prefix(radix: u8) -> Seq<char> {
    if radix == 2 {
        seq!['0', 'b']
    } else if radix == 8 {
        seq!['0', 'o']
    } else if radix == 16 {
        seq!['0', 'x']
    } else {
        Seq::empty()
    }
}

pub open spec fn is_radix_digit(radix: u8, ch: char) -> bool {
    if radix == 2 {
        ch == '0' || ch == '1'
    } else if radix == 8 {
        '0' <= ch && ch <= '7'
    } else if radix == 10 {
        '0' <= ch && ch <= '9'
    } else {
        is_hex_digit(ch)
    }
}

/// First position at or after `p` that does not hold a digit of `radix`.
pub open spec fn digits_end(c: Seq<char>, p: int, radix: u8) -> int
    decreases c.len() - p,
{
    if 0 <= p < c.len() && is_radix_digit(radix, c[p]) {
        digits_end(c, p + 1, radix)
    } else {
        p
    }
}

/// The number the digits `d` write in base `radix`.
pub open spec fn digits_value(d: Seq<char>, radix: u8) -> nat
    decreases d.len(),
{
    if d.len() == 0 {
        0
    } else {
        (digits_value(d.drop_last(), radix) * radix + digit_value(d.last())) as nat
    }
}

/// An unsigned number written in `radix` (with its prefix, if the radix has one) at `p`.
pub open spec fn literal_integer_radix(c: Seq<char>, p: int, radix: u8) -> Scan<u128> {
    let pre = radix_prefix(radix);
    if !holds_at(c, p, pre) {
        (ScanResult::Unrecognised, p)
    } else {
        let q = p + pre.len();
        let e = digits_end(c, q, radix);
        if e == q {
            if pre.len() > 0 {
                (ScanResult::WithErr(expected(seq![TokenType::Number], ParseTreeType::Literal, q)), q)
            } else {
                (ScanResult::Unrecognised, q)
            }
        } else {
            let d = c.subrange(q, e);
            if digits_value(d, radix) > u128::MAX {
                (ScanResult::WithErr(syntax_error(
                    SpecSyntaxErrorKind::LiteralIntegerOverflow { num: pre + d, target_type: SpecTowerType::U128 },
                    ParseTreeType::Literal,
                    p,
                )), e)
            } else {
                (ScanResult::Valid(digits_value(d, radix) as u128), e)
            }
        }
    }
}

/// The number at `p`, tried in binary, octal, hexadecimal and decimal in turn; with whether it
/// was written in decimal.
pub open spec fn literal_number(c: Seq<char>, p: int) -> Scan<(u128, bool)> {
    let r2 = literal_integer_radix(c, p, 2);
    let r8 = literal_integer_radix(c, p, 8);
    let r16 = literal_integer_radix(c, p, 16);
    let r10 = literal_integer_radix(c, p, 10);
    if !(r2.0 is Unrecognised) {
        (match r2.0 {
            ScanResult::Valid(n) => ScanResult::Valid((n, false)),
            ScanResult::WithErr(x) => ScanResult::WithErr(x),
            ScanResult::Unrecognised => ScanResult::Unrecognised,
        }, r2.1)
    } else if !(r8.0 is Unrecognised) {
        (match r8.0 {
            ScanResult::Valid(n) => ScanResult::Valid((n, false)),
            ScanResult::WithErr(x) => ScanResult::WithErr(x),
            ScanResult::Unrecognised => ScanResult::Unrecognised,
        }, r8.1)
    } else if !(r16.0 is Unrecognised) {
        (match r16.0 {
            ScanResult::Valid(n) => ScanResult::Valid((n, false)),
            ScanResult::WithErr(x) => ScanResult::WithErr(x),
            ScanResult::Unrecognised => ScanResult::Unrecognised,
        }, r16.1)
    } else if !(r10.0 is Unrecognised) {
        (match r10.0 {
            ScanResult::Valid(n) => ScanResult::Valid((n, true)),
            ScanResult::WithErr(x) => ScanResult::WithErr(x),
            ScanResult::Unrecognised => ScanResult::Unrecognised,
        }, r10.1)
    } else {
        (ScanResult::Unrecognised, p)
    }
}

/// The type suffix at `p` (`u` or `i`, then perhaps a size): whether it is signed, and its size.
pub open spec fn literal_suffix(c: Seq<char>, p: int) -> Scan<Option<(bool, Option<u128>)>> {
    if 0 <= p < c.len() && (c[p] == 'u' || c[p] == 'i') {
        let signed = c[p] == 'i';
        match literal_integer_radix(c, p + 1, 10) {
            (ScanResult::Valid(b), e) => (ScanResult::Valid(Some((signed, Some(b)))), e),
            (ScanResult::WithErr(x), e) => (ScanResult::WithErr(x), e),
            (ScanResult::Unrecognised, _) => (ScanResult::Valid(Some((signed, None))), p + 1),
        }
    } else {
        (ScanResult::Valid(None), p)
    }
}

/// The type an integer literal is given, from its suffix, sign and base; or the error, with
/// its position relative to the suffix's start `s`.
pub open spec fn literal_type(suffix: Option<(bool, Option<u128>)>, negative: bool, denary: bool, s: int) -> Result<SpecTowerType, SpecSyntaxError> {
    match suffix {
        Some((signed, Some(bits))) => {
            if !signed && negative {
                Err(syntax_error(SpecSyntaxErrorKind::NegativeUnsignedLiteral, ParseTreeType::Literal, s))
            } else if bits == 8 {
                Ok(if signed { SpecTowerType::I8 } else { SpecTowerType::U8 })
            } else if bits == 16 {
                Ok(if signed { SpecTowerType::I16 } else { SpecTowerType::U16 })
            } else if bits == 32 {
                Ok(if signed { SpecTowerType::I32 } else { SpecTowerType::U32 })
            } else if bits == 64 {
                Ok(if signed { SpecTowerType::I64 } else { SpecTowerType::U64 })
            } else if bits == 128 {
                Ok(if signed { SpecTowerType::I128 } else { SpecTowerType::U128 })
            } else {
                Err(syntax_error(SpecSyntaxErrorKind::InvalidIntegerSize, ParseTreeType::Literal, s + 1))
            }
        },
        Some((signed, None)) => {
            if !signed && negative {
                Err(syntax_error(SpecSyntaxErrorKind::NegativeUnsignedLiteral, ParseTreeType::Literal, s))
            } else if signed {
                Ok(SpecTowerType::I32)
            } else {
                Ok(SpecTowerType::U32)
            }
        },
        None => if denary {
            Ok(SpecTowerType::I32)
        } else if negative {
            Err(syntax_error(SpecSyntaxErrorKind::NegativeUnsignedLiteral, ParseTreeType::Literal, s))
        } else {
            Ok(SpecTowerType::U32)
        },
    }
}

/// The largest value of an unsigned type.
pub open spec fn uint_max(t: SpecTowerType) -> int {
    match t {
        SpecTowerType::U64 => u64::MAX as int,
        SpecTowerType::U32 => u32::MAX as int,
        SpecTowerType::U16 => u16::MAX as int,
        SpecTowerType::U8 => u8::MAX as int,
        _ => u128::MAX as int,
    }
}

/// The error for a number too large for the unsigned type `target`.
pub open spec fn overflow(num: u128, target: SpecTowerType, cursor: int) -> SpecSyntaxError {
    syntax_error(SpecSyntaxErrorKind::LiteralIntegerOverflow { num: decimal(num as nat), target_type: target }, ParseTreeType::Literal, cursor)
}

/// The literal of type `ty` holding `num`: unsigned types take the number if it fits; signed
/// types take its bits, if it fits the unsigned type of the same size.
pub open spec fn typed_literal(num: u128, ty: SpecTowerType, cursor: int) -> Result<SpecLiteral, SpecSyntaxError> {
    match ty {
        SpecTowerType::U128 => Ok(SpecLiteral::U128(num)),
        SpecTowerType::U64 => if num <= u64::MAX { Ok(SpecLiteral::U64(num as u64)) } else { Err(overflow(num, SpecTowerType::U64, cursor)) },
        SpecTowerType::U32 => if num <= u32::MAX { Ok(SpecLiteral::U32(num as u32)) } else { Err(overflow(num, SpecTowerType::U32, cursor)) },
        SpecTowerType::U16 => if num <= u16::MAX { Ok(SpecLiteral::U16(num as u16)) } else { Err(overflow(num, SpecTowerType::U16, cursor)) },
        SpecTowerType::U8 => if num <= u8::MAX { Ok(SpecLiteral::U8(num as u8)) } else { Err(overflow(num, SpecTowerType::U8, cursor)) },
        SpecTowerType::I128 => Ok(SpecLiteral::I128(num as i128)),
        SpecTowerType::I64 => if num <= u64::MAX { Ok(SpecLiteral::I64(num as u64 as i64)) } else { Err(overflow(num, SpecTowerType::U64, cursor)) },
        SpecTowerType::I32 => if num <= u32::MAX { Ok(SpecLiteral::I32(num as u32 as i32)) } else { Err(overflow(num, SpecTowerType::U32, cursor)) },
        SpecTowerType::I16 => if num <= u16::MAX { Ok(SpecLiteral::I16(num as u16 as i16)) } else { Err(overflow(num, SpecTowerType::U16, cursor)) },
        _ => if num <= u8::MAX { Ok(SpecLiteral::I8(num as u8 as i8)) } else { Err(overflow(num, SpecTowerType::U8, cursor)) },
    }
}

/// Whether a literal type is a signed integer type.
pub open spec fn is_signed(t: SpecTowerType) -> bool {
    t is I8 || t is I16 || t is I32 || t is I64 || t is I128
}

/// The magnitude of the most negative value of a signed type.
pub open spec fn neg_limit(t: SpecTowerType) -> u128 {
    match t {
        SpecTowerType::I8 => 0x80,
        SpecTowerType::I16 => 0x8000,
        SpecTowerType::I32 => 0x8000_0000,
        SpecTowerType::I64 => 0x8000_0000_0000_0000,
        _ => 0x8000_0000_0000_0000_0000_0000_0000_0000,
    }
}

/// The literal of the signed type `ty` holding `-num`, if it fits the type; otherwise the
/// overflow error.
pub open spec fn negated_literal(num: u128, ty: SpecTowerType, cursor: int) -> Result<SpecLiteral, SpecSyntaxError> {
    if num <= neg_limit(ty) {
        let v = -(num as int);
        Ok(match ty {
            SpecTowerType::I8 => SpecLiteral::I8(v as i8),
            SpecTowerType::I16 => SpecLiteral::I16(v as i16),
            SpecTowerType::I32 => SpecLiteral::I32(v as i32),
            SpecTowerType::I64 => SpecLiteral::I64(v as i64),
            _ => SpecLiteral::I128(v as i128),
        })
    } else {
        Err(overflow(num, ty, cursor))
    }
}

/// An integer literal at `p`: an optional `-`, a number, an optional type suffix. A `-`
/// makes the value negative; it is refused for unsigned types.
pub open spec fn literal_integer(c: Seq<char>, p: int) -> Scan<SpecLiteral> {
    let negative = 0 <= p < c.len() && c[p] == '-';
    let q = if negative { p + 1 } else { p };
    match literal_number(c, q) {
        (ScanResult::Unrecognised, _) => (ScanResult::Unrecognised, q),
        (ScanResult::WithErr(x), e) => (ScanResult::WithErr(x), e),
        (ScanResult::Valid((num, denary)), e) => match literal_suffix(c, e) {
            (ScanResult::WithErr(x), e2) => (ScanResult::WithErr(x), e2),
            (ScanResult::Valid(suffix), e2) => match literal_type(suffix, negative, denary, e) {
                Err(x) => (ScanResult::WithErr(x), e2),
                Ok(ty) => match (if negative && is_signed(ty) { negated_literal(num, ty, q) } else { typed_literal(num, ty, q) }) {
                    Ok(l) => (ScanResult::Valid(l), e2),
                    Err(x) => (ScanResult::WithErr(x), e2),
                },
            },
            (ScanResult::Unrecognised, e2) => (ScanResult::Unrecognised, e2),
        },
    }
}

/// A literal at `p`: a string or an integer.
pub open spec fn literal(c: Seq<char>, p: int) -> Scan<SpecParseTree> {
    let s = literal_string(c, p);
    let i = literal_integer(c, p);
    if !(s.0 is Unrecognised) {
        (match s.0 {
            ScanResult::Valid(l) => ScanResult::Valid(SpecParseTree::Literal(l)),
            ScanResult::WithErr(x) => ScanResult::WithErr(x),
            ScanResult::Unrecognised => ScanResult::Unrecognised,
        }, s.1)
    } else if !(i.0 is Unrecognised) {
        (match i.0 {
            ScanResult::Valid(l) => ScanResult::Valid(SpecParseTree::Literal(l)),
            ScanResult::WithErr(x) => ScanResult::WithErr(x),
            ScanResult::Unrecognised => ScanResult::Unrecognised,
        }, i.1)
    } else {
        (ScanResult::Unrecognised, p)
    }
}

/// A struct constructor at `p`: `->`, whitespace, the struct's name.
pub open spec fn constructor_struct(c: Seq<char>, p: int) -> Scan<SpecParseTree> {
    if !holds_at(c, p, seq!['-', '>']) {
        (ScanResult::Unrecognised, p)
    } else {
        let q = p + 2;
        if !(q < c.len() && is_white_space(c[q])) {
            (ScanResult::WithErr(expected(seq![TokenType::Whitespace], ParseTreeType::Constructor, q)), q)
        } else {
            let w = ws_end(c, q);
            match identifier(c, w) {
                None => (ScanResult::WithErr(expected(seq![TokenType::Identifier], ParseTreeType::Constructor, w)), w),
                Some((id, e)) => (ScanResult::Valid(SpecParseTree::Constructor(id)), e),
            }
        }
    }
}

// ---------------------------------------------------------------- blocks and functions

/// One element of a block body at `r` (after any whitespace): an identifier, a literal or a
/// constructor, followed by any whitespace.
pub open spec fn block_item(c: Seq<char>, r: int, fp: Seq<char>) -> Scan<SpecParseTreeNode> {
    let r1 = ws_end(c, r);
    let a = identifier_tree(c, r1);
    let b = literal(c, r1);
    let k = constructor_struct(c, r1);
    let chosen = if !(a.0 is Unrecognised) { a } else if !(b.0 is Unrecognised) { b } else { k };
    match chosen {
        (ScanResult::Valid(t), e) => (ScanResult::Valid(SpecParseTreeNode { file_path: fp, cursor: r1, tree: t }), ws_end(c, e)),
        (ScanResult::WithErr(x), e) => (ScanResult::WithErr(x), e),
        (ScanResult::Unrecognised, _) => (ScanResult::Unrecognised, r),
    }
}

/// The elements of a block body from `r`: the elements, the error that ended them if any, and
/// the position after.
pub open spec fn block_items(c: Seq<char>, r: int, fp: Seq<char>) -> (Seq<SpecParseTreeNode>, Option<SpecSyntaxError>, int)
    decreases c.len() - r,
{
    match block_item(c, r, fp) {
        (ScanResult::Valid(n), e) => if r < e <= c.len() {
            let (rest, err, end) = block_items(c, e, fp);
            (seq![n] + rest, err, end)
        } else {
            (Seq::empty(), None, r)
        },
        (ScanResult::WithErr(x), e) => (Seq::empty(), Some(x), e),
        (ScanResult::Unrecognised, _) => (Seq::empty(), None, r),
    }
}

/// A block at `p`: `{`, its elements, `}`.
pub open spec fn block(c: Seq<char>, p: int, fp: Seq<char>) -> Scan<Seq<SpecParseTreeNode>> {
    if 0 <= p < c.len() && c[p] == '{' {
        let (items, err, r) = block_items(c, p + 1, fp);
        match err {
            Some(x) => (ScanResult::WithErr(x), r),
            None => {
                let t = ws_end(c, r);
                if t < c.len() && c[t] == '}' {
                    (ScanResult::Valid(items), t + 1)
                } else {
                    (ScanResult::WithErr(expected(
                        seq![TokenType::Identifier, TokenType::Literal, TokenType::RCurlyParen],
                        ParseTreeType::Function,
                        t,
                    )), t)
                }
            },
        }
    } else {
        (ScanResult::Unrecognised, p)
    }
}

/// A function at `p`: `fn`, whitespace, its name, a block; with its name.
pub open spec fn function(c: Seq<char>, p: int, fp: Seq<char>) -> Scan<(Seq<char>, SpecParseTree)> {
    if !holds_at(c, p, seq!['f', 'n']) {
        (ScanResult::Unrecognised, p)
    } else {
        let q = p + 2;
        if !(q < c.len() && is_white_space(c[q])) {
            (ScanResult::WithErr(expected(seq![TokenType::Whitespace], ParseTreeType::Function, q)), q)
        } else {
            let w = ws_end(c, q);
            match identifier(c, w) {
                None => (ScanResult::WithErr(expected(seq![TokenType::Identifier], ParseTreeType::Function, w)), w),
                Some((name, e)) => {
                    let e2 = ws_end(c, e);
                    match block(c, e2, fp) {
                        (ScanResult::Unrecognised, _) => (ScanResult::WithErr(expected(seq![TokenType::Block], ParseTreeType::Function, e2)), e2),
                        (ScanResult::WithErr(x), b) => (ScanResult::WithErr(x), b),
                        (ScanResult::Valid(body), b) => (ScanResult::Valid((name, SpecParseTree::Function { name, body })), b),
                    }
                },
            }
        }
    }
}

// ---------------------------------------------------------------- structs

/// One field of a struct at `r` (after any whitespace): its name, `:`, its type name.
pub open spec fn struct_field(c: Seq<char>, r: int) -> Scan<(Seq<char>, Seq<char>)> {
    let r1 = ws_end(c, r);
    match identifier(c, r1) {
        None => (ScanResult::Unrecognised, r),
        Some((fname, r2)) => {
            let r3 = ws_end(c, r2);
            if !(r3 < c.len() && c[r3] == ':') {
                (ScanResult::WithErr(expected(seq![TokenType::Colon], ParseTreeType::Struct, r3)), r3)
            } else {
                let r4 = ws_end(c, r3 + 1);
                match identifier(c, r4) {
                    None => (ScanResult::WithErr(expected(seq![TokenType::Identifier], ParseTreeType::Struct, r4)), r4),
                    Some((ftype, r5)) => (ScanResult::Valid((fname, ftype)), r5),
                }
            }
        },
    }
}

pub open spec fn struct_fields(c: Seq<char>, r: int) -> (Seq<(Seq<char>, Seq<char>)>, Option<SpecSyntaxError>, int)
    decreases c.len() - r,
{
    match struct_field(c, r) {
        (ScanResult::Valid(f), e) => if r < e <= c.len() {
            let (rest, err, end) = struct_fields(c, e);
            (seq![f] + rest, err, end)
        } else {
            (Seq::empty(), None, r)
        },
        (ScanResult::WithErr(x), e) => (Seq::empty(), Some(x), e),
        (ScanResult::Unrecognised, _) => (Seq::empty(), None, r),
    }
}

/// A struct at `p`: `struct`, whitespace, its name, `{`, its fields, `}`; with its name.
pub open spec fn structure(c: Seq<char>, p: int) -> Scan<(Seq<char>, SpecParseTree)> {
    if !holds_at(c, p, seq!['s', 't', 'r', 'u', 'c', 't']) {
        (ScanResult::Unrecognised, p)
    } else {
        let q = p + 6;
        if !(q < c.len() && is_white_space(c[q])) {
            (ScanResult::WithErr(expected(seq![TokenType::Whitespace], ParseTreeType::Struct, q)), q)
        } else {
            let w = ws_end(c, q);
            match identifier(c, w) {
                None => (ScanResult::WithErr(expected(seq![TokenType::Identifier], ParseTreeType::Struct, w)), w),
                Some((name, e)) => {
                    let e2 = ws_end(c, e);
                    if !(e2 < c.len() && c[e2] == '{') {
                        (ScanResult::WithErr(expected(seq![TokenType::LCurlyParen], ParseTreeType::Struct, e2)), e2)
                    } else {
                        let (fields, err, r) = struct_fields(c, e2 + 1);
                        match err {
                            Some(x) => (ScanResult::WithErr(x), r),
                            None => {
                                let t = ws_end(c, r);
                                if t < c.len() && c[t] == '}' {
                                    (ScanResult::Valid((name, SpecParseTree::Struct {
                                        name,
                                        fields: from_pairs(fields, |s: Seq<char>| seq_key(s)),
                                    })), t + 1)
                                } else {
                                    (ScanResult::WithErr(expected(seq![TokenType::RCurlyParen], ParseTreeType::Struct, t)), t)
                                }
                            },
                        }
                    }
                },
            }
        }
    }
}

// ---------------------------------------------------------------- modules

/// One element of a module at `r` (after any whitespace): a function or a struct, with its name.
pub open spec fn module_item(c: Seq<char>, r: int, fp: Seq<char>) -> Scan<(Seq<char>, SpecParseTreeNode)> {
    let r1 = ws_end(c, r);
    let f = function(c, r1, fp);
    let s = structure(c, r1);
    let chosen = if !(f.0 is Unrecognised) { f } else { s };
    match chosen {
        (ScanResult::Valid((name, t)), e) => (ScanResult::Valid((name, SpecParseTreeNode { file_path: fp, cursor: r1, tree: t })), e),
        (ScanResult::WithErr(x), e) => (ScanResult::WithErr(x), e),
        (ScanResult::Unrecognised, _) => (ScanResult::Unrecognised, r),
    }
}

pub open spec fn module_items(c: Seq<char>, r: int, fp: Seq<char>) -> (Seq<(Seq<char>, SpecParseTreeNode)>, Option<SpecSyntaxError>, int)
    decreases c.len() - r,
{
    match module_item(c, r, fp) {
        (ScanResult::Valid(it), e) => if r < e <= c.len() {
            let (rest, err, end) = module_items(c, e, fp);
            (seq![it] + rest, err, end)
        } else {
            (Seq::empty(), None, r)
        },
        (ScanResult::WithErr(x), e) => (Seq::empty(), Some(x), e),
        (ScanResult::Unrecognised, _) => (Seq::empty(), None, r),
    }
}

/// A module at `p`: its functions and structs, by name (a later one with a name replaces an
/// earlier one).
pub open spec fn module(c: Seq<char>, p: int, fp: Seq<char>) -> Scan<SpecParseTree> {
    let (items, err, r) = module_items(c, p, fp);
    match err {
        Some(x) => (ScanResult::WithErr(x), r),
        None => (ScanResult::Valid(SpecParseTree::Module { name: Seq::empty(), elems: from_pairs(items, |s: Seq<char>| seq_key(s)) }), r),
    }
}

/// A whole source text from `p`: a module, then nothing but whitespace.
pub open spec fn parse(c: Seq<char>, p: int, fp: Seq<char>) -> Scan<SpecParseTreeNode> {
    match module(c, p, fp) {
        (ScanResult::Valid(tree), e) => {
            let t = ws_end(c, e);
            if t < c.len() {
                (ScanResult::WithErr(syntax_error(SpecSyntaxErrorKind::Unexpected, ParseTreeType::Module, t)), t)
            } else {
                (ScanResult::Valid(SpecParseTreeNode { file_path: fp, cursor: p, tree }), t)
            }
        },
        (ScanResult::WithErr(x), e) => (ScanResult::WithErr(x), e),
        (ScanResult::Unrecognised, e) => (ScanResult::Unrecognised, e),
    }
}

} // verus!
