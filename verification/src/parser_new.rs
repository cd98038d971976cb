pub mod scanner;
pub mod result;

use vstd::prelude::*;

verus! {

/// The kinds of token a syntax error can say were expected.
#[derive(Debug, Clone, Copy, PartialEq, Eq, Structural)]
pub enum TokenType {
    Unspecified,
    Identifier,
    LCurlyParen,
    RCurlyParen,
    Whitespace,
    Literal,
    KeywordFn,
    Quote,
    EscapeSequence,
    Block,
}

} // verus!
