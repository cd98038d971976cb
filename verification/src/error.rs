use vstd::prelude::*;

use crate::analyser::{tower_type_string, SpecTowerType, TowerType};
use crate::parser::tree::ParseTreeType;
use crate::parser::scanner::{count_newlines, line_end, line_start, Scanner};
use crate::parser::{token_name, TokenType};
use crate::parser::tree::tree_type_name;
use crate::utils::{append, count_char, count_of, decimal, expand_tabs, push_repeat, push_repeated, repeat, spaces, tabs_expanded, usize_to_decimal};

verus! {

/// A syntax error: what went wrong, where, and while parsing what.
pub struct SyntaxError {
    kind: SyntaxErrorKind,
    cursor: usize,
    while_parsing: ParseTreeType,
}

pub enum SyntaxErrorKind {
    Unspecified,
    Expected(Vec<TokenType>),
    Unexpected,
    NegativeUnsignedLiteral,
    InvalidIntegerSize,
    LiteralIntegerOverflow { num: String, target_type: TowerType },
}

/// The mathematical value of a `SyntaxErrorKind`.
pub enum SpecSyntaxErrorKind {
    Unspecified,
    Expected(Seq<TokenType>),
    Unexpected,
    NegativeUnsignedLiteral,
    InvalidIntegerSize,
    LiteralIntegerOverflow { num: Seq<char>, target_type: SpecTowerType },
}

/// The mathematical value of a `SyntaxError`.
pub struct SpecSyntaxError {
    pub kind: SpecSyntaxErrorKind,
    pub cursor: int,
    pub while_parsing: ParseTreeType,
}

impl View for SyntaxErrorKind {
    type V = SpecSyntaxErrorKind;

    open spec fn view(&self) -> SpecSyntaxErrorKind {
        match self {
            SyntaxErrorKind::Unspecified => SpecSyntaxErrorKind::Unspecified,
            SyntaxErrorKind::Expected(v) => SpecSyntaxErrorKind::Expected(v@),
            SyntaxErrorKind::Unexpected => SpecSyntaxErrorKind::Unexpected,
            SyntaxErrorKind::NegativeUnsignedLiteral => SpecSyntaxErrorKind::NegativeUnsignedLiteral,
            SyntaxErrorKind::InvalidIntegerSize => SpecSyntaxErrorKind::InvalidIntegerSize,
            SyntaxErrorKind::LiteralIntegerOverflow { num, target_type } => SpecSyntaxErrorKind::LiteralIntegerOverflow {
                num: num@,
                target_type: target_type@,
            },
        }
    }
}

impl View for SyntaxError {
    type V = SpecSyntaxError;

    closed spec fn view(&self) -> SpecSyntaxError {
        SpecSyntaxError { kind: self.kind@, cursor: self.cursor as int, while_parsing: self.while_parsing }
    }
}

/// The view of an optional error.
pub open spec fn error_view(o: Option<SyntaxError>) -> Option<SpecSyntaxError> {
    match o {
        Some(e) => Some(e@),
        None => None,
    }
}

impl SyntaxError {
    pub fn new(kind: SyntaxErrorKind, while_parsing: ParseTreeType, cursor: usize) -> (r: Self)
        ensures
            r@ == (SpecSyntaxError { kind: kind@, cursor: cursor as int, while_parsing }),
    {
        SyntaxError { kind, cursor, while_parsing }
    }

    /// Syntax sugar for `SyntaxError::new(SyntaxErrorKind::Expected(types), while_parsing, cursor)`
    pub fn expected(types: Vec<TokenType>, while_parsing: ParseTreeType, cursor: usize) -> (r: Self)
        ensures
            r@ == (SpecSyntaxError { kind: SpecSyntaxErrorKind::Expected(types@), cursor: cursor as int, while_parsing }),
    {
        SyntaxError::new(SyntaxErrorKind::Expected(types), while_parsing, cursor)
    }

    pub fn empty(cursor: usize) -> (r: Self)
        ensures
            r@ == (SpecSyntaxError { kind: SpecSyntaxErrorKind::Unspecified, cursor: cursor as int, while_parsing: ParseTreeType::Unspecified }),
    {
        SyntaxError::new(SyntaxErrorKind::Unspecified, ParseTreeType::Unspecified, cursor)
    }

    pub fn cursor(&self) -> (r: usize)
        ensures
            r == self@.cursor,
    {
        self.cursor
    }

    pub fn kind(&self) -> (r: &SyntaxErrorKind)
        ensures
            r@ == self@.kind,
    {
        &self.kind
    }

    pub fn while_parsing(&self) -> (r: ParseTreeType)
        ensures
            r == self@.while_parsing,
    {
        self.while_parsing
    }
}

/// Errors of the stack machine.
#[derive(Debug)]
pub enum RuntimeError {
    StackUnderflowError,
    Utf8Error(Vec<u8>),
    FunctionMissingError(String),
    ModuleNotFoundError,
}

/// The report of an error at column `col` and row `row` of the line `context` of a file:
/// a heading with where it is and what went wrong, then the line (tabs shown as four
/// spaces) under the row number, with a caret under the column.
pub open spec fn report(heading: Seq<char>, file_name: Seq<char>, message: Seq<char>, context: Seq<char>, col: nat, row: nat) -> Seq<char> {
    let row_str = decimal(row);
    let num_tabs = count_char(context, '\t');
    let indent = if col >= 1 + num_tabs { (col - 1 - num_tabs) as nat } else { 0nat };
    heading + " Error at "@ + file_name + ":"@ + decimal(col) + ":"@ + row_str + " - "@ + message + "\n"@
        + spaces(row_str.len()) + " | \n"@
        + row_str + " | "@ + expand_tabs(context) + "\n"@
        + spaces(row_str.len()) + " | "@ + repeat("    "@, num_tabs) + spaces(indent) + "^\n"@
}

/// The report of an error at position `cursor` of the text `chars`.
pub open spec fn report_at(heading: Seq<char>, chars: Seq<char>, file_name: Seq<char>, message: Seq<char>, cursor: int) -> Seq<char> {
    report(
        heading,
        file_name,
        message,
        chars.subrange(line_start(chars, cursor), line_end(chars, cursor)),
        (cursor - line_start(chars, cursor) + 1) as nat,
        count_newlines(chars.take(cursor)) + 1,
    )
}

/// Builds the report of an error at position `cursor` of the scanner's text; see `report`.
pub fn error_report(heading: &str, scanner: &Scanner, file_name: &str, message: &str, cursor: usize) -> (r: String)
    requires
        cursor <= scanner@.chars.len(),
        cursor < usize::MAX,
    ensures
        r@ == report_at(heading@, scanner@.chars, file_name@, message@, cursor as int),
{
    proof {
        reveal_strlit(" Error at ");
        reveal_strlit(":");
        reveal_strlit(" - ");
        reveal_strlit("\n");
        reveal_strlit(" | \n");
        reveal_strlit(" | ");
        reveal_strlit("    ");
        reveal_strlit("^\n");
    }
    let context = scanner.get_context(cursor);
    let (col, row) = scanner.get_col_row(cursor);
    let row_str = usize_to_decimal(row);
    let num_tabs = count_of(&context, '\t');
    let indent = if col - 1 >= num_tabs { col - 1 - num_tabs } else { 0 };
    let mut out = crate::utils::owned(heading);
    append(&mut out, " Error at ");
    append(&mut out, file_name);
    append(&mut out, ":");
    let col_str = usize_to_decimal(col);
    append(&mut out, col_str.as_str());
    append(&mut out, ":");
    append(&mut out, row_str.as_str());
    append(&mut out, " - ");
    append(&mut out, message);
    append(&mut out, "\n");
    let n = crate::utils::chars_of(row_str.as_str()).len();
    push_repeated(&mut out, ' ', n);
    append(&mut out, " | \n");
    append(&mut out, row_str.as_str());
    append(&mut out, " | ");
    let shown = tabs_expanded(&context);
    append(&mut out, shown.as_str());
    append(&mut out, "\n");
    push_repeated(&mut out, ' ', n);
    append(&mut out, " | ");
    push_repeat(&mut out, "    ", num_tabs);
    push_repeated(&mut out, ' ', indent);
    append(&mut out, "^\n");
    proof {
        assert(Seq::new(n as nat, |i: int| ' ') =~= spaces(decimal(row as nat).len()));
        assert(Seq::new(indent as nat, |i: int| ' ') =~= spaces(indent as nat));
        let chars = scanner@.chars;
        assert(out@ =~= report_at(heading@, chars, file_name@, message@, cursor as int));
    }
    out
}

/// The names of the first `n` token types of `ts`, separated by commas.
pub open spec fn token_names(ts: Seq<TokenType>, n: int) -> Seq<char>
    decreases n,
{
    if n <= 0 || n > ts.len() {
        Seq::empty()
    } else if n == 1 {
        token_name(ts[0])
    } else {
        token_names(ts, n - 1) + ", "@ + token_name(ts[n - 1])
    }
}

/// What a syntax error says went wrong.
pub open spec fn syntax_message(e: SpecSyntaxError) -> Seq<char> {
    "while parsing "@ + tree_type_name(e.while_parsing) + match e.kind {
        SpecSyntaxErrorKind::Unspecified => ", empty error"@,
        SpecSyntaxErrorKind::Expected(ts) => ", expected ["@ + token_names(ts, ts.len() as int) + "]"@,
        SpecSyntaxErrorKind::Unexpected => ", unexpected string"@,
        SpecSyntaxErrorKind::NegativeUnsignedLiteral => ", negative literal of an unsigned type"@,
        SpecSyntaxErrorKind::InvalidIntegerSize => ", invalid integer size"@,
        SpecSyntaxErrorKind::LiteralIntegerOverflow { num, target_type } => ", literal integer "@ + num
            + " does not fit in "@ + tower_type_string(target_type),
    }
}

impl SyntaxError {
    /// What the error says went wrong.
    pub fn to_string(&self) -> (r: String)
        ensures
            r@ == syntax_message(self@),
    {
        proof {
            reveal_strlit("while parsing ");
            reveal_strlit(", empty error");
            reveal_strlit(", expected [");
            reveal_strlit("]");
            reveal_strlit(", ");
            reveal_strlit(", unexpected string");
            reveal_strlit(", negative literal of an unsigned type");
            reveal_strlit(", invalid integer size");
            reveal_strlit(", literal integer ");
            reveal_strlit(" does not fit in ");
        }
        let mut out = crate::utils::owned("while parsing ");
        append(&mut out, self.while_parsing.name());
        match &self.kind {
            SyntaxErrorKind::Unspecified => append(&mut out, ", empty error"),
            SyntaxErrorKind::Expected(ts) => {
                append(&mut out, ", expected [");
                let ghost head = out@;
                let mut i: usize = 0;
                while i < ts.len()
                    invariant
                        i <= ts@.len(),
                        out@ == head + token_names(ts@, i as int),
                    decreases ts.len() - i,
                {
                    if i > 0 {
                        append(&mut out, ", ");
                    }
                    append(&mut out, ts[i].name());
                    i += 1;
                    proof {
                        if i == 1 {
                            assert(out@ =~= head + token_name(ts@[0]));
                        } else {
                            assert(out@ =~= head + (token_names(ts@, i - 1) + ", "@ + token_name(ts@[i - 1])));
                        }
                    }
                }
                append(&mut out, "]");
            },
            SyntaxErrorKind::Unexpected => append(&mut out, ", unexpected string"),
            SyntaxErrorKind::NegativeUnsignedLiteral => append(&mut out, ", negative literal of an unsigned type"),
            SyntaxErrorKind::InvalidIntegerSize => append(&mut out, ", invalid integer size"),
            SyntaxErrorKind::LiteralIntegerOverflow { num, target_type } => {
                append(&mut out, ", literal integer ");
                append(&mut out, num.as_str());
                append(&mut out, " does not fit in ");
                let t = target_type.to_string();
                append(&mut out, t.as_str());
            },
        }
        proof {
            assert(out@ =~= syntax_message(self@));
        }
        out
    }

    /// The report of the error, with the line of the source it is on: what `print_error`
    /// writes.
    pub fn print_error(&self, scanner: &Scanner, file_name: &str) -> (r: String)
        requires
            self@.cursor <= scanner@.chars.len(),
            self@.cursor < usize::MAX,
        ensures
            r@ == report_at("Syntax"@, scanner@.chars, file_name@, syntax_message(self@), self@.cursor),
    {
        let message = self.to_string();
        error_report("Syntax", scanner, file_name, message.as_str(), self.cursor)
    }
}

} // verus!
