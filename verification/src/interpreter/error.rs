use vstd::prelude::*;

use crate::error::{error_report, report_at};
use crate::parser::scanner::Scanner;
use crate::utils::{append, decimal, owned, usize_to_decimal};

verus! {

/// An error of the interpreter, and where in the source it happened.
pub struct RuntimeError {
    kind: RuntimeErrorKind,
    cursor: usize,
}

#[derive(Debug)]
pub enum RuntimeErrorKind {
    StackUnderflowError,
    Utf8Error(Vec<u8>),
    FunctionMissingError(String),
    ModuleNotFoundError,
}

/// The mathematical value of a `RuntimeErrorKind`.
pub enum SpecRuntimeErrorKind {
    StackUnderflowError,
    Utf8Error(Seq<u8>),
    FunctionMissingError(Seq<char>),
    ModuleNotFoundError,
}

/// The mathematical value of a `RuntimeError`.
pub struct SpecRuntimeError {
    pub kind: SpecRuntimeErrorKind,
    pub cursor: int,
}

impl View for RuntimeErrorKind {
    type V = SpecRuntimeErrorKind;

    open spec fn view(&self) -> SpecRuntimeErrorKind {
        match self {
            RuntimeErrorKind::StackUnderflowError => SpecRuntimeErrorKind::StackUnderflowError,
            RuntimeErrorKind::Utf8Error(v) => SpecRuntimeErrorKind::Utf8Error(v@),
            RuntimeErrorKind::FunctionMissingError(s) => SpecRuntimeErrorKind::FunctionMissingError(s@),
            RuntimeErrorKind::ModuleNotFoundError => SpecRuntimeErrorKind::ModuleNotFoundError,
        }
    }
}

impl View for RuntimeError {
    type V = SpecRuntimeError;

    closed spec fn view(&self) -> SpecRuntimeError {
        SpecRuntimeError { kind: self.kind@, cursor: self.cursor as int }
    }
}

impl RuntimeError {
    pub fn new(kind: RuntimeErrorKind, cursor: usize) -> (r: RuntimeError)
        ensures
            r@ == (SpecRuntimeError { kind: kind@, cursor: cursor as int }),
    {
        RuntimeError { kind, cursor }
    }

    pub fn kind(&self) -> (r: &RuntimeErrorKind)
        ensures
            r@ == self@.kind,
    {
        &self.kind
    }

    pub fn cursor(&self) -> (r: usize)
        ensures
            r == self@.cursor,
    {
        self.cursor
    }
}

/// How a list of bytes is shown, as `{:?}` shows it: `[1, 2, 3]`.
pub open spec fn bytes_string(b: Seq<u8>) -> Seq<char> {
    "["@ + bytes_list(b, b.len() as int) + "]"@
}

/// The first `n` bytes of `b` in decimal, separated by commas.
pub open spec fn bytes_list(b: Seq<u8>, n: int) -> Seq<char>
    decreases n,
{
    if n <= 0 || n > b.len() {
        Seq::empty()
    } else if n == 1 {
        decimal(b[0] as nat)
    } else {
        bytes_list(b, n - 1) + ", "@ + decimal(b[n - 1] as nat)
    }
}

/// What a runtime error says went wrong.
pub open spec fn runtime_message(e: SpecRuntimeError) -> Seq<char> {
    match e.kind {
        SpecRuntimeErrorKind::StackUnderflowError => "stack underflow error - attempted to pop from empty stack"@,
        SpecRuntimeErrorKind::Utf8Error(v) => "error decoding UTF-8 string from bytes "@ + bytes_string(v),
        SpecRuntimeErrorKind::FunctionMissingError(name) => "function "@ + name + " not found"@,
        SpecRuntimeErrorKind::ModuleNotFoundError => "no module found"@,
    }
}

impl RuntimeError {
    /// What the error says went wrong.
    pub fn to_string(&self) -> (r: String)
        ensures
            r@ == runtime_message(self@),
    {
        match &self.kind {
            RuntimeErrorKind::StackUnderflowError => owned("stack underflow error - attempted to pop from empty stack"),
            RuntimeErrorKind::Utf8Error(v) => {
                proof {
                    reveal_strlit("[");
                    reveal_strlit("]");
                    reveal_strlit(", ");
                    reveal_strlit("error decoding UTF-8 string from bytes ");
                    reveal_strlit("error decoding UTF-8 string from bytes [");
                }
                let mut out = owned("error decoding UTF-8 string from bytes [");
                let ghost head = out@;
                let mut i: usize = 0;
                while i < v.len()
                    invariant
                        i <= v@.len(),
                        out@ == head + bytes_list(v@, i as int),
                    decreases v.len() - i,
                {
                    if i > 0 {
                        append(&mut out, ", ");
                    }
                    let d = usize_to_decimal(v[i] as usize);
                    append(&mut out, d.as_str());
                    i += 1;
                    proof {
                        if i == 1 {
                            assert(out@ =~= head + decimal(v@[0] as nat));
                        } else {
                            assert(out@ =~= head + (bytes_list(v@, i - 1) + ", "@ + decimal(v@[i - 1] as nat)));
                        }
                    }
                }
                append(&mut out, "]");
                proof {
                    assert(out@ =~= runtime_message(self@));
                }
                out
            },
            RuntimeErrorKind::FunctionMissingError(name) => {
                let mut out = owned("function ");
                append(&mut out, name.as_str());
                append(&mut out, " not found");
                out
            },
            RuntimeErrorKind::ModuleNotFoundError => owned("no module found"),
        }
    }

    /// The report of the error, with the line of the source it is on: what `print_error`
    /// writes.
    pub fn print_error(&self, scanner: &Scanner, file_name: &str) -> (r: String)
        requires
            self@.cursor <= scanner@.chars.len(),
            self@.cursor < usize::MAX,
        ensures
            r@ == report_at("Runtime"@, scanner@.chars, file_name@, runtime_message(self@), self@.cursor),
    {
        let message = self.to_string();
        error_report("Runtime", scanner, file_name, message.as_str(), self.cursor)
    }
}

} // verus!
