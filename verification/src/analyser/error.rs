use vstd::prelude::*;

use super::ttype::{show_type, showable, type_string, SpecType, Type};
use crate::error::{error_report, report_at};
use crate::parser::scanner::Scanner;
use crate::utils::{append, owned};

verus! {

/// An error found while analysing a parse tree.
pub struct AnalysisError {
    kind: AnalysisErrorKind,
    cursor: usize,
}

pub enum AnalysisErrorKind {
    IncompatibleTypes { source: Type, dest: Type },
    TypeIsNotFunction { tname: String },
    FunctionIsNotType { fname: String },
    NoSuchFunction { fname: String },
    NoSuchType { tname: String },
    UnconstructableType { tname: String },
    UnresolvableDefinition { name: String },
}

/// The mathematical value of an `AnalysisErrorKind`.
pub enum SpecAnalysisErrorKind {
    IncompatibleTypes { source: SpecType, dest: SpecType },
    TypeIsNotFunction { tname: Seq<char> },
    FunctionIsNotType { fname: Seq<char> },
    NoSuchFunction { fname: Seq<char> },
    NoSuchType { tname: Seq<char> },
    UnconstructableType { tname: Seq<char> },
    UnresolvableDefinition { name: Seq<char> },
}

/// The mathematical value of an `AnalysisError`.
pub struct SpecAnalysisError {
    pub kind: SpecAnalysisErrorKind,
    pub cursor: int,
}

impl View for AnalysisErrorKind {
    type V = SpecAnalysisErrorKind;

    open spec fn view(&self) -> SpecAnalysisErrorKind {
        match self {
            AnalysisErrorKind::IncompatibleTypes { source, dest } => SpecAnalysisErrorKind::IncompatibleTypes {
                source: source@,
                dest: dest@,
            },
            AnalysisErrorKind::TypeIsNotFunction { tname } => SpecAnalysisErrorKind::TypeIsNotFunction { tname: tname@ },
            AnalysisErrorKind::FunctionIsNotType { fname } => SpecAnalysisErrorKind::FunctionIsNotType { fname: fname@ },
            AnalysisErrorKind::NoSuchFunction { fname } => SpecAnalysisErrorKind::NoSuchFunction { fname: fname@ },
            AnalysisErrorKind::NoSuchType { tname } => SpecAnalysisErrorKind::NoSuchType { tname: tname@ },
            AnalysisErrorKind::UnconstructableType { tname } => SpecAnalysisErrorKind::UnconstructableType { tname: tname@ },
            AnalysisErrorKind::UnresolvableDefinition { name } => SpecAnalysisErrorKind::UnresolvableDefinition { name: name@ },
        }
    }
}

impl View for AnalysisError {
    type V = SpecAnalysisError;

    closed spec fn view(&self) -> SpecAnalysisError {
        SpecAnalysisError { kind: self.kind@, cursor: self.cursor as int }
    }
}

impl AnalysisError {
    pub fn new(kind: AnalysisErrorKind, cursor: usize) -> (r: Self)
        ensures
            r@ == (SpecAnalysisError { kind: kind@, cursor: cursor as int }),
    {
        AnalysisError { kind, cursor }
    }

    pub fn kind(&self) -> (r: &AnalysisErrorKind)
        ensures
            r@ == self@.kind,
    {
        &self.kind
    }

    pub fn cursor(&self) -> (r: usize)
        ensures
            r == self@.cursor,
    {
        self.cursor
    }
}

/// Whether the error's message can be written: the types it names can be shown.
pub open spec fn analysis_message_showable(e: SpecAnalysisError) -> bool {
    match e.kind {
        SpecAnalysisErrorKind::IncompatibleTypes { source, dest } => showable(source) && showable(dest),
        _ => true,
    }
}

/// What an analysis error says went wrong.
pub open spec fn analysis_message(e: SpecAnalysisError) -> Seq<char> {
    match e.kind {
        SpecAnalysisErrorKind::IncompatibleTypes { source, dest } => "source type "@ + type_string(source)
            + " is incompatible with dest type "@ + type_string(dest),
        SpecAnalysisErrorKind::TypeIsNotFunction { tname } => "expected function instead of type name "@ + tname,
        SpecAnalysisErrorKind::FunctionIsNotType { fname } => "expected type name instead of function "@ + fname,
        SpecAnalysisErrorKind::NoSuchFunction { fname } => "function "@ + fname + " was not found in scope"@,
        SpecAnalysisErrorKind::NoSuchType { tname } => "type "@ + tname + " was not found in scope"@,
        SpecAnalysisErrorKind::UnconstructableType { tname } => "type "@ + tname
            + " cannot be constructed (is not a struct or enum variant)"@,
        SpecAnalysisErrorKind::UnresolvableDefinition { name } => "definition "@ + name
            + " cannot be resolved: the definitions left depend on each other"@,
    }
}

impl AnalysisError {
    /// What the error says went wrong.
    pub fn to_string(&self) -> (r: String)
        requires
            analysis_message_showable(self@),
        ensures
            r@ == analysis_message(self@),
    {
        match &self.kind {
            AnalysisErrorKind::IncompatibleTypes { source, dest } => {
                let mut out = owned("source type ");
                let a = show_type(source);
                append(&mut out, a.as_str());
                append(&mut out, " is incompatible with dest type ");
                let b = show_type(dest);
                append(&mut out, b.as_str());
                out
            },
            AnalysisErrorKind::TypeIsNotFunction { tname } => {
                let mut out = owned("expected function instead of type name ");
                append(&mut out, tname.as_str());
                out
            },
            AnalysisErrorKind::FunctionIsNotType { fname } => {
                let mut out = owned("expected type name instead of function ");
                append(&mut out, fname.as_str());
                out
            },
            AnalysisErrorKind::NoSuchFunction { fname } => {
                let mut out = owned("function ");
                append(&mut out, fname.as_str());
                append(&mut out, " was not found in scope");
                out
            },
            AnalysisErrorKind::NoSuchType { tname } => {
                let mut out = owned("type ");
                append(&mut out, tname.as_str());
                append(&mut out, " was not found in scope");
                out
            },
            AnalysisErrorKind::UnconstructableType { tname } => {
                let mut out = owned("type ");
                append(&mut out, tname.as_str());
                append(&mut out, " cannot be constructed (is not a struct or enum variant)");
                out
            },
            AnalysisErrorKind::UnresolvableDefinition { name } => {
                let mut out = owned("definition ");
                append(&mut out, name.as_str());
                append(&mut out, " cannot be resolved: the definitions left depend on each other");
                out
            },
        }
    }

    /// The report of the error, with the line of the source it is on: what `print_error`
    /// writes.
    pub fn print_error(&self, scanner: &Scanner, file_name: &str) -> (r: String)
        requires
            analysis_message_showable(self@),
            self@.cursor <= scanner@.chars.len(),
            self@.cursor < usize::MAX,
        ensures
            r@ == report_at("Syntax"@, scanner@.chars, file_name@, analysis_message(self@), self@.cursor),
    {
        let message = self.to_string();
        error_report("Syntax", scanner, file_name, message.as_str(), self.cursor)
    }
}

} // verus!
