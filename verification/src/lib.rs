pub mod utils;
/// Contains the parser: Perform lexical and syntactical analysis over a stream of text to validate the syntax and produce a parse tree
/// The lexer of the earlier tower syntax: splits source text into tokens
pub mod lexer;
pub mod parser;
/// The next version of the parser, under way: its scanner and its results
pub mod parser_new;
/// Contains the analyser: Performs semantic analysis over a parse tree to validate its correctness
pub mod analyser;
pub mod error;
pub mod sorted;
pub mod interpreter;
/// What the LLVM-based compiler decides: LLVM types for tower types, and the order functions are compiled in
pub mod compiler;
