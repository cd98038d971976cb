use tower::analyser::analyse;
use tower::analyser::tree::{TypedTree, TypedTreeNode};
use tower::analyser::ttype::Type;
use tower::analyser::value::{Value, ValueInner};
use tower::interpreter::error::{RuntimeError, RuntimeErrorKind};
use tower::interpreter::interp;
use tower::parser::result::ScanResult;
use tower::parser::scanner::Scanner;

fn typed(text: &str) -> TypedTreeNode {
    let mut scanner = Scanner::new(text, "t.tower");
    let tree = match tower::parser::parse(&mut scanner) {
        ScanResult::Valid(tree) => tree,
        _ => panic!("the text does not parse"),
    };
    match analyse(&tree) {
        ScanResult::Valid(t) => t,
        _ => panic!("the tree does not analyse"),
    }
}

fn run(text: &str) -> Result<Vec<Value>, RuntimeError> {
    interp(typed(text))
}

#[test]
fn main_pushes_its_literals() {
    let stack = run("fn main { 1 2u8 }").ok().unwrap();
    assert_eq!(stack.len(), 2);
    assert_eq!(stack[0].ty, Type::new_int(32));
    assert_eq!(stack[0].as_bytes(), Some(&1i32.to_ne_bytes()[..]));
    assert_eq!(stack[1].ty, Type::new_uint(8));
    assert_eq!(stack[1].as_bytes(), Some(&[2u8][..]));
}

#[test]
fn words_call_functions() {
    let stack = run("fn two { 2u16 } fn main { two 1u16 two }").ok().unwrap();
    let values: Vec<u16> = stack.iter().map(|v| u16::from_ne_bytes([v.as_bytes().unwrap()[0], v.as_bytes().unwrap()[1]])).collect();
    assert_eq!(values, vec![2, 1, 2]);
}

#[test]
fn constructors_build_structs_from_the_top_of_the_stack() {
    let stack = run("struct P { x: u8 y: u8 } fn main { 1u8 2u8 -> P }").ok().unwrap();
    assert_eq!(stack.len(), 1);
    assert_eq!(stack[0].ty.to_string(), "struct P { x: u8, y: u8 }");
    match &stack[0].inner {
        ValueInner::Struct(vals) => {
            assert_eq!(vals.len(), 2);
            assert_eq!(vals[0].as_bytes(), Some(&[2u8][..]));
            assert_eq!(vals[1].as_bytes(), Some(&[1u8][..]));
        },
        _ => panic!("expected a struct"),
    }
}

#[test]
fn strings_are_pushed_as_references() {
    let stack = run("fn main { \"hi\" }").ok().unwrap();
    assert_eq!(stack[0].as_strref(), Some("hi".to_string()));
}

#[test]
fn a_module_without_main() {
    let e = run("fn f { }").err().unwrap();
    assert!(matches!(e.kind(), RuntimeErrorKind::FunctionMissingError(n) if n == "main"));
    assert_eq!(e.cursor(), 0);
    assert_eq!(e.to_string(), "function main not found");
}

#[test]
fn a_tree_that_is_no_module() {
    let node = TypedTreeNode { file_path: "t.tower".to_string(), cursor: 3, tree: TypedTree::Word("x".to_string()) };
    let e = interp(node).err().unwrap();
    assert!(matches!(e.kind(), RuntimeErrorKind::ModuleNotFoundError));
    assert_eq!(e.cursor(), 3);
    assert_eq!(e.to_string(), "no module found");
}

#[test]
fn runtime_error_messages() {
    assert_eq!(RuntimeError::new(RuntimeErrorKind::StackUnderflowError, 0).to_string(), "stack underflow error - attempted to pop from empty stack");
    assert_eq!(RuntimeError::new(RuntimeErrorKind::Utf8Error(vec![1, 255]), 0).to_string(), "error decoding UTF-8 string from bytes [1, 255]");
    assert_eq!(RuntimeError::new(RuntimeErrorKind::Utf8Error(vec![]), 0).to_string(), "error decoding UTF-8 string from bytes []");
}

#[test]
fn runtime_error_report() {
    let text = "fn f { }";
    let scanner = Scanner::new(text, "t.tower");
    let e = run(text).err().unwrap();
    assert_eq!(e.print_error(&scanner, "main.tower"), "Runtime Error at main.tower:1:1 - function main not found\n  | \n1 | fn f { }\n  | ^\n");
}

#[test]
fn the_checked_interpreter_gives_the_stack_within_its_allowance() {
    let stack = tower::interpreter::interp_checked(typed("fn main { 1 2u8 }"), 5).unwrap().ok().unwrap();
    assert_eq!(stack.len(), 2);
    assert_eq!(stack[1].as_bytes(), Some(&[2u8][..]));
}

#[test]
fn the_checked_interpreter_stops_when_calls_nest_too_deep() {
    let text = "fn a { 1u8 } fn b { a } fn main { b }";
    assert!(tower::interpreter::interp_checked(typed(text), 1).is_none());
    let stack = tower::interpreter::interp_checked(typed(text), 2).unwrap().ok().unwrap();
    assert_eq!(stack.len(), 1);
}

#[test]
fn the_checked_interpreter_reports_a_missing_main() {
    let e = tower::interpreter::interp_checked(typed("fn f { }"), 3).unwrap().err().unwrap();
    assert!(matches!(e.kind(), RuntimeErrorKind::FunctionMissingError(n) if n == "main"));
}
