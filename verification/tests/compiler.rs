use tower::analyser::analyse;
use tower::analyser::tree::{TypedTree, TypedTreeNode};
use tower::analyser::ttype::{OpaqueTypeKind, Type};
use tower::compiler::{is_tower_builtin, LlvmType, ModuleContext};
use tower::parser::result::ScanResult;
use tower::parser::scanner::Scanner;

fn typed(text: &str) -> TypedTreeNode {
    let mut scanner = Scanner::new(text, "t.tower");
    let tree = match tower::parser::parse(&mut scanner) {
        ScanResult::Valid(tree) => tree,
        _ => panic!("the text does not parse"),
    };
    match analyse(&tree) {
        ScanResult::Valid(t) => t,
        _ => panic!("the tree does not analyse"),
    }
}

fn function<'a>(module: &'a TypedTreeNode, name: &str) -> &'a TypedTreeNode {
    match &module.tree {
        TypedTree::Module { elems, .. } => &elems.iter().find(|(n, _)| n == name).unwrap().1,
        _ => panic!("not a module"),
    }
}

#[test]
fn integers_map_to_integer_types_of_their_width() {
    let mut ctx = ModuleContext::new();
    assert_eq!(ctx.llvm_type(&Type::new_int(32)), LlvmType::Int(32));
    assert_eq!(ctx.llvm_type(&Type::new_uint(8)), LlvmType::Int(8));
    assert_eq!(ctx.llvm_type(&Type::new_uint(128)), LlvmType::Int(128));
    assert_eq!(ctx.llvm_type(&Type::new_bool()), LlvmType::Int1);
    assert!(ctx.typedefs.is_empty());
}

#[test]
fn strings_references_and_functions() {
    let mut ctx = ModuleContext::new();
    assert_eq!(ctx.llvm_type(&Type::new_str(5)), LlvmType::ByteArray(5));
    assert_eq!(ctx.llvm_type(&Type::new_strref(Some(5))), LlvmType::Pointer);
    let f = Type::Function { name: "main".to_string(), effect: tower::analyser::stack_effect::StackEffect::none() };
    assert_eq!(ctx.llvm_type(&f), LlvmType::TowerFunction);
}

#[test]
fn a_struct_is_defined_once_then_named() {
    let mut ctx = ModuleContext::new();
    let inner = Type::new_struct("Inner".to_string(), &vec![("x".to_string(), Type::new_uint(16))]);
    let outer = Type::new_struct(
        "Outer".to_string(),
        &vec![("a".to_string(), inner), ("b".to_string(), Type::new_int(64))],
    );
    let t = ctx.llvm_type(&outer);
    assert_eq!(
        t,
        LlvmType::Struct {
            name: "Outer".to_string(),
            fields: vec![
                LlvmType::Struct { name: "Inner".to_string(), fields: vec![LlvmType::Int(16)] },
                LlvmType::Int(64),
            ],
        }
    );
    assert_eq!(ctx.typedefs, vec!["Inner".to_string(), "Outer".to_string()]);
    assert_eq!(ctx.llvm_type(&outer), LlvmType::Defined("Outer".to_string()));
    assert_eq!(ctx.typedefs.len(), 2);
}

#[test]
fn a_function_waits_for_the_functions_it_calls() {
    let module = typed("fn z { } fn a { z }");
    let mut ctx = ModuleContext::new();
    assert!(!ctx.compile_function(function(&module, "a")));
    assert!(ctx.functions.is_empty());
    assert!(ctx.compile_function(function(&module, "z")));
    assert!(ctx.compile_function(function(&module, "a")));
    assert_eq!(ctx.functions, vec!["z".to_string(), "a".to_string()]);
}

#[test]
fn a_module_is_compiled_callees_first() {
    let module = typed("fn z { } fn a { z }");
    let mut ctx = ModuleContext::new();
    ctx.compile_module(&module);
    assert_eq!(ctx.functions, vec!["z".to_string(), "a".to_string()]);
}

#[test]
fn a_module_without_functions_compiles_nothing() {
    let module = typed("struct P { x: u8 }");
    let mut ctx = ModuleContext::new();
    ctx.compile_module(&module);
    assert!(ctx.functions.is_empty());
}

#[test]
fn builtins_start_with_two_underscores() {
    assert!(is_tower_builtin("__add_i32"));
    assert!(is_tower_builtin("__"));
    assert!(!is_tower_builtin("_add"));
    assert!(!is_tower_builtin("main"));
    assert!(!is_tower_builtin(""));
}

#[test]
fn floats_map_by_their_size_in_bytes() {
    let mut ctx = ModuleContext::new();
    let f64_type = Type::Opaque { size: Some(8), kind: OpaqueTypeKind::Float };
    let f32_type = Type::Opaque { size: Some(4), kind: OpaqueTypeKind::Float };
    assert_eq!(f64_type.name(), "f64");
    assert_eq!(ctx.llvm_type(&f64_type), LlvmType::Double);
    assert_eq!(ctx.llvm_type(&f32_type), LlvmType::Float);
}

#[test]
fn a_type_the_compiler_cannot_handle_leaves_the_context_as_it_was() {
    let mut ctx = ModuleContext::new();
    let array = Type::Opaque { size: Some(4), kind: OpaqueTypeKind::Array };
    assert_eq!(ctx.try_llvm_type(&array), None);
    let inner = Type::new_struct("Inner".to_string(), &vec![("x".to_string(), Type::new_uint(8))]);
    let outer = Type::new_struct(
        "Outer".to_string(),
        &vec![("a".to_string(), inner), ("b".to_string(), Type::Opaque { size: Some(8), kind: OpaqueTypeKind::UnsignedInt })],
    );
    assert!(ctx.try_llvm_type(&outer).is_some());
    assert_eq!(ctx.typedefs.len(), 2);
    let bad = Type::new_struct(
        "Bad".to_string(),
        &vec![("c".to_string(), Type::new_struct("C".to_string(), &vec![])), ("d".to_string(), Type::new_uint(24))],
    );
    assert_eq!(ctx.try_llvm_type(&bad), None);
    assert_eq!(ctx.typedefs, vec!["Inner".to_string(), "Outer".to_string()]);
    assert_eq!(ctx.try_llvm_type(&Type::new_int(16)), Some(LlvmType::Int(16)));
}

#[test]
fn a_module_whose_passes_fail_is_not_compiled() {
    let module = typed("fn a { } fn b { } fn c { a }");
    let mut ctx = ModuleContext::new();
    assert!(!ctx.try_compile_module(&module));
    assert!(ctx.functions.is_empty());
    let module = typed("fn z { } fn a { z }");
    assert!(ctx.try_compile_module(&module));
    assert_eq!(ctx.functions, vec!["z".to_string(), "a".to_string()]);
}
