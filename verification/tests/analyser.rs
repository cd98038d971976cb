use tower::analyser::error::AnalysisErrorKind;
use tower::analyser::stack_effect::StackEffect;
use tower::analyser::tree::{TypedTree, TypedTreeNode};
use tower::analyser::ttype::{clone_type, OpaqueTypeKind, Type};
use tower::analyser::value::{Value, ValueInner};
use tower::analyser::{analyse, AnalysisResult, TowerType};
use tower::parser::result::ScanResult;
use tower::parser::scanner::Scanner;
use tower::parser::tree::{Literal, ParseTree, ParseTreeNode};

fn analysed(text: &str) -> AnalysisResult<TypedTreeNode> {
    let mut scanner = Scanner::new(text, "t.tower");
    match tower::parser::parse(&mut scanner) {
        ScanResult::Valid(tree) => analyse(&tree),
        _ => panic!("the text does not parse"),
    }
}

fn function_effect(node: &TypedTreeNode, name: &str) -> String {
    match &node.tree {
        TypedTree::Module { elems, .. } => {
            for (n, e) in elems {
                if n == name {
                    if let TypedTree::Function { effect, .. } = &e.tree {
                        return effect.to_string();
                    }
                }
            }
            panic!("no such function")
        },
        _ => panic!("expected a module"),
    }
}

fn ok(text: &str) -> TypedTreeNode {
    match analysed(text) {
        ScanResult::Valid(t) => t,
        ScanResult::WithErr(e) => panic!("analysis error: {}", e.to_string()),
        ScanResult::Unrecognised => panic!("unrecognised"),
    }
}

fn err_message(text: &str) -> String {
    match analysed(text) {
        ScanResult::WithErr(e) => e.to_string(),
        _ => panic!("expected an analysis error"),
    }
}

#[test]
fn literals_push_their_types() {
    let t = ok("fn main { 1 2u8 \"hi\" }");
    assert_eq!(function_effect(&t, "main"), "( -> i32, u8, &str(byte_len: 2) )");
}

#[test]
fn calls_take_the_effect_of_the_function_called() {
    let t = ok("fn main { a a } fn a { 1 }");
    assert_eq!(function_effect(&t, "main"), "( -> i32, i32 )");
    assert_eq!(function_effect(&t, "a"), "( -> i32 )");
}

#[test]
fn constructors_pop_the_fields_and_push_the_struct() {
    let t = ok("struct P { x: u8 y: u8 } fn main { 1u8 2u8 -> P }");
    assert_eq!(function_effect(&t, "main"), "( -> struct P { x: u8, y: u8 } )");
}

#[test]
fn an_empty_function_has_no_effect() {
    let t = ok("fn main { }");
    assert_eq!(function_effect(&t, "main"), "( -> )");
}

#[test]
fn mismatched_types_are_an_error() {
    assert_eq!(err_message("struct P { x: u8 } fn main { 1 -> P }"), "source type i32 is incompatible with dest type u8");
}

#[test]
fn unknown_function() {
    assert_eq!(err_message("fn main { foo }"), "function foo was not found in scope");
}

#[test]
fn type_used_as_function() {
    assert_eq!(err_message("struct S { } fn main { S }"), "expected function instead of type name S");
}

#[test]
fn unknown_type() {
    assert_eq!(err_message("fn main { -> Q }"), "type Q was not found in scope");
    assert_eq!(err_message("struct S { a: Q }"), "type Q was not found in scope");
}

#[test]
fn builtin_types_cannot_be_constructed() {
    assert_eq!(err_message("fn main { -> u8 }"), "type u8 cannot be constructed (is not a struct or enum variant)");
}

#[test]
fn definitions_that_depend_on_each_other_in_a_cycle_are_not_analysed() {
    assert_eq!(
        err_message("fn a { b } fn b { a }"),
        "definition a cannot be resolved: the definitions left depend on each other"
    );
}

#[test]
fn a_function_that_calls_itself_is_an_error() {
    match analysed("fn f { f }") {
        ScanResult::WithErr(e) => {
            assert!(matches!(e.kind(), AnalysisErrorKind::UnresolvableDefinition { name } if name == "f"));
            assert_eq!(e.cursor(), 0);
        },
        _ => panic!("expected an analysis error"),
    }
}

#[test]
fn analysis_keeps_every_definition() {
    let t = ok("fn c { b } struct S { x: u8 } fn b { 1 } fn a { c }");
    match t.tree {
        TypedTree::Module { elems, .. } => {
            let names: Vec<&str> = elems.iter().map(|(n, _)| n.as_str()).collect();
            assert_eq!(names, vec!["S", "a", "b", "c"]);
        },
        _ => panic!("expected a module"),
    }
}

#[test]
fn struct_types_have_their_fields() {
    let t = ok("struct S { b: u16 a: u8 }");
    match t.tree {
        TypedTree::Module { elems, .. } => match &elems[0].1.tree {
            TypedTree::Type(ty) => {
                assert_eq!(ty.to_string(), "struct S { a: u8, b: u16 }");
                assert_eq!(ty.name(), "S");
            },
            _ => panic!("expected a type"),
        },
        _ => panic!("expected a module"),
    }
}

#[test]
fn type_names_and_constructors() {
    assert_eq!(Type::new_int(32), Type::Opaque { size: Some(4), kind: OpaqueTypeKind::SignedInt });
    assert_eq!(Type::new_uint(8).name(), "u8");
    assert_eq!(Type::new_bool().name(), "bool");
    assert_eq!(Type::from_name("i64"), Some(Type::new_int(64)));
    assert_eq!(Type::from_name("&&u8"), Some(Type::Reference { to: Box::new(Type::Reference { to: Box::new(Type::new_uint(8)) }) }));
    assert_eq!(Type::from_name("u7"), None);
    assert_eq!(Type::from_name("&x"), None);
    assert!(Type::new_bool().is_opaque());
    assert!(!Type::new_strref(None).is_opaque());
    assert_eq!(Type::new_strref(Some(3)).deref(), &Type::new_str(3));
    assert_eq!(Type::new_strref(Some(3)).to_string(), "&str(byte_len: 3)");
    assert_eq!(Type::new_strref(None).to_string(), "&str");
    assert_eq!(Type::new_uint(64).as_opaque(), Some((&Some(8), &OpaqueTypeKind::UnsignedInt)));
}

#[test]
fn coercion_of_sized_string_references() {
    let sized = Type::new_strref(Some(5));
    let unsized_ = Type::new_strref(None);
    assert!(sized.coerces_to(&sized));
    assert!(sized.coerces_to(&unsized_));
    assert!(!unsized_.coerces_to(&sized));
    assert!(!Type::new_uint(8).coerces_to(&Type::new_int(8)));
}

#[test]
fn type_of_literals() {
    assert_eq!(Type::from_lit(&Literal::U16(1)), Some(Type::new_uint(16)));
    assert_eq!(Type::from_lit(&Literal::String("✨".to_string())), Some(Type::new_strref(Some(3))));
    assert_eq!(Type::from_lit(&Literal::FnPtr("f".to_string())), None);
}

fn effect(popped: Vec<Type>, pushed: Vec<Type>) -> StackEffect {
    StackEffect::new(popped, pushed)
}

#[test]
fn combining_effects() {
    let u8t = Type::new_uint(8);
    let i32t = Type::new_int(32);
    let a = effect(vec![], vec![clone_type(&u8t), clone_type(&i32t)]);
    let b = effect(vec![clone_type(&i32t), clone_type(&u8t), Type::new_bool()], vec![Type::new_bool()]);
    let ab = a.combine(&b).ok().unwrap();
    assert_eq!(ab, effect(vec![Type::new_bool()], vec![Type::new_bool()]));
    let c = effect(vec![clone_type(&u8t)], vec![]);
    let bad = StackEffect::new_pushed(vec![Type::new_int(32)]).combine(&c);
    match bad {
        Err(e) => match e.kind() {
            AnalysisErrorKind::IncompatibleTypes { source, dest } => {
                assert_eq!(*source, Type::new_int(32));
                assert_eq!(*dest, Type::new_uint(8));
            },
            _ => panic!("expected incompatible types"),
        },
        Ok(_) => panic!("expected an error"),
    }
}

#[test]
fn combining_with_no_effect_changes_nothing() {
    let e = effect(vec![Type::new_uint(8)], vec![Type::new_int(16), Type::new_bool()]);
    let left = StackEffect::none().combine(&e).ok().unwrap();
    assert_eq!(left, e);
    let e2 = effect(vec![Type::new_uint(8)], vec![Type::new_int(16), Type::new_bool()]);
    let right = e2.combine(&StackEffect::none()).ok().unwrap();
    assert_eq!(right, e);
}

#[test]
fn combining_is_associative() {
    let t = |n: usize| Type::new_uint(n);
    let a = || effect(vec![t(8)], vec![t(16), t(32)]);
    let b = || effect(vec![t(32)], vec![t(64), t(64)]);
    let c = || effect(vec![t(64), t(64), t(16), t(128)], vec![t(8)]);
    let ab_c = a().combine(&b()).ok().unwrap().combine(&c()).ok().unwrap();
    let bc = b().combine(&c()).ok().unwrap();
    let a_bc = a().combine(&bc).ok().unwrap();
    assert_eq!(ab_c, a_bc);
    assert_eq!(ab_c.to_string(), "( u8, u128 -> u8 )");
}

#[test]
fn constructor_and_field_access_effects() {
    let p = Type::new_struct("P".to_string(), &vec![("x".to_string(), Type::new_uint(8)), ("y".to_string(), Type::new_int(8))]);
    let e = StackEffect::new_constructor(p, &vec![("x".to_string(), Type::new_uint(8)), ("y".to_string(), Type::new_int(8))]);
    assert_eq!(e.to_string(), "( u8, i8 -> struct P { x: u8, y: i8 } )");
    let f = StackEffect::new_field_access(Type::new_bool(), Type::new_uint(8));
    assert_eq!(f.to_string(), "( bool -> bool, u8 )");
    assert_eq!(f.last_pushed(), Some(&Type::new_uint(8)));
    assert_eq!(StackEffect::none().last_pushed(), None);
    assert_eq!(StackEffect::from_lit(&Literal::Bool(true)).unwrap().to_string(), "( -> bool )");
    assert!(StackEffect::from_lit(&Literal::FnPtr("f".to_string())).is_none());
}

#[test]
fn values_of_literals() {
    let v = Value::from_lit(&Literal::U32(0x01020304)).unwrap();
    assert_eq!(v.ty, Type::new_uint(32));
    assert_eq!(v.as_bytes(), Some(&0x01020304u32.to_ne_bytes()[..]));
    let v = Value::from_lit(&Literal::I16(-2)).unwrap();
    assert_eq!(v.as_bytes(), Some(&(-2i16).to_ne_bytes()[..]));
    let v = Value::from_lit(&Literal::Bool(true)).unwrap();
    assert_eq!(v.as_bytes(), Some(&[1u8][..]));
    let s = Value::from_lit(&Literal::String("hé".to_string())).unwrap();
    assert_eq!(s.ty, Type::new_strref(Some(3)));
    assert!(s.as_bytes().is_none());
    assert_eq!(s.deref().as_bytes(), Some(&"hé".as_bytes()[..]));
    assert_eq!(s.as_strref(), Some("hé".to_string()));
    assert_eq!(s.to_string(), "Value(of_type: &str(byte_len: 3), value: (unable to be displayed))");
    assert!(Value::from_lit(&Literal::FnPtr("f".to_string())).is_none());
    assert_eq!(Value::from_lit(&Literal::U8(7)).unwrap().as_strref(), None);
}

#[test]
fn invalid_utf8_is_no_string() {
    let v = Value::new_reference(Value::from_typed_bytes(Type::new_str(2), vec![0xff, 0xfe]));
    assert_eq!(v.as_strref(), None);
}

#[test]
fn function_values_and_structs() {
    let f = Value::new_fn("f".to_string(), StackEffect::none());
    assert!(matches!(&f.inner, ValueInner::Function { fn_name } if fn_name == "f"));
    assert_eq!(f.ty.to_string(), "f ( -> )");
    let s = Value::new_struct(Type::new_bool(), vec![]);
    assert!(matches!(&s.inner, ValueInner::Struct(vs) if vs.is_empty()));
}

#[test]
fn tower_type_names() {
    assert_eq!(TowerType::U128.to_string(), "u128");
    assert_eq!(TowerType::StrPtr.to_string(), "strptr");
    assert_eq!(TowerType::Generic("T".to_string()).to_string(), "<T>");
}

#[test]
fn a_typed_tree_is_shown_one_definition_per_line() {
    let t = ok("fn main { 1u8 }");
    assert_eq!(
        tower::analyser::tree::dump_typed_tree(&t, 0),
        "Module(name: , elems: [\n\tmain: Function(name: main, effect: ( -> u8 ), body: [\n\t\tLiteral(type: u8, value: (unable to be displayed)),\n\t]),\n])"
    );
}

#[test]
fn words_types_and_constructors_are_shown_on_their_line() {
    let t = ok("struct P { x: u8 } fn f { } fn main { f 1u8 -> P }");
    let shown = tower::analyser::tree::dump_typed_tree(&t, 0);
    assert!(shown.starts_with("Module(name: , elems: [\n\tP: Type(struct P { x: u8 }),\n"));
    assert!(shown.contains("\tf: Function(name: f, effect: ( -> ), body: [\n\t]),\n"));
    assert!(shown.contains("\t\tWord(f),\n"));
    assert!(shown.contains("\t\tConstructor(of: struct P { x: u8 }, effect: ( u8 -> struct P { x: u8 } )),\n"));
}

#[test]
fn the_checked_analysis_gives_what_analyse_gives() {
    let mut scanner = Scanner::new("fn main { 1 }", "t.tower");
    let tree = match tower::parser::parse(&mut scanner) {
        ScanResult::Valid(tree) => tree,
        _ => panic!("the text does not parse"),
    };
    match (tower::analyser::analyse_checked(&tree).unwrap(), analyse(&tree)) {
        (ScanResult::Valid(a), ScanResult::Valid(b)) => assert_eq!(a, b),
        _ => panic!("expected both analyses to succeed"),
    }
}

#[test]
fn the_checked_analysis_refuses_what_it_cannot_handle() {
    let access = ParseTreeNode { file_path: "t".to_string(), cursor: 10, tree: ParseTree::FieldAccess("x".to_string()) };
    let f = ParseTreeNode { file_path: "t".to_string(), cursor: 0, tree: ParseTree::Function { name: "main".to_string(), body: vec![access] } };
    let m = ParseTreeNode { file_path: "t".to_string(), cursor: 0, tree: ParseTree::Module { name: String::new(), elems: vec![("main".to_string(), f)] } };
    assert!(tower::analyser::analyse_checked(&m).is_none());
}

#[test]
fn a_builtin_type_is_named_by_the_name_it_was_found_by() {
    for n in ["u8", "u16", "u32", "u64", "u128", "i8", "i16", "i32", "i64", "i128", "bool"] {
        assert_eq!(Type::from_name(n).unwrap().name(), n);
    }
    assert_eq!(Type::new_struct("P".to_string(), &vec![]).name(), "P");
}
