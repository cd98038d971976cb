use tower::analyser::TowerType;
use tower::error::SyntaxErrorKind;
use tower::parser::result::ScanResult;
use tower::parser::scanner::Scanner;
use tower::parser::tree::{Literal, ParseTree, ParseTreeNode, ParseTreeType};
use tower::parser::{parse, TokenType};

fn node(cursor: usize, tree: ParseTree) -> ParseTreeNode {
    ParseTreeNode { file_path: "t.tower".to_string(), cursor, tree }
}

fn parse_text(text: &str) -> ScanResult<ParseTreeNode, tower::error::SyntaxError> {
    let mut scanner = Scanner::new(text, "t.tower");
    parse(&mut scanner)
}

fn parsed(text: &str) -> ParseTreeNode {
    match parse_text(text) {
        ScanResult::Valid(n) => n,
        ScanResult::WithErr(e) => panic!("syntax error: {}", e.to_string()),
        ScanResult::Unrecognised => panic!("unrecognised"),
    }
}

fn error_of(text: &str) -> tower::error::SyntaxError {
    match parse_text(text) {
        ScanResult::WithErr(e) => e,
        _ => panic!("expected a syntax error"),
    }
}

#[test]
fn parses_a_function_of_literals() {
    let tree = parsed("fn main { 1 2 }");
    let body = vec![node(10, ParseTree::Literal(Literal::I32(1))), node(12, ParseTree::Literal(Literal::I32(2)))];
    let main = node(0, ParseTree::Function { name: "main".to_string(), body });
    let expected = node(0, ParseTree::Module { name: String::new(), elems: vec![("main".to_string(), main)] });
    assert_eq!(tree, expected);
}

#[test]
fn parses_words_strings_and_constructors() {
    let tree = parsed("fn f { g \"a\\tb\\x41\" -> Point }");
    let body = vec![
        node(7, ParseTree::Identifier("g".to_string())),
        node(9, ParseTree::Literal(Literal::String("a\tbA".to_string()))),
        node(20, ParseTree::Constructor("Point".to_string())),
    ];
    let f = node(0, ParseTree::Function { name: "f".to_string(), body });
    assert_eq!(tree, node(0, ParseTree::Module { name: String::new(), elems: vec![("f".to_string(), f)] }));
}

#[test]
fn struct_fields_are_kept_by_name() {
    let tree = parsed("struct P { y: u8 x: u16 }");
    let fields = vec![("x".to_string(), "u16".to_string()), ("y".to_string(), "u8".to_string())];
    let p = node(0, ParseTree::Struct { name: "P".to_string(), fields });
    assert_eq!(tree, node(0, ParseTree::Module { name: String::new(), elems: vec![("P".to_string(), p)] }));
}

#[test]
fn module_elements_are_kept_by_name_later_ones_replacing_earlier() {
    let tree = parsed("fn b { } fn a { } fn b { 1 }");
    match tree.tree {
        ParseTree::Module { elems, .. } => {
            let names: Vec<&str> = elems.iter().map(|(n, _)| n.as_str()).collect();
            assert_eq!(names, vec!["a", "b"]);
            assert_eq!(elems[1].1.cursor, 18);
        },
        _ => panic!("expected a module"),
    }
}

#[test]
fn integer_literals_of_each_form() {
    let tree = parsed("fn f { 0x1f 0b101 0o17 -5 7u8 255u8 -1i8 42i64 3i 9u }");
    let lits: Vec<Literal> = match tree.tree {
        ParseTree::Module { mut elems, .. } => match elems.remove(0).1.tree {
            ParseTree::Function { body, .. } => body
                .into_iter()
                .map(|n| match n.tree {
                    ParseTree::Literal(l) => l,
                    _ => panic!("expected a literal"),
                })
                .collect(),
            _ => panic!("expected a function"),
        },
        _ => panic!("expected a module"),
    };
    assert_eq!(
        lits,
        vec![
            Literal::U32(31),
            Literal::U32(5),
            Literal::U32(15),
            Literal::I32(-5),
            Literal::U8(7),
            Literal::U8(255),
            Literal::I8(-1),
            Literal::I64(42),
            Literal::I32(3),
            Literal::U32(9),
        ]
    );
}

#[test]
fn empty_text_is_an_empty_module() {
    assert_eq!(parsed("  \n "), node(0, ParseTree::Module { name: String::new(), elems: vec![] }));
}

#[test]
fn missing_whitespace_after_fn() {
    let e = error_of("fnmain {}");
    assert_eq!(e.cursor(), 2);
    assert_eq!(e.to_string(), "while parsing Function, expected [Whitespace]");
}

#[test]
fn missing_block() {
    let e = error_of("fn main 1");
    assert_eq!(e.cursor(), 8);
    assert_eq!(e.to_string(), "while parsing Function, expected [Block]");
}

#[test]
fn unclosed_block() {
    let e = error_of("fn main { 1 ");
    assert_eq!(e.cursor(), 12);
    assert_eq!(e.to_string(), "while parsing Function, expected [Identifier, Literal, RCurlyParen]");
}

#[test]
fn unexpected_text_after_the_module() {
    let e = error_of("fn main { } 12");
    assert_eq!(e.cursor(), 12);
    assert_eq!(e.to_string(), "while parsing Module, unexpected string");
}

#[test]
fn overflowing_literal() {
    let e = error_of("fn f { 300u8 }");
    assert_eq!(e.cursor(), 7);
    match e.kind() {
        SyntaxErrorKind::LiteralIntegerOverflow { num, target_type } => {
            assert_eq!(num, "300");
            assert_eq!(*target_type, TowerType::U8);
        },
        _ => panic!("expected an overflow"),
    }
    assert_eq!(e.to_string(), "while parsing Literal, literal integer 300 does not fit in u8");
}

#[test]
fn negative_unsigned_literal() {
    let e = error_of("fn f { -3u16 }");
    assert_eq!(e.cursor(), 9);
    assert!(matches!(e.kind(), SyntaxErrorKind::NegativeUnsignedLiteral));
}

#[test]
fn negative_literals_keep_their_sign() {
    let tree = parsed("fn f { -19725 -128i8 -2147483648 -170141183460469231731687303715884105728i128 }");
    let lits: Vec<Literal> = match tree.tree {
        ParseTree::Module { mut elems, .. } => match elems.remove(0).1.tree {
            ParseTree::Function { body, .. } => body
                .into_iter()
                .map(|n| match n.tree {
                    ParseTree::Literal(l) => l,
                    _ => panic!("expected a literal"),
                })
                .collect(),
            _ => panic!("expected a function"),
        },
        _ => panic!("expected a module"),
    };
    assert_eq!(lits, vec![Literal::I32(-19725), Literal::I8(-128), Literal::I32(i32::MIN), Literal::I128(i128::MIN)]);
}

#[test]
fn a_negative_literal_too_large_for_its_type() {
    let e = error_of("fn f { -129i8 }");
    assert_eq!(e.cursor(), 8);
    assert!(matches!(e.kind(), SyntaxErrorKind::LiteralIntegerOverflow { .. }));
}

#[test]
fn a_negative_hexadecimal_literal_is_unsigned() {
    let e = error_of("fn f { -0x5 }");
    assert!(matches!(e.kind(), SyntaxErrorKind::NegativeUnsignedLiteral));
}

#[test]
fn invalid_integer_size() {
    let e = error_of("fn f { 3i7 }");
    assert_eq!(e.cursor(), 9);
    assert!(matches!(e.kind(), SyntaxErrorKind::InvalidIntegerSize));
}

#[test]
fn bad_escape_sequence() {
    let e = error_of("fn f { \"\\q\" }");
    assert_eq!(e.cursor(), 9);
    assert!(matches!(e.kind(), SyntaxErrorKind::Expected(ts) if *ts == vec![TokenType::EscapeSequence]));
}

#[test]
fn struct_missing_colon() {
    let e = error_of("struct S { a u8 }");
    assert_eq!(e.cursor(), 13);
    assert_eq!(e.to_string(), "while parsing Struct, expected [Colon]");
}

#[test]
fn syntax_error_report() {
    let text = "fn main {\n\t1 ?\n}";
    let scanner = Scanner::new(text, "t.tower");
    let e = error_of(text);
    assert_eq!(e.cursor(), 13);
    let report = e.print_error(&scanner, "t.tower");
    assert_eq!(
        report,
        "Syntax Error at t.tower:4:2 - while parsing Function, expected [Identifier, Literal, RCurlyParen]\n  | \n2 |     1 ?\n  |       ^\n"
    );
}

#[test]
fn tree_type_names() {
    assert_eq!(ParseTreeType::Unspecified.name(), "None");
    assert_eq!(ParseTreeType::Constructor.name(), "Constructor");
    assert_eq!(TokenType::RCurlyParen.name(), "RCurlyParen");
}
