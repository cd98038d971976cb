use tower::lexer::{tokenise, KeywordType, Literal, Token};

fn floats(s: &str) -> Option<u64> {
    s.parse::<f64>().ok().map(f64::to_bits)
}

fn describe(t: &Token) -> String {
    match t {
        Token::Keyword(k) => format!("kw {:?}", k),
        Token::Identifier(s) => format!("id {}", s),
        Token::Literal(Literal::U64(v)) => format!("u64 {}", v),
        Token::Literal(Literal::I64(v)) => format!("i64 {}", v),
        Token::Literal(Literal::F64(b)) => format!("f64 {}", f64::from_bits(*b)),
        Token::Literal(Literal::Bool(b)) => format!("bool {}", b),
        Token::Literal(Literal::String(s)) => format!("str {:?}", s),
        Token::Literal(Literal::FnPtr(s)) => format!("fnptr {}", s),
    }
}

fn lexed(code: &str) -> Vec<String> {
    tokenise(code, floats).ok().unwrap().iter().map(describe).collect()
}

#[test]
fn literals_of_each_type() {
    assert_eq!(
        lexed("\"hello\" \"✨\" true false -19725 1 64i 741u 6.9 7f &function_name"),
        vec![
            "str \"hello\"",
            "str \"✨\"",
            "bool true",
            "bool false",
            "i64 -19725",
            "i64 1",
            "i64 64",
            "u64 741",
            "f64 6.9",
            "f64 7",
            "fnptr function_name",
        ]
    );
}

#[test]
fn a_function_declaration() {
    assert_eq!(
        lexed("fn hello = \"hello\" print_hello ;"),
        vec!["kw Fn", "id hello", "kw FnDef", "str \"hello\"", "id print_hello", "kw FnEnd"]
    );
}

#[test]
fn anonymous_functions_and_comments() {
    assert_eq!(
        lexed("#!/usr/bin/tower\nfn main = { \"in\" println } call # done\n;"),
        vec!["kw Fn", "id main", "kw FnDef", "kw AnonFnOpen", "str \"in\"", "id println", "kw AnonFnClose", "id call", "kw FnEnd"]
    );
}

#[test]
fn string_escapes() {
    assert_eq!(lexed("\"a\\tb\\\"c\\u{41}\\q\""), vec!["str \"a\\tb\\\"cA\""]);
}

#[test]
fn strings_may_hold_whitespace() {
    assert_eq!(lexed("\"a b\" x"), vec!["str \"a b\"", "id x"]);
}

#[test]
fn bad_unicode_escapes() {
    assert_eq!(tokenise("\"\\u{110000}\"", floats).err().unwrap(), "[ERROR]: Value 110000 is not a valid unicode code point");
    assert_eq!(tokenise("\"\\u{1234567}\"", floats).err().unwrap(), "[ERROR]: Value 1234567 is not a valid unicode code point");
    assert_eq!(
        tokenise("\"\\u{zz}\"", floats).err().unwrap(),
        "[ERROR]: Failed to convert hex string zz to u32: invalid digit found in string"
    );
    assert_eq!(tokenise("\"\\ux\"", floats).err().unwrap(), "[ERROR]: Expected { in unicode escape \\u{...}");
}

#[test]
fn only_the_start_of_a_word_is_read() {
    assert_eq!(lexed("ab=c ="), vec!["id ab=c", "kw FnDef"]);
}

#[test]
fn keyword_types() {
    assert_eq!(KeywordType::Fn, KeywordType::Fn);
    assert_ne!(KeywordType::FnDef, KeywordType::FnEnd);
}

#[test]
fn a_number_too_large_for_i64_is_a_u64() {
    assert_eq!(
        lexed("9223372036854775807 9223372036854775808 18446744073709551615 18446744073709551616"),
        vec![
            "i64 9223372036854775807",
            "u64 9223372036854775808",
            "u64 18446744073709551615",
            "f64 18446744073709552000",
        ]
    );
}
