use tower::parser_new::result::ScanResult;
use tower::parser_new::scanner::Scanner;
use tower::utils::{IncrementMut, IntoOption, IntoResult, IsWhitespace};

#[test]
fn whitespace_text() {
    assert!(" \t\n".is_whitespace());
    assert!("".is_whitespace());
    assert!(!" a ".is_whitespace());
    assert!(tower::lexer::str_utils::IsWhitespace::is_whitespace(&"\u{3000}"));
}

#[test]
fn increment_in_place() {
    let mut n: u64 = 41;
    assert_eq!(n.increment(), 42);
    assert_eq!(n, 42);
}

#[test]
fn truth_to_result_and_values_to_options() {
    assert_eq!(true.into_result(1, "no"), Ok(1));
    assert_eq!(false.into_result(1, "no"), Err("no"));
    assert_eq!(5.into_option(), Some(5));
}

#[test]
fn scan_results() {
    let r: ScanResult<u8, &str> = ScanResult::Unrecognised;
    assert!(matches!(r.require("missing"), ScanResult::WithErr("missing")));
    let v: ScanResult<u8, &str> = ScanResult::Valid(2);
    assert!(v.is_valid());
    assert!(matches!(v.map(|x| x * 3), ScanResult::Valid(6)));
    let o: ScanResult<u8, ()> = ScanResult::from(Some(1u8));
    assert!(o.is_valid());
    let b: ScanResult<(), ()> = ScanResult::from(false);
    assert!(matches!(b, ScanResult::Unrecognised));
}

#[test]
fn the_new_scanner_peeks_at_the_next_character() {
    let mut s = Scanner::new("abc");
    assert_eq!(s.peek(), Some('a'));
    assert!(s.take('a'));
    assert_eq!(s.cursor(), 1);
    assert_eq!(s.pop(), Some('b'));
    assert_eq!(s.cursor(), 2);
    assert_eq!(s.take_of(&['x', 'c']), Some('c'));
    assert_eq!(s.cursor(), 3);
    assert!(!s.has_next());
    assert_eq!(s.peek(), None);
}

#[test]
fn the_new_scanner_take_of_tests_the_next_character() {
    let mut s = Scanner::new("ab");
    assert_eq!(s.take_of(&['b']), None);
    assert_eq!(s.cursor(), 0);
    assert_eq!(s.take_of(&['a']), Some('a'));
    assert_eq!(s.cursor(), 1);
}

#[test]
fn the_new_scanner_take_if_tests_the_next_character() {
    let mut s = Scanner::new("ab");
    assert_eq!(s.take_if(|c| c == 'a'), Some('a'));
    assert_eq!(s.cursor(), 1);
    assert_eq!(s.take_if(|c| c == 'a'), None);
    assert_eq!(s.cursor(), 1);
}

#[test]
fn the_new_scanner_takes_strings_at_the_cursor() {
    let mut s = Scanner::new("fn fn");
    assert!(s.take_str("fn"));
    assert_eq!(s.cursor(), 2);
    assert!(!s.take_str("fn"));
    assert!(s.take_str(" fn"));
    assert_eq!(s.cursor(), 5);
    let mut t = Scanner::new("é!");
    assert!(t.take_str("é"));
    assert_eq!(t.cursor(), 1);
    assert!(!t.take_str("!!"));
}

#[test]
fn the_new_scanner_take_until_collects_the_run() {
    let mut s = Scanner::new("aab");
    assert_eq!(s.take_until(|c| c == 'a'), "aa");
    assert_eq!(s.cursor(), 2);
    let mut t = Scanner::new("xyz");
    assert_eq!(t.take_until(|c| c == 'y'), "");
    assert_eq!(t.cursor(), 0);
    assert_eq!(t.take_until(|c| c != 'q'), "xyz");
}

#[test]
fn mapping_with_the_identity_or_twice() {
    let r: ScanResult<u8, &str> = ScanResult::Valid(3);
    assert!(matches!(r.map(|x| x), ScanResult::Valid(3)));
    let r: ScanResult<u8, &str> = ScanResult::Valid(3);
    assert!(matches!(r.map(|x| x + 1).map(|x| x * 2), ScanResult::Valid(8)));
    let r: ScanResult<u8, &str> = ScanResult::Valid(3);
    assert!(matches!(r.map(|x| (x + 1) * 2), ScanResult::Valid(8)));
    let e: ScanResult<u8, &str> = ScanResult::WithErr("bad");
    assert!(matches!(e.map(|x| x + 1), ScanResult::WithErr("bad")));
}
