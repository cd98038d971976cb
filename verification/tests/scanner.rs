use tower::parser::result::ScanResult;
use tower::parser::scanner::Scanner;

#[test]
fn new_scanner_starts_at_the_beginning() {
    let scanner = Scanner::new("fn main {}", "main.tower");
    assert_eq!(scanner.cursor(), 0);
    assert_eq!(scanner.file_path(), "main.tower");
    assert!(scanner.has_next());
    assert_eq!(scanner.peek(), Some('f'));
}

#[test]
fn take_and_take_str_move_the_cursor() {
    let mut scanner = Scanner::new("ab\ncd", "f.tower");
    assert!(!scanner.take('b'));
    assert!(scanner.take('a'));
    assert_eq!(scanner.cursor(), 1);
    assert!(scanner.take_str("b\n"));
    assert_eq!(scanner.cursor(), 3);
    assert!(!scanner.take_str("x"));
    assert_eq!(scanner.cursor(), 3);
    assert_eq!(scanner.pop(), Some('c'));
    assert_eq!(scanner.pop(), Some('d'));
    assert_eq!(scanner.pop(), None);
    assert_eq!(scanner.cursor(), 5);
    assert!(!scanner.has_next());
}

#[test]
fn advance_stops_at_the_end() {
    let mut scanner = Scanner::new("abc", "f");
    scanner.advance(2);
    assert_eq!(scanner.cursor(), 2);
    scanner.advance(10);
    assert_eq!(scanner.cursor(), 3);
}

#[test]
fn context_and_position_of_a_cursor() {
    let scanner = Scanner::new("fn a {}\n\tfn b {\r\n}", "f");
    assert_eq!(scanner.get_context(9), "\tfn b {");
    assert_eq!(scanner.get_col_row(9), (2, 2));
    assert_eq!(scanner.get_context(0), "fn a {}");
    assert_eq!(scanner.get_col_row(0), (1, 1));
    assert_eq!(scanner.get_col_row(3), (4, 1));
}

#[test]
fn take_of_and_take_if() {
    let mut scanner = Scanner::new("x1", "f");
    assert_eq!(scanner.take_of(&['a', 'b']), None);
    assert_eq!(scanner.take_of(&['a', 'x']), Some('x'));
    assert_eq!(scanner.take_if(|c| c.is_alphabetic()), None);
    assert_eq!(scanner.take_if(|c| c.is_ascii_digit()), Some('1'));
    assert_eq!(scanner.cursor(), 2);
}

#[test]
fn take_until_collects_while_the_predicate_holds() {
    let mut scanner = Scanner::new("abc123", "f");
    assert_eq!(scanner.take_until(|c| c.is_alphabetic()), "abc");
    assert_eq!(scanner.cursor(), 3);
    assert_eq!(scanner.take_until(|c| c.is_alphabetic()), "");
    assert_eq!(scanner.take_until(|c| c.is_ascii_digit()), "123");
    assert!(!scanner.has_next());
}

fn letter(s: Scanner<'_>) -> (Scanner<'_>, ScanResult<char, ()>) {
    let mut s = s;
    match s.take_if(|c| c.is_alphabetic()) {
        Some(c) => (s, ScanResult::Valid(c)),
        None => (s, ScanResult::Unrecognised),
    }
}

#[test]
fn take_any_repeats_until_unrecognised() {
    let mut scanner = Scanner::new("ab1", "f");
    let (letters, err) = scanner.take_any(letter);
    assert_eq!(letters, vec!['a', 'b']);
    assert!(err.is_none());
    assert_eq!(scanner.cursor(), 2);
    assert!(scanner.take_some(letter).is_none());
    assert_eq!(scanner.cursor(), 2);
}

#[test]
fn try_take_rewinds_on_unrecognised() {
    let mut scanner = Scanner::new("ab", "f");
    let r: ScanResult<(), ()> = scanner.try_take(|s| {
        s.take('a');
        ScanResult::Unrecognised
    });
    assert!(matches!(r, ScanResult::Unrecognised));
    assert_eq!(scanner.cursor(), 0);
    let r: ScanResult<(), ()> = scanner.try_take(|s| {
        s.take('a');
        ScanResult::Valid(())
    });
    assert!(r.is_valid());
    assert_eq!(scanner.cursor(), 1);
}

#[test]
fn take_choice_takes_the_first_recognised() {
    let mut scanner = Scanner::new("b", "f");
    let r: ScanResult<usize, ()> = scanner.take_choice(3, |s, i| {
        let mut s = s;
        let wanted = ['a', 'b', 'c'][i];
        if s.take(wanted) {
            (s, ScanResult::Valid(i))
        } else {
            (s, ScanResult::Unrecognised)
        }
    });
    assert!(matches!(r, ScanResult::Valid(1)));
    assert_eq!(scanner.cursor(), 1);
}

#[test]
fn take_str_matches_characters_beyond_ascii() {
    let mut scanner = Scanner::new("éa", "t");
    assert!(!scanner.take_str("a"));
    assert_eq!(scanner.cursor(), 0);
    assert!(scanner.take_str("é"));
    assert_eq!(scanner.cursor(), 1);
    assert!(scanner.take_str("a"));
    assert_eq!(scanner.cursor(), 2);
}

#[test]
fn try_take_puts_the_cursor_back_on_the_scanner_the_closure_left() {
    let other = "xyz";
    let mut scanner = Scanner::new("abc", "t");
    assert!(scanner.take('a'));
    let r: ScanResult<(), ()> = scanner.try_take(|s: &mut Scanner| {
        *s = Scanner::new(other, "u");
        s.advance(3);
        ScanResult::Unrecognised
    });
    assert!(matches!(r, ScanResult::Unrecognised));
    assert_eq!(scanner.cursor(), 1);
    assert_eq!(scanner.file_path(), "u");
    assert_eq!(scanner.peek(), Some('y'));
}
