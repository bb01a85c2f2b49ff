use lox::lex::scan::Scanner;

/// Tests that [`Scanner::peek_pair`] returns pairs in order.
#[test]
fn peek_pair_is_ordered() {
    let scanner = Scanner::new("ab");
    assert_eq!(scanner.peek_pair(), (Some('a'), Some('b')));
}

/// Tests that [`Scanner::peek_pair`] supports partial pairs at the end of
/// source code.
#[test]
fn peek_pair_supports_partial_pairs() {
    let scanner = Scanner::new("a");
    assert_eq!(scanner.peek_pair(), (Some('a'), None));
}

/// Tests that [`Scanner::peek_pair`] supports empty pairs at the end of source
/// code.
#[test]
fn peek_pair_supports_empty_pairs() {
    let scanner = Scanner::new("");
    assert_eq!(scanner.peek_pair(), (None, None));
}

/// Tests that lexemes are measured in bytes and read in characters.
#[test]
fn lexemes_count_bytes() {
    let mut scanner = Scanner::new("fóó bar");
    scanner.eat_while(|c| c != ' ');
    assert_eq!(scanner.lexeme(), "fóó");
    assert_eq!(scanner.lexeme_length(), 5);
    assert!(scanner.eat(' '));
    assert!(!scanner.eat(' '));
    scanner.begin_lexeme();
    assert_eq!(scanner.lexeme(), "");
    assert_eq!(scanner.lexeme_length(), 0);
    assert_eq!(scanner.peek(), Some('b'));
    assert_eq!(scanner.bump(), Some('b'));
    assert_eq!(scanner.lexeme(), "b");
    scanner.eat_while(|_| true);
    assert_eq!(scanner.lexeme(), "bar");
    assert_eq!(scanner.bump(), None);
    assert_eq!(scanner.peek(), None);
    assert!(scanner.lexeme_is("bar"));
    assert!(!scanner.lexeme_is("ba"));
}

/// Tests that a new scanner's bumps return the characters in order, then
/// `None` for good.
#[test]
fn bumps_read_characters_in_order() {
    let source = "a\u{e9}\n\u{1f600}z";
    let mut scanner = Scanner::new(source);
    for expected in source.chars() {
        assert_eq!(scanner.bump(), Some(expected));
    }
    assert_eq!(scanner.bump(), None);
    assert_eq!(scanner.bump(), None);
}
