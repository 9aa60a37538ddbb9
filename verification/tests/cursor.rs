use silver::lexer::{is_digit, is_ident_body, is_ident_start, rule_string_ident, scan, Cursor, Lexer, TokenKind};
use silver::span::Span;

#[test]
fn span_new_measures_its_width() {
    let span = Span::new(4, 9);
    assert_eq!((span.start_idx, span.end_idx, span.len), (4, 9, 5));
    let empty = Span::new(7, 7);
    assert_eq!((empty.start_idx, empty.end_idx, empty.len), (7, 7, 0));
}

#[test]
fn cursor_peeks_without_consuming() {
    let mut cursor = Cursor::new("ab");
    assert_eq!(cursor.offset(), 0);
    assert_eq!(cursor.previous(), None);
    assert_eq!(cursor.peek(), Some('a'));
    assert_eq!(cursor.peek(), Some('a'));
    assert_eq!(cursor.next(), Some('a'));
    assert_eq!(cursor.previous(), Some('a'));
    assert_eq!(cursor.next(), Some('b'));
    assert_eq!(cursor.offset(), 2);
    assert_eq!(cursor.peek(), None);
    assert_eq!(cursor.next(), None);
    assert_eq!(cursor.offset(), 2);
}

#[test]
fn take_while_stops_before_the_first_miss() {
    let mut cursor = Cursor::new("123abc");
    assert_eq!(cursor.take_while(is_digit), vec!['1', '2', '3']);
    assert_eq!(cursor.offset(), 3);
    assert_eq!(cursor.peek(), Some('a'));
    assert_eq!(cursor.take_while(is_digit), Vec::<char>::new());
    assert_eq!(cursor.offset(), 3);
    assert_eq!(cursor.take_while(|c| c != 'z'), vec!['a', 'b', 'c']);
    assert_eq!(cursor.peek(), None);
}

#[test]
fn skip_whitespace_counts_spaces_only() {
    let mut cursor = Cursor::new("   \t x");
    assert_eq!(cursor.skip_whitespace(), 3);
    assert_eq!(cursor.peek(), Some('\t'));
    assert_eq!(cursor.skip_whitespace(), 0);
    assert_eq!(cursor.offset(), 3);
}

#[test]
fn character_classes() {
    assert!(is_ident_start('_') && is_ident_start('a') && is_ident_start('Z'));
    assert!(!is_ident_start('0') && !is_ident_start('-') && !is_ident_start('\u{e9}'));
    assert!(is_ident_body('_') && is_ident_body('q') && is_ident_body('7'));
    assert!(!is_ident_body(' ') && !is_ident_body('.'));
    assert!(is_digit('0') && is_digit('9'));
    assert!(!is_digit('a') && !is_digit('/') && !is_digit(':'));
}

#[test]
fn scan_reads_one_token() {
    let mut cursor = Cursor::new("abc1+=2");
    assert_eq!(scan(&mut cursor), TokenKind::Identifier("abc1".into()));
    assert_eq!(cursor.offset(), 4);
    assert_eq!(scan(&mut cursor), TokenKind::PlusEquals);
    assert_eq!(cursor.offset(), 6);
    assert_eq!(scan(&mut cursor), TokenKind::IntegerLiteral("2".into()));
    assert_eq!(cursor.offset(), 7);
}

#[test]
fn string_rule_declines() {
    let mut lexer = Lexer::new("\"a\"");
    assert_eq!(rule_string_ident(&mut lexer, '"'), None);
    let kinds: Vec<TokenKind> =
        lexer.collect().unwrap().into_iter().map(|token| token.kind).collect();
    assert_eq!(
        kinds,
        vec![
            TokenKind::Unknown,
            TokenKind::Identifier("a".into()),
            TokenKind::Unknown,
            TokenKind::NewLine
        ]
    );
}
