use lox::spans::{BytePos, Span};

#[test]
fn byte_positions_add_and_compare() {
    let zero = BytePos::new();
    assert_eq!(zero.offset(), 0);
    let three = zero.add(3);
    assert_eq!(three.offset(), 3);
    assert_eq!(three.add(4).offset(), 7);
    assert!(zero.le(three));
    assert!(!three.le(zero));
    assert_eq!(zero.max(three), three);
    assert_eq!(three.max(zero), three);
}

#[test]
fn spans_keep_their_ends() {
    let start = BytePos::new().add(2);
    let end = start.add(5);
    let span = Span::new(start, end);
    assert_eq!(span.start(), start);
    assert_eq!(span.end(), end);
    let empty = Span::new(start, start);
    assert_eq!(empty.start().offset(), empty.end().offset());
}
