use parseal::parsing::charstream::{CharStream, Position, Span, WhitespaceType};
use parseal::parsing::{Identifier, Parse};
use std::cmp::Ordering;

#[test]
fn next_tracks_rows_and_columns() {
    let mut buffer = CharStream::new("ab\ncd".to_string()).build();
    buffer.set_whitespace(WhitespaceType::KeepAll);
    assert_eq!(buffer.next(), Some('a'));
    assert_eq!(buffer.next(), Some('b'));
    assert_eq!(buffer.next(), Some('\n'));
    let pos = buffer.pos();
    assert_eq!(pos.row, 1);
    assert_eq!(pos.column, 0);
    assert_eq!(pos.index, 3);
    assert_eq!(buffer.next(), Some('c'));
    assert_eq!(buffer.next(), Some('d'));
    assert_eq!(buffer.next(), None);
}

#[test]
fn ignore_policy_skips_whitespace() {
    let mut buffer = CharStream::new("  a \t b".to_string()).build();
    assert_eq!(buffer.next(), Some('a'));
    assert_eq!(buffer.next(), Some('b'));
    assert_eq!(buffer.next(), None);
}

#[test]
fn indent_policy_records_depth() {
    let mut buffer = CharStream::new("a\n  b\n\tc".to_string()).build();
    buffer.set_whitespace(WhitespaceType::Indent);
    assert_eq!(buffer.next(), Some('a'));
    assert_eq!(buffer.indent(), 0);
    assert_eq!(buffer.next(), Some('b'));
    assert_eq!(buffer.indent(), 2);
    assert_eq!(buffer.next(), Some('c'));
    assert_eq!(buffer.indent(), 4);
}

#[test]
fn clone_is_independent() {
    let mut buffer = CharStream::new("one two".to_string()).build();
    let other = buffer.clone();
    let _ = Identifier::parse(&mut buffer).unwrap();
    assert_eq!(other.pos().index, 0);
    assert!(buffer.pos().index > 0);
    assert_eq!(other.pos().file_id, buffer.pos().file_id);
}

#[test]
fn goto_moves_forward_only() {
    let mut buffer = CharStream::new("abcdef".to_string()).build();
    let mut probe = buffer.clone();
    probe.next();
    probe.next();
    let target = probe.pos();
    assert!(buffer.goto(target).is_ok());
    assert_eq!(buffer.pos().index, 2);
    let back = CharStream::new("abcdef".to_string()).build().pos();
    // the fresh cursor belongs to another buffer; its random identity
    // differs from ours except with probability 2 to the minus 32
    assert!(buffer.goto(back).is_err());
}

#[test]
fn goto_rejects_backward_and_past_end() {
    let mut buffer = CharStream::new("abc".to_string()).build();
    let start = buffer.pos();
    buffer.next();
    let backward = buffer.goto(start);
    assert!(backward.is_err());
    let mut past = buffer.pos();
    past.index = 17;
    assert!(buffer.goto(past).is_err());
}

#[test]
fn position_end_counts_rows() {
    let end = Position::end("ab\ncd", 7);
    assert_eq!(end.row, 1);
    assert_eq!(end.column, 2);
    assert_eq!(end.index, 5);
    assert_eq!(end.file_id, 7);
}

#[test]
fn position_ordering_is_within_one_buffer() {
    let a = Position { row: 0, column: 1, index: 1, file_id: 3 };
    let b = Position { row: 0, column: 2, index: 2, file_id: 3 };
    let c = Position { row: 0, column: 2, index: 2, file_id: 4 };
    assert_eq!(a.partial_cmp(&b), Some(Ordering::Less));
    assert_eq!(b.partial_cmp(&a), Some(Ordering::Greater));
    assert_eq!(a.partial_cmp(&a), Some(Ordering::Equal));
    assert_eq!(b.partial_cmp(&c), None);
    assert_eq!(a.partial_cmp(&Position::unbound()), None);
}

#[test]
fn span_ordering_is_containment() {
    let p = |i: usize| Position { row: 0, column: i, index: i, file_id: 9 };
    let outer = Span::new(p(0), p(10));
    let inner = Span::new(p(2), p(5));
    let overlap = Span::new(p(4), p(12));
    assert_eq!(outer.partial_cmp(&inner), Some(Ordering::Greater));
    assert_eq!(inner.partial_cmp(&outer), Some(Ordering::Less));
    assert_eq!(inner.partial_cmp(&overlap), None);
    assert_eq!(outer.partial_cmp(&outer), Some(Ordering::Equal));
}
