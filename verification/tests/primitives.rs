use parseal::parsing::charstream::{CharStream, Position, WhitespaceType};
use parseal::parsing::{check_value, Identifier, Number, Parse, StringValue};

fn stream_of(text: &str) -> parseal::parsing::charstream::CharStream {
    CharStream::new(text.to_string()).build()
}

#[test]
fn identifier_reads_word() {
    let mut buffer = stream_of("hello world");
    let first = Identifier::parse(&mut buffer).unwrap();
    assert_eq!(first.name(), "hello");
    assert_eq!(first.span().start.index, 0);
    assert_eq!(first.span().end.index, 5);
    let second = Identifier::parse(&mut buffer).unwrap();
    assert_eq!(second.name(), "world");
    assert_eq!(second.span().start.index, 6);
    assert_eq!(second.span().end.index, 11);
}

#[test]
fn identifier_rejects_digit_start() {
    let mut buffer = stream_of("1abc");
    assert!(Identifier::parse(&mut buffer).is_err());
}

#[test]
fn identifier_takes_digits_after_first() {
    let mut buffer = stream_of("a1b2 ");
    let word = Identifier::parse(&mut buffer).unwrap();
    assert_eq!(word.name(), "a1b2");
}

#[test]
fn number_reads_digits() {
    let mut buffer = stream_of("69420");
    let value = Number::parse(&mut buffer).unwrap();
    assert_eq!(value.text(), "69420");
    assert_eq!(value.value(), Some(69420));
}

#[test]
fn number_rejects_word() {
    let mut buffer = stream_of("abc");
    assert!(Number::parse(&mut buffer).is_err());
}

#[test]
fn number_too_large_has_no_machine_value() {
    let mut buffer = stream_of("99999999999999999999999999999999999999");
    let value = Number::parse(&mut buffer).unwrap();
    assert_eq!(value.value(), None);
}

#[test]
fn string_reads_quoted_text() {
    let mut buffer = stream_of("\"Hello, world!\"");
    let value = StringValue::parse(&mut buffer).unwrap();
    assert_eq!(value.text(), "Hello, world!");
    assert_eq!(value.span().start.index, 0);
    assert_eq!(value.span().end.index, 15);
}

#[test]
fn string_unescapes_backslash_and_quote() {
    let mut buffer = stream_of("\"a\\\"b\\\\c\"");
    let value = StringValue::parse(&mut buffer).unwrap();
    assert_eq!(value.text(), "a\"b\\c");
}

#[test]
fn string_without_closing_quote_fails() {
    let mut buffer = stream_of("\"abc");
    assert!(StringValue::parse(&mut buffer).is_err());
}

#[test]
fn string_expects_opening_quote() {
    let mut buffer = stream_of("abc");
    let error = StringValue::parse(&mut buffer).unwrap_err();
    assert_eq!(error.pos().index, 0);
}

#[test]
fn value_constraint_accepts_listed_keywords() {
    let mut buffer = stream_of("if");
    let word = Identifier::parse(&mut buffer).unwrap();
    let checked = check_value(word, &["if", "else"], Position::unbound());
    assert!(checked.is_ok());
    assert_eq!(checked.unwrap().name(), "if");

    let mut buffer = stream_of("else");
    let word = Identifier::parse(&mut buffer).unwrap();
    assert!(check_value(word, &["if", "else"], Position::unbound()).is_ok());
}

#[test]
fn value_constraint_rejects_other_identifiers() {
    let mut buffer = stream_of("loop");
    let word = Identifier::parse(&mut buffer).unwrap();
    let checked = check_value(word, &["if", "else"], Position::unbound());
    assert!(checked.is_err());
    assert_eq!(
        checked.unwrap_err().message(),
        "Value was not one of the expected values."
    );
}

#[test]
fn keep_all_policy_sees_whitespace() {
    let mut buffer = stream_of(" a");
    buffer.set_whitespace(WhitespaceType::KeepAll);
    assert!(Identifier::parse(&mut buffer).is_err());
}
