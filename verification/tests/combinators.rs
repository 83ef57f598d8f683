use parseal::parsing::charstream::{CharStream, WhitespaceType};
use parseal::parsing::tokens::{
    Bang, Bracket, Chevron, Colon, Comma, DoubleColon, Equal, EqualEqual, Hyphen, Paren, Pipe,
    Token,
};
use parseal::parsing::{
    parse_with_policy, Group, Identifier, Indent, List, Number, Parse, StringValue,
};

fn stream_of(text: &str) -> CharStream {
    CharStream::new(text.to_string()).build()
}

#[test]
fn integer_list_values_and_spans() {
    let mut buffer = stream_of("0, 1, 5");
    let list = List::<Number, Comma>::parse(&mut buffer).unwrap();
    assert_eq!(list.items.len(), 2);
    let values = list.values();
    assert_eq!(values.len(), 3);
    assert_eq!(values[0].value(), Some(0));
    assert_eq!(values[1].value(), Some(1));
    assert_eq!(values[2].value(), Some(5));
    assert_eq!(values[0].span().start.index, 0);
    assert_eq!(values[0].span().end.index, 1);
    assert_eq!(values[1].span().start.index, 3);
    assert_eq!(values[1].span().end.index, 4);
    assert_eq!(values[2].span().start.index, 6);
    assert_eq!(values[2].span().end.index, 7);
}

#[test]
fn empty_list_leaves_cursor_alone() {
    let mut buffer = stream_of("1012");
    let before = buffer.pos();
    let list = List::<StringValue, Pipe>::parse(&mut buffer).unwrap();
    assert_eq!(list.items.len(), 0);
    assert!(list.last_item.is_none());
    assert_eq!(buffer.pos(), before);
}

#[test]
fn bracketed_string_group() {
    let mut buffer = stream_of("(\"Hello, World\")");
    let group = Group::<Paren, StringValue>::parse(&mut buffer).unwrap();
    assert_eq!(group.item.text(), "Hello, World");
    let span = group.span();
    assert_eq!(span.start.index, 0);
    assert_eq!(span.end.index, 16);
}

#[test]
fn bracketed_number_list_group() {
    let mut buffer = stream_of("[0, 1, 2]");
    let group = Group::<Bracket, List<Number, Comma>>::parse(&mut buffer).unwrap();
    assert_eq!(group.item.values().len(), 3);
}

#[test]
fn group_fails_atomically_on_missing_start() {
    let mut buffer = stream_of("17)");
    let before = buffer.pos();
    assert!(Group::<Paren, Number>::parse(&mut buffer).is_err());
    assert_eq!(buffer.pos(), before);
}

#[test]
fn group_reports_missing_end() {
    let mut buffer = stream_of("(17");
    assert!(Group::<Paren, Number>::parse(&mut buffer).is_err());
}

#[test]
fn option_commits_only_on_success() {
    let mut buffer = stream_of("ab cd");
    let some = Option::<Identifier>::parse(&mut buffer).unwrap();
    assert_eq!(some.unwrap().name(), "ab");
    let mut rest = stream_of("123");
    let before = rest.pos();
    let none = Option::<Identifier>::parse(&mut rest).unwrap();
    assert!(none.is_none());
    assert_eq!(rest.pos(), before);
}

#[test]
fn boxed_and_tuple_elements_parse_in_order() {
    let mut buffer = stream_of("name 42");
    let (word, number) = <(Box<Identifier>, Number)>::parse(&mut buffer).unwrap();
    assert_eq!(word.name(), "name");
    assert_eq!(number.value(), Some(42));

    let mut buffer = stream_of("a ! 7");
    let triple = <(Identifier, Bang, Number)>::parse(&mut buffer).unwrap();
    assert_eq!(triple.0.name(), "a");
    assert_eq!(triple.2.value(), Some(7));
}

#[test]
fn vector_needs_one_element() {
    let mut buffer = stream_of("one two three");
    let words = Vec::<Identifier>::parse(&mut buffer).unwrap();
    assert_eq!(words.len(), 3);
    assert_eq!(words[2].name(), "three");

    let mut empty = stream_of("123");
    assert!(Vec::<Identifier>::parse(&mut empty).is_err());
}

#[test]
fn indent_block_collects_same_depth_items() {
    let mut buffer = stream_of("- a\n- b\nrest");
    let block = Indent::<(Hyphen, Identifier)>::parse(&mut buffer).unwrap();
    assert_eq!(block.values.len(), 2);
    assert_eq!(block.depth, 0);
    assert_eq!(block.values[0].1.name(), "a");
    assert_eq!(block.values[1].1.name(), "b");
}

#[test]
fn indent_block_requires_one_item() {
    let mut buffer = stream_of("123");
    let before = buffer.pos();
    assert!(Indent::<(Hyphen, Identifier)>::parse(&mut buffer).is_err());
    assert_eq!(buffer.pos(), before);
}

#[test]
fn indent_round_trip_keeps_content() {
    let text = "- a\n- b";
    let mut buffer = stream_of(text);
    let block = Indent::<(Hyphen, Identifier)>::parse(&mut buffer).unwrap();
    let span = block.span();
    let slice: String = text
        .chars()
        .skip(span.start.index)
        .take(span.end.index - span.start.index)
        .collect();
    let mut again = stream_of(&slice);
    again.set_whitespace(WhitespaceType::Indent);
    let reparsed = Indent::<(Hyphen, Identifier)>::parse(&mut again).unwrap();
    assert_eq!(reparsed.depth, block.depth);
    assert_eq!(reparsed.values.len(), block.values.len());
    for (a, b) in reparsed.values.iter().zip(block.values.iter()) {
        assert_eq!(a.1.name(), b.1.name());
    }
}

#[test]
fn whitespace_override_is_scoped_and_atomic() {
    let mut buffer = stream_of(" a b");
    let word: Identifier =
        parse_with_policy(&mut buffer, WhitespaceType::Ignore).unwrap();
    assert_eq!(word.name(), "a");
    // the cursor keeps its own policy: the next word still parses
    let next = Identifier::parse(&mut buffer).unwrap();
    assert_eq!(next.name(), "b");

    let mut strict = stream_of(" x");
    let before = strict.pos();
    let failed: Result<Identifier, _> =
        parse_with_policy(&mut strict, WhitespaceType::KeepAll);
    assert!(failed.is_err());
    assert_eq!(strict.pos(), before);
}

#[test]
fn tokens_match_their_literals() {
    let mut buffer = stream_of("::");
    assert!(DoubleColon::parse(&mut buffer).is_ok());

    let mut buffer = stream_of(":");
    assert!(Colon::parse(&mut buffer).is_ok());

    let mut buffer = stream_of("==");
    assert!(EqualEqual::parse(&mut buffer).is_ok());

    let mut buffer = stream_of("= =");
    assert!(EqualEqual::parse(&mut buffer).is_err());
    assert!(Equal::parse(&mut buffer).is_ok());

    assert_eq!(EqualEqual::literal(), "==");
    assert_eq!(Comma::literal(), ",");
}

#[test]
fn chevron_delimits_an_item() {
    let mut buffer = stream_of("<name>");
    let group = Group::<Chevron, Identifier>::parse(&mut buffer).unwrap();
    assert_eq!(group.item.name(), "name");
    assert_eq!(group.span().start.index, 0);
    assert_eq!(group.span().end.index, 6);
}

#[test]
fn token_failure_is_atomic() {
    let mut buffer = stream_of("  abc");
    let before = buffer.pos();
    assert!(Comma::parse(&mut buffer).is_err());
    assert_eq!(buffer.pos(), before);
}
