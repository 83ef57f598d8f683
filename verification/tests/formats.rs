use parseal::data_formats::{NamedValue, Node, ParseNode, ParseValue, Value};
use parseal::json::{JSONNode, Value as JSONValue};
use parseal::parsing::charstream::CharStream;
use parseal::parsing::tokens::{Bang, Brace, Colon, Comma, Paren};
use parseal::parsing::{Group, Identifier, Indent, List, Number, Parse, StringValue};
use parseal::parsing::token::{Number as LexNumber, Token as LexToken, TokenStream};
use parseal::parsing::tokenstream::{
    Position as CoarsePosition, Span as CoarseSpan, Token as CoarseToken, TokenType,
};

fn stream_of(text: &str) -> CharStream {
    CharStream::new(text.to_string()).build()
}

#[test]
fn scalar_alternatives() {
    let mut buffer = stream_of("\"hi\"");
    match ParseValue::parse(&mut buffer).unwrap() {
        ParseValue::String(s) => assert_eq!(s.text(), "hi"),
        other => panic!("expected a string, got {:?}", other),
    }

    let mut buffer = stream_of("42");
    match ParseValue::parse(&mut buffer).unwrap() {
        ParseValue::Number(n) => assert_eq!(n.value(), Some(42)),
        other => panic!("expected a number, got {:?}", other),
    }

    let mut buffer = stream_of("true");
    assert_eq!(
        ParseValue::parse(&mut buffer).unwrap().to_value(),
        Some(Value::Bool(true))
    );

    let mut buffer = stream_of("maybe");
    assert!(ParseValue::parse(&mut buffer).is_err());
}

#[test]
fn json_fragment_object() {
    let mut buffer = stream_of("{\"name\":\"test\",\"age\":10}");
    let object =
        Group::<Brace, List<NamedValue<StringValue, Colon, ParseValue>, Comma>>::parse(
            &mut buffer,
        )
        .unwrap();
    let entries = object.item.values();
    assert_eq!(entries.len(), 2);
    assert_eq!(entries[0].name().text(), "name");
    assert_eq!(entries[0].value().to_value(), Some(Value::String("test".to_string())));
    assert_eq!(entries[1].name().text(), "age");
    assert_eq!(entries[1].value().to_value(), Some(Value::Number(10)));
}

#[test]
fn yaml_indent_block() {
    let text = "users:\n  - name: a\n  - name: b\n";
    let mut buffer = stream_of(text);
    let parsed = NamedValue::<
        Identifier,
        Colon,
        Indent<(parseal::parsing::tokens::Hyphen, NamedValue<Identifier, Colon, Identifier>)>,
    >::parse(&mut buffer)
    .unwrap();
    assert_eq!(parsed.name().name(), "users");
    let block = parsed.value();
    assert_eq!(block.values.len(), 2);
    assert_eq!(block.values[0].1.name().name(), "name");
    assert_eq!(block.values[0].1.value().name(), "a");
    assert_eq!(block.values[1].1.value().name(), "b");
}

#[test]
fn longest_match_wins() {
    // a sum of a bare word and of a macro-like call: the call's span
    // strictly contains the word's, so the later variant is chosen
    let mut buffer = stream_of("println!()");
    let node = ParseNode::<
        Identifier,
        (Identifier, Bang, Group<Paren, List<Number, Comma>>),
    >::parse(&mut buffer)
    .unwrap();
    match node {
        ParseNode::List((word, _, _)) => assert_eq!(word.name(), "println"),
        other => panic!("expected the longer variant, got one of the shorter kind"),
    }
}

#[test]
fn incomparable_spans_keep_declaration_order() {
    // the optional string matches nothing and reports an unbound span,
    // which cannot be ordered against the word's span: the earlier
    // variant wins the tie
    let mut buffer = stream_of("abc");
    let node = ParseNode::<Option<StringValue>, Identifier>::parse(&mut buffer).unwrap();
    match node {
        ParseNode::Object(none) => assert!(none.is_none()),
        _ => panic!("expected the earlier-declared variant to win the tie"),
    }
}

#[test]
fn equal_spans_keep_declaration_order() {
    // both variants read the same word, so their spans are equal and
    // neither strictly contains the other: the earlier one stays
    let mut buffer = stream_of("abc");
    let node = ParseNode::<Identifier, Identifier>::parse(&mut buffer).unwrap();
    match node {
        ParseNode::Object(word) => assert_eq!(word.name(), "abc"),
        _ => panic!("expected the earlier-declared variant to win the tie"),
    }
}

#[test]
fn json_document_parses_recursively() {
    let mut buffer = stream_of("{\"name\":\"test\",\"age\":10}");
    let node = JSONNode::parse(&mut buffer).unwrap();
    match node {
        JSONNode::Object(object) => {
            let entries = &object.map.item;
            assert_eq!(entries.items.len(), 1);
            assert!(entries.last_item.is_some());
            let first = &entries.items[0].0;
            assert_eq!(first.name.text(), "name");
            match &*first.value {
                JSONNode::Value(JSONValue::String(s)) => assert_eq!(s.text(), "test"),
                _ => panic!("expected a string value"),
            }
            let second = entries.last_item.as_ref().unwrap();
            assert_eq!(second.name.text(), "age");
            match &*second.value {
                JSONNode::Value(JSONValue::Number(n)) => assert_eq!(n.value(), Some(10)),
                _ => panic!("expected a number value"),
            }
        },
        _ => panic!("expected an object"),
    }
}

#[test]
fn json_nests_lists_and_objects() {
    let mut buffer = stream_of("{\"users\": [{\"name\": \"a\"}, {\"name\": \"b\"}], \"count\": 2}");
    let node = JSONNode::parse(&mut buffer).unwrap();
    match node {
        JSONNode::Object(object) => {
            let entries = &object.map.item;
            let users = &entries.items[0].0;
            assert_eq!(users.name.text(), "users");
            match &*users.value {
                JSONNode::List(list) => {
                    assert_eq!(list.list.item.items.len(), 1);
                    assert!(list.list.item.last_item.is_some());
                },
                _ => panic!("expected a list"),
            }
        },
        _ => panic!("expected an object"),
    }
}

#[test]
fn json_projects_into_uniform_nodes() {
    let mut buffer = stream_of("{\"name\":\"test\",\"age\":10}");
    let node = JSONNode::parse(&mut buffer).unwrap();
    let projected = node.to_node().unwrap();
    match projected {
        parseal::data_formats::Node::Object(entries) => {
            assert_eq!(entries.len(), 2);
            assert_eq!(entries[0].0, "name");
            assert_eq!(
                entries[0].1.as_value(),
                Some(&Value::String("test".to_string()))
            );
            assert_eq!(entries[1].0, "age");
            assert_eq!(entries[1].1.as_value(), Some(&Value::Number(10)));
        },
        _ => panic!("expected an object"),
    }
}

#[test]
fn json_rejects_missing_colon() {
    let mut buffer = stream_of("{\"name\" 1}");
    assert!(JSONNode::parse(&mut buffer).is_err());
}

#[test]
fn json_object_parse_is_atomic_without_brace() {
    let mut buffer = stream_of("  [1]");
    let before = buffer.pos();
    assert!(parseal::json::JSONObject::parse(&mut buffer).is_err());
    assert_eq!(buffer.pos(), before);
}

#[test]
fn json_rejects_unclosed_object() {
    let mut buffer = stream_of("{\"name\": 1");
    assert!(JSONNode::parse(&mut buffer).is_err());
}

#[test]
fn node_accessors_tell_kinds_apart() {
    let scalar = Node::Value(Value::Number(3));
    assert_eq!(scalar.as_value(), Some(&Value::Number(3)));
    assert!(scalar.entries().is_none());
    let object = Node::Object(vec![("k".to_string(), Node::Value(Value::Bool(false)))]);
    assert_eq!(object.entries().unwrap().len(), 1);
    let list = Node::List(vec![Node::Value(Value::Number(1))]);
    assert_eq!(list.elements().unwrap().len(), 1);
}

#[test]
fn lexed_token_store_passes() {
    let tokens = vec![
        LexToken::Identifier("if".to_string()),
        LexToken::WhiteSpace(" ".to_string()),
        LexToken::Identifier("x".to_string()),
        LexToken::Number(LexNumber::new(4, 10)),
    ];
    let mut store = TokenStream::new(tokens);
    store.remove_whitespace();
    assert_eq!(store.iter().len(), 3);
    store.keywords(&["if", "else"]);
    assert_eq!(store.iter()[0], LexToken::Keyword("if".to_string()));
    assert_eq!(store.iter()[1], LexToken::Identifier("x".to_string()));
    assert_eq!(store.iter()[2], LexToken::Number(LexNumber::new(4, 10)));
}

#[test]
fn operator_pass_merges_greedily() {
    let tokens = vec![
        LexToken::Char('-'),
        LexToken::Char('-'),
        LexToken::Char('-'),
        LexToken::Identifier("users".to_string()),
        LexToken::Char(':'),
    ];
    let mut store = TokenStream::new(tokens);
    store.operators(&["---", "-", ":"]);
    assert_eq!(store.iter()[0], LexToken::Operator("---".to_string()));
    assert_eq!(store.iter()[1], LexToken::Identifier("users".to_string()));
    assert_eq!(store.iter()[2], LexToken::Operator(":".to_string()));
    assert_eq!(store.iter().len(), 3);
}

#[test]
fn operator_pass_leaves_plain_characters() {
    let tokens = vec![LexToken::Char('+'), LexToken::Char('-')];
    let mut store = TokenStream::new(tokens);
    store.operators(&["-"]);
    assert_eq!(store.iter()[0], LexToken::Char('+'));
    assert_eq!(store.iter()[1], LexToken::Operator("-".to_string()));
}

#[test]
fn coarse_positions_step() {
    let mut pos = CoarsePosition::new(0, 0);
    pos.advance();
    pos.advance();
    assert_eq!(pos, CoarsePosition::new(0, 2));
    pos.newline();
    assert_eq!(pos, CoarsePosition::new(1, 0));
    let token = CoarseToken::new(
        "x".to_string(),
        CoarseSpan::new(CoarsePosition::new(0, 0), pos),
        TokenType::Identifier,
    );
    assert_eq!(token.value, "x");
    assert!(matches!(token.tokentype, TokenType::Identifier));
}
