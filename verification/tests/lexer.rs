use parseal::data::{Data, CSV, JSON, TSV, YAML};
use parseal::parsing::bufferstream::BufferStream;
use parseal::parsing::token::{Number as LexNum, Token as LexTok};
use parseal::parsing::tokenstream::{TokenStream, TokenType, WhitespaceType};

#[test]
fn lexer_classifies_tokens() {
    let mut lexer = BufferStream::new("name: 10 \"txt\" x_1".to_string());
    let t = lexer.next_token().unwrap();
    assert_eq!(t.value, "name");
    assert!(matches!(t.tokentype, TokenType::Identifier));
    let t = lexer.next_token().unwrap();
    assert_eq!(t.value, ":");
    assert!(matches!(t.tokentype, TokenType::Token));
    let t = lexer.next_token().unwrap();
    assert_eq!(t.value, "10");
    assert!(matches!(t.tokentype, TokenType::Number));
    let t = lexer.next_token().unwrap();
    assert_eq!(t.value, "\"txt\"");
    assert!(matches!(t.tokentype, TokenType::String));
    let t = lexer.next_token().unwrap();
    assert_eq!(t.value, "x_1");
    assert!(lexer.next_token().is_none());
}

#[test]
fn lexer_keeps_whitespace_on_request() {
    let mut lexer = BufferStream::new("a b".to_string());
    lexer.set_whitespace(WhitespaceType::KeepAll);
    let t = lexer.next_token().unwrap();
    assert_eq!(t.value, "a");
    let t = lexer.next_token().unwrap();
    assert_eq!(t.value, " ");
    assert!(matches!(t.tokentype, TokenType::WhiteSpace));
    let t = lexer.next_token().unwrap();
    assert_eq!(t.value, "b");
}

#[test]
fn lexer_spans_carry_rows_and_columns() {
    let mut lexer = BufferStream::new("ab\ncd".to_string());
    let t = lexer.next_token().unwrap();
    assert_eq!(t.span.start.row, 0);
    assert_eq!(t.span.start.column, 0);
    assert_eq!(t.span.end.column, 2);
    let t = lexer.next_token().unwrap();
    assert_eq!(t.value, "cd");
    assert_eq!(t.span.start.row, 1);
    assert_eq!(t.span.start.column, 0);
}

#[test]
fn lexer_unterminated_string_yields_nothing() {
    let mut lexer = BufferStream::new("\"abc".to_string());
    assert!(lexer.next_token().is_none());
}

#[test]
fn lexer_seeks_forward_only() {
    let mut lexer = BufferStream::new("a b c".to_string());
    let mut scout = BufferStream::new("a b c".to_string());
    scout.next_token();
    scout.next_token();
    let target = TokenStream::pos(&scout);
    assert!(TokenStream::goto(&mut lexer, target).is_ok());
    assert_eq!(TokenStream::pos(&lexer), target);
    let back = parseal::parsing::tokenstream::Position::new(0, 0);
    assert!(TokenStream::goto(&mut lexer, back).is_err());
}

#[test]
fn parse_csv() {
    let tokens = vec![
        LexTok::Identifier("name".to_string()),
        LexTok::Operator(",".to_string()),
        LexTok::Identifier("age".to_string()),
        LexTok::WhiteSpace("\n".to_string()),
        LexTok::Identifier("test".to_string()),
        LexTok::Operator(",".to_string()),
        LexTok::Number(LexNum::new(10, 10)),
        LexTok::WhiteSpace("\n".to_string()),
        LexTok::Identifier("test2".to_string()),
        LexTok::Operator(",".to_string()),
        LexTok::Number(LexNum::new(11, 10)),
    ];
    let csv = CSV::parse_tokens(&tokens).unwrap();
    assert_eq!(csv.values.len(), 3);
    assert_eq!(
        csv.values[0].values,
        vec![
            LexTok::Identifier("name".to_string()),
            LexTok::Identifier("age".to_string())
        ]
    );
    assert_eq!(
        csv.values[1].values,
        vec![
            LexTok::Identifier("test".to_string()),
            LexTok::Number(LexNum::new(10, 10))
        ]
    );
    assert_eq!(
        csv.values[2].values,
        vec![
            LexTok::Identifier("test2".to_string()),
            LexTok::Number(LexNum::new(11, 10))
        ]
    );
}

#[test]
fn parse_tsv() {
    let tokens = vec![
        LexTok::Identifier("name".to_string()),
        LexTok::WhiteSpace("\t".to_string()),
        LexTok::Identifier("age".to_string()),
        LexTok::WhiteSpace("\n".to_string()),
        LexTok::Identifier("test".to_string()),
        LexTok::WhiteSpace("\t".to_string()),
        LexTok::Number(LexNum::new(10, 10)),
    ];
    let tsv = TSV::parse_tokens(&tokens).unwrap();
    assert_eq!(tsv.values.len(), 2);
    assert_eq!(tsv.values[1].values.len(), 2);
}

#[test]
fn grid_rejects_missing_separator() {
    let tokens = vec![
        LexTok::Identifier("a".to_string()),
        LexTok::Identifier("b".to_string()),
    ];
    assert!(CSV::parse_tokens(&tokens).is_err());
}

#[test]
fn tree_json_over_tokens() {
    let tokens = vec![
        LexTok::Char('['),
        LexTok::Char('{'),
        LexTok::String("\"name\"".to_string()),
        LexTok::Char(':'),
        LexTok::String("\"test\"".to_string()),
        LexTok::Char(','),
        LexTok::String("\"age\"".to_string()),
        LexTok::Char(':'),
        LexTok::Number(LexNum::new(10, 10)),
        LexTok::Char('}'),
        LexTok::Char(']'),
    ];
    let parsed = JSON::parse_tokens(&tokens).unwrap();
    match parsed.value {
        Data::List(items) => {
            assert_eq!(items.len(), 1);
            match &items[0] {
                Data::Object(entries) => {
                    assert_eq!(entries.len(), 2);
                    assert_eq!(entries[0].0, "\"name\"");
                    assert!(matches!(&entries[0].1, Data::Immediate(LexTok::String(v)) if v == "\"test\""));
                    assert_eq!(entries[1].0, "\"age\"");
                    assert!(matches!(&entries[1].1, Data::Immediate(LexTok::Number(n)) if *n == LexNum::new(10, 10)));
                },
                _ => panic!("expected an object"),
            }
        },
        _ => panic!("expected a list"),
    }
}

#[test]
fn tree_yaml_over_tokens() {
    let tokens = vec![
        LexTok::Operator("---".to_string()),
        LexTok::Identifier("users".to_string()),
        LexTok::Operator(":".to_string()),
        LexTok::Operator("-".to_string()),
        LexTok::Identifier("name".to_string()),
        LexTok::Operator(":".to_string()),
        LexTok::String("\"test\"".to_string()),
        LexTok::Operator("-".to_string()),
        LexTok::Identifier("name".to_string()),
        LexTok::Operator(":".to_string()),
        LexTok::String("\"other\"".to_string()),
    ];
    let parsed = YAML::parse_tokens(&tokens).unwrap();
    match parsed.value {
        Data::Object(entries) => {
            assert_eq!(entries.len(), 1);
            assert_eq!(entries[0].0, "users");
            match &entries[0].1 {
                Data::List(items) => assert_eq!(items.len(), 2),
                _ => panic!("expected a list of users"),
            }
        },
        _ => panic!("expected an object"),
    }
}

#[test]
fn tree_yaml_needs_its_marker() {
    let tokens = vec![LexTok::Identifier("users".to_string())];
    assert!(YAML::parse_tokens(&tokens).is_err());
}
