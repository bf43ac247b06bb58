use riptide::expr::{Expression as Value, Function};
use riptide::parser::{Expression, ParseErrorKind, Parser};
use riptide::riptide::parser::{parse_string, Parser as ScriptParser, SourceLocation};
use riptide::ripflow::scanner::StringSource;

fn atom(e: &Expression) -> &str {
    e.atom().unwrap()
}

fn items(e: &Expression) -> &Vec<Expression> {
    match e {
        Expression::List(items) => items,
        _ => panic!("expected a list"),
    }
}

#[test]
fn program_is_a_list_of_expressions() {
    let program = parse_string("echo (a \"b c\") 'd'").unwrap();
    let top = items(&program);
    assert_eq!(top.len(), 3);
    assert_eq!(atom(&top[0]), "echo");
    let inner = items(&top[1]);
    assert_eq!(atom(&inner[0]), "a");
    assert_eq!(atom(&inner[1]), "b c");
    assert_eq!(atom(&top[2]), "d");
}

#[test]
fn comments_and_escapes() {
    let program = parse_string("a ; comment\n# another\n\"x\\ty\"").unwrap();
    let top = items(&program);
    assert_eq!(top.len(), 2);
    assert_eq!(atom(&top[0]), "a");
    assert_eq!(atom(&top[1]), "x\ty");
}

#[test]
fn unclosed_list_is_reported() {
    let err = parse_string("(a b").unwrap_err();
    assert!(err.kind == ParseErrorKind::UnclosedList);
    assert_eq!(err.pos.line, 1);
    assert_eq!(&*err.pos.filename, "<unknown>");
}

#[test]
fn extra_parenthesis_is_reported() {
    let err = parse_string("a)").unwrap_err();
    assert!(err.kind == ParseErrorKind::TrailingParenthesis);
}

#[test]
fn unclosed_string_is_reported_on_its_line() {
    let err = parse_string("a\n\"bc").unwrap_err();
    assert!(err.kind == ParseErrorKind::UnclosedString);
    assert_eq!(err.pos.line, 2);
}

#[test]
fn error_descriptions() {
    assert_eq!(ParseErrorKind::TrailingParenthesis.description(), "extra trailing parenthesis");
    assert_eq!(ParseErrorKind::UnclosedList.description(), "unclosed list");
    assert_eq!(ParseErrorKind::UnclosedString.description(), "unclosed string");
}

#[test]
fn source_location_defaults_to_unknown() {
    let loc = SourceLocation::default();
    assert_eq!(&*loc.filename, "<unknown>");
    assert_eq!((loc.line, loc.column), (1, 1));
}

#[test]
fn script_parser_reads_one_expression_at_a_time() {
    let mut parser = ScriptParser::new(StringSource::from(String::from("(f x) y")));
    let first = parser.parse_expr().unwrap();
    assert_eq!(items(&first).len(), 2);
    // A single expression is read from where the parser stands: the space
    // is the first character of the symbol.
    let second = parser.parse_expr().unwrap();
    assert_eq!(atom(&second), " y");
}

#[test]
fn plain_parser_parses_a_program() {
    let parser = Parser::new(StringSource::from(String::from("a (b)")));
    let program = parser.parse().unwrap();
    let top = items(&program);
    assert_eq!(top.len(), 2);
    assert_eq!(atom(&top[0]), "a");
}

#[test]
fn plain_parser_reports_unclosed_lists() {
    let parser = Parser::new(StringSource::from(String::from("(a")));
    let err = parser.parse().unwrap_err();
    assert!(err.kind == ParseErrorKind::UnclosedList);
}

#[test]
fn values_show_as_text() {
    let v = Value::List(vec![
        Value::atom(String::from("a")),
        Value::List(vec![Value::atom(String::from("b")), Value::atom(String::from("c"))]),
        Value::Nil,
        Value::List(vec![]),
    ]);
    assert_eq!(v.to_text(), "(a (b c) () ())");
    let lambda = Value::create_lambda(vec![String::from("x")], Value::Nil);
    assert_eq!(lambda.to_text(), "#lambda#");
}

#[test]
fn value_truthiness() {
    assert!(!Value::Nil.is_truthy());
    assert!(!Value::List(vec![]).is_truthy());
    assert!(Value::List(vec![Value::Nil]).is_truthy());
    assert!(!Value::atom(String::from("0")).is_truthy());
    assert!(!Value::atom(String::new()).is_truthy());
    assert!(!Value::atom(String::from("false")).is_truthy());
    assert!(!Value::atom(String::from("FaLsE")).is_truthy());
    assert!(Value::atom(String::from("true")).is_truthy());
    assert!(Value::atom(String::from("00")).is_truthy());
    assert!(Value::create_lambda(vec![], Value::Nil).is_truthy());
}

#[test]
fn value_accessors() {
    assert!(Value::Nil.is_nil());
    assert!(Value::List(vec![]).is_nil());
    assert!(!Value::atom(String::from("x")).is_nil());
    assert_eq!(Value::atom(String::from("x")).as_value(), Some("x"));
    assert_eq!(Value::Nil.as_value(), None);
    assert!(Value::List(vec![]).as_items().is_none());
    assert_eq!(Value::List(vec![Value::Nil]).as_items().map(|s| s.len()), Some(1));
    let lambda = Value::create_lambda(vec![String::from("p")], Value::atom(String::from("b")));
    let f: std::sync::Arc<Function> = lambda.as_lambda().unwrap();
    assert_eq!(f.params, vec![String::from("p")]);
    assert!(Value::Nil.as_lambda().is_none());
    assert_eq!(Value::List(vec![Value::Nil, Value::Nil]).into_items().map(|v| v.len()).ok(), Some(2));
    assert!(Value::List(vec![]).into_items().is_err());
    assert!(Value::atom(String::from("a")).into_items().is_err());
}

#[test]
fn value_equality() {
    assert!(Value::Nil == Value::List(vec![]));
    assert!(Value::atom(String::from("a")) == Value::atom(String::from("a")));
    assert!(Value::atom(String::from("a")) != Value::atom(String::from("b")));
    assert!(Value::atom(String::from("a")) != Value::Nil);
    assert!(Value::List(vec![Value::Nil]) == Value::List(vec![Value::atom(String::from("z"))]));
}
