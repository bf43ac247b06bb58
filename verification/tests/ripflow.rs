use riptide::ripflow::filemap::{FileMap, FilePos};
use riptide::ripflow::lexer::{
    is_horizontal_whitespace, is_whitespace, translate_escape, Lexer, TokenKind,
};
use riptide::ripflow::parser::{parse, ParseError, ParseResult, Parser};
use riptide::ripflow::reader::SourcePos;
use riptide::ripflow::rr::{Expr, RList, RString};
use riptide::ripflow::scanner::{Scanner, StringSource};

fn assert_string_produces_tokens(string: &str, tokens: &[TokenKind]) {
    let mut lexer = Lexer::new(FileMap::from(string));
    for kind in tokens {
        let token = lexer.next().unwrap();
        assert!(token.kind == *kind);
    }
}

#[test]
fn filemap_test_read_from_string() {
    let s = "hello world";
    let mut reader = FileMap::buffer(None, s.as_bytes().to_vec());

    for expected in s.bytes() {
        let actual = reader.next_byte().unwrap();
        assert!(actual == Some(expected));
    }

    assert!(reader.next_byte().unwrap().is_none());
}

#[test]
fn test_unquoted_strings() {
    assert_string_produces_tokens(
        "echo foo bar",
        &[
            TokenKind::string("echo"),
            TokenKind::Whitespace,
            TokenKind::string("foo"),
            TokenKind::Whitespace,
            TokenKind::string("bar"),
            TokenKind::EndOfFile,
        ],
    );
}

#[test]
fn test_single_quotes() {
    assert_string_produces_tokens(
        "echo 'foo bar'",
        &[
            TokenKind::string("echo"),
            TokenKind::Whitespace,
            TokenKind::string("foo bar"),
            TokenKind::EndOfFile,
        ],
    );
}

#[test]
fn whitespace_runs_are_one_token() {
    assert_string_produces_tokens(
        "a \t\x0c  b",
        &[TokenKind::string("a"), TokenKind::Whitespace, TokenKind::string("b"), TokenKind::EndOfFile],
    );
}

#[test]
fn every_line_break_is_one_token() {
    assert_string_produces_tokens(
        "a\r\nb\rc\nd",
        &[
            TokenKind::string("a"),
            TokenKind::EndOfLine,
            TokenKind::string("b"),
            TokenKind::EndOfLine,
            TokenKind::string("c"),
            TokenKind::EndOfLine,
            TokenKind::string("d"),
            TokenKind::EndOfFile,
        ],
    );
}

#[test]
fn punctuation_tokens() {
    assert_string_produces_tokens(
        "({|$})",
        &[
            TokenKind::LeftParen,
            TokenKind::LeftBrace,
            TokenKind::Pipe,
            TokenKind::Deref,
            TokenKind::RightBrace,
            TokenKind::RightParen,
            TokenKind::EndOfFile,
        ],
    );
}

#[test]
fn quoted_escapes() {
    assert_string_produces_tokens(
        "'it\\'s \\\\ \\n'",
        &[TokenKind::string("it's \\ \\n"), TokenKind::EndOfFile],
    );
}

#[test]
fn unquoted_string_keeps_quotes_and_parens() {
    assert_string_produces_tokens("a(b'c", &[TokenKind::string("a(b'c"), TokenKind::EndOfFile]);
}

#[test]
fn multibyte_words() {
    assert_string_produces_tokens("héllo wörld", &[
        TokenKind::string("héllo"),
        TokenKind::Whitespace,
        TokenKind::string("wörld"),
        TokenKind::EndOfFile,
    ]);
}

#[test]
fn token_positions_are_the_file_position() {
    let mut lexer = Lexer::new(FileMap::from(String::from("x y")));
    let token = lexer.next().unwrap();
    assert_eq!(token.pos, FilePos { line: 1, column: 1 });
    assert_eq!(FilePos::default(), FilePos { line: 1, column: 1 });
}

#[test]
fn end_of_file_repeats() {
    let mut lexer = Lexer::new(FileMap::from(""));
    assert!(lexer.next().unwrap().kind == TokenKind::EndOfFile);
    assert!(lexer.next().unwrap().kind == TokenKind::EndOfFile);
}

#[test]
fn filemap_names() {
    let named = FileMap::buffer(Some(String::from("script.rf")), vec![]);
    assert_eq!(named.name(), "script.rf");
    let unnamed = FileMap::buffer(None, vec![]);
    assert_eq!(unnamed.name(), "<unknown>");
    assert_eq!(unnamed.pos(), FilePos { line: 1, column: 1 });
}

#[test]
fn byte_classes() {
    for b in [b' ', 0x09u8, 0x0c] {
        assert!(is_horizontal_whitespace(b));
        assert!(is_whitespace(b));
    }
    assert!(!is_horizontal_whitespace(b'\n'));
    assert!(is_whitespace(b'\n'));
    assert!(is_whitespace(b'\r'));
    assert!(!is_whitespace(b'a'));
    assert!(!is_horizontal_whitespace(0x0b));
    assert!(!is_whitespace(0x0b));
}

#[test]
fn escapes_translate() {
    assert_eq!(translate_escape('n'), '\n');
    assert_eq!(translate_escape('r'), '\r');
    assert_eq!(translate_escape('t'), '\t');
    assert_eq!(translate_escape('\\'), '\\');
    assert_eq!(translate_escape('q'), 'q');
}

#[test]
fn scanner_tracks_lines_and_columns() {
    let mut scanner = Scanner::from_string(String::from("ab\nc"));
    assert_eq!((scanner.line(), scanner.column()), (1, 1));
    assert_eq!(scanner.peek(), Some('a'));
    assert_eq!(scanner.next(), Some('a'));
    assert_eq!((scanner.line(), scanner.column()), (1, 2));
    assert_eq!(scanner.next(), Some('b'));
    assert_eq!(scanner.next(), Some('\n'));
    assert_eq!((scanner.line(), scanner.column()), (2, 1));
    assert_eq!(scanner.peek(), Some('c'));
    assert_eq!(scanner.next(), Some('c'));
    assert_eq!(scanner.next(), None);
    assert_eq!(scanner.peek(), None);
    assert_eq!((scanner.line(), scanner.column()), (2, 2));
}

#[test]
fn scanner_over_a_string_source() {
    let mut scanner = Scanner::new(StringSource::from(String::from("é!")));
    assert_eq!(scanner.next(), Some('é'));
    assert_eq!(scanner.next(), Some('!'));
    assert_eq!(scanner.next(), None);
}

#[test]
fn source_positions_advance() {
    let start = SourcePos::default();
    assert_eq!(start, SourcePos { line: 1, column: 1, offset: 0 });
    let after_char = start.advance('x');
    assert_eq!(after_char, SourcePos { line: 1, column: 2, offset: 1 });
    let after_line = after_char.advance('\n');
    assert_eq!(after_line, SourcePos { line: 2, column: 1, offset: 2 });
    let after_wide = after_line.advance('é');
    assert_eq!(after_wide, SourcePos { line: 2, column: 2, offset: 4 });
}

#[test]
fn parsing_a_program_gives_nil() {
    let mut scanner = Scanner::from_string(String::from("echo hi"));
    let result = parse(&mut scanner);
    assert!(matches!(result, Ok(Expr::Nil)));
    assert_eq!(scanner.next(), Some('e'));
    let _parser = Parser::new(Scanner::from_string(String::from("x")));
}

#[test]
fn parse_results_accumulate_errors() {
    let ok = ParseResult::Parsed(Expr::Nil);
    assert!(!ok.is_err());
    let first = ParseError::new(String::from("first"), SourcePos::default());
    let failed = ok.accumulate_error(first);
    assert!(failed.is_err());
    let second = ParseError::new(String::from("second"), SourcePos { line: 2, column: 3, offset: 4 });
    match failed.accumulate_error(second) {
        ParseResult::Fail(errors) => {
            assert_eq!(errors.len(), 2);
            assert_eq!(errors[0].message, "first");
            assert_eq!(errors[1].message, "second");
            assert_eq!(errors[1].pos, SourcePos { line: 2, column: 3, offset: 4 });
        }
        ParseResult::Parsed(_) => panic!("expected a failure"),
    }
}

#[test]
fn truthiness_of_runtime_values() {
    assert!(!Expr::Nil.is_truthy());
    assert!(!Expr::from("").is_truthy());
    assert!(Expr::from("0").is_truthy());
    assert!(Expr::from("false").is_truthy());
    assert!(Expr::from(String::from("x")).is_truthy());
    assert!(!Expr::List(RList::from(vec![])).is_truthy());
    assert!(Expr::List(RList::from(vec![Expr::Nil])).is_truthy());
    assert!(Expr::Block(RList::from(vec![])).is_truthy());
    let call = Expr::Call { function: Box::new(Expr::from("f")), args: RList::from(vec![]) };
    assert!(call.is_truthy());
}

#[test]
fn runtime_value_accessors() {
    let s = Expr::from(RString::from("hi"));
    assert_eq!(s.as_string().map(|r| r.as_str()), Some("hi"));
    assert!(s.as_list().is_none());
    let l = Expr::List(RList::from(vec![Expr::Nil, Expr::from("a")]));
    assert_eq!(l.as_list().map(|r| r.len()), Some(2));
    assert!(l.as_string().is_none());
    let copy = l.clone();
    assert_eq!(copy.as_list().map(|r| r.len()), Some(2));
}

#[test]
fn peeking_consumes_nothing() {
    let mut scanner = Scanner::from_string(String::from("xy"));
    assert_eq!(scanner.next(), Some('x'));
    let (line, column) = (scanner.line(), scanner.column());
    assert_eq!(scanner.peek(), Some('y'));
    assert_eq!(scanner.peek(), Some('y'));
    assert_eq!((scanner.line(), scanner.column()), (line, column));
    assert_eq!(scanner.next(), Some('y'));
    assert_eq!(scanner.peek(), None);
    assert_eq!(scanner.next(), None);
}

#[test]
fn positions_along_a_text() {
    let text = "ab\né\nxyz";
    let mut pos = SourcePos::default();
    for c in text.chars() {
        pos = pos.advance(c);
    }
    assert_eq!(pos, SourcePos { line: 3, column: 4, offset: text.len() as u32 });
    assert_eq!(pos.offset, 9);
}
