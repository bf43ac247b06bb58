//! Parses script source code into an S-expression tree.
//!
//! Both `;` and `#` start a comment that runs to the end of its line or of the
//! input.

use crate::parser::Expression;
pub use crate::parser::ParseErrorKind;
use crate::ripflow::scanner::StringSource;
use crate::sexpr::{
    lemma_expr_bound, lemma_program_bound, list_sexprs, parse_expr, position_after,
    program_items, Parsed, Reader, SExpr,
};
use std::sync::Arc;
use vstd::prelude::*;

verus! {

/// A reference to a location in source code. Useful for error messages.
#[derive(Clone, Debug)]
pub struct SourceLocation {
    pub filename: Arc<String>,
    pub line: u32,
    pub column: u32,
}

impl SourceLocation {
    fn new(filename: String) -> (l: Self)
        ensures
            l.filename@ == filename@,
            l.line == 1,
            l.column == 1,
    {
        Self { filename: Arc::new(filename), line: 1, column: 1 }
    }
}

impl Default for SourceLocation {
    fn default() -> (l: Self)
        ensures
            l.filename@ == "<unknown>"@,
            l.line == 1,
            l.column == 1,
    {
        Self::new(String::from_str("<unknown>"))
    }
}

/// Parse a whole program held in a string.
pub fn parse_string(string: &str) -> (r: Result<Expression, ParseError>)
    requires
        string@.len() < u32::MAX,
    ensures
        match program_items(string@, true) {
            Parsed::Done(items, _) => r matches Ok(e) && e.sexpr() == SExpr::List(items),
            Parsed::Failed(kind, k) => r matches Err(err) && err.kind == kind && err.pos.line
                == position_after(string@.take(k as int)).0 && err.pos.column == position_after(
                string@.take(k as int),
            ).1 && err.pos.filename@ == "<unknown>"@,
            Parsed::Hangs => false,
        },
{
    let scanner = StringSource::from(String::from_str(string));
    let mut parser = Parser::new(scanner);
    parser.parse_program()
}

/// Parses a source input into an expression tree.
///
/// Since the grammar is so simple, this performs the role of both lexing and
/// parsing.
pub struct Parser {
    reader: Reader,
    pos: SourceLocation,
}

/// Describes an error that occurred in parsing.
#[derive(Debug)]
pub struct ParseError {
    pub kind: ParseErrorKind,
    pub pos: SourceLocation,
}

impl Parser {
    /// The characters not read yet.
    pub closed spec fn rest(&self) -> Seq<char> {
        self.reader.rest()
    }

    /// The whole input.
    pub closed spec fn input(&self) -> Seq<char> {
        self.reader.input()
    }

    /// The number of characters read so far.
    pub closed spec fn consumed(&self) -> nat {
        self.reader.consumed()
    }

    /// The name of the file being read.
    pub closed spec fn filename(&self) -> Seq<char> {
        self.pos.filename@
    }

    /// The parser's position agrees with what it has read.
    pub closed spec fn wf(&self) -> bool {
        self.reader.wf()
    }

    /// Create a parser that reads the characters of the given scanner.
    pub fn new(scanner: StringSource) -> (p: Self)
        requires
            scanner.rest().len() < u32::MAX,
        ensures
            p.wf(),
            p.input() == scanner.rest(),
            p.rest() == scanner.rest(),
            p.consumed() == 0,
            p.filename() == "<unknown>"@,
    {
        Self { reader: Reader::new(scanner), pos: SourceLocation::default() }
    }

    /// The error of the given kind at the parser's current position.
    fn error(&self, kind: ParseErrorKind) -> (e: ParseError)
        requires
            self.wf(),
        ensures
            e.kind == kind,
            e.pos.filename@ == self.filename(),
            e.pos.line == position_after(self.input().take(self.consumed() as int)).0,
            e.pos.column == position_after(self.input().take(self.consumed() as int)).1,
    {
        proof {
            self.reader.lemma_position();
        }
        let pos = SourceLocation {
            filename: self.pos.filename.clone(),
            line: self.reader.line(),
            column: self.reader.column(),
        };
        ParseError { kind, pos }
    }

    /// Attempt to parse all input into an expression tree.
    ///
    /// The expressions of the input are returned as a list.
    pub fn parse_program(&mut self) -> (r: Result<Expression, ParseError>)
        requires
            old(self).wf(),
        ensures
            final(self).wf(),
            final(self).input() == old(self).input(),
            match program_items(old(self).rest(), true) {
                Parsed::Done(items, k) => r matches Ok(e) && e.sexpr() == SExpr::List(items)
                    && final(self).consumed() == old(self).consumed() + k,
                Parsed::Failed(kind, k) => r matches Err(err) && err.kind == kind
                    && final(self).consumed() == old(self).consumed() + k && err.pos.filename@
                    == old(self).filename() && err.pos.line == position_after(
                    old(self).input().take(old(self).consumed() + k as int),
                ).0 && err.pos.column == position_after(
                    old(self).input().take(old(self).consumed() + k as int),
                ).1,
                Parsed::Hangs => false,
            },
    {
        proof {
            lemma_program_bound(self.rest());
        }
        match self.reader.parse_items(true) {
            Ok(items) => {
                let e = Expression::List(items);
                proof {
                    assert(e.sexpr()->List_0 =~= list_sexprs(items@));
                }
                Ok(e)
            },
            Err(kind) => Err(self.error(kind)),
        }
    }

    /// Parse one expression at the current position.
    ///
    /// There must be a character left to read: at the end of the input there
    /// is no expression to parse.
    pub fn parse_expr(&mut self) -> (r: Result<Expression, ParseError>)
        requires
            old(self).wf(),
            old(self).rest().len() > 0,
        ensures
            final(self).wf(),
            final(self).input() == old(self).input(),
            match parse_expr(old(self).rest(), true) {
                Parsed::Done(v, k) => r matches Ok(e) && e.sexpr() == v && final(self).consumed()
                    == old(self).consumed() + k,
                Parsed::Failed(kind, k) => r matches Err(err) && err.kind == kind
                    && final(self).consumed() == old(self).consumed() + k && err.pos.filename@
                    == old(self).filename() && err.pos.line == position_after(
                    old(self).input().take(old(self).consumed() + k as int),
                ).0 && err.pos.column == position_after(
                    old(self).input().take(old(self).consumed() + k as int),
                ).1,
                Parsed::Hangs => false,
            },
    {
        proof {
            lemma_expr_bound(self.rest());
        }
        match self.reader.parse_expr(true) {
            Ok(e) => Ok(e),
            Err(kind) => Err(self.error(kind)),
        }
    }
}

} // verus!
