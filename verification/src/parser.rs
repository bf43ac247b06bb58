//! Parses a source input into an expression tree.
//!
//! Since the grammar is so simple, the parser performs the role of both lexing
//! and parsing. A `;` starts a comment that runs to the end of its line.

use crate::ripflow::scanner::StringSource;
use crate::sexpr::{list_sexprs, parse_expr, position_after, program_items, Parsed, Reader, SExpr};
use vstd::prelude::*;

verus! {

/// Abstract representation of an expression. An expression can either be an
/// atom (string), or a list of expressions surrounded by parenthesis.
#[derive(Debug)]
pub enum Expression {
    /// A list of expressions.
    List(Vec<Expression>),
    /// A value.
    Atom(String),
    /// An empty list. This is equivalent to List with no expressions.
    Nil,
}

impl Expression {
    /// The expression tree as a mathematical value.
    pub open spec fn sexpr(self) -> SExpr
        decreases self,
    {
        match self {
            Expression::List(items) => SExpr::List(
                Seq::new(
                    items.len() as nat,
                    |i: int|
                        if 0 <= i < items.len() {
                            items@[i].sexpr()
                        } else {
                            SExpr::Nil
                        },
                ),
            ),
            Expression::Atom(s) => SExpr::Atom(s@),
            Expression::Nil => SExpr::Nil,
        }
    }

    /// If this is an atom expression, get its value.
    pub fn atom(&self) -> (r: Option<&str>)
        ensures
            self is Atom <==> r is Some,
            r matches Some(s) ==> self.sexpr() == SExpr::Atom(s@),
    {
        if let Expression::Atom(s) = self {
            Some(s.as_str())
        } else {
            None
        }
    }
}

impl Clone for Expression {
    fn clone(&self) -> (c: Self)
        ensures
            c.sexpr() == self.sexpr(),
    {
        clone_expression(self)
    }
}

/// A copy of an expression tree.
fn clone_expression(e: &Expression) -> (c: Expression)
    ensures
        c.sexpr() == e.sexpr(),
    decreases e,
{
    match e {
        Expression::List(items) => {
            let copy = clone_items(items);
            let c = Expression::List(copy);
            proof {
                assert(c.sexpr()->List_0 =~= list_sexprs(copy@));
                assert(e.sexpr()->List_0 =~= list_sexprs(items@));
            }
            c
        },
        Expression::Atom(s) => Expression::Atom(s.clone()),
        Expression::Nil => Expression::Nil,
    }
}

/// A copy of a list of expression trees, item by item.
fn clone_items(items: &Vec<Expression>) -> (c: Vec<Expression>)
    ensures
        list_sexprs(c@) == list_sexprs(items@),
    decreases items,
{
    let mut copy: Vec<Expression> = Vec::new();
    let mut i: usize = 0;
    while i < items.len()
        invariant
            i <= items.len(),
            copy@.len() == i,
            forall|j: int| 0 <= j < i ==> (#[trigger] copy@[j]).sexpr() == items@[j].sexpr(),
        decreases items.len() - i,
    {
        proof {
            vstd::std_specs::vec::axiom_vec_index_decreases(*items, i as int);
        }
        copy.push(clone_expression(&items[i]));
        i += 1;
    }
    proof {
        assert(list_sexprs(copy@) =~= list_sexprs(items@));
    }
    copy
}

/// A position in the source: the line and column, both starting at 1.
#[derive(Clone, Copy, Debug)]
pub struct Pos {
    pub line: u32,
    pub column: u32,
}

impl Pos {
    fn new() -> (p: Self)
        ensures
            p.line == 1,
            p.column == 1,
    {
        Self { line: 1, column: 1 }
    }
}

/// Describes an error that occurred in parsing.
#[derive(Debug)]
pub struct ParseError {
    pub kind: ParseErrorKind,
    pub pos: Pos,
}

/// The kinds of syntax error.
#[derive(Copy, Clone, Debug, PartialEq, Eq, Structural)]
pub enum ParseErrorKind {
    TrailingParenthesis,
    UnclosedList,
    UnclosedString,
}

impl ParseErrorKind {
    /// A short human-readable description of the error.
    pub fn description(&self) -> (s: &str)
        ensures
            *self is TrailingParenthesis ==> s@ == "extra trailing parenthesis"@,
            *self is UnclosedList ==> s@ == "unclosed list"@,
            *self is UnclosedString ==> s@ == "unclosed string"@,
    {
        match self {
            ParseErrorKind::TrailingParenthesis => "extra trailing parenthesis",
            ParseErrorKind::UnclosedList => "unclosed list",
            ParseErrorKind::UnclosedString => "unclosed string",
        }
    }
}

/// Parses a source input into an expression tree.
pub struct Parser {
    reader: Reader,
}

impl Parser {
    /// The characters not read yet.
    pub closed spec fn rest(&self) -> Seq<char> {
        self.reader.rest()
    }

    /// The whole input.
    pub closed spec fn input(&self) -> Seq<char> {
        self.reader.input()
    }

    /// The number of characters read so far.
    pub closed spec fn consumed(&self) -> nat {
        self.reader.consumed()
    }

    /// The parser's position agrees with what it has read.
    pub closed spec fn wf(&self) -> bool {
        self.reader.wf()
    }

    /// Create a parser that reads the characters of the given scanner.
    pub fn new(scanner: StringSource) -> (p: Self)
        requires
            scanner.rest().len() < u32::MAX,
        ensures
            p.wf(),
            p.input() == scanner.rest(),
            p.rest() == scanner.rest(),
            p.consumed() == 0,
    {
        Self { reader: Reader::new(scanner) }
    }

    /// The error of the given kind at the parser's current position.
    fn error(&self, kind: ParseErrorKind) -> (e: ParseError)
        requires
            self.wf(),
        ensures
            e.kind == kind,
            e.pos.line == position_after(self.input().take(self.consumed() as int)).0,
            e.pos.column == position_after(self.input().take(self.consumed() as int)).1,
    {
        proof {
            self.reader.lemma_position();
        }
        let mut pos = Pos::new();
        pos.line = self.reader.line();
        pos.column = self.reader.column();
        ParseError { kind, pos }
    }

    /// Attempt to parse all input into an expression tree.
    ///
    /// The expressions of the input are returned as a list. A comment that is
    /// not ended by a newline makes this parser read forever; such inputs are
    /// excluded.
    pub fn parse(self) -> (r: Result<Expression, ParseError>)
        requires
            self.wf(),
            !(program_items(self.rest(), false) is Hangs),
        ensures
            match program_items(self.rest(), false) {
                Parsed::Done(items, _) => r matches Ok(e) && e.sexpr() == SExpr::List(items),
                Parsed::Failed(kind, k) => r matches Err(err) && err.kind == kind
                    && err.pos.line == position_after(
                    self.input().take(self.consumed() + k as int),
                ).0 && err.pos.column == position_after(
                    self.input().take(self.consumed() + k as int),
                ).1,
                Parsed::Hangs => false,
            },
    {
        let mut parser = self;
        match parser.reader.parse_items(false) {
            Ok(items) => {
                let e = Expression::List(items);
                proof {
                    assert(e.sexpr()->List_0 =~= list_sexprs(items@));
                }
                Ok(e)
            },
            Err(kind) => Err(parser.error(kind)),
        }
    }

    /// Parse one expression at the current position.
    ///
    /// There must be a character left to read: at the end of the input there
    /// is no expression to parse.
    pub fn parse_expr(&mut self) -> (r: Result<Expression, ParseError>)
        requires
            old(self).wf(),
            old(self).rest().len() > 0,
            !(parse_expr(old(self).rest(), false) is Hangs),
        ensures
            final(self).wf(),
            final(self).input() == old(self).input(),
            match parse_expr(old(self).rest(), false) {
                Parsed::Done(v, k) => r matches Ok(e) && e.sexpr() == v && final(self).consumed()
                    == old(self).consumed() + k,
                Parsed::Failed(kind, k) => r matches Err(err) && err.kind == kind
                    && final(self).consumed() == old(self).consumed() + k && err.pos.line
                    == position_after(final(self).input().take(final(self).consumed() as int)).0
                    && err.pos.column == position_after(
                    final(self).input().take(final(self).consumed() as int),
                ).1,
                Parsed::Hangs => false,
            },
    {
        match self.reader.parse_expr(false) {
            Ok(e) => Ok(e),
            Err(kind) => Err(self.error(kind)),
        }
    }
}

} // verus!
