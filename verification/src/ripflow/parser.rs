//! The language parser.
//!
//! A program is a block, and a block is a series of zero or more
//! expressions; the parser reads a block from a scanner into the runtime
//! representation.

use crate::ripflow::reader::SourcePos;
use crate::ripflow::rr::Expr;
use crate::ripflow::scanner::Scanner;
use vstd::prelude::*;

verus! {

/// A parser reading from a scanner and collecting the errors it meets.
pub struct Parser {
    scanner: Scanner,
    errors: Vec<ParseError>,
}

impl Parser {
    /// The scanner that the parser reads from.
    pub closed spec fn scanner_spec(&self) -> Scanner {
        self.scanner
    }

    /// The errors collected so far.
    pub closed spec fn errors_spec(&self) -> Seq<ParseError> {
        self.errors@
    }

    /// Create a new parser around the given scanner.
    pub fn new(scanner: Scanner) -> (p: Parser)
        ensures
            p.scanner_spec() == scanner,
            p.errors_spec() == Seq::<ParseError>::empty(),
    {
        Parser { scanner, errors: Vec::new() }
    }
}

/// The result of a parse operation.
#[derive(Debug)]
pub enum ParseResult {
    /// Parsing was successful and produced an expression.
    Parsed(Expr),
    /// Parsing failed with a list of errors.
    Fail(Vec<ParseError>),
}

impl ParseResult {
    /// Whether parsing failed.
    pub fn is_err(&self) -> (r: bool)
        ensures
            r == (*self is Fail),
    {
        match self {
            ParseResult::Parsed(_) => false,
            _ => true,
        }
    }

    /// Add an error to the result: a success becomes a failure with that one
    /// error, and a failure gets the error after the ones it has.
    pub fn accumulate_error(self, error: ParseError) -> (r: Self)
        ensures
            r matches ParseResult::Fail(errors) && errors@ == (match self {
                ParseResult::Parsed(_) => seq![error],
                ParseResult::Fail(old_errors) => old_errors@.push(error),
            }),
    {
        match self {
            ParseResult::Parsed(_) => ParseResult::Fail(vec![error]),
            ParseResult::Fail(errors) => {
                let mut errors = errors;
                errors.push(error);
                ParseResult::Fail(errors)
            },
        }
    }
}

/// Describes an error that occurred in parsing.
#[derive(Debug)]
pub struct ParseError {
    /// The error message. This is a string instead of an enum because the
    /// messages can be highly specific.
    pub message: String,
    /// The position in the source the error occurred in.
    pub pos: SourcePos,
}

impl ParseError {
    /// An error with the given message at the given position.
    pub fn new(message: String, pos: SourcePos) -> (e: ParseError)
        ensures
            e.message@ == message@,
            e.pos == pos,
    {
        ParseError { message, pos }
    }
}

/// Parse the characters from the given scanner into an expression.
///
/// A program is just a block, and a block is a series of zero or more
/// expressions; the block reader reads none of them, so the result is nil
/// and the scanner is left as it was.
pub fn parse(scanner: &mut Scanner) -> (r: Result<Expr, ParseError>)
    ensures
        r matches Ok(Expr::Nil),
        *final(scanner) == *old(scanner),
{
    parse_block(scanner)
}

/// Read a block: a series of zero or more expressions.
fn parse_block(scanner: &mut Scanner) -> (r: Result<Expr, ParseError>)
    ensures
        r matches Ok(Expr::Nil),
        *final(scanner) == *old(scanner),
{
    Ok(Expr::Nil)
}

} // verus!
