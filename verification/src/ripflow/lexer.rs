//! Splits the bytes of a script into tokens.

use crate::ripflow::filemap::{FileMap, FilePos};
use crate::strings::{string_from_utf8, utf8_of};
use std::io;
use vstd::prelude::*;
use vstd::utf8::valid_utf8;

verus! {

/// The kinds of token.
#[derive(Clone, Debug, Eq, PartialEq)]
pub enum TokenKind {
    LeftParen,
    RightParen,
    LeftBrace,
    RightBrace,
    Pipe,
    Deref,
    Whitespace,
    String(String),
    EndOfLine,
    EndOfFile,
}

/// A token kind as a mathematical value; a string is given by its bytes.
pub enum Tok {
    LeftParen,
    RightParen,
    LeftBrace,
    RightBrace,
    Pipe,
    Deref,
    Whitespace,
    Str(Seq<u8>),
    EndOfLine,
    EndOfFile,
}

impl TokenKind {
    /// The token kind as a mathematical value.
    pub open spec fn tok(self) -> Tok {
        match self {
            TokenKind::LeftParen => Tok::LeftParen,
            TokenKind::RightParen => Tok::RightParen,
            TokenKind::LeftBrace => Tok::LeftBrace,
            TokenKind::RightBrace => Tok::RightBrace,
            TokenKind::Pipe => Tok::Pipe,
            TokenKind::Deref => Tok::Deref,
            TokenKind::Whitespace => Tok::Whitespace,
            TokenKind::String(s) => Tok::Str(utf8_of(s@)),
            TokenKind::EndOfLine => Tok::EndOfLine,
            TokenKind::EndOfFile => Tok::EndOfFile,
        }
    }

    /// A string token with the given text.
    pub fn string(string: &str) -> (k: TokenKind)
        ensures
            k.tok() == Tok::Str(utf8_of(string@)),
    {
        TokenKind::String(String::from_str(string))
    }
}

/// A token and the position at which it starts.
#[derive(Clone, Debug, Eq, PartialEq)]
pub struct Token {
    pub kind: TokenKind,
    pub pos: FilePos,
}

/// Space, tab and form feed.
pub open spec fn is_horizontal_space(byte: u8) -> bool {
    byte == 0x20 || byte == 0x09 || byte == 0x0c
}

/// Tab, line feed, form feed, carriage return and space.
pub open spec fn is_white_byte(byte: u8) -> bool {
    byte == 0x09 || byte == 0x0a || byte == 0x0c || byte == 0x0d || byte == 0x20
}

/// The number of horizontal spaces at the start of `s`.
pub open spec fn space_run(s: Seq<u8>) -> nat
    decreases s.len(),
{
    if s.len() > 0 && is_horizontal_space(s[0]) {
        1 + space_run(s.drop_first())
    } else {
        0
    }
}

/// The number of bytes at the start of `s` that are not white space.
pub open spec fn word_len(s: Seq<u8>) -> nat
    decreases s.len(),
{
    if s.len() > 0 && !is_white_byte(s[0]) {
        1 + word_len(s.drop_first())
    } else {
        0
    }
}

/// The contents of a single-quoted string after its opening quote, and the
/// number of bytes through the closing quote; `None` when the quote is never
/// closed. Only `\'` and `\\` are escapes.
pub open spec fn quoted(s: Seq<u8>) -> Option<(Seq<u8>, nat)>
    decreases s.len(),
{
    if s.len() == 0 {
        None
    } else if s[0] == 0x27 {
        Some((seq![], 1))
    } else if s[0] == 0x5c && s.len() >= 2 && (s[1] == 0x27 || s[1] == 0x5c) {
        match quoted(s.skip(2)) {
            Some((c, k)) => Some((seq![s[1]] + c, k + 2)),
            None => None,
        }
    } else {
        match quoted(s.drop_first()) {
            Some((c, k)) => Some((seq![s[0]] + c, k + 1)),
            None => None,
        }
    }
}

/// The bytes that the lexer takes for white space: tab, line feed, form
/// feed, carriage return and space.
pub open spec fn ascii_blanks() -> Seq<u8> {
    seq![0x09u8, 0x0au8, 0x0cu8, 0x0du8, 0x20u8]
}

/// The bytes that start a token of their own or a quoted string.
pub open spec fn ascii_specials() -> Seq<u8> {
    seq![0x28u8, 0x29u8, 0x7bu8, 0x7du8, 0x7cu8, 0x24u8, 0x27u8]
}

/// The length of a word, counted directly: it ends at the first blank byte.
proof fn lemma_word_len_ends(s: Seq<u8>)
    ensures
        word_len(s) <= s.len(),
        forall|i: int| 0 <= i < word_len(s) ==> !ascii_blanks().contains(#[trigger] s[i]),
        word_len(s) < s.len() ==> ascii_blanks().contains(s[word_len(s) as int]),
    decreases s.len(),
{
    let t = ascii_blanks();
    assert(t[0] == 0x09u8 && t[1] == 0x0au8 && t[2] == 0x0cu8 && t[3] == 0x0du8 && t[4]
        == 0x20u8);
    assert forall|b: u8| #[trigger] t.contains(b) <==> is_white_byte(b) by {
        if t.contains(b) {
            let i = choose|i: int| 0 <= i < t.len() && t[i] == b;
            assert(0 <= i < 5);
        }
    }
    if s.len() > 0 && !is_white_byte(s[0]) {
        let r = s.drop_first();
        lemma_word_len_ends(r);
        assert forall|i: int| 0 <= i < word_len(s) implies !ascii_blanks().contains(
            #[trigger] s[i],
        ) by {
            if i > 0 {
                assert(s[i] == r[i - 1]);
            }
        }
        if word_len(s) < s.len() {
            assert(s[word_len(s) as int] == r[word_len(r) as int]);
        }
    }
}

/// An unquoted word runs up to the first white space byte: when the input
/// starts with a byte that is no white space, parenthesis, brace, pipe,
/// dollar or quote, the token read is a string of the bytes up to the first
/// tab, line feed, form feed, carriage return or space (or the end), and it
/// holds none of them.
pub proof fn lemma_word_ends_at_white_space(s: Seq<u8>)
    requires
        s.len() > 0,
        !ascii_blanks().contains(s[0]),
        !ascii_specials().contains(s[0]),
    ensures
        next_token(s) matches Some((Tok::Str(w), n)) ==> {
            &&& 0 < n <= s.len()
            &&& w == s.take(n as int)
            &&& forall|i: int| 0 <= i < w.len() ==> !ascii_blanks().contains(#[trigger] w[i])
            &&& n < s.len() ==> ascii_blanks().contains(s[n as int])
        },
        valid_utf8(s.take(1 + word_len(s.drop_first()) as int)) ==> next_token(s) matches Some(
            (Tok::Str(_), _),
        ),
{
    let b = ascii_blanks();
    let sp = ascii_specials();
    assert(b[0] == 0x09u8 && b[1] == 0x0au8 && b[2] == 0x0cu8 && b[3] == 0x0du8 && b[4]
        == 0x20u8);
    assert(sp[0] == 0x28u8 && sp[1] == 0x29u8 && sp[2] == 0x7bu8 && sp[3] == 0x7du8 && sp[4]
        == 0x7cu8 && sp[5] == 0x24u8 && sp[6] == 0x27u8);
    let r = s.drop_first();
    lemma_word_len_ends(r);
    let n = 1 + word_len(r);
    let w = s.take(n as int);
    assert forall|i: int| 0 <= i < w.len() implies !ascii_blanks().contains(#[trigger] w[i]) by {
        if i > 0 {
            assert(w[i] == r[i - 1]);
        }
    }
    if n < s.len() {
        assert(s[n as int] == r[word_len(r) as int]);
    }
}

/// A run of spaces lies within the bytes it is counted in.
pub proof fn lemma_space_run_bound(s: Seq<u8>)
    ensures
        space_run(s) <= s.len(),
    decreases s.len(),
{
    if s.len() > 0 {
        lemma_space_run_bound(s.drop_first());
    }
}

/// A word lies within the bytes it is counted in.
pub proof fn lemma_word_len_bound(s: Seq<u8>)
    ensures
        word_len(s) <= s.len(),
    decreases s.len(),
{
    if s.len() > 0 {
        lemma_word_len_bound(s.drop_first());
    }
}

/// A quoted string ends within the bytes it is read from.
pub proof fn lemma_quoted_bound(s: Seq<u8>)
    ensures
        quoted(s) matches Some((c, k)) ==> 1 <= k <= s.len() && c.len() < k,
    decreases s.len(),
{
    if s.len() > 0 {
        if s[0] == 0x5c && s.len() >= 2 && (s[1] == 0x27 || s[1] == 0x5c) {
            lemma_quoted_bound(s.skip(2));
        } else if s[0] != 0x27 {
            lemma_quoted_bound(s.drop_first());
        }
    }
}

/// The next token at the start of `s` and the number of bytes it takes;
/// `None` where reading it fails: a single quote that is never closed, or a
/// string whose bytes are not UTF-8.
pub open spec fn next_token(s: Seq<u8>) -> Option<(Tok, nat)> {
    if s.len() == 0 {
        Some((Tok::EndOfFile, 0))
    } else {
        let b = s[0];
        if b == 0x28 {
            Some((Tok::LeftParen, 1))
        } else if b == 0x29 {
            Some((Tok::RightParen, 1))
        } else if b == 0x7b {
            Some((Tok::LeftBrace, 1))
        } else if b == 0x7d {
            Some((Tok::RightBrace, 1))
        } else if b == 0x7c {
            Some((Tok::Pipe, 1))
        } else if b == 0x24 {
            Some((Tok::Deref, 1))
        } else if is_horizontal_space(b) {
            Some((Tok::Whitespace, 1 + space_run(s.drop_first())))
        } else if b == 0x0a {
            Some((Tok::EndOfLine, 1))
        } else if b == 0x0d {
            if s.len() >= 2 && s[1] == 0x0a {
                Some((Tok::EndOfLine, 2))
            } else {
                Some((Tok::EndOfLine, 1))
            }
        } else if b == 0x27 {
            match quoted(s.drop_first()) {
                Some((c, k)) => if valid_utf8(c) {
                    Some((Tok::Str(c), k + 1))
                } else {
                    None
                },
                None => None,
            }
        } else {
            let n = 1 + word_len(s.drop_first());
            if valid_utf8(s.take(n as int)) {
                Some((Tok::Str(s.take(n as int)), n))
            } else {
                None
            }
        }
    }
}

/// The byte after a run of spaces is not a space.
proof fn lemma_space_run_ends(s: Seq<u8>)
    ensures
        space_run(s) <= s.len(),
        space_run(s) < s.len() ==> !is_horizontal_space(s[space_run(s) as int]),
        forall|i: int| 0 <= i < space_run(s) ==> is_horizontal_space(#[trigger] s[i]),
    decreases s.len(),
{
    if s.len() > 0 && is_horizontal_space(s[0]) {
        let t = s.drop_first();
        lemma_space_run_ends(t);
        assert forall|i: int| 0 <= i < space_run(s) implies is_horizontal_space(#[trigger] s[i]) by {
            if i > 0 {
                assert(s[i] == t[i - 1]);
            }
        }
    }
}

/// Multiple whitespace characters are compressed into one token: a
/// whitespace token is never followed by another.
pub proof fn lemma_whitespace_is_compressed(s: Seq<u8>)
    requires
        next_token(s) matches Some((Tok::Whitespace, _)),
    ensures
        !(next_token(s.skip(next_token(s)->Some_0.1 as int)) matches Some((Tok::Whitespace, _))),
{
    let t = s.drop_first();
    lemma_space_run_ends(t);
    let k = next_token(s)->Some_0.1;
    let rest = s.skip(k as int);
    if rest.len() > 0 {
        assert(rest[0] == t[space_run(t) as int]);
    }
}

/// Splits a file map into tokens.
pub struct Lexer {
    file: FileMap,
    next_byte: Option<u8>,
}

impl Lexer {
    /// The bytes not read yet.
    pub closed spec fn rest(&self) -> Seq<u8> {
        match self.next_byte {
            Some(b) => seq![b] + self.file.rest(),
            None => self.file.rest(),
        }
    }

    /// The position that tokens are reported at.
    pub closed spec fn pos_spec(&self) -> FilePos {
        self.file.pos_spec()
    }

    pub closed spec fn wf(&self) -> bool {
        self.file.wf()
    }

    /// Create a new lexer for the given file.
    pub fn new(file: FileMap) -> (l: Lexer)
        requires
            file.wf(),
        ensures
            l.wf(),
            l.rest() == file.rest(),
            l.pos_spec() == file.pos_spec(),
    {
        Lexer { file, next_byte: None }
    }

    fn peek_byte(&mut self) -> (b: Option<u8>)
        requires
            old(self).wf(),
        ensures
            final(self).wf(),
            final(self).rest() == old(self).rest(),
            final(self).pos_spec() == old(self).pos_spec(),
            old(self).rest().len() == 0 ==> b is None,
            old(self).rest().len() > 0 ==> b == Some(old(self).rest()[0]),
    {
        if self.next_byte.is_none() {
            self.next_byte = match self.file.next_byte() {
                Ok(b) => b,
                Err(_) => None,
            };
            proof {
                if old(self).rest().len() > 0 {
                    assert(self.rest() =~= old(self).rest());
                }
            }
        }
        self.next_byte
    }

    fn next_byte(&mut self) -> (b: Option<u8>)
        requires
            old(self).wf(),
        ensures
            final(self).wf(),
            final(self).pos_spec() == old(self).pos_spec(),
            old(self).rest().len() == 0 ==> b is None && final(self).rest() == old(self).rest(),
            old(self).rest().len() > 0 ==> b == Some(old(self).rest()[0]) && final(self).rest()
                == old(self).rest().drop_first(),
    {
        if self.next_byte.is_none() {
            self.next_byte = match self.file.next_byte() {
                Ok(b) => b,
                Err(_) => None,
            };
            proof {
                if old(self).rest().len() > 0 {
                    assert(self.rest() =~= old(self).rest());
                }
            }
        }
        let b = self.next_byte.take();
        proof {
            if old(self).rest().len() > 0 {
                assert(self.rest() =~= old(self).rest().drop_first());
            }
        }
        b
    }

    /// Consume a run of horizontal spaces.
    fn skip_spaces(&mut self)
        requires
            old(self).wf(),
        ensures
            final(self).wf(),
            final(self).pos_spec() == old(self).pos_spec(),
            final(self).rest() == old(self).rest().skip(space_run(old(self).rest()) as int),
    {
        let ghost r0 = self.rest();
        let ghost mut i: nat = 0;
        proof {
            assert(r0.skip(0) =~= r0);
        }
        loop
            invariant
                self.wf(),
                self.pos_spec() == old(self).pos_spec(),
                r0 == old(self).rest(),
                i <= r0.len(),
                self.rest() == r0.skip(i as int),
                i + space_run(self.rest()) == space_run(r0),
            ensures
                space_run(self.rest()) == 0,
            decreases self.rest().len(),
        {
            match self.peek_byte() {
                Some(byte) => {
                    if byte == 0x20 || byte == 0x09 || byte == 0x0c {
                        self.next_byte();
                        proof {
                            i = i + 1;
                            assert(self.rest() =~= r0.skip(i as int));
                        }
                    } else {
                        break;
                    }
                },
                None => break,
            }
        }
    }

    /// Read the rest of an unquoted string whose first byte is `first`.
    fn read_word(&mut self, first: u8) -> (contents: Vec<u8>)
        requires
            old(self).wf(),
        ensures
            final(self).wf(),
            final(self).pos_spec() == old(self).pos_spec(),
            contents@ == seq![first] + old(self).rest().take(word_len(old(self).rest()) as int),
            final(self).rest() == old(self).rest().skip(word_len(old(self).rest()) as int),
    {
        let ghost r0 = self.rest();
        let ghost mut i: nat = 0;
        let mut contents = Vec::new();
        contents.push(first);
        proof {
            assert(r0.skip(0) =~= r0);
            assert(contents@ =~= seq![first] + r0.take(0));
        }
        loop
            invariant
                self.wf(),
                self.pos_spec() == old(self).pos_spec(),
                r0 == old(self).rest(),
                i <= r0.len(),
                self.rest() == r0.skip(i as int),
                i + word_len(self.rest()) == word_len(r0),
                contents@ == seq![first] + r0.take(i as int),
            ensures
                word_len(self.rest()) == 0,
            decreases self.rest().len(),
        {
            match self.peek_byte() {
                Some(byte) => {
                    if byte == 0x09 || byte == 0x0a || byte == 0x0c || byte == 0x0d || byte
                        == 0x20 {
                        break;
                    }
                    self.next_byte();
                    contents.push(byte);
                    proof {
                        assert(r0[i as int] == byte);
                        i = i + 1;
                        assert(self.rest() =~= r0.skip(i as int));
                        assert(contents@ =~= seq![first] + r0.take(i as int));
                    }
                },
                None => break,
            }
        }
        contents
    }

    /// Read a single-quoted string after its opening quote.
    fn read_quoted(&mut self) -> (contents: Vec<u8>)
        requires
            old(self).wf(),
            quoted(old(self).rest()) is Some,
        ensures
            final(self).wf(),
            final(self).pos_spec() == old(self).pos_spec(),
            contents@ == quoted(old(self).rest())->Some_0.0,
            final(self).rest() == old(self).rest().skip(
                quoted(old(self).rest())->Some_0.1 as int,
            ),
    {
        let ghost r0 = self.rest();
        let ghost mut i: nat = 0;
        let mut contents = Vec::new();
        proof {
            assert(r0.skip(0) =~= r0);
            assert(quoted(r0)->Some_0.0 =~= contents@ + quoted(self.rest())->Some_0.0);
        }
        loop
            invariant_except_break
                quoted(self.rest()) is Some,
                quoted(r0)->Some_0.0 == contents@ + quoted(self.rest())->Some_0.0,
                quoted(r0)->Some_0.1 == i + quoted(self.rest())->Some_0.1,
            invariant
                self.wf(),
                self.pos_spec() == old(self).pos_spec(),
                r0 == old(self).rest(),
                i <= r0.len(),
                self.rest() == r0.skip(i as int),
            ensures
                quoted(r0)->Some_0.0 == contents@,
                quoted(r0)->Some_0.1 == i,
            decreases self.rest().len(),
        {
            let ghost r = self.rest();
            let ghost c0 = contents@;
            match self.next_byte() {
                // End of the string.
                Some(0x27) => {
                    proof {
                        i = i + 1;
                        assert(c0 + Seq::<u8>::empty() =~= c0);
                    }
                    break;
                },
                // The only character escapes recognized in a single quoted
                // string are \' and \\, so for all other characters we just
                // proceed as normal.
                Some(0x5c) => match self.peek_byte() {
                    Some(0x27) | Some(0x5c) => {
                        let escaped = self.next_byte();
                        contents.push(escaped.unwrap());
                        proof {
                            i = i + 2;
                            assert(self.rest() =~= r.skip(2));
                            assert(self.rest() =~= r0.skip(i as int));
                            assert(c0 + (seq![r[1]] + quoted(r.skip(2))->Some_0.0) =~= contents@
                                + quoted(r.skip(2))->Some_0.0);
                        }
                    },
                    _ => {
                        contents.push(0x5c);
                        proof {
                            i = i + 1;
                            assert(self.rest() =~= r.drop_first());
                            assert(self.rest() =~= r0.skip(i as int));
                            assert(c0 + (seq![r[0]] + quoted(r.drop_first())->Some_0.0)
                                =~= contents@ + quoted(r.drop_first())->Some_0.0);
                        }
                    },
                },
                // Just a regular byte in the string.
                Some(byte) => {
                    contents.push(byte);
                    proof {
                        i = i + 1;
                        assert(self.rest() =~= r.drop_first());
                        assert(self.rest() =~= r0.skip(i as int));
                        assert(c0 + (seq![r[0]] + quoted(r.drop_first())->Some_0.0) =~= contents@
                            + quoted(r.drop_first())->Some_0.0);
                    }
                },
                None => {
                    // The quote is closed before the end of the input.
                    proof {
                        assert(false);
                    }
                    break;
                },
            }
        }
        contents
    }

    /// Get the next token in the stream.
    pub fn next(&mut self) -> (r: io::Result<Token>)
        requires
            old(self).wf(),
            next_token(old(self).rest()) is Some,
        ensures
            final(self).wf(),
            final(self).pos_spec() == old(self).pos_spec(),
            r matches Ok(token) && token.kind.tok() == next_token(old(self).rest())->Some_0.0
                && token.pos == old(self).pos_spec() && final(self).rest() == old(self).rest().skip(
                next_token(old(self).rest())->Some_0.1 as int,
            ),
    {
        let pos = self.file.pos();
        let ghost r0 = self.rest();
        let kind = match self.next_byte() {
            Some(byte) => match byte {
                // Simple one-character tokens.
                0x28 => TokenKind::LeftParen,
                0x29 => TokenKind::RightParen,
                0x7b => TokenKind::LeftBrace,
                0x7d => TokenKind::RightBrace,
                0x7c => TokenKind::Pipe,
                0x24 => TokenKind::Deref,
                // Regular whitespace: multiple whitespace characters are
                // compressed into one token.
                0x20 | 0x09 | 0x0c => {
                    self.skip_spaces();
                    proof {
                        lemma_space_run_bound(r0.drop_first());
                        assert(self.rest() =~= r0.skip(1 + space_run(r0.drop_first()) as int));
                    }
                    TokenKind::Whitespace
                },
                // Any of the sequences \r \r\n \n is a single newline token.
                0x0a => TokenKind::EndOfLine,
                0x0d => {
                    if self.peek_byte() == Some(0x0au8) {
                        self.next_byte();
                        proof {
                            assert(self.rest() =~= r0.skip(2));
                        }
                    }
                    TokenKind::EndOfLine
                },
                // Single-quoted strings.
                0x27 => {
                    let contents = self.read_quoted();
                    proof {
                        lemma_quoted_bound(r0.drop_first());
                        assert(self.rest() =~= r0.skip(
                            (quoted(r0.drop_first())->Some_0.1 + 1) as int,
                        ));
                    }
                    let s = string_from_utf8(contents);
                    TokenKind::String(s.unwrap())
                },
                // Unquoted string.
                byte => {
                    let contents = self.read_word(byte);
                    proof {
                        lemma_word_len_bound(r0.drop_first());
                        let n = 1 + word_len(r0.drop_first());
                        assert(contents@ =~= r0.take(n as int));
                        assert(self.rest() =~= r0.skip(n as int));
                    }
                    let s = string_from_utf8(contents);
                    TokenKind::String(s.unwrap())
                },
            },
            None => TokenKind::EndOfFile,
        };

        Ok(Token { kind, pos })
    }
}

/// Get the value corresponding to a given escape character.
pub fn translate_escape(c: char) -> (r: char)
    ensures
        r == crate::sexpr::escaped(c),
{
    match c {
        '\\' => '\\',
        'n' => '\n',
        'r' => '\r',
        't' => '\t',
        _ => c,  // interpret all other chars as their literal
    }
}

/// Whether `byte` is a space, a tab or a form feed.
pub fn is_horizontal_whitespace(byte: u8) -> (r: bool)
    ensures
        r == is_horizontal_space(byte),
{
    match byte {
        0x20 | 0x09 | 0x0c => true,
        _ => false,
    }
}

/// Whether `byte` is a tab, a line feed, a form feed, a carriage return or a
/// space.
pub fn is_whitespace(byte: u8) -> (r: bool)
    ensures
        r == is_white_byte(byte),
{
    byte == 0x09 || byte == 0x0a || byte == 0x0c || byte == 0x0d || byte == 0x20
}

} // verus!
