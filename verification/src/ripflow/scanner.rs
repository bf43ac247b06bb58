//! Supporting types for the parser to read characters from various sources
//! incrementally.

use crate::strings::{lemma_boundary_at_take, lemma_encode_concat, lemma_encode_split, string_byte_len, utf8_of, utf8_width};
use std::io;
use vstd::prelude::*;
use vstd::utf8::*;

verus! {

broadcast use vstd::utf8::encode_utf8_decode_utf8;

/// Represents a file or stream that can read incrementally.
pub trait Source {
    /// Get a file name being read from suitable for display; a source that
    /// has none is `<unknown>`.
    fn name(&self) -> (name: &str)
        default_ensures
            name@ == "<unknown>"@,
    {
        "<unknown>"
    }

    /// Read the next character.
    fn read_char(&mut self) -> io::Result<Option<char>>;
}

/// Reads characters from a string.
pub struct StringSource {
    string: String,
    // Byte offset of the next character, and the number of characters read
    // so far.
    at: (usize, Ghost<nat>),
}

impl StringSource {
    /// The byte offset is that of the first unread character.
    #[verifier::type_invariant]
    pub closed spec fn inv(self) -> bool {
        &&& self.at.1@ <= self.string@.len()
        &&& self.at.0 == utf8_of(self.string@.take(self.at.1@ as int)).len()
        &&& utf8_of(self.string@).len() <= isize::MAX
    }

    /// The characters not read yet fit a string.
    pub proof fn lemma_rest_fits(&self)
        requires
            self.inv(),
        ensures
            utf8_of(self.rest()).len() <= isize::MAX,
    {
        lemma_encode_split(self.string@, self.at.1@ as int);
    }

    /// The characters not read yet.
    pub closed spec fn rest(&self) -> Seq<char> {
        self.string@.skip(self.at.1@ as int)
    }

    /// Read the next character, or `None` at the end of the string.
    pub fn read(&mut self) -> (c: Option<char>)
        ensures
            old(self).rest().len() == 0 ==> c is None && final(self).rest() == old(self).rest(),
            old(self).rest().len() > 0 ==> c == Some(old(self).rest()[0])
                && final(self).rest() == old(self).rest().drop_first(),
    {
        proof {
            use_type_invariant(&*self);
        }
        let ghost s = self.string@;
        let ghost k = self.at.1@ as int;
        proof {
            lemma_boundary_at_take(s, k);
            lemma_encode_split(s, k);
            encode_utf8_valid_utf8(s);
        }
        let (_, tail) = self.string.as_str().split_at(self.at.0);
        proof {
            assert(utf8_of(tail@) == utf8_of(s.skip(k)));
            assert(tail@ == decode_utf8(utf8_of(tail@)));
            assert(tail@ == s.skip(k));
        }
        let mut it = tail.chars();
        match it.next() {
            None => None,
            Some(c) => {
                proof {
                    assert(s.take(k + 1) =~= s.take(k) + seq![s[k]]);
                    lemma_encode_concat(s.take(k), seq![s[k]]);
                    lemma_encode_split(s, k + 1);
                }
                let next = self.at.0 + utf8_width(c);
                self.at = (next, Ghost(self.at.1@ + 1));
                proof {
                    assert(self.rest() =~= old(self).rest().drop_first());
                }
                Some(c)
            },
        }
    }
}

impl vstd::std_specs::convert::FromSpecImpl<String> for StringSource {
    open spec fn obeys_from_spec() -> bool {
        false
    }

    closed spec fn from_spec(string: String) -> Self {
        StringSource { string, at: (0, Ghost(0)) }
    }
}

impl From<String> for StringSource {
    fn from(string: String) -> (s: StringSource)
        ensures
            s.rest() == string@,
    {
        let _ = string_byte_len(&string);
        proof {
            assert(string@.take(0) =~= Seq::<char>::empty());
            assert(utf8_of(Seq::<char>::empty()) =~= Seq::<u8>::empty());
            assert(string@.skip(0) =~= string@);
        }
        StringSource { string, at: (0, Ghost(0)) }
    }
}

impl Source for StringSource {
    fn read_char(&mut self) -> (r: io::Result<Option<char>>)
        ensures
            r matches Ok(c) && {
                &&& old(self).rest().len() == 0 ==> c is None && final(self).rest() == old(
                    self,
                ).rest()
                &&& old(self).rest().len() > 0 ==> c == Some(old(self).rest()[0])
                    && final(self).rest() == old(self).rest().drop_first()
            },
    {
        Ok(self.read())
    }
}

/// The number of line feeds in `t`.
pub open spec fn newlines(t: Seq<char>) -> nat
    decreases t.len(),
{
    if t.len() == 0 {
        0
    } else {
        newlines(t.drop_last()) + if t.last() == '\n' {
            1nat
        } else {
            0nat
        }
    }
}

/// The smaller of `i` and `n`.
pub open spec fn upto(i: int, n: int) -> int {
    if i < n {
        i
    } else {
        n
    }
}

/// One call of `next` took the scanner from `before` to `after` and
/// returned `c`.
pub open spec fn stepped(before: Scanner, c: Option<char>, after: Scanner) -> bool {
    if before.rest().len() == 0 {
        &&& c is None
        &&& after.rest() == before.rest()
        &&& after.line_spec() == before.line_spec()
        &&& after.column_spec() == before.column_spec()
    } else {
        &&& c == Some(before.rest()[0])
        &&& after.rest() == before.rest().drop_first()
        &&& if before.rest()[0] == '\n' {
            after.line_spec() == before.line_spec() + 1 && after.column_spec() == 1
        } else {
            after.line_spec() == before.line_spec() && after.column_spec()
                == before.column_spec() + 1
        }
    }
}

/// One call of `peek` took the scanner from `before` to `after` and returned
/// `c`: the first character not consumed, and nothing consumed.
pub open spec fn peeked_at(before: Scanner, c: Option<char>, after: Scanner) -> bool {
    &&& after.rest() == before.rest()
    &&& after.line_spec() == before.line_spec()
    &&& after.column_spec() == before.column_spec()
    &&& c == if before.rest().len() == 0 {
        None
    } else {
        Some(before.rest()[0])
    }
}

/// Peeking consumes nothing: a peek keeps the line and the column, a second
/// peek returns the same character, and the `next` that follows returns it
/// too.
pub proof fn lemma_peek_consumes_nothing(
    s0: Scanner,
    first: Option<char>,
    s1: Scanner,
    second: Option<char>,
    s2: Scanner,
    taken: Option<char>,
    s3: Scanner,
)
    requires
        peeked_at(s0, first, s1),
        peeked_at(s1, second, s2),
        stepped(s2, taken, s3),
    ensures
        s1.line_spec() == s0.line_spec(),
        s1.column_spec() == s0.column_spec(),
        second == first,
        taken == first,
        s3.rest() == if s0.rest().len() == 0 {
            s0.rest()
        } else {
            s0.rest().drop_first()
        },
{
}

/// Reading a string through: from a scanner over `s` at line 1, column 1,
/// the successive calls of `next` return the characters of `s` in order and
/// then `None`; after `i` calls the line is 1 plus the line feeds read, and
/// the column is the one after the characters read.
pub proof fn lemma_scanner_run(s: Seq<char>, states: Seq<Scanner>, outs: Seq<Option<char>>)
    requires
        states.len() == outs.len() + 1,
        states[0].rest() == s,
        states[0].line_spec() == 1,
        states[0].column_spec() == 1,
        forall|i: int| 0 <= i < outs.len() ==> #[trigger] stepped(states[i], outs[i], states[i + 1]),
    ensures
        forall|i: int|
            0 <= i < outs.len() ==> #[trigger] outs[i] == if i < s.len() {
                Some(s[i])
            } else {
                None
            },
        forall|i: int|
            0 <= i < states.len() ==> {
                let read = s.take(upto(i, s.len() as int));
                &&& (#[trigger] states[i]).rest() == s.skip(upto(i, s.len() as int))
                &&& states[i].line_spec() == 1 + newlines(read)
                &&& states[i].column_spec() == crate::sexpr::position_after(read).1
            },
    decreases outs.len(),
{
    if outs.len() > 0 {
        let n = outs.len() - 1;
        lemma_scanner_run(s, states.drop_last(), outs.drop_last());
        assert forall|i: int| 0 <= i < states.drop_last().len() implies states.drop_last()[i]
            == states[i] by {}
        assert(stepped(states[n], outs[n], states[n + 1]));
        let k = upto(n, s.len() as int);
        assert(states[n].rest() == s.skip(k));
        if n < s.len() {
            assert(s.take(k + 1).drop_last() =~= s.take(k));
            assert(s.take(k + 1).last() == s[k]);
            assert(s.skip(k).drop_first() =~= s.skip(k + 1));
        }
        assert forall|i: int| 0 <= i < outs.len() implies #[trigger] outs[i] == if i < s.len() {
            Some(s[i])
        } else {
            None
        } by {
            if i < n {
                assert(outs.drop_last()[i] == outs[i]);
            }
        }
        assert forall|i: int| 0 <= i < states.len() implies {
            let read = s.take(upto(i, s.len() as int));
            &&& (#[trigger] states[i]).rest() == s.skip(upto(i, s.len() as int))
            &&& states[i].line_spec() == 1 + newlines(read)
            &&& states[i].column_spec() == crate::sexpr::position_after(read).1
        } by {
            if i <= n {
                assert(states.drop_last()[i] == states[i]);
            }
        }
    } else {
        assert(s.take(0) =~= Seq::<char>::empty());
        assert(s.skip(0) =~= s);
    }
}

/// Reads source code from a source incrementally.
pub struct Scanner {
    pub source: StringSource,
    next_char: Option<char>,
    line: u32,
    column: u32,
}

impl Scanner {
    /// The characters not consumed yet, starting with the one peeked at.
    pub closed spec fn rest(&self) -> Seq<char> {
        match self.next_char {
            Some(c) => seq![c] + self.source.rest(),
            None => self.source.rest(),
        }
    }

    /// The reported line number.
    pub closed spec fn line_spec(&self) -> u32 {
        self.line
    }

    /// The reported column number.
    pub closed spec fn column_spec(&self) -> u32 {
        self.column
    }

    /// The character peeked at and not consumed yet, if any.
    pub closed spec fn peeked(&self) -> Option<char> {
        self.next_char
    }

    /// Create a scanner from a string.
    pub fn from_string(string: String) -> (s: Scanner)
        ensures
            s.rest() == string@,
            s.line_spec() == 1,
            s.column_spec() == 1,
    {
        Scanner::new(StringSource::from(string))
    }

    /// Create a new scanner for a given source.
    pub fn new(source: StringSource) -> (s: Scanner)
        ensures
            s.rest() == source.rest(),
            s.line_spec() == 1,
            s.column_spec() == 1,
    {
        Scanner { source, next_char: None, line: 1, column: 1 }
    }

    /// Report the current line number.
    pub fn line(&self) -> (l: u32)
        ensures
            l == self.line_spec(),
    {
        self.line
    }

    /// Report the current column number.
    pub fn column(&self) -> (c: u32)
        ensures
            c == self.column_spec(),
    {
        self.column
    }

    /// Get the next character of input.
    ///
    /// A newline moves to column 1 of the next line; any other character
    /// moves one column to the right.
    pub fn next(&mut self) -> (c: Option<char>)
        requires
            old(self).rest().len() > 0 && old(self).rest()[0] == '\n' ==> old(self).line_spec()
                < u32::MAX,
            old(self).rest().len() > 0 && old(self).rest()[0] != '\n' ==> old(self).column_spec()
                < u32::MAX,
        ensures
            stepped(*old(self), c, *final(self)),
            old(self).rest().len() == 0 ==> c is None && final(self).rest() == old(self).rest()
                && final(self).line_spec() == old(self).line_spec() && final(self).column_spec()
                == old(self).column_spec(),
            old(self).rest().len() > 0 ==> c == Some(old(self).rest()[0]) && final(self).rest()
                == old(self).rest().drop_first(),
            old(self).rest().len() > 0 && old(self).rest()[0] == '\n' ==> final(self).line_spec()
                == old(self).line_spec() + 1 && final(self).column_spec() == 1,
            old(self).rest().len() > 0 && old(self).rest()[0] != '\n' ==> final(self).line_spec()
                == old(self).line_spec() && final(self).column_spec() == old(self).column_spec()
                + 1,
    {
        match self.peek() {
            Some('\n') => {
                self.line += 1;
                self.column = 1;
            },
            Some(_) => {
                self.column += 1;
            },
            None => {},
        }

        proof {
            if old(self).rest().len() > 0 {
                assert(old(self).rest().drop_first() =~= self.source.rest());
            }
        }
        self.next_char.take()
    }

    /// Peek ahead one character.
    pub fn peek(&mut self) -> (c: Option<char>)
        ensures
            peeked_at(*old(self), c, *final(self)),
            final(self).rest() == old(self).rest(),
            final(self).line_spec() == old(self).line_spec(),
            final(self).column_spec() == old(self).column_spec(),
            c == final(self).peeked(),
            old(self).rest().len() == 0 ==> c is None,
            old(self).rest().len() > 0 ==> c == Some(old(self).rest()[0]),
    {
        if self.next_char.is_none() {
            self.next_char = match self.source.read_char() {
                Ok(Some(c)) => Some(c),
                Ok(None) => None,
                Err(_) => None,
            };
            proof {
                if old(self).rest().len() > 0 {
                    assert(self.rest() =~= old(self).rest());
                }
            }
        }

        self.next_char
    }
}

} // verus!
