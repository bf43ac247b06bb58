//! Positions in source text that is read incrementally.

use crate::ripflow::scanner::newlines;
use crate::sexpr::position_after;
use crate::strings::{lemma_encode_concat, utf8_of, utf8_width};
use vstd::prelude::*;
use vstd::utf8::encode_utf8;

verus! {

/// A reference to a location in source code. Useful for error messages.
#[derive(Clone, Copy, Debug, Eq, PartialEq, Structural)]
pub struct SourcePos {
    /// The line number. Begins at 1.
    pub line: u32,
    /// The column position in the current line. Begins at 1.
    pub column: u32,
    /// Offset from the beginning of the source.
    pub offset: u32,
}

impl Default for SourcePos {
    fn default() -> (p: SourcePos)
        ensures
            p == (SourcePos { line: 1, column: 1, offset: 0 }),
    {
        SourcePos { line: 1, column: 1, offset: 0 }
    }
}

impl SourcePos {
    /// The position after reading `c` at this one: a line feed starts the
    /// next line at column 1, any other character moves one column on, and
    /// the offset, counted in bytes of UTF-8, moves past the character.
    pub fn advance(self, c: char) -> (p: SourcePos)
        requires
            c == '\n' ==> self.line < u32::MAX,
            c != '\n' ==> self.column < u32::MAX,
            self.offset + encode_utf8(seq![c]).len() <= u32::MAX,
        ensures
            advanced(self, c, p),
            c == '\n' ==> p.line == self.line + 1 && p.column == 1,
            c != '\n' ==> p.line == self.line && p.column == self.column + 1,
            p.offset == self.offset + encode_utf8(seq![c]).len(),
    {
        let width = utf8_width(c) as u32;
        let offset = self.offset + width;
        if c == '\n' {
            SourcePos { line: self.line + 1, column: 1, offset }
        } else {
            SourcePos { line: self.line, column: self.column + 1, offset }
        }
    }
}

/// `after` is the position that follows reading `c` at `before`.
pub open spec fn advanced(before: SourcePos, c: char, after: SourcePos) -> bool {
    &&& if c == '\n' {
        after.line == before.line + 1 && after.column == 1
    } else {
        after.line == before.line && after.column == before.column + 1
    }
    &&& after.offset == before.offset + encode_utf8(seq![c]).len()
}

/// Positions along a text: starting at the default position and advancing
/// over the characters of `t` one by one, the position after the first `i`
/// characters has line 1 plus the line feeds among them, the column after
/// them, and their length in bytes of UTF-8 as offset.
pub proof fn lemma_positions_along(t: Seq<char>, ps: Seq<SourcePos>)
    requires
        ps.len() == t.len() + 1,
        ps[0] == (SourcePos { line: 1, column: 1, offset: 0 }),
        forall|i: int| 0 <= i < t.len() ==> #[trigger] advanced(ps[i], t[i], ps[i + 1]),
    ensures
        forall|i: int|
            0 <= i < ps.len() ==> {
                &&& (#[trigger] ps[i]).line == 1 + newlines(t.take(i))
                &&& ps[i].column == position_after(t.take(i)).1
                &&& ps[i].offset == utf8_of(t.take(i)).len()
            },
    decreases t.len(),
{
    if t.len() == 0 {
        assert(t.take(0) =~= Seq::<char>::empty());
        assert(utf8_of(Seq::<char>::empty()) =~= Seq::<u8>::empty());
    } else {
        let n = t.len() - 1;
        let t0 = t.drop_last();
        let ps0 = ps.drop_last();
        assert forall|i: int| 0 <= i < t0.len() implies #[trigger] advanced(
            ps0[i],
            t0[i],
            ps0[i + 1],
        ) by {
            assert(advanced(ps[i], t[i], ps[i + 1]));
        }
        lemma_positions_along(t0, ps0);
        assert forall|i: int| 0 <= i < ps.len() implies {
            &&& (#[trigger] ps[i]).line == 1 + newlines(t.take(i))
            &&& ps[i].column == position_after(t.take(i)).1
            &&& ps[i].offset == utf8_of(t.take(i)).len()
        } by {
            if i <= n {
                assert(ps0[i] == ps[i]);
                assert(t0.take(i) =~= t.take(i));
            } else {
                assert(ps0[n] == ps[n]);
                assert(t0.take(n) =~= t.take(n));
                assert(advanced(ps[n], t[n], ps[n + 1]));
                assert(t.take(i).drop_last() =~= t.take(n));
                assert(t.take(i).last() == t[n]);
                assert(t.take(i) =~= t.take(n) + seq![t[n]]);
                lemma_encode_concat(t.take(n), seq![t[n]]);
            }
        }
    }
}

} // verus!
