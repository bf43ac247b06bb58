//! The editable text of a command line and the cursor within it.

use crate::strings::{string_insert, string_insert_str, string_remove, utf8_of};
use vstd::prelude::*;
use vstd::utf8::*;

verus! {

broadcast use vstd::utf8::encode_utf8_valid_utf8;

/// The offset that moving from `cursor` by `offset` asks for: negative results
/// are clamped to zero.
pub open spec fn relative_target(cursor: int, offset: int) -> int {
    if cursor + offset > 0 { cursor + offset } else { 0 }
}

/// The smaller of two naturals.
pub open spec fn min_nat(a: nat, b: nat) -> nat {
    if a <= b { a } else { b }
}

/// The bytes after inserting `ins` at byte offset `at`.
pub open spec fn spliced(bytes: Seq<u8>, at: int, ins: Seq<u8>) -> Seq<u8> {
    bytes.take(at) + ins + bytes.skip(at)
}

/// The bytes after removing the `width` bytes that start at byte offset `at`.
pub open spec fn cut(bytes: Seq<u8>, at: int, width: int) -> Seq<u8> {
    bytes.take(at) + bytes.skip(at + width)
}

/// `after` is `before` without the encoding of `ch`, which started at byte
/// offset `at`.
pub open spec fn removes_char_at(before: Seq<u8>, after: Seq<u8>, at: int, ch: char) -> bool {
    let w = encode_utf8(seq![ch]).len() as int;
    &&& 0 <= at
    &&& at + w <= before.len()
    &&& before.subrange(at, at + w) == encode_utf8(seq![ch])
    &&& after == cut(before, at, w)
}

/// Typing a one-byte character and then deleting the character before the
/// cursor gives back the bytes from before: `after` is what deleting at the
/// advanced cursor leaves of the bytes with `c` inserted at `at`.
pub proof fn lemma_insert_then_delete_restores(
    before: Seq<u8>,
    at: int,
    c: char,
    after: Seq<u8>,
    ch: char,
)
    requires
        0 <= at <= before.len(),
        encode_utf8(seq![c]).len() == 1,
        removes_char_at(spliced(before, at, encode_utf8(seq![c])), after, at, ch),
    ensures
        after == before,
{
    let typed = spliced(before, at, encode_utf8(seq![c]));
    let w = encode_utf8(seq![ch]).len() as int;
    assert(w == 1) by {
        assert(typed.subrange(at, at + w) == encode_utf8(seq![ch]));
        assert(typed.subrange(at, at + 1) =~= encode_utf8(seq![c]));
        lemma_scalar_width_from_lead(ch, c, typed[at]);
    }
    assert(after =~= before);
}

/// Two characters whose encodings start with the same byte encode to the
/// same number of bytes.
proof fn lemma_scalar_width_from_lead(a: char, b: char, lead: u8)
    requires
        encode_utf8(seq![a]).len() >= 1,
        encode_utf8(seq![b]).len() == 1,
        encode_utf8(seq![a])[0] == lead,
        encode_utf8(seq![b])[0] == lead,
    ensures
        encode_utf8(seq![a]).len() == 1,
{
    crate::strings::lemma_encode_one(a);
    crate::strings::lemma_encode_one(b);
    vstd::utf8::char_is_scalar(a);
    vstd::utf8::char_is_scalar(b);
    let va = a as u32;
    let vb = b as u32;
    assert(has_width_1_encoding(vb));
    assert(((vb & 0x7F) as u8) < 0x80) by (bit_vector);
    if !has_width_1_encoding(va) {
        assert((0xC0u8 | (((va >> 6) & 0x1F) as u8)) >= 0x80) by (bit_vector);
        assert((0xE0u8 | (((va >> 12) & 0x0F) as u8)) >= 0x80) by (bit_vector);
        assert((0xF0u8 | (((va >> 18) & 0x7) as u8)) >= 0x80) by (bit_vector);
    }
}

/// State of a prompt buffer.
///
/// The cursor is a byte offset into the UTF-8 encoding of the text.
pub struct Buffer {
    // Current command line buffer text.
    text: String,
    // Current cursor position in the buffer.
    cursor: usize,
}

impl Buffer {
    /// The UTF-8 encoding of the buffer text.
    pub closed spec fn bytes(&self) -> Seq<u8> {
        utf8_of(self.text@)
    }

    /// The buffer text.
    pub closed spec fn chars(&self) -> Seq<char> {
        self.text@
    }

    /// The cursor, as a byte offset into `bytes()`.
    pub closed spec fn cursor_pos(&self) -> nat {
        self.cursor as nat
    }

    /// The cursor lies within the text, and the text fits an allocation.
    pub open spec fn wf(&self) -> bool {
        &&& self.cursor_pos() <= self.bytes().len()
        &&& self.bytes().len() <= isize::MAX
    }

    /// The bytes of a buffer are the UTF-8 encoding of its characters.
    pub proof fn lemma_bytes_chars(&self)
        ensures
            self.bytes() == utf8_of(self.chars()),
            valid_utf8(self.bytes()),
    {
    }

    /// An empty buffer with the cursor at the start.
    pub fn new() -> (b: Self)
        ensures
            b.wf(),
            b.bytes() == Seq::<u8>::empty(),
            b.chars() == Seq::<char>::empty(),
            b.cursor_pos() == 0,
    {
        Self { text: String::new(), cursor: 0 }
    }

    /// Whether the buffer holds no text.
    pub fn is_empty(&self) -> (r: bool)
        ensures
            r == (self.bytes().len() == 0),
            r == (self.chars().len() == 0),
    {
        proof {
            if self.text@.len() != 0 {
                reveal_with_fuel(encode_utf8, 1);
                vstd::utf8::char_is_scalar(self.text@[0]);
            }
        }
        self.text.as_str().is_empty()
    }

    /// Length of the text in bytes.
    fn len(&self) -> (n: usize)
        requires
            self.bytes().len() <= isize::MAX,
        ensures
            n == self.bytes().len(),
    {
        self.text.as_str().len()
    }

    /// Get the current buffer text.
    pub fn text(&self) -> (s: &str)
        ensures
            s@ == self.chars(),
            utf8_of(s@) == self.bytes(),
    {
        self.text.as_str()
    }

    /// Take the text buffer out of the prompt.
    pub fn take_text(&mut self) -> (text: String)
        requires
            old(self).wf(),
        ensures
            final(self).wf(),
            text@ == old(self).chars(),
            utf8_of(text@) == old(self).bytes(),
            final(self).bytes() == Seq::<u8>::empty(),
            final(self).chars() == Seq::<char>::empty(),
            final(self).cursor_pos() == 0,
    {
        let mut text = String::new();
        std::mem::swap(&mut self.text, &mut text);

        self.cursor = 0;

        text
    }

    /// Get the current cursor position.
    pub fn cursor(&self) -> (c: usize)
        ensures
            c == self.cursor_pos(),
    {
        self.cursor
    }

    /// Whether the cursor is at the end of the text.
    pub fn cursor_is_at_end_of_line(&self) -> (r: bool)
        requires
            self.wf(),
        ensures
            r == (self.cursor_pos() == self.bytes().len()),
    {
        self.cursor == self.len()
    }

    /// Move the cursor to the given position.
    ///
    /// Returns the new cursor position. The actual position may differ if the
    /// requested position was beyond the end of the buffer.
    pub fn move_cursor_to(&mut self, pos: usize) -> (new_pos: usize)
        requires
            old(self).bytes().len() <= isize::MAX,
        ensures
            final(self).wf(),
            final(self).chars() == old(self).chars(),
            final(self).bytes() == old(self).bytes(),
            final(self).cursor_pos() == min_nat(old(self).bytes().len(), pos as nat),
            new_pos == final(self).cursor_pos(),
    {
        let len = self.len();
        self.cursor = if len <= pos { len } else { pos };
        self.cursor
    }

    /// Adjust the cursor position by a relative amount.
    ///
    /// Returns the new cursor position.
    pub fn move_cursor_relative(&mut self, offset: isize) -> (new_pos: usize)
        requires
            old(self).bytes().len() <= isize::MAX,
            old(self).cursor_pos() <= isize::MAX,
            old(self).cursor_pos() + offset <= isize::MAX,
        ensures
            final(self).wf(),
            final(self).chars() == old(self).chars(),
            final(self).bytes() == old(self).bytes(),
            final(self).cursor_pos() == min_nat(
                old(self).bytes().len(),
                relative_target(old(self).cursor_pos() as int, offset as int) as nat,
            ),
            new_pos == final(self).cursor_pos(),
    {
        let sum: isize = self.cursor as isize + offset;
        let pos: usize = if sum > 0 { sum as usize } else { 0 };
        self.move_cursor_to(pos)
    }

    /// Move the cursor to the start of the text.
    pub fn move_to_start_of_line(&mut self)
        requires
            old(self).wf(),
        ensures
            final(self).wf(),
            final(self).chars() == old(self).chars(),
            final(self).bytes() == old(self).bytes(),
            final(self).cursor_pos() == 0,
    {
        self.move_cursor_to(0);
    }

    /// Move the cursor to the end of the text.
    pub fn move_to_end_of_line(&mut self)
        requires
            old(self).wf(),
        ensures
            final(self).wf(),
            final(self).chars() == old(self).chars(),
            final(self).bytes() == old(self).bytes(),
            final(self).cursor_pos() == old(self).bytes().len(),
    {
        let pos = self.len();
        self.move_cursor_to(pos);
    }

    /// Insert a character after the cursor.
    ///
    /// The cursor then advances by one byte, whatever the width of `c`.
    pub fn insert_char(&mut self, c: char)
        requires
            old(self).wf(),
            is_char_boundary(old(self).bytes(), old(self).cursor_pos() as int),
            old(self).bytes().len() + encode_utf8(seq![c]).len() <= isize::MAX,
        ensures
            final(self).wf(),
            final(self).bytes() == spliced(
                old(self).bytes(),
                old(self).cursor_pos() as int,
                encode_utf8(seq![c]),
            ),
            final(self).cursor_pos() == old(self).cursor_pos() + 1,
    {
        proof {
            reveal_with_fuel(encode_utf8, 2);
            vstd::utf8::char_is_scalar(c);
        }
        string_insert(&mut self.text, self.cursor, c);
        self.move_cursor_relative(1);
    }

    /// Insert a string after the cursor.
    ///
    /// The cursor then advances past the inserted bytes.
    pub fn insert_str(&mut self, string: &str)
        requires
            old(self).wf(),
            is_char_boundary(old(self).bytes(), old(self).cursor_pos() as int),
            old(self).bytes().len() + utf8_of(string@).len() <= isize::MAX,
        ensures
            final(self).wf(),
            final(self).bytes() == spliced(
                old(self).bytes(),
                old(self).cursor_pos() as int,
                utf8_of(string@),
            ),
            final(self).cursor_pos() == old(self).cursor_pos() + utf8_of(string@).len(),
    {
        let n = string.len();
        string_insert_str(&mut self.text, self.cursor, string);
        self.move_cursor_relative(n as isize);
    }

    /// Delete the character that starts one byte before the cursor, and move
    /// the cursor back by one byte.
    pub fn delete_before_cursor(&mut self)
        requires
            old(self).wf(),
            old(self).cursor_pos() > 0 ==> is_char_boundary(
                old(self).bytes(),
                old(self).cursor_pos() - 1,
            ),
        ensures
            final(self).wf(),
            old(self).cursor_pos() == 0 ==> final(self).bytes() == old(self).bytes()
                && final(self).cursor_pos() == 0,
            old(self).cursor_pos() > 0 ==> exists|ch: char|
                #[trigger] removes_char_at(
                    old(self).bytes(),
                    final(self).bytes(),
                    old(self).cursor_pos() - 1,
                    ch,
                ),
            old(self).cursor_pos() > 0 ==> final(self).cursor_pos() == old(self).cursor_pos() - 1,
    {
        if self.cursor > 0 {
            let ch = string_remove(&mut self.text, self.cursor - 1);
            self.move_cursor_relative(-1);
            assert(removes_char_at(old(self).bytes(), self.bytes(), old(self).cursor_pos() - 1, ch));
        }
    }

    /// Delete the character that starts at the cursor.
    pub fn delete_after_cursor(&mut self)
        requires
            old(self).wf(),
            old(self).cursor_pos() < old(self).bytes().len() ==> is_char_boundary(
                old(self).bytes(),
                old(self).cursor_pos() as int,
            ),
        ensures
            final(self).wf(),
            final(self).cursor_pos() == old(self).cursor_pos(),
            old(self).cursor_pos() == old(self).bytes().len() ==> final(self).bytes() == old(
                self,
            ).bytes(),
            old(self).cursor_pos() < old(self).bytes().len() ==> exists|ch: char|
                #[trigger] removes_char_at(
                    old(self).bytes(),
                    final(self).bytes(),
                    old(self).cursor_pos() as int,
                    ch,
                ),
    {
        if self.cursor < self.len() {
            let ch = string_remove(&mut self.text, self.cursor);
            assert(removes_char_at(old(self).bytes(), self.bytes(), old(self).cursor_pos() as int, ch));
        }
    }

    /// Clears the buffer text and moves the cursor to the beginning.
    pub fn clear(&mut self)
        ensures
            final(self).wf(),
            final(self).bytes() == Seq::<u8>::empty(),
            final(self).chars() == Seq::<char>::empty(),
            final(self).cursor_pos() == 0,
    {
        self.text = String::new();
        self.cursor = 0;
    }
}

} // verus!
