//! The prompt buffer: a command line and a cursor, behind the interface
//! that the prompt offers.

use crate::shell::buffer::{Buffer, min_nat, relative_target, removes_char_at, spliced};
use crate::strings::utf8_of;
use vstd::prelude::*;
use vstd::utf8::*;

verus! {

/// State of a prompt buffer.
///
/// The cursor is a byte offset into the UTF-8 encoding of the text.
pub struct Prompt {
    // Current command line buffer.
    buffer: Buffer,
}

impl Prompt {
    /// The UTF-8 encoding of the prompt text.
    pub closed spec fn bytes(&self) -> Seq<u8> {
        self.buffer.bytes()
    }

    /// The prompt text.
    pub closed spec fn chars(&self) -> Seq<char> {
        self.buffer.chars()
    }

    /// The cursor, as a byte offset into `bytes()`.
    pub closed spec fn cursor_pos(&self) -> nat {
        self.buffer.cursor_pos()
    }

    /// The cursor lies within the text, and the text fits an allocation.
    pub open spec fn wf(&self) -> bool {
        &&& self.cursor_pos() <= self.bytes().len()
        &&& self.bytes().len() <= isize::MAX
    }

    /// An empty prompt with the cursor at the start.
    pub fn new() -> (b: Self)
        ensures
            b.wf(),
            b.bytes() == Seq::<u8>::empty(),
            b.chars() == Seq::<char>::empty(),
            b.cursor_pos() == 0,
    {
        Self { buffer: Buffer::new() }
    }

    /// Get the current buffer text.
    pub fn text(&self) -> (s: &str)
        ensures
            s@ == self.chars(),
            utf8_of(s@) == self.bytes(),
    {
        self.buffer.text()
    }

    /// Take the text buffer out of the prompt.
    pub fn take_text(&mut self) -> (text: String)
        requires
            old(self).wf(),
        ensures
            final(self).wf(),
            text@ == old(self).chars(),
            utf8_of(text@) == old(self).bytes(),
            final(self).bytes() == Seq::<u8>::empty(),
            final(self).chars() == Seq::<char>::empty(),
            final(self).cursor_pos() == 0,
    {
        self.buffer.take_text()
    }

    /// Get the current cursor position.
    pub fn cursor(&self) -> (c: usize)
        ensures
            c == self.cursor_pos(),
    {
        self.buffer.cursor()
    }

    /// Move the cursor to the given position.
    ///
    /// Returns the new cursor position. The actual position may differ if the
    /// requested position was beyond the end of the buffer.
    pub fn move_cursor_to(&mut self, pos: usize) -> (new_pos: usize)
        requires
            old(self).bytes().len() <= isize::MAX,
        ensures
            final(self).wf(),
            final(self).chars() == old(self).chars(),
            final(self).bytes() == old(self).bytes(),
            final(self).cursor_pos() == min_nat(old(self).bytes().len(), pos as nat),
            new_pos == final(self).cursor_pos(),
    {
        self.buffer.move_cursor_to(pos)
    }

    /// Adjust the cursor position by a relative amount.
    ///
    /// Returns the new cursor position.
    pub fn move_cursor_relative(&mut self, offset: isize) -> (new_pos: usize)
        requires
            old(self).bytes().len() <= isize::MAX,
            old(self).cursor_pos() <= isize::MAX,
            old(self).cursor_pos() + offset <= isize::MAX,
        ensures
            final(self).wf(),
            final(self).chars() == old(self).chars(),
            final(self).bytes() == old(self).bytes(),
            final(self).cursor_pos() == min_nat(
                old(self).bytes().len(),
                relative_target(old(self).cursor_pos() as int, offset as int) as nat,
            ),
            new_pos == final(self).cursor_pos(),
    {
        self.buffer.move_cursor_relative(offset)
    }

    /// Move the cursor to the start of the text.
    pub fn move_to_start_of_line(&mut self)
        requires
            old(self).wf(),
        ensures
            final(self).wf(),
            final(self).chars() == old(self).chars(),
            final(self).bytes() == old(self).bytes(),
            final(self).cursor_pos() == 0,
    {
        self.buffer.move_to_start_of_line()
    }

    /// Move the cursor to the end of the text.
    pub fn move_to_end_of_line(&mut self)
        requires
            old(self).wf(),
        ensures
            final(self).wf(),
            final(self).chars() == old(self).chars(),
            final(self).bytes() == old(self).bytes(),
            final(self).cursor_pos() == old(self).bytes().len(),
    {
        self.buffer.move_to_end_of_line()
    }

    /// Insert a character after the cursor.
    ///
    /// The cursor then advances by one byte, whatever the width of `c`.
    pub fn insert_char(&mut self, c: char)
        requires
            old(self).wf(),
            is_char_boundary(old(self).bytes(), old(self).cursor_pos() as int),
            old(self).bytes().len() + encode_utf8(seq![c]).len() <= isize::MAX,
        ensures
            final(self).wf(),
            final(self).bytes() == spliced(
                old(self).bytes(),
                old(self).cursor_pos() as int,
                encode_utf8(seq![c]),
            ),
            final(self).cursor_pos() == old(self).cursor_pos() + 1,
    {
        self.buffer.insert_char(c)
    }

    /// Insert a string after the cursor.
    ///
    /// The cursor then advances past the inserted bytes.
    pub fn insert_str(&mut self, string: &str)
        requires
            old(self).wf(),
            is_char_boundary(old(self).bytes(), old(self).cursor_pos() as int),
            old(self).bytes().len() + utf8_of(string@).len() <= isize::MAX,
        ensures
            final(self).wf(),
            final(self).bytes() == spliced(
                old(self).bytes(),
                old(self).cursor_pos() as int,
                utf8_of(string@),
            ),
            final(self).cursor_pos() == old(self).cursor_pos() + utf8_of(string@).len(),
    {
        self.buffer.insert_str(string)
    }

    /// Delete the character that starts one byte before the cursor, and move
    /// the cursor back by one byte.
    pub fn delete_before_cursor(&mut self)
        requires
            old(self).wf(),
            old(self).cursor_pos() > 0 ==> is_char_boundary(
                old(self).bytes(),
                old(self).cursor_pos() - 1,
            ),
        ensures
            final(self).wf(),
            old(self).cursor_pos() == 0 ==> final(self).bytes() == old(self).bytes()
                && final(self).cursor_pos() == 0,
            old(self).cursor_pos() > 0 ==> exists|ch: char|
                #[trigger] removes_char_at(
                    old(self).bytes(),
                    final(self).bytes(),
                    old(self).cursor_pos() - 1,
                    ch,
                ),
            old(self).cursor_pos() > 0 ==> final(self).cursor_pos() == old(self).cursor_pos() - 1,
    {
        self.buffer.delete_before_cursor()
    }

    /// Delete the character that starts at the cursor.
    pub fn delete_after_cursor(&mut self)
        requires
            old(self).wf(),
            old(self).cursor_pos() < old(self).bytes().len() ==> is_char_boundary(
                old(self).bytes(),
                old(self).cursor_pos() as int,
            ),
        ensures
            final(self).wf(),
            final(self).cursor_pos() == old(self).cursor_pos(),
            old(self).cursor_pos() == old(self).bytes().len() ==> final(self).bytes() == old(
                self,
            ).bytes(),
            old(self).cursor_pos() < old(self).bytes().len() ==> exists|ch: char|
                #[trigger] removes_char_at(
                    old(self).bytes(),
                    final(self).bytes(),
                    old(self).cursor_pos() as int,
                    ch,
                ),
    {
        self.buffer.delete_after_cursor()
    }

    /// Clears the buffer text and moves the cursor to the beginning.
    pub fn clear(&mut self)
        ensures
            final(self).wf(),
            final(self).bytes() == Seq::<u8>::empty(),
            final(self).chars() == Seq::<char>::empty(),
            final(self).cursor_pos() == 0,
    {
        self.buffer.clear()
    }}

} // verus!
