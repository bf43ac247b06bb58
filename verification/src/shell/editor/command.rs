//! Commands that change what the terminal shows.

use vstd::prelude::*;

verus! {

/// A change to the terminal screen.
#[derive(Clone, Copy, Debug, Eq, PartialEq, Structural)]
pub enum Command {
    /// Clear the whole screen.
    Clear,
    /// Clear from the cursor to the end of the screen.
    ClearAfterCursor,
    /// Move the cursor left by a number of columns.
    MoveCursorLeft(usize),
    /// Move the cursor to a row and a column, both counted from 1.
    MoveCursorToAbsolute(usize, usize),
    /// Switch to the alternate screen buffer.
    EnableAlternateBuffer,
    /// Switch back to the normal screen buffer.
    DisableAlternateBuffer,
}

} // verus!
