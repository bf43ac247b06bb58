//! The interactive front end of the shell.

pub mod buffer;
pub mod prompt;
pub mod completion;
pub mod editor;
pub mod terminal;
pub mod theme;
