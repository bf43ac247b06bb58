//! The script language of the second shell generation.

pub mod parser;
