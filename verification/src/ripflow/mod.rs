//! The byte-oriented front end of the ripflow language: scanner, file map,
//! lexer, parser and runtime representation.

pub mod ast;
pub mod filemap;
pub mod lexer;
pub mod parser;
pub mod reader;
pub mod rr;
pub mod scanner;
