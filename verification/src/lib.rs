//! Riptide: the verified core of an interactive shell and its script language.

pub mod builtins;
pub mod exit;
pub mod expr;
pub mod history;
pub mod parser;
pub mod sexpr;
pub mod io;
pub mod logger;
pub mod ripflow;
pub mod riptide;
pub mod shell;
pub mod strings;
pub mod interpreter;
