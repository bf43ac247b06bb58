//! Definition of builtin functions.
//!
//! The builtins that compute a value from their arguments are here in full.
//! Those that evaluate their arguments themselves (`begin`, `catch`, `def`,
//! `if`) are here as the decision they make on what was evaluated; those that
//! act on the process or its streams are run by the caller.

use crate::expr::{copy_of, str_eq, Expression};
use crate::interpreter::{Exception, StackFrame};
use vstd::prelude::*;

verus! {

/// A builtin function.
#[derive(Clone, Copy, Debug, PartialEq, Eq, Structural)]
pub enum Builtin {
    Equal,
    And,
    Args,
    Begin,
    Builtin,
    Capture,
    Catch,
    Cd,
    Command,
    Crush,
    Def,
    Env,
    Exec,
    Exit,
    First,
    Help,
    If,
    List,
    Not,
    Nth,
    Pipe,
    Print,
    Pwd,
    Quote,
    Raise,
    Source,
    Tail,
}

/// The builtin that a name stands for, if any.
pub open spec fn builtin_named(name: Seq<char>) -> Option<Builtin> {
    if name == "="@ {
        Some(Builtin::Equal)
    } else if name == "and"@ {
        Some(Builtin::And)
    } else if name == "args"@ {
        Some(Builtin::Args)
    } else if name == "begin"@ {
        Some(Builtin::Begin)
    } else if name == "builtin"@ {
        Some(Builtin::Builtin)
    } else if name == "capture"@ || name == "$"@ {
        Some(Builtin::Capture)
    } else if name == "catch"@ {
        Some(Builtin::Catch)
    } else if name == "cd"@ {
        Some(Builtin::Cd)
    } else if name == "command"@ {
        Some(Builtin::Command)
    } else if name == "crush"@ {
        Some(Builtin::Crush)
    } else if name == "def"@ {
        Some(Builtin::Def)
    } else if name == "env"@ {
        Some(Builtin::Env)
    } else if name == "exec"@ {
        Some(Builtin::Exec)
    } else if name == "exit"@ {
        Some(Builtin::Exit)
    } else if name == "first"@ {
        Some(Builtin::First)
    } else if name == "help"@ {
        Some(Builtin::Help)
    } else if name == "if"@ {
        Some(Builtin::If)
    } else if name == "list"@ {
        Some(Builtin::List)
    } else if name == "not"@ {
        Some(Builtin::Not)
    } else if name == "nth"@ {
        Some(Builtin::Nth)
    } else if name == "pipe"@ || name == "|"@ {
        Some(Builtin::Pipe)
    } else if name == "print"@ || name == "echo"@ {
        Some(Builtin::Print)
    } else if name == "pwd"@ {
        Some(Builtin::Pwd)
    } else if name == "quote"@ {
        Some(Builtin::Quote)
    } else if name == "raise"@ {
        Some(Builtin::Raise)
    } else if name == "source"@ {
        Some(Builtin::Source)
    } else if name == "tail"@ {
        Some(Builtin::Tail)
    } else {
        None
    }
}

/// Lookup a builtin function by name.
pub fn lookup(name: &str) -> (r: Option<Builtin>)
    ensures
        r == builtin_named(name@),
{
    if str_eq(name, "=") {
        Some(Builtin::Equal)
    } else if str_eq(name, "and") {
        Some(Builtin::And)
    } else if str_eq(name, "args") {
        Some(Builtin::Args)
    } else if str_eq(name, "begin") {
        Some(Builtin::Begin)
    } else if str_eq(name, "builtin") {
        Some(Builtin::Builtin)
    } else if str_eq(name, "capture") || str_eq(name, "$") {
        Some(Builtin::Capture)
    } else if str_eq(name, "catch") {
        Some(Builtin::Catch)
    } else if str_eq(name, "cd") {
        Some(Builtin::Cd)
    } else if str_eq(name, "command") {
        Some(Builtin::Command)
    } else if str_eq(name, "crush") {
        Some(Builtin::Crush)
    } else if str_eq(name, "def") {
        Some(Builtin::Def)
    } else if str_eq(name, "env") {
        Some(Builtin::Env)
    } else if str_eq(name, "exec") {
        Some(Builtin::Exec)
    } else if str_eq(name, "exit") {
        Some(Builtin::Exit)
    } else if str_eq(name, "first") {
        Some(Builtin::First)
    } else if str_eq(name, "help") {
        Some(Builtin::Help)
    } else if str_eq(name, "if") {
        Some(Builtin::If)
    } else if str_eq(name, "list") {
        Some(Builtin::List)
    } else if str_eq(name, "not") {
        Some(Builtin::Not)
    } else if str_eq(name, "nth") {
        Some(Builtin::Nth)
    } else if str_eq(name, "pipe") || str_eq(name, "|") {
        Some(Builtin::Pipe)
    } else if str_eq(name, "print") || str_eq(name, "echo") {
        Some(Builtin::Print)
    } else if str_eq(name, "pwd") {
        Some(Builtin::Pwd)
    } else if str_eq(name, "quote") {
        Some(Builtin::Quote)
    } else if str_eq(name, "raise") {
        Some(Builtin::Raise)
    } else if str_eq(name, "source") {
        Some(Builtin::Source)
    } else if str_eq(name, "tail") {
        Some(Builtin::Tail)
    } else {
        None
    }
}

impl Builtin {
    /// Whether the builtin gets its arguments unevaluated.
    pub open spec fn lazy(self) -> bool {
        match self {
            Builtin::Begin | Builtin::Capture | Builtin::Catch | Builtin::Def | Builtin::If
            | Builtin::Pipe | Builtin::Quote => true,
            _ => false,
        }
    }

    /// Whether this function's arguments are evaluated lazily: those of
    /// `begin`, `capture`, `catch`, `def`, `if`, `pipe` and `quote` are.
    pub fn lazy_args(&self) -> (r: bool)
        ensures
            r == self.lazy(),
    {
        match self {
            Builtin::Begin | Builtin::Capture | Builtin::Catch | Builtin::Def | Builtin::If
            | Builtin::Pipe | Builtin::Quote => true,
            _ => false,
        }
    }
}

/// The builtins documented to take their arguments unevaluated, like macros.
pub open spec fn documented_lazy() -> Seq<Builtin> {
    seq![
        Builtin::Begin,
        Builtin::Capture,
        Builtin::Catch,
        Builtin::Def,
        Builtin::If,
        Builtin::Pipe,
        Builtin::Quote,
    ]
}

/// A builtin gets its arguments unevaluated exactly when it is one of
/// `begin`, `capture`, `catch`, `def`, `if`, `pipe` and `quote`; every other
/// builtin gets them evaluated.
pub proof fn lemma_lazy_builtins(b: Builtin)
    ensures
        b.lazy() <==> documented_lazy().contains(b),
{
    let t = documented_lazy();
    assert(t[0] == Builtin::Begin);
    assert(t[1] == Builtin::Capture);
    assert(t[2] == Builtin::Catch);
    assert(t[3] == Builtin::Def);
    assert(t[4] == Builtin::If);
    assert(t[5] == Builtin::Pipe);
    assert(t[6] == Builtin::Quote);
    if t.contains(b) {
        let i = choose|i: int| 0 <= i < t.len() && t[i] == b;
        assert(0 <= i < 7);
    }
}

/// The documented names of the builtins, each beside the builtin it names.
pub open spec fn documented_names() -> Seq<(Seq<char>, Builtin)> {
    seq![
        ("="@, Builtin::Equal),
        ("and"@, Builtin::And),
        ("args"@, Builtin::Args),
        ("begin"@, Builtin::Begin),
        ("builtin"@, Builtin::Builtin),
        ("capture"@, Builtin::Capture),
        ("$"@, Builtin::Capture),
        ("catch"@, Builtin::Catch),
        ("cd"@, Builtin::Cd),
        ("command"@, Builtin::Command),
        ("crush"@, Builtin::Crush),
        ("def"@, Builtin::Def),
        ("env"@, Builtin::Env),
        ("exec"@, Builtin::Exec),
        ("exit"@, Builtin::Exit),
        ("first"@, Builtin::First),
        ("help"@, Builtin::Help),
        ("if"@, Builtin::If),
        ("list"@, Builtin::List),
        ("not"@, Builtin::Not),
        ("nth"@, Builtin::Nth),
        ("pipe"@, Builtin::Pipe),
        ("|"@, Builtin::Pipe),
        ("print"@, Builtin::Print),
        ("echo"@, Builtin::Print),
        ("pwd"@, Builtin::Pwd),
        ("quote"@, Builtin::Quote),
        ("raise"@, Builtin::Raise),
        ("source"@, Builtin::Source),
        ("tail"@, Builtin::Tail),
    ]
}

/// Each documented name names its builtin, and no other name names one.
pub proof fn lemma_builtin_names(name: Seq<char>)
    ensures
        forall|i: int|
            0 <= i < documented_names().len() ==> builtin_named(#[trigger] documented_names()[i].0)
                == Some(documented_names()[i].1),
        (forall|i: int| 0 <= i < documented_names().len() ==> documented_names()[i].0 != name)
            ==> builtin_named(name) is None,
{
    reveal_strlit("=");
    reveal_strlit("and");
    reveal_strlit("args");
    reveal_strlit("begin");
    reveal_strlit("builtin");
    reveal_strlit("capture");
    reveal_strlit("$");
    reveal_strlit("catch");
    reveal_strlit("cd");
    reveal_strlit("command");
    reveal_strlit("crush");
    reveal_strlit("def");
    reveal_strlit("env");
    reveal_strlit("exec");
    reveal_strlit("exit");
    reveal_strlit("first");
    reveal_strlit("help");
    reveal_strlit("if");
    reveal_strlit("list");
    reveal_strlit("not");
    reveal_strlit("nth");
    reveal_strlit("pipe");
    reveal_strlit("|");
    reveal_strlit("print");
    reveal_strlit("echo");
    reveal_strlit("pwd");
    reveal_strlit("quote");
    reveal_strlit("raise");
    reveal_strlit("source");
    reveal_strlit("tail");
    let t = documented_names();
    assert forall|i: int| 0 <= i < t.len() implies builtin_named(#[trigger] t[i].0) == Some(
        t[i].1,
    ) by {
        if i == 0 {
            assert(builtin_named(t[0].0) == Some(t[0].1));
        } else if i == 1 {
            assert("and"@.len() == 3 && "="@.len() == 1);
            assert(builtin_named(t[1].0) == Some(t[1].1));
        } else if i == 2 {
            assert("args"@.len() == 4 && "="@.len() == 1);
            assert("args"@.len() == 4 && "and"@.len() == 3);
            assert(builtin_named(t[2].0) == Some(t[2].1));
        } else if i == 3 {
            assert("begin"@.len() == 5 && "="@.len() == 1);
            assert("begin"@.len() == 5 && "and"@.len() == 3);
            assert("begin"@.len() == 5 && "args"@.len() == 4);
            assert(builtin_named(t[3].0) == Some(t[3].1));
        } else if i == 4 {
            assert("builtin"@.len() == 7 && "="@.len() == 1);
            assert("builtin"@.len() == 7 && "and"@.len() == 3);
            assert("builtin"@.len() == 7 && "args"@.len() == 4);
            assert("builtin"@.len() == 7 && "begin"@.len() == 5);
            assert(builtin_named(t[4].0) == Some(t[4].1));
        } else if i == 5 {
            assert("capture"@.len() == 7 && "="@.len() == 1);
            assert("capture"@.len() == 7 && "and"@.len() == 3);
            assert("capture"@.len() == 7 && "args"@.len() == 4);
            assert("capture"@.len() == 7 && "begin"@.len() == 5);
            assert("capture"@[0] == 'c' && "builtin"@[0] == 'b');
            assert(builtin_named(t[5].0) == Some(t[5].1));
        } else if i == 6 {
            assert("$"@[0] == '$' && "="@[0] == '=');
            assert("$"@.len() == 1 && "and"@.len() == 3);
            assert("$"@.len() == 1 && "args"@.len() == 4);
            assert("$"@.len() == 1 && "begin"@.len() == 5);
            assert("$"@.len() == 1 && "builtin"@.len() == 7);
            assert("$"@.len() == 1 && "capture"@.len() == 7);
            assert(builtin_named(t[6].0) == Some(t[6].1));
        } else if i == 7 {
            assert("catch"@.len() == 5 && "="@.len() == 1);
            assert("catch"@.len() == 5 && "and"@.len() == 3);
            assert("catch"@.len() == 5 && "args"@.len() == 4);
            assert("catch"@[0] == 'c' && "begin"@[0] == 'b');
            assert("catch"@.len() == 5 && "builtin"@.len() == 7);
            assert("catch"@.len() == 5 && "capture"@.len() == 7);
            assert("catch"@.len() == 5 && "$"@.len() == 1);
            assert(builtin_named(t[7].0) == Some(t[7].1));
        } else if i == 8 {
            assert("cd"@.len() == 2 && "="@.len() == 1);
            assert("cd"@.len() == 2 && "and"@.len() == 3);
            assert("cd"@.len() == 2 && "args"@.len() == 4);
            assert("cd"@.len() == 2 && "begin"@.len() == 5);
            assert("cd"@.len() == 2 && "builtin"@.len() == 7);
            assert("cd"@.len() == 2 && "capture"@.len() == 7);
            assert("cd"@.len() == 2 && "$"@.len() == 1);
            assert("cd"@.len() == 2 && "catch"@.len() == 5);
            assert(builtin_named(t[8].0) == Some(t[8].1));
        } else if i == 9 {
            assert("command"@.len() == 7 && "="@.len() == 1);
            assert("command"@.len() == 7 && "and"@.len() == 3);
            assert("command"@.len() == 7 && "args"@.len() == 4);
            assert("command"@.len() == 7 && "begin"@.len() == 5);
            assert("command"@[0] == 'c' && "builtin"@[0] == 'b');
            assert("command"@[1] == 'o' && "capture"@[1] == 'a');
            assert("command"@.len() == 7 && "$"@.len() == 1);
            assert("command"@.len() == 7 && "catch"@.len() == 5);
            assert("command"@.len() == 7 && "cd"@.len() == 2);
            assert(builtin_named(t[9].0) == Some(t[9].1));
        } else if i == 10 {
            assert("crush"@.len() == 5 && "="@.len() == 1);
            assert("crush"@.len() == 5 && "and"@.len() == 3);
            assert("crush"@.len() == 5 && "args"@.len() == 4);
            assert("crush"@[0] == 'c' && "begin"@[0] == 'b');
            assert("crush"@.len() == 5 && "builtin"@.len() == 7);
            assert("crush"@.len() == 5 && "capture"@.len() == 7);
            assert("crush"@.len() == 5 && "$"@.len() == 1);
            assert("crush"@[1] == 'r' && "catch"@[1] == 'a');
            assert("crush"@.len() == 5 && "cd"@.len() == 2);
            assert("crush"@.len() == 5 && "command"@.len() == 7);
            assert(builtin_named(t[10].0) == Some(t[10].1));
        } else if i == 11 {
            assert("def"@.len() == 3 && "="@.len() == 1);
            assert("def"@[0] == 'd' && "and"@[0] == 'a');
            assert("def"@.len() == 3 && "args"@.len() == 4);
            assert("def"@.len() == 3 && "begin"@.len() == 5);
            assert("def"@.len() == 3 && "builtin"@.len() == 7);
            assert("def"@.len() == 3 && "capture"@.len() == 7);
            assert("def"@.len() == 3 && "$"@.len() == 1);
            assert("def"@.len() == 3 && "catch"@.len() == 5);
            assert("def"@.len() == 3 && "cd"@.len() == 2);
            assert("def"@.len() == 3 && "command"@.len() == 7);
            assert("def"@.len() == 3 && "crush"@.len() == 5);
            assert(builtin_named(t[11].0) == Some(t[11].1));
        } else if i == 12 {
            assert("env"@.len() == 3 && "="@.len() == 1);
            assert("env"@[0] == 'e' && "and"@[0] == 'a');
            assert("env"@.len() == 3 && "args"@.len() == 4);
            assert("env"@.len() == 3 && "begin"@.len() == 5);
            assert("env"@.len() == 3 && "builtin"@.len() == 7);
            assert("env"@.len() == 3 && "capture"@.len() == 7);
            assert("env"@.len() == 3 && "$"@.len() == 1);
            assert("env"@.len() == 3 && "catch"@.len() == 5);
            assert("env"@.len() == 3 && "cd"@.len() == 2);
            assert("env"@.len() == 3 && "command"@.len() == 7);
            assert("env"@.len() == 3 && "crush"@.len() == 5);
            assert("env"@[0] == 'e' && "def"@[0] == 'd');
            assert(builtin_named(t[12].0) == Some(t[12].1));
        } else if i == 13 {
            assert("exec"@.len() == 4 && "="@.len() == 1);
            assert("exec"@.len() == 4 && "and"@.len() == 3);
            assert("exec"@[0] == 'e' && "args"@[0] == 'a');
            assert("exec"@.len() == 4 && "begin"@.len() == 5);
            assert("exec"@.len() == 4 && "builtin"@.len() == 7);
            assert("exec"@.len() == 4 && "capture"@.len() == 7);
            assert("exec"@.len() == 4 && "$"@.len() == 1);
            assert("exec"@.len() == 4 && "catch"@.len() == 5);
            assert("exec"@.len() == 4 && "cd"@.len() == 2);
            assert("exec"@.len() == 4 && "command"@.len() == 7);
            assert("exec"@.len() == 4 && "crush"@.len() == 5);
            assert("exec"@.len() == 4 && "def"@.len() == 3);
            assert("exec"@.len() == 4 && "env"@.len() == 3);
            assert(builtin_named(t[13].0) == Some(t[13].1));
        } else if i == 14 {
            assert("exit"@.len() == 4 && "="@.len() == 1);
            assert("exit"@.len() == 4 && "and"@.len() == 3);
            assert("exit"@[0] == 'e' && "args"@[0] == 'a');
            assert("exit"@.len() == 4 && "begin"@.len() == 5);
            assert("exit"@.len() == 4 && "builtin"@.len() == 7);
            assert("exit"@.len() == 4 && "capture"@.len() == 7);
            assert("exit"@.len() == 4 && "$"@.len() == 1);
            assert("exit"@.len() == 4 && "catch"@.len() == 5);
            assert("exit"@.len() == 4 && "cd"@.len() == 2);
            assert("exit"@.len() == 4 && "command"@.len() == 7);
            assert("exit"@.len() == 4 && "crush"@.len() == 5);
            assert("exit"@.len() == 4 && "def"@.len() == 3);
            assert("exit"@.len() == 4 && "env"@.len() == 3);
            assert("exit"@[2] == 'i' && "exec"@[2] == 'e');
            assert(builtin_named(t[14].0) == Some(t[14].1));
        } else if i == 15 {
            assert("first"@.len() == 5 && "="@.len() == 1);
            assert("first"@.len() == 5 && "and"@.len() == 3);
            assert("first"@.len() == 5 && "args"@.len() == 4);
            assert("first"@[0] == 'f' && "begin"@[0] == 'b');
            assert("first"@.len() == 5 && "builtin"@.len() == 7);
            assert("first"@.len() == 5 && "capture"@.len() == 7);
            assert("first"@.len() == 5 && "$"@.len() == 1);
            assert("first"@[0] == 'f' && "catch"@[0] == 'c');
            assert("first"@.len() == 5 && "cd"@.len() == 2);
            assert("first"@.len() == 5 && "command"@.len() == 7);
            assert("first"@[0] == 'f' && "crush"@[0] == 'c');
            assert("first"@.len() == 5 && "def"@.len() == 3);
            assert("first"@.len() == 5 && "env"@.len() == 3);
            assert("first"@.len() == 5 && "exec"@.len() == 4);
            assert("first"@.len() == 5 && "exit"@.len() == 4);
            assert(builtin_named(t[15].0) == Some(t[15].1));
        } else if i == 16 {
            assert("help"@.len() == 4 && "="@.len() == 1);
            assert("help"@.len() == 4 && "and"@.len() == 3);
            assert("help"@[0] == 'h' && "args"@[0] == 'a');
            assert("help"@.len() == 4 && "begin"@.len() == 5);
            assert("help"@.len() == 4 && "builtin"@.len() == 7);
            assert("help"@.len() == 4 && "capture"@.len() == 7);
            assert("help"@.len() == 4 && "$"@.len() == 1);
            assert("help"@.len() == 4 && "catch"@.len() == 5);
            assert("help"@.len() == 4 && "cd"@.len() == 2);
            assert("help"@.len() == 4 && "command"@.len() == 7);
            assert("help"@.len() == 4 && "crush"@.len() == 5);
            assert("help"@.len() == 4 && "def"@.len() == 3);
            assert("help"@.len() == 4 && "env"@.len() == 3);
            assert("help"@[0] == 'h' && "exec"@[0] == 'e');
            assert("help"@[0] == 'h' && "exit"@[0] == 'e');
            assert("help"@.len() == 4 && "first"@.len() == 5);
            assert(builtin_named(t[16].0) == Some(t[16].1));
        } else if i == 17 {
            assert("if"@.len() == 2 && "="@.len() == 1);
            assert("if"@.len() == 2 && "and"@.len() == 3);
            assert("if"@.len() == 2 && "args"@.len() == 4);
            assert("if"@.len() == 2 && "begin"@.len() == 5);
            assert("if"@.len() == 2 && "builtin"@.len() == 7);
            assert("if"@.len() == 2 && "capture"@.len() == 7);
            assert("if"@.len() == 2 && "$"@.len() == 1);
            assert("if"@.len() == 2 && "catch"@.len() == 5);
            assert("if"@[0] == 'i' && "cd"@[0] == 'c');
            assert("if"@.len() == 2 && "command"@.len() == 7);
            assert("if"@.len() == 2 && "crush"@.len() == 5);
            assert("if"@.len() == 2 && "def"@.len() == 3);
            assert("if"@.len() == 2 && "env"@.len() == 3);
            assert("if"@.len() == 2 && "exec"@.len() == 4);
            assert("if"@.len() == 2 && "exit"@.len() == 4);
            assert("if"@.len() == 2 && "first"@.len() == 5);
            assert("if"@.len() == 2 && "help"@.len() == 4);
            assert(builtin_named(t[17].0) == Some(t[17].1));
        } else if i == 18 {
            assert("list"@.len() == 4 && "="@.len() == 1);
            assert("list"@.len() == 4 && "and"@.len() == 3);
            assert("list"@[0] == 'l' && "args"@[0] == 'a');
            assert("list"@.len() == 4 && "begin"@.len() == 5);
            assert("list"@.len() == 4 && "builtin"@.len() == 7);
            assert("list"@.len() == 4 && "capture"@.len() == 7);
            assert("list"@.len() == 4 && "$"@.len() == 1);
            assert("list"@.len() == 4 && "catch"@.len() == 5);
            assert("list"@.len() == 4 && "cd"@.len() == 2);
            assert("list"@.len() == 4 && "command"@.len() == 7);
            assert("list"@.len() == 4 && "crush"@.len() == 5);
            assert("list"@.len() == 4 && "def"@.len() == 3);
            assert("list"@.len() == 4 && "env"@.len() == 3);
            assert("list"@[0] == 'l' && "exec"@[0] == 'e');
            assert("list"@[0] == 'l' && "exit"@[0] == 'e');
            assert("list"@.len() == 4 && "first"@.len() == 5);
            assert("list"@[0] == 'l' && "help"@[0] == 'h');
            assert("list"@.len() == 4 && "if"@.len() == 2);
            assert(builtin_named(t[18].0) == Some(t[18].1));
        } else if i == 19 {
            assert("not"@.len() == 3 && "="@.len() == 1);
            assert("not"@[0] == 'n' && "and"@[0] == 'a');
            assert("not"@.len() == 3 && "args"@.len() == 4);
            assert("not"@.len() == 3 && "begin"@.len() == 5);
            assert("not"@.len() == 3 && "builtin"@.len() == 7);
            assert("not"@.len() == 3 && "capture"@.len() == 7);
            assert("not"@.len() == 3 && "$"@.len() == 1);
            assert("not"@.len() == 3 && "catch"@.len() == 5);
            assert("not"@.len() == 3 && "cd"@.len() == 2);
            assert("not"@.len() == 3 && "command"@.len() == 7);
            assert("not"@.len() == 3 && "crush"@.len() == 5);
            assert("not"@[0] == 'n' && "def"@[0] == 'd');
            assert("not"@[0] == 'n' && "env"@[0] == 'e');
            assert("not"@.len() == 3 && "exec"@.len() == 4);
            assert("not"@.len() == 3 && "exit"@.len() == 4);
            assert("not"@.len() == 3 && "first"@.len() == 5);
            assert("not"@.len() == 3 && "help"@.len() == 4);
            assert("not"@.len() == 3 && "if"@.len() == 2);
            assert("not"@.len() == 3 && "list"@.len() == 4);
            assert(builtin_named(t[19].0) == Some(t[19].1));
        } else if i == 20 {
            assert("nth"@.len() == 3 && "="@.len() == 1);
            assert("nth"@[0] == 'n' && "and"@[0] == 'a');
            assert("nth"@.len() == 3 && "args"@.len() == 4);
            assert("nth"@.len() == 3 && "begin"@.len() == 5);
            assert("nth"@.len() == 3 && "builtin"@.len() == 7);
            assert("nth"@.len() == 3 && "capture"@.len() == 7);
            assert("nth"@.len() == 3 && "$"@.len() == 1);
            assert("nth"@.len() == 3 && "catch"@.len() == 5);
            assert("nth"@.len() == 3 && "cd"@.len() == 2);
            assert("nth"@.len() == 3 && "command"@.len() == 7);
            assert("nth"@.len() == 3 && "crush"@.len() == 5);
            assert("nth"@[0] == 'n' && "def"@[0] == 'd');
            assert("nth"@[0] == 'n' && "env"@[0] == 'e');
            assert("nth"@.len() == 3 && "exec"@.len() == 4);
            assert("nth"@.len() == 3 && "exit"@.len() == 4);
            assert("nth"@.len() == 3 && "first"@.len() == 5);
            assert("nth"@.len() == 3 && "help"@.len() == 4);
            assert("nth"@.len() == 3 && "if"@.len() == 2);
            assert("nth"@.len() == 3 && "list"@.len() == 4);
            assert("nth"@[1] == 't' && "not"@[1] == 'o');
            assert(builtin_named(t[20].0) == Some(t[20].1));
        } else if i == 21 {
            assert("pipe"@.len() == 4 && "="@.len() == 1);
            assert("pipe"@.len() == 4 && "and"@.len() == 3);
            assert("pipe"@[0] == 'p' && "args"@[0] == 'a');
            assert("pipe"@.len() == 4 && "begin"@.len() == 5);
            assert("pipe"@.len() == 4 && "builtin"@.len() == 7);
            assert("pipe"@.len() == 4 && "capture"@.len() == 7);
            assert("pipe"@.len() == 4 && "$"@.len() == 1);
            assert("pipe"@.len() == 4 && "catch"@.len() == 5);
            assert("pipe"@.len() == 4 && "cd"@.len() == 2);
            assert("pipe"@.len() == 4 && "command"@.len() == 7);
            assert("pipe"@.len() == 4 && "crush"@.len() == 5);
            assert("pipe"@.len() == 4 && "def"@.len() == 3);
            assert("pipe"@.len() == 4 && "env"@.len() == 3);
            assert("pipe"@[0] == 'p' && "exec"@[0] == 'e');
            assert("pipe"@[0] == 'p' && "exit"@[0] == 'e');
            assert("pipe"@.len() == 4 && "first"@.len() == 5);
            assert("pipe"@[0] == 'p' && "help"@[0] == 'h');
            assert("pipe"@.len() == 4 && "if"@.len() == 2);
            assert("pipe"@[0] == 'p' && "list"@[0] == 'l');
            assert("pipe"@.len() == 4 && "not"@.len() == 3);
            assert("pipe"@.len() == 4 && "nth"@.len() == 3);
            assert(builtin_named(t[21].0) == Some(t[21].1));
        } else if i == 22 {
            assert("|"@[0] == '|' && "="@[0] == '=');
            assert("|"@.len() == 1 && "and"@.len() == 3);
            assert("|"@.len() == 1 && "args"@.len() == 4);
            assert("|"@.len() == 1 && "begin"@.len() == 5);
            assert("|"@.len() == 1 && "builtin"@.len() == 7);
            assert("|"@.len() == 1 && "capture"@.len() == 7);
            assert("|"@[0] == '|' && "$"@[0] == '$');
            assert("|"@.len() == 1 && "catch"@.len() == 5);
            assert("|"@.len() == 1 && "cd"@.len() == 2);
            assert("|"@.len() == 1 && "command"@.len() == 7);
            assert("|"@.len() == 1 && "crush"@.len() == 5);
            assert("|"@.len() == 1 && "def"@.len() == 3);
            assert("|"@.len() == 1 && "env"@.len() == 3);
            assert("|"@.len() == 1 && "exec"@.len() == 4);
            assert("|"@.len() == 1 && "exit"@.len() == 4);
            assert("|"@.len() == 1 && "first"@.len() == 5);
            assert("|"@.len() == 1 && "help"@.len() == 4);
            assert("|"@.len() == 1 && "if"@.len() == 2);
            assert("|"@.len() == 1 && "list"@.len() == 4);
            assert("|"@.len() == 1 && "not"@.len() == 3);
            assert("|"@.len() == 1 && "nth"@.len() == 3);
            assert("|"@.len() == 1 && "pipe"@.len() == 4);
            assert(builtin_named(t[22].0) == Some(t[22].1));
        } else if i == 23 {
            assert("print"@.len() == 5 && "="@.len() == 1);
            assert("print"@.len() == 5 && "and"@.len() == 3);
            assert("print"@.len() == 5 && "args"@.len() == 4);
            assert("print"@[0] == 'p' && "begin"@[0] == 'b');
            assert("print"@.len() == 5 && "builtin"@.len() == 7);
            assert("print"@.len() == 5 && "capture"@.len() == 7);
            assert("print"@.len() == 5 && "$"@.len() == 1);
            assert("print"@[0] == 'p' && "catch"@[0] == 'c');
            assert("print"@.len() == 5 && "cd"@.len() == 2);
            assert("print"@.len() == 5 && "command"@.len() == 7);
            assert("print"@[0] == 'p' && "crush"@[0] == 'c');
            assert("print"@.len() == 5 && "def"@.len() == 3);
            assert("print"@.len() == 5 && "env"@.len() == 3);
            assert("print"@.len() == 5 && "exec"@.len() == 4);
            assert("print"@.len() == 5 && "exit"@.len() == 4);
            assert("print"@[0] == 'p' && "first"@[0] == 'f');
            assert("print"@.len() == 5 && "help"@.len() == 4);
            assert("print"@.len() == 5 && "if"@.len() == 2);
            assert("print"@.len() == 5 && "list"@.len() == 4);
            assert("print"@.len() == 5 && "not"@.len() == 3);
            assert("print"@.len() == 5 && "nth"@.len() == 3);
            assert("print"@.len() == 5 && "pipe"@.len() == 4);
            assert("print"@.len() == 5 && "|"@.len() == 1);
            assert(builtin_named(t[23].0) == Some(t[23].1));
        } else if i == 24 {
            assert("echo"@.len() == 4 && "="@.len() == 1);
            assert("echo"@.len() == 4 && "and"@.len() == 3);
            assert("echo"@[0] == 'e' && "args"@[0] == 'a');
            assert("echo"@.len() == 4 && "begin"@.len() == 5);
            assert("echo"@.len() == 4 && "builtin"@.len() == 7);
            assert("echo"@.len() == 4 && "capture"@.len() == 7);
            assert("echo"@.len() == 4 && "$"@.len() == 1);
            assert("echo"@.len() == 4 && "catch"@.len() == 5);
            assert("echo"@.len() == 4 && "cd"@.len() == 2);
            assert("echo"@.len() == 4 && "command"@.len() == 7);
            assert("echo"@.len() == 4 && "crush"@.len() == 5);
            assert("echo"@.len() == 4 && "def"@.len() == 3);
            assert("echo"@.len() == 4 && "env"@.len() == 3);
            assert("echo"@[1] == 'c' && "exec"@[1] == 'x');
            assert("echo"@[1] == 'c' && "exit"@[1] == 'x');
            assert("echo"@.len() == 4 && "first"@.len() == 5);
            assert("echo"@[0] == 'e' && "help"@[0] == 'h');
            assert("echo"@.len() == 4 && "if"@.len() == 2);
            assert("echo"@[0] == 'e' && "list"@[0] == 'l');
            assert("echo"@.len() == 4 && "not"@.len() == 3);
            assert("echo"@.len() == 4 && "nth"@.len() == 3);
            assert("echo"@[0] == 'e' && "pipe"@[0] == 'p');
            assert("echo"@.len() == 4 && "|"@.len() == 1);
            assert("echo"@.len() == 4 && "print"@.len() == 5);
            assert(builtin_named(t[24].0) == Some(t[24].1));
        } else if i == 25 {
            assert("pwd"@.len() == 3 && "="@.len() == 1);
            assert("pwd"@[0] == 'p' && "and"@[0] == 'a');
            assert("pwd"@.len() == 3 && "args"@.len() == 4);
            assert("pwd"@.len() == 3 && "begin"@.len() == 5);
            assert("pwd"@.len() == 3 && "builtin"@.len() == 7);
            assert("pwd"@.len() == 3 && "capture"@.len() == 7);
            assert("pwd"@.len() == 3 && "$"@.len() == 1);
            assert("pwd"@.len() == 3 && "catch"@.len() == 5);
            assert("pwd"@.len() == 3 && "cd"@.len() == 2);
            assert("pwd"@.len() == 3 && "command"@.len() == 7);
            assert("pwd"@.len() == 3 && "crush"@.len() == 5);
            assert("pwd"@[0] == 'p' && "def"@[0] == 'd');
            assert("pwd"@[0] == 'p' && "env"@[0] == 'e');
            assert("pwd"@.len() == 3 && "exec"@.len() == 4);
            assert("pwd"@.len() == 3 && "exit"@.len() == 4);
            assert("pwd"@.len() == 3 && "first"@.len() == 5);
            assert("pwd"@.len() == 3 && "help"@.len() == 4);
            assert("pwd"@.len() == 3 && "if"@.len() == 2);
            assert("pwd"@.len() == 3 && "list"@.len() == 4);
            assert("pwd"@[0] == 'p' && "not"@[0] == 'n');
            assert("pwd"@[0] == 'p' && "nth"@[0] == 'n');
            assert("pwd"@.len() == 3 && "pipe"@.len() == 4);
            assert("pwd"@.len() == 3 && "|"@.len() == 1);
            assert("pwd"@.len() == 3 && "print"@.len() == 5);
            assert("pwd"@.len() == 3 && "echo"@.len() == 4);
            assert(builtin_named(t[25].0) == Some(t[25].1));
        } else if i == 26 {
            assert("quote"@.len() == 5 && "="@.len() == 1);
            assert("quote"@.len() == 5 && "and"@.len() == 3);
            assert("quote"@.len() == 5 && "args"@.len() == 4);
            assert("quote"@[0] == 'q' && "begin"@[0] == 'b');
            assert("quote"@.len() == 5 && "builtin"@.len() == 7);
            assert("quote"@.len() == 5 && "capture"@.len() == 7);
            assert("quote"@.len() == 5 && "$"@.len() == 1);
            assert("quote"@[0] == 'q' && "catch"@[0] == 'c');
            assert("quote"@.len() == 5 && "cd"@.len() == 2);
            assert("quote"@.len() == 5 && "command"@.len() == 7);
            assert("quote"@[0] == 'q' && "crush"@[0] == 'c');
            assert("quote"@.len() == 5 && "def"@.len() == 3);
            assert("quote"@.len() == 5 && "env"@.len() == 3);
            assert("quote"@.len() == 5 && "exec"@.len() == 4);
            assert("quote"@.len() == 5 && "exit"@.len() == 4);
            assert("quote"@[0] == 'q' && "first"@[0] == 'f');
            assert("quote"@.len() == 5 && "help"@.len() == 4);
            assert("quote"@.len() == 5 && "if"@.len() == 2);
            assert("quote"@.len() == 5 && "list"@.len() == 4);
            assert("quote"@.len() == 5 && "not"@.len() == 3);
            assert("quote"@.len() == 5 && "nth"@.len() == 3);
            assert("quote"@.len() == 5 && "pipe"@.len() == 4);
            assert("quote"@.len() == 5 && "|"@.len() == 1);
            assert("quote"@[0] == 'q' && "print"@[0] == 'p');
            assert("quote"@.len() == 5 && "echo"@.len() == 4);
            assert("quote"@.len() == 5 && "pwd"@.len() == 3);
            assert(builtin_named(t[26].0) == Some(t[26].1));
        } else if i == 27 {
            assert("raise"@.len() == 5 && "="@.len() == 1);
            assert("raise"@.len() == 5 && "and"@.len() == 3);
            assert("raise"@.len() == 5 && "args"@.len() == 4);
            assert("raise"@[0] == 'r' && "begin"@[0] == 'b');
            assert("raise"@.len() == 5 && "builtin"@.len() == 7);
            assert("raise"@.len() == 5 && "capture"@.len() == 7);
            assert("raise"@.len() == 5 && "$"@.len() == 1);
            assert("raise"@[0] == 'r' && "catch"@[0] == 'c');
            assert("raise"@.len() == 5 && "cd"@.len() == 2);
            assert("raise"@.len() == 5 && "command"@.len() == 7);
            assert("raise"@[0] == 'r' && "crush"@[0] == 'c');
            assert("raise"@.len() == 5 && "def"@.len() == 3);
            assert("raise"@.len() == 5 && "env"@.len() == 3);
            assert("raise"@.len() == 5 && "exec"@.len() == 4);
            assert("raise"@.len() == 5 && "exit"@.len() == 4);
            assert("raise"@[0] == 'r' && "first"@[0] == 'f');
            assert("raise"@.len() == 5 && "help"@.len() == 4);
            assert("raise"@.len() == 5 && "if"@.len() == 2);
            assert("raise"@.len() == 5 && "list"@.len() == 4);
            assert("raise"@.len() == 5 && "not"@.len() == 3);
            assert("raise"@.len() == 5 && "nth"@.len() == 3);
            assert("raise"@.len() == 5 && "pipe"@.len() == 4);
            assert("raise"@.len() == 5 && "|"@.len() == 1);
            assert("raise"@[0] == 'r' && "print"@[0] == 'p');
            assert("raise"@.len() == 5 && "echo"@.len() == 4);
            assert("raise"@.len() == 5 && "pwd"@.len() == 3);
            assert("raise"@[0] == 'r' && "quote"@[0] == 'q');
            assert(builtin_named(t[27].0) == Some(t[27].1));
        } else if i == 28 {
            assert("source"@.len() == 6 && "="@.len() == 1);
            assert("source"@.len() == 6 && "and"@.len() == 3);
            assert("source"@.len() == 6 && "args"@.len() == 4);
            assert("source"@.len() == 6 && "begin"@.len() == 5);
            assert("source"@.len() == 6 && "builtin"@.len() == 7);
            assert("source"@.len() == 6 && "capture"@.len() == 7);
            assert("source"@.len() == 6 && "$"@.len() == 1);
            assert("source"@.len() == 6 && "catch"@.len() == 5);
            assert("source"@.len() == 6 && "cd"@.len() == 2);
            assert("source"@.len() == 6 && "command"@.len() == 7);
            assert("source"@.len() == 6 && "crush"@.len() == 5);
            assert("source"@.len() == 6 && "def"@.len() == 3);
            assert("source"@.len() == 6 && "env"@.len() == 3);
            assert("source"@.len() == 6 && "exec"@.len() == 4);
            assert("source"@.len() == 6 && "exit"@.len() == 4);
            assert("source"@.len() == 6 && "first"@.len() == 5);
            assert("source"@.len() == 6 && "help"@.len() == 4);
            assert("source"@.len() == 6 && "if"@.len() == 2);
            assert("source"@.len() == 6 && "list"@.len() == 4);
            assert("source"@.len() == 6 && "not"@.len() == 3);
            assert("source"@.len() == 6 && "nth"@.len() == 3);
            assert("source"@.len() == 6 && "pipe"@.len() == 4);
            assert("source"@.len() == 6 && "|"@.len() == 1);
            assert("source"@.len() == 6 && "print"@.len() == 5);
            assert("source"@.len() == 6 && "echo"@.len() == 4);
            assert("source"@.len() == 6 && "pwd"@.len() == 3);
            assert("source"@.len() == 6 && "quote"@.len() == 5);
            assert("source"@.len() == 6 && "raise"@.len() == 5);
            assert(builtin_named(t[28].0) == Some(t[28].1));
        } else if i == 29 {
            assert("tail"@.len() == 4 && "="@.len() == 1);
            assert("tail"@.len() == 4 && "and"@.len() == 3);
            assert("tail"@[0] == 't' && "args"@[0] == 'a');
            assert("tail"@.len() == 4 && "begin"@.len() == 5);
            assert("tail"@.len() == 4 && "builtin"@.len() == 7);
            assert("tail"@.len() == 4 && "capture"@.len() == 7);
            assert("tail"@.len() == 4 && "$"@.len() == 1);
            assert("tail"@.len() == 4 && "catch"@.len() == 5);
            assert("tail"@.len() == 4 && "cd"@.len() == 2);
            assert("tail"@.len() == 4 && "command"@.len() == 7);
            assert("tail"@.len() == 4 && "crush"@.len() == 5);
            assert("tail"@.len() == 4 && "def"@.len() == 3);
            assert("tail"@.len() == 4 && "env"@.len() == 3);
            assert("tail"@[0] == 't' && "exec"@[0] == 'e');
            assert("tail"@[0] == 't' && "exit"@[0] == 'e');
            assert("tail"@.len() == 4 && "first"@.len() == 5);
            assert("tail"@[0] == 't' && "help"@[0] == 'h');
            assert("tail"@.len() == 4 && "if"@.len() == 2);
            assert("tail"@[0] == 't' && "list"@[0] == 'l');
            assert("tail"@.len() == 4 && "not"@.len() == 3);
            assert("tail"@.len() == 4 && "nth"@.len() == 3);
            assert("tail"@[0] == 't' && "pipe"@[0] == 'p');
            assert("tail"@.len() == 4 && "|"@.len() == 1);
            assert("tail"@.len() == 4 && "print"@.len() == 5);
            assert("tail"@[0] == 't' && "echo"@[0] == 'e');
            assert("tail"@.len() == 4 && "pwd"@.len() == 3);
            assert("tail"@.len() == 4 && "quote"@.len() == 5);
            assert("tail"@.len() == 4 && "raise"@.len() == 5);
            assert("tail"@.len() == 4 && "source"@.len() == 6);
            assert(builtin_named(t[29].0) == Some(t[29].1));
        }
    }
    if name == "="@ {
        assert(t[0].0 == name);
    } else if name == "and"@ {
        assert(t[1].0 == name);
    } else if name == "args"@ {
        assert(t[2].0 == name);
    } else if name == "begin"@ {
        assert(t[3].0 == name);
    } else if name == "builtin"@ {
        assert(t[4].0 == name);
    } else if name == "capture"@ {
        assert(t[5].0 == name);
    } else if name == "$"@ {
        assert(t[6].0 == name);
    } else if name == "catch"@ {
        assert(t[7].0 == name);
    } else if name == "cd"@ {
        assert(t[8].0 == name);
    } else if name == "command"@ {
        assert(t[9].0 == name);
    } else if name == "crush"@ {
        assert(t[10].0 == name);
    } else if name == "def"@ {
        assert(t[11].0 == name);
    } else if name == "env"@ {
        assert(t[12].0 == name);
    } else if name == "exec"@ {
        assert(t[13].0 == name);
    } else if name == "exit"@ {
        assert(t[14].0 == name);
    } else if name == "first"@ {
        assert(t[15].0 == name);
    } else if name == "help"@ {
        assert(t[16].0 == name);
    } else if name == "if"@ {
        assert(t[17].0 == name);
    } else if name == "list"@ {
        assert(t[18].0 == name);
    } else if name == "not"@ {
        assert(t[19].0 == name);
    } else if name == "nth"@ {
        assert(t[20].0 == name);
    } else if name == "pipe"@ {
        assert(t[21].0 == name);
    } else if name == "|"@ {
        assert(t[22].0 == name);
    } else if name == "print"@ {
        assert(t[23].0 == name);
    } else if name == "echo"@ {
        assert(t[24].0 == name);
    } else if name == "pwd"@ {
        assert(t[25].0 == name);
    } else if name == "quote"@ {
        assert(t[26].0 == name);
    } else if name == "raise"@ {
        assert(t[27].0 == name);
    } else if name == "source"@ {
        assert(t[28].0 == name);
    } else if name == "tail"@ {
        assert(t[29].0 == name);
    }
}

/// Copies of the expressions, in order.
pub(crate) fn copy_all(items: &[Expression]) -> (c: Vec<Expression>)
    ensures
        c@.len() == items@.len(),
        forall|i: int| 0 <= i < items@.len() ==> copy_of(#[trigger] c@[i], items@[i]),
{
    let mut c: Vec<Expression> = Vec::new();
    let mut i: usize = 0;
    while i < items.len()
        invariant
            i <= items@.len(),
            c@.len() == i,
            forall|j: int| 0 <= j < i ==> copy_of(#[trigger] c@[j], items@[j]),
        decreases items@.len() - i,
    {
        c.push(items[i].clone());
        i += 1;
    }
    c
}

/// `r` is a list of copies of `items`.
pub open spec fn list_of_copies(r: Expression, items: Seq<Expression>) -> bool {
    r matches Expression::List(v) && v@.len() == items.len() && forall|i: int|
        0 <= i < items.len() ==> copy_of(#[trigger] v@[i], items[i])
}

/// The non-empty list of items of an expression, if it is one.
pub open spec fn items_of(e: Expression) -> Option<Seq<Expression>> {
    match e {
        Expression::List(items) => if items@.len() > 0 {
            Some(items@)
        } else {
            None
        },
        _ => None,
    }
}

/// Tests if all arguments are truthy.
pub fn and(args: &[Expression]) -> (r: Expression)
    ensures
        r is Atom,
        r.value() == Some(
            crate::expr::truth_text(forall|i: int| 0 <= i < args@.len() ==> #[trigger] args@[i].truthy()),
        ),
{
    let mut i: usize = 0;
    while i < args.len()
        invariant
            i <= args@.len(),
            forall|j: int| 0 <= j < i ==> #[trigger] args@[j].truthy(),
        decreases args@.len() - i,
    {
        if !args[i].is_truthy() {
            return Expression::truth(false);
        }
        i += 1;
    }
    Expression::truth(true)
}

/// Return all arguments passed to the current function as a list.
pub fn args(frame: &StackFrame) -> (r: Expression)
    ensures
        list_of_copies(r, frame.args@),
{
    Expression::List(copy_all(frame.args.as_slice()))
}

/// Whether two expressions are equal as `==` tells them apart: both nil or
/// the empty list, or the same atom value, or neither an atom.
pub open spec fn same_value(a: Expression, b: Expression) -> bool {
    (a.nil() && b.nil()) || a.value() == b.value()
}

/// Test if all arguments are equal: fewer than two are, and otherwise each
/// argument after the first must equal the first.
pub fn equal(args: &[Expression]) -> (r: Expression)
    ensures
        r is Atom,
        r.value() == Some(
            crate::expr::truth_text(
                forall|i: int| 1 <= i < args@.len() ==> same_value(#[trigger] args@[i], args@[0]),
            ),
        ),
{
    if args.len() < 2 {
        return Expression::truth(true);
    }
    let mut i: usize = 1;
    while i < args.len()
        invariant
            1 <= i <= args@.len(),
            forall|j: int| 1 <= j < i ==> same_value(#[trigger] args@[j], args@[0]),
        decreases args@.len() - i,
    {
        if args[i] != args[0] {
            return Expression::truth(false);
        }
        i += 1;
    }
    Expression::truth(true)
}

/// Return the first element of a list: a copy of the first item of the first
/// argument, or nil when that is no non-empty list.
pub fn first(args: &[Expression]) -> (r: Expression)
    ensures
        args@.len() > 0 && items_of(args@[0]) is Some ==> copy_of(r, items_of(args@[0])->0[0]),
        !(args@.len() > 0 && items_of(args@[0]) is Some) ==> r == Expression::Nil,
{
    if args.len() > 0 {
        if let Some(items) = args[0].as_items() {
            return items[0].clone();
        }
    }
    Expression::Nil
}

/// Returns its arguments as a list.
pub fn list(args: &[Expression]) -> (r: Expression)
    ensures
        list_of_copies(r, args@),
{
    Expression::List(copy_all(args))
}

/// The negation of the first argument's truth; nil without arguments.
pub fn not(args: &[Expression]) -> (r: Expression)
    ensures
        args@.len() == 0 ==> r == Expression::Nil,
        args@.len() > 0 ==> r is Atom && r.value() == Some(crate::expr::truth_text(!args@[0].truthy())),
{
    if args.len() > 0 {
        if args[0].is_truthy() {
            Expression::truth(false)
        } else {
            Expression::truth(true)
        }
    } else {
        Expression::Nil
    }
}

/// The value of a string of decimal digits.
pub open spec fn digits_value(d: Seq<char>) -> int
    decreases d.len(),
{
    if d.len() == 0 {
        0
    } else {
        digits_value(d.drop_last()) * 10 + (d.last() as int - '0' as int)
    }
}

/// The index that a text names, as `usize`'s `FromStr` reads it: an
/// optional `+`, then one or more ASCII digits, of a value that fits.
pub open spec fn index_text(s: Seq<char>) -> Option<usize> {
    let d = if s.len() > 0 && s[0] == '+' {
        s.drop_first()
    } else {
        s
    };
    if d.len() > 0 && (forall|i: int| 0 <= i < d.len() ==> '0' <= #[trigger] d[i] <= '9')
        && digits_value(d) <= usize::MAX {
        Some(digits_value(d) as usize)
    } else {
        None
    }
}

/// Wraps `str::parse::<usize>`: per its documentation, the text must be an
/// optional `+` followed by decimal digits only, whose value fits in a
/// `usize`; anything else is an error.
#[verifier::external_body]
fn parse_index(s: &str) -> (r: Option<usize>)
    ensures
        r == index_text(s@),
{
    s.parse::<usize>().ok()
}

/// The item at an index: the first argument read as an index, the second a
/// non-empty list; nil when either is not so, or the index is past the end.
pub fn nth(args: &[Expression]) -> (r: Expression)
    ensures
        ({
            let found = if args@.len() >= 2 {
                match (args@[0].value(), items_of(args@[1])) {
                    (Some(t), Some(items)) => match index_text(t) {
                        Some(k) => if k < items.len() {
                            Some(items[k as int])
                        } else {
                            None
                        },
                        None => None,
                    },
                    _ => None,
                }
            } else {
                None
            };
            match found {
                Some(item) => copy_of(r, item),
                None => r == Expression::Nil,
            }
        }),
{
    if args.len() < 2 {
        return Expression::Nil;
    }
    if let Some(text) = args[0].as_value() {
        if let Some(index) = parse_index(text) {
            if let Some(items) = args[1].as_items() {
                if index < items.len() {
                    return items[index].clone();
                }
                return Expression::Nil;
            }
        }
    }
    Expression::Nil
}

/// Returns its arguments as a list unevaluated.
pub fn quote(args: &[Expression]) -> (r: Expression)
    ensures
        list_of_copies(r, args@),
{
    Expression::List(copy_all(args))
}

/// Raises an exception with the first argument, or nil without one.
pub fn raise(args: &[Expression]) -> (r: Result<Expression, Exception>)
    ensures
        r matches Err(e) && if args@.len() > 0 {
            copy_of(e.value, args@[0])
        } else {
            e.value == Expression::Nil
        },
{
    let value = if args.len() > 0 {
        args[0].clone()
    } else {
        Expression::Nil
    };
    Err(Exception { value })
}

/// Return the tail of a list: the items of the first argument after its
/// first, or nil when that is no non-empty list.
pub fn tail(args: &[Expression]) -> (r: Expression)
    ensures
        args@.len() > 0 && items_of(args@[0]) is Some ==> list_of_copies(
            r,
            items_of(args@[0])->0.drop_first(),
        ),
        !(args@.len() > 0 && items_of(args@[0]) is Some) ==> r == Expression::Nil,
{
    if args.len() > 0 {
        if let Some(items) = args[0].as_items() {
            let (_, rest) = items.split_at(1);
            let r = copy_all(rest);
            proof {
                assert(rest@ =~= items@.drop_first());
            }
            return Expression::List(r);
        }
    }
    Expression::Nil
}

/// Which argument of `if` is evaluated, given how many it has and whether
/// the first came out truthy: the second when it did, the third when not,
/// none when that argument is missing (the result is then nil).
pub fn if_arm(arg_count: usize, truthy: bool) -> (r: Option<usize>)
    requires
        arg_count > 0,
    ensures
        truthy ==> r == if arg_count >= 2 {
            Some(1usize)
        } else {
            None::<usize>
        },
        !truthy ==> r == if arg_count >= 3 {
            Some(2usize)
        } else {
            None::<usize>
        },
{
    if truthy {
        if arg_count >= 2 {
            Some(1)
        } else {
            None
        }
    } else {
        if arg_count >= 3 {
            Some(2)
        } else {
            None
        }
    }
}

/// The message that `catch` raises when it does not get two arguments.
pub open spec fn catch_arity_message() -> Seq<char> {
    "catch expects exactly two arguments"@
}

/// `catch` takes exactly two arguments: the expression to try and the one to
/// evaluate if it raises. Any other count raises.
pub fn catch_arity(arg_count: usize) -> (r: Result<(), Exception>)
    ensures
        arg_count == 2 ==> r is Ok,
        arg_count != 2 ==> (r matches Err(e) && e.value is Atom && e.value.value() == Some(
            catch_arity_message(),
        )),
{
    if arg_count == 2 {
        Ok(())
    } else {
        Err(Exception { value: Expression::atom(String::from_str("catch expects exactly two arguments")) })
    }
}

/// The parts of a `def` after its name: the expressions of its parameter
/// names and its body. With two arguments there are no parameters and the
/// second is the body; with three or more the second lists the parameters
/// (when it is a non-empty list) and the third is the body; otherwise the
/// body is nil.
pub fn def_parts(args: &[Expression]) -> (r: (Vec<Expression>, Expression))
    ensures
        args@.len() == 2 ==> r.0@.len() == 0 && copy_of(r.1, args@[1]),
        args@.len() >= 3 ==> copy_of(r.1, args@[2]) && match items_of(args@[1]) {
            Some(items) => r.0@.len() == items.len() && forall|i: int|
                0 <= i < items.len() ==> copy_of(#[trigger] r.0@[i], items[i]),
            None => r.0@.len() == 0,
        },
        args@.len() < 2 ==> r.0@.len() == 0 && r.1 == Expression::Nil,
{
    if args.len() == 2 {
        (Vec::new(), args[1].clone())
    } else if args.len() >= 3 {
        let params = match args[1].as_items() {
            Some(items) => copy_all(items),
            None => Vec::new(),
        };
        (params, args[2].clone())
    } else {
        (Vec::new(), Expression::Nil)
    }
}

/// The names of evaluated parameter expressions: each one that is an atom,
/// in order; the others are skipped.
pub open spec fn param_names(values: Seq<Expression>) -> Seq<Seq<char>>
    decreases values.len(),
{
    if values.len() == 0 {
        Seq::empty()
    } else {
        let before = param_names(values.drop_last());
        match values.last().value() {
            Some(name) => before.push(name),
            None => before,
        }
    }
}

/// The parameter names of a `def`, from its evaluated parameter expressions.
pub fn def_params(values: &[Expression]) -> (names: Vec<String>)
    ensures
        names@.map_values(|n: String| n@) == param_names(values@),
{
    let mut names: Vec<String> = Vec::new();
    let mut i: usize = 0;
    while i < values.len()
        invariant
            i <= values@.len(),
            names@.map_values(|n: String| n@) == param_names(values@.take(i as int)),
        decreases values@.len() - i,
    {
        proof {
            assert(values@.take(i + 1).drop_last() =~= values@.take(i as int));
        }
        if let Some(name) = values[i].as_value() {
            names.push(String::from_str(name));
            proof {
                assert(names@.map_values(|n: String| n@) =~= param_names(
                    values@.take(i as int),
                ).push(name@));
            }
        }
        i += 1;
    }
    proof {
        assert(values@.take(values@.len() as int) =~= values@);
    }
    names
}

} // verus!
