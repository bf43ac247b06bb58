//! The decisions of the script interpreter: how names resolve, how a call
//! binds its arguments, and what the interactive loop does with a line.
//!
//! Evaluation itself runs builtins that do I/O and may not end, so the
//! caller drives it: each step here says what to do next.

use crate::builtins::{builtin_named, copy_all, lookup, Builtin};
use crate::exit::ExitState;
use crate::expr::{copy_of, str_eq, Expression, Function};
use crate::shell::editor::ReadLine;
use std::sync::Arc;
use vstd::prelude::*;

verus! {

/// A wrapper around a value that can be raised as an error.
#[derive(Debug)]
pub struct Exception {
    pub value: Expression,
}

/// A single frame in the interpreter call stack.
pub struct StackFrame {
    /// The function being executed.
    pub function: Option<Arc<Function>>,
    /// Arguments passed in to the current function call, unevaluated.
    pub args: Vec<Expression>,
    /// Names of the arguments and local values, with their values.
    pub symbol_table: Vec<(String, Expression)>,
}

impl StackFrame {
    /// The frame of the top level: no function, no arguments, no locals.
    pub fn new() -> (f: Self)
        ensures
            f.function is None,
            f.args@.len() == 0,
            f.symbol_table@.len() == 0,
    {
        StackFrame { function: None, args: Vec::new(), symbol_table: Vec::new() }
    }
}

/// The index of the first entry named `name`, if any.
pub open spec fn first_named(table: Seq<(String, Expression)>, name: Seq<char>) -> Option<int>
    decreases table.len(),
{
    if table.len() == 0 {
        None
    } else if table[0].0@ == name {
        Some(0)
    } else {
        match first_named(table.drop_first(), name) {
            Some(i) => Some(i + 1),
            None => None,
        }
    }
}

proof fn lemma_first_named(table: Seq<(String, Expression)>, name: Seq<char>)
    ensures
        first_named(table, name) matches Some(i) ==> 0 <= i < table.len() && table[i].0@ == name
            && forall|j: int| 0 <= j < i ==> table[j].0@ != name,
        first_named(table, name) is None ==> forall|j: int|
            0 <= j < table.len() ==> table[j].0@ != name,
    decreases table.len(),
{
    if table.len() > 0 {
        let t = table.drop_first();
        lemma_first_named(t, name);
        assert forall|j: int| 0 < j < table.len() implies table[j] == t[j - 1] by {}
    }
}

/// Where an entry is looked up depends on the names alone.
proof fn lemma_first_named_names(a: Seq<(String, Expression)>, b: Seq<(String, Expression)>, name: Seq<char>)
    requires
        a.len() == b.len(),
        forall|j: int| 0 <= j < a.len() ==> a[j].0@ == b[j].0@,
    ensures
        first_named(a, name) == first_named(b, name),
    decreases a.len(),
{
    if a.len() > 0 {
        lemma_first_named_names(a.drop_first(), b.drop_first(), name);
    }
}

/// An entry added at the end is found only when no earlier entry has its
/// name.
proof fn lemma_first_named_push(t: Seq<(String, Expression)>, e: (String, Expression), name: Seq<char>)
    ensures
        first_named(t.push(e), name) == match first_named(t, name) {
            Some(i) => Some(i),
            None => if e.0@ == name {
                Some(t.len() as int)
            } else {
                None
            },
        },
    decreases t.len(),
{
    assert(t.push(e)[0] == if t.len() > 0 {
        t[0]
    } else {
        e
    });
    if t.len() > 0 {
        lemma_first_named_push(t.drop_first(), e, name);
        assert(t.push(e).drop_first() =~= t.drop_first().push(e));
    } else {
        assert(t.push(e).drop_first() =~= Seq::<(String, Expression)>::empty());
        assert(first_named(t.push(e).drop_first(), name) is None);
    }
}

/// The index of the first entry of `table` named `name`.
fn find_named(table: &Vec<(String, Expression)>, name: &str) -> (r: Option<usize>)
    ensures
        match r {
            Some(i) => first_named(table@, name@) == Some(i as int),
            None => first_named(table@, name@) is None,
        },
{
    proof {
        lemma_first_named(table@, name@);
    }
    let mut i: usize = 0;
    while i < table.len()
        invariant
            i <= table.len(),
            forall|j: int| 0 <= j < i ==> table@[j].0@ != name@,
            first_named(table@, name@) matches Some(k) ==> i <= k && k < table@.len()
                && table@[k].0@ == name@ && forall|j: int| 0 <= j < k ==> table@[j].0@ != name@,
            first_named(table@, name@) is None ==> forall|j: int|
                0 <= j < table@.len() ==> table@[j].0@ != name@,
        decreases table.len() - i,
    {
        if str_eq(table[i].0.as_str(), name) {
            return Some(i);
        }
        i += 1;
    }
    None
}

/// A table of global bindings: each name is bound at most once.
pub struct Bindings {
    table: Vec<(String, Expression)>,
}

impl Bindings {
    #[verifier::type_invariant]
    spec fn unique(self) -> bool {
        forall|i: int, j: int|
            0 <= i < j < self.table@.len() ==> self.table@[i].0@ != self.table@[j].0@
    }

    /// The value bound to `name`, if any.
    pub closed spec fn lookup(&self, name: Seq<char>) -> Option<Expression> {
        match first_named(self.table@, name) {
            Some(i) => Some(self.table@[i].1),
            None => None,
        }
    }

    /// A table with no bindings.
    pub fn new() -> (b: Self)
        ensures
            forall|name: Seq<char>| b.lookup(name) is None,
    {
        Bindings { table: Vec::new() }
    }

    /// Get the value of a binding.
    pub fn get(&self, name: &str) -> (r: Option<&Expression>)
        ensures
            match r {
                Some(v) => self.lookup(name@) == Some(*v),
                None => self.lookup(name@) is None,
            },
    {
        proof {
            lemma_first_named(self.table@, name@);
        }
        match find_named(&self.table, name) {
            Some(i) => Some(&self.table[i].1),
            None => None,
        }
    }

    /// Set the value of a binding. If a binding already exists for the
    /// given name, the old value is replaced and returned.
    pub fn set(&mut self, name: String, value: Expression) -> (r: Option<Expression>)
        ensures
            r == old(self).lookup(name@),
            final(self).lookup(name@) == Some(value),
            forall|other: Seq<char>|
                other != name@ ==> #[trigger] final(self).lookup(other) == old(self).lookup(other),
    {
        proof {
            use_type_invariant(&*self);
            lemma_first_named(self.table@, name@);
        }
        let ghost before = self.table@;
        let ghost key = name@;
        let ghost entry = (name, value);
        let mut table: Vec<(String, Expression)> = Vec::new();
        std::mem::swap(&mut table, &mut self.table);
        let found = find_named(&table, name.as_str());
        let old_value = match found {
            Some(i) => {
                let (_, v) = table.remove(i);
                table.insert(i, (name, value));
                proof {
                    let t = table@;
                    assert(t =~= before.update(i as int, entry));
                    lemma_first_named_names(t, before, key);
                    assert forall|other: Seq<char>|
                        other != key implies #[trigger] first_named(t, other) == first_named(
                            before,
                            other,
                        ) by {
                        lemma_first_named_names(t, before, other);
                    }
                    assert forall|a: int, b: int| 0 <= a < b < t.len() implies t[a].0@
                        != t[b].0@ by {}
                }
                Some(v)
            },
            None => {
                table.push((name, value));
                proof {
                    let t = table@;
                    assert(t =~= before.push(entry));
                    lemma_first_named_push(before, entry, key);
                    assert forall|other: Seq<char>|
                        other != key implies #[trigger] first_named(t, other) == first_named(
                            before,
                            other,
                        ) by {
                        lemma_first_named_push(before, entry, other);
                    }
                    assert forall|a: int, b: int| 0 <= a < b < t.len() implies t[a].0@
                        != t[b].0@ by {
                        if b == t.len() - 1 {
                            assert(t[a] == before[a]);
                        }
                    }
                }
                None
            },
        };
        self.table = table;
        proof {
            assert forall|other: Seq<char>|
                other != key implies #[trigger] self.lookup(other) == old(self).lookup(other) by {
                lemma_first_named(before, other);
            }
        }
        old_value
    }
}

/// Whether `name` names a builtin function.
pub fn is_builtin(name: &str) -> (r: bool)
    ensures
        r == builtin_named(name@) is Some,
{
    lookup(name).is_some()
}

/// Create a new global binding of `name` to a function with the given
/// parameters and body. If a binding already exists for the given name, the
/// old value is replaced.
pub fn create_function(globals: &mut Bindings, name: String, params: Vec<String>, body: Expression)
    ensures
        final(globals).lookup(name@) matches Some(Expression::Lambda(f)) && f.params@ == params@
            && f.body == body,
        forall|other: Seq<char>|
            other != name@ ==> #[trigger] final(globals).lookup(other) == old(globals).lookup(other),
{
    globals.set(name, Expression::create_lambda(params, body));
}

/// The function bound globally to `name`, if the binding is a function.
pub fn lookup_function(globals: &Bindings, name: &str) -> (r: Option<Arc<Function>>)
    ensures
        match globals.lookup(name@) {
            Some(Expression::Lambda(f)) => r matches Some(g) && *g == *f,
            _ => r is None,
        },
{
    match globals.get(name) {
        Some(v) => v.as_lambda(),
        None => None,
    }
}

/// What the head of a call names.
pub enum Target {
    /// A value: that of a binding, or the head itself when it is no name.
    Value(Expression),
    /// A builtin function.
    Native(Builtin),
    /// An external command.
    Command,
}

/// What the evaluated head of a call names: a name is looked up in the
/// frame's locals, first match first, then in the globals, then among the
/// builtins, and otherwise names an external command.
pub open spec fn target_of(head: Expression, frame: StackFrame, globals: Bindings) -> Target {
    match head {
        Expression::Atom(name) => match first_named(frame.symbol_table@, name@) {
            Some(i) => Target::Value(frame.symbol_table@[i].1),
            None => match globals.lookup(name@) {
                Some(v) => Target::Value(v),
                None => match builtin_named(name@) {
                    Some(b) => Target::Native(b),
                    None => Target::Command,
                },
            },
        },
        _ => Target::Value(head),
    }
}

/// What to do with a call, once its head is evaluated and resolved.
pub enum Step {
    /// The call's value.
    Done(Expression),
    /// Call this user function with the arguments, in a new frame.
    CallUser(Arc<Function>),
    /// Call this builtin with the arguments.
    CallNative(Builtin),
    /// Run the whole list as an external command.
    RunCommand,
    /// Raise this value as an error.
    Raise(Expression),
}

/// The message raised for calling a value that is no function.
pub open spec fn not_a_function(v: Expression) -> Seq<char> {
    "cannot execute "@ + v.shown() + " as a function"@
}

/// `step` is what to do with a value `v` that a call's head resolved to.
pub open spec fn value_step(v: Expression, has_args: bool, step: Step) -> bool {
    match v {
        Expression::Lambda(f) => step matches Step::CallUser(g) && *g == *f,
        _ => if has_args {
            step matches Step::Raise(e) && e.value() == Some(not_a_function(v))
        } else {
            step matches Step::Done(d) && d.shown() == v.shown() && d.nil() == v.nil() && d.value()
                == v.value() && (!(v is List) ==> d == v)
        },
    }
}

/// Decide what a call does, given its evaluated head and whether it has
/// arguments: a lambda is called, a builtin or an external command is run,
/// and any other value is the call's value, unless arguments were given to
/// it.
pub fn resolve(head: Expression, has_args: bool, frame: &StackFrame, globals: &Bindings) -> (step: Step)
    ensures
        match target_of(head, *frame, *globals) {
            Target::Value(v) => value_step(v, has_args, step),
            Target::Native(b) => step == Step::CallNative(b),
            Target::Command => step is RunCommand,
        },
{
    match head {
        Expression::Atom(name) => {
            proof {
                lemma_first_named(frame.symbol_table@, name@);
            }
            match find_named(&frame.symbol_table, name.as_str()) {
                Some(i) => finish(frame.symbol_table[i].1.clone(), has_args),
                None => match globals.get(name.as_str()) {
                    Some(v) => finish(v.clone(), has_args),
                    None => match lookup(name.as_str()) {
                        Some(b) => Step::CallNative(b),
                        None => Step::RunCommand,
                    },
                },
            }
        },
        other => finish(other, has_args),
    }
}

/// What to do with the value that a call's head resolved to.
fn finish(v: Expression, has_args: bool) -> (step: Step)
    ensures
        value_step(v, has_args, step),
{
    match v {
        Expression::Lambda(f) => Step::CallUser(f),
        v => if has_args {
            let mut message = String::from_str("cannot execute ");
            let shown = v.to_text();
            message.append(shown.as_str());
            message.append(" as a function");
            Step::Raise(Expression::atom(message))
        } else {
            Step::Done(v)
        },
    }
}

/// The locals of a call of `function`: each parameter bound to the argument
/// at its place, or to nil when there are fewer arguments; arguments past the
/// parameters are dropped.
pub fn bind_params(function: &Function, evaluated: Vec<Expression>) -> (symbols: Vec<(String, Expression)>)
    ensures
        symbols@.len() == function.params@.len(),
        forall|i: int|
            0 <= i < symbols@.len() ==> (#[trigger] symbols@[i]).0@ == function.params@[i]@
                && symbols@[i].1 == if i < evaluated@.len() {
                evaluated@[i]
            } else {
                Expression::Nil
            },
{
    let mut rest = evaluated;
    let mut symbols: Vec<(String, Expression)> = Vec::new();
    let mut i: usize = 0;
    while i < function.params.len()
        invariant
            i <= function.params@.len(),
            symbols@.len() == i,
            i <= evaluated@.len() ==> rest@ == evaluated@.skip(i as int),
            i > evaluated@.len() ==> rest@.len() == 0,
            forall|j: int|
                0 <= j < i ==> (#[trigger] symbols@[j]).0@ == function.params@[j]@
                    && symbols@[j].1 == if j < evaluated@.len() {
                    evaluated@[j]
                } else {
                    Expression::Nil
                },
        decreases function.params@.len() - i,
    {
        let name = function.params[i].clone();
        if rest.len() > 0 {
            let value = rest.remove(0);
            symbols.push((name, value));
            proof {
                assert(evaluated@.skip(i as int).drop_first() =~= evaluated@.skip(i + 1));
            }
        } else {
            symbols.push((name, Expression::Nil));
        }
        i += 1;
    }
    symbols
}

/// A call of a user function is a tail call: what runs next is a copy of
/// the function's body, in a new frame that holds the function, copies of the
/// unevaluated arguments, and the parameters bound to the evaluated ones.
pub fn call_frame(function: Arc<Function>, args: &[Expression], evaluated: Vec<Expression>) -> (r: (
    Expression,
    StackFrame,
))
    ensures
        copy_of(r.0, function.body),
        r.1.function == Some(function),
        r.1.args@.len() == args@.len(),
        forall|i: int| 0 <= i < args@.len() ==> copy_of(#[trigger] r.1.args@[i], args@[i]),
        r.1.symbol_table@.len() == function.params@.len(),
        forall|i: int|
            0 <= i < r.1.symbol_table@.len() ==> (#[trigger] r.1.symbol_table@[i]).0@
                == function.params@[i]@ && r.1.symbol_table@[i].1 == if i < evaluated@.len() {
                evaluated@[i]
            } else {
                Expression::Nil
            },
{
    let symbols = bind_params(&function, evaluated);
    let body = function.body.clone();
    let frame = StackFrame { function: Some(function), args: copy_all(args), symbol_table: symbols };
    (body, frame)
}

/// What the interactive loop does next.
pub enum LoopStep {
    /// An exit was requested: stop.
    Stop,
    /// The line was empty: read another.
    ReadAgain,
    /// Execute the line.
    Run(String),
    /// The input ended: request an exit with this code.
    Exit(i32),
}

/// The interactive loop's decision for what was read: it stops once an exit
/// is requested, requests exit 0 at the end of the input, skips an empty
/// line and runs any other.
pub fn interactive_step(state: &ExitState, input: ReadLine) -> (s: LoopStep)
    ensures
        state.view() is Some ==> s is Stop,
        state.view() is None ==> match input {
            ReadLine::Eof => s == LoopStep::Exit(0),
            ReadLine::Input(line) => if line@.len() == 0 {
                s is ReadAgain
            } else {
                s matches LoopStep::Run(l) && l@ == line@
            },
        },
{
    if crate::exit::get(state).is_some() {
        return LoopStep::Stop;
    }
    match input {
        ReadLine::Eof => LoopStep::Exit(0),
        ReadLine::Input(line) => if line.as_str().is_empty() {
            LoopStep::ReadAgain
        } else {
            LoopStep::Run(line)
        },
    }
}

/// What to report of an executed line.
pub enum Report {
    /// Nothing.
    Nothing,
    /// Print each of these lines.
    Print(Vec<String>),
    /// Log this error.
    LogError(String),
}

/// What to report of an executed line: nil prints nothing, a list prints
/// each item on a line of its own, any other value prints itself, and an
/// error is logged unless an exit was requested.
pub fn report(result: Result<Expression, Exception>, exit_requested: bool) -> (r: Report)
    ensures
        match result {
            Ok(Expression::Nil) => r is Nothing,
            Ok(Expression::List(items)) => r matches Report::Print(lines) && lines@.len()
                == items@.len() && forall|i: int|
                0 <= i < lines@.len() ==> (#[trigger] lines@[i])@ == items@[i].shown(),
            Ok(v) => r matches Report::Print(lines) && lines@.len() == 1 && lines@[0]@ == v.shown(),
            Err(e) => if exit_requested {
                r is Nothing
            } else {
                r matches Report::LogError(m) && m@ == e.value.shown()
            },
        },
{
    match result {
        Ok(Expression::Nil) => Report::Nothing,
        Ok(Expression::List(items)) => {
            let mut lines: Vec<String> = Vec::new();
            let mut i: usize = 0;
            while i < items.len()
                invariant
                    i <= items@.len(),
                    lines@.len() == i,
                    forall|j: int| 0 <= j < i ==> (#[trigger] lines@[j])@ == items@[j].shown(),
                decreases items@.len() - i,
            {
                lines.push(items[i].to_text());
                i += 1;
            }
            Report::Print(lines)
        },
        Ok(v) => Report::Print(vec![v.to_text()]),
        Err(e) => if exit_requested {
            Report::Nothing
        } else {
            Report::LogError(e.value.to_text())
        },
    }
}

} // verus!
