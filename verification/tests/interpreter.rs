use riptide::builtins::{self, lookup, Builtin};
use riptide::exit::ExitState;
use riptide::expr::{Expression, Function};
use riptide::interpreter::{
    bind_params, call_frame, create_function, interactive_step, is_builtin, lookup_function,
    report, resolve, Bindings, Exception, LoopStep, Report, StackFrame, Step,
};
use riptide::shell::editor::ReadLine;

fn atom(s: &str) -> Expression {
    Expression::atom(String::from(s))
}

#[test]
fn global_bindings() {
    let mut globals = Bindings::new();
    assert!(globals.get("x").is_none());
    assert!(globals.set(String::from("x"), atom("1")).is_none());
    assert!(globals.set(String::from("y"), atom("2")).is_none());
    assert_eq!(globals.get("x").and_then(|v| v.as_value()), Some("1"));
    let old = globals.set(String::from("x"), atom("3"));
    assert_eq!(old.as_ref().and_then(|v| v.as_value()), Some("1"));
    assert_eq!(globals.get("x").and_then(|v| v.as_value()), Some("3"));
    assert_eq!(globals.get("y").and_then(|v| v.as_value()), Some("2"));
}

#[test]
fn builtin_names() {
    assert!(is_builtin("print"));
    assert!(is_builtin("echo"));
    assert!(is_builtin("|"));
    assert!(is_builtin("="));
    assert!(!is_builtin("ls"));
    assert!(!is_builtin(""));
}

#[test]
fn resolving_names() {
    let mut frame = StackFrame::new();
    frame.symbol_table.push((String::from("a"), atom("local")));
    frame.symbol_table.push((String::from("a"), atom("shadowed")));
    let mut globals = Bindings::new();
    globals.set(String::from("a"), atom("global"));
    globals.set(String::from("g"), atom("global g"));
    let lambda = Expression::create_lambda(vec![String::from("p")], atom("body"));
    globals.set(String::from("f"), lambda);

    match resolve(atom("a"), false, &frame, &globals) {
        Step::Done(v) => assert_eq!(v.as_value(), Some("local")),
        _ => panic!("expected the local value"),
    }
    match resolve(atom("g"), false, &frame, &globals) {
        Step::Done(v) => assert_eq!(v.as_value(), Some("global g")),
        _ => panic!("expected the global value"),
    }
    match resolve(atom("g"), true, &frame, &globals) {
        Step::Raise(v) => assert_eq!(v.as_value(), Some("cannot execute global g as a function")),
        _ => panic!("expected an error"),
    }
    match resolve(atom("f"), true, &frame, &globals) {
        Step::CallUser(f) => assert_eq!(f.params, vec![String::from("p")]),
        _ => panic!("expected a call"),
    }
    match resolve(atom("echo"), true, &frame, &globals) {
        Step::CallNative(b) => assert_eq!(b, Builtin::Print),
        _ => panic!("expected a builtin"),
    }
    assert!(matches!(resolve(atom("ls"), true, &frame, &globals), Step::RunCommand));
    match resolve(Expression::Nil, false, &frame, &globals) {
        Step::Done(v) => assert!(v.is_nil()),
        _ => panic!("expected nil"),
    }
}

#[test]
fn binding_parameters() {
    let f = Function { params: vec![String::from("a"), String::from("b")], body: Expression::Nil };
    let one = bind_params(&f, vec![atom("1")]);
    assert_eq!(one.len(), 2);
    assert_eq!(one[0].0, "a");
    assert_eq!(one[0].1.as_value(), Some("1"));
    assert_eq!(one[1].0, "b");
    assert!(one[1].1.is_nil());
    let three = bind_params(&f, vec![atom("1"), atom("2"), atom("3")]);
    assert_eq!(three.len(), 2);
    assert_eq!(three[1].1.as_value(), Some("2"));
}

#[test]
fn interactive_loop_steps() {
    let running = ExitState::new();
    assert!(matches!(interactive_step(&running, ReadLine::Eof), LoopStep::Exit(0)));
    assert!(matches!(interactive_step(&running, ReadLine::Input(String::new())), LoopStep::ReadAgain));
    match interactive_step(&running, ReadLine::Input(String::from("ls"))) {
        LoopStep::Run(line) => assert_eq!(line, "ls"),
        _ => panic!("expected the line to run"),
    }
    let mut exiting = ExitState::new();
    riptide::exit::set(&mut exiting, 2);
    assert!(matches!(interactive_step(&exiting, ReadLine::Input(String::from("ls"))), LoopStep::Stop));
}

#[test]
fn reporting_results() {
    assert!(matches!(report(Ok(Expression::Nil), false), Report::Nothing));
    match report(Ok(Expression::List(vec![atom("a"), Expression::List(vec![atom("b")])])), false) {
        Report::Print(lines) => assert_eq!(lines, vec![String::from("a"), String::from("(b)")]),
        _ => panic!("expected lines"),
    }
    match report(Ok(atom("x")), false) {
        Report::Print(lines) => assert_eq!(lines, vec![String::from("x")]),
        _ => panic!("expected a line"),
    }
    match report(Err(Exception { value: atom("boom") }), false) {
        Report::LogError(m) => assert_eq!(m, "boom"),
        _ => panic!("expected an error"),
    }
    assert!(matches!(report(Err(Exception { value: atom("boom") }), true), Report::Nothing));
}

fn list(items: Vec<Expression>) -> Expression {
    Expression::List(items)
}

fn values(e: &Expression) -> Vec<String> {
    match e {
        Expression::List(items) => items.iter().map(|i| i.to_text()).collect(),
        _ => panic!("expected a list"),
    }
}

#[test]
fn looking_up_builtins() {
    assert_eq!(lookup("="), Some(Builtin::Equal));
    assert_eq!(lookup("$"), Some(Builtin::Capture));
    assert_eq!(lookup("capture"), Some(Builtin::Capture));
    assert_eq!(lookup("|"), Some(Builtin::Pipe));
    assert_eq!(lookup("echo"), Some(Builtin::Print));
    assert_eq!(lookup("tail"), Some(Builtin::Tail));
    assert_eq!(lookup("lambda"), None);
    assert!(Builtin::Quote.lazy_args());
    assert!(Builtin::If.lazy_args());
    assert!(!Builtin::List.lazy_args());
    assert!(!Builtin::Print.lazy_args());
}

#[test]
fn builtin_and() {
    assert_eq!(builtins::and(&[]).as_value(), Some("true"));
    assert_eq!(builtins::and(&[atom("a"), atom("1")]).as_value(), Some("true"));
    assert_eq!(builtins::and(&[atom("a"), atom("FALSE")]).as_value(), Some("false"));
    assert_eq!(builtins::and(&[Expression::Nil]).as_value(), Some("false"));
    assert_eq!(builtins::and(&[atom("0")]).as_value(), Some("false"));
}

#[test]
fn builtin_equal() {
    assert_eq!(builtins::equal(&[atom("a")]).as_value(), Some("true"));
    assert_eq!(builtins::equal(&[atom("a"), atom("a"), atom("a")]).as_value(), Some("true"));
    assert_eq!(builtins::equal(&[atom("a"), atom("a"), atom("b")]).as_value(), Some("false"));
    assert_eq!(builtins::equal(&[Expression::Nil, list(vec![])]).as_value(), Some("true"));
    assert_eq!(builtins::equal(&[atom("a"), Expression::Nil]).as_value(), Some("false"));
}

#[test]
fn builtin_lists() {
    let l = list(vec![atom("x"), atom("y"), atom("z")]);
    assert_eq!(builtins::first(&[l.clone()]).as_value(), Some("x"));
    assert!(builtins::first(&[list(vec![])]).is_nil());
    assert!(builtins::first(&[atom("x")]).is_nil());
    assert!(builtins::first(&[]).is_nil());
    assert_eq!(values(&builtins::tail(&[l.clone()])), vec!["y", "z"]);
    assert_eq!(values(&builtins::tail(&[list(vec![atom("x")])])), Vec::<String>::new());
    assert!(builtins::tail(&[atom("x")]).is_nil());
    assert_eq!(values(&builtins::list(&[atom("a"), atom("b")])), vec!["a", "b"]);
    assert_eq!(values(&builtins::quote(&[list(vec![atom("f")]), atom("b")])), vec!["(f)", "b"]);
    assert_eq!(builtins::nth(&[atom("1"), l.clone()]).as_value(), Some("y"));
    assert_eq!(builtins::nth(&[atom("+2"), l.clone()]).as_value(), Some("z"));
    assert!(builtins::nth(&[atom("3"), l.clone()]).is_nil());
    assert!(builtins::nth(&[atom("-1"), l.clone()]).is_nil());
    assert!(builtins::nth(&[atom("one"), l.clone()]).is_nil());
    assert!(builtins::nth(&[atom("0")]).is_nil());
}

#[test]
fn builtin_not_and_raise() {
    assert!(builtins::not(&[]).is_nil());
    assert_eq!(builtins::not(&[atom("yes")]).as_value(), Some("false"));
    assert_eq!(builtins::not(&[atom("false")]).as_value(), Some("true"));
    match builtins::raise(&[atom("oops"), atom("more")]) {
        Err(e) => assert_eq!(e.value.as_value(), Some("oops")),
        Ok(_) => panic!("expected an exception"),
    }
    match builtins::raise(&[]) {
        Err(e) => assert!(e.value.is_nil()),
        Ok(_) => panic!("expected an exception"),
    }
}

#[test]
fn builtin_args_of_frame() {
    let mut frame = StackFrame::new();
    assert_eq!(values(&builtins::args(&frame)), Vec::<String>::new());
    frame.args = vec![atom("a"), list(vec![atom("b")])];
    assert_eq!(values(&builtins::args(&frame)), vec!["a", "(b)"]);
}

#[test]
fn builtin_decisions() {
    assert_eq!(builtins::if_arm(3, true), Some(1));
    assert_eq!(builtins::if_arm(3, false), Some(2));
    assert_eq!(builtins::if_arm(2, false), None);
    assert_eq!(builtins::if_arm(1, true), None);
    assert!(builtins::catch_arity(2).is_ok());
    match builtins::catch_arity(1) {
        Err(e) => assert_eq!(e.value.as_value(), Some("catch expects exactly two arguments")),
        Ok(_) => panic!("expected an exception"),
    }
    let (params, body) = builtins::def_parts(&[atom("f"), list(vec![atom("a"), atom("b")]), atom("body")]);
    assert_eq!(params.len(), 2);
    assert_eq!(body.as_value(), Some("body"));
    let (params, body) = builtins::def_parts(&[atom("f"), atom("body")]);
    assert!(params.is_empty());
    assert_eq!(body.as_value(), Some("body"));
    let names = builtins::def_params(&[atom("a"), Expression::Nil, atom("c")]);
    assert_eq!(names, vec![String::from("a"), String::from("c")]);
}

#[test]
fn defining_and_calling_functions() {
    let mut globals = Bindings::new();
    create_function(&mut globals, String::from("f"), vec![String::from("x")], atom("body"));
    let f = lookup_function(&globals, "f").expect("a function");
    assert_eq!(f.params, vec![String::from("x")]);
    assert!(lookup_function(&globals, "g").is_none());
    globals.set(String::from("v"), atom("1"));
    assert!(lookup_function(&globals, "v").is_none());
    let (next, frame) = call_frame(f, &[atom("(arg)")], vec![atom("1"), atom("2")]);
    assert_eq!(next.as_value(), Some("body"));
    assert_eq!(frame.args.len(), 1);
    assert_eq!(frame.symbol_table.len(), 1);
    assert_eq!(frame.symbol_table[0].0, "x");
    assert_eq!(frame.symbol_table[0].1.as_value(), Some("1"));
}
