use riptide::exit::{exit_status, get, ExitState};
use riptide::history::entry::{CommandEntry, CursorKey};
use riptide::history::{schema_step, CommandSummary, SchemaStep};
use riptide::logger::{log_level_filter, verbosity_level, LogLevel};
use riptide::shell::buffer::Buffer;
use riptide::shell::completion::{Completer, Composite, TestCompleter};
use riptide::shell::editor::command::Command;
use riptide::shell::editor::event::Event;
use riptide::shell::editor::history_browser::HistoryBrowser;
use riptide::shell::editor::scene::{RenderMode, Scene, SceneContext};
use riptide::shell::editor::{EditorState, Output, Response};
use riptide::shell::prompt::Prompt;
use riptide::shell::terminal::{csi_to_event, execute_to_event, print_to_event, TerminalOutput};
use riptide::shell::theme::{Prompt as PromptTheme, Theme};

struct Fixed(Vec<String>);

impl Completer for Fixed {
    fn complete(&self, _prefix: &str) -> Vec<String> {
        self.0.clone()
    }
}

fn no_completions() -> Fixed {
    Fixed(vec![])
}

fn type_text(editor: &mut EditorState, text: &str) {
    for c in text.chars() {
        assert!(matches!(editor.on_event(Event::Char(c), &no_completions()), Response::Redraw));
    }
}

#[test]
fn buffer_editing() {
    let mut b = Buffer::new();
    assert!(b.is_empty());
    b.insert_str("hello");
    assert_eq!((b.text(), b.cursor()), ("hello", 5));
    assert!(b.cursor_is_at_end_of_line());
    assert_eq!(b.move_cursor_relative(-2), 3);
    b.insert_char('X');
    assert_eq!((b.text(), b.cursor()), ("helXlo", 4));
    b.delete_before_cursor();
    assert_eq!((b.text(), b.cursor()), ("hello", 3));
    b.delete_after_cursor();
    assert_eq!((b.text(), b.cursor()), ("helo", 3));
    assert_eq!(b.move_cursor_to(100), 4);
    assert_eq!(b.move_cursor_relative(-100), 0);
    b.delete_before_cursor();
    assert_eq!(b.text(), "helo");
    b.move_to_end_of_line();
    b.delete_after_cursor();
    assert_eq!((b.text(), b.cursor()), ("helo", 4));
    b.move_to_start_of_line();
    assert_eq!(b.cursor(), 0);
    assert_eq!(b.take_text(), "helo");
    assert!(b.is_empty());
    assert_eq!(b.cursor(), 0);
    b.insert_str("x");
    b.clear();
    assert!(b.is_empty());
}

#[test]
fn buffer_cursor_counts_bytes() {
    let mut b = Buffer::new();
    b.insert_str("é");
    assert_eq!(b.cursor(), 2);
    b.insert_char('a');
    assert_eq!((b.text(), b.cursor()), ("éa", 3));
}

#[test]
fn prompt_editing() {
    let mut p = Prompt::new();
    p.insert_str("ls");
    p.insert_char('x');
    assert_eq!((p.text(), p.cursor()), ("lsx", 3));
    p.move_cursor_relative(-1);
    p.delete_after_cursor();
    assert_eq!(p.text(), "ls");
    p.delete_before_cursor();
    assert_eq!((p.text(), p.cursor()), ("l", 1));
    p.move_to_start_of_line();
    p.move_to_end_of_line();
    assert_eq!(p.move_cursor_to(0), 0);
    assert_eq!(p.take_text(), "l");
    p.insert_str("q");
    p.clear();
    assert_eq!(p.text(), "");
}

#[test]
fn typing_and_submitting_a_line() {
    let mut editor = EditorState::new();
    type_text(&mut editor, "ls -l");
    assert_eq!(editor.buffer().text(), "ls -l");
    match editor.on_event(Event::Char('\n'), &no_completions()) {
        Response::Submit(line) => assert_eq!(line, "ls -l"),
        _ => panic!("expected the line"),
    }
    assert!(editor.buffer().is_empty());
    assert!(matches!(editor.on_event(Event::Char('\n'), &no_completions()), Response::LineBreak));
}

#[test]
fn typing_then_backspace_restores_the_line() {
    let mut editor = EditorState::new();
    type_text(&mut editor, "abc");
    editor.on_event(Event::Left, &no_completions());
    editor.on_event(Event::Char('x'), &no_completions());
    assert_eq!(editor.buffer().text(), "abxc");
    editor.on_event(Event::Backspace, &no_completions());
    assert_eq!((editor.buffer().text(), editor.buffer().cursor()), ("abc", 2));
}

#[test]
fn cursor_keys() {
    let mut editor = EditorState::new();
    type_text(&mut editor, "abc");
    editor.on_event(Event::Home, &no_completions());
    assert_eq!(editor.buffer().cursor(), 0);
    editor.on_event(Event::Ctrl('f'), &no_completions());
    assert_eq!(editor.buffer().cursor(), 1);
    editor.on_event(Event::Ctrl('e'), &no_completions());
    assert_eq!(editor.buffer().cursor(), 3);
    editor.on_event(Event::Ctrl('b'), &no_completions());
    assert_eq!(editor.buffer().cursor(), 2);
    editor.on_event(Event::Ctrl('a'), &no_completions());
    editor.on_event(Event::Left, &no_completions());
    assert_eq!(editor.buffer().cursor(), 0);
    editor.on_event(Event::Delete, &no_completions());
    assert_eq!(editor.buffer().text(), "bc");
    editor.on_event(Event::End, &no_completions());
    editor.on_event(Event::Delete, &no_completions());
    assert_eq!(editor.buffer().text(), "bc");
    editor.on_event(Event::Ctrl('c'), &no_completions());
    assert!(editor.buffer().is_empty());
    assert!(matches!(editor.on_event(Event::PageUp, &no_completions()), Response::Redraw));
}

#[test]
fn end_of_input_only_on_an_empty_line() {
    let mut editor = EditorState::new();
    type_text(&mut editor, "a");
    assert!(matches!(editor.on_event(Event::Ctrl('d'), &no_completions()), Response::Redraw));
    editor.on_event(Event::Backspace, &no_completions());
    assert!(matches!(editor.on_event(Event::Ctrl('d'), &no_completions()), Response::Eof));
    assert!(matches!(editor.on_event(Event::Eof, &no_completions()), Response::Eof));
}

#[test]
fn right_arrow_at_the_end_accepts_a_suggestion() {
    let mut editor = EditorState::new();
    type_text(&mut editor, "git st");
    let completer = Fixed(vec![String::from("git status"), String::from("git stash")]);
    editor.on_event(Event::Right, &completer);
    assert_eq!((editor.buffer().text(), editor.buffer().cursor()), ("git status", 10));
    // A suggestion that does not extend the line changes nothing.
    let other = Fixed(vec![String::from("ls")]);
    editor.on_event(Event::Right, &other);
    assert_eq!(editor.buffer().text(), "git status");
}

#[test]
fn accepting_suggestions_directly() {
    let mut editor = EditorState::new();
    type_text(&mut editor, "ec");
    editor.accept_suggestion(Some(String::from("ec")));
    assert_eq!(editor.buffer().text(), "ec");
    editor.accept_suggestion(None);
    assert_eq!(editor.buffer().text(), "ec");
    editor.accept_suggestion(Some(String::from("echo")));
    assert_eq!((editor.buffer().text(), editor.buffer().cursor()), ("echo", 4));
}

#[test]
fn browsing_the_history() {
    let mut editor = EditorState::new();
    type_text(&mut editor, "draft");
    assert!(matches!(editor.on_event(Event::Up, &no_completions()), Response::FetchOlder));
    editor.show_older(Some(String::from("make")));
    assert_eq!((editor.buffer().text(), editor.buffer().cursor()), ("make", 4));
    editor.on_event(Event::Up, &no_completions());
    editor.show_older(None);
    assert_eq!(editor.buffer().text(), "make");
    assert!(matches!(editor.on_event(Event::Down, &no_completions()), Response::FetchNewer));
    assert!(editor.buffer().is_empty());
    editor.show_newer(Some(String::from("cargo")));
    assert_eq!(editor.buffer().text(), "cargo");
    assert!(matches!(editor.on_event(Event::Down, &no_completions()), Response::FetchNewer));
    editor.show_newer(None);
    assert!(editor.buffer().is_empty());
    assert!(matches!(editor.on_event(Event::Down, &no_completions()), Response::Redraw));
}

#[test]
fn history_scene_takes_the_input_until_closed() {
    let mut editor = EditorState::new();
    editor.on_event(Event::Ctrl('h'), &no_completions());
    let shown = editor.render_with("$ ", None);
    assert_eq!(shown.len(), 4);
    assert!(matches!(shown[0], Output::Command(Command::EnableAlternateBuffer)));
    assert!(matches!(&shown[3], Output::Text(t) if t == "History..."));
    editor.on_event(Event::Char('a'), &no_completions());
    assert!(editor.buffer().is_empty());
    editor.on_event(Event::Char('\n'), &no_completions());
    type_text(&mut editor, "b");
    assert_eq!(editor.buffer().text(), "b");
}

#[test]
fn rendering_the_line() {
    let mut editor = EditorState::new();
    type_text(&mut editor, "ec");
    let out = editor.render_with("$ ", Some(String::from("echo")));
    assert_eq!(out.len(), 7);
    assert!(matches!(out[0], Output::Command(Command::DisableAlternateBuffer)));
    assert!(matches!(&out[1], Output::Text(t) if t == "\r"));
    assert!(matches!(out[2], Output::Command(Command::ClearAfterCursor)));
    assert!(matches!(&out[3], Output::Text(t) if t == "$ ec"));
    assert!(matches!(&out[4], Output::Dimmed(t) if t == "ho"));
    assert!(matches!(out[5], Output::Command(Command::MoveCursorLeft(2))));
    assert!(matches!(out[6], Output::Flush));

    editor.on_event(Event::Home, &no_completions());
    let out = editor.render(">", &no_completions());
    assert_eq!(out.len(), 6);
    assert!(matches!(out[4], Output::Command(Command::MoveCursorLeft(2))));
    assert!(matches!(out[5], Output::Flush));

    let empty = EditorState::new();
    let out = empty.render("$ ", &Fixed(vec![String::from("anything")]));
    assert_eq!(out.len(), 5);
}

#[test]
fn screen_commands_as_escape_sequences() {
    let mut screen = TerminalOutput::new();
    assert_eq!(screen.command(Command::Clear), b"\x1b[2J".to_vec());
    assert_eq!(screen.command(Command::ClearAfterCursor), b"\x1b[J".to_vec());
    assert_eq!(screen.command(Command::MoveCursorLeft(12)), b"\x1b[12D".to_vec());
    assert_eq!(screen.command(Command::MoveCursorLeft(0)), b"\x1b[0D".to_vec());
    assert_eq!(screen.command(Command::MoveCursorToAbsolute(1, 305)), b"\x1b[1;305H".to_vec());
    assert_eq!(screen.command(Command::DisableAlternateBuffer), Vec::<u8>::new());
    assert_eq!(screen.command(Command::EnableAlternateBuffer), b"\x1b[1049h".to_vec());
    assert_eq!(screen.command(Command::EnableAlternateBuffer), Vec::<u8>::new());
    assert_eq!(screen.command(Command::Clear), b"\x1b[2J".to_vec());
    assert_eq!(screen.command(Command::DisableAlternateBuffer), b"\x1b[1049l".to_vec());
    assert_eq!(screen.command(Command::DisableAlternateBuffer), Vec::<u8>::new());
}

#[test]
fn input_bytes_as_events() {
    assert_eq!(print_to_event('a'), Event::Char('a'));
    assert_eq!(print_to_event('\x7f'), Event::Backspace);
    assert_eq!(execute_to_event(0), Some(Event::Eof));
    assert_eq!(execute_to_event(b'\r'), Some(Event::Char('\n')));
    assert_eq!(execute_to_event(b'\n'), Some(Event::Char('\n')));
    assert_eq!(execute_to_event(0x01), Some(Event::Ctrl('a')));
    assert_eq!(execute_to_event(0x03), Some(Event::Ctrl('c')));
    assert_eq!(execute_to_event(0x1a), Some(Event::Ctrl('z')));
    assert_eq!(execute_to_event(0x1b), None);
    assert_eq!(execute_to_event(0x1c), Some(Event::Ctrl('4')));
    assert_eq!(execute_to_event(0x1f), Some(Event::Ctrl('7')));
    assert_eq!(execute_to_event(0x20), None);
    assert_eq!(csi_to_event('A', &[]), Some(Event::Up));
    assert_eq!(csi_to_event('B', &[1]), Some(Event::Down));
    assert_eq!(csi_to_event('C', &[]), Some(Event::Right));
    assert_eq!(csi_to_event('D', &[]), Some(Event::Left));
    assert_eq!(csi_to_event('F', &[]), Some(Event::End));
    assert_eq!(csi_to_event('~', &[4]), Some(Event::End));
    assert_eq!(csi_to_event('~', &[8]), Some(Event::End));
    assert_eq!(csi_to_event('H', &[]), Some(Event::Home));
    assert_eq!(csi_to_event('~', &[1]), Some(Event::Home));
    assert_eq!(csi_to_event('~', &[7]), Some(Event::Home));
    assert_eq!(csi_to_event('~', &[2]), Some(Event::Insert));
    assert_eq!(csi_to_event('~', &[3]), Some(Event::Delete));
    assert_eq!(csi_to_event('~', &[5]), Some(Event::PageUp));
    assert_eq!(csi_to_event('~', &[6]), Some(Event::PageDown));
    assert_eq!(csi_to_event('~', &[3, 5]), None);
    assert_eq!(csi_to_event('~', &[9]), None);
    assert_eq!(csi_to_event('Z', &[]), None);
}

#[test]
fn completers() {
    let test = TestCompleter;
    assert_eq!(test.complete("ls"), vec![String::from("ls - test completer")]);
    assert_eq!(test.complete_one("x"), Some(String::from("x - test completer")));
    let mut all = Composite::new();
    assert_eq!(all.complete("a"), Vec::<String>::new());
    assert_eq!(all.complete_one("a"), None);
    all.add(Fixed(vec![String::from("one"), String::from("two")]));
    all.add(Fixed(vec![]));
    all.add(Fixed(vec![String::from("three")]));
    assert_eq!(
        all.complete("a"),
        vec![String::from("one"), String::from("two"), String::from("three")]
    );
    assert_eq!(all.complete_one("a"), Some(String::from("one")));
    let mut tests = Composite::default();
    tests.add(TestCompleter);
    tests.add(TestCompleter);
    assert_eq!(
        tests.complete("x"),
        vec![String::from("x - test completer"), String::from("x - test completer")]
    );
    let empty: Composite<TestCompleter> = Composite::default();
    assert!(empty.complete("q").is_empty());
}

#[test]
fn history_browser_scene() {
    let mut browser = HistoryBrowser::default();
    assert_eq!(browser.render_mode(), RenderMode::Alt);
    assert_eq!(browser.render(), "History...");
    let mut ctx = SceneContext::default();
    browser.on_input(&mut ctx, Event::Char('x'));
    assert!(!ctx.close);
    browser.on_input(&mut ctx, Event::Char('\n'));
    assert!(ctx.close);
    let mut other = SceneContext::default();
    other.close();
    assert!(other.close);
}

#[test]
fn theme_prompt_pieces() {
    let theme = Theme {
        name: String::from("default"),
        prompt: Some(PromptTheme {
            format: Some(String::from("$")),
            item_separator: Some(String::from(" | ")),
            item_format: Some(String::from("[%s] %s%")),
        }),
    };
    assert_eq!(
        theme.prompt_pieces("/home"),
        Some((String::from("[/home] /home%"), String::from(" | $ ")))
    );
    let bare = Theme { name: String::from("bare"), prompt: None };
    assert_eq!(bare.prompt_pieces("/"), None);
    let partial = Theme {
        name: String::from("partial"),
        prompt: Some(PromptTheme { format: None, item_separator: None, item_format: None }),
    };
    assert_eq!(partial.prompt_pieces("/"), None);
}

#[test]
fn history_entries_and_schema() {
    let entry = CommandEntry::from_row(String::from("ls"), Some(String::from("/tmp")), 1_600_000_000);
    assert_eq!(entry.command(), "ls");
    assert_eq!(entry.timestamp(), 1_600_000_000);
    let negative = CommandEntry::from_row(String::from("x"), None, -1);
    assert_eq!(negative.timestamp(), u64::MAX);
    assert_eq!(schema_step(0), SchemaStep::Create);
    assert_eq!(schema_step(1), SchemaStep::Ready);
    assert_eq!(schema_step(7), SchemaStep::Unknown(7));
    let mut key = CursorKey::new();
    assert_eq!(key.key(), None);
    key.advance(5, 9);
    assert_eq!(key.key(), Some((5, 9)));
    let summary = CommandSummary { command: String::from("ls"), count: 3 };
    assert_eq!(summary.clone().count, 3);
}

#[test]
fn exit_codes() {
    let mut state = ExitState::new();
    assert_eq!(get(&state), None);
    riptide::exit::set(&mut state, 0);
    assert_eq!(get(&state), Some(0));
    riptide::exit::set(&mut state, 3);
    assert_eq!(get(&state), Some(3));
    riptide::exit::set(&mut state, 4);
    riptide::exit::set(&mut state, 0);
    assert_eq!(get(&state), Some(3));
    let mut minus = ExitState::new();
    riptide::exit::set(&mut minus, -1);
    assert_eq!(get(&minus), Some(-1));
    assert_eq!(exit_status(0), 0);
    assert_eq!(exit_status(255), 255);
    assert_eq!(exit_status(256), 0);
    assert_eq!(exit_status(-3), 253);
}

#[test]
fn log_levels() {
    assert_eq!(log_level_filter(true, 3), LogLevel::Off);
    assert_eq!(log_level_filter(false, 0), LogLevel::Warn);
    assert_eq!(verbosity_level(1), LogLevel::Info);
    assert_eq!(verbosity_level(2), LogLevel::Debug);
    assert_eq!(verbosity_level(9), LogLevel::Trace);
    riptide::logger::verbose(1);
    assert_eq!(log::max_level(), log::LevelFilter::Info);
    riptide::logger::quiet();
    assert_eq!(log::max_level(), log::LevelFilter::Off);
}
