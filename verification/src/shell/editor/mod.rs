//! The line editor: what each input event does to the command line, and
//! what is drawn for it.
//!
//! Reading the terminal, drawing and the history database stay with the
//! caller: an event is handed to `EditorState::on_event`, whose response
//! says what to do next, and the history entries that it asks for are handed
//! back through `show_older` and `show_newer`.

pub mod command;
pub mod event;
pub mod history_browser;
pub mod scene;

use crate::shell::buffer::{min_nat, relative_target, removes_char_at, spliced, Buffer};
use crate::shell::completion::Completer;
use crate::shell::editor::command::Command;
use crate::shell::editor::event::Event;
use crate::shell::editor::history_browser::HistoryBrowser;
use crate::shell::editor::scene::{Scene, SceneContext};
use crate::strings::{
    lemma_boundary_at_take, lemma_encode_concat, lemma_encode_split, str_strip_prefix,
    string_byte_len, utf8_of,
};
use vstd::prelude::*;
use vstd::utf8::*;

verus! {

broadcast use vstd::utf8::encode_utf8_decode_utf8;

/// The outcome of reading a line.
pub enum ReadLine {
    /// The line that the user submitted.
    Input(String),
    /// The user ended the input.
    Eof,
}

/// What the caller of `EditorState::on_event` is to do next.
pub enum Response {
    /// Redraw the command line.
    Redraw,
    /// Write a line break, then redraw.
    LineBreak,
    /// Write a line break and hand back the submitted line.
    Submit(String),
    /// The user ended the input.
    Eof,
    /// Fetch the next older history entry and pass its command to
    /// `show_older`.
    FetchOlder,
    /// Fetch the next newer history entry and pass its command to
    /// `show_newer`.
    FetchNewer,
}

/// One piece of output that drawing the editor produces.
pub enum Output {
    /// A screen command.
    Command(Command),
    /// Text to write as it is.
    Text(String),
    /// Text to write dimmed.
    Dimmed(String),
    /// Flush what was written.
    Flush,
}

/// An output piece as a mathematical value.
pub enum Piece {
    Command(Command),
    Text(Seq<char>),
    Dimmed(Seq<char>),
    Flush,
}

impl View for Output {
    type V = Piece;

    open spec fn view(&self) -> Piece {
        match self {
            Output::Command(c) => Piece::Command(*c),
            Output::Text(t) => Piece::Text(t@),
            Output::Dimmed(t) => Piece::Dimmed(t@),
            Output::Flush => Piece::Flush,
        }
    }
}

/// The terminal column, counted in bytes of the line, after writing the
/// characters of `t` from column `col`: a carriage return goes back to column
/// 0, and any other character moves right by its length in bytes.
pub open spec fn column_after_text(col: int, t: Seq<char>) -> int
    decreases t.len(),
{
    if t.len() == 0 {
        col
    } else if t.last() == '\r' {
        0
    } else {
        column_after_text(col, t.drop_last()) + utf8_of(seq![t.last()]).len()
    }
}

/// The terminal column after one piece of output at column `col`: text moves
/// it as its characters do, moving the cursor left by `n` moves it back by
/// `n`, moving it to row `x` and column `y` puts it at `y - 1`, and the rest
/// keep it.
pub open spec fn column_after_piece(col: int, piece: Piece) -> int {
    match piece {
        Piece::Text(t) => column_after_text(col, t),
        Piece::Dimmed(t) => column_after_text(col, t),
        Piece::Command(Command::MoveCursorLeft(n)) => col - n,
        Piece::Command(Command::MoveCursorToAbsolute(_, y)) => y - 1,
        _ => col,
    }
}

/// The terminal column after writing `pieces` from column `col`.
pub open spec fn column_after(col: int, pieces: Seq<Piece>) -> int
    decreases pieces.len(),
{
    if pieces.len() == 0 {
        col
    } else {
        column_after_piece(column_after(col, pieces.drop_last()), pieces.last())
    }
}

/// Text without a carriage return moves the column by its length in bytes.
proof fn lemma_text_column(col: int, t: Seq<char>)
    requires
        forall|i: int| 0 <= i < t.len() ==> t[i] != '\r',
    ensures
        column_after_text(col, t) == col + utf8_of(t).len(),
    decreases t.len(),
{
    if t.len() == 0 {
        assert(utf8_of(t) =~= Seq::<u8>::empty());
    } else {
        let a = t.drop_last();
        assert(forall|i: int| 0 <= i < a.len() ==> a[i] == t[i]);
        lemma_text_column(col, a);
        assert(t =~= a + seq![t.last()]);
        lemma_encode_concat(a, seq![t.last()]);
    }
}

/// Writing two runs of output one after the other.
proof fn lemma_column_concat(col: int, a: Seq<Piece>, b: Seq<Piece>)
    ensures
        column_after(col, a + b) == column_after(column_after(col, a), b),
    decreases b.len(),
{
    if b.len() == 0 {
        assert(a + b =~= a);
    } else {
        lemma_column_concat(col, a, b.drop_last());
        assert((a + b).drop_last() =~= a + b.drop_last());
        assert((a + b).last() == b.last());
    }
}

/// After drawing the command line, the terminal cursor stands at the buffer
/// cursor: whatever column it started at, it ends at the width of the prompt
/// plus the cursor's byte offset in the line, with or without a suggestion
/// drawn after the text (for text without carriage returns).
pub proof fn lemma_render_places_cursor(
    e: EditorState,
    start: int,
    prompt: Seq<char>,
    suggestion: Option<Seq<char>>,
)
    requires
        e.wf(),
        e.scene_count() == 0,
        forall|i: int| 0 <= i < prompt.len() ==> prompt[i] != '\r',
        forall|i: int| 0 <= i < e.line().chars().len() ==> e.line().chars()[i] != '\r',
        suggestion matches Some(s) ==> utf8_of(s).len() <= isize::MAX && forall|i: int|
            0 <= i < s.len() ==> s[i] != '\r',
    ensures
        column_after(start, e.plan(prompt, suggestion)) == utf8_of(prompt).len()
            + e.line().cursor_pos(),
{
    reveal_strlit("\r");
    let text = e.line().chars();
    let len = e.line().bytes().len();
    let cur = e.line().cursor_pos();
    e.line().lemma_bytes_chars();
    let shown = prompt + text;
    assert forall|i: int| 0 <= i < shown.len() implies shown[i] != '\r' by {
        if i >= prompt.len() {
            assert(shown[i] == text[i - prompt.len()]);
        }
    }
    lemma_text_column(0, shown);
    lemma_encode_concat(prompt, text);
    let head = seq![
        Piece::Command(Command::DisableAlternateBuffer),
        Piece::Text("\r"@),
        Piece::Command(Command::ClearAfterCursor),
        Piece::Text(shown),
    ];
    let h1 = seq![Piece::Command(Command::DisableAlternateBuffer)];
    let h2 = h1.push(Piece::Text("\r"@));
    let h3 = h2.push(Piece::Command(Command::ClearAfterCursor));
    assert(head =~= h3.push(Piece::Text(shown)));
    assert(h1.drop_last() =~= Seq::<Piece>::empty());
    assert(column_after(start, Seq::<Piece>::empty()) == start);
    assert(column_after(start, h1) == start);
    assert(column_after_text(start, "\r"@) == 0) by {
        assert("\r"@.len() == 1);
        assert("\r"@.last() == '\r');
    }
    assert(h2.drop_last() =~= h1);
    assert(column_after(start, h2) == 0);
    assert(h3.drop_last() =~= h2);
    assert(column_after(start, h3) == 0);
    assert(head.drop_last() =~= h3);
    assert(column_after(start, head) == utf8_of(prompt).len() + len);
    let hint = match suggested_suffix(text, suggestion) {
        Some(suffix) => if text.len() > 0 {
            seq![
                Piece::Dimmed(suffix),
                Piece::Command(Command::MoveCursorLeft(utf8_of(suffix).len() as usize)),
            ]
        } else {
            Seq::<Piece>::empty()
        },
        None => Seq::<Piece>::empty(),
    };
    if let Some(suffix) = suggested_suffix(text, suggestion) {
        let sg = suggestion->0;
        assert(suffix == sg.skip(text.len() as int));
        assert forall|i: int| 0 <= i < suffix.len() implies suffix[i] != '\r' by {
            assert(suffix[i] == sg[i + text.len()]);
        }
        lemma_text_column((utf8_of(prompt).len() + len) as int, suffix);
        lemma_encode_split(sg, text.len() as int);
        if text.len() > 0 {
            let c0 = column_after(start, head);
            let d = seq![Piece::Dimmed(suffix)];
            assert(d.drop_last() =~= Seq::<Piece>::empty());
            assert(column_after(c0, Seq::<Piece>::empty()) == c0);
            assert(column_after(c0, d) == c0 + utf8_of(suffix).len());
            assert(hint.drop_last() =~= d);
            assert(utf8_of(suffix).len() <= isize::MAX);
        }
    }
    assert(column_after(column_after(start, head), Seq::<Piece>::empty()) == column_after(
        start,
        head,
    ));
    assert(column_after(column_after(start, head), hint) == utf8_of(prompt).len() + len);
    let back = if cur < len {
        seq![Piece::Command(Command::MoveCursorLeft((len - cur) as usize))]
    } else {
        Seq::<Piece>::empty()
    };
    let c1 = column_after(column_after(start, head), hint);
    assert(column_after(c1, Seq::<Piece>::empty()) == c1);
    if cur < len {
        assert(back.drop_last() =~= Seq::<Piece>::empty());
        assert(column_after(c1, back) == c1 - (len - cur));
    }
    let c2 = column_after(c1, back);
    assert(c2 == utf8_of(prompt).len() + cur);
    let tail = seq![Piece::Flush];
    assert(tail.drop_last() =~= Seq::<Piece>::empty());
    assert(column_after(c2, Seq::<Piece>::empty()) == c2);
    assert(column_after(c2, tail) == c2);
    assert(e.plan(prompt, suggestion) == head + hint + back + tail);
    lemma_column_concat(start, head, hint);
    lemma_column_concat(start, head + hint, back);
    lemma_column_concat(start, head + hint + back, tail);
}

/// The command line is the same in `a` and `b`.
pub open spec fn same_line(a: Buffer, b: Buffer) -> bool {
    &&& b.bytes() == a.bytes()
    &&& b.chars() == a.chars()
    &&& b.cursor_pos() == a.cursor_pos()
}

/// `b` holds the text of `a` with the cursor at `pos`.
pub open spec fn moved_to(a: Buffer, b: Buffer, pos: nat) -> bool {
    &&& b.bytes() == a.bytes()
    &&& b.chars() == a.chars()
    &&& b.cursor_pos() == pos
}

/// `b` is empty, with the cursor at the start.
pub open spec fn emptied(b: Buffer) -> bool {
    &&& b.bytes() == Seq::<u8>::empty()
    &&& b.chars() == Seq::<char>::empty()
    &&& b.cursor_pos() == 0
}

/// `b` holds exactly `text`, with the cursor at its end.
pub open spec fn holds(b: Buffer, text: Seq<char>) -> bool {
    &&& b.chars() == text
    &&& b.bytes() == utf8_of(text)
    &&& b.cursor_pos() == utf8_of(text).len()
}

/// The part of `suggestion` past `text`, when the suggestion starts with the
/// text and goes on past it.
pub open spec fn suggested_suffix(text: Seq<char>, suggestion: Option<Seq<char>>) -> Option<
    Seq<char>,
> {
    match suggestion {
        Some(s) => if text.is_prefix_of(s) && s.len() > text.len() {
            Some(s.skip(text.len() as int))
        } else {
            None
        },
        None => None,
    }
}

/// The part of `suggestion` that completes `text`: its suggested suffix,
/// when the whole suggestion fits a string.
pub open spec fn completion_suffix(text: Seq<char>, suggestion: Option<Seq<char>>) -> Option<
    Seq<char>,
> {
    match suggestion {
        Some(s) => if utf8_of(s).len() <= isize::MAX {
            suggested_suffix(text, suggestion)
        } else {
            None
        },
        None => None,
    }
}

/// The first of a list of completions, if any.
pub open spec fn best_of(all: Seq<Seq<char>>) -> Option<Seq<char>> {
    if all.len() > 0 {
        Some(all[0])
    } else {
        None
    }
}

/// `b1` is `b0` after filling in `suggestion`: the line becomes the
/// suggestion, with the cursor at its end, when the suggestion completes
/// it, and stays as it is otherwise.
pub open spec fn filled_in(b0: Buffer, suggestion: Option<Seq<char>>, b1: Buffer) -> bool {
    match completion_suffix(b0.chars(), suggestion) {
        Some(_) => holds(b1, suggestion->Some_0),
        None => same_line(b0, b1),
    }
}

/// A string option as an option of character sequences.
pub open spec fn opt_view(o: Option<String>) -> Option<Seq<char>> {
    match o {
        Some(s) => Some(s@),
        None => None,
    }
}

/// What an event does when no scene is open, for the events whose effect
/// does not wait on a completer or on the history: `r` is the response,
/// `b0` and `b1` the line before and after, and `h0` and `h1` whether the
/// history is being browsed before and after.
pub open spec fn handled(
    event: Event,
    b0: Buffer,
    h0: bool,
    r: Response,
    b1: Buffer,
    h1: bool,
) -> bool {
    let len = b0.bytes().len();
    let cur = b0.cursor_pos();
    match event {
        Event::Char('\n') => if len > 0 {
            &&& r matches Response::Submit(line) && line@ == b0.chars()
            &&& emptied(b1)
            &&& !h1
        } else {
            r is LineBreak && same_line(b0, b1) && h1 == h0
        },
        Event::Left | Event::Ctrl('b') => {
            &&& r is Redraw && h1 == h0
            &&& moved_to(b0, b1, min_nat(len, relative_target(cur as int, -1) as nat))
        },
        Event::Right | Event::Ctrl('f') => r is Redraw && h1 == h0 && if cur == len {
            same_line(b0, b1) || exists|s: Seq<char>|
                completion_suffix(b0.chars(), Some(s)) is Some && #[trigger] holds(b1, s)
        } else {
            moved_to(b0, b1, min_nat(len, relative_target(cur as int, 1) as nat))
        },
        Event::Up => r is FetchOlder && same_line(b0, b1) && h1,
        Event::Down => if h0 {
            r is FetchNewer && emptied(b1) && !h1
        } else {
            r is Redraw && same_line(b0, b1) && !h1
        },
        Event::Home | Event::Ctrl('a') => r is Redraw && h1 == h0 && moved_to(b0, b1, 0),
        Event::End | Event::Ctrl('e') => r is Redraw && h1 == h0 && moved_to(b0, b1, len),
        Event::Char(c) => {
            &&& r is Redraw && h1 == h0
            &&& b1.bytes() == spliced(b0.bytes(), cur as int, encode_utf8(seq![c]))
            &&& b1.cursor_pos() == cur + 1
        },
        Event::Backspace => r is Redraw && h1 == h0 && if cur > 0 {
            &&& exists|ch: char| #[trigger] removes_char_at(b0.bytes(), b1.bytes(), cur - 1, ch)
            &&& b1.cursor_pos() == cur - 1
        } else {
            same_line(b0, b1)
        },
        Event::Delete => r is Redraw && h1 == h0 && b1.cursor_pos() == cur && if cur < len {
            exists|ch: char| #[trigger] removes_char_at(b0.bytes(), b1.bytes(), cur as int, ch)
        } else {
            b1.bytes() == b0.bytes()
        },
        Event::Ctrl('c') => r is Redraw && h1 == h0 && emptied(b1),
        Event::Ctrl('d') | Event::Eof => h1 == h0 && same_line(b0, b1) && if len == 0 {
            r is Eof
        } else {
            r is Redraw
        },
        _ => r is Redraw && h1 == h0 && same_line(b0, b1),
    }
}

/// Typing a one-byte character and then a backspace gives back the line
/// from before, when no scene is open.
pub proof fn lemma_type_then_backspace(
    c: char,
    b0: Buffer,
    h0: bool,
    r1: Response,
    b1: Buffer,
    h1: bool,
    r2: Response,
    b2: Buffer,
    h2: bool,
)
    requires
        c != '\n',
        encode_utf8(seq![c]).len() == 1,
        b0.wf(),
        handled(Event::Char(c), b0, h0, r1, b1, h1),
        handled(Event::Backspace, b1, h1, r2, b2, h2),
    ensures
        b2.bytes() == b0.bytes(),
        b2.chars() == b0.chars(),
        b2.cursor_pos() == b0.cursor_pos(),
        h2 == h0,
{
    let ch = choose|ch: char|
        #[trigger] removes_char_at(b1.bytes(), b2.bytes(), b1.cursor_pos() - 1, ch);
    crate::shell::buffer::lemma_insert_then_delete_restores(
        b0.bytes(),
        b0.cursor_pos() as int,
        c,
        b2.bytes(),
        ch,
    );
    b0.lemma_bytes_chars();
    b2.lemma_bytes_chars();
    assert(b0.chars() == decode_utf8(utf8_of(b0.chars())));
    assert(b2.chars() == decode_utf8(utf8_of(b2.chars())));
}

/// The state of the line editor: the command line, the stack of open
/// scenes, the topmost of which receives all input, and whether the user is
/// browsing the history.
pub struct EditorState {
    buffer: Buffer,
    scenes: Vec<HistoryBrowser>,
    history_open: bool,
}

impl EditorState {
    /// The command line.
    pub closed spec fn line(&self) -> Buffer {
        self.buffer
    }

    /// The number of open scenes.
    pub closed spec fn scene_count(&self) -> nat {
        self.scenes@.len()
    }

    /// Whether the user is browsing the history.
    pub closed spec fn browsing(&self) -> bool {
        self.history_open
    }

    pub open spec fn wf(&self) -> bool {
        self.line().wf()
    }

    /// Whether `event` can be handled without splitting a character of the
    /// line: typed characters go in, and deleted characters start, at
    /// character boundaries.
    pub open spec fn can_handle(&self, event: Event) -> bool {
        let bytes = self.line().bytes();
        let cur = self.line().cursor_pos();
        self.scene_count() > 0 || match event {
            Event::Char(c) => c == '\n' || (is_char_boundary(bytes, cur as int) && bytes.len()
                + encode_utf8(seq![c]).len() <= isize::MAX),
            Event::Backspace => cur > 0 ==> is_char_boundary(bytes, cur - 1),
            Event::Delete => cur < bytes.len() ==> is_char_boundary(bytes, cur as int),
            _ => true,
        }
    }

    /// An empty command line, no scene open, and no history browsed.
    pub fn new() -> (e: Self)
        ensures
            e.wf(),
            emptied(e.line()),
            e.scene_count() == 0,
            !e.browsing(),
    {
        EditorState { buffer: Buffer::new(), scenes: Vec::new(), history_open: false }
    }

    /// The command line.
    pub fn buffer(&self) -> (b: &Buffer)
        ensures
            *b == self.line(),
    {
        &self.buffer
    }

    /// Whether a scene is open.
    pub fn has_scene(&self) -> (r: bool)
        ensures
            r == (self.scene_count() > 0),
    {
        self.scenes.len() > 0
    }

    /// Handle one input event.
    ///
    /// While a scene is open, the event goes to the topmost scene, which is
    /// closed if it asks to be. Otherwise the event edits the command line
    /// as `handled` says; when the cursor is at the end of the line, a
    /// right arrow fills in the completer's best suggestion, if any.
    pub fn on_event<C: Completer>(&mut self, event: Event, completer: &C) -> (r: Response)
        requires
            old(self).wf(),
            old(self).can_handle(event),
        ensures
            final(self).wf(),
            old(self).scene_count() > 0 ==> {
                &&& r is Redraw
                &&& same_line(old(self).line(), final(self).line())
                &&& final(self).browsing() == old(self).browsing()
                &&& final(self).scene_count() == if event == Event::Char('\n') {
                    old(self).scene_count() - 1
                } else {
                    old(self).scene_count() as int
                }
            },
            old(self).scene_count() == 0 ==> {
                &&& final(self).scene_count() == if event == Event::Ctrl('h') {
                    1nat
                } else {
                    0nat
                }
                &&& handled(
                    event,
                    old(self).line(),
                    old(self).browsing(),
                    r,
                    final(self).line(),
                    final(self).browsing(),
                )
            },
            old(self).scene_count() == 0 && (event == Event::Right || event == Event::Ctrl('f'))
                && old(self).line().cursor_pos() == old(self).line().bytes().len() ==> exists|
                all: Seq<Seq<char>>,
            |
                #[trigger] completer.offers(old(self).line().chars(), all) && filled_in(
                    old(self).line(),
                    best_of(all),
                    final(self).line(),
                ),
    {
        let n = self.scenes.len();
        if n > 0 {
            let mut ctx = SceneContext::default();
            let mut scene = self.scenes.pop().unwrap();
            scene.on_input(&mut ctx, event);
            if !ctx.close {
                self.scenes.push(scene);
            }
            return Response::Redraw;
        }
        proof {
            self.buffer.lemma_bytes_chars();
        }
        match event {
            Event::Char('\n') => {
                if !self.buffer.is_empty() {
                    // Move the command line out of the buffer and return it.
                    self.history_open = false;
                    return Response::Submit(self.buffer.take_text());
                }
                Response::LineBreak
            },
            Event::Left | Event::Ctrl('b') => {
                self.buffer.move_cursor_relative(-1);
                Response::Redraw
            },
            Event::Right | Event::Ctrl('f') => {
                if self.buffer.cursor_is_at_end_of_line() {
                    // Fill in the current suggested command, if any.
                    let suggestion = completer.complete_one(self.buffer.text());
                    let ghost before = self.buffer;
                    self.accept_suggestion(suggestion);
                    proof {
                        let all = choose|all: Seq<Seq<char>>|
                            #[trigger] completer.offers(before.chars(), all) && if all.len() > 0 {
                                suggestion matches Some(s) && s@ == all[0]
                            } else {
                                suggestion is None
                            };
                        assert(opt_view(suggestion) == best_of(all));
                        assert(filled_in(before, best_of(all), self.buffer));
                    }
                } else {
                    // Advance the cursor right as normal.
                    self.buffer.move_cursor_relative(1);
                }
                Response::Redraw
            },
            Event::Up => {
                self.history_open = true;
                Response::FetchOlder
            },
            Event::Down => {
                if self.history_open {
                    self.buffer.clear();
                    self.history_open = false;
                    Response::FetchNewer
                } else {
                    Response::Redraw
                }
            },
            Event::Home | Event::Ctrl('a') => {
                self.buffer.move_to_start_of_line();
                Response::Redraw
            },
            Event::End | Event::Ctrl('e') => {
                self.buffer.move_to_end_of_line();
                Response::Redraw
            },
            Event::Char(c) => {
                self.buffer.insert_char(c);
                Response::Redraw
            },
            Event::Backspace => {
                let ghost before = self.buffer.chars();
                self.buffer.delete_before_cursor();
                proof {
                    self.buffer.lemma_bytes_chars();
                    assert(before == decode_utf8(utf8_of(before)));
                    assert(self.buffer.chars() == decode_utf8(utf8_of(self.buffer.chars())));
                }
                Response::Redraw
            },
            Event::Delete => {
                self.buffer.delete_after_cursor();
                Response::Redraw
            },
            Event::Ctrl('c') => {
                self.buffer.clear();
                Response::Redraw
            },
            Event::Ctrl('d') | Event::Eof => {
                if self.buffer.is_empty() {
                    Response::Eof
                } else {
                    Response::Redraw
                }
            },
            Event::Ctrl('h') => {
                self.scenes.push(HistoryBrowser {});
                Response::Redraw
            },
            _ => Response::Redraw,
        }
    }

    /// Fill in the rest of a suggested command: when the suggestion starts
    /// with the line and goes on past it, the line becomes the suggestion
    /// and the cursor moves to its end.
    pub fn accept_suggestion(&mut self, suggestion: Option<String>)
        requires
            old(self).wf(),
            old(self).line().cursor_pos() == old(self).line().bytes().len(),
        ensures
            final(self).wf(),
            final(self).scene_count() == old(self).scene_count(),
            final(self).browsing() == old(self).browsing(),
            match suggestion {
                Some(s) => if completion_suffix(old(self).line().chars(), Some(s@)) is Some {
                    holds(final(self).line(), s@)
                } else {
                    same_line(old(self).line(), final(self).line())
                },
                None => same_line(old(self).line(), final(self).line()),
            },
    {
        proof {
            self.buffer.lemma_bytes_chars();
        }
        if let Some(suggestion) = suggestion {
            let total = string_byte_len(&suggestion);
            if let Some(suffix) = str_strip_prefix(suggestion.as_str(), self.buffer.text()) {
                if !suffix.as_str().is_empty() {
                    let ghost text = self.buffer.chars();
                    proof {
                        assert(suggestion@ =~= text + suffix@);
                        lemma_encode_concat(text, suffix@);
                        lemma_boundary_at_take(text, text.len() as int);
                        assert(text.take(text.len() as int) =~= text);
                    }
                    self.buffer.insert_str(suffix.as_str());
                    proof {
                        self.buffer.lemma_bytes_chars();
                        assert(self.buffer.bytes() =~= utf8_of(suggestion@));
                        assert(self.buffer.chars() == decode_utf8(utf8_of(self.buffer.chars())));
                        assert(suggestion@ == decode_utf8(utf8_of(suggestion@)));
                    }
                }
            }
        }
    }

    /// Show the next older history entry: the line becomes its command, with
    /// the cursor at the end. With no older entry the line stays.
    pub fn show_older(&mut self, command: Option<String>)
        requires
            old(self).wf(),
        ensures
            final(self).wf(),
            final(self).scene_count() == old(self).scene_count(),
            final(self).browsing() == old(self).browsing(),
            match command {
                Some(c) => holds(final(self).line(), c@),
                None => same_line(old(self).line(), final(self).line()),
            },
    {
        if let Some(command) = command {
            self.show_command(&command);
        }
    }

    /// Show the next newer history entry: the line, emptied when the newer
    /// entry was asked for, becomes its command, and the history stays open.
    /// With no newer entry the line stays empty and the history is closed.
    pub fn show_newer(&mut self, command: Option<String>)
        requires
            old(self).wf(),
        ensures
            final(self).wf(),
            final(self).scene_count() == old(self).scene_count(),
            match command {
                Some(c) => holds(final(self).line(), c@) && final(self).browsing(),
                None => same_line(old(self).line(), final(self).line()) && final(self).browsing()
                    == old(self).browsing(),
            },
    {
        if let Some(command) = command {
            self.show_command(&command);
            self.history_open = true;
        }
    }

    fn show_command(&mut self, command: &String)
        requires
            old(self).wf(),
        ensures
            final(self).wf(),
            final(self).scene_count() == old(self).scene_count(),
            final(self).browsing() == old(self).browsing(),
            holds(final(self).line(), command@),
    {
        let _ = string_byte_len(command);
        self.buffer.clear();
        self.buffer.insert_str(command.as_str());
        proof {
            self.buffer.lemma_bytes_chars();
            assert(self.buffer.bytes() =~= utf8_of(command@));
            assert(self.buffer.chars() == decode_utf8(utf8_of(self.buffer.chars())));
            assert(command@ == decode_utf8(utf8_of(command@)));
        }
    }

    /// What drawing the editor writes, given the prompt and the completer's
    /// best suggestion for the line.
    ///
    /// An open scene is drawn alone on the alternate screen. Otherwise the
    /// normal screen gets the prompt and the line, the dimmed rest of a
    /// suggestion that goes on past a non-empty line, with the cursor moved
    /// back over it, then the cursor moved back from the end of the line to
    /// its place, and a flush.
    pub open spec fn plan(&self, prompt: Seq<char>, suggestion: Option<Seq<char>>) -> Seq<Piece> {
        if self.scene_count() > 0 {
            seq![
                Piece::Command(Command::EnableAlternateBuffer),
                Piece::Command(Command::Clear),
                Piece::Command(Command::MoveCursorToAbsolute(1, 1)),
                Piece::Text("History..."@),
            ]
        } else {
            let text = self.line().chars();
            let len = self.line().bytes().len();
            let cur = self.line().cursor_pos();
            let hint = match suggested_suffix(text, suggestion) {
                Some(suffix) => if text.len() > 0 {
                    seq![
                        Piece::Dimmed(suffix),
                        Piece::Command(Command::MoveCursorLeft(utf8_of(suffix).len() as usize)),
                    ]
                } else {
                    Seq::<Piece>::empty()
                },
                None => Seq::<Piece>::empty(),
            };
            let back = if cur < len {
                seq![Piece::Command(Command::MoveCursorLeft((len - cur) as usize))]
            } else {
                Seq::<Piece>::empty()
            };
            seq![
                Piece::Command(Command::DisableAlternateBuffer),
                Piece::Text("\r"@),
                Piece::Command(Command::ClearAfterCursor),
                Piece::Text(prompt + text),
            ] + hint + back + seq![Piece::Flush]
        }
    }

    /// Draw the editor: ask the completer for its best suggestion when the
    /// line is not empty and no scene is open, and lay out what to write.
    pub fn render<C: Completer>(&self, prompt: &str, completer: &C) -> (out: Vec<Output>)
        requires
            self.wf(),
        ensures
            self.scene_count() > 0 || self.line().chars().len() == 0 ==> out@.map_values(
                |o: Output| o@,
            ) == self.plan(prompt@, None),
            self.scene_count() == 0 && self.line().chars().len() > 0 ==> exists|
                all: Seq<Seq<char>>,
            |
                #[trigger] completer.offers(self.line().chars(), all) && out@.map_values(
                    |o: Output| o@,
                ) == self.plan(prompt@, best_of(all)),
    {
        let suggestion = if self.scenes.len() == 0 && !self.buffer.is_empty() {
            completer.complete_one(self.buffer.text())
        } else {
            None
        };
        let out = self.render_with(prompt, suggestion);
        proof {
            if self.scene_count() == 0 && self.line().chars().len() > 0 {
                let all = choose|all: Seq<Seq<char>>|
                    #[trigger] completer.offers(self.line().chars(), all) && if all.len() > 0 {
                        suggestion matches Some(s) && s@ == all[0]
                    } else {
                        suggestion is None
                    };
                assert(opt_view(suggestion) == best_of(all));
            }
        }
        out
    }

    /// Lay out what drawing the editor writes, given the prompt and a
    /// suggestion for the line.
    pub fn render_with(&self, prompt: &str, suggestion: Option<String>) -> (out: Vec<Output>)
        requires
            self.wf(),
        ensures
            out@.map_values(|o: Output| o@) == self.plan(prompt@, opt_view(suggestion)),
    {
        let mut out: Vec<Output> = Vec::new();
        if self.scenes.len() > 0 {
            out.push(Output::Command(Command::EnableAlternateBuffer));
            out.push(Output::Command(Command::Clear));
            out.push(Output::Command(Command::MoveCursorToAbsolute(1, 1)));
            let top = self.scenes.len() - 1;
            out.push(Output::Text(self.scenes[top].render()));
            proof {
                assert(out@.map_values(|o: Output| o@) =~= self.plan(
                    prompt@,
                    opt_view(suggestion),
                ));
            }
            return out;
        }
        proof {
            self.buffer.lemma_bytes_chars();
        }
        out.push(Output::Command(Command::DisableAlternateBuffer));
        out.push(Output::Text(String::from_str("\r")));
        out.push(Output::Command(Command::ClearAfterCursor));
        let mut line = String::from_str(prompt);
        line.append(self.buffer.text());
        out.push(Output::Text(line));
        let ghost head = out@;
        // The top completion suggestion.
        if !self.buffer.is_empty() {
            if let Some(suggestion) = &suggestion {
                if let Some(suffix) = str_strip_prefix(suggestion.as_str(), self.buffer.text()) {
                    if !suffix.as_str().is_empty() {
                        let width = suffix.as_str().len();
                        out.push(Output::Dimmed(suffix));
                        out.push(Output::Command(Command::MoveCursorLeft(width)));
                    }
                }
            }
        }
        let ghost hinted = out@;
        // Move the cursor back to its place in the line.
        let len = self.buffer.text().len();
        let cursor = self.buffer.cursor();
        if cursor < len {
            out.push(Output::Command(Command::MoveCursorLeft(len - cursor)));
        }
        let ghost moved = out@;
        out.push(Output::Flush);
        proof {
            let text = self.line().chars();
            let pieces = |o: Output| o@;
            assert(head.map_values(pieces) =~= seq![
                Piece::Command(Command::DisableAlternateBuffer),
                Piece::Text("\r"@),
                Piece::Command(Command::ClearAfterCursor),
                Piece::Text(prompt@ + text),
            ]);
            assert(out@ =~= head + hinted.skip(head.len() as int) + moved.skip(
                hinted.len() as int,
            ) + seq![Output::Flush]);
            assert(out@.map_values(pieces) =~= self.plan(prompt@, opt_view(suggestion)));
        }
        out
    }
}

} // verus!
