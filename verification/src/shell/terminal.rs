//! The terminal's side of the editor: what input bytes mean, and the escape
//! sequences that carry screen commands.

use crate::shell::editor::command::Command;
use crate::shell::editor::event::Event;
use vstd::prelude::*;

verus! {

/// The decimal digits of `n`, in ASCII.
pub open spec fn decimal(n: nat) -> Seq<u8>
    decreases n,
{
    if n < 10 {
        seq![(0x30 + n) as u8]
    } else {
        decimal(n / 10).push((0x30 + n % 10) as u8)
    }
}

/// Append the decimal digits of `n` to `out`.
pub fn push_decimal(out: &mut Vec<u8>, n: usize)
    ensures
        final(out)@ == old(out)@ + decimal(n as nat),
    decreases n,
{
    if n >= 10 {
        push_decimal(out, n / 10);
    }
    let digit: u8 = (n % 10) as u8;
    out.push(0x30 + digit);
    proof {
        assert(final(out)@ =~= old(out)@ + decimal(n as nat));
    }
}

/// The escape sequence of a screen command, and whether the alternate
/// screen buffer is in use after it, given whether it was before. Switching
/// to the buffer already in use writes nothing.
pub open spec fn command_bytes(alt: bool, command: Command) -> (Seq<u8>, bool) {
    let csi = seq![0x1bu8, 0x5bu8];
    match command {
        Command::Clear => (csi + seq![0x32u8, 0x4au8], alt),
        Command::ClearAfterCursor => (csi + seq![0x4au8], alt),
        Command::MoveCursorLeft(n) => (csi + decimal(n as nat) + seq![0x44u8], alt),
        Command::MoveCursorToAbsolute(x, y) => (
            csi + decimal(x as nat) + seq![0x3bu8] + decimal(y as nat) + seq![0x48u8],
            alt,
        ),
        Command::EnableAlternateBuffer => if alt {
            (Seq::<u8>::empty(), true)
        } else {
            (csi + seq![0x31u8, 0x30u8, 0x34u8, 0x39u8, 0x68u8], true)
        },
        Command::DisableAlternateBuffer => if alt {
            (csi + seq![0x31u8, 0x30u8, 0x34u8, 0x39u8, 0x6cu8], false)
        } else {
            (Seq::<u8>::empty(), false)
        },
    }
}

/// The output side of the terminal, as far as it decides what to write:
/// which screen buffer the terminal shows.
pub struct TerminalOutput {
    is_alt_buffer: bool,
}

/// A call of `command` on `before` with `command` returned `bytes` and left
/// `after`.
pub open spec fn commanded(
    before: TerminalOutput,
    command: Command,
    bytes: Seq<u8>,
    after: TerminalOutput,
) -> bool {
    &&& bytes == command_bytes(before.alt(), command).0
    &&& after.alt() == command_bytes(before.alt(), command).1
}

/// Switching screen buffers is idempotent: switching to the alternate
/// buffer writes `ESC [ 1049 h` only when the normal one is in use and leaves
/// the alternate one in use, switching back writes `ESC [ 1049 l` only when
/// the alternate one is in use and leaves the normal one in use, so the same
/// switch a second time writes nothing; every other command writes its
/// sequence, the same each time, and keeps the buffer in use.
pub proof fn lemma_buffer_switch_is_idempotent(
    t0: TerminalOutput,
    command: Command,
    first: Seq<u8>,
    t1: TerminalOutput,
    second: Seq<u8>,
    t2: TerminalOutput,
)
    requires
        commanded(t0, command, first, t1),
        commanded(t1, command, second, t2),
    ensures
        command is EnableAlternateBuffer ==> {
            &&& first == if t0.alt() {
                Seq::<u8>::empty()
            } else {
                seq![0x1bu8, 0x5bu8, 0x31u8, 0x30u8, 0x34u8, 0x39u8, 0x68u8]
            }
            &&& t1.alt() && t2.alt()
            &&& second.len() == 0
        },
        command is DisableAlternateBuffer ==> {
            &&& first == if t0.alt() {
                seq![0x1bu8, 0x5bu8, 0x31u8, 0x30u8, 0x34u8, 0x39u8, 0x6cu8]
            } else {
                Seq::<u8>::empty()
            }
            &&& !t1.alt() && !t2.alt()
            &&& second.len() == 0
        },
        !(command is EnableAlternateBuffer) && !(command is DisableAlternateBuffer) ==> {
            &&& t1.alt() == t0.alt() && t2.alt() == t0.alt()
            &&& first.len() > 0
            &&& second == first
        },
{
    assert(seq![0x1bu8, 0x5bu8] + seq![0x31u8, 0x30u8, 0x34u8, 0x39u8, 0x68u8] =~= seq![
        0x1bu8,
        0x5bu8,
        0x31u8,
        0x30u8,
        0x34u8,
        0x39u8,
        0x68u8,
    ]);
    assert(seq![0x1bu8, 0x5bu8] + seq![0x31u8, 0x30u8, 0x34u8, 0x39u8, 0x6cu8] =~= seq![
        0x1bu8,
        0x5bu8,
        0x31u8,
        0x30u8,
        0x34u8,
        0x39u8,
        0x6cu8,
    ]);
}

impl TerminalOutput {
    /// Whether the alternate screen buffer is in use.
    pub closed spec fn alt(&self) -> bool {
        self.is_alt_buffer
    }

    /// A terminal showing its normal screen buffer.
    pub fn new() -> (s: TerminalOutput)
        ensures
            !s.alt(),
    {
        TerminalOutput { is_alt_buffer: false }
    }

    /// The bytes to write for a command, given the buffer in use.
    fn encode(&self, command: Command) -> (bytes: Vec<u8>)
        ensures
            bytes@ == command_bytes(self.alt(), command).0,
    {
        let mut out: Vec<u8> = Vec::new();
        match command {
            Command::Clear => {
                out.push(0x1b);
                out.push(0x5b);
                out.push(0x32);
                out.push(0x4a);
            },
            Command::ClearAfterCursor => {
                out.push(0x1b);
                out.push(0x5b);
                out.push(0x4a);
            },
            Command::MoveCursorLeft(n) => {
                out.push(0x1b);
                out.push(0x5b);
                push_decimal(&mut out, n);
                out.push(0x44);
            },
            Command::MoveCursorToAbsolute(x, y) => {
                out.push(0x1b);
                out.push(0x5b);
                push_decimal(&mut out, x);
                out.push(0x3b);
                push_decimal(&mut out, y);
                out.push(0x48);
            },
            Command::EnableAlternateBuffer => {
                if !self.is_alt_buffer {
                    out.push(0x1b);
                    out.push(0x5b);
                    out.push(0x31);
                    out.push(0x30);
                    out.push(0x34);
                    out.push(0x39);
                    out.push(0x68);
                }
            },
            Command::DisableAlternateBuffer => {
                if self.is_alt_buffer {
                    out.push(0x1b);
                    out.push(0x5b);
                    out.push(0x31);
                    out.push(0x30);
                    out.push(0x34);
                    out.push(0x39);
                    out.push(0x6c);
                }
            },
        }
        proof {
            assert(out@ =~= command_bytes(self.alt(), command).0);
        }
        out
    }

    /// Carry out a command: the bytes to write for it, in which a switch to
    /// the buffer already in use writes nothing; the buffer in use is then
    /// the one switched to.
    pub fn command(&mut self, command: Command) -> (bytes: Vec<u8>)
        ensures
            commanded(*old(self), command, bytes@, *final(self)),
    {
        let bytes = self.encode(command);
        match command {
            Command::EnableAlternateBuffer => {
                self.is_alt_buffer = true;
            },
            Command::DisableAlternateBuffer => {
                self.is_alt_buffer = false;
            },
            _ => {},
        }
        bytes
    }
}

/// The event of a printable character: delete is a backspace.
pub open spec fn print_event(c: char) -> Event {
    if c == '\x7f' {
        Event::Backspace
    } else {
        Event::Char(c)
    }
}

/// The event of a control byte: NUL ends the input, carriage return and line
/// feed are a line feed, and the other control codes are control keys.
pub open spec fn execute_event(byte: u8) -> Option<Event> {
    if byte == 0 {
        Some(Event::Eof)
    } else if byte == 0x0d || byte == 0x0a {
        Some(Event::Char('\n'))
    } else if 0x01 <= byte <= 0x1a {
        Some(Event::Ctrl(((byte - 0x01 + 0x61) as u8) as char))
    } else if 0x1c <= byte <= 0x1f {
        Some(Event::Ctrl(((byte - 0x1c + 0x34) as u8) as char))
    } else {
        None
    }
}

/// The event of a control sequence with final character `action`: the
/// arrow keys, and the home, end, insert, delete and page keys.
pub open spec fn csi_event(action: char, params: Seq<i64>) -> Option<Event> {
    let one = params.len() == 1;
    if action == 'A' {
        Some(Event::Up)
    } else if action == 'B' {
        Some(Event::Down)
    } else if action == 'C' {
        Some(Event::Right)
    } else if action == 'D' {
        Some(Event::Left)
    } else if action == 'F' || (action == '~' && one && (params[0] == 4 || params[0] == 8)) {
        Some(Event::End)
    } else if action == 'H' || (action == '~' && one && (params[0] == 1 || params[0] == 7)) {
        Some(Event::Home)
    } else if action == '~' && one && params[0] == 2 {
        Some(Event::Insert)
    } else if action == '~' && one && params[0] == 3 {
        Some(Event::Delete)
    } else if action == '~' && one && params[0] == 5 {
        Some(Event::PageUp)
    } else if action == '~' && one && params[0] == 6 {
        Some(Event::PageDown)
    } else {
        None
    }
}

/// The event of a printable character.
pub fn print_to_event(c: char) -> (e: Event)
    ensures
        e == print_event(c),
{
    match c {
        '\x7f' => Event::Backspace,
        c => Event::Char(c),
    }
}

/// The event of a control byte, if it has one.
pub fn execute_to_event(byte: u8) -> (e: Option<Event>)
    ensures
        e == execute_event(byte),
{
    if byte == 0 {
        Some(Event::Eof)
    } else if byte == 0x0d || byte == 0x0a {
        Some(Event::Char('\n'))
    } else if 0x01 <= byte && byte <= 0x1a {
        let code: u8 = byte - 0x01 + 0x61;
        Some(Event::Ctrl(code as char))
    } else if 0x1c <= byte && byte <= 0x1f {
        let code: u8 = byte - 0x1c + 0x34;
        Some(Event::Ctrl(code as char))
    } else {
        None
    }
}

/// The event of a control sequence, if it has one.
pub fn csi_to_event(action: char, params: &[i64]) -> (e: Option<Event>)
    ensures
        e == csi_event(action, params@),
{
    let one = params.len() == 1;
    if action == 'A' {
        Some(Event::Up)
    } else if action == 'B' {
        Some(Event::Down)
    } else if action == 'C' {
        Some(Event::Right)
    } else if action == 'D' {
        Some(Event::Left)
    } else if action == 'F' || (action == '~' && one && (params[0] == 4 || params[0] == 8)) {
        Some(Event::End)
    } else if action == 'H' || (action == '~' && one && (params[0] == 1 || params[0] == 7)) {
        Some(Event::Home)
    } else if action == '~' && one && params[0] == 2 {
        Some(Event::Insert)
    } else if action == '~' && one && params[0] == 3 {
        Some(Event::Delete)
    } else if action == '~' && one && params[0] == 5 {
        Some(Event::PageUp)
    } else if action == '~' && one && params[0] == 6 {
        Some(Event::PageDown)
    } else {
        None
    }
}

} // verus!
