//! Entries of the command history and the position of a walk through them.

use vstd::prelude::*;

verus! {

/// A single entry in the history.
#[derive(Clone, Debug)]
pub struct CommandEntry {
    command: String,
    cwd: Option<String>,
    /// Seconds since the Unix epoch.
    timestamp: u64,
}

impl CommandEntry {
    /// The command line, as typed.
    pub closed spec fn command_spec(&self) -> Seq<char> {
        self.command@
    }

    /// The working directory the command ran in, if known.
    pub closed spec fn cwd_spec(&self) -> Option<Seq<char>> {
        match self.cwd {
            Some(c) => Some(c@),
            None => None,
        }
    }

    /// When the command ran, in seconds since the Unix epoch.
    pub closed spec fn timestamp_spec(&self) -> u64 {
        self.timestamp
    }

    /// An entry read from a row of the history table, whose timestamp column
    /// holds seconds since the Unix epoch. The timestamp is taken as
    /// unsigned, as the bits of the stored integer.
    pub fn from_row(command: String, cwd: Option<String>, timestamp: i64) -> (e: CommandEntry)
        ensures
            e.command_spec() == command@,
            e.cwd_spec() == (match cwd {
                Some(c) => Some(c@),
                None => None::<Seq<char>>,
            }),
            e.timestamp_spec() == timestamp as u64,
    {
        CommandEntry { command, cwd, timestamp: timestamp as u64 }
    }

    /// The command line, as typed.
    pub fn command(&self) -> (c: &str)
        ensures
            c@ == self.command_spec(),
    {
        self.command.as_str()
    }

    /// When the command ran, in seconds since the Unix epoch.
    pub fn timestamp(&self) -> (t: u64)
        ensures
            t == self.timestamp_spec(),
    {
        self.timestamp
    }
}

/// The position of a walk through the history from newest to oldest: the
/// (timestamp, row id) key of the entry last returned, if any. Entries are
/// ordered by timestamp, then by row id.
///
/// The next older entry is the newest one below the key, or the newest of
/// all when nothing was returned yet; the next newer entry is the oldest one
/// above the key, and there is none when nothing was returned yet.
pub struct CursorKey {
    key: Option<(i64, i64)>,
}

impl CursorKey {
    /// The key of the entry last returned.
    pub closed spec fn key_spec(&self) -> Option<(i64, i64)> {
        self.key
    }

    /// A walk that has returned nothing yet.
    pub fn new() -> (c: Self)
        ensures
            c.key_spec() is None,
    {
        CursorKey { key: None }
    }

    /// The key of the entry last returned.
    pub fn key(&self) -> (k: Option<(i64, i64)>)
        ensures
            k == self.key_spec(),
    {
        self.key
    }

    /// Record the key of the entry just returned.
    pub fn advance(&mut self, timestamp: i64, rowid: i64)
        ensures
            final(self).key_spec() == Some((timestamp, rowid)),
    {
        self.key = Some((timestamp, rowid));
    }
}

} // verus!
