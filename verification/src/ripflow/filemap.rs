//! Line-aware source readers over in-memory buffers.

use std::io;
use vstd::prelude::*;

verus! {

/// A reference to a location in a source file. Useful for error messages.
#[derive(Clone, Copy, Debug, Eq, PartialEq, Structural)]
pub struct FilePos {
    /// The line number. Begins at 1.
    pub line: u32,
    /// The column position in the current line. Begins at 1.
    pub column: u32,
}

impl Default for FilePos {
    fn default() -> (p: FilePos)
        ensures
            p.line == 1,
            p.column == 1,
    {
        FilePos { line: 1, column: 1 }
    }
}

/// Source file reader that can be read incrementally as a stream of bytes.
pub struct FileMap {
    name: Option<String>,
    pos: FilePos,
    buffer: Vec<u8>,
    index: usize,
}

impl FileMap {
    /// The bytes not read yet.
    pub closed spec fn rest(&self) -> Seq<u8> {
        self.buffer@.skip(self.index as int)
    }

    /// The reported position.
    pub closed spec fn pos_spec(&self) -> FilePos {
        self.pos
    }

    /// The name of the file, if it has one.
    pub closed spec fn name_spec(&self) -> Option<Seq<char>> {
        match self.name {
            Some(n) => Some(n@),
            None => None,
        }
    }

    pub closed spec fn wf(&self) -> bool {
        self.index <= self.buffer.len()
    }

    /// Create a new file map using an in-memory buffer.
    pub fn buffer(name: Option<String>, buffer: Vec<u8>) -> (m: Self)
        ensures
            m.wf(),
            m.rest() == buffer@,
            m.pos_spec() == (FilePos { line: 1, column: 1 }),
            m.name_spec() == (match name {
                Some(n) => Some(n@),
                None => None::<Seq<char>>,
            }),
    {
        let m = Self { name, pos: FilePos::default(), buffer, index: 0 };
        proof {
            assert(m.buffer@.skip(0) =~= m.buffer@);
        }
        m
    }

    /// Get the name of the file.
    pub fn name(&self) -> (n: &str)
        ensures
            n@ == (match self.name_spec() {
                Some(s) => s,
                None => "<unknown>"@,
            }),
    {
        match &self.name {
            Some(s) => s.as_str(),
            None => "<unknown>",
        }
    }

    /// Get the current position in the file.
    pub fn pos(&self) -> (p: FilePos)
        ensures
            p == self.pos_spec(),
    {
        self.pos
    }

    /// Read the next byte from the underlying source.
    pub fn next_byte(&mut self) -> (r: io::Result<Option<u8>>)
        requires
            old(self).wf(),
        ensures
            final(self).wf(),
            final(self).pos_spec() == old(self).pos_spec(),
            final(self).name_spec() == old(self).name_spec(),
            r matches Ok(b) && (old(self).rest().len() == 0 ==> b is None && final(self).rest()
                == old(self).rest()) && (old(self).rest().len() > 0 ==> b == Some(
                old(self).rest()[0],
            ) && final(self).rest() == old(self).rest().drop_first()),
    {
        if self.index < self.buffer.len() {
            self.index += 1;
            proof {
                assert(self.rest() =~= old(self).rest().drop_first());
            }
            Ok(Some(self.buffer[self.index - 1]))
        } else {
            Ok(None)
        }
    }
}

impl vstd::std_specs::convert::FromSpecImpl<String> for FileMap {
    open spec fn obeys_from_spec() -> bool {
        false
    }

    closed spec fn from_spec(string: String) -> Self {
        vstd::pervasive::arbitrary()
    }
}

impl From<String> for FileMap {
    fn from(string: String) -> (m: FileMap)
        ensures
            m.wf(),
            m.rest() == crate::strings::utf8_of(string@),
            m.pos_spec() == (FilePos { line: 1, column: 1 }),
            m.name_spec() == None::<Seq<char>>,
    {
        FileMap::buffer(None, string.as_str().as_bytes_vec())
    }
}

impl<'a> vstd::std_specs::convert::FromSpecImpl<&'a str> for FileMap {
    open spec fn obeys_from_spec() -> bool {
        false
    }

    closed spec fn from_spec(string: &'a str) -> Self {
        vstd::pervasive::arbitrary()
    }
}

impl<'a> From<&'a str> for FileMap {
    fn from(string: &'a str) -> (m: FileMap)
        ensures
            m.wf(),
            m.rest() == crate::strings::utf8_of(string@),
            m.pos_spec() == (FilePos { line: 1, column: 1 }),
            m.name_spec() == None::<Seq<char>>,
    {
        FileMap::buffer(None, string.as_bytes_vec())
    }
}

} // verus!
