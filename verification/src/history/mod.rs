//! Shell history: entries, summaries, and the database schema's versions.
//!
//! The history itself is kept in a SQLite database that is written to in
//! real time, so that history is not lost; the database is reached by the
//! caller.

pub mod entry;

use vstd::prelude::*;

verus! {

/// Aggregated information about a particular command string.
#[derive(Clone)]
pub struct CommandSummary {
    pub command: String,
    pub count: u32,
}

/// What opening a history database with a given schema version calls for.
#[derive(Clone, Copy, Debug, Eq, PartialEq, Structural)]
pub enum SchemaStep {
    /// A new database: create the tables.
    Create,
    /// The tables are there.
    Ready,
    /// A version this shell does not know.
    Unknown(i64),
}

/// What opening a database whose `user_version` is `version` calls for:
/// version 0 is a new database, version 1 the current schema.
pub fn schema_step(version: i64) -> (step: SchemaStep)
    ensures
        step == if version == 0 {
            SchemaStep::Create
        } else if version == 1 {
            SchemaStep::Ready
        } else {
            SchemaStep::Unknown(version)
        },
{
    match version {
        0 => SchemaStep::Create,
        1 => SchemaStep::Ready,
        version => SchemaStep::Unknown(version),
    }
}

} // verus!
