//! Functions for working with processes.

use vstd::prelude::*;

verus! {

/// Build a process command. There is nothing to build it from yet, so it
/// does nothing.
pub fn command() {
}

} // verus!
