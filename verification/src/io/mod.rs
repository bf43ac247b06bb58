//! Input and output support shared by the readers of the library.

pub mod process;

use vstd::prelude::*;

verus! {

/// The standard library's I/O error, carried through `io::Result` values.
#[verifier::external_type_specification]
#[verifier::external_body]
pub struct ExIoError(std::io::Error);

} // verus!
