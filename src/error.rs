//! Errors of the library.
use vstd::prelude::*;

verus! {

#[derive(Clone, Copy, Debug, PartialEq, Eq, Structural)]
pub enum Error {
    /// The grammar could not be loaded, or the parser produced no tree.
    Grammar,
    /// A byte range does not delimit text of the candidate.
    Text,
}

} // verus!
