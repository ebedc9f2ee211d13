//! What can go wrong.

use vstd::prelude::*;

verus! {

/// Why a command was not carried out. Whenever one of these is returned,
/// the record set is as it was before the call.
#[derive(Debug, Clone, Copy, PartialEq, Eq, Structural)]
pub enum TaskError {
    /// The command lacks the words that it needs.
    Usage,
    /// The word at this place among the requested ids, counted from zero,
    /// is not a number.
    InvalidId(usize),
    /// No stored task has this id.
    NoSuchTask(u32),
    /// The last task holds the largest id there is.
    IdsExhausted,
    /// The record writer reported an error. It reports none for rows of
    /// three fields written to memory, which is all that this library
    /// hands it: no function of the library returns this.
    Encode,
}

} // verus!
