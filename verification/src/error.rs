//! How a run can fail.

use vstd::prelude::*;

verus! {

/// Why a run reports no statistics.
#[derive(Debug, Clone, Copy, PartialEq, Eq, Structural)]
pub enum WcError {
    /// The stream reported a failure while it was read.
    StreamRead,
    /// Characters were to be counted, and the content is not well-formed
    /// UTF-8.
    Decoding,
}

} // verus!
