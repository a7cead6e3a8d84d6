//! The failure taxonomy of the program. The library's own functions produce
//! only `EmptySelectionFailure`; the I/O shell around the library reports
//! the other variants.

use vstd::prelude::*;

verus! {

/// Everything that can go wrong between locating the database and printing
/// a quote.
#[derive(Clone, Copy, Debug, PartialEq, Eq, Structural)]
pub enum FortuneError {
    /// The executable's path, or the database beside it, cannot be found.
    LocateFailure,
    /// The database file cannot be opened or read, or is not valid text.
    ReadFailure,
    /// The filtered subset of records is empty, so nothing can be drawn.
    EmptySelectionFailure,
    /// The database file cannot be opened for append or written.
    WriteFailure,
}

/// The diagnostic line for each failure.
pub open spec fn spec_message(e: FortuneError) -> Seq<char> {
    match e {
        FortuneError::LocateFailure => "Error finding file."@,
        FortuneError::ReadFailure => "Error reading file."@,
        FortuneError::EmptySelectionFailure => "No quote matches the requested size."@,
        FortuneError::WriteFailure => "Could not write to file."@,
    }
}

impl FortuneError {
    /// A diagnostic line for this failure, one distinct text per variant.
    pub fn message(&self) -> (m: &'static str)
        ensures
            m@ == spec_message(*self),
            m@.len() > 0,
    {
        let m = match self {
            FortuneError::LocateFailure => "Error finding file.",
            FortuneError::ReadFailure => "Error reading file.",
            FortuneError::EmptySelectionFailure => "No quote matches the requested size.",
            FortuneError::WriteFailure => "Could not write to file.",
        };
        proof {
            reveal_strlit("Error finding file.");
            reveal_strlit("Error reading file.");
            reveal_strlit("No quote matches the requested size.");
            reveal_strlit("Could not write to file.");
        }
        m
    }
}

} // verus!
