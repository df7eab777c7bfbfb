//! The one failure outcome that every probe reports.
use vstd::prelude::*;

verus! {

/// Why a probe produced no record.
#[derive(Debug, Clone, Copy, PartialEq, Eq, Structural)]
pub enum ProbeError {
    /// A directory, file, variable or command could not be read at all.
    SourceUnavailable,
    /// The source was read but does not hold a value of the expected form.
    MalformedSource,
    /// The source was read but an expected key or field never appears in it.
    IncompleteSource,
}

/// What reading a file, or running a command, gave.
pub enum SourceText {
    /// The file could not be opened, or the command could not be run.
    Missing,
    /// The content was read but is not valid text, or not of the form the
    /// source is read in (a number, for a file that holds one).
    Unreadable,
    /// The content.
    Text(String),
}

} // verus!
