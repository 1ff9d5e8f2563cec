use vstd::prelude::*;

verus! {

/// Errors reported by the library.
#[derive(Debug, Clone, PartialEq, Eq)]
pub enum FixMeLaterError {
    /// A failure described in words, passed on from the program around the library.
    S(String),
    /// An end instant that does not lie after the start of the session.
    InvalidTimeRange,
    /// A fit to an end instant that gives no positive work length, or more
    /// repetitions than a `u32` holds.
    InvalidFit,
    /// A change that would take the session past the instants the library
    /// handles.
    OutOfRange,
    /// A resume whose instants would split a section into a piece of no length.
    PauseInvariantViolation,
    /// A session description that cannot be read.
    InvalidDescription,
    /// Text that does not read as a clock time `HH:MM`.
    InvalidClockTime,
    /// A local clock time that stands for two instants.
    AmbiguousLocalTime,
    /// A local clock time that stands for no instant.
    MissingLocalTime,
}

} // verus!
