use vstd::prelude::*;

verus! {

/// Typed error codes of the stream operations.
///
/// Each failing operation reports one of these and leaves the state as it
/// was; a caller can tell the failure modes apart without matching on
/// message strings.
#[derive(Copy, Clone, Debug, PartialEq, Eq, Structural)]
pub enum SoroError {
    /// `initialize` was called a second time.
    AlreadyInitialized,
    /// A stream was created before `initialize`.
    NotInitialized,
    /// No stream is stored under the given id.
    StreamNotFound,
    /// The caller is not the party the operation belongs to.
    Unauthorized,
    /// The amount of a new stream is not positive.
    InvalidAmount,
    /// The start lies in the past, or the end is not after the start.
    InvalidTimeRange,
    /// Nothing is claimable at the given time.
    NothingToClaim,
    /// The stream has been cancelled.
    StreamEnded,
}


impl SoroError {
    /// The error's number in the contract interface (1 to 8, in the order
    /// of the variants).
    pub fn code(self) -> (c: u32)
        ensures
            c == match self {
                SoroError::AlreadyInitialized => 1u32,
                SoroError::NotInitialized => 2,
                SoroError::StreamNotFound => 3,
                SoroError::Unauthorized => 4,
                SoroError::InvalidAmount => 5,
                SoroError::InvalidTimeRange => 6,
                SoroError::NothingToClaim => 7,
                SoroError::StreamEnded => 8,
            },
    {
        match self {
            SoroError::AlreadyInitialized => 1,
            SoroError::NotInitialized => 2,
            SoroError::StreamNotFound => 3,
            SoroError::Unauthorized => 4,
            SoroError::InvalidAmount => 5,
            SoroError::InvalidTimeRange => 6,
            SoroError::NothingToClaim => 7,
            SoroError::StreamEnded => 8,
        }
    }
}

} // verus!
