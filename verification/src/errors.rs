use vstd::prelude::*;

verus! {

/// Every failure an operation can surface, as a distinct named value; none is
/// silently swallowed or downgraded to a default.
///
/// `InsufficientResources` (the payer cannot fund a record) and
/// `ConflictingMutation` (a lost-update race on a shared counter) belong to
/// the execution environment around the store; the sequential model here
/// never produces them itself.
#[derive(Clone, Copy, Debug, PartialEq, Eq)]
pub enum SatchError {
    /// A review's rating lies outside 1..=5.
    RatingOutOfRange,
    /// The presented platform authority is not the platform's owner identity.
    InvalidAuthority,
    /// A record already sits at the derived address.
    AlreadyExists,
    /// A checked counter addition would wrap.
    ArithmeticOverflow,
    /// No record sits at the given address.
    RecordNotFound,
    /// The caller cannot pay for the record it asked to create.
    InsufficientResources,
    /// A concurrent mutation of the same record was detected.
    ConflictingMutation,
}

} // verus!
