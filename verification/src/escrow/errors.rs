use vstd::prelude::*;

verus! {

/// Errors returned by the escrow contract.
///
/// A game id that was already used is reported as `AlreadyExists`.
#[derive(Clone, Copy, Debug, PartialEq, Eq, Structural)]
pub enum Error {
    AlreadyInitialized,
    InvalidAddress,
    Unauthorized,
    Overflow,
    ContractPaused,
    TokenNotAllowed,
    InvalidAmount,
    InvalidGameId,
    InvalidPlayers,
    AlreadyExists,
    MatchNotFound,
    InvalidState,
    AlreadyFunded,
    NotFunded,
    MatchAlreadyActive,
    MatchNotExpired,
    InvalidTimeout,
    MatchNotInPendingResult,
    PendingResultNotFound,
    DisputePeriodNotElapsed,
    DisputeAlreadyRaised,
    InvalidEvidenceHash,
    DisputeNotFound,
    DisputeAlreadyResolved,
    VotingPeriodElapsed,
    AlreadyVoted,
    NotStaker,
    VotingPeriodNotElapsed,
    SnapshotNotFound,
}

} // verus!
