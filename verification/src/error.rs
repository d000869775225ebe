//! The closed set of failures that the commands report.

use vstd::prelude::*;

verus! {

/// The five families a failure belongs to.
#[derive(Clone, Copy, Debug, PartialEq, Eq, Structural)]
pub enum ErrorKind {
    /// An id or a name that the state does not hold.
    NotFound,
    /// The operation does not fit the lifecycle stage of its subject.
    InvalidState,
    /// A configuration or input rule is broken.
    ConstraintViolation,
    /// The randomness or block oracle failed.
    ExternalDependencyFailure,
    /// The requested quantity cannot be computed.
    ArithmeticImpossibility,
}

/// Why a command was refused. A refused command leaves the state as it was.
#[derive(Clone, Copy, Debug, PartialEq, Eq, Structural)]
pub enum BudgetError {
    TeamNotFound,
    ProposalNotFound,
    RaffleNotFound,
    VoteNotFound,
    EpochNotFound,
    /// No epoch is active although the command needs the current one.
    NoActiveEpoch,
    /// An epoch is already active.
    AnotherEpochActive,
    /// The epoch has left the planned stage.
    EpochNotPlanned,
    /// Only an active epoch can be closed.
    EpochNotActive,
    EpochAlreadyClosed,
    /// The epoch still holds proposals that await a decision.
    ActionableProposalsRemaining { count: usize },
    /// No reward pool, or an empty one, was set for the epoch.
    RewardNotSet,
    ProposalAlreadyClosed,
    ProposalAlreadyPaid,
    /// The proposal is closed, resolved or paid and takes no further vote.
    ProposalNotActionable,
    /// A resolution can be set only once.
    ResolutionAlreadySet,
    /// The vote has no result yet.
    VoteStillOpen,
    /// The vote was closed before; closing is final.
    VoteAlreadyClosed,
    /// Ballots are taken only while the vote is open.
    VoteClosed,
    /// The raffle has not seated its teams yet.
    RaffleNotCompleted,
    /// The raffle has already seated its teams; its result is final.
    RaffleAlreadyCompleted,
    /// The id is already used by another record of the same registry.
    DuplicateId,
    /// An earner must report at least one revenue sample.
    EmptyRevenue,
    /// An earner reports at most three revenue samples.
    TooManyRevenueSamples,
    /// A period must start before it ends.
    InvalidDateRange,
    /// The period overlaps the period of another epoch.
    OverlappingEpoch,
    EarnerSeatsExceedTotal { max_earner_seats: usize, total_counted_seats: usize },
    /// An imported result must fill exactly the counted seats.
    CountedSeatsMismatch { expected: usize, actual: usize },
    /// The team holds no seat in the raffle that the vote is bound to.
    TeamNotEligible { team: u128 },
    /// A threshold is a fraction between zero and one.
    InvalidThreshold,
    /// The status name is none of earner, supporter, inactive.
    UnknownStatus,
    /// The resolution name is none of the five resolutions.
    UnknownResolution,
    /// The oracle reported a failure.
    OracleFailure,
    /// No team earned a point, so there is nothing to divide the reward by.
    NoPointsEarned,
    /// A sum of points does not fit in 64 bits.
    PointsOverflow,
    /// The block to wait for lies beyond the last block number.
    BlockNumberOverflow,
}

impl BudgetError {
    /// The family of this failure.
    pub open spec fn spec_kind(self) -> ErrorKind {
        match self {
            BudgetError::TeamNotFound
            | BudgetError::ProposalNotFound
            | BudgetError::RaffleNotFound
            | BudgetError::VoteNotFound
            | BudgetError::EpochNotFound => ErrorKind::NotFound,
            BudgetError::NoActiveEpoch
            | BudgetError::AnotherEpochActive
            | BudgetError::EpochNotPlanned
            | BudgetError::EpochNotActive
            | BudgetError::EpochAlreadyClosed
            | BudgetError::ActionableProposalsRemaining { .. }
            | BudgetError::RewardNotSet
            | BudgetError::ProposalAlreadyClosed
            | BudgetError::ProposalAlreadyPaid
            | BudgetError::ProposalNotActionable
            | BudgetError::ResolutionAlreadySet
            | BudgetError::VoteStillOpen
            | BudgetError::VoteAlreadyClosed
            | BudgetError::VoteClosed
            | BudgetError::RaffleNotCompleted
            | BudgetError::RaffleAlreadyCompleted => ErrorKind::InvalidState,
            BudgetError::DuplicateId
            | BudgetError::EmptyRevenue
            | BudgetError::TooManyRevenueSamples
            | BudgetError::InvalidDateRange
            | BudgetError::OverlappingEpoch
            | BudgetError::EarnerSeatsExceedTotal { .. }
            | BudgetError::CountedSeatsMismatch { .. }
            | BudgetError::TeamNotEligible { .. }
            | BudgetError::InvalidThreshold
            | BudgetError::UnknownStatus
            | BudgetError::UnknownResolution => ErrorKind::ConstraintViolation,
            BudgetError::OracleFailure => ErrorKind::ExternalDependencyFailure,
            BudgetError::NoPointsEarned
            | BudgetError::PointsOverflow
            | BudgetError::BlockNumberOverflow => ErrorKind::ArithmeticImpossibility,
        }
    }

    /// The family of this failure.
    #[verifier::when_used_as_spec(spec_kind)]
    pub fn kind(self) -> (k: ErrorKind)
        ensures
            k == self.spec_kind(),
    {
        match self {
            BudgetError::TeamNotFound
            | BudgetError::ProposalNotFound
            | BudgetError::RaffleNotFound
            | BudgetError::VoteNotFound
            | BudgetError::EpochNotFound => ErrorKind::NotFound,
            BudgetError::NoActiveEpoch
            | BudgetError::AnotherEpochActive
            | BudgetError::EpochNotPlanned
            | BudgetError::EpochNotActive
            | BudgetError::EpochAlreadyClosed
            | BudgetError::ActionableProposalsRemaining { .. }
            | BudgetError::RewardNotSet
            | BudgetError::ProposalAlreadyClosed
            | BudgetError::ProposalAlreadyPaid
            | BudgetError::ProposalNotActionable
            | BudgetError::ResolutionAlreadySet
            | BudgetError::VoteStillOpen
            | BudgetError::VoteAlreadyClosed
            | BudgetError::VoteClosed
            | BudgetError::RaffleNotCompleted
            | BudgetError::RaffleAlreadyCompleted => ErrorKind::InvalidState,
            BudgetError::DuplicateId
            | BudgetError::EmptyRevenue
            | BudgetError::TooManyRevenueSamples
            | BudgetError::InvalidDateRange
            | BudgetError::OverlappingEpoch
            | BudgetError::EarnerSeatsExceedTotal { .. }
            | BudgetError::CountedSeatsMismatch { .. }
            | BudgetError::TeamNotEligible { .. }
            | BudgetError::InvalidThreshold
            | BudgetError::UnknownStatus
            | BudgetError::UnknownResolution => ErrorKind::ConstraintViolation,
            BudgetError::OracleFailure => ErrorKind::ExternalDependencyFailure,
            BudgetError::NoPointsEarned
            | BudgetError::PointsOverflow
            | BudgetError::BlockNumberOverflow => ErrorKind::ArithmeticImpossibility,
        }
    }
}

} // verus!
