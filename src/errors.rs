use vstd::prelude::*;

verus! {

/// Why a governance call was refused. A refused call changes nothing.
#[derive(Copy, Clone, Debug, PartialEq, Eq, Structural)]
pub enum ContractError {
    NotInit,
    AlreadyInitialized,
    MinDurationNotSatisfied,
    CannotAddNegativeVote,
    InvalidNonce,
    AlreadyVoted,
    InvalidProposalId,
    NotEnoughPower,
    TooEarlyToExecute,
    AlreadyExecuted,
    ForVotesLessThanAgainstVotes,
    PropDeadlinePassed,
    Overflow,
}

/// Why a delegation or token call was refused. A refused call changes nothing.
#[derive(Copy, Clone, Debug, PartialEq, Eq, Structural)]
pub enum DaoError {
    NotEnoughToken,
    CannotDelegateNegative,
    PowerCannotBeNegative,
    CannotAddNegativePower,
    CannotRemoveNegativePower,
    IncorrectNonce,
    NegativeAmount,
    Overflow,
}

} // verus!
