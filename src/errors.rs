use vstd::prelude::*;

verus! {

/// Every way an operation of this library can be refused. A refused operation
/// leaves all of its inputs unchanged.
#[derive(Clone, Copy, Debug, PartialEq, Eq, Structural)]
pub enum ErrorCode {
    InvalidMarketLength,
    InvalidRewardVault,
    InvalidTimeRange,
    InvalidKValue,
    InvalidLeagueStatus,
    NotLeagueCreator,
    InvalidLeverage,
    MaxOpenPositionExceeded,
    InvalidPositionSequence,
    OracleMismatch,
    InvalidOraclePriceFeed,
    MathOverflow,
    InsufficientBalance,
    PositionAlreadyOpened,
    PositionNotOpened,
    PositionAlreadyClosed,
    InvalidUpdateParticipantRemainingAccounts,
    PositionMismatch,
}

} // verus!
