//! The error taxonomy of the settlement core.

use vstd::prelude::*;

verus! {

/// Every way an operation of the core can be rejected.  Errors are
/// synchronous and local: a rejected operation mutates nothing.
#[derive(Clone, Copy, PartialEq, Eq, Structural, Debug)]
pub enum BettingError {
    /// A side label is empty.
    EmptyOption,
    /// The two side labels are equal.
    IdenticalOptions,
    /// The betting deadline is not in the future.
    DeadlineInPast,
    /// The settlement time is not after the betting deadline.
    SettlementBeforeDeadline,
    /// The oracle identity is absent or equals the admin.
    InvalidOracleKey,
    /// A bet amount is zero or below the configured minimum.
    InvalidAmount,
    /// The event is not open for the attempted operation.
    MarketNotActive,
    /// The bettor already has a live bet on this event.
    DuplicateBet,
    /// The event's admin may not bet on it.
    SelfBetForbidden,
    /// Adding the stake would overflow the side's pool total.
    PoolOverflow,
    /// Pool balancing is not needed or has already run.
    AlreadyBalanced,
    /// The result submitter is not the event's oracle.
    UnauthorizedAuthority,
    /// The event already has a settled result.
    AlreadySettled,
    /// The result was submitted before the settlement time.
    ResultTooEarly,
    /// Settlement was attempted before the betting deadline.
    EventNotReady,
    /// The claimant does not own the bet.
    NotBetOwner,
    /// The bet did not win, so there is nothing to claim.
    NothingToClaim,
    /// The bet's winnings were already claimed.
    AlreadyClaimed,
}

} // verus!
