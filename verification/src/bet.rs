//! A single bettor's escrowed stake on one side of an event.

use vstd::prelude::*;
use crate::enums::{BetOption, BetStatus};

verus! {

/// Smallest stake accepted, in base units.
pub const MIN_BET_AMOUNT: u64 = 10_000_000;

/// One escrowed stake.  Identified inside an event's ledger by its index
/// in placement order; `amount` is immutable after creation and `status`
/// moves only along `Active -> {Refunded | Won | Lost}`, `Won -> Claimed`.
#[derive(Clone, Copy, PartialEq, Eq, Structural, Debug)]
pub struct Bet {
    /// Identity of the bettor who placed the stake.
    pub bettor: u64,
    /// The side the stake backs.
    pub bet_option: BetOption,
    /// Stake in base units; at least `MIN_BET_AMOUNT`.
    pub amount: u64,
    /// Placement time, kept for audit; placement order is the ledger order.
    pub timestamp: i64,
    /// Current lifecycle state.
    pub status: BetStatus,
}

/// Fixed-odds payout owed to a bet: `floor(amount * 195 / 100)` for a won
/// bet (double the stake minus a 2.5% fee, with the multiplication
/// saturating at `u64::MAX`), and nothing otherwise.
pub open spec fn payout_of(bet: Bet) -> int {
    if bet.status is Won {
        if bet.amount * 195 <= u64::MAX {
            (bet.amount * 195) / 100
        } else {
            (u64::MAX as int) / 100
        }
    } else {
        0
    }
}

impl Bet {
    /// The bet still contributes to its side's pool total: it has not
    /// been refunded or claimed.
    pub fn is_active(&self) -> (r: bool)
        ensures
            r == (self.status is Active || self.status is Won || self.status is Lost),
    {
        matches!(self.status, BetStatus::Active | BetStatus::Won | BetStatus::Lost)
    }

    /// The bet won and its payout has not been claimed yet.
    pub fn can_claim(&self) -> (r: bool)
        ensures
            r == (self.status is Won),
    {
        matches!(self.status, BetStatus::Won)
    }

    /// The bet was returned to its bettor by the pool balancer.
    pub fn is_refunded(&self) -> (r: bool)
        ensures
            r == (self.status is Refunded),
    {
        matches!(self.status, BetStatus::Refunded)
    }

    /// Payout for a winning bet: 1.95x the stake (2x minus a 2.5% fee),
    /// computed with saturating multiplication and truncating division.
    /// A bet that did not win pays nothing.
    pub fn calculate_payout(&self) -> (payout: u64)
        ensures
            payout == payout_of(*self),
    {
        if matches!(self.status, BetStatus::Won) {
            if self.amount <= u64::MAX / 195 {
                proof {
                    assert(self.amount * 195 <= (u64::MAX / 195) * 195 <= u64::MAX)
                        by (nonlinear_arith)
                        requires
                            self.amount <= u64::MAX / 195,
                    ;
                }
                self.amount * 195 / 100
            } else {
                proof {
                    assert(self.amount * 195 > u64::MAX) by (nonlinear_arith)
                        requires
                            self.amount > u64::MAX / 195,
                    ;
                }
                u64::MAX / 100
            }
        } else {
            0
        }
    }
}

} // verus!
