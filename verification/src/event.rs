//! A two-outcome betting event: labels, schedule, pools and result.

use vstd::prelude::*;
use crate::enums::{EventStatus, Winner};
use crate::errors::BettingError;

verus! {

/// One betting event.  `total_pool_a` and `total_pool_b` are the running
/// totals of non-refunded stake on each side; `winner` is set exactly
/// once, when `status` becomes `Settled`.
pub struct Event {
    /// Identity of the admin who created the event.
    pub admin: u64,
    /// Identity authorized to submit the result; never the admin.
    pub oracle: u64,
    /// Label of the first outcome.
    pub option_a: String,
    /// Label of the second outcome.
    pub option_b: String,
    /// When betting closes, as a timestamp.
    pub deadline: i64,
    /// Earliest time a result may be submitted; after `deadline`.
    pub settlement_time: i64,
    /// Stake on the first outcome, in base units.
    pub total_pool_a: u64,
    /// Stake on the second outcome, in base units.
    pub total_pool_b: u64,
    /// Whether the pool balancer has completed a pass.
    pub balanced: bool,
    /// Stored lifecycle state; `Closed` is derived, never stored.
    pub status: EventStatus,
    /// The settled result, present exactly when `status` is `Settled`.
    pub winner: Option<Winner>,
}

/// The first rejection `Event::validate_inputs` owes for these inputs,
/// or `None` when they are acceptable.
pub open spec fn inputs_check(
    option_a: Seq<char>,
    option_b: Seq<char>,
    deadline: int,
    settlement_time: int,
    now: int,
) -> Option<BettingError> {
    if option_a.len() == 0 || option_b.len() == 0 {
        Some(BettingError::EmptyOption)
    } else if option_a == option_b {
        Some(BettingError::IdenticalOptions)
    } else if deadline <= now {
        Some(BettingError::DeadlineInPast)
    } else if settlement_time <= deadline {
        Some(BettingError::SettlementBeforeDeadline)
    } else {
        None
    }
}

impl Event {
    /// Rejects malformed event parameters: empty or identical side
    /// labels, a deadline not in the future, or a settlement time not
    /// after the deadline.
    pub fn validate_inputs(
        option_a: &String,
        option_b: &String,
        deadline: i64,
        settlement_time: i64,
        now: i64,
    ) -> (r: Result<(), BettingError>)
        ensures
            r == (match inputs_check(option_a@, option_b@, deadline as int, settlement_time as int, now as int) {
                Some(e) => Result::<(), BettingError>::Err(e),
                None => Result::<(), BettingError>::Ok(()),
            }),
    {
        if option_a.as_str().is_empty() || option_b.as_str().is_empty() {
            Err(BettingError::EmptyOption)
        } else if *option_a == *option_b {
            Err(BettingError::IdenticalOptions)
        } else if deadline <= now {
            Err(BettingError::DeadlineInPast)
        } else if settlement_time <= deadline {
            Err(BettingError::SettlementBeforeDeadline)
        } else {
            Ok(())
        }
    }

    /// Betting is open: the event is active and its deadline has not
    /// passed.
    pub fn is_betting_open(&self, now: i64) -> (r: bool)
        ensures
            r == (self.status is Active && now < self.deadline),
    {
        self.status == EventStatus::Active && now < self.deadline
    }

    /// The pools still need a balancing pass: the event is active and
    /// locked, no pass has run, and the pools differ.
    pub fn needs_balancing(&self, now: i64) -> (r: bool)
        ensures
            r == (self.status is Active && now >= self.deadline && !self.balanced
                && self.total_pool_a != self.total_pool_b),
    {
        self.status == EventStatus::Active && now >= self.deadline && !self.balanced
            && self.total_pool_a != self.total_pool_b
    }

    /// Total stake across both pools.
    pub fn total_pool(&self) -> (total: u64)
        requires
            self.total_pool_a + self.total_pool_b <= u64::MAX,
        ensures
            total == self.total_pool_a + self.total_pool_b,
    {
        self.total_pool_a + self.total_pool_b
    }

    /// Which side's pool is heavier and by how much: `true` for the
    /// first outcome, with the absolute difference of the pools.
    pub fn pool_imbalance(&self) -> (r: (bool, u64))
        ensures
            self.total_pool_a > self.total_pool_b ==> (r == ((true, (self.total_pool_a
                - self.total_pool_b) as u64))),
            self.total_pool_a <= self.total_pool_b ==> (r == ((false, (self.total_pool_b
                - self.total_pool_a) as u64))),
    {
        if self.total_pool_a > self.total_pool_b {
            (true, self.total_pool_a - self.total_pool_b)
        } else {
            (false, self.total_pool_b - self.total_pool_a)
        }
    }
}

} // verus!
