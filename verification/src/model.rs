//! The mathematical model of an event's ledger.
//!
//! `LedgerV` is the view of a ledger: the event record together with the
//! sequence of its bets in placement order.  The model defines the pool
//! sums, the well-formedness invariant that every operation of the core
//! preserves, and the lemmas about sums that the operations' proofs use.

use vstd::prelude::*;
use crate::bet::{Bet, MIN_BET_AMOUNT};
use crate::enums::{BetOption, BetStatus};
use crate::event::Event;

verus! {

/// The abstract state of one event's ledger.
#[verifier::ext_equal]
pub ghost struct LedgerV {
    /// The event record.
    pub event: Event,
    /// All bets ever placed on the event, in placement order,
    /// most-recent-last.
    pub bets: Seq<Bet>,
}

/// The bet currently contributes to the pool total of `side`: it backs
/// that side and has not been refunded.
pub open spec fn in_pool(bet: Bet, side: BetOption) -> bool {
    bet.bet_option == side && !(bet.status is Refunded)
}

/// What the bet adds to the pool total of `side`.
pub open spec fn pool_contribution(bet: Bet, side: BetOption) -> int {
    if in_pool(bet, side) {
        bet.amount as int
    } else {
        0
    }
}

/// Sum of the pool contributions of `bets[i..]` for `side`.
pub open spec fn pool_sum_from(bets: Seq<Bet>, side: BetOption, i: int) -> int
    decreases bets.len() - i,
{
    if i < 0 || i >= bets.len() {
        0
    } else {
        pool_contribution(bets[i], side) + pool_sum_from(bets, side, i + 1)
    }
}

/// Sum of stake on `side` over all non-refunded bets.
pub open spec fn pool_sum(bets: Seq<Bet>, side: BetOption) -> int {
    pool_sum_from(bets, side, 0)
}

/// The bet is a candidate for a refund on `side`: still active and
/// backing that side.
pub open spec fn refundable(bet: Bet, side: BetOption) -> bool {
    bet.status is Active && bet.bet_option == side
}

/// Sum of the amounts of refund candidates among `bets[i..]`.
pub open spec fn refundable_sum_from(bets: Seq<Bet>, side: BetOption, i: int) -> int
    decreases bets.len() - i,
{
    if i < 0 || i >= bets.len() {
        0
    } else {
        (if refundable(bets[i], side) {
            bets[i].amount as int
        } else {
            0
        }) + refundable_sum_from(bets, side, i + 1)
    }
}

/// Some bet of `bettor` is still active.
pub open spec fn has_active_bet(bets: Seq<Bet>, bettor: u64) -> bool {
    exists|i: int|
        0 <= i < bets.len() && (#[trigger] bets[i]).bettor == bettor && bets[i].status is Active
}

/// The invariant of a ledger.  Every operation of the core requires it
/// and preserves it: each pool total equals the sum of stake of the
/// non-refunded bets on its side; the winner is recorded exactly when
/// the event is settled; before settlement every bet is active or
/// refunded; every stake is at least the configured minimum; and the
/// stored schedule and identities are the validated ones.
pub open spec fn wf(l: LedgerV) -> bool {
    &&& l.event.total_pool_a as int == pool_sum(l.bets, BetOption::OptionA)
    &&& l.event.total_pool_b as int == pool_sum(l.bets, BetOption::OptionB)
    &&& (l.event.winner is Some <==> l.event.status is Settled)
    &&& (!(l.event.status is Settled) ==> forall|i: int|
        0 <= i < l.bets.len() ==> ((#[trigger] l.bets[i]).status is Active
            || l.bets[i].status is Refunded))
    &&& forall|i: int| 0 <= i < l.bets.len() ==> (#[trigger] l.bets[i]).amount >= MIN_BET_AMOUNT
    &&& l.event.settlement_time > l.event.deadline
    &&& l.event.oracle != l.event.admin
    &&& l.event.oracle != 0
    &&& !(l.event.status is Closed)
}

/// Pool sums are never negative.
pub proof fn lemma_pool_sum_nonneg(bets: Seq<Bet>, side: BetOption, i: int)
    ensures
        pool_sum_from(bets, side, i) >= 0,
    decreases bets.len() - i,
{
    if 0 <= i < bets.len() {
        lemma_pool_sum_nonneg(bets, side, i + 1);
    }
}

/// Appending a bet adds exactly its contribution to a pool sum.
pub proof fn lemma_pool_sum_push(bets: Seq<Bet>, b: Bet, side: BetOption, i: int)
    requires
        0 <= i <= bets.len(),
    ensures
        pool_sum_from(bets.push(b), side, i) == pool_sum_from(bets, side, i) + pool_contribution(
            b,
            side,
        ),
    decreases bets.len() - i,
{
    if i < bets.len() {
        assert(bets.push(b)[i] == bets[i]);
        lemma_pool_sum_push(bets, b, side, i + 1);
    } else {
        assert(bets.push(b)[i] == b);
        assert(pool_sum_from(bets.push(b), side, i + 1) == 0);
    }
}

/// Replacing the bet at `j` shifts a pool sum by the difference of the
/// old and new contributions.
pub proof fn lemma_pool_sum_update(bets: Seq<Bet>, j: int, b: Bet, side: BetOption, i: int)
    requires
        0 <= i <= bets.len(),
        0 <= j < bets.len(),
    ensures
        pool_sum_from(bets.update(j, b), side, i) == pool_sum_from(bets, side, i) + (if i <= j {
            pool_contribution(b, side) - pool_contribution(bets[j], side)
        } else {
            0
        }),
    decreases bets.len() - i,
{
    if i < bets.len() {
        lemma_pool_sum_update(bets, j, b, side, i + 1);
    }
}

/// Two bet sequences with pointwise equal contributions have equal pool
/// sums.
pub proof fn lemma_pool_sum_congruent(b1: Seq<Bet>, b2: Seq<Bet>, side: BetOption, i: int)
    requires
        b1.len() == b2.len(),
        forall|j: int|
            0 <= j < b1.len() ==> pool_contribution(#[trigger] b1[j], side) == pool_contribution(
                b2[j],
                side,
            ),
    ensures
        pool_sum_from(b1, side, i) == pool_sum_from(b2, side, i),
    decreases b1.len() - i,
{
    if 0 <= i < b1.len() {
        lemma_pool_sum_congruent(b1, b2, side, i + 1);
    }
}

/// A sequence in which no bet contributes to `side` has pool sum zero.
pub proof fn lemma_pool_sum_zero(bets: Seq<Bet>, side: BetOption, i: int)
    requires
        forall|j: int| 0 <= j < bets.len() ==> pool_contribution(#[trigger] bets[j], side) == 0,
    ensures
        pool_sum_from(bets, side, i) == 0,
    decreases bets.len() - i,
{
    if 0 <= i < bets.len() {
        lemma_pool_sum_zero(bets, side, i + 1);
    }
}

/// Refund candidates are a subset of the pool, so their sum is bounded
/// by the pool sum.
pub proof fn lemma_refundable_le_pool(bets: Seq<Bet>, side: BetOption, i: int)
    ensures
        0 <= refundable_sum_from(bets, side, i),
        refundable_sum_from(bets, side, i) <= pool_sum_from(bets, side, i),
    decreases bets.len() - i,
{
    if 0 <= i < bets.len() {
        lemma_refundable_le_pool(bets, side, i + 1);
    }
}

/// A pool suffix sum only shrinks as the suffix shortens.
pub proof fn lemma_pool_sum_monotone(bets: Seq<Bet>, side: BetOption, i: int, j: int)
    requires
        0 <= i <= j,
    ensures
        pool_sum_from(bets, side, i) >= pool_sum_from(bets, side, j),
    decreases j - i,
{
    if i < j {
        lemma_pool_sum_monotone(bets, side, i + 1, j);
    }
}

/// A refundable suffix sum only shrinks as the suffix shortens.
pub proof fn lemma_refundable_sum_monotone(bets: Seq<Bet>, side: BetOption, i: int, j: int)
    requires
        0 <= i <= j,
    ensures
        refundable_sum_from(bets, side, i) >= refundable_sum_from(bets, side, j),
    decreases j - i,
{
    if i < j {
        lemma_refundable_sum_monotone(bets, side, i + 1, j);
    }
}

} // verus!
