//! The pool balancer: LIFO refunds that converge the two pools.
//!
//! Once betting locks, the balancer walks the still-active bets on the
//! heavier side from the most recently placed backwards, refunding each
//! whole bet until the refunded total reaches the imbalance or the side
//! runs out of active bets.  Bets are never partially refunded, so the
//! final refund may overshoot the imbalance.

use vstd::prelude::*;
use crate::bet::Bet;
use crate::enums::{BetOption, BetStatus, EventStatus};
use crate::errors::BettingError;
use crate::event::Event;
use crate::ledger::Ledger;
use crate::model::{
    lemma_pool_sum_monotone, lemma_pool_sum_nonneg, lemma_pool_sum_update, lemma_refundable_le_pool,
    lemma_refundable_sum_monotone, pool_sum, refundable, refundable_sum_from,
    wf, LedgerV,
};

verus! {

/// The side whose pool currently holds more stake.
pub open spec fn heavy_side(e: Event) -> BetOption {
    if e.total_pool_a > e.total_pool_b {
        BetOption::OptionA
    } else {
        BetOption::OptionB
    }
}

/// The absolute difference of the two pool totals.
pub open spec fn imbalance_of(e: Event) -> int {
    if e.total_pool_a > e.total_pool_b {
        e.total_pool_a - e.total_pool_b
    } else {
        e.total_pool_b - e.total_pool_a
    }
}

/// The rejection `auto_balance` owes, or `None` when a balancing pass
/// must run: the event must be active and locked, not balanced yet,
/// and the pools must differ.
pub open spec fn balance_check(l: LedgerV, now: i64) -> Option<BettingError> {
    if !(l.event.status is Active) || now < l.event.deadline || l.event.balanced
        || l.event.total_pool_a == l.event.total_pool_b {
        Some(BettingError::AlreadyBalanced)
    } else {
        None
    }
}

/// The same bet, marked refunded.
pub open spec fn refunded_mark(bet: Bet) -> Bet {
    Bet { status: BetStatus::Refunded, ..bet }
}

/// The LIFO walk refunds the bet at `i` exactly when it is a refund
/// candidate on the heavy side and the candidates placed after it sum
/// to less than the imbalance: the walk starting at the most recent bet
/// has then not yet reached its stopping condition.
pub open spec fn refund_condition(bets: Seq<Bet>, side: BetOption, imbalance: int, i: int) -> bool {
    refundable(bets[i], side) && refundable_sum_from(bets, side, i + 1) < imbalance
}

/// All bets after a balancing pass: the refunded ones are marked, the
/// rest are untouched.
pub open spec fn balance_mark(bets: Seq<Bet>, side: BetOption, imbalance: int) -> Seq<Bet> {
    Seq::new(
        bets.len(),
        |i: int|
            if refund_condition(bets, side, imbalance, i) {
                refunded_mark(bets[i])
            } else {
                bets[i]
            },
    )
}

/// The identifiers of the bets a balancing pass refunds among
/// `bets[i..]`, most recently placed first.
pub open spec fn refund_ids_from(
    bets: Seq<Bet>,
    side: BetOption,
    imbalance: int,
    i: int,
) -> Seq<usize>
    decreases bets.len() - i,
{
    if i < 0 || i >= bets.len() {
        Seq::empty()
    } else {
        let rest = refund_ids_from(bets, side, imbalance, i + 1);
        if refund_condition(bets, side, imbalance, i) {
            rest.push(i as usize)
        } else {
            rest
        }
    }
}

/// The identifiers of all bets a balancing pass refunds, most recently
/// placed first.
pub open spec fn refund_ids(bets: Seq<Bet>, side: BetOption, imbalance: int) -> Seq<usize> {
    refund_ids_from(bets, side, imbalance, 0)
}

/// The ledger after an accepted balancing pass: refunds marked, pool
/// totals restated over the remaining bets, and the pass recorded.
pub open spec fn balance_step(l: LedgerV, now: i64) -> LedgerV {
    let marked = balance_mark(l.bets, heavy_side(l.event), imbalance_of(l.event));
    LedgerV {
        event: Event {
            total_pool_a: pool_sum(marked, BetOption::OptionA) as u64,
            total_pool_b: pool_sum(marked, BetOption::OptionB) as u64,
            balanced: true,
            ..l.event
        },
        bets: marked,
    }
}

/// The ledger `auto_balance` leaves behind, whether or not it ran a
/// pass.
pub open spec fn balance_outcome(l: LedgerV, now: i64) -> LedgerV {
    if balance_check(l, now) is None {
        balance_step(l, now)
    } else {
        l
    }
}

/// If no bet in `[k, i)` meets the refund condition, the refund
/// identifiers from `k` are those from `i`.
proof fn lemma_refund_ids_skip(bets: Seq<Bet>, side: BetOption, imbalance: int, k: int, i: int)
    requires
        0 <= k <= i,
        forall|j: int| k <= j < i ==> !refund_condition(bets, side, imbalance, j),
    ensures
        refund_ids_from(bets, side, imbalance, k) == refund_ids_from(bets, side, imbalance, i),
    decreases i - k,
{
    if k < i {
        lemma_refund_ids_skip(bets, side, imbalance, k + 1, i);
    }
}

impl Ledger {
    /// Runs one balancing pass at time `now`.  Returns the identifiers
    /// of the refunded bets, most recently placed first (possibly
    /// none); returns `AlreadyBalanced` without touching anything when
    /// no pass is due.  Walks the active bets on the heavy side most
    /// recent first, refunding whole bets until the refunded total
    /// reaches the imbalance or the candidates are exhausted.  Does not
    /// change the event's status.
    #[verifier::loop_isolation(false)]
    pub fn auto_balance(&mut self, now: i64) -> (r: Result<Vec<usize>, BettingError>)
        requires
            wf(old(self)@),
        ensures
            wf(final(self)@),
            (match balance_check(old(self)@, now) {
                Some(e) => r matches Err(e2) && e2 == e && final(self)@ == old(self)@,
                None => r matches Ok(ids) && ids@ == refund_ids(
                    old(self)@.bets,
                    heavy_side(old(self)@.event),
                    imbalance_of(old(self)@.event),
                ) && final(self)@ == balance_step(old(self)@, now),
            }),
    {
        if !(self.event.status == EventStatus::Active) || now < self.event.deadline
            || self.event.balanced || self.event.total_pool_a == self.event.total_pool_b {
            return Err(BettingError::AlreadyBalanced);
        }
        let (heavy_is_a, imbalance) = self.event.pool_imbalance();
        let side = if heavy_is_a {
            BetOption::OptionA
        } else {
            BetOption::OptionB
        };
        let ghost bets0 = self.bets@;
        let ghost imb = imbalance as int;
        proof {
            assert(side == heavy_side(old(self)@.event));
            assert(imb == imbalance_of(old(self)@.event));
        }
        let mut ids: Vec<usize> = Vec::new();
        let mut refunded_so_far: u64 = 0;
        let mut i: usize = self.bets.len();
        while i > 0 && refunded_so_far < imbalance
            invariant
                i <= bets0.len(),
                self.bets@.len() == bets0.len(),
                forall|j: int| 0 <= j < i ==> self.bets@[j] == bets0[j],
                forall|j: int|
                    i <= j < bets0.len() ==> self.bets@[j] == balance_mark(bets0, side, imb)[j],
                refunded_so_far as int == refundable_sum_from(bets0, side, i as int),
                ids@ == refund_ids_from(bets0, side, imb, i as int),
                self.event.total_pool_a as int == pool_sum(self.bets@, BetOption::OptionA),
                self.event.total_pool_b as int == pool_sum(self.bets@, BetOption::OptionB),
                self.event.admin == old(self)@.event.admin,
                self.event.oracle == old(self)@.event.oracle,
                self.event.option_a == old(self)@.event.option_a,
                self.event.option_b == old(self)@.event.option_b,
                self.event.deadline == old(self)@.event.deadline,
                self.event.settlement_time == old(self)@.event.settlement_time,
                self.event.balanced == old(self)@.event.balanced,
                self.event.status == old(self)@.event.status,
                self.event.winner == old(self)@.event.winner,
            decreases i,
        {
            i = i - 1;
            let b = self.bets[i];
            if b.status == BetStatus::Active && b.bet_option == side {
                proof {
                    assert(refund_condition(bets0, side, imb, i as int));
                    lemma_refundable_le_pool(bets0, side, i as int);
                    lemma_pool_sum_monotone(bets0, side, 0, i as int);
                    assert(refundable_sum_from(bets0, side, i as int) <= pool_sum(bets0, side));
                    lemma_pool_sum_update(
                        self.bets@,
                        i as int,
                        refunded_mark(b),
                        BetOption::OptionA,
                        0,
                    );
                    lemma_pool_sum_update(
                        self.bets@,
                        i as int,
                        refunded_mark(b),
                        BetOption::OptionB,
                        0,
                    );
                    lemma_pool_sum_nonneg(
                        self.bets@.update(i as int, refunded_mark(b)),
                        side,
                        0,
                    );
                }
                let mut nb = b;
                nb.status = BetStatus::Refunded;
                self.bets[i] = nb;
                if heavy_is_a {
                    self.event.total_pool_a = self.event.total_pool_a - b.amount;
                } else {
                    self.event.total_pool_b = self.event.total_pool_b - b.amount;
                }
                refunded_so_far = refunded_so_far + b.amount;
                ids.push(i);
            } else {
                proof {
                    assert(!refund_condition(bets0, side, imb, i as int));
                    assert(balance_mark(bets0, side, imb)[i as int] == bets0[i as int]);
                }
            }
        }
        self.event.balanced = true;
        proof {
            if i > 0 {
                assert(refunded_so_far as int >= imb);
                assert forall|j: int| 0 <= j < i implies !refund_condition(
                    bets0,
                    side,
                    imb,
                    j,
                ) by {
                    lemma_refundable_sum_monotone(bets0, side, j + 1, i as int);
                }
                lemma_refund_ids_skip(bets0, side, imb, 0, i as int);
                assert forall|j: int| 0 <= j < i implies self.bets@[j] == balance_mark(
                    bets0,
                    side,
                    imb,
                )[j] by {}
            }
            assert(self.bets@ =~= balance_mark(bets0, side, imb));
            assert(final(self)@ =~= balance_step(old(self)@, now));
        }
        Ok(ids)
    }
}

/// Law: running the balancer twice in immediate succession changes
/// nothing on the second run.  After any `auto_balance`, whether it ran
/// a pass or not, the next run reports `AlreadyBalanced` and leaves the
/// ledger exactly as it found it.
pub proof fn lemma_auto_balance_idempotent(l: LedgerV, now: i64)
    ensures
        balance_check(balance_outcome(l, now), now) == Some(BettingError::AlreadyBalanced),
        balance_outcome(balance_outcome(l, now), now) == balance_outcome(l, now),
{
}

} // verus!
