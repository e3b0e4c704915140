//! The escrow ledger: event creation, bet placement and pool accounting.

use vstd::prelude::*;
use crate::bet::{Bet, MIN_BET_AMOUNT};
use crate::enums::{BetOption, BetStatus, EventStatus};
use crate::errors::BettingError;
use crate::event::{inputs_check, Event};
use crate::model::{
    has_active_bet, lemma_pool_sum_push, refundable, wf, LedgerV,
};

verus! {

/// One event's ledger: the event record and every bet placed on it, in
/// placement order.  The ledger owns the bets; the pool totals on the
/// event are kept equal to the sums of the non-refunded stakes.
pub struct Ledger {
    /// The event record.
    pub event: Event,
    /// All bets, in placement order; a bet's identifier is its index.
    pub bets: Vec<Bet>,
}

impl View for Ledger {
    type V = LedgerV;

    open spec fn view(&self) -> LedgerV {
        LedgerV { event: self.event, bets: self.bets@ }
    }
}

/// The first rejection `create_event` owes for these inputs, or `None`
/// when a market must be created.
pub open spec fn create_check(
    admin: u64,
    option_a: Seq<char>,
    option_b: Seq<char>,
    deadline: i64,
    settlement_time: i64,
    oracle: u64,
    now: i64,
) -> Option<BettingError> {
    match inputs_check(option_a, option_b, deadline as int, settlement_time as int, now as int) {
        Some(e) => Some(e),
        None => if oracle == admin || oracle == 0 {
            Some(BettingError::InvalidOracleKey)
        } else {
            None
        },
    }
}

/// Creates a new betting event with empty pools.  Rejects empty or
/// identical labels, a deadline not after `now`, a settlement time not
/// after the deadline, and an oracle identity that is absent or equal
/// to the admin.
pub fn create_event(
    admin: u64,
    option_a: String,
    option_b: String,
    deadline: i64,
    settlement_time: i64,
    oracle: u64,
    now: i64,
) -> (r: Result<Ledger, BettingError>)
    ensures
        (match create_check(admin, option_a@, option_b@, deadline, settlement_time, oracle, now) {
            Some(e) => r matches Err(e2) && e2 == e,
            None => r matches Ok(l) && wf(l@) && l@.bets == Seq::<Bet>::empty() && l@.event
                == (Event {
                admin,
                oracle,
                option_a,
                option_b,
                deadline,
                settlement_time,
                total_pool_a: 0,
                total_pool_b: 0,
                balanced: false,
                status: EventStatus::Active,
                winner: None,
            }),
        }),
{
    match Event::validate_inputs(&option_a, &option_b, deadline, settlement_time, now) {
        Err(e) => Err(e),
        Ok(()) => {
            if oracle == admin || oracle == 0 {
                Err(BettingError::InvalidOracleKey)
            } else {
                let ledger = Ledger {
                    event: Event {
                        admin,
                        oracle,
                        option_a,
                        option_b,
                        deadline,
                        settlement_time,
                        total_pool_a: 0,
                        total_pool_b: 0,
                        balanced: false,
                        status: EventStatus::Active,
                        winner: None,
                    },
                    bets: Vec::new(),
                };
                Ok(ledger)
            }
        },
    }
}

/// The first rejection `place_bet` owes for these inputs, or `None`
/// when the bet must be accepted.
pub open spec fn place_check(
    l: LedgerV,
    bettor: u64,
    side: BetOption,
    amount: u64,
    now: i64,
) -> Option<BettingError> {
    if amount < MIN_BET_AMOUNT {
        Some(BettingError::InvalidAmount)
    } else if !(l.event.status is Active && now < l.event.deadline) {
        Some(BettingError::MarketNotActive)
    } else if has_active_bet(l.bets, bettor) {
        Some(BettingError::DuplicateBet)
    } else if bettor == l.event.admin {
        Some(BettingError::SelfBetForbidden)
    } else if side is OptionA && l.event.total_pool_a + amount > u64::MAX {
        Some(BettingError::PoolOverflow)
    } else if side is OptionB && l.event.total_pool_b + amount > u64::MAX {
        Some(BettingError::PoolOverflow)
    } else {
        None
    }
}

/// The bet record an accepted placement appends.
pub open spec fn placed_bet(bettor: u64, side: BetOption, amount: u64, now: i64) -> Bet {
    Bet { bettor, bet_option: side, amount, timestamp: now, status: BetStatus::Active }
}

/// The ledger after an accepted placement: the bet is appended and its
/// stake is added to the pool of its side.
pub open spec fn place_step(
    l: LedgerV,
    bettor: u64,
    side: BetOption,
    amount: u64,
    now: i64,
) -> LedgerV {
    LedgerV {
        event: Event {
            total_pool_a: if side is OptionA {
                (l.event.total_pool_a + amount) as u64
            } else {
                l.event.total_pool_a
            },
            total_pool_b: if side is OptionB {
                (l.event.total_pool_b + amount) as u64
            } else {
                l.event.total_pool_b
            },
            ..l.event
        },
        bets: l.bets.push(placed_bet(bettor, side, amount, now)),
    }
}

impl Ledger {
    /// Escrows a new stake of `bettor` on `side`.  Returns the new
    /// bet's identifier; rejects stakes below the minimum, betting on a
    /// closed or inactive event, a second live bet by the same bettor,
    /// the admin betting, and a stake that would overflow its pool.
    #[verifier::loop_isolation(false)]
    pub fn place_bet(&mut self, bettor: u64, side: BetOption, amount: u64, now: i64) -> (r: Result<
        usize,
        BettingError,
    >)
        requires
            wf(old(self)@),
        ensures
            wf(final(self)@),
            (match place_check(old(self)@, bettor, side, amount, now) {
                Some(e) => r matches Err(e2) && e2 == e && final(self)@ == old(self)@,
                None => r matches Ok(id) && id == old(self)@.bets.len() && final(self)@
                    == place_step(old(self)@, bettor, side, amount, now),
            }),
    {
        if amount < MIN_BET_AMOUNT {
            return Err(BettingError::InvalidAmount);
        }
        if !(self.event.status == EventStatus::Active && now < self.event.deadline) {
            return Err(BettingError::MarketNotActive);
        }
        let n = self.bets.len();
        let mut i: usize = 0;
        while i < n
            invariant
                n == self.bets@.len(),
                forall|j: int|
                    0 <= j < i ==> !((#[trigger] self.bets@[j]).bettor == bettor
                        && self.bets@[j].status is Active),
            decreases n - i,
        {
            let b = self.bets[i];
            if b.bettor == bettor && b.status == BetStatus::Active {
                proof {
                    assert(self.bets@[i as int].bettor == bettor && self.bets@[i as int].status
                        is Active);
                }
                return Err(BettingError::DuplicateBet);
            }
            i += 1;
        }
        if bettor == self.event.admin {
            return Err(BettingError::SelfBetForbidden);
        }
        match side {
            BetOption::OptionA => {
                if amount > u64::MAX - self.event.total_pool_a {
                    return Err(BettingError::PoolOverflow);
                }
            },
            BetOption::OptionB => {
                if amount > u64::MAX - self.event.total_pool_b {
                    return Err(BettingError::PoolOverflow);
                }
            },
        }
        let id = self.bets.len();
        let bet = Bet {
            bettor,
            bet_option: side,
            amount,
            timestamp: now,
            status: BetStatus::Active,
        };
        self.bets.push(bet);
        match side {
            BetOption::OptionA => {
                self.event.total_pool_a = self.event.total_pool_a + amount;
            },
            BetOption::OptionB => {
                self.event.total_pool_b = self.event.total_pool_b + amount;
            },
        }
        proof {
            lemma_pool_sum_push(old(self)@.bets, bet, BetOption::OptionA, 0);
            lemma_pool_sum_push(old(self)@.bets, bet, BetOption::OptionB, 0);
            assert(final(self)@ =~= place_step(old(self)@, bettor, side, amount, now));
        }
        Ok(id)
    }

    /// The two pool totals, always consistent with the ledger's bets.
    pub fn pool_totals(&self) -> (totals: (u64, u64))
        ensures
            totals.0 == self.event.total_pool_a,
            totals.1 == self.event.total_pool_b,
    {
        (self.event.total_pool_a, self.event.total_pool_b)
    }

    /// The still-active bets on `side`, in placement order with the
    /// most recent last.  Read-only and idempotent.
    #[verifier::loop_isolation(false)]
    pub fn active_bets(&self, side: BetOption) -> (r: Vec<Bet>)
        ensures
            r@ == self.bets@.filter(|b: Bet| refundable(b, side)),
    {
        let ghost pred = |b: Bet| refundable(b, side);
        let mut r: Vec<Bet> = Vec::new();
        let n = self.bets.len();
        let mut i: usize = 0;
        proof {
            assert(self.bets@.take(0).filter(pred) =~= Seq::<Bet>::empty());
        }
        while i < n
            invariant
                n == self.bets@.len(),
                i <= n,
                r@ == self.bets@.take(i as int).filter(pred),
                pred == (|b: Bet| refundable(b, side)),
            decreases n - i,
        {
            let b = self.bets[i];
            proof {
                broadcast use vstd::prelude::Seq::lemma_filter_push;

                assert(self.bets@.take(i + 1) =~= self.bets@.take(i as int).push(
                    self.bets@[i as int],
                ));
            }
            if b.status == BetStatus::Active && b.bet_option == side {
                r.push(b);
            }
            i += 1;
        }
        proof {
            assert(self.bets@.take(n as int) =~= self.bets@);
        }
        r
    }
}

} // verus!
