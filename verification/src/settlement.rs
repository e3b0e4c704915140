//! The settlement engine and oracle gate: result submission, the
//! single-fire settlement transition, and payout claims.

use vstd::prelude::*;
use crate::bet::{payout_of, Bet};
use crate::enums::{winner_of, BetOption, BetStatus, EventStatus, Outcome, Winner};
use crate::errors::BettingError;
use crate::event::Event;
use crate::ledger::Ledger;
use crate::model::{
    lemma_pool_sum_congruent, lemma_pool_sum_update, lemma_pool_sum_zero, pool_contribution,
    pool_sum, wf, LedgerV,
};

verus! {

/// The rejection the settlement transition owes, or `None` when the
/// event must settle: it settles at most once, only from the active
/// state, and only once betting has locked.
pub open spec fn settle_check(l: LedgerV, now: i64) -> Option<BettingError> {
    if l.event.status is Settled {
        Some(BettingError::AlreadySettled)
    } else if !(l.event.status is Active) {
        Some(BettingError::MarketNotActive)
    } else if now < l.event.deadline {
        Some(BettingError::EventNotReady)
    } else {
        None
    }
}

/// What settlement does to one bet.  A still-active bet on the winning
/// side wins and one on the losing side loses; on a draw every
/// still-active bet becomes refunded instead.  Bets already refunded
/// are untouched.
pub open spec fn settle_bet(bet: Bet, w: Winner) -> Bet {
    if bet.status is Active {
        match w {
            Winner::Draw => Bet { status: BetStatus::Refunded, ..bet },
            Winner::OptionA => Bet {
                status: if bet.bet_option is OptionA {
                    BetStatus::Won
                } else {
                    BetStatus::Lost
                },
                ..bet
            },
            Winner::OptionB => Bet {
                status: if bet.bet_option is OptionB {
                    BetStatus::Won
                } else {
                    BetStatus::Lost
                },
                ..bet
            },
        }
    } else {
        bet
    }
}

/// All bets after settlement with winner `w`.
pub open spec fn settle_marks(bets: Seq<Bet>, w: Winner) -> Seq<Bet> {
    Seq::new(bets.len(), |i: int| settle_bet(bets[i], w))
}

/// The ledger after an accepted settlement: the winner is recorded,
/// every bet is assigned its final status, and the pool totals are
/// restated over the bets that remain in the pools.
pub open spec fn settle_step(l: LedgerV, w: Winner) -> LedgerV {
    let marked = settle_marks(l.bets, w);
    LedgerV {
        event: Event {
            status: EventStatus::Settled,
            winner: Some(w),
            total_pool_a: pool_sum(marked, BetOption::OptionA) as u64,
            total_pool_b: pool_sum(marked, BetOption::OptionB) as u64,
            ..l.event
        },
        bets: marked,
    }
}

/// The rejection `submit_result` owes, or `None` when the submission
/// must settle the event: only the event's oracle may submit, at most
/// once, and no earlier than the settlement time.
pub open spec fn submit_check(l: LedgerV, authority: u64, now: i64) -> Option<BettingError> {
    if authority != l.event.oracle {
        Some(BettingError::UnauthorizedAuthority)
    } else if l.event.status is Settled {
        Some(BettingError::AlreadySettled)
    } else if now < l.event.settlement_time {
        Some(BettingError::ResultTooEarly)
    } else {
        settle_check(l, now)
    }
}

/// The rejection `claim_winnings` owes, or `None` when the payout must
/// be paid: only the bet's owner may claim, only a won bet pays, and
/// it pays at most once.
pub open spec fn claim_check(l: LedgerV, bet_id: int, claimant: u64) -> Option<BettingError> {
    if claimant != l.bets[bet_id].bettor {
        Some(BettingError::NotBetOwner)
    } else if l.bets[bet_id].status is Claimed {
        Some(BettingError::AlreadyClaimed)
    } else if !(l.bets[bet_id].status is Won) {
        Some(BettingError::NothingToClaim)
    } else {
        None
    }
}

/// The ledger after an accepted claim: the bet is marked claimed and
/// nothing else changes.
pub open spec fn claim_step(l: LedgerV, bet_id: int) -> LedgerV {
    LedgerV {
        event: l.event,
        bets: l.bets.update(bet_id, Bet { status: BetStatus::Claimed, ..l.bets[bet_id] }),
    }
}

impl Ledger {
    /// Performs the one-time settlement transition at time `now`:
    /// records `winner` and assigns every still-active bet its final
    /// status — won or lost by side, or refunded on a draw.  Fails
    /// without touching anything if the event is already settled, is
    /// cancelled, or betting has not locked yet.
    #[verifier::loop_isolation(false)]
    pub fn settle_event(&mut self, winner: Winner, now: i64) -> (r: Result<(), BettingError>)
        requires
            wf(old(self)@),
        ensures
            wf(final(self)@),
            (match settle_check(old(self)@, now) {
                Some(e) => r matches Err(e2) && e2 == e && final(self)@ == old(self)@,
                None => r matches Ok(u) && final(self)@ == settle_step(old(self)@, winner),
            }),
    {
        if self.event.status == EventStatus::Settled {
            return Err(BettingError::AlreadySettled);
        }
        if !(self.event.status == EventStatus::Active) {
            return Err(BettingError::MarketNotActive);
        }
        if now < self.event.deadline {
            return Err(BettingError::EventNotReady);
        }
        let ghost bets0 = self.bets@;
        let n = self.bets.len();
        let mut i: usize = 0;
        while i < n
            invariant
                i <= n,
                n == self.bets@.len(),
                bets0.len() == n,
                forall|j: int| i <= j < n ==> self.bets@[j] == bets0[j],
                forall|j: int| 0 <= j < i ==> self.bets@[j] == settle_bet(bets0[j], winner),
                self.event == old(self).event,
            decreases n - i,
        {
            let b = self.bets[i];
            if b.status == BetStatus::Active {
                let mut nb = b;
                match winner {
                    Winner::Draw => {
                        nb.status = BetStatus::Refunded;
                    },
                    Winner::OptionA => {
                        nb.status = if b.bet_option == BetOption::OptionA {
                            BetStatus::Won
                        } else {
                            BetStatus::Lost
                        };
                    },
                    Winner::OptionB => {
                        nb.status = if b.bet_option == BetOption::OptionB {
                            BetStatus::Won
                        } else {
                            BetStatus::Lost
                        };
                    },
                }
                self.bets[i] = nb;
            }
            i += 1;
        }
        match winner {
            Winner::Draw => {
                self.event.total_pool_a = 0;
                self.event.total_pool_b = 0;
            },
            Winner::OptionA => {},
            Winner::OptionB => {},
        }
        self.event.status = EventStatus::Settled;
        self.event.winner = Some(winner);
        proof {
            let marked = settle_marks(bets0, winner);
            assert(self.bets@ =~= marked);
            if winner is Draw {
                assert forall|j: int| 0 <= j < n implies pool_contribution(
                    #[trigger] marked[j],
                    BetOption::OptionA,
                ) == 0 && pool_contribution(marked[j], BetOption::OptionB) == 0 by {
                    assert(bets0[j].status is Active || bets0[j].status is Refunded);
                }
                lemma_pool_sum_zero(marked, BetOption::OptionA, 0);
                lemma_pool_sum_zero(marked, BetOption::OptionB, 0);
            } else {
                assert forall|j: int| 0 <= j < n implies pool_contribution(
                    #[trigger] bets0[j],
                    BetOption::OptionA,
                ) == pool_contribution(marked[j], BetOption::OptionA) && pool_contribution(
                    bets0[j],
                    BetOption::OptionB,
                ) == pool_contribution(marked[j], BetOption::OptionB) by {}
                lemma_pool_sum_congruent(bets0, marked, BetOption::OptionA, 0);
                lemma_pool_sum_congruent(bets0, marked, BetOption::OptionB, 0);
            }
            assert(final(self)@ =~= settle_step(old(self)@, winner));
        }
        Ok(())
    }

    /// Accepts a result submission from `authority` at time `now` and,
    /// if the oracle gate passes, settles the event with the winner the
    /// outcome carries or the higher score determines (equal scores
    /// settle as a draw).  Returns the recorded winner.  Fails without
    /// touching anything unless `authority` is the event's oracle, the
    /// event is not yet settled, and `now` has reached the settlement
    /// time.
    pub fn submit_result(&mut self, authority: u64, outcome: Outcome, now: i64) -> (r: Result<
        Winner,
        BettingError,
    >)
        requires
            wf(old(self)@),
        ensures
            wf(final(self)@),
            (match submit_check(old(self)@, authority, now) {
                Some(e) => r matches Err(e2) && e2 == e && final(self)@ == old(self)@,
                None => r matches Ok(w) && w == winner_of(outcome) && final(self)@ == settle_step(
                    old(self)@,
                    winner_of(outcome),
                ),
            }),
    {
        if authority != self.event.oracle {
            return Err(BettingError::UnauthorizedAuthority);
        }
        if self.event.status == EventStatus::Settled {
            return Err(BettingError::AlreadySettled);
        }
        if now < self.event.settlement_time {
            return Err(BettingError::ResultTooEarly);
        }
        let w = match outcome {
            Outcome::Direct(w0) => w0,
            Outcome::Scores(a, b) => crate::enums::winner_from_scores(a, b),
        };
        match self.settle_event(w, now) {
            Ok(()) => Ok(w),
            Err(e) => Err(e),
        }
    }

    /// Pays out a won bet to its owner, exactly once: marks the bet
    /// claimed and returns the fixed-odds payout.  Fails without
    /// touching anything unless `claimant` owns the bet, the bet won,
    /// and it has not been claimed before.
    pub fn claim_winnings(&mut self, bet_id: usize, claimant: u64, now: i64) -> (r: Result<
        u64,
        BettingError,
    >)
        requires
            wf(old(self)@),
            bet_id < old(self)@.bets.len(),
        ensures
            wf(final(self)@),
            (match claim_check(old(self)@, bet_id as int, claimant) {
                Some(e) => r matches Err(e2) && e2 == e && final(self)@ == old(self)@,
                None => r matches Ok(payout) && payout == payout_of(
                    old(self)@.bets[bet_id as int],
                ) && final(self)@ == claim_step(old(self)@, bet_id as int),
            }),
    {
        let b = self.bets[bet_id];
        if claimant != b.bettor {
            return Err(BettingError::NotBetOwner);
        }
        if b.status == BetStatus::Claimed {
            return Err(BettingError::AlreadyClaimed);
        }
        if !(b.status == BetStatus::Won) {
            return Err(BettingError::NothingToClaim);
        }
        let payout = b.calculate_payout();
        let mut nb = b;
        nb.status = BetStatus::Claimed;
        self.bets[bet_id] = nb;
        proof {
            lemma_pool_sum_update(old(self)@.bets, bet_id as int, nb, BetOption::OptionA, 0);
            lemma_pool_sum_update(old(self)@.bets, bet_id as int, nb, BetOption::OptionB, 0);
            assert(old(self)@.event.status is Settled) by {
                assert(old(self)@.bets[bet_id as int].status is Won);
            }
            assert(final(self)@ =~= claim_step(old(self)@, bet_id as int));
        }
        Ok(payout)
    }
}

/// Law: settlement is single-fire.  Once a result submission has
/// settled the event, every later submission by the valid authority
/// fails with `AlreadySettled`, whatever outcome and time it carries,
/// so the recorded winner and the bets' statuses stay those of the
/// first settlement.
pub proof fn lemma_submit_result_single_fire(
    l: LedgerV,
    authority: u64,
    outcome: Outcome,
    now: i64,
    authority2: u64,
    now2: i64,
)
    requires
        submit_check(l, authority, now) is None,
        authority2 == l.event.oracle,
    ensures
        submit_check(settle_step(l, winner_of(outcome)), authority2, now2) == Some(
            BettingError::AlreadySettled,
        ),
{
}

/// Law: a winning bet pays exactly once.  After a successful claim of
/// a bet, a second claim of the same bet by the same claimant fails
/// with `AlreadyClaimed`, so no second payout occurs.
pub proof fn lemma_claim_pays_once(l: LedgerV, bet_id: int, claimant: u64)
    requires
        0 <= bet_id < l.bets.len(),
        claim_check(l, bet_id, claimant) is None,
    ensures
        claim_check(claim_step(l, bet_id), bet_id, claimant) == Some(BettingError::AlreadyClaimed),
{
}

/// Law: equal final scores settle as a draw, and a draw makes every
/// bet refunded rather than won or lost — each still-active bet keeps
/// its stake for return and both pools drop to zero.
pub proof fn lemma_draw_refunds_all(l: LedgerV, score: u32)
    requires
        wf(l),
        !(l.event.status is Settled),
    ensures
        winner_of(Outcome::Scores(score, score)) == Winner::Draw,
        settle_step(l, Winner::Draw).event.winner == Some(Winner::Draw),
        settle_step(l, Winner::Draw).event.total_pool_a == 0,
        settle_step(l, Winner::Draw).event.total_pool_b == 0,
        forall|i: int|
            0 <= i < l.bets.len() ==> (#[trigger] settle_step(l, Winner::Draw).bets[i]).status
                is Refunded,
        forall|i: int|
            0 <= i < l.bets.len() ==> (#[trigger] settle_step(l, Winner::Draw).bets[i]).amount
                == l.bets[i].amount,
{
    let marked = settle_marks(l.bets, Winner::Draw);
    assert forall|j: int| 0 <= j < l.bets.len() implies pool_contribution(
        #[trigger] marked[j],
        BetOption::OptionA,
    ) == 0 && pool_contribution(marked[j], BetOption::OptionB) == 0 && marked[j].status
        is Refunded by {
        assert(l.bets[j].status is Active || l.bets[j].status is Refunded);
    }
    lemma_pool_sum_zero(marked, BetOption::OptionA, 0);
    lemma_pool_sum_zero(marked, BetOption::OptionB, 0);
}

} // verus!
