use shin2chin::{
    create_event, winner_from_scores, Bet, BetOption, BetStatus, BettingError, EventStatus,
    Ledger, Outcome, Winner, MIN_BET_AMOUNT,
};

const M: u64 = MIN_BET_AMOUNT;

fn open_ledger() -> Ledger {
    create_event(1, "alpha".to_string(), "beta".to_string(), 1_000, 2_000, 2, 0).unwrap()
}

fn two_sided_ledger() -> (Ledger, usize, usize) {
    let mut ledger = open_ledger();
    let on_a = ledger.place_bet(10, BetOption::OptionA, 10 * M, 5).unwrap();
    let on_b = ledger.place_bet(11, BetOption::OptionB, 10 * M, 6).unwrap();
    (ledger, on_a, on_b)
}

#[test]
fn winner_from_scores_picks_the_higher_score() {
    assert_eq!(winner_from_scores(3, 1), Winner::OptionA);
    assert_eq!(winner_from_scores(0, 4), Winner::OptionB);
    assert_eq!(winner_from_scores(2, 2), Winner::Draw);
}

#[test]
fn submit_result_settles_and_assigns_won_and_lost() {
    let (mut ledger, on_a, on_b) = two_sided_ledger();
    let w = ledger.submit_result(2, Outcome::Scores(3, 1), 2_000).unwrap();
    assert_eq!(w, Winner::OptionA);
    assert_eq!(ledger.event.status, EventStatus::Settled);
    assert_eq!(ledger.event.winner, Some(Winner::OptionA));
    assert_eq!(ledger.bets[on_a].status, BetStatus::Won);
    assert_eq!(ledger.bets[on_b].status, BetStatus::Lost);
    // Pools are untouched by a non-draw settlement.
    assert_eq!(ledger.pool_totals(), (10 * M, 10 * M));
}

#[test]
fn submit_result_accepts_a_direct_winner() {
    let (mut ledger, on_a, on_b) = two_sided_ledger();
    let w = ledger.submit_result(2, Outcome::Direct(Winner::OptionB), 2_000).unwrap();
    assert_eq!(w, Winner::OptionB);
    assert_eq!(ledger.bets[on_a].status, BetStatus::Lost);
    assert_eq!(ledger.bets[on_b].status, BetStatus::Won);
}

#[test]
fn submit_result_rejects_a_wrong_authority() {
    let (mut ledger, on_a, _) = two_sided_ledger();
    let r = ledger.submit_result(3, Outcome::Scores(3, 1), 2_000);
    assert_eq!(r.err(), Some(BettingError::UnauthorizedAuthority));
    assert_eq!(ledger.event.status, EventStatus::Active);
    assert_eq!(ledger.bets[on_a].status, BetStatus::Active);
}

#[test]
fn submit_result_rejects_an_early_submission() {
    let (mut ledger, _, _) = two_sided_ledger();
    let r = ledger.submit_result(2, Outcome::Scores(3, 1), 1_999);
    assert_eq!(r.err(), Some(BettingError::ResultTooEarly));
    assert_eq!(ledger.event.winner, None);
}

#[test]
fn submit_result_fires_only_once() {
    let (mut ledger, on_a, on_b) = two_sided_ledger();
    ledger.submit_result(2, Outcome::Scores(3, 1), 2_000).unwrap();
    let second = ledger.submit_result(2, Outcome::Scores(0, 9), 2_001);
    assert_eq!(second.err(), Some(BettingError::AlreadySettled));
    // The first settlement stands untouched.
    assert_eq!(ledger.event.winner, Some(Winner::OptionA));
    assert_eq!(ledger.bets[on_a].status, BetStatus::Won);
    assert_eq!(ledger.bets[on_b].status, BetStatus::Lost);
}

#[test]
fn submit_result_rejects_a_cancelled_market() {
    let (mut ledger, _, _) = two_sided_ledger();
    ledger.event.status = EventStatus::Cancelled;
    let r = ledger.submit_result(2, Outcome::Scores(3, 1), 2_000);
    assert_eq!(r.err(), Some(BettingError::MarketNotActive));
}

#[test]
fn settle_event_rejects_before_the_deadline() {
    let (mut ledger, _, _) = two_sided_ledger();
    let r = ledger.settle_event(Winner::OptionA, 999);
    assert_eq!(r.err(), Some(BettingError::EventNotReady));
    assert_eq!(ledger.event.status, EventStatus::Active);
}

#[test]
fn draw_refunds_every_active_bet_and_empties_the_pools() {
    let (mut ledger, on_a, on_b) = two_sided_ledger();
    let w = ledger.submit_result(2, Outcome::Scores(2, 2), 2_000).unwrap();
    assert_eq!(w, Winner::Draw);
    assert_eq!(ledger.event.winner, Some(Winner::Draw));
    assert_eq!(ledger.bets[on_a].status, BetStatus::Refunded);
    assert_eq!(ledger.bets[on_b].status, BetStatus::Refunded);
    // Each refunded bet keeps its stake for return.
    assert_eq!(ledger.bets[on_a].amount, 10 * M);
    assert_eq!(ledger.bets[on_b].amount, 10 * M);
    assert_eq!(ledger.pool_totals(), (0, 0));
}

#[test]
fn payout_is_fixed_odds_with_fee() {
    let won = Bet {
        bettor: 10,
        bet_option: BetOption::OptionA,
        amount: 1_000_000,
        timestamp: 5,
        status: BetStatus::Won,
    };
    assert_eq!(won.calculate_payout(), 1_950_000);
    assert!(won.can_claim());
    let lost = Bet { status: BetStatus::Lost, ..won };
    assert_eq!(lost.calculate_payout(), 0);
    let refunded = Bet { status: BetStatus::Refunded, ..won };
    assert_eq!(refunded.calculate_payout(), 0);
    assert!(refunded.is_refunded());
    // A refunded bet returns exactly its original amount.
    assert_eq!(refunded.amount, 1_000_000);
}

#[test]
fn payout_multiplication_saturates() {
    let won = Bet {
        bettor: 10,
        bet_option: BetOption::OptionA,
        amount: u64::MAX / 100,
        timestamp: 5,
        status: BetStatus::Won,
    };
    assert_eq!(won.calculate_payout(), u64::MAX / 100);
}

#[test]
fn claim_pays_a_won_bet_once() {
    let (mut ledger, on_a, _) = two_sided_ledger();
    ledger.submit_result(2, Outcome::Scores(3, 1), 2_000).unwrap();
    let payout = ledger.claim_winnings(on_a, 10, 2_500).unwrap();
    assert_eq!(payout, 10 * M * 195 / 100);
    assert_eq!(ledger.bets[on_a].status, BetStatus::Claimed);
    let second = ledger.claim_winnings(on_a, 10, 2_600);
    assert_eq!(second.err(), Some(BettingError::AlreadyClaimed));
    assert_eq!(ledger.bets[on_a].status, BetStatus::Claimed);
}

#[test]
fn claim_rejects_a_stranger() {
    let (mut ledger, on_a, _) = two_sided_ledger();
    ledger.submit_result(2, Outcome::Scores(3, 1), 2_000).unwrap();
    let r = ledger.claim_winnings(on_a, 99, 2_500);
    assert_eq!(r.err(), Some(BettingError::NotBetOwner));
    assert_eq!(ledger.bets[on_a].status, BetStatus::Won);
}

#[test]
fn claim_rejects_bets_that_did_not_win() {
    let (mut ledger, on_a, on_b) = two_sided_ledger();
    // Before settlement the bet is still active.
    assert_eq!(
        ledger.claim_winnings(on_a, 10, 1_500).err(),
        Some(BettingError::NothingToClaim)
    );
    ledger.submit_result(2, Outcome::Scores(3, 1), 2_000).unwrap();
    // A lost bet never pays.
    assert_eq!(
        ledger.claim_winnings(on_b, 11, 2_500).err(),
        Some(BettingError::NothingToClaim)
    );
}

#[test]
fn bet_status_helpers_follow_the_lifecycle() {
    let (mut ledger, on_a, on_b) = two_sided_ledger();
    assert!(ledger.bets[on_a].is_active());
    assert!(!ledger.bets[on_a].can_claim());
    assert!(!ledger.bets[on_a].is_refunded());
    ledger.submit_result(2, Outcome::Scores(3, 1), 2_000).unwrap();
    assert!(ledger.bets[on_a].is_active());
    assert!(ledger.bets[on_a].can_claim());
    assert!(ledger.bets[on_b].is_active());
    assert!(!ledger.bets[on_b].can_claim());
    ledger.claim_winnings(on_a, 10, 2_500).unwrap();
    assert!(!ledger.bets[on_a].is_active());
    assert!(!ledger.bets[on_a].can_claim());
}

#[test]
fn balance_then_settle_keeps_refunds_out_of_the_result() {
    let mut ledger = open_ledger();
    let b1 = ledger.place_bet(10, BetOption::OptionA, 100 * M, 5).unwrap();
    let b2 = ledger.place_bet(11, BetOption::OptionA, 50 * M, 6).unwrap();
    let b3 = ledger.place_bet(12, BetOption::OptionB, 30 * M, 7).unwrap();
    ledger.auto_balance(1_000).unwrap();
    ledger.submit_result(2, Outcome::Scores(0, 2), 2_000).unwrap();
    // Refunded bets stay refunded; only the surviving bet is judged.
    assert_eq!(ledger.bets[b1].status, BetStatus::Refunded);
    assert_eq!(ledger.bets[b2].status, BetStatus::Refunded);
    assert_eq!(ledger.bets[b3].status, BetStatus::Won);
}

#[test]
fn bettor_may_return_after_a_refund() {
    // Only a live bet blocks a second one: a ledger holding a refunded bet
    // of the same bettor accepts a fresh stake.
    let mut ledger = open_ledger();
    ledger.bets.push(Bet {
        bettor: 10,
        bet_option: BetOption::OptionA,
        amount: 25 * M,
        timestamp: 5,
        status: BetStatus::Refunded,
    });
    let id = ledger.place_bet(10, BetOption::OptionA, 25 * M, 6).unwrap();
    assert_eq!(id, 1);
    assert_eq!(ledger.pool_totals(), (25 * M, 0));
}
