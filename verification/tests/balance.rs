use shin2chin::{create_event, BetOption, BetStatus, BettingError, Ledger, MIN_BET_AMOUNT};

const M: u64 = MIN_BET_AMOUNT;

fn open_ledger() -> Ledger {
    create_event(1, "alpha".to_string(), "beta".to_string(), 1_000, 2_000, 2, 0).unwrap()
}

#[test]
fn balance_walks_lifo_and_refunds_whole_bets() {
    // Bets placed in order: B1(100, side A), B2(50, side A), B3(30, side B),
    // in units of the minimum stake; pools are then 150 vs 30.
    let mut ledger = open_ledger();
    let b1 = ledger.place_bet(10, BetOption::OptionA, 100 * M, 5).unwrap();
    let b2 = ledger.place_bet(11, BetOption::OptionA, 50 * M, 6).unwrap();
    let b3 = ledger.place_bet(12, BetOption::OptionB, 30 * M, 7).unwrap();
    assert_eq!(ledger.pool_totals(), (150 * M, 30 * M));

    // The imbalance is 120.  The walk refunds B2 first (most recent on the
    // heavy side) in full; 50 has not reached 120, so it also refunds B1 in
    // full, overshooting rather than splitting a bet.
    let refunded = ledger.auto_balance(1_000).unwrap();
    assert_eq!(refunded, vec![b2, b1]);
    assert_eq!(ledger.bets[b1].status, BetStatus::Refunded);
    assert_eq!(ledger.bets[b2].status, BetStatus::Refunded);
    assert_eq!(ledger.bets[b3].status, BetStatus::Active);
    assert_eq!(ledger.pool_totals(), (0, 30 * M));
}

#[test]
fn balance_stops_once_the_imbalance_is_covered() {
    let mut ledger = open_ledger();
    let b1 = ledger.place_bet(10, BetOption::OptionA, 40 * M, 5).unwrap();
    let b2 = ledger.place_bet(11, BetOption::OptionA, 50 * M, 6).unwrap();
    ledger.place_bet(12, BetOption::OptionB, 60 * M, 7).unwrap();
    // Imbalance is 30; refunding B2 (most recent on the heavy side) already
    // covers it, so B1 stays matched.
    let refunded = ledger.auto_balance(1_000).unwrap();
    assert_eq!(refunded, vec![b2]);
    assert_eq!(ledger.bets[b1].status, BetStatus::Active);
    assert_eq!(ledger.pool_totals(), (40 * M, 60 * M));
}

#[test]
fn balance_second_call_is_a_no_op() {
    let mut ledger = open_ledger();
    ledger.place_bet(10, BetOption::OptionA, 100 * M, 5).unwrap();
    ledger.place_bet(11, BetOption::OptionA, 50 * M, 6).unwrap();
    ledger.place_bet(12, BetOption::OptionB, 30 * M, 7).unwrap();
    ledger.auto_balance(1_000).unwrap();
    let pools = ledger.pool_totals();
    let statuses: Vec<BetStatus> = ledger.bets.iter().map(|b| b.status).collect();

    let second = ledger.auto_balance(1_000);
    assert_eq!(second.err(), Some(BettingError::AlreadyBalanced));
    assert_eq!(ledger.pool_totals(), pools);
    let statuses_after: Vec<BetStatus> = ledger.bets.iter().map(|b| b.status).collect();
    assert_eq!(statuses_after, statuses);
}

#[test]
fn balance_reports_already_balanced_before_lock_and_on_equal_pools() {
    let mut ledger = open_ledger();
    ledger.place_bet(10, BetOption::OptionA, 10 * M, 5).unwrap();
    // Betting has not locked yet.
    assert_eq!(ledger.auto_balance(999).err(), Some(BettingError::AlreadyBalanced));
    ledger.place_bet(11, BetOption::OptionB, 10 * M, 6).unwrap();
    // Pools are equal.
    assert_eq!(ledger.auto_balance(1_000).err(), Some(BettingError::AlreadyBalanced));
}

#[test]
fn balance_refunds_the_heavy_side_even_past_the_light_pool() {
    // Side B is heavy by 40; its only bet (50) is refunded whole, leaving
    // the former light side as the only funded pool.
    let mut ledger = open_ledger();
    let b1 = ledger.place_bet(10, BetOption::OptionA, 10 * M, 5).unwrap();
    let b2 = ledger.place_bet(11, BetOption::OptionB, 50 * M, 6).unwrap();
    let refunded = ledger.auto_balance(1_000).unwrap();
    assert_eq!(refunded, vec![b2]);
    assert_eq!(ledger.pool_totals(), (10 * M, 0));
    assert_eq!(ledger.bets[b1].status, BetStatus::Active);
}

#[test]
fn refunded_bet_keeps_its_stake_for_return() {
    let mut ledger = open_ledger();
    let b1 = ledger.place_bet(10, BetOption::OptionA, 25 * M, 5).unwrap();
    let refunded = ledger.auto_balance(1_000).unwrap();
    assert_eq!(refunded, vec![b1]);
    // A refunded bet returns exactly its original amount; it is not run
    // through the payout formula.
    assert_eq!(ledger.bets[b1].amount, 25 * M);
    assert_eq!(ledger.bets[b1].calculate_payout(), 0);
}
