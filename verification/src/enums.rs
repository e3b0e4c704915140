//! The enumerated states and labels of the betting lifecycle.

use vstd::prelude::*;

verus! {

/// Lifecycle of a betting event.  `Closed` is never stored: it is the
/// derived phase of an `Active` event whose deadline has passed.
#[derive(Clone, Copy, PartialEq, Eq, Structural, Debug)]
pub enum EventStatus {
    Active,
    Closed,
    Settled,
    Cancelled,
}

/// The two mutually exclusive outcomes a bet can back.
#[derive(Clone, Copy, PartialEq, Eq, Structural, Debug)]
pub enum BetOption {
    OptionA,
    OptionB,
}

/// Lifecycle of a single bet.  Transitions are monotonic along
/// `Active -> {Refunded | Won | Lost}` and `Won -> Claimed`.
#[derive(Clone, Copy, PartialEq, Eq, Structural, Debug)]
pub enum BetStatus {
    Active,
    Refunded,
    Won,
    Lost,
    Claimed,
}

/// The settled result of an event.  Stored as `Option<Winner>` on the
/// event: `None` until settlement, then set exactly once.
#[derive(Clone, Copy, PartialEq, Eq, Structural, Debug)]
pub enum Winner {
    OptionA,
    OptionB,
    Draw,
}

/// A result submission: either a direct winner selection or a pair of
/// final scores from which the winner is derived.
#[derive(Clone, Copy, PartialEq, Eq, Structural, Debug)]
pub enum Outcome {
    Direct(Winner),
    Scores(u32, u32),
}

/// The winner derived from a result submission: the higher score wins,
/// equal scores produce a draw.
pub open spec fn winner_of(outcome: Outcome) -> Winner {
    match outcome {
        Outcome::Direct(w) => w,
        Outcome::Scores(a, b) => {
            if a > b {
                Winner::OptionA
            } else if b > a {
                Winner::OptionB
            } else {
                Winner::Draw
            }
        },
    }
}

/// Derives the winning side from a pair of final scores.
pub fn winner_from_scores(score_a: u32, score_b: u32) -> (w: Winner)
    ensures
        w == winner_of(Outcome::Scores(score_a, score_b)),
{
    if score_a > score_b {
        Winner::OptionA
    } else if score_b > score_a {
        Winner::OptionB
    } else {
        Winner::Draw
    }
}

} // verus!
