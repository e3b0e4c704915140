//! Settlement core for a peer-to-peer binary-outcome betting market.
//!
//! The crate escrows stakes placed on one of two mutually exclusive outcomes
//! of an event, keeps the two outcome pools balanced by refunding excess
//! stake in LIFO order once betting locks, accepts a single attested result
//! from an authorized oracle, and computes deterministic fixed-odds payouts.

pub mod balance;
pub mod bet;
pub mod enums;
pub mod errors;
pub mod event;
pub mod ledger;
pub mod model;
pub mod settlement;

pub use bet::{Bet, MIN_BET_AMOUNT};
pub use enums::{winner_from_scores, BetOption, BetStatus, EventStatus, Outcome, Winner};
pub use errors::BettingError;
pub use event::Event;
pub use ledger::{create_event, Ledger};
