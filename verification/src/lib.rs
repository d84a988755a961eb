//! Core logic of a periodic, session-based number-guessing game.
//!
//! The game runs atop a host that advances in discrete ticks. Each session
//! spans a fixed number of ticks; during a session participants submit a
//! numeric guess together with a wager. When a session ends, a target number
//! in `[1, 99]` is derived deterministically from host-supplied entropy, and
//! the bet whose guess is closest to the target wins.
//!
//! The crate covers the session/bet state machine: session-id allocation,
//! bet recording, target derivation and winner resolution. Transaction
//! authentication, persistent storage and event delivery are the host's
//! business; the engine owns its state directly and returns the events it
//! would emit.

use vstd::prelude::*;

pub mod bet;
pub mod clock;
pub mod engine;
pub mod ledger;
pub mod randomness;
pub mod resolver;
pub mod session_id;

verus! {

/// The errors of the game core.
#[derive(Clone, Copy, PartialEq, Eq, Structural, Debug)]
pub enum GameError {
    /// The session-id counter has exhausted its domain; fatal to further
    /// session progress.
    SessionIdOverflow,
    /// Fewer than two bets were recorded in a closing session, so no winner
    /// can be declared.
    NotEnoughBets,
}

} // verus!
