//! The bet record.

use vstd::prelude::*;

verus! {

/// A recorded wager: who bet, which number in `[1, 99]` they guessed, and
/// how much they staked. Immutable once recorded.
#[derive(Clone, Copy, PartialEq, Eq, Structural, Debug)]
pub struct Bet {
    /// The participant that placed the bet. The host authenticates
    /// identities; the core only carries them.
    pub account_id: u64,
    /// The guessed target, in `[1, 99]`.
    pub guess: u32,
    /// The staked amount. Recorded, never transferred by the core.
    pub wager: u32,
}

} // verus!
