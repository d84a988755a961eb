//! Winner resolution: a pure function from a target and an ordered sequence
//! of bets to the winning bet.

use vstd::prelude::*;
use crate::bet::Bet;
use crate::GameError;

verus! {

/// Distance between two numbers: the absolute difference
/// `max(a, b) - min(a, b)`. Smaller is closer.
pub open spec fn guess_diff_spec(a: u32, b: u32) -> u32 {
    if a > b {
        (a - b) as u32
    } else {
        (b - a) as u32
    }
}

/// The index of the winning bet: the scan keeps the earliest bet seen so far
/// and replaces it only on a strictly smaller distance to the target, so the
/// earliest bet among those at minimal distance wins.
pub open spec fn winner_index(target: u32, bets: Seq<Bet>) -> int
    decreases bets.len(),
{
    if bets.len() <= 1 {
        0
    } else {
        let prev = winner_index(target, bets.drop_last());
        if guess_diff_spec(target, bets.last().guess) < guess_diff_spec(
            target,
            bets[prev].guess,
        ) {
            bets.len() - 1
        } else {
            prev
        }
    }
}

/// The winning index lies inside the sequence.
pub proof fn lemma_winner_index_in_bounds(target: u32, bets: Seq<Bet>)
    requires
        bets.len() >= 1,
    ensures
        0 <= winner_index(target, bets) < bets.len(),
    decreases bets.len(),
{
    if bets.len() > 1 {
        lemma_winner_index_in_bounds(target, bets.drop_last());
    }
}

/// Law: the winner is closest — no bet in the sequence lies strictly closer
/// to the target than the winning bet.
pub proof fn lemma_winner_is_closest(target: u32, bets: Seq<Bet>)
    requires
        bets.len() >= 1,
    ensures
        0 <= winner_index(target, bets) < bets.len(),
        forall|j: int|
            0 <= j < bets.len() ==> guess_diff_spec(
                target,
                bets[winner_index(target, bets)].guess,
            ) <= guess_diff_spec(target, #[trigger] bets[j].guess),
    decreases bets.len(),
{
    lemma_winner_index_in_bounds(target, bets);
    if bets.len() > 1 {
        let prev = winner_index(target, bets.drop_last());
        lemma_winner_is_closest(target, bets.drop_last());
        assert forall|j: int| 0 <= j < bets.len() implies guess_diff_spec(
            target,
            bets[winner_index(target, bets)].guess,
        ) <= guess_diff_spec(target, #[trigger] bets[j].guess) by {
            if j < bets.len() - 1 {
                assert(bets.drop_last()[j] == bets[j]);
                assert(bets.drop_last()[prev] == bets[prev]);
            }
        }
    }
}

/// Law: ties break to the earliest bet — every bet strictly before the winner
/// lies strictly farther from the target, so a bet at the same distance never
/// displaces an earlier one.
pub proof fn lemma_winner_earliest(target: u32, bets: Seq<Bet>)
    requires
        bets.len() >= 1,
    ensures
        0 <= winner_index(target, bets) < bets.len(),
        forall|j: int|
            0 <= j < winner_index(target, bets) ==> guess_diff_spec(
                target,
                #[trigger] bets[j].guess,
            ) > guess_diff_spec(target, bets[winner_index(target, bets)].guess),
    decreases bets.len(),
{
    lemma_winner_index_in_bounds(target, bets);
    if bets.len() > 1 {
        let prev = winner_index(target, bets.drop_last());
        lemma_winner_earliest(target, bets.drop_last());
        lemma_winner_is_closest(target, bets.drop_last());
        assert forall|j: int| 0 <= j < winner_index(target, bets) implies guess_diff_spec(
            target,
            #[trigger] bets[j].guess,
        ) > guess_diff_spec(target, bets[winner_index(target, bets)].guess) by {
            assert(bets.drop_last()[j] == bets[j]);
            assert(bets.drop_last()[prev] == bets[prev]);
        }
    }
}

/// Resolves the winner of a closing session: fails with `NotEnoughBets` when
/// fewer than two bets were recorded (a single bettor cannot win against
/// nobody — a deliberate threshold), and otherwise returns the earliest bet
/// whose guess is closest to the target.
pub fn resolve(target: u32, bets: &Vec<Bet>) -> (r: Result<Bet, GameError>)
    ensures
        bets@.len() < 2 ==> r == Err::<Bet, GameError>(GameError::NotEnoughBets),
        bets@.len() >= 2 ==> r == Ok::<Bet, GameError>(bets@[winner_index(target, bets@)]),
{
    if bets.len() <= 1 {
        return Err(GameError::NotEnoughBets);
    }
    let ghost all = bets@;
    let mut winner: Bet = bets[0];
    let mut winner_diff: u32 = crate::engine::Module::get_guess_diff(target, winner.guess);
    let mut i: usize = 1;
    assert(all.take(1) =~= seq![all[0]]);
    while i < bets.len()
        invariant
            1 <= i <= all.len(),
            2 <= all.len(),
            bets@ == all,
            winner_diff == guess_diff_spec(target, winner.guess),
            winner_index(target, all.take(i as int)) < i,
            winner == all[winner_index(target, all.take(i as int))],
        decreases all.len() - i,
    {
        let d = crate::engine::Module::get_guess_diff(target, bets[i].guess);
        proof {
            let t = i as int;
            assert(all.take(t + 1).drop_last() =~= all.take(t));
            assert(all.take(t + 1).last() == all[t]);
            lemma_winner_index_in_bounds(target, all.take(t));
            let prev = winner_index(target, all.take(t));
            assert(all.take(t + 1)[prev] == all[prev]);
            assert(all.take(t + 1)[t] == all[t]);
        }
        if d < winner_diff {
            winner = bets[i];
            winner_diff = d;
        }
        i = i + 1;
    }
    proof {
        assert(all.take(all.len() as int) =~= all);
    }
    Ok(winner)
}

} // verus!
