//! Session-id allocation.

use vstd::prelude::*;
use crate::GameError;

verus! {

/// Monotonic counter producing overflow-checked session identifiers.
///
/// Ids are dense: they start at 0 and each successful `advance` issues the
/// next one, exactly once, in increasing order — regardless of how the
/// session that carried the id was finalized.
#[derive(Clone, Copy, PartialEq, Eq, Structural, Debug)]
pub struct SessionIdAllocator {
    /// The id currently accepting bets.
    pub current: u128,
}

impl SessionIdAllocator {
    /// What one successful `advance` does: it returns the retired id `issued`
    /// and moves the allocator from `pre` to `post`.
    pub open spec fn advanced(pre: Self, post: Self, issued: u128) -> bool {
        &&& issued == pre.current
        &&& post.current == pre.current + 1
    }

    /// A fresh allocator; the first session id is 0.
    pub fn new() -> (a: Self)
        ensures
            a.current == 0,
    {
        SessionIdAllocator { current: 0 }
    }

    /// The id currently accepting bets, without mutation.
    pub fn current(&self) -> (id: u128)
        ensures
            id == self.current,
    {
        self.current
    }

    /// Returns the id being retired (the current one) and sets the current
    /// value to its successor. Fails with `SessionIdOverflow` when no
    /// successor exists in the id domain; on failure nothing is mutated.
    pub fn advance(&mut self) -> (r: Result<u128, GameError>)
        ensures
            old(self).current < u128::MAX ==> {
                &&& r == Ok::<u128, GameError>(old(self).current)
                &&& Self::advanced(*old(self), *final(self), old(self).current)
            },
            old(self).current == u128::MAX ==> {
                &&& r == Err::<u128, GameError>(GameError::SessionIdOverflow)
                &&& *final(self) == *old(self)
            },
    {
        match self.current.checked_add(1) {
            Some(next) => {
                let issued = self.current;
                self.current = next;
                Ok(issued)
            }
            None => Err(GameError::SessionIdOverflow),
        }
    }
}

/// An advance trace: `states[0]` is a fresh allocator, and `ids[i]` is the id
/// returned by the `i`-th successful `advance`, which moved the allocator
/// from `states[i]` to `states[i + 1]`.
pub open spec fn advance_trace(states: Seq<SessionIdAllocator>, ids: Seq<u128>) -> bool {
    &&& states.len() == ids.len() + 1
    &&& states[0].current == 0
    &&& forall|i: int|
        0 <= i < ids.len() ==> SessionIdAllocator::advanced(
            states[i],
            #[trigger] states[i + 1],
            ids[i],
        )
}

/// Law (monotonic ids): in any sequence of successful advances from a fresh
/// allocator, the `i`-th returned id is exactly `i` — ids start at 0 and
/// strictly increase by exactly 1.
pub proof fn lemma_monotonic_ids(states: Seq<SessionIdAllocator>, ids: Seq<u128>)
    requires
        advance_trace(states, ids),
    ensures
        forall|i: int| 0 <= i <= ids.len() ==> #[trigger] states[i].current == i,
        forall|i: int| 0 <= i < ids.len() ==> #[trigger] ids[i] == i,
    decreases ids.len(),
{
    if ids.len() > 0 {
        let n = ids.len() as int;
        let prev_states = states.drop_last();
        let prev_ids = ids.drop_last();
        assert forall|i: int| 0 <= i < prev_ids.len() implies SessionIdAllocator::advanced(
            prev_states[i],
            #[trigger] prev_states[i + 1],
            prev_ids[i],
        ) by {
            assert(SessionIdAllocator::advanced(states[i], states[i + 1], ids[i]));
        }
        lemma_monotonic_ids(prev_states, prev_ids);
        assert(prev_states[n - 1] == states[n - 1]);
        assert(states[n - 1].current == n - 1);
        assert(SessionIdAllocator::advanced(states[n - 1], states[n], ids[n - 1]));
        assert forall|i: int| 0 <= i <= ids.len() implies #[trigger] states[i].current == i by {
            if i < n {
                assert(prev_states[i] == states[i]);
            }
        }
        assert forall|i: int| 0 <= i < ids.len() implies #[trigger] ids[i] == i by {
            if i < n - 1 {
                assert(prev_ids[i] == ids[i]);
                assert(prev_ids[i] == i);
            } else {
                assert(ids[n - 1] == states[n - 1].current);
            }
        }
    }
}

} // verus!
