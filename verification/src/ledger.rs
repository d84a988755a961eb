//! The bet ledger: append-only sequences of bets, keyed by session id.

use vstd::prelude::*;
use crate::bet::Bet;

verus! {

/// The bets recorded for one session, in the order they arrived.
pub struct SessionBets {
    pub session: u128,
    pub bets: Vec<Bet>,
}

/// True when some bet in `s` belongs to `account_id`.
pub open spec fn has_bet_by(s: Seq<Bet>, account_id: u64) -> bool {
    exists|i: int| 0 <= i < s.len() && #[trigger] s[i].account_id == account_id
}

/// The index of the first bet in `s` belonging to `account_id`
/// (meaningful only when `has_bet_by` holds).
pub open spec fn first_bet_by(s: Seq<Bet>, account_id: u64) -> int
    decreases s.len(),
{
    if s.len() == 0 {
        0
    } else if s[0].account_id == account_id {
        0
    } else {
        1 + first_bet_by(s.drop_first(), account_id)
    }
}

/// What recording a bet does to a session's sequence. With
/// `allow_multiple` every bet is appended and all compete independently;
/// without it a participant's second bet overwrites their first, in place.
pub open spec fn record_spec(s: Seq<Bet>, bet: Bet, allow_multiple: bool) -> Seq<Bet> {
    if allow_multiple || !has_bet_by(s, bet.account_id) {
        s.push(bet)
    } else {
        s.update(first_bet_by(s, bet.account_id), bet)
    }
}

/// The first bet by an account is where the scan says it is: at the first
/// index whose bet carries the account.
pub proof fn lemma_first_bet_by_at(s: Seq<Bet>, account_id: u64, i: int)
    requires
        0 <= i < s.len(),
        s[i].account_id == account_id,
        forall|j: int| 0 <= j < i ==> (#[trigger] s[j].account_id) != account_id,
    ensures
        has_bet_by(s, account_id),
        first_bet_by(s, account_id) == i,
    decreases i,
{
    if i > 0 {
        lemma_first_bet_by_at(s.drop_first(), account_id, i - 1);
    }
}

/// Append-only collection of bets keyed by session identifier. Retired
/// sessions' sequences are never deleted, only abandoned; reclamation is the
/// host's business.
pub struct BetLedger {
    pub entries: Vec<SessionBets>,
}

/// The bets held for `session` in a sequence of ledger entries: those of the
/// first entry keyed by `session`, or none when no entry is.
pub open spec fn bets_of_entries(s: Seq<SessionBets>, session: u128) -> Seq<Bet>
    decreases s.len(),
{
    if s.len() == 0 {
        Seq::empty()
    } else if s[0].session == session {
        s[0].bets@
    } else {
        bets_of_entries(s.drop_first(), session)
    }
}

/// An entry keyed by `session` exists.
pub open spec fn contains_session(s: Seq<SessionBets>, session: u128) -> bool {
    exists|i: int| 0 <= i < s.len() && (#[trigger] s[i].session) == session
}

/// Under unique keys, the bets of `session` are those of its entry.
proof fn lemma_bets_of_entries_at(s: Seq<SessionBets>, session: u128, i: int)
    requires
        0 <= i < s.len(),
        s[i].session == session,
        forall|j: int, k: int|
            0 <= j < k < s.len() ==> (#[trigger] s[j].session) != (#[trigger] s[k].session),
    ensures
        bets_of_entries(s, session) == s[i].bets@,
    decreases i,
{
    if i > 0 {
        lemma_bets_of_entries_at(s.drop_first(), session, i - 1);
    }
}

/// Without an entry keyed by `session` there are no bets for it.
proof fn lemma_bets_of_entries_absent(s: Seq<SessionBets>, session: u128)
    requires
        !contains_session(s, session),
    ensures
        bets_of_entries(s, session) == Seq::<Bet>::empty(),
    decreases s.len(),
{
    if s.len() > 0 {
        assert(!contains_session(s.drop_first(), session));
        lemma_bets_of_entries_absent(s.drop_first(), session);
    }
}

impl BetLedger {
    /// Well-formed: each session id keys at most one entry.
    pub open spec fn wf(self) -> bool {
        forall|j: int, k: int|
            0 <= j < k < self.entries@.len() ==> (#[trigger] self.entries@[j].session) != (
            #[trigger] self.entries@[k].session)
    }

    /// The bets recorded for `session`, in order of arrival.
    pub open spec fn bets_of(self, session: u128) -> Seq<Bet> {
        bets_of_entries(self.entries@, session)
    }

    /// An empty ledger.
    pub fn new() -> (l: Self)
        ensures
            l.wf(),
            forall|session: u128| #[trigger] l.bets_of(session) == Seq::<Bet>::empty(),
    {
        let l = BetLedger { entries: Vec::new() };
        proof {
            assert forall|session: u128| #[trigger]
                l.bets_of(session) == Seq::<Bet>::empty() by {
                assert(l.entries@.len() == 0);
            }
        }
        l
    }

    /// The position of the entry keyed by `session`, when one exists.
    fn position(&self, session: u128) -> (r: Option<usize>)
        ensures
            match r {
                Some(i) => i < self.entries@.len() && self.entries@[i as int].session == session
                    && (forall|j: int|
                    0 <= j < i ==> (#[trigger] self.entries@[j].session) != session),
                None => !contains_session(self.entries@, session),
            },
    {
        let mut i: usize = 0;
        while i < self.entries.len()
            invariant
                i <= self.entries@.len(),
                forall|j: int| 0 <= j < i ==> (#[trigger] self.entries@[j].session) != session,
            decreases self.entries@.len() - i,
        {
            if self.entries[i].session == session {
                return Some(i);
            }
            i = i + 1;
        }
        None
    }

    /// Appends `bet` to the ordered sequence for `session`, creating the
    /// session's entry on its first bet. With `allow_multiple` every bet is
    /// kept; without it the participant's earlier bet is overwritten in
    /// place. No other session's bets change.
    pub fn record(&mut self, session: u128, bet: Bet, allow_multiple: bool)
        requires
            old(self).wf(),
        ensures
            final(self).wf(),
            final(self).bets_of(session) == record_spec(
                old(self).bets_of(session),
                bet,
                allow_multiple,
            ),
            forall|other: u128|
                other != session ==> (#[trigger] final(self).bets_of(other)) == old(
                    self,
                ).bets_of(other),
    {
        let ghost pre = self.entries@;
        match self.position(session) {
            Some(i) => {
                proof {
                    lemma_bets_of_entries_at(pre, session, i as int);
                }
                let mut entry = self.entries.remove(i);
                let ghost old_bets = entry.bets@;
                let replaced = if allow_multiple {
                    false
                } else {
                    match Self::position_of_account(&entry.bets, bet.account_id) {
                        Some(p) => {
                            entry.bets[p] = bet;
                            proof {
                                lemma_first_bet_by_at(old_bets, bet.account_id, p as int);
                            }
                            true
                        },
                        None => false,
                    }
                };
                if !replaced {
                    entry.bets.push(bet);
                }
                self.entries.insert(i, entry);
                proof {
                    assert(self.entries@ =~= pre.update(i as int, entry));
                    lemma_bets_of_entries_at(self.entries@, session, i as int);
                    assert forall|other: u128| other != session implies (#[trigger] self.bets_of(
                        other,
                    )) == bets_of_entries(pre, other) by {
                        Self::lemma_same_keys_same_bets(pre, self.entries@, other);
                    }
                }
            },
            None => {
                proof {
                    lemma_bets_of_entries_absent(pre, session);
                }
                let mut bets: Vec<Bet> = Vec::new();
                bets.push(bet);
                let entry = SessionBets { session, bets };
                self.entries.push(entry);
                proof {
                    assert(self.entries@ =~= pre.push(entry));
                    lemma_bets_of_entries_at(self.entries@, session, pre.len() as int);
                    assert(self.bets_of(session) =~= record_spec(
                        bets_of_entries(pre, session),
                        bet,
                        allow_multiple,
                    ));
                    assert forall|other: u128| other != session implies (#[trigger] self.bets_of(
                        other,
                    )) == bets_of_entries(pre, other) by {
                        Self::lemma_same_keys_same_bets_push(pre, entry, other);
                    }
                }
            },
        }
    }

    /// The position of the first bet by `account_id`, when one exists.
    fn position_of_account(bets: &Vec<Bet>, account_id: u64) -> (r: Option<usize>)
        ensures
            match r {
                Some(p) => p < bets@.len() && bets@[p as int].account_id == account_id && (forall|
                    j: int,
                |
                    0 <= j < p ==> (#[trigger] bets@[j].account_id) != account_id),
                None => !has_bet_by(bets@, account_id),
            },
    {
        let mut p: usize = 0;
        while p < bets.len()
            invariant
                p <= bets@.len(),
                forall|j: int| 0 <= j < p ==> (#[trigger] bets@[j].account_id) != account_id,
            decreases bets@.len() - p,
        {
            if bets[p].account_id == account_id {
                return Some(p);
            }
            p = p + 1;
        }
        None
    }

    /// Reads the ordered bet sequence for `session`, without removal.
    pub fn bets_for(&self, session: u128) -> (r: Vec<Bet>)
        requires
            self.wf(),
        ensures
            r@ == self.bets_of(session),
    {
        match self.position(session) {
            Some(i) => {
                proof {
                    lemma_bets_of_entries_at(self.entries@, session, i as int);
                }
                let source = &self.entries[i].bets;
                let mut out: Vec<Bet> = Vec::new();
                let mut k: usize = 0;
                while k < source.len()
                    invariant
                        k <= source@.len(),
                        out@ == source@.take(k as int),
                    decreases source@.len() - k,
                {
                    out.push(source[k]);
                    proof {
                        assert(source@.take(k as int + 1) =~= source@.take(k as int).push(
                            source@[k as int],
                        ));
                    }
                    k = k + 1;
                }
                proof {
                    assert(source@.take(source@.len() as int) =~= source@);
                }
                out
            },
            None => {
                proof {
                    lemma_bets_of_entries_absent(self.entries@, session);
                }
                Vec::new()
            },
        }
    }

    /// Two entry sequences whose entries for `session` agree hold the same
    /// bets for it: an update at one key leaves every other key's bets alone.
    proof fn lemma_same_keys_same_bets(pre: Seq<SessionBets>, post: Seq<SessionBets>, session: u128)
        requires
            pre.len() == post.len(),
            forall|j: int|
                0 <= j < pre.len() ==> (#[trigger] post[j].session) == pre[j].session && (
                post[j].session == session ==> post[j] == pre[j]),
        ensures
            bets_of_entries(post, session) == bets_of_entries(pre, session),
        decreases pre.len(),
    {
        if pre.len() > 0 && pre[0].session != session {
            assert forall|j: int| 0 <= j < pre.drop_first().len() implies (#[trigger] post.drop_first()[j].session)
                == pre.drop_first()[j].session && (post.drop_first()[j].session == session
                ==> post.drop_first()[j] == pre.drop_first()[j]) by {
                assert(pre.drop_first()[j] == pre[j + 1]);
                assert(post.drop_first()[j] == post[j + 1]);
            }
            Self::lemma_same_keys_same_bets(pre.drop_first(), post.drop_first(), session);
        }
    }

    /// Pushing an entry for another key leaves a session's bets alone.
    proof fn lemma_same_keys_same_bets_push(pre: Seq<SessionBets>, entry: SessionBets, session: u128)
        requires
            entry.session != session,
        ensures
            bets_of_entries(pre.push(entry), session) == bets_of_entries(pre, session),
        decreases pre.len(),
    {
        let post = pre.push(entry);
        assert(post.len() == pre.len() + 1);
        if pre.len() == 0 {
            assert(post[0] == entry);
            assert(post[0].session != session);
            assert(post.drop_first() =~= Seq::<SessionBets>::empty());
            assert(bets_of_entries(post, session) == bets_of_entries(post.drop_first(), session));
            assert(bets_of_entries(post.drop_first(), session) == Seq::<Bet>::empty());
            assert(bets_of_entries(pre, session) == Seq::<Bet>::empty());
        } else {
            assert(post[0] == pre[0]);
            if pre[0].session == session {
                assert(bets_of_entries(post, session) == post[0].bets@);
                assert(bets_of_entries(pre, session) == pre[0].bets@);
            } else {
                assert(post.drop_first() =~= pre.drop_first().push(entry));
                Self::lemma_same_keys_same_bets_push(pre.drop_first(), entry, session);
                assert(bets_of_entries(post, session) == bets_of_entries(
                    post.drop_first(),
                    session,
                ));
                assert(bets_of_entries(pre, session) == bets_of_entries(
                    pre.drop_first(),
                    session,
                ));
            }
        }
    }
}

} // verus!
