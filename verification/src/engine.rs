//! The game engine: a single-writer, strictly sequential state machine that
//! applies the two host commands, `PlaceBet` and `Tick`, to state it owns
//! exclusively, and returns the domain events the host should deliver.

use vstd::prelude::*;
use crate::bet::Bet;
use crate::clock::is_boundary;
use crate::clock::is_boundary_spec;
use crate::ledger::record_spec;
use crate::ledger::BetLedger;
use crate::randomness::derive_spec;
use crate::resolver::guess_diff_spec;
use crate::resolver::resolve;
use crate::resolver::winner_index;
use crate::session_id::SessionIdAllocator;
use crate::GameError;

verus! {

/// The session length a fresh deployment is configured with, in ticks.
pub const DEFAULT_SESSION_LENGTH: u64 = 10;

/// The domain events the engine emits, in order, once per triggering
/// command. Delivery to observers is the host's business.
#[derive(Clone, Copy, PartialEq, Eq, Structural, Debug)]
pub enum Event {
    /// A bet was recorded against the given session.
    BetPlaced(u128, Bet),
    /// A session closed and this target was derived for it.
    SessionFinalized(u128, u32),
    /// The winning bet of a closed session, with the session's target.
    WinnerDeclared(u128, u32, Bet),
}

/// The audit record of a finalized session: its id, the target derived for
/// it, and the winning bet — `None` when too few bets were recorded.
#[derive(Clone, Copy, PartialEq, Eq, Structural, Debug)]
pub struct SessionRecord {
    pub session: u128,
    pub target: u32,
    pub winner: Option<Bet>,
}

/// The engine's whole state. It owns the allocator and the ledger
/// exclusively; the host serializes commands, so no internal locking exists.
pub struct Module {
    /// Issues session ids, densely from 0.
    pub allocator: SessionIdAllocator,
    /// All recorded bets, keyed by session id.
    pub ledger: BetLedger,
    /// Ticks per session; constant for the engine's lifetime.
    pub session_length: u64,
    /// When set, a participant may bet several times per session and each
    /// bet competes independently; when clear, a second bet overwrites the
    /// participant's first.
    pub allow_multiple_bets_per_participant: bool,
    /// Audit records of finalized sessions, in finalization order.
    pub sessions: Vec<SessionRecord>,
}

/// What one finalization does, as a relation between the engine state before
/// (`pre`) and after (`post`): the retiring session's target is derived from
/// the entropy and the context, the id advances, and either a winner is
/// declared or — with fewer than two bets — the error is recovered locally,
/// no winner event is emitted, and the bets stay abandoned under the retired
/// id. The id advances regardless of the outcome: a deliberate carry-over,
/// so a session that fails resolution is never retried under the same id.
pub open spec fn finalized(
    pre: Module,
    post: Module,
    entropy: Seq<u8>,
    context: u64,
    events: Seq<Event>,
) -> bool {
    let sid = pre.allocator.current;
    let target = derive_spec(entropy, context);
    let bets = pre.ledger.bets_of(sid);
    &&& post.allocator.current == sid + 1
    &&& post.ledger == pre.ledger
    &&& post.session_length == pre.session_length
    &&& post.allow_multiple_bets_per_participant == pre.allow_multiple_bets_per_participant
    &&& if bets.len() < 2 {
        &&& post.sessions@ =~= pre.sessions@.push(
            SessionRecord { session: sid, target, winner: None },
        )
        &&& events =~= Seq::<Event>::empty()
    } else {
        let winner = bets[winner_index(target, bets)];
        &&& post.sessions@ =~= pre.sessions@.push(
            SessionRecord { session: sid, target, winner: Some(winner) },
        )
        &&& events =~= seq![
            Event::SessionFinalized(sid, target),
            Event::WinnerDeclared(sid, target, winner),
        ]
    }
}

impl Module {
    /// Absolute difference between a target and a guess, the measure the
    /// resolver minimizes; no overflow is possible on unsigned operands
    /// ordered first.
    pub fn get_guess_diff(a: u32, b: u32) -> (d: u32)
        ensures
            d == guess_diff_spec(a, b),
    {
        if a > b {
            a - b
        } else {
            b - a
        }
    }

    /// Well-formed: the ledger keys each session once and the configured
    /// session length is positive.
    pub open spec fn wf(self) -> bool {
        &&& self.ledger.wf()
        &&& self.session_length > 0
    }

    /// A fresh engine: session 0 accepts bets, nothing is recorded yet.
    pub fn new(session_length: u64, allow_multiple_bets_per_participant: bool) -> (e: Self)
        requires
            session_length > 0,
        ensures
            e.wf(),
            e.allocator.current == 0,
            e.session_length == session_length,
            e.allow_multiple_bets_per_participant == allow_multiple_bets_per_participant,
            e.sessions@ =~= Seq::<SessionRecord>::empty(),
            forall|session: u128| #[trigger] e.ledger.bets_of(session) == Seq::<Bet>::empty(),
    {
        Module {
            allocator: SessionIdAllocator::new(),
            ledger: BetLedger::new(),
            session_length,
            allow_multiple_bets_per_participant,
            sessions: Vec::new(),
        }
    }

    /// Applies the `PlaceBet` command: records the bet against the session
    /// currently accepting bets and reports the event to emit. Always
    /// succeeds; the host has already authenticated the participant and
    /// validated the guess domain.
    pub fn place_bet(&mut self, account_id: u64, guess: u32, wager: u32) -> (ev: Event)
        requires
            old(self).wf(),
            1 <= guess <= 99,
        ensures
            final(self).wf(),
            final(self).allocator == old(self).allocator,
            final(self).session_length == old(self).session_length,
            final(self).allow_multiple_bets_per_participant == old(
                self,
            ).allow_multiple_bets_per_participant,
            final(self).sessions == old(self).sessions,
            ({
                let bet = Bet { account_id, guess, wager };
                let sid = old(self).allocator.current;
                &&& ev == Event::BetPlaced(sid, bet)
                &&& final(self).ledger.bets_of(sid) == record_spec(
                    old(self).ledger.bets_of(sid),
                    bet,
                    old(self).allow_multiple_bets_per_participant,
                )
                &&& forall|other: u128|
                    other != sid ==> (#[trigger] final(self).ledger.bets_of(other)) == old(
                        self,
                    ).ledger.bets_of(other)
            }),
    {
        let session_id = self.allocator.current();
        let bet = Bet { account_id, guess, wager };
        self.ledger.record(session_id, bet, self.allow_multiple_bets_per_participant);
        Event::BetPlaced(session_id, bet)
    }

    /// Applies the `Tick` command. Off a session boundary it is a no-op; on
    /// one it finalizes the retiring session: derives the target from the
    /// host-supplied entropy with the tick number as the per-finalization
    /// context, advances the session id, and resolves the winner. Fails only
    /// with `SessionIdOverflow`, in which case nothing is mutated;
    /// `NotEnoughBets` is recovered locally and no winner event is emitted.
    pub fn tick(&mut self, tick_number: u64, entropy: &Vec<u8>) -> (r: Result<Vec<Event>, GameError>)
        requires
            old(self).wf(),
        ensures
            final(self).wf(),
            !is_boundary_spec(tick_number, old(self).session_length) ==> {
                &&& *final(self) == *old(self)
                &&& r matches Ok(events) && events@ =~= Seq::<Event>::empty()
            },
            is_boundary_spec(tick_number, old(self).session_length) && old(self).allocator.current
                == u128::MAX ==> {
                &&& r == Err::<Vec<Event>, GameError>(GameError::SessionIdOverflow)
                &&& *final(self) == *old(self)
            },
            is_boundary_spec(tick_number, old(self).session_length) && old(self).allocator.current
                < u128::MAX ==> (r matches Ok(events) && finalized(
                *old(self),
                *final(self),
                entropy@,
                tick_number,
                events@,
            )),
    {
        if !is_boundary(tick_number, self.session_length) {
            return Ok(Vec::new());
        }
        self.finalize_the_session(tick_number, entropy)
    }

    /// Finalizes the retiring session: derives its target, advances the
    /// session id (the retired id is the one resolved), reads the retiring
    /// session's bets and resolves the winner. A failed resolution is
    /// recovered here: the audit record carries no winner and no event is
    /// returned, but the advanced id stays committed.
    fn finalize_the_session(&mut self, context: u64, entropy: &Vec<u8>) -> (r: Result<
        Vec<Event>,
        GameError,
    >)
        requires
            old(self).wf(),
        ensures
            final(self).wf(),
            old(self).allocator.current == u128::MAX ==> {
                &&& r == Err::<Vec<Event>, GameError>(GameError::SessionIdOverflow)
                &&& *final(self) == *old(self)
            },
            old(self).allocator.current < u128::MAX ==> (r matches Ok(events) && finalized(
                *old(self),
                *final(self),
                entropy@,
                context,
                events@,
            )),
    {
        let target = crate::randomness::derive(entropy, context);
        let session_id = match self.allocator.advance() {
            Ok(id) => id,
            Err(e) => {
                return Err(e);
            },
        };
        let session_bets = self.ledger.bets_for(session_id);
        let mut events: Vec<Event> = Vec::new();
        match resolve(target, &session_bets) {
            Ok(winner) => {
                self.sessions.push(
                    SessionRecord { session: session_id, target, winner: Some(winner) },
                );
                events.push(Event::SessionFinalized(session_id, target));
                events.push(Event::WinnerDeclared(session_id, target, winner));
            },
            Err(_) => {
                self.sessions.push(SessionRecord { session: session_id, target, winner: None });
            },
        }
        Ok(events)
    }
}

} // verus!
