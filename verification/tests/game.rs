use guess_game::bet::Bet;
use guess_game::clock::is_boundary;
use guess_game::engine::Event;
use guess_game::engine::Module;
use guess_game::engine::DEFAULT_SESSION_LENGTH;
use guess_game::engine::SessionRecord;
use guess_game::ledger::BetLedger;
use guess_game::resolver::resolve;
use guess_game::session_id::SessionIdAllocator;
use guess_game::GameError;
fn bet(account_id: u64, guess: u32, wager: u32) -> Bet {
    Bet { account_id, guess, wager }
}
#[test]
fn next_session_id_works() {
    let mut allocator = SessionIdAllocator::new();
    let next_session_id = allocator.advance().unwrap();
    assert_eq!(next_session_id, 0);
    let next_session_id = allocator.advance().unwrap();
    assert_eq!(next_session_id, 1);
}
#[test]
fn ids_increase_by_exactly_one() {
    let mut allocator = SessionIdAllocator::new();
    for expected in 0u128..6 {
        assert_eq!(allocator.advance().unwrap(), expected);
    }
    assert_eq!(allocator.current(), 6);
}
#[test]
fn overflow_leaves_counter_unchanged() {
    let mut allocator = SessionIdAllocator { current: u128::MAX };
    assert_eq!(allocator.advance(), Err(GameError::SessionIdOverflow));
    assert_eq!(allocator.current(), u128::MAX);
}
#[test]
fn derive_is_deterministic() {
    let entropy = vec![0xAB, 0x13, 0x07, 0xFF, 0x00, 0x42];
    let first = guess_game::randomness::derive(&entropy, 17);
    let second = guess_game::randomness::derive(&entropy, 17);
    assert_eq!(first, second);
}
#[test]
fn derive_depends_on_context_and_entropy() {
    // A constant- or argument-echoing generator would make all of these
    // collide; distinct contexts and entropies should not.
    let entropy_a = vec![1u8, 2, 3, 4];
    let entropy_b = vec![9u8, 9, 9, 9, 9, 9, 9, 9, 9, 9];
    let targets = [
        guess_game::randomness::derive(&entropy_a, 0),
        guess_game::randomness::derive(&entropy_a, 1),
        guess_game::randomness::derive(&entropy_b, 0),
        guess_game::randomness::derive(&entropy_b, 1),
    ];
    assert!(targets.iter().any(|t| *t != targets[0]));
}
#[test]
fn derive_stays_in_range() {
    for context in 0u64..50 {
        let entropy = vec![context as u8, 0x5C, 0xD1];
        let target = guess_game::randomness::derive(&entropy, context);
        assert!((1..=99).contains(&target));
    }
    let empty: Vec<u8> = Vec::new();
    let target = guess_game::randomness::derive(&empty, 0);
    assert!((1..=99).contains(&target));
}
#[test]
fn guess_diff_exact_values() {
    assert_eq!(Module::get_guess_diff(50, 10), 40);
    assert_eq!(Module::get_guess_diff(10, 50), 40);
    assert_eq!(Module::get_guess_diff(45, 45), 0);
    assert_eq!(Module::get_guess_diff(0, u32::MAX), u32::MAX);
}
#[test]
fn winner_tie_break_goes_to_first() {
    let bets = vec![bet(1, 10, 5), bet(2, 10, 5)];
    let winner = resolve(50, &bets).unwrap();
    assert_eq!(winner, bet(1, 10, 5));
}
#[test]
fn equal_distances_keep_the_earlier_bet() {
    let bets = vec![bet(1, 5, 5), bet(2, 95, 5)];
    let winner = resolve(50, &bets).unwrap();
    assert_eq!(winner, bet(1, 5, 5));
}
#[test]
fn strictly_closer_bet_wins() {
    let bets = vec![bet(1, 5, 5), bet(2, 51, 5)];
    let winner = resolve(50, &bets).unwrap();
    assert_eq!(winner, bet(2, 51, 5));
}
#[test]
fn zero_or_one_bet_is_not_enough() {
    let none: Vec<Bet> = Vec::new();
    assert_eq!(resolve(50, &none), Err(GameError::NotEnoughBets));
    let one = vec![bet(1, 50, 5)];
    assert_eq!(resolve(50, &one), Err(GameError::NotEnoughBets));
}
#[test]
fn ledger_records_in_arrival_order() {
    let mut ledger = BetLedger::new();
    ledger.record(0, bet(1, 10, 5), true);
    ledger.record(0, bet(2, 20, 5), true);
    ledger.record(7, bet(3, 30, 5), true);
    assert_eq!(ledger.bets_for(0), vec![bet(1, 10, 5), bet(2, 20, 5)]);
    assert_eq!(ledger.bets_for(7), vec![bet(3, 30, 5)]);
    assert_eq!(ledger.bets_for(1), Vec::new());
}
#[test]
fn repeated_bets_compete_independently_when_allowed() {
    let mut ledger = BetLedger::new();
    ledger.record(0, bet(1, 10, 5), true);
    ledger.record(0, bet(1, 20, 7), true);
    assert_eq!(ledger.bets_for(0), vec![bet(1, 10, 5), bet(1, 20, 7)]);
}
#[test]
fn second_bet_overwrites_in_place_when_not_allowed() {
    let mut ledger = BetLedger::new();
    ledger.record(0, bet(1, 10, 5), false);
    ledger.record(0, bet(2, 30, 5), false);
    ledger.record(0, bet(1, 20, 7), false);
    assert_eq!(ledger.bets_for(0), vec![bet(1, 20, 7), bet(2, 30, 5)]);
}
#[test]
fn boundary_fires_every_session_length_ticks() {
    assert!(is_boundary(0, 10));
    assert!(!is_boundary(1, 10));
    assert!(!is_boundary(9, 10));
    assert!(is_boundary(10, 10));
    assert!(is_boundary(20, 10));
    assert!(!is_boundary(25, 10));
}
#[test]
fn tick_off_boundary_is_a_no_op() {
    let mut engine = Module::new(DEFAULT_SESSION_LENGTH, true);
    engine.place_bet(1, 40, 5);
    let entropy = vec![3u8, 1, 4];
    let events = engine.tick(7, &entropy).unwrap();
    assert!(events.is_empty());
    assert_eq!(engine.allocator.current(), 0);
    assert!(engine.sessions.is_empty());
}
#[test]
fn finalizing_with_too_few_bets_declares_no_winner() {
    let entropy = vec![3u8, 1, 4];
    for bets in 0..2u64 {
        let mut engine = Module::new(DEFAULT_SESSION_LENGTH, true);
        for account in 0..bets {
            engine.place_bet(account, 40, 5);
        }
        let events = engine.tick(10, &entropy).unwrap();
        assert!(events.is_empty());
        // The id advances regardless and the session is recorded winnerless.
        assert_eq!(engine.allocator.current(), 1);
        assert_eq!(engine.sessions.len(), 1);
        assert_eq!(engine.sessions[0].winner, None);
    }
}
#[test]
fn end_to_end_session() {
    let entropy = vec![0x11u8, 0x22, 0x33, 0x44];
    let mut engine = Module::new(DEFAULT_SESSION_LENGTH, true);
    let ev_a = engine.place_bet(100, 40, 5);
    assert_eq!(ev_a, Event::BetPlaced(0, bet(100, 40, 5)));
    let ev_b = engine.place_bet(200, 60, 5);
    assert_eq!(ev_b, Event::BetPlaced(0, bet(200, 60, 5)));
    // Ticks 1..=9 lie inside the session and change nothing.
    for tick in 1..=9u64 {
        assert!(engine.tick(tick, &entropy).unwrap().is_empty());
    }
    assert_eq!(engine.allocator.current(), 0);
    // Tick 10 closes the session. The target is reproducible, so the test
    // derives it the same way the engine does.
    let target = guess_game::randomness::derive(&entropy, 10);
    let expected_winner = if Module::get_guess_diff(target, 40) <= Module::get_guess_diff(target, 60) {
        bet(100, 40, 5)
    } else {
        bet(200, 60, 5)
    };
    let events = engine.tick(10, &entropy).unwrap();
    assert_eq!(
        events,
        vec![
            Event::SessionFinalized(0, target),
            Event::WinnerDeclared(0, target, expected_winner),
        ]
    );
    assert_eq!(engine.allocator.current(), 1);
    assert_eq!(
        engine.sessions,
        vec![SessionRecord { session: 0, target, winner: Some(expected_winner) }]
    );
    // Later bets are recorded against the new session.
    let ev_c = engine.place_bet(300, 10, 1);
    assert_eq!(ev_c, Event::BetPlaced(1, bet(300, 10, 1)));
}
