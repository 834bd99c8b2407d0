use race_contract::engine::{
    claim_checks, claim_prize, dice_roll, initialize_game, join_checks, join_race, roll_and_move,
    use_boost,
};
use race_contract::game::{Game, GameError, GameState, Player, PlayerId};

fn pid(value: u64) -> PlayerId {
    PlayerId { value }
}

fn racer(value: u64) -> Player {
    Player { id: pid(value), position: 0, boosts_remaining: 3, finished: false }
}

/// A game with players A (identity 0) and B (identity 1) already in.
fn running_game(entry_fee: u64, track_length: u8) -> Game {
    let mut g = initialize_game(pid(100), 1, entry_fee, track_length);
    assert!(join_race(&mut g, pid(0)).is_ok());
    assert!(join_race(&mut g, pid(1)).is_ok());
    g
}

#[test]
fn create_starts_empty_and_waiting() {
    let g = initialize_game(pid(42), 7, 100, 10);
    assert_eq!(g.authority, pid(42));
    assert_eq!(g.game_id, 7);
    assert_eq!(g.state, GameState::WaitingForPlayers);
    assert_eq!(g.entry_fee, 100);
    assert_eq!(g.track_length, 10);
    assert_eq!(g.players.len(), 0);
    assert_eq!(g.prize_pool, 0);
    assert_eq!(g.winner, None);
}

#[test]
fn join_appends_player_with_fresh_entry() {
    let mut g = initialize_game(pid(42), 7, 100, 10);
    assert_eq!(join_checks(&g, pid(5)), Ok(()));
    assert_eq!(join_race(&mut g, pid(5)), Ok(()));
    assert_eq!(g.players.len(), 1);
    assert_eq!(g.players[0].id, pid(5));
    assert_eq!(g.players[0].position, 0);
    assert_eq!(g.players[0].boosts_remaining, 3);
    assert!(!g.players[0].finished);
}

#[test]
fn prize_pool_tracks_entries_at_every_step() {
    let fee = 25u64;
    let mut g = initialize_game(pid(42), 7, fee, 50);
    assert_eq!(g.prize_pool, fee * g.players.len() as u64);
    assert_eq!(join_race(&mut g, pid(0)), Ok(()));
    assert_eq!(g.prize_pool, fee * g.players.len() as u64);
    assert_eq!(join_race(&mut g, pid(1)), Ok(()));
    assert_eq!(g.prize_pool, fee * g.players.len() as u64);
    assert!(roll_and_move(&mut g, pid(0), 3, 11).is_ok());
    assert_eq!(g.prize_pool, fee * g.players.len() as u64);
    assert!(use_boost(&mut g, pid(1)).is_ok());
    assert_eq!(g.prize_pool, fee * g.players.len() as u64);
}

#[test]
fn pool_fits_even_at_the_fee_cap() {
    let fee = u64::MAX / 5;
    let mut g = initialize_game(pid(42), 7, fee, 50);
    assert_eq!(join_race(&mut g, pid(0)), Ok(()));
    assert_eq!(join_race(&mut g, pid(1)), Ok(()));
    assert_eq!(g.prize_pool, 2 * fee);
}

#[test]
fn duplicate_identity_is_rejected_while_waiting() {
    let mut g = initialize_game(pid(42), 7, 100, 10);
    assert_eq!(join_race(&mut g, pid(5)), Ok(()));
    assert_eq!(join_checks(&g, pid(5)), Err(GameError::AlreadyJoined));
    assert_eq!(join_race(&mut g, pid(5)), Err(GameError::AlreadyJoined));
    assert_eq!(g.players.len(), 1);
    assert_eq!(g.prize_pool, 100);
}

#[test]
fn joining_a_running_game_is_rejected() {
    let mut g = running_game(100, 10);
    // a third player, and equally a duplicate of a racer: the state
    // check answers first once the race has started
    assert_eq!(join_race(&mut g, pid(2)), Err(GameError::GameNotJoinable));
    assert_eq!(join_race(&mut g, pid(0)), Err(GameError::GameNotJoinable));
    assert_eq!(g.players.len(), 2);
}

#[test]
fn full_game_rejects_a_sixth_player() {
    // a sixth join attempt never gets in; the capacity check answers
    // where a game still open for players already holds five entries
    let mut g = Game {
        authority: pid(100),
        game_id: 1,
        state: GameState::WaitingForPlayers,
        entry_fee: 10,
        track_length: 20,
        players: vec![racer(1), racer(2), racer(3), racer(4), racer(5)],
        prize_pool: 50,
        winner: None,
    };
    assert_eq!(join_checks(&g, pid(6)), Err(GameError::GameFull));
    assert_eq!(join_race(&mut g, pid(6)), Err(GameError::GameFull));
    assert_eq!(g.players.len(), 5);
    assert_eq!(g.prize_pool, 50);
}

#[test]
fn second_join_starts_the_game_never_earlier() {
    let mut g = initialize_game(pid(42), 7, 100, 10);
    assert_eq!(g.state, GameState::WaitingForPlayers);
    assert_eq!(join_race(&mut g, pid(0)), Ok(()));
    assert_eq!(g.state, GameState::WaitingForPlayers);
    assert_eq!(join_race(&mut g, pid(1)), Ok(()));
    assert_eq!(g.state, GameState::InProgress);
}

#[test]
fn dice_is_reproducible_for_equal_inputs() {
    let first = dice_roll(123456, 7777, pid(99));
    let second = dice_roll(123456, 7777, pid(99));
    assert_eq!(first, second);
}

#[test]
fn dice_has_exact_values_and_wraps() {
    // identity byte 7, slot 0, timestamp 0: (0 + 7 + 0) % 6 + 1 == 2
    assert_eq!(dice_roll(0, 0, pid(7)), 2);
    // only the low byte of the identity enters the seed
    assert_eq!(dice_roll(0, 0, pid(256 + 7)), 2);
    // the seed combines by wrapping: u64::MAX + 1 wraps to 0, giving 1
    assert_eq!(dice_roll(u64::MAX, 1, pid(0)), 1);
}

#[test]
fn dice_covers_all_six_outcomes() {
    let mut seen = [false; 6];
    for slot in 0..6u64 {
        let roll = dice_roll(slot, 0, pid(0));
        assert!(1 <= roll && roll <= 6);
        seen[(roll - 1) as usize] = true;
    }
    assert_eq!(seen, [true; 6]);
    // varied identities and timestamps stay in range
    for v in 0..50u64 {
        let roll = dice_roll(v * 31, v * 17, pid(v));
        assert!(1 <= roll && roll <= 6);
    }
}

#[test]
fn roll_moves_by_the_die() {
    let mut g = running_game(100, 200);
    // player 0 has identity byte 0: slot 4, timestamp 0 rolls 5
    assert_eq!(roll_and_move(&mut g, pid(0), 4, 0), Ok(5));
    assert_eq!(g.players[0].position, 5);
    assert_eq!(g.players[1].position, 0);
    assert_eq!(g.state, GameState::InProgress);
}

#[test]
fn roll_needs_a_running_game_and_a_known_racer() {
    let mut waiting = initialize_game(pid(42), 7, 100, 10);
    assert_eq!(roll_and_move(&mut waiting, pid(0), 0, 0), Err(GameError::GameNotInProgress));
    let mut g = running_game(100, 10);
    assert_eq!(roll_and_move(&mut g, pid(9), 0, 0), Err(GameError::PlayerNotFound));
    assert_eq!(use_boost(&mut g, pid(9)), Err(GameError::PlayerNotFound));
}

#[test]
fn finished_racer_may_not_move_again() {
    // a race can only be observed mid-flight by building the state by
    // hand: through the engine the game ends the moment anyone finishes
    let done = Player { id: pid(1), position: 20, boosts_remaining: 3, finished: true };
    let mut g = Game {
        authority: pid(100),
        game_id: 1,
        state: GameState::InProgress,
        entry_fee: 10,
        track_length: 20,
        players: vec![racer(0), done],
        prize_pool: 20,
        winner: None,
    };
    assert_eq!(roll_and_move(&mut g, pid(1), 0, 0), Err(GameError::PlayerAlreadyFinished));
    assert_eq!(use_boost(&mut g, pid(1)), Err(GameError::PlayerAlreadyFinished));
    assert_eq!(g.players[1].position, 20);
}

#[test]
fn boost_advances_three_and_spends_one() {
    let mut g = running_game(100, 100);
    assert_eq!(use_boost(&mut g, pid(0)), Ok(()));
    assert_eq!(g.players[0].position, 3);
    assert_eq!(g.players[0].boosts_remaining, 2);
}

#[test]
fn boost_without_boosts_is_rejected_and_moves_nothing() {
    let mut g = running_game(100, 100);
    assert_eq!(use_boost(&mut g, pid(0)), Ok(()));
    assert_eq!(use_boost(&mut g, pid(0)), Ok(()));
    assert_eq!(use_boost(&mut g, pid(0)), Ok(()));
    assert_eq!(g.players[0].position, 9);
    assert_eq!(g.players[0].boosts_remaining, 0);
    assert_eq!(use_boost(&mut g, pid(0)), Err(GameError::NoBoostsRemaining));
    assert_eq!(g.players[0].position, 9);
    assert_eq!(g.players[0].boosts_remaining, 0);
}

#[test]
fn reaching_the_track_length_finishes_the_game_for_good() {
    let mut g = running_game(100, 10);
    // identity byte 0, slot 5, timestamp 0: every roll is 6
    assert_eq!(roll_and_move(&mut g, pid(0), 5, 0), Ok(6));
    assert_eq!(g.state, GameState::InProgress);
    assert_eq!(roll_and_move(&mut g, pid(0), 5, 0), Ok(6));
    assert_eq!(g.players[0].position, 12);
    assert!(g.players[0].finished);
    assert_eq!(g.state, GameState::Finished);
    assert_eq!(g.winner, Some(pid(0)));
    // no further move or boost, by anyone, is accepted
    assert_eq!(roll_and_move(&mut g, pid(1), 5, 0), Err(GameError::GameNotInProgress));
    assert_eq!(use_boost(&mut g, pid(1)), Err(GameError::GameNotInProgress));
    assert_eq!(roll_and_move(&mut g, pid(0), 5, 0), Err(GameError::GameNotInProgress));
    assert_eq!(join_race(&mut g, pid(2)), Err(GameError::GameNotJoinable));
    assert_eq!(g.state, GameState::Finished);
    assert_eq!(g.winner, Some(pid(0)));
    assert_eq!(g.players[1].position, 0);
}

#[test]
fn boost_can_win_the_race() {
    let mut g = running_game(100, 9);
    assert_eq!(use_boost(&mut g, pid(1)), Ok(()));
    assert_eq!(use_boost(&mut g, pid(1)), Ok(()));
    assert_eq!(use_boost(&mut g, pid(1)), Ok(()));
    assert_eq!(g.players[1].position, 9);
    assert!(g.players[1].finished);
    assert_eq!(g.state, GameState::Finished);
    assert_eq!(g.winner, Some(pid(1)));
}

#[test]
fn claim_needs_a_finished_game_and_the_winner() {
    let mut g = running_game(100, 10);
    assert_eq!(claim_checks(&g, pid(0)), Err(GameError::GameNotFinished));
    assert_eq!(claim_prize(&mut g, pid(0)), Err(GameError::GameNotFinished));
    assert_eq!(roll_and_move(&mut g, pid(0), 5, 0), Ok(6));
    assert_eq!(roll_and_move(&mut g, pid(0), 5, 0), Ok(6));
    assert_eq!(g.state, GameState::Finished);
    assert_eq!(claim_checks(&g, pid(1)), Err(GameError::NotWinner));
    assert_eq!(claim_prize(&mut g, pid(1)), Err(GameError::NotWinner));
    assert_eq!(g.prize_pool, 200);
}

#[test]
fn claim_pays_once_and_only_once() {
    let mut g = running_game(100, 10);
    assert_eq!(roll_and_move(&mut g, pid(0), 5, 0), Ok(6));
    assert_eq!(roll_and_move(&mut g, pid(0), 5, 0), Ok(6));
    assert_eq!(claim_checks(&g, pid(0)), Ok(200));
    assert_eq!(claim_prize(&mut g, pid(0)), Ok(200));
    assert_eq!(g.prize_pool, 0);
    assert_eq!(g.state, GameState::Finished);
    assert_eq!(g.winner, Some(pid(0)));
    assert_eq!(claim_checks(&g, pid(0)), Err(GameError::NoPrizeToClaim));
    assert_eq!(claim_prize(&mut g, pid(0)), Err(GameError::NoPrizeToClaim));
    assert_eq!(g.prize_pool, 0);
}

#[test]
fn full_race_with_a_host_side_ledger() {
    // the host moves value before recording: entry fees into the pool
    // account on join, the pool to the winner on claim
    let fee = 100u64;
    let mut balance_a = 1000u64;
    let mut balance_b = 1000u64;
    let mut pool_account = 0u64;

    let mut g = initialize_game(pid(100), 1, fee, 10);

    assert_eq!(join_checks(&g, pid(0)), Ok(()));
    balance_a -= fee;
    pool_account += fee;
    assert_eq!(join_race(&mut g, pid(0)), Ok(()));

    assert_eq!(join_checks(&g, pid(1)), Ok(()));
    balance_b -= fee;
    pool_account += fee;
    assert_eq!(join_race(&mut g, pid(1)), Ok(()));

    assert_eq!(g.state, GameState::InProgress);
    assert_eq!(g.prize_pool, 200);
    assert_eq!(pool_account, 200);

    // roll for A until the finish line; identity byte 0 with slot 5
    // and timestamp 0 rolls a 6 every time
    let mut rounds = 0;
    while g.players[0].position < 10 {
        assert_eq!(roll_and_move(&mut g, pid(0), 5, 0), Ok(6));
        rounds += 1;
        assert!(rounds <= 10);
    }
    assert_eq!(g.state, GameState::Finished);
    assert_eq!(g.winner, Some(pid(0)));

    let amount = claim_checks(&g, pid(0)).unwrap();
    assert_eq!(amount, 200);
    pool_account -= amount;
    balance_a += amount;
    assert_eq!(claim_prize(&mut g, pid(0)), Ok(200));

    assert_eq!(balance_a, 1000 - 100 + 200);
    assert_eq!(balance_b, 900);
    assert_eq!(pool_account, 0);
    assert_eq!(g.prize_pool, 0);

    assert_eq!(claim_checks(&g, pid(0)), Err(GameError::NoPrizeToClaim));
    assert_eq!(claim_prize(&mut g, pid(0)), Err(GameError::NoPrizeToClaim));
    assert_eq!(balance_a, 1100);
}

#[test]
fn longest_track_still_ends() {
    let mut g = running_game(1, 255);
    let mut rounds = 0;
    while g.state == GameState::InProgress {
        let r = roll_and_move(&mut g, pid(0), 5, 0);
        assert_eq!(r, Ok(6));
        rounds += 1;
        assert!(rounds <= 43);
    }
    assert_eq!(g.state, GameState::Finished);
    assert!(g.players[0].position >= 255);
    assert_eq!(g.winner, Some(pid(0)));
}
