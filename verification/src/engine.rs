//! Executable operations of the race engine. Each one is proved equal
//! to its transition function from `game`, so every contract there and
//! every law in `laws` carries over to the running code.
//!
//! The engine is pure: the host performs the actual value transfers.
//! On a join the host must move the entry fee from the player to the
//! pool *before* recording the join, and on a claim move the pool to
//! the winner *before* zeroing it; `join_checks` and `claim_checks`
//! tell the host, without mutating anything, whether the operation
//! will go through and how much to transfer.

use vstd::pervasive::VecAdditionalExecFns;
use vstd::prelude::*;

use crate::game::{
    boost_model, claim_model, dice_of, has_player, index_of, init_model, join_model,
    lemma_first_index, roll_model, starting_player, wf, wrap_add, Game, GameError, GameState,
    Player, PlayerId, BOOST_DISTANCE, DICE_SIDES, MAX_PLAYERS, MIN_PLAYERS, STARTING_BOOSTS,
};
use crate::laws::{
    lemma_boost_preserves_wf, lemma_claim_preserves_wf, lemma_initialize_wf,
    lemma_join_preserves_wf, lemma_roll_preserves_wf,
};

verus! {

/// Addition on `u64` that wraps around on overflow.
fn wrapping_sum(a: u64, b: u64) -> (r: u64)
    ensures
        r == wrap_add(a, b),
{
    if b <= u64::MAX - a {
        a + b
    } else {
        b - (u64::MAX - a) - 1
    }
}

/// The die value for one acting player in one turn window, exactly as
/// `dice_of` states it: always between one and six, and reproducible
/// for equal slot, timestamp and identity.
pub fn dice_roll(slot: u64, timestamp: u64, id: PlayerId) -> (r: u64)
    ensures
        r == dice_of(slot, timestamp, id),
        1 <= r <= DICE_SIDES,
{
    let seed = wrapping_sum(wrapping_sum(slot, id.value % 256), timestamp);
    seed % DICE_SIDES + 1
}

/// Index of the first player carrying `id`, if any.
fn find_player(players: &Vec<Player>, id: PlayerId) -> (r: Option<usize>)
    ensures
        match r {
            Some(i) => {
                &&& (i as int) < players@.len()
                &&& players@[i as int].id == id
                &&& has_player(players@, id)
                &&& index_of(players@, id) == i as int
            },
            None => !has_player(players@, id),
        },
{
    let mut k: usize = 0;
    while k < players.len()
        invariant
            k <= players@.len(),
            forall|j: int| 0 <= j < k ==> players@[j].id != id,
        decreases players@.len() - k,
    {
        if players[k].id == id {
            proof {
                lemma_first_index(players@, id, k as int);
            }
            return Some(k);
        }
        k += 1;
    }
    proof {
        if has_player(players@, id) {
            let w = choose|i: int| 0 <= i < players@.len() && players@[i].id == id;
            assert(players@[w].id != id);
        }
    }
    None
}

/// Create a new race: waiting for players, no entries, an empty pool
/// and no winner. The entry fee is capped so that even a full game's
/// pool fits in the ledger's unit type, and the track must have at
/// least one step.
pub fn initialize_game(
    authority: PlayerId,
    game_id: u64,
    entry_fee: u64,
    track_length: u8,
) -> (g: Game)
    requires
        1 <= track_length,
        entry_fee <= u64::MAX / (MAX_PLAYERS as u64),
    ensures
        g@ == init_model(authority, game_id, entry_fee, track_length),
        wf(g@),
{
    let g = Game {
        authority,
        game_id,
        state: GameState::WaitingForPlayers,
        entry_fee,
        track_length,
        players: Vec::new(),
        prize_pool: 0,
        winner: None,
    };
    proof {
        assert(g@.players =~= Seq::<Player>::empty());
        assert(g@ =~= init_model(authority, game_id, entry_fee, track_length));
        lemma_initialize_wf(authority, game_id, entry_fee, track_length);
    }
    g
}

/// Tell, without mutating anything, whether a join of `player` would go
/// through — so the host can move the entry fee into the pool first and
/// abort the whole operation on a failed transfer.
pub fn join_checks(game: &Game, player: PlayerId) -> (r: Result<(), GameError>)
    ensures
        r == join_model(game@, player).1,
{
    if game.state != GameState::WaitingForPlayers {
        Err(GameError::GameNotJoinable)
    } else if game.players.len() >= MAX_PLAYERS {
        Err(GameError::GameFull)
    } else if find_player(&game.players, player).is_some() {
        Err(GameError::AlreadyJoined)
    } else {
        Ok(())
    }
}

/// Record a join: append the player with position zero, full boosts and
/// the race unfinished, grow the pool by the entry fee, and start the
/// game the moment the player count reaches `MIN_PLAYERS`. A failed
/// check (wrong state, full game, repeated identity) leaves the game
/// untouched. The host must have completed the fee transfer first.
pub fn join_race(game: &mut Game, player: PlayerId) -> (r: Result<(), GameError>)
    ensures
        final(game)@ == join_model(old(game)@, player).0,
        r == join_model(old(game)@, player).1,
        r is Err ==> final(game)@ == old(game)@,
        wf(old(game)@) ==> wf(final(game)@),
        r is Ok ==> final(game)@.players == old(game)@.players.push(starting_player(player)),
        (r is Ok && wf(old(game)@)) ==> final(game)@.prize_pool == old(game)@.prize_pool
            + old(game)@.entry_fee,
{
    let ghost g0 = game@;
    if game.state != GameState::WaitingForPlayers {
        return Err(GameError::GameNotJoinable);
    }
    if game.players.len() >= MAX_PLAYERS {
        return Err(GameError::GameFull);
    }
    if find_player(&game.players, player).is_some() {
        return Err(GameError::AlreadyJoined);
    }
    game.players.push(Player {
        id: player,
        position: 0,
        boosts_remaining: STARTING_BOOSTS,
        finished: false,
    });
    let fee = game.entry_fee;
    game.prize_pool = wrapping_sum(game.prize_pool, fee);
    if game.players.len() >= MIN_PLAYERS {
        game.state = GameState::InProgress;
    }
    proof {
        assert(game@ =~= join_model(g0, player).0);
        if wf(g0) {
            lemma_join_preserves_wf(g0, player);
        }
    }
    Ok(())
}

/// Roll the die for `player` in the turn window (`slot`, `timestamp`)
/// and advance them by the roll; the returned roll is always between
/// one and six. The moment the new position reaches or exceeds the
/// track length the player is marked finished, becomes the winner, and
/// the game is over. A failed check leaves the game untouched.
pub fn roll_and_move(game: &mut Game, player: PlayerId, slot: u64, timestamp: u64) -> (r: Result<
    u64,
    GameError,
>)
    ensures
        final(game)@ == roll_model(old(game)@, player, slot, timestamp).0,
        r == roll_model(old(game)@, player, slot, timestamp).1,
        r is Err ==> final(game)@ == old(game)@,
        wf(old(game)@) ==> wf(final(game)@),
        r matches Ok(d) ==> d == dice_of(slot, timestamp, player) && 1 <= d <= DICE_SIDES,
{
    let ghost g0 = game@;
    if game.state != GameState::InProgress {
        return Err(GameError::GameNotInProgress);
    }
    let i = match find_player(&game.players, player) {
        Some(i) => i,
        None => {
            return Err(GameError::PlayerNotFound);
        },
    };
    let p = game.players[i];
    if p.finished {
        return Err(GameError::PlayerAlreadyFinished);
    }
    let roll = dice_roll(slot, timestamp, player);
    let new_pos = wrapping_sum(p.position, roll);
    let won = new_pos >= game.track_length as u64;
    game.players.set(
        i,
        Player { id: p.id, position: new_pos, boosts_remaining: p.boosts_remaining, finished: won },
    );
    if won {
        game.state = GameState::Finished;
        game.winner = Some(player);
    }
    proof {
        assert(game@ =~= roll_model(g0, player, slot, timestamp).0);
        if wf(g0) {
            lemma_roll_preserves_wf(g0, player, slot, timestamp);
        }
    }
    Ok(roll)
}

/// Spend one of `player`'s boosts and advance them by the fixed
/// `BOOST_DISTANCE`, with the same finish logic as a dice move. A
/// player out of boosts is refused with `NoBoostsRemaining` and nothing
/// changes. A failed check leaves the game untouched.
pub fn use_boost(game: &mut Game, player: PlayerId) -> (r: Result<(), GameError>)
    ensures
        final(game)@ == boost_model(old(game)@, player).0,
        r == boost_model(old(game)@, player).1,
        r is Err ==> final(game)@ == old(game)@,
        wf(old(game)@) ==> wf(final(game)@),
{
    let ghost g0 = game@;
    if game.state != GameState::InProgress {
        return Err(GameError::GameNotInProgress);
    }
    let i = match find_player(&game.players, player) {
        Some(i) => i,
        None => {
            return Err(GameError::PlayerNotFound);
        },
    };
    let p = game.players[i];
    if p.finished {
        return Err(GameError::PlayerAlreadyFinished);
    }
    if p.boosts_remaining == 0 {
        return Err(GameError::NoBoostsRemaining);
    }
    let new_pos = wrapping_sum(p.position, BOOST_DISTANCE);
    let won = new_pos >= game.track_length as u64;
    game.players.set(
        i,
        Player {
            id: p.id,
            position: new_pos,
            boosts_remaining: p.boosts_remaining - 1,
            finished: won,
        },
    );
    if won {
        game.state = GameState::Finished;
        game.winner = Some(player);
    }
    proof {
        assert(game@ =~= boost_model(g0, player).0);
        if wf(g0) {
            lemma_boost_preserves_wf(g0, player);
        }
    }
    Ok(())
}

/// Tell, without mutating anything, whether a claim by `claimant` would
/// go through, and for how much — so the host can move the pool to the
/// winner first and abort the whole operation on a failed transfer.
pub fn claim_checks(game: &Game, claimant: PlayerId) -> (r: Result<u64, GameError>)
    ensures
        r == claim_model(game@, claimant).1,
{
    if game.state != GameState::Finished {
        return Err(GameError::GameNotFinished);
    }
    let winner_matches = match game.winner {
        Some(w) => w == claimant,
        None => false,
    };
    if !winner_matches {
        return Err(GameError::NotWinner);
    }
    if game.prize_pool == 0 {
        return Err(GameError::NoPrizeToClaim);
    }
    Ok(game.prize_pool)
}

/// Record a prize claim: only the recorded winner of a finished game
/// with a non-empty pool succeeds; the whole pool is handed back as the
/// amount owed and the pool drops to zero, so a second claim fails with
/// `NoPrizeToClaim` and pays nothing. A failed check leaves the game
/// untouched. The host must have completed the payout transfer first.
pub fn claim_prize(game: &mut Game, claimant: PlayerId) -> (r: Result<u64, GameError>)
    ensures
        final(game)@ == claim_model(old(game)@, claimant).0,
        r == claim_model(old(game)@, claimant).1,
        r is Err ==> final(game)@ == old(game)@,
        wf(old(game)@) ==> wf(final(game)@),
        r matches Ok(amount) ==> amount == old(game)@.prize_pool && final(game)@.prize_pool == 0,
{
    let ghost g0 = game@;
    if game.state != GameState::Finished {
        return Err(GameError::GameNotFinished);
    }
    let winner_matches = match game.winner {
        Some(w) => w == claimant,
        None => false,
    };
    if !winner_matches {
        return Err(GameError::NotWinner);
    }
    if game.prize_pool == 0 {
        return Err(GameError::NoPrizeToClaim);
    }
    let amount = game.prize_pool;
    game.prize_pool = 0;
    proof {
        assert(game@ =~= claim_model(g0, claimant).0);
        if wf(g0) {
            lemma_claim_preserves_wf(g0, claimant);
        }
    }
    Ok(amount)
}

} // verus!
