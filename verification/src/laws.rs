//! The laws of the race: every operation preserves well-formedness, the
//! pooled wager always accounts for the admitted players, a game starts
//! exactly with its second player, a finish is permanent, and a prize
//! can be paid out only once.

use vstd::prelude::*;

use crate::game::{
    boost_model, claim_model, dice_of, has_player, index_of, init_model, join_model,
    lemma_first_index, lemma_index_of, move_player, players_wf, pool_intact, roll_model,
    starting_player, wf, wrap_add, GameError, GameModel, GameState, PlayerId, BOOST_DISTANCE,
    DICE_SIDES, MAX_PLAYERS, STARTING_BOOSTS,
};

verus! {

/// A freshly created game is well-formed and its (empty) pool accounts
/// for its (absent) players.
pub proof fn lemma_initialize_wf(authority: PlayerId, game_id: u64, entry_fee: u64, track_length: u8)
    requires
        1 <= track_length,
        entry_fee <= u64::MAX / (MAX_PLAYERS as u64),
    ensures
        wf(init_model(authority, game_id, entry_fee, track_length)),
        pool_intact(init_model(authority, game_id, entry_fee, track_length)),
{
    let g = init_model(authority, game_id, entry_fee, track_length);
    assert(g.players.len() == 0);
    assert(g.prize_pool == g.entry_fee * g.players.len());
}

/// Advancing an unfinished player of a running game keeps the game
/// well-formed: the move cannot overflow, the finish line is detected
/// exactly, and the pool is untouched.
pub proof fn lemma_move_preserves_wf(g: GameModel, i: int, distance: u64, boosts_after: u8)
    requires
        wf(g),
        g.state == GameState::InProgress,
        0 <= i < g.players.len(),
        !g.players[i].finished,
        1 <= distance <= DICE_SIDES,
        boosts_after <= STARTING_BOOSTS,
    ensures
        wf(move_player(g, i, distance, boosts_after)),
        move_player(g, i, distance, boosts_after).players.len() == g.players.len(),
        move_player(g, i, distance, boosts_after).prize_pool == g.prize_pool,
        move_player(g, i, distance, boosts_after).entry_fee == g.entry_fee,
        pool_intact(move_player(g, i, distance, boosts_after)),
        move_player(g, i, distance, boosts_after).players[i].position == g.players[i].position
            + distance,
{
    let g2 = move_player(g, i, distance, boosts_after);
    let p = g.players[i];
    assert(p.position < g.track_length);
    assert(wrap_add(p.position, distance) == p.position + distance);
    let won = p.position + distance >= g.track_length;
    assert(forall|k: int|
        0 <= k < g2.players.len() ==> (#[trigger] g2.players[k]).id == g.players[k].id);
    assert forall|a: int, b: int| 0 <= a < b < g2.players.len() implies g2.players[a].id
        != g2.players[b].id by {
        assert(g.players[a].id != g.players[b].id);
    }
    assert(players_wf(g2));
    if won {
        assert(g2.players[i].id == p.id);
        assert forall|j: int| 0 <= j < i implies g2.players[j].id != p.id by {
            assert(g.players[j].id != g.players[i].id);
        }
        lemma_first_index(g2.players, p.id, i);
        assert forall|k: int|
            0 <= k < g2.players.len() && (#[trigger] g2.players[k]).finished implies g2.players[k].id
            == p.id by {
            if k != i {
                assert(!g.players[k].finished);
            }
        }
    } else {
        assert forall|k: int| 0 <= k < g2.players.len() implies !(#[trigger] g2.players[k]).finished by {
            if k != i {
                assert(!g.players[k].finished);
            }
        }
    }
}

/// Joining keeps the game well-formed; a failed join leaves the game
/// untouched, and a successful one keeps the pool accounting exact.
pub proof fn lemma_join_preserves_wf(g: GameModel, id: PlayerId)
    requires
        wf(g),
    ensures
        wf(join_model(g, id).0),
        join_model(g, id).1 is Err ==> join_model(g, id).0 == g,
        join_model(g, id).1 is Ok ==> pool_intact(join_model(g, id).0),
        join_model(g, id).1 is Ok ==> join_model(g, id).0.players.len() == g.players.len() + 1,
        join_model(g, id).1 is Ok ==> join_model(g, id).0.prize_pool == g.prize_pool
            + g.entry_fee,
{
    if g.state == GameState::WaitingForPlayers && g.players.len() < MAX_PLAYERS && !has_player(
        g.players,
        id,
    ) {
        let g2 = join_model(g, id).0;
        let joined = g.players.push(starting_player(id));
        assert(g.players.len() == 0 || g.players.len() == 1);
        assert forall|a: int| 0 <= a < g.players.len() implies (#[trigger] g.players[a]).id
            != id by {
            if g.players[a].id == id {
                assert(has_player(g.players, id));
            }
        }
        assert forall|a: int, b: int| 0 <= a < b < joined.len() implies joined[a].id
            != joined[b].id by {
            if b < g.players.len() {
                assert(g.players[a].id != g.players[b].id);
            } else {
                assert(joined[b] == starting_player(id));
                assert(g.players[a].id != id);
            }
        }
        if g.players.len() == 0 {
            assert(g.prize_pool == g.entry_fee * 0);
        } else {
            assert(g.prize_pool == g.entry_fee * 1);
        }
        assert(g.prize_pool + g.entry_fee <= 2 * g.entry_fee);
        assert(g.entry_fee <= u64::MAX / 5);
        assert(g.prize_pool + g.entry_fee <= u64::MAX);
        assert(wrap_add(g.prize_pool, g.entry_fee) == g.prize_pool + g.entry_fee);
        assert(g2.prize_pool == g.entry_fee * joined.len());
        assert(players_wf(g2));
        assert(wf(g2));
    }
}

/// A dice move keeps the game well-formed; a failed one leaves the game
/// untouched, and no move touches the pool.
pub proof fn lemma_roll_preserves_wf(g: GameModel, id: PlayerId, slot: u64, timestamp: u64)
    requires
        wf(g),
    ensures
        wf(roll_model(g, id, slot, timestamp).0),
        roll_model(g, id, slot, timestamp).1 is Err ==> roll_model(g, id, slot, timestamp).0 == g,
        roll_model(g, id, slot, timestamp).0.prize_pool == g.prize_pool,
        pool_intact(g) ==> pool_intact(roll_model(g, id, slot, timestamp).0),
{
    lemma_dice_range(slot, timestamp, id);
    if g.state == GameState::InProgress && has_player(g.players, id) {
        lemma_index_of(g.players, id);
        let i = index_of(g.players, id);
        if !g.players[i].finished {
            lemma_move_preserves_wf(
                g,
                i,
                dice_of(slot, timestamp, id),
                g.players[i].boosts_remaining,
            );
        }
    }
}

/// A boost keeps the game well-formed; a failed one leaves the game
/// untouched, and no boost touches the pool.
pub proof fn lemma_boost_preserves_wf(g: GameModel, id: PlayerId)
    requires
        wf(g),
    ensures
        wf(boost_model(g, id).0),
        boost_model(g, id).1 is Err ==> boost_model(g, id).0 == g,
        boost_model(g, id).0.prize_pool == g.prize_pool,
        pool_intact(g) ==> pool_intact(boost_model(g, id).0),
{
    if g.state == GameState::InProgress && has_player(g.players, id) {
        lemma_index_of(g.players, id);
        let i = index_of(g.players, id);
        if !g.players[i].finished && g.players[i].boosts_remaining > 0 {
            lemma_move_preserves_wf(
                g,
                i,
                BOOST_DISTANCE,
                (g.players[i].boosts_remaining - 1) as u8,
            );
        }
    }
}

/// A claim keeps the game well-formed; a failed one leaves the game
/// untouched.
pub proof fn lemma_claim_preserves_wf(g: GameModel, id: PlayerId)
    requires
        wf(g),
    ensures
        wf(claim_model(g, id).0),
        claim_model(g, id).1 is Err ==> claim_model(g, id).0 == g,
{
}

/// The die always shows a value between one and six, and the value is a
/// function of slot, timestamp and identity alone — the same turn window
/// and the same player always yield the same roll.
pub proof fn lemma_dice_range(slot: u64, timestamp: u64, id: PlayerId)
    ensures
        1 <= dice_of(slot, timestamp, id) <= DICE_SIDES,
{
}

/// Between creation and a successful claim the pooled wager equals the
/// entry fee times the number of players: creation starts the equation
/// (`lemma_initialize_wf`), a join re-establishes it, moves and boosts
/// never touch the pool, a failed claim changes nothing — and only a
/// successful claim ends it, by zeroing the pool.
pub proof fn lemma_pool_accounting(g: GameModel, id: PlayerId, slot: u64, timestamp: u64)
    requires
        wf(g),
        pool_intact(g),
    ensures
        pool_intact(join_model(g, id).0),
        pool_intact(roll_model(g, id, slot, timestamp).0),
        pool_intact(boost_model(g, id).0),
        claim_model(g, id).1 is Err ==> claim_model(g, id).0 == g,
        claim_model(g, id).1 is Ok ==> claim_model(g, id).0.prize_pool == 0,
{
    lemma_join_preserves_wf(g, id);
    lemma_roll_preserves_wf(g, id, slot, timestamp);
    lemma_boost_preserves_wf(g, id);
}

/// A join of a full game still open for players is refused as
/// `GameFull`, and a repeated identity while joining is open as
/// `AlreadyJoined`. On a well-formed game the state leaves
/// `WaitingForPlayers` the moment the second player joins, so any later
/// attempt — a sixth player's as much as a duplicate's — is refused by
/// the state check, which comes first, as `GameNotJoinable`; either
/// way, a repeated identity and a sixth player never get in.
pub proof fn lemma_join_rejections(g: GameModel, id: PlayerId)
    ensures
        g.state != GameState::WaitingForPlayers ==> join_model(g, id) == (
            g,
            Err::<(), GameError>(GameError::GameNotJoinable),
        ),
        g.state == GameState::WaitingForPlayers && g.players.len() >= MAX_PLAYERS ==> join_model(
            g,
            id,
        ) == (g, Err::<(), GameError>(GameError::GameFull)),
        g.state == GameState::WaitingForPlayers && g.players.len() < MAX_PLAYERS && has_player(
            g.players,
            id,
        ) ==> join_model(g, id) == (g, Err::<(), GameError>(GameError::AlreadyJoined)),
        wf(g) && has_player(g.players, id) ==> join_model(g, id).1 is Err && join_model(g, id).0
            == g,
        wf(g) && g.players.len() >= MAX_PLAYERS ==> join_model(g, id) == (
            g,
            Err::<(), GameError>(GameError::GameNotJoinable),
        ),
{
}

/// A game starts — moves to `InProgress` — exactly when its second
/// player joins: the first join leaves it waiting, the join that makes
/// the count two starts it, and from a waiting game no other operation
/// changes anything at all.
pub proof fn lemma_second_join_starts_game(
    g: GameModel,
    id: PlayerId,
    other: PlayerId,
    slot: u64,
    timestamp: u64,
)
    requires
        wf(g),
    ensures
        join_model(g, id).1 is Ok ==> (join_model(g, id).0.state == GameState::InProgress <==> g.players.len()
            == 1),
        join_model(g, id).1 is Ok && g.players.len() == 0 ==> join_model(g, id).0.state
            == GameState::WaitingForPlayers,
        g.state == GameState::WaitingForPlayers ==> roll_model(g, other, slot, timestamp).0 == g
            && boost_model(g, other).0 == g && claim_model(g, other).0 == g,
{
}

/// Once any player's position has reached the track length, the game is
/// finished and that player is the recorded winner — permanently: every
/// further move or boost, by anyone, is refused as `GameNotInProgress`
/// and changes nothing, a further join is refused, and a claim changes
/// neither the state nor the winner nor any player.
pub proof fn lemma_finish_is_permanent(
    g: GameModel,
    done: int,
    id: PlayerId,
    slot: u64,
    timestamp: u64,
)
    requires
        wf(g),
        0 <= done < g.players.len(),
        g.players[done].position >= g.track_length,
    ensures
        g.state == GameState::Finished,
        g.winner == Some(g.players[done].id),
        roll_model(g, id, slot, timestamp) == (
            g,
            Err::<u64, GameError>(GameError::GameNotInProgress),
        ),
        boost_model(g, id) == (g, Err::<(), GameError>(GameError::GameNotInProgress)),
        join_model(g, id) == (g, Err::<(), GameError>(GameError::GameNotJoinable)),
        claim_model(g, id).0.state == GameState::Finished,
        claim_model(g, id).0.winner == g.winner,
        claim_model(g, id).0.players == g.players,
{
    assert(g.players[done].finished);
    if g.state != GameState::Finished {
        assert(!g.players[done].finished);
    }
    assert(g.players[done].id == g.winner.unwrap());
}

/// What creation fixed stays fixed: no operation ever changes the
/// authority, the game id, the entry fee or the track length. And the
/// winner is set exactly once: it stays `None` outside `Finished`, the
/// move that finishes the race records the mover, and from then on no
/// operation changes it.
pub proof fn lemma_creation_fields_immutable(
    g: GameModel,
    id: PlayerId,
    slot: u64,
    timestamp: u64,
)
    ensures
        join_model(g, id).0.authority == g.authority && join_model(g, id).0.game_id == g.game_id
            && join_model(g, id).0.entry_fee == g.entry_fee && join_model(g, id).0.track_length
            == g.track_length,
        roll_model(g, id, slot, timestamp).0.authority == g.authority && roll_model(
            g,
            id,
            slot,
            timestamp,
        ).0.game_id == g.game_id && roll_model(g, id, slot, timestamp).0.entry_fee == g.entry_fee
            && roll_model(g, id, slot, timestamp).0.track_length == g.track_length,
        boost_model(g, id).0.authority == g.authority && boost_model(g, id).0.game_id == g.game_id
            && boost_model(g, id).0.entry_fee == g.entry_fee && boost_model(g, id).0.track_length
            == g.track_length,
        claim_model(g, id).0.authority == g.authority && claim_model(g, id).0.game_id == g.game_id
            && claim_model(g, id).0.entry_fee == g.entry_fee && claim_model(g, id).0.track_length
            == g.track_length,
        join_model(g, id).0.winner == g.winner,
        claim_model(g, id).0.winner == g.winner,
        wf(g) && g.state == GameState::Finished ==> roll_model(g, id, slot, timestamp).0.winner
            == g.winner && boost_model(g, id).0.winner == g.winner,
{
}

/// A prize is paid out exactly once: a claim succeeds exactly for the
/// recorded winner of a finished game with a non-empty pool; the first
/// successful claim hands the winner the whole pool and zeroes it, and
/// a second claim on the resulting game deterministically fails with
/// `NoPrizeToClaim`, pays nothing and changes nothing.
pub proof fn lemma_claim_exactly_once(g: GameModel, id: PlayerId)
    requires
        wf(g),
    ensures
        claim_model(g, id).1 is Ok <==> (g.state == GameState::Finished && g.winner == Some(id)
            && g.prize_pool > 0),
        claim_model(g, id).1 is Ok ==> claim_model(g, id).1.unwrap() == g.prize_pool,
        claim_model(g, id).1 is Ok ==> claim_model(g, id).0.prize_pool == 0,
        claim_model(g, id).1 is Ok ==> wf(claim_model(g, id).0),
        claim_model(g, id).1 is Ok ==> claim_model(claim_model(g, id).0, id) == (
            claim_model(g, id).0,
            Err::<u64, GameError>(GameError::NoPrizeToClaim),
        ),
{
    lemma_claim_preserves_wf(g, id);
}

} // verus!
