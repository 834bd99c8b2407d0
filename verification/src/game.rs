//! Data model of the dice race: the game aggregate, its players, the
//! closed sets of states and errors, and the mathematical model — a ghost
//! mirror of the aggregate together with one transition function per
//! operation — that the executable engine is proved against.

use vstd::prelude::*;

verus! {

/// Most players a single game admits.
pub const MAX_PLAYERS: usize = 5;

/// Player count at which a waiting game starts automatically.
pub const MIN_PLAYERS: usize = 2;

/// Boosts every player holds when joining.
pub const STARTING_BOOSTS: u8 = 3;

/// Fixed distance a boost advances a player.
pub const BOOST_DISTANCE: u64 = 3;

/// Number of faces of the die.
pub const DICE_SIDES: u64 = 6;

/// Identity of a participant, as handed in by the host's identity
/// collaborator. The engine only compares identities for equality and
/// reads the low byte as part of the entropy reduction.
#[derive(Clone, Copy, PartialEq, Eq, Structural, Debug)]
pub struct PlayerId {
    pub value: u64,
}

/// Phase of a game. `WaitingForPlayers` is initial; `Finished` is
/// terminal for gameplay (only a prize claim is valid afterwards).
#[derive(Clone, Copy, PartialEq, Eq, Structural, Debug)]
pub enum GameState {
    WaitingForPlayers,
    InProgress,
    Finished,
}

/// Every way an operation can be refused. All failures are typed and
/// leave the game unchanged.
#[derive(Clone, Copy, PartialEq, Eq, Structural, Debug)]
pub enum GameError {
    /// The game is not accepting new players.
    GameNotJoinable,
    /// The game already holds `MAX_PLAYERS` players.
    GameFull,
    /// This identity already joined this game.
    AlreadyJoined,
    /// The game is not in progress.
    GameNotInProgress,
    /// No player with this identity is in this game.
    PlayerNotFound,
    /// This player already finished the race.
    PlayerAlreadyFinished,
    /// This player has no boosts left.
    NoBoostsRemaining,
    /// The game is not finished yet.
    GameNotFinished,
    /// Only the winner can claim the prize.
    NotWinner,
    /// The prize was already claimed (or no prize was pooled).
    NoPrizeToClaim,
}

/// One racer. Entries are created only by a join and never removed.
#[derive(Clone, Copy, PartialEq, Eq, Structural, Debug)]
pub struct Player {
    pub id: PlayerId,
    pub position: u64,
    pub boosts_remaining: u8,
    pub finished: bool,
}

/// The game aggregate: the authoritative state one race consists of.
#[derive(Debug)]
pub struct Game {
    /// Identity of the creator; read-only after creation.
    pub authority: PlayerId,
    /// Value from the host's monotonically advancing source; used only
    /// for identification, never for gameplay.
    pub game_id: u64,
    pub state: GameState,
    /// Wager each player stakes on joining; fixed at creation.
    pub entry_fee: u64,
    /// A player finishes upon reaching or exceeding this position.
    pub track_length: u8,
    /// Join order is kept; identities are unique.
    pub players: Vec<Player>,
    /// Pooled wager; equals `entry_fee` times the player count until the
    /// prize is claimed.
    pub prize_pool: u64,
    /// Set exactly once, on the transition into `Finished`.
    pub winner: Option<PlayerId>,
}

/// Ghost mirror of `Game`: the value the contracts and laws speak about.
#[verifier::ext_equal]
pub ghost struct GameModel {
    pub authority: PlayerId,
    pub game_id: u64,
    pub state: GameState,
    pub entry_fee: u64,
    pub track_length: u8,
    pub players: Seq<Player>,
    pub prize_pool: u64,
    pub winner: Option<PlayerId>,
}

impl View for Game {
    type V = GameModel;

    open spec fn view(&self) -> GameModel {
        GameModel {
            authority: self.authority,
            game_id: self.game_id,
            state: self.state,
            entry_fee: self.entry_fee,
            track_length: self.track_length,
            players: self.players@,
            prize_pool: self.prize_pool,
            winner: self.winner,
        }
    }
}

/// No two players of `s` share an identity.
pub open spec fn ids_unique(s: Seq<Player>) -> bool {
    forall|i: int, j: int| 0 <= i < j < s.len() ==> s[i].id != s[j].id
}

/// Some player of `s` carries the identity `id`.
pub open spec fn has_player(s: Seq<Player>, id: PlayerId) -> bool {
    exists|i: int| 0 <= i < s.len() && s[i].id == id
}

/// Index of the first player of `s` carrying the identity `id`
/// (meaningful only when `has_player(s, id)` holds).
pub open spec fn index_of(s: Seq<Player>, id: PlayerId) -> int
    decreases s.len(),
{
    if s.len() == 0 {
        0
    } else if s[0].id == id {
        0
    } else {
        1 + index_of(s.drop_first(), id)
    }
}

/// For a present identity, `index_of` names the first matching entry.
pub proof fn lemma_index_of(s: Seq<Player>, id: PlayerId)
    requires
        has_player(s, id),
    ensures
        0 <= index_of(s, id) < s.len(),
        s[index_of(s, id)].id == id,
        forall|j: int| 0 <= j < index_of(s, id) ==> s[j].id != id,
    decreases s.len(),
{
    if s.len() == 0 {
    } else if s[0].id == id {
    } else {
        let w = choose|i: int| 0 <= i < s.len() && s[i].id == id;
        assert(s.drop_first()[w - 1].id == id);
        assert(has_player(s.drop_first(), id));
        lemma_index_of(s.drop_first(), id);
        assert(s[index_of(s, id)].id == id) by {
            assert(s.drop_first()[index_of(s.drop_first(), id)].id == id);
        }
        assert forall|j: int| 0 <= j < index_of(s, id) implies s[j].id != id by {
            if j > 0 {
                assert(s.drop_first()[j - 1].id != id);
            }
        }
    }
}

/// An entry that matches `id` with no earlier match is exactly the one
/// `index_of` names.
pub proof fn lemma_first_index(s: Seq<Player>, id: PlayerId, i: int)
    requires
        0 <= i < s.len(),
        s[i].id == id,
        forall|j: int| 0 <= j < i ==> s[j].id != id,
    ensures
        has_player(s, id),
        index_of(s, id) == i,
{
    assert(has_player(s, id));
    lemma_index_of(s, id);
    let k = index_of(s, id);
    if k < i {
        assert(s[k].id != id);
    }
    if i < k {
        assert(s[i].id != id);
    }
}

/// Addition on `u64` that wraps around on overflow, as the entropy
/// reduction combines its inputs.
pub open spec fn wrap_add(a: u64, b: u64) -> u64 {
    if a + b <= u64::MAX {
        (a + b) as u64
    } else {
        (a + b - 0x1_0000_0000_0000_0000) as u64
    }
}

/// The die value the entropy source yields for one acting player in one
/// turn window: slot, identity byte and timestamp are combined by
/// wrapping addition and reduced modulo the die's faces, plus one. A
/// function of its three arguments alone, hence reproducible — and, the
/// inputs being public and narrow, predictable: a deliberate limitation
/// of the design, not to be silently hardened.
pub open spec fn dice_of(slot: u64, timestamp: u64, id: PlayerId) -> u64 {
    (wrap_add(wrap_add(slot, (id.value % 256) as u64), timestamp) % DICE_SIDES + 1) as u64
}

/// The entry a join appends for `id`.
pub open spec fn starting_player(id: PlayerId) -> Player {
    Player { id, position: 0, boosts_remaining: STARTING_BOOSTS, finished: false }
}

/// Per-player well-formedness plus uniqueness and the capacity bound.
pub open spec fn players_wf(g: GameModel) -> bool {
    &&& g.players.len() <= MAX_PLAYERS
    &&& ids_unique(g.players)
    &&& forall|i: int|
        0 <= i < g.players.len() ==> (#[trigger] g.players[i]).boosts_remaining <= STARTING_BOOSTS
    &&& forall|i: int|
        0 <= i < g.players.len() ==> ((#[trigger] g.players[i]).finished <==> g.players[i].position
            >= g.track_length)
}

/// The pooled wager accounts exactly for the admitted players.
pub open spec fn pool_intact(g: GameModel) -> bool {
    g.prize_pool == g.entry_fee * g.players.len()
}

/// No player of `g` has finished.
pub open spec fn no_finisher(g: GameModel) -> bool {
    forall|i: int| 0 <= i < g.players.len() ==> !(#[trigger] g.players[i]).finished
}

/// Well-formedness of a game: what creation establishes and every
/// operation preserves.
pub open spec fn wf(g: GameModel) -> bool {
    &&& 1 <= g.track_length
    &&& g.entry_fee <= u64::MAX / (MAX_PLAYERS as u64)
    &&& players_wf(g)
    &&& match g.state {
        GameState::WaitingForPlayers => {
            &&& g.players.len() < MIN_PLAYERS
            &&& g.winner is None
            &&& no_finisher(g)
            &&& pool_intact(g)
        },
        GameState::InProgress => {
            &&& MIN_PLAYERS <= g.players.len()
            &&& g.winner is None
            &&& no_finisher(g)
            &&& pool_intact(g)
        },
        GameState::Finished => {
            &&& g.winner is Some
            &&& has_player(g.players, g.winner.unwrap())
            &&& g.players[index_of(g.players, g.winner.unwrap())].finished
            &&& forall|i: int|
                0 <= i < g.players.len() && (#[trigger] g.players[i]).finished ==> g.players[i].id
                    == g.winner.unwrap()
            &&& pool_intact(g) || g.prize_pool == 0
        },
    }
}

/// The game a creation yields.
pub open spec fn init_model(
    authority: PlayerId,
    game_id: u64,
    entry_fee: u64,
    track_length: u8,
) -> GameModel {
    GameModel {
        authority,
        game_id,
        state: GameState::WaitingForPlayers,
        entry_fee,
        track_length,
        players: Seq::<Player>::empty(),
        prize_pool: 0,
        winner: None,
    }
}

/// Outcome of a join: the next game and the result the caller sees.
/// Checks run in order — state, capacity, uniqueness — and a failed
/// check leaves the game untouched. A successful join appends the new
/// player, grows the pool by the entry fee, and starts the game the
/// moment the player count reaches `MIN_PLAYERS`.
pub open spec fn join_model(g: GameModel, id: PlayerId) -> (GameModel, Result<(), GameError>) {
    if g.state != GameState::WaitingForPlayers {
        (g, Err(GameError::GameNotJoinable))
    } else if g.players.len() >= MAX_PLAYERS {
        (g, Err(GameError::GameFull))
    } else if has_player(g.players, id) {
        (g, Err(GameError::AlreadyJoined))
    } else {
        let joined = g.players.push(starting_player(id));
        let g2 = GameModel {
            players: joined,
            prize_pool: wrap_add(g.prize_pool, g.entry_fee),
            state: if joined.len() >= MIN_PLAYERS {
                GameState::InProgress
            } else {
                GameState::WaitingForPlayers
            },
            ..g
        };
        (g2, Ok(()))
    }
}

/// The game after the player at index `i` advances by `distance` and has
/// `boosts_after` boosts left: the moment the new position reaches or
/// exceeds the track length the player is marked finished, becomes the
/// winner, and the game transitions to `Finished`.
pub open spec fn move_player(g: GameModel, i: int, distance: u64, boosts_after: u8) -> GameModel {
    let p = g.players[i];
    let new_pos = wrap_add(p.position, distance);
    let won = new_pos >= g.track_length;
    let p2 = Player { id: p.id, position: new_pos, boosts_remaining: boosts_after, finished: won };
    GameModel {
        players: g.players.update(i, p2),
        state: if won {
            GameState::Finished
        } else {
            g.state
        },
        winner: if won {
            Some(p.id)
        } else {
            g.winner
        },
        ..g
    }
}

/// Outcome of a dice move for `id` in the turn window (`slot`,
/// `timestamp`): the roll is `dice_of` and the player advances by it.
pub open spec fn roll_model(g: GameModel, id: PlayerId, slot: u64, timestamp: u64) -> (
    GameModel,
    Result<u64, GameError>,
) {
    if g.state != GameState::InProgress {
        (g, Err(GameError::GameNotInProgress))
    } else if !has_player(g.players, id) {
        (g, Err(GameError::PlayerNotFound))
    } else if g.players[index_of(g.players, id)].finished {
        (g, Err(GameError::PlayerAlreadyFinished))
    } else {
        let i = index_of(g.players, id);
        let roll = dice_of(slot, timestamp, id);
        (move_player(g, i, roll, g.players[i].boosts_remaining), Ok(roll))
    }
}

/// Outcome of a boost for `id`: one boost is spent and the player
/// advances by the fixed `BOOST_DISTANCE`.
pub open spec fn boost_model(g: GameModel, id: PlayerId) -> (GameModel, Result<(), GameError>) {
    if g.state != GameState::InProgress {
        (g, Err(GameError::GameNotInProgress))
    } else if !has_player(g.players, id) {
        (g, Err(GameError::PlayerNotFound))
    } else if g.players[index_of(g.players, id)].finished {
        (g, Err(GameError::PlayerAlreadyFinished))
    } else if g.players[index_of(g.players, id)].boosts_remaining == 0 {
        (g, Err(GameError::NoBoostsRemaining))
    } else {
        let i = index_of(g.players, id);
        let boosts_after = (g.players[i].boosts_remaining - 1) as u8;
        (move_player(g, i, BOOST_DISTANCE, boosts_after), Ok(()))
    }
}

/// Outcome of a prize claim: only the recorded winner of a finished game
/// with a non-empty pool succeeds, receives the whole pool, and leaves
/// the pool at zero — so a second claim deterministically fails with
/// `NoPrizeToClaim`.
pub open spec fn claim_model(g: GameModel, id: PlayerId) -> (GameModel, Result<u64, GameError>) {
    if g.state != GameState::Finished {
        (g, Err(GameError::GameNotFinished))
    } else if g.winner != Some(id) {
        (g, Err(GameError::NotWinner))
    } else if g.prize_pool == 0 {
        (g, Err(GameError::NoPrizeToClaim))
    } else {
        (GameModel { prize_pool: 0, ..g }, Ok(g.prize_pool))
    }
}

} // verus!
