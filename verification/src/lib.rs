//! A verified multiplayer dice-race engine: a pure state machine that
//! manages player admission, turn-based movement, a pooled wager and the
//! payout to a single winner.
//!
//! The engine itself performs no I/O. The host is expected to supply the
//! values its collaborators produce (a monotonically advancing slot, a
//! coarse timestamp, caller identities) and to perform the actual value
//! transfers, checking the engine's published preconditions first.

pub mod engine;
pub mod game;
pub mod laws;
