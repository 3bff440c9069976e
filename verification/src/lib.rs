//! Client-side state synchronization for a real-time multiplayer arcade game.
//!
//! The crate keeps a locally controlled entity responsive to input despite
//! network latency, reconciles local predictions against authoritative server
//! snapshots, and interpolates remote entities between discrete, delayed
//! updates.  All physical quantities are fixed-point integers: positions and
//! velocities in thousandths of a world unit, headings in milliradians, and
//! times in milliseconds, so that every simulation step is exact and
//! replayable.

pub mod cannon;
pub mod clock;
pub mod angle;
pub mod body;
pub mod input;
pub mod interp;
pub mod life;
pub mod num;
pub mod session;
pub mod systems;
pub mod world;

use vstd::prelude::*;

verus! {

/// Milliseconds of one fixed simulation tick.
pub const TICK_MS: i64 = 10;

} // verus!
