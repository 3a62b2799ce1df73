//! The decision engine of the game's computer-driven characters: a behaviour
//! tree evaluated once per tick, whose nodes resume multi-tick work where they
//! left off, and the tree that makes a character seek a weapon and fight.
//!
//! - `input`: the command record a tick produces.
//! - `world`: the plain view of the world a tick reads, and its searches.
//! - `behaviour`: the leaf decisions and guard predicates.
//! - `tree`: nodes, their progress, and evaluation against its meaning `eval`.
//! - `ai`: the per-character agent that owns a tree.
//! - `laws`: properties of evaluation, proved over `eval`.

use vstd::prelude::*;

pub mod input;
pub mod world;
pub mod tree;
pub mod behaviour;
pub mod ai;
pub mod laws;

verus! {

/// How a match is played.
#[derive(Debug, Clone, Copy, PartialEq, Eq, Structural)]
pub enum GameType {
    /// No winning condition: the game goes on forever (quick games).
    Deathmatch,
    /// Killed players leave the game; the last one standing wins.
    LastFishStanding {
        /// Created as a private match among friends rather than by matchmaking.
        private: bool,
    },
}

} // verus!
