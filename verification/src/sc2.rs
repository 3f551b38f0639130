//! Game data and types: races, computer difficulties, per-player results
//! and engine status codes.

use vstd::prelude::*;

verus! {

/// A playable race.
#[derive(Debug, Clone, Copy, PartialEq, Eq, Structural)]
pub enum Race {
    Protoss,
    Terran,
    Zerg,
    Random,
}

impl Default for Race {
    /// The race used when a config leaves the computer race unset.
    fn default() -> (r: Race)
        ensures
            r == Race::Random,
    {
        Race::Random
    }
}

/// Difficulty of an engine-built-in computer opponent.
#[derive(Debug, Clone, Copy, PartialEq, Eq, Structural)]
pub enum Difficulty {
    VeryEasy,
    Easy,
    Medium,
    MediumHard,
    Hard,
    Harder,
    VeryHard,
    CheatVision,
    CheatMoney,
    CheatInsane,
}

impl Default for Difficulty {
    /// The difficulty used when a config leaves the computer difficulty unset.
    fn default() -> (r: Difficulty)
        ensures
            r == Difficulty::Medium,
    {
        Difficulty::Medium
    }
}

/// Result of one player slot in a finished game.
#[derive(Debug, Clone, Copy, PartialEq, Eq, Structural)]
pub enum PlayerResult {
    Victory,
    Defeat,
    Tie,
    Undecided,
}

/// Engine process status, as reported on every engine response.
#[derive(Debug, Clone, Copy, PartialEq, Eq, Structural)]
pub enum Status {
    Launched,
    InitGame,
    InGame,
    InReplay,
    Ended,
    Quit,
    Unknown,
}

} // verus!
