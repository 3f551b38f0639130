//! Messages passed between the supervisor, a game, and its players.
//! The channels themselves live outside the library; these are the values
//! they carry.

use vstd::prelude::*;

use crate::sc2::PlayerResult;

verus! {

/// Request from the supervisor to a game.
#[derive(Debug, Clone, Copy, PartialEq, Eq, Structural)]
pub enum FromSupervisor {
    Quit,
}

/// Response from a game to the supervisor.  The protocol has no such
/// message yet: no value of this type is ever constructed or sent.
#[derive(Debug, Clone, Copy, PartialEq, Eq, Structural)]
pub enum ToSupervisor {
    /// Reserved; never sent.
    Reserved,
}

/// Message from a player to its game.
#[derive(Debug, Clone, PartialEq)]
pub struct ToGame {
    pub player_index: usize,
    pub content: ToGameContent,
}

/// What a player reports to its game.
#[derive(Debug, Clone, PartialEq)]
pub enum ToGameContent {
    /// Game ended normally, with the outcomes sorted by player id.
    GameOver(Vec<PlayerResult>),
    /// The engine responded to a leave-game request.
    LeftGame,
    /// The engine responded to a quit request without the client leaving
    /// the game first.
    QuitBeforeLeave,
    /// The engine unexpectedly closed its connection.
    SC2UnexpectedConnectionClose,
    /// The client unexpectedly closed its connection.
    UnexpectedConnectionClose,
}

/// Message from a game to one of its players.
#[derive(Debug, Clone, Copy, PartialEq, Eq, Structural)]
pub enum ToPlayer {
    /// Game over: kill the engine and exit.
    Quit,
}

} // verus!
