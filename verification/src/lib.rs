//! A management and matchmaking proxy core for bot clients that speak a
//! game engine's binary request/response protocol over WebSockets.
//!
//! The crate holds the verified logic of the proxy: configuration and
//! access control, the wire-message model, the per-player forwarding
//! decisions, per-game outcome aggregation, the lobby handshake, the
//! supervisor's matchmaking and lifecycle state machine, and the
//! remote-control message codec.  Socket, process and thread plumbing
//! lives outside the library and drives these state machines.

pub mod codec;
pub mod config;
pub mod game;
pub mod json;
pub mod lobby;
pub mod messaging;
pub mod player;
pub mod protocol;
pub mod remote_control;
pub mod sc2;
pub mod supervisor;
pub mod toml_text;

