//! Messages of the remote-control protocol: newline-delimited JSON over a
//! TCP side channel, one request per line, one response per line.  The
//! verified JSON codec for these messages lives in `json`; the TCP server
//! itself lives outside the library.

use vstd::prelude::*;

use crate::config::{Config, ConfigV};
use crate::supervisor::GameId;

verus! {

/// Request to the proxy; always answered with exactly one `Response`.
/// Clients are identified by their peer address rendered as `host:port`.
#[derive(Debug, PartialEq)]
pub enum Request {
    /// Shut down the proxy.
    Quit,
    /// Check that the system is up and synchronized.
    Ping(u32),
    /// Read the current server configuration.
    GetConfig,
    /// Update the configuration for new games.
    SetConfig(Config),
    /// Get identifiers and ready statuses of all clients in the playlist.
    GetPlaylist,
    /// Remove a client from the playlist by identifier.
    DropPlaylistItem(String),
    /// Remove all clients from the playlist.
    ClearPlaylist,
    /// Create a new empty lobby.
    CreateLobby,
    /// Move a ready client from the playlist to a lobby.
    AddToLobby(GameId, String),
    /// Start the game in a lobby.
    StartGame(GameId),
}

/// Response to a `Request`.
#[derive(Debug, PartialEq)]
pub enum Response {
    Error(String),
    Quit,
    Ping(u32),
    GetConfig(Config),
    SetConfig(Config),
    /// Identifier and readiness of every playlist entry.
    GetPlaylist(Vec<(String, bool)>),
    DropPlaylist,
    ClearPlaylist,
    CreateLobby(GameId),
    AddToLobby,
    StartGame,
}

/// Asynchronous update following a response.  None is defined yet; no
/// value of this type is ever constructed or sent.
#[derive(Debug, Clone, Copy, PartialEq, Eq, Structural)]
pub enum Update {
    /// Reserved; never sent.
    Reserved,
}

/// Deep view of a request, with strings as character sequences.
pub enum RequestV {
    Quit,
    Ping(u32),
    GetConfig,
    SetConfig(ConfigV),
    GetPlaylist,
    DropPlaylistItem(Seq<char>),
    ClearPlaylist,
    CreateLobby,
    AddToLobby(GameId, Seq<char>),
    StartGame(GameId),
}

/// Deep view of a response.
pub enum ResponseV {
    Error(Seq<char>),
    Quit,
    Ping(u32),
    GetConfig(ConfigV),
    SetConfig(ConfigV),
    GetPlaylist(Seq<(Seq<char>, bool)>),
    DropPlaylist,
    ClearPlaylist,
    CreateLobby(GameId),
    AddToLobby,
    StartGame,
}

impl View for Request {
    type V = RequestV;

    open spec fn view(&self) -> RequestV {
        match self {
            Request::Quit => RequestV::Quit,
            Request::Ping(v) => RequestV::Ping(*v),
            Request::GetConfig => RequestV::GetConfig,
            Request::SetConfig(c) => RequestV::SetConfig(c@),
            Request::GetPlaylist => RequestV::GetPlaylist,
            Request::DropPlaylistItem(s) => RequestV::DropPlaylistItem(s@),
            Request::ClearPlaylist => RequestV::ClearPlaylist,
            Request::CreateLobby => RequestV::CreateLobby,
            Request::AddToLobby(id, s) => RequestV::AddToLobby(*id, s@),
            Request::StartGame(id) => RequestV::StartGame(*id),
        }
    }
}

impl View for Response {
    type V = ResponseV;

    open spec fn view(&self) -> ResponseV {
        match self {
            Response::Error(s) => ResponseV::Error(s@),
            Response::Quit => ResponseV::Quit,
            Response::Ping(v) => ResponseV::Ping(*v),
            Response::GetConfig(c) => ResponseV::GetConfig(c@),
            Response::SetConfig(c) => ResponseV::SetConfig(c@),
            Response::GetPlaylist(v) => ResponseV::GetPlaylist(
                v@.map_values(|e: (String, bool)| (e.0@, e.1)),
            ),
            Response::DropPlaylist => ResponseV::DropPlaylist,
            Response::ClearPlaylist => ResponseV::ClearPlaylist,
            Response::CreateLobby(id) => ResponseV::CreateLobby(*id),
            Response::AddToLobby => ResponseV::AddToLobby,
            Response::StartGame => ResponseV::StartGame,
        }
    }
}

} // verus!
