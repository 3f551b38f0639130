//! Model of the game's wire protocol, as far as the proxy reads or writes
//! it.  Requests and responses travel as opaque binary frames; the proxy
//! only ever looks at the small set of fields modelled here, and the
//! unverified transport layer converts between the real wire messages and
//! these values at the socket boundary.

use vstd::prelude::*;

use crate::sc2::{Difficulty, PlayerResult, Race, Status};

verus! {

/// One engine debug command, as far as policy looks at it: either a pure
/// drawing overlay or anything else.
#[derive(Debug, Clone, Copy, PartialEq, Eq, Structural)]
pub enum DebugCommand {
    Draw,
    Other,
}

/// Interface options a client asked for in its join request.
#[derive(Debug, Clone, Copy, PartialEq, Eq, Structural)]
pub struct InterfaceOptions {
    pub raw: bool,
    pub score: bool,
    pub feature_layer: bool,
    pub render: bool,
}

/// A pair of engine ports.
#[derive(Debug, Clone, Copy, PartialEq, Eq, Structural)]
pub struct PortPair {
    pub game_port: u16,
    pub base_port: u16,
}

/// The set of ports the engines of one match rendezvous on.  No two
/// concurrent matches may receive overlapping sets; allocation happens
/// outside the library.
#[derive(Debug, PartialEq, Eq)]
pub struct PortConfig {
    pub shared_port: u16,
    pub server_ports: PortPair,
    pub client_ports: Vec<PortPair>,
}

impl Clone for PortConfig {
    fn clone(&self) -> (r: Self)
        ensures
            r.shared_port == self.shared_port,
            r.server_ports == self.server_ports,
            r.client_ports@ == self.client_ports@,
    {
        let mut ports: Vec<PortPair> = Vec::new();
        let mut k: usize = 0;
        while k < self.client_ports.len()
            invariant
                k <= self.client_ports@.len(),
                ports@ =~= self.client_ports@.subrange(0, k as int),
            decreases self.client_ports@.len() - k,
        {
            ports.push(self.client_ports[k]);
            k = k + 1;
            assert(ports@ =~= self.client_ports@.subrange(0, k as int));
        }
        assert(self.client_ports@.subrange(0, self.client_ports@.len() as int)
            =~= self.client_ports@);
        PortConfig {
            shared_port: self.shared_port,
            server_ports: self.server_ports,
            client_ports: ports,
        }
    }
}

/// Parameters of a join request.  A client's own join request carries no
/// ports; the lobby synthesizes one with ports for each engine.
#[derive(Debug, Clone, PartialEq)]
pub struct JoinRequest {
    pub race: Race,
    pub name: Option<String>,
    pub ifopts: InterfaceOptions,
    pub ports: Option<PortConfig>,
    /// Whether this participant hosts the shared-port handshake.
    pub shared_port_host: bool,
}

/// One player slot of a create-game request.
#[derive(Debug, Clone, Copy, PartialEq, Eq, Structural)]
pub enum CreateGamePlayer {
    Participant,
    Computer(Race, Difficulty),
    Observer,
}

/// Parameters of a create-game request.
#[derive(Debug, Clone, PartialEq)]
pub struct CreateGame {
    pub map_path: String,
    pub realtime: bool,
    pub disable_fog: bool,
    pub random_seed: Option<u32>,
    pub player_setup: Vec<CreateGamePlayer>,
}

/// A request frame, as far as the proxy reads it.
#[derive(Debug, Clone, PartialEq)]
pub enum Req {
    Quit,
    Ping,
    JoinGame(JoinRequest),
    CreateGame(CreateGame),
    Debug(Vec<DebugCommand>),
    LeaveGame,
    Other,
}

/// The payload of a response frame, as far as the proxy reads it.
#[derive(Debug, Clone, PartialEq)]
pub enum RespContent {
    Quit,
    Ping,
    LeaveGame,
    CreateGame { error: Option<String> },
    JoinGame { error: Option<String> },
    Observation { player_results: Vec<(u32, PlayerResult)> },
    Error(Vec<String>),
    Other,
}

/// A response frame: the engine status it reports plus its payload.
#[derive(Debug, Clone, PartialEq)]
pub struct Resp {
    pub status: Status,
    pub content: RespContent,
}

/// The acknowledgment sent to a playlist client that asked to quit.
pub open spec fn quit_ack_resp() -> Resp {
    Resp { status: Status::Unknown, content: RespContent::Quit }
}

/// The pong sent to a playlist client that pinged.
pub open spec fn pong_resp() -> Resp {
    Resp { status: Status::Unknown, content: RespContent::Ping }
}

impl Resp {
    /// The acknowledgment sent to a playlist client that asked to quit.
    pub fn quit_ack() -> (r: Resp)
        ensures
            r == quit_ack_resp(),
    {
        Resp { status: Status::Unknown, content: RespContent::Quit }
    }

    /// The pong sent to a playlist client that pinged.
    pub fn pong() -> (r: Resp)
        ensures
            r == pong_resp(),
    {
        Resp { status: Status::Unknown, content: RespContent::Ping }
    }

    /// The error frame sent to a client whose request policy denied.
    pub fn denied() -> (r: Resp)
        ensures
            r.content matches RespContent::Error(m) && m@.len() == 1 && m@[0]@
                == "Proxy: Request denied"@,
    {
        let mut m: Vec<String> = Vec::new();
        m.push(String::from_str("Proxy: Request denied"));
        Resp { status: Status::Unknown, content: RespContent::Error(m) }
    }
}

} // verus!
