//! An unstarted game: a lobby accumulating participants and computer
//! players, and the two-phase create-then-join handshake that turns it
//! into a running game.
//!
//! The engine round-trips of the handshake happen outside the library; the
//! functions here build every request that is sent, check every response
//! that comes back, and hand the participants over to the game.

use vstd::prelude::*;

use crate::config::Config;
use crate::game::Game;
use crate::player::{Player, PlayerData};
use crate::protocol::{CreateGame, CreateGamePlayer, JoinRequest, PortConfig, Req, Resp,
    RespContent};
use crate::sc2::{Difficulty, Race};

verus! {

/// Why a lobby handshake failed.
#[derive(Debug, PartialEq)]
pub enum LobbyError {
    /// The configured map could not be resolved.
    MapNotFound,
    /// The engine refused to create the game, with its error text.
    CreateGameFailed(String),
    /// An engine refused the join, with its error text.
    JoinGameFailed(String),
}

/// An unstarted game.
#[derive(Debug, PartialEq)]
pub struct GameLobby {
    /// Game configuration.
    pub config: Config,
    /// Player participants.
    pub players: Vec<Player>,
    /// Computer players.
    pub computer_players: Vec<(Race, Difficulty)>,
}

impl GameLobby {
    /// A new empty game lobby bound to a configuration snapshot.
    pub fn new(config: Config) -> (r: GameLobby)
        ensures
            r.config == config,
            r.players@.len() == 0,
            r.computer_players@.len() == 0,
    {
        GameLobby { config, players: Vec::new(), computer_players: Vec::new() }
    }

    /// Add a client to the game.  The join request is stashed as player
    /// data; nothing is sent to any engine yet.
    pub fn join(&mut self, client: String, join_req: JoinRequest)
        ensures
            final(self).config == old(self).config,
            final(self).computer_players == old(self).computer_players,
            final(self).players@ == old(self).players@.push(
                Player {
                    client,
                    sc2_status: None,
                    data: PlayerData {
                        race: join_req.race,
                        name: join_req.name,
                        ifopts: join_req.ifopts,
                    },
                },
            ),
    {
        let data = PlayerData::from_join_request(join_req);
        let player = Player::new(client, data);
        self.players.push(player);
    }

    /// Add a computer player slot.
    pub fn add_computer(&mut self, race: Race, difficulty: Difficulty)
        ensures
            final(self).config == old(self).config,
            final(self).players == old(self).players,
            final(self).computer_players@ == old(self).computer_players@.push((race, difficulty)),
    {
        self.computer_players.push((race, difficulty));
    }

    /// Whether the lobby can start: at least one participant.
    pub fn is_valid(&self) -> (r: bool)
        ensures
            r == (self.players@.len() > 0),
    {
        self.players.len() > 0
    }

    /// The identifiers of the participating clients, in join order.
    pub fn client_ids(&self) -> (r: Vec<String>)
        ensures
            r@ == self.players@.map_values(|p: Player| p.client),
    {
        let mut r: Vec<String> = Vec::new();
        let mut k: usize = 0;
        while k < self.players.len()
            invariant
                k <= self.players@.len(),
                r@ =~= self.players@.take(k as int).map_values(|p: Player| p.client),
            decreases self.players@.len() - k,
        {
            r.push(self.players[k].client.clone());
            k = k + 1;
            assert(r@ =~= self.players@.take(k as int).map_values(|p: Player| p.client));
        }
        assert(self.players@.take(self.players@.len() as int) =~= self.players@);
        r
    }

    /// The player slots of the create-game request: every participant
    /// first, then every computer player, in order.
    pub open spec fn spec_player_setup(&self) -> Seq<CreateGamePlayer> {
        self.players@.map_values(|p: Player| CreateGamePlayer::Participant)
            + self.computer_players@.map_values(
            |c: (Race, Difficulty)| CreateGamePlayer::Computer(c.0, c.1),
        )
    }

    /// The create-game request sent to the first participant's engine.
    /// `map_path` is the resolved path of the configured map.
    pub fn proto_create_game(&self, map_path: String) -> (r: Req)
        requires
            self.players@.len() > 0,
        ensures
            r matches Req::CreateGame(cg) && cg.map_path == map_path && cg.realtime
                == self.config.match_defaults.game.realtime && cg.disable_fog
                == self.config.match_defaults.game.disable_fog && cg.random_seed
                == self.config.match_defaults.game.random_seed && cg.player_setup@
                == self.spec_player_setup(),
    {
        let mut setup: Vec<CreateGamePlayer> = Vec::new();
        let mut k: usize = 0;
        while k < self.players.len()
            invariant
                k <= self.players@.len(),
                setup@ =~= self.players@.subrange(0, k as int).map_values(
                    |p: Player| CreateGamePlayer::Participant,
                ),
            decreases self.players@.len() - k,
        {
            setup.push(CreateGamePlayer::Participant);
            k = k + 1;
            assert(setup@ =~= self.players@.subrange(0, k as int).map_values(
                |p: Player| CreateGamePlayer::Participant,
            ));
        }
        assert(self.players@.subrange(0, self.players@.len() as int) =~= self.players@);
        let ghost participants = setup@;
        let mut m: usize = 0;
        while m < self.computer_players.len()
            invariant
                m <= self.computer_players@.len(),
                setup@ =~= participants + self.computer_players@.subrange(0, m as int).map_values(
                    |c: (Race, Difficulty)| CreateGamePlayer::Computer(c.0, c.1),
                ),
            decreases self.computer_players@.len() - m,
        {
            let (race, difficulty) = self.computer_players[m];
            setup.push(CreateGamePlayer::Computer(race, difficulty));
            m = m + 1;
            assert(setup@ =~= participants + self.computer_players@.subrange(
                0,
                m as int,
            ).map_values(|c: (Race, Difficulty)| CreateGamePlayer::Computer(c.0, c.1)));
        }
        assert(self.computer_players@.subrange(0, self.computer_players@.len() as int)
            =~= self.computer_players@);
        Req::CreateGame(
            CreateGame {
                map_path,
                realtime: self.config.match_defaults.game.realtime,
                disable_fog: self.config.match_defaults.game.disable_fog,
                random_seed: self.config.match_defaults.game.random_seed,
                player_setup: setup,
            },
        )
    }

    /// Check the engine's answer to the create-game request.
    pub fn check_create_game_response(resp: &Resp) -> (r: Result<(), LobbyError>)
        requires
            resp.content is CreateGame,
        ensures
            r is Ok <==> resp.content matches RespContent::CreateGame { error: None },
            resp.content matches RespContent::CreateGame { error: Some(e) } ==> (r matches Err(
                LobbyError::CreateGameFailed(msg),
            ) && msg@ == e@),
    {
        match &resp.content {
            RespContent::CreateGame { error: Some(e) } => Err(
                LobbyError::CreateGameFailed(e.clone()),
            ),
            _ => Ok(()),
        }
    }

    /// The join request synthesized for one participant: the stashed join
    /// parameters, the match's port set, and the shared-port host flag.
    pub fn proto_join_game_participant(
        &self,
        portconfig: PortConfig,
        player_data: PlayerData,
        is_host: bool,
    ) -> (r: Req)
        ensures
            r matches Req::JoinGame(j) && j.race == player_data.race && j.name == player_data.name
                && j.ifopts == player_data.ifopts && (j.ports matches Some(pc) && pc.shared_port
                == portconfig.shared_port && pc.server_ports == portconfig.server_ports
                && pc.client_ports@ == portconfig.client_ports@) && j.shared_port_host == is_host,
    {
        Req::JoinGame(
            JoinRequest {
                race: player_data.race,
                name: player_data.name,
                ifopts: player_data.ifopts,
                ports: Some(portconfig),
                shared_port_host: is_host,
            },
        )
    }

    /// The join requests for all participants, in order: each carries that
    /// player's stashed parameters and the shared port set, and exactly
    /// the first participant is flagged as shared-port host.  They must
    /// all be sent before any response is awaited, or the engines
    /// deadlock on their shared-port rendezvous.
    pub fn join_game_requests(&self, pc: &PortConfig) -> (r: Vec<Req>)
        ensures
            r@.len() == self.players@.len(),
            forall|k: int|
                0 <= k < r@.len() ==> (#[trigger] r@[k] matches Req::JoinGame(j) && j.race
                    == self.players@[k].data.race && j.name == self.players@[k].data.name
                    && j.ifopts == self.players@[k].data.ifopts && (j.ports matches Some(p)
                    && p.shared_port == pc.shared_port && p.server_ports == pc.server_ports
                    && p.client_ports@ == pc.client_ports@) && j.shared_port_host == (k == 0)),
    {
        let mut r: Vec<Req> = Vec::new();
        let mut k: usize = 0;
        while k < self.players.len()
            invariant
                k <= self.players@.len(),
                r@.len() == k,
                forall|m: int|
                    0 <= m < k ==> (#[trigger] r@[m] matches Req::JoinGame(j) && j.race
                        == self.players@[m].data.race && j.name == self.players@[m].data.name
                        && j.ifopts == self.players@[m].data.ifopts && (j.ports matches Some(p)
                        && p.shared_port == pc.shared_port && p.server_ports == pc.server_ports
                        && p.client_ports@ == pc.client_ports@) && j.shared_port_host == (m
                        == 0)),
            decreases self.players@.len() - k,
    {
            let data = self.players[k].data.clone();
            let req = self.proto_join_game_participant(pc.clone(), data, k == 0);
            r.push(req);
            k = k + 1;
        }
        r
    }

    /// Check an engine's answer to a join request.
    pub fn check_join_game_response(resp: &Resp) -> (r: Result<(), LobbyError>)
        requires
            resp.content is JoinGame,
        ensures
            r is Ok <==> resp.content matches RespContent::JoinGame { error: None },
            resp.content matches RespContent::JoinGame { error: Some(e) } ==> (r matches Err(
                LobbyError::JoinGameFailed(msg),
            ) && msg@ == e@),
    {
        match &resp.content {
            RespContent::JoinGame { error: Some(e) } => Err(LobbyError::JoinGameFailed(e.clone())),
            _ => Ok(()),
        }
    }

    /// Turn the lobby into a running game after a successful handshake:
    /// the game binds the same configuration snapshot and exactly the
    /// lobby's participants, in order.
    pub fn start(self) -> (r: Game)
        ensures
            r.config == self.config,
            r.players@ == self.players@,
    {
        Game { config: self.config, players: self.players }
    }

    /// Drop the lobby, handing back the identifiers of the clients to
    /// disconnect.  Their engines are killed by whoever owns them.
    pub fn close(self) -> (r: Vec<String>)
        ensures
            r@ == self.players@.map_values(|p: Player| p.client),
    {
        self.client_ids()
    }
}

} // verus!
