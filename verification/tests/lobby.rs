//! The lobby handshake: the requests it builds and the responses it checks.

use sc2_proxy::config::Config;
use sc2_proxy::lobby::GameLobby;
use sc2_proxy::lobby::LobbyError;
use sc2_proxy::protocol::CreateGamePlayer;
use sc2_proxy::protocol::InterfaceOptions;
use sc2_proxy::protocol::JoinRequest;
use sc2_proxy::protocol::PortConfig;
use sc2_proxy::protocol::PortPair;
use sc2_proxy::protocol::Req;
use sc2_proxy::protocol::Resp;
use sc2_proxy::protocol::RespContent;
use sc2_proxy::sc2::Difficulty;
use sc2_proxy::sc2::Race;
use sc2_proxy::sc2::Status;

fn join_req(race: Race, name: &str) -> JoinRequest {
    JoinRequest {
        race,
        name: Some(name.to_string()),
        ifopts: InterfaceOptions { raw: true, score: false, feature_layer: true, render: false },
        ports: None,
        shared_port_host: false,
    }
}

fn ports() -> PortConfig {
    PortConfig {
        shared_port: 5000,
        server_ports: PortPair { game_port: 5001, base_port: 5002 },
        client_ports: vec![
            PortPair { game_port: 5003, base_port: 5004 },
            PortPair { game_port: 5005, base_port: 5006 },
        ],
    }
}

#[test]
fn create_game_lists_participants_then_computers() {
    let mut cfg = Config::new();
    cfg.match_defaults.game.map_name = Some("AbyssalReefLE".to_string());
    cfg.match_defaults.game.realtime = true;
    let mut lobby = GameLobby::new(cfg);
    assert!(!lobby.is_valid());
    lobby.join("127.0.0.1:50000".to_string(), join_req(Race::Terran, "alice"));
    lobby.add_computer(Race::Zerg, Difficulty::Medium);
    assert!(lobby.is_valid());

    let req = lobby.proto_create_game("/maps/AbyssalReefLE.SC2Map".to_string());
    match req {
        Req::CreateGame(cg) => {
            assert_eq!(cg.map_path, "/maps/AbyssalReefLE.SC2Map");
            assert!(cg.realtime);
            assert!(!cg.disable_fog);
            assert_eq!(cg.player_setup, vec![
                CreateGamePlayer::Participant,
                CreateGamePlayer::Computer(Race::Zerg, Difficulty::Medium),
            ]);
        },
        other => panic!("expected a create-game request, got {:?}", other),
    }
}

#[test]
fn join_requests_flag_only_the_first_as_host() {
    let mut cfg = Config::new();
    cfg.match_defaults.game.map_name = Some("AbyssalReefLE".to_string());
    let mut lobby = GameLobby::new(cfg);
    lobby.join("127.0.0.1:50000".to_string(), join_req(Race::Terran, "alice"));
    lobby.join("127.0.0.1:50001".to_string(), join_req(Race::Zerg, "bob"));
    let pc = ports();
    let reqs = lobby.join_game_requests(&pc);
    assert_eq!(reqs.len(), 2);
    match &reqs[0] {
        Req::JoinGame(j) => {
            assert!(j.shared_port_host);
            assert_eq!(j.race, Race::Terran);
            assert_eq!(j.name, Some("alice".to_string()));
            assert_eq!(j.ports.as_ref().map(|p| p.shared_port), Some(5000));
        },
        other => panic!("expected a join request, got {:?}", other),
    }
    match &reqs[1] {
        Req::JoinGame(j) => {
            assert!(!j.shared_port_host);
            assert_eq!(j.race, Race::Zerg);
        },
        other => panic!("expected a join request, got {:?}", other),
    }
}

#[test]
fn handshake_responses_are_checked() {
    let ok = Resp { status: Status::InitGame, content: RespContent::CreateGame { error: None } };
    assert_eq!(GameLobby::check_create_game_response(&ok), Ok(()));
    let bad = Resp {
        status: Status::Launched,
        content: RespContent::CreateGame { error: Some("bad map".to_string()) },
    };
    assert_eq!(
        GameLobby::check_create_game_response(&bad),
        Err(LobbyError::CreateGameFailed("bad map".to_string()))
    );
    let jok = Resp { status: Status::InGame, content: RespContent::JoinGame { error: None } };
    assert_eq!(GameLobby::check_join_game_response(&jok), Ok(()));
    let jbad = Resp {
        status: Status::Launched,
        content: RespContent::JoinGame { error: Some("full".to_string()) },
    };
    assert_eq!(
        GameLobby::check_join_game_response(&jbad),
        Err(LobbyError::JoinGameFailed("full".to_string()))
    );
}

#[test]
fn start_moves_the_participants_into_the_game() {
    let mut cfg = Config::new();
    cfg.match_defaults.game.map_name = Some("AbyssalReefLE".to_string());
    let mut lobby = GameLobby::new(cfg.clone());
    lobby.join("127.0.0.1:50000".to_string(), join_req(Race::Terran, "alice"));
    lobby.join("127.0.0.1:50001".to_string(), join_req(Race::Zerg, "bob"));
    let game = lobby.start();
    assert_eq!(game.players.len(), 2);
    assert_eq!(game.players[0].client, "127.0.0.1:50000");
    assert_eq!(game.players[0].data.race, Race::Terran);
    assert_eq!(game.players[1].data.race, Race::Zerg);
    assert_eq!(game.config, cfg);
}

#[test]
fn close_hands_back_every_client() {
    let mut lobby = GameLobby::new(Config::new());
    lobby.join("a".to_string(), join_req(Race::Random, "x"));
    lobby.join("b".to_string(), join_req(Race::Random, "y"));
    let dropped = lobby.close();
    assert_eq!(dropped, vec!["a".to_string(), "b".to_string()]);
}
