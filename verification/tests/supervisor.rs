//! The supervisor's matchmaking, game-id allocation and remote control.

use sc2_proxy::config::Config;
use sc2_proxy::config::MatchmakingMode;
use sc2_proxy::protocol::InterfaceOptions;
use sc2_proxy::protocol::JoinRequest;
use sc2_proxy::remote_control::Request;
use sc2_proxy::remote_control::Response;
use sc2_proxy::sc2::Race;
use sc2_proxy::supervisor::GameId;
use sc2_proxy::supervisor::JoinOutcome;
use sc2_proxy::supervisor::PlaylistAction;
use sc2_proxy::supervisor::PlaylistMessage;
use sc2_proxy::supervisor::RemoteAction;
use sc2_proxy::supervisor::PlaylistEffect;
use sc2_proxy::supervisor::PlaylistEvent;
use sc2_proxy::supervisor::RemoteUpdateStatus;
use sc2_proxy::supervisor::Supervisor;

fn join_req(race: Race) -> JoinRequest {
    JoinRequest {
        race,
        name: None,
        ifopts: InterfaceOptions { raw: true, score: true, feature_layer: true, render: false },
        ports: None,
        shared_port_host: false,
    }
}

fn pairs_config() -> Config {
    let mut cfg = Config::new();
    cfg.matchmaking.mode = MatchmakingMode::Pairs;
    cfg.match_defaults.game.map_name = Some("AbyssalReefLE".to_string());
    cfg
}

#[test]
fn pairs_matchmaking_fills_a_lobby_of_two() {
    let mut sv = Supervisor::new(pairs_config());
    sv.add_client("127.0.0.1:50000".to_string());
    sv.add_client("127.0.0.1:50001".to_string());

    // the first join parks the client in a fresh lobby
    let first = sv.playlist_join_game(0, join_req(Race::Terran), true);
    assert_eq!(first, JoinOutcome::Parked);
    assert_eq!(sv.lobbies.len(), 1);
    assert_eq!(sv.lobbies[0].0, GameId(0));
    assert_eq!(sv.playlist.len(), 1);

    // the second join fills it, and the handshake may start
    let second = sv.playlist_join_game(0, join_req(Race::Zerg), true);
    assert_eq!(second, JoinOutcome::StartLobby(GameId(0)));
    assert_eq!(sv.lobbies[0].1.players.len(), 2);
    assert_eq!(sv.playlist.len(), 0);

    // the handshake succeeds outside; the game registers under the same id
    let lobby = sv.take_lobby(GameId(0)).expect("lobby exists");
    let clients = lobby.client_ids();
    assert_eq!(clients.len(), 2);
    sv.register_game(GameId(0), clients);
    assert_eq!(sv.games.len(), 1);
    assert_eq!(sv.games[0].0, GameId(0));

    // the game finishes; both survivors re-enter the playlist
    sv.update_games(
        GameId(0),
        vec!["127.0.0.1:50000".to_string(), "127.0.0.1:50001".to_string()],
    );
    assert_eq!(sv.games.len(), 0);
    assert_eq!(sv.playlist.len(), 2);
}

#[test]
fn game_ids_are_monotonic_and_never_reused() {
    let mut cfg = pairs_config();
    cfg.matchmaking.mode = MatchmakingMode::AgainstBuiltinAI;
    let mut sv = Supervisor::new(cfg);
    let a = sv.create_lobby(true);
    let b = sv.create_lobby(true);
    assert_eq!(a, GameId(0));
    assert_eq!(b, GameId(1));
    // closing a lobby never recycles its id
    let lobby = sv.take_lobby(a).expect("lobby exists");
    let dropped = lobby.close();
    assert_eq!(dropped.len(), 0);
    let c = sv.create_lobby(true);
    assert_eq!(c, GameId(2));
}

#[test]
fn vs_builtin_ai_adds_one_computer() {
    let mut cfg = pairs_config();
    cfg.matchmaking.mode = MatchmakingMode::AgainstBuiltinAI;
    cfg.matchmaking.cpu_race = Race::Zerg;
    let mut sv = Supervisor::new(cfg);
    sv.add_client("127.0.0.1:50000".to_string());
    let outcome = sv.playlist_join_game(0, join_req(Race::Terran), true);
    assert_eq!(outcome, JoinOutcome::StartLobby(GameId(0)));
    assert_eq!(sv.lobbies[0].1.players.len(), 1);
    assert_eq!(sv.lobbies[0].1.computer_players.len(), 1);
    assert_eq!(sv.lobbies[0].1.computer_players[0].0, Race::Zerg);
}

#[test]
fn remote_controller_mode_parks_the_join() {
    let mut cfg = pairs_config();
    cfg.matchmaking.mode = MatchmakingMode::RemoteController;
    let mut sv = Supervisor::new(cfg);
    sv.add_client("127.0.0.1:50000".to_string());
    let outcome = sv.playlist_join_game(0, join_req(Race::Terran), false);
    assert_eq!(outcome, JoinOutcome::Requeued);
    assert_eq!(sv.playlist.len(), 1);
    assert!(sv.playlist[0].pending_join.is_some());

    // a second join from the same client is rejected
    let req = sv.playlist[0].pending_join.clone();
    assert!(req.is_some());
    let again = sv.playlist_join_game(0, join_req(Race::Terran), false);
    assert_eq!(again, JoinOutcome::Rejected("127.0.0.1:50000".to_string()));
    assert_eq!(sv.playlist.len(), 0);
}

#[test]
fn playlist_messages_dispatch() {
    let mut sv = Supervisor::new(pairs_config());
    let quit = sv.process_playlist_message(PlaylistMessage::Frame(
        sc2_proxy::protocol::Req::Quit,
    ));
    assert!(matches!(quit, PlaylistAction::RespondQuit(_)));
    let ping = sv.process_playlist_message(PlaylistMessage::Frame(
        sc2_proxy::protocol::Req::Ping,
    ));
    assert!(matches!(ping, PlaylistAction::Respond(_)));
    let junk = sv.process_playlist_message(PlaylistMessage::Unparsable);
    assert_eq!(junk, PlaylistAction::Kick);
    let text = sv.process_playlist_message(PlaylistMessage::NotBinary);
    assert_eq!(text, PlaylistAction::Kick);
    let other = sv.process_playlist_message(PlaylistMessage::Frame(
        sc2_proxy::protocol::Req::Other,
    ));
    assert_eq!(other, PlaylistAction::Kick);
}

#[test]
fn remote_control_lifecycle() {
    let mut cfg = pairs_config();
    cfg.matchmaking.mode = MatchmakingMode::RemoteController;
    let mut sv = Supervisor::new(cfg);

    let (st, act) = sv.update_remote(Request::Ping(7), false);
    assert_eq!(st, RemoteUpdateStatus::Processed);
    assert_eq!(act, RemoteAction::Respond(Response::Ping(7)));

    let (st, act) = sv.update_remote(Request::GetPlaylist, false);
    assert_eq!(st, RemoteUpdateStatus::Processed);
    assert_eq!(act, RemoteAction::Respond(Response::GetPlaylist(Vec::new())));

    // a bot connects and sends its join request
    sv.add_client("127.0.0.1:50000".to_string());
    let outcome = sv.playlist_join_game(0, join_req(Race::Terran), false);
    assert_eq!(outcome, JoinOutcome::Requeued);
    let (_, act) = sv.update_remote(Request::GetPlaylist, false);
    assert_eq!(
        act,
        RemoteAction::Respond(Response::GetPlaylist(vec![(
            "127.0.0.1:50000".to_string(),
            true
        )]))
    );

    let (_, act) = sv.update_remote(Request::CreateLobby, true);
    assert_eq!(act, RemoteAction::Respond(Response::CreateLobby(GameId(0))));

    let (_, act) = sv.update_remote(
        Request::AddToLobby(GameId(0), "127.0.0.1:50000".to_string()),
        true,
    );
    assert_eq!(act, RemoteAction::Respond(Response::AddToLobby));

    let (_, act) = sv.update_remote(Request::StartGame(GameId(0)), true);
    assert_eq!(act, RemoteAction::StartLobby(GameId(0)));

    let (st, act) = sv.update_remote(Request::Quit, false);
    assert_eq!(st, RemoteUpdateStatus::Quit);
    assert_eq!(act, RemoteAction::Respond(Response::Quit));
}

#[test]
fn remote_control_errors() {
    let mut sv = Supervisor::new(pairs_config());
    let (_, act) = sv.update_remote(Request::StartGame(GameId(9)), false);
    assert_eq!(act, RemoteAction::Respond(Response::Error("No such game".to_string())));
    let (_, act) = sv.update_remote(Request::AddToLobby(GameId(0), "nobody".to_string()), false);
    assert_eq!(act, RemoteAction::Respond(Response::Error("No such client".to_string())));
    let (_, act) = sv.update_remote(Request::ClearPlaylist, false);
    assert_eq!(act, RemoteAction::Respond(Response::Error("Unsupported".to_string())));
    // a client that never sent a join request is not ready
    sv.add_client("127.0.0.1:50000".to_string());
    let (_, act) = sv.update_remote(
        Request::AddToLobby(GameId(0), "127.0.0.1:50000".to_string()),
        false,
    );
    assert_eq!(
        act,
        RemoteAction::RespondAndDrop(
            Response::Error("Client not ready".to_string()),
            "127.0.0.1:50000".to_string()
        )
    );
    assert_eq!(sv.playlist.len(), 0);
    // an empty lobby cannot start
    let id = sv.create_lobby(true);
    let (_, act) = sv.update_remote(Request::StartGame(id), true);
    assert_eq!(act, RemoteAction::Respond(Response::Error("The lobby is empty".to_string())));
    assert_eq!(sv.lobbies.len(), 0);
}

#[test]
fn update_playlist_dispatches_events() {
    let mut sv = Supervisor::new(pairs_config());
    sv.add_client("a:1".to_string());
    sv.add_client("b:2".to_string());
    sv.add_client("c:3".to_string());
    let events = vec![
        PlaylistEvent::NoData,
        PlaylistEvent::SocketError,
        PlaylistEvent::Message(PlaylistMessage::Frame(sc2_proxy::protocol::Req::Quit)),
    ];
    let effects = sv.update_playlist(events, true);
    // processed in reverse order: the quit answer first, then the error
    assert_eq!(effects.len(), 2);
    assert!(matches!(&effects[0], PlaylistEffect::SendClose(id, _) if id == "c:3"));
    assert!(matches!(&effects[1], PlaylistEffect::Close(id) if id == "b:2"));
    assert_eq!(sv.playlist.len(), 1);
    assert_eq!(sv.playlist[0].client, "a:1");
}
