//! Round trips and exact wire forms of the remote-control JSON codec and
//! the configuration TOML codec.

use sc2_proxy::config::Config;
use sc2_proxy::config::MatchmakingMode;
use sc2_proxy::json::decode_request;
use sc2_proxy::json::decode_response;
use sc2_proxy::json::encode_request;
use sc2_proxy::json::encode_response;
use sc2_proxy::remote_control::Request;
use sc2_proxy::remote_control::Response;
use sc2_proxy::sc2::Difficulty;
use sc2_proxy::sc2::Race;
use sc2_proxy::supervisor::GameId;
use sc2_proxy::toml_text::decode_toml_config;
use sc2_proxy::toml_text::encode_toml_config;

#[test]
fn json_exact_forms() {
    assert_eq!(encode_request(&Request::Quit), "\"Quit\"");
    assert_eq!(encode_request(&Request::Ping(1234)), "{\"Ping\":1234}");
    assert_eq!(encode_request(&Request::GetPlaylist), "\"GetPlaylist\"");
    assert_eq!(
        encode_request(&Request::AddToLobby(GameId(0), "127.0.0.1:50000".to_string())),
        "{\"AddToLobby\":[0,\"127.0.0.1:50000\"]}"
    );
    assert_eq!(encode_request(&Request::StartGame(GameId(7))), "{\"StartGame\":7}");
    assert_eq!(encode_response(&Response::Quit), "\"Quit\"");
    assert_eq!(encode_response(&Response::Ping(1234)), "{\"Ping\":1234}");
    assert_eq!(
        encode_response(&Response::Error("Invalid request: bad".to_string())),
        "{\"Error\":\"Invalid request: bad\"}"
    );
    assert_eq!(encode_response(&Response::CreateLobby(GameId(0))), "{\"CreateLobby\":0}");
    assert_eq!(
        encode_response(&Response::GetPlaylist(vec![("a:1".to_string(), true)])),
        "{\"GetPlaylist\":[[\"a:1\",true]]}"
    );
    assert_eq!(encode_response(&Response::GetPlaylist(Vec::new())), "{\"GetPlaylist\":[]}");
}

#[test]
fn json_request_round_trips() {
    let mut cfg = Config::new();
    cfg.matchmaking.mode = MatchmakingMode::RemoteController;
    cfg.matchmaking.cpu_race = Race::Zerg;
    cfg.matchmaking.cpu_difficulty = Difficulty::CheatInsane;
    cfg.match_defaults.game.map_name = Some("AbyssalReefLE".to_string());
    cfg.match_defaults.game.random_seed = Some(42);
    cfg.match_defaults.request_limits.disable_cheats = true;
    let cases = vec![
        Request::Quit,
        Request::Ping(0),
        Request::Ping(4294967295),
        Request::GetConfig,
        Request::SetConfig(cfg),
        Request::GetPlaylist,
        Request::DropPlaylistItem("127.0.0.1:61234".to_string()),
        Request::ClearPlaylist,
        Request::CreateLobby,
        Request::AddToLobby(GameId(18446744073709551615), "x".to_string()),
        Request::StartGame(GameId(3)),
    ];
    for r in cases {
        let line = encode_request(&r);
        let back = decode_request(&line);
        assert_eq!(back, Some(r));
    }
}

#[test]
fn json_response_round_trips() {
    let cases = vec![
        Response::Error("no".to_string()),
        Response::Quit,
        Response::Ping(7),
        Response::GetConfig(Config::new()),
        Response::SetConfig(Config::new()),
        Response::GetPlaylist(vec![
            ("127.0.0.1:50000".to_string(), true),
            ("127.0.0.1:50001".to_string(), false),
        ]),
        Response::DropPlaylist,
        Response::ClearPlaylist,
        Response::CreateLobby(GameId(0)),
        Response::AddToLobby,
        Response::StartGame,
    ];
    for r in cases {
        let line = encode_response(&r);
        let back = decode_response(&line);
        assert_eq!(back, Some(r));
    }
}

#[test]
fn json_escaping_round_trips() {
    let tricky = "he said \"hi\\there\"\nnew line\ttab\u{1}ctl";
    let r = Request::DropPlaylistItem(tricky.to_string());
    let line = encode_request(&r);
    assert_eq!(decode_request(&line), Some(r));
    // escaped characters never appear raw in the encoding
    assert!(!line.contains('\n'));
    assert!(!line.contains('\t'));
}

#[test]
fn json_tolerates_whitespace() {
    assert_eq!(decode_request("{\"Ping\": 1234}"), Some(Request::Ping(1234)));
    assert_eq!(decode_request("  \"Quit\"  "), Some(Request::Quit));
    assert_eq!(decode_request("{ \"StartGame\" : 5 }"), Some(Request::StartGame(GameId(5))));
}

#[test]
fn json_rejects_garbage() {
    assert_eq!(decode_request("error"), None);
    assert_eq!(decode_request(""), None);
    assert_eq!(decode_request("{\"Ping\":}"), None);
    assert_eq!(decode_request("{\"Nope\":1}"), None);
    assert_eq!(decode_request("\"Quit\" trailing"), None);
    assert_eq!(decode_request("{\"Ping\":99999999999999999999}"), None);
    assert_eq!(decode_response("[1,2]"), None);
}

#[test]
fn toml_round_trips() {
    let mut cfg = Config::new();
    assert_eq!(decode_toml_config(&encode_toml_config(&cfg)), Some(Config::new()));

    cfg.proxy.host = "0.0.0.0".to_string();
    cfg.proxy.port = 9999;
    cfg.process.fullscreen = true;
    cfg.matchmaking.mode = MatchmakingMode::AgainstBuiltinAI;
    cfg.matchmaking.cpu_difficulty = Difficulty::VeryHard;
    cfg.match_defaults.game.map_name = Some("AbyssalReefLE".to_string());
    cfg.match_defaults.game.random_seed = Some(7);
    cfg.match_defaults.time_limits.game_loops = Some(1234);
    cfg.match_defaults.request_limits.disable_cheats = true;
    cfg.remote_controller.enabled = false;
    let text = encode_toml_config(&cfg);
    assert_eq!(decode_toml_config(&text), Some(cfg));
}

#[test]
fn toml_partial_documents_use_defaults() {
    // every table and field has a default; an empty file is the default
    // configuration, as a missing file would be
    assert_eq!(decode_toml_config(""), Some(Config::new()));
    assert_eq!(decode_toml_config("[proxy]\n"), Some(Config::new()));

    // a file carrying only what it wants to change
    let partial = "[matchmaking]\nmode = \"AgainstBuiltinAI\"\n[match_defaults.game]\nmap_name = \"AbyssalReefLE\"\n";
    let mut expected = Config::new();
    expected.matchmaking.mode = MatchmakingMode::AgainstBuiltinAI;
    expected.match_defaults.game.map_name = Some("AbyssalReefLE".to_string());
    assert_eq!(decode_toml_config(partial), Some(expected));

    // a single field under a later table
    let loops = "[match_defaults.time_limits]\ngame_loops = 77\n";
    let mut expected2 = Config::new();
    expected2.match_defaults.time_limits.game_loops = Some(77);
    assert_eq!(decode_toml_config(loops), Some(expected2));
}

#[test]
fn toml_rejects_garbage() {
    assert_eq!(decode_toml_config("hello"), None);
    assert_eq!(decode_toml_config("[proxy]\nport = x\n"), None);
    assert_eq!(decode_toml_config("[matchmaking]\nmode = \"Nope\"\n"), None);
}

#[test]
fn addresses_render_as_host_and_port() {
    let cfg = Config::new();
    assert_eq!(cfg.proxy.addr(), "127.0.0.1:8642");
    assert_eq!(cfg.remote_controller.addr(), "127.0.0.1:2468");
}

#[test]
fn remote_controlled_matchmaking_needs_the_endpoint() {
    let mut cfg = Config::new();
    assert!(!cfg.remote_required_but_disabled());
    cfg.matchmaking.mode = MatchmakingMode::RemoteController;
    assert!(!cfg.remote_required_but_disabled());
    cfg.remote_controller.enabled = false;
    assert!(cfg.remote_required_but_disabled());
}

#[test]
fn config_check_reports_each_error() {
    let mut cfg = Config::new();
    assert_eq!(cfg.check(true), Err("Missing map name".to_string()));
    cfg.match_defaults.game.map_name = Some("AbyssalReefLE".to_string());
    assert_eq!(cfg.check(false), Err("Map not found".to_string()));
    assert_eq!(cfg.check(true), Ok(()));
}
