//! Loading a configuration from TOML text.

use sc2_proxy::config::MatchmakingMode;
use sc2_proxy::toml_text::decode_toml_config;

#[test]
fn test_load_game_config() {
    let contents = "[proxy]\n\
host = \"127.0.0.1\"\n\
port = 8642\n\
[process]\n\
fullscreen = true\n\
verbose = true\n\
[matchmaking]\n\
mode = \"Pairs\"\n\
cpu_difficulty = \"Medium\"\n\
cpu_race = \"Random\"\n\
[match_defaults.game]\n\
disable_fog = false\n\
realtime = false\n\
[match_defaults.game.allowed_interfaces]\n\
raw = true\n\
score = true\n\
feature_layer = true\n\
render = false\n\
[match_defaults.request_limits]\n\
disable_cheats = false\n\
[match_defaults.time_limits]\n\
game_loops = 1234\n\
[match_defaults.record_results]\n\
end_score = false\n\
score_history = false\n\
[remote_controller]\n\
enabled = true\n\
host = \"127.0.0.1\"\n\
port = 2468\n";

    let config = decode_toml_config(contents).expect("Deserialization failed");

    assert_eq!(config.process.fullscreen, true);
    assert_eq!(config.process.verbose, true);
    assert_eq!(config.matchmaking.mode, MatchmakingMode::Pairs);
    assert_eq!(config.match_defaults.time_limits.game_loops, Some(1234));
}
