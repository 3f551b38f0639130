//! Server configuration: an immutable snapshot the supervisor holds and
//! swaps between games, plus the per-request access-control policy.

use vstd::prelude::*;

use crate::codec::dec_digits;
use crate::codec::push_dec_u64;
use crate::codec::push_lit;
use crate::codec::string_from_chars;
use crate::protocol::{DebugCommand, Req};
use crate::sc2::{Difficulty, Race};

verus! {

// ---------------------------------------------------------------------------
// Types
// ---------------------------------------------------------------------------

/// Address of the client-facing proxy endpoint.
#[derive(Debug, PartialEq)]
pub struct Proxy {
    pub host: String,
    pub port: u16,
}

/// Address of the remote-control endpoint, and whether it is served.
#[derive(Debug, PartialEq)]
pub struct RemoteController {
    pub enabled: bool,
    pub host: String,
    pub port: u16,
}

/// Options handed to the engine process adapter.
#[derive(Debug, Clone, Copy, PartialEq, Eq, Structural)]
pub struct ProcessOptions {
    pub fullscreen: bool,
    pub verbose: bool,
}

/// How connecting clients are matched into games.
#[derive(Debug, Clone, Copy, PartialEq, Eq, Structural)]
pub enum MatchmakingMode {
    /// Runs every connecting bot against a builtin AI.
    AgainstBuiltinAI,
    /// Runs bots against each other in pairs, in connection order.
    Pairs,
    /// Singleplayer (allowed in singleplayer maps only).
    Singleplayer,
    /// Uses the remote-control endpoint to coordinate.
    RemoteController,
}

/// Matchmaking policy.
#[derive(Debug, Clone, Copy, PartialEq, Eq, Structural)]
pub struct Matchmaking {
    pub mode: MatchmakingMode,
    /// Builtin AI difficulty, used with some modes.
    pub cpu_difficulty: Difficulty,
    /// Builtin AI race, used with some modes.
    pub cpu_race: Race,
}

/// Interfaces a client is allowed to request at join time.
#[derive(Debug, Clone, Copy, PartialEq, Eq, Structural)]
pub struct AllowedInterfaces {
    pub raw: bool,
    pub score: bool,
    pub feature_layer: bool,
    pub render: bool,
}

/// Per-game settings used when a lobby creates its match.
#[derive(Debug, PartialEq)]
pub struct GameConfig {
    pub map_name: Option<String>,
    pub disable_fog: bool,
    pub random_seed: Option<u32>,
    pub realtime: bool,
    /// These interfaces are allowed for the client.
    pub allowed_interfaces: AllowedInterfaces,
}

/// Incoming request access control.
#[derive(Debug, Clone, Copy, PartialEq, Eq, Structural)]
pub struct RequestLimits {
    /// Cheats (all debug commands except drawing) are denied.
    pub disable_cheats: bool,
}

/// Per-game time limits.
#[derive(Debug, Clone, Copy, PartialEq, Eq, Structural)]
pub struct TimeLimits {
    pub game_loops: Option<u64>,
}

/// Result-recording settings.
#[derive(Debug, PartialEq)]
pub struct RecordConfig {
    pub replay_path: Option<String>,
    pub end_score: bool,
    pub score_history: bool,
}

/// Defaults bound by each new match.
#[derive(Debug, PartialEq)]
pub struct MatchConfig {
    pub game: GameConfig,
    pub request_limits: RequestLimits,
    pub time_limits: TimeLimits,
    pub record_results: RecordConfig,
}

/// An immutable configuration snapshot.
#[derive(Debug, PartialEq)]
pub struct Config {
    pub proxy: Proxy,
    pub process: ProcessOptions,
    pub matchmaking: Matchmaking,
    pub match_defaults: MatchConfig,
    pub remote_controller: RemoteController,
}

// ---------------------------------------------------------------------------
// Views
// ---------------------------------------------------------------------------

#[verifier::ext_equal]
pub struct ProxyV {
    pub host: Seq<char>,
    pub port: u16,
}

#[verifier::ext_equal]
pub struct RemoteControllerV {
    pub enabled: bool,
    pub host: Seq<char>,
    pub port: u16,
}

#[verifier::ext_equal]
pub struct GameConfigV {
    pub map_name: Option<Seq<char>>,
    pub disable_fog: bool,
    pub random_seed: Option<u32>,
    pub realtime: bool,
    pub allowed_interfaces: AllowedInterfaces,
}

#[verifier::ext_equal]
pub struct RecordConfigV {
    pub replay_path: Option<Seq<char>>,
    pub end_score: bool,
    pub score_history: bool,
}

#[verifier::ext_equal]
pub struct MatchConfigV {
    pub game: GameConfigV,
    pub request_limits: RequestLimits,
    pub time_limits: TimeLimits,
    pub record_results: RecordConfigV,
}

#[verifier::ext_equal]
pub struct ConfigV {
    pub proxy: ProxyV,
    pub process: ProcessOptions,
    pub matchmaking: Matchmaking,
    pub match_defaults: MatchConfigV,
    pub remote_controller: RemoteControllerV,
}

impl View for Proxy {
    type V = ProxyV;

    open spec fn view(&self) -> ProxyV {
        ProxyV { host: self.host@, port: self.port }
    }
}

impl View for RemoteController {
    type V = RemoteControllerV;

    open spec fn view(&self) -> RemoteControllerV {
        RemoteControllerV { enabled: self.enabled, host: self.host@, port: self.port }
    }
}

impl View for GameConfig {
    type V = GameConfigV;

    open spec fn view(&self) -> GameConfigV {
        GameConfigV {
            map_name: match self.map_name {
                Some(ref n) => Some(n@),
                None => None,
            },
            disable_fog: self.disable_fog,
            random_seed: self.random_seed,
            realtime: self.realtime,
            allowed_interfaces: self.allowed_interfaces,
        }
    }
}

impl View for RecordConfig {
    type V = RecordConfigV;

    open spec fn view(&self) -> RecordConfigV {
        RecordConfigV {
            replay_path: match self.replay_path {
                Some(ref p) => Some(p@),
                None => None,
            },
            end_score: self.end_score,
            score_history: self.score_history,
        }
    }
}

impl View for MatchConfig {
    type V = MatchConfigV;

    open spec fn view(&self) -> MatchConfigV {
        MatchConfigV {
            game: self.game@,
            request_limits: self.request_limits,
            time_limits: self.time_limits,
            record_results: self.record_results@,
        }
    }
}

impl View for Config {
    type V = ConfigV;

    open spec fn view(&self) -> ConfigV {
        ConfigV {
            proxy: self.proxy@,
            process: self.process,
            matchmaking: self.matchmaking,
            match_defaults: self.match_defaults@,
            remote_controller: self.remote_controller@,
        }
    }
}

// ---------------------------------------------------------------------------
// Defaults
// ---------------------------------------------------------------------------

/// The default configuration, as a mathematical value.
pub open spec fn default_config_v() -> ConfigV {
    ConfigV {
        proxy: ProxyV { host: "127.0.0.1"@, port: 8642 },
        process: ProcessOptions { fullscreen: false, verbose: false },
        matchmaking: Matchmaking {
            mode: MatchmakingMode::Pairs,
            cpu_difficulty: Difficulty::Medium,
            cpu_race: Race::Random,
        },
        match_defaults: MatchConfigV {
            game: GameConfigV {
                map_name: None,
                disable_fog: false,
                random_seed: None,
                realtime: false,
                allowed_interfaces: AllowedInterfaces {
                    raw: true,
                    score: true,
                    feature_layer: true,
                    render: false,
                },
            },
            request_limits: RequestLimits { disable_cheats: false },
            time_limits: TimeLimits { game_loops: None },
            record_results: RecordConfigV {
                replay_path: None,
                end_score: false,
                score_history: false,
            },
        },
        remote_controller: RemoteControllerV { enabled: true, host: "127.0.0.1"@, port: 2468 },
    }
}

impl Default for Proxy {
    fn default() -> (r: Proxy)
        ensures
            r@ == default_config_v().proxy,
    {
        Proxy { host: String::from_str("127.0.0.1"), port: 8642 }
    }
}

impl Default for RemoteController {
    fn default() -> (r: RemoteController)
        ensures
            r@ == default_config_v().remote_controller,
    {
        RemoteController { enabled: true, host: String::from_str("127.0.0.1"), port: 2468 }
    }
}

impl Default for ProcessOptions {
    fn default() -> (r: ProcessOptions)
        ensures
            r == default_config_v().process,
    {
        ProcessOptions { fullscreen: false, verbose: false }
    }
}

impl Default for MatchmakingMode {
    fn default() -> (r: MatchmakingMode)
        ensures
            r == MatchmakingMode::Pairs,
    {
        MatchmakingMode::Pairs
    }
}

impl Default for Matchmaking {
    fn default() -> (r: Matchmaking)
        ensures
            r == default_config_v().matchmaking,
    {
        Matchmaking {
            mode: MatchmakingMode::Pairs,
            cpu_difficulty: Difficulty::Medium,
            cpu_race: Race::Random,
        }
    }
}

impl Default for AllowedInterfaces {
    fn default() -> (r: AllowedInterfaces)
        ensures
            r == default_config_v().match_defaults.game.allowed_interfaces,
    {
        AllowedInterfaces { raw: true, score: true, feature_layer: true, render: false }
    }
}

impl Default for GameConfig {
    fn default() -> (r: GameConfig)
        ensures
            r@ == default_config_v().match_defaults.game,
    {
        GameConfig {
            map_name: None,
            disable_fog: false,
            random_seed: None,
            realtime: false,
            allowed_interfaces: AllowedInterfaces::default(),
        }
    }
}

impl Default for RequestLimits {
    fn default() -> (r: RequestLimits)
        ensures
            r == default_config_v().match_defaults.request_limits,
    {
        RequestLimits { disable_cheats: false }
    }
}

impl Default for TimeLimits {
    fn default() -> (r: TimeLimits)
        ensures
            r == default_config_v().match_defaults.time_limits,
    {
        TimeLimits { game_loops: None }
    }
}

impl Default for RecordConfig {
    fn default() -> (r: RecordConfig)
        ensures
            r@ == default_config_v().match_defaults.record_results,
    {
        RecordConfig { replay_path: None, end_score: false, score_history: false }
    }
}

impl Default for MatchConfig {
    fn default() -> (r: MatchConfig)
        ensures
            r@ == default_config_v().match_defaults,
    {
        MatchConfig {
            game: GameConfig::default(),
            request_limits: RequestLimits::default(),
            time_limits: TimeLimits::default(),
            record_results: RecordConfig::default(),
        }
    }
}

impl Default for Config {
    fn default() -> (r: Config)
        ensures
            r@ == default_config_v(),
    {
        Config {
            proxy: Proxy::default(),
            process: ProcessOptions::default(),
            matchmaking: Matchmaking::default(),
            match_defaults: MatchConfig::default(),
            remote_controller: RemoteController::default(),
        }
    }
}

// ---------------------------------------------------------------------------
// Operations
// ---------------------------------------------------------------------------

/// The textual address `host:port`.
pub open spec fn addr_text(host: Seq<char>, port: u16) -> Seq<char> {
    host + seq![':'] + dec_digits(port as nat)
}

impl Proxy {
    /// The proxy address as `host:port` text.
    pub fn addr(&self) -> (r: String)
        ensures
            r@ == addr_text(self.host@, self.port),
    {
        let mut out: Vec<char> = Vec::new();
        push_lit(&mut out, self.host.as_str());
        out.push(':');
        push_dec_u64(&mut out, self.port as u64);
        assert(out@ =~= addr_text(self.host@, self.port));
        string_from_chars(&out)
    }
}

impl RemoteController {
    /// The remote-control address as `host:port` text.
    pub fn addr(&self) -> (r: String)
        ensures
            r@ == addr_text(self.host@, self.port),
    {
        let mut out: Vec<char> = Vec::new();
        push_lit(&mut out, self.host.as_str());
        out.push(':');
        push_dec_u64(&mut out, self.port as u64);
        assert(out@ =~= addr_text(self.host@, self.port));
        string_from_chars(&out)
    }
}

impl Config {
    /// A new default configuration.
    pub fn new() -> (r: Config)
        ensures
            r@ == default_config_v(),
    {
        Config::default()
    }

    /// Whether the configuration can be used to create a lobby:
    /// the map name must be set, and the map lookup outside the library
    /// must have resolved it (`map_found`).
    pub open spec fn check_ok(&self, map_found: bool) -> bool {
        self.match_defaults.game.map_name is Some && map_found
    }

    /// Checks if the config is valid for use, and returns the possible
    /// error.  Checked before creating a lobby, as at that point it cannot
    /// be changed by the remote controller any more.  `map_found` reports
    /// whether the map lookup resolved the configured map name.
    pub fn check(&self, map_found: bool) -> (r: Result<(), String>)
        ensures
            r is Ok <==> self.check_ok(map_found),
            self.match_defaults.game.map_name is None ==> (r matches Err(e) && e@
                == "Missing map name"@),
            self.match_defaults.game.map_name is Some && !map_found ==> (r matches Err(e) && e@
                == "Map not found"@),
    {
        match self.match_defaults.game.map_name {
            None => Err(String::from_str("Missing map name")),
            Some(_) => {
                if map_found {
                    Ok(())
                } else {
                    Err(String::from_str("Map not found"))
                }
            },
        }
    }
}

impl Config {
    /// The boot-time rule for remote-controlled matchmaking: the mode
    /// works only with the remote-control endpoint enabled.
    pub fn remote_required_but_disabled(&self) -> (r: bool)
        ensures
            r == (self.matchmaking.mode == MatchmakingMode::RemoteController
                && !self.remote_controller.enabled),
    {
        match self.matchmaking.mode {
            MatchmakingMode::RemoteController => !self.remote_controller.enabled,
            _ => false,
        }
    }
}

/// Whether every debug command in a sequence is a pure drawing overlay.
pub open spec fn debug_all_draw(cmds: Seq<DebugCommand>) -> bool {
    forall|k: int| 0 <= k < cmds.len() ==> cmds[k] is Draw
}

/// What the access-control policy decides: with cheats disabled, a debug
/// request is allowed only if every command in it is a pure drawing
/// overlay; everything else is always allowed.
pub open spec fn spec_request_allowed(disable_cheats: bool, req: Req) -> bool {
    match req {
        Req::Debug(cmds) => !disable_cheats || debug_all_draw(cmds@),
        _ => true,
    }
}

impl RequestLimits {
    /// Checks if the limits here allow a particular request.  Pure and
    /// total: with `disable_cheats` unset it allows every request.
    pub fn is_request_allowed(&self, req: &Req) -> (r: bool)
        ensures
            r == spec_request_allowed(self.disable_cheats, *req),
            !self.disable_cheats ==> r,
    {
        if !self.disable_cheats {
            return true;
        }
        match req {
            Req::Debug(cmds) => {
                let mut k: usize = 0;
                while k < cmds.len()
                    invariant
                        k <= cmds@.len(),
                        *req == Req::Debug(*cmds),
                        self.disable_cheats,
                        forall|m: int| 0 <= m < k ==> cmds@[m] is Draw,
                    decreases cmds@.len() - k,
                {
                    match cmds[k] {
                        DebugCommand::Draw => {},
                        DebugCommand::Other => {
                            proof {
                                assert(cmds@[k as int] is Other);
                                assert(!debug_all_draw(cmds@));
                            }
                            return false;
                        },
                    }
                    k = k + 1;
                }
                true
            },
            _ => true,
        }
    }
}

} // verus!

verus! {

// ---------------------------------------------------------------------------
// Cloning
// ---------------------------------------------------------------------------

impl Clone for Proxy {
    fn clone(&self) -> (r: Self)
        ensures
            r == *self,
    {
        Proxy { host: self.host.clone(), port: self.port }
    }
}

impl Clone for RemoteController {
    fn clone(&self) -> (r: Self)
        ensures
            r == *self,
    {
        RemoteController { enabled: self.enabled, host: self.host.clone(), port: self.port }
    }
}

/// A copy of an optional string, equal to the original.
pub fn clone_opt_string(o: &Option<String>) -> (r: Option<String>)
    ensures
        r == *o,
{
    match o {
        Some(s) => Some(s.clone()),
        None => None,
    }
}

impl Clone for GameConfig {
    fn clone(&self) -> (r: Self)
        ensures
            r == *self,
    {
        GameConfig {
            map_name: clone_opt_string(&self.map_name),
            disable_fog: self.disable_fog,
            random_seed: self.random_seed,
            realtime: self.realtime,
            allowed_interfaces: self.allowed_interfaces,
        }
    }
}

impl Clone for RecordConfig {
    fn clone(&self) -> (r: Self)
        ensures
            r == *self,
    {
        RecordConfig {
            replay_path: clone_opt_string(&self.replay_path),
            end_score: self.end_score,
            score_history: self.score_history,
        }
    }
}

impl Clone for MatchConfig {
    fn clone(&self) -> (r: Self)
        ensures
            r == *self,
    {
        MatchConfig {
            game: self.game.clone(),
            request_limits: self.request_limits,
            time_limits: self.time_limits,
            record_results: self.record_results.clone(),
        }
    }
}

impl Clone for Config {
    fn clone(&self) -> (r: Self)
        ensures
            r == *self,
    {
        Config {
            proxy: self.proxy.clone(),
            process: self.process,
            matchmaking: self.matchmaking,
            match_defaults: self.match_defaults.clone(),
            remote_controller: self.remote_controller.clone(),
        }
    }
}

} // verus!
