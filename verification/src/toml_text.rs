//! A verified TOML codec for configurations: the canonical form the
//! server writes, and a parser for that form.  Fields appear in canonical
//! order under their table headers, one `key = value` per line; absent
//! optional fields are omitted.  Parsing recovers exactly what the
//! encoder wrote: the round-trip lemma at the end states it for every
//! configuration.

use vstd::prelude::*;

use crate::codec::at;
use crate::codec::is_ws;
use crate::codec::lemma_at_concat;
use crate::codec::lemma_at_index;
use crate::codec::quoted;
use crate::codec::skip_ws;
use crate::codec::spec_skip_ws;
use crate::config::{Config, ConfigV, ProxyV};
use crate::json::enc_bool;
use crate::json::enc_difficulty;
use crate::json::enc_mode;
use crate::json::enc_race;
use crate::json::enc_str;
use crate::json::enc_u64;
use crate::json::lemma_parse_bool_tok;
use crate::json::lemma_parse_difficulty;
use crate::json::lemma_parse_mode;
use crate::json::lemma_parse_race;
use crate::json::lemma_parse_str_tok;
use crate::json::lemma_parse_u16_tok;
use crate::json::lemma_parse_u64_tok;
use crate::json::parse_bool_tok;
use crate::json::parse_bool_tok_exec;
use crate::json::parse_difficulty;
use crate::json::parse_difficulty_exec;
use crate::json::parse_mode;
use crate::json::parse_mode_exec;
use crate::json::parse_race;
use crate::json::parse_race_exec;
use crate::json::parse_str_tok;
use crate::json::parse_str_tok_exec;
use crate::json::parse_u16_tok;
use crate::json::parse_u16_tok_exec;
use crate::json::parse_u64_tok;
use crate::json::parse_u64_tok_exec;
use crate::json::tok;
use crate::json::tok_exec;

verus! {

broadcast use vstd::string::group_string_axioms;

/// A literal parses after exactly one whitespace character.
pub proof fn lemma_tok_ws1(s: Seq<char>, i: int, t: Seq<char>)
    requires
        0 <= i < s.len(),
        is_ws(s[i]),
        at(s, i + 1, t),
        t.len() > 0,
        !is_ws(t[0]),
    ensures
        tok(s, i, t) == Some(i + 1 + t.len()),
{
    lemma_at_index(s, i + 1, t, 0);
    assert(spec_skip_ws(s, i) == spec_skip_ws(s, i + 1));
    assert(spec_skip_ws(s, i + 1) == i + 1);
}

// ---------------------------------------------------------------------------
// Sections
// ---------------------------------------------------------------------------

/// The `[proxy]` table.
#[verifier::opaque]
pub open spec fn enc_toml_proxy(x: ProxyV) -> Seq<char> {
    "[proxy]"@ + "\n"@ + "host = "@ + enc_str(x.host) + "\n"@ + "port = "@ + enc_u64(
        x.port as u64,
    ) + "\n"@
}

pub open spec fn parse_toml_proxy(s: Seq<char>, i: int) -> Option<(ProxyV, int)> {
    match tok(s, i, "[proxy]"@) {
        None => Some((ProxyV { host: "127.0.0.1"@, port: 8642 }, i)),
        Some(i1) => match (match tok(s, i1, "host = "@) {
            None => Some(("127.0.0.1"@, i1)),
            Some(j) => parse_str_tok(s, j),
        }) {
            None => None,
            Some((host, i2)) => match (match tok(s, i2, "port = "@) {
                None => Some((8642u16, i2)),
                Some(j) => parse_u16_tok(s, j),
            }) {
                None => None,
                Some((port, i3)) => Some((ProxyV { host, port }, i3)),
            },
        },
    }
}
/// The `[proxy]` table parses where the encoder wrote it; parsing ends
/// just before the final newline.
pub proof fn lemma_parse_toml_proxy(s: Seq<char>, i: int, j: int, x: ProxyV)
    requires
        spec_skip_ws(s, i) == j,
        at(s, j, enc_toml_proxy(x)),
    ensures
        parse_toml_proxy(s, i) == Some((x, j + enc_toml_proxy(x).len() - 1)),
{
    reveal(enc_toml_proxy);
    reveal_strlit("[proxy]");
    reveal_strlit("\n");
    reveal_strlit("host = ");
    reveal_strlit("port = ");
    let p6 = "[proxy]"@ + "\n"@ + "host = "@ + enc_str(x.host) + "\n"@ + "port = "@;
    lemma_at_concat(s, j, p6 + enc_u64(x.port as u64), "\n"@);
    lemma_at_concat(s, j, p6, enc_u64(x.port as u64));
    let p5 = "[proxy]"@ + "\n"@ + "host = "@ + enc_str(x.host) + "\n"@;
    lemma_at_concat(s, j, p5, "port = "@);
    let p4 = "[proxy]"@ + "\n"@ + "host = "@ + enc_str(x.host);
    lemma_at_concat(s, j, p4, "\n"@);
    let p3 = "[proxy]"@ + "\n"@ + "host = "@;
    lemma_at_concat(s, j, p3, enc_str(x.host));
    let p2 = "[proxy]"@ + "\n"@;
    lemma_at_concat(s, j, p2, "host = "@);
    lemma_at_concat(s, j, "[proxy]"@, "\n"@);
    lemma_at_index(s, j, "[proxy]"@, 0);
    assert(tok(s, i, "[proxy]"@) == Some(j + 7)) by {
        assert(spec_skip_ws(s, j) == j);
    }
    lemma_at_index(s, j + 7, "\n"@, 0);
    lemma_tok_ws1(s, j + 7, "host = "@);
    lemma_parse_str_tok(s, j + p3.len(), x.host);
    lemma_at_index(s, j + p4.len(), "\n"@, 0);
    lemma_tok_ws1(s, j + p4.len(), "port = "@);
    lemma_at_index(s, j + p6.len() + enc_u64(x.port as u64).len(), "\n"@, 0);
    lemma_parse_u16_tok(s, j + p6.len(), x.port);
}

} // verus!

verus! {

#[verifier::opaque]
pub open spec fn enc_toml_process(x: crate::config::ProcessOptions) -> Seq<char> {
    "[process]"@
        + "\n"@
        + "fullscreen = "@
        + enc_bool(x.fullscreen)
        + "\n"@
        + "verbose = "@
        + enc_bool(x.verbose)
        + "\n"@
}

pub open spec fn parse_toml_process(s: Seq<char>, i: int) -> Option<(crate::config::ProcessOptions, int)> {
    match tok(s, i, "[process]"@) {
        None => Some((crate::config::ProcessOptions { fullscreen: false, verbose: false }, i)),
        Some(i1) => match (match tok(s, i1, "fullscreen = "@) {
            None => Some((false, i1)),
            Some(j) => parse_bool_tok(s, j),
        }) {
            None => None,
            Some((f_fullscreen, i2)) => match (match tok(s, i2, "verbose = "@) {
                None => Some((false, i2)),
                Some(j) => parse_bool_tok(s, j),
            }) {
                None => None,
                Some((f_verbose, i3)) => Some(
                    (
                        crate::config::ProcessOptions {
                            fullscreen: f_fullscreen,
                            verbose: f_verbose,
                        },
                        i3,
                    ),
                ),
            },
        },
    }
}
#[verifier::rlimit(100)]
pub proof fn lemma_parse_toml_process(s: Seq<char>, i: int, j: int, x: crate::config::ProcessOptions)
    requires
        spec_skip_ws(s, i) == j,
        at(s, j, enc_toml_process(x)),
    ensures
        parse_toml_process(s, i) == Some((x, j + enc_toml_process(x).len() - 1)),
{
    reveal(enc_toml_process);
    reveal_strlit("[process]");
    reveal_strlit("\n");
    reveal_strlit("false");
    reveal_strlit("fullscreen = ");
    reveal_strlit("true");
    reveal_strlit("verbose = ");
    let p7 = "[process]"@ + "\n"@ + "fullscreen = "@ + enc_bool(x.fullscreen) + "\n"@ + "verbose = "@ + enc_bool(x.verbose);
    let p6 = "[process]"@ + "\n"@ + "fullscreen = "@ + enc_bool(x.fullscreen) + "\n"@ + "verbose = "@;
    let p5 = "[process]"@ + "\n"@ + "fullscreen = "@ + enc_bool(x.fullscreen) + "\n"@;
    let p4 = "[process]"@ + "\n"@ + "fullscreen = "@ + enc_bool(x.fullscreen);
    let p3 = "[process]"@ + "\n"@ + "fullscreen = "@;
    let p2 = "[process]"@ + "\n"@;
    let p1 = "[process]"@;
    lemma_at_concat(s, j, p7, "\n"@);
    lemma_at_concat(s, j, p6, enc_bool(x.verbose));
    lemma_at_concat(s, j, p5, "verbose = "@);
    lemma_at_concat(s, j, p4, "\n"@);
    lemma_at_concat(s, j, p3, enc_bool(x.fullscreen));
    lemma_at_concat(s, j, p2, "fullscreen = "@);
    lemma_at_concat(s, j, p1, "\n"@);
    lemma_at_index(s, j, "[process]"@, 0);
    assert(spec_skip_ws(s, j) == j);
    assert(tok(s, i, "[process]"@) == Some(j + "[process]"@.len()));
    lemma_at_index(s, j + p1.len(), "\n"@, 0);
    lemma_tok_ws1(s, j + p1.len(), "fullscreen = "@);
    lemma_parse_bool_tok(s, j + p3.len(), x.fullscreen);
    lemma_at_index(s, j + p4.len(), "\n"@, 0);
    lemma_tok_ws1(s, j + p4.len(), "verbose = "@);
    lemma_parse_bool_tok(s, j + p6.len(), x.verbose);
}

/// Parse this table in canonical form.
/// Parse this table in canonical form.
pub fn parse_toml_process_exec(s: &Vec<char>, i: usize) -> (r: Option<(crate::config::ProcessOptions, usize)>)
    requires
        i <= s@.len(),
    ensures
        r matches Some(p) ==> parse_toml_process(s@, i as int) == Some((p.0, p.1 as int)) && i <= p.1
            <= s@.len(),
        r is None ==> parse_toml_process(s@, i as int) is None,
{
    let i1 = match tok_exec(s, i, "[process]") {
        Some(j) => j,
        None => {
            return Some((crate::config::ProcessOptions { fullscreen: false, verbose: false }, i));
        },
    };
    let (f_fullscreen, i2) = match tok_exec(s, i1, "fullscreen = ") {
        None => (false, i1),
        Some(j) => match parse_bool_tok_exec(s, j) {
            Some(p) => p,
            None => {
                return None;
            },
        },
    };
    let (f_verbose, i3) = match tok_exec(s, i2, "verbose = ") {
        None => (false, i2),
        Some(j) => match parse_bool_tok_exec(s, j) {
            Some(p) => p,
            None => {
                return None;
            },
        },
    };
    Some((crate::config::ProcessOptions { fullscreen: f_fullscreen, verbose: f_verbose }, i3))
}
/// Append this table in canonical form.
#[verifier::rlimit(100)]
#[verifier::spinoff_prover]
pub fn push_toml_process(out: &mut Vec<char>, x: &crate::config::ProcessOptions)
    ensures
        final(out)@ == old(out)@ + enc_toml_process(*x),
{
    proof {
        reveal(enc_toml_process);
    }
    crate::codec::push_lit(out, "[process]");
    crate::codec::push_lit(out, "\n");
    crate::codec::push_lit(out, "fullscreen = ");
    crate::json::push_bool(out, x.fullscreen);
    crate::codec::push_lit(out, "\n");
    crate::codec::push_lit(out, "verbose = ");
    crate::json::push_bool(out, x.verbose);
    crate::codec::push_lit(out, "\n");
    assert(out@ =~= old(out)@ + enc_toml_process(*x));
}

#[verifier::opaque]
pub open spec fn enc_toml_matchmaking(x: crate::config::Matchmaking) -> Seq<char> {
    "[matchmaking]"@
        + "\n"@
        + "mode = "@
        + enc_mode(x.mode)
        + "\n"@
        + "cpu_difficulty = "@
        + enc_difficulty(x.cpu_difficulty)
        + "\n"@
        + "cpu_race = "@
        + enc_race(x.cpu_race)
        + "\n"@
}

pub open spec fn parse_toml_matchmaking(s: Seq<char>, i: int) -> Option<(crate::config::Matchmaking, int)> {
    match tok(s, i, "[matchmaking]"@) {
        None => Some(
            (
                crate::config::Matchmaking {
                    mode: crate::config::MatchmakingMode::Pairs,
                    cpu_difficulty: crate::sc2::Difficulty::Medium,
                    cpu_race: crate::sc2::Race::Random,
                },
                i,
            ),
        ),
        Some(i1) => match (match tok(s, i1, "mode = "@) {
            None => Some((crate::config::MatchmakingMode::Pairs, i1)),
            Some(j) => parse_mode(s, j),
        }) {
            None => None,
            Some((f_mode, i2)) => match (match tok(s, i2, "cpu_difficulty = "@) {
                None => Some((crate::sc2::Difficulty::Medium, i2)),
                Some(j) => parse_difficulty(s, j),
            }) {
                None => None,
                Some((f_cpu_difficulty, i3)) => match (match tok(s, i3, "cpu_race = "@) {
                    None => Some((crate::sc2::Race::Random, i3)),
                    Some(j) => parse_race(s, j),
                }) {
                    None => None,
                    Some((f_cpu_race, i4)) => Some(
                        (
                            crate::config::Matchmaking {
                                mode: f_mode,
                                cpu_difficulty: f_cpu_difficulty,
                                cpu_race: f_cpu_race,
                            },
                            i4,
                        ),
                    ),
                },
            },
        },
    }
}
#[verifier::rlimit(100)]
pub proof fn lemma_parse_toml_matchmaking(s: Seq<char>, i: int, j: int, x: crate::config::Matchmaking)
    requires
        spec_skip_ws(s, i) == j,
        at(s, j, enc_toml_matchmaking(x)),
    ensures
        parse_toml_matchmaking(s, i) == Some((x, j + enc_toml_matchmaking(x).len() - 1)),
{
    reveal(enc_toml_matchmaking);
    reveal_strlit("[matchmaking]");
    reveal_strlit("\n");
    reveal_strlit("cpu_difficulty = ");
    reveal_strlit("cpu_race = ");
    reveal_strlit("mode = ");
    let p10 = "[matchmaking]"@ + "\n"@ + "mode = "@ + enc_mode(x.mode) + "\n"@ + "cpu_difficulty = "@ + enc_difficulty(x.cpu_difficulty) + "\n"@ + "cpu_race = "@ + enc_race(x.cpu_race);
    let p9 = "[matchmaking]"@ + "\n"@ + "mode = "@ + enc_mode(x.mode) + "\n"@ + "cpu_difficulty = "@ + enc_difficulty(x.cpu_difficulty) + "\n"@ + "cpu_race = "@;
    let p8 = "[matchmaking]"@ + "\n"@ + "mode = "@ + enc_mode(x.mode) + "\n"@ + "cpu_difficulty = "@ + enc_difficulty(x.cpu_difficulty) + "\n"@;
    let p7 = "[matchmaking]"@ + "\n"@ + "mode = "@ + enc_mode(x.mode) + "\n"@ + "cpu_difficulty = "@ + enc_difficulty(x.cpu_difficulty);
    let p6 = "[matchmaking]"@ + "\n"@ + "mode = "@ + enc_mode(x.mode) + "\n"@ + "cpu_difficulty = "@;
    let p5 = "[matchmaking]"@ + "\n"@ + "mode = "@ + enc_mode(x.mode) + "\n"@;
    let p4 = "[matchmaking]"@ + "\n"@ + "mode = "@ + enc_mode(x.mode);
    let p3 = "[matchmaking]"@ + "\n"@ + "mode = "@;
    let p2 = "[matchmaking]"@ + "\n"@;
    let p1 = "[matchmaking]"@;
    lemma_at_concat(s, j, p10, "\n"@);
    lemma_at_concat(s, j, p9, enc_race(x.cpu_race));
    lemma_at_concat(s, j, p8, "cpu_race = "@);
    lemma_at_concat(s, j, p7, "\n"@);
    lemma_at_concat(s, j, p6, enc_difficulty(x.cpu_difficulty));
    lemma_at_concat(s, j, p5, "cpu_difficulty = "@);
    lemma_at_concat(s, j, p4, "\n"@);
    lemma_at_concat(s, j, p3, enc_mode(x.mode));
    lemma_at_concat(s, j, p2, "mode = "@);
    lemma_at_concat(s, j, p1, "\n"@);
    lemma_at_index(s, j, "[matchmaking]"@, 0);
    assert(spec_skip_ws(s, j) == j);
    assert(tok(s, i, "[matchmaking]"@) == Some(j + "[matchmaking]"@.len()));
    lemma_at_index(s, j + p1.len(), "\n"@, 0);
    lemma_tok_ws1(s, j + p1.len(), "mode = "@);
    lemma_parse_mode(s, j + p3.len(), x.mode);
    lemma_at_index(s, j + p4.len(), "\n"@, 0);
    lemma_tok_ws1(s, j + p4.len(), "cpu_difficulty = "@);
    lemma_parse_difficulty(s, j + p6.len(), x.cpu_difficulty);
    lemma_at_index(s, j + p7.len(), "\n"@, 0);
    lemma_tok_ws1(s, j + p7.len(), "cpu_race = "@);
    lemma_parse_race(s, j + p9.len(), x.cpu_race);
}

/// Parse this table in canonical form.
/// Parse this table in canonical form.
pub fn parse_toml_matchmaking_exec(s: &Vec<char>, i: usize) -> (r: Option<(crate::config::Matchmaking, usize)>)
    requires
        i <= s@.len(),
    ensures
        r matches Some(p) ==> parse_toml_matchmaking(s@, i as int) == Some((p.0, p.1 as int)) && i <= p.1
            <= s@.len(),
        r is None ==> parse_toml_matchmaking(s@, i as int) is None,
{
    let i1 = match tok_exec(s, i, "[matchmaking]") {
        Some(j) => j,
        None => {
            return Some(
                (
                    crate::config::Matchmaking {
                        mode: crate::config::MatchmakingMode::Pairs,
                        cpu_difficulty: crate::sc2::Difficulty::Medium,
                        cpu_race: crate::sc2::Race::Random,
                    },
                    i,
                ),
            );
        },
    };
    let (f_mode, i2) = match tok_exec(s, i1, "mode = ") {
        None => (crate::config::MatchmakingMode::Pairs, i1),
        Some(j) => match parse_mode_exec(s, j) {
            Some(p) => p,
            None => {
                return None;
            },
        },
    };
    let (f_cpu_difficulty, i3) = match tok_exec(s, i2, "cpu_difficulty = ") {
        None => (crate::sc2::Difficulty::Medium, i2),
        Some(j) => match parse_difficulty_exec(s, j) {
            Some(p) => p,
            None => {
                return None;
            },
        },
    };
    let (f_cpu_race, i4) = match tok_exec(s, i3, "cpu_race = ") {
        None => (crate::sc2::Race::Random, i3),
        Some(j) => match parse_race_exec(s, j) {
            Some(p) => p,
            None => {
                return None;
            },
        },
    };
    Some(
        (
            crate::config::Matchmaking {
                mode: f_mode,
                cpu_difficulty: f_cpu_difficulty,
                cpu_race: f_cpu_race,
            },
            i4,
        ),
    )
}
/// Append this table in canonical form.
#[verifier::rlimit(100)]
#[verifier::spinoff_prover]
pub fn push_toml_matchmaking(out: &mut Vec<char>, x: &crate::config::Matchmaking)
    ensures
        final(out)@ == old(out)@ + enc_toml_matchmaking(*x),
{
    proof {
        reveal(enc_toml_matchmaking);
    }
    crate::codec::push_lit(out, "[matchmaking]");
    crate::codec::push_lit(out, "\n");
    crate::codec::push_lit(out, "mode = ");
    crate::json::push_mode(out, &x.mode);
    crate::codec::push_lit(out, "\n");
    crate::codec::push_lit(out, "cpu_difficulty = ");
    crate::json::push_difficulty(out, &x.cpu_difficulty);
    crate::codec::push_lit(out, "\n");
    crate::codec::push_lit(out, "cpu_race = ");
    crate::json::push_race(out, &x.cpu_race);
    crate::codec::push_lit(out, "\n");
    assert(out@ =~= old(out)@ + enc_toml_matchmaking(*x));
}

#[verifier::opaque]
pub open spec fn enc_toml_allowed(x: crate::config::AllowedInterfaces) -> Seq<char> {
    "[match_defaults.game.allowed_interfaces]"@
        + "\n"@
        + "raw = "@
        + enc_bool(x.raw)
        + "\n"@
        + "score = "@
        + enc_bool(x.score)
        + "\n"@
        + "feature_layer = "@
        + enc_bool(x.feature_layer)
        + "\n"@
        + "render = "@
        + enc_bool(x.render)
        + "\n"@
}

pub open spec fn parse_toml_allowed(s: Seq<char>, i: int) -> Option<(crate::config::AllowedInterfaces, int)> {
    match tok(s, i, "[match_defaults.game.allowed_interfaces]"@) {
        None => Some(
            (
                crate::config::AllowedInterfaces {
                    raw: true,
                    score: true,
                    feature_layer: true,
                    render: false,
                },
                i,
            ),
        ),
        Some(i1) => match (match tok(s, i1, "raw = "@) {
            None => Some((true, i1)),
            Some(j) => parse_bool_tok(s, j),
        }) {
            None => None,
            Some((f_raw, i2)) => match (match tok(s, i2, "score = "@) {
                None => Some((true, i2)),
                Some(j) => parse_bool_tok(s, j),
            }) {
                None => None,
                Some((f_score, i3)) => match (match tok(s, i3, "feature_layer = "@) {
                    None => Some((true, i3)),
                    Some(j) => parse_bool_tok(s, j),
                }) {
                    None => None,
                    Some((f_feature_layer, i4)) => match (match tok(s, i4, "render = "@) {
                        None => Some((false, i4)),
                        Some(j) => parse_bool_tok(s, j),
                    }) {
                        None => None,
                        Some((f_render, i5)) => Some(
                            (
                                crate::config::AllowedInterfaces {
                                    raw: f_raw,
                                    score: f_score,
                                    feature_layer: f_feature_layer,
                                    render: f_render,
                                },
                                i5,
                            ),
                        ),
                    },
                },
            },
        },
    }
}
#[verifier::rlimit(100)]
pub proof fn lemma_parse_toml_allowed(s: Seq<char>, i: int, j: int, x: crate::config::AllowedInterfaces)
    requires
        spec_skip_ws(s, i) == j,
        at(s, j, enc_toml_allowed(x)),
    ensures
        parse_toml_allowed(s, i) == Some((x, j + enc_toml_allowed(x).len() - 1)),
{
    reveal(enc_toml_allowed);
    reveal_strlit("[match_defaults.game.allowed_interfaces]");
    reveal_strlit("\n");
    reveal_strlit("false");
    reveal_strlit("feature_layer = ");
    reveal_strlit("raw = ");
    reveal_strlit("render = ");
    reveal_strlit("score = ");
    reveal_strlit("true");
    let p13 = "[match_defaults.game.allowed_interfaces]"@ + "\n"@ + "raw = "@ + enc_bool(x.raw) + "\n"@ + "score = "@ + enc_bool(x.score) + "\n"@ + "feature_layer = "@ + enc_bool(x.feature_layer) + "\n"@ + "render = "@ + enc_bool(x.render);
    let p12 = "[match_defaults.game.allowed_interfaces]"@ + "\n"@ + "raw = "@ + enc_bool(x.raw) + "\n"@ + "score = "@ + enc_bool(x.score) + "\n"@ + "feature_layer = "@ + enc_bool(x.feature_layer) + "\n"@ + "render = "@;
    let p11 = "[match_defaults.game.allowed_interfaces]"@ + "\n"@ + "raw = "@ + enc_bool(x.raw) + "\n"@ + "score = "@ + enc_bool(x.score) + "\n"@ + "feature_layer = "@ + enc_bool(x.feature_layer) + "\n"@;
    let p10 = "[match_defaults.game.allowed_interfaces]"@ + "\n"@ + "raw = "@ + enc_bool(x.raw) + "\n"@ + "score = "@ + enc_bool(x.score) + "\n"@ + "feature_layer = "@ + enc_bool(x.feature_layer);
    let p9 = "[match_defaults.game.allowed_interfaces]"@ + "\n"@ + "raw = "@ + enc_bool(x.raw) + "\n"@ + "score = "@ + enc_bool(x.score) + "\n"@ + "feature_layer = "@;
    let p8 = "[match_defaults.game.allowed_interfaces]"@ + "\n"@ + "raw = "@ + enc_bool(x.raw) + "\n"@ + "score = "@ + enc_bool(x.score) + "\n"@;
    let p7 = "[match_defaults.game.allowed_interfaces]"@ + "\n"@ + "raw = "@ + enc_bool(x.raw) + "\n"@ + "score = "@ + enc_bool(x.score);
    let p6 = "[match_defaults.game.allowed_interfaces]"@ + "\n"@ + "raw = "@ + enc_bool(x.raw) + "\n"@ + "score = "@;
    let p5 = "[match_defaults.game.allowed_interfaces]"@ + "\n"@ + "raw = "@ + enc_bool(x.raw) + "\n"@;
    let p4 = "[match_defaults.game.allowed_interfaces]"@ + "\n"@ + "raw = "@ + enc_bool(x.raw);
    let p3 = "[match_defaults.game.allowed_interfaces]"@ + "\n"@ + "raw = "@;
    let p2 = "[match_defaults.game.allowed_interfaces]"@ + "\n"@;
    let p1 = "[match_defaults.game.allowed_interfaces]"@;
    lemma_at_concat(s, j, p13, "\n"@);
    lemma_at_concat(s, j, p12, enc_bool(x.render));
    lemma_at_concat(s, j, p11, "render = "@);
    lemma_at_concat(s, j, p10, "\n"@);
    lemma_at_concat(s, j, p9, enc_bool(x.feature_layer));
    lemma_at_concat(s, j, p8, "feature_layer = "@);
    lemma_at_concat(s, j, p7, "\n"@);
    lemma_at_concat(s, j, p6, enc_bool(x.score));
    lemma_at_concat(s, j, p5, "score = "@);
    lemma_at_concat(s, j, p4, "\n"@);
    lemma_at_concat(s, j, p3, enc_bool(x.raw));
    lemma_at_concat(s, j, p2, "raw = "@);
    lemma_at_concat(s, j, p1, "\n"@);
    lemma_at_index(s, j, "[match_defaults.game.allowed_interfaces]"@, 0);
    assert(spec_skip_ws(s, j) == j);
    assert(tok(s, i, "[match_defaults.game.allowed_interfaces]"@) == Some(j + "[match_defaults.game.allowed_interfaces]"@.len()));
    lemma_at_index(s, j + p1.len(), "\n"@, 0);
    lemma_tok_ws1(s, j + p1.len(), "raw = "@);
    lemma_parse_bool_tok(s, j + p3.len(), x.raw);
    lemma_at_index(s, j + p4.len(), "\n"@, 0);
    lemma_tok_ws1(s, j + p4.len(), "score = "@);
    lemma_parse_bool_tok(s, j + p6.len(), x.score);
    lemma_at_index(s, j + p7.len(), "\n"@, 0);
    lemma_tok_ws1(s, j + p7.len(), "feature_layer = "@);
    lemma_parse_bool_tok(s, j + p9.len(), x.feature_layer);
    lemma_at_index(s, j + p10.len(), "\n"@, 0);
    lemma_tok_ws1(s, j + p10.len(), "render = "@);
    lemma_parse_bool_tok(s, j + p12.len(), x.render);
}

/// Parse this table in canonical form.
/// Parse this table in canonical form.
pub fn parse_toml_allowed_exec(s: &Vec<char>, i: usize) -> (r: Option<(crate::config::AllowedInterfaces, usize)>)
    requires
        i <= s@.len(),
    ensures
        r matches Some(p) ==> parse_toml_allowed(s@, i as int) == Some((p.0, p.1 as int)) && i <= p.1
            <= s@.len(),
        r is None ==> parse_toml_allowed(s@, i as int) is None,
{
    let i1 = match tok_exec(s, i, "[match_defaults.game.allowed_interfaces]") {
        Some(j) => j,
        None => {
            return Some(
                (
                    crate::config::AllowedInterfaces {
                        raw: true,
                        score: true,
                        feature_layer: true,
                        render: false,
                    },
                    i,
                ),
            );
        },
    };
    let (f_raw, i2) = match tok_exec(s, i1, "raw = ") {
        None => (true, i1),
        Some(j) => match parse_bool_tok_exec(s, j) {
            Some(p) => p,
            None => {
                return None;
            },
        },
    };
    let (f_score, i3) = match tok_exec(s, i2, "score = ") {
        None => (true, i2),
        Some(j) => match parse_bool_tok_exec(s, j) {
            Some(p) => p,
            None => {
                return None;
            },
        },
    };
    let (f_feature_layer, i4) = match tok_exec(s, i3, "feature_layer = ") {
        None => (true, i3),
        Some(j) => match parse_bool_tok_exec(s, j) {
            Some(p) => p,
            None => {
                return None;
            },
        },
    };
    let (f_render, i5) = match tok_exec(s, i4, "render = ") {
        None => (false, i4),
        Some(j) => match parse_bool_tok_exec(s, j) {
            Some(p) => p,
            None => {
                return None;
            },
        },
    };
    Some(
        (
            crate::config::AllowedInterfaces {
                raw: f_raw,
                score: f_score,
                feature_layer: f_feature_layer,
                render: f_render,
            },
            i5,
        ),
    )
}
/// Append this table in canonical form.
#[verifier::rlimit(100)]
#[verifier::spinoff_prover]
pub fn push_toml_allowed(out: &mut Vec<char>, x: &crate::config::AllowedInterfaces)
    ensures
        final(out)@ == old(out)@ + enc_toml_allowed(*x),
{
    proof {
        reveal(enc_toml_allowed);
    }
    crate::codec::push_lit(out, "[match_defaults.game.allowed_interfaces]");
    crate::codec::push_lit(out, "\n");
    crate::codec::push_lit(out, "raw = ");
    crate::json::push_bool(out, x.raw);
    crate::codec::push_lit(out, "\n");
    crate::codec::push_lit(out, "score = ");
    crate::json::push_bool(out, x.score);
    crate::codec::push_lit(out, "\n");
    crate::codec::push_lit(out, "feature_layer = ");
    crate::json::push_bool(out, x.feature_layer);
    crate::codec::push_lit(out, "\n");
    crate::codec::push_lit(out, "render = ");
    crate::json::push_bool(out, x.render);
    crate::codec::push_lit(out, "\n");
    assert(out@ =~= old(out)@ + enc_toml_allowed(*x));
}

#[verifier::opaque]
pub open spec fn enc_toml_reqlimits(x: crate::config::RequestLimits) -> Seq<char> {
    "[match_defaults.request_limits]"@
        + "\n"@
        + "disable_cheats = "@
        + enc_bool(x.disable_cheats)
        + "\n"@
}

pub open spec fn parse_toml_reqlimits(s: Seq<char>, i: int) -> Option<(crate::config::RequestLimits, int)> {
    match tok(s, i, "[match_defaults.request_limits]"@) {
        None => Some((crate::config::RequestLimits { disable_cheats: false }, i)),
        Some(i1) => match (match tok(s, i1, "disable_cheats = "@) {
            None => Some((false, i1)),
            Some(j) => parse_bool_tok(s, j),
        }) {
            None => None,
            Some((f_disable_cheats, i2)) => Some(
                (crate::config::RequestLimits { disable_cheats: f_disable_cheats }, i2),
            ),
        },
    }
}
#[verifier::rlimit(100)]
pub proof fn lemma_parse_toml_reqlimits(s: Seq<char>, i: int, j: int, x: crate::config::RequestLimits)
    requires
        spec_skip_ws(s, i) == j,
        at(s, j, enc_toml_reqlimits(x)),
    ensures
        parse_toml_reqlimits(s, i) == Some((x, j + enc_toml_reqlimits(x).len() - 1)),
{
    reveal(enc_toml_reqlimits);
    reveal_strlit("[match_defaults.request_limits]");
    reveal_strlit("\n");
    reveal_strlit("disable_cheats = ");
    reveal_strlit("false");
    reveal_strlit("true");
    let p4 = "[match_defaults.request_limits]"@ + "\n"@ + "disable_cheats = "@ + enc_bool(x.disable_cheats);
    let p3 = "[match_defaults.request_limits]"@ + "\n"@ + "disable_cheats = "@;
    let p2 = "[match_defaults.request_limits]"@ + "\n"@;
    let p1 = "[match_defaults.request_limits]"@;
    lemma_at_concat(s, j, p4, "\n"@);
    lemma_at_concat(s, j, p3, enc_bool(x.disable_cheats));
    lemma_at_concat(s, j, p2, "disable_cheats = "@);
    lemma_at_concat(s, j, p1, "\n"@);
    lemma_at_index(s, j, "[match_defaults.request_limits]"@, 0);
    assert(spec_skip_ws(s, j) == j);
    assert(tok(s, i, "[match_defaults.request_limits]"@) == Some(j + "[match_defaults.request_limits]"@.len()));
    lemma_at_index(s, j + p1.len(), "\n"@, 0);
    lemma_tok_ws1(s, j + p1.len(), "disable_cheats = "@);
    lemma_parse_bool_tok(s, j + p3.len(), x.disable_cheats);
}

/// Parse this table in canonical form.
/// Parse this table in canonical form.
pub fn parse_toml_reqlimits_exec(s: &Vec<char>, i: usize) -> (r: Option<(crate::config::RequestLimits, usize)>)
    requires
        i <= s@.len(),
    ensures
        r matches Some(p) ==> parse_toml_reqlimits(s@, i as int) == Some((p.0, p.1 as int)) && i <= p.1
            <= s@.len(),
        r is None ==> parse_toml_reqlimits(s@, i as int) is None,
{
    let i1 = match tok_exec(s, i, "[match_defaults.request_limits]") {
        Some(j) => j,
        None => {
            return Some((crate::config::RequestLimits { disable_cheats: false }, i));
        },
    };
    let (f_disable_cheats, i2) = match tok_exec(s, i1, "disable_cheats = ") {
        None => (false, i1),
        Some(j) => match parse_bool_tok_exec(s, j) {
            Some(p) => p,
            None => {
                return None;
            },
        },
    };
    Some((crate::config::RequestLimits { disable_cheats: f_disable_cheats }, i2))
}
/// Append this table in canonical form.
#[verifier::rlimit(100)]
#[verifier::spinoff_prover]
pub fn push_toml_reqlimits(out: &mut Vec<char>, x: &crate::config::RequestLimits)
    ensures
        final(out)@ == old(out)@ + enc_toml_reqlimits(*x),
{
    proof {
        reveal(enc_toml_reqlimits);
    }
    crate::codec::push_lit(out, "[match_defaults.request_limits]");
    crate::codec::push_lit(out, "\n");
    crate::codec::push_lit(out, "disable_cheats = ");
    crate::json::push_bool(out, x.disable_cheats);
    crate::codec::push_lit(out, "\n");
    assert(out@ =~= old(out)@ + enc_toml_reqlimits(*x));
}

#[verifier::opaque]
pub open spec fn enc_toml_remctl(x: crate::config::RemoteControllerV) -> Seq<char> {
    "[remote_controller]"@
        + "\n"@
        + "enabled = "@
        + enc_bool(x.enabled)
        + "\n"@
        + "host = "@
        + enc_str(x.host)
        + "\n"@
        + "port = "@
        + enc_u64(x.port as u64)
        + "\n"@
}

pub open spec fn parse_toml_remctl(s: Seq<char>, i: int) -> Option<(crate::config::RemoteControllerV, int)> {
    match tok(s, i, "[remote_controller]"@) {
        None => Some(
            (
                crate::config::RemoteControllerV {
                    enabled: true,
                    host: "127.0.0.1"@,
                    port: 2468,
                },
                i,
            ),
        ),
        Some(i1) => match (match tok(s, i1, "enabled = "@) {
            None => Some((true, i1)),
            Some(j) => parse_bool_tok(s, j),
        }) {
            None => None,
            Some((f_enabled, i2)) => match (match tok(s, i2, "host = "@) {
                None => Some(("127.0.0.1"@, i2)),
                Some(j) => parse_str_tok(s, j),
            }) {
                None => None,
                Some((f_host, i3)) => match (match tok(s, i3, "port = "@) {
                    None => Some((2468u16, i3)),
                    Some(j) => parse_u16_tok(s, j),
                }) {
                    None => None,
                    Some((f_port, i4)) => Some(
                        (
                            crate::config::RemoteControllerV {
                                enabled: f_enabled,
                                host: f_host,
                                port: f_port,
                            },
                            i4,
                        ),
                    ),
                },
            },
        },
    }
}
#[verifier::rlimit(100)]
pub proof fn lemma_parse_toml_remctl(s: Seq<char>, i: int, j: int, x: crate::config::RemoteControllerV)
    requires
        spec_skip_ws(s, i) == j,
        at(s, j, enc_toml_remctl(x)),
    ensures
        parse_toml_remctl(s, i) == Some((x, j + enc_toml_remctl(x).len() - 1)),
{
    reveal(enc_toml_remctl);
    reveal_strlit("[remote_controller]");
    reveal_strlit("\n");
    reveal_strlit("enabled = ");
    reveal_strlit("false");
    reveal_strlit("host = ");
    reveal_strlit("port = ");
    reveal_strlit("true");
    let p10 = "[remote_controller]"@ + "\n"@ + "enabled = "@ + enc_bool(x.enabled) + "\n"@ + "host = "@ + enc_str(x.host) + "\n"@ + "port = "@ + enc_u64(x.port as u64);
    let p9 = "[remote_controller]"@ + "\n"@ + "enabled = "@ + enc_bool(x.enabled) + "\n"@ + "host = "@ + enc_str(x.host) + "\n"@ + "port = "@;
    let p8 = "[remote_controller]"@ + "\n"@ + "enabled = "@ + enc_bool(x.enabled) + "\n"@ + "host = "@ + enc_str(x.host) + "\n"@;
    let p7 = "[remote_controller]"@ + "\n"@ + "enabled = "@ + enc_bool(x.enabled) + "\n"@ + "host = "@ + enc_str(x.host);
    let p6 = "[remote_controller]"@ + "\n"@ + "enabled = "@ + enc_bool(x.enabled) + "\n"@ + "host = "@;
    let p5 = "[remote_controller]"@ + "\n"@ + "enabled = "@ + enc_bool(x.enabled) + "\n"@;
    let p4 = "[remote_controller]"@ + "\n"@ + "enabled = "@ + enc_bool(x.enabled);
    let p3 = "[remote_controller]"@ + "\n"@ + "enabled = "@;
    let p2 = "[remote_controller]"@ + "\n"@;
    let p1 = "[remote_controller]"@;
    lemma_at_concat(s, j, p10, "\n"@);
    lemma_at_concat(s, j, p9, enc_u64(x.port as u64));
    lemma_at_concat(s, j, p8, "port = "@);
    lemma_at_concat(s, j, p7, "\n"@);
    lemma_at_concat(s, j, p6, enc_str(x.host));
    lemma_at_concat(s, j, p5, "host = "@);
    lemma_at_concat(s, j, p4, "\n"@);
    lemma_at_concat(s, j, p3, enc_bool(x.enabled));
    lemma_at_concat(s, j, p2, "enabled = "@);
    lemma_at_concat(s, j, p1, "\n"@);
    lemma_at_index(s, j, "[remote_controller]"@, 0);
    assert(spec_skip_ws(s, j) == j);
    assert(tok(s, i, "[remote_controller]"@) == Some(j + "[remote_controller]"@.len()));
    lemma_at_index(s, j + p1.len(), "\n"@, 0);
    lemma_tok_ws1(s, j + p1.len(), "enabled = "@);
    lemma_parse_bool_tok(s, j + p3.len(), x.enabled);
    lemma_at_index(s, j + p4.len(), "\n"@, 0);
    lemma_tok_ws1(s, j + p4.len(), "host = "@);
    lemma_parse_str_tok(s, j + p6.len(), x.host);
    lemma_at_index(s, j + p7.len(), "\n"@, 0);
    lemma_tok_ws1(s, j + p7.len(), "port = "@);
    lemma_at_index(s, j + p10.len(), "\n"@, 0);
    lemma_parse_u16_tok(s, j + p9.len(), x.port);
}

/// Parse this table in canonical form.
/// Parse this table in canonical form.
pub fn parse_toml_remctl_exec(s: &Vec<char>, i: usize) -> (r: Option<(crate::config::RemoteController, usize)>)
    requires
        i <= s@.len(),
    ensures
        r matches Some(p) ==> parse_toml_remctl(s@, i as int) == Some((p.0@, p.1 as int)) && i <= p.1
            <= s@.len(),
        r is None ==> parse_toml_remctl(s@, i as int) is None,
{
    let i1 = match tok_exec(s, i, "[remote_controller]") {
        Some(j) => j,
        None => {
            return Some(
                (
                    crate::config::RemoteController {
                        enabled: true,
                        host: String::from_str("127.0.0.1"),
                        port: 2468,
                    },
                    i,
                ),
            );
        },
    };
    let (f_enabled, i2) = match tok_exec(s, i1, "enabled = ") {
        None => (true, i1),
        Some(j) => match parse_bool_tok_exec(s, j) {
            Some(p) => p,
            None => {
                return None;
            },
        },
    };
    let (f_host, i3) = match tok_exec(s, i2, "host = ") {
        None => (String::from_str("127.0.0.1"), i2),
        Some(j) => match parse_str_tok_exec(s, j) {
            Some(p) => (crate::codec::string_from_chars(&p.0), p.1),
            None => {
                return None;
            },
        },
    };
    let (f_port, i4) = match tok_exec(s, i3, "port = ") {
        None => (2468u16, i3),
        Some(j) => match parse_u16_tok_exec(s, j) {
            Some(p) => p,
            None => {
                return None;
            },
        },
    };
    Some(
        (
            crate::config::RemoteController { enabled: f_enabled, host: f_host, port: f_port },
            i4,
        ),
    )
}
/// Append this table in canonical form.
#[verifier::rlimit(100)]
#[verifier::spinoff_prover]
pub fn push_toml_remctl(out: &mut Vec<char>, x: &crate::config::RemoteController)
    ensures
        final(out)@ == old(out)@ + enc_toml_remctl(x@),
{
    proof {
        reveal(enc_toml_remctl);
    }
    crate::codec::push_lit(out, "[remote_controller]");
    crate::codec::push_lit(out, "\n");
    crate::codec::push_lit(out, "enabled = ");
    crate::json::push_bool(out, x.enabled);
    crate::codec::push_lit(out, "\n");
    crate::codec::push_lit(out, "host = ");
    crate::json::push_string(out, &x.host);
    crate::codec::push_lit(out, "\n");
    crate::codec::push_lit(out, "port = ");
    crate::codec::push_dec_u64(out, x.port as u64);
    crate::codec::push_lit(out, "\n");
    assert(out@ =~= old(out)@ + enc_toml_remctl(x@));
}

} // verus!

verus! {

// ---------------------------------------------------------------------------
// Optional fields
// ---------------------------------------------------------------------------

pub open spec fn parse_toml_map_name(s: Seq<char>, i: int) -> Option<(Option<Seq<char>>, int)> {
    match tok(s, i, "map_name = "@) {
        None => Some((None, i)),
        Some(i1) => match parse_str_tok(s, i1) {
            None => None,
            Some((v, i2)) => Some((Some(v), i2)),
        },
    }
}

pub open spec fn parse_toml_random_seed(s: Seq<char>, i: int) -> Option<(Option<u32>, int)> {
    match tok(s, i, "random_seed = "@) {
        None => Some((None, i)),
        Some(i1) => match crate::json::parse_u32_tok(s, i1) {
            None => None,
            Some((v, i2)) => Some((Some(v), i2)),
        },
    }
}

pub open spec fn parse_toml_game_loops(s: Seq<char>, i: int) -> Option<(Option<u64>, int)> {
    match tok(s, i, "game_loops = "@) {
        None => Some((None, i)),
        Some(i1) => match parse_u64_tok(s, i1) {
            None => None,
            Some((v, i2)) => Some((Some(v), i2)),
        },
    }
}

pub open spec fn parse_toml_replay_path(s: Seq<char>, i: int) -> Option<
    (Option<Seq<char>>, int),
> {
    match tok(s, i, "replay_path = "@) {
        None => Some((None, i)),
        Some(i1) => match parse_str_tok(s, i1) {
            None => None,
            Some((v, i2)) => Some((Some(v), i2)),
        },
    }
}

/// A skipped optional key parses as absent when the text after the
/// newline starts differently from the key.
proof fn lemma_toml_opt_absent(s: Seq<char>, i: int, key: Seq<char>, nxt: Seq<char>, d: int)
    requires
        0 <= i < s.len(),
        is_ws(s[i]),
        at(s, i + 1, nxt) || i + 1 == s.len(),
        i + 1 == s.len() || (nxt.len() > 0 && !is_ws(nxt[0])),
        0 <= d < key.len(),
        i + 1 == s.len() || (d < nxt.len() && nxt[d] != key[d]),
        i + 1 == s.len() || i + 1 + key.len() > s.len() || d < nxt.len(),
    ensures
        tok(s, i, key) is None || spec_skip_ws(s, i) == i + 1,
        at(s, i + 1, nxt) && d < nxt.len() && nxt[d] != key[d] ==> !at(s, i + 1, key),
{
    if i + 1 == s.len() {
        assert(spec_skip_ws(s, i) == spec_skip_ws(s, i + 1));
        assert(spec_skip_ws(s, i + 1) == i + 1);
    } else {
        assert(at(s, i + 1, nxt) && nxt.len() > 0 && !is_ws(nxt[0]));
        lemma_at_index(s, i + 1, nxt, 0);
        assert(spec_skip_ws(s, i) == spec_skip_ws(s, i + 1));
        assert(spec_skip_ws(s, i + 1) == i + 1);
        if d < nxt.len() && nxt[d] != key[d] && at(s, i + 1, key) {
            lemma_at_index(s, i + 1, key, d);
            lemma_at_index(s, i + 1, nxt, d);
        }
    }
}

// ---------------------------------------------------------------------------
// Tables with optional fields
// ---------------------------------------------------------------------------

/// The `[match_defaults.game]` table, without the nested
/// allowed-interfaces table.
#[verifier::opaque]
pub open spec fn enc_toml_game(
    map_name: Option<Seq<char>>,
    disable_fog: bool,
    random_seed: Option<u32>,
    realtime: bool,
) -> Seq<char> {
    "[match_defaults.game]"@ + "\n"@ + (match map_name {
        None => Seq::<char>::empty(),
        Some(v) => "map_name = "@ + quoted(v) + "\n"@,
    }) + "disable_fog = "@ + enc_bool(disable_fog) + "\n"@ + (match random_seed {
        None => Seq::<char>::empty(),
        Some(v) => "random_seed = "@ + enc_u64(v as u64) + "\n"@,
    }) + "realtime = "@ + enc_bool(realtime) + "\n"@
}

pub open spec fn parse_toml_game(s: Seq<char>, i: int) -> Option<
    ((Option<Seq<char>>, bool, Option<u32>, bool), int),
> {
    match tok(s, i, "[match_defaults.game]"@) {
        None => Some(((None, false, None, false), i)),
        Some(i1) => match parse_toml_map_name(s, i1) {
            None => None,
            Some((map_name, i2)) => match (match tok(s, i2, "disable_fog = "@) {
                None => Some((false, i2)),
                Some(j) => parse_bool_tok(s, j),
            }) {
                None => None,
                Some((fog, i3)) => match parse_toml_random_seed(s, i3) {
                    None => None,
                    Some((seed, i4)) => match (match tok(s, i4, "realtime = "@) {
                        None => Some((false, i4)),
                        Some(j) => parse_bool_tok(s, j),
                    }) {
                        None => None,
                        Some((rt, i5)) => Some(((map_name, fog, seed, rt), i5)),
                    },
                },
            },
        },
    }
}
#[verifier::rlimit(100)]
#[verifier::spinoff_prover]
pub proof fn lemma_parse_toml_game(
    s: Seq<char>,
    i: int,
    j: int,
    map_name: Option<Seq<char>>,
    disable_fog: bool,
    random_seed: Option<u32>,
    realtime: bool,
)
    requires
        spec_skip_ws(s, i) == j,
        at(s, j, enc_toml_game(map_name, disable_fog, random_seed, realtime)),
    ensures
        parse_toml_game(s, i) == Some(
            (
                (map_name, disable_fog, random_seed, realtime),
                j + enc_toml_game(map_name, disable_fog, random_seed, realtime).len() - 1,
            ),
        ),
{
    reveal(enc_toml_game);
    reveal_strlit("[match_defaults.game]");
    reveal_strlit("\n");
    reveal_strlit("map_name = ");
    reveal_strlit("disable_fog = ");
    reveal_strlit("random_seed = ");
    reveal_strlit("realtime = ");
    reveal_strlit("true");
    reveal_strlit("false");
    let hdr = "[match_defaults.game]"@;
    let mp = (match map_name {
        None => Seq::<char>::empty(),
        Some(v) => "map_name = "@ + quoted(v) + "\n"@,
    });
    let sp = (match random_seed {
        None => Seq::<char>::empty(),
        Some(v) => "random_seed = "@ + enc_u64(v as u64) + "\n"@,
    });
    let p8 = hdr + "\n"@ + mp + "disable_fog = "@ + enc_bool(disable_fog) + "\n"@ + sp
        + "realtime = "@ + enc_bool(realtime);
    lemma_at_concat(s, j, p8, "\n"@);
    let p7 = hdr + "\n"@ + mp + "disable_fog = "@ + enc_bool(disable_fog) + "\n"@ + sp
        + "realtime = "@;
    lemma_at_concat(s, j, p7, enc_bool(realtime));
    let p6 = hdr + "\n"@ + mp + "disable_fog = "@ + enc_bool(disable_fog) + "\n"@ + sp;
    lemma_at_concat(s, j, p6, "realtime = "@);
    let p5 = hdr + "\n"@ + mp + "disable_fog = "@ + enc_bool(disable_fog) + "\n"@;
    lemma_at_concat(s, j, p5, sp);
    let p4 = hdr + "\n"@ + mp + "disable_fog = "@ + enc_bool(disable_fog);
    lemma_at_concat(s, j, p4, "\n"@);
    let p3b = hdr + "\n"@ + mp + "disable_fog = "@;
    lemma_at_concat(s, j, p3b, enc_bool(disable_fog));
    let p3 = hdr + "\n"@ + mp;
    lemma_at_concat(s, j, p3, "disable_fog = "@);
    let p2 = hdr + "\n"@;
    lemma_at_concat(s, j, p2, mp);
    lemma_at_concat(s, j, hdr, "\n"@);
    lemma_at_index(s, j, hdr, 0);
    assert(spec_skip_ws(s, j) == j);
    assert(tok(s, i, hdr) == Some(j + hdr.len()));
    let i1 = j + hdr.len();
    lemma_at_index(s, i1, "\n"@, 0);
    // optional map name
    let i2 = j + p3.len();
    match map_name {
        Some(v) => {
            assert(mp =~= ("map_name = "@ + quoted(v)) + "\n"@);
            lemma_at_concat(s, i1 + 1, "map_name = "@ + quoted(v), "\n"@);
            lemma_at_concat(s, i1 + 1, "map_name = "@, quoted(v));
            lemma_tok_ws1(s, i1, "map_name = "@);
            lemma_parse_str_tok(s, i1 + 1 + "map_name = "@.len(), v);
            assert(parse_toml_map_name(s, i1) == Some((map_name, i2 - 1)));
            lemma_at_index(s, i2 - 1, "\n"@, 0);
            lemma_tok_ws1(s, i2 - 1, "disable_fog = "@);
        },
        None => {
            assert(mp =~= Seq::<char>::empty());
            lemma_toml_opt_absent(s, i1, "map_name = "@, "disable_fog = "@, 0);
            assert(!at(s, i1 + 1, "map_name = "@));
            assert(tok(s, i1, "map_name = "@) is None);
            assert(parse_toml_map_name(s, i1) == Some((map_name, i1)));
            lemma_tok_ws1(s, i1, "disable_fog = "@);
            assert(i2 - 1 == i1);
        },
    }
    // disable_fog value
    lemma_parse_bool_tok(s, j + p3.len() + "disable_fog = "@.len(), disable_fog);
    let i4 = j + p4.len();
    lemma_at_index(s, i4, "\n"@, 0);
    // optional random seed
    let i5 = j + p5.len() + sp.len();
    match random_seed {
        Some(v) => {
            assert(sp =~= ("random_seed = "@ + enc_u64(v as u64)) + "\n"@);
            lemma_at_concat(s, i4 + 1, "random_seed = "@ + enc_u64(v as u64), "\n"@);
            lemma_at_concat(s, i4 + 1, "random_seed = "@, enc_u64(v as u64));
            lemma_tok_ws1(s, i4, "random_seed = "@);
            lemma_at_index(s, i4 + 1 + "random_seed = "@.len() + enc_u64(v as u64).len(), "\n"@, 0);
            crate::json::lemma_parse_u32_tok(s, i4 + 1 + "random_seed = "@.len(), v);
            assert(parse_toml_random_seed(s, i4) == Some((random_seed, i5 - 1)));
            lemma_at_index(s, i5 - 1, "\n"@, 0);
            lemma_tok_ws1(s, i5 - 1, "realtime = "@);
        },
        None => {
            assert(sp =~= Seq::<char>::empty());
            lemma_toml_opt_absent(s, i4, "random_seed = "@, "realtime = "@, 1);
            assert(!at(s, i4 + 1, "random_seed = "@));
            assert(tok(s, i4, "random_seed = "@) is None);
            assert(parse_toml_random_seed(s, i4) == Some((random_seed, i4)));
            lemma_tok_ws1(s, i4, "realtime = "@);
            assert(i5 - 1 == i4);
        },
    }
    // realtime value
    lemma_parse_bool_tok(s, j + p7.len(), realtime);
}

/// The `[match_defaults.time_limits]` table.
#[verifier::opaque]
pub open spec fn enc_toml_timelimits(t: crate::config::TimeLimits) -> Seq<char> {
    "[match_defaults.time_limits]"@ + "\n"@ + (match t.game_loops {
        None => Seq::<char>::empty(),
        Some(v) => "game_loops = "@ + enc_u64(v) + "\n"@,
    })
}

pub open spec fn parse_toml_timelimits(s: Seq<char>, i: int) -> Option<
    (crate::config::TimeLimits, int),
> {
    match tok(s, i, "[match_defaults.time_limits]"@) {
        None => Some((crate::config::TimeLimits { game_loops: None }, i)),
        Some(i1) => match parse_toml_game_loops(s, i1) {
            None => None,
            Some((v, i2)) => Some((crate::config::TimeLimits { game_loops: v }, i2)),
        },
    }
}
/// Parsing ends just before the final newline; what follows the table in
/// the input must be the next table header or the end of the input.
#[verifier::rlimit(100)]
pub proof fn lemma_parse_toml_timelimits(s: Seq<char>, i: int, j: int, t: crate::config::TimeLimits)
    requires
        spec_skip_ws(s, i) == j,
        at(s, j, enc_toml_timelimits(t)),
        j + enc_toml_timelimits(t).len() == s.len() || s[j + enc_toml_timelimits(t).len()] == '[',
    ensures
        parse_toml_timelimits(s, i) == Some((t, j + enc_toml_timelimits(t).len() - 1)),
{
    reveal(enc_toml_timelimits);
    reveal_strlit("[match_defaults.time_limits]");
    reveal_strlit("\n");
    reveal_strlit("game_loops = ");
    let hdr = "[match_defaults.time_limits]"@;
    let gp = (match t.game_loops {
        None => Seq::<char>::empty(),
        Some(v) => "game_loops = "@ + enc_u64(v) + "\n"@,
    });
    lemma_at_concat(s, j, hdr + "\n"@, gp);
    lemma_at_concat(s, j, hdr, "\n"@);
    lemma_at_index(s, j, hdr, 0);
    assert(spec_skip_ws(s, j) == j);
    assert(tok(s, i, hdr) == Some(j + hdr.len()));
    let i1 = j + hdr.len();
    lemma_at_index(s, i1, "\n"@, 0);
    match t.game_loops {
        Some(v) => {
            assert(gp =~= ("game_loops = "@ + enc_u64(v)) + "\n"@);
            lemma_at_concat(s, i1 + 1, "game_loops = "@ + enc_u64(v), "\n"@);
            lemma_at_concat(s, i1 + 1, "game_loops = "@, enc_u64(v));
            lemma_tok_ws1(s, i1, "game_loops = "@);
            lemma_at_index(s, i1 + 1 + "game_loops = "@.len() + enc_u64(v).len(), "\n"@, 0);
            lemma_parse_u64_tok(s, i1 + 1 + "game_loops = "@.len(), v);
        },
        None => {
            assert(gp =~= Seq::<char>::empty());
            assert(tok(s, i1, "game_loops = "@) is None) by {
                assert(spec_skip_ws(s, i1) == spec_skip_ws(s, i1 + 1));
                if i1 + 1 == s.len() {
                    assert(spec_skip_ws(s, i1 + 1) == i1 + 1);
                    assert(!at(s, spec_skip_ws(s, i1), "game_loops = "@));
                } else {
                    assert(s[i1 + 1] == '[');
                    assert(spec_skip_ws(s, i1 + 1) == i1 + 1);
                    if at(s, i1 + 1, "game_loops = "@) {
                        lemma_at_index(s, i1 + 1, "game_loops = "@, 0);
                    }
                }
            }
        },
    }
}

/// The `[match_defaults.record_results]` table.
#[verifier::opaque]
pub open spec fn enc_toml_record(x: crate::config::RecordConfigV) -> Seq<char> {
    "[match_defaults.record_results]"@ + "\n"@ + (match x.replay_path {
        None => Seq::<char>::empty(),
        Some(v) => "replay_path = "@ + quoted(v) + "\n"@,
    }) + "end_score = "@ + enc_bool(x.end_score) + "\n"@ + "score_history = "@ + enc_bool(
        x.score_history,
    ) + "\n"@
}

pub open spec fn parse_toml_record(s: Seq<char>, i: int) -> Option<
    (crate::config::RecordConfigV, int),
> {
    match tok(s, i, "[match_defaults.record_results]"@) {
        None => Some(
            (
                crate::config::RecordConfigV {
                    replay_path: None,
                    end_score: false,
                    score_history: false,
                },
                i,
            ),
        ),
        Some(i1) => match parse_toml_replay_path(s, i1) {
            None => None,
            Some((rp, i2)) => match (match tok(s, i2, "end_score = "@) {
                None => Some((false, i2)),
                Some(j) => parse_bool_tok(s, j),
            }) {
                None => None,
                Some((es, i3)) => match (match tok(s, i3, "score_history = "@) {
                    None => Some((false, i3)),
                    Some(j) => parse_bool_tok(s, j),
                }) {
                    None => None,
                    Some((sh, i4)) => Some(
                        (
                            crate::config::RecordConfigV {
                                replay_path: rp,
                                end_score: es,
                                score_history: sh,
                            },
                            i4,
                        ),
                    ),
                },
            },
        },
    }
}
#[verifier::rlimit(100)]
#[verifier::spinoff_prover]
pub proof fn lemma_parse_toml_record(s: Seq<char>, i: int, j: int, x: crate::config::RecordConfigV)
    requires
        spec_skip_ws(s, i) == j,
        at(s, j, enc_toml_record(x)),
    ensures
        parse_toml_record(s, i) == Some((x, j + enc_toml_record(x).len() - 1)),
{
    reveal(enc_toml_record);
    reveal_strlit("[match_defaults.record_results]");
    reveal_strlit("\n");
    reveal_strlit("replay_path = ");
    reveal_strlit("end_score = ");
    reveal_strlit("score_history = ");
    reveal_strlit("true");
    reveal_strlit("false");
    let hdr = "[match_defaults.record_results]"@;
    let rp = (match x.replay_path {
        None => Seq::<char>::empty(),
        Some(v) => "replay_path = "@ + quoted(v) + "\n"@,
    });
    let p7 = hdr + "\n"@ + rp + "end_score = "@ + enc_bool(x.end_score) + "\n"@
        + "score_history = "@ + enc_bool(x.score_history);
    lemma_at_concat(s, j, p7, "\n"@);
    let p6 = hdr + "\n"@ + rp + "end_score = "@ + enc_bool(x.end_score) + "\n"@
        + "score_history = "@;
    lemma_at_concat(s, j, p6, enc_bool(x.score_history));
    let p5 = hdr + "\n"@ + rp + "end_score = "@ + enc_bool(x.end_score) + "\n"@;
    lemma_at_concat(s, j, p5, "score_history = "@);
    let p4 = hdr + "\n"@ + rp + "end_score = "@ + enc_bool(x.end_score);
    lemma_at_concat(s, j, p4, "\n"@);
    let p3b = hdr + "\n"@ + rp + "end_score = "@;
    lemma_at_concat(s, j, p3b, enc_bool(x.end_score));
    let p3 = hdr + "\n"@ + rp;
    lemma_at_concat(s, j, p3, "end_score = "@);
    let p2 = hdr + "\n"@;
    lemma_at_concat(s, j, p2, rp);
    lemma_at_concat(s, j, hdr, "\n"@);
    lemma_at_index(s, j, hdr, 0);
    assert(spec_skip_ws(s, j) == j);
    assert(tok(s, i, hdr) == Some(j + hdr.len()));
    let i1 = j + hdr.len();
    lemma_at_index(s, i1, "\n"@, 0);
    let i2 = j + p3.len();
    match x.replay_path {
        Some(v) => {
            assert(rp =~= ("replay_path = "@ + quoted(v)) + "\n"@);
            lemma_at_concat(s, i1 + 1, "replay_path = "@ + quoted(v), "\n"@);
            lemma_at_concat(s, i1 + 1, "replay_path = "@, quoted(v));
            lemma_tok_ws1(s, i1, "replay_path = "@);
            lemma_parse_str_tok(s, i1 + 1 + "replay_path = "@.len(), v);
            assert(parse_toml_replay_path(s, i1) == Some((x.replay_path, i2 - 1)));
            lemma_at_index(s, i2 - 1, "\n"@, 0);
            lemma_tok_ws1(s, i2 - 1, "end_score = "@);
        },
        None => {
            assert(rp =~= Seq::<char>::empty());
            lemma_toml_opt_absent(s, i1, "replay_path = "@, "end_score = "@, 0);
            assert(!at(s, i1 + 1, "replay_path = "@));
            assert(tok(s, i1, "replay_path = "@) is None);
            assert(parse_toml_replay_path(s, i1) == Some((x.replay_path, i1)));
            lemma_tok_ws1(s, i1, "end_score = "@);
            assert(i2 - 1 == i1);
        },
    }
    lemma_parse_bool_tok(s, j + p3.len() + "end_score = "@.len(), x.end_score);
    lemma_at_index(s, j + p4.len(), "\n"@, 0);
    lemma_tok_ws1(s, j + p4.len(), "score_history = "@);
    lemma_parse_bool_tok(s, j + p6.len(), x.score_history);
}

} // verus!

verus! {

// ---------------------------------------------------------------------------
// The whole configuration
// ---------------------------------------------------------------------------

/// Shapes of the table encodings: each starts with its header bracket and
/// ends with a newline.
#[verifier::rlimit(100)]
#[verifier::spinoff_prover]
proof fn lemma_toml_shapes(c: ConfigV)
    ensures
        enc_toml_proxy(c.proxy).len() >= 2 && enc_toml_proxy(c.proxy)[0] == '['
            && enc_toml_proxy(c.proxy).last() == '\n',
        enc_toml_process(c.process).len() >= 2 && enc_toml_process(c.process)[0] == '['
            && enc_toml_process(c.process).last() == '\n',
        enc_toml_matchmaking(c.matchmaking).len() >= 2 && enc_toml_matchmaking(c.matchmaking)[0]
            == '[' && enc_toml_matchmaking(c.matchmaking).last() == '\n',
        enc_toml_game(
            c.match_defaults.game.map_name,
            c.match_defaults.game.disable_fog,
            c.match_defaults.game.random_seed,
            c.match_defaults.game.realtime,
        ).len() >= 2 && enc_toml_game(
            c.match_defaults.game.map_name,
            c.match_defaults.game.disable_fog,
            c.match_defaults.game.random_seed,
            c.match_defaults.game.realtime,
        )[0] == '[' && enc_toml_game(
            c.match_defaults.game.map_name,
            c.match_defaults.game.disable_fog,
            c.match_defaults.game.random_seed,
            c.match_defaults.game.realtime,
        ).last() == '\n',
        enc_toml_allowed(c.match_defaults.game.allowed_interfaces).len() >= 2 && enc_toml_allowed(
            c.match_defaults.game.allowed_interfaces,
        )[0] == '[' && enc_toml_allowed(c.match_defaults.game.allowed_interfaces).last() == '\n',
        enc_toml_reqlimits(c.match_defaults.request_limits).len() >= 2 && enc_toml_reqlimits(
            c.match_defaults.request_limits,
        )[0] == '[' && enc_toml_reqlimits(c.match_defaults.request_limits).last() == '\n',
        enc_toml_timelimits(c.match_defaults.time_limits).len() >= 2 && enc_toml_timelimits(
            c.match_defaults.time_limits,
        )[0] == '[' && enc_toml_timelimits(c.match_defaults.time_limits).last() == '\n',
        enc_toml_record(c.match_defaults.record_results).len() >= 2 && enc_toml_record(
            c.match_defaults.record_results,
        )[0] == '[' && enc_toml_record(c.match_defaults.record_results).last() == '\n',
        enc_toml_remctl(c.remote_controller).len() >= 2 && enc_toml_remctl(c.remote_controller)[0]
            == '[' && enc_toml_remctl(c.remote_controller).last() == '\n',
{
    reveal(enc_toml_proxy);
    reveal(enc_toml_process);
    reveal(enc_toml_matchmaking);
    reveal(enc_toml_game);
    reveal(enc_toml_allowed);
    reveal(enc_toml_reqlimits);
    reveal(enc_toml_timelimits);
    reveal(enc_toml_record);
    reveal(enc_toml_remctl);
    reveal_strlit("[proxy]");
    reveal_strlit("[process]");
    reveal_strlit("[matchmaking]");
    reveal_strlit("[match_defaults.game]");
    reveal_strlit("[match_defaults.game.allowed_interfaces]");
    reveal_strlit("[match_defaults.request_limits]");
    reveal_strlit("[match_defaults.time_limits]");
    reveal_strlit("[match_defaults.record_results]");
    reveal_strlit("[remote_controller]");
    reveal_strlit("\n");
}

/// The canonical TOML text of a configuration: every table in canonical
/// order.
#[verifier::opaque]
pub open spec fn enc_toml_config(c: ConfigV) -> Seq<char> {
    enc_toml_proxy(c.proxy) + enc_toml_process(c.process) + enc_toml_matchmaking(c.matchmaking)
        + enc_toml_game(
        c.match_defaults.game.map_name,
        c.match_defaults.game.disable_fog,
        c.match_defaults.game.random_seed,
        c.match_defaults.game.realtime,
    ) + enc_toml_allowed(c.match_defaults.game.allowed_interfaces) + enc_toml_reqlimits(
        c.match_defaults.request_limits,
    ) + enc_toml_timelimits(c.match_defaults.time_limits) + enc_toml_record(
        c.match_defaults.record_results,
    ) + enc_toml_remctl(c.remote_controller)
}

pub open spec fn parse_toml_config(s: Seq<char>, i: int) -> Option<(ConfigV, int)> {
    match parse_toml_proxy(s, i) {
        None => None,
        Some((proxy, e1)) => match parse_toml_process(s, e1) {
            None => None,
            Some((process, e2)) => match parse_toml_matchmaking(s, e2) {
                None => None,
                Some((matchmaking, e3)) => match parse_toml_game(s, e3) {
                    None => None,
                    Some((g, e4)) => match parse_toml_allowed(s, e4) {
                        None => None,
                        Some((ai, e5)) => match parse_toml_reqlimits(s, e5) {
                            None => None,
                            Some((rl, e6)) => match parse_toml_timelimits(s, e6) {
                                None => None,
                                Some((tl, e7)) => match parse_toml_record(s, e7) {
                                    None => None,
                                    Some((rr, e8)) => match parse_toml_remctl(s, e8) {
                                        None => None,
                                        Some((rc, e9)) => Some(
                                            (
                                                ConfigV {
                                                    proxy,
                                                    process,
                                                    matchmaking,
                                                    match_defaults: crate::config::MatchConfigV {
                                                        game: crate::config::GameConfigV {
                                                            map_name: g.0,
                                                            disable_fog: g.1,
                                                            random_seed: g.2,
                                                            realtime: g.3,
                                                            allowed_interfaces: ai,
                                                        },
                                                        request_limits: rl,
                                                        time_limits: tl,
                                                        record_results: rr,
                                                    },
                                                    remote_controller: rc,
                                                },
                                                e9,
                                            ),
                                        ),
                                    },
                                },
                            },
                        },
                    },
                },
            },
        },
    }
}

/// The whole canonical TOML text parses back to the configuration it was
/// written from; parsing ends just before the final newline.
#[verifier::rlimit(100)]
#[verifier::spinoff_prover]
pub proof fn lemma_parse_toml_config(s: Seq<char>, i: int, j: int, c: ConfigV)
    requires
        spec_skip_ws(s, i) == j,
        at(s, j, enc_toml_config(c)),
    ensures
        parse_toml_config(s, i) == Some((c, j + enc_toml_config(c).len() - 1)),
{
    reveal(enc_toml_config);
    lemma_toml_shapes(c);
    let s1 = enc_toml_proxy(c.proxy);
    let s2 = enc_toml_process(c.process);
    let s3 = enc_toml_matchmaking(c.matchmaking);
    let s4 = enc_toml_game(
        c.match_defaults.game.map_name,
        c.match_defaults.game.disable_fog,
        c.match_defaults.game.random_seed,
        c.match_defaults.game.realtime,
    );
    let s5 = enc_toml_allowed(c.match_defaults.game.allowed_interfaces);
    let s6 = enc_toml_reqlimits(c.match_defaults.request_limits);
    let s7 = enc_toml_timelimits(c.match_defaults.time_limits);
    let s8 = enc_toml_record(c.match_defaults.record_results);
    let s9 = enc_toml_remctl(c.remote_controller);
    lemma_at_concat(s, j, s1 + s2 + s3 + s4 + s5 + s6 + s7 + s8, s9);
    lemma_at_concat(s, j, s1 + s2 + s3 + s4 + s5 + s6 + s7, s8);
    lemma_at_concat(s, j, s1 + s2 + s3 + s4 + s5 + s6, s7);
    lemma_at_concat(s, j, s1 + s2 + s3 + s4 + s5, s6);
    lemma_at_concat(s, j, s1 + s2 + s3 + s4, s5);
    lemma_at_concat(s, j, s1 + s2 + s3, s4);
    lemma_at_concat(s, j, s1 + s2, s3);
    lemma_at_concat(s, j, s1, s2);
    let j2 = j + s1.len();
    let j3 = j2 + s2.len();
    let j4 = j3 + s3.len();
    let j5 = j4 + s4.len();
    let j6 = j5 + s5.len();
    let j7 = j6 + s6.len();
    let j8 = j7 + s7.len();
    let j9 = j8 + s8.len();
    lemma_parse_toml_proxy(s, i, j, c.proxy);
    lemma_at_index(s, j, s1, s1.len() - 1);
    lemma_at_index(s, j2, s2, 0);
    assert(spec_skip_ws(s, j2 - 1) == j2) by {
        assert(is_ws(s[j2 - 1]));
        assert(!is_ws(s[j2]));
        assert(spec_skip_ws(s, j2) == j2);
    }
    lemma_parse_toml_process(s, j2 - 1, j2, c.process);
    lemma_at_index(s, j2, s2, s2.len() - 1);
    lemma_at_index(s, j3, s3, 0);
    assert(spec_skip_ws(s, j3 - 1) == j3) by {
        assert(is_ws(s[j3 - 1]));
        assert(!is_ws(s[j3]));
        assert(spec_skip_ws(s, j3) == j3);
    }
    lemma_parse_toml_matchmaking(s, j3 - 1, j3, c.matchmaking);
    lemma_at_index(s, j3, s3, s3.len() - 1);
    lemma_at_index(s, j4, s4, 0);
    assert(spec_skip_ws(s, j4 - 1) == j4) by {
        assert(is_ws(s[j4 - 1]));
        assert(!is_ws(s[j4]));
        assert(spec_skip_ws(s, j4) == j4);
    }
    lemma_parse_toml_game(
        s,
        j4 - 1,
        j4,
        c.match_defaults.game.map_name,
        c.match_defaults.game.disable_fog,
        c.match_defaults.game.random_seed,
        c.match_defaults.game.realtime,
    );
    lemma_at_index(s, j4, s4, s4.len() - 1);
    lemma_at_index(s, j5, s5, 0);
    assert(spec_skip_ws(s, j5 - 1) == j5) by {
        assert(is_ws(s[j5 - 1]));
        assert(!is_ws(s[j5]));
        assert(spec_skip_ws(s, j5) == j5);
    }
    lemma_parse_toml_allowed(s, j5 - 1, j5, c.match_defaults.game.allowed_interfaces);
    lemma_at_index(s, j5, s5, s5.len() - 1);
    lemma_at_index(s, j6, s6, 0);
    assert(spec_skip_ws(s, j6 - 1) == j6) by {
        assert(is_ws(s[j6 - 1]));
        assert(!is_ws(s[j6]));
        assert(spec_skip_ws(s, j6) == j6);
    }
    lemma_parse_toml_reqlimits(s, j6 - 1, j6, c.match_defaults.request_limits);
    lemma_at_index(s, j6, s6, s6.len() - 1);
    lemma_at_index(s, j7, s7, 0);
    assert(spec_skip_ws(s, j7 - 1) == j7) by {
        assert(is_ws(s[j7 - 1]));
        assert(!is_ws(s[j7]));
        assert(spec_skip_ws(s, j7) == j7);
    }
    lemma_at_index(s, j8, s8, 0);
    lemma_parse_toml_timelimits(s, j7 - 1, j7, c.match_defaults.time_limits);
    lemma_at_index(s, j7, s7, s7.len() - 1);
    assert(spec_skip_ws(s, j8 - 1) == j8) by {
        assert(is_ws(s[j8 - 1]));
        assert(!is_ws(s[j8]));
        assert(spec_skip_ws(s, j8) == j8);
    }
    lemma_parse_toml_record(s, j8 - 1, j8, c.match_defaults.record_results);
    lemma_at_index(s, j8, s8, s8.len() - 1);
    lemma_at_index(s, j9, s9, 0);
    assert(spec_skip_ws(s, j9 - 1) == j9) by {
        assert(is_ws(s[j9 - 1]));
        assert(!is_ws(s[j9]));
        assert(spec_skip_ws(s, j9) == j9);
    }
    lemma_parse_toml_remctl(s, j9 - 1, j9, c.remote_controller);
    assert(c =~= ConfigV {
        proxy: c.proxy,
        process: c.process,
        matchmaking: c.matchmaking,
        match_defaults: crate::config::MatchConfigV {
            game: crate::config::GameConfigV {
                map_name: c.match_defaults.game.map_name,
                disable_fog: c.match_defaults.game.disable_fog,
                random_seed: c.match_defaults.game.random_seed,
                realtime: c.match_defaults.game.realtime,
                allowed_interfaces: c.match_defaults.game.allowed_interfaces,
            },
            request_limits: c.match_defaults.request_limits,
            time_limits: c.match_defaults.time_limits,
            record_results: c.match_defaults.record_results,
        },
        remote_controller: c.remote_controller,
    });
}

} // verus!

verus! {

// ---------------------------------------------------------------------------
// Executable parsers for the optional tables
// ---------------------------------------------------------------------------

fn parse_toml_map_name_exec(s: &Vec<char>, i: usize) -> (r: Option<(Option<String>, usize)>)
    requires
        i <= s@.len(),
    ensures
        r matches Some(p) ==> parse_toml_map_name(s@, i as int) == Some(
            (crate::json::opt_str_view(p.0), p.1 as int),
        ) && i <= p.1 <= s@.len(),
        r is None ==> parse_toml_map_name(s@, i as int) is None,
{
    match tok_exec(s, i, "map_name = ") {
        None => Some((None, i)),
        Some(i1) => match parse_str_tok_exec(s, i1) {
            None => None,
            Some((v, i2)) => Some((Some(crate::codec::string_from_chars(&v)), i2)),
        },
    }
}

fn parse_toml_random_seed_exec(s: &Vec<char>, i: usize) -> (r: Option<(Option<u32>, usize)>)
    requires
        i <= s@.len(),
    ensures
        r matches Some(p) ==> parse_toml_random_seed(s@, i as int) == Some((p.0, p.1 as int)) && i
            <= p.1 <= s@.len(),
        r is None ==> parse_toml_random_seed(s@, i as int) is None,
{
    match tok_exec(s, i, "random_seed = ") {
        None => Some((None, i)),
        Some(i1) => match crate::json::parse_u32_tok_exec(s, i1) {
            None => None,
            Some((v, i2)) => Some((Some(v), i2)),
        },
    }
}

fn parse_toml_game_loops_exec(s: &Vec<char>, i: usize) -> (r: Option<(Option<u64>, usize)>)
    requires
        i <= s@.len(),
    ensures
        r matches Some(p) ==> parse_toml_game_loops(s@, i as int) == Some((p.0, p.1 as int)) && i
            <= p.1 <= s@.len(),
        r is None ==> parse_toml_game_loops(s@, i as int) is None,
{
    match tok_exec(s, i, "game_loops = ") {
        None => Some((None, i)),
        Some(i1) => match parse_u64_tok_exec(s, i1) {
            None => None,
            Some((v, i2)) => Some((Some(v), i2)),
        },
    }
}

fn parse_toml_replay_path_exec(s: &Vec<char>, i: usize) -> (r: Option<(Option<String>, usize)>)
    requires
        i <= s@.len(),
    ensures
        r matches Some(p) ==> parse_toml_replay_path(s@, i as int) == Some(
            (crate::json::opt_str_view(p.0), p.1 as int),
        ) && i <= p.1 <= s@.len(),
        r is None ==> parse_toml_replay_path(s@, i as int) is None,
{
    match tok_exec(s, i, "replay_path = ") {
        None => Some((None, i)),
        Some(i1) => match parse_str_tok_exec(s, i1) {
            None => None,
            Some((v, i2)) => Some((Some(crate::codec::string_from_chars(&v)), i2)),
        },
    }
}

/// Parse the `[match_defaults.game]` table (without the nested
/// allowed-interfaces table).
/// Parse the `[match_defaults.game]` table (without the nested
/// allowed-interfaces table).
pub fn parse_toml_game_exec(s: &Vec<char>, i: usize) -> (r: Option<
    ((Option<String>, bool, Option<u32>, bool), usize),
>)
    requires
        i <= s@.len(),
    ensures
        r matches Some(p) ==> parse_toml_game(s@, i as int) == Some(
            ((crate::json::opt_str_view(p.0.0), p.0.1, p.0.2, p.0.3), p.1 as int),
        ) && i <= p.1 <= s@.len(),
        r is None ==> parse_toml_game(s@, i as int) is None,
{
    let i1 = match tok_exec(s, i, "[match_defaults.game]") {
        Some(j) => j,
        None => {
            return Some(((None, false, None, false), i));
        },
    };
    let (map_name, i2) = match parse_toml_map_name_exec(s, i1) {
        Some(p) => p,
        None => {
            return None;
        },
    };
    let (fog, i3) = match tok_exec(s, i2, "disable_fog = ") {
        None => (false, i2),
        Some(j) => match parse_bool_tok_exec(s, j) {
            Some(p) => p,
            None => {
                return None;
            },
        },
    };
    let (seed, i4) = match parse_toml_random_seed_exec(s, i3) {
        Some(p) => p,
        None => {
            return None;
        },
    };
    let (rt, i5) = match tok_exec(s, i4, "realtime = ") {
        None => (false, i4),
        Some(j) => match parse_bool_tok_exec(s, j) {
            Some(p) => p,
            None => {
                return None;
            },
        },
    };
    Some(((map_name, fog, seed, rt), i5))
}
/// Parse the `[match_defaults.time_limits]` table.
/// Parse the `[match_defaults.time_limits]` table.
pub fn parse_toml_timelimits_exec(s: &Vec<char>, i: usize) -> (r: Option<
    (crate::config::TimeLimits, usize),
>)
    requires
        i <= s@.len(),
    ensures
        r matches Some(p) ==> parse_toml_timelimits(s@, i as int) == Some((p.0, p.1 as int)) && i
            <= p.1 <= s@.len(),
        r is None ==> parse_toml_timelimits(s@, i as int) is None,
{
    let i1 = match tok_exec(s, i, "[match_defaults.time_limits]") {
        Some(j) => j,
        None => {
            return Some((crate::config::TimeLimits { game_loops: None }, i));
        },
    };
    let (v, i2) = match parse_toml_game_loops_exec(s, i1) {
        Some(p) => p,
        None => {
            return None;
        },
    };
    Some((crate::config::TimeLimits { game_loops: v }, i2))
}
/// Parse the `[match_defaults.record_results]` table.
/// Parse the `[match_defaults.record_results]` table.
pub fn parse_toml_record_exec(s: &Vec<char>, i: usize) -> (r: Option<
    (crate::config::RecordConfig, usize),
>)
    requires
        i <= s@.len(),
    ensures
        r matches Some(p) ==> parse_toml_record(s@, i as int) == Some((p.0@, p.1 as int)) && i
            <= p.1 <= s@.len(),
        r is None ==> parse_toml_record(s@, i as int) is None,
{
    let i1 = match tok_exec(s, i, "[match_defaults.record_results]") {
        Some(j) => j,
        None => {
            return Some(
                (
                    crate::config::RecordConfig {
                        replay_path: None,
                        end_score: false,
                        score_history: false,
                    },
                    i,
                ),
            );
        },
    };
    let (rp, i2) = match parse_toml_replay_path_exec(s, i1) {
        Some(p) => p,
        None => {
            return None;
        },
    };
    let (es, i3) = match tok_exec(s, i2, "end_score = ") {
        None => (false, i2),
        Some(j) => match parse_bool_tok_exec(s, j) {
            Some(p) => p,
            None => {
                return None;
            },
        },
    };
    let (sh, i4) = match tok_exec(s, i3, "score_history = ") {
        None => (false, i3),
        Some(j) => match parse_bool_tok_exec(s, j) {
            Some(p) => p,
            None => {
                return None;
            },
        },
    };
    Some(
        (
            crate::config::RecordConfig { replay_path: rp, end_score: es, score_history: sh },
            i4,
        ),
    )
}
// ---------------------------------------------------------------------------
// Executable encoders for the optional tables
// ---------------------------------------------------------------------------

/// Append the `[match_defaults.game]` table.
#[verifier::rlimit(100)]
#[verifier::spinoff_prover]
pub fn push_toml_game(out: &mut Vec<char>, x: &crate::config::GameConfig)
    ensures
        final(out)@ == old(out)@ + enc_toml_game(
            x@.map_name,
            x.disable_fog,
            x.random_seed,
            x.realtime,
        ),
{
    proof {
        reveal(enc_toml_game);
    }
    crate::codec::push_lit(out, "[match_defaults.game]");
    crate::codec::push_lit(out, "\n");
    match &x.map_name {
        None => {},
        Some(v) => {
            crate::codec::push_lit(out, "map_name = ");
            crate::json::push_string(out, v);
            crate::codec::push_lit(out, "\n");
        },
    }
    crate::codec::push_lit(out, "disable_fog = ");
    crate::json::push_bool(out, x.disable_fog);
    crate::codec::push_lit(out, "\n");
    match &x.random_seed {
        None => {},
        Some(v) => {
            crate::codec::push_lit(out, "random_seed = ");
            crate::codec::push_dec_u64(out, *v as u64);
            crate::codec::push_lit(out, "\n");
        },
    }
    crate::codec::push_lit(out, "realtime = ");
    crate::json::push_bool(out, x.realtime);
    crate::codec::push_lit(out, "\n");
    assert(out@ =~= old(out)@ + enc_toml_game(
        x@.map_name,
        x.disable_fog,
        x.random_seed,
        x.realtime,
    ));
}

/// Append the `[match_defaults.time_limits]` table.
#[verifier::rlimit(100)]
pub fn push_toml_timelimits(out: &mut Vec<char>, x: &crate::config::TimeLimits)
    ensures
        final(out)@ == old(out)@ + enc_toml_timelimits(*x),
{
    proof {
        reveal(enc_toml_timelimits);
    }
    crate::codec::push_lit(out, "[match_defaults.time_limits]");
    crate::codec::push_lit(out, "\n");
    match &x.game_loops {
        None => {},
        Some(v) => {
            crate::codec::push_lit(out, "game_loops = ");
            crate::codec::push_dec_u64(out, *v);
            crate::codec::push_lit(out, "\n");
        },
    }
    assert(out@ =~= old(out)@ + enc_toml_timelimits(*x));
}

/// Append the `[match_defaults.record_results]` table.
#[verifier::rlimit(100)]
#[verifier::spinoff_prover]
pub fn push_toml_record(out: &mut Vec<char>, x: &crate::config::RecordConfig)
    ensures
        final(out)@ == old(out)@ + enc_toml_record(x@),
{
    proof {
        reveal(enc_toml_record);
    }
    crate::codec::push_lit(out, "[match_defaults.record_results]");
    crate::codec::push_lit(out, "\n");
    match &x.replay_path {
        None => {},
        Some(v) => {
            crate::codec::push_lit(out, "replay_path = ");
            crate::json::push_string(out, v);
            crate::codec::push_lit(out, "\n");
        },
    }
    crate::codec::push_lit(out, "end_score = ");
    crate::json::push_bool(out, x.end_score);
    crate::codec::push_lit(out, "\n");
    crate::codec::push_lit(out, "score_history = ");
    crate::json::push_bool(out, x.score_history);
    crate::codec::push_lit(out, "\n");
    assert(out@ =~= old(out)@ + enc_toml_record(x@));
}

// ---------------------------------------------------------------------------
// Whole-configuration text
// ---------------------------------------------------------------------------

/// Parse a whole canonical configuration.
pub fn parse_toml_config_exec(s: &Vec<char>, i: usize) -> (r: Option<(Config, usize)>)
    requires
        i <= s@.len(),
    ensures
        r matches Some(p) ==> parse_toml_config(s@, i as int) == Some((p.0@, p.1 as int)) && i
            <= p.1 <= s@.len(),
        r is None ==> parse_toml_config(s@, i as int) is None,
{
    let (proxy, e1) = match parse_toml_proxy_exec(s, i) {
        Some(p) => p,
        None => {
            return None;
        },
    };
    let (process, e2) = match parse_toml_process_exec(s, e1) {
        Some(p) => p,
        None => {
            return None;
        },
    };
    let (matchmaking, e3) = match parse_toml_matchmaking_exec(s, e2) {
        Some(p) => p,
        None => {
            return None;
        },
    };
    let (g, e4) = match parse_toml_game_exec(s, e3) {
        Some(p) => p,
        None => {
            return None;
        },
    };
    let (ai, e5) = match parse_toml_allowed_exec(s, e4) {
        Some(p) => p,
        None => {
            return None;
        },
    };
    let (rl, e6) = match parse_toml_reqlimits_exec(s, e5) {
        Some(p) => p,
        None => {
            return None;
        },
    };
    let (tl, e7) = match parse_toml_timelimits_exec(s, e6) {
        Some(p) => p,
        None => {
            return None;
        },
    };
    let (rr, e8) = match parse_toml_record_exec(s, e7) {
        Some(p) => p,
        None => {
            return None;
        },
    };
    let (rc, e9) = match parse_toml_remctl_exec(s, e8) {
        Some(p) => p,
        None => {
            return None;
        },
    };
    let (map_name, disable_fog, random_seed, realtime) = g;
    let cfg = Config {
        proxy,
        process,
        matchmaking,
        match_defaults: crate::config::MatchConfig {
            game: crate::config::GameConfig {
                map_name,
                disable_fog,
                random_seed,
                realtime,
                allowed_interfaces: ai,
            },
            request_limits: rl,
            time_limits: tl,
            record_results: rr,
        },
        remote_controller: rc,
    };
    Some((cfg, e9))
}

/// Parse the `[proxy]` table.
/// Parse the `[proxy]` table.
pub fn parse_toml_proxy_exec(s: &Vec<char>, i: usize) -> (r: Option<(crate::config::Proxy, usize)>)
    requires
        i <= s@.len(),
    ensures
        r matches Some(p) ==> parse_toml_proxy(s@, i as int) == Some((p.0@, p.1 as int)) && i
            <= p.1 <= s@.len(),
        r is None ==> parse_toml_proxy(s@, i as int) is None,
{
    let i1 = match tok_exec(s, i, "[proxy]") {
        Some(j) => j,
        None => {
            return Some(
                (crate::config::Proxy { host: String::from_str("127.0.0.1"), port: 8642 }, i),
            );
        },
    };
    let (f_host, i2) = match tok_exec(s, i1, "host = ") {
        None => (String::from_str("127.0.0.1"), i1),
        Some(j) => match parse_str_tok_exec(s, j) {
            Some(p) => (crate::codec::string_from_chars(&p.0), p.1),
            None => {
                return None;
            },
        },
    };
    let (f_port, i3) = match tok_exec(s, i2, "port = ") {
        None => (8642u16, i2),
        Some(j) => match parse_u16_tok_exec(s, j) {
            Some(p) => p,
            None => {
                return None;
            },
        },
    };
    Some((crate::config::Proxy { host: f_host, port: f_port }, i3))
}
/// Append the `[proxy]` table.
#[verifier::rlimit(100)]
pub fn push_toml_proxy(out: &mut Vec<char>, x: &crate::config::Proxy)
    ensures
        final(out)@ == old(out)@ + enc_toml_proxy(x@),
{
    proof {
        reveal(enc_toml_proxy);
    }
    crate::codec::push_lit(out, "[proxy]");
    crate::codec::push_lit(out, "\n");
    crate::codec::push_lit(out, "host = ");
    crate::json::push_string(out, &x.host);
    crate::codec::push_lit(out, "\n");
    crate::codec::push_lit(out, "port = ");
    crate::codec::push_dec_u64(out, x.port as u64);
    crate::codec::push_lit(out, "\n");
    assert(out@ =~= old(out)@ + enc_toml_proxy(x@));
}

/// Append a whole canonical configuration.
#[verifier::rlimit(100)]
#[verifier::spinoff_prover]
pub fn push_toml_config(out: &mut Vec<char>, c: &Config)
    ensures
        final(out)@ == old(out)@ + enc_toml_config(c@),
{
    proof {
        reveal(enc_toml_config);
    }
    push_toml_proxy(out, &c.proxy);
    push_toml_process(out, &c.process);
    push_toml_matchmaking(out, &c.matchmaking);
    push_toml_game(out, &c.match_defaults.game);
    push_toml_allowed(out, &c.match_defaults.game.allowed_interfaces);
    push_toml_reqlimits(out, &c.match_defaults.request_limits);
    push_toml_timelimits(out, &c.match_defaults.time_limits);
    push_toml_record(out, &c.match_defaults.record_results);
    push_toml_remctl(out, &c.remote_controller);
    assert(out@ =~= old(out)@ + enc_toml_config(c@));
}

/// What decoding a configuration file means: parse one configuration,
/// then nothing but whitespace may remain.
pub open spec fn spec_decode_toml_config(s: Seq<char>) -> Option<ConfigV> {
    match parse_toml_config(s, 0) {
        Some((c, j)) => if spec_skip_ws(s, j) == s.len() {
            Some(c)
        } else {
            None
        },
        None => None,
    }
}

/// Encode a configuration as canonical TOML text.
pub fn encode_toml_config(c: &Config) -> (out: String)
    ensures
        out@ == enc_toml_config(c@),
{
    let mut buf: Vec<char> = Vec::new();
    push_toml_config(&mut buf, c);
    crate::codec::string_from_chars(&buf)
}

/// Decode canonical TOML text as a configuration.
pub fn decode_toml_config(text: &str) -> (r: Option<Config>)
    ensures
        r matches Some(c) ==> spec_decode_toml_config(text@) == Some(c@),
        r is None ==> spec_decode_toml_config(text@) is None,
{
    let chars = crate::codec::chars_of(text);
    match parse_toml_config_exec(&chars, 0) {
        Some((c, j)) => {
            let end = skip_ws(&chars, j);
            if end == chars.len() {
                Some(c)
            } else {
                None
            }
        },
        None => None,
    }
}

/// Configuration TOML round trip: decoding the canonical encoding of any
/// configuration yields that configuration back, exactly.
#[verifier::rlimit(100)]
#[verifier::spinoff_prover]
pub proof fn lemma_toml_config_round_trip(c: ConfigV)
    ensures
        spec_decode_toml_config(enc_toml_config(c)) == Some(c),
{
    let s = enc_toml_config(c);
    assert(s.subrange(0, s.len() as int) =~= s);
    assert(at(s, 0, s));
    assert(spec_skip_ws(s, 0) == 0) by {
        lemma_toml_shapes(c);
        reveal(enc_toml_config);
        lemma_at_index(s, 0, s, 0);
        assert(s[0] == enc_toml_proxy(c.proxy)[0]);
    }
    lemma_parse_toml_config(s, 0, 0, c);
    let e = s.len() - 1;
    assert(spec_skip_ws(s, e) == s.len()) by {
        lemma_toml_shapes(c);
        reveal(enc_toml_config);
        lemma_at_index(s, 0, s, s.len() - 1);
        assert(s[e] == enc_toml_remctl(c.remote_controller).last());
        assert(is_ws(s[e]));
        assert(spec_skip_ws(s, e + 1) == s.len());
    }
}

} // verus!
