//! A verified JSON codec for the remote-control messages.
//!
//! The encoder writes the compact canonical form; the parser accepts that
//! form with insignificant whitespace between tokens, object fields in
//! their canonical order.  Parsing recovers exactly what the encoder
//! wrote: the round-trip lemmas at the end of the module state it for
//! every request and every response.

use vstd::prelude::*;

use crate::codec::at;
use crate::codec::dec_digits;
use crate::codec::is_digit;
use crate::codec::is_ws;
use crate::codec::lemma_at_concat;
use crate::codec::lemma_at_index;
use crate::codec::lemma_parse_dec_digits;
use crate::codec::lemma_parse_qstr;
use crate::codec::match_lit;
use crate::codec::parse_qstr;
use crate::codec::parse_u64;
use crate::codec::quoted;
use crate::codec::skip_ws;
use crate::codec::spec_parse_qstr;
use crate::codec::spec_parse_u64;
use crate::codec::spec_skip_ws;

verus! {

broadcast use vstd::string::group_string_axioms;

// ---------------------------------------------------------------------------
// Tokens
// ---------------------------------------------------------------------------

/// Skip whitespace, then match a literal.
pub open spec fn tok(s: Seq<char>, i: int, t: Seq<char>) -> Option<int> {
    let j = spec_skip_ws(s, i);
    if at(s, j, t) {
        Some(j + t.len())
    } else {
        None
    }
}

/// Skip whitespace, then parse a double-quoted string.
pub open spec fn parse_str_tok(s: Seq<char>, i: int) -> Option<(Seq<char>, int)> {
    let j = spec_skip_ws(s, i);
    if 0 <= j < s.len() && s[j] == '"' {
        spec_parse_qstr(s, j + 1)
    } else {
        None
    }
}

/// Skip whitespace, then parse an unsigned decimal number.
pub open spec fn parse_u64_tok(s: Seq<char>, i: int) -> Option<(u64, int)> {
    spec_parse_u64(s, spec_skip_ws(s, i))
}

/// Skip whitespace, then parse `true` or `false`.
pub open spec fn parse_bool_tok(s: Seq<char>, i: int) -> Option<(bool, int)> {
    let j = spec_skip_ws(s, i);
    if at(s, j, "true"@) {
        Some((true, j + 4))
    } else if at(s, j, "false"@) {
        Some((false, j + 5))
    } else {
        None
    }
}

/// Where parsing a token would leave the input (helper for lemmas).
pub proof fn lemma_skip_ws_at(s: Seq<char>, i: int, t: Seq<char>)
    requires
        at(s, i, t),
        t.len() > 0,
        !is_ws(t[0]),
    ensures
        spec_skip_ws(s, i) == i,
{
    lemma_at_index(s, i, t, 0);
}

/// A literal parses where the encoder wrote it.
pub proof fn lemma_tok(s: Seq<char>, i: int, t: Seq<char>)
    requires
        at(s, i, t),
        t.len() > 0,
        !is_ws(t[0]),
    ensures
        tok(s, i, t) == Some(i + t.len()),
{
    lemma_skip_ws_at(s, i, t);
}

/// A quoted string parses where the encoder wrote it.
pub proof fn lemma_parse_str_tok(s: Seq<char>, i: int, content: Seq<char>)
    requires
        at(s, i, quoted(content)),
    ensures
        parse_str_tok(s, i) == Some((content, i + quoted(content).len())),
{
    lemma_at_index(s, i, quoted(content), 0);
    lemma_at_concat(s, i, seq!['"'], crate::codec::esc_seq(content) + seq!['"']);
    assert(quoted(content) =~= seq!['"'] + (crate::codec::esc_seq(content) + seq!['"']));
    lemma_parse_qstr(s, i + 1, content);
}

/// A decimal number parses where the encoder wrote it, when no digit
/// follows it.
pub proof fn lemma_parse_u64_tok(s: Seq<char>, i: int, n: u64)
    requires
        at(s, i, dec_digits(n as nat)),
        i + dec_digits(n as nat).len() == s.len() || !is_digit(
            s[i + dec_digits(n as nat).len()],
        ),
    ensures
        parse_u64_tok(s, i) == Some((n, i + dec_digits(n as nat).len())),
{
    crate::codec::lemma_dec_digits_are_digits(n as nat);
    lemma_at_index(s, i, dec_digits(n as nat), 0);
    assert(!is_ws(dec_digits(n as nat)[0]));
    lemma_skip_ws_at(s, i, dec_digits(n as nat));
    lemma_parse_dec_digits(s, i, n);
}

/// The booleans parse where the encoder wrote them.
pub proof fn lemma_parse_bool_tok(s: Seq<char>, i: int, b: bool)
    requires
        at(s, i, if b {
            "true"@
        } else {
            "false"@
        }),
    ensures
        parse_bool_tok(s, i) == Some((b, i + if b {
            4int
        } else {
            5int
        })),
{
    reveal_strlit("true");
    reveal_strlit("false");
    if b {
        lemma_skip_ws_at(s, i, "true"@);
    } else {
        lemma_skip_ws_at(s, i, "false"@);
        assert(!at(s, i, "true"@)) by {
            if at(s, i, "true"@) {
                lemma_at_index(s, i, "true"@, 0);
                lemma_at_index(s, i, "false"@, 0);
            }
        }
    }
}

// ---------------------------------------------------------------------------
// Executable tokens
// ---------------------------------------------------------------------------

/// Skip whitespace, then match a literal.
pub fn tok_exec(s: &Vec<char>, i: usize, lit: &str) -> (r: Option<usize>)
    requires
        i <= s@.len(),
    ensures
        r matches Some(j) ==> tok(s@, i as int, lit@) == Some(j as int) && i <= j <= s@.len(),
        r is None ==> tok(s@, i as int, lit@) is None,
{
    let j = skip_ws(s, i);
    match match_lit(s, j, lit) {
        Some(j2) => Some(j2),
        None => None,
    }
}

/// Skip whitespace, then parse a double-quoted string.
pub fn parse_str_tok_exec(s: &Vec<char>, i: usize) -> (r: Option<(Vec<char>, usize)>)
    requires
        i <= s@.len(),
    ensures
        r matches Some(p) ==> parse_str_tok(s@, i as int) == Some((p.0@, p.1 as int)) && i <= p.1
            <= s@.len(),
        r is None ==> parse_str_tok(s@, i as int) is None,
{
    let j = skip_ws(s, i);
    if j < s.len() && s[j] == '"' {
        parse_qstr(s, j + 1)
    } else {
        None
    }
}

/// Skip whitespace, then parse an unsigned 64-bit decimal number.
pub fn parse_u64_tok_exec(s: &Vec<char>, i: usize) -> (r: Option<(u64, usize)>)
    requires
        i <= s@.len(),
    ensures
        r matches Some(p) ==> parse_u64_tok(s@, i as int) == Some((p.0, p.1 as int)) && i <= p.1
            <= s@.len(),
        r is None ==> parse_u64_tok(s@, i as int) is None,
{
    let j = skip_ws(s, i);
    parse_u64(s, j)
}

/// Skip whitespace, then parse an unsigned 32-bit decimal number.
pub fn parse_u32_tok_exec(s: &Vec<char>, i: usize) -> (r: Option<(u32, usize)>)
    requires
        i <= s@.len(),
    ensures
        r matches Some(p) ==> (parse_u64_tok(s@, i as int) matches Some(q) && q.0 == p.0
            && q.1 == p.1 as int && p.0 <= u32::MAX) && i <= p.1 <= s@.len(),
        r is None ==> (parse_u64_tok(s@, i as int) matches Some(q) ==> q.0 > u32::MAX),
    {
    match parse_u64_tok_exec(s, i) {
        Some((v, j)) => {
            if v <= 0xFFFF_FFFFu64 {
                Some((v as u32, j))
            } else {
                None
            }
        },
        None => None,
    }
}

/// Skip whitespace, then parse an unsigned 16-bit decimal number.
pub fn parse_u16_tok_exec(s: &Vec<char>, i: usize) -> (r: Option<(u16, usize)>)
    requires
        i <= s@.len(),
    ensures
        r matches Some(p) ==> (parse_u64_tok(s@, i as int) matches Some(q) && q.0 == p.0
            && q.1 == p.1 as int && p.0 <= u16::MAX) && i <= p.1 <= s@.len(),
        r is None ==> (parse_u64_tok(s@, i as int) matches Some(q) ==> q.0 > u16::MAX),
    {
    match parse_u64_tok_exec(s, i) {
        Some((v, j)) => {
            if v <= 0xFFFFu64 {
                Some((v as u16, j))
            } else {
                None
            }
        },
        None => None,
    }
}

/// Skip whitespace, then parse `true` or `false`.
pub fn parse_bool_tok_exec(s: &Vec<char>, i: usize) -> (r: Option<(bool, usize)>)
    requires
        i <= s@.len(),
    ensures
        r matches Some(p) ==> parse_bool_tok(s@, i as int) == Some((p.0, p.1 as int)) && i <= p.1
            <= s@.len(),
        r is None ==> parse_bool_tok(s@, i as int) is None,
{
    proof {
        reveal_strlit("true");
        reveal_strlit("false");
    }
    let j = skip_ws(s, i);
    match match_lit(s, j, "true") {
        Some(j2) => Some((true, j2)),
        None => match match_lit(s, j, "false") {
            Some(j2) => Some((false, j2)),
            None => None,
        },
    }
}

} // verus!

verus! {

// ---------------------------------------------------------------------------
// Enumerations and options
// ---------------------------------------------------------------------------

pub open spec fn race_name(x: crate::sc2::Race) -> Seq<char> {
    match x {
        crate::sc2::Race::Protoss => "Protoss"@,
        crate::sc2::Race::Terran => "Terran"@,
        crate::sc2::Race::Zerg => "Zerg"@,
        crate::sc2::Race::Random => "Random"@,
    }
}

pub open spec fn race_of_name(n: Seq<char>) -> Option<crate::sc2::Race> {
    if n == "Protoss"@ {
        Some(crate::sc2::Race::Protoss)
    } else if n == "Terran"@ {
        Some(crate::sc2::Race::Terran)
    } else if n == "Zerg"@ {
        Some(crate::sc2::Race::Zerg)
    } else if n == "Random"@ {
        Some(crate::sc2::Race::Random)
    } else {
        None
    }
}

pub open spec fn difficulty_name(x: crate::sc2::Difficulty) -> Seq<char> {
    match x {
        crate::sc2::Difficulty::VeryEasy => "VeryEasy"@,
        crate::sc2::Difficulty::Easy => "Easy"@,
        crate::sc2::Difficulty::Medium => "Medium"@,
        crate::sc2::Difficulty::MediumHard => "MediumHard"@,
        crate::sc2::Difficulty::Hard => "Hard"@,
        crate::sc2::Difficulty::Harder => "Harder"@,
        crate::sc2::Difficulty::VeryHard => "VeryHard"@,
        crate::sc2::Difficulty::CheatVision => "CheatVision"@,
        crate::sc2::Difficulty::CheatMoney => "CheatMoney"@,
        crate::sc2::Difficulty::CheatInsane => "CheatInsane"@,
    }
}

pub open spec fn difficulty_of_name(n: Seq<char>) -> Option<crate::sc2::Difficulty> {
    if n == "VeryEasy"@ {
        Some(crate::sc2::Difficulty::VeryEasy)
    } else if n == "Easy"@ {
        Some(crate::sc2::Difficulty::Easy)
    } else if n == "Medium"@ {
        Some(crate::sc2::Difficulty::Medium)
    } else if n == "MediumHard"@ {
        Some(crate::sc2::Difficulty::MediumHard)
    } else if n == "Hard"@ {
        Some(crate::sc2::Difficulty::Hard)
    } else if n == "Harder"@ {
        Some(crate::sc2::Difficulty::Harder)
    } else if n == "VeryHard"@ {
        Some(crate::sc2::Difficulty::VeryHard)
    } else if n == "CheatVision"@ {
        Some(crate::sc2::Difficulty::CheatVision)
    } else if n == "CheatMoney"@ {
        Some(crate::sc2::Difficulty::CheatMoney)
    } else if n == "CheatInsane"@ {
        Some(crate::sc2::Difficulty::CheatInsane)
    } else {
        None
    }
}

pub open spec fn mode_name(x: crate::config::MatchmakingMode) -> Seq<char> {
    match x {
        crate::config::MatchmakingMode::AgainstBuiltinAI => "AgainstBuiltinAI"@,
        crate::config::MatchmakingMode::Pairs => "Pairs"@,
        crate::config::MatchmakingMode::Singleplayer => "Singleplayer"@,
        crate::config::MatchmakingMode::RemoteController => "RemoteController"@,
    }
}

pub open spec fn mode_of_name(n: Seq<char>) -> Option<crate::config::MatchmakingMode> {
    if n == "AgainstBuiltinAI"@ {
        Some(crate::config::MatchmakingMode::AgainstBuiltinAI)
    } else if n == "Pairs"@ {
        Some(crate::config::MatchmakingMode::Pairs)
    } else if n == "Singleplayer"@ {
        Some(crate::config::MatchmakingMode::Singleplayer)
    } else if n == "RemoteController"@ {
        Some(crate::config::MatchmakingMode::RemoteController)
    } else {
        None
    }
}

/// Reveal every enumeration name literal.
proof fn reveal_enum_names()
    ensures
        race_of_name(race_name(crate::sc2::Race::Protoss)) == Some(crate::sc2::Race::Protoss),
        race_of_name(race_name(crate::sc2::Race::Terran)) == Some(crate::sc2::Race::Terran),
        race_of_name(race_name(crate::sc2::Race::Zerg)) == Some(crate::sc2::Race::Zerg),
        race_of_name(race_name(crate::sc2::Race::Random)) == Some(crate::sc2::Race::Random),
        forall|x: crate::sc2::Race| race_of_name(#[trigger] race_name(x)) == Some(x),
        forall|x: crate::sc2::Difficulty| difficulty_of_name(#[trigger] difficulty_name(x))
            == Some(x),
        forall|x: crate::config::MatchmakingMode| mode_of_name(#[trigger] mode_name(x)) == Some(
            x,
        ),
{
    reveal_strlit("Protoss");
    reveal_strlit("Terran");
    reveal_strlit("Zerg");
    reveal_strlit("Random");
    reveal_strlit("VeryEasy");
    reveal_strlit("Easy");
    reveal_strlit("Medium");
    reveal_strlit("MediumHard");
    reveal_strlit("Hard");
    reveal_strlit("Harder");
    reveal_strlit("VeryHard");
    reveal_strlit("CheatVision");
    reveal_strlit("CheatMoney");
    reveal_strlit("CheatInsane");
    reveal_strlit("AgainstBuiltinAI");
    reveal_strlit("Pairs");
    reveal_strlit("Singleplayer");
    reveal_strlit("RemoteController");
    assert("Protoss"@.len() == 7 && "Terran"@.len() == 6 && "Zerg"@.len() == 4 && "Random"@.len()
        == 6);
    assert("VeryEasy"@.len() == 8 && "Easy"@.len() == 4 && "Medium"@.len() == 6
        && "MediumHard"@.len() == 10 && "Hard"@.len() == 4 && "Harder"@.len() == 6
        && "VeryHard"@.len() == 8 && "CheatVision"@.len() == 11 && "CheatMoney"@.len() == 10
        && "CheatInsane"@.len() == 11);
    assert("AgainstBuiltinAI"@.len() == 16 && "Pairs"@.len() == 5 && "Singleplayer"@.len() == 12
        && "RemoteController"@.len() == 16);
    assert("Terran"@[0] != "Random"@[0]);
    assert("Protoss"@[0] != "Terran"@[0]);
    assert forall|x: crate::sc2::Race| race_of_name(#[trigger] race_name(x)) == Some(x) by {
        match x {
            crate::sc2::Race::Protoss => {},
            crate::sc2::Race::Terran => {},
            crate::sc2::Race::Zerg => {},
            crate::sc2::Race::Random => {
                assert("Random"@ != "Terran"@) by {
                    assert("Random"@[0] != "Terran"@[0]);
                }
            },
        }
    }
    assert forall|x: crate::sc2::Difficulty| difficulty_of_name(#[trigger] difficulty_name(x))
        == Some(x) by {
        match x {
            crate::sc2::Difficulty::Hard => {
                assert("Hard"@ != "Easy"@) by {
                    assert("Hard"@[0] != "Easy"@[0]);
                }
            },
            crate::sc2::Difficulty::Harder => {
                assert("Harder"@ != "Medium"@) by {
                    assert("Harder"@[0] != "Medium"@[0]);
                }
            },
            crate::sc2::Difficulty::VeryHard => {
                assert("VeryHard"@ != "VeryEasy"@) by {
                    assert("VeryHard"@[4] != "VeryEasy"@[4]);
                }
            },
            crate::sc2::Difficulty::CheatMoney => {
                assert("CheatMoney"@ != "MediumHard"@) by {
                    assert("CheatMoney"@[0] != "MediumHard"@[0]);
                }
            },
            crate::sc2::Difficulty::CheatInsane => {
                assert("CheatInsane"@ != "CheatVision"@) by {
                    assert("CheatInsane"@[5] != "CheatVision"@[5]);
                }
            },
            _ => {},
        }
    }
    assert forall|x: crate::config::MatchmakingMode| mode_of_name(#[trigger] mode_name(x))
        == Some(x) by {
        match x {
            crate::config::MatchmakingMode::RemoteController => {
                assert("RemoteController"@ != "AgainstBuiltinAI"@) by {
                    assert("RemoteController"@[0] != "AgainstBuiltinAI"@[0]);
                }
            },
            _ => {},
        }
    }
}

pub open spec fn parse_race(s: Seq<char>, i: int) -> Option<(crate::sc2::Race, int)> {
    match parse_str_tok(s, i) {
        Some((n, j)) => match race_of_name(n) {
            Some(x) => Some((x, j)),
            None => None,
        },
        None => None,
    }
}

pub open spec fn parse_difficulty(s: Seq<char>, i: int) -> Option<(crate::sc2::Difficulty, int)> {
    match parse_str_tok(s, i) {
        Some((n, j)) => match difficulty_of_name(n) {
            Some(x) => Some((x, j)),
            None => None,
        },
        None => None,
    }
}

pub open spec fn parse_mode(s: Seq<char>, i: int) -> Option<
    (crate::config::MatchmakingMode, int),
> {
    match parse_str_tok(s, i) {
        Some((n, j)) => match mode_of_name(n) {
            Some(x) => Some((x, j)),
            None => None,
        },
        None => None,
    }
}

pub open spec fn enc_race(x: crate::sc2::Race) -> Seq<char> {
    quoted(race_name(x))
}

pub open spec fn enc_difficulty(x: crate::sc2::Difficulty) -> Seq<char> {
    quoted(difficulty_name(x))
}

pub open spec fn enc_mode(x: crate::config::MatchmakingMode) -> Seq<char> {
    quoted(mode_name(x))
}

pub proof fn lemma_parse_race(s: Seq<char>, i: int, x: crate::sc2::Race)
    requires
        at(s, i, enc_race(x)),
    ensures
        parse_race(s, i) == Some((x, i + enc_race(x).len())),
{
    lemma_parse_str_tok(s, i, race_name(x));
    reveal_enum_names();
}

pub proof fn lemma_parse_difficulty(s: Seq<char>, i: int, x: crate::sc2::Difficulty)
    requires
        at(s, i, enc_difficulty(x)),
    ensures
        parse_difficulty(s, i) == Some((x, i + enc_difficulty(x).len())),
{
    lemma_parse_str_tok(s, i, difficulty_name(x));
    reveal_enum_names();
}

pub proof fn lemma_parse_mode(s: Seq<char>, i: int, x: crate::config::MatchmakingMode)
    requires
        at(s, i, enc_mode(x)),
    ensures
        parse_mode(s, i) == Some((x, i + enc_mode(x).len())),
{
    lemma_parse_str_tok(s, i, mode_name(x));
    reveal_enum_names();
}

// options ------------------------------------------------------------------

pub open spec fn enc_u64(n: u64) -> Seq<char> {
    dec_digits(n as nat)
}

pub open spec fn enc_bool(b: bool) -> Seq<char> {
    if b {
        "true"@
    } else {
        "false"@
    }
}

pub open spec fn enc_str(x: Seq<char>) -> Seq<char> {
    quoted(x)
}

pub open spec fn enc_opt_u64(o: Option<u64>) -> Seq<char> {
    match o {
        None => "null"@,
        Some(v) => enc_u64(v),
    }
}

pub open spec fn enc_opt_u32(o: Option<u32>) -> Seq<char> {
    match o {
        None => "null"@,
        Some(v) => enc_u64(v as u64),
    }
}

pub open spec fn enc_opt_str(o: Option<Seq<char>>) -> Seq<char> {
    match o {
        None => "null"@,
        Some(x) => quoted(x),
    }
}

/// Skip whitespace, then parse `null` or an unsigned number.
pub open spec fn parse_opt_u64(s: Seq<char>, i: int) -> Option<(Option<u64>, int)> {
    let j = spec_skip_ws(s, i);
    if at(s, j, "null"@) {
        Some((None, j + 4))
    } else {
        match spec_parse_u64(s, j) {
            Some((v, j2)) => Some((Some(v), j2)),
            None => None,
        }
    }
}

/// Skip whitespace, then parse `null` or a quoted string.
pub open spec fn parse_opt_str(s: Seq<char>, i: int) -> Option<(Option<Seq<char>>, int)> {
    let j = spec_skip_ws(s, i);
    if at(s, j, "null"@) {
        Some((None, j + 4))
    } else if 0 <= j < s.len() && s[j] == '"' {
        match spec_parse_qstr(s, j + 1) {
            Some((x, j2)) => Some((Some(x), j2)),
            None => None,
        }
    } else {
        None
    }
}

pub proof fn lemma_parse_opt_u64(s: Seq<char>, i: int, o: Option<u64>)
    requires
        at(s, i, enc_opt_u64(o)),
        o is Some ==> (i + enc_opt_u64(o).len() == s.len() || !is_digit(
            s[i + enc_opt_u64(o).len()],
        )),
    ensures
        parse_opt_u64(s, i) == Some((o, i + enc_opt_u64(o).len())),
{
    reveal_strlit("null");
    match o {
        None => {
            lemma_skip_ws_at(s, i, "null"@);
        },
        Some(v) => {
            crate::codec::lemma_dec_digits_are_digits(v as nat);
            lemma_at_index(s, i, dec_digits(v as nat), 0);
            lemma_skip_ws_at(s, i, dec_digits(v as nat));
            assert(!at(s, i, "null"@)) by {
                if at(s, i, "null"@) {
                    lemma_at_index(s, i, "null"@, 0);
                }
            }
            lemma_parse_dec_digits(s, i, v);
        },
    }
}

pub proof fn lemma_parse_opt_str(s: Seq<char>, i: int, o: Option<Seq<char>>)
    requires
        at(s, i, enc_opt_str(o)),
    ensures
        parse_opt_str(s, i) == Some((o, i + enc_opt_str(o).len())),
{
    reveal_strlit("null");
    match o {
        None => {
            lemma_skip_ws_at(s, i, "null"@);
        },
        Some(x) => {
            lemma_at_index(s, i, quoted(x), 0);
            lemma_skip_ws_at(s, i, quoted(x));
            assert(!at(s, i, "null"@)) by {
                if at(s, i, "null"@) {
                    lemma_at_index(s, i, "null"@, 0);
                }
            }
            lemma_at_concat(s, i, seq!['"'], crate::codec::esc_seq(x) + seq!['"']);
            assert(quoted(x) =~= seq!['"'] + (crate::codec::esc_seq(x) + seq!['"']));
            lemma_parse_qstr(s, i + 1, x);
        },
    }
}

} // verus!

verus! {

// ---------------------------------------------------------------------------
// Configuration objects
// ---------------------------------------------------------------------------

#[verifier::opaque]
pub open spec fn enc_allowed(a: crate::config::AllowedInterfaces) -> Seq<char> {
    "{"@ + "\"raw\":"@ + enc_bool(a.raw) + ","@ + "\"score\":"@ + enc_bool(a.score) + ","@
        + "\"feature_layer\":"@ + enc_bool(a.feature_layer) + ","@ + "\"render\":"@ + enc_bool(
        a.render,
    ) + "}"@
}

pub open spec fn parse_allowed(s: Seq<char>, i: int) -> Option<
    (crate::config::AllowedInterfaces, int),
> {
    match tok(s, i, "{"@) {
        None => None,
        Some(i1) => match tok(s, i1, "\"raw\":"@) {
            None => None,
            Some(i2) => match parse_bool_tok(s, i2) {
                None => None,
                Some((raw, i3)) => match tok(s, i3, ","@) {
                    None => None,
                    Some(i4) => match tok(s, i4, "\"score\":"@) {
                        None => None,
                        Some(i5) => match parse_bool_tok(s, i5) {
                            None => None,
                            Some((score, i6)) => match tok(s, i6, ","@) {
                                None => None,
                                Some(i7) => match tok(s, i7, "\"feature_layer\":"@) {
                                    None => None,
                                    Some(i8) => match parse_bool_tok(s, i8) {
                                        None => None,
                                        Some((feature_layer, i9)) => match tok(s, i9, ","@) {
                                            None => None,
                                            Some(i10) => match tok(s, i10, "\"render\":"@) {
                                                None => None,
                                                Some(i11) => match parse_bool_tok(s, i11) {
                                                    None => None,
                                                    Some((render, i12)) => match tok(
                                                        s,
                                                        i12,
                                                        "}"@,
                                                    ) {
                                                        None => None,
                                                        Some(end) => Some(
                                                            (
                                                                crate::config::AllowedInterfaces {
                                                                    raw,
                                                                    score,
                                                                    feature_layer,
                                                                    render,
                                                                },
                                                                end,
                                                            ),
                                                        ),
                                                    },
                                                },
                                            },
                                        },
                                    },
                                },
                            },
                        },
                    },
                },
            },
        },
    }
}

proof fn reveal_punct()
    ensures
        "{"@.len() == 1 && "{"@[0] == '{',
        "}"@.len() == 1 && "}"@[0] == '}' && !is_digit("}"@[0]),
        ","@.len() == 1 && ","@[0] == ',' && !is_digit(","@[0]),
        ":"@.len() == 1 && ":"@[0] == ':',
        "["@.len() == 1 && "["@[0] == '[',
        "]"@.len() == 1 && "]"@[0] == ']' && !is_digit("]"@[0]),
        !is_ws("{"@[0]) && !is_ws("}"@[0]) && !is_ws(","@[0]) && !is_ws(":"@[0]) && !is_ws(
            "["@[0],
        ) && !is_ws("]"@[0]),
{
    reveal_strlit("{");
    reveal_strlit("}");
    reveal_strlit(",");
    reveal_strlit(":");
    reveal_strlit("[");
    reveal_strlit("]");
}

pub proof fn lemma_parse_allowed(s: Seq<char>, i: int, a: crate::config::AllowedInterfaces)
    requires
        at(s, i, enc_allowed(a)),
    ensures
        parse_allowed(s, i) == Some((a, i + enc_allowed(a).len())),
{
    reveal(enc_allowed);
    reveal_punct();
    reveal_strlit("\"raw\":");
    reveal_strlit("\"score\":");
    reveal_strlit("\"feature_layer\":");
    reveal_strlit("\"render\":");
    reveal_strlit("true");
    reveal_strlit("false");
    let p1 = "{"@ + "\"raw\":"@ + enc_bool(a.raw) + ","@ + "\"score\":"@ + enc_bool(a.score)
        + ","@ + "\"feature_layer\":"@ + enc_bool(a.feature_layer) + ","@ + "\"render\":"@
        + enc_bool(a.render);
    lemma_at_concat(s, i, p1, "}"@);
    let p2 = "{"@ + "\"raw\":"@ + enc_bool(a.raw) + ","@ + "\"score\":"@ + enc_bool(a.score)
        + ","@ + "\"feature_layer\":"@ + enc_bool(a.feature_layer) + ","@ + "\"render\":"@;
    lemma_at_concat(s, i, p2, enc_bool(a.render));
    let p3 = "{"@ + "\"raw\":"@ + enc_bool(a.raw) + ","@ + "\"score\":"@ + enc_bool(a.score)
        + ","@ + "\"feature_layer\":"@ + enc_bool(a.feature_layer) + ","@;
    lemma_at_concat(s, i, p3, "\"render\":"@);
    let p4 = "{"@ + "\"raw\":"@ + enc_bool(a.raw) + ","@ + "\"score\":"@ + enc_bool(a.score)
        + ","@ + "\"feature_layer\":"@ + enc_bool(a.feature_layer);
    lemma_at_concat(s, i, p4, ","@);
    let p5 = "{"@ + "\"raw\":"@ + enc_bool(a.raw) + ","@ + "\"score\":"@ + enc_bool(a.score)
        + ","@ + "\"feature_layer\":"@;
    lemma_at_concat(s, i, p5, enc_bool(a.feature_layer));
    let p6 = "{"@ + "\"raw\":"@ + enc_bool(a.raw) + ","@ + "\"score\":"@ + enc_bool(a.score)
        + ","@;
    lemma_at_concat(s, i, p6, "\"feature_layer\":"@);
    let p7 = "{"@ + "\"raw\":"@ + enc_bool(a.raw) + ","@ + "\"score\":"@ + enc_bool(a.score);
    lemma_at_concat(s, i, p7, ","@);
    let p8 = "{"@ + "\"raw\":"@ + enc_bool(a.raw) + ","@ + "\"score\":"@;
    lemma_at_concat(s, i, p8, enc_bool(a.score));
    let p9 = "{"@ + "\"raw\":"@ + enc_bool(a.raw) + ","@;
    lemma_at_concat(s, i, p9, "\"score\":"@);
    let p10 = "{"@ + "\"raw\":"@ + enc_bool(a.raw);
    lemma_at_concat(s, i, p10, ","@);
    let p11 = "{"@ + "\"raw\":"@;
    lemma_at_concat(s, i, p11, enc_bool(a.raw));
    lemma_at_concat(s, i, "{"@, "\"raw\":"@);
    lemma_tok(s, i, "{"@);
    lemma_tok(s, i + 1, "\"raw\":"@);
    lemma_parse_bool_tok(s, i + p11.len(), a.raw);
    lemma_tok(s, i + p10.len(), ","@);
    lemma_tok(s, i + p9.len(), "\"score\":"@);
    lemma_parse_bool_tok(s, i + p8.len(), a.score);
    lemma_tok(s, i + p7.len(), ","@);
    lemma_tok(s, i + p6.len(), "\"feature_layer\":"@);
    lemma_parse_bool_tok(s, i + p5.len(), a.feature_layer);
    lemma_tok(s, i + p4.len(), ","@);
    lemma_tok(s, i + p3.len(), "\"render\":"@);
    lemma_parse_bool_tok(s, i + p2.len(), a.render);
    lemma_tok(s, i + p1.len(), "}"@);
}

} // verus!

verus! {

// more numeric tokens -------------------------------------------------------

pub open spec fn parse_u16_tok(s: Seq<char>, i: int) -> Option<(u16, int)> {
    match parse_u64_tok(s, i) {
        Some((v, j)) => if v <= 0xFFFF {
            Some(((v as u16), j))
        } else {
            None
        },
        None => None,
    }
}

pub open spec fn parse_u32_tok(s: Seq<char>, i: int) -> Option<(u32, int)> {
    match parse_u64_tok(s, i) {
        Some((v, j)) => if v <= 0xFFFF_FFFF {
            Some(((v as u32), j))
        } else {
            None
        },
        None => None,
    }
}

pub open spec fn parse_opt_u32(s: Seq<char>, i: int) -> Option<(Option<u32>, int)> {
    match parse_opt_u64(s, i) {
        Some((o, j)) => match o {
            None => Some((None, j)),
            Some(v) => if v <= 0xFFFF_FFFF {
                Some((Some((v as u32)), j))
            } else {
                None
            },
        },
        None => None,
    }
}

pub proof fn lemma_parse_u16_tok(s: Seq<char>, i: int, v: u16)
    requires
        at(s, i, dec_digits(v as nat)),
        i + dec_digits(v as nat).len() == s.len() || !is_digit(
            s[i + dec_digits(v as nat).len()],
        ),
    ensures
        parse_u16_tok(s, i) == Some((v, i + dec_digits(v as nat).len())),
{
    lemma_parse_u64_tok(s, i, v as u64);
}

pub proof fn lemma_parse_u32_tok(s: Seq<char>, i: int, v: u32)
    requires
        at(s, i, dec_digits(v as nat)),
        i + dec_digits(v as nat).len() == s.len() || !is_digit(
            s[i + dec_digits(v as nat).len()],
        ),
    ensures
        parse_u32_tok(s, i) == Some((v, i + dec_digits(v as nat).len())),
{
    lemma_parse_u64_tok(s, i, v as u64);
}

pub proof fn lemma_parse_opt_u32(s: Seq<char>, i: int, o: Option<u32>)
    requires
        at(s, i, enc_opt_u32(o)),
        o is Some ==> (i + enc_opt_u32(o).len() == s.len() || !is_digit(
            s[i + enc_opt_u32(o).len()],
        )),
    ensures
        parse_opt_u32(s, i) == Some((o, i + enc_opt_u32(o).len())),
{
    match o {
        None => {
            lemma_parse_opt_u64(s, i, None);
        },
        Some(v) => {
            lemma_parse_opt_u64(s, i, Some(v as u64));
        },
    }
}

/// The view of an optional string.
pub open spec fn opt_str_view(o: Option<String>) -> Option<Seq<char>> {
    match o {
        Some(x) => Some(x@),
        None => None,
    }
}

// encoder helpers -----------------------------------------------------------

/// Append `true` or `false`.
pub fn push_bool(out: &mut Vec<char>, b: bool)
    ensures
        final(out)@ == old(out)@ + enc_bool(b),
{
    if b {
        crate::codec::push_lit(out, "true");
    } else {
        crate::codec::push_lit(out, "false");
    }
}

/// Append a number or `null`.
pub fn push_opt_u64(out: &mut Vec<char>, o: &Option<u64>)
    ensures
        final(out)@ == old(out)@ + enc_opt_u64(*o),
{
    match o {
        None => crate::codec::push_lit(out, "null"),
        Some(v) => crate::codec::push_dec_u64(out, *v),
    }
}

/// Append a number or `null`.
pub fn push_opt_u32(out: &mut Vec<char>, o: &Option<u32>)
    ensures
        final(out)@ == old(out)@ + enc_opt_u32(*o),
{
    match o {
        None => crate::codec::push_lit(out, "null"),
        Some(v) => crate::codec::push_dec_u64(out, *v as u64),
    }
}

/// Append a quoted string or `null`.
pub fn push_opt_string(out: &mut Vec<char>, o: &Option<String>)
    ensures
        final(out)@ == old(out)@ + enc_opt_str(opt_str_view(*o)),
{
    match o {
        None => crate::codec::push_lit(out, "null"),
        Some(x) => crate::codec::push_quoted_str(out, x.as_str()),
    }
}

/// Append a quoted string.
pub fn push_string(out: &mut Vec<char>, x: &String)
    ensures
        final(out)@ == old(out)@ + enc_str(x@),
{
    crate::codec::push_quoted_str(out, x.as_str());
}

/// Append the quoted name of a race.
pub fn push_race(out: &mut Vec<char>, x: &crate::sc2::Race)
    ensures
        final(out)@ == old(out)@ + enc_race(*x),
{
    match x {
        crate::sc2::Race::Protoss => crate::codec::push_quoted_str(out, "Protoss"),
        crate::sc2::Race::Terran => crate::codec::push_quoted_str(out, "Terran"),
        crate::sc2::Race::Zerg => crate::codec::push_quoted_str(out, "Zerg"),
        crate::sc2::Race::Random => crate::codec::push_quoted_str(out, "Random"),
    }
}

/// Append the quoted name of a difficulty.
pub fn push_difficulty(out: &mut Vec<char>, x: &crate::sc2::Difficulty)
    ensures
        final(out)@ == old(out)@ + enc_difficulty(*x),
{
    match x {
        crate::sc2::Difficulty::VeryEasy => crate::codec::push_quoted_str(out, "VeryEasy"),
        crate::sc2::Difficulty::Easy => crate::codec::push_quoted_str(out, "Easy"),
        crate::sc2::Difficulty::Medium => crate::codec::push_quoted_str(out, "Medium"),
        crate::sc2::Difficulty::MediumHard => crate::codec::push_quoted_str(out, "MediumHard"),
        crate::sc2::Difficulty::Hard => crate::codec::push_quoted_str(out, "Hard"),
        crate::sc2::Difficulty::Harder => crate::codec::push_quoted_str(out, "Harder"),
        crate::sc2::Difficulty::VeryHard => crate::codec::push_quoted_str(out, "VeryHard"),
        crate::sc2::Difficulty::CheatVision => crate::codec::push_quoted_str(out, "CheatVision"),
        crate::sc2::Difficulty::CheatMoney => crate::codec::push_quoted_str(out, "CheatMoney"),
        crate::sc2::Difficulty::CheatInsane => crate::codec::push_quoted_str(out, "CheatInsane"),
    }
}

/// Append the quoted name of a matchmaking mode.
pub fn push_mode(out: &mut Vec<char>, x: &crate::config::MatchmakingMode)
    ensures
        final(out)@ == old(out)@ + enc_mode(*x),
{
    match x {
        crate::config::MatchmakingMode::AgainstBuiltinAI => crate::codec::push_quoted_str(
            out,
            "AgainstBuiltinAI",
        ),
        crate::config::MatchmakingMode::Pairs => crate::codec::push_quoted_str(out, "Pairs"),
        crate::config::MatchmakingMode::Singleplayer => crate::codec::push_quoted_str(
            out,
            "Singleplayer",
        ),
        crate::config::MatchmakingMode::RemoteController => crate::codec::push_quoted_str(
            out,
            "RemoteController",
        ),
    }
}

/// Parse a race name.
pub fn parse_race_exec(s: &Vec<char>, i: usize) -> (r: Option<(crate::sc2::Race, usize)>)
    requires
        i <= s@.len(),
    ensures
        r matches Some(p) ==> parse_race(s@, i as int) == Some((p.0, p.1 as int)) && i <= p.1
            <= s@.len(),
        r is None ==> parse_race(s@, i as int) is None,
{
    match parse_str_tok_exec(s, i) {
        None => None,
        Some((n, j)) => {
            if crate::codec::text_is(&n, "Protoss") {
                Some((crate::sc2::Race::Protoss, j))
            } else if crate::codec::text_is(&n, "Terran") {
                Some((crate::sc2::Race::Terran, j))
            } else if crate::codec::text_is(&n, "Zerg") {
                Some((crate::sc2::Race::Zerg, j))
            } else if crate::codec::text_is(&n, "Random") {
                Some((crate::sc2::Race::Random, j))
            } else {
                None
            }
        },
    }
}

/// Parse a difficulty name.
pub fn parse_difficulty_exec(s: &Vec<char>, i: usize) -> (r: Option<
    (crate::sc2::Difficulty, usize),
>)
    requires
        i <= s@.len(),
    ensures
        r matches Some(p) ==> parse_difficulty(s@, i as int) == Some((p.0, p.1 as int)) && i <= p.1
            <= s@.len(),
        r is None ==> parse_difficulty(s@, i as int) is None,
{
    match parse_str_tok_exec(s, i) {
        None => None,
        Some((n, j)) => {
            if crate::codec::text_is(&n, "VeryEasy") {
                Some((crate::sc2::Difficulty::VeryEasy, j))
            } else if crate::codec::text_is(&n, "Easy") {
                Some((crate::sc2::Difficulty::Easy, j))
            } else if crate::codec::text_is(&n, "Medium") {
                Some((crate::sc2::Difficulty::Medium, j))
            } else if crate::codec::text_is(&n, "MediumHard") {
                Some((crate::sc2::Difficulty::MediumHard, j))
            } else if crate::codec::text_is(&n, "Hard") {
                Some((crate::sc2::Difficulty::Hard, j))
            } else if crate::codec::text_is(&n, "Harder") {
                Some((crate::sc2::Difficulty::Harder, j))
            } else if crate::codec::text_is(&n, "VeryHard") {
                Some((crate::sc2::Difficulty::VeryHard, j))
            } else if crate::codec::text_is(&n, "CheatVision") {
                Some((crate::sc2::Difficulty::CheatVision, j))
            } else if crate::codec::text_is(&n, "CheatMoney") {
                Some((crate::sc2::Difficulty::CheatMoney, j))
            } else if crate::codec::text_is(&n, "CheatInsane") {
                Some((crate::sc2::Difficulty::CheatInsane, j))
            } else {
                None
            }
        },
    }
}

/// Parse a matchmaking-mode name.
pub fn parse_mode_exec(s: &Vec<char>, i: usize) -> (r: Option<
    (crate::config::MatchmakingMode, usize),
>)
    requires
        i <= s@.len(),
    ensures
        r matches Some(p) ==> parse_mode(s@, i as int) == Some((p.0, p.1 as int)) && i <= p.1
            <= s@.len(),
        r is None ==> parse_mode(s@, i as int) is None,
{
    match parse_str_tok_exec(s, i) {
        None => None,
        Some((n, j)) => {
            if crate::codec::text_is(&n, "AgainstBuiltinAI") {
                Some((crate::config::MatchmakingMode::AgainstBuiltinAI, j))
            } else if crate::codec::text_is(&n, "Pairs") {
                Some((crate::config::MatchmakingMode::Pairs, j))
            } else if crate::codec::text_is(&n, "Singleplayer") {
                Some((crate::config::MatchmakingMode::Singleplayer, j))
            } else if crate::codec::text_is(&n, "RemoteController") {
                Some((crate::config::MatchmakingMode::RemoteController, j))
            } else {
                None
            }
        },
    }
}

/// Parse `null` or an unsigned 64-bit number.
pub fn parse_opt_u64_exec(s: &Vec<char>, i: usize) -> (r: Option<(Option<u64>, usize)>)
    requires
        i <= s@.len(),
    ensures
        r matches Some(p) ==> parse_opt_u64(s@, i as int) == Some((p.0, p.1 as int)) && i <= p.1
            <= s@.len(),
        r is None ==> parse_opt_u64(s@, i as int) is None,
{
    let j = skip_ws(s, i);
    match match_lit(s, j, "null") {
        Some(j2) => {
            proof {
                reveal_strlit("null");
            }
            Some((None, j2))
        },
        None => match parse_u64(s, j) {
            Some((v, j2)) => Some((Some(v), j2)),
            None => None,
        },
    }
}

/// Parse `null` or an unsigned 32-bit number.
pub fn parse_opt_u32_exec(s: &Vec<char>, i: usize) -> (r: Option<(Option<u32>, usize)>)
    requires
        i <= s@.len(),
    ensures
        r matches Some(p) ==> parse_opt_u32(s@, i as int) == Some((p.0, p.1 as int)) && i <= p.1
            <= s@.len(),
        r is None ==> parse_opt_u32(s@, i as int) is None,
{
    match parse_opt_u64_exec(s, i) {
        Some((Some(v), j)) => {
            if v <= 0xFFFF_FFFFu64 {
                Some((Some(v as u32), j))
            } else {
                None
            }
        },
        Some((None, j)) => Some((None, j)),
        None => None,
    }
}

/// Parse `null` or a quoted string.
pub fn parse_opt_str_exec(s: &Vec<char>, i: usize) -> (r: Option<(Option<String>, usize)>)
    requires
        i <= s@.len(),
    ensures
        r matches Some(p) ==> parse_opt_str(s@, i as int) == Some((opt_str_view(p.0), p.1 as int))
            && i <= p.1 <= s@.len(),
        r is None ==> parse_opt_str(s@, i as int) is None,
{
    let j = skip_ws(s, i);
    match match_lit(s, j, "null") {
        Some(j2) => {
            proof {
                reveal_strlit("null");
            }
            Some((None, j2))
        },
        None => {
            if j < s.len() && s[j] == '"' {
                match parse_qstr(s, j + 1) {
                    Some((content, j2)) => Some(
                        (Some(crate::codec::string_from_chars(&content)), j2),
                    ),
                    None => None,
                }
            } else {
                None
            }
        },
    }
}

} // verus!

verus! {

#[verifier::opaque]
pub open spec fn enc_process_options(x: crate::config::ProcessOptions) -> Seq<char> {
    "{"@
        + "\"fullscreen\":"@
        + enc_bool(x.fullscreen)
        + ","@
        + "\"verbose\":"@
        + enc_bool(x.verbose)
        + "}"@
}

pub open spec fn parse_process_options(s: Seq<char>, i: int) -> Option<(crate::config::ProcessOptions, int)> {
    match tok(s, i, "{"@) { None => None, Some(i1) => match tok(s, i1, "\"fullscreen\":"@) { None => None, Some(i2) => match parse_bool_tok(s, i2) { None => None, Some((f_fullscreen, i3)) => match tok(s, i3, ","@) { None => None, Some(i4) => match tok(s, i4, "\"verbose\":"@) { None => None, Some(i5) => match parse_bool_tok(s, i5) { None => None, Some((f_verbose, i6)) => match tok(s, i6, "}"@) { None => None, Some(i7) => Some((crate::config::ProcessOptions { fullscreen: f_fullscreen, verbose: f_verbose }, i7)) } } } } } } }
}

pub proof fn lemma_parse_process_options(s: Seq<char>, i: int, x: crate::config::ProcessOptions)
    requires
        at(s, i, enc_process_options(x)),
    ensures
        parse_process_options(s, i) == Some((x, i + enc_process_options(x).len())),
{
    reveal(enc_process_options);
    reveal_punct();
    reveal_strlit("\"fullscreen\":");
    reveal_strlit("\"verbose\":");
    reveal_strlit("false");
    reveal_strlit("true");
    let p6 = "{"@ + "\"fullscreen\":"@ + enc_bool(x.fullscreen) + ","@ + "\"verbose\":"@ + enc_bool(x.verbose);
    let p5 = "{"@ + "\"fullscreen\":"@ + enc_bool(x.fullscreen) + ","@ + "\"verbose\":"@;
    let p4 = "{"@ + "\"fullscreen\":"@ + enc_bool(x.fullscreen) + ","@;
    let p3 = "{"@ + "\"fullscreen\":"@ + enc_bool(x.fullscreen);
    let p2 = "{"@ + "\"fullscreen\":"@;
    let p1 = "{"@;
    lemma_at_concat(s, i, p6, "}"@);
    lemma_at_concat(s, i, p5, enc_bool(x.verbose));
    lemma_at_concat(s, i, p4, "\"verbose\":"@);
    lemma_at_concat(s, i, p3, ","@);
    lemma_at_concat(s, i, p2, enc_bool(x.fullscreen));
    lemma_at_concat(s, i, p1, "\"fullscreen\":"@);
    lemma_tok(s, i, "{"@);
    lemma_tok(s, i + p1.len(), "\"fullscreen\":"@);
    lemma_parse_bool_tok(s, i + p2.len(), x.fullscreen);
    lemma_tok(s, i + p3.len(), ","@);
    lemma_tok(s, i + p4.len(), "\"verbose\":"@);
    lemma_parse_bool_tok(s, i + p5.len(), x.verbose);
    lemma_tok(s, i + p6.len(), "}"@);
}

/// Parse one canonical object of this type.
#[verifier::rlimit(100)]
pub fn parse_process_options_exec(s: &Vec<char>, i: usize) -> (r: Option<(crate::config::ProcessOptions, usize)>)
    requires
        i <= s@.len(),
    ensures
        r matches Some(p) ==> parse_process_options(s@, i as int) == Some((p.0, p.1 as int)) && i <= p.1
            <= s@.len(),
        r is None ==> parse_process_options(s@, i as int) is None,
{
    let i1 = match tok_exec(s, i, "{") { Some(j) => j, None => { return None; } };
    let i2 = match tok_exec(s, i1, "\"fullscreen\":") { Some(j) => j, None => { return None; } };
    let (f_fullscreen, i3) = match parse_bool_tok_exec(s, i2) { Some(p) => p, None => { return None; } };
    let i4 = match tok_exec(s, i3, ",") { Some(j) => j, None => { return None; } };
    let i5 = match tok_exec(s, i4, "\"verbose\":") { Some(j) => j, None => { return None; } };
    let (f_verbose, i6) = match parse_bool_tok_exec(s, i5) { Some(p) => p, None => { return None; } };
    let i7 = match tok_exec(s, i6, "}") { Some(j) => j, None => { return None; } };
    Some((crate::config::ProcessOptions { fullscreen: f_fullscreen, verbose: f_verbose }, i7))
}

/// Append the canonical encoding of this value.
#[verifier::rlimit(100)]
pub fn push_process_options(out: &mut Vec<char>, x: &crate::config::ProcessOptions)
    ensures
        final(out)@ == old(out)@ + enc_process_options(*x),
{
    proof {
        reveal(enc_process_options);
    }
    crate::codec::push_lit(out, "{");
    crate::codec::push_lit(out, "\"fullscreen\":");
    push_bool(out, x.fullscreen);
    crate::codec::push_lit(out, ",");
    crate::codec::push_lit(out, "\"verbose\":");
    push_bool(out, x.verbose);
    crate::codec::push_lit(out, "}");
    assert(out@ =~= old(out)@ + enc_process_options(*x));
}

#[verifier::opaque]
pub open spec fn enc_request_limits(x: crate::config::RequestLimits) -> Seq<char> {
    "{"@
        + "\"disable_cheats\":"@
        + enc_bool(x.disable_cheats)
        + "}"@
}

pub open spec fn parse_request_limits(s: Seq<char>, i: int) -> Option<(crate::config::RequestLimits, int)> {
    match tok(s, i, "{"@) { None => None, Some(i1) => match tok(s, i1, "\"disable_cheats\":"@) { None => None, Some(i2) => match parse_bool_tok(s, i2) { None => None, Some((f_disable_cheats, i3)) => match tok(s, i3, "}"@) { None => None, Some(i4) => Some((crate::config::RequestLimits { disable_cheats: f_disable_cheats }, i4)) } } } }
}

pub proof fn lemma_parse_request_limits(s: Seq<char>, i: int, x: crate::config::RequestLimits)
    requires
        at(s, i, enc_request_limits(x)),
    ensures
        parse_request_limits(s, i) == Some((x, i + enc_request_limits(x).len())),
{
    reveal(enc_request_limits);
    reveal_punct();
    reveal_strlit("\"disable_cheats\":");
    reveal_strlit("false");
    reveal_strlit("true");
    let p3 = "{"@ + "\"disable_cheats\":"@ + enc_bool(x.disable_cheats);
    let p2 = "{"@ + "\"disable_cheats\":"@;
    let p1 = "{"@;
    lemma_at_concat(s, i, p3, "}"@);
    lemma_at_concat(s, i, p2, enc_bool(x.disable_cheats));
    lemma_at_concat(s, i, p1, "\"disable_cheats\":"@);
    lemma_tok(s, i, "{"@);
    lemma_tok(s, i + p1.len(), "\"disable_cheats\":"@);
    lemma_parse_bool_tok(s, i + p2.len(), x.disable_cheats);
    lemma_tok(s, i + p3.len(), "}"@);
}

/// Parse one canonical object of this type.
#[verifier::rlimit(100)]
pub fn parse_request_limits_exec(s: &Vec<char>, i: usize) -> (r: Option<(crate::config::RequestLimits, usize)>)
    requires
        i <= s@.len(),
    ensures
        r matches Some(p) ==> parse_request_limits(s@, i as int) == Some((p.0, p.1 as int)) && i <= p.1
            <= s@.len(),
        r is None ==> parse_request_limits(s@, i as int) is None,
{
    let i1 = match tok_exec(s, i, "{") { Some(j) => j, None => { return None; } };
    let i2 = match tok_exec(s, i1, "\"disable_cheats\":") { Some(j) => j, None => { return None; } };
    let (f_disable_cheats, i3) = match parse_bool_tok_exec(s, i2) { Some(p) => p, None => { return None; } };
    let i4 = match tok_exec(s, i3, "}") { Some(j) => j, None => { return None; } };
    Some((crate::config::RequestLimits { disable_cheats: f_disable_cheats }, i4))
}

/// Append the canonical encoding of this value.
#[verifier::rlimit(100)]
pub fn push_request_limits(out: &mut Vec<char>, x: &crate::config::RequestLimits)
    ensures
        final(out)@ == old(out)@ + enc_request_limits(*x),
{
    proof {
        reveal(enc_request_limits);
    }
    crate::codec::push_lit(out, "{");
    crate::codec::push_lit(out, "\"disable_cheats\":");
    push_bool(out, x.disable_cheats);
    crate::codec::push_lit(out, "}");
    assert(out@ =~= old(out)@ + enc_request_limits(*x));
}

#[verifier::opaque]
pub open spec fn enc_time_limits(x: crate::config::TimeLimits) -> Seq<char> {
    "{"@
        + "\"game_loops\":"@
        + enc_opt_u64(x.game_loops)
        + "}"@
}

pub open spec fn parse_time_limits(s: Seq<char>, i: int) -> Option<(crate::config::TimeLimits, int)> {
    match tok(s, i, "{"@) { None => None, Some(i1) => match tok(s, i1, "\"game_loops\":"@) { None => None, Some(i2) => match parse_opt_u64(s, i2) { None => None, Some((f_game_loops, i3)) => match tok(s, i3, "}"@) { None => None, Some(i4) => Some((crate::config::TimeLimits { game_loops: f_game_loops }, i4)) } } } }
}

pub proof fn lemma_parse_time_limits(s: Seq<char>, i: int, x: crate::config::TimeLimits)
    requires
        at(s, i, enc_time_limits(x)),
    ensures
        parse_time_limits(s, i) == Some((x, i + enc_time_limits(x).len())),
{
    reveal(enc_time_limits);
    reveal_punct();
    reveal_strlit("\"game_loops\":");
    reveal_strlit("null");
    let p3 = "{"@ + "\"game_loops\":"@ + enc_opt_u64(x.game_loops);
    let p2 = "{"@ + "\"game_loops\":"@;
    let p1 = "{"@;
    lemma_at_concat(s, i, p3, "}"@);
    lemma_at_concat(s, i, p2, enc_opt_u64(x.game_loops));
    lemma_at_concat(s, i, p1, "\"game_loops\":"@);
    lemma_tok(s, i, "{"@);
    lemma_tok(s, i + p1.len(), "\"game_loops\":"@);
    lemma_at_index(s, i + p3.len(), "}"@, 0);
    lemma_parse_opt_u64(s, i + p2.len(), x.game_loops);
    lemma_tok(s, i + p3.len(), "}"@);
}

/// Parse one canonical object of this type.
#[verifier::rlimit(100)]
pub fn parse_time_limits_exec(s: &Vec<char>, i: usize) -> (r: Option<(crate::config::TimeLimits, usize)>)
    requires
        i <= s@.len(),
    ensures
        r matches Some(p) ==> parse_time_limits(s@, i as int) == Some((p.0, p.1 as int)) && i <= p.1
            <= s@.len(),
        r is None ==> parse_time_limits(s@, i as int) is None,
{
    let i1 = match tok_exec(s, i, "{") { Some(j) => j, None => { return None; } };
    let i2 = match tok_exec(s, i1, "\"game_loops\":") { Some(j) => j, None => { return None; } };
    let (f_game_loops, i3) = match parse_opt_u64_exec(s, i2) { Some(p) => p, None => { return None; } };
    let i4 = match tok_exec(s, i3, "}") { Some(j) => j, None => { return None; } };
    Some((crate::config::TimeLimits { game_loops: f_game_loops }, i4))
}

/// Append the canonical encoding of this value.
#[verifier::rlimit(100)]
pub fn push_time_limits(out: &mut Vec<char>, x: &crate::config::TimeLimits)
    ensures
        final(out)@ == old(out)@ + enc_time_limits(*x),
{
    proof {
        reveal(enc_time_limits);
    }
    crate::codec::push_lit(out, "{");
    crate::codec::push_lit(out, "\"game_loops\":");
    push_opt_u64(out, &x.game_loops);
    crate::codec::push_lit(out, "}");
    assert(out@ =~= old(out)@ + enc_time_limits(*x));
}

#[verifier::opaque]
pub open spec fn enc_matchmaking(x: crate::config::Matchmaking) -> Seq<char> {
    "{"@
        + "\"mode\":"@
        + enc_mode(x.mode)
        + ","@
        + "\"cpu_difficulty\":"@
        + enc_difficulty(x.cpu_difficulty)
        + ","@
        + "\"cpu_race\":"@
        + enc_race(x.cpu_race)
        + "}"@
}

pub open spec fn parse_matchmaking(s: Seq<char>, i: int) -> Option<(crate::config::Matchmaking, int)> {
    match tok(s, i, "{"@) { None => None, Some(i1) => match tok(s, i1, "\"mode\":"@) { None => None, Some(i2) => match parse_mode(s, i2) { None => None, Some((f_mode, i3)) => match tok(s, i3, ","@) { None => None, Some(i4) => match tok(s, i4, "\"cpu_difficulty\":"@) { None => None, Some(i5) => match parse_difficulty(s, i5) { None => None, Some((f_cpu_difficulty, i6)) => match tok(s, i6, ","@) { None => None, Some(i7) => match tok(s, i7, "\"cpu_race\":"@) { None => None, Some(i8) => match parse_race(s, i8) { None => None, Some((f_cpu_race, i9)) => match tok(s, i9, "}"@) { None => None, Some(i10) => Some((crate::config::Matchmaking { mode: f_mode, cpu_difficulty: f_cpu_difficulty, cpu_race: f_cpu_race }, i10)) } } } } } } } } } }
}

pub proof fn lemma_parse_matchmaking(s: Seq<char>, i: int, x: crate::config::Matchmaking)
    requires
        at(s, i, enc_matchmaking(x)),
    ensures
        parse_matchmaking(s, i) == Some((x, i + enc_matchmaking(x).len())),
{
    reveal(enc_matchmaking);
    reveal_punct();
    reveal_strlit("\"cpu_difficulty\":");
    reveal_strlit("\"cpu_race\":");
    reveal_strlit("\"mode\":");
    let p9 = "{"@ + "\"mode\":"@ + enc_mode(x.mode) + ","@ + "\"cpu_difficulty\":"@ + enc_difficulty(x.cpu_difficulty) + ","@ + "\"cpu_race\":"@ + enc_race(x.cpu_race);
    let p8 = "{"@ + "\"mode\":"@ + enc_mode(x.mode) + ","@ + "\"cpu_difficulty\":"@ + enc_difficulty(x.cpu_difficulty) + ","@ + "\"cpu_race\":"@;
    let p7 = "{"@ + "\"mode\":"@ + enc_mode(x.mode) + ","@ + "\"cpu_difficulty\":"@ + enc_difficulty(x.cpu_difficulty) + ","@;
    let p6 = "{"@ + "\"mode\":"@ + enc_mode(x.mode) + ","@ + "\"cpu_difficulty\":"@ + enc_difficulty(x.cpu_difficulty);
    let p5 = "{"@ + "\"mode\":"@ + enc_mode(x.mode) + ","@ + "\"cpu_difficulty\":"@;
    let p4 = "{"@ + "\"mode\":"@ + enc_mode(x.mode) + ","@;
    let p3 = "{"@ + "\"mode\":"@ + enc_mode(x.mode);
    let p2 = "{"@ + "\"mode\":"@;
    let p1 = "{"@;
    lemma_at_concat(s, i, p9, "}"@);
    lemma_at_concat(s, i, p8, enc_race(x.cpu_race));
    lemma_at_concat(s, i, p7, "\"cpu_race\":"@);
    lemma_at_concat(s, i, p6, ","@);
    lemma_at_concat(s, i, p5, enc_difficulty(x.cpu_difficulty));
    lemma_at_concat(s, i, p4, "\"cpu_difficulty\":"@);
    lemma_at_concat(s, i, p3, ","@);
    lemma_at_concat(s, i, p2, enc_mode(x.mode));
    lemma_at_concat(s, i, p1, "\"mode\":"@);
    lemma_tok(s, i, "{"@);
    lemma_tok(s, i + p1.len(), "\"mode\":"@);
    lemma_parse_mode(s, i + p2.len(), x.mode);
    lemma_tok(s, i + p3.len(), ","@);
    lemma_tok(s, i + p4.len(), "\"cpu_difficulty\":"@);
    lemma_parse_difficulty(s, i + p5.len(), x.cpu_difficulty);
    lemma_tok(s, i + p6.len(), ","@);
    lemma_tok(s, i + p7.len(), "\"cpu_race\":"@);
    lemma_parse_race(s, i + p8.len(), x.cpu_race);
    lemma_tok(s, i + p9.len(), "}"@);
}

/// Parse one canonical object of this type.
#[verifier::rlimit(100)]
pub fn parse_matchmaking_exec(s: &Vec<char>, i: usize) -> (r: Option<(crate::config::Matchmaking, usize)>)
    requires
        i <= s@.len(),
    ensures
        r matches Some(p) ==> parse_matchmaking(s@, i as int) == Some((p.0, p.1 as int)) && i <= p.1
            <= s@.len(),
        r is None ==> parse_matchmaking(s@, i as int) is None,
{
    let i1 = match tok_exec(s, i, "{") { Some(j) => j, None => { return None; } };
    let i2 = match tok_exec(s, i1, "\"mode\":") { Some(j) => j, None => { return None; } };
    let (f_mode, i3) = match parse_mode_exec(s, i2) { Some(p) => p, None => { return None; } };
    let i4 = match tok_exec(s, i3, ",") { Some(j) => j, None => { return None; } };
    let i5 = match tok_exec(s, i4, "\"cpu_difficulty\":") { Some(j) => j, None => { return None; } };
    let (f_cpu_difficulty, i6) = match parse_difficulty_exec(s, i5) { Some(p) => p, None => { return None; } };
    let i7 = match tok_exec(s, i6, ",") { Some(j) => j, None => { return None; } };
    let i8 = match tok_exec(s, i7, "\"cpu_race\":") { Some(j) => j, None => { return None; } };
    let (f_cpu_race, i9) = match parse_race_exec(s, i8) { Some(p) => p, None => { return None; } };
    let i10 = match tok_exec(s, i9, "}") { Some(j) => j, None => { return None; } };
    Some((crate::config::Matchmaking { mode: f_mode, cpu_difficulty: f_cpu_difficulty, cpu_race: f_cpu_race }, i10))
}

/// Append the canonical encoding of this value.
#[verifier::rlimit(100)]
pub fn push_matchmaking(out: &mut Vec<char>, x: &crate::config::Matchmaking)
    ensures
        final(out)@ == old(out)@ + enc_matchmaking(*x),
{
    proof {
        reveal(enc_matchmaking);
    }
    crate::codec::push_lit(out, "{");
    crate::codec::push_lit(out, "\"mode\":");
    push_mode(out, &x.mode);
    crate::codec::push_lit(out, ",");
    crate::codec::push_lit(out, "\"cpu_difficulty\":");
    push_difficulty(out, &x.cpu_difficulty);
    crate::codec::push_lit(out, ",");
    crate::codec::push_lit(out, "\"cpu_race\":");
    push_race(out, &x.cpu_race);
    crate::codec::push_lit(out, "}");
    assert(out@ =~= old(out)@ + enc_matchmaking(*x));
}

#[verifier::opaque]
pub open spec fn enc_proxy(x: crate::config::ProxyV) -> Seq<char> {
    "{"@
        + "\"host\":"@
        + enc_str(x.host)
        + ","@
        + "\"port\":"@
        + enc_u64(x.port as u64)
        + "}"@
}

pub open spec fn parse_proxy(s: Seq<char>, i: int) -> Option<(crate::config::ProxyV, int)> {
    match tok(s, i, "{"@) { None => None, Some(i1) => match tok(s, i1, "\"host\":"@) { None => None, Some(i2) => match parse_str_tok(s, i2) { None => None, Some((f_host, i3)) => match tok(s, i3, ","@) { None => None, Some(i4) => match tok(s, i4, "\"port\":"@) { None => None, Some(i5) => match parse_u16_tok(s, i5) { None => None, Some((f_port, i6)) => match tok(s, i6, "}"@) { None => None, Some(i7) => Some((crate::config::ProxyV { host: f_host, port: f_port }, i7)) } } } } } } }
}

pub proof fn lemma_parse_proxy(s: Seq<char>, i: int, x: crate::config::ProxyV)
    requires
        at(s, i, enc_proxy(x)),
    ensures
        parse_proxy(s, i) == Some((x, i + enc_proxy(x).len())),
{
    reveal(enc_proxy);
    reveal_punct();
    reveal_strlit("\"host\":");
    reveal_strlit("\"port\":");
    let p6 = "{"@ + "\"host\":"@ + enc_str(x.host) + ","@ + "\"port\":"@ + enc_u64(x.port as u64);
    let p5 = "{"@ + "\"host\":"@ + enc_str(x.host) + ","@ + "\"port\":"@;
    let p4 = "{"@ + "\"host\":"@ + enc_str(x.host) + ","@;
    let p3 = "{"@ + "\"host\":"@ + enc_str(x.host);
    let p2 = "{"@ + "\"host\":"@;
    let p1 = "{"@;
    lemma_at_concat(s, i, p6, "}"@);
    lemma_at_concat(s, i, p5, enc_u64(x.port as u64));
    lemma_at_concat(s, i, p4, "\"port\":"@);
    lemma_at_concat(s, i, p3, ","@);
    lemma_at_concat(s, i, p2, enc_str(x.host));
    lemma_at_concat(s, i, p1, "\"host\":"@);
    lemma_tok(s, i, "{"@);
    lemma_tok(s, i + p1.len(), "\"host\":"@);
    lemma_parse_str_tok(s, i + p2.len(), x.host);
    lemma_tok(s, i + p3.len(), ","@);
    lemma_tok(s, i + p4.len(), "\"port\":"@);
    lemma_at_index(s, i + p6.len(), "}"@, 0);
    lemma_parse_u16_tok(s, i + p5.len(), x.port);
    lemma_tok(s, i + p6.len(), "}"@);
}

/// Parse one canonical object of this type.
#[verifier::rlimit(100)]
pub fn parse_proxy_exec(s: &Vec<char>, i: usize) -> (r: Option<(crate::config::Proxy, usize)>)
    requires
        i <= s@.len(),
    ensures
        r matches Some(p) ==> parse_proxy(s@, i as int) == Some((p.0@, p.1 as int)) && i <= p.1
            <= s@.len(),
        r is None ==> parse_proxy(s@, i as int) is None,
{
    let i1 = match tok_exec(s, i, "{") { Some(j) => j, None => { return None; } };
    let i2 = match tok_exec(s, i1, "\"host\":") { Some(j) => j, None => { return None; } };
    let (f_host_chars, i3) = match parse_str_tok_exec(s, i2) { Some(p) => p, None => { return None; } };
    let f_host = crate::codec::string_from_chars(&f_host_chars);
    let i4 = match tok_exec(s, i3, ",") { Some(j) => j, None => { return None; } };
    let i5 = match tok_exec(s, i4, "\"port\":") { Some(j) => j, None => { return None; } };
    let (f_port, i6) = match parse_u16_tok_exec(s, i5) { Some(p) => p, None => { return None; } };
    let i7 = match tok_exec(s, i6, "}") { Some(j) => j, None => { return None; } };
    Some((crate::config::Proxy { host: f_host, port: f_port }, i7))
}

/// Append the canonical encoding of this value.
#[verifier::rlimit(100)]
pub fn push_proxy(out: &mut Vec<char>, x: &crate::config::Proxy)
    ensures
        final(out)@ == old(out)@ + enc_proxy(x@),
{
    proof {
        reveal(enc_proxy);
    }
    crate::codec::push_lit(out, "{");
    crate::codec::push_lit(out, "\"host\":");
    push_string(out, &x.host);
    crate::codec::push_lit(out, ",");
    crate::codec::push_lit(out, "\"port\":");
    crate::codec::push_dec_u64(out, x.port as u64);
    crate::codec::push_lit(out, "}");
    assert(out@ =~= old(out)@ + enc_proxy(x@));
}

#[verifier::opaque]
pub open spec fn enc_remote_controller_cfg(x: crate::config::RemoteControllerV) -> Seq<char> {
    "{"@
        + "\"enabled\":"@
        + enc_bool(x.enabled)
        + ","@
        + "\"host\":"@
        + enc_str(x.host)
        + ","@
        + "\"port\":"@
        + enc_u64(x.port as u64)
        + "}"@
}

pub open spec fn parse_remote_controller_cfg(s: Seq<char>, i: int) -> Option<(crate::config::RemoteControllerV, int)> {
    match tok(s, i, "{"@) { None => None, Some(i1) => match tok(s, i1, "\"enabled\":"@) { None => None, Some(i2) => match parse_bool_tok(s, i2) { None => None, Some((f_enabled, i3)) => match tok(s, i3, ","@) { None => None, Some(i4) => match tok(s, i4, "\"host\":"@) { None => None, Some(i5) => match parse_str_tok(s, i5) { None => None, Some((f_host, i6)) => match tok(s, i6, ","@) { None => None, Some(i7) => match tok(s, i7, "\"port\":"@) { None => None, Some(i8) => match parse_u16_tok(s, i8) { None => None, Some((f_port, i9)) => match tok(s, i9, "}"@) { None => None, Some(i10) => Some((crate::config::RemoteControllerV { enabled: f_enabled, host: f_host, port: f_port }, i10)) } } } } } } } } } }
}

pub proof fn lemma_parse_remote_controller_cfg(s: Seq<char>, i: int, x: crate::config::RemoteControllerV)
    requires
        at(s, i, enc_remote_controller_cfg(x)),
    ensures
        parse_remote_controller_cfg(s, i) == Some((x, i + enc_remote_controller_cfg(x).len())),
{
    reveal(enc_remote_controller_cfg);
    reveal_punct();
    reveal_strlit("\"enabled\":");
    reveal_strlit("\"host\":");
    reveal_strlit("\"port\":");
    reveal_strlit("false");
    reveal_strlit("true");
    let p9 = "{"@ + "\"enabled\":"@ + enc_bool(x.enabled) + ","@ + "\"host\":"@ + enc_str(x.host) + ","@ + "\"port\":"@ + enc_u64(x.port as u64);
    let p8 = "{"@ + "\"enabled\":"@ + enc_bool(x.enabled) + ","@ + "\"host\":"@ + enc_str(x.host) + ","@ + "\"port\":"@;
    let p7 = "{"@ + "\"enabled\":"@ + enc_bool(x.enabled) + ","@ + "\"host\":"@ + enc_str(x.host) + ","@;
    let p6 = "{"@ + "\"enabled\":"@ + enc_bool(x.enabled) + ","@ + "\"host\":"@ + enc_str(x.host);
    let p5 = "{"@ + "\"enabled\":"@ + enc_bool(x.enabled) + ","@ + "\"host\":"@;
    let p4 = "{"@ + "\"enabled\":"@ + enc_bool(x.enabled) + ","@;
    let p3 = "{"@ + "\"enabled\":"@ + enc_bool(x.enabled);
    let p2 = "{"@ + "\"enabled\":"@;
    let p1 = "{"@;
    lemma_at_concat(s, i, p9, "}"@);
    lemma_at_concat(s, i, p8, enc_u64(x.port as u64));
    lemma_at_concat(s, i, p7, "\"port\":"@);
    lemma_at_concat(s, i, p6, ","@);
    lemma_at_concat(s, i, p5, enc_str(x.host));
    lemma_at_concat(s, i, p4, "\"host\":"@);
    lemma_at_concat(s, i, p3, ","@);
    lemma_at_concat(s, i, p2, enc_bool(x.enabled));
    lemma_at_concat(s, i, p1, "\"enabled\":"@);
    lemma_tok(s, i, "{"@);
    lemma_tok(s, i + p1.len(), "\"enabled\":"@);
    lemma_parse_bool_tok(s, i + p2.len(), x.enabled);
    lemma_tok(s, i + p3.len(), ","@);
    lemma_tok(s, i + p4.len(), "\"host\":"@);
    lemma_parse_str_tok(s, i + p5.len(), x.host);
    lemma_tok(s, i + p6.len(), ","@);
    lemma_tok(s, i + p7.len(), "\"port\":"@);
    lemma_at_index(s, i + p9.len(), "}"@, 0);
    lemma_parse_u16_tok(s, i + p8.len(), x.port);
    lemma_tok(s, i + p9.len(), "}"@);
}

/// Parse one canonical object of this type.
#[verifier::rlimit(100)]
pub fn parse_remote_controller_cfg_exec(s: &Vec<char>, i: usize) -> (r: Option<(crate::config::RemoteController, usize)>)
    requires
        i <= s@.len(),
    ensures
        r matches Some(p) ==> parse_remote_controller_cfg(s@, i as int) == Some((p.0@, p.1 as int)) && i <= p.1
            <= s@.len(),
        r is None ==> parse_remote_controller_cfg(s@, i as int) is None,
{
    let i1 = match tok_exec(s, i, "{") { Some(j) => j, None => { return None; } };
    let i2 = match tok_exec(s, i1, "\"enabled\":") { Some(j) => j, None => { return None; } };
    let (f_enabled, i3) = match parse_bool_tok_exec(s, i2) { Some(p) => p, None => { return None; } };
    let i4 = match tok_exec(s, i3, ",") { Some(j) => j, None => { return None; } };
    let i5 = match tok_exec(s, i4, "\"host\":") { Some(j) => j, None => { return None; } };
    let (f_host_chars, i6) = match parse_str_tok_exec(s, i5) { Some(p) => p, None => { return None; } };
    let f_host = crate::codec::string_from_chars(&f_host_chars);
    let i7 = match tok_exec(s, i6, ",") { Some(j) => j, None => { return None; } };
    let i8 = match tok_exec(s, i7, "\"port\":") { Some(j) => j, None => { return None; } };
    let (f_port, i9) = match parse_u16_tok_exec(s, i8) { Some(p) => p, None => { return None; } };
    let i10 = match tok_exec(s, i9, "}") { Some(j) => j, None => { return None; } };
    Some((crate::config::RemoteController { enabled: f_enabled, host: f_host, port: f_port }, i10))
}

/// Append the canonical encoding of this value.
#[verifier::rlimit(100)]
pub fn push_remote_controller_cfg(out: &mut Vec<char>, x: &crate::config::RemoteController)
    ensures
        final(out)@ == old(out)@ + enc_remote_controller_cfg(x@),
{
    proof {
        reveal(enc_remote_controller_cfg);
    }
    crate::codec::push_lit(out, "{");
    crate::codec::push_lit(out, "\"enabled\":");
    push_bool(out, x.enabled);
    crate::codec::push_lit(out, ",");
    crate::codec::push_lit(out, "\"host\":");
    push_string(out, &x.host);
    crate::codec::push_lit(out, ",");
    crate::codec::push_lit(out, "\"port\":");
    crate::codec::push_dec_u64(out, x.port as u64);
    crate::codec::push_lit(out, "}");
    assert(out@ =~= old(out)@ + enc_remote_controller_cfg(x@));
}

#[verifier::opaque]
pub open spec fn enc_game_config(x: crate::config::GameConfigV) -> Seq<char> {
    "{"@
        + "\"map_name\":"@
        + enc_opt_str(x.map_name)
        + ","@
        + "\"disable_fog\":"@
        + enc_bool(x.disable_fog)
        + ","@
        + "\"random_seed\":"@
        + enc_opt_u32(x.random_seed)
        + ","@
        + "\"realtime\":"@
        + enc_bool(x.realtime)
        + ","@
        + "\"allowed_interfaces\":"@
        + enc_allowed(x.allowed_interfaces)
        + "}"@
}

pub open spec fn parse_game_config(s: Seq<char>, i: int) -> Option<(crate::config::GameConfigV, int)> {
    match tok(s, i, "{"@) { None => None, Some(i1) => match tok(s, i1, "\"map_name\":"@) { None => None, Some(i2) => match parse_opt_str(s, i2) { None => None, Some((f_map_name, i3)) => match tok(s, i3, ","@) { None => None, Some(i4) => match tok(s, i4, "\"disable_fog\":"@) { None => None, Some(i5) => match parse_bool_tok(s, i5) { None => None, Some((f_disable_fog, i6)) => match tok(s, i6, ","@) { None => None, Some(i7) => match tok(s, i7, "\"random_seed\":"@) { None => None, Some(i8) => match parse_opt_u32(s, i8) { None => None, Some((f_random_seed, i9)) => match tok(s, i9, ","@) { None => None, Some(i10) => match tok(s, i10, "\"realtime\":"@) { None => None, Some(i11) => match parse_bool_tok(s, i11) { None => None, Some((f_realtime, i12)) => match tok(s, i12, ","@) { None => None, Some(i13) => match tok(s, i13, "\"allowed_interfaces\":"@) { None => None, Some(i14) => match parse_allowed(s, i14) { None => None, Some((f_allowed_interfaces, i15)) => match tok(s, i15, "}"@) { None => None, Some(i16) => Some((crate::config::GameConfigV { map_name: f_map_name, disable_fog: f_disable_fog, random_seed: f_random_seed, realtime: f_realtime, allowed_interfaces: f_allowed_interfaces }, i16)) } } } } } } } } } } } } } } } }
}

#[verifier::rlimit(100)]
#[verifier::spinoff_prover]
pub proof fn lemma_parse_game_config(s: Seq<char>, i: int, x: crate::config::GameConfigV)
    requires
        at(s, i, enc_game_config(x)),
    ensures
        parse_game_config(s, i) == Some((x, i + enc_game_config(x).len())),
{
    reveal(enc_game_config);
    reveal_punct();
    reveal_strlit("\"allowed_interfaces\":");
    reveal_strlit("\"disable_fog\":");
    reveal_strlit("\"map_name\":");
    reveal_strlit("\"random_seed\":");
    reveal_strlit("\"realtime\":");
    reveal_strlit("false");
    reveal_strlit("null");
    reveal_strlit("true");
    let p15 = "{"@ + "\"map_name\":"@ + enc_opt_str(x.map_name) + ","@ + "\"disable_fog\":"@ + enc_bool(x.disable_fog) + ","@ + "\"random_seed\":"@ + enc_opt_u32(x.random_seed) + ","@ + "\"realtime\":"@ + enc_bool(x.realtime) + ","@ + "\"allowed_interfaces\":"@ + enc_allowed(x.allowed_interfaces);
    let p14 = "{"@ + "\"map_name\":"@ + enc_opt_str(x.map_name) + ","@ + "\"disable_fog\":"@ + enc_bool(x.disable_fog) + ","@ + "\"random_seed\":"@ + enc_opt_u32(x.random_seed) + ","@ + "\"realtime\":"@ + enc_bool(x.realtime) + ","@ + "\"allowed_interfaces\":"@;
    let p13 = "{"@ + "\"map_name\":"@ + enc_opt_str(x.map_name) + ","@ + "\"disable_fog\":"@ + enc_bool(x.disable_fog) + ","@ + "\"random_seed\":"@ + enc_opt_u32(x.random_seed) + ","@ + "\"realtime\":"@ + enc_bool(x.realtime) + ","@;
    let p12 = "{"@ + "\"map_name\":"@ + enc_opt_str(x.map_name) + ","@ + "\"disable_fog\":"@ + enc_bool(x.disable_fog) + ","@ + "\"random_seed\":"@ + enc_opt_u32(x.random_seed) + ","@ + "\"realtime\":"@ + enc_bool(x.realtime);
    let p11 = "{"@ + "\"map_name\":"@ + enc_opt_str(x.map_name) + ","@ + "\"disable_fog\":"@ + enc_bool(x.disable_fog) + ","@ + "\"random_seed\":"@ + enc_opt_u32(x.random_seed) + ","@ + "\"realtime\":"@;
    let p10 = "{"@ + "\"map_name\":"@ + enc_opt_str(x.map_name) + ","@ + "\"disable_fog\":"@ + enc_bool(x.disable_fog) + ","@ + "\"random_seed\":"@ + enc_opt_u32(x.random_seed) + ","@;
    let p9 = "{"@ + "\"map_name\":"@ + enc_opt_str(x.map_name) + ","@ + "\"disable_fog\":"@ + enc_bool(x.disable_fog) + ","@ + "\"random_seed\":"@ + enc_opt_u32(x.random_seed);
    let p8 = "{"@ + "\"map_name\":"@ + enc_opt_str(x.map_name) + ","@ + "\"disable_fog\":"@ + enc_bool(x.disable_fog) + ","@ + "\"random_seed\":"@;
    let p7 = "{"@ + "\"map_name\":"@ + enc_opt_str(x.map_name) + ","@ + "\"disable_fog\":"@ + enc_bool(x.disable_fog) + ","@;
    let p6 = "{"@ + "\"map_name\":"@ + enc_opt_str(x.map_name) + ","@ + "\"disable_fog\":"@ + enc_bool(x.disable_fog);
    let p5 = "{"@ + "\"map_name\":"@ + enc_opt_str(x.map_name) + ","@ + "\"disable_fog\":"@;
    let p4 = "{"@ + "\"map_name\":"@ + enc_opt_str(x.map_name) + ","@;
    let p3 = "{"@ + "\"map_name\":"@ + enc_opt_str(x.map_name);
    let p2 = "{"@ + "\"map_name\":"@;
    let p1 = "{"@;
    lemma_at_concat(s, i, p15, "}"@);
    lemma_at_concat(s, i, p14, enc_allowed(x.allowed_interfaces));
    lemma_at_concat(s, i, p13, "\"allowed_interfaces\":"@);
    lemma_at_concat(s, i, p12, ","@);
    lemma_at_concat(s, i, p11, enc_bool(x.realtime));
    lemma_at_concat(s, i, p10, "\"realtime\":"@);
    lemma_at_concat(s, i, p9, ","@);
    lemma_at_concat(s, i, p8, enc_opt_u32(x.random_seed));
    lemma_at_concat(s, i, p7, "\"random_seed\":"@);
    lemma_at_concat(s, i, p6, ","@);
    lemma_at_concat(s, i, p5, enc_bool(x.disable_fog));
    lemma_at_concat(s, i, p4, "\"disable_fog\":"@);
    lemma_at_concat(s, i, p3, ","@);
    lemma_at_concat(s, i, p2, enc_opt_str(x.map_name));
    lemma_at_concat(s, i, p1, "\"map_name\":"@);
    lemma_tok(s, i, "{"@);
    lemma_tok(s, i + p1.len(), "\"map_name\":"@);
    lemma_parse_opt_str(s, i + p2.len(), x.map_name);
    lemma_tok(s, i + p3.len(), ","@);
    lemma_tok(s, i + p4.len(), "\"disable_fog\":"@);
    lemma_parse_bool_tok(s, i + p5.len(), x.disable_fog);
    lemma_tok(s, i + p6.len(), ","@);
    lemma_tok(s, i + p7.len(), "\"random_seed\":"@);
    lemma_at_index(s, i + p9.len(), ","@, 0);
    lemma_parse_opt_u32(s, i + p8.len(), x.random_seed);
    lemma_tok(s, i + p9.len(), ","@);
    lemma_tok(s, i + p10.len(), "\"realtime\":"@);
    lemma_parse_bool_tok(s, i + p11.len(), x.realtime);
    lemma_tok(s, i + p12.len(), ","@);
    lemma_tok(s, i + p13.len(), "\"allowed_interfaces\":"@);
    lemma_parse_allowed(s, i + p14.len(), x.allowed_interfaces);
    lemma_tok(s, i + p15.len(), "}"@);
}

/// Parse one canonical object of this type.
#[verifier::rlimit(100)]
pub fn parse_game_config_exec(s: &Vec<char>, i: usize) -> (r: Option<(crate::config::GameConfig, usize)>)
    requires
        i <= s@.len(),
    ensures
        r matches Some(p) ==> parse_game_config(s@, i as int) == Some((p.0@, p.1 as int)) && i <= p.1
            <= s@.len(),
        r is None ==> parse_game_config(s@, i as int) is None,
{
    let i1 = match tok_exec(s, i, "{") { Some(j) => j, None => { return None; } };
    let i2 = match tok_exec(s, i1, "\"map_name\":") { Some(j) => j, None => { return None; } };
    let (f_map_name, i3) = match parse_opt_str_exec(s, i2) { Some(p) => p, None => { return None; } };
    let i4 = match tok_exec(s, i3, ",") { Some(j) => j, None => { return None; } };
    let i5 = match tok_exec(s, i4, "\"disable_fog\":") { Some(j) => j, None => { return None; } };
    let (f_disable_fog, i6) = match parse_bool_tok_exec(s, i5) { Some(p) => p, None => { return None; } };
    let i7 = match tok_exec(s, i6, ",") { Some(j) => j, None => { return None; } };
    let i8 = match tok_exec(s, i7, "\"random_seed\":") { Some(j) => j, None => { return None; } };
    let (f_random_seed, i9) = match parse_opt_u32_exec(s, i8) { Some(p) => p, None => { return None; } };
    let i10 = match tok_exec(s, i9, ",") { Some(j) => j, None => { return None; } };
    let i11 = match tok_exec(s, i10, "\"realtime\":") { Some(j) => j, None => { return None; } };
    let (f_realtime, i12) = match parse_bool_tok_exec(s, i11) { Some(p) => p, None => { return None; } };
    let i13 = match tok_exec(s, i12, ",") { Some(j) => j, None => { return None; } };
    let i14 = match tok_exec(s, i13, "\"allowed_interfaces\":") { Some(j) => j, None => { return None; } };
    let (f_allowed_interfaces, i15) = match parse_allowed_exec(s, i14) { Some(p) => p, None => { return None; } };
    let i16 = match tok_exec(s, i15, "}") { Some(j) => j, None => { return None; } };
    Some((crate::config::GameConfig { map_name: f_map_name, disable_fog: f_disable_fog, random_seed: f_random_seed, realtime: f_realtime, allowed_interfaces: f_allowed_interfaces }, i16))
}

/// Append the canonical encoding of this value.
#[verifier::rlimit(100)]
pub fn push_game_config(out: &mut Vec<char>, x: &crate::config::GameConfig)
    ensures
        final(out)@ == old(out)@ + enc_game_config(x@),
{
    proof {
        reveal(enc_game_config);
    }
    crate::codec::push_lit(out, "{");
    crate::codec::push_lit(out, "\"map_name\":");
    push_opt_string(out, &x.map_name);
    crate::codec::push_lit(out, ",");
    crate::codec::push_lit(out, "\"disable_fog\":");
    push_bool(out, x.disable_fog);
    crate::codec::push_lit(out, ",");
    crate::codec::push_lit(out, "\"random_seed\":");
    push_opt_u32(out, &x.random_seed);
    crate::codec::push_lit(out, ",");
    crate::codec::push_lit(out, "\"realtime\":");
    push_bool(out, x.realtime);
    crate::codec::push_lit(out, ",");
    crate::codec::push_lit(out, "\"allowed_interfaces\":");
    push_allowed(out, &x.allowed_interfaces);
    crate::codec::push_lit(out, "}");
    assert(out@ =~= old(out)@ + enc_game_config(x@));
}

#[verifier::opaque]
pub open spec fn enc_record_config(x: crate::config::RecordConfigV) -> Seq<char> {
    "{"@
        + "\"replay_path\":"@
        + enc_opt_str(x.replay_path)
        + ","@
        + "\"end_score\":"@
        + enc_bool(x.end_score)
        + ","@
        + "\"score_history\":"@
        + enc_bool(x.score_history)
        + "}"@
}

pub open spec fn parse_record_config(s: Seq<char>, i: int) -> Option<(crate::config::RecordConfigV, int)> {
    match tok(s, i, "{"@) { None => None, Some(i1) => match tok(s, i1, "\"replay_path\":"@) { None => None, Some(i2) => match parse_opt_str(s, i2) { None => None, Some((f_replay_path, i3)) => match tok(s, i3, ","@) { None => None, Some(i4) => match tok(s, i4, "\"end_score\":"@) { None => None, Some(i5) => match parse_bool_tok(s, i5) { None => None, Some((f_end_score, i6)) => match tok(s, i6, ","@) { None => None, Some(i7) => match tok(s, i7, "\"score_history\":"@) { None => None, Some(i8) => match parse_bool_tok(s, i8) { None => None, Some((f_score_history, i9)) => match tok(s, i9, "}"@) { None => None, Some(i10) => Some((crate::config::RecordConfigV { replay_path: f_replay_path, end_score: f_end_score, score_history: f_score_history }, i10)) } } } } } } } } } }
}

pub proof fn lemma_parse_record_config(s: Seq<char>, i: int, x: crate::config::RecordConfigV)
    requires
        at(s, i, enc_record_config(x)),
    ensures
        parse_record_config(s, i) == Some((x, i + enc_record_config(x).len())),
{
    reveal(enc_record_config);
    reveal_punct();
    reveal_strlit("\"end_score\":");
    reveal_strlit("\"replay_path\":");
    reveal_strlit("\"score_history\":");
    reveal_strlit("false");
    reveal_strlit("null");
    reveal_strlit("true");
    let p9 = "{"@ + "\"replay_path\":"@ + enc_opt_str(x.replay_path) + ","@ + "\"end_score\":"@ + enc_bool(x.end_score) + ","@ + "\"score_history\":"@ + enc_bool(x.score_history);
    let p8 = "{"@ + "\"replay_path\":"@ + enc_opt_str(x.replay_path) + ","@ + "\"end_score\":"@ + enc_bool(x.end_score) + ","@ + "\"score_history\":"@;
    let p7 = "{"@ + "\"replay_path\":"@ + enc_opt_str(x.replay_path) + ","@ + "\"end_score\":"@ + enc_bool(x.end_score) + ","@;
    let p6 = "{"@ + "\"replay_path\":"@ + enc_opt_str(x.replay_path) + ","@ + "\"end_score\":"@ + enc_bool(x.end_score);
    let p5 = "{"@ + "\"replay_path\":"@ + enc_opt_str(x.replay_path) + ","@ + "\"end_score\":"@;
    let p4 = "{"@ + "\"replay_path\":"@ + enc_opt_str(x.replay_path) + ","@;
    let p3 = "{"@ + "\"replay_path\":"@ + enc_opt_str(x.replay_path);
    let p2 = "{"@ + "\"replay_path\":"@;
    let p1 = "{"@;
    lemma_at_concat(s, i, p9, "}"@);
    lemma_at_concat(s, i, p8, enc_bool(x.score_history));
    lemma_at_concat(s, i, p7, "\"score_history\":"@);
    lemma_at_concat(s, i, p6, ","@);
    lemma_at_concat(s, i, p5, enc_bool(x.end_score));
    lemma_at_concat(s, i, p4, "\"end_score\":"@);
    lemma_at_concat(s, i, p3, ","@);
    lemma_at_concat(s, i, p2, enc_opt_str(x.replay_path));
    lemma_at_concat(s, i, p1, "\"replay_path\":"@);
    lemma_tok(s, i, "{"@);
    lemma_tok(s, i + p1.len(), "\"replay_path\":"@);
    lemma_parse_opt_str(s, i + p2.len(), x.replay_path);
    lemma_tok(s, i + p3.len(), ","@);
    lemma_tok(s, i + p4.len(), "\"end_score\":"@);
    lemma_parse_bool_tok(s, i + p5.len(), x.end_score);
    lemma_tok(s, i + p6.len(), ","@);
    lemma_tok(s, i + p7.len(), "\"score_history\":"@);
    lemma_parse_bool_tok(s, i + p8.len(), x.score_history);
    lemma_tok(s, i + p9.len(), "}"@);
}

/// Parse one canonical object of this type.
#[verifier::rlimit(100)]
pub fn parse_record_config_exec(s: &Vec<char>, i: usize) -> (r: Option<(crate::config::RecordConfig, usize)>)
    requires
        i <= s@.len(),
    ensures
        r matches Some(p) ==> parse_record_config(s@, i as int) == Some((p.0@, p.1 as int)) && i <= p.1
            <= s@.len(),
        r is None ==> parse_record_config(s@, i as int) is None,
{
    let i1 = match tok_exec(s, i, "{") { Some(j) => j, None => { return None; } };
    let i2 = match tok_exec(s, i1, "\"replay_path\":") { Some(j) => j, None => { return None; } };
    let (f_replay_path, i3) = match parse_opt_str_exec(s, i2) { Some(p) => p, None => { return None; } };
    let i4 = match tok_exec(s, i3, ",") { Some(j) => j, None => { return None; } };
    let i5 = match tok_exec(s, i4, "\"end_score\":") { Some(j) => j, None => { return None; } };
    let (f_end_score, i6) = match parse_bool_tok_exec(s, i5) { Some(p) => p, None => { return None; } };
    let i7 = match tok_exec(s, i6, ",") { Some(j) => j, None => { return None; } };
    let i8 = match tok_exec(s, i7, "\"score_history\":") { Some(j) => j, None => { return None; } };
    let (f_score_history, i9) = match parse_bool_tok_exec(s, i8) { Some(p) => p, None => { return None; } };
    let i10 = match tok_exec(s, i9, "}") { Some(j) => j, None => { return None; } };
    Some((crate::config::RecordConfig { replay_path: f_replay_path, end_score: f_end_score, score_history: f_score_history }, i10))
}

/// Append the canonical encoding of this value.
#[verifier::rlimit(100)]
pub fn push_record_config(out: &mut Vec<char>, x: &crate::config::RecordConfig)
    ensures
        final(out)@ == old(out)@ + enc_record_config(x@),
{
    proof {
        reveal(enc_record_config);
    }
    crate::codec::push_lit(out, "{");
    crate::codec::push_lit(out, "\"replay_path\":");
    push_opt_string(out, &x.replay_path);
    crate::codec::push_lit(out, ",");
    crate::codec::push_lit(out, "\"end_score\":");
    push_bool(out, x.end_score);
    crate::codec::push_lit(out, ",");
    crate::codec::push_lit(out, "\"score_history\":");
    push_bool(out, x.score_history);
    crate::codec::push_lit(out, "}");
    assert(out@ =~= old(out)@ + enc_record_config(x@));
}

#[verifier::opaque]
pub open spec fn enc_match_config(x: crate::config::MatchConfigV) -> Seq<char> {
    "{"@
        + "\"game\":"@
        + enc_game_config(x.game)
        + ","@
        + "\"request_limits\":"@
        + enc_request_limits(x.request_limits)
        + ","@
        + "\"time_limits\":"@
        + enc_time_limits(x.time_limits)
        + ","@
        + "\"record_results\":"@
        + enc_record_config(x.record_results)
        + "}"@
}

pub open spec fn parse_match_config(s: Seq<char>, i: int) -> Option<(crate::config::MatchConfigV, int)> {
    match tok(s, i, "{"@) { None => None, Some(i1) => match tok(s, i1, "\"game\":"@) { None => None, Some(i2) => match parse_game_config(s, i2) { None => None, Some((f_game, i3)) => match tok(s, i3, ","@) { None => None, Some(i4) => match tok(s, i4, "\"request_limits\":"@) { None => None, Some(i5) => match parse_request_limits(s, i5) { None => None, Some((f_request_limits, i6)) => match tok(s, i6, ","@) { None => None, Some(i7) => match tok(s, i7, "\"time_limits\":"@) { None => None, Some(i8) => match parse_time_limits(s, i8) { None => None, Some((f_time_limits, i9)) => match tok(s, i9, ","@) { None => None, Some(i10) => match tok(s, i10, "\"record_results\":"@) { None => None, Some(i11) => match parse_record_config(s, i11) { None => None, Some((f_record_results, i12)) => match tok(s, i12, "}"@) { None => None, Some(i13) => Some((crate::config::MatchConfigV { game: f_game, request_limits: f_request_limits, time_limits: f_time_limits, record_results: f_record_results }, i13)) } } } } } } } } } } } } }
}

#[verifier::rlimit(100)]
#[verifier::spinoff_prover]
pub proof fn lemma_parse_match_config(s: Seq<char>, i: int, x: crate::config::MatchConfigV)
    requires
        at(s, i, enc_match_config(x)),
    ensures
        parse_match_config(s, i) == Some((x, i + enc_match_config(x).len())),
{
    reveal(enc_match_config);
    reveal_punct();
    reveal_strlit("\"game\":");
    reveal_strlit("\"record_results\":");
    reveal_strlit("\"request_limits\":");
    reveal_strlit("\"time_limits\":");
    let p12 = "{"@ + "\"game\":"@ + enc_game_config(x.game) + ","@ + "\"request_limits\":"@ + enc_request_limits(x.request_limits) + ","@ + "\"time_limits\":"@ + enc_time_limits(x.time_limits) + ","@ + "\"record_results\":"@ + enc_record_config(x.record_results);
    let p11 = "{"@ + "\"game\":"@ + enc_game_config(x.game) + ","@ + "\"request_limits\":"@ + enc_request_limits(x.request_limits) + ","@ + "\"time_limits\":"@ + enc_time_limits(x.time_limits) + ","@ + "\"record_results\":"@;
    let p10 = "{"@ + "\"game\":"@ + enc_game_config(x.game) + ","@ + "\"request_limits\":"@ + enc_request_limits(x.request_limits) + ","@ + "\"time_limits\":"@ + enc_time_limits(x.time_limits) + ","@;
    let p9 = "{"@ + "\"game\":"@ + enc_game_config(x.game) + ","@ + "\"request_limits\":"@ + enc_request_limits(x.request_limits) + ","@ + "\"time_limits\":"@ + enc_time_limits(x.time_limits);
    let p8 = "{"@ + "\"game\":"@ + enc_game_config(x.game) + ","@ + "\"request_limits\":"@ + enc_request_limits(x.request_limits) + ","@ + "\"time_limits\":"@;
    let p7 = "{"@ + "\"game\":"@ + enc_game_config(x.game) + ","@ + "\"request_limits\":"@ + enc_request_limits(x.request_limits) + ","@;
    let p6 = "{"@ + "\"game\":"@ + enc_game_config(x.game) + ","@ + "\"request_limits\":"@ + enc_request_limits(x.request_limits);
    let p5 = "{"@ + "\"game\":"@ + enc_game_config(x.game) + ","@ + "\"request_limits\":"@;
    let p4 = "{"@ + "\"game\":"@ + enc_game_config(x.game) + ","@;
    let p3 = "{"@ + "\"game\":"@ + enc_game_config(x.game);
    let p2 = "{"@ + "\"game\":"@;
    let p1 = "{"@;
    lemma_at_concat(s, i, p12, "}"@);
    lemma_at_concat(s, i, p11, enc_record_config(x.record_results));
    lemma_at_concat(s, i, p10, "\"record_results\":"@);
    lemma_at_concat(s, i, p9, ","@);
    lemma_at_concat(s, i, p8, enc_time_limits(x.time_limits));
    lemma_at_concat(s, i, p7, "\"time_limits\":"@);
    lemma_at_concat(s, i, p6, ","@);
    lemma_at_concat(s, i, p5, enc_request_limits(x.request_limits));
    lemma_at_concat(s, i, p4, "\"request_limits\":"@);
    lemma_at_concat(s, i, p3, ","@);
    lemma_at_concat(s, i, p2, enc_game_config(x.game));
    lemma_at_concat(s, i, p1, "\"game\":"@);
    lemma_tok(s, i, "{"@);
    lemma_tok(s, i + p1.len(), "\"game\":"@);
    lemma_parse_game_config(s, i + p2.len(), x.game);
    lemma_tok(s, i + p3.len(), ","@);
    lemma_tok(s, i + p4.len(), "\"request_limits\":"@);
    lemma_parse_request_limits(s, i + p5.len(), x.request_limits);
    lemma_tok(s, i + p6.len(), ","@);
    lemma_tok(s, i + p7.len(), "\"time_limits\":"@);
    lemma_parse_time_limits(s, i + p8.len(), x.time_limits);
    lemma_tok(s, i + p9.len(), ","@);
    lemma_tok(s, i + p10.len(), "\"record_results\":"@);
    lemma_parse_record_config(s, i + p11.len(), x.record_results);
    lemma_tok(s, i + p12.len(), "}"@);
}

/// Parse one canonical object of this type.
#[verifier::rlimit(100)]
pub fn parse_match_config_exec(s: &Vec<char>, i: usize) -> (r: Option<(crate::config::MatchConfig, usize)>)
    requires
        i <= s@.len(),
    ensures
        r matches Some(p) ==> parse_match_config(s@, i as int) == Some((p.0@, p.1 as int)) && i <= p.1
            <= s@.len(),
        r is None ==> parse_match_config(s@, i as int) is None,
{
    let i1 = match tok_exec(s, i, "{") { Some(j) => j, None => { return None; } };
    let i2 = match tok_exec(s, i1, "\"game\":") { Some(j) => j, None => { return None; } };
    let (f_game, i3) = match parse_game_config_exec(s, i2) { Some(p) => p, None => { return None; } };
    let i4 = match tok_exec(s, i3, ",") { Some(j) => j, None => { return None; } };
    let i5 = match tok_exec(s, i4, "\"request_limits\":") { Some(j) => j, None => { return None; } };
    let (f_request_limits, i6) = match parse_request_limits_exec(s, i5) { Some(p) => p, None => { return None; } };
    let i7 = match tok_exec(s, i6, ",") { Some(j) => j, None => { return None; } };
    let i8 = match tok_exec(s, i7, "\"time_limits\":") { Some(j) => j, None => { return None; } };
    let (f_time_limits, i9) = match parse_time_limits_exec(s, i8) { Some(p) => p, None => { return None; } };
    let i10 = match tok_exec(s, i9, ",") { Some(j) => j, None => { return None; } };
    let i11 = match tok_exec(s, i10, "\"record_results\":") { Some(j) => j, None => { return None; } };
    let (f_record_results, i12) = match parse_record_config_exec(s, i11) { Some(p) => p, None => { return None; } };
    let i13 = match tok_exec(s, i12, "}") { Some(j) => j, None => { return None; } };
    Some((crate::config::MatchConfig { game: f_game, request_limits: f_request_limits, time_limits: f_time_limits, record_results: f_record_results }, i13))
}

/// Append the canonical encoding of this value.
#[verifier::rlimit(100)]
pub fn push_match_config(out: &mut Vec<char>, x: &crate::config::MatchConfig)
    ensures
        final(out)@ == old(out)@ + enc_match_config(x@),
{
    proof {
        reveal(enc_match_config);
    }
    crate::codec::push_lit(out, "{");
    crate::codec::push_lit(out, "\"game\":");
    push_game_config(out, &x.game);
    crate::codec::push_lit(out, ",");
    crate::codec::push_lit(out, "\"request_limits\":");
    push_request_limits(out, &x.request_limits);
    crate::codec::push_lit(out, ",");
    crate::codec::push_lit(out, "\"time_limits\":");
    push_time_limits(out, &x.time_limits);
    crate::codec::push_lit(out, ",");
    crate::codec::push_lit(out, "\"record_results\":");
    push_record_config(out, &x.record_results);
    crate::codec::push_lit(out, "}");
    assert(out@ =~= old(out)@ + enc_match_config(x@));
}

#[verifier::opaque]
pub open spec fn enc_config(x: crate::config::ConfigV) -> Seq<char> {
    "{"@
        + "\"proxy\":"@
        + enc_proxy(x.proxy)
        + ","@
        + "\"process\":"@
        + enc_process_options(x.process)
        + ","@
        + "\"matchmaking\":"@
        + enc_matchmaking(x.matchmaking)
        + ","@
        + "\"match_defaults\":"@
        + enc_match_config(x.match_defaults)
        + ","@
        + "\"remote_controller\":"@
        + enc_remote_controller_cfg(x.remote_controller)
        + "}"@
}

pub open spec fn parse_config(s: Seq<char>, i: int) -> Option<(crate::config::ConfigV, int)> {
    match tok(s, i, "{"@) { None => None, Some(i1) => match tok(s, i1, "\"proxy\":"@) { None => None, Some(i2) => match parse_proxy(s, i2) { None => None, Some((f_proxy, i3)) => match tok(s, i3, ","@) { None => None, Some(i4) => match tok(s, i4, "\"process\":"@) { None => None, Some(i5) => match parse_process_options(s, i5) { None => None, Some((f_process, i6)) => match tok(s, i6, ","@) { None => None, Some(i7) => match tok(s, i7, "\"matchmaking\":"@) { None => None, Some(i8) => match parse_matchmaking(s, i8) { None => None, Some((f_matchmaking, i9)) => match tok(s, i9, ","@) { None => None, Some(i10) => match tok(s, i10, "\"match_defaults\":"@) { None => None, Some(i11) => match parse_match_config(s, i11) { None => None, Some((f_match_defaults, i12)) => match tok(s, i12, ","@) { None => None, Some(i13) => match tok(s, i13, "\"remote_controller\":"@) { None => None, Some(i14) => match parse_remote_controller_cfg(s, i14) { None => None, Some((f_remote_controller, i15)) => match tok(s, i15, "}"@) { None => None, Some(i16) => Some((crate::config::ConfigV { proxy: f_proxy, process: f_process, matchmaking: f_matchmaking, match_defaults: f_match_defaults, remote_controller: f_remote_controller }, i16)) } } } } } } } } } } } } } } } }
}

#[verifier::rlimit(100)]
#[verifier::spinoff_prover]
pub proof fn lemma_parse_config(s: Seq<char>, i: int, x: crate::config::ConfigV)
    requires
        at(s, i, enc_config(x)),
    ensures
        parse_config(s, i) == Some((x, i + enc_config(x).len())),
{
    reveal(enc_config);
    reveal_punct();
    reveal_strlit("\"match_defaults\":");
    reveal_strlit("\"matchmaking\":");
    reveal_strlit("\"process\":");
    reveal_strlit("\"proxy\":");
    reveal_strlit("\"remote_controller\":");
    let p15 = "{"@ + "\"proxy\":"@ + enc_proxy(x.proxy) + ","@ + "\"process\":"@ + enc_process_options(x.process) + ","@ + "\"matchmaking\":"@ + enc_matchmaking(x.matchmaking) + ","@ + "\"match_defaults\":"@ + enc_match_config(x.match_defaults) + ","@ + "\"remote_controller\":"@ + enc_remote_controller_cfg(x.remote_controller);
    let p14 = "{"@ + "\"proxy\":"@ + enc_proxy(x.proxy) + ","@ + "\"process\":"@ + enc_process_options(x.process) + ","@ + "\"matchmaking\":"@ + enc_matchmaking(x.matchmaking) + ","@ + "\"match_defaults\":"@ + enc_match_config(x.match_defaults) + ","@ + "\"remote_controller\":"@;
    let p13 = "{"@ + "\"proxy\":"@ + enc_proxy(x.proxy) + ","@ + "\"process\":"@ + enc_process_options(x.process) + ","@ + "\"matchmaking\":"@ + enc_matchmaking(x.matchmaking) + ","@ + "\"match_defaults\":"@ + enc_match_config(x.match_defaults) + ","@;
    let p12 = "{"@ + "\"proxy\":"@ + enc_proxy(x.proxy) + ","@ + "\"process\":"@ + enc_process_options(x.process) + ","@ + "\"matchmaking\":"@ + enc_matchmaking(x.matchmaking) + ","@ + "\"match_defaults\":"@ + enc_match_config(x.match_defaults);
    let p11 = "{"@ + "\"proxy\":"@ + enc_proxy(x.proxy) + ","@ + "\"process\":"@ + enc_process_options(x.process) + ","@ + "\"matchmaking\":"@ + enc_matchmaking(x.matchmaking) + ","@ + "\"match_defaults\":"@;
    let p10 = "{"@ + "\"proxy\":"@ + enc_proxy(x.proxy) + ","@ + "\"process\":"@ + enc_process_options(x.process) + ","@ + "\"matchmaking\":"@ + enc_matchmaking(x.matchmaking) + ","@;
    let p9 = "{"@ + "\"proxy\":"@ + enc_proxy(x.proxy) + ","@ + "\"process\":"@ + enc_process_options(x.process) + ","@ + "\"matchmaking\":"@ + enc_matchmaking(x.matchmaking);
    let p8 = "{"@ + "\"proxy\":"@ + enc_proxy(x.proxy) + ","@ + "\"process\":"@ + enc_process_options(x.process) + ","@ + "\"matchmaking\":"@;
    let p7 = "{"@ + "\"proxy\":"@ + enc_proxy(x.proxy) + ","@ + "\"process\":"@ + enc_process_options(x.process) + ","@;
    let p6 = "{"@ + "\"proxy\":"@ + enc_proxy(x.proxy) + ","@ + "\"process\":"@ + enc_process_options(x.process);
    let p5 = "{"@ + "\"proxy\":"@ + enc_proxy(x.proxy) + ","@ + "\"process\":"@;
    let p4 = "{"@ + "\"proxy\":"@ + enc_proxy(x.proxy) + ","@;
    let p3 = "{"@ + "\"proxy\":"@ + enc_proxy(x.proxy);
    let p2 = "{"@ + "\"proxy\":"@;
    let p1 = "{"@;
    lemma_at_concat(s, i, p15, "}"@);
    lemma_at_concat(s, i, p14, enc_remote_controller_cfg(x.remote_controller));
    lemma_at_concat(s, i, p13, "\"remote_controller\":"@);
    lemma_at_concat(s, i, p12, ","@);
    lemma_at_concat(s, i, p11, enc_match_config(x.match_defaults));
    lemma_at_concat(s, i, p10, "\"match_defaults\":"@);
    lemma_at_concat(s, i, p9, ","@);
    lemma_at_concat(s, i, p8, enc_matchmaking(x.matchmaking));
    lemma_at_concat(s, i, p7, "\"matchmaking\":"@);
    lemma_at_concat(s, i, p6, ","@);
    lemma_at_concat(s, i, p5, enc_process_options(x.process));
    lemma_at_concat(s, i, p4, "\"process\":"@);
    lemma_at_concat(s, i, p3, ","@);
    lemma_at_concat(s, i, p2, enc_proxy(x.proxy));
    lemma_at_concat(s, i, p1, "\"proxy\":"@);
    lemma_tok(s, i, "{"@);
    lemma_tok(s, i + p1.len(), "\"proxy\":"@);
    lemma_parse_proxy(s, i + p2.len(), x.proxy);
    lemma_tok(s, i + p3.len(), ","@);
    lemma_tok(s, i + p4.len(), "\"process\":"@);
    lemma_parse_process_options(s, i + p5.len(), x.process);
    lemma_tok(s, i + p6.len(), ","@);
    lemma_tok(s, i + p7.len(), "\"matchmaking\":"@);
    lemma_parse_matchmaking(s, i + p8.len(), x.matchmaking);
    lemma_tok(s, i + p9.len(), ","@);
    lemma_tok(s, i + p10.len(), "\"match_defaults\":"@);
    lemma_parse_match_config(s, i + p11.len(), x.match_defaults);
    lemma_tok(s, i + p12.len(), ","@);
    lemma_tok(s, i + p13.len(), "\"remote_controller\":"@);
    lemma_parse_remote_controller_cfg(s, i + p14.len(), x.remote_controller);
    lemma_tok(s, i + p15.len(), "}"@);
}

/// Parse one canonical object of this type.
#[verifier::rlimit(100)]
pub fn parse_config_exec(s: &Vec<char>, i: usize) -> (r: Option<(crate::config::Config, usize)>)
    requires
        i <= s@.len(),
    ensures
        r matches Some(p) ==> parse_config(s@, i as int) == Some((p.0@, p.1 as int)) && i <= p.1
            <= s@.len(),
        r is None ==> parse_config(s@, i as int) is None,
{
    let i1 = match tok_exec(s, i, "{") { Some(j) => j, None => { return None; } };
    let i2 = match tok_exec(s, i1, "\"proxy\":") { Some(j) => j, None => { return None; } };
    let (f_proxy, i3) = match parse_proxy_exec(s, i2) { Some(p) => p, None => { return None; } };
    let i4 = match tok_exec(s, i3, ",") { Some(j) => j, None => { return None; } };
    let i5 = match tok_exec(s, i4, "\"process\":") { Some(j) => j, None => { return None; } };
    let (f_process, i6) = match parse_process_options_exec(s, i5) { Some(p) => p, None => { return None; } };
    let i7 = match tok_exec(s, i6, ",") { Some(j) => j, None => { return None; } };
    let i8 = match tok_exec(s, i7, "\"matchmaking\":") { Some(j) => j, None => { return None; } };
    let (f_matchmaking, i9) = match parse_matchmaking_exec(s, i8) { Some(p) => p, None => { return None; } };
    let i10 = match tok_exec(s, i9, ",") { Some(j) => j, None => { return None; } };
    let i11 = match tok_exec(s, i10, "\"match_defaults\":") { Some(j) => j, None => { return None; } };
    let (f_match_defaults, i12) = match parse_match_config_exec(s, i11) { Some(p) => p, None => { return None; } };
    let i13 = match tok_exec(s, i12, ",") { Some(j) => j, None => { return None; } };
    let i14 = match tok_exec(s, i13, "\"remote_controller\":") { Some(j) => j, None => { return None; } };
    let (f_remote_controller, i15) = match parse_remote_controller_cfg_exec(s, i14) { Some(p) => p, None => { return None; } };
    let i16 = match tok_exec(s, i15, "}") { Some(j) => j, None => { return None; } };
    Some((crate::config::Config { proxy: f_proxy, process: f_process, matchmaking: f_matchmaking, match_defaults: f_match_defaults, remote_controller: f_remote_controller }, i16))
}

/// Append the canonical encoding of this value.
#[verifier::rlimit(100)]
#[verifier::spinoff_prover]
pub fn push_config(out: &mut Vec<char>, x: &crate::config::Config)
    ensures
        final(out)@ == old(out)@ + enc_config(x@),
{
    proof {
        reveal(enc_config);
    }
    crate::codec::push_lit(out, "{");
    crate::codec::push_lit(out, "\"proxy\":");
    push_proxy(out, &x.proxy);
    crate::codec::push_lit(out, ",");
    crate::codec::push_lit(out, "\"process\":");
    push_process_options(out, &x.process);
    crate::codec::push_lit(out, ",");
    crate::codec::push_lit(out, "\"matchmaking\":");
    push_matchmaking(out, &x.matchmaking);
    crate::codec::push_lit(out, ",");
    crate::codec::push_lit(out, "\"match_defaults\":");
    push_match_config(out, &x.match_defaults);
    crate::codec::push_lit(out, ",");
    crate::codec::push_lit(out, "\"remote_controller\":");
    push_remote_controller_cfg(out, &x.remote_controller);
    crate::codec::push_lit(out, "}");
    assert(out@ =~= old(out)@ + enc_config(x@));
}

} // verus!

verus! {

/// Parse one canonical allowed-interfaces object.
#[verifier::rlimit(100)]
pub fn parse_allowed_exec(s: &Vec<char>, i: usize) -> (r: Option<
    (crate::config::AllowedInterfaces, usize),
>)
    requires
        i <= s@.len(),
    ensures
        r matches Some(p) ==> parse_allowed(s@, i as int) == Some((p.0, p.1 as int)) && i <= p.1
            <= s@.len(),
        r is None ==> parse_allowed(s@, i as int) is None,
{
    let i1 = match tok_exec(s, i, "{") { Some(j) => j, None => { return None; } };
    let i2 = match tok_exec(s, i1, "\"raw\":") { Some(j) => j, None => { return None; } };
    let (raw, i3) = match parse_bool_tok_exec(s, i2) { Some(p) => p, None => { return None; } };
    let i4 = match tok_exec(s, i3, ",") { Some(j) => j, None => { return None; } };
    let i5 = match tok_exec(s, i4, "\"score\":") { Some(j) => j, None => { return None; } };
    let (score, i6) = match parse_bool_tok_exec(s, i5) { Some(p) => p, None => { return None; } };
    let i7 = match tok_exec(s, i6, ",") { Some(j) => j, None => { return None; } };
    let i8 = match tok_exec(s, i7, "\"feature_layer\":") { Some(j) => j, None => { return None; } };
    let (feature_layer, i9) = match parse_bool_tok_exec(s, i8) { Some(p) => p, None => { return None; } };
    let i10 = match tok_exec(s, i9, ",") { Some(j) => j, None => { return None; } };
    let i11 = match tok_exec(s, i10, "\"render\":") { Some(j) => j, None => { return None; } };
    let (render, i12) = match parse_bool_tok_exec(s, i11) { Some(p) => p, None => { return None; } };
    let end = match tok_exec(s, i12, "}") { Some(j) => j, None => { return None; } };
    Some((crate::config::AllowedInterfaces { raw, score, feature_layer, render }, end))
}

/// Append the canonical encoding of an allowed-interfaces value.
#[verifier::rlimit(100)]
pub fn push_allowed(out: &mut Vec<char>, x: &crate::config::AllowedInterfaces)
    ensures
        final(out)@ == old(out)@ + enc_allowed(*x),
{
    proof {
        reveal(enc_allowed);
    }
    crate::codec::push_lit(out, "{");
    crate::codec::push_lit(out, "\"raw\":");
    push_bool(out, x.raw);
    crate::codec::push_lit(out, ",");
    crate::codec::push_lit(out, "\"score\":");
    push_bool(out, x.score);
    crate::codec::push_lit(out, ",");
    crate::codec::push_lit(out, "\"feature_layer\":");
    push_bool(out, x.feature_layer);
    crate::codec::push_lit(out, ",");
    crate::codec::push_lit(out, "\"render\":");
    push_bool(out, x.render);
    crate::codec::push_lit(out, "}");
    assert(out@ =~= old(out)@ + enc_allowed(*x));
}

} // verus!

verus! {

// ---------------------------------------------------------------------------
// Playlist vectors
// ---------------------------------------------------------------------------

/// One playlist entry: a two-element array of identifier and readiness.
pub open spec fn enc_playlist_entry(e: (Seq<char>, bool)) -> Seq<char> {
    "["@ + quoted(e.0) + ","@ + enc_bool(e.1) + "]"@
}

/// Comma-separated playlist entries.
pub open spec fn enc_playlist_entries(v: Seq<(Seq<char>, bool)>) -> Seq<char>
    decreases v.len(),
{
    if v.len() == 0 {
        Seq::<char>::empty()
    } else if v.len() == 1 {
        enc_playlist_entry(v[0])
    } else {
        enc_playlist_entry(v[0]) + ","@ + enc_playlist_entries(v.drop_first())
    }
}

/// A playlist: an array of entries.
pub open spec fn enc_playlist(v: Seq<(Seq<char>, bool)>) -> Seq<char> {
    "["@ + enc_playlist_entries(v) + "]"@
}

pub open spec fn parse_playlist_entry(s: Seq<char>, i: int) -> Option<((Seq<char>, bool), int)> {
    match tok(s, i, "["@) {
        None => None,
        Some(i1) => match parse_str_tok(s, i1) {
            None => None,
            Some((id, i2)) => match tok(s, i2, ","@) {
                None => None,
                Some(i3) => match parse_bool_tok(s, i3) {
                    None => None,
                    Some((ready, i4)) => match tok(s, i4, "]"@) {
                        None => None,
                        Some(end) => Some(((id, ready), end)),
                    },
                },
            },
        },
    }
}

/// Entries after the first: `,` then an entry, until something else
/// (the closing bracket) follows.
pub open spec fn parse_playlist_more(
    s: Seq<char>,
    i: int,
    acc: Seq<(Seq<char>, bool)>,
) -> Option<(Seq<(Seq<char>, bool)>, int)>
    decreases s.len() - i,
{
    match tok(s, i, ","@) {
        None => Some((acc, i)),
        Some(i1) => if i1 <= i || i1 > s.len() {
            None
        } else {
            match parse_playlist_entry(s, i1) {
                None => None,
                Some((e, j)) => if j <= i1 || j > s.len() {
                    None
                } else {
                    parse_playlist_more(s, j, acc.push(e))
                },
            }
        },
    }
}

pub open spec fn parse_playlist(s: Seq<char>, i: int) -> Option<(Seq<(Seq<char>, bool)>, int)> {
    match tok(s, i, "["@) {
        None => None,
        Some(i1) => match tok(s, i1, "]"@) {
            Some(end) => Some((Seq::<(Seq<char>, bool)>::empty(), end)),
            None => match parse_playlist_entry(s, i1) {
                None => None,
                Some((e, j)) => if j <= i1 || j > s.len() {
                    None
                } else {
                    match parse_playlist_more(s, j, seq![e]) {
                        None => None,
                        Some((v, j2)) => match tok(s, j2, "]"@) {
                            None => None,
                            Some(end) => Some((v, end)),
                        },
                    }
                },
            },
        },
    }
}

pub proof fn lemma_parse_playlist_entry(s: Seq<char>, i: int, e: (Seq<char>, bool))
    requires
        at(s, i, enc_playlist_entry(e)),
    ensures
        parse_playlist_entry(s, i) == Some((e, i + enc_playlist_entry(e).len())),
        enc_playlist_entry(e).len() > 0,
{
    reveal_punct();
    reveal_strlit("true");
    reveal_strlit("false");
    let p4 = "["@ + quoted(e.0) + ","@ + enc_bool(e.1);
    lemma_at_concat(s, i, p4, "]"@);
    let p3 = "["@ + quoted(e.0) + ","@;
    lemma_at_concat(s, i, p3, enc_bool(e.1));
    let p2 = "["@ + quoted(e.0);
    lemma_at_concat(s, i, p2, ","@);
    lemma_at_concat(s, i, "["@, quoted(e.0));
    lemma_tok(s, i, "["@);
    lemma_parse_str_tok(s, i + 1, e.0);
    lemma_tok(s, i + p2.len(), ","@);
    lemma_parse_bool_tok(s, i + p3.len(), e.1);
    lemma_tok(s, i + p4.len(), "]"@);
}

/// The entries after the first parse where the encoder wrote them, as
/// long as the character after them is not a comma (the closing bracket).
pub proof fn lemma_parse_playlist_more(
    s: Seq<char>,
    i: int,
    rest: Seq<(Seq<char>, bool)>,
    acc: Seq<(Seq<char>, bool)>,
)
    requires
        rest.len() == 0 ==> at(s, i, Seq::<char>::empty()),
        rest.len() > 0 ==> at(s, i, ","@ + enc_playlist_entries(rest)),
        ({
            let end = if rest.len() == 0 {
                i
            } else {
                i + 1 + enc_playlist_entries(rest).len()
            };
            end == s.len() || (end < s.len() && s[end] != ',' && !is_ws(s[end]))
        }),
    ensures
        ({
            let end = if rest.len() == 0 {
                i
            } else {
                i + 1 + enc_playlist_entries(rest).len()
            };
            parse_playlist_more(s, i, acc) == Some((acc + rest, end))
        }),
    decreases rest.len(),
{
    reveal_punct();
    if rest.len() == 0 {
        assert(tok(s, i, ","@) is None) by {
            let j = spec_skip_ws(s, i);
            assert(j == i);
            if at(s, j, ","@) {
                lemma_at_index(s, j, ","@, 0);
            }
        }
        assert(acc + rest =~= acc);
    } else {
        lemma_at_concat(s, i, ","@, enc_playlist_entries(rest));
        lemma_tok(s, i, ","@);
        let e0 = rest[0];
        let i1 = i + 1;
        if rest.len() == 1 {
            assert(enc_playlist_entries(rest) == enc_playlist_entry(e0));
            lemma_parse_playlist_entry(s, i1, e0);
            let j = i1 + enc_playlist_entry(e0).len();
            assert(s.subrange(j, j) =~= Seq::<char>::empty());
            assert(at(s, j, Seq::<char>::empty()));
            lemma_parse_playlist_more(s, j, Seq::<(Seq<char>, bool)>::empty(), acc.push(e0));
            assert(acc.push(e0) + Seq::<(Seq<char>, bool)>::empty() =~= acc + rest) by {
                assert(rest =~= seq![e0]);
            }
        } else {
            assert(enc_playlist_entries(rest) == enc_playlist_entry(e0) + ","@
                + enc_playlist_entries(rest.drop_first()));
            assert(","@ + enc_playlist_entries(rest) =~= (","@ + enc_playlist_entry(e0)) + (","@
                + enc_playlist_entries(rest.drop_first())));
            lemma_at_concat(
                s,
                i,
                ","@ + enc_playlist_entry(e0),
                ","@ + enc_playlist_entries(rest.drop_first()),
            );
            lemma_at_concat(s, i, ","@, enc_playlist_entry(e0));
            lemma_parse_playlist_entry(s, i1, e0);
            let j = i1 + enc_playlist_entry(e0).len();
            lemma_parse_playlist_more(s, j, rest.drop_first(), acc.push(e0));
            assert(acc.push(e0) + rest.drop_first() =~= acc + rest);
        }
    }
}

pub proof fn lemma_parse_playlist(s: Seq<char>, i: int, v: Seq<(Seq<char>, bool)>)
    requires
        at(s, i, enc_playlist(v)),
    ensures
        parse_playlist(s, i) == Some((v, i + enc_playlist(v).len())),
{
    reveal_punct();
    let body = enc_playlist_entries(v);
    lemma_at_concat(s, i, "["@ + body, "]"@);
    lemma_at_concat(s, i, "["@, body);
    lemma_tok(s, i, "["@);
    let i1 = i + 1;
    lemma_at_index(s, i1 + body.len(), "]"@, 0);
    if v.len() == 0 {
        assert(body.len() == 0);
        lemma_tok(s, i1, "]"@);
        assert(parse_playlist(s, i) == Some((Seq::<(Seq<char>, bool)>::empty(), i1 + 1)));
        assert(v =~= Seq::<(Seq<char>, bool)>::empty());
    } else {
        let e0 = v[0];
        let rest = v.drop_first();
        assert(tok(s, i1, "]"@) is None) by {
            if v.len() == 1 {
                assert(body == enc_playlist_entry(e0));
            } else {
                assert(body == enc_playlist_entry(e0) + ","@ + enc_playlist_entries(rest));
                lemma_at_concat(s, i1, enc_playlist_entry(e0) + ","@, enc_playlist_entries(rest));
                lemma_at_concat(s, i1, enc_playlist_entry(e0), ","@);
            }
            lemma_parse_playlist_entry(s, i1, e0);
            lemma_at_index(s, i1, enc_playlist_entry(e0), 0);
            assert(s[i1] == '[');
            assert(spec_skip_ws(s, i1) == i1);
            if at(s, i1, "]"@) {
                lemma_at_index(s, i1, "]"@, 0);
            }
        }
        if v.len() == 1 {
            assert(body == enc_playlist_entry(e0));
            lemma_parse_playlist_entry(s, i1, e0);
            let j = i1 + enc_playlist_entry(e0).len();
            assert(s.subrange(j, j) =~= Seq::<char>::empty());
            assert(at(s, j, Seq::<char>::empty()));
            assert(s[j] == ']');
            lemma_parse_playlist_more(s, j, Seq::<(Seq<char>, bool)>::empty(), seq![e0]);
            assert(s[j] == ']');
            assert(seq![e0] + Seq::<(Seq<char>, bool)>::empty() =~= v) by {
                assert(v =~= seq![e0]);
            }
            lemma_tok(s, j, "]"@);
        } else {
            assert(body == enc_playlist_entry(e0) + ","@ + enc_playlist_entries(rest));
            assert(body =~= enc_playlist_entry(e0) + (","@ + enc_playlist_entries(rest)));
            lemma_at_concat(s, i1, enc_playlist_entry(e0), ","@ + enc_playlist_entries(rest));
            lemma_parse_playlist_entry(s, i1, e0);
            let j = i1 + enc_playlist_entry(e0).len();
            assert(j + 1 + enc_playlist_entries(rest).len() == i1 + body.len());
            assert(s[i1 + body.len()] == ']');
            lemma_parse_playlist_more(s, j, rest, seq![e0]);
            assert(seq![e0] + rest =~= v);
            lemma_tok(s, i1 + body.len(), "]"@);
        }
    }
}

} // verus!

verus! {

// ---------------------------------------------------------------------------
// Requests
// ---------------------------------------------------------------------------

use crate::remote_control::RequestV;

/// The canonical encoding of a request: unit variants as a quoted name,
/// payload variants as a one-key object.
#[verifier::opaque]
pub open spec fn enc_request(r: RequestV) -> Seq<char> {
    match r {
        RequestV::Quit => quoted("Quit"@),
        RequestV::GetConfig => quoted("GetConfig"@),
        RequestV::GetPlaylist => quoted("GetPlaylist"@),
        RequestV::ClearPlaylist => quoted("ClearPlaylist"@),
        RequestV::CreateLobby => quoted("CreateLobby"@),
        RequestV::Ping(v) => "{"@ + quoted("Ping"@) + ":"@ + enc_u64(v as u64) + "}"@,
        RequestV::SetConfig(c) => "{"@ + quoted("SetConfig"@) + ":"@ + enc_config(c) + "}"@,
        RequestV::DropPlaylistItem(x) => "{"@ + quoted("DropPlaylistItem"@) + ":"@ + quoted(x)
            + "}"@,
        RequestV::AddToLobby(id, x) => "{"@ + quoted("AddToLobby"@) + ":"@ + "["@ + enc_u64(id.0)
            + ","@ + quoted(x) + "]"@ + "}"@,
        RequestV::StartGame(id) => "{"@ + quoted("StartGame"@) + ":"@ + enc_u64(id.0) + "}"@,
    }
}

pub open spec fn parse_request(s: Seq<char>, i: int) -> Option<(RequestV, int)> {
    let j = spec_skip_ws(s, i);
    if !(0 <= j < s.len()) {
        None
    } else if s[j] == '"' {
        match spec_parse_qstr(s, j + 1) {
            Some((name, j2)) => if name == "Quit"@ {
                Some((RequestV::Quit, j2))
            } else if name == "GetConfig"@ {
                Some((RequestV::GetConfig, j2))
            } else if name == "GetPlaylist"@ {
                Some((RequestV::GetPlaylist, j2))
            } else if name == "ClearPlaylist"@ {
                Some((RequestV::ClearPlaylist, j2))
            } else if name == "CreateLobby"@ {
                Some((RequestV::CreateLobby, j2))
            } else {
                None
            },
            None => None,
        }
    } else if s[j] == '{' {
        match parse_str_tok(s, j + 1) {
            Some((key, i2)) => match tok(s, i2, ":"@) {
                Some(i3) => if key == "Ping"@ {
                    match parse_u32_tok(s, i3) {
                        Some((v, i4)) => match tok(s, i4, "}"@) {
                            Some(end) => Some((RequestV::Ping(v), end)),
                            None => None,
                        },
                        None => None,
                    }
                } else if key == "SetConfig"@ {
                    match parse_config(s, i3) {
                        Some((c, i4)) => match tok(s, i4, "}"@) {
                            Some(end) => Some((RequestV::SetConfig(c), end)),
                            None => None,
                        },
                        None => None,
                    }
                } else if key == "DropPlaylistItem"@ {
                    match parse_str_tok(s, i3) {
                        Some((x, i4)) => match tok(s, i4, "}"@) {
                            Some(end) => Some((RequestV::DropPlaylistItem(x), end)),
                            None => None,
                        },
                        None => None,
                    }
                } else if key == "AddToLobby"@ {
                    match tok(s, i3, "["@) {
                        Some(i4) => match parse_u64_tok(s, i4) {
                            Some((id, i5)) => match tok(s, i5, ","@) {
                                Some(i6) => match parse_str_tok(s, i6) {
                                    Some((x, i7)) => match tok(s, i7, "]"@) {
                                        Some(i8) => match tok(s, i8, "}"@) {
                                            Some(end) => Some(
                                                (
                                                    RequestV::AddToLobby(
                                                        crate::supervisor::GameId(id),
                                                        x,
                                                    ),
                                                    end,
                                                ),
                                            ),
                                            None => None,
                                        },
                                        None => None,
                                    },
                                    None => None,
                                },
                                None => None,
                            },
                            None => None,
                        },
                        None => None,
                    }
                } else if key == "StartGame"@ {
                    match parse_u64_tok(s, i3) {
                        Some((id, i4)) => match tok(s, i4, "}"@) {
                            Some(end) => Some(
                                (RequestV::StartGame(crate::supervisor::GameId(id)), end),
                            ),
                            None => None,
                        },
                        None => None,
                    }
                } else {
                    None
                },
                None => None,
            },
            None => None,
        }
    } else {
        None
    }
}

proof fn reveal_request_names()
    ensures
        "Quit"@.len() == 4 && "GetConfig"@.len() == 9 && "GetPlaylist"@.len() == 11
            && "ClearPlaylist"@.len() == 13 && "CreateLobby"@.len() == 11 && "Ping"@.len() == 4
            && "SetConfig"@.len() == 9 && "DropPlaylistItem"@.len() == 16 && "AddToLobby"@.len()
            == 10 && "StartGame"@.len() == 9,
        "GetPlaylist"@ != "CreateLobby"@,
        "Quit"@ != "Ping"@,
        "SetConfig"@ != "Ping"@,
        "StartGame"@ != "Ping"@,
        "StartGame"@ != "SetConfig"@,
        "GetConfig"@ != "Quit"@,
{
    reveal_strlit("Quit");
    reveal_strlit("GetConfig");
    reveal_strlit("GetPlaylist");
    reveal_strlit("ClearPlaylist");
    reveal_strlit("CreateLobby");
    reveal_strlit("Ping");
    reveal_strlit("SetConfig");
    reveal_strlit("DropPlaylistItem");
    reveal_strlit("AddToLobby");
    reveal_strlit("StartGame");
    assert("GetPlaylist"@[0] != "CreateLobby"@[0]);
    assert("Quit"@[0] != "Ping"@[0]);
    assert("StartGame"@[1] != "SetConfig"@[1]);
}

/// A quoted string starts with a double quote and parses as a whole.
proof fn lemma_quoted_head(s: Seq<char>, i: int, content: Seq<char>)
    requires
        at(s, i, quoted(content)),
    ensures
        0 <= i < s.len(),
        s[i] == '"',
        !is_ws(s[i]),
        spec_skip_ws(s, i) == i,
        spec_parse_qstr(s, i + 1) == Some((content, i + quoted(content).len())),
{
    lemma_at_index(s, i, quoted(content), 0);
    lemma_at_concat(s, i, seq!['"'], crate::codec::esc_seq(content) + seq!['"']);
    assert(quoted(content) =~= seq!['"'] + (crate::codec::esc_seq(content) + seq!['"']));
    lemma_parse_qstr(s, i + 1, content);
}

/// A one-key object parses up to its payload: the prelude `{"key":`.
proof fn lemma_object_head(s: Seq<char>, i: int, key: Seq<char>, payload: Seq<char>)
    requires
        at(s, i, ("{"@ + quoted(key) + ":"@ + payload + "}"@)),
    ensures
        0 <= i < s.len(),
        s[i] == '{',
        s[i] != '"',
        spec_skip_ws(s, i) == i,
        parse_str_tok(s, i + 1) == Some((key, i + 1 + quoted(key).len())),
        tok(s, i + 1 + quoted(key).len(), ":"@) == Some(i + 2 + quoted(key).len()),
        at(s, i + 2 + quoted(key).len(), payload),
        at(s, i + 2 + quoted(key).len() + payload.len(), "}"@),
        s[i + 2 + quoted(key).len() + payload.len()] == '}',
        tok(s, i + 2 + quoted(key).len() + payload.len(), "}"@) == Some(
            i + 3 + quoted(key).len() + payload.len(),
        ),
{
    reveal_punct();
    let p4 = "{"@ + quoted(key) + ":"@ + payload;
    lemma_at_concat(s, i, p4, "}"@);
    let p3 = "{"@ + quoted(key) + ":"@;
    lemma_at_concat(s, i, p3, payload);
    let p2 = "{"@ + quoted(key);
    lemma_at_concat(s, i, p2, ":"@);
    lemma_at_concat(s, i, "{"@, quoted(key));
    lemma_at_index(s, i, "{"@, 0);
    lemma_quoted_head(s, i + 1, key);
    lemma_parse_str_tok(s, i + 1, key);
    lemma_tok(s, i + p2.len(), ":"@);
    lemma_at_index(s, i + p4.len(), "}"@, 0);
    lemma_tok(s, i + p4.len(), "}"@);
}

/// Every request parses back from its canonical encoding.
#[verifier::rlimit(100)]
#[verifier::spinoff_prover]
pub proof fn lemma_parse_request(s: Seq<char>, i: int, r: RequestV)
    requires
        at(s, i, enc_request(r)),
    ensures
        parse_request(s, i) == Some((r, i + enc_request(r).len())),
{
    reveal(enc_request);
    reveal_punct();
    reveal_request_names();
    match r {
        RequestV::Quit => {
            lemma_quoted_head(s, i, "Quit"@);
        },
        RequestV::GetConfig => {
            lemma_quoted_head(s, i, "GetConfig"@);
        },
        RequestV::GetPlaylist => {
            lemma_quoted_head(s, i, "GetPlaylist"@);
        },
        RequestV::ClearPlaylist => {
            lemma_quoted_head(s, i, "ClearPlaylist"@);
        },
        RequestV::CreateLobby => {
            lemma_quoted_head(s, i, "CreateLobby"@);
        },
        RequestV::Ping(v) => {
            let payload = enc_u64(v as u64);
            lemma_object_head(s, i, "Ping"@, payload);
            let i3 = i + 2 + quoted("Ping"@).len();
            lemma_at_index(s, i3 + payload.len(), "}"@, 0);
            lemma_parse_u32_tok(s, i3, v);
        },
        RequestV::SetConfig(c) => {
            let payload = enc_config(c);
            lemma_object_head(s, i, "SetConfig"@, payload);
            let i3 = i + 2 + quoted("SetConfig"@).len();
            lemma_parse_config(s, i3, c);
        },
        RequestV::DropPlaylistItem(x) => {
            let payload = quoted(x);
            lemma_object_head(s, i, "DropPlaylistItem"@, payload);
            let i3 = i + 2 + quoted("DropPlaylistItem"@).len();
            lemma_parse_str_tok(s, i3, x);
        },
        RequestV::AddToLobby(id, x) => {
            let payload = "["@ + enc_u64(id.0) + ","@ + quoted(x) + "]"@;
            assert(enc_request(r) =~= "{"@ + quoted("AddToLobby"@) + ":"@ + payload + "}"@);
            lemma_object_head(s, i, "AddToLobby"@, payload);
            let i3 = i + 2 + quoted("AddToLobby"@).len();
            let q4 = "["@ + enc_u64(id.0) + ","@ + quoted(x);
            lemma_at_concat(s, i3, q4, "]"@);
            let q3 = "["@ + enc_u64(id.0) + ","@;
            lemma_at_concat(s, i3, q3, quoted(x));
            let q2 = "["@ + enc_u64(id.0);
            lemma_at_concat(s, i3, q2, ","@);
            lemma_at_concat(s, i3, "["@, enc_u64(id.0));
            lemma_tok(s, i3, "["@);
            lemma_at_index(s, i3 + q2.len(), ","@, 0);
            lemma_parse_u64_tok(s, i3 + 1, id.0);
            lemma_tok(s, i3 + q2.len(), ","@);
            lemma_parse_str_tok(s, i3 + q3.len(), x);
            lemma_tok(s, i3 + q4.len(), "]"@);
        },
        RequestV::StartGame(id) => {
            let payload = enc_u64(id.0);
            lemma_object_head(s, i, "StartGame"@, payload);
            let i3 = i + 2 + quoted("StartGame"@).len();
            lemma_at_index(s, i3 + payload.len(), "}"@, 0);
            lemma_parse_u64_tok(s, i3, id.0);
        },
    }
}

} // verus!

verus! {

// ---------------------------------------------------------------------------
// Responses
// ---------------------------------------------------------------------------

use crate::remote_control::ResponseV;

/// The canonical encoding of a response.
#[verifier::opaque]
pub open spec fn enc_response(r: ResponseV) -> Seq<char> {
    match r {
        ResponseV::Quit => quoted("Quit"@),
        ResponseV::DropPlaylist => quoted("DropPlaylist"@),
        ResponseV::ClearPlaylist => quoted("ClearPlaylist"@),
        ResponseV::AddToLobby => quoted("AddToLobby"@),
        ResponseV::StartGame => quoted("StartGame"@),
        ResponseV::Error(x) => "{"@ + quoted("Error"@) + ":"@ + quoted(x) + "}"@,
        ResponseV::Ping(v) => "{"@ + quoted("Ping"@) + ":"@ + enc_u64(v as u64) + "}"@,
        ResponseV::GetConfig(c) => "{"@ + quoted("GetConfig"@) + ":"@ + enc_config(c) + "}"@,
        ResponseV::SetConfig(c) => "{"@ + quoted("SetConfig"@) + ":"@ + enc_config(c) + "}"@,
        ResponseV::GetPlaylist(v) => "{"@ + quoted("GetPlaylist"@) + ":"@ + enc_playlist(v)
            + "}"@,
        ResponseV::CreateLobby(id) => "{"@ + quoted("CreateLobby"@) + ":"@ + enc_u64(id.0)
            + "}"@,
    }
}

pub open spec fn parse_response(s: Seq<char>, i: int) -> Option<(ResponseV, int)> {
    let j = spec_skip_ws(s, i);
    if !(0 <= j < s.len()) {
        None
    } else if s[j] == '"' {
        match spec_parse_qstr(s, j + 1) {
            Some((name, j2)) => if name == "Quit"@ {
                Some((ResponseV::Quit, j2))
            } else if name == "DropPlaylist"@ {
                Some((ResponseV::DropPlaylist, j2))
            } else if name == "ClearPlaylist"@ {
                Some((ResponseV::ClearPlaylist, j2))
            } else if name == "AddToLobby"@ {
                Some((ResponseV::AddToLobby, j2))
            } else if name == "StartGame"@ {
                Some((ResponseV::StartGame, j2))
            } else {
                None
            },
            None => None,
        }
    } else if s[j] == '{' {
        match parse_str_tok(s, j + 1) {
            Some((key, i2)) => match tok(s, i2, ":"@) {
                Some(i3) => if key == "Error"@ {
                    match parse_str_tok(s, i3) {
                        Some((x, i4)) => match tok(s, i4, "}"@) {
                            Some(end) => Some((ResponseV::Error(x), end)),
                            None => None,
                        },
                        None => None,
                    }
                } else if key == "Ping"@ {
                    match parse_u32_tok(s, i3) {
                        Some((v, i4)) => match tok(s, i4, "}"@) {
                            Some(end) => Some((ResponseV::Ping(v), end)),
                            None => None,
                        },
                        None => None,
                    }
                } else if key == "GetConfig"@ {
                    match parse_config(s, i3) {
                        Some((c, i4)) => match tok(s, i4, "}"@) {
                            Some(end) => Some((ResponseV::GetConfig(c), end)),
                            None => None,
                        },
                        None => None,
                    }
                } else if key == "SetConfig"@ {
                    match parse_config(s, i3) {
                        Some((c, i4)) => match tok(s, i4, "}"@) {
                            Some(end) => Some((ResponseV::SetConfig(c), end)),
                            None => None,
                        },
                        None => None,
                    }
                } else if key == "GetPlaylist"@ {
                    match parse_playlist(s, i3) {
                        Some((v, i4)) => match tok(s, i4, "}"@) {
                            Some(end) => Some((ResponseV::GetPlaylist(v), end)),
                            None => None,
                        },
                        None => None,
                    }
                } else if key == "CreateLobby"@ {
                    match parse_u64_tok(s, i3) {
                        Some((id, i4)) => match tok(s, i4, "}"@) {
                            Some(end) => Some(
                                (ResponseV::CreateLobby(crate::supervisor::GameId(id)), end),
                            ),
                            None => None,
                        },
                        None => None,
                    }
                } else {
                    None
                },
                None => None,
            },
            None => None,
        }
    } else {
        None
    }
}

proof fn reveal_response_names()
    ensures
        "Quit"@.len() == 4 && "DropPlaylist"@.len() == 12 && "ClearPlaylist"@.len() == 13
            && "AddToLobby"@.len() == 10 && "StartGame"@.len() == 9 && "Error"@.len() == 5
            && "Ping"@.len() == 4 && "GetConfig"@.len() == 9 && "GetPlaylist"@.len() == 11
            && "CreateLobby"@.len() == 11,
        "Ping"@ != "Error"@,
        "GetConfig"@ != "Error"@,
        "SetConfig"@ != "Error"@,
        "SetConfig"@ != "GetConfig"@,
        "SetConfig"@.len() == 9,
        "GetPlaylist"@ != "Error"@,
        "CreateLobby"@ != "Error"@,
        "CreateLobby"@ != "GetPlaylist"@,
{
    reveal_strlit("Quit");
    reveal_strlit("DropPlaylist");
    reveal_strlit("ClearPlaylist");
    reveal_strlit("AddToLobby");
    reveal_strlit("StartGame");
    reveal_strlit("Error");
    reveal_strlit("Ping");
    reveal_strlit("GetConfig");
    reveal_strlit("SetConfig");
    reveal_strlit("GetPlaylist");
    reveal_strlit("CreateLobby");
    assert("SetConfig"@[0] != "GetConfig"@[0]);
    assert("CreateLobby"@[0] != "GetPlaylist"@[0]);
    assert("Ping"@[0] != "Error"@[0]);
    assert("GetConfig"@[0] != "Error"@[0]);
    assert("SetConfig"@[0] != "Error"@[0]);
    assert("GetPlaylist"@[0] != "Error"@[0]);
    assert("CreateLobby"@[0] != "Error"@[0]);
}

/// Every response parses back from its canonical encoding.
#[verifier::rlimit(100)]
#[verifier::spinoff_prover]
pub proof fn lemma_parse_response(s: Seq<char>, i: int, r: ResponseV)
    requires
        at(s, i, enc_response(r)),
    ensures
        parse_response(s, i) == Some((r, i + enc_response(r).len())),
{
    reveal(enc_response);
    reveal_punct();
    reveal_response_names();
    match r {
        ResponseV::Quit => {
            lemma_quoted_head(s, i, "Quit"@);
        },
        ResponseV::DropPlaylist => {
            lemma_quoted_head(s, i, "DropPlaylist"@);
        },
        ResponseV::ClearPlaylist => {
            lemma_quoted_head(s, i, "ClearPlaylist"@);
        },
        ResponseV::AddToLobby => {
            lemma_quoted_head(s, i, "AddToLobby"@);
        },
        ResponseV::StartGame => {
            lemma_quoted_head(s, i, "StartGame"@);
        },
        ResponseV::Error(x) => {
            lemma_object_head(s, i, "Error"@, quoted(x));
            let i3 = i + 2 + quoted("Error"@).len();
            lemma_parse_str_tok(s, i3, x);
        },
        ResponseV::Ping(v) => {
            let payload = enc_u64(v as u64);
            lemma_object_head(s, i, "Ping"@, payload);
            let i3 = i + 2 + quoted("Ping"@).len();
            lemma_at_index(s, i3 + payload.len(), "}"@, 0);
            lemma_parse_u32_tok(s, i3, v);
        },
        ResponseV::GetConfig(c) => {
            lemma_object_head(s, i, "GetConfig"@, enc_config(c));
            let i3 = i + 2 + quoted("GetConfig"@).len();
            lemma_parse_config(s, i3, c);
        },
        ResponseV::SetConfig(c) => {
            lemma_object_head(s, i, "SetConfig"@, enc_config(c));
            let i3 = i + 2 + quoted("SetConfig"@).len();
            lemma_parse_config(s, i3, c);
        },
        ResponseV::GetPlaylist(v) => {
            lemma_object_head(s, i, "GetPlaylist"@, enc_playlist(v));
            let i3 = i + 2 + quoted("GetPlaylist"@).len();
            lemma_parse_playlist(s, i3, v);
        },
        ResponseV::CreateLobby(id) => {
            let payload = enc_u64(id.0);
            lemma_object_head(s, i, "CreateLobby"@, payload);
            let i3 = i + 2 + quoted("CreateLobby"@).len();
            lemma_at_index(s, i3 + payload.len(), "}"@, 0);
            lemma_parse_u64_tok(s, i3, id.0);
        },
    }
}

} // verus!

verus! {

// ---------------------------------------------------------------------------
// Executable playlist codec
// ---------------------------------------------------------------------------

/// The deep view of a playlist vector.
pub open spec fn playlist_view(v: Seq<(String, bool)>) -> Seq<(Seq<char>, bool)> {
    v.map_values(|e: (String, bool)| (e.0@, e.1))
}

proof fn lemma_entries_snoc(v: Seq<(Seq<char>, bool)>, e: (Seq<char>, bool))
    ensures
        enc_playlist_entries(v.push(e)) == if v.len() == 0 {
            enc_playlist_entry(e)
        } else {
            enc_playlist_entries(v) + ","@ + enc_playlist_entries(seq![e])
        },
    decreases v.len(),
{
    if v.len() == 0 {
        assert(v.push(e) =~= seq![e]);
        assert(enc_playlist_entries(seq![e]) == enc_playlist_entry(e));
    } else {
        let w = v.push(e);
        assert(w[0] == v[0]);
        assert(w.drop_first() =~= v.drop_first().push(e));
        lemma_entries_snoc(v.drop_first(), e);
        if v.len() == 1 {
            assert(v.drop_first().len() == 0);
            assert(enc_playlist_entries(w) == enc_playlist_entry(w[0]) + ","@
                + enc_playlist_entries(w.drop_first()));
            assert(enc_playlist_entries(w.drop_first()) == enc_playlist_entry(e));
            assert(enc_playlist_entries(v) == enc_playlist_entry(v[0]));
        } else {
            assert(enc_playlist_entries(w) == enc_playlist_entry(w[0]) + ","@
                + enc_playlist_entries(w.drop_first()));
            assert(enc_playlist_entries(v) == enc_playlist_entry(v[0]) + ","@
                + enc_playlist_entries(v.drop_first()));
            assert((enc_playlist_entry(v[0]) + ","@ + (enc_playlist_entries(v.drop_first())
                + ","@ + enc_playlist_entries(seq![e]))) =~= ((enc_playlist_entry(v[0]) + ","@
                + enc_playlist_entries(v.drop_first())) + ","@ + enc_playlist_entries(
                seq![e],
            )));
        }
    }
}

/// Append the canonical encoding of a playlist.
pub fn push_playlist(out: &mut Vec<char>, v: &Vec<(String, bool)>)
    ensures
        final(out)@ == old(out)@ + enc_playlist(playlist_view(v@)),
{
    out.push('[');
    let mut k: usize = 0;
    while k < v.len()
        invariant
            k <= v@.len(),
            out@ == old(out)@ + seq!['['] + enc_playlist_entries(playlist_view(v@).take(k as int)),
        decreases v@.len() - k,
    {
        if k > 0 {
            out.push(',');
        }
        out.push('[');
        crate::codec::push_quoted_str(out, v[k].0.as_str());
        out.push(',');
        push_bool(out, v[k].1);
        out.push(']');
        proof {
            reveal_punct();
            assert("["@ =~= seq!['[']);
            assert(","@ =~= seq![',']);
            assert("]"@ =~= seq![']']);
            let pv = playlist_view(v@);
            let e = pv[k as int];
            assert(pv.take(k + 1) =~= pv.take(k as int).push(e));
            lemma_entries_snoc(pv.take(k as int), e);
            assert(enc_playlist_entry(e) =~= seq!['['] + quoted(v@[k as int].0@) + seq![',']
                + enc_bool(v@[k as int].1) + seq![']']);
            if k == 0 {
                assert(out@ =~= old(out)@ + seq!['['] + enc_playlist_entries(pv.take(k + 1)));
            } else {
                assert(enc_playlist_entries(seq![e]) == enc_playlist_entry(e));
                assert(out@ =~= old(out)@ + seq!['['] + enc_playlist_entries(pv.take(k + 1)));
            }
        }
        k = k + 1;
    }
    out.push(']');
    proof {
        reveal_punct();
        let pv = playlist_view(v@);
        assert(pv.take(pv.len() as int) =~= pv);
        assert("["@ =~= seq!['[']);
        assert("]"@ =~= seq![']']);
        assert(out@ =~= old(out)@ + enc_playlist(pv));
    }
}

/// Parse one canonical playlist.
pub fn parse_playlist_exec(s: &Vec<char>, i: usize) -> (r: Option<(Vec<(String, bool)>, usize)>)
    requires
        i <= s@.len(),
    ensures
        r matches Some(p) ==> parse_playlist(s@, i as int) == Some(
            (playlist_view(p.0@), p.1 as int),
        ) && i <= p.1 <= s@.len(),
        r is None ==> parse_playlist(s@, i as int) is None,
{
    let i1 = match tok_exec(s, i, "[") {
        Some(j) => j,
        None => {
            return None;
        },
    };
    match tok_exec(s, i1, "]") {
        Some(end) => {
            proof {
                assert(playlist_view(Seq::<(String, bool)>::empty()) =~= Seq::<
                    (Seq<char>, bool),
                >::empty());
            }
            return Some((Vec::new(), end));
        },
        None => {},
    }
    let (e, j) = match parse_playlist_entry_exec(s, i1) {
        Some(p) => p,
        None => {
            return None;
        },
    };
    if j <= i1 {
        return None;
    }
    let mut acc: Vec<(String, bool)> = Vec::new();
    acc.push(e);
    let mut k: usize = j;
    proof {
        assert(acc@ =~= seq![e]);
        assert(playlist_view(acc@) =~= seq![(e.0@, e.1)]);
        assert(playlist_view(acc@).take(1) =~= playlist_view(acc@));
    }
    loop
        invariant
            i <= s@.len(),
            i <= i1,
            i1 < k <= s@.len(),
            forall|rest: Seq<(Seq<char>, bool)>, j2: int|
                parse_playlist_more(s@, k as int, playlist_view(acc@)) == Some((rest, j2))
                    ==> parse_playlist_more(s@, j as int, playlist_view(acc@).take(1)) == Some(
                    (rest, j2),
                ),
            parse_playlist_more(s@, k as int, playlist_view(acc@)) is None
                ==> parse_playlist_more(s@, j as int, playlist_view(acc@).take(1)) is None,
            acc@.len() >= 1,
            parse_playlist(s@, i as int) == (match parse_playlist_more(
                s@,
                j as int,
                playlist_view(acc@).take(1),
            ) {
                Some((v2, j3)) => match tok(s@, j3, "]"@) {
                    None => None,
                    Some(end) => Some((v2, end)),
                },
                None => None,
            }),
        decreases s@.len() - k,
    {
        let k1 = match tok_exec(s, k, ",") {
            Some(j2) => j2,
            None => {
                proof {
                    assert(parse_playlist_more(s@, k as int, playlist_view(acc@)) == Some(
                        (playlist_view(acc@), k as int),
                    ));
                    assert(parse_playlist_more(s@, j as int, playlist_view(acc@).take(1)) == Some(
                        (playlist_view(acc@), k as int),
                    ));
                }
                let end = match tok_exec(s, k, "]") {
                    Some(j2) => j2,
                    None => {
                        return None;
                    },
                };
                return Some((acc, end));
            },
        };
        if k1 <= k {
            proof {
                reveal_punct();
                crate::codec::lemma_skip_ws_bounds(s@, k as int);
                assert(false);
            }
            return None;
        }
        let (e2, k2) = match parse_playlist_entry_exec(s, k1) {
            Some(p) => p,
            None => {
                return None;
            },
        };
        if k2 <= k1 {
            return None;
        }
        proof {
            let av = playlist_view(acc@);
            let av2 = playlist_view(acc@.push(e2));
            assert(av2 =~= av.push((e2.0@, e2.1)));
            assert(av2.take(1) =~= av.take(1));
        }
        acc.push(e2);
        k = k2;
    }
}

/// Parse one canonical playlist entry./// Parse one canonical playlist entry.
fn parse_playlist_entry_exec(s: &Vec<char>, i: usize) -> (r: Option<((String, bool), usize)>)
    requires
        i <= s@.len(),
    ensures
        r matches Some(p) ==> parse_playlist_entry(s@, i as int) == Some(
            ((p.0.0@, p.0.1), p.1 as int),
        ) && i <= p.1 <= s@.len(),
        r is None ==> parse_playlist_entry(s@, i as int) is None,
{
    let i1 = match tok_exec(s, i, "[") {
        Some(j) => j,
        None => {
            return None;
        },
    };
    let (id_chars, i2) = match parse_str_tok_exec(s, i1) {
        Some(p) => p,
        None => {
            return None;
        },
    };
    let i3 = match tok_exec(s, i2, ",") {
        Some(j) => j,
        None => {
            return None;
        },
    };
    let (ready, i4) = match parse_bool_tok_exec(s, i3) {
        Some(p) => p,
        None => {
            return None;
        },
    };
    let end = match tok_exec(s, i4, "]") {
        Some(j) => j,
        None => {
            return None;
        },
    };
    Some(((crate::codec::string_from_chars(&id_chars), ready), end))
}

} // verus!

verus! {

// ---------------------------------------------------------------------------
// Executable request and response codec, and the round trip
// ---------------------------------------------------------------------------

use crate::remote_control::{Request, Response};

/// Append the canonical encoding of a request.
#[verifier::rlimit(100)]
pub fn push_request(out: &mut Vec<char>, r: &Request)
    ensures
        final(out)@ == old(out)@ + enc_request(r@),
{
    proof {
        reveal(enc_request);
    }
    match r {
        Request::Quit => crate::codec::push_quoted_str(out, "Quit"),
        Request::GetConfig => crate::codec::push_quoted_str(out, "GetConfig"),
        Request::GetPlaylist => crate::codec::push_quoted_str(out, "GetPlaylist"),
        Request::ClearPlaylist => crate::codec::push_quoted_str(out, "ClearPlaylist"),
        Request::CreateLobby => crate::codec::push_quoted_str(out, "CreateLobby"),
        Request::Ping(v) => {
            crate::codec::push_lit(out, "{");
            crate::codec::push_quoted_str(out, "Ping");
            crate::codec::push_lit(out, ":");
            crate::codec::push_dec_u64(out, *v as u64);
            crate::codec::push_lit(out, "}");
            assert(out@ =~= old(out)@ + enc_request(r@));
        },
        Request::SetConfig(c) => {
            crate::codec::push_lit(out, "{");
            crate::codec::push_quoted_str(out, "SetConfig");
            crate::codec::push_lit(out, ":");
            push_config(out, c);
            crate::codec::push_lit(out, "}");
            assert(out@ =~= old(out)@ + enc_request(r@));
        },
        Request::DropPlaylistItem(x) => {
            crate::codec::push_lit(out, "{");
            crate::codec::push_quoted_str(out, "DropPlaylistItem");
            crate::codec::push_lit(out, ":");
            push_string(out, x);
            crate::codec::push_lit(out, "}");
            assert(out@ =~= old(out)@ + enc_request(r@));
        },
        Request::AddToLobby(id, x) => {
            crate::codec::push_lit(out, "{");
            crate::codec::push_quoted_str(out, "AddToLobby");
            crate::codec::push_lit(out, ":");
            crate::codec::push_lit(out, "[");
            crate::codec::push_dec_u64(out, id.0);
            crate::codec::push_lit(out, ",");
            push_string(out, x);
            crate::codec::push_lit(out, "]");
            crate::codec::push_lit(out, "}");
            assert(out@ =~= old(out)@ + enc_request(r@));
        },
        Request::StartGame(id) => {
            crate::codec::push_lit(out, "{");
            crate::codec::push_quoted_str(out, "StartGame");
            crate::codec::push_lit(out, ":");
            crate::codec::push_dec_u64(out, id.0);
            crate::codec::push_lit(out, "}");
            assert(out@ =~= old(out)@ + enc_request(r@));
        },
    }
}

/// Append the canonical encoding of a response.
#[verifier::rlimit(100)]
pub fn push_response(out: &mut Vec<char>, r: &Response)
    ensures
        final(out)@ == old(out)@ + enc_response(r@),
{
    proof {
        reveal(enc_response);
    }
    match r {
        Response::Quit => crate::codec::push_quoted_str(out, "Quit"),
        Response::DropPlaylist => crate::codec::push_quoted_str(out, "DropPlaylist"),
        Response::ClearPlaylist => crate::codec::push_quoted_str(out, "ClearPlaylist"),
        Response::AddToLobby => crate::codec::push_quoted_str(out, "AddToLobby"),
        Response::StartGame => crate::codec::push_quoted_str(out, "StartGame"),
        Response::Error(x) => {
            crate::codec::push_lit(out, "{");
            crate::codec::push_quoted_str(out, "Error");
            crate::codec::push_lit(out, ":");
            push_string(out, x);
            crate::codec::push_lit(out, "}");
            assert(out@ =~= old(out)@ + enc_response(r@));
        },
        Response::Ping(v) => {
            crate::codec::push_lit(out, "{");
            crate::codec::push_quoted_str(out, "Ping");
            crate::codec::push_lit(out, ":");
            crate::codec::push_dec_u64(out, *v as u64);
            crate::codec::push_lit(out, "}");
            assert(out@ =~= old(out)@ + enc_response(r@));
        },
        Response::GetConfig(c) => {
            crate::codec::push_lit(out, "{");
            crate::codec::push_quoted_str(out, "GetConfig");
            crate::codec::push_lit(out, ":");
            push_config(out, c);
            crate::codec::push_lit(out, "}");
            assert(out@ =~= old(out)@ + enc_response(r@));
        },
        Response::SetConfig(c) => {
            crate::codec::push_lit(out, "{");
            crate::codec::push_quoted_str(out, "SetConfig");
            crate::codec::push_lit(out, ":");
            push_config(out, c);
            crate::codec::push_lit(out, "}");
            assert(out@ =~= old(out)@ + enc_response(r@));
        },
        Response::GetPlaylist(v) => {
            crate::codec::push_lit(out, "{");
            crate::codec::push_quoted_str(out, "GetPlaylist");
            crate::codec::push_lit(out, ":");
            push_playlist(out, v);
            crate::codec::push_lit(out, "}");
            assert(out@ =~= old(out)@ + enc_response(r@));
        },
        Response::CreateLobby(id) => {
            crate::codec::push_lit(out, "{");
            crate::codec::push_quoted_str(out, "CreateLobby");
            crate::codec::push_lit(out, ":");
            crate::codec::push_dec_u64(out, id.0);
            crate::codec::push_lit(out, "}");
            assert(out@ =~= old(out)@ + enc_response(r@));
        },
    }
}

/// Parse one request.
#[verifier::rlimit(100)]
pub fn parse_request_exec(s: &Vec<char>, i: usize) -> (r: Option<(Request, usize)>)
    requires
        i <= s@.len(),
    ensures
        r matches Some(p) ==> parse_request(s@, i as int) == Some((p.0@, p.1 as int)) && i <= p.1
            <= s@.len(),
        r is None ==> parse_request(s@, i as int) is None,
{
    let j = skip_ws(s, i);
    if j >= s.len() {
        return None;
    }
    if s[j] == '"' {
        let (name, j2) = match parse_qstr(s, j + 1) {
            Some(p) => p,
            None => {
                return None;
            },
        };
        if crate::codec::text_is(&name, "Quit") {
            Some((Request::Quit, j2))
        } else if crate::codec::text_is(&name, "GetConfig") {
            Some((Request::GetConfig, j2))
        } else if crate::codec::text_is(&name, "GetPlaylist") {
            Some((Request::GetPlaylist, j2))
        } else if crate::codec::text_is(&name, "ClearPlaylist") {
            Some((Request::ClearPlaylist, j2))
        } else if crate::codec::text_is(&name, "CreateLobby") {
            Some((Request::CreateLobby, j2))
        } else {
            None
        }
    } else if s[j] == '{' {
        let (key, i2) = match parse_str_tok_exec(s, j + 1) {
            Some(p) => p,
            None => {
                return None;
            },
        };
        let i3 = match tok_exec(s, i2, ":") {
            Some(p) => p,
            None => {
                return None;
            },
        };
        if crate::codec::text_is(&key, "Ping") {
            let (v, i4) = match parse_u32_tok_exec(s, i3) {
                Some(p) => p,
                None => {
                    return None;
                },
            };
            match tok_exec(s, i4, "}") {
                Some(end) => Some((Request::Ping(v), end)),
                None => None,
            }
        } else if crate::codec::text_is(&key, "SetConfig") {
            let (c, i4) = match parse_config_exec(s, i3) {
                Some(p) => p,
                None => {
                    return None;
                },
            };
            match tok_exec(s, i4, "}") {
                Some(end) => Some((Request::SetConfig(c), end)),
                None => None,
            }
        } else if crate::codec::text_is(&key, "DropPlaylistItem") {
            let (x, i4) = match parse_str_tok_exec(s, i3) {
                Some(p) => p,
                None => {
                    return None;
                },
            };
            match tok_exec(s, i4, "}") {
                Some(end) => Some(
                    (Request::DropPlaylistItem(crate::codec::string_from_chars(&x)), end),
                ),
                None => None,
            }
        } else if crate::codec::text_is(&key, "AddToLobby") {
            let i4 = match tok_exec(s, i3, "[") {
                Some(p) => p,
                None => {
                    return None;
                },
            };
            let (id, i5) = match parse_u64_tok_exec(s, i4) {
                Some(p) => p,
                None => {
                    return None;
                },
            };
            let i6 = match tok_exec(s, i5, ",") {
                Some(p) => p,
                None => {
                    return None;
                },
            };
            let (x, i7) = match parse_str_tok_exec(s, i6) {
                Some(p) => p,
                None => {
                    return None;
                },
            };
            let i8 = match tok_exec(s, i7, "]") {
                Some(p) => p,
                None => {
                    return None;
                },
            };
            match tok_exec(s, i8, "}") {
                Some(end) => Some(
                    (
                        Request::AddToLobby(
                            crate::supervisor::GameId(id),
                            crate::codec::string_from_chars(&x),
                        ),
                        end,
                    ),
                ),
                None => None,
            }
        } else if crate::codec::text_is(&key, "StartGame") {
            let (id, i4) = match parse_u64_tok_exec(s, i3) {
                Some(p) => p,
                None => {
                    return None;
                },
            };
            match tok_exec(s, i4, "}") {
                Some(end) => Some((Request::StartGame(crate::supervisor::GameId(id)), end)),
                None => None,
            }
        } else {
            None
        }
    } else {
        None
    }
}

/// Parse one response.
#[verifier::rlimit(100)]
pub fn parse_response_exec(s: &Vec<char>, i: usize) -> (r: Option<(Response, usize)>)
    requires
        i <= s@.len(),
    ensures
        r matches Some(p) ==> parse_response(s@, i as int) == Some((p.0@, p.1 as int)) && i <= p.1
            <= s@.len(),
        r is None ==> parse_response(s@, i as int) is None,
{
    let j = skip_ws(s, i);
    if j >= s.len() {
        return None;
    }
    if s[j] == '"' {
        let (name, j2) = match parse_qstr(s, j + 1) {
            Some(p) => p,
            None => {
                return None;
            },
        };
        if crate::codec::text_is(&name, "Quit") {
            Some((Response::Quit, j2))
        } else if crate::codec::text_is(&name, "DropPlaylist") {
            Some((Response::DropPlaylist, j2))
        } else if crate::codec::text_is(&name, "ClearPlaylist") {
            Some((Response::ClearPlaylist, j2))
        } else if crate::codec::text_is(&name, "AddToLobby") {
            Some((Response::AddToLobby, j2))
        } else if crate::codec::text_is(&name, "StartGame") {
            Some((Response::StartGame, j2))
        } else {
            None
        }
    } else if s[j] == '{' {
        let (key, i2) = match parse_str_tok_exec(s, j + 1) {
            Some(p) => p,
            None => {
                return None;
            },
        };
        let i3 = match tok_exec(s, i2, ":") {
            Some(p) => p,
            None => {
                return None;
            },
        };
        if crate::codec::text_is(&key, "Error") {
            let (x, i4) = match parse_str_tok_exec(s, i3) {
                Some(p) => p,
                None => {
                    return None;
                },
            };
            match tok_exec(s, i4, "}") {
                Some(end) => Some((Response::Error(crate::codec::string_from_chars(&x)), end)),
                None => None,
            }
        } else if crate::codec::text_is(&key, "Ping") {
            let (v, i4) = match parse_u32_tok_exec(s, i3) {
                Some(p) => p,
                None => {
                    return None;
                },
            };
            match tok_exec(s, i4, "}") {
                Some(end) => Some((Response::Ping(v), end)),
                None => None,
            }
        } else if crate::codec::text_is(&key, "GetConfig") {
            let (c, i4) = match parse_config_exec(s, i3) {
                Some(p) => p,
                None => {
                    return None;
                },
            };
            match tok_exec(s, i4, "}") {
                Some(end) => Some((Response::GetConfig(c), end)),
                None => None,
            }
        } else if crate::codec::text_is(&key, "SetConfig") {
            let (c, i4) = match parse_config_exec(s, i3) {
                Some(p) => p,
                None => {
                    return None;
                },
            };
            match tok_exec(s, i4, "}") {
                Some(end) => Some((Response::SetConfig(c), end)),
                None => None,
            }
        } else if crate::codec::text_is(&key, "GetPlaylist") {
            let (v, i4) = match parse_playlist_exec(s, i3) {
                Some(p) => p,
                None => {
                    return None;
                },
            };
            match tok_exec(s, i4, "}") {
                Some(end) => Some((Response::GetPlaylist(v), end)),
                None => None,
            }
        } else if crate::codec::text_is(&key, "CreateLobby") {
            let (id, i4) = match parse_u64_tok_exec(s, i3) {
                Some(p) => p,
                None => {
                    return None;
                },
            };
            match tok_exec(s, i4, "}") {
                Some(end) => Some((Response::CreateLobby(crate::supervisor::GameId(id)), end)),
                None => None,
            }
        } else {
            None
        }
    } else {
        None
    }
}

/// What decoding one line means: parse one value, then nothing but
/// whitespace may remain.
pub open spec fn spec_decode_request(s: Seq<char>) -> Option<RequestV> {
    match parse_request(s, 0) {
        Some((r, j)) => if spec_skip_ws(s, j) == s.len() {
            Some(r)
        } else {
            None
        },
        None => None,
    }
}

pub open spec fn spec_decode_response(s: Seq<char>) -> Option<ResponseV> {
    match parse_response(s, 0) {
        Some((r, j)) => if spec_skip_ws(s, j) == s.len() {
            Some(r)
        } else {
            None
        },
        None => None,
    }
}

/// Encode a request as one line of JSON text (no trailing newline).
pub fn encode_request(r: &Request) -> (out: String)
    ensures
        out@ == enc_request(r@),
{
    let mut buf: Vec<char> = Vec::new();
    push_request(&mut buf, r);
    crate::codec::string_from_chars(&buf)
}

/// Encode a response as one line of JSON text (no trailing newline).
pub fn encode_response(r: &Response) -> (out: String)
    ensures
        out@ == enc_response(r@),
{
    let mut buf: Vec<char> = Vec::new();
    push_response(&mut buf, r);
    crate::codec::string_from_chars(&buf)
}

/// Decode one line of JSON text as a request.
pub fn decode_request(line: &str) -> (r: Option<Request>)
    ensures
        r matches Some(x) ==> spec_decode_request(line@) == Some(x@),
        r is None ==> spec_decode_request(line@) is None,
{
    let chars = crate::codec::chars_of(line);
    match parse_request_exec(&chars, 0) {
        Some((x, j)) => {
            let end = skip_ws(&chars, j);
            if end == chars.len() {
                Some(x)
            } else {
                None
            }
        },
        None => None,
    }
}

/// Decode one line of JSON text as a response.
pub fn decode_response(line: &str) -> (r: Option<Response>)
    ensures
        r matches Some(x) ==> spec_decode_response(line@) == Some(x@),
        r is None ==> spec_decode_response(line@) is None,
{
    let chars = crate::codec::chars_of(line);
    match parse_response_exec(&chars, 0) {
        Some((x, j)) => {
            let end = skip_ws(&chars, j);
            if end == chars.len() {
                Some(x)
            } else {
                None
            }
        },
        None => None,
    }
}

/// Remote-control JSON round trip: decoding the canonical encoding of any
/// request yields that request back, exactly.
pub proof fn lemma_request_round_trip(r: RequestV)
    ensures
        spec_decode_request(enc_request(r)) == Some(r),
{
    let s = enc_request(r);
    assert(s.subrange(0, s.len() as int) =~= s);
    assert(at(s, 0, s));
    lemma_parse_request(s, 0, r);
}

/// Remote-control JSON round trip: decoding the canonical encoding of any
/// response yields that response back, exactly.
pub proof fn lemma_response_round_trip(r: ResponseV)
    ensures
        spec_decode_response(enc_response(r)) == Some(r),
{
    let s = enc_response(r);
    assert(s.subrange(0, s.len() as int) =~= s);
    assert(at(s, 0, s));
    lemma_parse_response(s, 0, r);
}

} // verus!
