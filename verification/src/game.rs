//! Per-game outcome aggregation.  A game owns one player per participant;
//! players report terminal events, and the game folds them into one
//! outcome slot per player until every slot is decided.  The blocking
//! channel loop and the player threads live outside the library and feed
//! each received message through `process_msg`.

use vstd::prelude::*;

use crate::config::Config;
use crate::messaging::{ToGame, ToGameContent};
use crate::player::Player;
use crate::sc2::PlayerResult;

verus! {

/// Why a game ended.
#[derive(Debug, Clone, Copy, PartialEq, Eq, Structural)]
pub enum GameEndReason {
    /// The game ended naturally.
    Normal,
    /// The supervisor requested the game to quit.
    QuitRequested,
}

/// Game result data.
#[derive(Debug, Clone, PartialEq)]
pub struct GameResult {
    pub end_reason: GameEndReason,
    pub per_player: Vec<PlayerResult>,
}

/// A running game: its configuration snapshot and its participants.
#[derive(Debug, Clone, PartialEq)]
pub struct Game {
    /// Game configuration.
    pub config: Config,
    /// Player participants.
    pub players: Vec<Player>,
}

/// A vector of undecided outcome slots.
pub open spec fn all_empty_outcomes(n: nat) -> Seq<Option<PlayerResult>> {
    Seq::new(n, |k: int| None::<PlayerResult>)
}

/// How one message changes the outcome slots: a game-over report with one
/// decided entry per player overwrites every slot at once (and is
/// idempotent on repetition); a report of the wrong width, or one still
/// carrying an undecided entry, is not a game over and changes nothing;
/// any other terminal report marks its own player defeated unless that
/// slot is already decided.
pub open spec fn spec_process_msg(
    outcomes: Seq<Option<PlayerResult>>,
    msg: ToGame,
) -> Seq<Option<PlayerResult>> {
    match msg.content {
        ToGameContent::GameOver(results) => if results@.len() == outcomes.len() && (forall|k: int|
            0 <= k < results@.len() ==> #[trigger] results@[k] != PlayerResult::Undecided) {
            results@.map_values(|r: PlayerResult| Some(r))
        } else {
            outcomes
        },
        _ => if msg.player_index < outcomes.len() && outcomes[msg.player_index as int] is None {
            outcomes.update(msg.player_index as int, Some(PlayerResult::Defeat))
        } else {
            outcomes
        },
    }
}

/// The outcome slots after a whole message sequence.
pub open spec fn spec_apply_msgs(
    outcomes: Seq<Option<PlayerResult>>,
    msgs: Seq<ToGame>,
) -> Seq<Option<PlayerResult>>
    decreases msgs.len(),
{
    if msgs.len() == 0 {
        outcomes
    } else {
        spec_apply_msgs(spec_process_msg(outcomes, msgs[0]), msgs.drop_first())
    }
}

/// Every decided slot holds a decided result.
pub open spec fn outcomes_decided(outcomes: Seq<Option<PlayerResult>>) -> bool {
    forall|k: int|
        0 <= k < outcomes.len() ==> (#[trigger] outcomes[k] matches Some(r) ==> r
            != PlayerResult::Undecided)
}

impl Game {
    /// One undecided outcome slot per participant.
    pub fn initial_outcomes(&self) -> (r: Vec<Option<PlayerResult>>)
        ensures
            r@ == all_empty_outcomes(self.players@.len()),
    {
        let mut r: Vec<Option<PlayerResult>> = Vec::new();
        let n = self.players.len();
        let mut k: usize = 0;
        while k < n
            invariant
                k <= n,
                r@ =~= all_empty_outcomes(k as nat),
            decreases n - k,
        {
            r.push(None);
            k = k + 1;
            assert(r@ =~= all_empty_outcomes(k as nat));
        }
        r
    }

    /// Process a message from a player, filling outcome slots.
    pub fn process_msg(msg: &ToGame, player_results: &mut Vec<Option<PlayerResult>>)
        ensures
            final(player_results)@ == spec_process_msg(old(player_results)@, *msg),
    {
        match &msg.content {
            ToGameContent::GameOver(results) => {
                let mut decided: bool = true;
                let mut d: usize = 0;
                while d < results.len()
                    invariant
                        d <= results@.len(),
                        decided == (forall|k: int|
                            0 <= k < d ==> #[trigger] results@[k] != PlayerResult::Undecided),
                    decreases results@.len() - d,
                {
                    match results[d] {
                        PlayerResult::Undecided => {
                            decided = false;
                        },
                        _ => {},
                    }
                    d = d + 1;
                }
                if decided && results.len() == player_results.len() {
                    let mut filled: Vec<Option<PlayerResult>> = Vec::new();
                    let mut k: usize = 0;
                    while k < results.len()
                        invariant
                            k <= results@.len(),
                            filled@ =~= results@.subrange(0, k as int).map_values(
                                |r: PlayerResult| Some(r),
                            ),
                        decreases results@.len() - k,
                    {
                        filled.push(Some(results[k]));
                        k = k + 1;
                        assert(filled@ =~= results@.subrange(0, k as int).map_values(
                            |r: PlayerResult| Some(r),
                        ));
                    }
                    assert(results@.subrange(0, results@.len() as int) =~= results@);
                    *player_results = filled;
                }
            },
            _ => {
                if msg.player_index < player_results.len() {
                    let already = match player_results[msg.player_index] {
                        Some(_) => true,
                        None => false,
                    };
                    if !already {
                        player_results.set(msg.player_index, Some(PlayerResult::Defeat));
                    }
                }
            },
        }
    }

    /// Whether every outcome slot is decided, so the game can finish.
    pub fn outcomes_complete(player_results: &Vec<Option<PlayerResult>>) -> (r: bool)
        ensures
            r == (forall|k: int|
                0 <= k < player_results@.len() ==> #[trigger] player_results@[k] is Some),
    {
        let mut k: usize = 0;
        while k < player_results.len()
            invariant
                k <= player_results@.len(),
                forall|m: int| 0 <= m < k ==> #[trigger] player_results@[m] is Some,
            decreases player_results@.len() - k,
        {
            match player_results[k] {
                None => {
                    return false;
                },
                Some(_) => {},
            }
            k = k + 1;
        }
        true
    }

    /// The result of a normally finished game: one outcome per slot.
    pub fn finalize(player_results: &Vec<Option<PlayerResult>>) -> (r: GameResult)
        requires
            forall|k: int|
                0 <= k < player_results@.len() ==> #[trigger] player_results@[k] is Some,
        ensures
            r.end_reason == GameEndReason::Normal,
            r.per_player@.len() == player_results@.len(),
            forall|k: int|
                0 <= k < player_results@.len() ==> player_results@[k] == Some(
                    #[trigger] r.per_player@[k],
                ),
            outcomes_decided(player_results@) ==> forall|k: int|
                0 <= k < r.per_player@.len() ==> #[trigger] r.per_player@[k]
                    != PlayerResult::Undecided,
    {
        let mut out: Vec<PlayerResult> = Vec::new();
        let mut k: usize = 0;
        while k < player_results.len()
            invariant
                k <= player_results@.len(),
                forall|m: int|
                    0 <= m < player_results@.len() ==> #[trigger] player_results@[m] is Some,
                out@.len() == k,
                forall|m: int|
                    0 <= m < k ==> player_results@[m] == Some(#[trigger] out@[m]),
            decreases player_results@.len() - k,
        {
            match player_results[k] {
                Some(res) => {
                    out.push(res);
                },
                None => {
                    proof {
                        assert(player_results@[k as int] is Some);
                    }
                },
            }
            k = k + 1;
        }
        GameResult { end_reason: GameEndReason::Normal, per_player: out }
    }

    /// The result reported when the supervisor asks a game to quit.
    pub fn quit_result() -> (r: GameResult)
        ensures
            r.end_reason == GameEndReason::QuitRequested,
            r.per_player@.len() == 0,
    {
        GameResult { end_reason: GameEndReason::QuitRequested, per_player: Vec::new() }
    }
}

/// One message keeps the outcome slots' length, and keeps every decided
/// slot decided: a defeat is decided, and a game-over report is applied
/// only when every entry in it is decided.
pub proof fn lemma_process_msg_preserves(outcomes: Seq<Option<PlayerResult>>, msg: ToGame)
    requires
        outcomes_decided(outcomes),
    ensures
        spec_process_msg(outcomes, msg).len() == outcomes.len(),
        outcomes_decided(spec_process_msg(outcomes, msg)),
{
}

/// A completed normal game decides every player: outcome slots start all
/// empty and are filled only by player messages, so the final vector
/// still has one slot per player and no undecided entry — whatever the
/// message sequence was.
pub proof fn lemma_normal_outcomes_complete(n: nat, msgs: Seq<ToGame>)
    ensures
        spec_apply_msgs(all_empty_outcomes(n), msgs).len() == n,
        outcomes_decided(spec_apply_msgs(all_empty_outcomes(n), msgs)),
{
    lemma_apply_msgs_preserves(all_empty_outcomes(n), msgs);
}

proof fn lemma_apply_msgs_preserves(outcomes: Seq<Option<PlayerResult>>, msgs: Seq<ToGame>)
    requires
        outcomes_decided(outcomes),
    ensures
        spec_apply_msgs(outcomes, msgs).len() == outcomes.len(),
        outcomes_decided(spec_apply_msgs(outcomes, msgs)),
    decreases msgs.len(),
{
    if msgs.len() > 0 {
        lemma_process_msg_preserves(outcomes, msgs[0]);
        lemma_apply_msgs_preserves(spec_process_msg(outcomes, msgs[0]), msgs.drop_first());
    }
}

} // verus!
