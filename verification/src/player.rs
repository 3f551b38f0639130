//! Per-player decisions: request policy filtering, response classification,
//! and the deterministic ordering of reported game outcomes.
//!
//! The forwarding loop itself blocks on sockets and therefore runs outside
//! the library; each iteration feeds the received frames through the
//! functions here and performs the actions they decide.

use vstd::prelude::*;

use crate::config::{spec_request_allowed, RequestLimits};
use crate::messaging::ToGameContent;
use crate::protocol::{InterfaceOptions, JoinRequest, Req, Resp, RespContent};
use crate::sc2::{PlayerResult, Race, Status};

verus! {

/// Player data, like join parameters.
#[derive(Debug, PartialEq)]
pub struct PlayerData {
    pub race: Race,
    pub name: Option<String>,
    pub ifopts: InterfaceOptions,
}

impl Clone for PlayerData {
    fn clone(&self) -> (r: Self)
        ensures
            r == *self,
    {
        PlayerData {
            race: self.race,
            name: crate::config::clone_opt_string(&self.name),
            ifopts: self.ifopts,
        }
    }
}

impl PlayerData {
    /// The player data carried by a join request.
    pub fn from_join_request(req: JoinRequest) -> (r: PlayerData)
        ensures
            r.race == req.race,
            r.name == req.name,
            r.ifopts == req.ifopts,
    {
        PlayerData { race: req.race, name: req.name, ifopts: req.ifopts }
    }
}

/// The proxy-side state of one participant: the client it stands for, the
/// last engine status seen, and the player's join data.  The engine
/// process and the two sockets a player bridges live outside the library;
/// the client is named by its identifier (its peer address as text).
#[derive(Debug, PartialEq)]
pub struct Player {
    /// Identifier of the connected client.
    pub client: String,
    /// Status of the connected engine process, as last reported.
    pub sc2_status: Option<Status>,
    /// Additional data.
    pub data: PlayerData,
}

impl Clone for Player {
    fn clone(&self) -> (r: Self)
        ensures
            r == *self,
    {
        Player { client: self.client.clone(), sc2_status: self.sc2_status, data: self.data.clone() }
    }
}

/// A transport failure in the forwarding loop: which side's socket
/// closed unexpectedly.
#[derive(Debug, Clone, Copy, PartialEq, Eq, Structural)]
pub enum TransportFailure {
    /// The client's connection closed or reset mid-request.
    ClientClosed,
    /// The engine's connection closed during a round trip.
    EngineClosed,
}

/// What a player reports to its game when a socket fails: the engine's
/// side and the client's side are told apart; either way the caller
/// kills the engine and the player stops without being recycled.
pub fn transport_failure_report(f: TransportFailure) -> (r: ToGameContent)
    ensures
        f is ClientClosed ==> r is UnexpectedConnectionClose,
        f is EngineClosed ==> r is SC2UnexpectedConnectionClose,
{
    match f {
        TransportFailure::ClientClosed => ToGameContent::UnexpectedConnectionClose,
        TransportFailure::EngineClosed => ToGameContent::SC2UnexpectedConnectionClose,
    }
}

/// What to do with a client request before forwarding.
#[derive(Debug, Clone, PartialEq)]
pub enum RequestVerdict {
    /// Policy denied the request: answer the client with this error frame
    /// and do not forward the request to the engine.
    Deny(Resp),
    /// Forward the request to the engine.
    Forward,
}

/// What a forwarded response means for the player's lifecycle.
#[derive(Debug, Clone, PartialEq)]
pub enum ResponseVerdict {
    /// The engine acknowledged a quit: report, wait for the process, stop.
    EngineQuit,
    /// The client left the game cleanly: report and return to the playlist.
    ClientLeft,
    /// The game is over: report these outcomes, sorted by player id.
    GameOver(Vec<PlayerResult>),
    /// Nothing noteworthy: keep forwarding.
    Continue,
}

// ---------------------------------------------------------------------------
// Outcome ordering
// ---------------------------------------------------------------------------

/// Insert one `(player id, result)` pair behind all pairs with a key not
/// above its own.
pub open spec fn insert_by_id(
    x: (u32, PlayerResult),
    s: Seq<(u32, PlayerResult)>,
) -> Seq<(u32, PlayerResult)>
    decreases s.len(),
{
    if s.len() == 0 {
        seq![x]
    } else if x.0 < s[0].0 {
        seq![x] + s
    } else {
        seq![s[0]] + insert_by_id(x, s.drop_first())
    }
}

/// Stable insertion sort of `(player id, result)` pairs by player id.
pub open spec fn sort_by_id(s: Seq<(u32, PlayerResult)>) -> Seq<(u32, PlayerResult)>
    decreases s.len(),
{
    if s.len() == 0 {
        Seq::<(u32, PlayerResult)>::empty()
    } else {
        insert_by_id(s[0], sort_by_id(s.drop_first()))
    }
}

/// The outcome vector reported on a game-over observation: the results
/// sorted by player id, with the ids dropped.
pub open spec fn spec_game_over_results(s: Seq<(u32, PlayerResult)>) -> Seq<PlayerResult> {
    sort_by_id(s).map_values(|p: (u32, PlayerResult)| p.1)
}

/// Keys appear in non-decreasing order.
pub open spec fn sorted_by_id(s: Seq<(u32, PlayerResult)>) -> bool {
    forall|a: int, b: int| 0 <= a <= b < s.len() ==> s[a].0 <= s[b].0
}

proof fn lemma_insert_by_id_props(x: (u32, PlayerResult), s: Seq<(u32, PlayerResult)>)
    requires
        sorted_by_id(s),
    ensures
        sorted_by_id(insert_by_id(x, s)),
        insert_by_id(x, s).to_multiset() == s.to_multiset().insert(x),
        insert_by_id(x, s).len() == s.len() + 1,
    decreases s.len(),
{
    broadcast use vstd::seq_lib::group_to_multiset_ensures;

    if s.len() == 0 {
        assert(seq![x] =~= Seq::<(u32, PlayerResult)>::empty().push(x));
        assert(seq![x].to_multiset() == s.to_multiset().insert(x));
    } else if x.0 < s[0].0 {
        let r = seq![x] + s;
        assert forall|a: int, b: int| 0 <= a <= b < r.len() implies r[a].0 <= r[b].0 by {
            if a > 0 {
                assert(r[a] == s[a - 1]);
            }
            if b > 0 {
                assert(r[b] == s[b - 1]);
            }
        }
        assert(seq![x] + s =~= s.insert(0, x));
        s.to_multiset_ensures();
        assert((seq![x] + s).to_multiset() == s.to_multiset().insert(x));
    } else {
        let tail = s.drop_first();
        assert forall|a: int, b: int| 0 <= a <= b < tail.len() implies tail[a].0 <= tail[b].0 by {
            assert(tail[a] == s[a + 1]);
            assert(tail[b] == s[b + 1]);
        }
        lemma_insert_by_id_props(x, tail);
        let sub = insert_by_id(x, tail);
        let r = seq![s[0]] + sub;
        // every element of `sub` is either `x` or from `tail`; the head is
        // at most all of them
        assert forall|b: int| 0 <= b < sub.len() implies s[0].0 <= sub[b].0 by {
            lemma_insert_by_id_membership(x, tail, b);
        }
        assert forall|a: int, b: int| 0 <= a <= b < r.len() implies r[a].0 <= r[b].0 by {
            if a > 0 {
                assert(r[a] == sub[a - 1]);
            }
            if b > 0 {
                assert(r[b] == sub[b - 1]);
            }
        }
        assert(seq![s[0]] + sub =~= sub.insert(0, s[0]));
        assert(r.to_multiset() == sub.to_multiset().insert(s[0]));
        assert(s =~= tail.insert(0, s[0]));
        assert(s.to_multiset() == tail.to_multiset().insert(s[0]));
        assert(tail.to_multiset().insert(x).insert(s[0]) =~= tail.to_multiset().insert(
            s[0],
        ).insert(x));
    }
}

/// Every element of `insert_by_id(x, s)` is `x` or an element of `s`.
proof fn lemma_insert_by_id_membership(
    x: (u32, PlayerResult),
    s: Seq<(u32, PlayerResult)>,
    b: int,
)
    requires
        0 <= b < insert_by_id(x, s).len(),
    ensures
        insert_by_id(x, s)[b] == x || exists|k: int| 0 <= k < s.len() && s[k] == insert_by_id(
            x,
            s,
        )[b],
    decreases s.len(),
{
    if s.len() == 0 {
    } else if x.0 < s[0].0 {
        if b > 0 {
            assert(s[b - 1] == insert_by_id(x, s)[b]);
        }
    } else {
        if b > 0 {
            lemma_insert_by_id_membership(x, s.drop_first(), b - 1);
            let sub = insert_by_id(x, s.drop_first());
            if sub[b - 1] != x {
                let k = choose|k: int|
                    0 <= k < s.drop_first().len() && s.drop_first()[k] == sub[b - 1];
                assert(s[k + 1] == insert_by_id(x, s)[b]);
            }
        }
    }
}

/// Sorting by player id is a permutation and leaves the keys ordered.
pub proof fn lemma_sort_by_id_props(s: Seq<(u32, PlayerResult)>)
    ensures
        sorted_by_id(sort_by_id(s)),
        sort_by_id(s).to_multiset() == s.to_multiset(),
        sort_by_id(s).len() == s.len(),
    decreases s.len(),
{
    broadcast use vstd::seq_lib::group_to_multiset_ensures;

    if s.len() > 0 {
        let tail = s.drop_first();
        lemma_sort_by_id_props(tail);
        lemma_insert_by_id_props(s[0], sort_by_id(tail));
        assert(s =~= tail.insert(0, s[0]));
        assert(s.to_multiset() == tail.to_multiset().insert(s[0]));
    }
}

/// Outcome-vector ordering is deterministic: any two reports built from the
/// same observed results are identical, and their order is by player id.
pub proof fn lemma_game_over_results_deterministic(
    a: Seq<(u32, PlayerResult)>,
    b: Seq<(u32, PlayerResult)>,
)
    requires
        a == b,
    ensures
        spec_game_over_results(a) == spec_game_over_results(b),
        sorted_by_id(sort_by_id(a)),
        spec_game_over_results(a).len() == a.len(),
{
    lemma_sort_by_id_props(a);
}

/// Insert one pair into an already sorted vector, by player id.
fn insert_by_id_exec(x: (u32, PlayerResult), s: &Vec<(u32, PlayerResult)>, from: usize) -> (r:
    Vec<(u32, PlayerResult)>)
    requires
        from <= s@.len(),
    ensures
        r@ == insert_by_id(x, s@.skip(from as int)),
    decreases s@.len() - from,
{
    if from == s.len() {
        let mut r: Vec<(u32, PlayerResult)> = Vec::new();
        r.push(x);
        assert(s@.skip(from as int) =~= Seq::<(u32, PlayerResult)>::empty());
        assert(r@ =~= seq![x]);
        r
    } else {
        let h = s[from];
        proof {
            assert(s@.skip(from as int)[0] == s@[from as int]);
        }
        if x.0 < h.0 {
            let mut r: Vec<(u32, PlayerResult)> = Vec::new();
            r.push(x);
            let mut k: usize = from;
            while k < s.len()
                invariant
                    from <= k <= s@.len(),
                    r@ == seq![x] + s@.subrange(from as int, k as int),
                decreases s@.len() - k,
            {
                r.push(s[k]);
                k = k + 1;
                assert(r@ =~= seq![x] + s@.subrange(from as int, k as int));
            }
            assert(s@.subrange(from as int, s@.len() as int) =~= s@.skip(from as int));
            assert(r@ =~= seq![x] + s@.skip(from as int));
            r
        } else {
            let rest = insert_by_id_exec(x, s, from + 1);
            let mut r: Vec<(u32, PlayerResult)> = Vec::new();
            r.push(h);
            let mut k: usize = 0;
            while k < rest.len()
                invariant
                    k <= rest@.len(),
                    r@ == seq![h] + rest@.subrange(0, k as int),
                decreases rest@.len() - k,
            {
                r.push(rest[k]);
                k = k + 1;
                assert(r@ =~= seq![h] + rest@.subrange(0, k as int));
            }
            proof {
                assert(rest@.subrange(0, rest@.len() as int) =~= rest@);
                assert(s@.skip(from as int).drop_first() =~= s@.skip(from + 1));
                assert(r@ =~= seq![s@.skip(from as int)[0]] + insert_by_id(
                    x,
                    s@.skip(from as int).drop_first(),
                ));
            }
            r
        }
    }
}

/// Sort `(player id, result)` pairs by player id, stably.
fn sort_by_id_exec(s: &Vec<(u32, PlayerResult)>, from: usize) -> (r: Vec<(u32, PlayerResult)>)
    requires
        from <= s@.len(),
    ensures
        r@ == sort_by_id(s@.skip(from as int)),
    decreases s@.len() - from,
{
    if from == s.len() {
        assert(s@.skip(from as int) =~= Seq::<(u32, PlayerResult)>::empty());
        Vec::new()
    } else {
        let rest = sort_by_id_exec(s, from + 1);
        proof {
            assert(s@.skip(from as int)[0] == s@[from as int]);
            assert(s@.skip(from as int).drop_first() =~= s@.skip(from + 1));
            assert(rest@.skip(0) =~= rest@);
        }
        insert_by_id_exec(s[from], &rest, 0)
    }
}

/// The outcome vector a player reports on a game-over observation: results
/// sorted by player id, ids dropped.  Every player that observes the same
/// results reports the identical vector.
pub fn game_over_results(results: &Vec<(u32, PlayerResult)>) -> (r: Vec<PlayerResult>)
    ensures
        r@ == spec_game_over_results(results@),
{
    let sorted = sort_by_id_exec(results, 0);
    proof {
        assert(results@.skip(0) =~= results@);
    }
    let mut r: Vec<PlayerResult> = Vec::new();
    let mut k: usize = 0;
    while k < sorted.len()
        invariant
            k <= sorted@.len(),
            sorted@ == sort_by_id(results@),
            r@ =~= sorted@.subrange(0, k as int).map_values(|p: (u32, PlayerResult)| p.1),
        decreases sorted@.len() - k,
    {
        r.push(sorted[k].1);
        k = k + 1;
        assert(r@ =~= sorted@.subrange(0, k as int).map_values(|p: (u32, PlayerResult)| p.1));
    }
    assert(sorted@.subrange(0, sorted@.len() as int) =~= sorted@);
    r
}

// ---------------------------------------------------------------------------
// Per-frame decisions
// ---------------------------------------------------------------------------

impl Player {
    /// A fresh player for one client, before its engine has reported any
    /// status.
    pub fn new(client: String, data: PlayerData) -> (r: Player)
        ensures
            r.client == client,
            r.sc2_status is None,
            r.data == data,
    {
        Player { client, sc2_status: None, data }
    }

    /// Decide what to do with a client request: deny it with an error frame
    /// when policy refuses it, otherwise forward it to the engine.
    pub fn filter_request(&self, limits: &RequestLimits, req: &Req) -> (r: RequestVerdict)
        ensures
            spec_request_allowed(limits.disable_cheats, *req) ==> r is Forward,
            !spec_request_allowed(limits.disable_cheats, *req) ==> (r matches RequestVerdict::Deny(
                resp,
            ) && resp.content matches RespContent::Error(m) && m@.len() == 1 && m@[0]@
                == "Proxy: Request denied"@),
    {
        if limits.is_request_allowed(req) {
            RequestVerdict::Forward
        } else {
            RequestVerdict::Deny(Resp::denied())
        }
    }

    /// Record the status an engine response reports and classify the
    /// response: a quit acknowledgment ends the player, a leave-game
    /// acknowledgment recycles it, an observation with results reports the
    /// outcomes sorted by player id, anything else continues the loop.
    pub fn classify_response(&mut self, resp: &Resp) -> (r: ResponseVerdict)
        ensures
            final(self).sc2_status == Some(resp.status),
            final(self).data == old(self).data,
            resp.content is Quit ==> r is EngineQuit,
            resp.content is LeaveGame ==> r is ClientLeft,
            resp.content matches RespContent::Observation { player_results } ==> ((
            player_results@.len() > 0 ==> (r matches ResponseVerdict::GameOver(v) && v@
                == spec_game_over_results(player_results@))) && (player_results@.len() == 0
                ==> r is Continue)),
            !(resp.content is Quit || resp.content is LeaveGame
                || resp.content is Observation) ==> r is Continue,
    {
        self.sc2_status = Some(resp.status);
        match &resp.content {
            RespContent::Quit => ResponseVerdict::EngineQuit,
            RespContent::LeaveGame => ResponseVerdict::ClientLeft,
            RespContent::Observation { player_results } => {
                if player_results.len() > 0 {
                    ResponseVerdict::GameOver(game_over_results(player_results))
                } else {
                    ResponseVerdict::Continue
                }
            },
            _ => ResponseVerdict::Continue,
        }
    }

    /// Whether the client socket may be recycled to the playlist: only
    /// before the game has begun, while the engine still reports
    /// `Launched`.
    pub fn can_extract(&self) -> (r: bool)
        ensures
            r == (self.sc2_status == Some(Status::Launched)),
    {
        match self.sc2_status {
            Some(Status::Launched) => true,
            _ => false,
        }
    }
}

} // verus!
