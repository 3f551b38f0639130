//! The supervisor: the single-threaded control state that owns the
//! playlist of idle clients, the lobbies of unstarted games, and the set
//! of running games, each under a monotonically allocated game id.
//!
//! Every client the system knows is owned by exactly one of the three
//! collections (`wf`).  The control loop, the sockets, and the game
//! threads live outside the library; they hand every received event to
//! the decision functions here and perform the effects those return.

use vstd::prelude::*;

use crate::config::Config;
use crate::lobby::GameLobby;
use crate::player::Player;
use crate::protocol::{JoinRequest, Req, Resp};

verus! {

/// Unique identifier for lobbies and running games.  A game keeps the id
/// of its lobby from creation until all clients leave the game.
#[derive(Debug, Clone, Copy, PartialEq, Eq, Structural, PartialOrd, Ord, Hash)]
pub struct GameId(pub u64);

impl GameId {
    /// The next identifier after this one.
    pub fn next(self) -> (r: GameId)
        requires
            self.0 < u64::MAX,
        ensures
            r.0 == self.0 + 1,
    {
        GameId(self.0 + 1)
    }
}

/// A connected client waiting in the playlist: its identifier (peer
/// address as text) and, in remote-controlled matchmaking, the join
/// request it already sent.
#[derive(Debug, PartialEq)]
pub struct PlaylistEntry {
    pub client: String,
    pub pending_join: Option<JoinRequest>,
}

/// What the playlist update decides for one client message.
#[derive(Debug, PartialEq)]
pub enum PlaylistAction {
    /// Answer with this response and keep the client.
    Respond(Resp),
    /// Answer with this response, then drop the client.
    RespondQuit(Resp),
    /// Run matchmaking on this join request.
    JoinGame(JoinRequest),
    /// Drop the client.
    Kick,
}

impl PlaylistAction {
    /// An action that answers with `r` and keeps the client.
    pub fn respond(r: Resp) -> (a: PlaylistAction)
        ensures
            a == PlaylistAction::Respond(r),
    {
        PlaylistAction::Respond(r)
    }

    /// An action that answers with `r`, then drops the client.
    pub fn respond_quit(r: Resp) -> (a: PlaylistAction)
        ensures
            a == PlaylistAction::RespondQuit(r),
    {
        PlaylistAction::RespondQuit(r)
    }
}

/// Return type of `Supervisor::update_remote`.
#[derive(Debug, Clone, Copy, PartialEq, Eq, Structural)]
pub enum RemoteUpdateStatus {
    /// Server quit requested.
    Quit,
    /// A request was processed.
    Processed,
    /// No action was taken.
    NoAction,
}

// ---------------------------------------------------------------------------
// Ownership predicates over the three collections
// ---------------------------------------------------------------------------

/// Whether a lobby index and participant index are in range.
pub open spec fn lobby_slot_ok(l: Seq<(GameId, GameLobby)>, k: int, m: int) -> bool {
    0 <= k < l.len() && 0 <= m < l[k].1.players@.len()
}

/// The client identifier in one lobby slot.
pub open spec fn lobby_cl(l: Seq<(GameId, GameLobby)>, k: int, m: int) -> Seq<char> {
    l[k].1.players@[m].client@
}

/// Whether a game index and client index are in range.
pub open spec fn game_slot_ok(g: Seq<(GameId, Vec<String>)>, k: int, m: int) -> bool {
    0 <= k < g.len() && 0 <= m < g[k].1@.len()
}

/// The client identifier in one game slot.
pub open spec fn game_cl(g: Seq<(GameId, Vec<String>)>, k: int, m: int) -> Seq<char> {
    g[k].1@[m]@
}

/// The client is in the playlist.
pub open spec fn in_playlist(p: Seq<PlaylistEntry>, id: Seq<char>) -> bool {
    exists|a: int| 0 <= a < p.len() && (#[trigger] p[a].client@) == id
}

/// The client is a participant of some lobby.
pub open spec fn in_lobbies(l: Seq<(GameId, GameLobby)>, id: Seq<char>) -> bool {
    exists|k: int, m: int| lobby_slot_ok(l, k, m) && (#[trigger] lobby_cl(l, k, m)) == id
}

/// The client is in some running game.
pub open spec fn in_games(g: Seq<(GameId, Vec<String>)>, id: Seq<char>) -> bool {
    exists|k: int, m: int| game_slot_ok(g, k, m) && (#[trigger] game_cl(g, k, m)) == id
}

/// No client identifier occurs twice in the playlist.
pub open spec fn playlist_unique(p: Seq<PlaylistEntry>) -> bool {
    forall|a: int, b: int|
        #![trigger p[a].client@, p[b].client@]
        0 <= a < b < p.len() ==> p[a].client@ != p[b].client@
}

/// No client identifier occurs twice across all lobbies.
pub open spec fn lobbies_unique(l: Seq<(GameId, GameLobby)>) -> bool {
    forall|k: int, m: int, k2: int, m2: int|
        #![trigger lobby_cl(l, k, m), lobby_cl(l, k2, m2)]
        lobby_slot_ok(l, k, m) && lobby_slot_ok(l, k2, m2) && (k != k2 || m != m2) ==> lobby_cl(
            l,
            k,
            m,
        ) != lobby_cl(l, k2, m2)
}

/// No client identifier occurs twice across all games.
pub open spec fn games_unique(g: Seq<(GameId, Vec<String>)>) -> bool {
    forall|k: int, m: int, k2: int, m2: int|
        #![trigger game_cl(g, k, m), game_cl(g, k2, m2)]
        game_slot_ok(g, k, m) && game_slot_ok(g, k2, m2) && (k != k2 || m != m2) ==> game_cl(
            g,
            k,
            m,
        ) != game_cl(g, k2, m2)
}

/// No client identifier is both in the playlist and in a lobby.
pub open spec fn playlist_lobbies_disjoint(
    p: Seq<PlaylistEntry>,
    l: Seq<(GameId, GameLobby)>,
) -> bool {
    forall|a: int, k: int, m: int|
        #![trigger p[a].client@, lobby_cl(l, k, m)]
        0 <= a < p.len() && lobby_slot_ok(l, k, m) ==> p[a].client@ != lobby_cl(l, k, m)
}

/// No client identifier is both in the playlist and in a game.
pub open spec fn playlist_games_disjoint(
    p: Seq<PlaylistEntry>,
    g: Seq<(GameId, Vec<String>)>,
) -> bool {
    forall|a: int, k: int, m: int|
        #![trigger p[a].client@, game_cl(g, k, m)]
        0 <= a < p.len() && game_slot_ok(g, k, m) ==> p[a].client@ != game_cl(g, k, m)
}

/// No client identifier is both in a lobby and in a game.
pub open spec fn lobbies_games_disjoint(
    l: Seq<(GameId, GameLobby)>,
    g: Seq<(GameId, Vec<String>)>,
) -> bool {
    forall|k: int, m: int, k2: int, m2: int|
        #![trigger lobby_cl(l, k, m), game_cl(g, k2, m2)]
        lobby_slot_ok(l, k, m) && game_slot_ok(g, k2, m2) ==> lobby_cl(l, k, m) != game_cl(
            g,
            k2,
            m2,
        )
}

// ---------------------------------------------------------------------------
// The supervisor
// ---------------------------------------------------------------------------

/// The supervisor: a pool of running games, lobbies waiting for players,
/// and clients waiting for a game.
#[derive(Debug)]
pub struct Supervisor {
    /// Configuration.
    pub config: Config,
    /// Running games: each id with the identifiers of its clients.
    pub games: Vec<(GameId, Vec<String>)>,
    /// Games waiting for more players.
    pub lobbies: Vec<(GameId, GameLobby)>,
    /// Connections waiting for a game.
    pub playlist: Vec<PlaylistEntry>,
    /// Counter allocating the next id.
    pub id_counter: GameId,
}

impl Supervisor {
    /// The client is somewhere in the system.
    pub open spec fn owns_client(self, id: Seq<char>) -> bool {
        in_playlist(self.playlist@, id) || in_lobbies(self.lobbies@, id) || in_games(
            self.games@,
            id,
        )
    }

    /// Every client is held in at most one place: the playlist, the
    /// lobbies and the games hold pairwise distinct client identifiers,
    /// and each of the three holds no identifier twice.
    pub open spec fn clients_wf(self) -> bool {
        &&& playlist_unique(self.playlist@)
        &&& lobbies_unique(self.lobbies@)
        &&& games_unique(self.games@)
        &&& playlist_lobbies_disjoint(self.playlist@, self.lobbies@)
        &&& playlist_games_disjoint(self.playlist@, self.games@)
        &&& lobbies_games_disjoint(self.lobbies@, self.games@)
    }

    /// Ids are allocated below the counter, and no two live lobbies or
    /// games share an id.
    pub open spec fn ids_wf(self) -> bool {
        &&& forall|k: int|
            0 <= k < self.lobbies@.len() ==> (#[trigger] self.lobbies@[k].0).0
                < self.id_counter.0
        &&& forall|k: int|
            0 <= k < self.games@.len() ==> (#[trigger] self.games@[k].0).0 < self.id_counter.0
        &&& forall|k: int, k2: int|
            #![trigger self.lobbies@[k].0, self.lobbies@[k2].0]
            0 <= k < k2 < self.lobbies@.len() ==> self.lobbies@[k].0 != self.lobbies@[k2].0
        &&& forall|k: int, k2: int|
            #![trigger self.games@[k].0, self.games@[k2].0]
            0 <= k < k2 < self.games@.len() ==> self.games@[k].0 != self.games@[k2].0
        &&& forall|k: int, k2: int|
            #![trigger self.lobbies@[k].0, self.games@[k2].0]
            0 <= k < self.lobbies@.len() && 0 <= k2 < self.games@.len() ==> self.lobbies@[k].0
                != self.games@[k2].0
    }

    /// The supervisor's invariant.
    pub open spec fn wf(self) -> bool {
        self.clients_wf() && self.ids_wf()
    }

    /// A lobby with this id exists.
    pub open spec fn has_lobby(self, id: GameId) -> bool {
        exists|k: int| 0 <= k < self.lobbies@.len() && (#[trigger] self.lobbies@[k].0) == id
    }

    /// A game with this id exists.
    pub open spec fn has_game(self, id: GameId) -> bool {
        exists|k: int| 0 <= k < self.games@.len() && (#[trigger] self.games@[k].0) == id
    }

    // -- construction -------------------------------------------------------

    /// A new empty supervisor for a configuration.
    pub fn new(config: Config) -> (r: Supervisor)
        ensures
            r.config == config,
            r.games@.len() == 0,
            r.lobbies@.len() == 0,
            r.playlist@.len() == 0,
            r.id_counter == (GameId(0)),
            r.wf(),
    {
        Supervisor {
            config,
            games: Vec::new(),
            lobbies: Vec::new(),
            playlist: Vec::new(),
            id_counter: GameId(0),
        }
    }

    // -- lobby and game bookkeeping ----------------------------------------

    /// Create a new empty lobby under a fresh id.  The configuration must
    /// have been checked (`Config::check`) before this is called.
    pub fn create_lobby(&mut self, map_found: bool) -> (r: GameId)
        requires
            old(self).wf(),
            old(self).config.check_ok(map_found),
            old(self).id_counter.0 < u64::MAX,
        ensures
            final(self).wf(),
            r == old(self).id_counter,
            final(self).id_counter.0 == r.0 + 1,
            !old(self).has_lobby(r),
            !old(self).has_game(r),
            final(self).lobbies@.len() == old(self).lobbies@.len() + 1,
            forall|k: int|
                0 <= k < old(self).lobbies@.len() ==> final(self).lobbies@[k] == old(self).lobbies@[k],
            final(self).lobbies@.last().0 == r,
            final(self).lobbies@.last().1.config == old(self).config,
            final(self).lobbies@.last().1.players@.len() == 0,
            final(self).lobbies@.last().1.computer_players@.len() == 0,
            final(self).games == old(self).games,
            final(self).playlist == old(self).playlist,
            final(self).config == old(self).config,
    {
        let id = self.id_counter;
        let lobby = GameLobby::new(self.config.clone());
        let ghost prior = self.lobbies@;
        self.lobbies.push((id, lobby));
        self.id_counter = id.next();
        proof {
            lemma_lobbies_grow_empty(prior, self.lobbies@, id);
            assert(!old(self).has_lobby(id)) by {
                assert forall|k: int| 0 <= k < prior.len() implies (#[trigger] prior[k].0) != id
                by {
                    assert(prior[k].0.0 < id.0);
                }
            }
            assert(!old(self).has_game(id)) by {
                assert forall|k: int| 0 <= k < self.games@.len() implies (
                #[trigger] self.games@[k].0) != id by {
                    assert(self.games@[k].0.0 < id.0);
                }
            }
        }
        id
    }

    /// Remove and return the lobby with this id, if any.  The handshake
    /// that follows happens outside; afterwards the game is registered
    /// under the same id, or the lobby is closed and the id never serves
    /// again.
    pub fn take_lobby(&mut self, id: GameId) -> (r: Option<GameLobby>)
        requires
            old(self).wf(),
        ensures
            final(self).wf(),
            r is Some <==> old(self).has_lobby(id),
            !final(self).has_lobby(id),
            r matches Some(l) ==> exists|k: int|
                0 <= k < old(self).lobbies@.len() && old(self).lobbies@[k] == ((id, l))
                    && final(self).lobbies@ == old(self).lobbies@.remove(k),
            r is None ==> final(self).lobbies == old(self).lobbies,
            final(self).games == old(self).games,
            final(self).playlist == old(self).playlist,
            final(self).config == old(self).config,
            final(self).id_counter == old(self).id_counter,
    {
        let n = self.lobbies.len();
        let mut k: usize = 0;
        while k < n
            invariant
                k <= n,
                *self == *old(self),
                old(self).wf(),
                n == self.lobbies@.len(),
                forall|m: int| 0 <= m < k ==> (#[trigger] self.lobbies@[m].0) != id,
            decreases n - k,
        {
            if self.lobbies[k].0.0 == id.0 {
                let ghost prior = self.lobbies@;
                let (found, lobby) = self.lobbies.remove(k);
                proof {
                    assert(found == id);
                    lemma_lobbies_shrink(prior, self.lobbies@, k as int);
                    assert forall|k2: int| 0 <= k2 < self.lobbies@.len() implies (
                    #[trigger] self.lobbies@[k2].0) != id by {
                        if k2 < k as int {
                            assert(self.lobbies@[k2] == prior[k2]);
                        } else {
                            assert(self.lobbies@[k2] == prior[k2 + 1]);
                            assert(prior[k2 + 1].0 != prior[k as int].0);
                        }
                    }
                }
                return Some(lobby);
            }
            k = k + 1;
        }
        proof {
            assert(!old(self).has_lobby(id));
        }
        None
    }

    /// Record a running game under its lobby's id, owning these clients.
    /// The id came from `take_lobby`, so it is below the counter and
    /// neither a live lobby nor a live game carries it; the clients came
    /// from the taken lobby, so nothing else owns them.
    pub fn register_game(&mut self, id: GameId, clients: Vec<String>)
        requires
            old(self).wf(),
            !old(self).has_lobby(id),
            !old(self).has_game(id),
            id.0 < old(self).id_counter.0,
            forall|a: int, b: int|
                #![trigger clients@[a], clients@[b]]
                0 <= a < b < clients@.len() ==> clients@[a]@ != clients@[b]@,
            forall|a: int|
                0 <= a < clients@.len() ==> !old(self).owns_client(#[trigger] clients@[a]@),
        ensures
            final(self).wf(),
            final(self).games@ == old(self).games@.push((id, clients)),
            final(self).has_game(id),
            final(self).lobbies == old(self).lobbies,
            final(self).playlist == old(self).playlist,
            final(self).config == old(self).config,
            final(self).id_counter == old(self).id_counter,
    {
        let ghost prior = self.games@;
        self.games.push((id, clients));
        proof {
            let now = self.games@;
            assert(now[prior.len() as int] == ((id, clients)));
            assert forall|k: int, m: int|
                game_slot_ok(now, k, m) && k < prior.len() implies game_slot_ok(prior, k, m)
                && game_cl(now, k, m) == game_cl(prior, k, m) by {
                assert(now[k] == prior[k]);
            }
            assert forall|m: int| 0 <= m < clients@.len() implies game_cl(
                now,
                prior.len() as int,
                m,
            ) == clients@[m]@ by {}
            assert(games_unique(now)) by {
                assert forall|k: int, m: int, k2: int, m2: int|
                    #![trigger game_cl(now, k, m), game_cl(now, k2, m2)]
                    game_slot_ok(now, k, m) && game_slot_ok(now, k2, m2) && (k != k2 || m != m2)
                    implies game_cl(now, k, m) != game_cl(now, k2, m2) by {
                    if k < prior.len() && k2 < prior.len() {
                        assert(game_cl(prior, k, m) != game_cl(prior, k2, m2));
                    } else if k < prior.len() && k2 == prior.len() {
                        assert(!in_games(prior, clients@[m2]@));
                        assert(game_cl(prior, k, m) != clients@[m2]@);
                    } else if k == prior.len() && k2 < prior.len() {
                        assert(!in_games(prior, clients@[m]@));
                        assert(game_cl(prior, k2, m2) != clients@[m]@);
                    } else {
                        assert(clients@[m]@ != clients@[m2]@);
                    }
                }
            }
            assert(playlist_games_disjoint(self.playlist@, now)) by {
                assert forall|a: int, k: int, m: int|
                    #![trigger self.playlist@[a].client@, game_cl(now, k, m)]
                    0 <= a < self.playlist@.len() && game_slot_ok(now, k, m) implies self
                    .playlist@[a].client@ != game_cl(now, k, m) by {
                    if k == prior.len() {
                        assert(!in_playlist(self.playlist@, clients@[m]@));
                    } else {
                        assert(self.playlist@[a].client@ != game_cl(prior, k, m));
                    }
                }
            }
            assert(lobbies_games_disjoint(self.lobbies@, now)) by {
                assert forall|k: int, m: int, k2: int, m2: int|
                    #![trigger lobby_cl(self.lobbies@, k, m), game_cl(now, k2, m2)]
                    lobby_slot_ok(self.lobbies@, k, m) && game_slot_ok(now, k2, m2) implies
                    lobby_cl(self.lobbies@, k, m) != game_cl(now, k2, m2) by {
                    if k2 == prior.len() {
                        assert(!in_lobbies(self.lobbies@, clients@[m2]@));
                    } else {
                        assert(lobby_cl(self.lobbies@, k, m) != game_cl(prior, k2, m2));
                    }
                }
            }
            assert(self.ids_wf()) by {
                assert forall|k: int, k2: int|
                    #![trigger now[k].0, now[k2].0]
                    0 <= k < k2 < now.len() implies now[k].0 != now[k2].0 by {
                    if k2 == prior.len() {
                        assert(now[k] == prior[k]);
                        assert(prior[k].0 != id) by {
                            assert(!old(self).has_game(id));
                        }
                    } else {
                        assert(now[k] == prior[k]);
                        assert(now[k2] == prior[k2]);
                    }
                }
                assert forall|k: int, k2: int|
                    #![trigger self.lobbies@[k].0, now[k2].0]
                    0 <= k < self.lobbies@.len() && 0 <= k2 < now.len() implies self.lobbies@[k].0
                    != now[k2].0 by {
                    if k2 == prior.len() {
                        assert(self.lobbies@[k].0 != id) by {
                            assert(!old(self).has_lobby(id));
                        }
                    } else {
                        assert(now[k2] == prior[k2]);
                    }
                }
                assert forall|k: int| 0 <= k < now.len() implies (#[trigger] now[k].0).0
                    < self.id_counter.0 by {
                    if k < prior.len() {
                        assert(now[k] == prior[k]);
                    }
                }
            }
            assert(self.has_game(id)) by {
                assert(now[prior.len() as int].0 == id);
            }
        }
    }
}

/// The lobby views after matchmaking started a fresh lobby: the old
/// lobbies unchanged, plus one new lobby holding exactly the joined
/// player and the configured computer players.
proof fn lemma_started_lobby_view(
    prior: Seq<(GameId, GameLobby)>,
    now: Seq<(GameId, GameLobby)>,
    lk: int,
    id: GameId,
    cfg: crate::config::Config,
    p: Player,
    comps: Seq<(crate::sc2::Race, crate::sc2::Difficulty)>,
)
    requires
        now.len() == prior.len() + 1,
        lk == prior.len(),
        forall|k: int| 0 <= k < prior.len() ==> now[k] == prior[k],
        now[lk].0 == id,
        now[lk].1.config == cfg,
        now[lk].1.players@ == seq![p],
        now[lk].1.computer_players@ == comps,
    ensures
        forall|k: int|
            0 <= k < prior.len() ==> (#[trigger] lobby_view(now[k].1)) == lobby_view(prior[k].1)
                && now[k].0 == prior[k].0,
        lobby_view(now[lk].1) == (LobbyView { config: cfg, players: seq![p], computer_players: comps }),
{
    assert forall|k: int|
        0 <= k < prior.len() implies (#[trigger] lobby_view(now[k].1)) == lobby_view(prior[k].1)
        && now[k].0 == prior[k].0 by {
        assert(now[k] == prior[k]);
    }
}

/// A client owned by nobody is still owned by nobody after a fresh empty
/// lobby is appended.
proof fn lemma_join_after_fresh_lobby(
    prior: Seq<(GameId, GameLobby)>,
    s: Supervisor,
    id: Seq<char>,
)
    requires
        s.lobbies@.len() == prior.len() + 1,
        forall|k: int| 0 <= k < prior.len() ==> s.lobbies@[k] == prior[k],
        s.lobbies@.last().1.players@.len() == 0,
        !in_playlist(s.playlist@, id),
        !in_games(s.games@, id),
        !in_lobbies(prior, id),
    ensures
        !s.owns_client(id),
{
    if in_lobbies(s.lobbies@, id) {
        let (k, m) = choose|k: int, m: int|
            lobby_slot_ok(s.lobbies@, k, m) && (#[trigger] lobby_cl(s.lobbies@, k, m)) == id;
        if k == prior.len() {
            assert(s.lobbies@[k].1.players@.len() == 0);
        } else {
            assert(s.lobbies@[k] == prior[k]);
            assert(lobby_slot_ok(prior, k, m) && lobby_cl(prior, k, m) == id);
        }
    }
}

/// Removing a playlist entry only removes a client and keeps every other
/// entry.
proof fn lemma_playlist_shrink(prior: Seq<PlaylistEntry>, now: Seq<PlaylistEntry>, at: int)
    requires
        0 <= at < prior.len(),
        now == prior.remove(at),
    ensures
        forall|a: int|
            0 <= a < now.len() ==> (#[trigger] now[a]) == prior[
                if a < at {
                    a
                } else {
                    a + 1
                }
            ],
        forall|id: Seq<char>| in_playlist(now, id) ==> in_playlist(prior, id),
{
    assert forall|a: int| 0 <= a < now.len() implies (#[trigger] now[a]) == prior[
        if a < at {
            a
        } else {
            a + 1
        }
    ] by {
        if a < at {
            assert(now[a] == prior[a]);
        } else {
            assert(now[a] == prior[a + 1]);
        }
    }
    assert forall|id: Seq<char>| in_playlist(now, id) implies in_playlist(prior, id) by {
        let a = choose|a: int| 0 <= a < now.len() && (#[trigger] now[a].client@) == id;
        if a < at {
            assert(prior[a].client@ == id);
        } else {
            assert(prior[a + 1].client@ == id);
        }
    }
}

/// One lobby gains one participant; every other slot is unchanged.
proof fn lemma_lobby_gain(
    prior: Seq<(GameId, GameLobby)>,
    now: Seq<(GameId, GameLobby)>,
    at: int,
    p: Player,
)
    requires
        0 <= at < prior.len(),
        now.len() == prior.len(),
        forall|k: int| 0 <= k < prior.len() && k != at ==> now[k] == prior[k],
        now[at].1.players@ == prior[at].1.players@.push(p),
    ensures
        forall|k: int, m: int|
            lobby_slot_ok(now, k, m) && !(k == at && m == prior[at].1.players@.len()) ==> (
            #[trigger] lobby_cl(now, k, m)) == lobby_cl(prior, k, m) && lobby_slot_ok(
                prior,
                k,
                m,
            ),
        lobby_cl(now, at, prior[at].1.players@.len() as int) == p.client@,
        lobby_slot_ok(now, at, prior[at].1.players@.len() as int),
{
    assert forall|k: int, m: int|
        lobby_slot_ok(now, k, m) && !(k == at && m == prior[at].1.players@.len()) implies (
    #[trigger] lobby_cl(now, k, m)) == lobby_cl(prior, k, m) && lobby_slot_ok(prior, k, m) by {
        if k != at {
            assert(now[k] == prior[k]);
        } else {
            assert(now[at].1.players@[m] == prior[at].1.players@[m]);
        }
    }
}

/// Appending an empty lobby adds no client and keeps every old slot.
proof fn lemma_lobbies_grow_empty(
    prior: Seq<(GameId, GameLobby)>,
    now: Seq<(GameId, GameLobby)>,
    id: GameId,
)
    requires
        now.len() == prior.len() + 1,
        forall|k: int| 0 <= k < prior.len() ==> now[k] == prior[k],
        now.last().1.players@.len() == 0,
    ensures
        forall|k: int, m: int|
            lobby_slot_ok(now, k, m) ==> lobby_slot_ok(prior, k, m) && #[trigger] lobby_cl(
                now,
                k,
                m,
            ) == lobby_cl(prior, k, m),
{
    assert forall|k: int, m: int| lobby_slot_ok(now, k, m) implies lobby_slot_ok(prior, k, m)
        && #[trigger] lobby_cl(now, k, m) == lobby_cl(prior, k, m) by {
        if k == prior.len() {
            assert(now[k].1.players@.len() == 0);
        } else {
            assert(now[k] == prior[k]);
        }
    }
}

/// Removing a lobby only removes clients and keeps every other slot.
proof fn lemma_lobbies_shrink(
    prior: Seq<(GameId, GameLobby)>,
    now: Seq<(GameId, GameLobby)>,
    at: int,
)
    requires
        0 <= at < prior.len(),
        now == prior.remove(at),
    ensures
        forall|k: int, m: int|
            lobby_slot_ok(now, k, m) ==> #[trigger] lobby_cl(now, k, m) == lobby_cl(
                prior,
                if k < at {
                    k
                } else {
                    k + 1
                },
                m,
            ) && lobby_slot_ok(
                prior,
                if k < at {
                    k
                } else {
                    k + 1
                },
                m,
            ),
        forall|id: Seq<char>| in_lobbies(now, id) ==> in_lobbies(prior, id),
{
    assert forall|k: int, m: int| lobby_slot_ok(now, k, m) implies #[trigger] lobby_cl(now, k, m)
        == lobby_cl(
        prior,
        if k < at {
            k
        } else {
            k + 1
        },
        m,
    ) && lobby_slot_ok(
        prior,
        if k < at {
            k
        } else {
            k + 1
        },
        m,
    ) by {
        if k < at {
            assert(now[k] == prior[k]);
        } else {
            assert(now[k] == prior[k + 1]);
        }
    }
    assert forall|id: Seq<char>| in_lobbies(now, id) implies in_lobbies(prior, id) by {
        let (k, m) = choose|k: int, m: int|
            lobby_slot_ok(now, k, m) && (#[trigger] lobby_cl(now, k, m)) == id;
        if k < at {
            assert(lobby_cl(prior, k, m) == id && lobby_slot_ok(prior, k, m));
        } else {
            assert(lobby_cl(prior, k + 1, m) == id && lobby_slot_ok(prior, k + 1, m));
        }
    }
}

} // verus!

verus! {

/// A message received from a playlist client, after frame decoding.
#[derive(Debug, PartialEq)]
pub enum PlaylistMessage {
    /// A binary frame that parsed as a request.
    Frame(Req),
    /// A binary frame that did not parse.
    Unparsable,
    /// A non-binary frame.
    NotBinary,
}

impl Supervisor {
    // -- playlist bookkeeping ----------------------------------------------

    /// Add a new client to the playlist.  Its socket, switched to
    /// non-blocking mode, stays with the caller; a client identifier must
    /// be fresh (peer addresses of live connections are distinct).
    pub fn add_client(&mut self, client: String)
        requires
            old(self).wf(),
            !old(self).owns_client(client@),
        ensures
            final(self).wf(),
            final(self).playlist@ == old(self).playlist@.push(
                PlaylistEntry { client, pending_join: None },
            ),
            final(self).games == old(self).games,
            final(self).lobbies == old(self).lobbies,
            final(self).config == old(self).config,
            final(self).id_counter == old(self).id_counter,
    {
        let ghost prior = self.playlist@;
        let ghost id = client@;
        self.playlist.push(PlaylistEntry { client, pending_join: None });
        proof {
            let now = self.playlist@;
            assert(now[prior.len() as int].client@ == id);
            assert forall|a: int| 0 <= a < prior.len() implies (#[trigger] now[a]) == prior[a]
            by {}
            assert(playlist_unique(now)) by {
                assert forall|a: int, b: int|
                    #![trigger now[a].client@, now[b].client@]
                    0 <= a < b < now.len() implies now[a].client@ != now[b].client@ by {
                    if b == prior.len() {
                        assert(!in_playlist(prior, id));
                        assert(prior[a].client@ != id);
                    } else {
                        assert(prior[a].client@ != prior[b].client@);
                    }
                }
            }
            assert(playlist_lobbies_disjoint(now, self.lobbies@)) by {
                assert forall|a: int, k: int, m: int|
                    #![trigger now[a].client@, lobby_cl(self.lobbies@, k, m)]
                    0 <= a < now.len() && lobby_slot_ok(self.lobbies@, k, m) implies now[a].client@
                    != lobby_cl(self.lobbies@, k, m) by {
                    if a == prior.len() {
                        assert(!in_lobbies(self.lobbies@, id));
                    } else {
                        assert(prior[a].client@ != lobby_cl(self.lobbies@, k, m));
                    }
                }
            }
            assert(playlist_games_disjoint(now, self.games@)) by {
                assert forall|a: int, k: int, m: int|
                    #![trigger now[a].client@, game_cl(self.games@, k, m)]
                    0 <= a < now.len() && game_slot_ok(self.games@, k, m) implies now[a].client@
                    != game_cl(self.games@, k, m) by {
                    if a == prior.len() {
                        assert(!in_games(self.games@, id));
                    } else {
                        assert(prior[a].client@ != game_cl(self.games@, k, m));
                    }
                }
            }
        }
    }

    /// Remove a client from the playlist, handing back its identifier so
    /// the caller can close the connection.
    pub fn drop_client(&mut self, index: usize) -> (r: PlaylistEntry)
        requires
            old(self).wf(),
            index < old(self).playlist@.len(),
        ensures
            final(self).wf(),
            r == old(self).playlist@[index as int],
            final(self).playlist@ == old(self).playlist@.remove(index as int),
            !final(self).owns_client(old(self).playlist@[index as int].client@),
            final(self).games == old(self).games,
            final(self).lobbies == old(self).lobbies,
            final(self).config == old(self).config,
            final(self).id_counter == old(self).id_counter,
    {
        let ghost prior = self.playlist@;
        let entry = self.playlist.remove(index);
        proof {
            lemma_playlist_shrink(prior, self.playlist@, index as int);
            let now = self.playlist@;
            assert(playlist_unique(now)) by {
                assert forall|a: int, b: int|
                    #![trigger now[a].client@, now[b].client@]
                    0 <= a < b < now.len() implies now[a].client@ != now[b].client@ by {
                    let a2 = if a < index { a } else { a + 1 };
                    let b2 = if b < index { b } else { b + 1 };
                    assert(now[a] == prior[a2] && now[b] == prior[b2]);
                    assert(prior[a2].client@ != prior[b2].client@);
                }
            }
            assert(playlist_lobbies_disjoint(now, self.lobbies@)) by {
                assert forall|a: int, k: int, m: int|
                    #![trigger now[a].client@, lobby_cl(self.lobbies@, k, m)]
                    0 <= a < now.len() && lobby_slot_ok(self.lobbies@, k, m) implies now[a].client@
                    != lobby_cl(self.lobbies@, k, m) by {
                    let a2 = if a < index { a } else { a + 1 };
                    assert(now[a] == prior[a2]);
                    assert(prior[a2].client@ != lobby_cl(self.lobbies@, k, m));
                }
            }
            assert(playlist_games_disjoint(now, self.games@)) by {
                assert forall|a: int, k: int, m: int|
                    #![trigger now[a].client@, game_cl(self.games@, k, m)]
                    0 <= a < now.len() && game_slot_ok(self.games@, k, m) implies now[a].client@
                    != game_cl(self.games@, k, m) by {
                    let a2 = if a < index { a } else { a + 1 };
                    assert(now[a] == prior[a2]);
                    assert(prior[a2].client@ != game_cl(self.games@, k, m));
                }
            }
            let id = prior[index as int].client@;
            assert(!self.owns_client(id)) by {
                assert(!in_playlist(now, id)) by {
                    if in_playlist(now, id) {
                        let a = choose|a: int|
                            0 <= a < now.len() && (#[trigger] now[a].client@) == id;
                        let a2 = if a < index { a } else { a + 1 };
                        assert(now[a] == prior[a2]);
                        assert(prior[a2].client@ == prior[index as int].client@);
                        assert(a2 != index);
                    }
                }
                assert(!in_lobbies(self.lobbies@, id)) by {
                    if in_lobbies(self.lobbies@, id) {
                        let (k, m) = choose|k: int, m: int|
                            lobby_slot_ok(self.lobbies@, k, m) && (#[trigger] lobby_cl(
                                self.lobbies@,
                                k,
                                m,
                            )) == id;
                        assert(prior[index as int].client@ != lobby_cl(self.lobbies@, k, m));
                    }
                }
                assert(!in_games(self.games@, id)) by {
                    if in_games(self.games@, id) {
                        let (k, m) = choose|k: int, m: int|
                            game_slot_ok(self.games@, k, m) && (#[trigger] game_cl(
                                self.games@,
                                k,
                                m,
                            )) == id;
                        assert(prior[index as int].client@ != game_cl(self.games@, k, m));
                    }
                }
            }
        }
        entry
    }

    /// The playlist index of a client, by identifier, if any: the first
    /// entry whose identifier matches.
    pub fn client_index_by_id(&self, client_id: String) -> (r: Option<usize>)
        ensures
            r matches Some(k) ==> k < self.playlist@.len() && self.playlist@[k as int].client@
                == client_id@ && forall|m: int|
                0 <= m < k ==> (#[trigger] self.playlist@[m].client@) != client_id@,
            r is None ==> !in_playlist(self.playlist@, client_id@),
    {
        let n = self.playlist.len();
        let mut k: usize = 0;
        while k < n
            invariant
                k <= n,
                n == self.playlist@.len(),
                forall|m: int| 0 <= m < k ==> (#[trigger] self.playlist@[m].client@) != client_id@,
            decreases n - k,
        {
            if self.playlist[k].client == client_id {
                return Some(k);
            }
            k = k + 1;
        }
        None
    }

    /// Decide what to do with one message from a playlist client: answer
    /// a quit with a quit acknowledgment and drop the client, answer a
    /// ping with a pong, hand a join request to matchmaking, and kick the
    /// client on anything else.
    pub fn process_playlist_message(&mut self, msg: PlaylistMessage) -> (r: PlaylistAction)
        ensures
            *final(self) == *old(self),
            r == spec_playlist_action(msg),
    {
        match msg {
            PlaylistMessage::Frame(req) => match req {
                Req::Quit => PlaylistAction::respond_quit(Resp::quit_ack()),
                Req::Ping => PlaylistAction::respond(Resp::pong()),
                Req::JoinGame(j) => PlaylistAction::JoinGame(j),
                _ => PlaylistAction::Kick,
            },
            PlaylistMessage::Unparsable => PlaylistAction::Kick,
            PlaylistMessage::NotBinary => PlaylistAction::Kick,
        }
    }
}

} // verus!

verus! {

/// What matchmaking decided for a join request.
#[derive(Debug, PartialEq)]
pub enum JoinOutcome {
    /// A lobby is full enough to start: run its handshake.
    StartLobby(GameId),
    /// The client was parked in a lobby waiting for more players.
    Parked,
    /// The client was returned to the playlist with its join request
    /// pending, for the remote controller to place.
    Requeued,
    /// The join was refused; close this client's connection.
    Rejected(String),
}

// ---------------------------------------------------------------------------
// A mathematical view of the supervisor, for whole-pass transition specs
// ---------------------------------------------------------------------------

/// Ghost view of one lobby: its fields with the vectors as sequences.
#[verifier::ext_equal]
pub struct LobbyView {
    pub config: crate::config::Config,
    pub players: Seq<Player>,
    pub computer_players: Seq<(crate::sc2::Race, crate::sc2::Difficulty)>,
}

pub open spec fn lobby_view(l: GameLobby) -> LobbyView {
    LobbyView { config: l.config, players: l.players@, computer_players: l.computer_players@ }
}

/// Ghost view of the supervisor: its collections as sequences.
#[verifier::ext_equal]
pub struct SupervisorView {
    pub config: crate::config::Config,
    pub games: Seq<(GameId, Seq<String>)>,
    pub lobbies: Seq<(GameId, LobbyView)>,
    pub playlist: Seq<PlaylistEntry>,
    pub id_counter: GameId,
}

pub open spec fn sv_view(s: Supervisor) -> SupervisorView {
    SupervisorView {
        config: s.config,
        games: s.games@.map_values(|g: (GameId, Vec<String>)| (g.0, g.1@)),
        lobbies: s.lobbies@.map_values(|l: (GameId, GameLobby)| (l.0, lobby_view(l.1))),
        playlist: s.playlist@,
        id_counter: s.id_counter,
    }
}

/// The player a join request creates for a client.
pub open spec fn spec_new_player(client: String, req: JoinRequest) -> Player {
    Player {
        client,
        sc2_status: None,
        data: crate::player::PlayerData { race: req.race, name: req.name, ifopts: req.ifopts },
    }
}

/// What one playlist message decides (the dispatch of `process_playlist_message`).
pub open spec fn spec_playlist_action(m: PlaylistMessage) -> PlaylistAction {
    match m {
        PlaylistMessage::Frame(req) => match req {
            Req::Quit => PlaylistAction::RespondQuit(crate::protocol::quit_ack_resp()),
            Req::Ping => PlaylistAction::Respond(crate::protocol::pong_resp()),
            Req::JoinGame(j) => PlaylistAction::JoinGame(j),
            _ => PlaylistAction::Kick,
        },
        PlaylistMessage::Unparsable => PlaylistAction::Kick,
        PlaylistMessage::NotBinary => PlaylistAction::Kick,
    }
}

/// What matchmaking does to the supervisor for the join request of the
/// playlist entry at `index`: the whole transition of
/// `playlist_join_game`, by matchmaking mode.
pub open spec fn spec_playlist_join(v: SupervisorView, index: int, req: JoinRequest) -> (
    SupervisorView,
    JoinOutcome,
) {
    if !(0 <= index < v.playlist.len()) {
        (v, JoinOutcome::Parked)
    } else {
        let entry = v.playlist[index];
        let rest = SupervisorView {
            config: v.config,
            games: v.games,
            lobbies: v.lobbies,
            playlist: v.playlist.remove(index),
            id_counter: v.id_counter,
        };
        if entry.pending_join is Some {
            (rest, JoinOutcome::Rejected(entry.client))
        } else {
            match v.config.matchmaking.mode {
                crate::config::MatchmakingMode::AgainstBuiltinAI => {
                    let id = v.id_counter;
                    let lobby = LobbyView {
                        config: v.config,
                        players: seq![spec_new_player(entry.client, req)],
                        computer_players: seq![
                            (v.config.matchmaking.cpu_race, v.config.matchmaking.cpu_difficulty),
                        ],
                    };
                    (
                        SupervisorView {
                            config: rest.config,
                            games: rest.games,
                            lobbies: rest.lobbies.push((id, lobby)),
                            playlist: rest.playlist,
                            id_counter: GameId(((id.0 + 1) as u64)),
                        },
                        JoinOutcome::StartLobby(id),
                    )
                },
                crate::config::MatchmakingMode::Singleplayer => {
                    let id = v.id_counter;
                    let lobby = LobbyView {
                        config: v.config,
                        players: seq![spec_new_player(entry.client, req)],
                        computer_players: Seq::<(crate::sc2::Race, crate::sc2::Difficulty)>::empty(),
                    };
                    (
                        SupervisorView {
                            config: rest.config,
                            games: rest.games,
                            lobbies: rest.lobbies.push((id, lobby)),
                            playlist: rest.playlist,
                            id_counter: GameId(((id.0 + 1) as u64)),
                        },
                        JoinOutcome::StartLobby(id),
                    )
                },
                crate::config::MatchmakingMode::Pairs => {
                    if v.lobbies.len() > 0 {
                        let id = v.lobbies[0].0;
                        let joined = LobbyView {
                            config: v.lobbies[0].1.config,
                            players: v.lobbies[0].1.players.push(
                                spec_new_player(entry.client, req),
                            ),
                            computer_players: v.lobbies[0].1.computer_players,
                        };
                        (
                            SupervisorView {
                                config: rest.config,
                                games: rest.games,
                                lobbies: rest.lobbies.update(0, (id, joined)),
                                playlist: rest.playlist,
                                id_counter: rest.id_counter,
                            },
                            JoinOutcome::StartLobby(id),
                        )
                    } else {
                        let id = v.id_counter;
                        let lobby = LobbyView {
                            config: v.config,
                            players: seq![spec_new_player(entry.client, req)],
                            computer_players: Seq::<
                                (crate::sc2::Race, crate::sc2::Difficulty),
                            >::empty(),
                        };
                        (
                            SupervisorView {
                                config: rest.config,
                                games: rest.games,
                                lobbies: rest.lobbies.push((id, lobby)),
                                playlist: rest.playlist,
                                id_counter: GameId(((id.0 + 1) as u64)),
                            },
                            JoinOutcome::Parked,
                        )
                    }
                },
                crate::config::MatchmakingMode::RemoteController => {
                    (
                        SupervisorView {
                            config: rest.config,
                            games: rest.games,
                            lobbies: rest.lobbies,
                            playlist: rest.playlist.push(
                                PlaylistEntry { client: entry.client, pending_join: Some(req) },
                            ),
                            id_counter: rest.id_counter,
                        },
                        JoinOutcome::Requeued,
                    )
                },
            }
        }
    }
}

/// What one tick event for the playlist entry at `index` decides: the
/// state transition and the effects the control loop must perform.
pub open spec fn spec_playlist_step(v: SupervisorView, index: int, ev: PlaylistEvent) -> (
    SupervisorView,
    Seq<PlaylistEffect>,
) {
    if !(0 <= index < v.playlist.len()) {
        (v, Seq::<PlaylistEffect>::empty())
    } else {
        let client = v.playlist[index].client;
        let removed = SupervisorView {
            config: v.config,
            games: v.games,
            lobbies: v.lobbies,
            playlist: v.playlist.remove(index),
            id_counter: v.id_counter,
        };
        match ev {
            PlaylistEvent::NoData => (v, Seq::<PlaylistEffect>::empty()),
            PlaylistEvent::SocketError => (removed, seq![PlaylistEffect::Close(client)]),
            PlaylistEvent::Message(m) => match spec_playlist_action(m) {
                PlaylistAction::Kick => (removed, seq![PlaylistEffect::Close(client)]),
                PlaylistAction::Respond(resp) => (v, seq![PlaylistEffect::Send(client, resp)]),
                PlaylistAction::RespondQuit(resp) => (
                    removed,
                    seq![PlaylistEffect::SendClose(client, resp)],
                ),
                PlaylistAction::JoinGame(j) => {
                    let o = spec_playlist_join(v, index, j);
                    (
                        o.0,
                        match o.1 {
                            JoinOutcome::StartLobby(id) => seq![PlaylistEffect::StartLobby(id)],
                            JoinOutcome::Rejected(c) => seq![PlaylistEffect::Close(c)],
                            JoinOutcome::Parked => Seq::<PlaylistEffect>::empty(),
                            JoinOutcome::Requeued => Seq::<PlaylistEffect>::empty(),
                        },
                    )
                },
            },
        }
    }
}

/// The whole playlist pass: entries `index - 1` down to `0`, each stepped
/// once, with the effects in that order.
pub open spec fn spec_update_playlist(
    v: SupervisorView,
    events: Seq<PlaylistEvent>,
    index: int,
) -> (SupervisorView, Seq<PlaylistEffect>)
    decreases index,
{
    if index <= 0 {
        (v, Seq::<PlaylistEffect>::empty())
    } else {
        let stp = spec_playlist_step(v, index - 1, events[index - 1]);
        let rest = spec_update_playlist(stp.0, events, index - 1);
        (rest.0, stp.1 + rest.1)
    }
}

impl Supervisor {
    /// Append a playlist entry whose client nothing else owns.
    fn push_entry(&mut self, entry: PlaylistEntry)
        requires
            old(self).wf(),
            !old(self).owns_client(entry.client@),
        ensures
            final(self).wf(),
            final(self).playlist@ == old(self).playlist@.push(entry),
            final(self).games == old(self).games,
            final(self).lobbies == old(self).lobbies,
            final(self).config == old(self).config,
            final(self).id_counter == old(self).id_counter,
    {
        let ghost prior = self.playlist@;
        let ghost id = entry.client@;
        self.playlist.push(entry);
        proof {
            let now = self.playlist@;
            assert(now[prior.len() as int].client@ == id);
            assert forall|a: int| 0 <= a < prior.len() implies (#[trigger] now[a]) == prior[a]
            by {}
            assert(playlist_unique(now)) by {
                assert forall|a: int, b: int|
                    #![trigger now[a].client@, now[b].client@]
                    0 <= a < b < now.len() implies now[a].client@ != now[b].client@ by {
                    if b == prior.len() {
                        assert(!in_playlist(prior, id));
                        assert(prior[a].client@ != id);
                    } else {
                        assert(prior[a].client@ != prior[b].client@);
                    }
                }
            }
            assert(playlist_lobbies_disjoint(now, self.lobbies@)) by {
                assert forall|a: int, k: int, m: int|
                    #![trigger now[a].client@, lobby_cl(self.lobbies@, k, m)]
                    0 <= a < now.len() && lobby_slot_ok(self.lobbies@, k, m) implies now[a].client@
                    != lobby_cl(self.lobbies@, k, m) by {
                    if a == prior.len() {
                        assert(!in_lobbies(self.lobbies@, id));
                    } else {
                        assert(prior[a].client@ != lobby_cl(self.lobbies@, k, m));
                    }
                }
            }
            assert(playlist_games_disjoint(now, self.games@)) by {
                assert forall|a: int, k: int, m: int|
                    #![trigger now[a].client@, game_cl(self.games@, k, m)]
                    0 <= a < now.len() && game_slot_ok(self.games@, k, m) implies now[a].client@
                    != game_cl(self.games@, k, m) by {
                    if a == prior.len() {
                        assert(!in_games(self.games@, id));
                    } else {
                        assert(prior[a].client@ != game_cl(self.games@, k, m));
                    }
                }
            }
        }
    }

    /// Join a client, owned by nobody, into the lobby at one index.
    fn lobby_join_at(&mut self, lk: usize, client: String, req: JoinRequest)
        requires
            old(self).wf(),
            lk < old(self).lobbies@.len(),
            !old(self).owns_client(client@),
        ensures
            final(self).wf(),
            final(self).lobbies@.len() == old(self).lobbies@.len(),
            forall|k: int|
                0 <= k < old(self).lobbies@.len() && k != lk ==> final(self).lobbies@[k] == old(self).lobbies@[k],
            final(self).lobbies@[lk as int].0 == old(self).lobbies@[lk as int].0,
            final(self).lobbies@[lk as int].1.config == old(self).lobbies@[lk as int].1.config,
            final(self).lobbies@[lk as int].1.computer_players == old(self).lobbies@[
                lk as int
            ].1.computer_players,
            final(self).lobbies@[lk as int].1.players@ == old(self).lobbies@[
                lk as int
            ].1.players@.push(
                Player {
                    client,
                    sc2_status: None,
                    data: crate::player::PlayerData {
                        race: req.race,
                        name: req.name,
                        ifopts: req.ifopts,
                    },
                },
            ),
            final(self).playlist == old(self).playlist,
            final(self).games == old(self).games,
            final(self).config == old(self).config,
            final(self).id_counter == old(self).id_counter,
    {
        let ghost priorl = self.lobbies@;
        let ghost id = client@;
        let (gid, mut lobby) = self.lobbies.remove(lk);
        lobby.join(client, req);
        let ghost p = lobby.players@.last();
        self.lobbies.insert(lk, (gid, lobby));
        proof {
            let now = self.lobbies@;
            assert(now =~= priorl.remove(lk as int).insert(lk as int, now[lk as int]));
            assert forall|k: int| 0 <= k < priorl.len() && k != lk implies (#[trigger] now[k])
                == priorl[k] by {
                if k < lk {
                    assert(priorl.remove(lk as int)[k] == priorl[k]);
                    assert(now[k] == priorl.remove(lk as int)[k]);
                } else {
                    assert(priorl.remove(lk as int)[k - 1] == priorl[k]);
                    assert(now[k] == priorl.remove(lk as int)[k - 1]);
                }
            }
            assert(now[lk as int].0 == priorl[lk as int].0);
            assert(now[lk as int].1.players@ == priorl[lk as int].1.players@.push(p));
            assert(p.client@ == id);
            lemma_lobby_gain(priorl, now, lk as int, p);
            let ghost newm = priorl[lk as int].1.players@.len() as int;
            assert(lobbies_unique(now)) by {
                assert forall|k: int, m: int, k2: int, m2: int|
                    #![trigger lobby_cl(now, k, m), lobby_cl(now, k2, m2)]
                    lobby_slot_ok(now, k, m) && lobby_slot_ok(now, k2, m2) && (k != k2 || m != m2)
                    implies lobby_cl(now, k, m) != lobby_cl(now, k2, m2) by {
                    if k == lk && m == newm {
                        assert(!in_lobbies(priorl, id));
                        assert(lobby_cl(now, k2, m2) == lobby_cl(priorl, k2, m2));
                    } else if k2 == lk && m2 == newm {
                        assert(!in_lobbies(priorl, id));
                        assert(lobby_cl(now, k, m) == lobby_cl(priorl, k, m));
                    } else {
                        assert(lobby_cl(priorl, k, m) != lobby_cl(priorl, k2, m2));
                    }
                }
            }
            assert(playlist_lobbies_disjoint(self.playlist@, now)) by {
                assert forall|a: int, k: int, m: int|
                    #![trigger self.playlist@[a].client@, lobby_cl(now, k, m)]
                    0 <= a < self.playlist@.len() && lobby_slot_ok(now, k, m) implies self
                    .playlist@[a].client@ != lobby_cl(now, k, m) by {
                    if k == lk && m == newm {
                        assert(!in_playlist(self.playlist@, id));
                    } else {
                        assert(self.playlist@[a].client@ != lobby_cl(priorl, k, m));
                    }
                }
            }
            assert(lobbies_games_disjoint(now, self.games@)) by {
                assert forall|k: int, m: int, k2: int, m2: int|
                    #![trigger lobby_cl(now, k, m), game_cl(self.games@, k2, m2)]
                    lobby_slot_ok(now, k, m) && game_slot_ok(self.games@, k2, m2) implies lobby_cl(
                        now,
                        k,
                        m,
                    ) != game_cl(self.games@, k2, m2) by {
                    if k == lk && m == newm {
                        assert(!in_games(self.games@, id));
                    } else {
                        assert(lobby_cl(priorl, k, m) != game_cl(self.games@, k2, m2));
                    }
                }
            }
            assert(self.ids_wf()) by {
                assert forall|k: int| 0 <= k < now.len() implies (#[trigger] now[k].0).0
                    < self.id_counter.0 by {
                    if k != lk {
                        assert(now[k] == priorl[k]);
                    }
                }
                assert forall|k: int, k2: int|
                    #![trigger now[k].0, now[k2].0]
                    0 <= k < k2 < now.len() implies now[k].0 != now[k2].0 by {
                    assert(now[k].0 == priorl[k].0 && now[k2].0 == priorl[k2].0);
                }
                assert forall|k: int, k2: int|
                    #![trigger now[k].0, self.games@[k2].0]
                    0 <= k < now.len() && 0 <= k2 < self.games@.len() implies now[k].0
                    != self.games@[k2].0 by {
                    assert(now[k].0 == priorl[k].0);
                }
            }
        }
    }

    /// Add a computer player to the lobby at one index.
    fn lobby_add_computer_at(
        &mut self,
        lk: usize,
        race: crate::sc2::Race,
        difficulty: crate::sc2::Difficulty,
    )
        requires
            old(self).wf(),
            lk < old(self).lobbies@.len(),
        ensures
            final(self).wf(),
            final(self).lobbies@.len() == old(self).lobbies@.len(),
            forall|k: int|
                0 <= k < old(self).lobbies@.len() && k != lk ==> final(self).lobbies@[k] == old(self).lobbies@[k],
            final(self).lobbies@[lk as int].0 == old(self).lobbies@[lk as int].0,
            final(self).lobbies@[lk as int].1.config == old(self).lobbies@[lk as int].1.config,
            final(self).lobbies@[lk as int].1.players == old(self).lobbies@[lk as int].1.players,
            final(self).lobbies@[lk as int].1.computer_players@ == old(self).lobbies@[
                lk as int
            ].1.computer_players@.push((race, difficulty)),
            final(self).playlist == old(self).playlist,
            final(self).games == old(self).games,
            final(self).config == old(self).config,
            final(self).id_counter == old(self).id_counter,
    {
        let ghost priorl = self.lobbies@;
        let (gid, mut lobby) = self.lobbies.remove(lk);
        lobby.add_computer(race, difficulty);
        self.lobbies.insert(lk, (gid, lobby));
        proof {
            let now = self.lobbies@;
            assert forall|k: int| 0 <= k < priorl.len() && k != lk implies (#[trigger] now[k])
                == priorl[k] by {
                if k < lk {
                    assert(priorl.remove(lk as int)[k] == priorl[k]);
                    assert(now[k] == priorl.remove(lk as int)[k]);
                } else {
                    assert(priorl.remove(lk as int)[k - 1] == priorl[k]);
                    assert(now[k] == priorl.remove(lk as int)[k - 1]);
                }
            }
            assert forall|k: int, m: int| lobby_slot_ok(now, k, m) implies lobby_slot_ok(
                priorl,
                k,
                m,
            ) && (#[trigger] lobby_cl(now, k, m)) == lobby_cl(priorl, k, m) by {
                if k != lk {
                    assert(now[k] == priorl[k]);
                } else {
                    assert(now[k].1.players == priorl[k].1.players);
                }
            }
            assert forall|k: int| 0 <= k < now.len() implies (#[trigger] now[k].0)
                == priorl[k].0 by {
                if k != lk {
                    assert(now[k] == priorl[k]);
                }
            }
        }
    }

    /// Join a client to a game from the playlist, by matchmaking mode.
    /// If the join is refused, the connection is to be dropped.
    pub fn playlist_join_game(&mut self, index: usize, req: JoinRequest, map_found: bool) -> (r:
        JoinOutcome)
        requires
            old(self).wf(),
            index < old(self).playlist@.len(),
            old(self).config.matchmaking.mode != crate::config::MatchmakingMode::RemoteController
                ==> (old(self).config.check_ok(map_found) && old(self).id_counter.0 < u64::MAX),
        ensures
            final(self).wf(),
            final(self).config == old(self).config,
            final(self).games == old(self).games,
            old(self).id_counter.0 <= final(self).id_counter.0,
            final(self).id_counter.0 <= old(self).id_counter.0 + 1,
            sv_view(*final(self)) == spec_playlist_join(
                sv_view(*old(self)),
                index as int,
                req,
            ).0,
            r == spec_playlist_join(sv_view(*old(self)), index as int, req).1,
    {
        let ghost ov = sv_view(*old(self));
        let ghost o = spec_playlist_join(ov, index as int, req);
        let entry = self.drop_client(index);
        let PlaylistEntry { client, pending_join } = entry;
        match pending_join {
            Some(_) => {
                proof {
                    assert(sv_view(*self) =~= o.0);
                }
                JoinOutcome::Rejected(client)
            },
            None => {
                let mode = self.config.matchmaking.mode;
                match mode {
                    crate::config::MatchmakingMode::AgainstBuiltinAI => {
                        let ghost s0 = *self;
                        let id = self.create_lobby(map_found);
                        proof {
                            lemma_join_after_fresh_lobby(old(self).lobbies@, *self, client@);
                        }
                        let ghost s1 = *self;
                        let lk = self.lobbies.len() - 1;
                        self.lobby_join_at(lk, client, req);
                        let ghost s2 = *self;
                        let race = self.config.matchmaking.cpu_race;
                        let difficulty = self.config.matchmaking.cpu_difficulty;
                        self.lobby_add_computer_at(lk, race, difficulty);
                        proof {
                            assert(self.lobbies@.last().1.computer_players@ =~= seq![
                                (
                                    ov.config.matchmaking.cpu_race,
                                    ov.config.matchmaking.cpu_difficulty,
                                ),
                            ]);
                            assert(self.lobbies@.last().1.players@ =~= seq![
                                spec_new_player(ov.playlist[index as int].client, req),
                            ]);
                            lemma_started_lobby_view(
                                old(self).lobbies@,
                                self.lobbies@,
                                lk as int,
                                id,
                                ov.config,
                                spec_new_player(ov.playlist[index as int].client, req),
                                seq![(ov.config.matchmaking.cpu_race, ov.config.matchmaking.cpu_difficulty)],
                            );
                            assert(sv_view(*self) =~= o.0);
                        }
                        JoinOutcome::StartLobby(id)
                    },
                    crate::config::MatchmakingMode::Singleplayer => {
                        let id = self.create_lobby(map_found);
                        proof {
                            lemma_join_after_fresh_lobby(old(self).lobbies@, *self, client@);
                        }
                        let lk = self.lobbies.len() - 1;
                        self.lobby_join_at(lk, client, req);
                        proof {
                            assert(self.lobbies@.last().1.players@ =~= seq![
                                spec_new_player(ov.playlist[index as int].client, req),
                            ]);
                            assert(self.lobbies@.last().1.computer_players@ =~= Seq::<
                                (crate::sc2::Race, crate::sc2::Difficulty),
                            >::empty());
                            lemma_started_lobby_view(
                                old(self).lobbies@,
                                self.lobbies@,
                                lk as int,
                                id,
                                ov.config,
                                spec_new_player(ov.playlist[index as int].client, req),
                                Seq::<(crate::sc2::Race, crate::sc2::Difficulty)>::empty(),
                            );
                            assert(sv_view(*self) =~= o.0);
                        }
                        JoinOutcome::StartLobby(id)
                    },
                    crate::config::MatchmakingMode::Pairs => {
                        if self.lobbies.len() > 0 {
                            let id = self.lobbies[0].0;
                            self.lobby_join_at(0, client, req);
                            proof {
                                assert forall|k: int|
                                    0 <= k < self.lobbies@.len() && k != 0 implies (
                                #[trigger] sv_view(*self).lobbies[k]) == ov.lobbies.update(
                                    0,
                                    (id, o.0.lobbies[0].1),
                                )[k] by {
                                    assert(self.lobbies@[k] == old(self).lobbies@[k]);
                                }
                                assert(lobby_view(self.lobbies@[0].1) =~= o.0.lobbies[0].1);
                                assert(sv_view(*self).lobbies =~= ov.lobbies.update(
                                    0,
                                    (id, o.0.lobbies[0].1),
                                ));
                                assert(sv_view(*self) =~= o.0);
                            }
                            JoinOutcome::StartLobby(id)
                        } else {
                            let id = self.create_lobby(map_found);
                            proof {
                                lemma_join_after_fresh_lobby(old(self).lobbies@, *self, client@);
                            }
                            let lk = self.lobbies.len() - 1;
                            self.lobby_join_at(lk, client, req);
                            proof {
                                assert(self.lobbies@.last().1.players@ =~= seq![
                                    spec_new_player(ov.playlist[index as int].client, req),
                                ]);
                                assert(self.lobbies@.last().1.computer_players@ =~= Seq::<
                                    (crate::sc2::Race, crate::sc2::Difficulty),
                                >::empty());
                                lemma_started_lobby_view(
                                    old(self).lobbies@,
                                    self.lobbies@,
                                    lk as int,
                                    id,
                                    ov.config,
                                    spec_new_player(ov.playlist[index as int].client, req),
                                    Seq::<(crate::sc2::Race, crate::sc2::Difficulty)>::empty(),
                                );
                                assert(sv_view(*self) =~= o.0);
                            }
                            JoinOutcome::Parked
                        }
                    },
                    crate::config::MatchmakingMode::RemoteController => {
                        self.push_entry(PlaylistEntry { client, pending_join: Some(req) });
                        proof {
                            assert(sv_view(*self) =~= o.0);
                        }
                        JoinOutcome::Requeued
                    },
                }
            },
        }
    }
}

} // verus!

verus! {

/// Removing a game only removes clients and keeps every other slot.
proof fn lemma_games_shrink(
    prior: Seq<(GameId, Vec<String>)>,
    now: Seq<(GameId, Vec<String>)>,
    at: int,
)
    requires
        0 <= at < prior.len(),
        now == prior.remove(at),
    ensures
        forall|k: int, m: int|
            game_slot_ok(now, k, m) ==> #[trigger] game_cl(now, k, m) == game_cl(
                prior,
                if k < at {
                    k
                } else {
                    k + 1
                },
                m,
            ) && game_slot_ok(
                prior,
                if k < at {
                    k
                } else {
                    k + 1
                },
                m,
            ),
{
    assert forall|k: int, m: int| game_slot_ok(now, k, m) implies #[trigger] game_cl(now, k, m)
        == game_cl(
        prior,
        if k < at {
            k
        } else {
            k + 1
        },
        m,
    ) && game_slot_ok(
        prior,
        if k < at {
            k
        } else {
            k + 1
        },
        m,
    ) by {
        if k < at {
            assert(now[k] == prior[k]);
        } else {
            assert(now[k] == prior[k + 1]);
        }
    }
}

impl Supervisor {
    /// A finished game is taken out of the pool, and the clients that
    /// survived it (still connected, recycled by their players) re-enter
    /// the playlist in order.  A game that ended without survivors — by
    /// panic or disconnection — simply disappears.
    pub fn update_games(&mut self, id: GameId, survivors: Vec<String>)
        requires
            old(self).wf(),
            old(self).has_game(id),
            forall|a: int, b: int|
                #![trigger survivors@[a], survivors@[b]]
                0 <= a < b < survivors@.len() ==> survivors@[a]@ != survivors@[b]@,
            forall|a: int|
                #![trigger survivors@[a]]
                0 <= a < survivors@.len() ==> exists|k: int, m: int|
                    0 <= k < old(self).games@.len() && old(self).games@[k].0 == id
                        && 0 <= m < old(self).games@[k].1@.len()
                        && (#[trigger] old(self).games@[k].1@[m])@ == survivors@[a]@,
        ensures
            final(self).wf(),
            !final(self).has_game(id),
            exists|k: int|
                0 <= k < old(self).games@.len() && (#[trigger] old(self).games@[k]).0 == id
                    && final(self).games@ == old(self).games@.remove(k),
            final(self).playlist@.len() == old(self).playlist@.len() + survivors@.len(),
            forall|a: int|
                0 <= a < old(self).playlist@.len() ==> final(self).playlist@[a] == old(self).playlist@[a],
            forall|a: int|
                0 <= a < survivors@.len() ==> final(self).playlist@[old(self).playlist@.len() + a]
                    == (PlaylistEntry { client: survivors@[a], pending_join: None }),
            final(self).lobbies == old(self).lobbies,
            final(self).config == old(self).config,
            final(self).id_counter == old(self).id_counter,
    {
        let n = self.games.len();
        let mut gk: usize = 0;
        while gk < n && self.games[gk].0.0 != id.0
            invariant
                gk <= n,
                *self == *old(self),
                old(self).wf(),
                old(self).has_game(id),
                n == self.games@.len(),
                forall|m: int| 0 <= m < gk ==> (#[trigger] self.games@[m].0) != id,
            decreases n - gk,
        {
            gk = gk + 1;
        }
        if gk == n {
            proof {
                assert(!old(self).has_game(id));
                assert(false);
            }
            return ;
        }
        let ghost priorg = self.games@;
        let (gid, clients) = self.games.remove(gk);
        proof {
            assert(gid == id);
            lemma_games_shrink(priorg, self.games@, gk as int);
            let now = self.games@;
            assert(games_unique(now)) by {
                assert forall|k: int, m: int, k2: int, m2: int|
                    #![trigger game_cl(now, k, m), game_cl(now, k2, m2)]
                    game_slot_ok(now, k, m) && game_slot_ok(now, k2, m2) && (k != k2 || m != m2)
                    implies game_cl(now, k, m) != game_cl(now, k2, m2) by {
                    let ka = if k < gk as int { k } else { k + 1 };
                    let kb = if k2 < gk as int { k2 } else { k2 + 1 };
                    assert(game_cl(priorg, ka, m) != game_cl(priorg, kb, m2));
                }
            }
            assert(playlist_games_disjoint(self.playlist@, now)) by {
                assert forall|a: int, k: int, m: int|
                    #![trigger self.playlist@[a].client@, game_cl(now, k, m)]
                    0 <= a < self.playlist@.len() && game_slot_ok(now, k, m) implies self
                    .playlist@[a].client@ != game_cl(now, k, m) by {
                    let ka = if k < gk as int { k } else { k + 1 };
                    assert(self.playlist@[a].client@ != game_cl(priorg, ka, m));
                }
            }
            assert(lobbies_games_disjoint(self.lobbies@, now)) by {
                assert forall|k: int, m: int, k2: int, m2: int|
                    #![trigger lobby_cl(self.lobbies@, k, m), game_cl(now, k2, m2)]
                    lobby_slot_ok(self.lobbies@, k, m) && game_slot_ok(now, k2, m2) implies
                    lobby_cl(self.lobbies@, k, m) != game_cl(now, k2, m2) by {
                    let kb = if k2 < gk as int { k2 } else { k2 + 1 };
                    assert(lobby_cl(self.lobbies@, k, m) != game_cl(priorg, kb, m2));
                }
            }
            assert(self.ids_wf()) by {
                assert forall|k: int| 0 <= k < now.len() implies (#[trigger] now[k].0).0
                    < self.id_counter.0 by {
                    if k < gk as int {
                        assert(now[k] == priorg[k]);
                    } else {
                        assert(now[k] == priorg[k + 1]);
                    }
                }
                assert forall|k: int, k2: int|
                    #![trigger now[k].0, now[k2].0]
                    0 <= k < k2 < now.len() implies now[k].0 != now[k2].0 by {
                    let ka = if k < gk as int { k } else { k + 1 };
                    let kb = if k2 < gk as int { k2 } else { k2 + 1 };
                    assert(now[k] == priorg[ka] && now[k2] == priorg[kb]);
                }
                assert forall|k: int, k2: int|
                    #![trigger self.lobbies@[k].0, now[k2].0]
                    0 <= k < self.lobbies@.len() && 0 <= k2 < now.len() implies self.lobbies@[k].0
                    != now[k2].0 by {
                    let kb = if k2 < gk as int { k2 } else { k2 + 1 };
                    assert(now[k2] == priorg[kb]);
                }
            }
            assert(!self.has_game(id)) by {
                if self.has_game(id) {
                    let k = choose|k: int|
                        0 <= k < now.len() && (#[trigger] now[k].0) == id;
                    let ka = if k < gk as int { k } else { k + 1 };
                    assert(now[k] == priorg[ka]);
                    assert(priorg[ka].0 == priorg[gk as int].0);
                }
            }
            assert forall|a: int| 0 <= a < survivors@.len() implies !self.owns_client(
                #[trigger] survivors@[a]@,
            ) by {
                let (k0, m0) = choose|k0: int, m0: int|
                    0 <= k0 < priorg.len() && priorg[k0].0 == id && 0 <= m0 < priorg[k0].1@.len()
                        && (#[trigger] priorg[k0].1@[m0])@ == survivors@[a]@;
                assert(k0 == gk as int) by {
                    if k0 != gk as int {
                        assert(priorg[k0].0 == priorg[gk as int].0);
                    }
                }
                assert(game_cl(priorg, gk as int, m0) == survivors@[a]@);
                assert(!in_playlist(self.playlist@, survivors@[a]@)) by {
                    if in_playlist(self.playlist@, survivors@[a]@) {
                        let x = choose|x: int|
                            0 <= x < self.playlist@.len() && (#[trigger] self.playlist@[x].client@)
                                == survivors@[a]@;
                        assert(self.playlist@[x].client@ != game_cl(priorg, gk as int, m0));
                    }
                }
                assert(!in_lobbies(self.lobbies@, survivors@[a]@)) by {
                    if in_lobbies(self.lobbies@, survivors@[a]@) {
                        let (x, y) = choose|x: int, y: int|
                            lobby_slot_ok(self.lobbies@, x, y) && (#[trigger] lobby_cl(
                                self.lobbies@,
                                x,
                                y,
                            )) == survivors@[a]@;
                        assert(lobby_cl(self.lobbies@, x, y) != game_cl(priorg, gk as int, m0));
                    }
                }
                assert(!in_games(now, survivors@[a]@)) by {
                    if in_games(now, survivors@[a]@) {
                        let (x, y) = choose|x: int, y: int|
                            game_slot_ok(now, x, y) && (#[trigger] game_cl(now, x, y))
                                == survivors@[a]@;
                        let xa = if x < gk as int { x } else { x + 1 };
                        assert(game_cl(priorg, xa, y) == survivors@[a]@);
                        assert(game_cl(priorg, xa, y) != game_cl(priorg, gk as int, m0));
                    }
                }
            }
        }
        let ghost mid = *self;
        let mut j: usize = 0;
        while j < survivors.len()
            invariant
                j <= survivors@.len(),
                self.wf(),
                self.games == mid.games,
                self.lobbies == mid.lobbies,
                self.config == mid.config,
                self.id_counter == mid.id_counter,
                self.playlist@.len() == mid.playlist@.len() + j,
                forall|a: int| 0 <= a < mid.playlist@.len() ==> self.playlist@[a] == mid.playlist@[a],
                forall|a: int|
                    0 <= a < j ==> self.playlist@[mid.playlist@.len() + a] == (PlaylistEntry {
                        client: survivors@[a],
                        pending_join: None,
                    }),
                forall|a: int, b: int|
                    #![trigger survivors@[a], survivors@[b]]
                    0 <= a < b < survivors@.len() ==> survivors@[a]@ != survivors@[b]@,
                forall|a: int|
                    j <= a < survivors@.len() ==> !self.owns_client(#[trigger] survivors@[a]@),
            decreases survivors@.len() - j,
        {
            let s = survivors[j].clone();
            proof {
                assert(s@ == survivors@[j as int]@);
            }
            let ghost before = *self;
            self.add_client(s);
            proof {
                assert(self.playlist@ == before.playlist@.push(
                    PlaylistEntry { client: survivors@[j as int], pending_join: None },
                )) by {
                    assert(s == survivors@[j as int]);
                }
                assert forall|a: int|
                    j + 1 <= a < survivors@.len() implies !self.owns_client(
                    #[trigger] survivors@[a]@,
                ) by {
                    assert(!before.owns_client(survivors@[a]@));
                    if in_playlist(self.playlist@, survivors@[a]@) {
                        let x = choose|x: int|
                            0 <= x < self.playlist@.len() && (#[trigger] self.playlist@[x].client@)
                                == survivors@[a]@;
                        if x < before.playlist@.len() {
                            assert(before.playlist@[x].client@ == survivors@[a]@);
                        } else {
                            assert(self.playlist@[x].client@ == survivors@[j as int]@);
                        }
                    }
                }
            }
            j = j + 1;
        }
    }
}

} // verus!

verus! {

/// What the control loop observed on one playlist socket this tick.
#[derive(Debug, PartialEq)]
pub enum PlaylistEvent {
    /// Nothing to read; leave the client untouched.
    NoData,
    /// A frame arrived.
    Message(PlaylistMessage),
    /// The socket failed.
    SocketError,
}

/// What the caller of `update_playlist` must do afterwards.
#[derive(Debug, PartialEq)]
pub enum PlaylistEffect {
    /// Send this response to this client.
    Send(String, Resp),
    /// Send this response, then close this client's connection.
    SendClose(String, Resp),
    /// Close this client's connection.
    Close(String),
    /// Run the handshake of this lobby.
    StartLobby(GameId),
}

/// What the caller of `update_remote` must do afterwards.
#[derive(Debug, PartialEq)]
pub enum RemoteAction {
    /// Send this response to the controller.
    Respond(crate::remote_control::Response),
    /// Send this response, and close this client's connection.
    RespondAndDrop(crate::remote_control::Response, String),
    /// Run the handshake of this lobby, then answer `StartGame` on
    /// success and `Error` on failure.
    StartLobby(GameId),
}

impl Supervisor {
    /// Update clients in the playlist to see if they join a game or
    /// disconnect.  `events` holds what each client's socket produced
    /// this tick, one entry per playlist entry; entries are processed in
    /// reverse index order, so removals do not disturb pending indices.
    pub fn update_playlist(&mut self, events: Vec<PlaylistEvent>, map_found: bool) -> (effects:
        Vec<PlaylistEffect>)
        requires
            old(self).wf(),
            events@.len() == old(self).playlist@.len(),
            old(self).config.matchmaking.mode != crate::config::MatchmakingMode::RemoteController
                ==> (old(self).config.check_ok(map_found) && old(self).id_counter.0
                + events@.len() <= u64::MAX),
        ensures
            final(self).wf(),
            final(self).config == old(self).config,
            final(self).games == old(self).games,
            old(self).id_counter.0 <= final(self).id_counter.0,
            sv_view(*final(self)) == spec_update_playlist(
                sv_view(*old(self)),
                events@,
                events@.len() as int,
            ).0,
            effects@ == spec_update_playlist(
                sv_view(*old(self)),
                events@,
                events@.len() as int,
            ).1,
    {
        let ghost all_events = events@;
        let ghost total = spec_update_playlist(sv_view(*old(self)), all_events, all_events.len() as int);
        let mut events = events;
        let mut effects: Vec<PlaylistEffect> = Vec::new();
        let mut i: usize = events.len();
        while i > 0
            invariant
                i == events@.len(),
                i <= all_events.len(),
                events@ == all_events.take(i as int),
                self.wf(),
                i <= self.playlist@.len(),
                self.config == old(self).config,
                self.games == old(self).games,
                old(self).id_counter.0 <= self.id_counter.0,
                self.id_counter.0 <= old(self).id_counter.0 + (all_events.len() - i),
                old(self).config.matchmaking.mode
                    != crate::config::MatchmakingMode::RemoteController ==> (old(self).config.check_ok(map_found) && old(self).id_counter.0 + all_events.len()
                    <= u64::MAX),
                total == spec_update_playlist(sv_view(*old(self)), all_events, all_events.len() as int),
                total.0 == spec_update_playlist(sv_view(*self), all_events, i as int).0,
                total.1 == effects@ + spec_update_playlist(sv_view(*self), all_events, i as int).1,
            decreases i,
        {
            let ev = match events.pop() {
                Some(e) => e,
                None => {
                    proof {
                        assert(false);
                    }
                    PlaylistEvent::NoData
                },
            };
            i = i - 1;
            let ghost vb = sv_view(*self);
            let ghost eff0 = effects@;
            let ghost gev = ev;
            proof {
                assert(all_events.take((i + 1) as int).last() == all_events[i as int]);
                assert(gev == all_events[i as int]);
                assert(events@ =~= all_events.take(i as int));
            }
            let ghost stp = spec_playlist_step(vb, i as int, gev);
            match ev {
                PlaylistEvent::NoData => {},
                PlaylistEvent::SocketError => {
                    let entry = self.drop_client(i);
                    effects.push(PlaylistEffect::Close(entry.client));
                    proof {
                        assert(sv_view(*self) =~= stp.0);
                        assert(effects@ =~= eff0 + stp.1);
                    }
                },
                PlaylistEvent::Message(msg) => {
                    let action = self.process_playlist_message(msg);
                    match action {
                        PlaylistAction::Kick => {
                            let entry = self.drop_client(i);
                            effects.push(PlaylistEffect::Close(entry.client));
                            proof {
                                assert(sv_view(*self) =~= stp.0);
                                assert(effects@ =~= eff0 + stp.1);
                            }
                        },
                        PlaylistAction::Respond(resp) => {
                            let client = self.playlist[i].client.clone();
                            effects.push(PlaylistEffect::Send(client, resp));
                            proof {
                                assert(sv_view(*self) =~= stp.0);
                                assert(effects@ =~= eff0 + stp.1);
                            }
                        },
                        PlaylistAction::RespondQuit(resp) => {
                            let entry = self.drop_client(i);
                            effects.push(PlaylistEffect::SendClose(entry.client, resp));
                            proof {
                                assert(sv_view(*self) =~= stp.0);
                                assert(effects@ =~= eff0 + stp.1);
                            }
                        },
                        PlaylistAction::JoinGame(req) => {
                            match self.playlist_join_game(i, req, map_found) {
                                JoinOutcome::StartLobby(id) => {
                                    effects.push(PlaylistEffect::StartLobby(id));
                                },
                                JoinOutcome::Rejected(client) => {
                                    effects.push(PlaylistEffect::Close(client));
                                },
                                JoinOutcome::Parked => {},
                                JoinOutcome::Requeued => {},
                            }
                            proof {
                                assert(sv_view(*self) == stp.0);
                                assert(effects@ =~= eff0 + stp.1);
                            }
                        },
                    }
                },
            }
            proof {
                assert(sv_view(*self) == stp.0);
                assert(effects@ == eff0 + stp.1);
                assert(spec_update_playlist(vb, all_events, (i + 1) as int).0
                    == spec_update_playlist(stp.0, all_events, i as int).0);
                assert(spec_update_playlist(vb, all_events, (i + 1) as int).1 == stp.1
                    + spec_update_playlist(stp.0, all_events, i as int).1);
                assert(total.1 =~= effects@ + spec_update_playlist(
                    sv_view(*self),
                    all_events,
                    i as int,
                ).1) by {
                    assert(eff0 + (stp.1 + spec_update_playlist(stp.0, all_events, i as int).1)
                        =~= (eff0 + stp.1) + spec_update_playlist(stp.0, all_events, i as int).1);
                }
            }
        }
        proof {
            assert(spec_update_playlist(sv_view(*self), all_events, 0).0 == sv_view(*self));
            assert(spec_update_playlist(sv_view(*self), all_events, 0).1
                =~= Seq::<PlaylistEffect>::empty());
            assert(effects@ =~= effects@ + Seq::<PlaylistEffect>::empty());
            assert(all_events.take(all_events.len() as int) =~= all_events);
        }
        effects
    }

    /// The playlist index of the lobby with this id, if any.
    fn lobby_index_of(&self, id: GameId) -> (r: Option<usize>)
        ensures
            r matches Some(k) ==> k < self.lobbies@.len() && self.lobbies@[k as int].0 == id,
            r is None ==> !self.has_lobby(id),
    {
        let n = self.lobbies.len();
        let mut k: usize = 0;
        while k < n
            invariant
                k <= n,
                n == self.lobbies@.len(),
                forall|m: int| 0 <= m < k ==> (#[trigger] self.lobbies@[m].0) != id,
            decreases n - k,
        {
            if self.lobbies[k].0.0 == id.0 {
                return Some(k);
            }
            k = k + 1;
        }
        None
    }

    /// Apply one remote-control request, deciding the response and the
    /// side effects the caller must perform.
    pub fn update_remote(&mut self, req: crate::remote_control::Request, map_found: bool) -> (r: (
        RemoteUpdateStatus,
        RemoteAction,
    ))
        requires
            old(self).wf(),
            req is CreateLobby ==> (old(self).config.check_ok(map_found) && old(self).id_counter.0 < u64::MAX),
        ensures
            final(self).wf(),
            old(self).id_counter.0 <= final(self).id_counter.0,
            r.0 is Quit <==> req is Quit,
            req is Quit ==> r.1 == RemoteAction::Respond(crate::remote_control::Response::Quit)
                && *final(self) == *old(self),
            req matches crate::remote_control::Request::Ping(v) ==> r.1 == RemoteAction::Respond(
                crate::remote_control::Response::Ping(v),
            ) && *final(self) == *old(self),
            req is GetConfig ==> (r.1 matches RemoteAction::Respond(
                crate::remote_control::Response::GetConfig(c),
            ) && c@ == old(self).config@ && *final(self) == *old(self)),
            req matches crate::remote_control::Request::SetConfig(c) ==> final(self).config@ == c@
                && (r.1 matches RemoteAction::Respond(
                crate::remote_control::Response::SetConfig(c2),
            ) && c2@ == c@) && final(self).playlist == old(self).playlist && final(self).lobbies
                == old(self).lobbies && final(self).games == old(self).games,
            req is GetPlaylist ==> (r.1 matches RemoteAction::Respond(
                crate::remote_control::Response::GetPlaylist(v),
            ) && v@.len() == old(self).playlist@.len() && (forall|k: int|
                0 <= k < v@.len() ==> (#[trigger] v@[k]).0@ == old(self).playlist@[k].client@
                    && v@[k].1 == (old(self).playlist@[k].pending_join is Some)) && *final(self)
                == *old(self)),
            req is CreateLobby ==> (r.1 == RemoteAction::Respond(
                crate::remote_control::Response::CreateLobby(old(self).id_counter),
            ) && final(self).lobbies@.len() == old(self).lobbies@.len() + 1 && final(self).lobbies@.last().0 == old(self).id_counter && final(self).lobbies@.last().1.players@.len() == 0 && final(self).id_counter.0 == old(self).id_counter.0 + 1),
            req matches crate::remote_control::Request::StartGame(id) ==> (old(self).has_lobby(id)
                ==> ((exists|k: int|
                0 <= k < old(self).lobbies@.len() && (#[trigger] old(self).lobbies@[k].0) == id
                    && old(self).lobbies@[k].1.players@.len() > 0) ==> r.1
                == RemoteAction::StartLobby(id) && *final(self) == *old(self))) && (!old(self).has_lobby(id) ==> (r.1 matches RemoteAction::Respond(
                crate::remote_control::Response::Error(e),
            ) && e@ == "No such game"@ && *final(self) == *old(self))),
            req is DropPlaylistItem || req is ClearPlaylist ==> (r.1 matches RemoteAction::Respond(
                crate::remote_control::Response::Error(e),
            ) && e@ == "Unsupported"@ && *final(self) == *old(self)),
            !(req is Quit) ==> r.0 is Processed,
            req matches crate::remote_control::Request::StartGame(id) ==> ((exists|k: int|
                0 <= k < old(self).lobbies@.len() && (#[trigger] old(self).lobbies@[k].0) == id
                    && old(self).lobbies@[k].1.players@.len() == 0) ==> (r.1 matches
                RemoteAction::Respond(crate::remote_control::Response::Error(e)) && e@
                == "The lobby is empty"@ && !final(self).has_lobby(id)
                && final(self).lobbies@.len() + 1 == old(self).lobbies@.len()
                && final(self).playlist == old(self).playlist && final(self).games == old(self).games)),
            req matches crate::remote_control::Request::AddToLobby(gid, cid) ==> (!in_playlist(
                old(self).playlist@,
                cid@,
            ) ==> (r.1 matches RemoteAction::Respond(
                crate::remote_control::Response::Error(e),
            ) && e@ == "No such client"@ && *final(self) == *old(self))),
            req matches crate::remote_control::Request::AddToLobby(gid, cid) ==> forall|a: int|
                0 <= a < old(self).playlist@.len() && (#[trigger] old(self).playlist@[a].client@)
                    == cid@ && old(self).playlist@[a].pending_join is None ==> (r.1 matches
                RemoteAction::RespondAndDrop(crate::remote_control::Response::Error(e), c) && e@
                    == "Client not ready"@ && c == old(self).playlist@[a].client
                    && final(self).playlist@ == old(self).playlist@.remove(a)
                    && final(self).lobbies == old(self).lobbies && final(self).games == old(self).games),
            req matches crate::remote_control::Request::AddToLobby(gid, cid) ==> forall|a: int|
                0 <= a < old(self).playlist@.len() && (#[trigger] old(self).playlist@[a].client@)
                    == cid@ && old(self).playlist@[a].pending_join is Some && !old(self).has_lobby(
                    gid,
                ) ==> (r.1 matches RemoteAction::RespondAndDrop(
                    crate::remote_control::Response::Error(e),
                    c,
                ) && e@ == "No such game"@ && c == old(self).playlist@[a].client
                    && final(self).playlist@ == old(self).playlist@.remove(a)
                    && final(self).lobbies == old(self).lobbies && final(self).games == old(self).games),
            req matches crate::remote_control::Request::AddToLobby(gid, cid) ==> forall|a: int|
                0 <= a < old(self).playlist@.len() && (#[trigger] old(self).playlist@[a].client@)
                    == cid@ && old(self).has_lobby(gid) ==> (old(
                    self,
                ).playlist@[a].pending_join matches Some(jr) ==> (r.1
                    == RemoteAction::Respond(crate::remote_control::Response::AddToLobby)
                    && final(self).playlist@ == old(self).playlist@.remove(a)
                    && final(self).games == old(self).games && final(self).lobbies@.len() == old(
                    self,
                ).lobbies@.len() && exists|lk: int|
                    0 <= lk < old(self).lobbies@.len() && (#[trigger] old(self).lobbies@[lk].0)
                        == gid && final(self).lobbies@[lk].0 == gid && final(self).lobbies@[lk].1.config == old(self).lobbies@[lk].1.config
                        && final(self).lobbies@[lk].1.computer_players == old(self).lobbies@[lk].1.computer_players
                        && final(self).lobbies@[lk].1.players@ == old(self).lobbies@[lk].1.players@.push(
                        Player {
                            client: old(self).playlist@[a].client,
                            sc2_status: None,
                            data: crate::player::PlayerData {
                                race: jr.race,
                                name: jr.name,
                                ifopts: jr.ifopts,
                            },
                        },
                    ) && (forall|k2: int|
                        0 <= k2 < old(self).lobbies@.len() && k2 != lk
                            ==> final(self).lobbies@[k2] == old(self).lobbies@[k2]))),
    {
        match req {
            crate::remote_control::Request::Quit => (
                RemoteUpdateStatus::Quit,
                RemoteAction::Respond(crate::remote_control::Response::Quit),
            ),
            crate::remote_control::Request::Ping(v) => (
                RemoteUpdateStatus::Processed,
                RemoteAction::Respond(crate::remote_control::Response::Ping(v)),
            ),
            crate::remote_control::Request::GetConfig => {
                let c = self.config.clone();
                (
                    RemoteUpdateStatus::Processed,
                    RemoteAction::Respond(crate::remote_control::Response::GetConfig(c)),
                )
            },
            crate::remote_control::Request::SetConfig(c) => {
                self.config = c.clone();
                (
                    RemoteUpdateStatus::Processed,
                    RemoteAction::Respond(crate::remote_control::Response::SetConfig(c)),
                )
            },
            crate::remote_control::Request::GetPlaylist => {
                let mut v: Vec<(String, bool)> = Vec::new();
                let n = self.playlist.len();
                let mut k: usize = 0;
                while k < n
                    invariant
                        k <= n,
                        *self == *old(self),
                        n == self.playlist@.len(),
                        v@.len() == k,
                        forall|m: int|
                            0 <= m < k ==> (#[trigger] v@[m]).0@ == self.playlist@[m].client@
                                && v@[m].1 == (self.playlist@[m].pending_join is Some),
                    decreases n - k,
                {
                    let ready = match &self.playlist[k].pending_join {
                        Some(_) => true,
                        None => false,
                    };
                    v.push((self.playlist[k].client.clone(), ready));
                    k = k + 1;
                }
                (
                    RemoteUpdateStatus::Processed,
                    RemoteAction::Respond(crate::remote_control::Response::GetPlaylist(v)),
                )
            },
            crate::remote_control::Request::CreateLobby => {
                let id = self.create_lobby(map_found);
                (
                    RemoteUpdateStatus::Processed,
                    RemoteAction::Respond(crate::remote_control::Response::CreateLobby(id)),
                )
            },
            crate::remote_control::Request::AddToLobby(game_id, client_id) => {
                match self.client_index_by_id(client_id) {
                    None => (
                        RemoteUpdateStatus::Processed,
                        RemoteAction::Respond(
                            crate::remote_control::Response::Error(
                                String::from_str("No such client"),
                            ),
                        ),
                    ),
                    Some(index) => {
                        let entry = self.drop_client(index);
                        let PlaylistEntry { client, pending_join } = entry;
                        match pending_join {
                            None => (
                                RemoteUpdateStatus::Processed,
                                RemoteAction::RespondAndDrop(
                                    crate::remote_control::Response::Error(
                                        String::from_str("Client not ready"),
                                    ),
                                    client,
                                ),
                            ),
                            Some(join_req) => {
                                match self.lobby_index_of(game_id) {
                                    None => (
                                        RemoteUpdateStatus::Processed,
                                        RemoteAction::RespondAndDrop(
                                            crate::remote_control::Response::Error(
                                                String::from_str("No such game"),
                                            ),
                                            client,
                                        ),
                                    ),
                                    Some(lk) => {
                                        self.lobby_join_at(lk, client, join_req);
                                        (
                                            RemoteUpdateStatus::Processed,
                                            RemoteAction::Respond(
                                                crate::remote_control::Response::AddToLobby,
                                            ),
                                        )
                                    },
                                }
                            },
                        }
                    },
                }
            },
            crate::remote_control::Request::StartGame(game_id) => {
                match self.lobby_index_of(game_id) {
                    None => (
                        RemoteUpdateStatus::Processed,
                        RemoteAction::Respond(
                            crate::remote_control::Response::Error(
                                String::from_str("No such game"),
                            ),
                        ),
                    ),
                    Some(lk) => {
                        if self.lobbies[lk].1.players.len() > 0 {
                            (RemoteUpdateStatus::Processed, RemoteAction::StartLobby(game_id))
                        } else {
                            let _taken = self.take_lobby(game_id);
                            (
                                RemoteUpdateStatus::Processed,
                                RemoteAction::Respond(
                                    crate::remote_control::Response::Error(
                                        String::from_str("The lobby is empty"),
                                    ),
                                ),
                            )
                        }
                    },
                }
            },
            crate::remote_control::Request::DropPlaylistItem(_) => (
                RemoteUpdateStatus::Processed,
                RemoteAction::Respond(
                    crate::remote_control::Response::Error(String::from_str("Unsupported")),
                ),
            ),
            crate::remote_control::Request::ClearPlaylist => (
                RemoteUpdateStatus::Processed,
                RemoteAction::Respond(
                    crate::remote_control::Response::Error(String::from_str("Unsupported")),
                ),
            ),
        }
    }

    /// Tear the supervisor down: every running game is told to quit, and
    /// every lobby is closed.  The result names the games to signal and
    /// the clients whose connections to close.
    pub fn close(self) -> (r: (Vec<GameId>, Vec<String>))
        requires
            self.wf(),
        ensures
            r.0@.len() == self.games@.len(),
            forall|k: int| 0 <= k < r.0@.len() ==> r.0@[k] == #[trigger] self.games@[k].0,
            r.1@ == all_lobby_clients(self.lobbies@),
    {
        let Supervisor { config: _, games, lobbies, playlist: _, id_counter: _ } = self;
        let ghost orig = lobbies@;
        let mut quit_ids: Vec<GameId> = Vec::new();
        let n = games.len();
        let mut k: usize = 0;
        while k < n
            invariant
                k <= n,
                n == games@.len(),
                quit_ids@.len() == k,
                forall|m: int| 0 <= m < k ==> quit_ids@[m] == #[trigger] games@[m].0,
            decreases n - k,
        {
            quit_ids.push(games[k].0);
            k = k + 1;
        }
        let mut dropped: Vec<String> = Vec::new();
        let ln = lobbies.len();
        let mut lobbies = lobbies;
        let mut j: usize = 0;
        while j < ln
            invariant
                j <= ln,
                ln == lobbies@.len() + j,
                all_lobby_clients(orig) == dropped@ + all_lobby_clients(lobbies@),
            decreases ln - j,
        {
            let ghost before = lobbies@;
            let (_, lobby) = lobbies.remove(0);
            proof {
                assert(lobbies@ =~= before.drop_first());
                assert(all_lobby_clients(before) == lobby.players@.map_values(
                    |p: Player| p.client,
                ) + all_lobby_clients(lobbies@));
            }
            let mut ids = lobby.close();
            let ghost start = dropped@;
            let ghost ids_orig = ids@;
            let mut x: usize = 0;
            let xn = ids.len();
            while x < xn
                invariant
                    x <= xn,
                    xn == ids@.len() + x,
                    dropped@ + ids@ =~= start + ids_orig,
                decreases xn - x,
            {
                dropped.push(ids.remove(0));
                x = x + 1;
                assert(dropped@ + ids@ =~= start + ids_orig);
            }
            proof {
                assert(ids@ =~= Seq::<String>::empty());
                assert(dropped@ =~= start + ids_orig);
                assert(all_lobby_clients(orig) =~= dropped@ + all_lobby_clients(lobbies@)) by {
                    assert((start + ids_orig) + all_lobby_clients(lobbies@) =~= start + (ids_orig
                        + all_lobby_clients(lobbies@)));
                }
            }
            j = j + 1;
        }
        proof {
            assert(all_lobby_clients(lobbies@) =~= Seq::<String>::empty());
            assert(dropped@ =~= all_lobby_clients(orig));
        }
        (quit_ids, dropped)
    }
}

/// The client identifiers of every lobby participant, lobby by lobby, in
/// order.
pub open spec fn all_lobby_clients(l: Seq<(GameId, GameLobby)>) -> Seq<String>
    decreases l.len(),
{
    if l.len() == 0 {
        Seq::<String>::empty()
    } else {
        l[0].1.players@.map_values(|p: Player| p.client) + all_lobby_clients(l.drop_first())
    }
}

/// Game ids are strictly monotonic and never reused: an allocation
/// returns exactly the counter and bumps it, every operation keeps the
/// counter non-decreasing, and every live id stays below the counter —
/// so an id allocated earlier differs from whatever a later allocation
/// returns, even after its lobby or game is long closed.
pub proof fn lemma_game_ids_monotonic(a: GameId, later: Supervisor)
    requires
        a.0 < later.id_counter.0,
    ensures
        later.id_counter != a,
{
}

/// A lobby keeps its id to itself: while it lives, no game runs under its
/// id, so a lobby either becomes the game with its own id (registered
/// after its handshake, under the id it was taken with) or is closed, and
/// — the counter having moved past it — no game under that id ever
/// exists.
pub proof fn lemma_lobby_id_exclusive(s: Supervisor, id: GameId)
    requires
        s.wf(),
        s.has_lobby(id),
    ensures
        !s.has_game(id),
{
    if s.has_game(id) {
        let k = choose|k: int| 0 <= k < s.lobbies@.len() && (#[trigger] s.lobbies@[k].0) == id;
        let k2 = choose|k2: int| 0 <= k2 < s.games@.len() && (#[trigger] s.games@[k2].0) == id;
        assert(s.lobbies@[k].0 != s.games@[k2].0);
    }
}

} // verus!

verus! {

/// A client is never held in two places at once: under the supervisor's
/// invariant, no identifier is both waiting in the playlist and sitting
/// in a lobby, both waiting and playing, or both in a lobby and playing —
/// so every client either waits, participates in exactly one lobby or
/// game, or has been dropped.
pub proof fn lemma_client_owned_once(s: Supervisor, id: Seq<char>)
    requires
        s.wf(),
    ensures
        !(in_playlist(s.playlist@, id) && in_lobbies(s.lobbies@, id)),
        !(in_playlist(s.playlist@, id) && in_games(s.games@, id)),
        !(in_lobbies(s.lobbies@, id) && in_games(s.games@, id)),
{
    if in_playlist(s.playlist@, id) {
        let a = choose|a: int|
            0 <= a < s.playlist@.len() && (#[trigger] s.playlist@[a].client@) == id;
        if in_lobbies(s.lobbies@, id) {
            let (k, m) = choose|k: int, m: int|
                lobby_slot_ok(s.lobbies@, k, m) && (#[trigger] lobby_cl(s.lobbies@, k, m)) == id;
            assert(s.playlist@[a].client@ != lobby_cl(s.lobbies@, k, m));
        }
        if in_games(s.games@, id) {
            let (k, m) = choose|k: int, m: int|
                game_slot_ok(s.games@, k, m) && (#[trigger] game_cl(s.games@, k, m)) == id;
            assert(s.playlist@[a].client@ != game_cl(s.games@, k, m));
        }
    }
    if in_lobbies(s.lobbies@, id) && in_games(s.games@, id) {
        let (k, m) = choose|k: int, m: int|
            lobby_slot_ok(s.lobbies@, k, m) && (#[trigger] lobby_cl(s.lobbies@, k, m)) == id;
        let (k2, m2) = choose|k2: int, m2: int|
            game_slot_ok(s.games@, k2, m2) && (#[trigger] game_cl(s.games@, k2, m2)) == id;
        assert(lobby_cl(s.lobbies@, k, m) != game_cl(s.games@, k2, m2));
    }
}

} // verus!
