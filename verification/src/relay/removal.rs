//! Forgetting peers.
use crate::keys::map_keys;
use crate::relay::ids::PeerId;
use crate::relay::model::{Game, RelayView};
use crate::relay::Relay;
use vstd::prelude::*;

verus! {

broadcast use vstd::std_specs::hash::group_hash_axioms;

impl Relay {
    /// Forgets a peer, its games, and the ports on which these were offered.
    pub fn remove_peer(&mut self, peer_id: &PeerId)
        requires
            old(self).wf(),
        ensures
            final(self)@ == old(self)@.remove_peer(*peer_id),
            final(self).wf(),
    {
        let ghost gone = Set::empty().insert(peer_id.0);
        proof {
            lemma_remove_peers_wf(self@, gone);
        }
        let peer = match self.take_peer(*peer_id) {
            Some(peer) => peer,
            None => {
                proof {
                    lemma_remove_unknown(self@, *peer_id);
                }
                return;
            },
        };
        let ghost before = old(self)@;
        let numbers = map_keys(&peer.games);
        let ghost ids = Seq::new(
            numbers@.len(),
            |j: int| peer@.games[numbers@[j]].local_game_id.0,
        );
        proof {
            lemma_games_of_peer(before, *peer_id, numbers@, ids);
        }
        let mut removed_games: Vec<Game> = Vec::new();
        let mut i: usize = 0;
        while i < numbers.len()
            invariant
                i <= numbers@.len(),
                ids.len() == numbers@.len(),
                forall|j: int| 0 <= j < ids.len() ==> before.games.contains_key(#[trigger] ids[j]),
                forall|j: int|
                    0 <= j < ids.len() ==> peer@.games.contains_key(#[trigger] numbers@[j])
                        && peer@.games[numbers@[j]].local_game_id.0 == ids[j],
                ids.no_duplicates(),
                removed_games@ == Seq::new(i as nat, |j: int| before.games[ids[j]]),
                self@ == (RelayView {
                    peers: before.peers.remove(peer_id.0),
                    games: before.games.remove_keys(ids.take(i as int).to_set()),
                    ..before
                }),
            decreases numbers@.len() - i,
        {
            assert(!ids.take(i as int).contains(ids[i as int]));
            assert(ids.take(i + 1) =~= ids.take(i as int).push(ids[i as int]));
            proof {
                ids.take(i as int).lemma_push_to_set_commute(ids[i as int]);
            }
            if let Some(game) = peer.games.get(&numbers[i]) {
                if let Some(game) = self.games.map.remove(&game.local_game_id.0) {
                    removed_games.push(game);
                }
            }
            i = i + 1;
            assert(removed_games@ =~= Seq::new(i as nat, |j: int| before.games[ids[j]]));
            assert(self@.games =~= before.games.remove_keys(ids.take(i as int).to_set()));
        }
        let ghost without_games = self@;
        let mut i: usize = 0;
        while i < removed_games.len()
            invariant
                i <= removed_games@.len(),
                self@ == (RelayView {
                    listen_ports: without_games.listen_ports.difference(
                        ports_among(removed_games@.take(i as int)),
                    ),
                    ..without_games
                }),
            decreases removed_games@.len() - i,
        {
            let ghost taken = removed_games@.take(i as int);
            let game = removed_games[i];
            self.cleanup_removed_game(game);
            i = i + 1;
            proof {
                assert(removed_games@.take(i as int) =~= taken.push(game));
                lemma_ports_among_push(taken, game);
            }
            assert(self@.listen_ports =~= without_games.listen_ports.difference(
                ports_among(removed_games@.take(i as int)),
            ));
        }
        proof {
            let after = before.remove_peer(*peer_id);
            assert(removed_games@.take(i as int) =~= removed_games@);
            assert(ids.take(ids.len() as int) =~= ids);
            assert(self@.peers =~= after.peers);
            assert(self@.games =~= after.games) by {
                assert forall|g: u64|
                    self@.games.contains_key(g) == after.games.contains_key(g) by {
                    if before.games.contains_key(g) && before.games[g].owned_by(gone) {
                        assert(ids.contains(g));
                    }
                }
            }
            assert forall|port: u16|
                ports_among(removed_games@).contains(port) == before.ports_of(gone).contains(
                    port,
                ) by {
                if ports_among(removed_games@).contains(port) {
                    let j = choose|j: int|
                        0 <= j < removed_games@.len() && (#[trigger] removed_games@[j]).port()
                            == Some(port);
                    assert(before.games.contains_key(ids[j]));
                }
                if before.ports_of(gone).contains(port) {
                    let g = choose|g: u64| #[trigger]
                        before.games.contains_key(g) && before.games[g].owned_by(gone)
                            && before.games[g].port() == Some(port);
                    assert(ids.contains(g));
                    let j = choose|j: int| 0 <= j < ids.len() && ids[j] == g;
                    assert(removed_games@[j].port() == Some(port));
                }
            }
            assert(self@.listen_ports =~= after.listen_ports);
        }
    }

    /// Gives up the port of the listener of a game that was forgotten.
    pub fn cleanup_removed_game(&mut self, game: Game)
        ensures
            final(self)@ == (RelayView {
                listen_ports: match game.port() {
                    Some(port) => old(self)@.listen_ports.remove(port),
                    None => old(self)@.listen_ports,
                },
                ..old(self)@
            }),
    {
        match game {
            Game::Remote(game) => {
                if let Some(listener) = game.listener {
                    self.listen_ports.remove(&listener.addr.port);
                }
            },
            Game::Local(_) => {},
        }
    }
}

/// The ports of the listeners of some games.
spec fn ports_among(games: Seq<Game>) -> Set<u16> {
    Set::new(
        |port: u16|
            exists|j: int|
                0 <= j < games.len() && (#[trigger] games[j]).port() == Some(port),
    )
}

proof fn lemma_ports_among_push(games: Seq<Game>, game: Game)
    ensures
        forall|port: u16|
            ports_among(games.push(game)).contains(port) <==> ports_among(games).contains(port)
                || game.port() == Some(port),
{
    let more = games.push(game);
    assert forall|port: u16|
        ports_among(more).contains(port) <==> ports_among(games).contains(port) || game.port()
            == Some(port) by {
        if ports_among(games).contains(port) {
            let j = choose|j: int|
                0 <= j < games.len() && (#[trigger] games[j]).port() == Some(port);
            assert(more[j].port() == Some(port));
        }
        if game.port() == Some(port) {
            assert(more[games.len() as int].port() == Some(port));
        }
        if ports_among(more).contains(port) {
            let j = choose|j: int|
                0 <= j < more.len() && (#[trigger] more[j]).port() == Some(port);
            if j < games.len() {
                assert(games[j].port() == Some(port));
            }
        }
    }
}

/// The games that a peer advertised are those under the numbers that its list of games gives.
proof fn lemma_games_of_peer(
    relay: RelayView,
    peer_id: PeerId,
    numbers: Seq<u64>,
    ids: Seq<u64>,
)
    requires
        relay.wf(),
        relay.peers.contains_key(peer_id.0),
        numbers.no_duplicates(),
        forall|r: u64| numbers.contains(r) <==> relay.peers[peer_id.0].games.contains_key(r),
        ids == Seq::new(
            numbers.len(),
            |j: int| relay.peers[peer_id.0].games[numbers[j]].local_game_id.0,
        ),
    ensures
        forall|j: int|
            0 <= j < ids.len() ==> relay.peers[peer_id.0].games.contains_key(#[trigger] numbers[j]),
        forall|j: int| 0 <= j < ids.len() ==> relay.games.contains_key(#[trigger] ids[j]),
        ids.no_duplicates(),
        forall|g: u64| #[trigger]
            ids.contains(g) <==> relay.games.contains_key(g) && relay.games[g].owned_by(
                Set::empty().insert(peer_id.0),
            ),
{
    assert forall|j: int| 0 <= j < ids.len() implies relay.advertised_as(
        peer_id.0,
        numbers[j],
        #[trigger] ids[j],
    ) by {
        assert(numbers.contains(numbers[j]));
    }
    assert forall|g: u64|
        relay.games.contains_key(g) && relay.games[g].owned_by(
            Set::empty().insert(peer_id.0),
        ) implies #[trigger] ids.contains(g) by {
        let r = relay.games[g]->Remote_0.remote_game_id.0;
        assert(numbers.contains(r));
        let j = choose|j: int| 0 <= j < numbers.len() && numbers[j] == r;
        assert(ids[j] == g);
    }
    assert forall|j: int|
        0 <= j < ids.len() implies relay.peers[peer_id.0].games.contains_key(
        #[trigger] numbers[j],
    ) by {
        assert(numbers.contains(numbers[j]));
    }
}

/// Forgetting a peer that is not known changes nothing.
proof fn lemma_remove_unknown(relay: RelayView, peer_id: PeerId)
    requires
        relay.wf(),
        !relay.peers.contains_key(peer_id.0),
    ensures
        relay.remove_peer(peer_id) == relay,
{
    let after = relay.remove_peer(peer_id);
    assert(after.peers =~= relay.peers);
    assert(after.games =~= relay.games);
    assert(after.listen_ports =~= relay.listen_ports);
}

/// Forgetting some peers and then others is forgetting them all.
pub proof fn lemma_remove_peers_union(relay: RelayView, first: Set<u64>, second: Set<u64>)
    ensures
        relay.remove_peers(first).remove_peers(second) == relay.remove_peers(first.union(second)),
{
    let between = relay.remove_peers(first);
    let after = between.remove_peers(second);
    let direct = relay.remove_peers(first.union(second));
    assert(after.peers =~= direct.peers);
    assert(after.games =~= direct.games);
    assert forall|port: u16|
        after.listen_ports.contains(port) == direct.listen_ports.contains(port) by {
        let all = relay.ports_of(first.union(second));
        if all.contains(port) {
            let g = choose|g: u64| #[trigger]
                relay.games.contains_key(g) && relay.games[g].owned_by(first.union(second))
                    && relay.games[g].port() == Some(port);
            if !relay.games[g].owned_by(first) {
                assert(between.games.contains_key(g));
            }
        }
        if between.ports_of(second).contains(port) {
            let g = choose|g: u64| #[trigger]
                between.games.contains_key(g) && between.games[g].owned_by(second)
                    && between.games[g].port() == Some(port);
            assert(relay.games.contains_key(g));
        }
        if relay.ports_of(first).contains(port) {
            let g = choose|g: u64| #[trigger]
                relay.games.contains_key(g) && relay.games[g].owned_by(first)
                    && relay.games[g].port() == Some(port);
            assert(relay.games[g].owned_by(first.union(second)));
        }
    }
    assert(after.listen_ports =~= direct.listen_ports);
}

/// Forgetting no peers changes nothing.
pub proof fn lemma_remove_no_peers(relay: RelayView)
    ensures
        relay.remove_peers(Set::empty()) == relay,
{
    let after = relay.remove_peers(Set::empty());
    assert(after.peers =~= relay.peers);
    assert(after.games =~= relay.games);
    assert(after.listen_ports =~= relay.listen_ports);
}

/// Forgetting peers keeps the books in agreement.
pub proof fn lemma_remove_peers_wf(relay: RelayView, gone: Set<u64>)
    requires
        relay.wf(),
    ensures
        relay.remove_peers(gone).wf(),
{
    let after = relay.remove_peers(gone);
    assert forall|p: u64, r: u64|
        after.peers.contains_key(p) && #[trigger] after.peers[p].games.contains_key(r) implies
        after.advertised_as(p, r, after.peers[p].games[r].local_game_id.0) by {
        assert(relay.peers[p].games.contains_key(r));
        assert(relay.advertised_as(p, r, relay.peers[p].games[r].local_game_id.0));
    }
    assert forall|g: u64| #[trigger] after.games.contains_key(g) implies match after.games[g] {
        Game::Remote(game) => {
            &&& after.peers.contains_key(game.peer_id.0)
            &&& after.peers[game.peer_id.0].games.contains_key(game.remote_game_id.0)
            &&& after.peers[game.peer_id.0].games[game.remote_game_id.0].local_game_id.0 == g
        },
        Game::Local(game) => {
            &&& after.local_games.contains_key(game.addr)
            &&& after.local_games[game.addr].0 == g
        },
    } by {
        assert(relay.games.contains_key(g));
    }
}

/// What peers hold besides their games does not touch the agreement of the books.
pub proof fn lemma_wf_ignores_connections(relay: RelayView, other: RelayView)
    requires
        relay.wf(),
        other == (RelayView { peers: other.peers, ..relay }),
        other.peers.dom() =~= relay.peers.dom(),
        forall|p: u64| #[trigger]
            relay.peers.contains_key(p) ==> other.peers[p].games == relay.peers[p].games
                && other.peers[p].next_connection_id.local
                == relay.peers[p].next_connection_id.local,
    ensures
        other.wf(),
{
    assert forall|p: u64| #[trigger] other.peers.contains_key(p) implies p < other.next_peer
        && !other.peers[p].next_connection_id.local by {
        assert(relay.peers.contains_key(p));
    }
    assert forall|p: u64, r: u64|
        other.peers.contains_key(p) && #[trigger] other.peers[p].games.contains_key(r) implies
        other.advertised_as(p, r, other.peers[p].games[r].local_game_id.0) by {
        assert(relay.peers.contains_key(p));
        assert(relay.peers[p].games.contains_key(r));
    }
}

} // verus!
