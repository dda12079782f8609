//! Games: the ones on the local network, and the ones that peers advertise.
use crate::addr::SocketAddr;
use crate::keys::map_keys;
use crate::protocol::{Inner, InnerView, RelayGame, RelayGameView, RelayMessage};
use crate::game::GameListenerHandle;
use crate::relay::ids::{LocalGameId, PeerId, RemoteGameId};
use crate::relay::model::{
    AddedGame, Game, ListenerUse, LocalGame, RelayView, RelayedGame, RemoteGame,
    RemoteGameListener, MAX_FORWARDING_HOPS,
};
use crate::relay::removal::{
    lemma_remove_no_peers, lemma_remove_peers_union, lemma_wf_ignores_connections,
};
use crate::relay::Relay;
use vstd::prelude::*;

verus! {

broadcast use vstd::std_specs::hash::group_hash_axioms;

impl Relay {
    /// A game on the local network announced itself from `from`, with the port on which it waits
    /// for players: it gets a number, and is passed on to all peers.
    pub fn add_local_game(&mut self, from: SocketAddr, port: u16, motd: &Vec<u8>)
        requires
            old(self).wf(),
            old(self)@.can_add_local_game(from, port),
        ensures
            final(self)@ == old(self)@.add_local_game(from, port, motd@),
            final(self).wf(),
    {
        let addr = from.with_port(port);
        if from.port == self.discovery_port && self.listen_ports.contains(&port) {
            return;
        }
        let ghost before = self@;
        let game_id = match self.local_games.get(addr) {
            Some(game_id) => game_id,
            None => {
                let game_id = self.games.add(Game::Local(LocalGame { addr }));
                self.local_games.insert(addr, game_id);
                game_id
            },
        };
        proof {
            let noted = before.with_local_game(addr);
            assert(self@ == noted);
            assert(game_id == noted.local_games[addr]);
            assert forall|p: u64, r: u64|
                noted.peers.contains_key(p) && #[trigger] noted.peers[p].games.contains_key(
                    r,
                ) implies noted.advertised_as(
                p,
                r,
                noted.peers[p].games[r].local_game_id.0,
            ) by {
                assert(before.advertised_as(p, r, before.peers[p].games[r].local_game_id.0));
            }
        }
        self.broadcast_game(game_id, motd, 0, None);
    }

    /// Tells whether a listener has to be opened before the advertisement of a peer is taken in.
    pub fn needs_listener(&self, from: PeerId, game_message: &RelayGame) -> (needed: bool)
        requires
            self.wf(),
        ensures
            needed == self@.needs_listener(from, game_message.id),
    {
        let peer = match self.peers.map.get(&from.0) {
            Some(peer) => peer,
            None => {
                return false;
            },
        };
        assert(peer@ == self@.peers[from.0]);
        match peer.games.get(&game_message.id) {
            Some(relayed) => {
                proof {
                    assert(self@.peers[from.0].games.contains_key(game_message.id));
                    assert(self@.advertised_as(
                        from.0,
                        game_message.id,
                        relayed.local_game_id.0,
                    ));
                }
                match self.games.map.get(&relayed.local_game_id.0) {
                    Some(Game::Remote(game)) => match game.listener {
                        Some(listener) => listener.handle.closed,
                        None => true,
                    },
                    _ => true,
                }
            },
            None => true,
        }
    }

    /// Takes in the advertisement of a peer. `opened` is where the listener waits that was opened
    /// for the game; it is looked at only if one was needed.
    pub fn add_game(
        &mut self,
        from: PeerId,
        game_message: &RelayGame,
        opened: Option<SocketAddr>,
    ) -> (added: Option<AddedGame>)
        requires
            old(self).wf(),
            old(self)@.can_add_game(from, game_message.id),
        ensures
            (final(self)@, added) == old(self)@.add_game(from, game_message@, opened),
            final(self).wf(),
    {
        let ghost before = self@;
        let mut peer = match self.take_peer(from) {
            Some(peer) => peer,
            None => {
                return None;
            },
        };
        let remote_game_id = RemoteGameId(game_message.id);
        let local_game_id = match peer.games.get(&remote_game_id.0) {
            Some(game) => {
                proof {
                    assert(before.peers[from.0].games.contains_key(remote_game_id.0));
                    assert(before.advertised_as(
                        from.0,
                        remote_game_id.0,
                        game.local_game_id.0,
                    ));
                }
                game.local_game_id
            },
            None => self.games.next_id(),
        };
        assert(local_game_id.0 == before.game_number(from, remote_game_id.0));
        peer.games.insert(remote_game_id.0, RelayedGame { local_game_id });
        self.put_peer(from, peer);

        let mut remote_game = match self.games.map.get(&local_game_id.0) {
            Some(Game::Remote(game)) => *game,
            _ => RemoteGame { peer_id: from, remote_game_id, listener: None },
        };
        assert(remote_game == before.advertised_game(from, remote_game_id.0));

        let mut listener_use = ListenerUse::Missing;
        if let Some(mut listener) = remote_game.listener {
            if listener.handle.keepalive().is_err() {
                self.listen_ports.remove(&listener.addr.port);
                remote_game.listener = None;
            } else {
                remote_game.listener = Some(listener);
                listener_use = ListenerUse::Kept;
            }
        }
        if remote_game.listener.is_none() {
            if let Some(addr) = opened {
                self.listen_ports.insert(addr.port);
                remote_game.listener = Some(
                    RemoteGameListener { handle: GameListenerHandle::new(), addr },
                );
                listener_use = ListenerUse::Opened;
            }
        }
        self.games.map.insert(local_game_id.0, Game::Remote(remote_game));
        let advertised_port = match remote_game.listener {
            Some(listener) => Some(listener.addr.port),
            None => None,
        };
        let added = Some(AddedGame { local_game_id, listener: listener_use, advertised_port });
        proof {
            let after = before.add_game(from, game_message@, opened).0;
            assert(self@.peers =~= after.peers);
            assert(self@.games =~= after.games);
            assert(self@.listen_ports =~= after.listen_ports);
            lemma_add_game_wf(before, from, game_message@, opened);
        }
        added
    }

    /// Passes the advertisement of a peer on to the other peers, unless it has come too far.
    pub fn forward_game(&mut self, from: PeerId, game_id: LocalGameId, game_message: &RelayGame)
        requires
            old(self).wf(),
        ensures
            final(self)@ == old(self)@.forward_game(from, game_id, game_message@),
            final(self).wf(),
    {
        if game_message.hops >= MAX_FORWARDING_HOPS {
            return;
        }
        self.broadcast_game(game_id, &game_message.motd, game_message.hops + 1, Some(from));
    }

    /// A peer advertises a game: it is taken in and passed on.
    pub fn handle_game(
        &mut self,
        from: PeerId,
        game_message: &RelayGame,
        opened: Option<SocketAddr>,
    ) -> (added: Option<AddedGame>)
        requires
            old(self).wf(),
            old(self)@.can_add_game(from, game_message.id),
        ensures
            (final(self)@, added) == old(self)@.handle_game(from, game_message@, opened),
            final(self).wf(),
    {
        let added = self.add_game(from, game_message, opened);
        if let Some(game) = added {
            self.forward_game(from, game.local_game_id, game_message);
        }
        added
    }

    /// The listener of a game ended. Returns whether the game has another one, which is asked to
    /// stay.
    pub fn remove_game_listener(&mut self, game_id: &LocalGameId) -> (kept: bool)
        requires
            old(self).wf(),
        ensures
            (final(self)@, kept) == old(self)@.remove_game_listener(*game_id),
            final(self).wf(),
    {
        let ghost before = self@;
        let mut remote_game = match self.games.map.get(&game_id.0) {
            Some(Game::Remote(game)) => *game,
            _ => {
                return false;
            },
        };
        let mut listener = match remote_game.listener {
            Some(listener) => listener,
            None => {
                return false;
            },
        };
        let kept = listener.handle.keepalive().is_ok();
        if kept {
            remote_game.listener = Some(listener);
        } else {
            self.listen_ports.remove(&listener.addr.port);
            remote_game.listener = None;
        }
        self.games.map.insert(game_id.0, Game::Remote(remote_game));
        proof {
            let after = before.remove_game_listener(*game_id).0;
            assert(self@ == after);
            assert forall|p: u64, r: u64|
                after.peers.contains_key(p) && #[trigger] after.peers[p].games.contains_key(
                    r,
                ) implies after.advertised_as(
                p,
                r,
                after.peers[p].games[r].local_game_id.0,
            ) by {
                assert(before.advertised_as(p, r, before.peers[p].games[r].local_game_id.0));
            }
        }
        kept
    }

    /// Advertises a game to all peers other than one, and forgets those whose connection is gone.
    fn broadcast_game(
        &mut self,
        game_id: LocalGameId,
        motd: &Vec<u8>,
        hops: u64,
        except: Option<PeerId>,
    )
        requires
            old(self).wf(),
        ensures
            final(self)@ == old(self)@.broadcast_message(
                InnerView::Game(RelayGameView { id: game_id.0, motd: motd@, hops }),
                except,
            ),
            final(self).wf(),
    {
        let ghost before = self@;
        let ghost message = InnerView::Game(RelayGameView { id: game_id.0, motd: motd@, hops });
        let ghost sent = before.sent_to_all(message, except);
        let ghost unreachable = before.unreachable_peers(except);
        let ids = map_keys(&self.peers.map);
        let mut errors: Vec<PeerId> = Vec::new();
        assert forall|p: u64| ids@.contains(p) <==> before.peers.contains_key(p) by {}
        let mut i: usize = 0;
        while i < ids.len()
            invariant
                i <= ids@.len(),
                ids@.no_duplicates(),
                forall|p: u64| ids@.contains(p) <==> #[trigger] before.peers.contains_key(p),
                message == InnerView::Game(RelayGameView { id: game_id.0, motd: motd@, hops }),
                sent == before.sent_to_all(message, except),
                unreachable == before.unreachable_peers(except),
                self@ == (RelayView { peers: self@.peers, ..before }),
                self@.peers.dom() =~= before.peers.dom(),
                forall|j: int|
                    0 <= j < ids@.len() ==> self@.peers[#[trigger] ids@[j]] == (if j < i {
                        sent.peers[ids@[j]]
                    } else {
                        before.peers[ids@[j]]
                    }),
                forall|j: int|
                    0 <= j < i && unreachable.contains(#[trigger] ids@[j]) ==> errors@.contains(
                        PeerId(ids@[j]),
                    ),
                forall|k: int|
                    0 <= k < errors@.len() ==> unreachable.contains((#[trigger] errors@[k]).0),
            decreases ids@.len() - i,
        {
            let id = PeerId(ids[i]);
            let skipped = match except {
                Some(except) => except == id,
                None => false,
            };
            let ghost errors_before = errors@;
            assert(ids@.contains(ids@[i as int]));
            assert(before.peers.contains_key(id.0));
            assert(skipped <==> except == Some(id));
            if !skipped {
                if let Some(mut peer) = self.take_peer(id) {
                    let copy = vstd::slice::slice_to_vec(motd.as_slice());
                    let result = peer.handle.send(
                        RelayMessage {
                            inner: Some(Inner::Game(RelayGame { id: game_id.0, motd: copy, hops })),
                        },
                    );
                    assert(peer@ == sent.peers[id.0]);
                    self.put_peer(id, peer);
                    if result.is_err() {
                        errors.push(id);
                        assert(errors@[errors_before.len() as int] == id);
                    }
                }
            } else {
                assert(sent.peers[id.0] == before.peers[id.0]);
            }
            assert forall|j: int|
                0 <= j < i + 1 && unreachable.contains(#[trigger] ids@[j]) implies errors@.contains(
                PeerId(ids@[j]),
            ) by {
                if j < i {
                    let k = choose|k: int|
                        0 <= k < errors_before.len() && errors_before[k] == PeerId(ids@[j]);
                    assert(errors@[k] == PeerId(ids@[j]));
                }
            }
            i = i + 1;
        }
        proof {
            assert forall|p: u64| #[trigger] before.peers.contains_key(p) implies self@.peers[p]
                == sent.peers[p] by {
                assert(ids@.contains(p));
            }
            assert(self@.peers =~= sent.peers);
            lemma_wf_ignores_connections(before, sent);
            lemma_remove_no_peers(sent);
        }
        let mut i: usize = 0;
        assert(numbers(errors@.take(0)) =~= Set::empty());
        while i < errors.len()
            invariant
                i <= errors@.len(),
                sent.wf(),
                self@ == sent.remove_peers(numbers(errors@.take(i as int))),
                self.wf(),
            decreases errors@.len() - i,
        {
            let id = errors[i];
            proof {
                let first = numbers(errors@.take(i as int));
                let second = Set::empty().insert(id.0);
                lemma_remove_peers_union(sent, first, second);
                lemma_numbers_push(errors@.take(i as int), id);
                assert(errors@.take(i + 1) =~= errors@.take(i as int).push(id));
                assert(first.union(second) =~= numbers(errors@.take(i + 1)));
            }
            self.remove_peer(&id);
            i = i + 1;
        }
        proof {
            assert(errors@.take(i as int) =~= errors@);
            assert(numbers(errors@) =~= unreachable) by {
                assert forall|p: u64| numbers(errors@).contains(p) == unreachable.contains(p) by {
                    if unreachable.contains(p) {
                        assert(ids@.contains(p));
                        assert(errors@.contains(PeerId(p)));
                    }
                    if errors@.contains(PeerId(p)) {
                        let k = choose|k: int| 0 <= k < errors@.len() && errors@[k] == PeerId(p);
                        assert(unreachable.contains(errors@[k].0));
                    }
                }
            }
        }
    }
}

/// Taking in an advertisement keeps the books in agreement.
pub proof fn lemma_add_game_wf(
    relay: RelayView,
    from: PeerId,
    message: RelayGameView,
    opened: Option<SocketAddr>,
)
    requires
        relay.wf(),
        relay.can_add_game(from, message.id),
    ensures
        relay.add_game(from, message, opened).0.wf(),
{
    let after = relay.add_game(from, message, opened).0;
    if relay.peers.contains_key(from.0) {
        let number = relay.game_number(from, message.id);
        if relay.peers[from.0].games.contains_key(message.id) {
            assert(relay.advertised_as(from.0, message.id, number));
        } else {
            assert(!relay.games.contains_key(number));
        }
        assert forall|p: u64, r: u64|
            after.peers.contains_key(p) && #[trigger] after.peers[p].games.contains_key(r) implies
            after.advertised_as(p, r, after.peers[p].games[r].local_game_id.0) by {
            if !(p == from.0 && r == message.id) {
                assert(relay.peers[p].games.contains_key(r));
                assert(relay.advertised_as(p, r, relay.peers[p].games[r].local_game_id.0));
            }
        }
    }
}

/// The numbers of some peers.
spec fn numbers(peers: Seq<PeerId>) -> Set<u64> {
    Set::new(|p: u64| peers.contains(PeerId(p)))
}

proof fn lemma_numbers_push(peers: Seq<PeerId>, peer: PeerId)
    ensures
        numbers(peers.push(peer)) == numbers(peers).insert(peer.0),
{
    let more = peers.push(peer);
    assert forall|p: u64|
        numbers(more).contains(p) == numbers(peers).insert(peer.0).contains(p) by {
        if peers.contains(PeerId(p)) {
            let k = choose|k: int| 0 <= k < peers.len() && peers[k] == PeerId(p);
            assert(more[k] == PeerId(p));
        }
        if p == peer.0 {
            assert(more[peers.len() as int] == PeerId(p));
        }
        if more.contains(PeerId(p)) {
            let k = choose|k: int| 0 <= k < more.len() && more[k] == PeerId(p);
            if k < peers.len() {
                assert(peers[k] == PeerId(p));
            }
        }
    }
    assert(numbers(more) =~= numbers(peers).insert(peer.0));
}

} // verus!
