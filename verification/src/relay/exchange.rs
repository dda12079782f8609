//! Where the relay meets the connections and listeners that it decides about: messages are
//! collected from it, and it is told what is gone.
use crate::protocol::RelayMessage;
use crate::queue::QueueView;
use crate::relay::ids::{ConnectionId, LocalGameId, PeerId};
use crate::relay::model::{Game, PeerView, RelayView, RemoteGame, RemoteGameListener};
use crate::relay::removal::lemma_wf_ignores_connections;
use crate::relay::Relay;
use vstd::prelude::*;

verus! {

broadcast use vstd::std_specs::hash::group_hash_axioms;

impl RelayView {
    /// The relay with another record of a peer.
    pub open spec fn with_peer(self, peer_id: PeerId, peer: PeerView) -> RelayView {
        RelayView { peers: self.peers.insert(peer_id.0, peer), ..self }
    }

    /// The connection of a peer to a game is known.
    pub open spec fn has_connection(self, peer_id: PeerId, connection_id: ConnectionId) -> bool {
        self.peers.contains_key(peer_id.0)
            && self.peers[peer_id.0].local_connections.contains_key(connection_id.number())
    }

    /// The relay with another record of a connection of a peer to a game.
    pub open spec fn with_connection(
        self,
        peer_id: PeerId,
        connection_id: ConnectionId,
        connection: QueueView<Seq<u8>>,
    ) -> RelayView {
        self.with_peer(
            peer_id,
            PeerView {
                local_connections: self.peers[peer_id.0].local_connections.insert(
                    connection_id.number(),
                    connection,
                ),
                ..self.peers[peer_id.0]
            },
        )
    }

    /// The connection of a peer to a game.
    pub open spec fn connection(
        self,
        peer_id: PeerId,
        connection_id: ConnectionId,
    ) -> QueueView<Seq<u8>> {
        self.peers[peer_id.0].local_connections[connection_id.number()]
    }

    /// What waited for a peer was collected.
    pub open spec fn drain_peer(self, peer_id: PeerId) -> RelayView {
        if self.peers.contains_key(peer_id.0) {
            let peer = self.peers[peer_id.0];
            self.with_peer(peer_id, PeerView { handle: peer.handle.drained(), ..peer })
        } else {
            self
        }
    }

    /// What waited for a game was collected.
    pub open spec fn drain_connection(
        self,
        peer_id: PeerId,
        connection_id: ConnectionId,
    ) -> RelayView {
        if self.has_connection(peer_id, connection_id) {
            self.with_connection(
                peer_id,
                connection_id,
                self.connection(peer_id, connection_id).drained(),
            )
        } else {
            self
        }
    }

    /// The connection to a peer is gone.
    pub open spec fn close_peer(self, peer_id: PeerId) -> RelayView {
        if self.peers.contains_key(peer_id.0) {
            let peer = self.peers[peer_id.0];
            self.with_peer(peer_id, PeerView { handle: peer.handle.shut(), ..peer })
        } else {
            self
        }
    }

    /// A connection to a game is gone.
    pub open spec fn close_connection(
        self,
        peer_id: PeerId,
        connection_id: ConnectionId,
    ) -> RelayView {
        if self.has_connection(peer_id, connection_id) {
            self.with_connection(
                peer_id,
                connection_id,
                self.connection(peer_id, connection_id).shut(),
            )
        } else {
            self
        }
    }

    /// The listener of a game is gone.
    pub open spec fn close_listener(self, game_id: LocalGameId) -> RelayView {
        if !self.games.contains_key(game_id.0) {
            self
        } else {
            match self.games[game_id.0] {
                Game::Remote(RemoteGame { peer_id, remote_game_id, listener: Some(listener) }) => {
                    let gone = RemoteGameListener {
                        handle: listener.handle.gone(),
                        addr: listener.addr,
                    };
                    let game = Game::Remote(
                        RemoteGame { peer_id, remote_game_id, listener: Some(gone) },
                    );
                    RelayView { games: self.games.insert(game_id.0, game), ..self }
                },
                _ => self,
            }
        }
    }
}

impl Relay {
    /// Takes the messages that wait for a peer.
    pub fn drain_peer(&mut self, peer_id: PeerId) -> (messages: Vec<RelayMessage>)
        requires
            old(self).wf(),
        ensures
            final(self).wf(),
            final(self)@ == old(self)@.drain_peer(peer_id),
            if old(self)@.peers.contains_key(peer_id.0) {
                messages@.map_values(|message: RelayMessage| message@)
                    == old(self)@.peers[peer_id.0].handle.queue
            } else {
                messages@.len() == 0
            },
    {
        let ghost before = self@;
        let mut peer = match self.take_peer(peer_id) {
            Some(peer) => peer,
            None => {
                return Vec::new();
            },
        };
        let messages = peer.handle.drain();
        self.put_peer(peer_id, peer);
        proof {
            lemma_wf_ignores_connections(before, self@);
            assert(self@.peers =~= before.peers.insert(peer_id.0, self@.peers[peer_id.0]));
        }
        messages
    }

    /// Takes the bytes that wait for a game.
    pub fn drain_connection(&mut self, peer_id: PeerId, connection_id: ConnectionId) -> (data: Vec<
        Vec<u8>,
    >)
        requires
            old(self).wf(),
        ensures
            final(self).wf(),
            final(self)@ == old(self)@.drain_connection(peer_id, connection_id),
            if old(self)@.has_connection(peer_id, connection_id) {
                data@.map_values(|data: Vec<u8>| data@)
                    == old(self)@.connection(peer_id, connection_id).queue
            } else {
                data@.len() == 0
            },
    {
        let ghost before = self@;
        let mut peer = match self.take_peer(peer_id) {
            Some(peer) => peer,
            None => {
                return Vec::new();
            },
        };
        let data = match peer.take_connection(connection_id) {
            Some(mut connection) => {
                let data = connection.tx.drain();
                peer.put_connection(connection_id, connection.tx);
                data
            },
            None => Vec::new(),
        };
        self.put_peer(peer_id, peer);
        proof {
            lemma_wf_ignores_connections(before, self@);
            if before.has_connection(peer_id, connection_id) {
                let after = before.with_connection(
                    peer_id,
                    connection_id,
                    before.connection(peer_id, connection_id).drained(),
                );
                assert(self@.peers[peer_id.0] =~= after.peers[peer_id.0]);
                assert(self@.peers =~= after.peers);
            } else {
                assert(self@.peers[peer_id.0] =~= before.peers[peer_id.0]);
                assert(self@.peers =~= before.peers);
            }
        }
        data
    }

    /// Notes that the connection to a peer is gone.
    pub fn close_peer(&mut self, peer_id: PeerId)
        requires
            old(self).wf(),
        ensures
            final(self).wf(),
            final(self)@ == old(self)@.close_peer(peer_id),
    {
        let ghost before = self@;
        if let Some(mut peer) = self.take_peer(peer_id) {
            peer.handle.close();
            self.put_peer(peer_id, peer);
            proof {
                lemma_wf_ignores_connections(before, self@);
                assert(self@.peers =~= before.peers.insert(peer_id.0, self@.peers[peer_id.0]));
            }
        }
    }

    /// Notes that a connection to a game is gone.
    pub fn close_connection(&mut self, peer_id: PeerId, connection_id: ConnectionId)
        requires
            old(self).wf(),
        ensures
            final(self).wf(),
            final(self)@ == old(self)@.close_connection(peer_id, connection_id),
    {
        let ghost before = self@;
        if let Some(mut peer) = self.take_peer(peer_id) {
            if let Some(mut connection) = peer.take_connection(connection_id) {
                connection.tx.close();
                peer.put_connection(connection_id, connection.tx);
            }
            self.put_peer(peer_id, peer);
            proof {
                lemma_wf_ignores_connections(before, self@);
                if before.has_connection(peer_id, connection_id) {
                    let after = before.with_connection(
                        peer_id,
                        connection_id,
                        before.connection(peer_id, connection_id).shut(),
                    );
                    assert(self@.peers[peer_id.0] =~= after.peers[peer_id.0]);
                    assert(self@.peers =~= after.peers);
                } else {
                    assert(self@.peers[peer_id.0] =~= before.peers[peer_id.0]);
                    assert(self@.peers =~= before.peers);
                }
            }
        }
    }

    /// Notes that the listener of a game is gone.
    pub fn close_listener(&mut self, game_id: LocalGameId)
        requires
            old(self).wf(),
        ensures
            final(self)@ == old(self)@.close_listener(game_id),
            final(self).wf(),
    {
        let ghost before = self@;
        let mut game = match self.games.map.get(&game_id.0) {
            Some(Game::Remote(game)) => *game,
            _ => {
                return;
            },
        };
        if let Some(mut listener) = game.listener {
            listener.handle.close();
            game.listener = Some(listener);
            self.games.map.insert(game_id.0, Game::Remote(game));
            proof {
                let after = before.close_listener(game_id);
                assert(self@ == after);
                assert forall|p: u64, r: u64|
                    after.peers.contains_key(p) && #[trigger] after.peers[p].games.contains_key(
                        r,
                    ) implies after.advertised_as(
                    p,
                    r,
                    after.peers[p].games[r].local_game_id.0,
                ) by {
                    assert(before.advertised_as(p, r, before.peers[p].games[r].local_game_id.0));
                }
            }
        }
    }

    /// Tells whether a connection of a peer to a game is known.
    pub fn has_connection(&self, peer_id: PeerId, connection_id: ConnectionId) -> (known: bool)
        ensures
            known == self@.has_connection(peer_id, connection_id),
    {
        match self.peers.map.get(&peer_id.0) {
            Some(peer) => {
                assert(peer@ == self@.peers[peer_id.0]);
                peer.local_connections.contains_key(&connection_id.key())
            },
            None => false,
        }
    }
}

} // verus!
