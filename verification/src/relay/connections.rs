//! Connections: of players to games elsewhere, of peers to games here, and between two peers.
use crate::addr::SocketAddr;
use crate::game::GameConnectionHandle;
use crate::protocol::{
    Inner, RelayCloseConnection, RelayConnect, RelayData, RelayMessage,
};
use crate::relay::ids::{ConnectionId, LocalGameId, PeerId, RemoteGameId};
use crate::relay::link::data_message;
use crate::relay::model::{
    AcceptedConnection, Game, LocalConnect, PeerView, RelayView, RelayedConnection,
    MAX_FORWARDING_HOPS,
};
use crate::relay::removal::lemma_wf_ignores_connections;
use crate::relay::{LocalConnection, Peer, Relay};
use vstd::prelude::*;

verus! {

broadcast use vstd::std_specs::hash::group_hash_axioms;

impl Peer {
    /// Puts a connection to a game under a name.
    pub(crate) fn put_connection(&mut self, connection_id: ConnectionId, tx: GameConnectionHandle)
        ensures
            final(self)@ == (PeerView {
                local_connections: old(self)@.local_connections.insert(
                    connection_id.number(),
                    tx@,
                ),
                ..old(self)@
            }),
    {
        self.local_connections.insert(connection_id.key(), LocalConnection { tx });
        assert(self@.local_connections =~= old(self)@.local_connections.insert(
            connection_id.number(),
            tx@,
        ));
    }

    /// Takes the connection to a game that has a name.
    pub(crate) fn take_connection(&mut self, connection_id: ConnectionId) -> (connection: Option<
        LocalConnection,
    >)
        ensures
            final(self)@ == (PeerView {
                local_connections: old(self)@.local_connections.remove(connection_id.number()),
                ..old(self)@
            }),
            match connection {
                Some(connection) => {
                    &&& old(self)@.local_connections.contains_key(connection_id.number())
                    &&& connection.tx@ == old(self)@.local_connections[connection_id.number()]
                },
                None => !old(self)@.local_connections.contains_key(connection_id.number()),
            },
    {
        let connection = self.local_connections.remove(&connection_id.key());
        assert(self@.local_connections =~= old(self)@.local_connections.remove(
            connection_id.number(),
        ));
        connection
    }
}

impl Relay {
    /// A player connected to the listener that stands in for a game. Returns where the player's
    /// bytes are to go.
    pub fn accept_game_connection(&mut self, game_id: LocalGameId) -> (accepted: Option<
        AcceptedConnection,
    >)
        requires
            old(self).wf(),
            old(self)@.can_accept(game_id),
        ensures
            (final(self)@, accepted) == old(self)@.accept_game_connection(game_id),
            final(self).wf(),
    {
        let ghost before = self@;
        let (remote_game_id, peer_id) = match self.games.map.get(&game_id.0) {
            Some(Game::Remote(game)) => (game.remote_game_id, game.peer_id),
            _ => {
                return None;
            },
        };
        let mut peer = match self.take_peer(peer_id) {
            Some(peer) => peer,
            None => {
                return None;
            },
        };
        let connection_id = peer.next_connection_id;
        peer.next_connection_id = ConnectionId {
            id: connection_id.id + 1,
            local: connection_id.local,
        };
        let result = peer.handle.send(
            RelayMessage {
                inner: Some(
                    Inner::Connect(
                        RelayConnect {
                            game_id: remote_game_id.0,
                            connection_id: connection_id.id,
                            hops: 0,
                        },
                    ),
                ),
            },
        );
        let requested = result.is_ok();
        let mut tx = GameConnectionHandle::new();
        if !requested {
            tx.close();
        }
        peer.put_connection(connection_id, tx);
        self.put_peer(peer_id, peer);
        proof {
            let after = before.accept_game_connection(game_id).0;
            assert(self@.peers[peer_id.0] =~= after.peers[peer_id.0]);
            assert(self@.peers =~= after.peers);
            lemma_wf_ignores_connections(before, self@);
        }
        Some(AcceptedConnection { peer_id, connection_id, requested })
    }

    /// A connection to a game on the local network was made for a peer.
    pub fn add_game_connection(&mut self, from: PeerId, connection_id: ConnectionId)
        requires
            old(self).wf(),
        ensures
            final(self)@ == old(self)@.add_game_connection(from, connection_id),
            final(self).wf(),
    {
        let ghost before = self@;
        let mut peer = match self.take_peer(from) {
            Some(peer) => peer,
            None => {
                return;
            },
        };
        peer.put_connection(connection_id, GameConnectionHandle::new());
        let result = peer.handle.send(data_message(connection_id, Vec::new()));
        self.put_peer(from, peer);
        proof {
            lemma_wf_ignores_connections(before, self@);
        }
        if result.is_err() {
            proof {
                lemma_remove_after_change(before, self@, from);
            }
            self.remove_peer(&from);
        } else {
            assert(self@.peers =~= before.add_game_connection(from, connection_id).peers);
        }
    }

    /// A peer asks for a connection to a game: it is made if the game is on the local network,
    /// and passed on if another peer advertised the game.
    pub fn handle_connect(&mut self, from: PeerId, connect_message: RelayConnect) -> (connect:
        Option<LocalConnect>)
        requires
            old(self).wf(),
            old(self)@.can_connect(from, connect_message),
        ensures
            (final(self)@, connect) == old(self)@.handle_connect(from, connect_message),
            final(self).wf(),
    {
        let game_id = LocalGameId(connect_message.game_id);
        let connection_id = ConnectionId { id: connect_message.connection_id, local: false };
        let game = match self.games.map.get(&game_id.0) {
            Some(game) => *game,
            None => {
                return None;
            },
        };
        match game {
            Game::Local(game) => self.connect_local(from, game_id, connection_id, game.addr),
            Game::Remote(game) => {
                self.forward_connect(from, game.peer_id, game.remote_game_id, connect_message);
                None
            },
        }
    }

    /// Tells which connection to make to a game on the local network.
    pub fn connect_local(
        &self,
        from: PeerId,
        game_id: LocalGameId,
        connection_id: ConnectionId,
        addr: SocketAddr,
    ) -> (connect: Option<LocalConnect>)
        ensures
            connect == self@.connect_local(from, game_id, connection_id, addr),
    {
        if self.has_peer(from) {
            Some(LocalConnect { peer_id: from, connection_id, game_id, addr })
        } else {
            None
        }
    }

    /// Passes a request for a connection on from one peer to another, and joins the two halves.
    pub fn forward_connect(
        &mut self,
        from: PeerId,
        to: PeerId,
        to_game_id: RemoteGameId,
        connect_message: RelayConnect,
    )
        requires
            old(self).wf(),
            old(self)@.can_forward_connect(from, to, connect_message),
        ensures
            final(self)@ == old(self)@.forward_connect(from, to, to_game_id, connect_message),
            final(self).wf(),
    {
        let ghost before = self@;
        if connect_message.hops >= MAX_FORWARDING_HOPS {
            return;
        }
        let from_connection_id = ConnectionId { id: connect_message.connection_id, local: false };
        match self.peers.map.get(&from.0) {
            Some(from_peer) => {
                assert(from_peer@ == before.peers[from.0]);
                if from_peer.relayed_connections.contains_key(&from_connection_id.key()) {
                    return;
                }
            },
            None => {
                return;
            },
        }
        let mut to_peer = match self.take_peer(to) {
            Some(to_peer) => to_peer,
            None => {
                return;
            },
        };
        let to_connection_id = to_peer.next_connection_id;
        to_peer.next_connection_id = ConnectionId {
            id: to_connection_id.id + 1,
            local: to_connection_id.local,
        };
        to_peer.relayed_connections.insert(
            to_connection_id.key(),
            RelayedConnection { peer: from, peer_connection_id: from_connection_id },
        );
        let result = to_peer.handle.send(
            RelayMessage {
                inner: Some(
                    Inner::Connect(
                        RelayConnect {
                            game_id: to_game_id.0,
                            connection_id: to_connection_id.id,
                            hops: connect_message.hops + 1,
                        },
                    ),
                ),
            },
        );
        self.put_peer(to, to_peer);
        proof {
            lemma_wf_ignores_connections(before, self@);
        }
        if result.is_err() {
            proof {
                lemma_remove_after_change(before, self@, to);
            }
            self.remove_peer(&to);
            return;
        }
        let ghost halfway = self@;
        if let Some(mut from_peer) = self.take_peer(from) {
            from_peer.relayed_connections.insert(
                from_connection_id.key(),
                RelayedConnection { peer: to, peer_connection_id: to_connection_id },
            );
            self.put_peer(from, from_peer);
        }
        proof {
            let after = before.forward_connect(from, to, to_game_id, connect_message);
            assert(self@.peers =~= after.peers);
            lemma_wf_ignores_connections(halfway, self@);
        }
    }

    /// A peer sends bytes on a connection.
    pub fn handle_data(&mut self, from: PeerId, data_message: RelayData)
        requires
            old(self).wf(),
        ensures
            final(self)@ == old(self)@.handle_data(from, data_message@),
            final(self).wf(),
    {
        let ghost before = self@;
        let ghost after = before.handle_data(from, data_message@);
        let from_connection_id = ConnectionId {
            id: data_message.connection_id,
            local: data_message.connection_local,
        };
        let mut from_peer = match self.take_peer(from) {
            Some(from_peer) => from_peer,
            None => {
                return;
            },
        };
        if let Some(mut connection) = from_peer.take_connection(from_connection_id) {
            if connection.tx.send(data_message.data).is_ok() {
                from_peer.put_connection(from_connection_id, connection.tx);
            }
            assert(from_peer@ =~= after.peers[from.0]);
            self.put_peer(from, from_peer);
            assert(self@.peers =~= after.peers);
            proof {
                lemma_wf_ignores_connections(before, self@);
            }
            return;
        }
        assert(from_peer@ =~= before.peers[from.0]);
        let other = match from_peer.relayed_connections.get(&from_connection_id.key()) {
            Some(other) => Some(*other),
            None => None,
        };
        self.put_peer(from, from_peer);
        assert(self@.peers =~= before.peers);
        let RelayedConnection { peer: to, peer_connection_id: to_connection_id } = match other {
            Some(other) => other,
            None => {
                return;
            },
        };
        let mut to_peer = match self.take_peer(to) {
            Some(to_peer) => to_peer,
            None => {
                return;
            },
        };
        let result = to_peer.handle.send(
            crate::relay::link::data_message(to_connection_id, data_message.data),
        );
        self.put_peer(to, to_peer);
        proof {
            lemma_wf_ignores_connections(before, self@);
        }
        if result.is_err() {
            proof {
                lemma_remove_after_change(before, self@, to);
            }
            self.remove_peer(&to);
        } else {
            assert(self@.peers =~= after.peers);
        }
    }

    /// A peer ends a connection.
    pub fn handle_close_connection(
        &mut self,
        from: PeerId,
        close_connection_message: RelayCloseConnection,
    )
        requires
            old(self).wf(),
        ensures
            final(self)@ == old(self)@.handle_close_connection(from, close_connection_message),
            final(self).wf(),
    {
        let ghost before = self@;
        let ghost after = before.handle_close_connection(from, close_connection_message);
        let connection_id = ConnectionId {
            id: close_connection_message.connection_id,
            local: close_connection_message.connection_local,
        };
        let mut from_peer = match self.take_peer(from) {
            Some(from_peer) => from_peer,
            None => {
                return;
            },
        };
        let _ = from_peer.take_connection(connection_id);
        let other = from_peer.relayed_connections.remove(&connection_id.key());
        self.put_peer(from, from_peer);
        let ghost halfway = self@;
        proof {
            lemma_wf_ignores_connections(before, halfway);
        }
        if let Some(other) = other {
            if let Some(mut to_peer) = self.take_peer(other.peer) {
                to_peer.relayed_connections.remove(&other.peer_connection_id.key());
                self.put_peer(other.peer, to_peer);
                proof {
                    lemma_wf_ignores_connections(halfway, self@);
                }
            }
        }
        assert(self@.peers =~= after.peers);
    }
}

/// What a peer holds does not matter when it is forgotten.
proof fn lemma_remove_after_change(before: RelayView, changed: RelayView, peer_id: PeerId)
    requires
        changed == (RelayView { peers: changed.peers, ..before }),
        changed.peers.remove(peer_id.0) =~= before.peers.remove(peer_id.0),
    ensures
        changed.remove_peer(peer_id) == before.remove_peer(peer_id),
{
    let gone = Set::empty().insert(peer_id.0);
    assert(changed.peers.remove_keys(gone) =~= changed.peers.remove(peer_id.0));
    assert(before.peers.remove_keys(gone) =~= before.peers.remove(peer_id.0));
    assert(changed.remove_peer(peer_id) =~= before.remove_peer(peer_id));
}

} // verus!
