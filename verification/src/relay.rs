//! The relay: who its peers are, which games it knows, and where connections lead.
pub mod connection;
mod connections;
pub mod connector;
pub mod dispatch;
pub mod effects;
pub mod exchange;
mod games;
pub mod ids;
pub mod laws;
pub mod link;
pub mod local_games;
pub mod model;
pub mod noise;
mod removal;
pub mod runs;

use crate::game::GameConnectionHandle;
use crate::id_map::IdMap;
use crate::queue::QueueView;
use std::collections::{HashMap, HashSet};
use vstd::prelude::*;

use self::connection::RelayConnectionHandle;
use self::ids::{ConnectionId, LocalGameId, PeerId};
use self::local_games::LocalGames;
use self::model::{Game, PeerView, RelayView, RelayedConnection, RelayedGame};

verus! {

broadcast use vstd::std_specs::hash::group_hash_axioms;

/// A connection to a game.
#[derive(Debug)]
pub struct LocalConnection {
    pub tx: GameConnectionHandle,
}

/// Another relay.
#[derive(Debug)]
pub struct Peer {
    pub handle: RelayConnectionHandle,
    /// By the peer's own number of the game.
    pub games: HashMap<u64, RelayedGame>,
    /// By the number of the connection.
    pub local_connections: HashMap<u128, LocalConnection>,
    /// By the number of the connection.
    pub relayed_connections: HashMap<u128, RelayedConnection>,
    pub next_connection_id: ConnectionId,
}

impl View for Peer {
    type V = PeerView;

    open spec fn view(&self) -> PeerView {
        PeerView {
            handle: self.handle@,
            games: self.games@,
            local_connections: self.local_connections@.map_values(
                |connection: LocalConnection| connection.tx@,
            ),
            relayed_connections: self.relayed_connections@,
            next_connection_id: self.next_connection_id,
        }
    }
}

/// A relay.
pub struct Relay {
    pub peers: IdMap<PeerId, Peer>,
    pub games: IdMap<LocalGameId, Game>,
    pub local_games: LocalGames,
    pub listen_ports: HashSet<u16>,
    pub discovery_port: u16,
}

impl View for Relay {
    type V = RelayView;

    open spec fn view(&self) -> RelayView {
        RelayView {
            peers: self.peers.map@.map_values(|peer: Peer| peer@),
            next_peer: self.peers.next(),
            games: self.games.map@,
            next_game: self.games.next(),
            local_games: self.local_games@,
            listen_ports: self.listen_ports@,
            discovery_port: self.discovery_port,
        }
    }
}

impl Peer {
    /// A peer that just connected.
    pub fn new(handle: RelayConnectionHandle) -> (peer: Self)
        ensures
            peer@ == PeerView::fresh(handle@),
    {
        let peer = Peer {
            handle,
            games: HashMap::new(),
            local_connections: HashMap::new(),
            relayed_connections: HashMap::new(),
            next_connection_id: ConnectionId { id: 0, local: false },
        };
        assert(peer@.local_connections =~= Map::<u128, QueueView<Seq<u8>>>::empty());
        peer
    }
}

impl Relay {
    /// The relay's books agree with each other.
    pub open spec fn wf(&self) -> bool {
        self@.wf()
    }

    /// A relay without peers and games. `discovery_port` is the port from which it advertises
    /// games on the local network.
    pub fn new(discovery_port: u16) -> (relay: Self)
        ensures
            relay@ == RelayView::fresh(discovery_port),
            relay.wf(),
    {
        let relay = Relay {
            peers: Default::default(),
            games: Default::default(),
            local_games: LocalGames::new(),
            listen_ports: HashSet::new(),
            discovery_port,
        };
        assert(relay@.peers =~= Map::<u64, PeerView>::empty());
        relay
    }

    /// Tells whether a peer is known.
    pub fn has_peer(&self, peer_id: PeerId) -> (known: bool)
        ensures
            known == self@.peers.contains_key(peer_id.0),
    {
        self.peers.map.contains_key(&peer_id.0)
    }

    /// Takes a peer out of the books.
    pub(crate) fn take_peer(&mut self, peer_id: PeerId) -> (peer: Option<Peer>)
        ensures
            match peer {
                Some(peer) => {
                    &&& old(self)@.peers.contains_key(peer_id.0)
                    &&& peer@ == old(self)@.peers[peer_id.0]
                    &&& final(self)@ == (RelayView {
                        peers: old(self)@.peers.remove(peer_id.0),
                        ..old(self)@
                    })
                },
                None => !old(self)@.peers.contains_key(peer_id.0) && final(self)@ == old(self)@,
            },
    {
        let peer = self.peers.map.remove(&peer_id.0);
        assert(self@.peers =~= old(self)@.peers.remove(peer_id.0));
        peer
    }

    /// Puts a peer into the books.
    pub(crate) fn put_peer(&mut self, peer_id: PeerId, peer: Peer)
        ensures
            final(self)@ == (RelayView {
                peers: old(self)@.peers.insert(peer_id.0, peer@),
                ..old(self)@
            }),
    {
        self.peers.map.insert(peer_id.0, peer);
        assert(self@.peers =~= old(self)@.peers.insert(peer_id.0, peer@));
    }
}

} // verus!
