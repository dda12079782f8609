//! What the relay knows, and how each event changes it.
use crate::addr::SocketAddr;
use crate::game::GameListenerHandle;
use crate::protocol::{
    InnerView, RelayCloseConnection, RelayConnect, RelayDataView, RelayGameView,
};
use crate::queue::QueueView;
use crate::relay::ids::{ConnectionId, LocalGameId, PeerId, RemoteGameId};
use crate::relay::link::data_on;
use vstd::prelude::*;

verus! {

/// How often an advertisement or a connection request is passed on.
pub const MAX_FORWARDING_HOPS: u64 = 2;

/// A game that a peer advertised, under the number that this relay gave it.
#[derive(Clone, Copy, Debug, PartialEq, Eq, Structural)]
pub struct RelayedGame {
    pub local_game_id: LocalGameId,
}

/// The other half of a connection between two peers.
#[derive(Clone, Copy, Debug, PartialEq, Eq, Structural)]
pub struct RelayedConnection {
    pub peer: PeerId,
    pub peer_connection_id: ConnectionId,
}

/// A game on the local network.
#[derive(Clone, Copy, Debug, PartialEq, Eq, Structural)]
pub struct LocalGame {
    pub addr: SocketAddr,
}

/// The listener that stands in for a game of a peer.
#[derive(Clone, Copy, Debug, PartialEq, Eq, Structural)]
pub struct RemoteGameListener {
    pub handle: GameListenerHandle,
    pub addr: SocketAddr,
}

/// A game that a peer advertised.
#[derive(Clone, Copy, Debug, PartialEq, Eq)]
pub struct RemoteGame {
    pub peer_id: PeerId,
    pub remote_game_id: RemoteGameId,
    pub listener: Option<RemoteGameListener>,
}

/// A game that this relay offers to its peers.
#[derive(Clone, Copy, Debug, PartialEq, Eq)]
pub enum Game {
    Local(LocalGame),
    Remote(RemoteGame),
}

/// A connection of a player that is to be carried to a peer.
#[derive(Clone, Copy, Debug, PartialEq, Eq, Structural)]
pub struct AcceptedConnection {
    pub peer_id: PeerId,
    pub connection_id: ConnectionId,
    /// Whether the peer could be asked for the connection; if not, it ends at once.
    pub requested: bool,
}

/// Where the listener of an advertised game comes from.
#[derive(Clone, Copy, Debug, PartialEq, Eq, Structural)]
pub enum ListenerUse {
    /// There is none.
    Missing,
    /// It was open before, and was asked to stay.
    Kept,
    /// It just opened.
    Opened,
}

/// A game of a peer that was noted or refreshed.
#[derive(Clone, Copy, Debug, PartialEq, Eq)]
pub struct AddedGame {
    pub local_game_id: LocalGameId,
    pub listener: ListenerUse,
    /// The port to advertise on the local network.
    pub advertised_port: Option<u16>,
}

/// A connection to make to a game on the local network.
#[derive(Clone, Copy, Debug, PartialEq, Eq, Structural)]
pub struct LocalConnect {
    pub peer_id: PeerId,
    pub connection_id: ConnectionId,
    pub game_id: LocalGameId,
    pub addr: SocketAddr,
}

/// What a peer stands for.
#[verifier::ext_equal]
pub struct PeerView {
    pub handle: QueueView<Option<InnerView>>,
    /// By the peer's own number of the game.
    pub games: Map<u64, RelayedGame>,
    /// By the number of the connection.
    pub local_connections: Map<u128, QueueView<Seq<u8>>>,
    /// By the number of the connection.
    pub relayed_connections: Map<u128, RelayedConnection>,
    pub next_connection_id: ConnectionId,
}

/// What the relay stands for.
#[verifier::ext_equal]
pub struct RelayView {
    pub peers: Map<u64, PeerView>,
    pub next_peer: u64,
    pub games: Map<u64, Game>,
    pub next_game: u64,
    pub local_games: Map<SocketAddr, LocalGameId>,
    pub listen_ports: Set<u16>,
    pub discovery_port: u16,
}

impl Game {
    /// The port on which the game's listener waits, if it has one.
    pub open spec fn port(self) -> Option<u16> {
        match self {
            Game::Remote(RemoteGame { listener: Some(listener), .. }) => Some(listener.addr.port),
            _ => None,
        }
    }

    /// The game was advertised by one of the peers.
    pub open spec fn owned_by(self, peers: Set<u64>) -> bool {
        match self {
            Game::Remote(game) => peers.contains(game.peer_id.0),
            Game::Local(_) => false,
        }
    }
}

impl RemoteGame {
    /// The game has a listener that is still open.
    pub open spec fn is_listening(self) -> bool {
        self.listener is Some && !self.listener->0.handle.closed
    }
}

impl PeerView {
    /// A peer that just connected.
    pub open spec fn fresh(handle: QueueView<Option<InnerView>>) -> PeerView {
        PeerView {
            handle,
            games: Map::empty(),
            local_connections: Map::empty(),
            relayed_connections: Map::empty(),
            next_connection_id: ConnectionId { id: 0, local: false },
        }
    }

    /// The peer after a message was handed to its connection.
    pub open spec fn send(self, message: InnerView) -> PeerView {
        PeerView { handle: self.handle.send(Some(message)), ..self }
    }
}

impl RelayView {
    /// A relay without peers and games.
    pub open spec fn fresh(discovery_port: u16) -> RelayView {
        RelayView {
            peers: Map::empty(),
            next_peer: 0,
            games: Map::empty(),
            next_game: 0,
            local_games: Map::empty(),
            listen_ports: Set::empty(),
            discovery_port,
        }
    }

    /// Every number in use was handed out; connections that this relay names are not marked as
    /// local; peers and games agree on who advertised what; games and addresses agree on what was
    /// found where.
    pub open spec fn wf(self) -> bool {
        &&& forall|p: u64| #[trigger] self.peers.contains_key(p) ==> p < self.next_peer
        &&& forall|p: u64| #[trigger]
            self.peers.contains_key(p) ==> !self.peers[p].next_connection_id.local
        &&& forall|g: u64| #[trigger] self.games.contains_key(g) ==> g < self.next_game
        &&& forall|p: u64, r: u64|
            self.peers.contains_key(p) && #[trigger] self.peers[p].games.contains_key(r)
                ==> self.advertised_as(p, r, self.peers[p].games[r].local_game_id.0)
        &&& forall|g: u64| #[trigger]
            self.games.contains_key(g) ==> match self.games[g] {
                Game::Remote(game) => {
                    &&& self.peers.contains_key(game.peer_id.0)
                    &&& self.peers[game.peer_id.0].games.contains_key(game.remote_game_id.0)
                    &&& self.peers[game.peer_id.0].games[game.remote_game_id.0].local_game_id.0 == g
                },
                Game::Local(game) => {
                    &&& self.local_games.contains_key(game.addr)
                    &&& self.local_games[game.addr].0 == g
                },
            }
        &&& forall|addr: SocketAddr| #[trigger]
            self.local_games.contains_key(addr) ==> {
                &&& self.games.contains_key(self.local_games[addr].0)
                &&& self.games[self.local_games[addr].0] == Game::Local(LocalGame { addr })
            }
    }

    /// The game with number `g` is the one that peer `p` numbers `r`.
    pub open spec fn advertised_as(self, p: u64, r: u64, g: u64) -> bool {
        &&& self.games.contains_key(g)
        &&& self.games[g] matches Game::Remote(game) && game.peer_id.0 == p
            && game.remote_game_id.0 == r
    }

    /// The ports of the listeners of the games that some peers advertised.
    pub open spec fn ports_of(self, gone: Set<u64>) -> Set<u16> {
        Set::new(
            |port: u16|
                exists|g: u64| #[trigger]
                    self.games.contains_key(g) && self.games[g].owned_by(gone)
                        && self.games[g].port() == Some(port),
        )
    }

    /// Forgets some peers, with their games and the ports of the listeners of these.
    pub open spec fn remove_peers(self, gone: Set<u64>) -> RelayView {
        RelayView {
            peers: self.peers.remove_keys(gone),
            games: Map::new(
                |g: u64| self.games.contains_key(g) && !self.games[g].owned_by(gone),
                |g: u64| self.games[g],
            ),
            listen_ports: self.listen_ports.difference(self.ports_of(gone)),
            ..self
        }
    }

    /// Forgets a peer.
    pub open spec fn remove_peer(self, peer_id: PeerId) -> RelayView {
        self.remove_peers(Set::empty().insert(peer_id.0))
    }

    /// Takes up a new peer.
    pub open spec fn add_peer(self, handle: QueueView<Option<InnerView>>) -> RelayView {
        RelayView {
            peers: self.peers.insert(self.next_peer, PeerView::fresh(handle)),
            next_peer: (self.next_peer + 1) as u64,
            ..self
        }
    }

    /// The peers, other than one, whose connection is gone.
    pub open spec fn unreachable_peers(self, except: Option<PeerId>) -> Set<u64> {
        Set::new(
            |p: u64|
                self.peers.contains_key(p) && except != Some(PeerId(p))
                    && self.peers[p].handle.closed,
        )
    }

    /// Sends a message to all peers other than one.
    pub open spec fn sent_to_all(self, message: InnerView, except: Option<PeerId>) -> RelayView {
        RelayView {
            peers: self.peers.map_entries(
                |p: u64, peer: PeerView|
                    if except == Some(PeerId(p)) {
                        peer
                    } else {
                        peer.send(message)
                    },
            ),
            ..self
        }
    }

    /// Sends a message to all peers other than one, and forgets those whose connection is gone.
    pub open spec fn broadcast_message(
        self,
        message: InnerView,
        except: Option<PeerId>,
    ) -> RelayView {
        self.sent_to_all(message, except).remove_peers(self.unreachable_peers(except))
    }

    /// An announcement on the local network is one of this relay's own.
    pub open spec fn is_own_announcement(self, from: SocketAddr, port: u16) -> bool {
        from.port == self.discovery_port && self.listen_ports.contains(port)
    }

    /// Notes the game at an address on the local network.
    pub open spec fn with_local_game(self, addr: SocketAddr) -> RelayView {
        if self.local_games.contains_key(addr) {
            self
        } else {
            RelayView {
                games: self.games.insert(self.next_game, Game::Local(LocalGame { addr })),
                next_game: (self.next_game + 1) as u64,
                local_games: self.local_games.insert(addr, LocalGameId(self.next_game)),
                ..self
            }
        }
    }

    /// There is a number left for the game that an announcement speaks of, if it needs one.
    pub open spec fn can_add_local_game(self, from: SocketAddr, port: u16) -> bool {
        self.is_own_announcement(from, port) || self.local_games.contains_key(from.at_port(port))
            || self.next_game < u64::MAX
    }

    /// A game on the local network announced itself: it is passed on to all peers, unless the
    /// announcement is one of this relay's own.
    pub open spec fn add_local_game(self, from: SocketAddr, port: u16, motd: Seq<u8>) -> RelayView {
        if self.is_own_announcement(from, port) {
            self
        } else {
            let noted = self.with_local_game(from.at_port(port));
            noted.broadcast_message(
                InnerView::Game(
                    RelayGameView {
                        id: noted.local_games[from.at_port(port)].0,
                        motd,
                        hops: 0,
                    },
                ),
                None,
            )
        }
    }

    /// The number of the game that a peer advertises.
    pub open spec fn game_number(self, from: PeerId, remote_game_id: u64) -> u64 {
        if self.peers[from.0].games.contains_key(remote_game_id) {
            self.peers[from.0].games[remote_game_id].local_game_id.0
        } else {
            self.next_game
        }
    }

    /// The game that a peer advertises, before its listener is looked after.
    pub open spec fn advertised_game(self, from: PeerId, remote_game_id: u64) -> RemoteGame {
        match self.games[self.game_number(from, remote_game_id)] {
            Game::Remote(game) if self.peers[from.0].games.contains_key(remote_game_id) => game,
            _ => RemoteGame {
                peer_id: from,
                remote_game_id: RemoteGameId(remote_game_id),
                listener: None,
            },
        }
    }

    /// There is a number left for the game that a peer advertises, if it needs one.
    pub open spec fn can_add_game(self, from: PeerId, remote_game_id: u64) -> bool {
        self.peers.contains_key(from.0) && !self.peers[from.0].games.contains_key(remote_game_id)
            ==> self.next_game < u64::MAX
    }

    /// A listener has to be opened before the advertisement of a peer is taken in.
    pub open spec fn needs_listener(self, from: PeerId, remote_game_id: u64) -> bool {
        self.peers.contains_key(from.0) && !self.advertised_game(
            from,
            remote_game_id,
        ).is_listening()
    }

    /// Takes in the advertisement of a peer: gives the game a number, keeps its listener open, or
    /// puts the one that was opened in its place. `opened` is where that one waits.
    pub open spec fn add_game(
        self,
        from: PeerId,
        message: RelayGameView,
        opened: Option<SocketAddr>,
    ) -> (RelayView, Option<AddedGame>) {
        if !self.peers.contains_key(from.0) {
            (self, None)
        } else {
            let number = self.game_number(from, message.id);
            let game = self.advertised_game(from, message.id);
            let listener = if game.is_listening() {
                Some(
                    RemoteGameListener {
                        handle: game.listener->0.handle.kept_alive(),
                        addr: game.listener->0.addr,
                    },
                )
            } else {
                match opened {
                    Some(addr) => Some(
                        RemoteGameListener { handle: GameListenerHandle::opened(), addr },
                    ),
                    None => None,
                }
            };
            let old_ports = if game.listener is Some && !game.is_listening() {
                self.listen_ports.remove(game.listener->0.addr.port)
            } else {
                self.listen_ports
            };
            let noted = RelayView {
                peers: self.peers.insert(
                    from.0,
                    PeerView {
                        games: self.peers[from.0].games.insert(
                            message.id,
                            RelayedGame { local_game_id: LocalGameId(number) },
                        ),
                        ..self.peers[from.0]
                    },
                ),
                games: self.games.insert(number, Game::Remote(RemoteGame { listener, ..game })),
                next_game: if self.peers[from.0].games.contains_key(message.id) {
                    self.next_game
                } else {
                    (self.next_game + 1) as u64
                },
                listen_ports: if game.is_listening() || listener is None {
                    old_ports
                } else {
                    old_ports.insert(listener->0.addr.port)
                },
                ..self
            };
            let added = AddedGame {
                local_game_id: LocalGameId(number),
                listener: if game.is_listening() {
                    ListenerUse::Kept
                } else if listener is Some {
                    ListenerUse::Opened
                } else {
                    ListenerUse::Missing
                },
                advertised_port: match listener {
                    Some(listener) => Some(listener.addr.port),
                    None => None,
                },
            };
            (noted, Some(added))
        }
    }

    /// Passes the advertisement of a peer on to the other peers, unless it has come too far.
    pub open spec fn forward_game(
        self,
        from: PeerId,
        game_id: LocalGameId,
        message: RelayGameView,
    ) -> RelayView {
        if message.hops >= MAX_FORWARDING_HOPS {
            self
        } else {
            self.broadcast_message(
                InnerView::Game(
                    RelayGameView {
                        id: game_id.0,
                        motd: message.motd,
                        hops: (message.hops + 1) as u64,
                    },
                ),
                Some(from),
            )
        }
    }

    /// A peer advertises a game.
    pub open spec fn handle_game(
        self,
        from: PeerId,
        message: RelayGameView,
        opened: Option<SocketAddr>,
    ) -> (RelayView, Option<AddedGame>) {
        let (noted, added) = self.add_game(from, message, opened);
        match added {
            Some(game) => (noted.forward_game(from, game.local_game_id, message), added),
            None => (noted, None),
        }
    }

    /// The connection to make when a peer asks for one to a game on the local network.
    pub open spec fn connect_local(
        self,
        from: PeerId,
        game_id: LocalGameId,
        connection_id: ConnectionId,
        addr: SocketAddr,
    ) -> Option<LocalConnect> {
        if self.peers.contains_key(from.0) {
            Some(LocalConnect { peer_id: from, connection_id, game_id, addr })
        } else {
            None
        }
    }

    /// A request for a connection is passed on from one peer to another.
    pub open spec fn forwards_connect(
        self,
        from: PeerId,
        to: PeerId,
        message: RelayConnect,
    ) -> bool {
        &&& message.hops < MAX_FORWARDING_HOPS
        &&& self.peers.contains_key(from.0)
        &&& !self.peers[from.0].relayed_connections.contains_key(
            (ConnectionId { id: message.connection_id, local: false }).number(),
        )
        &&& self.peers.contains_key(to.0)
    }

    /// There is a name left for the other half of the connection, if one is needed.
    pub open spec fn can_forward_connect(
        self,
        from: PeerId,
        to: PeerId,
        message: RelayConnect,
    ) -> bool {
        self.forwards_connect(from, to, message) ==> self.peers[to.0].next_connection_id.id
            < u64::MAX
    }

    /// There is a name left for the connection that a peer asks for, if one is needed.
    pub open spec fn can_connect(self, from: PeerId, message: RelayConnect) -> bool {
        self.games.contains_key(message.game_id) ==> match self.games[message.game_id] {
            Game::Remote(game) => self.can_forward_connect(from, game.peer_id, message),
            Game::Local(_) => true,
        }
    }

    /// There is a name left for a connection of a player to a game.
    pub open spec fn can_accept(self, game_id: LocalGameId) -> bool {
        self.games.contains_key(game_id.0) ==> match self.games[game_id.0] {
            Game::Remote(game) => self.peers.contains_key(game.peer_id.0)
                ==> self.peers[game.peer_id.0].next_connection_id.id < u64::MAX,
            Game::Local(_) => true,
        }
    }

    /// Passes a request for a connection on, and joins the two halves of the connection.
    pub open spec fn forward_connect(
        self,
        from: PeerId,
        to: PeerId,
        to_game_id: RemoteGameId,
        message: RelayConnect,
    ) -> RelayView {
        if !self.forwards_connect(from, to, message) {
            self
        } else if self.peers[to.0].handle.closed {
            self.remove_peer(to)
        } else {
            let from_connection_id = ConnectionId { id: message.connection_id, local: false };
            let to_connection_id = self.peers[to.0].next_connection_id;
            let peers = self.peers.insert(
                to.0,
                PeerView {
                    next_connection_id: to_connection_id.succ(),
                    relayed_connections: self.peers[to.0].relayed_connections.insert(
                        to_connection_id.number(),
                        RelayedConnection { peer: from, peer_connection_id: from_connection_id },
                    ),
                    ..self.peers[to.0].send(
                        InnerView::Connect(
                            RelayConnect {
                                game_id: to_game_id.0,
                                connection_id: to_connection_id.id,
                                hops: (message.hops + 1) as u64,
                            },
                        ),
                    )
                },
            );
            RelayView {
                peers: peers.insert(
                    from.0,
                    PeerView {
                        relayed_connections: peers[from.0].relayed_connections.insert(
                            from_connection_id.number(),
                            RelayedConnection { peer: to, peer_connection_id: to_connection_id },
                        ),
                        ..peers[from.0]
                    },
                ),
                ..self
            }
        }
    }

    /// A peer asks for a connection to a game.
    pub open spec fn handle_connect(
        self,
        from: PeerId,
        message: RelayConnect,
    ) -> (RelayView, Option<LocalConnect>) {
        if !self.games.contains_key(message.game_id) {
            (self, None)
        } else {
            match self.games[message.game_id] {
                Game::Local(game) => (
                    self,
                    self.connect_local(
                        from,
                        LocalGameId(message.game_id),
                        ConnectionId { id: message.connection_id, local: false },
                        game.addr,
                    ),
                ),
                Game::Remote(game) => (
                    self.forward_connect(from, game.peer_id, game.remote_game_id, message),
                    None,
                ),
            }
        }
    }

    /// A peer sends bytes on a connection: they go to the game, or to the peer that holds the
    /// other half.
    pub open spec fn handle_data(self, from: PeerId, message: RelayDataView) -> RelayView {
        let number = (ConnectionId {
            id: message.connection_id,
            local: message.connection_local,
        }).number();
        if !self.peers.contains_key(from.0) {
            self
        } else if self.peers[from.0].local_connections.contains_key(number) {
            let connection = self.peers[from.0].local_connections[number];
            let local_connections = if connection.closed {
                self.peers[from.0].local_connections.remove(number)
            } else {
                self.peers[from.0].local_connections.insert(number, connection.send(message.data))
            };
            RelayView {
                peers: self.peers.insert(
                    from.0,
                    PeerView { local_connections, ..self.peers[from.0] },
                ),
                ..self
            }
        } else if self.peers[from.0].relayed_connections.contains_key(number) {
            let other = self.peers[from.0].relayed_connections[number];
            if !self.peers.contains_key(other.peer.0) {
                self
            } else if self.peers[other.peer.0].handle.closed {
                self.remove_peer(other.peer)
            } else {
                RelayView {
                    peers: self.peers.insert(
                        other.peer.0,
                        self.peers[other.peer.0].send(
                            data_on(other.peer_connection_id, message.data),
                        ),
                    ),
                    ..self
                }
            }
        } else {
            self
        }
    }

    /// A peer ends a connection: both halves are forgotten.
    pub open spec fn handle_close_connection(
        self,
        from: PeerId,
        message: RelayCloseConnection,
    ) -> RelayView {
        let number = (ConnectionId {
            id: message.connection_id,
            local: message.connection_local,
        }).number();
        if !self.peers.contains_key(from.0) {
            self
        } else {
            let peer = self.peers[from.0];
            let peers = self.peers.insert(
                from.0,
                PeerView {
                    local_connections: peer.local_connections.remove(number),
                    relayed_connections: peer.relayed_connections.remove(number),
                    ..peer
                },
            );
            let other = peer.relayed_connections[number];
            if peer.relayed_connections.contains_key(number) && peers.contains_key(other.peer.0) {
                RelayView {
                    peers: peers.insert(
                        other.peer.0,
                        PeerView {
                            relayed_connections: peers[other.peer.0].relayed_connections.remove(
                                other.peer_connection_id.number(),
                            ),
                            ..peers[other.peer.0]
                        },
                    ),
                    ..self
                }
            } else {
                RelayView { peers, ..self }
            }
        }
    }

    /// A player connected to the listener that stands in for a game: the peer that advertised
    /// the game is asked for a connection.
    pub open spec fn accept_game_connection(
        self,
        game_id: LocalGameId,
    ) -> (RelayView, Option<AcceptedConnection>) {
        if !self.games.contains_key(game_id.0) {
            (self, None)
        } else {
            match self.games[game_id.0] {
                Game::Local(_) => (self, None),
                Game::Remote(game) => {
                    if !self.peers.contains_key(game.peer_id.0) {
                        (self, None)
                    } else {
                        let peer = self.peers[game.peer_id.0];
                        let connection_id = peer.next_connection_id;
                        let queue = QueueView {
                            queue: Seq::<Seq<u8>>::empty(),
                            closed: peer.handle.closed,
                        };
                        let changed = PeerView {
                            next_connection_id: connection_id.succ(),
                            local_connections: peer.local_connections.insert(
                                connection_id.number(),
                                queue,
                            ),
                            ..peer.send(
                                InnerView::Connect(
                                    RelayConnect {
                                        game_id: game.remote_game_id.0,
                                        connection_id: connection_id.id,
                                        hops: 0,
                                    },
                                ),
                            )
                        };
                        (
                            RelayView { peers: self.peers.insert(game.peer_id.0, changed), ..self },
                            Some(
                                AcceptedConnection {
                                    peer_id: game.peer_id,
                                    connection_id,
                                    requested: !peer.handle.closed,
                                },
                            ),
                        )
                    }
                },
            }
        }
    }

    /// A connection to a game on the local network was made for a peer, which is told so by an
    /// empty message.
    pub open spec fn add_game_connection(
        self,
        from: PeerId,
        connection_id: ConnectionId,
    ) -> RelayView {
        if !self.peers.contains_key(from.0) {
            self
        } else if self.peers[from.0].handle.closed {
            self.remove_peer(from)
        } else {
            RelayView {
                peers: self.peers.insert(
                    from.0,
                    PeerView {
                        local_connections: self.peers[from.0].local_connections.insert(
                            connection_id.number(),
                            QueueView::fresh(),
                        ),
                        ..self.peers[from.0].send(data_on(connection_id, Seq::empty()))
                    },
                ),
                ..self
            }
        }
    }

    /// A listener ended: it is forgotten, unless the game has another one by now, which is asked
    /// to stay. The second result says whether it was.
    pub open spec fn remove_game_listener(self, game_id: LocalGameId) -> (RelayView, bool) {
        if !self.games.contains_key(game_id.0) {
            (self, false)
        } else {
            match self.games[game_id.0] {
                Game::Remote(RemoteGame { peer_id, remote_game_id, listener: Some(listener) }) => {
                    let kept = !listener.handle.closed;
                    let left = if kept {
                        Some(
                            RemoteGameListener {
                                handle: listener.handle.kept_alive(),
                                addr: listener.addr,
                            },
                        )
                    } else {
                        None
                    };
                    let game = Game::Remote(
                        RemoteGame { peer_id, remote_game_id, listener: left },
                    );
                    (
                        RelayView {
                            games: self.games.insert(game_id.0, game),
                            listen_ports: if kept {
                                self.listen_ports
                            } else {
                                self.listen_ports.remove(listener.addr.port)
                            },
                            ..self
                        },
                        kept,
                    )
                },
                _ => (self, false),
            }
        }
    }
}

} // verus!
