//! What each operation of the relay does: to whom it speaks, what it notes, and what it leaves as
//! it was.
use crate::addr::SocketAddr;
use crate::game::GameListenerHandle;
use crate::protocol::{
    InnerView, RelayCloseConnection, RelayConnect, RelayDataView, RelayGameView,
};
use crate::queue::QueueView;
use crate::relay::dispatch::{MessageView, RelayAction};
use crate::relay::ids::{ConnectionId, LocalGameId, PeerId, RemoteGameId};
use crate::relay::model::{
    AcceptedConnection, Game, ListenerUse, LocalConnect, LocalGame, PeerView, RelayView,
    RelayedConnection, RemoteGame, RemoteGameListener, MAX_FORWARDING_HOPS,
};
use crate::relay::Relay;
use vstd::prelude::*;

verus! {

/// Nothing but the peers changed.
pub open spec fn keeps_all_but_peers(before: RelayView, after: RelayView) -> bool {
    &&& after.next_peer == before.next_peer
    &&& after.next_game == before.next_game
    &&& after.games == before.games
    &&& after.local_games == before.local_games
    &&& after.listen_ports == before.listen_ports
    &&& after.discovery_port == before.discovery_port
}

/// No peers came or went, and only these two may have changed.
pub open spec fn keeps_peers_but(before: RelayView, after: RelayView, p: u64, q: u64) -> bool {
    &&& forall|r: u64| #[trigger] after.peers.contains_key(r) <==> before.peers.contains_key(r)
    &&& forall|r: u64| #[trigger]
        before.peers.contains_key(r) && r != p && r != q ==> after.peers[r] == before.peers[r]
}

/// A peer's games, connections and names stayed as they were.
pub open spec fn keeps_all_but_handle(before: PeerView, after: PeerView) -> bool {
    &&& after.games == before.games
    &&& after.local_connections == before.local_connections
    &&& after.relayed_connections == before.relayed_connections
    &&& after.next_connection_id == before.next_connection_id
}

/// A queue got exactly this message at its end.
pub open spec fn got(
    before: QueueView<Option<InnerView>>,
    after: QueueView<Option<InnerView>>,
    message: InnerView,
) -> bool {
    &&& after.closed == before.closed
    &&& after.queue.len() == before.queue.len() + 1
    &&& forall|i: int| 0 <= i < before.queue.len() ==> #[trigger] after.queue[i] == before.queue[i]
    &&& after.queue[before.queue.len() as int] == Some(message)
}

/// Apart from the peers, the relay forgot the games of some peers and the ports of the listeners
/// of these, and nothing else.
pub open spec fn forgot_games_of(before: RelayView, after: RelayView, gone: Set<u64>) -> bool {
    &&& forall|g: u64| #[trigger]
        after.games.contains_key(g) <==> before.games.contains_key(g) && !(
        before.games[g] matches Game::Remote(game) && gone.contains(game.peer_id.0))
    &&& forall|g: u64| #[trigger] after.games.contains_key(g) ==> after.games[g] == before.games[g]
    &&& forall|port: u16| #[trigger]
        after.listen_ports.contains(port) <==> before.listen_ports.contains(port) && !(
        exists|g: u64| #[trigger] listens_for(before, g, gone, port))
    &&& after.next_peer == before.next_peer
    &&& after.next_game == before.next_game
    &&& after.local_games == before.local_games
    &&& after.discovery_port == before.discovery_port
}

/// A game of one of some peers has its listener on a port.
pub open spec fn listens_for(relay: RelayView, g: u64, peers: Set<u64>, port: u16) -> bool {
    &&& relay.games.contains_key(g)
    &&& relay.games[g] matches Game::Remote(game) && peers.contains(game.peer_id.0) && (
    game.listener matches Some(listener) && listener.addr.port == port)
}

/// Some peers are gone, and the others are as they were.
pub open spec fn forgot_peers(before: RelayView, after: RelayView, gone: Set<u64>) -> bool {
    &&& forall|p: u64| #[trigger]
        after.peers.contains_key(p) <==> before.peers.contains_key(p) && !gone.contains(p)
    &&& forall|p: u64| #[trigger] after.peers.contains_key(p) ==> after.peers[p] == before.peers[p]
}

/// The peers, other than one, whose connection is gone.
pub open spec fn closed_peers(relay: RelayView, except: Option<PeerId>) -> Set<u64> {
    Set::new(
        |p: u64|
            relay.peers.contains_key(p) && relay.peers[p].handle.closed && !(
            except matches Some(peer_id) && peer_id.0 == p),
    )
}

/// Every peer other than one that can be reached got exactly this message, and those that cannot
/// be reached are gone.
pub open spec fn all_got(
    before: RelayView,
    after: RelayView,
    message: InnerView,
    except: Option<PeerId>,
) -> bool {
    &&& forall|p: u64| #[trigger]
        after.peers.contains_key(p) <==> before.peers.contains_key(p) && !closed_peers(
            before,
            except,
        ).contains(p)
    &&& forall|p: u64| #[trigger]
        after.peers.contains_key(p) ==> if except == Some(PeerId(p)) {
            after.peers[p] == before.peers[p]
        } else {
            &&& got(before.peers[p].handle, after.peers[p].handle, message)
            &&& keeps_all_but_handle(before.peers[p], after.peers[p])
        }
}

proof fn lemma_removal(relay: RelayView, gone: Set<u64>)
    ensures
        forgot_peers(relay, relay.remove_peers(gone), gone),
        forgot_games_of(relay, relay.remove_peers(gone), gone),
{
    let after = relay.remove_peers(gone);
    assert forall|port: u16| #[trigger]
        after.listen_ports.contains(port) <==> relay.listen_ports.contains(port) && !(
        exists|g: u64| #[trigger] listens_for(relay, g, gone, port)) by {
        if relay.ports_of(gone).contains(port) {
            let g = choose|g: u64| #[trigger]
                relay.games.contains_key(g) && relay.games[g].owned_by(gone)
                    && relay.games[g].port() == Some(port);
            assert(listens_for(relay, g, gone, port));
        }
        if exists|g: u64| #[trigger] listens_for(relay, g, gone, port) {
            let g = choose|g: u64| #[trigger] listens_for(relay, g, gone, port);
            assert(relay.games.contains_key(g));
        }
    }
}

proof fn lemma_broadcast(relay: RelayView, message: InnerView, except: Option<PeerId>)
    ensures
        all_got(relay, relay.broadcast_message(message, except), message, except),
        forgot_games_of(
            relay,
            relay.broadcast_message(message, except),
            closed_peers(relay, except),
        ),
{
    let sent = relay.sent_to_all(message, except);
    let gone = closed_peers(relay, except);
    assert(gone =~= relay.unreachable_peers(except));
    lemma_removal(sent, gone);
    let after = relay.broadcast_message(message, except);
    assert forall|port: u16| #[trigger]
        after.listen_ports.contains(port) <==> relay.listen_ports.contains(port) && !(
        exists|g: u64| #[trigger] listens_for(relay, g, gone, port)) by {
        assert forall|g: u64| listens_for(sent, g, gone, port) == listens_for(
            relay,
            g,
            gone,
            port,
        ) by {}
    }
}

/// Forgetting a peer takes the peer, its games and the ports of their listeners, and nothing
/// else.
pub proof fn forgetting_a_peer(relay: RelayView, peer_id: PeerId)
    ensures
        forgot_peers(relay, relay.remove_peer(peer_id), set![peer_id.0]),
        forgot_games_of(relay, relay.remove_peer(peer_id), set![peer_id.0]),
{
    assert(set![peer_id.0] =~= Set::empty().insert(peer_id.0));
    lemma_removal(relay, set![peer_id.0]);
}

/// A new peer has the next number and the connection that it came with, and no games or other
/// connections; nothing else changes.
pub proof fn adding_a_peer(relay: RelayView, handle: QueueView<Option<InnerView>>)
    requires
        relay.next_peer < u64::MAX,
    ensures
        ({
            let after = relay.add_peer(handle);
            let peer = after.peers[relay.next_peer];
            &&& forall|p: u64| #[trigger]
                after.peers.contains_key(p) <==> relay.peers.contains_key(p) || p
                    == relay.next_peer
            &&& forall|p: u64| #[trigger]
                relay.peers.contains_key(p) && p != relay.next_peer ==> after.peers[p]
                    == relay.peers[p]
            &&& peer.handle == handle
            &&& peer.games.dom() == Set::<u64>::empty()
            &&& peer.local_connections.dom() == Set::<u128>::empty()
            &&& peer.relayed_connections.dom() == Set::<u128>::empty()
            &&& peer.next_connection_id == (ConnectionId { id: 0, local: false })
            &&& after.next_peer == relay.next_peer + 1
            &&& after.next_game == relay.next_game
            &&& after.games == relay.games
            &&& after.local_games == relay.local_games
            &&& after.listen_ports == relay.listen_ports
            &&& after.discovery_port == relay.discovery_port
        }),
{
    let peer = relay.add_peer(handle).peers[relay.next_peer];
    assert(peer.games.dom() =~= Set::<u64>::empty());
    assert(peer.local_connections.dom() =~= Set::<u128>::empty());
    assert(peer.relayed_connections.dom() =~= Set::<u128>::empty());
}

/// A relay at first knows no peers, no games and no ports.
pub proof fn starting_out(discovery_port: u16)
    ensures
        ({
            let relay = RelayView::fresh(discovery_port);
            &&& relay.peers.dom() == Set::<u64>::empty()
            &&& relay.games.dom() == Set::<u64>::empty()
            &&& relay.local_games.dom() == Set::<SocketAddr>::empty()
            &&& relay.listen_ports == Set::<u16>::empty()
            &&& relay.next_peer == 0 && relay.next_game == 0
            &&& relay.discovery_port == discovery_port
        }),
{
    let relay = RelayView::fresh(discovery_port);
    assert(relay.peers.dom() =~= Set::<u64>::empty());
    assert(relay.games.dom() =~= Set::<u64>::empty());
    assert(relay.local_games.dom() =~= Set::<SocketAddr>::empty());
}

/// An announcement on the local network is passed over exactly if it comes from the port that the
/// relay announces from and speaks of a port of its own. Any other reaches every peer whose
/// connection is up, with the whole description and the number of the game at that address, which
/// is a new one if the game is new.
pub proof fn announcing_a_local_game(relay: RelayView, from: SocketAddr, port: u16, motd: Seq<u8>)
    requires
        relay.wf(),
        relay.next_game < u64::MAX || relay.local_games.contains_key(
            SocketAddr { host: from.host, port },
        ),
    ensures
        ({
            let after = relay.add_local_game(from, port, motd);
            let addr = SocketAddr { host: from.host, port };
            let known = relay.local_games.contains_key(addr);
            let number = if known {
                relay.local_games[addr].0
            } else {
                relay.next_game
            };
            let gone = closed_peers(relay, None);
            if from.port == relay.discovery_port && relay.listen_ports.contains(port) {
                after == relay
            } else {
                &&& all_got(
                    relay,
                    after,
                    InnerView::Game(RelayGameView { id: number, motd, hops: 0 }),
                    None,
                )
                &&& forall|a: SocketAddr| #[trigger]
                    after.local_games.contains_key(a) <==> relay.local_games.contains_key(a) || a
                        == addr
                &&& forall|a: SocketAddr| #[trigger]
                    relay.local_games.contains_key(a) ==> after.local_games[a]
                        == relay.local_games[a]
                &&& after.local_games[addr] == LocalGameId(number)
                &&& after.games.contains_key(number)
                &&& after.games[number] == Game::Local(LocalGame { addr })
                &&& forall|g: u64| #[trigger]
                    after.games.contains_key(g) <==> g == number || (relay.games.contains_key(g)
                        && !(relay.games[g] matches Game::Remote(game) && gone.contains(
                        game.peer_id.0,
                    )))
                &&& forall|g: u64| #[trigger]
                    after.games.contains_key(g) && g != number ==> after.games[g] == relay.games[g]
                &&& forall|at: u16| #[trigger]
                    after.listen_ports.contains(at) <==> relay.listen_ports.contains(at) && !(
                    exists|g: u64| #[trigger] listens_for(relay, g, gone, at))
                &&& after.next_game == relay.next_game + if known {
                    0int
                } else {
                    1int
                }
                &&& after.next_peer == relay.next_peer
                &&& after.discovery_port == relay.discovery_port
            }
        }),
{
    if !relay.is_own_announcement(from, port) {
        let addr = SocketAddr { host: from.host, port };
        assert(from.at_port(port) == addr);
        let noted = relay.with_local_game(addr);
        let number = noted.local_games[addr].0;
        let message = InnerView::Game(RelayGameView { id: number, motd, hops: 0 });
        lemma_broadcast(noted, message, None);
        let gone = closed_peers(relay, None);
        assert(closed_peers(noted, None) =~= gone);
        assert forall|g: u64, at: u16|
            #![trigger listens_for(noted, g, gone, at)]
            #![trigger listens_for(relay, g, gone, at)]
            listens_for(noted, g, gone, at) == listens_for(relay, g, gone, at) by {}
    }
}

/// An advertisement of a peer that is known gives the game the number that it had, or the next
/// one. A listener that is open is kept, and announced again; otherwise the one that was opened is
/// put in its place, and announced; and nothing is announced only if there is none. Nothing else
/// changes but the ports of the listeners.
pub proof fn taking_in_a_game(
    relay: RelayView,
    from: PeerId,
    message: RelayGameView,
    opened: Option<SocketAddr>,
)
    requires
        relay.wf(),
        relay.peers.contains_key(from.0),
        relay.next_game < u64::MAX || relay.peers[from.0].games.contains_key(message.id),
    ensures
        ({
            let (after, added) = relay.add_game(from, message, opened);
            let known = relay.peers[from.0].games.contains_key(message.id);
            let number = if known {
                relay.peers[from.0].games[message.id].local_game_id.0
            } else {
                relay.next_game
            };
            let had = if known {
                relay.games[number]->Remote_0.listener
            } else {
                None
            };
            let open = had is Some && !had->0.handle.closed;
            let has = if open {
                Some(
                    RemoteGameListener {
                        handle: GameListenerHandle { keepalive: true, closed: false },
                        addr: had->0.addr,
                    },
                )
            } else if opened is Some {
                Some(
                    RemoteGameListener {
                        handle: GameListenerHandle { keepalive: false, closed: false },
                        addr: opened->0,
                    },
                )
            } else {
                None
            };
            &&& added is Some
            &&& added->0.local_game_id == LocalGameId(number)
            &&& added->0.listener == if open {
                ListenerUse::Kept
            } else if opened is Some {
                ListenerUse::Opened
            } else {
                ListenerUse::Missing
            }
            &&& has is None ==> added->0.advertised_port is None
            &&& has is Some ==> added->0.advertised_port == Some(has->0.addr.port)
            &&& after.games.contains_key(number)
            &&& after.games[number] == Game::Remote(
                RemoteGame {
                    peer_id: from,
                    remote_game_id: RemoteGameId(message.id),
                    listener: has,
                },
            )
            &&& forall|g: u64| #[trigger]
                after.games.contains_key(g) <==> relay.games.contains_key(g) || g == number
            &&& forall|g: u64| #[trigger]
                relay.games.contains_key(g) && g != number ==> after.games[g] == relay.games[g]
            &&& keeps_peers_but(relay, after, from.0, from.0)
            &&& after.peers[from.0].handle == relay.peers[from.0].handle
            &&& after.peers[from.0].local_connections == relay.peers[from.0].local_connections
            &&& after.peers[from.0].relayed_connections == relay.peers[from.0].relayed_connections
            &&& after.peers[from.0].next_connection_id == relay.peers[from.0].next_connection_id
            &&& forall|r: u64| #[trigger]
                after.peers[from.0].games.contains_key(r)
                    <==> relay.peers[from.0].games.contains_key(r) || r == message.id
            &&& after.peers[from.0].games[message.id].local_game_id == LocalGameId(number)
            &&& forall|r: u64| #[trigger]
                relay.peers[from.0].games.contains_key(r) ==> after.peers[from.0].games[r]
                    == relay.peers[from.0].games[r]
            &&& forall|port: u16| #[trigger]
                after.listen_ports.contains(port) <==> {
                    ||| !open && opened is Some && opened->0.port == port
                    ||| relay.listen_ports.contains(port) && !(had is Some && !open
                        && had->0.addr.port == port)
                }
            &&& after.next_game == relay.next_game + if known {
                0int
            } else {
                1int
            }
            &&& after.next_peer == relay.next_peer
            &&& after.local_games == relay.local_games
            &&& after.discovery_port == relay.discovery_port
        }),
{
    if relay.peers[from.0].games.contains_key(message.id) {
        assert(relay.advertised_as(
            from.0,
            message.id,
            relay.peers[from.0].games[message.id].local_game_id.0,
        ));
    }
}

/// An advertisement is passed on, with the whole description and one hop more, to every other
/// peer that can be reached, unless it was passed on twice already.
pub proof fn passing_on_a_game(
    relay: RelayView,
    from: PeerId,
    game_id: LocalGameId,
    message: RelayGameView,
)
    ensures
        ({
            let after = relay.forward_game(from, game_id, message);
            if message.hops >= 2 {
                after == relay
            } else {
                &&& all_got(
                    relay,
                    after,
                    InnerView::Game(
                        RelayGameView {
                            id: game_id.0,
                            motd: message.motd,
                            hops: (message.hops + 1) as u64,
                        },
                    ),
                    Some(from),
                )
                &&& forgot_games_of(relay, after, closed_peers(relay, Some(from)))
            }
        }),
{
    lemma_broadcast(
        relay,
        InnerView::Game(
            RelayGameView {
                id: game_id.0,
                motd: message.motd,
                hops: (message.hops + 1) as u64,
            },
        ),
        Some(from),
    );
}

/// An advertisement of a peer that is known is taken in and passed on; any other changes nothing.
pub proof fn handling_a_game(
    relay: RelayView,
    from: PeerId,
    message: RelayGameView,
    opened: Option<SocketAddr>,
)
    ensures
        ({
            let (noted, added) = relay.add_game(from, message, opened);
            if relay.peers.contains_key(from.0) {
                &&& added is Some
                &&& relay.handle_game(from, message, opened) == (
                    noted.forward_game(from, added->0.local_game_id, message),
                    added,
                )
            } else {
                relay.handle_game(from, message, opened) == (relay, added) && added is None
            }
        }),
{
}

/// A request for a connection to a game on the local network is answered with where the game is,
/// one for a game of a peer is passed on to that peer, and one for an unknown game is dropped.
pub proof fn asking_for_a_connection(relay: RelayView, from: PeerId, message: RelayConnect)
    ensures
        ({
            let (after, connect) = relay.handle_connect(from, message);
            if !relay.games.contains_key(message.game_id) {
                after == relay && connect is None
            } else {
                match relay.games[message.game_id] {
                    Game::Local(game) => {
                        &&& after == relay
                        &&& relay.peers.contains_key(from.0) ==> connect == Some(
                            LocalConnect {
                                peer_id: from,
                                connection_id: ConnectionId {
                                    id: message.connection_id,
                                    local: false,
                                },
                                game_id: LocalGameId(message.game_id),
                                addr: game.addr,
                            },
                        )
                        &&& !relay.peers.contains_key(from.0) ==> connect is None
                    },
                    Game::Remote(game) => {
                        &&& connect is None
                        &&& after == relay.forward_connect(
                            from,
                            game.peer_id,
                            game.remote_game_id,
                            message,
                        )
                    },
                }
            }
        }),
{
}

/// A connection to make to a game on the local network is the one that was asked for, for a peer
/// that is known.
pub proof fn connecting_locally(
    relay: RelayView,
    from: PeerId,
    game_id: LocalGameId,
    connection_id: ConnectionId,
    addr: SocketAddr,
)
    ensures
        relay.connect_local(from, game_id, connection_id, addr) is Some
            <==> relay.peers.contains_key(from.0),
        relay.connect_local(from, game_id, connection_id, addr) matches Some(connect) ==> {
            &&& connect.peer_id == from
            &&& connect.connection_id == connection_id
            &&& connect.game_id == game_id
            &&& connect.addr == addr
        },
{
}

/// A request is passed on if it was not passed on twice already, both peers are known, and the one
/// that asks has no other connection passed on under that name. Then the other peer is asked under
/// its next name, with one hop more, and each half of the connection is noted with the other,
/// beside all the connections that there are already. If the other peer cannot be reached, it is
/// forgotten.
pub proof fn passing_on_a_request(
    relay: RelayView,
    from: PeerId,
    to: PeerId,
    to_game_id: RemoteGameId,
    message: RelayConnect,
)
    requires
        relay.peers.contains_key(to.0) ==> relay.peers[to.0].next_connection_id.id < u64::MAX,
    ensures
        ({
            let after = relay.forward_connect(from, to, to_game_id, message);
            let from_id = ConnectionId { id: message.connection_id, local: false };
            let to_id = relay.peers[to.0].next_connection_id;
            if !(message.hops < 2 && relay.peers.contains_key(from.0) && relay.peers.contains_key(
                to.0,
            ) && !relay.peers[from.0].relayed_connections.contains_key(from_id.number())) {
                after == relay
            } else if relay.peers[to.0].handle.closed {
                forgot_peers(relay, after, set![to.0]) && forgot_games_of(
                    relay,
                    after,
                    set![to.0],
                )
            } else {
                &&& keeps_all_but_peers(relay, after)
                &&& keeps_peers_but(relay, after, from.0, to.0)
                &&& got(
                    relay.peers[to.0].handle,
                    after.peers[to.0].handle,
                    InnerView::Connect(
                        RelayConnect {
                            game_id: to_game_id.0,
                            connection_id: to_id.id,
                            hops: (message.hops + 1) as u64,
                        },
                    ),
                )
                &&& from != to ==> after.peers[from.0].handle == relay.peers[from.0].handle
                &&& after.peers[to.0].next_connection_id == (ConnectionId {
                    id: (to_id.id + 1) as u64,
                    local: to_id.local,
                })
                &&& from != to ==> after.peers[from.0].next_connection_id
                    == relay.peers[from.0].next_connection_id
                &&& after.peers[from.0].games == relay.peers[from.0].games
                &&& after.peers[to.0].games == relay.peers[to.0].games
                &&& after.peers[from.0].local_connections == relay.peers[from.0].local_connections
                &&& after.peers[to.0].local_connections == relay.peers[to.0].local_connections
                &&& after.peers[from.0].relayed_connections.contains_key(from_id.number())
                &&& after.peers[from.0].relayed_connections[from_id.number()] == (
                RelayedConnection { peer: to, peer_connection_id: to_id })
                &&& from != to || from_id.number() != to_id.number() ==> {
                    &&& after.peers[to.0].relayed_connections.contains_key(to_id.number())
                    &&& after.peers[to.0].relayed_connections[to_id.number()] == (
                    RelayedConnection { peer: from, peer_connection_id: from_id })
                }
                &&& forall|k: u128| #[trigger]
                    after.peers[from.0].relayed_connections.contains_key(k)
                        <==> relay.peers[from.0].relayed_connections.contains_key(k) || k
                        == from_id.number() || (from == to && k == to_id.number())
                &&& forall|k: u128| #[trigger]
                    after.peers[to.0].relayed_connections.contains_key(k)
                        <==> relay.peers[to.0].relayed_connections.contains_key(k) || k
                        == to_id.number() || (from == to && k == from_id.number())
                &&& forall|k: u128| #[trigger]
                    relay.peers[from.0].relayed_connections.contains_key(k) && !(from == to && k
                        == to_id.number()) ==> after.peers[from.0].relayed_connections[k]
                        == relay.peers[from.0].relayed_connections[k]
                &&& forall|k: u128| #[trigger]
                    relay.peers[to.0].relayed_connections.contains_key(k) && k != to_id.number()
                        ==> after.peers[to.0].relayed_connections[k]
                        == relay.peers[to.0].relayed_connections[k]
            }
        }),
{
    forgetting_a_peer(relay, to);
}

/// Bytes from a peer go to the game or player that they are for, and to no one else; or on to the
/// other half of the connection, as they are; and a connection or a peer that cannot be reached
/// for that is forgotten.
pub proof fn carrying_data(relay: RelayView, from: PeerId, message: RelayDataView)
    ensures
        ({
            let after = relay.handle_data(from, message);
            let k = (ConnectionId {
                id: message.connection_id,
                local: message.connection_local,
            }).number();
            let peer = relay.peers[from.0];
            let other = peer.relayed_connections[k];
            if !relay.peers.contains_key(from.0) {
                after == relay
            } else if peer.local_connections.contains_key(k) {
                &&& keeps_all_but_peers(relay, after)
                &&& keeps_peers_but(relay, after, from.0, from.0)
                &&& after.peers[from.0].handle == peer.handle
                &&& after.peers[from.0].games == peer.games
                &&& after.peers[from.0].relayed_connections == peer.relayed_connections
                &&& after.peers[from.0].next_connection_id == peer.next_connection_id
                &&& forall|j: u128| #[trigger]
                    after.peers[from.0].local_connections.contains_key(j)
                        <==> peer.local_connections.contains_key(j) && !(j == k
                        && peer.local_connections[k].closed)
                &&& forall|j: u128| #[trigger]
                    peer.local_connections.contains_key(j) && j != k
                        ==> after.peers[from.0].local_connections[j] == peer.local_connections[j]
                &&& !peer.local_connections[k].closed ==> {
                    let connection = after.peers[from.0].local_connections[k];
                    &&& connection.queue == peer.local_connections[k].queue.push(message.data)
                    &&& !connection.closed
                }
            } else if !peer.relayed_connections.contains_key(k) || !relay.peers.contains_key(
                other.peer.0,
            ) {
                after == relay
            } else if relay.peers[other.peer.0].handle.closed {
                forgot_peers(relay, after, set![other.peer.0]) && forgot_games_of(
                    relay,
                    after,
                    set![other.peer.0],
                )
            } else {
                &&& keeps_all_but_peers(relay, after)
                &&& keeps_peers_but(relay, after, other.peer.0, other.peer.0)
                &&& keeps_all_but_handle(relay.peers[other.peer.0], after.peers[other.peer.0])
                &&& got(
                    relay.peers[other.peer.0].handle,
                    after.peers[other.peer.0].handle,
                    InnerView::Data(
                        RelayDataView {
                            connection_id: other.peer_connection_id.id,
                            connection_local: other.peer_connection_id.local,
                            data: message.data,
                        },
                    ),
                )
            }
        }),
{
    let k = (ConnectionId { id: message.connection_id, local: message.connection_local }).number();
    forgetting_a_peer(relay, relay.peers[from.0].relayed_connections[k].peer);
}

/// Ending a connection forgets it under that name, and the other half of it, and nothing else.
pub proof fn ending_a_connection(relay: RelayView, from: PeerId, message: RelayCloseConnection)
    ensures
        ({
            let after = relay.handle_close_connection(from, message);
            let k = (ConnectionId {
                id: message.connection_id,
                local: message.connection_local,
            }).number();
            let peer = relay.peers[from.0];
            let relayed = peer.relayed_connections.contains_key(k);
            let other = peer.relayed_connections[k];
            let q = if relayed {
                other.peer.0
            } else {
                from.0
            };
            if !relay.peers.contains_key(from.0) {
                after == relay
            } else {
                &&& keeps_all_but_peers(relay, after)
                &&& keeps_peers_but(relay, after, from.0, q)
                &&& forall|p: u64| #[trigger]
                    relay.peers.contains_key(p) ==> {
                        &&& after.peers[p].handle == relay.peers[p].handle
                        &&& after.peers[p].games == relay.peers[p].games
                        &&& after.peers[p].next_connection_id == relay.peers[p].next_connection_id
                        &&& forall|j: u128| #[trigger]
                            after.peers[p].local_connections.contains_key(j)
                                <==> relay.peers[p].local_connections.contains_key(j) && !(p
                                == from.0 && j == k)
                        &&& forall|j: u128| #[trigger]
                            after.peers[p].local_connections.contains_key(j)
                                ==> after.peers[p].local_connections[j]
                                == relay.peers[p].local_connections[j]
                        &&& forall|j: u128| #[trigger]
                            after.peers[p].relayed_connections.contains_key(j)
                                <==> relay.peers[p].relayed_connections.contains_key(j) && !(p
                                == from.0 && j == k) && !(relayed && p == other.peer.0 && j
                                == other.peer_connection_id.number())
                        &&& forall|j: u128| #[trigger]
                            after.peers[p].relayed_connections.contains_key(j)
                                ==> after.peers[p].relayed_connections[j]
                                == relay.peers[p].relayed_connections[j]
                    }
            }
        }),
{
}

/// A player that connects to the listener of a peer's game has the peer asked for a connection
/// under its next name, to the game as the peer numbers it. If the peer cannot be reached, the
/// player's connection is over; players of any other game are dropped.
pub proof fn accepting_a_player(relay: RelayView, game_id: LocalGameId)
    requires
        relay.wf(),
        relay.games.contains_key(game_id.0) && relay.games[game_id.0] is Remote
            ==> relay.peers[relay.games[game_id.0]->Remote_0.peer_id.0].next_connection_id.id
            < u64::MAX,
    ensures
        ({
            let (after, accepted) = relay.accept_game_connection(game_id);
            if !(relay.games.contains_key(game_id.0) && relay.games[game_id.0] is Remote) {
                after == relay && accepted is None
            } else {
                let game = relay.games[game_id.0]->Remote_0;
                let p = game.peer_id.0;
                let id = relay.peers[p].next_connection_id;
                let up = !relay.peers[p].handle.closed;
                &&& accepted == Some(
                    AcceptedConnection { peer_id: game.peer_id, connection_id: id, requested: up },
                )
                &&& keeps_all_but_peers(relay, after)
                &&& keeps_peers_but(relay, after, p, p)
                &&& !up ==> after.peers[p].handle == relay.peers[p].handle
                &&& up ==> got(
                    relay.peers[p].handle,
                    after.peers[p].handle,
                    InnerView::Connect(
                        RelayConnect {
                            game_id: game.remote_game_id.0,
                            connection_id: id.id,
                            hops: 0,
                        },
                    ),
                )
                &&& after.peers[p].games == relay.peers[p].games
                &&& after.peers[p].relayed_connections == relay.peers[p].relayed_connections
                &&& after.peers[p].next_connection_id == (ConnectionId {
                    id: (id.id + 1) as u64,
                    local: id.local,
                })
                &&& forall|j: u128| #[trigger]
                    after.peers[p].local_connections.contains_key(j)
                        <==> relay.peers[p].local_connections.contains_key(j) || j == id.number()
                &&& forall|j: u128| #[trigger]
                    relay.peers[p].local_connections.contains_key(j) && j != id.number()
                        ==> after.peers[p].local_connections[j]
                        == relay.peers[p].local_connections[j]
                &&& after.peers[p].local_connections[id.number()].queue.len() == 0
                &&& after.peers[p].local_connections[id.number()].closed == !up
            }
        }),
{
}

/// A connection to a game that was made for a peer is noted under the name that the peer gave it,
/// and the peer is told by an empty message on it. A peer that cannot be reached is forgotten.
pub proof fn adding_a_game_connection(
    relay: RelayView,
    from: PeerId,
    connection_id: ConnectionId,
)
    ensures
        ({
            let after = relay.add_game_connection(from, connection_id);
            let peer = relay.peers[from.0];
            let k = connection_id.number();
            if !relay.peers.contains_key(from.0) {
                after == relay
            } else if peer.handle.closed {
                forgot_peers(relay, after, set![from.0]) && forgot_games_of(
                    relay,
                    after,
                    set![from.0],
                )
            } else {
                &&& keeps_all_but_peers(relay, after)
                &&& keeps_peers_but(relay, after, from.0, from.0)
                &&& got(
                    peer.handle,
                    after.peers[from.0].handle,
                    InnerView::Data(
                        RelayDataView {
                            connection_id: connection_id.id,
                            connection_local: connection_id.local,
                            data: Seq::empty(),
                        },
                    ),
                )
                &&& after.peers[from.0].games == peer.games
                &&& after.peers[from.0].relayed_connections == peer.relayed_connections
                &&& after.peers[from.0].next_connection_id == peer.next_connection_id
                &&& forall|j: u128| #[trigger]
                    after.peers[from.0].local_connections.contains_key(j)
                        <==> peer.local_connections.contains_key(j) || j == k
                &&& forall|j: u128| #[trigger]
                    peer.local_connections.contains_key(j) && j != k
                        ==> after.peers[from.0].local_connections[j] == peer.local_connections[j]
                &&& after.peers[from.0].local_connections[k].queue.len() == 0
                &&& !after.peers[from.0].local_connections[k].closed
            }
        }),
{
    forgetting_a_peer(relay, from);
}

/// When a listener ended, a game whose listener is gone has none any more, and its port is given
/// up; a listener that is still open is asked to stay; and nothing else changes.
pub proof fn removing_a_listener(relay: RelayView, game_id: LocalGameId)
    ensures
        ({
            let (after, kept) = relay.remove_game_listener(game_id);
            if !(relay.games.contains_key(game_id.0) && relay.games[game_id.0] is Remote
                && relay.games[game_id.0]->Remote_0.listener is Some) {
                after == relay && !kept
            } else {
                let game = relay.games[game_id.0]->Remote_0;
                let listener = game.listener->0;
                let now = after.games[game_id.0]->Remote_0;
                &&& kept == !listener.handle.closed
                &&& forall|g: u64| #[trigger]
                    after.games.contains_key(g) <==> relay.games.contains_key(g)
                &&& forall|g: u64| #[trigger]
                    relay.games.contains_key(g) && g != game_id.0 ==> after.games[g]
                        == relay.games[g]
                &&& after.games[game_id.0] is Remote
                &&& now.peer_id == game.peer_id
                &&& now.remote_game_id == game.remote_game_id
                &&& !kept ==> now.listener is None
                &&& kept ==> now.listener == Some(
                    RemoteGameListener {
                        handle: GameListenerHandle { keepalive: true, closed: false },
                        addr: listener.addr,
                    },
                )
                &&& forall|port: u16| #[trigger]
                    after.listen_ports.contains(port) <==> relay.listen_ports.contains(port) && (
                    kept || port != listener.addr.port)
                &&& after.peers == relay.peers
                &&& after.next_peer == relay.next_peer
                &&& after.next_game == relay.next_game
                &&& after.local_games == relay.local_games
                &&& after.discovery_port == relay.discovery_port
            }
        }),
{
}

/// Collecting what waits for a peer empties its queue, and that its connection is gone only marks
/// it so; and nothing else changes.
pub proof fn collecting_from_a_peer(relay: RelayView, peer_id: PeerId)
    ensures
        ({
            let drained = relay.drain_peer(peer_id);
            let closed = relay.close_peer(peer_id);
            let p = peer_id.0;
            if !relay.peers.contains_key(p) {
                drained == relay && closed == relay
            } else {
                &&& keeps_all_but_peers(relay, drained) && keeps_all_but_peers(relay, closed)
                &&& keeps_peers_but(relay, drained, p, p) && keeps_peers_but(relay, closed, p, p)
                &&& keeps_all_but_handle(relay.peers[p], drained.peers[p])
                &&& keeps_all_but_handle(relay.peers[p], closed.peers[p])
                &&& drained.peers[p].handle.queue.len() == 0
                &&& drained.peers[p].handle.closed == relay.peers[p].handle.closed
                &&& closed.peers[p].handle.queue == relay.peers[p].handle.queue
                &&& closed.peers[p].handle.closed
            }
        }),
{
}

/// Collecting what waits for a game empties its queue, and that its connection is gone only marks
/// it so; and nothing else changes.
pub proof fn collecting_from_a_connection(
    relay: RelayView,
    peer_id: PeerId,
    connection_id: ConnectionId,
)
    ensures
        ({
            let drained = relay.drain_connection(peer_id, connection_id);
            let closed = relay.close_connection(peer_id, connection_id);
            let p = peer_id.0;
            let k = connection_id.number();
            let known = relay.peers.contains_key(p)
                && relay.peers[p].local_connections.contains_key(k);
            &&& relay.has_connection(peer_id, connection_id) == known
            &&& !known ==> drained == relay && closed == relay
            &&& known ==> {
                let connection = relay.peers[p].local_connections[k];
                &&& relay.connection(peer_id, connection_id) == connection
                &&& changed_connection_only(relay, drained, p, k)
                &&& changed_connection_only(relay, closed, p, k)
                &&& drained.peers[p].local_connections[k].queue.len() == 0
                &&& drained.peers[p].local_connections[k].closed == connection.closed
                &&& closed.peers[p].local_connections[k].queue == connection.queue
                &&& closed.peers[p].local_connections[k].closed
            }
        }),
{
}

/// Only one connection of one peer to a game changed.
pub open spec fn changed_connection_only(
    before: RelayView,
    after: RelayView,
    p: u64,
    k: u128,
) -> bool {
    &&& keeps_all_but_peers(before, after)
    &&& keeps_peers_but(before, after, p, p)
    &&& after.peers[p].handle == before.peers[p].handle
    &&& after.peers[p].games == before.peers[p].games
    &&& after.peers[p].relayed_connections == before.peers[p].relayed_connections
    &&& after.peers[p].next_connection_id == before.peers[p].next_connection_id
    &&& forall|j: u128| #[trigger]
        after.peers[p].local_connections.contains_key(j)
            <==> before.peers[p].local_connections.contains_key(j)
    &&& forall|j: u128| #[trigger]
        before.peers[p].local_connections.contains_key(j) && j != k
            ==> after.peers[p].local_connections[j] == before.peers[p].local_connections[j]
}

/// That the listener of a game is gone only marks it so.
pub proof fn losing_a_listener(relay: RelayView, game_id: LocalGameId)
    ensures
        ({
            let after = relay.close_listener(game_id);
            if !(relay.games.contains_key(game_id.0) && relay.games[game_id.0] is Remote
                && relay.games[game_id.0]->Remote_0.listener is Some) {
                after == relay
            } else {
                let game = relay.games[game_id.0]->Remote_0;
                let listener = game.listener->0;
                &&& forall|g: u64| #[trigger]
                    after.games.contains_key(g) <==> relay.games.contains_key(g)
                &&& forall|g: u64| #[trigger]
                    relay.games.contains_key(g) && g != game_id.0 ==> after.games[g]
                        == relay.games[g]
                &&& after.games[game_id.0] == Game::Remote(
                    RemoteGame {
                        peer_id: game.peer_id,
                        remote_game_id: game.remote_game_id,
                        listener: Some(
                            RemoteGameListener {
                                handle: GameListenerHandle {
                                    keepalive: listener.handle.keepalive,
                                    closed: true,
                                },
                                addr: listener.addr,
                            },
                        ),
                    },
                )
                &&& after.peers == relay.peers
                &&& after.listen_ports == relay.listen_ports
                &&& after.next_peer == relay.next_peer
                &&& after.next_game == relay.next_game
                &&& after.local_games == relay.local_games
                &&& after.discovery_port == relay.discovery_port
            }
        }),
{
}

/// Each event is taken in by the operation that it is for, and answered with what that operation
/// asks for. A peer comes with a connection that is up and on which nothing waits.
pub proof fn dispatching(relay: RelayView, opened: Option<SocketAddr>)
    ensures
        ({
            let handle = QueueView { queue: Seq::empty(), closed: false };
            &&& relay.handle_message(MessageView::AcceptPeer, opened) == (
                relay.add_peer(handle),
                RelayAction::ServePeer(PeerId(relay.next_peer)),
            )
            &&& relay.handle_message(MessageView::AddPeer, opened) == (
                relay.add_peer(handle),
                RelayAction::ReportPeer(PeerId(relay.next_peer)),
            )
        }),
        forall|game_id: LocalGameId|
            #![trigger relay.handle_message(MessageView::AcceptGameConnection(game_id), opened)]
            {
                let (after, accepted) = relay.accept_game_connection(game_id);
                relay.handle_message(MessageView::AcceptGameConnection(game_id), opened) == (
                    after,
                    match accepted {
                        Some(accepted) => RelayAction::ServeGameConnection(accepted),
                        None => RelayAction::Nothing,
                    },
                )
            },
        forall|peer_id: PeerId, connection_id: ConnectionId, game_id: LocalGameId|
            #[trigger] relay.handle_message(
                MessageView::AddGameConnection(peer_id, connection_id, game_id),
                opened,
            ) == (relay.add_game_connection(peer_id, connection_id), RelayAction::Nothing),
        forall|from: SocketAddr, port: u16, motd: Seq<u8>|
            #[trigger] relay.handle_message(MessageView::AddLocalGame(from, port, motd), opened)
                == (relay.add_local_game(from, port, motd), RelayAction::Nothing),
        forall|game_id: LocalGameId|
            #![trigger relay.handle_message(MessageView::RemoveGameListener(game_id), opened)]
            {
                let (after, kept) = relay.remove_game_listener(game_id);
                relay.handle_message(MessageView::RemoveGameListener(game_id), opened) == (
                    after,
                    if kept {
                        RelayAction::KeepListener(game_id)
                    } else {
                        RelayAction::Nothing
                    },
                )
            },
        forall|peer_id: PeerId|
            #[trigger] relay.handle_message(MessageView::RemovePeer(peer_id), opened) == (
                relay.remove_peer(peer_id),
                RelayAction::Nothing,
            ),
        forall|from: PeerId, message: Option<InnerView>|
            #[trigger] relay.handle_message(MessageView::Recv(from, message), opened)
                == relay.handle_peer_message(from, message, opened),
{
}

/// Each message from a peer is taken in by the operation that it is for, and answered with what
/// that operation asks for.
pub proof fn dispatching_a_peer_message(
    relay: RelayView,
    from: PeerId,
    opened: Option<SocketAddr>,
)
    ensures
        relay.handle_peer_message(from, None, opened) == (relay, RelayAction::Nothing),
        forall|message: RelayGameView|
            #![trigger relay.handle_peer_message(from, Some(InnerView::Game(message)), opened)]
            {
                let (after, added) = relay.handle_game(from, message, opened);
                relay.handle_peer_message(from, Some(InnerView::Game(message)), opened) == (
                    after,
                    match added {
                        Some(added) => RelayAction::OfferGame(added),
                        None => RelayAction::Nothing,
                    },
                )
            },
        forall|message: RelayConnect|
            #![trigger relay.handle_peer_message(from, Some(InnerView::Connect(message)), opened)]
            {
                let (after, connect) = relay.handle_connect(from, message);
                relay.handle_peer_message(from, Some(InnerView::Connect(message)), opened) == (
                    after,
                    match connect {
                        Some(connect) => RelayAction::ConnectLocal(connect),
                        None => RelayAction::Nothing,
                    },
                )
            },
        forall|message: RelayDataView|
            #[trigger] relay.handle_peer_message(from, Some(InnerView::Data(message)), opened)
                == (relay.handle_data(from, message), RelayAction::Nothing),
        forall|message: RelayCloseConnection|
            #[trigger] relay.handle_peer_message(
                from,
                Some(InnerView::CloseConnection(message)),
                opened,
            ) == (relay.handle_close_connection(from, message), RelayAction::Nothing),
{
}

/// The relay can take in every event but one that needs a number or a name when all are used up.
pub proof fn taking_in_events(relay: RelayView, message: MessageView)
    requires
        relay.wf(),
    ensures
        relay.can_handle(message) <==> match message {
            MessageView::AcceptPeer => relay.next_peer < u64::MAX,
            MessageView::AddPeer => relay.next_peer < u64::MAX,
            MessageView::AcceptGameConnection(game_id) => relay.games.contains_key(game_id.0)
                && relay.games[game_id.0] is Remote
                ==> relay.peers[relay.games[game_id.0]->Remote_0.peer_id.0].next_connection_id.id
                < u64::MAX,
            MessageView::AddLocalGame(from, port, _) => {
                ||| relay.next_game < u64::MAX
                ||| from.port == relay.discovery_port && relay.listen_ports.contains(port)
                ||| relay.local_games.contains_key(SocketAddr { host: from.host, port })
            },
            MessageView::Recv(from, Some(InnerView::Game(message))) => {
                ||| relay.next_game < u64::MAX
                ||| !relay.peers.contains_key(from.0)
                ||| relay.peers[from.0].games.contains_key(message.id)
            },
            MessageView::Recv(from, Some(InnerView::Connect(message))) => {
                let game = relay.games[message.game_id];
                ||| !relay.games.contains_key(message.game_id)
                ||| game is Local
                ||| message.hops >= 2
                ||| !relay.peers.contains_key(from.0)
                ||| relay.peers[from.0].relayed_connections.contains_key(
                    (ConnectionId { id: message.connection_id, local: false }).number(),
                )
                ||| relay.peers[game->Remote_0.peer_id.0].next_connection_id.id < u64::MAX
            },
            _ => true,
        },
{
    if let MessageView::AddLocalGame(from, port, _) = message {
        assert(from.at_port(port) == (SocketAddr { host: from.host, port }));
    }
}

/// A listener is wanted exactly for an advertisement of a peer that is known, of a game that has
/// no listener, or one that is gone.
pub proof fn wanting_a_listener(relay: RelayView, message: MessageView)
    requires
        relay.wf(),
    ensures
        relay.wants_listener(message) <==> match message {
            MessageView::Recv(from, Some(InnerView::Game(message))) => {
                &&& relay.peers.contains_key(from.0)
                &&& relay.peers[from.0].games.contains_key(message.id) ==> {
                    let number = relay.peers[from.0].games[message.id].local_game_id.0;
                    let listener = relay.games[number]->Remote_0.listener;
                    listener is None || listener->0.handle.closed
                }
            },
            _ => false,
        },
{
    if let MessageView::Recv(from, Some(InnerView::Game(message))) = message {
        if relay.peers.contains_key(from.0) && relay.peers[from.0].games.contains_key(message.id) {
            assert(relay.advertised_as(
                from.0,
                message.id,
                relay.peers[from.0].games[message.id].local_game_id.0,
            ));
        }
    }
}

/// The relay stands for what its books hold: each peer with all its queues, games, connections
/// and names, each game, each address, each port and both counters.
pub proof fn reading_the_books(relay: Relay)
    ensures
        forall|p: u64| #[trigger]
            relay@.peers.contains_key(p) <==> relay.peers.map@.contains_key(p),
        forall|p: u64| #[trigger]
            relay@.peers.contains_key(p) ==> {
                let peer = relay.peers.map@[p];
                let view = relay@.peers[p];
                &&& view.handle.closed == peer.handle.closed
                &&& view.handle.queue.len() == peer.handle.queue@.len()
                &&& forall|i: int|
                    0 <= i < peer.handle.queue@.len() ==> #[trigger] view.handle.queue[i]
                        == peer.handle.queue@[i]@
                &&& view.games == peer.games@
                &&& view.relayed_connections == peer.relayed_connections@
                &&& view.next_connection_id == peer.next_connection_id
                &&& forall|k: u128| #[trigger]
                    view.local_connections.contains_key(k)
                        <==> peer.local_connections@.contains_key(k)
                &&& forall|k: u128| #[trigger]
                    view.local_connections.contains_key(k) ==> {
                        let tx = peer.local_connections@[k].tx;
                        &&& view.local_connections[k].closed == tx.closed
                        &&& view.local_connections[k].queue.len() == tx.queue@.len()
                        &&& forall|i: int|
                            0 <= i < tx.queue@.len()
                                ==> #[trigger] view.local_connections[k].queue[i] == tx.queue@[i]@
                    }
            },
        relay@.games == relay.games.map@,
        relay@.local_games == relay.local_games@,
        relay@.next_peer == relay.peers.next_key,
        relay@.next_game == relay.games.next_key,
        relay@.listen_ports == relay.listen_ports@,
        relay@.discovery_port == relay.discovery_port,
{
}

/// The limit on how often something is passed on.
pub proof fn limits()
    ensures
        MAX_FORWARDING_HOPS == 2,
{
}

} // verus!
