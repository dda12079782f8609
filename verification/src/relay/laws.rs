//! What holds of the relay as a whole.
use crate::addr::SocketAddr;
use crate::protocol::{
    InnerView, RelayCloseConnection, RelayConnect, RelayDataView, RelayGameView,
};
use crate::queue::QueueView;
use crate::relay::dispatch::{MessageView, RelayAction};
use crate::relay::ids::{connection_numbers_differ, ConnectionId, LocalGameId, PeerId, RemoteGameId};
use crate::relay::link::{data_on, GameLink, LinkAction, LinkEvent};
use crate::relay::model::{
    AcceptedConnection, Game, LocalConnect, RelayView, RelayedConnection, MAX_FORWARDING_HOPS,
};
use vstd::prelude::*;

verus! {

/// A message was not passed on more often than is allowed.
pub open spec fn within_hops(message: Option<InnerView>) -> bool {
    match message {
        Some(InnerView::Game(message)) => message.hops <= MAX_FORWARDING_HOPS,
        Some(InnerView::Connect(message)) => message.hops <= MAX_FORWARDING_HOPS,
        _ => true,
    }
}

/// A queue got at most one more message, which was not passed on more often than is allowed.
pub open spec fn grew_within_hops(
    before: QueueView<Option<InnerView>>,
    after: QueueView<Option<InnerView>>,
) -> bool {
    ||| after == before
    ||| exists|message: Option<InnerView>|
        within_hops(message) && after == #[trigger] before.send(message)
}

/// Whatever happens, a peer is sent at most one message, and none that was passed on more often
/// than is allowed.
pub proof fn sent_messages_stay_within_hops(
    relay: RelayView,
    message: MessageView,
    opened: Option<SocketAddr>,
    p: u64,
)
    requires
        relay.wf(),
        relay.peers.contains_key(p),
        relay.handle_message(message, opened).0.peers.contains_key(p),
    ensures
        grew_within_hops(
            relay.peers[p].handle,
            relay.handle_message(message, opened).0.peers[p].handle,
        ),
{
}

/// An advertisement is not sent back to the peer that it came from.
pub proof fn advertisement_is_not_sent_back(
    relay: RelayView,
    from: PeerId,
    message: RelayGameView,
    opened: Option<SocketAddr>,
)
    requires
        relay.peers.contains_key(from.0),
    ensures
        relay.handle_game(from, message, opened).0.peers.contains_key(from.0),
        relay.handle_game(from, message, opened).0.peers[from.0].handle
            == relay.peers[from.0].handle,
{
}

/// An advertisement that has come too far reaches no other peer.
pub proof fn distant_advertisement_is_kept(
    relay: RelayView,
    from: PeerId,
    message: RelayGameView,
    opened: Option<SocketAddr>,
    p: u64,
)
    requires
        relay.peers.contains_key(p),
        message.hops >= MAX_FORWARDING_HOPS,
    ensures
        relay.handle_game(from, message, opened).0.peers.contains_key(p),
        relay.handle_game(from, message, opened).0.peers[p].handle == relay.peers[p].handle,
{
}

/// An advertisement that has not come too far reaches every other peer whose connection is up,
/// as one that was passed on once more.
pub proof fn near_advertisement_is_passed_on(
    relay: RelayView,
    from: PeerId,
    message: RelayGameView,
    opened: Option<SocketAddr>,
    p: u64,
)
    requires
        relay.peers.contains_key(from.0),
        relay.peers.contains_key(p),
        p != from.0,
        !relay.peers[p].handle.closed,
        message.hops < MAX_FORWARDING_HOPS,
    ensures
        relay.handle_game(from, message, opened).0.peers.contains_key(p),
        relay.handle_game(from, message, opened).0.peers[p].handle == relay.peers[p].handle.send(
            Some(
                InnerView::Game(
                    RelayGameView {
                        id: relay.game_number(from, message.id),
                        motd: message.motd,
                        hops: (message.hops + 1) as u64,
                    },
                ),
            ),
        ),
{
}

/// Numbers are handed out in order, each at most once.
pub proof fn numbers_are_never_reused(
    relay: RelayView,
    message: MessageView,
    opened: Option<SocketAddr>,
)
    requires
        relay.wf(),
        relay.can_handle(message),
    ensures
        relay.handle_message(message, opened).0.next_peer >= relay.next_peer,
        relay.handle_message(message, opened).0.next_game >= relay.next_game,
        forall|p: u64| #[trigger]
            relay.handle_message(message, opened).0.peers.contains_key(p)
                && !relay.peers.contains_key(p) ==> relay.next_peer <= p
                < relay.handle_message(message, opened).0.next_peer,
        forall|g: u64| #[trigger]
            relay.handle_message(message, opened).0.games.contains_key(g)
                && !relay.games.contains_key(g) ==> relay.next_game <= g
                < relay.handle_message(message, opened).0.next_game,
{
    let after = relay.handle_message(message, opened).0;
    assert(after.next_peer >= relay.next_peer);
    assert(after.next_game >= relay.next_game);
    assert forall|p: u64| #[trigger]
        after.peers.contains_key(p) && !relay.peers.contains_key(p) implies relay.next_peer <= p
        < after.next_peer by {
        lemma_new_peer(relay, message, opened, p);
    }
    assert forall|g: u64| #[trigger]
        after.games.contains_key(g) && !relay.games.contains_key(g) implies relay.next_game <= g
        < after.next_game by {
        lemma_new_game(relay, message, opened, g);
    }
}

proof fn lemma_new_peer(
    relay: RelayView,
    message: MessageView,
    opened: Option<SocketAddr>,
    p: u64,
)
    requires
        relay.can_handle(message),
        relay.handle_message(message, opened).0.peers.contains_key(p),
        !relay.peers.contains_key(p),
    ensures
        relay.next_peer <= p < relay.handle_message(message, opened).0.next_peer,
{
}

proof fn lemma_new_game(
    relay: RelayView,
    message: MessageView,
    opened: Option<SocketAddr>,
    g: u64,
)
    requires
        relay.wf(),
        relay.can_handle(message),
        relay.handle_message(message, opened).0.games.contains_key(g),
        !relay.games.contains_key(g),
    ensures
        relay.next_game <= g < relay.handle_message(message, opened).0.next_game,
{
    if let MessageView::Recv(from, Some(InnerView::Game(message))) = message {
        if relay.peers.contains_key(from.0) && relay.peers[from.0].games.contains_key(message.id) {
            assert(relay.advertised_as(
                from.0,
                message.id,
                relay.peers[from.0].games[message.id].local_game_id.0,
            ));
        }
    }
}

/// A game on the local network keeps its number.
pub proof fn local_games_keep_their_numbers(
    relay: RelayView,
    message: MessageView,
    opened: Option<SocketAddr>,
    addr: SocketAddr,
)
    requires
        relay.local_games.contains_key(addr),
    ensures
        relay.handle_message(message, opened).0.local_games.contains_key(addr),
        relay.handle_message(message, opened).0.local_games[addr] == relay.local_games[addr],
{
}

/// A game of a peer keeps its number for as long as the peer is known.
pub proof fn remote_games_keep_their_numbers(
    relay: RelayView,
    message: MessageView,
    opened: Option<SocketAddr>,
    p: u64,
    r: u64,
)
    requires
        relay.wf(),
        relay.peers.contains_key(p),
        relay.peers[p].games.contains_key(r),
        relay.handle_message(message, opened).0.peers.contains_key(p),
    ensures
        relay.handle_message(message, opened).0.peers[p].games.contains_key(r),
        relay.handle_message(message, opened).0.peers[p].games[r] == relay.peers[p].games[r],
{
}

/// An announcement that this relay sent out itself is not taken in.
pub proof fn own_announcement_is_ignored(
    relay: RelayView,
    from: SocketAddr,
    port: u16,
    motd: Seq<u8>,
)
    requires
        from.port == relay.discovery_port,
        relay.listen_ports.contains(port),
    ensures
        relay.add_local_game(from, port, motd) == relay,
{
}

/// A game has a listener on a port.
pub open spec fn listens_on(relay: RelayView, g: u64, port: u16) -> bool {
    relay.games.contains_key(g) && relay.games[g].port() == Some(port)
}

/// The ports that the relay counts as its own are those of the listeners, and no two games share
/// one.
pub open spec fn ports_agree(relay: RelayView) -> bool {
    &&& forall|port: u16| #[trigger]
        relay.listen_ports.contains(port) <==> exists|g: u64| #[trigger] listens_on(relay, g, port)
    &&& forall|g: u64, h: u64, port: u16| #[trigger]
        listens_on(relay, g, port) && #[trigger] listens_on(relay, h, port) ==> g == h
}

/// A listener that is opened for an event gets a port that no other game's listener has.
pub open spec fn opens_free_port(
    relay: RelayView,
    message: MessageView,
    opened: Option<SocketAddr>,
) -> bool {
    match (message, opened) {
        (MessageView::Recv(from, Some(InnerView::Game(message))), Some(addr)) => {
            relay.needs_listener(from, message.id) ==> forall|g: u64| #[trigger]
                listens_on(relay, g, addr.port) ==> g == relay.game_number(from, message.id)
        },
        _ => true,
    }
}

/// Every port that the relay counts as its own is that of some listener.
pub open spec fn own_ports_have_listeners(relay: RelayView) -> bool {
    forall|port: u16| #[trigger]
        relay.listen_ports.contains(port) ==> exists|g: u64| #[trigger] listens_on(relay, g, port)
}

/// Whatever happens, every port that the relay counts as its own is that of some listener.
pub proof fn own_ports_keep_listeners(
    relay: RelayView,
    message: MessageView,
    opened: Option<SocketAddr>,
)
    requires
        relay.wf(),
        own_ports_have_listeners(relay),
    ensures
        own_ports_have_listeners(relay.handle_message(message, opened).0),
{
    let after = relay.handle_message(message, opened).0;
    assert forall|port: u16| #[trigger] after.listen_ports.contains(port) implies exists|g: u64|
        #[trigger] listens_on(after, g, port) by {
        if relay.listen_ports.contains(port) {
            let g = choose|g: u64| #[trigger] listens_on(relay, g, port);
            lemma_listener_stays(relay, message, opened, g, port);
        } else {
            lemma_new_port(relay, message, opened, port);
        }
    }
}

/// A listener whose port still counts as the relay's own is still there, or another one is in its
/// place.
proof fn lemma_listener_stays(
    relay: RelayView,
    message: MessageView,
    opened: Option<SocketAddr>,
    g: u64,
    port: u16,
)
    requires
        relay.wf(),
        listens_on(relay, g, port),
        relay.handle_message(message, opened).0.listen_ports.contains(port),
    ensures
        exists|h: u64| #[trigger] listens_on(relay.handle_message(message, opened).0, h, port),
{
    let after = relay.handle_message(message, opened).0;
    match message {
        MessageView::Recv(from, Some(InnerView::Game(message))) => {
            if relay.peers.contains_key(from.0) {
                let number = relay.game_number(from, message.id);
                let noted = relay.add_game(from, message, opened).0;
                if relay.peers[from.0].games.contains_key(message.id) {
                    assert(relay.advertised_as(from.0, message.id, number));
                }
                assert(listens_on(noted, g, port) || listens_on(noted, number, port));
                if listens_on(noted, g, port) {
                    assert(listens_on(after, g, port));
                } else {
                    assert(listens_on(after, number, port));
                }
            } else {
                assert(listens_on(after, g, port));
            }
        },
        MessageView::AddLocalGame(from, at, motd) => {
            if !relay.is_own_announcement(from, at) {
                let noted = relay.with_local_game(from.at_port(at));
                assert(noted.games.contains_key(g));
                assert(noted.games[g] == relay.games[g]);
            }
            assert(listens_on(after, g, port));
        },
        _ => {
            assert(listens_on(after, g, port));
        },
    }
}

/// A port that is new among the relay's own is that of a listener that was opened.
proof fn lemma_new_port(
    relay: RelayView,
    message: MessageView,
    opened: Option<SocketAddr>,
    port: u16,
)
    requires
        !relay.listen_ports.contains(port),
        relay.handle_message(message, opened).0.listen_ports.contains(port),
    ensures
        exists|g: u64| #[trigger] listens_on(relay.handle_message(message, opened).0, g, port),
{
    let after = relay.handle_message(message, opened).0;
    if let MessageView::Recv(from, Some(InnerView::Game(message))) = message {
        let number = relay.game_number(from, message.id);
        let noted = relay.add_game(from, message, opened).0;
        assert(listens_on(noted, number, port));
        assert(listens_on(after, number, port));
    }
}

/// The ports that the relay counts as its own stay those of the listeners, as long as a new
/// listener does not get the port of one that the relay still has on its books.
pub proof fn ports_stay_in_agreement(
    relay: RelayView,
    message: MessageView,
    opened: Option<SocketAddr>,
)
    requires
        relay.wf(),
        relay.can_handle(message),
        ports_agree(relay),
        opens_free_port(relay, message, opened),
    ensures
        ports_agree(relay.handle_message(message, opened).0),
{
    let after = relay.handle_message(message, opened).0;
    match message {
        MessageView::AddLocalGame(from, port, motd) => {
            if !relay.is_own_announcement(from, port) {
                let noted = relay.with_local_game(from.at_port(port));
                lemma_same_listeners(relay, noted);
                lemma_broadcast_keeps_agreement(
                    noted,
                    InnerView::Game(
                        RelayGameView {
                            id: noted.local_games[from.at_port(port)].0,
                            motd,
                            hops: 0,
                        },
                    ),
                    None,
                );
            }
        },
        MessageView::RemoveGameListener(game_id) => {
            lemma_remove_listener_keeps_agreement(relay, game_id);
        },
        MessageView::RemovePeer(peer_id) => {
            lemma_removal_keeps_agreement(relay, Set::empty().insert(peer_id.0));
        },
        MessageView::AddGameConnection(peer_id, _, _) => {
            lemma_removal_keeps_agreement(relay, Set::empty().insert(peer_id.0));
            lemma_same_listeners_if_same_games(relay, after);
        },
        MessageView::Recv(from, Some(InnerView::Game(message))) => {
            if relay.peers.contains_key(from.0) {
                lemma_add_game_keeps_agreement(relay, from, message, opened);
                let noted = relay.add_game(from, message, opened).0;
                lemma_broadcast_keeps_agreement(
                    noted,
                    InnerView::Game(
                        RelayGameView {
                            id: relay.game_number(from, message.id),
                            motd: message.motd,
                            hops: (message.hops + 1) as u64,
                        },
                    ),
                    Some(from),
                );
            }
        },
        MessageView::Recv(from, Some(InnerView::Connect(message))) => {
            if relay.games.contains_key(message.game_id) {
                if let Game::Remote(game) = relay.games[message.game_id] {
                    lemma_removal_keeps_agreement(relay, Set::empty().insert(game.peer_id.0));
                }
            }
            lemma_same_listeners_if_same_games(relay, after);
        },
        MessageView::Recv(from, Some(InnerView::Data(message))) => {
            let number = (ConnectionId {
                id: message.connection_id,
                local: message.connection_local,
            }).number();
            let other = relay.peers[from.0].relayed_connections[number];
            lemma_removal_keeps_agreement(relay, Set::empty().insert(other.peer.0));
            lemma_same_listeners_if_same_games(relay, after);
        },
        _ => {
            lemma_same_listeners_if_same_games(relay, after);
        },
    }
}

/// The agreement is about nothing but the listeners.
proof fn lemma_same_listeners(relay: RelayView, other: RelayView)
    requires
        ports_agree(relay),
        other.listen_ports == relay.listen_ports,
        forall|g: u64, port: u16|
            listens_on(relay, g, port) == #[trigger] listens_on(other, g, port),
    ensures
        ports_agree(other),
{
    assert forall|port: u16| #[trigger] other.listen_ports.contains(port) <==> exists|g: u64|
        #[trigger] listens_on(other, g, port) by {
        if relay.listen_ports.contains(port) {
            let g = choose|g: u64| #[trigger] listens_on(relay, g, port);
            assert(listens_on(other, g, port));
        }
        if exists|g: u64| #[trigger] listens_on(other, g, port) {
            let g = choose|g: u64| #[trigger] listens_on(other, g, port);
            assert(listens_on(relay, g, port));
        }
    }
}

proof fn lemma_same_listeners_if_same_games(relay: RelayView, other: RelayView)
    requires
        ports_agree(relay),
    ensures
        other.games == relay.games && other.listen_ports == relay.listen_ports ==> ports_agree(
            other,
        ),
{
    if other.games == relay.games && other.listen_ports == relay.listen_ports {
        lemma_same_listeners(relay, other);
    }
}

proof fn lemma_removal_keeps_agreement(relay: RelayView, gone: Set<u64>)
    requires
        ports_agree(relay),
    ensures
        ports_agree(relay.remove_peers(gone)),
{
    let after = relay.remove_peers(gone);
    assert forall|g: u64, port: u16| #[trigger]
        listens_on(after, g, port) implies listens_on(relay, g, port) by {}
    assert forall|port: u16| #[trigger] after.listen_ports.contains(port) <==> exists|g: u64|
        #[trigger] listens_on(after, g, port) by {
        if after.listen_ports.contains(port) {
            let g = choose|g: u64| #[trigger] listens_on(relay, g, port);
            assert(!relay.games[g].owned_by(gone));
            assert(listens_on(after, g, port));
        }
        if exists|g: u64| #[trigger] listens_on(after, g, port) {
            let g = choose|g: u64| #[trigger] listens_on(after, g, port);
            assert(listens_on(relay, g, port));
            if relay.ports_of(gone).contains(port) {
                let h = choose|h: u64| #[trigger]
                    relay.games.contains_key(h) && relay.games[h].owned_by(gone)
                        && relay.games[h].port() == Some(port);
                assert(listens_on(relay, h, port));
            }
        }
    }
}

proof fn lemma_broadcast_keeps_agreement(
    relay: RelayView,
    message: InnerView,
    except: Option<PeerId>,
)
    requires
        ports_agree(relay),
    ensures
        ports_agree(relay.broadcast_message(message, except)),
{
    let sent = relay.sent_to_all(message, except);
    lemma_same_listeners(relay, sent);
    lemma_removal_keeps_agreement(sent, relay.unreachable_peers(except));
}

proof fn lemma_remove_listener_keeps_agreement(relay: RelayView, game_id: LocalGameId)
    requires
        ports_agree(relay),
    ensures
        ports_agree(relay.remove_game_listener(game_id).0),
{
    let after = relay.remove_game_listener(game_id).0;
    assert forall|g: u64, port: u16| #[trigger]
        listens_on(after, g, port) implies listens_on(relay, g, port) by {}
    assert forall|port: u16| #[trigger] after.listen_ports.contains(port) <==> exists|g: u64|
        #[trigger] listens_on(after, g, port) by {
        if after.listen_ports.contains(port) {
            let g = choose|g: u64| #[trigger] listens_on(relay, g, port);
            assert(listens_on(after, g, port));
        }
        if exists|g: u64| #[trigger] listens_on(after, g, port) {
            let g = choose|g: u64| #[trigger] listens_on(after, g, port);
            assert(listens_on(relay, g, port));
            if relay.games.contains_key(game_id.0) && relay.games[game_id.0].port() == Some(port) {
                assert(listens_on(relay, game_id.0, port));
            }
        }
    }
}

proof fn lemma_add_game_keeps_agreement(
    relay: RelayView,
    from: PeerId,
    message: RelayGameView,
    opened: Option<SocketAddr>,
)
    requires
        relay.wf(),
        relay.peers.contains_key(from.0),
        ports_agree(relay),
        opens_free_port(relay, MessageView::Recv(from, Some(InnerView::Game(message))), opened),
    ensures
        ports_agree(relay.add_game(from, message, opened).0),
{
    let after = relay.add_game(from, message, opened).0;
    let number = relay.game_number(from, message.id);
    let game = relay.advertised_game(from, message.id);
    if relay.peers[from.0].games.contains_key(message.id) {
        assert(relay.advertised_as(from.0, message.id, number));
        assert(relay.games[number] == Game::Remote(game));
    } else {
        assert(!relay.games.contains_key(number));
    }
    assert forall|g: u64, port: u16|
        g != number implies #[trigger] listens_on(after, g, port) == listens_on(
        relay,
        g,
        port,
    ) by {}
    let kept = game.is_listening();
    assert forall|port: u16|
        kept implies #[trigger] listens_on(after, number, port) == listens_on(
        relay,
        number,
        port,
    ) by {}
    assert forall|port: u16|
        !kept implies #[trigger] listens_on(after, number, port) == (opened matches Some(addr)
        && addr.port == port) by {}
    assert forall|g: u64, h: u64, port: u16| #[trigger]
        listens_on(after, g, port) && #[trigger] listens_on(after, h, port) implies g == h by {
        if g != number {
            assert(listens_on(relay, g, port));
        }
        if h != number {
            assert(listens_on(relay, h, port));
        }
        if kept {
            if g == number {
                assert(listens_on(relay, number, port));
            }
            if h == number {
                assert(listens_on(relay, number, port));
            }
        }
    }
    assert forall|port: u16| #[trigger] after.listen_ports.contains(port) <==> exists|g: u64|
        #[trigger] listens_on(after, g, port) by {
        if after.listen_ports.contains(port) {
            if !kept && opened is Some && opened->0.port == port {
                assert(listens_on(after, number, port));
            } else {
                let g = choose|g: u64| #[trigger] listens_on(relay, g, port);
                assert(listens_on(after, g, port));
            }
        }
        if exists|g: u64| #[trigger] listens_on(after, g, port) {
            let g = choose|g: u64| #[trigger] listens_on(after, g, port);
            if g != number || kept {
                assert(listens_on(relay, g, port));
                if !kept && game.listener is Some && game.listener->0.addr.port == port {
                    assert(listens_on(relay, number, port));
                }
            }
        }
    }
}

/// A relay without games has no ports, and that a listener is gone does not touch the agreement
/// until the relay acts on it.
pub proof fn ports_agree_at_first(relay: RelayView, discovery_port: u16, game_id: LocalGameId)
    ensures
        ports_agree(RelayView::fresh(discovery_port)),
        ports_agree(relay) ==> ports_agree(relay.close_listener(game_id)),
{
    let fresh = RelayView::fresh(discovery_port);
    assert forall|g: u64, port: u16| !#[trigger] listens_on(fresh, g, port) by {}
    if ports_agree(relay) {
        lemma_same_listeners(relay, relay.close_listener(game_id));
    }
}

/// A game that this relay advertises on the local network is not taken in as a new one when the
/// advertisement comes back.
pub proof fn advertised_game_is_not_taken_in(
    relay: RelayView,
    from: PeerId,
    message: RelayGameView,
    opened: Option<SocketAddr>,
    own: SocketAddr,
    motd: Seq<u8>,
)
    requires
        relay.wf(),
        relay.can_add_game(from, message.id),
        ports_agree(relay),
        own.port == relay.discovery_port,
    ensures
        relay.add_game(from, message, opened).1 matches Some(added) ==> (
        added.advertised_port matches Some(port) ==> relay.add_game(
            from,
            message,
            opened,
        ).0.add_local_game(own, port, motd) == relay.add_game(from, message, opened).0),
{
    if relay.peers.contains_key(from.0) {
        let number = relay.game_number(from, message.id);
        let game = relay.advertised_game(from, message.id);
        if game.is_listening() {
            assert(relay.peers[from.0].games.contains_key(message.id));
            assert(relay.advertised_as(from.0, message.id, number));
            assert(listens_on(relay, number, game.listener->0.addr.port));
        }
    }
}

/// A message from a peer that is not known changes nothing.
pub proof fn unknown_peer_is_ignored(
    relay: RelayView,
    from: PeerId,
    message: Option<InnerView>,
    opened: Option<SocketAddr>,
)
    requires
        !relay.peers.contains_key(from.0),
    ensures
        relay.handle_peer_message(from, message, opened) == (relay, RelayAction::Nothing),
{
}

/// A message that says nothing changes nothing.
pub proof fn ping_is_ignored(relay: RelayView, from: PeerId, opened: Option<SocketAddr>)
    ensures
        relay.handle_peer_message(from, None, opened) == (relay, RelayAction::Nothing),
{
}

/// A peer that is forgotten leaves no game behind; nothing else changes but the ports. To forget
/// it again changes nothing.
pub proof fn removed_peer_leaves_nothing(relay: RelayView, peer_id: PeerId)
    ensures
        !relay.remove_peer(peer_id).peers.contains_key(peer_id.0),
        forall|g: u64| #[trigger]
            relay.remove_peer(peer_id).games.contains_key(g)
                ==> !(relay.games[g] matches Game::Remote(game) && game.peer_id == peer_id),
        forall|p: u64| #[trigger]
            relay.peers.contains_key(p) && p != peer_id.0 ==> relay.remove_peer(
                peer_id,
            ).peers.contains_key(p) && relay.remove_peer(peer_id).peers[p] == relay.peers[p],
        forall|g: u64| #[trigger]
            relay.games.contains_key(g) && !(relay.games[g] matches Game::Remote(game)
                && game.peer_id == peer_id) ==> relay.remove_peer(peer_id).games.contains_key(g)
                && relay.remove_peer(peer_id).games[g] == relay.games[g],
        relay.remove_peer(peer_id).local_games == relay.local_games,
        relay.remove_peer(peer_id).remove_peer(peer_id) == relay.remove_peer(peer_id),
{
    let gone = Set::empty().insert(peer_id.0);
    crate::relay::removal::lemma_remove_peers_union(relay, gone, gone);
    assert(gone.union(gone) =~= gone);
}

/// Whoever asks for a connection to a game that was announced on the local network is given one
/// to where the game waits.
pub proof fn announced_game_can_be_reached(
    relay: RelayView,
    from: SocketAddr,
    port: u16,
    motd: Seq<u8>,
    asking: PeerId,
    connection_id: u64,
    hops: u64,
)
    requires
        relay.wf(),
        relay.can_add_local_game(from, port),
        !relay.is_own_announcement(from, port),
        relay.add_local_game(from, port, motd).peers.contains_key(asking.0),
    ensures
        ({
            let after = relay.add_local_game(from, port, motd);
            let game_id = after.local_games[from.at_port(port)];
            after.handle_connect(asking, RelayConnect { game_id: game_id.0, connection_id, hops })
                == (
                after,
                Some(
                    LocalConnect {
                        peer_id: asking,
                        connection_id: ConnectionId { id: connection_id, local: false },
                        game_id,
                        addr: from.at_port(port),
                    },
                ),
            )
        }),
{
}

/// Whoever asks for a connection to a game that a peer advertised has that peer asked for it,
/// under the number that the peer knows the game by.
pub proof fn advertised_game_can_be_reached(
    relay: RelayView,
    from: PeerId,
    message: RelayGameView,
    opened: Option<SocketAddr>,
    asking: PeerId,
    request: RelayConnect,
)
    requires
        relay.wf(),
        relay.can_add_game(from, message.id),
        relay.peers.contains_key(from.0),
        !relay.peers[from.0].handle.closed,
        request.game_id == relay.game_number(from, message.id),
        ({
            let after = relay.add_game(from, message, opened).0;
            after.forwards_connect(asking, from, request)
        }),
    ensures
        ({
            let after = relay.add_game(from, message, opened).0;
            after.handle_connect(asking, request).0.peers[from.0].handle
                == relay.peers[from.0].handle.send(
                Some(
                    InnerView::Connect(
                        RelayConnect {
                            game_id: message.id,
                            connection_id: relay.peers[from.0].next_connection_id.id,
                            hops: (request.hops + 1) as u64,
                        },
                    ),
                ),
            )
        }),
{
}

/// A player that connects to the listener of a game has the peer that advertised the game asked
/// for a connection, under the number that the peer knows the game by.
pub proof fn player_is_announced_to_the_peer(relay: RelayView, from: PeerId, remote_game_id: u64)
    requires
        relay.wf(),
        relay.peers.contains_key(from.0),
        relay.peers[from.0].games.contains_key(remote_game_id),
        !relay.peers[from.0].handle.closed,
    ensures
        ({
            let game_id = relay.peers[from.0].games[remote_game_id].local_game_id;
            let connection_id = relay.peers[from.0].next_connection_id;
            let (after, accepted) = relay.accept_game_connection(game_id);
            &&& accepted == Some(
                AcceptedConnection { peer_id: from, connection_id, requested: true },
            )
            &&& after.has_connection(from, connection_id)
            &&& after.connection(from, connection_id) == QueueView::<Seq<u8>>::fresh()
            &&& after.peers[from.0].handle == relay.peers[from.0].handle.send(
                Some(
                    InnerView::Connect(
                        RelayConnect {
                            game_id: remote_game_id,
                            connection_id: connection_id.id,
                            hops: 0,
                        },
                    ),
                ),
            )
        }),
{
    assert(relay.advertised_as(
        from.0,
        remote_game_id,
        relay.peers[from.0].games[remote_game_id].local_game_id.0,
    ));
}

/// Bytes that a peer sends on a connection to a game or a player reach it unchanged, after those
/// that wait already, and change nothing else.
pub proof fn data_reaches_the_game(
    relay: RelayView,
    from: PeerId,
    connection_id: ConnectionId,
    data: Seq<u8>,
)
    requires
        relay.has_connection(from, connection_id),
        !relay.connection(from, connection_id).closed,
    ensures
        relay.handle_data(
            from,
            RelayDataView {
                connection_id: connection_id.id,
                connection_local: connection_id.local,
                data,
            },
        ) == relay.with_connection(
            from,
            connection_id,
            relay.connection(from, connection_id).send(data),
        ),
{
}

/// Bytes that a peer reads from its side of a connection, and carries over as it does, reach the
/// game or the player on this side unchanged.
pub proof fn carried_data_reaches_the_game(
    relay: RelayView,
    from: PeerId,
    link: GameLink,
    data: &[u8],
    action: LinkAction,
    opened: Option<SocketAddr>,
)
    requires
        relay.has_connection(from, link.connection_id),
        !relay.connection(from, link.connection_id).closed,
        link.asks_for(LinkEvent::Data(data), action),
    ensures
        action matches LinkAction::Send(message) && relay.handle_peer_message(
            from,
            message@,
            opened,
        ) == (
            relay.with_connection(
                from,
                link.connection_id,
                relay.connection(from, link.connection_id).send(data@),
            ),
            RelayAction::Nothing,
        ),
{
    data_reaches_the_game(relay, from, link.connection_id, data@);
}

/// When a peer's side of a connection ends, this side forgets the connection.
pub proof fn ended_connection_is_forgotten(
    relay: RelayView,
    from: PeerId,
    link: GameLink,
    action: LinkAction,
    opened: Option<SocketAddr>,
)
    requires
        relay.peers.contains_key(from.0),
        link.asks_for(LinkEvent::Closed, action),
    ensures
        action matches LinkAction::Finish(message) && !relay.handle_peer_message(
            from,
            message@,
            opened,
        ).0.has_connection(from, link.connection_id),
{
    closed_connection_is_forgotten(relay, from, link.connection_id, Seq::empty());
}

/// The two halves of a connection between two peers are joined.
pub open spec fn joined(
    relay: RelayView,
    a: PeerId,
    a_id: ConnectionId,
    b: PeerId,
    b_id: ConnectionId,
) -> bool {
    &&& relay.peers.contains_key(a.0)
    &&& relay.peers.contains_key(b.0)
    &&& relay.peers[a.0].relayed_connections.contains_key(a_id.number())
    &&& relay.peers[a.0].relayed_connections[a_id.number()] == (RelayedConnection {
        peer: b,
        peer_connection_id: b_id,
    })
    &&& relay.peers[b.0].relayed_connections.contains_key(b_id.number())
    &&& relay.peers[b.0].relayed_connections[b_id.number()] == (RelayedConnection {
        peer: a,
        peer_connection_id: a_id,
    })
}

/// A connection that is passed on is joined to the one that was asked for, unless both are one
/// and the same.
pub proof fn forwarded_connection_is_joined(
    relay: RelayView,
    from: PeerId,
    to: PeerId,
    to_game_id: RemoteGameId,
    message: RelayConnect,
)
    requires
        relay.forwards_connect(from, to, message),
        !relay.peers[to.0].handle.closed,
        from != to || relay.peers[to.0].next_connection_id != (ConnectionId {
            id: message.connection_id,
            local: false,
        }),
    ensures
        joined(
            relay.forward_connect(from, to, to_game_id, message),
            from,
            ConnectionId { id: message.connection_id, local: false },
            to,
            relay.peers[to.0].next_connection_id,
        ),
{
    connection_numbers_differ(
        relay.peers[to.0].next_connection_id,
        ConnectionId { id: message.connection_id, local: false },
    );
}

/// Bytes that a peer sends on one half of a joined connection go out unchanged on the other half,
/// and change nothing else.
pub proof fn joined_connection_carries_data(
    relay: RelayView,
    a: PeerId,
    a_id: ConnectionId,
    b: PeerId,
    b_id: ConnectionId,
    data: Seq<u8>,
)
    requires
        joined(relay, a, a_id, b, b_id),
        !relay.has_connection(a, a_id),
        !relay.peers[b.0].handle.closed,
    ensures
        relay.handle_data(
            a,
            RelayDataView { connection_id: a_id.id, connection_local: a_id.local, data },
        ) == relay.with_peer(b, relay.peers[b.0].send(data_on(b_id, data))),
{
}

/// Once a peer has ended a connection, neither half of it is known any more, and bytes that the
/// peer still sends on it change nothing.
pub proof fn closed_connection_is_forgotten(
    relay: RelayView,
    from: PeerId,
    connection_id: ConnectionId,
    data: Seq<u8>,
)
    requires
        relay.peers.contains_key(from.0),
    ensures
        ({
            let after = relay.handle_close_connection(
                from,
                RelayCloseConnection {
                    connection_id: connection_id.id,
                    connection_local: connection_id.local,
                },
            );
            let number = connection_id.number();
            let other = relay.peers[from.0].relayed_connections[number];
            &&& !after.has_connection(from, connection_id)
            &&& !after.peers[from.0].relayed_connections.contains_key(number)
            &&& relay.peers[from.0].relayed_connections.contains_key(number)
                && after.peers.contains_key(other.peer.0)
                ==> !after.peers[other.peer.0].relayed_connections.contains_key(
                other.peer_connection_id.number(),
            )
            &&& after.handle_data(
                from,
                RelayDataView {
                    connection_id: connection_id.id,
                    connection_local: connection_id.local,
                    data,
                },
            ) == after
        }),
{
}

/// Once a peer has ended a connection to another peer, bytes that the other peer still sends on it
/// change nothing.
pub proof fn closed_connection_is_forgotten_by_both(
    relay: RelayView,
    a: PeerId,
    a_id: ConnectionId,
    b: PeerId,
    b_id: ConnectionId,
    data: Seq<u8>,
)
    requires
        joined(relay, a, a_id, b, b_id),
        !relay.has_connection(b, b_id),
    ensures
        ({
            let after = relay.handle_close_connection(
                a,
                RelayCloseConnection { connection_id: a_id.id, connection_local: a_id.local },
            );
            after.handle_data(
                b,
                RelayDataView { connection_id: b_id.id, connection_local: b_id.local, data },
            ) == after
        }),
{
    connection_numbers_differ(a_id, b_id);
}

/// A relay in the middle brings two peers together: a game that one advertises is offered to the
/// other; when that one asks for a connection, the first is asked for it; and then what either
/// sends reaches the other.
pub proof fn relay_brings_two_peers_together(
    relay: RelayView,
    host: PeerId,
    advertisement: RelayGameView,
    opened: Option<SocketAddr>,
    guest: PeerId,
    request: RelayConnect,
    data: Seq<u8>,
)
    requires
        relay.wf(),
        relay.can_add_game(host, advertisement.id),
        relay.peers.contains_key(host.0),
        relay.peers.contains_key(guest.0),
        host != guest,
        !relay.peers[host.0].handle.closed,
        !relay.peers[guest.0].handle.closed,
        advertisement.hops < MAX_FORWARDING_HOPS,
        request.hops < MAX_FORWARDING_HOPS,
        request.game_id == relay.game_number(host, advertisement.id),
        !relay.has_connection(guest, ConnectionId { id: request.connection_id, local: false }),
        !relay.peers[guest.0].relayed_connections.contains_key(
            (ConnectionId { id: request.connection_id, local: false }).number(),
        ),
        !relay.has_connection(host, relay.peers[host.0].next_connection_id),
    ensures
        ({
            let guest_id = ConnectionId { id: request.connection_id, local: false };
            let host_id = relay.peers[host.0].next_connection_id;
            let offered = relay.handle_game(host, advertisement, opened).0;
            let connected = offered.handle_connect(guest, request).0;
            &&& offered.peers[guest.0].handle == relay.peers[guest.0].handle.send(
                Some(
                    InnerView::Game(
                        RelayGameView {
                            id: request.game_id,
                            motd: advertisement.motd,
                            hops: (advertisement.hops + 1) as u64,
                        },
                    ),
                ),
            )
            &&& connected.peers[host.0].handle == relay.peers[host.0].handle.send(
                Some(
                    InnerView::Connect(
                        RelayConnect {
                            game_id: advertisement.id,
                            connection_id: host_id.id,
                            hops: (request.hops + 1) as u64,
                        },
                    ),
                ),
            )
            &&& connected.handle_data(
                guest,
                RelayDataView { connection_id: guest_id.id, connection_local: false, data },
            ) == connected.with_peer(host, connected.peers[host.0].send(data_on(host_id, data)))
            &&& connected.handle_data(
                host,
                RelayDataView { connection_id: host_id.id, connection_local: host_id.local, data },
            ) == connected.with_peer(guest, connected.peers[guest.0].send(data_on(guest_id, data)))
        }),
{
    let guest_id = ConnectionId { id: request.connection_id, local: false };
    let host_id = relay.peers[host.0].next_connection_id;
    let noted = relay.add_game(host, advertisement, opened).0;
    let offered = relay.handle_game(host, advertisement, opened).0;
    let connected = offered.handle_connect(guest, request).0;
    if relay.peers[host.0].games.contains_key(advertisement.id) {
        assert(relay.advertised_as(host.0, advertisement.id, request.game_id));
    }
    assert(noted.advertised_as(host.0, advertisement.id, request.game_id));
    near_advertisement_is_passed_on(relay, host, advertisement, opened, guest.0);
    advertisement_is_not_sent_back(relay, host, advertisement, opened);
    assert(!noted.unreachable_peers(Some(host)).contains(host.0));
    assert(offered.advertised_as(host.0, advertisement.id, request.game_id));
    assert(offered.forwards_connect(guest, host, request));
    forwarded_connection_is_joined(
        offered,
        guest,
        host,
        RemoteGameId(advertisement.id),
        request,
    );
    joined_connection_carries_data(connected, guest, guest_id, host, host_id, data);
    joined_connection_carries_data(connected, host, host_id, guest, guest_id, data);
}

/// A request for a connection that is already passed on is dropped.
pub proof fn repeated_request_is_dropped(
    relay: RelayView,
    from: PeerId,
    to: PeerId,
    to_game_id: RemoteGameId,
    message: RelayConnect,
)
    requires
        relay.peers.contains_key(from.0),
        relay.peers[from.0].relayed_connections.contains_key(
            (ConnectionId { id: message.connection_id, local: false }).number(),
        ),
    ensures
        relay.forward_connect(from, to, to_game_id, message) == relay,
{
}

/// A request for a connection that has come too far is dropped.
pub proof fn distant_request_is_dropped(
    relay: RelayView,
    from: PeerId,
    to: PeerId,
    to_game_id: RemoteGameId,
    message: RelayConnect,
)
    requires
        message.hops >= MAX_FORWARDING_HOPS,
    ensures
        relay.forward_connect(from, to, to_game_id, message) == relay,
{
}

/// A request that a step passes on to a peer takes no name under which this connection runs.
pub open spec fn takes_another_name(
    relay: RelayView,
    message: MessageView,
    peer: PeerId,
    id: ConnectionId,
) -> bool {
    message matches MessageView::Recv(_, Some(InnerView::Connect(_)))
        ==> relay.peers[peer.0].next_connection_id != id
}

/// A message ends a connection: it names one half of it, or one that is noted as the other half of
/// such a half.
pub open spec fn ends_half(
    relay: RelayView,
    message: MessageView,
    peer: PeerId,
    id: ConnectionId,
) -> bool {
    message matches MessageView::Recv(from, Some(InnerView::CloseConnection(close))) && {
        let closed = ConnectionId { id: close.connection_id, local: close.connection_local };
        ||| from == peer && closed == id
        ||| relay.peers[from.0].relayed_connections.contains_key(closed.number())
            && relay.peers[from.0].relayed_connections[closed.number()] == (RelayedConnection {
            peer,
            peer_connection_id: id,
        })
    }
}

/// Two halves of a connection stay joined whatever happens, until one of them is ended or one of
/// the peers is gone; above all when other connections are made.
pub proof fn joined_connections_stay_joined(
    relay: RelayView,
    message: MessageView,
    opened: Option<SocketAddr>,
    a: PeerId,
    a_id: ConnectionId,
    b: PeerId,
    b_id: ConnectionId,
)
    requires
        relay.wf(),
        joined(relay, a, a_id, b, b_id),
        relay.handle_message(message, opened).0.peers.contains_key(a.0),
        relay.handle_message(message, opened).0.peers.contains_key(b.0),
        takes_another_name(relay, message, a, a_id),
        takes_another_name(relay, message, b, b_id),
        !ends_half(relay, message, a, a_id),
        !ends_half(relay, message, b, b_id),
    ensures
        joined(relay.handle_message(message, opened).0, a, a_id, b, b_id),
{
    lemma_half_stays(relay, message, opened, a, a_id);
    lemma_half_stays(relay, message, opened, b, b_id);
}

/// One half of a connection stays as it is noted.
proof fn lemma_half_stays(
    relay: RelayView,
    message: MessageView,
    opened: Option<SocketAddr>,
    a: PeerId,
    a_id: ConnectionId,
)
    requires
        relay.wf(),
        relay.peers.contains_key(a.0),
        relay.peers[a.0].relayed_connections.contains_key(a_id.number()),
        relay.handle_message(message, opened).0.peers.contains_key(a.0),
        takes_another_name(relay, message, a, a_id),
        !ends_half(relay, message, a, a_id),
    ensures
        ({
            let after = relay.handle_message(message, opened).0;
            &&& after.peers[a.0].relayed_connections.contains_key(a_id.number())
            &&& after.peers[a.0].relayed_connections[a_id.number()]
                == relay.peers[a.0].relayed_connections[a_id.number()]
        }),
{
}

/// Passing on a request for a connection leaves every other joined connection joined.
pub proof fn other_connections_stay_joined(
    relay: RelayView,
    from: PeerId,
    to: PeerId,
    to_game_id: RemoteGameId,
    message: RelayConnect,
    a: PeerId,
    a_id: ConnectionId,
    b: PeerId,
    b_id: ConnectionId,
)
    requires
        joined(relay, a, a_id, b, b_id),
        !relay.peers[to.0].handle.closed,
        !(a == to && a_id == relay.peers[to.0].next_connection_id),
        !(b == to && b_id == relay.peers[to.0].next_connection_id),
    ensures
        joined(relay.forward_connect(from, to, to_game_id, message), a, a_id, b, b_id),
{
    connection_numbers_differ(a_id, relay.peers[to.0].next_connection_id);
    connection_numbers_differ(b_id, relay.peers[to.0].next_connection_id);
}

} // verus!
