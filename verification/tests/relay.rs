use minecraft_relay::addr::{Host, SocketAddr};
use minecraft_relay::protocol::{
    Inner, RelayCloseConnection, RelayConnect, RelayData, RelayGame, RelayMessage,
};
use minecraft_relay::relay::dispatch::{Message, RelayAction};
use minecraft_relay::relay::ids::{ConnectionId, LocalGameId, PeerId, RemoteGameId};
use minecraft_relay::relay::link::{GameLink, LinkAction, LinkEvent};
use minecraft_relay::relay::model::{
    AcceptedConnection, AddedGame, Game, ListenerUse, LocalConnect, RelayedConnection,
    MAX_FORWARDING_HOPS,
};
use minecraft_relay::relay::Relay;

const DISCOVERY_PORT: u16 = 40000;

fn addr(last: u8, port: u16) -> SocketAddr {
    SocketAddr { host: Host::V4 { octets: 0x0a00_0000 + last as u32 }, port }
}

fn game(id: u64, motd: &[u8], hops: u64) -> RelayMessage {
    RelayMessage { inner: Some(Inner::Game(RelayGame { id, motd: motd.to_vec(), hops })) }
}

fn connect(game_id: u64, connection_id: u64, hops: u64) -> RelayMessage {
    RelayMessage { inner: Some(Inner::Connect(RelayConnect { game_id, connection_id, hops })) }
}

fn data(connection_id: u64, data: &[u8]) -> RelayMessage {
    RelayMessage {
        inner: Some(Inner::Data(RelayData {
            connection_id,
            connection_local: false,
            data: data.to_vec(),
        })),
    }
}

fn close(connection_id: u64) -> RelayMessage {
    RelayMessage {
        inner: Some(Inner::CloseConnection(RelayCloseConnection {
            connection_id,
            connection_local: false,
        })),
    }
}

fn id(number: u64) -> ConnectionId {
    ConnectionId { id: number, local: false }
}

/// Hands an event to the relay as its surroundings do.
fn handle(relay: &mut Relay, message: Message, opened: Option<SocketAddr>) -> RelayAction {
    assert!(relay.can_handle(&message));
    relay.handle_message(message, opened)
}

fn recv(relay: &mut Relay, from: PeerId, message: RelayMessage) -> RelayAction {
    handle(relay, Message::Recv(from, message), None)
}

fn relay_with_peers(count: u64) -> Relay {
    let mut relay = Relay::new(DISCOVERY_PORT);
    for number in 0..count {
        let action = handle(&mut relay, Message::AcceptPeer, None);
        assert_eq!(action, RelayAction::ServePeer(PeerId(number)));
    }
    relay
}

/// Takes in an advertisement for which a listener is opened on a port.
fn advertise(relay: &mut Relay, from: PeerId, message: RelayMessage, port: u16) -> AddedGame {
    let message = Message::Recv(from, message);
    assert!(relay.wants_listener(&message));
    match handle(relay, message, Some(addr(0, port))) {
        RelayAction::OfferGame(added) => added,
        action => panic!("unexpected {:?}", action),
    }
}

#[test]
fn a_new_relay_knows_nothing() {
    let relay = Relay::new(DISCOVERY_PORT);
    assert!(!relay.has_peer(PeerId(0)));
    assert_eq!(relay.discovery_port, DISCOVERY_PORT);
    assert!(relay.games.map.is_empty());
    assert!(relay.listen_ports.is_empty());
}

#[test]
fn peers_are_numbered_in_order() {
    let mut relay = Relay::new(DISCOVERY_PORT);
    assert_eq!(handle(&mut relay, Message::AcceptPeer, None), RelayAction::ServePeer(PeerId(0)));
    assert_eq!(handle(&mut relay, Message::AddPeer, None), RelayAction::ReportPeer(PeerId(1)));
    handle(&mut relay, Message::RemovePeer(PeerId(1)), None);
    assert_eq!(handle(&mut relay, Message::AddPeer, None), RelayAction::ReportPeer(PeerId(2)));
    assert!(relay.has_peer(PeerId(0)));
    assert!(!relay.has_peer(PeerId(1)));
}

#[test]
fn a_local_game_is_advertised_to_all_peers() {
    let mut relay = relay_with_peers(2);
    let event = Message::AddLocalGame(addr(7, 50000), 25565, b"home".to_vec());
    assert_eq!(handle(&mut relay, event, None), RelayAction::Nothing);
    for number in 0..2 {
        assert_eq!(relay.drain_peer(PeerId(number)), vec![game(0, b"home", 0)]);
        assert_eq!(relay.drain_peer(PeerId(number)), vec![]);
    }
    assert_eq!(relay.local_games.get(addr(7, 25565)), Some(LocalGameId(0)));
    assert_eq!(relay.local_games.get(addr(7, 50000)), None);
}

#[test]
fn a_local_game_keeps_its_number() {
    let mut relay = relay_with_peers(1);
    for (port, motd) in [(1, b"a"), (2, b"b"), (1, b"c")] {
        let event = Message::AddLocalGame(addr(7, 50000), port, motd.to_vec());
        handle(&mut relay, event, None);
    }
    assert_eq!(
        relay.drain_peer(PeerId(0)),
        vec![game(0, b"a", 0), game(1, b"b", 0), game(0, b"c", 0)]
    );
}

#[test]
fn the_relays_own_announcement_is_ignored() {
    let mut relay = relay_with_peers(2);
    advertise(&mut relay, PeerId(0), game(3, b"m", 0), 1234);
    relay.drain_peer(PeerId(1));
    // From the port that the relay announces from, and with the port of a listener of its own.
    let own = Message::AddLocalGame(addr(7, DISCOVERY_PORT), 1234, b"m".to_vec());
    handle(&mut relay, own, None);
    assert_eq!(relay.drain_peer(PeerId(1)), vec![]);
    // From another port, or with another port, it is a game like any other.
    let other = Message::AddLocalGame(addr(7, 9), 1234, b"m".to_vec());
    handle(&mut relay, other, None);
    assert_eq!(relay.drain_peer(PeerId(1)), vec![game(1, b"m", 0)]);
    let other = Message::AddLocalGame(addr(7, DISCOVERY_PORT), 1235, b"m".to_vec());
    handle(&mut relay, other, None);
    assert_eq!(relay.drain_peer(PeerId(1)), vec![game(2, b"m", 0)]);
}

#[test]
fn peers_that_are_gone_are_forgotten_when_something_is_sent() {
    let mut relay = relay_with_peers(3);
    relay.close_peer(PeerId(1));
    assert!(relay.has_peer(PeerId(1)));
    let event = Message::AddLocalGame(addr(7, 50000), 25565, vec![]);
    handle(&mut relay, event, None);
    assert!(relay.has_peer(PeerId(0)));
    assert!(!relay.has_peer(PeerId(1)));
    assert!(relay.has_peer(PeerId(2)));
}

#[test]
fn an_advertisement_is_taken_in_and_passed_on() {
    let mut relay = relay_with_peers(3);
    let added = advertise(&mut relay, PeerId(0), game(9, b"m", 0), 1234);
    assert_eq!(
        added,
        AddedGame {
            local_game_id: LocalGameId(0),
            listener: ListenerUse::Opened,
            advertised_port: Some(1234),
        }
    );
    assert!(relay.listen_ports.contains(&1234));
    // It is not sent back.
    assert_eq!(relay.drain_peer(PeerId(0)), vec![]);
    assert_eq!(relay.drain_peer(PeerId(1)), vec![game(0, b"m", 1)]);
    assert_eq!(relay.drain_peer(PeerId(2)), vec![game(0, b"m", 1)]);
}

#[test]
fn an_advertisement_that_came_too_far_is_not_passed_on() {
    let mut relay = relay_with_peers(2);
    advertise(&mut relay, PeerId(0), game(1, b"m", MAX_FORWARDING_HOPS - 1), 1);
    assert_eq!(relay.drain_peer(PeerId(1)), vec![game(0, b"m", MAX_FORWARDING_HOPS)]);
    for hops in [MAX_FORWARDING_HOPS, MAX_FORWARDING_HOPS + 1, u64::MAX] {
        advertise(&mut relay, PeerId(0), game(hops + 1 & 0xff, b"m", hops), 2 + (hops & 7) as u16);
        assert_eq!(relay.drain_peer(PeerId(1)), vec![]);
    }
}

#[test]
fn a_listener_is_kept_while_it_is_open() {
    let mut relay = relay_with_peers(1);
    advertise(&mut relay, PeerId(0), game(9, b"m", 2), 1234);
    let again = Message::Recv(PeerId(0), game(9, b"m", 2));
    assert!(!relay.wants_listener(&again));
    let action = handle(&mut relay, again, None);
    assert_eq!(
        action,
        RelayAction::OfferGame(AddedGame {
            local_game_id: LocalGameId(0),
            listener: ListenerUse::Kept,
            advertised_port: Some(1234),
        })
    );
    match relay.games.map.get(&0) {
        Some(Game::Remote(game)) => assert!(game.listener.unwrap().handle.keepalive),
        game => panic!("unexpected {:?}", game),
    }
}

#[test]
fn a_listener_that_is_gone_is_replaced() {
    let mut relay = relay_with_peers(1);
    advertise(&mut relay, PeerId(0), game(9, b"m", 2), 1234);
    relay.close_listener(LocalGameId(0));
    let added = advertise(&mut relay, PeerId(0), game(9, b"m", 2), 1235);
    assert_eq!(added.local_game_id, LocalGameId(0));
    assert_eq!(added.listener, ListenerUse::Opened);
    assert_eq!(added.advertised_port, Some(1235));
    assert!(!relay.listen_ports.contains(&1234));
    assert!(relay.listen_ports.contains(&1235));
}

#[test]
fn a_listener_that_cannot_be_opened_is_missing() {
    let mut relay = relay_with_peers(2);
    let action = recv(&mut relay, PeerId(0), game(9, b"m", 0));
    assert_eq!(
        action,
        RelayAction::OfferGame(AddedGame {
            local_game_id: LocalGameId(0),
            listener: ListenerUse::Missing,
            advertised_port: None,
        })
    );
    // The other peers hear of the game all the same.
    assert_eq!(relay.drain_peer(PeerId(1)), vec![game(0, b"m", 1)]);
}

#[test]
fn an_ended_listener_is_removed_once_it_is_gone() {
    let mut relay = relay_with_peers(1);
    advertise(&mut relay, PeerId(0), game(9, b"m", 2), 1234);
    let action = handle(&mut relay, Message::RemoveGameListener(LocalGameId(0)), None);
    assert_eq!(action, RelayAction::KeepListener(LocalGameId(0)));
    assert!(relay.listen_ports.contains(&1234));
    relay.close_listener(LocalGameId(0));
    let action = handle(&mut relay, Message::RemoveGameListener(LocalGameId(0)), None);
    assert_eq!(action, RelayAction::Nothing);
    assert!(!relay.listen_ports.contains(&1234));
    let action = handle(&mut relay, Message::RemoveGameListener(LocalGameId(77)), None);
    assert_eq!(action, RelayAction::Nothing);
}

#[test]
fn a_removed_peer_takes_its_games_along() {
    let mut relay = relay_with_peers(2);
    advertise(&mut relay, PeerId(0), game(1, b"a", 2), 1001);
    advertise(&mut relay, PeerId(0), game(2, b"b", 2), 1002);
    advertise(&mut relay, PeerId(1), game(1, b"c", 2), 1003);
    handle(&mut relay, Message::AddLocalGame(addr(7, 1), 25565, vec![]), None);
    for _ in 0..2 {
        handle(&mut relay, Message::RemovePeer(PeerId(0)), None);
        assert!(!relay.has_peer(PeerId(0)));
        let mut games: Vec<u64> = relay.games.map.keys().copied().collect();
        games.sort();
        assert_eq!(games, vec![2, 3]);
        let ports: Vec<u16> = relay.listen_ports.iter().copied().collect();
        assert_eq!(ports, vec![1003]);
        assert_eq!(relay.local_games.get(addr(7, 25565)), Some(LocalGameId(3)));
    }
}

#[test]
fn a_peer_is_given_a_connection_to_a_local_game() {
    let mut relay = relay_with_peers(1);
    handle(&mut relay, Message::AddLocalGame(addr(7, 1), 25565, vec![]), None);
    relay.drain_peer(PeerId(0));
    let action = recv(&mut relay, PeerId(0), connect(0, 5, 2));
    let request = LocalConnect {
        peer_id: PeerId(0),
        connection_id: id(5),
        game_id: LocalGameId(0),
        addr: addr(7, 25565),
    };
    assert_eq!(action, RelayAction::ConnectLocal(request));
    assert!(!relay.has_connection(PeerId(0), id(5)));
    handle(&mut relay, Message::AddGameConnection(PeerId(0), id(5), LocalGameId(0)), None);
    assert!(relay.has_connection(PeerId(0), id(5)));
    // The peer is told by an empty message.
    assert_eq!(relay.drain_peer(PeerId(0)), vec![data(5, b"")]);
    recv(&mut relay, PeerId(0), data(5, b"one"));
    recv(&mut relay, PeerId(0), data(5, b"two"));
    assert_eq!(
        relay.drain_connection(PeerId(0), id(5)),
        vec![b"one".to_vec(), b"two".to_vec()]
    );
    assert!(relay.drain_connection(PeerId(0), id(5)).is_empty());
}

#[test]
fn a_connection_for_a_peer_that_is_gone_is_dropped() {
    let mut relay = relay_with_peers(1);
    relay.close_peer(PeerId(0));
    handle(&mut relay, Message::AddGameConnection(PeerId(0), id(5), LocalGameId(0)), None);
    assert!(!relay.has_peer(PeerId(0)));
    handle(&mut relay, Message::AddGameConnection(PeerId(0), id(5), LocalGameId(0)), None);
    assert!(!relay.has_connection(PeerId(0), id(5)));
}

#[test]
fn a_connection_that_is_gone_is_dropped_when_data_comes() {
    let mut relay = relay_with_peers(1);
    handle(&mut relay, Message::AddGameConnection(PeerId(0), id(5), LocalGameId(0)), None);
    relay.close_connection(PeerId(0), id(5));
    assert!(relay.has_connection(PeerId(0), id(5)));
    recv(&mut relay, PeerId(0), data(5, b"late"));
    assert!(!relay.has_connection(PeerId(0), id(5)));
    assert!(relay.has_peer(PeerId(0)));
}

#[test]
fn a_player_is_carried_to_the_peer() {
    let mut relay = relay_with_peers(1);
    advertise(&mut relay, PeerId(0), game(9, b"m", 2), 1234);
    let event = Message::AcceptGameConnection(LocalGameId(0));
    let accepted =
        AcceptedConnection { peer_id: PeerId(0), connection_id: id(0), requested: true };
    assert_eq!(handle(&mut relay, event, None), RelayAction::ServeGameConnection(accepted));
    assert_eq!(relay.drain_peer(PeerId(0)), vec![connect(9, 0, 0)]);
    recv(&mut relay, PeerId(0), data(0, b"hello"));
    assert_eq!(relay.drain_connection(PeerId(0), id(0)), vec![b"hello".to_vec()]);
    // The next player gets the next name.
    let event = Message::AcceptGameConnection(LocalGameId(0));
    match handle(&mut relay, event, None) {
        RelayAction::ServeGameConnection(accepted) => assert_eq!(accepted.connection_id, id(1)),
        action => panic!("unexpected {:?}", action),
    }
}

#[test]
fn a_player_for_a_peer_that_is_gone_is_not_carried() {
    let mut relay = relay_with_peers(1);
    advertise(&mut relay, PeerId(0), game(9, b"m", 2), 1234);
    relay.close_peer(PeerId(0));
    let event = Message::AcceptGameConnection(LocalGameId(0));
    match handle(&mut relay, event, None) {
        RelayAction::ServeGameConnection(accepted) => assert!(!accepted.requested),
        action => panic!("unexpected {:?}", action),
    }
    recv(&mut relay, PeerId(0), data(0, b"hello"));
    assert!(!relay.has_connection(PeerId(0), id(0)));
}

#[test]
fn a_player_for_an_unknown_or_local_game_is_dropped() {
    let mut relay = relay_with_peers(1);
    let event = Message::AcceptGameConnection(LocalGameId(0));
    assert_eq!(handle(&mut relay, event, None), RelayAction::Nothing);
    handle(&mut relay, Message::AddLocalGame(addr(7, 1), 25565, vec![]), None);
    let event = Message::AcceptGameConnection(LocalGameId(0));
    assert_eq!(handle(&mut relay, event, None), RelayAction::Nothing);
}

#[test]
fn two_peers_are_brought_together() {
    let mut relay = relay_with_peers(2);
    advertise(&mut relay, PeerId(0), game(9, b"m", 0), 1234);
    assert_eq!(relay.drain_peer(PeerId(1)), vec![game(0, b"m", 1)]);
    assert_eq!(recv(&mut relay, PeerId(1), connect(0, 33, 0)), RelayAction::Nothing);
    assert_eq!(relay.drain_peer(PeerId(0)), vec![connect(9, 0, 1)]);
    let half = relay.peers.map.get(&1).unwrap().relayed_connections.get(&id(33).key());
    assert_eq!(
        half,
        Some(&RelayedConnection { peer: PeerId(0), peer_connection_id: id(0) })
    );
    recv(&mut relay, PeerId(1), data(33, b"ping"));
    assert_eq!(relay.drain_peer(PeerId(0)), vec![data(0, b"ping")]);
    recv(&mut relay, PeerId(0), data(0, b"pong"));
    assert_eq!(relay.drain_peer(PeerId(1)), vec![data(33, b"pong")]);
    // A second request under the same name is dropped.
    recv(&mut relay, PeerId(1), connect(0, 33, 0));
    assert_eq!(relay.drain_peer(PeerId(0)), vec![]);
    // Once one side ends the connection, nothing passes any more.
    recv(&mut relay, PeerId(1), close(33));
    recv(&mut relay, PeerId(1), data(33, b"late"));
    recv(&mut relay, PeerId(0), data(0, b"late"));
    assert_eq!(relay.drain_peer(PeerId(0)), vec![]);
    assert_eq!(relay.drain_peer(PeerId(1)), vec![]);
}

#[test]
fn a_request_that_came_too_far_is_not_passed_on() {
    let mut relay = relay_with_peers(2);
    advertise(&mut relay, PeerId(0), game(9, b"m", 2), 1234);
    recv(&mut relay, PeerId(1), connect(0, 1, MAX_FORWARDING_HOPS));
    assert_eq!(relay.drain_peer(PeerId(0)), vec![]);
    recv(&mut relay, PeerId(1), connect(0, 1, MAX_FORWARDING_HOPS - 1));
    assert_eq!(relay.drain_peer(PeerId(0)), vec![connect(9, 0, MAX_FORWARDING_HOPS)]);
}

#[test]
fn a_request_for_a_game_of_a_peer_that_is_gone_forgets_the_peer() {
    let mut relay = relay_with_peers(2);
    advertise(&mut relay, PeerId(0), game(9, b"m", 2), 1234);
    relay.close_peer(PeerId(0));
    recv(&mut relay, PeerId(1), connect(0, 1, 0));
    assert!(!relay.has_peer(PeerId(0)));
    assert!(relay.peers.map.get(&1).unwrap().relayed_connections.is_empty());
    recv(&mut relay, PeerId(1), connect(0, 1, 0));
    assert_eq!(relay.drain_peer(PeerId(1)), vec![]);
}

#[test]
fn data_for_a_peer_that_is_gone_forgets_the_peer() {
    let mut relay = relay_with_peers(2);
    advertise(&mut relay, PeerId(0), game(9, b"m", 2), 1234);
    recv(&mut relay, PeerId(1), connect(0, 1, 0));
    relay.close_peer(PeerId(0));
    recv(&mut relay, PeerId(1), data(1, b"x"));
    assert!(!relay.has_peer(PeerId(0)));
    // The half that is left leads nowhere.
    recv(&mut relay, PeerId(1), data(1, b"x"));
    assert!(relay.has_peer(PeerId(1)));
}

#[test]
fn data_for_an_unknown_connection_is_dropped() {
    let mut relay = relay_with_peers(1);
    assert_eq!(recv(&mut relay, PeerId(0), data(1, b"x")), RelayAction::Nothing);
    assert_eq!(recv(&mut relay, PeerId(0), close(1)), RelayAction::Nothing);
    assert_eq!(recv(&mut relay, PeerId(0), connect(1, 1, 0)), RelayAction::Nothing);
    assert_eq!(relay.drain_peer(PeerId(0)), vec![]);
}

#[test]
fn an_ended_connection_to_a_game_is_forgotten() {
    let mut relay = relay_with_peers(1);
    handle(&mut relay, Message::AddGameConnection(PeerId(0), id(5), LocalGameId(0)), None);
    recv(&mut relay, PeerId(0), close(5));
    assert!(!relay.has_connection(PeerId(0), id(5)));
}

#[test]
fn an_unknown_peer_is_ignored() {
    let mut relay = relay_with_peers(1);
    handle(&mut relay, Message::AddLocalGame(addr(7, 1), 25565, vec![]), None);
    relay.drain_peer(PeerId(0));
    for message in [game(1, b"m", 0), connect(0, 1, 0), data(1, b"x"), close(1)] {
        let event = Message::Recv(PeerId(8), message);
        assert!(!relay.wants_listener(&event));
        assert_eq!(handle(&mut relay, event, None), RelayAction::Nothing);
    }
    assert_eq!(relay.drain_peer(PeerId(0)), vec![]);
    assert_eq!(relay.drain_peer(PeerId(8)), vec![]);
    assert_eq!(relay.games.map.len(), 1);
}

#[test]
fn a_message_that_says_nothing_is_ignored() {
    let mut relay = relay_with_peers(1);
    let action = recv(&mut relay, PeerId(0), RelayMessage { inner: None });
    assert_eq!(action, RelayAction::Nothing);
    assert_eq!(relay.drain_peer(PeerId(0)), vec![]);
}

#[test]
fn a_relay_that_is_out_of_numbers_says_so() {
    let mut relay = relay_with_peers(1);
    relay.games.next_key = u64::MAX;
    assert!(!relay.can_handle(&Message::Recv(PeerId(0), game(1, b"m", 0))));
    assert!(!relay.can_handle(&Message::AddLocalGame(addr(7, 1), 2, vec![])));
    assert!(relay.can_handle(&Message::Recv(PeerId(8), game(1, b"m", 0))));
    relay.peers.next_key = u64::MAX;
    assert!(!relay.can_handle(&Message::AddPeer));
    assert!(!relay.can_handle(&Message::AcceptPeer));
}

#[test]
fn a_peer_that_is_out_of_connection_names_says_so() {
    let mut relay = relay_with_peers(2);
    advertise(&mut relay, PeerId(0), game(9, b"m", 2), 1234);
    relay.peers.map.get_mut(&0).unwrap().next_connection_id = id(u64::MAX);
    assert!(!relay.can_handle(&Message::AcceptGameConnection(LocalGameId(0))));
    assert!(!relay.can_handle(&Message::Recv(PeerId(1), connect(0, 1, 0))));
    assert!(relay.can_handle(&Message::Recv(PeerId(1), connect(0, 1, MAX_FORWARDING_HOPS))));
}

#[test]
fn connections_have_numbers_of_their_own() {
    assert_eq!(ConnectionId { id: 3, local: false }.key(), 6);
    assert_eq!(ConnectionId { id: 3, local: true }.key(), 7);
    assert_eq!(ConnectionId { id: u64::MAX, local: true }.key(), (1u128 << 65) - 1);
    assert_eq!(RemoteGameId::from(4), RemoteGameId(4));
}

/// Hands every message that waits for a peer to the relay at the other end, which knows this one
/// as `back`.
fn deliver(from: &mut Relay, peer: PeerId, to: &mut Relay, back: PeerId) -> Vec<RelayAction> {
    let messages = from.drain_peer(peer);
    messages.into_iter().map(|message| recv(to, back, message)).collect()
}

#[test]
fn bytes_travel_between_a_player_and_a_game_through_a_relay_in_the_middle() {
    // The host is peer 0 of the middle, the guest is peer 1; both know the middle as peer 0.
    let mut host = relay_with_peers(1);
    let mut middle = relay_with_peers(2);
    let mut guest = relay_with_peers(1);

    handle(&mut host, Message::AddLocalGame(addr(7, 1), 25565, b"game".to_vec()), None);
    for message in host.drain_peer(PeerId(0)) {
        advertise(&mut middle, PeerId(0), message, 1001);
    }
    for message in middle.drain_peer(PeerId(1)) {
        let added = advertise(&mut guest, PeerId(0), message, 1002);
        assert_eq!(added.advertised_port, Some(1002));
    }

    // A player connects to the guest's listener.
    let event = Message::AcceptGameConnection(LocalGameId(0));
    let player_id = match handle(&mut guest, event, None) {
        RelayAction::ServeGameConnection(accepted) => accepted.connection_id,
        action => panic!("unexpected {:?}", action),
    };
    let mut player = GameLink::from_player(player_id);
    deliver(&mut guest, PeerId(0), &mut middle, PeerId(1));
    let actions = deliver(&mut middle, PeerId(0), &mut host, PeerId(0));
    let game_id = match actions[..] {
        [RelayAction::ConnectLocal(connect)] => {
            assert_eq!(connect.addr, addr(7, 25565));
            connect.connection_id
        }
        _ => panic!("unexpected {:?}", actions),
    };

    // The host connects to the game, and the player hears of it.
    let mut server = GameLink::to_game(game_id);
    assert_eq!(server.step(LinkEvent::Connected), Some(LinkAction::Announce));
    handle(&mut host, Message::AddGameConnection(PeerId(0), game_id, LocalGameId(0)), None);
    assert_eq!(server.step(LinkEvent::Announced), Some(LinkAction::Read));
    deliver(&mut host, PeerId(0), &mut middle, PeerId(0));
    deliver(&mut middle, PeerId(1), &mut guest, PeerId(0));
    assert_eq!(guest.drain_connection(PeerId(0), player_id), vec![Vec::<u8>::new()]);
    assert_eq!(player.step(LinkEvent::Answered), Some(LinkAction::Read));

    // What the player sends reaches the game.
    match player.step(LinkEvent::Data(b"ping")) {
        Some(LinkAction::Send(message)) => recv(&mut middle, PeerId(1), message),
        action => panic!("unexpected {:?}", action),
    };
    deliver(&mut middle, PeerId(0), &mut host, PeerId(0));
    assert_eq!(host.drain_connection(PeerId(0), game_id), vec![b"ping".to_vec()]);

    // What the game sends reaches the player.
    match server.step(LinkEvent::Data(b"pong")) {
        Some(LinkAction::Send(message)) => recv(&mut middle, PeerId(0), message),
        action => panic!("unexpected {:?}", action),
    };
    deliver(&mut middle, PeerId(1), &mut guest, PeerId(0));
    assert_eq!(guest.drain_connection(PeerId(0), player_id), vec![b"pong".to_vec()]);

    // The player leaves: the middle forgets the connection.
    match player.step(LinkEvent::Closed) {
        Some(LinkAction::Finish(message)) => recv(&mut middle, PeerId(1), message),
        action => panic!("unexpected {:?}", action),
    };
    assert!(middle.peers.map.values().all(|peer| peer.relayed_connections.is_empty()));
}

#[test]
fn numbers_of_games_are_not_used_again() {
    let mut relay = relay_with_peers(2);
    advertise(&mut relay, PeerId(0), game(5, b"m", 2), 1001);
    handle(&mut relay, Message::RemovePeer(PeerId(0)), None);
    let added = advertise(&mut relay, PeerId(1), game(5, b"m", 2), 1002);
    assert_eq!(added.local_game_id, LocalGameId(1));
}

#[test]
fn connections_through_a_peer_are_named_in_order() {
    let mut relay = relay_with_peers(2);
    advertise(&mut relay, PeerId(0), game(9, b"m", 2), 1234);
    let mut sent = Vec::new();
    for round in 0..3 {
        handle(&mut relay, Message::AcceptGameConnection(LocalGameId(0)), None);
        recv(&mut relay, PeerId(1), connect(0, 100 + round, 0));
        handle(&mut relay, Message::AddLocalGame(addr(7, 1), 25565, vec![]), None);
        sent.extend(relay.drain_peer(PeerId(0)));
    }
    let names: Vec<u64> = sent
        .iter()
        .filter_map(|message| match &message.inner {
            Some(Inner::Connect(request)) => Some(request.connection_id),
            _ => None,
        })
        .collect();
    assert_eq!(names, vec![0, 1, 2, 3, 4, 5]);
}

#[test]
fn games_share_a_number_only_with_themselves() {
    let mut relay = relay_with_peers(2);
    let first = advertise(&mut relay, PeerId(0), game(9, b"a", 2), 1001);
    let other_peer = advertise(&mut relay, PeerId(1), game(9, b"a", 2), 1002);
    let other_game = advertise(&mut relay, PeerId(0), game(8, b"a", 2), 1003);
    handle(&mut relay, Message::AddLocalGame(addr(7, 1), 25565, vec![]), None);
    relay.close_listener(first.local_game_id);
    let again = advertise(&mut relay, PeerId(0), game(9, b"other", 1), 1004);
    assert_eq!(again.local_game_id, first.local_game_id);
    assert_ne!(other_peer.local_game_id, first.local_game_id);
    assert_ne!(other_game.local_game_id, first.local_game_id);
    let local = relay.local_games.get(addr(7, 25565)).unwrap();
    assert_ne!(local, first.local_game_id);
    // The same game, announced from another port of its host.
    handle(&mut relay, Message::AddLocalGame(addr(7, 2), 25565, b"x".to_vec()), None);
    assert_eq!(relay.local_games.get(addr(7, 25565)), Some(local));
    handle(&mut relay, Message::AddLocalGame(addr(8, 2), 25565, b"x".to_vec()), None);
    assert_ne!(relay.local_games.get(addr(8, 25565)), Some(local));
}

#[test]
fn advertisements_die_out_along_a_chain_of_relays() {
    // Four relays in a row; each knows the next one as peer 0 and the one before as peer 1.
    let mut chain: Vec<Relay> = (0..4).map(|_| relay_with_peers(2)).collect();
    handle(&mut chain[0], Message::AddLocalGame(addr(7, 1), 25565, b"far".to_vec()), None);
    let mut sent = chain[0].drain_peer(PeerId(0));
    let mut heard = Vec::new();
    for (position, relay) in chain.iter_mut().enumerate().skip(1) {
        for message in sent {
            heard.push(position);
            advertise(relay, PeerId(1), message, 1000);
        }
        sent = relay.drain_peer(PeerId(0));
    }
    assert_eq!(heard, vec![1, 2, 3]);
    assert_eq!(sent, vec![]);
}
