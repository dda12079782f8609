use minecraft_relay::addr::{Host, SocketAddr};
use minecraft_relay::decimal::{decimal_bytes, parse_port};
use minecraft_relay::game::{GameConnectionHandle, GameListenerHandle};
use minecraft_relay::id_map::IdMap;
use minecraft_relay::protocol::{Inner, RelayCloseConnection, RelayData, RelayMessage};
use minecraft_relay::relay::connector::{
    Connector, ConnectorAction, ConnectorEvent, RelayConnectHandle,
};
use minecraft_relay::relay::ids::{ConnectionId, PeerId};
use minecraft_relay::relay::link::{GameLink, LinkAction, LinkEvent, LinkState};
use minecraft_relay::text::{find_bytes, matches_at, same_bytes};
use minecraft_relay::ui::{Prompt, Target, Ui, UiAction, WaitingPeer};

const LINK_ID: ConnectionId = ConnectionId { id: 4, local: false };

fn close_message() -> RelayMessage {
    RelayMessage {
        inner: Some(Inner::CloseConnection(RelayCloseConnection {
            connection_id: 4,
            connection_local: false,
        })),
    }
}

#[test]
fn numbers_are_handed_out_in_order() {
    let mut map: IdMap<PeerId, &str> = IdMap::default();
    assert_eq!(map.add("a"), PeerId(0));
    assert_eq!(map.next_id(), PeerId(1));
    assert_eq!(map.add("b"), PeerId(2));
    map.map.remove(&2);
    assert_eq!(map.add("c"), PeerId(3));
    assert_eq!(map.map.get(&0), Some(&"a"));
    assert_eq!(map.map.get(&1), None);
    assert_eq!(map.map.get(&3), Some(&"c"));
}

#[test]
fn a_connection_to_a_game_is_served() {
    let mut link = GameLink::to_game(LINK_ID);
    assert_eq!(link.step(LinkEvent::Connected), Some(LinkAction::Announce));
    assert_eq!(link.step(LinkEvent::Announced), Some(LinkAction::Read));
    let message = RelayMessage {
        inner: Some(Inner::Data(RelayData {
            connection_id: 4,
            connection_local: false,
            data: b"abc".to_vec(),
        })),
    };
    assert_eq!(link.step(LinkEvent::Data(b"abc")), Some(LinkAction::Send(message)));
    assert_eq!(link.step(LinkEvent::Closed), Some(LinkAction::Finish(close_message())));
    assert_eq!(link.state, LinkState::Done);
    assert_eq!(link.step(LinkEvent::Closed), None);
}

#[test]
fn a_connection_to_a_game_that_fails_is_reported() {
    let mut link = GameLink::to_game(LINK_ID);
    assert_eq!(link.step(LinkEvent::ConnectFailed), Some(LinkAction::Finish(close_message())));
}

#[test]
fn a_connection_stops_without_the_relay() {
    let mut link = GameLink::to_game(LINK_ID);
    link.step(LinkEvent::Connected);
    assert_eq!(link.step(LinkEvent::RelayClosed), Some(LinkAction::Stop));
}

#[test]
fn a_player_waits_for_an_answer() {
    let mut link = GameLink::from_player(LINK_ID);
    assert_eq!(link.step(LinkEvent::Data(b"abc")), None);
    assert_eq!(link.state, LinkState::Waiting);
    assert_eq!(link.step(LinkEvent::Answered), Some(LinkAction::Read));
    let mut link = GameLink::from_player(LINK_ID);
    assert_eq!(link.step(LinkEvent::Closed), Some(LinkAction::Finish(close_message())));
}

#[test]
fn a_relay_is_connected_to_again_and_again() {
    let mut handle = RelayConnectHandle::new();
    let mut connector = Connector::new();
    for number in 0..2 {
        let peer = PeerId(number);
        let steps = [
            (ConnectorEvent::Due, ConnectorAction::Connect),
            (ConnectorEvent::ConnectFailed { invalid_input: false }, ConnectorAction::Wait),
            (ConnectorEvent::Due, ConnectorAction::Connect),
            (ConnectorEvent::Connected, ConnectorAction::AddPeer),
            (ConnectorEvent::PeerAdded(peer), ConnectorAction::Run(peer)),
            (ConnectorEvent::Disconnected, ConnectorAction::RemovePeer(peer)),
            (ConnectorEvent::PeerRemoved, ConnectorAction::Wait),
        ];
        for (event, action) in steps {
            assert_eq!(connector.step(&mut handle, event), Some(action));
        }
    }
}

#[test]
fn attempts_stop_when_they_are_cancelled() {
    let mut handle = RelayConnectHandle::new();
    let mut connector = Connector::new();
    connector.step(&mut handle, ConnectorEvent::Due);
    handle.cancel();
    assert_eq!(
        connector.step(&mut handle, ConnectorEvent::ConnectFailed { invalid_input: false }),
        Some(ConnectorAction::Wait)
    );
    assert_eq!(
        connector.step(&mut handle, ConnectorEvent::Due),
        Some(ConnectorAction::Stop)
    );
    assert_eq!(connector.step(&mut handle, ConnectorEvent::Due), None);
}

#[test]
fn a_wish_to_stop_is_forgotten_with_the_peer() {
    let mut handle = RelayConnectHandle::new();
    let mut connector = Connector::new();
    connector.step(&mut handle, ConnectorEvent::Due);
    connector.step(&mut handle, ConnectorEvent::Connected);
    connector.step(&mut handle, ConnectorEvent::PeerAdded(PeerId(0)));
    handle.cancel();
    connector.step(&mut handle, ConnectorEvent::Disconnected);
    assert!(handle.cancelled);
    connector.step(&mut handle, ConnectorEvent::PeerRemoved);
    assert!(!handle.cancelled);
    assert_eq!(
        connector.step(&mut handle, ConnectorEvent::Due),
        Some(ConnectorAction::Connect)
    );
}

#[test]
fn attempts_stop_when_the_address_is_none_or_the_relay_is_gone() {
    let mut handle = RelayConnectHandle::new();
    let mut connector = Connector::new();
    connector.step(&mut handle, ConnectorEvent::Due);
    assert_eq!(
        connector.step(&mut handle, ConnectorEvent::ConnectFailed { invalid_input: true }),
        Some(ConnectorAction::Stop)
    );
    let mut connector = Connector::new();
    connector.step(&mut handle, ConnectorEvent::Due);
    connector.step(&mut handle, ConnectorEvent::Connected);
    assert_eq!(
        connector.step(&mut handle, ConnectorEvent::RelayClosed),
        Some(ConnectorAction::Stop)
    );
    let mut connector = Connector::new();
    connector.step(&mut handle, ConnectorEvent::Due);
    connector.step(&mut handle, ConnectorEvent::Connected);
    connector.step(&mut handle, ConnectorEvent::PeerAdded(PeerId(0)));
    connector.step(&mut handle, ConnectorEvent::Disconnected);
    assert_eq!(
        connector.step(&mut handle, ConnectorEvent::RelayClosed),
        Some(ConnectorAction::Stop)
    );
}

#[test]
fn a_listener_stays_while_it_is_asked_to() {
    let mut listener = GameListenerHandle::new();
    assert!(listener.keepalive().is_ok());
    assert!(listener.timed_out());
    assert!(listener.keepalive().is_ok());
    assert!(listener.timed_out());
    assert!(!listener.timed_out());
    assert!(listener.keepalive().is_err());
    assert!(!listener.timed_out());
}

#[test]
fn a_listener_has_to_be_asked_again_after_a_player() {
    let mut listener = GameListenerHandle::new();
    assert!(listener.keepalive().is_ok());
    listener.accepted();
    assert!(!listener.timed_out());
    let mut listener = GameListenerHandle::new();
    listener.close();
    assert!(listener.keepalive().is_err());
}

#[test]
fn a_closed_game_connection_takes_no_bytes() {
    let mut handle = GameConnectionHandle::new();
    assert!(handle.send(vec![1]).is_ok());
    assert!(handle.send(vec![2, 3]).is_ok());
    assert_eq!(handle.drain(), vec![vec![1], vec![2, 3]]);
    handle.close();
    assert!(handle.send(vec![4]).is_err());
    assert!(handle.drain().is_empty());
}

fn waiting(last: u32, key: &[u8]) -> WaitingPeer {
    WaitingPeer {
        addr: SocketAddr { host: Host::V4 { octets: last }, port: 1 },
        key: key.to_vec(),
    }
}

#[test]
fn the_user_lets_a_relay_in_or_not() {
    for line in ["", "y", "Y", "yes", "YES", "yEs"] {
        let mut ui = Ui::new(b"own".to_vec());
        assert_eq!(ui.accept_connection(waiting(1, b"other")), UiAction::Wait);
        assert!(matches!(ui.prompt(), Prompt::AcceptPeer(peer) if *peer == waiting(1, b"other")));
        assert_eq!(ui.input(line.to_string()), UiAction::AcceptPeer);
        assert!(matches!(ui.prompt(), Prompt::EnterHost));
    }
    for line in ["n", "N", "no", "NO", "nO"] {
        let mut ui = Ui::new(b"own".to_vec());
        ui.accept_connection(waiting(1, b"other"));
        assert_eq!(ui.input(line.to_string()), UiAction::RefusePeer);
        assert_eq!(ui.waiting, None);
    }
    for line in ["maybe", "ye", "yess", "\u{212a}", "n\u{f6}", "example.com"] {
        let mut ui = Ui::new(b"own".to_vec());
        ui.accept_connection(waiting(1, b"other"));
        assert_eq!(ui.input(line.to_string()), UiAction::Nothing);
        assert_eq!(ui.waiting, Some(waiting(1, b"other")));
    }
}

#[test]
fn a_relay_does_not_let_itself_in() {
    let mut ui = Ui::new(b"own".to_vec());
    assert_eq!(ui.accept_connection(waiting(1, b"own")), UiAction::RefuseSelf);
    assert_eq!(ui.waiting, None);
}

#[test]
fn the_last_relay_that_asks_is_the_one_that_waits() {
    let mut ui = Ui::new(b"own".to_vec());
    ui.accept_connection(waiting(1, b"a"));
    assert_eq!(ui.accept_connection(waiting(2, b"b")), UiAction::Wait);
    assert_eq!(ui.waiting, Some(waiting(2, b"b")));
}

#[test]
fn the_user_connects_and_stops() {
    let mut ui = Ui::new(b"own".to_vec());
    let target = Some(Target::Host("example.com".to_string(), 25566));
    assert_eq!(
        ui.input("example.com".to_string()),
        UiAction::Connect { stop: false, target }
    );
    assert!(matches!(ui.prompt(), Prompt::StopConnecting));
    let target = Some(Target::Address("Example.com:1".to_string()));
    assert_eq!(
        ui.input("Example.com:1".to_string()),
        UiAction::Connect { stop: true, target }
    );
    assert_eq!(ui.input(String::new()), UiAction::Connect { stop: true, target: None });
    assert!(matches!(ui.prompt(), Prompt::EnterHost));
    assert_eq!(ui.input(String::new()), UiAction::Connect { stop: false, target: None });
    let target = Some(Target::Address("::1".to_string()));
    assert_eq!(ui.input("::1".to_string()), UiAction::Connect { stop: false, target });
}

#[test]
fn ports_are_read_and_written_in_decimal() {
    for port in 0..=u16::MAX {
        let text = decimal_bytes(port);
        assert_eq!(text, port.to_string().into_bytes());
        assert_eq!(parse_port(&text), Some(port));
    }
    for text in ["", "+", "-0", "65536", "655360", "1a", "4294967296", "18446744073709551616"] {
        assert_eq!(parse_port(text.as_bytes()), None);
        assert_eq!(text.parse::<u16>().ok(), None);
    }
}

#[test]
fn bytes_are_searched_and_compared() {
    assert_eq!(find_bytes(b"abcabc", b"ca"), Some(2));
    assert_eq!(find_bytes(b"abcabc", b""), Some(0));
    assert_eq!(find_bytes(b"abcabc", b"x"), None);
    assert_eq!(find_bytes(b"", b"x"), None);
    assert!(matches_at(b"abc", b"bc", 1));
    assert!(!matches_at(b"abc", b"bcd", 1));
    assert!(same_bytes(b"abc", b"abc"));
    assert!(!same_bytes(b"abc", b"ab"));
}
