use minecraft_relay::addr::{Host, SocketAddr};
use minecraft_relay::relay::connection::{
    data_len, HandshakeAction, RelayConnection, RelayConnectionError, RelayConnectionHandle,
    RelayTransport, WriteAction, WriteEvent,
};
use minecraft_relay::protocol::RelayMessage;

fn addr() -> SocketAddr {
    SocketAddr { host: Host::V4 { octets: 1 }, port: 2 }
}

/// Splits a frame into its data.
fn unframed(bytes: &[u8]) -> Vec<u8> {
    assert_eq!(data_len([bytes[0], bytes[1]]), bytes.len() - 2);
    bytes[2..].to_vec()
}

fn sent(action: HandshakeAction) -> Vec<u8> {
    match action {
        HandshakeAction::Send(bytes) => unframed(&bytes),
        action => panic!("unexpected {:?}", action),
    }
}

/// Two relays that went through the handshake with each other.
fn connected() -> (RelayTransport, RelayTransport) {
    let mut initiator = RelayConnection::connect(addr()).unwrap();
    let mut responder = RelayConnection::accept(addr()).unwrap();
    assert_eq!(responder.next_action().unwrap(), HandshakeAction::Receive);
    let hello = sent(initiator.next_action().unwrap());
    assert_eq!(hello.len(), 32);
    assert_eq!(initiator.next_action().unwrap(), HandshakeAction::Receive);
    responder.receive(&hello).unwrap();
    let answer = sent(responder.next_action().unwrap());
    assert_eq!(answer.len(), 48);
    assert_eq!(responder.next_action().unwrap(), HandshakeAction::Finish);
    initiator.receive(&answer).unwrap();
    assert_eq!(initiator.next_action().unwrap(), HandshakeAction::Finish);
    (initiator.into_transport().unwrap(), responder.into_transport().unwrap())
}

#[test]
fn a_connection_knows_its_peer() {
    assert_eq!(RelayConnection::accept(addr()).unwrap().peer_addr(), addr());
    assert_eq!(RelayConnection::connect(addr()).unwrap().peer_addr(), addr());
}

#[test]
fn a_message_is_read_back_on_the_other_side() {
    let (mut a, mut b) = connected();
    for plain in [&b"hello"[..], b"", b"again", &[7u8; 65519]] {
        let data = unframed(&a.seal(plain).unwrap());
        assert_eq!(data.len(), plain.len() + 16);
        assert_ne!(&data[..], plain);
        assert_eq!(b.open(&data).unwrap(), plain);
        let data = unframed(&b.seal(plain).unwrap());
        assert_eq!(a.open(&data).unwrap(), plain);
    }
}

#[test]
fn equal_messages_are_encrypted_differently() {
    let (mut a, mut b) = connected();
    let first = unframed(&a.seal(b"same").unwrap());
    let second = unframed(&a.seal(b"same").unwrap());
    assert_ne!(first, second);
    assert_eq!(b.open(&first).unwrap(), b"same");
    assert_eq!(b.open(&second).unwrap(), b"same");
}

#[test]
fn a_message_out_of_order_is_refused() {
    let (mut a, mut b) = connected();
    let first = unframed(&a.seal(b"first").unwrap());
    let second = unframed(&a.seal(b"second").unwrap());
    assert!(matches!(b.open(&second), Err(RelayConnectionError::Decrypt(_))));
    // A failure changes nothing.
    assert_eq!(b.open(&first).unwrap(), b"first");
    assert_eq!(b.open(&second).unwrap(), b"second");
    assert!(matches!(b.open(&second), Err(RelayConnectionError::Decrypt(_))));
}

#[test]
fn a_spoiled_message_is_refused() {
    let (mut a, mut b) = connected();
    let data = unframed(&a.seal(b"hello").unwrap());
    for place in 0..data.len() {
        let mut spoiled = data.clone();
        spoiled[place] ^= 1;
        assert!(matches!(b.open(&spoiled), Err(RelayConnectionError::Decrypt(_))));
    }
    assert!(matches!(b.open(&data[..15]), Err(RelayConnectionError::Decrypt(_))));
    assert_eq!(b.open(&data).unwrap(), b"hello");
}

#[test]
fn a_message_that_is_too_long_is_refused() {
    let (mut a, mut b) = connected();
    assert!(matches!(a.seal(&[0u8; 65520]), Err(RelayConnectionError::Encrypt(_))));
    let data = unframed(&a.seal(b"next").unwrap());
    assert_eq!(b.open(&data).unwrap(), b"next");
}

#[test]
fn a_frame_without_data_is_an_empty_message() {
    let (mut a, mut b) = connected();
    assert_eq!(b.open(b"").unwrap(), b"");
    let data = unframed(&a.seal(b"next").unwrap());
    assert_eq!(b.open(&data).unwrap(), b"next");
}

#[test]
fn the_writing_side_sends_pings_and_stops() {
    let (mut a, mut b) = connected();
    assert_eq!(a.next_write(WriteEvent::Timeout).unwrap(), WriteAction::Send(vec![0, 0]));
    assert_eq!(a.next_write(WriteEvent::Disconnected).unwrap(), WriteAction::Stop);
    match a.next_write(WriteEvent::Message(b"text")).unwrap() {
        WriteAction::Send(bytes) => assert_eq!(b.open(&unframed(&bytes)).unwrap(), b"text"),
        WriteAction::Stop => panic!("stopped"),
    }
    assert!(matches!(
        a.next_write(WriteEvent::Message(&[0u8; 65520])),
        Err(RelayConnectionError::Encrypt(_))
    ));
}

#[test]
fn messages_arrive_in_order_with_pings_between() {
    let (mut a, mut b) = connected();
    let mut stream = Vec::new();
    let events = [
        WriteEvent::Timeout,
        WriteEvent::Message(b"one"),
        WriteEvent::Timeout,
        WriteEvent::Timeout,
        WriteEvent::Message(b""),
        WriteEvent::Message(b"three"),
    ];
    for event in events {
        match a.next_write(event).unwrap() {
            WriteAction::Send(bytes) => stream.extend(bytes),
            WriteAction::Stop => panic!("stopped"),
        }
    }
    let mut received = Vec::new();
    let mut rest = &stream[..];
    while !rest.is_empty() {
        let len = data_len([rest[0], rest[1]]);
        received.push(b.open(&rest[2..2 + len]).unwrap());
        rest = &rest[2 + len..];
    }
    let expected: [&[u8]; 6] = [b"", b"one", b"", b"", b"", b"three"];
    assert_eq!(received, expected);
}

#[test]
fn the_first_message_shows_a_fresh_key() {
    let mut first = RelayConnection::connect(addr()).unwrap();
    let mut second = RelayConnection::connect(addr()).unwrap();
    let a = sent(first.next_action().unwrap());
    let b = sent(second.next_action().unwrap());
    assert_eq!(a.len(), 32);
    assert_ne!(a, b);
    // An answer to the one is no answer to the other.
    let mut responder = RelayConnection::accept(addr()).unwrap();
    responder.receive(&a).unwrap();
    let answer = sent(responder.next_action().unwrap());
    assert!(second.receive(&answer).is_err());
    assert!(first.receive(&answer).is_ok());
}

#[test]
fn a_handshake_goes_by_turns() {
    let mut initiator = RelayConnection::connect(addr()).unwrap();
    // It is the initiator's turn to send, so it takes nothing in.
    assert!(matches!(initiator.receive(&[0u8; 32]), Err(RelayConnectionError::Decrypt(_))));
    let mut responder = RelayConnection::accept(addr()).unwrap();
    for len in [0, 31, 33, 48] {
        let data = vec![9u8; len];
        assert!(matches!(responder.receive(&data), Err(RelayConnectionError::Decrypt(_))));
        assert_eq!(responder.next_action().unwrap(), HandshakeAction::Receive);
    }
    // The first message is any key.
    assert!(responder.receive(&[9u8; 32]).is_ok());
    assert!(matches!(responder.receive(&[9u8; 32]), Err(RelayConnectionError::Decrypt(_))));
    assert!(matches!(responder.next_action(), Ok(HandshakeAction::Send(_))));
}

#[test]
fn a_handshake_that_is_not_finished_is_no_connection() {
    let initiator = RelayConnection::connect(addr()).unwrap();
    assert!(matches!(initiator.into_transport(), Err(RelayConnectionError::Encrypt(_))));
}

#[test]
fn a_bad_answer_is_refused() {
    let mut initiator = RelayConnection::connect(addr()).unwrap();
    let mut responder = RelayConnection::accept(addr()).unwrap();
    let hello = sent(initiator.next_action().unwrap());
    responder.receive(&hello).unwrap();
    let mut answer = sent(responder.next_action().unwrap());
    answer[40] ^= 1;
    assert!(matches!(initiator.receive(&answer), Err(RelayConnectionError::Decrypt(_))));
}

#[test]
fn headers_give_the_higher_byte_first() {
    assert_eq!(data_len([0, 0]), 0);
    assert_eq!(data_len([0, 255]), 255);
    assert_eq!(data_len([1, 0]), 256);
    assert_eq!(data_len([255, 255]), 65535);
}

#[test]
fn a_closed_connection_takes_no_messages() {
    let mut handle = RelayConnectionHandle::new();
    assert!(handle.send(RelayMessage { inner: None }).is_ok());
    handle.close();
    assert!(handle.send(RelayMessage { inner: None }).is_err());
    assert_eq!(handle.drain(), vec![RelayMessage { inner: None }]);
    assert_eq!(handle.drain(), vec![]);
}
