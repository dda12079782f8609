//! Connections between relays: a handshake, then encrypted messages in frames.
use crate::addr::SocketAddr;
use crate::protocol::{InnerView, RelayMessage};
use crate::queue::QueueView;
use crate::relay::noise::{
    build_initiator, build_responder, handshake_key, handshake_keys, handshake_left,
    handshake_messages, handshake_my_turn, handshake_protocol, handshake_takes, receiving_key,
    receiving_nonce, sealed, sending_key, sending_nonce, transport_protocol, HANDSHAKE_MESSAGES,
    KEY_LEN, MAX_MESSAGE_LEN, PATTERN, TAG_LEN,
};
use snow::{HandshakeState, TransportState};
use vstd::prelude::*;

verus! {

/// The connection is gone.
#[derive(Clone, Copy, Debug, PartialEq, Eq)]
pub struct RelayConnectionClosedError;

/// Messages that wait to be written to a peer.
#[derive(Debug)]
pub struct RelayConnectionHandle {
    pub queue: Vec<RelayMessage>,
    pub closed: bool,
}

impl View for RelayConnectionHandle {
    type V = QueueView<Option<InnerView>>;

    open spec fn view(&self) -> QueueView<Option<InnerView>> {
        QueueView {
            queue: self.queue@.map_values(|message: RelayMessage| message@),
            closed: self.closed,
        }
    }
}

impl RelayConnectionHandle {
    /// A connection on which nothing was sent.
    pub fn new() -> (handle: Self)
        ensures
            handle@ == QueueView::<Option<InnerView>>::fresh(),
    {
        let handle = RelayConnectionHandle { queue: Vec::new(), closed: false };
        assert(handle@.queue =~= Seq::<Option<InnerView>>::empty());
        handle
    }

    /// Hands a message to the connection.
    pub fn send(&mut self, message: RelayMessage) -> (result: Result<
        (),
        RelayConnectionClosedError,
    >)
        ensures
            final(self)@ == old(self)@.send(message@),
            result is Err <==> old(self)@.closed,
    {
        if self.closed {
            return Err(RelayConnectionClosedError);
        }
        self.queue.push(message);
        assert(self@.queue =~= old(self)@.queue.push(message@));
        Ok(())
    }

    /// Takes the messages that wait to be written.
    pub fn drain(&mut self) -> (queue: Vec<RelayMessage>)
        ensures
            final(self)@ == old(self)@.drained(),
            queue@.map_values(|message: RelayMessage| message@) == old(self)@.queue,
    {
        let mut queue: Vec<RelayMessage> = Vec::new();
        core::mem::swap(&mut queue, &mut self.queue);
        assert(self@.queue =~= Seq::<Option<InnerView>>::empty());
        queue
    }

    /// Notes that the connection is gone.
    pub fn close(&mut self)
        ensures
            final(self)@ == old(self)@.shut(),
    {
        self.closed = true;
        assert(self@.queue =~= old(self)@.queue);
    }
}

/// A connection could not be started.
#[derive(Debug)]
pub enum RelayConnectError {
    Encryption(snow::Error),
}

/// A connection failed.
#[derive(Debug)]
pub enum RelayConnectionError {
    Decrypt(snow::Error),
    Encrypt(snow::Error),
}

/// The longest message before it is encrypted.
pub const MAX_ENCODED_LEN: usize = 65535;

/// How many seconds pass on a silent connection before a ping is sent.
pub const PING_INTERVAL_SECS: u64 = 1;

/// How many bytes stand before the data of a frame.
pub const HEADER_LEN: usize = 2;

/// The length of some data in two bytes, the higher one first.
pub open spec fn header(len: nat) -> Seq<u8> {
    seq![(len / 256) as u8, (len % 256) as u8]
}

/// The length that two bytes give.
pub open spec fn length(header: Seq<u8>) -> nat {
    (header[0] * 256 + header[1]) as nat
}

/// Data as it is sent: its length, then the data.
pub open spec fn frame(data: Seq<u8>) -> Seq<u8> {
    header(data.len()) + data
}

/// From bytes that start with a frame, the length of its data, the data, and what follows it can
/// be read.
pub proof fn frame_reads_back(data: Seq<u8>, rest: Seq<u8>)
    requires
        data.len() <= MAX_MESSAGE_LEN,
    ensures
        length((frame(data) + rest).take(HEADER_LEN as int)) == data.len(),
        (frame(data) + rest).skip(HEADER_LEN as int).take(data.len() as int) == data,
        (frame(data) + rest).skip(frame(data).len() as int) == rest,
{
    let stream = frame(data) + rest;
    assert(stream.take(HEADER_LEN as int) =~= header(data.len()));
    assert(stream.skip(HEADER_LEN as int).take(data.len() as int) =~= data);
    assert(stream.skip(frame(data).len() as int) =~= rest);
}

/// Tells how much data follows a header.
pub fn data_len(header: [u8; 2]) -> (len: usize)
    ensures
        len == length(header@),
        len <= MAX_MESSAGE_LEN,
{
    header[0] as usize * 256 + header[1] as usize
}

/// Puts the first `len` bytes of a buffer into a frame.
fn frame_of(data: &Vec<u8>, len: usize) -> (result: Vec<u8>)
    requires
        len <= data@.len(),
        len <= MAX_MESSAGE_LEN,
    ensures
        result@ == frame(data@.take(len as int)),
{
    let mut result: Vec<u8> = Vec::with_capacity(HEADER_LEN + len);
    result.push((len / 256) as u8);
    result.push((len % 256) as u8);
    let mut i: usize = 0;
    assert(result@ =~= header(len as nat) + data@.take(0));
    while i < len
        invariant
            i <= len <= data@.len(),
            result@ == header(len as nat) + data@.take(i as int),
        decreases len - i,
    {
        result.push(data[i]);
        i = i + 1;
        assert(result@ =~= header(len as nat) + data@.take(i as int));
    }
    result
}

/// What is to be done next in a handshake.
#[derive(Debug, PartialEq, Eq)]
pub enum HandshakeAction {
    /// Send these bytes.
    Send(Vec<u8>),
    /// Wait for a frame, and hand over its data.
    Receive,
    /// Go over to encrypted messages.
    Finish,
}

/// How far a handshake has come, seen from one side.
pub struct HandshakeView {
    /// It is this side's turn to send.
    pub my_turn: bool,
    /// How many messages are left to exchange.
    pub left: nat,
    /// The messages that were exchanged, in order.
    pub messages: Seq<Seq<u8>>,
    /// The key that this side made up last, as it shows it to the other side.
    pub key: Seq<u8>,
    /// Where the other relay is.
    pub peer_addr: SocketAddr,
}

impl HandshakeView {
    /// This side is to send.
    pub open spec fn sends(self) -> bool {
        self.left > 0 && self.my_turn
    }

    /// This side is to receive.
    pub open spec fn receives(self) -> bool {
        self.left > 0 && !self.my_turn
    }

    /// How long the next message is: a key, and after the first message a tag.
    pub open spec fn next_len(self) -> nat {
        if self.left == HANDSHAKE_MESSAGES {
            KEY_LEN as nat
        } else {
            (KEY_LEN + TAG_LEN) as nat
        }
    }

    /// A message is one that this side sends next, and this is how far the handshake has come
    /// then.
    pub open spec fn sent(self, message: Seq<u8>, after: HandshakeView) -> bool {
        &&& self.sends()
        &&& message.len() == self.next_len()
        &&& message.take(KEY_LEN as int) == after.key
        &&& after == (HandshakeView {
            my_turn: false,
            left: (self.left - 1) as nat,
            messages: self.messages.push(message),
            key: after.key,
            peer_addr: self.peer_addr,
        })
    }

    /// How far the handshake has come when this side has received a message.
    pub open spec fn received(self, message: Seq<u8>, after: HandshakeView) -> bool {
        &&& self.receives()
        &&& message.len() == self.next_len()
        &&& after == (HandshakeView {
            my_turn: true,
            left: (self.left - 1) as nat,
            messages: self.messages.push(message),
            ..self
        })
    }
}

/// Two sides have exchanged the same messages, and each knows which one is to send.
pub open spec fn take_turns(a: HandshakeView, b: HandshakeView) -> bool {
    a.left == b.left && a.my_turn != b.my_turn && a.messages == b.messages
}

/// Two sides that start a handshake with each other take turns, keep doing so whenever one
/// receives what the other sent, and are done at the same time.
pub proof fn handshake_goes_by_turns(
    sender: HandshakeView,
    receiver: HandshakeView,
    message: Seq<u8>,
    sender_after: HandshakeView,
    receiver_after: HandshakeView,
)
    requires
        take_turns(sender, receiver),
        sender.sent(message, sender_after),
    ensures
        receiver.receives(),
        receiver.next_len() == message.len(),
        receiver.received(message, receiver_after) ==> take_turns(sender_after, receiver_after),
        sender.left == 0 <==> receiver.left == 0,
{
}

/// A connection to another relay before the handshake is done.
pub struct RelayConnection {
    peer_addr: SocketAddr,
    handshake: HandshakeState,
}

impl View for RelayConnection {
    type V = HandshakeView;

    closed spec fn view(&self) -> HandshakeView {
        HandshakeView {
            my_turn: handshake_my_turn(self.handshake),
            left: handshake_left(self.handshake),
            messages: handshake_messages(self.handshake),
            key: handshake_key(self.handshake),
            peer_addr: self.peer_addr,
        }
    }
}

impl RelayConnection {
    /// The connection speaks the protocol that relays speak.
    pub closed spec fn wf(&self) -> bool {
        handshake_protocol(self.handshake) == PATTERN@ && handshake_left(self.handshake)
            <= HANDSHAKE_MESSAGES
    }

    /// A message answers the one that this side sent.
    pub closed spec fn answered_by(&self, message: Seq<u8>) -> bool {
        handshake_takes(self.handshake, message)
    }

    /// The keys that the finished handshake came to: the one to send under, and the one to
    /// receive under.
    pub closed spec fn keys(&self) -> (Seq<u8>, Seq<u8>) {
        handshake_keys(self.handshake)
    }

    /// This side takes a message in: it is this side's turn to receive, and the message is any
    /// key if it is the first one, and an answer if it is the second one.
    pub open spec fn takes(&self, message: Seq<u8>) -> bool {
        &&& self@.receives()
        &&& message.len() == self@.next_len()
        &&& self@.left == HANDSHAKE_MESSAGES || self.answered_by(message)
    }

    /// Any side that waits for an answer to the messages so far takes this one.
    pub open spec fn is_answered_with(&self, message: Seq<u8>) -> bool {
        forall|other: RelayConnection|
            other.wf() && other@.receives() && other@.left == 1 && other@.messages
                == self@.messages ==> #[trigger] other.answered_by(message)
    }

    /// This side has come to the same keys as any side that answered with the same messages, each
    /// sending under the key that the other receives under.
    pub open spec fn agrees_on_keys(&self) -> bool {
        forall|other: RelayConnection|
            other.wf() && !other@.my_turn && other@.left == 0 && other@.messages == self@.messages
                ==> self.keys() == ((#[trigger] other.keys()).1, other.keys().0)
    }

    /// A relay connected to this one: it starts the handshake.
    pub fn accept(addr: SocketAddr) -> (result: Result<Self, RelayConnectError>)
        ensures
            result matches Ok(connection) && connection.wf() && connection@ == (HandshakeView {
                my_turn: false,
                left: HANDSHAKE_MESSAGES as nat,
                messages: Seq::empty(),
                key: connection@.key,
                peer_addr: addr,
            }),
    {
        match build_responder(PATTERN) {
            Ok(handshake) => {
                let connection = RelayConnection { peer_addr: addr, handshake };
                assert(connection@.messages =~= Seq::empty());
                Ok(connection)
            },
            Err(error) => Err(RelayConnectError::Encryption(error)),
        }
    }

    /// This relay connected to another one: it starts the handshake.
    pub fn connect(addr: SocketAddr) -> (result: Result<Self, RelayConnectError>)
        ensures
            result matches Ok(connection) && connection.wf() && connection@ == (HandshakeView {
                my_turn: true,
                left: HANDSHAKE_MESSAGES as nat,
                messages: Seq::empty(),
                key: connection@.key,
                peer_addr: addr,
            }),
    {
        match build_initiator(PATTERN) {
            Ok(handshake) => {
                let connection = RelayConnection { peer_addr: addr, handshake };
                assert(connection@.messages =~= Seq::empty());
                Ok(connection)
            },
            Err(error) => Err(RelayConnectError::Encryption(error)),
        }
    }

    /// Returns where the other relay is.
    pub fn peer_addr(&self) -> (addr: SocketAddr)
        ensures
            addr == self@.peer_addr,
    {
        self.peer_addr
    }

    /// Tells what is to be done next. If something is to be sent, it counts as sent. It is the
    /// frame of the next message of the handshake, which starts with a key that was just made up;
    /// a side that waits for an answer takes it.
    pub fn next_action(&mut self) -> (result: Result<HandshakeAction, RelayConnectionError>)
        requires
            old(self).wf(),
        ensures
            final(self).wf(),
            match result {
                Ok(HandshakeAction::Finish) => old(self)@.left == 0 && *final(self) == *old(self),
                Ok(HandshakeAction::Receive) => old(self)@.receives() && *final(self) == *old(self),
                Ok(HandshakeAction::Send(bytes)) => {
                    let message = final(self)@.messages.last();
                    &&& bytes@ == frame(message)
                    &&& old(self)@.sent(message, final(self)@)
                    &&& old(self)@.left == 1 ==> old(self).is_answered_with(message)
                },
                Err(_) => false,
            },
    {
        if self.handshake.is_handshake_finished() {
            return Ok(HandshakeAction::Finish);
        }
        if !self.handshake.is_my_turn() {
            return Ok(HandshakeAction::Receive);
        }
        let mut data: Vec<u8> = vec![0u8; MAX_MESSAGE_LEN];
        let payload: Vec<u8> = Vec::new();
        match self.handshake.write_message(payload.as_slice(), data.as_mut_slice()) {
            Ok(len) => {
                let ghost message = data@.take(len as int);
                assert(message.take(KEY_LEN as int) =~= data@.take(KEY_LEN as int));
                assert(self@.messages.last() == message);
                Ok(HandshakeAction::Send(frame_of(&data, len)))
            },
            Err(error) => Err(RelayConnectionError::Encrypt(error)),
        }
    }

    /// Takes in the data of a frame, if it is this side's turn to receive and the data is the next
    /// message of the handshake.
    pub fn receive(&mut self, data: &[u8]) -> (result: Result<(), RelayConnectionError>)
        requires
            old(self).wf(),
        ensures
            final(self).wf(),
            result is Ok <==> old(self).takes(data@),
            match result {
                Ok(()) => {
                    &&& old(self)@.received(data@, final(self)@)
                    &&& final(self)@.left == 0 ==> final(self).agrees_on_keys()
                },
                Err(error) => error is Decrypt && final(self)@ == old(self)@,
            },
    {
        let mut payload: Vec<u8> = Vec::new();
        match self.handshake.read_message(data, payload.as_mut_slice()) {
            Ok(_) => Ok(()),
            Err(error) => Err(RelayConnectionError::Decrypt(error)),
        }
    }

    /// Goes over to encrypted messages, under the keys that the handshake came to.
    pub fn into_transport(self) -> (result: Result<RelayTransport, RelayConnectionError>)
        requires
            self.wf(),
        ensures
            result is Ok <==> self@.left == 0,
            match result {
                Ok(transport) => {
                    &&& transport.wf()
                    &&& transport@.sending == (Direction { key: self.keys().0, nonce: 0 })
                    &&& transport@.receiving == (Direction { key: self.keys().1, nonce: 0 })
                },
                Err(error) => error is Encrypt,
            },
    {
        match self.handshake.into_transport_mode() {
            Ok(state) => Ok(RelayTransport { state }),
            Err(error) => Err(RelayConnectionError::Encrypt(error)),
        }
    }
}

/// What a side sends first, the other side takes.
pub proof fn first_message_is_taken(
    initiator: RelayConnection,
    message: Seq<u8>,
    after: RelayConnection,
    responder: RelayConnection,
)
    requires
        initiator@.left == HANDSHAKE_MESSAGES,
        initiator@.sent(message, after@),
        take_turns(initiator@, responder@),
    ensures
        responder.takes(message),
{
}

/// What a side answers, the other side takes.
pub proof fn second_message_is_taken(
    responder: RelayConnection,
    message: Seq<u8>,
    after: RelayConnection,
    initiator: RelayConnection,
)
    requires
        initiator.wf(),
        responder@.left == 1,
        responder@.sent(message, after@),
        responder.is_answered_with(message),
        take_turns(initiator@, responder@),
    ensures
        initiator.takes(message),
{
}

/// Two sides that are done with a handshake are in step both ways: what the one sends first, the
/// other receives first.
pub proof fn finished_sides_are_in_step(
    initiator: RelayConnection,
    responder: RelayConnection,
    initiator_transport: TransportView,
    responder_transport: TransportView,
)
    requires
        responder.wf(),
        initiator@.left == 0,
        initiator@.my_turn,
        initiator.agrees_on_keys(),
        take_turns(initiator@, responder@),
        initiator_transport.starts_with(initiator.keys()),
        responder_transport.starts_with(responder.keys()),
    ensures
        in_step(initiator_transport, responder_transport),
        in_step(responder_transport, initiator_transport),
{
    assert(responder.keys().1 == initiator.keys().0);
}

/// One direction of an encrypted connection: its key, and the number of the next message.
pub struct Direction {
    pub key: Seq<u8>,
    pub nonce: u64,
}

impl Direction {
    /// The direction after one more message.
    pub open spec fn next(self) -> Direction {
        Direction { key: self.key, nonce: (self.nonce + 1) as u64 }
    }

    /// There is a number left for one more message.
    pub open spec fn lasts(self) -> bool {
        self.nonce < u64::MAX
    }

    /// A plain message, encrypted as the next one.
    pub open spec fn seal(self, plain: Seq<u8>) -> Seq<u8> {
        sealed(self.key, self.nonce, plain)
    }

    /// A message can be sent.
    pub open spec fn can_send(self, plain: Seq<u8>) -> bool {
        plain.len() + TAG_LEN <= MAX_MESSAGE_LEN && self.lasts()
    }

    /// Data is sent for a message, or none for a ping, and this is the direction then.
    pub open spec fn wrote(self, plain: Option<Seq<u8>>, data: Seq<u8>, after: Direction) -> bool {
        match plain {
            Some(plain) => {
                &&& self.can_send(plain)
                &&& data == self.seal(plain)
                &&& data.len() == plain.len() + TAG_LEN
                &&& after == self.next()
            },
            None => data.len() == 0 && after == self,
        }
    }

    /// Data is received as a message, or as nothing if it is none, and this is the direction then.
    pub open spec fn read(self, data: Seq<u8>, plain: Option<Seq<u8>>, after: Direction) -> bool {
        &&& match plain {
            Some(plain) if data.len() == 0 => plain.len() == 0 && after == self,
            Some(plain) => self.lasts() && data == self.seal(plain) && after == self.next(),
            None => data.len() > 0 && after == self,
        }
        &&& forall|sent: Seq<u8>|
            0 < data.len() <= MAX_MESSAGE_LEN && self.lasts() && data == #[trigger] self.seal(sent)
                ==> plain == Some(sent)
    }
}

/// Both directions of an encrypted connection, seen from one side.
pub struct TransportView {
    pub sending: Direction,
    pub receiving: Direction,
}

impl TransportView {
    /// Nothing was sent or received yet under these keys.
    pub open spec fn starts_with(self, keys: (Seq<u8>, Seq<u8>)) -> bool {
        &&& self.sending == (Direction { key: keys.0, nonce: 0 })
        &&& self.receiving == (Direction { key: keys.1, nonce: 0 })
    }
}

/// What one side sends next, the other side receives next.
pub open spec fn in_step(sender: TransportView, receiver: TransportView) -> bool {
    sender.sending == receiver.receiving
}

/// What comes out on the other side for what was sent: the message, or an empty one for a ping.
pub open spec fn arrives_as(plain: Option<Seq<u8>>) -> Option<Seq<u8>> {
    match plain {
        Some(plain) => Some(plain),
        None => Some(Seq::empty()),
    }
}

/// On two sides that are in step, whatever the one sends comes out on the other as it went in, in
/// the same order, with an empty message for each ping; and they stay in step. `sending` and
/// `receiving` are the direction before each piece of data and after the last one.
pub proof fn messages_arrive_in_order(
    sending: Seq<Direction>,
    plain: Seq<Option<Seq<u8>>>,
    data: Seq<Seq<u8>>,
    received: Seq<Option<Seq<u8>>>,
    receiving: Seq<Direction>,
)
    requires
        plain.len() == data.len() == received.len(),
        sending.len() == receiving.len() == data.len() + 1,
        sending[0] == receiving[0],
        forall|k: int|
            0 <= k < data.len() ==> #[trigger] sending[k].wrote(plain[k], data[k], sending[k + 1]),
        forall|k: int|
            0 <= k < data.len() ==> #[trigger] receiving[k].read(
                data[k],
                received[k],
                receiving[k + 1],
            ),
    ensures
        forall|k: int| 0 <= k < data.len() ==> received[k] == arrives_as(#[trigger] plain[k]),
        forall|k: int| 0 <= k <= data.len() ==> #[trigger] sending[k] == receiving[k],
    decreases data.len(),
{
    if data.len() > 0 {
        let n = data.len() - 1;
        messages_arrive_in_order(
            sending.drop_last(),
            plain.drop_last(),
            data.drop_last(),
            received.drop_last(),
            receiving.drop_last(),
        );
        assert(sending.drop_last()[n] == receiving.drop_last()[n]);
        assert(sending[n].wrote(plain[n], data[n], sending[n + 1]));
        assert(receiving[n].read(data[n], received[n], receiving[n + 1]));
        if let Some(sent) = plain[n] {
            assert(data[n] == receiving[n].seal(sent));
        } else {
            assert(received[n]->0 =~= Seq::empty());
        }
        assert forall|k: int| 0 <= k < data.len() implies received[k] == arrives_as(
            #[trigger] plain[k],
        ) by {
            if k < n {
                assert(plain.drop_last()[k] == plain[k]);
                assert(received.drop_last()[k] == received[k]);
            }
        }
        assert forall|k: int| 0 <= k <= data.len() implies #[trigger] sending[k]
            == receiving[k] by {
            if k <= n {
                assert(sending.drop_last()[k] == receiving.drop_last()[k]);
            }
        }
    }
}

/// The encrypted messages of a connection to another relay.
pub struct RelayTransport {
    state: TransportState,
}

impl View for RelayTransport {
    type V = TransportView;

    closed spec fn view(&self) -> TransportView {
        TransportView {
            sending: Direction { key: sending_key(self.state), nonce: sending_nonce(self.state) },
            receiving: Direction {
                key: receiving_key(self.state),
                nonce: receiving_nonce(self.state),
            },
        }
    }
}

/// What the writing side of a connection waits for.
#[derive(Clone, Copy, Debug)]
pub enum WriteEvent<'a> {
    /// There is a message to send, in its encoded form.
    Message(&'a [u8]),
    /// Nothing was sent for a while.
    Timeout,
    /// Nothing will be sent any more.
    Disconnected,
}

/// What the writing side of a connection does.
#[derive(Debug, PartialEq, Eq)]
pub enum WriteAction {
    /// Send these bytes.
    Send(Vec<u8>),
    /// Stop writing.
    Stop,
}

impl RelayTransport {
    /// The connection speaks the protocol that relays speak.
    pub closed spec fn wf(&self) -> bool {
        transport_protocol(self.state) == PATTERN@
    }

    /// Encrypts a message and puts it into a frame.
    pub fn seal(&mut self, encoded: &[u8]) -> (result: Result<Vec<u8>, RelayConnectionError>)
        requires
            old(self).wf(),
        ensures
            final(self).wf(),
            final(self)@.receiving == old(self)@.receiving,
            result is Ok <==> old(self)@.sending.can_send(encoded@),
            match result {
                Ok(bytes) => {
                    let data = old(self)@.sending.seal(encoded@);
                    &&& bytes@ == frame(data)
                    &&& old(self)@.sending.wrote(Some(encoded@), data, final(self)@.sending)
                },
                Err(error) => error is Encrypt && final(self)@ == old(self)@,
            },
    {
        let mut data: Vec<u8> = vec![0u8; MAX_MESSAGE_LEN];
        match self.state.write_message(encoded, data.as_mut_slice()) {
            Ok(len) => Ok(frame_of(&data, len)),
            Err(error) => Err(RelayConnectionError::Encrypt(error)),
        }
    }

    /// Decrypts the data of a frame. What a side that is in step sealed comes out as it went in.
    /// Without data there is an empty message, and nothing to decrypt.
    pub fn open(&mut self, data: &[u8]) -> (result: Result<Vec<u8>, RelayConnectionError>)
        requires
            old(self).wf(),
        ensures
            final(self).wf(),
            final(self)@.sending == old(self)@.sending,
            old(self)@.receiving.read(
                data@,
                match result {
                    Ok(plain) => Some(plain@),
                    Err(_) => None,
                },
                final(self)@.receiving,
            ),
            result matches Err(error) ==> error is Decrypt,
    {
        if data.len() == 0 {
            return Ok(Vec::new());
        }
        let mut plain: Vec<u8> = vec![0u8; MAX_ENCODED_LEN];
        match self.state.read_message(data, plain.as_mut_slice()) {
            Ok(len) => {
                plain.truncate(len);
                Ok(plain)
            },
            Err(error) => Err(RelayConnectionError::Decrypt(error)),
        }
    }

    /// Tells what the writing side does when something happens.
    pub fn next_write(&mut self, event: WriteEvent) -> (result: Result<
        WriteAction,
        RelayConnectionError,
    >)
        requires
            old(self).wf(),
        ensures
            final(self).wf(),
            final(self)@.receiving == old(self)@.receiving,
            match event {
                WriteEvent::Message(encoded) => {
                    &&& result is Ok <==> old(self)@.sending.can_send(encoded@)
                    &&& match result {
                        Ok(WriteAction::Send(bytes)) => {
                            let data = old(self)@.sending.seal(encoded@);
                            &&& bytes@ == frame(data)
                            &&& old(self)@.sending.wrote(Some(encoded@), data, final(self)@.sending)
                        },
                        Ok(WriteAction::Stop) => false,
                        Err(error) => error is Encrypt && final(self)@ == old(self)@,
                    }
                },
                WriteEvent::Timeout => {
                    &&& result matches Ok(WriteAction::Send(bytes)) && bytes@ == frame(Seq::empty())
                    &&& old(self)@.sending.wrote(None, Seq::empty(), final(self)@.sending)
                },
                WriteEvent::Disconnected => {
                    &&& final(self)@ == old(self)@
                    &&& result matches Ok(WriteAction::Stop)
                },
            },
    {
        match event {
            WriteEvent::Message(encoded) => match self.seal(encoded) {
                Ok(bytes) => Ok(WriteAction::Send(bytes)),
                Err(error) => Err(error),
            },
            WriteEvent::Timeout => {
                let nothing: Vec<u8> = Vec::new();
                let bytes = frame_of(&nothing, 0);
                assert(nothing@.take(0) =~= Seq::empty());
                Ok(WriteAction::Send(bytes))
            },
            WriteEvent::Disconnected => Ok(WriteAction::Stop),
        }
    }
}

/// A connection stands for the messages that wait, one by one, and for whether it is gone.
pub proof fn reading_a_relay_queue(handle: RelayConnectionHandle)
    ensures
        handle@.closed == handle.closed,
        handle@.queue.len() == handle.queue@.len(),
        forall|i: int|
            0 <= i < handle.queue@.len() ==> #[trigger] handle@.queue[i] == handle.queue@[i]@,
{
}

/// A frame is the length of the data in two bytes, the higher one first, and then all the data.
pub proof fn framing(data: Seq<u8>, high: u8, low: u8)
    requires
        data.len() <= 65535,
    ensures
        frame(data).len() == data.len() + 2,
        frame(data)[0] * 256 + frame(data)[1] == data.len(),
        forall|i: int| 0 <= i < data.len() ==> frame(data)[i + 2] == #[trigger] data[i],
        length(seq![high, low]) == high * 256 + low,
{
}

/// The sizes that the two sides agree on, and how long they wait.
pub proof fn sizes()
    ensures
        MAX_ENCODED_LEN == 65535,
        MAX_MESSAGE_LEN == 65535,
        HEADER_LEN == 2,
        KEY_LEN == 32,
        TAG_LEN == 16,
        HANDSHAKE_MESSAGES == 2,
        PING_INTERVAL_SECS == 1,
{
}

/// While messages are left, the side whose turn it is sends, and the other one receives. The first
/// message has 32 bytes, and the second one 48.
pub proof fn taking_turns(view: HandshakeView)
    ensures
        view.sends() <==> view.left > 0 && view.my_turn,
        view.receives() <==> view.left > 0 && !view.my_turn,
        view.left == 2 ==> view.next_len() == 32,
        view.left == 1 ==> view.next_len() == 48,
{
}

/// A message that is sent or received is one more message, takes the turn from or to this side, and
/// leaves one message fewer; a message that is sent starts with this side's key.
pub proof fn exchanging_a_message(view: HandshakeView, message: Seq<u8>, after: HandshakeView)
    ensures
        view.sent(message, after) || view.received(message, after) ==> {
            &&& view.left > 0
            &&& after.left == view.left - 1
            &&& after.messages.len() == view.messages.len() + 1
            &&& after.messages.last() == message
            &&& forall|i: int|
                0 <= i < view.messages.len() ==> #[trigger] after.messages[i] == view.messages[i]
            &&& after.peer_addr == view.peer_addr
            &&& view.left == 2 ==> message.len() == 32
            &&& view.left == 1 ==> message.len() == 48
        },
        view.sent(message, after) ==> {
            &&& view.my_turn && !after.my_turn
            &&& message.take(32) == after.key
        },
        view.received(message, after) ==> {
            &&& !view.my_turn && after.my_turn
            &&& after.key == view.key
        },
{
}

/// A side that is to receive takes any 32 bytes as the first message, and as the second one 48
/// bytes that answer it.
pub proof fn taking_a_message(connection: RelayConnection, message: Seq<u8>)
    ensures
        connection@.left == 2 ==> (connection.takes(message) <==> !connection@.my_turn
            && message.len() == 32),
        connection@.left == 1 ==> (connection.takes(message) <==> !connection@.my_turn
            && message.len() == 48 && connection.answered_by(message)),
        connection@.left == 0 ==> !connection.takes(message),
{
}

/// Any message of up to 65519 bytes can be sent while there are numbers left, and takes one; a ping
/// carries nothing and takes none.
pub proof fn sending(direction: Direction, plain: Seq<u8>, data: Seq<u8>, after: Direction)
    ensures
        direction.can_send(plain) <==> plain.len() <= 65519 && direction.nonce < u64::MAX,
        direction.seal(plain) == sealed(direction.key, direction.nonce, plain),
        direction.wrote(Some(plain), data, after) <==> {
            &&& plain.len() <= 65519
            &&& direction.nonce < u64::MAX
            &&& data == sealed(direction.key, direction.nonce, plain)
            &&& data.len() == plain.len() + 16
            &&& after.key == direction.key
            &&& after.nonce == direction.nonce + 1
        },
        direction.wrote(None, data, after) <==> data.len() == 0 && after == direction,
{
}

/// Data that was encrypted as the next message is received as that message, and takes a number; any
/// other data but none is refused, and takes none.
pub proof fn receiving(
    direction: Direction,
    data: Seq<u8>,
    plain: Option<Seq<u8>>,
    after: Direction,
)
    requires
        direction.read(data, plain, after),
    ensures
        data.len() == 0 ==> plain is Some && plain->0.len() == 0 && after == direction,
        data.len() > 0 && plain is Some ==> {
            &&& direction.nonce < u64::MAX
            &&& data == sealed(direction.key, direction.nonce, plain->0)
            &&& after.key == direction.key
            &&& after.nonce == direction.nonce + 1
        },
        plain is None ==> after == direction,
        forall|sent: Seq<u8>|
            0 < data.len() <= 65535 && direction.nonce < u64::MAX && data == #[trigger] sealed(
                direction.key,
                direction.nonce,
                sent,
            ) ==> plain == Some(sent),
{
    assert forall|sent: Seq<u8>|
        0 < data.len() <= 65535 && direction.nonce < u64::MAX && data == #[trigger] sealed(
            direction.key,
            direction.nonce,
            sent,
        ) implies plain == Some(sent) by {
        assert(data == direction.seal(sent));
    }
}

} // verus!
