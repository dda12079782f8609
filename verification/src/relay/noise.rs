//! The encryption between relays, which the `snow` crate provides.
use snow::{Error, HandshakeState, TransportState};
use vstd::prelude::*;

verus! {

/// The protocol that relays speak: both sides make up a key for the connection, and neither
/// shows who it is.
pub const PATTERN: &'static str = "Noise_NN_25519_ChaChaPoly_BLAKE2s";

/// How many messages the handshake of the protocol takes.
pub const HANDSHAKE_MESSAGES: u8 = 2;

/// The longest message.
pub const MAX_MESSAGE_LEN: usize = 65535;

/// By how much an encrypted message is longer than the plain one.
pub const TAG_LEN: usize = 16;

/// The length of the keys that the two sides of a handshake show each other.
pub const KEY_LEN: usize = 32;

/// [`snow::Error`], of which nothing is known.
#[verifier::external_type_specification]
#[verifier::external_body]
pub struct ExError(snow::Error);

/// [`snow::HandshakeState`]: one side of a handshake.
#[verifier::external_type_specification]
#[verifier::external_body]
pub struct ExHandshakeState(snow::HandshakeState);

/// [`snow::TransportState`]: one side of an encrypted connection.
#[verifier::external_type_specification]
#[verifier::external_body]
pub struct ExTransportState(snow::TransportState);

/// The protocol that a handshake was started for, with nothing else agreed on beforehand.
pub uninterp spec fn handshake_protocol(state: HandshakeState) -> Seq<char>;

/// It is this side's turn to send.
pub uninterp spec fn handshake_my_turn(state: HandshakeState) -> bool;

/// How many messages of a handshake are left to exchange.
pub uninterp spec fn handshake_left(state: HandshakeState) -> nat;

/// The messages of a handshake that were exchanged, in order.
pub uninterp spec fn handshake_messages(state: HandshakeState) -> Seq<Seq<u8>>;

/// The key that this side made up last, as it shows it to the other side.
pub uninterp spec fn handshake_key(state: HandshakeState) -> Seq<u8>;

/// A message answers the one that this side sent: its encrypted part holds under the key that
/// both sides come to, for the messages so far.
pub uninterp spec fn handshake_takes(state: HandshakeState, message: Seq<u8>) -> bool;

/// The keys that a finished handshake came to: the one to send under, and the one to receive
/// under.
pub uninterp spec fn handshake_keys(state: HandshakeState) -> (Seq<u8>, Seq<u8>);

/// The protocol that an encrypted connection was set up with.
pub uninterp spec fn transport_protocol(state: TransportState) -> Seq<char>;

/// The key under which this side sends.
pub uninterp spec fn sending_key(state: TransportState) -> Seq<u8>;

/// How many messages this side has sent.
pub uninterp spec fn sending_nonce(state: TransportState) -> u64;

/// The key under which this side receives.
pub uninterp spec fn receiving_key(state: TransportState) -> Seq<u8>;

/// How many messages this side has received.
pub uninterp spec fn receiving_nonce(state: TransportState) -> u64;

/// A plain message, encrypted under a key as the one with this number.
pub uninterp spec fn sealed(key: Seq<u8>, nonce: u64, plain: Seq<u8>) -> Seq<u8>;

/// `snow::Builder::build_initiator`, on a builder that knows nothing but the protocol. Fails if
/// there is no such protocol, or if it asks for more. Of [`PATTERN`] the contract claims that
/// nothing more is asked for, that the initiator sends first, and how many messages there are.
#[verifier::external_body]
pub(crate) fn build_initiator(pattern: &str) -> (result: Result<HandshakeState, Error>)
    ensures
        pattern@ == PATTERN@ ==> result is Ok,
        match result {
            Ok(state) => {
                &&& handshake_protocol(state) == pattern@
                &&& handshake_my_turn(state)
                &&& handshake_messages(state).len() == 0
                &&& pattern@ == PATTERN@ ==> handshake_left(state) == HANDSHAKE_MESSAGES
            },
            Err(_) => true,
        },
{
    snow::Builder::new(pattern.parse()?).build_initiator()
}

/// `snow::Builder::build_responder`, on a builder that knows nothing but the protocol. Fails if
/// there is no such protocol, or if it asks for more. Of [`PATTERN`] the contract claims that
/// nothing more is asked for, that the responder receives first, and how many messages there
/// are.
#[verifier::external_body]
pub(crate) fn build_responder(pattern: &str) -> (result: Result<HandshakeState, Error>)
    ensures
        pattern@ == PATTERN@ ==> result is Ok,
        match result {
            Ok(state) => {
                &&& handshake_protocol(state) == pattern@
                &&& !handshake_my_turn(state)
                &&& handshake_messages(state).len() == 0
                &&& pattern@ == PATTERN@ ==> handshake_left(state) == HANDSHAKE_MESSAGES
            },
            Err(_) => true,
        },
{
    snow::Builder::new(pattern.parse()?).build_responder()
}

/// `snow::HandshakeState::is_my_turn` tells whether it is this side's turn to send.
pub assume_specification[ HandshakeState::is_my_turn ](state: &HandshakeState) -> (result: bool)
    ensures
        result == handshake_my_turn(*state),
;

/// `snow::HandshakeState::is_handshake_finished` tells whether no message is left to exchange.
pub assume_specification[ HandshakeState::is_handshake_finished ](
    state: &HandshakeState,
) -> (result: bool)
    ensures
        result == (handshake_left(*state) == 0),
;

/// `snow::HandshakeState::write_message` puts the next message of a handshake into a buffer, and
/// returns its length. It is only written in turn, and one message fewer is left then. With
/// [`PATTERN`] it is written whenever there is room for a key, the payload and a tag. It starts
/// with a key that was just made up; the first message goes on with the payload, the second one
/// with the encrypted payload. A side that sent the first message as this side received it takes
/// the second one as an answer. After a failure the same messages are left, and it is the same
/// side's turn.
pub assume_specification[ HandshakeState::write_message ](
    state: &mut HandshakeState,
    payload: &[u8],
    message: &mut [u8],
) -> (result: Result<usize, Error>)
    requires
        handshake_protocol(*old(state)) == PATTERN@,
    ensures
        final(message)@.len() == old(message)@.len(),
        handshake_protocol(*final(state)) == handshake_protocol(*old(state)),
        handshake_my_turn(*old(state)) && handshake_left(*old(state)) > 0 && KEY_LEN
            + payload@.len() + TAG_LEN <= MAX_MESSAGE_LEN && KEY_LEN + payload@.len() + TAG_LEN
            <= old(message)@.len() ==> result is Ok,
        match result {
            Ok(len) => {
                &&& len <= old(message)@.len()
                &&& len <= MAX_MESSAGE_LEN
                &&& len == KEY_LEN + payload@.len() + (if handshake_left(*old(state))
                    == HANDSHAKE_MESSAGES {
                    0int
                } else {
                    TAG_LEN as int
                })
                &&& final(message)@.take(KEY_LEN as int) == handshake_key(*final(state))
                &&& handshake_my_turn(*old(state))
                &&& !handshake_my_turn(*final(state))
                &&& handshake_left(*old(state)) == handshake_left(*final(state)) + 1
                &&& handshake_messages(*final(state)) == handshake_messages(*old(state)).push(
                    final(message)@.take(len as int),
                )
                &&& handshake_left(*old(state)) == 1 ==> forall|other: HandshakeState|
                    handshake_protocol(other) == PATTERN@ && !handshake_my_turn(other)
                        && handshake_left(other) == 1 && handshake_messages(other)
                        == handshake_messages(*old(state)) ==> #[trigger] handshake_takes(
                        other,
                        final(message)@.take(len as int),
                    )
            },
            Err(_) => {
                &&& handshake_messages(*final(state)) == handshake_messages(*old(state))
                &&& handshake_my_turn(*final(state)) == handshake_my_turn(*old(state))
                &&& handshake_left(*final(state)) == handshake_left(*old(state))
            },
        },
;

/// `snow::HandshakeState::read_message` takes in the next message of a handshake, and puts what
/// it carries into a buffer. It is only taken in turn, and one message fewer is left then. With
/// [`PATTERN`] the first message is any key with a payload for which there is room. The second one
/// is a key with an encrypted payload for which there is room, if it answers the first one as
/// [`handshake_takes`] names it. Then this side has come to the same keys as a side that answered
/// the same first message with it, each sending under the key that the other receives under.
/// After a failure the same messages are left, and it is the same side's turn. This side's own
/// key stays.
pub assume_specification[ HandshakeState::read_message ](
    state: &mut HandshakeState,
    message: &[u8],
    payload: &mut [u8],
) -> (result: Result<usize, Error>)
    requires
        handshake_protocol(*old(state)) == PATTERN@,
    ensures
        final(payload)@.len() == old(payload)@.len(),
        handshake_protocol(*final(state)) == handshake_protocol(*old(state)),
        handshake_key(*final(state)) == handshake_key(*old(state)),
        !handshake_my_turn(*old(state)) && handshake_left(*old(state)) == HANDSHAKE_MESSAGES ==> (
        result is Ok <==> KEY_LEN <= message@.len() <= MAX_MESSAGE_LEN && message@.len() - KEY_LEN
            <= old(payload)@.len()),
        !handshake_my_turn(*old(state)) && handshake_left(*old(state)) == 1 ==> (result is Ok
            <==> KEY_LEN + TAG_LEN <= message@.len() <= MAX_MESSAGE_LEN && message@.len() - KEY_LEN
            - TAG_LEN <= old(payload)@.len() && handshake_takes(*old(state), message@)),
        match result {
            Ok(len) => {
                &&& len <= old(payload)@.len()
                &&& message@.len() <= MAX_MESSAGE_LEN
                &&& !handshake_my_turn(*old(state))
                &&& handshake_my_turn(*final(state))
                &&& handshake_left(*old(state)) == handshake_left(*final(state)) + 1
                &&& handshake_messages(*final(state)) == handshake_messages(*old(state)).push(
                    message@,
                )
                &&& handshake_left(*old(state)) == 1 ==> forall|other: HandshakeState|
                    handshake_protocol(other) == PATTERN@ && !handshake_my_turn(other)
                        && handshake_left(other) == 0 && handshake_messages(other)
                        == handshake_messages(*final(state)) ==> handshake_keys(*final(state)) == (
                        (#[trigger] handshake_keys(other)).1,
                        handshake_keys(other).0,
                    )
            },
            Err(_) => {
                &&& handshake_messages(*final(state)) == handshake_messages(*old(state))
                &&& handshake_my_turn(*final(state)) == handshake_my_turn(*old(state))
                &&& handshake_left(*final(state)) == handshake_left(*old(state))
            },
        },
;

/// `snow::HandshakeState::into_transport_mode` turns a finished handshake into an encrypted
/// connection on which nothing was sent or received, and refuses any other. The connection has
/// the keys that the handshake came to.
pub assume_specification[ HandshakeState::into_transport_mode ](state: HandshakeState) -> (result:
    Result<TransportState, Error>)
    ensures
        result is Ok <==> handshake_left(state) == 0,
        match result {
            Ok(transport) => {
                &&& transport_protocol(transport) == handshake_protocol(state)
                &&& (sending_key(transport), receiving_key(transport)) == handshake_keys(state)
                &&& sending_nonce(transport) == 0
                &&& receiving_nonce(transport) == 0
            },
            Err(_) => true,
        },
;

/// `snow::TransportState::write_message` encrypts a message into a buffer, and returns its
/// length. With [`PATTERN`] it does so unless the message is too long for the protocol or for the
/// buffer, or all numbers are used up; after a failure the connection is as before.
pub assume_specification[ TransportState::write_message ](
    state: &mut TransportState,
    payload: &[u8],
    message: &mut [u8],
) -> (result: Result<usize, Error>)
    requires
        transport_protocol(*old(state)) == PATTERN@,
    ensures
        final(message)@.len() == old(message)@.len(),
        transport_protocol(*final(state)) == transport_protocol(*old(state)),
        sending_key(*final(state)) == sending_key(*old(state)),
        receiving_key(*final(state)) == receiving_key(*old(state)),
        receiving_nonce(*final(state)) == receiving_nonce(*old(state)),
        result is Ok <==> {
            &&& payload@.len() + TAG_LEN <= MAX_MESSAGE_LEN
            &&& payload@.len() + TAG_LEN <= old(message)@.len()
            &&& sending_nonce(*old(state)) < u64::MAX
        },
        match result {
            Ok(len) => {
                &&& len == payload@.len() + TAG_LEN
                &&& final(message)@.take(len as int) == sealed(
                    sending_key(*old(state)),
                    sending_nonce(*old(state)),
                    payload@,
                )
                &&& sending_nonce(*final(state)) == sending_nonce(*old(state)) + 1
            },
            Err(_) => sending_nonce(*final(state)) == sending_nonce(*old(state)),
        },
;

/// `snow::TransportState::read_message` decrypts a message into a buffer, and returns the length
/// of the plain one. With [`PATTERN`] it does so for a message that was encrypted under the key
/// and with the number that are due, unless it is too long for the protocol or for the buffer,
/// or all numbers are used up; and for no other. An encrypted message stands for one plain
/// message only. After a failure the connection is as before.
pub assume_specification[ TransportState::read_message ](
    state: &mut TransportState,
    payload: &[u8],
    message: &mut [u8],
) -> (result: Result<usize, Error>)
    requires
        transport_protocol(*old(state)) == PATTERN@,
    ensures
        final(message)@.len() == old(message)@.len(),
        transport_protocol(*final(state)) == transport_protocol(*old(state)),
        sending_key(*final(state)) == sending_key(*old(state)),
        sending_nonce(*final(state)) == sending_nonce(*old(state)),
        receiving_key(*final(state)) == receiving_key(*old(state)),
        match result {
            Ok(len) => {
                &&& len + TAG_LEN == payload@.len()
                &&& len <= old(message)@.len()
                &&& payload@.len() <= MAX_MESSAGE_LEN
                &&& receiving_nonce(*old(state)) < u64::MAX
                &&& receiving_nonce(*final(state)) == receiving_nonce(*old(state)) + 1
                &&& payload@ == sealed(
                    receiving_key(*old(state)),
                    receiving_nonce(*old(state)),
                    final(message)@.take(len as int),
                )
                &&& forall|plain: Seq<u8>|
                    payload@ == #[trigger] sealed(
                        receiving_key(*old(state)),
                        receiving_nonce(*old(state)),
                        plain,
                    ) ==> plain == final(message)@.take(len as int)
            },
            Err(_) => {
                &&& receiving_nonce(*final(state)) == receiving_nonce(*old(state))
                &&& forall|plain: Seq<u8>|
                    payload@ == #[trigger] sealed(
                        receiving_key(*old(state)),
                        receiving_nonce(*old(state)),
                        plain,
                    ) ==> payload@.len() > MAX_MESSAGE_LEN || payload@.len() > old(message)@.len()
                        + TAG_LEN || receiving_nonce(*old(state)) == u64::MAX
            },
        },
;

} // verus!
