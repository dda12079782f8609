//! Connecting to another relay, and again whenever the connection ends.
use crate::relay::ids::PeerId;
use vstd::prelude::*;

verus! {

/// How many seconds another relay has to take a connection, and how many pass between two
/// attempts.
pub const RELAY_CONNECT_TIMEOUT_SECS: u64 = 5;

/// Stops attempts to connect. There is one for each series of attempts.
#[derive(Debug, PartialEq, Eq, Structural)]
pub struct RelayConnectHandle {
    pub cancelled: bool,
}

impl RelayConnectHandle {
    /// Attempts that go on.
    pub fn new() -> (handle: Self)
        ensures
            handle == (RelayConnectHandle { cancelled: false }),
    {
        RelayConnectHandle { cancelled: false }
    }

    /// Asks that no further attempt be made.
    pub fn cancel(&mut self)
        ensures
            *final(self) == (RelayConnectHandle { cancelled: true }),
    {
        self.cancelled = true;
    }
}

/// How far an attempt to connect has come.
#[derive(Clone, Copy, Debug, PartialEq, Eq, Structural)]
pub enum ConnectorState {
    /// Before an attempt.
    Idle,
    /// The connection is being made.
    Connecting,
    /// The relay is being told of the new peer.
    Adding,
    /// The connection to the peer is up.
    Running(PeerId),
    /// The relay is being told that the peer is gone.
    Removing,
    /// Nothing is left to do.
    Done,
}

/// What happens to an attempt.
#[derive(Clone, Copy, Debug, PartialEq, Eq, Structural)]
pub enum ConnectorEvent {
    /// An attempt is due.
    Due,
    /// The other relay took the connection.
    Connected,
    /// The other relay did not take the connection. With `invalid_input`, its address is none.
    ConnectFailed { invalid_input: bool },
    /// The relay knows of the peer.
    PeerAdded(PeerId),
    /// The connection ended.
    Disconnected,
    /// The relay knows that the peer is gone.
    PeerRemoved,
    /// The relay itself is gone.
    RelayClosed,
}

/// What is to be done.
#[derive(Clone, Copy, Debug, PartialEq, Eq, Structural)]
pub enum ConnectorAction {
    /// Connect to the other relay.
    Connect,
    /// Tell the relay of a new peer.
    AddPeer,
    /// Read from the peer until the connection ends.
    Run(PeerId),
    /// Tell the relay that the peer is gone.
    RemovePeer(PeerId),
    /// Wait until the next attempt is due.
    Wait,
    /// Stop.
    Stop,
}

/// How far an attempt comes with an event, if the event can happen, and what is to be done.
pub open spec fn connector_step(
    state: ConnectorState,
    cancelled: bool,
    event: ConnectorEvent,
) -> Option<(ConnectorState, ConnectorAction)> {
    match (state, event) {
        (ConnectorState::Idle, ConnectorEvent::Due) => if cancelled {
            Some((ConnectorState::Done, ConnectorAction::Stop))
        } else {
            Some((ConnectorState::Connecting, ConnectorAction::Connect))
        },
        (ConnectorState::Connecting, ConnectorEvent::Connected) => Some(
            (ConnectorState::Adding, ConnectorAction::AddPeer),
        ),
        (ConnectorState::Connecting, ConnectorEvent::ConnectFailed { invalid_input }) => {
            if invalid_input {
                Some((ConnectorState::Done, ConnectorAction::Stop))
            } else {
                Some((ConnectorState::Idle, ConnectorAction::Wait))
            }
        },
        (ConnectorState::Adding, ConnectorEvent::PeerAdded(id)) => Some(
            (ConnectorState::Running(id), ConnectorAction::Run(id)),
        ),
        (ConnectorState::Running(id), ConnectorEvent::Disconnected) => Some(
            (ConnectorState::Removing, ConnectorAction::RemovePeer(id)),
        ),
        (ConnectorState::Removing, ConnectorEvent::PeerRemoved) => Some(
            (ConnectorState::Idle, ConnectorAction::Wait),
        ),
        (ConnectorState::Adding, ConnectorEvent::RelayClosed) => Some(
            (ConnectorState::Done, ConnectorAction::Stop),
        ),
        (ConnectorState::Removing, ConnectorEvent::RelayClosed) => Some(
            (ConnectorState::Done, ConnectorAction::Stop),
        ),
        _ => None,
    }
}

/// Attempts to connect to one other relay.
#[derive(Clone, Copy, Debug, PartialEq, Eq, Structural)]
pub struct Connector {
    pub state: ConnectorState,
}

impl Connector {
    /// Before the first attempt.
    pub fn new() -> (connector: Self)
        ensures
            connector.state == ConnectorState::Idle,
    {
        Connector { state: ConnectorState::Idle }
    }

    /// Takes in an event, and returns what is to be done. An event that cannot happen changes
    /// nothing. A wish to stop that comes while the peer is connected is forgotten with the peer.
    pub fn step(&mut self, handle: &mut RelayConnectHandle, event: ConnectorEvent) -> (action:
        Option<ConnectorAction>)
        ensures
            match connector_step(old(self).state, old(handle).cancelled, event) {
                Some((state, next)) => final(self).state == state && action == Some(next),
                None => *final(self) == *old(self) && action is None,
            },
            final(handle).cancelled == (old(handle).cancelled && !(old(self).state
                == ConnectorState::Removing && event == ConnectorEvent::PeerRemoved)),
    {
        let (state, action) = match (self.state, event) {
            (ConnectorState::Idle, ConnectorEvent::Due) => if handle.cancelled {
                (ConnectorState::Done, ConnectorAction::Stop)
            } else {
                (ConnectorState::Connecting, ConnectorAction::Connect)
            },
            (ConnectorState::Connecting, ConnectorEvent::Connected) => (
                ConnectorState::Adding,
                ConnectorAction::AddPeer,
            ),
            (ConnectorState::Connecting, ConnectorEvent::ConnectFailed { invalid_input }) => {
                if invalid_input {
                    (ConnectorState::Done, ConnectorAction::Stop)
                } else {
                    (ConnectorState::Idle, ConnectorAction::Wait)
                }
            },
            (ConnectorState::Adding, ConnectorEvent::PeerAdded(id)) => (
                ConnectorState::Running(id),
                ConnectorAction::Run(id),
            ),
            (ConnectorState::Running(id), ConnectorEvent::Disconnected) => (
                ConnectorState::Removing,
                ConnectorAction::RemovePeer(id),
            ),
            (ConnectorState::Removing, ConnectorEvent::PeerRemoved) => {
                handle.cancelled = false;
                (ConnectorState::Idle, ConnectorAction::Wait)
            },
            (ConnectorState::Adding, ConnectorEvent::RelayClosed) => (
                ConnectorState::Done,
                ConnectorAction::Stop,
            ),
            (ConnectorState::Removing, ConnectorEvent::RelayClosed) => (
                ConnectorState::Done,
                ConnectorAction::Stop,
            ),
            _ => {
                return None;
            },
        };
        self.state = state;
        Some(action)
    }
}

/// Once attempts are to stop, no connection is made any more; and once they have stopped, nothing
/// is done any more.
pub proof fn cancelled_connector_stops(
    state: ConnectorState,
    cancelled: bool,
    event: ConnectorEvent,
)
    ensures
        cancelled ==> connector_step(state, cancelled, event) != Some(
            (ConnectorState::Connecting, ConnectorAction::Connect),
        ),
        state == ConnectorState::Done ==> connector_step(state, cancelled, event) is None,
{
}

/// A peer that was added is removed again before there is another attempt: the one thing that
/// follows its connection is that the relay is told so.
pub proof fn added_peer_is_removed(
    id: PeerId,
    cancelled: bool,
    event: ConnectorEvent,
    next: (ConnectorState, ConnectorAction),
)
    requires
        connector_step(ConnectorState::Running(id), cancelled, event) == Some(next),
    ensures
        next == (ConnectorState::Removing, ConnectorAction::RemovePeer(id)),
{
}

/// When an attempt is due, it is made, unless attempts are to stop; and nothing else can happen
/// before that.
pub proof fn idle_connector(cancelled: bool, event: ConnectorEvent)
    ensures
        event is Due && !cancelled ==> connector_step(ConnectorState::Idle, cancelled, event)
            == Some((ConnectorState::Connecting, ConnectorAction::Connect)),
        event is Due && cancelled ==> connector_step(ConnectorState::Idle, cancelled, event)
            == Some((ConnectorState::Done, ConnectorAction::Stop)),
        !(event is Due) ==> connector_step(ConnectorState::Idle, cancelled, event) is None,
        RELAY_CONNECT_TIMEOUT_SECS == 5,
{
}

/// An attempt that succeeds brings a peer; one that fails is followed by another after a while,
/// unless the address is none.
pub proof fn connecting_connector(cancelled: bool, event: ConnectorEvent)
    ensures
        ({
            let next = connector_step(ConnectorState::Connecting, cancelled, event);
            match event {
                ConnectorEvent::Connected => next == Some(
                    (ConnectorState::Adding, ConnectorAction::AddPeer),
                ),
                ConnectorEvent::ConnectFailed { invalid_input } => {
                    &&& invalid_input ==> next == Some(
                        (ConnectorState::Done, ConnectorAction::Stop),
                    )
                    &&& !invalid_input ==> next == Some(
                        (ConnectorState::Idle, ConnectorAction::Wait),
                    )
                },
                _ => next is None,
            }
        }),
{
}

/// A peer that the relay knows of is read from under its number until its connection ends; then
/// the relay is told, under the same number; and after a while there is another attempt. Without
/// the relay all ends.
pub proof fn serving_connector(cancelled: bool, event: ConnectorEvent, peer: PeerId)
    ensures
        ({
            let adding = connector_step(ConnectorState::Adding, cancelled, event);
            let running = connector_step(ConnectorState::Running(peer), cancelled, event);
            let removing = connector_step(ConnectorState::Removing, cancelled, event);
            let stopped = Some((ConnectorState::Done, ConnectorAction::Stop));
            &&& event matches ConnectorEvent::PeerAdded(id) ==> adding == Some(
                (ConnectorState::Running(id), ConnectorAction::Run(id)),
            )
            &&& event is RelayClosed ==> adding == stopped && removing == stopped
            &&& !(event is PeerAdded) && !(event is RelayClosed) ==> adding is None
            &&& event is Disconnected ==> running == Some(
                (ConnectorState::Removing, ConnectorAction::RemovePeer(peer)),
            )
            &&& !(event is Disconnected) ==> running is None
            &&& event is PeerRemoved ==> removing == Some(
                (ConnectorState::Idle, ConnectorAction::Wait),
            )
            &&& !(event is PeerRemoved) && !(event is RelayClosed) ==> removing is None
        }),
{
}

} // verus!
