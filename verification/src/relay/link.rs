//! The life of one connection to a game or from a player, as the thread that serves it lives it.
use crate::protocol::{
    Inner, InnerView, RelayCloseConnection, RelayData, RelayDataView, RelayMessage,
};
use crate::relay::ids::ConnectionId;
use vstd::prelude::*;
use vstd::slice::slice_to_vec;

verus! {

/// How many seconds a game has to take a connection.
pub const GAME_CONNECT_TIMEOUT_SECS: u64 = 5;

/// How far a connection has come.
#[derive(Clone, Copy, Debug, PartialEq, Eq, Structural)]
pub enum LinkState {
    /// A connection to a game is being made.
    Connecting,
    /// The relay is being told of the connection to the game.
    Announcing,
    /// A player is connected; the peer has not answered yet.
    Waiting,
    /// Bytes are carried to the peer.
    Reading,
    /// Nothing is left to do.
    Done,
}

/// What happens to a connection.
#[derive(Clone, Copy, Debug)]
pub enum LinkEvent<'a> {
    /// The game took the connection.
    Connected,
    /// The game did not take the connection.
    ConnectFailed,
    /// The relay knows of the connection.
    Announced,
    /// The relay is gone.
    RelayClosed,
    /// The peer answered.
    Answered,
    /// The game or the player sent some bytes.
    Data(&'a [u8]),
    /// The game, the player or the peer is gone.
    Closed,
}

/// What is to be done.
#[derive(Debug, PartialEq, Eq)]
pub enum LinkAction {
    /// Tell the relay of the connection to the game.
    Announce,
    /// Wait for bytes.
    Read,
    /// Send a message to the peer, and wait for more bytes.
    Send(RelayMessage),
    /// Send a message to the peer if it is still there, and stop.
    Finish(RelayMessage),
    /// Stop.
    Stop,
}

/// The message that carries bytes on a connection.
pub open spec fn data_on(connection_id: ConnectionId, data: Seq<u8>) -> InnerView {
    InnerView::Data(
        RelayDataView {
            connection_id: connection_id.id,
            connection_local: connection_id.local,
            data,
        },
    )
}

/// The message that ends a connection.
pub open spec fn close_of(connection_id: ConnectionId) -> InnerView {
    InnerView::CloseConnection(
        RelayCloseConnection {
            connection_id: connection_id.id,
            connection_local: connection_id.local,
        },
    )
}

/// Returns the message that carries bytes on a connection.
pub fn data_message(connection_id: ConnectionId, data: Vec<u8>) -> (message: RelayMessage)
    ensures
        message@ == Some(data_on(connection_id, data@)),
{
    RelayMessage {
        inner: Some(
            Inner::Data(
                RelayData {
                    connection_id: connection_id.id,
                    connection_local: connection_id.local,
                    data,
                },
            ),
        ),
    }
}

/// Returns the message that ends a connection.
pub fn close_message(connection_id: ConnectionId) -> (message: RelayMessage)
    ensures
        message@ == Some(close_of(connection_id)),
{
    RelayMessage {
        inner: Some(
            Inner::CloseConnection(
                RelayCloseConnection {
                    connection_id: connection_id.id,
                    connection_local: connection_id.local,
                },
            ),
        ),
    }
}

/// A connection to a game or from a player.
#[derive(Clone, Copy, Debug, PartialEq, Eq, Structural)]
pub struct GameLink {
    pub connection_id: ConnectionId,
    pub state: LinkState,
}

impl GameLink {
    /// How far a connection comes with an event, if the event can happen.
    pub open spec fn next_state(self, event: LinkEvent) -> Option<LinkState> {
        match (self.state, event) {
            (LinkState::Connecting, LinkEvent::Connected) => Some(LinkState::Announcing),
            (LinkState::Connecting, LinkEvent::ConnectFailed) => Some(LinkState::Done),
            (LinkState::Announcing, LinkEvent::Announced) => Some(LinkState::Reading),
            (LinkState::Announcing, LinkEvent::RelayClosed) => Some(LinkState::Done),
            (LinkState::Waiting, LinkEvent::Answered) => Some(LinkState::Reading),
            (LinkState::Waiting, LinkEvent::Closed) => Some(LinkState::Done),
            (LinkState::Reading, LinkEvent::Data(_)) => Some(LinkState::Reading),
            (LinkState::Reading, LinkEvent::Closed) => Some(LinkState::Done),
            _ => None,
        }
    }

    /// An action is the one that an event asks for.
    pub open spec fn asks_for(self, event: LinkEvent, action: LinkAction) -> bool {
        match event {
            LinkEvent::Connected => action == LinkAction::Announce,
            LinkEvent::Announced => action == LinkAction::Read,
            LinkEvent::Answered => action == LinkAction::Read,
            LinkEvent::RelayClosed => action == LinkAction::Stop,
            LinkEvent::Data(data) => action matches LinkAction::Send(message) && message@ == Some(
                data_on(self.connection_id, data@),
            ),
            LinkEvent::ConnectFailed => action matches LinkAction::Finish(message) && message@
                == Some(close_of(self.connection_id)),
            LinkEvent::Closed => action matches LinkAction::Finish(message) && message@ == Some(
                close_of(self.connection_id),
            ),
        }
    }

    /// A connection that is to be made to a game, for a peer.
    pub fn to_game(connection_id: ConnectionId) -> (link: Self)
        ensures
            link == (GameLink { connection_id, state: LinkState::Connecting }),
    {
        GameLink { connection_id, state: LinkState::Connecting }
    }

    /// A connection of a player, for which a peer was asked.
    pub fn from_player(connection_id: ConnectionId) -> (link: Self)
        ensures
            link == (GameLink { connection_id, state: LinkState::Waiting }),
    {
        GameLink { connection_id, state: LinkState::Waiting }
    }

    /// Takes in an event, and returns what is to be done. An event that cannot happen changes
    /// nothing.
    pub fn step(&mut self, event: LinkEvent) -> (action: Option<LinkAction>)
        ensures
            final(self).connection_id == old(self).connection_id,
            match old(self).next_state(event) {
                Some(state) => {
                    &&& final(self).state == state
                    &&& action matches Some(action) && old(self).asks_for(event, action)
                },
                None => action is None && *final(self) == *old(self),
            },
    {
        let (state, action) = match (self.state, event) {
            (LinkState::Connecting, LinkEvent::Connected) => (
                LinkState::Announcing,
                LinkAction::Announce,
            ),
            (LinkState::Connecting, LinkEvent::ConnectFailed) => (
                LinkState::Done,
                LinkAction::Finish(close_message(self.connection_id)),
            ),
            (LinkState::Announcing, LinkEvent::Announced) => (LinkState::Reading, LinkAction::Read),
            (LinkState::Announcing, LinkEvent::RelayClosed) => (LinkState::Done, LinkAction::Stop),
            (LinkState::Waiting, LinkEvent::Answered) => (LinkState::Reading, LinkAction::Read),
            (LinkState::Waiting, LinkEvent::Closed) => (
                LinkState::Done,
                LinkAction::Finish(close_message(self.connection_id)),
            ),
            (LinkState::Reading, LinkEvent::Data(data)) => (
                LinkState::Reading,
                LinkAction::Send(data_message(self.connection_id, slice_to_vec(data))),
            ),
            (LinkState::Reading, LinkEvent::Closed) => (
                LinkState::Done,
                LinkAction::Finish(close_message(self.connection_id)),
            ),
            _ => {
                return None;
            },
        };
        self.state = state;
        Some(action)
    }
}

/// A connection that is done stays so.
pub proof fn finished_link_stays_finished(link: GameLink, event: LinkEvent)
    requires
        link.state == LinkState::Done,
    ensures
        link.next_state(event) is None,
{
}

/// Whenever a connection ends, the peer is told so, unless the relay itself is gone.
pub proof fn ending_link_tells_the_peer(link: GameLink, event: LinkEvent, action: LinkAction)
    requires
        link.next_state(event) == Some(LinkState::Done),
        !(event is RelayClosed),
        link.asks_for(event, action),
    ensures
        action matches LinkAction::Finish(message) && message@ == Some(
            close_of(link.connection_id),
        ),
{
}

/// A connection to a game that is being made is announced to the relay once the game took it, and
/// is over if the game did not. Nothing else can happen.
pub proof fn connecting_link(link: GameLink, event: LinkEvent)
    requires
        link.state == LinkState::Connecting,
    ensures
        event is Connected ==> link.next_state(event) == Some(LinkState::Announcing),
        event is ConnectFailed ==> link.next_state(event) == Some(LinkState::Done),
        !(event is Connected) && !(event is ConnectFailed) ==> link.next_state(event) is None,
{
}

/// A connection that is announced is read from, and is over if the relay is gone. Nothing else can
/// happen.
pub proof fn announcing_link(link: GameLink, event: LinkEvent)
    requires
        link.state == LinkState::Announcing,
    ensures
        event is Announced ==> link.next_state(event) == Some(LinkState::Reading),
        event is RelayClosed ==> link.next_state(event) == Some(LinkState::Done),
        !(event is Announced) && !(event is RelayClosed) ==> link.next_state(event) is None,
{
}

/// A player's connection is read from once the peer answered, and is over if it ends before.
/// Nothing else can happen.
pub proof fn waiting_link(link: GameLink, event: LinkEvent)
    requires
        link.state == LinkState::Waiting,
    ensures
        event is Answered ==> link.next_state(event) == Some(LinkState::Reading),
        event is Closed ==> link.next_state(event) == Some(LinkState::Done),
        !(event is Answered) && !(event is Closed) ==> link.next_state(event) is None,
{
}

/// A connection that is read from takes in any bytes, however many, and goes on reading until it
/// ends. Nothing else can happen.
pub proof fn reading_link(link: GameLink, event: LinkEvent)
    requires
        link.state == LinkState::Reading,
    ensures
        event is Data ==> link.next_state(event) == Some(LinkState::Reading),
        event is Closed ==> link.next_state(event) == Some(LinkState::Done),
        !(event is Data) && !(event is Closed) ==> link.next_state(event) is None,
{
}

/// Bytes are carried over whole, under the name of the connection; the end is told under that name
/// too; and what else is to be done goes by what happened.
pub proof fn acting_on_a_link(link: GameLink, event: LinkEvent, action: LinkAction)
    ensures
        event matches LinkEvent::Data(data) ==> (link.asks_for(event, action) <==> (
        action matches LinkAction::Send(message) && message@ == Some(
            InnerView::Data(
                RelayDataView {
                    connection_id: link.connection_id.id,
                    connection_local: link.connection_id.local,
                    data: data@,
                },
            ),
        ))),
        event is Closed || event is ConnectFailed ==> (link.asks_for(event, action) <==> (
        action matches LinkAction::Finish(message) && message@ == Some(
            InnerView::CloseConnection(
                RelayCloseConnection {
                    connection_id: link.connection_id.id,
                    connection_local: link.connection_id.local,
                },
            ),
        ))),
        event is Connected ==> (link.asks_for(event, action) <==> action is Announce),
        event is Announced || event is Answered ==> (link.asks_for(event, action)
            <==> action is Read),
        event is RelayClosed ==> (link.asks_for(event, action) <==> action is Stop),
{
}

/// The messages on a connection carry its name, and all the bytes.
pub proof fn speaking_on_a_connection(connection_id: ConnectionId, data: Seq<u8>)
    ensures
        data_on(connection_id, data) == InnerView::Data(
            RelayDataView {
                connection_id: connection_id.id,
                connection_local: connection_id.local,
                data,
            },
        ),
        close_of(connection_id) == InnerView::CloseConnection(
            RelayCloseConnection {
                connection_id: connection_id.id,
                connection_local: connection_id.local,
            },
        ),
        GAME_CONNECT_TIMEOUT_SECS == 5,
{
}

} // verus!
