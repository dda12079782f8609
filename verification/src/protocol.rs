//! The messages that relays exchange.
use vstd::prelude::*;

verus! {

/// An advertisement of a game that can be reached through the sender.
#[derive(Debug, PartialEq, Eq)]
pub struct RelayGame {
    pub id: u64,
    pub motd: Vec<u8>,
    pub hops: u64,
}

/// A request for a new connection to a game that the receiver advertised.
#[derive(Clone, Copy, Debug, PartialEq, Eq)]
pub struct RelayConnect {
    pub game_id: u64,
    pub connection_id: u64,
    pub hops: u64,
}

/// Bytes that travel on a connection.
#[derive(Debug, PartialEq, Eq)]
pub struct RelayData {
    pub connection_id: u64,
    pub connection_local: bool,
    pub data: Vec<u8>,
}

/// The end of a connection.
#[derive(Clone, Copy, Debug, PartialEq, Eq)]
pub struct RelayCloseConnection {
    pub connection_id: u64,
    pub connection_local: bool,
}

/// What a message says.
#[derive(Debug, PartialEq, Eq)]
pub enum Inner {
    Game(RelayGame),
    Connect(RelayConnect),
    Data(RelayData),
    CloseConnection(RelayCloseConnection),
}

/// A message between two relays. One that says nothing only shows that its sender is alive.
#[derive(Debug, PartialEq, Eq)]
pub struct RelayMessage {
    pub inner: Option<Inner>,
}

/// What a [`RelayGame`] stands for.
#[verifier::ext_equal]
pub struct RelayGameView {
    pub id: u64,
    pub motd: Seq<u8>,
    pub hops: u64,
}

/// What a [`RelayData`] stands for.
#[verifier::ext_equal]
pub struct RelayDataView {
    pub connection_id: u64,
    pub connection_local: bool,
    pub data: Seq<u8>,
}

/// What an [`Inner`] stands for.
#[verifier::ext_equal]
pub enum InnerView {
    Game(RelayGameView),
    Connect(RelayConnect),
    Data(RelayDataView),
    CloseConnection(RelayCloseConnection),
}

impl View for RelayGame {
    type V = RelayGameView;

    open spec fn view(&self) -> RelayGameView {
        RelayGameView { id: self.id, motd: self.motd@, hops: self.hops }
    }
}

impl View for RelayData {
    type V = RelayDataView;

    open spec fn view(&self) -> RelayDataView {
        RelayDataView {
            connection_id: self.connection_id,
            connection_local: self.connection_local,
            data: self.data@,
        }
    }
}

impl View for Inner {
    type V = InnerView;

    open spec fn view(&self) -> InnerView {
        match *self {
            Inner::Game(m) => InnerView::Game(m@),
            Inner::Connect(m) => InnerView::Connect(m),
            Inner::Data(m) => InnerView::Data(m@),
            Inner::CloseConnection(m) => InnerView::CloseConnection(m),
        }
    }
}

impl View for RelayMessage {
    type V = Option<InnerView>;

    open spec fn view(&self) -> Option<InnerView> {
        match self.inner {
            Some(inner) => Some(inner@),
            None => None,
        }
    }
}

/// A message stands for all that it holds.
pub proof fn reading_a_message(message: RelayMessage)
    ensures
        match message.inner {
            None => message@ is None,
            Some(Inner::Game(game)) => message@ matches Some(InnerView::Game(view)) && view.id
                == game.id && view.motd == game.motd@ && view.hops == game.hops,
            Some(Inner::Connect(connect)) => message@ == Some(InnerView::Connect(connect)),
            Some(Inner::Data(data)) => message@ matches Some(InnerView::Data(view))
                && view.connection_id == data.connection_id && view.connection_local
                == data.connection_local && view.data == data.data@,
            Some(Inner::CloseConnection(close)) => message@ == Some(
                InnerView::CloseConnection(close),
            ),
        },
{
}

/// What a message holds stands for all that it holds in turn.
pub proof fn reading_the_parts(game: RelayGame, data: RelayData)
    ensures
        game@.id == game.id && game@.motd == game.motd@ && game@.hops == game.hops,
        data@.connection_id == data.connection_id,
        data@.connection_local == data.connection_local,
        data@.data == data.data@,
{
}

} // verus!
