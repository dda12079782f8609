//! Events that reach the relay, and what it asks for in return.
use crate::addr::SocketAddr;
use crate::protocol::{Inner, InnerView, RelayMessage};
use crate::queue::QueueView;
use crate::relay::connection::RelayConnectionHandle;
use crate::relay::ids::{ConnectionId, LocalGameId, PeerId};
use crate::relay::model::{
    AcceptedConnection, AddedGame, Game, LocalConnect, RelayView, MAX_FORWARDING_HOPS,
};
use crate::relay::{Peer, Relay};
use vstd::prelude::*;

verus! {

broadcast use vstd::std_specs::hash::group_hash_axioms;

/// Something that happened.
#[derive(Debug)]
pub enum Message {
    /// Another relay connected to this one.
    AcceptPeer,
    /// A player connected to the listener that stands in for a game.
    AcceptGameConnection(LocalGameId),
    /// A connection to a game on the local network was made for a peer.
    AddGameConnection(PeerId, ConnectionId, LocalGameId),
    /// This relay connected to another one.
    AddPeer,
    /// A game announced itself on the local network: from where, its port, its description.
    AddLocalGame(SocketAddr, u16, Vec<u8>),
    /// A message from a peer.
    Recv(PeerId, RelayMessage),
    /// The listener that stands in for a game ended.
    RemoveGameListener(LocalGameId),
    /// The connection to a peer ended.
    RemovePeer(PeerId),
}

/// What a [`Message`] stands for.
#[verifier::ext_equal]
pub enum MessageView {
    AcceptPeer,
    AcceptGameConnection(LocalGameId),
    AddGameConnection(PeerId, ConnectionId, LocalGameId),
    AddPeer,
    AddLocalGame(SocketAddr, u16, Seq<u8>),
    Recv(PeerId, Option<InnerView>),
    RemoveGameListener(LocalGameId),
    RemovePeer(PeerId),
}

impl View for Message {
    type V = MessageView;

    open spec fn view(&self) -> MessageView {
        match *self {
            Message::AcceptPeer => MessageView::AcceptPeer,
            Message::AcceptGameConnection(game_id) => MessageView::AcceptGameConnection(game_id),
            Message::AddGameConnection(peer_id, connection_id, game_id) =>
                MessageView::AddGameConnection(peer_id, connection_id, game_id),
            Message::AddPeer => MessageView::AddPeer,
            Message::AddLocalGame(from, port, motd) => MessageView::AddLocalGame(from, port, motd@),
            Message::Recv(from, message) => MessageView::Recv(from, message@),
            Message::RemoveGameListener(game_id) => MessageView::RemoveGameListener(game_id),
            Message::RemovePeer(peer_id) => MessageView::RemovePeer(peer_id),
        }
    }
}

/// What is to be done after an event, besides writing what waits on the connections.
#[derive(Clone, Copy, Debug, PartialEq, Eq)]
pub enum RelayAction {
    Nothing,
    /// Read from the relay that connected, which is this peer.
    ServePeer(PeerId),
    /// Tell whoever connected to the relay which peer it is.
    ReportPeer(PeerId),
    /// Read from the player that connected.
    ServeGameConnection(AcceptedConnection),
    /// Start or keep the listener of the game, and advertise it on the local network.
    OfferGame(AddedGame),
    /// Connect to a game.
    ConnectLocal(LocalConnect),
    /// Ask the listener of the game to stay.
    KeepListener(LocalGameId),
}

impl RelayView {
    /// A message from a peer.
    pub open spec fn handle_peer_message(
        self,
        from: PeerId,
        message: Option<InnerView>,
        opened: Option<SocketAddr>,
    ) -> (RelayView, RelayAction) {
        match message {
            None => (self, RelayAction::Nothing),
            Some(InnerView::Game(message)) => {
                let (after, added) = self.handle_game(from, message, opened);
                match added {
                    Some(added) => (after, RelayAction::OfferGame(added)),
                    None => (after, RelayAction::Nothing),
                }
            },
            Some(InnerView::Connect(message)) => {
                let (after, connect) = self.handle_connect(from, message);
                match connect {
                    Some(connect) => (after, RelayAction::ConnectLocal(connect)),
                    None => (after, RelayAction::Nothing),
                }
            },
            Some(InnerView::Data(message)) => (
                self.handle_data(from, message),
                RelayAction::Nothing,
            ),
            Some(InnerView::CloseConnection(message)) => (
                self.handle_close_connection(from, message),
                RelayAction::Nothing,
            ),
        }
    }

    /// There are numbers and names left for what a message from a peer asks for.
    pub open spec fn can_handle_peer_message(
        self,
        from: PeerId,
        message: Option<InnerView>,
    ) -> bool {
        match message {
            Some(InnerView::Game(message)) => self.can_add_game(from, message.id),
            Some(InnerView::Connect(message)) => self.can_connect(from, message),
            _ => true,
        }
    }

    /// An event.
    pub open spec fn handle_message(
        self,
        message: MessageView,
        opened: Option<SocketAddr>,
    ) -> (RelayView, RelayAction) {
        match message {
            MessageView::AcceptPeer => (
                self.add_peer(QueueView::fresh()),
                RelayAction::ServePeer(PeerId(self.next_peer)),
            ),
            MessageView::AcceptGameConnection(game_id) => {
                let (after, accepted) = self.accept_game_connection(game_id);
                match accepted {
                    Some(accepted) => (after, RelayAction::ServeGameConnection(accepted)),
                    None => (after, RelayAction::Nothing),
                }
            },
            MessageView::AddGameConnection(peer_id, connection_id, _) => (
                self.add_game_connection(peer_id, connection_id),
                RelayAction::Nothing,
            ),
            MessageView::AddPeer => (
                self.add_peer(QueueView::fresh()),
                RelayAction::ReportPeer(PeerId(self.next_peer)),
            ),
            MessageView::AddLocalGame(from, port, motd) => (
                self.add_local_game(from, port, motd),
                RelayAction::Nothing,
            ),
            MessageView::Recv(from, message) => self.handle_peer_message(from, message, opened),
            MessageView::RemoveGameListener(game_id) => {
                let (after, kept) = self.remove_game_listener(game_id);
                if kept {
                    (after, RelayAction::KeepListener(game_id))
                } else {
                    (after, RelayAction::Nothing)
                }
            },
            MessageView::RemovePeer(peer_id) => (self.remove_peer(peer_id), RelayAction::Nothing),
        }
    }

    /// There are numbers and names left for what an event asks for.
    pub open spec fn can_handle(self, message: MessageView) -> bool {
        match message {
            MessageView::AcceptPeer => self.next_peer < u64::MAX,
            MessageView::AcceptGameConnection(game_id) => self.can_accept(game_id),
            MessageView::AddPeer => self.next_peer < u64::MAX,
            MessageView::AddLocalGame(from, port, _) => self.can_add_local_game(from, port),
            MessageView::Recv(from, message) => self.can_handle_peer_message(from, message),
            _ => true,
        }
    }

    /// A listener has to be opened before an event is taken in.
    pub open spec fn wants_listener(self, message: MessageView) -> bool {
        match message {
            MessageView::Recv(from, Some(InnerView::Game(message))) => self.needs_listener(
                from,
                message.id,
            ),
            _ => false,
        }
    }
}

impl Relay {
    /// Another relay connected to this one.
    pub fn accept_peer_connection(&mut self) -> (peer_id: PeerId)
        requires
            old(self).wf(),
            old(self)@.next_peer < u64::MAX,
        ensures
            peer_id == PeerId(old(self)@.next_peer),
            final(self)@ == old(self)@.add_peer(QueueView::fresh()),
            final(self).wf(),
    {
        let ghost before = self@;
        let peer_id = self.peers.add(Peer::new(RelayConnectionHandle::new()));
        proof {
            let after = before.add_peer(QueueView::fresh());
            assert(self@.peers =~= after.peers);
            assert forall|p: u64, r: u64|
                after.peers.contains_key(p) && #[trigger] after.peers[p].games.contains_key(
                    r,
                ) implies after.advertised_as(
                p,
                r,
                after.peers[p].games[r].local_game_id.0,
            ) by {
                assert(p != before.next_peer);
                assert(before.advertised_as(p, r, before.peers[p].games[r].local_game_id.0));
            }
        }
        peer_id
    }

    /// A message from a peer. `opened` is where the listener waits that was opened for it.
    pub fn handle_peer_message(
        &mut self,
        from: PeerId,
        message: RelayMessage,
        opened: Option<SocketAddr>,
    ) -> (action: RelayAction)
        requires
            old(self).wf(),
            old(self)@.can_handle_peer_message(from, message@),
        ensures
            (final(self)@, action) == old(self)@.handle_peer_message(from, message@, opened),
            final(self).wf(),
    {
        let inner = match message.inner {
            Some(inner) => inner,
            None => {
                return RelayAction::Nothing;
            },
        };
        match inner {
            Inner::Game(game_message) => match self.handle_game(from, &game_message, opened) {
                Some(added) => RelayAction::OfferGame(added),
                None => RelayAction::Nothing,
            },
            Inner::Connect(connect_message) => match self.handle_connect(from, connect_message) {
                Some(connect) => RelayAction::ConnectLocal(connect),
                None => RelayAction::Nothing,
            },
            Inner::Data(data_message) => {
                self.handle_data(from, data_message);
                RelayAction::Nothing
            },
            Inner::CloseConnection(close_connection_message) => {
                self.handle_close_connection(from, close_connection_message);
                RelayAction::Nothing
            },
        }
    }

    /// An event. `opened` is where the listener waits that was opened for it; it is looked at
    /// only if one was wanted.
    pub fn handle_message(&mut self, message: Message, opened: Option<SocketAddr>) -> (action:
        RelayAction)
        requires
            old(self).wf(),
            old(self)@.can_handle(message@),
        ensures
            (final(self)@, action) == old(self)@.handle_message(message@, opened),
            final(self).wf(),
    {
        match message {
            Message::AcceptGameConnection(game_id) => match self.accept_game_connection(game_id) {
                Some(accepted) => RelayAction::ServeGameConnection(accepted),
                None => RelayAction::Nothing,
            },
            Message::AcceptPeer => RelayAction::ServePeer(self.accept_peer_connection()),
            Message::AddGameConnection(peer_id, connection_id, _) => {
                self.add_game_connection(peer_id, connection_id);
                RelayAction::Nothing
            },
            Message::AddPeer => RelayAction::ReportPeer(self.accept_peer_connection()),
            Message::AddLocalGame(from, port, motd) => {
                self.add_local_game(from, port, &motd);
                RelayAction::Nothing
            },
            Message::Recv(from, message) => self.handle_peer_message(from, message, opened),
            Message::RemoveGameListener(game_id) => {
                if self.remove_game_listener(&game_id) {
                    RelayAction::KeepListener(game_id)
                } else {
                    RelayAction::Nothing
                }
            },
            Message::RemovePeer(peer_id) => {
                self.remove_peer(&peer_id);
                RelayAction::Nothing
            },
        }
    }

    /// Tells whether a listener has to be opened before an event is taken in.
    pub fn wants_listener(&self, message: &Message) -> (wanted: bool)
        requires
            self.wf(),
        ensures
            wanted == self@.wants_listener(message@),
    {
        match message {
            Message::Recv(from, message) => match &message.inner {
                Some(Inner::Game(game_message)) => self.needs_listener(*from, game_message),
                _ => false,
            },
            _ => false,
        }
    }

    /// Tells whether there are numbers and names left for what an event asks for.
    pub fn can_handle(&self, message: &Message) -> (possible: bool)
        ensures
            possible == self@.can_handle(message@),
    {
        match message {
            Message::AcceptPeer | Message::AddPeer => self.peers.next_key < u64::MAX,
            Message::AcceptGameConnection(game_id) => match self.games.map.get(&game_id.0) {
                Some(Game::Remote(game)) => self.has_connection_name(game.peer_id),
                _ => true,
            },
            Message::AddLocalGame(from, port, _) => {
                let own = from.port == self.discovery_port && self.listen_ports.contains(port);
                own || self.local_games.get(from.with_port(*port)).is_some()
                    || self.games.next_key < u64::MAX
            },
            Message::Recv(from, message) => match &message.inner {
                Some(Inner::Game(game_message)) => match self.peers.map.get(&from.0) {
                    Some(peer) => {
                        assert(peer@ == self@.peers[from.0]);
                        peer.games.contains_key(&game_message.id) || self.games.next_key < u64::MAX
                    },
                    None => true,
                },
                Some(Inner::Connect(connect_message)) => match self.games.map.get(
                    &connect_message.game_id,
                ) {
                    Some(Game::Remote(game)) => {
                        let connection_id = ConnectionId {
                            id: connect_message.connection_id,
                            local: false,
                        };
                        match self.peers.map.get(&from.0) {
                            Some(peer) => {
                                assert(peer@ == self@.peers[from.0]);
                                connect_message.hops >= MAX_FORWARDING_HOPS
                                    || peer.relayed_connections.contains_key(&connection_id.key())
                                    || self.has_connection_name(game.peer_id)
                            },
                            None => true,
                        }
                    },
                    _ => true,
                },
                _ => true,
            },
            _ => true,
        }
    }

    /// Tells whether there is a name left for one more connection through a peer, if it is known.
    fn has_connection_name(&self, peer_id: PeerId) -> (left: bool)
        ensures
            left == (self@.peers.contains_key(peer_id.0)
                ==> self@.peers[peer_id.0].next_connection_id.id < u64::MAX),
    {
        match self.peers.map.get(&peer_id.0) {
            Some(peer) => {
                assert(peer@ == self@.peers[peer_id.0]);
                peer.next_connection_id.id < u64::MAX
            },
            None => true,
        }
    }
}

/// An event stands for all that it holds.
pub proof fn reading_an_event(message: Message)
    ensures
        match message {
            Message::AcceptPeer => message@ is AcceptPeer,
            Message::AcceptGameConnection(game_id) => message@ == MessageView::AcceptGameConnection(
                game_id,
            ),
            Message::AddGameConnection(peer_id, connection_id, game_id) => message@
                == MessageView::AddGameConnection(peer_id, connection_id, game_id),
            Message::AddPeer => message@ is AddPeer,
            Message::AddLocalGame(from, port, motd) => message@ == MessageView::AddLocalGame(
                from,
                port,
                motd@,
            ),
            Message::Recv(from, received) => message@ == MessageView::Recv(from, received@),
            Message::RemoveGameListener(game_id) => message@ == MessageView::RemoveGameListener(
                game_id,
            ),
            Message::RemovePeer(peer_id) => message@ == MessageView::RemovePeer(peer_id),
        },
{
}

} // verus!
