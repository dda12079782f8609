//! What holds of the relay over any course of events.
use crate::addr::SocketAddr;
use crate::protocol::{InnerView, RelayConnect, RelayGameView};
use crate::relay::dispatch::MessageView;
use crate::relay::games::lemma_add_game_wf;
use crate::relay::ids::{ConnectionId, LocalGameId, PeerId};
use crate::relay::laws::{
    advertisement_is_not_sent_back, local_games_keep_their_numbers, numbers_are_never_reused,
    remote_games_keep_their_numbers,
};
use crate::relay::link::data_on;
use crate::relay::model::{Game, PeerView, RelayView};
use crate::relay::removal::{lemma_remove_peers_wf, lemma_wf_ignores_connections};
use vstd::prelude::*;

verus! {

/// One thing that happens to the relay.
pub enum Step {
    /// An event, with where the listener waits that was opened for it.
    Event(MessageView, Option<SocketAddr>),
    /// What waits for a peer is collected.
    DrainPeer(PeerId),
    /// What waits for a game is collected.
    DrainConnection(PeerId, ConnectionId),
    /// The connection to a peer is gone.
    ClosePeer(PeerId),
    /// A connection to a game is gone.
    CloseConnection(PeerId, ConnectionId),
    /// The listener of a game is gone.
    CloseListener(LocalGameId),
}

impl RelayView {
    /// The relay after one thing happened.
    pub open spec fn step(self, step: Step) -> RelayView {
        match step {
            Step::Event(message, opened) => self.handle_message(message, opened).0,
            Step::DrainPeer(peer_id) => self.drain_peer(peer_id),
            Step::DrainConnection(peer_id, connection_id) => self.drain_connection(
                peer_id,
                connection_id,
            ),
            Step::ClosePeer(peer_id) => self.close_peer(peer_id),
            Step::CloseConnection(peer_id, connection_id) => self.close_connection(
                peer_id,
                connection_id,
            ),
            Step::CloseListener(game_id) => self.close_listener(game_id),
        }
    }

    /// There are numbers and names left for what happens.
    pub open spec fn can_step(self, step: Step) -> bool {
        match step {
            Step::Event(message, _) => self.can_handle(message),
            _ => true,
        }
    }

    /// The relay after some things happened.
    pub open spec fn run(self, steps: Seq<Step>) -> RelayView
        decreases steps.len(),
    {
        if steps.len() == 0 {
            self
        } else {
            self.run(steps.drop_last()).step(steps.last())
        }
    }

    /// There are numbers and names left for all that happens.
    pub open spec fn can_run(self, steps: Seq<Step>) -> bool
        decreases steps.len(),
    {
        steps.len() == 0 || (self.can_run(steps.drop_last()) && self.run(
            steps.drop_last(),
        ).can_step(steps.last()))
    }
}

/// The books of a relay without peers and games agree.
pub proof fn fresh_books_agree(discovery_port: u16)
    ensures
        RelayView::fresh(discovery_port).wf(),
{
}

/// Books that agree still do, whatever happens.
pub proof fn books_always_agree(relay: RelayView, steps: Seq<Step>)
    requires
        relay.wf(),
        relay.can_run(steps),
    ensures
        relay.run(steps).wf(),
    decreases steps.len(),
{
    if steps.len() > 0 {
        books_always_agree(relay, steps.drop_last());
        lemma_step_wf(relay.run(steps.drop_last()), steps.last());
    }
}

proof fn lemma_broadcast_wf(relay: RelayView, message: InnerView, except: Option<PeerId>)
    requires
        relay.wf(),
    ensures
        relay.broadcast_message(message, except).wf(),
{
    let sent = relay.sent_to_all(message, except);
    lemma_wf_ignores_connections(relay, sent);
    lemma_remove_peers_wf(sent, relay.unreachable_peers(except));
}

/// Books with other listeners, other addresses or another peer agree if those without do.
proof fn lemma_same_advertisements_wf(relay: RelayView, other: RelayView)
    requires
        relay.wf(),
        forall|p: u64, r: u64|
            other.peers.contains_key(p) && #[trigger] other.peers[p].games.contains_key(r)
                ==> relay.peers.contains_key(p) && relay.peers[p].games.contains_key(r)
                && other.peers[p].games[r] == relay.peers[p].games[r],
        forall|p: u64, r: u64, g: u64| #[trigger]
            relay.advertised_as(p, r, g) ==> other.advertised_as(p, r, g),
    ensures
        forall|p: u64, r: u64|
            other.peers.contains_key(p) && #[trigger] other.peers[p].games.contains_key(r)
                ==> other.advertised_as(p, r, other.peers[p].games[r].local_game_id.0),
{
    assert forall|p: u64, r: u64|
        other.peers.contains_key(p) && #[trigger] other.peers[p].games.contains_key(
            r,
        ) implies other.advertised_as(p, r, other.peers[p].games[r].local_game_id.0) by {
        assert(relay.peers[p].games.contains_key(r));
        assert(relay.advertised_as(p, r, relay.peers[p].games[r].local_game_id.0));
    }
}

proof fn lemma_local_game_wf(relay: RelayView, addr: SocketAddr)
    requires
        relay.wf(),
        relay.local_games.contains_key(addr) || relay.next_game < u64::MAX,
    ensures
        relay.with_local_game(addr).wf(),
{
    lemma_same_advertisements_wf(relay, relay.with_local_game(addr));
}

proof fn lemma_step_wf(relay: RelayView, step: Step)
    requires
        relay.wf(),
        relay.can_step(step),
    ensures
        relay.step(step).wf(),
{
    let after = relay.step(step);
    match step {
        Step::Event(message, opened) => lemma_event_wf(relay, message, opened),
        Step::CloseListener(_) => lemma_same_advertisements_wf(relay, after),
        _ => lemma_wf_ignores_connections(relay, after),
    }
}

proof fn lemma_event_wf(relay: RelayView, message: MessageView, opened: Option<SocketAddr>)
    requires
        relay.wf(),
        relay.can_handle(message),
    ensures
        relay.handle_message(message, opened).0.wf(),
{
    let after = relay.handle_message(message, opened).0;
    match message {
        MessageView::AcceptPeer | MessageView::AddPeer => {
            lemma_same_advertisements_wf(relay, after);
        },
        MessageView::AcceptGameConnection(_) => {
            lemma_wf_ignores_connections(relay, after);
        },
        MessageView::AddGameConnection(peer_id, _, _) => {
            lemma_remove_peers_wf(relay, Set::empty().insert(peer_id.0));
            if relay.peers.contains_key(peer_id.0) && !relay.peers[peer_id.0].handle.closed {
                lemma_wf_ignores_connections(relay, after);
            }
        },
        MessageView::AddLocalGame(from, port, motd) => {
            if !relay.is_own_announcement(from, port) {
                let addr = from.at_port(port);
                let noted = relay.with_local_game(addr);
                lemma_local_game_wf(relay, addr);
                lemma_broadcast_wf(
                    noted,
                    InnerView::Game(
                        RelayGameView { id: noted.local_games[addr].0, motd, hops: 0 },
                    ),
                    None,
                );
            }
        },
        MessageView::RemoveGameListener(_) => {
            lemma_same_advertisements_wf(relay, after);
        },
        MessageView::RemovePeer(peer_id) => {
            lemma_remove_peers_wf(relay, Set::empty().insert(peer_id.0));
        },
        MessageView::Recv(from, Some(InnerView::Game(message))) => {
            if relay.peers.contains_key(from.0) {
                lemma_add_game_wf(relay, from, message, opened);
                lemma_broadcast_wf(
                    relay.add_game(from, message, opened).0,
                    InnerView::Game(
                        RelayGameView {
                            id: relay.game_number(from, message.id),
                            motd: message.motd,
                            hops: (message.hops + 1) as u64,
                        },
                    ),
                    Some(from),
                );
            }
        },
        MessageView::Recv(from, Some(InnerView::Connect(message))) => {
            if relay.games.contains_key(message.game_id) {
                if let Game::Remote(game) = relay.games[message.game_id] {
                    let to = game.peer_id;
                    lemma_remove_peers_wf(relay, Set::empty().insert(to.0));
                    if !(relay.forwards_connect(from, to, message)
                        && relay.peers[to.0].handle.closed) {
                        lemma_wf_ignores_connections(relay, after);
                    }
                }
            }
        },
        MessageView::Recv(from, Some(InnerView::Data(message))) => {
            let number = (ConnectionId {
                id: message.connection_id,
                local: message.connection_local,
            }).number();
            let other = relay.peers[from.0].relayed_connections[number].peer;
            lemma_remove_peers_wf(relay, Set::empty().insert(other.0));
            if after != relay.remove_peer(other) {
                lemma_wf_ignores_connections(relay, after);
            }
        },
        MessageView::Recv(_, Some(InnerView::CloseConnection(_))) => {
            lemma_wf_ignores_connections(relay, after);
        },
        MessageView::Recv(_, None) => {},
    }
}

/// A number was given to a game of a peer: it is that game's for as long as the peer is known, and
/// never another one's.
pub open spec fn given_to(relay: RelayView, p: u64, r: u64, number: u64) -> bool {
    &&& p < relay.next_peer
    &&& number < relay.next_game
    &&& relay.peers.contains_key(p) ==> relay.peers[p].games.contains_key(r)
        && relay.peers[p].games[r].local_game_id.0 == number
    &&& relay.games.contains_key(number) ==> relay.advertised_as(p, r, number)
}

proof fn lemma_game_stays(relay: RelayView, step: Step, p: u64, r: u64, g: u64)
    requires
        relay.wf(),
        relay.advertised_as(p, r, g),
        relay.step(step).games.contains_key(g),
    ensures
        relay.step(step).advertised_as(p, r, g),
{
    let after = relay.step(step);
    match step {
        Step::Event(MessageView::Recv(from, Some(InnerView::Game(message))), opened) => {
            if relay.peers.contains_key(from.0) {
                let number = relay.game_number(from, message.id);
                let noted = relay.add_game(from, message, opened).0;
                if relay.peers[from.0].games.contains_key(message.id) {
                    assert(relay.advertised_as(from.0, message.id, number));
                }
                assert(noted.advertised_as(p, r, g));
                assert(after.games[g] == noted.games[g]);
            }
        },
        Step::Event(MessageView::AddLocalGame(from, port, _), _) => {
            let noted = relay.with_local_game(from.at_port(port));
            assert(noted.advertised_as(p, r, g));
        },
        Step::Event(MessageView::RemoveGameListener(_), _) => {},
        Step::CloseListener(_) => {},
        _ => {
            assert(after.games[g] == relay.games[g]);
        },
    }
}

proof fn lemma_given_to_is_kept(relay: RelayView, step: Step, p: u64, r: u64, number: u64)
    requires
        relay.wf(),
        relay.can_step(step),
        given_to(relay, p, r, number),
    ensures
        given_to(relay.step(step), p, r, number),
{
    let after = relay.step(step);
    if let Step::Event(message, opened) = step {
        numbers_are_never_reused(relay, message, opened);
        if relay.peers.contains_key(p) && after.peers.contains_key(p) {
            remote_games_keep_their_numbers(relay, message, opened, p, r);
        }
    }
    if after.games.contains_key(number) {
        lemma_game_stays(relay, step, p, r, number);
    }
}

proof fn lemma_given_to_is_kept_over_run(
    relay: RelayView,
    steps: Seq<Step>,
    p: u64,
    r: u64,
    number: u64,
)
    requires
        relay.wf(),
        relay.can_run(steps),
        given_to(relay, p, r, number),
    ensures
        given_to(relay.run(steps), p, r, number),
    decreases steps.len(),
{
    if steps.len() > 0 {
        lemma_given_to_is_kept_over_run(relay, steps.drop_last(), p, r, number);
        books_always_agree(relay, steps.drop_last());
        lemma_given_to_is_kept(relay.run(steps.drop_last()), steps.last(), p, r, number);
    }
}

/// Two advertisements, whatever happens between them, get the same number exactly if they come
/// from the same peer and speak of the same game of that peer; and neither gets the number of a
/// game on the local network.
pub proof fn advertisements_share_a_number_iff_same_game(
    relay: RelayView,
    from: PeerId,
    message: RelayGameView,
    opened: Option<SocketAddr>,
    steps: Seq<Step>,
    later_from: PeerId,
    later_message: RelayGameView,
    later_opened: Option<SocketAddr>,
)
    requires
        relay.wf(),
        relay.can_add_game(from, message.id),
        relay.peers.contains_key(from.0),
        relay.handle_game(from, message, opened).0.can_run(steps),
        relay.handle_game(from, message, opened).0.run(steps).peers.contains_key(later_from.0),
    ensures
        ({
            let later = relay.handle_game(from, message, opened).0.run(steps);
            let first = relay.handle_game(from, message, opened).1;
            let second = later.handle_game(later_from, later_message, later_opened).1;
            &&& first is Some && second is Some
            &&& first->0.local_game_id == second->0.local_game_id <==> from == later_from
                && message.id == later_message.id
            &&& forall|addr: SocketAddr| #[trigger]
                later.local_games.contains_key(addr) ==> later.local_games[addr]
                    != first->0.local_game_id && later.local_games[addr] != second->0.local_game_id
        }),
{
    let noted = relay.handle_game(from, message, opened).0;
    let later = noted.run(steps);
    let number = relay.game_number(from, message.id);
    let step = Step::Event(MessageView::Recv(from, Some(InnerView::Game(message))), opened);
    assert(noted == relay.step(step));
    lemma_step_wf(relay, step);
    books_always_agree(noted, steps);
    if relay.peers[from.0].games.contains_key(message.id) {
        assert(relay.advertised_as(from.0, message.id, number));
    }
    advertisement_is_not_sent_back(relay, from, message, opened);
    assert(noted.peers[from.0].games.contains_key(message.id));
    assert(noted.advertised_as(from.0, message.id, number));
    assert(given_to(noted, from.0, message.id, number));
    lemma_given_to_is_kept_over_run(noted, steps, from.0, message.id, number);
    let later_number = later.game_number(later_from, later_message.id);
    if later.peers[later_from.0].games.contains_key(later_message.id) {
        assert(later.advertised_as(later_from.0, later_message.id, later_number));
    }
}

proof fn lemma_local_games_are_kept(relay: RelayView, steps: Seq<Step>, addr: SocketAddr)
    requires
        relay.local_games.contains_key(addr),
    ensures
        relay.run(steps).local_games.contains_key(addr),
        relay.run(steps).local_games[addr] == relay.local_games[addr],
    decreases steps.len(),
{
    if steps.len() > 0 {
        lemma_local_games_are_kept(relay, steps.drop_last(), addr);
        if let Step::Event(message, opened) = steps.last() {
            local_games_keep_their_numbers(
                relay.run(steps.drop_last()),
                message,
                opened,
                addr,
            );
        }
    }
}

/// Two announcements of games on the local network, whatever happens between them, get the same
/// number exactly if the games wait at the same address.
pub proof fn announcements_share_a_number_iff_same_address(
    relay: RelayView,
    from: SocketAddr,
    port: u16,
    motd: Seq<u8>,
    steps: Seq<Step>,
    later_from: SocketAddr,
    later_port: u16,
    later_motd: Seq<u8>,
)
    requires
        relay.wf(),
        relay.can_add_local_game(from, port),
        !relay.is_own_announcement(from, port),
        relay.add_local_game(from, port, motd).can_run(steps),
        ({
            let later = relay.add_local_game(from, port, motd).run(steps);
            later.can_add_local_game(later_from, later_port) && !later.is_own_announcement(
                later_from,
                later_port,
            )
        }),
    ensures
        ({
            let noted = relay.add_local_game(from, port, motd);
            let last = noted.run(steps).add_local_game(later_from, later_port, later_motd);
            let addr = from.at_port(port);
            let later_addr = later_from.at_port(later_port);
            &&& noted.local_games.contains_key(addr)
            &&& last.local_games.contains_key(later_addr)
            &&& noted.local_games[addr] == last.local_games[later_addr] <==> addr == later_addr
        }),
{
    let noted = relay.add_local_game(from, port, motd);
    let later = noted.run(steps);
    let last = later.add_local_game(later_from, later_port, later_motd);
    let addr = from.at_port(port);
    let event = MessageView::AddLocalGame(from, port, motd);
    let later_event = MessageView::AddLocalGame(later_from, later_port, later_motd);
    lemma_step_wf(relay, Step::Event(event, None));
    books_always_agree(noted, steps);
    lemma_step_wf(later, Step::Event(later_event, None));
    lemma_local_games_are_kept(noted, steps, addr);
    local_games_keep_their_numbers(later, later_event, None, addr);
}

/// The names under which some messages ask for connections.
pub open spec fn asked_for(messages: Seq<Option<InnerView>>) -> Seq<u64>
    decreases messages.len(),
{
    if messages.len() == 0 {
        Seq::empty()
    } else {
        match messages.last() {
            Some(InnerView::Connect(message)) => asked_for(messages.drop_last()).push(
                message.connection_id,
            ),
            _ => asked_for(messages.drop_last()),
        }
    }
}

/// The messages that a peer is sent when something happens.
pub open spec fn sent_by_step(relay: RelayView, step: Step, p: u64) -> Seq<Option<InnerView>> {
    let after = relay.step(step);
    if step is Event && relay.peers.contains_key(p) && after.peers.contains_key(p) {
        after.peers[p].handle.queue.skip(relay.peers[p].handle.queue.len() as int)
    } else {
        Seq::empty()
    }
}

/// The messages that a peer is sent when some things happen.
pub open spec fn sent_by_run(relay: RelayView, steps: Seq<Step>, p: u64) -> Seq<Option<InnerView>>
    decreases steps.len(),
{
    if steps.len() == 0 {
        Seq::empty()
    } else {
        sent_by_run(relay, steps.drop_last(), p) + sent_by_step(
            relay.run(steps.drop_last()),
            steps.last(),
            p,
        )
    }
}

/// The name that the next connection through a peer gets.
pub open spec fn next_name(relay: RelayView, p: u64) -> u64 {
    if relay.peers.contains_key(p) {
        relay.peers[p].next_connection_id.id
    } else {
        0
    }
}

/// One more message in a queue is what was sent.
proof fn lemma_sent_one(queue: Seq<Option<InnerView>>, message: Option<InnerView>)
    ensures
        queue.push(message).skip(queue.len() as int) == seq![message],
        queue.skip(queue.len() as int) == Seq::<Option<InnerView>>::empty(),
        asked_for(seq![message]) == match message {
            Some(InnerView::Connect(message)) => seq![message.connection_id],
            _ => Seq::empty(),
        },
        asked_for(Seq::empty()) == Seq::<u64>::empty(),
{
    assert(queue.push(message).skip(queue.len() as int) =~= seq![message]);
    assert(queue.skip(queue.len() as int) =~= Seq::<Option<InnerView>>::empty());
    assert(seq![message].drop_last() =~= Seq::<Option<InnerView>>::empty());
    assert(asked_for(seq![message].drop_last()) =~= Seq::<u64>::empty());
    reveal_with_fuel(asked_for, 2);
}

/// What an event sends to a peer, if it sends something.
spec fn event_message(relay: RelayView, message: MessageView, p: u64) -> InnerView {
    match message {
        MessageView::AddLocalGame(from, port, motd) => {
            let noted = relay.with_local_game(from.at_port(port));
            InnerView::Game(
                RelayGameView { id: noted.local_games[from.at_port(port)].0, motd, hops: 0 },
            )
        },
        MessageView::AcceptGameConnection(game_id) => InnerView::Connect(
            RelayConnect {
                game_id: relay.games[game_id.0]->Remote_0.remote_game_id.0,
                connection_id: relay.peers[p].next_connection_id.id,
                hops: 0,
            },
        ),
        MessageView::AddGameConnection(_, connection_id, _) => data_on(
            connection_id,
            Seq::empty(),
        ),
        MessageView::Recv(from, Some(InnerView::Game(message))) => InnerView::Game(
            RelayGameView {
                id: relay.game_number(from, message.id),
                motd: message.motd,
                hops: (message.hops + 1) as u64,
            },
        ),
        MessageView::Recv(_, Some(InnerView::Connect(message))) => InnerView::Connect(
            RelayConnect {
                game_id: relay.games[message.game_id]->Remote_0.remote_game_id.0,
                connection_id: relay.peers[p].next_connection_id.id,
                hops: (message.hops + 1) as u64,
            },
        ),
        MessageView::Recv(from, Some(InnerView::Data(message))) => {
            let number = (ConnectionId {
                id: message.connection_id,
                local: message.connection_local,
            }).number();
            data_on(
                relay.peers[from.0].relayed_connections[number].peer_connection_id,
                message.data,
            )
        },
        _ => arbitrary(),
    }
}

/// A peer whose connection is up was sent a message, and a name was used up if it asks for a
/// connection.
spec fn was_sent(before: PeerView, after: PeerView, sent: InnerView) -> bool {
    &&& after.handle == before.handle.send(Some(sent))
    &&& match sent {
        InnerView::Connect(request) => {
            &&& request.connection_id == before.next_connection_id.id
            &&& after.next_connection_id.id == before.next_connection_id.id + 1
        },
        _ => after.next_connection_id == before.next_connection_id,
    }
}

/// A peer was sent nothing, or a message if its connection is up.
spec fn was_sent_at_most(before: PeerView, after: PeerView, sent: InnerView) -> bool {
    if before.handle.closed {
        after.handle == before.handle
    } else {
        ||| after.handle == before.handle && after.next_connection_id == before.next_connection_id
        ||| was_sent(before, after, sent)
    }
}

/// What an event sends to a peer that is known before and after it.
proof fn lemma_event_sends(
    relay: RelayView,
    message: MessageView,
    opened: Option<SocketAddr>,
    p: u64,
)
    requires
        relay.wf(),
        relay.can_handle(message),
        relay.peers.contains_key(p),
        relay.handle_message(message, opened).0.peers.contains_key(p),
    ensures
        was_sent_at_most(
            relay.peers[p],
            relay.handle_message(message, opened).0.peers[p],
            event_message(relay, message, p),
        ),
{
}

/// What something that happens does to the names of the connections through a peer whose
/// connection is up.
proof fn lemma_step_names(relay: RelayView, step: Step, p: u64)
    requires
        relay.wf(),
        relay.can_step(step),
        relay.peers.contains_key(p),
        relay.step(step).peers.contains_key(p),
    ensures
        relay.peers[p].handle.closed ==> sent_by_step(relay, step, p).len() == 0
            && relay.step(step).peers[p].handle.closed,
        !relay.peers[p].handle.closed ==> {
            ||| asked_for(sent_by_step(relay, step, p)) == Seq::<u64>::empty() && next_name(
                relay.step(step),
                p,
            ) == next_name(relay, p)
            ||| asked_for(sent_by_step(relay, step, p)) == seq![next_name(relay, p)] && next_name(
                relay.step(step),
                p,
            ) == next_name(relay, p) + 1
        },
{
    let queue = relay.peers[p].handle.queue;
    lemma_sent_one(queue, None);
    if let Step::Event(message, opened) = step {
        lemma_event_sends(relay, message, opened, p);
        lemma_sent_one(queue, Some(event_message(relay, message, p)));
    }
}

/// The names in two parts of what was sent are those in the whole.
proof fn lemma_asked_for_parts(first: Seq<Option<InnerView>>, second: Seq<Option<InnerView>>)
    ensures
        asked_for(first + second) == asked_for(first) + asked_for(second),
    decreases second.len(),
{
    if second.len() == 0 {
        assert(first + second =~= first);
        assert(asked_for(first) + asked_for(second) =~= asked_for(first));
    } else {
        lemma_asked_for_parts(first, second.drop_last());
        assert((first + second).drop_last() =~= first + second.drop_last());
        assert((first + second).last() == second.last());
        assert(asked_for(first + second) =~= asked_for(first) + asked_for(second));
    }
}

/// How the names in what was sent relate to the next one.
proof fn lemma_run_names(relay: RelayView, steps: Seq<Step>, p: u64)
    requires
        relay.wf(),
        relay.can_run(steps),
        relay.peers.contains_key(p) || p >= relay.next_peer,
    ensures
        ({
            let names = asked_for(sent_by_run(relay, steps, p));
            let after = relay.run(steps);
            &&& forall|k: int|
                0 <= k < names.len() ==> #[trigger] names[k] == next_name(relay, p) + k
            &&& after.peers.contains_key(p) && !after.peers[p].handle.closed ==> next_name(
                after,
                p,
            ) == next_name(relay, p) + names.len()
            &&& p >= after.next_peer ==> names.len() == 0 && !relay.peers.contains_key(p)
            &&& relay.next_peer <= after.next_peer
        }),
    decreases steps.len(),
{
    if steps.len() > 0 {
        let between = relay.run(steps.drop_last());
        let step = steps.last();
        let after = between.step(step);
        lemma_run_names(relay, steps.drop_last(), p);
        books_always_agree(relay, steps.drop_last());
        let first = sent_by_run(relay, steps.drop_last(), p);
        let second = sent_by_step(between, step, p);
        lemma_asked_for_parts(first, second);
        if let Step::Event(message, opened) = step {
            numbers_are_never_reused(between, message, opened);
        }
        if between.peers.contains_key(p) && after.peers.contains_key(p) {
            lemma_step_names(between, step, p);
            lemma_sent_one(Seq::empty(), None);
        } else {
            lemma_sent_one(Seq::empty(), None);
            assert(second =~= Seq::empty());
            if after.peers.contains_key(p) {
                lemma_new_peer_is_fresh(between, step, p);
            }
        }
    }
}

/// A peer that something brings has no connections yet.
proof fn lemma_new_peer_is_fresh(relay: RelayView, step: Step, p: u64)
    requires
        relay.wf(),
        relay.can_step(step),
        !relay.peers.contains_key(p),
        relay.step(step).peers.contains_key(p),
    ensures
        p == relay.next_peer,
        relay.step(step).peers[p].next_connection_id.id == 0,
{
    if let Step::Event(message, opened) = step {
        numbers_are_never_reused(relay, message, opened);
        if !(message is AcceptPeer || message is AddPeer) {
            assert(relay.step(step).next_peer == relay.next_peer);
        }
    }
}

/// The connections that a peer is asked for are named in order, one after the other: from zero for
/// a peer that is new.
pub proof fn connections_are_named_in_order(relay: RelayView, steps: Seq<Step>, p: u64)
    requires
        relay.wf(),
        relay.can_run(steps),
        relay.peers.contains_key(p) || p >= relay.next_peer,
    ensures
        ({
            let names = asked_for(sent_by_run(relay, steps, p));
            forall|k: int|
                0 <= k < names.len() ==> #[trigger] names[k] == next_name(relay, p) + k
        }),
{
    lemma_run_names(relay, steps, p);
}

} // verus!
