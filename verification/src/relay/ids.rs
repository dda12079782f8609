//! The names that peers, games and connections go by.
use vstd::prelude::*;
use vstd::std_specs::convert::{FromSpec, FromSpecImpl};

verus! {

/// A peer, as this relay numbers them.
#[derive(Clone, Copy, Debug, Hash, PartialEq, Eq, PartialOrd, Ord, Structural)]
pub struct PeerId(pub u64);

/// A game, as this relay numbers them.
#[derive(Clone, Copy, Debug, Hash, PartialEq, Eq, PartialOrd, Ord, Structural)]
pub struct LocalGameId(pub u64);

/// A game, as a peer numbers them.
#[derive(Clone, Copy, Debug, Hash, PartialEq, Eq, PartialOrd, Ord, Structural)]
pub struct RemoteGameId(pub u64);

/// A connection that runs through one peer.
#[derive(Clone, Copy, Debug, Hash, PartialEq, Eq, PartialOrd, Ord, Structural)]
pub struct ConnectionId {
    pub id: u64,
    pub local: bool,
}

impl From<u64> for PeerId {
    fn from(id: u64) -> (r: PeerId) {
        PeerId(id)
    }
}

impl FromSpecImpl<u64> for PeerId {
    open spec fn obeys_from_spec() -> bool {
        true
    }

    open spec fn from_spec(id: u64) -> PeerId {
        PeerId(id)
    }
}

impl From<u64> for LocalGameId {
    fn from(id: u64) -> (r: LocalGameId) {
        LocalGameId(id)
    }
}

impl FromSpecImpl<u64> for LocalGameId {
    open spec fn obeys_from_spec() -> bool {
        true
    }

    open spec fn from_spec(id: u64) -> LocalGameId {
        LocalGameId(id)
    }
}

impl From<u64> for RemoteGameId {
    fn from(id: u64) -> (r: RemoteGameId) {
        RemoteGameId(id)
    }
}

impl FromSpecImpl<u64> for RemoteGameId {
    open spec fn obeys_from_spec() -> bool {
        true
    }

    open spec fn from_spec(id: u64) -> RemoteGameId {
        RemoteGameId(id)
    }
}

impl ConnectionId {
    /// The connection as one number, which no other connection of the peer has.
    pub open spec fn number(self) -> u128 {
        (self.id * 2 + if self.local {
            1int
        } else {
            0int
        }) as u128
    }

    /// The name of the connection that follows this one.
    pub open spec fn succ(self) -> ConnectionId {
        ConnectionId { id: (self.id + 1) as u64, local: self.local }
    }

    /// Returns the connection as one number.
    pub fn key(self) -> (key: u128)
        ensures
            key == self.number(),
    {
        let low: u128 = if self.local {
            1
        } else {
            0
        };
        self.id as u128 * 2 + low
    }
}

/// Two connections of a peer have different numbers.
pub proof fn connection_numbers_differ(a: ConnectionId, b: ConnectionId)
    ensures
        a.number() == b.number() <==> a == b,
{
}

/// Names are the numbers that they were made from.
pub proof fn making_names(id: u64)
    ensures
        <PeerId as FromSpec<u64>>::from_spec(id).0 == id,
        <LocalGameId as FromSpec<u64>>::from_spec(id).0 == id,
        <RemoteGameId as FromSpec<u64>>::from_spec(id).0 == id,
        <PeerId as FromSpec<u64>>::obeys_from_spec(),
        <LocalGameId as FromSpec<u64>>::obeys_from_spec(),
        <RemoteGameId as FromSpec<u64>>::obeys_from_spec(),
{
}

/// The next name of a connection is one higher.
pub proof fn naming_the_next(connection_id: ConnectionId)
    requires
        connection_id.id < u64::MAX,
    ensures
        connection_id.succ().id == connection_id.id + 1,
        connection_id.succ().local == connection_id.local,
{
}

} // verus!
