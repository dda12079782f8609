//! Socket addresses as plain values.
use vstd::prelude::*;

verus! {

/// The host part of a socket address: the bits of an IP address, with what an IPv6 socket
/// address holds besides.
#[derive(Clone, Copy, Debug, PartialEq, Eq, Structural)]
pub enum Host {
    V4 { octets: u32 },
    V6 { segments: u128, flowinfo: u32, scope_id: u32 },
}

/// A host together with a port.
#[derive(Clone, Copy, Debug, PartialEq, Eq, Structural)]
pub struct SocketAddr {
    pub host: Host,
    pub port: u16,
}

impl SocketAddr {
    /// The same host with another port.
    pub open spec fn at_port(self, port: u16) -> SocketAddr {
        SocketAddr { host: self.host, port }
    }

    /// Returns the same host with another port.
    pub fn with_port(self, port: u16) -> (addr: SocketAddr)
        ensures
            addr == self.at_port(port),
    {
        SocketAddr { host: self.host, port }
    }
}

/// To change the port leaves the host as it is.
pub proof fn changing_the_port(addr: SocketAddr, port: u16)
    ensures
        addr.at_port(port).host == addr.host,
        addr.at_port(port).port == port,
{
}

} // verus!
