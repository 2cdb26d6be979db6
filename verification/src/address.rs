use vstd::prelude::*;

verus! {

/// A socket address held as plain integers: an IPv4 address with a port, or
/// an IPv6 address with a port, a flow label and a scope identifier.
#[derive(Clone, Copy, Debug, PartialEq, Eq, Structural, Hash)]
pub enum SocketAddress {
    V4 { ipv4: u32, port: u16 },
    V6 { ipv6: u128, port: u16, flowinfo: u32, scope_id: u32 },
}

/// The address at which a server of the cluster is reached.
#[derive(Clone, Copy, Debug, PartialEq, Eq, Structural, Hash)]
pub struct ServerAddress(pub SocketAddress);

impl ServerAddress {
    /// The IPv4 address `0.0.0.0:0`.
    pub open spec fn spec_unspecified() -> ServerAddress {
        ServerAddress(SocketAddress::V4 { ipv4: 0, port: 0 })
    }

    /// The IPv4 address `0.0.0.0:0`.
    pub fn unspecified() -> (r: ServerAddress)
        ensures
            r == Self::spec_unspecified(),
    {
        ServerAddress(SocketAddress::V4 { ipv4: 0, port: 0 })
    }
}

} // verus!
