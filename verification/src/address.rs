//! Socket addresses as plain values.
use vstd::prelude::*;

verus! {

/// An address of a host.
#[derive(Clone, Copy, Debug, PartialEq, Eq, Structural)]
pub enum HostAddress {
    /// The 32 bits of an IPv4 address, first octet most significant.
    V4(u32),
    /// The 128 bits of an IPv6 address, with its flow information and scope.
    V6 { bits: u128, flowinfo: u32, scope_id: u32 },
}

/// A host and a port.
#[derive(Clone, Copy, Debug, PartialEq, Eq, Structural)]
pub struct SocketAddress {
    pub host: HostAddress,
    pub port: u16,
}

/// The bits of 127.0.0.1.
pub const LOOPBACK: u32 = 0x7f00_0001;

impl SocketAddress {
    /// A port of an IPv4 host.
    pub fn v4(bits: u32, port: u16) -> (r: SocketAddress)
        ensures
            r.host == HostAddress::V4(bits),
            r.port == port,
    {
        SocketAddress { host: HostAddress::V4(bits), port }
    }

    /// A port of the local host.
    pub open spec fn local(port: u16) -> SocketAddress {
        SocketAddress { host: HostAddress::V4(LOOPBACK), port }
    }

    /// A port of the local host.
    pub fn loopback(port: u16) -> (r: SocketAddress)
        ensures
            r == Self::local(port),
    {
        SocketAddress { host: HostAddress::V4(LOOPBACK), port }
    }
}

} // verus!
