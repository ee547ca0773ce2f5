//! Network addresses as plain values.

use vstd::prelude::*;

verus! {

/// An IP address, held as the number that its bytes spell in network order.
#[derive(Debug, Clone, Copy, PartialEq, Eq, Hash, Structural)]
pub enum IpAddress {
    /// An IPv4 address: `127.0.0.1` is `0x7f00_0001`.
    V4(u32),
    /// An IPv6 address: `::1` is `1`.
    V6(u128),
}

/// A concrete network address: an IP address and a port.
#[derive(Debug, Clone, Copy, PartialEq, Eq, Hash, Structural)]
pub struct SocketAddress {
    pub ip: IpAddress,
    pub port: u16,
}

impl IpAddress {
    /// The number that four bytes spell in network order.
    pub open spec fn spec_v4_bits(a: u8, b: u8, c: u8, d: u8) -> int {
        a as int * 0x100_0000 + b as int * 0x1_0000 + c as int * 0x100 + d as int
    }

    /// The IPv4 address `a.b.c.d`.
    pub fn v4(a: u8, b: u8, c: u8, d: u8) -> (ip: IpAddress)
        ensures
            ip == IpAddress::V4(Self::spec_v4_bits(a, b, c, d) as u32),
            Self::spec_v4_bits(a, b, c, d) <= u32::MAX,
    {
        let high: u32 = a as u32 * 0x100_0000 + b as u32 * 0x1_0000;
        let low: u32 = c as u32 * 0x100 + d as u32;
        IpAddress::V4(high + low)
    }
}

impl SocketAddress {
    /// The address of port `port` at the IPv4 address `a.b.c.d`.
    pub fn v4(a: u8, b: u8, c: u8, d: u8, port: u16) -> (address: SocketAddress)
        ensures
            address.port == port,
            address.ip == IpAddress::V4(IpAddress::spec_v4_bits(a, b, c, d) as u32),
    {
        SocketAddress { ip: IpAddress::v4(a, b, c, d), port }
    }
}

} // verus!
