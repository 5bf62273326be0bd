//! Plain-value address types: IPv4 and IPv6 addresses, and endpoints
//! (an IP address paired with a 16-bit port).

use vstd::prelude::*;

verus! {

/// An IPv4 address, as its four dotted-decimal octets.
#[derive(Clone, Copy, PartialEq, Eq, Structural, Debug)]
pub struct Ipv4Address {
    pub a: u8,
    pub b: u8,
    pub c: u8,
    pub d: u8,
}

impl Ipv4Address {
    pub fn new(a: u8, b: u8, c: u8, d: u8) -> (r: Ipv4Address)
        ensures
            r == (Ipv4Address { a, b, c, d }),
    {
        Ipv4Address { a, b, c, d }
    }
}

/// An IPv6 address, as its eight colon-separated 16-bit groups.
#[derive(Clone, Copy, PartialEq, Eq, Structural, Debug)]
pub struct Ipv6Address {
    pub g0: u16,
    pub g1: u16,
    pub g2: u16,
    pub g3: u16,
    pub g4: u16,
    pub g5: u16,
    pub g6: u16,
    pub g7: u16,
}

impl Ipv6Address {
    pub fn new(g0: u16, g1: u16, g2: u16, g3: u16, g4: u16, g5: u16, g6: u16, g7: u16) -> (r:
        Ipv6Address)
        ensures
            r == (Ipv6Address { g0, g1, g2, g3, g4, g5, g6, g7 }),
    {
        Ipv6Address { g0, g1, g2, g3, g4, g5, g6, g7 }
    }

    /// The groups of the address, most significant first.
    pub open spec fn groups(self) -> Seq<u16> {
        seq![self.g0, self.g1, self.g2, self.g3, self.g4, self.g5, self.g6, self.g7]
    }
}

/// An IP address of either family.
#[derive(Clone, Copy, PartialEq, Eq, Structural, Debug)]
pub enum IpAddress {
    V4(Ipv4Address),
    V6(Ipv6Address),
}

/// An endpoint: an IP address paired with a port.
#[derive(Clone, Copy, PartialEq, Eq, Structural, Debug)]
pub struct Endpoint {
    pub ip: IpAddress,
    pub port: u16,
}

impl Endpoint {
    pub fn new(ip: IpAddress, port: u16) -> (r: Endpoint)
        ensures
            r == (Endpoint { ip, port }),
    {
        Endpoint { ip, port }
    }
}

/// An endpoint known to be IPv4, as the narrower input shape.
#[derive(Clone, Copy, PartialEq, Eq, Structural, Debug)]
pub struct EndpointV4 {
    pub ip: Ipv4Address,
    pub port: u16,
}

/// An endpoint known to be IPv6, as the narrower input shape.
#[derive(Clone, Copy, PartialEq, Eq, Structural, Debug)]
pub struct EndpointV6 {
    pub ip: Ipv6Address,
    pub port: u16,
}

impl EndpointV4 {
    /// Widen to an endpoint of either family.
    pub fn widen(self) -> (r: Endpoint)
        ensures
            r == (Endpoint { ip: IpAddress::V4(self.ip), port: self.port }),
    {
        Endpoint { ip: IpAddress::V4(self.ip), port: self.port }
    }
}

impl EndpointV6 {
    /// Widen to an endpoint of either family.
    pub fn widen(self) -> (r: Endpoint)
        ensures
            r == (Endpoint { ip: IpAddress::V6(self.ip), port: self.port }),
    {
        Endpoint { ip: IpAddress::V6(self.ip), port: self.port }
    }
}

} // verus!
