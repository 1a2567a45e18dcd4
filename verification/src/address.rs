//! IP addresses and the address and port pairs of a probe.

use vstd::prelude::*;

verus! {

/// An IP address, held as the integer whose big-endian bytes are the
/// address as it travels on the wire.
#[derive(Clone, Copy, Debug, PartialEq, Eq, Structural)]
pub enum IpAddress {
    V4(u32),
    V6(u128),
}

impl IpAddress {
    /// Whether both addresses belong to the same IP family.
    pub open spec fn same_family(self, other: IpAddress) -> bool {
        (self is V4) == (other is V4)
    }

    /// Whether this is an IPv4 address.
    pub fn is_ipv4(&self) -> (yes: bool)
        ensures
            yes == (*self is V4),
    {
        match self {
            IpAddress::V4(_) => true,
            IpAddress::V6(_) => false,
        }
    }

    /// Whether this is an IPv6 address.
    pub fn is_ipv6(&self) -> (yes: bool)
        ensures
            yes == (*self is V6),
    {
        match self {
            IpAddress::V4(_) => false,
            IpAddress::V6(_) => true,
        }
    }
}

/// The two addresses of a probe: where it goes and where it claims to come
/// from.
#[derive(Clone, Copy, Debug, PartialEq, Eq, Structural)]
pub struct IpConfig {
    pub target: IpAddress,
    pub source: IpAddress,
}

impl IpConfig {
    /// Both addresses are IPv4 or both are IPv6.
    pub open spec fn well_formed(self) -> bool {
        self.target.same_family(self.source)
    }

    /// Whether both addresses are of one family.
    pub fn is_well_formed(&self) -> (yes: bool)
        ensures
            yes == self.well_formed(),
    {
        self.target.is_ipv4() == self.source.is_ipv4()
    }
}

/// The lowest port a probe may use as its source.
pub const EPHEMERAL_PORT_MIN: u16 = 1024;

/// The highest port a probe may use as its source.
pub const EPHEMERAL_PORT_MAX: u16 = 65534;

/// Whether `port` lies in the range that source ports are drawn from.
pub open spec fn is_ephemeral_port(port: u16) -> bool {
    EPHEMERAL_PORT_MIN <= port <= EPHEMERAL_PORT_MAX
}

/// The two ports of a probe: the one under test and the transient one the
/// probe is sent from.
#[derive(Clone, Copy, Debug, PartialEq, Eq, Structural)]
pub struct PortConfig {
    pub target: u16,
    pub source: u16,
}

impl PortConfig {
    /// The source port lies in the ephemeral range.
    pub open spec fn well_formed(self) -> bool {
        is_ephemeral_port(self.source)
    }
}

} // verus!
