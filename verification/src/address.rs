//! Network addresses as plain integers.
//!
//! An address is its family together with its bits read as one big-endian
//! number, so that numeric order is the order of the dotted or colon form.

use vstd::prelude::*;

verus! {

/// An IPv4 or IPv6 address.
#[derive(Clone, Copy, Debug, PartialEq, Eq, Structural, Hash)]
pub enum IpAddress {
    /// The four octets, most significant first.
    V4(u32),
    /// The sixteen octets, most significant first.
    V6(u128),
}

impl IpAddress {
    /// Builds an IPv4 address from its dotted octets `a.b.c.d`.
    pub fn from_octets(a: u8, b: u8, c: u8, d: u8) -> (ip: IpAddress)
        ensures
            ip == IpAddress::V4(octets_value(a, b, c, d)),
    {
        let bits: u32 = (a as u32) * 0x100_0000 + (b as u32) * 0x1_0000 + (c as u32) * 0x100 + (
        d as u32);
        IpAddress::V4(bits)
    }

    /// Whether the address is IPv4.
    pub open spec fn is_ipv4_spec(self) -> bool {
        self is V4
    }

    /// Whether the address is IPv4.
    pub fn is_ipv4(&self) -> (v4: bool)
        ensures
            v4 == self.is_ipv4_spec(),
    {
        matches!(self, IpAddress::V4(_))
    }

    /// The family as a number, IPv4 below IPv6.
    pub open spec fn family_rank(self) -> int {
        match self {
            IpAddress::V4(_) => 0,
            IpAddress::V6(_) => 1,
        }
    }

    /// The bits as a number.
    pub open spec fn bits(self) -> int {
        match self {
            IpAddress::V4(b) => b as int,
            IpAddress::V6(b) => b as int,
        }
    }

    /// Loopback means the IPv4 block `127.0.0.0/8`.
    pub open spec fn is_loopback_spec(self) -> bool {
        match self {
            IpAddress::V4(b) => b as int / 0x100_0000 == 127,
            IpAddress::V6(_) => false,
        }
    }

    /// Whether the address lies in `127.0.0.0/8`.
    pub fn is_loopback(&self) -> (lo: bool)
        ensures
            lo == self.is_loopback_spec(),
    {
        match self {
            IpAddress::V4(b) => *b / 0x100_0000 == 127,
            IpAddress::V6(_) => false,
        }
    }

    /// The strict order of addresses: every IPv4 address comes before every
    /// IPv6 address, and inside a family the smaller number comes first.
    pub open spec fn precedes_spec(self, other: IpAddress) -> bool {
        self.family_rank() < other.family_rank() || (self.family_rank() == other.family_rank()
            && self.bits() < other.bits())
    }

    /// Whether `self` sorts strictly before `other`.
    pub fn precedes(&self, other: &IpAddress) -> (before: bool)
        ensures
            before == self.precedes_spec(*other),
    {
        match (self, other) {
            (IpAddress::V4(a), IpAddress::V4(b)) => *a < *b,
            (IpAddress::V4(_), IpAddress::V6(_)) => true,
            (IpAddress::V6(_), IpAddress::V4(_)) => false,
            (IpAddress::V6(a), IpAddress::V6(b)) => *a < *b,
        }
    }
}

/// The number that the dotted octets `a.b.c.d` stand for.
pub open spec fn octets_value(a: u8, b: u8, c: u8, d: u8) -> u32 {
    (a as int * 0x100_0000 + b as int * 0x1_0000 + c as int * 0x100 + d as int) as u32
}

/// Addresses are totally ordered: of two different addresses exactly one
/// precedes the other, and none precedes itself.
pub proof fn lemma_precedes_total(a: IpAddress, b: IpAddress)
    ensures
        !a.precedes_spec(a),
        a != b ==> (a.precedes_spec(b) <==> !b.precedes_spec(a)),
        a == b ==> !a.precedes_spec(b) && !b.precedes_spec(a),
{
}

/// The order of addresses is transitive.
pub proof fn lemma_precedes_transitive(a: IpAddress, b: IpAddress, c: IpAddress)
    requires
        a.precedes_spec(b),
        b.precedes_spec(c),
    ensures
        a.precedes_spec(c),
{
}

} // verus!
