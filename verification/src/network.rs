//! Address ranges in CIDR notation.
//!
//! A network is an address and a prefix length. Its addresses are those
//! that share the prefix: a block whose size is a power of two, aligned to
//! its size.

use vstd::arithmetic::power2::{lemma2_to64, lemma_pow2_adds, lemma_pow2_pos, lemma_pow2_strictly_increases, lemma_pow2_unfold, pow2};
use vstd::prelude::*;

use crate::address::IpAddress;

verus! {

/// An address range: every address that agrees with `addr` in its first
/// `prefix` bits.
#[derive(Clone, Copy, Debug, PartialEq, Eq, Structural)]
pub struct Network {
    /// An address of the range, not necessarily its first.
    pub addr: IpAddress,
    /// How many leading bits the addresses of the range share.
    pub prefix: u8,
}

/// What `str::parse::<ipnetwork::IpNetwork>` makes of `text`: the address
/// and prefix it reads, or nothing where it reports an error.
pub uninterp spec fn parsed_network(text: Seq<char>) -> Option<Network>;

/// Parses CIDR notation with `ipnetwork`'s `FromStr` for `IpNetwork`.
///
/// Trusted: the result is the named one, a function of the text alone, and
/// a network that comes back has a prefix no longer than its family's
/// addresses, which the outside constructor checks.
#[verifier::external_body]
fn parse_cidr(text: &str) -> (net: Option<Network>)
    ensures
        net == parsed_network(text@),
        net is Some ==> net->Some_0.wf(),
{
    match text.parse::<ipnetwork::IpNetwork>() {
        Ok(ipnetwork::IpNetwork::V4(n)) => Some(
            Network { addr: IpAddress::V4(u32::from(n.ip())), prefix: n.prefix() },
        ),
        Ok(ipnetwork::IpNetwork::V6(n)) => Some(
            Network { addr: IpAddress::V6(u128::from(n.ip())), prefix: n.prefix() },
        ),
        Err(_) => None,
    }
}

/// Two to the 128th power.
pub open spec fn two_to_128() -> int {
    u128::MAX as int + 1
}

impl Network {
    /// Bits in an address of the network's family.
    pub open spec fn family_bits(self) -> nat {
        match self.addr {
            IpAddress::V4(_) => 32,
            IpAddress::V6(_) => 128,
        }
    }

    /// The prefix is no longer than an address.
    pub open spec fn wf(self) -> bool {
        self.prefix <= self.family_bits()
    }

    /// Bits in which the addresses of the network differ.
    pub open spec fn host_bits(self) -> nat {
        (self.family_bits() - self.prefix) as nat
    }

    /// How many addresses the network holds.
    pub open spec fn host_count(self) -> nat {
        pow2(self.host_bits())
    }

    /// The bits of the first address: those of `addr` with the host bits
    /// cleared.
    pub open spec fn first_bits(self) -> int {
        self.addr.bits() - self.addr.bits() % (self.host_count() as int)
    }

    /// The address at `offset` from the first.
    pub open spec fn nth(self, offset: int) -> IpAddress {
        match self.addr {
            IpAddress::V4(_) => IpAddress::V4((self.first_bits() + offset) as u32),
            IpAddress::V6(_) => IpAddress::V6((self.first_bits() + offset) as u128),
        }
    }

    /// Every address of the network, in ascending order.
    pub open spec fn addresses_spec(self) -> Seq<IpAddress> {
        Seq::new(self.host_count(), |i: int| self.nth(i))
    }

    /// Whether `ip` lies in the network.
    pub open spec fn contains_spec(self, ip: IpAddress) -> bool {
        ip.family_rank() == self.addr.family_rank() && self.first_bits() <= ip.bits()
            < self.first_bits() + self.host_count()
    }

    /// Parses CIDR notation such as `192.168.1.0/24`; a bare address is a
    /// network of one. Returns nothing for text that is no network.
    pub fn parse(text: &str) -> (net: Option<Network>)
        ensures
            net == parsed_network(text@),
            net is Some ==> net->Some_0.wf(),
    {
        parse_cidr(text)
    }

    /// A network from its parts, where the prefix fits the family.
    pub fn new(addr: IpAddress, prefix: u8) -> (net: Option<Network>)
        ensures
            net is Some <==> (Network { addr, prefix }).wf(),
            net is Some ==> net->Some_0 == (Network { addr, prefix }),
    {
        let limit: u8 = match addr {
            IpAddress::V4(_) => 32,
            IpAddress::V6(_) => 128,
        };
        if prefix <= limit {
            Some(Network { addr, prefix })
        } else {
            None
        }
    }

    /// The distance from the first address of the network to its last:
    /// one less than the number of addresses.
    pub fn span(&self) -> (span: u128)
        requires
            self.wf(),
        ensures
            span == self.host_count() - 1,
    {
        let bits: u8 = match self.addr {
            IpAddress::V4(_) => 32 - self.prefix,
            IpAddress::V6(_) => 128 - self.prefix,
        };
        let mut span: u128 = 0;
        let mut i: u8 = 0;
        proof {
            lemma2_to64();
        }
        while i < bits
            invariant
                i <= bits <= 128,
                span == pow2(i as nat) - 1,
            decreases bits - i,
        {
            proof {
                lemma_pow2_unfold((i + 1) as nat);
                lemma_pow2_bounded((i + 1) as nat);
            }
            span = span * 2 + 1;
            i = i + 1;
        }
        span
    }

    /// The first address of the network.
    pub fn first(&self) -> (ip: IpAddress)
        requires
            self.wf(),
        ensures
            ip == self.nth(0),
            self.contains_spec(ip),
    {
        let span = self.span();
        proof {
            lemma_block_in_range(*self);
        }
        match self.addr {
            IpAddress::V4(bits) => {
                let wide: u128 = bits as u128;
                IpAddress::V4((wide - wide % (span + 1)) as u32)
            },
            IpAddress::V6(bits) => {
                if span == u128::MAX {
                    IpAddress::V6(0)
                } else {
                    IpAddress::V6(bits - bits % (span + 1))
                }
            },
        }
    }

    /// The last address of the network.
    pub fn last(&self) -> (ip: IpAddress)
        requires
            self.wf(),
        ensures
            ip == self.nth(self.host_count() - 1),
            self.contains_spec(ip),
    {
        let span = self.span();
        proof {
            lemma_block_in_range(*self);
        }
        match self.first() {
            IpAddress::V4(bits) => IpAddress::V4(bits + (span as u32)),
            IpAddress::V6(bits) => IpAddress::V6(bits + span),
        }
    }

    /// Whether `ip` lies in the network.
    pub fn contains(&self, ip: &IpAddress) -> (inside: bool)
        requires
            self.wf(),
        ensures
            inside == self.contains_spec(*ip),
    {
        proof {
            lemma_block_in_range(*self);
        }
        match (self.first(), self.last(), ip) {
            (IpAddress::V4(lo), IpAddress::V4(hi), IpAddress::V4(b)) => lo <= *b && *b <= hi,
            (IpAddress::V6(lo), IpAddress::V6(hi), IpAddress::V6(b)) => lo <= *b && *b <= hi,
            _ => false,
        }
    }

    /// Lists every address of the network, in ascending order.
    ///
    /// The list must fit in memory: the network may hold no more
    /// addresses than a length can count.
    pub fn addresses(&self) -> (list: Vec<IpAddress>)
        requires
            self.wf(),
            self.host_count() <= usize::MAX,
        ensures
            list@ == self.addresses_spec(),
    {
        let span = self.span();
        proof {
            lemma_block_in_range(*self);
        }
        let mut list: Vec<IpAddress> = Vec::new();
        let mut offset: u128 = 0;
        match self.first() {
            IpAddress::V4(lo) => {
                while offset < span
                    invariant
                        self.wf(),
                        self.addr is V4,
                        lo == self.first_bits(),
                        span == self.host_count() - 1,
                        lo + span <= u32::MAX,
                        offset <= span,
                        list@.len() == offset,
                        forall|k: int| 0 <= k < offset ==> list@[k] == self.nth(k),
                    decreases span - offset,
                {
                    list.push(IpAddress::V4(lo + (offset as u32)));
                    offset = offset + 1;
                }
                list.push(IpAddress::V4(lo + (span as u32)));
            },
            IpAddress::V6(lo) => {
                while offset < span
                    invariant
                        self.wf(),
                        self.addr is V6,
                        lo == self.first_bits(),
                        span == self.host_count() - 1,
                        lo + span <= u128::MAX,
                        offset <= span,
                        list@.len() == offset,
                        forall|k: int| 0 <= k < offset ==> list@[k] == self.nth(k),
                    decreases span - offset,
                {
                    list.push(IpAddress::V6(lo + offset));
                    offset = offset + 1;
                }
                list.push(IpAddress::V6(lo + span));
            },
        }
        assert(list@ =~= self.addresses_spec());
        list
    }
}

/// Powers of two up to the 128th stay within 128 bits and one more.
proof fn lemma_pow2_bounded(e: nat)
    requires
        e <= 128,
    ensures
        0 < pow2(e) <= two_to_128(),
        e <= 32 ==> pow2(e) <= 0x1_0000_0000,
        pow2(32) == 0x1_0000_0000,
        pow2(128) == two_to_128(),
{
    lemma2_to64();
    lemma_pow2_pos(e);
    lemma_pow2_adds(64, 64);
    assert(pow2(128) == two_to_128()) by (nonlinear_arith)
        requires
            pow2(128) == pow2(64) * pow2(64),
            pow2(64) == 0x1_0000_0000_0000_0000,
    ;
    if e < 128 {
        lemma_pow2_strictly_increases(e, 128);
    }
    if e < 32 {
        lemma_pow2_strictly_increases(e, 32);
    }
}

/// The block of a network lies inside the address space of its family:
/// its first address is not negative and its last is an address.
proof fn lemma_block_in_range(net: Network)
    requires
        net.wf(),
    ensures
        0 < net.host_count(),
        0 <= net.first_bits() <= net.addr.bits(),
        net.addr is V4 ==> net.first_bits() + net.host_count() <= 0x1_0000_0000,
        net.addr is V6 ==> net.first_bits() + net.host_count() <= two_to_128(),
        net.host_count() == two_to_128() ==> net.first_bits() == 0,
{
    let h = net.host_bits();
    let p = net.prefix as nat;
    let block = net.host_count() as int;
    let bits = net.addr.bits();
    lemma_pow2_bounded(h);
    lemma_pow2_bounded(p);
    lemma_pow2_bounded(net.family_bits());
    lemma_pow2_adds(h, p);
    lemma2_to64();
    let whole = pow2(net.family_bits()) as int;
    let q = bits / block;
    let r = bits % block;
    vstd::arithmetic::div_mod::lemma_fundamental_div_mod(bits, block);
    assert(0 <= r < block);
    assert(bits == block * q + r);
    assert(whole == block * pow2(p));
    assert(bits < whole);
    assert(q < pow2(p)) by (nonlinear_arith)
        requires
            block * q <= bits,
            bits < block * pow2(p),
            block > 0,
    ;
    assert(block * q + block <= block * pow2(p)) by (nonlinear_arith)
        requires
            q + 1 <= pow2(p),
            block > 0,
    ;
}

} // verus!
