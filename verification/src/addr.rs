//! IPv4 addresses and networks as plain values.
use vstd::prelude::*;

verus! {

/// The 32-bit value of the address `a.b.c.d` (most significant octet first).
pub open spec fn octets_to_bits(a: u8, b: u8, c: u8, d: u8) -> u32 {
    (a * 0x100_0000 + b * 0x1_0000 + c * 0x100 + d) as u32
}

/// The octets of `a.b.c.d` are `a`, `b`, `c` and `d` again: the 32-bit
/// value of an address determines its octets.
pub proof fn lemma_octets_roundtrip(a: u8, b: u8, c: u8, d: u8)
    ensures
        octets_to_bits(a, b, c, d) / 0x100_0000 == a,
        (octets_to_bits(a, b, c, d) / 0x1_0000) % 0x100 == b,
        (octets_to_bits(a, b, c, d) / 0x100) % 0x100 == c,
        octets_to_bits(a, b, c, d) % 0x100 == d,
{
}

/// An IPv4 address.
#[derive(Clone, Copy, Debug, PartialEq, Eq, Structural, Hash)]
pub struct Ipv4Addr {
    bits: u32,
}

/// The limited broadcast address `255.255.255.255`.
pub open spec fn limited_broadcast_bits() -> u32 {
    0xffff_ffff
}

impl View for Ipv4Addr {
    type V = u32;

    closed spec fn view(&self) -> u32 {
        self.bits
    }
}

impl Ipv4Addr {
    /// The address `a.b.c.d`.
    pub fn new(a: u8, b: u8, c: u8, d: u8) -> (r: Ipv4Addr)
        ensures
            r@ == octets_to_bits(a, b, c, d),
    {
        let bits: u32 = (a as u32) * 0x100_0000 + (b as u32) * 0x1_0000 + (c as u32) * 0x100 + (d as u32);
        Ipv4Addr { bits }
    }

    /// The address whose 32-bit value (first octet most significant) is `bits`.
    pub fn from_bits(bits: u32) -> (r: Ipv4Addr)
        ensures
            r@ == bits,
    {
        Ipv4Addr { bits }
    }

    /// The 32-bit value of the address, first octet most significant.
    pub fn to_bits(&self) -> (r: u32)
        ensures
            r == self@,
    {
        self.bits
    }

    /// The four octets of the address, first octet first.
    pub fn octets(&self) -> (r: [u8; 4])
        ensures
            r[0] == self@ / 0x100_0000,
            r[1] == (self@ / 0x1_0000) % 0x100,
            r[2] == (self@ / 0x100) % 0x100,
            r[3] == self@ % 0x100,
            octets_to_bits(r[0], r[1], r[2], r[3]) == self@,
    {
        let a: u8 = (self.bits / 0x100_0000) as u8;
        let b: u8 = ((self.bits / 0x1_0000) % 0x100) as u8;
        let c: u8 = ((self.bits / 0x100) % 0x100) as u8;
        let d: u8 = (self.bits % 0x100) as u8;
        [a, b, c, d]
    }

    /// Whether this is the limited broadcast address `255.255.255.255`.
    pub fn is_broadcast(&self) -> (r: bool)
        ensures
            r == (self@ == limited_broadcast_bits()),
    {
        self.bits == 0xffff_ffff
    }
}

/// The broadcast address of the network `addr/prefix`: `addr` with every bit
/// below the first `prefix` bits set.
pub open spec fn broadcast_bits(addr: u32, prefix: u8) -> u32 {
    addr | ((0xffff_ffffu64 >> prefix) as u32)
}

/// Calls `pnet::ipnetwork::Ipv4Network::new` and then `broadcast` on the
/// network. The contract claims that, for a prefix of at most 32 bits (where
/// `new` returns `Ok`), `broadcast` gives the address with every host bit
/// set, which is what the crate computes from its netmask
/// `!(0xffff_ffff_u64 >> prefix) as u32`.
#[verifier::external_body]
fn ipnetwork_broadcast(addr: u32, prefix: u8) -> (r: u32)
    requires
        prefix <= 32,
    ensures
        r == broadcast_bits(addr, prefix),
{
    u32::from(pnet::ipnetwork::Ipv4Network::new(addr.into(), prefix).unwrap().broadcast())
}

/// An IPv4 network: an address together with a prefix length of at most 32.
#[derive(Clone, Copy, Debug, PartialEq, Eq, Structural)]
pub struct Ipv4Network {
    addr: Ipv4Addr,
    prefix: u8,
}

impl Ipv4Network {
    #[verifier::type_invariant]
    spec fn prefix_fits(self) -> bool {
        self.prefix <= 32
    }

    /// The address of the network as it was given.
    pub closed spec fn spec_ip(self) -> Ipv4Addr {
        self.addr
    }

    /// The prefix length of the network.
    pub closed spec fn spec_prefix(self) -> u8 {
        self.prefix
    }

    /// The network `addr/prefix`, or `None` where `prefix` exceeds 32.
    pub fn new(addr: Ipv4Addr, prefix: u8) -> (r: Option<Ipv4Network>)
        ensures
            r is Some <==> prefix <= 32,
            r matches Some(n) ==> n.spec_ip() == addr && n.spec_prefix() == prefix,
    {
        if prefix <= 32 {
            Some(Ipv4Network { addr, prefix })
        } else {
            None
        }
    }

    /// The address of the network as it was given.
    pub fn ip(&self) -> (r: Ipv4Addr)
        ensures
            r == self.spec_ip(),
    {
        self.addr
    }

    /// The prefix length of the network.
    pub fn prefix(&self) -> (r: u8)
        ensures
            r == self.spec_prefix(),
            r <= 32,
    {
        proof {
            use_type_invariant(self);
        }
        self.prefix
    }

    /// The broadcast address of the network.
    pub fn broadcast(&self) -> (r: Ipv4Addr)
        ensures
            r@ == broadcast_bits(self.spec_ip()@, self.spec_prefix()),
    {
        proof {
            use_type_invariant(self);
        }
        Ipv4Addr::from_bits(ipnetwork_broadcast(self.addr.to_bits(), self.prefix))
    }
}

} // verus!
