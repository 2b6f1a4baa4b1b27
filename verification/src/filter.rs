//! The relay decision for one captured packet.
use crate::addr::{limited_broadcast_bits, Ipv4Addr};
use std::collections::HashSet;
use vstd::prelude::*;

verus! {

broadcast use vstd::std_specs::hash::group_hash_axioms;

/// What becomes of a captured UDP packet.
#[derive(Debug, Clone, Copy, PartialEq, Eq, Structural)]
pub enum Decision {
    /// Re-emit the packet as a unicast to every peer.
    Relay,
    /// The packet was addressed to a single host, not broadcast.
    SkipNotBroadcast,
    /// The broadcast came from another host on the wire.
    SkipRemoteOrigin,
    /// The packet is not for the relayed port.
    SkipWrongPort,
}

impl Decision {
    /// Whether the packet is left alone: every decision but `Relay`.
    pub fn should_skip(&self) -> (r: bool)
        ensures
            r <==> *self != Decision::Relay,
    {
        !matches!(self, Decision::Relay)
    }
}

/// The decision of `decide_relay` on plain values: a wrong port is reported
/// first, then a destination that is neither the limited broadcast address
/// nor the interface's broadcast address, then a source that is not one of
/// this host's addresses.
pub open spec fn relay_decision(
    pkt_src: u32,
    pkt_dst: u32,
    dst_port: u16,
    expected_port: u16,
    iface_bcast: u32,
    local_ips: Set<u32>,
) -> Decision {
    if dst_port != expected_port {
        Decision::SkipWrongPort
    } else if pkt_dst != limited_broadcast_bits() && pkt_dst != iface_bcast {
        Decision::SkipNotBroadcast
    } else if !local_ips.contains(pkt_src) {
        Decision::SkipRemoteOrigin
    } else {
        Decision::Relay
    }
}

/// What each decision means: a packet to another port than the expected
/// one is always `SkipWrongPort`, whatever its addresses; otherwise a
/// packet to neither the limited broadcast address 255.255.255.255 nor the
/// interface's broadcast address is `SkipNotBroadcast`; otherwise a packet
/// whose source is not one of `local_ips` is `SkipRemoteOrigin`; and only a
/// packet that passes all three is `Relay`.
pub proof fn lemma_relay_decision_meaning(
    pkt_src: u32,
    pkt_dst: u32,
    dst_port: u16,
    expected_port: u16,
    iface_bcast: u32,
    local_ips: Set<u32>,
)
    ensures
        ({
            let d = relay_decision(pkt_src, pkt_dst, dst_port, expected_port, iface_bcast, local_ips);
            &&& dst_port != expected_port ==> d == Decision::SkipWrongPort
            &&& dst_port == expected_port && pkt_dst != 0xffff_ffffu32 && pkt_dst != iface_bcast
                ==> d == Decision::SkipNotBroadcast
            &&& dst_port == expected_port && (pkt_dst == 0xffff_ffffu32 || pkt_dst == iface_bcast)
                && !local_ips.contains(pkt_src) ==> d == Decision::SkipRemoteOrigin
            &&& d == Decision::Relay <==> (dst_port == expected_port && (pkt_dst == 0xffff_ffffu32
                || pkt_dst == iface_bcast) && local_ips.contains(pkt_src))
        }),
{
}

/// Decides whether a captured UDP packet from `pkt_src` to
/// `pkt_dst:dst_port` is relayed. Only broadcasts to the expected port that
/// this host sent itself are relayed: unicasts already reach their host, and
/// a remote host's broadcast is relayed by that host's own relay.
/// `local_ips` holds the 32-bit values of this host's addresses.
pub fn decide_relay(
    pkt_src: Ipv4Addr,
    pkt_dst: Ipv4Addr,
    dst_port: u16,
    expected_port: u16,
    iface_bcast: Ipv4Addr,
    local_ips: &HashSet<u32>,
) -> (r: Decision)
    ensures
        r == relay_decision(pkt_src@, pkt_dst@, dst_port, expected_port, iface_bcast@, local_ips@),
        dst_port != expected_port ==> r == Decision::SkipWrongPort,
        dst_port == expected_port && pkt_dst@ != 0xffff_ffffu32 && pkt_dst@ != iface_bcast@ ==> r
            == Decision::SkipNotBroadcast,
        dst_port == expected_port && (pkt_dst@ == 0xffff_ffffu32 || pkt_dst@ == iface_bcast@)
            && !local_ips@.contains(pkt_src@) ==> r == Decision::SkipRemoteOrigin,
        r == Decision::Relay <==> (dst_port == expected_port && (pkt_dst@ == 0xffff_ffffu32
            || pkt_dst@ == iface_bcast@) && local_ips@.contains(pkt_src@)),
{
    if dst_port != expected_port {
        return Decision::SkipWrongPort;
    }
    // Only broadcast-destined packets are relayed: these are the discovery
    // announcements that are rewritten to unicast. Unicasts are already
    // addressed to a specific host.
    if !pkt_dst.is_broadcast() && pkt_dst.to_bits() != iface_bcast.to_bits() {
        return Decision::SkipNotBroadcast;
    }
    // Only broadcasts that originated on this host are relayed. A remote
    // peer's broadcasts also cross this wire, and its own relay already
    // unicasts them here; relaying them again would deliver them twice.
    if !local_ips.contains(&pkt_src.to_bits()) {
        return Decision::SkipRemoteOrigin;
    }
    Decision::Relay
}

} // verus!
