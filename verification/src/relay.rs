//! What the relay does with each captured frame.
use crate::addr::Ipv4Addr;
use crate::config::ForwarderConfig;
use crate::filter::{decide_relay, lemma_relay_decision_meaning, relay_decision, Decision};
use crate::packet::{
    be16, be32, build_unicast, captures, carries_udp, frame_ipv4, frame_udp, lemma_carries_udp_meaning,
    ipv4_payload_end, ipv4_payload_start, parse_frame, unicast_datagram, Capture, UDP_HDR_LEN,
};
use std::collections::HashSet;
use vstd::prelude::*;

verus! {

/// A datagram to send, and the peer it is sent to.
#[derive(Debug)]
pub struct Datagram {
    /// The peer.
    pub peer: Ipv4Addr,
    /// The UDP datagram, header and payload.
    pub bytes: Vec<u8>,
}

/// What becomes of a captured frame.
#[derive(Debug)]
pub enum FrameAction {
    /// The frame does not carry a UDP datagram in IPv4.
    Ignore,
    /// The datagram is not relayed, for the reason given.
    Skip(Decision),
    /// The datagram is relayed: the captured datagram, and one unicast to
    /// each peer, in the order of the peers.
    Forward(Capture, Vec<Datagram>),
}

/// The decision on the UDP datagram that `frame` carries.
pub open spec fn frame_decision(
    frame: Seq<u8>,
    port: u16,
    iface_bcast: u32,
    local_ips: Set<u32>,
) -> Decision {
    relay_decision(
        be32(frame_ipv4(frame), 12),
        be32(frame_ipv4(frame), 16),
        be16(frame_udp(frame), 2),
        port,
        iface_bcast,
        local_ips,
    )
}

/// What the decision on a frame means in terms of its bytes: a datagram to
/// another port than `port` is skipped as `SkipWrongPort`; a datagram is
/// relayed only when it goes to `port`, its IPv4 destination (bytes 30 to 33)
/// is 255.255.255.255 or `iface_bcast`, and its IPv4 source (bytes 26 to 29)
/// is one of `local_ips`; a datagram from any other source is never relayed.
pub proof fn lemma_frame_decision_meaning(
    frame: Seq<u8>,
    port: u16,
    iface_bcast: u32,
    local_ips: Set<u32>,
)
    requires
        frame.len() >= 34,
    ensures
        be16(frame_udp(frame), 2) != port ==> frame_decision(frame, port, iface_bcast, local_ips)
            == Decision::SkipWrongPort,
        frame_decision(frame, port, iface_bcast, local_ips) == Decision::Relay <==> (be16(
            frame_udp(frame),
            2,
        ) == port && (be32(frame, 30) == 0xffff_ffffu32 || be32(frame, 30) == iface_bcast)
            && local_ips.contains(be32(frame, 26))),
        !local_ips.contains(be32(frame, 26)) ==> frame_decision(frame, port, iface_bcast, local_ips)
            != Decision::Relay,
{
    lemma_carries_udp_meaning(frame);
    lemma_relay_decision_meaning(
        be32(frame_ipv4(frame), 12),
        be32(frame_ipv4(frame), 16),
        be16(frame_udp(frame), 2),
        port,
        iface_bcast,
        local_ips,
    );
}

/// Whether `ds` re-emits the payload and ports of `c`, from `src_ip`, once
/// to each of `peers`, in order.
pub open spec fn unicasts_to_peers(ds: Seq<Datagram>, c: Capture, src_ip: u32, peers: Seq<Ipv4Addr>) -> bool {
    &&& ds.len() == peers.len()
    &&& forall|i: int|
        0 <= i < ds.len() ==> (#[trigger] ds[i]).peer == peers[i] && ds[i].bytes@
            == unicast_datagram(c.payload@, src_ip, c.src_port, peers[i]@, c.dst_port)
}

/// The UDP datagram inside a frame is never longer than an IPv4 total
/// length field allows.
proof fn lemma_frame_udp_len(frame: Seq<u8>)
    requires
        carries_udp(frame),
    ensures
        frame_udp(frame).len() <= 0xffff,
{
    let ip = frame_ipv4(frame);
    assert(ipv4_payload_end(ip) - ipv4_payload_start(ip) <= be16(ip, 2));
}

/// Handles a frame captured on an interface whose IPv4 address is `src_ip`
/// and whose broadcast address is `iface_bcast`, on a host whose addresses
/// are `local_ips`: a frame that carries no UDP datagram in IPv4 is
/// ignored; a datagram that `decide_relay` skips is skipped; any other is
/// re-emitted to each peer of `cfg`, with its payload and both ports, from
/// `src_ip`.
pub fn relay_frame(
    frame: &[u8],
    cfg: &ForwarderConfig,
    src_ip: Ipv4Addr,
    iface_bcast: Ipv4Addr,
    local_ips: &HashSet<u32>,
) -> (r: FrameAction)
    ensures
        !carries_udp(frame@) ==> r is Ignore,
        carries_udp(frame@) && frame_decision(frame@, cfg.port, iface_bcast@, local_ips@)
            != Decision::Relay ==> r == FrameAction::Skip(
            frame_decision(frame@, cfg.port, iface_bcast@, local_ips@),
        ),
        carries_udp(frame@) && frame_decision(frame@, cfg.port, iface_bcast@, local_ips@)
            == Decision::Relay ==> (r matches FrameAction::Forward(c, ds) && captures(c, frame@)
            && unicasts_to_peers(ds@, c, src_ip@, cfg.peers@)),
        r matches FrameAction::Forward(c, ds) ==> carries_udp(frame@) && local_ips@.contains(
            be32(frame@, 26),
        ) && (be32(frame@, 30) == 0xffff_ffffu32 || be32(frame@, 30) == iface_bcast@)
            && c.dst_port == cfg.port && c.src@ == be32(frame@, 26) && c.dst@ == be32(frame@, 30)
            && ds@.len() == cfg.peers@.len() && (forall|i: int|
            0 <= i < ds@.len() ==> (#[trigger] ds@[i]).peer == cfg.peers@[i] && ds@[i].bytes@.len()
                == UDP_HDR_LEN + c.payload@.len() && ds@[i].bytes@.subrange(
                UDP_HDR_LEN as int,
                ds@[i].bytes@.len() as int,
            ) == c.payload@ && be16(ds@[i].bytes@, 0) == be16(frame_udp(frame@), 0) && be16(
                ds@[i].bytes@,
                2,
            ) == cfg.port),
        carries_udp(frame@) && !local_ips@.contains(be32(frame@, 26)) ==> r is Skip,
        carries_udp(frame@) && be16(frame_udp(frame@), 2) != cfg.port ==> r == FrameAction::Skip(
            Decision::SkipWrongPort,
        ),
        r matches FrameAction::Skip(d) ==> d != Decision::Relay,
{
    proof {
        lemma_carries_udp_meaning(frame@);
        if frame@.len() >= 34 {
            lemma_frame_decision_meaning(frame@, cfg.port, iface_bcast@, local_ips@);
        }
    }
    let capture = match parse_frame(frame) {
        Some(c) => c,
        None => return FrameAction::Ignore,
    };
    let decision = decide_relay(
        capture.src,
        capture.dst,
        capture.dst_port,
        cfg.port,
        iface_bcast,
        local_ips,
    );
    if decision.should_skip() {
        return FrameAction::Skip(decision);
    }
    proof {
        lemma_frame_udp_len(frame@);
    }
    let mut datagrams: Vec<Datagram> = Vec::new();
    let n = cfg.peers.len();
    let mut i: usize = 0;
    while i < n
        invariant
            n == cfg.peers@.len(),
            i <= n,
            UDP_HDR_LEN + capture.payload@.len() <= 0xffff,
            datagrams@.len() == i,
            forall|j: int|
                0 <= j < i ==> (#[trigger] datagrams@[j]).peer == cfg.peers@[j] && datagrams@[j].bytes@
                    == unicast_datagram(
                    capture.payload@,
                    src_ip@,
                    capture.src_port,
                    cfg.peers@[j]@,
                    capture.dst_port,
                ) && datagrams@[j].bytes@.len() == UDP_HDR_LEN + capture.payload@.len()
                    && datagrams@[j].bytes@.subrange(UDP_HDR_LEN as int, datagrams@[j].bytes@.len() as int)
                    == capture.payload@ && be16(datagrams@[j].bytes@, 0) == capture.src_port && be16(
                    datagrams@[j].bytes@,
                    2,
                ) == capture.dst_port,
        decreases n - i,
    {
        let peer = cfg.peers[i];
        let bytes = build_unicast(
            capture.payload.as_slice(),
            src_ip,
            capture.src_port,
            peer,
            capture.dst_port,
        );
        datagrams.push(Datagram { peer, bytes });
        i += 1;
    }
    FrameAction::Forward(capture, datagrams)
}

} // verus!
