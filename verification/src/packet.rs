//! Reading captured Ethernet/IPv4/UDP frames and writing UDP datagrams,
//! through `pnet`'s packet views.
use crate::addr::{octets_to_bits, Ipv4Addr};
use pnet::packet::ethernet::EthernetPacket;
use pnet::packet::ipv4::Ipv4Packet;
use pnet::packet::udp::{MutableUdpPacket, UdpPacket};
use pnet::packet::Packet;
use vstd::prelude::*;

verus! {

/// The length of an Ethernet header.
pub const ETHERNET_HEADER_LEN: usize = 14;

/// The length of an IPv4 header without options.
pub const IPV4_HEADER_LEN: usize = 20;

/// The length of a UDP header.
pub const UDP_HDR_LEN: usize = 8;

/// The EtherType of an IPv4 payload.
pub const ETHERTYPE_IPV4: u16 = 0x0800;

/// The IP protocol number of UDP.
pub const IP_PROTOCOL_UDP: u8 = 17;

/// The big-endian 16-bit value of `s[i]` and `s[i + 1]`.
pub open spec fn be16(s: Seq<u8>, i: int) -> u16 {
    (s[i] * 0x100 + s[i + 1]) as u16
}

/// The big-endian 32-bit value of `s[i..i + 4]`.
pub open spec fn be32(s: Seq<u8>, i: int) -> u32 {
    octets_to_bits(s[i], s[i + 1], s[i + 2], s[i + 3])
}

/// The two bytes of `v`, most significant first.
pub open spec fn be16_bytes(v: u16) -> Seq<u8> {
    seq![(v / 0x100) as u8, (v % 0x100) as u8]
}

// ---------------------------------------------------------------------------
// Ethernet

/// Calls `EthernetPacket::new`, which gives a view of the bytes exactly when
/// they are at least as long as an Ethernet header (14 bytes).
#[verifier::external_body]
fn ethernet_fits(frame: &[u8]) -> (r: bool)
    ensures
        r == (frame@.len() >= ETHERNET_HEADER_LEN),
{
    EthernetPacket::new(frame).is_some()
}

/// Calls `EthernetPacket::get_ethertype`, which reads bytes 12 and 13 of the
/// frame as a big-endian number.
#[verifier::external_body]
fn ethernet_ethertype(frame: &[u8]) -> (r: u16)
    requires
        frame@.len() >= ETHERNET_HEADER_LEN,
    ensures
        r == be16(frame@, 12),
{
    EthernetPacket::new(frame).unwrap().get_ethertype().0
}

/// Calls `Packet::payload` on an `EthernetPacket`, which is every byte after
/// the 14-byte header; the bytes are copied out.
#[verifier::external_body]
fn ethernet_payload(frame: &[u8]) -> (r: Vec<u8>)
    requires
        frame@.len() >= ETHERNET_HEADER_LEN,
    ensures
        r@ == frame@.subrange(ETHERNET_HEADER_LEN as int, frame@.len() as int),
{
    EthernetPacket::new(frame).unwrap().payload().to_vec()
}

// ---------------------------------------------------------------------------
// IPv4

/// Where the payload of the IPv4 packet `p` starts: after the header whose
/// length (in 32-bit words) is the low nibble of byte 0, and at least after
/// the 20 fixed header bytes.
pub open spec fn ipv4_payload_start(p: Seq<u8>) -> int {
    let header_len = (p[0] % 16) * 4;
    if header_len > IPV4_HEADER_LEN {
        header_len as int
    } else {
        IPV4_HEADER_LEN as int
    }
}

/// Where the payload of the IPv4 packet `p` ends: the total length (bytes 2
/// and 3) less the header length past the payload's start, cut at the end
/// of the bytes.
pub open spec fn ipv4_payload_end(p: Seq<u8>) -> int {
    let header_len = (p[0] % 16) * 4;
    let total = be16(p, 2);
    let payload_len = if total >= header_len {
        total - header_len
    } else {
        0
    };
    let end = ipv4_payload_start(p) + payload_len;
    if end < p.len() {
        end
    } else {
        p.len() as int
    }
}

/// The payload of the IPv4 packet `p`, as `pnet` delimits it.
pub open spec fn ipv4_payload(p: Seq<u8>) -> Seq<u8> {
    if p.len() <= ipv4_payload_start(p) {
        Seq::empty()
    } else {
        p.subrange(ipv4_payload_start(p), ipv4_payload_end(p))
    }
}

/// Calls `Ipv4Packet::new`, which gives a view of the bytes exactly when they
/// are at least as long as the fixed IPv4 header (20 bytes).
#[verifier::external_body]
fn ipv4_fits(packet: &[u8]) -> (r: bool)
    ensures
        r == (packet@.len() >= IPV4_HEADER_LEN),
{
    Ipv4Packet::new(packet).is_some()
}

/// Calls `Ipv4Packet::get_next_level_protocol`, which reads byte 9.
#[verifier::external_body]
fn ipv4_protocol(packet: &[u8]) -> (r: u8)
    requires
        packet@.len() >= IPV4_HEADER_LEN,
    ensures
        r == packet@[9],
{
    Ipv4Packet::new(packet).unwrap().get_next_level_protocol().0
}

/// Calls `Ipv4Packet::get_source`, which reads bytes 12 to 15 as an address,
/// first octet first; the result is converted to its 32-bit value.
#[verifier::external_body]
fn ipv4_source(packet: &[u8]) -> (r: u32)
    requires
        packet@.len() >= IPV4_HEADER_LEN,
    ensures
        r == be32(packet@, 12),
{
    u32::from(Ipv4Packet::new(packet).unwrap().get_source())
}

/// Calls `Ipv4Packet::get_destination`, which reads bytes 16 to 19 as an
/// address, first octet first; the result is converted to its 32-bit value.
#[verifier::external_body]
fn ipv4_destination(packet: &[u8]) -> (r: u32)
    requires
        packet@.len() >= IPV4_HEADER_LEN,
    ensures
        r == be32(packet@, 16),
{
    u32::from(Ipv4Packet::new(packet).unwrap().get_destination())
}

/// Calls `Packet::payload` on an `Ipv4Packet`. The macro-generated method
/// starts at 20 plus the options length (`header_length * 4` less 20, or 0),
/// ends at that start plus `total_length - header_length * 4` (or 0) but not
/// past the bytes, and is empty where the start is not before the end of
/// the bytes; the bytes are copied out.
#[verifier::external_body]
fn ipv4_payload_bytes(packet: &[u8]) -> (r: Vec<u8>)
    requires
        packet@.len() >= IPV4_HEADER_LEN,
    ensures
        r@ == ipv4_payload(packet@),
{
    Ipv4Packet::new(packet).unwrap().payload().to_vec()
}

// ---------------------------------------------------------------------------
// UDP

/// Calls `UdpPacket::new`, which gives a view of the bytes exactly when they
/// are at least as long as a UDP header (8 bytes).
#[verifier::external_body]
fn udp_fits(datagram: &[u8]) -> (r: bool)
    ensures
        r == (datagram@.len() >= UDP_HDR_LEN),
{
    UdpPacket::new(datagram).is_some()
}

/// Calls `UdpPacket::get_source`, which reads bytes 0 and 1 big-endian.
#[verifier::external_body]
fn udp_source(datagram: &[u8]) -> (r: u16)
    requires
        datagram@.len() >= UDP_HDR_LEN,
    ensures
        r == be16(datagram@, 0),
{
    UdpPacket::new(datagram).unwrap().get_source()
}

/// Calls `UdpPacket::get_destination`, which reads bytes 2 and 3 big-endian.
#[verifier::external_body]
fn udp_destination(datagram: &[u8]) -> (r: u16)
    requires
        datagram@.len() >= UDP_HDR_LEN,
    ensures
        r == be16(datagram@, 2),
{
    UdpPacket::new(datagram).unwrap().get_destination()
}

/// Calls `Packet::payload` on a `UdpPacket`, which is every byte after the
/// 8-byte header (the length field is not consulted); the bytes are copied
/// out.
#[verifier::external_body]
fn udp_payload(datagram: &[u8]) -> (r: Vec<u8>)
    requires
        datagram@.len() >= UDP_HDR_LEN,
    ensures
        r@ == datagram@.subrange(UDP_HDR_LEN as int, datagram@.len() as int),
{
    UdpPacket::new(datagram).unwrap().payload().to_vec()
}

/// Calls `MutableUdpPacket::set_source`, which writes `v` big-endian into
/// bytes 0 and 1.
#[verifier::external_body]
fn udp_set_source(buf: &mut Vec<u8>, v: u16)
    requires
        old(buf)@.len() >= UDP_HDR_LEN,
    ensures
        final(buf)@ == old(buf)@.update(0, (v / 0x100) as u8).update(1, (v % 0x100) as u8),
{
    MutableUdpPacket::new(buf.as_mut_slice()).unwrap().set_source(v)
}

/// Calls `MutableUdpPacket::set_destination`, which writes `v` big-endian
/// into bytes 2 and 3.
#[verifier::external_body]
fn udp_set_destination(buf: &mut Vec<u8>, v: u16)
    requires
        old(buf)@.len() >= UDP_HDR_LEN,
    ensures
        final(buf)@ == old(buf)@.update(2, (v / 0x100) as u8).update(3, (v % 0x100) as u8),
{
    MutableUdpPacket::new(buf.as_mut_slice()).unwrap().set_destination(v)
}

/// Calls `MutableUdpPacket::set_length`, which writes `v` big-endian into
/// bytes 4 and 5.
#[verifier::external_body]
fn udp_set_length(buf: &mut Vec<u8>, v: u16)
    requires
        old(buf)@.len() >= UDP_HDR_LEN,
    ensures
        final(buf)@ == old(buf)@.update(4, (v / 0x100) as u8).update(5, (v % 0x100) as u8),
{
    MutableUdpPacket::new(buf.as_mut_slice()).unwrap().set_length(v)
}

/// Calls `MutableUdpPacket::set_checksum`, which writes `v` big-endian into
/// bytes 6 and 7.
#[verifier::external_body]
fn udp_set_checksum(buf: &mut Vec<u8>, v: u16)
    requires
        old(buf)@.len() >= UDP_HDR_LEN,
    ensures
        final(buf)@ == old(buf)@.update(6, (v / 0x100) as u8).update(7, (v % 0x100) as u8),
{
    MutableUdpPacket::new(buf.as_mut_slice()).unwrap().set_checksum(v)
}

/// Calls `MutableUdpPacket::set_payload`, which copies `payload` over the
/// bytes that follow the 8-byte header; it panics where the payload does not
/// fit, which `requires` rules out.
#[verifier::external_body]
fn udp_set_payload(buf: &mut Vec<u8>, payload: &[u8])
    requires
        old(buf)@.len() >= UDP_HDR_LEN + payload@.len(),
    ensures
        final(buf)@ == old(buf)@.subrange(0, UDP_HDR_LEN as int) + payload@ + old(buf)@.subrange(
            UDP_HDR_LEN + payload@.len(),
            old(buf)@.len() as int,
        ),
{
    MutableUdpPacket::new(buf.as_mut_slice()).unwrap().set_payload(payload)
}

/// The UDP checksum (over the IPv4 pseudo-header) that
/// `pnet::packet::udp::ipv4_checksum` computes for `datagram` sent from
/// `source` to `destination`.
pub uninterp spec fn udp_ipv4_checksum(datagram: Seq<u8>, source: u32, destination: u32) -> u16;

/// Calls `pnet::packet::udp::ipv4_checksum` on a `UdpPacket` view of
/// `datagram`. The result is a function of the bytes and the two addresses
/// alone; the algorithm (one's-complement sum of the pseudo-header and the
/// datagram, skipping the checksum field) is not restated. The datagram is
/// at most 65535 bytes, as a UDP length field allows, which keeps the
/// crate's 32-bit running sum from overflowing.
#[verifier::external_body]
fn pnet_udp_checksum(datagram: &[u8], source: u32, destination: u32) -> (r: u16)
    requires
        UDP_HDR_LEN <= datagram@.len() <= 0xffff,
    ensures
        r == udp_ipv4_checksum(datagram@, source, destination),
{
    pnet::packet::udp::ipv4_checksum(
        &UdpPacket::new(datagram).unwrap(),
        &source.into(),
        &destination.into(),
    )
}

/// A UDP datagram captured inside an IPv4 packet inside an Ethernet frame.
#[derive(Debug)]
pub struct Capture {
    /// The IPv4 source address.
    pub src: Ipv4Addr,
    /// The IPv4 destination address.
    pub dst: Ipv4Addr,
    /// The UDP source port.
    pub src_port: u16,
    /// The UDP destination port.
    pub dst_port: u16,
    /// The UDP payload.
    pub payload: Vec<u8>,
}

/// The IPv4 packet that the Ethernet frame `frame` carries.
pub open spec fn frame_ipv4(frame: Seq<u8>) -> Seq<u8> {
    frame.subrange(ETHERNET_HEADER_LEN as int, frame.len() as int)
}

/// The UDP datagram that the Ethernet frame `frame` carries.
pub open spec fn frame_udp(frame: Seq<u8>) -> Seq<u8> {
    ipv4_payload(frame_ipv4(frame))
}

/// Whether `frame` is an Ethernet frame that carries IPv4 and, in it, at
/// least a UDP header.
pub open spec fn carries_udp(frame: Seq<u8>) -> bool {
    &&& frame.len() >= ETHERNET_HEADER_LEN
    &&& be16(frame, 12) == ETHERTYPE_IPV4
    &&& frame_ipv4(frame).len() >= IPV4_HEADER_LEN
    &&& frame_ipv4(frame)[9] == IP_PROTOCOL_UDP
    &&& frame_udp(frame).len() >= UDP_HDR_LEN
}

/// Whether `c` holds the addresses, ports and payload of the UDP datagram
/// that `frame` carries.
pub open spec fn captures(c: Capture, frame: Seq<u8>) -> bool {
    let ip = frame_ipv4(frame);
    let udp = frame_udp(frame);
    &&& c.src@ == be32(ip, 12)
    &&& c.dst@ == be32(ip, 16)
    &&& c.src_port == be16(udp, 0)
    &&& c.dst_port == be16(udp, 2)
    &&& c.payload@ == udp.subrange(UDP_HDR_LEN as int, udp.len() as int)
}

/// What a frame that is read as UDP looks like on the wire: at least an
/// Ethernet header, a 20-byte IPv4 header and a UDP header (42 bytes);
/// EtherType 0x0800 in bytes 12 and 13; the IPv4 protocol byte (byte 23 of
/// the frame) is 17, UDP. Any other protocol, ICMP and TCP included, is not
/// read as UDP. The IPv4 source and destination are bytes 26 to 29 and 30 to
/// 33 of the frame.
pub proof fn lemma_carries_udp_meaning(frame: Seq<u8>)
    ensures
        carries_udp(frame) ==> frame.len() >= 42 && frame[12] == 0x08 && frame[13] == 0x00
            && frame[23] == 17,
        frame.len() >= 34 && frame[23] != 17 ==> !carries_udp(frame),
        frame.len() >= 14 && (frame[12] != 0x08 || frame[13] != 0x00) ==> !carries_udp(frame),
        frame.len() >= 34 ==> be32(frame_ipv4(frame), 12) == be32(frame, 26) && be32(
            frame_ipv4(frame),
            16,
        ) == be32(frame, 30),
{
    if frame.len() >= 14 {
        let ip = frame_ipv4(frame);
        assert(ip.len() == frame.len() - 14);
        if ip.len() >= 10 {
            assert(ip[9] == frame[23]);
        }
        if ip.len() >= 20 {
            assert(ip[12] == frame[26] && ip[13] == frame[27] && ip[14] == frame[28] && ip[15]
                == frame[29]);
            assert(ip[16] == frame[30] && ip[17] == frame[31] && ip[18] == frame[32] && ip[19]
                == frame[33]);
            let udp = frame_udp(frame);
            if udp.len() >= 8 {
                assert(ip.len() > ipv4_payload_start(ip));
                assert(udp.len() == ipv4_payload_end(ip) - ipv4_payload_start(ip));
            }
        }
    }
}

/// Reads a captured Ethernet frame: the UDP datagram inside its IPv4
/// packet, or `None` where the frame is too short, does not carry IPv4, or
/// the IPv4 packet does not carry UDP.
pub fn parse_frame(frame: &[u8]) -> (r: Option<Capture>)
    ensures
        r is Some <==> carries_udp(frame@),
        r matches Some(c) ==> captures(c, frame@),
        r is Some ==> frame@.len() >= 42 && frame@[12] == 0x08 && frame@[13] == 0x00 && frame@[23]
            == 17,
        frame@.len() >= 34 && frame@[23] != 17 ==> r is None,
        frame@.len() >= 14 && (frame@[12] != 0x08 || frame@[13] != 0x00) ==> r is None,
        r matches Some(c) ==> c.src@ == be32(frame@, 26) && c.dst@ == be32(frame@, 30),
{
    proof {
        lemma_carries_udp_meaning(frame@);
    }
    if !ethernet_fits(frame) {
        return None;
    }
    if ethernet_ethertype(frame) != ETHERTYPE_IPV4 {
        return None;
    }
    let ip = ethernet_payload(frame);
    if !ipv4_fits(ip.as_slice()) {
        return None;
    }
    if ipv4_protocol(ip.as_slice()) != IP_PROTOCOL_UDP {
        return None;
    }
    let udp = ipv4_payload_bytes(ip.as_slice());
    if !udp_fits(udp.as_slice()) {
        return None;
    }
    let src = Ipv4Addr::from_bits(ipv4_source(ip.as_slice()));
    let dst = Ipv4Addr::from_bits(ipv4_destination(ip.as_slice()));
    let src_port = udp_source(udp.as_slice());
    let dst_port = udp_destination(udp.as_slice());
    let payload = udp_payload(udp.as_slice());
    Some(Capture { src, dst, src_port, dst_port, payload })
}

/// The datagram of `payload` from `src_port` to `dst_port` with a length
/// field of 8 plus the payload's length and a zero checksum field.
pub open spec fn datagram_unchecked(payload: Seq<u8>, src_port: u16, dst_port: u16) -> Seq<u8> {
    be16_bytes(src_port) + be16_bytes(dst_port) + be16_bytes(
        (UDP_HDR_LEN + payload.len()) as u16,
    ) + seq![0u8, 0u8] + payload
}

/// The UDP datagram that carries `payload` from `src_ip:src_port` to
/// `peer:dst_port`: its header holds the two ports, the length of the
/// datagram and the checksum over the datagram with a zero checksum field.
pub open spec fn unicast_datagram(
    payload: Seq<u8>,
    src_ip: u32,
    src_port: u16,
    peer: u32,
    dst_port: u16,
) -> Seq<u8> {
    let unchecked = datagram_unchecked(payload, src_port, dst_port);
    let sum = udp_ipv4_checksum(unchecked, src_ip, peer);
    unchecked.update(6, (sum / 0x100) as u8).update(7, (sum % 0x100) as u8)
}

/// The UDP datagram that re-emits `payload` from `src_ip:src_port` to
/// `peer:dst_port`. The payload must fit the 16-bit length field together
/// with the 8-byte header.
pub fn build_unicast(
    payload: &[u8],
    src_ip: Ipv4Addr,
    src_port: u16,
    peer: Ipv4Addr,
    dst_port: u16,
) -> (r: Vec<u8>)
    requires
        UDP_HDR_LEN + payload@.len() <= 0xffff,
    ensures
        r@ == unicast_datagram(payload@, src_ip@, src_port, peer@, dst_port),
        r@.len() == UDP_HDR_LEN + payload@.len(),
        r@[0] == src_port / 0x100 && r@[1] == src_port % 0x100,
        r@[2] == dst_port / 0x100 && r@[3] == dst_port % 0x100,
        r@[4] == (UDP_HDR_LEN + payload@.len()) / 0x100 && r@[5] == (UDP_HDR_LEN + payload@.len())
            % 0x100,
        r@.subrange(UDP_HDR_LEN as int, r@.len() as int) == payload@,
{
    let total = UDP_HDR_LEN + payload.len();
    let mut buf: Vec<u8> = vec![0u8; total];
    udp_set_source(&mut buf, src_port);
    udp_set_destination(&mut buf, dst_port);
    udp_set_length(&mut buf, total as u16);
    udp_set_payload(&mut buf, payload);
    assert(buf@ =~= datagram_unchecked(payload@, src_port, dst_port));
    // The checksum covers the pseudo-header of the addresses that the
    // datagram travels between: this host's address on the interface and
    // the peer.
    let sum = pnet_udp_checksum(buf.as_slice(), src_ip.to_bits(), peer.to_bits());
    udp_set_checksum(&mut buf, sum);
    assert(buf@.subrange(UDP_HDR_LEN as int, buf@.len() as int) =~= payload@);
    buf
}

/// Reading a built datagram back gives what was put in it: the source and
/// destination ports, the length of the datagram, the checksum computed over
/// the datagram before the checksum was written, and the payload unchanged.
pub proof fn lemma_unicast_reads_back(
    payload: Seq<u8>,
    src_ip: u32,
    src_port: u16,
    peer: u32,
    dst_port: u16,
)
    requires
        UDP_HDR_LEN + payload.len() <= 0xffff,
    ensures
        ({
            let d = unicast_datagram(payload, src_ip, src_port, peer, dst_port);
            &&& d.len() == UDP_HDR_LEN + payload.len()
            &&& be16(d, 0) == src_port
            &&& be16(d, 2) == dst_port
            &&& be16(d, 4) == UDP_HDR_LEN + payload.len()
            &&& be16(d, 6) == udp_ipv4_checksum(
                datagram_unchecked(payload, src_port, dst_port),
                src_ip,
                peer,
            )
            &&& d.subrange(UDP_HDR_LEN as int, d.len() as int) == payload
        }),
{
    let d = unicast_datagram(payload, src_ip, src_port, peer, dst_port);
    let len = (UDP_HDR_LEN + payload.len()) as u16;
    let sum = udp_ipv4_checksum(datagram_unchecked(payload, src_port, dst_port), src_ip, peer);
    assert(d.subrange(UDP_HDR_LEN as int, d.len() as int) =~= payload);
    assert(be16(d, 0) == src_port);
    assert(be16(d, 2) == dst_port);
    assert(be16(d, 4) == len);
    assert(be16(d, 6) == sum);
}

} // verus!
