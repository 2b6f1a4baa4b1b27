use pnet::packet::udp::{ipv4_checksum, MutableUdpPacket, UdpPacket};
use pnet::packet::Packet;
use w3_portal::addr::Ipv4Addr;
use w3_portal::packet::{build_unicast, parse_frame};

/// An Ethernet frame carrying an IPv4 packet (no options) carrying a UDP
/// datagram; `extra` bytes of padding follow the IPv4 packet.
fn frame(
    ethertype: u16,
    protocol: u8,
    src: [u8; 4],
    dst: [u8; 4],
    sport: u16,
    dport: u16,
    payload: &[u8],
    extra: usize,
) -> Vec<u8> {
    let mut f = vec![0xffu8; 6];
    f.extend_from_slice(&[0x12, 0x34, 0x56, 0x78, 0x9a, 0xbc]);
    f.extend_from_slice(&ethertype.to_be_bytes());
    let total = (20 + 8 + payload.len()) as u16;
    f.extend_from_slice(&[0x45, 0, (total >> 8) as u8, total as u8, 0, 0, 0, 0, 64, protocol, 0, 0]);
    f.extend_from_slice(&src);
    f.extend_from_slice(&dst);
    f.extend_from_slice(&sport.to_be_bytes());
    f.extend_from_slice(&dport.to_be_bytes());
    f.extend_from_slice(&((8 + payload.len()) as u16).to_be_bytes());
    f.extend_from_slice(&[0, 0]);
    f.extend_from_slice(payload);
    f.extend(std::iter::repeat(0u8).take(extra));
    f
}

#[test]
fn parses_a_udp_broadcast() {
    let f = frame(0x0800, 17, [192, 168, 100, 1], [255, 255, 255, 255], 6112, 6112, b"game", 0);
    let c = parse_frame(&f).unwrap();
    assert_eq!(c.src, Ipv4Addr::new(192, 168, 100, 1));
    assert_eq!(c.dst, Ipv4Addr::new(255, 255, 255, 255));
    assert_eq!(c.src_port, 6112);
    assert_eq!(c.dst_port, 6112);
    assert_eq!(c.payload, b"game".to_vec());
}

#[test]
fn ethernet_padding_is_cut_by_ipv4_total_length() {
    let f = frame(0x0800, 17, [10, 0, 0, 1], [10, 0, 0, 255], 1, 2, b"ab", 16);
    let c = parse_frame(&f).unwrap();
    assert_eq!(c.payload, b"ab".to_vec());
}

#[test]
fn non_ipv4_frame_is_not_read() {
    let f = frame(0x86dd, 17, [10, 0, 0, 1], [10, 0, 0, 255], 1, 2, b"ab", 0);
    assert!(parse_frame(&f).is_none());
}

#[test]
fn tcp_packet_is_not_read() {
    let f = frame(0x0800, 6, [10, 0, 0, 1], [10, 0, 0, 255], 1, 2, b"ab", 0);
    assert!(parse_frame(&f).is_none());
}

#[test]
fn short_frames_are_not_read() {
    let f = frame(0x0800, 17, [10, 0, 0, 1], [10, 0, 0, 255], 1, 2, b"", 0);
    assert!(parse_frame(&f[..13]).is_none());
    assert!(parse_frame(&f[..14 + 19]).is_none());
    assert!(parse_frame(&f[..14 + 20 + 7]).is_none());
    assert!(parse_frame(&f).is_some());
}

#[test]
fn ipv4_options_are_skipped() {
    let mut f = frame(0x0800, 17, [10, 0, 0, 1], [10, 0, 0, 255], 7, 9, b"xyz", 0);
    // Header length of 6 words: insert 4 option bytes after the fixed header.
    f[14] = 0x46;
    let total = u16::from_be_bytes([f[16], f[17]]) + 4;
    f[16..18].copy_from_slice(&total.to_be_bytes());
    for _ in 0..4 {
        f.insert(14 + 20, 1);
    }
    let c = parse_frame(&f).unwrap();
    assert_eq!((c.src_port, c.dst_port), (7, 9));
    assert_eq!(c.payload, b"xyz".to_vec());
}

#[test]
fn unicast_matches_pnet_reference_checksum() {
    // The datagram of pnet's own UDP test: 192.168.0.1:12345 -> 192.168.0.199:54321, "test".
    let d = build_unicast(
        b"test",
        Ipv4Addr::new(192, 168, 0, 1),
        12345,
        Ipv4Addr::new(192, 168, 0, 199),
        54321,
    );
    assert_eq!(d, vec![0x30, 0x39, 0xd4, 0x31, 0x00, 0x0c, 0x91, 0x78, b't', b'e', b's', b't']);
}

#[test]
fn unicast_is_what_pnet_builds() {
    let payload = b"warcraft lan announcement".to_vec();
    let src = Ipv4Addr::new(192, 168, 100, 1).to_bits();
    let peer = Ipv4Addr::new(192, 168, 100, 102).to_bits();
    let mut expected = vec![0u8; 8 + payload.len()];
    {
        let mut udp = MutableUdpPacket::new(&mut expected).unwrap();
        udp.set_source(6112);
        udp.set_destination(6112);
        udp.set_length((8 + payload.len()) as u16);
        udp.set_payload(&payload);
        let sum = ipv4_checksum(&udp.to_immutable(), &src.into(), &peer.into());
        udp.set_checksum(sum);
    }
    let got = build_unicast(
        &payload,
        Ipv4Addr::from_bits(src),
        6112,
        Ipv4Addr::from_bits(peer),
        6112,
    );
    assert_eq!(got, expected);
}

#[test]
fn unicast_reads_back() {
    let got = build_unicast(b"hello", Ipv4Addr::new(10, 0, 0, 1), 4000, Ipv4Addr::new(10, 0, 0, 2), 6112);
    let udp = UdpPacket::new(&got).unwrap();
    assert_eq!(udp.get_source(), 4000);
    assert_eq!(udp.get_destination(), 6112);
    assert_eq!(udp.get_length(), 13);
    assert_eq!(udp.payload(), b"hello");
    let sum = ipv4_checksum(
        &udp,
        &Ipv4Addr::new(10, 0, 0, 1).to_bits().into(),
        &Ipv4Addr::new(10, 0, 0, 2).to_bits().into(),
    );
    assert_eq!(udp.get_checksum(), sum);
}

#[test]
fn empty_payload_unicast_is_a_bare_header() {
    let got = build_unicast(b"", Ipv4Addr::new(10, 0, 0, 1), 1, Ipv4Addr::new(10, 0, 0, 2), 2);
    assert_eq!(got.len(), 8);
    assert_eq!(&got[..6], &[0, 1, 0, 2, 0, 8]);
}
