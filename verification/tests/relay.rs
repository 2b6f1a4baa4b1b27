use std::collections::HashSet;
use w3_portal::addr::Ipv4Addr;
use w3_portal::filter::Decision;
use w3_portal::packet::build_unicast;
use w3_portal::relay::{relay_frame, FrameAction};
use w3_portal::{ForwarderConfig, WC3_PORT};

fn udp_frame(src: [u8; 4], dst: [u8; 4], sport: u16, dport: u16, payload: &[u8]) -> Vec<u8> {
    let mut f = vec![0xffu8; 6];
    f.extend_from_slice(&[0x12, 0x34, 0x56, 0x78, 0x9a, 0xbc, 0x08, 0x00]);
    let total = (20 + 8 + payload.len()) as u16;
    f.extend_from_slice(&[0x45, 0, (total >> 8) as u8, total as u8, 0, 0, 0, 0, 64, 17, 0, 0]);
    f.extend_from_slice(&src);
    f.extend_from_slice(&dst);
    f.extend_from_slice(&sport.to_be_bytes());
    f.extend_from_slice(&dport.to_be_bytes());
    f.extend_from_slice(&((8 + payload.len()) as u16).to_be_bytes());
    f.extend_from_slice(&[0, 0]);
    f.extend_from_slice(payload);
    f
}

fn cfg() -> ForwarderConfig {
    let mut c = ForwarderConfig::new(WC3_PORT, vec!["eth0".to_string()]);
    c.peers = vec![Ipv4Addr::new(192, 168, 100, 102), Ipv4Addr::new(10, 8, 0, 5)];
    c
}

fn locals() -> HashSet<u32> {
    [Ipv4Addr::new(192, 168, 100, 1), Ipv4Addr::new(127, 0, 0, 1)]
        .into_iter()
        .map(|a| a.to_bits())
        .collect()
}

#[test]
fn local_broadcast_goes_to_every_peer_in_order() {
    let f = udp_frame([192, 168, 100, 1], [192, 168, 100, 255], 6112, 6112, b"announce");
    let src_ip = Ipv4Addr::new(192, 168, 100, 1);
    match relay_frame(&f, &cfg(), src_ip, Ipv4Addr::new(192, 168, 100, 255), &locals()) {
        FrameAction::Forward(c, ds) => {
            assert_eq!(c.payload, b"announce".to_vec());
            assert_eq!(ds.len(), 2);
            for (d, peer) in ds.iter().zip(cfg().peers.iter()) {
                assert_eq!(d.peer, *peer);
                assert_eq!(d.bytes, build_unicast(b"announce", src_ip, 6112, *peer, 6112));
            }
        }
        other => panic!("unexpected {:?}", other),
    }
}

#[test]
fn relayed_datagram_keeps_the_source_port() {
    let f = udp_frame([192, 168, 100, 1], [255, 255, 255, 255], 50123, 6112, b"x");
    let src_ip = Ipv4Addr::new(192, 168, 100, 1);
    match relay_frame(&f, &cfg(), src_ip, Ipv4Addr::new(192, 168, 100, 255), &locals()) {
        FrameAction::Forward(_, ds) => {
            assert_eq!(&ds[0].bytes[..4], &[0xc3, 0xcb, 0x17, 0xe0]);
            assert_eq!(&ds[0].bytes[8..], b"x");
        }
        other => panic!("unexpected {:?}", other),
    }
}

#[test]
fn remote_broadcast_is_skipped() {
    let f = udp_frame([192, 168, 100, 100], [192, 168, 100, 255], 6112, 6112, b"announce");
    let action = relay_frame(
        &f,
        &cfg(),
        Ipv4Addr::new(192, 168, 100, 1),
        Ipv4Addr::new(192, 168, 100, 255),
        &locals(),
    );
    assert!(matches!(action, FrameAction::Skip(Decision::SkipRemoteOrigin)));
}

#[test]
fn other_port_is_skipped() {
    let f = udp_frame([192, 168, 100, 1], [192, 168, 100, 255], 6112, 53, b"q");
    let action = relay_frame(
        &f,
        &cfg(),
        Ipv4Addr::new(192, 168, 100, 1),
        Ipv4Addr::new(192, 168, 100, 255),
        &locals(),
    );
    assert!(matches!(action, FrameAction::Skip(Decision::SkipWrongPort)));
}

#[test]
fn unicast_is_skipped() {
    let f = udp_frame([192, 168, 100, 1], [192, 168, 100, 102], 6112, 6112, b"q");
    let action = relay_frame(
        &f,
        &cfg(),
        Ipv4Addr::new(192, 168, 100, 1),
        Ipv4Addr::new(192, 168, 100, 255),
        &locals(),
    );
    assert!(matches!(action, FrameAction::Skip(Decision::SkipNotBroadcast)));
}

#[test]
fn non_udp_frame_is_ignored() {
    let mut f = udp_frame([192, 168, 100, 1], [192, 168, 100, 255], 6112, 6112, b"q");
    f[14 + 9] = 6;
    let action = relay_frame(
        &f,
        &cfg(),
        Ipv4Addr::new(192, 168, 100, 1),
        Ipv4Addr::new(192, 168, 100, 255),
        &locals(),
    );
    assert!(matches!(action, FrameAction::Ignore));
    assert!(matches!(
        relay_frame(&[0u8; 10], &cfg(), Ipv4Addr::new(1, 2, 3, 4), Ipv4Addr::new(1, 2, 3, 255), &locals()),
        FrameAction::Ignore
    ));
}

#[test]
fn no_peers_forwards_nothing() {
    let mut c = cfg();
    c.peers.clear();
    let f = udp_frame([192, 168, 100, 1], [192, 168, 100, 255], 6112, 6112, b"announce");
    match relay_frame(&f, &c, Ipv4Addr::new(192, 168, 100, 1), Ipv4Addr::new(192, 168, 100, 255), &locals()) {
        FrameAction::Forward(_, ds) => assert!(ds.is_empty()),
        other => panic!("unexpected {:?}", other),
    }
}
