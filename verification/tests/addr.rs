use w3_portal::addr::{Ipv4Addr, Ipv4Network};

#[test]
fn address_bits_put_first_octet_first() {
    let a = Ipv4Addr::new(192, 168, 100, 1);
    assert_eq!(a.to_bits(), 0xc0a8_6401);
    assert_eq!(a.octets(), [192, 168, 100, 1]);
    assert_eq!(Ipv4Addr::from_bits(0x0a00_0002), Ipv4Addr::new(10, 0, 0, 2));
}

#[test]
fn only_all_ones_is_limited_broadcast() {
    assert!(Ipv4Addr::new(255, 255, 255, 255).is_broadcast());
    assert!(!Ipv4Addr::new(192, 168, 100, 255).is_broadcast());
    assert!(!Ipv4Addr::new(255, 255, 255, 254).is_broadcast());
}

#[test]
fn network_prefix_over_32_is_refused() {
    assert!(Ipv4Network::new(Ipv4Addr::new(10, 0, 0, 1), 33).is_none());
    let n = Ipv4Network::new(Ipv4Addr::new(10, 0, 0, 1), 32).unwrap();
    assert_eq!(n.prefix(), 32);
    assert_eq!(n.ip(), Ipv4Addr::new(10, 0, 0, 1));
}

#[test]
fn broadcast_sets_the_host_bits() {
    let n24 = Ipv4Network::new(Ipv4Addr::new(192, 168, 100, 1), 24).unwrap();
    assert_eq!(n24.broadcast(), Ipv4Addr::new(192, 168, 100, 255));
    let n20 = Ipv4Network::new(Ipv4Addr::new(10, 1, 9, 32), 20).unwrap();
    assert_eq!(n20.broadcast(), Ipv4Addr::new(10, 1, 15, 255));
    let n32 = Ipv4Network::new(Ipv4Addr::new(10, 1, 9, 32), 32).unwrap();
    assert_eq!(n32.broadcast(), Ipv4Addr::new(10, 1, 9, 32));
    let n0 = Ipv4Network::new(Ipv4Addr::new(10, 1, 9, 32), 0).unwrap();
    assert_eq!(n0.broadcast(), Ipv4Addr::new(255, 255, 255, 255));
}
