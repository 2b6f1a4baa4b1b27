use w3_portal::addr::{Ipv4Addr, Ipv4Network};
use w3_portal::interface::{
    get_ifaces, is_interface_valid, InterfaceError, InterfaceInfo, IpNetwork, NetworkInterface,
};

// The interface flag bits of Linux's libc, which `pnet` reads.
const IFF_UP: u32 = 0x1;
const IFF_LOOPBACK: u32 = 0x8;
const IFF_POINTOPOINT: u32 = 0x10;

fn v4(a: u8, b: u8, c: u8, d: u8, prefix: u8) -> IpNetwork {
    IpNetwork::V4(Ipv4Network::new(Ipv4Addr::new(a, b, c, d), prefix).unwrap())
}

fn iface(name: &str, flags: u32, ips: Vec<IpNetwork>, is_bridge: bool) -> NetworkInterface {
    NetworkInterface { name: name.to_string(), ips, flags, is_bridge }
}

fn ethernet(name: &str, last: u8) -> NetworkInterface {
    iface(name, IFF_UP, vec![v4(192, 168, 100, last, 24)], false)
}

fn names(v: &[NetworkInterface]) -> Vec<String> {
    v.iter().map(|i| i.name.clone()).collect()
}

#[test]
fn flag_bits_match_pnet() {
    let probe = |flags: u32| pnet::datalink::NetworkInterface {
        name: String::new(),
        description: String::new(),
        index: 0,
        mac: None,
        ips: Vec::new(),
        flags,
    };
    assert!(probe(IFF_UP).is_up());
    assert!(probe(IFF_LOOPBACK).is_loopback());
    assert!(probe(IFF_POINTOPOINT).is_point_to_point());
    assert!(!probe(0).is_up());
}

#[test]
fn up_ethernet_with_ipv4_is_valid() {
    assert!(is_interface_valid(&ethernet("eth0", 1)));
}

#[test]
fn down_loopback_point_to_point_bridge_or_ipv6_only_are_invalid() {
    assert!(!is_interface_valid(&iface("eth0", 0, vec![v4(10, 0, 0, 1, 8)], false)));
    assert!(!is_interface_valid(&iface("lo", IFF_UP | IFF_LOOPBACK, vec![v4(127, 0, 0, 1, 8)], false)));
    assert!(!is_interface_valid(&iface("tun0", IFF_UP | IFF_POINTOPOINT, vec![v4(10, 8, 0, 1, 24)], false)));
    assert!(!is_interface_valid(&iface("br0", IFF_UP, vec![v4(10, 0, 0, 1, 8)], true)));
    assert!(!is_interface_valid(&iface("eth1", IFF_UP, vec![IpNetwork::V6], false)));
    assert!(!is_interface_valid(&iface("eth2", IFF_UP, vec![], false)));
}

#[test]
fn interface_info_takes_first_ipv4() {
    let i = iface(
        "wlan0",
        IFF_UP,
        vec![IpNetwork::V6, v4(10, 1, 9, 32, 20), v4(192, 168, 1, 5, 24)],
        false,
    );
    let info = InterfaceInfo::new(i).unwrap();
    assert_eq!(info.src_ip, Ipv4Addr::new(10, 1, 9, 32));
    assert_eq!(info.bcast_ip, Ipv4Addr::new(10, 1, 15, 255));
    assert_eq!(info.name(), "wlan0");
}

#[test]
fn interface_info_without_ipv4_is_refused() {
    let i = iface("eth9", IFF_UP, vec![IpNetwork::V6], false);
    match InterfaceInfo::new(i) {
        Err(InterfaceError::NoIpv4Address(name)) => assert_eq!(name, "eth9"),
        other => panic!("unexpected {:?}", other),
    }
}

fn host() -> Vec<NetworkInterface> {
    vec![
        iface("lo", IFF_UP | IFF_LOOPBACK, vec![v4(127, 0, 0, 1, 8)], false),
        ethernet("enp42s0", 1),
        iface("docker0", IFF_UP, vec![v4(172, 17, 0, 1, 16)], true),
        ethernet("wlan0", 2),
        iface("eth1", 0, vec![v4(10, 0, 0, 1, 8)], false),
    ]
}

#[test]
fn no_filter_takes_every_valid_interface() {
    let got = get_ifaces(host(), &Vec::new()).unwrap();
    assert_eq!(names(&got), vec!["enp42s0".to_string(), "wlan0".to_string()]);
}

#[test]
fn filter_takes_the_requested_valid_interfaces_in_host_order() {
    let filter = vec!["wlan0".to_string(), "enp42s0".to_string()];
    let got = get_ifaces(host(), &filter).unwrap();
    assert_eq!(names(&got), vec!["enp42s0".to_string(), "wlan0".to_string()]);
}

#[test]
fn filter_with_an_invalid_interface_fails_with_its_name() {
    let filter = vec!["enp42s0".to_string(), "docker0".to_string(), "lo".to_string()];
    match get_ifaces(host(), &filter) {
        Err(InterfaceError::InvalidInterfaces(mut missing)) => {
            missing.sort();
            assert_eq!(missing, vec!["docker0".to_string(), "lo".to_string()]);
        }
        other => panic!("unexpected {:?}", other),
    }
}

#[test]
fn filter_with_an_unknown_name_fails() {
    let filter = vec!["eth7".to_string(), "eth7".to_string()];
    match get_ifaces(host(), &filter) {
        Err(InterfaceError::InvalidInterfaces(missing)) => {
            assert_eq!(missing, vec!["eth7".to_string()]);
        }
        other => panic!("unexpected {:?}", other),
    }
}

#[test]
fn repeated_name_is_taken_once_and_invalid_twin_is_skipped() {
    let ifaces = vec![
        iface("eth0", 0, vec![v4(10, 0, 0, 1, 8)], false),
        ethernet("eth0", 7),
        ethernet("eth0", 8),
    ];
    let filter = vec!["eth0".to_string()];
    let got = get_ifaces(ifaces, &filter).unwrap();
    assert_eq!(got.len(), 1);
    let info = InterfaceInfo::new(got.into_iter().next().unwrap()).unwrap();
    assert_eq!(info.src_ip, Ipv4Addr::new(192, 168, 100, 7));
}

#[test]
fn no_valid_interface_and_no_filter_gives_empty() {
    let ifaces = vec![iface("lo", IFF_UP | IFF_LOOPBACK, vec![v4(127, 0, 0, 1, 8)], false)];
    let got = get_ifaces(ifaces, &Vec::new()).unwrap();
    assert!(got.is_empty());
}

#[test]
fn filter_succeeds_exactly_when_each_name_has_a_valid_interface() {
    for (filter, ok) in [
        (vec!["enp42s0"], true),
        (vec!["wlan0", "enp42s0", "wlan0"], true),
        (vec!["eth1"], false),
        (vec!["wlan0", "nope"], false),
    ] {
        let filter: Vec<String> = filter.into_iter().map(|s| s.to_string()).collect();
        assert_eq!(get_ifaces(host(), &filter).is_ok(), ok);
    }
}
