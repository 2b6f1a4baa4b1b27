//! Warcraft III LAN-discovery relay.
//!
//! Warcraft III announces LAN games with UDP broadcasts on port 6112, and
//! under Wine those broadcasts never reach the game on the other host. The
//! relay captures each broadcast that this host sends on the wire and
//! re-emits it as a UDP unicast (same payload, same ports) to every
//! configured peer.
//!
//! This crate holds the decisions of the relay: which frames are relayed,
//! which interfaces are sniffed, and the bytes of every datagram that is
//! sent. Capturing frames and sending datagrams is left to the caller.
pub mod addr;
pub mod config;
pub mod filter;
pub mod interface;
pub mod packet;
pub mod relay;

pub use config::ForwarderConfig;

use crate::interface::{
    chosen_ifaces, describes, get_ifaces, interface_valid, lemma_chosen_ifaces_valid, lists_missing, name_texts,
    requested_found, lemma_chosen_ifaces_complete, lemma_requested_found_iff, InterfaceError, InterfaceInfo, IpNetwork, NetworkInterface,
};
use std::collections::HashSet;
use vstd::prelude::*;

verus! {

/// The UDP port that Warcraft III uses for LAN games.
pub const WC3_PORT: u16 = 6112;

broadcast use vstd::std_specs::hash::group_hash_axioms;

/// Why the relay cannot start.
#[derive(Debug)]
pub enum RunError {
    /// No peer is configured to forward to.
    NoPeers,
    /// An interface cannot be used.
    Interface(InterfaceError),
    /// No interface is left to sniff on.
    NoInterfaces,
}

/// What the relay needs once it starts: its configuration, the interfaces it
/// sniffs on, and the 32-bit values of every IPv4 address of the host.
#[derive(Debug)]
pub struct RunPlan {
    /// The configuration.
    pub cfg: ForwarderConfig,
    /// The interfaces to sniff on, one relay loop each.
    pub ifaces: Vec<InterfaceInfo>,
    /// The IPv4 addresses of every interface of the host, bridges and
    /// unused interfaces included.
    pub local_ips: HashSet<u32>,
}

/// Whether some interface in `ifaces` has the IPv4 address whose 32-bit
/// value is `x`.
pub open spec fn host_has_ipv4(ifaces: Seq<NetworkInterface>, x: u32) -> bool {
    exists|i: int, k: int|
        0 <= i < ifaces.len() && 0 <= k < ifaces[i].ips@.len() && (#[trigger] ifaces[i].ips@[k]) is V4
            && ifaces[i].ips@[k]->V4_0.spec_ip()@ == x
}

/// Every IPv4 address of every interface of the host counts as the host's,
/// whatever the interface's flags (loopback, point-to-point, down) and
/// whether it is a bridge; and nothing else does.
pub proof fn lemma_every_ipv4_is_local(ifaces: Seq<NetworkInterface>)
    ensures
        forall|i: int, k: int|
            0 <= i < ifaces.len() && 0 <= k < ifaces[i].ips@.len() && (#[trigger] ifaces[i].ips@[k]) is V4
                ==> host_has_ipv4(ifaces, ifaces[i].ips@[k]->V4_0.spec_ip()@),
        forall|x: u32|
            #[trigger] host_has_ipv4(ifaces, x) ==> exists|i: int, k: int|
                0 <= i < ifaces.len() && 0 <= k < ifaces[i].ips@.len() && (#[trigger] ifaces[i].ips@[k]) is V4
                    && ifaces[i].ips@[k]->V4_0.spec_ip()@ == x,
{
}

/// The 32-bit values of every IPv4 address of `ifaces`.
fn local_ipv4s(ifaces: &Vec<NetworkInterface>) -> (r: HashSet<u32>)
    ensures
        forall|x: u32| #[trigger] r@.contains(x) <==> host_has_ipv4(ifaces@, x),
        forall|i: int, k: int|
            0 <= i < ifaces@.len() && 0 <= k < ifaces@[i].ips@.len() && (#[trigger] ifaces@[i].ips@[k]) is V4
                ==> r@.contains(ifaces@[i].ips@[k]->V4_0.spec_ip()@),
{
    proof {
        lemma_every_ipv4_is_local(ifaces@);
    }
    let mut set: HashSet<u32> = HashSet::new();
    let n = ifaces.len();
    let mut i: usize = 0;
    while i < n
        invariant
            n == ifaces@.len(),
            i <= n,
            forall|x: u32|
                #[trigger] set@.contains(x) <==> host_has_ipv4(ifaces@.take(i as int), x),
        decreases n - i,
    {
        let ips = &ifaces[i].ips;
        let m = ips.len();
        let mut k: usize = 0;
        while k < m
            invariant
                n == ifaces@.len(),
                i < n,
                ips == ifaces@[i as int].ips,
                m == ips@.len(),
                k <= m,
                forall|x: u32|
                    #[trigger] set@.contains(x) <==> (host_has_ipv4(ifaces@.take(i as int), x) || exists|j: int|
                        0 <= j < k && (#[trigger] ips@[j]) is V4 && ips@[j]->V4_0.spec_ip()@ == x),
            decreases m - k,
        {
            if let IpNetwork::V4(net) = ips[k] {
                set.insert(net.ip().to_bits());
            }
            k += 1;
        }
        proof {
            let next = ifaces@.take(i + 1);
            assert forall|x: u32| #[trigger] set@.contains(x) <==> host_has_ipv4(next, x) by {
                if host_has_ipv4(next, x) {
                    let (a, b) = choose|a: int, b: int|
                        0 <= a < next.len() && 0 <= b < next[a].ips@.len() && (#[trigger] next[a].ips@[b]) is V4
                            && next[a].ips@[b]->V4_0.spec_ip()@ == x;
                    if a < i {
                        assert(ifaces@.take(i as int)[a] == next[a]);
                        assert(host_has_ipv4(ifaces@.take(i as int), x));
                    } else {
                        assert(ips@[b] == next[a].ips@[b]);
                    }
                }
                if host_has_ipv4(ifaces@.take(i as int), x) {
                    let (a, b) = choose|a: int, b: int|
                        0 <= a < ifaces@.take(i as int).len() && 0 <= b < ifaces@.take(i as int)[a].ips@.len()
                            && (#[trigger] ifaces@.take(i as int)[a].ips@[b]) is V4
                            && ifaces@.take(i as int)[a].ips@[b]->V4_0.spec_ip()@ == x;
                    assert(next[a] == ifaces@.take(i as int)[a]);
                    assert(next[a].ips@[b] is V4);
                }
                if exists|j: int| 0 <= j < m && (#[trigger] ips@[j]) is V4 && ips@[j]->V4_0.spec_ip()@ == x {
                    let j = choose|j: int| 0 <= j < m && (#[trigger] ips@[j]) is V4 && ips@[j]->V4_0.spec_ip()@ == x;
                    assert(next[i as int] == ifaces@[i as int]);
                    assert(next[i as int].ips@[j] is V4);
                }
            }
        }
        i += 1;
    }
    assert(ifaces@.take(n as int) =~= ifaces@);
    set
}

/// Whether `r` is what `run` gives for the configuration `cfg` and the
/// host's interfaces `ifaces`.
pub open spec fn run_result_ok(
    r: Result<RunPlan, RunError>,
    cfg: ForwarderConfig,
    ifaces: Seq<NetworkInterface>,
) -> bool {
    let chosen = chosen_ifaces(ifaces, cfg.ifaces@);
    if cfg.peers@.len() == 0 {
        r matches Err(RunError::NoPeers)
    } else if !requested_found(ifaces, cfg.ifaces@) {
        r matches Err(RunError::Interface(InterfaceError::InvalidInterfaces(m))) && lists_missing(
            name_texts(m@),
            name_texts(cfg.ifaces@),
            chosen,
        )
    } else if chosen.len() == 0 {
        r matches Err(RunError::NoInterfaces)
    } else {
        &&& r matches Ok(plan)
        &&& r->Ok_0.cfg == cfg
        &&& r->Ok_0.ifaces@.len() == chosen.len()
        &&& forall|i: int|
            0 <= i < chosen.len() ==> describes(#[trigger] r->Ok_0.ifaces@[i], chosen[i])
        &&& forall|x: u32| #[trigger]
            r->Ok_0.local_ips@.contains(x) <==> host_has_ipv4(ifaces, x)
    }
}

/// Checks the configuration `cfg` against `ifaces`, the host's interfaces,
/// and works out what the relay needs to start: the interfaces that
/// `get_ifaces` picks for the requested names, each with its first IPv4
/// address and broadcast address, and the addresses of the whole host.
/// Fails with `NoPeers` where no peer is configured, with the error of
/// `get_ifaces` where a requested interface is missing, and with
/// `NoInterfaces` where no interface is picked.
pub fn run(cfg: ForwarderConfig, ifaces: Vec<NetworkInterface>) -> (r: Result<RunPlan, RunError>)
    ensures
        run_result_ok(r, cfg, ifaces@),
        r matches Ok(plan) ==> forall|i: int, k: int|
            0 <= i < ifaces@.len() && 0 <= k < ifaces@[i].ips@.len() && (#[trigger] ifaces@[i].ips@[k]) is V4
                ==> plan.local_ips@.contains(ifaces@[i].ips@[k]->V4_0.spec_ip()@),
        r matches Ok(plan) ==> plan.ifaces@.len() > 0 && cfg.peers@.len() > 0,
        r matches Ok(plan) ==> forall|j: int|
            0 <= j < plan.ifaces@.len() ==> interface_valid((#[trigger] plan.ifaces@[j]).iface),
        cfg.ifaces@.len() == 0 && cfg.peers@.len() > 0 ==> forall|k: int|
            0 <= k < ifaces@.len() && interface_valid(#[trigger] ifaces@[k]) ==> (r matches Ok(plan)
                && exists|j: int| 0 <= j < plan.ifaces@.len() && plan.ifaces@[j].iface == ifaces@[k]),
{
    proof {
        lemma_chosen_ifaces_valid(ifaces@, cfg.ifaces@);
        lemma_chosen_ifaces_complete(ifaces@, cfg.ifaces@);
        lemma_requested_found_iff(ifaces@, cfg.ifaces@);
    }
    if cfg.peers.len() == 0 {
        return Err(RunError::NoPeers);
    }
    // Every address of the host counts as local, since other interfaces
    // can be bridged onto the sniffed one.
    let local_ips = local_ipv4s(&ifaces);
    let ghost all = ifaces@;
    let mut picked = match get_ifaces(ifaces, &cfg.ifaces) {
        Ok(v) => v,
        Err(e) => return Err(RunError::Interface(e)),
    };
    let ghost chosen = picked@;
    proof {
        lemma_chosen_ifaces_valid(all, cfg.ifaces@);
    }
    if picked.len() == 0 {
        proof {
            assert forall|k: int|
                cfg.ifaces@.len() == 0 && 0 <= k < all.len() implies !interface_valid(
                #[trigger] all[k],
            ) by {
                if interface_valid(all[k]) {
                    assert(chosen.contains(all[k]));
                }
            }
        }
        return Err(RunError::NoInterfaces);
    }
    let n = picked.len();
    let mut infos: Vec<InterfaceInfo> = Vec::new();
    let mut i: usize = 0;
    while i < n
        invariant
            n == chosen.len(),
            i <= n,
            picked@ == chosen.subrange(i as int, n as int),
            forall|k: int| 0 <= k < n ==> interface_valid(#[trigger] chosen[k]),
            infos@.len() == i,
            forall|k: int| 0 <= k < i ==> describes(#[trigger] infos@[k], chosen[k]),
        decreases n - i,
    {
        let iface = picked.remove(0);
        assert(iface == chosen[i as int]);
        let info = match InterfaceInfo::new(iface) {
            Ok(info) => info,
            Err(e) => return Err(RunError::Interface(e)),
        };
        infos.push(info);
        i += 1;
    }
    proof {
        assert forall|k: int|
            cfg.ifaces@.len() == 0 && 0 <= k < all.len() && interface_valid(#[trigger] all[k]) implies exists|j: int|
            0 <= j < infos@.len() && infos@[j].iface == all[k] by {
            let j = choose|j: int| 0 <= j < chosen.len() && chosen[j] == all[k];
            assert(describes(infos@[j], chosen[j]));
        }
    }
    let ghost gcfg = cfg;
    let res: Result<RunPlan, RunError> = Ok(RunPlan { cfg, ifaces: infos, local_ips });
    assert(res matches Ok(plan) && plan.ifaces@ == infos@);
    assert(gcfg.ifaces@.len() == 0 && gcfg.peers@.len() > 0 ==> forall|k: int|
            0 <= k < all.len() && interface_valid(#[trigger] all[k]) ==> (res matches Ok(plan)
                && exists|j: int| 0 <= j < plan.ifaces@.len() && plan.ifaces@[j].iface == all[k]));
    res
}

/// A relay, holding its configuration.
pub struct Forwarder {
    cfg: ForwarderConfig,
}

impl Forwarder {
    /// A relay with the configuration `cfg`.
    pub fn new(cfg: ForwarderConfig) -> (r: Self)
        ensures
            r.spec_config() == cfg,
    {
        Self { cfg }
    }

    /// The configuration of the relay.
    pub closed spec fn spec_config(&self) -> ForwarderConfig {
        self.cfg
    }

    /// Checks the relay's configuration against `ifaces`, the host's
    /// interfaces, and works out what the relay needs to start; see `run`.
    pub fn run(self, ifaces: Vec<NetworkInterface>) -> (r: Result<RunPlan, RunError>)
        ensures
            run_result_ok(r, self.spec_config(), ifaces@),
            r matches Ok(plan) ==> forall|i: int, k: int|
                0 <= i < ifaces@.len() && 0 <= k < ifaces@[i].ips@.len() && (#[trigger] ifaces@[i].ips@[k]) is V4
                    ==> plan.local_ips@.contains(ifaces@[i].ips@[k]->V4_0.spec_ip()@),
            r matches Ok(plan) ==> plan.ifaces@.len() > 0 && self.spec_config().peers@.len() > 0,
            r matches Ok(plan) ==> forall|j: int|
                0 <= j < plan.ifaces@.len() ==> interface_valid((#[trigger] plan.ifaces@[j]).iface),
            self.spec_config().ifaces@.len() == 0 && self.spec_config().peers@.len() > 0 ==> forall|k: int|
                0 <= k < ifaces@.len() && interface_valid(#[trigger] ifaces@[k]) ==> (r matches Ok(plan)
                    && exists|j: int| 0 <= j < plan.ifaces@.len() && plan.ifaces@[j].iface == ifaces@[k]),
    {
        run(self.cfg, ifaces)
    }

    /// The configuration of the relay.
    pub fn config(&self) -> (r: &ForwarderConfig)
        ensures
            *r == self.spec_config(),
    {
        &self.cfg
    }
}

} // verus!
