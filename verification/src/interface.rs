//! The network interfaces that the relay sniffs on.
use crate::addr::{broadcast_bits, Ipv4Addr, Ipv4Network};
use vstd::prelude::*;

verus! {

/// An address of an interface together with its network.
#[derive(Clone, Copy, Debug, PartialEq, Eq, Structural)]
pub enum IpNetwork {
    /// An IPv4 address and its network.
    V4(Ipv4Network),
    /// An IPv6 address; the relay reads nothing of it.
    V6,
}

/// A network interface of this host, as the relay reads it.
#[derive(Clone, Debug)]
pub struct NetworkInterface {
    /// The name of the interface, such as `eth0`.
    pub name: String,
    /// The addresses of the interface and their networks.
    pub ips: Vec<IpNetwork>,
    /// The operating system's flags for the interface.
    pub flags: u32,
    /// Whether the interface is a bridge of other interfaces.
    pub is_bridge: bool,
}

/// Whether `flags` mark an interface as up, as
/// `pnet::datalink::NetworkInterface::is_up` reads them.
pub uninterp spec fn flags_up(flags: u32) -> bool;

/// Whether `flags` mark a loopback interface, as
/// `pnet::datalink::NetworkInterface::is_loopback` reads them.
pub uninterp spec fn flags_loopback(flags: u32) -> bool;

/// Whether `flags` mark a point-to-point interface, as
/// `pnet::datalink::NetworkInterface::is_point_to_point` reads them.
pub uninterp spec fn flags_point_to_point(flags: u32) -> bool;

/// Calls `pnet::datalink::NetworkInterface::is_up` on an interface with
/// these flags. That method tests one bit of the flags, a bit that the
/// platform's libc defines (`IFF_UP`); the contract claims only that the
/// result is a function of the flags alone and leaves the bit unstated.
#[verifier::external_body]
fn pnet_is_up(flags: u32) -> (r: bool)
    ensures
        r == flags_up(flags),
{
    pnet::datalink::NetworkInterface {
        name: String::new(),
        description: String::new(),
        index: 0,
        mac: None,
        ips: Vec::new(),
        flags,
    }.is_up()
}

/// Calls `pnet::datalink::NetworkInterface::is_loopback` on an interface
/// with these flags. That method tests the platform's `IFF_LOOPBACK` bit;
/// the contract claims only that the result is a function of the flags.
#[verifier::external_body]
fn pnet_is_loopback(flags: u32) -> (r: bool)
    ensures
        r == flags_loopback(flags),
{
    pnet::datalink::NetworkInterface {
        name: String::new(),
        description: String::new(),
        index: 0,
        mac: None,
        ips: Vec::new(),
        flags,
    }.is_loopback()
}

/// Calls `pnet::datalink::NetworkInterface::is_point_to_point` on an
/// interface with these flags. That method tests the platform's
/// `IFF_POINTOPOINT` bit; the contract claims only that the result is a
/// function of the flags.
#[verifier::external_body]
fn pnet_is_point_to_point(flags: u32) -> (r: bool)
    ensures
        r == flags_point_to_point(flags),
{
    pnet::datalink::NetworkInterface {
        name: String::new(),
        description: String::new(),
        index: 0,
        mac: None,
        ips: Vec::new(),
        flags,
    }.is_point_to_point()
}

/// Whether some address in `ips` is an IPv4 address.
pub open spec fn has_ipv4(ips: Seq<IpNetwork>) -> bool {
    exists|k: int| 0 <= k < ips.len() && ips[k] is V4
}

/// Whether `k` is the position of the first IPv4 address in `ips`.
pub open spec fn is_first_ipv4(ips: Seq<IpNetwork>, k: int) -> bool {
    &&& 0 <= k < ips.len()
    &&& ips[k] is V4
    &&& forall|j: int| 0 <= j < k ==> !(ips[j] is V4)
}

/// Whether the relay can sniff on `iface`: it is up, it is neither a
/// loopback nor a point-to-point interface, it has an IPv4 address, and it
/// is not a bridge.
pub open spec fn interface_valid(iface: NetworkInterface) -> bool {
    &&& flags_up(iface.flags)
    &&& !flags_loopback(iface.flags)
    &&& !flags_point_to_point(iface.flags)
    &&& has_ipv4(iface.ips@)
    &&& !iface.is_bridge
}

/// Why an interface cannot be used.
#[derive(Debug)]
pub enum InterfaceError {
    /// The named interface has no IPv4 address.
    NoIpv4Address(String),
    /// No usable interface answers to these requested names.
    InvalidInterfaces(Vec<String>),
}

/// An interface that the relay sniffs on, with the addresses it relays from.
#[derive(Debug)]
pub struct InterfaceInfo {
    /// The interface.
    pub iface: NetworkInterface,
    /// The first IPv4 address of the interface; relayed datagrams are sent
    /// from it.
    pub src_ip: Ipv4Addr,
    /// The broadcast address of that address's network.
    pub bcast_ip: Ipv4Addr,
}

/// Whether `info` describes `iface` with its first IPv4 address and that
/// address's broadcast address.
pub open spec fn describes(info: InterfaceInfo, iface: NetworkInterface) -> bool {
    &&& info.iface == iface
    &&& exists|k: int|
        is_first_ipv4(iface.ips@, k) && info.src_ip == (#[trigger] iface.ips@[k])->V4_0.spec_ip()
            && info.bcast_ip@ == broadcast_bits(
            iface.ips@[k]->V4_0.spec_ip()@,
            iface.ips@[k]->V4_0.spec_prefix(),
        )
}

impl InterfaceInfo {
    /// The interface `iface` with its first IPv4 address and that address's
    /// broadcast address, or `NoIpv4Address` with its name where it has none.
    pub fn new(iface: NetworkInterface) -> (r: Result<Self, InterfaceError>)
        ensures
            r is Ok <==> has_ipv4(iface.ips@),
            r matches Ok(info) ==> describes(info, iface),
            r matches Ok(info) ==> info.iface == iface && exists|k: int|
                0 <= k < iface.ips@.len() && (#[trigger] iface.ips@[k]) is V4 && (forall|j: int|
                    0 <= j < k ==> !(iface.ips@[j] is V4)) && info.src_ip
                    == iface.ips@[k]->V4_0.spec_ip() && info.bcast_ip@ == (
                iface.ips@[k]->V4_0.spec_ip()@ | ((0xffff_ffffu64 >> iface.ips@[k]->V4_0.spec_prefix()) as u32)),
            r matches Err(e) ==> (e matches InterfaceError::NoIpv4Address(n) && n@ == iface.name@),
    {
        let len = iface.ips.len();
        let mut k: usize = 0;
        while k < len
            invariant
                len == iface.ips@.len(),
                k <= len,
                forall|j: int| 0 <= j < k ==> !(iface.ips@[j] is V4),
            decreases len - k,
        {
            match iface.ips[k] {
                IpNetwork::V4(net) => {
                    let src_ip = net.ip();
                    let bcast_ip = net.broadcast();
                    assert(is_first_ipv4(iface.ips@, k as int));
                    return Ok(InterfaceInfo { iface, src_ip, bcast_ip });
                },
                IpNetwork::V6 => {},
            }
            k += 1;
        }
        let name = iface.name.clone();
        Err(InterfaceError::NoIpv4Address(name))
    }

    /// The name of the interface.
    pub fn name(&self) -> (r: &str)
        ensures
            r@ == self.iface.name@,
    {
        self.iface.name.as_str()
    }
}

/// Whether some address in `ips` is an IPv4 address.
fn any_ipv4(ips: &Vec<IpNetwork>) -> (r: bool)
    ensures
        r == has_ipv4(ips@),
{
    let len = ips.len();
    let mut k: usize = 0;
    while k < len
        invariant
            len == ips@.len(),
            k <= len,
            forall|j: int| 0 <= j < k ==> !(ips@[j] is V4),
        decreases len - k,
    {
        if let IpNetwork::V4(_) = ips[k] {
            return true;
        }
        k += 1;
    }
    false
}

/// Whether the relay can sniff on `iface`: it is up, it is neither a
/// loopback nor a point-to-point interface, it has an IPv4 address, and it
/// is not a bridge.
pub fn is_interface_valid(iface: &NetworkInterface) -> (r: bool)
    ensures
        r == interface_valid(*iface),
{
    pnet_is_up(iface.flags) && !pnet_is_loopback(iface.flags) && !pnet_is_point_to_point(
        iface.flags,
    ) && any_ipv4(&iface.ips) && !iface.is_bridge
}

/// The names of `ifaces`, in order.
pub open spec fn iface_names(ifaces: Seq<NetworkInterface>) -> Seq<Seq<char>> {
    ifaces.map_values(|i: NetworkInterface| i.name@)
}

/// The texts of `names`, in order.
pub open spec fn name_texts(names: Seq<String>) -> Seq<Seq<char>> {
    names.map_values(|s: String| s@)
}

/// The interfaces picked from `ifaces` for the requested names `wanted`:
/// going through `ifaces` in order, each valid interface whose name is
/// requested and not yet picked.
pub open spec fn selected(ifaces: Seq<NetworkInterface>, wanted: Seq<Seq<char>>) -> Seq<
    NetworkInterface,
>
    decreases ifaces.len(),
{
    if ifaces.len() == 0 {
        Seq::empty()
    } else {
        let picked = selected(ifaces.drop_last(), wanted);
        let last = ifaces.last();
        if interface_valid(last) && wanted.contains(last.name@) && !iface_names(picked).contains(
            last.name@,
        ) {
            picked.push(last)
        } else {
            picked
        }
    }
}

/// Whether `missing` holds, once each, exactly the names in `wanted` that no
/// interface in `picked` has.
pub open spec fn lists_missing(
    missing: Seq<Seq<char>>,
    wanted: Seq<Seq<char>>,
    picked: Seq<NetworkInterface>,
) -> bool {
    &&& missing.no_duplicates()
    &&& forall|x: Seq<char>|
        #![trigger missing.contains(x)]
        missing.contains(x) <==> (wanted.contains(x) && !iface_names(picked).contains(x))
}

/// Whether every name in `filter` (if any) is the name of an interface that
/// `selected` picks from `ifaces`.
pub open spec fn requested_found(ifaces: Seq<NetworkInterface>, filter: Seq<String>) -> bool {
    filter.len() == 0 || forall|x: Seq<char>| #[trigger]
        name_texts(filter).contains(x) ==> iface_names(
            selected(ifaces, name_texts(filter)),
        ).contains(x)
}

/// The interfaces that `get_ifaces` picks from `ifaces` for the requested
/// names `filter`: every valid interface, in order, where nothing is
/// requested; otherwise `selected`.
pub open spec fn chosen_ifaces(ifaces: Seq<NetworkInterface>, filter: Seq<String>) -> Seq<
    NetworkInterface,
> {
    if filter.len() == 0 {
        ifaces.filter(|i: NetworkInterface| interface_valid(i))
    } else {
        selected(ifaces, name_texts(filter))
    }
}

/// Whether `r` is what `get_ifaces` gives for the interfaces `ifaces` and
/// the requested names `filter`.
pub open spec fn ifaces_result_ok(
    r: Result<Vec<NetworkInterface>, InterfaceError>,
    ifaces: Seq<NetworkInterface>,
    filter: Seq<String>,
) -> bool {
    if requested_found(ifaces, filter) {
        r matches Ok(v) && v@ == chosen_ifaces(ifaces, filter)
    } else {
        r matches Err(InterfaceError::InvalidInterfaces(m)) && lists_missing(
            name_texts(m@),
            name_texts(filter),
            chosen_ifaces(ifaces, filter),
        )
    }
}

/// Whether some valid interface in `ifaces` is named `x`.
pub open spec fn valid_named(ifaces: Seq<NetworkInterface>, x: Seq<char>) -> bool {
    exists|k: int| 0 <= k < ifaces.len() && interface_valid(#[trigger] ifaces[k]) && ifaces[k].name@ == x
}

/// What `selected` picks: only valid interfaces with requested names, no
/// name twice, and every requested name that some valid interface has.
proof fn lemma_selected(ifaces: Seq<NetworkInterface>, wanted: Seq<Seq<char>>)
    ensures
        forall|k: int|
            0 <= k < selected(ifaces, wanted).len() ==> interface_valid(
                #[trigger] selected(ifaces, wanted)[k],
            ) && wanted.contains(selected(ifaces, wanted)[k].name@),
        iface_names(selected(ifaces, wanted)).no_duplicates(),
        forall|x: Seq<char>|
            #[trigger] iface_names(selected(ifaces, wanted)).contains(x) <==> (wanted.contains(x)
                && valid_named(ifaces, x)),
    decreases ifaces.len(),
{
    broadcast use vstd::seq_lib::lemma_seq_contains_after_push;

    if ifaces.len() == 0 {
        assert(iface_names(selected(ifaces, wanted)) =~= Seq::<Seq<char>>::empty());
    } else {
        let prev = ifaces.drop_last();
        let last = ifaces.last();
        lemma_selected(prev, wanted);
        let picked = selected(prev, wanted);
        let sel = selected(ifaces, wanted);
        assert forall|x: Seq<char>| valid_named(ifaces, x) <==> (valid_named(prev, x) || (
        interface_valid(last) && last.name@ == x)) by {
            if valid_named(ifaces, x) {
                let k = choose|k: int|
                    0 <= k < ifaces.len() && interface_valid(#[trigger] ifaces[k]) && ifaces[k].name@
                        == x;
                if k < prev.len() {
                    assert(prev[k] == ifaces[k]);
                }
            }
            if valid_named(prev, x) {
                let k = choose|k: int|
                    0 <= k < prev.len() && interface_valid(#[trigger] prev[k]) && prev[k].name@ == x;
                assert(ifaces[k] == prev[k]);
            }
            if interface_valid(last) && last.name@ == x {
                assert(ifaces[ifaces.len() - 1] == last);
            }
        }
        if interface_valid(last) && wanted.contains(last.name@) && !iface_names(picked).contains(
            last.name@,
        ) {
            assert(iface_names(sel) =~= iface_names(picked).push(last.name@));
            let names = iface_names(sel);
            assert forall|a: int, b: int|
                0 <= a < names.len() && 0 <= b < names.len() && a != b implies names[a]
                != names[b] by {
                if a == picked.len() {
                    assert(iface_names(picked).contains(names[b]));
                } else if b == picked.len() {
                    assert(iface_names(picked).contains(names[a]));
                }
            }
        }
    }
}

/// Every interface that `get_ifaces` picks is valid, so has an IPv4 address
/// and `InterfaceInfo::new` succeeds on it; where names are requested, each
/// picked interface has a requested name and no two have the same name.
pub proof fn lemma_chosen_ifaces_valid(ifaces: Seq<NetworkInterface>, filter: Seq<String>)
    ensures
        forall|k: int|
            0 <= k < chosen_ifaces(ifaces, filter).len() ==> interface_valid(
                #[trigger] chosen_ifaces(ifaces, filter)[k],
            ),
        forall|k: int|
            0 <= k < chosen_ifaces(ifaces, filter).len() ==> has_ipv4(
                (#[trigger] chosen_ifaces(ifaces, filter)[k]).ips@,
            ),
        filter.len() > 0 ==> iface_names(chosen_ifaces(ifaces, filter)).no_duplicates(),
        filter.len() > 0 ==> forall|k: int|
            0 <= k < chosen_ifaces(ifaces, filter).len() ==> name_texts(filter).contains(
                #[trigger] chosen_ifaces(ifaces, filter)[k].name@,
            ),
{
    if filter.len() == 0 {
        broadcast use vstd::seq_lib::group_filter_ensures;


    } else {
        lemma_selected(ifaces, name_texts(filter));
    }
}

/// No valid interface is left out: with no requested names every valid
/// interface is picked; with requested names, every valid interface whose
/// name is requested has its name among the picked interfaces.
pub proof fn lemma_chosen_ifaces_complete(ifaces: Seq<NetworkInterface>, filter: Seq<String>)
    ensures
        filter.len() == 0 ==> forall|k: int|
            0 <= k < ifaces.len() && interface_valid(#[trigger] ifaces[k]) ==> chosen_ifaces(
                ifaces,
                filter,
            ).contains(ifaces[k]),
        filter.len() > 0 ==> forall|k: int|
            0 <= k < ifaces.len() && interface_valid(#[trigger] ifaces[k]) && name_texts(
                filter,
            ).contains(ifaces[k].name@) ==> iface_names(chosen_ifaces(ifaces, filter)).contains(
                ifaces[k].name@,
            ),
{
    broadcast use vstd::seq_lib::group_filter_ensures;

    lemma_selected(ifaces, name_texts(filter));
    assert forall|k: int|
        0 <= k < ifaces.len() && interface_valid(#[trigger] ifaces[k]) implies valid_named(
        ifaces,
        ifaces[k].name@,
    ) by {}
}

/// `get_ifaces` succeeds exactly when every requested name is the name of
/// some valid interface (with no requested names it always succeeds).
pub proof fn lemma_requested_found_iff(ifaces: Seq<NetworkInterface>, filter: Seq<String>)
    ensures
        requested_found(ifaces, filter) <==> forall|x: Seq<char>| #[trigger]
            name_texts(filter).contains(x) ==> valid_named(ifaces, x),
{
    lemma_selected(ifaces, name_texts(filter));
}

/// Whether some string in `names` equals `name`.
fn names_contain(names: &Vec<String>, name: &String) -> (r: bool)
    ensures
        r == name_texts(names@).contains(name@),
{
    let len = names.len();
    let mut k: usize = 0;
    while k < len
        invariant
            len == names@.len(),
            k <= len,
            forall|j: int| 0 <= j < k ==> names@[j]@ != name@,
        decreases len - k,
    {
        if names[k] == *name {
            assert(name_texts(names@)[k as int] == name@);
            return true;
        }
        k += 1;
    }
    proof {
        if name_texts(names@).contains(name@) {
            let j = choose|j: int| 0 <= j < name_texts(names@).len() && name_texts(names@)[j] == name@;
            assert(names@[j]@ == name@);
        }
    }
    false
}

/// Whether some interface in `ifaces` is named `name`.
fn ifaces_contain_name(ifaces: &Vec<NetworkInterface>, name: &String) -> (r: bool)
    ensures
        r == iface_names(ifaces@).contains(name@),
{
    let len = ifaces.len();
    let mut k: usize = 0;
    while k < len
        invariant
            len == ifaces@.len(),
            k <= len,
            forall|j: int| 0 <= j < k ==> ifaces@[j].name@ != name@,
        decreases len - k,
    {
        if ifaces[k].name == *name {
            assert(iface_names(ifaces@)[k as int] == name@);
            return true;
        }
        k += 1;
    }
    proof {
        if iface_names(ifaces@).contains(name@) {
            let j = choose|j: int|
                0 <= j < iface_names(ifaces@).len() && iface_names(ifaces@)[j] == name@;
            assert(ifaces@[j].name@ == name@);
        }
    }
    false
}

/// The interfaces to sniff on, out of `ifaces`, the host's interfaces.
/// With no requested names in `filter`, every valid interface, in order.
/// Otherwise the valid interfaces whose names are requested, each name once
/// (the first valid interface of that name), in order; and where a requested
/// name has no valid interface, `InvalidInterfaces` with every such name.
pub fn get_ifaces(ifaces: Vec<NetworkInterface>, filter: &Vec<String>) -> (r: Result<
    Vec<NetworkInterface>,
    InterfaceError,
>)
    ensures
        ifaces_result_ok(r, ifaces@, filter@),
        filter@.len() == 0 ==> r is Ok,
        filter@.len() == 0 ==> forall|k: int|
            0 <= k < ifaces@.len() && interface_valid(#[trigger] ifaces@[k]) ==> (r matches Ok(v)
                && v@.contains(ifaces@[k])),
        filter@.len() > 0 ==> forall|k: int|
            0 <= k < ifaces@.len() && interface_valid(#[trigger] ifaces@[k]) && name_texts(
                filter@,
            ).contains(ifaces@[k].name@) ==> (r matches Ok(v) ==> iface_names(v@).contains(
                ifaces@[k].name@,
            )),
        r matches Ok(v) ==> forall|j: int| 0 <= j < v@.len() ==> interface_valid(#[trigger] v@[j]),
        r is Ok <==> forall|x: Seq<char>| #[trigger]
            name_texts(filter@).contains(x) ==> exists|k: int|
                0 <= k < ifaces@.len() && interface_valid(#[trigger] ifaces@[k]) && ifaces@[k].name@
                    == x,
{
    proof {
        lemma_chosen_ifaces_valid(ifaces@, filter@);
        lemma_chosen_ifaces_complete(ifaces@, filter@);
        lemma_requested_found_iff(ifaces@, filter@);
    }
    let ghost all = ifaces@;
    let ghost wanted = name_texts(filter@);
    let n = ifaces.len();
    let mut rest = ifaces;
    let mut picked: Vec<NetworkInterface> = Vec::new();
    if filter.len() == 0 {
        let mut i: usize = 0;
        while i < n
            invariant
                n == all.len(),
                i <= n,
                rest@ == all.subrange(i as int, n as int),
                picked@ == all.take(i as int).filter(|x: NetworkInterface| interface_valid(x)),
            decreases n - i,
        {
            let iface = rest.remove(0);
            assert(all.take(i + 1).drop_last() =~= all.take(i as int));
            reveal_with_fuel(Seq::<_>::filter, 1);
            if is_interface_valid(&iface) {
                picked.push(iface);
            }
            i += 1;
        }
        assert(all.take(n as int) =~= all);
        return Ok(picked);
    }
    let mut i: usize = 0;
    while i < n
        invariant
            n == all.len(),
            i <= n,
            rest@ == all.subrange(i as int, n as int),
            wanted == name_texts(filter@),
            picked@ == selected(all.take(i as int), wanted),
        decreases n - i,
    {
        let iface = rest.remove(0);
        assert(all.take(i + 1).drop_last() =~= all.take(i as int));
        assert(all.take(i + 1).last() == iface);
        if names_contain(filter, &iface.name) && !ifaces_contain_name(&picked, &iface.name)
            && is_interface_valid(&iface) {
            picked.push(iface);
        }
        i += 1;
    }
    assert(all.take(n as int) =~= all);
    let mut missing: Vec<String> = Vec::new();
    let flen = filter.len();
    let mut j: usize = 0;
    while j < flen
        invariant
            flen == filter@.len(),
            j <= flen,
            wanted == name_texts(filter@),
            picked@ == selected(all, wanted),
            lists_missing(name_texts(missing@), name_texts(filter@.take(j as int)), picked@),
        decreases flen - j,
    {
        let name = &filter[j];
        let ghost before = name_texts(missing@);
        assert(name_texts(filter@.take(j + 1)) =~= name_texts(filter@.take(j as int)).push(
            name@,
        ));
        if !ifaces_contain_name(&picked, name) && !names_contain(&missing, name) {
            let copy = name.clone();
            assert(name_texts(missing@.push(copy)) =~= name_texts(missing@).push(name@));
            missing.push(copy);
            proof {
                let after = name_texts(missing@);
                assert forall|a: int, b: int|
                    0 <= a < after.len() && 0 <= b < after.len() && a != b implies after[a]
                    != after[b] by {
                    if a == before.len() {
                        assert(before.contains(after[b]));
                    } else if b == before.len() {
                        assert(before.contains(after[a]));
                    }
                }
            }
        }
        proof {
            broadcast use vstd::seq_lib::lemma_seq_contains_after_push;

        }
        j += 1;
    }
    assert(filter@.take(flen as int) =~= filter@);
    if missing.len() == 0 {
        proof {
            assert forall|x: Seq<char>| #[trigger] wanted.contains(x) implies iface_names(
                picked@,
            ).contains(x) by {
                if !iface_names(picked@).contains(x) {
                    assert(name_texts(missing@).contains(x));
                }
            }
        }
        Ok(picked)
    } else {
        proof {
            let x = name_texts(missing@)[0];
            assert(name_texts(missing@).contains(x));
        }
        Err(InterfaceError::InvalidInterfaces(missing))
    }
}

} // verus!
