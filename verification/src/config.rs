//! What the relay is asked to do.
use crate::addr::Ipv4Addr;
use vstd::prelude::*;

verus! {

/// The settings of a relay.
#[derive(Debug, Clone)]
pub struct ForwarderConfig {
    /// The UDP port whose broadcasts are relayed.
    pub port: u16,
    /// The names of the interfaces to sniff; empty means every usable one.
    pub ifaces: Vec<String>,
    /// The hosts that every relayed broadcast is sent to.
    pub peers: Vec<Ipv4Addr>,
    /// Whether the caller logs every captured and forwarded packet.
    pub verbose: bool,
}

impl ForwarderConfig {
    /// A configuration for `port` on the interfaces named in `ifaces`, with
    /// no peers yet and quiet logging.
    pub fn new(port: u16, ifaces: Vec<String>) -> (r: Self)
        ensures
            r.port == port,
            r.ifaces == ifaces,
            r.peers@.len() == 0,
            !r.verbose,
    {
        Self { port, ifaces, peers: Vec::new(), verbose: false }
    }
}

} // verus!
