# w3_portal

A relay that makes Warcraft III LAN games work across hosts where Wine does
not deliver UDP broadcasts: each broadcast that this host sends to port 6112
is captured on the wire and re-emitted as a UDP unicast, with the same
payload and ports, to every configured peer.

Layout:

- `src/` — the library, verified with Verus:
  - `addr.rs`: IPv4 addresses and networks (broadcast address through `ipnetwork`);
  - `config.rs`: the relay's settings;
  - `filter.rs`: which captured packets are relayed;
  - `interface.rs`: which interfaces are sniffed, and their addresses;
  - `packet.rs`: reading frames and writing datagrams through `pnet`'s packet views;
  - `relay.rs`: what becomes of each captured frame;
  - `lib.rs`: checking a configuration against the host before the relay starts.
- `tests/` — tests of the library on concrete values.
- `app/` — the command-line program: arguments, interface listing, sockets,
  threads and logging.
