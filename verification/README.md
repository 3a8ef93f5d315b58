# freedpi

A Verus library for probing how a network blocks a domain, and for the packet
techniques that get around it. Every function carries a contract, and Verus
proves it. The exceptions are small wrappers around outside crates, and the
specifications of outside functions: their contracts are believed.

- `src/rand` random numbers: xoshiro256++, a generator for each connection,
  split positions, GREASE values
- `src/desync` IPv4 packets: fragments, checksums, TTL, DSCP, injected resets
- `src/probe` the probe: its phases and verdicts, the history of verdicts, block
  pages, recommendations
- `src/service.rs` responses to clients and the history of responses
- `src/commands.rs` addresses of the service, and the user's lists of domains
- `src/domain.rs` public suffixes and families of domains
- `src/text.rs`, `src/clock.rs` text and time

`app/` is the service program around the library: the network, files, JSON and
the command line. `tests/` runs the library.
