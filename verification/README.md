# PAYPHONE

The logic of a VPN, in Verus: what it says on the wire, who it lets in, which
session a packet belongs to, how its TCP path passes for an ordinary TLS
connection, and which routes it sets and takes back. Each function states what
it returns, and Verus proves it.

- `src/`: the verified library.
  - `protocol`: frames and the messages in them
  - `auth`, `issuer`: subscription tokens, how they are signed and checked
  - `server`: sessions, addresses, rate limits, what answers a frame, the DNS
    relay and the HTTPS front
  - `client`: the connection, the tunnel, the saved session, the screen
  - `transport`: obfuscation, TLS identities, and REALITY under `reality`
  - `tun`: packets, and the routing commands of three systems
  - `settings`: options, environment and config file
  - `laws`, and the files ending in `laws`: what holds of several functions
    together
- `app/`: the programs. Sockets, devices, files, threads and the screen.
- `tests/`: the library from outside, on concrete values.

Calls into other crates stand behind small functions with a stated contract in
`buffer.rs`, `crypto.rs`, `random.rs`, `clock.rs`, `text.rs`,
`transport/identity.rs` and `transport/reality/cert.rs`. Those contracts are
believed, not proved.
