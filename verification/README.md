# rust-supervisor-relay

A relay between supervisor dashboards and the target processes they watch.
Targets register over a local Unix socket; dashboards connect over `wss://`
with mTLS (or through a trusted proxy), bind targets, receive their state,
events and logs, and send control commands.

## Layout

- `src/` is the library, written in Verus and verified: configuration checks,
  the registration registry and its leases, remote identities, command
  validation and audit, the session protocol (handshake order, binding gates,
  per-target sequence checks), fan-out, the meaning of target IPC replies and
  the command line.
- `app/` is the binary: sockets, TLS, WebSocket, serde encoding and decoding
  of the library's types (JSON and YAML), the Unix-socket IPC client, and the
  loops that feed the library's decisions. Reading an inbound message's
  envelope and a target's reply line is the library's part.
- `tests/` exercises the library through its public API.

The library never performs I/O. Where a decision needs something only the
outside world knows (a filesystem probe of an IPC path, the reply of a target,
the current time), the caller passes it in as a value.
