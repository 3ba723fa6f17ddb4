# pimostat

A thermostat made of three networked programs: a sensor that reads a 1-Wire
thermometer, a controller that switches the heating with a hysteresis, and an
actor that drives the relay.

- `src/` is the verified library: splitting `host:port` addresses
  (`util`), the thermometer's text format (`sensor::parse`), the
  controller's rule (`controller`) and the decisions of a poll-driven
  controller (`poller`), the relay level (`actor`), the checks on a socket
  handed over by systemd (`socket`), and the character-level operations they
  share (`text`).
- `app/` holds the networking, TLS, Cap'n Proto messaging, devices and
  command lines around it. It expects the Rust code that `capnpc` generates
  from the Cap'n Proto schemas (`sensor`, `actor`, `controller`) in the
  directory named by `OUT_DIR`; neither the schemas nor a build step that
  generates that code are part of this crate, so `app/` does not build as it
  stands.
- `tests/` exercises the library.
