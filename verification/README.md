# cros-typec-selector

Selects the alternate mode of Linux Type-C connectors through the
connector class (`/sys/class/typec`): USB4 first, then Thunderbolt
compatibility, DisplayPort, and ordinary USB. Writes are limited to the
`usb_mode` and alternate-mode `active` attributes and happen only with
`--live`.

## Layout

- `src/` — the library, verified with Verus:
  - `vdo.rs`: USB-PD identity and alternate-mode capability bits;
  - `policy.rs`: the ordered candidates and the decision for a port;
  - `state.rs`: the attachment state of a port and the step order of a mode change;
  - `sysfs.rs`: how attribute texts and directory listings become a port snapshot,
    which requests a mode change writes, and how USB4 ports are associated;
  - `daemon.rs`: reconciliation of a snapshot against the recorded port states;
  - `transition.rs`: the transition protocol as a state machine whose requests
    (generation checks, reads, writes, waits, pauses) are performed by the caller;
  - `udev.rs`: which port a udev event concerns;
  - `cli.rs`: the command line;
  - `error.rs`, `text.rs`, `paths.rs`, `parse.rs`, `order.rs`: errors, strings,
    path joining, attribute parsing and name ordering.
- `app/` — the program: file reads and writes, the udev monitor, the clock,
  and the loop that performs the requests of the transition machine.
- `tests/` — tests of the library on concrete values.
