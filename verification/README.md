# wayflow

Keyboard and mouse sharing over the network: one machine (the server)
captures its input and, when the cursor crosses a configured screen edge,
forwards it to another machine (a client), which injects it.

## Layout

- `src/` is the library, verified with Verus. Each public function carries
  a contract; the laws that span several functions are public proof
  functions.
  - `proto`: the messages exchanged between server and client.
  - `frame`: the length-prefixed framing of messages on the wire.
  - `config`, `tls`: configuration values, modifier remapping, default paths.
  - `layout`: the server's monitors, their outer edges, and the mapping of
    a crossing onto the client's screen.
  - `router`: the server's routing state machine: which client owns the
    cursor, which keys it holds, and what to send on each captured event.
  - `session`: the server's side of a connection (greeting, later messages).
  - `client`: applying server messages through an injection backend,
    releasing held keys, reconnect timing.
  - `capture`, `wlr_capture`, `rdev_capture`, `host`: the decisions of the
    capture backends (barriers, key bookkeeping, activation states).
  - `keymap`, `keymap_mac`, `inject_mac`: keycode tables between HID,
    evdev, macOS virtual keycodes and modifier flags.
  - `clipboard`, `telemetry`, `tray`, `probe`, `text`: clipboard change
    tracking, counters and snapshots, tray states and icons, device
    selection for the probe, and string helpers.
- `tests/` runs the library on concrete values.
- `app/` is the `wayflow` program: command line, files, sockets, TLS,
  the portal and EI capture, the clipboard worker and the tray supervisor.
  It calls the library for every decision.
