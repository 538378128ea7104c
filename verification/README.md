# motu-mk5

Linux integration for the MOTU UltraLite mk5: a daemon that exposes each
physical I/O pair as a PipeWire device and keeps the device's settings in
step with a saved state, and `motu-ctl`, a command-line tool to read and
write device properties, print a diagnostic report and update the package.

## Layout

- `src/` — the library, verified with Verus:
  - `protocol/` — property types and their wire encoding, the property map
    and its table, SysEx framing with 7-bit encoding, and reading and
    printing typed values;
  - `device/` — the device state and what updates, writes and a reconnect do
    to it, the WebSocket frames and read results, discovery announcements,
    and the status summary;
  - `audio/` — finding the MOTU's ALSA nodes in a PipeWire node listing, and
    the `pw-loopback` properties of each virtual device;
  - `diagnostics.rs` — the diagnostic report built from the tools' output;
  - `supervisor.rs` — the daemon's decisions about the audio router;
  - `updater.rs` — version comparison, the system's package format, and
    what a GitHub release offers;
  - `json.rs` — field lookups in JSON documents, through serde_json;
  - `text.rs` — text helpers (lines, search, trimming, decimal numerals).
- `app/` — the program: sockets, processes, files, signals and the command
  line, calling the library for every decision.
- `tests/` — tests of the library.
