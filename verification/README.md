# fawnd

A userspace driver for the DrunkDeer A75 Hall-effect keyboard, as a verified
library and a thin command-line program around it.

- `src/` is the library, checked by Verus:
  - `protocol/`: wire constants, the 126-slot key layout with name <-> index
    resolution (and the proof that key names are distinct up to case), and the
    packet builders (identity, LED mode, rapid trigger, key tracking, modify-row).
  - `device.rs`: interface selection, report framing and normalisation, and the
    identity-handshake decision.
  - `controller.rs`: the in-memory per-key mirror, the row packets that push
    it, and assembly of live key-depth frames.
  - `rules.rs`: `*`-glob window rules and profile resolution.
  - `daemon.rs`, `ipc.rs`, `watch.rs`: daemon replies, IPC messages, profile
    file names, the keys newly pressed between two depth frames (for
    `fawnd daemon identify`), and the focus service's decisions.
  - `gui/`: worker events, reply handling, key selections and on-cap labels
    of the UI.
- `app/` is ordinary Rust: the CLI, HID I/O through `hidapi`, TOML profiles,
  the JSON-over-Unix-socket daemon, and the KWin/D-Bus focus watcher.
- `tests/` exercises the library on concrete values.

Not included: the browser (WebHID) build. It runs only on `wasm32` through
`wasm-bindgen`/`web-sys`, so neither its worker nor its binary is here. The
logic it shares with the native front ends (the packets it sends, the
defaults it writes, the rapid-trigger text and the identity handshake) is in
`src/` and verified there; only its browser I/O is absent.
