# musicsync

The verified core of MusicSync, a desktop controller for LibreWireless LP10
speakers: discovery, the Luci control protocol, status polling, playback
control, a local login profile, a synchronized RAOP multi-sender and a Spotify
Connect capture.

- `src/` is the library, written in Verus: every function carries a contract
  and is proved against it. It holds the protocol framing and parsing, the
  discovery and polling decisions, the saved-device and settings edits, the
  login throttle, the WAV and PCM handling and the Spotify state machine. The
  public `law_*` proof functions state the properties that span several calls
  (round trips, what a streak of failures leads to, what recording and removing
  a device does).
- `tests/` runs the library on concrete values.
- `app/` is the Tauri application around it: sockets, TLS, HTTP, child
  processes, threads, timers, serde shapes and the librespot session. It makes
  every decision by calling the library.

Outside crates called from `src/`: `argon2` (password hashing), `hex`,
`percent-encoding`, `ipnet` and `serde_json` (the now-playing payload), each
through a small wrapper whose contract states what the crate documents.

## What is not here

The original's configuration export/import commands (`export_config`,
`import_config`, `export_config_file`, `import_config_file`), its manual stream
targets (`add_manual_target`, `remove_manual_target`, `list_manual_targets`)
and its per-target delays (`list_target_delays`, `set_target_delay`) call
store items that its own sources never define (`export_bundle`,
`merge_bundle`, `ConfigBundle`, `Config::add_manual_target`,
`Config::target_delay`, …), so there is nothing for them to be built on and
they are left out. For the same reason the poll interval has no configured
ceiling: the original clamps it to `store::MIN_POLL_MS..=store::MAX_POLL_MS`,
which do not exist either; the poller keeps its own one-second floor and
passes no upper bound.
