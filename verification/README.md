# dsh_pet

A desktop pet that watches a local DSH agent host and shows its mode (offline, error,
attention, working, done, turn-idle, idle), with custom animation themes, notification
sounds and a tray menu.

The logic is a library verified with Verus (`src/`); the desktop application around it
(`app/`) does the I/O: HTTP, the event streams, the file system, windows and the tray.

## Layout

- `src/engine.rs`: the state engine — sessions, pending approvals and questions, finished
  sessions, the five-mode snapshot, and how polls and stream frames change the state.
  `src/engine_laws.rs` proves what holds across its operations.
- `src/runner.rs`: the runner as a state machine (find the DSH, use its address, clear
  what is pending, open the streams, poll, find it again after three failed polls), with
  the order of its steps proved.
- `src/registry.rs`: an insertion-ordered map from string keys, with no key twice.
- `src/json.rs`: JSON values as the library reads them (parsed with `serde_json`).
- `src/sse.rs`: framing of server-sent events on a byte buffer, and the events their
  `data: ` lines carry; `src/sse_laws.rs` proves that how the stream is cut into chunks
  does not change what stays in the buffer, nor, when the complete blocks are valid UTF-8,
  the data and events handed on (with an invalid block it can: a block skipped whole may
  have been two blocks, one of them valid).
- `src/rpc.rs`, `src/discover.rs`: the DSH address, request ids, reply checks, and reading
  listening ports from `netstat` output; `src/rpc_laws.rs` proves that request ids do not
  repeat.
- `src/theme.rs`, `src/theme_laws.rs`: animation lists and their normal form.
- `src/theme_editor.rs`, `src/theme_template.rs`: the theme editor's rules and the template
  theme with its README; `src/theme_editor_laws.rs` proves that generated theme ids are
  always accepted.
- `src/tray.rs`, `src/tray_laws.rs`: the tray menu, its switches and its actions.
- `src/audio.rs`: which sound a mode calls for, and the cooldown between sounds.
- `src/text.rs`: string helpers (trimming, numerals) with their specifications.
- `tests/`: tests of the library on concrete values.
- `app/`: the Tauri application.
