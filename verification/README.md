# sing-box-config-api

The logic of a small HTTP API that manages a `sing-box` configuration, written and verified with
Verus, and a thin service around it.

- `src/` is the verified library. Each piece of work (an update, a restore, a backup, a check, a
  list, a download) is a state machine: it asks for an operation on its surroundings (`io.rs`) and
  goes on with the answer. Every step has an exact contract.
- `src/world.rs` models the surroundings. `src/guarantees.rs`, `src/directory.rs`, and the ends of
  `src/check.rs` and `src/download.rs` prove what the pieces of work do to the files: an update
  loses nothing, a restore brings any backup back, a list shows the directory newest first, a check
  cleans up behind itself, a download stores what was sent.
- `app/` performs the operations: files, programs, the network, JSON messages and the router.
- `tests/` runs the library on concrete values, with the outside crates linked.

What is believed without proof is what the outside crates do (`chrono`, `shell-words`, `reqwest`'s
URLs, `serde_json`, `axum`'s headers and status codes) and how the standard library decodes UTF-8.
Each such call stands behind one small function whose doc comment says what is believed of it.

Paths are those of Unix systems.
