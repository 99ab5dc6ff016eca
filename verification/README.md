# halogen_ui_core

The verified core of the Halogen podcast client, written in Verus. Every
function in `src/` that returns or changes something carries a
`requires`/`ensures` contract that Verus proves (the embedded server's
`install` and `stop` do nothing in this build and state nothing);
the few calls into std and outside crates (`chrono`, `url`) sit behind small
trusted wrappers whose contracts are stated in their doc comments.

Layout:

- `src/` — the library, one module per concern: the device-log ring
  (`device_log`, `level`), storage namespaces (`namespace`), the episode query
  model (`query`), the offline outbox and its drain policy (`outbox`, `drain`,
  `pending`), the cached pools (`pool`, `playlists`, `paging`), the sync
  worker's decisions (`sync`, `pull`, `device`, `download`), the playback
  state machine and navigation (`player`, `navigation`, `media_controls`),
  the device media store (`media`), the detail pages' lazy fetch
  (`deep_link`), the session flows (`session`, `embedded`) and text helpers
  (`text`).
  Each module states its laws as public proof functions.
- `tests/` — executable tests of the library.
- `app/` — the unverified edge: the `tracing` subscriber layers that feed the
  device log, file downloads of the log, and serde copies of the log types.
