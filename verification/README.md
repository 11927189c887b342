# obs_chzzk_extension

An OBS Studio plugin for NAVER CHZZK: it links a CHZZK account over OAuth,
edits the live title, category and tags from a dock, switches OBS to the
CHZZK ingest with the account's stream key, and shows the stream as a
Discord Rich Presence.

The decisions of the plugin live in `src/`, a library verified with Verus:

- `text`, `json`: character-level helpers and a plain JSON model.
- `chzzk`: the CHZZK API requests, as values, and the readers of the answers.
- `oauth_server`, `oauth`: the OAuth callback check and the linking flow's checks.
- `settings`, `storage`: the settings model, the dialog's values, the settings file.
- `live_dock`, `dock_payload`: the live-setting dock's state and its JSON answers.
- `presence`, `discord`: the Discord activity, IPC frames, and the presence worker's
  state machine.
- `logging`, `plugin`, `system`: log lines and error popups, the module's
  frontend events and the delayed presence start, the clock and random source.

`app/` holds what talks to the outside: the OBS C exports and callbacks, HTTP
through `ureq`, JSON text through `serde_json`, the callback listener, the
Discord socket, threads, and the settings file on disk.
