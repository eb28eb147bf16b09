# alvr_session

The session and settings data of a streaming server, with its logic verified by
[Verus](https://github.com/verus-lang/verus).

A session is stored as JSON. When the server starts, the stored session is read
back. Where it was written by another version, as much of it as possible is
carried over: the settings cache is matched, name by name and kind by kind,
against the schema of the current settings.

- `src/json.rs`: JSON values and their mathematical model.
- `src/parse.rs`: reading JSON text, through `serde_json`.
- `src/schema.rs`: the settings schema.
- `src/extrapolation.rs`: carrying a settings cache over to the schema.
- `src/settings.rs`: reading the settings off a settings cache.
- `src/conformance.rs`: what holds of caches that have the shape of the schema,
  and which parts of a cache have a say in the settings.
- `src/session.rs`: the session, and merging a stored one into it.
- `src/manager.rs`: the holder of the session while the server runs.
- `app/`: files, logging, and the serde format of the data.
