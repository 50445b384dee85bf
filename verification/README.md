# ws_heartbeat

The logic of a WebSocket heartbeat test server, verified with Verus.

- `src/` — the verified library: the console command registry (lookup,
  primary-name listing, help rendering and its TTL cache), the payload
  commands read from `commands.toml`, the console line classification, and
  the per-connection decisions (heartbeats, forwarding, control commands,
  client frames). JSON is handled by `serde_json` behind a few trusted
  wrappers in `src/json.rs`.
- `app/` — the server around it: configuration and command files, the axum
  WebSocket endpoint, the stdin reader and the channels that carry the
  effects the library asks for.
- `tests/` — tests of the library on concrete values.
