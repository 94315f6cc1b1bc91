# game_server

A small multiplayer game server over WebSockets, with its world verified in Verus.

- `src/` — the verified library: the world state (`game`), the per-connection
  frame handling (`connection`), the message types (`types`), the `tokio`
  channel handles it sends through (`channels`) and the laws that hold across
  events and frames (`laws`).
- `app/` — the server program: sockets, the async runtime, JSON encoding and
  logging, plus three small test clients (`ping-client`, `join-client`,
  `join-client-v2` as first argument).
- `tests/` — tests of the library on concrete values.
