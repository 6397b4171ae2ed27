# paint_game

A shared painting board: every painter connected over a websocket sees the
strokes of all the others, and a newcomer first receives every stroke drawn so
far, which a Redis stream keeps.

- `src/` is the verified library (Verus): the registry of connected painters,
  the per-connection session logic (replay on arrival, relay of each stroke,
  departure), the stream entries that record strokes, the painter id text, and
  the Redis connection URL.
- `app/` is the server around it: warp routes, websockets, the Redis
  connection and its commands, and a small simulated painter
  (`cargo run -- simulate`).
- `tests/` exercises the library.
