# coinamics_ws

A websocket relay: browsers connect to `/broker/pair/interval`, join the room
of that exchange stream, and receive the candles the exchange publishes,
normalised to one JSON shape.

- `src/` is the verified library:
  - `exchange` — stream addresses and room identifiers;
  - `ticks` — text renderings of ticks and candles;
  - `client` — reading Binance and HitBTC messages (`get_universal_msg`),
    skipping repeated candles, and relaying them to a room;
  - `rooms`, `server` — connected users, room numbering and membership, and
    what opening or closing a browser connection does;
  - `json`, `datetime`, `credentials`, `text` — the calls into `serde_json`,
    `chrono`, `openssl` and std, with their contracts, and text helpers;
  - `strmap` — a map keyed by text;
  - `laws` — properties spanning several operations.
- `app/` is the program around it: TLS, the `ws` handlers, threads and I/O.
- `tests/` exercises the library on concrete messages.
