# cex_board

A dashboard server for the Upbit exchange, with the logic verified in Verus.

- `src/` — the verified library: JWT claims and query hashing (`auth`), API-key
  normalisation, request URLs and the `Authorization` header (`client`), order
  and query validation and the browser-socket decisions (`web`), the Upbit
  websocket subscription, frame handling and reconnection back-off
  (`websocket`), settings (`config`), market types (`model`, `constants`) and
  text helpers (`text`).
- `app/` — the server program: HTTP calls, JSON (de)serialisation, the axum
  routes and the websocket I/O loops, driven by the library's decisions.
- `tests/` — tests of the library.
