# liminality

A resource-flow world model and a simulation engine for transformer lines
(a furnace smelting ore into ingots with coal, and the like), verified with
Verus.

- `src/id_map.rs` — identifier-keyed maps whose abstract value is a `Map`.
- `src/model/` — identifiers, amounts and storage ledgers, resource filters,
  nodes, edges, contracts, the world registry, and the furnace-line summary.
- `src/engine/` — the engine: its data (`types`), the mathematical model of
  a tick, a debug-tick run and a prediction (`spec`), the second-by-second
  step (`debug`), the closed-form prediction (`predict`), queries and
  commits (`simulation`), the furnace-line demo (`furnace`) and the
  properties every query keeps (`laws`).
- `src/protocol.rs` — the messages that clients and the daemon exchange.
- `app/` — the daemon: command line, HTTP routes and JSON bodies.
