# lurk_sansio

A sans-IO game engine for the Lurk protocol, written in Verus.

The engine (`GameEngine`) holds the game world in memory and performs no IO:
the event loop feeds it `Input` events and drains the `Output` events it
queues. Every handler's effect on the players, the rooms and the output queue
is stated as a contract over the views of the state and proved.

Layout:

- `src/engine.rs` and `src/engine/`: the engine, its view, one module per input.
- `src/model.rs`: the lookups and room bookkeeping the contracts are written in.
- `src/laws.rs`: properties of all inputs (determinism of whole runs, what
  every input keeps), of a fight's target, of refused loots, of a move and
  its return, and of draining the output queue.
- `src/state.rs`, `src/input.rs`, `src/output.rs`, `src/types.rs`: the data.
- `src/protocol.rs`, `src/roster.rs`: the trusted calls into `lurk_protocol`
  and `indexmap`.
- `app/`: serde-enabled copies of the public types and a checked entry point.
