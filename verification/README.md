# grand_pattern_embedded

Grand Pattern for microcontrollers: fixed memory, no heap. Rooms with one
vibe each live in a `CellGraph` (up to 32 rooms and 64 edges), every room
keeps a sliding-window JEPA predictor (up to 16 readings), and room state
travels as 32-byte `Murmur` gossip messages.

## Layout

- `src/` is the verified library, checked by Verus. Vibes, weights and
  surprises are binary64 values; the library only stores, moves and
  serializes them, so it holds each one by its 64-bit pattern
  (`f64::to_bits` / `f64::from_bits`).
  - `graph.rs`: rooms and edges, lookups, capacity and duplicate checks,
    and the invariant that every operation keeps.
  - `jepa.rs`: the predictor's window: which readings are kept, in which
    slot, and which are dropped.
  - `room.rs`, `murmur.rs` (wire layout and its round trip), `gossip.rs`
    (murmur generation, processing and filtering), `transport.rs`.
- `app/` holds the binary64 arithmetic on top of it: prediction and weight
  learning, diffusion, graph ticks, fleet statistics and the surprise test.
- `tests/` exercises the library from outside.

## Usage

```rust
use grand_pattern_embedded::{gossip, CellGraph, MAX_ROOMS};

let mut graph = CellGraph::new();
graph.add_room(1, 42.0f64.to_bits());
graph.add_room(2, 0.0f64.to_bits());
graph.add_edge(1, 2, 0.5f64.to_bits());

let mut murmurs = [None; MAX_ROOMS];
let count = gossip::generate_murmurs(&graph, &mut murmurs);
let bytes = murmurs[0].unwrap().to_bytes();
```
