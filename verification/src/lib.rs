//! Grand Pattern for microcontrollers and embedded systems.
//!
//! Fixed-size data structures with no heap allocation: rooms connected in a
//! cell graph, a sliding-window predictor per room, and small fixed-size
//! gossip messages.
//!
//! A vibe is an IEEE-754 binary64 value. This library never does arithmetic
//! on vibes: it stores, moves and serializes them, so it holds each one by
//! its 64-bit pattern (`to_bits` / `from_bits`), which keeps every value
//! exactly as it was given.

pub mod gossip;
pub mod graph;
pub mod jepa;
pub mod murmur;
pub mod room;
pub mod transport;

pub use graph::CellGraph;
pub use jepa::Jepa;
pub use murmur::Murmur;
pub use room::Room;

use vstd::prelude::*;

verus! {

/// Maximum number of rooms in a CellGraph.
pub const MAX_ROOMS: usize = 32;

/// Maximum number of edges in a CellGraph.
pub const MAX_EDGES: usize = 64;

/// Maximum number of readings stored in JEPA.
pub const JEPA_WINDOW: usize = 16;

/// Maximum murmur payload size in bytes.
pub const MURMUR_SIZE: usize = 32;

} // verus!
