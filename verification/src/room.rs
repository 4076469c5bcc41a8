//! Room: a single cell in the CellGraph.
//!
//! Each room has one mono-vibe, a JEPA instance for prediction, and its
//! last surprise value; vibe and surprise are held by their binary64 bit
//! patterns.

use vstd::prelude::*;
use crate::jepa::{Jepa, fresh_view, clamp_window};
use crate::JEPA_WINDOW;

verus! {

/// A room in the grand pattern: one vibe, one JEPA, bounded memory.
#[derive(Clone, Copy)]
pub struct Room {
    /// Room identifier (0-255).
    pub id: u8,
    /// Bit pattern of the current mono-vibe value.
    pub vibe: u64,
    /// JEPA predictor for this room.
    pub jepa: Jepa,
    /// Bit pattern of the last prediction error (surprise); starts at +0.0.
    pub last_surprise: u64,
}

impl Room {
    /// Whether this is a room as created with this id, vibe and predictor
    /// window: an empty predictor and a surprise of +0.0.
    pub open spec fn is_fresh(self, id: u8, vibe: u64, window: nat) -> bool {
        &&& self.id == id
        &&& self.vibe == vibe
        &&& self.jepa@ == fresh_view(window)
        &&& self.last_surprise == 0
    }

    /// Create a new room with the given ID and initial vibe.
    pub fn new(id: u8, vibe: u64) -> (r: Self)
        ensures
            r.is_fresh(id, vibe, JEPA_WINDOW as nat),
    {
        Self { id, vibe, jepa: Jepa::new(), last_surprise: 0 }
    }

    /// Create a room with a custom JEPA window size, clamped to
    /// `1..=JEPA_WINDOW`.
    pub fn with_window(id: u8, vibe: u64, window: usize) -> (r: Self)
        ensures
            r.is_fresh(id, vibe, clamp_window(window) as nat),
    {
        Self { id, vibe, jepa: Jepa::with_window(window), last_surprise: 0 }
    }

    /// Set the vibe directly.
    pub fn set_vibe(&mut self, vibe: u64)
        ensures
            *final(self) == (Room { vibe, ..*old(self) }),
    {
        self.vibe = vibe;
    }
}

} // verus!
