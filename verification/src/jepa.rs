//! Joint-Embedding Predictive Architecture (JEPA) for embedded systems.
//!
//! Fixed-size, no-heap storage with a configurable window: a sliding window
//! of tick-stamped readings, each with a prediction weight.
//!
//! Readings and weights are binary64 values held by their 64-bit patterns.
//! This module keeps the window: which readings are stored, in which slot,
//! and which are dropped. The weighted prediction and the weight updates
//! are arithmetic on those values and are done by the caller between
//! [`Jepa::evict_oldest_if_full`] and [`Jepa::push_reading`].

use vstd::prelude::*;
use crate::JEPA_WINDOW;

verus! {

/// Bit pattern of the binary64 value 1.0, the weight of a new reading.
pub const UNIT_WEIGHT: u64 = 0x3FF0_0000_0000_0000u64;

/// A minimal JEPA with fixed-size arrays.
///
/// Stores up to `JEPA_WINDOW` readings, each tagged with a tick timestamp.
#[derive(Clone, Copy)]
pub struct Jepa {
    /// Stored readings: (tick, value bits) pairs. `None` means empty slot.
    pub readings: [Option<(u32, u64)>; JEPA_WINDOW],
    /// Bit patterns of the prediction weights, one per reading slot.
    pub weights: [u64; JEPA_WINDOW],
    /// Current window size (how many slots are actually used).
    pub window: usize,
    /// Number of readings currently stored.
    pub count: usize,
}

/// The abstract state of a [`Jepa`].
#[verifier::ext_equal]
pub struct JepaView {
    pub readings: Seq<Option<(u32, u64)>>,
    pub weights: Seq<u64>,
    pub window: nat,
    pub count: nat,
}

impl View for Jepa {
    type V = JepaView;

    open spec fn view(&self) -> JepaView {
        JepaView {
            readings: self.readings@,
            weights: self.weights@,
            window: self.window as nat,
            count: self.count as nat,
        }
    }
}

/// The window size that `with_window` settles on: at least 1, at most
/// `JEPA_WINDOW`.
pub open spec fn clamp_window(window: usize) -> usize {
    if window == 0 {
        1
    } else if window > JEPA_WINDOW {
        JEPA_WINDOW
    } else {
        window
    }
}

/// A JEPA with no readings, unit weights and the given window.
pub open spec fn fresh_view(window: nat) -> JepaView {
    JepaView {
        readings: Seq::new(JEPA_WINDOW as nat, |i: int| None),
        weights: Seq::new(JEPA_WINDOW as nat, |i: int| UNIT_WEIGHT),
        window,
        count: 0,
    }
}

/// `s` with the entries at `1..w` moved one slot down; the rest unchanged.
pub open spec fn shift_down<A>(s: Seq<A>, w: nat) -> Seq<A> {
    Seq::new(s.len(), |i: int| if i + 1 < w { s[i + 1] } else { s[i] })
}

/// The first half of a learning step: when the window is full, the oldest
/// reading is dropped and the others move down one slot.
pub open spec fn evict_step(v: JepaView) -> JepaView {
    if v.count >= v.window {
        JepaView {
            readings: shift_down(v.readings, v.window),
            weights: shift_down(v.weights, v.window),
            window: v.window,
            count: if v.window == 0 { 0 } else { (v.window - 1) as nat },
        }
    } else {
        v
    }
}

/// The second half of a learning step: the reading goes into the next free
/// slot with unit weight, when a slot is free.
pub open spec fn push_step(v: JepaView, tick: u32, value: u64) -> JepaView {
    if v.count < JEPA_WINDOW {
        JepaView {
            readings: v.readings.update(v.count as int, Some((tick, value))),
            weights: v.weights.update(v.count as int, UNIT_WEIGHT),
            window: v.window,
            count: v.count + 1,
        }
    } else {
        v
    }
}

/// Trimming: when more readings are stored than the window holds, only the
/// most recent `window` readings stay, moved to the front; the freed slots
/// are cleared.
pub open spec fn trim_step(v: JepaView) -> JepaView {
    if v.count > v.window {
        let excess = v.count - v.window;
        JepaView {
            readings: Seq::new(
                v.readings.len(),
                |i: int|
                    if i < v.window {
                        v.readings[i + excess]
                    } else if i < v.count {
                        None
                    } else {
                        v.readings[i]
                    },
            ),
            weights: Seq::new(
                v.weights.len(),
                |i: int|
                    if i < v.window {
                        v.weights[i + excess]
                    } else if i < v.count {
                        UNIT_WEIGHT
                    } else {
                        v.weights[i]
                    },
            ),
            window: v.window,
            count: v.window,
        }
    } else {
        v
    }
}

/// The value of the most recent reading, if any.
pub open spec fn last_value_of(v: JepaView) -> Option<u64> {
    if v.count > 0 {
        match v.readings[v.count - 1] {
            Some((_, x)) => Some(x),
            None => None,
        }
    } else {
        None
    }
}

impl JepaView {
    /// The state that the JEPA operations keep: a window of 1 to
    /// `JEPA_WINDOW` slots holding at most `window` readings, every used
    /// slot filled.
    pub open spec fn well_formed(self) -> bool {
        &&& self.readings.len() == JEPA_WINDOW
        &&& self.weights.len() == JEPA_WINDOW
        &&& 1 <= self.window <= JEPA_WINDOW
        &&& self.count <= self.window
        &&& forall|i: int| 0 <= i < self.count ==> (#[trigger] self.readings[i]) is Some
    }
}

/// A learning step keeps the JEPA well formed, whatever the weights were
/// set to between its two halves. The window then holds the most recent
/// readings, oldest first, ending with the new one: one more reading than
/// before, or as many as before when the window was full.
pub proof fn lemma_learn_step(v: JepaView, weights: Seq<u64>, tick: u32, value: u64)
    requires
        v.well_formed(),
        weights.len() == JEPA_WINDOW,
    ensures
        ({
            let e = evict_step(v);
            let n = push_step(JepaView { weights, ..e }, tick, value);
            &&& e.count < e.window
            &&& n.well_formed()
            &&& n.window == v.window
            &&& n.count == (if v.count < v.window { v.count + 1 } else { v.count })
            &&& last_value_of(n) == Some(value)
            &&& n.readings.subrange(0, n.count as int) == v.readings.subrange(
                v.count + 1 - n.count,
                v.count as int,
            ).push(Some((tick, value)))
        }),
{
    let e = evict_step(v);
    let n = push_step(JepaView { weights, ..e }, tick, value);
    assert(n.readings.subrange(0, n.count as int) =~= v.readings.subrange(
        v.count + 1 - n.count,
        v.count as int,
    ).push(Some((tick, value))));
}

/// Trimming a JEPA with a window of at least one slot leaves it well formed,
/// holding the most recent readings.
pub proof fn lemma_trim_well_formed(v: JepaView)
    requires
        v.readings.len() == JEPA_WINDOW,
        v.weights.len() == JEPA_WINDOW,
        1 <= v.window <= JEPA_WINDOW,
        v.count <= JEPA_WINDOW,
        forall|i: int| 0 <= i < v.count ==> (#[trigger] v.readings[i]) is Some,
    ensures
        trim_step(v).well_formed(),
        trim_step(v).count == if v.count < v.window { v.count } else { v.window },
        trim_step(v).readings.subrange(0, trim_step(v).count as int) == v.readings.subrange(
            v.count - trim_step(v).count,
            v.count as int,
        ),
{
    let t = trim_step(v);
    assert(t.readings.subrange(0, t.count as int) =~= v.readings.subrange(
        v.count - t.count,
        v.count as int,
    ));
}

/// Evicting from a full window drops the oldest reading: every kept reading
/// moves one slot down together with its own weight, the count becomes one
/// less than the window, and the slots from `window - 1` up are untouched.
/// With room left in the window nothing changes.
pub proof fn lemma_evict_moves_readings_with_weights(v: JepaView)
    requires
        v.readings.len() == JEPA_WINDOW,
        v.weights.len() == JEPA_WINDOW,
        1 <= v.window <= JEPA_WINDOW,
    ensures
        ({
            let e = evict_step(v);
            &&& e.window == v.window
            &&& e.readings.len() == JEPA_WINDOW
            &&& e.weights.len() == JEPA_WINDOW
            &&& v.count >= v.window ==> {
                &&& e.count + 1 == v.window
                &&& forall|i: int|
                    0 <= i && i + 1 < v.window ==> e.readings[i] == v.readings[i + 1]
                        && e.weights[i] == v.weights[i + 1]
                &&& forall|i: int|
                    v.window - 1 <= i < JEPA_WINDOW ==> e.readings[i] == v.readings[i]
                        && e.weights[i] == v.weights[i]
            }
            &&& v.count < v.window ==> e == v
        }),
{
}

/// Pushing a reading into a free slot puts it, with unit weight, in slot
/// `count` and counts it; every other slot keeps its reading and weight.
/// With no free slot nothing changes.
pub proof fn lemma_push_fills_next_slot(v: JepaView, tick: u32, value: u64)
    requires
        v.readings.len() == JEPA_WINDOW,
        v.weights.len() == JEPA_WINDOW,
    ensures
        ({
            let n = push_step(v, tick, value);
            &&& v.count < JEPA_WINDOW ==> {
                &&& n.count == v.count + 1
                &&& n.window == v.window
                &&& n.readings[v.count as int] == Some((tick, value))
                &&& n.weights[v.count as int] == UNIT_WEIGHT
                &&& n.readings.len() == JEPA_WINDOW
                &&& n.weights.len() == JEPA_WINDOW
                &&& forall|i: int|
                    0 <= i < JEPA_WINDOW && i != v.count ==> n.readings[i] == v.readings[i]
                        && n.weights[i] == v.weights[i]
            }
            &&& v.count >= JEPA_WINDOW ==> n == v
        }),
{
}

/// Trimming keeps the `window` most recent readings, each with its own
/// weight: slot `i` below the window gets the reading and the weight of old
/// slot `i + count - window`; the freed slots up to the old count are
/// cleared to no reading and unit weight; the slots above are untouched.
/// Within the window nothing changes.
pub proof fn lemma_trim_keeps_recent_with_weights(v: JepaView)
    requires
        v.readings.len() == JEPA_WINDOW,
        v.weights.len() == JEPA_WINDOW,
        v.count <= JEPA_WINDOW,
    ensures
        ({
            let t = trim_step(v);
            &&& t.window == v.window
            &&& t.readings.len() == JEPA_WINDOW
            &&& t.weights.len() == JEPA_WINDOW
            &&& v.count > v.window ==> {
                &&& t.count == v.window
                &&& forall|i: int|
                    0 <= i < v.window ==> t.readings[i] == v.readings[i + v.count - v.window]
                        && t.weights[i] == v.weights[i + v.count - v.window]
                &&& forall|i: int|
                    v.window <= i < v.count ==> t.readings[i] is None && t.weights[i]
                        == UNIT_WEIGHT
                &&& forall|i: int|
                    v.count <= i < JEPA_WINDOW ==> t.readings[i] == v.readings[i] && t.weights[i]
                        == v.weights[i]
            }
            &&& v.count <= v.window ==> t == v
        }),
{
}

/// A fresh JEPA has no reading and unit weight in every slot, no readings
/// counted, and the given window.
pub proof fn lemma_fresh_slots(window: nat)
    ensures
        fresh_view(window).readings.len() == JEPA_WINDOW,
        fresh_view(window).weights.len() == JEPA_WINDOW,
        forall|i: int|
            0 <= i < JEPA_WINDOW ==> fresh_view(window).readings[i] is None && fresh_view(
                window,
            ).weights[i] == UNIT_WEIGHT,
        fresh_view(window).count == 0,
        fresh_view(window).window == window,
        last_value_of(fresh_view(window)) is None,
{
}

/// The window that `with_window` settles on lies in `1..=JEPA_WINDOW` and is
/// the requested one whenever that does.
pub proof fn lemma_clamp_window(window: usize)
    ensures
        1 <= clamp_window(window) <= JEPA_WINDOW,
        1 <= window <= JEPA_WINDOW ==> clamp_window(window) == window,
        window == 0 ==> clamp_window(window) == 1,
        window > JEPA_WINDOW ==> clamp_window(window) == JEPA_WINDOW,
{
}

/// The last value is the value of the reading in slot `count - 1`, and there
/// is none when no reading is counted.
pub proof fn lemma_last_value(v: JepaView, tick: u32, value: u64)
    ensures
        v.count == 0 ==> last_value_of(v) is None,
        v.count > 0 && v.readings[v.count - 1] == Some((tick, value)) ==> last_value_of(v) == Some(
            value,
        ),
        v.count > 0 && v.readings[v.count - 1] is None ==> last_value_of(v) is None,
{
}

impl Jepa {
    /// Create a new JEPA with default weights (uniform) and the full window.
    pub fn new() -> (r: Self)
        ensures
            r@ == fresh_view(JEPA_WINDOW as nat),
    {
        let r = Self {
            readings: [None; JEPA_WINDOW],
            weights: [UNIT_WEIGHT; JEPA_WINDOW],
            window: JEPA_WINDOW,
            count: 0,
        };
        assert(r@ =~= fresh_view(JEPA_WINDOW as nat));
        r
    }

    /// Create a JEPA with a custom window size, clamped to `1..=JEPA_WINDOW`.
    pub fn with_window(window: usize) -> (r: Self)
        ensures
            r@ == fresh_view(clamp_window(window) as nat),
    {
        let w = if window == 0 {
            1
        } else if window > JEPA_WINDOW {
            JEPA_WINDOW
        } else {
            window
        };
        let r = Self {
            readings: [None; JEPA_WINDOW],
            weights: [UNIT_WEIGHT; JEPA_WINDOW],
            window: w,
            count: 0,
        };
        assert(r@ =~= fresh_view(clamp_window(window) as nat));
        r
    }

    /// First half of learning a new reading: when the window is full, drop
    /// the oldest reading and move the others down one slot.
    pub fn evict_oldest_if_full(&mut self)
        requires
            old(self).count >= old(self).window ==> old(self).window <= JEPA_WINDOW,
        ensures
            final(self)@ == evict_step(old(self)@),
    {
        if self.count >= self.window {
            let ghost r0 = self.readings@;
            let ghost w0 = self.weights@;
            let last = self.window.saturating_sub(1);
            for i in 0..last
                invariant
                    last + 1 == self.window || (last == 0 && self.window == 0),
                    self.window <= JEPA_WINDOW,
                    forall|j: int| 0 <= j < i ==> self.readings@[j] == r0[j + 1],
                    forall|j: int| i <= j < JEPA_WINDOW ==> self.readings@[j] == r0[j],
                    forall|j: int| 0 <= j < i ==> self.weights@[j] == w0[j + 1],
                    forall|j: int| i <= j < JEPA_WINDOW ==> self.weights@[j] == w0[j],
                    old(self).window == self.window,
                    old(self).count == self.count,
                    r0 == old(self).readings@,
                    w0 == old(self).weights@,
            {
                self.readings[i] = self.readings[i + 1];
                self.weights[i] = self.weights[i + 1];
            }
            self.count = last;
            assert(self.readings@ =~= shift_down(r0, old(self).window as nat));
            assert(self.weights@ =~= shift_down(w0, old(self).window as nat));
        }
    }

    /// Second half of learning a new reading: store it with unit weight in
    /// the next free slot, if there is one.
    pub fn push_reading(&mut self, tick: u32, value: u64)
        ensures
            final(self)@ == push_step(old(self)@, tick, value),
    {
        if self.count < JEPA_WINDOW {
            self.readings[self.count] = Some((tick, value));
            self.weights[self.count] = UNIT_WEIGHT;
            self.count += 1;
        }
    }

    /// Trim readings to fit within the current window.
    pub fn trim(&mut self)
        requires
            old(self).count > old(self).window ==> old(self).count <= JEPA_WINDOW,
        ensures
            final(self)@ == trim_step(old(self)@),
    {
        if self.count > self.window {
            let ghost r0 = self.readings@;
            let ghost w0 = self.weights@;
            let w = self.window;
            let c = self.count;
            let excess = c - w;
            for i in 0..w
                invariant
                    w == self.window,
                    c == self.count,
                    excess == c - w,
                    c <= JEPA_WINDOW,
                    w < c,
                    forall|j: int| 0 <= j < i ==> self.readings@[j] == r0[j + excess],
                    forall|j: int| i <= j < JEPA_WINDOW ==> self.readings@[j] == r0[j],
                    forall|j: int| 0 <= j < i ==> self.weights@[j] == w0[j + excess],
                    forall|j: int| i <= j < JEPA_WINDOW ==> self.weights@[j] == w0[j],
                    old(self).window == w,
                    old(self).count == c,
                    r0 == old(self).readings@,
                    w0 == old(self).weights@,
            {
                self.readings[i] = self.readings[i + excess];
                self.weights[i] = self.weights[i + excess];
            }
            for i in w..c
                invariant
                    w == self.window,
                    c == self.count,
                    excess == c - w,
                    c <= JEPA_WINDOW,
                    w < c,
                    forall|j: int| 0 <= j < w ==> self.readings@[j] == r0[j + excess],
                    forall|j: int| w <= j < i ==> self.readings@[j] is None,
                    forall|j: int| i <= j < JEPA_WINDOW ==> self.readings@[j] == r0[j],
                    forall|j: int| 0 <= j < w ==> self.weights@[j] == w0[j + excess],
                    forall|j: int| w <= j < i ==> self.weights@[j] == UNIT_WEIGHT,
                    forall|j: int| i <= j < JEPA_WINDOW ==> self.weights@[j] == w0[j],
                    old(self).window == w,
                    old(self).count == c,
                    r0 == old(self).readings@,
                    w0 == old(self).weights@,
            {
                self.readings[i] = None;
                self.weights[i] = UNIT_WEIGHT;
            }
            self.count = self.window;
            assert(self.readings@ =~= trim_step(old(self)@).readings);
            assert(self.weights@ =~= trim_step(old(self)@).weights);
        }
    }

    /// Reset to initial state; the window is kept.
    pub fn reset(&mut self)
        ensures
            final(self)@ == fresh_view(old(self).window as nat),
    {
        self.readings = [None; JEPA_WINDOW];
        self.weights = [UNIT_WEIGHT; JEPA_WINDOW];
        self.count = 0;
        assert(self@ =~= fresh_view(old(self).window as nat));
    }

    /// Get the last stored reading value, if any.
    pub fn last_value(&self) -> (r: Option<u64>)
        requires
            self.count <= JEPA_WINDOW,
        ensures
            r == last_value_of(self@),
    {
        if self.count > 0 {
            match self.readings[self.count - 1] {
                Some((_, v)) => Some(v),
                None => None,
            }
        } else {
            None
        }
    }
}

impl Default for Jepa {
    fn default() -> (r: Self)
        ensures
            r@ == fresh_view(JEPA_WINDOW as nat),
    {
        Self::new()
    }
}

} // verus!
