//! CellGraph: the core data structure for the Grand Pattern on embedded.
//!
//! Fixed-size arrays for rooms and edges; no heap allocation. Rooms fill
//! the slots `0..room_count` in the order they were added, edges the slots
//! `0..edge_count`. Vibes and edge weights are held by their binary64 bit
//! patterns.

use vstd::prelude::*;
use crate::room::Room;
use crate::{JEPA_WINDOW, MAX_EDGES, MAX_ROOMS};

verus! {

/// A graph of rooms connected by weighted edges.
///
/// All storage is fixed-size arrays: no Vec, no heap.
pub struct CellGraph {
    /// Rooms stored in fixed array. `None` means empty slot.
    pub rooms: [Option<Room>; MAX_ROOMS],
    /// Edges: (from_id, to_id, weight bits).
    pub edges: [(u8, u8, u64); MAX_EDGES],
    /// Number of occupied room slots.
    pub room_count: u8,
    /// Number of occupied edge slots.
    pub edge_count: u8,
    /// Global tick counter.
    pub tick_count: u32,
}

impl CellGraph {
    /// Slot `i` holds the room with this id.
    pub open spec fn slot_holds(self, i: int, id: u8) -> bool {
        0 <= i < MAX_ROOMS && match self.rooms@[i] {
            Some(r) => r.id == id,
            None => false,
        }
    }

    /// The first slot below `n` that holds the room with this id.
    pub open spec fn find_below(self, id: u8, n: int) -> Option<int>
        decreases n,
    {
        if n <= 0 {
            None
        } else {
            match self.find_below(id, n - 1) {
                Some(i) => Some(i),
                None => if self.slot_holds(n - 1, id) {
                    Some(n - 1)
                } else {
                    None
                },
            }
        }
    }

    /// The first occupied slot that holds the room with this id.
    pub open spec fn find_spec(self, id: u8) -> Option<int> {
        self.find_below(id, self.room_count as int)
    }

    /// Looking this id up stays within the room array: the room count is in
    /// range, or a slot of the array holds the id before the end is reached.
    pub open spec fn lookup_in_range(self, id: u8) -> bool {
        self.room_count <= MAX_ROOMS || self.find_below(id, MAX_ROOMS as int) is Some
    }

    /// The graph has a room with this id.
    pub open spec fn has_room(self, id: u8) -> bool {
        self.find_spec(id) is Some
    }

    /// The room with this id, as `find_room` finds it.
    pub open spec fn room_of(self, id: u8) -> Room
        recommends
            self.has_room(id),
    {
        self.rooms@[self.find_spec(id)->0]->0
    }

    /// The vibe of the room with this id, if there is one.
    pub open spec fn vibe_of(self, id: u8) -> Option<u64> {
        if self.has_room(id) {
            Some(self.room_of(id).vibe)
        } else {
            None
        }
    }

    /// The state every operation keeps: at most `MAX_ROOMS` rooms in the
    /// slots `0..room_count` and none above, unique ids, a well-formed
    /// predictor in each room, and at most `MAX_EDGES` edges, each joining
    /// two distinct rooms of the graph.
    pub open spec fn well_formed(self) -> bool {
        &&& self.room_count <= MAX_ROOMS
        &&& self.edge_count <= MAX_EDGES
        &&& forall|i: int| 0 <= i < self.room_count ==> (#[trigger] self.rooms@[i]) is Some
        &&& forall|i: int| self.room_count <= i < MAX_ROOMS ==> (#[trigger] self.rooms@[i]) is None
        &&& forall|i: int|
            0 <= i < self.room_count ==> (#[trigger] self.rooms@[i])->0.jepa@.well_formed()
        &&& forall|i: int, j: int|
            0 <= i < j < self.room_count ==> (#[trigger] self.rooms@[i])->0.id != (
            #[trigger] self.rooms@[j])->0.id
        &&& forall|e: int|
            0 <= e < self.edge_count ==> {
                let (a, b, _) = #[trigger] self.edges@[e];
                &&& a != b
                &&& self.has_room(a)
                &&& self.has_room(b)
            }
    }
}

/// `find_below` gives the first slot below `n` that holds the id, and none
/// when no slot below `n` does.
pub proof fn lemma_find_below(g: CellGraph, id: u8, n: int)
    ensures
        match g.find_below(id, n) {
            Some(i) => {
                &&& 0 <= i < n
                &&& g.slot_holds(i, id)
                &&& forall|j: int| 0 <= j < i ==> !#[trigger] g.slot_holds(j, id)
            },
            None => forall|j: int| 0 <= j < n ==> !#[trigger] g.slot_holds(j, id),
        },
    decreases n,
{
    if n > 0 {
        lemma_find_below(g, id, n - 1);
    }
}

/// Two graphs whose slots below `n` hold the same id find it in the same slot.
proof fn lemma_find_below_frame(g1: CellGraph, g2: CellGraph, id: u8, n: int)
    requires
        forall|j: int| 0 <= j < n ==> g1.slot_holds(j, id) == g2.slot_holds(j, id),
    ensures
        g1.find_below(id, n) == g2.find_below(id, n),
    decreases n,
{
    if n > 0 {
        lemma_find_below_frame(g1, g2, id, n - 1);
    }
}

/// A new graph is empty and well formed.
pub proof fn lemma_new_graph(g: CellGraph)
    requires
        g.is_fresh(),
    ensures
        g.well_formed(),
        forall|id: u8| !g.has_room(id),
{
}

/// In a well-formed graph the vibe found for an id is the vibe of the room
/// with that id among the occupied slots, and there is none when no
/// occupied slot holds a room with that id.
pub proof fn lemma_vibe_of_well_formed(g: CellGraph, id: u8)
    requires
        g.well_formed(),
    ensures
        forall|i: int|
            0 <= i < g.room_count && (#[trigger] g.rooms@[i])->0.id == id ==> g.vibe_of(id) == Some(
                g.rooms@[i]->0.vibe,
            ),
        g.vibe_of(id) is None <==> forall|i: int|
            0 <= i < g.room_count ==> (#[trigger] g.rooms@[i])->0.id != id,
{
    lemma_find_below(g, id, g.room_count as int);
    assert forall|i: int|
        0 <= i < g.room_count && (#[trigger] g.rooms@[i])->0.id == id implies g.vibe_of(id) == Some(
        g.rooms@[i]->0.vibe,
    ) by {
        assert(g.slot_holds(i, id));
        let f = g.find_spec(id)->0;
        assert(g.slot_holds(f, id));
        if f != i {
            assert(g.rooms@[f]->0.id == g.rooms@[i]->0.id);
        }
    }
    if g.vibe_of(id) is None {
        assert forall|i: int| 0 <= i < g.room_count implies (#[trigger] g.rooms@[i])->0.id != id by {
            if g.rooms@[i]->0.id == id {
                assert(g.slot_holds(i, id));
            }
        }
    }
}

impl CellGraph {
    /// No rooms, no edges, tick zero.
    pub open spec fn is_fresh(self) -> bool {
        &&& forall|i: int| 0 <= i < MAX_ROOMS ==> (#[trigger] self.rooms@[i]) is None
        &&& forall|e: int| 0 <= e < MAX_EDGES ==> #[trigger] self.edges@[e] == (0u8, 0u8, 0u64)
        &&& self.room_count == 0
        &&& self.edge_count == 0
        &&& self.tick_count == 0
    }

    /// Create a new empty CellGraph.
    pub fn new() -> (g: Self)
        ensures
            g.is_fresh(),
            g.well_formed(),
    {
        // Written out: an array fill of a struct type gives Verus nothing
        // to know the slots by.
        let slots: [Option<Room>; MAX_ROOMS] = [
            None,
            None,
            None,
            None,
            None,
            None,
            None,
            None,
            None,
            None,
            None,
            None,
            None,
            None,
            None,
            None,
            None,
            None,
            None,
            None,
            None,
            None,
            None,
            None,
            None,
            None,
            None,
            None,
            None,
            None,
            None,
            None,
        ];
        let g = Self {
            rooms: slots,
            edges: [(0, 0, 0); MAX_EDGES],
            room_count: 0,
            edge_count: 0,
            tick_count: 0,
        };
        assert(g.rooms@ =~= Seq::new(MAX_ROOMS as nat, |i: int| None::<Room>));
        assert(g.edges@ =~= Seq::new(MAX_EDGES as nat, |i: int| (0u8, 0u8, 0u64)));
        g
    }

    /// Find the index of a room by ID: the first occupied slot holding it.
    pub fn find_room(&self, id: u8) -> (r: Option<usize>)
        requires
            self.lookup_in_range(id),
        ensures
            match r {
                Some(i) => self.find_spec(id) == Some(i as int),
                None => self.find_spec(id) is None,
            },
    {
        let n = self.room_count as usize;
        for i in 0..n
            invariant
                n == self.room_count,
                self.lookup_in_range(id),
                forall|j: int| 0 <= j < i ==> !#[trigger] self.slot_holds(j, id),
        {
            proof {
                if i >= MAX_ROOMS {
                    lemma_find_below(*self, id, MAX_ROOMS as int);
                }
            }
            match &self.rooms[i] {
                Some(room) => {
                    if room.id == id {
                        assert(self.slot_holds(i as int, id));
                        proof {
                            lemma_find_below(*self, id, n as int);
                        }
                        return Some(i);
                    }
                },
                None => {},
            }
        }
        proof {
            lemma_find_below(*self, id, n as int);
        }
        None
    }

    /// Add a room. Returns false if at capacity or duplicate ID.
    pub fn add_room(&mut self, id: u8, initial_vibe: u64) -> (ok: bool)
        ensures
            ok == (old(self).room_count < MAX_ROOMS && !old(self).has_room(id)),
            ok ==> {
                &&& final(self).rooms@ == old(self).rooms@.update(
                    old(self).room_count as int,
                    final(self).rooms@[old(self).room_count as int],
                )
                &&& final(self).rooms@[old(self).room_count as int] matches Some(r) && r.is_fresh(
                    id,
                    initial_vibe,
                    JEPA_WINDOW as nat,
                )
                &&& final(self).room_count == old(self).room_count + 1
                &&& final(self).edges == old(self).edges
                &&& final(self).edge_count == old(self).edge_count
                &&& final(self).tick_count == old(self).tick_count
            },
            !ok ==> *final(self) == *old(self),
            ok ==> final(self).vibe_of(id) == Some(initial_vibe),
            ok ==> final(self).has_room(id),
            forall|other: u8|
                other != id ==> #[trigger] final(self).vibe_of(other) == old(self).vibe_of(other),
            forall|other: u8|
                other != id ==> #[trigger] final(self).has_room(other) == old(self).has_room(other),
            old(self).well_formed() ==> final(self).well_formed(),
    {
        if self.room_count as usize >= MAX_ROOMS {
            return false;
        }
        if self.find_room(id).is_some() {
            return false;  // duplicate
        }
        let ghost g0 = *self;
        let idx = self.room_count as usize;
        self.rooms[idx] = Some(Room::new(id, initial_vibe));
        self.room_count += 1;
        proof {
            let g1 = *self;
            lemma_find_below(g0, id, idx as int);
            lemma_find_below_frame(g0, g1, id, idx as int);
            assert forall|other: u8| other != id implies #[trigger] g1.vibe_of(other) == g0.vibe_of(
                other,
            ) by {
                lemma_find_below_frame(g0, g1, other, idx as int);
                lemma_find_below(g0, other, idx as int);
                assert(!g1.slot_holds(idx as int, other));
            }
            assert forall|other: u8| other != id implies #[trigger] g1.has_room(other) == g0.has_room(
                other,
            ) by {
                lemma_find_below_frame(g0, g1, other, idx as int);
                assert(!g1.slot_holds(idx as int, other));
            }
            if g0.well_formed() {
                assert forall|e: int| 0 <= e < g1.edge_count implies {
                    let (a, b, _) = #[trigger] g1.edges@[e];
                    &&& a != b
                    &&& g1.has_room(a)
                    &&& g1.has_room(b)
                } by {
                    let (a, b, _) = g1.edges@[e];
                    assert(g0.edges@[e] == g1.edges@[e]);
                    if a != id {
                        assert(g1.vibe_of(a) == g0.vibe_of(a));
                    }
                    if b != id {
                        assert(g1.vibe_of(b) == g0.vibe_of(b));
                    }
                }
                assert forall|i: int, j: int|
                    0 <= i < j < g1.room_count implies (#[trigger] g1.rooms@[i])->0.id != (
                #[trigger] g1.rooms@[j])->0.id by {
                    if j == idx {
                        assert(g0.slot_holds(i, g0.rooms@[i]->0.id));
                        assert(!g0.slot_holds(i, id));
                    }
                }
            }
        }
        true
    }

    /// Add an edge between two rooms with a weight.
    ///
    /// Returns false if at capacity, rooms don't exist, or self-edge.
    pub fn add_edge(&mut self, from_id: u8, to_id: u8, weight: u64) -> (ok: bool)
        requires
            old(self).edge_count < MAX_EDGES && from_id != to_id ==> old(self).lookup_in_range(
                from_id,
            ) && (old(self).has_room(from_id) ==> old(self).lookup_in_range(to_id)),
        ensures
            ok == (old(self).edge_count < MAX_EDGES && from_id != to_id && old(self).has_room(
                from_id,
            ) && old(self).has_room(to_id)),
            ok ==> {
                &&& final(self).edges@ == old(self).edges@.update(
                    old(self).edge_count as int,
                    (from_id, to_id, weight),
                )
                &&& final(self).edge_count == old(self).edge_count + 1
                &&& final(self).rooms == old(self).rooms
                &&& final(self).room_count == old(self).room_count
                &&& final(self).tick_count == old(self).tick_count
            },
            !ok ==> *final(self) == *old(self),
            forall|id: u8| #[trigger] final(self).vibe_of(id) == old(self).vibe_of(id),
            forall|id: u8| #[trigger] final(self).has_room(id) == old(self).has_room(id),
            old(self).well_formed() ==> final(self).well_formed(),
    {
        if self.edge_count as usize >= MAX_EDGES {
            return false;
        }
        if from_id == to_id {
            return false;
        }
        if self.find_room(from_id).is_none() || self.find_room(to_id).is_none() {
            return false;
        }
        let ghost g0 = *self;
        let idx = self.edge_count as usize;
        self.edges[idx] = (from_id, to_id, weight);
        self.edge_count += 1;
        proof {
            let g1 = *self;
            assert forall|id: u8| #[trigger] g1.find_spec(id) == g0.find_spec(id) by {
                lemma_find_below_frame(g0, g1, id, g0.room_count as int);
            }
        }
        true
    }

    /// Get a room's vibe by ID.
    pub fn get_vibe(&self, id: u8) -> (r: Option<u64>)
        requires
            self.lookup_in_range(id),
        ensures
            r == self.vibe_of(id),
    {
        match self.find_room(id) {
            Some(i) => {
                proof {
                    lemma_find_below(*self, id, self.room_count as int);
                }
                match &self.rooms[i] {
                    Some(r) => Some(r.vibe),
                    None => None,
                }
            },
            None => None,
        }
    }

    /// Set a room's vibe by ID. Returns false when there is no such room,
    /// and then changes nothing.
    pub fn set_vibe(&mut self, id: u8, vibe: u64) -> (ok: bool)
        requires
            old(self).lookup_in_range(id),
        ensures
            ok == old(self).has_room(id),
            ok ==> final(self).rooms@ == old(self).rooms@.update(
                old(self).find_spec(id)->0,
                Some(Room { vibe, ..old(self).room_of(id) }),
            ),
            final(self).edges == old(self).edges,
            final(self).room_count == old(self).room_count,
            final(self).edge_count == old(self).edge_count,
            final(self).tick_count == old(self).tick_count,
            !ok ==> *final(self) == *old(self),
            ok ==> final(self).vibe_of(id) == Some(vibe),
            forall|other: u8|
                other != id ==> #[trigger] final(self).vibe_of(other) == old(self).vibe_of(other),
            forall|other: u8| #[trigger] final(self).has_room(other) == old(self).has_room(other),
            old(self).well_formed() ==> final(self).well_formed(),
    {
        match self.find_room(id) {
            Some(i) => {
                let ghost g0 = *self;
                proof {
                    lemma_find_below(g0, id, g0.room_count as int);
                }
                match self.rooms[i] {
                    Some(room) => {
                        let mut room = room;
                        room.vibe = vibe;
                        self.rooms[i] = Some(room);
                        proof {
                            let g1 = *self;
                            assert forall|other: u8| #[trigger]
                                g1.find_spec(other) == g0.find_spec(other) by {
                                lemma_find_below_frame(g0, g1, other, g0.room_count as int);
                            }
                            assert forall|other: u8|
                                other != id implies #[trigger] g1.vibe_of(other) == g0.vibe_of(
                                other,
                            ) by {
                                lemma_find_below(g0, other, g0.room_count as int);
                            }
                            if g0.well_formed() {
                                assert forall|a: int, b: int|
                                    0 <= a < b < g1.room_count implies (#[trigger] g1.rooms@[a])->0.id
                                    != (#[trigger] g1.rooms@[b])->0.id by {
                                    assert(g0.rooms@[a]->0.id != g0.rooms@[b]->0.id);
                                }
                            }
                        }
                        true
                    },
                    None => false,
                }
            },
            None => false,
        }
    }

    /// Check if the graph is empty.
    pub fn is_empty(&self) -> (r: bool)
        ensures
            r == (self.room_count == 0),
    {
        self.room_count == 0
    }
}

impl Default for CellGraph {
    fn default() -> (g: Self)
        ensures
            g.is_fresh(),
            g.well_formed(),
    {
        Self::new()
    }
}

} // verus!
