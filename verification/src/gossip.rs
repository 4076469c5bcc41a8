//! Gossip: generate and process murmurs for the CellGraph.
//!
//! Murmurs are small messages that propagate room state through the network.

use vstd::prelude::*;
use crate::graph::CellGraph;
use crate::murmur::Murmur;
use crate::room::Room;
use crate::MAX_ROOMS;

verus! {

/// The murmur a room sends at a tick.
pub open spec fn murmur_of(r: Room, tick: u32) -> Murmur {
    Murmur { room_id: r.id, vibe: r.vibe, tick, surprise: r.last_surprise }
}

/// The murmurs of the occupied slots below `n`, in slot order.
pub open spec fn murmurs_below(g: CellGraph, n: int) -> Seq<Murmur>
    decreases n,
{
    if n <= 0 {
        seq![]
    } else {
        let prev = murmurs_below(g, n - 1);
        match g.rooms@[n - 1] {
            Some(r) => prev.push(murmur_of(r, g.tick_count)),
            None => prev,
        }
    }
}

/// The murmurs of all rooms of the graph, in slot order.
pub open spec fn graph_murmurs(g: CellGraph) -> Seq<Murmur> {
    murmurs_below(g, g.room_count as int)
}

/// The marked, present murmurs below `n`, in order.
pub open spec fn marked_below(murmurs: Seq<Option<Murmur>>, marks: Seq<bool>, n: int) -> Seq<
    Murmur,
>
    decreases n,
{
    if n <= 0 {
        seq![]
    } else {
        let prev = marked_below(murmurs, marks, n - 1);
        match murmurs[n - 1] {
            Some(m) => if marks[n - 1] {
                prev.push(m)
            } else {
                prev
            },
            None => prev,
        }
    }
}

/// The marked, present murmurs, in order.
pub open spec fn marked(murmurs: Seq<Option<Murmur>>, marks: Seq<bool>) -> Seq<Murmur> {
    marked_below(murmurs, marks, murmurs.len() as int)
}

/// A buffer of `MAX_ROOMS` slots that holds `ms` from the front and `None`
/// after it.
pub open spec fn packed(ms: Seq<Murmur>) -> Seq<Option<Murmur>> {
    Seq::new(MAX_ROOMS as nat, |i: int| if i < ms.len() { Some(ms[i]) } else { None })
}

proof fn lemma_murmurs_below_len(g: CellGraph, n: int)
    ensures
        murmurs_below(g, n).len() <= if n < 0 { 0 } else { n },
    decreases n,
{
    if n > 0 {
        lemma_murmurs_below_len(g, n - 1);
    }
}

proof fn lemma_marked_below_mono(murmurs: Seq<Option<Murmur>>, marks: Seq<bool>, n: int, m: int)
    requires
        n <= m,
    ensures
        marked_below(murmurs, marks, n).len() <= marked_below(murmurs, marks, m).len(),
    decreases m - n,
{
    if n < m {
        lemma_marked_below_mono(murmurs, marks, n, m - 1);
    }
}

/// In a well-formed graph there is one murmur per room, in slot order.
pub proof fn lemma_one_murmur_per_room(g: CellGraph)
    requires
        g.well_formed(),
    ensures
        graph_murmurs(g).len() == g.room_count,
        forall|k: int|
            0 <= k < g.room_count ==> #[trigger] graph_murmurs(g)[k] == murmur_of(
                g.rooms@[k]->0,
                g.tick_count,
            ),
{
    lemma_murmurs_below_prefix(g, g.room_count as int);
}

proof fn lemma_murmurs_below_prefix(g: CellGraph, n: int)
    requires
        g.well_formed(),
        0 <= n <= g.room_count,
    ensures
        murmurs_below(g, n).len() == n,
        forall|k: int|
            0 <= k < n ==> #[trigger] murmurs_below(g, n)[k] == murmur_of(
                g.rooms@[k]->0,
                g.tick_count,
            ),
    decreases n,
{
    if n > 0 {
        lemma_murmurs_below_prefix(g, n - 1);
        assert(g.rooms@[n - 1] is Some);
    }
}

/// Every murmur of a well-formed graph carries the current vibe of the room
/// it names, so a graph that processes it takes on that vibe.
pub proof fn lemma_murmurs_carry_vibes(g: CellGraph)
    requires
        g.well_formed(),
    ensures
        forall|k: int|
            0 <= k < graph_murmurs(g).len() ==> g.vibe_of(#[trigger] graph_murmurs(g)[k].room_id)
                == Some(graph_murmurs(g)[k].vibe),
{
    lemma_one_murmur_per_room(g);
    assert forall|k: int| 0 <= k < graph_murmurs(g).len() implies g.vibe_of(
        #[trigger] graph_murmurs(g)[k].room_id,
    ) == Some(graph_murmurs(g)[k].vibe) by {
        let id = g.rooms@[k]->0.id;
        assert(g.slot_holds(k, id));
        crate::graph::lemma_find_below(g, id, g.room_count as int);
        let f = g.find_spec(id);
        if f != Some(k) {
            let i = f->0;
            assert(g.slot_holds(i, id));
            assert(g.rooms@[i]->0.id == g.rooms@[k]->0.id);
        }
    }
}

/// In a well-formed graph, murmur `k` is the murmur of the room in slot `k`:
/// it names that room and carries its vibe and its last surprise exactly as
/// stored, stamped with the graph's tick.
pub proof fn lemma_murmur_fields(g: CellGraph)
    requires
        g.well_formed(),
    ensures
        graph_murmurs(g).len() == g.room_count,
        forall|k: int|
            0 <= k < g.room_count ==> {
                &&& g.rooms@[k] is Some
                &&& (#[trigger] graph_murmurs(g)[k]).room_id == g.rooms@[k]->0.id
                &&& graph_murmurs(g)[k].vibe == g.rooms@[k]->0.vibe
                &&& graph_murmurs(g)[k].surprise == g.rooms@[k]->0.last_surprise
                &&& graph_murmurs(g)[k].tick == g.tick_count
            },
{
    lemma_one_murmur_per_room(g);
}

/// Slot `i` holds a murmur and its mark is set.
pub open spec fn is_selected(murmurs: Seq<Option<Murmur>>, marks: Seq<bool>, i: int) -> bool {
    0 <= i < murmurs.len() && i < marks.len() && murmurs[i] is Some && marks[i]
}

/// The selected slots below `n`, in increasing order.
spec fn selected_below(murmurs: Seq<Option<Murmur>>, marks: Seq<bool>, n: int) -> Seq<int>
    decreases n,
{
    if n <= 0 {
        seq![]
    } else {
        let prev = selected_below(murmurs, marks, n - 1);
        if is_selected(murmurs, marks, n - 1) {
            prev.push(n - 1)
        } else {
            prev
        }
    }
}

proof fn lemma_selected_below(murmurs: Seq<Option<Murmur>>, marks: Seq<bool>, n: int)
    requires
        marks.len() == murmurs.len(),
        0 <= n <= murmurs.len(),
    ensures
        ({
            let idx = selected_below(murmurs, marks, n);
            let kept = marked_below(murmurs, marks, n);
            &&& idx.len() == kept.len()
            &&& forall|k: int|
                0 <= k < idx.len() ==> 0 <= #[trigger] idx[k] < n && is_selected(
                    murmurs,
                    marks,
                    idx[k],
                ) && kept[k] == murmurs[idx[k]]->0
            &&& forall|k1: int, k2: int|
                0 <= k1 < k2 < idx.len() ==> #[trigger] idx[k1] < #[trigger] idx[k2]
            &&& forall|i: int|
                0 <= i < n && #[trigger] is_selected(murmurs, marks, i) ==> idx.contains(i)
        }),
    decreases n,
{
    if n > 0 {
        lemma_selected_below(murmurs, marks, n - 1);
        let p = selected_below(murmurs, marks, n - 1);
        let idx = selected_below(murmurs, marks, n);
        assert forall|i: int|
            0 <= i < n && #[trigger] is_selected(murmurs, marks, i) implies idx.contains(i) by {
            if i < n - 1 {
                assert(p.contains(i));
                let k = choose|k: int| 0 <= k < p.len() && p[k] == i;
                assert(idx[k] == i);
            } else {
                assert(idx[idx.len() - 1] == i);
            }
        }
    }
}

/// Filtering keeps exactly the murmurs of the selected slots (present and
/// marked), in slot order: there is an increasing list of slot indices that
/// names every selected slot once, and kept murmur `k` is the murmur in
/// the `k`-th of those slots. So the number kept is the number of selected
/// slots.
pub proof fn lemma_marked_are_selected(murmurs: Seq<Option<Murmur>>, marks: Seq<bool>)
    requires
        marks.len() == murmurs.len(),
    ensures
        exists|idx: Seq<int>|
            #![trigger idx.len()]
            {
                &&& idx.len() == marked(murmurs, marks).len()
                &&& forall|k: int|
                    0 <= k < idx.len() ==> is_selected(murmurs, marks, #[trigger] idx[k])
                        && marked(murmurs, marks)[k] == murmurs[idx[k]]->0
                &&& forall|k1: int, k2: int|
                    0 <= k1 < k2 < idx.len() ==> #[trigger] idx[k1] < #[trigger] idx[k2]
                &&& forall|i: int| #[trigger]
                    is_selected(murmurs, marks, i) ==> idx.contains(i)
            },
{
    let n = murmurs.len() as int;
    lemma_selected_below(murmurs, marks, n);
    let idx = selected_below(murmurs, marks, n);
    assert forall|i: int| #[trigger] is_selected(murmurs, marks, i) implies idx.contains(i) by {
    }
    assert(idx.len() == marked(murmurs, marks).len());
}

/// A packed buffer has `MAX_ROOMS` slots: the given murmurs from the front,
/// in order, then empty slots.
pub proof fn lemma_packed_slots(ms: Seq<Murmur>)
    ensures
        packed(ms).len() == MAX_ROOMS,
        forall|i: int| 0 <= i < ms.len() && i < MAX_ROOMS ==> #[trigger] packed(ms)[i] == Some(ms[i]),
        forall|i: int| ms.len() <= i < MAX_ROOMS ==> #[trigger] packed(ms)[i] is None,
{
}

/// Generate murmurs for all rooms in the graph, in slot order, and clear
/// the rest of the buffer.
///
/// Returns the number of murmurs written into the buffer.
pub fn generate_murmurs(graph: &CellGraph, buffer: &mut [Option<Murmur>; MAX_ROOMS]) -> (count:
    usize)
    requires
        graph.room_count <= MAX_ROOMS,
    ensures
        count == graph_murmurs(*graph).len(),
        final(buffer)@ == packed(graph_murmurs(*graph)),
{
    let mut count: usize = 0;
    let n = graph.room_count as usize;
    let mut i: usize = 0;
    while i < n
        invariant
            n == graph.room_count,
            n <= MAX_ROOMS,
            i <= n,
            count == murmurs_below(*graph, i as int).len(),
            count <= i,
            forall|j: int|
                0 <= j < count ==> #[trigger] buffer@[j] == Some(
                    murmurs_below(*graph, i as int)[j],
                ),
        decreases n - i,
    {
        proof {
            lemma_murmurs_below_len(*graph, i as int);
        }
        let ghost prev = murmurs_below(*graph, i as int);
        let ghost old_count = count;
        match &graph.rooms[i] {
            Some(room) => {
                buffer[count] = Some(Murmur::new(
                    room.id,
                    room.vibe,
                    graph.tick_count,
                    room.last_surprise,
                ));
                count += 1;
            },
            None => {},
        }
        proof {
            let next = murmurs_below(*graph, i + 1);
            assert forall|j: int| 0 <= j < count implies #[trigger] buffer@[j] == Some(next[j]) by {
                if j < old_count {
                    assert(buffer@[j] == Some(prev[j]));
                }
            }
        }
        i += 1;
    }
    let ghost ms = murmurs_below(*graph, n as int);
    // Clear remaining
    for i in count..MAX_ROOMS
        invariant
            count == ms.len(),
            count <= MAX_ROOMS,
            forall|j: int| 0 <= j < count ==> #[trigger] buffer@[j] == Some(ms[j]),
            forall|j: int| count <= j < i ==> buffer@[j] is None,
    {
        buffer[i] = None;
    }
    assert(buffer@ =~= packed(ms));
    count
}

/// Process an incoming murmur: update the corresponding room's vibe.
///
/// Returns true if a room was updated; otherwise nothing changes.
pub fn process_murmur(graph: &mut CellGraph, murmur: &Murmur) -> (ok: bool)
    requires
        old(graph).lookup_in_range(murmur.room_id),
    ensures
        ok == old(graph).has_room(murmur.room_id),
        ok ==> final(graph).rooms@ == old(graph).rooms@.update(
            old(graph).find_spec(murmur.room_id)->0,
            Some(Room { vibe: murmur.vibe, ..old(graph).room_of(murmur.room_id) }),
        ),
        !ok ==> *final(graph) == *old(graph),
        ok ==> final(graph).vibe_of(murmur.room_id) == Some(murmur.vibe),
        forall|other: u8|
            other != murmur.room_id ==> #[trigger] final(graph).vibe_of(other) == old(
                graph,
            ).vibe_of(other),
        final(graph).edges == old(graph).edges,
        final(graph).room_count == old(graph).room_count,
        final(graph).edge_count == old(graph).edge_count,
        final(graph).tick_count == old(graph).tick_count,
        old(graph).well_formed() ==> final(graph).well_formed(),
{
    graph.set_vibe(murmur.room_id, murmur.vibe)
}

/// Keep the murmurs that are present and marked, in order, at the front of
/// `output`, and clear the rest of it. `marks[i]` is the verdict on
/// `murmurs[i]`, such as whether its surprise is above a threshold.
///
/// Returns the number of murmurs kept.
pub fn filter_marked(
    murmurs: &[Option<Murmur>],
    marks: &[bool],
    output: &mut [Option<Murmur>; MAX_ROOMS],
) -> (count: usize)
    requires
        murmurs@.len() == marks@.len(),
        marked(murmurs@, marks@).len() <= MAX_ROOMS,
    ensures
        count == marked(murmurs@, marks@).len(),
        final(output)@ == packed(marked(murmurs@, marks@)),
{
    let mut count: usize = 0;
    let n = murmurs.len();
    let mut i: usize = 0;
    while i < n
        invariant
            n == murmurs@.len(),
            n == marks@.len(),
            i <= n,
            marked(murmurs@, marks@).len() <= MAX_ROOMS,
            count == marked_below(murmurs@, marks@, i as int).len(),
            forall|j: int|
                0 <= j < count ==> #[trigger] output@[j] == Some(
                    marked_below(murmurs@, marks@, i as int)[j],
                ),
        decreases n - i,
    {
        proof {
            lemma_marked_below_mono(murmurs@, marks@, i + 1, n as int);
        }
        let ghost prev = marked_below(murmurs@, marks@, i as int);
        let ghost old_count = count;
        match &murmurs[i] {
            Some(m) => {
                if marks[i] {
                    output[count] = Some(*m);
                    count += 1;
                }
            },
            None => {},
        }
        proof {
            let next = marked_below(murmurs@, marks@, i + 1);
            assert forall|j: int| 0 <= j < count implies #[trigger] output@[j] == Some(next[j]) by {
                if j < old_count {
                    assert(output@[j] == Some(prev[j]));
                }
            }
        }
        i += 1;
    }
    let ghost kept = marked(murmurs@, marks@);
    for i in count..MAX_ROOMS
        invariant
            count == kept.len(),
            count <= MAX_ROOMS,
            forall|j: int| 0 <= j < count ==> #[trigger] output@[j] == Some(kept[j]),
            forall|j: int| count <= j < i ==> output@[j] is None,
    {
        output[i] = None;
    }
    assert(output@ =~= packed(kept));
    count
}

} // verus!
