//! Further cases: exact values, edge cases and the laws on concrete inputs.

use grand_pattern_embedded::gossip::{filter_marked, generate_murmurs, process_murmur};
use grand_pattern_embedded::graph::CellGraph;
use grand_pattern_embedded::jepa::{Jepa, UNIT_WEIGHT};
use grand_pattern_embedded::murmur::Murmur;
use grand_pattern_embedded::room::Room;
use grand_pattern_embedded::transport::{BleGossip, I2cGossip, SerialGossip, WifiGossip};
use grand_pattern_embedded::{JEPA_WINDOW, MAX_EDGES, MAX_ROOMS, MURMUR_SIZE};

fn bits(x: f64) -> u64 {
    x.to_bits()
}

#[test]
fn unit_weight_is_one() {
    assert_eq!(f64::from_bits(UNIT_WEIGHT), 1.0);
}

#[test]
fn constants_have_their_sizes() {
    assert_eq!(MAX_ROOMS, 32);
    assert_eq!(MAX_EDGES, 64);
    assert_eq!(JEPA_WINDOW, 16);
    assert_eq!(MURMUR_SIZE, 32);
}

#[test]
fn jepa_new_is_empty_with_full_window() {
    let j = Jepa::new();
    assert_eq!(j.window, JEPA_WINDOW);
    assert_eq!(j.count, 0);
    assert!(j.readings.iter().all(|r| r.is_none()));
    assert!(j.weights.iter().all(|w| *w == UNIT_WEIGHT));
    assert_eq!(j.last_value(), None);
    let d = Jepa::default();
    assert_eq!(d.window, JEPA_WINDOW);
    assert_eq!(d.count, 0);
}

#[test]
fn jepa_with_window_clamps() {
    assert_eq!(Jepa::with_window(0).window, 1);
    assert_eq!(Jepa::with_window(4).window, 4);
    assert_eq!(Jepa::with_window(16).window, 16);
    assert_eq!(Jepa::with_window(100).window, 16);
    assert_eq!(Jepa::with_window(100).count, 0);
}

fn learn_slot(j: &mut Jepa, tick: u32, value: u64) {
    j.evict_oldest_if_full();
    j.push_reading(tick, value);
}

#[test]
fn jepa_window_slides_and_keeps_most_recent() {
    let mut j = Jepa::with_window(3);
    for t in 0..10u32 {
        learn_slot(&mut j, t, t as u64 * 100);
        assert!(j.count <= j.window, "count should not exceed window");
        assert_eq!(j.last_value(), Some(t as u64 * 100));
    }
    assert_eq!(j.count, 3);
    assert_eq!(j.readings[0], Some((7, 700)));
    assert_eq!(j.readings[1], Some((8, 800)));
    assert_eq!(j.readings[2], Some((9, 900)));
}

#[test]
fn jepa_push_fills_next_slot_with_unit_weight() {
    let mut j = Jepa::new();
    j.weights[0] = 5;
    j.push_reading(3, 42);
    assert_eq!(j.count, 1);
    assert_eq!(j.readings[0], Some((3, 42)));
    assert_eq!(j.weights[0], UNIT_WEIGHT);
}

#[test]
fn jepa_evict_drops_oldest_and_moves_weights() {
    let mut j = Jepa::with_window(2);
    j.push_reading(0, 10);
    j.push_reading(1, 11);
    j.weights[1] = 77;
    j.evict_oldest_if_full();
    assert_eq!(j.count, 1);
    assert_eq!(j.readings[0], Some((1, 11)));
    assert_eq!(j.weights[0], 77);
}

#[test]
fn jepa_evict_leaves_partial_window_alone() {
    let mut j = Jepa::with_window(4);
    j.push_reading(0, 10);
    j.evict_oldest_if_full();
    assert_eq!(j.count, 1);
    assert_eq!(j.readings[0], Some((0, 10)));
}

#[test]
fn jepa_push_into_full_array_does_nothing() {
    let mut j = Jepa::new();
    for t in 0..16u32 {
        j.push_reading(t, t as u64);
    }
    assert_eq!(j.count, 16);
    j.push_reading(99, 99);
    assert_eq!(j.count, 16);
    assert_eq!(j.last_value(), Some(15));
}

#[test]
fn jepa_trim_keeps_most_recent() {
    let mut j = Jepa::new();
    for t in 0..6u32 {
        j.push_reading(t, t as u64 + 1);
    }
    j.weights[5] = 9;
    j.window = 2;
    j.trim();
    assert_eq!(j.count, 2);
    assert_eq!(j.readings[0], Some((4, 5)));
    assert_eq!(j.readings[1], Some((5, 6)));
    assert_eq!(j.weights[1], 9);
    for i in 2..6 {
        assert_eq!(j.readings[i], None);
        assert_eq!(j.weights[i], UNIT_WEIGHT);
    }
}

#[test]
fn jepa_trim_within_window_does_nothing() {
    let mut j = Jepa::with_window(4);
    j.push_reading(0, 1);
    j.trim();
    assert_eq!(j.count, 1);
    assert_eq!(j.readings[0], Some((0, 1)));
}

#[test]
fn jepa_reset_clears_readings_and_keeps_window() {
    let mut j = Jepa::with_window(5);
    learn_slot(&mut j, 0, bits(1.0));
    learn_slot(&mut j, 1, bits(2.0));
    assert_eq!(j.count, 2);
    j.weights[0] = 3;
    j.reset();
    assert_eq!(j.count, 0);
    assert_eq!(j.window, 5);
    assert_eq!(j.last_value(), None);
    assert!(j.readings.iter().all(|r| r.is_none()));
    assert!(j.weights.iter().all(|w| *w == UNIT_WEIGHT));
}

#[test]
fn room_with_window_and_set_vibe() {
    let mut r = Room::with_window(7, bits(3.5), 0);
    assert_eq!(r.id, 7);
    assert_eq!(r.jepa.window, 1);
    assert_eq!(r.last_surprise, 0);
    r.set_vibe(bits(-1.25));
    assert_eq!(f64::from_bits(r.vibe), -1.25);
    assert_eq!(r.id, 7);
}

#[test]
fn graph_vibe_read_after_write() {
    let mut g = CellGraph::default();
    assert!(g.is_empty());
    assert_eq!(g.get_vibe(1), None);
    assert!(g.add_room(1, bits(10.0)));
    assert!(g.add_room(2, bits(20.0)));
    assert!(!g.is_empty());
    assert_eq!(g.get_vibe(1), Some(bits(10.0)));
    assert_eq!(g.get_vibe(2), Some(bits(20.0)));
    assert!(g.set_vibe(2, bits(7.0)));
    assert_eq!(g.get_vibe(2), Some(bits(7.0)));
    assert_eq!(g.get_vibe(1), Some(bits(10.0)));
    assert!(!g.set_vibe(3, bits(1.0)));
    assert_eq!(g.get_vibe(3), None);
    assert_eq!(g.find_room(2), Some(1));
    assert_eq!(g.find_room(3), None);
}

#[test]
fn graph_add_room_initializes_room() {
    let mut g = CellGraph::new();
    g.add_room(9, bits(2.0));
    let r = g.rooms[0].as_ref().unwrap();
    assert_eq!(r.id, 9);
    assert_eq!(r.vibe, bits(2.0));
    assert_eq!(r.last_surprise, 0);
    assert_eq!(r.jepa.window, JEPA_WINDOW);
    assert_eq!(r.jepa.count, 0);
    assert!(g.rooms[1].is_none());
}

#[test]
fn graph_edges_are_stored_in_order() {
    let mut g = CellGraph::new();
    g.add_room(1, 0);
    g.add_room(2, 0);
    g.add_room(3, 0);
    assert!(g.add_edge(1, 2, bits(0.5)));
    assert!(g.add_edge(3, 1, bits(0.25)));
    assert_eq!(g.edges[0], (1, 2, bits(0.5)));
    assert_eq!(g.edges[1], (3, 1, bits(0.25)));
    assert_eq!(g.edge_count, 2);
}

#[test]
fn murmur_layout_is_little_endian_with_zero_padding() {
    let m = Murmur::new(5, bits(42.0), 1234, bits(-0.5));
    let b = m.to_bytes();
    assert_eq!(b[0], 5);
    assert_eq!(&b[1..9], &42.0f64.to_le_bytes());
    assert_eq!(&b[9..13], &1234u32.to_le_bytes());
    assert_eq!(&b[13..21], &(-0.5f64).to_le_bytes());
    assert!(b[21..].iter().all(|x| *x == 0));
}

#[test]
fn murmur_from_bytes_ignores_padding() {
    let m = Murmur::new(200, 0x0102_0304_0506_0708, 0xdead_beef, u64::MAX);
    let mut b = m.to_bytes();
    b[31] = 0xff;
    b[21] = 1;
    let r = Murmur::from_bytes(&b).unwrap();
    assert_eq!(r.room_id, 200);
    assert_eq!(r.vibe, 0x0102_0304_0506_0708);
    assert_eq!(r.tick, 0xdead_beef);
    assert_eq!(r.surprise, u64::MAX);
}

#[test]
fn murmur_bytes_roundtrip_with_zero_padding() {
    let mut b = [0u8; MURMUR_SIZE];
    for (i, x) in b.iter_mut().enumerate().take(21) {
        *x = (i * 11 + 3) as u8;
    }
    let m = Murmur::from_bytes(&b).unwrap();
    assert_eq!(m.to_bytes(), b);
}

#[test]
fn gossip_generates_one_murmur_per_room() {
    let mut g = CellGraph::new();
    g.add_room(1, bits(10.0));
    g.add_room(2, bits(20.0));
    g.tick_count = 3;
    g.rooms[1].as_mut().unwrap().last_surprise = bits(0.75);
    let mut buffer = [Some(Murmur::new(9, 9, 9, 9)); MAX_ROOMS];
    let count = generate_murmurs(&g, &mut buffer);
    assert_eq!(count, 2);
    let a = buffer[0].unwrap();
    let b = buffer[1].unwrap();
    assert_eq!((a.room_id, a.vibe, a.tick, a.surprise), (1, bits(10.0), 3, 0));
    assert_eq!((b.room_id, b.vibe, b.tick, b.surprise), (2, bits(20.0), 3, bits(0.75)));
    assert!(buffer[2..].iter().all(|m| m.is_none()));
}

#[test]
fn gossip_on_empty_graph_clears_buffer() {
    let g = CellGraph::new();
    let mut buffer = [Some(Murmur::new(1, 1, 1, 1)); MAX_ROOMS];
    assert_eq!(generate_murmurs(&g, &mut buffer), 0);
    assert!(buffer.iter().all(|m| m.is_none()));
}

#[test]
fn gossip_carries_vibes_to_another_graph() {
    let mut src = CellGraph::new();
    let mut dst = CellGraph::new();
    for id in 0..4u8 {
        src.add_room(id, bits(id as f64 * 10.0));
        dst.add_room(id, 0);
    }
    let mut buffer = [None; MAX_ROOMS];
    let n = generate_murmurs(&src, &mut buffer);
    for m in buffer.iter().take(n) {
        assert!(process_murmur(&mut dst, m.as_ref().unwrap()));
    }
    for id in 0..4u8 {
        assert_eq!(dst.get_vibe(id), src.get_vibe(id));
    }
}

#[test]
fn process_murmur_for_unknown_room_changes_nothing() {
    let mut g = CellGraph::new();
    g.add_room(1, bits(1.0));
    assert!(!process_murmur(&mut g, &Murmur::new(2, bits(5.0), 0, 0)));
    assert_eq!(g.get_vibe(1), Some(bits(1.0)));
    assert!(process_murmur(&mut g, &Murmur::new(1, bits(5.0), 0, 0)));
    assert_eq!(g.get_vibe(1), Some(bits(5.0)));
}

#[test]
fn filter_marked_keeps_marked_present_murmurs_in_order() {
    let ms = [
        Some(Murmur::new(1, 0, 0, 0)),
        None,
        Some(Murmur::new(2, 0, 0, 0)),
        Some(Murmur::new(3, 0, 0, 0)),
    ];
    let marks = [true, true, false, true];
    let mut out = [Some(Murmur::new(9, 9, 9, 9)); MAX_ROOMS];
    let n = filter_marked(&ms, &marks, &mut out);
    assert_eq!(n, 2);
    assert_eq!(out[0].unwrap().room_id, 1);
    assert_eq!(out[1].unwrap().room_id, 3);
    assert!(out[2..].iter().all(|m| m.is_none()));
}

#[test]
fn transport_new_is_not_ready() {
    assert!(!WifiGossip::new(1).ready);
    assert_eq!(WifiGossip::new(4321).port, 4321);
    assert!(!BleGossip::new(1).ready);
    assert!(!SerialGossip::new(9600).ready);
    assert_eq!(I2cGossip::new(0x42).address, 0x42);
}
