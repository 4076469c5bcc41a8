//! Tests for grand_pattern_embedded: graph bookkeeping, the predictor
//! window, murmur serialization, gossip and the transport stubs.
//!
//! Vibes are binary64 values handed to the library by their bit patterns.

use grand_pattern_embedded::graph::CellGraph;
use grand_pattern_embedded::jepa::Jepa;
use grand_pattern_embedded::murmur::Murmur;
use grand_pattern_embedded::room::Room;
use grand_pattern_embedded::transport;

fn bits(x: f64) -> u64 {
    x.to_bits()
}

fn val(b: u64) -> f64 {
    f64::from_bits(b)
}

#[test]
fn test_room_has_mono_vibe() {
    let room = Room::new(1, bits(42.0));
    assert_eq!(room.id, 1);
    assert!((val(room.vibe) - 42.0).abs() < f64::EPSILON);
}

#[test]
fn test_cellgraph_creation_with_fixed_arrays() {
    let graph = CellGraph::new();
    assert_eq!(graph.room_count, 0);
    assert_eq!(graph.edge_count, 0);
    assert_eq!(graph.tick_count, 0);
    assert!(graph.is_empty());
}

#[test]
fn test_add_room_within_bounds() {
    let mut graph = CellGraph::new();
    assert!(graph.add_room(1, bits(10.0)));
    assert_eq!(graph.room_count, 1);
    assert!(graph.add_room(2, bits(20.0)));
    assert_eq!(graph.room_count, 2);
}

#[test]
fn test_add_edge_within_bounds() {
    let mut graph = CellGraph::new();
    graph.add_room(1, bits(10.0));
    graph.add_room(2, bits(20.0));
    assert!(graph.add_edge(1, 2, bits(0.5)));
    assert_eq!(graph.edge_count, 1);
}

#[test]
fn test_max_rooms_fills_correctly() {
    let mut graph = CellGraph::new();
    for i in 0..32u8 {
        assert!(graph.add_room(i, bits(i as f64)), "should add room {}", i);
    }
    assert_eq!(graph.room_count, 32);
    // Can't add more
    assert!(!graph.add_room(32, bits(0.0)));
}

#[test]
fn test_max_edges_fills_correctly() {
    let mut graph = CellGraph::new();
    // Need rooms first
    for i in 0..12u8 {
        graph.add_room(i, bits(i as f64));
    }
    // Add 64 edges
    let mut count = 0u8;
    for i in 0..12u8 {
        for j in (i + 1)..12u8 {
            if count >= 64 {
                break;
            }
            assert!(graph.add_edge(i, j, bits(0.1)));
            count += 1;
        }
        if count >= 64 {
            break;
        }
    }
    assert_eq!(graph.edge_count, 64);
    // Can't add more
    graph.add_room(100, bits(0.0));
    graph.add_room(101, bits(0.0));
    assert!(!graph.add_edge(100, 101, bits(0.1)));
}

#[test]
fn test_overflow_protection() {
    let mut graph = CellGraph::new();
    for i in 0..32u8 {
        graph.add_room(i, bits(i as f64));
    }
    // 33rd room should fail
    assert!(!graph.add_room(33, bits(0.0)));
    assert_eq!(graph.room_count, 32);
}

#[test]
fn test_memory_footprint() {
    let size_graph = core::mem::size_of::<CellGraph>();
    let size_jepa = core::mem::size_of::<Jepa>();
    let size_room = core::mem::size_of::<Room>();
    let size_murmur = core::mem::size_of::<Murmur>();

    assert!(size_murmur <= 64, "Murmur should be small: {} bytes", size_murmur);
    assert!(size_jepa <= 640, "Jepa should be bounded: {} bytes", size_jepa);
    let _ = (size_graph, size_room);
}

#[test]
fn test_murmur_serialize_roundtrip() {
    let m = Murmur::new(5, bits(42.0), 1234, bits(-0.5));
    let bytes = m.to_bytes();
    let restored = Murmur::from_bytes(&bytes).unwrap();
    assert_eq!(restored.room_id, 5);
    assert!((val(restored.vibe) - 42.0).abs() < f64::EPSILON);
    assert_eq!(restored.tick, 1234);
    assert!((val(restored.surprise) - (-0.5)).abs() < f64::EPSILON);
}

#[test]
fn test_transport_stubs_compile() {
    let mut wifi = transport::WifiGossip::new(1234);
    assert!(wifi.init());
    assert!(wifi.ready);

    let mut ble = transport::BleGossip::new(100);
    assert!(ble.init());

    let mut serial = transport::SerialGossip::new(115200);
    assert!(serial.init());

    let mut i2c = transport::I2cGossip::new(0x42);
    assert!(i2c.init());

    let mut flash = transport::FlashStorage::new();
    assert!(flash.init());

    let mut eeprom = transport::EepromStorage::new();
    assert!(eeprom.init());
}

#[test]
fn test_duplicate_room_rejected() {
    let mut graph = CellGraph::new();
    assert!(graph.add_room(1, bits(10.0)));
    assert!(!graph.add_room(1, bits(20.0))); // duplicate
    assert_eq!(graph.room_count, 1);
}

#[test]
fn test_self_edge_rejected() {
    let mut graph = CellGraph::new();
    graph.add_room(1, bits(10.0));
    assert!(!graph.add_edge(1, 1, bits(0.5)));
}

#[test]
fn test_edge_to_nonexistent_room_rejected() {
    let mut graph = CellGraph::new();
    graph.add_room(1, bits(10.0));
    assert!(!graph.add_edge(1, 99, bits(0.5)));
    assert!(!graph.add_edge(99, 1, bits(0.5)));
}
