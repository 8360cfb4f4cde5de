use terrain_stream::chunk::TerrainChunk;
use terrain_stream::registry::ChunkRegistry;

fn coord(x: i32, z: i32) -> TerrainChunk {
    TerrainChunk { chunk_x: x, chunk_z: z }
}

#[test]
fn new_registry_is_empty() {
    let registry = ChunkRegistry::new();
    assert_eq!(registry.len(), 0);
    assert!(!registry.contains(coord(0, 0)));
}

#[test]
fn insert_then_contains() {
    let mut registry = ChunkRegistry::new();
    registry.insert(coord(2, -3));
    assert!(registry.contains(coord(2, -3)));
    assert!(!registry.contains(coord(-3, 2)));
    assert_eq!(registry.len(), 1);
}

#[test]
fn duplicate_insert_is_idempotent() {
    let mut registry = ChunkRegistry::new();
    registry.insert(coord(1, 1));
    registry.insert(coord(1, 1));
    assert_eq!(registry.len(), 1);
    assert!(registry.contains(coord(1, 1)));
}

#[test]
fn remove_deletes_only_the_given_coordinate() {
    let mut registry = ChunkRegistry::new();
    registry.insert(coord(0, 0));
    registry.insert(coord(1, 0));
    registry.insert(coord(0, 1));
    registry.remove(coord(1, 0));
    assert!(registry.contains(coord(0, 0)));
    assert!(!registry.contains(coord(1, 0)));
    assert!(registry.contains(coord(0, 1)));
    assert_eq!(registry.len(), 2);
}

#[test]
fn remove_absent_is_a_no_op() {
    let mut registry = ChunkRegistry::new();
    registry.insert(coord(5, 5));
    registry.remove(coord(6, 6));
    assert_eq!(registry.len(), 1);
    assert!(registry.contains(coord(5, 5)));
}

#[test]
fn evict_outside_splits_by_window() {
    let mut registry = ChunkRegistry::new();
    for x in -2..=2 {
        for z in -2..=2 {
            registry.insert(coord(x, z));
        }
    }
    let evicted = registry.evict_outside(coord(0, 0), 1);
    // The 3x3 window stays; the 16 ring chunks leave, each exactly once.
    assert_eq!(registry.len(), 9);
    assert_eq!(evicted.len(), 16);
    for c in &evicted {
        assert!(c.chunk_x.abs().max(c.chunk_z.abs()) > 1);
        assert!(!registry.contains(*c));
    }
    for x in -1..=1 {
        for z in -1..=1 {
            assert!(registry.contains(coord(x, z)));
        }
    }
}
