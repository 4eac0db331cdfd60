use voxel_store::world::chunk::{Chunk, Voxel};
use voxel_store::world::chunk_map::{chunk_origin, is_aligned, local_offset, ChunkMap};
use voxel_store::world::lattice::{Extent, IVec3, UVec3};

fn sample_coords() -> Vec<i32> {
    let mut v = vec![
        i32::MIN,
        i32::MIN + 1,
        i32::MIN + 31,
        i32::MIN + 32,
        -1025,
        -1024,
        -65,
        -64,
        -33,
        -32,
        -31,
        -2,
        -1,
        0,
        1,
        31,
        32,
        33,
        63,
        64,
        1023,
        1024,
        i32::MAX - 32,
        i32::MAX - 31,
        i32::MAX - 1,
        i32::MAX,
    ];
    v.extend(-100..100);
    v
}

fn patterned(seed: u32) -> Chunk {
    let mut chunk = Chunk::new_empty();
    for z in 0..32u32 {
        for y in 0..32u32 {
            for x in 0..32u32 {
                *chunk.voxel_at_mut(UVec3::new(x, y, z)) = pattern(seed, x, y, z);
            }
        }
    }
    chunk
}

fn pattern(seed: u32, x: u32, y: u32, z: u32) -> Voxel {
    Voxel(((seed + x + 5 * y + 11 * z) % 253) as u8)
}

#[test]
fn negative_coordinate_splits_below_zero() {
    let c = IVec3::new(-1, -1, -1);
    assert_eq!(chunk_origin(c), IVec3::new(-32, -32, -32));
    assert_eq!(local_offset(c), UVec3::new(31, 31, 31));
}

#[test]
fn origin_and_offset_of_chosen_coordinates() {
    assert_eq!(chunk_origin(IVec3::new(0, 31, 32)), IVec3::new(0, 0, 32));
    assert_eq!(local_offset(IVec3::new(0, 31, 32)), UVec3::new(0, 31, 0));
    assert_eq!(chunk_origin(IVec3::new(-32, -33, 100)), IVec3::new(-32, -64, 96));
    assert_eq!(local_offset(IVec3::new(-32, -33, 100)), UVec3::new(0, 31, 4));
    assert_eq!(
        chunk_origin(IVec3::new(i32::MIN, i32::MAX, -1)),
        IVec3::new(i32::MIN, i32::MAX - 31, -32)
    );
    assert_eq!(
        local_offset(IVec3::new(i32::MIN, i32::MAX, -1)),
        UVec3::new(0, 31, 31)
    );
}

#[test]
fn origin_plus_offset_is_the_coordinate() {
    for c in sample_coords() {
        let p = IVec3::new(c, c.wrapping_mul(3), c.wrapping_sub(17));
        let o = chunk_origin(p);
        let l = local_offset(p);
        assert!(l.x < 32 && l.y < 32 && l.z < 32);
        assert_eq!(o.x as i64 + l.x as i64, p.x as i64);
        assert_eq!(o.y as i64 + l.y as i64, p.y as i64);
        assert_eq!(o.z as i64 + l.z as i64, p.z as i64);
    }
}

#[test]
fn origin_is_a_multiple_of_the_edge_length() {
    for c in sample_coords() {
        let p = IVec3::new(c, c.wrapping_add(5), c.wrapping_mul(7));
        let o = chunk_origin(p);
        assert_eq!(o.x & 31, 0);
        assert_eq!(o.y & 31, 0);
        assert_eq!(o.z & 31, 0);
        assert_eq!(o.x.rem_euclid(32), 0);
        assert_eq!(o.y.rem_euclid(32), 0);
        assert_eq!(o.z.rem_euclid(32), 0);
        assert!(is_aligned(o));
        assert_eq!(chunk_origin(o), o);
        assert_eq!(local_offset(o), UVec3::new(0, 0, 0));
    }
}

#[test]
fn is_aligned_tells_chunk_origins() {
    assert!(is_aligned(IVec3::new(0, 0, 0)));
    assert!(is_aligned(IVec3::new(-32, 64, i32::MIN)));
    assert!(!is_aligned(IVec3::new(1, 0, 0)));
    assert!(!is_aligned(IVec3::new(0, -1, 0)));
    assert!(!is_aligned(IVec3::new(0, 0, 31)));
    assert!(!is_aligned(IVec3::new(0, 0, i32::MAX)));
}

#[test]
fn shape_mask_clears_the_low_bits() {
    let map = ChunkMap::new();
    let mask = map.shape_mask();
    assert_eq!(mask, IVec3::new(-32, -32, -32));
    assert_eq!(mask, IVec3::splat(!31));
    for c in sample_coords() {
        let p = IVec3::new(c, c.wrapping_neg(), c.wrapping_add(1));
        assert_eq!(p.bitand(mask), chunk_origin(p));
    }
}

#[test]
fn new_map_has_no_voxel() {
    let map = ChunkMap::new();
    for c in sample_coords() {
        let p = IVec3::new(c, -c.max(-i32::MAX), 0);
        assert_eq!(map.voxel_at(p), None);
        assert!(!map.exists_at(chunk_origin(p)));
        assert!(map.buffer_at(chunk_origin(p)).is_none());
    }
}

#[test]
fn inserted_chunk_reads_back() {
    let mut map = ChunkMap::new();
    let origin = IVec3::new(-64, 32, 0);
    let chunk = patterned(3);
    let mut before = Vec::new();
    for z in 0..32u32 {
        for y in 0..32u32 {
            for x in 0..32u32 {
                before.push(chunk.voxel_at(UVec3::new(x, y, z)));
            }
        }
    }
    map.insert(origin, chunk);
    assert!(map.exists_at(origin));
    let mut i = 0;
    for z in 0..32i32 {
        for y in 0..32i32 {
            for x in 0..32i32 {
                let p = IVec3::new(origin.x + x, origin.y + y, origin.z + z);
                assert_eq!(map.voxel_at(p), Some(before[i]));
                assert_eq!(
                    map.voxel_at(p),
                    Some(pattern(3, x as u32, y as u32, z as u32))
                );
                i += 1;
            }
        }
    }
}

#[test]
fn voxels_next_to_a_chunk_are_absent() {
    let mut map = ChunkMap::new();
    map.insert(IVec3::new(0, 0, 0), Chunk::new(Voxel(1)));
    assert_eq!(map.voxel_at(IVec3::new(0, 0, 0)), Some(Voxel(1)));
    assert_eq!(map.voxel_at(IVec3::new(31, 31, 31)), Some(Voxel(1)));
    assert_eq!(map.voxel_at(IVec3::new(-1, 0, 0)), None);
    assert_eq!(map.voxel_at(IVec3::new(0, -1, 0)), None);
    assert_eq!(map.voxel_at(IVec3::new(0, 0, -1)), None);
    assert_eq!(map.voxel_at(IVec3::new(32, 0, 0)), None);
    assert_eq!(map.voxel_at(IVec3::new(0, 32, 0)), None);
    assert_eq!(map.voxel_at(IVec3::new(0, 0, 32)), None);
}

#[test]
fn empty_chunk_is_there_and_reads_zero() {
    let mut map = ChunkMap::new();
    let origin = IVec3::new(32, -32, 64);
    assert_eq!(map.voxel_at(IVec3::new(40, -1, 64)), None);
    map.insert_empty(origin);
    assert!(map.exists_at(origin));
    for z in 0..32i32 {
        for y in 0..32i32 {
            for x in 0..32i32 {
                let p = IVec3::new(origin.x + x, origin.y + y, origin.z + z);
                assert_eq!(map.voxel_at(p), Some(Voxel(0)));
            }
        }
    }
}

#[test]
fn remove_returns_the_chunk_and_leaves_absence() {
    let mut map = ChunkMap::new();
    let origin = IVec3::new(-32, -32, -32);
    let other = IVec3::new(0, 0, 0);
    map.insert(origin, patterned(9));
    map.insert(other, Chunk::new(Voxel(4)));
    let removed = map.remove(origin);
    let removed = match removed {
        Some(chunk) => chunk,
        None => panic!("the chunk was there"),
    };
    for z in 0..32u32 {
        for y in 0..32u32 {
            for x in 0..32u32 {
                assert_eq!(removed.voxel_at(UVec3::new(x, y, z)), pattern(9, x, y, z));
                let p = IVec3::new(x as i32 - 32, y as i32 - 32, z as i32 - 32);
                assert_eq!(map.voxel_at(p), None);
            }
        }
    }
    assert!(!map.exists_at(origin));
    assert!(map.exists_at(other));
    assert_eq!(map.voxel_at(IVec3::new(5, 5, 5)), Some(Voxel(4)));
    assert!(map.remove(origin).is_none());
}

#[test]
fn remove_of_a_missing_chunk_changes_nothing() {
    let mut map = ChunkMap::new();
    map.insert(IVec3::new(0, 0, 0), Chunk::new(Voxel(4)));
    assert!(map.remove(IVec3::new(32, 0, 0)).is_none());
    assert!(map.remove(IVec3::new(1, 0, 0)).is_none());
    assert!(map.exists_at(IVec3::new(0, 0, 0)));
    assert_eq!(map.voxel_at(IVec3::new(1, 0, 0)), Some(Voxel(4)));
}

#[test]
fn insert_over_a_chunk_replaces_it() {
    let mut map = ChunkMap::new();
    let origin = IVec3::new(96, 0, -128);
    map.insert(origin, patterned(1));
    map.insert(origin, Chunk::new(Voxel(77)));
    for z in 0..32i32 {
        for y in 0..32i32 {
            for x in 0..32i32 {
                let p = IVec3::new(origin.x + x, origin.y + y, origin.z + z);
                assert_eq!(map.voxel_at(p), Some(Voxel(77)));
            }
        }
    }
    map.insert_empty(origin);
    assert_eq!(map.voxel_at(IVec3::new(100, 3, -100)), Some(Voxel(0)));
    let last = map.remove(origin);
    assert!(last.is_some());
    assert!(map.remove(origin).is_none());
}

#[test]
fn unaligned_origin_has_no_chunk() {
    let mut map = ChunkMap::new();
    map.insert_empty(IVec3::new(0, 0, 0));
    assert!(map.buffer_at(IVec3::new(1, 0, 0)).is_none());
    assert!(map.buffer_at(IVec3::new(0, 31, 0)).is_none());
    assert!(map.buffer_at_mut(IVec3::new(0, 0, 5)).is_none());
    assert!(!map.exists_at(IVec3::new(1, 1, 1)));
    assert!(map.buffer_at(IVec3::new(0, 0, 0)).is_some());
}

#[test]
fn buffer_at_gives_the_chunk_that_was_inserted() {
    let mut map = ChunkMap::new();
    let origin = IVec3::new(-32, 0, 32);
    map.insert(origin, patterned(5));
    let chunk = match map.buffer_at(origin) {
        Some(chunk) => chunk,
        None => panic!("the chunk was there"),
    };
    assert_eq!(chunk.voxel_at(UVec3::new(1, 2, 3)), pattern(5, 1, 2, 3));
    assert_eq!(chunk.voxel_at(UVec3::new(31, 0, 31)), pattern(5, 31, 0, 31));
}

#[test]
fn buffer_at_mut_edits_are_seen_in_the_world() {
    let mut map = ChunkMap::new();
    let origin = IVec3::new(-32, 0, 32);
    map.insert_empty(origin);
    match map.buffer_at_mut(origin) {
        Some(chunk) => {
            chunk.fill_extent(
                Extent::from_min_and_shape(UVec3::new(0, 0, 0), UVec3::new(32, 1, 32)),
                Voxel(2),
            );
            *chunk.voxel_at_mut(UVec3::new(5, 5, 5)) = Voxel(3);
        }
        None => panic!("the chunk was there"),
    }
    assert_eq!(map.voxel_at(IVec3::new(-32, 0, 32)), Some(Voxel(2)));
    assert_eq!(map.voxel_at(IVec3::new(-1, 0, 63)), Some(Voxel(2)));
    assert_eq!(map.voxel_at(IVec3::new(-1, 1, 63)), Some(Voxel(0)));
    assert_eq!(map.voxel_at(IVec3::new(-27, 5, 37)), Some(Voxel(3)));
}

#[test]
fn voxel_at_mut_writes_one_voxel_of_the_world() {
    let mut map = ChunkMap::new();
    map.insert_empty(IVec3::new(-32, -32, -32));
    map.insert_empty(IVec3::new(0, 0, 0));
    match map.voxel_at_mut(IVec3::new(-1, -1, -1)) {
        Some(v) => {
            assert_eq!(*v, Voxel(0));
            *v = Voxel(42);
        }
        None => panic!("the chunk was there"),
    }
    assert_eq!(map.voxel_at(IVec3::new(-1, -1, -1)), Some(Voxel(42)));
    assert_eq!(map.voxel_at(IVec3::new(-2, -1, -1)), Some(Voxel(0)));
    assert_eq!(map.voxel_at(IVec3::new(0, 0, 0)), Some(Voxel(0)));
    let chunk = match map.buffer_at(IVec3::new(-32, -32, -32)) {
        Some(chunk) => chunk,
        None => panic!("the chunk was there"),
    };
    assert_eq!(chunk.voxel_at(UVec3::new(31, 31, 31)), Voxel(42));
    assert_eq!(chunk.data()[32767], Voxel(42));
}

#[test]
fn voxel_at_mut_makes_no_chunk() {
    let mut map = ChunkMap::new();
    assert!(map.voxel_at_mut(IVec3::new(3, 4, 5)).is_none());
    assert!(!map.exists_at(IVec3::new(0, 0, 0)));
    assert_eq!(map.voxel_at(IVec3::new(3, 4, 5)), None);
}

#[test]
fn chunks_at_many_origins_stay_apart() {
    let mut map = ChunkMap::new();
    let axis = [i32::MIN, -64, -32, 0, 32, 64, i32::MAX - 31];
    let mut n: u8 = 0;
    for &x in &axis {
        for &y in &axis {
            for &z in &axis {
                n = n.wrapping_add(1);
                map.insert(IVec3::new(x, y, z), Chunk::new(Voxel(n)));
            }
        }
    }
    let mut n: u8 = 0;
    for &x in &axis {
        for &y in &axis {
            for &z in &axis {
                n = n.wrapping_add(1);
                assert!(map.exists_at(IVec3::new(x, y, z)));
                assert_eq!(map.voxel_at(IVec3::new(x, y, z)), Some(Voxel(n)));
                assert_eq!(
                    map.voxel_at(IVec3::new(x + 31, y + 31, z + 31)),
                    Some(Voxel(n))
                );
            }
        }
    }
    assert!(!map.exists_at(IVec3::new(96, 0, 0)));
    assert_eq!(map.voxel_at(IVec3::new(96, 0, 0)), None);
}

#[test]
fn extreme_coordinates_resolve() {
    let mut map = ChunkMap::new();
    let low = IVec3::new(i32::MIN, i32::MIN, i32::MIN);
    let high = IVec3::new(i32::MAX, i32::MAX, i32::MAX);
    assert_eq!(map.voxel_at(low), None);
    assert_eq!(map.voxel_at(high), None);
    map.insert(chunk_origin(low), Chunk::new(Voxel(1)));
    map.insert(chunk_origin(high), Chunk::new(Voxel(2)));
    assert_eq!(map.voxel_at(low), Some(Voxel(1)));
    assert_eq!(map.voxel_at(high), Some(Voxel(2)));
    assert_eq!(map.voxel_at(IVec3::new(i32::MIN + 31, i32::MIN, i32::MIN)), Some(Voxel(1)));
    assert_eq!(map.voxel_at(IVec3::new(i32::MIN + 32, i32::MIN, i32::MIN)), None);
    assert_eq!(map.voxel_at(IVec3::new(i32::MAX - 31, i32::MAX, i32::MAX)), Some(Voxel(2)));
    assert_eq!(map.voxel_at(IVec3::new(i32::MAX - 32, i32::MAX, i32::MAX)), None);
}
