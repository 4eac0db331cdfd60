//! The sparse map from chunk origins to chunks, and the arithmetic that splits
//! a world coordinate into a chunk origin and an offset inside that chunk.

use crate::world::chunk::{in_chunk, uniform, Chunk, Voxel, CHUNK_LENGTH};
use crate::world::lattice::{IVec3, UVec3};
use std::collections::BTreeMap;
use vstd::prelude::*;

verus! {

/// `i32::rem_euclid`: the least non-negative remainder of `lhs` modulo `rhs`.
/// It panics when `rhs` is zero and when the division overflows.
pub assume_specification[ i32::rem_euclid ](lhs: i32, rhs: i32) -> (r: i32)
    requires
        rhs != 0,
        !(lhs == i32::MIN && rhs == -1),
    ensures
        r == lhs % rhs,
;

/// Whether every component of `p` is a multiple of the chunk edge length.
pub open spec fn spec_is_aligned(p: IVec3) -> bool {
    &&& (p.x as int) % (CHUNK_LENGTH as int) == 0
    &&& (p.y as int) % (CHUNK_LENGTH as int) == 0
    &&& (p.z as int) % (CHUNK_LENGTH as int) == 0
}

/// The greatest multiple of the chunk edge length that is at most `c`.
pub open spec fn axis_origin(c: i32) -> i32 {
    (c - (c as int) % (CHUNK_LENGTH as int)) as i32
}

/// The distance from `axis_origin(c)` up to `c`.
pub open spec fn axis_offset(c: i32) -> u32 {
    ((c as int) % (CHUNK_LENGTH as int)) as u32
}

/// The origin of the chunk that holds the world coordinate `pos`.
pub open spec fn spec_chunk_origin(pos: IVec3) -> IVec3 {
    IVec3 { x: axis_origin(pos.x), y: axis_origin(pos.y), z: axis_origin(pos.z) }
}

/// Where the world coordinate `pos` lies inside its chunk.
pub open spec fn spec_local_offset(pos: IVec3) -> UVec3 {
    UVec3 { x: axis_offset(pos.x), y: axis_offset(pos.y), z: axis_offset(pos.z) }
}

/// The world coordinate of the local coordinate `local` in the chunk at
/// `origin`.
pub open spec fn world_coord(origin: IVec3, local: UVec3) -> IVec3 {
    IVec3 {
        x: (origin.x + local.x) as i32,
        y: (origin.y + local.y) as i32,
        z: (origin.z + local.z) as i32,
    }
}

/// The alignment mask: the complement of `CHUNK_LENGTH - 1` on each axis.
pub open spec fn spec_shape_mask() -> IVec3 {
    IVec3 { x: !31i32, y: !31i32, z: !31i32 }
}

/// Clearing the low bits of a coordinate rounds it down to a multiple of the
/// chunk edge length, for negative coordinates too.
pub proof fn lemma_mask_rounds_down(c: i32)
    ensures
        c & !31i32 == axis_origin(c),
        axis_origin(c) & 31i32 == 0,
{
    assert(c & !31i32 == c - (c % 32)) by (bit_vector);
    assert((c & !31i32) & 31i32 == 0) by (bit_vector);
}

/// The origin of the chunk that holds `pos`: each component rounded down to a
/// multiple of the chunk edge length.
#[verifier::when_used_as_spec(spec_chunk_origin)]
pub fn chunk_origin(pos: IVec3) -> (o: IVec3)
    ensures
        o == spec_chunk_origin(pos),
        is_aligned(o),
{
    proof {
        lemma_mask_rounds_down(pos.x);
        lemma_mask_rounds_down(pos.y);
        lemma_mask_rounds_down(pos.z);
    }
    pos.bitand(IVec3::splat(!((CHUNK_LENGTH - 1) as i32)))
}

/// Where `pos` lies inside its chunk: the Euclidean remainder of each
/// component by the chunk edge length.
#[verifier::when_used_as_spec(spec_local_offset)]
pub fn local_offset(pos: IVec3) -> (l: UVec3)
    ensures
        l == spec_local_offset(pos),
        in_chunk(l),
{
    let x: i32 = pos.x.rem_euclid(CHUNK_LENGTH as i32);
    let y: i32 = pos.y.rem_euclid(CHUNK_LENGTH as i32);
    let z: i32 = pos.z.rem_euclid(CHUNK_LENGTH as i32);
    UVec3::new(x as u32, y as u32, z as u32)
}

/// Splitting a coordinate loses nothing: on every axis the origin plus the
/// offset is the coordinate, and the offset is a local coordinate.
pub proof fn lemma_origin_plus_offset(c: IVec3)
    ensures
        chunk_origin(c).x + local_offset(c).x == c.x,
        chunk_origin(c).y + local_offset(c).y == c.y,
        chunk_origin(c).z + local_offset(c).z == c.z,
        world_coord(chunk_origin(c), local_offset(c)) == c,
        in_chunk(local_offset(c)),
{
}

/// A chunk origin is aligned: every component is a multiple of the chunk edge
/// length, which is to say that its low bits are clear.
pub proof fn lemma_origin_aligned(c: IVec3)
    ensures
        is_aligned(chunk_origin(c)),
        chunk_origin(c).x & 31i32 == 0,
        chunk_origin(c).y & 31i32 == 0,
        chunk_origin(c).z & 31i32 == 0,
{
    lemma_mask_rounds_down(c.x);
    lemma_mask_rounds_down(c.y);
    lemma_mask_rounds_down(c.z);
}

/// A local coordinate in the chunk at an aligned origin names a world
/// coordinate that splits back into that origin and that local coordinate.
pub proof fn lemma_split_world_coord(origin: IVec3, local: UVec3)
    requires
        is_aligned(origin),
        in_chunk(local),
    ensures
        chunk_origin(world_coord(origin, local)) == origin,
        local_offset(world_coord(origin, local)) == local,
{
}

/// Whether `p` can be a chunk origin: every component is a multiple of the
/// chunk edge length.
#[verifier::when_used_as_spec(spec_is_aligned)]
pub fn is_aligned(p: IVec3) -> (b: bool)
    ensures
        b == spec_is_aligned(p),
{
    let o = chunk_origin(p);
    o.x == p.x && o.y == p.y && o.z == p.z
}

/// What a world holds at `pos`: the voxel at the local offset of `pos` in the
/// chunk at the chunk origin of `pos`, if that chunk is there.
pub open spec fn voxel_in(world: Map<IVec3, Map<UVec3, Voxel>>, pos: IVec3) -> Option<Voxel> {
    if world.contains_key(chunk_origin(pos)) {
        Some(world[chunk_origin(pos)][local_offset(pos)])
    } else {
        None
    }
}

/// The Morton code that `ilattice` gives to the point `(x, y, z)`: the number
/// held by the `Morton3i32` made from that point.
pub uninterp spec fn morton_code(x: i32, y: i32, z: i32) -> u128;

/// Converts a point to `ilattice::morton::Morton3i32` and returns the number
/// it holds. The code interleaves the bits of the three components, and the
/// conversion back gives the point again, so no two points share a code. The
/// contract names the code and claims no more of it than that.
#[verifier::external_body]
fn morton_key(p: IVec3) -> (k: u128)
    ensures
        k == morton_code(p.x, p.y, p.z),
        forall|x: i32, y: i32, z: i32| #[trigger]
            morton_code(x, y, z) == k ==> x == p.x && y == p.y && z == p.z,
{
    ilattice::morton::Morton3i32::from(ilattice::glam::IVec3::new(p.x, p.y, p.z)).0
}

/// Calls `BTreeMap::get_mut`: exclusive access to the value stored under `k`,
/// if there is one. The keys stay as they are, and so does every other value;
/// the value under `k` ends as the caller leaves it.
#[verifier::external_body]
fn get_mut<'a, V>(m: &'a mut BTreeMap<u128, V>, k: u128) -> (r: Option<&'a mut V>)
    ensures
        match r {
            Some(v) => old(m)@.contains_key(k) && *v == old(m)@[k] && final(m)@ == old(m)@.insert(
                k,
                *final(v),
            ),
            None => !old(m)@.contains_key(k) && final(m)@ == old(m)@,
        },
{
    m.get_mut(&k)
}

spec fn key_of(p: IVec3) -> u128 {
    morton_code(p.x, p.y, p.z)
}

/// Whether no other point has the code of `p`.
spec fn code_is_unique(p: IVec3) -> bool {
    forall|x: i32, y: i32, z: i32| #[trigger]
        morton_code(x, y, z) == key_of(p) ==> x == p.x && y == p.y && z == p.z
}

/// The world that a map from codes to chunks stands for.
spec fn world_of(chunks: Map<u128, Chunk>) -> Map<IVec3, Map<UVec3, Voxel>> {
    Map::new(|o: IVec3| chunks.contains_key(key_of(o)), |o: IVec3| chunks[key_of(o)]@)
}

/// Whether every point whose code is a key of `chunks` is aligned.
spec fn keys_aligned(chunks: Map<u128, Chunk>) -> bool {
    forall|o: IVec3| chunks.contains_key(#[trigger] key_of(o)) ==> is_aligned(o)
}

/// Storing a chunk under the code of `p` changes the world at `p` only.
proof fn lemma_world_insert(chunks: Map<u128, Chunk>, p: IVec3)
    requires
        code_is_unique(p),
    ensures
        forall|c: Chunk| #[trigger]
            world_of(chunks.insert(key_of(p), c)) == world_of(chunks).insert(p, c@),
        keys_aligned(chunks) && is_aligned(p) ==> forall|c: Chunk|
            keys_aligned(#[trigger] chunks.insert(key_of(p), c)),
{
    assert forall|c: Chunk| #[trigger]
        world_of(chunks.insert(key_of(p), c)) == world_of(chunks).insert(p, c@) by {
        assert(world_of(chunks.insert(key_of(p), c)) =~= world_of(chunks).insert(p, c@));
    }
}

/// Dropping the code of `p` changes the world at `p` only.
proof fn lemma_world_remove(chunks: Map<u128, Chunk>, p: IVec3)
    requires
        code_is_unique(p),
    ensures
        world_of(chunks.remove(key_of(p))) == world_of(chunks).remove(p),
        keys_aligned(chunks) ==> keys_aligned(chunks.remove(key_of(p))),
{
    assert(world_of(chunks.remove(key_of(p))) =~= world_of(chunks).remove(p));
}

/// The sparse voxel world. Its view maps the origin of each chunk that is
/// there to the view of that chunk.
pub struct ChunkMap {
    chunks: BTreeMap<u128, Chunk>,
    shape_mask: IVec3,
}

impl View for ChunkMap {
    type V = Map<IVec3, Map<UVec3, Voxel>>;

    closed spec fn view(&self) -> Map<IVec3, Map<UVec3, Voxel>> {
        world_of(self.chunks@)
    }
}

impl ChunkMap {
    /// The mask is the alignment mask, and every origin in the map is aligned.
    pub closed spec fn wf(&self) -> bool {
        &&& self.shape_mask == spec_shape_mask()
        &&& keys_aligned(self.chunks@)
    }

    /// In a well-formed map every origin is aligned.
    pub proof fn lemma_origins_aligned(&self)
        requires
            self.wf(),
        ensures
            forall|o: IVec3| #[trigger] self@.contains_key(o) ==> is_aligned(o),
    {
        assert forall|o: IVec3| #[trigger] self@.contains_key(o) implies is_aligned(o) by {
            assert(self.chunks@.contains_key(key_of(o)));
        }
    }

    /// The world without any chunk.
    pub fn new() -> (m: ChunkMap)
        ensures
            m.wf(),
            m@ == Map::<IVec3, Map<UVec3, Voxel>>::empty(),
    {
        let m = ChunkMap {
            chunks: BTreeMap::new(),
            shape_mask: IVec3::splat(!((CHUNK_LENGTH - 1) as i32)),
        };
        assert(m@ =~= Map::<IVec3, Map<UVec3, Voxel>>::empty());
        m
    }

    /// The voxel at the world coordinate `pos`, or `None` where no chunk holds
    /// `pos`.
    pub fn voxel_at(&self, pos: IVec3) -> (r: Option<Voxel>)
        requires
            self.wf(),
        ensures
            r == voxel_in(self@, pos),
    {
        proof {
            lemma_mask_rounds_down(pos.x);
            lemma_mask_rounds_down(pos.y);
            lemma_mask_rounds_down(pos.z);
        }
        let chunk_minimum = pos.bitand(self.shape_mask);
        let local_minimum = local_offset(pos);
        match self.buffer_at(chunk_minimum) {
            Some(buffer) => Some(buffer.voxel_at(local_minimum)),
            None => None,
        }
    }

    /// Exclusive access to the voxel at the world coordinate `pos`, or `None`
    /// where no chunk holds `pos`: no chunk is made. What the caller leaves in
    /// the voxel is the only change to the world.
    pub fn voxel_at_mut(&mut self, pos: IVec3) -> (r: Option<&mut Voxel>)
        requires
            old(self).wf(),
        ensures
            final(self).wf(),
            match r {
                Some(v) => {
                    &&& old(self)@.contains_key(chunk_origin(pos))
                    &&& Some(*v) == voxel_in(old(self)@, pos)
                    &&& final(self)@ == old(self)@.insert(
                        chunk_origin(pos),
                        old(self)@[chunk_origin(pos)].insert(local_offset(pos), *final(v)),
                    )
                },
                None => !old(self)@.contains_key(chunk_origin(pos)) && final(self)@ == old(self)@,
            },
    {
        proof {
            lemma_mask_rounds_down(pos.x);
            lemma_mask_rounds_down(pos.y);
            lemma_mask_rounds_down(pos.z);
        }
        let chunk_minimum = pos.bitand(self.shape_mask);
        let local_minimum = local_offset(pos);
        match self.buffer_at_mut(chunk_minimum) {
            Some(buffer) => Some(buffer.voxel_at_mut(local_minimum)),
            None => None,
        }
    }

    /// The chunk at the origin `minimum`, if it is there. An origin that is
    /// not aligned has no chunk.
    pub fn buffer_at(&self, minimum: IVec3) -> (r: Option<&Chunk>)
        requires
            self.wf(),
        ensures
            match r {
                Some(c) => self@.contains_key(minimum) && c@ == self@[minimum],
                None => !self@.contains_key(minimum),
            },
            !is_aligned(minimum) ==> r.is_none(),
    {
        broadcast use vstd::std_specs::btree::group_btree_axioms;

        let k: u128 = morton_key(minimum);
        assert(k == key_of(minimum));
        self.chunks.get(&k)
    }

    /// Exclusive access to the chunk at the origin `minimum`, if it is there.
    /// What the caller leaves in the chunk is the only change to the world.
    pub fn buffer_at_mut(&mut self, minimum: IVec3) -> (r: Option<&mut Chunk>)
        requires
            old(self).wf(),
        ensures
            final(self).wf(),
            match r {
                Some(c) => {
                    &&& old(self)@.contains_key(minimum)
                    &&& c@ == old(self)@[minimum]
                    &&& final(self)@ == old(self)@.insert(minimum, final(c)@)
                },
                None => !old(self)@.contains_key(minimum) && final(self)@ == old(self)@,
            },
            !is_aligned(minimum) ==> r.is_none(),
    {
        let k: u128 = morton_key(minimum);
        proof {
            lemma_world_insert(self.chunks@, minimum);
        }
        get_mut(&mut self.chunks, k)
    }

    /// Whether there is a chunk at the origin `minimum`.
    pub fn exists_at(&self, minimum: IVec3) -> (b: bool)
        requires
            self.wf(),
        ensures
            b == self@.contains_key(minimum),
    {
        broadcast use vstd::std_specs::btree::group_btree_axioms;

        let k: u128 = morton_key(minimum);
        self.chunks.contains_key(&k)
    }

    /// Puts `buffer` at the aligned origin `minimum`. A chunk that was there
    /// is dropped.
    pub fn insert(&mut self, minimum: IVec3, buffer: Chunk)
        requires
            old(self).wf(),
            is_aligned(minimum),
        ensures
            final(self).wf(),
            final(self)@ == old(self)@.insert(minimum, buffer@),
    {
        broadcast use vstd::std_specs::btree::group_btree_axioms;

        let k: u128 = morton_key(minimum);
        proof {
            lemma_world_insert(self.chunks@, minimum);
        }
        self.chunks.insert(k, buffer);
    }

    /// Puts a chunk of empty voxels at the aligned origin `minimum`.
    pub fn insert_empty(&mut self, minimum: IVec3)
        requires
            old(self).wf(),
            is_aligned(minimum),
        ensures
            final(self).wf(),
            final(self)@ == old(self)@.insert(minimum, uniform(Voxel(0))),
    {
        self.insert(minimum, Chunk::new_empty());
    }

    /// Takes the chunk at the origin `pos` out of the world and returns it, if
    /// it is there.
    pub fn remove(&mut self, pos: IVec3) -> (r: Option<Chunk>)
        requires
            old(self).wf(),
        ensures
            final(self).wf(),
            final(self)@ == old(self)@.remove(pos),
            match r {
                Some(c) => old(self)@.contains_key(pos) && c@ == old(self)@[pos],
                None => !old(self)@.contains_key(pos),
            },
    {
        broadcast use vstd::std_specs::btree::group_btree_axioms;

        let k: u128 = morton_key(pos);
        proof {
            lemma_world_remove(self.chunks@, pos);
        }
        self.chunks.remove(&k)
    }

    /// The alignment mask: `pos & mask` is the origin of the chunk that holds
    /// `pos`.
    pub fn shape_mask(&self) -> (m: IVec3)
        requires
            self.wf(),
        ensures
            m == spec_shape_mask(),
    {
        self.shape_mask
    }
}

/// A chunk that was put into the world is read back as it was: after an
/// insertion at an aligned origin, each local coordinate of the chunk reads
/// as the chunk held it.
pub proof fn lemma_read_after_insert(
    world: Map<IVec3, Map<UVec3, Voxel>>,
    origin: IVec3,
    chunk: Map<UVec3, Voxel>,
    local: UVec3,
)
    requires
        is_aligned(origin),
        in_chunk(local),
    ensures
        voxel_in(world.insert(origin, chunk), world_coord(origin, local)) == Some(chunk[local]),
{
    lemma_split_world_coord(origin, local);
}

/// A coordinate has a voxel exactly when the chunk at its origin is there. In
/// the world without chunks no coordinate has one.
pub proof fn lemma_absent_without_chunk(world: Map<IVec3, Map<UVec3, Voxel>>, pos: IVec3)
    ensures
        voxel_in(world, pos).is_none() <==> !world.contains_key(chunk_origin(pos)),
        voxel_in(Map::<IVec3, Map<UVec3, Voxel>>::empty(), pos).is_none(),
{
}

/// After the chunk at an origin was removed, every coordinate of that chunk
/// is absent, and the coordinates of the other chunks read as before.
pub proof fn lemma_absent_after_remove(
    world: Map<IVec3, Map<UVec3, Voxel>>,
    origin: IVec3,
    pos: IVec3,
)
    ensures
        chunk_origin(pos) == origin ==> voxel_in(world.remove(origin), pos).is_none(),
        chunk_origin(pos) != origin ==> voxel_in(world.remove(origin), pos) == voxel_in(
            world,
            pos,
        ),
{
}

/// An insertion at an origin that holds a chunk replaces that chunk: nothing
/// of the earlier chunk is left, and reads give the voxels of the later one.
pub proof fn lemma_insert_overwrites(
    world: Map<IVec3, Map<UVec3, Voxel>>,
    origin: IVec3,
    first: Map<UVec3, Voxel>,
    second: Map<UVec3, Voxel>,
    local: UVec3,
)
    requires
        is_aligned(origin),
        in_chunk(local),
    ensures
        world.insert(origin, first).insert(origin, second) == world.insert(origin, second),
        voxel_in(world.insert(origin, first).insert(origin, second), world_coord(origin, local))
            == Some(second[local]),
{
    assert(world.insert(origin, first).insert(origin, second) =~= world.insert(origin, second));
    lemma_read_after_insert(world, origin, second, local);
}

} // verus!
