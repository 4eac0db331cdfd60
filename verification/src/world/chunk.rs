//! A chunk: a dense cube of voxels addressed by local coordinates.

use crate::world::lattice::{Extent, UVec3};
use vstd::prelude::*;

verus! {

/// Edge length of a chunk, in voxels. A power of two.
pub const CHUNK_LENGTH: u32 = 32;

/// `CHUNK_LENGTH` as a `usize`.
pub const CHUNK_LENGTH_U: usize = 32;

/// Number of voxels in a chunk.
pub const CHUNK_VOLUME: usize = CHUNK_LENGTH_U * CHUNK_LENGTH_U * CHUNK_LENGTH_U;

/// One cell of the volume: an opaque byte. Zero is the empty voxel.
#[derive(Copy, Clone, Hash, Debug, PartialEq, Eq, Structural)]
pub struct Voxel(pub u8);

impl Default for Voxel {
    fn default() -> (v: Voxel)
        ensures
            v == Voxel(0),
    {
        Voxel(0)
    }
}

/// Whether `p` is a local coordinate: every component below the edge length.
pub open spec fn spec_in_chunk(p: UVec3) -> bool {
    p.x < CHUNK_LENGTH && p.y < CHUNK_LENGTH && p.z < CHUNK_LENGTH
}

/// Whether `p` is a local coordinate: every component below the edge length.
#[verifier::when_used_as_spec(spec_in_chunk)]
pub fn in_chunk(p: UVec3) -> (b: bool)
    ensures
        b == spec_in_chunk(p),
{
    p.x < CHUNK_LENGTH && p.y < CHUNK_LENGTH && p.z < CHUNK_LENGTH
}

/// Whether the box `e` lies inside the chunk.
pub open spec fn spec_fits_in_chunk(e: Extent) -> bool {
    &&& e.minimum.x + e.shape.x <= CHUNK_LENGTH
    &&& e.minimum.y + e.shape.y <= CHUNK_LENGTH
    &&& e.minimum.z + e.shape.z <= CHUNK_LENGTH
}

/// Whether the box `e` lies inside the chunk.
#[verifier::when_used_as_spec(spec_fits_in_chunk)]
pub fn fits_in_chunk(e: Extent) -> (b: bool)
    ensures
        b == spec_fits_in_chunk(e),
{
    e.minimum.x <= CHUNK_LENGTH && e.shape.x <= CHUNK_LENGTH - e.minimum.x && e.minimum.y
        <= CHUNK_LENGTH && e.shape.y <= CHUNK_LENGTH - e.minimum.y && e.minimum.z <= CHUNK_LENGTH
        && e.shape.z <= CHUNK_LENGTH - e.minimum.z
}

/// The place of the point `(x, y, z)` in the flat buffer: `x` varies fastest,
/// then `y`, then `z`.
pub open spec fn linear_index(p: UVec3) -> int {
    p.x + CHUNK_LENGTH * p.y + CHUNK_LENGTH * CHUNK_LENGTH * p.z
}

/// Where the row of `e` with the given `y` and `z` begins in the flat buffer.
pub open spec fn row_start(e: Extent, y: u32, z: u32) -> int {
    linear_index(UVec3 { x: e.minimum.x, y, z })
}

/// Whether the flat index `i` lies in one of the rows of the box `e`. A row is
/// the run of `e.shape.x` places that begins at `row_start(e, y, z)`, for a
/// `y` and a `z` in the box.
pub open spec fn in_row_of(e: Extent, i: int) -> bool {
    exists|y: u32, z: u32|
        {
            &&& e.minimum.y <= y < e.minimum.y + e.shape.y
            &&& e.minimum.z <= z < e.minimum.z + e.shape.z
            &&& #[trigger] row_start(e, y, z) <= i < row_start(e, y, z) + e.shape.x
        }
}

/// The chunk in which every voxel is `v`.
pub open spec fn uniform(v: Voxel) -> Map<UVec3, Voxel> {
    Map::new(|p: UVec3| in_chunk(p), |p: UVec3| v)
}

/// The chunk `m` after every voxel in the box `e` was set to `v`.
pub open spec fn filled(m: Map<UVec3, Voxel>, e: Extent, v: Voxel) -> Map<UVec3, Voxel> {
    Map::new(
        |p: UVec3| in_chunk(p),
        |p: UVec3|
            if e.contains(p) {
                v
            } else {
                m[p]
            },
    )
}

/// A cube of `CHUNK_LENGTH`³ voxels. Its view maps each local coordinate to the
/// voxel stored there.
pub struct Chunk {
    data: Vec<Voxel>,
}

impl View for Chunk {
    type V = Map<UVec3, Voxel>;

    closed spec fn view(&self) -> Map<UVec3, Voxel> {
        Map::new(|p: UVec3| in_chunk(p), |p: UVec3| self.data@[linear_index(p)])
    }
}

/// Calls `linearize` of the chunk's `ndshape::ConstShape3u32`, which computes
/// `x + L * y + L * L * z` for the edge length `L`. The multiplications wrap
/// and the additions do not, so the contract asks that the exact sum fits in a
/// `u32`.
#[verifier::external_body]
fn linearize(p: UVec3) -> (i: u32)
    requires
        linear_index(p) <= u32::MAX,
    ensures
        i == linear_index(p),
{
    ndshape::Shape::linearize(
        &ndshape::ConstShape3u32::<CHUNK_LENGTH, CHUNK_LENGTH, CHUNK_LENGTH>,
        [p.x, p.y, p.z],
    )
}

/// Calls `ndcopy::fill3` on a buffer of the chunk's shape. For every `y` and
/// `z` of the box it overwrites the run of `e.shape.x` places that begins at
/// the linear index of `(e.minimum.x, y, z)`, and it writes nowhere else. With
/// the box inside the chunk no run reaches past the end of the buffer, which
/// is the one way the call can panic.
#[verifier::external_body]
fn fill_rows(data: &mut Vec<Voxel>, e: Extent, val: Voxel)
    requires
        old(data)@.len() == CHUNK_VOLUME,
        fits_in_chunk(e),
    ensures
        final(data)@.len() == old(data)@.len(),
        forall|i: int|
            0 <= i < old(data)@.len() ==> #[trigger] final(data)@[i] == (if in_row_of(e, i) {
                val
            } else {
                old(data)@[i]
            }),
    no_unwind
{
    ndcopy::fill3(
        [e.shape.x, e.shape.y, e.shape.z],
        val,
        data.as_mut_slice(),
        &ndshape::ConstShape3u32::<CHUNK_LENGTH, CHUNK_LENGTH, CHUNK_LENGTH>,
        [e.minimum.x, e.minimum.y, e.minimum.z],
    );
}

/// Inside a chunk, a flat index lies in a row of the box exactly when the
/// point it stands for lies in the box.
pub proof fn lemma_row_membership(e: Extent, p: UVec3)
    requires
        fits_in_chunk(e),
        in_chunk(p),
    ensures
        in_row_of(e, linear_index(p)) <==> e.contains(p),
{
    if e.contains(p) {
        assert(row_start(e, p.y, p.z) <= linear_index(p) < row_start(e, p.y, p.z) + e.shape.x);
    }
    if in_row_of(e, linear_index(p)) {
        let (y, z) = choose|y: u32, z: u32|
            {
                &&& e.minimum.y <= y < e.minimum.y + e.shape.y
                &&& e.minimum.z <= z < e.minimum.z + e.shape.z
                &&& #[trigger] row_start(e, y, z) <= linear_index(p) < row_start(e, y, z)
                    + e.shape.x
            };
        assert(z == p.z);
        assert(y == p.y);
    }
}

impl Chunk {
    #[verifier::type_invariant]
    spec fn inv(&self) -> bool {
        self.data@.len() == CHUNK_VOLUME
    }

    /// A chunk in which every voxel is `initial_val`.
    pub fn new(initial_val: Voxel) -> (c: Chunk)
        ensures
            c@ == uniform(initial_val),
    {
        let c = Chunk { data: vec![initial_val; CHUNK_VOLUME] };
        assert(c@ =~= uniform(initial_val));
        c
    }

    /// A chunk in which every voxel is the empty voxel.
    pub fn new_empty() -> (c: Chunk)
        ensures
            c@ == uniform(Voxel(0)),
    {
        let c = Chunk { data: vec![Voxel::default(); CHUNK_VOLUME] };
        assert(c@ =~= uniform(Voxel(0)));
        c
    }

    /// The voxel at the local coordinate `pos`.
    pub fn voxel_at(&self, pos: UVec3) -> (v: Voxel)
        requires
            in_chunk(pos),
        ensures
            v == self@[pos],
    {
        proof {
            use_type_invariant(self);
        }
        let i: usize = linearize(pos) as usize;
        self.data[i]
    }

    /// Exclusive access to the voxel at the local coordinate `pos`. What the
    /// caller leaves there is the only change to the chunk.
    pub fn voxel_at_mut(&mut self, pos: UVec3) -> (v: &mut Voxel)
        requires
            in_chunk(pos),
        ensures
            *v == old(self)@[pos],
            final(self)@ == old(self)@.insert(pos, *final(v)),
    {
        proof {
            use_type_invariant(&*self);
        }
        let i: usize = linearize(pos) as usize;
        &mut self.data[i]
    }

    /// Sets every voxel in the box `extent` to `val` and leaves the others as
    /// they were.
    pub fn fill_extent(&mut self, extent: Extent, val: Voxel)
        requires
            fits_in_chunk(extent),
        ensures
            final(self)@ == filled(old(self)@, extent, val),
    {
        proof {
            use_type_invariant(&*self);
        }
        fill_rows(&mut self.data, extent, val);
        proof {
            assert forall|p: UVec3| in_chunk(p) implies #[trigger] self@[p] == filled(
                old(self)@,
                extent,
                val,
            )[p] by {
                lemma_row_membership(extent, p);
            }
            assert(self@ =~= filled(old(self)@, extent, val));
        }
    }

    /// The voxels in storage order: the voxel of the local coordinate `p` is at
    /// `linear_index(p)`.
    pub fn data(&self) -> (d: &[Voxel])
        ensures
            d@.len() == CHUNK_VOLUME,
            forall|p: UVec3| in_chunk(p) ==> #[trigger] d@[linear_index(p)] == self@[p],
    {
        proof {
            use_type_invariant(self);
        }
        self.data.as_slice()
    }
}

} // verus!
