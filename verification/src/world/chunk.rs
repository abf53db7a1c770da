use vstd::prelude::*;
use crate::world::block::Block;

verus! {

broadcast use vstd::array::group_array_axioms;

pub const CHUNK_SIZE_LOG2: usize = 4;
pub const CHUNK_SIZE: usize = 16;
pub const CHUNK_VOLUME: usize = 4096;

/// A vector of three `i32`, used for world block positions and chunk positions.
#[derive(Clone, Copy, PartialEq, Eq, Structural, Debug)]
pub struct IVec3 {
    pub x: i32,
    pub y: i32,
    pub z: i32,
}

/// Position of a block in the world.
pub type WorldBlockPos = IVec3;

/// `v as u32 as usize` of an `i32`: its two's complement bits.
pub open spec fn i32_bits(v: i32) -> usize {
    (v as u32) as usize
}

/// The packed world index of a block: y in the bits from 48 up, z from 24 up, x below.
pub open spec fn world_block_index(p: IVec3) -> usize {
    ((i32_bits(p.y) << 48usize) | (i32_bits(p.z) << 24usize)) | i32_bits(p.x)
}

/// Floor division of a coordinate by the chunk size.
pub open spec fn chunk_coord(v: i32) -> int {
    v as int / 16
}

impl IVec3 {
    pub fn new(x: i32, y: i32, z: i32) -> (r: Self)
        ensures
            r == (IVec3 { x, y, z }),
    {
        IVec3 { x, y, z }
    }

    /// Packs a world position into one index: y above bit 48, z above bit 24, x below.
    pub fn to_block_index(self) -> (r: usize)
        requires
            usize::BITS == 64,
        ensures
            r == world_block_index(self),
    {
        let y = self.y as u32 as usize;
        let z = self.z as u32 as usize;
        let x = self.x as u32 as usize;
        (y << 48usize) | (z << 24usize) | x
    }

    /// The position of this block within its chunk.
    pub fn to_local(self) -> (r: ChunkBlockPos)
        ensures
            r.x == (self.x as u8) % 16,
            r.y == (self.y as u8) % 16,
            r.z == (self.z as u8) % 16,
            r.x as int == self.x as int % 16,
            r.y as int == self.y as int % 16,
            r.z as int == self.z as int % 16,
            r.extra == 0,
    {
        let r = ChunkBlockPos::new(self.x as u8, self.y as u8, self.z as u8);
        proof {
            lemma_i32_low_bits(self.x);
            lemma_i32_low_bits(self.y);
            lemma_i32_low_bits(self.z);
        }
        r
    }

    /// The position of the chunk that holds this block.
    pub fn to_chunk_pos(self) -> (r: IVec3)
        ensures
            r.x == chunk_coord(self.x),
            r.y == chunk_coord(self.y),
            r.z == chunk_coord(self.z),
    {
        IVec3 { x: shr_chunk(self.x), y: shr_chunk(self.y), z: shr_chunk(self.z) }
    }
}

/// Arithmetic right shift of a coordinate by `CHUNK_SIZE_LOG2`.
fn shr_chunk(v: i32) -> (r: i32)
    ensures
        r == chunk_coord(v),
{
    let r = v >> 4i32;
    assert(v >> 4i32 == v / 16) by (bit_vector);
    r
}

/// The low four bits of an `i32` as a `u8`, and the same value as a remainder.
proof fn lemma_i32_low_bits(v: i32)
    ensures
        ((v as u8) & 15u8) as int == v as int % 16,
        (v as u8) & 15u8 == (v as u8) % 16,
{
    assert((v as u8) & 15u8 == (v as u8) % 16) by (bit_vector);
    assert(((v as u8) & 15u8) as i32 == v & 15i32) by (bit_vector);
    assert(v & 15i32 == v % 16) by (bit_vector);
}

/// Position of a block within a chunk; each coordinate is below 16.
#[derive(Debug, Clone, Copy, PartialEq, Eq, Structural)]
pub struct ChunkBlockPos {
    pub x: u8,
    pub y: u8,
    pub z: u8,
    pub extra: u8,
}

/// The index of a local position in a chunk's block array.
pub open spec fn local_block_index(x: int, y: int, z: int) -> int {
    z * 256 + x * 16 + y
}

impl ChunkBlockPos {
    pub const COORD_MASK: u8 = 15;

    /// Wraps each coordinate into the chunk (keeps its low four bits).
    pub fn new(x: u8, y: u8, z: u8) -> (r: Self)
        ensures
            r.x == x % 16,
            r.y == y % 16,
            r.z == z % 16,
            r.extra == 0,
    {
        assert(x & 15u8 == x % 16) by (bit_vector);
        assert(y & 15u8 == y % 16) by (bit_vector);
        assert(z & 15u8 == z % 16) by (bit_vector);
        Self { x: x & Self::COORD_MASK, y: y & Self::COORD_MASK, z: z & Self::COORD_MASK, extra: 0 }
    }

    /// Whether every coordinate lies inside a chunk.
    pub open spec fn is_local(self) -> bool {
        self.x < 16 && self.y < 16 && self.z < 16
    }

    /// Index into a chunk's blocks: z-major, then x, then y.
    pub fn to_block_index(self) -> (r: usize)
        ensures
            r == local_block_index(self.x as int, self.y as int, self.z as int),
    {
        self.z as usize * CHUNK_SIZE * CHUNK_SIZE + self.x as usize * CHUNK_SIZE + self.y as usize
    }

    /// Builds a position from a coordinate triple, wrapping each into the chunk.
    pub fn from_tuple(t: (u8, u8, u8)) -> (r: Self)
        ensures
            r == (ChunkBlockPos { x: t.0 % 16, y: t.1 % 16, z: t.2 % 16, extra: 0 }),
    {
        Self::new(t.0, t.1, t.2)
    }

    /// The local position of a world position.
    pub fn from_world(pos: WorldBlockPos) -> (r: Self)
        ensures
            r.x as int == pos.x as int % 16,
            r.y as int == pos.y as int % 16,
            r.z as int == pos.z as int % 16,
            r.extra == 0,
    {
        pos.to_local()
    }
}

/// Every in-chunk position has an index below the chunk volume, and two in-chunk
/// positions share an index only when their coordinates are equal.
pub proof fn lemma_block_index_bijective(a: ChunkBlockPos, b: ChunkBlockPos)
    requires
        a.is_local(),
        b.is_local(),
    ensures
        0 <= local_block_index(a.x as int, a.y as int, a.z as int) < CHUNK_VOLUME,
        local_block_index(a.x as int, a.y as int, a.z as int)
            == local_block_index(b.x as int, b.y as int, b.z as int) ==> (a.x == b.x && a.y == b.y
            && a.z == b.z),
{
}

/// Every index below the chunk volume is the index of exactly the position
/// `(i / 16 % 16, i % 16, i / 256)`.
pub proof fn lemma_block_index_decode(i: int)
    requires
        0 <= i < CHUNK_VOLUME,
    ensures
        local_block_index((i / 16) % 16, i % 16, i / 256) == i,
        0 <= (i / 16) % 16 < 16,
        0 <= i / 256 < 16,
{
}

/// A world position whose coordinates fit their fields gives them back from its index.
pub proof fn lemma_world_block_index_decode(p: IVec3)
    requires
        usize::BITS == 64,
        0 <= p.x < 0x100_0000,
        0 <= p.z < 0x100_0000,
        0 <= p.y < 0x1_0000,
    ensures
        world_block_index(p) & 0xff_ffffusize == p.x,
        (world_block_index(p) >> 24usize) & 0xff_ffffusize == p.z,
        world_block_index(p) >> 48usize == p.y,
{
    let x = i32_bits(p.x);
    let y = i32_bits(p.y);
    let z = i32_bits(p.z);
    assert(x == p.x && y == p.y && z == p.z);
    assert(x < 0x100_0000usize && z < 0x100_0000usize && y < 0x1_0000usize ==> {
        &&& ((y << 48usize) | (z << 24usize) | x) & 0xff_ffffusize == x
        &&& (((y << 48usize) | (z << 24usize) | x) >> 24usize) & 0xff_ffffusize == z
        &&& ((y << 48usize) | (z << 24usize) | x) >> 48usize == y
    }) by (bit_vector)
        requires
            usize::BITS == 64,
    ;
}

/// A chunk position contains exactly the 16 world coordinates from 16 times it.
pub proof fn lemma_chunk_coord_bounds(v: i32)
    ensures
        chunk_coord(v) * 16 <= v < chunk_coord(v) * 16 + 16,
{
}

/// A 16³ cube of blocks.
pub struct Chunk {
    blocks: [Block; 4096],
    pub dirty: bool,
    /// Id of the 2³ chunk group this chunk belongs to.
    pub group_id: thunderdome::Index,
    pub neighbor_indices: [u32; 6],
}

/// The chunk group index of thunderdome, carried through as an opaque value.
#[verifier::external_type_specification]
#[verifier::external_body]
pub struct ExIndex(thunderdome::Index);

impl Chunk {
    /// A chunk full of air.
    pub fn new(group_id: thunderdome::Index, neighbor_indices: [u32; 6]) -> (r: Box<Self>)
        ensures
            r.spec_blocks().len() == CHUNK_VOLUME,
            forall|i: int| 0 <= i < CHUNK_VOLUME ==> #[trigger] r.spec_blocks()[i]@ == 0,
            r.spec_group_id() == group_id,
            r.spec_neighbor_indices() == neighbor_indices,
            !r.spec_dirty(),
    {
        let blocks: [Block; 4096] = vstd::array::array_fill_for_copy_types(Block::air());
        Box::new(Chunk { blocks, dirty: false, group_id, neighbor_indices })
    }

    /// The blocks of this chunk, indexed by [`ChunkBlockPos::to_block_index`].
    pub closed spec fn spec_blocks(&self) -> Seq<Block> {
        self.blocks@
    }

    /// Whether the chunk was marked dirty.
    pub closed spec fn spec_dirty(&self) -> bool {
        self.dirty
    }

    /// The chunk group of this chunk.
    pub closed spec fn spec_group_id(&self) -> thunderdome::Index {
        self.group_id
    }

    /// The indices of the six neighbouring chunks.
    pub closed spec fn spec_neighbor_indices(&self) -> [u32; 6] {
        self.neighbor_indices
    }

    /// All blocks of the chunk.
    pub fn blocks(&self) -> (r: &[Block])
        ensures
            r@ == self.spec_blocks(),
    {
        vstd::array::array_as_slice(&self.blocks)
    }

    /// Sets every block of the chunk.
    pub fn fill(&mut self, block: Block)
        ensures
            final(self).spec_blocks() == Seq::new(CHUNK_VOLUME as nat, |i: int| block),
            final(self).spec_dirty() == old(self).spec_dirty(),
            final(self).spec_group_id() == old(self).spec_group_id(),
            final(self).spec_neighbor_indices() == old(self).spec_neighbor_indices(),
    {
        let mut i: usize = 0;
        while i < CHUNK_VOLUME
            invariant
                0 <= i <= CHUNK_VOLUME,
                self.spec_blocks().len() == CHUNK_VOLUME,
                forall|j: int| 0 <= j < i ==> #[trigger] self.spec_blocks()[j] == block,
                self.dirty == old(self).spec_dirty(),
                self.group_id == old(self).spec_group_id(),
                self.neighbor_indices == old(self).spec_neighbor_indices(),
            decreases CHUNK_VOLUME - i,
        {
            self.blocks[i] = block;
            i += 1;
        }
        assert(self.spec_blocks() =~= Seq::new(CHUNK_VOLUME as nat, |i: int| block));
    }

    /// The block at an index of the block array.
    pub fn index(&self, index: usize) -> (r: Block)
        requires
            index < CHUNK_VOLUME,
        ensures
            r == self.spec_blocks()[index as int],
    {
        self.blocks[index]
    }

    /// The block at a position within the chunk.
    pub fn at(&self, pos: ChunkBlockPos) -> (r: Block)
        requires
            pos.is_local(),
        ensures
            r == self.spec_blocks()[local_block_index(pos.x as int, pos.y as int, pos.z as int)],
    {
        self.blocks[pos.to_block_index()]
    }

    /// Replaces the block at an index of the block array.
    pub fn index_mut(&mut self, index: usize, block: Block)
        requires
            index < CHUNK_VOLUME,
        ensures
            final(self).spec_blocks() == old(self).spec_blocks().update(index as int, block),
            final(self).spec_dirty() == old(self).spec_dirty(),
            final(self).spec_group_id() == old(self).spec_group_id(),
            final(self).spec_neighbor_indices() == old(self).spec_neighbor_indices(),
    {
        self.blocks[index] = block;
    }

    /// Replaces the block at a position within the chunk.
    pub fn set_at(&mut self, pos: ChunkBlockPos, block: Block)
        requires
            pos.is_local(),
        ensures
            final(self).spec_blocks() == old(self).spec_blocks().update(
                local_block_index(pos.x as int, pos.y as int, pos.z as int),
                block,
            ),
            final(self).spec_dirty() == old(self).spec_dirty(),
            final(self).spec_group_id() == old(self).spec_group_id(),
            final(self).spec_neighbor_indices() == old(self).spec_neighbor_indices(),
    {
        let idx = pos.to_block_index();
        self.blocks[idx] = block;
    }
}

/// A write at one position is read back there and leaves every other position unchanged.
pub proof fn lemma_set_then_get(old_blocks: Seq<Block>, a: ChunkBlockPos, b: ChunkBlockPos, block: Block)
    requires
        old_blocks.len() == CHUNK_VOLUME,
        a.is_local(),
        b.is_local(),
    ensures
        old_blocks.update(local_block_index(a.x as int, a.y as int, a.z as int), block)[local_block_index(
            b.x as int,
            b.y as int,
            b.z as int,
        )] == if a.x == b.x && a.y == b.y && a.z == b.z {
            block
        } else {
            old_blocks[local_block_index(b.x as int, b.y as int, b.z as int)]
        },
{
    lemma_block_index_bijective(a, b);
}

/// The six faces of a chunk.
#[derive(Debug, Clone, Copy, PartialEq, Eq, Structural)]
pub enum ChunkFace {
    NX,
    NY,
    NZ,
    PX,
    PY,
    PZ,
}

} // verus!
