use vstd::prelude::*;
use crate::world::chunk::{Chunk, IVec3};

verus! {

pub type ChunkIndex = u32;

pub const WORLD_HEIGHT: usize = 256;
pub const WORLD_HEIGHT_CHUNKS: usize = 16;

/// A vector of two `i32` (the x and z of a chunk position).
#[derive(Clone, Copy, PartialEq, Eq, Structural, Debug)]
pub struct IVec2 {
    pub x: i32,
    pub y: i32,
}

/// Per-chunk data of the renderer.
pub struct ChunkRenderData {}

/// The grid of loaded chunks around the player.
pub struct Chunks {
    corner_chunk_pos: IVec2,
    chunks: Vec<Option<Box<Chunk>>>,
    render_data: Vec<Option<ChunkRenderData>>,
    render_distance: u32,
}

/// The slot of a chunk position relative to the grid's corner: y above the
/// 128×128 horizontal grid, then x, then z, each horizontal coordinate wrapped.
pub open spec fn chunk_slot(pos: IVec3, corner: IVec2) -> int {
    pos.y as u32 * 16384 + ((pos.x - corner.x) % 128) * 128 + (pos.z - corner.y) % 128
}

impl Chunks {
    /// The slots of the grid.
    pub closed spec fn spec_chunks(&self) -> Seq<Option<Box<Chunk>>> {
        self.chunks@
    }

    /// The render data slots, one per chunk slot.
    pub closed spec fn spec_render_data(&self) -> Seq<Option<ChunkRenderData>> {
        self.render_data@
    }

    /// The corner of the grid: the player's chunk minus the render distance.
    pub closed spec fn spec_corner(&self) -> IVec2 {
        self.corner_chunk_pos
    }

    pub closed spec fn spec_render_distance(&self) -> u32 {
        self.render_distance
    }

    /// An empty grid around the player's chunk: `(2·render_distance)²` columns of
    /// `WORLD_HEIGHT_CHUNKS` chunks.
    pub fn new(render_distance: u32, player_chunk_pos: IVec3) -> (r: Self)
        requires
            4 * (render_distance as int) * (render_distance as int) * 16 <= usize::MAX,
            render_distance <= i32::MAX,
            i32::MIN <= player_chunk_pos.x - render_distance,
            i32::MIN <= player_chunk_pos.z - render_distance,
        ensures
            r.spec_chunks().len() == 4 * (render_distance as int) * (render_distance as int) * 16,
            r.spec_render_data().len() == r.spec_chunks().len(),
            forall|i: int| 0 <= i < r.spec_chunks().len() ==> #[trigger] r.spec_chunks()[i] is None,
            forall|i: int| 0 <= i < r.spec_render_data().len() ==> #[trigger] r.spec_render_data()[i] is None,
            r.spec_corner() == (IVec2 {
                x: (player_chunk_pos.x - render_distance) as i32,
                y: (player_chunk_pos.z - render_distance) as i32,
            }),
            r.spec_render_distance() == render_distance,
    {
        let n: usize = 2 * render_distance as usize;
        assert(n * n * WORLD_HEIGHT_CHUNKS == 4 * (render_distance as int) * (render_distance as int) * 16)
            by (nonlinear_arith)
            requires
                n == 2 * render_distance,
        ;
        let total: usize = n * n * WORLD_HEIGHT_CHUNKS;
        let mut chunks: Vec<Option<Box<Chunk>>> = Vec::new();
        let mut render_data: Vec<Option<ChunkRenderData>> = Vec::new();
        let mut i: usize = 0;
        while i < total
            invariant
                i <= total,
                chunks@.len() == i,
                render_data@.len() == i,
                forall|j: int| 0 <= j < i ==> #[trigger] chunks@[j] is None,
                forall|j: int| 0 <= j < i ==> #[trigger] render_data@[j] is None,
            decreases total - i,
        {
            chunks.push(None);
            render_data.push(None);
            i += 1;
        }
        let rd = render_distance as i32;
        Self {
            corner_chunk_pos: IVec2 { x: player_chunk_pos.x - rd, y: player_chunk_pos.z - rd },
            chunks,
            render_data,
            render_distance,
        }
    }

    /// The chunk at a chunk position, if it is loaded.
    pub fn get_at(&self, pos: IVec3) -> (r: Option<&Chunk>)
        requires
            Self::idx_ok(pos, self.spec_corner()),
            chunk_slot(pos, self.spec_corner()) < self.spec_chunks().len(),
        ensures
            r == match self.spec_chunks()[chunk_slot(pos, self.spec_corner())] {
                Some(c) => Some(&*c),
                None => None,
            },
    {
        let idx = self.pos_to_idx(pos);
        match &self.chunks[idx as usize] {
            Some(c) => Some(&**c),
            None => None,
        }
    }

    /// Takes the chunk and its render data out of a slot, leaving both empty.
    pub fn remove(&mut self, index: ChunkIndex) -> (r: Option<Box<Chunk>>)
        requires
            index < old(self).spec_chunks().len(),
            index < old(self).spec_render_data().len(),
        ensures
            r == old(self).spec_chunks()[index as int],
            final(self).spec_chunks() == old(self).spec_chunks().update(index as int, None),
            final(self).spec_render_data() == old(self).spec_render_data().update(index as int, None),
            final(self).spec_corner() == old(self).spec_corner(),
            final(self).spec_render_distance() == old(self).spec_render_distance(),
    {
        let i = index as usize;
        let mut chunk: Option<Box<Chunk>> = None;
        std::mem::swap(&mut chunk, &mut self.chunks[i]);
        let mut data: Option<ChunkRenderData> = None;
        std::mem::swap(&mut data, &mut self.render_data[i]);
        chunk
    }

    /// Whether [`Chunks::pos_to_idx`] can compute the slot of a position without overflow.
    pub open spec fn idx_ok(pos: IVec3, corner: IVec2) -> bool {
        &&& i32::MIN <= pos.x - corner.x <= i32::MAX
        &&& i32::MIN <= pos.z - corner.y <= i32::MAX
        &&& (pos.y as u32) * 16384 <= u32::MAX
    }

    /// The slot of a chunk position.
    fn pos_to_idx(&self, pos: IVec3) -> (r: ChunkIndex)
        requires
            Self::idx_ok(pos, self.spec_corner()),
        ensures
            r == chunk_slot(pos, self.spec_corner()),
    {
        let dx = #[verifier::truncate] ((pos.x - self.corner_chunk_pos.x) as u32);
        let dz = #[verifier::truncate] ((pos.z - self.corner_chunk_pos.y) as u32);
        let gx = dx & 127;
        let gz = dz & 127;
        assert(dx & 127u32 < 128 && dz & 127u32 < 128) by (bit_vector);
        let y = #[verifier::truncate] (pos.y as u32);
        let r = (y * 16384) | (gx * 128) | gz;
        proof {
            let ghost ix: i32 = (pos.x - self.corner_chunk_pos.x) as i32;
            let ghost iz: i32 = (pos.z - self.corner_chunk_pos.y) as i32;
            assert((ix as u32) & 127u32 == ix as int % 128) by (bit_vector);
            assert((iz as u32) & 127u32 == iz as int % 128) by (bit_vector);
            assert(y * 16384 <= u32::MAX && gx < 128 && gz < 128 ==> ((y * 16384) as u32 | (gx
                * 128) as u32) | gz == y * 16384 + gx * 128 + gz) by (bit_vector);
        }
        r
    }

    /// Called when the player enters another chunk; the grid is not moved yet.
    pub fn on_player_exited_chunk(&mut self, new_chunk_pos: IVec3)
        requires
            i32::MIN <= new_chunk_pos.x - old(self).spec_render_distance(),
            i32::MIN <= new_chunk_pos.z - old(self).spec_render_distance(),
            old(self).spec_render_distance() <= i32::MAX,
        ensures
            *final(self) == *old(self),
    {
        let rd = self.render_distance as i32;
        let _new_corner = IVec2 { x: new_chunk_pos.x - rd, y: new_chunk_pos.z - rd };
    }
}

} // verus!
