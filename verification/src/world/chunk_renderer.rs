use vstd::prelude::*;
use thunderdome::Arena;

verus! {

/// Render data for a 2³ group of chunks, i.e. for a 32³ block volume.
pub struct ChunkGroupRenderData {}

/// The entries held by an arena of chunk group render data, each by its index
/// as `(slot, generation)`; the entries carry no data of their own.
pub uninterp spec fn render_data_entries(a: Arena<ChunkGroupRenderData>) -> Set<(u32, u32)>;

/// `thunderdome::Arena::new`: an empty arena of render data.
#[verifier::external_body]
fn new_render_data_arena() -> (r: Arena<ChunkGroupRenderData>)
    ensures
        render_data_entries(r) == Set::<(u32, u32)>::empty(),
{
    Arena::new()
}

/// Holds the render data of every chunk group.
pub struct ChunkRenderer {
    chunk_render_data: Arena<ChunkGroupRenderData>,
}

impl ChunkRenderer {
    /// The render data held, by their indices.
    pub closed spec fn entries(&self) -> Set<(u32, u32)> {
        render_data_entries(self.chunk_render_data)
    }

    /// A renderer with no chunk groups.
    pub fn new() -> (r: Self)
        ensures
            r.entries() == Set::<(u32, u32)>::empty(),
    {
        Self { chunk_render_data: new_render_data_arena() }
    }
}

} // verus!
