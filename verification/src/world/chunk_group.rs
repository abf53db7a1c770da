use vstd::prelude::*;
use thunderdome::Arena;

verus! {

/// An arena of thunderdome, declared so that it can be held in fields.
#[verifier::external_type_specification]
#[verifier::external_body]
#[verifier::reject_recursive_types(T)]
pub struct ExArena<T>(Arena<T>);

/// Data shared by a 2³ group of chunks.
pub struct ChunkGroupData {}

/// The entries held by an arena of chunk groups, each by its index as
/// `(slot, generation)`; the entries carry no data of their own.
pub uninterp spec fn chunk_group_entries(a: Arena<ChunkGroupData>) -> Set<(u32, u32)>;

/// `thunderdome::Arena::new`: an empty arena of chunk groups.
#[verifier::external_body]
fn new_chunk_group_arena() -> (r: Arena<ChunkGroupData>)
    ensures
        chunk_group_entries(r) == Set::<(u32, u32)>::empty(),
{
    Arena::new()
}

/// All chunk groups; the arena is the one responsible for index generation.
pub struct ChunkGroups {
    groups: Arena<ChunkGroupData>,
}

impl ChunkGroups {
    /// The groups held, by their indices.
    pub closed spec fn entries(&self) -> Set<(u32, u32)> {
        chunk_group_entries(self.groups)
    }

    /// An empty set of chunk groups.
    pub fn new() -> (r: Self)
        ensures
            r.entries() == Set::<(u32, u32)>::empty(),
    {
        Self { groups: new_chunk_group_arena() }
    }
}

} // verus!
