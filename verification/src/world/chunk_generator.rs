use vstd::prelude::*;

verus! {

/// Generates chunk contents from the world seed.
pub struct ChunkGenerator {
    world_seed: u64,
}

impl ChunkGenerator {
    /// A generator for the world with the given seed.
    pub fn new(world_seed: u64) -> (r: Self)
        ensures
            r.seed() == world_seed,
    {
        Self { world_seed }
    }

    /// The seed this generator was made with.
    pub closed spec fn seed(self) -> u64 {
        self.world_seed
    }
}

} // verus!
