use voxel::world::block::{Block, BlockId};
use voxel::world::chunk::{Chunk, ChunkBlockPos, IVec3, CHUNK_VOLUME};
use voxel::world::dimension::Chunks;

#[test]
fn block_packs_id_and_data() {
    let b = Block::new(BlockId::from_raw(5));
    assert!(b.id() == BlockId::from_raw(5));
    assert_eq!(b.raw(), 5);
    assert!(Block::air().id() == BlockId::air());
    assert!(Block::stone().id() == BlockId::stone());
    assert!(BlockId::air().is_transparent());
    assert!(!BlockId::stone().is_transparent());
    assert!(BlockId::from(Block::stone()) == BlockId::stone());
}

#[test]
fn block_index_is_x_then_z_then_y() {
    let p = ChunkBlockPos::new(1, 2, 3);
    let i = p.to_block_index();
    assert!(i < CHUNK_VOLUME);
    assert_eq!(ChunkBlockPos::from_tuple((1, 2, 3)), p);
    // Distinct positions get distinct indices.
    let mut seen = std::collections::HashSet::new();
    for x in 0..16u8 {
        for y in 0..16u8 {
            for z in 0..16u8 {
                assert!(seen.insert(ChunkBlockPos::new(x, y, z).to_block_index()));
            }
        }
    }
    assert_eq!(seen.len(), CHUNK_VOLUME);
}

#[test]
fn world_positions_split_into_chunk_and_local() {
    let w = IVec3::new(-1, 17, 33);
    assert_eq!(w.to_chunk_pos(), IVec3::new(-1, 1, 2));
    assert_eq!(ChunkBlockPos::from_world(w), ChunkBlockPos::new(15, 1, 1));
    assert_eq!(w.to_local(), ChunkBlockPos::new(15, 1, 1));
}

#[test]
fn chunk_write_then_read() {
    let mut chunks = Chunks::new(2, IVec3::new(0, 0, 0));
    // The grid's corner is 2 chunks left of and behind the player.
    assert!(chunks.get_at(IVec3::new(-2, 0, 0)).is_none());
    let mut c = *new_chunk();
    let p = ChunkBlockPos::new(3, 4, 5);
    c.set_at(p, Block::stone());
    assert!(c.at(p) == Block::stone());
    assert!(c.at(ChunkBlockPos::new(3, 4, 6)) == Block::air());
    c.fill(Block::stone());
    assert!(c.blocks().iter().all(|b| *b == Block::stone()));
}

fn new_chunk() -> Box<Chunk> {
    let mut arena = thunderdome::Arena::new();
    let idx = arena.insert(());
    Chunk::new(idx, [0; 6])
}

#[test]
fn chunk_group_arenas_start_empty() {
    let _groups = voxel::world::chunk_group::ChunkGroups::new();
    let _renderer = voxel::world::chunk_renderer::ChunkRenderer::new();
}
