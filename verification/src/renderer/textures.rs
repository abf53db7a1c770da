//! Decoding the compressed texture assets: the block texture array and the
//! text atlas.

use vstd::prelude::*;
use crate::renderer::text_renderer::{lz4_decompress, lz4_block_decompressed};

verus! {

/// Width and height of one block texture, in pixels.
pub const TEXTURE_SIZE: u32 = 16;

/// Bytes of one RGBA block texture: 16 by 16 pixels of 4 bytes.
pub const TEXTURE_LAYER_BYTES: u32 = 1024;

/// Why a texture asset could not be decoded.
#[derive(Clone, Copy, PartialEq, Eq, Structural, Debug)]
pub enum TextureError {
    /// The compressed data did not decompress.
    Decompress,
}

/// The block textures, decompressed: RGBA pixels, one 16 by 16 layer after
/// another, and how many layers and mip levels the image gets.
pub struct TextureArray {
    pub bytes: Vec<u8>,
    pub layers: u32,
    pub mip_levels: u32,
}

/// The number of mip levels of a square texture `size` pixels wide, a power of
/// two: the number of its trailing zero bits (its base-2 logarithm), plus one.
pub fn mip_levels_for(size: u32) -> (r: u32)
    ensures
        r == size.trailing_zeros() + 1,
{
    proof {
        vstd::std_specs::bits::axiom_u32_trailing_zeros(size);
    }
    size.trailing_zeros() + 1
}

/// A 16-pixel texture has 5 mip levels.
pub proof fn lemma_block_texture_mips()
    ensures
        TEXTURE_SIZE.trailing_zeros() + 1 == 5,
{
    let tz = TEXTURE_SIZE.trailing_zeros();
    vstd::std_specs::bits::axiom_u32_trailing_zeros(TEXTURE_SIZE);
    assert(tz < 32 && (16u32 >> tz) & 1u32 == 1u32 ==> tz == 4) by (bit_vector);
}

/// Decompresses the block texture array (lz4, with a size prefix): its layers
/// are the whole number of 16 by 16 RGBA textures in the bytes, counted from
/// the byte length cut to 32 bits, with 5 mip levels each.
pub fn decode_texture_array(compressed: &[u8]) -> (r: Result<TextureArray, TextureError>)
    ensures
        lz4_block_decompressed(compressed@) is None <==> r is Err,
        r is Err ==> r == Err::<TextureArray, TextureError>(TextureError::Decompress),
        r matches Ok(t) ==> {
            &&& lz4_block_decompressed(compressed@) == Some(t.bytes@)
            &&& t.layers == (t.bytes@.len() as u32) / TEXTURE_LAYER_BYTES
            &&& t.mip_levels == 5
        },
{
    match lz4_decompress(compressed) {
        None => Err(TextureError::Decompress),
        Some(bytes) => {
            let layers = (bytes.len() as u32) / TEXTURE_LAYER_BYTES;
            let mip_levels = mip_levels_for(TEXTURE_SIZE);
            proof {
                lemma_block_texture_mips();
            }
            Ok(TextureArray { bytes, layers, mip_levels })
        },
    }
}

/// Decompresses the text atlas (lz4, with a size prefix): one byte per pixel.
pub fn decode_text_atlas(compressed: &[u8]) -> (r: Result<Vec<u8>, TextureError>)
    ensures
        lz4_block_decompressed(compressed@) is None <==> r is Err,
        r is Err ==> r == Err::<Vec<u8>, TextureError>(TextureError::Decompress),
        r matches Ok(b) ==> lz4_block_decompressed(compressed@) == Some(b@),
{
    match lz4_decompress(compressed) {
        None => Err(TextureError::Decompress),
        Some(bytes) => Ok(bytes),
    }
}

} // verus!
