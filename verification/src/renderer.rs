//! The CPU side of the renderer: packed colors, glyph layout, the vertex lists
//! that are handed to the GPU, and the decoding of the compressed textures.

pub mod text_renderer;
pub mod ui_renderer;
pub mod textures;

use vstd::prelude::*;

verus! {

/// The swapchain no longer matches the window and has to be made anew.
#[derive(Clone, Copy, PartialEq, Eq, Structural, Debug)]
pub struct OutdatedSwapchain;

impl OutdatedSwapchain {
    /// What happened, in words.
    pub fn message(&self) -> (r: String)
        ensures
            r@ == "Swapchain is outdated and needs to be recreated."@,
    {
        "Swapchain is outdated and needs to be recreated.".to_owned()
    }
}

} // verus!
