use vstd::prelude::*;

verus! {

// Key codes (discriminants of winit's `VirtualKeyCode`) of the keys the game
// refers to by name.
pub const A: usize = 10;
pub const C: usize = 12;
pub const D: usize = 13;
pub const S: usize = 28;
pub const V: usize = 31;
pub const W: usize = 32;
pub const X: usize = 33;
pub const ESCAPE: usize = 36;
pub const LEFT: usize = 70;
pub const UP: usize = 71;
pub const RIGHT: usize = 72;
pub const DOWN: usize = 73;
pub const BACK: usize = 74;
pub const RETURN: usize = 75;
pub const SPACE: usize = 76;
pub const LALT: usize = 115;
pub const LCONTROL: usize = 117;
pub const LSHIFT: usize = 118;
pub const TAB: usize = 146;

} // verus!
