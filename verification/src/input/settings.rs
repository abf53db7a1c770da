use vstd::prelude::*;
use crate::input::keyboard::Key;
use crate::input::keys;

verus! {

/// The keys bound to the player's actions.
#[derive(Debug, Clone, Copy, PartialEq, Eq, Structural)]
pub struct Keybindings {
    pub fwd: Key,
    pub left: Key,
    pub right: Key,
    pub back: Key,
    pub jump: Key,
    pub open_chat: Key,
}

impl Keybindings {
    /// WASD movement, space to jump, return to open the chat.
    pub fn default_bindings() -> (r: Self)
        ensures
            r == (Keybindings {
                fwd: keys::W,
                left: keys::A,
                right: keys::D,
                back: keys::S,
                jump: keys::SPACE,
                open_chat: keys::RETURN,
            }),
    {
        Self {
            fwd: keys::W,
            left: keys::A,
            right: keys::D,
            back: keys::S,
            jump: keys::SPACE,
            open_chat: keys::RETURN,
        }
    }

    /// Every binding names a key slot of the keyboard.
    pub open spec fn valid(self) -> bool {
        &&& self.fwd < 256
        &&& self.left < 256
        &&& self.right < 256
        &&& self.back < 256
        &&& self.jump < 256
        &&& self.open_chat < 256
    }
}

impl Default for Keybindings {
    fn default() -> (r: Self)
        ensures
            r == (Keybindings {
                fwd: keys::W,
                left: keys::A,
                right: keys::D,
                back: keys::S,
                jump: keys::SPACE,
                open_chat: keys::RETURN,
            }),
    {
        Self::default_bindings()
    }
}

} // verus!
