use vstd::prelude::*;
use crate::input::keyboard::ElementState;

verus! {

/// Number of mouse button slots.
pub const NUM_BUTTONS: usize = 32;

/// A mouse button, as winit names them.
#[derive(Clone, Copy, PartialEq, Eq, Structural, Debug)]
pub enum MouseButton {
    Left,
    Right,
    Middle,
    Other(u16),
}

/// The slot of a button.
pub open spec fn button_index(button: MouseButton) -> int {
    match button {
        MouseButton::Left => 0,
        MouseButton::Right => 1,
        MouseButton::Middle => 2,
        MouseButton::Other(v) => v as int,
    }
}

/// The slot of a button: left, right and middle are 0, 1 and 2, others their number.
pub fn mouse_button_to_index(button: MouseButton) -> (r: usize)
    ensures
        r == button_index(button),
{
    match button {
        MouseButton::Left => 0,
        MouseButton::Right => 1,
        MouseButton::Middle => 2,
        MouseButton::Other(val) => val as usize,
    }
}

/// Button press bookkeeping of the mouse, counted in frames. Positions and the
/// scroll wheel are floating point and kept by the caller.
pub struct Mouse {
    pressed: Vec<u32>,
    just_released: Vec<(u32, u32)>,
    frame_counter: u32,
    moved: bool,
}

impl Mouse {
    pub closed spec fn spec_pressed(&self) -> Seq<u32> {
        self.pressed@
    }

    pub closed spec fn spec_just_released(&self) -> Seq<(u32, u32)> {
        self.just_released@
    }

    pub closed spec fn spec_frame_counter(&self) -> u32 {
        self.frame_counter
    }

    pub closed spec fn spec_moved(&self) -> bool {
        self.moved
    }

    /// Every button has a slot, and no button went down after the current frame.
    pub open spec fn wf(&self) -> bool {
        &&& self.spec_pressed().len() == NUM_BUTTONS
        &&& self.spec_just_released().len() == NUM_BUTTONS
        &&& forall|k: int|
            0 <= k < NUM_BUTTONS ==> #[trigger] self.spec_pressed()[k] <= self.spec_frame_counter()
    }

    /// Frames a button slot has been held: 0 when it is up.
    pub open spec fn spec_pressed_frames(&self, button: int) -> u32 {
        let t = self.spec_pressed()[button];
        if t == 0 {
            0
        } else {
            (self.spec_frame_counter() - t) as u32
        }
    }

    /// Frames a button slot had been held if it was released in this frame, else 0.
    pub open spec fn spec_just_released_frames(&self, button: int) -> u32 {
        let (frames, at) = self.spec_just_released()[button];
        if at != self.spec_frame_counter() {
            0
        } else {
            frames
        }
    }

    pub fn pressed(&self, button: MouseButton) -> (r: bool)
        requires
            self.wf(),
            button_index(button) < NUM_BUTTONS,
        ensures
            r == (self.spec_pressed_frames(button_index(button)) > 0),
    {
        self.pressed_frames(button) > 0
    }

    pub fn pressed_frames(&self, button: MouseButton) -> (r: u32)
        requires
            self.wf(),
            button_index(button) < NUM_BUTTONS,
        ensures
            r == self.spec_pressed_frames(button_index(button)),
    {
        self.pressed_frames_raw(mouse_button_to_index(button))
    }

    /// Frames the button in a slot has been held, 0 if it is up.
    pub fn pressed_frames_raw(&self, button: usize) -> (r: u32)
        requires
            self.wf(),
            button < NUM_BUTTONS,
        ensures
            r == self.spec_pressed_frames(button as int),
    {
        let timestamp = self.pressed[button];
        if timestamp == 0 {
            0
        } else {
            self.frame_counter - timestamp
        }
    }

    pub fn just_pressed(&self, button: MouseButton) -> (r: bool)
        requires
            self.wf(),
            button_index(button) < NUM_BUTTONS,
        ensures
            r == (self.spec_pressed_frames(button_index(button)) == 1),
    {
        self.pressed_frames(button) == 1
    }

    pub fn tapped(&self, button: MouseButton) -> (r: bool)
        requires
            self.wf(),
            button_index(button) < NUM_BUTTONS,
        ensures
            r == (self.spec_just_released_frames(button_index(button)) <= 7),
    {
        self.tapped_with_threshold(button, 7)
    }

    pub fn tapped_with_threshold(&self, button: MouseButton, max_frames: u32) -> (r: bool)
        requires
            self.wf(),
            button_index(button) < NUM_BUTTONS,
        ensures
            r == (self.spec_just_released_frames(button_index(button)) <= max_frames),
    {
        self.just_released_frames(button) <= max_frames
    }

    pub fn just_released(&self, button: MouseButton) -> (r: bool)
        requires
            self.wf(),
            button_index(button) < NUM_BUTTONS,
        ensures
            r == (self.spec_just_released_frames(button_index(button)) > 0),
    {
        self.just_released_frames(button) > 0
    }

    pub fn just_released_frames(&self, button: MouseButton) -> (r: u32)
        requires
            self.wf(),
            button_index(button) < NUM_BUTTONS,
        ensures
            r == self.spec_just_released_frames(button_index(button)),
    {
        let (frame_count, check) = self.just_released[mouse_button_to_index(button)];
        if check != self.frame_counter {
            0
        } else {
            frame_count
        }
    }

    /// Releases the button without recording a release; true if it had been held.
    pub fn release(&mut self, button: MouseButton) -> (r: bool)
        requires
            old(self).wf(),
            button_index(button) < NUM_BUTTONS,
        ensures
            final(self).wf(),
            r == (old(self).spec_pressed_frames(button_index(button)) > 0),
            final(self).spec_pressed() == old(self).spec_pressed().update(button_index(button), 0),
            final(self).spec_just_released() == old(self).spec_just_released(),
            final(self).spec_frame_counter() == old(self).spec_frame_counter(),
            final(self).spec_moved() == old(self).spec_moved(),
    {
        self.release_get_frames(button) > 0
    }

    /// Releases the button; gets the number of frames it had been held, or 0.
    pub fn release_get_frames(&mut self, button: MouseButton) -> (r: u32)
        requires
            old(self).wf(),
            button_index(button) < NUM_BUTTONS,
        ensures
            final(self).wf(),
            r == old(self).spec_pressed_frames(button_index(button)),
            final(self).spec_pressed() == old(self).spec_pressed().update(button_index(button), 0),
            final(self).spec_just_released() == old(self).spec_just_released(),
            final(self).spec_frame_counter() == old(self).spec_frame_counter(),
            final(self).spec_moved() == old(self).spec_moved(),
    {
        let frames = self.pressed_frames(button);
        let idx = mouse_button_to_index(button);
        self.pressed.set(idx, 0);
        frames
    }

    /// Whether the cursor moved since the previous frame.
    pub fn moved(&self) -> (r: bool)
        ensures
            r == self.spec_moved(),
    {
        self.moved
    }
}

/// Creates and updates a [`Mouse`].
pub struct MouseUpdater;

impl MouseUpdater {
    /// A mouse with every button up, at frame 0, not moved.
    pub fn new_mouse() -> (r: Mouse)
        ensures
            r.wf(),
            r.spec_pressed() == Seq::new(NUM_BUTTONS as nat, |i: int| 0u32),
            r.spec_just_released() == Seq::new(NUM_BUTTONS as nat, |i: int| (0u32, 0u32)),
            r.spec_frame_counter() == 0,
            !r.spec_moved(),
    {
        let mut pressed: Vec<u32> = Vec::new();
        let mut just_released: Vec<(u32, u32)> = Vec::new();
        let mut i: usize = 0;
        while i < NUM_BUTTONS
            invariant
                i <= NUM_BUTTONS,
                pressed@.len() == i,
                just_released@.len() == i,
                forall|j: int| 0 <= j < i ==> #[trigger] pressed@[j] == 0u32,
                forall|j: int| 0 <= j < i ==> #[trigger] just_released@[j] == (0u32, 0u32),
            decreases NUM_BUTTONS - i,
        {
            pressed.push(0);
            just_released.push((0, 0));
            i += 1;
        }
        let r = Mouse { pressed, just_released, frame_counter: 0, moved: false };
        assert(r.pressed@ =~= Seq::new(NUM_BUTTONS as nat, |i: int| 0u32));
        assert(r.just_released@ =~= Seq::new(NUM_BUTTONS as nat, |i: int| (0u32, 0u32)));
        r
    }

    /// Records a button going down or up. A button that is already down keeps its
    /// press frame; a release records how long the button was held.
    pub fn handle_button_event(button: MouseButton, state: ElementState, mouse: &mut Mouse) -> (r: bool)
        requires
            old(mouse).wf(),
            button_index(button) < NUM_BUTTONS,
        ensures
            r,
            final(mouse).wf(),
            final(mouse).spec_frame_counter() == old(mouse).spec_frame_counter(),
            final(mouse).spec_moved() == old(mouse).spec_moved(),
            state == ElementState::Pressed ==> {
                &&& final(mouse).spec_pressed() == if old(mouse).spec_pressed()[button_index(button)] == 0 {
                    old(mouse).spec_pressed().update(button_index(button), old(mouse).spec_frame_counter())
                } else {
                    old(mouse).spec_pressed()
                }
                &&& final(mouse).spec_just_released() == old(mouse).spec_just_released()
            },
            state == ElementState::Released ==> {
                &&& final(mouse).spec_pressed() == old(mouse).spec_pressed().update(button_index(button), 0)
                &&& final(mouse).spec_just_released() == old(mouse).spec_just_released().update(
                    button_index(button),
                    (old(mouse).spec_pressed_frames(button_index(button)), old(mouse).spec_frame_counter()),
                )
            },
    {
        let button = mouse_button_to_index(button);
        match state {
            ElementState::Pressed => {
                if mouse.pressed[button] == 0 {
                    let fc = mouse.frame_counter;
                    mouse.pressed.set(button, fc);
                }
            },
            ElementState::Released => {
                let frames_pressed = mouse.pressed_frames_raw(button);
                mouse.pressed.set(button, 0);
                let fc = mouse.frame_counter;
                mouse.just_released.set(button, (frames_pressed, fc));
            },
        }
        true
    }

    /// Called at the start of each frame with whether the cursor position differs
    /// from the one at the end of the previous frame.
    pub fn first_tick(mouse: &mut Mouse, position_changed: bool)
        ensures
            final(mouse).spec_moved() == position_changed,
            final(mouse).spec_pressed() == old(mouse).spec_pressed(),
            final(mouse).spec_just_released() == old(mouse).spec_just_released(),
            final(mouse).spec_frame_counter() == old(mouse).spec_frame_counter(),
    {
        mouse.moved = position_changed;
    }

    /// Called at the end of each frame: advances the frame counter.
    pub fn last_tick(mouse: &mut Mouse)
        requires
            old(mouse).wf(),
            old(mouse).spec_frame_counter() < u32::MAX,
        ensures
            final(mouse).wf(),
            final(mouse).spec_frame_counter() == old(mouse).spec_frame_counter() + 1,
            final(mouse).spec_pressed() == old(mouse).spec_pressed(),
            final(mouse).spec_just_released() == old(mouse).spec_just_released(),
            final(mouse).spec_moved() == old(mouse).spec_moved(),
    {
        mouse.frame_counter += 1;
    }
}

} // verus!
