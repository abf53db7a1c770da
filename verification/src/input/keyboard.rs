use vstd::prelude::*;
use crate::input::keys;

verus! {

/// A key, as the index of its virtual key code (the discriminant of winit's
/// `VirtualKeyCode`); every key code is below [`NUM_KEYS`].
pub type Key = usize;

/// Number of key slots a [`Keyboard`] tracks.
pub const NUM_KEYS: usize = 256;

/// Which modifier keys are held.
#[derive(Clone, Copy, PartialEq, Eq, Structural, Debug)]
pub struct Mods {
    pub ctrl: bool,
    pub alt: bool,
    pub shift: bool,
}

impl Mods {
    /// No modifier held.
    pub fn empty() -> (r: Mods)
        ensures
            !r.ctrl && !r.alt && !r.shift,
    {
        Mods { ctrl: false, alt: false, shift: false }
    }

    pub fn ctrl(&self) -> (r: bool)
        ensures
            r == self.ctrl,
    {
        self.ctrl
    }

    pub fn alt(&self) -> (r: bool)
        ensures
            r == self.alt,
    {
        self.alt
    }

    pub fn shift(&self) -> (r: bool)
        ensures
            r == self.shift,
    {
        self.shift
    }
}

/// Whether a key went down or up.
#[derive(Clone, Copy, PartialEq, Eq, Structural, Debug)]
pub enum ElementState {
    Pressed,
    Released,
}

/// Per-key press bookkeeping, counted in frames.
pub struct Keyboard {
    /// key -> frame counter when pressed, 0 when up
    pressed: Vec<u32>,
    /// key -> (number of frames pressed, frame counter when released)
    just_released: Vec<(u32, u32)>,
    frame_counter: u32,
}

impl Keyboard {
    /// The frame at which each key went down, 0 for a key that is up.
    pub closed spec fn spec_pressed(&self) -> Seq<u32> {
        self.pressed@
    }

    /// For each key: how many frames it was held, and the frame it was released at.
    pub closed spec fn spec_just_released(&self) -> Seq<(u32, u32)> {
        self.just_released@
    }

    /// The number of the current frame.
    pub closed spec fn spec_frame_counter(&self) -> u32 {
        self.frame_counter
    }

    /// Every key has a slot, and no key went down or was released after the
    /// current frame.
    pub open spec fn wf(&self) -> bool {
        &&& self.spec_pressed().len() == NUM_KEYS
        &&& self.spec_just_released().len() == NUM_KEYS
        &&& forall|k: int|
            0 <= k < NUM_KEYS ==> #[trigger] self.spec_pressed()[k] <= self.spec_frame_counter()
        &&& forall|k: int|
            0 <= k < NUM_KEYS ==> #[trigger] self.spec_just_released()[k].1 <= self.spec_frame_counter()
    }

    /// Frames a key has been held: 0 when it is up.
    pub open spec fn spec_pressed_frames(&self, key: Key) -> u32 {
        let t = self.spec_pressed()[key as int];
        if t == 0 {
            0
        } else {
            (self.spec_frame_counter() - t) as u32
        }
    }

    /// Frames a key had been held when released in the current frame, else 0.
    pub open spec fn spec_just_released_frames(&self, key: Key) -> u32 {
        let (frames, at) = self.spec_just_released()[key as int];
        if at != self.spec_frame_counter() {
            0
        } else {
            frames
        }
    }

    /// Frames a key has been held, counting only if each required modifier has
    /// been held at least as long: modifiers are pressed before the key.
    pub open spec fn spec_pressed_frames_with_mods(&self, key: Key, mods: Mods) -> u32 {
        let down = self.spec_pressed_frames(key);
        if down == 0 {
            0
        } else if mods.ctrl && self.spec_pressed_frames(keys::LCONTROL) < down {
            0
        } else if mods.alt && self.spec_pressed_frames(keys::LALT) < down {
            0
        } else if mods.shift && self.spec_pressed_frames(keys::LSHIFT) < down {
            0
        } else {
            down
        }
    }

    /// Releases every key and forgets every release.
    pub fn clear_all(&mut self)
        requires
            old(self).wf(),
        ensures
            final(self).wf(),
            final(self).spec_pressed() == Seq::new(NUM_KEYS as nat, |i: int| 0u32),
            final(self).spec_just_released() == Seq::new(NUM_KEYS as nat, |i: int| (0u32, 0u32)),
            final(self).spec_frame_counter() == old(self).spec_frame_counter(),
    {
        let mut i: usize = 0;
        while i < NUM_KEYS
            invariant
                0 <= i <= NUM_KEYS,
                self.pressed@.len() == NUM_KEYS,
                self.just_released@.len() == NUM_KEYS,
                self.frame_counter == old(self).frame_counter,
                forall|j: int| 0 <= j < i ==> #[trigger] self.pressed@[j] == 0u32,
                forall|j: int| 0 <= j < i ==> #[trigger] self.just_released@[j] == (0u32, 0u32),
            decreases NUM_KEYS - i,
        {
            self.pressed.set(i, 0);
            self.just_released.set(i, (0, 0));
            i += 1;
        }
        assert(self.pressed@ =~= Seq::new(NUM_KEYS as nat, |i: int| 0u32));
        assert(self.just_released@ =~= Seq::new(NUM_KEYS as nat, |i: int| (0u32, 0u32)));
    }

    /// 1 if only the positive key is held, -1 if only the negative one, else 0.
    pub fn get_axis(&self, positive_key: Key, negative_key: Key) -> (r: i32)
        requires
            self.wf(),
            positive_key < NUM_KEYS,
            negative_key < NUM_KEYS,
        ensures
            r == (if self.spec_pressed_frames(positive_key) > 0 { 1int } else { 0int }) - (if self.spec_pressed_frames(
                negative_key,
            ) > 0 {
                1int
            } else {
                0int
            }),
    {
        let p: i32 = if self.pressed(positive_key) { 1 } else { 0 };
        let n: i32 = if self.pressed(negative_key) { 1 } else { 0 };
        p - n
    }

    /// Whether the key is held.
    pub fn pressed(&self, key: Key) -> (r: bool)
        requires
            self.wf(),
            key < NUM_KEYS,
        ensures
            r == (self.spec_pressed_frames(key) > 0),
    {
        self.pressed_frames(key) > 0
    }

    /// How many frames the key has been held, 0 if it is up.
    pub fn pressed_frames(&self, key: Key) -> (r: u32)
        requires
            self.wf(),
            key < NUM_KEYS,
        ensures
            r == self.spec_pressed_frames(key),
    {
        let timestamp = self.pressed[key];
        if timestamp == 0 {
            0
        } else {
            self.frame_counter - timestamp
        }
    }

    /// Whether the key is held together with the given modifiers.
    pub fn pressed_with_mods(&self, key: Key, mods: Mods) -> (r: bool)
        requires
            self.wf(),
            key < NUM_KEYS,
        ensures
            r == (self.spec_pressed_frames_with_mods(key, mods) > 0),
    {
        self.pressed_frames_with_mods(key, mods) > 0
    }

    /// Frames the key has been held, or 0 unless every modifier in `mods` has
    /// been held at least as long as the key.
    pub fn pressed_frames_with_mods(&self, key: Key, mods: Mods) -> (r: u32)
        requires
            self.wf(),
            key < NUM_KEYS,
        ensures
            r == self.spec_pressed_frames_with_mods(key, mods),
    {
        let ticks_down = self.pressed_frames(key);
        if ticks_down == 0 {
            return 0;
        }
        if mods.ctrl() && self.pressed_frames(keys::LCONTROL) < ticks_down {
            return 0;
        }
        if mods.alt() && self.pressed_frames(keys::LALT) < ticks_down {
            return 0;
        }
        if mods.shift() && self.pressed_frames(keys::LSHIFT) < ticks_down {
            return 0;
        }
        ticks_down
    }

    /// Whether the key went down one frame ago.
    pub fn just_pressed(&self, key: Key) -> (r: bool)
        requires
            self.wf(),
            key < NUM_KEYS,
        ensures
            r == (self.spec_pressed_frames(key) == 1),
    {
        self.pressed_frames(key) == 1
    }

    /// Whether the key went down one frame ago with the given modifiers held before it.
    pub fn just_pressed_with_mods(&self, key: Key, mods: Mods) -> (r: bool)
        requires
            self.wf(),
            key < NUM_KEYS,
        ensures
            r == (self.spec_pressed_frames_with_mods(key, mods) == 1),
    {
        self.pressed_frames_with_mods(key, mods) == 1
    }

    /// Whether the key was released this frame after at most 7 frames (or not released).
    pub fn tapped(&self, key: Key) -> (r: bool)
        requires
            self.wf(),
            key < NUM_KEYS,
        ensures
            r == (self.spec_just_released_frames(key) <= 7),
    {
        self.tapped_with_threshold(key, 7)
    }

    /// Whether the key's just-released frame count is at most `max_frames`.
    pub fn tapped_with_threshold(&self, key: Key, max_frames: u32) -> (r: bool)
        requires
            self.wf(),
            key < NUM_KEYS,
        ensures
            r == (self.spec_just_released_frames(key) <= max_frames),
    {
        self.just_released_frames(key) <= max_frames
    }

    /// Whether the key was released in this frame after being held.
    pub fn just_released(&self, key: Key) -> (r: bool)
        requires
            self.wf(),
            key < NUM_KEYS,
        ensures
            r == (self.spec_just_released_frames(key) > 0),
    {
        self.just_released_frames(key) > 0
    }

    /// Frames the key had been held if it was released in this frame, else 0.
    pub fn just_released_frames(&self, key: Key) -> (r: u32)
        requires
            self.wf(),
            key < NUM_KEYS,
        ensures
            r == self.spec_just_released_frames(key),
    {
        let (frame_count, check) = self.just_released[key];
        if check != self.frame_counter {
            0
        } else {
            frame_count
        }
    }

    /// Releases the key without recording a release; true if it had been held.
    pub fn release(&mut self, key: Key) -> (r: bool)
        requires
            old(self).wf(),
            key < NUM_KEYS,
        ensures
            final(self).wf(),
            r == (old(self).spec_pressed_frames(key) > 0),
            final(self).spec_pressed() == old(self).spec_pressed().update(key as int, 0),
            final(self).spec_just_released() == old(self).spec_just_released(),
            final(self).spec_frame_counter() == old(self).spec_frame_counter(),
    {
        self.release_get_frames(key) > 0
    }

    /// Releases the key without recording a release; gets the number of frames it
    /// had been held, or 0 if it was up.
    pub fn release_get_frames(&mut self, key: Key) -> (r: u32)
        requires
            old(self).wf(),
            key < NUM_KEYS,
        ensures
            final(self).wf(),
            r == old(self).spec_pressed_frames(key),
            final(self).spec_pressed() == old(self).spec_pressed().update(key as int, 0),
            final(self).spec_just_released() == old(self).spec_just_released(),
            final(self).spec_frame_counter() == old(self).spec_frame_counter(),
    {
        let frames = self.pressed_frames(key);
        self.pressed.set(key, 0);
        frames
    }

    /// A keyboard with every key up, at frame 0.
    pub fn new() -> (r: Self)
        ensures
            r.wf(),
            r.spec_pressed() == Seq::new(NUM_KEYS as nat, |i: int| 0u32),
            r.spec_just_released() == Seq::new(NUM_KEYS as nat, |i: int| (0u32, 0u32)),
            r.spec_frame_counter() == 0,
    {
        let mut pressed: Vec<u32> = Vec::new();
        pressed.resize(NUM_KEYS, 0);
        let mut just_released: Vec<(u32, u32)> = Vec::new();
        let mut i: usize = 0;
        while i < NUM_KEYS
            invariant
                i <= NUM_KEYS,
                just_released@.len() == i,
                forall|j: int| 0 <= j < i ==> #[trigger] just_released@[j] == (0u32, 0u32),
            decreases NUM_KEYS - i,
        {
            just_released.push((0, 0));
            i += 1;
        }
        let r = Self { pressed, just_released, frame_counter: 0 };
        assert(r.pressed@ =~= Seq::new(NUM_KEYS as nat, |i: int| 0u32));
        assert(r.just_released@ =~= Seq::new(NUM_KEYS as nat, |i: int| (0u32, 0u32)));
        r
    }

    /// Records a key going down or up; always consumes the event.
    /// A key that is already down keeps its press frame (key repeat is ignored);
    /// a release records how long the key was held.
    pub fn handle_key_event(keyboard: &mut Keyboard, key: Key, state: ElementState) -> (r: bool)
        requires
            old(keyboard).wf(),
            key < NUM_KEYS,
        ensures
            final(keyboard).wf(),
            r,
            final(keyboard).spec_frame_counter() == old(keyboard).spec_frame_counter(),
            state == ElementState::Pressed ==> {
                &&& final(keyboard).spec_pressed() == if old(keyboard).spec_pressed()[key as int] == 0 {
                    old(keyboard).spec_pressed().update(key as int, old(keyboard).spec_frame_counter())
                } else {
                    old(keyboard).spec_pressed()
                }
                &&& final(keyboard).spec_just_released() == old(keyboard).spec_just_released()
            },
            state == ElementState::Released ==> {
                &&& final(keyboard).spec_pressed() == old(keyboard).spec_pressed().update(key as int, 0)
                &&& final(keyboard).spec_just_released() == old(keyboard).spec_just_released().update(
                    key as int,
                    (old(keyboard).spec_pressed_frames(key), old(keyboard).spec_frame_counter()),
                )
            },
    {
        match state {
            ElementState::Pressed => {
                if keyboard.pressed[key] == 0 {
                    let fc = keyboard.frame_counter;
                    keyboard.pressed.set(key, fc);
                }
            },
            ElementState::Released => {
                let frames_pressed = keyboard.pressed_frames(key);
                keyboard.pressed.set(key, 0);
                let fc = keyboard.frame_counter;
                keyboard.just_released.set(key, (frames_pressed, fc));
            },
        }
        true
    }

    /// Advances to the next frame.
    pub fn tick(keyboard: &mut Keyboard)
        requires
            old(keyboard).wf(),
            old(keyboard).spec_frame_counter() < u32::MAX,
        ensures
            final(keyboard).wf(),
            final(keyboard).spec_frame_counter() == old(keyboard).spec_frame_counter() + 1,
            final(keyboard).spec_pressed() == old(keyboard).spec_pressed(),
            final(keyboard).spec_just_released() == old(keyboard).spec_just_released(),
            forall|k: Key| k < NUM_KEYS ==> #[trigger] final(keyboard).spec_just_released_frames(k) == 0,
            forall|k: Key|
                k < NUM_KEYS ==> #[trigger] final(keyboard).spec_pressed_frames(k) == if old(keyboard).spec_pressed()[k as int]
                    == 0 {
                    0
                } else {
                    (old(keyboard).spec_pressed_frames(k) + 1) as u32
                },
    {
        keyboard.frame_counter += 1;
    }
}

/// A key counts as pressed with modifiers exactly when it is held and every
/// requested modifier (ctrl, alt, shift: the left keys) has been held at least
/// as long as the key; then it reports the key's frames, otherwise 0. So a key
/// pressed without a requested modifier, or before it, is not a press with it.
pub proof fn lemma_pressed_with_mods(kb: Keyboard, key: Key, mods: Mods)
    ensures
        ({
            let down = kb.spec_pressed_frames(key);
            let held = down > 0
                && (mods.ctrl ==> kb.spec_pressed_frames(keys::LCONTROL) >= down)
                && (mods.alt ==> kb.spec_pressed_frames(keys::LALT) >= down)
                && (mods.shift ==> kb.spec_pressed_frames(keys::LSHIFT) >= down);
            kb.spec_pressed_frames_with_mods(key, mods) == if held { down } else { 0 }
        }),
        mods.ctrl && kb.spec_pressed_frames(keys::LCONTROL) < kb.spec_pressed_frames(key)
            ==> kb.spec_pressed_frames_with_mods(key, mods) == 0,
        mods.alt && kb.spec_pressed_frames(keys::LALT) < kb.spec_pressed_frames(key)
            ==> kb.spec_pressed_frames_with_mods(key, mods) == 0,
        mods.shift && kb.spec_pressed_frames(keys::LSHIFT) < kb.spec_pressed_frames(key)
            ==> kb.spec_pressed_frames_with_mods(key, mods) == 0,
        !mods.ctrl && !mods.alt && !mods.shift ==> kb.spec_pressed_frames_with_mods(key, mods) == kb.spec_pressed_frames(key),
{
}

/// A key pressed in some frame (counter above 0) and held over `n` ticks reports
/// `n` frames held; released at that point, it reports `n` frames through
/// `just_released_frames` until the next tick.
pub proof fn lemma_press_hold_release(k0: Keyboard, k1: Keyboard, k2: Keyboard, key: Key, n: u32)
    requires
        k0.wf(),
        key < NUM_KEYS,
        k0.spec_frame_counter() > 0,
        k0.spec_pressed()[key as int] == 0,
        k0.spec_frame_counter() + n <= u32::MAX,
        // k1: k0 after the key went down and n ticks passed
        k1.wf(),
        k1.spec_pressed() == k0.spec_pressed().update(key as int, k0.spec_frame_counter()),
        k1.spec_frame_counter() == k0.spec_frame_counter() + n,
        // k2: k1 after the key went up
        k2.spec_frame_counter() == k1.spec_frame_counter(),
        k2.spec_pressed() == k1.spec_pressed().update(key as int, 0),
        k2.spec_just_released() == k1.spec_just_released().update(
            key as int,
            (k1.spec_pressed_frames(key), k1.spec_frame_counter()),
        ),
    ensures
        k1.spec_pressed_frames(key) == n,
        k2.spec_pressed_frames(key) == 0,
        k2.spec_just_released_frames(key) == n,
{
}

} // verus!
