use vstd::prelude::*;
use crate::input::keyboard::{Keyboard, NUM_KEYS};
use crate::input::settings::Keybindings;
use vstd::std_specs::iter::IteratorSpec;

verus! {

broadcast use {vstd::array::group_array_axioms, vstd::std_specs::vec::axiom_spec_into_iter};

pub const LEFT_BIT: u32 = 0;
pub const RIGHT_BIT: u32 = 1;
pub const FWD_BIT: u32 = 2;
pub const BACK_BIT: u32 = 3;
pub const UP_BIT: u32 = 4;
pub const DOWN_BIT: u32 = 5;

pub const LEFT: u32 = 1;
pub const RIGHT: u32 = 2;
pub const FWD: u32 = 4;
pub const BACK: u32 = 8;
pub const UP: u32 = 16;
pub const DOWN: u32 = 32;

/// The player's input during one game tick.
#[derive(Clone, Copy, PartialEq, Eq, Structural, Debug)]
pub struct InputSnapshot {
    /// One bit per movement direction (see `LEFT_BIT` and the others).
    pub keys: u8,
    /// Encoded yaw change, 16 bits, about 1/180th of a degree each.
    pub yaw_delta: u16,
    /// Encoded pitch change, 16 bits.
    pub pitch_delta: u16,
}

/// Whether a bit of a key set is on.
pub open spec fn key_bit(keys: u8, bit: u32) -> bool {
    (keys >> bit) & 1u8 == 1u8
}

/// 1, 0 or -1 for a pair of opposite direction bits.
pub open spec fn axis(keys: u8, positive: u32, negative: u32) -> int {
    (if key_bit(keys, positive) { 1int } else { 0int }) - (if key_bit(keys, negative) { 1int } else { 0int })
}

/// The key set of held movement keys: forward, back, left, right and jump (up).
pub open spec fn held_keys(fwd: bool, back: bool, left: bool, right: bool, jump: bool) -> u8 {
    ((if fwd { 4int } else { 0int }) + (if back { 8int } else { 0int }) + (if left { 1int } else { 0int })
        + (if right { 2int } else { 0int }) + (if jump { 16int } else { 0int })) as u8
}

fn flag(b: bool) -> (r: u8)
    ensures
        r == (if b { 1u8 } else { 0u8 }),
{
    if b {
        1
    } else {
        0
    }
}

impl InputSnapshot {
    /// Takes the movement keys from the keyboard and the already-encoded camera
    /// rotation of this tick.
    pub fn take(kb: &Keyboard, bindings: &Keybindings, yaw_delta: u16, pitch_delta: u16) -> (r: Self)
        requires
            kb.wf(),
            bindings.valid(),
        ensures
            r.keys == held_keys(
                kb.spec_pressed_frames(bindings.fwd) > 0,
                kb.spec_pressed_frames(bindings.back) > 0,
                kb.spec_pressed_frames(bindings.left) > 0,
                kb.spec_pressed_frames(bindings.right) > 0,
                kb.spec_pressed_frames(bindings.jump) > 0,
            ),
            r.yaw_delta == yaw_delta,
            r.pitch_delta == pitch_delta,
    {
        let f = flag(kb.pressed(bindings.fwd));
        let b = flag(kb.pressed(bindings.back));
        let l = flag(kb.pressed(bindings.left));
        let rt = flag(kb.pressed(bindings.right));
        let j = flag(kb.pressed(bindings.jump));
        let mut bitset: u8 = 0;
        bitset = bitset | (f << 2u8);
        bitset = bitset | (b << 3u8);
        bitset = bitset | (l << 0u8);
        bitset = bitset | (rt << 1u8);
        bitset = bitset | (j << 4u8);
        assert(f <= 1 && b <= 1 && l <= 1 && rt <= 1 && j <= 1 ==> ((((0u8 | (f << 2u8)) | (b << 3u8)) | (l
            << 0u8)) | (rt << 1u8)) | (j << 4u8) == f * 4 + b * 8 + l + rt * 2 + j * 16) by (bit_vector);
        Self { keys: bitset, yaw_delta, pitch_delta }
    }

    /// The movement direction of this input: (right, forward, up), each 1, 0 or -1.
    pub fn movement_axes(&self) -> (r: (i32, i32, i32))
        ensures
            r.0 == axis(self.keys, RIGHT_BIT, LEFT_BIT),
            r.1 == axis(self.keys, FWD_BIT, BACK_BIT),
            r.2 == axis(self.keys, UP_BIT, DOWN_BIT),
    {
        let k = self.keys;
        let right = ((k >> 1u8) & 1) as i32 - ((k >> 0u8) & 1) as i32;
        let fwd = ((k >> 2u8) & 1) as i32 - ((k >> 3u8) & 1) as i32;
        let up = ((k >> 4u8) & 1) as i32 - ((k >> 5u8) & 1) as i32;
        assert(forall|s: u8| #![auto] (k >> s) & 1u8 == 0u8 || (k >> s) & 1u8 == 1u8) by (bit_vector);
        (right, fwd, up)
    }
}

/// The key set of a snapshot taken with held keys has each held direction's bit
/// set and no other.
pub proof fn lemma_take_bits(fwd: bool, back: bool, left: bool, right: bool, jump: bool)
    ensures
        key_bit(held_keys(fwd, back, left, right, jump), FWD_BIT) == fwd,
        key_bit(held_keys(fwd, back, left, right, jump), BACK_BIT) == back,
        key_bit(held_keys(fwd, back, left, right, jump), LEFT_BIT) == left,
        key_bit(held_keys(fwd, back, left, right, jump), RIGHT_BIT) == right,
        key_bit(held_keys(fwd, back, left, right, jump), UP_BIT) == jump,
        !key_bit(held_keys(fwd, back, left, right, jump), DOWN_BIT),
{
    let k = held_keys(fwd, back, left, right, jump);
    let f: u8 = if fwd { 1 } else { 0 };
    let b: u8 = if back { 1 } else { 0 };
    let l: u8 = if left { 1 } else { 0 };
    let r: u8 = if right { 1 } else { 0 };
    let j: u8 = if jump { 1 } else { 0 };
    assert(k == f * 4 + b * 8 + l + r * 2 + j * 16);
    assert(f <= 1 && b <= 1 && l <= 1 && r <= 1 && j <= 1 ==> {
        let kk: u8 = (f * 4 + b * 8 + l + r * 2 + j * 16) as u8;
        &&& (kk >> 2u32) & 1u8 == f
        &&& (kk >> 3u32) & 1u8 == b
        &&& (kk >> 0u32) & 1u8 == l
        &&& (kk >> 1u32) & 1u8 == r
        &&& (kk >> 4u32) & 1u8 == j
        &&& (kk >> 5u32) & 1u8 == 0u8
    }) by (bit_vector);
}

/// Capacity of the input ring buffer: 30 game ticks are one second, and a
/// response should never take this long.
pub const MAX_RING_BUF_ENTRIES: usize = 32;

/// The inputs of recent game ticks, oldest first, in a ring buffer.
pub struct InputSnapshotBuffer {
    buffer: [InputSnapshot; 32],
    start_idx: usize,
    size: usize,
    oldest_gametick: u32,
}

impl InputSnapshotBuffer {
    /// The ring's slots.
    pub closed spec fn spec_slots(&self) -> Seq<InputSnapshot> {
        self.buffer@
    }

    /// The slot of the oldest snapshot.
    pub closed spec fn spec_start(&self) -> int {
        self.start_idx as int
    }

    /// The game tick of the oldest snapshot.
    pub closed spec fn spec_oldest_gametick(&self) -> u32 {
        self.oldest_gametick
    }

    /// The start slot is a slot and at most 32 snapshots are held.
    pub closed spec fn wf(&self) -> bool {
        &&& self.start_idx < MAX_RING_BUF_ENTRIES
        &&& self.size <= MAX_RING_BUF_ENTRIES
    }

    /// The held snapshots, oldest first.
    pub closed spec fn view(&self) -> Seq<InputSnapshot> {
        Seq::new(self.size as nat, |i: int| self.buffer@[(self.start_idx + i) % 32])
    }

    /// A valid buffer holds at most 32 snapshots.
    pub proof fn lemma_at_most_32(&self)
        requires
            self.wf(),
        ensures
            self.view().len() <= MAX_RING_BUF_ENTRIES,
    {
    }

    /// Appends the input of a new tick; when the buffer is full, the oldest input
    /// is dropped to make room.
    pub fn push_new_snapshot(&mut self, snapshot: InputSnapshot)
        requires
            old(self).wf(),
        ensures
            final(self).wf(),
            final(self).view() == if old(self).view().len() == MAX_RING_BUF_ENTRIES {
                old(self).view().drop_first().push(snapshot)
            } else {
                old(self).view().push(snapshot)
            },
            final(self).spec_oldest_gametick() == old(self).spec_oldest_gametick(),
    {
        if self.size == MAX_RING_BUF_ENTRIES {
            let s = self.start_idx;
            self.buffer[s] = snapshot;
            self.start_idx = (self.start_idx + 1) % MAX_RING_BUF_ENTRIES;
            assert(self.view() =~= old(self).view().drop_first().push(snapshot)) by {
                assert forall|i: int| 0 <= i < 32 implies #[trigger] self.view()[i]
                    == old(self).view().drop_first().push(snapshot)[i] by {
                    if i < 31 {
                        assert((s + 1) % 32 + i == s + 1 + i || (s + 1) % 32 + i == s + 1 + i - 32);
                        assert((s + i + 1) % 32 != s);
                    } else {
                        assert(((s + 1) % 32 + 31) % 32 == s);
                    }
                }
            }
        } else {
            let idx = (self.start_idx + self.size) % MAX_RING_BUF_ENTRIES;
            self.buffer[idx] = snapshot;
            self.size += 1;
            assert(self.view() =~= old(self).view().push(snapshot)) by {
                assert forall|i: int| 0 <= i < self.size implies #[trigger] self.view()[i]
                    == old(self).view().push(snapshot)[i] by {
                    if i < self.size - 1 {
                        assert((self.start_idx + i) % 32 != idx);
                    }
                }
            }
        }
    }

    /// The snapshot slot of a game tick at or after the oldest one. The slot is
    /// read whether or not it holds a snapshot of that tick.
    pub fn get_by_gametick(&self, gametick: u32) -> (r: Option<InputSnapshot>)
        requires
            self.wf(),
        ensures
            gametick < self.spec_oldest_gametick() ==> r is None,
            gametick >= self.spec_oldest_gametick() ==> r == Some(
                self.spec_slots()[(self.spec_start() + (gametick - self.spec_oldest_gametick())) % 32],
            ),
            gametick >= self.spec_oldest_gametick() && gametick - self.spec_oldest_gametick()
                < self.view().len() ==> r == Some(
                self.view()[gametick - self.spec_oldest_gametick()],
            ),
    {
        if gametick < self.oldest_gametick {
            None
        } else {
            let d = (gametick - self.oldest_gametick) as usize % MAX_RING_BUF_ENTRIES;
            let idx = (self.start_idx + d) % MAX_RING_BUF_ENTRIES;
            assert(idx == (self.start_idx + (gametick - self.oldest_gametick)) % 32) by {
                vstd::arithmetic::div_mod::lemma_add_mod_noop(
                    self.start_idx as int,
                    (gametick - self.oldest_gametick) as int,
                    32,
                );
                vstd::arithmetic::div_mod::lemma_mod_twice(
                    (gametick - self.oldest_gametick) as int, 32);
                vstd::arithmetic::div_mod::lemma_add_mod_noop(
                    self.start_idx as int,
                    d as int,
                    32,
                );
            }
            Some(self.buffer[idx])
        }
    }

    /// Drops every snapshot before a game tick, which becomes the oldest tick.
    /// Ticks before the oldest one are ignored.
    pub fn drop_all_before_gametick(&mut self, gametick: u32)
        requires
            old(self).wf(),
        ensures
            final(self).wf(),
            gametick < old(self).spec_oldest_gametick() ==> final(self).view() == old(self).view()
                && final(self).spec_oldest_gametick() == old(self).spec_oldest_gametick(),
            gametick >= old(self).spec_oldest_gametick() ==> {
                let n = gametick - old(self).spec_oldest_gametick();
                &&& final(self).view() == if n < old(self).view().len() {
                    old(self).view().skip(n)
                } else {
                    Seq::<InputSnapshot>::empty()
                }
                &&& final(self).spec_oldest_gametick() == gametick
            },
    {
        if gametick < self.oldest_gametick {
            return;
        }
        let diff = gametick - self.oldest_gametick;
        let num_to_drop: usize = if (diff as u64) < (self.size as u64) {
            diff as usize
        } else {
            self.size
        };
        let s = self.start_idx;
        self.start_idx = (self.start_idx + num_to_drop) % MAX_RING_BUF_ENTRIES;
        self.size -= num_to_drop;
        self.oldest_gametick = gametick;
        proof {
            let n = num_to_drop as int;
            assert forall|i: int| 0 <= i < self.size implies #[trigger] self.view()[i] == old(
                self,
            ).view()[i + n] by {
                assert(((s + n) % 32 + i) % 32 == (s + n + i) % 32) by {
                    vstd::arithmetic::div_mod::lemma_add_mod_noop(s + n, i, 32);
                    vstd::arithmetic::div_mod::lemma_mod_twice(s + n, 32);
                    vstd::arithmetic::div_mod::lemma_small_mod(i as nat, 32);
                }
            }
            if n < old(self).view().len() {
                assert(self.view() =~= old(self).view().skip(n));
            } else {
                assert(self.view() =~= Seq::<InputSnapshot>::empty());
            }
        }
    }

    /// The number of held snapshots.
    pub fn len(&self) -> (r: usize)
        requires
            self.wf(),
        ensures
            r == self.view().len(),
    {
        self.size
    }

    /// The held snapshots, oldest first.
    pub fn snapshots(&self) -> (r: Vec<InputSnapshot>)
        requires
            self.wf(),
        ensures
            r@ == self.view(),
    {
        let mut out: Vec<InputSnapshot> = Vec::new();
        let mut i: usize = 0;
        while i < self.size
            invariant
                self.wf(),
                i <= self.size,
                out@ == self.view().take(i as int),
            decreases self.size - i,
        {
            out.push(self.buffer[(self.start_idx + i) % MAX_RING_BUF_ENTRIES]);
            i += 1;
            assert(out@ =~= self.view().take(i as int));
        }
        assert(self.view().take(self.size as int) =~= self.view());
        out
    }

    /// Iterates over the held snapshots, oldest first.
    pub fn iter(&self) -> (r: std::vec::IntoIter<InputSnapshot>)
        requires
            self.wf(),
        ensures
            r.remaining() == self.view(),
    {
        self.snapshots().into_iter()
    }
}

impl Default for InputSnapshotBuffer {
    fn default() -> (r: Self)
        ensures
            r.wf(),
            r.view().len() == 0,
            r.spec_oldest_gametick() == 0,
            r.spec_start() == 0,
            forall|i: int| 0 <= i < 32 ==> #[trigger] r.spec_slots()[i] == (InputSnapshot {
                keys: 0,
                yaw_delta: 0,
                pitch_delta: 0,
            }),
    {
        Self {
            buffer: vstd::array::array_fill_for_copy_types(
                InputSnapshot { keys: 0, yaw_delta: 0, pitch_delta: 0 },
            ),
            start_idx: 0,
            size: 0,
            oldest_gametick: 0,
        }
    }
}

} // verus!
