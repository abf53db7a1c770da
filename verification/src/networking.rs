//! The plain-data parts of the network protocol: message framing, the kinds
//! of entity state entries, and the numbering of a player's inputs.

use vstd::prelude::*;

verus! {

/// The length of a message from its two header bytes: below 128 the first
/// byte is the length (and the second byte is already the message's first
/// byte); otherwise the first byte holds the low 7 bits (with its top bit
/// set) and the second byte the rest.
pub open spec fn frame_length(h0: u8, h1: u8) -> int {
    if h0 <= 127 {
        h0 as int
    } else {
        h0 - 128 + h1 * 128
    }
}

/// The length of a message, from its header.
pub fn message_length(header: [u8; 2]) -> (r: usize)
    ensures
        r == frame_length(header@[0], header@[1]),
        r < 0x8000,
{
    let mut length = header[0] as usize;
    if length > 127 {
        let h1 = header[1];
        assert(((h1 as usize) << 7usize) == h1 * 128) by (bit_vector);
        length = length - 128 + ((h1 as usize) << 7);
    }
    length
}

/// Why the connection to the server ended.
#[derive(Clone, Copy, PartialEq, Eq, Structural, Debug)]
pub enum DisconnectReason {
    Unknown,
}

/// Why a message was refused.
#[derive(Clone, Copy, PartialEq, Eq, Structural, Debug)]
pub enum FrameError {
    /// The header announced an empty message.
    Empty,
    /// The message is not shorter than the limit.
    TooLong,
}

/// Refuses an empty message and one that is not shorter than `max_length`.
pub fn check_length(length: usize, max_length: usize) -> (r: Result<(), FrameError>)
    ensures
        length == 0 ==> r == Err::<(), FrameError>(FrameError::Empty),
        length != 0 && length >= max_length ==> r == Err::<(), FrameError>(FrameError::TooLong),
        length != 0 && length < max_length ==> r is Ok,
{
    if length == 0 {
        return Err(FrameError::Empty);
    }
    if length >= max_length {
        return Err(FrameError::TooLong);
    }
    Ok(())
}

/// Prepares the buffer for a message's bytes after its header: it is given
/// the message's length (new bytes zeroed); for a message shorter than 128
/// bytes the second header byte becomes its first byte. Returns where the
/// bytes still to be read start.
pub fn start_message(header: [u8; 2], buf: &mut Vec<u8>) -> (r: usize)
    requires
        frame_length(header@[0], header@[1]) > 0,
    ensures
        final(buf)@.len() == frame_length(header@[0], header@[1]),
        frame_length(header@[0], header@[1]) > 127 ==> r == 0,
        frame_length(header@[0], header@[1]) <= 127 ==> r == 1 && final(buf)@[0] == header@[1],
        forall|i: int|
            r <= i < final(buf)@.len() && old(buf)@.len() <= i ==> #[trigger] final(buf)@[i] == 0u8,
{
    let length = message_length(header);
    buf.resize(length, 0);
    if length > 127 {
        0
    } else {
        buf.set(0, header[1]);
        1
    }
}

/// Server side: checks the announced length against the limit, then prepares
/// the buffer as [`start_message`] does.
pub fn receive_message(header: [u8; 2], buf: &mut Vec<u8>, max_length: usize) -> (r: Result<usize, FrameError>)
    ensures
        frame_length(header@[0], header@[1]) == 0 ==> r == Err::<usize, FrameError>(FrameError::Empty)
            && final(buf)@ == old(buf)@,
        frame_length(header@[0], header@[1]) != 0 && frame_length(header@[0], header@[1]) >= max_length ==> r
            == Err::<usize, FrameError>(FrameError::TooLong) && final(buf)@ == old(buf)@,
        frame_length(header@[0], header@[1]) != 0 && frame_length(header@[0], header@[1]) < max_length ==> {
            &&& final(buf)@.len() == frame_length(header@[0], header@[1])
            &&& frame_length(header@[0], header@[1]) > 127 ==> r == Ok::<usize, FrameError>(0)
            &&& frame_length(header@[0], header@[1]) <= 127 ==> r == Ok::<usize, FrameError>(1) && final(buf)@[0] == header@[1]
        },
{
    let length = message_length(header);
    match check_length(length, max_length) {
        Err(e) => Err(e),
        Ok(()) => Ok(start_message(header, buf)),
    }
}

/// An entry of an entity state message, by its leading number: two low bits
/// `00` add an entity, `10` remove one (the id in the bits above), and a low
/// bit `1` moves one (the id in the bits above it).
#[derive(Clone, Copy, PartialEq, Eq, Structural, Debug)]
pub enum EntryKind {
    Added(u16),
    Removed(u16),
    Moved(u16),
}

/// The kind and entity id of an entity state entry.
pub fn entry_kind(start: u16) -> (r: EntryKind)
    ensures
        start % 4 == 0 ==> r == EntryKind::Added(start / 4),
        start % 4 == 2 ==> r == EntryKind::Removed(start / 4),
        start % 2 == 1 ==> r == EntryKind::Moved(start / 2),
{
    assert(start & 3 == start % 4 && start >> 2 == start / 4 && start >> 1 == start / 2) by (bit_vector);
    match start & 0b11 {
        0b00 => EntryKind::Added(start >> 2),
        0b10 => EntryKind::Removed(start >> 2),
        _ => EntryKind::Moved(start >> 1),
    }
}


/// The distance from tag `a` forward to tag `b`, counting with 16-bit
/// wrap-around.
pub open spec fn tag_distance(a: u16, b: u16) -> u16 {
    ((b - a) % 0x1_0000) as u16
}

/// The tag `k` steps before tag `t`, counting with 16-bit wrap-around.
pub open spec fn tag_before(t: u16, k: int) -> u16 {
    ((t - k) % 0x1_0000) as u16
}

/// What the server keeps of a player's stream of inputs: the tag of the newest
/// input received. Inputs are numbered consecutively; each datagram carries
/// the newest input and may repeat some before it.
pub struct InputStream {
    prev_tag: u16,
}

impl InputStream {
    /// The tag of the newest input received.
    pub closed spec fn last_tag(&self) -> u16 {
        self.prev_tag
    }

    /// A stream that has received nothing; its last tag counts as 0.
    pub fn new() -> (r: Self)
        ensures
            r.last_tag() == 0,
    {
        InputStream { prev_tag: 0 }
    }

    /// A datagram whose newest input is tagged `tag` arrived. It is dropped
    /// (`None`) when it repeats the newest input received; otherwise its
    /// distance from that input is returned, 1 when nothing was missed, and
    /// `tag` becomes the newest.
    pub fn on_datagram(&mut self, tag: u16) -> (r: Option<u16>)
        ensures
            tag == old(self).last_tag() ==> r == None::<u16> && final(self).last_tag() == old(self).last_tag(),
            tag != old(self).last_tag() ==> {
                &&& r == Some(tag_distance(old(self).last_tag(), tag))
                &&& 1 <= tag_distance(old(self).last_tag(), tag)
                &&& final(self).last_tag() == tag
            },
    {
        if tag == self.prev_tag {
            return None;
        }
        let prev = self.prev_tag;
        let lost = tag.wrapping_sub(prev);
        assert(lost == tag_distance(prev, tag) && lost >= 1) by (bit_vector)
            requires
                tag != prev,
                lost == if tag - prev < 0 { (tag - prev + 0x1_0000) as u16 } else { (tag - prev) as u16 },
        ;
        self.prev_tag = tag;
        Some(lost)
    }
}

/// The inputs of a datagram as they are passed on, oldest first: the newest
/// input `tag` and the `recovered` ones before it that the datagram repeats,
/// each with the count of inputs reported missing before it. The oldest one
/// carries the whole gap less one, `lost - 1`; the others none.
pub open spec fn forwarded_inputs(tag: u16, lost: u16, recovered: u16) -> Seq<(u16, u32)> {
    Seq::new(
        (recovered + 1) as nat,
        |i: int| (tag_before(tag, recovered - i), if i == 0 { (lost - 1) as u32 } else { 0u32 }),
    )
}

/// The order in which the inputs of a datagram are passed on, and the losses
/// reported with them; `lost` is the distance to the previous newest input and
/// `recovered` how many of the missing ones the datagram repeated.
pub fn forward_inputs(tag: u16, lost: u16, recovered: u16) -> (r: Vec<(u16, u32)>)
    requires
        1 <= lost,
        recovered < lost,
    ensures
        r@ == forwarded_inputs(tag, lost, recovered),
{
    let mut r: Vec<(u16, u32)> = Vec::new();
    let mut loss: u32 = lost as u32 - 1;
    let mut i: u16 = 0;
    while i <= recovered
        invariant
            i <= recovered + 1,
            recovered < lost,
            loss == if i == 0 { (lost - 1) as u32 } else { 0u32 },
            r@ == forwarded_inputs(tag, lost, recovered).take(i as int),
        decreases recovered + 1 - i,
    {
        let t = tag.wrapping_sub(recovered - i);
        assert(t == tag_before(tag, recovered - i)) by (bit_vector)
            requires
                t == if tag - (recovered - i) < 0 {
                    (tag - (recovered - i) + 0x1_0000) as u16
                } else {
                    (tag - (recovered - i)) as u16
                },
                recovered - i >= 0,
        ;
        r.push((t, loss));
        loss = 0;
        i = i + 1;
        assert(r@ =~= forwarded_inputs(tag, lost, recovered).take(i as int));
    }
    assert(forwarded_inputs(tag, lost, recovered).take((recovered + 1) as int) =~= forwarded_inputs(tag, lost, recovered));
    r
}

/// The inputs passed on for a datagram end with its newest input, follow one
/// another without gaps, and report together the inputs missing since the
/// previous newest one, less one.
pub proof fn lemma_forwarded_inputs_shape(tag: u16, lost: u16, recovered: u16)
    requires
        1 <= lost,
        recovered < lost,
    ensures
        forwarded_inputs(tag, lost, recovered).last().0 == tag,
        forall|i: int|
            0 < i <= recovered ==> #[trigger] forwarded_inputs(tag, lost, recovered)[i].0 == tag_before(
                forwarded_inputs(tag, lost, recovered)[i - 1].0,
                -1,
            ),
        forall|i: int| 0 < i <= recovered ==> #[trigger] forwarded_inputs(tag, lost, recovered)[i].1 == 0,
        forwarded_inputs(tag, lost, recovered)[0].1 == lost - 1,
{
    let s = forwarded_inputs(tag, lost, recovered);
    assert(s.last() == s[recovered as int]);
    assert(tag_before(tag, 0) == tag) by (bit_vector);
    assert forall|i: int| 0 < i <= recovered implies #[trigger] s[i].0 == tag_before(s[i - 1].0, -1) by {
        let a = recovered - i;
        assert(((((tag - (a + 1)) % 0x1_0000) as u16 + 1) % 0x1_0000) as u16 == ((tag - a) % 0x1_0000) as u16)
            by (nonlinear_arith)
            requires
                0 <= a,
        ;
    }
}


/// The leading number of an entity state entry ([`entry_kind`] reads it back):
/// the id shifted left by two above `00` for an added entity and `10` for a
/// removed one, or shifted left by one above `1` for a moved one, each within
/// 16 bits.
pub open spec fn entry_header_of(kind: EntryKind) -> u16 {
    match kind {
        EntryKind::Added(id) => (id << 2u16) | 0u16,
        EntryKind::Removed(id) => (id << 2u16) | 2u16,
        EntryKind::Moved(id) => (id << 1u16) | 1u16,
    }
}

/// The leading number that the server writes for an entity state entry.
pub fn entry_header(kind: EntryKind) -> (r: u16)
    ensures
        r == entry_header_of(kind),
{
    match kind {
        EntryKind::Added(id) => (id << 2u16) | 0u16,
        EntryKind::Removed(id) => (id << 2u16) | 2u16,
        EntryKind::Moved(id) => (id << 1u16) | 1u16,
    }
}

/// Reading an entry's leading number gives back the kind and id it was
/// written for, when the id fits the bits left for it: 14 bits for an added
/// or removed entity, 15 for a moved one.
pub proof fn lemma_entry_header_roundtrip(kind: EntryKind)
    requires
        match kind {
            EntryKind::Added(id) => id < 0x4000,
            EntryKind::Removed(id) => id < 0x4000,
            EntryKind::Moved(id) => id < 0x8000,
        },
    ensures
        ({
            let h = entry_header_of(kind);
            match kind {
                EntryKind::Added(id) => h % 4 == 0 && h / 4 == id,
                EntryKind::Removed(id) => h % 4 == 2 && h / 4 == id,
                EntryKind::Moved(id) => h % 2 == 1 && h / 2 == id,
            }
        }),
{
    match kind {
        EntryKind::Added(id) => {
            assert(id < 0x4000 ==> ((id << 2u16) | 0u16) % 4 == 0 && ((id << 2u16) | 0u16) / 4 == id) by (bit_vector);
        },
        EntryKind::Removed(id) => {
            assert(id < 0x4000 ==> ((id << 2u16) | 2u16) % 4 == 2 && ((id << 2u16) | 2u16) / 4 == id) by (bit_vector);
        },
        EntryKind::Moved(id) => {
            assert(id < 0x8000 ==> ((id << 1u16) | 1u16) % 2 == 1 && ((id << 1u16) | 1u16) / 2 == id) by (bit_vector);
        },
    }
}

/// The tag of the newest input the server has processed, as the server writes
/// it at the head of each entity state message; `u16::MAX` until one is.
pub struct AckWriter {
    prev_input_tag: u16,
}

impl AckWriter {
    /// The tag written last.
    pub closed spec fn last_tag(&self) -> u16 {
        self.prev_input_tag
    }

    /// A writer that has written nothing; it counts `u16::MAX` as written.
    pub fn new() -> (r: Self)
        ensures
            r.last_tag() == u16::MAX,
    {
        AckWriter { prev_input_tag: u16::MAX }
    }

    /// The tag to write for a message: a newly processed input's tag, or else
    /// the last one again (which tells the client that nothing new follows).
    /// A new tag must differ from the last one.
    pub fn header_tag(&mut self, tag: Option<u16>) -> (r: u16)
        requires
            tag matches Some(t) ==> t != old(self).last_tag(),
        ensures
            r == match tag {
                Some(t) => t,
                None => old(self).last_tag(),
            },
            final(self).last_tag() == r,
    {
        match tag {
            Some(t) => {
                self.prev_input_tag = t;
                t
            },
            None => self.prev_input_tag,
        }
    }
}

/// The client's side of [`AckWriter`]: the tag read last; `u16::MAX` until one
/// is read.
pub struct AckReader {
    prev_tag: u16,
}

impl AckReader {
    /// The tag read last.
    pub closed spec fn last_tag(&self) -> u16 {
        self.prev_tag
    }

    /// A reader that has read nothing; it counts `u16::MAX` as read.
    pub fn new() -> (r: Self)
        ensures
            r.last_tag() == u16::MAX,
    {
        AckReader { prev_tag: u16::MAX }
    }

    /// Reads a message's tag: true when it is new, so that the processed
    /// input's data follows it.
    pub fn on_tag(&mut self, tag: u16) -> (r: bool)
        ensures
            r == (tag != old(self).last_tag()),
            final(self).last_tag() == tag,
    {
        let new = tag != self.prev_tag;
        self.prev_tag = tag;
        new
    }
}

/// A reader in step with the writer learns of new data exactly when the
/// server had a newly processed input, and stays in step.
pub proof fn lemma_ack_in_step(last: u16, tag: Option<u16>)
    requires
        tag matches Some(t) ==> t != last,
    ensures
        ({
            let written = match tag {
                Some(t) => t,
                None => last,
            };
            (written != last) == (tag is Some)
        }),
{
}

} // verus!
