//! Matching the server's acknowledgements to the inputs sent to it.

use vstd::prelude::*;

verus! {

/// How many of the `held` oldest unacknowledged inputs an acknowledgement of
/// input `tag` covers, counting with 16-bit wrap-around: inputs are numbered
/// consecutively, the newest held one is `input_id - 1`, so the oldest is
/// `input_id - held`, and all up to `tag` are covered.
pub open spec fn ack_count(input_id: u16, held: u16, tag: u16) -> u16 {
    (tag + 1 - (input_id - held)) as u16
}

/// How many held inputs the server's acknowledgement of input `tag` lets go:
/// `None` when it covers none of them (an old or repeated acknowledgement) or
/// more than are held.
pub fn acknowledged_inputs(input_id: u16, held: usize, tag: u16) -> (r: Option<u16>)
    ensures
        ({
            let c = ack_count(input_id, held as u16, tag);
            r == if c == 0 || c > held as u16 {
                None::<u16>
            } else {
                Some(c)
            }
        }),
{
    let held16 = #[verifier::truncate] (held as u16);
    let tag1 = tag.wrapping_add(1);
    let oldest = input_id.wrapping_sub(held16);
    let to_remove = tag1.wrapping_sub(oldest);
    assert(to_remove == ack_count(input_id, held16, tag)) by (bit_vector)
        requires
            tag1 == if tag + 1 > u16::MAX { (tag + 1 - 0x1_0000) as u16 } else { (tag + 1) as u16 },
            oldest == if input_id - held16 < 0 { (input_id - held16 + 0x1_0000) as u16 } else { (input_id - held16) as u16 },
            to_remove == if tag1 - oldest < 0 { (tag1 - oldest + 0x1_0000) as u16 } else { (tag1 - oldest) as u16 },
    ;
    if to_remove == 0 || to_remove > held16 {
        None
    } else {
        Some(to_remove)
    }
}

/// Acknowledging the `j`-th oldest of `held` inputs (`held` below 2^16) lets
/// go of exactly the `j + 1` oldest, across wrap-around of the numbering.
pub proof fn lemma_ack_covers_through_tag(input_id: u16, held: u16, j: u16)
    requires
        j < held,
    ensures
        ack_count(input_id, held, (input_id - held + j) as u16) == j + 1,
{
    assert(j < held ==> ((((input_id - held + j) as u16) + 1 - (input_id - held)) as u16) == j + 1) by (bit_vector);
}

} // verus!
