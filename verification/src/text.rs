//! Character helpers shared by text layout and editing.

use vstd::prelude::*;

verus! {

broadcast use vstd::string::axiom_spec_iter;

/// The characters of a string, in order.
pub fn str_chars(s: &str) -> (r: Vec<char>)
    ensures
        r@ == s@,
{
    let mut out: Vec<char> = Vec::new();
    for c in it: s.chars()
        invariant
            out@ == it.seq().take(it.index() as int),
            it.seq() == s@,
    {
        out.push(c);
        assert(out@ =~= it.seq().take(it.index() as int + 1));
    }
    assert(out@ =~= s@);
    out
}

/// Number of bytes in the UTF-8 encoding of a character.
pub open spec fn utf8_len(c: char) -> int {
    if (c as u32) < 0x80 {
        1
    } else if (c as u32) < 0x800 {
        2
    } else if (c as u32) < 0x1_0000 {
        3
    } else {
        4
    }
}

/// Byte offset of the character at index `i`: the encoded length of the ones before it.
pub open spec fn byte_offset(s: Seq<char>, i: int) -> int
    decreases i,
{
    if i <= 0 {
        0
    } else {
        byte_offset(s, i - 1) + utf8_len(s[i - 1])
    }
}

/// Number of bytes in the UTF-8 encoding of a character.
pub fn len_utf8(c: char) -> (r: usize)
    ensures
        r == utf8_len(c),
{
    let v = c as u32;
    if v < 0x80 {
        1
    } else if v < 0x800 {
        2
    } else if v < 0x1_0000 {
        3
    } else {
        4
    }
}

/// Byte offsets grow with the character index, by one to four bytes each.
pub proof fn lemma_byte_offset_bounds(s: Seq<char>, i: int, j: int)
    requires
        0 <= i <= j,
    ensures
        byte_offset(s, i) <= byte_offset(s, j),
        byte_offset(s, j) - byte_offset(s, i) >= j - i,
        byte_offset(s, j) - byte_offset(s, i) <= 4 * (j - i),
    decreases j - i,
{
    if i < j {
        lemma_byte_offset_bounds(s, i, j - 1);
    }
}

/// `&s[start..end]` (str indexing by a byte range): the characters between two
/// byte offsets. std panics unless both offsets are character boundaries in
/// order, so that is required; the result is the characters from the one at
/// `start` up to the one at `end`.
#[verifier::external_body]
pub(crate) fn str_slice(s: &str, start: usize, end: usize) -> (r: &str)
    requires
        exists|i: int, j: int|
            0 <= i <= j <= s@.len() && #[trigger] byte_offset(s@, i) == start && #[trigger] byte_offset(s@, j)
                == end,
    ensures
        forall|i: int, j: int|
            0 <= i <= j <= s@.len() && #[trigger] byte_offset(s@, i) == start && #[trigger] byte_offset(s@, j)
                == end ==> r@ == s@.subrange(i, j),
{
    &s[start..end]
}

/// Distinct character indices have distinct byte offsets.
pub proof fn lemma_byte_offset_injective(s: Seq<char>, i: int, j: int)
    requires
        0 <= i,
        0 <= j,
        byte_offset(s, i) == byte_offset(s, j),
    ensures
        i == j,
{
    if i < j {
        lemma_byte_offset_bounds(s, i, j);
    } else if j < i {
        lemma_byte_offset_bounds(s, j, i);
    }
}

/// The UTF-8 length of the characters, in bytes.
pub fn utf8_byte_len(chars: &[char]) -> (r: usize)
    requires
        chars@.len() <= usize::MAX / 4,
    ensures
        r == byte_offset(chars@, chars@.len() as int),
{
    let mut n: usize = 0;
    let mut i: usize = 0;
    while i < chars.len()
        invariant
            i <= chars@.len(),
            chars@.len() <= usize::MAX / 4,
            n == byte_offset(chars@, i as int),
            n <= 4 * i,
        decreases chars@.len() - i,
    {
        n = n + len_utf8(chars[i]);
        i += 1;
    }
    n
}

/// Two strings joined.
pub(crate) fn concat_str(a: &str, b: &str) -> (r: String)
    ensures
        r@ == a@ + b@,
{
    String::from_str(a).concat(b)
}

/// In a string of ASCII characters, the byte offset of a character is its index.
pub proof fn lemma_ascii_byte_offset(s: Seq<char>, i: int)
    requires
        0 <= i <= s.len(),
        forall|k: int| 0 <= k < s.len() ==> (#[trigger] s[k] as u32) < 0x80,
    ensures
        byte_offset(s, i) == i,
    decreases i,
{
    if i > 0 {
        lemma_ascii_byte_offset(s, i - 1);
    }
}

} // verus!
