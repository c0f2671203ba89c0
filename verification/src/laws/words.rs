//! Words in bytes: which byte is which part of the number.

use vstd::prelude::*;
use crate::bytes::{be16_at, be32_at, be64_at, le16_at, le32_at, le64_at, rd_be16, rd_be32, rd_be64, rd_u16, rd_u32, rd_u64};

verus! {

/// A word that is read is the sum of its bytes, the low byte of a little-endian word and the
/// high byte of a big-endian word first.
pub proof fn law_words_that_are_read(s: &[u8], off: usize, a: u16, b: u32, c: u64, d: u16, e: u32, f: u64)
    requires
        off + 8 <= s@.len(),
        call_ensures(rd_u16, (s, off), a),
        call_ensures(rd_u32, (s, off), b),
        call_ensures(rd_u64, (s, off), c),
        call_ensures(rd_be16, (s, off), d),
        call_ensures(rd_be32, (s, off), e),
        call_ensures(rd_be64, (s, off), f),
    ensures
        ({
            let (t, p) = (s@, off as int);
            &&& a == t[p] + 0x100 * t[p + 1]
            &&& b == t[p] + 0x100 * t[p + 1] + 0x1_0000 * t[p + 2] + 0x100_0000 * t[p + 3]
            &&& c == t[p] + 0x100 * t[p + 1] + 0x1_0000 * t[p + 2] + 0x100_0000 * t[p + 3] + 0x1_0000_0000 * t[p + 4]
                + 0x100_0000_0000 * t[p + 5] + 0x1_0000_0000_0000 * t[p + 6] + 0x100_0000_0000_0000 * t[p + 7]
            &&& d == 0x100 * t[p] + t[p + 1]
            &&& e == 0x100_0000 * t[p] + 0x1_0000 * t[p + 1] + 0x100 * t[p + 2] + t[p + 3]
            &&& f == 0x100_0000_0000_0000 * t[p] + 0x1_0000_0000_0000 * t[p + 1] + 0x100_0000_0000 * t[p + 2]
                + 0x1_0000_0000 * t[p + 3] + 0x100_0000 * t[p + 4] + 0x1_0000 * t[p + 5] + 0x100 * t[p + 6] + t[p + 7]
        }),
{
    law_words_by_their_bytes(s@, off as int);
}

/// The same of words that are spoken of without being read.
pub proof fn law_words_by_their_bytes(s: Seq<u8>, p: int)
    requires
        0 <= p,
        p + 8 <= s.len(),
    ensures
        le16_at(s, p) == s[p] + 0x100 * s[p + 1],
        le32_at(s, p) == s[p] + 0x100 * s[p + 1] + 0x1_0000 * s[p + 2] + 0x100_0000 * s[p + 3],
        le64_at(s, p) == s[p] + 0x100 * s[p + 1] + 0x1_0000 * s[p + 2] + 0x100_0000 * s[p + 3] + 0x1_0000_0000 * s[p
            + 4] + 0x100_0000_0000 * s[p + 5] + 0x1_0000_0000_0000 * s[p + 6] + 0x100_0000_0000_0000 * s[p + 7],
        be16_at(s, p) == 0x100 * s[p] + s[p + 1],
        be32_at(s, p) == 0x100_0000 * s[p] + 0x1_0000 * s[p + 1] + 0x100 * s[p + 2] + s[p + 3],
        be64_at(s, p) == 0x100_0000_0000_0000 * s[p] + 0x1_0000_0000_0000 * s[p + 1] + 0x100_0000_0000 * s[p + 2]
            + 0x1_0000_0000 * s[p + 3] + 0x100_0000 * s[p + 4] + 0x1_0000 * s[p + 5] + 0x100 * s[p + 6] + s[p + 7],
{
    let h = le32_at(s, p + 4);
    assert(h == s[p + 4] + 256 * s[p + 5] + 65536 * s[p + 6] + 16777216 * s[p + 7]);
    let l = be32_at(s, p + 4);
    assert(l == 16777216 * s[p + 4] + 65536 * s[p + 5] + 256 * s[p + 6] + s[p + 7]);
}

} // verus!
