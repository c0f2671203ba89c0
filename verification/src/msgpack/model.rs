//! What MessagePack bytes mean.

use vstd::prelude::*;
use vstd::utf8::valid_utf8;
use crate::bytes::{be16_at, be32_at, be64_at};

verus! {

/// One value without its children: a whole leaf, or the header of a container.
pub enum MpHead {
    Nil,
    Bool(bool),
    Int(int),
    Float32(u32),
    Float64(u64),
    Str(Seq<u8>),
    Bin(Seq<u8>),
    ArrayOf(nat),
    MapOf(nat),
    Ext(int, Seq<u8>),
}

/// An unsigned `bits`-wide pattern read as two's complement.
pub open spec fn twos8(v: u8) -> int {
    if v < 0x80 { v as int } else { v - 0x100 }
}

pub open spec fn twos16(v: u16) -> int {
    if v < 0x8000 { v as int } else { v - 0x1_0000 }
}

pub open spec fn twos32(v: u32) -> int {
    if v < 0x8000_0000 { v as int } else { v - 0x1_0000_0000 }
}

pub open spec fn twos64(v: u64) -> int {
    if v < 0x8000_0000_0000_0000 { v as int } else { v - 0x1_0000_0000_0000_0000 }
}

/// The unsigned big-endian field of `width` (1, 2 or 4) bytes at `p`, if it is all there.
pub open spec fn size_field(s: Seq<u8>, p: int, width: int) -> Option<nat> {
    if p + width > s.len() {
        None
    } else if width == 1 {
        Some(s[p] as nat)
    } else if width == 2 {
        Some(be16_at(s, p) as nat)
    } else {
        Some(be32_at(s, p) as nat)
    }
}

/// A `str` of `n` bytes whose text starts at `p`.
pub open spec fn str_at(s: Seq<u8>, p: int, n: nat) -> Option<(MpHead, int)> {
    if p + n > s.len() {
        None
    } else {
        Some((MpHead::Str(s.subrange(p, p + n)), p + n))
    }
}

/// A `str` whose length field of `width` bytes is at `p`.
pub open spec fn sized_str_at(s: Seq<u8>, p: int, width: int) -> Option<(MpHead, int)> {
    match size_field(s, p, width) {
        None => None,
        Some(n) => str_at(s, p + width, n),
    }
}

/// A `bin` whose length field of `width` bytes is at `p`.
pub open spec fn sized_bin_at(s: Seq<u8>, p: int, width: int) -> Option<(MpHead, int)> {
    match size_field(s, p, width) {
        None => None,
        Some(n) => if p + width + n > s.len() {
            None
        } else {
            Some((MpHead::Bin(s.subrange(p + width, p + width + n)), p + width + n))
        },
    }
}

/// An `ext` of `n` data bytes whose type byte is at `p`.
pub open spec fn ext_at(s: Seq<u8>, p: int, n: nat) -> Option<(MpHead, int)> {
    if p + 1 + n > s.len() {
        None
    } else {
        Some((MpHead::Ext(twos8(s[p]), s.subrange(p + 1, p + 1 + n)), p + 1 + n))
    }
}

/// An `ext` whose length field of `width` bytes is at `p`.
pub open spec fn sized_ext_at(s: Seq<u8>, p: int, width: int) -> Option<(MpHead, int)> {
    match size_field(s, p, width) {
        None => None,
        Some(n) => ext_at(s, p + width, n),
    }
}

/// An array header whose count field of `width` bytes is at `p`.
pub open spec fn array_at(s: Seq<u8>, p: int, width: int) -> Option<(MpHead, int)> {
    match size_field(s, p, width) {
        None => None,
        Some(n) => Some((MpHead::ArrayOf(n), p + width)),
    }
}

/// A map header whose count field of `width` bytes is at `p`.
pub open spec fn map_at(s: Seq<u8>, p: int, width: int) -> Option<(MpHead, int)> {
    match size_field(s, p, width) {
        None => None,
        Some(n) => Some((MpHead::MapOf(n), p + width)),
    }
}

/// `value`, if the bytes up to `end` are all there.
pub open spec fn fixed(s: Seq<u8>, end: int, value: MpHead) -> Option<(MpHead, int)> {
    if end > s.len() {
        None
    } else {
        Some((value, end))
    }
}

/// The value that starts at position `p`, and the position just behind it (for a container,
/// just behind its header); nothing if the bytes are cut short or start with the reserved
/// lead byte 0xc1.
pub open spec fn head(s: Seq<u8>, p: int) -> Option<(MpHead, int)> {
    if p < 0 || p >= s.len() {
        None
    } else {
        let b = s[p];
        if b < 0x80 {
            Some((MpHead::Int(b as int), p + 1))
        } else if b < 0x90 {
            Some((MpHead::MapOf((b - 0x80) as nat), p + 1))
        } else if b < 0xa0 {
            Some((MpHead::ArrayOf((b - 0x90) as nat), p + 1))
        } else if b < 0xc0 {
            str_at(s, p + 1, (b - 0xa0) as nat)
        } else if b >= 0xe0 {
            Some((MpHead::Int(b - 0x100), p + 1))
        } else if b == 0xc0 {
            Some((MpHead::Nil, p + 1))
        } else if b == 0xc2 {
            Some((MpHead::Bool(false), p + 1))
        } else if b == 0xc3 {
            Some((MpHead::Bool(true), p + 1))
        } else if b == 0xc4 {
            sized_bin_at(s, p + 1, 1)
        } else if b == 0xc5 {
            sized_bin_at(s, p + 1, 2)
        } else if b == 0xc6 {
            sized_bin_at(s, p + 1, 4)
        } else if b == 0xc7 {
            sized_ext_at(s, p + 1, 1)
        } else if b == 0xc8 {
            sized_ext_at(s, p + 1, 2)
        } else if b == 0xc9 {
            sized_ext_at(s, p + 1, 4)
        } else if b == 0xca {
            fixed(s, p + 5, MpHead::Float32(be32_at(s, p + 1)))
        } else if b == 0xcb {
            fixed(s, p + 9, MpHead::Float64(be64_at(s, p + 1)))
        } else if b == 0xcc {
            fixed(s, p + 2, MpHead::Int(s[p + 1] as int))
        } else if b == 0xcd {
            fixed(s, p + 3, MpHead::Int(be16_at(s, p + 1) as int))
        } else if b == 0xce {
            fixed(s, p + 5, MpHead::Int(be32_at(s, p + 1) as int))
        } else if b == 0xcf {
            fixed(s, p + 9, MpHead::Int(be64_at(s, p + 1) as int))
        } else if b == 0xd0 {
            fixed(s, p + 2, MpHead::Int(twos8(s[p + 1])))
        } else if b == 0xd1 {
            fixed(s, p + 3, MpHead::Int(twos16(be16_at(s, p + 1))))
        } else if b == 0xd2 {
            fixed(s, p + 5, MpHead::Int(twos32(be32_at(s, p + 1))))
        } else if b == 0xd3 {
            fixed(s, p + 9, MpHead::Int(twos64(be64_at(s, p + 1))))
        } else if b == 0xd4 {
            ext_at(s, p + 1, 1)
        } else if b == 0xd5 {
            ext_at(s, p + 1, 2)
        } else if b == 0xd6 {
            ext_at(s, p + 1, 4)
        } else if b == 0xd7 {
            ext_at(s, p + 1, 8)
        } else if b == 0xd8 {
            ext_at(s, p + 1, 16)
        } else if b == 0xd9 {
            sized_str_at(s, p + 1, 1)
        } else if b == 0xda {
            sized_str_at(s, p + 1, 2)
        } else if b == 0xdb {
            sized_str_at(s, p + 1, 4)
        } else if b == 0xdc {
            array_at(s, p + 1, 2)
        } else if b == 0xdd {
            array_at(s, p + 1, 4)
        } else if b == 0xde {
            map_at(s, p + 1, 2)
        } else if b == 0xdf {
            map_at(s, p + 1, 4)
        } else {
            None
        }
    }
}

/// How many values a head announces: the elements of an array, the keys and values of a map.
pub open spec fn children(h: MpHead) -> nat {
    match h {
        MpHead::ArrayOf(n) => n,
        MpHead::MapOf(n) => 2 * n,
        _ => 0,
    }
}

/// Whether a head is acceptable in itself: text has to be UTF-8.
pub open spec fn sound(h: MpHead) -> bool {
    match h {
        MpHead::Str(text) => valid_utf8(text),
        _ => true,
    }
}

/// The sound head at `p`, as the number of values that it announces and the position
/// behind it.
pub open spec fn step(s: Seq<u8>, p: int) -> Option<(nat, int)> {
    match head(s, p) {
        Some((h, end)) => if sound(h) {
            Some((children(h), end))
        } else {
            None
        },
        None => None,
    }
}

/// Where `count` complete values that start at `p` end, when non-empty containers may nest
/// up to `levels` deep (the `count` values themselves being the first level).
pub open spec fn values_end(s: Seq<u8>, p: int, count: nat, levels: nat) -> Option<int>
    decreases levels, count,
{
    if count == 0 {
        Some(p)
    } else {
        match step(s, p) {
            None => None,
            Some((kids, q)) => if kids == 0 {
                values_end(s, q, (count - 1) as nat, levels)
            } else if levels <= 1 {
                None
            } else {
                match values_end(s, q, kids, (levels - 1) as nat) {
                    None => None,
                    Some(r) => values_end(s, r, (count - 1) as nat, levels),
                }
            },
        }
    }
}

/// Where `pending` complete values that start at `p` end, at any nesting.
pub open spec fn skip_end(s: Seq<u8>, p: int, pending: nat) -> Option<int>
    decreases s.len() - p,
    when 0 <= p
{
    if pending == 0 {
        Some(p)
    } else {
        match step(s, p) {
            None => None,
            Some((kids, q)) => if p < q <= s.len() {
                skip_end(s, q, (pending - 1 + kids) as nat)
            } else {
                None
            },
        }
    }
}

/// One top-level value that takes up every byte, with nesting of at most `max_depth` levels.
pub open spec fn valid_payload(s: Seq<u8>, max_depth: nat) -> bool {
    &&& s.len() > 0
    &&& 1 <= max_depth <= 256
    &&& values_end(s, 0, 1, max_depth) == Some(s.len() as int)
}

/// A head ends behind where it starts and within the bytes.
#[verifier::spinoff_prover]
pub proof fn lemma_head_moves(s: Seq<u8>, p: int)
    ensures
        head(s, p) matches Some((h, end)) ==> p < end <= s.len(),
        step(s, p) matches Some((kids, end)) ==> p < end <= s.len(),
{
}

} // verus!
