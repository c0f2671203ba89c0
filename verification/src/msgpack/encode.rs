//! The encoder: one value appended to a byte buffer, in its smallest form.

use vstd::prelude::*;
use crate::bytes::{
    be16, be16_at, be32, be32_at, be64, be64_at, law_be16_reads_back, law_be32_reads_back, law_be64_reads_back,
    put_be16, put_be32, put_be64, put_slice,
};
use crate::error::Errno;
use crate::msgpack::model::{
    array_at, ext_at, head, lemma_head_moves, map_at, size_field, sized_bin_at, sized_ext_at, sized_str_at, skip_end,
    step, str_at, twos8, valid_payload, values_end, MpHead,
};

verus! {

/// The smallest encoding of an integer from `i64::MIN` to `u64::MAX`.
pub open spec fn int_bytes(v: int) -> Seq<u8> {
    if 0 <= v < 0x80 {
        seq![v as u8]
    } else if 0x80 <= v <= 0xff {
        seq![0xccu8, v as u8]
    } else if 0xff < v <= 0xffff {
        seq![0xcdu8] + be16(v as u16)
    } else if 0xffff < v <= 0xffff_ffff {
        seq![0xceu8] + be32(v as u32)
    } else if 0xffff_ffff < v {
        seq![0xcfu8] + be64(v as u64)
    } else if -32 <= v {
        seq![(v + 0x100) as u8]
    } else if -0x80 <= v {
        seq![0xd0u8, (v + 0x100) as u8]
    } else if -0x8000 <= v {
        seq![0xd1u8] + be16((v + 0x1_0000) as u16)
    } else if -0x8000_0000 <= v {
        seq![0xd2u8] + be32((v + 0x1_0000_0000) as u32)
    } else {
        seq![0xd3u8] + be64((v + 0x1_0000_0000_0000_0000) as u64)
    }
}

pub open spec fn nil_bytes() -> Seq<u8> {
    seq![0xc0u8]
}

pub open spec fn bool_bytes(v: bool) -> Seq<u8> {
    seq![if v { 0xc3u8 } else { 0xc2u8 }]
}

/// A 64-bit float, by its bit pattern.
pub open spec fn float_bytes(bits: u64) -> Seq<u8> {
    seq![0xcbu8] + be64(bits)
}

/// The header of a `str` of `n` bytes.
pub open spec fn str_header(n: int) -> Seq<u8> {
    if n <= 31 {
        seq![(0xa0 + n) as u8]
    } else if n <= 0xff {
        seq![0xd9u8, n as u8]
    } else if n <= 0xffff {
        seq![0xdau8] + be16(n as u16)
    } else {
        seq![0xdbu8] + be32(n as u32)
    }
}

/// The header of a `bin` of `n` bytes.
pub open spec fn bin_header(n: int) -> Seq<u8> {
    if n <= 0xff {
        seq![0xc4u8, n as u8]
    } else if n <= 0xffff {
        seq![0xc5u8] + be16(n as u16)
    } else {
        seq![0xc6u8] + be32(n as u32)
    }
}

/// The header of an array of `n` elements.
pub open spec fn array_header(n: int) -> Seq<u8> {
    if n <= 15 {
        seq![(0x90 + n) as u8]
    } else if n <= 0xffff {
        seq![0xdcu8] + be16(n as u16)
    } else {
        seq![0xddu8] + be32(n as u32)
    }
}

/// The header of a map of `n` pairs.
pub open spec fn map_header(n: int) -> Seq<u8> {
    if n <= 15 {
        seq![(0x80 + n) as u8]
    } else if n <= 0xffff {
        seq![0xdeu8] + be16(n as u16)
    } else {
        seq![0xdfu8] + be32(n as u32)
    }
}

/// The header of an `ext` of `n` data bytes, up to its type byte.
pub open spec fn ext_header(n: int) -> Seq<u8> {
    if n == 1 {
        seq![0xd4u8]
    } else if n == 2 {
        seq![0xd5u8]
    } else if n == 4 {
        seq![0xd6u8]
    } else if n == 8 {
        seq![0xd7u8]
    } else if n == 16 {
        seq![0xd8u8]
    } else if n <= 0xff {
        seq![0xc7u8, n as u8]
    } else if n <= 0xffff {
        seq![0xc8u8] + be16(n as u16)
    } else {
        seq![0xc9u8] + be32(n as u32)
    }
}

/// The byte of a signed type id.
pub open spec fn type_byte(ty: i8) -> u8 {
    (if ty < 0 { ty + 0x100 } else { ty as int }) as u8
}

pub open spec fn str_bytes(text: Seq<u8>) -> Seq<u8> {
    str_header(text.len() as int) + text
}

pub open spec fn bin_bytes(data: Seq<u8>) -> Seq<u8> {
    bin_header(data.len() as int) + data
}

pub open spec fn ext_bytes(ty: i8, data: Seq<u8>) -> Seq<u8> {
    ext_header(data.len() as int) + seq![type_byte(ty)] + data
}

/// Appends a non-negative integer.
pub fn enc_u64(buf: &mut Vec<u8>, v: u64)
    ensures
        final(buf)@ == old(buf)@ + int_bytes(v as int),
{
    if v < 0x80 {
        buf.push(v as u8);
    } else if v <= 0xff {
        buf.push(0xcc);
        buf.push(v as u8);
    } else if v <= 0xffff {
        buf.push(0xcd);
        put_be16(buf, v as u16);
    } else if v <= 0xffff_ffff {
        buf.push(0xce);
        put_be32(buf, v as u32);
    } else {
        buf.push(0xcf);
        put_be64(buf, v);
    }
    assert(buf@ =~= old(buf)@ + int_bytes(v as int));
}

/// Appends a signed integer.
pub fn enc_i64(buf: &mut Vec<u8>, v: i64)
    ensures
        final(buf)@ == old(buf)@ + int_bytes(v as int),
{
    if v >= 0 {
        enc_u64(buf, v as u64);
    } else if v >= -32 {
        buf.push((v + 0x100) as u8);
    } else if v >= -0x80 {
        buf.push(0xd0);
        buf.push((v + 0x100) as u8);
    } else if v >= -0x8000 {
        buf.push(0xd1);
        put_be16(buf, (v + 0x1_0000) as u16);
    } else if v >= -0x8000_0000 {
        buf.push(0xd2);
        put_be32(buf, (v + 0x1_0000_0000) as u32);
    } else {
        buf.push(0xd3);
        put_be64(buf, (v as i128 + 0x1_0000_0000_0000_0000) as u64);
    }
    assert(buf@ =~= old(buf)@ + int_bytes(v as int));
}

/// Appends a `str`; fails without a change when its length does not fit 32 bits.
pub fn enc_str(buf: &mut Vec<u8>, s: &[u8]) -> (r: Result<(), Errno>)
    ensures
        s@.len() <= u32::MAX ==> r is Ok && final(buf)@ == old(buf)@ + str_bytes(s@),
        s@.len() > u32::MAX ==> r == Err::<(), Errno>(Errno::Inval) && final(buf)@ == old(buf)@,
{
    let n: usize = s.len();
    if n > 0xffff_ffff {
        return Err(Errno::Inval);
    }
    if n <= 31 {
        buf.push(0xa0 + n as u8);
    } else if n <= 0xff {
        buf.push(0xd9);
        buf.push(n as u8);
    } else if n <= 0xffff {
        buf.push(0xda);
        put_be16(buf, n as u16);
    } else {
        buf.push(0xdb);
        put_be32(buf, n as u32);
    }
    put_slice(buf, s);
    assert(buf@ =~= old(buf)@ + str_bytes(s@));
    Ok(())
}

/// Appends a `bin`; fails without a change when its length does not fit 32 bits.
pub fn enc_bin(buf: &mut Vec<u8>, s: &[u8]) -> (r: Result<(), Errno>)
    ensures
        s@.len() <= u32::MAX ==> r is Ok && final(buf)@ == old(buf)@ + bin_bytes(s@),
        s@.len() > u32::MAX ==> r == Err::<(), Errno>(Errno::Inval) && final(buf)@ == old(buf)@,
{
    let n: usize = s.len();
    if n > 0xffff_ffff {
        return Err(Errno::Inval);
    }
    if n <= 0xff {
        buf.push(0xc4);
        buf.push(n as u8);
    } else if n <= 0xffff {
        buf.push(0xc5);
        put_be16(buf, n as u16);
    } else {
        buf.push(0xc6);
        put_be32(buf, n as u32);
    }
    put_slice(buf, s);
    assert(buf@ =~= old(buf)@ + bin_bytes(s@));
    Ok(())
}

/// Appends an array header.
pub fn enc_array(buf: &mut Vec<u8>, n: u32)
    ensures
        final(buf)@ == old(buf)@ + array_header(n as int),
{
    if n <= 15 {
        buf.push(0x90 + n as u8);
    } else if n <= 0xffff {
        buf.push(0xdc);
        put_be16(buf, n as u16);
    } else {
        buf.push(0xdd);
        put_be32(buf, n);
    }
    assert(buf@ =~= old(buf)@ + array_header(n as int));
}

/// Appends a map header.
pub fn enc_map(buf: &mut Vec<u8>, n: u32)
    ensures
        final(buf)@ == old(buf)@ + map_header(n as int),
{
    if n <= 15 {
        buf.push(0x80 + n as u8);
    } else if n <= 0xffff {
        buf.push(0xde);
        put_be16(buf, n as u16);
    } else {
        buf.push(0xdf);
        put_be32(buf, n);
    }
    assert(buf@ =~= old(buf)@ + map_header(n as int));
}

/// Appends an `ext`; fails without a change when its length does not fit 32 bits.
pub fn enc_ext(buf: &mut Vec<u8>, ty: i8, s: &[u8]) -> (r: Result<(), Errno>)
    ensures
        s@.len() <= u32::MAX ==> r is Ok && final(buf)@ == old(buf)@ + ext_bytes(ty, s@),
        s@.len() > u32::MAX ==> r == Err::<(), Errno>(Errno::Inval) && final(buf)@ == old(buf)@,
{
    let n: usize = s.len();
    if n > 0xffff_ffff {
        return Err(Errno::Inval);
    }
    match n {
        1 => buf.push(0xd4),
        2 => buf.push(0xd5),
        4 => buf.push(0xd6),
        8 => buf.push(0xd7),
        16 => buf.push(0xd8),
        _ => {
            if n <= 0xff {
                buf.push(0xc7);
                buf.push(n as u8);
            } else if n <= 0xffff {
                buf.push(0xc8);
                put_be16(buf, n as u16);
            } else {
                buf.push(0xc9);
                put_be32(buf, n as u32);
            }
        },
    }
    assert(buf@ =~= old(buf)@ + ext_header(n as int));
    let ty_byte: u8 = if ty < 0 {
        (ty as i16 + 0x100) as u8
    } else {
        ty as u8
    };
    buf.push(ty_byte);
    put_slice(buf, s);
    assert(buf@ =~= old(buf)@ + ext_bytes(ty, s@));
    Ok(())
}

/// The bytes of `mid` inside `pre + mid + post`, and the big-endian fields in it.
proof fn lemma_middle(pre: Seq<u8>, mid: Seq<u8>, post: Seq<u8>)
    ensures
        forall|i: int| 0 <= i < mid.len() ==> #[trigger] mid[i] == (pre + mid + post)[pre.len() + i],
        forall|i: int, j: int|
            0 <= i <= j <= mid.len() ==> #[trigger] mid.subrange(i, j) == (pre + mid + post).subrange(
                pre.len() + i,
                pre.len() + j,
            ),
{
    assert forall|i: int, j: int| 0 <= i <= j <= mid.len() implies #[trigger] mid.subrange(i, j) == (pre + mid
        + post).subrange(pre.len() + i, pre.len() + j) by {
        assert(mid.subrange(i, j) =~= (pre + mid + post).subrange(pre.len() + i, pre.len() + j));
    }
}

/// A two-byte field behind `lead` is read back.
proof fn lemma_field16(pre: Seq<u8>, lead: u8, v: u16, post: Seq<u8>)
    ensures
        be16_at(pre + (seq![lead] + be16(v)) + post, (pre.len() + 1) as int) == v,
{
    let mid = seq![lead] + be16(v);
    let s = pre + mid + post;
    lemma_middle(pre, mid, post);
    assert(mid.subrange(1, 3) =~= be16(v));
    law_be16_reads_back(s, (pre.len() + 1) as int, v);
}

/// A four-byte field behind `lead` is read back.
proof fn lemma_field32(pre: Seq<u8>, lead: u8, v: u32, post: Seq<u8>)
    ensures
        be32_at(pre + (seq![lead] + be32(v)) + post, (pre.len() + 1) as int) == v,
{
    let mid = seq![lead] + be32(v);
    let s = pre + mid + post;
    lemma_middle(pre, mid, post);
    assert(mid.subrange(1, 5) =~= be32(v));
    law_be32_reads_back(s, (pre.len() + 1) as int, v);
}

/// An eight-byte field behind `lead` is read back.
proof fn lemma_field64(pre: Seq<u8>, lead: u8, v: u64, post: Seq<u8>)
    ensures
        be64_at(pre + (seq![lead] + be64(v)) + post, (pre.len() + 1) as int) == v,
{
    let mid = seq![lead] + be64(v);
    let s = pre + mid + post;
    lemma_middle(pre, mid, post);
    assert(mid.subrange(1, 9) =~= be64(v));
    law_be64_reads_back(s, (pre.len() + 1) as int, v);
}

/// An encoded integer, wherever it stands, is read back as that integer and ends where its
/// bytes end.
#[verifier::spinoff_prover]
#[verifier::rlimit(60)]
pub proof fn law_int_round_trip(pre: Seq<u8>, v: int, post: Seq<u8>)
    requires
        i64::MIN <= v <= u64::MAX,
    ensures
        head(pre + int_bytes(v) + post, pre.len() as int) == Some(
            (MpHead::Int(v), (pre.len() + int_bytes(v).len()) as int),
        ),
{
    let mid = int_bytes(v);
    let s = pre + mid + post;
    lemma_middle(pre, mid, post);
    assert(mid[0] == s[pre.len() as int]);
    if 0x80 <= v <= 0xff || -0x80 <= v < -32 {
        assert(mid[1] == s[(pre.len() + 1) as int]);
    } else if 0xff < v <= 0xffff {
        lemma_field16(pre, 0xcd, v as u16, post);
    } else if 0xffff < v <= 0xffff_ffff {
        lemma_field32(pre, 0xce, v as u32, post);
    } else if v > 0xffff_ffff {
        lemma_field64(pre, 0xcf, v as u64, post);
    } else if -0x8000 <= v < -0x80 {
        lemma_field16(pre, 0xd1, (v + 0x1_0000) as u16, post);
    } else if -0x8000_0000 <= v < -0x8000 {
        lemma_field32(pre, 0xd2, (v + 0x1_0000_0000) as u32, post);
    } else if v < -0x8000_0000 {
        lemma_field64(pre, 0xd3, (v + 0x1_0000_0000_0000_0000) as u64, post);
    }
}

/// No encoding of an integer is shorter than the one that is written.
#[verifier::spinoff_prover]
#[verifier::rlimit(60)]
pub proof fn law_int_smallest(s: Seq<u8>, p: int, v: int, end: int)
    requires
        head(s, p) == Some((MpHead::Int(v), end)),
    ensures
        i64::MIN <= v <= u64::MAX,
        int_bytes(v).len() <= end - p,
{
}

/// An encoded `nil`, boolean or float is read back.
#[verifier::spinoff_prover]
#[verifier::rlimit(60)]
pub proof fn law_scalar_round_trip(pre: Seq<u8>, flag: bool, bits: u64, post: Seq<u8>)
    ensures
        head(pre + nil_bytes() + post, pre.len() as int) == Some((MpHead::Nil, (pre.len() + 1) as int)),
        head(pre + bool_bytes(flag) + post, pre.len() as int) == Some((MpHead::Bool(flag), (pre.len() + 1) as int)),
        head(pre + float_bytes(bits) + post, pre.len() as int) == Some(
            (MpHead::Float64(bits), (pre.len() + 9) as int),
        ),
{
    lemma_middle(pre, nil_bytes(), post);
    lemma_middle(pre, bool_bytes(flag), post);
    lemma_middle(pre, float_bytes(bits), post);
    assert(nil_bytes()[0] == 0xc0u8);
    assert(bool_bytes(flag)[0] == if flag { 0xc3u8 } else { 0xc2u8 });
    assert(float_bytes(bits)[0] == 0xcbu8);
    lemma_field64(pre, 0xcb, bits, post);
}

/// An encoded `str` is read back with its text.
#[verifier::spinoff_prover]
#[verifier::rlimit(60)]
pub proof fn law_str_round_trip(pre: Seq<u8>, text: Seq<u8>, post: Seq<u8>)
    requires
        text.len() <= u32::MAX,
    ensures
        head(pre + str_bytes(text) + post, pre.len() as int) == Some(
            (MpHead::Str(text), (pre.len() + str_bytes(text).len()) as int),
        ),
{
    let n = text.len() as int;
    let mid = str_bytes(text);
    let s = pre + mid + post;
    let h = str_header(n);
    lemma_middle(pre, mid, post);
    assert(mid[0] == h[0]);
    assert(mid.subrange(h.len() as int, mid.len() as int) =~= text);
    assert(s.subrange((pre.len() + h.len()) as int, (pre.len() + mid.len()) as int) == text);
    if n <= 31 {
    } else if n <= 0xff {
        assert(mid[1] == h[1]);
    } else if n <= 0xffff {
        lemma_field16(pre, 0xda, n as u16, text + post);
        assert(s =~= pre + (seq![0xdau8] + be16(n as u16)) + (text + post));
    } else {
        lemma_field32(pre, 0xdb, n as u32, text + post);
        assert(s =~= pre + (seq![0xdbu8] + be32(n as u32)) + (text + post));
    }
}

/// An encoded `bin` is read back with its data.
#[verifier::spinoff_prover]
#[verifier::rlimit(60)]
pub proof fn law_bin_round_trip(pre: Seq<u8>, data: Seq<u8>, post: Seq<u8>)
    requires
        data.len() <= u32::MAX,
    ensures
        head(pre + bin_bytes(data) + post, pre.len() as int) == Some(
            (MpHead::Bin(data), (pre.len() + bin_bytes(data).len()) as int),
        ),
{
    let n = data.len() as int;
    let mid = bin_bytes(data);
    let s = pre + mid + post;
    let h = bin_header(n);
    lemma_middle(pre, mid, post);
    assert(mid[0] == h[0]);
    assert(mid.subrange(h.len() as int, mid.len() as int) =~= data);
    assert(s.subrange((pre.len() + h.len()) as int, (pre.len() + mid.len()) as int) == data);
    if n <= 0xff {
        assert(mid[1] == h[1]);
    } else if n <= 0xffff {
        lemma_field16(pre, 0xc5, n as u16, data + post);
        assert(s =~= pre + (seq![0xc5u8] + be16(n as u16)) + (data + post));
    } else {
        lemma_field32(pre, 0xc6, n as u32, data + post);
        assert(s =~= pre + (seq![0xc6u8] + be32(n as u32)) + (data + post));
    }
}

/// An encoded `ext` is read back with its type and its data.
#[verifier::spinoff_prover]
#[verifier::rlimit(60)]
pub proof fn law_ext_round_trip(pre: Seq<u8>, ty: i8, data: Seq<u8>, post: Seq<u8>)
    requires
        data.len() <= u32::MAX,
    ensures
        head(pre + ext_bytes(ty, data) + post, pre.len() as int) == Some(
            (MpHead::Ext(ty as int, data), (pre.len() + ext_bytes(ty, data).len()) as int),
        ),
{
    let n = data.len() as int;
    let mid = ext_bytes(ty, data);
    let s = pre + mid + post;
    let h = ext_header(n);
    lemma_middle(pre, mid, post);
    assert(mid[0] == h[0]);
    assert(mid[h.len() as int] == type_byte(ty));
    assert(s[(pre.len() + h.len()) as int] == type_byte(ty));
    assert(twos8(type_byte(ty)) == ty);
    assert(mid.subrange((h.len() + 1) as int, mid.len() as int) =~= data);
    assert(s.subrange((pre.len() + h.len() + 1) as int, (pre.len() + mid.len()) as int) == data);
    let tail = seq![type_byte(ty)] + data + post;
    if h.len() == 2 {
        assert(mid[1] == h[1]);
    } else if h.len() == 3 {
        lemma_field16(pre, 0xc8, n as u16, tail);
        assert(s =~= pre + (seq![0xc8u8] + be16(n as u16)) + tail);
    } else if h.len() == 5 {
        lemma_field32(pre, 0xc9, n as u32, tail);
        assert(s =~= pre + (seq![0xc9u8] + be32(n as u32)) + tail);
    }
}

/// Encoded container headers are read back with their counts.
#[verifier::spinoff_prover]
#[verifier::rlimit(60)]
pub proof fn law_container_round_trip(pre: Seq<u8>, n: u32, post: Seq<u8>)
    ensures
        head(pre + array_header(n as int) + post, pre.len() as int) == Some(
            (MpHead::ArrayOf(n as nat), (pre.len() + array_header(n as int).len()) as int),
        ),
        head(pre + map_header(n as int) + post, pre.len() as int) == Some(
            (MpHead::MapOf(n as nat), (pre.len() + map_header(n as int).len()) as int),
        ),
{
    let a = array_header(n as int);
    let m = map_header(n as int);
    lemma_middle(pre, a, post);
    lemma_middle(pre, m, post);
    assert(a[0] == (pre + a + post)[pre.len() as int]);
    assert(m[0] == (pre + m + post)[pre.len() as int]);
    if 15 < n <= 0xffff {
        lemma_field16(pre, 0xdc, n as u16, post);
        lemma_field16(pre, 0xde, n as u16, post);
    } else if n > 0xffff {
        lemma_field32(pre, 0xdd, n, post);
        lemma_field32(pre, 0xdf, n, post);
    }
}

/// Values pending in two portions end where they end one portion after the other.
proof fn lemma_skip_in_portions(s: Seq<u8>, p: int, first: nat, second: nat)
    requires
        0 <= p <= s.len(),
    ensures
        skip_end(s, p, first + second) == (match skip_end(s, p, first) {
            None => None,
            Some(q) => skip_end(s, q, second),
        }),
    decreases s.len() - p,
{
    if first > 0 {
        lemma_head_moves(s, p);
        if let Some((kids, q)) = step(s, p) {
            lemma_skip_in_portions(s, q, (first - 1 + kids) as nat, second);
            assert((first + second - 1 + kids) as nat == (first - 1 + kids) as nat + second);
        }
    }
}

/// Values that end within a nesting limit are also skipped up to that end.
pub proof fn law_bounded_values_are_skipped(s: Seq<u8>, p: int, count: nat, levels: nat)
    requires
        0 <= p <= s.len(),
    ensures
        values_end(s, p, count, levels) matches Some(end) ==> p <= end <= s.len() && skip_end(s, p, count)
            == Some(end),
    decreases levels, count,
{
    if count > 0 {
        lemma_head_moves(s, p);
        if let Some((kids, q)) = step(s, p) {
            if kids == 0 {
                law_bounded_values_are_skipped(s, q, (count - 1) as nat, levels);
            } else if levels > 1 {
                law_bounded_values_are_skipped(s, q, kids, (levels - 1) as nat);
                if let Some(r) = values_end(s, q, kids, (levels - 1) as nat) {
                    law_bounded_values_are_skipped(s, r, (count - 1) as nat, levels);
                    lemma_skip_in_portions(s, q, kids, (count - 1) as nat);
                    assert((count - 1 + kids) as nat == kids + (count - 1) as nat);
                }
            }
        }
    }
}

/// A valid payload is skipped to its very end.
pub proof fn law_valid_payload_is_skipped(s: Seq<u8>, max_depth: nat)
    requires
        valid_payload(s, max_depth),
    ensures
        skip_end(s, 0, 1) == Some(s.len() as int),
{
    law_bounded_values_are_skipped(s, 0, 1, max_depth);
}

/// A deeper limit accepts whatever a shallower one does.
pub proof fn law_depth_monotone(s: Seq<u8>, p: int, count: nat, levels: nat, more: nat)
    requires
        levels <= more,
        values_end(s, p, count, levels) is Some,
    ensures
        values_end(s, p, count, more) == values_end(s, p, count, levels),
    decreases levels, count,
{
    if count > 0 {
        if let Some((kids, q)) = step(s, p) {
            if kids == 0 {
                law_depth_monotone(s, q, (count - 1) as nat, levels, more);
            } else if levels > 1 {
                law_depth_monotone(s, q, kids, (levels - 1) as nat, (more - 1) as nat);
                if let Some(r) = values_end(s, q, kids, (levels - 1) as nat) {
                    law_depth_monotone(s, r, (count - 1) as nat, levels, more);
                }
            }
        }
    }
}

/// What is read at `p`, found `by` bytes further on.
spec fn further(r: Option<(MpHead, int)>, by: int) -> Option<(MpHead, int)> {
    match r {
        None => None,
        Some((h, end)) => Some((h, by + end)),
    }
}

/// Fields of `s`, moved behind `pre`, read the same.
proof fn lemma_fields_shift(pre: Seq<u8>, s: Seq<u8>, p: int)
    requires
        0 <= p,
    ensures
        p < s.len() ==> (pre + s)[pre.len() + p] == s[p],
        p + 2 <= s.len() ==> be16_at(pre + s, pre.len() + p) == be16_at(s, p),
        p + 4 <= s.len() ==> be32_at(pre + s, pre.len() + p) == be32_at(s, p),
        p + 8 <= s.len() ==> be64_at(pre + s, pre.len() + p) == be64_at(s, p),
        size_field(pre + s, pre.len() + p, 1) == size_field(s, p, 1),
        size_field(pre + s, pre.len() + p, 2) == size_field(s, p, 2),
        size_field(pre + s, pre.len() + p, 4) == size_field(s, p, 4),
{
    let t = pre + s;
    let q = pre.len() + p;
    assert forall|i: int| 0 <= i && p + i < s.len() implies #[trigger] s[p + i] == t[q + i] by {}
    if p + 2 <= s.len() {
        assert(s[p + 0] == t[q + 0] && s[p + 1] == t[q + 1]);
    }
    if p + 4 <= s.len() {
        assert(s[p + 2] == t[q + 2] && s[p + 3] == t[q + 3]);
    }
    if p + 8 <= s.len() {
        assert(s[p + 4] == t[q + 4] && s[p + 5] == t[q + 5] && s[p + 6] == t[q + 6] && s[p + 7] == t[q + 7]);
    }
}

/// Leaves of `s`, moved behind `pre`, read the same.
proof fn lemma_leaf_shifts(pre: Seq<u8>, s: Seq<u8>, p: int, n: nat)
    requires
        0 <= p,
    ensures
        str_at(pre + s, pre.len() + p, n) == further(str_at(s, p, n), pre.len() as int),
        ext_at(pre + s, pre.len() + p, n) == further(ext_at(s, p, n), pre.len() as int),
        p + n <= s.len() ==> (pre + s).subrange(pre.len() + p, pre.len() + p + n) == s.subrange(p, p + n),
{
    let t = pre + s;
    if p + n <= s.len() {
        assert(t.subrange(pre.len() + p, pre.len() + p + n) =~= s.subrange(p, p + n));
    }
    if p + 1 + n <= s.len() {
        assert(t.subrange(pre.len() + p + 1, pre.len() + p + 1 + n) =~= s.subrange(p + 1, p + 1 + n));
        assert(t[pre.len() + p] == s[p]);
    }
}

/// Sized leaves of `s`, moved behind `pre`, read the same.
proof fn lemma_sized_shifts(pre: Seq<u8>, s: Seq<u8>, p: int, width: int)
    requires
        0 <= p,
        width == 1 || width == 2 || width == 4,
    ensures
        sized_str_at(pre + s, pre.len() + p, width) == further(sized_str_at(s, p, width), pre.len() as int),
        sized_bin_at(pre + s, pre.len() + p, width) == further(sized_bin_at(s, p, width), pre.len() as int),
        sized_ext_at(pre + s, pre.len() + p, width) == further(sized_ext_at(s, p, width), pre.len() as int),
        array_at(pre + s, pre.len() + p, width) == further(array_at(s, p, width), pre.len() as int),
        map_at(pre + s, pre.len() + p, width) == further(map_at(s, p, width), pre.len() as int),
{
    lemma_fields_shift(pre, s, p);
    if let Some(n) = size_field(s, p, width) {
        lemma_leaf_shifts(pre, s, p + width, n);
    }
}

/// `s`, moved behind `pre`, reads the same.
#[verifier::spinoff_prover]
#[verifier::rlimit(60)]
proof fn lemma_head_shifts(pre: Seq<u8>, s: Seq<u8>, p: int)
    requires
        0 <= p <= s.len(),
    ensures
        head(pre + s, pre.len() + p) == further(head(s, p), pre.len() as int),
        step(pre + s, pre.len() + p) == (match step(s, p) {
            None => None,
            Some((kids, end)) => Some((kids, pre.len() + end)),
        }),
{
    if p < s.len() {
        let b = s[p];
        lemma_fields_shift(pre, s, p);
        if 0xa0 <= b < 0xc0 {
            lemma_leaf_shifts(pre, s, p + 1, (b - 0xa0) as nat);
        } else if b == 0xc4 || b == 0xc7 || b == 0xd9 {
            lemma_sized_shifts(pre, s, p + 1, 1);
        } else if b == 0xc5 || b == 0xc8 || b == 0xda || b == 0xdc || b == 0xde {
            lemma_sized_shifts(pre, s, p + 1, 2);
        } else if b == 0xc6 || b == 0xc9 || b == 0xdb || b == 0xdd || b == 0xdf {
            lemma_sized_shifts(pre, s, p + 1, 4);
        } else if 0xca <= b <= 0xd3 {
            lemma_fields_shift(pre, s, p + 1);
        } else if b == 0xd4 {
            lemma_leaf_shifts(pre, s, p + 1, 1);
        } else if b == 0xd5 {
            lemma_leaf_shifts(pre, s, p + 1, 2);
        } else if b == 0xd6 {
            lemma_leaf_shifts(pre, s, p + 1, 4);
        } else if b == 0xd7 {
            lemma_leaf_shifts(pre, s, p + 1, 8);
        } else if b == 0xd8 {
            lemma_leaf_shifts(pre, s, p + 1, 16);
        }
    }
}

/// Values, moved behind `pre`, end at the same distance.
proof fn lemma_values_shift(pre: Seq<u8>, s: Seq<u8>, p: int, count: nat, levels: nat)
    requires
        0 <= p <= s.len(),
    ensures
        values_end(pre + s, pre.len() + p, count, levels) == (match values_end(s, p, count, levels) {
            None => None,
            Some(end) => Some(pre.len() + end),
        }),
        values_end(s, p, count, levels) matches Some(end) ==> p <= end <= s.len(),
    decreases levels, count,
{
    if count > 0 {
        lemma_head_shifts(pre, s, p);
        lemma_head_moves(s, p);
        if let Some((kids, q)) = step(s, p) {
            if kids == 0 {
                lemma_values_shift(pre, s, q, (count - 1) as nat, levels);
            } else if levels > 1 {
                lemma_values_shift(pre, s, q, kids, (levels - 1) as nat);
                if let Some(r) = values_end(s, q, kids, (levels - 1) as nat) {
                    lemma_values_shift(pre, s, r, (count - 1) as nat, levels);
                }
            }
        }
    }
}

/// An array header followed by that many well-formed values, or a map header followed by
/// twice as many, is a valid payload one level deeper.
pub proof fn law_container_of_values_is_valid(n: u32, body: Seq<u8>, levels: nat)
    requires
        n > 0,
        1 <= levels < 256,
    ensures
        values_end(body, 0, n as nat, levels) == Some(body.len() as int) ==> valid_payload(
            array_header(n as int) + body,
            levels + 1,
        ),
        values_end(body, 0, 2 * n as nat, levels) == Some(body.len() as int) ==> valid_payload(
            map_header(n as int) + body,
            levels + 1,
        ),
{
    let none = Seq::<u8>::empty();
    let a = array_header(n as int);
    let m = map_header(n as int);
    law_container_round_trip(none, n, body);
    assert(none + a + body =~= a + body);
    assert(none + m + body =~= m + body);
    lemma_values_shift(a, body, 0, n as nat, levels);
    lemma_values_shift(m, body, 0, 2 * n as nat, levels);
    reveal_with_fuel(values_end, 2);
}

} // verus!
