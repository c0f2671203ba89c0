//! MessagePack byte by byte: what each first byte means, and which bytes each value gets.

use vstd::prelude::*;
use vstd::utf8::valid_utf8;
use crate::abi::{emit, opt_slice, ptr_len_valid, u32_len, Emit, Span};
use crate::bytes::{
    be16, be16_at, be32, be32_at, be64, be64_at, law_be16_reads_back, law_be32_reads_back, law_be64_reads_back,
};
use crate::error::{errno_for, Errno, KacsFailure};
use crate::msgpack::cursor::validate;
use crate::msgpack::encode::{
    array_header, bin_bytes, bin_header, bool_bytes, enc_array, enc_i64, enc_map, enc_u64, ext_bytes, ext_header,
    float_bytes, int_bytes, map_header, nil_bytes, str_bytes, str_header, type_byte,
};
use crate::msgpack::model::{children, head, step, twos16, twos32, twos64, twos8, valid_payload, values_end, MpHead};
use crate::msgpack::reader::{classify, peios_mp_peek, peios_mp_reader, peios_mp_reader_init, peios_mp_reader_remaining};
use crate::msgpack::writer::{
    peios_mp_write_bool, peios_mp_write_int, peios_mp_write_nil, peios_mp_write_str, peios_mp_write_uint,
    peios_mp_writer, peios_mp_writer_bytes,
};

verus! {

/// What the first byte of a value says, for values that are done with a few bytes.
pub proof fn law_first_bytes(s: Seq<u8>, p: int)
    requires
        0 <= p < s.len(),
    ensures
        s[p] <= 0x7f ==> head(s, p) == Some((MpHead::Int(s[p] as int), p + 1)),
        s[p] >= 0xe0 ==> head(s, p) == Some((MpHead::Int(s[p] - 256), p + 1)),
        0x80 <= s[p] <= 0x8f ==> head(s, p) == Some((MpHead::MapOf((s[p] - 0x80) as nat), p + 1)),
        0x90 <= s[p] <= 0x9f ==> head(s, p) == Some((MpHead::ArrayOf((s[p] - 0x90) as nat), p + 1)),
        s[p] == 0xc0 ==> head(s, p) == Some((MpHead::Nil, p + 1)),
        s[p] == 0xc1 ==> head(s, p) is None,
        s[p] == 0xc2 ==> head(s, p) == Some((MpHead::Bool(false), p + 1)),
        s[p] == 0xc3 ==> head(s, p) == Some((MpHead::Bool(true), p + 1)),
        s[p] == 0xca && p + 5 <= s.len() ==> head(s, p) == Some((MpHead::Float32(be32_at(s, p + 1)), p + 5)),
        s[p] == 0xcb && p + 9 <= s.len() ==> head(s, p) == Some((MpHead::Float64(be64_at(s, p + 1)), p + 9)),
        s[p] == 0xcc && p + 2 <= s.len() ==> head(s, p) == Some((MpHead::Int(s[p + 1] as int), p + 2)),
        s[p] == 0xcd && p + 3 <= s.len() ==> head(s, p) == Some((MpHead::Int(be16_at(s, p + 1) as int), p + 3)),
        s[p] == 0xce && p + 5 <= s.len() ==> head(s, p) == Some((MpHead::Int(be32_at(s, p + 1) as int), p + 5)),
        s[p] == 0xcf && p + 9 <= s.len() ==> head(s, p) == Some((MpHead::Int(be64_at(s, p + 1) as int), p + 9)),
        s[p] == 0xd0 && p + 2 <= s.len() ==> head(s, p) == Some((MpHead::Int(twos8(s[p + 1])), p + 2)),
        s[p] == 0xd1 && p + 3 <= s.len() ==> head(s, p) == Some((MpHead::Int(twos16(be16_at(s, p + 1))), p + 3)),
        s[p] == 0xd2 && p + 5 <= s.len() ==> head(s, p) == Some((MpHead::Int(twos32(be32_at(s, p + 1))), p + 5)),
        s[p] == 0xd3 && p + 9 <= s.len() ==> head(s, p) == Some((MpHead::Int(twos64(be64_at(s, p + 1))), p + 9)),
        (s[p] == 0xcc || s[p] == 0xd0) && p + 2 > s.len() ==> head(s, p) is None,
        (s[p] == 0xcd || s[p] == 0xd1) && p + 3 > s.len() ==> head(s, p) is None,
        (s[p] == 0xce || s[p] == 0xd2 || s[p] == 0xca) && p + 5 > s.len() ==> head(s, p) is None,
        (s[p] == 0xcf || s[p] == 0xd3 || s[p] == 0xcb) && p + 9 > s.len() ==> head(s, p) is None,
        s[p] == 0xdc && p + 3 <= s.len() ==> head(s, p) == Some((MpHead::ArrayOf(be16_at(s, p + 1) as nat), p + 3)),
        s[p] == 0xdd && p + 5 <= s.len() ==> head(s, p) == Some((MpHead::ArrayOf(be32_at(s, p + 1) as nat), p + 5)),
        s[p] == 0xde && p + 3 <= s.len() ==> head(s, p) == Some((MpHead::MapOf(be16_at(s, p + 1) as nat), p + 3)),
        s[p] == 0xdf && p + 5 <= s.len() ==> head(s, p) == Some((MpHead::MapOf(be32_at(s, p + 1) as nat), p + 5)),
{
}

/// Text, bytes and extensions: how long they are and where they stand.
pub proof fn law_first_bytes_of_strings(s: Seq<u8>, p: int)
    requires
        0 <= p,
        p + 6 <= s.len(),
    ensures
        0xa0 <= s[p] <= 0xbf ==> head(s, p) == text(s, p + 1, (s[p] - 0xa0) as nat),
        s[p] == 0xd9 ==> head(s, p) == text(s, p + 2, s[p + 1] as nat),
        s[p] == 0xda ==> head(s, p) == text(s, p + 3, be16_at(s, p + 1) as nat),
        s[p] == 0xdb ==> head(s, p) == text(s, p + 5, be32_at(s, p + 1) as nat),
        s[p] == 0xc4 ==> head(s, p) == data(s, p + 2, s[p + 1] as nat),
        s[p] == 0xc5 ==> head(s, p) == data(s, p + 3, be16_at(s, p + 1) as nat),
        s[p] == 0xc6 ==> head(s, p) == data(s, p + 5, be32_at(s, p + 1) as nat),
        s[p] == 0xd4 ==> head(s, p) == extension(s, p + 1, 1),
        s[p] == 0xd5 ==> head(s, p) == extension(s, p + 1, 2),
        s[p] == 0xd6 ==> head(s, p) == extension(s, p + 1, 4),
        s[p] == 0xd7 ==> head(s, p) == extension(s, p + 1, 8),
        s[p] == 0xd8 ==> head(s, p) == extension(s, p + 1, 16),
        s[p] == 0xc7 ==> head(s, p) == extension(s, p + 2, s[p + 1] as nat),
        s[p] == 0xc8 ==> head(s, p) == extension(s, p + 3, be16_at(s, p + 1) as nat),
        s[p] == 0xc9 ==> head(s, p) == extension(s, p + 5, be32_at(s, p + 1) as nat),
{
}

/// Text of `n` bytes at `p`, where they are there.
pub open spec fn text(s: Seq<u8>, p: int, n: nat) -> Option<(MpHead, int)> {
    if p + n <= s.len() {
        Some((MpHead::Str(s.subrange(p, p + n)), p + n))
    } else {
        None
    }
}

/// `n` bytes at `p`, where they are there.
pub open spec fn data(s: Seq<u8>, p: int, n: nat) -> Option<(MpHead, int)> {
    if p + n <= s.len() {
        Some((MpHead::Bin(s.subrange(p, p + n)), p + n))
    } else {
        None
    }
}

/// An extension at `p`: its type, then `n` bytes.
pub open spec fn extension(s: Seq<u8>, p: int, n: nat) -> Option<(MpHead, int)> {
    if p + 1 + n <= s.len() {
        Some(
            (
                MpHead::Ext(
                    if s[p] < 128 {
                        s[p] as int
                    } else {
                        s[p] - 256
                    },
                    s.subrange(p + 1, p + 1 + n),
                ),
                p + 1 + n,
            ),
        )
    } else {
        None
    }
}

/// Numbers with a sign.
pub proof fn law_signs(a: u8, b: u16, c: u32, d: u64)
    ensures
        a < 128 ==> twos8(a) == a,
        a >= 128 ==> twos8(a) == a - 256,
        b < 32768 ==> twos16(b) == b,
        b >= 32768 ==> twos16(b) == b - 65536,
        c < 0x8000_0000 ==> twos32(c) == c,
        c >= 0x8000_0000 ==> twos32(c) == c - 0x1_0000_0000,
        d < 0x8000_0000_0000_0000 ==> twos64(d) == d,
        d >= 0x8000_0000_0000_0000 ==> twos64(d) == d - 0x1_0000_0000_0000_0000,
{
}

proof fn lemma_tag16(tag: u8, v: u16)
    ensures
        ({
            let b = seq![tag] + be16(v);
            b.len() == 3 && b[0] == tag && be16_at(b, 1) == v
        }),
{
    let b = seq![tag] + be16(v);
    assert(b.subrange(1, 3) =~= be16(v));
    law_be16_reads_back(b, 1, v);
}

proof fn lemma_tag32(tag: u8, v: u32)
    ensures
        ({
            let b = seq![tag] + be32(v);
            b.len() == 5 && b[0] == tag && be32_at(b, 1) == v
        }),
{
    let b = seq![tag] + be32(v);
    assert(b.subrange(1, 5) =~= be32(v));
    law_be32_reads_back(b, 1, v);
}

proof fn lemma_tag64(tag: u8, v: u64)
    ensures
        ({
            let b = seq![tag] + be64(v);
            b.len() == 9 && b[0] == tag && be64_at(b, 1) == v
        }),
{
    let b = seq![tag] + be64(v);
    assert(b.subrange(1, 9) =~= be64(v));
    law_be64_reads_back(b, 1, v);
}

/// The bytes of a number: the shortest form that holds it.
pub proof fn law_bytes_of_a_number(v: int)
    requires
        -0x8000_0000_0000_0000 <= v <= 0xffff_ffff_ffff_ffff,
    ensures
        ({
            let b = int_bytes(v);
            &&& 0 <= v <= 0x7f ==> b.len() == 1 && b[0] == v
            &&& 0x80 <= v <= 0xff ==> b.len() == 2 && b[0] == 0xcc && b[1] == v
            &&& 0x100 <= v <= 0xffff ==> b.len() == 3 && b[0] == 0xcd && be16_at(b, 1) == v
            &&& 0x1_0000 <= v <= 0xffff_ffff ==> b.len() == 5 && b[0] == 0xce && be32_at(b, 1) == v
            &&& 0x1_0000_0000 <= v ==> b.len() == 9 && b[0] == 0xcf && be64_at(b, 1) == v
            &&& -32 <= v < 0 ==> b.len() == 1 && b[0] == v + 256
            &&& -128 <= v < -32 ==> b.len() == 2 && b[0] == 0xd0 && b[1] == v + 256
            &&& -32768 <= v < -128 ==> b.len() == 3 && b[0] == 0xd1 && be16_at(b, 1) == v + 65536
            &&& -0x8000_0000 <= v < -32768 ==> b.len() == 5 && b[0] == 0xd2 && be32_at(b, 1) == v + 0x1_0000_0000
            &&& v < -0x8000_0000 ==> b.len() == 9 && b[0] == 0xd3 && be64_at(b, 1) == v + 0x1_0000_0000_0000_0000
        }),
{
    if v >= 0 {
        lemma_tag16(0xcd, v as u16);
        lemma_tag32(0xce, v as u32);
        lemma_tag64(0xcf, v as u64);
    } else {
        lemma_tag16(0xd1, (v + 0x1_0000) as u16);
        lemma_tag32(0xd2, (v + 0x1_0000_0000) as u32);
        lemma_tag64(0xd3, (v + 0x1_0000_0000_0000_0000) as u64);
    }
}

/// The bytes before text, bytes, lists, maps and extensions.
pub proof fn law_bytes_before_values(n: int)
    requires
        0 <= n <= 0xffff_ffff,
    ensures
        n <= 31 ==> str_header(n).len() == 1 && str_header(n)[0] == 0xa0 + n,
        32 <= n <= 255 ==> str_header(n).len() == 2 && str_header(n)[0] == 0xd9 && str_header(n)[1] == n,
        256 <= n <= 65535 ==> str_header(n).len() == 3 && str_header(n)[0] == 0xda && be16_at(str_header(n), 1) == n,
        65536 <= n ==> str_header(n).len() == 5 && str_header(n)[0] == 0xdb && be32_at(str_header(n), 1) == n,
        n <= 255 ==> bin_header(n).len() == 2 && bin_header(n)[0] == 0xc4 && bin_header(n)[1] == n,
        256 <= n <= 65535 ==> bin_header(n).len() == 3 && bin_header(n)[0] == 0xc5 && be16_at(bin_header(n), 1) == n,
        65536 <= n ==> bin_header(n).len() == 5 && bin_header(n)[0] == 0xc6 && be32_at(bin_header(n), 1) == n,
        n <= 15 ==> array_header(n).len() == 1 && array_header(n)[0] == 0x90 + n,
        16 <= n <= 65535 ==> array_header(n).len() == 3 && array_header(n)[0] == 0xdc && be16_at(array_header(n), 1) == n,
        65536 <= n ==> array_header(n).len() == 5 && array_header(n)[0] == 0xdd && be32_at(array_header(n), 1) == n,
        n <= 15 ==> map_header(n).len() == 1 && map_header(n)[0] == 0x80 + n,
        16 <= n <= 65535 ==> map_header(n).len() == 3 && map_header(n)[0] == 0xde && be16_at(map_header(n), 1) == n,
        65536 <= n ==> map_header(n).len() == 5 && map_header(n)[0] == 0xdf && be32_at(map_header(n), 1) == n,
        n == 1 ==> ext_header(n) == seq![0xd4u8],
        n == 2 ==> ext_header(n) == seq![0xd5u8],
        n == 4 ==> ext_header(n) == seq![0xd6u8],
        n == 8 ==> ext_header(n) == seq![0xd7u8],
        n == 16 ==> ext_header(n) == seq![0xd8u8],
        n <= 255 && n != 1 && n != 2 && n != 4 && n != 8 && n != 16 ==> ext_header(n) == seq![0xc7u8, n as u8],
        256 <= n <= 65535 ==> ext_header(n).len() == 3 && ext_header(n)[0] == 0xc8 && be16_at(ext_header(n), 1) == n,
        65536 <= n ==> ext_header(n).len() == 5 && ext_header(n)[0] == 0xc9 && be32_at(ext_header(n), 1) == n,
{
    lemma_tag16(0xda, n as u16);
    lemma_tag16(0xc5, n as u16);
    lemma_tag16(0xdc, n as u16);
    lemma_tag16(0xde, n as u16);
    lemma_tag16(0xc8, n as u16);
    lemma_tag32(0xdb, n as u32);
    lemma_tag32(0xc6, n as u32);
    lemma_tag32(0xdd, n as u32);
    lemma_tag32(0xdf, n as u32);
    lemma_tag32(0xc9, n as u32);
}

/// The bytes of the other values.
pub proof fn law_bytes_of_values(s: Seq<u8>, ty: i8, bits: u64, v: bool)
    ensures
        nil_bytes() == seq![0xc0u8],
        v ==> bool_bytes(v) == seq![0xc3u8],
        !v ==> bool_bytes(v) == seq![0xc2u8],
        float_bytes(bits).len() == 9 && float_bytes(bits)[0] == 0xcb && be64_at(float_bytes(bits), 1) == bits,
        str_bytes(s) == str_header(s.len() as int) + s,
        bin_bytes(s) == bin_header(s.len() as int) + s,
        ext_bytes(ty, s) == ext_header(s.len() as int) + seq![type_byte(ty)] + s,
        ty >= 0 ==> type_byte(ty) == ty,
        ty < 0 ==> type_byte(ty) == ty + 256,
{
    lemma_tag64(0xcb, bits);
}

/// What the encoder puts behind what is there.
pub proof fn law_encoded_numbers(buf: &mut Vec<u8>, v: u64)
    requires
        call_ensures(enc_u64, (buf, v), ()),
    ensures
        final(buf)@ == old(buf)@ + int_bytes(v as int),
{
}

/// What the encoder puts behind what is there.
pub proof fn law_encoded_signed_numbers(buf: &mut Vec<u8>, v: i64)
    requires
        call_ensures(enc_i64, (buf, v), ()),
    ensures
        final(buf)@ == old(buf)@ + int_bytes(v as int),
{
}

/// What the encoder puts behind what is there.
pub proof fn law_encoded_lists(buf: &mut Vec<u8>, n: u32)
    requires
        call_ensures(enc_array, (buf, n), ()),
    ensures
        final(buf)@ == old(buf)@ + array_header(n as int),
{
}

/// What the encoder puts behind what is there.
pub proof fn law_encoded_maps(buf: &mut Vec<u8>, n: u32)
    requires
        call_ensures(enc_map, (buf, n), ()),
    ensures
        final(buf)@ == old(buf)@ + map_header(n as int),
{
}

/// The type that a first byte announces.
pub proof fn law_announced_types(b: u8, t: Option<i32>)
    requires
        call_ensures(classify, (b,), t),
    ensures
        t is None <==> b == 0xc1,
        t == Some(0i32) <==> b == 0xc0,
        t == Some(1i32) <==> b == 0xc2 || b == 0xc3,
        t == Some(2i32) <==> b <= 0x7f || b >= 0xe0 || 0xcc <= b <= 0xd3,
        t == Some(3i32) <==> b == 0xca || b == 0xcb,
        t == Some(4i32) <==> (0xa0 <= b <= 0xbf) || (0xd9 <= b <= 0xdb),
        t == Some(5i32) <==> 0xc4 <= b <= 0xc6,
        t == Some(6i32) <==> (0x90 <= b <= 0x9f) || b == 0xdc || b == 0xdd,
        t == Some(7i32) <==> (0x80 <= b <= 0x8f) || b == 0xde || b == 0xdf,
        t == Some(8i32) <==> (0xd4 <= b <= 0xd8) || (0xc7 <= b <= 0xc9),
{
}

/// How many values follow a value, and which values are sound.
pub proof fn law_values_inside_values(s: Seq<u8>, p: int, n: nat, h: MpHead)
    ensures
        children(MpHead::ArrayOf(n)) == n,
        children(MpHead::MapOf(n)) == 2 * n,
        !(h is ArrayOf) && !(h is MapOf) ==> children(h) == 0,
        head(s, p) is None ==> step(s, p) is None,
        head(s, p) matches Some((MpHead::Str(t), end)) ==> (valid_utf8(t) ==> step(s, p) == Some((0nat, end))) && (
        !valid_utf8(t) ==> step(s, p) is None),
        head(s, p) matches Some((v, end)) ==> (!(v is Str) ==> step(s, p) == Some((children(v), end))),
{
}

/// Which payloads are valid: one value over all bytes, nested no deeper than is allowed, and no
/// more than 256 deep is ever allowed.
pub proof fn law_valid_payloads(s: &[u8], depth: u32, valid: bool)
    requires
        call_ensures(validate, (s, depth), valid),
    ensures
        s@.len() == 0 ==> !valid,
        depth == 0 || depth > 256 ==> !valid,
        s@.len() > 0 && 1 <= depth <= 256 ==> (valid <==> values_end(s@, 0, 1, depth as nat) == Some(s@.len() as int)),
{
}

/// Values one behind another, and what is inside them one level down.
pub proof fn law_values_in_turn(s: Seq<u8>, p: int, count: nat, levels: nat)
    requires
        count > 0,
    ensures
        values_end(s, p, 0, levels) == Some(p),
        step(s, p) is None ==> values_end(s, p, count, levels) is None,
        step(s, p) matches Some((kids, q)) ==> {
            &&& kids == 0 ==> values_end(s, p, count, levels) == values_end(s, q, (count - 1) as nat, levels)
            &&& kids > 0 && levels <= 1 ==> values_end(s, p, count, levels) is None
            &&& kids > 0 && levels > 1 ==> (values_end(s, q, kids, (levels - 1) as nat) matches Some(r) ==> values_end(
                s,
                p,
                count,
                levels,
            ) == values_end(s, r, (count - 1) as nat, levels))
        },
{
}

/// A new reader starts at the first byte; a null buffer with a length is refused from the start.
pub proof fn law_new_readers_of_values(s: &[u8], n: usize, a: peios_mp_reader, b: peios_mp_reader, left: usize, none: usize)
    requires
        call_ensures(peios_mp_reader_init, (Span::At(s),), a),
        call_ensures(peios_mp_reader_init, (Span::Null(n),), b),
        call_ensures(peios_mp_reader_remaining, (&a,), left),
        call_ensures(peios_mp_reader_remaining, (&b,), none),
    ensures
        a.error is None && a.cur.pos == 0 && a.cur.buf@ == s@,
        n == 0 ==> b.error is None && b.cur.buf@.len() == 0,
        n > 0 ==> b.error == Some(Errno::Inval),
        left == s@.len(),
        none == 0,
{
}

/// What comes next without moving.
pub proof fn law_looking_ahead(r: peios_mp_reader, t: Result<i32, Option<Errno>>, c: Option<i32>)
    requires
        r.wf(),
        call_ensures(peios_mp_peek, (&r,), t),
        r.cur.pos < r.cur.buf@.len() ==> call_ensures(classify, (r.cur.buf@[r.cur.pos as int],), c),
    ensures
        r.error matches Some(e) ==> t == Err::<i32, Option<Errno>>(Some(e)),
        r.error is None && r.cur.pos >= r.cur.buf@.len() ==> t == Err::<i32, Option<Errno>>(None),
        r.error is None && r.cur.pos < r.cur.buf@.len() ==> match c {
            Some(ty) => t == Ok::<i32, Option<Errno>>(ty),
            None => t == Err::<i32, Option<Errno>>(None),
        },
{
}

/// What the writer puts behind what it holds, unless it holds an error.
pub proof fn law_written_nil(w: &mut peios_mp_writer)
    requires
        call_ensures(peios_mp_write_nil, (w,), ()),
    ensures
        old(w).error is None ==> final(w).buf@ == old(w).buf@ + seq![0xc0u8] && final(w).error is None,
        old(w).error is Some ==> final(w).buf@ == old(w).buf@ && final(w).error == old(w).error,
{
}

/// What the writer puts behind what it holds, unless it holds an error.
pub proof fn law_written_truth(w: &mut peios_mp_writer, v: bool)
    requires
        call_ensures(peios_mp_write_bool, (w, v), ()),
    ensures
        old(w).error is None ==> final(w).buf@ == old(w).buf@.push(
            if v {
                0xc3u8
            } else {
                0xc2u8
            },
        ) && final(w).error is None,
        old(w).error is Some ==> final(w).buf@ == old(w).buf@ && final(w).error == old(w).error,
{
    if old(w).error is None {
        assert(old(w).buf@ + bool_bytes(v) =~= old(w).buf@.push(
            if v {
                0xc3u8
            } else {
                0xc2u8
            },
        ));
    }
}

/// What the writer puts behind what it holds, unless it holds an error.
pub proof fn law_written_number(w: &mut peios_mp_writer, v: i64)
    requires
        call_ensures(peios_mp_write_int, (w, v), ()),
    ensures
        old(w).error is None ==> final(w).buf@ == old(w).buf@ + int_bytes(v as int) && final(w).error is None,
        old(w).error is Some ==> final(w).buf@ == old(w).buf@ && final(w).error == old(w).error,
{
}

/// What the writer puts behind what it holds, unless it holds an error.
pub proof fn law_written_large_number(w: &mut peios_mp_writer, v: u64)
    requires
        call_ensures(peios_mp_write_uint, (w, v), ()),
    ensures
        old(w).error is None ==> final(w).buf@ == old(w).buf@ + int_bytes(v as int) && final(w).error is None,
        old(w).error is Some ==> final(w).buf@ == old(w).buf@ && final(w).error == old(w).error,
{
}

/// What the writer puts behind what it holds, unless it holds an error; text that is no UTF-8 is
/// an error.
pub proof fn law_written_text(w: &mut peios_mp_writer, s: &[u8])
    requires
        call_ensures(peios_mp_write_str, (w, Span::At(s)), ()),
    ensures
        old(w).error is None && valid_utf8(s@) && s@.len() <= 0xffff_ffff ==> final(w).buf@ == old(w).buf@ + (str_header(
            s@.len() as int,
        ) + s@) && final(w).error is None,
        old(w).error is None && !valid_utf8(s@) ==> final(w).buf@ == old(w).buf@ && final(w).error == Some(Errno::Inval),
        old(w).error is Some ==> final(w).buf@ == old(w).buf@ && final(w).error == old(w).error,
{
}

/// What the writer hands out: its bytes where they are one value, else an error from then on.
pub proof fn law_written_payload(w: &mut peios_mp_writer, r: Result<&[u8], Errno>)
    requires
        call_ensures(peios_mp_writer_bytes, (w,), r),
    ensures
        final(w).buf@ == old(w).buf@,
        old(w).error matches Some(e) ==> r == Err::<&[u8], Errno>(e) && final(w).error == Some(e),
        old(w).error is None && valid_payload(old(w).buf@, 256) ==> r is Ok && r->Ok_0@ == old(w).buf@ && final(w).error is None,
        old(w).error is None && !valid_payload(old(w).buf@, 256) ==> r == Err::<&[u8], Errno>(Errno::Inval) && final(w).error
            == Some(Errno::Inval),
{
}

/// The numbers of failures.
pub proof fn law_failures(f: KacsFailure, e: Errno)
    requires
        call_ensures(errno_for, (f,), e),
    ensures
        f is AllocationFailure ==> e == Errno::NoMem,
        f is AccessDenied ==> e == Errno::Acces,
        f is UserMemoryFault ==> e == Errno::Fault,
        f is Invalid ==> e == Errno::Inval,
{
}

/// Outputs that the caller sizes: no room asks for the size; room that is null is an error; too
/// little room is another; else the output is written.
pub proof fn law_sized_outputs(need: usize, cap: usize, null: bool, r: Result<Emit, Errno>)
    requires
        call_ensures(emit, (need, cap, null), r),
    ensures
        cap == 0 ==> r == Ok::<Emit, Errno>(Emit::Probe),
        cap > 0 && null ==> r == Err::<Emit, Errno>(Errno::Inval),
        cap > 0 && !null && need > cap ==> r == Err::<Emit, Errno>(Errno::Range),
        cap > 0 && !null && need <= cap ==> r == Ok::<Emit, Errno>(Emit::Write),
{
}

/// Buffers by address and length.
pub proof fn law_buffers(addr: u64, len: usize, s: &[u8], valid: bool, n: Result<u32, Errno>, a: Result<&[u8], Errno>, b: Result<&[u8], Errno>)
    requires
        call_ensures(ptr_len_valid, (addr, len), valid),
        call_ensures(u32_len, (len,), n),
        call_ensures(opt_slice, (Span::At(s),), a),
        call_ensures(opt_slice, (Span::Null(len),), b),
    ensures
        valid <==> len == 0 || addr != 0,
        len <= 0xffff_ffff ==> n == Ok::<u32, Errno>(len as u32),
        len > 0xffff_ffff ==> n == Err::<u32, Errno>(Errno::Inval),
        a matches Ok(x) && x@ == s@,
        len == 0 ==> (b matches Ok(x) && x@.len() == 0),
        len > 0 ==> b == Err::<&[u8], Errno>(Errno::Inval),
{
}

} // verus!
