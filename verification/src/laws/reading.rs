//! Reading values one by one: what each call gives, where it moves to, and that a refusal moves
//! nothing.

use vstd::prelude::*;
use vstd::utf8::valid_utf8;
use crate::abi::Span;
use crate::error::Errno;
use crate::msgpack::cursor::{
    bin_stop, ext_stop, int_stop, step_stop, str_stop, value_step, Cursor, FloatBits,
};
use crate::msgpack::encode::{array_header, bin_bytes, enc_bin, enc_ext, enc_str, ext_bytes, map_header, str_bytes};
use crate::msgpack::model::{head, skip_end, step, valid_payload, MpHead};
use crate::msgpack::reader::{
    peios_mp_read_array, peios_mp_read_bin, peios_mp_read_bool, peios_mp_read_ext, peios_mp_read_float,
    peios_mp_read_int, peios_mp_read_map, peios_mp_read_nil, peios_mp_read_str, peios_mp_read_uint, peios_mp_reader,
    peios_mp_skip, peios_mp_validate,
};
use crate::msgpack::writer::{
    peios_mp_write_array, peios_mp_write_bin, peios_mp_write_ext, peios_mp_write_float, peios_mp_write_map,
    peios_mp_write_raw, peios_mp_writer,
};

verus! {

/// A refused read: the error that is held, else that the value is not what was asked for; and
/// nothing moves.
pub open spec fn refused(before: peios_mp_reader, after: peios_mp_reader, e: Errno) -> bool {
    &&& after == before
    &&& before.error matches Some(x) ==> e == x
    &&& before.error is None ==> e == Errno::Inval
}

/// A read that went on to `end`.
pub open spec fn went_to(before: peios_mp_reader, after: peios_mp_reader, end: int) -> bool {
    before.error is None && after.error is None && after.cur.buf == before.cur.buf && after.cur.pos == end
}

/// Reading an absence.
pub proof fn law_read_nil(r: &mut peios_mp_reader, res: Result<(), Errno>)
    requires
        old(r).wf(),
        call_ensures(peios_mp_read_nil, (r,), res),
    ensures
        ({
            let here = head(old(r).cur.buf@, old(r).cur.pos as int);
            &&& res is Ok <==> old(r).error is None && (here matches Some((MpHead::Nil, _)))
            &&& res matches Ok(v) ==> went_to(*old(r), *final(r), here->Some_0.1)
            &&& res matches Err(e) ==> refused(*old(r), *final(r), e)
        }),
{
}

/// Reading a truth value.
pub proof fn law_read_bool(r: &mut peios_mp_reader, res: Result<bool, Errno>)
    requires
        old(r).wf(),
        call_ensures(peios_mp_read_bool, (r,), res),
    ensures
        ({
            let here = head(old(r).cur.buf@, old(r).cur.pos as int);
            &&& res is Ok <==> old(r).error is None && (here matches Some((MpHead::Bool(_), _)))
            &&& res matches Ok(v) ==> here == Some((MpHead::Bool(v), final(r).cur.pos as int)) && went_to(*old(r), *final(r), here->Some_0.1)
            &&& res matches Err(e) ==> refused(*old(r), *final(r), e)
        }),
{
}

/// Reading a number with a sign.
pub proof fn law_read_int(r: &mut peios_mp_reader, res: Result<i64, Errno>)
    requires
        old(r).wf(),
        call_ensures(peios_mp_read_int, (r,), res),
    ensures
        ({
            let here = head(old(r).cur.buf@, old(r).cur.pos as int);
            &&& res is Ok <==> old(r).error is None && (here matches Some((MpHead::Int(x), _)) && -0x8000_0000_0000_0000 <= x <= 0x7fff_ffff_ffff_ffff)
            &&& res matches Ok(v) ==> here == Some((MpHead::Int(v as int), final(r).cur.pos as int)) && went_to(*old(r), *final(r), here->Some_0.1)
            &&& res matches Err(e) ==> refused(*old(r), *final(r), e)
        }),
{
}

/// Reading a number without a sign.
pub proof fn law_read_uint(r: &mut peios_mp_reader, res: Result<u64, Errno>)
    requires
        old(r).wf(),
        call_ensures(peios_mp_read_uint, (r,), res),
    ensures
        ({
            let here = head(old(r).cur.buf@, old(r).cur.pos as int);
            &&& res is Ok <==> old(r).error is None && (here matches Some((MpHead::Int(x), _)) && 0 <= x <= 0xffff_ffff_ffff_ffff)
            &&& res matches Ok(v) ==> here == Some((MpHead::Int(v as int), final(r).cur.pos as int)) && went_to(*old(r), *final(r), here->Some_0.1)
            &&& res matches Err(e) ==> refused(*old(r), *final(r), e)
        }),
{
}

/// Reading the length of a list.
pub proof fn law_read_array(r: &mut peios_mp_reader, res: Result<u32, Errno>)
    requires
        old(r).wf(),
        call_ensures(peios_mp_read_array, (r,), res),
    ensures
        ({
            let here = head(old(r).cur.buf@, old(r).cur.pos as int);
            &&& res is Ok <==> old(r).error is None && (here matches Some((MpHead::ArrayOf(_), _)))
            &&& res matches Ok(v) ==> here == Some((MpHead::ArrayOf(v as nat), final(r).cur.pos as int)) && went_to(*old(r), *final(r), here->Some_0.1)
            &&& res matches Err(e) ==> refused(*old(r), *final(r), e)
        }),
{
}

/// Reading the length of a map.
pub proof fn law_read_map(r: &mut peios_mp_reader, res: Result<u32, Errno>)
    requires
        old(r).wf(),
        call_ensures(peios_mp_read_map, (r,), res),
    ensures
        ({
            let here = head(old(r).cur.buf@, old(r).cur.pos as int);
            &&& res is Ok <==> old(r).error is None && (here matches Some((MpHead::MapOf(_), _)))
            &&& res matches Ok(v) ==> here == Some((MpHead::MapOf(v as nat), final(r).cur.pos as int)) && went_to(*old(r), *final(r), here->Some_0.1)
            &&& res matches Err(e) ==> refused(*old(r), *final(r), e)
        }),
{
}

/// Reading a float.
pub proof fn law_read_float(r: &mut peios_mp_reader, res: Result<FloatBits, Errno>)
    requires
        old(r).wf(),
        call_ensures(peios_mp_read_float, (r,), res),
    ensures
        ({
            let here = head(old(r).cur.buf@, old(r).cur.pos as int);
            &&& res is Ok <==> old(r).error is None && ((here matches Some((MpHead::Float32(_), _))) || (here matches Some((MpHead::Float64(_), _))))
            &&& res matches Ok(v) ==> (match v {
                FloatBits::Single(b) => here == Some((MpHead::Float32(b), final(r).cur.pos as int)),
                FloatBits::Double(b) => here == Some((MpHead::Float64(b), final(r).cur.pos as int)),
            }) && went_to(*old(r), *final(r), here->Some_0.1)
            &&& res matches Err(e) ==> refused(*old(r), *final(r), e)
        }),
{
}

/// Reading text.
pub proof fn law_read_str(r: &mut peios_mp_reader, res: Result<&[u8], Errno>)
    requires
        old(r).wf(),
        call_ensures(peios_mp_read_str, (r,), res),
    ensures
        ({
            let here = head(old(r).cur.buf@, old(r).cur.pos as int);
            &&& res is Ok <==> old(r).error is None && (here matches Some((MpHead::Str(t), _)) && valid_utf8(t))
            &&& res matches Ok(v) ==> here == Some((MpHead::Str(v@), final(r).cur.pos as int)) && went_to(*old(r), *final(r), here->Some_0.1)
            &&& res matches Err(e) ==> refused(*old(r), *final(r), e)
        }),
{
}

/// Reading bytes.
pub proof fn law_read_bin(r: &mut peios_mp_reader, res: Result<&[u8], Errno>)
    requires
        old(r).wf(),
        call_ensures(peios_mp_read_bin, (r,), res),
    ensures
        ({
            let here = head(old(r).cur.buf@, old(r).cur.pos as int);
            &&& res is Ok <==> old(r).error is None && (here matches Some((MpHead::Bin(_), _)))
            &&& res matches Ok(v) ==> here == Some((MpHead::Bin(v@), final(r).cur.pos as int)) && went_to(*old(r), *final(r), here->Some_0.1)
            &&& res matches Err(e) ==> refused(*old(r), *final(r), e)
        }),
{
}

/// Reading an extension.
pub proof fn law_read_ext(r: &mut peios_mp_reader, res: Result<(i8, &[u8]), Errno>)
    requires
        old(r).wf(),
        call_ensures(peios_mp_read_ext, (r,), res),
    ensures
        ({
            let here = head(old(r).cur.buf@, old(r).cur.pos as int);
            &&& res is Ok <==> old(r).error is None && (here matches Some((MpHead::Ext(_, _), _)))
            &&& res matches Ok(v) ==> here == Some((MpHead::Ext(v.0 as int, v.1@), final(r).cur.pos as int)) && went_to(*old(r), *final(r), here->Some_0.1)
            &&& res matches Err(e) ==> refused(*old(r), *final(r), e)
        }),
{
}

/// Passing over one value with all that is inside it.
pub proof fn law_pass_over(r: &mut peios_mp_reader, res: Result<(), Errno>)
    requires
        old(r).wf(),
        call_ensures(peios_mp_skip, (r,), res),
    ensures
        ({
            let end = skip_end(old(r).cur.buf@, old(r).cur.pos as int, 1);
            &&& res is Ok <==> old(r).error is None && end is Some
            &&& res is Ok ==> went_to(*old(r), *final(r), end->Some_0)
            &&& res matches Err(e) ==> refused(*old(r), *final(r), e)
        }),
{
}

/// Passing over values: what is inside one comes before those behind it.
pub proof fn law_passing_over_in_turn(s: Seq<u8>, p: int, n: nat)
    requires
        0 <= p,
        n > 0,
    ensures
        skip_end(s, p, 0) == Some(p),
        step(s, p) is None ==> skip_end(s, p, n) is None,
        step(s, p) matches Some((kids, q)) ==> (p < q <= s.len() ==> skip_end(s, p, n) == skip_end(
            s,
            q,
            (n - 1 + kids) as nat,
        )),
{
}

/// Whether bytes are one value.
pub proof fn law_checked_values(s: &[u8], n: usize, depth: u32, r: Result<(), Errno>, z: Result<(), Errno>)
    requires
        call_ensures(peios_mp_validate, (Span::At(s), depth), r),
        call_ensures(peios_mp_validate, (Span::Null(n), depth), z),
    ensures
        r is Ok <==> valid_payload(s@, depth as nat),
        r matches Err(e) ==> e == Errno::Inval,
        z == Err::<(), Errno>(Errno::Inval),
{
}

/// Where a failed read stops: behind the first byte and the length that could be read.
pub proof fn law_where_reads_stop(s: Seq<u8>, p: int)
    requires
        0 <= p < s.len(),
    ensures
        int_stop(s, p) == (if s[p] <= 0x7f || s[p] >= 0xe0 || (0xcc <= s[p] <= 0xd3) {
            p + 1
        } else {
            p
        }),
        0xa0 <= s[p] <= 0xbf ==> str_stop(s, p) == p + 1,
        s[p] == 0xd9 ==> str_stop(s, p) == (if p + 2 <= s.len() { p + 2 } else { p + 1 }),
        s[p] == 0xda ==> str_stop(s, p) == (if p + 3 <= s.len() { p + 3 } else { p + 1 }),
        s[p] == 0xdb ==> str_stop(s, p) == (if p + 5 <= s.len() { p + 5 } else { p + 1 }),
        !(0xa0 <= s[p] <= 0xbf) && !(0xd9 <= s[p] <= 0xdb) ==> str_stop(s, p) == p,
        s[p] == 0xc4 ==> bin_stop(s, p) == (if p + 2 <= s.len() { p + 2 } else { p + 1 }),
        s[p] == 0xc5 ==> bin_stop(s, p) == (if p + 3 <= s.len() { p + 3 } else { p + 1 }),
        s[p] == 0xc6 ==> bin_stop(s, p) == (if p + 5 <= s.len() { p + 5 } else { p + 1 }),
        !(0xc4 <= s[p] <= 0xc6) ==> bin_stop(s, p) == p,
        0xd4 <= s[p] <= 0xd8 ==> ext_stop(s, p) == (if p + 1 < s.len() { p + 2 } else { p + 1 }),
        s[p] == 0xc7 ==> ext_stop(s, p) == (if p + 2 < s.len() { p + 3 } else if p + 2 <= s.len() { p + 2 } else { p + 1 }),
        !(0xd4 <= s[p] <= 0xd8) && !(0xc7 <= s[p] <= 0xc9) ==> ext_stop(s, p) == p,
        head(s, p) matches Some((_, end)) ==> step_stop(s, p) == end,
        s[p] == 0xc1 ==> step_stop(s, p) == p + 1,
{
}

/// What a cursor takes.
pub proof fn law_bytes_that_are_taken<'a>(c: &mut Cursor<'a>, n: usize, s: Option<&'a [u8]>)
    requires
        old(c).wf(),
        call_ensures(Cursor::take, (c, n), s),
    ensures
        s is Some <==> old(c).pos + n <= old(c).buf@.len(),
        s matches Some(v) ==> v@ == old(c).buf@.subrange(old(c).pos as int, old(c).pos + n) && final(c).pos == old(c).pos + n,
        s is None ==> final(c).pos == old(c).pos,
        final(c).buf == old(c).buf,
{
}

/// One step over a value.
pub proof fn law_one_step(c: &mut Cursor, r: Option<u64>)
    requires
        old(c).wf(),
        call_ensures(value_step, (c,), r),
    ensures
        r is Some <==> step(old(c).buf@, old(c).pos as int) is Some,
        r matches Some(kids) ==> step(old(c).buf@, old(c).pos as int) == Some((kids as nat, final(c).pos as int)),
        final(c).buf == old(c).buf,
{
}

/// A float.
pub proof fn law_write_float(w: &mut peios_mp_writer, bits: u64)
    requires
        call_ensures(peios_mp_write_float, (w, bits), ()),
    ensures
        old(w).error is None ==> final(w).buf@ == old(w).buf@ + (seq![0xcbu8] + crate::bytes::be64(bits)) && final(w).error is None,
        old(w).error is Some ==> final(w).buf@ == old(w).buf@ && final(w).error == old(w).error,
{
}

/// The length of a list.
pub proof fn law_write_array(w: &mut peios_mp_writer, n: u32)
    requires
        call_ensures(peios_mp_write_array, (w, n), ()),
    ensures
        old(w).error is None ==> final(w).buf@ == old(w).buf@ + (array_header(n as int)) && final(w).error is None,
        old(w).error is Some ==> final(w).buf@ == old(w).buf@ && final(w).error == old(w).error,
{
}

/// The length of a map.
pub proof fn law_write_map(w: &mut peios_mp_writer, n: u32)
    requires
        call_ensures(peios_mp_write_map, (w, n), ()),
    ensures
        old(w).error is None ==> final(w).buf@ == old(w).buf@ + (map_header(n as int)) && final(w).error is None,
        old(w).error is Some ==> final(w).buf@ == old(w).buf@ && final(w).error == old(w).error,
{
}

/// Bytes.
pub proof fn law_write_bin(w: &mut peios_mp_writer, s: &[u8])
    requires
        call_ensures(peios_mp_write_bin, (w, Span::At(s)), ()),
    ensures
        old(w).error is None && s@.len() <= 0xffff_ffff ==> final(w).buf@ == old(w).buf@ + bin_bytes(s@) && final(w).error is None,
        old(w).error is None && s@.len() > 0xffff_ffff ==> final(w).buf@ == old(w).buf@ && final(w).error == Some(Errno::Inval),
        old(w).error is Some ==> final(w).buf@ == old(w).buf@ && final(w).error == old(w).error,
{
}

/// An extension.
pub proof fn law_write_ext(w: &mut peios_mp_writer, ty: i8, s: &[u8])
    requires
        call_ensures(peios_mp_write_ext, (w, ty, Span::At(s)), ()),
    ensures
        old(w).error is None && s@.len() <= 0xffff_ffff ==> final(w).buf@ == old(w).buf@ + ext_bytes(ty, s@) && final(w).error is None,
        old(w).error is Some ==> final(w).buf@ == old(w).buf@ && final(w).error == old(w).error,
{
}

/// Bytes as they are.
pub proof fn law_write_raw(w: &mut peios_mp_writer, s: &[u8])
    requires
        call_ensures(peios_mp_write_raw, (w, Span::At(s)), ()),
    ensures
        old(w).error is None ==> final(w).buf@ == old(w).buf@ + s@ && final(w).error is None,
        old(w).error is Some ==> final(w).buf@ == old(w).buf@ && final(w).error == old(w).error,
{
}

/// A null buffer with a length is an error.
pub proof fn law_write_null(w: &mut peios_mp_writer, n: usize)
    requires
        call_ensures(peios_mp_write_raw, (w, Span::Null(n)), ()),
    ensures
        final(w).buf@ == old(w).buf@,
        old(w).error is None && n > 0 ==> final(w).error == Some(Errno::Inval),
        old(w).error is None && n == 0 ==> final(w).error is None,
        old(w).error is Some ==> final(w).error == old(w).error,
{
}

/// What the encoder puts behind what is there.
pub proof fn law_encoded_text(buf: &mut Vec<u8>, s: &[u8], r: Result<(), Errno>)
    requires
        call_ensures(enc_str, (buf, s), r),
    ensures
        s@.len() <= 0xffff_ffff ==> r is Ok && final(buf)@ == old(buf)@ + str_bytes(s@),
        s@.len() > 0xffff_ffff ==> r == Err::<(), Errno>(Errno::Inval) && final(buf)@ == old(buf)@,
{
}

/// What the encoder puts behind what is there.
pub proof fn law_encoded_bytes(buf: &mut Vec<u8>, s: &[u8], r: Result<(), Errno>)
    requires
        call_ensures(enc_bin, (buf, s), r),
    ensures
        s@.len() <= 0xffff_ffff ==> r is Ok && final(buf)@ == old(buf)@ + bin_bytes(s@),
        s@.len() > 0xffff_ffff ==> r == Err::<(), Errno>(Errno::Inval) && final(buf)@ == old(buf)@,
{
}

/// What the encoder puts behind what is there.
pub proof fn law_encoded_extensions(buf: &mut Vec<u8>, ty: i8, s: &[u8], r: Result<(), Errno>)
    requires
        call_ensures(enc_ext, (buf, ty, s), r),
    ensures
        s@.len() <= 0xffff_ffff ==> r is Ok && final(buf)@ == old(buf)@ + ext_bytes(ty, s@),
        s@.len() > 0xffff_ffff ==> r == Err::<(), Errno>(Errno::Inval) && final(buf)@ == old(buf)@,
{
}

} // verus!
