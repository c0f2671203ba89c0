//! A reader over a borrowed buffer that only moves when a read succeeds.

use vstd::prelude::*;
use vstd::utf8::valid_utf8;
use crate::abi::{opt_slice, Span};
use crate::error::Errno;
use crate::msgpack::cursor::{validate, Cursor, FloatBits};
use crate::msgpack::model::{head, skip_end, valid_payload, MpHead};

verus! {

pub const MP_NIL: i32 = 0;
pub const MP_BOOL: i32 = 1;
pub const MP_INT: i32 = 2;
pub const MP_FLOAT: i32 = 3;
pub const MP_STR: i32 = 4;
pub const MP_BIN: i32 = 5;
pub const MP_ARRAY: i32 = 6;
pub const MP_MAP: i32 = 7;
pub const MP_EXT: i32 = 8;

/// The type of value that a lead byte announces.
pub open spec fn lead_type(b: u8) -> Option<i32> {
    if b < 0x80 || b >= 0xe0 || 0xcc <= b <= 0xd3 {
        Some(MP_INT)
    } else if b < 0x90 || b == 0xde || b == 0xdf {
        Some(MP_MAP)
    } else if b < 0xa0 || b == 0xdc || b == 0xdd {
        Some(MP_ARRAY)
    } else if b < 0xc0 || 0xd9 <= b <= 0xdb {
        Some(MP_STR)
    } else if b == 0xc0 {
        Some(MP_NIL)
    } else if b == 0xc1 {
        None
    } else if b <= 0xc3 {
        Some(MP_BOOL)
    } else if b <= 0xc6 {
        Some(MP_BIN)
    } else if b == 0xca || b == 0xcb {
        Some(MP_FLOAT)
    } else {
        Some(MP_EXT)
    }
}

/// The type of a value.
pub open spec fn head_type(h: MpHead) -> i32 {
    match h {
        MpHead::Nil => MP_NIL,
        MpHead::Bool(_) => MP_BOOL,
        MpHead::Int(_) => MP_INT,
        MpHead::Float32(_) => MP_FLOAT,
        MpHead::Float64(_) => MP_FLOAT,
        MpHead::Str(_) => MP_STR,
        MpHead::Bin(_) => MP_BIN,
        MpHead::ArrayOf(_) => MP_ARRAY,
        MpHead::MapOf(_) => MP_MAP,
        MpHead::Ext(_, _) => MP_EXT,
    }
}

/// What the lead byte announces is what stands there.
pub proof fn law_lead_announces_value(s: Seq<u8>, p: int)
    requires
        head(s, p) is Some,
    ensures
        lead_type(s[p]) == Some(head_type(head(s, p)->Some_0.0)),
{
}

pub fn classify(b: u8) -> (t: Option<i32>)
    ensures
        t == lead_type(b),
{
    if b < 0x80 || b >= 0xe0 || (b >= 0xcc && b <= 0xd3) {
        Some(MP_INT)
    } else if b < 0x90 || b == 0xde || b == 0xdf {
        Some(MP_MAP)
    } else if b < 0xa0 || b == 0xdc || b == 0xdd {
        Some(MP_ARRAY)
    } else if b < 0xc0 || (b >= 0xd9 && b <= 0xdb) {
        Some(MP_STR)
    } else if b == 0xc0 {
        Some(MP_NIL)
    } else if b == 0xc1 {
        None
    } else if b <= 0xc3 {
        Some(MP_BOOL)
    } else if b <= 0xc6 {
        Some(MP_BIN)
    } else if b == 0xca || b == 0xcb {
        Some(MP_FLOAT)
    } else {
        Some(MP_EXT)
    }
}

/// A reader: a cursor on the buffer, or an error that every operation reports.
#[allow(non_camel_case_types)]
pub struct peios_mp_reader<'a> {
    pub cur: Cursor<'a>,
    pub error: Option<Errno>,
}

impl<'a> peios_mp_reader<'a> {
    pub open spec fn wf(&self) -> bool {
        self.cur.wf()
    }

    /// The error of an operation that finds something else than it asks for.
    pub open spec fn refusal(&self) -> Errno {
        match self.error {
            Some(e) => e,
            None => Errno::Inval,
        }
    }

    /// What stands at the position, as far as the reader gives it out.
    pub open spec fn here(&self) -> Option<(MpHead, int)> {
        if self.error is Some {
            None
        } else {
            self.cur.here()
        }
    }

    /// The same reader, moved to `pos`.
    pub open spec fn moved(&self, later: &Self, pos: int) -> bool {
        later.error == self.error && later.cur.buf == self.cur.buf && later.cur.pos == pos
    }
}

/// A reader at the start of `buf`; a null buffer with a length latches an error.
pub fn peios_mp_reader_init<'a>(buf: Span<'a>) -> (r: peios_mp_reader<'a>)
    ensures
        r.wf(),
        r.cur.pos == 0,
        r.cur.buf@ == buf.bytes(),
        r.error == (if buf.consistent() {
            None
        } else {
            Some(Errno::Inval)
        }),
{
    match opt_slice(buf) {
        Ok(s) => peios_mp_reader { cur: Cursor { buf: s, pos: 0 }, error: None },
        Err(e) => {
            let empty: &[u8] = &[];
            assert(empty@ =~= Seq::<u8>::empty());
            peios_mp_reader { cur: Cursor { buf: empty, pos: 0 }, error: Some(e) }
        },
    }
}

/// How many bytes are left.
pub fn peios_mp_reader_remaining(r: &peios_mp_reader) -> (n: usize)
    requires
        r.wf(),
    ensures
        n == (if r.error is Some {
            0
        } else {
            r.cur.buf@.len() - r.cur.pos
        }),
{
    if r.error.is_some() {
        return 0;
    }
    r.cur.buf.len() - r.cur.pos
}

/// The type of the next value. Without one the error is the latched one, or none.
pub fn peios_mp_peek(r: &peios_mp_reader) -> (t: Result<i32, Option<Errno>>)
    requires
        r.wf(),
    ensures
        t == (match r.error {
            Some(e) => Err(Some(e)),
            None => if r.cur.pos < r.cur.buf@.len() {
                match lead_type(r.cur.buf@[r.cur.pos as int]) {
                    Some(ty) => Ok(ty),
                    None => Err(None),
                }
            } else {
                Err(None)
            },
        }),
{
    if let Some(e) = r.error {
        return Err(Some(e));
    }
    match r.cur.peek_byte() {
        Some(b) => match classify(b) {
            Some(ty) => Ok(ty),
            None => Err(None),
        },
        None => Err(None),
    }
}
/// Reads a `nil`; otherwise the reader stays where it is.
pub fn peios_mp_read_nil(r: &mut peios_mp_reader) -> (res: Result<(), Errno>)
    requires
        old(r).wf(),
    ensures
        final(r).wf(),
        match res {
            Ok(()) => old(r).here() == Some((MpHead::Nil, final(r).cur.pos as int)) && old(r).moved(
                final(r),
                final(r).cur.pos as int,
            ),
            Err(e) => !(old(r).here() matches Some((MpHead::Nil, _))) && e == old(r).refusal() && *final(r) == *old(r),
        },
{
    if let Some(e) = r.error {
        return Err(e);
    }
    match r.cur.read_nil() {
        Ok(v) => Ok(v),
        Err(()) => Err(Errno::Inval),
    }
}

/// Reads a boolean; otherwise the reader stays where it is.
pub fn peios_mp_read_bool(r: &mut peios_mp_reader) -> (res: Result<bool, Errno>)
    requires
        old(r).wf(),
    ensures
        final(r).wf(),
        match res {
            Ok(v) => old(r).here() == Some((MpHead::Bool(v), final(r).cur.pos as int)) && old(r).moved(
                final(r),
                final(r).cur.pos as int,
            ),
            Err(e) => !(old(r).here() matches Some((MpHead::Bool(_), _))) && e == old(r).refusal() && *final(r) == *old(r),
        },
{
    if let Some(e) = r.error {
        return Err(e);
    }
    match r.cur.read_bool() {
        Ok(v) => Ok(v),
        Err(()) => Err(Errno::Inval),
    }
}

/// Reads an integer that fits `i64`; otherwise the reader stays where it is.
pub fn peios_mp_read_int(r: &mut peios_mp_reader) -> (res: Result<i64, Errno>)
    requires
        old(r).wf(),
    ensures
        final(r).wf(),
        match res {
            Ok(v) => old(r).here() == Some((MpHead::Int(v as int), final(r).cur.pos as int)) && old(r).moved(
                final(r),
                final(r).cur.pos as int,
            ),
            Err(e) => !(old(r).here() matches Some((MpHead::Int(v), _)) && i64::MIN <= v <= i64::MAX) && e == old(r).refusal() && *final(r) == *old(r),
        },
{
    if let Some(e) = r.error {
        return Err(e);
    }
    match r.cur.read_i64() {
        Ok(v) => Ok(v),
        Err(()) => Err(Errno::Inval),
    }
}

/// Reads an integer that fits `u64`; otherwise the reader stays where it is.
pub fn peios_mp_read_uint(r: &mut peios_mp_reader) -> (res: Result<u64, Errno>)
    requires
        old(r).wf(),
    ensures
        final(r).wf(),
        match res {
            Ok(v) => old(r).here() == Some((MpHead::Int(v as int), final(r).cur.pos as int)) && old(r).moved(
                final(r),
                final(r).cur.pos as int,
            ),
            Err(e) => !(old(r).here() matches Some((MpHead::Int(v), _)) && 0 <= v <= u64::MAX) && e == old(r).refusal() && *final(r) == *old(r),
        },
{
    if let Some(e) = r.error {
        return Err(e);
    }
    match r.cur.read_u64() {
        Ok(v) => Ok(v),
        Err(()) => Err(Errno::Inval),
    }
}

/// Reads the bits of a float of either width; otherwise the reader stays where it is.
pub fn peios_mp_read_float(r: &mut peios_mp_reader) -> (res: Result<FloatBits, Errno>)
    requires
        old(r).wf(),
    ensures
        final(r).wf(),
        match res {
            Ok(v) => old(r).here() == Some((v.as_head(), final(r).cur.pos as int)) && old(r).moved(
                final(r),
                final(r).cur.pos as int,
            ),
            Err(e) => !(old(r).here() matches Some((MpHead::Float32(_), _))) && !(old(r).here() matches Some((MpHead::Float64(_), _))) && e == old(r).refusal() && *final(r) == *old(r),
        },
{
    if let Some(e) = r.error {
        return Err(e);
    }
    match r.cur.read_f64() {
        Ok(v) => Ok(v),
        Err(()) => Err(Errno::Inval),
    }
}

/// Reads UTF-8 text; otherwise the reader stays where it is.
pub fn peios_mp_read_str<'a>(r: &mut peios_mp_reader<'a>) -> (res: Result<&'a [u8], Errno>)
    requires
        old(r).wf(),
    ensures
        final(r).wf(),
        match res {
            Ok(v) => old(r).here() == Some((MpHead::Str(v@), final(r).cur.pos as int)) && old(r).moved(
                final(r),
                final(r).cur.pos as int,
            ) && valid_utf8(v@),
            Err(e) => !(old(r).here() matches Some((MpHead::Str(text), _)) && valid_utf8(text)) && e == old(r).refusal() && *final(r) == *old(r),
        },
{
    if let Some(e) = r.error {
        return Err(e);
    }
    match r.cur.read_str() {
        Ok(v) => Ok(v),
        Err(()) => Err(Errno::Inval),
    }
}

/// Reads a blob; otherwise the reader stays where it is.
pub fn peios_mp_read_bin<'a>(r: &mut peios_mp_reader<'a>) -> (res: Result<&'a [u8], Errno>)
    requires
        old(r).wf(),
    ensures
        final(r).wf(),
        match res {
            Ok(v) => old(r).here() == Some((MpHead::Bin(v@), final(r).cur.pos as int)) && old(r).moved(
                final(r),
                final(r).cur.pos as int,
            ),
            Err(e) => !(old(r).here() matches Some((MpHead::Bin(_), _))) && e == old(r).refusal() && *final(r) == *old(r),
        },
{
    if let Some(e) = r.error {
        return Err(e);
    }
    match r.cur.read_bin() {
        Ok(v) => Ok(v),
        Err(()) => Err(Errno::Inval),
    }
}

/// Reads an array header as its element count; otherwise the reader stays where it is.
pub fn peios_mp_read_array(r: &mut peios_mp_reader) -> (res: Result<u32, Errno>)
    requires
        old(r).wf(),
    ensures
        final(r).wf(),
        match res {
            Ok(v) => old(r).here() == Some((MpHead::ArrayOf(v as nat), final(r).cur.pos as int)) && old(r).moved(
                final(r),
                final(r).cur.pos as int,
            ),
            Err(e) => !(old(r).here() matches Some((MpHead::ArrayOf(_), _))) && e == old(r).refusal() && *final(r) == *old(r),
        },
{
    if let Some(e) = r.error {
        return Err(e);
    }
    match r.cur.read_array() {
        Ok(v) => Ok(v),
        Err(()) => Err(Errno::Inval),
    }
}

/// Reads a map header as its pair count; otherwise the reader stays where it is.
pub fn peios_mp_read_map(r: &mut peios_mp_reader) -> (res: Result<u32, Errno>)
    requires
        old(r).wf(),
    ensures
        final(r).wf(),
        match res {
            Ok(v) => old(r).here() == Some((MpHead::MapOf(v as nat), final(r).cur.pos as int)) && old(r).moved(
                final(r),
                final(r).cur.pos as int,
            ),
            Err(e) => !(old(r).here() matches Some((MpHead::MapOf(_), _))) && e == old(r).refusal() && *final(r) == *old(r),
        },
{
    if let Some(e) = r.error {
        return Err(e);
    }
    match r.cur.read_map() {
        Ok(v) => Ok(v),
        Err(()) => Err(Errno::Inval),
    }
}

/// Reads an extension value as its type and data; otherwise the reader stays where it is.
pub fn peios_mp_read_ext<'a>(r: &mut peios_mp_reader<'a>) -> (res: Result<(i8, &'a [u8]), Errno>)
    requires
        old(r).wf(),
    ensures
        final(r).wf(),
        match res {
            Ok(v) => old(r).here() == Some((MpHead::Ext(v.0 as int, v.1@), final(r).cur.pos as int)) && old(r).moved(
                final(r),
                final(r).cur.pos as int,
            ),
            Err(e) => !(old(r).here() matches Some((MpHead::Ext(_, _), _))) && e == old(r).refusal() && *final(r) == *old(r),
        },
{
    if let Some(e) = r.error {
        return Err(e);
    }
    match r.cur.read_ext() {
        Ok(v) => Ok(v),
        Err(()) => Err(Errno::Inval),
    }
}

/// Skips exactly one complete value; otherwise the reader stays where it is.
pub fn peios_mp_skip(r: &mut peios_mp_reader) -> (res: Result<(), Errno>)
    requires
        old(r).wf(),
    ensures
        final(r).wf(),
        match res {
            Ok(()) => {
                &&& old(r).error is None
                &&& skip_end(old(r).cur.buf@, old(r).cur.pos as int, 1) matches Some(end) && old(r).moved(
                    final(r),
                    end,
                )
            },
            Err(e) => {
                &&& old(r).error is Some || skip_end(old(r).cur.buf@, old(r).cur.pos as int, 1) is None
                &&& e == old(r).refusal()
                &&& *final(r) == *old(r)
            },
        },
{
    if let Some(e) = r.error {
        return Err(e);
    }
    match r.cur.skip() {
        Ok(()) => Ok(()),
        Err(()) => Err(Errno::Inval),
    }
}

/// Whether a buffer is exactly one well-formed value with at most `max_depth` levels.
pub fn peios_mp_validate(buf: Span, max_depth: u32) -> (r: Result<(), Errno>)
    ensures
        r == (if buf.consistent() && valid_payload(buf.bytes(), max_depth as nat) {
            Ok(())
        } else {
            Err(Errno::Inval)
        }),
{
    match opt_slice(buf) {
        Ok(bytes) => if validate(bytes, max_depth) {
            Ok(())
        } else {
            Err(Errno::Inval)
        },
        Err(e) => Err(e),
    }
}

} // verus!
