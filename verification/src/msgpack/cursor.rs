//! A decoding position in a byte buffer, and the structural validator built on it.

use vstd::prelude::*;
use vstd::slice::slice_subrange;
use vstd::utf8::valid_utf8;
use crate::bytes::{be16_at, be32_at, be64_at, is_utf8, rd_be16, rd_be32, rd_be64};
use crate::msgpack::model::{children, head, lemma_head_moves, skip_end, step, twos8, valid_payload, values_end, MpHead};

verus! {

/// The deepest nesting that the kernel's validator can be asked to allow.
pub const MAX_DEPTH: u32 = 256;

/// A position in a buffer. A read that succeeds moves it behind what was read.
pub struct Cursor<'a> {
    pub buf: &'a [u8],
    pub pos: usize,
}

/// The bit pattern of a float of either width.
#[derive(Clone, Copy, Debug, PartialEq, Eq, Structural)]
pub enum FloatBits {
    Single(u32),
    Double(u64),
}

impl FloatBits {
    /// The head that carries these bits.
    pub open spec fn as_head(self) -> MpHead {
        match self {
            FloatBits::Single(bits) => MpHead::Float32(bits),
            FloatBits::Double(bits) => MpHead::Float64(bits),
        }
    }
}

/// A lead byte that starts an integer.
pub open spec fn int_lead(b: u8) -> bool {
    b < 0x80 || b >= 0xe0 || 0xcc <= b <= 0xd3
}

/// How many bytes the length field of a `str` with this lead byte has; nothing if the byte
/// starts no `str`.
pub open spec fn str_field(b: u8) -> Option<int> {
    if 0xa0 <= b < 0xc0 {
        Some(0)
    } else if b == 0xd9 {
        Some(1)
    } else if b == 0xda {
        Some(2)
    } else if b == 0xdb {
        Some(4)
    } else {
        None
    }
}

/// How many bytes the length field of a `bin` with this lead byte has; nothing if the byte
/// starts no `bin`.
pub open spec fn bin_field(b: u8) -> Option<int> {
    if b == 0xc4 {
        Some(1)
    } else if b == 0xc5 {
        Some(2)
    } else if b == 0xc6 {
        Some(4)
    } else {
        None
    }
}

/// How many bytes the length field of an `ext` with this lead byte has; nothing if the byte
/// starts no `ext`.
pub open spec fn ext_field(b: u8) -> Option<int> {
    if 0xd4 <= b <= 0xd8 {
        Some(0)
    } else if b == 0xc7 {
        Some(1)
    } else if b == 0xc8 {
        Some(2)
    } else if b == 0xc9 {
        Some(4)
    } else {
        None
    }
}

/// Where reading stops behind a lead byte at `p` and a field of `width` bytes: behind the
/// field if it is all there, else behind the lead byte.
pub open spec fn behind_field(s: Seq<u8>, p: int, width: int) -> int {
    if p + 1 + width <= s.len() {
        p + 1 + width
    } else {
        p + 1
    }
}

/// Where a read that finds no integer stops.
pub open spec fn int_stop(s: Seq<u8>, p: int) -> int {
    if p < s.len() && int_lead(s[p]) {
        p + 1
    } else {
        p
    }
}

/// Where a read that finds no `str` stops.
pub open spec fn str_stop(s: Seq<u8>, p: int) -> int {
    if p < s.len() && str_field(s[p]) is Some {
        behind_field(s, p, str_field(s[p])->Some_0)
    } else {
        p
    }
}

/// Where a read that finds no `bin` stops.
pub open spec fn bin_stop(s: Seq<u8>, p: int) -> int {
    if p < s.len() && bin_field(s[p]) is Some {
        behind_field(s, p, bin_field(s[p])->Some_0)
    } else {
        p
    }
}

/// Where a read that finds no `ext` stops. The type byte stands behind the length field.
pub open spec fn ext_stop(s: Seq<u8>, p: int) -> int {
    if p < s.len() && ext_field(s[p]) is Some {
        let width = ext_field(s[p])->Some_0;
        if p + 1 + width < s.len() {
            p + 2 + width
        } else {
            behind_field(s, p, width)
        }
    } else {
        p
    }
}

/// Where a step over one value that finds none stops. Text that is all there but no UTF-8 is
/// passed. The type of an `ext` is passed together with its data.
pub open spec fn step_stop(s: Seq<u8>, p: int) -> int {
    if p >= s.len() {
        p
    } else if head(s, p) is Some {
        head(s, p)->Some_0.1
    } else if str_field(s[p]) is Some {
        str_stop(s, p)
    } else if bin_field(s[p]) is Some {
        bin_stop(s, p)
    } else if ext_field(s[p]) is Some {
        behind_field(s, p, ext_field(s[p])->Some_0)
    } else {
        p + 1
    }
}

impl<'a> Cursor<'a> {
    /// The position is inside the buffer or at its end.
    pub open spec fn wf(&self) -> bool {
        self.pos <= self.buf@.len()
    }

    /// What stands at the position.
    pub open spec fn here(&self) -> Option<(MpHead, int)> {
        head(self.buf@, self.pos as int)
    }

    /// A cursor on the same buffer, at position `pos`.
    pub open spec fn at(&self, pos: int) -> Cursor<'a> {
        Cursor { buf: self.buf, pos: pos as usize }
    }

    pub fn peek_byte(&self) -> (b: Option<u8>)
        requires
            self.wf(),
        ensures
            b == (if self.pos < self.buf@.len() {
                Some(self.buf@[self.pos as int])
            } else {
                None
            }),
    {
        if self.pos < self.buf.len() {
            Some(self.buf[self.pos])
        } else {
            None
        }
    }

    pub fn take1(&mut self) -> (b: Option<u8>)
        requires
            old(self).wf(),
        ensures
            final(self).wf(),
            final(self).buf == old(self).buf,
            match b {
                Some(v) => {
                    &&& old(self).pos < old(self).buf@.len()
                    &&& v == old(self).buf@[old(self).pos as int]
                    &&& final(self).pos == old(self).pos + 1
                },
                None => old(self).pos == old(self).buf@.len() && final(self).pos == old(self).pos,
            },
    {
        if self.pos < self.buf.len() {
            let b: u8 = self.buf[self.pos];
            self.pos = self.pos + 1;
            Some(b)
        } else {
            None
        }
    }

    pub fn take(&mut self, n: usize) -> (s: Option<&'a [u8]>)
        requires
            old(self).wf(),
        ensures
            final(self).wf(),
            final(self).buf == old(self).buf,
            match s {
                Some(v) => {
                    &&& old(self).pos + n <= old(self).buf@.len()
                    &&& v@ == old(self).buf@.subrange(old(self).pos as int, old(self).pos + n)
                    &&& final(self).pos == old(self).pos + n
                },
                None => old(self).pos + n > old(self).buf@.len() && final(self).pos == old(self).pos,
            },
    {
        if n <= self.buf.len() - self.pos {
            let s = slice_subrange(self.buf, self.pos, self.pos + n);
            self.pos = self.pos + n;
            Some(s)
        } else {
            None
        }
    }

    pub fn be_u16(&mut self) -> (v: Option<u16>)
        requires
            old(self).wf(),
        ensures
            final(self).wf(),
            final(self).buf == old(self).buf,
            match v {
                Some(x) => {
                    &&& old(self).pos + 2 <= old(self).buf@.len()
                    &&& x == be16_at(old(self).buf@, old(self).pos as int)
                    &&& final(self).pos == old(self).pos + 2
                },
                None => old(self).pos + 2 > old(self).buf@.len() && final(self).pos == old(self).pos,
            },
    {
        if self.buf.len() - self.pos >= 2 {
            let v: u16 = rd_be16(self.buf, self.pos);
            self.pos = self.pos + 2;
            Some(v)
        } else {
            None
        }
    }

    pub fn be_u32(&mut self) -> (v: Option<u32>)
        requires
            old(self).wf(),
        ensures
            final(self).wf(),
            final(self).buf == old(self).buf,
            match v {
                Some(x) => {
                    &&& old(self).pos + 4 <= old(self).buf@.len()
                    &&& x == be32_at(old(self).buf@, old(self).pos as int)
                    &&& final(self).pos == old(self).pos + 4
                },
                None => old(self).pos + 4 > old(self).buf@.len() && final(self).pos == old(self).pos,
            },
    {
        if self.buf.len() - self.pos >= 4 {
            let v: u32 = rd_be32(self.buf, self.pos);
            self.pos = self.pos + 4;
            Some(v)
        } else {
            None
        }
    }

    pub fn be_u64(&mut self) -> (v: Option<u64>)
        requires
            old(self).wf(),
        ensures
            final(self).wf(),
            final(self).buf == old(self).buf,
            match v {
                Some(x) => {
                    &&& old(self).pos + 8 <= old(self).buf@.len()
                    &&& x == be64_at(old(self).buf@, old(self).pos as int)
                    &&& final(self).pos == old(self).pos + 8
                },
                None => old(self).pos + 8 > old(self).buf@.len() && final(self).pos == old(self).pos,
            },
    {
        if self.buf.len() - self.pos >= 8 {
            let v: u64 = rd_be64(self.buf, self.pos);
            self.pos = self.pos + 8;
            Some(v)
        } else {
            None
        }
    }

    /// Reads a `nil`; leaves the cursor where it is if something else stands there.
    pub fn read_nil(&mut self) -> (r: Result<(), ()>)
        requires
            old(self).wf(),
        ensures
            final(self).wf(),
            match r {
                Ok(()) => old(self).here() == Some((MpHead::Nil, final(self).pos as int)) && final(self).buf
                    == old(self).buf,
                Err(()) => !(old(self).here() matches Some((MpHead::Nil, _))) && *final(self) == *old(self),
            },
    {
        match self.peek_byte() {
            Some(0xc0) => {
                assert(self.pos < self.buf.len());
                self.pos = self.pos + 1;
                Ok(())
            },
            _ => Err(()),
        }
    }

    /// Reads a boolean; leaves the cursor where it is if something else stands there.
    pub fn read_bool(&mut self) -> (r: Result<bool, ()>)
        requires
            old(self).wf(),
        ensures
            final(self).wf(),
            match r {
                Ok(v) => old(self).here() == Some((MpHead::Bool(v), final(self).pos as int)) && final(self).buf == old(self).buf,
                Err(()) => !(old(self).here() matches Some((MpHead::Bool(_), _))) && *final(self) == *old(self),
            },
    {
        match self.peek_byte() {
            Some(0xc2) => {
                assert(self.pos < self.buf.len());
                self.pos = self.pos + 1;
                Ok(false)
            },
            Some(0xc3) => {
                assert(self.pos < self.buf.len());
                self.pos = self.pos + 1;
                Ok(true)
            },
            _ => Err(()),
        }
    }

    /// Reads an integer of any encoding. Where none starts, the cursor stays where it is; where
    /// one is cut short, it stands behind the lead byte.
    pub fn read_int(&mut self) -> (r: Option<i128>)
        requires
            old(self).wf(),
        ensures
            final(self).wf(),
            final(self).buf == old(self).buf,
            match r {
                Some(v) => old(self).here() == Some((MpHead::Int(v as int), final(self).pos as int)),
                None => {
                    &&& !(old(self).here() matches Some((MpHead::Int(_), _)))
                    &&& final(self).pos == int_stop(old(self).buf@, old(self).pos as int)
                },
            },
    {
        let b: u8 = match self.peek_byte() {
            Some(b) => b,
            None => return None,
        };
        if b >= 0x80 && b < 0xe0 && (b < 0xcc || b > 0xd3) {
            return None;
        }
        assert(self.pos < self.buf.len());
        self.pos = self.pos + 1;
        if b < 0x80 {
            return Some(b as i128);
        }
        if b >= 0xe0 {
            return Some(b as i128 - 0x100);
        }
        match b {
            0xcc => match self.take1() {
                Some(v) => Some(v as i128),
                None => None,
            },
            0xcd => match self.be_u16() {
                Some(v) => Some(v as i128),
                None => None,
            },
            0xce => match self.be_u32() {
                Some(v) => Some(v as i128),
                None => None,
            },
            0xcf => match self.be_u64() {
                Some(v) => Some(v as i128),
                None => None,
            },
            0xd0 => match self.take1() {
                Some(v) => Some(if v < 0x80 { v as i128 } else { v as i128 - 0x100 }),
                None => None,
            },
            0xd1 => match self.be_u16() {
                Some(v) => Some(if v < 0x8000 { v as i128 } else { v as i128 - 0x1_0000 }),
                None => None,
            },
            0xd2 => match self.be_u32() {
                Some(v) => Some(if v < 0x8000_0000 { v as i128 } else { v as i128 - 0x1_0000_0000 }),
                None => None,
            },
            0xd3 => match self.be_u64() {
                Some(v) => Some(
                    if v < 0x8000_0000_0000_0000 {
                        v as i128
                    } else {
                        v as i128 - 0x1_0000_0000_0000_0000
                    },
                ),
                None => None,
            },
            _ => None,
        }
    }

    /// Reads an integer that fits `i64`; otherwise leaves the cursor where it is.
    pub fn read_i64(&mut self) -> (r: Result<i64, ()>)
        requires
            old(self).wf(),
        ensures
            final(self).wf(),
            match r {
                Ok(v) => old(self).here() == Some((MpHead::Int(v as int), final(self).pos as int)) && final(self).buf == old(self).buf,
                Err(()) => !(old(self).here() matches Some((MpHead::Int(v), _)) && i64::MIN <= v <= i64::MAX)
                    && *final(self) == *old(self),
            },
    {
        let save: usize = self.pos;
        match self.read_int() {
            Some(v) if v >= i64::MIN as i128 && v <= i64::MAX as i128 => Ok(v as i64),
            _ => {
                self.pos = save;
                Err(())
            },
        }
    }

    /// Reads an integer that fits `u64`; otherwise leaves the cursor where it is.
    pub fn read_u64(&mut self) -> (r: Result<u64, ()>)
        requires
            old(self).wf(),
        ensures
            final(self).wf(),
            match r {
                Ok(v) => old(self).here() == Some((MpHead::Int(v as int), final(self).pos as int)) && final(self).buf == old(self).buf,
                Err(()) => !(old(self).here() matches Some((MpHead::Int(v), _)) && 0 <= v <= u64::MAX)
                    && *final(self) == *old(self),
            },
    {
        let save: usize = self.pos;
        match self.read_int() {
            Some(v) if v >= 0 && v <= u64::MAX as i128 => Ok(v as u64),
            _ => {
                self.pos = save;
                Err(())
            },
        }
    }

    /// Reads the bits of a float; leaves the cursor where it is if something else stands
    /// there.
    pub fn read_f64(&mut self) -> (r: Result<FloatBits, ()>)
        requires
            old(self).wf(),
        ensures
            final(self).wf(),
            match r {
                Ok(v) => old(self).here() == Some((v.as_head(), final(self).pos as int)) && final(self).buf
                    == old(self).buf,
                Err(()) => !(old(self).here() matches Some((MpHead::Float32(_), _))) && !(old(self).here() matches Some((MpHead::Float64(_), _))) && *final(self) == *old(self),
            },
    {
        let save: usize = self.pos;
        let r: Option<FloatBits> = match self.take1() {
            Some(0xca) => match self.be_u32() {
                Some(v) => Some(FloatBits::Single(v)),
                None => None,
            },
            Some(0xcb) => match self.be_u64() {
                Some(v) => Some(FloatBits::Double(v)),
                None => None,
            },
            _ => None,
        };
        match r {
            Some(v) => Ok(v),
            None => {
                self.pos = save;
                Err(())
            },
        }
    }

    /// Reads a `str` without looking at its text. Where none starts, the cursor stays where it
    /// is; where one is cut short, it stands behind the part of the header that is there.
    pub fn try_read_str(&mut self) -> (r: Option<&'a [u8]>)
        requires
            old(self).wf(),
        ensures
            final(self).wf(),
            final(self).buf == old(self).buf,
            match r {
                Some(s) => old(self).here() == Some((MpHead::Str(s@), final(self).pos as int)),
                None => {
                    &&& !(old(self).here() matches Some((MpHead::Str(_), _)))
                    &&& final(self).pos == str_stop(old(self).buf@, old(self).pos as int)
                },
            },
    {
        let b: u8 = match self.peek_byte() {
            Some(b) => b,
            None => return None,
        };
        if b < 0xa0 || b > 0xdb || (b >= 0xc0 && b < 0xd9) {
            return None;
        }
        assert(self.pos < self.buf.len());
        self.pos = self.pos + 1;
        let n: usize = match b {
            0xd9 => match self.take1() {
                Some(v) => v as usize,
                None => return None,
            },
            0xda => match self.be_u16() {
                Some(v) => v as usize,
                None => return None,
            },
            0xdb => match self.be_u32() {
                Some(v) => v as usize,
                None => return None,
            },
            _ => if b >= 0xa0 && b < 0xc0 {
                (b - 0xa0) as usize
            } else {
                return None;
            },
        };
        self.take(n)
    }

    /// Reads a `str` of UTF-8 text; otherwise leaves the cursor where it is.
    pub fn read_str(&mut self) -> (r: Result<&'a [u8], ()>)
        requires
            old(self).wf(),
        ensures
            final(self).wf(),
            match r {
                Ok(s) => old(self).here() == Some((MpHead::Str(s@), final(self).pos as int)) && valid_utf8(
                    s@,
                ) && final(self).buf == old(self).buf,
                Err(()) => !(old(self).here() matches Some((MpHead::Str(text), _)) && valid_utf8(text))
                    && *final(self) == *old(self),
            },
    {
        let save: usize = self.pos;
        match self.try_read_str() {
            Some(s) => {
                if is_utf8(s) {
                    Ok(s)
                } else {
                    self.pos = save;
                    Err(())
                }
            },
            None => {
                self.pos = save;
                Err(())
            },
        }
    }

    /// Reads a `bin`. Where none starts, the cursor stays where it is; where one is cut short,
    /// it stands behind the part of the header that is there.
    pub fn try_read_bin(&mut self) -> (r: Option<&'a [u8]>)
        requires
            old(self).wf(),
        ensures
            final(self).wf(),
            final(self).buf == old(self).buf,
            match r {
                Some(s) => old(self).here() == Some((MpHead::Bin(s@), final(self).pos as int)),
                None => {
                    &&& !(old(self).here() matches Some((MpHead::Bin(_), _)))
                    &&& final(self).pos == bin_stop(old(self).buf@, old(self).pos as int)
                },
            },
    {
        let b: u8 = match self.peek_byte() {
            Some(b) => b,
            None => return None,
        };
        if b < 0xc4 || b > 0xc6 {
            return None;
        }
        assert(self.pos < self.buf.len());
        self.pos = self.pos + 1;
        let n: usize = match b {
            0xc4 => match self.take1() {
                Some(v) => v as usize,
                None => return None,
            },
            0xc5 => match self.be_u16() {
                Some(v) => v as usize,
                None => return None,
            },
            0xc6 => match self.be_u32() {
                Some(v) => v as usize,
                None => return None,
            },
            _ => return None,
        };
        self.take(n)
    }

    /// Reads a `bin`; otherwise leaves the cursor where it is.
    pub fn read_bin(&mut self) -> (r: Result<&'a [u8], ()>)
        requires
            old(self).wf(),
        ensures
            final(self).wf(),
            match r {
                Ok(s) => old(self).here() == Some((MpHead::Bin(s@), final(self).pos as int)) && final(self).buf
                    == old(self).buf,
                Err(()) => !(old(self).here() matches Some((MpHead::Bin(_), _))) && *final(self) == *old(self),
            },
    {
        let save: usize = self.pos;
        match self.try_read_bin() {
            Some(s) => Ok(s),
            None => {
                self.pos = save;
                Err(())
            },
        }
    }

    /// Reads an array header; otherwise leaves the cursor where it is.
    pub fn read_array(&mut self) -> (r: Result<u32, ()>)
        requires
            old(self).wf(),
        ensures
            final(self).wf(),
            match r {
                Ok(n) => old(self).here() == Some((MpHead::ArrayOf(n as nat), final(self).pos as int)) && final(self).buf == old(self).buf,
                Err(()) => !(old(self).here() matches Some((MpHead::ArrayOf(_), _))) && *final(self) == *old(self),
            },
    {
        let save: usize = self.pos;
        let r: Option<u32> = match self.take1() {
            Some(0xdc) => match self.be_u16() {
                Some(n) => Some(n as u32),
                None => None,
            },
            Some(0xdd) => self.be_u32(),
            Some(b) => if b >= 0x90 && b < 0xa0 {
                Some((b - 0x90) as u32)
            } else {
                None
            },
            None => None,
        };
        match r {
            Some(n) => Ok(n),
            None => {
                self.pos = save;
                Err(())
            },
        }
    }

    /// Reads a map header; otherwise leaves the cursor where it is.
    pub fn read_map(&mut self) -> (r: Result<u32, ()>)
        requires
            old(self).wf(),
        ensures
            final(self).wf(),
            match r {
                Ok(n) => old(self).here() == Some((MpHead::MapOf(n as nat), final(self).pos as int)) && final(self).buf == old(self).buf,
                Err(()) => !(old(self).here() matches Some((MpHead::MapOf(_), _))) && *final(self) == *old(self),
            },
    {
        let save: usize = self.pos;
        let r: Option<u32> = match self.take1() {
            Some(0xde) => match self.be_u16() {
                Some(n) => Some(n as u32),
                None => None,
            },
            Some(0xdf) => self.be_u32(),
            Some(b) => if b >= 0x80 && b < 0x90 {
                Some((b - 0x80) as u32)
            } else {
                None
            },
            None => None,
        };
        match r {
            Some(n) => Ok(n),
            None => {
                self.pos = save;
                Err(())
            },
        }
    }

    /// Reads an `ext` as its type and its data. Where none starts, the cursor stays where it is;
    /// where one is cut short, it stands behind the part of the header that is there.
    pub fn try_read_ext(&mut self) -> (r: Option<(i8, &'a [u8])>)
        requires
            old(self).wf(),
        ensures
            final(self).wf(),
            final(self).buf == old(self).buf,
            match r {
                Some((ty, s)) => old(self).here() == Some(
                    (MpHead::Ext(ty as int, s@), final(self).pos as int),
                ),
                None => {
                    &&& !(old(self).here() matches Some((MpHead::Ext(_, _), _)))
                    &&& final(self).pos == ext_stop(old(self).buf@, old(self).pos as int)
                },
            },
    {
        let b: u8 = match self.peek_byte() {
            Some(b) => b,
            None => return None,
        };
        if b < 0xc7 || b > 0xd8 || (b >= 0xca && b < 0xd4) {
            return None;
        }
        assert(self.pos < self.buf.len());
        self.pos = self.pos + 1;
        let n: usize = match b {
            0xd4 => 1,
            0xd5 => 2,
            0xd6 => 4,
            0xd7 => 8,
            0xd8 => 16,
            0xc7 => match self.take1() {
                Some(v) => v as usize,
                None => return None,
            },
            0xc8 => match self.be_u16() {
                Some(v) => v as usize,
                None => return None,
            },
            0xc9 => match self.be_u32() {
                Some(v) => v as usize,
                None => return None,
            },
            _ => return None,
        };
        let ty: u8 = match self.take1() {
            Some(v) => v,
            None => return None,
        };
        match self.take(n) {
            Some(data) => Some((signed8(ty), data)),
            None => None,
        }
    }

    /// Reads an `ext`; otherwise leaves the cursor where it is.
    pub fn read_ext(&mut self) -> (r: Result<(i8, &'a [u8]), ()>)
        requires
            old(self).wf(),
        ensures
            final(self).wf(),
            match r {
                Ok((ty, s)) => old(self).here() == Some((MpHead::Ext(ty as int, s@), final(self).pos as int))
                    && final(self).buf == old(self).buf,
                Err(()) => !(old(self).here() matches Some((MpHead::Ext(_, _), _))) && *final(self) == *old(self),
            },
    {
        let save: usize = self.pos;
        match self.try_read_ext() {
            Some(v) => Ok(v),
            None => {
                self.pos = save;
                Err(())
            },
        }
    }

    /// Skips exactly one complete value with all that it contains; leaves the cursor where
    /// it is if there is none.
    pub fn skip(&mut self) -> (r: Result<(), ()>)
        requires
            old(self).wf(),
        ensures
            final(self).wf(),
            match r {
                Ok(()) => skip_end(old(self).buf@, old(self).pos as int, 1) == Some(final(self).pos as int)
                    && final(self).buf == old(self).buf,
                Err(()) => skip_end(old(self).buf@, old(self).pos as int, 1) is None && *final(self) == *old(
                    self),
            },
    {
        let save: usize = self.pos;
        let mut remaining: u64 = 1;
        while remaining > 0
            invariant
                save == old(self).pos,
                old(self).wf(),
                self.wf(),
                self.buf == old(self).buf,
                skip_end(old(self).buf@, save as int, 1) == skip_end(
                    self.buf@,
                    self.pos as int,
                    remaining as nat,
                ),
            decreases self.buf@.len() - self.pos, remaining,
        {
            remaining = remaining - 1;
            let ghost before = self.pos as int;
            proof {
                lemma_head_moves(self.buf@, before);
            }
            match value_step(self) {
                Some(children) => {
                    match remaining.checked_add(children) {
                        Some(sum) => {
                            remaining = sum;
                        },
                        None => {
                            proof {
                                lemma_skip_bounds(self.buf@, self.pos as int, (remaining + children) as nat);
                                assert(self.buf@.len() == self.buf.len());
                            }
                            self.pos = save;
                            return Err(());
                        },
                    }
                },
                None => {
                    self.pos = save;
                    return Err(());
                },
            }
        }
        Ok(())
    }
}

/// Every pending value takes at least one byte.
proof fn lemma_skip_bounds(s: Seq<u8>, p: int, pending: nat)
    requires
        0 <= p <= s.len(),
    ensures
        skip_end(s, p, pending) matches Some(end) ==> p + pending <= end <= s.len(),
    decreases s.len() - p,
{
    if pending > 0 {
        lemma_head_moves(s, p);
        if let Some((kids, q)) = step(s, p) {
            lemma_skip_bounds(s, q, (pending - 1 + kids) as nat);
        }
    }
}

/// The two's-complement reading of a byte.
pub fn signed8(v: u8) -> (r: i8)
    ensures
        r == twos8(v),
{
    if v < 0x80 {
        v as i8
    } else {
        (v as i16 - 0x100) as i8
    }
}

/// Consumes a `str` payload of `n` bytes if it is UTF-8 text.
pub fn str_leaf(cur: &mut Cursor, n: usize) -> (r: Option<u64>)
    requires
        old(cur).wf(),
    ensures
        final(cur).wf(),
        final(cur).buf == old(cur).buf,
        match r {
            Some(kids) => {
                &&& kids == 0
                &&& old(cur).pos + n <= old(cur).buf@.len()
                &&& valid_utf8(old(cur).buf@.subrange(old(cur).pos as int, old(cur).pos + n))
                &&& final(cur).pos == old(cur).pos + n
            },
            None => if old(cur).pos + n > old(cur).buf@.len() {
                final(cur).pos == old(cur).pos
            } else {
                &&& !valid_utf8(old(cur).buf@.subrange(old(cur).pos as int, old(cur).pos + n))
                &&& final(cur).pos == old(cur).pos + n
            },
        },
{
    match cur.take(n) {
        Some(s) => if is_utf8(s) {
            Some(0)
        } else {
            None
        },
        None => None,
    }
}

/// Consumes `n` bytes of a leaf that has no children.
fn leaf(cur: &mut Cursor, n: usize) -> (r: Option<u64>)
    requires
        old(cur).wf(),
    ensures
        final(cur).wf(),
        final(cur).buf == old(cur).buf,
        match r {
            Some(kids) => kids == 0 && old(cur).pos + n <= old(cur).buf@.len() && final(cur).pos == old(cur).pos + n,
            None => old(cur).pos + n > old(cur).buf@.len() && final(cur).pos == old(cur).pos,
        },
{
    match cur.take(n) {
        Some(_) => Some(0),
        None => None,
    }
}

/// Consumes the type byte and `n` data bytes of an `ext`, or neither.
fn ext_leaf(cur: &mut Cursor, n: usize) -> (r: Option<u64>)
    requires
        old(cur).wf(),
    ensures
        final(cur).wf(),
        final(cur).buf == old(cur).buf,
        match r {
            Some(kids) => kids == 0 && old(cur).pos + 1 + n <= old(cur).buf@.len() && final(cur).pos == old(cur).pos + 1 + n,
            None => old(cur).pos + 1 + n > old(cur).buf@.len() && final(cur).pos == old(cur).pos,
        },
{
    if n < cur.buf.len() - cur.pos {
        leaf(cur, 1 + n)
    } else {
        None
    }
}

/// Consumes one value's header and leaf bytes, and returns how many child values follow.
/// Nothing on a malformed, cut short or reserved value, or on text that is not UTF-8.
#[verifier::spinoff_prover]
#[verifier::rlimit(60)]
pub fn value_step(cur: &mut Cursor) -> (r: Option<u64>)
    requires
        old(cur).wf(),
    ensures
        final(cur).wf(),
        final(cur).buf == old(cur).buf,
        match r {
            Some(kids) => step(old(cur).buf@, old(cur).pos as int) == Some(
                (kids as nat, final(cur).pos as int),
            ),
            None => {
                &&& step(old(cur).buf@, old(cur).pos as int) is None
                &&& final(cur).pos == step_stop(old(cur).buf@, old(cur).pos as int)
            },
        },
{
    let b: u8 = match cur.take1() {
        Some(b) => b,
        None => return None,
    };
    if b < 0x80 || b >= 0xe0 {
        return Some(0);
    }
    if b < 0x90 {
        return Some(((b - 0x80) as u64) * 2);
    }
    if b < 0xa0 {
        return Some((b - 0x90) as u64);
    }
    if b < 0xc0 {
        return str_leaf(cur, (b - 0xa0) as usize);
    }
    match b {
        0xc0 | 0xc2 | 0xc3 => Some(0),
        0xcc | 0xd0 => leaf(cur, 1),
        0xcd | 0xd1 => leaf(cur, 2),
        0xce | 0xd2 | 0xca => leaf(cur, 4),
        0xcf | 0xd3 | 0xcb => leaf(cur, 8),
        0xd9 => match cur.take1() {
            Some(n) => str_leaf(cur, n as usize),
            None => None,
        },
        0xda => match cur.be_u16() {
            Some(n) => str_leaf(cur, n as usize),
            None => None,
        },
        0xdb => match cur.be_u32() {
            Some(n) => str_leaf(cur, n as usize),
            None => None,
        },
        0xc4 => match cur.take1() {
            Some(n) => leaf(cur, n as usize),
            None => None,
        },
        0xc5 => match cur.be_u16() {
            Some(n) => leaf(cur, n as usize),
            None => None,
        },
        0xc6 => match cur.be_u32() {
            Some(n) => leaf(cur, n as usize),
            None => None,
        },
        0xdc => match cur.be_u16() {
            Some(n) => Some(n as u64),
            None => None,
        },
        0xdd => match cur.be_u32() {
            Some(n) => Some(n as u64),
            None => None,
        },
        0xde => match cur.be_u16() {
            Some(n) => Some((n as u64) * 2),
            None => None,
        },
        0xdf => match cur.be_u32() {
            Some(n) => Some((n as u64) * 2),
            None => None,
        },
        0xd4 => ext_leaf(cur, 1),
        0xd5 => ext_leaf(cur, 2),
        0xd6 => ext_leaf(cur, 4),
        0xd7 => ext_leaf(cur, 8),
        0xd8 => ext_leaf(cur, 16),
        0xc7 => match cur.take1() {
            Some(n) => ext_leaf(cur, n as usize),
            None => None,
        },
        0xc8 => match cur.be_u16() {
            Some(n) => ext_leaf(cur, n as usize),
            None => None,
        },
        0xc9 => match cur.be_u32() {
            Some(n) => ext_leaf(cur, n as usize),
            None => None,
        },
        _ => None,
    }
}

/// What is left to do for a stack of counts of values still to come, the innermost last:
/// where the outermost ends, when the whole may nest `levels` deep.
spec fn resume(s: Seq<u8>, p: int, stack: Seq<u64>, levels: nat) -> Option<int>
    decreases stack.len(),
{
    if stack.len() == 0 {
        Some(p)
    } else {
        match values_end(s, p, stack.last() as nat, (levels - stack.len() + 1) as nat) {
            None => None,
            Some(q) => resume(s, q, stack.drop_last(), levels),
        }
    }
}

/// One step of [`resume`]: the value at `p` is taken off the innermost count, and what it
/// announces becomes a new innermost count.
proof fn lemma_resume(s: Seq<u8>, p: int, rest: Seq<u64>, top: u64, levels: nat)
    requires
        top > 0,
        rest.len() < levels,
    ensures
        resume(s, p, rest.push(top), levels) == (match step(s, p) {
            None => None,
            Some((kids, q)) => if kids == 0 {
                resume(s, q, rest.push((top - 1) as u64), levels)
            } else if rest.len() + 1 >= levels {
                None
            } else if kids <= u64::MAX {
                resume(s, q, rest.push((top - 1) as u64).push(kids as u64), levels)
            } else {
                resume(s, p, rest.push(top), levels)
            },
        }),
{
    let room = (levels - rest.len()) as nat;
    let less = rest.push((top - 1) as u64);
    assert(rest.push(top).drop_last() =~= rest);
    assert(less.drop_last() =~= rest);
    assert(resume(s, p, rest.push(top), levels) == (match values_end(s, p, top as nat, room) {
        None => None,
        Some(q) => resume(s, q, rest, levels),
    }));
    if let Some((kids, q)) = step(s, p) {
        assert forall|q2: int| #[trigger] resume(s, q2, less, levels) == (match values_end(
            s,
            q2,
            (top - 1) as nat,
            room,
        ) {
            None => None,
            Some(q3) => resume(s, q3, rest, levels),
        }) by {}
        if 0 < kids <= u64::MAX && rest.len() + 1 < levels {
            let deeper = less.push(kids as u64);
            assert(deeper.drop_last() =~= less);
            assert(resume(s, q, deeper, levels) == (match values_end(s, q, kids, (room - 1) as nat) {
                None => None,
                Some(q2) => resume(s, q2, less, levels),
            }));
        }
    }
}

/// Whether `bytes` are exactly one top-level value with at most `max_depth` levels of
/// nesting: the top level is the first, and the children of a non-empty container are one
/// level deeper.
pub fn validate(bytes: &[u8], max_depth: u32) -> (valid: bool)
    ensures
        valid == valid_payload(bytes@, max_depth as nat),
{
    if bytes.len() == 0 || max_depth == 0 || max_depth > MAX_DEPTH {
        return false;
    }
    let levels: usize = max_depth as usize;
    let mut stack: Vec<u64> = Vec::new();
    stack.push(1);
    let mut cur = Cursor { buf: bytes, pos: 0 };
    proof {
        assert(stack@.drop_last() =~= Seq::<u64>::empty());
        let whole = values_end(bytes@, 0, 1, levels as nat);
        assert(resume(bytes@, 0, stack@, levels as nat) == whole) by {
            reveal_with_fuel(resume, 2);
        }
    }
    while stack.len() > 0
        invariant
            cur.wf(),
            cur.buf == bytes,
            levels == max_depth,
            1 <= levels <= 256,
            stack@.len() <= levels,
            resume(bytes@, cur.pos as int, stack@, levels as nat) == values_end(
                bytes@,
                0,
                1,
                levels as nat,
            ),
        decreases bytes@.len() - cur.pos, stack@.len(),
    {
        let ghost stack0 = stack@;
        let ghost pos0 = cur.pos as int;
        let top: u64 = stack[stack.len() - 1];
        stack.pop();
        assert(stack@ =~= stack0.drop_last());
        if top > 0 {
            stack.push(top - 1);
            proof {
                lemma_head_moves(bytes@, pos0);
                lemma_resume(bytes@, pos0, stack0.drop_last(), top, levels as nat);
                assert(stack0 =~= stack0.drop_last().push(top));
            }
            let kids: u64 = match value_step(&mut cur) {
                Some(kids) => kids,
                None => return false,
            };
            if kids > 0 {
                if stack.len() >= levels {
                    return false;
                }
                stack.push(kids);
            }
        }
    }
    cur.pos == bytes.len()
}

} // verus!
