//! A writer that collects one payload and remembers its first error.

use vstd::prelude::*;
use vstd::utf8::valid_utf8;
use crate::abi::{opt_slice, Span};
use crate::bytes::{is_utf8, put_be64, put_slice};
use crate::error::Errno;
use crate::msgpack::cursor::{validate, MAX_DEPTH};
use crate::msgpack::encode::{
    array_header, bin_bytes, bool_bytes, enc_array, enc_bin, enc_ext, enc_i64, enc_map, enc_str, enc_u64, ext_bytes,
    float_bytes, int_bytes, map_header, nil_bytes, str_bytes,
};
use crate::msgpack::model::valid_payload;

verus! {

/// An encoder. Once an error is latched, writes do nothing until a reset.
#[allow(non_camel_case_types)]
pub struct peios_mp_writer {
    pub buf: Vec<u8>,
    pub error: Option<Errno>,
}

impl peios_mp_writer {
    /// What appending `bytes`, or failing where there are none, makes of the writer.
    pub open spec fn appended(&self, bytes: Option<Seq<u8>>) -> (Seq<u8>, Option<Errno>) {
        if self.error is Some {
            (self.buf@, self.error)
        } else {
            match bytes {
                Some(b) => (self.buf@ + b, None),
                None => (self.buf@, Some(Errno::Inval)),
            }
        }
    }

    /// The buffer and the latched error.
    pub open spec fn state(&self) -> (Seq<u8>, Option<Errno>) {
        (self.buf@, self.error)
    }

    /// Latches the error of a step, unless one is latched already.
    pub fn run(&mut self, r: Result<(), Errno>)
        ensures
            final(self).buf == old(self).buf,
            final(self).error == (if old(self).error is Some {
                old(self).error
            } else {
                match r {
                    Ok(()) => None,
                    Err(e) => Some(e),
                }
            }),
    {
        if self.error.is_none() {
            if let Err(e) = r {
                self.error = Some(e);
            }
        }
    }
}

/// A new, empty writer.
pub fn peios_mp_writer_new() -> (w: peios_mp_writer)
    ensures
        w.state() == (Seq::<u8>::empty(), None::<Errno>),
{
    peios_mp_writer { buf: Vec::new(), error: None }
}

/// Clears the buffer and the latched error.
pub fn peios_mp_writer_reset(w: &mut peios_mp_writer)
    ensures
        final(w).state() == (Seq::<u8>::empty(), None::<Errno>),
{
    w.buf.clear();
    w.error = None;
}

pub fn peios_mp_write_nil(w: &mut peios_mp_writer)
    ensures
        final(w).state() == old(w).appended(Some(nil_bytes())),
{
    if w.error.is_none() {
        w.buf.push(0xc0);
        assert(w.buf@ =~= old(w).buf@ + nil_bytes());
    }
}

pub fn peios_mp_write_bool(w: &mut peios_mp_writer, v: bool)
    ensures
        final(w).state() == old(w).appended(Some(bool_bytes(v))),
{
    if w.error.is_none() {
        w.buf.push(if v { 0xc3 } else { 0xc2 });
        assert(w.buf@ =~= old(w).buf@ + bool_bytes(v));
    }
}

pub fn peios_mp_write_int(w: &mut peios_mp_writer, v: i64)
    ensures
        final(w).state() == old(w).appended(Some(int_bytes(v as int))),
{
    if w.error.is_none() {
        enc_i64(&mut w.buf, v);
    }
}

pub fn peios_mp_write_uint(w: &mut peios_mp_writer, v: u64)
    ensures
        final(w).state() == old(w).appended(Some(int_bytes(v as int))),
{
    if w.error.is_none() {
        enc_u64(&mut w.buf, v);
    }
}

/// Writes a 64-bit float, given by its bit pattern.
pub fn peios_mp_write_float(w: &mut peios_mp_writer, bits: u64)
    ensures
        final(w).state() == old(w).appended(Some(float_bytes(bits))),
{
    if w.error.is_none() {
        w.buf.push(0xcb);
        put_be64(&mut w.buf, bits);
        assert(w.buf@ =~= old(w).buf@ + float_bytes(bits));
    }
}

/// Writes text; anything that is not UTF-8 latches an error.
pub fn peios_mp_write_str(w: &mut peios_mp_writer, s: Span)
    ensures
        final(w).state() == old(w).appended(
            if s.consistent() && valid_utf8(s.bytes()) && s.bytes().len() <= u32::MAX {
                Some(str_bytes(s.bytes()))
            } else {
                None
            },
        ),
{
    if w.error.is_none() {
        let r: Result<(), Errno> = match opt_slice(s) {
            Ok(text) => if is_utf8(text) {
                enc_str(&mut w.buf, text)
            } else {
                Err(Errno::Inval)
            },
            Err(e) => Err(e),
        };
        w.run(r);
    }
}

/// Writes a blob of bytes.
pub fn peios_mp_write_bin(w: &mut peios_mp_writer, b: Span)
    ensures
        final(w).state() == old(w).appended(
            if b.consistent() && b.bytes().len() <= u32::MAX {
                Some(bin_bytes(b.bytes()))
            } else {
                None
            },
        ),
{
    if w.error.is_none() {
        let r: Result<(), Errno> = match opt_slice(b) {
            Ok(data) => enc_bin(&mut w.buf, data),
            Err(e) => Err(e),
        };
        w.run(r);
    }
}

/// Writes an array header; the elements are written after it.
pub fn peios_mp_write_array(w: &mut peios_mp_writer, count: u32)
    ensures
        final(w).state() == old(w).appended(Some(array_header(count as int))),
{
    if w.error.is_none() {
        enc_array(&mut w.buf, count);
    }
}

/// Writes a map header; the keys and values are written after it.
pub fn peios_mp_write_map(w: &mut peios_mp_writer, count: u32)
    ensures
        final(w).state() == old(w).appended(Some(map_header(count as int))),
{
    if w.error.is_none() {
        enc_map(&mut w.buf, count);
    }
}

/// Writes an extension value.
pub fn peios_mp_write_ext(w: &mut peios_mp_writer, ext_type: i8, b: Span)
    ensures
        final(w).state() == old(w).appended(
            if b.consistent() && b.bytes().len() <= u32::MAX {
                Some(ext_bytes(ext_type, b.bytes()))
            } else {
                None
            },
        ),
{
    if w.error.is_none() {
        let r: Result<(), Errno> = match opt_slice(b) {
            Ok(data) => enc_ext(&mut w.buf, ext_type, data),
            Err(e) => Err(e),
        };
        w.run(r);
    }
}

/// Appends bytes that are encoded already, as they are.
pub fn peios_mp_write_raw(w: &mut peios_mp_writer, b: Span)
    ensures
        final(w).state() == old(w).appended(
            if b.consistent() {
                Some(b.bytes())
            } else {
                None
            },
        ),
{
    if w.error.is_none() {
        match opt_slice(b) {
            Ok(data) => {
                put_slice(&mut w.buf, data);
            },
            Err(e) => {
                w.run(Err(e));
            },
        }
    }
}

/// The payload, if it is exactly one well-formed value; a malformed one latches an error.
pub fn peios_mp_writer_bytes(w: &mut peios_mp_writer) -> (r: Result<&[u8], Errno>)
    ensures
        final(w).buf@ == old(w).buf@,
        match old(w).error {
            Some(e) => final(w).error == Some(e) && r == Err::<&[u8], Errno>(e),
            None => if valid_payload(old(w).buf@, MAX_DEPTH as nat) {
                final(w).error is None && r is Ok && r->Ok_0@ == old(w).buf@
            } else {
                final(w).error == Some(Errno::Inval) && r == Err::<&[u8], Errno>(Errno::Inval)
            },
        },
{
    if let Some(e) = w.error {
        return Err(e);
    }
    if !validate(w.buf.as_slice(), MAX_DEPTH) {
        w.error = Some(Errno::Inval);
        return Err(Errno::Inval);
    }
    Ok(w.buf.as_slice())
}

/// The latched error, if any.
pub fn peios_mp_writer_error(w: &peios_mp_writer) -> (e: Option<Errno>)
    ensures
        e == w.error,
{
    w.error
}

/// Once an error is latched, appending anything leaves the writer as it is.
pub proof fn law_writer_error_is_sticky(w: peios_mp_writer, bytes: Option<Seq<u8>>)
    requires
        w.error is Some,
    ensures
        w.appended(bytes) == w.state(),
{
}

} // verus!
