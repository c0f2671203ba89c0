//! Conventions of the C boundary: optional buffers given as a pointer and a length, and
//! outputs that the caller sizes by probing.

use vstd::prelude::*;
use crate::error::Errno;

verus! {

/// A buffer as a caller hands it over: a null pointer with some length, or bytes.
#[derive(Clone, Copy)]
pub enum Span<'a> {
    Null(usize),
    At(&'a [u8]),
}

impl<'a> Span<'a> {
    /// The claimed length.
    pub open spec fn len(&self) -> nat {
        match self {
            Span::Null(n) => *n as nat,
            Span::At(s) => s@.len(),
        }
    }

    /// The bytes that are there.
    pub open spec fn bytes(&self) -> Seq<u8> {
        match self {
            Span::Null(_) => Seq::empty(),
            Span::At(s) => s@,
        }
    }

    /// A null pointer may only claim an empty buffer.
    pub open spec fn consistent(&self) -> bool {
        match self {
            Span::Null(n) => *n == 0,
            Span::At(_) => true,
        }
    }
}

/// The bytes of a buffer, or an error if it is null with a length other than zero.
pub fn opt_slice<'a>(span: Span<'a>) -> (r: Result<&'a [u8], Errno>)
    ensures
        match r {
            Ok(s) => span.consistent() && s@ == span.bytes(),
            Err(e) => !span.consistent() && e == Errno::Inval,
        },
{
    match span {
        Span::Null(n) => {
            if n != 0 {
                return Err(Errno::Inval);
            }
            let empty: &[u8] = &[];
            assert(empty@ =~= Seq::<u8>::empty());
            Ok(empty)
        },
        Span::At(s) => Ok(s),
    }
}

/// Whether an address and a length may go together: only an empty buffer may be null.
pub fn ptr_len_valid(addr: u64, len: usize) -> (valid: bool)
    ensures
        valid == (len == 0 || addr != 0),
{
    len == 0 || addr != 0
}

/// A length as the kernel takes it, if it fits.
pub fn u32_len(len: usize) -> (r: Result<u32, Errno>)
    ensures
        r == (if len <= u32::MAX {
            Ok::<u32, Errno>(len as u32)
        } else {
            Err(Errno::Inval)
        }),
{
    if len as u64 > u32::MAX as u64 {
        Err(Errno::Inval)
    } else {
        Ok(len as u32)
    }
}

/// What to do with an output of some length when the caller offers a buffer.
#[derive(Clone, Copy, Debug, PartialEq, Eq, Structural)]
pub enum Emit {
    /// Only report the length.
    Probe,
    /// Write the output, then report the length.
    Write,
}

/// The output convention: a capacity of zero probes; otherwise the buffer has to be there
/// and large enough.
pub open spec fn emit_rule(need: nat, cap: nat, null: bool) -> Result<Emit, Errno> {
    if cap == 0 {
        Ok(Emit::Probe)
    } else if null {
        Err(Errno::Inval)
    } else if need > cap {
        Err(Errno::Range)
    } else {
        Ok(Emit::Write)
    }
}

/// Decides between probing, writing and refusing for an output of `need` bytes.
pub fn emit(need: usize, cap: usize, null: bool) -> (r: Result<Emit, Errno>)
    ensures
        r == emit_rule(need as nat, cap as nat, null),
{
    if cap == 0 {
        Ok(Emit::Probe)
    } else if null {
        Err(Errno::Inval)
    } else if need > cap {
        Err(Errno::Range)
    } else {
        Ok(Emit::Write)
    }
}

/// Probing first and then offering a buffer of the probed size always succeeds.
pub proof fn law_probe_then_fill(need: nat)
    ensures
        emit_rule(need, 0, true) == Ok::<Emit, Errno>(Emit::Probe),
        need > 0 ==> emit_rule(need, need, false) == Ok::<Emit, Errno>(Emit::Write),
{
}

} // verus!
