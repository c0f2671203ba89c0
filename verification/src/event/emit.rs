//! Handing events to the kernel.

use vstd::prelude::*;
use crate::error::Errno;

verus! {

/// One event of a batch. Addresses are given as numbers.
#[allow(non_camel_case_types)]
#[derive(Clone, Copy, Debug, PartialEq, Eq, Structural)]
pub struct peios_event_entry {
    pub event_type: u64,
    pub event_type_len: u16,
    pub payload: u64,
    pub payload_len: u32,
}

/// One event as the kernel takes it: the reserved bytes have to be zero.
#[allow(non_camel_case_types)]
#[derive(Clone, Copy)]
pub struct kmes_emit_entry {
    pub event_type: u64,
    pub event_type_len: u16,
    pub pad0: [u8; 6],
    pub payload: u64,
    pub payload_len: u32,
    pub pad1: [u8; 4],
}

/// The entry for the kernel says what the caller's says, and its reserved bytes are zero.
pub open spec fn marshalled(e: peios_event_entry, k: kmes_emit_entry) -> bool {
    &&& k.event_type == e.event_type
    &&& k.event_type_len == e.event_type_len
    &&& k.payload == e.payload
    &&& k.payload_len == e.payload_len
    &&& k.pad0@ == seq![0u8, 0, 0, 0, 0, 0]
    &&& k.pad1@ == seq![0u8, 0, 0, 0]
}

/// The entries for the kernel, one for each of the caller's.
pub fn marshal_entries(src: &[peios_event_entry]) -> (out: Vec<kmes_emit_entry>)
    ensures
        out@.len() == src@.len(),
        forall|i: int| 0 <= i < src@.len() ==> marshalled(src@[i], #[trigger] out@[i]),
{
    let mut out: Vec<kmes_emit_entry> = Vec::new();
    let mut i: usize = 0;
    while i < src.len()
        invariant
            i <= src@.len(),
            out@.len() == i,
            forall|j: int| 0 <= j < i ==> marshalled(src@[j], #[trigger] out@[j]),
        decreases src@.len() - i,
    {
        let e: peios_event_entry = src[i];
        let pad0: [u8; 6] = [0, 0, 0, 0, 0, 0];
        let pad1: [u8; 4] = [0, 0, 0, 0];
        assert(pad0@ =~= seq![0u8, 0, 0, 0, 0, 0]);
        assert(pad1@ =~= seq![0u8, 0, 0, 0]);
        out.push(
            kmes_emit_entry {
                event_type: e.event_type,
                event_type_len: e.event_type_len,
                pad0,
                payload: e.payload,
                payload_len: e.payload_len,
                pad1,
            },
        );
        i = i + 1;
    }
    out
}

/// How many entries of a batch are looked at: none of one that is too long.
pub fn entries_to_emit(count: u32, max: u32) -> (n: usize)
    ensures
        n == (if count <= max {
            count as int
        } else {
            0
        }),
{
    if count <= max {
        count as usize
    } else {
        0
    }
}

/// The entries of a request to emit a batch, of which there must be at least one and no more
/// than the kernel takes at once.
pub fn batch_request(entries: Option<&[peios_event_entry]>, count: u32, max: u32) -> (r: Result<
    Vec<kmes_emit_entry>,
    Errno,
>)
    requires
        entries matches Some(e) ==> count <= max ==> e@.len() == count,
    ensures
        match r {
            Ok(out) => {
                &&& entries is Some
                &&& 1 <= count <= max
                &&& out@.len() == count
                &&& forall|i: int| 0 <= i < count ==> marshalled(entries->Some_0@[i], #[trigger] out@[i])
            },
            Err(e) => e == Errno::Inval && (entries is None || count == 0 || count > max),
        },
{
    if count == 0 || count > max {
        return Err(Errno::Inval);
    }
    match entries {
        Some(entries) => Ok(marshal_entries(entries)),
        None => Err(Errno::Inval),
    }
}

} // verus!
