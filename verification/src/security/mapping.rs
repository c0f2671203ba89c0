//! Generic access rights and what they stand for on an object class.

use vstd::prelude::*;
use crate::security::codec::{ACCESS_GENERIC_ALL, ACCESS_GENERIC_EXECUTE, ACCESS_GENERIC_READ, ACCESS_GENERIC_WRITE};

verus! {

/// The concrete rights that each generic right stands for.
#[allow(non_camel_case_types)]
#[derive(Clone, Copy, Debug, PartialEq, Eq, Structural)]
pub struct kacs_generic_mapping {
    pub read: u32,
    pub write: u32,
    pub execute: u32,
    pub all: u32,
}

/// The four generic rights.
pub const GENERIC_BITS: u32 = 0xf000_0000;

/// The rights for files.
pub fn peios_file_generic_mapping() -> (m: kacs_generic_mapping)
    ensures
        m.read == 0x0012_0089,
        m.write == 0x0012_0116,
        m.execute == 0x0012_00a0,
        m.all == 0x001f_01ff,
{
    kacs_generic_mapping { read: 0x0012_0089, write: 0x0012_0116, execute: 0x0012_00a0, all: 0x001f_01ff }
}

/// The rights for tokens.
pub fn peios_token_generic_mapping() -> (m: kacs_generic_mapping)
    ensures
        m.read == 0x0002_0008,
        m.write == 0x0004_00e0,
        m.execute == 0x0000_0004,
        m.all == 0x000f_01ff,
{
    kacs_generic_mapping { read: 0x0002_0008, write: 0x0004_00e0, execute: 0x0000_0004, all: 0x000f_01ff }
}

/// The rights that one generic right of a mask brings in.
pub open spec fn brought(mask: u32, right: u32, rights: u32) -> u32 {
    if mask & right != 0 {
        rights
    } else {
        0
    }
}

/// A mask with its generic rights replaced by what they stand for.
pub open spec fn mapped_mask(mask: u32, m: kacs_generic_mapping) -> u32 {
    (mask & !GENERIC_BITS) | (brought(mask, ACCESS_GENERIC_READ, m.read) | brought(
        mask,
        ACCESS_GENERIC_WRITE,
        m.write,
    ) | brought(mask, ACCESS_GENERIC_EXECUTE, m.execute) | brought(mask, ACCESS_GENERIC_ALL, m.all))
}

/// Replaces the generic rights of a mask; without a mapping the mask stays as it is.
pub fn peios_access_map_generic(mask: u32, m: Option<&kacs_generic_mapping>) -> (mapped: u32)
    ensures
        mapped == (match m {
            Some(map) => mapped_mask(mask, *map),
            None => mask,
        }),
{
    match m {
        Some(m) => {
            let read: u32 = if mask & ACCESS_GENERIC_READ != 0 { m.read } else { 0 };
            let write: u32 = if mask & ACCESS_GENERIC_WRITE != 0 { m.write } else { 0 };
            let execute: u32 = if mask & ACCESS_GENERIC_EXECUTE != 0 { m.execute } else { 0 };
            let all: u32 = if mask & ACCESS_GENERIC_ALL != 0 { m.all } else { 0 };
            (mask & !GENERIC_BITS) | (read | write | execute | all)
        },
        None => mask,
    }
}

/// Under a mapping to concrete rights no generic right is left, the concrete rights of the
/// mask stay, and mapping a second time changes nothing.
pub proof fn law_mapping_resolves_generic_rights(mask: u32, m: kacs_generic_mapping)
    requires
        (m.read | m.write | m.execute | m.all) & GENERIC_BITS == 0,
    ensures
        mapped_mask(mask, m) & GENERIC_BITS == 0,
        mapped_mask(mask, m) & (mask & !GENERIC_BITS) == mask & !GENERIC_BITS,
        mapped_mask(mapped_mask(mask, m), m) == mapped_mask(mask, m),
{
    let r = brought(mask, ACCESS_GENERIC_READ, m.read);
    let w = brought(mask, ACCESS_GENERIC_WRITE, m.write);
    let x = brought(mask, ACCESS_GENERIC_EXECUTE, m.execute);
    let a = brought(mask, ACCESS_GENERIC_ALL, m.all);
    let (mr, mw, mx, ma) = (m.read, m.write, m.execute, m.all);
    assert(r & 0xf000_0000 == 0 && w & 0xf000_0000 == 0 && x & 0xf000_0000 == 0 && a & 0xf000_0000 == 0)
        by (bit_vector)
        requires
            (mr | mw | mx | ma) & 0xf000_0000 == 0,
            r == mr || r == 0,
            w == mw || w == 0,
            x == mx || x == 0,
            a == ma || a == 0,
    ;
    let out = (mask & !0xf000_0000u32) | (r | w | x | a);
    assert(out & 0xf000_0000 == 0 && out & (mask & !0xf000_0000u32) == mask & !0xf000_0000u32 && out
        & 0x8000_0000 == 0 && out & 0x4000_0000 == 0 && out & 0x2000_0000 == 0 && out & 0x1000_0000 == 0 && (out
        & !0xf000_0000u32) | (0u32 | 0u32 | 0u32 | 0u32) == out) by (bit_vector)
        requires
            r & 0xf000_0000 == 0,
            w & 0xf000_0000 == 0,
            x & 0xf000_0000 == 0,
            a & 0xf000_0000 == 0,
            out == (mask & !0xf000_0000u32) | (r | w | x | a),
    ;
}

} // verus!
