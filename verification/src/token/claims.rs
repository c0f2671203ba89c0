//! Claims: named security attributes with typed values, in the form that a token carries them.

use vstd::prelude::*;
use crate::abi::{opt_slice, Span};
use crate::bytes::{
    law_le16_reads_back, law_le32_reads_back, law_le64_reads_back, le16, le16_at, le32, le32_at, le64, le64_at, put_le16,
    put_le32, put_le64, put_slice,
};
use crate::error::Errno;
use crate::security::rules::{
    claim_sound, claim_type_known, claim_type_scalar, claim_value_sound, utf16_ends, utf16_nul_at, CLAIM_TYPE_BOOLEAN,
    CLAIM_TYPE_INT64, CLAIM_TYPE_OCTET, CLAIM_TYPE_SID, CLAIM_TYPE_STRING, CLAIM_TYPE_UINT64,
};
use crate::security::sid::{peios_sid_valid, sid_at, sid_valid};
use crate::utf16::{cstr16, lemma_text16_even, stringable, text16, utf16le_cstr};

verus! {

/// Claim names are shorter than this.
pub const CLAIM_NAME_LIMIT: usize = 65536;

/// One value of a claim: a number or bytes, by the claim's value type.
#[allow(non_camel_case_types)]
#[derive(Clone, Copy)]
pub struct peios_token_claim_value<'a> {
    pub scalar: u64,
    pub bytes: Span<'a>,
}

/// A named and typed attribute with any number of values. `None` stands for a null pointer.
#[allow(non_camel_case_types)]
#[derive(Clone, Copy)]
pub struct peios_token_claim<'a> {
    pub name: Option<&'a [u8]>,
    pub value_type: u16,
    pub flags: u32,
    pub values: Option<&'a [peios_token_claim_value<'a>]>,
    pub value_count: u32,
}

/// What a value says: its number, and its bytes unless they are a null pointer with a length.
#[verifier::ext_equal]
pub struct ClaimValueView {
    pub scalar: u64,
    pub bytes: Option<Seq<u8>>,
}

impl<'a> View for peios_token_claim_value<'a> {
    type V = ClaimValueView;

    open spec fn view(&self) -> ClaimValueView {
        ClaimValueView {
            scalar: self.scalar,
            bytes: if self.bytes.consistent() {
                Some(self.bytes.bytes())
            } else {
                None
            },
        }
    }
}

/// What values say.
pub open spec fn value_views<'a>(values: Seq<peios_token_claim_value<'a>>) -> Seq<ClaimValueView> {
    Seq::new(values.len(), |i: int| values[i]@)
}

impl<'a> peios_token_claim<'a> {
    /// There are as many values as the count says.
    pub open spec fn wf(&self) -> bool {
        self.values matches Some(v) ==> v@.len() == self.value_count
    }

    pub open spec fn value_seq(&self) -> Seq<ClaimValueView> {
        match self.values {
            Some(v) => value_views(v@),
            None => Seq::empty(),
        }
    }
}

/// What the data region holds for a value that is not a number: terminated UTF-16 text, a
/// SID, or bytes behind their length. Nothing if the value is not of the type.
pub open spec fn value_bytes(t: u16, v: ClaimValueView) -> Option<Seq<u8>> {
    let b = v.bytes->Some_0;
    if v.bytes is None {
        None
    } else if t == CLAIM_TYPE_STRING {
        if stringable(b) {
            Some(cstr16(b))
        } else {
            None
        }
    } else if t == CLAIM_TYPE_SID {
        if sid_valid(b) {
            Some(b)
        } else {
            None
        }
    } else if b.len() <= u32::MAX {
        Some(le32(b.len() as u32) + b)
    } else {
        None
    }
}

/// Every value is of the type.
pub open spec fn values_fit(t: u16, vals: Seq<ClaimValueView>) -> bool {
    claim_type_scalar(t) || forall|i: int| 0 <= i < vals.len() ==> value_bytes(t, #[trigger] vals[i]) is Some
}

/// The data region: nothing for numbers, else the bytes of the values in order.
pub open spec fn data_bytes(t: u16, vals: Seq<ClaimValueView>) -> Seq<u8>
    decreases vals.len(),
{
    if claim_type_scalar(t) || vals.len() == 0 {
        Seq::empty()
    } else {
        data_bytes(t, vals.drop_last()) + value_bytes(t, vals.last())->Some_0
    }
}

/// The length of the first `n` slots.
pub open spec fn slots_len(t: u16, n: int) -> int {
    if claim_type_scalar(t) {
        8 * n
    } else {
        4 * n
    }
}

/// The slots: the numbers themselves, or where in the entry each value's bytes start.
pub open spec fn slot_bytes(t: u16, vals: Seq<ClaimValueView>, data_at: int) -> Seq<u8>
    decreases vals.len(),
{
    if vals.len() == 0 {
        Seq::empty()
    } else {
        slot_bytes(t, vals.drop_last(), data_at) + if claim_type_scalar(t) {
            le64(vals.last().scalar)
        } else {
            le32((data_at + data_bytes(t, vals.drop_last()).len()) as u32)
        }
    }
}

/// Where in the entry each of the first `n` slots is.
pub open spec fn offset_bytes(t: u16, n: nat, slots_at: int) -> Seq<u8>
    decreases n,
{
    if n == 0 {
        Seq::empty()
    } else {
        offset_bytes(t, (n - 1) as nat, slots_at) + le32((slots_at + slots_len(t, n - 1)) as u32)
    }
}

/// Where the slots start.
pub open spec fn slots_at(n: nat) -> int {
    (16 + 4 * n) as int
}

/// Where the data region starts.
pub open spec fn data_at(t: u16, n: nat) -> int {
    slots_at(n) + slots_len(t, n as int)
}

/// Where the name starts.
pub open spec fn name_at(t: u16, vals: Seq<ClaimValueView>) -> int {
    data_at(t, vals.len()) + data_bytes(t, vals).len()
}

/// The fixed part of an entry.
pub open spec fn claim_header(t: u16, flags: u32, vals: Seq<ClaimValueView>) -> Seq<u8> {
    le32(name_at(t, vals) as u32) + le16(t) + le16(0) + le32(flags) + le32(vals.len() as u32)
}

/// A claim as an entry: the fixed part, the places of the slots, the slots, the data region
/// and the name.
pub open spec fn claim_bytes(name: Seq<u8>, t: u16, flags: u32, vals: Seq<ClaimValueView>) -> Seq<u8> {
    claim_header(t, flags, vals) + offset_bytes(t, vals.len(), slots_at(vals.len())) + slot_bytes(
        t,
        vals,
        data_at(t, vals.len()),
    ) + data_bytes(t, vals) + cstr16(name)
}

/// The entry of a claim as it is handed over; nothing if it cannot be one.
pub open spec fn claim_encoding(c: peios_token_claim) -> Option<Seq<u8>> {
    let vals = c.value_seq();
    if c.name is None || c.name->Some_0@.len() >= CLAIM_NAME_LIMIT || !stringable(c.name->Some_0@)
        || !claim_type_known(c.value_type) || (c.value_count > 0 && c.values is None) || !values_fit(c.value_type, vals)
        || name_at(c.value_type, vals) > u32::MAX {
        None
    } else {
        Some(claim_bytes(c.name->Some_0@, c.value_type, c.flags, vals))
    }
}

/// The data region only grows.
proof fn lemma_data_grows(t: u16, vals: Seq<ClaimValueView>, i: int)
    requires
        0 <= i <= vals.len(),
    ensures
        data_bytes(t, vals.take(i)).len() <= data_bytes(t, vals).len(),
    decreases vals.len(),
{
    if i == vals.len() {
        assert(vals.take(i) =~= vals);
    } else {
        lemma_data_grows(t, vals.drop_last(), i);
        assert(vals.drop_last().take(i) =~= vals.take(i));
    }
}

/// The bytes of one value in the data region.
fn value_data(t: u16, v: &peios_token_claim_value) -> (r: Option<Vec<u8>>)
    ensures
        match r {
            Some(b) => value_bytes(t, v@) == Some(b@),
            None => value_bytes(t, v@) is None,
        },
{
    let b: &[u8] = match opt_slice(v.bytes) {
        Ok(b) => b,
        Err(_) => return None,
    };
    if t == CLAIM_TYPE_STRING {
        return utf16le_cstr(b);
    }
    let mut out: Vec<u8> = Vec::new();
    if t == CLAIM_TYPE_SID {
        if !peios_sid_valid(Some(b)) {
            return None;
        }
    } else {
        if b.len() as u64 > u32::MAX as u64 {
            return None;
        }
        put_le32(&mut out, b.len() as u32);
    }
    put_slice(&mut out, b);
    assert(out@ =~= value_bytes(t, v@)->Some_0);
    Some(out)
}

/// The slots and the data region of a claim's values; nothing if one does not fit its type or
/// they do not fit in an entry.
fn encode_values(t: u16, values: &[peios_token_claim_value]) -> (r: Option<(Vec<u8>, Vec<u8>)>)
    requires
        values@.len() <= u32::MAX,
    ensures
        match r {
            Some((slots, data)) => {
                let vals = value_views(values@);
                &&& values_fit(t, vals)
                &&& name_at(t, vals) <= u32::MAX
                &&& slots@ == slot_bytes(t, vals, data_at(t, vals.len()))
                &&& data@ == data_bytes(t, vals)
            },
            None => !values_fit(t, value_views(values@)) || name_at(t, value_views(values@)) > u32::MAX,
        },
{
    let scalar: bool = t == CLAIM_TYPE_INT64 || t == CLAIM_TYPE_UINT64 || t == CLAIM_TYPE_BOOLEAN;
    let count: usize = values.len();
    let width: u64 = if scalar { 8 } else { 4 };
    let at: u64 = 16 + 4 * (count as u64) + width * (count as u64);
    if at > u32::MAX as u64 {
        return None;
    }
    let mut slots: Vec<u8> = Vec::new();
    let mut data: Vec<u8> = Vec::new();
    let mut i: usize = 0;
    let ghost vals = value_views(values@);
    assert(vals.take(0) =~= Seq::<ClaimValueView>::empty());
    while i < count
        invariant
            i <= count,
            count == values@.len(),
            vals == value_views(values@),
            scalar == claim_type_scalar(t),
            at == data_at(t, vals.len()),
            at <= u32::MAX,
            slots@ == slot_bytes(t, vals.take(i as int), at as int),
            data@ == data_bytes(t, vals.take(i as int)),
            scalar || forall|j: int| 0 <= j < i ==> value_bytes(t, #[trigger] vals[j]) is Some,
            at + data@.len() <= u32::MAX,
        decreases count - i,
    {
        let ghost next = vals.take(i + 1);
        assert(vals[i as int] == values@[i as int]@);
        assert(next.drop_last() =~= vals.take(i as int));
        assert(next.last() == vals[i as int]);
        if scalar {
            put_le64(&mut slots, values[i].scalar);
        } else {
            put_le32(&mut slots, (at + data.len() as u64) as u32);
            let b: Vec<u8> = match value_data(t, &values[i]) {
                Some(b) => b,
                None => {
                    assert(value_bytes(t, vals[i as int]) is None);
                    return None;
                },
            };
            proof {
                lemma_data_grows(t, vals, i + 1);
            }
            if b.len() as u64 > u32::MAX as u64 - at - data.len() as u64 {
                return None;
            }
            put_slice(&mut data, b.as_slice());
        }
        i = i + 1;
    }
    assert(vals.take(count as int) =~= vals);
    Some((slots, data))
}

/// The entry of a claim.
pub fn encode_claim(claim: &peios_token_claim) -> (r: Result<Vec<u8>, Errno>)
    requires
        claim.wf(),
    ensures
        match r {
            Ok(b) => claim_encoding(*claim) == Some(b@) && claim_sound(b@),
            Err(e) => e == Errno::Inval && claim_encoding(*claim) is None,
        },
{
    let name: Vec<u8> = match claim.name {
        Some(name) => {
            if name.len() >= CLAIM_NAME_LIMIT {
                return Err(Errno::Inval);
            }
            match utf16le_cstr(name) {
                Some(name) => name,
                None => return Err(Errno::Inval),
            }
        },
        None => return Err(Errno::Inval),
    };
    let t: u16 = claim.value_type;
    if t != CLAIM_TYPE_INT64 && t != CLAIM_TYPE_UINT64 && t != CLAIM_TYPE_STRING && t != CLAIM_TYPE_SID && t
        != CLAIM_TYPE_BOOLEAN && t != CLAIM_TYPE_OCTET {
        return Err(Errno::Inval);
    }
    let none: &[peios_token_claim_value] = &[];
    let values: &[peios_token_claim_value] = match claim.values {
        Some(values) => values,
        None => {
            if claim.value_count > 0 {
                return Err(Errno::Inval);
            }
            none
        },
    };
    let ghost vals = claim.value_seq();
    assert(value_views(values@) =~= vals);
    let (slots, data) = match encode_values(t, values) {
        Some(parts) => parts,
        None => return Err(Errno::Inval),
    };
    let count: u32 = values.len() as u32;
    let scalar: bool = t == CLAIM_TYPE_INT64 || t == CLAIM_TYPE_UINT64 || t == CLAIM_TYPE_BOOLEAN;
    let width: u64 = if scalar { 8 } else { 4 };
    let slots_start: u64 = 16 + 4 * (count as u64);
    let name_off: u64 = slots_start + width * (count as u64) + data.len() as u64;
    let mut s: Vec<u8> = Vec::new();
    put_le32(&mut s, name_off as u32);
    put_le16(&mut s, t);
    put_le16(&mut s, 0);
    put_le32(&mut s, claim.flags);
    put_le32(&mut s, count);
    let ghost header = claim_header(t, claim.flags, vals);
    assert(s@ =~= header);
    let mut i: u32 = 0;
    assert(s@ =~= header + offset_bytes(t, 0, slots_at(vals.len())));
    while i < count
        invariant
            i <= count,
            count == vals.len(),
            slots_start == slots_at(vals.len()),
            scalar == claim_type_scalar(t),
            width == (if scalar { 8u64 } else { 4u64 }),
            data_at(t, vals.len()) <= u32::MAX,
            s@ == header + offset_bytes(t, i as nat, slots_at(vals.len())),
        decreases count - i,
    {
        put_le32(&mut s, (slots_start + width * (i as u64)) as u32);
        i = i + 1;
        assert(s@ =~= header + offset_bytes(t, i as nat, slots_at(vals.len())));
    }
    put_slice(&mut s, slots.as_slice());
    put_slice(&mut s, data.as_slice());
    put_slice(&mut s, name.as_slice());
    proof {
        law_encoded_claim_is_sound(claim.name->Some_0@, t, claim.flags, vals);
    }
    Ok(s)
}

proof fn lemma_offsets(t: u16, n: nat, at: int, i: int)
    ensures
        offset_bytes(t, n, at).len() == 4 * n,
        0 <= i < n ==> offset_bytes(t, n, at).subrange(4 * i, 4 * i + 4) == le32((at + slots_len(t, i)) as u32),
    decreases n,
{
    if n > 0 {
        lemma_offsets(t, (n - 1) as nat, at, i);
        let front = offset_bytes(t, (n - 1) as nat, at);
        if 0 <= i < n - 1 {
            assert(offset_bytes(t, n, at).subrange(4 * i, 4 * i + 4) =~= front.subrange(4 * i, 4 * i + 4));
        } else if i == n - 1 {
            assert(offset_bytes(t, n, at).subrange(4 * i, 4 * i + 4) =~= le32((at + slots_len(t, i)) as u32));
        }
    }
}

/// The slot with index `i`.
pub open spec fn slot_of(t: u16, vals: Seq<ClaimValueView>, at: int, i: int) -> Seq<u8> {
    if claim_type_scalar(t) {
        le64(vals[i].scalar)
    } else {
        le32((at + data_bytes(t, vals.take(i)).len()) as u32)
    }
}

proof fn lemma_slots(t: u16, vals: Seq<ClaimValueView>, at: int, i: int)
    ensures
        slot_bytes(t, vals, at).len() == slots_len(t, vals.len() as int),
        0 <= i < vals.len() ==> slot_bytes(t, vals, at).subrange(slots_len(t, i), slots_len(t, i + 1)) == slot_of(
            t,
            vals,
            at,
            i,
        ),
    decreases vals.len(),
{
    if vals.len() > 0 {
        let front = vals.drop_last();
        lemma_slots(t, front, at, i);
        let (a, b) = (slots_len(t, i), slots_len(t, i + 1));
        if 0 <= i < vals.len() - 1 {
            assert(front.take(i) =~= vals.take(i));
            assert(front[i] == vals[i]);
            assert(slot_bytes(t, vals, at).subrange(a, b) =~= slot_bytes(t, front, at).subrange(a, b));
        } else if i == vals.len() - 1 {
            assert(vals.take(i) =~= front);
            assert(slot_bytes(t, vals, at).subrange(a, b) =~= slot_of(t, vals, at, i));
        }
    }
}

proof fn lemma_data(t: u16, vals: Seq<ClaimValueView>, i: int)
    requires
        !claim_type_scalar(t),
        0 <= i < vals.len(),
    ensures
        ({
            let start = data_bytes(t, vals.take(i)).len() as int;
            let b = value_bytes(t, vals[i])->Some_0;
            &&& start + b.len() <= data_bytes(t, vals).len()
            &&& data_bytes(t, vals).subrange(start, start + b.len()) == b
        }),
    decreases vals.len(),
{
    let front = vals.drop_last();
    let start = data_bytes(t, vals.take(i)).len() as int;
    let b = value_bytes(t, vals[i])->Some_0;
    if i < vals.len() - 1 {
        lemma_data(t, front, i);
        assert(front.take(i) =~= vals.take(i));
        assert(front[i] == vals[i]);
        assert(data_bytes(t, vals).subrange(start, start + b.len()) =~= data_bytes(t, front).subrange(
            start,
            start + b.len(),
        ));
    } else {
        assert(vals.take(i) =~= front);
        assert(data_bytes(t, vals).subrange(start, start + b.len()) =~= b);
    }
}

/// Claims that have an entry.
pub open spec fn encodable(name: Seq<u8>, t: u16, vals: Seq<ClaimValueView>) -> bool {
    &&& stringable(name)
    &&& claim_type_known(t)
    &&& values_fit(t, vals)
    &&& name_at(t, vals) <= u32::MAX
}

/// Where in an entry the slot of the value with index `i` is.
pub open spec fn slot_place(s: Seq<u8>, i: int) -> int {
    le32_at(s, 16 + 4 * i) as int
}

/// The fixed part of an entry and its name read back.
#[verifier::spinoff_prover]
pub proof fn law_claim_header_reads_back(name: Seq<u8>, t: u16, flags: u32, vals: Seq<ClaimValueView>)
    requires
        encodable(name, t, vals),
    ensures
        ({
            let s = claim_bytes(name, t, flags, vals);
            &&& le16_at(s, 4) == t
            &&& le32_at(s, 8) == flags
            &&& le32_at(s, 12) == vals.len()
            &&& le32_at(s, 0) + cstr16(name).len() == s.len()
            &&& s.subrange(le32_at(s, 0) as int, s.len() as int) == cstr16(name)
            &&& s.len() >= 16 + 4 * vals.len()
            &&& le16_at(s, 6) == 0
            &&& le32_at(s, 0) == 16 + 4 * vals.len() + (if t == 1 || t == 2 || t == 6 {
                8 * vals.len() as int
            } else {
                4 * vals.len() as int
            }) + data_bytes(t, vals).len()
        }),
{
    let s = claim_bytes(name, t, flags, vals);
    let n = vals.len();
    let at = name_at(t, vals) as u32;
    assert(s.subrange(6, 8) =~= le16(0));
    law_le16_reads_back(s, 6, 0);
    lemma_offsets(t, n, slots_at(n), 0);
    lemma_slots(t, vals, data_at(t, n), 0);
    assert(s.subrange(0, 4) =~= le32(at));
    law_le32_reads_back(s, 0, at);
    assert(s.subrange(4, 6) =~= le16(t));
    law_le16_reads_back(s, 4, t);
    assert(s.subrange(8, 12) =~= le32(flags));
    law_le32_reads_back(s, 8, flags);
    assert(s.subrange(12, 16) =~= le32(n as u32));
    law_le32_reads_back(s, 12, n as u32);
    assert(s.subrange(at as int, s.len() as int) =~= cstr16(name));
}

/// A value reads back through its slot: a number is in the slot, and the slot of any other
/// value leads to its bytes.
#[verifier::spinoff_prover]
#[verifier::rlimit(40)]
pub proof fn law_claim_value_reads_back(
    name: Seq<u8>,
    t: u16,
    flags: u32,
    vals: Seq<ClaimValueView>,
    i: int,
)
    requires
        encodable(name, t, vals),
        0 <= i < vals.len(),
    ensures
        ({
            let s = claim_bytes(name, t, flags, vals);
            let slot = slot_place(s, i);
            if claim_type_scalar(t) {
                slot == 16 + 4 * vals.len() + 8 * i && slot + 8 <= s.len() && le64_at(s, slot) == vals[i].scalar
            } else {
                let at = le32_at(s, slot) as int;
                let b = value_bytes(t, vals[i])->Some_0;
                &&& slot == 16 + 4 * vals.len() + 4 * i
                &&& at == 16 + 8 * vals.len() + data_bytes(t, vals.take(i)).len()
                &&& slot + 4 <= s.len()
                &&& at + b.len() <= s.len()
                &&& s.subrange(at, at + b.len()) == b
            }
        }),
{
    let s = claim_bytes(name, t, flags, vals);
    let n = vals.len();
    let header = claim_header(t, flags, vals);
    let offsets = offset_bytes(t, n, slots_at(n));
    let slots = slot_bytes(t, vals, data_at(t, n));
    let data = data_bytes(t, vals);
    lemma_offsets(t, n, slots_at(n), i);
    lemma_slots(t, vals, data_at(t, n), i);
    let place = slots_at(n) + slots_len(t, i);
    assert(header.len() == 16);
    assert(s.subrange(16 + 4 * i, 16 + 4 * i + 4) =~= offsets.subrange(4 * i, 4 * i + 4));
    law_le32_reads_back(s, 16 + 4 * i, place as u32);
    assert(slot_place(s, i) == place);
    let (a, b) = (slots_len(t, i), slots_len(t, i + 1));
    assert(s.subrange(place, place + (b - a)) =~= slots.subrange(a, b));
    if claim_type_scalar(t) {
        law_le64_reads_back(s, place, vals[i].scalar);
    } else {
        let start = data_bytes(t, vals.take(i)).len() as int;
        let v = value_bytes(t, vals[i])->Some_0;
        lemma_data_grows(t, vals, i);
        lemma_data(t, vals, i);
        let at = data_at(t, n) + start;
        law_le32_reads_back(s, place, at as u32);
        assert(s.subrange(at, at + v.len()) =~= data.subrange(start, start + v.len()));
    }
}

/// Terminated text inside an entry ends there.
proof fn lemma_cstr16_ends(s: Seq<u8>, at: int, text: Seq<u8>)
    requires
        0 <= at,
        at + cstr16(text).len() <= s.len(),
        s.subrange(at, at + cstr16(text).len()) == cstr16(text),
    ensures
        utf16_ends(s, at),
{
    let chars = vstd::utf8::decode_utf8(text);
    lemma_text16_even(chars);
    let k = text16(chars).len() as int / 2;
    let t = s.subrange(at, at + cstr16(text).len());
    assert(s[at + 2 * k] == t[2 * k] && s[at + 2 * k + 1] == t[2 * k + 1]);
    assert(utf16_nul_at(s, at, k));
}

/// A SID inside an entry is found there.
proof fn lemma_sid_inside(s: Seq<u8>, at: int, b: Seq<u8>)
    requires
        sid_valid(b),
        0 <= at,
        at + b.len() <= s.len(),
        s.subrange(at, at + b.len()) == b,
    ensures
        sid_at(s, at) is Some,
{
    assert(s.subrange(at, at + b.len())[0] == s[at]);
    assert(s.subrange(at, at + b.len())[1] == s[at + 1]);
}

/// Bytes behind their length are found inside an entry.
proof fn lemma_octets_inside(s: Seq<u8>, at: int, y: Seq<u8>)
    requires
        y.len() <= u32::MAX,
        0 <= at,
        at + 4 + y.len() <= s.len(),
        s.subrange(at, at + 4 + y.len()) == le32(y.len() as u32) + y,
    ensures
        le32_at(s, at) == y.len(),
{
    let b = le32(y.len() as u32) + y;
    assert(s.subrange(at, at + 4) =~= s.subrange(at, at + 4 + y.len()).subrange(0, 4));
    assert(b.subrange(0, 4) =~= le32(y.len() as u32));
    law_le32_reads_back(s, at, y.len() as u32);
}

/// A slot that leads to the bytes of a value is one that the kernel accepts.
#[verifier::spinoff_prover]
proof fn lemma_value_sound(s: Seq<u8>, t: u16, slot: int, v: ClaimValueView)
    requires
        claim_type_known(t),
        !claim_type_scalar(t),
        value_bytes(t, v) is Some,
        0 <= slot,
        slot + 4 <= s.len(),
        ({
            let at = le32_at(s, slot) as int;
            let b = value_bytes(t, v)->Some_0;
            at + b.len() <= s.len() && s.subrange(at, at + b.len()) == b
        }),
    ensures
        claim_value_sound(s, t, slot),
{
    let at = le32_at(s, slot) as int;
    let y = v.bytes->Some_0;
    if t == CLAIM_TYPE_STRING {
        lemma_cstr16_ends(s, at, y);
    } else if t == CLAIM_TYPE_SID {
        lemma_sid_inside(s, at, y);
    } else {
        lemma_octets_inside(s, at, y);
    }
}

proof fn lemma_slot_sound(name: Seq<u8>, t: u16, flags: u32, vals: Seq<ClaimValueView>, i: int)
    requires
        encodable(name, t, vals),
        0 <= i < vals.len(),
    ensures
        claim_value_sound(
            claim_bytes(name, t, flags, vals),
            t,
            le32_at(claim_bytes(name, t, flags, vals), 16 + 4 * i) as int,
        ),
{
    let s = claim_bytes(name, t, flags, vals);
    law_claim_value_reads_back(name, t, flags, vals, i);
    if !claim_type_scalar(t) {
        assert(value_bytes(t, vals[i]) is Some);
        lemma_value_sound(s, t, slot_place(s, i), vals[i]);
    }
}

/// The entry of a claim is one that the kernel accepts.
pub proof fn law_encoded_claim_is_sound(name: Seq<u8>, t: u16, flags: u32, vals: Seq<ClaimValueView>)
    requires
        encodable(name, t, vals),
    ensures
        claim_sound(claim_bytes(name, t, flags, vals)),
{
    let s = claim_bytes(name, t, flags, vals);
    law_claim_header_reads_back(name, t, flags, vals);
    lemma_cstr16_ends(s, le32_at(s, 0) as int, name);
    assert forall|i: int| 0 <= i < vals.len() implies claim_value_sound(s, t, #[trigger] le32_at(s, 16 + 4 * i) as int) by {
        lemma_slot_sound(name, t, flags, vals, i);
    }
}

} // verus!
