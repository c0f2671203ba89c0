//! Resource attributes: one claim in an entry, and its text.
//!
//! The text is the quoted name, the code of the value type, the flags and the values, with
//! commas between them.

use vstd::prelude::*;
use vstd::slice::{slice_subrange, slice_to_vec};
use crate::abi::Span;
use crate::bytes::{le16_at, le32_at, le64_at, put_slice, rd_u16, rd_u32, rd_u64};
use crate::security::rules::{
    claim_type_known, claim_type_scalar, CLAIM_TYPE_BOOLEAN, CLAIM_TYPE_INT64, CLAIM_TYPE_OCTET, CLAIM_TYPE_SID,
    CLAIM_TYPE_STRING, CLAIM_TYPE_UINT64,
};
use crate::security::sddl::condition::{bits_of, filled, from_bits, put_fill, signed, to_bits};
use crate::security::sddl::names::{parse_sid, put_sid, sid_field, sid_from_field};
use crate::security::sddl::scan::{join, split_outside, split_top};
use crate::security::sddl::tokens::{is_quotable, quotable};
use crate::security::sddl::words::{int_of, int_text, octet_text, octets_of, put_int, put_octets, read_int, read_octets};
use crate::security::sid::{sid_at, sid_bytes, sid_of, Sid};
use crate::security::text::{decimal, hex, number_upto, parse_u64_radix, put_decimal, put_hex};
use crate::token::claims::{
    claim_bytes, encode_claim, name_at, peios_token_claim, peios_token_claim_value, value_views, values_fit,
    ClaimValueView, CLAIM_NAME_LIMIT,
};
use crate::utf16::{stringable, utf8_from_16, utf8_of16};

verus! {

/// A value: a number, or bytes by the value type.
#[derive(Debug, PartialEq, Eq)]
pub struct ClaimValue {
    pub number: u64,
    pub bytes: Vec<u8>,
}

/// A named attribute with typed values. Text is UTF-8.
#[derive(Debug, PartialEq, Eq)]
pub struct Claim {
    pub name: Vec<u8>,
    pub value_type: u16,
    pub flags: u32,
    pub values: Vec<ClaimValue>,
}

/// What an attribute says.
#[verifier::ext_equal]
pub struct ClaimView {
    pub name: Seq<u8>,
    pub value_type: u16,
    pub flags: u32,
    pub values: Seq<ClaimValueView>,
}

impl View for ClaimValue {
    type V = ClaimValueView;

    open spec fn view(&self) -> ClaimValueView {
        ClaimValueView { scalar: self.number, bytes: Some(self.bytes@) }
    }
}

/// What values say.
pub open spec fn claim_values(values: Seq<ClaimValue>) -> Seq<ClaimValueView> {
    Seq::new(values.len(), |i: int| values[i]@)
}

impl View for Claim {
    type V = ClaimView;

    open spec fn view(&self) -> ClaimView {
        ClaimView {
            name: self.name@,
            value_type: self.value_type,
            flags: self.flags,
            values: claim_values(self.values@),
        }
    }
}

/// The bytes of an attribute; nothing if they cannot be one.
pub open spec fn claim_entry(c: ClaimView) -> Option<Seq<u8>> {
    if stringable(c.name) && c.name.len() < CLAIM_NAME_LIMIT && claim_type_known(c.value_type) && values_fit(
        c.value_type,
        c.values,
    ) && name_at(c.value_type, c.values) <= u32::MAX {
        Some(claim_bytes(c.name, c.value_type, c.flags, c.values))
    } else {
        None
    }
}

impl Claim {
    /// The bytes of the attribute.
    pub fn encode(&self) -> (r: Option<Vec<u8>>)
        ensures
            match r {
                Some(out) => claim_entry(self@) == Some(out@),
                None => claim_entry(self@) is None,
            },
    {
        if self.values.len() as u64 > u32::MAX as u64 {
            return None;
        }
        let mut values: Vec<peios_token_claim_value> = Vec::new();
        let mut i: usize = 0;
        while i < self.values.len()
            invariant
                i <= self.values@.len(),
                value_views(values@) == claim_values(self.values@).take(i as int),
            decreases self.values@.len() - i,
        {
            let v: peios_token_claim_value = peios_token_claim_value {
                scalar: self.values[i].number,
                bytes: Span::At(self.values[i].bytes.as_slice()),
            };
            let ghost before = value_views(values@);
            values.push(v);
            assert(v@ =~= self.values@[i as int]@);
            assert(value_views(values@) =~= before.push(v@));
            assert(claim_values(self.values@).take(i + 1) =~= claim_values(self.values@).take(i as int).push(
                self.values@[i as int]@,
            ));
            i = i + 1;
        }
        assert(value_views(values@) =~= claim_values(self.values@));
        let claim: peios_token_claim = peios_token_claim {
            name: Some(self.name.as_slice()),
            value_type: self.value_type,
            flags: self.flags,
            values: Some(values.as_slice()),
            value_count: self.values.len() as u32,
        };
        assert(claim.value_seq() == claim_values(self.values@));
        match encode_claim(&claim) {
            Ok(out) => Some(out),
            Err(_) => None,
        }
    }
}

/// Where the terminator of the text at `p` is.
pub open spec fn nul_from(s: Seq<u8>, p: int) -> Option<int>
    decreases s.len() - p,
{
    if p + 2 > s.len() {
        None
    } else if s[p] == 0 && s[p + 1] == 0 {
        Some(p)
    } else {
        nul_from(s, p + 2)
    }
}

/// The terminated text at `p`.
pub open spec fn text_at(s: Seq<u8>, p: int) -> Option<Seq<u8>> {
    match nul_from(s, p) {
        Some(e) => utf8_of16(s.subrange(p, e)),
        None => None,
    }
}

/// The value that the slot at `p` leads to.
pub open spec fn value_at(s: Seq<u8>, t: u16, p: int) -> Option<ClaimValueView> {
    if claim_type_scalar(t) {
        if p + 8 <= s.len() {
            Some(ClaimValueView { scalar: le64_at(s, p), bytes: Some(Seq::empty()) })
        } else {
            None
        }
    } else if p + 4 > s.len() {
        None
    } else {
        let at = le32_at(s, p) as int;
        let bytes = if t == CLAIM_TYPE_STRING {
            text_at(s, at)
        } else if t == CLAIM_TYPE_SID {
            match sid_at(s, at) {
                Some((v, end)) => Some(s.subrange(at, end)),
                None => None,
            }
        } else if at + 4 <= s.len() && at + 4 + le32_at(s, at) <= s.len() {
            Some(s.subrange(at + 4, at + 4 + le32_at(s, at)))
        } else {
            None
        };
        match bytes {
            Some(b) => Some(ClaimValueView { scalar: 0, bytes: Some(b) }),
            None => None,
        }
    }
}

/// The value with index `i`.
pub open spec fn value_in(s: Seq<u8>, i: int) -> Option<ClaimValueView> {
    value_at(s, le16_at(s, 4), le32_at(s, 16 + 4 * i) as int)
}

/// The attribute that bytes are.
pub open spec fn claim_from(s: Seq<u8>) -> Option<ClaimView> {
    if s.len() < 16 || !claim_type_known(le16_at(s, 4)) || 16 + 4 * le32_at(s, 12) > s.len() || text_at(
        s,
        le32_at(s, 0) as int,
    ) is None || exists|i: int| 0 <= i < le32_at(s, 12) && (#[trigger] value_in(s, i)) is None {
        None
    } else {
        Some(
            ClaimView {
                name: text_at(s, le32_at(s, 0) as int)->Some_0,
                value_type: le16_at(s, 4),
                flags: le32_at(s, 8),
                values: Seq::new(le32_at(s, 12) as nat, |i: int| value_in(s, i)->Some_0),
            },
        )
    }
}

fn read_text(s: &[u8], p: usize) -> (r: Option<Vec<u8>>)
    ensures
        match r {
            Some(t) => text_at(s@, p as int) == Some(t@),
            None => text_at(s@, p as int) is None,
        },
{
    assert(s@.len() == s.len());
    if p > s.len() {
        return None;
    }
    let mut e: usize = p;
    while s.len() - e >= 2 && !(s[e] == 0 && s[e + 1] == 0)
        invariant
            p <= e <= s@.len(),
            s@.len() == s.len(),
            nul_from(s@, p as int) == nul_from(s@, e as int),
        decreases s@.len() - e,
    {
        e = e + 2;
    }
    if s.len() - e < 2 {
        return None;
    }
    utf8_from_16(slice_subrange(s, p, e))
}

fn read_value(s: &[u8], t: u16, p: usize) -> (r: Option<ClaimValue>)
    ensures
        match r {
            Some(v) => value_at(s@, t, p as int) == Some(v@),
            None => value_at(s@, t, p as int) is None,
        },
{
    assert(s@.len() == s.len());
    if t == CLAIM_TYPE_INT64 || t == CLAIM_TYPE_UINT64 || t == CLAIM_TYPE_BOOLEAN {
        if p > s.len() || s.len() - p < 8 {
            return None;
        }
        let v: ClaimValue = ClaimValue { number: rd_u64(s, p), bytes: Vec::new() };
        assert(v.bytes@ =~= Seq::<u8>::empty());
        return Some(v);
    }
    if p > s.len() || s.len() - p < 4 {
        return None;
    }
    let at32: u32 = rd_u32(s, p);
    if at32 as u64 > s.len() as u64 {
        assert(nul_from(s@, at32 as int) is None);
        return None;
    }
    let at: usize = at32 as usize;
    if t == CLAIM_TYPE_STRING {
        match read_text(s, at) {
            Some(b) => Some(ClaimValue { number: 0, bytes: b }),
            None => None,
        }
    } else if t == CLAIM_TYPE_SID {
        match Sid::parse_at(s, at) {
            Some((_, end)) => Some(ClaimValue { number: 0, bytes: slice_to_vec(slice_subrange(s, at, end)) }),
            None => None,
        }
    } else {
        if s.len() - at < 4 {
            return None;
        }
        let n: u32 = rd_u32(s, at);
        if n as u64 > (s.len() - at - 4) as u64 {
            return None;
        }
        let b: Vec<u8> = slice_to_vec(slice_subrange(s, at + 4, at + 4 + n as usize));
        Some(ClaimValue { number: 0, bytes: b })
    }
}

/// Reads the bytes of an attribute.
pub fn read_claim(s: &[u8]) -> (r: Option<Claim>)
    ensures
        match r {
            Some(c) => claim_from(s@) == Some(c@),
            None => claim_from(s@) is None,
        },
{
    assert(s@.len() == s.len());
    if s.len() < 16 {
        return None;
    }
    let t: u16 = rd_u16(s, 4);
    if t != CLAIM_TYPE_INT64 && t != CLAIM_TYPE_UINT64 && t != CLAIM_TYPE_STRING && t != CLAIM_TYPE_SID && t
        != CLAIM_TYPE_BOOLEAN && t != CLAIM_TYPE_OCTET {
        return None;
    }
    let count: u32 = rd_u32(s, 12);
    if 4 * (count as u64) > (s.len() - 16) as u64 {
        return None;
    }
    let name_off: u32 = rd_u32(s, 0);
    if name_off as u64 > s.len() as u64 {
        assert(nul_from(s@, name_off as int) is None);
        return None;
    }
    let name: Vec<u8> = match read_text(s, name_off as usize) {
        Some(name) => name,
        None => return None,
    };
    let mut values: Vec<ClaimValue> = Vec::new();
    let mut i: u32 = 0;
    while i < count
        invariant
            i <= count,
            count == le32_at(s@, 12),
            t == le16_at(s@, 4),
            16 + 4 * count <= s@.len(),
            s@.len() == s.len(),
            forall|k: int| 0 <= k < i ==> (#[trigger] value_in(s@, k)) is Some,
            claim_values(values@) == Seq::new(i as nat, |k: int| value_in(s@, k)->Some_0),
        decreases count - i,
    {
        let slot: u32 = rd_u32(s, 16 + 4 * (i as usize));
        let v: ClaimValue = if slot as u64 > s.len() as u64 {
            assert(value_in(s@, i as int) is None);
            return None;
        } else {
            match read_value(s, t, slot as usize) {
                Some(v) => v,
                None => {
                    assert(value_in(s@, i as int) is None);
                    return None;
                },
            }
        };
        let ghost before = claim_values(values@);
        let ghost one = v@;
        values.push(v);
        assert(claim_values(values@) =~= before.push(one));
        assert(value_in(s@, i as int) == Some(one));
        i = i + 1;
        assert(claim_values(values@) =~= Seq::new(i as nat, |k: int| value_in(s@, k)->Some_0));
    }
    Some(Claim { name, value_type: t, flags: rd_u32(s, 8), values })
}

/// The second letter of a value type's code; the first is `T`.
pub open spec fn type_letter(t: u16) -> u8 {
    if t == CLAIM_TYPE_INT64 {
        0x49
    } else if t == CLAIM_TYPE_UINT64 {
        0x55
    } else if t == CLAIM_TYPE_STRING {
        0x53
    } else if t == CLAIM_TYPE_SID {
        0x44
    } else if t == CLAIM_TYPE_BOOLEAN {
        0x42
    } else {
        0x58
    }
}

/// The value type of a code.
pub open spec fn type_of_text(f: Seq<u8>) -> Option<u16> {
    if f.len() != 2 || f[0] != 0x54 {
        None
    } else if f[1] == 0x49 {
        Some(CLAIM_TYPE_INT64)
    } else if f[1] == 0x55 {
        Some(CLAIM_TYPE_UINT64)
    } else if f[1] == 0x53 {
        Some(CLAIM_TYPE_STRING)
    } else if f[1] == 0x44 {
        Some(CLAIM_TYPE_SID)
    } else if f[1] == 0x42 {
        Some(CLAIM_TYPE_BOOLEAN)
    } else if f[1] == 0x58 {
        Some(CLAIM_TYPE_OCTET)
    } else {
        None
    }
}

/// Text in quotation marks.
pub open spec fn quoted(s: Seq<u8>) -> Seq<u8> {
    seq![0x22u8] + s + seq![0x22u8]
}

/// The text between quotation marks.
pub open spec fn unquoted(f: Seq<u8>) -> Option<Seq<u8>> {
    if f.len() >= 2 && f[0] == 0x22 && f.last() == 0x22 && quotable(f.subrange(1, f.len() - 1)) {
        Some(f.subrange(1, f.len() - 1))
    } else {
        None
    }
}

/// Flags in hexadecimal behind `0x`, or in decimal.
pub open spec fn claim_flags_of(f: Seq<u8>) -> Option<u32> {
    let n = if f.len() > 2 && f[0] == 0x30 && (f[1] == 0x78 || f[1] == 0x58) {
        number_upto(f.subrange(2, f.len() as int), 16, u64::MAX as nat)
    } else {
        number_upto(f, 10, u64::MAX as nat)
    };
    match n {
        Some(v) => if v <= u32::MAX {
            Some(v as u32)
        } else {
            None
        },
        None => None,
    }
}

/// The text before a SID.
pub open spec fn sid_open() -> Seq<u8> {
    seq![0x53u8, 0x49u8, 0x44u8, 0x28u8]
}

/// A value as text.
pub open spec fn value_text(t: u16, v: ClaimValueView) -> Seq<u8> {
    let b = v.bytes->Some_0;
    if t == CLAIM_TYPE_INT64 {
        int_text(signed(v.scalar))
    } else if t == CLAIM_TYPE_UINT64 || t == CLAIM_TYPE_BOOLEAN {
        decimal(v.scalar as nat)
    } else if t == CLAIM_TYPE_STRING {
        quoted(b)
    } else if t == CLAIM_TYPE_SID {
        sid_open() + sid_field(sid_of(b)->Some_0) + seq![0x29u8]
    } else {
        seq![0x23u8] + octet_text(b)
    }
}

/// A value that is a number.
pub open spec fn number_value(n: u64) -> ClaimValueView {
    ClaimValueView { scalar: n, bytes: Some(Seq::empty()) }
}

/// A value that is bytes.
pub open spec fn bytes_value(b: Seq<u8>) -> ClaimValueView {
    ClaimValueView { scalar: 0, bytes: Some(b) }
}

/// The value that text is.
pub open spec fn value_of(t: u16, f: Seq<u8>) -> Option<ClaimValueView> {
    if t == CLAIM_TYPE_INT64 {
        match int_of(f) {
            Some(v) => Some(number_value(bits_of(v))),
            None => None,
        }
    } else if t == CLAIM_TYPE_UINT64 || t == CLAIM_TYPE_BOOLEAN {
        match number_upto(f, 10, u64::MAX as nat) {
            Some(n) => if t == CLAIM_TYPE_BOOLEAN && n > 1 {
                None
            } else {
                Some(number_value(n as u64))
            },
            None => None,
        }
    } else if t == CLAIM_TYPE_STRING {
        match unquoted(f) {
            Some(b) => Some(bytes_value(b)),
            None => None,
        }
    } else if t == CLAIM_TYPE_SID {
        if f.len() >= 5 && f.take(4) == sid_open() && f.last() == 0x29 {
            match sid_from_field(f.subrange(4, f.len() - 1)) {
                Ok(v) => Some(bytes_value(sid_bytes(v))),
                Err(_) => None,
            }
        } else {
            None
        }
    } else {
        if f.len() >= 1 && f[0] == 0x23 {
            match octets_of(f.subrange(1, f.len() as int)) {
                Some(b) => Some(bytes_value(b)),
                None => None,
            }
        } else {
            None
        }
    }
}

/// A value that its text tells.
pub open spec fn value_printable(t: u16, v: ClaimValueView) -> bool {
    if claim_type_scalar(t) {
        v.bytes == Some(Seq::<u8>::empty()) && (t == CLAIM_TYPE_BOOLEAN ==> v.scalar <= 1)
    } else {
        &&& v.scalar == 0
        &&& v.bytes is Some
        &&& t == CLAIM_TYPE_STRING ==> quotable(v.bytes->Some_0)
        &&& t == CLAIM_TYPE_SID ==> sid_of(v.bytes->Some_0) is Some
    }
}

/// An attribute that its text tells.
pub open spec fn claim_printable(c: ClaimView) -> bool {
    &&& quotable(c.name)
    &&& claim_type_known(c.value_type)
    &&& forall|i: int| 0 <= i < c.values.len() ==> value_printable(c.value_type, #[trigger] c.values[i])
}

/// The fields of an attribute's text.
pub open spec fn claim_fields(c: ClaimView) -> Seq<Seq<u8>> {
    seq![quoted(c.name), seq![0x54u8, type_letter(c.value_type)], seq![0x30u8, 0x78u8] + hex(c.flags as nat)] + Seq::new(
        c.values.len(),
        |i: int| value_text(c.value_type, c.values[i]),
    )
}

/// The text of an attribute.
pub open spec fn claim_text(c: ClaimView) -> Seq<u8> {
    join(claim_fields(c), 0x2c)
}

/// The attribute that fields are.
pub open spec fn claim_of_fields(f: Seq<Seq<u8>>) -> Option<ClaimView> {
    if f.len() < 3 || unquoted(f[0]) is None || type_of_text(f[1]) is None || claim_flags_of(f[2]) is None
        || exists|i: int| 3 <= i < f.len() && value_of(type_of_text(f[1])->Some_0, #[trigger] f[i]) is None {
        None
    } else {
        let t = type_of_text(f[1])->Some_0;
        Some(
            ClaimView {
                name: unquoted(f[0])->Some_0,
                value_type: t,
                flags: claim_flags_of(f[2])->Some_0,
                values: Seq::new((f.len() - 3) as nat, |i: int| value_of(t, f[i + 3])->Some_0),
            },
        )
    }
}

/// The attribute that text is.
pub open spec fn claim_from_text(s: Seq<u8>) -> Option<ClaimView> {
    claim_of_fields(split_top(s, 0x2c))
}

fn read_type(f: &[u8]) -> (r: Option<u16>)
    ensures
        r == type_of_text(f@),
{
    if f.len() != 2 || f[0] != 0x54 {
        return None;
    }
    match f[1] {
        0x49 => Some(CLAIM_TYPE_INT64),
        0x55 => Some(CLAIM_TYPE_UINT64),
        0x53 => Some(CLAIM_TYPE_STRING),
        0x44 => Some(CLAIM_TYPE_SID),
        0x42 => Some(CLAIM_TYPE_BOOLEAN),
        0x58 => Some(CLAIM_TYPE_OCTET),
        _ => None,
    }
}

fn read_quoted(f: &[u8]) -> (r: Option<Vec<u8>>)
    ensures
        match r {
            Some(b) => unquoted(f@) == Some(b@),
            None => unquoted(f@) is None,
        },
{
    if f.len() < 2 || f[0] != 0x22 || f[f.len() - 1] != 0x22 {
        return None;
    }
    let inner: &[u8] = slice_subrange(f, 1, f.len() - 1);
    if is_quotable(inner) {
        Some(slice_to_vec(inner))
    } else {
        None
    }
}

fn read_claim_flags(f: &[u8]) -> (r: Option<u32>)
    ensures
        r == claim_flags_of(f@),
{
    let n: Option<u64> = if f.len() > 2 && f[0] == 0x30 && (f[1] == 0x78 || f[1] == 0x58) {
        parse_u64_radix(slice_subrange(f, 2, f.len()), 16)
    } else {
        parse_u64_radix(f, 10)
    };
    match n {
        Some(v) => if v <= u32::MAX as u64 {
            Some(v as u32)
        } else {
            None
        },
        None => None,
    }
}

fn number_item(n: u64) -> (v: ClaimValue)
    ensures
        v@ == number_value(n),
{
    let v: ClaimValue = ClaimValue { number: n, bytes: Vec::new() };
    assert(v.bytes@ =~= Seq::<u8>::empty());
    v
}

fn read_value_text(t: u16, f: &[u8]) -> (r: Option<ClaimValue>)
    ensures
        match r {
            Some(v) => value_of(t, f@) == Some(v@),
            None => value_of(t, f@) is None,
        },
{
    if t == CLAIM_TYPE_INT64 {
        match read_int(f) {
            Some(v) => Some(number_item(to_bits(v))),
            None => None,
        }
    } else if t == CLAIM_TYPE_UINT64 || t == CLAIM_TYPE_BOOLEAN {
        match parse_u64_radix(f, 10) {
            Some(n) => if t == CLAIM_TYPE_BOOLEAN && n > 1 {
                None
            } else {
                Some(number_item(n))
            },
            None => None,
        }
    } else if t == CLAIM_TYPE_STRING {
        match read_quoted(f) {
            Some(b) => Some(ClaimValue { number: 0, bytes: b }),
            None => None,
        }
    } else if t == CLAIM_TYPE_SID {
        if f.len() < 5 || f[f.len() - 1] != 0x29 {
            return None;
        }
        if f[0] != 0x53 || f[1] != 0x49 || f[2] != 0x44 || f[3] != 0x28 {
            assert(f@.take(4)[0] == f@[0] && f@.take(4)[1] == f@[1] && f@.take(4)[2] == f@[2] && f@.take(4)[3] == f@[3]);
            return None;
        }
        assert(f@.take(4) =~= sid_open());
        match parse_sid(slice_subrange(f, 4, f.len() - 1)) {
            Ok(sid) => Some(ClaimValue { number: 0, bytes: sid.encode() }),
            Err(_) => None,
        }
    } else {
        if f.len() < 1 || f[0] != 0x23 {
            return None;
        }
        match read_octets(slice_subrange(f, 1, f.len())) {
            Some(b) => Some(ClaimValue { number: 0, bytes: b }),
            None => None,
        }
    }
}

/// Reads the text of an attribute.
pub fn parse_claim(s: &[u8]) -> (r: Option<Claim>)
    ensures
        match r {
            Some(c) => claim_from_text(s@) == Some(c@),
            None => claim_from_text(s@) is None,
        },
{
    let fields: Vec<Vec<u8>> = split_outside(s, 0x2c);
    let ghost f = split_top(s@, 0x2c);
    if fields.len() < 3 {
        return None;
    }
    assert(fields@[0]@ == f[0] && fields@[1]@ == f[1] && fields@[2]@ == f[2]);
    let name: Vec<u8> = match read_quoted(fields[0].as_slice()) {
        Some(name) => name,
        None => return None,
    };
    let t: u16 = match read_type(fields[1].as_slice()) {
        Some(t) => t,
        None => return None,
    };
    let flags: u32 = match read_claim_flags(fields[2].as_slice()) {
        Some(flags) => flags,
        None => return None,
    };
    let mut values: Vec<ClaimValue> = Vec::new();
    let mut i: usize = 3;
    while i < fields.len()
        invariant
            3 <= i <= fields@.len(),
            f == split_top(s@, 0x2c),
            fields@.len() == f.len(),
            forall|k: int| 0 <= k < fields@.len() ==> #[trigger] fields@[k]@ == f[k],
            Some(t) == type_of_text(f[1]),
            forall|k: int| 3 <= k < i ==> value_of(t, #[trigger] f[k]) is Some,
            claim_values(values@) == Seq::new((i - 3) as nat, |k: int| value_of(t, f[k + 3])->Some_0),
        decreases fields@.len() - i,
    {
        assert(fields@[i as int]@ == f[i as int]);
        let v: ClaimValue = match read_value_text(t, fields[i].as_slice()) {
            Some(v) => v,
            None => {
                assert(value_of(t, f[i as int]) is None);
                return None;
            },
        };
        let ghost before = claim_values(values@);
        let ghost one = v@;
        values.push(v);
        assert(claim_values(values@) =~= before.push(one));
        i = i + 1;
        assert(claim_values(values@) =~= Seq::new((i - 3) as nat, |k: int| value_of(t, f[k + 3])->Some_0));
    }
    Some(Claim { name, value_type: t, flags, values })
}

fn is_value_printable(t: u16, v: &ClaimValue) -> (r: bool)
    ensures
        r == value_printable(t, v@),
{
    if t == CLAIM_TYPE_INT64 || t == CLAIM_TYPE_UINT64 || t == CLAIM_TYPE_BOOLEAN {
        proof {
            if v.bytes@.len() == 0 {
                assert(v.bytes@ =~= Seq::<u8>::empty());
            }
        }
        v.bytes.len() == 0 && (t != CLAIM_TYPE_BOOLEAN || v.number <= 1)
    } else {
        if v.number != 0 {
            return false;
        }
        if t == CLAIM_TYPE_STRING {
            is_quotable(v.bytes.as_slice())
        } else if t == CLAIM_TYPE_SID {
            Sid::parse(v.bytes.as_slice()).is_some()
        } else {
            true
        }
    }
}

/// Whether the text of an attribute tells it.
pub fn is_claim_printable(c: &Claim) -> (r: bool)
    ensures
        r == claim_printable(c@),
{
    let t: u16 = c.value_type;
    if t != CLAIM_TYPE_INT64 && t != CLAIM_TYPE_UINT64 && t != CLAIM_TYPE_STRING && t != CLAIM_TYPE_SID && t
        != CLAIM_TYPE_BOOLEAN && t != CLAIM_TYPE_OCTET {
        return false;
    }
    if !is_quotable(c.name.as_slice()) {
        return false;
    }
    let mut i: usize = 0;
    while i < c.values.len()
        invariant
            i <= c.values@.len(),
            t == c.value_type,
            forall|k: int| 0 <= k < i ==> value_printable(t, #[trigger] c@.values[k]),
        decreases c.values@.len() - i,
    {
        assert(c@.values[i as int] == c.values@[i as int]@);
        if !is_value_printable(t, &c.values[i]) {
            assert(!value_printable(t, c@.values[i as int]));
            return false;
        }
        i = i + 1;
    }
    true
}

fn put_value(out: &mut Vec<u8>, t: u16, v: &ClaimValue)
    requires
        value_printable(t, v@),
    ensures
        final(out)@ == old(out)@ + value_text(t, v@),
{
    if t == CLAIM_TYPE_INT64 {
        put_slice(out, put_int(from_bits(v.number)).as_slice());
    } else if t == CLAIM_TYPE_UINT64 || t == CLAIM_TYPE_BOOLEAN {
        put_decimal(out, v.number);
    } else if t == CLAIM_TYPE_STRING {
        out.push(0x22);
        put_slice(out, v.bytes.as_slice());
        out.push(0x22);
        assert(out@ =~= old(out)@ + value_text(t, v@));
    } else if t == CLAIM_TYPE_SID {
        if let Some(sid) = Sid::parse(v.bytes.as_slice()) {
            out.push(0x53);
            out.push(0x49);
            out.push(0x44);
            out.push(0x28);
            put_sid(out, &sid);
            out.push(0x29);
            assert(out@ =~= old(out)@ + value_text(t, v@));
        }
    } else {
        out.push(0x23);
        put_slice(out, put_octets(v.bytes.as_slice()).as_slice());
        assert(out@ =~= old(out)@ + value_text(t, v@));
    }
}

/// Appends the text of an attribute.
pub fn put_claim(out: &mut Vec<u8>, c: &Claim)
    requires
        claim_printable(c@),
    ensures
        final(out)@ == old(out)@ + claim_text(c@),
{
    let t: u16 = c.value_type;
    let ghost f = claim_fields(c@);
    let ghost begun = out@;
    let mut own: Vec<u8> = Vec::new();
    own.push(0x22);
    put_slice(&mut own, c.name.as_slice());
    own.push(0x22);
    assert(own@ =~= quoted(c.name@));
    own.push(0x2c);
    own.push(0x54);
    own.push(match t {
        CLAIM_TYPE_INT64 => 0x49,
        CLAIM_TYPE_UINT64 => 0x55,
        CLAIM_TYPE_STRING => 0x53,
        CLAIM_TYPE_SID => 0x44,
        CLAIM_TYPE_BOOLEAN => 0x42,
        _ => 0x58,
    });
    assert(own@ =~= quoted(c.name@) + seq![0x2cu8] + seq![0x54u8, type_letter(t)]);
    own.push(0x2c);
    own.push(0x30);
    own.push(0x78);
    put_hex(&mut own, c.flags as u64);
    assert(own@ =~= quoted(c.name@) + seq![0x2cu8] + seq![0x54u8, type_letter(t)] + seq![0x2cu8] + (seq![0x30u8, 0x78u8]
        + hex(c.flags as nat)));
    proof {
        reveal_with_fuel(join, 4);
        assert(f.take(3).drop_last().drop_last() =~= seq![f[0]]);
        assert(own@ =~= join(f.take(3), 0x2c));
    }
    let mut i: usize = 0;
    while i < c.values.len()
        invariant
            i <= c.values@.len(),
            t == c.value_type,
            claim_printable(c@),
            f == claim_fields(c@),
            own@ == join(f.take(i + 3), 0x2c),
        decreases c.values@.len() - i,
    {
        let ghost before = own@;
        assert(c@.values[i as int] == c.values@[i as int]@);
        assert(f.take(i + 4).drop_last() =~= f.take(i + 3));
        assert(f[i + 3] == value_text(t, c@.values[i as int]));
        own.push(0x2c);
        put_value(&mut own, t, &c.values[i]);
        assert(own@ =~= before + seq![0x2cu8] + f[i + 3]);
        i = i + 1;
    }
    assert(f.take(i + 3) =~= f);
    put_slice(out, own.as_slice());
}

/// What an entry holds for an attribute in text.
pub open spec fn claim_tail(s: Seq<u8>) -> Option<Seq<u8>> {
    match claim_from_text(s) {
        Some(c) => match claim_entry(c) {
            Some(b) => Some(filled(b)),
            None => None,
        },
        None => None,
    }
}

/// The text of an attribute that an entry holds.
pub open spec fn claim_tail_text(s: Seq<u8>) -> Option<Seq<u8>> {
    match claim_from(s) {
        Some(c) => if claim_printable(c) {
            Some(claim_text(c))
        } else {
            None
        },
        None => None,
    }
}

/// From an attribute's text to what an entry holds.
pub fn parse_claim_tail(s: &[u8]) -> (r: Option<Vec<u8>>)
    ensures
        match r {
            Some(out) => claim_tail(s@) == Some(out@),
            None => claim_tail(s@) is None,
        },
{
    match parse_claim(s) {
        Some(c) => match c.encode() {
            Some(b) => {
                let mut out: Vec<u8> = b;
                put_fill(&mut out);
                Some(out)
            },
            None => None,
        },
        None => None,
    }
}

/// From what an entry holds to the attribute's text.
pub fn format_claim_tail(s: &[u8]) -> (r: Option<Vec<u8>>)
    ensures
        match r {
            Some(out) => claim_tail_text(s@) == Some(out@),
            None => claim_tail_text(s@) is None,
        },
{
    match read_claim(s) {
        Some(c) => {
            if !is_claim_printable(&c) {
                return None;
            }
            let mut out: Vec<u8> = Vec::new();
            put_claim(&mut out, &c);
            assert(out@ =~= claim_text(c@));
            Some(out)
        },
        None => None,
    }
}

} // verus!
