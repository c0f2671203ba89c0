//! Security identifiers: their binary layout, their text form and the well-known ones.
//!
//! A binary SID is a revision byte (always 1), a count of sub-authorities, a 48-bit
//! big-endian identifier authority, and the sub-authorities as little-endian 32-bit words.

use vstd::prelude::*;
use crate::bytes::{
    be16, be16_at, be32, be32_at, law_be16_reads_back, law_be32_reads_back, law_le32_reads_back, le32, le32_at,
    put_be16, put_be32, put_le32, rd_be16, rd_be32, rd_u32, same_bytes,
};
use crate::error::Errno;
use crate::security::text::{
    decimal, hex_padded, law_decimal_reads_back, law_hex_padded_reads_back, number_upto, parse_u32_dec,
    parse_u64_radix, pow16, put_decimal, put_hex_padded, split, split_fields,
};
use crate::bytes::is_utf8;
use crate::security::sddl::names::{is_space, parse_sid, sid_from_field};

verus! {

/// The most sub-authorities that a SID can have.
pub const MAX_SUB_AUTHORITIES: usize = 15;

/// The largest identifier authority: the field has 48 bits.
pub const MAX_AUTHORITY: u64 = 0xffff_ffff_ffff;

/// What a SID says.
#[verifier::ext_equal]
pub struct SidView {
    pub authority: u64,
    pub subs: Seq<u32>,
}

impl SidView {
    /// The fields fit the binary layout.
    pub open spec fn wf(self) -> bool {
        self.authority <= MAX_AUTHORITY && self.subs.len() <= MAX_SUB_AUTHORITIES
    }
}

/// Words as little-endian bytes, one after the other.
pub open spec fn le32s(words: Seq<u32>) -> Seq<u8> {
    Seq::new(4 * words.len(), |i: int| le32(words[i / 4])[i % 4])
}

/// The binary form of a SID.
pub open spec fn sid_bytes(v: SidView) -> Seq<u8> {
    seq![1u8, v.subs.len() as u8] + be16((v.authority / 0x1_0000_0000) as u16) + be32(
        (v.authority % 0x1_0000_0000) as u32,
    ) + le32s(v.subs)
}

/// The SID whose binary form starts at `p`, and where it ends.
pub open spec fn sid_at(s: Seq<u8>, p: int) -> Option<(SidView, int)> {
    if p < 0 || p + 8 > s.len() || s[p] != 1 || s[p + 1] > 15 || p + 8 + 4 * s[p + 1] > s.len() {
        None
    } else {
        Some(
            (
                SidView {
                    authority: (0x1_0000_0000 * be16_at(s, p + 2) + be32_at(s, p + 4)) as u64,
                    subs: Seq::new(s[p + 1] as nat, |i: int| le32_at(s, p + 8 + 4 * i)),
                },
                p + 8 + 4 * s[p + 1],
            ),
        )
    }
}

/// Bytes that are one SID and nothing else.
pub open spec fn sid_valid(s: Seq<u8>) -> bool {
    sid_at(s, 0) matches Some((_, end)) && end == s.len()
}

/// The SID that the bytes are, all of them.
pub open spec fn sid_of(s: Seq<u8>) -> Option<SidView> {
    match sid_at(s, 0) {
        Some((v, end)) => if end == s.len() {
            Some(v)
        } else {
            None
        },
        None => None,
    }
}

/// The identifier authority in text: decimal below 2^32, else twelve hexadecimal digits.
pub open spec fn authority_text(a: u64) -> Seq<u8> {
    if a < 0x1_0000_0000 {
        decimal(a as nat)
    } else {
        seq![0x30u8, 0x78u8] + hex_padded(a as nat, 12)
    }
}

/// The sub-authorities in text, each behind a hyphen.
pub open spec fn subs_text(subs: Seq<u32>) -> Seq<u8>
    decreases subs.len(),
{
    if subs.len() == 0 {
        Seq::empty()
    } else {
        subs_text(subs.drop_last()) + (seq![0x2du8] + decimal(subs.last() as nat))
    }
}

/// A SID in text: `S-1-authority-sub-sub...`.
pub open spec fn sid_text(v: SidView) -> Seq<u8> {
    seq![0x53u8, 0x2du8, 0x31u8, 0x2du8] + authority_text(v.authority) + subs_text(v.subs)
}

/// An identifier authority as it may be written: decimal, or hexadecimal behind `0x`.
pub open spec fn authority_from_text(f: Seq<u8>) -> Option<nat> {
    if f.len() > 2 && f[0] == 0x30 && (f[1] == 0x78 || f[1] == 0x58) {
        number_upto(f.subrange(2, f.len() as int), 16, MAX_AUTHORITY as nat)
    } else {
        number_upto(f, 10, MAX_AUTHORITY as nat)
    }
}

/// The SID that a literal `S-1-...` denotes.
pub open spec fn sid_from_text(s: Seq<u8>) -> Option<SidView> {
    let f = split(s, 0x2d);
    if f.len() < 3 || f.len() > 18 || !(f[0] == seq![0x53u8] || f[0] == seq![0x73u8]) || f[1] != seq![0x31u8]
        || authority_from_text(f[2]) is None || exists|i: int|
        3 <= i < f.len() && number_upto(#[trigger] f[i], 10, u32::MAX as nat) is None {
        None
    } else {
        Some(
            SidView {
                authority: authority_from_text(f[2])->Some_0 as u64,
                subs: Seq::new(
                    (f.len() - 3) as nat,
                    |i: int| number_upto(f[i + 3], 10, u32::MAX as nat)->Some_0 as u32,
                ),
            },
        )
    }
}

/// A security identifier.
#[derive(Debug, PartialEq, Eq)]
pub struct Sid {
    pub revision: u8,
    pub authority: u64,
    pub sub_authorities: Vec<u32>,
}

impl View for Sid {
    type V = SidView;

    open spec fn view(&self) -> SidView {
        SidView { authority: self.authority, subs: self.sub_authorities@ }
    }
}

impl Sid {
    pub open spec fn wf(&self) -> bool {
        self.revision == 1 && self@.wf()
    }

    pub fn new(revision: u8, authority: u64, sub_authorities: Vec<u32>) -> (sid: Sid)
        ensures
            sid.revision == revision,
            sid@ == (SidView { authority, subs: sub_authorities@ }),
    {
        Sid { revision, authority, sub_authorities }
    }

    /// Whether the fields fit the binary layout.
    pub fn is_wf(&self) -> (r: bool)
        ensures
            r == self@.wf(),
    {
        self.authority <= MAX_AUTHORITY && self.sub_authorities.len() <= MAX_SUB_AUTHORITIES
    }

    /// A copy of the SID.
    pub fn copy(&self) -> (sid: Sid)
        ensures
            sid@ == self@,
            sid.revision == self.revision,
    {
        let mut subs: Vec<u32> = Vec::new();
        let mut i: usize = 0;
        while i < self.sub_authorities.len()
            invariant
                i <= self.sub_authorities@.len(),
                subs@ == self.sub_authorities@.take(i as int),
            decreases self.sub_authorities@.len() - i,
        {
            subs.push(self.sub_authorities[i]);
            i = i + 1;
            assert(subs@ =~= self.sub_authorities@.take(i as int));
        }
        assert(subs@ =~= self.sub_authorities@);
        Sid { revision: self.revision, authority: self.authority, sub_authorities: subs }
    }

    /// Whether two SIDs are the same.
    pub fn same(&self, other: &Sid) -> (same: bool)
        ensures
            same == (self@ == other@),
    {
        if self.authority != other.authority || self.sub_authorities.len() != other.sub_authorities.len() {
            return false;
        }
        let mut i: usize = 0;
        while i < self.sub_authorities.len()
            invariant
                i <= self.sub_authorities@.len(),
                self.sub_authorities@.len() == other.sub_authorities@.len(),
                forall|j: int| 0 <= j < i ==> self.sub_authorities@[j] == other.sub_authorities@[j],
            decreases self.sub_authorities@.len() - i,
        {
            if self.sub_authorities[i] != other.sub_authorities[i] {
                return false;
            }
            i = i + 1;
        }
        assert(self.sub_authorities@ =~= other.sub_authorities@);
        true
    }

    /// The binary form.
    pub fn encode(&self) -> (out: Vec<u8>)
        requires
            self.wf(),
        ensures
            out@ == sid_bytes(self@),
    {
        encode_sid(self.authority, self.sub_authorities.as_slice())
    }

    /// Reads the SID that starts at `p`, and says where it ends.
    pub fn parse_at(s: &[u8], p: usize) -> (r: Option<(Sid, usize)>)
        ensures
            match r {
                Some((sid, end)) => sid.wf() && sid_at(s@, p as int) == Some((sid@, end as int)),
                None => sid_at(s@, p as int) is None,
            },
    {
        if p > s.len() || s.len() - p < 8 || s[p] != 1 || s[p + 1] > 15 {
            return None;
        }
        let n: usize = s[p + 1] as usize;
        if s.len() - p < 8 + 4 * n {
            return None;
        }
        let authority: u64 = 0x1_0000_0000 * (rd_be16(s, p + 2) as u64) + rd_be32(s, p + 4) as u64;
        let mut subs: Vec<u32> = Vec::new();
        let mut i: usize = 0;
        while i < n
            invariant
                i <= n,
                n <= 15,
                p + 8 + 4 * n <= s@.len(),
                s@.len() == s.len(),
                subs@ == Seq::new(i as nat, |j: int| le32_at(s@, p + 8 + 4 * j)),
            decreases n - i,
        {
            subs.push(rd_u32(s, p + 8 + 4 * i));
            i = i + 1;
            assert(subs@ =~= Seq::new(i as nat, |j: int| le32_at(s@, p + 8 + 4 * j)));
        }
        Some((Sid { revision: 1, authority, sub_authorities: subs }, p + 8 + 4 * n))
    }

    /// Reads bytes that are one SID and nothing else.
    pub fn parse(s: &[u8]) -> (r: Option<Sid>)
        ensures
            match r {
                Some(sid) => sid.wf() && sid_of(s@) == Some(sid@),
                None => sid_of(s@) is None,
            },
    {
        match Sid::parse_at(s, 0) {
            Some((sid, end)) => if end == s.len() {
                Some(sid)
            } else {
                None
            },
            None => None,
        }
    }

    /// The text form.
    pub fn to_text(&self) -> (out: Vec<u8>)
        ensures
            out@ == sid_text(self@),
    {
        let mut out: Vec<u8> = Vec::new();
        out.push(0x53);
        out.push(0x2d);
        out.push(0x31);
        out.push(0x2d);
        if self.authority < 0x1_0000_0000 {
            put_decimal(&mut out, self.authority);
        } else {
            out.push(0x30);
            out.push(0x78);
            put_hex_padded(&mut out, self.authority, 12);
        }
        let ghost prefix = seq![0x53u8, 0x2du8, 0x31u8, 0x2du8] + authority_text(self.authority);
        assert(out@ =~= prefix);
        let mut i: usize = 0;
        assert(self.sub_authorities@.take(0) =~= Seq::<u32>::empty());
        while i < self.sub_authorities.len()
            invariant
                i <= self.sub_authorities@.len(),
                out@ == prefix + subs_text(self.sub_authorities@.take(i as int)),
            decreases self.sub_authorities@.len() - i,
        {
            let ghost done = out@;
            out.push(0x2d);
            put_decimal(&mut out, self.sub_authorities[i] as u64);
            let ghost next = self.sub_authorities@.take(i + 1);
            assert(next.drop_last() =~= self.sub_authorities@.take(i as int));
            assert(out@ =~= prefix + subs_text(next));
            i = i + 1;
        }
        assert(self.sub_authorities@.take(i as int) =~= self.sub_authorities@);
        out
    }
}

/// The binary form of a SID with these parts.
pub fn encode_sid(authority: u64, subs: &[u32]) -> (out: Vec<u8>)
    requires
        authority <= MAX_AUTHORITY,
        subs@.len() <= MAX_SUB_AUTHORITIES,
    ensures
        out@ == sid_bytes(SidView { authority, subs: subs@ }),
{
    let mut out: Vec<u8> = Vec::new();
    out.push(1);
    out.push(subs.len() as u8);
    put_be16(&mut out, (authority / 0x1_0000_0000) as u16);
    put_be32(&mut out, (authority % 0x1_0000_0000) as u32);
    let ghost fixed = seq![1u8, subs@.len() as u8] + be16((authority / 0x1_0000_0000) as u16) + be32(
        (authority % 0x1_0000_0000) as u32,
    );
    assert(out@ =~= fixed);
    let mut i: usize = 0;
    while i < subs.len()
        invariant
            i <= subs@.len(),
            out@ == fixed + le32s(subs@.take(i as int)),
        decreases subs@.len() - i,
    {
        put_le32(&mut out, subs[i]);
        assert(out@ =~= fixed + le32s(subs@.take(i + 1)));
        i = i + 1;
    }
    assert(subs@.take(i as int) =~= subs@);
    out
}

/// Reads an identifier authority.
pub fn parse_authority(field: &[u8]) -> (v: Option<u64>)
    ensures
        match v {
            Some(a) => authority_from_text(field@) == Some(a as nat),
            None => authority_from_text(field@) is None,
        },
{
    let value: Option<u64> = if field.len() > 2 && field[0] == 0x30 && (field[1] == 0x78 || field[1] == 0x58) {
        parse_u64_radix(vstd::slice::slice_subrange(field, 2, field.len()), 16)
    } else {
        parse_u64_radix(field, 10)
    };
    match value {
        Some(a) => if a <= MAX_AUTHORITY {
            Some(a)
        } else {
            None
        },
        None => None,
    }
}

/// Reads a literal `S-1-...`.
pub fn parse_sddl(s: &[u8]) -> (r: Option<Sid>)
    ensures
        match r {
            Some(sid) => sid.wf() && sid_from_text(s@) == Some(sid@),
            None => sid_from_text(s@) is None,
        },
{
    let fields: Vec<Vec<u8>> = split_fields(s, 0x2d);
    let ghost f = split(s@, 0x2d);
    if fields.len() < 3 {
        return None;
    }
    assert(fields@[0]@ == f[0] && fields@[1]@ == f[1] && fields@[2]@ == f[2]);
    if fields[0].len() != 1 || (fields[0][0] != 0x53 && fields[0][0] != 0x73) {
        assert(f[0] != seq![0x53u8] && f[0] != seq![0x73u8]);
        return None;
    }
    assert(f[0] =~= seq![f[0][0]]);
    if fields[1].len() != 1 || fields[1][0] != 0x31 {
        assert(f[1] != seq![0x31u8]);
        return None;
    }
    assert(f[1] =~= seq![0x31u8]);
    let authority: u64 = match parse_authority(fields[2].as_slice()) {
        Some(a) => a,
        None => return None,
    };
    if fields.len() > 18 {
        return None;
    }
    let mut subs: Vec<u32> = Vec::new();
    let mut i: usize = 3;
    while i < fields.len()
        invariant
            3 <= i <= fields@.len(),
            f == split(s@, 0x2d),
            fields@.len() == f.len(),
            f.len() <= 18,
            forall|j: int| 0 <= j < fields@.len() ==> #[trigger] fields@[j]@ == f[j],
            subs@ == Seq::new(
                (i - 3) as nat,
                |j: int| number_upto(f[j + 3], 10, u32::MAX as nat)->Some_0 as u32,
            ),
            forall|j: int| 3 <= j < i ==> number_upto(#[trigger] f[j], 10, u32::MAX as nat) is Some,
        decreases fields@.len() - i,
    {
        match parse_u32_dec(fields[i].as_slice()) {
            Some(v) => {
                subs.push(v);
            },
            None => {
                assert(number_upto(f[i as int], 10, u32::MAX as nat) is None);
                return None;
            },
        }
        i = i + 1;
        assert(subs@ =~= Seq::new(
            (i - 3) as nat,
            |j: int| number_upto(f[j + 3], 10, u32::MAX as nat)->Some_0 as u32,
        ));
    }
    let sid = Sid { revision: 1, authority, sub_authorities: subs };
    assert(sid@ =~= sid_from_text(s@)->Some_0);
    Some(sid)
}

/// A word among little-endian words is found again.
proof fn lemma_le32s_word(pre: Seq<u8>, words: Seq<u32>, post: Seq<u8>, k: int)
    requires
        0 <= k < words.len(),
    ensures
        le32_at(pre + le32s(words) + post, pre.len() + 4 * k) == words[k],
{
    let s = pre + le32s(words) + post;
    let p = pre.len() + 4 * k;
    let w = le32s(words);
    assert(4 * k + 3 < w.len());
    assert(w[4 * k] == le32(words[k])[0]);
    assert(w[4 * k + 1] == le32(words[k])[1]);
    assert(w[4 * k + 2] == le32(words[k])[2]);
    assert(w[4 * k + 3] == le32(words[k])[3]);
    assert(s.subrange(p, p + 4) =~= le32(words[k]));
    law_le32_reads_back(s, p, words[k]);
}

/// A SID's binary form, wherever it stands, is read back as that SID.
pub proof fn law_sid_round_trip(pre: Seq<u8>, v: SidView, post: Seq<u8>)
    requires
        v.wf(),
    ensures
        sid_at(pre + sid_bytes(v) + post, pre.len() as int) == Some(
            (v, (pre.len() + sid_bytes(v).len()) as int),
        ),
        sid_bytes(v).len() == 8 + 4 * v.subs.len(),
{
    let s = pre + sid_bytes(v) + post;
    let p = pre.len() as int;
    let b = sid_bytes(v);
    let high = (v.authority / 0x1_0000_0000) as u16;
    let low = (v.authority % 0x1_0000_0000) as u32;
    assert(b.len() == 8 + 4 * v.subs.len());
    assert(s[p] == b[0] && s[p + 1] == b[1]);
    assert(s.subrange(p + 2, p + 4) =~= be16(high));
    assert(s.subrange(p + 4, p + 8) =~= be32(low));
    law_be16_reads_back(s, p + 2, high);
    law_be32_reads_back(s, p + 4, low);
    let fixed = pre + seq![1u8, v.subs.len() as u8] + be16(high) + be32(low);
    assert(s =~= fixed + le32s(v.subs) + post);
    assert forall|i: int| 0 <= i < v.subs.len() implies #[trigger] le32_at(s, p + 8 + 4 * i) == v.subs[i] by {
        lemma_le32s_word(fixed, v.subs, post, i);
    }
    let got = sid_at(s, p)->Some_0.0;
    assert(got.subs =~= v.subs);
}

/// Bytes that are read as a SID are its one binary form, so that two SIDs are the same
/// exactly when their bytes are.
pub proof fn law_sid_canonical(s: Seq<u8>, p: int)
    requires
        sid_at(s, p) is Some,
    ensures
        sid_at(s, p)->Some_0.0.wf(),
        s.subrange(p, sid_at(s, p)->Some_0.1) == sid_bytes(sid_at(s, p)->Some_0.0),
{
    let (v, end) = sid_at(s, p)->Some_0;
    let b = sid_bytes(v);
    let got = s.subrange(p, end);
    let n = s[p + 1] as int;
    assert(v.authority / 0x1_0000_0000 == be16_at(s, p + 2));
    assert(v.authority % 0x1_0000_0000 == be32_at(s, p + 4));
    lemma_be_writes_back(s, p);
    assert forall|i: int| 0 <= i < got.len() implies got[i] == b[i] by {
        if i >= 8 {
            let k = (i - 8) / 4;
            assert(v.subs[k] == le32_at(s, p + 8 + 4 * k));
            lemma_le32_writes_back(s, p + 8 + 4 * k);
            assert(b[i] == le32s(v.subs)[i - 8]);
            assert((i - 8) % 4 == i - 8 - 4 * k);
            assert(s.subrange(p + 8 + 4 * k, p + 12 + 4 * k)[(i - 8) % 4] == s[p + i]);
        } else if i >= 4 {
            assert(b[i] == be32(be32_at(s, p + 4))[i - 4]);
            assert(s.subrange(p + 4, p + 8)[i - 4] == s[p + i]);
        } else if i >= 2 {
            assert(b[i] == be16(be16_at(s, p + 2))[i - 2]);
            assert(s.subrange(p + 2, p + 4)[i - 2] == s[p + i]);
        }
    }
    assert(got =~= b);
}

/// What is read as a little-endian word is written back the same.
proof fn lemma_le32_writes_back(s: Seq<u8>, p: int)
    requires
        0 <= p,
        p + 4 <= s.len(),
    ensures
        le32(le32_at(s, p)) == s.subrange(p, p + 4),
{
    let v = le32_at(s, p);
    let (a, b, c, d) = (s[p], s[p + 1], s[p + 2], s[p + 3]);
    assert(v == a + 256 * b + 65536 * c + 16777216 * d);
    assert(v % 256 == a);
    assert(v / 256 == b + 256 * c + 65536 * d);
    assert(v / 65536 == c + 256 * d);
    assert(v / 16777216 == d);
    assert(le32(v) =~= s.subrange(p, p + 4));
}

/// What is read as an identifier authority is written back the same.
proof fn lemma_be_writes_back(s: Seq<u8>, p: int)
    requires
        0 <= p,
        p + 8 <= s.len(),
    ensures
        be16(be16_at(s, p + 2)) == s.subrange(p + 2, p + 4),
        be32(be32_at(s, p + 4)) == s.subrange(p + 4, p + 8),
{
    let h = be16_at(s, p + 2);
    assert(h / 256 == s[p + 2] && h % 256 == s[p + 3]);
    assert(be16(h) =~= s.subrange(p + 2, p + 4));
    let v = be32_at(s, p + 4);
    let (a, b, c, d) = (s[p + 4], s[p + 5], s[p + 6], s[p + 7]);
    assert(v == d + 256 * c + 65536 * b + 16777216 * a);
    assert(v % 256 == d);
    assert(v / 256 == c + 256 * b + 65536 * a);
    assert(v / 65536 == b + 256 * a);
    assert(v / 16777216 == a);
    assert(be32(v) =~= s.subrange(p + 4, p + 8));
}

/// Splitting before a field without separators.
proof fn lemma_split_field(a: Seq<u8>, field: Seq<u8>, sep: u8)
    requires
        forall|i: int| 0 <= i < field.len() ==> field[i] != sep,
    ensures
        split(a + seq![sep] + field, sep) == split(a, sep).push(field),
    decreases field.len(),
{
    let whole = a + seq![sep] + field;
    if field.len() == 0 {
        assert(field =~= Seq::<u8>::empty());
        assert(whole.drop_last() =~= a);
        assert(split(whole, sep) =~= split(a, sep).push(field));
    } else {
        lemma_split_field(a, field.drop_last(), sep);
        assert(field[field.len() - 1] != sep && whole.last() == field.last());
        assert(whole.drop_last() =~= a + seq![sep] + field.drop_last());
        assert(field.drop_last().push(field.last()) =~= field);
        let before = split(whole.drop_last(), sep);
        assert(before.last() == field.drop_last());
        assert(split(whole, sep) == before.update(before.len() - 1, field));
        assert(split(whole, sep) =~= split(a, sep).push(field));
    }
}

/// A string without separators is one field.
proof fn lemma_split_single(field: Seq<u8>, sep: u8)
    requires
        forall|i: int| 0 <= i < field.len() ==> field[i] != sep,
    ensures
        split(field, sep) == seq![field],
    decreases field.len(),
{
    if field.len() == 0 {
        assert(field =~= Seq::<u8>::empty());
        assert(split(field, sep) =~= seq![field]);
    } else {
        lemma_split_single(field.drop_last(), sep);
        assert(field[field.len() - 1] != sep);
        assert(field.drop_last().push(field.last()) =~= field);
        let before = split(field.drop_last(), sep);
        assert(before.last() == field.drop_last());
        assert(split(field, sep) == before.update(before.len() - 1, field));
        assert(split(field, sep) =~= seq![field]);
    }
}

/// Splitting the sub-authorities off a text.
proof fn lemma_split_subs(a: Seq<u8>, subs: Seq<u32>)
    ensures
        split(a + subs_text(subs), 0x2d) == split(a, 0x2d) + Seq::new(
            subs.len(),
            |i: int| decimal(subs[i] as nat),
        ),
    decreases subs.len(),
{
    if subs.len() == 0 {
        assert(a + subs_text(subs) =~= a);
        assert(split(a, 0x2d) + Seq::new(0, |i: int| decimal(subs[i] as nat)) =~= split(a, 0x2d));
    } else {
        let less = subs.drop_last();
        lemma_split_subs(a, less);
        law_decimal_reads_back(subs.last() as nat);
        lemma_split_field(a + subs_text(less), decimal(subs.last() as nat), 0x2d);
        assert(a + subs_text(subs) =~= a + subs_text(less) + seq![0x2du8] + decimal(subs.last() as nat));
        assert(split(a + subs_text(subs), 0x2d) =~= split(a, 0x2d) + Seq::new(
            subs.len(),
            |i: int| decimal(subs[i] as nat),
        ));
    }
}

/// Formatting a SID and parsing the text gives the SID back.
pub proof fn law_sid_text_round_trip(v: SidView)
    requires
        v.wf(),
    ensures
        sid_from_text(sid_text(v)) == Some(v),
{
    let at = authority_text(v.authority);
    let s1 = seq![0x53u8];
    let s2 = seq![0x31u8];
    let sep = seq![0x2du8];
    if v.authority < 0x1_0000_0000 {
        law_decimal_reads_back(v.authority as nat);
    } else {
        assert(pow16(12) == 0x1_0000_0000_0000) by {
            reveal_with_fuel(pow16, 13);
        }
        law_hex_padded_reads_back(v.authority as nat, 12);
        let h = hex_padded(v.authority as nat, 12);
        assert(at.subrange(2, at.len() as int) =~= h);
    }
    assert(forall|i: int| 0 <= i < at.len() ==> at[i] != 0x2d);
    lemma_split_single(s1, 0x2d);
    lemma_split_field(s1, s2, 0x2d);
    lemma_split_field(s1 + sep + s2, at, 0x2d);
    let head = s1 + sep + s2 + sep + at;
    lemma_split_subs(head, v.subs);
    assert(sid_text(v) =~= head + subs_text(v.subs));
    let f = split(sid_text(v), 0x2d);
    assert(f =~= seq![s1, s2, at] + Seq::new(v.subs.len(), |i: int| decimal(v.subs[i] as nat)));
    assert forall|i: int| 3 <= i < f.len() implies number_upto(#[trigger] f[i], 10, u32::MAX as nat) == Some(
        v.subs[i - 3] as nat,
    ) by {
        law_decimal_reads_back(v.subs[i - 3] as nat);
        assert(f[i] == decimal(v.subs[i - 3] as nat));
    }
    if v.authority < 0x1_0000_0000 {
        assert(at[0] == 0x30 ==> at.len() > 1 ==> 0x30 <= at[1] <= 0x39);
    }
    assert(authority_from_text(f[2]) == Some(v.authority as nat));
    assert(sid_from_text(sid_text(v))->Some_0 =~= v);
}

/// A number below ten to the power of `digits` has no more digits than that.
proof fn lemma_decimal_len(n: nat, digits: nat)
    requires
        1 <= digits <= 10,
        n < pow10(digits),
    ensures
        1 <= decimal(n).len() <= digits,
    decreases digits,
{
    if n >= 10 {
        assert(digits > 1) by {
            reveal_with_fuel(pow10, 2);
        }
        assert(n / 10 < pow10((digits - 1) as nat));
        lemma_decimal_len(n / 10, (digits - 1) as nat);
    }
}

spec fn pow10(n: nat) -> nat
    decreases n,
{
    if n == 0 {
        1
    } else {
        10 * pow10((n - 1) as nat)
    }
}

proof fn lemma_word_len(n: nat)
    requires
        n <= u32::MAX,
    ensures
        1 <= decimal(n).len() <= 10,
{
    assert(pow10(10) == 10_000_000_000) by {
        reveal_with_fuel(pow10, 11);
    }
    lemma_decimal_len(n, 10);
}

proof fn lemma_subs_len(subs: Seq<u32>)
    ensures
        subs_text(subs).len() <= 11 * subs.len(),
    decreases subs.len(),
{
    if subs.len() > 0 {
        lemma_subs_len(subs.drop_last());
        lemma_word_len(subs.last() as nat);
    }
}

/// The text of a SID has at most 183 bytes, so that whatever is formatted is short enough to
/// be parsed again, and gives the SID back.
pub proof fn law_sid_text_is_short(v: SidView, text: &[u8])
    requires
        v.wf(),
        text@ == sid_text(v),
    ensures
        sid_text(v).len() <= 183,
        sid_text(v).len() < MAX_SDDL_LEN,
        sid_of_string(Some(text)) == Some(v),
{
    lemma_subs_len(v.subs);
    if v.authority < 0x1_0000_0000 {
        lemma_word_len(v.authority as nat);
    } else {
        assert(pow16(12) == 0x1_0000_0000_0000) by {
            reveal_with_fuel(pow16, 13);
        }
        law_hex_padded_reads_back(v.authority as nat, 12);
    }
    law_sid_text_round_trip(v);
}

/// The parts of the well-known SID with number `which`.
pub open spec fn well_known(which: i32) -> Option<SidView> {
    if which == 0 {
        Some(SidView { authority: 0, subs: seq![0u32] })
    } else if which == 1 {
        Some(SidView { authority: 1, subs: seq![0u32] })
    } else if which == 2 {
        Some(SidView { authority: 2, subs: seq![0u32] })
    } else if which == 3 {
        Some(SidView { authority: 3, subs: seq![0u32] })
    } else if which == 4 {
        Some(SidView { authority: 3, subs: seq![1u32] })
    } else if which == 5 {
        Some(SidView { authority: 3, subs: seq![4u32] })
    } else if which == 6 {
        Some(SidView { authority: 5, subs: seq![7u32] })
    } else if which == 7 {
        Some(SidView { authority: 5, subs: seq![10u32] })
    } else if which == 8 {
        Some(SidView { authority: 5, subs: seq![11u32] })
    } else if which == 9 {
        Some(SidView { authority: 5, subs: seq![18u32] })
    } else if which == 10 {
        Some(SidView { authority: 5, subs: seq![19u32] })
    } else if which == 11 {
        Some(SidView { authority: 5, subs: seq![20u32] })
    } else if which == 12 {
        Some(SidView { authority: 5, subs: seq![32u32, 544u32] })
    } else {
        None
    }
}

/// Encodes a SID from its parts; fails when there are too many sub-authorities or the
/// authority does not fit 48 bits. No sub-authorities are given for a null pointer.
pub fn peios_sid_build(id_authority: u64, sub_auths: Option<&[u32]>, count: usize) -> (r: Result<Vec<u8>, Errno>)
    requires
        sub_auths matches Some(s) ==> s@.len() == count,
    ensures
        match r {
            Ok(out) => {
                &&& count <= MAX_SUB_AUTHORITIES
                &&& id_authority <= MAX_AUTHORITY
                &&& count == 0 || sub_auths is Some
                &&& out@ == sid_bytes(
                    SidView {
                        authority: id_authority,
                        subs: if count == 0 {
                            Seq::empty()
                        } else {
                            sub_auths->Some_0@
                        },
                    },
                )
            },
            Err(e) => {
                &&& e == Errno::Inval
                &&& count > MAX_SUB_AUTHORITIES || id_authority > MAX_AUTHORITY || (count > 0 && sub_auths is None)
            },
        },
{
    if count > MAX_SUB_AUTHORITIES || id_authority > MAX_AUTHORITY {
        return Err(Errno::Inval);
    }
    match sub_auths {
        Some(subs) => {
            proof {
                if count == 0 {
                    assert(subs@ =~= Seq::<u32>::empty());
                }
            }
            Ok(encode_sid(id_authority, subs))
        },
        None => {
            if count > 0 {
                return Err(Errno::Inval);
            }
            let none: &[u32] = &[];
            assert(none@ =~= Seq::<u32>::empty());
            Ok(encode_sid(id_authority, none))
        },
    }
}

/// The integrity-label SID `S-1-16-rid`.
pub fn peios_sid_integrity(level_rid: u32) -> (out: Vec<u8>)
    ensures
        out@ == sid_bytes(SidView { authority: 16, subs: seq![level_rid] }),
{
    let subs: [u32; 1] = [level_rid];
    assert(subs@ =~= seq![level_rid]);
    encode_sid(16, subs.as_slice())
}

/// The logon SID `S-1-5-5-hi-lo` of a session.
pub fn peios_sid_logon(session_id: u64) -> (out: Vec<u8>)
    ensures
        out@ == sid_bytes(
            SidView {
                authority: 5,
                subs: seq![5u32, (session_id / 0x1_0000_0000) as u32, (session_id % 0x1_0000_0000) as u32],
            },
        ),
{
    let hi: u32 = (session_id / 0x1_0000_0000) as u32;
    let lo: u32 = (session_id % 0x1_0000_0000) as u32;
    let subs: [u32; 3] = [5, hi, lo];
    assert(subs@ =~= seq![5u32, hi, lo]);
    encode_sid(5, subs.as_slice())
}

/// The well-known SID with number `which`; fails when there is none.
pub fn peios_sid_well_known(which: i32) -> (r: Result<Vec<u8>, Errno>)
    ensures
        match r {
            Ok(out) => well_known(which) matches Some(v) && out@ == sid_bytes(v),
            Err(e) => well_known(which) is None && e == Errno::Inval,
        },
{
    if which == 12 {
        let subs: [u32; 2] = [32, 544];
        assert(subs@ =~= seq![32u32, 544u32]);
        return Ok(encode_sid(5, subs.as_slice()));
    }
    let (authority, sub): (u64, u32) = match which {
        0 => (0, 0),
        1 => (1, 0),
        2 => (2, 0),
        3 => (3, 0),
        4 => (3, 1),
        5 => (3, 4),
        6 => (5, 7),
        7 => (5, 10),
        8 => (5, 11),
        9 => (5, 18),
        10 => (5, 19),
        11 => (5, 20),
        _ => return Err(Errno::Inval),
    };
    let subs: [u32; 1] = [sub];
    assert(subs@ =~= seq![sub]);
    Ok(encode_sid(authority, subs.as_slice()))
}

/// The SID that a caller hands over, if there is one.
pub open spec fn given_sid(sid: Option<&[u8]>) -> Option<SidView> {
    match sid {
        Some(s) => sid_of(s@),
        None => None,
    }
}

/// The text form of a binary SID; fails when the bytes are not one.
pub fn peios_sid_format(sid: Option<&[u8]>) -> (r: Result<Vec<u8>, Errno>)
    ensures
        match r {
            Ok(out) => given_sid(sid) matches Some(v) && out@ == sid_text(v),
            Err(e) => given_sid(sid) is None && e == Errno::Inval,
        },
{
    match sid {
        Some(bytes) => match Sid::parse(bytes) {
            Some(parsed) => Ok(parsed.to_text()),
            None => Err(Errno::Inval),
        },
        None => Err(Errno::Inval),
    }
}

/// Whether bytes are one SID and nothing else.
pub fn peios_sid_valid(sid: Option<&[u8]>) -> (valid: bool)
    ensures
        valid == (sid is Some && sid_valid(sid->Some_0@)),
{
    match sid {
        Some(bytes) => Sid::parse(bytes).is_some(),
        None => false,
    }
}

/// The length that a SID's count byte announces; zero for a null pointer.
pub fn peios_sid_length(sid: Option<&[u8]>) -> (n: usize)
    requires
        sid matches Some(s) ==> s@.len() >= 2,
    ensures
        n == (match sid {
            Some(s) => 8 + 4 * s@[1],
            None => 0,
        }),
{
    match sid {
        Some(bytes) => 8 + 4 * (bytes[1] as usize),
        None => 0,
    }
}

/// Whether two binary SIDs are the same bytes. A null pointer equals only what is empty.
pub fn peios_sid_equal(a: Option<&[u8]>, alen: usize, b: Option<&[u8]>, blen: usize) -> (same: bool)
    requires
        a matches Some(s) ==> s@.len() == alen,
        b matches Some(s) ==> s@.len() == blen,
    ensures
        same == (alen == blen && (alen == 0 || (a is Some && b is Some && a->Some_0@ == b->Some_0@))),
{
    if alen != blen {
        return false;
    }
    if alen == 0 {
        return true;
    }
    match (a, b) {
        (Some(x), Some(y)) => same_bytes(x, y),
        _ => false,
    }
}

/// The last sub-authority of a binary SID; zero when there is none.
pub fn peios_sid_rid(sid: Option<&[u8]>) -> (rid: u32)
    ensures
        rid == (match given_sid(sid) {
            Some(v) => if v.subs.len() > 0 {
                v.subs.last()
            } else {
                0
            },
            None => 0,
        }),
{
    match sid {
        Some(bytes) => match Sid::parse(bytes) {
            Some(parsed) => {
                let n: usize = parsed.sub_authorities.len();
                if n > 0 {
                    parsed.sub_authorities[n - 1]
                } else {
                    0
                }
            },
            None => 0,
        },
        None => 0,
    }
}

/// Texts of SIDs are shorter than this.
pub const MAX_SDDL_LEN: usize = 256;

/// Behind white space, the text starts like a literal.
pub open spec fn looks_literal(s: Seq<u8>) -> bool
    decreases s.len(),
{
    if s.len() < 2 {
        false
    } else if is_space(s[0]) {
        looks_literal(s.subrange(1, s.len() as int))
    } else {
        (s[0] == 0x53 || s[0] == 0x73) && s[1] == 0x2d
    }
}

fn starts_like_literal(s: &[u8]) -> (r: bool)
    ensures
        r == looks_literal(s@),
{
    let mut p: usize = 0;
    assert(s@.subrange(0, s@.len() as int) =~= s@);
    while p < s.len() && ((s[p] >= 0x09 && s[p] <= 0x0d) || s[p] == 0x20)
        invariant
            p <= s@.len(),
            looks_literal(s@) == looks_literal(s@.subrange(p as int, s@.len() as int)),
        decreases s@.len() - p,
    {
        let ghost rest = s@.subrange(p as int, s@.len() as int);
        assert(rest[0] == s@[p as int]);
        assert(rest.subrange(1, rest.len() as int) =~= s@.subrange(p + 1, s@.len() as int));
        p = p + 1;
    }
    let ghost rest = s@.subrange(p as int, s@.len() as int);
    if s.len() - p < 2 {
        return false;
    }
    assert(rest[0] == s@[p as int] && rest[1] == s@[p + 1]);
    (s[p] == 0x53 || s[p] == 0x73) && s[p + 1] == 0x2d
}

/// The SID that a string denotes: a literal, strictly, or else a name. What only looks like a
/// literal is not looked up.
pub open spec fn sid_of_string(text: Option<&[u8]>) -> Option<SidView> {
    if text is None || text->Some_0@.len() >= MAX_SDDL_LEN {
        None
    } else {
        let t = text->Some_0@;
        match sid_from_text(t) {
            Some(v) => Some(v),
            None => if !vstd::utf8::valid_utf8(t) || looks_literal(t) {
                None
            } else {
                match sid_from_field(t) {
                    Ok(v) => Some(v),
                    Err(_) => None,
                }
            },
        }
    }
}

/// The binary form of the SID that a string denotes.
pub fn peios_sid_parse_string(text: Option<&[u8]>) -> (r: Result<Vec<u8>, Errno>)
    ensures
        match r {
            Ok(b) => sid_of_string(text) is Some && b@ == sid_bytes(sid_of_string(text)->Some_0),
            Err(e) => e == Errno::Inval && sid_of_string(text) is None,
        },
{
    let text: &[u8] = match text {
        Some(text) => text,
        None => return Err(Errno::Inval),
    };
    if text.len() >= MAX_SDDL_LEN {
        return Err(Errno::Inval);
    }
    if let Some(sid) = parse_sddl(text) {
        return Ok(sid.encode());
    }
    if !is_utf8(text) || starts_like_literal(text) {
        return Err(Errno::Inval);
    }
    match parse_sid(text) {
        Ok(sid) => Ok(sid.encode()),
        Err(_) => Err(Errno::Inval),
    }
}

} // verus!
