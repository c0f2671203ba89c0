//! Views of descriptors, lists, entries and SID arrays inside a caller's buffer. Parsing
//! checks everything up front, so that looking into a view cannot fail halfway.

use vstd::prelude::*;
use vstd::slice::slice_subrange;
use crate::bytes::{le32, le32_at, law_le32_reads_back, rd_u32};
use crate::error::Errno;
use crate::security::codec::{
    acl_aces, sd_control, sd_dacl, sd_group, sd_owner, sd_sacl, AceRef, Acl, SecurityDescriptor,
};
use crate::security::rules::{
    ace_family, ace_sound, acl_sound, acl_valid, family, find_parts, parts_of, sd_sound, sd_valid, AceFamily, AceParts,
};
use crate::security::sid::{law_sid_canonical, peios_sid_valid, sid_at, sid_bytes, sid_valid, Sid};

verus! {

/// A descriptor that the kernel accepts.
#[allow(non_camel_case_types)]
#[derive(Clone, Copy)]
pub struct peios_sd_view<'a> {
    pub bytes: &'a [u8],
}

/// A list that the kernel accepts.
#[allow(non_camel_case_types)]
#[derive(Clone, Copy)]
pub struct peios_acl_view<'a> {
    pub bytes: &'a [u8],
}

/// An entry that the kernel accepts.
#[allow(non_camel_case_types)]
#[derive(Clone, Copy)]
pub struct peios_ace_view<'a> {
    pub ace: AceRef<'a>,
}

/// An array of SIDs with attributes.
#[allow(non_camel_case_types)]
#[derive(Clone, Copy)]
pub struct peios_sid_array_view<'a> {
    pub bytes: &'a [u8],
}

impl<'a> peios_sd_view<'a> {
    pub open spec fn wf(&self) -> bool {
        sd_sound(self.bytes@)
    }
}

impl<'a> peios_acl_view<'a> {
    pub open spec fn wf(&self) -> bool {
        acl_sound(self.bytes@)
    }
}

impl<'a> peios_ace_view<'a> {
    pub open spec fn wf(&self) -> bool {
        self.ace.wf() && ace_sound(self.ace@)
    }

    /// The parts of the entry, unless its type is not looked into.
    pub open spec fn parts(&self) -> Option<AceParts> {
        if family(self.ace.ace_type) == AceFamily::Opaque {
            None
        } else {
            parts_of(family(self.ace.ace_type), self.ace.body@)
        }
    }

    /// Whether the entry has data of its own behind the SID.
    pub open spec fn has_app_data(&self) -> bool {
        let f = family(self.ace.ace_type);
        f == AceFamily::Callback || f == AceFamily::CallbackObject || f == AceFamily::ResourceAttribute
    }
}

/// The bytes of the SID at an offset.
pub open spec fn sid_slice_at(s: Seq<u8>, off: u32) -> Seq<u8> {
    s.subrange(off as int, sid_at(s, off as int)->Some_0.1)
}

/// Checks a descriptor.
pub fn peios_sd_parse<'a>(sd: Option<&'a [u8]>) -> (r: Result<peios_sd_view<'a>, Errno>)
    ensures
        match r {
            Ok(v) => sd == Some(v.bytes) && v.wf(),
            Err(e) => e == Errno::Inval && (sd is None || !sd_sound(sd->Some_0@)),
        },
{
    match sd {
        Some(bytes) => match sd_valid(bytes) {
            Some(_) => Ok(peios_sd_view { bytes }),
            None => Err(Errno::Inval),
        },
        None => Err(Errno::Inval),
    }
}

/// The control word.
pub fn peios_sd_view_control(v: &peios_sd_view) -> (control: u16)
    requires
        v.wf(),
    ensures
        control == sd_control(v.bytes@),
{
    crate::bytes::rd_u16(v.bytes, 2)
}

/// The bytes of the SID at an offset; zero stands for none.
fn sid_at_offset<'a>(s: &'a [u8], off: u32) -> (r: Option<&'a [u8]>)
    requires
        off == 0 || sid_at(s@, off as int) is Some,
    ensures
        match r {
            Some(b) => off != 0 && b@ == sid_slice_at(s@, off) && sid_valid(b@),
            None => off == 0,
        },
{
    if off == 0 {
        return None;
    }
    match Sid::parse_at(s, off as usize) {
        Some((sid, end)) => {
            let b = slice_subrange(s, off as usize, end);
            proof {
                law_sid_canonical(s@, off as int);
                crate::security::sid::law_sid_round_trip(Seq::empty(), sid@, Seq::empty());
                assert(Seq::<u8>::empty() + b@ + Seq::<u8>::empty() =~= b@);
            }
            Some(b)
        },
        None => None,
    }
}

/// The owner's SID, if there is an owner.
pub fn peios_sd_view_owner<'a>(v: &peios_sd_view<'a>) -> (r: Option<&'a [u8]>)
    requires
        v.wf(),
    ensures
        match r {
            Some(b) => sd_owner(v.bytes@)->Ok_0 is Some && b@ == sid_bytes(sd_owner(v.bytes@)->Ok_0->Some_0),
            None => sd_owner(v.bytes@)->Ok_0 is None,
        },
{
    let off: u32 = rd_u32(v.bytes, 4);
    proof {
        if off != 0 {
            law_sid_canonical(v.bytes@, off as int);
        }
    }
    sid_at_offset(v.bytes, off)
}

/// The primary group's SID, if there is a group.
pub fn peios_sd_view_group<'a>(v: &peios_sd_view<'a>) -> (r: Option<&'a [u8]>)
    requires
        v.wf(),
    ensures
        match r {
            Some(b) => sd_group(v.bytes@)->Ok_0 is Some && b@ == sid_bytes(sd_group(v.bytes@)->Ok_0->Some_0),
            None => sd_group(v.bytes@)->Ok_0 is None,
        },
{
    let off: u32 = rd_u32(v.bytes, 8);
    proof {
        if off != 0 {
            law_sid_canonical(v.bytes@, off as int);
        }
    }
    sid_at_offset(v.bytes, off)
}

/// The discretionary list, if there is one.
pub fn peios_sd_view_dacl<'a>(v: &peios_sd_view<'a>) -> (r: Option<peios_acl_view<'a>>)
    requires
        v.wf(),
    ensures
        match r {
            Some(a) => a.wf() && sd_dacl(v.bytes@)->Ok_0 == Some(a.bytes@),
            None => sd_dacl(v.bytes@)->Ok_0 is None,
        },
{
    match SecurityDescriptor::parse(v.bytes) {
        Ok(sd) => match sd.dacl() {
            Ok(Some(acl)) => Some(peios_acl_view { bytes: acl.bytes }),
            _ => None,
        },
        Err(_) => None,
    }
}

/// The system list, if there is one.
pub fn peios_sd_view_sacl<'a>(v: &peios_sd_view<'a>) -> (r: Option<peios_acl_view<'a>>)
    requires
        v.wf(),
    ensures
        match r {
            Some(a) => a.wf() && sd_sacl(v.bytes@)->Ok_0 == Some(a.bytes@),
            None => sd_sacl(v.bytes@)->Ok_0 is None,
        },
{
    match SecurityDescriptor::parse(v.bytes) {
        Ok(sd) => match sd.sacl() {
            Ok(Some(acl)) => Some(peios_acl_view { bytes: acl.bytes }),
            _ => None,
        },
        Err(_) => None,
    }
}

/// Checks a list.
pub fn peios_acl_parse<'a>(acl: Option<&'a [u8]>) -> (r: Result<peios_acl_view<'a>, Errno>)
    ensures
        match r {
            Ok(v) => acl == Some(v.bytes) && v.wf(),
            Err(e) => e == Errno::Inval && (acl is None || !acl_sound(acl->Some_0@)),
        },
{
    match acl {
        Some(bytes) => if acl_valid(bytes) {
            Ok(peios_acl_view { bytes })
        } else {
            Err(Errno::Inval)
        },
        None => Err(Errno::Inval),
    }
}

/// The number of entries.
pub fn peios_acl_view_count(a: &peios_acl_view) -> (n: u32)
    requires
        a.wf(),
    ensures
        n == acl_aces(a.bytes@).len(),
{
    crate::bytes::rd_u16(a.bytes, 4) as u32
}

/// The entry with index `i`.
pub fn peios_acl_view_ace<'a>(a: &peios_acl_view<'a>, i: u32) -> (r: Result<peios_ace_view<'a>, Errno>)
    requires
        a.wf(),
    ensures
        match r {
            Ok(v) => i < acl_aces(a.bytes@).len() && v.wf() && v.ace@ == acl_aces(a.bytes@)[i as int],
            Err(e) => i >= acl_aces(a.bytes@).len() && e == Errno::Range,
        },
{
    let acl: Acl = match Acl::parse(a.bytes) {
        Ok(acl) => acl,
        Err(_) => return Err(Errno::Range),
    };
    let aces: Vec<AceRef> = acl.aces();
    if (i as usize) < aces.len() {
        let ace: AceRef = aces[i as usize];
        assert(ace@ == acl_aces(a.bytes@)[i as int]);
        Ok(peios_ace_view { ace })
    } else {
        Err(Errno::Range)
    }
}

/// The type of an entry.
pub fn peios_ace_view_type(e: &peios_ace_view) -> (t: u8)
    ensures
        t == e.ace@.ace_type,
{
    e.ace.ace_type
}

/// The flags of an entry.
pub fn peios_ace_view_flags(e: &peios_ace_view) -> (f: u8)
    ensures
        f == e.ace@.flags,
{
    e.ace.flags
}

fn parts_of_view(e: &peios_ace_view) -> (p: Option<AceParts>)
    requires
        e.wf(),
    ensures
        p == e.parts(),
        p matches Some(x) ==> x.sid_start <= x.sid_end <= e.ace.body@.len(),
{
    let f: AceFamily = ace_family(e.ace.ace_type);
    if f == AceFamily::Opaque {
        None
    } else {
        find_parts(f, e.ace.body)
    }
}

/// The access mask; zero for an entry that is not looked into.
pub fn peios_ace_view_mask(e: &peios_ace_view) -> (mask: u32)
    requires
        e.wf(),
    ensures
        mask == (match e.parts() {
            Some(p) => p.mask,
            None => 0,
        }),
{
    match parts_of_view(e) {
        Some(p) => p.mask,
        None => 0,
    }
}

/// The SID of an entry, unless it is not looked into.
pub fn peios_ace_view_sid<'a>(e: &peios_ace_view<'a>) -> (r: Option<&'a [u8]>)
    requires
        e.wf(),
    ensures
        match r {
            Some(b) => e.parts() matches Some(p) && b@ == e.ace.body@.subrange(
                p.sid_start as int,
                p.sid_end as int,
            ),
            None => e.parts() is None,
        },
{
    match parts_of_view(e) {
        Some(p) => Some(slice_subrange(e.ace.body, p.sid_start, p.sid_end)),
        None => None,
    }
}

/// The sixteen bytes of a GUID.
pub open spec fn guid_at(s: Seq<u8>, at: usize) -> Seq<u8> {
    s.subrange(at as int, at + 16)
}

/// The object-type GUID, if there is one.
pub fn peios_ace_view_object_type<'a>(e: &peios_ace_view<'a>) -> (r: Option<&'a [u8]>)
    requires
        e.wf(),
    ensures
        match r {
            Some(b) => e.parts() is Some && e.parts()->Some_0.object_type is Some && b@ == guid_at(
                e.ace.body@,
                e.parts()->Some_0.object_type->Some_0,
            ),
            None => e.parts() is None || e.parts()->Some_0.object_type is None,
        },
{
    match parts_of_view(e) {
        Some(p) => match p.object_type {
            Some(at) => Some(slice_subrange(e.ace.body, at, at + 16)),
            None => None,
        },
        None => None,
    }
}

/// The inherited object-type GUID, if there is one.
pub fn peios_ace_view_inherited_object_type<'a>(e: &peios_ace_view<'a>) -> (r: Option<&'a [u8]>)
    requires
        e.wf(),
    ensures
        match r {
            Some(b) => e.parts() is Some && e.parts()->Some_0.inherited_object_type is Some && b@ == guid_at(
                e.ace.body@,
                e.parts()->Some_0.inherited_object_type->Some_0,
            ),
            None => e.parts() is None || e.parts()->Some_0.inherited_object_type is None,
        },
{
    match parts_of_view(e) {
        Some(p) => match p.inherited_object_type {
            Some(at) => Some(slice_subrange(e.ace.body, at, at + 16)),
            None => None,
        },
        None => None,
    }
}

/// The data behind the SID, for the types of entry that have such data.
pub fn peios_ace_view_app_data<'a>(e: &peios_ace_view<'a>) -> (r: Option<&'a [u8]>)
    requires
        e.wf(),
    ensures
        match r {
            Some(b) => e.has_app_data() && b@ == e.ace.body@.subrange(
                e.parts()->Some_0.sid_end as int,
                e.ace.body@.len() as int,
            ),
            None => !e.has_app_data(),
        },
{
    match ace_family(e.ace.ace_type) {
        AceFamily::Callback => {},
        AceFamily::CallbackObject => {},
        AceFamily::ResourceAttribute => {},
        _ => return None,
    }
    match parts_of_view(e) {
        Some(p) => Some(slice_subrange(e.ace.body, p.sid_end, e.ace.body.len())),
        None => None,
    }
}

/// One entry of an array: a length, that many bytes that are a SID, and attributes; and where
/// the entry ends.
pub open spec fn sid_entry_at(s: Seq<u8>, p: int) -> Option<((Seq<u8>, u32), int)> {
    if p < 0 || p + 4 > s.len() {
        None
    } else {
        let n = le32_at(s, p) as int;
        if p + 4 + n + 4 > s.len() || !sid_valid(s.subrange(p + 4, p + 4 + n)) {
            None
        } else {
            Some(((s.subrange(p + 4, p + 4 + n), le32_at(s, p + 4 + n)), p + 8 + n))
        }
    }
}

/// The entries from `p` on, if there are exactly `count` up to the end.
pub open spec fn sid_entries(s: Seq<u8>, p: int, count: nat) -> Option<Seq<(Seq<u8>, u32)>>
    decreases count,
{
    if count == 0 {
        if p == s.len() {
            Some(Seq::empty())
        } else {
            None
        }
    } else {
        match sid_entry_at(s, p) {
            None => None,
            Some((e, q)) => match sid_entries(s, q, (count - 1) as nat) {
                None => None,
                Some(rest) => Some(seq![e] + rest),
            },
        }
    }
}

/// The entries of an array: a count, then that many entries and nothing else.
pub open spec fn sid_array(s: Seq<u8>) -> Option<Seq<(Seq<u8>, u32)>> {
    if s.len() < 4 {
        None
    } else {
        sid_entries(s, 4, le32_at(s, 0) as nat)
    }
}

impl<'a> peios_sid_array_view<'a> {
    pub open spec fn wf(&self) -> bool {
        sid_array(self.bytes@) is Some
    }

    pub open spec fn entries(&self) -> Seq<(Seq<u8>, u32)> {
        sid_array(self.bytes@)->Some_0
    }
}

/// The count at the start of an array; zero if it is cut short.
pub fn sid_array_count_of(blob: &[u8]) -> (n: u32)
    ensures
        n == (if blob@.len() < 4 {
            0
        } else {
            le32_at(blob@, 0)
        }),
{
    if blob.len() < 4 {
        0
    } else {
        rd_u32(blob, 0)
    }
}

/// Whether bytes are an array.
pub fn sid_array_valid(blob: &[u8]) -> (valid: bool)
    ensures
        valid == (sid_array(blob@) is Some),
{
    if blob.len() < 4 {
        return false;
    }
    let count: u32 = sid_array_count_of(blob);
    let mut left: u32 = count;
    let mut off: usize = 4;
    while left > 0
        invariant
            4 <= off <= blob@.len(),
            blob@.len() == blob.len(),
            sid_array(blob@) is Some == (sid_entries(blob@, off as int, left as nat) is Some),
        decreases left,
    {
        if blob.len() - off < 4 {
            return false;
        }
        let sid_len: usize = rd_u32(blob, off) as usize;
        let start: usize = off + 4;
        if sid_len > blob.len() - start {
            return false;
        }
        let end: usize = start + sid_len;
        if !peios_sid_valid(Some(slice_subrange(blob, start, end))) {
            return false;
        }
        if blob.len() - end < 4 {
            return false;
        }
        off = end + 4;
        left = left - 1;
    }
    off == blob.len()
}

/// Checks an array.
pub fn peios_sid_array_parse<'a>(blob: Option<&'a [u8]>) -> (r: Result<peios_sid_array_view<'a>, Errno>)
    ensures
        match r {
            Ok(v) => blob == Some(v.bytes) && v.wf(),
            Err(e) => e == Errno::Inval && (blob is None || sid_array(blob->Some_0@) is None),
        },
{
    match blob {
        Some(bytes) => if sid_array_valid(bytes) {
            Ok(peios_sid_array_view { bytes })
        } else {
            Err(Errno::Inval)
        },
        None => Err(Errno::Inval),
    }
}

/// An array has as many entries as it says.
proof fn lemma_entries_len(s: Seq<u8>, p: int, count: nat)
    ensures
        sid_entries(s, p, count) matches Some(l) ==> l.len() == count,
    decreases count,
{
    if count > 0 {
        if let Some((e, q)) = sid_entry_at(s, p) {
            lemma_entries_len(s, q, (count - 1) as nat);
        }
    }
}

/// The number of entries.
pub fn peios_sid_array_count(a: &peios_sid_array_view) -> (n: u32)
    requires
        a.wf(),
    ensures
        n == a.entries().len(),
{
    proof {
        lemma_entries_len(a.bytes@, 4, le32_at(a.bytes@, 0) as nat);
    }
    sid_array_count_of(a.bytes)
}

/// The SID and the attributes of the entry with index `i`.
pub fn peios_sid_array_get<'a>(a: &peios_sid_array_view<'a>, i: u32) -> (r: Result<(&'a [u8], u32), Errno>)
    requires
        a.wf(),
    ensures
        match r {
            Ok((sid, attrs)) => i < a.entries().len() && a.entries()[i as int] == (sid@, attrs),
            Err(e) => i >= a.entries().len() && e == Errno::Range,
        },
{
    let blob: &'a [u8] = a.bytes;
    let count: u32 = sid_array_count_of(blob);
    proof {
        lemma_entries_len(blob@, 4, count as nat);
    }
    if i >= count {
        return Err(Errno::Range);
    }
    let ghost all = a.entries();
    let mut off: usize = 4;
    let mut k: u32 = 0;
    assert(all.subrange(0, all.len() as int) =~= all);
    while k < i
        invariant
            k <= i < count,
            4 <= off <= blob@.len(),
            blob@.len() == blob.len(),
            all.len() == count,
            sid_entries(blob@, off as int, (count - k) as nat) == Some(all.subrange(k as int, count as int)),
        decreases i - k,
    {
        let ghost rest = all.subrange(k as int, count as int);
        let sid_len: usize = rd_u32(blob, off) as usize;
        let ghost next = sid_entries(blob@, off + 8 + sid_len, (count - k - 1) as nat)->Some_0;
        assert(rest == seq![sid_entry_at(blob@, off as int)->Some_0.0] + next);
        assert(next =~= rest.subrange(1, rest.len() as int));
        assert(next =~= all.subrange(k + 1, count as int));
        off = off + 8 + sid_len;
        k = k + 1;
    }
    let ghost rest = all.subrange(i as int, count as int);
    assert(rest[0] == all[i as int]);
    let sid_len: usize = rd_u32(blob, off) as usize;
    let sid = slice_subrange(blob, off + 4, off + 4 + sid_len);
    let attrs: u32 = rd_u32(blob, off + 4 + sid_len);
    Ok((sid, attrs))
}

/// The bytes of one entry.
pub open spec fn sid_entry_bytes(e: (Seq<u8>, u32)) -> Seq<u8> {
    le32(e.0.len() as u32) + e.0 + le32(e.1)
}

/// The bytes of entries, one after the other.
pub open spec fn sid_entries_bytes(l: Seq<(Seq<u8>, u32)>) -> Seq<u8>
    decreases l.len(),
{
    if l.len() == 0 {
        Seq::empty()
    } else {
        sid_entries_bytes(l.drop_last()) + sid_entry_bytes(l.last())
    }
}

/// Entries from the front.
proof fn lemma_entries_front(e: (Seq<u8>, u32), rest: Seq<(Seq<u8>, u32)>)
    ensures
        sid_entries_bytes(seq![e] + rest) == sid_entry_bytes(e) + sid_entries_bytes(rest),
    decreases rest.len(),
{
    let all = seq![e] + rest;
    if rest.len() == 0 {
        assert(all.drop_last() =~= rest);
        assert(sid_entries_bytes(rest) =~= Seq::<u8>::empty());
        assert(all.last() == e);
        assert(sid_entries_bytes(all) =~= sid_entry_bytes(e) + sid_entries_bytes(rest));
    } else {
        lemma_entries_front(e, rest.drop_last());
        assert(all.drop_last() =~= seq![e] + rest.drop_last());
        assert(all.last() == rest.last());
        assert(sid_entries_bytes(all) =~= sid_entry_bytes(e) + sid_entries_bytes(rest));
    }
}

/// Entries that are written behind `pre` are read back from there.
proof fn lemma_entries_read_back(pre: Seq<u8>, l: Seq<(Seq<u8>, u32)>)
    requires
        forall|i: int| 0 <= i < l.len() ==> sid_valid((#[trigger] l[i]).0),
    ensures
        sid_entries(pre + sid_entries_bytes(l), pre.len() as int, l.len()) == Some(l),
    decreases l.len(),
{
    let s = pre + sid_entries_bytes(l);
    if l.len() == 0 {
        assert(l =~= Seq::<(Seq<u8>, u32)>::empty());
    } else {
        let e = l[0];
        let rest = l.subrange(1, l.len() as int);
        let n = e.0.len() as u32;
        let p = pre.len() as int;
        assert(l =~= seq![e] + rest);
        lemma_entries_front(e, rest);
        assert(sid_valid(e.0));
        assert(e.0.len() <= 68);
        assert(s.subrange(p, p + 4) =~= le32(n));
        law_le32_reads_back(s, p, n);
        assert(s.subrange(p + 4, p + 4 + n) =~= e.0);
        assert(s.subrange(p + 4 + n, p + 8 + n) =~= le32(e.1));
        law_le32_reads_back(s, p + 4 + n, e.1);
        let pre2 = pre + sid_entry_bytes(e);
        assert(s =~= pre2 + sid_entries_bytes(rest));
        assert forall|i: int| 0 <= i < rest.len() implies sid_valid((#[trigger] rest[i]).0) by {
            assert(rest[i] == l[i + 1]);
        }
        lemma_entries_read_back(pre2, rest);
    }
}

/// A count and that many entries are an array of exactly these entries.
pub proof fn law_sid_array_round_trip(l: Seq<(Seq<u8>, u32)>)
    requires
        l.len() <= u32::MAX,
        forall|i: int| 0 <= i < l.len() ==> sid_valid((#[trigger] l[i]).0),
    ensures
        sid_array(le32(l.len() as u32) + sid_entries_bytes(l)) == Some(l),
{
    let n = l.len() as u32;
    let s = le32(n) + sid_entries_bytes(l);
    assert(s.subrange(0, 4) =~= le32(n));
    law_le32_reads_back(s, 0, n);
    lemma_entries_read_back(le32(n), l);
}

} // verus!
