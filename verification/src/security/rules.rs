//! Which entries, lists and descriptors the kernel accepts, beyond their mere layout.

use vstd::prelude::*;
use vstd::slice::slice_subrange;
use crate::bytes::{le16_at, le32_at, rd_u16, rd_u32};
use crate::security::codec::{
    ACE_TYPE_ACCESS_ALLOWED_CALLBACK, ACE_TYPE_ACCESS_ALLOWED_CALLBACK_OBJECT, ACE_TYPE_ACCESS_ALLOWED_OBJECT,
    ACE_TYPE_ACCESS_DENIED_CALLBACK, ACE_TYPE_ACCESS_DENIED_CALLBACK_OBJECT, ACE_TYPE_SYSTEM_ALARM,
    ACE_TYPE_SYSTEM_ALARM_CALLBACK, ACE_TYPE_SYSTEM_ALARM_CALLBACK_OBJECT, ACE_TYPE_SYSTEM_ALARM_OBJECT,
    ACE_TYPE_SYSTEM_AUDIT_CALLBACK, ACE_TYPE_SYSTEM_AUDIT_CALLBACK_OBJECT, ACE_TYPE_SYSTEM_MANDATORY_LABEL,
    ACE_TYPE_SYSTEM_PROCESS_TRUST_LABEL, ACE_TYPE_SYSTEM_RESOURCE_ATTRIBUTE, ACE_TYPE_SYSTEM_SCOPED_POLICY_ID, AceRef,
    AceView, Acl, SE_DACL_PRESENT, SE_SACL_PRESENT, SE_SELF_RELATIVE, SecurityDescriptor, ace_views, aces_bytes,
    acl_aces, acl_complete, is_acl, sd_control, sd_dacl, sd_fault, sd_sacl,
};
use crate::security::sid::{sid_at, Sid, SidView};

verus! {

/// Mask bits that no entry may have: the reserved ones and "maximum allowed".
pub const FORBIDDEN_MASK_BITS: u32 = 0x0ee0_0000;

pub const CLAIM_TYPE_INT64: u16 = 1;
pub const CLAIM_TYPE_UINT64: u16 = 2;
pub const CLAIM_TYPE_STRING: u16 = 3;
pub const CLAIM_TYPE_SID: u16 = 5;
pub const CLAIM_TYPE_BOOLEAN: u16 = 6;
pub const CLAIM_TYPE_OCTET: u16 = 0x10;

/// The value types that a claim can have.
pub open spec fn claim_type_known(t: u16) -> bool {
    t == CLAIM_TYPE_INT64 || t == CLAIM_TYPE_UINT64 || t == CLAIM_TYPE_STRING || t == CLAIM_TYPE_SID || t
        == CLAIM_TYPE_BOOLEAN || t == CLAIM_TYPE_OCTET
}

/// The value types whose values are numbers.
pub open spec fn claim_type_scalar(t: u16) -> bool {
    t == CLAIM_TYPE_INT64 || t == CLAIM_TYPE_UINT64 || t == CLAIM_TYPE_BOOLEAN
}

/// At `off` there is UTF-16 text with a terminator.
pub open spec fn utf16_ends(s: Seq<u8>, off: int) -> bool {
    exists|k: int| 0 <= k && off + 2 * k + 2 <= s.len() && #[trigger] utf16_nul_at(s, off, k)
}

/// The unit with index `k` behind `off` is the terminator.
pub open spec fn utf16_nul_at(s: Seq<u8>, off: int, k: int) -> bool {
    s[off + 2 * k] == 0 && s[off + 2 * k + 1] == 0
}

/// The value that a slot of a claim entry leads to is all there.
pub open spec fn claim_value_sound(s: Seq<u8>, t: u16, slot: int) -> bool {
    if claim_type_scalar(t) {
        slot + 8 <= s.len()
    } else {
        &&& slot + 4 <= s.len()
        &&& ({
            let at = le32_at(s, slot) as int;
            if t == CLAIM_TYPE_STRING {
                utf16_ends(s, at)
            } else if t == CLAIM_TYPE_SID {
                sid_at(s, at) is Some
            } else {
                at + 4 <= s.len() && at + 4 + le32_at(s, at) <= s.len()
            }
        })
    }
}

/// The bytes are a claim entry: a header with a known value type, a name, and as many values
/// as the header says.
pub open spec fn claim_sound(s: Seq<u8>) -> bool {
    &&& s.len() >= 16
    &&& claim_type_known(le16_at(s, 4))
    &&& 16 + 4 * le32_at(s, 12) <= s.len()
    &&& utf16_ends(s, le32_at(s, 0) as int)
    &&& forall|i: int|
        0 <= i < le32_at(s, 12) ==> claim_value_sound(s, le16_at(s, 4), #[trigger] le32_at(s, 16 + 4 * i) as int)
}

/// How the body of an entry is laid out.
#[derive(Clone, Copy, Debug, PartialEq, Eq, Structural)]
pub enum AceFamily {
    SingleSid,
    Object,
    Callback,
    CallbackObject,
    ResourceAttribute,
    Opaque,
}

pub open spec fn family(t: u8) -> AceFamily {
    if t <= ACE_TYPE_SYSTEM_ALARM || t == ACE_TYPE_SYSTEM_MANDATORY_LABEL || t == ACE_TYPE_SYSTEM_SCOPED_POLICY_ID
        || t == ACE_TYPE_SYSTEM_PROCESS_TRUST_LABEL {
        AceFamily::SingleSid
    } else if ACE_TYPE_ACCESS_ALLOWED_OBJECT <= t <= ACE_TYPE_SYSTEM_ALARM_OBJECT {
        AceFamily::Object
    } else if t == ACE_TYPE_ACCESS_ALLOWED_CALLBACK || t == ACE_TYPE_ACCESS_DENIED_CALLBACK
        || t == ACE_TYPE_SYSTEM_AUDIT_CALLBACK || t == ACE_TYPE_SYSTEM_ALARM_CALLBACK {
        AceFamily::Callback
    } else if t == ACE_TYPE_ACCESS_ALLOWED_CALLBACK_OBJECT || t == ACE_TYPE_ACCESS_DENIED_CALLBACK_OBJECT
        || t == ACE_TYPE_SYSTEM_AUDIT_CALLBACK_OBJECT || t == ACE_TYPE_SYSTEM_ALARM_CALLBACK_OBJECT {
        AceFamily::CallbackObject
    } else if t == ACE_TYPE_SYSTEM_RESOURCE_ATTRIBUTE {
        AceFamily::ResourceAttribute
    } else {
        AceFamily::Opaque
    }
}

pub fn ace_family(t: u8) -> (f: AceFamily)
    ensures
        f == family(t),
{
    if t <= ACE_TYPE_SYSTEM_ALARM || t == ACE_TYPE_SYSTEM_MANDATORY_LABEL || t == ACE_TYPE_SYSTEM_SCOPED_POLICY_ID
        || t == ACE_TYPE_SYSTEM_PROCESS_TRUST_LABEL {
        AceFamily::SingleSid
    } else if t >= ACE_TYPE_ACCESS_ALLOWED_OBJECT && t <= ACE_TYPE_SYSTEM_ALARM_OBJECT {
        AceFamily::Object
    } else if t == ACE_TYPE_ACCESS_ALLOWED_CALLBACK || t == ACE_TYPE_ACCESS_DENIED_CALLBACK
        || t == ACE_TYPE_SYSTEM_AUDIT_CALLBACK || t == ACE_TYPE_SYSTEM_ALARM_CALLBACK {
        AceFamily::Callback
    } else if t == ACE_TYPE_ACCESS_ALLOWED_CALLBACK_OBJECT || t == ACE_TYPE_ACCESS_DENIED_CALLBACK_OBJECT
        || t == ACE_TYPE_SYSTEM_AUDIT_CALLBACK_OBJECT || t == ACE_TYPE_SYSTEM_ALARM_CALLBACK_OBJECT {
        AceFamily::CallbackObject
    } else if t == ACE_TYPE_SYSTEM_RESOURCE_ATTRIBUTE {
        AceFamily::ResourceAttribute
    } else {
        AceFamily::Opaque
    }
}

/// What the body of a sound entry says, by the positions of its parts in the body.
#[derive(Clone, Copy, Debug, PartialEq, Eq, Structural)]
pub struct AceParts {
    pub mask: u32,
    /// Where the object-type GUID is.
    pub object_type: Option<usize>,
    /// Where the inherited object-type GUID is.
    pub inherited_object_type: Option<usize>,
    pub sid_start: usize,
    pub sid_end: usize,
}

/// The parts of the body of an entry that is not opaque, by the layout of its family; nothing
/// if the body is malformed.
pub open spec fn parts_of(f: AceFamily, b: Seq<u8>) -> Option<AceParts> {
    let object = f == AceFamily::Object || f == AceFamily::CallbackObject;
    let flags: u32 = if object {
        le32_at(b, 4)
    } else {
        0
    };
    let has_type = flags % 2 == 1;
    let has_inherited = flags / 2 % 2 == 1;
    let fixed: int = if object {
        8
    } else {
        4
    };
    let second = fixed + if has_type {
        16int
    } else {
        0
    };
    let start = second + if has_inherited {
        16int
    } else {
        0
    };
    if b.len() < fixed || flags > 3 || le32_at(b, 0) & FORBIDDEN_MASK_BITS != 0 || sid_at(b, start) is None {
        None
    } else {
        Some(
            AceParts {
                mask: le32_at(b, 0),
                object_type: if has_type {
                    Some(8usize)
                } else {
                    None
                },
                inherited_object_type: if has_inherited {
                    Some(second as usize)
                } else {
                    None
                },
                sid_start: start as usize,
                sid_end: sid_at(b, start)->Some_0.1 as usize,
            },
        )
    }
}

/// The SID of everyone.
pub open spec fn everyone() -> SidView {
    SidView { authority: 1, subs: seq![0u32] }
}

/// Entries that the kernel accepts: those with data of their own may have any behind the SID;
/// a resource attribute is for everyone and has one claim there; the others have nothing.
/// Entries of other types are not looked into.
pub open spec fn ace_sound(a: AceView) -> bool {
    let f = family(a.ace_type);
    if f == AceFamily::Opaque {
        true
    } else {
        match parts_of(f, a.body) {
            None => false,
            Some(p) => if f == AceFamily::ResourceAttribute {
                &&& sid_at(a.body, p.sid_start as int)->Some_0.0 == everyone()
                &&& claim_sound(a.body.subrange(p.sid_end as int, a.body.len() as int))
            } else if f == AceFamily::Callback || f == AceFamily::CallbackObject {
                true
            } else {
                p.sid_end == a.body.len()
            },
        }
    }
}

/// Lists that the kernel accepts: exactly the announced entries and no bytes left over, every
/// entry sound.
pub open spec fn acl_sound(s: Seq<u8>) -> bool {
    &&& is_acl(s)
    &&& acl_complete(s)
    &&& 8 + aces_bytes(acl_aces(s)).len() == s.len()
    &&& forall|i: int| 0 <= i < acl_aces(s).len() ==> ace_sound(#[trigger] acl_aces(s)[i])
}

/// Finds the terminator of UTF-16 text.
fn utf16_terminated(s: &[u8], off: usize) -> (ends: bool)
    ensures
        ends == utf16_ends(s@, off as int),
{
    let mut p: usize = off;
    let mut k: usize = 0;
    while p <= s.len() && s.len() - p >= 2
        invariant
            p == off + 2 * k,
            off <= s@.len() ==> p <= s@.len(),
            forall|j: int|
                0 <= j < k && off + 2 * j + 2 <= s@.len() ==> !#[trigger] utf16_nul_at(s@, off as int, j),
        decreases s@.len() - p,
    {
        if s[p] == 0 && s[p + 1] == 0 {
            assert(utf16_nul_at(s@, off as int, k as int));
            return true;
        }
        assert(!utf16_nul_at(s@, off as int, k as int));
        p = p + 2;
        k = k + 1;
    }
    false
}

fn claim_value_ok(s: &[u8], t: u16, slot: usize) -> (sound: bool)
    ensures
        sound == claim_value_sound(s@, t, slot as int),
{
    if t == CLAIM_TYPE_INT64 || t == CLAIM_TYPE_UINT64 || t == CLAIM_TYPE_BOOLEAN {
        return slot <= s.len() && s.len() - slot >= 8;
    }
    if slot > s.len() || s.len() - slot < 4 {
        return false;
    }
    let at: usize = rd_u32(s, slot) as usize;
    if t == CLAIM_TYPE_STRING {
        utf16_terminated(s, at)
    } else if t == CLAIM_TYPE_SID {
        Sid::parse_at(s, at).is_some()
    } else {
        at <= s.len() && s.len() - at >= 4 && rd_u32(s, at) as usize <= s.len() - at - 4
    }
}

/// Whether bytes are a claim entry.
pub fn claim_valid(s: &[u8]) -> (sound: bool)
    ensures
        sound == claim_sound(s@),
{
    if s.len() < 16 {
        return false;
    }
    let t: u16 = rd_u16(s, 4);
    if t != CLAIM_TYPE_INT64 && t != CLAIM_TYPE_UINT64 && t != CLAIM_TYPE_STRING && t != CLAIM_TYPE_SID && t
        != CLAIM_TYPE_BOOLEAN && t != CLAIM_TYPE_OCTET {
        return false;
    }
    let count: usize = rd_u32(s, 12) as usize;
    if count > (s.len() - 16) / 4 {
        return false;
    }
    if !utf16_terminated(s, rd_u32(s, 0) as usize) {
        return false;
    }
    let mut i: usize = 0;
    while i < count
        invariant
            i <= count,
            count == le32_at(s@, 12),
            16 + 4 * count <= s@.len(),
            s@.len() == s.len(),
            t == le16_at(s@, 4),
            forall|j: int| 0 <= j < i ==> claim_value_sound(s@, t, #[trigger] le32_at(s@, 16 + 4 * j) as int),
        decreases count - i,
    {
        if !claim_value_ok(s, t, rd_u32(s, 16 + 4 * i) as usize) {
            assert(!claim_value_sound(s@, le16_at(s@, 4), le32_at(s@, 16 + 4 * i) as int));
            return false;
        }
        i = i + 1;
    }
    true
}

/// Finds the parts of the body of an entry.
pub fn find_parts(f: AceFamily, b: &[u8]) -> (p: Option<AceParts>)
    ensures
        p == parts_of(f, b@),
        p matches Some(x) ==> x.sid_start <= x.sid_end <= b@.len(),
{
    let object: bool = match f {
        AceFamily::Object => true,
        AceFamily::CallbackObject => true,
        _ => false,
    };
    let fixed: usize = if object { 8 } else { 4 };
    if b.len() < fixed {
        return None;
    }
    let flags: u32 = if object { rd_u32(b, 4) } else { 0 };
    let mask: u32 = rd_u32(b, 0);
    if flags > 3 || mask & FORBIDDEN_MASK_BITS != 0 {
        return None;
    }
    let has_type: bool = flags % 2 == 1;
    let has_inherited: bool = flags / 2 % 2 == 1;
    let second: usize = if has_type { fixed + 16 } else { fixed };
    let start: usize = if has_inherited { second + 16 } else { second };
    match Sid::parse_at(b, start) {
        None => None,
        Some((_, end)) => Some(
            AceParts {
                mask,
                object_type: if has_type { Some(8) } else { None },
                inherited_object_type: if has_inherited { Some(second) } else { None },
                sid_start: start,
                sid_end: end,
            },
        ),
    }
}

/// Whether the kernel accepts an entry.
pub fn ace_valid(a: &AceRef) -> (sound: bool)
    ensures
        sound == ace_sound(a@),
{
    let f: AceFamily = ace_family(a.ace_type);
    if f == AceFamily::Opaque {
        return true;
    }
    let p: AceParts = match find_parts(f, a.body) {
        Some(p) => p,
        None => return false,
    };
    if f == AceFamily::ResourceAttribute {
        let sid: Sid = match Sid::parse_at(a.body, p.sid_start) {
            Some((sid, _)) => sid,
            None => return false,
        };
        let for_all: bool = sid.authority == 1 && sid.sub_authorities.len() == 1 && sid.sub_authorities[0] == 0;
        assert(for_all == (sid@ == everyone())) by {
            if for_all {
                assert(sid@.subs =~= everyone().subs);
            }
        }
        for_all && claim_valid(slice_subrange(a.body, p.sid_end, a.body.len()))
    } else if f == AceFamily::Callback || f == AceFamily::CallbackObject {
        true
    } else {
        p.sid_end == a.body.len()
    }
}

/// Whether the kernel accepts a list.
pub fn acl_valid(s: &[u8]) -> (sound: bool)
    ensures
        sound == acl_sound(s@),
{
    let acl: Acl = match Acl::parse(s) {
        Ok(acl) => acl,
        Err(_) => return false,
    };
    if acl.size as usize != s.len() {
        return false;
    }
    assert(s@.subrange(0, s@.len() as int) =~= s@);
    let aces: Vec<AceRef> = acl.aces();
    if aces.len() != acl.ace_count as usize {
        return false;
    }
    let ghost all = acl_aces(s@);
    let mut total: usize = 8;
    let mut i: usize = 0;
    assert(all.take(0) =~= Seq::<AceView>::empty());
    while i < aces.len()
        invariant
            i <= aces@.len(),
            aces@.len() <= 0xffff,
            all == ace_views(aces@),
            all == acl_aces(s@),
            forall|j: int| 0 <= j < aces@.len() ==> (#[trigger] aces@[j]).wf(),
            total == 8 + aces_bytes(all.take(i as int)).len(),
            total <= 8 + i * 0xffff,
            forall|j: int| 0 <= j < i ==> ace_sound(#[trigger] all[j]),
        decreases aces@.len() - i,
    {
        let ghost next = all.take(i + 1);
        assert(next.drop_last() =~= all.take(i as int));
        assert(next.last() == aces@[i as int]@);
        assert(all[i as int] == aces@[i as int]@);
        if !ace_valid(&aces[i]) {
            return false;
        }
        assert(i * 0xffff <= 0xffff * 0xffff) by (nonlinear_arith)
            requires
                i <= 0xffff,
        ;
        total = total + aces[i].size as usize;
        i = i + 1;
    }
    assert(all.take(i as int) =~= all);
    total == s.len()
}

/// The bytes that a component takes: from its offset up to its end. An absent one takes none.
pub open spec fn sid_range(s: Seq<u8>, off: u32) -> (int, int) {
    if off == 0 {
        (0, 0)
    } else {
        (off as int, sid_at(s, off as int)->Some_0.1)
    }
}

pub open spec fn acl_range(s: Seq<u8>, off: u32) -> (int, int) {
    if off == 0 {
        (0, 0)
    } else {
        (off as int, off + le16_at(s, off + 2))
    }
}

/// Two stretches have no byte in common.
pub open spec fn apart(a: (int, int), b: (int, int)) -> bool {
    a.0 >= a.1 || b.0 >= b.1 || a.1 <= b.0 || b.1 <= a.0
}

/// A component stands behind the header.
pub open spec fn behind_header(a: (int, int)) -> bool {
    a.0 >= a.1 || a.0 >= 20
}

/// Descriptors that the kernel accepts: of at most 65535 bytes, self-relative, with each list
/// marked present exactly if it has an offset, both lists sound, and the components behind
/// the header and apart from each other.
pub open spec fn sd_sound(s: Seq<u8>) -> bool {
    &&& s.len() <= 0xffff
    &&& sd_fault(s) is None
    &&& sd_control(s) & SE_SELF_RELATIVE != 0
    &&& (sd_control(s) & SE_SACL_PRESENT != 0) == (le32_at(s, 12) != 0)
    &&& (sd_control(s) & SE_DACL_PRESENT != 0) == (le32_at(s, 16) != 0)
    &&& sd_sacl(s) is Ok
    &&& sd_dacl(s) is Ok
    &&& sd_sacl(s)->Ok_0 matches Some(b) ==> acl_sound(b)
    &&& sd_dacl(s)->Ok_0 matches Some(b) ==> acl_sound(b)
    &&& ({
        let o = sid_range(s, le32_at(s, 4));
        let g = sid_range(s, le32_at(s, 8));
        let a = acl_range(s, le32_at(s, 12));
        let d = acl_range(s, le32_at(s, 16));
        &&& behind_header(o) && behind_header(g) && behind_header(a) && behind_header(d)
        &&& apart(o, g) && apart(o, a) && apart(o, d) && apart(g, a) && apart(g, d) && apart(a, d)
    })
}

/// Where a stretch of bytes is.
#[derive(Clone, Copy)]
pub struct Stretch {
    pub start: u64,
    pub end: u64,
}

impl Stretch {
    pub open spec fn pair(self) -> (int, int) {
        (self.start as int, self.end as int)
    }

    fn apart_from(self, other: Stretch) -> (yes: bool)
        ensures
            yes == apart(self.pair(), other.pair()),
    {
        self.start >= self.end || other.start >= other.end || self.end <= other.start || other.end <= self.start
    }

    fn is_behind_header(self) -> (yes: bool)
        ensures
            yes == behind_header(self.pair()),
    {
        self.start >= self.end || self.start >= 20
    }
}

fn sid_stretch(s: &[u8], off: u32, sid: &Option<Sid>) -> (r: Stretch)
    requires
        off == 0 <==> sid is None,
        sid matches Some(x) ==> sid_at(s@, off as int) is Some && sid_at(s@, off as int)->Some_0.0 == x@,
    ensures
        r.pair() == sid_range(s@, off),
{
    match sid {
        Some(x) => {
            let n: usize = x.sub_authorities.len();
            proof {
                assert(x@.subs.len() == s@[off + 1]);
            }
            Stretch { start: off as u64, end: off as u64 + 8 + 4 * (n as u64) }
        },
        None => Stretch { start: 0, end: 0 },
    }
}

fn acl_stretch(off: u32, acl: &Option<Acl>) -> (r: Stretch)
    requires
        off == 0 <==> acl is None,
        acl matches Some(a) ==> a.wf(),
    ensures
        r.pair() == (match acl {
            Some(a) => (off as int, off + a.size),
            None => (0int, 0int),
        }),
{
    match acl {
        Some(a) => Stretch { start: off as u64, end: off as u64 + a.size as u64 },
        None => Stretch { start: 0, end: 0 },
    }
}

/// Whether the kernel accepts a descriptor; if so, the descriptor.
#[verifier::rlimit(60)]
pub fn sd_valid<'a>(s: &'a [u8]) -> (r: Option<SecurityDescriptor<'a>>)
    ensures
        match r {
            Some(sd) => sd_sound(s@) && sd.wf() && sd.bytes == s,
            None => !sd_sound(s@),
        },
{
    if s.len() > 0xffff {
        return None;
    }
    let sd: SecurityDescriptor<'a> = match SecurityDescriptor::parse(s) {
        Ok(sd) => sd,
        Err(_) => return None,
    };
    if sd.control & SE_SELF_RELATIVE == 0 {
        return None;
    }
    let sacl_marked: bool = sd.control & SE_SACL_PRESENT != 0;
    let dacl_marked: bool = sd.control & SE_DACL_PRESENT != 0;
    if sacl_marked != (sd.sacl_off != 0) || dacl_marked != (sd.dacl_off != 0) {
        return None;
    }
    let sacl: Option<Acl> = match sd.sacl() {
        Ok(acl) => acl,
        Err(_) => return None,
    };
    let dacl: Option<Acl> = match sd.dacl() {
        Ok(acl) => acl,
        Err(_) => return None,
    };
    if let Some(acl) = &sacl {
        if !acl_valid(acl.bytes) {
            return None;
        }
        assert(acl.bytes@[2] == s@[sd.sacl_off + 2] && acl.bytes@[3] == s@[sd.sacl_off + 3]);
    }
    if let Some(acl) = &dacl {
        if !acl_valid(acl.bytes) {
            return None;
        }
        assert(acl.bytes@[2] == s@[sd.dacl_off + 2] && acl.bytes@[3] == s@[sd.dacl_off + 3]);
    }
    let o: Stretch = sid_stretch(s, sd.owner_off, &sd.owner);
    let g: Stretch = sid_stretch(s, sd.group_off, &sd.group);
    let a: Stretch = acl_stretch(sd.sacl_off, &sacl);
    let d: Stretch = acl_stretch(sd.dacl_off, &dacl);
    if !o.is_behind_header() || !g.is_behind_header() || !a.is_behind_header() || !d.is_behind_header() {
        return None;
    }
    if !o.apart_from(g) || !o.apart_from(a) || !o.apart_from(d) || !g.apart_from(a) || !g.apart_from(d)
        || !a.apart_from(d) {
        return None;
    }
    Some(sd)
}

} // verus!
