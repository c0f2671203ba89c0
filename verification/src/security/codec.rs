//! The binary layout of access-control entries, access-control lists and self-relative
//! security descriptors.
//!
//! An entry is a type byte, a flags byte, its size as a little-endian 16-bit word and a
//! body; sizes are multiples of four. A list is an eight-byte header and its entries. A
//! descriptor is a 20-byte header with the offsets of its four components, zero standing
//! for an absent one.

use vstd::prelude::*;
use vstd::slice::slice_subrange;
use crate::bytes::{
    law_le16_reads_back, law_le32_reads_back, le16, le16_at, le32, le32_at, put_le16, put_le32, put_slice, rd_u16, rd_u32,
};
use crate::security::sid::{law_sid_round_trip, sid_at, sid_bytes, Sid, SidView};

verus! {

pub const ACE_TYPE_ACCESS_ALLOWED: u8 = 0x00;
pub const ACE_TYPE_ACCESS_DENIED: u8 = 0x01;
pub const ACE_TYPE_SYSTEM_AUDIT: u8 = 0x02;
pub const ACE_TYPE_SYSTEM_ALARM: u8 = 0x03;
pub const ACE_TYPE_ACCESS_ALLOWED_OBJECT: u8 = 0x05;
pub const ACE_TYPE_ACCESS_DENIED_OBJECT: u8 = 0x06;
pub const ACE_TYPE_SYSTEM_AUDIT_OBJECT: u8 = 0x07;
pub const ACE_TYPE_SYSTEM_ALARM_OBJECT: u8 = 0x08;
pub const ACE_TYPE_ACCESS_ALLOWED_CALLBACK: u8 = 0x09;
pub const ACE_TYPE_ACCESS_DENIED_CALLBACK: u8 = 0x0a;
pub const ACE_TYPE_ACCESS_ALLOWED_CALLBACK_OBJECT: u8 = 0x0b;
pub const ACE_TYPE_ACCESS_DENIED_CALLBACK_OBJECT: u8 = 0x0c;
pub const ACE_TYPE_SYSTEM_AUDIT_CALLBACK: u8 = 0x0d;
pub const ACE_TYPE_SYSTEM_ALARM_CALLBACK: u8 = 0x0e;
pub const ACE_TYPE_SYSTEM_AUDIT_CALLBACK_OBJECT: u8 = 0x0f;
pub const ACE_TYPE_SYSTEM_ALARM_CALLBACK_OBJECT: u8 = 0x10;
pub const ACE_TYPE_SYSTEM_MANDATORY_LABEL: u8 = 0x11;
pub const ACE_TYPE_SYSTEM_RESOURCE_ATTRIBUTE: u8 = 0x12;
pub const ACE_TYPE_SYSTEM_SCOPED_POLICY_ID: u8 = 0x13;
pub const ACE_TYPE_SYSTEM_PROCESS_TRUST_LABEL: u8 = 0x14;

pub const ACE_FLAG_OBJECT_INHERIT: u8 = 0x01;
pub const ACE_FLAG_CONTAINER_INHERIT: u8 = 0x02;
pub const ACE_FLAG_NO_PROPAGATE_INHERIT: u8 = 0x04;
pub const ACE_FLAG_INHERIT_ONLY: u8 = 0x08;
pub const ACE_FLAG_INHERITED: u8 = 0x10;
pub const ACE_FLAG_SUCCESSFUL_ACCESS: u8 = 0x40;
pub const ACE_FLAG_FAILED_ACCESS: u8 = 0x80;

pub const ACCESS_DELETE: u32 = 0x0001_0000;
pub const ACCESS_READ_CONTROL: u32 = 0x0002_0000;
pub const ACCESS_WRITE_DAC: u32 = 0x0004_0000;
pub const ACCESS_WRITE_OWNER: u32 = 0x0008_0000;
pub const ACCESS_GENERIC_ALL: u32 = 0x1000_0000;
pub const ACCESS_GENERIC_EXECUTE: u32 = 0x2000_0000;
pub const ACCESS_GENERIC_WRITE: u32 = 0x4000_0000;
pub const ACCESS_GENERIC_READ: u32 = 0x8000_0000;

pub const SE_DACL_PRESENT: u16 = 0x0004;
pub const SE_SACL_PRESENT: u16 = 0x0010;
pub const SE_DACL_AUTO_INHERIT_REQ: u16 = 0x0100;
pub const SE_SACL_AUTO_INHERIT_REQ: u16 = 0x0200;
pub const SE_DACL_AUTO_INHERITED: u16 = 0x0400;
pub const SE_SACL_AUTO_INHERITED: u16 = 0x0800;
pub const SE_DACL_PROTECTED: u16 = 0x1000;
pub const SE_SACL_PROTECTED: u16 = 0x2000;
pub const SE_SELF_RELATIVE: u16 = 0x8000;

pub const DACL_SECURITY_INFORMATION: u32 = 0x4;
pub const SACL_SECURITY_INFORMATION: u32 = 0x8;

/// The revision of a list that holds basic entries only.
pub const ACL_REVISION: u8 = 2;

/// The revision of a list that holds object or callback entries.
pub const ACL_REVISION_DS: u8 = 4;

/// Why bytes are not what they were taken for.
#[derive(Clone, Copy, Debug, PartialEq, Eq, Structural)]
pub enum ParseError {
    SdTooShort,
    SdBadRevision,
    SdNotSelfRelative,
    SdOffsetOutOfBounds,
    SidMalformed,
    AclTooShort,
    AclSizeOutOfBounds,
    AceMalformed,
}

/// An entry.
#[verifier::ext_equal]
pub struct AceView {
    pub ace_type: u8,
    pub flags: u8,
    pub body: Seq<u8>,
}

impl AceView {
    /// The size fits its field and is a multiple of four.
    pub open spec fn wf(self) -> bool {
        self.body.len() % 4 == 0 && self.body.len() + 4 <= 0xffff
    }
}

/// The binary form of an entry.
pub open spec fn ace_bytes(a: AceView) -> Seq<u8> {
    seq![a.ace_type, a.flags] + le16((4 + a.body.len()) as u16) + a.body
}

/// The entry whose binary form starts at `p`.
pub open spec fn ace_at(s: Seq<u8>, p: int) -> Option<AceView> {
    if p < 0 || p + 4 > s.len() || le16_at(s, p + 2) < 4 || le16_at(s, p + 2) % 4 != 0 || p + le16_at(s, p + 2)
        > s.len() {
        None
    } else {
        Some(AceView { ace_type: s[p], flags: s[p + 1], body: s.subrange(p + 4, p + le16_at(s, p + 2)) })
    }
}

/// Up to `count` entries from `p` on: those before the first malformed one.
pub open spec fn aces_at(s: Seq<u8>, p: int, count: nat) -> Seq<AceView>
    decreases count,
{
    if count == 0 {
        Seq::empty()
    } else {
        match ace_at(s, p) {
            None => Seq::empty(),
            Some(a) => seq![a] + aces_at(s, p + 4 + a.body.len(), (count - 1) as nat),
        }
    }
}

/// The binary form of entries, one after the other.
pub open spec fn aces_bytes(aces: Seq<AceView>) -> Seq<u8>
    decreases aces.len(),
{
    if aces.len() == 0 {
        Seq::empty()
    } else {
        aces_bytes(aces.drop_last()) + ace_bytes(aces.last())
    }
}

/// Whether an entry type needs the larger list revision.
pub open spec fn needs_ds_revision(ace_type: u8) -> bool {
    0x05 <= ace_type <= 0x10
}

/// The smallest revision that a list of these entries can have.
pub open spec fn min_revision(aces: Seq<AceView>) -> u8 {
    if exists|i: int| 0 <= i < aces.len() && needs_ds_revision(#[trigger] aces[i].ace_type) {
        ACL_REVISION_DS
    } else {
        ACL_REVISION
    }
}

/// The binary form of a list.
pub open spec fn acl_bytes(revision: u8, sbz1: u8, aces: Seq<AceView>) -> Seq<u8> {
    seq![revision, sbz1] + le16((8 + aces_bytes(aces).len()) as u16) + le16(aces.len() as u16) + seq![0u8, 0u8]
        + aces_bytes(aces)
}

/// The bytes of the list that starts at `p`, by the size in its header.
pub open spec fn acl_at(s: Seq<u8>, p: int) -> Result<Seq<u8>, ParseError> {
    if p < 0 || p + 8 > s.len() {
        Err(ParseError::AclTooShort)
    } else if le16_at(s, p + 2) < 8 || p + le16_at(s, p + 2) > s.len() {
        Err(ParseError::AclSizeOutOfBounds)
    } else {
        Ok(s.subrange(p, p + le16_at(s, p + 2)))
    }
}

/// The entries of a list, up to the first malformed one.
pub open spec fn acl_aces(acl: Seq<u8>) -> Seq<AceView> {
    aces_at(acl, 8, le16_at(acl, 4) as nat)
}

/// All the entries that a list announces are there.
pub open spec fn acl_complete(acl: Seq<u8>) -> bool {
    acl_aces(acl).len() == le16_at(acl, 4)
}

/// The SID at an offset of a descriptor, if the offset is not zero.
pub open spec fn sid_component(s: Seq<u8>, off: u32) -> Result<Option<SidView>, ParseError> {
    if off == 0 {
        Ok(None)
    } else if off > s.len() {
        Err(ParseError::SdOffsetOutOfBounds)
    } else {
        match sid_at(s, off as int) {
            None => Err(ParseError::SidMalformed),
            Some((v, _)) => Ok(Some(v)),
        }
    }
}

/// The bytes of the list at an offset of a descriptor, if it is marked present and the
/// offset is not zero.
pub open spec fn acl_component(s: Seq<u8>, off: u32, present: bool) -> Result<Option<Seq<u8>>, ParseError> {
    if !present || off == 0 {
        Ok(None)
    } else if off > s.len() {
        Err(ParseError::SdOffsetOutOfBounds)
    } else {
        match acl_at(s, off as int) {
            Err(e) => Err(e),
            Ok(acl) => Ok(Some(acl)),
        }
    }
}

pub open spec fn sd_control(s: Seq<u8>) -> u16 {
    le16_at(s, 2)
}

pub open spec fn sd_owner(s: Seq<u8>) -> Result<Option<SidView>, ParseError> {
    sid_component(s, le32_at(s, 4))
}

pub open spec fn sd_group(s: Seq<u8>) -> Result<Option<SidView>, ParseError> {
    sid_component(s, le32_at(s, 8))
}

pub open spec fn sd_sacl(s: Seq<u8>) -> Result<Option<Seq<u8>>, ParseError> {
    acl_component(s, le32_at(s, 12), sd_control(s) & SE_SACL_PRESENT != 0)
}

pub open spec fn sd_dacl(s: Seq<u8>) -> Result<Option<Seq<u8>>, ParseError> {
    acl_component(s, le32_at(s, 16), sd_control(s) & SE_DACL_PRESENT != 0)
}

/// Why bytes are not a descriptor: the header, the owner and the group have to be sound.
/// The lists are looked at only when they are asked for.
pub open spec fn sd_fault(s: Seq<u8>) -> Option<ParseError> {
    if s.len() < 20 {
        Some(ParseError::SdTooShort)
    } else if s[0] != 1 {
        Some(ParseError::SdBadRevision)
    } else if sd_owner(s) is Err {
        Some(sd_owner(s)->Err_0)
    } else if sd_group(s) is Err {
        Some(sd_group(s)->Err_0)
    } else {
        None
    }
}

/// How many bytes a component takes.
pub open spec fn part_len(part: Option<Seq<u8>>) -> nat {
    match part {
        Some(b) => b.len(),
        None => 0,
    }
}

pub open spec fn part_bytes(part: Option<Seq<u8>>) -> Seq<u8> {
    match part {
        Some(b) => b,
        None => Seq::empty(),
    }
}

pub open spec fn part_offset(part: Option<Seq<u8>>, off: nat) -> u32 {
    match part {
        Some(_) => off as u32,
        None => 0,
    }
}

/// The header of a descriptor.
pub open spec fn sd_header(
    sbz1: u8,
    control: u16,
    owner_off: u32,
    group_off: u32,
    sacl_off: u32,
    dacl_off: u32,
) -> Seq<u8> {
    seq![1u8, sbz1] + le16(control) + le32(owner_off) + le32(group_off) + le32(sacl_off) + le32(dacl_off)
}

/// The binary form of a descriptor: the header, then owner, group, system list and
/// discretionary list as far as they are there.
pub open spec fn sd_bytes(
    sbz1: u8,
    control: u16,
    owner: Option<Seq<u8>>,
    group: Option<Seq<u8>>,
    sacl: Option<Seq<u8>>,
    dacl: Option<Seq<u8>>,
) -> Seq<u8> {
    let group_off = 20 + part_len(owner);
    let sacl_off = group_off + part_len(group);
    let dacl_off = sacl_off + part_len(sacl);
    sd_header(
        sbz1,
        control,
        part_offset(owner, 20),
        part_offset(group, group_off),
        part_offset(sacl, sacl_off),
        part_offset(dacl, dacl_off),
    ) + part_bytes(owner) + part_bytes(group) + part_bytes(sacl) + part_bytes(dacl)
}

/// The length of a descriptor with these components.
pub open spec fn sd_len(
    owner: Option<Seq<u8>>,
    group: Option<Seq<u8>>,
    sacl: Option<Seq<u8>>,
    dacl: Option<Seq<u8>>,
) -> nat {
    20 + part_len(owner) + part_len(group) + part_len(sacl) + part_len(dacl)
}

/// An entry inside the bytes of a list.
#[derive(Clone, Copy)]
pub struct AceRef<'a> {
    pub ace_type: u8,
    pub flags: u8,
    pub size: u16,
    pub body: &'a [u8],
}

impl<'a> View for AceRef<'a> {
    type V = AceView;

    open spec fn view(&self) -> AceView {
        AceView { ace_type: self.ace_type, flags: self.flags, body: self.body@ }
    }
}

impl<'a> AceRef<'a> {
    pub open spec fn wf(&self) -> bool {
        self@.wf() && self.size == 4 + self.body@.len()
    }

    /// Reads the entry that starts at `p`.
    pub fn parse_at(s: &'a [u8], p: usize) -> (r: Option<AceRef<'a>>)
        ensures
            match r {
                Some(ace) => ace.wf() && ace_at(s@, p as int) == Some(ace@) && p + ace.size <= s@.len(),
                None => ace_at(s@, p as int) is None,
            },
    {
        if p > s.len() || s.len() - p < 4 {
            return None;
        }
        let size: u16 = rd_u16(s, p + 2);
        if size < 4 || size % 4 != 0 || (size as usize) > s.len() - p {
            return None;
        }
        let body = slice_subrange(s, p + 4, p + size as usize);
        Some(AceRef { ace_type: s[p], flags: s[p + 1], size, body })
    }

    /// The mask and the SID of an entry whose body is just these.
    pub fn as_mask_sid(&self) -> (r: Option<(u32, Sid)>)
        ensures
            match r {
                Some((mask, sid)) => {
                    &&& self.body@.len() >= 4
                    &&& mask == le32_at(self.body@, 0)
                    &&& sid.wf()
                    &&& sid_at(self.body@, 4) == Some((sid@, self.body@.len() as int))
                },
                None => self.body@.len() < 4 || !(sid_at(self.body@, 4) matches Some((_, end)) && end
                    == self.body@.len()),
            },
    {
        if self.body.len() < 4 {
            return None;
        }
        let mask: u32 = rd_u32(self.body, 0);
        match Sid::parse_at(self.body, 4) {
            Some((sid, end)) => if end == self.body.len() {
                Some((mask, sid))
            } else {
                None
            },
            None => None,
        }
    }
}

/// A list, by its header.
#[derive(Clone, Copy)]
pub struct Acl<'a> {
    pub revision: u8,
    pub size: u16,
    pub ace_count: u16,
    pub bytes: &'a [u8],
}

impl<'a> Acl<'a> {
    /// The fields are those of the header, and the bytes are all of the list.
    pub open spec fn wf(&self) -> bool {
        &&& self.bytes@.len() == self.size
        &&& self.size >= 8
        &&& self.revision == self.bytes@[0]
        &&& self.size == le16_at(self.bytes@, 2)
        &&& self.ace_count == le16_at(self.bytes@, 4)
    }

    /// The entries, up to the first malformed one.
    pub open spec fn spec_aces(&self) -> Seq<AceView> {
        acl_aces(self.bytes@)
    }

    /// Reads the list that starts at `p`.
    pub fn parse_at(s: &'a [u8], p: usize) -> (r: Result<Acl<'a>, ParseError>)
        ensures
            match r {
                Ok(acl) => acl.wf() && acl_at(s@, p as int) == Ok::<Seq<u8>, ParseError>(acl.bytes@),
                Err(e) => acl_at(s@, p as int) == Err::<Seq<u8>, ParseError>(e),
            },
    {
        if p > s.len() || s.len() - p < 8 {
            return Err(ParseError::AclTooShort);
        }
        let size: u16 = rd_u16(s, p + 2);
        if size < 8 || (size as usize) > s.len() - p {
            return Err(ParseError::AclSizeOutOfBounds);
        }
        let bytes = slice_subrange(s, p, p + size as usize);
        let ace_count: u16 = rd_u16(bytes, 4);
        Ok(Acl { revision: s[p], size, ace_count, bytes })
    }

    /// Reads the list that starts the bytes.
    pub fn parse(s: &'a [u8]) -> (r: Result<Acl<'a>, ParseError>)
        ensures
            match r {
                Ok(acl) => acl.wf() && acl_at(s@, 0) == Ok::<Seq<u8>, ParseError>(acl.bytes@),
                Err(e) => acl_at(s@, 0) == Err::<Seq<u8>, ParseError>(e),
            },
    {
        Acl::parse_at(s, 0)
    }

    /// The entries, up to the first malformed one; all of them if there are `ace_count`.
    pub fn aces(&self) -> (out: Vec<AceRef<'a>>)
        requires
            self.wf(),
        ensures
            ace_views(out@) == self.spec_aces(),
            out@.len() <= self.ace_count,
            forall|i: int| 0 <= i < out@.len() ==> (#[trigger] out@[i]).wf(),
    {
        let mut out: Vec<AceRef<'a>> = Vec::new();
        let mut left: u16 = self.ace_count;
        let mut p: usize = 8;
        assert(ace_views(out@) =~= Seq::<AceView>::empty());
        assert(self.spec_aces() =~= ace_views(out@) + aces_at(self.bytes@, 8, left as nat));
        while left > 0
            invariant
                self.wf(),
                8 <= p <= self.bytes@.len(),
                out@.len() + left == self.ace_count,
                self.spec_aces() == ace_views(out@) + aces_at(self.bytes@, p as int, left as nat),
                forall|i: int| 0 <= i < out@.len() ==> (#[trigger] out@[i]).wf(),
            decreases left,
        {
            let ghost before = ace_views(out@);
            let ghost rest = aces_at(self.bytes@, p as int, left as nat);
            match AceRef::parse_at(self.bytes, p) {
                None => {
                    assert(before + rest =~= before);
                    return out;
                },
                Some(ace) => {
                    let ghost next = aces_at(self.bytes@, p + ace.size, (left - 1) as nat);
                    assert(rest == seq![ace@] + next);
                    out.push(ace);
                    assert(ace_views(out@) =~= before.push(ace@));
                    assert(before + rest =~= before.push(ace@) + next);
                    p = p + ace.size as usize;
                    left = left - 1;
                },
            }
        }
        assert(ace_views(out@) + aces_at(self.bytes@, p as int, 0) =~= ace_views(out@));
        out
    }
}

/// What entries say.
pub open spec fn ace_views(aces: Seq<AceRef>) -> Seq<AceView> {
    Seq::new(aces.len(), |i: int| aces[i]@)
}

/// A descriptor, by its header and its owner and group.
pub struct SecurityDescriptor<'a> {
    pub bytes: &'a [u8],
    pub revision: u8,
    pub sbz1: u8,
    pub control: u16,
    pub owner_off: u32,
    pub group_off: u32,
    pub sacl_off: u32,
    pub dacl_off: u32,
    pub owner: Option<Sid>,
    pub group: Option<Sid>,
}

/// An optional SID and what it says.
pub open spec fn opt_sid_view(sid: Option<Sid>) -> Option<SidView> {
    match sid {
        Some(s) => Some(s@),
        None => None,
    }
}

/// Reads the SID at an offset of a descriptor.
fn read_sid(s: &[u8], off: u32) -> (r: Result<Option<Sid>, ParseError>)
    ensures
        match r {
            Ok(sid) => sid_component(s@, off) == Ok::<Option<SidView>, ParseError>(opt_sid_view(sid)) && (sid
                matches Some(x) ==> x.wf()),
            Err(e) => sid_component(s@, off) == Err::<Option<SidView>, ParseError>(e),
        },
{
    if off == 0 {
        return Ok(None);
    }
    if (off as usize) > s.len() {
        return Err(ParseError::SdOffsetOutOfBounds);
    }
    match Sid::parse_at(s, off as usize) {
        Some((sid, _)) => Ok(Some(sid)),
        None => Err(ParseError::SidMalformed),
    }
}

/// Reads the list at an offset of a descriptor.
fn read_acl<'a>(s: &'a [u8], off: u32, present: bool) -> (r: Result<Option<Acl<'a>>, ParseError>)
    ensures
        match r {
            Ok(Some(acl)) => acl.wf() && acl_component(s@, off, present) == Ok::<Option<Seq<u8>>, ParseError>(
                Some(acl.bytes@),
            ),
            Ok(None) => acl_component(s@, off, present) == Ok::<Option<Seq<u8>>, ParseError>(None),
            Err(e) => acl_component(s@, off, present) == Err::<Option<Seq<u8>>, ParseError>(e),
        },
{
    if !present || off == 0 {
        return Ok(None);
    }
    if (off as usize) > s.len() {
        return Err(ParseError::SdOffsetOutOfBounds);
    }
    match Acl::parse_at(s, off as usize) {
        Ok(acl) => Ok(Some(acl)),
        Err(e) => Err(e),
    }
}

impl<'a> SecurityDescriptor<'a> {
    /// The fields are those of the header.
    pub open spec fn wf(&self) -> bool {
        &&& sd_fault(self.bytes@) is None
        &&& self.revision == self.bytes@[0]
        &&& self.sbz1 == self.bytes@[1]
        &&& self.control == sd_control(self.bytes@)
        &&& self.owner_off == le32_at(self.bytes@, 4)
        &&& self.group_off == le32_at(self.bytes@, 8)
        &&& self.sacl_off == le32_at(self.bytes@, 12)
        &&& self.dacl_off == le32_at(self.bytes@, 16)
        &&& sd_owner(self.bytes@) == Ok::<Option<SidView>, ParseError>(opt_sid_view(self.owner))
        &&& sd_group(self.bytes@) == Ok::<Option<SidView>, ParseError>(opt_sid_view(self.group))
        &&& self.owner matches Some(x) ==> x.wf()
        &&& self.group matches Some(x) ==> x.wf()
    }

    pub fn parse(s: &'a [u8]) -> (r: Result<SecurityDescriptor<'a>, ParseError>)
        ensures
            match r {
                Ok(sd) => sd.wf() && sd.bytes == s,
                Err(e) => sd_fault(s@) == Some(e),
            },
    {
        if s.len() < 20 {
            return Err(ParseError::SdTooShort);
        }
        if s[0] != 1 {
            return Err(ParseError::SdBadRevision);
        }
        let owner_off: u32 = rd_u32(s, 4);
        let group_off: u32 = rd_u32(s, 8);
        let owner: Option<Sid> = match read_sid(s, owner_off) {
            Ok(owner) => owner,
            Err(e) => return Err(e),
        };
        let group: Option<Sid> = match read_sid(s, group_off) {
            Ok(group) => group,
            Err(e) => return Err(e),
        };
        Ok(
            SecurityDescriptor {
                bytes: s,
                revision: s[0],
                sbz1: s[1],
                control: rd_u16(s, 2),
                owner_off,
                group_off,
                sacl_off: rd_u32(s, 12),
                dacl_off: rd_u32(s, 16),
                owner,
                group,
            },
        )
    }

    /// The system list.
    pub fn sacl(&self) -> (r: Result<Option<Acl<'a>>, ParseError>)
        requires
            self.wf(),
        ensures
            match r {
                Ok(Some(acl)) => acl.wf() && sd_sacl(self.bytes@) == Ok::<Option<Seq<u8>>, ParseError>(
                    Some(acl.bytes@),
                ),
                Ok(None) => sd_sacl(self.bytes@) == Ok::<Option<Seq<u8>>, ParseError>(None),
                Err(e) => sd_sacl(self.bytes@) == Err::<Option<Seq<u8>>, ParseError>(e),
            },
    {
        read_acl(self.bytes, self.sacl_off, self.control & SE_SACL_PRESENT != 0)
    }

    /// The discretionary list.
    pub fn dacl(&self) -> (r: Result<Option<Acl<'a>>, ParseError>)
        requires
            self.wf(),
        ensures
            match r {
                Ok(Some(acl)) => acl.wf() && sd_dacl(self.bytes@) == Ok::<Option<Seq<u8>>, ParseError>(
                    Some(acl.bytes@),
                ),
                Ok(None) => sd_dacl(self.bytes@) == Ok::<Option<Seq<u8>>, ParseError>(None),
                Err(e) => sd_dacl(self.bytes@) == Err::<Option<Seq<u8>>, ParseError>(e),
            },
    {
        read_acl(self.bytes, self.dacl_off, self.control & SE_DACL_PRESENT != 0)
    }
}

/// An optional byte vector and its bytes.
pub open spec fn opt_vec_view(v: Option<Vec<u8>>) -> Option<Seq<u8>> {
    match v {
        Some(b) => Some(b@),
        None => None,
    }
}

fn opt_len(part: &Option<Vec<u8>>) -> (n: usize)
    ensures
        n == part_len(opt_vec_view(*part)),
{
    match part {
        Some(b) => b.len(),
        None => 0,
    }
}

fn opt_offset(part: &Option<Vec<u8>>, off: usize) -> (v: u32)
    requires
        off <= u32::MAX,
    ensures
        v == part_offset(opt_vec_view(*part), off as nat),
{
    match part {
        Some(_) => off as u32,
        None => 0,
    }
}

fn put_opt(out: &mut Vec<u8>, part: &Option<Vec<u8>>)
    ensures
        final(out)@ == old(out)@ + part_bytes(opt_vec_view(*part)),
{
    match part {
        Some(b) => put_slice(out, b.as_slice()),
        None => {
            assert(out@ =~= old(out)@ + Seq::<u8>::empty());
        },
    }
}

/// Assembles a descriptor.
pub fn assemble_sd(
    sbz1: u8,
    control: u16,
    owner: &Option<Vec<u8>>,
    group: &Option<Vec<u8>>,
    sacl: &Option<Vec<u8>>,
    dacl: &Option<Vec<u8>>,
) -> (out: Vec<u8>)
    requires
        sd_len(opt_vec_view(*owner), opt_vec_view(*group), opt_vec_view(*sacl), opt_vec_view(*dacl)) <= u32::MAX,
    ensures
        out@ == sd_bytes(
            sbz1,
            control,
            opt_vec_view(*owner),
            opt_vec_view(*group),
            opt_vec_view(*sacl),
            opt_vec_view(*dacl),
        ),
{
    let group_off: usize = 20 + opt_len(owner);
    let sacl_off: usize = group_off + opt_len(group);
    let dacl_off: usize = sacl_off + opt_len(sacl);
    let mut out: Vec<u8> = Vec::new();
    out.push(1);
    out.push(sbz1);
    assert(out@ =~= seq![1u8, sbz1]);
    put_le16(&mut out, control);
    put_le32(&mut out, opt_offset(owner, 20));
    put_le32(&mut out, opt_offset(group, group_off));
    put_le32(&mut out, opt_offset(sacl, sacl_off));
    put_le32(&mut out, opt_offset(dacl, dacl_off));
    put_opt(&mut out, owner);
    put_opt(&mut out, group);
    put_opt(&mut out, sacl);
    put_opt(&mut out, dacl);
    out
}

/// Entries from the front.
pub proof fn lemma_aces_bytes_front(a: AceView, rest: Seq<AceView>)
    ensures
        aces_bytes(seq![a] + rest) == ace_bytes(a) + aces_bytes(rest),
    decreases rest.len(),
{
    let all = seq![a] + rest;
    if rest.len() == 0 {
        assert(all.drop_last() =~= rest);
        assert(aces_bytes(rest) =~= Seq::<u8>::empty());
        assert(all.last() == a);
        assert(aces_bytes(all) =~= ace_bytes(a) + aces_bytes(rest));
    } else {
        lemma_aces_bytes_front(a, rest.drop_last());
        assert(all.drop_last() =~= seq![a] + rest.drop_last());
        assert(all.last() == rest.last());
        assert(aces_bytes(all) =~= ace_bytes(a) + aces_bytes(rest));
    }
}

/// An entry's binary form, wherever it stands, is read back as that entry.
pub proof fn law_ace_round_trip(pre: Seq<u8>, a: AceView, post: Seq<u8>)
    requires
        a.wf(),
    ensures
        ace_at(pre + ace_bytes(a) + post, pre.len() as int) == Some(a),
        ace_bytes(a).len() == 4 + a.body.len(),
{
    let s = pre + ace_bytes(a) + post;
    let p = pre.len() as int;
    let size = (4 + a.body.len()) as u16;
    assert(s.subrange(p + 2, p + 4) =~= le16(size));
    law_le16_reads_back(s, p + 2, size);
    assert(s[p] == a.ace_type && s[p + 1] == a.flags);
    assert(s.subrange(p + 4, p + size) =~= a.body);
}

/// The binary form of entries, wherever it stands, is read back as those entries.
pub proof fn law_aces_round_trip(pre: Seq<u8>, aces: Seq<AceView>, post: Seq<u8>)
    requires
        forall|i: int| 0 <= i < aces.len() ==> (#[trigger] aces[i]).wf(),
    ensures
        aces_at(pre + aces_bytes(aces) + post, pre.len() as int, aces.len()) == aces,
    decreases aces.len(),
{
    let s = pre + aces_bytes(aces) + post;
    if aces.len() == 0 {
        assert(aces_at(s, pre.len() as int, 0) =~= aces);
    } else {
        let a = aces[0];
        let rest = aces.subrange(1, aces.len() as int);
        assert(aces =~= seq![a] + rest);
        lemma_aces_bytes_front(a, rest);
        let tail = aces_bytes(rest) + post;
        assert(s =~= pre + ace_bytes(a) + tail);
        law_ace_round_trip(pre, a, tail);
        let pre2 = pre + ace_bytes(a);
        assert(s =~= pre2 + aces_bytes(rest) + post);
        law_aces_round_trip(pre2, rest, post);
    }
}

/// A list's binary form is one list with exactly its entries.
pub proof fn law_acl_round_trip(revision: u8, sbz1: u8, aces: Seq<AceView>)
    requires
        forall|i: int| 0 <= i < aces.len() ==> (#[trigger] aces[i]).wf(),
        8 + aces_bytes(aces).len() <= 0xffff,
        aces.len() <= 0xffff,
    ensures
        acl_at(acl_bytes(revision, sbz1, aces), 0) == Ok::<Seq<u8>, ParseError>(acl_bytes(revision, sbz1, aces)),
        acl_aces(acl_bytes(revision, sbz1, aces)) == aces,
        acl_complete(acl_bytes(revision, sbz1, aces)),
        acl_bytes(revision, sbz1, aces)[0] == revision,
        acl_bytes(revision, sbz1, aces)[1] == sbz1,
{
    let s = acl_bytes(revision, sbz1, aces);
    let size = (8 + aces_bytes(aces).len()) as u16;
    let count = aces.len() as u16;
    assert(s.subrange(2, 4) =~= le16(size));
    assert(s.subrange(4, 6) =~= le16(count));
    law_le16_reads_back(s, 2, size);
    law_le16_reads_back(s, 4, count);
    assert(s.subrange(0, size as int) =~= s);
    let header = seq![revision, sbz1] + le16(size) + le16(count) + seq![0u8, 0u8];
    assert(s =~= header + aces_bytes(aces) + Seq::<u8>::empty());
    law_aces_round_trip(header, aces, Seq::empty());
}

/// A list inside other bytes is the same list.
pub proof fn lemma_acl_inside(pre: Seq<u8>, acl: Seq<u8>, post: Seq<u8>)
    requires
        acl_at(acl, 0) == Ok::<Seq<u8>, ParseError>(acl),
    ensures
        acl_at(pre + acl + post, pre.len() as int) == Ok::<Seq<u8>, ParseError>(acl),
{
    let s = pre + acl + post;
    let p = pre.len() as int;
    let own = acl.subrange(0, 0 + le16_at(acl, 2));
    assert(own.len() == acl.len());
    assert(acl.len() == le16_at(acl, 2));
    assert(s[p + 2] == acl[2] && s[p + 3] == acl[3]);
    assert(s.subrange(p, p + acl.len()) =~= acl);
}

/// Bytes that are one list and nothing else.
pub open spec fn is_acl(s: Seq<u8>) -> bool {
    acl_at(s, 0) == Ok::<Seq<u8>, ParseError>(s)
}

/// A SID component is found at its offset.
proof fn lemma_sid_part(pre: Seq<u8>, sid: Option<SidView>, post: Seq<u8>)
    requires
        sid matches Some(v) ==> v.wf(),
        0 < pre.len() <= u32::MAX,
    ensures
        sid_component(
            pre + part_bytes(opt_sid_bytes(sid)) + post,
            part_offset(opt_sid_bytes(sid), pre.len()),
        ) == Ok::<Option<SidView>, ParseError>(sid),
        part_len(opt_sid_bytes(sid)) <= 68,
{
    if let Some(v) = sid {
        law_sid_round_trip(pre, v, post);
    }
}

/// A list component is found at its offset.
proof fn lemma_acl_part(pre: Seq<u8>, acl: Option<Seq<u8>>, post: Seq<u8>, present: bool)
    requires
        acl matches Some(b) ==> is_acl(b) && present,
        0 < pre.len() <= u32::MAX,
    ensures
        acl_component(pre + part_bytes(acl) + post, part_offset(acl, pre.len()), present) == Ok::<
            Option<Seq<u8>>,
            ParseError,
        >(acl),
        part_len(acl) <= 0xffff,
{
    if let Some(b) = acl {
        lemma_acl_size(b);
        lemma_acl_inside(pre, b, post);
    }
}

/// The components that a descriptor was assembled from are read back from it.
#[verifier::spinoff_prover]
#[verifier::rlimit(100)]
pub proof fn law_sd_round_trip(
    sbz1: u8,
    control: u16,
    owner: Option<SidView>,
    group: Option<SidView>,
    sacl: Option<Seq<u8>>,
    dacl: Option<Seq<u8>>,
)
    requires
        owner matches Some(v) ==> v.wf(),
        group matches Some(v) ==> v.wf(),
        sacl matches Some(b) ==> is_acl(b) && control & SE_SACL_PRESENT != 0,
        dacl matches Some(b) ==> is_acl(b) && control & SE_DACL_PRESENT != 0,
    ensures
        ({
            let s = sd_bytes(sbz1, control, opt_sid_bytes(owner), opt_sid_bytes(group), sacl, dacl);
            &&& sd_fault(s) is None
            &&& s.len() == sd_len(opt_sid_bytes(owner), opt_sid_bytes(group), sacl, dacl)
            &&& s[1] == sbz1
            &&& sd_control(s) == control
            &&& sd_owner(s) == Ok::<Option<SidView>, ParseError>(owner)
            &&& sd_group(s) == Ok::<Option<SidView>, ParseError>(group)
            &&& sd_sacl(s) == Ok::<Option<Seq<u8>>, ParseError>(sacl)
            &&& sd_dacl(s) == Ok::<Option<Seq<u8>>, ParseError>(dacl)
        }),
{
    let ob = part_bytes(opt_sid_bytes(owner));
    let gb = part_bytes(opt_sid_bytes(group));
    let sb = part_bytes(sacl);
    let db = part_bytes(dacl);
    let none = Seq::<u8>::empty();
    assert(ob.len() <= 68 && gb.len() <= 68 && sb.len() <= 0xffff && db.len() <= 0xffff) by {
        lemma_sid_part(seq![0u8], owner, none);
        lemma_sid_part(seq![0u8], group, none);
        lemma_acl_part(seq![0u8], sacl, none, true);
        lemma_acl_part(seq![0u8], dacl, none, true);
    }
    let f1 = part_offset(opt_sid_bytes(owner), 20);
    let f2 = part_offset(opt_sid_bytes(group), 20 + ob.len());
    let f3 = part_offset(sacl, 20 + ob.len() + gb.len());
    let f4 = part_offset(dacl, 20 + ob.len() + gb.len() + sb.len());
    let h = sd_header(sbz1, control, f1, f2, f3, f4);
    let s = sd_bytes(sbz1, control, opt_sid_bytes(owner), opt_sid_bytes(group), sacl, dacl);
    assert(s == h + ob + gb + sb + db);
    lemma_regroup(h, ob, gb, sb, db);
    lemma_sd_header(sbz1, control, f1, f2, f3, f4, ob + gb + sb + db);
    assert(sd_owner(s) == Ok::<Option<SidView>, ParseError>(owner)) by {
        lemma_sid_part(h, owner, gb + sb + db);
    }
    assert(sd_group(s) == Ok::<Option<SidView>, ParseError>(group)) by {
        lemma_sid_part(h + ob, group, sb + db);
    }
    assert(sd_sacl(s) == Ok::<Option<Seq<u8>>, ParseError>(sacl)) by {
        lemma_acl_part(h + ob + gb, sacl, db, control & SE_SACL_PRESENT != 0);
    }
    assert(sd_dacl(s) == Ok::<Option<Seq<u8>>, ParseError>(dacl)) by {
        lemma_acl_part(h + ob + gb + sb, dacl, none, control & SE_DACL_PRESENT != 0);
    }
}

/// Concatenation can be bracketed in any way.
proof fn lemma_regroup(h: Seq<u8>, a: Seq<u8>, b: Seq<u8>, c: Seq<u8>, d: Seq<u8>)
    ensures
        h + a + b + c + d == h + (a + b + c + d),
        h + a + b + c + d == h + a + (b + c + d),
        h + a + b + c + d == (h + a) + b + (c + d),
        h + a + b + c + d == (h + a + b) + c + d,
        h + a + b + c + d == (h + a + b + c) + d + Seq::<u8>::empty(),
{
    assert(h + a + b + c + d =~= h + (a + b + c + d));
    assert(h + a + b + c + d =~= h + a + (b + c + d));
    assert(h + a + b + c + d =~= (h + a) + b + (c + d));
    assert(h + a + b + c + d =~= (h + a + b + c) + d + Seq::<u8>::empty());
}

/// The bytes of an optional SID.
pub open spec fn opt_sid_bytes(sid: Option<SidView>) -> Option<Seq<u8>> {
    match sid {
        Some(v) => Some(sid_bytes(v)),
        None => None,
    }
}

/// A list has at least its header, and at most what its size field can say.
proof fn lemma_acl_size(acl: Seq<u8>)
    requires
        is_acl(acl),
    ensures
        8 <= acl.len() <= 0xffff,
{
    let own = acl.subrange(0, 0 + le16_at(acl, 2));
    assert(own.len() == acl.len());
}

/// The offsets in the header of an assembled descriptor are those of its components.
pub proof fn lemma_sd_offsets(
    sbz1: u8,
    control: u16,
    owner: Option<Seq<u8>>,
    group: Option<Seq<u8>>,
    sacl: Option<Seq<u8>>,
    dacl: Option<Seq<u8>>,
)
    ensures
        ({
            let s = sd_bytes(sbz1, control, owner, group, sacl, dacl);
            let group_off = 20 + part_len(owner);
            let sacl_off = group_off + part_len(group);
            let dacl_off = sacl_off + part_len(sacl);
            &&& le32_at(s, 4) == part_offset(owner, 20)
            &&& le32_at(s, 8) == part_offset(group, group_off)
            &&& le32_at(s, 12) == part_offset(sacl, sacl_off)
            &&& le32_at(s, 16) == part_offset(dacl, dacl_off)
        }),
{
    let ob = part_bytes(owner);
    let gb = part_bytes(group);
    let sb = part_bytes(sacl);
    let db = part_bytes(dacl);
    let f1 = part_offset(owner, 20);
    let f2 = part_offset(group, 20 + part_len(owner));
    let f3 = part_offset(sacl, 20 + part_len(owner) + part_len(group));
    let f4 = part_offset(dacl, 20 + part_len(owner) + part_len(group) + part_len(sacl));
    lemma_regroup(sd_header(sbz1, control, f1, f2, f3, f4), ob, gb, sb, db);
    lemma_sd_header(sbz1, control, f1, f2, f3, f4, ob + gb + sb + db);
}

/// What a descriptor's header says is read back from it, whatever follows.
#[verifier::spinoff_prover]
proof fn lemma_sd_header(sbz1: u8, control: u16, f1: u32, f2: u32, f3: u32, f4: u32, rest: Seq<u8>)
    ensures
        ({
            let h = sd_header(sbz1, control, f1, f2, f3, f4);
            let s = h + rest;
            &&& h.len() == 20
            &&& s[0] == 1
            &&& s[1] == sbz1
            &&& le16_at(s, 2) == control
            &&& le32_at(s, 4) == f1
            &&& le32_at(s, 8) == f2
            &&& le32_at(s, 12) == f3
            &&& le32_at(s, 16) == f4
        }),
{
    let h = sd_header(sbz1, control, f1, f2, f3, f4);
    let s = h + rest;
    assert(s.subrange(2, 4) =~= le16(control));
    assert(s.subrange(4, 8) =~= le32(f1));
    assert(s.subrange(8, 12) =~= le32(f2));
    assert(s.subrange(12, 16) =~= le32(f3));
    assert(s.subrange(16, 20) =~= le32(f4));
    law_le16_reads_back(s, 2, control);
    law_le32_reads_back(s, 4, f1);
    law_le32_reads_back(s, 8, f2);
    law_le32_reads_back(s, 12, f3);
    law_le32_reads_back(s, 16, f4);
}

} // verus!
