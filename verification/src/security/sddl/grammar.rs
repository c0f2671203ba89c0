//! Descriptors as text: `O:` and `G:` with a SID, `D:` and `S:` with the flags of a list and its
//! entries in parentheses.

use vstd::prelude::*;
use vstd::slice::slice_subrange;
use crate::bytes::put_slice;
use crate::security::codec::{
    ace_views, acl_aces, acl_complete, opt_sid_view, sd_control, sd_dacl, sd_group, sd_owner, sd_sacl, AceRef, AceView, Acl,
    ParseError, SecurityDescriptor, SE_DACL_AUTO_INHERITED, SE_DACL_AUTO_INHERIT_REQ, SE_DACL_PRESENT, SE_DACL_PROTECTED,
    SE_SACL_AUTO_INHERITED, SE_SACL_AUTO_INHERIT_REQ, SE_SACL_PRESENT, SE_SACL_PROTECTED,
};
use crate::security::sddl::builders::{AclBuilder, SdBuilder, SdParts};
use crate::security::sddl::entry::{ace_of_text, ace_text, format_ace, parse_ace};
use crate::security::sddl::names::{parse_sid, put_sid, sid_field, sid_from_field};
use crate::security::sddl::scan::{
    close_from, find_close, find_header, header_from, header_here, is_header, top,
};
use crate::security::sddl::{SddlError, SddlErrorView};
use crate::security::sid::{Sid, SidView};

verus! {

/// Which list of a descriptor.
#[derive(Clone, Copy, Debug, PartialEq, Eq, Structural)]
pub enum AclKind {
    Dacl,
    Sacl,
}

/// The flags of a list that text shows: protected, to be inherited automatically, and
/// inherited automatically.
#[derive(Clone, Copy, Debug, PartialEq, Eq, Structural)]
pub struct AclFlags {
    pub protected: bool,
    pub inherit_req: bool,
    pub inherited: bool,
}

/// What a list says in text.
#[verifier::ext_equal]
pub struct AclModel {
    pub flags: AclFlags,
    pub aces: Seq<AceView>,
}

/// What a descriptor says in text.
#[verifier::ext_equal]
pub struct SdModel {
    pub owner: Option<SidView>,
    pub group: Option<SidView>,
    pub dacl: Option<AclModel>,
    pub sacl: Option<AclModel>,
}

/// A bit or nothing.
pub open spec fn bit(yes: bool, b: u16) -> u16 {
    if yes {
        b
    } else {
        0
    }
}

/// The control bits of a list that is there.
pub open spec fn control_bits(kind: AclKind, f: AclFlags) -> u16 {
    match kind {
        AclKind::Dacl => SE_DACL_PRESENT | bit(f.protected, SE_DACL_PROTECTED) | bit(
            f.inherit_req,
            SE_DACL_AUTO_INHERIT_REQ,
        ) | bit(f.inherited, SE_DACL_AUTO_INHERITED),
        AclKind::Sacl => SE_SACL_PRESENT | bit(f.protected, SE_SACL_PROTECTED) | bit(
            f.inherit_req,
            SE_SACL_AUTO_INHERIT_REQ,
        ) | bit(f.inherited, SE_SACL_AUTO_INHERITED),
    }
}

/// The flags of a list, from the control bits.
pub open spec fn flags_of_control(kind: AclKind, control: u16) -> AclFlags {
    match kind {
        AclKind::Dacl => AclFlags {
            protected: control & SE_DACL_PROTECTED != 0,
            inherit_req: control & SE_DACL_AUTO_INHERIT_REQ != 0,
            inherited: control & SE_DACL_AUTO_INHERITED != 0,
        },
        AclKind::Sacl => AclFlags {
            protected: control & SE_SACL_PROTECTED != 0,
            inherit_req: control & SE_SACL_AUTO_INHERIT_REQ != 0,
            inherited: control & SE_SACL_AUTO_INHERITED != 0,
        },
    }
}

fn control_of_flags(kind: AclKind, f: AclFlags) -> (control: u16)
    ensures
        control == control_bits(kind, f),
{
    match kind {
        AclKind::Dacl => {
            let p: u16 = if f.protected { SE_DACL_PROTECTED } else { 0 };
            let r: u16 = if f.inherit_req { SE_DACL_AUTO_INHERIT_REQ } else { 0 };
            let i: u16 = if f.inherited { SE_DACL_AUTO_INHERITED } else { 0 };
            SE_DACL_PRESENT | p | r | i
        },
        AclKind::Sacl => {
            let p: u16 = if f.protected { SE_SACL_PROTECTED } else { 0 };
            let r: u16 = if f.inherit_req { SE_SACL_AUTO_INHERIT_REQ } else { 0 };
            let i: u16 = if f.inherited { SE_SACL_AUTO_INHERITED } else { 0 };
            SE_SACL_PRESENT | p | r | i
        },
    }
}

fn read_control(kind: AclKind, control: u16) -> (f: AclFlags)
    ensures
        f == flags_of_control(kind, control),
{
    match kind {
        AclKind::Dacl => AclFlags {
            protected: control & SE_DACL_PROTECTED != 0,
            inherit_req: control & SE_DACL_AUTO_INHERIT_REQ != 0,
            inherited: control & SE_DACL_AUTO_INHERITED != 0,
        },
        AclKind::Sacl => AclFlags {
            protected: control & SE_SACL_PROTECTED != 0,
            inherit_req: control & SE_SACL_AUTO_INHERIT_REQ != 0,
            inherited: control & SE_SACL_AUTO_INHERITED != 0,
        },
    }
}

/// No flags.
pub open spec fn no_flags() -> AclFlags {
    AclFlags { protected: false, inherit_req: false, inherited: false }
}

/// The flags that text from `p` to `end` is, on top of some: `P`, `AR` and `AI`.
pub open spec fn acl_flags_from(s: Seq<u8>, p: int, end: int, acc: AclFlags) -> Option<AclFlags>
    decreases end - p,
{
    if p >= end {
        Some(acc)
    } else if s[p] == 0x50 {
        acl_flags_from(s, p + 1, end, AclFlags { protected: true, ..acc })
    } else if s[p] == 0x41 && p + 1 < end && s[p + 1] == 0x52 {
        acl_flags_from(s, p + 2, end, AclFlags { inherit_req: true, ..acc })
    } else if s[p] == 0x41 && p + 1 < end && s[p + 1] == 0x49 {
        acl_flags_from(s, p + 2, end, AclFlags { inherited: true, ..acc })
    } else {
        None
    }
}

/// The text of a list's flags.
pub open spec fn acl_flags_text(f: AclFlags) -> Seq<u8> {
    (if f.protected {
        seq![0x50u8]
    } else {
        Seq::empty()
    }) + (if f.inherit_req {
        seq![0x41u8, 0x52u8]
    } else {
        Seq::empty()
    }) + (if f.inherited {
        seq![0x41u8, 0x49u8]
    } else {
        Seq::empty()
    })
}

/// Where the first parenthesis is opened, from `p` on; the end if none is.
pub open spec fn open_from(s: Seq<u8>, p: int) -> int
    decreases s.len() - p,
{
    if p < s.len() && s[p] != 0x28 {
        open_from(s, p + 1)
    } else {
        p
    }
}

/// The entries from `p` on, behind some.
pub open spec fn aces_from(s: Seq<u8>, p: int, acc: Seq<AceView>) -> Result<Seq<AceView>, SddlErrorView>
    decreases s.len() - p,
{
    if p >= s.len() {
        Ok(acc)
    } else if s[p] != 0x28 {
        Err(SddlErrorView::Malformed)
    } else {
        match close_from(s, p + 1, top()) {
            None => Err(SddlErrorView::Malformed),
            Some(q) => if p < q < s.len() {
                match ace_of_text(s.subrange(p + 1, q)) {
                    Ok(a) => aces_from(s, q + 1, acc.push(a)),
                    Err(e) => Err(e),
                }
            } else {
                Err(SddlErrorView::Malformed)
            },
        }
    }
}

/// The list that text is.
#[verifier::opaque]
pub open spec fn acl_of_text(s: Seq<u8>) -> Result<AclModel, SddlErrorView> {
    let p = open_from(s, 0);
    match acl_flags_from(s, 0, p, no_flags()) {
        None => Err(SddlErrorView::UnknownAclFlag),
        Some(flags) => match aces_from(s, p, Seq::empty()) {
            Ok(aces) => Ok(AclModel { flags, aces }),
            Err(e) => Err(e),
        },
    }
}

/// A descriptor with nothing in it.
pub open spec fn nothing() -> SdModel {
    SdModel { owner: None, group: None, dacl: None, sacl: None }
}

/// A descriptor with one more section.
pub open spec fn with_section(m: SdModel, letter: u8, body: Seq<u8>) -> Result<SdModel, SddlErrorView> {
    if letter == 0x4f {
        if m.owner is Some {
            Err(SddlErrorView::DuplicateSection(letter as char))
        } else {
            match sid_from_field(body) {
                Ok(v) => Ok(SdModel { owner: Some(v), ..m }),
                Err(e) => Err(e),
            }
        }
    } else if letter == 0x47 {
        if m.group is Some {
            Err(SddlErrorView::DuplicateSection(letter as char))
        } else {
            match sid_from_field(body) {
                Ok(v) => Ok(SdModel { group: Some(v), ..m }),
                Err(e) => Err(e),
            }
        }
    } else if letter == 0x44 {
        if m.dacl is Some {
            Err(SddlErrorView::DuplicateSection(letter as char))
        } else {
            match acl_of_text(body) {
                Ok(acl) => Ok(SdModel { dacl: Some(acl), ..m }),
                Err(e) => Err(e),
            }
        }
    } else {
        if m.sacl is Some {
            Err(SddlErrorView::DuplicateSection(letter as char))
        } else {
            match acl_of_text(body) {
                Ok(acl) => Ok(SdModel { sacl: Some(acl), ..m }),
                Err(e) => Err(e),
            }
        }
    }
}

/// The sections from `p` on, added to a descriptor.
#[verifier::opaque]
pub open spec fn sections_from(s: Seq<u8>, p: int, m: SdModel) -> Result<SdModel, SddlErrorView>
    decreases s.len() - p,
{
    if p >= s.len() {
        Ok(m)
    } else if !is_header(s, p) {
        Err(SddlErrorView::Malformed)
    } else {
        let q = header_from(s, p + 2, top());
        if q <= p || q > s.len() {
            Err(SddlErrorView::Malformed)
        } else {
            match with_section(m, s[p], s.subrange(p + 2, q)) {
                Ok(next) => sections_from(s, q, next),
                Err(e) => Err(e),
            }
        }
    }
}

/// The descriptor that text is.
pub open spec fn sd_of_text(s: Seq<u8>) -> Result<SdModel, SddlErrorView> {
    if s.len() == 0 {
        Err(SddlErrorView::Empty)
    } else {
        sections_from(s, 0, nothing())
    }
}

/// The control bits of an optional list.
pub open spec fn list_bits(kind: AclKind, acl: Option<AclModel>) -> u16 {
    match acl {
        Some(a) => control_bits(kind, a.flags),
        None => 0,
    }
}

pub open spec fn list_aces(acl: Option<AclModel>) -> Option<Seq<AceView>> {
    match acl {
        Some(a) => Some(a.aces),
        None => None,
    }
}

/// The parts of a descriptor.
pub open spec fn sd_parts(m: SdModel) -> SdParts {
    SdParts {
        owner: m.owner,
        group: m.group,
        sacl: list_aces(m.sacl),
        dacl: list_aces(m.dacl),
        control: list_bits(AclKind::Dacl, m.dacl) | list_bits(AclKind::Sacl, m.sacl),
    }
}

/// A list that was read from text, with its control bits.
pub struct ParsedAcl {
    pub acl: AclBuilder,
    pub control: u16,
}

fn read_acl_flags(s: &[u8], end: usize) -> (r: Option<AclFlags>)
    requires
        end <= s@.len(),
    ensures
        r == acl_flags_from(s@, 0, end as int, no_flags()),
{
    let mut f: AclFlags = AclFlags { protected: false, inherit_req: false, inherited: false };
    let mut p: usize = 0;
    while p < end
        invariant
            p <= end <= s@.len(),
            acl_flags_from(s@, 0, end as int, no_flags()) == acl_flags_from(s@, p as int, end as int, f),
        decreases end - p,
    {
        if s[p] == 0x50 {
            f.protected = true;
            p = p + 1;
        } else if s[p] == 0x41 && end - p > 1 && s[p + 1] == 0x52 {
            f.inherit_req = true;
            p = p + 2;
        } else if s[p] == 0x41 && end - p > 1 && s[p + 1] == 0x49 {
            f.inherited = true;
            p = p + 2;
        } else {
            return None;
        }
    }
    Some(f)
}

fn find_open(s: &[u8]) -> (p: usize)
    ensures
        p == open_from(s@, 0),
        p <= s@.len(),
{
    let mut p: usize = 0;
    while p < s.len() && s[p] != 0x28
        invariant
            p <= s@.len(),
            open_from(s@, 0) == open_from(s@, p as int),
        decreases s@.len() - p,
    {
        p = p + 1;
    }
    p
}

fn read_aces(s: &[u8], start: usize) -> (r: Result<AclBuilder, SddlError>)
    requires
        start <= s@.len(),
    ensures
        match r {
            Ok(b) => aces_from(s@, start as int, Seq::empty()) == Ok::<Seq<AceView>, SddlErrorView>(b@),
            Err(e) => aces_from(s@, start as int, Seq::empty()) == Err::<Seq<AceView>, SddlErrorView>(e@),
        },
{
    let mut b: AclBuilder = AclBuilder::new();
    let mut p: usize = start;
    while p < s.len()
        invariant
            start <= p <= s@.len(),
            s@.len() == s.len(),
            aces_from(s@, start as int, Seq::empty()) == aces_from(s@, p as int, b@),
        decreases s@.len() - p,
    {
        if s[p] != 0x28 {
            return Err(SddlError::Malformed);
        }
        let q: usize = match find_close(s, p + 1) {
            Some(q) => q,
            None => return Err(SddlError::Malformed),
        };
        match parse_ace(slice_subrange(s, p + 1, q)) {
            Ok(a) => {
                b = b.ace(a);
            },
            Err(e) => return Err(e),
        }
        p = q + 1;
    }
    Ok(b)
}

fn read_acl(s: &[u8]) -> (r: Result<(AclBuilder, AclFlags), SddlError>)
    ensures
        match r {
            Ok((b, flags)) => acl_of_text(s@) == Ok::<AclModel, SddlErrorView>(AclModel { flags, aces: b@ }),
            Err(e) => acl_of_text(s@) == Err::<AclModel, SddlErrorView>(e@),
        },
{
    reveal(acl_of_text);
    let p: usize = find_open(s);
    let flags: AclFlags = match read_acl_flags(s, p) {
        Some(flags) => flags,
        None => return Err(SddlError::UnknownAclFlag),
    };
    match read_aces(s, p) {
        Ok(b) => Ok((b, flags)),
        Err(e) => Err(e),
    }
}

/// Reads a list: its flags, then its entries.
pub fn parse_acl(s: &[u8], kind: AclKind) -> (r: Result<ParsedAcl, SddlError>)
    ensures
        match r {
            Ok(a) => acl_of_text(s@) is Ok && a.acl@ == acl_of_text(s@)->Ok_0.aces && a.control == control_bits(
                kind,
                acl_of_text(s@)->Ok_0.flags,
            ),
            Err(e) => acl_of_text(s@) == Err::<AclModel, SddlErrorView>(e@),
        },
{
    match read_acl(s) {
        Ok((acl, flags)) => Ok(ParsedAcl { acl, control: control_of_flags(kind, flags) }),
        Err(e) => Err(e),
    }
}

/// What has been read of a descriptor.
struct Reading {
    owner: Option<Sid>,
    group: Option<Sid>,
    dacl: Option<(AclBuilder, AclFlags)>,
    sacl: Option<(AclBuilder, AclFlags)>,
}

spec fn list_model(acl: Option<(AclBuilder, AclFlags)>) -> Option<AclModel> {
    match acl {
        Some((b, flags)) => Some(AclModel { flags, aces: b@ }),
        None => None,
    }
}

impl Reading {
    spec fn model(&self) -> SdModel {
        SdModel {
            owner: opt_sid_view(self.owner),
            group: opt_sid_view(self.group),
            dacl: list_model(self.dacl),
            sacl: list_model(self.sacl),
        }
    }

    spec fn wf(&self) -> bool {
        &&& self.owner matches Some(s) ==> s.wf()
        &&& self.group matches Some(s) ==> s.wf()
    }
}

fn read_section(m: Reading, letter: u8, body: &[u8]) -> (r: Result<Reading, SddlError>)
    requires
        m.wf(),
    ensures
        match r {
            Ok(next) => next.wf() && with_section(m.model(), letter, body@) == Ok::<SdModel, SddlErrorView>(next.model()),
            Err(e) => with_section(m.model(), letter, body@) == Err::<SdModel, SddlErrorView>(e@),
        },
{
    if letter == 0x4f {
        if m.owner.is_some() {
            return Err(SddlError::DuplicateSection(letter as char));
        }
        match parse_sid(body) {
            Ok(sid) => Ok(Reading { owner: Some(sid), group: m.group, dacl: m.dacl, sacl: m.sacl }),
            Err(e) => Err(e),
        }
    } else if letter == 0x47 {
        if m.group.is_some() {
            return Err(SddlError::DuplicateSection(letter as char));
        }
        match parse_sid(body) {
            Ok(sid) => Ok(Reading { owner: m.owner, group: Some(sid), dacl: m.dacl, sacl: m.sacl }),
            Err(e) => Err(e),
        }
    } else if letter == 0x44 {
        if m.dacl.is_some() {
            return Err(SddlError::DuplicateSection(letter as char));
        }
        match read_acl(body) {
            Ok(acl) => Ok(Reading { owner: m.owner, group: m.group, dacl: Some(acl), sacl: m.sacl }),
            Err(e) => Err(e),
        }
    } else {
        if m.sacl.is_some() {
            return Err(SddlError::DuplicateSection(letter as char));
        }
        match read_acl(body) {
            Ok(acl) => Ok(Reading { owner: m.owner, group: m.group, dacl: m.dacl, sacl: Some(acl) }),
            Err(e) => Err(e),
        }
    }
}

/// Reads a descriptor.
pub fn parse(s: &[u8]) -> (r: Result<SdBuilder, SddlError>)
    ensures
        match r {
            Ok(b) => b.wf() && sd_of_text(s@) is Ok && b@ == sd_parts(sd_of_text(s@)->Ok_0),
            Err(e) => sd_of_text(s@) == Err::<SdModel, SddlErrorView>(e@),
        },
{
    if s.len() == 0 {
        return Err(SddlError::Empty);
    }
    let mut m: Reading = Reading { owner: None, group: None, dacl: None, sacl: None };
    let mut p: usize = 0;
    while p < s.len()
        invariant
            p <= s@.len(),
            s@.len() == s.len(),
            m.wf(),
            sd_of_text(s@) == sections_from(s@, p as int, m.model()),
        decreases s@.len() - p,
    {
        reveal(sections_from);
        if !header_here(s, p) {
            return Err(SddlError::Malformed);
        }
        let q: usize = find_header(s, p + 2);
        match read_section(m, s[p], slice_subrange(s, p + 2, q)) {
            Ok(next) => {
                m = next;
            },
            Err(e) => return Err(e),
        }
        p = q;
    }
    reveal(sections_from);
    let ghost model = m.model();
    let mut control: u16 = 0;
    let mut second: u16 = 0;
    let dacl: Option<AclBuilder> = match m.dacl {
        Some((acl, flags)) => {
            control = control_of_flags(AclKind::Dacl, flags);
            Some(acl)
        },
        None => None,
    };
    let sacl: Option<AclBuilder> = match m.sacl {
        Some((acl, flags)) => {
            second = control_of_flags(AclKind::Sacl, flags);
            Some(acl)
        },
        None => None,
    };
    let b: SdBuilder = SdBuilder { owner: m.owner, group: m.group, sacl, dacl, control: control | second };
    assert(b@ =~= sd_parts(model));
    Ok(b)
}

/// The text of entries; the first fault counts.
pub open spec fn aces_text(aces: Seq<AceView>) -> Result<Seq<u8>, SddlErrorView>
    decreases aces.len(),
{
    if aces.len() == 0 {
        Ok(Seq::empty())
    } else {
        match aces_text(aces.drop_last()) {
            Err(e) => Err(e),
            Ok(a) => match ace_text(aces.last()) {
                Err(e) => Err(e),
                Ok(b) => Ok(a + b),
            },
        }
    }
}

/// The text of an optional SID behind its letter.
pub open spec fn sid_section(letter: u8, sid: Option<SidView>) -> Seq<u8> {
    match sid {
        Some(v) => seq![letter, 0x3au8] + sid_field(v),
        None => Seq::empty(),
    }
}

/// The text of an optional list behind its letter.
pub open spec fn acl_section(letter: u8, acl: Option<AclModel>) -> Result<Seq<u8>, SddlErrorView> {
    match acl {
        Some(a) => match aces_text(a.aces) {
            Ok(t) => Ok(seq![letter, 0x3au8] + (acl_flags_text(a.flags) + t)),
            Err(e) => Err(e),
        },
        None => Ok(Seq::empty()),
    }
}

/// The text of a descriptor: owner, group, discretionary list, system list.
pub open spec fn sd_text(m: SdModel) -> Result<Seq<u8>, SddlErrorView> {
    match (acl_section(0x44, m.dacl), acl_section(0x53, m.sacl)) {
        (Err(e), _) => Err(e),
        (Ok(_), Err(e)) => Err(e),
        (Ok(d), Ok(s)) => Ok(sid_section(0x4f, m.owner) + sid_section(0x47, m.group) + d + s),
    }
}

/// A list of a descriptor, as text shows it; nothing if it is malformed.
pub open spec fn list_of(
    kind: AclKind,
    control: u16,
    acl: Result<Option<Seq<u8>>, ParseError>,
) -> Option<Option<AclModel>> {
    match acl {
        Err(_) => None,
        Ok(None) => Some(None),
        Ok(Some(b)) => if acl_complete(b) {
            Some(Some(AclModel { flags: flags_of_control(kind, control), aces: acl_aces(b) }))
        } else {
            None
        },
    }
}

/// What a binary descriptor says in text; nothing if a list is malformed.
pub open spec fn sd_model(s: Seq<u8>) -> Option<SdModel> {
    match (
        list_of(AclKind::Dacl, sd_control(s), sd_dacl(s)),
        list_of(AclKind::Sacl, sd_control(s), sd_sacl(s)),
    ) {
        (Some(dacl), Some(sacl)) => Some(
            SdModel { owner: sd_owner(s)->Ok_0, group: sd_group(s)->Ok_0, dacl, sacl },
        ),
        _ => None,
    }
}

/// The text of a binary descriptor.
pub open spec fn sd_format(s: Seq<u8>) -> Result<Seq<u8>, SddlErrorView> {
    match sd_model(s) {
        Some(m) => sd_text(m),
        None => Err(SddlErrorView::BadAce),
    }
}

fn put_acl_flags(out: &mut Vec<u8>, f: AclFlags)
    ensures
        final(out)@ == old(out)@ + acl_flags_text(f),
{
    if f.protected {
        out.push(0x50);
    }
    if f.inherit_req {
        out.push(0x41);
        out.push(0x52);
    }
    if f.inherited {
        out.push(0x41);
        out.push(0x49);
    }
    assert(out@ =~= old(out)@ + acl_flags_text(f));
}

fn put_aces(out: &mut Vec<u8>, aces: &Vec<AceRef>) -> (r: Result<(), SddlError>)
    ensures
        match r {
            Ok(_) => aces_text(ace_views(aces@)) is Ok && final(out)@ == old(out)@ + aces_text(ace_views(aces@))->Ok_0,
            Err(e) => aces_text(ace_views(aces@)) == Err::<Seq<u8>, SddlErrorView>(e@),
        },
{
    let ghost all = ace_views(aces@);
    let ghost begun = out@;
    let mut i: usize = 0;
    assert(all.take(0) =~= Seq::<AceView>::empty());
    assert(begun + aces_text(all.take(0))->Ok_0 =~= begun);
    while i < aces.len()
        invariant
            i <= aces@.len(),
            all == ace_views(aces@),
            aces_text(all.take(i as int)) is Ok,
            out@ == begun + aces_text(all.take(i as int))->Ok_0,
        decreases aces@.len() - i,
    {
        assert(all.take(i + 1).drop_last() =~= all.take(i as int));
        assert(all[i as int] == aces@[i as int]@);
        match format_ace(&aces[i]) {
            Ok(t) => {
                put_slice(out, t.as_slice());
                assert(out@ =~= begun + aces_text(all.take(i + 1))->Ok_0);
            },
            Err(e) => {
                proof {
                    lemma_first_fault(all, i + 1);
                }
                return Err(e);
            },
        }
        i = i + 1;
    }
    assert(all.take(i as int) =~= all);
    Ok(())
}

/// A fault in the first entries is one of all.
proof fn lemma_first_fault(aces: Seq<AceView>, k: int)
    requires
        0 <= k <= aces.len(),
        aces_text(aces.take(k)) is Err,
    ensures
        aces_text(aces) == aces_text(aces.take(k)),
    decreases aces.len(),
{
    if k == aces.len() {
        assert(aces.take(k) =~= aces);
    } else {
        assert(aces.drop_last().take(k) =~= aces.take(k));
        lemma_first_fault(aces.drop_last(), k);
    }
}

/// Appends a list behind its letter.
fn put_acl(out: &mut Vec<u8>, letter: u8, flags: AclFlags, acl: Option<Vec<AceRef>>) -> (r: Result<(), SddlError>)
    ensures
        ({
            let m = match acl {
                Some(aces) => Some(AclModel { flags, aces: ace_views(aces@) }),
                None => None,
            };
            match r {
                Ok(_) => acl_section(letter, m) is Ok && final(out)@ == old(out)@ + acl_section(letter, m)->Ok_0,
                Err(e) => acl_section(letter, m) == Err::<Seq<u8>, SddlErrorView>(e@),
            }
        }),
{
    match acl {
        Some(aces) => {
            let mut own: Vec<u8> = Vec::new();
            put_acl_flags(&mut own, flags);
            match put_aces(&mut own, &aces) {
                Ok(_) => {},
                Err(e) => return Err(e),
            }
            out.push(letter);
            out.push(0x3a);
            put_slice(out, own.as_slice());
            proof {
                let t = aces_text(ace_views(aces@))->Ok_0;
                assert(own@ =~= acl_flags_text(flags) + t);
                assert(out@ =~= old(out)@ + (seq![letter, 0x3au8] + (acl_flags_text(flags) + t)));
            }
            Ok(())
        },
        None => {
            assert(out@ =~= old(out)@ + Seq::<u8>::empty());
            Ok(())
        },
    }
}

fn put_sid_section(out: &mut Vec<u8>, letter: u8, sid: &Option<Sid>)
    requires
        sid matches Some(s) ==> s.wf(),
    ensures
        final(out)@ == old(out)@ + sid_section(letter, opt_sid_view(*sid)),
{
    if let Some(sid) = sid {
        out.push(letter);
        out.push(0x3a);
        put_sid(out, sid);
    }
    assert(out@ =~= old(out)@ + sid_section(letter, opt_sid_view(*sid)));
}

/// The entries of a list, if all that it announces are there.
fn list_entries<'a>(acl: Result<Option<Acl<'a>>, ParseError>) -> (r: Option<Option<Vec<AceRef<'a>>>>)
    requires
        acl matches Ok(Some(a)) ==> a.wf(),
    ensures
        match r {
            Some(Some(aces)) => acl is Ok && acl->Ok_0 is Some && acl_complete(acl->Ok_0->Some_0.bytes@) && ace_views(aces@)
                == acl_aces(acl->Ok_0->Some_0.bytes@),
            Some(None) => acl is Ok && acl->Ok_0 is None,
            None => acl is Err || (acl->Ok_0 is Some && !acl_complete(acl->Ok_0->Some_0.bytes@)),
        },
{
    match acl {
        Err(_) => None,
        Ok(None) => Some(None),
        Ok(Some(a)) => {
            let aces: Vec<AceRef<'a>> = a.aces();
            if aces.len() == a.ace_count as usize {
                Some(Some(aces))
            } else {
                None
            }
        },
    }
}

/// Writes a descriptor.
pub fn format(sd: &SecurityDescriptor) -> (r: Result<Vec<u8>, SddlError>)
    requires
        sd.wf(),
    ensures
        match r {
            Ok(out) => sd_format(sd.bytes@) == Ok::<Seq<u8>, SddlErrorView>(out@),
            Err(e) => sd_format(sd.bytes@) == Err::<Seq<u8>, SddlErrorView>(e@),
        },
{
    let dacl: Option<Vec<AceRef>> = match list_entries(sd.dacl()) {
        Some(d) => d,
        None => return Err(SddlError::BadAce),
    };
    let sacl: Option<Vec<AceRef>> = match list_entries(sd.sacl()) {
        Some(s) => s,
        None => return Err(SddlError::BadAce),
    };
    let mut out: Vec<u8> = Vec::new();
    put_sid_section(&mut out, 0x4f, &sd.owner);
    assert(out@ =~= sid_section(0x4f, opt_sid_view(sd.owner)));
    put_sid_section(&mut out, 0x47, &sd.group);
    match put_acl(&mut out, 0x44, read_control(AclKind::Dacl, sd.control), dacl) {
        Ok(_) => {},
        Err(e) => return Err(e),
    }
    match put_acl(&mut out, 0x53, read_control(AclKind::Sacl, sd.control), sacl) {
        Ok(_) => {},
        Err(e) => return Err(e),
    }
    Ok(out)
}

} // verus!
