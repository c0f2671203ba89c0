//! Which entries a child inherits from its parent, and descriptors with their inherited
//! entries derived anew or taken out.

use vstd::prelude::*;
use vstd::slice::{slice_subrange, slice_to_vec};
use crate::bytes::{put_le16, put_slice};
use crate::security::codec::{
    ace_views, aces_at, aces_bytes, acl_aces, acl_bytes, acl_complete, assemble_sd, min_revision, opt_sid_bytes,
    opt_vec_view, sd_bytes, sd_control, sd_dacl, sd_fault, sd_group, sd_len, sd_owner, sd_sacl, sid_component, AceRef,
    AceView, Acl, ParseError, SecurityDescriptor, ACE_FLAG_CONTAINER_INHERIT, ACE_FLAG_INHERITED,
    ACE_FLAG_INHERIT_ONLY, ACE_FLAG_NO_PROPAGATE_INHERIT, ACE_FLAG_OBJECT_INHERIT, DACL_SECURITY_INFORMATION,
    SACL_SECURITY_INFORMATION, SE_SELF_RELATIVE,
};
use crate::security::sddl::builders::{
    buildable, builder_views, built_control, built_control_word, encode_opt_sid, lemma_sd_bytes_len, AceBuilder,
    AclBuilder,
};
use crate::security::sddl::{Error, ACL_DOES_NOT_FIT, SD_DOES_NOT_FIT};
use crate::security::sid::{law_sid_canonical, Sid};

verus! {

/// The four inheritance-control flags.
pub const ALL_INHERIT_FLAGS: u8 = 0x0f;

/// The control bits that a child keeps when its inherited entries are derived anew.
pub const KEPT_CONTROL: u16 = 0x3c00;

/// The flags of the entry that a child inherits from a parent's entry with flags `f`, if it
/// inherits one:
/// - a file child inherits what is object-inheritable, and passes nothing on;
/// - a container child inherits what is container-inheritable, and passes it on unless it
///   must not propagate;
/// - a container child keeps what is only object-inheritable for the files below it, unless
///   it must not propagate.
pub open spec fn inherited_flags(f: u8, child_is_container: bool) -> Option<u8> {
    let oi = f & ACE_FLAG_OBJECT_INHERIT != 0;
    let ci = f & ACE_FLAG_CONTAINER_INHERIT != 0;
    let np = f & ACE_FLAG_NO_PROPAGATE_INHERIT != 0;
    if !child_is_container {
        if oi {
            Some((f & !ALL_INHERIT_FLAGS) | ACE_FLAG_INHERITED)
        } else {
            None
        }
    } else if ci {
        if np {
            Some((f & !ALL_INHERIT_FLAGS) | ACE_FLAG_INHERITED)
        } else {
            Some((f & !0x0cu8) | ACE_FLAG_INHERITED)
        }
    } else if oi && !np {
        Some((f & !ACE_FLAG_NO_PROPAGATE_INHERIT) | ACE_FLAG_INHERIT_ONLY | ACE_FLAG_INHERITED)
    } else {
        None
    }
}

/// The entries that a child inherits, in the parent's order.
pub open spec fn inherited(aces: Seq<AceView>, child_is_container: bool) -> Seq<AceView>
    decreases aces.len(),
{
    if aces.len() == 0 {
        Seq::empty()
    } else {
        let before = inherited(aces.drop_last(), child_is_container);
        match inherited_flags(aces.last().flags, child_is_container) {
            Some(flags) => before.push(AceView { flags, ..aces.last() }),
            None => before,
        }
    }
}

/// The entries that are not inherited, in their order.
pub open spec fn explicit(aces: Seq<AceView>) -> Seq<AceView>
    decreases aces.len(),
{
    if aces.len() == 0 {
        Seq::empty()
    } else {
        let before = explicit(aces.drop_last());
        if aces.last().flags & ACE_FLAG_INHERITED == 0 {
            before.push(aces.last())
        } else {
            before
        }
    }
}

/// The entries that a child inherits from its parent's list. Entries behind a malformed one
/// do not propagate.
pub fn compute_inherited_aces(parent_dacl: &Acl, child_is_container: bool) -> (out: Vec<AceBuilder>)
    requires
        parent_dacl.wf(),
    ensures
        builder_views(out@) == inherited(acl_aces(parent_dacl.bytes@), child_is_container),
{
    let aces: Vec<AceRef> = parent_dacl.aces();
    let ghost all = ace_views(aces@);
    let mut out: Vec<AceBuilder> = Vec::new();
    let mut i: usize = 0;
    assert(builder_views(out@) =~= Seq::<AceView>::empty());
    assert(all.take(0) =~= Seq::<AceView>::empty());
    while i < aces.len()
        invariant
            i <= aces@.len(),
            all == ace_views(aces@),
            builder_views(out@) == inherited(all.take(i as int), child_is_container),
        decreases aces@.len() - i,
    {
        let ace = &aces[i];
        let ghost next = all.take(i + 1);
        assert(next.drop_last() =~= all.take(i as int));
        assert(next.last() == ace@);
        i = i + 1;
        let f: u8 = ace.flags;
        let oi: bool = f & ACE_FLAG_OBJECT_INHERIT != 0;
        let ci: bool = f & ACE_FLAG_CONTAINER_INHERIT != 0;
        let np: bool = f & ACE_FLAG_NO_PROPAGATE_INHERIT != 0;
        if !oi && !ci {
            continue;
        }
        let new_flags: u8 = if !child_is_container {
            if !oi {
                continue;
            }
            (f & !ALL_INHERIT_FLAGS) | ACE_FLAG_INHERITED
        } else if np {
            if !ci {
                continue;
            }
            (f & !ALL_INHERIT_FLAGS) | ACE_FLAG_INHERITED
        } else if ci {
            (f & !0x0cu8) | ACE_FLAG_INHERITED
        } else {
            (f & !ACE_FLAG_NO_PROPAGATE_INHERIT) | ACE_FLAG_INHERIT_ONLY | ACE_FLAG_INHERITED
        };
        let ghost before = builder_views(out@);
        let copy: AceBuilder = AceBuilder::from_ace_ref(ace).flags(new_flags);
        out.push(copy);
        assert(builder_views(out@) =~= before.push(copy@));
    }
    assert(all.take(i as int) =~= all);
    out
}

/// A list that is asked for and whose entries are all sound.
pub open spec fn sound_acl(acl: Result<Option<Seq<u8>>, ParseError>) -> Result<Option<Seq<u8>>, ParseError> {
    match acl {
        Err(e) => Err(e),
        Ok(None) => Ok(None),
        Ok(Some(b)) => if acl_complete(b) {
            Ok(Some(b))
        } else {
            Err(ParseError::AceMalformed)
        },
    }
}

/// The entries of an optional list.
pub open spec fn aces_of(acl: Option<Seq<u8>>) -> Seq<AceView> {
    match acl {
        Some(b) => acl_aces(b),
        None => Seq::empty(),
    }
}

/// The new discretionary list of a child: its explicit entries, then the inherited ones.
/// There is none where the child had none and inherits nothing.
pub open spec fn rebuilt_dacl(
    child_dacl: Option<Seq<u8>>,
    new_inherited: Seq<AceView>,
) -> Option<Seq<AceView>> {
    if child_dacl is Some || new_inherited.len() > 0 {
        Some(explicit(aces_of(child_dacl)) + new_inherited)
    } else {
        None
    }
}

/// The bytes of a rebuilt list.
pub open spec fn rebuilt_bytes(dacl: Option<Seq<AceView>>) -> Option<Seq<u8>> {
    match dacl {
        Some(aces) => Some(acl_bytes(min_revision(aces), 0, aces)),
        None => None,
    }
}

/// The descriptor of a child whose inherited entries are derived anew from its parent's.
pub open spec fn reinherited(parent: Seq<u8>, child: Seq<u8>, child_is_container: bool) -> Result<Seq<u8>, Error> {
    if sd_fault(parent) is Some {
        Err(Error::Parse(sd_fault(parent)->Some_0))
    } else if sd_fault(child) is Some {
        Err(Error::Parse(sd_fault(child)->Some_0))
    } else if sd_control(parent) & SE_SELF_RELATIVE == 0 || sd_control(child) & SE_SELF_RELATIVE == 0 {
        Err(Error::Parse(ParseError::SdNotSelfRelative))
    } else if sd_dacl(parent) is Err {
        Err(Error::Parse(sd_dacl(parent)->Err_0))
    } else if sound_acl(sd_dacl(child)) is Err {
        Err(Error::Parse(sound_acl(sd_dacl(child))->Err_0))
    } else if sound_acl(sd_sacl(child)) is Err {
        Err(Error::Parse(sound_acl(sd_sacl(child))->Err_0))
    } else {
        let owner = opt_sid_bytes(sd_owner(child)->Ok_0);
        let group = opt_sid_bytes(sd_group(child)->Ok_0);
        let sacl = sd_sacl(child)->Ok_0;
        let new = inherited(aces_of(sd_dacl(parent)->Ok_0), child_is_container);
        let dacl = rebuilt_dacl(sd_dacl(child)->Ok_0, new);
        if dacl is Some && !buildable(dacl->Some_0) {
            Err(Error::Encode(ACL_DOES_NOT_FIT))
        } else if sd_len(owner, group, sacl, rebuilt_bytes(dacl)) > 0xffff {
            Err(Error::Encode(SD_DOES_NOT_FIT))
        } else {
            Ok(
                sd_bytes(
                    0,
                    built_control(sd_control(child) & KEPT_CONTROL, sacl is Some, dacl is Some),
                    owner,
                    group,
                    sacl,
                    rebuilt_bytes(dacl),
                ),
            )
        }
    }
}

/// The sound entries of a list, of which those that are not inherited are put into a builder.
fn collect_explicit(acl: &Acl) -> (r: Result<AclBuilder, Error>)
    requires
        acl.wf(),
    ensures
        match r {
            Ok(b) => acl_complete(acl.bytes@) && b@ == explicit(acl_aces(acl.bytes@)),
            Err(e) => !acl_complete(acl.bytes@) && e == Error::Parse(ParseError::AceMalformed),
        },
{
    let aces: Vec<AceRef> = acl.aces();
    if aces.len() != acl.ace_count as usize {
        return Err(Error::Parse(ParseError::AceMalformed));
    }
    let ghost all = ace_views(aces@);
    let mut b: AclBuilder = AclBuilder::new();
    let mut i: usize = 0;
    assert(all.take(0) =~= Seq::<AceView>::empty());
    while i < aces.len()
        invariant
            i <= aces@.len(),
            all == ace_views(aces@),
            b@ == explicit(all.take(i as int)),
        decreases aces@.len() - i,
    {
        let ghost next = all.take(i + 1);
        assert(next.drop_last() =~= all.take(i as int));
        assert(next.last() == aces@[i as int]@);
        if aces[i].flags & ACE_FLAG_INHERITED == 0 {
            b = b.ace(AceBuilder::from_ace_ref(&aces[i]));
        }
        i = i + 1;
    }
    assert(all.take(i as int) =~= all);
    Ok(b)
}

/// The entries that a child inherits from its parent's descriptor.
fn parent_entries(parent: &SecurityDescriptor, child_is_container: bool) -> (r: Result<Vec<AceBuilder>, Error>)
    requires
        parent.wf(),
    ensures
        match r {
            Ok(out) => sd_dacl(parent.bytes@) is Ok && builder_views(out@) == inherited(
                aces_of(sd_dacl(parent.bytes@)->Ok_0),
                child_is_container,
            ),
            Err(e) => sd_dacl(parent.bytes@) is Err && e == Error::Parse(sd_dacl(parent.bytes@)->Err_0),
        },
{
    match parent.dacl() {
        Ok(Some(d)) => Ok(compute_inherited_aces(&d, child_is_container)),
        Ok(None) => {
            let out: Vec<AceBuilder> = Vec::new();
            assert(builder_views(out@) =~= inherited(Seq::empty(), child_is_container));
            Ok(out)
        },
        Err(e) => Err(Error::Parse(e)),
    }
}

/// The explicit entries of a child, and whether it has a list at all.
fn child_entries(child: &SecurityDescriptor) -> (r: Result<(bool, AclBuilder), Error>)
    requires
        child.wf(),
    ensures
        match r {
            Ok((had, b)) => {
                &&& sound_acl(sd_dacl(child.bytes@)) is Ok
                &&& had == (sd_dacl(child.bytes@)->Ok_0 is Some)
                &&& b@ == explicit(aces_of(sd_dacl(child.bytes@)->Ok_0))
            },
            Err(e) => sound_acl(sd_dacl(child.bytes@)) is Err && e == Error::Parse(
                sound_acl(sd_dacl(child.bytes@))->Err_0,
            ),
        },
{
    match child.dacl() {
        Ok(Some(d)) => match collect_explicit(&d) {
            Ok(b) => Ok((true, b)),
            Err(e) => Err(e),
        },
        Ok(None) => Ok((false, AclBuilder::new())),
        Err(e) => Err(Error::Parse(e)),
    }
}

/// The system list of a child, as it is.
fn child_sacl(child: &SecurityDescriptor) -> (r: Result<Option<Vec<u8>>, Error>)
    requires
        child.wf(),
    ensures
        match r {
            Ok(out) => {
                &&& sound_acl(sd_sacl(child.bytes@)) is Ok
                &&& sd_sacl(child.bytes@)->Ok_0 == opt_vec_view(out)
                &&& out matches Some(b) ==> b@.len() <= 0xffff
            },
            Err(e) => sound_acl(sd_sacl(child.bytes@)) is Err && e == Error::Parse(
                sound_acl(sd_sacl(child.bytes@))->Err_0,
            ),
        },
{
    match child.sacl() {
        Ok(Some(acl)) => {
            if acl.aces().len() != acl.ace_count as usize {
                return Err(Error::Parse(ParseError::AceMalformed));
            }
            Ok(Some(slice_to_vec(acl.bytes)))
        },
        Ok(None) => Ok(None),
        Err(e) => Err(Error::Parse(e)),
    }
}

/// Appends entries to a list under construction.
fn append_entries(start: AclBuilder, aces: &Vec<AceBuilder>) -> (b: AclBuilder)
    ensures
        b@ == start@ + builder_views(aces@),
{
    let ghost kept = start@;
    let ghost new = builder_views(aces@);
    let mut b: AclBuilder = start;
    let mut i: usize = 0;
    assert(kept + new.take(0) =~= kept);
    while i < aces.len()
        invariant
            i <= aces@.len(),
            builder_views(aces@) == new,
            b@ == kept + new.take(i as int),
        decreases aces@.len() - i,
    {
        let ace = &aces[i];
        let copy = AceBuilder {
            ace_type: ace.ace_type,
            flags: ace.flags,
            body: slice_to_vec(ace.body.as_slice()),
        };
        assert(copy@ == new[i as int]);
        b = b.ace(copy);
        i = i + 1;
        assert(b@ =~= kept + new.take(i as int));
    }
    assert(new.take(i as int) =~= new);
    b
}

/// Builds the new list of a child, if it is to have one.
fn build_dacl(had_dacl: bool, dacl: &AclBuilder) -> (r: Result<Option<Vec<u8>>, Error>)
    ensures
        match r {
            Ok(Some(b)) => {
                &&& had_dacl || dacl@.len() > 0
                &&& buildable(dacl@)
                &&& b@ == acl_bytes(min_revision(dacl@), 0, dacl@)
                &&& b@.len() <= 0xffff
            },
            Ok(None) => !had_dacl && dacl@.len() == 0,
            Err(e) => (had_dacl || dacl@.len() > 0) && !buildable(dacl@) && e == Error::Encode(ACL_DOES_NOT_FIT),
        },
{
    if had_dacl || !dacl.is_empty() {
        match dacl.build() {
            Ok(b) => Ok(Some(b)),
            Err(e) => Err(e),
        }
    } else {
        Ok(None)
    }
}

/// Derives a child's inherited entries anew: those that it has are dropped, and those that
/// follow from its parent's list are appended. Owner, group, system list and the
/// auto-inherited and protected bits of the child stay. Protection itself is not honoured.
#[verifier::rlimit(60)]
pub fn reinherit(parent_sd: &[u8], child_sd: &[u8], child_is_container: bool) -> (r: Result<Vec<u8>, Error>)
    ensures
        match r {
            Ok(out) => reinherited(parent_sd@, child_sd@, child_is_container) == Ok::<Seq<u8>, Error>(out@),
            Err(e) => reinherited(parent_sd@, child_sd@, child_is_container) == Err::<Seq<u8>, Error>(e),
        },
{
    let parent: SecurityDescriptor = match SecurityDescriptor::parse(parent_sd) {
        Ok(sd) => sd,
        Err(e) => return Err(Error::Parse(e)),
    };
    let child: SecurityDescriptor = match SecurityDescriptor::parse(child_sd) {
        Ok(sd) => sd,
        Err(e) => return Err(Error::Parse(e)),
    };
    if parent.control & SE_SELF_RELATIVE == 0 || child.control & SE_SELF_RELATIVE == 0 {
        return Err(Error::Parse(ParseError::SdNotSelfRelative));
    }
    let new_inherited: Vec<AceBuilder> = match parent_entries(&parent, child_is_container) {
        Ok(aces) => aces,
        Err(e) => return Err(e),
    };
    let ghost new = inherited(aces_of(sd_dacl(parent_sd@)->Ok_0), child_is_container);
    let (had_dacl, start): (bool, AclBuilder) = match child_entries(&child) {
        Ok(entries) => entries,
        Err(e) => return Err(e),
    };
    let ghost kept = explicit(aces_of(sd_dacl(child_sd@)->Ok_0));
    let all: AclBuilder = append_entries(start, &new_inherited);
    proof {
        if !had_dacl {
            assert(kept =~= Seq::<AceView>::empty());
            assert(kept + new =~= new);
        }
    }
    let sacl: Option<Vec<u8>> = match child_sacl(&child) {
        Ok(sacl) => sacl,
        Err(e) => return Err(e),
    };
    let dacl: Option<Vec<u8>> = match build_dacl(had_dacl, &all) {
        Ok(dacl) => dacl,
        Err(e) => return Err(e),
    };
    let ghost spec_dacl = rebuilt_dacl(sd_dacl(child_sd@)->Ok_0, new);
    assert(opt_vec_view(dacl) == rebuilt_bytes(spec_dacl));
    let owner: Option<Vec<u8>> = encode_opt_sid(&child.owner);
    let group: Option<Vec<u8>> = encode_opt_sid(&child.group);
    let control: u16 = built_control_word(child.control & KEPT_CONTROL, sacl.is_some(), dacl.is_some());
    let out: Vec<u8> = assemble_sd(0, control, &owner, &group, &sacl, &dacl);
    proof {
        lemma_sd_bytes_len(
            0,
            control,
            opt_vec_view(owner),
            opt_vec_view(group),
            opt_vec_view(sacl),
            opt_vec_view(dacl),
        );
    }
    if out.len() > 0xffff {
        return Err(Error::Encode(SD_DOES_NOT_FIT));
    }
    Ok(out)
}

/// A list without its inherited entries; its revision and its first reserved byte stay.
pub open spec fn filtered(acl: Seq<u8>) -> Seq<u8> {
    acl_bytes(acl[0], acl[1], explicit(acl_aces(acl)))
}

/// A list as it is emitted: without its inherited entries if it is selected, else as it is.
pub open spec fn resolved(acl: Result<Option<Seq<u8>>, ParseError>, strip: bool) -> Result<
    Option<Seq<u8>>,
    ParseError,
> {
    match acl {
        Err(e) => Err(e),
        Ok(None) => Ok(None),
        Ok(Some(b)) => if !strip {
            Ok(Some(b))
        } else if acl_complete(b) {
            Ok(Some(filtered(b)))
        } else {
            Err(ParseError::AceMalformed)
        },
    }
}

/// A descriptor without the inherited entries of the lists that `info` selects.
pub open spec fn stripped(s: Seq<u8>, info: u32) -> Result<Seq<u8>, Error> {
    let strip_dacl = info & DACL_SECURITY_INFORMATION != 0;
    let strip_sacl = info & SACL_SECURITY_INFORMATION != 0;
    if sd_fault(s) is Some {
        Err(Error::Parse(sd_fault(s)->Some_0))
    } else if sd_control(s) & SE_SELF_RELATIVE == 0 {
        Err(Error::Parse(ParseError::SdNotSelfRelative))
    } else if !strip_dacl && !strip_sacl {
        Ok(s)
    } else if resolved(sd_sacl(s), strip_sacl) is Err {
        Err(Error::Parse(resolved(sd_sacl(s), strip_sacl)->Err_0))
    } else if resolved(sd_dacl(s), strip_dacl) is Err {
        Err(Error::Parse(resolved(sd_dacl(s), strip_dacl)->Err_0))
    } else {
        Ok(
            sd_bytes(
                s[1],
                sd_control(s),
                opt_sid_bytes(sd_owner(s)->Ok_0),
                opt_sid_bytes(sd_group(s)->Ok_0),
                resolved(sd_sacl(s), strip_sacl)->Ok_0,
                resolved(sd_dacl(s), strip_dacl)->Ok_0,
            ),
        )
    }
}

/// The entries that are read from bytes fit into these bytes.
pub proof fn lemma_aces_at_fit(s: Seq<u8>, p: int, count: nat)
    requires
        0 <= p <= s.len(),
    ensures
        p + aces_bytes(aces_at(s, p, count)).len() <= s.len(),
        forall|i: int| 0 <= i < aces_at(s, p, count).len() ==> (#[trigger] aces_at(s, p, count)[i]).wf(),
        aces_at(s, p, count).len() <= count,
    decreases count,
{
    if count > 0 {
        if let Some(a) = crate::security::codec::ace_at(s, p) {
            let rest = aces_at(s, p + 4 + a.body.len(), (count - 1) as nat);
            lemma_aces_at_fit(s, p + 4 + a.body.len(), (count - 1) as nat);
            crate::security::codec::lemma_aces_bytes_front(a, rest);
        }
    }
}

/// Explicit entries are among the entries, and take no more bytes than all of them.
pub proof fn lemma_explicit(aces: Seq<AceView>)
    ensures
        aces_bytes(explicit(aces)).len() <= aces_bytes(aces).len(),
        explicit(aces).len() <= aces.len(),
        forall|i: int|
            0 <= i < explicit(aces).len() ==> aces.contains(#[trigger] explicit(aces)[i]) && explicit(
                aces,
            )[i].flags & ACE_FLAG_INHERITED == 0,
    decreases aces.len(),
{
    if aces.len() > 0 {
        let less = aces.drop_last();
        lemma_explicit(less);
        let all = explicit(aces);
        let before = explicit(less);
        assert forall|i: int| 0 <= i < all.len() implies aces.contains(#[trigger] all[i]) && all[i].flags
            & ACE_FLAG_INHERITED == 0 by {
            if i < before.len() {
                assert(all[i] == before[i]);
                let j = choose|j: int| 0 <= j < less.len() && less[j] == before[i];
                assert(aces[j] == all[i]);
            } else {
                assert(aces[aces.len() - 1] == all[i]);
            }
        }
        if aces.last().flags & ACE_FLAG_INHERITED == 0 {
            assert(all.drop_last() =~= before);
            assert(all.last() == aces.last());
        }
    }
}

/// Copies the SID at an offset; an offset of zero stands for none.
fn verbatim_sid(sd_bytes: &[u8], off: u32) -> (r: Result<Option<Vec<u8>>, Error>)
    ensures
        match r {
            Ok(out) => {
                &&& sid_component(sd_bytes@, off) is Ok
                &&& opt_vec_view(out) == opt_sid_bytes(sid_component(sd_bytes@, off)->Ok_0)
                &&& out matches Some(b) ==> b@.len() <= 68
            },
            Err(e) => sid_component(sd_bytes@, off) is Err && e == Error::Parse(
                sid_component(sd_bytes@, off)->Err_0,
            ),
        },
{
    if off == 0 {
        return Ok(None);
    }
    let start: usize = off as usize;
    if start > sd_bytes.len() {
        return Err(Error::Parse(ParseError::SdOffsetOutOfBounds));
    }
    match Sid::parse_at(sd_bytes, start) {
        Some((_, end)) => {
            proof {
                law_sid_canonical(sd_bytes@, start as int);
            }
            Ok(Some(slice_to_vec(slice_subrange(sd_bytes, start, end))))
        },
        None => Err(Error::Parse(ParseError::SidMalformed)),
    }
}

/// Rebuilds a list with only the entries that are not inherited.
fn filter_acl(acl: &Acl) -> (r: Result<Vec<u8>, Error>)
    requires
        acl.wf(),
    ensures
        match r {
            Ok(out) => acl_complete(acl.bytes@) && out@ == filtered(acl.bytes@) && out@.len() <= 0xffff,
            Err(e) => !acl_complete(acl.bytes@) && e == Error::Parse(ParseError::AceMalformed),
        },
{
    let aces: Vec<AceRef> = acl.aces();
    if aces.len() != acl.ace_count as usize {
        return Err(Error::Parse(ParseError::AceMalformed));
    }
    let ghost all = ace_views(aces@);
    proof {
        lemma_aces_at_fit(acl.bytes@, 8, acl.ace_count as nat);
    }
    let mut ace_bytes: Vec<u8> = Vec::new();
    let mut kept: u16 = 0;
    let mut i: usize = 0;
    assert(all.take(0) =~= Seq::<AceView>::empty());
    while i < aces.len()
        invariant
            i <= aces@.len(),
            aces@.len() == acl.ace_count,
            all == ace_views(aces@),
            forall|j: int| 0 <= j < aces@.len() ==> (#[trigger] aces@[j]).wf(),
            ace_bytes@ == aces_bytes(explicit(all.take(i as int))),
            kept == explicit(all.take(i as int)).len(),
            kept <= i,
        decreases aces@.len() - i,
    {
        let ace = &aces[i];
        let ghost next = all.take(i + 1);
        assert(next.drop_last() =~= all.take(i as int));
        assert(next.last() == ace@);
        i = i + 1;
        if ace.flags & ACE_FLAG_INHERITED != 0 {
            continue;
        }
        let ghost before = ace_bytes@;
        ace_bytes.push(ace.ace_type);
        ace_bytes.push(ace.flags);
        put_le16(&mut ace_bytes, ace.size);
        put_slice(&mut ace_bytes, ace.body);
        kept = kept + 1;
        proof {
            let longer = explicit(next);
            assert(longer.drop_last() =~= explicit(all.take(i - 1)));
            assert(ace_bytes@ =~= before + crate::security::codec::ace_bytes(ace@));
        }
    }
    assert(all.take(i as int) =~= all);
    proof {
        lemma_explicit(all);
    }
    let total: usize = 8 + ace_bytes.len();
    let mut out: Vec<u8> = Vec::new();
    out.push(acl.revision);
    out.push(acl.bytes[1]);
    put_le16(&mut out, total as u16);
    put_le16(&mut out, kept);
    out.push(0);
    out.push(0);
    put_slice(&mut out, ace_bytes.as_slice());
    assert(out@ =~= filtered(acl.bytes@));
    Ok(out)
}

/// The bytes of one list as it is emitted.
fn resolve_acl(acl: Result<Option<Acl>, ParseError>, strip: bool) -> (r: Result<Option<Vec<u8>>, Error>)
    requires
        acl matches Ok(Some(a)) ==> a.wf(),
    ensures
        ({
            let given: Result<Option<Seq<u8>>, ParseError> = match acl {
                Err(e) => Err(e),
                Ok(None) => Ok(None),
                Ok(Some(a)) => Ok(Some(a.bytes@)),
            };
            match r {
                Ok(out) => {
                    &&& resolved(given, strip) == Ok::<Option<Seq<u8>>, ParseError>(opt_vec_view(out))
                    &&& out matches Some(b) ==> b@.len() <= 0xffff
                },
                Err(e) => resolved(given, strip) is Err && e == Error::Parse(resolved(given, strip)->Err_0),
            }
        }),
{
    match acl {
        Err(e) => Err(Error::Parse(e)),
        Ok(None) => Ok(None),
        Ok(Some(acl)) => {
            if strip {
                match filter_acl(&acl) {
                    Ok(b) => Ok(Some(b)),
                    Err(e) => Err(e),
                }
            } else {
                Ok(Some(slice_to_vec(acl.bytes)))
            }
        },
    }
}

/// Takes the inherited entries out of the lists that `info` selects. Owner, group and the
/// control word stay; with no list selected, so do all bytes.
#[verifier::rlimit(60)]
pub fn strip_inherited_aces(sd_bytes: &[u8], info: u32) -> (r: Result<Vec<u8>, Error>)
    ensures
        match r {
            Ok(out) => stripped(sd_bytes@, info) == Ok::<Seq<u8>, Error>(out@),
            Err(e) => stripped(sd_bytes@, info) == Err::<Seq<u8>, Error>(e),
        },
{
    let sd: SecurityDescriptor = match SecurityDescriptor::parse(sd_bytes) {
        Ok(sd) => sd,
        Err(e) => return Err(Error::Parse(e)),
    };
    if sd.control & SE_SELF_RELATIVE == 0 {
        return Err(Error::Parse(ParseError::SdNotSelfRelative));
    }
    let strip_dacl: bool = info & DACL_SECURITY_INFORMATION != 0;
    let strip_sacl: bool = info & SACL_SECURITY_INFORMATION != 0;
    if !strip_dacl && !strip_sacl {
        return Ok(slice_to_vec(sd_bytes));
    }
    let owner: Option<Vec<u8>> = match verbatim_sid(sd_bytes, sd.owner_off) {
        Ok(owner) => owner,
        Err(e) => return Err(e),
    };
    let group: Option<Vec<u8>> = match verbatim_sid(sd_bytes, sd.group_off) {
        Ok(group) => group,
        Err(e) => return Err(e),
    };
    let sacl: Option<Vec<u8>> = match resolve_acl(sd.sacl(), strip_sacl) {
        Ok(sacl) => sacl,
        Err(e) => return Err(e),
    };
    let dacl: Option<Vec<u8>> = match resolve_acl(sd.dacl(), strip_dacl) {
        Ok(dacl) => dacl,
        Err(e) => return Err(e),
    };
    Ok(assemble_sd(sd.sbz1, sd.control, &owner, &group, &sacl, &dacl))
}

} // verus!
