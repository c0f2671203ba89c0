//! A list under construction that remembers its first error. Every entry is held to the
//! kernel's rules before it is taken.

use vstd::prelude::*;
use crate::abi::{emit, emit_rule, Emit};
use crate::bytes::{le32, put_le16, put_le32, put_slice};
use crate::error::Errno;
use crate::security::codec::{
    ace_bytes, aces_bytes, acl_bytes, law_acl_round_trip, min_revision, needs_ds_revision, AceRef, AceView,
    ACE_TYPE_ACCESS_ALLOWED, ACE_TYPE_ACCESS_DENIED, ACE_TYPE_SYSTEM_AUDIT, ACE_TYPE_SYSTEM_MANDATORY_LABEL,
    ACL_REVISION, ACL_REVISION_DS,
};
use crate::security::rules::{ace_family, ace_sound, ace_valid, acl_sound, family, AceFamily};
use crate::security::sddl::builders::lemma_aces_len;
use crate::security::sid::{encode_sid, sid_bytes, SidView};

verus! {

/// An entry as a caller describes it. A null pointer is `None`.
#[allow(non_camel_case_types)]
pub struct peios_ace_spec<'a> {
    pub type_: u8,
    pub flags: u8,
    pub mask: u32,
    pub sid: Option<&'a [u8]>,
    pub object_type: Option<&'a [u8; 16]>,
    pub inherited_object_type: Option<&'a [u8; 16]>,
    pub app_data: Option<&'a [u8]>,
}

/// A list under construction.
#[allow(non_camel_case_types)]
pub struct peios_acl_builder {
    pub aces: Vec<u8>,
    pub count: u32,
    pub revision: u8,
    pub error: Option<Errno>,
    pub built: Vec<u8>,
    pub list: Ghost<Seq<AceView>>,
}

/// Whether entries of a type carry object flags and GUIDs before the SID.
pub fn is_object_ace(ace_type: u8) -> (object: bool)
    ensures
        object == (family(ace_type) == AceFamily::Object || family(ace_type) == AceFamily::CallbackObject),
{
    match ace_family(ace_type) {
        AceFamily::Object => true,
        AceFamily::CallbackObject => true,
        _ => false,
    }
}

/// The bytes of an optional GUID.
pub open spec fn guid_bytes(guid: Option<&[u8; 16]>) -> Seq<u8> {
    match guid {
        Some(g) => g@,
        None => Seq::empty(),
    }
}

/// The object flags that say which GUIDs are there.
pub open spec fn object_flags(object_type: Option<&[u8; 16]>, inherited: Option<&[u8; 16]>) -> u32 {
    (if object_type is Some {
        1
    } else {
        0int
    } + if inherited is Some {
        2
    } else {
        0int
    }) as u32
}

/// The entry that a description asks for.
pub open spec fn described(
    ace_type: u8,
    flags: u8,
    mask: u32,
    sid: Seq<u8>,
    object_type: Option<&[u8; 16]>,
    inherited: Option<&[u8; 16]>,
    app_data: Seq<u8>,
) -> AceView {
    let object = if family(ace_type) == AceFamily::Object || family(ace_type) == AceFamily::CallbackObject {
        le32(object_flags(object_type, inherited)) + guid_bytes(object_type) + guid_bytes(inherited)
    } else {
        Seq::<u8>::empty()
    };
    AceView { ace_type, flags, body: le32(mask) + object + sid + app_data }
}

/// An entry can be appended to a list: it is sound, and there is room for it.
pub open spec fn appendable(list: Seq<AceView>, a: AceView) -> bool {
    &&& a.wf()
    &&& ace_sound(a)
    &&& list.len() < 0xffff
    &&& 8 + aces_bytes(list).len() + 4 + a.body.len() <= 0xffff
}

impl peios_acl_builder {
    /// The bytes, the count and the revision are those of the entries so far.
    pub open spec fn wf(&self) -> bool {
        let l = self.list@;
        &&& self.aces@ == aces_bytes(l)
        &&& self.count == l.len()
        &&& self.count <= 0xffff
        &&& self.revision == min_revision(l)
        &&& 8 + self.aces@.len() <= 0xffff
        &&& forall|i: int| 0 <= i < l.len() ==> (#[trigger] l[i]).wf() && ace_sound(l[i])
    }

    /// What asking for an entry makes of the entries and the error.
    pub open spec fn asked(&self, ace: Option<AceView>) -> (Seq<AceView>, Option<Errno>) {
        if self.error is Some {
            (self.list@, self.error)
        } else if ace is Some && appendable(self.list@, ace->Some_0) {
            (self.list@.push(ace->Some_0), None)
        } else {
            (self.list@, Some(Errno::Inval))
        }
    }

    pub open spec fn state(&self) -> (Seq<AceView>, Option<Errno>) {
        (self.list@, self.error)
    }

    /// The list that the builder stands for.
    pub open spec fn bytes(&self) -> Seq<u8> {
        acl_bytes(min_revision(self.list@), 0, self.list@)
    }

    fn new() -> (b: peios_acl_builder)
        ensures
            b.wf(),
            b.state() == (Seq::<AceView>::empty(), None::<Errno>),
    {
        peios_acl_builder {
            aces: Vec::new(),
            count: 0,
            revision: ACL_REVISION,
            error: None,
            built: Vec::new(),
            list: Ghost(Seq::empty()),
        }
    }

    fn reset(&mut self)
        ensures
            final(self).wf(),
            final(self).state() == (Seq::<AceView>::empty(), None::<Errno>),
    {
        self.aces.clear();
        self.built.clear();
        self.count = 0;
        self.revision = ACL_REVISION;
        self.error = None;
        self.list = Ghost(Seq::empty());
    }

    fn latch(&mut self, errno: Errno)
        requires
            old(self).wf(),
        ensures
            final(self).wf(),
            final(self).list@ == old(self).list@,
            final(self).error == (if old(self).error is Some {
                old(self).error
            } else {
                Some(errno)
            }),
    {
        if self.error.is_none() {
            self.error = Some(errno);
        }
    }

    /// Appends the described entry, or latches an error.
    fn add(
        &mut self,
        ace_type: u8,
        flags: u8,
        mask: u32,
        sid: &[u8],
        object_type: Option<&[u8; 16]>,
        inherited_object_type: Option<&[u8; 16]>,
        app_data: &[u8],
    )
        requires
            old(self).wf(),
        ensures
            final(self).wf(),
            final(self).state() == old(self).asked(
                Some(described(ace_type, flags, mask, sid@, object_type, inherited_object_type, app_data@)),
            ),
    {
        if self.error.is_some() {
            return;
        }
        if let Err(errno) = self.encode(
            ace_type,
            flags,
            mask,
            sid,
            object_type,
            inherited_object_type,
            app_data,
        ) {
            self.latch(errno);
        }
    }

    /// Encodes the described entry, holds it to the kernel's rules and appends it.
    fn encode(
        &mut self,
        ace_type: u8,
        flags: u8,
        mask: u32,
        sid: &[u8],
        object_type: Option<&[u8; 16]>,
        inherited_object_type: Option<&[u8; 16]>,
        app_data: &[u8],
    ) -> (r: Result<(), Errno>)
        requires
            old(self).wf(),
        ensures
            final(self).wf(),
            final(self).error == old(self).error,
            ({
                let a = described(ace_type, flags, mask, sid@, object_type, inherited_object_type, app_data@);
                match r {
                    Ok(()) => appendable(old(self).list@, a) && final(self).list@ == old(self).list@.push(a),
                    Err(e) => !appendable(old(self).list@, a) && e == Errno::Inval && final(self).list@ == old(
                        self).list@,
                }
            }),
    {
        let ghost a = described(ace_type, flags, mask, sid@, object_type, inherited_object_type, app_data@);
        let mut body: Vec<u8> = Vec::new();
        put_le32(&mut body, mask);
        assert(body@ =~= le32(mask));
        if is_object_ace(ace_type) {
            let first: u32 = if object_type.is_some() { 1 } else { 0 };
            let second: u32 = if inherited_object_type.is_some() { 2 } else { 0 };
            put_le32(&mut body, first + second);
            let ghost header = body@;
            if let Some(guid) = object_type {
                put_slice(&mut body, guid.as_slice());
            }
            assert(body@ =~= header + guid_bytes(object_type));
            if let Some(guid) = inherited_object_type {
                put_slice(&mut body, guid.as_slice());
            }
            assert(body@ =~= le32(mask) + (le32(object_flags(object_type, inherited_object_type)) + guid_bytes(
                object_type,
            ) + guid_bytes(inherited_object_type)));
        } else {
            assert(body@ =~= le32(mask) + Seq::<u8>::empty());
        }
        put_slice(&mut body, sid);
        put_slice(&mut body, app_data);
        assert(body@ =~= a.body);
        let n: usize = body.len();
        if n > 0xfffb || n % 4 != 0 {
            return Err(Errno::Inval);
        }
        let size: u16 = (n + 4) as u16;
        let entry = AceRef { ace_type, flags, size, body: body.as_slice() };
        assert(entry@ == a);
        if !ace_valid(&entry) {
            return Err(Errno::Inval);
        }
        if self.count >= 0xffff {
            return Err(Errno::Inval);
        }
        if 8 + self.aces.len() + n + 4 > 0xffff {
            return Err(Errno::Inval);
        }
        let ghost longer = self.list@.push(a);
        let ghost before = self.aces@;
        self.aces.push(ace_type);
        self.aces.push(flags);
        put_le16(&mut self.aces, size);
        put_slice(&mut self.aces, body.as_slice());
        self.count = self.count + 1;
        if ace_type >= 0x05 && ace_type <= 0x10 {
            self.revision = ACL_REVISION_DS;
        }
        proof {
            assert(longer.drop_last() =~= self.list@);
            assert(self.aces@ =~= before + ace_bytes(a));
            lemma_min_revision_push(self.list@, a);
        }
        self.list = Ghost(longer);
        Ok(())
    }

    /// Renders the list into `built`.
    fn materialize(&mut self) -> (r: Result<(), Errno>)
        requires
            old(self).wf(),
        ensures
            final(self).wf(),
            final(self).state() == old(self).state(),
            match old(self).error {
                Some(e) => r == Err::<(), Errno>(e),
                None => r is Ok && final(self).built@ == old(self).bytes(),
            },
    {
        if let Some(e) = self.error {
            return Err(e);
        }
        let total: usize = 8 + self.aces.len();
        let mut built: Vec<u8> = Vec::new();
        built.push(self.revision);
        built.push(0);
        put_le16(&mut built, total as u16);
        put_le16(&mut built, self.count as u16);
        built.push(0);
        built.push(0);
        put_slice(&mut built, self.aces.as_slice());
        assert(built@ =~= self.bytes());
        self.built = built;
        Ok(())
    }
}

/// The revision of a list grows with the entry that needs the larger one.
proof fn lemma_min_revision_push(l: Seq<AceView>, a: AceView)
    ensures
        min_revision(l.push(a)) == (if needs_ds_revision(a.ace_type) {
            ACL_REVISION_DS
        } else {
            min_revision(l)
        }),
{
    let m = l.push(a);
    assert(m[l.len() as int] == a);
    if exists|i: int| 0 <= i < l.len() && needs_ds_revision(#[trigger] l[i].ace_type) {
        let i = choose|i: int| 0 <= i < l.len() && needs_ds_revision(#[trigger] l[i].ace_type);
        assert(m[i] == l[i]);
        assert(needs_ds_revision(m[i].ace_type));
    }
    if needs_ds_revision(a.ace_type) {
        assert(needs_ds_revision(m[l.len() as int].ace_type));
    }
}

/// The integrity-label SID `S-1-16-rid`.
pub fn integrity_sid(rid: u32) -> (sid: Vec<u8>)
    ensures
        sid@ == sid_bytes(SidView { authority: 16, subs: seq![rid] }),
{
    let subs: [u32; 1] = [rid];
    assert(subs@ =~= seq![rid]);
    encode_sid(16, subs.as_slice())
}

pub fn peios_acl_builder_new() -> (b: peios_acl_builder)
    ensures
        b.wf(),
        b.state() == (Seq::<AceView>::empty(), None::<Errno>),
{
    peios_acl_builder::new()
}

/// Drops the entries and the latched error.
pub fn peios_acl_builder_reset(b: &mut peios_acl_builder)
    ensures
        final(b).wf(),
        final(b).state() == (Seq::<AceView>::empty(), None::<Errno>),
{
    b.reset();
}

/// The entry of a type whose body is just a mask and the given SID, if one is given.
pub open spec fn single(ace_type: u8, flags: u8, mask: u32, sid: Option<&[u8]>) -> Option<AceView> {
    match sid {
        Some(s) => Some(described(ace_type, flags, mask, s@, None, None, Seq::empty())),
        None => None,
    }
}

fn add_single(b: &mut peios_acl_builder, ace_type: u8, flags: u8, mask: u32, sid: Option<&[u8]>)
    requires
        old(b).wf(),
    ensures
        final(b).wf(),
        final(b).state() == old(b).asked(single(ace_type, flags, mask, sid)),
{
    if b.error.is_some() {
        return;
    }
    match sid {
        Some(s) => {
            let none: &[u8] = &[];
            assert(none@ =~= Seq::<u8>::empty());
            b.add(ace_type, flags, mask, s, None, None, none)
        },
        None => b.latch(Errno::Inval),
    }
}

/// Appends an access-allowed entry.
pub fn peios_acl_builder_allow(b: &mut peios_acl_builder, sid: Option<&[u8]>, mask: u32, flags: u8)
    requires
        old(b).wf(),
    ensures
        final(b).wf(),
        final(b).state() == old(b).asked(single(ACE_TYPE_ACCESS_ALLOWED, flags, mask, sid)),
{
    add_single(b, ACE_TYPE_ACCESS_ALLOWED, flags, mask, sid);
}

/// Appends an access-denied entry.
pub fn peios_acl_builder_deny(b: &mut peios_acl_builder, sid: Option<&[u8]>, mask: u32, flags: u8)
    requires
        old(b).wf(),
    ensures
        final(b).wf(),
        final(b).state() == old(b).asked(single(ACE_TYPE_ACCESS_DENIED, flags, mask, sid)),
{
    add_single(b, ACE_TYPE_ACCESS_DENIED, flags, mask, sid);
}

/// Appends a system-audit entry.
pub fn peios_acl_builder_audit(b: &mut peios_acl_builder, sid: Option<&[u8]>, mask: u32, flags: u8)
    requires
        old(b).wf(),
    ensures
        final(b).wf(),
        final(b).state() == old(b).asked(single(ACE_TYPE_SYSTEM_AUDIT, flags, mask, sid)),
{
    add_single(b, ACE_TYPE_SYSTEM_AUDIT, flags, mask, sid);
}

/// Appends a mandatory-label entry for `S-1-16-rid`.
pub fn peios_acl_builder_label(b: &mut peios_acl_builder, integrity_rid: u32, policy_mask: u32)
    requires
        old(b).wf(),
    ensures
        final(b).wf(),
        final(b).state() == old(b).asked(
            Some(
                described(
                    ACE_TYPE_SYSTEM_MANDATORY_LABEL,
                    0,
                    policy_mask,
                    sid_bytes(SidView { authority: 16, subs: seq![integrity_rid] }),
                    None,
                    None,
                    Seq::empty(),
                ),
            ),
        ),
{
    if b.error.is_some() {
        return;
    }
    let sid: Vec<u8> = integrity_sid(integrity_rid);
    let none: &[u8] = &[];
    assert(none@ =~= Seq::<u8>::empty());
    b.add(ACE_TYPE_SYSTEM_MANDATORY_LABEL, 0, policy_mask, sid.as_slice(), None, None, none);
}

/// The entry that a caller's description asks for, if it is complete.
pub open spec fn described_by(ace: Option<&peios_ace_spec>) -> Option<AceView> {
    match ace {
        Some(s) => match s.sid {
            Some(sid) => Some(
                described(
                    s.type_,
                    s.flags,
                    s.mask,
                    sid@,
                    s.object_type,
                    s.inherited_object_type,
                    match s.app_data {
                        Some(d) => d@,
                        None => Seq::empty(),
                    },
                ),
            ),
            None => None,
        },
        None => None,
    }
}

/// Appends an entry of any type.
pub fn peios_acl_builder_add(b: &mut peios_acl_builder, ace: Option<&peios_ace_spec>)
    requires
        old(b).wf(),
    ensures
        final(b).wf(),
        final(b).state() == old(b).asked(described_by(ace)),
{
    if b.error.is_some() {
        return;
    }
    let spec: &peios_ace_spec = match ace {
        Some(s) => s,
        None => {
            b.latch(Errno::Inval);
            return;
        },
    };
    let sid: &[u8] = match spec.sid {
        Some(s) => s,
        None => {
            b.latch(Errno::Inval);
            return;
        },
    };
    match spec.app_data {
        Some(d) => {
            b.add(spec.type_, spec.flags, spec.mask, sid, spec.object_type, spec.inherited_object_type, d);
        },
        None => {
            let none: &[u8] = &[];
            assert(none@ =~= Seq::<u8>::empty());
            b.add(spec.type_, spec.flags, spec.mask, sid, spec.object_type, spec.inherited_object_type, none);
        },
    }
}

/// The finished list, unless an error is latched.
pub fn peios_acl_builder_bytes(b: &mut peios_acl_builder) -> (r: Result<&[u8], Errno>)
    requires
        old(b).wf(),
    ensures
        final(b).wf(),
        final(b).state() == old(b).state(),
        match r {
            Ok(s) => old(b).error is None && s@ == old(b).bytes(),
            Err(e) => old(b).error == Some(e),
        },
{
    match b.materialize() {
        Ok(()) => Ok(b.built.as_slice()),
        Err(errno) => {
            b.latch(errno);
            Err(errno)
        },
    }
}

/// The finished list and what to do with it for a buffer of capacity `cap`.
pub fn peios_acl_builder_finish(b: &mut peios_acl_builder, cap: usize, null: bool) -> (r: Result<
    (Emit, &[u8]),
    Errno,
>)
    requires
        old(b).wf(),
    ensures
        final(b).wf(),
        final(b).state() == old(b).state(),
        match r {
            Ok((how, s)) => {
                &&& old(b).error is None
                &&& s@ == old(b).bytes()
                &&& emit_rule(s@.len(), cap as nat, null) == Ok::<Emit, Errno>(how)
            },
            Err(e) => match old(b).error {
                Some(latched) => e == latched,
                None => emit_rule(old(b).bytes().len(), cap as nat, null) == Err::<Emit, Errno>(e),
            },
        },
{
    match b.materialize() {
        Ok(()) => match emit(b.built.len(), cap, null) {
            Ok(how) => Ok((how, b.built.as_slice())),
            Err(e) => Err(e),
        },
        Err(errno) => {
            b.latch(errno);
            Err(errno)
        },
    }
}

/// The latched error, if any.
pub fn peios_acl_builder_error(b: &peios_acl_builder) -> (e: Option<Errno>)
    ensures
        e == b.error,
{
    b.error
}

/// A finished list is one that the kernel accepts, and it holds exactly the entries that were
/// taken, in their order.
pub proof fn law_built_list_is_sound(b: peios_acl_builder)
    requires
        b.wf(),
    ensures
        acl_sound(b.bytes()),
        crate::security::codec::acl_aces(b.bytes()) == b.list@,
{
    lemma_aces_len(b.list@);
    law_acl_round_trip(min_revision(b.list@), 0, b.list@);
}

/// Once an error is latched, asking for entries changes nothing.
pub proof fn law_acl_builder_error_is_sticky(b: peios_acl_builder, ace: Option<AceView>)
    requires
        b.error is Some,
    ensures
        b.asked(ace) == b.state(),
{
}

} // verus!
