//! A security descriptor under construction that remembers its first error. Components are
//! held to the kernel's rules as they are set.

use vstd::prelude::*;
use vstd::slice::slice_to_vec;
use crate::abi::{emit, emit_rule, Emit};
use crate::bytes::{le16_at, le32_at};
use crate::error::Errno;
use crate::security::codec::{
    assemble_sd, law_sd_round_trip, lemma_sd_offsets, opt_sid_bytes, opt_vec_view, part_len, sd_bytes, sd_control,
    sd_dacl, sd_fault, sd_group, sd_len, sd_owner, sd_sacl, ParseError, SE_DACL_PRESENT,
};
use crate::security::rules::{acl_range, acl_sound, acl_valid, sd_sound, sid_range};
use crate::security::sddl::builders::{built_control, built_control_word, law_built_control, lemma_sd_bytes_len};
use crate::security::sid::{law_sid_canonical, peios_sid_valid, sid_at, sid_of, sid_valid, SidView};

verus! {

/// The largest descriptor.
pub const SD_MAX: usize = 65535;

/// A descriptor under construction.
#[allow(non_camel_case_types)]
pub struct peios_sd_builder {
    pub owner: Option<Vec<u8>>,
    pub group: Option<Vec<u8>>,
    pub dacl: Option<Vec<u8>>,
    pub sacl: Option<Vec<u8>>,
    pub control_user: u16,
    pub error: Option<Errno>,
    pub built: Vec<u8>,
}

/// What the builder has been given.
#[verifier::ext_equal]
pub struct SdState {
    pub owner: Option<Seq<u8>>,
    pub group: Option<Seq<u8>>,
    pub dacl: Option<Seq<u8>>,
    pub sacl: Option<Seq<u8>>,
    pub control: u16,
    pub error: Option<Errno>,
}

impl SdState {
    /// The length that the descriptor would have.
    pub open spec fn len(self) -> nat {
        sd_len(self.owner, self.group, self.sacl, self.dacl)
    }

    /// The descriptor.
    pub open spec fn bytes(self) -> Seq<u8> {
        sd_bytes(
            0,
            built_control(self.control, self.sacl is Some, self.dacl is Some),
            self.owner,
            self.group,
            self.sacl,
            self.dacl,
        )
    }

    /// Every component is one that the kernel accepts.
    pub open spec fn wf(self) -> bool {
        &&& self.owner matches Some(b) ==> sid_valid(b)
        &&& self.group matches Some(b) ==> sid_valid(b)
        &&& self.dacl matches Some(b) ==> acl_sound(b)
        &&& self.sacl matches Some(b) ==> acl_sound(b)
    }

    /// The state with an error latched, unless there is one.
    pub open spec fn latched(self, e: Errno) -> SdState {
        SdState {
            error: if self.error is Some {
                self.error
            } else {
                Some(e)
            },
            ..self
        }
    }
}

impl peios_sd_builder {
    pub open spec fn state(&self) -> SdState {
        SdState {
            owner: opt_vec_view(self.owner),
            group: opt_vec_view(self.group),
            dacl: opt_vec_view(self.dacl),
            sacl: opt_vec_view(self.sacl),
            control: self.control_user,
            error: self.error,
        }
    }

    pub open spec fn wf(&self) -> bool {
        self.state().wf()
    }

    fn latch(&mut self, errno: Errno)
        requires
            old(self).wf(),
        ensures
            final(self).wf(),
            final(self).state() == old(self).state().latched(errno),
    {
        if self.error.is_none() {
            self.error = Some(errno);
        }
    }

    /// Renders the descriptor into `built`.
    fn materialize(&mut self) -> (r: Result<(), Errno>)
        requires
            old(self).wf(),
        ensures
            final(self).wf(),
            final(self).state() == old(self).state(),
            match old(self).error {
                Some(e) => r == Err::<(), Errno>(e),
                None => if old(self).state().len() <= SD_MAX {
                    r is Ok && final(self).built@ == old(self).state().bytes()
                } else {
                    r == Err::<(), Errno>(Errno::Inval)
                },
            },
    {
        if let Some(e) = self.error {
            return Err(e);
        }
        proof {
            lemma_component_sizes(self.state());
        }
        let control: u16 = built_control_word(self.control_user, self.sacl.is_some(), self.dacl.is_some());
        let built: Vec<u8> = assemble_sd(0, control, &self.owner, &self.group, &self.sacl, &self.dacl);
        proof {
            lemma_sd_bytes_len(
                0,
                control,
                opt_vec_view(self.owner),
                opt_vec_view(self.group),
                opt_vec_view(self.sacl),
                opt_vec_view(self.dacl),
            );
        }
        if built.len() > SD_MAX {
            return Err(Errno::Inval);
        }
        self.built = built;
        Ok(())
    }
}

/// Components are small.
proof fn lemma_component_sizes(st: SdState)
    requires
        st.wf(),
    ensures
        st.len() <= u32::MAX,
{
    if let Some(b) = st.dacl {
        let own = b.subrange(0, 0 + le16_at(b, 2));
        assert(own.len() == b.len());
    }
    if let Some(b) = st.sacl {
        let own = b.subrange(0, 0 + le16_at(b, 2));
        assert(own.len() == b.len());
    }
}

pub fn peios_sd_builder_new() -> (b: peios_sd_builder)
    ensures
        b.wf(),
        b.state() == (SdState { owner: None, group: None, dacl: None, sacl: None, control: 0, error: None }),
{
    peios_sd_builder {
        owner: None,
        group: None,
        dacl: None,
        sacl: None,
        control_user: 0,
        error: None,
        built: Vec::new(),
    }
}

/// Drops the components, the control bits and the latched error.
pub fn peios_sd_builder_reset(b: &mut peios_sd_builder)
    ensures
        final(b).wf(),
        final(b).state() == (SdState { owner: None, group: None, dacl: None, sacl: None, control: 0, error: None }),
{
    *b = peios_sd_builder_new();
}

/// Sets the owner; anything but a SID latches an error.
pub fn peios_sd_builder_owner(b: &mut peios_sd_builder, sid: Option<&[u8]>)
    requires
        old(b).wf(),
    ensures
        final(b).wf(),
        final(b).state() == (if old(b).error is Some {
            old(b).state()
        } else if sid is Some && sid_valid(sid->Some_0@) {
            SdState { owner: Some(sid->Some_0@), ..old(b).state() }
        } else {
            old(b).state().latched(Errno::Inval)
        }),
{
    if b.error.is_some() {
        return;
    }
    if !peios_sid_valid(sid) {
        b.latch(Errno::Inval);
        return;
    }
    if let Some(s) = sid {
        b.owner = Some(slice_to_vec(s));
    }
}

/// Sets the primary group; anything but a SID latches an error.
pub fn peios_sd_builder_group(b: &mut peios_sd_builder, sid: Option<&[u8]>)
    requires
        old(b).wf(),
    ensures
        final(b).wf(),
        final(b).state() == (if old(b).error is Some {
            old(b).state()
        } else if sid is Some && sid_valid(sid->Some_0@) {
            SdState { group: Some(sid->Some_0@), ..old(b).state() }
        } else {
            old(b).state().latched(Errno::Inval)
        }),
{
    if b.error.is_some() {
        return;
    }
    if !peios_sid_valid(sid) {
        b.latch(Errno::Inval);
        return;
    }
    if let Some(s) = sid {
        b.group = Some(slice_to_vec(s));
    }
}

/// Sets and then clears control bits. The bits that the builder manages itself are ignored in
/// the finished descriptor.
pub fn peios_sd_builder_control(b: &mut peios_sd_builder, set: u16, clear: u16)
    requires
        old(b).wf(),
    ensures
        final(b).wf(),
        final(b).state() == (if old(b).error is Some {
            old(b).state()
        } else {
            SdState { control: (old(b).control_user | set) & !clear, ..old(b).state() }
        }),
{
    if b.error.is_some() {
        return;
    }
    b.control_user = (b.control_user | set) & !clear;
}

/// Whether a caller's list is one that the kernel accepts.
fn given_acl_valid(acl: Option<&[u8]>) -> (valid: bool)
    ensures
        valid == (acl is Some && acl_sound(acl->Some_0@)),
{
    match acl {
        Some(a) => acl_valid(a),
        None => false,
    }
}

/// Sets the discretionary list; anything but a sound list latches an error.
pub fn peios_sd_builder_dacl(b: &mut peios_sd_builder, acl: Option<&[u8]>)
    requires
        old(b).wf(),
    ensures
        final(b).wf(),
        final(b).state() == (if old(b).error is Some {
            old(b).state()
        } else if acl is Some && acl_sound(acl->Some_0@) {
            SdState { dacl: Some(acl->Some_0@), ..old(b).state() }
        } else {
            old(b).state().latched(Errno::Inval)
        }),
{
    if b.error.is_some() {
        return;
    }
    if !given_acl_valid(acl) {
        b.latch(Errno::Inval);
        return;
    }
    if let Some(a) = acl {
        b.dacl = Some(slice_to_vec(a));
    }
}

/// Asks for a descriptor that grants everything: one without a discretionary list.
pub fn peios_sd_builder_dacl_null(b: &mut peios_sd_builder)
    requires
        old(b).wf(),
    ensures
        final(b).wf(),
        final(b).state() == (if old(b).error is Some {
            old(b).state()
        } else {
            SdState { dacl: None, ..old(b).state() }
        }),
{
    if b.error.is_some() {
        return;
    }
    b.dacl = None;
}

/// Sets the system list; anything but a sound list latches an error.
pub fn peios_sd_builder_sacl(b: &mut peios_sd_builder, acl: Option<&[u8]>)
    requires
        old(b).wf(),
    ensures
        final(b).wf(),
        final(b).state() == (if old(b).error is Some {
            old(b).state()
        } else if acl is Some && acl_sound(acl->Some_0@) {
            SdState { sacl: Some(acl->Some_0@), ..old(b).state() }
        } else {
            old(b).state().latched(Errno::Inval)
        }),
{
    if b.error.is_some() {
        return;
    }
    if !given_acl_valid(acl) {
        b.latch(Errno::Inval);
        return;
    }
    if let Some(a) = acl {
        b.sacl = Some(slice_to_vec(a));
    }
}

/// The finished descriptor. Without one, the error is latched.
pub fn peios_sd_builder_bytes(b: &mut peios_sd_builder) -> (r: Result<&[u8], Errno>)
    requires
        old(b).wf(),
    ensures
        final(b).wf(),
        match r {
            Ok(s) => {
                &&& old(b).error is None
                &&& old(b).state().len() <= SD_MAX
                &&& s@ == old(b).state().bytes()
                &&& final(b).state() == old(b).state()
            },
            Err(e) => {
                &&& e == (match old(b).error {
                    Some(latched) => latched,
                    None => Errno::Inval,
                })
                &&& old(b).error is Some || old(b).state().len() > SD_MAX
                &&& final(b).state() == old(b).state().latched(e)
            },
        },
{
    match b.materialize() {
        Ok(()) => Ok(b.built.as_slice()),
        Err(errno) => {
            b.latch(errno);
            Err(errno)
        },
    }
}

/// The finished descriptor and what to do with it for a buffer of capacity `cap`.
pub fn peios_sd_builder_finish(b: &mut peios_sd_builder, cap: usize, null: bool) -> (r: Result<
    (Emit, &[u8]),
    Errno,
>)
    requires
        old(b).wf(),
    ensures
        final(b).wf(),
        match r {
            Ok((how, s)) => {
                &&& old(b).error is None
                &&& old(b).state().len() <= SD_MAX
                &&& s@ == old(b).state().bytes()
                &&& emit_rule(s@.len(), cap as nat, null) == Ok::<Emit, Errno>(how)
                &&& final(b).state() == old(b).state()
            },
            Err(e) => if old(b).error is Some || old(b).state().len() > SD_MAX {
                &&& e == (match old(b).error {
                    Some(latched) => latched,
                    None => Errno::Inval,
                })
                &&& final(b).state() == old(b).state().latched(e)
            } else {
                &&& emit_rule(old(b).state().bytes().len(), cap as nat, null) == Err::<Emit, Errno>(e)
                &&& final(b).state() == old(b).state()
            },
        },
{
    match b.materialize() {
        Ok(()) => match emit(b.built.len(), cap, null) {
            Ok(how) => Ok((how, b.built.as_slice())),
            Err(e) => Err(e),
        },
        Err(errno) => {
            b.latch(errno);
            Err(errno)
        },
    }
}

/// The latched error, if any.
pub fn peios_sd_builder_error(b: &peios_sd_builder) -> (e: Option<Errno>)
    ensures
        e == b.error,
{
    b.error
}

/// A SID's bytes are the bytes of what they say.
proof fn lemma_sid_part_bytes(part: Option<Seq<u8>>)
    requires
        part matches Some(b) ==> sid_valid(b),
    ensures
        ({
            let v: Option<SidView> = match part {
                Some(b) => sid_of(b),
                None => None,
            };
            &&& opt_sid_bytes(v) == part
            &&& v matches Some(x) ==> x.wf()
            &&& part is Some ==> v is Some
        }),
{
    if let Some(b) = part {
        law_sid_canonical(b, 0);
        assert(b.subrange(0, b.len() as int) =~= b);
    }
}

/// What a builder was given is read back from its finished descriptor.
pub proof fn law_built_sd_reads_back(st: SdState)
    requires
        st.wf(),
    ensures
        ({
            let s = st.bytes();
            &&& sd_fault(s) is None
            &&& s.len() == st.len()
            &&& sd_control(s) == built_control(st.control, st.sacl is Some, st.dacl is Some)
            &&& sd_owner(s) == Ok::<Option<SidView>, ParseError>(
                match st.owner {
                    Some(b) => sid_of(b),
                    None => None,
                },
            )
            &&& sd_group(s) == Ok::<Option<SidView>, ParseError>(
                match st.group {
                    Some(b) => sid_of(b),
                    None => None,
                },
            )
            &&& sd_sacl(s) == Ok::<Option<Seq<u8>>, ParseError>(st.sacl)
            &&& sd_dacl(s) == Ok::<Option<Seq<u8>>, ParseError>(st.dacl)
        }),
{
    let owner: Option<SidView> = match st.owner {
        Some(b) => sid_of(b),
        None => None,
    };
    let group: Option<SidView> = match st.group {
        Some(b) => sid_of(b),
        None => None,
    };
    lemma_sid_part_bytes(st.owner);
    lemma_sid_part_bytes(st.group);
    law_built_control(st.control, st.sacl is Some, st.dacl is Some);
    law_sd_round_trip(
        0,
        built_control(st.control, st.sacl is Some, st.dacl is Some),
        owner,
        group,
        st.sacl,
        st.dacl,
    );
}

/// A finished descriptor is one that the kernel accepts.
#[verifier::rlimit(60)]
pub proof fn law_built_sd_is_sound(st: SdState)
    requires
        st.wf(),
        st.len() <= SD_MAX,
    ensures
        sd_sound(st.bytes()),
{
    let s = st.bytes();
    let control = built_control(st.control, st.sacl is Some, st.dacl is Some);
    law_built_sd_reads_back(st);
    law_built_control(st.control, st.sacl is Some, st.dacl is Some);
    lemma_sd_offsets(0, control, st.owner, st.group, st.sacl, st.dacl);
    let group_off = (20 + part_len(st.owner)) as int;
    let sacl_off = group_off + part_len(st.group);
    let dacl_off = sacl_off + part_len(st.sacl);
    assert(sid_range(s, le32_at(s, 4)) == (match st.owner {
        Some(b) => (20int, group_off),
        None => (0int, 0int),
    })) by {
        if let Some(b) = st.owner {
            lemma_sid_end(s, 20, b);
        }
    }
    assert(sid_range(s, le32_at(s, 8)) == (match st.group {
        Some(b) => (group_off, sacl_off),
        None => (0int, 0int),
    })) by {
        if let Some(b) = st.group {
            lemma_sid_end(s, group_off, b);
        }
    }
    assert(acl_range(s, le32_at(s, 12)) == (match st.sacl {
        Some(b) => (sacl_off, dacl_off),
        None => (0int, 0int),
    }));
    assert(acl_range(s, le32_at(s, 16)) == (match st.dacl {
        Some(b) => (dacl_off, dacl_off + b.len()),
        None => (0int, 0int),
    }));
}

/// A SID that is found again ends where its bytes do.
proof fn lemma_sid_end(s: Seq<u8>, off: int, b: Seq<u8>)
    requires
        sid_valid(b),
        sid_at(s, off) matches Some((v, _)) && Some(v) == sid_of(b),
    ensures
        sid_at(s, off)->Some_0.1 == off + b.len(),
{
    let v = sid_at(s, off)->Some_0.0;
    assert(v.subs.len() == s[off + 1]);
    assert(sid_of(b)->Some_0.subs.len() == b[1]);
}

/// A descriptor without a discretionary list grants everything: it is not marked as having
/// one.
pub proof fn law_null_dacl_is_absent(st: SdState)
    requires
        st.dacl is None,
    ensures
        built_control(st.control, st.sacl is Some, st.dacl is Some) & SE_DACL_PRESENT == 0,
{
    law_built_control(st.control, st.sacl is Some, false);
}

} // verus!
