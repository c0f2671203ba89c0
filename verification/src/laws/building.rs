//! Lists and descriptors under construction: what each call adds, and what is built.

use vstd::prelude::*;
use vstd::utf8::valid_utf8;
use crate::abi::Emit;
use crate::bytes::{law_le32_reads_back, le32, le32_at};
use crate::error::Errno;
use crate::security::acl_builder::{
    described, is_object_ace, peios_ace_spec, peios_acl_builder, peios_acl_builder_add, peios_acl_builder_allow,
    peios_acl_builder_audit, peios_acl_builder_bytes, peios_acl_builder_deny, peios_acl_builder_finish,
    peios_acl_builder_label, peios_acl_builder_new,
};
use crate::security::codec::{aces_bytes, acl_bytes, min_revision, part_len, sd_bytes, AceView};
use crate::security::rules::{ace_sound, acl_sound};
use crate::security::sd_builder::{
    peios_sd_builder, peios_sd_builder_bytes, peios_sd_builder_control, peios_sd_builder_dacl,
    peios_sd_builder_dacl_null, peios_sd_builder_group, peios_sd_builder_new, peios_sd_builder_owner,
    peios_sd_builder_sacl,
};
use crate::security::sddl::builders::{buildable, built_control, sd_buildable, AclBuilder, SdBuilder};
use crate::security::sddl::names::sid_from_field;
use crate::security::sddl::{Error, ACL_DOES_NOT_FIT, SD_DOES_NOT_FIT};
use crate::security::sid::{
    law_sid_round_trip, looks_literal, peios_sid_format, peios_sid_parse_string, sid_at, sid_bytes, sid_from_text, sid_of,
    sid_text, sid_valid, SidView,
};

verus! {

/// A body that is a mask and an identifier.
pub open spec fn mask_and_sid(body: Seq<u8>, mask: u32, sid: Seq<u8>) -> bool {
    &&& body.len() == 4 + sid.len()
    &&& le32_at(body, 0) == mask
    &&& body.subrange(4, body.len() as int) == sid
}

proof fn lemma_plain_body(t: u8, flags: u8, mask: u32, sid: Seq<u8>)
    requires
        t <= 3 || t == 0x11,
    ensures
        ({
            let a = described(t, flags, mask, sid, None, None, Seq::empty());
            a.ace_type == t && a.flags == flags && mask_and_sid(a.body, mask, sid)
        }),
{
    let a = described(t, flags, mask, sid, None, None, Seq::empty());
    assert(a.body =~= le32(mask) + sid);
    assert(a.body.subrange(0, 4) =~= le32(mask));
    law_le32_reads_back(a.body, 0, mask);
    assert(a.body.subrange(4, a.body.len() as int) =~= sid);
}

/// What was asked of a list under construction: nothing but the entry is added where it is sound
/// and fits; else the error is kept, and nothing is added from then on.
pub open spec fn added(before: peios_acl_builder, after: peios_acl_builder, a: AceView) -> bool {
    let fits = a.wf() && ace_sound(a) && before.list@.len() < 65535 && 8 + aces_bytes(before.list@).len() + 4 + a.body.len()
        <= 65535;
    &&& before.error is Some ==> after.list@ == before.list@ && after.error == before.error
    &&& before.error is None && fits ==> after.list@ == before.list@.push(a) && after.error is None
    &&& before.error is None && !fits ==> after.list@ == before.list@ && after.error == Some(Errno::Inval)
}

/// An entry that allows.
pub proof fn law_list_allow(b: &mut peios_acl_builder, sid: &[u8], mask: u32, flags: u8)
    requires
        old(b).wf(),
        call_ensures(peios_acl_builder_allow, (b, Some(sid), mask, flags), ()),
    ensures
        exists|a: AceView|
            a.ace_type == 0 && a.flags == flags && mask_and_sid(a.body, mask, sid@) && #[trigger] added(*old(b), *final(b), a),
{
    let a = described(0, flags, mask, sid@, None, None, Seq::empty());
    lemma_plain_body(0, flags, mask, sid@);
    assert(added(*old(b), *final(b), a));
}

/// An entry that denies.
pub proof fn law_list_deny(b: &mut peios_acl_builder, sid: &[u8], mask: u32, flags: u8)
    requires
        old(b).wf(),
        call_ensures(peios_acl_builder_deny, (b, Some(sid), mask, flags), ()),
    ensures
        exists|a: AceView|
            a.ace_type == 1 && a.flags == flags && mask_and_sid(a.body, mask, sid@) && #[trigger] added(*old(b), *final(b), a),
{
    let a = described(1, flags, mask, sid@, None, None, Seq::empty());
    lemma_plain_body(1, flags, mask, sid@);
    assert(added(*old(b), *final(b), a));
}

/// An entry that audits.
pub proof fn law_list_audit(b: &mut peios_acl_builder, sid: &[u8], mask: u32, flags: u8)
    requires
        old(b).wf(),
        call_ensures(peios_acl_builder_audit, (b, Some(sid), mask, flags), ()),
    ensures
        exists|a: AceView|
            a.ace_type == 2 && a.flags == flags && mask_and_sid(a.body, mask, sid@) && #[trigger] added(*old(b), *final(b), a),
{
    let a = described(2, flags, mask, sid@, None, None, Seq::empty());
    lemma_plain_body(2, flags, mask, sid@);
    assert(added(*old(b), *final(b), a));
}

/// An entry without a principal is an error.
pub proof fn law_list_without_a_principal(b: &mut peios_acl_builder, mask: u32, flags: u8)
    requires
        old(b).wf(),
        call_ensures(peios_acl_builder_allow, (b, None::<&[u8]>, mask, flags), ()),
    ensures
        final(b).list@ == old(b).list@,
        old(b).error is None ==> final(b).error == Some(Errno::Inval),
        old(b).error is Some ==> final(b).error == old(b).error,
{
}

/// A label: its level is an identifier under authority 16.
pub proof fn law_list_label(b: &mut peios_acl_builder, level: u32, policy: u32)
    requires
        old(b).wf(),
        call_ensures(peios_acl_builder_label, (b, level, policy), ()),
    ensures
        exists|a: AceView|
            {
                &&& a.ace_type == 0x11
                &&& a.flags == 0
                &&& le32_at(a.body, 0) == policy
                &&& sid_at(a.body, 4) == Some((SidView { authority: 16, subs: seq![level] }, a.body.len() as int))
                &&& #[trigger] added(*old(b), *final(b), a)
            },
{
    let v = SidView { authority: 16, subs: seq![level] };
    let a = described(0x11, 0, policy, sid_bytes(v), None, None, Seq::empty());
    lemma_plain_body(0x11, 0, policy, sid_bytes(v));
    law_sid_round_trip(le32(policy), v, Seq::empty());
    assert(le32(policy) + sid_bytes(v) + Seq::<u8>::empty() =~= a.body);
    assert(added(*old(b), *final(b), a));
}

/// An entry from all its parts: mask; for types with GUIDs a word with bit 0 for the type and bit
/// 1 for the inherited type, and these; the identifier; what follows it.
pub proof fn law_described_entries(t: u8, flags: u8, mask: u32, sid: Seq<u8>, ty: &[u8; 16], inh: &[u8; 16], data: Seq<u8>)
    ensures
        ({
            let object = (5 <= t <= 8) || t == 11 || t == 12 || t == 15 || t == 16;
            let none = described(t, flags, mask, sid, None, None, data);
            let one = described(t, flags, mask, sid, Some(ty), None, data);
            let two = described(t, flags, mask, sid, None, Some(inh), data);
            let both = described(t, flags, mask, sid, Some(ty), Some(inh), data);
            &&& none.ace_type == t && none.flags == flags
            &&& !object ==> none.body == le32(mask) + sid + data && both.body == none.body
            &&& object ==> none.body == le32(mask) + le32(0) + sid + data
            &&& object ==> one.body == le32(mask) + le32(1) + ty@ + sid + data
            &&& object ==> two.body == le32(mask) + le32(2) + inh@ + sid + data
            &&& object ==> both.body == le32(mask) + le32(3) + ty@ + inh@ + sid + data
        }),
{
    let none = described(t, flags, mask, sid, None, None, data);
    let one = described(t, flags, mask, sid, Some(ty), None, data);
    let two = described(t, flags, mask, sid, None, Some(inh), data);
    let both = described(t, flags, mask, sid, Some(ty), Some(inh), data);
    if (5 <= t <= 8) || t == 11 || t == 12 || t == 15 || t == 16 {
        assert(none.body =~= le32(mask) + le32(0) + sid + data);
        assert(one.body =~= le32(mask) + le32(1) + ty@ + sid + data);
        assert(two.body =~= le32(mask) + le32(2) + inh@ + sid + data);
        assert(both.body =~= le32(mask) + le32(3) + ty@ + inh@ + sid + data);
    } else {
        assert(none.body =~= le32(mask) + sid + data);
        assert(both.body =~= le32(mask) + sid + data);
    }
}

/// Adding an entry from all its parts.
pub proof fn law_list_add(b: &mut peios_acl_builder, e: &peios_ace_spec)
    requires
        old(b).wf(),
        e.sid is Some,
        e.app_data is Some,
        call_ensures(peios_acl_builder_add, (b, Some(e)), ()),
    ensures
        added(
            *old(b),
            *final(b),
            described(
                e.type_,
                e.flags,
                e.mask,
                e.sid->Some_0@,
                e.object_type,
                e.inherited_object_type,
                e.app_data->Some_0@,
            ),
        ),
{
}

/// A new list is empty.
pub proof fn law_new_list(b: peios_acl_builder)
    requires
        call_ensures(peios_acl_builder_new, (), b),
    ensures
        b.list@.len() == 0,
        b.error is None,
{
}

/// What is built of a list: its entries in their order behind a header, or the error.
pub proof fn law_list_bytes(b: &mut peios_acl_builder, r: Result<&[u8], Errno>)
    requires
        old(b).wf(),
        call_ensures(peios_acl_builder_bytes, (b,), r),
    ensures
        old(b).error matches Some(e) ==> r == Err::<&[u8], Errno>(e),
        old(b).error is None ==> (r matches Ok(s) && s@ == acl_bytes(min_revision(old(b).list@), 0, old(b).list@)),
        final(b).list@ == old(b).list@ && final(b).error == old(b).error,
{
}

/// Handing out a list into room of a size.
pub proof fn law_list_finish(b: &mut peios_acl_builder, cap: usize, null: bool, r: Result<(Emit, &[u8]), Errno>)
    requires
        old(b).wf(),
        call_ensures(peios_acl_builder_finish, (b, cap, null), r),
    ensures
        old(b).error matches Some(e) ==> r == Err::<(Emit, &[u8]), Errno>(e),
        old(b).error is None && cap == 0 ==> (r matches Ok((Emit::Probe, s)) && s@ == old(b).bytes()),
        old(b).error is None && cap > 0 && null ==> r == Err::<(Emit, &[u8]), Errno>(Errno::Inval),
        old(b).error is None && cap > 0 && !null && old(b).bytes().len() > cap ==> r == Err::<(Emit, &[u8]), Errno>(
            Errno::Range,
        ),
        old(b).error is None && cap > 0 && !null && old(b).bytes().len() <= cap ==> (r matches Ok((Emit::Write, s)) && s@
            == old(b).bytes()),
{
}

/// Which types take GUIDs.
pub proof fn law_types_with_guids(t: u8, r: bool)
    requires
        call_ensures(is_object_ace, (t,), r),
    ensures
        r <==> (5 <= t <= 8) || t == 11 || t == 12 || t == 15 || t == 16,
{
}

/// Setting the owner of a descriptor.
pub proof fn law_descriptor_owner(b: &mut peios_sd_builder, sid: &[u8])
    requires
        old(b).wf(),
        call_ensures(peios_sd_builder_owner, (b, Some(sid)), ()),
    ensures
        old(b).error is Some ==> final(b).state() == old(b).state(),
        old(b).error is None && sid_valid(sid@) ==> final(b).state().owner == Some(sid@) && final(b).error is None,
        old(b).error is None && !sid_valid(sid@) ==> final(b).state().owner == old(b).state().owner && final(b).error == Some(Errno::Inval),
        final(b).state().group == old(b).state().group && final(b).state().dacl == old(b).state().dacl && final(b).state().sacl == old(b).state().sacl && final(b).state().control == old(b).state().control,
{
}

/// Setting the group of a descriptor.
pub proof fn law_descriptor_group(b: &mut peios_sd_builder, sid: &[u8])
    requires
        old(b).wf(),
        call_ensures(peios_sd_builder_group, (b, Some(sid)), ()),
    ensures
        old(b).error is Some ==> final(b).state() == old(b).state(),
        old(b).error is None && sid_valid(sid@) ==> final(b).state().group == Some(sid@) && final(b).error is None,
        old(b).error is None && !sid_valid(sid@) ==> final(b).state().group == old(b).state().group && final(b).error == Some(Errno::Inval),
        final(b).state().owner == old(b).state().owner && final(b).state().dacl == old(b).state().dacl && final(b).state().sacl == old(b).state().sacl && final(b).state().control == old(b).state().control,
{
}

/// Setting the access list of a descriptor.
pub proof fn law_descriptor_dacl(b: &mut peios_sd_builder, acl: &[u8])
    requires
        old(b).wf(),
        call_ensures(peios_sd_builder_dacl, (b, Some(acl)), ()),
    ensures
        old(b).error is Some ==> final(b).state() == old(b).state(),
        old(b).error is None && acl_sound(acl@) ==> final(b).state().dacl == Some(acl@) && final(b).error is None,
        old(b).error is None && !acl_sound(acl@) ==> final(b).state().dacl == old(b).state().dacl && final(b).error == Some(Errno::Inval),
        final(b).state().owner == old(b).state().owner && final(b).state().group == old(b).state().group && final(b).state().sacl == old(b).state().sacl && final(b).state().control == old(b).state().control,
{
}

/// Setting the audit list of a descriptor.
pub proof fn law_descriptor_sacl(b: &mut peios_sd_builder, acl: &[u8])
    requires
        old(b).wf(),
        call_ensures(peios_sd_builder_sacl, (b, Some(acl)), ()),
    ensures
        old(b).error is Some ==> final(b).state() == old(b).state(),
        old(b).error is None && acl_sound(acl@) ==> final(b).state().sacl == Some(acl@) && final(b).error is None,
        old(b).error is None && !acl_sound(acl@) ==> final(b).state().sacl == old(b).state().sacl && final(b).error == Some(Errno::Inval),
        final(b).state().owner == old(b).state().owner && final(b).state().group == old(b).state().group && final(b).state().dacl == old(b).state().dacl && final(b).state().control == old(b).state().control,
{
}

/// Setting and clearing control bits, clearing last.
pub proof fn law_descriptor_control(b: &mut peios_sd_builder, set: u16, clear: u16)
    requires
        old(b).wf(),
        call_ensures(peios_sd_builder_control, (b, set, clear), ()),
    ensures
        old(b).error is Some ==> final(b).state() == old(b).state(),
        old(b).error is None ==> final(b).control_user == (old(b).control_user | set) & !clear && final(b).error is None,
        final(b).state().owner == old(b).state().owner && final(b).state().group == old(b).state().group && final(b).state().dacl == old(b).state().dacl && final(b).state().sacl == old(b).state().sacl,
{
}

/// Taking the access list out.
pub proof fn law_descriptor_without_a_list(b: &mut peios_sd_builder)
    requires
        old(b).wf(),
        call_ensures(peios_sd_builder_dacl_null, (b,), ()),
    ensures
        old(b).error is Some ==> final(b).state() == old(b).state(),
        old(b).error is None ==> final(b).state().dacl is None && final(b).error is None,
        final(b).state().owner == old(b).state().owner && final(b).state().group == old(b).state().group && final(b).state().sacl == old(b).state().sacl && final(b).state().control == old(b).state().control,
{
}

/// A new descriptor has nothing.
pub proof fn law_new_descriptor(b: peios_sd_builder)
    requires
        call_ensures(peios_sd_builder_new, (), b),
    ensures
        b.owner is None && b.group is None && b.dacl is None && b.sacl is None && b.control_user == 0 && b.error is None,
{
}

/// What is built of a descriptor, up to 65535 bytes.
pub proof fn law_descriptor_bytes(b: &mut peios_sd_builder, r: Result<&[u8], Errno>)
    requires
        old(b).wf(),
        call_ensures(peios_sd_builder_bytes, (b,), r),
    ensures
        ({
            let st = old(b).state();
            let n = 20 + part_len(st.owner) + part_len(st.group) + part_len(st.sacl) + part_len(st.dacl);
            &&& st.error matches Some(e) ==> r == Err::<&[u8], Errno>(e)
            &&& st.error is None && n > 65535 ==> r == Err::<&[u8], Errno>(Errno::Inval) && final(b).error == Some(Errno::Inval)
            &&& st.error is None && n <= 65535 ==> (r matches Ok(s) && s@ == sd_bytes(
                0,
                built_control(st.control, st.sacl is Some, st.dacl is Some),
                st.owner,
                st.group,
                st.sacl,
                st.dacl,
            ))
        }),
{
}

/// The parts of a descriptor that is built from entries.
pub proof fn law_parts_that_are_set(b: SdBuilder, bits: u16, c: SdBuilder, acl: AclBuilder, d: SdBuilder, s: SdBuilder)
    requires
        b.wf(),
        call_ensures(SdBuilder::control, (b, bits), c),
        call_ensures(SdBuilder::dacl, (b, acl), d),
        call_ensures(SdBuilder::sacl, (b, acl), s),
    ensures
        c.control == b.control | bits && c@.owner == b@.owner && c@.group == b@.group && c@.dacl == b@.dacl && c@.sacl
            == b@.sacl,
        d@.dacl == Some(acl@) && d@.sacl == b@.sacl && d@.owner == b@.owner && d@.group == b@.group && d.control == b.control,
        s@.sacl == Some(acl@) && s@.dacl == b@.dacl && s@.owner == b@.owner && s@.group == b@.group && s.control == b.control,
{
}

/// Which descriptors are built: their lists fit 65535 bytes each, and all of it does.
pub proof fn law_descriptors_that_are_built(b: SdBuilder, r: Result<Vec<u8>, Error>)
    requires
        b.wf(),
        call_ensures(SdBuilder::build, (&b,), r),
    ensures
        r is Ok <==> sd_buildable(b@),
        r matches Err(e) ==> e == Error::Encode(ACL_DOES_NOT_FIT) || e == Error::Encode(SD_DOES_NOT_FIT),
        b@.dacl matches Some(a) ==> (!buildable(a) ==> r == Err::<Vec<u8>, Error>(Error::Encode(ACL_DOES_NOT_FIT))),
        b@.sacl matches Some(a) ==> (!buildable(a) ==> r == Err::<Vec<u8>, Error>(Error::Encode(ACL_DOES_NOT_FIT))),
        r matches Ok(out) ==> ({
            let p = b@;
            out@ == sd_bytes(
                0,
                built_control(p.control, p.sacl is Some, p.dacl is Some),
                match p.owner {
                    Some(v) => Some(sid_bytes(v)),
                    None => None,
                },
                match p.group {
                    Some(v) => Some(sid_bytes(v)),
                    None => None,
                },
                match p.sacl {
                    Some(a) => Some(acl_bytes(min_revision(a), 0, a)),
                    None => None,
                },
                match p.dacl {
                    Some(a) => Some(acl_bytes(min_revision(a), 0, a)),
                    None => None,
                },
            )
        }),
{
}

/// Which lists are built.
pub proof fn law_lists_that_are_built(b: AclBuilder, r: Result<Vec<u8>, Error>)
    requires
        call_ensures(AclBuilder::build, (&b,), r),
    ensures
        r is Ok <==> (forall|i: int| 0 <= i < b@.len() ==> (#[trigger] b@[i]).wf()) && 8 + aces_bytes(b@).len() <= 65535,
        r matches Ok(out) ==> out@ == acl_bytes(min_revision(b@), 0, b@),
        r matches Err(e) ==> e == Error::Encode(ACL_DOES_NOT_FIT),
{
}

/// An identifier from a string of less than 256 bytes: what `S-1-` says; else, where it does not
/// begin like that, a name.
pub proof fn law_identifiers_from_strings(t: &[u8], r: Result<Vec<u8>, Errno>, none: Result<Vec<u8>, Errno>)
    requires
        call_ensures(peios_sid_parse_string, (Some(t),), r),
        call_ensures(peios_sid_parse_string, (None::<&[u8]>,), none),
    ensures
        none == Err::<Vec<u8>, Errno>(Errno::Inval),
        r matches Err(e) ==> e == Errno::Inval,
        t@.len() >= 256 ==> r is Err,
        t@.len() < 256 ==> (sid_from_text(t@) matches Some(v) ==> r matches Ok(b) && b@ == sid_bytes(v)),
        t@.len() < 256 && sid_from_text(t@) is None && (!valid_utf8(t@) || looks_literal(t@)) ==> r is Err,
        t@.len() < 256 && sid_from_text(t@) is None && valid_utf8(t@) && !looks_literal(t@) ==> match sid_from_field(t@) {
            Ok(v) => r matches Ok(b) && b@ == sid_bytes(v),
            Err(_) => r is Err,
        },
{
}

/// The text of an identifier in bytes.
pub proof fn law_identifiers_to_strings(s: &[u8], r: Result<Vec<u8>, Errno>)
    requires
        call_ensures(peios_sid_format, (Some(s),), r),
    ensures
        sid_of(s@) matches Some(v) ==> r matches Ok(t) && t@ == sid_text(v),
        sid_of(s@) is None ==> r == Err::<Vec<u8>, Errno>(Errno::Inval),
{
}

} // verus!
