//! Which types of entries have which parts, and what the kernel's rules ask of them.

use vstd::prelude::*;
use crate::bytes::{le16_at, le32_at};
use crate::security::codec::{acl_aces, aces_bytes, sd_dacl, sd_fault, sd_sacl, AceRef, SecurityDescriptor};
use crate::security::mapping::{
    kacs_generic_mapping, peios_access_map_generic, peios_file_generic_mapping, peios_token_generic_mapping,
};
use crate::security::rules::{
    ace_family, ace_sound, ace_valid, acl_sound, acl_valid, claim_sound, claim_type_known, claim_type_scalar,
    claim_valid, claim_value_sound, family, find_parts, sd_sound, sd_valid, utf16_ends, utf16_nul_at, AceFamily, AceParts,
};
use crate::security::sid::{sid_at, SidView};
use crate::security::view::{
    peios_ace_view, peios_ace_view_app_data, peios_ace_view_flags, peios_ace_view_inherited_object_type,
    peios_ace_view_mask, peios_ace_view_object_type, peios_ace_view_sid, peios_ace_view_type, sid_array, sid_entries,
    sid_entry_at, sid_array_count_of,
};

verus! {

/// The family of each type of entry.
pub proof fn law_families(t: u8, f: AceFamily)
    requires
        call_ensures(ace_family, (t,), f),
    ensures
        f == AceFamily::SingleSid <==> t == 0 || t == 1 || t == 2 || t == 3 || t == 0x11 || t == 0x13 || t == 0x14,
        f == AceFamily::Object <==> t == 5 || t == 6 || t == 7 || t == 8,
        f == AceFamily::Callback <==> t == 9 || t == 10 || t == 13 || t == 14,
        f == AceFamily::CallbackObject <==> t == 11 || t == 12 || t == 15 || t == 16,
        f == AceFamily::ResourceAttribute <==> t == 0x12,
        f == AceFamily::Opaque <==> t == 4 || t > 0x14,
        f == family(t),
{
}

/// Where the parts of an entry without object types are: the mask, then the identifier.
pub proof fn law_parts_without_types(f: AceFamily, b: &[u8], r: Option<AceParts>)
    requires
        f != AceFamily::Object && f != AceFamily::CallbackObject,
        call_ensures(find_parts, (f, b), r),
    ensures
        r is Some <==> b@.len() >= 4 && le32_at(b@, 0) & 0x0ee0_0000 == 0 && sid_at(b@, 4) is Some,
        r matches Some(p) ==> {
            &&& p.mask == le32_at(b@, 0)
            &&& p.object_type is None
            &&& p.inherited_object_type is None
            &&& p.sid_start == 4
            &&& p.sid_end == sid_at(b@, 4)->Some_0.1
        },
{
}

/// Where the parts of an entry with object types are: the mask, a word of which bit 0 says that
/// there is a type and bit 1 that there is an inherited type, these in that order with sixteen
/// bytes each, then the identifier.
pub proof fn law_parts_with_types(f: AceFamily, b: &[u8], r: Option<AceParts>)
    requires
        f == AceFamily::Object || f == AceFamily::CallbackObject,
        call_ensures(find_parts, (f, b), r),
    ensures
        r is Some ==> b@.len() >= 8 && le32_at(b@, 0) & 0x0ee0_0000 == 0 && le32_at(b@, 4) <= 3,
        b@.len() >= 8 && le32_at(b@, 0) & 0x0ee0_0000 == 0 ==> {
            &&& le32_at(b@, 4) == 0 ==> (r is Some <==> sid_at(b@, 8) is Some)
            &&& le32_at(b@, 4) == 1 || le32_at(b@, 4) == 2 ==> (r is Some <==> sid_at(b@, 24) is Some)
            &&& le32_at(b@, 4) == 3 ==> (r is Some <==> sid_at(b@, 40) is Some)
        },
        r matches Some(p) ==> {
            &&& p.mask == le32_at(b@, 0)
            &&& le32_at(b@, 4) == 0 ==> p.object_type is None && p.inherited_object_type is None && p.sid_start == 8
            &&& le32_at(b@, 4) == 1 ==> p.object_type == Some(8usize) && p.inherited_object_type is None && p.sid_start
                == 24
            &&& le32_at(b@, 4) == 2 ==> p.object_type is None && p.inherited_object_type == Some(8usize) && p.sid_start
                == 24
            &&& le32_at(b@, 4) == 3 ==> p.object_type == Some(8usize) && p.inherited_object_type == Some(24usize)
                && p.sid_start == 40
            &&& p.sid_end == sid_at(b@, p.sid_start as int)->Some_0.1
        },
{
}

/// Which entries are sound, type by type.
pub proof fn law_sound_entries(a: AceRef, sound: bool)
    requires
        call_ensures(ace_valid, (&a,), sound),
    ensures
        a.ace_type == 4 || a.ace_type > 0x14 ==> sound,
        a.ace_type <= 3 || a.ace_type == 0x11 || a.ace_type == 0x13 || a.ace_type == 0x14 ==> (sound <==> a.body@.len()
            >= 4 && le32_at(a.body@, 0) & 0x0ee0_0000 == 0 && (sid_at(a.body@, 4) matches Some((_, end)) && end
            == a.body@.len())),
        a.ace_type == 9 || a.ace_type == 10 || a.ace_type == 13 || a.ace_type == 14 ==> (sound <==> a.body@.len() >= 4
            && le32_at(a.body@, 0) & 0x0ee0_0000 == 0 && sid_at(a.body@, 4) is Some),
        a.ace_type == 0x12 ==> (sound <==> a.body@.len() >= 4 && le32_at(a.body@, 0) & 0x0ee0_0000 == 0 && (sid_at(
            a.body@,
            4,
        ) matches Some((v, end)) && v.authority == 1 && v.subs == seq![0u32] && claim_sound(
            a.body@.subrange(end, a.body@.len() as int),
        ))),
        5 <= a.ace_type <= 8 && sound ==> a.body@.len() >= 8 && le32_at(a.body@, 4) <= 3,
{
    if a.ace_type == 0x12 {
        if let Some((v, end)) = sid_at(a.body@, 4) {
            assert(v.subs == seq![0u32] && v.authority == 1 ==> v == SidView { authority: 1, subs: seq![0u32] });
        }
    }
}

/// Which entries with object types are sound: the parts are there, the identifier ends them, and
/// only those with a condition may go on behind it.
pub proof fn law_sound_object_entries(a: AceRef, sound: bool)
    requires
        (5 <= a.ace_type <= 8) || a.ace_type == 11 || a.ace_type == 12 || a.ace_type == 15 || a.ace_type == 16,
        call_ensures(ace_valid, (&a,), sound),
    ensures
        ({
            let b = a.body@;
            let n = le32_at(b, 4);
            let start: int = if n == 0 {
                8
            } else if n == 3 {
                40
            } else {
                24
            };
            sound <==> b.len() >= 8 && le32_at(b, 0) & 0x0ee0_0000 == 0 && n <= 3 && (sid_at(b, start) matches Some((_, end)) && (
            a.ace_type > 8 || end == b.len()))
        }),
{
}

/// The types of claims by number, and those whose values are eight bytes.
pub proof fn law_claim_types_by_number(t: u16)
    ensures
        claim_type_known(t) <==> t == 1 || t == 2 || t == 3 || t == 5 || t == 6 || t == 0x10,
        claim_type_scalar(t) <==> t == 1 || t == 2 || t == 6,
{
}

/// Which claims are sound: sixteen bytes with where the name is, the type and the number of
/// values, then where each value is.
pub proof fn law_sound_claims(s: &[u8], sound: bool)
    requires
        call_ensures(claim_valid, (s,), sound),
    ensures
        sound <==> {
            &&& s@.len() >= 16
            &&& claim_type_known(le16_at(s@, 4))
            &&& 16 + 4 * le32_at(s@, 12) <= s@.len()
            &&& utf16_ends(s@, le32_at(s@, 0) as int)
            &&& forall|i: int|
                0 <= i < le32_at(s@, 12) ==> claim_value_sound(s@, le16_at(s@, 4), #[trigger] le32_at(
                    s@,
                    16 + 4 * i,
                ) as int)
        },
{
}

/// Which values of claims are sound, by their type.
pub proof fn law_sound_values(s: Seq<u8>, slot: int, k: int)
    ensures
        claim_value_sound(s, 1, slot) <==> slot + 8 <= s.len(),
        claim_value_sound(s, 2, slot) <==> slot + 8 <= s.len(),
        claim_value_sound(s, 6, slot) <==> slot + 8 <= s.len(),
        claim_value_sound(s, 3, slot) <==> slot + 4 <= s.len() && utf16_ends(s, le32_at(s, slot) as int),
        claim_value_sound(s, 5, slot) <==> slot + 4 <= s.len() && sid_at(s, le32_at(s, slot) as int) is Some,
        claim_value_sound(s, 0x10, slot) <==> slot + 4 <= s.len() && le32_at(s, slot) + 4 <= s.len() && le32_at(s, slot)
            + 4 + le32_at(s, le32_at(s, slot) as int) <= s.len(),
        utf16_nul_at(s, slot, k) <==> s[slot + 2 * k] == 0 && s[slot + 2 * k + 1] == 0,
{
}

/// Which lists are sound: complete, of exactly their size, and with sound entries only.
pub proof fn law_sound_lists(s: &[u8], sound: bool)
    requires
        call_ensures(acl_valid, (s,), sound),
    ensures
        sound == acl_sound(s@),
        sound <==> {
            &&& s@.len() >= 8 && le16_at(s@, 2) == s@.len()
            &&& acl_aces(s@).len() == le16_at(s@, 4)
            &&& 8 + aces_bytes(acl_aces(s@)).len() == s@.len()
            &&& forall|i: int| 0 <= i < acl_aces(s@).len() ==> ace_sound(#[trigger] acl_aces(s@)[i])
        },
{
    crate::laws::layout::law_entries_of_a_list(s@);
}

/// Which descriptors are sound.
pub proof fn law_sound_descriptors(s: &[u8], r: Option<SecurityDescriptor>)
    requires
        call_ensures(sd_valid, (s,), r),
    ensures
        r is Some <==> sd_sound(s@),
        r is Some ==> {
            &&& s@.len() <= 65535
            &&& sd_fault(s@) is None
            &&& le16_at(s@, 2) & 0x8000 != 0
            &&& (le16_at(s@, 2) & 0x0010 != 0) == (le32_at(s@, 12) != 0)
            &&& (le16_at(s@, 2) & 0x0004 != 0) == (le32_at(s@, 16) != 0)
            &&& le32_at(s@, 12) != 0 ==> (sd_sacl(s@) matches Ok(Some(b)) && acl_sound(b))
            &&& le32_at(s@, 16) != 0 ==> (sd_dacl(s@) matches Ok(Some(b)) && acl_sound(b))
            &&& le32_at(s@, 4) == 0 || le32_at(s@, 4) >= 20
            &&& le32_at(s@, 8) == 0 || le32_at(s@, 8) >= 20
            &&& le32_at(s@, 12) == 0 || le32_at(s@, 12) >= 20
            &&& le32_at(s@, 16) == 0 || le32_at(s@, 16) >= 20
        },
        s@.len() == 20 && s@[0] == 1 && le16_at(s@, 2) & 0x8000 != 0 && le16_at(s@, 2) & 0x0010 == 0 && le16_at(s@, 2)
            & 0x0004 == 0 && le32_at(s@, 4) == 0 && le32_at(s@, 8) == 0 && le32_at(s@, 12) == 0 && le32_at(s@, 16) == 0
            ==> r is Some,
{
    if r is Some {
        if le32_at(s@, 12) != 0 {
            crate::laws::layout::law_parts_of_a_descriptor(s@, 0);
        }
    }
}

/// No two parts of a sound descriptor overlap.
pub proof fn law_parts_do_not_overlap(s: Seq<u8>)
    requires
        sd_sound(s),
        le32_at(s, 4) != 0,
        le32_at(s, 8) != 0,
        le32_at(s, 12) != 0,
        le32_at(s, 16) != 0,
    ensures
        ({
            let o = le32_at(s, 4) as int;
            let g = le32_at(s, 8) as int;
            let a = le32_at(s, 12) as int;
            let d = le32_at(s, 16) as int;
            let oe = sid_at(s, o)->Some_0.1;
            let ge = sid_at(s, g)->Some_0.1;
            let ae = a + le16_at(s, a + 2);
            let de = d + le16_at(s, d + 2);
            &&& oe <= g || ge <= o
            &&& oe <= a || ae <= o
            &&& oe <= d || de <= o
            &&& ge <= a || ae <= g
            &&& ge <= d || de <= g
            &&& ae <= d || de <= a
        }),
{
}

/// What the parts of an entry are when it is looked into.
pub proof fn law_looking_into_an_entry(
    e: peios_ace_view,
    t: u8,
    f: u8,
    mask: u32,
    sid: Option<&[u8]>,
    data: Option<&[u8]>,
)
    requires
        e.wf(),
        call_ensures(peios_ace_view_type, (&e,), t),
        call_ensures(peios_ace_view_flags, (&e,), f),
        call_ensures(peios_ace_view_mask, (&e,), mask),
        call_ensures(peios_ace_view_sid, (&e,), sid),
        call_ensures(peios_ace_view_app_data, (&e,), data),
    ensures
        t == e.ace.ace_type,
        f == e.ace.flags,
        t == 4 || t > 0x14 ==> mask == 0 && sid is None && data is None,
        t != 4 && t <= 0x14 ==> mask == le32_at(e.ace.body@, 0) && sid is Some,
        t <= 3 || t == 0x11 || t == 0x13 || t == 0x14 ==> sid->Some_0@ == e.ace.body@.subrange(
            4,
            e.ace.body@.len() as int,
        ) && data is None,
        5 <= t <= 8 ==> data is None,
        9 <= t <= 16 || t == 0x12 ==> data is Some,
        t == 9 || t == 10 || t == 13 || t == 14 || t == 0x12 ==> sid->Some_0@ + data->Some_0@ == e.ace.body@.subrange(
            4,
            e.ace.body@.len() as int,
        ) && sid->Some_0@ == e.ace.body@.subrange(4, sid_at(e.ace.body@, 4)->Some_0.1),
{
    if t == 9 || t == 10 || t == 13 || t == 14 || t == 0x12 {
        assert(sid->Some_0@ + data->Some_0@ =~= e.ace.body@.subrange(4, e.ace.body@.len() as int));
    }
}

/// The object types of an entry.
pub proof fn law_object_types_of_an_entry(e: peios_ace_view, ty: Option<&[u8]>, inh: Option<&[u8]>)
    requires
        e.wf(),
        call_ensures(peios_ace_view_object_type, (&e,), ty),
        call_ensures(peios_ace_view_inherited_object_type, (&e,), inh),
    ensures
        ({
            let t = e.ace.ace_type;
            let b = e.ace.body@;
            let object = 5 <= t <= 8 || t == 11 || t == 12 || t == 15 || t == 16;
            &&& !object ==> ty is None && inh is None
            &&& object && le32_at(b, 4) == 0 ==> ty is None && inh is None
            &&& object && le32_at(b, 4) == 1 ==> inh is None && ty is Some && ty->Some_0@ == b.subrange(8, 24)
            &&& object && le32_at(b, 4) == 2 ==> ty is None && inh is Some && inh->Some_0@ == b.subrange(8, 24)
            &&& object && le32_at(b, 4) == 3 ==> ty is Some && inh is Some && ty->Some_0@ == b.subrange(8, 24)
                && inh->Some_0@ == b.subrange(24, 40)
        }),
{
}

/// Generic rights: each of the four highest bits stands for its rights, and goes.
pub proof fn law_generic_rights(mask: u32, m: kacs_generic_mapping, mapped: u32, same: u32)
    requires
        call_ensures(peios_access_map_generic, (mask, Some(&m)), mapped),
        call_ensures(peios_access_map_generic, (mask, None::<&kacs_generic_mapping>), same),
    ensures
        same == mask,
        mapped == (mask & !0xf000_0000u32) | ((if mask & 0x8000_0000 != 0 {
            m.read
        } else {
            0
        }) | (if mask & 0x4000_0000 != 0 {
            m.write
        } else {
            0
        }) | (if mask & 0x2000_0000 != 0 {
            m.execute
        } else {
            0
        }) | (if mask & 0x1000_0000 != 0 {
            m.all
        } else {
            0
        })),
{
}

/// The rights of files and tokens that generic rights stand for.
pub proof fn law_rights_of_files_and_tokens(f: kacs_generic_mapping, t: kacs_generic_mapping)
    requires
        call_ensures(peios_file_generic_mapping, (), f),
        call_ensures(peios_token_generic_mapping, (), t),
    ensures
        f.read == 0x0012_0089 && f.write == 0x0012_0116 && f.execute == 0x0012_00a0 && f.all == 0x001f_01ff,
        t.read == 0x0002_0008 && t.write == 0x0004_00e0 && t.execute == 0x0000_0004 && t.all == 0x000f_01ff,
{
}

/// Reading an array of identifiers: how many there are, then of each its length, its bytes and
/// its attributes, and nothing behind them.
pub proof fn law_identifiers_in_an_array(s: Seq<u8>, p: int, count: nat)
    ensures
        s.len() < 4 ==> sid_array(s) is None,
        s.len() >= 4 ==> sid_array(s) == sid_entries(s, 4, le32_at(s, 0) as nat),
        sid_entries(s, p, 0) is Some <==> p == s.len(),
        count > 0 ==> (sid_entry_at(s, p) is None ==> sid_entries(s, p, count) is None),
        sid_entry_at(s, p) matches Some((e, q)) ==> {
            &&& e.0 == s.subrange(p + 4, p + 4 + le32_at(s, p))
            &&& e.1 == le32_at(s, p + 4 + le32_at(s, p))
            &&& q == p + 8 + le32_at(s, p) <= s.len()
            &&& crate::security::sid::sid_valid(e.0)
            &&& count > 0 ==> (sid_entries(s, q, (count - 1) as nat) matches Some(rest) ==> sid_entries(s, p, count)
                == Some(seq![e] + rest))
        },
        0 <= p && p + 8 + le32_at(s, p) <= s.len() && crate::security::sid::sid_valid(
            s.subrange(p + 4, p + 4 + le32_at(s, p)),
        ) ==> sid_entry_at(s, p) is Some,
{
}

/// How many identifiers an array names.
pub proof fn law_count_of_an_array(blob: &[u8], n: u32)
    requires
        call_ensures(sid_array_count_of, (blob,), n),
    ensures
        blob@.len() < 4 ==> n == 0,
        blob@.len() >= 4 ==> n == le32_at(blob@, 0),
{
}

} // verus!
