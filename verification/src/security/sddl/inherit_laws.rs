//! What holds of inheritance whatever the descriptors are.

use vstd::prelude::*;
use crate::bytes::le16_at;
use crate::security::codec::{
    acl_aces, acl_at, acl_complete, is_acl, law_acl_round_trip, law_sd_round_trip, sd_control, sd_dacl, sd_fault,
    sd_group, sd_owner, sd_sacl, sid_component, AceView, ParseError, ACE_FLAG_INHERITED, DACL_SECURITY_INFORMATION,
    SACL_SECURITY_INFORMATION, SE_SELF_RELATIVE,
};
use crate::security::sddl::builders::{built_control, law_built_acl_reads_back, law_built_control, lemma_aces_len};
use crate::security::sddl::inherit::{
    aces_of, explicit, filtered, inherited, inherited_flags, lemma_aces_at_fit, lemma_explicit, rebuilt_bytes,
    rebuilt_dacl, reinherited, resolved, stripped, KEPT_CONTROL,
};
use crate::security::sddl::Error;
use crate::security::sid::law_sid_canonical;

verus! {

/// An inherited entry is marked as such and keeps its other flags; on a file, and behind an
/// entry that must not propagate, it passes nothing on.
pub proof fn law_inherited_flags(f: u8, child_is_container: bool)
    ensures
        inherited_flags(f, child_is_container) matches Some(g) ==> {
            &&& g & ACE_FLAG_INHERITED != 0
            &&& g & 0xe0 == f & 0xe0
            &&& !child_is_container || f & 0x04 != 0 ==> g & 0x0f == 0
            &&& child_is_container && f & 0x04 == 0 && f & 0x02 != 0 ==> g & 0x0f == f & 0x03
            &&& child_is_container && f & 0x04 == 0 && f & 0x02 == 0 ==> g & 0x0f == 0x09
        },
        f & 0x03 == 0 ==> inherited_flags(f, child_is_container) is None,
{
    let a = (f & !0x0fu8) | 0x10u8;
    let b = (f & !0x0cu8) | 0x10u8;
    let c = (f & !0x04u8) | 0x08u8 | 0x10u8;
    assert(a & 0x10 != 0 && a & 0xe0 == f & 0xe0 && a & 0x0f == 0) by (bit_vector)
        requires
            a == (f & !0x0fu8) | 0x10u8,
    ;
    assert(b & 0x10 != 0 && b & 0xe0 == f & 0xe0 && (f & 0x04 == 0 ==> b & 0x0f == f & 0x03)) by (bit_vector)
        requires
            b == (f & !0x0cu8) | 0x10u8,
    ;
    assert(c & 0x10 != 0 && c & 0xe0 == f & 0xe0 && (f & 0x04 == 0 && f & 0x02 == 0 && f & 0x01 != 0 ==> c & 0x0f
        == 0x09)) by (bit_vector)
        requires
            c == (f & !0x04u8) | 0x08u8 | 0x10u8,
    ;
    assert(f & 0x03 == 0 ==> f & 0x01 == 0 && f & 0x02 == 0) by (bit_vector);
}

/// What a container inherits without a propagation limit, it hands on unchanged to a
/// container below it.
pub proof fn law_inheritance_settles(f: u8)
    requires
        f & 0x04 == 0,
    ensures
        inherited_flags(f, true) matches Some(g) ==> inherited_flags(g, true) == Some(g),
{
    let b = (f & !0x0cu8) | 0x10u8;
    let c = (f & !0x04u8) | 0x08u8 | 0x10u8;
    assert(b & 0x04 == 0 && b & 0x02 == f & 0x02 && b & 0x01 == f & 0x01 && (b & !0x0cu8) | 0x10u8 == b)
        by (bit_vector)
        requires
            b == (f & !0x0cu8) | 0x10u8,
            f & 0x04 == 0,
    ;
    assert(c & 0x04 == 0 && c & 0x02 == f & 0x02 && c & 0x01 == f & 0x01 && (c & !0x04u8) | 0x08u8 | 0x10u8 == c)
        by (bit_vector)
        requires
            c == (f & !0x04u8) | 0x08u8 | 0x10u8,
            f & 0x04 == 0,
    ;
}

/// Entries that are not inheritable give a child nothing.
proof fn lemma_nothing_to_inherit(aces: Seq<AceView>, child_is_container: bool)
    requires
        forall|i: int| 0 <= i < aces.len() ==> (#[trigger] aces[i]).flags & 0x0f == 0,
    ensures
        inherited(aces, child_is_container) == Seq::<AceView>::empty(),
    decreases aces.len(),
{
    if aces.len() > 0 {
        let f = aces[aces.len() - 1].flags;
        assert(f & 0x0f == 0 ==> f & 0x03 == 0) by (bit_vector);
        law_inherited_flags(f, child_is_container);
        lemma_nothing_to_inherit(aces.drop_last(), child_is_container);
    }
}

/// The entries that a file inherits carry none of the inheritance flags.
proof fn lemma_file_entries(aces: Seq<AceView>)
    ensures
        forall|i: int| 0 <= i < inherited(aces, false).len() ==> (#[trigger] inherited(aces, false)[i]).flags & 0x0f == 0,
    decreases aces.len(),
{
    if aces.len() > 0 {
        let before = inherited(aces.drop_last(), false);
        let all = inherited(aces, false);
        lemma_file_entries(aces.drop_last());
        law_inherited_flags(aces.last().flags, false);
        assert forall|i: int| 0 <= i < all.len() implies (#[trigger] all[i]).flags & 0x0f == 0 by {
            if i < before.len() {
                assert(all[i] == before[i]);
            }
        }
    }
}

/// What a file inherits goes no further: nothing below it would inherit any of it.
pub proof fn law_files_pass_nothing_on(aces: Seq<AceView>, below_is_container: bool)
    ensures
        inherited(inherited(aces, false), below_is_container) == Seq::<AceView>::empty(),
{
    lemma_file_entries(aces);
    lemma_nothing_to_inherit(inherited(aces, false), below_is_container);
}

/// Down a chain of containers the inherited entries stay the same from the first one on, as
/// long as no entry limits its propagation.
pub proof fn law_inherited_lists_settle(aces: Seq<AceView>)
    requires
        forall|i: int| 0 <= i < aces.len() ==> (#[trigger] aces[i]).flags & 0x04 == 0,
    ensures
        inherited(inherited(aces, true), true) == inherited(aces, true),
    decreases aces.len(),
{
    if aces.len() > 0 {
        let less = aces.drop_last();
        let f = aces[aces.len() - 1].flags;
        law_inherited_lists_settle(less);
        law_inheritance_settles(f);
        if inherited_flags(f, true) is Some {
            let all = inherited(aces, true);
            assert(all.drop_last() =~= inherited(less, true));
            assert(inherited(all, true) =~= all);
        }
    } else {
        assert(inherited(aces, true) =~= Seq::<AceView>::empty());
    }
}

/// Every inherited entry is marked as such.
pub proof fn law_inherited_are_marked(aces: Seq<AceView>, child_is_container: bool)
    ensures
        forall|i: int|
            0 <= i < inherited(aces, child_is_container).len() ==> (#[trigger] inherited(
                aces,
                child_is_container,
            )[i]).flags & ACE_FLAG_INHERITED != 0,
        inherited(aces, child_is_container).len() <= aces.len(),
    decreases aces.len(),
{
    if aces.len() > 0 {
        law_inherited_are_marked(aces.drop_last(), child_is_container);
        law_inherited_flags(aces.last().flags, child_is_container);
    }
}

/// Among entries that are all marked as inherited there is no explicit one.
proof fn lemma_explicit_of_marked(aces: Seq<AceView>)
    requires
        forall|i: int| 0 <= i < aces.len() ==> (#[trigger] aces[i]).flags & ACE_FLAG_INHERITED != 0,
    ensures
        explicit(aces) == Seq::<AceView>::empty(),
    decreases aces.len(),
{
    if aces.len() > 0 {
        assert(aces[aces.len() - 1].flags & ACE_FLAG_INHERITED != 0);
        lemma_explicit_of_marked(aces.drop_last());
    }
}

/// Explicit entries stay when they are looked for again.
proof fn lemma_explicit_of_explicit(aces: Seq<AceView>)
    requires
        forall|i: int| 0 <= i < aces.len() ==> (#[trigger] aces[i]).flags & ACE_FLAG_INHERITED == 0,
    ensures
        explicit(aces) == aces,
    decreases aces.len(),
{
    if aces.len() > 0 {
        assert(aces[aces.len() - 1].flags & ACE_FLAG_INHERITED == 0);
        lemma_explicit_of_explicit(aces.drop_last());
        assert(aces.drop_last().push(aces.last()) =~= aces);
    } else {
        assert(explicit(aces) =~= aces);
    }
}

/// The explicit entries of two lists in a row.
proof fn lemma_explicit_append(a: Seq<AceView>, b: Seq<AceView>)
    ensures
        explicit(a + b) == explicit(a) + explicit(b),
    decreases b.len(),
{
    if b.len() == 0 {
        assert(a + b =~= a);
        assert(explicit(a) + explicit(b) =~= explicit(a));
    } else {
        lemma_explicit_append(a, b.drop_last());
        assert((a + b).drop_last() =~= a + b.drop_last());
        assert((a + b).last() == b.last());
        assert(explicit(a + b) =~= explicit(a) + explicit(b));
    }
}

/// Of a child's explicit entries and the entries that it inherits, the explicit ones are
/// found again.
pub proof fn law_explicit_of_rebuilt(child: Seq<AceView>, parent: Seq<AceView>, child_is_container: bool)
    ensures
        explicit(explicit(child) + inherited(parent, child_is_container)) == explicit(child),
{
    let new = inherited(parent, child_is_container);
    law_inherited_are_marked(parent, child_is_container);
    lemma_explicit_of_marked(new);
    lemma_explicit(child);
    lemma_explicit_of_explicit(explicit(child));
    lemma_explicit_append(explicit(child), new);
    assert(explicit(child) + Seq::<AceView>::empty() =~= explicit(child));
}

/// A list that is found somewhere is a list by itself.
pub proof fn lemma_found_is_acl(s: Seq<u8>, p: int)
    requires
        acl_at(s, p) is Ok,
    ensures
        is_acl(acl_at(s, p)->Ok_0),
{
    let b = acl_at(s, p)->Ok_0;
    assert(b[2] == s[p + 2] && b[3] == s[p + 3]);
    assert(b.subrange(0, b.len() as int) =~= b);
}

/// The SID of a component is well-formed.
pub proof fn lemma_component_wf(s: Seq<u8>, off: u32)
    ensures
        sid_component(s, off) matches Ok(Some(v)) ==> v.wf(),
{
    if off != 0 && off <= s.len() && crate::security::sid::sid_at(s, off as int) is Some {
        law_sid_canonical(s, off as int);
    }
}

/// The control bits that a child keeps survive a rebuild.
proof fn lemma_kept_control(control: u16, sacl: bool, dacl: bool)
    ensures
        built_control(control & KEPT_CONTROL, sacl, dacl) & KEPT_CONTROL == control & KEPT_CONTROL,
{
    let d: u16 = if dacl { 4 } else { 0 };
    let s: u16 = if sacl { 0x10 } else { 0 };
    assert((0x8000u16 | d | s | ((control & 0x3c00) & 0x7feb)) & 0x3c00 == control & 0x3c00) by (bit_vector)
        requires
            d == 0 || d == 4,
            s == 0 || s == 0x10,
    ;
}

/// What a re-inherited descriptor holds: the child's owner, group and system list, and its
/// explicit entries followed by those that it inherits.
pub proof fn law_reinherited_reads_back(parent: Seq<u8>, child: Seq<u8>, child_is_container: bool)
    requires
        reinherited(parent, child, child_is_container) is Ok,
    ensures
        ({
            let out = reinherited(parent, child, child_is_container)->Ok_0;
            let new = inherited(aces_of(sd_dacl(parent)->Ok_0), child_is_container);
            let dacl = rebuilt_dacl(sd_dacl(child)->Ok_0, new);
            &&& sd_fault(out) is None
            &&& sd_control(out) & SE_SELF_RELATIVE != 0
            &&& sd_control(out) & KEPT_CONTROL == sd_control(child) & KEPT_CONTROL
            &&& sd_owner(out) == sd_owner(child)
            &&& sd_group(out) == sd_group(child)
            &&& sd_sacl(out) == sd_sacl(child)
            &&& sd_dacl(out) == Ok::<Option<Seq<u8>>, ParseError>(rebuilt_bytes(dacl))
            &&& dacl matches Some(aces) ==> acl_complete(rebuilt_bytes(dacl)->Some_0) && acl_aces(
                rebuilt_bytes(dacl)->Some_0,
            ) == aces
        }),
{
    let out = reinherited(parent, child, child_is_container)->Ok_0;
    let new = inherited(aces_of(sd_dacl(parent)->Ok_0), child_is_container);
    let dacl = rebuilt_dacl(sd_dacl(child)->Ok_0, new);
    let sacl = sd_sacl(child)->Ok_0;
    let owner = sd_owner(child)->Ok_0;
    let group = sd_group(child)->Ok_0;
    let control = built_control(sd_control(child) & KEPT_CONTROL, sacl is Some, dacl is Some);
    law_built_control(sd_control(child) & KEPT_CONTROL, sacl is Some, dacl is Some);
    lemma_kept_control(sd_control(child), sacl is Some, dacl is Some);
    lemma_component_wf(child, crate::bytes::le32_at(child, 4));
    lemma_component_wf(child, crate::bytes::le32_at(child, 8));
    if sacl is Some {
        lemma_found_is_acl(child, crate::bytes::le32_at(child, 12) as int);
    }
    if let Some(aces) = dacl {
        law_built_acl_reads_back(aces);
    }
    law_sd_round_trip(0, control, owner, group, sacl, rebuilt_bytes(dacl));
}

/// Re-inheriting from the same parent a second time changes nothing.
#[verifier::rlimit(60)]
pub proof fn law_reinherit_is_idempotent(parent: Seq<u8>, child: Seq<u8>, child_is_container: bool)
    requires
        reinherited(parent, child, child_is_container) is Ok,
    ensures
        reinherited(parent, reinherited(parent, child, child_is_container)->Ok_0, child_is_container)
            == reinherited(parent, child, child_is_container),
{
    let out = reinherited(parent, child, child_is_container)->Ok_0;
    let new = inherited(aces_of(sd_dacl(parent)->Ok_0), child_is_container);
    let dacl = rebuilt_dacl(sd_dacl(child)->Ok_0, new);
    law_reinherited_reads_back(parent, child, child_is_container);
    law_explicit_of_rebuilt(aces_of(sd_dacl(child)->Ok_0), aces_of(sd_dacl(parent)->Ok_0), child_is_container);
    let again = rebuilt_dacl(sd_dacl(out)->Ok_0, new);
    if dacl is None {
        assert(again is None);
    } else {
        assert(again == dacl);
    }
}

/// Taking the inherited entries out of a re-inherited descriptor leaves exactly the child's
/// explicit entries.
#[verifier::rlimit(60)]
pub proof fn law_strip_undoes_reinherit(parent: Seq<u8>, child: Seq<u8>, child_is_container: bool)
    requires
        reinherited(parent, child, child_is_container) is Ok,
        sd_dacl(child)->Ok_0 is Some,
    ensures
        ({
            let out = reinherited(parent, child, child_is_container)->Ok_0;
            resolved(sd_dacl(out), true) matches Ok(Some(acl)) && acl_aces(acl) == explicit(
                acl_aces(sd_dacl(child)->Ok_0->Some_0),
            )
        }),
        stripped(reinherited(parent, child, child_is_container)->Ok_0, DACL_SECURITY_INFORMATION) is Ok,
{
    let out = reinherited(parent, child, child_is_container)->Ok_0;
    law_reinherited_reads_back(parent, child, child_is_container);
    law_explicit_of_rebuilt(aces_of(sd_dacl(child)->Ok_0), aces_of(sd_dacl(parent)->Ok_0), child_is_container);
    let acl = sd_dacl(out)->Ok_0->Some_0;
    lemma_found_is_acl(out, crate::bytes::le32_at(out, 16) as int);
    law_filtered_reads_back(acl);
    assert(4u32 & 4u32 != 0 && 4u32 & 8u32 == 0) by (bit_vector);
}

/// A list without its inherited entries is a list with exactly its explicit entries, and
/// filtering it again changes nothing.
pub proof fn law_filtered_reads_back(acl: Seq<u8>)
    requires
        is_acl(acl),
        acl_complete(acl),
    ensures
        is_acl(filtered(acl)),
        acl_complete(filtered(acl)),
        acl_aces(filtered(acl)) == explicit(acl_aces(acl)),
        filtered(filtered(acl)) == filtered(acl),
{
    let all = acl_aces(acl);
    let kept = explicit(all);
    let own = acl.subrange(0, 0 + le16_at(acl, 2));
    assert(own.len() == acl.len());
    lemma_aces_at_fit(acl, 8, le16_at(acl, 4) as nat);
    lemma_explicit(all);
    lemma_aces_len(kept);
    assert forall|i: int| 0 <= i < kept.len() implies (#[trigger] kept[i]).wf() by {
        assert(all.contains(kept[i]));
        let j = choose|j: int| 0 <= j < all.len() && all[j] == kept[i];
        assert(all[j].wf());
    }
    law_acl_round_trip(acl[0], acl[1], kept);
    lemma_explicit_of_explicit(kept);
}

/// Taking the inherited entries out a second time changes nothing.
#[verifier::rlimit(100)]
#[verifier::spinoff_prover]
pub proof fn law_strip_is_idempotent(s: Seq<u8>, info: u32)
    requires
        stripped(s, info) is Ok,
    ensures
        stripped(stripped(s, info)->Ok_0, info) == stripped(s, info),
{
    let strip_dacl = info & DACL_SECURITY_INFORMATION != 0;
    let strip_sacl = info & SACL_SECURITY_INFORMATION != 0;
    if strip_dacl || strip_sacl {
        let out = stripped(s, info)->Ok_0;
        let sacl = resolved(sd_sacl(s), strip_sacl)->Ok_0;
        let dacl = resolved(sd_dacl(s), strip_dacl)->Ok_0;
        lemma_component_wf(s, crate::bytes::le32_at(s, 4));
        lemma_component_wf(s, crate::bytes::le32_at(s, 8));
        if sd_sacl(s)->Ok_0 is Some {
            lemma_found_is_acl(s, crate::bytes::le32_at(s, 12) as int);
            if strip_sacl {
                law_filtered_reads_back(sd_sacl(s)->Ok_0->Some_0);
            }
        }
        if sd_dacl(s)->Ok_0 is Some {
            lemma_found_is_acl(s, crate::bytes::le32_at(s, 16) as int);
            if strip_dacl {
                law_filtered_reads_back(sd_dacl(s)->Ok_0->Some_0);
            }
        }
        law_sd_round_trip(s[1], sd_control(s), sd_owner(s)->Ok_0, sd_group(s)->Ok_0, sacl, dacl);
    }
}

/// A list that was emitted once and is emitted again.
proof fn lemma_resolved_twice(acl: Seq<u8>, first: bool, second: bool)
    requires
        is_acl(acl),
        first ==> acl_complete(acl),
    ensures
        resolved(resolved(Ok(Some(acl)), first), second) == resolved(Ok(Some(acl)), first || second),
{
    if first {
        law_filtered_reads_back(acl);
    }
}

/// Lists may be stripped one after the other: the lists that `first` selects and then those
/// that `second` selects is the same as all of them at once.
#[verifier::rlimit(100)]
#[verifier::spinoff_prover]
pub proof fn law_strips_combine(s: Seq<u8>, first: u32, second: u32)
    requires
        stripped(s, first) is Ok,
    ensures
        stripped(stripped(s, first)->Ok_0, second) == stripped(s, first | second),
{
    assert((first | second) & 4u32 != 0 <==> first & 4u32 != 0 || second & 4u32 != 0) by (bit_vector);
    assert((first | second) & 8u32 != 0 <==> first & 8u32 != 0 || second & 8u32 != 0) by (bit_vector);
    let first_dacl = first & DACL_SECURITY_INFORMATION != 0;
    let first_sacl = first & SACL_SECURITY_INFORMATION != 0;
    if first_dacl || first_sacl {
        let sacl = resolved(sd_sacl(s), first_sacl)->Ok_0;
        let dacl = resolved(sd_dacl(s), first_dacl)->Ok_0;
        lemma_component_wf(s, crate::bytes::le32_at(s, 4));
        lemma_component_wf(s, crate::bytes::le32_at(s, 8));
        if let Some(b) = sd_sacl(s)->Ok_0 {
            lemma_found_is_acl(s, crate::bytes::le32_at(s, 12) as int);
            if first_sacl {
                law_filtered_reads_back(b);
            }
            lemma_resolved_twice(b, first_sacl, second & SACL_SECURITY_INFORMATION != 0);
        }
        if let Some(b) = sd_dacl(s)->Ok_0 {
            lemma_found_is_acl(s, crate::bytes::le32_at(s, 16) as int);
            if first_dacl {
                law_filtered_reads_back(b);
            }
            lemma_resolved_twice(b, first_dacl, second & DACL_SECURITY_INFORMATION != 0);
        }
        law_sd_round_trip(s[1], sd_control(s), sd_owner(s)->Ok_0, sd_group(s)->Ok_0, sacl, dacl);
    }
}

/// With no list selected the descriptor stays as it is.
pub proof fn law_strip_nothing(s: Seq<u8>, info: u32)
    requires
        sd_fault(s) is None,
        sd_control(s) & SE_SELF_RELATIVE != 0,
        info & DACL_SECURITY_INFORMATION == 0,
        info & SACL_SECURITY_INFORMATION == 0,
    ensures
        stripped(s, info) == Ok::<Seq<u8>, Error>(s),
{
}

} // verus!
