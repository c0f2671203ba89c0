//! Which entries are inherited, which are explicit, and what a re-inherited or stripped
//! descriptor holds.

use vstd::prelude::*;
use crate::security::codec::{AceView, Acl, acl_aces};
use crate::security::sddl::builders::{builder_views, AceBuilder};
use crate::security::sddl::inherit::{compute_inherited_aces, explicit, inherited, inherited_flags};

verus! {

/// Who inherits: a file inherits an entry if and only if it is object-inheritable, whatever
/// else its flags say; a container if and only if it is container-inheritable, or
/// object-inheritable and not held back.
pub proof fn law_who_inherits(f: u8)
    ensures
        inherited_flags(f, false) is Some <==> f & 0x01 != 0,
        inherited_flags(f, true) is Some <==> f & 0x02 != 0 || (f & 0x01 != 0 && f & 0x04 == 0),
{
}

/// The flags of what is inherited, bit by bit: the mark of inheritance is set, the auditing bits
/// stay, and the four inheritance bits depend on the child.
pub proof fn law_flags_that_are_inherited(f: u8, child_is_container: bool)
    ensures
        inherited_flags(f, child_is_container) matches Some(g) ==> {
            &&& g & 0x10 == 0x10
            &&& g & 0xe0 == f & 0xe0
            &&& !child_is_container ==> g & 0x0f == 0
            &&& child_is_container && f & 0x02 != 0 && f & 0x04 != 0 ==> g & 0x0f == 0
            &&& child_is_container && f & 0x02 != 0 && f & 0x04 == 0 ==> g & 0x0f == f & 0x03
            &&& child_is_container && f & 0x02 == 0 ==> g & 0x0f == 0x09
        },
{
    let a = (f & !0x0fu8) | 0x10u8;
    let b = (f & !0x0cu8) | 0x10u8;
    let c = (f & !0x04u8) | 0x08u8 | 0x10u8;
    assert(a & 0x10 == 0x10 && a & 0xe0 == f & 0xe0 && a & 0x0f == 0 && b & 0x10 == 0x10 && b & 0xe0 == f & 0xe0 && (f
        & 0x04 == 0 ==> b & 0x0f == f & 0x03) && c & 0x10 == 0x10 && c & 0xe0 == f & 0xe0 && (f & 0x02 == 0 && f & 0x01
        != 0 ==> c & 0x0f == 0x09)) by (bit_vector)
        requires
            a == (f & !0x0fu8) | 0x10u8,
            b == (f & !0x0cu8) | 0x10u8,
            c == (f & !0x04u8) | 0x08u8 | 0x10u8,
    ;
}

/// Each entry is inherited by itself, and the order stays: what two lists in a row hand down is
/// what each hands down, in a row.
pub proof fn law_inheritance_goes_entry_by_entry(a: Seq<AceView>, b: Seq<AceView>, child_is_container: bool)
    ensures
        inherited(Seq::empty(), child_is_container) == Seq::<AceView>::empty(),
        inherited(a + b, child_is_container) == inherited(a, child_is_container) + inherited(b, child_is_container),
    decreases b.len(),
{
    assert(inherited(Seq::empty(), child_is_container) =~= Seq::<AceView>::empty());
    if b.len() == 0 {
        assert(a + b =~= a);
        assert(inherited(a, child_is_container) + inherited(b, child_is_container) =~= inherited(a, child_is_container));
    } else {
        law_inheritance_goes_entry_by_entry(a, b.drop_last(), child_is_container);
        assert((a + b).drop_last() =~= a + b.drop_last());
        assert((a + b).last() == b.last());
        assert(inherited(a + b, child_is_container) =~= inherited(a, child_is_container) + inherited(
            b,
            child_is_container,
        ));
    }
}

/// One entry: a child gets it with the same type and body and other flags, or does not get it.
pub proof fn law_one_entry_is_inherited(a: AceView, child_is_container: bool)
    ensures
        ({
            let out = inherited(seq![a], child_is_container);
            let gets = if child_is_container {
                a.flags & 0x02 != 0 || (a.flags & 0x01 != 0 && a.flags & 0x04 == 0)
            } else {
                a.flags & 0x01 != 0
            };
            &&& gets ==> out.len() == 1 && out[0].ace_type == a.ace_type && out[0].body == a.body && inherited_flags(
                a.flags,
                child_is_container,
            ) == Some(out[0].flags)
            &&& !gets ==> out.len() == 0
        }),
{
    law_who_inherits(a.flags);
    assert(seq![a].drop_last() =~= Seq::<AceView>::empty());
    assert(inherited(Seq::empty(), child_is_container) =~= Seq::<AceView>::empty());
}

/// The entries that the call gives are the inherited entries of the list, all that its bytes
/// hold up to the first malformed one.
pub proof fn law_computed_entries(dacl: Acl, child_is_container: bool, out: Vec<AceBuilder>)
    requires
        dacl.wf(),
        call_ensures(compute_inherited_aces, (&dacl, child_is_container), out),
    ensures
        out@.len() == inherited(acl_aces(dacl.bytes@), child_is_container).len(),
        forall|i: int|
            0 <= i < out@.len() ==> {
                let a = inherited(acl_aces(dacl.bytes@), child_is_container)[i];
                &&& (#[trigger] out@[i]).ace_type == a.ace_type
                &&& out@[i].flags == a.flags
                &&& out@[i].body@ == a.body
            },
{
    let views = builder_views(out@);
    assert forall|i: int| 0 <= i < out@.len() implies {
        let a = inherited(acl_aces(dacl.bytes@), child_is_container)[i];
        &&& (#[trigger] out@[i]).ace_type == a.ace_type
        &&& out@[i].flags == a.flags
        &&& out@[i].body@ == a.body
    } by {
        assert(views[i] == out@[i]@);
    }
}

/// An entry is explicit if and only if it is not marked as inherited, and the order stays.
pub proof fn law_explicit_entry_by_entry(a: Seq<AceView>, b: Seq<AceView>, one: AceView)
    ensures
        explicit(Seq::empty()) == Seq::<AceView>::empty(),
        explicit(a + b) == explicit(a) + explicit(b),
        one.flags & 0x10 == 0 ==> explicit(seq![one]) == seq![one],
        one.flags & 0x10 != 0 ==> explicit(seq![one]) == Seq::<AceView>::empty(),
    decreases b.len(),
{
    assert(explicit(Seq::empty()) =~= Seq::<AceView>::empty());
    assert(seq![one].drop_last() =~= Seq::<AceView>::empty());
    assert(explicit(seq![one]) =~= if one.flags & 0x10 == 0 {
        seq![one]
    } else {
        Seq::<AceView>::empty()
    });
    if b.len() == 0 {
        assert(a + b =~= a);
        assert(explicit(a) + explicit(b) =~= explicit(a));
    } else {
        law_explicit_entry_by_entry(a, b.drop_last(), one);
        assert((a + b).drop_last() =~= a + b.drop_last());
        assert((a + b).last() == b.last());
        assert(explicit(a + b) =~= explicit(a) + explicit(b));
    }
}

} // verus!
