//! What a descriptor holds once its inherited entries were derived anew or taken out.

use vstd::prelude::*;
use crate::bytes::{le16_at, le32_at};
use crate::security::codec::{
    acl_aces, acl_at, acl_complete, is_acl, law_sd_round_trip, min_revision, opt_sid_bytes, sd_bytes, sd_control, sd_dacl, sd_fault, sd_group, sd_owner,
    sd_sacl, AceView, ParseError,
};
use crate::security::sddl::builders::{built_control, built_control_word, law_built_control};
use crate::security::sddl::inherit::{
    aces_of, explicit, inherited, rebuilt_bytes, rebuilt_dacl, reinherit, reinherited, resolved, strip_inherited_aces,
    stripped,
};
use crate::security::sddl::inherit_laws::{
    law_filtered_reads_back, law_reinherited_reads_back, lemma_component_wf, lemma_found_is_acl,
};
use crate::security::sddl::Error;

verus! {

/// The control word of what is built: self-relative, a bit for each list that is there, and of
/// the other bits those that were asked for.
pub proof fn law_control_of_what_is_built(extra: u16, sacl: bool, dacl: bool, control: u16)
    requires
        call_ensures(built_control_word, (extra, sacl, dacl), control),
    ensures
        control & 0x8000 != 0,
        (control & 0x0004 != 0) == dacl,
        (control & 0x0010 != 0) == sacl,
        control & 0x7feb == extra & 0x7feb,
{
    let d: u16 = if dacl { 0x0004 } else { 0 };
    let s: u16 = if sacl { 0x0010 } else { 0 };
    assert((0x8000u16 | d | s | (extra & 0x7feb)) & 0x7feb == extra & 0x7feb) by (bit_vector)
        requires
            d == 0 || d == 4,
            s == 0 || s == 0x10,
    ;
    law_built_control(extra, sacl, dacl);
}

proof fn lemma_second_byte(
    sbz1: u8,
    control: u16,
    owner: Option<Seq<u8>>,
    group: Option<Seq<u8>>,
    sacl: Option<Seq<u8>>,
    dacl: Option<Seq<u8>>,
)
    ensures
        sd_bytes(sbz1, control, owner, group, sacl, dacl)[0] == 1,
        sd_bytes(sbz1, control, owner, group, sacl, dacl)[1] == sbz1,
{
}

proof fn lemma_rebuilt_front(parent: Seq<u8>, child: Seq<u8>, child_is_container: bool)
    requires
        reinherited(parent, child, child_is_container) is Ok,
    ensures
        reinherited(parent, child, child_is_container)->Ok_0[0] == 1,
        reinherited(parent, child, child_is_container)->Ok_0[1] == 0,
{
    let new = inherited(aces_of(sd_dacl(parent)->Ok_0), child_is_container);
    let dacl = rebuilt_dacl(sd_dacl(child)->Ok_0, new);
    let sacl = sd_sacl(child)->Ok_0;
    lemma_second_byte(
        0,
        built_control(sd_control(child) & 0x3c00, sacl is Some, dacl is Some),
        opt_sid_bytes(sd_owner(child)->Ok_0),
        opt_sid_bytes(sd_group(child)->Ok_0),
        sacl,
        rebuilt_bytes(dacl),
    );
}

/// The entries of a list that may be absent.
pub open spec fn entries(acl: Result<Option<Seq<u8>>, ParseError>) -> Seq<AceView> {
    match acl {
        Ok(Some(b)) => acl_aces(b),
        _ => Seq::empty(),
    }
}

proof fn lemma_new_list(child: Option<Seq<u8>>, new: Seq<AceView>, out: Result<Option<Seq<u8>>, ParseError>)
    requires
        out == Ok::<Option<Seq<u8>>, ParseError>(rebuilt_bytes(rebuilt_dacl(child, new))),
        rebuilt_dacl(child, new) matches Some(aces) ==> acl_complete(rebuilt_bytes(Some(aces))->Some_0) && acl_aces(
            rebuilt_bytes(Some(aces))->Some_0,
        ) == aces,
    ensures
        out == Ok::<Option<Seq<u8>>, ParseError>(None) <==> child is None && new.len() == 0,
        out matches Ok(Some(b)) ==> acl_aces(b) == explicit(aces_of(child)) + new && acl_complete(b) && b[0]
            == min_revision(acl_aces(b)),
{
    if let Some(aces) = rebuilt_dacl(child, new) {
        let b = rebuilt_bytes(Some(aces))->Some_0;
        assert(b[0] == min_revision(aces));
    }
}

proof fn lemma_sources(parent: Seq<u8>, child: Seq<u8>, child_is_container: bool)
    requires
        reinherited(parent, child, child_is_container) is Ok,
    ensures
        entries(sd_dacl(parent)) == aces_of(sd_dacl(parent)->Ok_0),
        entries(sd_dacl(child)) == aces_of(sd_dacl(child)->Ok_0),
        sd_dacl(child) is Ok,
{
}

proof fn lemma_rebuilt(parent: Seq<u8>, child: Seq<u8>, child_is_container: bool)
    requires
        reinherited(parent, child, child_is_container) is Ok,
    ensures
        ({
            let out = reinherited(parent, child, child_is_container)->Ok_0;
            let down = inherited(entries(sd_dacl(parent)), child_is_container);
            let new = explicit(entries(sd_dacl(child))) + down;
            &&& sd_fault(out) is None
            &&& out[0] == 1 && out[1] == 0
            &&& le16_at(out, 2) & 0x8000 != 0
            &&& le16_at(out, 2) & 0x3c00 == le16_at(child, 2) & 0x3c00
            &&& sd_owner(out) == sd_owner(child)
            &&& sd_group(out) == sd_group(child)
            &&& sd_sacl(out) == sd_sacl(child)
            &&& sd_dacl(out) == Ok::<Option<Seq<u8>>, ParseError>(None) <==> sd_dacl(child) == Ok::<
                Option<Seq<u8>>,
                ParseError,
            >(None) && down.len() == 0
            &&& sd_dacl(out) matches Ok(Some(b)) ==> acl_aces(b) == new && acl_complete(b) && b[0] == min_revision(new)
            &&& sd_dacl(out) is Ok
        }),
{
    let out = reinherited(parent, child, child_is_container)->Ok_0;
    let new = inherited(aces_of(sd_dacl(parent)->Ok_0), child_is_container);
    law_reinherited_reads_back(parent, child, child_is_container);
    lemma_rebuilt_front(parent, child, child_is_container);
    lemma_sources(parent, child, child_is_container);
    lemma_new_list(sd_dacl(child)->Ok_0, new, sd_dacl(out));
}

/// Deriving inherited entries anew keeps the child's owner, group, audit list and the four
/// control bits on inheritance and protection. The access list becomes the child's own entries
/// and behind them what the parent hands down; it is absent only where the child had none and
/// nothing is handed down.
pub proof fn law_rebuilt_descriptors(parent: &[u8], child: &[u8], child_is_container: bool, r: Result<Vec<u8>, Error>)
    requires
        call_ensures(reinherit, (parent, child, child_is_container), r),
    ensures
        r matches Ok(out) ==> {
            let new = explicit(entries(sd_dacl(child@))) + inherited(entries(sd_dacl(parent@)), child_is_container);
            &&& sd_fault(out@) is None
            &&& out@[0] == 1 && out@[1] == 0
            &&& le16_at(out@, 2) & 0x8000 != 0
            &&& le16_at(out@, 2) & 0x3c00 == le16_at(child@, 2) & 0x3c00
            &&& sd_owner(out@) == sd_owner(child@)
            &&& sd_group(out@) == sd_group(child@)
            &&& sd_sacl(out@) == sd_sacl(child@)
            &&& sd_dacl(out@) == Ok::<Option<Seq<u8>>, ParseError>(None) <==> sd_dacl(child@) == Ok::<
                Option<Seq<u8>>,
                ParseError,
            >(None) && inherited(entries(sd_dacl(parent@)), child_is_container).len() == 0
            &&& sd_dacl(out@) matches Ok(Some(b)) ==> acl_aces(b) == new && acl_complete(b) && b[0] == min_revision(new)
            &&& sd_dacl(out@) is Ok
        },
{
    if let Ok(out) = r {
        lemma_rebuilt(parent@, child@, child_is_container);
    }
}

/// Why deriving anew fails: the parent is unsound, then the child, then either is not
/// self-relative, then a list is unsound.
pub proof fn law_descriptors_that_are_not_rebuilt(
    parent: &[u8],
    child: &[u8],
    child_is_container: bool,
    r: Result<Vec<u8>, Error>,
)
    requires
        call_ensures(reinherit, (parent, child, child_is_container), r),
    ensures
        sd_fault(parent@) matches Some(e) ==> r == Err::<Vec<u8>, Error>(Error::Parse(e)),
        sd_fault(parent@) is None ==> (sd_fault(child@) matches Some(e) ==> r == Err::<Vec<u8>, Error>(Error::Parse(e))),
        sd_fault(parent@) is None && sd_fault(child@) is None && (le16_at(parent@, 2) & 0x8000 == 0 || le16_at(child@, 2)
            & 0x8000 == 0) ==> r == Err::<Vec<u8>, Error>(Error::Parse(ParseError::SdNotSelfRelative)),
        r is Ok ==> sd_dacl(parent@) is Ok && sd_dacl(child@) is Ok && sd_sacl(child@) is Ok,
        r is Ok ==> (sd_dacl(child@) matches Ok(Some(b)) ==> acl_complete(b)),
        r is Ok ==> (sd_sacl(child@) matches Ok(Some(b)) ==> acl_complete(b)),
{
}

proof fn lemma_resolved(s: Seq<u8>, off: u32, acl: Result<Option<Seq<u8>>, ParseError>, strip: bool)
    requires
        acl matches Ok(Some(b)) ==> acl_at(s, off as int) == Ok::<Seq<u8>, ParseError>(b),
        resolved(acl, strip) is Ok,
    ensures
        resolved(acl, strip)->Ok_0 matches Some(n) ==> is_acl(n),
        !strip ==> resolved(acl, strip) == acl,
        resolved(acl, strip)->Ok_0 is None <==> acl == Ok::<Option<Seq<u8>>, ParseError>(None),
        strip ==> (acl matches Ok(Some(b)) ==> resolved(acl, strip) matches Ok(Some(n)) && acl_aces(n) == explicit(
            acl_aces(b),
        ) && n[0] == b[0] && n[1] == b[1]),
{
    if let Ok(Some(b)) = acl {
        lemma_found_is_acl(s, off as int);
        if strip {
            law_filtered_reads_back(b);
        }
    }
}

#[verifier::spinoff_prover]
#[verifier::rlimit(40)]
proof fn lemma_stripped(s: Seq<u8>, info: u32)
    requires
        stripped(s, info) is Ok,
    ensures
        ({
            let out = stripped(s, info)->Ok_0;
            &&& info & 0x4 == 0 && info & 0x8 == 0 ==> out == s
            &&& out[1] == s[1]
            &&& sd_control(out) == sd_control(s)
            &&& sd_owner(out) == sd_owner(s)
            &&& sd_group(out) == sd_group(s)
            &&& (info & 0x4 != 0 || info & 0x8 != 0) ==> sd_dacl(out) == resolved(sd_dacl(s), info & 0x4 != 0)
            &&& (info & 0x4 != 0 || info & 0x8 != 0) ==> sd_sacl(out) == resolved(sd_sacl(s), info & 0x8 != 0)
            &&& (info & 0x4 != 0 || info & 0x8 != 0) ==> resolved(sd_sacl(s), info & 0x8 != 0) is Ok
            &&& (info & 0x4 != 0 || info & 0x8 != 0) ==> resolved(sd_dacl(s), info & 0x4 != 0) is Ok
        }),
{
    if info & 0x4 != 0 || info & 0x8 != 0 {
        let sacl = resolved(sd_sacl(s), info & 0x8 != 0);
        let dacl = resolved(sd_dacl(s), info & 0x4 != 0);
        lemma_component_wf(s, le32_at(s, 4));
        lemma_component_wf(s, le32_at(s, 8));
        lemma_resolved(s, le32_at(s, 12), sd_sacl(s), info & 0x8 != 0);
        lemma_resolved(s, le32_at(s, 16), sd_dacl(s), info & 0x4 != 0);
        law_sd_round_trip(s[1], sd_control(s), sd_owner(s)->Ok_0, sd_group(s)->Ok_0, sacl->Ok_0, dacl->Ok_0);
    }
}

/// Taking inherited entries out: bit 2 of what is asked selects the access list, bit 3 the audit
/// list. A list that is selected keeps its own entries in their order; one that is not selected,
/// the owner, the group and the control word stay as they are.
pub proof fn law_stripped_descriptors(s: &[u8], info: u32, r: Result<Vec<u8>, Error>)
    requires
        call_ensures(strip_inherited_aces, (s, info), r),
    ensures
        r matches Ok(out) ==> {
            &&& info & 0x4 == 0 && info & 0x8 == 0 ==> out@ == s@
            &&& out@[1] == s@[1]
            &&& le16_at(out@, 2) == le16_at(s@, 2)
            &&& sd_owner(out@) == sd_owner(s@)
            &&& sd_group(out@) == sd_group(s@)
            &&& info & 0x4 == 0 ==> sd_dacl(out@) == sd_dacl(s@)
            &&& info & 0x8 == 0 ==> sd_sacl(out@) == sd_sacl(s@)
            &&& info & 0x4 != 0 ==> (sd_dacl(s@) matches Ok(Some(b)) ==> sd_dacl(out@) matches Ok(Some(n)) && acl_aces(n)
                == explicit(acl_aces(b)) && n[0] == b[0] && n[1] == b[1])
            &&& info & 0x8 != 0 ==> (sd_sacl(s@) matches Ok(Some(b)) ==> sd_sacl(out@) matches Ok(Some(n)) && acl_aces(n)
                == explicit(acl_aces(b)) && n[0] == b[0] && n[1] == b[1])
            &&& sd_dacl(s@) == Ok::<Option<Seq<u8>>, ParseError>(None) ==> sd_dacl(out@) == sd_dacl(s@)
            &&& sd_sacl(s@) == Ok::<Option<Seq<u8>>, ParseError>(None) ==> sd_sacl(out@) == sd_sacl(s@)
        },
        sd_fault(s@) matches Some(e) ==> r == Err::<Vec<u8>, Error>(Error::Parse(e)),
        sd_fault(s@) is None && le16_at(s@, 2) & 0x8000 == 0 ==> r == Err::<Vec<u8>, Error>(
            Error::Parse(ParseError::SdNotSelfRelative),
        ),
        r is Err ==> sd_fault(s@) is Some || le16_at(s@, 2) & 0x8000 == 0 || sd_dacl(s@) is Err || sd_sacl(s@) is Err || (
        sd_dacl(s@) matches Ok(Some(b)) && !acl_complete(b)) || (sd_sacl(s@) matches Ok(Some(b)) && !acl_complete(b)),
{
    if stripped(s@, info) is Ok {
        lemma_stripped(s@, info);
        if info & 0x4 != 0 || info & 0x8 != 0 {
            lemma_resolved(s@, le32_at(s@, 12), sd_sacl(s@), info & 0x8 != 0);
            lemma_resolved(s@, le32_at(s@, 16), sd_dacl(s@), info & 0x4 != 0);
        }
    }
}

} // verus!
