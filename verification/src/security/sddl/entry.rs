//! Entries: what their bodies say, and their text.
//!
//! The text is six fields with semicolons between them: type, flags, rights, two GUIDs and the
//! SID. Entries with a condition or an attribute have it in a seventh field in parentheses.

use vstd::prelude::*;
use vstd::slice::{slice_subrange, slice_to_vec};
use crate::bytes::{law_le32_reads_back, le32, le32_at, put_le32, put_slice, rd_u32};
use crate::security::codec::{AceRef, AceView, ACE_TYPE_SYSTEM_MANDATORY_LABEL};
use crate::security::rules::{ace_family, family, AceFamily};
use crate::security::sddl::builders::AceBuilder;
use crate::security::sddl::claims::{claim_tail, claim_tail_text, format_claim_tail, parse_claim_tail};
use crate::security::sddl::cond::{
    artx_of_text, format_condition_from_artx, parse_condition_to_artx, text_of_artx,
};
use crate::security::sddl::fields::{
    flags_from, flags_known, flags_text, label_text, put_flags, put_label, put_rights, read_flags, read_rights,
    rights_from, rights_text,
};
use crate::security::sddl::names::{
    guid_from_text, guid_text, parse_sid, put_guid, put_sid, read_guid, sid_field, sid_from_field,
};
use crate::security::sddl::scan::{join, split_outside, split_top};
use crate::security::sddl::vocab::{ace_code_from_type, ace_type_from_code, code_of_type, type_of_code};
use crate::security::sddl::{SddlError, SddlErrorView};
use crate::security::text::{hex_padded, put_hex_padded};
use crate::security::sid::{law_sid_round_trip, sid_at, sid_bytes, Sid, SidView};

verus! {

/// What an entry says.
#[verifier::ext_equal]
pub struct EntryView {
    pub ace_type: u8,
    pub flags: u8,
    pub mask: u32,
    pub object: Option<Seq<u8>>,
    pub inherited: Option<Seq<u8>>,
    pub sid: SidView,
    pub tail: Seq<u8>,
}

/// An entry, taken apart.
pub struct Entry {
    pub ace_type: u8,
    pub flags: u8,
    pub mask: u32,
    pub object: Option<Vec<u8>>,
    pub inherited: Option<Vec<u8>>,
    pub sid: Sid,
    pub tail: Vec<u8>,
}

pub open spec fn opt_bytes(g: Option<Vec<u8>>) -> Option<Seq<u8>> {
    match g {
        Some(v) => Some(v@),
        None => None,
    }
}

impl View for Entry {
    type V = EntryView;

    open spec fn view(&self) -> EntryView {
        EntryView {
            ace_type: self.ace_type,
            flags: self.flags,
            mask: self.mask,
            object: opt_bytes(self.object),
            inherited: opt_bytes(self.inherited),
            sid: self.sid@,
            tail: self.tail@,
        }
    }
}

/// Entries of the type have room for GUIDs.
pub open spec fn has_guids(t: u8) -> bool {
    family(t) == AceFamily::Object || family(t) == AceFamily::CallbackObject
}

/// Entries of the type have a condition behind the SID, or nothing.
pub open spec fn has_condition(t: u8) -> bool {
    family(t) == AceFamily::Callback || family(t) == AceFamily::CallbackObject
}

/// Entries of the type have an attribute behind the SID.
pub open spec fn has_claim(t: u8) -> bool {
    family(t) == AceFamily::ResourceAttribute
}

fn takes_guids(t: u8) -> (r: bool)
    ensures
        r == has_guids(t),
{
    matches!(ace_family(t), AceFamily::Object | AceFamily::CallbackObject)
}

fn takes_condition(t: u8) -> (r: bool)
    ensures
        r == has_condition(t),
{
    matches!(ace_family(t), AceFamily::Callback | AceFamily::CallbackObject)
}

fn takes_claim(t: u8) -> (r: bool)
    ensures
        r == has_claim(t),
{
    matches!(ace_family(t), AceFamily::ResourceAttribute)
}

impl EntryView {
    /// The parts are such as entries of the type have.
    pub open spec fn wf(self) -> bool {
        &&& self.object matches Some(g) ==> g.len() == 16 && has_guids(self.ace_type)
        &&& self.inherited matches Some(g) ==> g.len() == 16 && has_guids(self.ace_type)
        &&& self.sid.wf()
        &&& self.tail.len() > 0 ==> has_condition(self.ace_type) || has_claim(self.ace_type)
    }
}

/// An optional GUID's bytes.
pub open spec fn guid_bytes(g: Option<Seq<u8>>) -> Seq<u8> {
    match g {
        Some(b) => b,
        None => Seq::empty(),
    }
}

/// Which GUIDs are there.
pub open spec fn guid_flags(e: EntryView) -> u32 {
    ((if e.object is Some {
        1int
    } else {
        0
    }) + (if e.inherited is Some {
        2int
    } else {
        0
    })) as u32
}

/// What stands between the mask and the SID.
pub open spec fn guid_part(e: EntryView) -> Seq<u8> {
    if has_guids(e.ace_type) {
        le32(guid_flags(e)) + guid_bytes(e.object) + guid_bytes(e.inherited)
    } else {
        Seq::empty()
    }
}

/// The body of an entry.
pub open spec fn entry_body(e: EntryView) -> Seq<u8> {
    le32(e.mask) + guid_part(e) + sid_bytes(e.sid) + e.tail
}

/// The entry in its binary form.
pub open spec fn entry_ace(e: EntryView) -> AceView {
    AceView { ace_type: e.ace_type, flags: e.flags, body: entry_body(e) }
}

/// What the body of an entry says; nothing if it is malformed.
pub open spec fn entry_of(a: AceView) -> Option<EntryView> {
    let b = a.body;
    let guids = has_guids(a.ace_type);
    let given: u32 = if guids {
        le32_at(b, 4)
    } else {
        0
    };
    let fixed: int = if guids {
        8
    } else {
        4
    };
    let second = fixed + if given % 2 == 1 {
        16int
    } else {
        0
    };
    let start = second + if given / 2 % 2 == 1 {
        16int
    } else {
        0
    };
    if b.len() < fixed || given > 3 || sid_at(b, start) is None {
        None
    } else {
        let (sid, end) = sid_at(b, start)->Some_0;
        let tail = b.subrange(end, b.len() as int);
        if tail.len() > 0 && !has_condition(a.ace_type) && !has_claim(a.ace_type) {
            None
        } else {
            Some(
                EntryView {
                    ace_type: a.ace_type,
                    flags: a.flags,
                    mask: le32_at(b, 0),
                    object: if given % 2 == 1 {
                        Some(b.subrange(8, 24))
                    } else {
                        None
                    },
                    inherited: if given / 2 % 2 == 1 {
                        Some(b.subrange(second, second + 16))
                    } else {
                        None
                    },
                    sid,
                    tail,
                },
            )
        }
    }
}

/// An entry is read back from its binary form.
#[verifier::spinoff_prover]
pub proof fn law_entry_reads_back(e: EntryView)
    requires
        e.wf(),
    ensures
        entry_of(entry_ace(e)) == Some(e),
{
    let b = entry_body(e);
    let g = guid_part(e);
    let given = guid_flags(e);
    assert(b.subrange(0, 4) =~= le32(e.mask));
    law_le32_reads_back(b, 0, e.mask);
    let pre = le32(e.mask) + g;
    assert(b =~= pre + sid_bytes(e.sid) + e.tail);
    law_sid_round_trip(pre, e.sid, e.tail);
    let start = pre.len() as int;
    let end = start + sid_bytes(e.sid).len();
    assert(b.subrange(end, b.len() as int) =~= e.tail);
    if has_guids(e.ace_type) {
        assert(b.subrange(4, 8) =~= le32(given));
        law_le32_reads_back(b, 4, given);
        if e.object is Some {
            assert(b.subrange(8, 24) =~= e.object->Some_0);
        }
        if e.inherited is Some {
            let second: int = if e.object is Some {
                24
            } else {
                8
            };
            assert(b.subrange(second, second + 16) =~= e.inherited->Some_0);
        }
    }
}

impl Entry {
    /// Takes an entry apart.
    pub fn from_ace(a: &AceRef) -> (r: Option<Entry>)
        ensures
            match r {
                Some(e) => e.sid.wf() && entry_of(a@) == Some(e@),
                None => entry_of(a@) is None,
            },
    {
        let b: &[u8] = a.body;
        assert(b@.len() == b.len());
        let guids: bool = takes_guids(a.ace_type);
        let fixed: usize = if guids {
            8
        } else {
            4
        };
        if b.len() < fixed {
            return None;
        }
        let given: u32 = if guids {
            rd_u32(b, 4)
        } else {
            0
        };
        if given > 3 {
            return None;
        }
        let second: usize = if given % 2 == 1 {
            fixed + 16
        } else {
            fixed
        };
        let start: usize = if given / 2 % 2 == 1 {
            second + 16
        } else {
            second
        };
        match Sid::parse_at(b, start) {
            None => None,
            Some((sid, end)) => {
                if end < b.len() && !takes_condition(a.ace_type) && !takes_claim(a.ace_type) {
                    return None;
                }
                let object: Option<Vec<u8>> = if given % 2 == 1 {
                    Some(slice_to_vec(slice_subrange(b, 8, 24)))
                } else {
                    None
                };
                let inherited: Option<Vec<u8>> = if given / 2 % 2 == 1 {
                    Some(slice_to_vec(slice_subrange(b, second, second + 16)))
                } else {
                    None
                };
                let tail: Vec<u8> = slice_to_vec(slice_subrange(b, end, b.len()));
                Some(
                    Entry {
                        ace_type: a.ace_type,
                        flags: a.flags,
                        mask: rd_u32(b, 0),
                        object,
                        inherited,
                        sid,
                        tail,
                    },
                )
            },
        }
    }

    /// The body of the entry.
    pub fn body(&self) -> (out: Vec<u8>)
        requires
            self.sid.wf(),
        ensures
            out@ == entry_body(self@),
    {
        let mut out: Vec<u8> = Vec::new();
        put_le32(&mut out, self.mask);
        assert(out@ =~= le32(self.mask));
        if takes_guids(self.ace_type) {
            let mut given: u32 = 0;
            if self.object.is_some() {
                given = given + 1;
            }
            if self.inherited.is_some() {
                given = given + 2;
            }
            put_le32(&mut out, given);
            if let Some(g) = &self.object {
                put_slice(&mut out, g.as_slice());
            }
            if let Some(g) = &self.inherited {
                put_slice(&mut out, g.as_slice());
            }
        }
        assert(out@ =~= le32(self.mask) + guid_part(self@));
        put_slice(&mut out, self.sid.encode().as_slice());
        put_slice(&mut out, self.tail.as_slice());
        out
    }
}

/// The field of an optional GUID.
pub open spec fn guid_field(g: Option<Seq<u8>>) -> Seq<u8> {
    match g {
        Some(b) => guid_text(b),
        None => Seq::empty(),
    }
}

/// The field of the rights: a mandatory label has a policy there.
pub open spec fn mask_field(t: u8, mask: u32) -> Seq<u8> {
    if t == ACE_TYPE_SYSTEM_MANDATORY_LABEL {
        label_text(mask)
    } else {
        rights_text(mask)
    }
}

/// What stands behind the SID, as text; nothing if no text tells it. There may be none.
pub open spec fn tail_text(t: u8, tail: Seq<u8>) -> Option<Option<Seq<u8>>> {
    if has_claim(t) {
        match claim_tail_text(tail) {
            Some(x) => Some(Some(x)),
            None => None,
        }
    } else if tail.len() == 0 {
        Some(None)
    } else if has_condition(t) {
        match text_of_artx(tail) {
            Some(x) => Some(Some(x)),
            None => None,
        }
    } else {
        None
    }
}

/// Text in parentheses.
pub open spec fn parenthesised(s: Seq<u8>) -> Seq<u8> {
    seq![0x28u8] + s + seq![0x29u8]
}

/// The fields of an entry's text.
pub open spec fn entry_fields(code: Seq<u8>, e: EntryView, tail: Option<Seq<u8>>) -> Seq<Seq<u8>> {
    let six = seq![
        code,
        flags_text(e.flags),
        mask_field(e.ace_type, e.mask),
        guid_field(e.object),
        guid_field(e.inherited),
        sid_field(e.sid),
    ];
    match tail {
        Some(x) => six.push(parenthesised(x)),
        None => six,
    }
}

/// The number of a type that has no code, as text: `0x` and two hexadecimal digits.
pub open spec fn type_number(t: u8) -> Seq<u8> {
    seq![0x30u8, 0x78u8] + hex_padded(t as nat, 2)
}

fn put_type_number(t: u8) -> (out: Vec<u8>)
    ensures
        out@ == type_number(t),
{
    let mut out: Vec<u8> = Vec::new();
    out.push(0x30);
    out.push(0x78);
    put_hex_padded(&mut out, t as u64, 2);
    assert(out@ =~= type_number(t));
    out
}

/// The text of an entry, in parentheses.
#[verifier::opaque]
pub open spec fn ace_text(a: AceView) -> Result<Seq<u8>, SddlErrorView> {
    if code_of_type(a.ace_type) is None {
        Err(SddlErrorView::UnknownAceType(type_number(a.ace_type)))
    } else {
        match entry_of(a) {
            None => Err(SddlErrorView::BadAce),
            Some(e) => match tail_text(e.ace_type, e.tail) {
                None => Err(SddlErrorView::BadAce),
                Some(x) => if flags_known(e.flags) {
                    Ok(parenthesised(join(entry_fields(code_of_type(a.ace_type)->Some_0, e, x), 0x3b)))
                } else {
                    Err(SddlErrorView::BadAce)
                },
            },
        }
    }
}

fn put_tail_text(t: u8, tail: &[u8]) -> (r: Option<Option<Vec<u8>>>)
    ensures
        match r {
            Some(x) => tail_text(t, tail@) == Some(opt_bytes(x)),
            None => tail_text(t, tail@) is None,
        },
{
    if takes_claim(t) {
        match format_claim_tail(tail) {
            Some(x) => Some(Some(x)),
            None => None,
        }
    } else if tail.len() == 0 {
        Some(None)
    } else if takes_condition(t) {
        match format_condition_from_artx(tail) {
            Ok(x) => Some(Some(x)),
            Err(_) => None,
        }
    } else {
        None
    }
}

/// Appends a field behind a semicolon; nothing if there is no GUID.
fn put_guid_field(out: &mut Vec<u8>, g: &Option<Vec<u8>>)
    requires
        opt_bytes(*g) matches Some(b) ==> b.len() == 16,
    ensures
        final(out)@ == old(out)@ + seq![0x3bu8] + guid_field(opt_bytes(*g)),
{
    out.push(0x3b);
    if let Some(b) = g {
        put_guid(out, b.as_slice());
    }
    assert(out@ =~= old(out)@ + seq![0x3bu8] + guid_field(opt_bytes(*g)));
}

/// Six fields with separators.
proof fn lemma_join_six(f: Seq<Seq<u8>>, sep: u8)
    requires
        f.len() == 6,
    ensures
        join(f, sep) == f[0] + seq![sep] + f[1] + seq![sep] + f[2] + seq![sep] + f[3] + seq![sep] + f[4] + seq![sep] + f[5],
{
    let g5 = f.drop_last();
    let g4 = g5.drop_last();
    let g3 = g4.drop_last();
    let g2 = g3.drop_last();
    let g1 = g2.drop_last();
    assert(join(g1, sep) == f[0]);
    assert(join(g2, sep) == f[0] + seq![sep] + f[1]);
    assert(join(g3, sep) == f[0] + seq![sep] + f[1] + seq![sep] + f[2]);
    assert(join(g4, sep) == f[0] + seq![sep] + f[1] + seq![sep] + f[2] + seq![sep] + f[3]);
    assert(join(g5, sep) == f[0] + seq![sep] + f[1] + seq![sep] + f[2] + seq![sep] + f[3] + seq![sep] + f[4]);
}

fn put_fields(code: &[u8], e: &Entry, tail: &Option<Vec<u8>>) -> (out: Vec<u8>)
    requires
        e.sid.wf(),
        e@.object matches Some(g) ==> g.len() == 16,
        e@.inherited matches Some(g) ==> g.len() == 16,
    ensures
        out@ == join(entry_fields(code@, e@, opt_bytes(*tail)), 0x3b),
{
    let ghost six = entry_fields(code@, e@, None);
    let mut out: Vec<u8> = slice_to_vec(code);
    assert(out@ == six[0]);
    out.push(0x3b);
    assert(out@ =~= six[0] + seq![0x3bu8]);
    put_flags(&mut out, e.flags);
    let ghost two = out@;
    out.push(0x3b);
    assert(out@ =~= two + seq![0x3bu8]);
    if e.ace_type == ACE_TYPE_SYSTEM_MANDATORY_LABEL {
        put_label(&mut out, e.mask);
    } else {
        put_rights(&mut out, e.mask);
    }
    put_guid_field(&mut out, &e.object);
    put_guid_field(&mut out, &e.inherited);
    let ghost five = out@;
    out.push(0x3b);
    assert(out@ =~= five + seq![0x3bu8]);
    put_sid(&mut out, &e.sid);
    proof {
        lemma_join_six(six, 0x3b);
        assert(out@ == join(six, 0x3b));
    }
    if let Some(x) = tail {
        let ghost seven = entry_fields(code@, e@, opt_bytes(*tail));
        out.push(0x3b);
        out.push(0x28);
        put_slice(&mut out, x.as_slice());
        out.push(0x29);
        proof {
            assert(seven.drop_last() =~= six);
            assert(out@ =~= join(six, 0x3b) + seq![0x3bu8] + parenthesised(x@));
        }
    }
    out
}

/// Whether the flags all have codes.
pub fn are_flags_known(f: u8) -> (r: bool)
    ensures
        r == flags_known(f),
{
    f & 0x20 == 0
}

/// Writes an entry.
pub fn format_ace(a: &AceRef) -> (r: Result<Vec<u8>, SddlError>)
    ensures
        match r {
            Ok(out) => ace_text(a@) == Ok::<Seq<u8>, SddlErrorView>(out@),
            Err(e) => ace_text(a@) == Err::<Seq<u8>, SddlErrorView>(e@),
        },
{
    reveal(ace_text);
    let code: Vec<u8> = match ace_code_from_type(a.ace_type) {
        Some(code) => code,
        None => return Err(SddlError::UnknownAceType(put_type_number(a.ace_type))),
    };
    let e: Entry = match Entry::from_ace(a) {
        Some(e) => e,
        None => return Err(SddlError::BadAce),
    };
    let tail: Option<Vec<u8>> = match put_tail_text(e.ace_type, e.tail.as_slice()) {
        Some(x) => x,
        None => return Err(SddlError::BadAce),
    };
    if !are_flags_known(e.flags) {
        return Err(SddlError::BadAce);
    }
    let inner: Vec<u8> = put_fields(code.as_slice(), &e, &tail);
    let mut out: Vec<u8> = Vec::new();
    out.push(0x28);
    put_slice(&mut out, inner.as_slice());
    out.push(0x29);
    assert(out@ =~= parenthesised(inner@));
    Ok(out)
}

/// How many fields an entry of the type may have.
pub open spec fn count_fits(t: u8, n: nat) -> bool {
    if has_claim(t) {
        n == 7
    } else if has_condition(t) {
        n == 6 || n == 7
    } else {
        n == 6
    }
}

/// A GUID from its field, which may be empty.
pub open spec fn guid_of_field(f: Seq<u8>) -> Result<Option<Seq<u8>>, SddlErrorView> {
    if f.len() == 0 {
        Ok(None)
    } else {
        match guid_from_text(f) {
            Some(g) => Ok(Some(g)),
            None => Err(SddlErrorView::BadGuid(f)),
        }
    }
}

/// What stands behind the SID, from its field.
pub open spec fn tail_of_field(t: u8, f: Seq<u8>) -> Result<Seq<u8>, SddlErrorView> {
    let err = if has_claim(t) {
        SddlErrorView::BadClaim
    } else {
        SddlErrorView::BadCondition
    };
    if f.len() < 2 || f[0] != 0x28 || f.last() != 0x29 {
        Err(err)
    } else {
        let x = f.subrange(1, f.len() - 1);
        let tail = if has_claim(t) {
            claim_tail(x)
        } else {
            artx_of_text(x)
        };
        match tail {
            Some(b) => Ok(b),
            None => Err(err),
        }
    }
}

/// The entry that fields are. The first fault counts.
pub open spec fn entry_of_fields(f: Seq<Seq<u8>>) -> Result<EntryView, SddlErrorView> {
    if f.len() < 6 {
        Err(SddlErrorView::WrongFieldCount(f.len() as usize))
    } else if type_of_code(f[0]) is None {
        Err(SddlErrorView::UnknownAceType(f[0]))
    } else {
        let t = type_of_code(f[0])->Some_0;
        if !count_fits(t, f.len()) {
            Err(SddlErrorView::WrongFieldCount(f.len() as usize))
        } else if flags_from(f[1], 0) is None {
            Err(SddlErrorView::UnknownFlag(f[1]))
        } else if rights_from(f[2], 0) is None {
            Err(SddlErrorView::UnknownRight(f[2]))
        } else if !has_guids(t) && (f[3].len() > 0 || f[4].len() > 0) {
            Err(SddlErrorView::ObjectFieldsOnNonObjectAce(f[0]))
        } else if guid_of_field(f[3]) is Err {
            Err(guid_of_field(f[3])->Err_0)
        } else if guid_of_field(f[4]) is Err {
            Err(guid_of_field(f[4])->Err_0)
        } else if sid_from_field(f[5]) is Err {
            Err(sid_from_field(f[5])->Err_0)
        } else if f.len() == 7 && tail_of_field(t, f[6]) is Err {
            Err(tail_of_field(t, f[6])->Err_0)
        } else {
            Ok(
                EntryView {
                    ace_type: t,
                    flags: flags_from(f[1], 0)->Some_0,
                    mask: rights_from(f[2], 0)->Some_0,
                    object: guid_of_field(f[3])->Ok_0,
                    inherited: guid_of_field(f[4])->Ok_0,
                    sid: sid_from_field(f[5])->Ok_0,
                    tail: if f.len() == 7 {
                        tail_of_field(t, f[6])->Ok_0
                    } else {
                        Seq::empty()
                    },
                },
            )
        }
    }
}

/// The entry that text is, without the parentheses around it.
#[verifier::opaque]
pub open spec fn ace_of_text(s: Seq<u8>) -> Result<AceView, SddlErrorView> {
    match entry_of_fields(split_top(s, 0x3b)) {
        Err(e) => Err(e),
        Ok(e) => if entry_ace(e).wf() {
            Ok(entry_ace(e))
        } else {
            Err(SddlErrorView::BadAce)
        },
    }
}

fn read_guid_field(f: &[u8]) -> (r: Result<Option<Vec<u8>>, SddlError>)
    ensures
        match r {
            Ok(g) => guid_of_field(f@) == Ok::<Option<Seq<u8>>, SddlErrorView>(opt_bytes(g)),
            Err(e) => guid_of_field(f@) == Err::<Option<Seq<u8>>, SddlErrorView>(e@),
        },
{
    if f.len() == 0 {
        return Ok(None);
    }
    match read_guid(f) {
        Some(g) => Ok(Some(g)),
        None => Err(SddlError::BadGuid(slice_to_vec(f))),
    }
}

fn read_tail(t: u8, f: &[u8]) -> (r: Result<Vec<u8>, SddlError>)
    ensures
        match r {
            Ok(b) => tail_of_field(t, f@) == Ok::<Seq<u8>, SddlErrorView>(b@),
            Err(e) => tail_of_field(t, f@) == Err::<Seq<u8>, SddlErrorView>(e@),
        },
{
    let claim: bool = takes_claim(t);
    let err: SddlError = if claim {
        SddlError::BadClaim
    } else {
        SddlError::BadCondition
    };
    if f.len() < 2 || f[0] != 0x28 || f[f.len() - 1] != 0x29 {
        return Err(err);
    }
    let x: &[u8] = slice_subrange(f, 1, f.len() - 1);
    if claim {
        match parse_claim_tail(x) {
            Some(b) => Ok(b),
            None => Err(err),
        }
    } else {
        match parse_condition_to_artx(x) {
            Ok(b) => Ok(b),
            Err(_) => Err(err),
        }
    }
}

fn read_fields(fields: &Vec<Vec<u8>>, Ghost(f): Ghost<Seq<Seq<u8>>>) -> (r: Result<Entry, SddlError>)
    requires
        fields@.len() == f.len(),
        forall|i: int| 0 <= i < fields@.len() ==> #[trigger] fields@[i]@ == f[i],
    ensures
        match r {
            Ok(e) => e.sid.wf() && entry_of_fields(f) == Ok::<EntryView, SddlErrorView>(e@),
            Err(e) => entry_of_fields(f) == Err::<EntryView, SddlErrorView>(e@),
        },
{
    let n: usize = fields.len();
    if n < 6 {
        return Err(SddlError::WrongFieldCount(n));
    }
    assert(fields@[0]@ == f[0] && fields@[1]@ == f[1] && fields@[2]@ == f[2] && fields@[3]@ == f[3] && fields@[4]@ == f[4]
        && fields@[5]@ == f[5]);
    let t: u8 = match ace_type_from_code(fields[0].as_slice()) {
        Some(t) => t,
        None => return Err(SddlError::UnknownAceType(slice_to_vec(fields[0].as_slice()))),
    };
    let fits: bool = if takes_claim(t) {
        n == 7
    } else if takes_condition(t) {
        n == 6 || n == 7
    } else {
        n == 6
    };
    if !fits {
        return Err(SddlError::WrongFieldCount(n));
    }
    let flags: u8 = match read_flags(fields[1].as_slice()) {
        Some(flags) => flags,
        None => return Err(SddlError::UnknownFlag(slice_to_vec(fields[1].as_slice()))),
    };
    let mask: u32 = match read_rights(fields[2].as_slice()) {
        Some(mask) => mask,
        None => return Err(SddlError::UnknownRight(slice_to_vec(fields[2].as_slice()))),
    };
    if !takes_guids(t) && (fields[3].len() > 0 || fields[4].len() > 0) {
        return Err(SddlError::ObjectFieldsOnNonObjectAce(slice_to_vec(fields[0].as_slice())));
    }
    let object: Option<Vec<u8>> = match read_guid_field(fields[3].as_slice()) {
        Ok(g) => g,
        Err(e) => return Err(e),
    };
    let inherited: Option<Vec<u8>> = match read_guid_field(fields[4].as_slice()) {
        Ok(g) => g,
        Err(e) => return Err(e),
    };
    let sid: Sid = match parse_sid(fields[5].as_slice()) {
        Ok(sid) => sid,
        Err(e) => return Err(e),
    };
    let tail: Vec<u8> = if n == 7 {
        assert(fields@[6]@ == f[6]);
        match read_tail(t, fields[6].as_slice()) {
            Ok(b) => b,
            Err(e) => return Err(e),
        }
    } else {
        Vec::new()
    };
    let e: Entry = Entry { ace_type: t, flags, mask, object, inherited, sid, tail };
    assert(e@ =~= entry_of_fields(f)->Ok_0);
    Ok(e)
}

/// Reads an entry, without the parentheses around it.
pub fn parse_ace(s: &[u8]) -> (r: Result<AceBuilder, SddlError>)
    ensures
        match r {
            Ok(a) => ace_of_text(s@) == Ok::<AceView, SddlErrorView>(a@) && a@.wf(),
            Err(e) => ace_of_text(s@) == Err::<AceView, SddlErrorView>(e@),
        },
{
    reveal(ace_of_text);
    let fields: Vec<Vec<u8>> = split_outside(s, 0x3b);
    match read_fields(&fields, Ghost(split_top(s@, 0x3b))) {
        Ok(e) => {
            let body: Vec<u8> = e.body();
            if body.len() > 0xfffb || body.len() % 4 != 0 {
                return Err(SddlError::BadAce);
            }
            Ok(AceBuilder { ace_type: e.ace_type, flags: e.flags, body })
        },
        Err(e) => Err(e),
    }
}

/// Reads rights.
pub fn parse_rights(s: &[u8]) -> (r: Result<u32, SddlError>)
    ensures
        match r {
            Ok(mask) => rights_from(s@, 0) == Some(mask),
            Err(e) => rights_from(s@, 0) is None && e@ == SddlErrorView::UnknownRight(s@),
        },
{
    match read_rights(s) {
        Some(mask) => Ok(mask),
        None => Err(SddlError::UnknownRight(slice_to_vec(s))),
    }
}

} // verus!
