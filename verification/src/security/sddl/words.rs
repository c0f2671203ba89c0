//! The words of conditional expressions: operators, attribute names, numbers and bytes.

use vstd::prelude::*;
use vstd::slice::{slice_subrange, slice_to_vec};
use crate::bytes::same_bytes;
use crate::security::sddl::condition::{CompareOp, MemberOp, Source};
use crate::security::sddl::names::{byte_text, lemma_byte_text};
use crate::security::sddl::tokens::{all_name, name_byte};
use crate::security::text::{
    decimal, digit, digit_value, law_decimal_reads_back, number_upto, parse_u64_radix, put_decimal,
};

verus! {

/// A word with a meaning of its own.
#[derive(Clone, Copy, Debug, PartialEq, Eq, Structural)]
pub enum Keyword {
    Exists,
    NotExists,
    Compare(CompareOp),
    Member(MemberOp),
    Sid,
}

/// The word of a keyword; nothing for operators that are signs.
#[verifier::opaque]
pub open spec fn keyword_text(k: Keyword) -> Seq<u8> {
    match k {
        // Exists
        Keyword::Exists => seq![0x45u8, 0x78u8, 0x69u8, 0x73u8, 0x74u8, 0x73u8],
        // Not_Exists
        Keyword::NotExists => seq![0x4eu8, 0x6fu8, 0x74u8, 0x5fu8, 0x45u8, 0x78u8, 0x69u8, 0x73u8, 0x74u8, 0x73u8],
        // Contains
        Keyword::Compare(CompareOp::Contains) => seq![0x43u8, 0x6fu8, 0x6eu8, 0x74u8, 0x61u8, 0x69u8, 0x6eu8, 0x73u8],
        // Any_of
        Keyword::Compare(CompareOp::AnyOf) => seq![0x41u8, 0x6eu8, 0x79u8, 0x5fu8, 0x6fu8, 0x66u8],
        // Not_Contains
        Keyword::Compare(CompareOp::NotContains) => seq![0x4eu8, 0x6fu8, 0x74u8, 0x5fu8, 0x43u8, 0x6fu8, 0x6eu8, 0x74u8, 0x61u8, 0x69u8, 0x6eu8, 0x73u8],
        // Not_Any_of
        Keyword::Compare(CompareOp::NotAnyOf) => seq![0x4eu8, 0x6fu8, 0x74u8, 0x5fu8, 0x41u8, 0x6eu8, 0x79u8, 0x5fu8, 0x6fu8, 0x66u8],
        // Member_of
        Keyword::Member(MemberOp::MemberOf) => seq![0x4du8, 0x65u8, 0x6du8, 0x62u8, 0x65u8, 0x72u8, 0x5fu8, 0x6fu8, 0x66u8],
        // Device_Member_of
        Keyword::Member(MemberOp::DeviceMemberOf) => seq![0x44u8, 0x65u8, 0x76u8, 0x69u8, 0x63u8, 0x65u8, 0x5fu8, 0x4du8, 0x65u8, 0x6du8, 0x62u8, 0x65u8, 0x72u8, 0x5fu8, 0x6fu8, 0x66u8],
        // Member_of_Any
        Keyword::Member(MemberOp::MemberOfAny) => seq![0x4du8, 0x65u8, 0x6du8, 0x62u8, 0x65u8, 0x72u8, 0x5fu8, 0x6fu8, 0x66u8, 0x5fu8, 0x41u8, 0x6eu8, 0x79u8],
        // Device_Member_of_Any
        Keyword::Member(MemberOp::DeviceMemberOfAny) => seq![0x44u8, 0x65u8, 0x76u8, 0x69u8, 0x63u8, 0x65u8, 0x5fu8, 0x4du8, 0x65u8, 0x6du8, 0x62u8, 0x65u8, 0x72u8, 0x5fu8, 0x6fu8, 0x66u8, 0x5fu8, 0x41u8, 0x6eu8, 0x79u8],
        // Not_Member_of
        Keyword::Member(MemberOp::NotMemberOf) => seq![0x4eu8, 0x6fu8, 0x74u8, 0x5fu8, 0x4du8, 0x65u8, 0x6du8, 0x62u8, 0x65u8, 0x72u8, 0x5fu8, 0x6fu8, 0x66u8],
        // Not_Device_Member_of
        Keyword::Member(MemberOp::NotDeviceMemberOf) => seq![0x4eu8, 0x6fu8, 0x74u8, 0x5fu8, 0x44u8, 0x65u8, 0x76u8, 0x69u8, 0x63u8, 0x65u8, 0x5fu8, 0x4du8, 0x65u8, 0x6du8, 0x62u8, 0x65u8, 0x72u8, 0x5fu8, 0x6fu8, 0x66u8],
        // Not_Member_of_Any
        Keyword::Member(MemberOp::NotMemberOfAny) => seq![0x4eu8, 0x6fu8, 0x74u8, 0x5fu8, 0x4du8, 0x65u8, 0x6du8, 0x62u8, 0x65u8, 0x72u8, 0x5fu8, 0x6fu8, 0x66u8, 0x5fu8, 0x41u8, 0x6eu8, 0x79u8],
        // Not_Device_Member_of_Any
        Keyword::Member(MemberOp::NotDeviceMemberOfAny) => seq![0x4eu8, 0x6fu8, 0x74u8, 0x5fu8, 0x44u8, 0x65u8, 0x76u8, 0x69u8, 0x63u8, 0x65u8, 0x5fu8, 0x4du8, 0x65u8, 0x6du8, 0x62u8, 0x65u8, 0x72u8, 0x5fu8, 0x6fu8, 0x66u8, 0x5fu8, 0x41u8, 0x6eu8, 0x79u8],
        // SID
        Keyword::Sid => seq![0x53u8, 0x49u8, 0x44u8],
        Keyword::Compare(_) => Seq::empty(),
    }
}

/// An operator that is a word.
pub open spec fn is_word_operator(op: CompareOp) -> bool {
    op == CompareOp::Contains || op == CompareOp::AnyOf || op == CompareOp::NotContains || op == CompareOp::NotAnyOf
}

/// The keyword that a word is.
#[verifier::opaque]
pub open spec fn keyword_of(w: Seq<u8>) -> Option<Keyword> {
    if w == keyword_text(Keyword::Exists) {
        Some(Keyword::Exists)
    } else if w == keyword_text(Keyword::NotExists) {
        Some(Keyword::NotExists)
    } else if w == keyword_text(Keyword::Compare(CompareOp::Contains)) {
        Some(Keyword::Compare(CompareOp::Contains))
    } else if w == keyword_text(Keyword::Compare(CompareOp::AnyOf)) {
        Some(Keyword::Compare(CompareOp::AnyOf))
    } else if w == keyword_text(Keyword::Compare(CompareOp::NotContains)) {
        Some(Keyword::Compare(CompareOp::NotContains))
    } else if w == keyword_text(Keyword::Compare(CompareOp::NotAnyOf)) {
        Some(Keyword::Compare(CompareOp::NotAnyOf))
    } else if w == keyword_text(Keyword::Member(MemberOp::MemberOf)) {
        Some(Keyword::Member(MemberOp::MemberOf))
    } else if w == keyword_text(Keyword::Member(MemberOp::DeviceMemberOf)) {
        Some(Keyword::Member(MemberOp::DeviceMemberOf))
    } else if w == keyword_text(Keyword::Member(MemberOp::MemberOfAny)) {
        Some(Keyword::Member(MemberOp::MemberOfAny))
    } else if w == keyword_text(Keyword::Member(MemberOp::DeviceMemberOfAny)) {
        Some(Keyword::Member(MemberOp::DeviceMemberOfAny))
    } else if w == keyword_text(Keyword::Member(MemberOp::NotMemberOf)) {
        Some(Keyword::Member(MemberOp::NotMemberOf))
    } else if w == keyword_text(Keyword::Member(MemberOp::NotDeviceMemberOf)) {
        Some(Keyword::Member(MemberOp::NotDeviceMemberOf))
    } else if w == keyword_text(Keyword::Member(MemberOp::NotMemberOfAny)) {
        Some(Keyword::Member(MemberOp::NotMemberOfAny))
    } else if w == keyword_text(Keyword::Member(MemberOp::NotDeviceMemberOfAny)) {
        Some(Keyword::Member(MemberOp::NotDeviceMemberOfAny))
    } else if w == keyword_text(Keyword::Sid) {
        Some(Keyword::Sid)
    } else {
        None
    }
}

/// A keyword's word.
pub fn put_keyword(k: Keyword) -> (w: Vec<u8>)
    ensures
        w@ == keyword_text(k),
{
    reveal(keyword_text);
    let w: Vec<u8> = match k {
        Keyword::Exists => vec![0x45, 0x78, 0x69, 0x73, 0x74, 0x73],
        Keyword::NotExists => vec![0x4e, 0x6f, 0x74, 0x5f, 0x45, 0x78, 0x69, 0x73, 0x74, 0x73],
        Keyword::Compare(CompareOp::Contains) => vec![0x43, 0x6f, 0x6e, 0x74, 0x61, 0x69, 0x6e, 0x73],
        Keyword::Compare(CompareOp::AnyOf) => vec![0x41, 0x6e, 0x79, 0x5f, 0x6f, 0x66],
        Keyword::Compare(CompareOp::NotContains) => vec![0x4e, 0x6f, 0x74, 0x5f, 0x43, 0x6f, 0x6e, 0x74, 0x61, 0x69, 0x6e, 0x73],
        Keyword::Compare(CompareOp::NotAnyOf) => vec![0x4e, 0x6f, 0x74, 0x5f, 0x41, 0x6e, 0x79, 0x5f, 0x6f, 0x66],
        Keyword::Member(MemberOp::MemberOf) => vec![0x4d, 0x65, 0x6d, 0x62, 0x65, 0x72, 0x5f, 0x6f, 0x66],
        Keyword::Member(MemberOp::DeviceMemberOf) => vec![0x44, 0x65, 0x76, 0x69, 0x63, 0x65, 0x5f, 0x4d, 0x65, 0x6d, 0x62, 0x65, 0x72, 0x5f, 0x6f, 0x66],
        Keyword::Member(MemberOp::MemberOfAny) => vec![0x4d, 0x65, 0x6d, 0x62, 0x65, 0x72, 0x5f, 0x6f, 0x66, 0x5f, 0x41, 0x6e, 0x79],
        Keyword::Member(MemberOp::DeviceMemberOfAny) => vec![0x44, 0x65, 0x76, 0x69, 0x63, 0x65, 0x5f, 0x4d, 0x65, 0x6d, 0x62, 0x65, 0x72, 0x5f, 0x6f, 0x66, 0x5f, 0x41, 0x6e, 0x79],
        Keyword::Member(MemberOp::NotMemberOf) => vec![0x4e, 0x6f, 0x74, 0x5f, 0x4d, 0x65, 0x6d, 0x62, 0x65, 0x72, 0x5f, 0x6f, 0x66],
        Keyword::Member(MemberOp::NotDeviceMemberOf) => vec![0x4e, 0x6f, 0x74, 0x5f, 0x44, 0x65, 0x76, 0x69, 0x63, 0x65, 0x5f, 0x4d, 0x65, 0x6d, 0x62, 0x65, 0x72, 0x5f, 0x6f, 0x66],
        Keyword::Member(MemberOp::NotMemberOfAny) => vec![0x4e, 0x6f, 0x74, 0x5f, 0x4d, 0x65, 0x6d, 0x62, 0x65, 0x72, 0x5f, 0x6f, 0x66, 0x5f, 0x41, 0x6e, 0x79],
        Keyword::Member(MemberOp::NotDeviceMemberOfAny) => vec![0x4e, 0x6f, 0x74, 0x5f, 0x44, 0x65, 0x76, 0x69, 0x63, 0x65, 0x5f, 0x4d, 0x65, 0x6d, 0x62, 0x65, 0x72, 0x5f, 0x6f, 0x66, 0x5f, 0x41, 0x6e, 0x79],
        Keyword::Sid => vec![0x53, 0x49, 0x44],
        Keyword::Compare(_) => Vec::new(),
    };
    assert(w@ =~= keyword_text(k));
    w
}

fn is_keyword(w: &[u8], k: Keyword) -> (r: bool)
    ensures
        r == (w@ == keyword_text(k)),
{
    let text: Vec<u8> = put_keyword(k);
    same_bytes(w, text.as_slice())
}

/// Reads a keyword.
pub fn read_keyword(w: &[u8]) -> (r: Option<Keyword>)
    ensures
        r == keyword_of(w@),
{
    reveal(keyword_of);
    if is_keyword(w, Keyword::Exists) {
        Some(Keyword::Exists)
    } else if is_keyword(w, Keyword::NotExists) {
        Some(Keyword::NotExists)
    } else if is_keyword(w, Keyword::Compare(CompareOp::Contains)) {
        Some(Keyword::Compare(CompareOp::Contains))
    } else if is_keyword(w, Keyword::Compare(CompareOp::AnyOf)) {
        Some(Keyword::Compare(CompareOp::AnyOf))
    } else if is_keyword(w, Keyword::Compare(CompareOp::NotContains)) {
        Some(Keyword::Compare(CompareOp::NotContains))
    } else if is_keyword(w, Keyword::Compare(CompareOp::NotAnyOf)) {
        Some(Keyword::Compare(CompareOp::NotAnyOf))
    } else if is_keyword(w, Keyword::Member(MemberOp::MemberOf)) {
        Some(Keyword::Member(MemberOp::MemberOf))
    } else if is_keyword(w, Keyword::Member(MemberOp::DeviceMemberOf)) {
        Some(Keyword::Member(MemberOp::DeviceMemberOf))
    } else if is_keyword(w, Keyword::Member(MemberOp::MemberOfAny)) {
        Some(Keyword::Member(MemberOp::MemberOfAny))
    } else if is_keyword(w, Keyword::Member(MemberOp::DeviceMemberOfAny)) {
        Some(Keyword::Member(MemberOp::DeviceMemberOfAny))
    } else if is_keyword(w, Keyword::Member(MemberOp::NotMemberOf)) {
        Some(Keyword::Member(MemberOp::NotMemberOf))
    } else if is_keyword(w, Keyword::Member(MemberOp::NotDeviceMemberOf)) {
        Some(Keyword::Member(MemberOp::NotDeviceMemberOf))
    } else if is_keyword(w, Keyword::Member(MemberOp::NotMemberOfAny)) {
        Some(Keyword::Member(MemberOp::NotMemberOfAny))
    } else if is_keyword(w, Keyword::Member(MemberOp::NotDeviceMemberOfAny)) {
        Some(Keyword::Member(MemberOp::NotDeviceMemberOfAny))
    } else if is_keyword(w, Keyword::Sid) {
        Some(Keyword::Sid)
    } else {
        None
    }
}

/// A keyword is told from its word.
pub proof fn law_keyword_reads_back(k: Keyword)
    requires
        k matches Keyword::Compare(op) ==> is_word_operator(op),
    ensures
        keyword_of(keyword_text(k)) == Some(k),
        keyword_text(k).len() > 0,
        all_name(keyword_text(k)),
        0x41 <= keyword_text(k)[0] <= 0x5a,
{
    reveal(keyword_of);
    reveal(keyword_text);
    assert(keyword_text(Keyword::Exists).len() == 6);
    assert(keyword_text(Keyword::NotExists).len() == 10);
    assert(keyword_text(Keyword::Compare(CompareOp::Contains)).len() == 8);
    assert(keyword_text(Keyword::Compare(CompareOp::AnyOf)).len() == 6);
    assert(keyword_text(Keyword::Compare(CompareOp::NotContains)).len() == 12);
    assert(keyword_text(Keyword::Compare(CompareOp::NotAnyOf)).len() == 10);
    assert(keyword_text(Keyword::Member(MemberOp::MemberOf)).len() == 9);
    assert(keyword_text(Keyword::Member(MemberOp::DeviceMemberOf)).len() == 16);
    assert(keyword_text(Keyword::Member(MemberOp::MemberOfAny)).len() == 13);
    assert(keyword_text(Keyword::Member(MemberOp::DeviceMemberOfAny)).len() == 20);
    assert(keyword_text(Keyword::Member(MemberOp::NotMemberOf)).len() == 13);
    assert(keyword_text(Keyword::Member(MemberOp::NotDeviceMemberOf)).len() == 20);
    assert(keyword_text(Keyword::Member(MemberOp::NotMemberOfAny)).len() == 17);
    assert(keyword_text(Keyword::Member(MemberOp::NotDeviceMemberOfAny)).len() == 24);
    assert(keyword_text(Keyword::Sid).len() == 3);
    // Words of one length differ in their first or fifth letter.
    assert(keyword_text(Keyword::Exists)[0] == 0x45);
    assert(keyword_text(Keyword::Compare(CompareOp::AnyOf))[0] == 0x41);
    assert(keyword_text(Keyword::NotExists)[4] == 0x45);
    assert(keyword_text(Keyword::Compare(CompareOp::NotAnyOf))[4] == 0x41);
    assert(keyword_text(Keyword::Member(MemberOp::MemberOfAny))[0] == 0x4d);
    assert(keyword_text(Keyword::Member(MemberOp::NotMemberOf))[0] == 0x4e);
    assert(keyword_text(Keyword::Member(MemberOp::DeviceMemberOfAny))[0] == 0x44);
    assert(keyword_text(Keyword::Member(MemberOp::NotDeviceMemberOf))[0] == 0x4e);
}

/// The text before an attribute's name, which tells where it is looked up.
pub open spec fn source_text(source: Source) -> Seq<u8> {
    match source {
        // Local.
        Source::Local => seq![0x4cu8, 0x6fu8, 0x63u8, 0x61u8, 0x6cu8, 0x2eu8],
        // User.
        Source::User => seq![0x55u8, 0x73u8, 0x65u8, 0x72u8, 0x2eu8],
        // Resource.
        Source::Resource => seq![0x52u8, 0x65u8, 0x73u8, 0x6fu8, 0x75u8, 0x72u8, 0x63u8, 0x65u8, 0x2eu8],
        // Device.
        Source::Device => seq![0x44u8, 0x65u8, 0x76u8, 0x69u8, 0x63u8, 0x65u8, 0x2eu8],
    }
}

/// The text starts with the other.
pub open spec fn starts(w: Seq<u8>, t: Seq<u8>) -> bool {
    w.len() >= t.len() && w.take(t.len() as int) == t
}

/// The attribute that a word behind `@` names.
pub open spec fn attribute_of(w: Seq<u8>) -> Option<(Source, Seq<u8>)> {
    let source = if starts(w, source_text(Source::Local)) {
        Some(Source::Local)
    } else if starts(w, source_text(Source::User)) {
        Some(Source::User)
    } else if starts(w, source_text(Source::Resource)) {
        Some(Source::Resource)
    } else if starts(w, source_text(Source::Device)) {
        Some(Source::Device)
    } else {
        None
    };
    match source {
        Some(x) => {
            let n = source_text(x).len() as int;
            if w.len() > n {
                Some((x, w.subrange(n, w.len() as int)))
            } else {
                None
            }
        },
        None => None,
    }
}

/// The text before an attribute's name.
pub fn put_source(source: Source) -> (w: Vec<u8>)
    ensures
        w@ == source_text(source),
{
    let w: Vec<u8> = match source {
        Source::Local => vec![0x4c, 0x6f, 0x63, 0x61, 0x6c, 0x2e],
        Source::User => vec![0x55, 0x73, 0x65, 0x72, 0x2e],
        Source::Resource => vec![0x52, 0x65, 0x73, 0x6f, 0x75, 0x72, 0x63, 0x65, 0x2e],
        Source::Device => vec![0x44, 0x65, 0x76, 0x69, 0x63, 0x65, 0x2e],
    };
    assert(w@ =~= source_text(source));
    w
}

fn starts_with_source(w: &[u8], source: Source) -> (r: bool)
    ensures
        r == starts(w@, source_text(source)),
{
    let t: Vec<u8> = put_source(source);
    if w.len() < t.len() {
        return false;
    }
    assert(w@.subrange(0, t@.len() as int) =~= w@.take(t@.len() as int));
    same_bytes(slice_subrange(w, 0, t.len()), t.as_slice())
}

/// Reads the word behind `@`.
pub fn read_attribute(w: &[u8]) -> (r: Option<(Source, Vec<u8>)>)
    ensures
        match r {
            Some((x, name)) => attribute_of(w@) == Some((x, name@)),
            None => attribute_of(w@) is None,
        },
{
    let source: Source = if starts_with_source(w, Source::Local) {
        Source::Local
    } else if starts_with_source(w, Source::User) {
        Source::User
    } else if starts_with_source(w, Source::Resource) {
        Source::Resource
    } else if starts_with_source(w, Source::Device) {
        Source::Device
    } else {
        return None;
    };
    let n: usize = put_source(source).len();
    if w.len() > n {
        Some((source, slice_to_vec(slice_subrange(w, n, w.len()))))
    } else {
        None
    }
}

/// An attribute is told from the word behind `@`.
pub proof fn law_attribute_reads_back(source: Source, name: Seq<u8>)
    requires
        name.len() > 0,
        all_name(name),
    ensures
        attribute_of(source_text(source) + name) == Some((source, name)),
        all_name(source_text(source) + name),
{
    let t = source_text(source);
    let w = t + name;
    assert(w.take(t.len() as int) =~= t);
    assert(w.subrange(t.len() as int, w.len() as int) =~= name);
    assert(w[0] == t[0]);
    assert forall|x: Source| #[trigger] starts(w, source_text(x)) implies x == source by {
        assert(w.take(source_text(x).len() as int)[0] == w[0]);
    }
    assert forall|i: int| 0 <= i < w.len() implies name_byte(#[trigger] w[i]) by {
        if i >= t.len() {
            assert(w[i] == name[i - t.len()]);
        } else {
            assert(w[i] == t[i]);
        }
    }
}

/// A word that starts like a number.
pub open spec fn looks_numeric(w: Seq<u8>) -> bool {
    w.len() > 0 && (0x30 <= w[0] <= 0x39 || w[0] == 0x2d)
}

/// A number in decimal.
pub open spec fn int_text(v: i64) -> Seq<u8> {
    if v < 0 {
        seq![0x2du8] + decimal((-v) as nat)
    } else {
        decimal(v as nat)
    }
}

/// The number that a word is.
pub open spec fn int_of(w: Seq<u8>) -> Option<i64> {
    if w.len() > 0 && w[0] == 0x2d {
        match number_upto(w.subrange(1, w.len() as int), 10, u64::MAX as nat) {
            Some(n) => if n <= 0x8000_0000_0000_0000 {
                Some((-(n as int)) as i64)
            } else {
                None
            },
            None => None,
        }
    } else {
        match number_upto(w, 10, u64::MAX as nat) {
            Some(n) => if n <= i64::MAX {
                Some(n as i64)
            } else {
                None
            },
            None => None,
        }
    }
}

/// A number's word.
pub fn put_int(v: i64) -> (w: Vec<u8>)
    ensures
        w@ == int_text(v),
{
    let mut w: Vec<u8> = Vec::new();
    if v < 0 {
        w.push(0x2d);
        put_decimal(&mut w, (-(v + 1)) as u64 + 1);
    } else {
        put_decimal(&mut w, v as u64);
    }
    assert(w@ =~= int_text(v));
    w
}

/// Reads a number.
pub fn read_int(w: &[u8]) -> (r: Option<i64>)
    ensures
        r == int_of(w@),
{
    if w.len() > 0 && w[0] == 0x2d {
        match parse_u64_radix(slice_subrange(w, 1, w.len()), 10) {
            Some(n) => if n == 0 {
                Some(0)
            } else if n <= 0x8000_0000_0000_0000 {
                Some(-((n - 1) as i64) - 1)
            } else {
                None
            },
            None => None,
        }
    } else {
        match parse_u64_radix(w, 10) {
            Some(n) => if n <= i64::MAX as u64 {
                Some(n as i64)
            } else {
                None
            },
            None => None,
        }
    }
}

/// A number is told from its word.
pub proof fn law_int_reads_back(v: i64)
    ensures
        int_of(int_text(v)) == Some(v),
        looks_numeric(int_text(v)),
        all_name(int_text(v)),
{
    let w = int_text(v);
    if v < 0 {
        let n = (-v) as nat;
        law_decimal_reads_back(n);
        assert(w.subrange(1, w.len() as int) =~= decimal(n));
        assert forall|i: int| 0 <= i < w.len() implies name_byte(#[trigger] w[i]) by {
            if i > 0 {
                assert(w[i] == decimal(n)[i - 1]);
            }
        }
    } else {
        law_decimal_reads_back(v as nat);
        assert(0x30 <= w[0] <= 0x39);
        assert forall|i: int| 0 <= i < w.len() implies name_byte(#[trigger] w[i]) by {
            assert(w[i] == decimal(v as nat)[i]);
        }
    }
}

/// Bytes in hexadecimal.
pub open spec fn octet_text(b: Seq<u8>) -> Seq<u8> {
    Seq::new(2 * b.len(), |i: int| byte_text(b[i / 2])[i % 2])
}

/// The byte that two digits are.
pub open spec fn octet_at(w: Seq<u8>, i: int) -> Option<u8> {
    match (digit(w[2 * i], 16), digit(w[2 * i + 1], 16)) {
        (Some(h), Some(l)) => Some((16 * h + l) as u8),
        _ => None,
    }
}

/// The bytes that a word is.
pub open spec fn octets_of(w: Seq<u8>) -> Option<Seq<u8>> {
    if w.len() % 2 == 0 && forall|i: int| 0 <= i < w.len() / 2 ==> (#[trigger] octet_at(w, i)) is Some {
        Some(Seq::new(w.len() / 2, |i: int| octet_at(w, i)->Some_0))
    } else {
        None
    }
}

/// Bytes as a word.
pub fn put_octets(b: &[u8]) -> (w: Vec<u8>)
    ensures
        w@ == octet_text(b@),
{
    let mut w: Vec<u8> = Vec::new();
    let mut i: usize = 0;
    assert(w@ =~= octet_text(b@.take(0)));
    while i < b.len()
        invariant
            i <= b@.len(),
            w@ == octet_text(b@.take(i as int)),
        decreases b@.len() - i,
    {
        let ghost before = w@;
        put_byte(&mut w, b[i]);
        let ghost next = octet_text(b@.take(i + 1));
        assert forall|k: int| 0 <= k < next.len() implies next[k] == w@[k] by {
            if k < before.len() {
                assert(b@.take(i + 1)[k / 2] == b@.take(i as int)[k / 2]);
            } else {
                assert(k / 2 == i);
                assert(k == 2 * i || k == 2 * i + 1);
            }
        }
        assert(w@ =~= next);
        i = i + 1;
    }
    assert(b@.take(i as int) =~= b@);
    w
}

fn put_byte(w: &mut Vec<u8>, b: u8)
    ensures
        final(w)@ == old(w)@ + byte_text(b),
{
    let h: u8 = b / 16;
    let l: u8 = b % 16;
    w.push(if h < 10 {
        0x30 + h
    } else {
        0x57 + h
    });
    w.push(if l < 10 {
        0x30 + l
    } else {
        0x57 + l
    });
    assert(w@ =~= old(w)@ + byte_text(b));
}

/// Reads bytes.
pub fn read_octets(w: &[u8]) -> (r: Option<Vec<u8>>)
    ensures
        match r {
            Some(b) => octets_of(w@) == Some(b@),
            None => octets_of(w@) is None,
        },
{
    if w.len() % 2 != 0 {
        return None;
    }
    let mut b: Vec<u8> = Vec::new();
    let mut i: usize = 0;
    assert(w@.len() == w.len());
    while i < w.len() / 2
        invariant
            i <= w@.len() / 2,
            w@.len() % 2 == 0,
            w@.len() == w.len(),
            b@ == Seq::new(i as nat, |k: int| octet_at(w@, k)->Some_0),
            forall|k: int| 0 <= k < i ==> (#[trigger] octet_at(w@, k)) is Some,
        decreases w@.len() / 2 - i,
    {
        match (digit_value(w[2 * i], 16), digit_value(w[2 * i + 1], 16)) {
            (Some(h), Some(l)) => {
                assert(h < 16 && l < 16);
                b.push((16 * h + l) as u8);
            },
            _ => {
                assert(octet_at(w@, i as int) is None);
                return None;
            },
        }
        i = i + 1;
        assert(b@ =~= Seq::new(i as nat, |k: int| octet_at(w@, k)->Some_0));
    }
    Some(b)
}

proof fn lemma_octet_text_at(b: Seq<u8>, i: int)
    requires
        0 <= i < b.len(),
    ensures
        octet_text(b)[2 * i] == byte_text(b[i])[0],
        octet_text(b)[2 * i + 1] == byte_text(b[i])[1],
        octet_at(octet_text(b), i) == Some(b[i]),
{
    lemma_byte_text(b[i]);
    assert((2 * i) / 2 == i && (2 * i) % 2 == 0);
    assert((2 * i + 1) / 2 == i && (2 * i + 1) % 2 == 1);
}

/// Bytes are told from their word.
pub proof fn law_octets_read_back(b: Seq<u8>)
    ensures
        octets_of(octet_text(b)) == Some(b),
        all_name(octet_text(b)),
{
    let w = octet_text(b);
    assert(w.len() % 2 == 0 && w.len() / 2 == b.len());
    assert forall|i: int| 0 <= i < w.len() / 2 implies #[trigger] octet_at(w, i) == Some(b[i]) by {
        lemma_octet_text_at(b, i);
    }
    assert(octets_of(w)->Some_0 =~= b);
    assert forall|i: int| 0 <= i < w.len() implies name_byte(#[trigger] w[i]) by {
        let k = i / 2;
        lemma_octet_text_at(b, k);
        lemma_byte_text(b[k]);
        assert(i == 2 * k || i == 2 * k + 1);
    }
}

} // verus!
