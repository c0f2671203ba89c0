//! The text of numbers, identifiers, entries and descriptors, part by part.

use vstd::prelude::*;
use crate::bytes::{law_le32_reads_back, le32, le32_at};
use crate::security::codec::{AceRef, AceView};
use crate::security::sddl::builders::{AceBuilder, SdBuilder};
use crate::security::sddl::claims::{
    claim_fields, claim_flags_of, claim_of_fields, claim_text, quoted, type_letter, type_of_text, unquoted, value_of,
    value_text, ClaimView,
};
use crate::security::sddl::cond::operand_of;
use crate::security::sddl::condition::{bits_of, signed, OperandView, Source};
use crate::security::sddl::entry::{
    ace_of_text, ace_text, count_fits, entry_ace, entry_body, entry_fields, entry_of, entry_of_fields, format_ace,
    has_claim, has_condition, has_guids, parse_ace, tail_text, EntryView,
};
use crate::security::sddl::fields::{flags_from, flags_text, label_text, rights_from, rights_text};
use crate::security::sddl::grammar::{
    acl_flags_text, acl_of_text, acl_section, aces_from, aces_text, control_bits, no_flags, open_from, parse,
    parse_acl, sd_of_text, sd_text, sections_from, sid_section, with_section, AclKind, ParsedAcl, SdModel,
};
use crate::security::sddl::names::{
    byte_text, capital, guid_from_text, guid_text, is_space, law_guid_round_trip, parse_sid, sid_field, sid_from_field,
    trimmed,
};
use crate::security::sddl::scan::{close_from, header_from, is_header, join, pass, split_top, top, Place};
use crate::security::sddl::tokens::TokenView;
use crate::security::sddl::vocab::{
    alias_of_sid, code_of_type, law_aliases_are_a_bijection, relative_pair, sid_of_alias, type_of_code, Code,
};
use crate::security::sddl::words::{int_of, int_text, keyword_of, looks_numeric, octet_text, octets_of};
use crate::security::sddl::{SddlError, SddlErrorView};
use crate::security::sid::{
    authority_from_text, authority_text, law_sid_round_trip, sid_at, sid_bytes, sid_from_text, sid_text, Sid, SidView,
};
use crate::security::text::{decimal, digit, digits_value, hex, hex_digit, hex_padded, number, number_upto, split};
use crate::token::claims::ClaimValueView;

verus! {

/// What each digit is worth.
pub proof fn law_digits(c: u8)
    ensures
        0x30 <= c <= 0x39 ==> digit(c, 10) == Some((c - 0x30) as nat) && digit(c, 16) == Some((c - 0x30) as nat),
        0x61 <= c <= 0x66 ==> digit(c, 10) is None && digit(c, 16) == Some((c - 0x61 + 10) as nat),
        0x41 <= c <= 0x46 ==> digit(c, 10) is None && digit(c, 16) == Some((c - 0x41 + 10) as nat),
        c < 0x30 || (0x39 < c < 0x41) || (0x46 < c < 0x61) || c > 0x66 ==> digit(c, 10) is None && digit(c, 16) is None,
{
}

/// Numbers in text, the highest digit first.
pub proof fn law_numbers_in_text(s: Seq<u8>, c: u8, radix: nat, max: nat)
    ensures
        number(Seq::empty(), radix) is None,
        digits_value(Seq::empty(), radix) == Some(0nat),
        digits_value(s.push(c), radix) == (match (digits_value(s, radix), digit(c, radix)) {
            (Some(h), Some(l)) => Some(h * radix + l),
            _ => None,
        }),
        s.len() > 0 ==> number(s, radix) == digits_value(s, radix),
        number_upto(s, radix, max) matches Some(v) ==> number(s, radix) == Some(v) && v <= max,
        number(s, radix) matches Some(v) ==> (v <= max ==> number_upto(s, radix, max) == Some(v)),
{
    assert(s.push(c).drop_last() =~= s);
}

/// The text of numbers: decimal and lower-case hexadecimal, without zeros in front, and
/// hexadecimal of a width.
pub proof fn law_text_of_numbers(n: nat, d: nat, width: nat)
    ensures
        d < 10 ==> decimal(d) == seq![(0x30 + d) as u8],
        n > 0 && d < 10 ==> decimal(10 * n + d) == decimal(n).push((0x30 + d) as u8),
        d < 10 ==> hex_digit(d) == 0x30 + d,
        10 <= d < 16 ==> hex_digit(d) == 0x61 + d - 10,
        d < 16 ==> hex(d) == seq![hex_digit(d)],
        n > 0 && d < 16 ==> hex(16 * n + d) == hex(n).push(hex_digit(d)),
        hex_padded(n, 0) == Seq::<u8>::empty(),
        d < 16 ==> hex_padded(16 * n + d, width + 1) == hex_padded(n, width).push(hex_digit(d)),
{
    assert((10 * n + d) / 10 == n && (10 * n + d) % 10 == d || d >= 10) by (nonlinear_arith);
    assert((16 * n + d) / 16 == n && (16 * n + d) % 16 == d || d >= 16) by (nonlinear_arith);
}

/// Text falls into fields at a separator.
pub proof fn law_fields_of_text(s: Seq<u8>, c: u8, sep: u8)
    ensures
        split(Seq::empty(), sep) == seq![Seq::<u8>::empty()],
        split(s, sep).len() > 0,
        c == sep ==> split(s.push(c), sep) == split(s, sep).push(Seq::empty()),
        c != sep ==> split(s.push(c), sep) == split(s, sep).update(
            split(s, sep).len() - 1,
            split(s, sep).last().push(c),
        ),
    decreases s.len(),
{
    assert(s.push(c).drop_last() =~= s);
    if s.len() > 0 {
        law_fields_of_text(s.drop_last(), s.last(), sep);
        assert(s.drop_last().push(s.last()) =~= s);
    }
}

/// The text of an identifier: `S-1-`, the authority, and each word behind a hyphen.
pub proof fn law_text_of_identifiers(authority: u64, subs: Seq<u32>, x: u32)
    ensures
        ({
            let v = SidView { authority, subs: Seq::empty() };
            let w = SidView { authority, subs };
            let more = SidView { authority, subs: subs.push(x) };
            &&& authority < 0x1_0000_0000 ==> sid_text(v) == seq![0x53u8, 0x2du8, 0x31u8, 0x2du8] + decimal(authority as nat)
            &&& authority >= 0x1_0000_0000 ==> sid_text(v) == seq![0x53u8, 0x2du8, 0x31u8, 0x2du8, 0x30u8, 0x78u8]
                + hex_padded(authority as nat, 12)
            &&& sid_text(more) == sid_text(w) + seq![0x2du8] + decimal(x as nat)
        }),
{
    let v = SidView { authority, subs: Seq::empty() };
    let more = SidView { authority, subs: subs.push(x) };
    let w = SidView { authority, subs };
    let f = seq![0x53u8, 0x2du8, 0x31u8, 0x2du8];
    assert(sid_text(v) =~= f + authority_text(authority));
    if authority >= 0x1_0000_0000 {
        assert(sid_text(v) =~= seq![0x53u8, 0x2du8, 0x31u8, 0x2du8, 0x30u8, 0x78u8] + hex_padded(authority as nat, 12));
    }
    assert(subs.push(x).drop_last() =~= subs);
    assert(sid_text(more) =~= sid_text(w) + seq![0x2du8] + decimal(x as nat));
}

/// Reading the authority of an identifier: hexadecimal behind `0x`, else decimal.
pub proof fn law_authorities_that_are_read(f: Seq<u8>)
    ensures
        f.len() > 2 && f[0] == 0x30 && (f[1] == 0x78 || f[1] == 0x58) ==> authority_from_text(f) == number_upto(
            f.subrange(2, f.len() as int),
            16,
            0xffff_ffff_ffff,
        ),
        !(f.len() > 2 && f[0] == 0x30 && (f[1] == 0x78 || f[1] == 0x58)) ==> authority_from_text(f) == number_upto(
            f,
            10,
            0xffff_ffff_ffff,
        ),
{
}

/// Which text is an identifier.
pub proof fn law_identifiers_in_text(s: Seq<u8>)
    ensures
        ({
            let f = split(s, 0x2d);
            sid_from_text(s) matches Some(v) ==> {
                &&& 3 <= f.len() <= 18
                &&& f[0] == seq![0x53u8] || f[0] == seq![0x73u8]
                &&& f[1] == seq![0x31u8]
                &&& authority_from_text(f[2]) == Some(v.authority as nat)
                &&& v.subs.len() == f.len() - 3
                &&& forall|i: int|
                    0 <= i < v.subs.len() ==> number_upto(f[i + 3], 10, 0xffff_ffff) == Some(#[trigger] v.subs[i] as nat)
            }
        }),
{
    let f = split(s, 0x2d);
    if let Some(v) = sid_from_text(s) {
        assert forall|i: int| 0 <= i < v.subs.len() implies number_upto(f[i + 3], 10, 0xffff_ffff) == Some(
            #[trigger] v.subs[i] as nat,
        ) by {
            assert(number_upto(f[i + 3], 10, u32::MAX as nat) is Some);
        }
    }
}

/// An identifier in a field: what `S-1-` says, else a name of two letters in either case, with
/// space around it.
pub proof fn law_identifiers_in_fields(s: &[u8], r: Result<Sid, SddlError>)
    requires
        call_ensures(parse_sid, (s,), r),
    ensures
        ({
            let t = trimmed(s@);
            &&& sid_from_text(t) matches Some(v) ==> r matches Ok(sid) && sid@ == v
            &&& sid_from_text(t) is None && t.len() != 2 ==> (r matches Err(e) && e@ == SddlErrorView::BadSid(t))
            &&& sid_from_text(t) is None && t.len() == 2 ==> ({
                let c = Code { first: capital(t[0]), second: capital(t[1]) };
                &&& sid_of_alias(c) matches Some(v) ==> r matches Ok(sid) && sid@ == v
                &&& sid_of_alias(c) is None && relative_pair(c.first, c.second) ==> (r matches Err(e) && e@
                    == SddlErrorView::DomainRelativeAlias(t))
                &&& sid_of_alias(c) is None && !relative_pair(c.first, c.second) ==> (r matches Err(e) && e@
                    == SddlErrorView::BadSid(t))
            })
        }),
{
}

/// Capitals, and space around text.
pub proof fn law_capitals_and_space(c: u8, s: Seq<u8>)
    ensures
        0x61 <= c <= 0x7a ==> capital(c) == c - 0x20,
        !(0x61 <= c <= 0x7a) ==> capital(c) == c,
        is_space(c) ==> trimmed(seq![c] + s) == trimmed(s),
        s.len() > 0 && !is_space(s[0]) && is_space(c) ==> trimmed(s.push(c)) == trimmed(s),
        s.len() > 0 && !is_space(s[0]) && !is_space(s.last()) ==> trimmed(s) == s,
        trimmed(Seq::empty()) == Seq::<u8>::empty(),
{
    let t = seq![c] + s;
    assert(t.subrange(1, t.len() as int) =~= s);
    assert(s.push(c).drop_last() =~= s);
}

/// An identifier is written by its name where it has one.
pub proof fn law_names_are_preferred(v: SidView)
    ensures
        alias_of_sid(v) matches Some(c) ==> sid_field(v) == seq![c.first, c.second],
        alias_of_sid(v) is None ==> sid_field(v) == sid_text(v),
{
}

/// The text of a GUID: its bytes as pairs of digits, the first three groups from their last byte
/// to their first, with hyphens behind the fourth, sixth, eighth and tenth byte.
pub proof fn law_text_of_guids(g: Seq<u8>)
    requires
        g.len() == 16,
    ensures
        ({
            let t = guid_text(g);
            &&& t.len() == 36
            &&& t[8] == 0x2d && t[13] == 0x2d && t[18] == 0x2d && t[23] == 0x2d
            &&& t.subrange(0, 2) == byte_text(g[3])
            &&& t.subrange(2, 4) == byte_text(g[2])
            &&& t.subrange(4, 6) == byte_text(g[1])
            &&& t.subrange(6, 8) == byte_text(g[0])
            &&& t.subrange(9, 11) == byte_text(g[5])
            &&& t.subrange(11, 13) == byte_text(g[4])
            &&& t.subrange(14, 16) == byte_text(g[7])
            &&& t.subrange(16, 18) == byte_text(g[6])
            &&& t.subrange(19, 21) == byte_text(g[8])
            &&& t.subrange(21, 23) == byte_text(g[9])
            &&& t.subrange(24, 26) == byte_text(g[10])
            &&& t.subrange(34, 36) == byte_text(g[15])
        }),
{
    law_guid_round_trip(g);
    lemma_guid_pairs(g);
}

#[verifier::spinoff_prover]
#[verifier::rlimit(60)]
proof fn lemma_guid_pairs(g: Seq<u8>)
    requires
        g.len() == 16,
    ensures
        ({
            let t = guid_text(g);
            &&& t.len() == 36
            &&& t[8] == 0x2d && t[13] == 0x2d && t[18] == 0x2d && t[23] == 0x2d
            &&& t.subrange(0, 2) == byte_text(g[3])
            &&& t.subrange(2, 4) == byte_text(g[2])
            &&& t.subrange(4, 6) == byte_text(g[1])
            &&& t.subrange(6, 8) == byte_text(g[0])
            &&& t.subrange(9, 11) == byte_text(g[5])
            &&& t.subrange(11, 13) == byte_text(g[4])
            &&& t.subrange(14, 16) == byte_text(g[7])
            &&& t.subrange(16, 18) == byte_text(g[6])
            &&& t.subrange(19, 21) == byte_text(g[8])
            &&& t.subrange(21, 23) == byte_text(g[9])
            &&& t.subrange(24, 26) == byte_text(g[10])
            &&& t.subrange(34, 36) == byte_text(g[15])
        }),
{
    let t = guid_text(g);
    assert(t.subrange(0, 2) =~= byte_text(g[3]));
    assert(t.subrange(2, 4) =~= byte_text(g[2]));
    assert(t.subrange(4, 6) =~= byte_text(g[1]));
    assert(t.subrange(6, 8) =~= byte_text(g[0]));
    assert(t.subrange(9, 11) =~= byte_text(g[5]));
    assert(t.subrange(11, 13) =~= byte_text(g[4]));
    assert(t.subrange(14, 16) =~= byte_text(g[7]));
    assert(t.subrange(16, 18) =~= byte_text(g[6]));
    assert(t.subrange(19, 21) =~= byte_text(g[8]));
    assert(t.subrange(21, 23) =~= byte_text(g[9]));
    assert(t.subrange(24, 26) =~= byte_text(g[10]));
    assert(t.subrange(34, 36) =~= byte_text(g[15]));
}

/// A byte as two digits.
pub proof fn law_bytes_as_digits(b: u8)
    ensures
        byte_text(b) == seq![hex_digit((b / 16) as nat), hex_digit((b % 16) as nat)],
{
}

/// Which types take GUIDs, a condition or a claim.
pub proof fn law_parts_by_type(t: u8, n: nat)
    ensures
        has_guids(t) <==> (5 <= t <= 8) || t == 11 || t == 12 || t == 15 || t == 16,
        has_condition(t) <==> 9 <= t <= 16,
        has_claim(t) <==> t == 0x12,
        count_fits(t, n) <==> (if t == 0x12 {
            n == 7
        } else if 9 <= t <= 16 {
            n == 6 || n == 7
        } else {
            n == 6
        }),
{
}

/// The body of an entry: the mask; for types with GUIDs a word with a bit for each that is there
/// and these; the identifier; what follows it.
pub proof fn law_body_of_an_entry(e: EntryView)
    requires
        e.wf(),
    ensures
        le32_at(entry_body(e), 0) == e.mask,
        entry_ace(e).ace_type == e.ace_type && entry_ace(e).flags == e.flags && entry_ace(e).body == entry_body(e),
        !has_guids(e.ace_type) ==> {
            &&& sid_at(entry_body(e), 4) == Some((e.sid, 4 + sid_bytes(e.sid).len() as int))
            &&& entry_body(e).subrange(4 + sid_bytes(e.sid).len() as int, entry_body(e).len() as int) == e.tail
        },
        has_guids(e.ace_type) ==> {
            let n = (if e.object is Some {
                1int
            } else {
                0
            }) + (if e.inherited is Some {
                2int
            } else {
                0
            });
            le32_at(entry_body(e), 4) == n
        },
{
    let b = entry_body(e);
    let w = le32(e.mask);
    assert(b.subrange(0, 4) =~= w);
    law_le32_reads_back(b, 0, e.mask);
    if !has_guids(e.ace_type) {
        law_sid_round_trip(w, e.sid, e.tail);
        assert(b =~= w + sid_bytes(e.sid) + e.tail);
        assert(b.subrange(4 + sid_bytes(e.sid).len() as int, b.len() as int) =~= e.tail);
    } else {
        let k = crate::security::sddl::entry::guid_flags(e);
        assert(b.subrange(4, 8) =~= le32(k));
        law_le32_reads_back(b, 4, k);
    }
}

/// The fields of an entry in text, in their order: type, flags, rights, object GUID, inherited
/// GUID, identifier, and what some types have behind them.
pub proof fn law_fields_of_an_entry(code: Seq<u8>, e: EntryView, tail: Seq<u8>)
    ensures
        ({
            let six = entry_fields(code, e, None);
            let seven = entry_fields(code, e, Some(tail));
            &&& six.len() == 6 && seven.len() == 7
            &&& six[0] == code
            &&& six[1] == flags_text(e.flags)
            &&& e.ace_type != 0x11 ==> six[2] == rights_text(e.mask)
            &&& e.ace_type == 0x11 ==> six[2] == label_text(e.mask)
            &&& e.object matches Some(g) ==> six[3] == guid_text(g)
            &&& e.object is None ==> six[3] == Seq::<u8>::empty()
            &&& e.inherited matches Some(g) ==> six[4] == guid_text(g)
            &&& e.inherited is None ==> six[4] == Seq::<u8>::empty()
            &&& six[5] == sid_field(e.sid)
            &&& seven == six.push(seq![0x28u8] + tail + seq![0x29u8])
        }),
{
}

/// Fields are joined with separators between them.
pub proof fn law_joined_fields(f: Seq<Seq<u8>>, x: Seq<u8>, sep: u8)
    ensures
        join(Seq::empty(), sep) == Seq::<u8>::empty(),
        join(seq![x], sep) == x,
        f.len() > 0 ==> join(f.push(x), sep) == join(f, sep) + seq![sep] + x,
{
    assert(f.push(x).drop_last() =~= f);
}

/// The text of an entry that can be told: its fields with semicolons between them, in brackets.
pub proof fn law_text_of_an_entry(a: AceRef, r: Result<Vec<u8>, SddlError>)
    requires
        call_ensures(format_ace, (&a,), r),
    ensures
        code_of_type(a.ace_type) is None ==> (r matches Err(e) && e@ == SddlErrorView::UnknownAceType(
            seq![0x30u8, 0x78u8] + hex_padded(a.ace_type as nat, 2),
        )),
        code_of_type(a.ace_type) is Some && entry_of(a@) is None ==> (r matches Err(e) && e@ == SddlErrorView::BadAce),
        r is Ok ==> a.flags & 0x20 == 0,
        r matches Ok(t) ==> ({
            let e = entry_of(a@)->Some_0;
            let six = entry_fields(code_of_type(a.ace_type)->Some_0, e, None);
            &&& entry_of(a@) is Some
            &&& e.tail.len() == 0 && a.ace_type != 0x12 ==> t@ == seq![0x28u8] + join(six, 0x3b) + seq![0x29u8]
        }),
{
    reveal(ace_text);
}

/// When an entry has text: its type has a code, its parts are there, its flags are known, and what
/// follows the identifier has text, which is then the last field, in brackets.
pub proof fn law_entries_that_have_text(a: AceRef, r: Result<Vec<u8>, SddlError>)
    requires
        call_ensures(format_ace, (&a,), r),
        code_of_type(a.ace_type) is Some,
        entry_of(a@) is Some,
    ensures
        ({
            let e = entry_of(a@)->Some_0;
            let code = code_of_type(a.ace_type)->Some_0;
            let tail = tail_text(a.ace_type, e.tail);
            &&& r is Ok <==> tail is Some && a.flags & 0x20 == 0
            &&& r matches Err(x) ==> x@ == SddlErrorView::BadAce
            &&& r matches Ok(t) ==> t@ == seq![0x28u8] + join(entry_fields(code, e, tail->Some_0), 0x3b) + seq![0x29u8]
        }),
{
    reveal(ace_text);
}

/// Reading an entry: each field gives its part, and nothing else does.
pub proof fn law_entries_in_text(s: &[u8], r: Result<AceBuilder, SddlError>)
    requires
        call_ensures(parse_ace, (s,), r),
    ensures
        r matches Ok(a) ==> {
            let f = split_top(s@, 0x3b);
            &&& f.len() == 6 || f.len() == 7
            &&& type_of_code(f[0]) == Some(a.ace_type)
            &&& flags_from(f[1], 0) == Some(a.flags)
            &&& rights_from(f[2], 0) == Some(le32_at(a.body@, 0))
            &&& sid_from_field(f[5]) is Ok
            &&& !has_guids(a.ace_type) ==> f[3].len() == 0 && f[4].len() == 0 && sid_at(a.body@, 4) is Some && sid_at(
                a.body@,
                4,
            )->Some_0.0 == sid_from_field(f[5])->Ok_0
            &&& has_guids(a.ace_type) && f[3].len() == 0 && f[4].len() == 0 ==> le32_at(a.body@, 4) == 0
            &&& has_guids(a.ace_type) && f[3].len() > 0 && f[4].len() == 0 ==> le32_at(a.body@, 4) == 1
            &&& has_guids(a.ace_type) && f[3].len() == 0 && f[4].len() > 0 ==> le32_at(a.body@, 4) == 2
            &&& has_guids(a.ace_type) && f[3].len() > 0 && f[4].len() > 0 ==> le32_at(a.body@, 4) == 3
        },
{
    reveal(ace_of_text);
    if let Ok(a) = r {
        let f = split_top(s@, 0x3b);
        let e = entry_of_fields(f)->Ok_0;
        lemma_entry_of_fields_wf(f);
        law_body_of_an_entry(e);
    }
}

proof fn lemma_entry_of_fields_wf(f: Seq<Seq<u8>>)
    requires
        entry_of_fields(f) is Ok,
    ensures
        entry_of_fields(f)->Ok_0.wf(),
{
    let e = entry_of_fields(f)->Ok_0;
    lemma_field_sid_wf(f[5]);
    if f[3].len() > 0 {
        assert(guid_from_text(f[3])->Some_0.len() == 16);
    }
    if f[4].len() > 0 {
        assert(guid_from_text(f[4])->Some_0.len() == 16);
    }
}

proof fn lemma_field_sid_wf(s: Seq<u8>)
    ensures
        sid_from_field(s) matches Ok(v) ==> v.wf(),
{
    let t = trimmed(s);
    if sid_from_text(t) is None && t.len() == 2 {
        let c = Code { first: capital(t[0]), second: capital(t[1]) };
        law_aliases_are_a_bijection(c, SidView { authority: 0, subs: Seq::empty() });
    }
}

/// Why an entry is refused: the first fault in the order of the fields.
pub proof fn law_entries_that_are_refused(f: Seq<Seq<u8>>)
    ensures
        f.len() < 6 ==> entry_of_fields(f) == Err::<EntryView, SddlErrorView>(
            SddlErrorView::WrongFieldCount(f.len() as usize),
        ),
        f.len() >= 6 && type_of_code(f[0]) is None ==> entry_of_fields(f) == Err::<EntryView, SddlErrorView>(
            SddlErrorView::UnknownAceType(f[0]),
        ),
        f.len() >= 6 ==> (type_of_code(f[0]) matches Some(t) ==> {
            &&& !count_fits(t, f.len()) ==> entry_of_fields(f) == Err::<EntryView, SddlErrorView>(
                SddlErrorView::WrongFieldCount(f.len() as usize),
            )
            &&& count_fits(t, f.len()) && flags_from(f[1], 0) is None ==> entry_of_fields(f) == Err::<
                EntryView,
                SddlErrorView,
            >(SddlErrorView::UnknownFlag(f[1]))
            &&& count_fits(t, f.len()) && flags_from(f[1], 0) is Some && rights_from(f[2], 0) is None ==> entry_of_fields(
                f,
            ) == Err::<EntryView, SddlErrorView>(SddlErrorView::UnknownRight(f[2]))
            &&& count_fits(t, f.len()) && flags_from(f[1], 0) is Some && rights_from(f[2], 0) is Some && !has_guids(t) && (
            f[3].len() > 0 || f[4].len() > 0) ==> entry_of_fields(f) == Err::<EntryView, SddlErrorView>(
                SddlErrorView::ObjectFieldsOnNonObjectAce(f[0]),
            )
        }),
{
}

/// The sections of a descriptor: `O` is the owner, `G` the group, `D` the access list, `S` the
/// audit list; none may come twice.
pub proof fn law_sections(m: SdModel, body: Seq<u8>)
    ensures
        sid_from_field(body) matches Ok(v) ==> {
            &&& m.owner is None ==> with_section(m, 0x4f, body) == Ok::<SdModel, SddlErrorView>(
                SdModel { owner: Some(v), group: m.group, dacl: m.dacl, sacl: m.sacl },
            )
            &&& m.group is None ==> with_section(m, 0x47, body) == Ok::<SdModel, SddlErrorView>(
                SdModel { owner: m.owner, group: Some(v), dacl: m.dacl, sacl: m.sacl },
            )
        },
        acl_of_text(body) matches Ok(a) ==> {
            &&& m.dacl is None ==> with_section(m, 0x44, body) == Ok::<SdModel, SddlErrorView>(
                SdModel { owner: m.owner, group: m.group, dacl: Some(a), sacl: m.sacl },
            )
            &&& m.sacl is None ==> with_section(m, 0x53, body) == Ok::<SdModel, SddlErrorView>(
                SdModel { owner: m.owner, group: m.group, dacl: m.dacl, sacl: Some(a) },
            )
        },
        m.owner is Some ==> with_section(m, 0x4f, body) == Err::<SdModel, SddlErrorView>(
            SddlErrorView::DuplicateSection('O'),
        ),
        m.group is Some ==> with_section(m, 0x47, body) == Err::<SdModel, SddlErrorView>(
            SddlErrorView::DuplicateSection('G'),
        ),
        m.dacl is Some ==> with_section(m, 0x44, body) == Err::<SdModel, SddlErrorView>(
            SddlErrorView::DuplicateSection('D'),
        ),
        m.sacl is Some ==> with_section(m, 0x53, body) == Err::<SdModel, SddlErrorView>(
            SddlErrorView::DuplicateSection('S'),
        ),
{
}

/// Sections one behind another: each is a letter and a colon, and goes up to the next outside
/// quotes and brackets.
pub proof fn law_sections_in_turn(s: Seq<u8>, p: int, m: SdModel)
    ensures
        sd_of_text(Seq::empty()) == Err::<SdModel, SddlErrorView>(SddlErrorView::Empty),
        s.len() > 0 ==> sd_of_text(s) == sections_from(
            s,
            0,
            (SdModel { owner: None, group: None, dacl: None, sacl: None }),
        ),
        p >= s.len() ==> sections_from(s, p, m) == Ok::<SdModel, SddlErrorView>(m),
        p < s.len() && !is_header(s, p) ==> sections_from(s, p, m) == Err::<SdModel, SddlErrorView>(
            SddlErrorView::Malformed,
        ),
        is_header(s, p) <==> 0 <= p && p + 1 < s.len() && s[p + 1] == 0x3a && (s[p] == 0x4f || s[p] == 0x47 || s[p] == 0x44
            || s[p] == 0x53),
        p < s.len() && is_header(s, p) ==> ({
            let q = header_from(s, p + 2, Place { depth: 0, quoted: false });
            p < q <= s.len() ==> sections_from(s, p, m) == (match with_section(m, s[p], s.subrange(p + 2, q)) {
                Ok(next) => sections_from(s, q, next),
                Err(e) => Err(e),
            })
        }),
{
    reveal(sections_from);
}

/// A list in text: its flags up to the first bracket, then its entries in brackets.
pub proof fn law_lists_in_text(s: Seq<u8>, p: int, acc: Seq<AceView>)
    ensures
        acl_of_text(s) matches Ok(a) ==> crate::security::sddl::grammar::acl_flags_from(
            s,
            0,
            open_from(s, 0),
            no_flags(),
        ) == Some(a.flags) && aces_from(s, open_from(s, 0), Seq::empty()) == Ok::<Seq<AceView>, SddlErrorView>(a.aces),
        !no_flags().protected && !no_flags().inherit_req && !no_flags().inherited,
        p >= s.len() ==> aces_from(s, p, acc) == Ok::<Seq<AceView>, SddlErrorView>(acc),
        p < s.len() && s[p] != 0x28 ==> aces_from(s, p, acc) == Err::<Seq<AceView>, SddlErrorView>(
            SddlErrorView::Malformed,
        ),
        p < s.len() && s[p] == 0x28 ==> (close_from(s, p + 1, top()) matches Some(q) ==> (p < q < s.len() ==> aces_from(
            s,
            p,
            acc,
        ) == (match ace_of_text(s.subrange(p + 1, q)) {
            Ok(a) => aces_from(s, q + 1, acc.push(a)),
            Err(e) => Err(e),
        }))),
        p < s.len() ==> (s[p] == 0x28 ==> open_from(s, p) == p) && (s[p] != 0x28 ==> open_from(s, p) == open_from(s, p + 1)),
{
    reveal(acl_of_text);
}

/// Quotes and brackets: what is inside them is passed over.
pub proof fn law_quotes_and_brackets(at: Place, c: u8)
    ensures
        at.quoted ==> pass(at, c).depth == at.depth && pass(at, c).quoted == (c != 0x22),
        !at.quoted && c == 0x22 ==> pass(at, c) == (Place { depth: at.depth, quoted: true }),
        !at.quoted && c == 0x28 ==> pass(at, c) == (Place { depth: at.depth + 1, quoted: false }),
        !at.quoted && c == 0x29 && at.depth > 0 ==> pass(at, c) == (Place { depth: (at.depth - 1) as nat, quoted: false }),
        !at.quoted && c != 0x22 && c != 0x28 && c != 0x29 ==> pass(at, c) == at,
{
}

/// The text of a descriptor: owner, group, access list, audit list.
pub proof fn law_text_of_a_descriptor(m: SdModel)
    ensures
        sd_text(m) matches Ok(t) ==> t == sid_section(0x4f, m.owner) + sid_section(0x47, m.group) + acl_section(
            0x44,
            m.dacl,
        )->Ok_0 + acl_section(0x53, m.sacl)->Ok_0,
        sd_text(m) is Ok <==> acl_section(0x44, m.dacl) is Ok && acl_section(0x53, m.sacl) is Ok,
        m.owner matches Some(v) ==> sid_section(0x4f, m.owner) == seq![0x4fu8, 0x3au8] + sid_field(v),
        m.owner is None ==> sid_section(0x4f, m.owner) == Seq::<u8>::empty(),
        m.group matches Some(v) ==> sid_section(0x47, m.group) == seq![0x47u8, 0x3au8] + sid_field(v),
        m.group is None ==> sid_section(0x47, m.group) == Seq::<u8>::empty(),
        m.dacl matches Some(a) ==> (aces_text(a.aces) matches Ok(t) ==> acl_section(0x44, m.dacl) == Ok::<
            Seq<u8>,
            SddlErrorView,
        >(seq![0x44u8, 0x3au8] + (acl_flags_text(a.flags) + t))),
        m.sacl matches Some(a) ==> (aces_text(a.aces) matches Ok(t) ==> acl_section(0x53, m.sacl) == Ok::<
            Seq<u8>,
            SddlErrorView,
        >(seq![0x53u8, 0x3au8] + (acl_flags_text(a.flags) + t))),
        m.dacl is None ==> acl_section(0x44, m.dacl) == Ok::<Seq<u8>, SddlErrorView>(Seq::empty()),
        m.sacl is None ==> acl_section(0x53, m.sacl) == Ok::<Seq<u8>, SddlErrorView>(Seq::empty()),
{
}

/// What a descriptor that was read is built from.
pub proof fn law_parsed_parts(s: &[u8], r: Result<SdBuilder, SddlError>)
    requires
        call_ensures(parse, (s,), r),
    ensures
        r matches Ok(b) ==> (sd_of_text(s@) matches Ok(m) && {
            &&& b@.owner == m.owner
            &&& b@.group == m.group
            &&& b@.dacl is Some <==> m.dacl is Some
            &&& b@.sacl is Some <==> m.sacl is Some
            &&& m.dacl matches Some(a) ==> b@.dacl == Some(a.aces)
            &&& m.sacl matches Some(a) ==> b@.sacl == Some(a.aces)
            &&& b.control == (match m.dacl {
                Some(a) => control_bits(AclKind::Dacl, a.flags),
                None => 0,
            }) | (match m.sacl {
                Some(a) => control_bits(AclKind::Sacl, a.flags),
                None => 0,
            })
        }),
        r matches Err(e) ==> sd_of_text(s@) == Err::<SdModel, SddlErrorView>(e@),
{
}

/// A list that was read on its own.
pub proof fn law_parsed_list(s: &[u8], d: Result<ParsedAcl, SddlError>, a: Result<ParsedAcl, SddlError>)
    requires
        call_ensures(parse_acl, (s, AclKind::Dacl), d),
        call_ensures(parse_acl, (s, AclKind::Sacl), a),
    ensures
        d is Ok <==> acl_of_text(s@) is Ok,
        a is Ok <==> acl_of_text(s@) is Ok,
        d matches Ok(x) ==> x.acl@ == acl_of_text(s@)->Ok_0.aces && x.control == control_bits(
            AclKind::Dacl,
            acl_of_text(s@)->Ok_0.flags,
        ),
        a matches Ok(x) ==> x.acl@ == acl_of_text(s@)->Ok_0.aces && x.control == control_bits(
            AclKind::Sacl,
            acl_of_text(s@)->Ok_0.flags,
        ),
{
}

/// The letters of the types of claims.
pub proof fn law_letters_of_claims(f: Seq<u8>)
    ensures
        type_letter(1) == 0x49 && type_of_text(seq![0x54u8, 0x49u8]) == Some(1u16),
        type_letter(2) == 0x55 && type_of_text(seq![0x54u8, 0x55u8]) == Some(2u16),
        type_letter(3) == 0x53 && type_of_text(seq![0x54u8, 0x53u8]) == Some(3u16),
        type_letter(5) == 0x44 && type_of_text(seq![0x54u8, 0x44u8]) == Some(5u16),
        type_letter(6) == 0x42 && type_of_text(seq![0x54u8, 0x42u8]) == Some(6u16),
        type_letter(0x10) == 0x58 && type_of_text(seq![0x54u8, 0x58u8]) == Some(0x10u16),
        type_of_text(f) is Some ==> f.len() == 2 && f[0] == 0x54,
{
}

/// The fields of a claim in text: the name in quotes, the type, the flags, the values.
pub proof fn law_fields_of_a_claim(c: ClaimView, i: int)
    ensures
        claim_text(c) == join(claim_fields(c), 0x2c),
        claim_fields(c).len() == 3 + c.values.len(),
        claim_fields(c)[0] == seq![0x22u8] + c.name + seq![0x22u8],
        claim_fields(c)[1] == seq![0x54u8, type_letter(c.value_type)],
        claim_fields(c)[2] == seq![0x30u8, 0x78u8] + hex(c.flags as nat),
        0 <= i < c.values.len() ==> claim_fields(c)[3 + i] == value_text(c.value_type, c.values[i]),
{
}

/// The values of claims in text, by their type.
pub proof fn law_values_of_claims(v: ClaimValueView)
    ensures
        value_text(1, v) == int_text(signed(v.scalar)),
        value_text(2, v) == decimal(v.scalar as nat),
        value_text(6, v) == decimal(v.scalar as nat),
        value_text(3, v) == seq![0x22u8] + v.bytes->Some_0 + seq![0x22u8],
        value_text(5, v) == seq![0x53u8, 0x49u8, 0x44u8, 0x28u8] + sid_field(
            crate::security::sid::sid_of(v.bytes->Some_0)->Some_0,
        ) + seq![0x29u8],
        value_text(0x10, v) == seq![0x23u8] + octet_text(v.bytes->Some_0),
{
}

/// Reading the values of claims, by their type.
pub proof fn law_values_of_claims_that_are_read(f: Seq<u8>)
    ensures
        int_of(f) matches Some(n) ==> value_of(1, f) == Some(ClaimValueView { scalar: bits_of(n), bytes: Some(Seq::empty()) }),
        number_upto(f, 10, 0xffff_ffff_ffff_ffff) matches Some(n) ==> {
            &&& value_of(2, f) == Some(ClaimValueView { scalar: n as u64, bytes: Some(Seq::empty()) })
            &&& n <= 1 ==> value_of(6, f) == Some(ClaimValueView { scalar: n as u64, bytes: Some(Seq::empty()) })
            &&& n > 1 ==> value_of(6, f) is None
        },
        unquoted(f) matches Some(b) ==> value_of(3, f) == Some(ClaimValueView { scalar: 0, bytes: Some(b) }),
        f.len() >= 1 && f[0] == 0x23 ==> (octets_of(f.subrange(1, f.len() as int)) matches Some(b) ==> value_of(0x10, f)
            == Some(ClaimValueView { scalar: 0, bytes: Some(b) })),
        unquoted(f) matches Some(b) ==> f == seq![0x22u8] + b + seq![0x22u8],
{
    if let Some(b) = unquoted(f) {
        assert(f =~= seq![0x22u8] + b + seq![0x22u8]);
    }
}

/// Reading a claim: each field gives its part.
pub proof fn law_claims_in_text(f: Seq<Seq<u8>>, i: int)
    ensures
        claim_of_fields(f) matches Some(c) ==> {
            &&& f.len() >= 3
            &&& unquoted(f[0]) == Some(c.name)
            &&& type_of_text(f[1]) == Some(c.value_type)
            &&& claim_flags_of(f[2]) == Some(c.flags)
            &&& c.values.len() == f.len() - 3
            &&& 0 <= i < c.values.len() ==> value_of(c.value_type, f[3 + i]) == Some(c.values[i])
        },
        f.len() < 3 ==> claim_of_fields(f) is None,
{
    if let Some(c) = claim_of_fields(f) {
        if 0 <= i < c.values.len() {
            let t = type_of_text(f[1])->Some_0;
            assert(value_of(t, f[i + 3]) is Some);
        }
    }
}

/// A word that is no number and no keyword is an attribute of the local source.
pub proof fn law_bare_words(t: Seq<TokenView>, p: int, w: Seq<u8>)
    requires
        0 <= p < t.len(),
        t[p] == TokenView::Word(w),
        !looks_numeric(w),
        keyword_of(w) is None,
    ensures
        operand_of(t, p) == Some((OperandView::Attr(Source::Local, w), p + 1)),
{
    reveal(operand_of);
}

} // verus!
