//! Small questions about descriptors, lists, entries and identifiers, and what they answer.

use vstd::prelude::*;
use vstd::utf8::{decode_utf8, valid_utf8};
use crate::abi::Emit;
use crate::bytes::{le16_at, le32, le32_at};
use crate::error::Errno;
use crate::security::codec::{acl_aces, AceRef, Acl, SecurityDescriptor, sd_dacl, sd_sacl, aces_at};
use crate::security::rules::{acl_sound, sd_sound};
use crate::security::sddl::builders::{AceBuilder, AclBuilder, SdBuilder};
use crate::security::sddl_ffi::{peios_sddl_format_condition, peios_sddl_format_sd};
use crate::security::sddl::cond::text_of_artx;
use crate::security::sddl::grammar::sd_format;
use crate::security::codec::sd_fault;
use crate::security::sid::{
    parse_authority, parse_sddl, sid_at, sid_from_text, sid_text, Sid, SidView, authority_from_text, law_sid_canonical,
};
use crate::security::text::{parse_u32_dec, parse_u64_radix, number_upto};
use crate::security::view::{
    peios_acl_parse, peios_acl_view, peios_acl_view_ace, peios_acl_view_count, peios_ace_view, peios_sd_parse,
    peios_sd_view, peios_sd_view_control, peios_sd_view_dacl, peios_sd_view_group, peios_sd_view_owner,
    peios_sd_view_sacl, peios_sid_array_count, peios_sid_array_get, peios_sid_array_parse, peios_sid_array_view,
    sid_array, sid_array_valid,
};
use crate::token::claims::{claim_encoding, encodable, peios_token_claim};
use crate::token::lcs::{guids_fit, layers_fit, lcs_encoding, peios_token_lcs_credentials};

use crate::msgpack::writer::{peios_mp_writer, peios_mp_writer_reset};
use crate::security::acl_builder::{peios_acl_builder, peios_acl_builder_reset};
use crate::security::codec::{acl_complete, ParseError};
use crate::security::sd_builder::{peios_sd_builder, peios_sd_builder_finish, peios_sd_builder_reset};
use crate::security::sddl::claims::value_printable;
use crate::security::sddl::cond::condition_of;
use crate::security::sddl::condition::{applied, from_artx, machine, operand_at, Condition, ItemView};
use crate::security::sddl::entry::are_flags_known;
use crate::security::sddl::inherit::reinherit;
use crate::security::sddl::tokens::{quotable, tokenize, views, Token};
use crate::security::sddl::Error;
use crate::security::sid::sid_valid;
use crate::token::builder::{
    directory_bytes, peios_token_flags, scalar_bytes, Directory, TokenScalars, TokenState,
};
use crate::token::claims::{
    claim_bytes, data_bytes, law_claim_header_reads_back, law_claim_value_reads_back, value_bytes, values_fit,
    ClaimValueView,
};
use crate::utf16::cstr16;

verus! {

/// Which bytes are taken as a descriptor, a list or an array of identifiers.
pub proof fn law_views_that_are_given(s: &[u8], d: Result<peios_sd_view, Errno>, a: Result<peios_acl_view, Errno>, l: Result<peios_sid_array_view, Errno>, valid: bool)
    requires
        call_ensures(peios_sd_parse, (Some(s),), d),
        call_ensures(peios_acl_parse, (Some(s),), a),
        call_ensures(peios_sid_array_parse, (Some(s),), l),
        call_ensures(sid_array_valid, (s,), valid),
    ensures
        d is Ok <==> sd_sound(s@),
        a is Ok <==> acl_sound(s@),
        l is Ok <==> sid_array(s@) is Some,
        valid <==> sid_array(s@) is Some,
        d matches Ok(v) ==> v.bytes@ == s@,
        a matches Ok(v) ==> v.bytes@ == s@,
        l matches Ok(v) ==> v.bytes@ == s@,
        d matches Err(e) ==> e == Errno::Inval,
        a matches Err(e) ==> e == Errno::Inval,
        l matches Err(e) ==> e == Errno::Inval,
{
}

/// Looking into a descriptor.
pub proof fn law_looking_into_a_descriptor(v: peios_sd_view, c: u16, o: Option<&[u8]>, g: Option<&[u8]>, d: Option<peios_acl_view>, s: Option<peios_acl_view>)
    requires
        v.wf(),
        call_ensures(peios_sd_view_control, (&v,), c),
        call_ensures(peios_sd_view_owner, (&v,), o),
        call_ensures(peios_sd_view_group, (&v,), g),
        call_ensures(peios_sd_view_dacl, (&v,), d),
        call_ensures(peios_sd_view_sacl, (&v,), s),
    ensures
        ({
            let b = v.bytes@;
            &&& c == le16_at(b, 2)
            &&& o is None <==> le32_at(b, 4) == 0
            &&& g is None <==> le32_at(b, 8) == 0
            &&& s is None <==> le32_at(b, 12) == 0
            &&& d is None <==> le32_at(b, 16) == 0
            &&& o matches Some(x) ==> x@ == b.subrange(le32_at(b, 4) as int, sid_at(b, le32_at(b, 4) as int)->Some_0.1)
            &&& g matches Some(x) ==> x@ == b.subrange(le32_at(b, 8) as int, sid_at(b, le32_at(b, 8) as int)->Some_0.1)
            &&& s matches Some(x) ==> x.bytes@ == b.subrange(
                le32_at(b, 12) as int,
                le32_at(b, 12) + le16_at(b, le32_at(b, 12) + 2),
            )
            &&& d matches Some(x) ==> x.bytes@ == b.subrange(
                le32_at(b, 16) as int,
                le32_at(b, 16) + le16_at(b, le32_at(b, 16) + 2),
            )
        }),
{
    let b = v.bytes@;
    if le32_at(b, 4) != 0 {
        law_sid_canonical(b, le32_at(b, 4) as int);
    }
    if le32_at(b, 8) != 0 {
        law_sid_canonical(b, le32_at(b, 8) as int);
    }
}

/// Looking into a list.
pub proof fn law_looking_into_a_list(a: peios_acl_view, n: u32, i: u32, r: Result<peios_ace_view, Errno>)
    requires
        a.wf(),
        call_ensures(peios_acl_view_count, (&a,), n),
        call_ensures(peios_acl_view_ace, (&a, i), r),
    ensures
        n == le16_at(a.bytes@, 4),
        r is Ok <==> i < n,
        r matches Err(e) ==> e == Errno::Range,
        r matches Ok(v) ==> v.ace@ == acl_aces(a.bytes@)[i as int],
{
}

/// Looking into an array of identifiers.
pub proof fn law_looking_into_an_array(a: peios_sid_array_view, n: u32, i: u32, r: Result<(&[u8], u32), Errno>)
    requires
        a.wf(),
        call_ensures(peios_sid_array_count, (&a,), n),
        call_ensures(peios_sid_array_get, (&a, i), r),
    ensures
        n == sid_array(a.bytes@)->Some_0.len(),
        r is Ok <==> i < n,
        r matches Err(e) ==> e == Errno::Range,
        r matches Ok((sid, attrs)) ==> sid_array(a.bytes@)->Some_0[i as int] == (sid@, attrs),
{
}

/// The lists of a descriptor that was read.
pub proof fn law_lists_of_a_descriptor<'a>(sd: SecurityDescriptor<'a>, d: Result<Option<Acl<'a>>, crate::security::codec::ParseError>, s: Result<Option<Acl<'a>>, crate::security::codec::ParseError>)
    requires
        sd.wf(),
        call_ensures(SecurityDescriptor::dacl, (&sd,), d),
        call_ensures(SecurityDescriptor::sacl, (&sd,), s),
    ensures
        d is Ok <==> sd_dacl(sd.bytes@) is Ok,
        s is Ok <==> sd_sacl(sd.bytes@) is Ok,
        d matches Ok(Some(a)) ==> sd_dacl(sd.bytes@)->Ok_0 == Some(a.bytes@),
        s matches Ok(Some(a)) ==> sd_sacl(sd.bytes@)->Ok_0 == Some(a.bytes@),
        d matches Ok(None) ==> sd_dacl(sd.bytes@)->Ok_0 is None,
        s matches Ok(None) ==> sd_sacl(sd.bytes@)->Ok_0 is None,
        d matches Err(e) ==> sd_dacl(sd.bytes@)->Err_0 == e,
        s matches Err(e) ==> sd_sacl(sd.bytes@)->Err_0 == e,
{
}

/// The entries of a list that was read.
pub proof fn law_entries_of_a_list_that_was_read<'a>(acl: Acl<'a>, out: Vec<AceRef<'a>>, i: int)
    requires
        acl.wf(),
        call_ensures(Acl::aces, (&acl,), out),
    ensures
        out@.len() == aces_at(acl.bytes@, 8, acl.ace_count as nat).len(),
        0 <= i < out@.len() ==> out@[i]@ == aces_at(acl.bytes@, 8, acl.ace_count as nat)[i],
{
    if 0 <= i < out@.len() {
        assert(crate::security::codec::ace_views(out@)[i] == out@[i]@);
    }
}

/// Identifiers as values.
pub proof fn law_identifiers_as_values(authority: u64, subs: Vec<u32>, a: Sid, b: Sid, same: bool, c: Sid, wf: bool, revision: u8)
    requires
        call_ensures(Sid::new, (revision, authority, subs), a),
        call_ensures(Sid::same, (&a, &b), same),
        call_ensures(Sid::copy, (&a,), c),
        call_ensures(Sid::is_wf, (&a,), wf),
    ensures
        a.revision == revision && a.authority == authority && a.sub_authorities@ == subs@,
        same <==> a.authority == b.authority && a.sub_authorities@ == b.sub_authorities@,
        c.revision == a.revision && c.authority == a.authority && c.sub_authorities@ == a.sub_authorities@,
        wf <==> authority < 0x1_0000_0000_0000 && subs@.len() <= 15,
{
}

/// Identifiers and their text.
pub proof fn law_identifiers_and_text(a: Sid, t: Vec<u8>, s: &[u8], r: Option<Sid>, v: Option<u64>)
    requires
        call_ensures(Sid::to_text, (&a,), t),
        call_ensures(parse_sddl, (s,), r),
        call_ensures(parse_authority, (s,), v),
    ensures
        t@ == sid_text(SidView { authority: a.authority, subs: a.sub_authorities@ }),
        r is Some <==> sid_from_text(s@) is Some,
        r matches Some(x) ==> sid_from_text(s@) == Some(SidView { authority: x.authority, subs: x.sub_authorities@ }),
        v is Some <==> authority_from_text(s@) is Some,
        v matches Some(x) ==> authority_from_text(s@) == Some(x as nat),
{
}

/// Numbers from text.
pub proof fn law_numbers_from_text(s: &[u8], d: Option<u64>, h: Option<u64>, w: Option<u32>)
    requires
        call_ensures(parse_u64_radix, (s, 10u64), d),
        call_ensures(parse_u64_radix, (s, 16u64), h),
        call_ensures(parse_u32_dec, (s,), w),
    ensures
        d is Some <==> number_upto(s@, 10, 0xffff_ffff_ffff_ffff) is Some,
        h is Some <==> number_upto(s@, 16, 0xffff_ffff_ffff_ffff) is Some,
        w is Some <==> number_upto(s@, 10, 0xffff_ffff) is Some,
        d matches Some(x) ==> number_upto(s@, 10, 0xffff_ffff_ffff_ffff) == Some(x as nat),
        h matches Some(x) ==> number_upto(s@, 16, 0xffff_ffff_ffff_ffff) == Some(x as nat),
        w matches Some(x) ==> number_upto(s@, 10, 0xffff_ffff) == Some(x as nat),
{
}

/// Entries and lists under construction.
pub proof fn law_entries_under_construction(a: AceBuilder, flags: u8, b: AceBuilder, r: AceRef, c: AceBuilder, l: AclBuilder, m: AclBuilder, n: AclBuilder, empty: bool)
    requires
        call_ensures(AceBuilder::flags, (a, flags), b),
        call_ensures(AceBuilder::from_ace_ref, (&r,), c),
        call_ensures(AclBuilder::ace, (l, a), m),
        call_ensures(AclBuilder::new, (), n),
        call_ensures(AclBuilder::is_empty, (&l,), empty),
    ensures
        b.flags == flags && b.ace_type == a.ace_type && b.body@ == a.body@,
        c.flags == r.flags && c.ace_type == r.ace_type && c.body@ == r.body@,
        m@ == l@.push(a@),
        n@.len() == 0,
        empty <==> l@.len() == 0,
{
    assert(b@.flags == flags && b@.ace_type == a.ace_type && b@.body == a.body@);
    assert(c@.flags == r@.flags && c@.ace_type == r@.ace_type && c@.body == r@.body);
}

/// The owner and the group of a descriptor under construction.
pub proof fn law_owner_and_group(b: SdBuilder, sid: Sid, o: SdBuilder, g: SdBuilder, n: SdBuilder)
    requires
        b.wf(),
        sid.wf(),
        call_ensures(SdBuilder::owner, (b, sid), o),
        call_ensures(SdBuilder::group, (b, sid), g),
        call_ensures(SdBuilder::new, (), n),
    ensures
        o@.owner == Some(sid@) && o@.group == b@.group && o@.dacl == b@.dacl && o@.sacl == b@.sacl && o.control == b.control,
        g@.group == Some(sid@) && g@.owner == b@.owner && g@.dacl == b@.dacl && g@.sacl == b@.sacl && g.control == b.control,
        n@.owner is None && n@.group is None && n@.dacl is None && n@.sacl is None && n.control == 0,
{
    assert(o@.control == b@.control);
    assert(g@.control == b@.control);
    assert(n@.control == 0);
}

/// Descriptors and conditions as text at the boundary.
pub proof fn law_as_text_at_the_boundary(s: &[u8], d: Result<Vec<u8>, Errno>, c: Result<Vec<u8>, Errno>)
    requires
        call_ensures(peios_sddl_format_sd, (Some(s),), d),
        call_ensures(peios_sddl_format_condition, (Some(s),), c),
    ensures
        d is Ok <==> sd_fault(s@) is None && sd_format(s@) is Ok,
        d matches Ok(t) ==> sd_format(s@)->Ok_0 == t@,
        c is Ok <==> text_of_artx(s@) is Some,
        c matches Ok(t) ==> text_of_artx(s@) == Some(t@),
        d matches Err(e) ==> e == Errno::Inval,
        c matches Err(e) ==> e == Errno::Inval,
{
    reveal(crate::security::sddl_ffi::string_of);
}

/// When success is owed: claims whose parts are all there and fit, and credentials whose parts do.
pub proof fn law_what_is_encoded(c: peios_token_claim, l: peios_token_lcs_credentials)
    requires
        c.wf(),
        l.wf(),
    ensures
        c.name matches Some(n) ==> (n@.len() < 65536 && encodable(n@, c.value_type, c.value_seq()) && (c.value_count == 0
            || c.values is Some) ==> claim_encoding(c) is Some),
        l.scope_count <= 256 && l.private_layer_count <= 256 && (l.scope_count == 0 || l.scope_guids is Some) && (
        l.private_layer_count == 0 || l.private_layers is Some) && guids_fit(l.guids()) && layers_fit(l.layers())
            ==> lcs_encoding(l) is Some,
{
}

/// The bytes of a value of a claim, by its type, and which values have none.
pub proof fn law_bytes_of_claim_values(v: ClaimValueView)
    ensures
        v.bytes is None ==> value_bytes(3, v) is None && value_bytes(5, v) is None && value_bytes(0x10, v) is None,
        v.bytes matches Some(b) ==> {
            &&& valid_utf8(b) && !decode_utf8(b).contains('\0') ==> value_bytes(3, v) == Some(cstr16(b))
            &&& !valid_utf8(b) || decode_utf8(b).contains('\0') ==> value_bytes(3, v) is None
            &&& sid_valid(b) ==> value_bytes(5, v) == Some(b)
            &&& !sid_valid(b) ==> value_bytes(5, v) is None
            &&& b.len() <= 0xffff_ffff ==> value_bytes(0x10, v) == Some(le32(b.len() as u32) + b)
            &&& b.len() > 0xffff_ffff ==> value_bytes(0x10, v) is None
        },
{
}

/// Which values fit: all numbers, and of the others those that have bytes.
pub proof fn law_values_that_fit(t: u16, vals: Seq<ClaimValueView>)
    ensures
        t == 1 || t == 2 || t == 6 ==> values_fit(t, vals),
        t == 3 || t == 5 || t == 0x10 ==> (values_fit(t, vals) <==> forall|i: int|
            0 <= i < vals.len() ==> value_bytes(t, #[trigger] vals[i]) is Some),
{
}

/// The bytes of a claim: the header, where each value is, the values or where their bytes are, these
/// bytes, the name.
pub proof fn law_layout_of_claims(name: Seq<u8>, t: u16, flags: u32, vals: Seq<ClaimValueView>, v: ClaimValueView, i: int)
    requires
        encodable(name, t, vals),
        0 <= i < vals.len(),
    ensures
        ({
            let s = claim_bytes(name, t, flags, vals);
            let n = vals.len() as int;
            let slot = le32_at(s, 16 + 4 * i);
            &&& le16_at(s, 6) == 0
            &&& t == 1 || t == 2 || t == 6 ==> slot == 16 + 4 * n + 8 * i && le32_at(s, 0) == 16 + 12 * n
            &&& t == 3 || t == 5 || t == 0x10 ==> slot == 16 + 4 * n + 4 * i && le32_at(s, slot as int) == 16 + 8 * n
                + data_bytes(t, vals.take(i)).len() && le32_at(s, 0) == 16 + 8 * n + data_bytes(t, vals).len()
        }),
        t == 3 || t == 5 || t == 0x10 ==> data_bytes(t, vals.push(v)) == data_bytes(t, vals) + value_bytes(t, v)->Some_0,
        data_bytes(t, Seq::empty()) == Seq::<u8>::empty(),
{
    law_claim_header_reads_back(name, t, flags, vals);
    law_claim_value_reads_back(name, t, flags, vals, i);
    assert(vals.push(v).drop_last() =~= vals);
}

/// Which claims have text: names and text without quotes, truth values that are 0 or 1,
/// identifiers that are ones.
pub proof fn law_claims_that_have_text(t: u16, v: ClaimValueView)
    ensures
        v.bytes == Some(Seq::<u8>::empty()) ==> value_printable(1, v) && value_printable(2, v) && (value_printable(6, v)
            <==> v.scalar <= 1),
        v.scalar == 0 ==> (v.bytes matches Some(b) ==> {
            &&& value_printable(3, v) <==> quotable(b)
            &&& value_printable(5, v) <==> sid_valid(b)
            &&& value_printable(0x10, v)
        }),
{
}

/// The flags that have text: all but bit 5.
pub proof fn law_flags_that_have_text(f: u8, r: bool)
    requires
        call_ensures(are_flags_known, (f,), r),
    ensures
        r <==> f & 0x20 == 0,
{
}

/// Lists whose entries are not all there are refused when inheritance is derived anew.
pub proof fn law_incomplete_lists_are_refused(parent: &[u8], child: &[u8], container: bool, r: Result<Vec<u8>, Error>)
    requires
        call_ensures(reinherit, (parent, child, container), r),
        sd_fault(parent@) is None,
        sd_fault(child@) is None,
        le16_at(parent@, 2) & 0x8000 != 0,
        le16_at(child@, 2) & 0x8000 != 0,
        sd_dacl(parent@) is Ok,
    ensures
        sd_dacl(child@) matches Err(e) ==> r == Err::<Vec<u8>, Error>(Error::Parse(e)),
        sd_dacl(child@) matches Ok(Some(b)) ==> (!acl_complete(b) ==> r == Err::<Vec<u8>, Error>(
            Error::Parse(ParseError::AceMalformed),
        )),
        sd_dacl(child@) == Ok::<Option<Seq<u8>>, ParseError>(None) ==> {
            &&& sd_sacl(child@) matches Err(e) ==> r == Err::<Vec<u8>, Error>(Error::Parse(e))
            &&& sd_sacl(child@) matches Ok(Some(b)) ==> (!acl_complete(b) ==> r == Err::<Vec<u8>, Error>(
                Error::Parse(ParseError::AceMalformed),
            ))
        },
{
}

/// Bytecode begins with its mark, and each operator is known.
pub proof fn law_bytecode_that_is_refused(s: Seq<u8>, p: int, st: Seq<ItemView>)
    ensures
        s.len() < 4 ==> from_artx(s) is None,
        s.len() >= 4 && !(s[0] == 0x61 && s[1] == 0x72 && s[2] == 0x74 && s[3] == 0x78) ==> from_artx(s) is None,
        s.len() >= 4 && s[0] == 0x61 && s[1] == 0x72 && s[2] == 0x74 && s[3] == 0x78 ==> from_artx(s) == machine(
            s,
            4,
            Seq::empty(),
        ),
        0 <= p < s.len() && 0x80 <= s[p] <= 0xf7 ==> (match applied(st, s[p]) {
            Some(next) => machine(s, p, st) == machine(s, p + 1, next),
            None => machine(s, p, st) is None,
        }),
        0 <= p < s.len() && (0 < s[p] < 0x80 || s[p] >= 0xf8) ==> (operand_at(s, p) matches Some((o, q)) ==> (q > p ==> machine(
            s,
            p,
            st,
        ) == machine(s, q, st.push(ItemView::Value(o))))),
{
    reveal(machine);
    if s.len() >= 4 {
        if s[0] == 0x61 && s[1] == 0x72 && s[2] == 0x74 && s[3] == 0x78 {
            assert(s.take(4) =~= seq![0x61u8, 0x72u8, 0x74u8, 0x78u8]);
        } else {
            assert(s.take(4)[0] == s[0] && s.take(4)[1] == s[1] && s.take(4)[2] == s[2] && s.take(4)[3] == s[3]);
        }
    }
}

/// From text to an expression: tokens first.
pub proof fn law_expressions_from_text(s: &[u8], r: Option<Condition>, ts: Option<Vec<Token>>)
    requires
        call_ensures(crate::security::sddl::cond::parse, (s,), r),
        call_ensures(tokenize, (s,), ts),
    ensures
        ts is None ==> r is None,
        ts matches Some(t) ==> (condition_of(views(t@)) matches Some(c) ==> r matches Some(x) && x@ == c),
        ts matches Some(t) ==> (condition_of(views(t@)) is None ==> r is None),
{
}

/// The parts of a description that are always zero.
pub proof fn law_zeros_of_a_token(st: TokenState)
    ensures
        ({
            let s = st.bytes();
            &&& s[6] == 0 && s[7] == 0
            &&& s[32] == 0 && s[33] == 0 && s[34] == 0 && s[35] == 0
            &&& forall|k: int| 148 <= k < 156 ==> s[k] == 0
            &&& forall|k: int| 168 <= k < 188 ==> s[k] == 0
        }),
{
    lemma_token_zeros(st.scalars);
    lemma_directory_zeros(st.directory(), st.scalars.flags);
    let f = scalar_bytes(st.scalars);
    let d = directory_bytes(st.directory(), st.scalars.flags);
    let s = st.bytes();
    assert(s[6] == f[6] && s[7] == f[7] && s[32] == f[32] && s[33] == f[33] && s[34] == f[34] && s[35] == f[35]);
    assert forall|k: int| 148 <= k < 156 implies s[k] == 0 by {
        assert(s[k] == d[k - 88]);
    }
    assert forall|k: int| 168 <= k < 188 implies s[k] == 0 by {
        assert(s[k] == d[k - 88]);
    }
}

#[verifier::spinoff_prover]
#[verifier::rlimit(60)]
proof fn lemma_token_zeros(c: TokenScalars)
    ensures
        ({
            let f = scalar_bytes(c);
            &&& f.len() == 88
            &&& f[6] == 0 && f[7] == 0
            &&& f[32] == 0 && f[33] == 0 && f[34] == 0 && f[35] == 0
        }),
{
}

#[verifier::spinoff_prover]
#[verifier::rlimit(60)]
proof fn lemma_directory_zeros(d: Directory, f: peios_token_flags)
    ensures
        ({
            let s = directory_bytes(d, f);
            &&& s.len() == 104
            &&& forall|k: int| 60 <= k < 68 ==> s[k] == 0
            &&& forall|k: int| 80 <= k < 100 ==> s[k] == 0
        }),
{
}

/// Handing out a descriptor into room of a size.
pub proof fn law_descriptor_finish(b: &mut peios_sd_builder, cap: usize, null: bool, r: Result<(Emit, &[u8]), Errno>)
    requires
        old(b).wf(),
        call_ensures(peios_sd_builder_finish, (b, cap, null), r),
    ensures
        ({
            let st = old(b).state();
            &&& st.error matches Some(e) ==> r == Err::<(Emit, &[u8]), Errno>(e)
            &&& st.error is None && st.len() > 65535 ==> r == Err::<(Emit, &[u8]), Errno>(Errno::Inval)
            &&& st.error is None && st.len() <= 65535 && cap == 0 ==> (r matches Ok((Emit::Probe, s)) && s@ == st.bytes())
            &&& st.error is None && st.len() <= 65535 && cap > 0 && null ==> r == Err::<(Emit, &[u8]), Errno>(Errno::Inval)
            &&& st.error is None && st.len() <= 65535 && cap > 0 && !null && st.bytes().len() > cap ==> r == Err::<
                (Emit, &[u8]),
                Errno,
            >(Errno::Range)
            &&& st.error is None && st.len() <= 65535 && cap > 0 && !null && st.bytes().len() <= cap ==> (r matches Ok(
                (Emit::Write, s),
            ) && s@ == st.bytes())
        }),
{
}

/// Starting over.
pub proof fn law_starting_over_with_a_list(b: &mut peios_acl_builder)
    requires
        call_ensures(peios_acl_builder_reset, (b,), ()),
    ensures
        final(b).list@.len() == 0 && final(b).error is None,
{
}

/// Starting over.
pub proof fn law_starting_over_with_a_descriptor(b: &mut peios_sd_builder)
    requires
        call_ensures(peios_sd_builder_reset, (b,), ()),
    ensures
        ({
            let st = final(b).state();
            st.owner is None && st.group is None && st.dacl is None && st.sacl is None && st.control == 0 && st.error is None
        }),
{
}

/// Starting over.
pub proof fn law_starting_over_with_a_payload(w: &mut peios_mp_writer)
    requires
        call_ensures(peios_mp_writer_reset, (w,), ()),
    ensures
        final(w).buf@.len() == 0 && final(w).error is None,
{
}

} // verus!
