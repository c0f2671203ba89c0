//! The small steps that larger calls are made of.

use vstd::prelude::*;
use vstd::utf8::valid_utf8;
use crate::bytes::{
    be16, be16_at, be32, be32_at, be64, be64_at, law_be16_reads_back, law_be32_reads_back, law_be64_reads_back,
    law_le16_reads_back, law_le32_reads_back, law_le64_reads_back, le16, le16_at, le32, le32_at, le64, le64_at, put_be16,
    put_be32, put_be64, put_le16, put_le32, put_le64, put_slice, same_bytes,
};
use crate::error::Errno;
use crate::event::consume::{
    must_sleep, peios_event_reader, peios_event_reader_lost, peios_event_ring, ring_page_valid,
};
use crate::event::emit::entries_to_emit;
use crate::laws::text_codes::text_if;
use crate::msgpack::cursor::{signed8, Cursor};
use crate::msgpack::model::{head, skip_end, MpHead};
use crate::msgpack::writer::{peios_mp_writer, peios_mp_writer_error, peios_mp_writer_new};
use crate::security::acl_builder::{integrity_sid, peios_acl_builder, peios_acl_builder_error};
use crate::security::sd_builder::{peios_sd_builder, peios_sd_builder_error};
use crate::security::sddl::builders::encode_opt_sid;
use crate::security::sddl::claims::{
    claim_from, claim_from_text, claim_printable, claim_tail, claim_tail_text, claim_text, format_claim_tail,
    is_claim_printable, parse_claim, parse_claim_tail, put_claim, read_claim, Claim,
};
use crate::security::sddl::cond::{is_printable, printable};
use crate::security::sddl::condition::{from_bits, put_fill, to_bits, Condition, Source};
use crate::security::sddl::entry::{parse_rights, Entry};
use crate::security::sddl::fields::{
    label_text, put_flags, put_label, put_rights, read_rights, rights_from, rights_text,
};
use crate::security::sddl::names::{
    guid_from_text, guid_text, put_guid, put_sid, read_guid, sid_field, trim, trimmed,
};
use crate::security::sddl::scan::{
    close_from, find_close, find_header, header_from, header_here, is_header, split_outside, split_top, Place, Scan,
};
use crate::security::sddl::tokens::{
    is_name_byte, is_quotable, name_byte, quotable, render, render_tokens, views, Token,
};
use crate::security::sddl::vocab::{
    ace_flag_format_order, alias_from_sid, alias_of_sid, put_code, right_order, rights_format_order, sid_from_alias,
    sid_of_alias, Code,
};
use crate::security::sddl::wellknown::WellKnownSid;
use crate::security::sddl::words::{
    attribute_of, int_of, int_text, octet_text, octets_of, put_int, put_octets, put_source, read_attribute, read_int,
    read_octets, source_text,
};
use crate::security::sddl::{SddlError, SddlErrorView};
use crate::security::sid::{law_sid_round_trip, sid_bytes, sid_of, Sid, SidView};
use crate::security::text::{
    decimal, digit_value, hex, hex_padded, put_decimal, put_hex, put_hex_padded, split, split_fields,
};
use crate::token::actions::{pack_restrict, packed_sids};
use crate::token::builder::{peios_token_builder, peios_token_builder_error, peios_token_builder_reset};
use crate::token::message::{
    cmsg_align, cmsg_bytes, cmsg_len, cmsg_space, cmsgs_at, fds_to_send, parse_control, push_cmsg, CmsgView, ParsedCmsg,
};
use crate::token::ops::encode_session_spec;
use crate::security::sid::le32s;

verus! {

/// A word behind what is there.
pub proof fn law_put_le16(out: &mut Vec<u8>, v: u16)
    requires
        call_ensures(put_le16, (out, v), ()),
    ensures
        final(out)@.len() == old(out)@.len() + 2,
        final(out)@.take(old(out)@.len() as int) == old(out)@,
        le16_at(final(out)@, old(out)@.len() as int) == v,
{
    let s = final(out)@;
    let at = old(out)@.len() as int;
    assert(s.take(at) =~= old(out)@);
    assert(s.subrange(at, at + 2) =~= le16(v));
    law_le16_reads_back(s, at, v);
}

/// A word behind what is there.
pub proof fn law_put_le32(out: &mut Vec<u8>, v: u32)
    requires
        call_ensures(put_le32, (out, v), ()),
    ensures
        final(out)@.len() == old(out)@.len() + 4,
        final(out)@.take(old(out)@.len() as int) == old(out)@,
        le32_at(final(out)@, old(out)@.len() as int) == v,
{
    let s = final(out)@;
    let at = old(out)@.len() as int;
    assert(s.take(at) =~= old(out)@);
    assert(s.subrange(at, at + 4) =~= le32(v));
    law_le32_reads_back(s, at, v);
}

/// A word behind what is there.
pub proof fn law_put_le64(out: &mut Vec<u8>, v: u64)
    requires
        call_ensures(put_le64, (out, v), ()),
    ensures
        final(out)@.len() == old(out)@.len() + 8,
        final(out)@.take(old(out)@.len() as int) == old(out)@,
        le64_at(final(out)@, old(out)@.len() as int) == v,
{
    let s = final(out)@;
    let at = old(out)@.len() as int;
    assert(s.take(at) =~= old(out)@);
    assert(s.subrange(at, at + 8) =~= le64(v));
    law_le64_reads_back(s, at, v);
}

/// A word behind what is there.
pub proof fn law_put_be16(out: &mut Vec<u8>, v: u16)
    requires
        call_ensures(put_be16, (out, v), ()),
    ensures
        final(out)@.len() == old(out)@.len() + 2,
        final(out)@.take(old(out)@.len() as int) == old(out)@,
        be16_at(final(out)@, old(out)@.len() as int) == v,
{
    let s = final(out)@;
    let at = old(out)@.len() as int;
    assert(s.take(at) =~= old(out)@);
    assert(s.subrange(at, at + 2) =~= be16(v));
    law_be16_reads_back(s, at, v);
}

/// A word behind what is there.
pub proof fn law_put_be32(out: &mut Vec<u8>, v: u32)
    requires
        call_ensures(put_be32, (out, v), ()),
    ensures
        final(out)@.len() == old(out)@.len() + 4,
        final(out)@.take(old(out)@.len() as int) == old(out)@,
        be32_at(final(out)@, old(out)@.len() as int) == v,
{
    let s = final(out)@;
    let at = old(out)@.len() as int;
    assert(s.take(at) =~= old(out)@);
    assert(s.subrange(at, at + 4) =~= be32(v));
    law_be32_reads_back(s, at, v);
}

/// A word behind what is there.
pub proof fn law_put_be64(out: &mut Vec<u8>, v: u64)
    requires
        call_ensures(put_be64, (out, v), ()),
    ensures
        final(out)@.len() == old(out)@.len() + 8,
        final(out)@.take(old(out)@.len() as int) == old(out)@,
        be64_at(final(out)@, old(out)@.len() as int) == v,
{
    let s = final(out)@;
    let at = old(out)@.len() as int;
    assert(s.take(at) =~= old(out)@);
    assert(s.subrange(at, at + 8) =~= be64(v));
    law_be64_reads_back(s, at, v);
}

/// Bytes behind what is there, and equality.
pub proof fn law_put_bytes(out: &mut Vec<u8>, s: &[u8], t: &[u8], same: bool)
    requires
        call_ensures(put_slice, (out, s), ()),
        call_ensures(same_bytes, (s, t), same),
    ensures
        final(out)@ == old(out)@ + s@,
        same <==> s@ =~= t@,
{
}

/// Rings.
pub proof fn law_small_things_about_rings(m: &[u8], v: u32, p: u64, em: &[u8], ev: u32, c: u64, r: Result<(), Errno>, ring: peios_event_ring, w: u64, sleep: bool, e: peios_event_reader, lost: u64, none: u64, count: u32, max: u32, n: usize)
    requires
        call_ensures(ring_page_valid, (m, v, p, em, ev, c), r),
        call_ensures(peios_event_ring::unmapped, (), ring),
        call_ensures(must_sleep, (w, p), sleep),
        call_ensures(peios_event_reader_lost, (Some(&e),), lost),
        call_ensures(peios_event_reader_lost, (None::<&peios_event_reader>,), none),
        call_ensures(entries_to_emit, (count, max), n),
    ensures
        r is Ok <==> m@ == em@ && v == ev && p == c,
        r matches Err(x) ==> x == Errno::Inval,
        ring._opaque@ == seq![0u64, 0, 0, 0],
        sleep <==> w == p,
        lost == e.lost,
        none == 0,
        count <= max ==> n == count,
        count > max ==> n == 0,
{
}

/// Numbers with a sign as bits.
pub proof fn law_bits(v: i64, u: u64, a: u64, b: i64)
    requires
        call_ensures(to_bits, (v,), a),
        call_ensures(from_bits, (u,), b),
    ensures
        v >= 0 ==> a == v,
        v < 0 ==> a == v + 0x1_0000_0000_0000_0000,
        u < 0x8000_0000_0000_0000 ==> b == u,
        u >= 0x8000_0000_0000_0000 ==> b == u - 0x1_0000_0000_0000_0000,
{
}

/// Zeros up to a multiple of four.
pub proof fn law_fill(out: &mut Vec<u8>)
    requires
        call_ensures(put_fill, (out,), ()),
    ensures
        final(out)@.len() % 4 == 0,
        old(out)@.len() <= final(out)@.len() < old(out)@.len() + 4,
        final(out)@.take(old(out)@.len() as int) == old(out)@,
        forall|i: int| old(out)@.len() <= i < final(out)@.len() ==> final(out)@[i] == 0,
{
    assert(final(out)@.take(old(out)@.len() as int) =~= old(out)@);
}

/// Flags behind what is there: each bit that is set as its code.
pub proof fn law_put_flags(out: &mut Vec<u8>, f: u8)
    requires
        call_ensures(put_flags, (out, f), ()),
    ensures
        final(out)@ == old(out)@ + (text_if(f & 0x02 != 0, seq![0x43u8, 0x49u8]) + (text_if(f & 0x01 != 0, seq![0x4fu8, 0x49u8]) + (
        text_if(f & 0x04 != 0, seq![0x4eu8, 0x50u8]) + (text_if(f & 0x08 != 0, seq![0x49u8, 0x4fu8]) + (text_if(
            f & 0x10 != 0,
            seq![0x49u8, 0x44u8],
        ) + (text_if(f & 0x40 != 0, seq![0x53u8, 0x41u8]) + text_if(f & 0x80 != 0, seq![0x46u8, 0x41u8]))))))),
{
    crate::laws::text_codes::law_flags_that_are_written(f);
}

/// The order of the codes.
pub proof fn law_orders(f: [(Code, u8); 7], r: [(Code, u32); 15])
    requires
        call_ensures(ace_flag_format_order, (), f),
        call_ensures(rights_format_order, (), r),
    ensures
        f@ == seq![
            (Code { first: 0x43u8, second: 0x49u8 }, 0x02u8),
            (Code { first: 0x4fu8, second: 0x49u8 }, 0x01u8),
            (Code { first: 0x4eu8, second: 0x50u8 }, 0x04u8),
            (Code { first: 0x49u8, second: 0x4fu8 }, 0x08u8),
            (Code { first: 0x49u8, second: 0x44u8 }, 0x10u8),
            (Code { first: 0x53u8, second: 0x41u8 }, 0x40u8),
            (Code { first: 0x46u8, second: 0x41u8 }, 0x80u8),
        ],
        r@ == right_order(),
{
}

/// Rights behind what is there.
pub proof fn law_put_rights(out: &mut Vec<u8>, mask: u32)
    requires
        call_ensures(put_rights, (out, mask), ()),
    ensures
        final(out)@ == old(out)@ + rights_text(mask),
{
}

/// The policy of a label behind what is there.
pub proof fn law_put_label(out: &mut Vec<u8>, mask: u32)
    requires
        call_ensures(put_label, (out, mask), ()),
    ensures
        final(out)@ == old(out)@ + label_text(mask),
{
}

/// A GUID behind what is there.
pub proof fn law_put_guid(out: &mut Vec<u8>, g: &[u8])
    requires
        g@.len() == 16,
        call_ensures(put_guid, (out, g), ()),
    ensures
        final(out)@ == old(out)@ + guid_text(g@),
{
}

/// An identifier behind what is there.
pub proof fn law_put_sid(out: &mut Vec<u8>, sid: &Sid)
    requires
        sid.wf(),
        call_ensures(put_sid, (out, sid), ()),
    ensures
        final(out)@ == old(out)@ + sid_field(sid@),
{
}

/// A code behind what is there.
pub proof fn law_put_code(out: &mut Vec<u8>, c: Code)
    requires
        call_ensures(put_code, (out, c), ()),
    ensures
        final(out)@ == old(out)@ + seq![c.first, c.second],
{
}

/// A decimal number behind what is there.
pub proof fn law_put_decimal(out: &mut Vec<u8>, n: u64)
    requires
        call_ensures(put_decimal, (out, n), ()),
    ensures
        final(out)@ == old(out)@ + decimal(n as nat),
{
}

/// A hexadecimal number behind what is there.
pub proof fn law_put_hex(out: &mut Vec<u8>, n: u64)
    requires
        call_ensures(put_hex, (out, n), ()),
    ensures
        final(out)@ == old(out)@ + hex(n as nat),
{
}

/// A claim behind what is there.
pub proof fn law_put_claim(out: &mut Vec<u8>, c: &Claim)
    requires
        claim_printable(c@),
        call_ensures(put_claim, (out, c), ()),
    ensures
        final(out)@ == old(out)@ + claim_text(c@),
{
}

/// A hexadecimal number of a width behind what is there.
pub proof fn law_put_hex_padded(out: &mut Vec<u8>, n: u64, width: u32)
    requires
        call_ensures(put_hex_padded, (out, n, width), ()),
    ensures
        final(out)@ == old(out)@ + hex_padded(n as nat, width as nat),
{
}

/// Rights from text.
pub proof fn law_rights_from_text(s: &[u8], a: Option<u32>, b: Result<u32, SddlError>)
    requires
        call_ensures(read_rights, (s,), a),
        call_ensures(parse_rights, (s,), b),
    ensures
        a == rights_from(s@, 0),
        a matches Some(m) ==> b == Ok::<u32, SddlError>(m),
        a is None ==> (b matches Err(e) && e@ == SddlErrorView::UnknownRight(s@)),
{
}

/// GUIDs, space and identifiers in text.
pub proof fn law_small_text(s: &[u8], g: Option<Vec<u8>>, t: &[u8], n: bool, c: u8, q: bool)
    requires
        call_ensures(read_guid, (s,), g),
        call_ensures(trim, (s,), t),
        call_ensures(is_name_byte, (c,), n),
        call_ensures(is_quotable, (s,), q),
    ensures
        g is Some <==> guid_from_text(s@) is Some,
        g matches Some(x) ==> guid_from_text(s@) == Some(x@),
        t@ == trimmed(s@),
        n == name_byte(c),
        q <==> !s@.contains(0x22),
{
    if !quotable(s@) {
        let i = choose|i: int| 0 <= i < s@.len() && s@[i] == 0x22;
        assert(s@[i] == 0x22);
    }
}

/// Scanning text.
pub proof fn law_scanning(s: &[u8], p: usize, c: Option<usize>, h: usize, here: bool, a: Scan, x: u8, b: Scan, is_top: bool)
    requires
        p <= s@.len(),
        a.depth < usize::MAX,
        call_ensures(find_close, (s, p), c),
        call_ensures(find_header, (s, p), h),
        call_ensures(header_here, (s, p), here),
        call_ensures(Scan::pass, (a, x), b),
        call_ensures(Scan::is_top, (a,), is_top),
    ensures
        c is Some <==> close_from(s@, p as int, Place { depth: 0, quoted: false }) is Some,
        c matches Some(q) ==> close_from(s@, p as int, Place { depth: 0, quoted: false }) == Some(q as int),
        h == header_from(s@, p as int, Place { depth: 0, quoted: false }),
        here == is_header(s@, p as int),
        is_top <==> a.depth == 0 && !a.quoted,
        a.quoted ==> b.depth == a.depth && b.quoted == (x != 0x22),
        !a.quoted && x == 0x22 ==> b.depth == a.depth && b.quoted,
        !a.quoted && x == 0x28 ==> b.depth == a.depth + 1 && !b.quoted,
        !a.quoted && x == 0x29 && a.depth > 0 ==> b.depth == a.depth - 1 && !b.quoted,
        !a.quoted && x != 0x22 && x != 0x28 && x != 0x29 ==> b.depth == a.depth && !b.quoted,
{
    assert(b.at().depth == b.depth && b.at().quoted == b.quoted);
    assert(a.at().depth == a.depth && a.at().quoted == a.quoted);
}

/// Fields of text.
pub proof fn law_fields_that_are_split(s: &[u8], sep: u8, a: Vec<Vec<u8>>, b: Vec<Vec<u8>>, i: int)
    requires
        call_ensures(split_fields, (s, sep), a),
        call_ensures(split_outside, (s, sep), b),
    ensures
        a@.len() == split(s@, sep).len(),
        b@.len() == split_top(s@, sep).len(),
        0 <= i < a@.len() ==> a@[i]@ == split(s@, sep)[i],
        0 <= i < b@.len() ==> b@[i]@ == split_top(s@, sep)[i],
{
}

/// Names and identifiers.
pub proof fn law_names_and_identifiers(c: Code, a: Option<Sid>, sid: Sid, b: Option<Code>, k: WellKnownSid, w: Sid, same: bool)
    requires
        sid.wf(),
        call_ensures(sid_from_alias, (c,), a),
        call_ensures(alias_from_sid, (&sid,), b),
        call_ensures(WellKnownSid::to_sid, (k,), w),
        call_ensures(WellKnownSid::matches, (k, &sid), same),
    ensures
        a is Some <==> sid_of_alias(c) is Some,
        a matches Some(x) ==> sid_of_alias(c) == Some(x@),
        b == alias_of_sid(sid@),
        w@ == k.sid(),
        same <==> sid@ == k.sid(),
{
}

/// Words of expressions as text.
pub proof fn law_words_as_text(v: i64, i: Vec<u8>, b: &[u8], o: Vec<u8>, x: Source, t: Vec<u8>, ts: Vec<Token>, r: Vec<u8>)
    requires
        call_ensures(put_int, (v,), i),
        call_ensures(put_octets, (b,), o),
        call_ensures(put_source, (x,), t),
        call_ensures(render_tokens, (&ts,), r),
    ensures
        i@ == int_text(v),
        o@ == octet_text(b@),
        t@ == source_text(x),
        r@ == render(views(ts@)),
{
}

/// Words of expressions from text.
pub proof fn law_words_from_text(w: &[u8], i: Option<i64>, o: Option<Vec<u8>>, a: Option<(Source, Vec<u8>)>, c: u8, d: Option<u64>, h: Option<u64>)
    requires
        call_ensures(read_int, (w,), i),
        call_ensures(read_octets, (w,), o),
        call_ensures(read_attribute, (w,), a),
        call_ensures(digit_value, (c, 10u64), d),
        call_ensures(digit_value, (c, 16u64), h),
    ensures
        i == int_of(w@),
        o is Some <==> octets_of(w@) is Some,
        o matches Some(x) ==> octets_of(w@) == Some(x@),
        a is Some <==> attribute_of(w@) is Some,
        a matches Some((s, n)) ==> attribute_of(w@) == Some((s, n@)),
        d is Some <==> 0x30 <= c <= 0x39,
        d matches Some(x) ==> x == c - 0x30,
        h is Some <==> (0x30 <= c <= 0x39) || (0x61 <= c <= 0x66) || (0x41 <= c <= 0x46),
        h matches Some(x) ==> (0x30 <= c <= 0x39 ==> x == c - 0x30) && (0x61 <= c <= 0x66 ==> x == c - 0x61 + 10) && (0x41
            <= c <= 0x46 ==> x == c - 0x41 + 10),
{
}

/// Claims from text and bytes, and back.
pub proof fn law_claim_calls(s: &[u8], r: Option<Claim>, p: Option<Claim>, t: Option<Vec<u8>>, f: Option<Vec<u8>>, c: Claim, ok: bool, d: Condition, pd: bool)
    requires
        call_ensures(read_claim, (s,), r),
        call_ensures(parse_claim, (s,), p),
        call_ensures(parse_claim_tail, (s,), t),
        call_ensures(format_claim_tail, (s,), f),
        call_ensures(is_claim_printable, (&c,), ok),
        call_ensures(is_printable, (&d,), pd),
    ensures
        r is Some <==> claim_from(s@) is Some,
        r matches Some(x) ==> claim_from(s@) == Some(x@),
        p is Some <==> claim_from_text(s@) is Some,
        p matches Some(x) ==> claim_from_text(s@) == Some(x@),
        t is Some <==> claim_tail(s@) is Some,
        t matches Some(x) ==> claim_tail(s@) == Some(x@),
        f is Some <==> claim_tail_text(s@) is Some,
        f matches Some(x) ==> claim_tail_text(s@) == Some(x@),
        ok == claim_printable(c@),
        pd == printable(d@),
{
}

/// Bodies, identifiers and descriptors that are put together.
pub proof fn law_put_together(e: Entry, out: Vec<u8>, rid: u32, i: Vec<u8>, s: Option<Sid>, o: Option<Vec<u8>>)
    requires
        e.sid.wf(),
        s matches Some(x) ==> x.wf(),
        call_ensures(Entry::body, (&e,), out),
        call_ensures(integrity_sid, (rid,), i),
        call_ensures(encode_opt_sid, (&s,), o),
    ensures
        out@ == crate::security::sddl::entry::entry_body(e@),
        sid_of(i@) == Some(SidView { authority: 16, subs: seq![rid] }),
        o is Some <==> s is Some,
        s matches Some(x) ==> (o matches Some(b) && b@ == sid_bytes(x@)),
{
    let v = SidView { authority: 16, subs: seq![rid] };
    law_sid_round_trip(Seq::empty(), v, Seq::empty());
    assert(Seq::<u8>::empty() + sid_bytes(v) + Seq::<u8>::empty() =~= sid_bytes(v));
}

/// Control messages: rounded up to eight bytes, behind sixteen bytes of header.
pub proof fn law_room_of_control_messages(n: usize, a: usize, s: usize, l: usize, fds: u32, m: usize)
    requires
        n <= 0xffff_0000,
        call_ensures(cmsg_align, (n,), a),
        call_ensures(cmsg_space, (n,), s),
        call_ensures(cmsg_len, (n,), l),
        call_ensures(fds_to_send, (fds,), m),
    ensures
        a % 8 == 0 && n <= a < n + 8,
        s == 16 + a,
        l == 16 + n,
        fds <= 253 ==> m == fds,
        fds > 253 ==> m == 0,
{
}

/// A control message behind what is there.
pub proof fn law_push_control_message(buf: &mut Vec<u8>, level: i32, kind: i32, data: &[u8])
    requires
        data@.len() <= 0xffff_0000,
        call_ensures(push_cmsg, (buf, level, kind, data), ()),
    ensures
        final(buf)@ == old(buf)@ + cmsg_bytes(CmsgView { level, kind, data: data@ }),
{
}

/// The control messages of a buffer.
pub proof fn law_control_messages_of_a_buffer<'a>(buf: &'a [u8], r: Vec<ParsedCmsg<'a>>, i: int)
    requires
        call_ensures(parse_control, (buf,), r),
    ensures
        r@.len() == cmsgs_at(buf@, 0).len(),
        0 <= i < r@.len() ==> r@[i]@ == cmsgs_at(buf@, 0)[i],
{
    if 0 <= i < r@.len() {
        assert(crate::token::message::cmsg_views(r@)[i] == r@[i]@);
    }
}

/// Starting over with a description.
pub proof fn law_starting_over_with_a_token(b: &mut peios_token_builder)
    requires
        call_ensures(peios_token_builder_reset, (b,), ()),
    ensures
        final(b).error is None,
        final(b).state().user_sid is None && final(b).state().groups.len() == 0 && final(b).state().supp_gids.len() == 0,
        final(b).scalars.session_id == 0 && final(b).scalars.token_type == 0 && final(b).scalars.privs_enabled == 0,
{
}

/// The errors that are held.
pub proof fn law_errors_that_are_held(t: peios_token_builder, a: peios_acl_builder, d: peios_sd_builder, w: peios_mp_writer, n: peios_mp_writer, te: Option<Errno>, ae: Option<Errno>, de: Option<Errno>, we: Option<Errno>, z: Option<Errno>)
    requires
        call_ensures(peios_token_builder_error, (Some(&t),), te),
        call_ensures(peios_token_builder_error, (None::<&peios_token_builder>,), z),
        call_ensures(peios_acl_builder_error, (&a,), ae),
        call_ensures(peios_sd_builder_error, (&d,), de),
        call_ensures(peios_mp_writer_error, (&w,), we),
        call_ensures(peios_mp_writer_new, (), n),
    ensures
        te == t.error && ae == a.error && de == d.error && we == w.error,
        z == Some(Errno::Inval),
        n.buf@.len() == 0 && n.error is None,
{
}

/// Restrictions without gaps.
pub proof fn law_packed_restrictions(deny: &[u32], sids: &[Option<&[u8]>], r: Option<Vec<u8>>)
    requires
        call_ensures(pack_restrict, (deny, sids), r),
    ensures
        r matches Some(p) ==> p@ == le32s(deny@) + packed_sids(sids@),
        r is Some <==> forall|i: int| 0 <= i < sids@.len() ==> (#[trigger] sids@[i]) is Some,
{
}

/// Sessions of up to 4096 bytes.
pub proof fn law_session_sizes(t: u8, a: &[u8], u: &[u8], r: Result<Vec<u8>, Errno>)
    requires
        call_ensures(encode_session_spec, (t, a, u), r),
    ensures
        r is Ok <==> 7 + a@.len() + u@.len() <= 4096,
        r matches Err(e) ==> e == Errno::Inval,
        r matches Ok(b) ==> b@.len() == 7 + a@.len() + u@.len() && b@[0] == t,
{
}

/// Bytes and signs at a cursor.
pub proof fn law_bytes_at_a_cursor(c: Cursor, b: Option<u8>, v: u8, s: i8)
    requires
        c.wf(),
        call_ensures(Cursor::peek_byte, (&c,), b),
        call_ensures(signed8, (v,), s),
    ensures
        c.pos < c.buf@.len() ==> b == Some(c.buf@[c.pos as int]),
        c.pos >= c.buf@.len() ==> b is None,
        v < 128 ==> s == v,
        v >= 128 ==> s == v - 256,
{
}

/// Reading an absence.
pub proof fn law_cursor_read_nil<'a>(c: &mut Cursor<'a>, r: Result<(), ()>)
    requires
        old(c).wf(),
        call_ensures(Cursor::read_nil, (c,), r),
    ensures
        ({
            let here = head(old(c).buf@, old(c).pos as int);
            &&& r is Ok <==> (here matches Some((MpHead::Nil, _)))
            &&& r matches Ok(v) ==> true
            &&& r is Ok ==> final(c).buf == old(c).buf && final(c).pos == here->Some_0.1
            &&& r is Err ==> *final(c) == *old(c)
        }),
{
}

/// Reading a truth value.
pub proof fn law_cursor_read_bool<'a>(c: &mut Cursor<'a>, r: Result<bool, ()>)
    requires
        old(c).wf(),
        call_ensures(Cursor::read_bool, (c,), r),
    ensures
        ({
            let here = head(old(c).buf@, old(c).pos as int);
            &&& r is Ok <==> (here matches Some((MpHead::Bool(_), _)))
            &&& r matches Ok(v) ==> here->Some_0.0 == MpHead::Bool(v)
            &&& r is Ok ==> final(c).buf == old(c).buf && final(c).pos == here->Some_0.1
            &&& r is Err ==> *final(c) == *old(c)
        }),
{
}

/// Reading a number with a sign.
pub proof fn law_cursor_read_i64<'a>(c: &mut Cursor<'a>, r: Result<i64, ()>)
    requires
        old(c).wf(),
        call_ensures(Cursor::read_i64, (c,), r),
    ensures
        ({
            let here = head(old(c).buf@, old(c).pos as int);
            &&& r is Ok <==> (here matches Some((MpHead::Int(x), _)) && -0x8000_0000_0000_0000 <= x <= 0x7fff_ffff_ffff_ffff)
            &&& r matches Ok(v) ==> here->Some_0.0 == MpHead::Int(v as int)
            &&& r is Ok ==> final(c).buf == old(c).buf && final(c).pos == here->Some_0.1
            &&& r is Err ==> *final(c) == *old(c)
        }),
{
}

/// Reading a number without a sign.
pub proof fn law_cursor_read_u64<'a>(c: &mut Cursor<'a>, r: Result<u64, ()>)
    requires
        old(c).wf(),
        call_ensures(Cursor::read_u64, (c,), r),
    ensures
        ({
            let here = head(old(c).buf@, old(c).pos as int);
            &&& r is Ok <==> (here matches Some((MpHead::Int(x), _)) && 0 <= x <= 0xffff_ffff_ffff_ffff)
            &&& r matches Ok(v) ==> here->Some_0.0 == MpHead::Int(v as int)
            &&& r is Ok ==> final(c).buf == old(c).buf && final(c).pos == here->Some_0.1
            &&& r is Err ==> *final(c) == *old(c)
        }),
{
}

/// Reading text.
pub proof fn law_cursor_read_str<'a>(c: &mut Cursor<'a>, r: Result<&'a [u8], ()>)
    requires
        old(c).wf(),
        call_ensures(Cursor::read_str, (c,), r),
    ensures
        ({
            let here = head(old(c).buf@, old(c).pos as int);
            &&& r is Ok <==> (here matches Some((MpHead::Str(t), _)) && valid_utf8(t))
            &&& r matches Ok(v) ==> here->Some_0.0 == MpHead::Str(v@)
            &&& r is Ok ==> final(c).buf == old(c).buf && final(c).pos == here->Some_0.1
            &&& r is Err ==> *final(c) == *old(c)
        }),
{
}

/// Reading bytes.
pub proof fn law_cursor_read_bin<'a>(c: &mut Cursor<'a>, r: Result<&'a [u8], ()>)
    requires
        old(c).wf(),
        call_ensures(Cursor::read_bin, (c,), r),
    ensures
        ({
            let here = head(old(c).buf@, old(c).pos as int);
            &&& r is Ok <==> (here matches Some((MpHead::Bin(_), _)))
            &&& r matches Ok(v) ==> here->Some_0.0 == MpHead::Bin(v@)
            &&& r is Ok ==> final(c).buf == old(c).buf && final(c).pos == here->Some_0.1
            &&& r is Err ==> *final(c) == *old(c)
        }),
{
}

/// Reading the length of a list.
pub proof fn law_cursor_read_array<'a>(c: &mut Cursor<'a>, r: Result<u32, ()>)
    requires
        old(c).wf(),
        call_ensures(Cursor::read_array, (c,), r),
    ensures
        ({
            let here = head(old(c).buf@, old(c).pos as int);
            &&& r is Ok <==> (here matches Some((MpHead::ArrayOf(_), _)))
            &&& r matches Ok(v) ==> here->Some_0.0 == MpHead::ArrayOf(v as nat)
            &&& r is Ok ==> final(c).buf == old(c).buf && final(c).pos == here->Some_0.1
            &&& r is Err ==> *final(c) == *old(c)
        }),
{
}

/// Reading the length of a map.
pub proof fn law_cursor_read_map<'a>(c: &mut Cursor<'a>, r: Result<u32, ()>)
    requires
        old(c).wf(),
        call_ensures(Cursor::read_map, (c,), r),
    ensures
        ({
            let here = head(old(c).buf@, old(c).pos as int);
            &&& r is Ok <==> (here matches Some((MpHead::MapOf(_), _)))
            &&& r matches Ok(v) ==> here->Some_0.0 == MpHead::MapOf(v as nat)
            &&& r is Ok ==> final(c).buf == old(c).buf && final(c).pos == here->Some_0.1
            &&& r is Err ==> *final(c) == *old(c)
        }),
{
}

/// Reading an extension.
pub proof fn law_cursor_read_ext<'a>(c: &mut Cursor<'a>, r: Result<(i8, &'a [u8]), ()>)
    requires
        old(c).wf(),
        call_ensures(Cursor::read_ext, (c,), r),
    ensures
        ({
            let here = head(old(c).buf@, old(c).pos as int);
            &&& r is Ok <==> (here matches Some((MpHead::Ext(_, _), _)))
            &&& r matches Ok(v) ==> here->Some_0.0 == MpHead::Ext(v.0 as int, v.1@)
            &&& r is Ok ==> final(c).buf == old(c).buf && final(c).pos == here->Some_0.1
            &&& r is Err ==> *final(c) == *old(c)
        }),
{
}

/// Passing over a value.
pub proof fn law_cursor_skip(c: &mut Cursor, r: Result<(), ()>)
    requires
        old(c).wf(),
        call_ensures(Cursor::skip, (c,), r),
    ensures
        r is Ok <==> skip_end(old(c).buf@, old(c).pos as int, 1) is Some,
        r is Ok ==> final(c).buf == old(c).buf && skip_end(old(c).buf@, old(c).pos as int, 1) == Some(final(c).pos as int),
        r is Err ==> *final(c) == *old(c),
{
}

/// A word at a cursor, its highest byte first.
pub proof fn law_cursor_word16(c: &mut Cursor, r: Option<u16>)
    requires
        old(c).wf(),
        call_ensures(Cursor::be_u16, (c,), r),
    ensures
        r is Some <==> old(c).pos + 2 <= old(c).buf@.len(),
        r matches Some(v) ==> v == be16_at(old(c).buf@, old(c).pos as int) && final(c).pos == old(c).pos + 2,
        r is None ==> final(c).pos == old(c).pos,
        final(c).buf == old(c).buf,
{
}

/// A word at a cursor, its highest byte first.
pub proof fn law_cursor_word32(c: &mut Cursor, r: Option<u32>)
    requires
        old(c).wf(),
        call_ensures(Cursor::be_u32, (c,), r),
    ensures
        r is Some <==> old(c).pos + 4 <= old(c).buf@.len(),
        r matches Some(v) ==> v == be32_at(old(c).buf@, old(c).pos as int) && final(c).pos == old(c).pos + 4,
        r is None ==> final(c).pos == old(c).pos,
        final(c).buf == old(c).buf,
{
}

/// A word at a cursor, its highest byte first.
pub proof fn law_cursor_word64(c: &mut Cursor, r: Option<u64>)
    requires
        old(c).wf(),
        call_ensures(Cursor::be_u64, (c,), r),
    ensures
        r is Some <==> old(c).pos + 8 <= old(c).buf@.len(),
        r matches Some(v) ==> v == be64_at(old(c).buf@, old(c).pos as int) && final(c).pos == old(c).pos + 8,
        r is None ==> final(c).pos == old(c).pos,
        final(c).buf == old(c).buf,
{
}

} // verus!
