//! The text and the bytes of a resource attribute tell the attribute.

use vstd::prelude::*;
use crate::bytes::{law_le32_reads_back, le16_at, le32, le32_at, le64_at};
use crate::security::rules::{
    claim_type_known, claim_type_scalar, CLAIM_TYPE_BOOLEAN, CLAIM_TYPE_INT64, CLAIM_TYPE_OCTET, CLAIM_TYPE_SID,
    CLAIM_TYPE_STRING, CLAIM_TYPE_UINT64,
};
use crate::security::sddl::claims::{
    claim_entry, claim_fields, claim_flags_of, claim_from, claim_from_text, claim_of_fields, claim_printable,
    claim_tail, claim_tail_text, claim_text, nul_from, quoted, sid_open, text_at, type_letter, type_of_text, unquoted,
    value_in, value_of, value_printable, value_text, ClaimView,
};
use crate::security::sddl::condition::{bits_of, filled, signed};
use crate::security::sddl::fields::lemma_word_plain;
use crate::security::sddl::names::{law_sid_field_round_trip, sid_field};
use crate::security::sddl::scan::{
    balanced, clean, law_split_undoes_join, lemma_enclosed_clean, lemma_plain_clean, lemma_quoted_clean,
    lemma_run_append, lemma_run_plain, run, split_top, top,
};
use crate::security::sddl::tokens::{all_name, name_byte, quotable};
use crate::security::sddl::words::{law_int_reads_back, law_octets_read_back, octet_text};
use crate::security::sid::{law_sid_canonical, law_sid_round_trip, sid_at, sid_bytes, sid_of};
use crate::security::text::{decimal, hex, is_lower_hex, law_decimal_reads_back, law_hex_reads_back, number_upto};
use crate::token::claims::{
    law_claim_header_reads_back, law_claim_value_reads_back, slot_place, value_bytes, ClaimValueView,
};
use crate::utf16::{cstr16, law_terminator_is_last, law_utf8_through_16, lemma_text16_even, stringable, text16};

verus! {

proof fn lemma_signed_bits(u: u64)
    ensures
        bits_of(signed(u)) == u,
{
}

/// Quoted text is told from its quotation.
proof fn lemma_quoted(s: Seq<u8>)
    requires
        quotable(s),
    ensures
        unquoted(quoted(s)) == Some(s),
        clean(quoted(s), 0x2c),
{
    let f = quoted(s);
    assert(f.subrange(1, f.len() - 1) =~= s);
    lemma_quoted_clean(s, 0x2c);
}

/// A row of letters, digits and the like is a field.
proof fn lemma_name_clean(f: Seq<u8>)
    requires
        all_name(f),
    ensures
        clean(f, 0x2c),
{
    assert forall|i: int| 0 <= i < f.len() implies (#[trigger] f[i]) != 0x22 && f[i] != 0x28 && f[i] != 0x29 by {
        assert(name_byte(f[i]));
    }
    assert forall|i: int| 0 <= i < f.len() implies (#[trigger] f[i]) != 0x2c by {
        assert(name_byte(f[i]));
    }
    lemma_plain_clean(f, 0x2c);
}

/// Digits are a field.
proof fn lemma_decimal_field(n: u64)
    ensures
        number_upto(decimal(n as nat), 10, u64::MAX as nat) == Some(n as nat),
        clean(decimal(n as nat), 0x2c),
{
    let f = decimal(n as nat);
    law_decimal_reads_back(n as nat);
    assert forall|i: int| 0 <= i < f.len() implies name_byte(#[trigger] f[i]) by {
        assert(0x30 <= decimal(n as nat)[i] <= 0x39);
    }
    lemma_name_clean(f);
}

/// Flags are told from their text.
proof fn lemma_flags(flags: u32)
    ensures
        claim_flags_of(seq![0x30u8, 0x78u8] + hex(flags as nat)) == Some(flags),
        clean(seq![0x30u8, 0x78u8] + hex(flags as nat), 0x2c),
{
    let h = hex(flags as nat);
    let f = seq![0x30u8, 0x78u8] + h;
    law_hex_reads_back(flags as nat);
    assert(f.subrange(2, f.len() as int) =~= h);
    assert forall|i: int| 0 <= i < f.len() implies name_byte(#[trigger] f[i]) by {
        if i >= 2 {
            assert(f[i] == h[i - 2]);
            assert(is_lower_hex(h[i - 2]));
        }
    }
    lemma_name_clean(f);
}

/// A SID is told from its text in parentheses.
proof fn lemma_sid_value(b: Seq<u8>)
    requires
        sid_of(b) is Some,
    ensures
        value_of(CLAIM_TYPE_SID, sid_open() + sid_field(sid_of(b)->Some_0) + seq![0x29u8]) == Some(
            ClaimValueView { scalar: 0, bytes: Some(b) },
        ),
        clean(sid_open() + sid_field(sid_of(b)->Some_0) + seq![0x29u8], 0x2c),
{
    let v = sid_of(b)->Some_0;
    let w = sid_field(v);
    let f = sid_open() + w + seq![0x29u8];
    law_sid_canonical(b, 0);
    assert(b.subrange(0, b.len() as int) =~= b);
    law_sid_field_round_trip(v);
    assert(f.take(4) =~= sid_open());
    assert(f.subrange(4, f.len() - 1) =~= w);
    lemma_word_plain(w);
    lemma_run_plain(top(), w);
    lemma_prefixed_clean(w);
}

/// `SID(` and `)` around balanced text make one field.
proof fn lemma_prefixed_clean(w: Seq<u8>)
    requires
        balanced(w),
    ensures
        clean(sid_open() + w + seq![0x29u8], 0x2c),
{
    let word = seq![0x53u8, 0x49u8, 0x44u8];
    let rest = seq![0x28u8] + w + seq![0x29u8];
    let f = sid_open() + w + seq![0x29u8];
    assert(f =~= word + rest);
    lemma_enclosed_clean(w, 0x2c);
    assert(all_name(word));
    lemma_name_clean(word);
    lemma_clean_append(word, rest, 0x2c);
}

/// Two fields without a separator between them are one.
proof fn lemma_clean_append(a: Seq<u8>, b: Seq<u8>, sep: u8)
    requires
        balanced(a),
        run(top(), b) is Some,
        split_top(a, sep).len() == 1,
        split_top(b, sep).len() == 1,
    ensures
        split_top(a + b, sep).len() == 1,
        run(top(), a + b) == run(top(), b),
    decreases b.len(),
{
    lemma_run_append(top(), a, b);
    if b.len() == 0 {
        assert(a + b =~= a);
    } else {
        let c = b.drop_last();
        crate::security::sddl::scan::lemma_split_some(c, sep);
        lemma_clean_append(a, c, sep);
        assert((a + b).drop_last() =~= a + c);
        assert((a + b).last() == b.last());
        crate::security::sddl::scan::lemma_run_passed(a + c);
        crate::security::sddl::scan::lemma_run_passed(c);
    }
}

/// A value is told from its text.
proof fn lemma_value(t: u16, v: ClaimValueView)
    requires
        claim_type_known(t),
        value_printable(t, v),
    ensures
        value_of(t, value_text(t, v)) == Some(v),
        clean(value_text(t, v), 0x2c),
{
    let f = value_text(t, v);
    if t == CLAIM_TYPE_INT64 {
        lemma_signed_bits(v.scalar);
        law_int_reads_back(signed(v.scalar));
        lemma_name_clean(f);
    } else if t == CLAIM_TYPE_UINT64 || t == CLAIM_TYPE_BOOLEAN {
        lemma_decimal_field(v.scalar);
    } else if t == CLAIM_TYPE_STRING {
        lemma_quoted(v.bytes->Some_0);
    } else if t == CLAIM_TYPE_SID {
        lemma_sid_value(v.bytes->Some_0);
    } else {
        let b = v.bytes->Some_0;
        law_octets_read_back(b);
        assert(f.subrange(1, f.len() as int) =~= octet_text(b));
        assert forall|i: int| 0 <= i < f.len() implies (#[trigger] f[i]) != 0x22 && f[i] != 0x28 && f[i] != 0x29 by {
            if i > 0 {
                assert(f[i] == octet_text(b)[i - 1]);
                assert(name_byte(octet_text(b)[i - 1]));
            }
        }
        assert forall|i: int| 0 <= i < f.len() implies (#[trigger] f[i]) != 0x2c by {
            if i > 0 {
                assert(f[i] == octet_text(b)[i - 1]);
                assert(name_byte(octet_text(b)[i - 1]));
            }
        }
        lemma_plain_clean(f, 0x2c);
    }
}

proof fn lemma_type(t: u16)
    requires
        claim_type_known(t),
    ensures
        type_of_text(seq![0x54u8, type_letter(t)]) == Some(t),
        clean(seq![0x54u8, type_letter(t)], 0x2c),
{
    assert(all_name(seq![0x54u8, type_letter(t)]));
    lemma_name_clean(seq![0x54u8, type_letter(t)]);
}

/// The text of an attribute tells it, and closes everything that it opens.
pub proof fn law_claim_text_reads_back(c: ClaimView)
    requires
        claim_printable(c),
    ensures
        claim_from_text(claim_text(c)) == Some(c),
        balanced(claim_text(c)),
{
    let f = claim_fields(c);
    let t = c.value_type;
    lemma_quoted(c.name);
    lemma_type(t);
    lemma_flags(c.flags);
    assert forall|i: int| 0 <= i < c.values.len() implies value_of(t, #[trigger] value_text(t, c.values[i])) == Some(
        c.values[i],
    ) && clean(value_text(t, c.values[i]), 0x2c) by {
        lemma_value(t, c.values[i]);
    }
    assert forall|i: int| 3 <= i < f.len() implies value_of(t, #[trigger] f[i]) == Some(c.values[i - 3]) && clean(
        f[i],
        0x2c,
    ) by {
        assert(f[i] == value_text(t, c.values[i - 3]));
    }
    assert forall|i: int| 0 <= i < f.len() implies clean(#[trigger] f[i], 0x2c) by {
        if i >= 3 {
            assert(value_of(t, f[i]) == Some(c.values[i - 3]));
        }
    }
    law_split_undoes_join(f, 0x2c);
    let got = claim_of_fields(f)->Some_0;
    assert(got.values =~= c.values);
}

/// A value as it stands in an entry.
pub open spec fn value_stored(t: u16, v: ClaimValueView) -> bool {
    if claim_type_scalar(t) {
        v.bytes == Some(Seq::<u8>::empty())
    } else {
        v.scalar == 0
    }
}

proof fn lemma_nul(s: Seq<u8>, at: int, name: Seq<u8>, k: int)
    requires
        stringable(name),
        0 <= at,
        at + cstr16(name).len() <= s.len(),
        s.subrange(at, at + cstr16(name).len()) == cstr16(name),
        0 <= k,
        2 * k + 2 <= cstr16(name).len(),
    ensures
        nul_from(s, at + 2 * k) == Some(at + cstr16(name).len() - 2),
    decreases cstr16(name).len() - 2 * k,
{
    let t = cstr16(name);
    let chars = vstd::utf8::decode_utf8(name);
    lemma_text16_even(chars);
    assert(t.len() % 2 == 0);
    law_terminator_is_last(name, k);
    assert(s.subrange(at, at + t.len())[2 * k] == s[at + 2 * k]);
    assert(s.subrange(at, at + t.len())[2 * k + 1] == s[at + 2 * k + 1]);
    if 2 * k + 2 < t.len() {
        lemma_nul(s, at, name, k + 1);
    }
}

/// Terminated text is read back.
proof fn lemma_text(s: Seq<u8>, at: int, name: Seq<u8>)
    requires
        stringable(name),
        0 <= at,
        at + cstr16(name).len() <= s.len(),
        s.subrange(at, at + cstr16(name).len()) == cstr16(name),
    ensures
        text_at(s, at) == Some(name),
{
    let t = cstr16(name);
    let chars = vstd::utf8::decode_utf8(name);
    lemma_nul(s, at, name, 0);
    let e = at + t.len() - 2;
    assert(s.subrange(at, e) =~= s.subrange(at, at + t.len()).subrange(0, t.len() - 2));
    assert(t.subrange(0, t.len() - 2) =~= text16(chars));
    law_utf8_through_16(name);
}

/// What bytes say does not depend on what follows them.
proof fn lemma_same_words(s: Seq<u8>, b: Seq<u8>, p: int)
    requires
        b.len() <= s.len(),
        s.take(b.len() as int) == b,
        0 <= p,
    ensures
        p + 2 <= b.len() ==> le16_at(s, p) == le16_at(b, p),
        p + 4 <= b.len() ==> le32_at(s, p) == le32_at(b, p),
        p + 8 <= b.len() ==> le64_at(s, p) == le64_at(b, p),
{
    assert forall|i: int| 0 <= i < b.len() implies s[i] == #[trigger] b[i] by {
        assert(s.take(b.len() as int)[i] == s[i]);
    }
}

#[verifier::spinoff_prover]
proof fn lemma_value_back(c: ClaimView, s: Seq<u8>, i: int)
    requires
        claim_entry(c) is Some,
        claim_entry(c)->Some_0.len() <= s.len(),
        s.take(claim_entry(c)->Some_0.len() as int) == claim_entry(c)->Some_0,
        0 <= i < c.values.len(),
        value_stored(c.value_type, c.values[i]),
        le16_at(s, 4) == c.value_type,
        16 + 4 * c.values.len() <= claim_entry(c)->Some_0.len(),
    ensures
        value_in(s, i) == Some(c.values[i]),
{
    let b = claim_entry(c)->Some_0;
    let t = c.value_type;
    let v = c.values[i];
    law_claim_value_reads_back(c.name, t, c.flags, c.values, i);
    let slot = slot_place(b, i);
    lemma_same_words(s, b, 16 + 4 * i);
    lemma_same_words(s, b, slot);
    assert(le32_at(s, 16 + 4 * i) == slot);
    if claim_type_scalar(t) {
        assert(value_in(s, i)->Some_0 =~= v);
    } else {
        assert(value_bytes(t, v) is Some);
        let at = le32_at(b, slot) as int;
        let x = value_bytes(t, v)->Some_0;
        let y = v.bytes->Some_0;
        assert(s.subrange(at, at + x.len()) =~= s.take(b.len() as int).subrange(at, at + x.len()));
        lemma_stored_bytes(s, at, t, y, x);
        assert(value_in(s, i)->Some_0 =~= v);
    }
}

/// The bytes of a value are read back where they stand.
#[verifier::spinoff_prover]
proof fn lemma_stored_bytes(s: Seq<u8>, at: int, t: u16, y: Seq<u8>, x: Seq<u8>)
    requires
        claim_type_known(t),
        !claim_type_scalar(t),
        0 <= at,
        at + x.len() <= s.len(),
        s.subrange(at, at + x.len()) == x,
        value_bytes(t, ClaimValueView { scalar: 0, bytes: Some(y) }) == Some(x),
    ensures
        t == CLAIM_TYPE_STRING ==> text_at(s, at) == Some(y),
        t == CLAIM_TYPE_SID ==> sid_at(s, at) is Some && s.subrange(at, sid_at(s, at)->Some_0.1) == y,
        t == CLAIM_TYPE_OCTET ==> at + 4 <= s.len() && le32_at(s, at) == y.len() && at + 4 + y.len() <= s.len()
            && s.subrange(at + 4, at + 4 + y.len()) == y,
{
    if t == CLAIM_TYPE_STRING {
        lemma_text(s, at, y);
    } else if t == CLAIM_TYPE_SID {
        law_sid_canonical(x, 0);
        let sid = sid_at(x, 0)->Some_0.0;
        assert(x.subrange(0, x.len() as int) =~= x);
        let pre = s.subrange(0, at);
        let post = s.subrange(at + x.len(), s.len() as int);
        assert(s =~= pre + sid_bytes(sid) + post);
        law_sid_round_trip(pre, sid, post);
    } else {
        assert(x == le32(y.len() as u32) + y);
        assert(s.subrange(at, at + 4) =~= x.subrange(0, 4));
        assert(x.subrange(0, 4) =~= le32(y.len() as u32));
        law_le32_reads_back(s, at, y.len() as u32);
        assert(s.subrange(at + 4, at + 4 + y.len()) =~= x.subrange(4, x.len() as int));
        assert(x.subrange(4, x.len() as int) =~= y);
    }
}

/// An attribute is read back from its bytes, whatever follows them.
pub proof fn law_claim_entry_reads_back(c: ClaimView, s: Seq<u8>)
    requires
        claim_entry(c) is Some,
        claim_entry(c)->Some_0.len() <= s.len(),
        s.take(claim_entry(c)->Some_0.len() as int) == claim_entry(c)->Some_0,
        forall|i: int| 0 <= i < c.values.len() ==> value_stored(c.value_type, #[trigger] c.values[i]),
    ensures
        claim_from(s) == Some(c),
{
    let b = claim_entry(c)->Some_0;
    law_claim_header_reads_back(c.name, c.value_type, c.flags, c.values);
    lemma_same_words(s, b, 0);
    lemma_same_words(s, b, 4);
    lemma_same_words(s, b, 8);
    lemma_same_words(s, b, 12);
    let at = le32_at(b, 0) as int;
    assert(s.subrange(at, at + cstr16(c.name).len()) =~= s.take(b.len() as int).subrange(at, b.len() as int));
    lemma_text(s, at, c.name);
    assert forall|i: int| 0 <= i < c.values.len() implies (#[trigger] value_in(s, i)) == Some(c.values[i]) by {
        lemma_value_back(c, s, i);
    }
    let got = claim_from(s)->Some_0;
    assert(got.values =~= c.values);
}

/// An attribute goes from its text into an entry and back.
pub proof fn law_claim_forms_agree(c: ClaimView)
    requires
        claim_printable(c),
        claim_entry(c) is Some,
    ensures
        claim_tail(claim_text(c)) == Some(filled(claim_entry(c)->Some_0)),
        claim_tail_text(filled(claim_entry(c)->Some_0)) == Some(claim_text(c)),
{
    law_claim_text_reads_back(c);
    let b = claim_entry(c)->Some_0;
    let s = filled(b);
    assert(s.take(b.len() as int) =~= b);
    assert forall|i: int| 0 <= i < c.values.len() implies value_stored(c.value_type, #[trigger] c.values[i]) by {
        assert(value_printable(c.value_type, c.values[i]));
    }
    law_claim_entry_reads_back(c, s);
}

} // verus!
