//! UTF-8 text as terminated UTF-16, the form in which claims hold their names and strings.

use vstd::prelude::*;
use vstd::utf8::{
    decode_first_scalar, decode_utf8, encode_scalar, encode_utf8, length_of_first_scalar, pop_first_scalar,
    valid_first_scalar, valid_utf8,
};
use crate::bytes::{is_utf8, law_le16_reads_back, le16, le16_at, put_le16, rd_u16};
use crate::security::rules::utf16_nul_at;

verus! {

/// The UTF-16 bytes of one scalar value, least significant byte first: one unit, or a pair of
/// surrogates above the basic plane.
pub open spec fn scalar16(v: u32) -> Seq<u8> {
    if v < 0x1_0000 {
        le16(v as u16)
    } else {
        le16((0xd800 + (v - 0x1_0000) / 0x400) as u16) + le16((0xdc00 + (v - 0x1_0000) % 0x400) as u16)
    }
}

/// The UTF-16 bytes of text.
pub open spec fn text16(chars: Seq<char>) -> Seq<u8>
    decreases chars.len(),
{
    if chars.len() == 0 {
        Seq::empty()
    } else {
        text16(chars.drop_last()) + scalar16(chars.last() as u32)
    }
}

/// Bytes can go into a terminated string: they are UTF-8 and have no terminator inside.
pub open spec fn stringable(s: Seq<u8>) -> bool {
    valid_utf8(s) && !decode_utf8(s).contains('\0')
}

/// The UTF-16 bytes of UTF-8 text, with a terminator.
pub open spec fn cstr16(s: Seq<u8>) -> Seq<u8> {
    text16(decode_utf8(s)) + le16(0)
}

/// The first scalar value of valid text, and its length.
fn first_scalar(s: &[u8], p: usize) -> (r: (u32, usize))
    requires
        p < s@.len(),
        valid_first_scalar(s@.subrange(p as int, s@.len() as int)),
    ensures
        r.0 == decode_first_scalar(s@.subrange(p as int, s@.len() as int)),
        r.1 == length_of_first_scalar(s@.subrange(p as int, s@.len() as int)),
        p + r.1 <= s@.len(),
        r.0 <= 0x10_ffff,
{
    let ghost t = s@.subrange(p as int, s@.len() as int);
    assert(t[0] == s@[p as int]);
    assert(t.len() >= 2 ==> t[1] == s@[p + 1]);
    assert(t.len() >= 3 ==> t[2] == s@[p + 2]);
    assert(t.len() >= 4 ==> t[3] == s@[p + 3]);
    assert(s@.len() == s.len());
    let b1: u8 = s[p];
    let r: (u32, usize) = if b1 <= 0x7f {
        ((b1 & 0x7f) as u32, 1)
    } else if b1 <= 0xdf {
        (((b1 & 0x1f) as u32) << 6 | (s[p + 1] & 0x3f) as u32, 2)
    } else if b1 <= 0xef {
        (((b1 & 0x0f) as u32) << 12 | ((s[p + 1] & 0x3f) as u32) << 6 | (s[p + 2] & 0x3f) as u32, 3)
    } else {
        (
            ((b1 & 0x07) as u32) << 18 | ((s[p + 1] & 0x3f) as u32) << 12 | ((s[p + 2] & 0x3f) as u32) << 6 | (s[p
                + 3] & 0x3f) as u32,
            4,
        )
    };
    proof {
        let v = r.0;
        let (c1, c2, c3) = (t[0], t[1], t[2]);
        assert((c1 & 0x7f) as u32 <= 0x7f && ((c1 & 0x1f) as u32) << 6 | (c2 & 0x3f) as u32 <= 0x7ff && ((c1
            & 0x0f) as u32) << 12 | ((c2 & 0x3f) as u32) << 6 | (c3 & 0x3f) as u32 <= 0xffff) by (bit_vector);
    }
    r
}

/// Appends one scalar value.
fn put_scalar16(out: &mut Vec<u8>, v: u32)
    requires
        v <= 0x10_ffff,
    ensures
        final(out)@ == old(out)@ + scalar16(v),
{
    if v < 0x1_0000 {
        put_le16(out, v as u16);
    } else {
        let w: u32 = v - 0x1_0000;
        put_le16(out, (0xd800 + w / 0x400) as u16);
        put_le16(out, (0xdc00 + w % 0x400) as u16);
        assert(out@ =~= old(out)@ + scalar16(v));
    }
}

/// The terminated UTF-16 form of UTF-8 text; nothing for bytes that are not UTF-8 or that
/// have a terminator inside.
pub fn utf16le_cstr(s: &[u8]) -> (r: Option<Vec<u8>>)
    ensures
        match r {
            Some(out) => stringable(s@) && out@ == cstr16(s@),
            None => !stringable(s@),
        },
{
    if !is_utf8(s) {
        return None;
    }
    let mut out: Vec<u8> = Vec::new();
    let mut p: usize = 0;
    let ghost all = decode_utf8(s@);
    let ghost mut done: Seq<char> = Seq::empty();
    assert(s@.subrange(0, s@.len() as int) =~= s@);
    assert(done + all =~= all);
    while p < s.len()
        invariant
            p <= s@.len(),
            s@.len() == s.len(),
            all == decode_utf8(s@),
            valid_utf8(s@),
            valid_utf8(s@.subrange(p as int, s@.len() as int)),
            all == done + decode_utf8(s@.subrange(p as int, s@.len() as int)),
            out@ == text16(done),
            !done.contains('\0'),
        decreases s@.len() - p,
    {
        let ghost rest = s@.subrange(p as int, s@.len() as int);
        let (v, n) = first_scalar(s, p);
        let ghost c = v as char;
        proof {
            assert(pop_first_scalar(rest) =~= s@.subrange(p + n, s@.len() as int));
            assert(decode_utf8(rest) == seq![c] + decode_utf8(pop_first_scalar(rest)));
            assert(c as u32 == v);
            assert(all =~= done.push(c) + decode_utf8(pop_first_scalar(rest)));
        }
        if v == 0 {
            assert(c == '\0');
            assert(all[done.len() as int] == '\0');
            return None;
        }
        put_scalar16(&mut out, v);
        proof {
            let next = done.push(c);
            assert(next.drop_last() =~= done);
            assert forall|i: int| 0 <= i < next.len() implies next[i] != '\0' by {
                if i < done.len() {
                    assert(done.contains(done[i]));
                }
            }
            done = next;
        }
        p = p + n;
    }
    assert(decode_utf8(s@.subrange(p as int, s@.len() as int)) =~= Seq::<char>::empty());
    assert(all =~= done);
    put_le16(&mut out, 0);
    Some(out)
}

/// The terminator is the first zero unit: text without a zero character has no zero unit.
pub proof fn law_terminator_is_last(s: Seq<u8>, k: int)
    requires
        stringable(s),
        0 <= k,
        2 * k < cstr16(s).len(),
    ensures
        utf16_nul_at(cstr16(s), 0, k) == (2 * k + 2 == cstr16(s).len()),
{
    let chars = decode_utf8(s);
    assert forall|i: int| 0 <= i < chars.len() implies chars[i] != '\0' by {
        assert(chars.contains(chars[i]));
    }
    lemma_text16_even(chars);
    lemma_units_nonzero(chars, k);
    let t = cstr16(s);
    if 2 * k + 2 < t.len() {
        assert(t[2 * k] == text16(chars)[2 * k] && t[2 * k + 1] == text16(chars)[2 * k + 1]);
    }
}

proof fn lemma_units_nonzero(chars: Seq<char>, k: int)
    requires
        forall|i: int| 0 <= i < chars.len() ==> chars[i] != '\0',
        0 <= k,
    ensures
        2 * k + 1 < text16(chars).len() ==> !utf16_nul_at(text16(chars), 0, k),
    decreases chars.len(),
{
    if chars.len() > 0 {
        let front = chars.drop_last();
        lemma_units_nonzero(front, k);
        lemma_text16_even(front);
        let v = chars.last() as u32;
        let c = chars.last();
        assert(c != '\0');
        vstd::utf8::char_is_scalar(c);
        if v == 0 {
            vstd::utf8::char_u32_cast(c, v);
            assert(c == '\0');
        }
        assert(v <= 0x10_ffff);
        let n = text16(front).len() as int;
        let tail = scalar16(v);
        if 2 * k < n {
            assert(text16(chars)[2 * k] == text16(front)[2 * k]);
            assert(text16(chars)[2 * k + 1] == text16(front)[2 * k + 1]);
        } else if 2 * k + 1 < text16(chars).len() {
            assert(text16(chars)[2 * k] == tail[2 * k - n]);
            assert(text16(chars)[2 * k + 1] == tail[2 * k + 1 - n]);
        }
    }
}

/// Text takes an even number of bytes.
pub proof fn lemma_text16_even(chars: Seq<char>)
    ensures
        text16(chars).len() % 2 == 0,
    decreases chars.len(),
{
    if chars.len() > 0 {
        lemma_text16_even(chars.drop_last());
    }
}

/// The UTF-16 form of UTF-8 text, without a terminator; nothing for bytes that are not UTF-8.
pub fn utf16le(s: &[u8]) -> (r: Option<Vec<u8>>)
    ensures
        match r {
            Some(out) => valid_utf8(s@) && out@ == text16(decode_utf8(s@)),
            None => !valid_utf8(s@),
        },
{
    if !is_utf8(s) {
        return None;
    }
    let mut out: Vec<u8> = Vec::new();
    let mut p: usize = 0;
    let ghost all = decode_utf8(s@);
    let ghost mut done: Seq<char> = Seq::empty();
    assert(s@.subrange(0, s@.len() as int) =~= s@);
    assert(done + all =~= all);
    while p < s.len()
        invariant
            p <= s@.len(),
            s@.len() == s.len(),
            all == decode_utf8(s@),
            valid_utf8(s@.subrange(p as int, s@.len() as int)),
            all == done + decode_utf8(s@.subrange(p as int, s@.len() as int)),
            out@ == text16(done),
        decreases s@.len() - p,
    {
        let ghost rest = s@.subrange(p as int, s@.len() as int);
        let (v, n) = first_scalar(s, p);
        let ghost c = v as char;
        proof {
            assert(pop_first_scalar(rest) =~= s@.subrange(p + n, s@.len() as int));
            assert(decode_utf8(rest) == seq![c] + decode_utf8(pop_first_scalar(rest)));
            assert(c as u32 == v);
            assert(all =~= done.push(c) + decode_utf8(pop_first_scalar(rest)));
        }
        put_scalar16(&mut out, v);
        proof {
            let next = done.push(c);
            assert(next.drop_last() =~= done);
            done = next;
        }
        p = p + n;
    }
    assert(decode_utf8(s@.subrange(p as int, s@.len() as int)) =~= Seq::<char>::empty());
    assert(all =~= done);
    Some(out)
}

/// The scalar value at the start of UTF-16 bytes and how many bytes it takes; nothing if a
/// surrogate has no partner.
pub open spec fn first16(s: Seq<u8>) -> Option<(u32, int)> {
    if s.len() < 2 {
        None
    } else {
        let u = le16_at(s, 0);
        if u < 0xd800 || u >= 0xe000 {
            Some((u as u32, 2))
        } else if u < 0xdc00 && s.len() >= 4 && 0xdc00 <= le16_at(s, 2) < 0xe000 {
            Some(((0x1_0000 + 0x400 * (u - 0xd800) + (le16_at(s, 2) - 0xdc00)) as u32, 4))
        } else {
            None
        }
    }
}

/// The text that UTF-16 bytes denote.
pub open spec fn chars16(s: Seq<u8>) -> Option<Seq<char>>
    decreases s.len(),
{
    if s.len() == 0 {
        Some(Seq::empty())
    } else {
        match first16(s) {
            None => None,
            Some((v, n)) => match chars16(s.subrange(n, s.len() as int)) {
                None => None,
                Some(rest) => Some(seq![v as char] + rest),
            },
        }
    }
}

/// The UTF-8 bytes of the text that UTF-16 bytes denote.
pub open spec fn utf8_of16(s: Seq<u8>) -> Option<Seq<u8>> {
    match chars16(s) {
        Some(c) => Some(encode_utf8(c)),
        None => None,
    }
}

/// Encoding one more character.
proof fn lemma_encode_push(chars: Seq<char>, c: char)
    ensures
        encode_utf8(chars.push(c)) == encode_utf8(chars) + encode_scalar(c as u32),
    decreases chars.len(),
{
    let all = chars.push(c);
    if chars.len() == 0 {
        assert(all.drop_first() =~= Seq::<char>::empty());
        assert(encode_utf8(all.drop_first()) =~= Seq::<u8>::empty());
        assert(encode_utf8(all) =~= encode_utf8(chars) + encode_scalar(c as u32));
    } else {
        lemma_encode_push(chars.drop_first(), c);
        assert(all.drop_first() =~= chars.drop_first().push(c));
        assert(encode_utf8(all) =~= encode_utf8(chars) + encode_scalar(c as u32));
    }
}

fn put_scalar8(out: &mut Vec<u8>, v: u32)
    requires
        vstd::utf8::is_scalar(v),
    ensures
        final(out)@ == old(out)@ + encode_scalar(v),
{
    if v <= 0x7f {
        out.push((v & 0x7f) as u8);
    } else if v <= 0x7ff {
        out.push(0xc0 | ((v >> 6) & 0x1f) as u8);
        out.push(0x80 | (v & 0x3f) as u8);
    } else if v <= 0xffff {
        out.push(0xe0 | ((v >> 12) & 0x0f) as u8);
        out.push(0x80 | ((v >> 6) & 0x3f) as u8);
        out.push(0x80 | (v & 0x3f) as u8);
    } else {
        out.push(0xf0 | ((v >> 18) & 0x7) as u8);
        out.push(0x80 | ((v >> 12) & 0x3f) as u8);
        out.push(0x80 | ((v >> 6) & 0x3f) as u8);
        out.push(0x80 | (v & 0x3f) as u8);
    }
    assert(out@ =~= old(out)@ + encode_scalar(v));
}

/// The UTF-8 form of UTF-16 bytes; nothing if they are not text.
pub fn utf8_from_16(s: &[u8]) -> (r: Option<Vec<u8>>)
    ensures
        match r {
            Some(out) => utf8_of16(s@) == Some(out@) && valid_utf8(out@),
            None => utf8_of16(s@) is None,
        },
{
    let mut out: Vec<u8> = Vec::new();
    let mut p: usize = 0;
    let ghost mut done: Seq<char> = Seq::empty();
    assert(s@.subrange(0, s@.len() as int) =~= s@);
    while p < s.len()
        invariant
            p <= s@.len(),
            s@.len() == s.len(),
            out@ == encode_utf8(done),
            chars16(s@) == (match chars16(s@.subrange(p as int, s@.len() as int)) {
                Some(rest) => Some(done + rest),
                None => None,
            }),
        decreases s@.len() - p,
    {
        let ghost rest = s@.subrange(p as int, s@.len() as int);
        if s.len() - p < 2 {
            return None;
        }
        assert(rest[0] == s@[p as int] && rest[1] == s@[p + 1]);
        let u: u16 = rd_u16(s, p);
        let mut v: u32 = u as u32;
        let mut n: usize = 2;
        if u >= 0xd800 && u < 0xe000 {
            if u >= 0xdc00 || s.len() - p < 4 {
                return None;
            }
            assert(rest[2] == s@[p + 2] && rest[3] == s@[p + 3]);
            let low: u16 = rd_u16(s, p + 2);
            if low < 0xdc00 || low >= 0xe000 {
                return None;
            }
            v = 0x1_0000 + 0x400 * (u as u32 - 0xd800) + (low as u32 - 0xdc00);
            n = 4;
        }
        let ghost c = v as char;
        proof {
            assert(first16(rest) == Some((v, n as int)));
            assert(rest.subrange(n as int, rest.len() as int) =~= s@.subrange(p + n, s@.len() as int));
            assert(c as u32 == v);
            lemma_encode_push(done, c);
            if let Some(more) = chars16(s@.subrange(p + n, s@.len() as int)) {
                assert(done + (seq![c] + more) =~= done.push(c) + more);
            }
            done = done.push(c);
        }
        put_scalar8(&mut out, v);
        p = p + n;
    }
    assert(s@.subrange(p as int, s@.len() as int) =~= Seq::<u8>::empty());
    assert(done + Seq::<char>::empty() =~= done);
    proof {
        vstd::utf8::encode_utf8_valid_utf8(done);
    }
    Some(out)
}

/// Text from the front.
proof fn lemma_text16_front(c: char, rest: Seq<char>)
    ensures
        text16(seq![c] + rest) == scalar16(c as u32) + text16(rest),
    decreases rest.len(),
{
    let all = seq![c] + rest;
    if rest.len() == 0 {
        assert(all.drop_last() =~= rest);
        assert(text16(rest) =~= Seq::<u8>::empty());
        assert(all.last() == c);
        assert(text16(all) =~= scalar16(c as u32) + text16(rest));
    } else {
        lemma_text16_front(c, rest.drop_last());
        assert(all.drop_last() =~= seq![c] + rest.drop_last());
        assert(all.last() == rest.last());
        assert(text16(all) =~= scalar16(c as u32) + text16(rest));
    }
}

/// One scalar value is read back from its UTF-16 form.
proof fn lemma_first16(v: u32, rest: Seq<u8>)
    requires
        vstd::utf8::is_scalar(v),
    ensures
        first16(scalar16(v) + rest) == Some((v, scalar16(v).len() as int)),
{
    let s = scalar16(v) + rest;
    if v < 0x1_0000 {
        assert(s.subrange(0, 2) =~= le16(v as u16));
        law_le16_reads_back(s, 0, v as u16);
    } else {
        let w = (v - 0x1_0000) as int;
        let high = (0xd800 + w / 0x400) as u16;
        let low = (0xdc00 + w % 0x400) as u16;
        assert(s.subrange(0, 2) =~= le16(high));
        law_le16_reads_back(s, 0, high);
        assert(s.subrange(2, 4) =~= le16(low));
        law_le16_reads_back(s, 2, low);
        assert(0x400 * (w / 0x400) + w % 0x400 == w);
    }
}

/// Text in UTF-16 is read back.
pub proof fn law_text16_reads_back(chars: Seq<char>)
    ensures
        chars16(text16(chars)) == Some(chars),
    decreases chars.len(),
{
    if chars.len() == 0 {
        assert(chars =~= Seq::<char>::empty());
    } else {
        let c = chars[0];
        let rest = chars.subrange(1, chars.len() as int);
        assert(chars =~= seq![c] + rest);
        lemma_text16_front(c, rest);
        vstd::utf8::char_is_scalar(c);
        lemma_first16(c as u32, text16(rest));
        law_text16_reads_back(rest);
        let s = text16(chars);
        let n = scalar16(c as u32).len() as int;
        assert(s.subrange(n, s.len() as int) =~= text16(rest));
        vstd::utf8::char_u32_cast(c, c as u32);
    }
}

/// UTF-8 text is read back from its UTF-16 form.
pub proof fn law_utf8_through_16(s: Seq<u8>)
    requires
        valid_utf8(s),
    ensures
        utf8_of16(text16(decode_utf8(s))) == Some(s),
{
    law_text16_reads_back(decode_utf8(s));
    vstd::utf8::decode_utf8_encode_utf8(s);
}

} // verus!
