//! GUIDs and SIDs in descriptor text.

use vstd::prelude::*;
use vstd::slice::{slice_subrange, slice_to_vec};
use crate::security::sddl::fields::{is_word, word_byte};
use crate::security::sddl::vocab::{
    alias_from_sid, alias_of_sid, is_domain_relative_alias, law_aliases_are_a_bijection, lemma_aliases_are_capitals,
    put_code, relative_pair, sid_from_alias, sid_of_alias, Code,
};
use crate::security::sddl::{SddlError, SddlErrorView};
use crate::security::sid::{
    authority_text, law_sid_text_round_trip, parse_sddl, sid_from_text, sid_text, subs_text, Sid, SidView,
};
use crate::security::text::{digit, digit_value, hex_digit, hex_padded, law_decimal_reads_back, put_hex_padded};

verus! {

/// Where in the text of a GUID the two digits of a byte are: the first three groups are
/// written with the most significant byte first.
pub open spec fn guid_place(i: int) -> int {
    if i < 4 {
        6 - 2 * i
    } else if i < 6 {
        11 - 2 * (i - 4)
    } else if i < 8 {
        16 - 2 * (i - 6)
    } else if i < 10 {
        19 + 2 * (i - 8)
    } else {
        24 + 2 * (i - 10)
    }
}

pub open spec fn is_hyphen_place(p: int) -> bool {
    p == 8 || p == 13 || p == 18 || p == 23
}

/// A byte as two hexadecimal digits.
pub open spec fn byte_text(b: u8) -> Seq<u8> {
    seq![hex_digit((b / 16) as nat), hex_digit((b % 16) as nat)]
}

/// A GUID in text.
pub open spec fn guid_text(g: Seq<u8>) -> Seq<u8> {
    byte_text(g[3]) + byte_text(g[2]) + byte_text(g[1]) + byte_text(g[0]) + seq![0x2du8] + byte_text(g[5]) + byte_text(
        g[4],
    ) + seq![0x2du8] + byte_text(g[7]) + byte_text(g[6]) + seq![0x2du8] + byte_text(g[8]) + byte_text(g[9])
        + seq![0x2du8] + byte_text(g[10]) + byte_text(g[11]) + byte_text(g[12]) + byte_text(g[13]) + byte_text(g[14])
        + byte_text(g[15])
}

/// The text is a GUID: five groups of hexadecimal digits with hyphens between them.
pub open spec fn is_guid_text(s: Seq<u8>) -> bool {
    &&& s.len() == 36
    &&& s[8] == 0x2d && s[13] == 0x2d && s[18] == 0x2d && s[23] == 0x2d
    &&& forall|i: int|
        0 <= i < 16 ==> digit(s[#[trigger] guid_place(i)], 16) is Some && digit(s[guid_place(i) + 1], 16) is Some
}

/// The GUID that text denotes.
pub open spec fn guid_from_text(s: Seq<u8>) -> Option<Seq<u8>> {
    if is_guid_text(s) {
        Some(
            Seq::new(
                16,
                |i: int|
                    (16 * digit(s[guid_place(i)], 16)->Some_0 + digit(s[guid_place(i) + 1], 16)->Some_0) as u8,
            ),
        )
    } else {
        None
    }
}

fn guid_places() -> (places: [usize; 16])
    ensures
        forall|i: int| 0 <= i < 16 ==> #[trigger] places@[i] == guid_place(i),
{
    [6, 4, 2, 0, 11, 9, 16, 14, 19, 21, 24, 26, 28, 30, 32, 34]
}

/// Reads a GUID.
pub fn read_guid(s: &[u8]) -> (r: Option<Vec<u8>>)
    ensures
        match r {
            Some(g) => guid_from_text(s@) == Some(g@),
            None => guid_from_text(s@) is None,
        },
{
    if s.len() != 36 {
        return None;
    }
    if s[8] != 0x2d || s[13] != 0x2d || s[18] != 0x2d || s[23] != 0x2d {
        return None;
    }
    let places = guid_places();
    let mut g: Vec<u8> = Vec::new();
    let mut i: usize = 0;
    while i < 16
        invariant
            i <= 16,
            s@.len() == 36,
            forall|j: int| 0 <= j < 16 ==> #[trigger] places@[j] == guid_place(j),
            g@.len() == i,
            forall|j: int|
                0 <= j < i ==> digit(s@[#[trigger] guid_place(j)], 16) is Some && digit(s@[guid_place(j) + 1], 16) is Some,
            forall|j: int|
                0 <= j < i ==> #[trigger] g@[j] == 16 * digit(s@[guid_place(j)], 16)->Some_0 + digit(
                    s@[guid_place(j) + 1],
                    16,
                )->Some_0,
        decreases 16 - i,
    {
        let p: usize = places[i];
        assert(p == guid_place(i as int));
        let high: u64 = match digit_value(s[p], 16) {
            Some(d) => d,
            None => {
                assert(digit(s@[guid_place(i as int)], 16) is None);
                return None;
            },
        };
        let low: u64 = match digit_value(s[p + 1], 16) {
            Some(d) => d,
            None => {
                assert(digit(s@[guid_place(i as int) + 1], 16) is None);
                return None;
            },
        };
        g.push((16 * high + low) as u8);
        i = i + 1;
    }
    assert(g@ =~= guid_from_text(s@)->Some_0);
    Some(g)
}

fn put_byte(out: &mut Vec<u8>, b: u8)
    ensures
        final(out)@ == old(out)@ + byte_text(b),
{
    put_hex_padded(out, b as u64, 2);
    proof {
        reveal_with_fuel(hex_padded, 3);
        assert(hex_padded(b as nat, 2) =~= byte_text(b));
    }
}

/// Appends a GUID.
pub fn put_guid(out: &mut Vec<u8>, g: &[u8])
    requires
        g@.len() == 16,
    ensures
        final(out)@ == old(out)@ + guid_text(g@),
{
    let mut own: Vec<u8> = Vec::new();
    put_byte(&mut own, g[3]);
    assert(own@ =~= byte_text(g@[3]));
    put_byte(&mut own, g[2]);
    put_byte(&mut own, g[1]);
    put_byte(&mut own, g[0]);
    put_hyphen(&mut own);
    put_byte(&mut own, g[5]);
    put_byte(&mut own, g[4]);
    put_hyphen(&mut own);
    put_byte(&mut own, g[7]);
    put_byte(&mut own, g[6]);
    put_hyphen(&mut own);
    put_byte(&mut own, g[8]);
    put_byte(&mut own, g[9]);
    put_hyphen(&mut own);
    put_byte(&mut own, g[10]);
    put_byte(&mut own, g[11]);
    put_byte(&mut own, g[12]);
    put_byte(&mut own, g[13]);
    put_byte(&mut own, g[14]);
    put_byte(&mut own, g[15]);
    crate::bytes::put_slice(out, own.as_slice());
}

fn put_hyphen(out: &mut Vec<u8>)
    ensures
        final(out)@ == old(out)@ + seq![0x2du8],
{
    out.push(0x2d);
    assert(out@ =~= old(out)@ + seq![0x2du8]);
}

/// A byte is told from its two digits.
pub proof fn lemma_byte_text(b: u8)
    ensures
        byte_text(b).len() == 2,
        digit(byte_text(b)[0], 16) == Some((b / 16) as nat),
        digit(byte_text(b)[1], 16) == Some((b % 16) as nat),
        word_byte(byte_text(b)[0]),
        word_byte(byte_text(b)[1]),
        16 * (b / 16) + b % 16 == b,
{
}

/// Which byte of a GUID the digit at a place of its text belongs to.
spec fn guid_byte_at(p: int) -> int {
    if p < 8 {
        3 - p / 2
    } else if p < 13 {
        5 - (p - 9) / 2
    } else if p < 18 {
        7 - (p - 14) / 2
    } else if p < 23 {
        8 + (p - 19) / 2
    } else {
        10 + (p - 24) / 2
    }
}

#[verifier::spinoff_prover]
#[verifier::rlimit(40)]
proof fn lemma_guid_text_at(g: Seq<u8>, i: int)
    requires
        g.len() == 16,
        0 <= i < 16,
    ensures
        guid_text(g).len() == 36,
        guid_text(g)[guid_place(i)] == byte_text(g[i])[0],
        guid_text(g)[guid_place(i) + 1] == byte_text(g[i])[1],
{
}

#[verifier::spinoff_prover]
#[verifier::rlimit(40)]
proof fn lemma_guid_text_hyphens(g: Seq<u8>)
    requires
        g.len() == 16,
    ensures
        guid_text(g)[8] == 0x2d,
        guid_text(g)[13] == 0x2d,
        guid_text(g)[18] == 0x2d,
        guid_text(g)[23] == 0x2d,
{
}

/// A GUID in text is read back, and is a word.
pub proof fn law_guid_round_trip(g: Seq<u8>)
    requires
        g.len() == 16,
    ensures
        guid_from_text(guid_text(g)) == Some(g),
        is_word(guid_text(g)),
        guid_text(g).len() == 36,
{
    let s = guid_text(g);
    lemma_guid_text_hyphens(g);
    lemma_guid_text_at(g, 0);
    assert forall|i: int| 0 <= i < 16 implies digit(s[#[trigger] guid_place(i)], 16) == Some((g[i] / 16) as nat) && digit(
        s[guid_place(i) + 1],
        16,
    ) == Some((g[i] % 16) as nat) by {
        lemma_guid_text_at(g, i);
        lemma_byte_text(g[i]);
    }
    assert forall|i: int| 0 <= i < 16 implies #[trigger] guid_from_text(s)->Some_0[i] == g[i] by {
        assert(digit(s[guid_place(i)], 16) == Some((g[i] / 16) as nat));
        lemma_byte_text(g[i]);
    }
    assert(guid_from_text(s)->Some_0 =~= g);
    assert forall|p: int| 0 <= p < s.len() implies word_byte(#[trigger] s[p]) by {
        if !is_hyphen_place(p) {
            let i = guid_byte_at(p);
            lemma_guid_text_at(g, i);
            lemma_byte_text(g[i]);
            assert(p == guid_place(i) || p == guid_place(i) + 1);
        }
    }
}

/// White space around names.
pub open spec fn is_space(c: u8) -> bool {
    0x09 <= c <= 0x0d || c == 0x20
}

/// Text without white space around it.
pub open spec fn trimmed(s: Seq<u8>) -> Seq<u8>
    decreases s.len(),
{
    if s.len() == 0 {
        s
    } else if is_space(s[0]) {
        trimmed(s.subrange(1, s.len() as int))
    } else if is_space(s.last()) {
        trimmed(s.drop_last())
    } else {
        s
    }
}

fn space(c: u8) -> (r: bool)
    ensures
        r == is_space(c),
{
    (c >= 0x09 && c <= 0x0d) || c == 0x20
}

/// Drops white space around text.
pub fn trim<'a>(s: &'a [u8]) -> (t: &'a [u8])
    ensures
        t@ == trimmed(s@),
{
    let mut start: usize = 0;
    let mut end: usize = s.len();
    assert(s@.subrange(0, s@.len() as int) =~= s@);
    while start < end && space(s[start])
        invariant
            start <= end,
            end == s@.len(),
            trimmed(s@) == trimmed(s@.subrange(start as int, end as int)),
        decreases end - start,
    {
        let ghost cur = s@.subrange(start as int, end as int);
        assert(cur[0] == s@[start as int]);
        assert(cur.subrange(1, cur.len() as int) =~= s@.subrange(start + 1, end as int));
        start = start + 1;
    }
    while start < end && space(s[end - 1])
        invariant
            start <= end <= s@.len(),
            start < s@.len() && start < end ==> !is_space(s@[start as int]),
            trimmed(s@) == trimmed(s@.subrange(start as int, end as int)),
        decreases end - start,
    {
        let ghost cur = s@.subrange(start as int, end as int);
        assert(cur[0] == s@[start as int]);
        assert(cur.last() == s@[end - 1]);
        assert(cur.drop_last() =~= s@.subrange(start as int, end - 1));
        end = end - 1;
    }
    let ghost cur = s@.subrange(start as int, end as int);
    assert(start < end ==> cur[0] == s@[start as int] && cur.last() == s@[end - 1]);
    assert(trimmed(cur) == cur);
    slice_subrange(s, start, end)
}

/// A letter as a capital; other bytes as they are.
pub open spec fn capital(c: u8) -> u8 {
    if 0x61 <= c <= 0x7a {
        (c - 0x20) as u8
    } else {
        c
    }
}

fn to_capital(c: u8) -> (r: u8)
    ensures
        r == capital(c),
{
    if c >= 0x61 && c <= 0x7a {
        c - 0x20
    } else {
        c
    }
}

/// The SID that text denotes: a literal, or a name in any case.
pub open spec fn sid_from_field(s: Seq<u8>) -> Result<SidView, SddlErrorView> {
    let t = trimmed(s);
    match sid_from_text(t) {
        Some(v) => Ok(v),
        None => if t.len() != 2 {
            Err(SddlErrorView::BadSid(t))
        } else {
            match sid_of_alias(Code { first: capital(t[0]), second: capital(t[1]) }) {
                Some(v) => Ok(v),
                None => if relative_pair(capital(t[0]), capital(t[1])) {
                    Err(SddlErrorView::DomainRelativeAlias(t))
                } else {
                    Err(SddlErrorView::BadSid(t))
                },
            }
        },
    }
}

/// Reads a SID.
pub fn parse_sid(s: &[u8]) -> (r: Result<Sid, SddlError>)
    ensures
        match r {
            Ok(sid) => sid.wf() && sid_from_field(s@) == Ok::<SidView, SddlErrorView>(sid@),
            Err(e) => sid_from_field(s@) == Err::<SidView, SddlErrorView>(e@),
        },
{
    let t: &[u8] = trim(s);
    if let Some(sid) = parse_sddl(t) {
        return Ok(sid);
    }
    if t.len() != 2 {
        return Err(SddlError::BadSid(slice_to_vec(t)));
    }
    let code = Code { first: to_capital(t[0]), second: to_capital(t[1]) };
    match sid_from_alias(code) {
        Some(sid) => Ok(sid),
        None => if is_domain_relative_alias(code) {
            Err(SddlError::DomainRelativeAlias(slice_to_vec(t)))
        } else {
            Err(SddlError::BadSid(slice_to_vec(t)))
        },
    }
}

/// A SID in descriptor text: its name, or else the literal.
pub open spec fn sid_field(v: SidView) -> Seq<u8> {
    match alias_of_sid(v) {
        Some(c) => c.text(),
        None => sid_text(v),
    }
}

/// Appends a SID.
pub fn put_sid(out: &mut Vec<u8>, sid: &Sid)
    requires
        sid.wf(),
    ensures
        final(out)@ == old(out)@ + sid_field(sid@),
{
    match alias_from_sid(sid) {
        Some(c) => {
            put_code(out, c);
        },
        None => {
            let text: Vec<u8> = sid.to_text();
            crate::bytes::put_slice(out, text.as_slice());
        },
    }
}

proof fn lemma_subs_word(subs: Seq<u32>)
    ensures
        is_word(subs_text(subs)),
        subs.len() > 0 ==> subs_text(subs).len() >= 2 && 0x30 <= subs_text(subs).last() <= 0x39,
    decreases subs.len(),
{
    if subs.len() > 0 {
        lemma_subs_word(subs.drop_last());
        let d = decimal_of(subs.last());
        law_decimal_reads_back(subs.last() as nat);
        let front = subs_text(subs.drop_last());
        let s = subs_text(subs);
        assert(s =~= front + (seq![0x2du8] + d));
        assert forall|i: int| 0 <= i < s.len() implies word_byte(#[trigger] s[i]) by {
            if i < front.len() {
                assert(s[i] == front[i]);
            } else if i > front.len() {
                assert(s[i] == d[i - front.len() - 1]);
            }
        }
        assert(s.last() == d[d.len() - 1]);
    }
}

spec fn decimal_of(v: u32) -> Seq<u8> {
    crate::security::text::decimal(v as nat)
}

proof fn lemma_sid_text_word(v: SidView)
    requires
        v.wf(),
    ensures
        is_word(sid_text(v)),
        sid_text(v).len() > 4,
        sid_text(v)[0] == 0x53,
        !is_space(sid_text(v).last()),
{
    let a = authority_text(v.authority);
    let s = sid_text(v);
    let subs = subs_text(v.subs);
    lemma_subs_word(v.subs);
    if v.authority < 0x1_0000_0000 {
        law_decimal_reads_back(v.authority as nat);
        assert forall|i: int| 0 <= i < a.len() implies word_byte(#[trigger] a[i]) by {}
    } else {
        let h = hex_padded(v.authority as nat, 12);
        lemma_hex_word(v.authority as nat, 12);
        assert(a =~= seq![0x30u8, 0x78u8] + h);
        assert forall|i: int| 0 <= i < a.len() implies word_byte(#[trigger] a[i]) by {
            if i >= 2 {
                assert(a[i] == h[i - 2]);
            }
        }
    }
    assert forall|i: int| 0 <= i < s.len() implies word_byte(#[trigger] s[i]) by {
        if 4 <= i < 4 + a.len() {
            assert(s[i] == a[i - 4]);
        } else if i >= 4 + a.len() {
            assert(s[i] == subs[i - 4 - a.len()]);
        }
    }
    assert(word_byte(s[s.len() - 1]));
}

proof fn lemma_hex_word(n: nat, width: nat)
    ensures
        is_word(hex_padded(n, width)),
        hex_padded(n, width).len() == width,
    decreases width,
{
    if width > 0 {
        lemma_hex_word(n / 16, (width - 1) as nat);
        let s = hex_padded(n, width);
        let front = hex_padded(n / 16, (width - 1) as nat);
        assert forall|i: int| 0 <= i < s.len() implies word_byte(#[trigger] s[i]) by {
            if i < front.len() {
                assert(s[i] == front[i]);
            }
        }
    }
}

/// A SID in descriptor text is read back, and is a word.
pub proof fn law_sid_field_round_trip(v: SidView)
    requires
        v.wf(),
    ensures
        sid_from_field(sid_field(v)) == Ok::<SidView, SddlErrorView>(v),
        is_word(sid_field(v)),
        sid_field(v).len() > 0,
{
    let s = sid_field(v);
    law_aliases_are_a_bijection(Code { first: 0, second: 0 }, v);
    match alias_of_sid(v) {
        Some(c) => {
            lemma_aliases_are_capitals(c);
            assert(s =~= c.text());
            assert(trimmed(s) == s);
            lemma_short_is_no_literal(s);
        },
        None => {
            lemma_sid_text_word(v);
            assert(trimmed(s) == s);
            law_sid_text_round_trip(v);
        },
    }
}

/// Two characters are no literal.
proof fn lemma_short_is_no_literal(s: Seq<u8>)
    requires
        s.len() == 2,
    ensures
        sid_from_text(s) is None,
{
    let f = crate::security::text::split(s, 0x2d);
    reveal_with_fuel(crate::security::text::split, 3);
    assert(f.len() <= 3);
    if f.len() == 3 {
        assert(f[0].len() == 0);
    }
}

} // verus!
