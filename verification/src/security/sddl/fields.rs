//! The fields of an entry in text: flags, rights, GUIDs and SIDs.

use vstd::prelude::*;
use vstd::slice::slice_subrange;
use crate::security::sddl::scan::plain;
use crate::security::sddl::vocab::{
    ace_flag_format_order, ace_flag_from_code, flag_of_pair, flag_order, put_code, right_from_code, right_of_pair,
    right_order, rights_format_order, Code,
};
use crate::security::text::{
    hex, is_lower_hex, law_hex_reads_back, number_upto, parse_u64_radix, put_hex,
};

verus! {

/// Letters, digits and hyphens.
pub open spec fn is_word(s: Seq<u8>) -> bool {
    forall|i: int| 0 <= i < s.len() ==> word_byte(#[trigger] s[i])
}

pub open spec fn word_byte(c: u8) -> bool {
    0x30 <= c <= 0x39 || 0x41 <= c <= 0x5a || 0x61 <= c <= 0x7a || c == 0x2d
}

/// Words are plain.
pub proof fn lemma_word_plain(s: Seq<u8>)
    requires
        is_word(s),
    ensures
        plain(s),
        forall|i: int| 0 <= i < s.len() ==> (#[trigger] s[i]) != 0x3a && s[i] != 0x3b,
{
    assert forall|i: int| 0 <= i < s.len() implies (#[trigger] s[i]) != 0x22 && s[i] != 0x28 && s[i] != 0x29 && s[i]
        != 0x3a && s[i] != 0x3b by {
        assert(word_byte(s[i]));
    }
}

/// The rights that text stands for, on top of some: codes, then a number behind `0x` if there
/// is one.
pub open spec fn rights_from(s: Seq<u8>, acc: u32) -> Option<u32>
    decreases s.len(),
{
    if s.len() == 0 {
        Some(acc)
    } else if s.len() < 2 {
        None
    } else if s[0] == 0x30 && (s[1] == 0x78 || s[1] == 0x58) {
        match number_upto(s.subrange(2, s.len() as int), 16, u32::MAX as nat) {
            Some(v) => Some(acc | v as u32),
            None => None,
        }
    } else {
        match right_of_pair(s[0], s[1]) {
            Some(m) => rights_from(s.subrange(2, s.len() as int), acc | m),
            None => None,
        }
    }
}

/// Reads rights.
pub fn read_rights(s: &[u8]) -> (r: Option<u32>)
    ensures
        r == rights_from(s@, 0),
{
    let mut p: usize = 0;
    let mut acc: u32 = 0;
    assert(s@.subrange(0, s@.len() as int) =~= s@);
    while p < s.len()
        invariant
            p <= s@.len(),
            s@.len() == s.len(),
            rights_from(s@, 0) == rights_from(s@.subrange(p as int, s@.len() as int), acc),
        decreases s@.len() - p,
    {
        let ghost rest = s@.subrange(p as int, s@.len() as int);
        if s.len() - p < 2 {
            return None;
        }
        assert(rest[0] == s@[p as int] && rest[1] == s@[p + 1]);
        assert(rest.subrange(2, rest.len() as int) =~= s@.subrange(p + 2, s@.len() as int));
        if s[p] == 0x30 && (s[p + 1] == 0x78 || s[p + 1] == 0x58) {
            return match parse_u64_radix(slice_subrange(s, p + 2, s.len()), 16) {
                Some(v) => if v <= u32::MAX as u64 {
                    Some(acc | v as u32)
                } else {
                    None
                },
                None => None,
            };
        }
        match right_from_code(Code { first: s[p], second: s[p + 1] }) {
            Some(m) => {
                acc = acc | m;
            },
            None => return None,
        }
        p = p + 2;
    }
    Some(acc)
}

/// The flags that text stands for, on top of some.
pub open spec fn flags_from(s: Seq<u8>, acc: u8) -> Option<u8>
    decreases s.len(),
{
    if s.len() == 0 {
        Some(acc)
    } else if s.len() < 2 {
        None
    } else {
        match flag_of_pair(s[0], s[1]) {
            Some(m) => flags_from(s.subrange(2, s.len() as int), acc | m),
            None => None,
        }
    }
}

/// Reads flags.
pub fn read_flags(s: &[u8]) -> (r: Option<u8>)
    ensures
        r == flags_from(s@, 0),
{
    let mut p: usize = 0;
    let mut acc: u8 = 0;
    assert(s@.subrange(0, s@.len() as int) =~= s@);
    while p < s.len()
        invariant
            p <= s@.len(),
            s@.len() == s.len(),
            flags_from(s@, 0) == flags_from(s@.subrange(p as int, s@.len() as int), acc),
        decreases s@.len() - p,
    {
        let ghost rest = s@.subrange(p as int, s@.len() as int);
        if s.len() - p < 2 {
            return None;
        }
        assert(rest[0] == s@[p as int] && rest[1] == s@[p + 1]);
        assert(rest.subrange(2, rest.len() as int) =~= s@.subrange(p + 2, s@.len() as int));
        match ace_flag_from_code(Code { first: s[p], second: s[p + 1] }) {
            Some(m) => {
                acc = acc | m;
            },
            None => return None,
        }
        p = p + 2;
    }
    Some(acc)
}

/// Rights that no code stands for, as a number.
pub open spec fn residue_text(m: u32) -> Seq<u8> {
    if m == 0 {
        Seq::empty()
    } else {
        seq![0x30u8, 0x78u8] + hex(m as nat)
    }
}

/// Rights in text: the codes whose rights are all still there, in order from index `k` on,
/// and then the rest as a number.
pub open spec fn codes_text(order: Seq<(Code, u32)>, m: u32, k: int) -> Seq<u8>
    decreases order.len() - k,
{
    if k < 0 || k >= order.len() {
        residue_text(m)
    } else if m & order[k].1 == order[k].1 {
        order[k].0.text() + codes_text(order, m & !order[k].1, k + 1)
    } else {
        codes_text(order, m, k + 1)
    }
}

/// The policy of a mandatory label: no write up, no read up, no execute up.
pub open spec fn label_order() -> Seq<(Code, u32)> {
    seq![
        (Code { first: 0x4eu8, second: 0x57u8 }, 1u32),
        (Code { first: 0x4eu8, second: 0x52u8 }, 2u32),
        (Code { first: 0x4eu8, second: 0x58u8 }, 4u32),
    ]
}

/// Rights in text.
pub open spec fn rights_text(m: u32) -> Seq<u8> {
    codes_text(right_order(), m, 0)
}

/// The policy of a mandatory label in text.
pub open spec fn label_text(m: u32) -> Seq<u8> {
    codes_text(label_order(), m, 0)
}

/// Appends rights by the codes of an order.
fn put_codes(out: &mut Vec<u8>, order: &[(Code, u32)], mask: u32)
    ensures
        final(out)@ == old(out)@ + codes_text(order@, mask, 0),
{
    let mut m: u32 = mask;
    let mut k: usize = 0;
    while k < order.len()
        invariant
            k <= order@.len(),
            out@ + codes_text(order@, m, k as int) == old(out)@ + codes_text(order@, mask, 0),
        decreases order@.len() - k,
    {
        let (code, x) = order[k];
        if m & x == x {
            let ghost before = out@;
            put_code(out, code);
            proof {
                let rest = codes_text(order@, m & !x, k + 1);
                assert(before + (code.text() + rest) =~= before + code.text() + rest);
            }
            m = m & !x;
        }
        k = k + 1;
    }
    if m != 0 {
        let ghost before = out@;
        out.push(0x30);
        out.push(0x78);
        put_hex(out, m as u64);
        assert(out@ =~= before + residue_text(m));
    } else {
        assert(out@ =~= out@ + residue_text(m));
    }
}

/// Appends rights.
pub fn put_rights(out: &mut Vec<u8>, mask: u32)
    ensures
        final(out)@ == old(out)@ + rights_text(mask),
{
    let order: [(Code, u32); 15] = rights_format_order();
    put_codes(out, order.as_slice(), mask);
}

/// Appends the policy of a mandatory label.
pub fn put_label(out: &mut Vec<u8>, mask: u32)
    ensures
        final(out)@ == old(out)@ + label_text(mask),
{
    let order: [(Code, u32); 3] = [
        (Code { first: 0x4e, second: 0x57 }, 1),
        (Code { first: 0x4e, second: 0x52 }, 2),
        (Code { first: 0x4e, second: 0x58 }, 4),
    ];
    assert(order@ =~= label_order());
    put_codes(out, order.as_slice(), mask);
}

/// Flags in text, in order from index `k` on.
pub open spec fn flags_text_from(f: u8, k: int) -> Seq<u8>
    decreases flag_order().len() - k,
{
    if k < 0 || k >= flag_order().len() {
        Seq::empty()
    } else if f & flag_order()[k].1 != 0 {
        flag_order()[k].0.text() + flags_text_from(f, k + 1)
    } else {
        flags_text_from(f, k + 1)
    }
}

/// Flags in text.
pub open spec fn flags_text(f: u8) -> Seq<u8> {
    flags_text_from(f, 0)
}

/// Flags that all have codes.
pub open spec fn flags_known(f: u8) -> bool {
    f & 0x20 == 0
}

/// Appends flags.
pub fn put_flags(out: &mut Vec<u8>, f: u8)
    ensures
        final(out)@ == old(out)@ + flags_text(f),
{
    let order: [(Code, u8); 7] = ace_flag_format_order();
    let mut k: usize = 0;
    while k < 7
        invariant
            k <= 7,
            order@ == flag_order(),
            out@ + flags_text_from(f, k as int) == old(out)@ + flags_text(f),
        decreases 7 - k,
    {
        let (code, x) = order[k];
        if f & x != 0 {
            let ghost before = out@;
            put_code(out, code);
            proof {
                let rest = flags_text_from(f, k + 1);
                assert(before + (code.text() + rest) =~= before + code.text() + rest);
            }
        }
        k = k + 1;
    }
    assert(out@ =~= out@ + flags_text_from(f, 7));
}

/// A table whose codes stand for what it says.
pub open spec fn codes_sound(order: Seq<(Code, u32)>) -> bool {
    forall|k: int|
        0 <= k < order.len() ==> right_of_pair((#[trigger] order[k]).0.first, order[k].0.second) == Some(order[k].1)
            && 0x41 <= order[k].0.first <= 0x5a && 0x41 <= order[k].0.second <= 0x5a
}

proof fn lemma_codes_round_trip(order: Seq<(Code, u32)>, m: u32, k: int, acc: u32)
    requires
        codes_sound(order),
        0 <= k <= order.len(),
    ensures
        rights_from(codes_text(order, m, k), acc) == Some(acc | m),
        is_word(codes_text(order, m, k)),
    decreases order.len() - k,
{
    let s = codes_text(order, m, k);
    if k == order.len() {
        if m == 0 {
            assert(s =~= Seq::<u8>::empty());
            assert(acc | 0u32 == acc) by (bit_vector);
        } else {
            law_hex_reads_back(m as nat);
            assert(s.subrange(2, s.len() as int) =~= hex(m as nat));
            assert forall|i: int| 0 <= i < s.len() implies word_byte(#[trigger] s[i]) by {
                if i >= 2 {
                    assert(s[i] == hex(m as nat)[i - 2]);
                    assert(is_lower_hex(hex(m as nat)[i - 2]));
                }
            }
        }
    } else {
        let (c, x) = order[k];
        assert(codes_sound(order) ==> right_of_pair(order[k].0.first, order[k].0.second) == Some(x));
        if m & x == x {
            let rest = codes_text(order, m & !x, k + 1);
            lemma_codes_round_trip(order, m & !x, k + 1, acc | x);
            assert(s =~= c.text() + rest);
            assert(s.subrange(2, s.len() as int) =~= rest);
            assert((acc | x) | (m & !x) == acc | m) by (bit_vector)
                requires
                    m & x == x,
            ;
            assert forall|i: int| 0 <= i < s.len() implies word_byte(#[trigger] s[i]) by {
                if i >= 2 {
                    assert(s[i] == rest[i - 2]);
                }
            }
        } else {
            lemma_codes_round_trip(order, m, k + 1, acc);
        }
    }
}

proof fn lemma_orders_sound()
    ensures
        codes_sound(right_order()),
        codes_sound(label_order()),
{
}

/// Rights in text are read back, and are a word.
pub proof fn law_rights_round_trip(m: u32)
    ensures
        rights_from(rights_text(m), 0) == Some(m),
        is_word(rights_text(m)),
{
    lemma_orders_sound();
    lemma_codes_round_trip(right_order(), m, 0, 0);
    assert(0u32 | m == m) by (bit_vector);
}

/// The policy of a mandatory label in text is read back, and is a word.
pub proof fn law_label_round_trip(m: u32)
    ensures
        rights_from(label_text(m), 0) == Some(m),
        is_word(label_text(m)),
{
    lemma_orders_sound();
    lemma_codes_round_trip(label_order(), m, 0, 0);
    assert(0u32 | m == m) by (bit_vector);
}

/// The flags that an order has from index `k` on.
pub open spec fn flags_tail(f: u8, k: int) -> u8 {
    if k == 0 {
        f & 0xdf
    } else if k == 1 {
        f & 0xdd
    } else if k == 2 {
        f & 0xdc
    } else if k == 3 {
        f & 0xd8
    } else if k == 4 {
        f & 0xd0
    } else if k == 5 {
        f & 0xc0
    } else if k == 6 {
        f & 0x80
    } else {
        0
    }
}

proof fn lemma_flag_bits(f: u8, acc: u8)
    ensures
        acc | 0u8 == acc,
        f & 2 != 0 ==> (acc | 2u8) | (f & 0xdd) == acc | (f & 0xdf),
        f & 2 == 0 ==> f & 0xdd == f & 0xdf,
        f & 1 != 0 ==> (acc | 1u8) | (f & 0xdc) == acc | (f & 0xdd),
        f & 1 == 0 ==> f & 0xdc == f & 0xdd,
        f & 4 != 0 ==> (acc | 4u8) | (f & 0xd8) == acc | (f & 0xdc),
        f & 4 == 0 ==> f & 0xd8 == f & 0xdc,
        f & 8 != 0 ==> (acc | 8u8) | (f & 0xd0) == acc | (f & 0xd8),
        f & 8 == 0 ==> f & 0xd0 == f & 0xd8,
        f & 0x10 != 0 ==> (acc | 0x10u8) | (f & 0xc0) == acc | (f & 0xd0),
        f & 0x10 == 0 ==> f & 0xc0 == f & 0xd0,
        f & 0x40 != 0 ==> (acc | 0x40u8) | (f & 0x80) == acc | (f & 0xc0),
        f & 0x40 == 0 ==> f & 0x80 == f & 0xc0,
        f & 0x80 != 0 ==> acc | 0x80u8 == acc | (f & 0x80),
        f & 0x80 == 0 ==> acc == acc | (f & 0x80),
{
    assert(acc | 0u8 == acc && (f & 2 != 0 ==> (acc | 2u8) | (f & 0xdd) == acc | (f & 0xdf)) && (f & 2 == 0 ==> f
        & 0xdd == f & 0xdf) && (f & 1 != 0 ==> (acc | 1u8) | (f & 0xdc) == acc | (f & 0xdd)) && (f & 1 == 0 ==> f & 0xdc
        == f & 0xdd) && (f & 4 != 0 ==> (acc | 4u8) | (f & 0xd8) == acc | (f & 0xdc)) && (f & 4 == 0 ==> f & 0xd8 == f
        & 0xdc) && (f & 8 != 0 ==> (acc | 8u8) | (f & 0xd0) == acc | (f & 0xd8)) && (f & 8 == 0 ==> f & 0xd0 == f
        & 0xd8) && (f & 0x10 != 0 ==> (acc | 0x10u8) | (f & 0xc0) == acc | (f & 0xd0)) && (f & 0x10 == 0 ==> f & 0xc0
        == f & 0xd0) && (f & 0x40 != 0 ==> (acc | 0x40u8) | (f & 0x80) == acc | (f & 0xc0)) && (f & 0x40 == 0 ==> f
        & 0x80 == f & 0xc0) && (f & 0x80 != 0 ==> acc | 0x80u8 == acc | (f & 0x80)) && (f & 0x80 == 0 ==> acc == acc
        | (f & 0x80))) by (bit_vector);
}

proof fn lemma_flags_round_trip(f: u8, k: int, acc: u8)
    requires
        0 <= k <= 7,
    ensures
        flags_from(flags_text_from(f, k), acc) == Some(acc | flags_tail(f, k)),
        is_word(flags_text_from(f, k)),
    decreases 7 - k,
{
    lemma_flag_bits(f, acc);
    let s = flags_text_from(f, k);
    if k < 7 {
        let (c, x) = flag_order()[k];
        assert(flag_of_pair(c.first, c.second) == Some(x));
        if f & x != 0 {
            let rest = flags_text_from(f, k + 1);
            lemma_flags_round_trip(f, k + 1, acc | x);
            assert(s =~= c.text() + rest);
            assert(s.subrange(2, s.len() as int) =~= rest);
            assert forall|i: int| 0 <= i < s.len() implies word_byte(#[trigger] s[i]) by {
                if i >= 2 {
                    assert(s[i] == rest[i - 2]);
                }
            }
        } else {
            lemma_flags_round_trip(f, k + 1, acc);
        }
    }
}

/// Flags in text are read back, and are a word.
pub proof fn law_flags_round_trip(f: u8)
    requires
        flags_known(f),
    ensures
        flags_from(flags_text(f), 0) == Some(f),
        is_word(flags_text(f)),
{
    lemma_flags_round_trip(f, 0, 0);
    assert(0u8 | (f & 0xdf) == f) by (bit_vector)
        requires
            f & 0x20 == 0,
    ;
}

} // verus!
