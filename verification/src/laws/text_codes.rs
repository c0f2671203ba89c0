//! The codes of descriptor text, each with what it stands for.

use vstd::prelude::*;
use crate::security::sddl::fields::{
    codes_text, flags_from, flags_text, flags_text_from, label_order, label_text, read_flags, rights_from, rights_text,
};
use crate::security::sddl::grammar::{acl_flags_from, acl_flags_text, control_bits, flags_of_control, AclFlags, AclKind};
use crate::security::sddl::vocab::{
    ace_code_from_type, ace_flag_from_code, ace_type_from_code, code_of_type, flag_of_pair, flag_order,
    is_domain_relative_alias, right_from_code, right_of_pair, right_order, type_of_code, Code,
};
use crate::security::sddl::wellknown::WellKnownSid;
use crate::security::sid::SidView;
use crate::security::text::hex;

verus! {

/// Each flag code denotes its own bit, and no other pair is a code.
pub proof fn law_flag_codes(a: u8, b: u8)
    ensures
        flag_of_pair(0x43u8, 0x49u8) == Some(0x02u8),
        flag_of_pair(0x4fu8, 0x49u8) == Some(0x01u8),
        flag_of_pair(0x4eu8, 0x50u8) == Some(0x04u8),
        flag_of_pair(0x49u8, 0x4fu8) == Some(0x08u8),
        flag_of_pair(0x49u8, 0x44u8) == Some(0x10u8),
        flag_of_pair(0x53u8, 0x41u8) == Some(0x40u8),
        flag_of_pair(0x46u8, 0x41u8) == Some(0x80u8),
        flag_of_pair(a, b) is Some ==> {
            ||| a == 0x43 && b == 0x49
            ||| a == 0x4f && b == 0x49
            ||| a == 0x4e && b == 0x50
            ||| a == 0x49 && b == 0x4f
            ||| a == 0x49 && b == 0x44
            ||| a == 0x53 && b == 0x41
            ||| a == 0x46 && b == 0x41
        },
{
}

/// What the call gives for a code.
pub proof fn law_flag_code_calls(code: Code, r: Option<u8>)
    requires
        call_ensures(ace_flag_from_code, (code,), r),
    ensures
        r == Some(0x02u8) <==> code.first == 0x43 && code.second == 0x49,
        r == Some(0x01u8) <==> code.first == 0x4f && code.second == 0x49,
        r == Some(0x04u8) <==> code.first == 0x4e && code.second == 0x50,
        r == Some(0x08u8) <==> code.first == 0x49 && code.second == 0x4f,
        r == Some(0x10u8) <==> code.first == 0x49 && code.second == 0x44,
        r == Some(0x40u8) <==> code.first == 0x53 && code.second == 0x41,
        r == Some(0x80u8) <==> code.first == 0x46 && code.second == 0x41,
        r matches Some(f) ==> f == 1 || f == 2 || f == 4 || f == 8 || f == 0x10 || f == 0x40 || f == 0x80,
{
}

/// A code occurs in text that falls into codes.
pub open spec fn occurs(s: Seq<u8>, a: u8, b: u8) -> bool
    decreases s.len(),
{
    s.len() >= 2 && ((s[0] == a && s[1] == b) || occurs(s.subrange(2, s.len() as int), a, b))
}

proof fn lemma_flags_by_bits(s: Seq<u8>, acc: u8, a: u8, b: u8, bit: u8)
    requires
        flag_of_pair(a, b) == Some(bit),
    ensures
        flags_from(s, acc) matches Some(f) ==> (f & bit != 0 <==> acc & bit != 0 || occurs(s, a, b)),
    decreases s.len(),
{
    if s.len() >= 2 {
        if let Some(m) = flag_of_pair(s[0], s[1]) {
            lemma_flags_by_bits(s.subrange(2, s.len() as int), acc | m, a, b, bit);
            law_flag_codes(s[0], s[1]);
            law_flag_codes(a, b);
            assert((acc | m) & bit != 0 <==> acc & bit != 0 || m == bit) by (bit_vector)
                requires
                    m == 1 || m == 2 || m == 4 || m == 8 || m == 0x10 || m == 0x40 || m == 0x80,
                    bit == 1 || bit == 2 || bit == 4 || bit == 8 || bit == 0x10 || bit == 0x40 || bit == 0x80,
            ;
        }
    }
}

/// Reading flags: of the flags that text denotes, each bit is set if and only if its code
/// occurs in the text.
pub proof fn law_flags_that_are_read(s: &[u8], r: Option<u8>)
    requires
        call_ensures(read_flags, (s,), r),
    ensures
        r matches Some(f) ==> {
            &&& f & 0x02 != 0 <==> occurs(s@, 0x43u8, 0x49u8)
            &&& f & 0x01 != 0 <==> occurs(s@, 0x4fu8, 0x49u8)
            &&& f & 0x04 != 0 <==> occurs(s@, 0x4eu8, 0x50u8)
            &&& f & 0x08 != 0 <==> occurs(s@, 0x49u8, 0x4fu8)
            &&& f & 0x10 != 0 <==> occurs(s@, 0x49u8, 0x44u8)
            &&& f & 0x40 != 0 <==> occurs(s@, 0x53u8, 0x41u8)
            &&& f & 0x80 != 0 <==> occurs(s@, 0x46u8, 0x41u8)
            &&& f & 0x20 == 0
        },
{
    if let Some(f) = r {
        law_flag_codes(0, 0);
        lemma_flags_by_bits(s@, 0, 0x43u8, 0x49u8, 0x02);
        lemma_flags_by_bits(s@, 0, 0x4fu8, 0x49u8, 0x01);
        lemma_flags_by_bits(s@, 0, 0x4eu8, 0x50u8, 0x04);
        lemma_flags_by_bits(s@, 0, 0x49u8, 0x4fu8, 0x08);
        lemma_flags_by_bits(s@, 0, 0x49u8, 0x44u8, 0x10);
        lemma_flags_by_bits(s@, 0, 0x53u8, 0x41u8, 0x40);
        lemma_flags_by_bits(s@, 0, 0x46u8, 0x41u8, 0x80);
        lemma_no_other_flag(s@, 0);
        assert(0u8 & 1 == 0 && 0u8 & 2 == 0 && 0u8 & 4 == 0 && 0u8 & 8 == 0 && 0u8 & 0x10 == 0 && 0u8 & 0x20 == 0 && 0u8
            & 0x40 == 0 && 0u8 & 0x80 == 0) by (bit_vector);
    }
}

proof fn lemma_no_other_flag(s: Seq<u8>, acc: u8)
    ensures
        flags_from(s, acc) matches Some(f) ==> (f & 0x20 == 0 <==> acc & 0x20 == 0),
    decreases s.len(),
{
    if s.len() >= 2 {
        if let Some(m) = flag_of_pair(s[0], s[1]) {
            law_flag_codes(s[0], s[1]);
            lemma_no_other_flag(s.subrange(2, s.len() as int), acc | m);
            assert((acc | m) & 0x20 == 0 <==> acc & 0x20 == 0) by (bit_vector)
                requires
                    m == 1 || m == 2 || m == 4 || m == 8 || m == 0x10 || m == 0x40 || m == 0x80,
            ;
        }
    }
}

/// Text or nothing.
pub open spec fn text_if(yes: bool, text: Seq<u8>) -> Seq<u8> {
    if yes {
        text
    } else {
        Seq::empty()
    }
}

proof fn lemma_flag_step(f: u8, k: int, c: Code, bit: u8)
    requires
        0 <= k < 7,
        flag_order()[k] == (c, bit),
    ensures
        flags_text_from(f, k) == text_if(f & bit != 0, seq![c.first, c.second]) + flags_text_from(f, k + 1),
{
    assert(flags_text_from(f, k) =~= text_if(f & bit != 0, seq![c.first, c.second]) + flags_text_from(f, k + 1));
}

/// Writing flags: each bit that is set as its code, in one order.
pub proof fn law_flags_that_are_written(f: u8)
    ensures
        flags_text(f) == text_if(f & 0x02 != 0, seq![0x43u8, 0x49u8]) + (text_if(f & 0x01 != 0, seq![0x4fu8, 0x49u8]) + (text_if(f & 0x04 != 0, seq![0x4eu8, 0x50u8]) + (text_if(f & 0x08 != 0, seq![0x49u8, 0x4fu8]) + (text_if(f & 0x10 != 0, seq![0x49u8, 0x44u8]) + (text_if(f & 0x40 != 0, seq![0x53u8, 0x41u8]) + (text_if(f & 0x80 != 0, seq![0x46u8, 0x41u8]))))))),
{
    lemma_flag_step(f, 0, Code { first: 0x43, second: 0x49 }, 0x02);
    lemma_flag_step(f, 1, Code { first: 0x4f, second: 0x49 }, 0x01);
    lemma_flag_step(f, 2, Code { first: 0x4e, second: 0x50 }, 0x04);
    lemma_flag_step(f, 3, Code { first: 0x49, second: 0x4f }, 0x08);
    lemma_flag_step(f, 4, Code { first: 0x49, second: 0x44 }, 0x10);
    lemma_flag_step(f, 5, Code { first: 0x53, second: 0x41 }, 0x40);
    lemma_flag_step(f, 6, Code { first: 0x46, second: 0x41 }, 0x80);
    assert(flags_text_from(f, 7) =~= Seq::empty());
    assert(flags_text_from(f, 6) =~= text_if(f & 0x80 != 0, seq![0x46u8, 0x41u8]));
}

/// Each type code denotes its own type.
pub proof fn law_type_codes_by_number()
    ensures
        type_of_code(seq![0x41u8]) == Some(0x00u8),
        code_of_type(0x00) == Some(seq![0x41u8]),
        type_of_code(seq![0x44u8]) == Some(0x01u8),
        code_of_type(0x01) == Some(seq![0x44u8]),
        type_of_code(seq![0x41u8, 0x55u8]) == Some(0x02u8),
        code_of_type(0x02) == Some(seq![0x41u8, 0x55u8]),
        type_of_code(seq![0x4fu8, 0x41u8]) == Some(0x05u8),
        code_of_type(0x05) == Some(seq![0x4fu8, 0x41u8]),
        type_of_code(seq![0x4fu8, 0x44u8]) == Some(0x06u8),
        code_of_type(0x06) == Some(seq![0x4fu8, 0x44u8]),
        type_of_code(seq![0x4fu8, 0x55u8]) == Some(0x07u8),
        code_of_type(0x07) == Some(seq![0x4fu8, 0x55u8]),
        type_of_code(seq![0x58u8, 0x41u8]) == Some(0x09u8),
        code_of_type(0x09) == Some(seq![0x58u8, 0x41u8]),
        type_of_code(seq![0x58u8, 0x44u8]) == Some(0x0au8),
        code_of_type(0x0a) == Some(seq![0x58u8, 0x44u8]),
        type_of_code(seq![0x58u8, 0x55u8]) == Some(0x0du8),
        code_of_type(0x0d) == Some(seq![0x58u8, 0x55u8]),
        type_of_code(seq![0x5au8, 0x41u8]) == Some(0x0bu8),
        code_of_type(0x0b) == Some(seq![0x5au8, 0x41u8]),
        type_of_code(seq![0x5au8, 0x44u8]) == Some(0x0cu8),
        code_of_type(0x0c) == Some(seq![0x5au8, 0x44u8]),
        type_of_code(seq![0x5au8, 0x55u8]) == Some(0x0fu8),
        code_of_type(0x0f) == Some(seq![0x5au8, 0x55u8]),
        type_of_code(seq![0x4du8, 0x4cu8]) == Some(0x11u8),
        code_of_type(0x11) == Some(seq![0x4du8, 0x4cu8]),
        type_of_code(seq![0x52u8, 0x41u8]) == Some(0x12u8),
        code_of_type(0x12) == Some(seq![0x52u8, 0x41u8]),
        type_of_code(seq![0x53u8, 0x50u8]) == Some(0x13u8),
        code_of_type(0x13) == Some(seq![0x53u8, 0x50u8]),
{
}

/// A type has a code if and only if it is one of these numbers, and text is a code only if it is
/// the code of the type it denotes.
pub proof fn law_types_with_codes(t: u8, s: Seq<u8>)
    ensures
        code_of_type(t) is Some <==> t == 0x00 || t == 0x01 || t == 0x02 || t == 0x05 || t == 0x06 || t == 0x07 || t == 0x09 || t == 0x0a || t == 0x0d || t == 0x0b || t == 0x0c || t == 0x0f || t == 0x11 || t == 0x12 || t == 0x13,
        type_of_code(s) matches Some(n) ==> code_of_type(n) == Some(s),
{
    if let Some(n) = type_of_code(s) {
        assert(code_of_type(n)->Some_0 =~= s);
    }
}

/// What the calls give for types and codes.
pub proof fn law_type_code_calls(code: &[u8], t: u8, r: Option<u8>, c: Option<Vec<u8>>)
    requires
        call_ensures(ace_type_from_code, (code,), r),
        call_ensures(ace_code_from_type, (t,), c),
    ensures
        r == type_of_code(code@),
        c matches Some(v) ==> code_of_type(t) == Some(v@),
        c is None ==> code_of_type(t) is None,
{
}

/// Each code of rights denotes its own rights.
pub proof fn law_right_codes()
    ensures
        right_of_pair(0x47u8, 0x41u8) == Some(0x10000000u32),
        right_of_pair(0x47u8, 0x52u8) == Some(0x80000000u32),
        right_of_pair(0x47u8, 0x57u8) == Some(0x40000000u32),
        right_of_pair(0x47u8, 0x58u8) == Some(0x20000000u32),
        right_of_pair(0x53u8, 0x44u8) == Some(0x00010000u32),
        right_of_pair(0x52u8, 0x43u8) == Some(0x00020000u32),
        right_of_pair(0x57u8, 0x44u8) == Some(0x00040000u32),
        right_of_pair(0x57u8, 0x4fu8) == Some(0x00080000u32),
        right_of_pair(0x46u8, 0x41u8) == Some(0x001f01ffu32),
        right_of_pair(0x46u8, 0x52u8) == Some(0x00120089u32),
        right_of_pair(0x46u8, 0x57u8) == Some(0x00120116u32),
        right_of_pair(0x46u8, 0x58u8) == Some(0x001200a0u32),
        right_of_pair(0x4bu8, 0x41u8) == Some(0x000f003fu32),
        right_of_pair(0x4bu8, 0x52u8) == Some(0x00020019u32),
        right_of_pair(0x4bu8, 0x57u8) == Some(0x00020006u32),
        right_of_pair(0x4bu8, 0x58u8) == Some(0x00020019u32),
        right_of_pair(0x43u8, 0x43u8) == Some(0x00000001u32),
        right_of_pair(0x44u8, 0x43u8) == Some(0x00000002u32),
        right_of_pair(0x4cu8, 0x43u8) == Some(0x00000004u32),
        right_of_pair(0x53u8, 0x57u8) == Some(0x00000008u32),
        right_of_pair(0x52u8, 0x50u8) == Some(0x00000010u32),
        right_of_pair(0x57u8, 0x50u8) == Some(0x00000020u32),
        right_of_pair(0x44u8, 0x54u8) == Some(0x00000040u32),
        right_of_pair(0x4cu8, 0x4fu8) == Some(0x00000080u32),
        right_of_pair(0x43u8, 0x52u8) == Some(0x00000100u32),
        right_of_pair(0x4eu8, 0x57u8) == Some(0x00000001u32),
        right_of_pair(0x4eu8, 0x52u8) == Some(0x00000002u32),
        right_of_pair(0x4eu8, 0x58u8) == Some(0x00000004u32),
{
}

/// No other pair is a code of rights.
pub proof fn law_no_other_right_code(a: u8, b: u8)
    ensures
        right_of_pair(a, b) is Some ==> {
            ||| a == 0x47 && b == 0x41
            ||| a == 0x47 && b == 0x52
            ||| a == 0x47 && b == 0x57
            ||| a == 0x47 && b == 0x58
            ||| a == 0x53 && b == 0x44
            ||| a == 0x52 && b == 0x43
            ||| a == 0x57 && b == 0x44
            ||| a == 0x57 && b == 0x4f
            ||| a == 0x46 && b == 0x41
            ||| a == 0x46 && b == 0x52
            ||| a == 0x46 && b == 0x57
            ||| a == 0x46 && b == 0x58
            ||| a == 0x4b && b == 0x41
            ||| a == 0x4b && b == 0x52
            ||| a == 0x4b && b == 0x57
            ||| a == 0x4b && b == 0x58
            ||| a == 0x43 && b == 0x43
            ||| a == 0x44 && b == 0x43
            ||| a == 0x4c && b == 0x43
            ||| a == 0x53 && b == 0x57
            ||| a == 0x52 && b == 0x50
            ||| a == 0x57 && b == 0x50
            ||| a == 0x44 && b == 0x54
            ||| a == 0x4c && b == 0x4f
            ||| a == 0x43 && b == 0x52
            ||| a == 0x4e && b == 0x57
            ||| a == 0x4e && b == 0x52
            ||| a == 0x4e && b == 0x58
        },
{
}

/// What the call gives for a code of rights.
pub proof fn law_right_code_calls(code: Code, r: Option<u32>)
    requires
        call_ensures(right_from_code, (code,), r),
    ensures
        r == right_of_pair(code.first, code.second),
{
}

/// Reading rights goes code by code: each code adds its rights to those of the rest.
pub proof fn law_rights_add_up(a: u8, b: u8, rest: Seq<u8>, m: u32, acc: u32)
    requires
        right_of_pair(a, b) == Some(m),
        a != 0x30,
    ensures
        rights_from(seq![a, b] + rest, acc) == rights_from(rest, acc | m),
        rights_from(Seq::empty(), acc) == Some(acc),
        rights_from(seq![a], acc) is None,
{
    let s = seq![a, b] + rest;
    assert(s.subrange(2, s.len() as int) =~= rest);
}

/// The order in which rights are written: files, registry keys, generic, standard.
pub proof fn law_order_of_rights(k: int)
    ensures
        right_order().len() == 15,
        right_order()[0] == (Code { first: 0x46u8, second: 0x41u8 }, 0x001f01ffu32),
        right_order()[1] == (Code { first: 0x46u8, second: 0x52u8 }, 0x00120089u32),
        right_order()[2] == (Code { first: 0x46u8, second: 0x57u8 }, 0x00120116u32),
        right_order()[3] == (Code { first: 0x46u8, second: 0x58u8 }, 0x001200a0u32),
        right_order()[4] == (Code { first: 0x4bu8, second: 0x41u8 }, 0x000f003fu32),
        right_order()[5] == (Code { first: 0x4bu8, second: 0x52u8 }, 0x00020019u32),
        right_order()[6] == (Code { first: 0x4bu8, second: 0x57u8 }, 0x00020006u32),
        right_order()[7] == (Code { first: 0x47u8, second: 0x41u8 }, 0x10000000u32),
        right_order()[8] == (Code { first: 0x47u8, second: 0x52u8 }, 0x80000000u32),
        right_order()[9] == (Code { first: 0x47u8, second: 0x57u8 }, 0x40000000u32),
        right_order()[10] == (Code { first: 0x47u8, second: 0x58u8 }, 0x20000000u32),
        right_order()[11] == (Code { first: 0x53u8, second: 0x44u8 }, 0x00010000u32),
        right_order()[12] == (Code { first: 0x52u8, second: 0x43u8 }, 0x00020000u32),
        right_order()[13] == (Code { first: 0x57u8, second: 0x44u8 }, 0x00040000u32),
        right_order()[14] == (Code { first: 0x57u8, second: 0x4fu8 }, 0x00080000u32),
{
}

proof fn lemma_codes_step(m: u32, k: int)
    requires
        0 <= k < 15,
    ensures
        ({
            let (c, x) = right_order()[k];
            codes_text(right_order(), m, k) == text_if(m & x == x, c.text()) + codes_text(
                right_order(),
                if m & x == x {
                    m & !x
                } else {
                    m
                },
                k + 1,
            )
        }),
{
    let (c, x) = right_order()[k];
    assert(codes_text(right_order(), m, k) =~= text_if(m & x == x, c.text()) + codes_text(
        right_order(),
        if m & x == x {
            m & !x
        } else {
            m
        },
        k + 1,
    ));
}

/// Writing rights takes the codes in order: one whose rights are all still there is written and
/// its rights are done with, and what no code stands for is a number behind `0x`.
pub proof fn law_rights_that_are_written(m: u32, k: int)
    ensures
        rights_text(m) == codes_text(right_order(), m, 0),
        0 <= k < 15 ==> ({
            let (c, x) = right_order()[k];
            &&& m & x == x ==> codes_text(right_order(), m, k) == seq![c.first, c.second] + codes_text(
                right_order(),
                m & !x,
                k + 1,
            )
            &&& m & x != x ==> codes_text(right_order(), m, k) == codes_text(right_order(), m, k + 1)
        }),
        codes_text(right_order(), m, 15) == text_if(m != 0, seq![0x30u8, 0x78u8] + hex(m as nat)),
{
    if 0 <= k < 15 {
        lemma_codes_step(m, k);
    }
}

/// All rights of a file are `FA` and nothing else, and generic rights are their own codes.
pub proof fn law_common_rights()
    ensures
        rights_text(0x001f_01ff) == seq![0x46u8, 0x41u8],
        rights_text(0x1000_0000) == seq![0x47u8, 0x41u8],
        rights_text(0) == Seq::<u8>::empty(),
{
    lemma_common_rights();
}

#[verifier::spinoff_prover]
#[verifier::rlimit(60)]
proof fn lemma_common_rights()
    ensures
        rights_text(0x001f_01ff) == seq![0x46u8, 0x41u8],
        rights_text(0x1000_0000) == seq![0x47u8, 0x41u8],
        rights_text(0) == Seq::<u8>::empty(),
{
    let order = right_order();
    assert(0x001f_01ffu32 & 0x001f_01ffu32 == 0x001f_01ffu32 && 0x001f_01ffu32 & !0x001f_01ffu32 == 0) by (bit_vector);
    lemma_nothing_left(1);
    lemma_nothing_left(0);
    assert(codes_text(order, 0x001f_01ff, 0) =~= seq![0x46u8, 0x41u8]);
    lemma_generic_all();
}

proof fn lemma_nothing_left(k: int)
    requires
        0 <= k <= 15,
    ensures
        codes_text(right_order(), 0, k) == Seq::<u8>::empty(),
    decreases 15 - k,
{
    if k < 15 {
        let x = right_order()[k].1;
        assert(x != 0);
        assert(0u32 & x == 0) by (bit_vector);
        lemma_nothing_left(k + 1);
    }
}

proof fn lemma_generic_all()
    ensures
        codes_text(right_order(), 0x1000_0000, 0) == seq![0x47u8, 0x41u8],
{
    let order = right_order();
    assert(0x1000_0000u32 & 0x001f_01ffu32 == 0 && 0x1000_0000u32 & 0x0012_0089u32 == 0 && 0x1000_0000u32 & 0x0012_0116u32
        == 0 && 0x1000_0000u32 & 0x0012_00a0u32 == 0 && 0x1000_0000u32 & 0x000f_003fu32 == 0 && 0x1000_0000u32
        & 0x0002_0019u32 == 0 && 0x1000_0000u32 & 0x0002_0006u32 == 0 && 0x1000_0000u32 & 0x1000_0000u32 == 0x1000_0000u32
        && 0x1000_0000u32 & !0x1000_0000u32 == 0) by (bit_vector);
    lemma_nothing_left(8);
    assert(codes_text(order, 0x1000_0000, 7) =~= seq![0x47u8, 0x41u8]);
    assert(codes_text(order, 0x1000_0000, 6) == codes_text(order, 0x1000_0000, 7));
    assert(codes_text(order, 0x1000_0000, 5) == codes_text(order, 0x1000_0000, 6));
    assert(codes_text(order, 0x1000_0000, 4) == codes_text(order, 0x1000_0000, 5));
    assert(codes_text(order, 0x1000_0000, 3) == codes_text(order, 0x1000_0000, 4));
    assert(codes_text(order, 0x1000_0000, 2) == codes_text(order, 0x1000_0000, 3));
    assert(codes_text(order, 0x1000_0000, 1) == codes_text(order, 0x1000_0000, 2));
}

/// The policy of a label: no write up, no read up, no execute up, by their bits.
pub proof fn law_label_codes(m: u32)
    ensures
        label_order().len() == 3,
        label_order()[0] == (Code { first: 0x4eu8, second: 0x57u8 }, 1u32),
        label_order()[1] == (Code { first: 0x4eu8, second: 0x52u8 }, 2u32),
        label_order()[2] == (Code { first: 0x4eu8, second: 0x58u8 }, 4u32),
        label_text(m) == codes_text(label_order(), m, 0),
{
}

/// Names that are relative to a domain or a machine.
pub proof fn law_relative_names(code: Code, r: bool)
    requires
        call_ensures(is_domain_relative_alias, (code,), r),
    ensures
        r <==> {
            ||| code.first == 0x44 && code.second == 0x41
            ||| code.first == 0x44 && code.second == 0x47
            ||| code.first == 0x44 && code.second == 0x55
            ||| code.first == 0x44 && code.second == 0x44
            ||| code.first == 0x44 && code.second == 0x43
            ||| code.first == 0x4c && code.second == 0x41
            ||| code.first == 0x4c && code.second == 0x47
            ||| code.first == 0x53 && code.second == 0x41
            ||| code.first == 0x45 && code.second == 0x41
            ||| code.first == 0x52 && code.second == 0x4f
            ||| code.first == 0x43 && code.second == 0x41
            ||| code.first == 0x50 && code.second == 0x41
            ||| code.first == 0x43 && code.second == 0x4e
            ||| code.first == 0x52 && code.second == 0x53
            ||| code.first == 0x41 && code.second == 0x50
            ||| code.first == 0x4b && code.second == 0x41
            ||| code.first == 0x45 && code.second == 0x4b
        },
{
}

/// The principals that are known by name, by their numbers.
pub proof fn law_known_principals()
    ensures
        WellKnownSid::Everyone.sid() == (SidView { authority: 1, subs: seq![0u32] }),
        WellKnownSid::CreatorOwner.sid() == (SidView { authority: 3, subs: seq![0u32] }),
        WellKnownSid::CreatorGroup.sid() == (SidView { authority: 3, subs: seq![1u32] }),
        WellKnownSid::Service.sid() == (SidView { authority: 5, subs: seq![6u32] }),
        WellKnownSid::Anonymous.sid() == (SidView { authority: 5, subs: seq![7u32] }),
        WellKnownSid::AuthenticatedUsers.sid() == (SidView { authority: 5, subs: seq![11u32] }),
        WellKnownSid::LocalSystem.sid() == (SidView { authority: 5, subs: seq![18u32] }),
        WellKnownSid::LocalService.sid() == (SidView { authority: 5, subs: seq![19u32] }),
        WellKnownSid::NetworkService.sid() == (SidView { authority: 5, subs: seq![20u32] }),
        WellKnownSid::BuiltinAdministrators.sid() == (SidView { authority: 5, subs: seq![32u32, 544u32] }),
        WellKnownSid::BuiltinUsers.sid() == (SidView { authority: 5, subs: seq![32u32, 545u32] }),
        WellKnownSid::LowIl.sid() == (SidView { authority: 16, subs: seq![4096u32] }),
        WellKnownSid::MediumIl.sid() == (SidView { authority: 16, subs: seq![8192u32] }),
        WellKnownSid::MediumPlusIl.sid() == (SidView { authority: 16, subs: seq![8448u32] }),
        WellKnownSid::HighIl.sid() == (SidView { authority: 16, subs: seq![12288u32] }),
        WellKnownSid::SystemIl.sid() == (SidView { authority: 16, subs: seq![16384u32] }),
{
}

/// The flags of a list in text: `P`, then `AR`, then `AI`.
pub proof fn law_list_flags_that_are_written(f: AclFlags)
    ensures
        acl_flags_text(f) == text_if(f.protected, seq![0x50u8]) + text_if(f.inherit_req, seq![0x41u8, 0x52u8]) + text_if(
            f.inherited,
            seq![0x41u8, 0x49u8],
        ),
{
}

/// Reading the flags of a list goes flag by flag, and each sets its own.
pub proof fn law_list_flags_that_are_read(s: Seq<u8>, p: int, end: int, acc: AclFlags)
    requires
        0 <= p < end <= s.len(),
    ensures
        s[p] == 0x50 ==> acl_flags_from(s, p, end, acc) == acl_flags_from(
            s,
            p + 1,
            end,
            (AclFlags { protected: true, inherit_req: acc.inherit_req, inherited: acc.inherited }),
        ),
        s[p] == 0x41 && p + 1 < end && s[p + 1] == 0x52 ==> acl_flags_from(s, p, end, acc) == acl_flags_from(
            s,
            p + 2,
            end,
            (AclFlags { protected: acc.protected, inherit_req: true, inherited: acc.inherited }),
        ),
        s[p] == 0x41 && p + 1 < end && s[p + 1] == 0x49 ==> acl_flags_from(s, p, end, acc) == acl_flags_from(
            s,
            p + 2,
            end,
            (AclFlags { protected: acc.protected, inherit_req: acc.inherit_req, inherited: true }),
        ),
        s[p] != 0x50 && s[p] != 0x41 ==> acl_flags_from(s, p, end, acc) is None,
        acl_flags_from(s, end, end, acc) == Some(acc),
{
}

/// The control bits that the flags of a list stand for, each list with its own.
pub proof fn law_list_flags_by_bits(f: AclFlags, control: u16)
    ensures
        control_bits(AclKind::Dacl, f) == 0x0004u16 | (if f.protected {
            0x1000u16
        } else {
            0
        }) | (if f.inherit_req {
            0x0100u16
        } else {
            0
        }) | (if f.inherited {
            0x0400u16
        } else {
            0
        }),
        control_bits(AclKind::Sacl, f) == 0x0010u16 | (if f.protected {
            0x2000u16
        } else {
            0
        }) | (if f.inherit_req {
            0x0200u16
        } else {
            0
        }) | (if f.inherited {
            0x0800u16
        } else {
            0
        }),
        flags_of_control(AclKind::Dacl, control).protected <==> control & 0x1000 != 0,
        flags_of_control(AclKind::Dacl, control).inherit_req <==> control & 0x0100 != 0,
        flags_of_control(AclKind::Dacl, control).inherited <==> control & 0x0400 != 0,
        flags_of_control(AclKind::Sacl, control).protected <==> control & 0x2000 != 0,
        flags_of_control(AclKind::Sacl, control).inherit_req <==> control & 0x0200 != 0,
        flags_of_control(AclKind::Sacl, control).inherited <==> control & 0x0800 != 0,
{
}

} // verus!
