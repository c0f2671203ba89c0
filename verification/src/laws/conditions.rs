//! Conditional expressions: their bytecode byte by byte, and their text word by word.

use vstd::prelude::*;
use vstd::utf8::decode_utf8;
use crate::bytes::{law_le32_reads_back, law_le64_reads_back, le32, le32_at, le64, le64_at};
use crate::security::sddl::cond::{
    condition_tokens, literal_tokens, literals_tokens, operand_tokens, operator_token, parse, parse_condition_to_artx,
    format_condition_from_artx,
};
use crate::security::sddl::condition::{
    applied, artx, bits_of, code, compare_code, compare_of, decode_artx, encodable, height, literal_at, literal_code,
    literals_code, machine, member_code, member_of, operand_at, operand_code, signed, sized, source_code, source_of,
    text_encodable, CompareOp, Condition, ConditionView, ItemView, LiteralView, MemberOp, OperandView, Source,
};
use crate::security::sddl::names::{byte_text, is_space, sid_field};
use crate::security::sddl::tokens::{
    gap, name_byte, name_end, quote_end, render, sign_at, sign_text, token_at, token_text, tokens_from, Sign, TokenView,
};
use crate::security::sddl::words::{
    int_text, keyword_of, keyword_text, law_keyword_reads_back, octet_text, put_keyword, read_keyword, source_text,
    Keyword,
};
use crate::security::sddl::SddlError;
use crate::security::sid::{sid_bytes, sid_of};
use crate::security::text::decimal;
use crate::utf16::text16;

verus! {

/// The byte of each operator, written and read.
pub proof fn law_operator_bytes(b: u8)
    ensures
        compare_code(CompareOp::Eq) == 0x80 && compare_of(0x80) == Some(CompareOp::Eq),
        compare_code(CompareOp::Ne) == 0x81 && compare_of(0x81) == Some(CompareOp::Ne),
        compare_code(CompareOp::Lt) == 0x82 && compare_of(0x82) == Some(CompareOp::Lt),
        compare_code(CompareOp::Le) == 0x83 && compare_of(0x83) == Some(CompareOp::Le),
        compare_code(CompareOp::Gt) == 0x84 && compare_of(0x84) == Some(CompareOp::Gt),
        compare_code(CompareOp::Ge) == 0x85 && compare_of(0x85) == Some(CompareOp::Ge),
        compare_code(CompareOp::Contains) == 0x86 && compare_of(0x86) == Some(CompareOp::Contains),
        compare_code(CompareOp::AnyOf) == 0x88 && compare_of(0x88) == Some(CompareOp::AnyOf),
        compare_code(CompareOp::NotContains) == 0x8e && compare_of(0x8e) == Some(CompareOp::NotContains),
        compare_code(CompareOp::NotAnyOf) == 0x8f && compare_of(0x8f) == Some(CompareOp::NotAnyOf),
        member_code(MemberOp::MemberOf) == 0x89 && member_of(0x89) == Some(MemberOp::MemberOf),
        member_code(MemberOp::DeviceMemberOf) == 0x8a && member_of(0x8a) == Some(MemberOp::DeviceMemberOf),
        member_code(MemberOp::MemberOfAny) == 0x8b && member_of(0x8b) == Some(MemberOp::MemberOfAny),
        member_code(MemberOp::DeviceMemberOfAny) == 0x8c && member_of(0x8c) == Some(MemberOp::DeviceMemberOfAny),
        member_code(MemberOp::NotMemberOf) == 0x90 && member_of(0x90) == Some(MemberOp::NotMemberOf),
        member_code(MemberOp::NotDeviceMemberOf) == 0x91 && member_of(0x91) == Some(MemberOp::NotDeviceMemberOf),
        member_code(MemberOp::NotMemberOfAny) == 0x92 && member_of(0x92) == Some(MemberOp::NotMemberOfAny),
        member_code(MemberOp::NotDeviceMemberOfAny) == 0x93 && member_of(0x93) == Some(MemberOp::NotDeviceMemberOfAny),
        compare_of(b) is Some ==> 0x80 <= b <= 0x86 || b == 0x88 || b == 0x8e || b == 0x8f,
        member_of(b) is Some ==> 0x89 <= b <= 0x8c || 0x90 <= b <= 0x93,
        source_code(Source::Local) == 0xf8 && source_of(0xf8) == Source::Local,
        source_code(Source::User) == 0xf9 && source_of(0xf9) == Source::User,
        source_code(Source::Resource) == 0xfa && source_of(0xfa) == Source::Resource,
        source_code(Source::Device) == 0xfb && source_of(0xfb) == Source::Device,
{
}

/// The bytecode of an expression: operands first, each operator behind what it joins.
pub proof fn law_expressions_in_bytes(l: ConditionView, r: ConditionView, x: OperandView, y: OperandView, c: CompareOp, m: MemberOp)
    ensures
        code(ConditionView::And(Box::new(l), Box::new(r))) == code(l) + code(r) + seq![0xa0u8],
        code(ConditionView::Or(Box::new(l), Box::new(r))) == code(l) + code(r) + seq![0xa1u8],
        code(ConditionView::Not(Box::new(l))) == code(l) + seq![0xa2u8],
        code(ConditionView::Exists(x)) == operand_code(x) + seq![0x87u8],
        code(ConditionView::NotExists(x)) == operand_code(x) + seq![0x8du8],
        code(ConditionView::Compare { op: c, lhs: x, rhs: y }) == operand_code(x) + operand_code(y) + seq![
            compare_code(c),
        ],
        code(ConditionView::Member { op: m, operand: x }) == operand_code(x) + seq![member_code(m)],
{
}

proof fn lemma_sized(tag: u8, body: Seq<u8>)
    requires
        body.len() <= u32::MAX,
    ensures
        ({
            let b = sized(tag, body);
            &&& b.len() == 5 + body.len()
            &&& b[0] == tag
            &&& le32_at(b, 1) == body.len()
            &&& b.subrange(5, b.len() as int) == body
        }),
{
    let b = sized(tag, body);
    assert(b.subrange(1, 5) =~= le32(body.len() as u32));
    law_le32_reads_back(b, 1, body.len() as u32);
    assert(b.subrange(5, b.len() as int) =~= body);
}

/// Bytes with a tag and a length before them.
pub open spec fn tagged(b: Seq<u8>, tag: u8, body: Seq<u8>) -> bool {
    &&& b.len() == 5 + body.len()
    &&& b[0] == tag
    &&& le32_at(b, 1) == body.len()
    &&& b.subrange(5, b.len() as int) == body
}

/// The bytecode of a number: the tag of 64 bits, the number, its sign and that it was decimal.
pub proof fn law_numbers_in_bytes(v: i64)
    ensures
        ({
            let b = literal_code(LiteralView::Int(v));
            &&& b.len() == 11
            &&& b[0] == 4
            &&& le64_at(b, 1) == bits_of(v)
            &&& v < 0 ==> b[9] == 2
            &&& v >= 0 ==> b[9] == 3
            &&& b[10] == 2
        }),
        v >= 0 ==> bits_of(v) == v,
        v < 0 ==> bits_of(v) == v + 0x1_0000_0000_0000_0000,
        signed(bits_of(v)) == v,
{
    let b = literal_code(LiteralView::Int(v));
    assert(b.subrange(1, 9) =~= le64(bits_of(v)));
    law_le64_reads_back(b, 1, bits_of(v));
}

/// The bytecode of values and of attributes.
pub proof fn law_values_in_bytes(l: LiteralView, items: Seq<LiteralView>, source: Source, name: Seq<u8>)
    requires
        text_encodable(name),
        literals_code(items).len() <= u32::MAX,
    ensures
        l matches LiteralView::Str(t) ==> (text_encodable(t) ==> tagged(literal_code(l), 0x10, text16(decode_utf8(t)))),
        l matches LiteralView::Octet(o) ==> (o.len() <= u32::MAX ==> tagged(literal_code(l), 0x18, o)),
        l matches LiteralView::Sid(v) ==> (v.wf() ==> tagged(literal_code(l), 0x51, sid_bytes(v))),
        operand_code(OperandView::Value(l)) == literal_code(l),
        tagged(operand_code(OperandView::Composite(items)), 0x50, literals_code(items)),
        source == Source::Local ==> tagged(operand_code(OperandView::Attr(source, name)), 0xf8, text16(decode_utf8(name))),
        source == Source::User ==> tagged(operand_code(OperandView::Attr(source, name)), 0xf9, text16(decode_utf8(name))),
        source == Source::Resource ==> tagged(
            operand_code(OperandView::Attr(source, name)),
            0xfa,
            text16(decode_utf8(name)),
        ),
        source == Source::Device ==> tagged(operand_code(OperandView::Attr(source, name)), 0xfb, text16(decode_utf8(name))),
{
    lemma_sized(0x50, literals_code(items));
    lemma_sized(source_code(source), text16(decode_utf8(name)));
    match l {
        LiteralView::Str(t) => {
            if text_encodable(t) {
                lemma_sized(0x10, text16(decode_utf8(t)));
            }
        },
        LiteralView::Octet(o) => {
            if o.len() <= u32::MAX {
                lemma_sized(0x18, o);
            }
        },
        LiteralView::Sid(v) => {
            if v.wf() {
                crate::security::sid::law_sid_round_trip(Seq::empty(), v, Seq::empty());
                lemma_sized(0x51, sid_bytes(v));
            }
        },
        LiteralView::Int(v) => {},
    }
}

/// The values of a list follow one another.
pub proof fn law_lists_in_bytes(a: Seq<LiteralView>, l: LiteralView)
    ensures
        literals_code(Seq::empty()) == Seq::<u8>::empty(),
        literals_code(a.push(l)) == literals_code(a) + literal_code(l),
{
    assert(a.push(l).drop_last() =~= a);
}

/// The bytecode as a whole: the mark, the expression, and up to three zero bytes, so that its
/// length is a multiple of four.
pub proof fn law_bytecode(c: Condition, r: Option<Vec<u8>>)
    requires
        call_ensures(Condition::encode, (&c,), r),
    ensures
        r is Some <==> encodable(c@),
        r matches Some(b) ==> {
            let n = 4 + code(c@).len();
            &&& b@.len() % 4 == 0
            &&& n <= b@.len() < n + 4
            &&& b@[0] == 0x61 && b@[1] == 0x72 && b@[2] == 0x74 && b@[3] == 0x78
            &&& b@.subrange(4, n as int) == code(c@)
            &&& forall|i: int| n <= i < b@.len() ==> b@[i] == 0
        },
{
    if let Some(b) = r {
        assert(b@.subrange(4, (4 + code(c@).len()) as int) =~= code(c@));
    }
}

/// What is written is what is read, up to a height of 256.
pub proof fn law_bytecode_is_read(c: Condition, b: Vec<u8>, s: &[u8], r: Option<Condition>)
    requires
        call_ensures(Condition::encode, (&c,), Some(b)),
        height(c@) <= 256,
        s@ == b@,
        call_ensures(decode_artx, (s,), r),
    ensures
        r matches Some(d) && d@ == c@,
{
    crate::security::sddl::condition::law_condition_reads_back(c@);
}

/// Reading a value from bytecode.
pub proof fn law_values_that_are_read(s: Seq<u8>, p: int)
    requires
        0 <= p < s.len(),
    ensures
        1 <= s[p] <= 4 ==> (literal_at(s, p) is Some <==> p + 11 <= s.len() && 1 <= s[p + 9] <= 3 && 1 <= s[p + 10] <= 3),
        1 <= s[p] <= 4 && literal_at(s, p) is Some ==> literal_at(s, p) == Some(
            (LiteralView::Int(signed(le64_at(s, p + 1))), p + 11),
        ),
        s[p] == 0x18 ==> (literal_at(s, p) is Some <==> p + 5 <= s.len() && p + 5 + le32_at(s, p + 1) <= s.len()),
        s[p] == 0x18 && literal_at(s, p) is Some ==> literal_at(s, p) == Some(
            (
                LiteralView::Octet(s.subrange(p + 5, p + 5 + le32_at(s, p + 1))),
                p + 5 + le32_at(s, p + 1),
            ),
        ),
        s[p] == 0x51 && literal_at(s, p) is Some ==> (sid_of(s.subrange(p + 5, p + 5 + le32_at(s, p + 1))) matches Some(
            v,
        ) && literal_at(s, p) == Some((LiteralView::Sid(v), p + 5 + le32_at(s, p + 1)))),
        literal_at(s, p) is Some ==> 1 <= s[p] <= 4 || s[p] == 0x10 || s[p] == 0x18 || s[p] == 0x51,
        operand_at(s, p) matches Some((OperandView::Composite(_), _)) ==> s[p] == 0x50,
        operand_at(s, p) matches Some((OperandView::Attr(source, _), _)) ==> s[p] == (match source {
            Source::Local => 0xf8u8,
            Source::User => 0xf9u8,
            Source::Resource => 0xfau8,
            Source::Device => 0xfbu8,
        }),
{
}

/// The machine that reads bytecode: zero bytes are passed over, operators work on what was read
/// last, and at the end one expression is left.
pub proof fn law_machine(s: Seq<u8>, p: int, st: Seq<ItemView>, x: OperandView, y: OperandView, l: ConditionView, r: ConditionView)
    requires
        0 <= p < s.len(),
    ensures
        s[p] == 0 ==> machine(s, p, st) == machine(s, p + 1, st),
        machine(s, s.len() as int, seq![ItemView::Test(l)]) == Some(l),
        st.len() != 1 ==> machine(s, s.len() as int, st) is None,
        applied(st.push(ItemView::Test(l)).push(ItemView::Test(r)), 0xa0) matches Some(t) ==> t == st.push(
            ItemView::Test(ConditionView::And(Box::new(l), Box::new(r))),
        ),
        applied(st.push(ItemView::Test(l)).push(ItemView::Test(r)), 0xa1) matches Some(t) ==> t == st.push(
            ItemView::Test(ConditionView::Or(Box::new(l), Box::new(r))),
        ),
        applied(st.push(ItemView::Test(l)), 0xa2) matches Some(t) ==> t == st.push(
            ItemView::Test(ConditionView::Not(Box::new(l))),
        ),
        height(l) < 256 && height(r) < 256 ==> applied(st.push(ItemView::Test(l)).push(ItemView::Test(r)), 0xa0) is Some
            && applied(st.push(ItemView::Test(l)).push(ItemView::Test(r)), 0xa1) is Some && applied(
            st.push(ItemView::Test(l)),
            0xa2,
        ) is Some,
        height(l) >= 256 ==> applied(st.push(ItemView::Test(l)), 0xa2) is None,
        applied(st.push(ItemView::Value(x)), 0x87) == Some(st.push(ItemView::Test(ConditionView::Exists(x)))),
        applied(st.push(ItemView::Value(x)), 0x8d) == Some(st.push(ItemView::Test(ConditionView::NotExists(x)))),
        applied(st.push(ItemView::Value(x)).push(ItemView::Value(y)), 0x80) == Some(
            st.push(ItemView::Test(ConditionView::Compare { op: CompareOp::Eq, lhs: x, rhs: y })),
        ),
{
    reveal(machine);
    let two = st.push(ItemView::Test(l)).push(ItemView::Test(r));
    assert(two.take(two.len() - 2) =~= st);
    let one = st.push(ItemView::Test(l));
    assert(one.take(one.len() - 1) =~= st);
    let v = st.push(ItemView::Value(x));
    assert(v.take(v.len() - 1) =~= st);
    let w = v.push(ItemView::Value(y));
    assert(w.take(w.len() - 2) =~= st);
    assert(member_of(0x87) is None && member_of(0x8d) is None && compare_of(0x87) is None && compare_of(0x8d) is None);
    assert(compare_of(0xa0) is None && compare_of(0xa1) is None && compare_of(0xa2) is None);
    assert(member_of(0xa0) is None && member_of(0xa1) is None && member_of(0xa2) is None);
}

/// How high an expression is.
pub proof fn law_heights(l: ConditionView, r: ConditionView, x: OperandView, y: OperandView, c: CompareOp, m: MemberOp)
    ensures
        height(ConditionView::Exists(x)) == 1,
        height(ConditionView::NotExists(x)) == 1,
        height(ConditionView::Member { op: m, operand: x }) == 1,
        height(ConditionView::Compare { op: c, lhs: x, rhs: y }) == 1,
        height(ConditionView::Not(Box::new(l))) == height(l) + 1,
        height(l) >= height(r) ==> height(ConditionView::And(Box::new(l), Box::new(r))) == height(l) + 1 && height(
            ConditionView::Or(Box::new(l), Box::new(r)),
        ) == height(l) + 1,
        height(l) <= height(r) ==> height(ConditionView::And(Box::new(l), Box::new(r))) == height(r) + 1 && height(
            ConditionView::Or(Box::new(l), Box::new(r)),
        ) == height(r) + 1,
{
}

/// The words of expressions, written and read.
#[verifier::spinoff_prover]
#[verifier::rlimit(40)]
pub proof fn law_words_of_expressions()
    ensures
        keyword_text(Keyword::Exists) == seq![0x45u8, 0x78u8, 0x69u8, 0x73u8, 0x74u8, 0x73u8] && keyword_of(seq![0x45u8, 0x78u8, 0x69u8, 0x73u8, 0x74u8, 0x73u8]) == Some(Keyword::Exists),
        keyword_text(Keyword::NotExists) == seq![0x4eu8, 0x6fu8, 0x74u8, 0x5fu8, 0x45u8, 0x78u8, 0x69u8, 0x73u8, 0x74u8, 0x73u8] && keyword_of(seq![0x4eu8, 0x6fu8, 0x74u8, 0x5fu8, 0x45u8, 0x78u8, 0x69u8, 0x73u8, 0x74u8, 0x73u8]) == Some(Keyword::NotExists),
        keyword_text(Keyword::Compare(CompareOp::Contains)) == seq![0x43u8, 0x6fu8, 0x6eu8, 0x74u8, 0x61u8, 0x69u8, 0x6eu8, 0x73u8] && keyword_of(seq![0x43u8, 0x6fu8, 0x6eu8, 0x74u8, 0x61u8, 0x69u8, 0x6eu8, 0x73u8]) == Some(Keyword::Compare(CompareOp::Contains)),
        keyword_text(Keyword::Compare(CompareOp::AnyOf)) == seq![0x41u8, 0x6eu8, 0x79u8, 0x5fu8, 0x6fu8, 0x66u8] && keyword_of(seq![0x41u8, 0x6eu8, 0x79u8, 0x5fu8, 0x6fu8, 0x66u8]) == Some(Keyword::Compare(CompareOp::AnyOf)),
        keyword_text(Keyword::Compare(CompareOp::NotContains)) == seq![0x4eu8, 0x6fu8, 0x74u8, 0x5fu8, 0x43u8, 0x6fu8, 0x6eu8, 0x74u8, 0x61u8, 0x69u8, 0x6eu8, 0x73u8] && keyword_of(seq![0x4eu8, 0x6fu8, 0x74u8, 0x5fu8, 0x43u8, 0x6fu8, 0x6eu8, 0x74u8, 0x61u8, 0x69u8, 0x6eu8, 0x73u8]) == Some(Keyword::Compare(CompareOp::NotContains)),
        keyword_text(Keyword::Compare(CompareOp::NotAnyOf)) == seq![0x4eu8, 0x6fu8, 0x74u8, 0x5fu8, 0x41u8, 0x6eu8, 0x79u8, 0x5fu8, 0x6fu8, 0x66u8] && keyword_of(seq![0x4eu8, 0x6fu8, 0x74u8, 0x5fu8, 0x41u8, 0x6eu8, 0x79u8, 0x5fu8, 0x6fu8, 0x66u8]) == Some(Keyword::Compare(CompareOp::NotAnyOf)),
        keyword_text(Keyword::Member(MemberOp::MemberOf)) == seq![0x4du8, 0x65u8, 0x6du8, 0x62u8, 0x65u8, 0x72u8, 0x5fu8, 0x6fu8, 0x66u8] && keyword_of(seq![0x4du8, 0x65u8, 0x6du8, 0x62u8, 0x65u8, 0x72u8, 0x5fu8, 0x6fu8, 0x66u8]) == Some(Keyword::Member(MemberOp::MemberOf)),
        keyword_text(Keyword::Member(MemberOp::DeviceMemberOf)) == seq![0x44u8, 0x65u8, 0x76u8, 0x69u8, 0x63u8, 0x65u8, 0x5fu8, 0x4du8, 0x65u8, 0x6du8, 0x62u8, 0x65u8, 0x72u8, 0x5fu8, 0x6fu8, 0x66u8] && keyword_of(seq![0x44u8, 0x65u8, 0x76u8, 0x69u8, 0x63u8, 0x65u8, 0x5fu8, 0x4du8, 0x65u8, 0x6du8, 0x62u8, 0x65u8, 0x72u8, 0x5fu8, 0x6fu8, 0x66u8]) == Some(Keyword::Member(MemberOp::DeviceMemberOf)),
        keyword_text(Keyword::Member(MemberOp::MemberOfAny)) == seq![0x4du8, 0x65u8, 0x6du8, 0x62u8, 0x65u8, 0x72u8, 0x5fu8, 0x6fu8, 0x66u8, 0x5fu8, 0x41u8, 0x6eu8, 0x79u8] && keyword_of(seq![0x4du8, 0x65u8, 0x6du8, 0x62u8, 0x65u8, 0x72u8, 0x5fu8, 0x6fu8, 0x66u8, 0x5fu8, 0x41u8, 0x6eu8, 0x79u8]) == Some(Keyword::Member(MemberOp::MemberOfAny)),
        keyword_text(Keyword::Member(MemberOp::DeviceMemberOfAny)) == seq![0x44u8, 0x65u8, 0x76u8, 0x69u8, 0x63u8, 0x65u8, 0x5fu8, 0x4du8, 0x65u8, 0x6du8, 0x62u8, 0x65u8, 0x72u8, 0x5fu8, 0x6fu8, 0x66u8, 0x5fu8, 0x41u8, 0x6eu8, 0x79u8] && keyword_of(seq![0x44u8, 0x65u8, 0x76u8, 0x69u8, 0x63u8, 0x65u8, 0x5fu8, 0x4du8, 0x65u8, 0x6du8, 0x62u8, 0x65u8, 0x72u8, 0x5fu8, 0x6fu8, 0x66u8, 0x5fu8, 0x41u8, 0x6eu8, 0x79u8]) == Some(Keyword::Member(MemberOp::DeviceMemberOfAny)),
        keyword_text(Keyword::Member(MemberOp::NotMemberOf)) == seq![0x4eu8, 0x6fu8, 0x74u8, 0x5fu8, 0x4du8, 0x65u8, 0x6du8, 0x62u8, 0x65u8, 0x72u8, 0x5fu8, 0x6fu8, 0x66u8] && keyword_of(seq![0x4eu8, 0x6fu8, 0x74u8, 0x5fu8, 0x4du8, 0x65u8, 0x6du8, 0x62u8, 0x65u8, 0x72u8, 0x5fu8, 0x6fu8, 0x66u8]) == Some(Keyword::Member(MemberOp::NotMemberOf)),
        keyword_text(Keyword::Member(MemberOp::NotDeviceMemberOf)) == seq![0x4eu8, 0x6fu8, 0x74u8, 0x5fu8, 0x44u8, 0x65u8, 0x76u8, 0x69u8, 0x63u8, 0x65u8, 0x5fu8, 0x4du8, 0x65u8, 0x6du8, 0x62u8, 0x65u8, 0x72u8, 0x5fu8, 0x6fu8, 0x66u8] && keyword_of(seq![0x4eu8, 0x6fu8, 0x74u8, 0x5fu8, 0x44u8, 0x65u8, 0x76u8, 0x69u8, 0x63u8, 0x65u8, 0x5fu8, 0x4du8, 0x65u8, 0x6du8, 0x62u8, 0x65u8, 0x72u8, 0x5fu8, 0x6fu8, 0x66u8]) == Some(Keyword::Member(MemberOp::NotDeviceMemberOf)),
        keyword_text(Keyword::Member(MemberOp::NotMemberOfAny)) == seq![0x4eu8, 0x6fu8, 0x74u8, 0x5fu8, 0x4du8, 0x65u8, 0x6du8, 0x62u8, 0x65u8, 0x72u8, 0x5fu8, 0x6fu8, 0x66u8, 0x5fu8, 0x41u8, 0x6eu8, 0x79u8] && keyword_of(seq![0x4eu8, 0x6fu8, 0x74u8, 0x5fu8, 0x4du8, 0x65u8, 0x6du8, 0x62u8, 0x65u8, 0x72u8, 0x5fu8, 0x6fu8, 0x66u8, 0x5fu8, 0x41u8, 0x6eu8, 0x79u8]) == Some(Keyword::Member(MemberOp::NotMemberOfAny)),
        keyword_text(Keyword::Member(MemberOp::NotDeviceMemberOfAny)) == seq![0x4eu8, 0x6fu8, 0x74u8, 0x5fu8, 0x44u8, 0x65u8, 0x76u8, 0x69u8, 0x63u8, 0x65u8, 0x5fu8, 0x4du8, 0x65u8, 0x6du8, 0x62u8, 0x65u8, 0x72u8, 0x5fu8, 0x6fu8, 0x66u8, 0x5fu8, 0x41u8, 0x6eu8, 0x79u8] && keyword_of(seq![0x4eu8, 0x6fu8, 0x74u8, 0x5fu8, 0x44u8, 0x65u8, 0x76u8, 0x69u8, 0x63u8, 0x65u8, 0x5fu8, 0x4du8, 0x65u8, 0x6du8, 0x62u8, 0x65u8, 0x72u8, 0x5fu8, 0x6fu8, 0x66u8, 0x5fu8, 0x41u8, 0x6eu8, 0x79u8]) == Some(Keyword::Member(MemberOp::NotDeviceMemberOfAny)),
        keyword_text(Keyword::Sid) == seq![0x53u8, 0x49u8, 0x44u8] && keyword_of(seq![0x53u8, 0x49u8, 0x44u8]) == Some(Keyword::Sid),
{
    reveal(keyword_text);
    law_keyword_reads_back(Keyword::Exists);
    law_keyword_reads_back(Keyword::NotExists);
    law_keyword_reads_back(Keyword::Compare(CompareOp::Contains));
    law_keyword_reads_back(Keyword::Compare(CompareOp::AnyOf));
    law_keyword_reads_back(Keyword::Compare(CompareOp::NotContains));
    law_keyword_reads_back(Keyword::Compare(CompareOp::NotAnyOf));
    law_keyword_reads_back(Keyword::Member(MemberOp::MemberOf));
    law_keyword_reads_back(Keyword::Member(MemberOp::DeviceMemberOf));
    law_keyword_reads_back(Keyword::Member(MemberOp::MemberOfAny));
    law_keyword_reads_back(Keyword::Member(MemberOp::DeviceMemberOfAny));
    law_keyword_reads_back(Keyword::Member(MemberOp::NotMemberOf));
    law_keyword_reads_back(Keyword::Member(MemberOp::NotDeviceMemberOf));
    law_keyword_reads_back(Keyword::Member(MemberOp::NotMemberOfAny));
    law_keyword_reads_back(Keyword::Member(MemberOp::NotDeviceMemberOfAny));
    law_keyword_reads_back(Keyword::Sid);
}

/// What the calls give for words.
pub proof fn law_word_calls(w: &[u8], r: Option<Keyword>, k: Keyword, text: Vec<u8>)
    requires
        call_ensures(read_keyword, (w,), r),
        call_ensures(put_keyword, (k,), text),
    ensures
        r == keyword_of(w@),
        text@ == keyword_text(k),
        r matches Some(x) ==> w@ == keyword_text(x),
{
    reveal(keyword_of);
}

/// Where an attribute comes from.
pub proof fn law_sources_of_attributes(source: Source, name: Seq<u8>)
    ensures
        source_text(Source::Local) == seq![0x4cu8, 0x6fu8, 0x63u8, 0x61u8, 0x6cu8, 0x2eu8],
        source_text(Source::User) == seq![0x55u8, 0x73u8, 0x65u8, 0x72u8, 0x2eu8],
        source_text(Source::Resource) == seq![0x52u8, 0x65u8, 0x73u8, 0x6fu8, 0x75u8, 0x72u8, 0x63u8, 0x65u8, 0x2eu8],
        source_text(Source::Device) == seq![0x44u8, 0x65u8, 0x76u8, 0x69u8, 0x63u8, 0x65u8, 0x2eu8],
{
}

/// The signs of expressions.
pub proof fn law_signs_of_expressions(s: Seq<u8>, p: int)
    requires
        0 <= p < s.len(),
    ensures
        sign_text(Sign::Open) == seq![0x28u8],
        sign_text(Sign::Close) == seq![0x29u8],
        sign_text(Sign::BraceOpen) == seq![0x7bu8],
        sign_text(Sign::BraceClose) == seq![0x7du8],
        sign_text(Sign::Comma) == seq![0x2cu8],
        sign_text(Sign::Bang) == seq![0x21u8],
        sign_text(Sign::Eq) == seq![0x3du8, 0x3du8],
        sign_text(Sign::Ne) == seq![0x21u8, 0x3du8],
        sign_text(Sign::Lt) == seq![0x3cu8],
        sign_text(Sign::Le) == seq![0x3cu8, 0x3du8],
        sign_text(Sign::Gt) == seq![0x3eu8],
        sign_text(Sign::Ge) == seq![0x3eu8, 0x3du8],
        sign_text(Sign::And) == seq![0x26u8, 0x26u8],
        sign_text(Sign::Or) == seq![0x7cu8, 0x7cu8],
        s[p] == 0x28 ==> sign_at(s, p) == Some(Sign::Open),
        s[p] == 0x29 ==> sign_at(s, p) == Some(Sign::Close),
        s[p] == 0x7b ==> sign_at(s, p) == Some(Sign::BraceOpen),
        s[p] == 0x7d ==> sign_at(s, p) == Some(Sign::BraceClose),
        s[p] == 0x2c ==> sign_at(s, p) == Some(Sign::Comma),
        s[p] == 0x21 && !(p + 1 < s.len() && s[p + 1] == 0x3d) ==> sign_at(s, p) == Some(Sign::Bang),
        p + 1 < s.len() && s[p] == 0x3d && s[p + 1] == 0x3d ==> sign_at(s, p) == Some(Sign::Eq),
        p + 1 < s.len() && s[p] == 0x21 && s[p + 1] == 0x3d ==> sign_at(s, p) == Some(Sign::Ne),
        s[p] == 0x3c && !(p + 1 < s.len() && s[p + 1] == 0x3d) ==> sign_at(s, p) == Some(Sign::Lt),
        p + 1 < s.len() && s[p] == 0x3c && s[p + 1] == 0x3d ==> sign_at(s, p) == Some(Sign::Le),
        s[p] == 0x3e && !(p + 1 < s.len() && s[p + 1] == 0x3d) ==> sign_at(s, p) == Some(Sign::Gt),
        p + 1 < s.len() && s[p] == 0x3e && s[p + 1] == 0x3d ==> sign_at(s, p) == Some(Sign::Ge),
        p + 1 < s.len() && s[p] == 0x26 && s[p + 1] == 0x26 ==> sign_at(s, p) == Some(Sign::And),
        p + 1 < s.len() && s[p] == 0x7c && s[p + 1] == 0x7c ==> sign_at(s, p) == Some(Sign::Or),
        sign_at(s, p) is Some ==> s[p] == 0x28 || s[p] == 0x29 || s[p] == 0x7b || s[p] == 0x7d || s[p] == 0x2c || s[p]
            == 0x21 || s[p] == 0x3c || s[p] == 0x3e || s[p] == 0x3d || s[p] == 0x26 || s[p] == 0x7c,
{
}

/// Which bytes are space, and which make names: letters, digits, `_ - . : /` and all that is not
/// ASCII.
pub proof fn law_bytes_of_names(c: u8)
    ensures
        is_space(c) <==> c == 9 || c == 10 || c == 11 || c == 12 || c == 13 || c == 32,
        name_byte(c) <==> (0x30 <= c <= 0x39) || (0x41 <= c <= 0x5a) || (0x61 <= c <= 0x7a) || c == 0x5f || c == 0x2d || c
            == 0x2e || c == 0x3a || c == 0x2f || c >= 0x80,
{
}

/// Tokens one by one.
pub proof fn law_tokens_one_by_one(s: Seq<u8>, p: int, acc: Seq<TokenView>)
    requires
        0 <= p < s.len(),
    ensures
        tokens_from(s, s.len() as int, acc) == Some(acc),
        is_space(s[p]) ==> tokens_from(s, p, acc) == tokens_from(s, p + 1, acc),
        name_byte(s[p]) ==> token_at(s, p) == Some((TokenView::Word(s.subrange(p, name_end(s, p))), name_end(s, p))),
        s[p] == 0x40 ==> token_at(s, p) == Some((TokenView::At(s.subrange(p + 1, name_end(s, p + 1))), name_end(s, p + 1))),
        s[p] == 0x23 ==> token_at(s, p) == Some(
            (TokenView::Hash(s.subrange(p + 1, name_end(s, p + 1))), name_end(s, p + 1)),
        ),
        s[p] == 0x22 && quote_end(s, p + 1) < s.len() ==> token_at(s, p) == Some(
            (TokenView::Str(s.subrange(p + 1, quote_end(s, p + 1))), quote_end(s, p + 1) + 1),
        ),
        s[p] == 0x22 && quote_end(s, p + 1) >= s.len() ==> token_at(s, p) is None,
        p < s.len() && name_byte(s[p]) ==> name_end(s, p) == name_end(s, p + 1),
        !name_byte(s[p]) ==> name_end(s, p) == p,
        s[p] == 0x22 ==> quote_end(s, p) == p,
        s[p] != 0x22 ==> quote_end(s, p) == quote_end(s, p + 1),
{
}

/// The text of tokens.
pub proof fn law_text_of_tokens(w: Seq<u8>, x: Sign)
    ensures
        token_text(TokenView::Word(w)) == w,
        token_text(TokenView::At(w)) == seq![0x40u8] + w,
        token_text(TokenView::Hash(w)) == seq![0x23u8] + w,
        token_text(TokenView::Str(w)) == seq![0x22u8] + w + seq![0x22u8],
        token_text(TokenView::Sign(x)) == sign_text(x),
{
}

/// Between tokens is a space, except inside brackets, before commas, behind `!` and between
/// `SID` and its bracket.
pub proof fn law_space_between_tokens(a: TokenView, b: TokenView, ts: Seq<TokenView>)
    ensures
        gap(a, b) == Seq::<u8>::empty() || gap(a, b) == seq![0x20u8],
        a == TokenView::Sign(Sign::Open) || a == TokenView::Sign(Sign::BraceOpen) || b == TokenView::Sign(Sign::Close) || b
            == TokenView::Sign(Sign::BraceClose) || b == TokenView::Sign(Sign::Comma) ==> gap(a, b) == Seq::<u8>::empty(),
        a == TokenView::Word(seq![0x53u8, 0x49u8, 0x44u8]) && b == TokenView::Sign(Sign::Open) ==> gap(a, b) == Seq::<u8>::empty(),
        a == TokenView::Sign(Sign::Bang) && !(b is Sign) ==> gap(a, b) == Seq::<u8>::empty(),
        !(a is Sign) && !(b is Sign) ==> gap(a, b) == seq![0x20u8],
        !(a is Sign) && (b == TokenView::Sign(Sign::And) || b == TokenView::Sign(Sign::Or) || b == TokenView::Sign(Sign::Eq))
            ==> gap(a, b) == seq![0x20u8],
        render(ts.push(a).push(b)) == render(ts.push(a)) + gap(a, b) + token_text(b),
        render(seq![a]) == token_text(a),
{
    assert(ts.push(a).push(b).drop_last() =~= ts.push(a));
}

/// An expression that is one test.
pub open spec fn is_test(c: ConditionView) -> bool {
    c is Compare || c is Member || c is Exists || c is NotExists
}

/// What binds tighter: `!`, then `&&`, then `||`. Both join from the left. Brackets stand where
/// the expression would otherwise be another one.
pub proof fn law_what_binds_tighter(a: ConditionView, b: ConditionView, c: ConditionView)
    requires
        is_test(a),
        is_test(b),
        is_test(c),
    ensures
        ({
            let and = seq![TokenView::Sign(Sign::And)];
            let or = seq![TokenView::Sign(Sign::Or)];
            let not = seq![TokenView::Sign(Sign::Bang)];
            let open = seq![TokenView::Sign(Sign::Open)];
            let close = seq![TokenView::Sign(Sign::Close)];
            let x = condition_tokens(a);
            let y = condition_tokens(b);
            let z = condition_tokens(c);
            let a_and_b = ConditionView::And(Box::new(a), Box::new(b));
            let a_or_b = ConditionView::Or(Box::new(a), Box::new(b));
            &&& condition_tokens(a_and_b) == x + and + y
            &&& condition_tokens(a_or_b) == x + or + y
            &&& condition_tokens(ConditionView::Or(Box::new(a_and_b), Box::new(c))) == (x + and + y) + or + z
            &&& condition_tokens(ConditionView::Or(Box::new(c), Box::new(a_and_b))) == z + or + (x + and + y)
            &&& condition_tokens(ConditionView::And(Box::new(a_or_b), Box::new(c))) == (open + (x + or + y) + close) + and
                + z
            &&& condition_tokens(ConditionView::And(Box::new(c), Box::new(a_or_b))) == z + and + (open + (x + or + y)
                + close)
            &&& condition_tokens(ConditionView::And(Box::new(a_and_b), Box::new(c))) == (x + and + y) + and + z
            &&& condition_tokens(ConditionView::And(Box::new(c), Box::new(a_and_b))) == z + and + (open + (x + and + y)
                + close)
            &&& condition_tokens(ConditionView::Or(Box::new(a_or_b), Box::new(c))) == (x + or + y) + or + z
            &&& condition_tokens(ConditionView::Or(Box::new(c), Box::new(a_or_b))) == z + or + (open + (x + or + y) + close)
            &&& condition_tokens(ConditionView::Not(Box::new(a))) == not + x
            &&& condition_tokens(ConditionView::Not(Box::new(a_and_b))) == not + (open + (x + and + y) + close)
            &&& condition_tokens(ConditionView::Not(Box::new(a_or_b))) == not + (open + (x + or + y) + close)
            &&& condition_tokens(ConditionView::Not(Box::new(ConditionView::Not(Box::new(a))))) == not + (not + x)
        }),
{
    reveal_with_fuel(condition_tokens, 3);
}

/// The text of tests and of their operands.
pub proof fn law_text_of_tests(x: OperandView, y: OperandView, op: CompareOp, m: MemberOp, items: Seq<LiteralView>, l: LiteralView, source: Source, name: Seq<u8>)
    ensures
        condition_tokens(ConditionView::Compare { op, lhs: x, rhs: y }) == operand_tokens(x) + seq![operator_token(op)]
            + operand_tokens(y),
        condition_tokens(ConditionView::Exists(x)) == seq![TokenView::Word(keyword_text(Keyword::Exists))]
            + operand_tokens(x),
        condition_tokens(ConditionView::NotExists(x)) == seq![TokenView::Word(keyword_text(Keyword::NotExists))]
            + operand_tokens(x),
        condition_tokens(ConditionView::Member { op: m, operand: x }) == seq![
            TokenView::Word(keyword_text(Keyword::Member(m))),
        ] + operand_tokens(x),
        operand_tokens(OperandView::Value(l)) == literal_tokens(l),
        operand_tokens(OperandView::Composite(items)) == seq![TokenView::Sign(Sign::BraceOpen)] + literals_tokens(items)
            + seq![TokenView::Sign(Sign::BraceClose)],
        operand_tokens(OperandView::Attr(source, name)) == seq![TokenView::At(source_text(source) + name)],
        literals_tokens(Seq::empty()) == Seq::<TokenView>::empty(),
        literals_tokens(seq![l]) == literal_tokens(l),
        items.len() > 0 ==> literals_tokens(items.push(l)) == literals_tokens(items) + seq![TokenView::Sign(Sign::Comma)]
            + literal_tokens(l),
        l matches LiteralView::Int(v) ==> literal_tokens(l) == seq![TokenView::Word(int_text(v))],
        l matches LiteralView::Str(t) ==> literal_tokens(l) == seq![TokenView::Str(t)],
        l matches LiteralView::Octet(o) ==> literal_tokens(l) == seq![TokenView::Hash(octet_text(o))],
        l matches LiteralView::Sid(v) ==> literal_tokens(l) == seq![
            TokenView::Word(seq![0x53u8, 0x49u8, 0x44u8]),
            TokenView::Sign(Sign::Open),
            TokenView::Word(sid_field(v)),
            TokenView::Sign(Sign::Close),
        ],
        operator_token(CompareOp::Eq) == TokenView::Sign(Sign::Eq),
        operator_token(CompareOp::Ne) == TokenView::Sign(Sign::Ne),
        operator_token(CompareOp::Lt) == TokenView::Sign(Sign::Lt),
        operator_token(CompareOp::Le) == TokenView::Sign(Sign::Le),
        operator_token(CompareOp::Gt) == TokenView::Sign(Sign::Gt),
        operator_token(CompareOp::Ge) == TokenView::Sign(Sign::Ge),
{
    reveal(keyword_text);
    assert(items.push(l).drop_last() =~= items);
}

/// The text of numbers and bytes.
pub proof fn law_text_of_numbers_and_bytes(v: i64, b: Seq<u8>, i: int)
    ensures
        v >= 0 ==> int_text(v) == decimal(v as nat),
        v < 0 ==> int_text(v) == seq![0x2du8] + decimal((-v) as nat),
        octet_text(b).len() == 2 * b.len(),
        0 <= i < b.len() ==> octet_text(b).subrange(2 * i, 2 * i + 2) == byte_text(b[i]),
{
    if 0 <= i < b.len() {
        let t = octet_text(b).subrange(2 * i, 2 * i + 2);
        assert(t[0] == octet_text(b)[2 * i]);
        assert(t[1] == octet_text(b)[2 * i + 1]);
        assert(t =~= byte_text(b[i]));
    }
}

/// From text to bytecode and back go through the same expression.
pub proof fn law_text_and_bytecode(s: &[u8], p: Option<Condition>, b: Result<Vec<u8>, SddlError>)
    requires
        call_ensures(parse, (s,), p),
        call_ensures(parse_condition_to_artx, (s,), b),
    ensures
        b matches Ok(out) ==> p matches Some(c) && encodable(c@) && out@ == artx(c@),
        b is Err ==> p is None || !encodable(p->Some_0@),
        b matches Err(e) ==> e == SddlError::BadCondition,
        p matches Some(c) ==> height(c@) <= 256,
{
}

/// From bytecode to text.
pub proof fn law_bytecode_and_text(s: &[u8], p: Option<Condition>, f: Option<Vec<u8>>, t: Result<Vec<u8>, SddlError>)
    requires
        call_ensures(decode_artx, (s,), p),
        p matches Some(c) ==> call_ensures(crate::security::sddl::cond::format, (&c,), f),
        call_ensures(format_condition_from_artx, (s,), t),
    ensures
        t matches Ok(out) ==> p is Some && (f matches Some(x) && x@ == out@),
        t is Err ==> p is None || f is None,
        t matches Err(e) ==> e == SddlError::BadCondition,
{
}

} // verus!
