//! Reading text, step by step: what is taken, what it gives and what is refused.

use vstd::prelude::*;
use vstd::utf8::{decode_utf8, encode_utf8, valid_utf8};
use crate::bytes::{le16_at, le32_at, le64_at};
use crate::security::codec::{acl_aces, acl_complete, sd_dacl, sd_group, sd_owner, sd_sacl, AceRef};
use crate::security::sddl::claims::{
    claim_entry, claim_flags_of, claim_from, claim_from_text, claim_printable, claim_tail, claim_tail_text, claim_text,
    nul_from, text_at, value_in, Claim,
};
use crate::security::sddl::cond::{
    and_of, and_rest, artx_of_text, at, condition_of, list_from, list_of, literal_of, literal_printable, operand_of,
    operand_printable, operator_of, or_of, or_rest, printable, sid_of_tokens, test_of, text_of_artx, unary_of,
};
use crate::security::sddl::condition::{
    encodable, filled, height, literal_encodable, operand_encodable, text_encodable, CompareOp, Condition, ConditionView,
    LiteralView, OperandView, Source,
};
use crate::security::sddl::entry::{entry_of, guid_of_field, has_guids, tail_of_field, tail_text, Entry};
use crate::security::sddl::fields::rights_from;
use crate::security::sddl::grammar::{flags_of_control, sd_format, sd_model, sd_text, AclKind};
use crate::security::sddl::names::{guid_from_text, is_guid_text, sid_from_field};
use crate::security::sddl::scan::{close_from, header_from, is_header, pass, passed, split_top, Place};
use crate::security::sddl::tokens::{all_name, quotable, Sign, TokenView};
use crate::security::sddl::vocab::right_of_pair;
use crate::security::sddl::words::{attribute_of, int_of, keyword_of, looks_numeric, octet_at, octets_of, Keyword};
use crate::security::sddl::SddlErrorView;
use crate::security::sid::{authority_from_text, looks_literal, sid_at, sid_from_text};
use crate::security::text::{digit, number_upto, split};
use crate::token::claims::ClaimValueView;
use crate::utf16::{chars16, first16, utf16le, utf16le_cstr, utf8_from_16, utf8_of16};

verus! {

/// Reading UTF-16: one unit outside the surrogates, or a high one and a low one; a byte alone or a
/// surrogate alone is refused.
pub proof fn law_units_that_are_read(s: Seq<u8>)
    ensures
        s.len() < 2 ==> first16(s) is None,
        s.len() >= 2 && (le16_at(s, 0) < 0xd800 || le16_at(s, 0) >= 0xe000) ==> first16(s) == Some(
            (le16_at(s, 0) as u32, 2int),
        ),
        s.len() >= 2 && 0xdc00 <= le16_at(s, 0) < 0xe000 ==> first16(s) is None,
        2 <= s.len() < 4 && 0xd800 <= le16_at(s, 0) < 0xdc00 ==> first16(s) is None,
        s.len() >= 4 && 0xd800 <= le16_at(s, 0) < 0xdc00 ==> ({
            let lo = le16_at(s, 2);
            &&& 0xdc00 <= lo < 0xe000 ==> first16(s) == Some(
                ((0x1_0000 + 0x400 * (le16_at(s, 0) - 0xd800) + (lo - 0xdc00)) as u32, 4int),
            )
            &&& !(0xdc00 <= lo < 0xe000) ==> first16(s) is None
        }),
        chars16(Seq::empty()) == Some(Seq::<char>::empty()),
        s.len() > 0 && first16(s) is None ==> chars16(s) is None,
        s.len() > 0 ==> (first16(s) matches Some((v, n)) ==> (chars16(s.subrange(n, s.len() as int)) matches Some(rest)
            ==> chars16(s) == Some(seq![v as char] + rest))),
{
}

/// What the calls give between UTF-8 and UTF-16.
pub proof fn law_utf16_calls(s: &[u8], w: Option<Vec<u8>>, c: Option<Vec<u8>>, b: Option<Vec<u8>>)
    requires
        call_ensures(utf16le, (s,), w),
        call_ensures(utf16le_cstr, (s,), c),
        call_ensures(utf8_from_16, (s,), b),
    ensures
        w is Some <==> valid_utf8(s@),
        c is Some <==> valid_utf8(s@) && !decode_utf8(s@).contains('\0'),
        w matches Some(x) ==> (c matches Some(y) ==> y@ == x@ + seq![0u8, 0u8]),
        b is Some <==> chars16(s@) is Some,
        b matches Some(x) ==> x@ == encode_utf8(chars16(s@)->Some_0),
{
    if let Some(x) = w {
        if let Some(y) = c {
            assert(y@ =~= x@ + seq![0u8, 0u8]);
        }
    }
}

/// Text falls into fields at a separator outside quotes and brackets.
pub proof fn law_fields_outside_brackets(s: Seq<u8>, c: u8, sep: u8)
    ensures
        split_top(Seq::empty(), sep) == seq![Seq::<u8>::empty()],
        split_top(s, sep).len() > 0,
        c == sep && passed(s) == (Place { depth: 0, quoted: false }) ==> split_top(s.push(c), sep) == split_top(s, sep).push(
            Seq::empty(),
        ),
        c != sep || passed(s) != (Place { depth: 0, quoted: false }) ==> split_top(s.push(c), sep) == split_top(
            s,
            sep,
        ).update(split_top(s, sep).len() - 1, split_top(s, sep).last().push(c)),
        passed(Seq::empty()) == (Place { depth: 0, quoted: false }),
        passed(s.push(c)) == pass(passed(s), c),
    decreases s.len(),
{
    assert(s.push(c).drop_last() =~= s);
    if s.len() > 0 {
        law_fields_outside_brackets(s.drop_last(), s.last(), sep);
        assert(s.drop_last().push(s.last()) =~= s);
    }
}

/// Where a bracket closes, and where the next section begins.
pub proof fn law_brackets_and_sections(s: Seq<u8>, p: int, at: Place)
    requires
        0 <= p,
    ensures
        p >= s.len() ==> close_from(s, p, at) is None && header_from(s, p, at) == s.len(),
        p < s.len() && at == (Place { depth: 0, quoted: false }) && s[p] == 0x29 ==> close_from(s, p, at) == Some(p),
        p < s.len() && (at != (Place { depth: 0, quoted: false }) || s[p] != 0x29) ==> close_from(s, p, at) == close_from(
            s,
            p + 1,
            pass(at, s[p]),
        ),
        p < s.len() && at == (Place { depth: 0, quoted: false }) && is_header(s, p) ==> header_from(s, p, at) == p,
        p < s.len() && (at != (Place { depth: 0, quoted: false }) || !is_header(s, p)) ==> header_from(s, p, at)
            == header_from(s, p + 1, pass(at, s[p])),
{
}

/// Rights in text may end in a number behind `0x`.
pub proof fn law_rights_as_numbers(s: Seq<u8>, acc: u32)
    requires
        s.len() >= 2,
    ensures
        s[0] == 0x30 && (s[1] == 0x78 || s[1] == 0x58) ==> (match number_upto(
            s.subrange(2, s.len() as int),
            16,
            0xffff_ffff,
        ) {
            Some(v) => rights_from(s, acc) == Some(acc | v as u32),
            None => rights_from(s, acc) is None,
        }),
        !(s[0] == 0x30 && (s[1] == 0x78 || s[1] == 0x58)) && right_of_pair(s[0], s[1]) is None ==> rights_from(s, acc) is None,
{
}

/// Numbers with a sign in text.
pub proof fn law_signed_numbers_in_text(w: Seq<u8>)
    ensures
        looks_numeric(w) <==> w.len() > 0 && ((0x30 <= w[0] <= 0x39) || w[0] == 0x2d),
        w.len() > 0 && w[0] == 0x2d ==> (match number_upto(w.subrange(1, w.len() as int), 10, 0x8000_0000_0000_0000) {
            Some(n) => int_of(w) == Some((-(n as int)) as i64),
            None => int_of(w) is None,
        }),
        !(w.len() > 0 && w[0] == 0x2d) ==> (match number_upto(w, 10, 0x7fff_ffff_ffff_ffff) {
            Some(n) => int_of(w) == Some(n as i64),
            None => int_of(w) is None,
        }),
{
}

/// Bytes in text: pairs of digits, the higher first.
pub proof fn law_bytes_in_text(w: Seq<u8>, i: int)
    ensures
        octets_of(w) matches Some(b) ==> w.len() % 2 == 0 && b.len() == w.len() / 2,
        octets_of(w) matches Some(b) ==> (0 <= i < b.len() ==> ({
            let h = digit(w[2 * i], 16);
            let l = digit(w[2 * i + 1], 16);
            h is Some && l is Some && b[i] == 16 * h->Some_0 + l->Some_0
        })),
        w.len() % 2 == 1 ==> octets_of(w) is None,
        0 <= i < w.len() / 2 && (digit(w[2 * i], 16) is None || digit(w[2 * i + 1], 16) is None) ==> octets_of(w) is None,
{
    if let Some(b) = octets_of(w) {
        if 0 <= i < b.len() {
            assert(octet_at(w, i) is Some);
            assert(b[i] == octet_at(w, i)->Some_0);
        }
    }
    if 0 <= i < w.len() / 2 && (digit(w[2 * i], 16) is None || digit(w[2 * i + 1], 16) is None) {
        assert(octet_at(w, i) is None);
    }
}

/// GUIDs in text, in digits of either case.
pub proof fn law_guids_in_text(s: Seq<u8>)
    ensures
        guid_from_text(s) is Some <==> is_guid_text(s),
        is_guid_text(s) ==> s.len() == 36 && s[8] == 0x2d && s[13] == 0x2d && s[18] == 0x2d && s[23] == 0x2d,
        guid_from_text(s) matches Some(g) ==> {
            &&& g.len() == 16
            &&& g[0] == pair_at(s, 6) && g[1] == pair_at(s, 4) && g[2] == pair_at(s, 2) && g[3] == pair_at(s, 0)
            &&& g[4] == pair_at(s, 11) && g[5] == pair_at(s, 9)
            &&& g[6] == pair_at(s, 16) && g[7] == pair_at(s, 14)
            &&& g[8] == pair_at(s, 19) && g[9] == pair_at(s, 21)
            &&& g[10] == pair_at(s, 24) && g[11] == pair_at(s, 26) && g[12] == pair_at(s, 28) && g[13] == pair_at(s, 30)
            &&& g[14] == pair_at(s, 32) && g[15] == pair_at(s, 34)
        },
{
}

/// The byte that two digits stand for.
pub open spec fn pair_at(s: Seq<u8>, p: int) -> u8 {
    (16 * digit(s[p], 16)->Some_0 + digit(s[p + 1], 16)->Some_0) as u8
}

/// Text that is an identifier.
pub proof fn law_text_is_an_identifier(s: Seq<u8>)
    ensures
        ({
            let f = split(s, 0x2d);
            3 <= f.len() <= 18 && (f[0] == seq![0x53u8] || f[0] == seq![0x73u8]) && f[1] == seq![0x31u8]
                && authority_from_text(f[2]) is Some && (forall|i: int|
                3 <= i < f.len() ==> number_upto(#[trigger] f[i], 10, 0xffff_ffff) is Some) ==> sid_from_text(s) is Some
        }),
        s.len() < 2 ==> !looks_literal(s),
        s.len() >= 2 && (s[0] == 0x53 || s[0] == 0x73) && s[1] == 0x2d ==> looks_literal(s),
{
}

/// Words that are attributes with a source.
pub proof fn law_attributes_in_text(w: Seq<u8>)
    ensures
        attribute_of(w) matches Some((source, name)) ==> name.len() > 0 && w == crate::security::sddl::words::source_text(
            source,
        ) + name,
{
    if let Some((source, name)) = attribute_of(w) {
        let t = crate::security::sddl::words::source_text(source);
        assert(w.take(t.len() as int) == t);
        assert(w =~= t + name);
    }
}

/// Values among tokens.
pub proof fn law_values_among_tokens(t: Seq<TokenView>, p: int)
    requires
        0 <= p < t.len(),
    ensures
        t[p] matches TokenView::Str(s) ==> literal_of(t, p) == Some((LiteralView::Str(s), p + 1)),
        t[p] matches TokenView::Hash(w) ==> (octets_of(w) matches Some(b) ==> literal_of(t, p) == Some(
            (LiteralView::Octet(b), p + 1),
        )),
        t[p] matches TokenView::Hash(w) ==> (octets_of(w) is None ==> literal_of(t, p) is None),
        t[p] matches TokenView::Word(w) ==> (keyword_of(w) is None && looks_numeric(w) ==> (int_of(w) matches Some(v)
            ==> literal_of(t, p) == Some((LiteralView::Int(v), p + 1)))),
        t[p] matches TokenView::Word(w) ==> (keyword_of(w) == Some(Keyword::Sid) ==> literal_of(t, p) == sid_of_tokens(
            t,
            p + 1,
        )),
        t[p] matches TokenView::At(w) ==> (attribute_of(w) matches Some((source, name)) ==> operand_of(t, p) == Some(
            (OperandView::Attr(source, name), p + 1),
        )),
        t[p] matches TokenView::At(w) ==> (attribute_of(w) is None ==> operand_of(t, p) is None),
        t[p] == TokenView::Sign(Sign::BraceOpen) ==> (list_of(t, p + 1) matches Some((items, q)) ==> operand_of(t, p)
            == Some((OperandView::Composite(items), q))),
        t[p] == TokenView::Sign(Sign::BraceClose) ==> list_of(t, p) == Some((Seq::<LiteralView>::empty(), p + 1)),
        p + 2 < t.len() && t[p] == TokenView::Sign(Sign::Open) && t[p + 2] == TokenView::Sign(Sign::Close) ==> (t[p
            + 1] matches TokenView::Word(x) ==> match sid_from_field(x) {
            Ok(v) => sid_of_tokens(t, p) == Some((LiteralView::Sid(v), p + 3)),
            Err(_) => sid_of_tokens(t, p) is None,
        }),
{
    reveal(literal_of);
    reveal(operand_of);
    reveal(list_of);
}

/// Lists among tokens: values with commas between them.
pub proof fn law_lists_among_tokens(t: Seq<TokenView>, p: int, acc: Seq<LiteralView>)
    requires
        0 <= p < t.len(),
    ensures
        t[p] == TokenView::Sign(Sign::BraceClose) ==> list_from(t, p, acc) == Some((acc, p + 1)),
        t[p] == TokenView::Sign(Sign::Comma) ==> (literal_of(t, p + 1) matches Some((l, q)) ==> (p + 1 < q <= t.len()
            ==> list_from(t, p, acc) == list_from(t, q, acc.push(l)))),
        t[p] != TokenView::Sign(Sign::Comma) && t[p] != TokenView::Sign(Sign::BraceClose) ==> list_from(t, p, acc) is None,
{
    reveal(list_from);
}

/// Tests among tokens.
pub proof fn law_tests_among_tokens(t: Seq<TokenView>, p: int, w: Seq<u8>)
    requires
        0 <= p < t.len(),
    ensures
        t[p] == TokenView::Word(w) && keyword_of(w) == Some(Keyword::Exists) ==> (operand_of(t, p + 1) matches Some((o, q))
            ==> test_of(t, p) == Some((ConditionView::Exists(o), q))),
        t[p] == TokenView::Word(w) && keyword_of(w) == Some(Keyword::NotExists) ==> (operand_of(t, p + 1) matches Some(
            (o, q),
        ) ==> test_of(t, p) == Some((ConditionView::NotExists(o), q))),
        t[p] == TokenView::Word(w) ==> (keyword_of(w) matches Some(Keyword::Member(op)) ==> (operand_of(t, p
            + 1) matches Some((operand, q)) ==> test_of(t, p) == Some((ConditionView::Member { op, operand }, q)))),
        !(t[p] is Word) ==> (operand_of(t, p) matches Some((lhs, q)) ==> (operator_of(at(t, q)) matches Some(op)
            ==> (operand_of(t, q + 1) matches Some((rhs, r)) ==> test_of(t, p) == Some(
            (ConditionView::Compare { op, lhs, rhs }, r),
        )))),
        operator_of(Some(TokenView::Sign(Sign::Eq))) == Some(CompareOp::Eq),
        operator_of(Some(TokenView::Sign(Sign::Ne))) == Some(CompareOp::Ne),
        operator_of(Some(TokenView::Sign(Sign::Lt))) == Some(CompareOp::Lt),
        operator_of(Some(TokenView::Sign(Sign::Le))) == Some(CompareOp::Le),
        operator_of(Some(TokenView::Sign(Sign::Gt))) == Some(CompareOp::Gt),
        operator_of(Some(TokenView::Sign(Sign::Ge))) == Some(CompareOp::Ge),
        keyword_of(w) matches Some(Keyword::Compare(op)) ==> operator_of(Some(TokenView::Word(w))) == Some(op),
{
    reveal(test_of);
}

/// Joined expressions among tokens: `!` and brackets first, then `&&` from the left, then `||` from
/// the left.
pub proof fn law_joins_among_tokens(t: Seq<TokenView>, p: int, d: nat, acc: ConditionView)
    requires
        0 <= p < t.len(),
        d > 0,
    ensures
        unary_of(t, p, 0) is None,
        t[p] == TokenView::Sign(Sign::Bang) ==> (unary_of(t, p + 1, (d - 1) as nat) matches Some((c, q)) ==> unary_of(t, p, d)
            == Some((ConditionView::Not(Box::new(c)), q))),
        t[p] == TokenView::Sign(Sign::Open) ==> (or_of(t, p + 1, (d - 1) as nat) matches Some((c, q)) ==> (0 <= q < t.len()
            && t[q] == TokenView::Sign(Sign::Close) ==> unary_of(t, p, d) == Some((c, q + 1)))),
        t[p] == TokenView::Sign(Sign::Open) ==> (or_of(t, p + 1, (d - 1) as nat) matches Some((c, q)) ==> (0 <= q < t.len()
            && t[q] != TokenView::Sign(Sign::Close) ==> unary_of(t, p, d) is None)),
        t[p] != TokenView::Sign(Sign::Bang) && t[p] != TokenView::Sign(Sign::Open) ==> unary_of(t, p, d) == test_of(t, p),
        unary_of(t, p, d) matches Some((c, q)) ==> (p < q <= t.len() ==> and_of(t, p, d) == and_rest(t, q, c, d)),
        and_of(t, p, d) matches Some((c, q)) ==> (p < q <= t.len() ==> or_of(t, p, d) == or_rest(t, q, c, d)),
        t[p] == TokenView::Sign(Sign::And) ==> (unary_of(t, p + 1, d) matches Some((c, q)) ==> (p < q <= t.len()
            ==> and_rest(t, p, acc, d) == and_rest(t, q, ConditionView::And(Box::new(acc), Box::new(c)), d))),
        t[p] != TokenView::Sign(Sign::And) ==> and_rest(t, p, acc, d) == Some((acc, p)),
        t[p] == TokenView::Sign(Sign::Or) ==> (and_of(t, p + 1, d) matches Some((c, q)) ==> (p < q <= t.len() ==> or_rest(
            t,
            p,
            acc,
            d,
        ) == or_rest(t, q, ConditionView::Or(Box::new(acc), Box::new(c)), d))),
        t[p] != TokenView::Sign(Sign::Or) ==> or_rest(t, p, acc, d) == Some((acc, p)),
{
}

/// An expression takes all tokens, is at most 512 brackets deep and at most 256 high.
pub proof fn law_whole_expressions(t: Seq<TokenView>)
    ensures
        condition_of(t) matches Some(c) ==> or_of(t, 0, 512) == Some((c, t.len() as int)) && height(c) <= 256,
        or_of(t, 0, 512) matches Some((c, q)) ==> (q == t.len() && height(c) <= 256 ==> condition_of(t) == Some(c)),
{
}

/// Which expressions have bytecode, and which have text.
pub proof fn law_what_can_be_told(l: LiteralView, o: OperandView, c: ConditionView, d: ConditionView, source: Source, name: Seq<u8>)
    ensures
        l matches LiteralView::Int(v) ==> literal_encodable(l) && literal_printable(l),
        l matches LiteralView::Str(s) ==> (literal_encodable(l) <==> text_encodable(s)) && (literal_printable(l)
            <==> quotable(s)),
        l matches LiteralView::Octet(b) ==> (literal_encodable(l) <==> b.len() <= 0xffff_ffff) && literal_printable(l),
        l matches LiteralView::Sid(v) ==> (literal_encodable(l) <==> v.wf()) && (literal_printable(l) <==> v.wf()),
        operand_encodable(OperandView::Attr(source, name)) <==> text_encodable(name),
        operand_printable(OperandView::Attr(source, name)) <==> name.len() > 0 && all_name(name),
        encodable(ConditionView::And(Box::new(c), Box::new(d))) <==> encodable(c) && encodable(d),
        encodable(ConditionView::Or(Box::new(c), Box::new(d))) <==> encodable(c) && encodable(d),
        encodable(ConditionView::Not(Box::new(c))) <==> encodable(c),
        encodable(ConditionView::Exists(o)) <==> operand_encodable(o),
        printable(ConditionView::And(Box::new(c), Box::new(d))) <==> printable(c) && printable(d),
        printable(ConditionView::Or(Box::new(c), Box::new(d))) <==> printable(c) && printable(d),
        printable(ConditionView::Not(Box::new(c))) <==> printable(c),
        printable(ConditionView::Exists(o)) <==> operand_printable(o),
        quotable(name) <==> !name.contains(0x22),
{
    if !quotable(name) {
        let i = choose|i: int| 0 <= i < name.len() && name[i] == 0x22;
        assert(name[i] == 0x22);
    }
}

/// Small things about expressions.
pub proof fn law_small_things_about_expressions(c: Condition, d: Condition, most: usize, r: bool, a: Condition, o: Condition)
    requires
        call_ensures(Condition::within, (&c, most), r),
        call_ensures(Condition::and, (c, d), a),
        call_ensures(Condition::or, (c, d), o),
    ensures
        r <==> height(c@) <= most,
        a@ == ConditionView::And(Box::new(c@), Box::new(d@)),
        o@ == ConditionView::Or(Box::new(c@), Box::new(d@)),
{
}

/// Entries in bytes that can be told: where each part stands.
pub proof fn law_parts_of_an_entry(a: AceRef, r: Option<Entry>)
    requires
        call_ensures(Entry::from_ace, (&a,), r),
    ensures
        ({
            let b = a.body@;
            let given: u32 = if has_guids(a.ace_type) {
                le32_at(b, 4)
            } else {
                0
            };
            let start = (if has_guids(a.ace_type) {
                8int
            } else {
                4
            }) + (if given == 1 || given == 2 {
                16int
            } else if given == 3 {
                32
            } else {
                0
            });
            let fits = b.len() >= (if has_guids(a.ace_type) {
                8int
            } else {
                4
            }) && given <= 3 && (sid_at(b, start) matches Some((_, end)) && (end == b.len() || (9 <= a.ace_type <= 16)
                || a.ace_type == 0x12));
            &&& r is Some <==> fits
            &&& r matches Some(e) ==> {
                &&& e.ace_type == a.ace_type
                &&& e.flags == a.flags
                &&& e.mask == le32_at(b, 0)
                &&& e.sid@ == sid_at(b, start)->Some_0.0
                &&& e.tail@ == b.subrange(sid_at(b, start)->Some_0.1, b.len() as int)
                &&& given == 0 ==> e.object is None && e.inherited is None
                &&& given == 1 ==> e.inherited is None && e.object is Some && e.object->Some_0@ == b.subrange(8, 24)
                &&& given == 2 ==> e.object is None && e.inherited is Some && e.inherited->Some_0@ == b.subrange(8, 24)
                &&& given == 3 ==> e.object is Some && e.inherited is Some && e.object->Some_0@ == b.subrange(8, 24)
                    && e.inherited->Some_0@ == b.subrange(24, 40)
            }
        }),
{
    if let Some(e) = r {
        assert(entry_of(a@) == Some(e@));
        assert(e@.object is Some <==> e.object is Some);
        assert(e@.inherited is Some <==> e.inherited is Some);
    }
}

/// The last field of an entry: a condition or a claim in brackets.
pub proof fn law_last_fields(t: u8, f: Seq<u8>, tail: Seq<u8>)
    requires
        t != 0x12 ==> 9 <= t <= 16,
    ensures
        f.len() < 2 || f[0] != 0x28 || f.last() != 0x29 ==> tail_of_field(t, f) == Err::<Seq<u8>, SddlErrorView>(
            if t == 0x12 {
                SddlErrorView::BadClaim
            } else {
                SddlErrorView::BadCondition
            },
        ),
        f.len() >= 2 && f[0] == 0x28 && f.last() == 0x29 ==> ({
            let x = f.subrange(1, f.len() - 1);
            &&& t == 0x12 ==> (match claim_tail(x) {
                Some(b) => tail_of_field(t, f) == Ok::<Seq<u8>, SddlErrorView>(b),
                None => tail_of_field(t, f) == Err::<Seq<u8>, SddlErrorView>(SddlErrorView::BadClaim),
            })
            &&& t != 0x12 ==> (match artx_of_text(x) {
                Some(b) => tail_of_field(t, f) == Ok::<Seq<u8>, SddlErrorView>(b),
                None => tail_of_field(t, f) == Err::<Seq<u8>, SddlErrorView>(SddlErrorView::BadCondition),
            })
        }),
        t == 0x12 ==> (match claim_tail_text(tail) {
            Some(x) => tail_text(t, tail) == Some(Some(x)),
            None => tail_text(t, tail) is None,
        }),
        t != 0x12 && tail.len() == 0 ==> tail_text(t, tail) == Some(None::<Seq<u8>>),
        t != 0x12 && tail.len() > 0 ==> (match text_of_artx(tail) {
            Some(x) => tail_text(t, tail) == Some(Some(x)),
            None => tail_text(t, tail) is None,
        }),
{
}

/// GUIDs in fields.
pub proof fn law_guids_in_fields(f: Seq<u8>)
    ensures
        f.len() == 0 ==> guid_of_field(f) == Ok::<Option<Seq<u8>>, SddlErrorView>(None),
        f.len() > 0 ==> (match guid_from_text(f) {
            Some(g) => guid_of_field(f) == Ok::<Option<Seq<u8>>, SddlErrorView>(Some(g)),
            None => guid_of_field(f) == Err::<Option<Seq<u8>>, SddlErrorView>(SddlErrorView::BadGuid(f)),
        }),
{
}

/// The flags of claims in text: hexadecimal behind `0x`, else decimal.
pub proof fn law_flags_of_claims(f: Seq<u8>)
    ensures
        f.len() > 2 && f[0] == 0x30 && (f[1] == 0x78 || f[1] == 0x58) ==> (match number_upto(
            f.subrange(2, f.len() as int),
            16,
            0xffff_ffff,
        ) {
            Some(v) => claim_flags_of(f) == Some(v as u32),
            None => claim_flags_of(f) is None,
        }),
        !(f.len() > 2 && f[0] == 0x30 && (f[1] == 0x78 || f[1] == 0x58)) ==> (match number_upto(f, 10, 0xffff_ffff) {
            Some(v) => claim_flags_of(f) == Some(v as u32),
            None => claim_flags_of(f) is None,
        }),
{
}

/// Reading a claim from bytes.
pub proof fn law_claims_that_are_read(s: Seq<u8>, i: int)
    ensures
        claim_from(s) matches Some(c) ==> {
            &&& s.len() >= 16
            &&& 16 + 4 * le32_at(s, 12) <= s.len()
            &&& c.value_type == le16_at(s, 4)
            &&& c.flags == le32_at(s, 8)
            &&& c.values.len() == le32_at(s, 12)
            &&& text_at(s, le32_at(s, 0) as int) == Some(c.name)
            &&& 0 <= i < c.values.len() ==> value_in(s, i) == Some(c.values[i])
        },
{
    if let Some(c) = claim_from(s) {
        if 0 <= i < c.values.len() {
            assert(value_in(s, i) is Some);
        }
    }
}

/// Reading a value of a claim from bytes, by its type.
pub proof fn law_values_of_claims_in_bytes(s: Seq<u8>, i: int)
    ensures
        ({
            let t = le16_at(s, 4);
            let p = le32_at(s, 16 + 4 * i) as int;
            let at = le32_at(s, p) as int;
            &&& t == 1 || t == 2 || t == 6 ==> (if p + 8 <= s.len() {
                value_in(s, i) == Some(ClaimValueView { scalar: le64_at(s, p), bytes: Some(Seq::empty()) })
            } else {
                value_in(s, i) is None
            })
            &&& t == 3 && p + 4 <= s.len() ==> (match text_at(s, at) {
                Some(b) => value_in(s, i) == Some(ClaimValueView { scalar: 0, bytes: Some(b) }),
                None => value_in(s, i) is None,
            })
            &&& t == 5 && p + 4 <= s.len() ==> (match sid_at(s, at) {
                Some((_, end)) => value_in(s, i) == Some(ClaimValueView { scalar: 0, bytes: Some(s.subrange(at, end)) }),
                None => value_in(s, i) is None,
            })
            &&& t == 0x10 && p + 4 <= s.len() && at + 4 <= s.len() && at + 4 + le32_at(s, at) <= s.len() ==> value_in(s, i)
                == Some(ClaimValueView { scalar: 0, bytes: Some(s.subrange(at + 4, at + 4 + le32_at(s, at))) })
        }),
{
}

/// Text up to a terminator.
pub proof fn law_text_up_to_a_terminator(s: Seq<u8>, p: int)
    requires
        0 <= p,
    ensures
        p + 2 > s.len() ==> nul_from(s, p) is None,
        p + 2 <= s.len() && s[p] == 0 && s[p + 1] == 0 ==> nul_from(s, p) == Some(p),
        p + 2 <= s.len() && !(s[p] == 0 && s[p + 1] == 0) ==> nul_from(s, p) == nul_from(s, p + 2),
        nul_from(s, p) matches Some(e) ==> text_at(s, p) == utf8_of16(s.subrange(p, e)),
        nul_from(s, p) is None ==> text_at(s, p) is None,
{
}

/// A claim in an entry is filled up to a multiple of four bytes.
pub proof fn law_claims_in_entries(s: Seq<u8>, tail: Seq<u8>)
    ensures
        claim_tail(s) matches Some(b) ==> (claim_from_text(s) matches Some(c) && claim_entry(c) matches Some(x) && b == filled(x)),
        claim_from_text(s) is None ==> claim_tail(s) is None,
        claim_from(tail) matches Some(c) ==> (claim_printable(c) ==> claim_tail_text(tail) == Some(claim_text(c))),
        claim_from(tail) matches Some(c) ==> (!claim_printable(c) ==> claim_tail_text(tail) is None),
        claim_from(tail) is None ==> claim_tail_text(tail) is None,
        filled(s).len() % 4 == 0,
        s.len() <= filled(s).len() < s.len() + 4,
        filled(s).take(s.len() as int) == s,
        forall|i: int| s.len() <= i < filled(s).len() ==> filled(s)[i] == 0,
{
    assert(filled(s).take(s.len() as int) =~= s);
}

/// Which claims are encoded from text.
pub proof fn law_claims_that_are_built(c: Claim, r: Option<Vec<u8>>)
    requires
        call_ensures(Claim::encode, (&c,), r),
    ensures
        r is Some ==> c.name@.len() < 65536 && valid_utf8(c.name@) && !decode_utf8(c.name@).contains('\0'),
        r is Some ==> c.value_type == 1 || c.value_type == 2 || c.value_type == 3 || c.value_type == 5 || c.value_type == 6
            || c.value_type == 0x10,
        r matches Some(b) ==> b@ == crate::token::claims::claim_bytes(c.name@, c.value_type, c.flags, c@.values),
{
}

/// What a descriptor in bytes says as text: its lists with the flags of its control word.
pub proof fn law_descriptors_as_text(s: Seq<u8>)
    ensures
        sd_model(s) matches Some(m) ==> {
            &&& sd_format(s) == sd_text(m)
            &&& m.owner == sd_owner(s)->Ok_0
            &&& m.group == sd_group(s)->Ok_0
            &&& sd_dacl(s) == Ok::<Option<Seq<u8>>, crate::security::codec::ParseError>(None) ==> m.dacl is None
            &&& sd_sacl(s) == Ok::<Option<Seq<u8>>, crate::security::codec::ParseError>(None) ==> m.sacl is None
            &&& sd_dacl(s) matches Ok(Some(b)) ==> m.dacl matches Some(a) && a.aces == acl_aces(b) && a.flags
                == flags_of_control(AclKind::Dacl, le16_at(s, 2))
            &&& sd_sacl(s) matches Ok(Some(b)) ==> m.sacl matches Some(a) && a.aces == acl_aces(b) && a.flags
                == flags_of_control(AclKind::Sacl, le16_at(s, 2))
        },
        sd_model(s) is None ==> sd_format(s) == Err::<Seq<u8>, SddlErrorView>(SddlErrorView::BadAce),
        sd_model(s) is None <==> sd_dacl(s) is Err || sd_sacl(s) is Err || (sd_dacl(s) matches Ok(Some(b)) && !acl_complete(
            b,
        )) || (sd_sacl(s) matches Ok(Some(b)) && !acl_complete(b)),
{
}

} // verus!
