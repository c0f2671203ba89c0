//! Whatever text is read as, text tells: writing what was read and reading it again gives the
//! same.

use vstd::prelude::*;
use crate::security::codec::AceView;
use crate::security::rules::claim_type_scalar;
use crate::security::sddl::builders::built_sd;
use crate::security::sddl::claims::{
    claim_entry, claim_from, claim_from_text, claim_printable, claim_tail, value_of, value_printable,
};
use crate::security::sddl::claims_laws::{law_claim_entry_reads_back, value_stored};
use crate::security::sddl::cond::{
    and_of, and_rest, artx_of_text, at, condition_from_text, list_from, list_of, literal_of, literal_printable,
    literals_printable, operand_of, operand_printable, or_of, or_rest, printable, sign, test_of, text_of_artx,
    unary_of, MAX_NESTING,
};
use crate::security::sddl::cond_laws::law_condition_forms_agree;
use crate::security::sddl::condition::{law_condition_reads_back, ConditionView, LiteralView};
use crate::security::sddl::entry::{
    ace_of_text, entry_ace, entry_of_fields, has_claim, has_condition, law_entry_reads_back, tail_of_field,
};
use crate::security::sddl::entry_laws::{entry_told, tail_told};
use crate::security::sddl::fields::{flags_from, flags_known};
use crate::security::sddl::grammar::{
    aces_from, acl_of_text, nothing, open_from, sd_format, sd_of_text, sd_parts, sections_from, with_section, SdModel,
};
use crate::security::sddl::grammar_laws::{ace_told, aces_told, law_built_sd_says, law_sd_text_reads_back, sd_told};
use crate::security::sddl::names::{capital, sid_from_field, trimmed};
use crate::security::sddl::scan::{close_from, header_from, is_header, split_top, top};
use crate::security::sddl::tokens::{
    all_name, name_byte, name_end, quote_end, token_at, token_valid, tokens_from, Sign, TokenView,
};
use crate::security::sddl::vocab::{flag_of_pair, law_aliases_are_a_bijection, sid_of_alias, Code};
use crate::security::sddl::words::{attribute_of, source_text};
use crate::security::sddl::Error;
use crate::security::sid::{law_sid_round_trip, sid_bytes};

verus! {

/// Tokens that can be told from their text.
pub open spec fn tokens_valid(t: Seq<TokenView>) -> bool {
    forall|i: int| 0 <= i < t.len() ==> token_valid(#[trigger] t[i])
}

proof fn lemma_name_run(s: Seq<u8>, p: int)
    requires
        0 <= p <= s.len(),
    ensures
        p <= name_end(s, p) <= s.len(),
        forall|i: int| p <= i < name_end(s, p) ==> name_byte(#[trigger] s[i]),
    decreases s.len() - p,
{
    if p < s.len() && name_byte(s[p]) {
        lemma_name_run(s, p + 1);
    }
}

proof fn lemma_quote_run(s: Seq<u8>, p: int)
    requires
        0 <= p <= s.len(),
    ensures
        p <= quote_end(s, p) <= s.len(),
        forall|i: int| p <= i < quote_end(s, p) ==> #[trigger] s[i] != 0x22,
    decreases s.len() - p,
{
    if p < s.len() && s[p] != 0x22 {
        lemma_quote_run(s, p + 1);
    }
}

proof fn lemma_token(s: Seq<u8>, p: int)
    requires
        0 <= p < s.len(),
    ensures
        token_at(s, p) matches Some((t, q)) ==> token_valid(t),
{
    lemma_name_run(s, p);
    lemma_name_run(s, p + 1);
    lemma_quote_run(s, p + 1);
    if name_byte(s[p]) {
        lemma_name_run(s, p + 1);
        assert(name_end(s, p) == name_end(s, p + 1));
    }
}

/// Text is read as tokens that can be told from their text.
proof fn lemma_tokens(s: Seq<u8>, p: int, acc: Seq<TokenView>)
    requires
        0 <= p,
        tokens_valid(acc),
    ensures
        tokens_from(s, p, acc) matches Some(ts) ==> tokens_valid(ts),
    decreases s.len() - p,
{
    if p < s.len() {
        lemma_tokens(s, p + 1, acc);
        lemma_token(s, p);
        if let Some((t, q)) = token_at(s, p) {
            if p < q <= s.len() {
                lemma_tokens(s, q, acc.push(t));
            }
        }
    }
}

/// A SID that is read from a field fits its binary form.
pub proof fn lemma_field_sid(s: Seq<u8>)
    ensures
        sid_from_field(s) matches Ok(v) ==> v.wf(),
{
    let t = trimmed(s);
    if t.len() == 2 {
        let c = Code { first: capital(t[0]), second: capital(t[1]) };
        if let Some(v) = sid_of_alias(c) {
            law_aliases_are_a_bijection(c, v);
        }
    }
}

proof fn lemma_literal(t: Seq<TokenView>, p: int)
    requires
        tokens_valid(t),
    ensures
        literal_of(t, p) matches Some((l, q)) ==> literal_printable(l),
{
    reveal(literal_of);
    if let Some(TokenView::Word(x)) = at(t, p + 2) {
        lemma_field_sid(x);
    }
}

proof fn lemma_list_rest(t: Seq<TokenView>, p: int, acc: Seq<LiteralView>)
    requires
        tokens_valid(t),
        literals_printable(acc),
    ensures
        list_from(t, p, acc) matches Some((items, q)) ==> literals_printable(items),
    decreases t.len() - p,
{
    reveal(list_from);
    if at(t, p) == sign(Sign::Comma) {
        lemma_literal(t, p + 1);
        if let Some((l, q)) = literal_of(t, p + 1) {
            if p + 1 < q <= t.len() {
                lemma_list_rest(t, q, acc.push(l));
            }
        }
    }
}

proof fn lemma_list(t: Seq<TokenView>, p: int)
    requires
        tokens_valid(t),
    ensures
        list_of(t, p) matches Some((items, q)) ==> literals_printable(items),
{
    reveal(list_of);
    lemma_literal(t, p);
    if let Some((l, q)) = literal_of(t, p) {
        lemma_list_rest(t, q, seq![l]);
    }
}

proof fn lemma_attribute(w: Seq<u8>)
    requires
        all_name(w),
    ensures
        attribute_of(w) matches Some((source, name)) ==> name.len() > 0 && all_name(name),
{
    if let Some((source, name)) = attribute_of(w) {
        let n = source_text(source).len() as int;
        assert(name == w.subrange(n, w.len() as int));
        assert forall|i: int| 0 <= i < name.len() implies name_byte(#[trigger] name[i]) by {
            assert(name_byte(w[i + n]));
        }
    }
}

proof fn lemma_operand(t: Seq<TokenView>, p: int)
    requires
        tokens_valid(t),
    ensures
        operand_of(t, p) matches Some((o, q)) ==> operand_printable(o),
{
    reveal(operand_of);
    lemma_literal(t, p);
    lemma_list(t, p + 1);
    match at(t, p) {
        Some(TokenView::At(w)) => {
            assert(token_valid(t[p]));
            lemma_attribute(w);
        },
        Some(TokenView::Word(w)) => {
            assert(token_valid(t[p]));
        },
        _ => {},
    }
}

proof fn lemma_test(t: Seq<TokenView>, p: int)
    requires
        tokens_valid(t),
    ensures
        test_of(t, p) matches Some((c, q)) ==> printable(c),
{
    reveal(test_of);
    lemma_operand(t, p);
    lemma_operand(t, p + 1);
    if let Some((lhs, q)) = operand_of(t, p) {
        lemma_operand(t, q + 1);
    }
}

proof fn lemma_unary(t: Seq<TokenView>, p: int, d: nat)
    requires
        tokens_valid(t),
    ensures
        unary_of(t, p, d) matches Some((c, q)) ==> printable(c),
    decreases d, t.len() - p, 2int,
{
    if d > 0 {
        if at(t, p) == sign(Sign::Bang) {
            lemma_unary(t, p + 1, (d - 1) as nat);
        } else if at(t, p) == sign(Sign::Open) {
            lemma_or(t, p + 1, (d - 1) as nat);
        } else {
            lemma_test(t, p);
        }
    }
}

proof fn lemma_and_rest(t: Seq<TokenView>, p: int, acc: ConditionView, d: nat)
    requires
        tokens_valid(t),
        printable(acc),
    ensures
        and_rest(t, p, acc, d) matches Some((c, q)) ==> printable(c),
    decreases d, t.len() - p, 1int,
{
    if at(t, p) == sign(Sign::And) {
        lemma_unary(t, p + 1, d);
        if let Some((c, q)) = unary_of(t, p + 1, d) {
            if p < q <= t.len() {
                lemma_and_rest(t, q, ConditionView::And(Box::new(acc), Box::new(c)), d);
            }
        }
    }
}

proof fn lemma_and(t: Seq<TokenView>, p: int, d: nat)
    requires
        tokens_valid(t),
    ensures
        and_of(t, p, d) matches Some((c, q)) ==> printable(c),
    decreases d, t.len() - p, 3int,
{
    lemma_unary(t, p, d);
    if let Some((c, q)) = unary_of(t, p, d) {
        if p < q <= t.len() {
            lemma_and_rest(t, q, c, d);
        }
    }
}

proof fn lemma_or_rest(t: Seq<TokenView>, p: int, acc: ConditionView, d: nat)
    requires
        tokens_valid(t),
        printable(acc),
    ensures
        or_rest(t, p, acc, d) matches Some((c, q)) ==> printable(c),
    decreases d, t.len() - p, 1int,
{
    if at(t, p) == sign(Sign::Or) {
        lemma_and(t, p + 1, d);
        if let Some((c, q)) = and_of(t, p + 1, d) {
            if p < q <= t.len() {
                lemma_or_rest(t, q, ConditionView::Or(Box::new(acc), Box::new(c)), d);
            }
        }
    }
}

proof fn lemma_or(t: Seq<TokenView>, p: int, d: nat)
    requires
        tokens_valid(t),
    ensures
        or_of(t, p, d) matches Some((c, q)) ==> printable(c),
    decreases d, t.len() - p, 4int,
{
    lemma_and(t, p, d);
    if let Some((c, q)) = and_of(t, p, d) {
        if p < q <= t.len() {
            lemma_or_rest(t, q, c, d);
        }
    }
}

/// Every expression that is read from text is told by its own text.
pub proof fn law_read_condition_is_printable(s: Seq<u8>)
    ensures
        condition_from_text(s) matches Some(c) ==> printable(c),
{
    lemma_tokens(s, 0, Seq::empty());
    if let Some(t) = tokens_from(s, 0, Seq::empty()) {
        lemma_or(t, 0, MAX_NESTING as nat);
    }
}

/// Writing an expression that was read from text and reading that again is a fixed point: whatever
/// text gives bytecode, the text of that bytecode gives the same bytecode.
pub proof fn law_condition_fixed_point(s: Seq<u8>)
    requires
        artx_of_text(s) is Some,
    ensures
        text_of_artx(artx_of_text(s)->Some_0) is Some,
        artx_of_text(text_of_artx(artx_of_text(s)->Some_0)->Some_0) == artx_of_text(s),
{
    law_read_condition_is_printable(s);
    law_condition_forms_agree(condition_from_text(s)->Some_0);
}

proof fn lemma_value(t: u16, f: Seq<u8>)
    ensures
        value_of(t, f) matches Some(v) ==> value_printable(t, v),
{
    if !claim_type_scalar(t) && f.len() >= 5 {
        let x = f.subrange(4, f.len() - 1);
        lemma_field_sid(x);
        if let Ok(v) = sid_from_field(x) {
            law_sid_round_trip(Seq::empty(), v, Seq::empty());
            assert(Seq::<u8>::empty() + sid_bytes(v) + Seq::<u8>::empty() =~= sid_bytes(v));
        }
    }
}

/// Every attribute that is read from text is told by its own text.
pub proof fn law_read_claim_is_printable(s: Seq<u8>)
    ensures
        claim_from_text(s) matches Some(c) ==> claim_printable(c),
{
    let f = split_top(s, 0x2c);
    if let Some(c) = claim_from_text(s) {
        assert forall|i: int| 0 <= i < c.values.len() implies value_printable(c.value_type, #[trigger] c.values[i]) by {
            lemma_value(c.value_type, f[i + 3]);
            assert(value_of(c.value_type, f[i + 3]) is Some);
        }
    }
}

proof fn lemma_claim_tail(s: Seq<u8>)
    ensures
        claim_tail(s) matches Some(tail) ==> claim_from(tail) == claim_from_text(s),
{
    law_read_claim_is_printable(s);
    if let Some(tail) = claim_tail(s) {
        let c = claim_from_text(s)->Some_0;
        let b = claim_entry(c)->Some_0;
        assert(tail.take(b.len() as int) =~= b);
        assert forall|i: int| 0 <= i < c.values.len() implies value_stored(c.value_type, #[trigger] c.values[i]) by {
            assert(value_printable(c.value_type, c.values[i]));
        }
        law_claim_entry_reads_back(c, tail);
    }
}

proof fn lemma_tail(t: u8, f: Seq<u8>)
    requires
        has_claim(t) || has_condition(t),
    ensures
        tail_of_field(t, f) matches Ok(tail) ==> tail_told(t, tail),
{
    if f.len() >= 2 {
        let x = f.subrange(1, f.len() - 1);
        if has_claim(t) {
            law_read_claim_is_printable(x);
            lemma_claim_tail(x);
        } else {
            law_read_condition_is_printable(x);
            if let Some(c) = condition_from_text(x) {
                if artx_of_text(x) is Some {
                    law_condition_reads_back(c);
                }
            }
        }
    }
}

proof fn lemma_flags(s: Seq<u8>, acc: u8)
    requires
        flags_known(acc),
    ensures
        flags_from(s, acc) matches Some(f) ==> flags_known(f),
    decreases s.len(),
{
    if s.len() >= 2 {
        if let Some(m) = flag_of_pair(s[0], s[1]) {
            assert((acc | m) & 0x20 == 0) by (bit_vector)
                requires
                    acc & 0x20 == 0,
                    m == 0x01 || m == 0x02 || m == 0x04 || m == 0x08 || m == 0x10 || m == 0x40 || m == 0x80,
            ;
            lemma_flags(s.subrange(2, s.len() as int), acc | m);
        }
    }
}

proof fn lemma_entry(f: Seq<Seq<u8>>)
    ensures
        entry_of_fields(f) matches Ok(e) ==> entry_ace(e).wf() ==> entry_told(e),
{
    if let Ok(e) = entry_of_fields(f) {
        assert(0u8 & 0x20 == 0) by (bit_vector);
        lemma_flags(f[1], 0);
        lemma_field_sid(f[5]);
        if f.len() == 7 {
            lemma_tail(e.ace_type, f[6]);
        }
    }
}

/// Every entry that is read from text is told by its own text.
pub proof fn law_read_ace_is_told(s: Seq<u8>)
    ensures
        ace_of_text(s) matches Ok(a) ==> ace_told(a),
{
    reveal(ace_of_text);
    reveal(ace_told);
    let f = split_top(s, 0x3b);
    lemma_entry(f);
    if let Ok(e) = entry_of_fields(f) {
        if entry_ace(e).wf() {
            law_entry_reads_back(e);
        }
    }
}

proof fn lemma_aces(s: Seq<u8>, p: int, acc: Seq<AceView>)
    requires
        aces_told(acc),
    ensures
        aces_from(s, p, acc) matches Ok(aces) ==> aces_told(aces),
    decreases s.len() - p,
{
    if p < s.len() && s[p] == 0x28 {
        if let Some(q) = close_from(s, p + 1, top()) {
            if p < q < s.len() {
                law_read_ace_is_told(s.subrange(p + 1, q));
                if let Ok(a) = ace_of_text(s.subrange(p + 1, q)) {
                    lemma_aces(s, q + 1, acc.push(a));
                }
            }
        }
    }
}

proof fn lemma_section(m: SdModel, letter: u8, body: Seq<u8>)
    requires
        sd_told(m),
    ensures
        with_section(m, letter, body) matches Ok(n) ==> sd_told(n) && n != nothing(),
{
    reveal(acl_of_text);
    lemma_field_sid(body);
    lemma_aces(body, open_from(body, 0), Seq::empty());
}

proof fn lemma_sections(s: Seq<u8>, p: int, m: SdModel)
    requires
        sd_told(m),
        p < s.len() || m != nothing(),
    ensures
        sections_from(s, p, m) matches Ok(n) ==> sd_told(n) && n != nothing(),
    decreases s.len() - p,
{
    reveal(sections_from);
    if p < s.len() && is_header(s, p) {
        let q = header_from(s, p + 2, top());
        if p < q <= s.len() {
            lemma_section(m, s[p], s.subrange(p + 2, q));
            if let Ok(n) = with_section(m, s[p], s.subrange(p + 2, q)) {
                lemma_sections(s, q, n);
            }
        }
    }
}

/// Every descriptor that is read from text is told by its own text.
pub proof fn law_read_sd_is_told(s: Seq<u8>)
    ensures
        sd_of_text(s) matches Ok(m) ==> sd_told(m) && m != nothing(),
{
    if s.len() > 0 {
        lemma_sections(s, 0, nothing());
    }
}

/// Writing a descriptor that was read from text and reading that again is a fixed point: whatever
/// text gives a binary descriptor, the text of that descriptor gives the same one.
pub proof fn law_sd_fixed_point(s: Seq<u8>)
    requires
        sd_of_text(s) is Ok,
        built_sd(sd_parts(sd_of_text(s)->Ok_0)) is Ok,
    ensures
        ({
            let b = built_sd(sd_parts(sd_of_text(s)->Ok_0))->Ok_0;
            &&& sd_format(b) is Ok
            &&& sd_of_text(sd_format(b)->Ok_0) == sd_of_text(s)
            &&& built_sd(sd_parts(sd_of_text(sd_format(b)->Ok_0)->Ok_0)) == Ok::<Seq<u8>, Error>(b)
        }),
{
    law_read_sd_is_told(s);
    let m = sd_of_text(s)->Ok_0;
    law_built_sd_says(m);
    law_sd_text_reads_back(m);
}

} // verus!
