//! The text of a descriptor is UTF-8, whatever bytes it was made from.

use vstd::prelude::*;
use vstd::utf8::{encode_utf8_valid_utf8, length_of_first_scalar, pop_first_scalar, valid_utf8};
use crate::bytes::le32_at;
use crate::security::codec::{sd_fault, AceView};
use crate::security::rules::{
    CLAIM_TYPE_BOOLEAN, CLAIM_TYPE_INT64, CLAIM_TYPE_SID, CLAIM_TYPE_STRING, CLAIM_TYPE_UINT64,
};
use crate::security::sddl::claims::{
    claim_fields, claim_from, claim_printable, claim_tail_text, nul_from, sid_open, text_at, type_letter, value_in, value_printable, value_text,
};
use crate::token::claims::ClaimValueView;
use crate::security::sddl::cond::{
    condition_tokens, enclosed, is_joined, literal_printable, literal_tokens, literals_printable, literals_tokens,
    operand_printable, operand_tokens, operator_token, printable, text_of_artx,
};
use crate::security::sddl::condition::{
    applied, body_end, from_artx, is_operator, literal_at, literals_from, machine, operand_at, signed, ConditionView, ItemView,
    LiteralView, OperandView,
};
use crate::security::sddl::entry::{ace_text, entry_fields, entry_of, guid_field, has_guids, mask_field, tail_text};
use crate::security::sddl::fields::{flags_text, is_word, law_flags_round_trip, law_label_round_trip, law_rights_round_trip};
use crate::security::sddl::grammar::{
    aces_text, acl_flags_text, acl_section, sd_format, sd_model, sd_text, sid_section, AclModel,
};
use crate::security::sddl::names::{byte_text, law_guid_round_trip, law_sid_field_round_trip, sid_field};
use crate::security::sddl::scan::join;
use crate::security::sddl::tokens::{gap, render, sign_text, token_text, Sign, TokenView};
use crate::security::sddl::vocab::code_of_type;
use crate::security::sddl::words::{int_text, keyword_text, octet_text, source_text, Keyword};
use crate::security::sid::{law_sid_canonical, sid_of, SidView};
use crate::utf16::{chars16, utf8_of16};
use crate::security::text::{decimal, hex, law_decimal_reads_back, law_hex_reads_back};

verus! {

/// Two texts make a text.
pub proof fn lemma_utf8_concat(a: Seq<u8>, b: Seq<u8>)
    requires
        valid_utf8(a),
        valid_utf8(b),
    ensures
        valid_utf8(a + b),
    decreases a.len(),
{
    if a.len() == 0 {
        assert(a + b =~= b);
    } else {
        let ab = a + b;
        assert(ab[0] == a[0]);
        assert(a.len() > 1 ==> ab[1] == a[1]);
        assert(a.len() > 2 ==> ab[2] == a[2]);
        assert(a.len() > 3 ==> ab[3] == a[3]);
        assert(length_of_first_scalar(ab) == length_of_first_scalar(a));
        assert(pop_first_scalar(ab) =~= pop_first_scalar(a) + b);
        lemma_utf8_concat(pop_first_scalar(a), b);
    }
}

/// ASCII is UTF-8.
pub proof fn lemma_ascii_utf8(s: Seq<u8>)
    requires
        forall|i: int| 0 <= i < s.len() ==> #[trigger] s[i] < 0x80,
    ensures
        valid_utf8(s),
    decreases s.len(),
{
    if s.len() > 0 {
        let c = s[0];
        assert(c & 0x7f < 0xd800) by (bit_vector)
            requires
                c < 0x80,
        ;
        let rest = pop_first_scalar(s);
        assert(rest =~= s.subrange(1, s.len() as int));
        lemma_ascii_utf8(rest);
    }
}

proof fn lemma_word_utf8(s: Seq<u8>)
    requires
        is_word(s),
    ensures
        valid_utf8(s),
{
    lemma_ascii_utf8(s);
}

/// The text in a constant is UTF-8.
pub open spec fn literal_utf8(l: LiteralView) -> bool {
    l matches LiteralView::Str(s) ==> valid_utf8(s)
}

/// The text in constants is UTF-8.
pub open spec fn literals_utf8(items: Seq<LiteralView>) -> bool {
    forall|i: int| 0 <= i < items.len() ==> literal_utf8(#[trigger] items[i])
}

/// The text in an operand is UTF-8.
pub open spec fn operand_utf8(o: OperandView) -> bool {
    match o {
        OperandView::Attr(source, name) => valid_utf8(name),
        OperandView::Value(l) => literal_utf8(l),
        OperandView::Composite(items) => literals_utf8(items),
    }
}

/// The text in an expression is UTF-8.
pub open spec fn condition_utf8(c: ConditionView) -> bool
    decreases c,
{
    match c {
        ConditionView::Compare { op, lhs, rhs } => operand_utf8(lhs) && operand_utf8(rhs),
        ConditionView::Member { op, operand } => operand_utf8(operand),
        ConditionView::Exists(o) => operand_utf8(o),
        ConditionView::NotExists(o) => operand_utf8(o),
        ConditionView::And(l, r) => condition_utf8(*l) && condition_utf8(*r),
        ConditionView::Or(l, r) => condition_utf8(*l) && condition_utf8(*r),
        ConditionView::Not(x) => condition_utf8(*x),
    }
}

proof fn lemma_text16_utf8(s: Seq<u8>)
    ensures
        utf8_of16(s) matches Some(t) ==> valid_utf8(t),
{
    if let Some(c) = chars16(s) {
        encode_utf8_valid_utf8(c);
    }
}

proof fn lemma_literal_at(s: Seq<u8>, p: int)
    ensures
        literal_at(s, p) matches Some((l, q)) ==> literal_utf8(l),
{
    if let Some(q) = body_end(s, p) {
        lemma_text16_utf8(s.subrange(p + 5, q));
    }
}

proof fn lemma_literals_from(s: Seq<u8>, p: int, end: int, acc: Seq<LiteralView>)
    requires
        literals_utf8(acc),
    ensures
        literals_from(s, p, end, acc) matches Some(items) ==> literals_utf8(items),
    decreases end - p,
{
    if p < end {
        lemma_literal_at(s, p);
        if let Some((l, q)) = literal_at(s, p) {
            if p < q <= end {
                lemma_literals_from(s, q, end, acc.push(l));
            }
        }
    }
}

proof fn lemma_operand_at(s: Seq<u8>, p: int)
    ensures
        operand_at(s, p) matches Some((o, q)) ==> operand_utf8(o),
{
    lemma_literal_at(s, p);
    if let Some(q) = body_end(s, p) {
        lemma_literals_from(s, p + 5, q, Seq::empty());
        lemma_text16_utf8(s.subrange(p + 5, q));
    }
}

spec fn item_utf8(x: ItemView) -> bool {
    match x {
        ItemView::Value(o) => operand_utf8(o),
        ItemView::Test(c) => condition_utf8(c),
    }
}

spec fn stack_utf8(st: Seq<ItemView>) -> bool {
    forall|i: int| 0 <= i < st.len() ==> item_utf8(#[trigger] st[i])
}

proof fn lemma_applied(st: Seq<ItemView>, b: u8)
    requires
        stack_utf8(st),
    ensures
        applied(st, b) matches Some(next) ==> stack_utf8(next),
{
    let n = st.len() as int;
    if n >= 1 {
        assert(item_utf8(st[n - 1]));
    }
    if n >= 2 {
        assert(item_utf8(st[n - 2]));
    }
    if let Some(next) = applied(st, b) {
        assert forall|i: int| 0 <= i < next.len() implies item_utf8(#[trigger] next[i]) by {
            if i < next.len() - 1 {
                assert(next[i] == st[i]);
            }
        }
    }
}

proof fn lemma_machine(s: Seq<u8>, p: int, st: Seq<ItemView>)
    requires
        stack_utf8(st),
    ensures
        machine(s, p, st) matches Some(c) ==> condition_utf8(c),
    decreases s.len() - p,
{
    reveal(machine);
    if p >= s.len() {
        if st.len() == 1 {
            assert(item_utf8(st[0]));
        }
    } else if s[p] == 0 {
        lemma_machine(s, p + 1, st);
    } else if is_operator(s[p]) {
        lemma_applied(st, s[p]);
        if let Some(next) = applied(st, s[p]) {
            lemma_machine(s, p + 1, next);
        }
    } else {
        lemma_operand_at(s, p);
        if let Some((o, q)) = operand_at(s, p) {
            if q > p {
                lemma_machine(s, q, st.push(ItemView::Value(o)));
            }
        }
    }
}

/// Tokens whose text is UTF-8.
spec fn tokens_utf8(ts: Seq<TokenView>) -> bool {
    forall|i: int| 0 <= i < ts.len() ==> valid_utf8(token_text(#[trigger] ts[i]))
}

proof fn lemma_tokens_concat(a: Seq<TokenView>, b: Seq<TokenView>)
    requires
        tokens_utf8(a),
        tokens_utf8(b),
    ensures
        tokens_utf8(a + b),
{
    assert forall|i: int| 0 <= i < (a + b).len() implies valid_utf8(token_text(#[trigger] (a + b)[i])) by {
        if i < a.len() {
            assert((a + b)[i] == a[i]);
        } else {
            assert((a + b)[i] == b[i - a.len()]);
        }
    }
}

proof fn lemma_sign(x: Sign)
    ensures
        valid_utf8(token_text(TokenView::Sign(x))),
        tokens_utf8(seq![TokenView::Sign(x)]),
{
    lemma_ascii_utf8(sign_text(x));
}

proof fn lemma_keyword(k: Keyword)
    ensures
        valid_utf8(keyword_text(k)),
        tokens_utf8(seq![TokenView::Word(keyword_text(k))]),
{
    reveal(keyword_text);
    lemma_ascii_utf8(keyword_text(k));
}

proof fn lemma_int(v: i64)
    ensures
        valid_utf8(int_text(v)),
{
    let n: nat = if v < 0 {
        (-v) as nat
    } else {
        v as nat
    };
    law_decimal_reads_back(n);
    lemma_ascii_utf8(int_text(v));
}

proof fn lemma_octets(b: Seq<u8>)
    ensures
        valid_utf8(octet_text(b)),
{
    assert forall|i: int| 0 <= i < octet_text(b).len() implies #[trigger] octet_text(b)[i] < 0x80 by {
        let x = b[i / 2];
        assert(byte_text(x)[0] < 0x80 && byte_text(x)[1] < 0x80);
        assert(i % 2 == 0 || i % 2 == 1);
    }
    lemma_ascii_utf8(octet_text(b));
}

proof fn lemma_prefixed(c: u8, s: Seq<u8>)
    requires
        c < 0x80,
        valid_utf8(s),
    ensures
        valid_utf8(seq![c] + s),
{
    lemma_ascii_utf8(seq![c]);
    lemma_utf8_concat(seq![c], s);
}

proof fn lemma_wrapped(open: u8, s: Seq<u8>, close: u8)
    requires
        open < 0x80,
        close < 0x80,
        valid_utf8(s),
    ensures
        valid_utf8(seq![open] + s + seq![close]),
{
    lemma_prefixed(open, s);
    lemma_ascii_utf8(seq![close]);
    lemma_utf8_concat(seq![open] + s, seq![close]);
}

proof fn lemma_literal_tokens(l: LiteralView)
    requires
        literal_utf8(l),
        literal_printable(l),
    ensures
        tokens_utf8(literal_tokens(l)),
{
    match l {
        LiteralView::Int(v) => {
            lemma_int(v);
        },
        LiteralView::Str(s) => {
            lemma_wrapped(0x22, s, 0x22);
        },
        LiteralView::Octet(b) => {
            lemma_octets(b);
            lemma_prefixed(0x23, octet_text(b));
        },
        LiteralView::Sid(v) => {
            law_sid_field_round_trip(v);
            lemma_word_utf8(sid_field(v));
            lemma_keyword(Keyword::Sid);
            lemma_sign(Sign::Open);
            lemma_sign(Sign::Close);
        },
    }
}

proof fn lemma_literals_tokens(items: Seq<LiteralView>)
    requires
        literals_utf8(items),
        literals_printable(items),
    ensures
        tokens_utf8(literals_tokens(items)),
    decreases items.len(),
{
    if items.len() > 0 {
        lemma_literal_tokens(items.last());
        if items.len() > 1 {
            let front = items.drop_last();
            lemma_literals_tokens(front);
            lemma_sign(Sign::Comma);
            lemma_tokens_concat(literals_tokens(front), seq![TokenView::Sign(Sign::Comma)]);
            lemma_tokens_concat(
                literals_tokens(front) + seq![TokenView::Sign(Sign::Comma)],
                literal_tokens(items.last()),
            );
        }
    }
}

proof fn lemma_operand_tokens(o: OperandView)
    requires
        operand_utf8(o),
        operand_printable(o),
    ensures
        tokens_utf8(operand_tokens(o)),
{
    match o {
        OperandView::Attr(source, name) => {
            lemma_ascii_utf8(source_text(source));
            lemma_utf8_concat(source_text(source), name);
            lemma_prefixed(0x40, source_text(source) + name);
        },
        OperandView::Value(l) => {
            lemma_literal_tokens(l);
        },
        OperandView::Composite(items) => {
            lemma_literals_tokens(items);
            lemma_sign(Sign::BraceOpen);
            lemma_sign(Sign::BraceClose);
            let open = seq![TokenView::Sign(Sign::BraceOpen)];
            lemma_tokens_concat(open, literals_tokens(items));
            lemma_tokens_concat(open + literals_tokens(items), seq![TokenView::Sign(Sign::BraceClose)]);
        },
    }
}

proof fn lemma_enclosed(ts: Seq<TokenView>, yes: bool)
    requires
        tokens_utf8(ts),
    ensures
        tokens_utf8(enclosed(ts, yes)),
{
    lemma_sign(Sign::Open);
    lemma_sign(Sign::Close);
    let open = seq![TokenView::Sign(Sign::Open)];
    lemma_tokens_concat(open, ts);
    lemma_tokens_concat(open + ts, seq![TokenView::Sign(Sign::Close)]);
}

proof fn lemma_between(a: Seq<TokenView>, t: TokenView, b: Seq<TokenView>)
    requires
        tokens_utf8(a),
        valid_utf8(token_text(t)),
        tokens_utf8(b),
    ensures
        tokens_utf8(a + seq![t] + b),
{
    lemma_tokens_concat(a, seq![t]);
    lemma_tokens_concat(a + seq![t], b);
}

proof fn lemma_condition_tokens(c: ConditionView)
    requires
        condition_utf8(c),
        printable(c),
    ensures
        tokens_utf8(condition_tokens(c)),
    decreases c,
{
    match c {
        ConditionView::Compare { op, lhs, rhs } => {
            lemma_operand_tokens(lhs);
            lemma_operand_tokens(rhs);
            lemma_keyword(Keyword::Compare(op));
            match operator_token(op) {
                TokenView::Sign(x) => {
                    lemma_sign(x);
                },
                _ => {},
            }
            lemma_between(operand_tokens(lhs), operator_token(op), operand_tokens(rhs));
        },
        ConditionView::Member { op, operand } => {
            lemma_operand_tokens(operand);
            lemma_keyword(Keyword::Member(op));
            lemma_tokens_concat(seq![TokenView::Word(keyword_text(Keyword::Member(op)))], operand_tokens(operand));
        },
        ConditionView::Exists(o) => {
            lemma_operand_tokens(o);
            lemma_keyword(Keyword::Exists);
            lemma_tokens_concat(seq![TokenView::Word(keyword_text(Keyword::Exists))], operand_tokens(o));
        },
        ConditionView::NotExists(o) => {
            lemma_operand_tokens(o);
            lemma_keyword(Keyword::NotExists);
            lemma_tokens_concat(seq![TokenView::Word(keyword_text(Keyword::NotExists))], operand_tokens(o));
        },
        ConditionView::And(l, r) => {
            lemma_condition_tokens(*l);
            lemma_condition_tokens(*r);
            lemma_enclosed(condition_tokens(*l), *l is Or);
            lemma_enclosed(condition_tokens(*r), is_joined(*r));
            lemma_sign(Sign::And);
            lemma_between(
                enclosed(condition_tokens(*l), *l is Or),
                TokenView::Sign(Sign::And),
                enclosed(condition_tokens(*r), is_joined(*r)),
            );
        },
        ConditionView::Or(l, r) => {
            lemma_condition_tokens(*l);
            lemma_condition_tokens(*r);
            lemma_enclosed(condition_tokens(*r), *r is Or);
            lemma_sign(Sign::Or);
            lemma_between(
                condition_tokens(*l),
                TokenView::Sign(Sign::Or),
                enclosed(condition_tokens(*r), *r is Or),
            );
        },
        ConditionView::Not(x) => {
            lemma_condition_tokens(*x);
            lemma_enclosed(condition_tokens(*x), is_joined(*x));
            lemma_sign(Sign::Bang);
            lemma_tokens_concat(seq![TokenView::Sign(Sign::Bang)], enclosed(condition_tokens(*x), is_joined(*x)));
        },
    }
}

proof fn lemma_render(ts: Seq<TokenView>)
    requires
        tokens_utf8(ts),
    ensures
        valid_utf8(render(ts)),
    decreases ts.len(),
{
    if ts.len() > 0 {
        assert(valid_utf8(token_text(ts.last())));
        if ts.len() > 1 {
            let front = ts.drop_last();
            lemma_render(front);
            let g = gap(ts[ts.len() - 2], ts.last());
            lemma_ascii_utf8(g);
            lemma_utf8_concat(render(front), g);
            lemma_utf8_concat(render(front) + g, token_text(ts.last()));
        }
    }
}

/// The text of bytecode is UTF-8.
pub proof fn law_condition_text_is_utf8(s: Seq<u8>)
    ensures
        text_of_artx(s) matches Some(t) ==> valid_utf8(t),
{
    if let Some(c) = from_artx(s) {
        lemma_machine(s, 4, Seq::empty());
        if printable(c) {
            lemma_condition_tokens(c);
            lemma_render(condition_tokens(c));
        }
    }
}

/// Fields whose text is UTF-8.
spec fn fields_utf8(f: Seq<Seq<u8>>) -> bool {
    forall|i: int| 0 <= i < f.len() ==> valid_utf8(#[trigger] f[i])
}

proof fn lemma_join(f: Seq<Seq<u8>>, sep: u8)
    requires
        fields_utf8(f),
        sep < 0x80,
    ensures
        valid_utf8(join(f, sep)),
    decreases f.len(),
{
    if f.len() > 0 {
        assert(valid_utf8(f.last()));
        if f.len() > 1 {
            let front = f.drop_last();
            lemma_join(front, sep);
            lemma_ascii_utf8(seq![sep]);
            lemma_utf8_concat(join(front, sep), seq![sep]);
            lemma_utf8_concat(join(front, sep) + seq![sep], f.last());
        }
    }
}

proof fn lemma_text_at(s: Seq<u8>, p: int)
    ensures
        text_at(s, p) matches Some(t) ==> valid_utf8(t),
{
    if let Some(e) = nul_from(s, p) {
        lemma_text16_utf8(s.subrange(p, e));
    }
}

proof fn lemma_value_text(t: u16, v: ClaimValueView)
    requires
        value_printable(t, v),
        t == CLAIM_TYPE_STRING ==> valid_utf8(v.bytes->Some_0),
    ensures
        valid_utf8(value_text(t, v)),
{
    let b = v.bytes->Some_0;
    if t == CLAIM_TYPE_INT64 {
        lemma_int(signed(v.scalar));
    } else if t == CLAIM_TYPE_UINT64 || t == CLAIM_TYPE_BOOLEAN {
        law_decimal_reads_back(v.scalar as nat);
        lemma_ascii_utf8(decimal(v.scalar as nat));
    } else if t == CLAIM_TYPE_STRING {
        lemma_wrapped(0x22, b, 0x22);
    } else if t == CLAIM_TYPE_SID {
        law_sid_canonical(b, 0);
        let x = sid_field(sid_of(b)->Some_0);
        law_sid_field_round_trip(sid_of(b)->Some_0);
        lemma_word_utf8(x);
        lemma_ascii_utf8(sid_open());
        lemma_utf8_concat(sid_open(), x);
        lemma_ascii_utf8(seq![0x29u8]);
        lemma_utf8_concat(sid_open() + x, seq![0x29u8]);
    } else {
        lemma_octets(b);
        lemma_prefixed(0x23, octet_text(b));
    }
}

/// The text of an attribute is UTF-8.
pub proof fn law_claim_text_is_utf8(s: Seq<u8>)
    ensures
        claim_tail_text(s) matches Some(t) ==> valid_utf8(t),
{
    if let Some(c) = claim_from(s) {
        if claim_printable(c) {
            lemma_text_at(s, le32_at(s, 0) as int);
            lemma_wrapped(0x22, c.name, 0x22);
            lemma_ascii_utf8(seq![0x54u8, type_letter(c.value_type)]);
            law_hex_reads_back(c.flags as nat);
            lemma_ascii_utf8(seq![0x30u8, 0x78u8] + hex(c.flags as nat));
            let f = claim_fields(c);
            assert forall|i: int| 0 <= i < f.len() implies valid_utf8(#[trigger] f[i]) by {
                if i >= 3 {
                    let v = c.values[i - 3];
                    assert(value_printable(c.value_type, c.values[i - 3]));
                    assert(value_in(s, i - 3) is Some);
                    lemma_text_at(s, le32_at(s, le32_at(s, 16 + 4 * (i - 3)) as int) as int);
                    lemma_value_text(c.value_type, v);
                    assert(f[i] == value_text(c.value_type, v));
                }
            }
            lemma_join(f, 0x2c);
        }
    }
}

proof fn lemma_code(t: u8)
    ensures
        code_of_type(t) matches Some(c) ==> valid_utf8(c),
{
    if let Some(c) = code_of_type(t) {
        lemma_ascii_utf8(c);
    }
}

proof fn lemma_guid_field(g: Option<Seq<u8>>)
    requires
        g matches Some(b) ==> b.len() == 16,
    ensures
        valid_utf8(guid_field(g)),
{
    if let Some(b) = g {
        law_guid_round_trip(b);
        lemma_word_utf8(guid_field(g));
    }
}

/// The text of an entry is UTF-8.
pub proof fn law_ace_text_is_utf8(a: AceView)
    ensures
        ace_text(a) matches Ok(t) ==> valid_utf8(t),
{
    reveal(ace_text);
    if let Ok(t) = ace_text(a) {
        let code = code_of_type(a.ace_type)->Some_0;
        let e = entry_of(a)->Some_0;
        let tail = tail_text(e.ace_type, e.tail)->Some_0;
        let f = entry_fields(code, e, tail);
        lemma_code(a.ace_type);
        law_flags_round_trip(e.flags);
        lemma_word_utf8(flags_text(e.flags));
        law_label_round_trip(e.mask);
        law_rights_round_trip(e.mask);
        lemma_word_utf8(mask_field(e.ace_type, e.mask));
        lemma_entry_parts(a);
        lemma_guid_field(e.object);
        lemma_guid_field(e.inherited);
        law_sid_field_round_trip(e.sid);
        lemma_word_utf8(sid_field(e.sid));
        law_claim_text_is_utf8(e.tail);
        law_condition_text_is_utf8(e.tail);
        if let Some(x) = tail {
            lemma_wrapped(0x28, x, 0x29);
        }
        assert(fields_utf8(f));
        lemma_join(f, 0x3b);
        lemma_wrapped(0x28, join(f, 0x3b), 0x29);
    }
}

/// The parts of an entry have the sizes that parts have.
proof fn lemma_entry_parts(a: AceView)
    ensures
        entry_of(a) matches Some(e) ==> {
            &&& e.object matches Some(g) ==> g.len() == 16
            &&& e.inherited matches Some(g) ==> g.len() == 16
            &&& e.sid.wf()
        },
{
    if let Some(e) = entry_of(a) {
        let b = a.body;
        let guids = has_guids(a.ace_type);
        let given: u32 = if guids {
            le32_at(b, 4)
        } else {
            0
        };
        let fixed: int = if guids {
            8
        } else {
            4
        };
        let second = fixed + if given % 2 == 1 {
            16int
        } else {
            0
        };
        let start = second + if given / 2 % 2 == 1 {
            16int
        } else {
            0
        };
        law_sid_canonical(b, start);
    }
}

proof fn lemma_aces_text(aces: Seq<AceView>)
    ensures
        aces_text(aces) matches Ok(t) ==> valid_utf8(t),
    decreases aces.len(),
{
    if aces.len() > 0 {
        lemma_aces_text(aces.drop_last());
        law_ace_text_is_utf8(aces.last());
        if let Ok(a) = aces_text(aces.drop_last()) {
            if let Ok(b) = ace_text(aces.last()) {
                lemma_utf8_concat(a, b);
            }
        }
    }
}

proof fn lemma_acl_section(letter: u8, acl: Option<AclModel>)
    requires
        letter < 0x80,
    ensures
        acl_section(letter, acl) matches Ok(t) ==> valid_utf8(t),
{
    if let Some(a) = acl {
        lemma_aces_text(a.aces);
        if let Ok(t) = aces_text(a.aces) {
            let flags = acl_flags_text(a.flags);
            lemma_ascii_utf8(flags);
            lemma_ascii_utf8(seq![letter, 0x3au8]);
            lemma_utf8_concat(flags, t);
            lemma_utf8_concat(seq![letter, 0x3au8], flags + t);
        }
    }
}

proof fn lemma_sid_section(letter: u8, sid: Option<SidView>)
    requires
        letter < 0x80,
        sid matches Some(v) ==> v.wf(),
    ensures
        valid_utf8(sid_section(letter, sid)),
{
    if let Some(v) = sid {
        law_sid_field_round_trip(v);
        lemma_word_utf8(sid_field(v));
        lemma_ascii_utf8(seq![letter, 0x3au8]);
        lemma_utf8_concat(seq![letter, 0x3au8], sid_field(v));
    }
}

/// The text of a descriptor is UTF-8.
pub proof fn law_sd_text_is_utf8(s: Seq<u8>)
    requires
        sd_fault(s) is None,
    ensures
        sd_format(s) matches Ok(t) ==> valid_utf8(t),
{
    if let Some(m) = sd_model(s) {
        if m.owner is Some {
            law_sid_canonical(s, le32_at(s, 4) as int);
        }
        if m.group is Some {
            law_sid_canonical(s, le32_at(s, 8) as int);
        }
        lemma_sid_section(0x4f, m.owner);
        lemma_sid_section(0x47, m.group);
        lemma_acl_section(0x44, m.dacl);
        lemma_acl_section(0x53, m.sacl);
        if let Ok(t) = sd_text(m) {
            let o = sid_section(0x4f, m.owner);
            let g = sid_section(0x47, m.group);
            let d = acl_section(0x44, m.dacl)->Ok_0;
            let x = acl_section(0x53, m.sacl)->Ok_0;
            lemma_utf8_concat(o, g);
            lemma_utf8_concat(o + g, d);
            lemma_utf8_concat(o + g + d, x);
        }
    }
}

} // verus!
