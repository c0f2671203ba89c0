//! The text of a conditional expression tells the expression.

use vstd::prelude::*;
use crate::security::sddl::cond::{
    and_of, and_rest, artx_of_text, at, condition_from_text, condition_text, condition_tokens, enclosed, is_joined,
    keyword_at, list_from, list_of, literal_of, literal_printable, literal_tokens, literals_printable, literals_tokens,
    operand_of, operand_printable, operand_tokens, operator_of, operator_token, or_of, or_rest, printable, sign,
    test_of, text_of_artx, unary_of, MAX_NESTING,
};
use crate::security::sddl::condition::{
    artx, encodable, height, law_condition_reads_back, CompareOp, ConditionView, LiteralView, OperandView, MAX_HEIGHT,
};
use crate::security::sddl::fields::word_byte;
use crate::security::sddl::names::{law_sid_field_round_trip, sid_field};
use crate::security::sddl::scan::{balanced, top, Place};
use crate::security::sddl::tokens::{
    law_tokens_read_back, lemma_run_tokens, lemma_tokens_run_append, name_byte, token_step, token_valid, tokens_run,
    Sign, TokenView,
};
use crate::security::sddl::words::{
    int_text, is_word_operator, keyword_of, keyword_text, law_attribute_reads_back, law_int_reads_back,
    law_keyword_reads_back, law_octets_read_back, looks_numeric, Keyword,
};

verus! {

/// The same tokens stand at `p`.
pub open spec fn stand(t: Seq<TokenView>, p: int, x: Seq<TokenView>) -> bool {
    0 <= p && p + x.len() <= t.len() && t.subrange(p, p + x.len()) == x
}

proof fn lemma_part(t: Seq<TokenView>, p: int, a: Seq<TokenView>, b: Seq<TokenView>)
    requires
        stand(t, p, a + b),
    ensures
        stand(t, p, a),
        stand(t, p + a.len(), b),
{
    let x = a + b;
    assert forall|j: int| p <= j < p + x.len() implies #[trigger] t[j] == x[j - p] by {
        assert(t.subrange(p, p + x.len())[j - p] == x[j - p]);
    }
    assert(t.subrange(p, p + a.len()) =~= a);
    let q = p + a.len();
    assert forall|i: int| 0 <= i < b.len() implies t.subrange(q, q + b.len())[i] == b[i] by {
        assert(x[a.len() + i] == b[i]);
        assert(t[q + i] == x[q + i - p]);
    }
    assert(t.subrange(q, q + b.len()) =~= b);
}

proof fn lemma_first(t: Seq<TokenView>, p: int, x: Seq<TokenView>, i: int)
    requires
        stand(t, p, x),
        0 <= i < x.len(),
    ensures
        at(t, p + i) == Some(x[i]),
{
    assert(t.subrange(p, p + x.len())[i] == t[p + i]);
}

/// A number's word is no keyword.
proof fn lemma_numeric_is_no_keyword(w: Seq<u8>)
    requires
        looks_numeric(w),
    ensures
        keyword_of(w) is None,
{
    reveal(keyword_of);
    if let Some(k) = keyword_of(w) {
        reveal(keyword_text);
        assert(w == keyword_text(k));
        assert(k matches Keyword::Compare(op) ==> is_word_operator(op));
        law_keyword_reads_back(k);
        assert(0x41 <= w[0] <= 0x5a);
    }
}

/// A constant is read back from its tokens.
proof fn lemma_literal(t: Seq<TokenView>, p: int, l: LiteralView)
    requires
        stand(t, p, literal_tokens(l)),
        literal_printable(l),
    ensures
        literal_of(t, p) == Some((l, p + literal_tokens(l).len())),
        literal_tokens(l).len() > 0,
        at(t, p) == Some(literal_tokens(l)[0]),
{
    reveal(literal_of);
    let x = literal_tokens(l);
    lemma_first(t, p, x, 0);
    match l {
        LiteralView::Int(v) => {
            law_int_reads_back(v);
            lemma_numeric_is_no_keyword(int_text(v));
        },
        LiteralView::Str(s) => {},
        LiteralView::Octet(b) => {
            law_octets_read_back(b);
        },
        LiteralView::Sid(v) => {
            law_keyword_reads_back(Keyword::Sid);
            law_sid_field_round_trip(v);
            lemma_first(t, p, x, 1);
            lemma_first(t, p, x, 2);
            lemma_first(t, p, x, 3);
        },
    }
}

/// The tokens of the first constants come first.
proof fn lemma_list_prefix(items: Seq<LiteralView>, k: int)
    requires
        0 <= k <= items.len(),
    ensures
        stand(literals_tokens(items), 0, literals_tokens(items.take(k))),
    decreases items.len(),
{
    let whole = literals_tokens(items);
    if k == items.len() {
        assert(items.take(k) =~= items);
        assert(whole.subrange(0, whole.len() as int) =~= whole);
    } else {
        let front = items.drop_last();
        lemma_list_prefix(front, k);
        assert(front.take(k) =~= items.take(k));
        let f = literals_tokens(front);
        let x = literals_tokens(items.take(k));
        if items.len() == 1 {
            assert(f =~= Seq::<TokenView>::empty());
            assert(whole.subrange(0, 0) =~= x);
        } else {
            assert(whole.subrange(0, x.len() as int) =~= f.subrange(0, x.len() as int));
        }
    }
}

/// After some constants are read, the others remain.
proof fn lemma_list(t: Seq<TokenView>, p: int, items: Seq<LiteralView>, k: int)
    requires
        stand(t, p, literals_tokens(items)),
        literals_printable(items),
        1 <= k <= items.len(),
    ensures
        list_of(t, p) == list_from(t, p + literals_tokens(items.take(k)).len(), items.take(k)),
        literals_tokens(items.take(k)).len() > 0,
        at(t, p) == Some(literal_tokens(items[0])[0]),
    decreases k,
{
    let whole = literals_tokens(items);
    let now = items.take(k);
    let x = literals_tokens(now);
    lemma_list_prefix(items, k);
    assert(whole =~= x + whole.subrange(x.len() as int, whole.len() as int));
    lemma_part(t, p, x, whole.subrange(x.len() as int, whole.len() as int));
    if k == 1 {
        reveal(list_of);
        assert(now =~= seq![items[0]]);
        lemma_literal(t, p, items[0]);
    } else {
        lemma_list(t, p, items, k - 1);
        let before = items.take(k - 1);
        assert(now.drop_last() =~= before);
        assert(now =~= before.push(items[k - 1]));
        let a = literals_tokens(before);
        let comma = seq![TokenView::Sign(Sign::Comma)];
        let l = literal_tokens(items[k - 1]);
        lemma_part(t, p, a + comma, l);
        lemma_part(t, p, a, comma);
        lemma_first(t, p + a.len(), comma, 0);
        lemma_literal(t, p + a.len() + 1, items[k - 1]);
        reveal(list_from);
    }
}

/// An operand is read back from its tokens.
proof fn lemma_operand(t: Seq<TokenView>, p: int, o: OperandView)
    requires
        stand(t, p, operand_tokens(o)),
        operand_printable(o),
    ensures
        operand_of(t, p) == Some((o, p + operand_tokens(o).len())),
        operand_tokens(o).len() > 0,
        at(t, p) == Some(operand_tokens(o)[0]),
        at(t, p) != sign(Sign::Bang),
        at(t, p) != sign(Sign::Open),
        match keyword_at(t, p) {
            None => true,
            Some(k) => k == Keyword::Sid,
        },
{
    reveal(operand_of);
    let x = operand_tokens(o);
    match o {
        OperandView::Attr(source, name) => {
            lemma_first(t, p, x, 0);
            law_attribute_reads_back(source, name);
        },
        OperandView::Value(l) => {
            lemma_literal(t, p, l);
            match l {
                LiteralView::Int(v) => {
                    law_int_reads_back(v);
                    lemma_numeric_is_no_keyword(int_text(v));
                },
                LiteralView::Sid(v) => {
                    law_keyword_reads_back(Keyword::Sid);
                },
                _ => {},
            }
        },
        OperandView::Composite(items) => {
            let open = seq![TokenView::Sign(Sign::BraceOpen)];
            let close = seq![TokenView::Sign(Sign::BraceClose)];
            let body = literals_tokens(items);
            lemma_first(t, p, x, 0);
            lemma_part(t, p, open + body, close);
            lemma_part(t, p, open, body);
            lemma_first(t, p + 1 + body.len(), close, 0);
            if items.len() == 0 {
                reveal(list_of);
                assert(items =~= Seq::<LiteralView>::empty());
            } else {
                lemma_list(t, p + 1, items, items.len() as int);
                assert(items.take(items.len() as int) =~= items);
                reveal(list_from);
            }
        },
    }
}

proof fn lemma_operator(op: CompareOp)
    ensures
        operator_of(Some(operator_token(op))) == Some(op),
{
    if is_word_operator(op) {
        law_keyword_reads_back(Keyword::Compare(op));
    }
}

/// A test with a keyword is read back from its tokens.
proof fn lemma_keyword_test(t: Seq<TokenView>, p: int, k: Keyword, o: OperandView)
    requires
        k is Exists || k is NotExists || k is Member,
        stand(t, p, seq![TokenView::Word(keyword_text(k))] + operand_tokens(o)),
        operand_printable(o),
    ensures
        test_of(t, p) == Some(
            (
                match k {
                    Keyword::Exists => ConditionView::Exists(o),
                    Keyword::NotExists => ConditionView::NotExists(o),
                    _ => ConditionView::Member { op: k->Member_0, operand: o },
                },
                p + 1 + operand_tokens(o).len(),
            ),
        ),
        at(t, p) == Some(TokenView::Word(keyword_text(k))),
{
    reveal(test_of);
    let word = seq![TokenView::Word(keyword_text(k))];
    lemma_part(t, p, word, operand_tokens(o));
    lemma_first(t, p, word, 0);
    law_keyword_reads_back(k);
    lemma_operand(t, p + 1, o);
}

/// A test between operands is read back from its tokens.
proof fn lemma_compare_test(t: Seq<TokenView>, p: int, op: CompareOp, lhs: OperandView, rhs: OperandView)
    requires
        stand(t, p, operand_tokens(lhs) + seq![operator_token(op)] + operand_tokens(rhs)),
        operand_printable(lhs),
        operand_printable(rhs),
    ensures
        test_of(t, p) == Some(
            (ConditionView::Compare { op, lhs, rhs }, p + operand_tokens(lhs).len() + 1 + operand_tokens(rhs).len()),
        ),
        at(t, p) != sign(Sign::Bang),
        at(t, p) != sign(Sign::Open),
{
    reveal(test_of);
    let a = operand_tokens(lhs);
    let x = seq![operator_token(op)];
    let b = operand_tokens(rhs);
    lemma_part(t, p, a + x, b);
    lemma_part(t, p, a, x);
    lemma_operand(t, p, lhs);
    lemma_first(t, p + a.len(), x, 0);
    lemma_operator(op);
    lemma_operand(t, p + a.len() + 1, rhs);
}

/// An expression in parentheses is read back.
proof fn lemma_enclosed(t: Seq<TokenView>, p: int, c: ConditionView, d: nat)
    requires
        stand(t, p, enclosed(condition_tokens(c), true)),
        printable(c),
        d >= 2 * height(c) + 1,
    ensures
        unary_of(t, p, d) == Some((c, p + condition_tokens(c).len() + 2)),
    decreases height(c), 3int,
{
    let open = seq![TokenView::Sign(Sign::Open)];
    let close = seq![TokenView::Sign(Sign::Close)];
    let x = condition_tokens(c);
    lemma_part(t, p, open + x, close);
    lemma_part(t, p, open, x);
    lemma_first(t, p, open, 0);
    let q = p + 1 + x.len();
    lemma_first(t, q, close, 0);
    lemma_whole(t, p + 1, c, (d - 1) as nat);
}

/// An expression that no operator follows is read back.
proof fn lemma_whole(t: Seq<TokenView>, p: int, c: ConditionView, d: nat)
    requires
        stand(t, p, condition_tokens(c)),
        printable(c),
        d >= 2 * height(c),
        at(t, p + condition_tokens(c).len()) != sign(Sign::And),
        at(t, p + condition_tokens(c).len()) != sign(Sign::Or),
    ensures
        or_of(t, p, d) == Some((c, p + condition_tokens(c).len())),
    decreases height(c), 2int,
{
    let q = p + condition_tokens(c).len();
    lemma_parse(t, p, c, d);
    assert(or_rest(t, q, c, d) == Some((c, q)));
    if !(c is Or) {
        assert(and_rest(t, q, c, d) == Some((c, q)));
        assert(and_of(t, p, d) == Some((c, q)));
    }
}

/// The first token of what is no joined expression.
spec fn fronted(t: Seq<TokenView>, p: int) -> bool {
    at(t, p) != sign(Sign::Bang) && at(t, p) != sign(Sign::Open)
}

/// A test is an expression.
proof fn lemma_test_is_unary(t: Seq<TokenView>, p: int, c: ConditionView, q: int, d: nat)
    requires
        test_of(t, p) == Some((c, q)),
        fronted(t, p),
        d > 0,
        p < q <= t.len(),
    ensures
        unary_of(t, p, d) == Some((c, q)),
        and_of(t, p, d) == and_rest(t, q, c, d),
{
}

/// The left side of `&&` is read back.
proof fn lemma_left(t: Seq<TokenView>, p: int, c: ConditionView, d: nat)
    requires
        stand(t, p, enclosed(condition_tokens(c), c is Or)),
        printable(c),
        d >= 2 * height(c) + 1,
    ensures
        and_of(t, p, d) == and_rest(t, p + enclosed(condition_tokens(c), c is Or).len(), c, d),
    decreases height(c), 4int,
{
    if c is Or {
        lemma_enclosed(t, p, c, d);
        let q = p + condition_tokens(c).len() + 2;
        assert(unary_of(t, p, d) == Some((c, q)));
    } else {
        lemma_parse(t, p, c, d);
    }
}

/// The right side of `&&`, and what `!` stands before, is read back.
proof fn lemma_right(t: Seq<TokenView>, p: int, c: ConditionView, d: nat)
    requires
        stand(t, p, enclosed(condition_tokens(c), is_joined(c))),
        printable(c),
        d >= 2 * height(c) + 1,
    ensures
        unary_of(t, p, d) == Some((c, p + enclosed(condition_tokens(c), is_joined(c)).len())),
        enclosed(condition_tokens(c), is_joined(c)).len() > 0,
    decreases height(c), 4int,
{
    if is_joined(c) {
        lemma_enclosed(t, p, c, d);
    } else {
        lemma_parse(t, p, c, d);
    }
}

/// An expression is read back as far as its tokens go.
#[verifier::spinoff_prover]
proof fn lemma_parse(t: Seq<TokenView>, p: int, c: ConditionView, d: nat)
    requires
        stand(t, p, condition_tokens(c)),
        printable(c),
        d >= 2 * height(c),
    ensures
        condition_tokens(c).len() > 0,
        !is_joined(c) ==> unary_of(t, p, d) == Some((c, p + condition_tokens(c).len())),
        !(c is Or) ==> and_of(t, p, d) == and_rest(t, p + condition_tokens(c).len(), c, d),
        c is Or && at(t, p + condition_tokens(c).len()) != sign(Sign::And) ==> or_of(t, p, d) == or_rest(
            t,
            p + condition_tokens(c).len(),
            c,
            d,
        ),
    decreases height(c), 1int,
{
    let x = condition_tokens(c);
    let e = p + x.len();
    match c {
        ConditionView::Compare { op, lhs, rhs } => {
            lemma_compare_test(t, p, op, lhs, rhs);
            lemma_test_is_unary(t, p, c, e, d);
        },
        ConditionView::Member { op, operand } => {
            lemma_keyword_test(t, p, Keyword::Member(op), operand);
            lemma_test_is_unary(t, p, c, e, d);
        },
        ConditionView::Exists(o) => {
            lemma_keyword_test(t, p, Keyword::Exists, o);
            lemma_test_is_unary(t, p, c, e, d);
        },
        ConditionView::NotExists(o) => {
            lemma_keyword_test(t, p, Keyword::NotExists, o);
            lemma_test_is_unary(t, p, c, e, d);
        },
        ConditionView::And(l, r) => {
            lemma_parse_and(t, p, *l, *r, d);
        },
        ConditionView::Or(l, r) => {
            lemma_parse_or(t, p, *l, *r, d);
        },
        ConditionView::Not(y) => {
            let bang = seq![TokenView::Sign(Sign::Bang)];
            let body = enclosed(condition_tokens(*y), is_joined(*y));
            lemma_part(t, p, bang, body);
            lemma_first(t, p, bang, 0);
            lemma_right(t, p + 1, *y, (d - 1) as nat);
            assert(unary_of(t, p, d) == Some((c, e)));
        },
    }
}

proof fn lemma_parse_and(t: Seq<TokenView>, p: int, l: ConditionView, r: ConditionView, d: nat)
    requires
        stand(
            t,
            p,
            enclosed(condition_tokens(l), l is Or) + seq![TokenView::Sign(Sign::And)] + enclosed(
                condition_tokens(r),
                is_joined(r),
            ),
        ),
        printable(l),
        printable(r),
        d >= 2 * height(l) + 2,
        d >= 2 * height(r) + 2,
    ensures
        and_of(t, p, d) == and_rest(
            t,
            p + enclosed(condition_tokens(l), l is Or).len() + 1 + enclosed(condition_tokens(r), is_joined(r)).len(),
            ConditionView::And(Box::new(l), Box::new(r)),
            d,
        ),
    decreases height(ConditionView::And(Box::new(l), Box::new(r))), 0int,
{
    let a = enclosed(condition_tokens(l), l is Or);
    let x = seq![TokenView::Sign(Sign::And)];
    let b = enclosed(condition_tokens(r), is_joined(r));
    lemma_part(t, p, a + x, b);
    lemma_part(t, p, a, x);
    let q = p + a.len();
    lemma_first(t, q, x, 0);
    lemma_left(t, p, l, d);
    lemma_right(t, q + 1, r, d);
    assert(and_rest(t, q, l, d) == and_rest(t, q + 1 + b.len(), ConditionView::And(Box::new(l), Box::new(r)), d));
}

proof fn lemma_parse_or(t: Seq<TokenView>, p: int, l: ConditionView, r: ConditionView, d: nat)
    requires
        stand(
            t,
            p,
            condition_tokens(l) + seq![TokenView::Sign(Sign::Or)] + enclosed(condition_tokens(r), r is Or),
        ),
        printable(l),
        printable(r),
        d >= 2 * height(l) + 2,
        d >= 2 * height(r) + 2,
    ensures
        ({
            let e = p + condition_tokens(l).len() + 1 + enclosed(condition_tokens(r), r is Or).len();
            at(t, e) != sign(Sign::And) ==> or_of(t, p, d) == or_rest(
                t,
                e,
                ConditionView::Or(Box::new(l), Box::new(r)),
                d,
            )
        }),
        enclosed(condition_tokens(r), r is Or).len() > 0,
    decreases height(ConditionView::Or(Box::new(l), Box::new(r))), 0int,
{
    let a = condition_tokens(l);
    let x = seq![TokenView::Sign(Sign::Or)];
    let b = enclosed(condition_tokens(r), r is Or);
    lemma_part(t, p, a + x, b);
    lemma_part(t, p, a, x);
    let q = p + a.len();
    let e = q + 1 + b.len();
    lemma_first(t, q, x, 0);
    lemma_parse(t, p, l, d);
    lemma_left(t, q + 1, r, d);
    lemma_nonempty(r);
    if at(t, e) != sign(Sign::And) {
        assert(and_rest(t, e, r, d) == Some((r, e)));
        assert(and_of(t, q + 1, d) == Some((r, e)));
        assert(or_rest(t, q, l, d) == or_rest(t, e, ConditionView::Or(Box::new(l), Box::new(r)), d));
        if !(l is Or) {
            assert(and_rest(t, q, l, d) == Some((l, q)));
            assert(and_of(t, p, d) == Some((l, q)));
        }
    }
}

/// Every expression has tokens.
proof fn lemma_nonempty(c: ConditionView)
    ensures
        condition_tokens(c).len() > 0,
{
}

/// The tokens of an expression can be told from their text, and leave parentheses as they were.
proof fn lemma_literal_tokens(l: LiteralView, p: Place)
    requires
        literal_printable(l),
    ensures
        forall|i: int| 0 <= i < literal_tokens(l).len() ==> token_valid(#[trigger] literal_tokens(l)[i]),
        tokens_run(p, literal_tokens(l)) == Some(p),
{
    let x = literal_tokens(l);
    reveal_with_fuel(tokens_run, 5);
    match l {
        LiteralView::Int(v) => {
            law_int_reads_back(v);
            assert(x.drop_last() =~= Seq::<TokenView>::empty());
        },
        LiteralView::Str(s) => {
            assert(x.drop_last() =~= Seq::<TokenView>::empty());
        },
        LiteralView::Octet(b) => {
            law_octets_read_back(b);
            assert(x.drop_last() =~= Seq::<TokenView>::empty());
        },
        LiteralView::Sid(v) => {
            law_keyword_reads_back(Keyword::Sid);
            law_sid_field_round_trip(v);
            let w = sid_field(v);
            assert forall|i: int| 0 <= i < w.len() implies name_byte(#[trigger] w[i]) by {
                assert(word_byte(w[i]));
            }
            assert(x.drop_last().drop_last().drop_last().drop_last() =~= Seq::<TokenView>::empty());
        },
    }
}

/// One token that is no parenthesis leaves a scan where it was.
proof fn lemma_run_single(p: Place, t: TokenView)
    ensures
        tokens_run(p, seq![t]) == token_step(p, t),
{
    reveal_with_fuel(tokens_run, 2);
    assert(seq![t].drop_last() =~= Seq::<TokenView>::empty());
}

spec fn sound(ts: Seq<TokenView>) -> bool {
    forall|i: int| 0 <= i < ts.len() ==> token_valid(#[trigger] ts[i])
}

proof fn lemma_sound_append(a: Seq<TokenView>, b: Seq<TokenView>)
    requires
        sound(a),
        sound(b),
    ensures
        sound(a + b),
{
    assert forall|i: int| 0 <= i < (a + b).len() implies token_valid(#[trigger] (a + b)[i]) by {
        if i < a.len() {
            assert((a + b)[i] == a[i]);
        } else {
            assert((a + b)[i] == b[i - a.len()]);
        }
    }
}

proof fn lemma_literals_tokens(items: Seq<LiteralView>, p: Place)
    requires
        literals_printable(items),
    ensures
        sound(literals_tokens(items)),
        tokens_run(p, literals_tokens(items)) == Some(p),
    decreases items.len(),
{
    if items.len() == 0 {
    } else if items.len() == 1 {
        lemma_literal_tokens(items[0], p);
    } else {
        let front = items.drop_last();
        assert forall|i: int| 0 <= i < front.len() implies literal_printable(#[trigger] front[i]) by {
            assert(front[i] == items[i]);
        }
        lemma_literals_tokens(front, p);
        assert(literal_printable(items[items.len() - 1]));
        lemma_literal_tokens(items.last(), p);
        let comma = seq![TokenView::Sign(Sign::Comma)];
        lemma_run_single(p, comma[0]);
        lemma_tokens_run_append(p, literals_tokens(front), comma);
        lemma_tokens_run_append(p, literals_tokens(front) + comma, literal_tokens(items.last()));
        lemma_sound_append(literals_tokens(front), comma);
        lemma_sound_append(literals_tokens(front) + comma, literal_tokens(items.last()));
    }
}

proof fn lemma_operand_tokens(o: OperandView, p: Place)
    requires
        operand_printable(o),
    ensures
        sound(operand_tokens(o)),
        tokens_run(p, operand_tokens(o)) == Some(p),
{
    match o {
        OperandView::Attr(source, name) => {
            law_attribute_reads_back(source, name);
            lemma_run_single(p, operand_tokens(o)[0]);
        },
        OperandView::Value(l) => {
            lemma_literal_tokens(l, p);
        },
        OperandView::Composite(items) => {
            let open = seq![TokenView::Sign(Sign::BraceOpen)];
            let close = seq![TokenView::Sign(Sign::BraceClose)];
            lemma_literals_tokens(items, p);
            lemma_run_single(p, open[0]);
            lemma_run_single(p, close[0]);
            lemma_tokens_run_append(p, open, literals_tokens(items));
            lemma_tokens_run_append(p, open + literals_tokens(items), close);
            lemma_sound_append(open, literals_tokens(items));
            lemma_sound_append(open + literals_tokens(items), close);
        },
    }
}

/// Two rows of tokens with one token between them.
proof fn lemma_between(a: Seq<TokenView>, t: TokenView, b: Seq<TokenView>, p: Place)
    requires
        sound(a),
        sound(b),
        token_valid(t),
        token_step(p, t) == Some(p),
        tokens_run(p, a) == Some(p),
        tokens_run(p, b) == Some(p),
    ensures
        sound(a + seq![t] + b),
        tokens_run(p, a + seq![t] + b) == Some(p),
        sound(seq![t] + b),
        tokens_run(p, seq![t] + b) == Some(p),
{
    let x = seq![t];
    assert(sound(x));
    lemma_run_single(p, t);
    lemma_tokens_run_append(p, a, x);
    lemma_tokens_run_append(p, a + x, b);
    lemma_sound_append(a, x);
    lemma_sound_append(a + x, b);
    lemma_tokens_run_append(p, x, b);
    lemma_sound_append(x, b);
}

proof fn lemma_enclosed_tokens(c: ConditionView, yes: bool, p: Place)
    requires
        printable(c),
        !p.quoted,
    ensures
        sound(enclosed(condition_tokens(c), yes)),
        tokens_run(p, enclosed(condition_tokens(c), yes)) == Some(p),
    decreases c, 1int,
{
    let x = condition_tokens(c);
    if yes {
        let open = seq![TokenView::Sign(Sign::Open)];
        let close = seq![TokenView::Sign(Sign::Close)];
        let inside = Place { depth: p.depth + 1, ..p };
        lemma_condition_tokens(c, inside);
        lemma_run_single(p, open[0]);
        lemma_run_single(inside, close[0]);
        lemma_tokens_run_append(p, open, x);
        lemma_tokens_run_append(p, open + x, close);
        lemma_sound_append(open, x);
        lemma_sound_append(open + x, close);
    } else {
        lemma_condition_tokens(c, p);
    }
}

#[verifier::spinoff_prover]
proof fn lemma_condition_tokens(c: ConditionView, p: Place)
    requires
        printable(c),
        !p.quoted,
    ensures
        sound(condition_tokens(c)),
        tokens_run(p, condition_tokens(c)) == Some(p),
    decreases c, 0int,
{
    let none = Seq::<TokenView>::empty();
    assert(tokens_run(p, none) == Some(p));
    match c {
        ConditionView::Compare { op, lhs, rhs } => {
            lemma_operand_tokens(lhs, p);
            lemma_operand_tokens(rhs, p);
            if is_word_operator(op) {
                law_keyword_reads_back(Keyword::Compare(op));
            }
            lemma_between(operand_tokens(lhs), operator_token(op), operand_tokens(rhs), p);
        },
        ConditionView::Member { op, operand } => {
            lemma_operand_tokens(operand, p);
            law_keyword_reads_back(Keyword::Member(op));
            lemma_between(none, TokenView::Word(keyword_text(Keyword::Member(op))), operand_tokens(operand), p);
        },
        ConditionView::Exists(o) => {
            lemma_operand_tokens(o, p);
            law_keyword_reads_back(Keyword::Exists);
            lemma_between(none, TokenView::Word(keyword_text(Keyword::Exists)), operand_tokens(o), p);
        },
        ConditionView::NotExists(o) => {
            lemma_operand_tokens(o, p);
            law_keyword_reads_back(Keyword::NotExists);
            lemma_between(none, TokenView::Word(keyword_text(Keyword::NotExists)), operand_tokens(o), p);
        },
        ConditionView::And(l, r) => {
            lemma_enclosed_tokens(*l, *l is Or, p);
            lemma_enclosed_tokens(*r, is_joined(*r), p);
            lemma_between(
                enclosed(condition_tokens(*l), *l is Or),
                TokenView::Sign(Sign::And),
                enclosed(condition_tokens(*r), is_joined(*r)),
                p,
            );
        },
        ConditionView::Or(l, r) => {
            lemma_condition_tokens(*l, p);
            lemma_enclosed_tokens(*r, *r is Or, p);
            lemma_between(
                condition_tokens(*l),
                TokenView::Sign(Sign::Or),
                enclosed(condition_tokens(*r), *r is Or),
                p,
            );
        },
        ConditionView::Not(x) => {
            lemma_enclosed_tokens(*x, is_joined(*x), p);
            lemma_between(
                none,
                TokenView::Sign(Sign::Bang),
                enclosed(condition_tokens(*x), is_joined(*x)),
                p,
            );
        },
    }
}

/// The text of an expression tells it, and opens no parenthesis or quotation without closing it.
pub proof fn law_condition_text_reads_back(c: ConditionView)
    requires
        printable(c),
        height(c) <= MAX_HEIGHT,
    ensures
        condition_from_text(condition_text(c)) == Some(c),
        balanced(condition_text(c)),
{
    let t = condition_tokens(c);
    lemma_condition_tokens(c, top());
    law_tokens_read_back(t);
    lemma_run_tokens(top(), t);
    assert(t.subrange(0, t.len() as int) =~= t);
    lemma_whole(t, 0, c, MAX_NESTING as nat);
}

/// The bytecode of an expression goes to its text and back.
pub proof fn law_condition_forms_agree(c: ConditionView)
    requires
        printable(c),
        encodable(c),
        height(c) <= MAX_HEIGHT,
    ensures
        artx_of_text(condition_text(c)) == Some(artx(c)),
        text_of_artx(artx(c)) == Some(condition_text(c)),
{
    law_condition_text_reads_back(c);
    law_condition_reads_back(c);
}

} // verus!
