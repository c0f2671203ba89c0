//! The text of conditional expressions.
//!
//! `!` binds tighter than `&&`, and `&&` tighter than `||`; both join from the left.
//! Parentheses stand only where the expression would otherwise be another one.

use vstd::prelude::*;
use vstd::slice::slice_to_vec;
use crate::bytes::put_slice;
use crate::security::sddl::condition::{
    artx, condition_wf, decode_artx, encodable, from_artx, height, literals, literals_wf, CompareOp, Condition, ConditionView, Literal, LiteralView,
    Operand, OperandView, Source, MAX_HEIGHT,
};
use crate::security::sddl::names::{parse_sid, put_sid, sid_field, sid_from_field};
use crate::security::sddl::tokens::{
    all_name, is_name_byte, is_quotable, name_byte, quotable, render, render_tokens, tokenize, tokens_from, views, Sign, Token, TokenView,
};
use crate::security::sddl::words::{
    attribute_of, int_of, int_text, keyword_of, keyword_text, looks_numeric, octet_text, octets_of, put_int, put_keyword,
    put_octets, put_source, read_attribute, read_int, read_keyword, read_octets, source_text, Keyword,
};
use crate::security::sddl::SddlError;
use crate::security::sid::Sid;

verus! {

/// The token at `p`.
pub open spec fn at(t: Seq<TokenView>, p: int) -> Option<TokenView> {
    if 0 <= p < t.len() {
        Some(t[p])
    } else {
        None
    }
}

/// The sign at `p`.
pub open spec fn sign(x: Sign) -> Option<TokenView> {
    Some(TokenView::Sign(x))
}

/// The SID between the parentheses after the word for SIDs.
pub open spec fn sid_of_tokens(t: Seq<TokenView>, p: int) -> Option<(LiteralView, int)> {
    if at(t, p) == sign(Sign::Open) && at(t, p + 2) == sign(Sign::Close) {
        match at(t, p + 1) {
            Some(TokenView::Word(x)) => match sid_from_field(x) {
                Ok(v) => Some((LiteralView::Sid(v), p + 3)),
                Err(_) => None,
            },
            _ => None,
        }
    } else {
        None
    }
}

/// The constant at `p`, and where it ends.
#[verifier::opaque]
pub open spec fn literal_of(t: Seq<TokenView>, p: int) -> Option<(LiteralView, int)> {
    match at(t, p) {
        Some(TokenView::Word(w)) => if keyword_of(w) == Some(Keyword::Sid) {
            sid_of_tokens(t, p + 1)
        } else if looks_numeric(w) {
            match int_of(w) {
                Some(v) => Some((LiteralView::Int(v), p + 1)),
                None => None,
            }
        } else {
            None
        },
        Some(TokenView::Str(s)) => Some((LiteralView::Str(s), p + 1)),
        Some(TokenView::Hash(w)) => match octets_of(w) {
            Some(b) => Some((LiteralView::Octet(b), p + 1)),
            None => None,
        },
        _ => None,
    }
}

/// The rest of the constants between braces, behind some.
#[verifier::opaque]
pub open spec fn list_from(t: Seq<TokenView>, p: int, acc: Seq<LiteralView>) -> Option<(Seq<LiteralView>, int)>
    decreases t.len() - p,
{
    if at(t, p) == sign(Sign::BraceClose) {
        Some((acc, p + 1))
    } else if at(t, p) == sign(Sign::Comma) {
        match literal_of(t, p + 1) {
            Some((l, q)) => if p + 1 < q <= t.len() {
                list_from(t, q, acc.push(l))
            } else {
                None
            },
            None => None,
        }
    } else {
        None
    }
}

/// The constants after an opening brace.
#[verifier::opaque]
pub open spec fn list_of(t: Seq<TokenView>, p: int) -> Option<(Seq<LiteralView>, int)> {
    if at(t, p) == sign(Sign::BraceClose) {
        Some((Seq::empty(), p + 1))
    } else {
        match literal_of(t, p) {
            Some((l, q)) => list_from(t, q, seq![l]),
            None => None,
        }
    }
}

/// The operand at `p`, and where it ends. A word that is no number and no keyword names a local
/// attribute.
#[verifier::opaque]
pub open spec fn operand_of(t: Seq<TokenView>, p: int) -> Option<(OperandView, int)> {
    match at(t, p) {
        Some(TokenView::At(w)) => match attribute_of(w) {
            Some((source, name)) => Some((OperandView::Attr(source, name), p + 1)),
            None => None,
        },
        Some(TokenView::Sign(Sign::BraceOpen)) => match list_of(t, p + 1) {
            Some((items, q)) => Some((OperandView::Composite(items), q)),
            None => None,
        },
        Some(TokenView::Word(w)) => if !looks_numeric(w) && keyword_of(w) is None {
            Some((OperandView::Attr(Source::Local, w), p + 1))
        } else {
            match literal_of(t, p) {
                Some((l, q)) => Some((OperandView::Value(l), q)),
                None => None,
            }
        },
        _ => match literal_of(t, p) {
            Some((l, q)) => Some((OperandView::Value(l), q)),
            None => None,
        },
    }
}

/// The operator that a token is, if it stands between operands.
pub open spec fn operator_of(t: Option<TokenView>) -> Option<CompareOp> {
    match t {
        Some(TokenView::Sign(Sign::Eq)) => Some(CompareOp::Eq),
        Some(TokenView::Sign(Sign::Ne)) => Some(CompareOp::Ne),
        Some(TokenView::Sign(Sign::Lt)) => Some(CompareOp::Lt),
        Some(TokenView::Sign(Sign::Le)) => Some(CompareOp::Le),
        Some(TokenView::Sign(Sign::Gt)) => Some(CompareOp::Gt),
        Some(TokenView::Sign(Sign::Ge)) => Some(CompareOp::Ge),
        Some(TokenView::Word(w)) => match keyword_of(w) {
            Some(Keyword::Compare(op)) => Some(op),
            _ => None,
        },
        _ => None,
    }
}

/// The keyword that a token is.
pub open spec fn keyword_at(t: Seq<TokenView>, p: int) -> Option<Keyword> {
    match at(t, p) {
        Some(TokenView::Word(w)) => keyword_of(w),
        _ => None,
    }
}

/// The test at `p`, and where it ends.
#[verifier::opaque]
pub open spec fn test_of(t: Seq<TokenView>, p: int) -> Option<(ConditionView, int)> {
    match keyword_at(t, p) {
        Some(Keyword::Exists) => match operand_of(t, p + 1) {
            Some((o, q)) => Some((ConditionView::Exists(o), q)),
            None => None,
        },
        Some(Keyword::NotExists) => match operand_of(t, p + 1) {
            Some((o, q)) => Some((ConditionView::NotExists(o), q)),
            None => None,
        },
        Some(Keyword::Member(op)) => match operand_of(t, p + 1) {
            Some((o, q)) => Some((ConditionView::Member { op, operand: o }, q)),
            None => None,
        },
        _ => match operand_of(t, p) {
            Some((lhs, q)) => match operator_of(at(t, q)) {
                Some(op) => match operand_of(t, q + 1) {
                    Some((rhs, r)) => Some((ConditionView::Compare { op, lhs, rhs }, r)),
                    None => None,
                },
                None => None,
            },
            None => None,
        },
    }
}

/// An expression that no `&&` or `||` joins, unless in parentheses.
pub open spec fn unary_of(t: Seq<TokenView>, p: int, d: nat) -> Option<(ConditionView, int)>
    decreases d, t.len() - p, 2int,
{
    if d == 0 {
        None
    } else if at(t, p) == sign(Sign::Bang) {
        match unary_of(t, p + 1, (d - 1) as nat) {
            Some((c, q)) => Some((ConditionView::Not(Box::new(c)), q)),
            None => None,
        }
    } else if at(t, p) == sign(Sign::Open) {
        match or_of(t, p + 1, (d - 1) as nat) {
            Some((c, q)) => if at(t, q) == sign(Sign::Close) {
                Some((c, q + 1))
            } else {
                None
            },
            None => None,
        }
    } else {
        test_of(t, p)
    }
}

/// What `&&` joins to an expression.
pub open spec fn and_rest(t: Seq<TokenView>, p: int, acc: ConditionView, d: nat) -> Option<(ConditionView, int)>
    decreases d, t.len() - p, 1int,
{
    if at(t, p) == sign(Sign::And) {
        match unary_of(t, p + 1, d) {
            Some((c, q)) => if p < q <= t.len() {
                and_rest(t, q, ConditionView::And(Box::new(acc), Box::new(c)), d)
            } else {
                None
            },
            None => None,
        }
    } else {
        Some((acc, p))
    }
}

/// An expression that no `||` joins, unless in parentheses.
pub open spec fn and_of(t: Seq<TokenView>, p: int, d: nat) -> Option<(ConditionView, int)>
    decreases d, t.len() - p, 3int,
{
    match unary_of(t, p, d) {
        Some((c, q)) => if p < q <= t.len() {
            and_rest(t, q, c, d)
        } else {
            None
        },
        None => None,
    }
}

/// What `||` joins to an expression.
pub open spec fn or_rest(t: Seq<TokenView>, p: int, acc: ConditionView, d: nat) -> Option<(ConditionView, int)>
    decreases d, t.len() - p, 1int,
{
    if at(t, p) == sign(Sign::Or) {
        match and_of(t, p + 1, d) {
            Some((c, q)) => if p < q <= t.len() {
                or_rest(t, q, ConditionView::Or(Box::new(acc), Box::new(c)), d)
            } else {
                None
            },
            None => None,
        }
    } else {
        Some((acc, p))
    }
}

/// The expression at `p`, and where it ends.
pub open spec fn or_of(t: Seq<TokenView>, p: int, d: nat) -> Option<(ConditionView, int)>
    decreases d, t.len() - p, 4int,
{
    match and_of(t, p, d) {
        Some((c, q)) => if p < q <= t.len() {
            or_rest(t, q, c, d)
        } else {
            None
        },
        None => None,
    }
}

/// How many parentheses and `!` may be open at once.
pub const MAX_NESTING: usize = 512;

/// The expression that tokens are.
pub open spec fn condition_of(t: Seq<TokenView>) -> Option<ConditionView> {
    match or_of(t, 0, MAX_NESTING as nat) {
        Some((c, q)) => if q == t.len() && height(c) <= MAX_HEIGHT {
            Some(c)
        } else {
            None
        },
        None => None,
    }
}

/// The expression that text is.
pub open spec fn condition_from_text(s: Seq<u8>) -> Option<ConditionView> {
    match tokens_from(s, 0, Seq::empty()) {
        Some(t) => condition_of(t),
        None => None,
    }
}

fn sign_here(ts: &Vec<Token>, p: usize) -> (r: Option<Sign>)
    ensures
        r == (match at(views(ts@), p as int) {
            Some(TokenView::Sign(x)) => Some(x),
            _ => None,
        }),
        r is Some ==> p < ts@.len() <= usize::MAX,
{
    assert(ts@.len() == ts.len());
    if p >= ts.len() {
        return None;
    }
    match &ts[p] {
        Token::Sign(x) => Some(*x),
        _ => None,
    }
}

fn read_sid_tokens(ts: &Vec<Token>, p: usize) -> (r: Option<(Literal, usize)>)
    requires
        p <= ts@.len(),
    ensures
        match r {
            Some((l, q)) => sid_of_tokens(views(ts@), p as int) == Some((l@, q as int)) && p < q <= ts@.len() && l.wf(),
            None => sid_of_tokens(views(ts@), p as int) is None,
        },
{
    assert(ts@.len() == ts.len());
    if ts.len() - p < 3 {
        return None;
    }
    if !matches!(sign_here(ts, p), Some(Sign::Open)) || !matches!(sign_here(ts, p + 2), Some(Sign::Close)) {
        return None;
    }
    match &ts[p + 1] {
        Token::Word(x) => match parse_sid(x.as_slice()) {
            Ok(sid) => Some((Literal::Sid(sid), p + 3)),
            Err(_) => None,
        },
        _ => None,
    }
}

fn numeric(w: &Vec<u8>) -> (r: bool)
    ensures
        r == looks_numeric(w@),
{
    w.len() > 0 && ((w[0] >= 0x30 && w[0] <= 0x39) || w[0] == 0x2d)
}

fn read_literal(ts: &Vec<Token>, p: usize) -> (r: Option<(Literal, usize)>)
    ensures
        match r {
            Some((l, q)) => literal_of(views(ts@), p as int) == Some((l@, q as int)) && p < q <= ts@.len() && l.wf(),
            None => literal_of(views(ts@), p as int) is None,
        },
{
    reveal(literal_of);
    if p >= ts.len() {
        return None;
    }
    assert(views(ts@)[p as int] == ts@[p as int]@);
    match &ts[p] {
        Token::Word(w) => if matches!(read_keyword(w.as_slice()), Some(Keyword::Sid)) {
            read_sid_tokens(ts, p + 1)
        } else if numeric(w) {
            match read_int(w.as_slice()) {
                Some(v) => Some((Literal::Int(v), p + 1)),
                None => None,
            }
        } else {
            None
        },
        Token::Str(s) => Some((Literal::Str(slice_to_vec(s.as_slice())), p + 1)),
        Token::Hash(w) => match read_octets(w.as_slice()) {
            Some(b) => Some((Literal::Octet(b), p + 1)),
            None => None,
        },
        _ => None,
    }
}

fn read_list(ts: &Vec<Token>, p: usize) -> (r: Option<(Vec<Literal>, usize)>)
    requires
        p <= ts@.len(),
    ensures
        match r {
            Some((items, q)) => {
                &&& list_of(views(ts@), p as int) == Some((literals(items@), q as int))
                &&& p < q <= ts@.len()
                &&& literals_wf(items@)
            },
            None => list_of(views(ts@), p as int) is None,
        },
{
    reveal(list_of);
    let ghost t = views(ts@);
    let mut acc: Vec<Literal> = Vec::new();
    assert(literals(acc@) =~= Seq::<LiteralView>::empty());
    if let Some(Sign::BraceClose) = sign_here(ts, p) {
        return Some((acc, p + 1));
    }
    let mut q: usize = p;
    match read_literal(ts, p) {
        Some((l, e)) => {
            let ghost one = l@;
            acc.push(l);
            assert(literals(acc@) =~= seq![one]);
            q = e;
        },
        None => return None,
    }
    loop
        invariant
            p < q <= ts@.len(),
            t == views(ts@),
            literals_wf(acc@),
            list_of(t, p as int) == list_from(t, q as int, literals(acc@)),
        decreases ts@.len() - q,
    {
        reveal(list_from);
        match sign_here(ts, q) {
            Some(Sign::BraceClose) => return Some((acc, q + 1)),
            Some(Sign::Comma) => match read_literal(ts, q + 1) {
                Some((l, e)) => {
                    let ghost before = literals(acc@);
                    let ghost one = l@;
                    acc.push(l);
                    assert(literals(acc@) =~= before.push(one));
                    q = e;
                },
                None => return None,
            },
            _ => return None,
        }
    }
}

fn read_operand(ts: &Vec<Token>, p: usize) -> (r: Option<(Operand, usize)>)
    ensures
        match r {
            Some((o, q)) => operand_of(views(ts@), p as int) == Some((o@, q as int)) && p < q <= ts@.len() && o.wf(),
            None => operand_of(views(ts@), p as int) is None,
        },
{
    reveal(operand_of);
    if p >= ts.len() {
        reveal(literal_of);
        return None;
    }
    assert(views(ts@)[p as int] == ts@[p as int]@);
    match &ts[p] {
        Token::At(w) => match read_attribute(w.as_slice()) {
            Some((source, name)) => Some((Operand::Attr(source, name), p + 1)),
            None => None,
        },
        Token::Sign(Sign::BraceOpen) => match read_list(ts, p + 1) {
            Some((items, q)) => Some((Operand::Composite(items), q)),
            None => None,
        },
        Token::Word(w) => if !numeric(w) && read_keyword(w.as_slice()).is_none() {
            Some((Operand::Attr(Source::Local, slice_to_vec(w.as_slice())), p + 1))
        } else {
            match read_literal(ts, p) {
                Some((l, q)) => Some((Operand::Value(l), q)),
                None => None,
            }
        },
        _ => match read_literal(ts, p) {
            Some((l, q)) => Some((Operand::Value(l), q)),
            None => None,
        },
    }
}

fn read_operator(ts: &Vec<Token>, p: usize) -> (r: Option<CompareOp>)
    ensures
        r == operator_of(at(views(ts@), p as int)),
        r is Some ==> p < ts@.len() <= usize::MAX,
{
    assert(ts@.len() == ts.len());
    if p >= ts.len() {
        return None;
    }
    assert(views(ts@)[p as int] == ts@[p as int]@);
    match &ts[p] {
        Token::Sign(Sign::Eq) => Some(CompareOp::Eq),
        Token::Sign(Sign::Ne) => Some(CompareOp::Ne),
        Token::Sign(Sign::Lt) => Some(CompareOp::Lt),
        Token::Sign(Sign::Le) => Some(CompareOp::Le),
        Token::Sign(Sign::Gt) => Some(CompareOp::Gt),
        Token::Sign(Sign::Ge) => Some(CompareOp::Ge),
        Token::Word(w) => match read_keyword(w.as_slice()) {
            Some(Keyword::Compare(op)) => Some(op),
            _ => None,
        },
        _ => None,
    }
}

fn keyword_here(ts: &Vec<Token>, p: usize) -> (r: Option<Keyword>)
    ensures
        r == keyword_at(views(ts@), p as int),
        r is Some ==> p < ts@.len() <= usize::MAX,
{
    assert(ts@.len() == ts.len());
    if p >= ts.len() {
        return None;
    }
    assert(views(ts@)[p as int] == ts@[p as int]@);
    match &ts[p] {
        Token::Word(w) => read_keyword(w.as_slice()),
        _ => None,
    }
}

fn read_test(ts: &Vec<Token>, p: usize) -> (r: Option<(Condition, usize)>)
    ensures
        match r {
            Some((c, q)) => test_of(views(ts@), p as int) == Some((c@, q as int)) && p < q <= ts@.len() && condition_wf(c),
            None => test_of(views(ts@), p as int) is None,
        },
{
    reveal(test_of);
    match keyword_here(ts, p) {
        Some(Keyword::Exists) => match read_operand(ts, p + 1) {
            Some((o, q)) => Some((Condition::Exists(o), q)),
            None => None,
        },
        Some(Keyword::NotExists) => match read_operand(ts, p + 1) {
            Some((o, q)) => Some((Condition::NotExists(o), q)),
            None => None,
        },
        Some(Keyword::Member(op)) => match read_operand(ts, p + 1) {
            Some((o, q)) => Some((Condition::Member { op, operand: o }, q)),
            None => None,
        },
        _ => match read_operand(ts, p) {
            Some((lhs, q)) => match read_operator(ts, q) {
                Some(op) => match read_operand(ts, q + 1) {
                    Some((rhs, r)) => Some((Condition::Compare { op, lhs, rhs }, r)),
                    None => None,
                },
                None => None,
            },
            None => None,
        },
    }
}

fn read_unary(ts: &Vec<Token>, p: usize, d: usize) -> (r: Option<(Condition, usize)>)
    ensures
        match r {
            Some((c, q)) => unary_of(views(ts@), p as int, d as nat) == Some((c@, q as int)) && p < q <= ts@.len() && condition_wf(c),
            None => unary_of(views(ts@), p as int, d as nat) is None,
        },
    decreases d, ts@.len() - p, 2int,
{
    if d == 0 {
        return None;
    }
    match sign_here(ts, p) {
        Some(Sign::Bang) => match read_unary(ts, p + 1, d - 1) {
            Some((c, q)) => Some((Condition::Not(Box::new(c)), q)),
            None => None,
        },
        Some(Sign::Open) => match read_or(ts, p + 1, d - 1) {
            Some((c, q)) => match sign_here(ts, q) {
                Some(Sign::Close) => Some((c, q + 1)),
                _ => None,
            },
            None => None,
        },
        _ => read_test(ts, p),
    }
}

fn read_and(ts: &Vec<Token>, p: usize, d: usize) -> (r: Option<(Condition, usize)>)
    ensures
        match r {
            Some((c, q)) => and_of(views(ts@), p as int, d as nat) == Some((c@, q as int)) && p < q <= ts@.len() && condition_wf(c),
            None => and_of(views(ts@), p as int, d as nat) is None,
        },
    decreases d, ts@.len() - p, 3int,
{
    let ghost t = views(ts@);
    let (first, start) = match read_unary(ts, p, d) {
        Some(x) => x,
        None => return None,
    };
    let mut c: Condition = first;
    let mut q: usize = start;
    while matches!(sign_here(ts, q), Some(Sign::And))
        invariant
            p < q <= ts@.len(),
            t == views(ts@),
            condition_wf(c),
            and_of(t, p as int, d as nat) == and_rest(t, q as int, c@, d as nat),
        decreases ts@.len() - q,
    {
        match read_unary(ts, q + 1, d) {
            Some((x, e)) => {
                c = c.and(x);
                q = e;
            },
            None => return None,
        }
    }
    Some((c, q))
}

fn read_or(ts: &Vec<Token>, p: usize, d: usize) -> (r: Option<(Condition, usize)>)
    ensures
        match r {
            Some((c, q)) => or_of(views(ts@), p as int, d as nat) == Some((c@, q as int)) && p < q <= ts@.len() && condition_wf(c),
            None => or_of(views(ts@), p as int, d as nat) is None,
        },
    decreases d, ts@.len() - p, 4int,
{
    let ghost t = views(ts@);
    let (first, start) = match read_and(ts, p, d) {
        Some(x) => x,
        None => return None,
    };
    let mut c: Condition = first;
    let mut q: usize = start;
    while matches!(sign_here(ts, q), Some(Sign::Or))
        invariant
            p < q <= ts@.len(),
            t == views(ts@),
            condition_wf(c),
            or_of(t, p as int, d as nat) == or_rest(t, q as int, c@, d as nat),
        decreases ts@.len() - q,
    {
        match read_and(ts, q + 1, d) {
            Some((x, e)) => {
                c = c.or(x);
                q = e;
            },
            None => return None,
        }
    }
    Some((c, q))
}

/// Reads a conditional expression. Every SID that it names has the one revision there is.
pub fn parse(s: &[u8]) -> (r: Option<Condition>)
    ensures
        match r {
            Some(c) => condition_from_text(s@) == Some(c@) && condition_wf(c),
            None => condition_from_text(s@) is None,
        },
{
    let ts: Vec<Token> = match tokenize(s) {
        Some(ts) => ts,
        None => return None,
    };
    match read_or(&ts, 0, MAX_NESTING) {
        Some((c, q)) => if q == ts.len() && c.within(MAX_HEIGHT) {
            Some(c)
        } else {
            None
        },
        None => None,
    }
}

/// The tokens of a constant.
pub open spec fn literal_tokens(l: LiteralView) -> Seq<TokenView> {
    match l {
        LiteralView::Int(v) => seq![TokenView::Word(int_text(v))],
        LiteralView::Str(s) => seq![TokenView::Str(s)],
        LiteralView::Octet(b) => seq![TokenView::Hash(octet_text(b))],
        LiteralView::Sid(v) => seq![
            TokenView::Word(keyword_text(Keyword::Sid)),
            TokenView::Sign(Sign::Open),
            TokenView::Word(sid_field(v)),
            TokenView::Sign(Sign::Close),
        ],
    }
}

/// The tokens of constants with commas between them.
pub open spec fn literals_tokens(items: Seq<LiteralView>) -> Seq<TokenView>
    decreases items.len(),
{
    if items.len() == 0 {
        Seq::empty()
    } else if items.len() == 1 {
        literal_tokens(items[0])
    } else {
        literals_tokens(items.drop_last()) + seq![TokenView::Sign(Sign::Comma)] + literal_tokens(items.last())
    }
}

/// The tokens of an operand.
pub open spec fn operand_tokens(o: OperandView) -> Seq<TokenView> {
    match o {
        OperandView::Attr(source, name) => seq![TokenView::At(source_text(source) + name)],
        OperandView::Value(l) => literal_tokens(l),
        OperandView::Composite(items) => seq![TokenView::Sign(Sign::BraceOpen)] + literals_tokens(items) + seq![
            TokenView::Sign(Sign::BraceClose),
        ],
    }
}

/// The token of an operator between operands.
pub open spec fn operator_token(op: CompareOp) -> TokenView {
    match op {
        CompareOp::Eq => TokenView::Sign(Sign::Eq),
        CompareOp::Ne => TokenView::Sign(Sign::Ne),
        CompareOp::Lt => TokenView::Sign(Sign::Lt),
        CompareOp::Le => TokenView::Sign(Sign::Le),
        CompareOp::Gt => TokenView::Sign(Sign::Gt),
        CompareOp::Ge => TokenView::Sign(Sign::Ge),
        _ => TokenView::Word(keyword_text(Keyword::Compare(op))),
    }
}

/// Two expressions are joined.
pub open spec fn is_joined(c: ConditionView) -> bool {
    c is And || c is Or
}

/// Tokens, in parentheses or not.
pub open spec fn enclosed(ts: Seq<TokenView>, yes: bool) -> Seq<TokenView> {
    if yes {
        seq![TokenView::Sign(Sign::Open)] + ts + seq![TokenView::Sign(Sign::Close)]
    } else {
        ts
    }
}

/// The tokens of an expression.
pub open spec fn condition_tokens(c: ConditionView) -> Seq<TokenView>
    decreases c,
{
    match c {
        ConditionView::Compare { op, lhs, rhs } => operand_tokens(lhs) + seq![operator_token(op)] + operand_tokens(rhs),
        ConditionView::Member { op, operand } => seq![TokenView::Word(keyword_text(Keyword::Member(op)))]
            + operand_tokens(operand),
        ConditionView::Exists(o) => seq![TokenView::Word(keyword_text(Keyword::Exists))] + operand_tokens(o),
        ConditionView::NotExists(o) => seq![TokenView::Word(keyword_text(Keyword::NotExists))] + operand_tokens(o),
        ConditionView::And(l, r) => enclosed(condition_tokens(*l), *l is Or) + seq![TokenView::Sign(Sign::And)]
            + enclosed(condition_tokens(*r), is_joined(*r)),
        ConditionView::Or(l, r) => condition_tokens(*l) + seq![TokenView::Sign(Sign::Or)] + enclosed(
            condition_tokens(*r),
            *r is Or,
        ),
        ConditionView::Not(x) => seq![TokenView::Sign(Sign::Bang)] + enclosed(condition_tokens(*x), is_joined(*x)),
    }
}

/// The text of an expression.
pub open spec fn condition_text(c: ConditionView) -> Seq<u8> {
    render(condition_tokens(c))
}

/// A constant that its text tells.
pub open spec fn literal_printable(l: LiteralView) -> bool {
    match l {
        LiteralView::Str(s) => quotable(s),
        LiteralView::Sid(v) => v.wf(),
        _ => true,
    }
}

/// An operand that its text tells.
pub open spec fn operand_printable(o: OperandView) -> bool {
    match o {
        OperandView::Attr(source, name) => name.len() > 0 && all_name(name),
        OperandView::Value(l) => literal_printable(l),
        OperandView::Composite(items) => literals_printable(items),
    }
}

/// Constants that their text tells.
pub open spec fn literals_printable(items: Seq<LiteralView>) -> bool {
    forall|i: int| 0 <= i < items.len() ==> literal_printable(#[trigger] items[i])
}

/// An expression that its text tells: the names of attributes are words, and no text holds a
/// quotation mark.
pub open spec fn printable(c: ConditionView) -> bool
    decreases c,
{
    match c {
        ConditionView::Compare { op, lhs, rhs } => operand_printable(lhs) && operand_printable(rhs),
        ConditionView::Member { op, operand } => operand_printable(operand),
        ConditionView::Exists(o) => operand_printable(o),
        ConditionView::NotExists(o) => operand_printable(o),
        ConditionView::And(l, r) => printable(*l) && printable(*r),
        ConditionView::Or(l, r) => printable(*l) && printable(*r),
        ConditionView::Not(x) => printable(*x),
    }
}

fn put_token(out: &mut Vec<Token>, t: Token)
    ensures
        views(final(out)@) == views(old(out)@) + seq![t@],
{
    out.push(t);
    assert(views(out@) =~= views(old(out)@) + seq![t@]);
}

fn put_literal(out: &mut Vec<Token>, l: &Literal)
    requires
        l@ matches LiteralView::Sid(v) ==> v.wf(),
    ensures
        views(final(out)@) == views(old(out)@) + literal_tokens(l@),
{
    let ghost before = views(out@);
    match l {
        Literal::Int(v) => put_token(out, Token::Word(put_int(*v))),
        Literal::Str(s) => put_token(out, Token::Str(slice_to_vec(s.as_slice()))),
        Literal::Octet(b) => put_token(out, Token::Hash(put_octets(b.as_slice()))),
        Literal::Sid(sid) => {
            put_token(out, Token::Word(put_keyword(Keyword::Sid)));
            put_token(out, Token::Sign(Sign::Open));
            let mut word: Vec<u8> = Vec::new();
            let own: Sid = Sid { revision: 1, authority: sid.authority, sub_authorities: sid.copy().sub_authorities };
            put_sid(&mut word, &own);
            assert(word@ =~= sid_field(sid@));
            put_token(out, Token::Word(word));
            put_token(out, Token::Sign(Sign::Close));
            assert(views(out@) =~= before + literal_tokens(l@));
        },
    }
}

fn put_operand(out: &mut Vec<Token>, o: &Operand)
    requires
        operand_printable(o@),
    ensures
        views(final(out)@) == views(old(out)@) + operand_tokens(o@),
{
    let ghost before = views(out@);
    match o {
        Operand::Attr(source, name) => {
            let mut word: Vec<u8> = put_source(*source);
            put_slice(&mut word, name.as_slice());
            put_token(out, Token::At(word));
        },
        Operand::Value(l) => put_literal(out, l),
        Operand::Composite(items) => {
            put_token(out, Token::Sign(Sign::BraceOpen));
            let ghost opened = views(out@);
            let ghost all = literals(items@);
            let mut i: usize = 0;
            assert(all.take(0) =~= Seq::<LiteralView>::empty());
            assert(opened + literals_tokens(all.take(0)) =~= opened);
            assert(o@ == OperandView::Composite(all));
            while i < items.len()
                invariant
                    i <= items@.len(),
                    all == literals(items@),
                    literals_printable(all),
                    views(out@) == opened + literals_tokens(all.take(i as int)),
                decreases items@.len() - i,
            {
                let ghost done = literals_tokens(all.take(i as int));
                assert(all[i as int] == items@[i as int]@);
                assert(all.take(i + 1).drop_last() =~= all.take(i as int));
                if i > 0 {
                    put_token(out, Token::Sign(Sign::Comma));
                }
                put_literal(out, &items[i]);
                assert(views(out@) =~= opened + literals_tokens(all.take(i + 1)));
                i = i + 1;
            }
            assert(all.take(i as int) =~= all);
            put_token(out, Token::Sign(Sign::BraceClose));
            assert(views(out@) =~= before + operand_tokens(o@));
        },
    }
}

fn put_operator(out: &mut Vec<Token>, op: CompareOp)
    ensures
        views(final(out)@) == views(old(out)@) + seq![operator_token(op)],
{
    let t: Token = match op {
        CompareOp::Eq => Token::Sign(Sign::Eq),
        CompareOp::Ne => Token::Sign(Sign::Ne),
        CompareOp::Lt => Token::Sign(Sign::Lt),
        CompareOp::Le => Token::Sign(Sign::Le),
        CompareOp::Gt => Token::Sign(Sign::Gt),
        CompareOp::Ge => Token::Sign(Sign::Ge),
        _ => Token::Word(put_keyword(Keyword::Compare(op))),
    };
    put_token(out, t);
}

fn put_enclosed(out: &mut Vec<Token>, c: &Condition, yes: bool)
    requires
        printable(c@),
    ensures
        views(final(out)@) == views(old(out)@) + enclosed(condition_tokens(c@), yes),
    decreases c, 1int,
{
    if yes {
        put_token(out, Token::Sign(Sign::Open));
        put_condition(out, c);
        put_token(out, Token::Sign(Sign::Close));
        assert(views(out@) =~= views(old(out)@) + enclosed(condition_tokens(c@), yes));
    } else {
        put_condition(out, c);
    }
}

fn put_condition(out: &mut Vec<Token>, c: &Condition)
    requires
        printable(c@),
    ensures
        views(final(out)@) == views(old(out)@) + condition_tokens(c@),
    decreases c, 0int,
{
    match c {
        Condition::Compare { op, lhs, rhs } => {
            put_operand(out, lhs);
            put_operator(out, *op);
            put_operand(out, rhs);
        },
        Condition::Member { op, operand } => {
            put_token(out, Token::Word(put_keyword(Keyword::Member(*op))));
            put_operand(out, operand);
        },
        Condition::Exists(o) => {
            put_token(out, Token::Word(put_keyword(Keyword::Exists)));
            put_operand(out, o);
        },
        Condition::NotExists(o) => {
            put_token(out, Token::Word(put_keyword(Keyword::NotExists)));
            put_operand(out, o);
        },
        Condition::And(l, r) => {
            put_enclosed(out, l, matches!(**l, Condition::Or(_, _)));
            put_token(out, Token::Sign(Sign::And));
            put_enclosed(out, r, matches!(**r, Condition::And(_, _) | Condition::Or(_, _)));
        },
        Condition::Or(l, r) => {
            put_enclosed(out, l, false);
            put_token(out, Token::Sign(Sign::Or));
            put_enclosed(out, r, matches!(**r, Condition::Or(_, _)));
        },
        Condition::Not(x) => {
            put_token(out, Token::Sign(Sign::Bang));
            put_enclosed(out, x, matches!(**x, Condition::And(_, _) | Condition::Or(_, _)));
        },
    }
    assert(views(out@) =~= views(old(out)@) + condition_tokens(c@));
}

fn is_all_name(s: &[u8]) -> (r: bool)
    ensures
        r == all_name(s@),
{
    let mut i: usize = 0;
    while i < s.len()
        invariant
            i <= s@.len(),
            forall|k: int| 0 <= k < i ==> name_byte(#[trigger] s@[k]),
        decreases s@.len() - i,
    {
        if !is_name_byte(s[i]) {
            return false;
        }
        i = i + 1;
    }
    true
}

fn is_literal_printable(l: &Literal) -> (r: bool)
    ensures
        r == literal_printable(l@),
{
    match l {
        Literal::Str(s) => is_quotable(s.as_slice()),
        Literal::Sid(sid) => sid.is_wf(),
        _ => true,
    }
}

fn is_operand_printable(o: &Operand) -> (r: bool)
    ensures
        r == operand_printable(o@),
{
    match o {
        Operand::Attr(_, name) => name.len() > 0 && is_all_name(name.as_slice()),
        Operand::Value(l) => is_literal_printable(l),
        Operand::Composite(items) => {
            let mut i: usize = 0;
            let ghost all = literals(items@);
            while i < items.len()
                invariant
                    i <= items@.len(),
                    all == literals(items@),
                    o@ == OperandView::Composite(all),
                    forall|k: int| 0 <= k < i ==> literal_printable(#[trigger] all[k]),
                decreases items@.len() - i,
            {
                assert(all[i as int] == items@[i as int]@);
                if !is_literal_printable(&items[i]) {
                    assert(!literal_printable(all[i as int]));
                    return false;
                }
                i = i + 1;
            }
            true
        },
    }
}

/// Whether the text of an expression tells it.
pub fn is_printable(c: &Condition) -> (r: bool)
    ensures
        r == printable(c@),
    decreases c,
{
    match c {
        Condition::Compare { op, lhs, rhs } => is_operand_printable(lhs) && is_operand_printable(rhs),
        Condition::Member { op, operand } => is_operand_printable(operand),
        Condition::Exists(o) => is_operand_printable(o),
        Condition::NotExists(o) => is_operand_printable(o),
        Condition::And(l, r) => is_printable(l) && is_printable(r),
        Condition::Or(l, r) => is_printable(l) && is_printable(r),
        Condition::Not(x) => is_printable(x),
    }
}

/// Writes a conditional expression; nothing if no text tells it.
pub fn format(c: &Condition) -> (r: Option<Vec<u8>>)
    ensures
        match r {
            Some(out) => printable(c@) && out@ == condition_text(c@),
            None => !printable(c@),
        },
{
    if !is_printable(c) {
        return None;
    }
    let mut ts: Vec<Token> = Vec::new();
    put_condition(&mut ts, c);
    assert(views(ts@) =~= condition_tokens(c@));
    Some(render_tokens(&ts))
}

/// The bytecode of an expression in text.
pub open spec fn artx_of_text(s: Seq<u8>) -> Option<Seq<u8>> {
    match condition_from_text(s) {
        Some(c) => if encodable(c) {
            Some(artx(c))
        } else {
            None
        },
        None => None,
    }
}

/// The text of an expression in bytecode.
pub open spec fn text_of_artx(s: Seq<u8>) -> Option<Seq<u8>> {
    match from_artx(s) {
        Some(c) => if printable(c) {
            Some(condition_text(c))
        } else {
            None
        },
        None => None,
    }
}

/// From an expression's text to its bytecode.
pub fn parse_condition_to_artx(s: &[u8]) -> (r: Result<Vec<u8>, SddlError>)
    ensures
        match r {
            Ok(out) => artx_of_text(s@) == Some(out@),
            Err(e) => e == SddlError::BadCondition && artx_of_text(s@) is None,
        },
{
    match parse(s) {
        Some(c) => match c.encode() {
            Some(out) => Ok(out),
            None => Err(SddlError::BadCondition),
        },
        None => Err(SddlError::BadCondition),
    }
}

/// From an expression's bytecode to its text.
pub fn format_condition_from_artx(s: &[u8]) -> (r: Result<Vec<u8>, SddlError>)
    ensures
        match r {
            Ok(out) => text_of_artx(s@) == Some(out@),
            Err(e) => e == SddlError::BadCondition && text_of_artx(s@) is None,
        },
{
    match decode_artx(s) {
        Some(c) => match format(&c) {
            Some(out) => Ok(out),
            None => Err(SddlError::BadCondition),
        },
        None => Err(SddlError::BadCondition),
    }
}

} // verus!
