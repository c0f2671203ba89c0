//! The words and signs of conditional expressions.

use vstd::prelude::*;
use vstd::slice::{slice_subrange, slice_to_vec};
use crate::bytes::put_slice;
use crate::security::sddl::condition::stands;
use crate::security::sddl::names::is_space;
use crate::security::sddl::scan::{
    lemma_run_append, lemma_run_plain, lemma_run_quoted, lemma_run_single, plain, run, step, Place,
};

verus! {

/// A sign.
#[derive(Clone, Copy, Debug, PartialEq, Eq, Structural)]
pub enum Sign {
    Open,
    Close,
    BraceOpen,
    BraceClose,
    Comma,
    Bang,
    Eq,
    Ne,
    Lt,
    Le,
    Gt,
    Ge,
    And,
    Or,
}

/// A word, a word behind `@` or `#`, quoted text, or a sign.
#[derive(Debug, PartialEq, Eq)]
pub enum Token {
    Word(Vec<u8>),
    At(Vec<u8>),
    Hash(Vec<u8>),
    Str(Vec<u8>),
    Sign(Sign),
}

/// What a token says.
#[verifier::ext_equal]
pub enum TokenView {
    Word(Seq<u8>),
    At(Seq<u8>),
    Hash(Seq<u8>),
    Str(Seq<u8>),
    Sign(Sign),
}

impl View for Token {
    type V = TokenView;

    open spec fn view(&self) -> TokenView {
        match *self {
            Token::Word(w) => TokenView::Word(w@),
            Token::At(w) => TokenView::At(w@),
            Token::Hash(w) => TokenView::Hash(w@),
            Token::Str(w) => TokenView::Str(w@),
            Token::Sign(x) => TokenView::Sign(x),
        }
    }
}

/// What tokens say.
pub open spec fn views(ts: Seq<Token>) -> Seq<TokenView> {
    Seq::new(ts.len(), |i: int| ts[i]@)
}

/// A byte of a word: a letter, a digit, one of `_ - . : /`, or part of a character that is not
/// ASCII.
pub open spec fn name_byte(c: u8) -> bool {
    0x30 <= c <= 0x39 || 0x41 <= c <= 0x5a || 0x61 <= c <= 0x7a || c == 0x5f || c == 0x2d || c == 0x2e || c == 0x3a || c
        == 0x2f || c >= 0x80
}

/// Text made of the bytes of words.
pub open spec fn all_name(s: Seq<u8>) -> bool {
    forall|i: int| 0 <= i < s.len() ==> name_byte(#[trigger] s[i])
}

/// Text without a quotation mark.
pub open spec fn quotable(s: Seq<u8>) -> bool {
    forall|i: int| 0 <= i < s.len() ==> #[trigger] s[i] != 0x22
}

/// Where the word at `p` ends.
pub open spec fn name_end(s: Seq<u8>, p: int) -> int
    decreases s.len() - p,
{
    if p < s.len() && name_byte(s[p]) {
        name_end(s, p + 1)
    } else {
        p
    }
}

/// Where the next quotation mark is, or the end.
pub open spec fn quote_end(s: Seq<u8>, p: int) -> int
    decreases s.len() - p,
{
    if p < s.len() && s[p] != 0x22 {
        quote_end(s, p + 1)
    } else {
        p
    }
}

pub open spec fn sign_text(x: Sign) -> Seq<u8> {
    match x {
        Sign::Open => seq![0x28u8],
        Sign::Close => seq![0x29u8],
        Sign::BraceOpen => seq![0x7bu8],
        Sign::BraceClose => seq![0x7du8],
        Sign::Comma => seq![0x2cu8],
        Sign::Bang => seq![0x21u8],
        Sign::Eq => seq![0x3du8, 0x3du8],
        Sign::Ne => seq![0x21u8, 0x3du8],
        Sign::Lt => seq![0x3cu8],
        Sign::Le => seq![0x3cu8, 0x3du8],
        Sign::Gt => seq![0x3eu8],
        Sign::Ge => seq![0x3eu8, 0x3du8],
        Sign::And => seq![0x26u8, 0x26u8],
        Sign::Or => seq![0x7cu8, 0x7cu8],
    }
}

/// The sign at `p`: the longest one.
pub open spec fn sign_at(s: Seq<u8>, p: int) -> Option<Sign> {
    let a = s[p];
    let b = if p + 1 < s.len() {
        s[p + 1]
    } else {
        0u8
    };
    if a == 0x28 {
        Some(Sign::Open)
    } else if a == 0x29 {
        Some(Sign::Close)
    } else if a == 0x7b {
        Some(Sign::BraceOpen)
    } else if a == 0x7d {
        Some(Sign::BraceClose)
    } else if a == 0x2c {
        Some(Sign::Comma)
    } else if a == 0x21 {
        if b == 0x3d {
            Some(Sign::Ne)
        } else {
            Some(Sign::Bang)
        }
    } else if a == 0x3c {
        if b == 0x3d {
            Some(Sign::Le)
        } else {
            Some(Sign::Lt)
        }
    } else if a == 0x3e {
        if b == 0x3d {
            Some(Sign::Ge)
        } else {
            Some(Sign::Gt)
        }
    } else if a == 0x3d && b == 0x3d {
        Some(Sign::Eq)
    } else if a == 0x26 && b == 0x26 {
        Some(Sign::And)
    } else if a == 0x7c && b == 0x7c {
        Some(Sign::Or)
    } else {
        None
    }
}

/// The token at `p`, and where it ends.
pub open spec fn token_at(s: Seq<u8>, p: int) -> Option<(TokenView, int)> {
    if name_byte(s[p]) {
        let q = name_end(s, p);
        Some((TokenView::Word(s.subrange(p, q)), q))
    } else if s[p] == 0x40 {
        let q = name_end(s, p + 1);
        Some((TokenView::At(s.subrange(p + 1, q)), q))
    } else if s[p] == 0x23 {
        let q = name_end(s, p + 1);
        Some((TokenView::Hash(s.subrange(p + 1, q)), q))
    } else if s[p] == 0x22 {
        let q = quote_end(s, p + 1);
        if q < s.len() {
            Some((TokenView::Str(s.subrange(p + 1, q)), q + 1))
        } else {
            None
        }
    } else {
        match sign_at(s, p) {
            Some(x) => Some((TokenView::Sign(x), p + sign_text(x).len())),
            None => None,
        }
    }
}

/// The tokens from `p` on, behind some.
pub open spec fn tokens_from(s: Seq<u8>, p: int, acc: Seq<TokenView>) -> Option<Seq<TokenView>>
    decreases s.len() - p,
{
    if p >= s.len() {
        Some(acc)
    } else if is_space(s[p]) {
        tokens_from(s, p + 1, acc)
    } else {
        match token_at(s, p) {
            Some((t, q)) => if p < q <= s.len() {
                tokens_from(s, q, acc.push(t))
            } else {
                None
            },
            None => None,
        }
    }
}

/// The text of a token.
pub open spec fn token_text(t: TokenView) -> Seq<u8> {
    match t {
        TokenView::Word(w) => w,
        TokenView::At(w) => seq![0x40u8] + w,
        TokenView::Hash(w) => seq![0x23u8] + w,
        TokenView::Str(w) => seq![0x22u8] + w + seq![0x22u8],
        TokenView::Sign(x) => sign_text(x),
    }
}

/// A token that can be told from its text.
pub open spec fn token_valid(t: TokenView) -> bool {
    match t {
        TokenView::Word(w) => w.len() > 0 && all_name(w),
        TokenView::At(w) => all_name(w),
        TokenView::Hash(w) => all_name(w),
        TokenView::Str(w) => quotable(w),
        TokenView::Sign(x) => true,
    }
}

/// The word before a SID in parentheses.
pub open spec fn sid_word() -> Seq<u8> {
    seq![0x53u8, 0x49u8, 0x44u8]
}

/// No space stands between two tokens.
pub open spec fn glued(a: TokenView, b: TokenView) -> bool {
    ||| a == TokenView::Sign(Sign::Open)
    ||| a == TokenView::Sign(Sign::BraceOpen)
    ||| b == TokenView::Sign(Sign::Close)
    ||| b == TokenView::Sign(Sign::BraceClose)
    ||| b == TokenView::Sign(Sign::Comma)
    ||| a == TokenView::Word(sid_word()) && b == TokenView::Sign(Sign::Open)
    ||| a == TokenView::Sign(Sign::Bang) && (!(b is Sign) || b == TokenView::Sign(Sign::Open) || b == TokenView::Sign(
        Sign::BraceOpen,
    ) || b == TokenView::Sign(Sign::Bang))
}

/// What stands between two tokens.
pub open spec fn gap(a: TokenView, b: TokenView) -> Seq<u8> {
    if glued(a, b) {
        Seq::empty()
    } else {
        seq![0x20u8]
    }
}

/// The text of tokens.
pub open spec fn render(ts: Seq<TokenView>) -> Seq<u8>
    decreases ts.len(),
{
    if ts.len() == 0 {
        Seq::empty()
    } else if ts.len() == 1 {
        token_text(ts[0])
    } else {
        render(ts.drop_last()) + gap(ts[ts.len() - 2], ts.last()) + token_text(ts.last())
    }
}

pub fn is_name_byte(c: u8) -> (r: bool)
    ensures
        r == name_byte(c),
{
    (c >= 0x30 && c <= 0x39) || (c >= 0x41 && c <= 0x5a) || (c >= 0x61 && c <= 0x7a) || c == 0x5f || c == 0x2d || c
        == 0x2e || c == 0x3a || c == 0x2f || c >= 0x80
}

/// Whether text has no quotation mark.
pub fn is_quotable(s: &[u8]) -> (r: bool)
    ensures
        r == quotable(s@),
{
    let mut i: usize = 0;
    while i < s.len()
        invariant
            i <= s@.len(),
            forall|k: int| 0 <= k < i ==> #[trigger] s@[k] != 0x22,
        decreases s@.len() - i,
    {
        if s[i] == 0x22 {
            return false;
        }
        i = i + 1;
    }
    true
}

fn find_name_end(s: &[u8], p: usize) -> (q: usize)
    requires
        p <= s@.len(),
    ensures
        q == name_end(s@, p as int),
        p <= q <= s@.len(),
{
    let mut q: usize = p;
    while q < s.len() && is_name_byte(s[q])
        invariant
            p <= q <= s@.len(),
            name_end(s@, p as int) == name_end(s@, q as int),
        decreases s@.len() - q,
    {
        q = q + 1;
    }
    q
}

fn find_quote(s: &[u8], p: usize) -> (q: usize)
    requires
        p <= s@.len(),
    ensures
        q == quote_end(s@, p as int),
        p <= q <= s@.len(),
{
    let mut q: usize = p;
    while q < s.len() && s[q] != 0x22
        invariant
            p <= q <= s@.len(),
            quote_end(s@, p as int) == quote_end(s@, q as int),
        decreases s@.len() - q,
    {
        q = q + 1;
    }
    q
}

fn read_sign(s: &[u8], p: usize) -> (r: Option<Sign>)
    requires
        p < s@.len(),
    ensures
        r == sign_at(s@, p as int),
        r matches Some(x) ==> p + sign_text(x).len() <= s@.len(),
{
    let a: u8 = s[p];
    let b: u8 = if s.len() - p > 1 {
        s[p + 1]
    } else {
        0
    };
    match a {
        0x28 => Some(Sign::Open),
        0x29 => Some(Sign::Close),
        0x7b => Some(Sign::BraceOpen),
        0x7d => Some(Sign::BraceClose),
        0x2c => Some(Sign::Comma),
        0x21 => if b == 0x3d {
            Some(Sign::Ne)
        } else {
            Some(Sign::Bang)
        },
        0x3c => if b == 0x3d {
            Some(Sign::Le)
        } else {
            Some(Sign::Lt)
        },
        0x3e => if b == 0x3d {
            Some(Sign::Ge)
        } else {
            Some(Sign::Gt)
        },
        0x3d => if b == 0x3d {
            Some(Sign::Eq)
        } else {
            None
        },
        0x26 => if b == 0x26 {
            Some(Sign::And)
        } else {
            None
        },
        0x7c => if b == 0x7c {
            Some(Sign::Or)
        } else {
            None
        },
        _ => None,
    }
}

fn sign_len(x: Sign) -> (n: usize)
    ensures
        n == sign_text(x).len(),
{
    match x {
        Sign::Eq | Sign::Ne | Sign::Le | Sign::Ge | Sign::And | Sign::Or => 2,
        _ => 1,
    }
}

fn read_token(s: &[u8], p: usize) -> (r: Option<(Token, usize)>)
    requires
        p < s@.len(),
    ensures
        match r {
            Some((t, q)) => token_at(s@, p as int) == Some((t@, q as int)) && p < q <= s@.len(),
            None => token_at(s@, p as int) is None,
        },
{
    let c: u8 = s[p];
    if is_name_byte(c) {
        let q: usize = find_name_end(s, p + 1);
        assert(name_end(s@, p as int) == q);
        Some((Token::Word(slice_to_vec(slice_subrange(s, p, q))), q))
    } else if c == 0x40 {
        let q: usize = find_name_end(s, p + 1);
        Some((Token::At(slice_to_vec(slice_subrange(s, p + 1, q))), q))
    } else if c == 0x23 {
        let q: usize = find_name_end(s, p + 1);
        Some((Token::Hash(slice_to_vec(slice_subrange(s, p + 1, q))), q))
    } else if c == 0x22 {
        let q: usize = find_quote(s, p + 1);
        if q < s.len() {
            Some((Token::Str(slice_to_vec(slice_subrange(s, p + 1, q))), q + 1))
        } else {
            None
        }
    } else {
        match read_sign(s, p) {
            Some(x) => Some((Token::Sign(x), p + sign_len(x))),
            None => None,
        }
    }
}

/// Takes text apart into tokens.
pub fn tokenize(s: &[u8]) -> (r: Option<Vec<Token>>)
    ensures
        match r {
            Some(ts) => tokens_from(s@, 0, Seq::empty()) == Some(views(ts@)),
            None => tokens_from(s@, 0, Seq::empty()) is None,
        },
{
    let mut ts: Vec<Token> = Vec::new();
    let mut p: usize = 0;
    assert(views(ts@) =~= Seq::<TokenView>::empty());
    while p < s.len()
        invariant
            p <= s@.len(),
            s@.len() == s.len(),
            tokens_from(s@, 0, Seq::empty()) == tokens_from(s@, p as int, views(ts@)),
        decreases s@.len() - p,
    {
        let c: u8 = s[p];
        if c == 0x20 || (c >= 0x09 && c <= 0x0d) {
            p = p + 1;
        } else {
            match read_token(s, p) {
                Some((t, q)) => {
                    let ghost before = views(ts@);
                    let ghost one = t@;
                    ts.push(t);
                    assert(views(ts@) =~= before.push(one));
                    p = q;
                },
                None => return None,
            }
        }
    }
    Some(ts)
}

fn put_sign(out: &mut Vec<u8>, x: Sign)
    ensures
        final(out)@ == old(out)@ + sign_text(x),
{
    match x {
        Sign::Open => out.push(0x28),
        Sign::Close => out.push(0x29),
        Sign::BraceOpen => out.push(0x7b),
        Sign::BraceClose => out.push(0x7d),
        Sign::Comma => out.push(0x2c),
        Sign::Bang => out.push(0x21),
        Sign::Eq => {
            out.push(0x3d);
            out.push(0x3d);
        },
        Sign::Ne => {
            out.push(0x21);
            out.push(0x3d);
        },
        Sign::Lt => out.push(0x3c),
        Sign::Le => {
            out.push(0x3c);
            out.push(0x3d);
        },
        Sign::Gt => out.push(0x3e),
        Sign::Ge => {
            out.push(0x3e);
            out.push(0x3d);
        },
        Sign::And => {
            out.push(0x26);
            out.push(0x26);
        },
        Sign::Or => {
            out.push(0x7c);
            out.push(0x7c);
        },
    }
    assert(out@ =~= old(out)@ + sign_text(x));
}

fn put_token(out: &mut Vec<u8>, t: &Token)
    ensures
        final(out)@ == old(out)@ + token_text(t@),
{
    match t {
        Token::Word(w) => put_slice(out, w.as_slice()),
        Token::At(w) => {
            out.push(0x40);
            put_slice(out, w.as_slice());
        },
        Token::Hash(w) => {
            out.push(0x23);
            put_slice(out, w.as_slice());
        },
        Token::Str(w) => {
            out.push(0x22);
            put_slice(out, w.as_slice());
            out.push(0x22);
        },
        Token::Sign(x) => put_sign(out, *x),
    }
    assert(out@ =~= old(out)@ + token_text(t@));
}

fn is_sid_word(w: &Vec<u8>) -> (r: bool)
    ensures
        r == (w@ == sid_word()),
{
    let r: bool = w.len() == 3 && w[0] == 0x53 && w[1] == 0x49 && w[2] == 0x44;
    proof {
        if r {
            assert(w@ =~= sid_word());
        }
    }
    r
}

fn is_glued(a: &Token, b: &Token) -> (r: bool)
    ensures
        r == glued(a@, b@),
{
    match b {
        Token::Sign(Sign::Close) | Token::Sign(Sign::BraceClose) | Token::Sign(Sign::Comma) => return true,
        _ => {},
    }
    match a {
        Token::Sign(Sign::Open) | Token::Sign(Sign::BraceOpen) => true,
        Token::Sign(Sign::Bang) => match b {
            Token::Sign(x) => matches!(x, Sign::Open | Sign::BraceOpen | Sign::Bang),
            _ => true,
        },
        Token::Word(w) => match b {
            Token::Sign(Sign::Open) => is_sid_word(w),
            _ => false,
        },
        _ => false,
    }
}

/// Writes tokens.
pub fn render_tokens(ts: &Vec<Token>) -> (out: Vec<u8>)
    ensures
        out@ == render(views(ts@)),
{
    let mut out: Vec<u8> = Vec::new();
    let mut i: usize = 0;
    let ghost all = views(ts@);
    assert(all.take(0) =~= Seq::<TokenView>::empty());
    while i < ts.len()
        invariant
            i <= ts@.len(),
            all == views(ts@),
            out@ == render(all.take(i as int)),
        decreases ts@.len() - i,
    {
        let ghost before = out@;
        assert(all.take(i + 1).drop_last() =~= all.take(i as int));
        if i > 0 {
            assert(ts@[i - 1]@ == all[i - 1] && ts@[i as int]@ == all[i as int]);
            if !is_glued(&ts[i - 1], &ts[i]) {
                out.push(0x20);
            }
            assert(out@ =~= before + gap(all[i - 1], all[i as int]));
        }
        put_token(&mut out, &ts[i]);
        assert(out@ =~= render(all.take(i + 1)));
        i = i + 1;
    }
    assert(all.take(i as int) =~= all);
    out
}

/// A byte that would make a token longer.
pub open spec fn extends(t: TokenView, c: u8) -> bool {
    match t {
        TokenView::Word(w) => name_byte(c),
        TokenView::At(w) => name_byte(c),
        TokenView::Hash(w) => name_byte(c),
        TokenView::Str(w) => false,
        TokenView::Sign(x) => (x == Sign::Bang || x == Sign::Lt || x == Sign::Gt) && c == 0x3d,
    }
}

proof fn lemma_name_end(s: Seq<u8>, p: int, e: int)
    requires
        0 <= p <= e <= s.len(),
        forall|i: int| p <= i < e ==> name_byte(#[trigger] s[i]),
        e == s.len() || !name_byte(s[e]),
    ensures
        name_end(s, p) == e,
    decreases e - p,
{
    if p < e {
        lemma_name_end(s, p + 1, e);
    }
}

proof fn lemma_quote_end(s: Seq<u8>, p: int, e: int)
    requires
        0 <= p <= e < s.len(),
        forall|i: int| p <= i < e ==> #[trigger] s[i] != 0x22,
        s[e] == 0x22,
    ensures
        quote_end(s, p) == e,
    decreases e - p,
{
    if p < e {
        lemma_quote_end(s, p + 1, e);
    }
}

/// A token is told from its text, unless the next byte makes it longer.
proof fn lemma_token(s: Seq<u8>, p: int, t: TokenView)
    requires
        stands(s, p, token_text(t)),
        token_valid(t),
        p + token_text(t).len() < s.len() ==> !extends(t, s[p + token_text(t).len()]),
    ensures
        token_text(t).len() > 0,
        !is_space(s[p]),
        token_at(s, p) == Some((t, p + token_text(t).len())),
{
    let x = token_text(t);
    let e = p + x.len();
    assert forall|j: int| p <= j < e implies #[trigger] s[j] == x[j - p] by {
        assert(s.subrange(p, e)[j - p] == x[j - p]);
    }
    match t {
        TokenView::Word(w) => {
            assert(s[p] == x[0]);
            assert forall|i: int| p <= i < e implies name_byte(#[trigger] s[i]) by {
                assert(s[i] == w[i - p]);
            }
            lemma_name_end(s, p, e);
            assert(s.subrange(p, e) =~= w);
        },
        TokenView::At(w) => {
            assert(s[p] == x[0]);
            assert forall|i: int| p + 1 <= i < e implies name_byte(#[trigger] s[i]) by {
                assert(x[i - p] == w[i - p - 1]);
            }
            lemma_name_end(s, p + 1, e);
            assert forall|i: int| 0 <= i < w.len() implies s.subrange(p + 1, e)[i] == w[i] by {
                assert(x[i + 1] == w[i]);
                assert(s[p + 1 + i] == x[p + 1 + i - p]);
            }
            assert(s.subrange(p + 1, e) =~= w);
        },
        TokenView::Hash(w) => {
            assert(s[p] == x[0]);
            assert forall|i: int| p + 1 <= i < e implies name_byte(#[trigger] s[i]) by {
                assert(x[i - p] == w[i - p - 1]);
            }
            lemma_name_end(s, p + 1, e);
            assert forall|i: int| 0 <= i < w.len() implies s.subrange(p + 1, e)[i] == w[i] by {
                assert(x[i + 1] == w[i]);
                assert(s[p + 1 + i] == x[p + 1 + i - p]);
            }
            assert(s.subrange(p + 1, e) =~= w);
        },
        TokenView::Str(w) => {
            assert(s[p] == x[0]);
            assert forall|i: int| p + 1 <= i < e - 1 implies #[trigger] s[i] != 0x22 by {
                assert(x[i - p] == w[i - p - 1]);
            }
            assert(s[e - 1] == x[x.len() - 1]);
            lemma_quote_end(s, p + 1, e - 1);
            assert forall|i: int| 0 <= i < w.len() implies s.subrange(p + 1, e - 1)[i] == w[i] by {
                assert(x[i + 1] == w[i]);
                assert(s[p + 1 + i] == x[p + 1 + i - p]);
            }
            assert(s.subrange(p + 1, e - 1) =~= w);
        },
        TokenView::Sign(sign) => {
            assert(s[p] == x[0]);
            if x.len() == 2 {
                assert(s[p + 1] == x[1]);
            }
        },
    }
}

/// The text of the first tokens comes first.
proof fn lemma_render_prefix(ts: Seq<TokenView>, k: int)
    requires
        0 <= k <= ts.len(),
    ensures
        stands(render(ts), 0, render(ts.take(k))),
    decreases ts.len(),
{
    let s = render(ts);
    if k == ts.len() {
        assert(ts.take(k) =~= ts);
        assert(s.subrange(0, s.len() as int) =~= s);
    } else {
        let front = ts.drop_last();
        lemma_render_prefix(front, k);
        assert(front.take(k) =~= ts.take(k));
        let f = render(front);
        let x = render(ts.take(k));
        if ts.len() == 1 {
            assert(f =~= Seq::<u8>::empty());
            assert(s.subrange(0, 0) =~= x);
        } else {
            assert(s.subrange(0, x.len() as int) =~= f.subrange(0, x.len() as int));
        }
    }
}

/// The first byte of a token that no space precedes does not make the one before longer.
proof fn lemma_glued(a: TokenView, b: TokenView)
    requires
        glued(a, b),
        token_valid(b),
    ensures
        token_text(b).len() > 0,
        !extends(a, token_text(b)[0]),
{
    match b {
        TokenView::Word(w) => {
            assert(name_byte(w[0]));
        },
        _ => {},
    }
}

/// After some tokens are read, the others remain.
proof fn lemma_tokens_from(ts: Seq<TokenView>, k: int)
    requires
        0 <= k <= ts.len(),
        forall|i: int| 0 <= i < ts.len() ==> token_valid(#[trigger] ts[i]),
    ensures
        tokens_from(render(ts), 0, Seq::empty()) == tokens_from(render(ts), render(ts.take(k)).len() as int, ts.take(k)),
    decreases k,
{
    let s = render(ts);
    if k == 0 {
        assert(ts.take(0) =~= Seq::<TokenView>::empty());
    } else {
        lemma_tokens_from(ts, k - 1);
        let before = ts.take(k - 1);
        let now = ts.take(k);
        let t = ts[k - 1];
        assert(now.drop_last() =~= before);
        assert(now =~= before.push(t));
        let a = render(before);
        let b = render(now);
        let x = token_text(t);
        let p = b.len() - x.len();
        lemma_render_prefix(ts, k);
        lemma_follow(ts, k);
        assert forall|i: int| 0 <= i < b.len() implies s[i] == b[i] by {
            assert(s.subrange(0, b.len() as int)[i] == b[i]);
        }
        assert(b.subrange(p, b.len() as int) =~= x);
        assert(s.subrange(p, b.len() as int) =~= x);
        lemma_token(s, p, t);
        if k >= 2 && !glued(ts[k - 2], t) {
            assert(now[now.len() - 2] == ts[k - 2]);
            assert(b[a.len() as int] == 0x20);
            assert(s[a.len() as int] == 0x20);
            assert(p == a.len() + 1);
        } else {
            assert(p == a.len());
        }
        assert(tokens_from(s, p, before) == tokens_from(s, b.len() as int, now));
    }
}

/// What follows a token does not make it longer.
proof fn lemma_follow(ts: Seq<TokenView>, k: int)
    requires
        1 <= k <= ts.len(),
        forall|i: int| 0 <= i < ts.len() ==> token_valid(#[trigger] ts[i]),
    ensures
        ({
            let e = render(ts.take(k)).len() as int;
            e < render(ts).len() ==> !extends(ts[k - 1], render(ts)[e])
        }),
{
    let s = render(ts);
    let a = render(ts.take(k));
    if k < ts.len() {
        let now = ts.take(k + 1);
        assert(now.drop_last() =~= ts.take(k));
        lemma_render_prefix(ts, k + 1);
        let b = render(now);
        assert(b == a + gap(ts[k - 1], ts[k]) + token_text(ts[k]));
        if b.len() > a.len() {
            assert(s.subrange(0, b.len() as int)[a.len() as int] == s[a.len() as int]);
        }
        if glued(ts[k - 1], ts[k]) {
            lemma_glued(ts[k - 1], ts[k]);
            assert(b[a.len() as int] == token_text(ts[k])[0]);
        } else {
            assert(b[a.len() as int] == 0x20);
        }
    } else {
        assert(ts.take(k) =~= ts);
    }
}

/// Tokens are read back from their text.
pub proof fn law_tokens_read_back(ts: Seq<TokenView>)
    requires
        forall|i: int| 0 <= i < ts.len() ==> token_valid(#[trigger] ts[i]),
    ensures
        tokens_from(render(ts), 0, Seq::empty()) == Some(ts),
{
    lemma_tokens_from(ts, ts.len() as int);
    assert(ts.take(ts.len() as int) =~= ts);
}

/// Going past one token.
pub open spec fn token_step(p: Place, t: TokenView) -> Option<Place> {
    if t == TokenView::Sign(Sign::Open) {
        step(p, 0x28)
    } else if t == TokenView::Sign(Sign::Close) {
        step(p, 0x29)
    } else {
        Some(p)
    }
}

/// Going past tokens.
pub open spec fn tokens_run(p: Place, ts: Seq<TokenView>) -> Option<Place>
    decreases ts.len(),
{
    if ts.len() == 0 {
        Some(p)
    } else {
        match tokens_run(p, ts.drop_last()) {
            Some(q) => token_step(q, ts.last()),
            None => None,
        }
    }
}

proof fn lemma_run_token(p: Place, t: TokenView)
    requires
        !p.quoted,
        token_valid(t),
    ensures
        run(p, token_text(t)) == token_step(p, t),
{
    let x = token_text(t);
    match t {
        TokenView::Str(w) => {
            let inside = Place { quoted: true, ..p };
            lemma_run_single(p, 0x22);
            lemma_run_quoted(inside, w);
            lemma_run_single(inside, 0x22);
            lemma_run_append(p, seq![0x22u8], w);
            lemma_run_append(p, seq![0x22u8] + w, seq![0x22u8]);
        },
        TokenView::Sign(Sign::Open) => {
            lemma_run_single(p, 0x28);
        },
        TokenView::Sign(Sign::Close) => {
            lemma_run_single(p, 0x29);
        },
        TokenView::Sign(sign) => {
            assert(plain(x));
            lemma_run_plain(p, x);
        },
        TokenView::Word(w) => {
            lemma_run_plain(p, x);
        },
        TokenView::At(w) => {
            assert forall|i: int| 0 <= i < x.len() implies (#[trigger] x[i]) != 0x22 && x[i] != 0x28 && x[i] != 0x29 by {
                if i > 0 {
                    assert(x[i] == w[i - 1]);
                }
            }
            lemma_run_plain(p, x);
        },
        TokenView::Hash(w) => {
            assert forall|i: int| 0 <= i < x.len() implies (#[trigger] x[i]) != 0x22 && x[i] != 0x28 && x[i] != 0x29 by {
                if i > 0 {
                    assert(x[i] == w[i - 1]);
                }
            }
            lemma_run_plain(p, x);
        },
    }
}

/// Going past the text of tokens is going past the tokens.
pub proof fn lemma_run_tokens(p: Place, ts: Seq<TokenView>)
    requires
        !p.quoted,
        forall|i: int| 0 <= i < ts.len() ==> token_valid(#[trigger] ts[i]),
    ensures
        run(p, render(ts)) == tokens_run(p, ts),
        tokens_run(p, ts) matches Some(q) ==> !q.quoted,
    decreases ts.len(),
{
    if ts.len() > 0 {
        let front = ts.drop_last();
        assert forall|i: int| 0 <= i < front.len() implies token_valid(#[trigger] front[i]) by {
            assert(front[i] == ts[i]);
        }
        lemma_run_tokens(p, front);
        let t = ts.last();
        assert(token_valid(ts[ts.len() - 1]));
        if ts.len() == 1 {
            assert(front =~= Seq::<TokenView>::empty());
            assert(tokens_run(p, front) == Some(p));
            lemma_run_token(p, t);
        } else {
            let g = gap(ts[ts.len() - 2], t);
            lemma_run_append(p, render(front), g);
            lemma_run_append(p, render(front) + g, token_text(t));
            if let Some(q) = tokens_run(p, front) {
                assert(plain(g));
                lemma_run_plain(q, g);
                lemma_run_token(q, t);
            }
        }
    }
}

/// Going past two rows of tokens is going past one after the other.
pub proof fn lemma_tokens_run_append(p: Place, a: Seq<TokenView>, b: Seq<TokenView>)
    ensures
        tokens_run(p, a + b) == (match tokens_run(p, a) {
            Some(q) => tokens_run(q, b),
            None => None,
        }),
    decreases b.len(),
{
    if b.len() == 0 {
        assert(a + b =~= a);
    } else {
        lemma_tokens_run_append(p, a, b.drop_last());
        assert((a + b).drop_last() =~= a + b.drop_last());
        assert((a + b).last() == b.last());
    }
}

} // verus!
