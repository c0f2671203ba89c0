//! Looking through descriptor text past what stands in quotes or parentheses.

use vstd::prelude::*;

verus! {

/// Where a scan is: how deep in parentheses, and whether inside quotes.
#[derive(Clone, Copy, Debug, PartialEq, Eq, Structural)]
pub struct Scan {
    pub depth: usize,
    pub quoted: bool,
}

/// Where a scan is, in general.
#[verifier::ext_equal]
pub struct Place {
    pub depth: nat,
    pub quoted: bool,
}

/// Outside of everything.
pub open spec fn top() -> Place {
    Place { depth: 0, quoted: false }
}

/// Goes past one byte; nothing if it closes a parenthesis that was not opened.
pub open spec fn step(p: Place, c: u8) -> Option<Place> {
    if p.quoted {
        Some(Place { quoted: c != 0x22, ..p })
    } else if c == 0x22 {
        Some(Place { quoted: true, ..p })
    } else if c == 0x28 {
        Some(Place { depth: p.depth + 1, ..p })
    } else if c == 0x29 {
        if p.depth == 0 {
            None
        } else {
            Some(Place { depth: (p.depth - 1) as nat, ..p })
        }
    } else {
        Some(p)
    }
}

/// Goes past one byte; a parenthesis that was not opened is passed over.
pub open spec fn pass(p: Place, c: u8) -> Place {
    match step(p, c) {
        Some(q) => q,
        None => p,
    }
}

/// Goes past text.
pub open spec fn run(p: Place, s: Seq<u8>) -> Option<Place>
    decreases s.len(),
{
    if s.len() == 0 {
        Some(p)
    } else {
        match run(p, s.drop_last()) {
            Some(q) => step(q, s.last()),
            None => None,
        }
    }
}

/// Text whose quotes and parentheses are all closed again.
pub open spec fn balanced(s: Seq<u8>) -> bool {
    run(top(), s) == Some(top())
}

/// Where the parenthesis is closed that was opened before `p`.
pub open spec fn close_from(s: Seq<u8>, p: int, at: Place) -> Option<int>
    decreases s.len() - p,
{
    if p < 0 || p >= s.len() {
        None
    } else if at == top() && s[p] == 0x29 {
        Some(p)
    } else {
        close_from(s, p + 1, pass(at, s[p]))
    }
}

/// A section starts at `p`: a letter and a colon.
pub open spec fn is_header(s: Seq<u8>, p: int) -> bool {
    &&& 0 <= p
    &&& p + 1 < s.len()
    &&& s[p] == 0x4f || s[p] == 0x47 || s[p] == 0x44 || s[p] == 0x53
    &&& s[p + 1] == 0x3a
}

/// Where the next section starts, from `p` on; the end if none does.
pub open spec fn header_from(s: Seq<u8>, p: int, at: Place) -> int
    decreases s.len() - p,
{
    if p < 0 || p >= s.len() {
        s.len() as int
    } else if at == top() && is_header(s, p) {
        p
    } else {
        header_from(s, p + 1, pass(at, s[p]))
    }
}

/// The fields of text between the separators that stand outside of everything.
pub open spec fn split_top(s: Seq<u8>, sep: u8) -> Seq<Seq<u8>>
    decreases s.len(),
{
    if s.len() == 0 {
        seq![Seq::empty()]
    } else {
        let before = split_top(s.drop_last(), sep);
        if s.last() == sep && passed(s.drop_last()) == top() {
            before.push(Seq::empty())
        } else {
            before.update(before.len() - 1, before.last().push(s.last()))
        }
    }
}

/// Where a scan is behind text.
pub open spec fn passed(s: Seq<u8>) -> Place
    decreases s.len(),
{
    if s.len() == 0 {
        top()
    } else {
        pass(passed(s.drop_last()), s.last())
    }
}

impl Scan {
    pub open spec fn at(self) -> Place {
        Place { depth: self.depth as nat, quoted: self.quoted }
    }

    pub fn start() -> (s: Scan)
        ensures
            s.at() == top(),
    {
        Scan { depth: 0, quoted: false }
    }

    pub fn is_top(self) -> (r: bool)
        ensures
            r == (self.at() == top()),
    {
        self.depth == 0 && !self.quoted
    }

    pub fn pass(self, c: u8) -> (s: Scan)
        requires
            self.depth < usize::MAX,
        ensures
            s.at() == pass(self.at(), c),
            s.depth <= self.depth + 1,
    {
        if self.quoted {
            Scan { depth: self.depth, quoted: c != 0x22 }
        } else if c == 0x22 {
            Scan { depth: self.depth, quoted: true }
        } else if c == 0x28 {
            Scan { depth: self.depth + 1, quoted: false }
        } else if c == 0x29 && self.depth > 0 {
            Scan { depth: self.depth - 1, quoted: false }
        } else {
            self
        }
    }
}

/// Finds where the parenthesis is closed that was opened before `p`.
pub fn find_close(s: &[u8], p: usize) -> (r: Option<usize>)
    requires
        p <= s@.len(),
    ensures
        match r {
            Some(q) => close_from(s@, p as int, top()) == Some(q as int) && p <= q < s@.len(),
            None => close_from(s@, p as int, top()) is None,
        },
{
    let mut i: usize = p;
    let mut at: Scan = Scan::start();
    while i < s.len()
        invariant
            p <= i <= s@.len(),
            at.depth <= i - p,
            close_from(s@, p as int, top()) == close_from(s@, i as int, at.at()),
        decreases s@.len() - i,
    {
        if at.is_top() && s[i] == 0x29 {
            return Some(i);
        }
        at = at.pass(s[i]);
        i = i + 1;
    }
    None
}

/// Finds where the next section starts.
pub fn find_header(s: &[u8], p: usize) -> (q: usize)
    requires
        p <= s@.len(),
    ensures
        q == header_from(s@, p as int, top()),
        p <= q <= s@.len(),
{
    let mut i: usize = p;
    let mut at: Scan = Scan::start();
    while i < s.len()
        invariant
            p <= i <= s@.len(),
            at.depth <= i - p,
            header_from(s@, p as int, top()) == header_from(s@, i as int, at.at()),
        decreases s@.len() - i,
    {
        if at.is_top() && header_here(s, i) {
            return i;
        }
        at = at.pass(s[i]);
        i = i + 1;
    }
    i
}

/// Whether a section starts at `p`.
pub fn header_here(s: &[u8], p: usize) -> (r: bool)
    requires
        p <= s@.len(),
    ensures
        r == is_header(s@, p as int),
{
    if p >= s.len() || s.len() - p < 2 {
        return false;
    }
    (s[p] == 0x4f || s[p] == 0x47 || s[p] == 0x44 || s[p] == 0x53) && s[p + 1] == 0x3a
}

/// Splits text at the separators that stand outside of everything.
pub fn split_outside(s: &[u8], sep: u8) -> (fields: Vec<Vec<u8>>)
    ensures
        fields@.len() == split_top(s@, sep).len(),
        forall|i: int| 0 <= i < fields@.len() ==> #[trigger] fields@[i]@ == split_top(s@, sep)[i],
{
    let mut fields: Vec<Vec<u8>> = Vec::new();
    let mut field: Vec<u8> = Vec::new();
    let mut at: Scan = Scan::start();
    let mut i: usize = 0;
    assert(s@.take(0) =~= Seq::<u8>::empty());
    while i < s.len()
        invariant
            i <= s@.len(),
            at.depth <= i,
            at.at() == passed(s@.take(i as int)),
            split_top(s@.take(i as int), sep).len() == fields@.len() + 1,
            forall|j: int|
                0 <= j < fields@.len() ==> #[trigger] fields@[j]@ == split_top(s@.take(i as int), sep)[j],
            field@ == split_top(s@.take(i as int), sep).last(),
        decreases s@.len() - i,
    {
        assert(s@.take(i + 1).drop_last() =~= s@.take(i as int));
        let c: u8 = s[i];
        if c == sep && at.is_top() {
            fields.push(field);
            field = Vec::new();
        } else {
            field.push(c);
        }
        at = at.pass(c);
        i = i + 1;
    }
    assert(s@.take(i as int) =~= s@);
    fields.push(field);
    fields
}

/// Going past two texts is going past one after the other.
pub proof fn lemma_run_append(p: Place, a: Seq<u8>, b: Seq<u8>)
    ensures
        run(p, a + b) == (match run(p, a) {
            Some(q) => run(q, b),
            None => None,
        }),
    decreases b.len(),
{
    if b.len() == 0 {
        assert(a + b =~= a);
    } else {
        lemma_run_append(p, a, b.drop_last());
        assert((a + b).drop_last() =~= a + b.drop_last());
        assert((a + b).last() == b.last());
    }
}

/// Text without quotes and parentheses.
pub open spec fn plain(s: Seq<u8>) -> bool {
    forall|i: int| 0 <= i < s.len() ==> (#[trigger] s[i]) != 0x22 && s[i] != 0x28 && s[i] != 0x29
}

/// Plain text leaves a scan where it was, outside of quotes.
pub proof fn lemma_run_plain(p: Place, s: Seq<u8>)
    requires
        plain(s),
        !p.quoted,
    ensures
        run(p, s) == Some(p),
    decreases s.len(),
{
    if s.len() > 0 {
        let front = s.drop_last();
        assert forall|i: int| 0 <= i < front.len() implies (#[trigger] front[i]) != 0x22 && front[i] != 0x28 && front[i]
            != 0x29 by {
            assert(front[i] == s[i]);
        }
        lemma_run_plain(p, front);
        assert(s[s.len() - 1] == s.last());
    }
}

/// Text that is past in one place is past deeper in parentheses too.
pub proof fn lemma_run_deeper(p: Place, s: Seq<u8>, d: nat)
    ensures
        run(p, s) matches Some(q) ==> run(Place { depth: p.depth + d, ..p }, s) == Some(
            Place { depth: q.depth + d, ..q },
        ),
    decreases s.len(),
{
    if s.len() > 0 {
        lemma_run_deeper(p, s.drop_last(), d);
    }
}

/// Where text is past, nothing was closed that was not opened.
pub proof fn lemma_run_passed(s: Seq<u8>)
    ensures
        run(top(), s) matches Some(q) ==> passed(s) == q,
    decreases s.len(),
{
    if s.len() > 0 {
        lemma_run_passed(s.drop_last());
    }
}

/// Scanning for a closing parenthesis goes past text.
pub proof fn lemma_close_past(s: Seq<u8>, p: int, at: Place, t: Seq<u8>)
    requires
        0 <= p,
        p + t.len() <= s.len(),
        s.subrange(p, p + t.len()) == t,
        run(at, t) is Some,
    ensures
        close_from(s, p, at) == close_from(s, p + t.len(), run(at, t)->Some_0),
    decreases t.len(),
{
    if t.len() > 0 {
        let front = t.drop_last();
        let q = p + front.len();
        assert(s.subrange(p, q) =~= front);
        lemma_close_past(s, p, at, front);
        assert(s.subrange(p, p + t.len())[t.len() - 1] == t.last());
        assert(s[q] == t.last());
    }
}

/// The parenthesis around balanced text is found.
pub proof fn lemma_close_balanced(pre: Seq<u8>, t: Seq<u8>, post: Seq<u8>)
    requires
        balanced(t),
    ensures
        close_from(pre + t + seq![0x29u8] + post, pre.len() as int, top()) == Some((pre.len() + t.len()) as int),
{
    let s = pre + t + seq![0x29u8] + post;
    let p = pre.len() as int;
    assert(s.subrange(p, p + t.len()) =~= t);
    lemma_close_past(s, p, top(), t);
    assert(s[p + t.len()] == 0x29);
}

/// Text through which a search for the next section goes: it is balanced, and no colon stands
/// outside of everything.
pub open spec fn headless(at: Place, t: Seq<u8>) -> bool
    decreases t.len(),
{
    if t.len() == 0 {
        true
    } else {
        &&& headless(at, t.drop_last())
        &&& run(at, t.drop_last()) is Some
        &&& run(at, t.drop_last()) == Some(top()) ==> t.last() != 0x3a
    }
}

/// Scanning for the next section goes past such text, if no colon follows it.
pub proof fn lemma_header_past(s: Seq<u8>, p: int, at: Place, t: Seq<u8>)
    requires
        0 <= p,
        p + t.len() <= s.len(),
        s.subrange(p, p + t.len()) == t,
        run(at, t) is Some,
        headless(at, t),
        run(at, t) == Some(top()) && p + t.len() < s.len() ==> s[p + t.len()] != 0x3a,
    ensures
        header_from(s, p, at) == header_from(s, p + t.len(), run(at, t)->Some_0),
    decreases t.len(),
{
    if t.len() > 0 {
        let front = t.drop_last();
        let q = p + front.len();
        let whole = s.subrange(p, p + t.len());
        assert(s.subrange(p, q) =~= front);
        assert(whole[t.len() - 1] == t.last());
        assert(s[q] == t.last());
        lemma_header_past(s, p, at, front);
        if run(at, front) == Some(top()) && is_header(s, q) {
            assert(run(at, t) == Some(top()));
            assert(false);
        }
    }
}

/// Fields with a separator between them.
pub open spec fn join(fields: Seq<Seq<u8>>, sep: u8) -> Seq<u8>
    decreases fields.len(),
{
    if fields.len() == 0 {
        Seq::empty()
    } else if fields.len() == 1 {
        fields[0]
    } else {
        join(fields.drop_last(), sep) + seq![sep] + fields.last()
    }
}

/// A field that a separator may follow: everything is closed again, and no separator stands
/// outside of everything.
pub open spec fn clean(f: Seq<u8>, sep: u8) -> bool {
    balanced(f) && split_top(f, sep).len() == 1
}

/// A byte that separates.
pub open spec fn separates(sep: u8) -> bool {
    sep != 0x22 && sep != 0x28 && sep != 0x29
}

/// The field behind a separator.
proof fn lemma_split_next(a: Seq<u8>, sep: u8, f: Seq<u8>)
    requires
        passed(a) == top(),
        separates(sep),
        run(top(), f) is Some,
        split_top(f, sep).len() == 1,
    ensures
        split_top(a + seq![sep] + f, sep) == split_top(a, sep).push(f),
        passed(a + seq![sep] + f) == run(top(), f)->Some_0,
    decreases f.len(),
{
    let s = a + seq![sep] + f;
    if f.len() == 0 {
        assert(s.drop_last() =~= a);
        assert(f =~= Seq::<u8>::empty());
        assert(split_top(s, sep) == split_top(a, sep).push(f));
    } else {
        let g = f.drop_last();
        lemma_split_some(g, sep);
        lemma_split_next(a, sep, g);
        lemma_run_passed(g);
        assert(s.drop_last() =~= a + seq![sep] + g);
        assert(s.last() == f.last());
        let before = split_top(s.drop_last(), sep);
        assert(before.last() == g);
        assert(g.push(f.last()) =~= f);
        assert(split_top(s, sep) =~= split_top(a, sep).push(f));
    }
}

/// There is always a field.
pub proof fn lemma_split_some(s: Seq<u8>, sep: u8)
    ensures
        split_top(s, sep).len() >= 1,
    decreases s.len(),
{
    if s.len() > 0 {
        lemma_split_some(s.drop_last(), sep);
    }
}

/// A single field is the whole text.
proof fn lemma_split_single(f: Seq<u8>, sep: u8)
    requires
        split_top(f, sep).len() == 1,
    ensures
        split_top(f, sep) == seq![f],
    decreases f.len(),
{
    if f.len() > 0 {
        lemma_split_some(f.drop_last(), sep);
        lemma_split_single(f.drop_last(), sep);
        assert(f.drop_last().push(f.last()) =~= f);
        assert(split_top(f, sep) =~= seq![f]);
    } else {
        assert(f =~= Seq::<u8>::empty());
        assert(split_top(f, sep) =~= seq![f]);
    }
}

/// Fields are told apart again, and everything is closed behind them.
pub proof fn law_split_undoes_join(fields: Seq<Seq<u8>>, sep: u8)
    requires
        fields.len() > 0,
        separates(sep),
        forall|i: int| 0 <= i < fields.len() ==> clean(#[trigger] fields[i], sep),
    ensures
        split_top(join(fields, sep), sep) == fields,
        balanced(join(fields, sep)),
    decreases fields.len(),
{
    let last = fields.last();
    assert(clean(fields[fields.len() - 1], sep));
    if fields.len() == 1 {
        lemma_split_single(last, sep);
        assert(fields =~= seq![last]);
    } else {
        let front = fields.drop_last();
        assert forall|i: int| 0 <= i < front.len() implies clean(#[trigger] front[i], sep) by {
            assert(front[i] == fields[i]);
        }
        law_split_undoes_join(front, sep);
        let a = join(front, sep);
        lemma_run_passed(a);
        lemma_split_next(a, sep, last);
        assert(front.push(last) =~= fields);
        lemma_run_append(top(), a, seq![sep]);
        lemma_run_append(top(), a + seq![sep], last);
        assert(plain(seq![sep]));
        lemma_run_plain(top(), seq![sep]);
    }
}

/// Plain text without the separator is one field.
pub proof fn lemma_plain_clean(f: Seq<u8>, sep: u8)
    requires
        plain(f),
        forall|i: int| 0 <= i < f.len() ==> (#[trigger] f[i]) != sep,
    ensures
        clean(f, sep),
    decreases f.len(),
{
    lemma_run_plain(top(), f);
    if f.len() > 0 {
        let g = f.drop_last();
        assert forall|i: int| 0 <= i < g.len() implies (#[trigger] g[i]) != sep by {
            assert(g[i] == f[i]);
        }
        assert forall|i: int| 0 <= i < g.len() implies (#[trigger] g[i]) != 0x22 && g[i] != 0x28 && g[i] != 0x29 by {
            assert(g[i] == f[i]);
        }
        lemma_plain_clean(g, sep);
        assert(f.last() == f[f.len() - 1]);
    }
}

/// Text inside parentheses or quotes has no separator outside of everything.
proof fn lemma_inside(open: u8, t: Seq<u8>, sep: u8)
    requires
        separates(sep),
        open == 0x28 || open == 0x22,
        run(pass(top(), open), t) is Some,
        forall|k: int|
            0 <= k <= t.len() ==> (#[trigger] run(pass(top(), open), t.take(k))) != Some(top()),
    ensures
        split_top(seq![open] + t, sep).len() == 1,
        passed(seq![open] + t) == run(pass(top(), open), t)->Some_0,
    decreases t.len(),
{
    let s = seq![open] + t;
    if t.len() == 0 {
        assert(s.drop_last() =~= Seq::<u8>::empty());
        assert(passed(s.drop_last()) == top());
        assert(split_top(s.drop_last(), sep).len() == 1);
    } else {
        let u = t.drop_last();
        assert forall|k: int| 0 <= k <= u.len() implies (#[trigger] run(pass(top(), open), u.take(k))) != Some(
            top(),
        ) by {
            assert(u.take(k) =~= t.take(k));
        }
        lemma_inside(open, u, sep);
        assert(s.drop_last() =~= seq![open] + u);
        assert(s.last() == t.last());
        assert(u.take(u.len() as int) =~= u);
        assert(run(pass(top(), open), u) != Some(top()));
    }
}

/// Going past text that is past in the end is past all the way.
pub proof fn lemma_run_prefix(p: Place, t: Seq<u8>, k: int)
    requires
        run(p, t) is Some,
        0 <= k <= t.len(),
    ensures
        run(p, t.take(k)) is Some,
    decreases t.len(),
{
    if k == t.len() {
        assert(t.take(k) =~= t);
    } else {
        lemma_run_prefix(p, t.drop_last(), k);
        assert(t.drop_last().take(k) =~= t.take(k));
    }
}

/// Balanced text in parentheses is one field.
pub proof fn lemma_enclosed_clean(t: Seq<u8>, sep: u8)
    requires
        balanced(t),
        separates(sep),
    ensures
        clean(seq![0x28u8] + t + seq![0x29u8], sep),
{
    let inside = Place { depth: 1, quoted: false };
    let a = seq![0x28u8] + t;
    let s = a + seq![0x29u8];
    assert(pass(top(), 0x28) == inside);
    assert forall|k: int| 0 <= k <= t.len() implies (#[trigger] run(inside, t.take(k))) != Some(top()) by {
        lemma_run_prefix(top(), t, k);
        lemma_run_deeper(top(), t.take(k), 1);
    }
    lemma_run_deeper(top(), t, 1);
    assert(run(inside, t) == Some(inside));
    lemma_inside(0x28, t, sep);
    assert(s.drop_last() =~= a);
    lemma_run_single(top(), 0x28);
    lemma_run_single(inside, 0x29);
    lemma_run_append(top(), seq![0x28u8], t);
    lemma_run_append(top(), a, seq![0x29u8]);
}

/// Quoted text is one field.
pub proof fn lemma_quoted_clean(t: Seq<u8>, sep: u8)
    requires
        forall|i: int| 0 <= i < t.len() ==> (#[trigger] t[i]) != 0x22,
        separates(sep),
    ensures
        clean(seq![0x22u8] + t + seq![0x22u8], sep),
{
    let inside = Place { depth: 0, quoted: true };
    let a = seq![0x22u8] + t;
    let s = a + seq![0x22u8];
    assert(pass(top(), 0x22) == inside);
    assert forall|k: int| 0 <= k <= t.len() implies (#[trigger] run(inside, t.take(k))) == Some(inside) by {
        assert forall|i: int| 0 <= i < k implies (#[trigger] t.take(k)[i]) != 0x22 by {
            assert(t.take(k)[i] == t[i]);
        }
        lemma_run_quoted(inside, t.take(k));
    }
    assert(t.take(t.len() as int) =~= t);
    assert(run(inside, t) == Some(inside));
    lemma_inside(0x22, t, sep);
    assert(s.drop_last() =~= a);
    lemma_run_single(top(), 0x22);
    lemma_run_single(inside, 0x22);
    lemma_run_append(top(), seq![0x22u8], t);
    lemma_run_append(top(), a, seq![0x22u8]);
}

/// Going past one byte.
pub proof fn lemma_run_single(p: Place, c: u8)
    ensures
        run(p, seq![c]) == step(p, c),
{
    reveal_with_fuel(run, 2);
    assert(seq![c].drop_last() =~= Seq::<u8>::empty());
}

/// Text without quotation marks leaves a scan inside of quotes.
pub proof fn lemma_run_quoted(p: Place, s: Seq<u8>)
    requires
        p.quoted,
        forall|i: int| 0 <= i < s.len() ==> (#[trigger] s[i]) != 0x22,
    ensures
        run(p, s) == Some(p),
    decreases s.len(),
{
    if s.len() > 0 {
        let front = s.drop_last();
        assert forall|i: int| 0 <= i < front.len() implies (#[trigger] front[i]) != 0x22 by {
            assert(front[i] == s[i]);
        }
        lemma_run_quoted(p, front);
        assert(s.last() == s[s.len() - 1]);
    }
}

} // verus!
