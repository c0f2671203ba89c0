//! The text of a descriptor tells the descriptor.

use vstd::prelude::*;
use crate::security::codec::{acl_aces, is_acl, law_sd_round_trip, sd_fault, AceView, ParseError};
use crate::security::sddl::builders::{
    built_control, built_sd, buildable, law_built_acl_reads_back, law_built_control, opt_acl, sd_buildable,
};
use crate::security::sddl::entry::{ace_of_text, ace_text, entry_ace, entry_of, parenthesised};
use crate::security::sddl::entry_laws::{entry_told, inner_text, law_ace_text_reads_back};
use crate::security::sddl::fields::{is_word, lemma_word_plain};
use crate::security::sddl::grammar::{
    aces_from, aces_text, acl_flags_from, acl_flags_text, acl_of_text, acl_section, bit, flags_of_control, list_aces,
    list_of, no_flags, nothing, open_from, sd_format, sd_model, sd_of_text, sd_parts, sd_text, sections_from,
    sid_section, with_section, AclFlags, AclKind, AclModel, SdModel,
};
use crate::security::sddl::names::{law_sid_field_round_trip, sid_field};
use crate::security::sddl::scan::{
    balanced, header_from, headless, is_header, lemma_close_balanced, lemma_header_past, lemma_run_append,
    lemma_run_deeper, lemma_run_plain, lemma_run_prefix, lemma_run_single, run, top, Place,
};
use crate::security::sddl::{Error, SddlErrorView};
use crate::security::sid::SidView;

verus! {

/// An entry that its text tells.
#[verifier::opaque]
pub open spec fn ace_told(a: AceView) -> bool {
    match entry_of(a) {
        Some(e) => entry_told(e) && entry_ace(e) == a,
        None => false,
    }
}

/// Entries that their text tells.
pub open spec fn aces_told(aces: Seq<AceView>) -> bool {
    forall|i: int| 0 <= i < aces.len() ==> ace_told(#[trigger] aces[i])
}

/// A descriptor that its text tells: its entries are laid out as they would be built from text.
pub open spec fn sd_told(m: SdModel) -> bool {
    &&& m.owner matches Some(v) ==> v.wf()
    &&& m.group matches Some(v) ==> v.wf()
    &&& m.dacl matches Some(a) ==> aces_told(a.aces)
    &&& m.sacl matches Some(a) ==> aces_told(a.aces)
}

/// The text inside the parentheses of an entry's text.
#[verifier::opaque]
spec fn inside(a: AceView) -> Seq<u8> {
    inner_text(entry_of(a)->Some_0)
}

proof fn lemma_ace(a: AceView)
    requires
        ace_told(a),
    ensures
        ace_text(a) == Ok::<Seq<u8>, SddlErrorView>(parenthesised(inside(a))),
        ace_of_text(inside(a)) == Ok::<AceView, SddlErrorView>(a),
        balanced(inside(a)),
{
    reveal(ace_told);
    reveal(inside);
    law_ace_text_reads_back(entry_of(a)->Some_0);
}

/// Text without colons outside of parentheses.
proof fn lemma_headless_word(w: Seq<u8>)
    requires
        is_word(w),
    ensures
        headless(top(), w),
        balanced(w),
    decreases w.len(),
{
    lemma_word_plain(w);
    lemma_run_plain(top(), w);
    if w.len() > 0 {
        let front = w.drop_last();
        assert forall|i: int| 0 <= i < front.len() implies crate::security::sddl::fields::word_byte(
            #[trigger] front[i],
        ) by {
            assert(front[i] == w[i]);
        }
        lemma_headless_word(front);
        assert(w.last() == w[w.len() - 1]);
    }
}

/// Text inside of parentheses has no colon outside of them.
proof fn lemma_headless_inside(t: Seq<u8>)
    requires
        run(top(), t) is Some,
    ensures
        headless(top(), seq![0x28u8] + t),
        run(top(), seq![0x28u8] + t) == Some(
            Place { depth: run(top(), t)->Some_0.depth + 1, quoted: run(top(), t)->Some_0.quoted },
        ),
    decreases t.len(),
{
    let s = seq![0x28u8] + t;
    lemma_run_single(top(), 0x28);
    lemma_run_append(top(), seq![0x28u8], t);
    lemma_run_deeper(top(), t, 1);
    if t.len() == 0 {
        assert(s.drop_last() =~= Seq::<u8>::empty());
        assert(headless(top(), s.drop_last()) && run(top(), s.drop_last()) == Some(top()));
        assert(s.last() == 0x28);
    } else {
        lemma_run_prefix(top(), t, t.len() - 1);
        assert(t.take(t.len() - 1) =~= t.drop_last());
        lemma_headless_inside(t.drop_last());
        assert(s.drop_last() =~= seq![0x28u8] + t.drop_last());
    }
}

proof fn lemma_headless_enclosed(t: Seq<u8>)
    requires
        balanced(t),
    ensures
        headless(top(), parenthesised(t)),
        balanced(parenthesised(t)),
{
    let s = parenthesised(t);
    lemma_headless_inside(t);
    assert(s.drop_last() =~= seq![0x28u8] + t);
    let one = Place { depth: 1, quoted: false };
    lemma_run_single(one, 0x29);
    lemma_run_append(top(), seq![0x28u8] + t, seq![0x29u8]);
}

proof fn lemma_headless_append(a: Seq<u8>, b: Seq<u8>)
    requires
        balanced(a),
        headless(top(), a),
        headless(top(), b),
    ensures
        headless(top(), a + b),
        run(top(), a + b) == run(top(), b),
    decreases b.len(),
{
    lemma_run_append(top(), a, b);
    if b.len() == 0 {
        assert(a + b =~= a);
    } else {
        lemma_headless_append(a, b.drop_last());
        lemma_run_append(top(), a, b.drop_last());
        assert((a + b).drop_last() =~= a + b.drop_last());
        assert((a + b).last() == b.last());
    }
}

/// The text of entries that it tells.
proof fn lemma_aces_text(aces: Seq<AceView>)
    requires
        aces_told(aces),
    ensures
        aces_text(aces) is Ok,
        headless(top(), aces_text(aces)->Ok_0),
        balanced(aces_text(aces)->Ok_0),
        aces.len() > 0 ==> aces_text(aces)->Ok_0.len() > 0 && aces_text(aces)->Ok_0[0] == 0x28,
        aces.len() == 0 ==> aces_text(aces)->Ok_0.len() == 0,
    decreases aces.len(),
{
    if aces.len() > 0 {
        let front = aces.drop_last();
        assert forall|i: int| 0 <= i < front.len() implies ace_told(#[trigger] front[i]) by {
            assert(front[i] == aces[i]);
        }
        lemma_aces_text(front);
        assert(ace_told(aces[aces.len() - 1]));
        let a = aces.last();
        lemma_ace(a);
        lemma_headless_enclosed(inside(a));
        lemma_headless_append(aces_text(front)->Ok_0, parenthesised(inside(a)));
    }
}

/// The text of the first entries comes first.
proof fn lemma_aces_prefix(aces: Seq<AceView>, k: int)
    requires
        aces_told(aces),
        0 <= k <= aces.len(),
    ensures
        aces_text(aces.take(k)) is Ok,
        aces_text(aces) is Ok,
        aces_text(aces.take(k))->Ok_0.len() <= aces_text(aces)->Ok_0.len(),
        aces_text(aces)->Ok_0.subrange(0, aces_text(aces.take(k))->Ok_0.len() as int) == aces_text(aces.take(k))->Ok_0,
    decreases aces.len(),
{
    lemma_aces_text(aces);
    let whole = aces_text(aces)->Ok_0;
    if k == aces.len() {
        assert(aces.take(k) =~= aces);
        assert(whole.subrange(0, whole.len() as int) =~= whole);
    } else {
        let front = aces.drop_last();
        assert forall|i: int| 0 <= i < front.len() implies ace_told(#[trigger] front[i]) by {
            assert(front[i] == aces[i]);
        }
        lemma_aces_prefix(front, k);
        assert(front.take(k) =~= aces.take(k));
        let f = aces_text(front)->Ok_0;
        let x = aces_text(aces.take(k))->Ok_0;
        assert(ace_told(aces[aces.len() - 1]));
        lemma_ace(aces.last());
        assert(whole == f + parenthesised(inside(aces.last())));
        assert(whole.subrange(0, x.len() as int) =~= f.subrange(0, x.len() as int));
    }
}

/// One entry is read.
proof fn lemma_ace_step(s: Seq<u8>, pre: Seq<u8>, a: AceView, post: Seq<u8>, acc: Seq<AceView>)
    requires
        ace_told(a),
        s == pre + parenthesised(inside(a)) + post,
    ensures
        aces_from(s, pre.len() as int, acc) == aces_from(
            s,
            (pre.len() + parenthesised(inside(a)).len()) as int,
            acc.push(a),
        ),
{
    lemma_ace(a);
    let t = inside(a);
    let before = pre + seq![0x28u8];
    assert(s =~= before + t + seq![0x29u8] + post);
    lemma_close_balanced(before, t, post);
    let p = pre.len() as int;
    let q = p + 1 + t.len();
    assert(s[p] == 0x28);
    assert(s.subrange(p + 1, q) =~= t);
}

/// After some entries are read, the others remain.
#[verifier::spinoff_prover]
proof fn lemma_aces_from(head: Seq<u8>, aces: Seq<AceView>, k: int)
    requires
        aces_told(aces),
        0 <= k <= aces.len(),
    ensures
        aces_text(aces) is Ok,
        aces_text(aces.take(k)) is Ok,
        ({
            let s = head + aces_text(aces)->Ok_0;
            aces_from(s, head.len() as int, Seq::empty()) == aces_from(
                s,
                (head.len() + aces_text(aces.take(k))->Ok_0.len()) as int,
                aces.take(k),
            )
        }),
    decreases k,
{
    lemma_aces_prefix(aces, k);
    let whole = aces_text(aces)->Ok_0;
    let s = head + whole;
    if k == 0 {
        assert(aces.take(0) =~= Seq::<AceView>::empty());
    } else {
        lemma_aces_from(head, aces, k - 1);
        let before = aces.take(k - 1);
        let now = aces.take(k);
        let a = aces[k - 1];
        assert(now.drop_last() =~= before);
        assert(now =~= before.push(a));
        lemma_ace(a);
        let x = aces_text(before)->Ok_0;
        let y = aces_text(now)->Ok_0;
        let z = parenthesised(inside(a));
        assert(y == x + z);
        let post = whole.subrange(y.len() as int, whole.len() as int);
        assert(whole =~= y + post);
        assert(s =~= (head + x) + z + post);
        lemma_ace_step(s, head + x, a, post, before);
    }
}

proof fn lemma_flags(f: AclFlags, rest: Seq<u8>)
    requires
        rest.len() > 0 ==> rest[0] == 0x28,
    ensures
        ({
            let s = acl_flags_text(f) + rest;
            let n = acl_flags_text(f).len() as int;
            open_from(s, 0) == n && acl_flags_from(s, 0, n, no_flags()) == Some(f)
        }),
        is_word(acl_flags_text(f)),
{
    let t = acl_flags_text(f);
    let s = t + rest;
    reveal_with_fuel(open_from, 7);
    reveal_with_fuel(acl_flags_from, 4);
    assert(forall|i: int| 0 <= i < t.len() ==> s[i] == t[i]);
    if rest.len() > 0 {
        assert(s[t.len() as int] == 0x28);
    }
}

/// A list is read back from its text.
proof fn lemma_acl(m: AclModel)
    requires
        aces_told(m.aces),
    ensures
        aces_text(m.aces) is Ok,
        acl_of_text(acl_flags_text(m.flags) + aces_text(m.aces)->Ok_0) == Ok::<AclModel, SddlErrorView>(m),
        headless(top(), acl_flags_text(m.flags) + aces_text(m.aces)->Ok_0),
        balanced(acl_flags_text(m.flags) + aces_text(m.aces)->Ok_0),
{
    reveal(acl_of_text);
    let head = acl_flags_text(m.flags);
    lemma_aces_text(m.aces);
    let t = aces_text(m.aces)->Ok_0;
    lemma_flags(m.flags, t);
    lemma_headless_word(head);
    lemma_headless_append(head, t);
    lemma_aces_from(head, m.aces, m.aces.len() as int);
    assert(m.aces.take(m.aces.len() as int) =~= m.aces);
    assert(head + t =~= head + t);
    let got = acl_of_text(head + t)->Ok_0;
    assert(got =~= m);
}

/// A section's text, told by its letter.
spec fn starts_section(s: Seq<u8>) -> bool {
    s.len() > 0 ==> is_header(s, 0)
}

/// A section is read, and the next one begins where its text ends.
proof fn lemma_section(pre: Seq<u8>, letter: u8, body: Seq<u8>, post: Seq<u8>, m: SdModel, next: SdModel)
    requires
        letter == 0x4f || letter == 0x47 || letter == 0x44 || letter == 0x53,
        headless(top(), body),
        balanced(body),
        starts_section(post),
        with_section(m, letter, body) == Ok::<SdModel, SddlErrorView>(next),
    ensures
        ({
            let s = pre + (seq![letter, 0x3au8] + body) + post;
            sections_from(s, pre.len() as int, m) == sections_from(
                s,
                (pre.len() + 2 + body.len()) as int,
                next,
            )
        }),
{
    let s = pre + (seq![letter, 0x3au8] + body) + post;
    let p = pre.len() as int;
    let q = p + 2 + body.len();
    assert(s[p] == letter && s[p + 1] == 0x3a);
    assert(s.subrange(p + 2, q) =~= body);
    if post.len() > 0 {
        assert(s[q] == post[0] && s[q + 1] == post[1]);
    }
    lemma_header_past(s, p + 2, top(), body);
    assert(header_from(s, q, top()) == q);
    reveal(sections_from);
}

/// The section of an optional SID is read.
proof fn lemma_sid_section(pre: Seq<u8>, letter: u8, sid: Option<SidView>, post: Seq<u8>, m: SdModel, next: SdModel)
    requires
        sid matches Some(v) ==> v.wf(),
        starts_section(post),
        letter == 0x4f && m.owner is None && next == (SdModel { owner: sid, ..m }) || letter == 0x47 && m.group is None
            && next == (SdModel { group: sid, ..m }),
    ensures
        ({
            let s = pre + sid_section(letter, sid) + post;
            sections_from(s, pre.len() as int, m) == sections_from(
                s,
                (pre.len() + sid_section(letter, sid).len()) as int,
                next,
            )
        }),
        starts_section(sid_section(letter, sid) + post),
{
    match sid {
        Some(v) => {
            law_sid_field_round_trip(v);
            lemma_headless_word(sid_field(v));
            lemma_section(pre, letter, sid_field(v), post, m, next);
        },
        None => {
            assert(m =~= next);
            assert(sid_section(letter, sid) + post =~= post);
        },
    }
}

/// The section of an optional list is read.
proof fn lemma_acl_section(pre: Seq<u8>, letter: u8, acl: Option<AclModel>, post: Seq<u8>, m: SdModel, next: SdModel)
    requires
        acl matches Some(a) ==> aces_told(a.aces),
        starts_section(post),
        letter == 0x44 && m.dacl is None && next == (SdModel { dacl: acl, ..m }) || letter == 0x53 && m.sacl is None
            && next == (SdModel { sacl: acl, ..m }),
    ensures
        acl_section(letter, acl) is Ok,
        ({
            let t = acl_section(letter, acl)->Ok_0;
            let s = pre + t + post;
            sections_from(s, pre.len() as int, m) == sections_from(s, (pre.len() + t.len()) as int, next)
        }),
        starts_section(acl_section(letter, acl)->Ok_0 + post),
{
    match acl {
        Some(a) => {
            lemma_acl(a);
            let body = acl_flags_text(a.flags) + aces_text(a.aces)->Ok_0;
            lemma_section(pre, letter, body, post, m, next);
        },
        None => {
            assert(m =~= next);
            assert(Seq::<u8>::empty() + post =~= post);
        },
    }
}

/// A descriptor is read back from its text.
#[verifier::spinoff_prover]
pub proof fn law_sd_text_reads_back(m: SdModel)
    requires
        sd_told(m),
        m != nothing(),
    ensures
        sd_text(m) is Ok,
        sd_of_text(sd_text(m)->Ok_0) == Ok::<SdModel, SddlErrorView>(m),
{
    let none = Seq::<u8>::empty();
    let m0 = nothing();
    let m1 = SdModel { owner: m.owner, ..m0 };
    let m2 = SdModel { group: m.group, ..m1 };
    let m3 = SdModel { dacl: m.dacl, ..m2 };
    let m4 = SdModel { sacl: m.sacl, ..m3 };
    assert(m4 =~= m);
    let o = sid_section(0x4f, m.owner);
    let g = sid_section(0x47, m.group);
    lemma_acl_section(none, 0x44, m.dacl, none, m2, m3);
    lemma_acl_section(none, 0x53, m.sacl, none, m3, m4);
    let d = acl_section(0x44, m.dacl)->Ok_0;
    let c = acl_section(0x53, m.sacl)->Ok_0;
    let s = o + g + d + c;
    lemma_acl_section(o + g + d, 0x53, m.sacl, none, m3, m4);
    assert(s =~= o + g + d + c + none);
    assert(c + none =~= c);
    lemma_acl_section(o + g, 0x44, m.dacl, c, m2, m3);
    assert(s =~= o + g + d + c);
    lemma_sid_section(o, 0x47, m.group, d + c, m1, m2);
    assert(s =~= o + g + (d + c));
    lemma_sid_section(none, 0x4f, m.owner, g + (d + c), m0, m1);
    assert(s =~= none + o + (g + (d + c)));
    reveal(sections_from);
    assert(sections_from(s, s.len() as int, m4) == Ok::<SdModel, SddlErrorView>(m));
    if s.len() == 0 {
        assert(m.owner is None && m.group is None && m.dacl is None && m.sacl is None);
        assert(m =~= nothing());
    }
}

/// The control bits of a built descriptor show the flags of its lists.
proof fn lemma_control(m: SdModel)
    ensures
        ({
            let p = sd_parts(m);
            let c = built_control(p.control, m.sacl is Some, m.dacl is Some);
            &&& m.dacl matches Some(a) ==> flags_of_control(AclKind::Dacl, c) == a.flags
            &&& m.sacl matches Some(a) ==> flags_of_control(AclKind::Sacl, c) == a.flags
        }),
{
    let dt: u16 = if m.dacl is Some { 0x0004 } else { 0 };
    let st: u16 = if m.sacl is Some { 0x0010 } else { 0 };
    let dp: u16 = bit(m.dacl is Some && m.dacl->Some_0.flags.protected, 0x1000);
    let dr: u16 = bit(m.dacl is Some && m.dacl->Some_0.flags.inherit_req, 0x0100);
    let di: u16 = bit(m.dacl is Some && m.dacl->Some_0.flags.inherited, 0x0400);
    let sp: u16 = bit(m.sacl is Some && m.sacl->Some_0.flags.protected, 0x2000);
    let sr: u16 = bit(m.sacl is Some && m.sacl->Some_0.flags.inherit_req, 0x0200);
    let si: u16 = bit(m.sacl is Some && m.sacl->Some_0.flags.inherited, 0x0800);
    let c: u16 = 0x8000u16 | dt | st | (((dt | dp | dr | di) | (st | sp | sr | si)) & 0x7feb);
    assert(0u16 | 0u16 == 0u16) by (bit_vector);
    assert((c & 0x1000 != 0) == (dp != 0) && (c & 0x0100 != 0) == (dr != 0) && (c & 0x0400 != 0) == (di != 0) && (c & 0x2000
        != 0) == (sp != 0) && (c & 0x0200 != 0) == (sr != 0) && (c & 0x0800 != 0) == (si != 0)) by (bit_vector)
        requires
            c == 0x8000u16 | dt | st | (((dt | dp | dr | di) | (st | sp | sr | si)) & 0x7feb),
            dt == 0 || dt == 0x0004,
            st == 0 || st == 0x0010,
            dp == 0 || dp == 0x1000,
            dr == 0 || dr == 0x0100,
            di == 0 || di == 0x0400,
            sp == 0 || sp == 0x2000,
            sr == 0 || sr == 0x0200,
            si == 0 || si == 0x0800,
    ;
}

/// A built list shows its entries.
proof fn lemma_list(kind: AclKind, control: u16, m: Option<AclModel>)
    requires
        m matches Some(a) ==> buildable(a.aces) && flags_of_control(kind, control) == a.flags,
    ensures
        list_of(kind, control, Ok::<Option<Seq<u8>>, ParseError>(opt_acl(list_aces(m)))) == Some(m),
        opt_acl(list_aces(m)) matches Some(b) ==> is_acl(b),
{
    if let Some(a) = m {
        law_built_acl_reads_back(a.aces);
        let b = opt_acl(list_aces(m))->Some_0;
        assert(AclModel { flags: flags_of_control(kind, control), aces: acl_aces(b) } =~= a);
    }
}

/// What a descriptor was built from is what it says in text.
#[verifier::spinoff_prover]
pub proof fn law_built_sd_says(m: SdModel)
    requires
        m.owner matches Some(v) ==> v.wf(),
        m.group matches Some(v) ==> v.wf(),
        sd_buildable(sd_parts(m)),
    ensures
        built_sd(sd_parts(m)) is Ok,
        sd_fault(built_sd(sd_parts(m))->Ok_0) is None,
        sd_model(built_sd(sd_parts(m))->Ok_0) == Some(m),
{
    let p = sd_parts(m);
    let c = built_control(p.control, p.sacl is Some, p.dacl is Some);
    law_built_control(p.control, p.sacl is Some, p.dacl is Some);
    lemma_control(m);
    lemma_list(AclKind::Sacl, c, m.sacl);
    lemma_list(AclKind::Dacl, c, m.dacl);
    law_sd_round_trip(0, c, p.owner, p.group, opt_acl(p.sacl), opt_acl(p.dacl));
}

/// A descriptor goes from its binary form to its text and back.
pub proof fn law_sd_forms_agree(m: SdModel)
    requires
        sd_told(m),
        m != nothing(),
        sd_buildable(sd_parts(m)),
    ensures
        ({
            let b = built_sd(sd_parts(m))->Ok_0;
            &&& sd_fault(b) is None
            &&& sd_format(b) is Ok
            &&& sd_of_text(sd_format(b)->Ok_0) is Ok
            &&& built_sd(sd_parts(sd_of_text(sd_format(b)->Ok_0)->Ok_0)) == Ok::<Seq<u8>, Error>(b)
        }),
{
    law_sd_text_reads_back(m);
    law_built_sd_says(m);
}

} // verus!
