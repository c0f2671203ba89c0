//! The bytes of identifiers, entries, lists and descriptors, place by place.

use vstd::prelude::*;
use crate::bytes::{law_le16_reads_back, law_le32_reads_back, le16, le16_at, le32, le32_at};
use crate::error::Errno;
use crate::security::codec::{
    ace_at, ace_bytes, aces_at, aces_bytes, acl_aces, acl_at, acl_bytes, acl_complete, is_acl, lemma_sd_offsets,
    min_revision, needs_ds_revision, sd_bytes, sd_control, sd_dacl, sd_group, sd_header, sd_owner, sd_sacl,
    sid_component, AceRef, AceView, Acl, ParseError, SecurityDescriptor,
};
use crate::security::sddl::builders::{lemma_sd_bytes_len, AceBuilder};
use crate::security::sid::{
    encode_sid, law_sid_round_trip, peios_sid_build, peios_sid_equal, peios_sid_integrity, peios_sid_length,
    peios_sid_logon, peios_sid_rid, peios_sid_valid, peios_sid_well_known, sid_at, sid_bytes, sid_of, well_known, Sid,
    SidView,
};

verus! {

proof fn lemma_le16(pre: Seq<u8>, v: u16, post: Seq<u8>)
    ensures
        le16_at(pre + le16(v) + post, pre.len() as int) == v,
{
    let s = pre + le16(v) + post;
    assert(s.subrange(pre.len() as int, pre.len() as int + 2) =~= le16(v));
    law_le16_reads_back(s, pre.len() as int, v);
}

proof fn lemma_le32(pre: Seq<u8>, v: u32, post: Seq<u8>)
    ensures
        le32_at(pre + le32(v) + post, pre.len() as int) == v,
{
    let s = pre + le32(v) + post;
    assert(s.subrange(pre.len() as int, pre.len() as int + 4) =~= le32(v));
    law_le32_reads_back(s, pre.len() as int, v);
}

/// An identifier on the wire: revision 1, the number of words, the authority with its highest
/// byte first, and the words with their lowest byte first.
pub proof fn law_identifiers_on_the_wire(v: SidView)
    requires
        v.wf(),
    ensures
        ({
            let b = sid_bytes(v);
            &&& b.len() == 8 + 4 * v.subs.len()
            &&& b[0] == 1
            &&& b[1] == v.subs.len()
            &&& v.authority == 0x100_0000_0000 * b[2] + 0x1_0000_0000 * b[3] + 0x100_0000 * b[4] + 0x1_0000 * b[5]
                + 0x100 * b[6] + b[7]
            &&& forall|i: int| 0 <= i < v.subs.len() ==> #[trigger] v.subs[i] == le32_at(b, 8 + 4 * i)
        }),
{
    let b = sid_bytes(v);
    law_sid_round_trip(Seq::empty(), v, Seq::empty());
    assert(Seq::<u8>::empty() + b + Seq::<u8>::empty() =~= b);
    let r = sid_at(b, 0)->Some_0.0;
    assert(r == v);
    assert forall|i: int| 0 <= i < v.subs.len() implies #[trigger] v.subs[i] == le32_at(b, 8 + 4 * i) by {
        assert(r.subs[i] == le32_at(b, 0 + 8 + 4 * i));
    }
}

/// Reading an identifier: which bytes are one, and what they say.
pub proof fn law_identifiers_that_are_read(s: &[u8], p: usize, r: Option<(Sid, usize)>)
    requires
        call_ensures(Sid::parse_at, (s, p), r),
    ensures
        r is Some <==> p + 8 <= s@.len() && s@[p as int] == 1 && s@[p + 1] <= 15 && p + 8 + 4 * s@[p + 1] <= s@.len(),
        r matches Some((sid, end)) ==> {
            &&& end == p + 8 + 4 * s@[p + 1]
            &&& sid.revision == 1
            &&& sid.authority == 0x100_0000_0000 * s@[p + 2] + 0x1_0000_0000 * s@[p + 3] + 0x100_0000 * s@[p + 4]
                + 0x1_0000 * s@[p + 5] + 0x100 * s@[p + 6] + s@[p + 7]
            &&& sid.sub_authorities@.len() == s@[p + 1]
            &&& forall|i: int|
                0 <= i < s@[p + 1] ==> #[trigger] sid.sub_authorities@[i] == le32_at(s@, p + 8 + 4 * i)
        },
{
    if let Some((sid, end)) = r {
        let v = sid_at(s@, p as int)->Some_0.0;
        assert(v == sid@);
        assert forall|i: int| 0 <= i < s@[p + 1] implies #[trigger] sid.sub_authorities@[i] == le32_at(
            s@,
            p + 8 + 4 * i,
        ) by {
            assert(v.subs[i] == le32_at(s@, p + 8 + 4 * i));
        }
    }
}

/// Bytes that are one identifier and no more.
pub proof fn law_whole_identifiers(s: &[u8], r: Option<Sid>, valid: bool)
    requires
        call_ensures(Sid::parse, (s,), r),
        call_ensures(peios_sid_valid, (Some(s),), valid),
    ensures
        valid <==> s@.len() >= 8 && s@[0] == 1 && s@[1] <= 15 && s@.len() == 8 + 4 * s@[1],
        r is Some <==> valid,
        r matches Some(sid) ==> sid_at(s@, 0) == Some((sid@, s@.len() as int)),
{
}

proof fn lemma_reads_as(v: SidView)
    requires
        v.wf(),
    ensures
        sid_of(sid_bytes(v)) == Some(v),
{
    law_sid_round_trip(Seq::empty(), v, Seq::empty());
    assert(Seq::<u8>::empty() + sid_bytes(v) + Seq::<u8>::empty() =~= sid_bytes(v));
}

/// What is encoded is what is read.
pub proof fn law_encoded_identifiers(sid: Sid, out: Vec<u8>, authority: u64, subs: &[u32], bytes: Vec<u8>)
    requires
        sid.wf(),
        call_ensures(Sid::encode, (&sid,), out),
        authority < 0x1_0000_0000_0000,
        subs@.len() <= 15,
        call_ensures(encode_sid, (authority, subs), bytes),
    ensures
        sid_of(out@) == Some(SidView { authority: sid.authority, subs: sid.sub_authorities@ }),
        sid_of(bytes@) == Some(SidView { authority, subs: subs@ }),
{
    lemma_reads_as(sid@);
    lemma_reads_as(SidView { authority, subs: subs@ });
}

/// The identifiers that are known by number.
pub proof fn law_well_known_identifiers(which: i32, r: Result<Vec<u8>, Errno>)
    requires
        call_ensures(peios_sid_well_known, (which,), r),
    ensures
        r is Ok <==> 0 <= which <= 12,
        r matches Err(e) ==> e == Errno::Inval,
        r matches Ok(out) ==> {
            let v = sid_of(out@)->Some_0;
            &&& sid_of(out@) is Some
            &&& which == 0 ==> v.authority == 0 && v.subs == seq![0u32]
            &&& which == 1 ==> v.authority == 1 && v.subs == seq![0u32]
            &&& which == 2 ==> v.authority == 2 && v.subs == seq![0u32]
            &&& which == 3 ==> v.authority == 3 && v.subs == seq![0u32]
            &&& which == 4 ==> v.authority == 3 && v.subs == seq![1u32]
            &&& which == 5 ==> v.authority == 3 && v.subs == seq![4u32]
            &&& which == 6 ==> v.authority == 5 && v.subs == seq![7u32]
            &&& which == 7 ==> v.authority == 5 && v.subs == seq![10u32]
            &&& which == 8 ==> v.authority == 5 && v.subs == seq![11u32]
            &&& which == 9 ==> v.authority == 5 && v.subs == seq![18u32]
            &&& which == 10 ==> v.authority == 5 && v.subs == seq![19u32]
            &&& which == 11 ==> v.authority == 5 && v.subs == seq![20u32]
            &&& which == 12 ==> v.authority == 5 && v.subs == seq![32u32, 544u32]
        },
{
    if let Ok(out) = r {
        lemma_reads_as(well_known(which)->Some_0);
    }
}

/// Integrity levels are under authority 16; logon sessions are under authority 5 behind a 5,
/// the higher half of their number first.
pub proof fn law_levels_and_sessions(level: u32, session: u64, a: Vec<u8>, b: Vec<u8>)
    requires
        call_ensures(peios_sid_integrity, (level,), a),
        call_ensures(peios_sid_logon, (session,), b),
    ensures
        sid_of(a@) == Some(SidView { authority: 16, subs: seq![level] }),
        sid_of(b@) matches Some(v) && v.authority == 5 && v.subs.len() == 3 && v.subs[0] == 5 && session
            == 0x1_0000_0000 * v.subs[1] + v.subs[2],
{
    lemma_reads_as(SidView { authority: 16, subs: seq![level] });
    let high = (session / 0x1_0000_0000) as u32;
    let low = (session % 0x1_0000_0000) as u32;
    lemma_reads_as(SidView { authority: 5, subs: seq![5u32, high, low] });
}

/// Which parts make an identifier.
pub proof fn law_built_identifiers(authority: u64, subs: Option<&[u32]>, count: usize, r: Result<Vec<u8>, Errno>)
    requires
        subs matches Some(s) ==> s@.len() == count,
        call_ensures(peios_sid_build, (authority, subs, count), r),
    ensures
        r is Ok <==> authority < 0x1_0000_0000_0000 && count <= 15 && (count == 0 || subs is Some),
        r matches Err(e) ==> e == Errno::Inval,
        r matches Ok(out) ==> sid_of(out@) matches Some(v) && v.authority == authority && v.subs.len() == count && (count
            > 0 ==> v.subs == subs->Some_0@),
{
    if let Ok(out) = r {
        lemma_reads_as(
            SidView {
                authority,
                subs: if count == 0 {
                    Seq::empty()
                } else {
                    subs->Some_0@
                },
            },
        );
    }
}

/// The last word, the length and equality of identifiers.
pub proof fn law_questions_about_identifiers(a: &[u8], b: &[u8], alen: usize, blen: usize, rid: u32, n: usize, same: bool)
    requires
        2 <= a@.len() == alen,
        b@.len() == blen,
        call_ensures(peios_sid_rid, (Some(a),), rid),
        call_ensures(peios_sid_length, (Some(a),), n),
        call_ensures(peios_sid_equal, (Some(a), alen, Some(b), blen), same),
    ensures
        a@.len() >= 12 && a@[0] == 1 && a@[1] <= 15 && a@.len() == 8 + 4 * a@[1] ==> rid == le32_at(a@, a@.len() - 4),
        sid_of(a@) is None || a@[1] == 0 ==> rid == 0,
        n == 8 + 4 * a@[1],
        same <==> a@ =~= b@,
{
    if a@.len() >= 12 && a@[0] == 1 && a@[1] <= 15 && a@.len() == 8 + 4 * a@[1] {
        let v = sid_of(a@)->Some_0;
        assert(v.subs.last() == le32_at(a@, 0 + 8 + 4 * (a@[1] - 1)));
    }
}

/// An entry on the wire: its type, its flags, its size and its body.
pub proof fn law_entries_on_the_wire(ace: AceBuilder, b: Vec<u8>)
    requires
        ace.body@.len() + 4 <= 0xffff,
        call_ensures(AceBuilder::build, (&ace,), b),
    ensures
        b@.len() == 4 + ace.body@.len(),
        b@[0] == ace.ace_type,
        b@[1] == ace.flags,
        le16_at(b@, 2) == b@.len(),
        b@.subrange(4, b@.len() as int) == ace.body@,
{
    let n = (4 + ace.body@.len()) as u16;
    lemma_le16(seq![ace.ace_type, ace.flags], n, ace.body@);
    assert(b@.subrange(4, b@.len() as int) =~= ace.body@);
}

/// Reading an entry.
pub proof fn law_entries_that_are_read(s: &[u8], p: usize, r: Option<AceRef>)
    requires
        call_ensures(AceRef::parse_at, (s, p), r),
    ensures
        r is Some <==> p + 4 <= s@.len() && le16_at(s@, p + 2) >= 4 && le16_at(s@, p + 2) % 4 == 0 && p + le16_at(
            s@,
            p + 2,
        ) <= s@.len(),
        r matches Some(ace) ==> {
            &&& ace.ace_type == s@[p as int]
            &&& ace.flags == s@[p + 1]
            &&& ace.size == le16_at(s@, p + 2)
            &&& ace.body@ == s@.subrange(p + 4, p + le16_at(s@, p + 2))
        },
{
    if let Some(ace) = r {
        assert(ace@.body.len() == le16_at(s@, p + 2) - 4);
    }
}

/// The mask and the identifier of a plain entry.
pub proof fn law_mask_and_identifier(ace: AceRef, r: Option<(u32, Sid)>)
    requires
        call_ensures(AceRef::as_mask_sid, (&ace,), r),
    ensures
        r matches Some((mask, sid)) ==> mask == le32_at(ace.body@, 0) && sid_at(ace.body@, 4) == Some(
            (sid@, ace.body@.len() as int),
        ),
        r is Some <==> ace.body@.len() >= 4 && (sid_at(ace.body@, 4) matches Some((_, end)) && end == ace.body@.len()),
{
}

/// Entries of a kind, from a principal and a mask.
pub proof fn law_plain_entries(sid: Sid, mask: u32, t: u8, allow: AceBuilder, deny: AceBuilder, audit: AceBuilder, other: AceBuilder)
    requires
        sid.wf(),
        call_ensures(AceBuilder::allow, (&sid, mask), allow),
        call_ensures(AceBuilder::deny, (&sid, mask), deny),
        call_ensures(AceBuilder::audit, (&sid, mask), audit),
        call_ensures(AceBuilder::mask_sid, (t, &sid, mask), other),
    ensures
        allow.ace_type == 0 && deny.ace_type == 1 && audit.ace_type == 2 && other.ace_type == t,
        allow.flags == 0 && deny.flags == 0 && audit.flags == 0 && other.flags == 0,
        allow.body@ == deny.body@ && deny.body@ == audit.body@ && audit.body@ == other.body@,
        le32_at(allow.body@, 0) == mask,
        sid_at(allow.body@, 4) == Some((sid@, allow.body@.len() as int)),
{
    let w = le32(mask);
    lemma_le32(Seq::empty(), mask, sid_bytes(sid@));
    law_sid_round_trip(w, sid@, Seq::empty());
    assert(allow@.body == w + sid_bytes(sid@));
    assert(deny@.body == w + sid_bytes(sid@));
    assert(audit@.body == w + sid_bytes(sid@));
    assert(other@.body == w + sid_bytes(sid@));
    assert(w + sid_bytes(sid@) + Seq::<u8>::empty() =~= allow.body@);
    assert(Seq::<u8>::empty() + w + sid_bytes(sid@) =~= allow.body@);
    assert(w.len() == 4);
}

/// Entries follow one another.
pub proof fn law_entries_in_a_row(a: Seq<AceView>, b: Seq<AceView>, one: AceView)
    ensures
        aces_bytes(Seq::empty()) == Seq::<u8>::empty(),
        aces_bytes(seq![one]) == ace_bytes(one),
        aces_bytes(a + b) == aces_bytes(a) + aces_bytes(b),
    decreases b.len(),
{
    assert(seq![one].drop_last() =~= Seq::empty());
    reveal_with_fuel(aces_bytes, 2);
    assert(aces_bytes(seq![one]) =~= ace_bytes(one));
    if b.len() == 0 {
        assert(a + b =~= a);
        assert(aces_bytes(a) + aces_bytes(b) =~= aces_bytes(a));
    } else {
        law_entries_in_a_row(a, b.drop_last(), one);
        assert((a + b).drop_last() =~= a + b.drop_last());
        assert((a + b).last() == b.last());
        assert(aces_bytes(a) + aces_bytes(b) =~= aces_bytes(a) + aces_bytes(b.drop_last()) + ace_bytes(b.last()));
    }
}

/// Reading entries one behind another, up to a number or the first that is none.
pub proof fn law_entries_are_read_in_turn(s: Seq<u8>, p: int, count: nat)
    ensures
        aces_at(s, p, 0) == Seq::<AceView>::empty(),
        ace_at(s, p) is None ==> aces_at(s, p, count) == Seq::<AceView>::empty(),
        count > 0 ==> (ace_at(s, p) matches Some(a) ==> aces_at(s, p, count) == seq![a] + aces_at(
            s,
            p + le16_at(s, p + 2),
            (count - 1) as nat,
        )),
{
    if let Some(a) = ace_at(s, p) {
        assert(a.body.len() == le16_at(s, p + 2) - 4);
    }
}

/// The revision a list needs: 4 where an entry is of types 5 to 16, else 2.
pub proof fn law_revisions_of_lists(aces: Seq<AceView>)
    ensures
        min_revision(aces) == 2 || min_revision(aces) == 4,
        min_revision(aces) == 4 <==> exists|i: int| 0 <= i < aces.len() && 5 <= (#[trigger] aces[i]).ace_type <= 16,
{
    if exists|i: int| 0 <= i < aces.len() && 5 <= (#[trigger] aces[i]).ace_type <= 16 {
        let i = choose|i: int| 0 <= i < aces.len() && 5 <= (#[trigger] aces[i]).ace_type <= 16;
        assert(needs_ds_revision(aces[i].ace_type));
    }
}

/// A list on the wire: revision, a byte, its size, the number of entries, two zero bytes, the
/// entries.
pub proof fn law_lists_on_the_wire(revision: u8, second: u8, aces: Seq<AceView>)
    requires
        8 + aces_bytes(aces).len() <= 0xffff,
        aces.len() <= 0xffff,
    ensures
        ({
            let b = acl_bytes(revision, second, aces);
            &&& b.len() == 8 + aces_bytes(aces).len()
            &&& b[0] == revision
            &&& b[1] == second
            &&& le16_at(b, 2) == b.len()
            &&& le16_at(b, 4) == aces.len()
            &&& b[6] == 0 && b[7] == 0
            &&& b.subrange(8, b.len() as int) == aces_bytes(aces)
        }),
{
    let b = acl_bytes(revision, second, aces);
    let size = (8 + aces_bytes(aces).len()) as u16;
    let n = aces.len() as u16;
    let rest = seq![0u8, 0u8] + aces_bytes(aces);
    lemma_le16(seq![revision, second], size, le16(n) + rest);
    lemma_le16(seq![revision, second] + le16(size), n, rest);
    assert(b =~= seq![revision, second] + le16(size) + (le16(n) + rest));
    assert(b =~= seq![revision, second] + le16(size) + le16(n) + rest);
    assert(b.subrange(8, b.len() as int) =~= aces_bytes(aces));
}

/// Reading a list.
pub proof fn law_lists_that_are_read(s: &[u8], p: usize, r: Result<Acl, ParseError>)
    requires
        call_ensures(Acl::parse_at, (s, p), r),
    ensures
        r is Ok <==> p + 8 <= s@.len() && le16_at(s@, p + 2) >= 8 && p + le16_at(s@, p + 2) <= s@.len(),
        p + 8 > s@.len() <==> r == Err::<Acl, ParseError>(ParseError::AclTooShort),
        r matches Err(e) ==> e == ParseError::AclTooShort || e == ParseError::AclSizeOutOfBounds,
        r matches Ok(acl) ==> {
            &&& acl.bytes@ == s@.subrange(p as int, p + le16_at(s@, p + 2))
            &&& acl.revision == s@[p as int]
            &&& acl.size == le16_at(s@, p + 2)
            &&& acl.ace_count == le16_at(s@, p + 4)
        },
{
    if let Ok(acl) = r {
        let b = s@.subrange(p as int, p + le16_at(s@, p + 2));
    }
}

/// The entries of a list: those behind its first eight bytes, as many as it names.
pub proof fn law_entries_of_a_list(acl: Seq<u8>)
    ensures
        acl_aces(acl) == aces_at(acl, 8, le16_at(acl, 4) as nat),
        acl_complete(acl) <==> acl_aces(acl).len() == le16_at(acl, 4),
        is_acl(acl) <==> acl.len() >= 8 && le16_at(acl, 2) == acl.len(),
{
    if acl.len() >= 8 && le16_at(acl, 2) == acl.len() {
        assert(acl.subrange(0, acl.len() as int) =~= acl);
    }
    if is_acl(acl) {
        assert(acl.subrange(0, 0 + le16_at(acl, 2)).len() == le16_at(acl, 2));
    }
}

proof fn lemma_part_places(h: Seq<u8>, o: Seq<u8>, g: Seq<u8>, a: Seq<u8>, d: Seq<u8>)
    ensures
        ({
            let b = h + o + g + a + d;
            let n = h.len() as int;
            &&& b.subrange(n, n + o.len()) == o
            &&& b.subrange(n + o.len(), n + o.len() + g.len()) == g
            &&& b.subrange(n + o.len() + g.len(), n + o.len() + g.len() + a.len()) == a
            &&& b.subrange(n + o.len() + g.len() + a.len(), b.len() as int) == d
            &&& b.len() == n + o.len() + g.len() + a.len() + d.len()
        }),
{
    let b = h + o + g + a + d;
    let n = h.len() as int;
    assert(b.subrange(n, n + o.len()) =~= o);
    assert(b.subrange(n + o.len(), n + o.len() + g.len()) =~= g);
    assert(b.subrange(n + o.len() + g.len(), n + o.len() + g.len() + a.len()) =~= a);
    assert(b.subrange(n + o.len() + g.len() + a.len(), b.len() as int) =~= d);
}

/// A descriptor on the wire: revision 1, a byte, the control word, where its owner, its group,
/// its audit list and its access list begin (zero for none), and these in that order.
#[verifier::spinoff_prover]
pub proof fn law_descriptors_on_the_wire(
    second: u8,
    control: u16,
    owner: Seq<u8>,
    group: Seq<u8>,
    sacl: Seq<u8>,
    dacl: Seq<u8>,
)
    requires
        20 + owner.len() + group.len() + sacl.len() + dacl.len() <= u32::MAX,
    ensures
        ({
            let b = sd_bytes(second, control, Some(owner), Some(group), Some(sacl), Some(dacl));
            let o = le32_at(b, 4) as int;
            let g = le32_at(b, 8) as int;
            let s = le32_at(b, 12) as int;
            let d = le32_at(b, 16) as int;
            &&& b[0] == 1
            &&& b[1] == second
            &&& le16_at(b, 2) == control
            &&& o == 20
            &&& g == o + owner.len()
            &&& s == g + group.len()
            &&& d == s + sacl.len()
            &&& b.len() == d + dacl.len()
            &&& b.subrange(o, g) == owner
            &&& b.subrange(g, s) == group
            &&& b.subrange(s, d) == sacl
            &&& b.subrange(d, b.len() as int) == dacl
        }),
{
    let b = sd_bytes(second, control, Some(owner), Some(group), Some(sacl), Some(dacl));
    lemma_sd_offsets(second, control, Some(owner), Some(group), Some(sacl), Some(dacl));
    lemma_sd_bytes_len(second, control, Some(owner), Some(group), Some(sacl), Some(dacl));
    let g = (20 + owner.len()) as u32;
    let s = (g + group.len()) as u32;
    let d = (s + sacl.len()) as u32;
    let h = sd_header(second, control, 20, g, s, d);
    lemma_header(second, control, 20, g, s, d, owner + group + sacl + dacl);
    assert(b == h + owner + group + sacl + dacl);
    assert(b =~= h + (owner + group + sacl + dacl));
    lemma_part_places(h, owner, group, sacl, dacl);
}

proof fn lemma_header(second: u8, control: u16, o: u32, g: u32, s: u32, d: u32, rest: Seq<u8>)
    ensures
        ({
            let b = sd_header(second, control, o, g, s, d) + rest;
            &&& sd_header(second, control, o, g, s, d).len() == 20
            &&& b[0] == 1
            &&& b[1] == second
            &&& le16_at(b, 2) == control
        }),
{
    let b = sd_header(second, control, o, g, s, d) + rest;
    let tail = le32(o) + le32(g) + le32(s) + le32(d) + rest;
    lemma_le16(seq![1u8, second], control, tail);
    assert(b =~= seq![1u8, second] + le16(control) + tail);
}

/// Parts that a descriptor has not are at zero and take no room.
pub proof fn law_absent_parts(second: u8, control: u16, owner: Option<Seq<u8>>, group: Option<Seq<u8>>, sacl: Option<Seq<u8>>, dacl: Option<Seq<u8>>)
    ensures
        ({
            let b = sd_bytes(second, control, owner, group, sacl, dacl);
            &&& owner is None ==> le32_at(b, 4) == 0
            &&& group is None ==> le32_at(b, 8) == 0
            &&& sacl is None ==> le32_at(b, 12) == 0
            &&& dacl is None ==> le32_at(b, 16) == 0
            &&& owner is None && group is None && sacl is None && dacl is None ==> b.len() == 20
            &&& owner is None && group is None && sacl is None ==> (dacl matches Some(x) ==> le32_at(b, 16) == 20
                && b.len() == 20 + x.len())
        }),
{
    lemma_sd_offsets(second, control, owner, group, sacl, dacl);
    lemma_sd_bytes_len(second, control, owner, group, sacl, dacl);
}

/// Where the parts of a descriptor are read.
pub proof fn law_parts_of_a_descriptor(s: Seq<u8>, off: u32)
    ensures
        sd_control(s) == le16_at(s, 2),
        sd_owner(s) == sid_component(s, le32_at(s, 4)),
        sd_group(s) == sid_component(s, le32_at(s, 8)),
        le16_at(s, 2) & 0x0010 == 0 || le32_at(s, 12) == 0 ==> sd_sacl(s) == Ok::<Option<Seq<u8>>, ParseError>(None),
        le16_at(s, 2) & 0x0004 == 0 || le32_at(s, 16) == 0 ==> sd_dacl(s) == Ok::<Option<Seq<u8>>, ParseError>(None),
        le16_at(s, 2) & 0x0010 != 0 && 0 < le32_at(s, 12) <= s.len() ==> (acl_at(s, le32_at(s, 12) as int) matches Ok(b)
            ==> sd_sacl(s) == Ok::<Option<Seq<u8>>, ParseError>(Some(b))),
        le16_at(s, 2) & 0x0004 != 0 && 0 < le32_at(s, 16) <= s.len() ==> (acl_at(s, le32_at(s, 16) as int) matches Ok(b)
            ==> sd_dacl(s) == Ok::<Option<Seq<u8>>, ParseError>(Some(b))),
        le16_at(s, 2) & 0x0010 != 0 && le32_at(s, 12) > s.len() ==> sd_sacl(s) == Err::<Option<Seq<u8>>, ParseError>(
            ParseError::SdOffsetOutOfBounds,
        ),
        le16_at(s, 2) & 0x0004 != 0 && le32_at(s, 16) > s.len() ==> sd_dacl(s) == Err::<Option<Seq<u8>>, ParseError>(
            ParseError::SdOffsetOutOfBounds,
        ),
        sid_component(s, 0) == Ok::<Option<SidView>, ParseError>(None),
        off > s.len() ==> sid_component(s, off) == Err::<Option<SidView>, ParseError>(ParseError::SdOffsetOutOfBounds),
        0 < off <= s.len() && sid_at(s, off as int) is None ==> sid_component(s, off) == Err::<
            Option<SidView>,
            ParseError,
        >(ParseError::SidMalformed),
        0 < off <= s.len() ==> (sid_at(s, off as int) matches Some((v, _)) ==> sid_component(s, off) == Ok::<
            Option<SidView>,
            ParseError,
        >(Some(v))),
{
}

/// Which bytes are read as a descriptor, and what its fields are.
pub proof fn law_descriptors_that_are_read(s: &[u8], r: Result<SecurityDescriptor, ParseError>)
    requires
        call_ensures(SecurityDescriptor::parse, (s,), r),
    ensures
        r is Ok <==> s@.len() >= 20 && s@[0] == 1 && sd_owner(s@) is Ok && sd_group(s@) is Ok,
        s@.len() < 20 <==> r == Err::<SecurityDescriptor, ParseError>(ParseError::SdTooShort),
        s@.len() >= 20 && s@[0] != 1 ==> r == Err::<SecurityDescriptor, ParseError>(ParseError::SdBadRevision),
        r matches Ok(sd) ==> {
            &&& sd.revision == 1
            &&& sd.sbz1 == s@[1]
            &&& sd.control == le16_at(s@, 2)
            &&& sd.owner_off == le32_at(s@, 4)
            &&& sd.group_off == le32_at(s@, 8)
            &&& sd.sacl_off == le32_at(s@, 12)
            &&& sd.dacl_off == le32_at(s@, 16)
            &&& sd.bytes@ == s@
            &&& sd.owner is None <==> le32_at(s@, 4) == 0
            &&& sd.group is None <==> le32_at(s@, 8) == 0
            &&& sd.owner matches Some(x) ==> sid_at(s@, le32_at(s@, 4) as int)->Some_0.0 == x@
            &&& sd.group matches Some(x) ==> sid_at(s@, le32_at(s@, 8) as int)->Some_0.0 == x@
        },
{
}

} // verus!
