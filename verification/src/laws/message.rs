//! Messages with a token and descriptors: the control buffer on the wire, and who gets what.

use vstd::prelude::*;
use crate::bytes::{law_le32_reads_back, law_le64_reads_back, le32, le32_at, le64, le64_at};
use crate::error::Errno;
use crate::token::message::{
    build_send_control, cmsg_bytes, cmsgs_at, cmsgs_bytes, deliver_control, delivered, fd_arrives, fd_bytes,
    fds_arrive, fds_of, law_fds_read_back, law_sent_is_received, receive_answer, receive_control_len, receive_flags,
    send_control, sent, tokens_arrive, CmsgView, Delivered, Received,
};

verus! {

/// The descriptors that control messages of one level and kind bring, in order.
pub open spec fn brought(ms: Seq<CmsgView>, level: i32, kind: i32) -> Seq<i32>
    decreases ms.len(),
{
    if ms.len() == 0 {
        Seq::empty()
    } else if ms.last().level == level && ms.last().kind == kind {
        brought(ms.drop_last(), level, kind) + fds_of(ms.last().data)
    } else {
        brought(ms.drop_last(), level, kind)
    }
}

proof fn lemma_rights(d: Delivered, fds: Seq<i32>, cap: nat, before: Seq<i32>)
    requires
        d.fds == before.take(if before.len() < cap {
            before.len() as int
        } else {
            cap as int
        }),
    ensures
        ({
            let all = before + fds;
            let e = fds_arrive(d, fds, cap);
            &&& e.fds == all.take(if all.len() < cap {
                all.len() as int
            } else {
                cap as int
            })
            &&& e.token_fd == d.token_fd
        }),
    decreases fds.len(),
{
    let all = before + fds;
    if fds.len() == 0 {
        assert(all =~= before);
    } else {
        let front = fds.drop_last();
        lemma_rights(d, front, cap, before);
        let e = fds_arrive(d, front, cap);
        let less = before + front;
        assert(all =~= less.push(fds.last()));
        assert(fds_arrive(d, fds, cap) == fd_arrives(e, fds.last(), cap));
        assert(fd_arrives(e, fds.last(), cap).fds =~= all.take(if all.len() < cap {
            all.len() as int
        } else {
            cap as int
        }));
    }
}

proof fn lemma_tokens(d: Delivered, fds: Seq<i32>)
    requires
        forall|i: int| 0 <= i < fds.len() ==> fds[i] >= 0,
    ensures
        tokens_arrive(d, fds).fds == d.fds,
        tokens_arrive(d, fds).token_fd == (if d.token_fd >= 0 || fds.len() == 0 {
            d.token_fd
        } else {
            fds[0]
        }),
    decreases fds.len(),
{
    if fds.len() > 0 {
        lemma_tokens(d, fds.drop_last());
    }
}

/// Who gets what of a message: the caller gets the first descriptors that the messages of level
/// 1 and kind 1 bring, in order and up to the room there is, whether or not a token came along.
pub proof fn law_the_first_descriptors_are_delivered(ms: Seq<CmsgView>, cap: nat)
    ensures
        ({
            let all = brought(ms, 1, 1);
            delivered(ms, cap).fds == all.take(if all.len() < cap {
                all.len() as int
            } else {
                cap as int
            })
        }),
    decreases ms.len(),
{
    if ms.len() == 0 {
        assert(delivered(ms, cap).fds =~= Seq::<i32>::empty());
        assert(brought(ms, 1, 1).take(0) =~= Seq::<i32>::empty());
    } else {
        let front = ms.drop_last();
        law_the_first_descriptors_are_delivered(front, cap);
        let d = delivered(front, cap);
        let m = ms.last();
        if m.level == 4096 && m.kind == 1 {
            lemma_tokens_keep(d, fds_of(m.data));
        } else if m.level == 1 && m.kind == 1 {
            lemma_rights(d, fds_of(m.data), cap, brought(front, 1, 1));
        }
    }
}

proof fn lemma_tokens_keep(d: Delivered, fds: Seq<i32>)
    ensures
        tokens_arrive(d, fds).fds == d.fds,
    decreases fds.len(),
{
    if fds.len() > 0 {
        lemma_tokens_keep(d, fds.drop_last());
    }
}

proof fn lemma_rights_keep(d: Delivered, fds: Seq<i32>, cap: nat)
    ensures
        fds_arrive(d, fds, cap).token_fd == d.token_fd,
    decreases fds.len(),
{
    if fds.len() > 0 {
        lemma_rights_keep(d, fds.drop_last(), cap);
    }
}

/// The token of a message is the first that the messages of level 4096 and kind 1 bring, and
/// there is none where they bring none, whatever descriptors came along.
pub proof fn law_the_first_token_is_delivered(ms: Seq<CmsgView>, cap: nat)
    requires
        forall|i: int| 0 <= i < brought(ms, 4096, 1).len() ==> brought(ms, 4096, 1)[i] >= 0,
    ensures
        delivered(ms, cap).token_fd == (if brought(ms, 4096, 1).len() > 0 {
            brought(ms, 4096, 1)[0]
        } else {
            -1i32
        }),
    decreases ms.len(),
{
    if ms.len() > 0 {
        let front = ms.drop_last();
        let before = brought(front, 4096, 1);
        let all = brought(ms, 4096, 1);
        let d = delivered(front, cap);
        let m = ms.last();
        assert forall|i: int| 0 <= i < before.len() implies before[i] >= 0 by {
            assert(all[i] == before[i]);
        }
        law_the_first_token_is_delivered(front, cap);
        if m.level == 4096 && m.kind == 1 {
            let fds = fds_of(m.data);
            assert forall|i: int| 0 <= i < fds.len() implies fds[i] >= 0 by {
                assert(all[before.len() + i] == fds[i]);
            }
            lemma_tokens(d, fds);
            if fds.len() > 0 && before.len() == 0 {
                assert(all[0] == fds[0]);
            }
        } else if m.level == 1 && m.kind == 1 {
            lemma_rights_keep(d, fds_of(m.data), cap);
        }
    }
}

proof fn lemma_words_of(fd: i32)
    requires
        fd >= 0,
    ensures
        fds_of(le32(fd as u32)) == seq![fd],
{
    let b = le32(fd as u32);
    assert(b.subrange(0, 4) =~= b);
    law_le32_reads_back(b, 0, fd as u32);
    assert((fd as u32) as i32 == fd) by (bit_vector);
    assert(fds_of(b) =~= seq![fd]);
}

proof fn lemma_sent(token_fd: i32, fds: Seq<i32>)
    ensures
        brought(sent(token_fd, fds), 1, 1) == fds,
        brought(sent(token_fd, fds), 4096, 1) == (if token_fd >= 0 {
            seq![token_fd]
        } else {
            Seq::<i32>::empty()
        }),
{
    let ms = sent(token_fd, fds);
    reveal_with_fuel(brought, 3);
    law_fds_read_back(fds);
    if token_fd >= 0 {
        lemma_words_of(token_fd);
    }
    if ms.len() == 2 {
        assert(ms.drop_last() =~= seq![ms[0]]);
        assert(seq![ms[0]].drop_last() =~= Seq::<CmsgView>::empty());
    } else if ms.len() == 1 {
        assert(ms.drop_last() =~= Seq::<CmsgView>::empty());
    }
    assert(brought(ms, 1, 1) =~= fds);
    assert(brought(ms, 4096, 1) =~= if token_fd >= 0 {
        seq![token_fd]
    } else {
        Seq::<i32>::empty()
    });
}

/// What one side attaches, the other side gets: the token if there was one and none if not, and
/// the first descriptors up to the room, with or without a token.
pub proof fn law_messages_arrive(
    token_fd: i32,
    fds: &[i32],
    flags: i32,
    cap: u32,
    control: Vec<u8>,
    arrived: &[u8],
    r: Received,
)
    requires
        fds@.len() <= 253,
        call_ensures(build_send_control, (token_fd, fds), control),
        arrived@ == control@,
        call_ensures(deliver_control, (arrived, flags, cap), r),
    ensures
        token_fd >= 0 ==> r.token_fd == token_fd,
        token_fd < 0 ==> r.token_fd == -1,
        fds@.len() <= cap ==> r.fds@ == fds@,
        fds@.len() > cap ==> r.fds@ == fds@.take(cap as int),
{
    let ms = sent(token_fd, fds@);
    law_sent_is_received(token_fd, fds@);
    lemma_sent(token_fd, fds@);
    law_the_first_descriptors_are_delivered(ms, cap as nat);
    law_the_first_token_is_delivered(ms, cap as nat);
    assert(fds@.take(fds@.len() as int) =~= fds@);
}

/// The bytes of one control message by itself.
proof fn lemma_alone(m: CmsgView)
    ensures
        cmsgs_bytes(seq![m]) == cmsg_bytes(m),
{
    assert(seq![m].drop_last() =~= Seq::<CmsgView>::empty());
    assert(cmsgs_bytes(Seq::<CmsgView>::empty()) =~= Seq::<u8>::empty());
    assert(cmsgs_bytes(seq![m]) =~= cmsg_bytes(m));
}

proof fn lemma_only_a_token(token_fd: i32, fds: Seq<i32>)
    requires
        token_fd >= 0,
        fds.len() == 0,
    ensures
        sent(token_fd, fds) == seq![CmsgView { level: 4096, kind: 1, data: le32(token_fd as u32) }],
{
    assert(sent(token_fd, fds) =~= seq![CmsgView { level: 4096, kind: 1, data: le32(token_fd as u32) }]);
}

proof fn lemma_only_descriptors(fds: Seq<i32>)
    requires
        fds.len() > 0,
    ensures
        sent(-1i32, fds) == seq![CmsgView { level: 1, kind: 1, data: fd_bytes(fds) }],
{
    assert(sent(-1i32, fds) =~= seq![CmsgView { level: 1, kind: 1, data: fd_bytes(fds) }]);
}

/// A control message on the wire: its length with the sixteen bytes before the data, the level,
/// the kind, the data, and zeros up to a multiple of eight.
#[verifier::spinoff_prover]
pub proof fn law_control_message_on_the_wire(m: CmsgView)
    requires
        m.data.len() <= 0xffff_ffff,
    ensures
        ({
            let b = cmsg_bytes(m);
            &&& le64_at(b, 0) == 16 + m.data.len()
            &&& le32_at(b, 8) == m.level as u32
            &&& le32_at(b, 12) == m.kind as u32
            &&& b.subrange(16, 16 + m.data.len() as int) == m.data
            &&& b.len() % 8 == 0
            &&& 16 + m.data.len() <= b.len() < 24 + m.data.len()
            &&& forall|i: int| 16 + m.data.len() <= i < b.len() ==> b[i] == 0
        }),
{
    let b = cmsg_bytes(m);
    let n = (16 + m.data.len()) as u64;
    assert(b.subrange(0, 8) =~= le64(n));
    law_le64_reads_back(b, 0, n);
    assert(b.subrange(8, 12) =~= le32(m.level as u32));
    law_le32_reads_back(b, 8, m.level as u32);
    assert(b.subrange(12, 16) =~= le32(m.kind as u32));
    law_le32_reads_back(b, 12, m.kind as u32);
    assert(b.subrange(16, 16 + m.data.len() as int) =~= m.data);
}

proof fn lemma_word_at(b: Seq<u8>, d: Seq<u8>, v: u32)
    requires
        d == le32(v),
        b.len() >= 20,
        b.subrange(16, 16 + d.len() as int) == d,
    ensures
        le32_at(b, 16) == v,
        d.len() == 4,
{
    assert(d.len() == 4);
    law_le32_reads_back(b, 16, v);
}

proof fn lemma_one_word(b: Seq<u8>, ms: Seq<CmsgView>, m: CmsgView)
    requires
        ms == seq![m],
        b == cmsgs_bytes(ms),
        m.data.len() == 4,
    ensures
        b.len() == 24,
        le64_at(b, 0) == 20,
        le32_at(b, 8) == m.level as u32,
        le32_at(b, 12) == m.kind as u32,
        b.subrange(16, 16 + m.data.len() as int) == m.data,
{
    lemma_alone(m);
    law_control_message_on_the_wire(m);
}

/// A token alone: one message of 24 bytes, of level 4096 and kind 1, with its number.
pub proof fn law_a_token_on_the_wire(token_fd: i32, fds: &[i32], control: Vec<u8>)
    requires
        token_fd >= 0,
        fds@.len() == 0,
        call_ensures(build_send_control, (token_fd, fds), control),
    ensures
        control@.len() == 24,
        le64_at(control@, 0) == 20,
        le32_at(control@, 8) == 4096u32,
        le32_at(control@, 12) == 1u32,
        le32_at(control@, 16) == token_fd as u32,
{
    let v = token_fd as u32;
    let m = CmsgView { level: 4096, kind: 1, data: le32(v) };
    lemma_only_a_token(token_fd, fds@);
    lemma_one_word(control@, sent(token_fd, fds@), m);
    lemma_word_at(control@, m.data, v);
}

/// Descriptors alone: one message of level 1 and kind 1, with four bytes for each.
#[verifier::spinoff_prover]
#[verifier::rlimit(40)]
pub proof fn law_descriptors_on_the_wire(fds: &[i32], control: Vec<u8>, i: int)
    requires
        0 < fds@.len() <= 253,
        0 <= i < fds@.len(),
        call_ensures(build_send_control, (-1i32, fds), control),
    ensures
        le64_at(control@, 0) == 16 + 4 * fds@.len(),
        le32_at(control@, 8) == 1,
        le32_at(control@, 12) == 1,
        le32_at(control@, 16 + 4 * i) == fds@[i] as u32,
{
    let m = CmsgView { level: 1, kind: 1, data: fd_bytes(fds@) };
    lemma_only_descriptors(fds@);
    lemma_alone(m);
    law_control_message_on_the_wire(m);
    let d = fd_bytes(fds@);
    let v = fds@[i] as u32;
    let p = 16 + 4 * i;
    assert forall|k: int| 0 <= k < 4 implies control@[p + k] == le32(v)[k] by {
        assert(control@.subrange(16, 16 + d.len() as int)[4 * i + k] == d[4 * i + k]);
        assert((4 * i + k) / 4 == i && (4 * i + k) % 4 == k);
    }
    assert(control@.subrange(p, p + 4) =~= le32(v));
    law_le32_reads_back(control@, p, v);
}

/// What is refused when sending: data or descriptors that are not there, and more than 253
/// descriptors.
pub proof fn law_sending_is_refused(null: bool, len: usize, token_fd: i32, fds: &[i32], r: Result<Vec<u8>, Errno>, n: Result<Vec<u8>, Errno>, count: u32)
    requires
        fds@.len() <= 253,
        call_ensures(send_control, (null, len, token_fd, Some(fds), fds@.len() as u32), r),
        call_ensures(send_control, (null, len, token_fd, None, count), n),
    ensures
        r is Err <==> null && len > 0,
        r is Err ==> r->Err_0 == Errno::Inval,
        n is Err <==> (null && len > 0) || count > 0,
        n is Err ==> n->Err_0 == Errno::Inval,
{
}

/// Sending hands over the control buffer of the token and the descriptors.
pub proof fn law_sending_builds_the_control(len: usize, token_fd: i32, fds: &[i32], r: Result<Vec<u8>, Errno>, control: Vec<u8>)
    requires
        fds@.len() <= 253,
        call_ensures(send_control, (false, len, token_fd, Some(fds), fds@.len() as u32), r),
        call_ensures(build_send_control, (token_fd, fds), control),
    ensures
        r matches Ok(c) && c@ == control@,
{
}

/// Room for receiving: 24 bytes for a token, and a message with up to 253 descriptors on top.
pub proof fn law_room_for_receiving(null: bool, cap: usize, fds_null: bool, fd_cap: u32, r: Result<usize, Errno>)
    requires
        call_ensures(receive_control_len, (null, cap, fds_null, fd_cap), r),
    ensures
        r is Err <==> (null && cap > 0) || (fds_null && fd_cap > 0),
        r is Err ==> r->Err_0 == Errno::Inval,
        r matches Ok(n) ==> {
            let k: int = if fd_cap < 253 {
                fd_cap as int
            } else {
                253
            };
            &&& fd_cap == 0 ==> n == 24
            &&& fd_cap > 0 ==> n % 8 == 0 && 40 + 4 * k <= n < 48 + 4 * k
        },
{
}

/// What a receive is asked for and what its answer means: close-on-exec is always added, a
/// failure gives nothing, and the flags tell which part was cut.
pub proof fn law_receiving(flags: i32, f: i32, result: isize, control: &[u8], len: usize, mf: i32, cap: u32, r: Option<(usize, Received)>)
    requires
        call_ensures(receive_flags, (flags,), f),
        call_ensures(receive_answer, (result, control, len, mf, cap), r),
    ensures
        f == flags | 0x4000_0000,
        r is None <==> result < 0,
        r matches Some((n, got)) ==> {
            &&& n == result
            &&& got.fds@.len() <= cap
            &&& mf & 0x20 == 0 && mf & 0x8 == 0 ==> got.flags == 0
            &&& mf & 0x20 != 0 && mf & 0x8 == 0 ==> got.flags == 1
            &&& mf & 0x20 == 0 && mf & 0x8 != 0 ==> got.flags == 2
            &&& mf & 0x20 != 0 && mf & 0x8 != 0 ==> got.flags == 3
        },
{
    if let Some((n, got)) = r {
        let part = control@.take(if len < control@.len() {
            len as int
        } else {
            control@.len() as int
        });
        law_the_first_descriptors_are_delivered(cmsgs_at(part, 0), cap as nat);
        assert(got.state().fds == got.fds@);
    }
}

/// Only the part of the control buffer that was filled counts, and of that all.
pub proof fn law_only_what_arrived_counts(result: isize, control: &[u8], len: usize, mf: i32, cap: u32, part: &[u8], r: Option<(usize, Received)>, d: Received)
    requires
        result >= 0,
        len <= control@.len(),
        part@ == control@.take(len as int),
        call_ensures(receive_answer, (result, control, len, mf, cap), r),
        call_ensures(deliver_control, (part, mf, cap), d),
    ensures
        r matches Some((_, got)) && got.token_fd == d.token_fd && got.fds@ == d.fds@ && got.closed@ == d.closed@ && got.flags
            == d.flags,
{
    if let Some((_, got)) = r {
        assert(got.state() == d.state());
        assert(got.state().fds == got.fds@ && d.state().fds == d.fds@);
        assert(got.state().closed == got.closed@ && d.state().closed == d.closed@);
        assert(got.state().token_fd == got.token_fd && d.state().token_fd == d.token_fd);
    }
}

} // verus!
