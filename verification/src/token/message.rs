//! Tokens and descriptors that travel with a message on a Unix socket. Their control buffer
//! has the layout of a 64-bit little-endian Linux: each control message has a length that
//! covers its 16-byte header, a level and a kind, then data, and starts on a multiple of
//! eight bytes.

use vstd::prelude::*;
use vstd::slice::slice_subrange;
use crate::bytes::{
    law_le32_reads_back, law_le64_reads_back, le32, le32_at, le64, le64_at, put_le32, put_le64, put_slice, rd_u32, rd_u64,
};
use crate::error::Errno;

verus! {

/// The level of control messages with a token.
pub const SOL_KACS: i32 = 4096;

/// The kind of control messages with a token.
pub const KACS_SCM_TOKEN: i32 = 1;

pub const SOL_SOCKET: i32 = 1;

/// The kind of control messages with descriptors.
pub const SCM_RIGHTS: i32 = 1;

/// The most descriptors that one message may carry.
pub const SCM_MAX_FD: u32 = 253;

pub const CMSG_HEADER: usize = 16;

pub const MSG_TRUNC: i32 = 0x20;

pub const MSG_CTRUNC: i32 = 0x8;

/// Descriptors that arrive are closed when the process runs another program.
pub const MSG_CMSG_CLOEXEC: i32 = 0x4000_0000;

/// The data did not fit.
pub const PEIOS_SOCKET_MSG_TRUNCATED: u32 = 0x1;

/// The tokens and descriptors did not fit.
pub const PEIOS_SOCKET_MSG_CTRUNCATED: u32 = 0x2;

/// Room up to the next multiple of eight.
pub open spec fn aligned(n: int) -> int {
    (n + 7) / 8 * 8
}

/// The room that data of a length takes, up to the next multiple of eight.
pub fn cmsg_align(len: usize) -> (r: usize)
    requires
        aligned(len as int) <= usize::MAX,
    ensures
        r == aligned(len as int),
{
    if len % 8 == 0 {
        len
    } else {
        len - len % 8 + 8
    }
}

/// The room that a control message with this much data takes.
pub fn cmsg_space(len: usize) -> (r: usize)
    requires
        16 + aligned(len as int) <= usize::MAX,
    ensures
        r == 16 + aligned(len as int),
{
    CMSG_HEADER + cmsg_align(len)
}

/// The length field of a control message with this much data.
pub fn cmsg_len(len: usize) -> (r: usize)
    requires
        16 + len <= usize::MAX,
    ensures
        r == 16 + len,
{
    CMSG_HEADER + len
}

/// What a control message says.
#[verifier::ext_equal]
pub struct CmsgView {
    pub level: i32,
    pub kind: i32,
    pub data: Seq<u8>,
}

/// Zero bytes.
pub open spec fn zeros(n: nat) -> Seq<u8> {
    Seq::new(n, |i: int| 0u8)
}

/// The bytes of a control message.
pub open spec fn cmsg_bytes(m: CmsgView) -> Seq<u8> {
    le64((16 + m.data.len()) as u64) + le32(m.level as u32) + le32(m.kind as u32) + m.data + zeros(
        (aligned(m.data.len() as int) - m.data.len()) as nat,
    )
}

/// The control message at `p`, if it is well-formed, and where the next one would start.
pub open spec fn cmsg_at(s: Seq<u8>, p: int) -> Option<(CmsgView, int)> {
    let n = le64_at(s, p) as int;
    if p < 0 || p + 16 > s.len() || n < 16 || p + n > s.len() {
        None
    } else {
        Some(
            (
                CmsgView {
                    level: le32_at(s, p + 8) as i32,
                    kind: le32_at(s, p + 12) as i32,
                    data: s.subrange(p + 16, p + n),
                },
                p + aligned(n),
            ),
        )
    }
}

/// The control messages from `p` on, up to the first malformed one.
pub open spec fn cmsgs_at(s: Seq<u8>, p: int) -> Seq<CmsgView>
    decreases s.len() + 8 - p,
{
    match cmsg_at(s, p) {
        None => Seq::empty(),
        Some((m, next)) => seq![m] + cmsgs_at(s, next),
    }
}

/// Numbers of descriptors as data.
pub open spec fn fd_bytes(fds: Seq<i32>) -> Seq<u8> {
    Seq::new(4 * fds.len(), |i: int| le32(fds[i / 4] as u32)[i % 4])
}

/// The control messages of a message that is sent: the token, if there is one, then the
/// descriptors, if there are any.
pub open spec fn sent(token_fd: i32, fds: Seq<i32>) -> Seq<CmsgView> {
    (if token_fd >= 0 {
        seq![CmsgView { level: SOL_KACS, kind: KACS_SCM_TOKEN, data: le32(token_fd as u32) }]
    } else {
        Seq::empty()
    }) + (if fds.len() > 0 {
        seq![CmsgView { level: SOL_SOCKET, kind: SCM_RIGHTS, data: fd_bytes(fds) }]
    } else {
        Seq::empty()
    })
}

/// Control messages one after the other.
pub open spec fn cmsgs_bytes(ms: Seq<CmsgView>) -> Seq<u8>
    decreases ms.len(),
{
    if ms.len() == 0 {
        Seq::empty()
    } else {
        cmsgs_bytes(ms.drop_last()) + cmsg_bytes(ms.last())
    }
}

/// Appends a control message.
pub fn push_cmsg(buf: &mut Vec<u8>, level: i32, kind: i32, data: &[u8])
    requires
        16 + aligned(data@.len() as int) <= usize::MAX,
    ensures
        final(buf)@ == old(buf)@ + cmsg_bytes(CmsgView { level, kind, data: data@ }),
{
    put_le64(buf, cmsg_len(data.len()) as u64);
    put_le32(buf, level as u32);
    put_le32(buf, kind as u32);
    put_slice(buf, data);
    let pad: usize = cmsg_align(data.len()) - data.len();
    let ghost fixed = buf@;
    let mut i: usize = 0;
    while i < pad
        invariant
            i <= pad,
            buf@ == fixed + zeros(i as nat),
        decreases pad - i,
    {
        buf.push(0);
        i = i + 1;
        assert(buf@ =~= fixed + zeros(i as nat));
    }
    assert(buf@ =~= old(buf)@ + cmsg_bytes(CmsgView { level, kind, data: data@ }));
}

/// The control buffer of a message that is sent.
pub fn build_send_control(token_fd: i32, fds: &[i32]) -> (control: Vec<u8>)
    requires
        16 + aligned(4 * fds@.len() as int) <= usize::MAX,
    ensures
        control@ == cmsgs_bytes(sent(token_fd, fds@)),
{
    let mut control: Vec<u8> = Vec::new();
    let ghost token = sent(token_fd, Seq::empty());
    if token_fd >= 0 {
        let mut data: Vec<u8> = Vec::new();
        put_le32(&mut data, token_fd as u32);
        assert(data@ =~= le32(token_fd as u32));
        push_cmsg(&mut control, SOL_KACS, KACS_SCM_TOKEN, data.as_slice());
        assert(token.drop_last() =~= Seq::<CmsgView>::empty());
        assert(token.last() == CmsgView { level: SOL_KACS, kind: KACS_SCM_TOKEN, data: data@ });
        assert(cmsgs_bytes(token.drop_last()) =~= Seq::<u8>::empty());
    }
    assert(control@ =~= cmsgs_bytes(token));
    if fds.len() > 0 {
        let mut data: Vec<u8> = Vec::new();
        let mut i: usize = 0;
        assert(data@ =~= fd_bytes(fds@.take(0)));
        while i < fds.len()
            invariant
                i <= fds@.len(),
                data@ == fd_bytes(fds@.take(i as int)),
            decreases fds@.len() - i,
        {
            put_le32(&mut data, fds[i] as u32);
            assert(data@ =~= fd_bytes(fds@.take(i + 1)));
            i = i + 1;
        }
        assert(fds@.take(i as int) =~= fds@);
        push_cmsg(&mut control, SOL_SOCKET, SCM_RIGHTS, data.as_slice());
        assert(sent(token_fd, fds@).drop_last() =~= token);
    } else {
        assert(sent(token_fd, fds@) =~= token);
    }
    control
}

/// How many descriptors of a request to send are looked at: none where there are too many.
pub fn fds_to_send(fd_count: u32) -> (n: usize)
    ensures
        n == (if fd_count <= SCM_MAX_FD {
            fd_count as int
        } else {
            0
        }),
{
    if fd_count <= SCM_MAX_FD {
        fd_count as usize
    } else {
        0
    }
}

/// The control buffer for a request to send, or why there is none.
pub fn send_control(
    buf_null: bool,
    len: usize,
    token_fd: i32,
    fds: Option<&[i32]>,
    fd_count: u32,
) -> (r: Result<Vec<u8>, Errno>)
    requires
        fds matches Some(f) ==> fd_count <= SCM_MAX_FD ==> f@.len() == fd_count,
    ensures
        match r {
            Ok(control) => {
                &&& !(buf_null && len != 0)
                &&& !(fds is None && fd_count != 0)
                &&& fd_count <= SCM_MAX_FD
                &&& control@ == cmsgs_bytes(
                    sent(
                        token_fd,
                        match fds {
                            Some(f) => f@,
                            None => Seq::empty(),
                        },
                    ),
                )
            },
            Err(e) => {
                &&& e == Errno::Inval
                &&& (buf_null && len != 0) || (fds is None && fd_count != 0) || fd_count > SCM_MAX_FD
            },
        },
{
    if (buf_null && len != 0) || (fds.is_none() && fd_count != 0) {
        return Err(Errno::Inval);
    }
    if fd_count > SCM_MAX_FD {
        return Err(Errno::Inval);
    }
    match fds {
        Some(fds) => Ok(build_send_control(token_fd, fds)),
        None => {
            let none: &[i32] = &[];
            assert(none@ =~= Seq::<i32>::empty());
            Ok(build_send_control(token_fd, none))
        },
    }
}

/// A control message inside a buffer.
#[derive(Clone, Copy)]
pub struct ParsedCmsg<'a> {
    pub level: i32,
    pub kind: i32,
    pub data: &'a [u8],
}

impl<'a> View for ParsedCmsg<'a> {
    type V = CmsgView;

    open spec fn view(&self) -> CmsgView {
        CmsgView { level: self.level, kind: self.kind, data: self.data@ }
    }
}

/// Control messages as what they say.
pub open spec fn cmsg_views(ms: Seq<ParsedCmsg>) -> Seq<CmsgView> {
    Seq::new(ms.len(), |i: int| ms[i]@)
}

proof fn lemma_aligned(n: int)
    requires
        0 <= n,
    ensures
        aligned(n) == (if n % 8 == 0 {
            n
        } else {
            n + 8 - n % 8
        }),
{
}

/// The control message at `p`, and where to look for the next one.
fn parse_cmsg<'a>(buf: &'a [u8], p: usize) -> (r: Option<(ParsedCmsg<'a>, usize)>)
    requires
        p <= buf@.len(),
    ensures
        match r {
            Some((m, next)) => {
                &&& p < next <= buf@.len()
                &&& cmsgs_at(buf@, p as int) == seq![m@] + cmsgs_at(buf@, next as int)
            },
            None => cmsgs_at(buf@, p as int) == Seq::<CmsgView>::empty(),
        },
{
    if buf.len() - p < CMSG_HEADER {
        return None;
    }
    let n: u64 = rd_u64(buf, p);
    if n < CMSG_HEADER as u64 || n > (buf.len() - p) as u64 {
        return None;
    }
    let n: usize = n as usize;
    let m = ParsedCmsg {
        level: rd_u32(buf, p + 8) as i32,
        kind: rd_u32(buf, p + 12) as i32,
        data: slice_subrange(buf, p + CMSG_HEADER, p + n),
    };
    let step: usize = if n % 8 == 0 {
        0
    } else {
        8 - n % 8
    };
    let ghost next = p + aligned(n as int);
    proof {
        lemma_aligned(n as int);
    }
    assert(cmsg_at(buf@, p as int) == Some((m@, next)));
    if step > buf.len() - p - n {
        assert(cmsgs_at(buf@, next) =~= Seq::<CmsgView>::empty());
        assert(cmsgs_at(buf@, buf@.len() as int) =~= Seq::<CmsgView>::empty());
        return Some((m, buf.len()));
    }
    Some((m, p + n + step))
}

/// The control messages of a buffer, up to the first malformed one.
pub fn parse_control<'a>(buf: &'a [u8]) -> (r: Vec<ParsedCmsg<'a>>)
    ensures
        cmsg_views(r@) == cmsgs_at(buf@, 0),
{
    let mut out: Vec<ParsedCmsg<'a>> = Vec::new();
    let mut p: usize = 0;
    let ghost all = cmsgs_at(buf@, 0);
    assert(cmsg_views(out@) + all =~= all);
    loop
        invariant
            p <= buf@.len(),
            cmsg_views(out@) + cmsgs_at(buf@, p as int) == all,
        ensures
            cmsg_views(out@) == all,
        decreases buf@.len() - p,
    {
        let (m, next) = match parse_cmsg(buf, p) {
            Some(found) => found,
            None => {
                assert(cmsg_views(out@) =~= all);
                break;
            },
        };
        let ghost before = cmsg_views(out@);
        out.push(m);
        proof {
            let rest = cmsgs_at(buf@, next as int);
            assert(cmsg_views(out@) =~= before.push(m@));
            assert(cmsg_views(out@) + rest =~= before + (seq![m@] + rest));
        }
        p = next;
    }
    out
}

/// The whole numbers that data holds.
pub open spec fn fds_of(data: Seq<u8>) -> Seq<i32> {
    Seq::new(data.len() / 4, |i: int| le32_at(data, 4 * i) as i32)
}

/// What becomes of the descriptors of a received message.
#[verifier::ext_equal]
pub struct Delivered {
    /// The token; negative if there is none.
    pub token_fd: i32,
    /// The descriptors that the caller gets.
    pub fds: Seq<i32>,
    /// The descriptors that are closed.
    pub closed: Seq<i32>,
}

/// One token arrives: only the first is kept.
pub open spec fn token_arrives(d: Delivered, fd: i32) -> Delivered {
    if d.token_fd < 0 {
        Delivered { token_fd: fd, ..d }
    } else {
        Delivered { closed: d.closed.push(fd), ..d }
    }
}

/// One descriptor arrives: it is kept while there is room.
pub open spec fn fd_arrives(d: Delivered, fd: i32, cap: nat) -> Delivered {
    if d.fds.len() < cap {
        Delivered { fds: d.fds.push(fd), ..d }
    } else {
        Delivered { closed: d.closed.push(fd), ..d }
    }
}

pub open spec fn tokens_arrive(d: Delivered, fds: Seq<i32>) -> Delivered
    decreases fds.len(),
{
    if fds.len() == 0 {
        d
    } else {
        token_arrives(tokens_arrive(d, fds.drop_last()), fds.last())
    }
}

pub open spec fn fds_arrive(d: Delivered, fds: Seq<i32>, cap: nat) -> Delivered
    decreases fds.len(),
{
    if fds.len() == 0 {
        d
    } else {
        fd_arrives(fds_arrive(d, fds.drop_last(), cap), fds.last(), cap)
    }
}

/// One control message arrives. Kinds that are not known are passed over.
pub open spec fn cmsg_arrives(d: Delivered, m: CmsgView, cap: nat) -> Delivered {
    if m.level == SOL_KACS && m.kind == KACS_SCM_TOKEN {
        tokens_arrive(d, fds_of(m.data))
    } else if m.level == SOL_SOCKET && m.kind == SCM_RIGHTS {
        fds_arrive(d, fds_of(m.data), cap)
    } else {
        d
    }
}

/// What becomes of the descriptors of these control messages.
pub open spec fn delivered(ms: Seq<CmsgView>, cap: nat) -> Delivered
    decreases ms.len(),
{
    if ms.len() == 0 {
        Delivered { token_fd: -1i32, fds: Seq::empty(), closed: Seq::empty() }
    } else {
        cmsg_arrives(delivered(ms.drop_last(), cap), ms.last(), cap)
    }
}

/// A received message: what the caller gets, and what is to be closed.
pub struct Received {
    pub token_fd: i32,
    pub fds: Vec<i32>,
    pub closed: Vec<i32>,
    pub flags: u32,
}

impl Received {
    pub open spec fn state(&self) -> Delivered {
        Delivered { token_fd: self.token_fd, fds: self.fds@, closed: self.closed@ }
    }
}

/// Hands out or closes the descriptors of one control message.
fn deliver_one(r: &mut Received, m: &ParsedCmsg, cap: u32)
    ensures
        final(r).state() == cmsg_arrives(old(r).state(), m@, cap as nat),
        final(r).flags == old(r).flags,
{
    let token: bool = m.level == SOL_KACS && m.kind == KACS_SCM_TOKEN;
    if !token && !(m.level == SOL_SOCKET && m.kind == SCM_RIGHTS) {
        return;
    }
    let ghost start = r.state();
    let ghost fds = fds_of(m.data@);
    let count: usize = m.data.len() / 4;
    let mut i: usize = 0;
    while i < count
        invariant
            i <= count,
            count == m.data@.len() / 4,
            m.data@.len() == m.data.len(),
            fds == fds_of(m.data@),
            r.state() == (if token {
                tokens_arrive(start, fds.take(i as int))
            } else {
                fds_arrive(start, fds.take(i as int), cap as nat)
            }),
            r.flags == old(r).flags,
        decreases count - i,
    {
        let fd: i32 = rd_u32(m.data, 4 * i) as i32;
        let ghost next = fds.take(i + 1);
        assert(next.drop_last() =~= fds.take(i as int));
        assert(next.last() == fd);
        if token {
            if r.token_fd < 0 {
                r.token_fd = fd;
            } else {
                r.closed.push(fd);
            }
        } else if (r.fds.len() as u64) < cap as u64 {
            r.fds.push(fd);
        } else {
            r.closed.push(fd);
        }
        i = i + 1;
    }
    assert(fds.take(count as int) =~= fds);
}

/// What the caller of a receive gets, for a control buffer and the flags that the kernel
/// returned.
pub fn deliver_control(buf: &[u8], msg_flags: i32, cap: u32) -> (r: Received)
    ensures
        r.state() == delivered(cmsgs_at(buf@, 0), cap as nat),
        r.flags == truncation(msg_flags),
{
    let mut r = Received { token_fd: -1, fds: Vec::new(), closed: Vec::new(), flags: 0 };
    let ms: Vec<ParsedCmsg> = parse_control(buf);
    let ghost views = cmsg_views(ms@);
    let mut i: usize = 0;
    assert(r.state() =~= delivered(views.take(0), cap as nat));
    while i < ms.len()
        invariant
            i <= ms@.len(),
            views == cmsg_views(ms@),
            r.state() == delivered(views.take(i as int), cap as nat),
            r.flags == 0,
        decreases ms@.len() - i,
    {
        assert(views.take(i + 1).drop_last() =~= views.take(i as int));
        deliver_one(&mut r, &ms[i], cap);
        i = i + 1;
    }
    assert(views.take(i as int) =~= views);
    let data: u32 = if msg_flags & MSG_TRUNC != 0 {
        PEIOS_SOCKET_MSG_TRUNCATED
    } else {
        0
    };
    let control: u32 = if msg_flags & MSG_CTRUNC != 0 {
        PEIOS_SOCKET_MSG_CTRUNCATED
    } else {
        0
    };
    r.flags = data + control;
    r
}

/// What the kernel's flags say of truncation.
pub open spec fn truncation(msg_flags: i32) -> u32 {
    ((if msg_flags & MSG_TRUNC != 0 {
        PEIOS_SOCKET_MSG_TRUNCATED as int
    } else {
        0
    }) + (if msg_flags & MSG_CTRUNC != 0 {
        PEIOS_SOCKET_MSG_CTRUNCATED as int
    } else {
        0
    })) as u32
}

/// How many bytes of control buffer a receive offers: room for a token, and for as many
/// descriptors as the caller has room for and one message can carry.
pub open spec fn receive_room(fd_cap: u32) -> int {
    24 + if fd_cap == 0 {
        0
    } else {
        16 + aligned(
            4 * if fd_cap < SCM_MAX_FD {
                fd_cap as int
            } else {
                SCM_MAX_FD as int
            },
        )
    }
}

/// The room for the control buffer of a request to receive, or why there is none.
pub fn receive_control_len(buf_null: bool, cap: usize, fds_null: bool, fd_cap: u32) -> (r: Result<usize, Errno>)
    ensures
        match r {
            Ok(n) => !(buf_null && cap != 0) && !(fds_null && fd_cap != 0) && n == receive_room(fd_cap),
            Err(e) => e == Errno::Inval && ((buf_null && cap != 0) || (fds_null && fd_cap != 0)),
        },
{
    if (buf_null && cap != 0) || (fds_null && fd_cap != 0) {
        return Err(Errno::Inval);
    }
    let count: u32 = if fd_cap < SCM_MAX_FD {
        fd_cap
    } else {
        SCM_MAX_FD
    };
    let token: usize = cmsg_space(4);
    let rights: usize = if count > 0 {
        cmsg_space(4 * count as usize)
    } else {
        0
    };
    Ok(token + rights)
}

/// The flags of a receive: whatever the caller asks for, what arrives is closed when the
/// process runs another program.
pub fn receive_flags(flags: i32) -> (r: i32)
    ensures
        r == flags | MSG_CMSG_CLOEXEC,
        r & MSG_CMSG_CLOEXEC == MSG_CMSG_CLOEXEC,
{
    assert((flags | MSG_CMSG_CLOEXEC) & MSG_CMSG_CLOEXEC == MSG_CMSG_CLOEXEC) by (bit_vector);
    flags | MSG_CMSG_CLOEXEC
}

/// How much of a control buffer was filled, by what the kernel says of it.
pub open spec fn filled(room: nat, controllen: usize) -> int {
    if controllen < room {
        controllen as int
    } else {
        room as int
    }
}

/// What the caller of a receive gets, for what the kernel answered: nothing if the receive
/// failed, else the number of bytes and what the filled part of the control buffer brought.
pub fn receive_answer(result: isize, control: &[u8], controllen: usize, msg_flags: i32, fd_cap: u32) -> (r: Option<
    (usize, Received),
>)
    ensures
        match r {
            Some((count, received)) => {
                &&& result >= 0
                &&& count == result
                &&& received.state() == delivered(
                    cmsgs_at(control@.take(filled(control@.len(), controllen)), 0),
                    fd_cap as nat,
                )
                &&& received.flags == truncation(msg_flags)
            },
            None => result < 0,
        },
{
    if result < 0 {
        return None;
    }
    let arrived: usize = if controllen < control.len() {
        controllen
    } else {
        control.len()
    };
    let part: &[u8] = slice_subrange(control, 0, arrived);
    assert(part@ =~= control@.take(filled(control@.len(), controllen)));
    Some((result as usize, deliver_control(part, msg_flags, fd_cap)))
}

/// A descriptor's number survives being data.
proof fn lemma_fd_survives(fd: i32)
    ensures
        (fd as u32) as i32 == fd,
{
    assert((fd as u32) as i32 == fd) by (bit_vector);
}

proof fn lemma_fd_word(fds: Seq<i32>, k: int)
    requires
        0 <= k < fds.len(),
    ensures
        fd_bytes(fds).subrange(4 * k, 4 * k + 4) == le32(fds[k] as u32),
{
    let w = fd_bytes(fds);
    let v = fds[k] as u32;
    assert(4 * k + 3 < w.len());
    assert(w[4 * k] == le32(v)[0]);
    assert(w[4 * k + 1] == le32(v)[1]);
    assert(w[4 * k + 2] == le32(v)[2]);
    assert(w[4 * k + 3] == le32(v)[3]);
    assert(w.subrange(4 * k, 4 * k + 4) =~= le32(v));
}

/// Data of descriptors holds their numbers.
pub proof fn law_fds_read_back(fds: Seq<i32>)
    ensures
        fds_of(fd_bytes(fds)) == fds,
{
    let b = fd_bytes(fds);
    assert(b.len() / 4 == fds.len());
    assert forall|i: int| 0 <= i < fds.len() implies le32_at(b, 4 * i) as i32 == fds[i] by {
        lemma_fd_word(fds, i);
        law_le32_reads_back(b, 4 * i, fds[i] as u32);
        lemma_fd_survives(fds[i]);
    }
    assert(fds_of(b) =~= fds);
}

/// The fields of a control message behind other bytes are read back.
#[verifier::spinoff_prover]
proof fn lemma_cmsg_fields(pre: Seq<u8>, m: CmsgView, post: Seq<u8>)
    requires
        m.data.len() <= 0xffff_ffff,
    ensures
        ({
            let s = pre + cmsg_bytes(m) + post;
            let p = pre.len() as int;
            &&& le64_at(s, p) == 16 + m.data.len()
            &&& le32_at(s, p + 8) == m.level as u32
            &&& le32_at(s, p + 12) == m.kind as u32
        }),
{
    let s = pre + cmsg_bytes(m) + post;
    let p = pre.len() as int;
    let n = (16 + m.data.len()) as u64;
    assert(s.subrange(p, p + 8) =~= le64(n));
    law_le64_reads_back(s, p, n);
    assert(s.subrange(p + 8, p + 12) =~= le32(m.level as u32));
    law_le32_reads_back(s, p + 8, m.level as u32);
    assert(s.subrange(p + 12, p + 16) =~= le32(m.kind as u32));
    law_le32_reads_back(s, p + 12, m.kind as u32);
}

/// A control message that stands on a multiple of eight is read back, and reading goes on
/// behind it.
#[verifier::spinoff_prover]
proof fn lemma_cmsg_reads_back(pre: Seq<u8>, m: CmsgView, post: Seq<u8>)
    requires
        m.data.len() <= 0xffff_ffff,
    ensures
        cmsgs_at(pre + cmsg_bytes(m) + post, pre.len() as int) == seq![m] + cmsgs_at(
            pre + cmsg_bytes(m) + post,
            (pre.len() + cmsg_bytes(m).len()) as int,
        ),
{
    let s = pre + cmsg_bytes(m) + post;
    let p = pre.len() as int;
    let n: int = 16 + m.data.len() as int;
    lemma_cmsg_fields(pre, m, post);
    lemma_fd_survives(m.level);
    lemma_fd_survives(m.kind);
    assert(cmsg_bytes(m).len() == aligned(n));
    assert(s.subrange(p + 16, p + n) =~= m.data);
}

/// What is sent with a message is what is received: the token if there is one, then the
/// descriptors if there are any.
pub proof fn law_sent_is_received(token_fd: i32, fds: Seq<i32>)
    requires
        4 * fds.len() <= 0xffff_ffff,
    ensures
        cmsgs_at(cmsgs_bytes(sent(token_fd, fds)), 0) == sent(token_fd, fds),
{
    let ms = sent(token_fd, fds);
    let s = cmsgs_bytes(ms);
    let none = Seq::<u8>::empty();
    reveal_with_fuel(cmsgs_bytes, 3);
    if ms.len() == 2 {
        let (a, b) = (ms[0], ms[1]);
        assert(ms.drop_last() =~= seq![a]);
        assert(seq![a].drop_last() =~= Seq::<CmsgView>::empty());
        assert(s =~= none + cmsg_bytes(a) + cmsg_bytes(b));
        assert(s =~= cmsg_bytes(a) + cmsg_bytes(b) + none);
        lemma_cmsg_reads_back(none, a, cmsg_bytes(b));
        lemma_cmsg_reads_back(cmsg_bytes(a), b, none);
        assert(cmsgs_at(s, s.len() as int) =~= Seq::<CmsgView>::empty());
        assert(cmsgs_at(s, 0) =~= ms);
    } else if ms.len() == 1 {
        let a = ms[0];
        assert(ms.drop_last() =~= Seq::<CmsgView>::empty());
        assert(s =~= none + cmsg_bytes(a) + none);
        lemma_cmsg_reads_back(none, a, none);
        assert(cmsgs_at(s, s.len() as int) =~= Seq::<CmsgView>::empty());
        assert(cmsgs_at(s, 0) =~= ms);
    } else {
        assert(s =~= none);
        assert(cmsgs_at(s, 0) =~= ms);
    }
}

/// All descriptors that a control message brings.
pub open spec fn fds_brought(m: CmsgView) -> Seq<i32> {
    if (m.level == SOL_KACS && m.kind == KACS_SCM_TOKEN) || (m.level == SOL_SOCKET && m.kind == SCM_RIGHTS) {
        fds_of(m.data)
    } else {
        Seq::empty()
    }
}

pub open spec fn all_fds_brought(ms: Seq<CmsgView>) -> Seq<i32>
    decreases ms.len(),
{
    if ms.len() == 0 {
        Seq::empty()
    } else {
        all_fds_brought(ms.drop_last()) + fds_brought(ms.last())
    }
}

impl Delivered {
    /// All descriptors that were handed out or closed.
    pub open spec fn all(self) -> Seq<i32> {
        (if self.token_fd >= 0 {
            seq![self.token_fd]
        } else {
            Seq::empty()
        }) + self.fds + self.closed
    }
}

proof fn lemma_one_more(a: Seq<i32>, b: Seq<i32>, c: Seq<i32>, fd: i32)
    ensures
        (a.push(fd) + b + c).to_multiset() == (a + b + c).to_multiset().insert(fd),
        (a + b.push(fd) + c).to_multiset() == (a + b + c).to_multiset().insert(fd),
        (a + b + c.push(fd)).to_multiset() == (a + b + c).to_multiset().insert(fd),
{
    broadcast use vstd::seq_lib::group_to_multiset_ensures;

    assert(a + b + c.push(fd) =~= (a + b + c).push(fd));
    vstd::seq_lib::lemma_multiset_commutative(a, b);
    vstd::seq_lib::lemma_multiset_commutative(a + b, c);
    vstd::seq_lib::lemma_multiset_commutative(a.push(fd), b);
    vstd::seq_lib::lemma_multiset_commutative(a.push(fd) + b, c);
    vstd::seq_lib::lemma_multiset_commutative(a, b.push(fd));
    vstd::seq_lib::lemma_multiset_commutative(a + b.push(fd), c);
    assert((a.push(fd) + b + c).to_multiset() =~= (a + b + c).to_multiset().insert(fd));
    assert((a + b.push(fd) + c).to_multiset() =~= (a + b + c).to_multiset().insert(fd));
}

proof fn lemma_arrivals(d: Delivered, fds: Seq<i32>, token: bool, cap: nat)
    requires
        forall|i: int| 0 <= i < fds.len() ==> fds[i] >= 0,
    ensures
        ({
            let e = if token {
                tokens_arrive(d, fds)
            } else {
                fds_arrive(d, fds, cap)
            };
            &&& e.all().to_multiset() == d.all().to_multiset().add(fds.to_multiset())
            &&& d.fds.len() <= cap ==> e.fds.len() <= cap
        }),
    decreases fds.len(),
{
    broadcast use vstd::seq_lib::group_to_multiset_ensures;

    if fds.len() == 0 {
        assert(fds =~= Seq::<i32>::empty());
        assert(d.all().to_multiset() =~= d.all().to_multiset().add(fds.to_multiset()));
    } else {
        let front = fds.drop_last();
        let fd = fds.last();
        lemma_arrivals(d, front, token, cap);
        assert(fds =~= front.push(fd));
        let e = if token {
            tokens_arrive(d, front)
        } else {
            fds_arrive(d, front, cap)
        };
        let t = if e.token_fd >= 0 {
            seq![e.token_fd]
        } else {
            Seq::empty()
        };
        lemma_one_more(t, e.fds, e.closed, fd);
        let after = if token {
            token_arrives(e, fd)
        } else {
            fd_arrives(e, fd, cap)
        };
        if token && e.token_fd < 0 {
            assert(seq![fd] =~= t.push(fd));
        }
        assert(after.all().to_multiset() =~= e.all().to_multiset().insert(fd));
        assert(after.all().to_multiset() =~= d.all().to_multiset().add(fds.to_multiset()));
    }
}

/// Nothing leaks: every descriptor that a message brought was handed to the caller or closed,
/// none twice, and the caller got no more than there was room for.
pub proof fn law_every_descriptor_is_accounted_for(ms: Seq<CmsgView>, cap: nat)
    requires
        forall|i: int| 0 <= i < all_fds_brought(ms).len() ==> all_fds_brought(ms)[i] >= 0,
    ensures
        delivered(ms, cap).all().to_multiset() == all_fds_brought(ms).to_multiset(),
        delivered(ms, cap).fds.len() <= cap,
    decreases ms.len(),
{
    broadcast use vstd::seq_lib::group_to_multiset_ensures;

    if ms.len() == 0 {
        assert(delivered(ms, cap).all() =~= Seq::<i32>::empty());
    } else {
        let front = ms.drop_last();
        let m = ms.last();
        let before = all_fds_brought(front);
        let brought = fds_brought(m);
        let all = all_fds_brought(ms);
        assert forall|i: int| 0 <= i < before.len() implies before[i] >= 0 by {
            assert(all[i] == before[i]);
        }
        assert forall|i: int| 0 <= i < brought.len() implies brought[i] >= 0 by {
            assert(all[before.len() + i] == brought[i]);
        }
        law_every_descriptor_is_accounted_for(front, cap);
        lemma_arrivals(delivered(front, cap), brought, m.level == SOL_KACS && m.kind == KACS_SCM_TOKEN, cap);
        vstd::seq_lib::lemma_multiset_commutative(before, brought);
        if !(m.level == SOL_KACS && m.kind == KACS_SCM_TOKEN) && !(m.level == SOL_SOCKET && m.kind == SCM_RIGHTS) {
            assert(all =~= before);
        }
    }
}

} // verus!
