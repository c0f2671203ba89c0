//! Events on the wire, and what a reader of a ring has seen.

use vstd::prelude::*;
use crate::bytes::{law_le16_reads_back, law_le32_reads_back, law_le64_reads_back, le16, le16_at, le32, le32_at, le64, le64_at};
use crate::error::Errno;
use crate::event::consume::{
    after_events, event_window, parse_event, peios_event_reader, peios_event_ring, ring_map_len, timeout_parts,
    wait_code, wait_outcome, EventFields, Next, Ring, Wait,
};
use crate::event::emit::{batch_request, kmes_emit_entry, marshal_entries, peios_event_entry};

verus! {

/// The parts of an event.
pub struct EventParts {
    pub timestamp: u64,
    pub sequence: u64,
    pub cpu: u16,
    pub origin: u8,
    pub effective: Seq<u8>,
    pub true_token: Seq<u8>,
    pub process: Seq<u8>,
    pub kind: Seq<u8>,
    pub payload: Seq<u8>,
}

impl EventParts {
    /// The parts have the lengths that the layout has room for.
    pub open spec fn fits(self) -> bool {
        &&& self.effective.len() == 16
        &&& self.true_token.len() == 16
        &&& self.process.len() == 16
        &&& self.kind.len() <= 0xffff
        &&& 77 + self.kind.len() + self.payload.len() <= 0xffff_ffff
    }

    /// The fixed part of an event: both sizes, the time, the number, the processor, the origin,
    /// three identifiers and the length of the type.
    pub open spec fn header(self) -> Seq<u8> {
        le32((77 + self.kind.len() + self.payload.len()) as u32) + le32((77 + self.kind.len()) as u32) + le64(
            self.timestamp,
        ) + le64(self.sequence) + le16(self.cpu) + seq![self.origin] + self.effective + self.true_token + self.process
            + le16(self.kind.len() as u16)
    }

    /// An event on the wire.
    pub open spec fn wire(self) -> Seq<u8> {
        self.header() + self.kind + self.payload
    }
}

#[verifier::spinoff_prover]
#[verifier::rlimit(40)]
proof fn lemma_header(e: EventParts, rest: Seq<u8>)
    requires
        e.fits(),
    ensures
        e.header().len() == 77,
        ({
            let w = e.header() + rest;
            &&& le32_at(w, 0) == 77 + e.kind.len() + e.payload.len()
            &&& le32_at(w, 4) == 77 + e.kind.len()
            &&& le64_at(w, 8) == e.timestamp
            &&& le64_at(w, 16) == e.sequence
            &&& le16_at(w, 24) == e.cpu
            &&& w[26] == e.origin
            &&& w.subrange(27, 43) == e.effective
            &&& w.subrange(43, 59) == e.true_token
            &&& w.subrange(59, 75) == e.process
            &&& le16_at(w, 75) == e.kind.len()
        }),
{
    let w = e.header() + rest;
    assert(e.header().len() == 77);
    assert(w.subrange(0, 4) =~= le32((77 + e.kind.len() + e.payload.len()) as u32));
    law_le32_reads_back(w, 0, (77 + e.kind.len() + e.payload.len()) as u32);
    assert(w.subrange(4, 8) =~= le32((77 + e.kind.len()) as u32));
    law_le32_reads_back(w, 4, (77 + e.kind.len()) as u32);
    assert(w.subrange(8, 16) =~= le64(e.timestamp));
    law_le64_reads_back(w, 8, e.timestamp);
    assert(w.subrange(16, 24) =~= le64(e.sequence));
    law_le64_reads_back(w, 16, e.sequence);
    assert(w.subrange(24, 26) =~= le16(e.cpu));
    law_le16_reads_back(w, 24, e.cpu);
    assert(w.subrange(27, 43) =~= e.effective);
    assert(w.subrange(43, 59) =~= e.true_token);
    assert(w.subrange(59, 75) =~= e.process);
    assert(w.subrange(75, 77) =~= le16(e.kind.len() as u16));
    law_le16_reads_back(w, 75, e.kind.len() as u16);
}

/// Whatever its parts are, an event that was written by the wire layout is read as these parts,
/// also with other bytes behind it.
pub proof fn law_events_read_back(e: EventParts, rest: Seq<u8>, w: &[u8], capacity: u64, r: Option<EventFields>)
    requires
        e.fits(),
        e.wire().len() <= capacity,
        w@ == e.wire() + rest,
        call_ensures(parse_event, (w, capacity), r),
    ensures
        r matches Some(f) && {
            &&& f.event_size == 77 + e.kind.len() + e.payload.len()
            &&& f.timestamp == e.timestamp
            &&& f.sequence == e.sequence
            &&& f.cpu_id == e.cpu
            &&& f.origin_class == e.origin
            &&& f.eff_guid@ == e.effective
            &&& f.true_guid@ == e.true_token
            &&& f.proc_guid@ == e.process
            &&& f.type_len == e.kind.len()
            &&& f.payload_len == e.payload.len()
            &&& w@.subrange(f.type_off as int, f.type_off + f.type_len) == e.kind
            &&& w@.subrange(f.payload_off as int, f.payload_off + f.payload_len) == e.payload
        },
{
    let tail = e.kind + e.payload + rest;
    lemma_header(e, tail);
    assert(w@ =~= e.header() + tail);
    let (k, n) = (e.kind.len() as int, e.payload.len() as int);
    assert(w@.subrange(77, 77 + k) =~= e.kind);
    assert(w@.subrange(77 + k, 77 + k + n) =~= e.payload);
}

/// An event that is read lies inside the bytes and inside the ring, and its sizes agree: 77
/// bytes and its type are the header, and the payload fills the rest. Anything else is refused.
pub proof fn law_events_that_are_refused(w: &[u8], capacity: u64, r: Option<EventFields>)
    requires
        w@.len() >= 77,
        call_ensures(parse_event, (w, capacity), r),
    ensures
        ({
            let size = le32_at(w@, 0);
            let header = le32_at(w@, 4);
            let kind = le16_at(w@, 75);
            r is None <==> {
                ||| size == 0
                ||| size > capacity
                ||| size > w@.len()
                ||| header != 77 + kind
                ||| header > size
            }
        }),
{
}

/// Less than a header is no event.
pub proof fn law_short_events_are_refused(w: &[u8], capacity: u64, r: Option<EventFields>)
    requires
        w@.len() < 77,
        call_ensures(parse_event, (w, capacity), r),
    ensures
        r is None,
{
}

/// Room for a ring: the two pages of metadata, and the data mapped twice.
pub proof fn law_ring_room(capacity: u64, r: Result<usize, Errno>)
    requires
        call_ensures(ring_map_len, (capacity,), r),
    ensures
        r is Ok <==> 8192 + 2 * capacity <= usize::MAX,
        r matches Ok(n) ==> n == 8192 + capacity + capacity,
        r is Err ==> r->Err_0 == Errno::Inval,
{
}

/// Reading goes round the ring: whole rounds are taken off a position to find its place, and
/// from each place there is more than one whole ring to see.
pub proof fn law_window_goes_round(pos: u64, k: u64, ring: Ring, a: (usize, usize))
    requires
        k < 48,
        ring.capacity == 1u64 << k,
        ring.capacity > 0,
        ring.map_len == 8192 + 2 * ring.capacity,
        call_ensures(event_window, (pos, &ring), a),
    ensures
        a.0 < ring.capacity,
        a.0 == pos - ((pos >> k) << k),
        a.1 == 2 * ring.capacity - a.0,
{
    let c = ring.capacity;
    let mask = (c - 1) as u64;
    assert(pos & mask == pos - ((pos >> k) << k)) by (bit_vector)
        requires
            k < 48,
            c == 1u64 << k,
            mask == c - 1,
    ;
}

/// A ring that was put away is found again.
pub proof fn law_rings_are_found_again(r: Ring, stored: peios_event_ring, back: Ring)
    requires
        call_ensures(peios_event_ring::store, (r,), stored),
        call_ensures(peios_event_ring::load, (&stored,), back),
    ensures
        back.base == r.base,
        back.capacity == r.capacity,
        back.map_len == r.map_len,
{
}

/// A time limit in milliseconds is split into whole seconds and the rest.
pub proof fn law_time_limits(ms: i32, r: Option<(i64, i64)>)
    requires
        call_ensures(timeout_parts, (ms,), r),
    ensures
        r is None <==> ms < 0,
        r matches Some((sec, nsec)) ==> 0 <= nsec < 1_000_000_000 && sec * 1_000_000_000 + nsec == ms * 1_000_000,
{
}

/// How a wait ends: woken or too late to sleep is 1, out of time or interrupted is 0, and any
/// other error is -1.
pub proof fn law_waits(woken: bool, errno: Errno, w: Wait, code: i32)
    requires
        call_ensures(wait_outcome, (woken, errno), w),
        call_ensures(wait_code, (w,), code),
    ensures
        woken ==> code == 1,
        !woken && errno == Errno::Again ==> code == 1,
        !woken && (errno == Errno::Intr || errno == Errno::TimedOut) ==> code == 0,
        !woken && errno != Errno::Again && errno != Errno::Intr && errno != Errno::TimedOut ==> code == -1,
{
}

/// A new reader starts at the oldest event and has lost nothing.
pub proof fn law_new_readers(cpu: u32, tail: u64, generation: u64, r: peios_event_reader)
    requires
        call_ensures(peios_event_reader::start, (cpu, tail, generation), r),
    ensures
        r.cpu_id == cpu,
        r.read_pos == tail,
        r.generation == generation,
        r.last_seq == 0,
        r.lost == 0,
{
}

/// One event is taken off the ring: the position moves by its size, its number is remembered,
/// and the loss grows by the numbers that were skipped since the last event, if there was one.
pub proof fn law_one_event_is_taken(
    me: &mut peios_event_reader,
    tail: u64,
    saved: u64,
    size: u64,
    sequence: u64,
    next: Next,
)
    requires
        call_ensures(peios_event_reader::on_recheck, (me, tail, saved, size, sequence), next),
    ensures
        tail > saved && tail > old(me).read_pos ==> next is Generation && *final(me) == *old(me),
        !(tail > saved && tail > old(me).read_pos) ==> {
            &&& next is Delivered
            &&& final(me).read_pos == (old(me).read_pos + size) % 0x1_0000_0000_0000_0000
            &&& final(me).last_seq == sequence
            &&& final(me).cpu_id == old(me).cpu_id
            &&& final(me).generation == old(me).generation
            &&& old(me).last_seq == 0 || sequence <= old(me).last_seq ==> final(me).lost == old(me).lost
            &&& old(me).last_seq != 0 && sequence > old(me).last_seq ==> final(me).lost == (old(me).lost + (sequence
                - old(me).last_seq - 1)) % 0x1_0000_0000_0000_0000
        },
{
}

/// A reader that was lapped goes on at the tail and keeps its counts; one that was not looks at
/// the event where it stands.
pub proof fn law_lapped_readers(me: &mut peios_event_reader, tail: u64, next: Next)
    requires
        call_ensures(peios_event_reader::on_tail, (me, tail), next),
    ensures
        tail > old(me).read_pos ==> next is Generation && final(me).read_pos == tail,
        tail <= old(me).read_pos ==> next == Next::Event(tail) && final(me).read_pos == old(me).read_pos,
        final(me).cpu_id == old(me).cpu_id,
        final(me).last_seq == old(me).last_seq,
        final(me).lost == old(me).lost,
        final(me).generation == old(me).generation,
{
}

/// After a corrupt event reading starts over at the tail, with the counts kept.
pub proof fn law_resynchronised_readers(me: &mut peios_event_reader, tail: u64, next: Next)
    requires
        call_ensures(peios_event_reader::on_resync, (me, tail), next),
    ensures
        next is Generation,
        final(me).read_pos == tail,
        final(me).cpu_id == old(me).cpu_id,
        final(me).last_seq == old(me).last_seq,
        final(me).lost == old(me).lost,
        final(me).generation == old(me).generation,
{
}

/// A ring that was replaced is read from its tail on; what was counted stays, so that the
/// events lost with the old ring still show as a gap.
pub proof fn law_replaced_rings(me: &mut peios_event_reader, r: Result<(u64, u64), Errno>, next: Next)
    requires
        call_ensures(peios_event_reader::on_reattach, (me, r), next),
    ensures
        final(me).cpu_id == old(me).cpu_id,
        final(me).last_seq == old(me).last_seq,
        final(me).lost == old(me).lost,
        r matches Ok((tail, generation)) ==> next is Generation && final(me).read_pos == tail && final(me).generation
            == generation,
        r matches Err(e) ==> next == Next::Failed(e) && *final(me) == *old(me),
{
}

/// The order of the steps: a ring of another generation is mapped anew first, an empty ring ends
/// the reading, and a corrupt event starts it over.
pub proof fn law_steps_of_a_reader(me: peios_event_reader, x: u64, sound: bool, g: Next, w: Next, e: Next)
    requires
        call_ensures(peios_event_reader::on_generation, (&me, x), g),
        call_ensures(peios_event_reader::on_write_pos, (&me, x), w),
        call_ensures(peios_event_reader::on_event, (&me, sound, x), e),
    ensures
        g is Reattach <==> x != me.generation,
        g is WritePos <==> x == me.generation,
        w is Empty <==> x == me.read_pos,
        w is Tail <==> x != me.read_pos,
        sound ==> e == Next::Recheck(x),
        !sound ==> e is Resync,
{
}

/// However many events are read, the position has moved by all their sizes together.
pub proof fn law_positions_add_up(r: peios_event_reader, events: Seq<(u64, u64)>, total: int)
    requires
        total == events.fold_left(0int, |sum: int, e: (u64, u64)| sum + e.0),
        r.read_pos + total <= u64::MAX,
    ensures
        after_events(r, events).read_pos == r.read_pos + total,
        after_events(r, events).cpu_id == r.cpu_id,
        after_events(r, events).generation == r.generation,
    decreases events.len(),
{
    let f = |sum: int, e: (u64, u64)| sum + e.0;
    if events.len() > 0 {
        let front = events.drop_last();
        lemma_sum_grows(front);
        law_positions_add_up(r, front, front.fold_left(0int, f));
    }
}

proof fn lemma_sum_grows(events: Seq<(u64, u64)>)
    ensures
        events.fold_left(0int, |sum: int, e: (u64, u64)| sum + e.0) >= 0,
    decreases events.len(),
{
    if events.len() > 0 {
        lemma_sum_grows(events.drop_last());
    }
}

/// What the kernel is handed of a batch: each event as the caller gave it, in the caller's
/// order, with its reserved bytes zero.
pub proof fn law_batches_are_handed_over(src: &[peios_event_entry], out: Vec<kmes_emit_entry>, i: int)
    requires
        call_ensures(marshal_entries, (src,), out),
        0 <= i < src@.len(),
    ensures
        out@.len() == src@.len(),
        out@[i].event_type == src@[i].event_type,
        out@[i].event_type_len == src@[i].event_type_len,
        out@[i].payload == src@[i].payload,
        out@[i].payload_len == src@[i].payload_len,
        forall|k: int| 0 <= k < 6 ==> out@[i].pad0@[k] == 0,
        forall|k: int| 0 <= k < 4 ==> out@[i].pad1@[k] == 0,
{
    let _ = out@[i];
}

/// A batch is sent if and only if it is there and has between one and the most events that the
/// kernel takes.
pub proof fn law_batches_that_are_sent(src: &[peios_event_entry], count: u32, max: u32, r: Result<Vec<kmes_emit_entry>, Errno>)
    requires
        src@.len() == count,
        call_ensures(batch_request, (Some(src), count, max), r),
    ensures
        r is Ok <==> 1 <= count <= max,
        r is Err ==> r->Err_0 == Errno::Inval,
        r matches Ok(out) ==> out@.len() == count && forall|i: int|
            0 <= i < count ==> (#[trigger] out@[i]).event_type == src@[i].event_type && out@[i].payload == src@[i].payload
                && out@[i].event_type_len == src@[i].event_type_len && out@[i].payload_len == src@[i].payload_len,
{
}

} // verus!
