//! Draining the per-CPU rings that events arrive in: the layout of an event, and the
//! decisions of a reader between its loads of the shared positions.

use vstd::prelude::*;
use crate::bytes::{le16_at, le32_at, le64_at, rd_u16, rd_u32, rd_u64, same_bytes};
use crate::error::Errno;

verus! {

/// The length of an event's header without its type.
pub const EVENT_HEADER_BASE: usize = 77;

/// The length of the two pages before the data of a ring.
pub const RING_METADATA_BYTES: usize = 8192;

/// The fields of an event. The type and the payload are given by where they are in it.
#[derive(Clone, Copy)]
pub struct EventFields {
    pub event_size: u32,
    pub timestamp: u64,
    pub sequence: u64,
    pub cpu_id: u16,
    pub origin_class: u8,
    pub eff_guid: [u8; 16],
    pub true_guid: [u8; 16],
    pub proc_guid: [u8; 16],
    pub type_off: usize,
    pub type_len: usize,
    pub payload_off: usize,
    pub payload_len: usize,
}

/// The bytes start with an event that could be in a ring of this capacity.
pub open spec fn event_sound(w: Seq<u8>, capacity: u64) -> bool {
    let size = le32_at(w, 0);
    let header = le32_at(w, 4);
    &&& w.len() >= EVENT_HEADER_BASE
    &&& 0 < size <= capacity
    &&& size <= w.len()
    &&& EVENT_HEADER_BASE <= header <= size
    &&& header == EVENT_HEADER_BASE + le16_at(w, 75)
}

/// What the event at the start of the bytes says.
pub open spec fn event_says(w: Seq<u8>, f: EventFields) -> bool {
    let size = le32_at(w, 0);
    let header = le32_at(w, 4);
    &&& f.event_size == size
    &&& f.timestamp == le64_at(w, 8)
    &&& f.sequence == le64_at(w, 16)
    &&& f.cpu_id == le16_at(w, 24)
    &&& f.origin_class == w[26]
    &&& f.eff_guid@ == w.subrange(27, 43)
    &&& f.true_guid@ == w.subrange(43, 59)
    &&& f.proc_guid@ == w.subrange(59, 75)
    &&& f.type_off == EVENT_HEADER_BASE
    &&& f.type_len == le16_at(w, 75)
    &&& f.payload_off == header
    &&& f.payload_len == size - header
}

fn rd_guid(w: &[u8], i: usize) -> (g: [u8; 16])
    requires
        i + 16 <= w@.len(),
    ensures
        g@ == w@.subrange(i as int, i + 16),
{
    assert(w@.len() == w.len());
    let g: [u8; 16] = [
        w[i],
        w[i + 1],
        w[i + 2],
        w[i + 3],
        w[i + 4],
        w[i + 5],
        w[i + 6],
        w[i + 7],
        w[i + 8],
        w[i + 9],
        w[i + 10],
        w[i + 11],
        w[i + 12],
        w[i + 13],
        w[i + 14],
        w[i + 15],
    ];
    assert(g@ =~= w@.subrange(i as int, i + 16));
    g
}

/// The event at the start of the bytes, unless it is corrupt.
pub fn parse_event(w: &[u8], capacity: u64) -> (r: Option<EventFields>)
    ensures
        match r {
            Some(f) => event_sound(w@, capacity) && event_says(w@, f),
            None => !event_sound(w@, capacity),
        },
{
    if w.len() < EVENT_HEADER_BASE {
        return None;
    }
    let event_size: u32 = rd_u32(w, 0);
    let header_size: u32 = rd_u32(w, 4);
    if event_size == 0 || event_size as u64 > capacity {
        return None;
    }
    if header_size < EVENT_HEADER_BASE as u32 || header_size > event_size {
        return None;
    }
    let type_len: usize = rd_u16(w, 75) as usize;
    if header_size as usize != EVENT_HEADER_BASE + type_len {
        return None;
    }
    if event_size as usize > w.len() {
        return None;
    }
    let payload_off: usize = header_size as usize;
    Some(
        EventFields {
            event_size,
            timestamp: rd_u64(w, 8),
            sequence: rd_u64(w, 16),
            cpu_id: rd_u16(w, 24),
            origin_class: w[26],
            eff_guid: rd_guid(w, 27),
            true_guid: rd_guid(w, 43),
            proc_guid: rd_guid(w, 59),
            type_off: EVENT_HEADER_BASE,
            type_len,
            payload_off,
            payload_len: event_size as usize - payload_off,
        },
    )
}

/// The type and the payload of a sound event lie inside it, one behind the other, and fill it
/// up.
pub proof fn law_event_parts_fill_it(w: Seq<u8>, capacity: u64, f: EventFields)
    requires
        event_sound(w, capacity),
        event_says(w, f),
    ensures
        f.type_off == EVENT_HEADER_BASE,
        f.type_off + f.type_len == f.payload_off,
        f.payload_off + f.payload_len == f.event_size,
        f.event_size <= w.len(),
        f.event_size <= capacity,
{
}

/// Where a ring is mapped. The address is given as a number.
#[derive(Clone, Copy, Debug, PartialEq, Eq, Structural)]
pub struct Ring {
    pub base: u64,
    pub capacity: u64,
    pub map_len: usize,
}

/// A ring that a caller holds.
#[allow(non_camel_case_types)]
#[derive(Clone, Copy)]
pub struct peios_event_ring {
    pub _opaque: [u64; 4],
}

impl peios_event_ring {
    /// The ring that is held here, if it was stored before.
    pub open spec fn holds(&self, r: Ring) -> bool {
        self._opaque@ == seq![r.base, r.capacity, r.map_len as u64, 0]
    }

    pub fn store(r: Ring) -> (ring: peios_event_ring)
        ensures
            ring.holds(r),
    {
        let words: [u64; 4] = [r.base, r.capacity, r.map_len as u64, 0];
        assert(words@ =~= seq![r.base, r.capacity, r.map_len as u64, 0]);
        peios_event_ring { _opaque: words }
    }

    pub fn load(&self) -> (r: Ring)
        ensures
            r.base == self._opaque@[0],
            r.capacity == self._opaque@[1],
            r.map_len == self._opaque@[2] as usize,
            forall|held: Ring| self.holds(held) ==> r == held,
    {
        let words: &[u64; 4] = &self._opaque;
        Ring { base: words[0], capacity: words[1], map_len: words[2] as usize }
    }

    /// A ring that is not mapped.
    pub fn unmapped() -> (ring: peios_event_ring)
        ensures
            ring.holds(Ring { base: 0, capacity: 0, map_len: 0 }),
    {
        peios_event_ring::store(Ring { base: 0, capacity: 0, map_len: 0 })
    }
}

/// How many bytes to map for a ring of this capacity: the metadata, and the data twice.
pub fn ring_map_len(capacity: u64) -> (r: Result<usize, Errno>)
    ensures
        r == (if RING_METADATA_BYTES + 2 * capacity <= usize::MAX {
            Ok::<usize, Errno>((RING_METADATA_BYTES + 2 * capacity) as usize)
        } else {
            Err(Errno::Inval)
        }),
{
    if capacity > (usize::MAX - RING_METADATA_BYTES) as u64 / 2 {
        return Err(Errno::Inval);
    }
    Ok(RING_METADATA_BYTES + 2 * (capacity as usize))
}

/// Whether a mapped page is that of a ring of this capacity: it has the magic and the version
/// that are expected, and says the capacity.
pub fn ring_page_valid(
    magic: &[u8],
    version: u32,
    page_capacity: u64,
    expected_magic: &[u8],
    expected_version: u32,
    capacity: u64,
) -> (r: Result<(), Errno>)
    ensures
        r == (if magic@ == expected_magic@ && version == expected_version && page_capacity == capacity {
            Ok::<(), Errno>(())
        } else {
            Err(Errno::Inval)
        }),
{
    if !same_bytes(magic, expected_magic) || version != expected_version || page_capacity != capacity {
        return Err(Errno::Inval);
    }
    Ok(())
}

/// Where in the data of a ring a position is, and how many bytes there are from there to the
/// end of the second mapping. The capacity is a power of two.
pub fn event_window(read_pos: u64, ring: &Ring) -> (r: (usize, usize))
    requires
        0 < ring.capacity,
        ring.map_len == RING_METADATA_BYTES + 2 * ring.capacity,
    ensures
        r.0 == read_pos & (ring.capacity - 1) as u64,
        r.0 < ring.capacity,
        r.0 + r.1 == 2 * ring.capacity,
        r.1 > ring.capacity,
{
    let mask: u64 = ring.capacity - 1;
    let off: u64 = read_pos & mask;
    assert(off <= mask) by (bit_vector)
        requires
            off == read_pos & mask,
    ;
    (off as usize, ring.map_len - RING_METADATA_BYTES - off as usize)
}

/// What a wait came to.
#[derive(Clone, Copy, Debug, PartialEq, Eq, Structural)]
pub enum Wait {
    /// There are or may be events.
    Ready,
    /// The time ran out, or a signal arrived.
    Idle,
    /// The wait failed.
    Failed,
}

/// Whether a reader still has to sleep once it has announced itself.
pub fn must_sleep(write_pos: u64, read_pos: u64) -> (sleep: bool)
    ensures
        sleep == (write_pos == read_pos),
{
    write_pos == read_pos
}

/// What the end of a sleep means. That the counter had moved already means that there are
/// events.
pub fn wait_outcome(woken: bool, errno: Errno) -> (w: Wait)
    ensures
        w == (if woken || errno == Errno::Again {
            Wait::Ready
        } else if errno == Errno::Intr || errno == Errno::TimedOut {
            Wait::Idle
        } else {
            Wait::Failed
        }),
{
    if woken {
        return Wait::Ready;
    }
    match errno {
        Errno::Again => Wait::Ready,
        Errno::Intr => Wait::Idle,
        Errno::TimedOut => Wait::Idle,
        _ => Wait::Failed,
    }
}

/// A time limit in seconds and nanoseconds; none if it is negative.
pub fn timeout_parts(timeout_ms: i32) -> (r: Option<(i64, i64)>)
    ensures
        match r {
            Some((sec, nsec)) => {
                &&& timeout_ms >= 0
                &&& 0 <= nsec < 1_000_000_000
                &&& sec * 1000 + nsec / 1_000_000 == timeout_ms
                &&& nsec % 1_000_000 == 0
            },
            None => timeout_ms < 0,
        },
{
    if timeout_ms < 0 {
        return None;
    }
    let ms: i64 = timeout_ms as i64;
    Some((ms / 1000, ms % 1000 * 1_000_000))
}

/// The answer to a wait, as the C boundary gives it.
pub fn wait_code(w: Wait) -> (code: i32)
    ensures
        code == (match w {
            Wait::Ready => 1int,
            Wait::Idle => 0,
            Wait::Failed => -1,
        }),
{
    match w {
        Wait::Ready => 1,
        Wait::Idle => 0,
        Wait::Failed => -1,
    }
}

/// A reader of one ring: where it is, and what it has seen.
#[allow(non_camel_case_types)]
#[derive(Clone, Copy, Debug, PartialEq, Eq, Structural)]
pub struct peios_event_reader {
    pub cpu_id: u32,
    pub read_pos: u64,
    /// The number of the last event, zero before the first.
    pub last_seq: u64,
    pub lost: u64,
    pub generation: u64,
}

/// What a reader does next.
#[derive(Clone, Copy, Debug, PartialEq, Eq, Structural)]
pub enum Next {
    /// Load the generation of the ring.
    Generation,
    /// Map the ring anew.
    Reattach,
    /// Load the write position.
    WritePos,
    /// Load the tail.
    Tail,
    /// Look at the event at the read position. The tail was here before.
    Event(u64),
    /// Load the tail to start over from there.
    Resync,
    /// Load the tail again, to see whether the event is still there.
    Recheck(u64),
    /// An event was delivered.
    Delivered,
    /// There is no event.
    Empty,
    /// The ring could not be mapped anew.
    Failed(Errno),
}

/// How many events are missing between two numbers.
pub open spec fn missing(last_seq: u64, sequence: u64) -> u64 {
    if last_seq != 0 && sequence > last_seq + 1 {
        (sequence - last_seq - 1) as u64
    } else {
        0
    }
}

impl peios_event_reader {
    /// A reader of a ring that was just mapped, from its oldest event on.
    pub fn start(cpu_id: u32, tail: u64, generation: u64) -> (r: peios_event_reader)
        ensures
            r == (peios_event_reader { cpu_id, read_pos: tail, last_seq: 0, lost: 0, generation }),
    {
        peios_event_reader { cpu_id, read_pos: tail, last_seq: 0, lost: 0, generation }
    }

    /// The generation was loaded: a ring of another one has to be mapped anew.
    pub fn on_generation(&self, generation: u64) -> (next: Next)
        ensures
            next == (if generation != self.generation {
                Next::Reattach
            } else {
                Next::WritePos
            }),
    {
        if generation != self.generation {
            Next::Reattach
        } else {
            Next::WritePos
        }
    }

    /// The ring was mapped anew, or that failed. Reading goes on from its oldest event; what
    /// was counted stays.
    pub fn on_reattach(&mut self, r: Result<(u64, u64), Errno>) -> (next: Next)
        ensures
            match r {
                Ok((tail, generation)) => {
                    &&& next == Next::Generation
                    &&& *final(self) == (peios_event_reader { read_pos: tail, generation, ..*old(self) })
                },
                Err(e) => next == Next::Failed(e) && *final(self) == *old(self),
            },
    {
        match r {
            Ok((tail, generation)) => {
                self.read_pos = tail;
                self.generation = generation;
                Next::Generation
            },
            Err(e) => Next::Failed(e),
        }
    }

    /// The write position was loaded.
    pub fn on_write_pos(&self, write_pos: u64) -> (next: Next)
        ensures
            next == (if write_pos == self.read_pos {
                Next::Empty
            } else {
                Next::Tail
            }),
    {
        if write_pos == self.read_pos {
            Next::Empty
        } else {
            Next::Tail
        }
    }

    /// The tail was loaded: a reader that has been lapped goes on from there.
    pub fn on_tail(&mut self, tail: u64) -> (next: Next)
        ensures
            if old(self).read_pos < tail {
                next == Next::Generation && *final(self) == (peios_event_reader { read_pos: tail, ..*old(self) })
            } else {
                next == Next::Event(tail) && *final(self) == *old(self)
            },
    {
        if self.read_pos < tail {
            self.read_pos = tail;
            Next::Generation
        } else {
            Next::Event(tail)
        }
    }

    /// The event at the read position was looked at.
    pub fn on_event(&self, sound: bool, saved_tail: u64) -> (next: Next)
        ensures
            next == (if sound {
                Next::Recheck(saved_tail)
            } else {
                Next::Resync
            }),
    {
        if sound {
            Next::Recheck(saved_tail)
        } else {
            Next::Resync
        }
    }

    /// The tail was loaded after a corrupt event.
    pub fn on_resync(&mut self, tail: u64) -> (next: Next)
        ensures
            next == Next::Generation,
            *final(self) == (peios_event_reader { read_pos: tail, ..*old(self) }),
    {
        self.read_pos = tail;
        Next::Generation
    }

    /// The tail was loaded again after an event of this size and number. If it has moved past
    /// the event, what was read may be torn and is dropped. Else the event counts as read,
    /// whether or not the caller keeps it.
    pub fn on_recheck(&mut self, tail: u64, saved_tail: u64, size: u64, sequence: u64) -> (next: Next)
        ensures
            if tail > saved_tail && old(self).read_pos < tail {
                next == Next::Generation && *final(self) == *old(self)
            } else {
                next == Next::Delivered && *final(self) == old(self).delivered(size, sequence)
            },
    {
        if tail > saved_tail && self.read_pos < tail {
            return Next::Generation;
        }
        if self.last_seq != 0 && sequence > self.last_seq && sequence - self.last_seq > 1 {
            self.lost = self.lost.wrapping_add(sequence - self.last_seq - 1);
        }
        self.last_seq = sequence;
        self.read_pos = self.read_pos.wrapping_add(size);
        Next::Delivered
    }

    /// The reader behind an event of this size and number.
    pub open spec fn delivered(self, size: u64, sequence: u64) -> peios_event_reader {
        peios_event_reader {
            read_pos: self.read_pos.wrapping_add(size),
            last_seq: sequence,
            lost: self.lost.wrapping_add(missing(self.last_seq, sequence)),
            ..self
        }
    }
}

/// How many events were lost, if there is a reader.
pub fn peios_event_reader_lost(reader: Option<&peios_event_reader>) -> (lost: u64)
    ensures
        lost == (match reader {
            Some(r) => r.lost,
            None => 0,
        }),
{
    match reader {
        Some(r) => r.lost,
        None => 0,
    }
}

/// The reader after events of these sizes and numbers.
pub open spec fn after_events(r: peios_event_reader, events: Seq<(u64, u64)>) -> peios_event_reader
    decreases events.len(),
{
    if events.len() == 0 {
        r
    } else {
        after_events(r, events.drop_last()).delivered(events.last().0, events.last().1)
    }
}

/// The loss is what the numbers say: after events with growing numbers, as many are lost as
/// there are numbers between the first and the last that did not arrive.
pub proof fn law_loss_is_what_the_numbers_skip(r: peios_event_reader, events: Seq<(u64, u64)>)
    requires
        r.last_seq == 0,
        r.lost == 0,
        events.len() > 0,
        events[0].1 > 0,
        forall|i: int, j: int| 0 <= i < j < events.len() ==> (#[trigger] events[i]).1 < (#[trigger] events[j]).1,
    ensures
        after_events(r, events).last_seq == events.last().1,
        after_events(r, events).lost == events.last().1 - events[0].1 + 1 - events.len(),
    decreases events.len(),
{
    let front = events.drop_last();
    let last = events.last();
    if front.len() == 0 {
        assert(after_events(r, front) == r);
    } else {
        law_loss_is_what_the_numbers_skip(r, front);
        let n = front.len() as int;
        assert(front[n - 1] == events[n - 1]);
        assert(events[n - 1].1 < events[n].1);
        assert(front[0] == events[0]);
        assert(n > 1 ==> events[0].1 < events[n - 1].1);
    }
}

/// A reader is behind an event that it delivered, and before that it was not lapped: nothing
/// is delivered from a position that the tail has passed.
pub proof fn law_torn_events_are_dropped(r: peios_event_reader, tail: u64, saved_tail: u64)
    requires
        saved_tail <= r.read_pos,
        !(tail > saved_tail && r.read_pos < tail),
    ensures
        tail <= r.read_pos,
{
}

/// Numbers without gaps lose nothing.
pub proof fn law_no_gap_no_loss(r: peios_event_reader, size: u64, sequence: u64)
    requires
        r.last_seq == 0 || sequence <= r.last_seq + 1,
    ensures
        r.delivered(size, sequence).lost == r.lost,
{
}

} // verus!
