//! Reassembly of pictures that arrive as numbered chunks, one datagram
//! each, into the write side of the framebuffer.

use crate::bytes::{le16, spec_le16};
use crate::hub75::{clipped_write, Hub75, Hub75View};
use crate::patterns::{rgb, spec_rgb};
use vstd::prelude::*;

verus! {

/// Bytes of the chunk header.
pub const HEADER_SIZE: usize = 10;

/// Most pixel bytes that one datagram carries.
pub const MAX_PAYLOAD: usize = 1462;

/// Pixels between the starts of two neighbouring chunks.
pub const PIXELS_PER_CHUNK: usize = 487;

/// Most chunks of one picture: the width of the arrival mask.
pub const MAX_CHUNKS: u8 = 32;

/// A picture that lacks at most this many chunks when its successor starts
/// is shown as it is.
pub const PARTIAL_SWAP_SLACK: u16 = 2;

/// Frame identifier of a receiver that has seen no picture yet.
pub const NO_FRAME: u16 = 0xFFFF;

pub const MAGIC_0: u8 = 0x42;

pub const MAGIC_1: u8 = 0x4D;

/// Counters and last observations, for reporting only.
#[derive(Clone, Copy, Debug)]
pub struct BitmapStats {
    pub packets_total: u32,
    pub packets_valid: u32,
    pub packets_bad_magic: u32,
    pub packets_bad_header: u32,
    pub frames_completed: u32,
    pub frames_partial: u32,
    pub frames_dropped: u32,
    pub last_frame_id: u16,
    pub last_chunk_index: u8,
    pub last_total_chunks: u8,
    pub last_width: u16,
    pub last_height: u16,
    pub last_data_len: u16,
    pub chunks_received: u16,
    pub frame_interval_ms: u32,
    pub avg_interval_ms: u32,
    pub jitter_ms: u32,
}

impl BitmapStats {
    pub fn new() -> (stats: Self)
        ensures
            stats == spec_zero_stats(),
    {
        Self {
            packets_total: 0,
            packets_valid: 0,
            packets_bad_magic: 0,
            packets_bad_header: 0,
            frames_completed: 0,
            frames_partial: 0,
            frames_dropped: 0,
            last_frame_id: 0,
            last_chunk_index: 0,
            last_total_chunks: 0,
            last_width: 0,
            last_height: 0,
            last_data_len: 0,
            chunks_received: 0,
            frame_interval_ms: 0,
            avg_interval_ms: 0,
            jitter_ms: 0,
        }
    }
}

pub open spec fn spec_zero_stats() -> BitmapStats {
    BitmapStats {
        packets_total: 0,
        packets_valid: 0,
        packets_bad_magic: 0,
        packets_bad_header: 0,
        frames_completed: 0,
        frames_partial: 0,
        frames_dropped: 0,
        last_frame_id: 0,
        last_chunk_index: 0,
        last_total_chunks: 0,
        last_width: 0,
        last_height: 0,
        last_data_len: 0,
        chunks_received: 0,
        frame_interval_ms: 0,
        avg_interval_ms: 0,
        jitter_ms: 0,
    }
}

/// The fields of a chunk header.
#[derive(Clone, Copy, Debug, PartialEq, Eq, Structural)]
pub struct ChunkHeader {
    pub frame_id: u16,
    pub chunk_index: u8,
    pub total_chunks: u8,
    pub width: u16,
    pub height: u16,
}

/// How a datagram is received.
#[derive(Clone, Copy, Debug, PartialEq, Eq, Structural)]
pub enum Verdict {
    /// Shorter than a header.
    TooShort,
    /// The first two bytes are not the signature.
    BadMagic,
    /// The chunk numbering is impossible.
    BadHeader,
    Accepted,
}

/// What the arrival of a chunk means for the picture that was being
/// assembled before it.
#[derive(Clone, Copy, Debug, PartialEq, Eq, Structural)]
pub enum PreviousFrame {
    /// The chunk belongs to it.
    Continues,
    /// A new picture starts and none of the old one's chunks is recorded.
    Untouched,
    /// A new picture starts and the old one is close enough to be shown.
    Partial,
    /// A new picture starts and the old one is given up.
    Dropped,
}

/// The assembly state of the picture in progress, and the statistics.
///
/// Bit `i` of `received_mask` says that chunk `i` of the picture has
/// arrived; `chunks_count` is the number of bits set.
pub struct BitmapReceiver {
    pub current_frame_id: u16,
    pub received_mask: u32,
    pub chunks_count: u16,
    pub total_chunks: u8,
    pub width: u16,
    pub height: u16,
    pub last_complete_ms: i64,
    pub stats: BitmapStats,
}

/// A counter after one more event. Counters never fall: one that has
/// reached the largest value of its 32 bits stays there.
pub open spec fn bump(c: u32) -> u32 {
    if c == u32::MAX {
        u32::MAX
    } else {
        (c + 1) as u32
    }
}

/// The mask of a picture of `total` chunks of which none is missing.
pub open spec fn full_mask(total: u8) -> u32 {
    if total >= 32 {
        0xFFFF_FFFFu32
    } else {
        ((1u32 << (total as u32)) - 1) as u32
    }
}

/// Whether `mask` records chunk `i`.
pub open spec fn has_chunk(mask: u32, i: u8) -> bool {
    mask & (1u32 << (i as u32)) != 0
}

/// The number of chunks below `n` that `mask` records.
pub open spec fn count_chunks(mask: u32, n: nat) -> nat
    decreases n,
{
    if n == 0 {
        0
    } else {
        count_chunks(mask, (n - 1) as nat) + if has_chunk(mask, (n - 1) as u8) {
            1nat
        } else {
            0nat
        }
    }
}

/// The header at the start of `data`.
pub open spec fn spec_parse_header(data: Seq<u8>) -> ChunkHeader
    recommends
        data.len() >= HEADER_SIZE,
{
    ChunkHeader {
        frame_id: spec_le16(data[2], data[3]),
        chunk_index: data[4],
        total_chunks: data[5],
        width: spec_le16(data[6], data[7]),
        height: spec_le16(data[8], data[9]),
    }
}

/// The pixels that `payload` carries: one for each whole group of three
/// bytes, red first. Bytes behind the last whole group are ignored.
pub open spec fn spec_pixels(payload: Seq<u8>) -> Seq<u32> {
    Seq::new(
        (payload.len() / 3) as nat,
        |k: int| spec_rgb(payload[3 * k], payload[3 * k + 1], payload[3 * k + 2]),
    )
}

/// The time between two moments of the millisecond clock, as 32 bits hold
/// it.
pub open spec fn spec_interval(last: i64, now: i64) -> u32 {
    ((now - last) % 0x1_0000_0000) as u32
}

/// The running average after one more interval: seven parts of the old
/// average and one part of the new interval. An average of zero stands for
/// "none yet" and is replaced by the interval.
pub open spec fn spec_average(avg: u32, interval: u32) -> u32 {
    if avg == 0 {
        interval
    } else {
        ((avg * 7 + interval) / 8) as u32
    }
}

/// The distance between two unsigned numbers.
pub open spec fn spec_distance(a: u32, b: u32) -> u32 {
    if a > b {
        (a - b) as u32
    } else {
        (b - a) as u32
    }
}

/// The statistics after a picture was finished at `now`: where an earlier
/// finish is on record, the interval since then, the new average and the
/// jitter, which is the distance of the interval from the new average.
pub open spec fn spec_update_timing(rx: BitmapReceiver, now: i64) -> BitmapReceiver {
    if rx.last_complete_ms > 0 {
        let interval = spec_interval(rx.last_complete_ms, now);
        let avg = spec_average(rx.stats.avg_interval_ms, interval);
        BitmapReceiver {
            last_complete_ms: now,
            stats: BitmapStats {
                frame_interval_ms: interval,
                avg_interval_ms: avg,
                jitter_ms: spec_distance(interval, avg),
                ..rx.stats
            },
            ..rx
        }
    } else {
        BitmapReceiver { last_complete_ms: now, ..rx }
    }
}

/// Whether a chunk with header `h` opens a new picture: its identifier is
/// not the current one, or no picture was ever started.
pub open spec fn starts_new_frame(rx: BitmapReceiver, h: ChunkHeader) -> bool {
    h.frame_id != rx.current_frame_id || rx.total_chunks == 0
}

/// The chunk count that is expected once a chunk with header `h` is taken
/// in. A new picture is expected to have the count that `h` declares. The
/// picture in progress keeps its count, unless the index of the chunk is
/// not below it: then the count is raised to the one that `h` declares,
/// so that every recorded chunk lies below the expected count.
pub open spec fn expected_total(rx: BitmapReceiver, h: ChunkHeader) -> u8 {
    if starts_new_frame(rx, h) || h.chunk_index >= rx.total_chunks {
        h.total_chunks
    } else {
        rx.total_chunks
    }
}

/// Whether the numbering in `h` is possible: between 1 and 32 chunks, and
/// an index below the count.
pub open spec fn header_ok(h: ChunkHeader) -> bool {
    &&& h.total_chunks != 0
    &&& h.total_chunks <= MAX_CHUNKS
    &&& h.chunk_index < h.total_chunks
}

pub open spec fn spec_verdict(data: Seq<u8>) -> Verdict {
    if data.len() < HEADER_SIZE {
        Verdict::TooShort
    } else if data[0] != MAGIC_0 || data[1] != MAGIC_1 {
        Verdict::BadMagic
    } else if !header_ok(spec_parse_header(data)) {
        Verdict::BadHeader
    } else {
        Verdict::Accepted
    }
}

/// Whether the picture in progress lacks at most two chunks.
pub open spec fn near_complete(rx: BitmapReceiver) -> bool {
    rx.total_chunks > 0 && rx.chunks_count + PARTIAL_SWAP_SLACK >= rx.total_chunks
}

pub open spec fn previous_fate(rx: BitmapReceiver, h: ChunkHeader) -> PreviousFrame {
    if !starts_new_frame(rx, h) {
        PreviousFrame::Continues
    } else if rx.chunks_count == 0 {
        PreviousFrame::Untouched
    } else if near_complete(rx) {
        PreviousFrame::Partial
    } else {
        PreviousFrame::Dropped
    }
}

/// Counts a datagram of `len` bytes as seen.
pub open spec fn spec_begin(rx: BitmapReceiver, len: int) -> BitmapReceiver {
    BitmapReceiver {
        stats: BitmapStats {
            packets_total: bump(rx.stats.packets_total),
            last_data_len: (len % 0x1_0000) as u16,
            ..rx.stats
        },
        ..rx
    }
}

/// Records the fields of `h` as the last header observed.
pub open spec fn spec_note_header(rx: BitmapReceiver, h: ChunkHeader) -> BitmapReceiver {
    BitmapReceiver {
        stats: BitmapStats {
            last_frame_id: h.frame_id,
            last_chunk_index: h.chunk_index,
            last_total_chunks: h.total_chunks,
            last_width: h.width,
            last_height: h.height,
            ..rx.stats
        },
        ..rx
    }
}

pub open spec fn spec_count_bad_header(rx: BitmapReceiver) -> BitmapReceiver {
    BitmapReceiver {
        stats: BitmapStats { packets_bad_header: bump(rx.stats.packets_bad_header), ..rx.stats },
        ..rx
    }
}

pub open spec fn spec_count_bad_magic(rx: BitmapReceiver) -> BitmapReceiver {
    BitmapReceiver {
        stats: BitmapStats { packets_bad_magic: bump(rx.stats.packets_bad_magic), ..rx.stats },
        ..rx
    }
}

pub open spec fn spec_count_valid(rx: BitmapReceiver) -> BitmapReceiver {
    BitmapReceiver {
        stats: BitmapStats { packets_valid: bump(rx.stats.packets_valid), ..rx.stats },
        ..rx
    }
}

/// Settles the picture in progress before a chunk with header `h` is
/// recorded. A chunk of the same picture changes nothing but the expected
/// count, and that only where its index is not below it. A chunk of a new
/// picture counts the old one as partial (with a timing update) or as
/// dropped, where any of its chunks was recorded, and then starts the new
/// picture with an empty mask.
pub open spec fn spec_close_previous(rx: BitmapReceiver, h: ChunkHeader, now: i64) -> BitmapReceiver {
    let closed = match previous_fate(rx, h) {
        PreviousFrame::Continues => rx,
        PreviousFrame::Untouched => rx,
        PreviousFrame::Partial => spec_update_timing(
            BitmapReceiver {
                stats: BitmapStats { frames_partial: bump(rx.stats.frames_partial), ..rx.stats },
                ..rx
            },
            now,
        ),
        PreviousFrame::Dropped => BitmapReceiver {
            stats: BitmapStats { frames_dropped: bump(rx.stats.frames_dropped), ..rx.stats },
            ..rx
        },
    };
    if starts_new_frame(rx, h) {
        BitmapReceiver {
            current_frame_id: h.frame_id,
            received_mask: 0,
            chunks_count: 0,
            total_chunks: h.total_chunks,
            width: h.width,
            height: h.height,
            ..closed
        }
    } else {
        BitmapReceiver { total_chunks: expected_total(rx, h), ..closed }
    }
}

/// Marks chunk `index` as arrived.
pub open spec fn spec_record(rx: BitmapReceiver, index: u8) -> BitmapReceiver {
    let mask = rx.received_mask | (1u32 << (index as u32));
    let count = count_chunks(mask, 32) as u16;
    BitmapReceiver {
        received_mask: mask,
        chunks_count: count,
        stats: BitmapStats { chunks_received: count, ..rx.stats },
        ..rx
    }
}

/// Whether every chunk of the picture in progress has arrived.
pub open spec fn is_complete(rx: BitmapReceiver) -> bool {
    rx.received_mask == full_mask(rx.total_chunks)
}

/// Counts the picture as completed where it is, clears the mask for the
/// next one and updates the timing.
pub open spec fn spec_finish(rx: BitmapReceiver, now: i64) -> BitmapReceiver {
    if is_complete(rx) {
        spec_update_timing(
            BitmapReceiver {
                received_mask: 0,
                chunks_count: 0,
                stats: BitmapStats { frames_completed: bump(rx.stats.frames_completed), ..rx.stats },
                ..rx
            },
            now,
        )
    } else {
        rx
    }
}

/// The receiver after an accepted datagram, up to and including the mark
/// in the mask, before the test for completion.
pub open spec fn spec_recorded(rx: BitmapReceiver, data: Seq<u8>, now: i64) -> BitmapReceiver {
    let h = spec_parse_header(data);
    spec_record(
        spec_close_previous(
            spec_count_valid(spec_note_header(spec_begin(rx, data.len() as int), h)),
            h,
            now,
        ),
        h.chunk_index,
    )
}

/// The receiver after a datagram.
pub open spec fn spec_receiver_after(rx: BitmapReceiver, data: Seq<u8>, now: i64) -> BitmapReceiver {
    let h = spec_parse_header(data);
    let seen = spec_begin(rx, data.len() as int);
    match spec_verdict(data) {
        Verdict::TooShort => spec_count_bad_header(seen),
        Verdict::BadMagic => spec_count_bad_magic(seen),
        Verdict::BadHeader => spec_count_bad_header(spec_note_header(seen, h)),
        Verdict::Accepted => spec_finish(spec_recorded(rx, data, now), now),
    }
}

/// The device after a datagram. A rejected datagram leaves it alone. An
/// accepted one first swaps the halves where the old picture is shown
/// partially, and then lays its pixels onto the write side, from
/// `chunk_index * 487` on.
pub open spec fn spec_device_after(rx: BitmapReceiver, fb: Hub75View, data: Seq<u8>) -> Hub75View {
    let h = spec_parse_header(data);
    if spec_verdict(data) == Verdict::Accepted {
        let shown = if previous_fate(rx, h) == PreviousFrame::Partial {
            fb.swapped()
        } else {
            fb
        };
        shown.with_write_side(
            clipped_write(
                shown.write_side(),
                h.chunk_index as int * PIXELS_PER_CHUNK as int,
                spec_pixels(data.subrange(HEADER_SIZE as int, data.len() as int)),
                shown.write_bound(),
            ),
        )
    } else {
        fb
    }
}

/// Whether the caller is to swap the halves after a datagram: the
/// datagram was accepted and either completed its picture or made the old
/// one be shown partially.
pub open spec fn spec_swap_now(rx: BitmapReceiver, data: Seq<u8>, now: i64) -> bool {
    spec_verdict(data) == Verdict::Accepted && (previous_fate(rx, spec_parse_header(data))
        == PreviousFrame::Partial || is_complete(spec_recorded(rx, data, now)))
}

pub proof fn lemma_empty_mask(n: nat)
    requires
        n <= 32,
    ensures
        count_chunks(0, n) == 0,
    decreases n,
{
    if n > 0 {
        lemma_empty_mask((n - 1) as nat);
        let i = (n - 1) as u32;
        assert(0u32 & (1u32 << i) == 0) by (bit_vector);
    }
}

/// A mask whose chunks lie below a count fits every larger count too.
pub proof fn lemma_mask_fits_larger(mask: u32, small: u8, large: u8)
    requires
        small <= large <= MAX_CHUNKS,
        mask & full_mask(small) == mask,
    ensures
        mask & full_mask(large) == mask,
{
    let a = small as u32;
    let b = large as u32;
    assert(mask & (if b >= 32 {
        0xFFFF_FFFFu32
    } else {
        ((1u32 << b) - 1) as u32
    }) == mask) by (bit_vector)
        requires
            a <= b <= 32,
            mask & (if a >= 32 {
                0xFFFF_FFFFu32
            } else {
                ((1u32 << a) - 1) as u32
            }) == mask,
    ;
}

pub proof fn lemma_count_bound(mask: u32, n: nat)
    ensures
        count_chunks(mask, n) <= n,
    decreases n,
{
    if n > 0 {
        lemma_count_bound(mask, (n - 1) as nat);
    }
}

/// The number of chunks that `mask` records.
pub fn count_received(mask: u32) -> (n: u16)
    ensures
        n == count_chunks(mask, 32),
{
    let mut n: u16 = 0;
    let mut i: u8 = 0;
    while i < 32
        invariant
            i <= 32,
            n == count_chunks(mask, i as nat),
            n <= i,
        decreases 32 - i,
    {
        if mask & (1u32 << (i as u32)) != 0 {
            n += 1;
        }
        i += 1;
    }
    n
}

/// The mask with the low `total` bits set.
pub fn full_mask_of(total: u8) -> (mask: u32)
    ensures
        mask == full_mask(total),
{
    if total >= 32 {
        0xFFFF_FFFFu32
    } else {
        let t: u32 = total as u32;
        assert((1u32 << t) >= 1) by (bit_vector)
            requires
                t < 32,
        ;
        (1u32 << t) - 1
    }
}

/// A counter after one more event.
pub fn bumped(c: u32) -> (next: u32)
    ensures
        next == bump(c),
{
    if c == u32::MAX {
        u32::MAX
    } else {
        c + 1
    }
}

/// Reads the header at the start of `data`.
pub fn parse_header(data: &[u8]) -> (h: ChunkHeader)
    requires
        data@.len() >= HEADER_SIZE,
    ensures
        h == spec_parse_header(data@),
{
    ChunkHeader {
        frame_id: le16(data[2], data[3]),
        chunk_index: data[4],
        total_chunks: data[5],
        width: le16(data[6], data[7]),
        height: le16(data[8], data[9]),
    }
}

/// Turns pixel bytes into pixel words.
pub fn rgb_pixels(payload: &[u8]) -> (pixels: Vec<u32>)
    ensures
        pixels@ == spec_pixels(payload@),
{
    let count: usize = payload.len() / 3;
    let mut pixels: Vec<u32> = Vec::new();
    let mut k: usize = 0;
    while k < count
        invariant
            k <= count,
            count == payload@.len() / 3,
            3 * count <= payload@.len() <= usize::MAX,
            pixels@.len() == k,
            forall|j: int|
                0 <= j < k ==> #[trigger] pixels@[j] == spec_rgb(
                    payload@[3 * j],
                    payload@[3 * j + 1],
                    payload@[3 * j + 2],
                ),
        decreases count - k,
    {
        pixels.push(rgb(payload[3 * k], payload[3 * k + 1], payload[3 * k + 2]));
        k += 1;
    }
    assert(pixels@ =~= spec_pixels(payload@));
    pixels
}

/// How the datagram `data` is received.
pub fn verdict(data: &[u8]) -> (v: Verdict)
    ensures
        v == spec_verdict(data@),
{
    if data.len() < HEADER_SIZE {
        return Verdict::TooShort;
    }
    if data[0] != MAGIC_0 || data[1] != MAGIC_1 {
        return Verdict::BadMagic;
    }
    let h = parse_header(data);
    if h.total_chunks == 0 || h.total_chunks > MAX_CHUNKS || h.chunk_index >= h.total_chunks {
        return Verdict::BadHeader;
    }
    Verdict::Accepted
}

impl BitmapReceiver {
    /// What holds of the assembly state at all times: at most 32 chunks
    /// are expected, every recorded chunk lies below the expected count,
    /// the count of recorded chunks is that of the mask, and a picture in
    /// progress lacks at least one chunk.
    pub open spec fn wf(&self) -> bool {
        &&& self.total_chunks <= MAX_CHUNKS
        &&& self.received_mask & full_mask(self.total_chunks) == self.received_mask
        &&& self.chunks_count == count_chunks(self.received_mask, 32)
        &&& self.total_chunks > 0 ==> self.received_mask != full_mask(self.total_chunks)
    }

    /// A receiver that has seen nothing.
    pub fn new() -> (rx: Self)
        ensures
            rx.wf(),
            rx.current_frame_id == NO_FRAME,
            rx.received_mask == 0,
            rx.chunks_count == 0,
            rx.total_chunks == 0,
            rx.width == 0,
            rx.height == 0,
            rx.last_complete_ms == 0,
            rx.stats == spec_zero_stats(),
    {
        proof {
            lemma_empty_mask(32);
            assert(0u32 & (((1u32 << 0u32) - 1) as u32) == 0) by (bit_vector);
        }
        Self {
            current_frame_id: NO_FRAME,
            received_mask: 0,
            chunks_count: 0,
            total_chunks: 0,
            width: 0,
            height: 0,
            last_complete_ms: 0,
            stats: BitmapStats::new(),
        }
    }

    /// Notes that a picture was finished at `time_ms`.
    pub fn update_timing(&mut self, time_ms: i64)
        ensures
            *final(self) == spec_update_timing(*old(self), time_ms),
    {
        if self.last_complete_ms > 0 {
            let shifted: u128 = (time_ms as i128 - self.last_complete_ms as i128
                + 18446744073709551616) as u128;
            let interval: u32 = (shifted % 4294967296) as u32;
            self.stats.frame_interval_ms = interval;
            if self.stats.avg_interval_ms == 0 {
                self.stats.avg_interval_ms = interval;
            } else {
                self.stats.avg_interval_ms = ((self.stats.avg_interval_ms as u64 * 7
                    + interval as u64) / 8) as u32;
            }
            let avg: u32 = self.stats.avg_interval_ms;
            self.stats.jitter_ms = if interval > avg {
                interval - avg
            } else {
                avg - interval
            };
        }
        self.last_complete_ms = time_ms;
    }

    /// Takes in one datagram of the bitmap stream.
    ///
    /// A datagram that is too short, lacks the signature or numbers its
    /// chunk impossibly is counted and otherwise ignored. An accepted chunk
    /// of a new picture first settles the old one: shown partially (the
    /// halves are swapped here), dropped, or nothing where none of its
    /// chunks had arrived. An accepted chunk of the picture in progress
    /// whose index is not below the expected count raises that count to
    /// the one its header declares. Then the chunk's pixels are written and
    /// its bit is set. The result tells the caller to swap the halves now: the
    /// picture is complete, or the old one is to be shown partially.
    pub fn process_packet(&mut self, data: &[u8], hub75: &mut Hub75, time_ms: i64) -> (swap_now:
        bool)
        requires
            old(hub75).wf(),
        ensures
            final(hub75).wf(),
            old(self).wf() ==> final(self).wf(),
            *final(self) == spec_receiver_after(*old(self), data@, time_ms),
            final(hub75)@ == spec_device_after(*old(self), old(hub75)@, data@),
            swap_now == spec_swap_now(*old(self), data@, time_ms),
    {
        let v = verdict(data);
        self.stats.packets_total = bumped(self.stats.packets_total);
        self.stats.last_data_len = (data.len() % 65536) as u16;
        match v {
            Verdict::TooShort => {
                self.stats.packets_bad_header = bumped(self.stats.packets_bad_header);
                return false;
            },
            Verdict::BadMagic => {
                self.stats.packets_bad_magic = bumped(self.stats.packets_bad_magic);
                return false;
            },
            _ => {},
        }
        let h = parse_header(data);
        self.stats.last_frame_id = h.frame_id;
        self.stats.last_chunk_index = h.chunk_index;
        self.stats.last_total_chunks = h.total_chunks;
        self.stats.last_width = h.width;
        self.stats.last_height = h.height;
        if v == Verdict::BadHeader {
            self.stats.packets_bad_header = bumped(self.stats.packets_bad_header);
            return false;
        }
        self.stats.packets_valid = bumped(self.stats.packets_valid);

        let mut swapped_partial = false;
        if h.frame_id != self.current_frame_id || self.total_chunks == 0 {
            if self.chunks_count > 0 {
                if self.total_chunks > 0 && self.chunks_count as u32 + PARTIAL_SWAP_SLACK as u32
                    >= self.total_chunks as u32 {
                    hub75.swap_buffers();
                    self.stats.frames_partial = bumped(self.stats.frames_partial);
                    self.update_timing(time_ms);
                    swapped_partial = true;
                } else {
                    self.stats.frames_dropped = bumped(self.stats.frames_dropped);
                }
            }
            self.current_frame_id = h.frame_id;
            self.received_mask = 0;
            self.chunks_count = 0;
            self.total_chunks = h.total_chunks;
            self.width = h.width;
            self.height = h.height;
        } else if h.chunk_index >= self.total_chunks {
            self.total_chunks = h.total_chunks;
        }
        let pixels = rgb_pixels(&data[HEADER_SIZE..data.len()]);
        hub75.write_img_data(h.chunk_index as usize * PIXELS_PER_CHUNK, &pixels);

        let index: u32 = h.chunk_index as u32;
        let total: u32 = self.total_chunks as u32;
        let ghost before = self.received_mask;
        self.received_mask = self.received_mask | (1u32 << index);
        self.chunks_count = count_received(self.received_mask);
        self.stats.chunks_received = self.chunks_count;
        let full = full_mask_of(self.total_chunks);
        proof {
            if old(self).wf() {
                if !starts_new_frame(*old(self), h) && h.chunk_index >= old(self).total_chunks {
                    lemma_mask_fits_larger(before, old(self).total_chunks, h.total_chunks);
                }
                let bit = 1u32 << index;
                assert(bit & (if total >= 32 {
                    0xFFFF_FFFFu32
                } else {
                    ((1u32 << total) - 1) as u32
                }) == bit) by (bit_vector)
                    requires
                        bit == 1u32 << index,
                        index < total,
                        total <= 32,
                ;
                assert(0u32 & full == 0) by (bit_vector);
                assert((before | bit) & full == before | bit) by (bit_vector)
                    requires
                        before & full == before,
                        bit & full == bit,
                ;
            }
        }
        let complete = self.received_mask == full;
        if complete {
            self.stats.frames_completed = bumped(self.stats.frames_completed);
            self.received_mask = 0;
            self.chunks_count = 0;
            self.update_timing(time_ms);
            proof {
                lemma_empty_mask(32);
                assert(0u32 & full == 0) by (bit_vector);
                if old(self).wf() {
                    assert((if total >= 32 {
                        0xFFFF_FFFFu32
                    } else {
                        ((1u32 << total) - 1) as u32
                    }) != 0) by (bit_vector)
                        requires
                            1 <= total <= 32,
                    ;
                }
            }
        }
        complete || swapped_partial
    }
}

} // verus!
