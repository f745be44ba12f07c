//! What holds of the receiver from one datagram to the next.

use crate::bitmap_udp::{
    bump, count_chunks, expected_total, full_mask, has_chunk, is_complete, lemma_count_bound,
    lemma_empty_mask, lemma_mask_fits_larger, previous_fate, spec_device_after, spec_parse_header,
    spec_pixels, spec_receiver_after, spec_record, spec_recorded, spec_swap_now, spec_verdict,
    starts_new_frame, BitmapReceiver, PreviousFrame, Verdict, HEADER_SIZE, MAGIC_0, MAGIC_1,
    MAX_CHUNKS, MAX_PAYLOAD, PIXELS_PER_CHUNK,
};
use crate::hub75::Hub75View;
use vstd::prelude::*;

verus! {

/// Whether two receivers agree in everything but the statistics.
pub open spec fn same_assembly(a: BitmapReceiver, b: BitmapReceiver) -> bool {
    &&& a.current_frame_id == b.current_frame_id
    &&& a.received_mask == b.received_mask
    &&& a.chunks_count == b.chunks_count
    &&& a.total_chunks == b.total_chunks
    &&& a.width == b.width
    &&& a.height == b.height
    &&& a.last_complete_ms == b.last_complete_ms
}

/// Whether `data` is long enough for a header and starts with the
/// signature.
pub open spec fn has_signature(data: Seq<u8>) -> bool {
    data.len() >= HEADER_SIZE && data[0] == MAGIC_0 && data[1] == MAGIC_1
}

/// Setting a bit changes that bit and no other.
pub proof fn lemma_set_bit(mask: u32, i: u8, j: u8)
    requires
        i < 32,
        j < 32,
    ensures
        has_chunk(mask | (1u32 << (i as u32)), j) == (j == i || has_chunk(mask, j)),
{
    let ii = i as u32;
    let jj = j as u32;
    assert((((mask | (1u32 << ii)) & (1u32 << jj)) != 0) == (jj == ii || (mask & (1u32 << jj))
        != 0)) by (bit_vector)
        requires
            ii < 32,
            jj < 32,
    ;
}

/// A chunk that is recorded already leaves the mask as it is.
pub proof fn lemma_record_again(mask: u32, i: u8)
    requires
        i < 32,
        has_chunk(mask, i),
    ensures
        mask | (1u32 << (i as u32)) == mask,
{
    let ii = i as u32;
    assert(mask | (1u32 << ii) == mask) by (bit_vector)
        requires
            ii < 32,
            mask & (1u32 << ii) != 0,
    ;
}

/// Recording the same chunk twice is the same as recording it once.
pub proof fn lemma_record_idempotent(rx: BitmapReceiver, index: u8)
    requires
        index < 32,
    ensures
        spec_record(spec_record(rx, index), index) == spec_record(rx, index),
{
    let ii = index as u32;
    let mask = rx.received_mask;
    assert((mask | (1u32 << ii)) | (1u32 << ii) == mask | (1u32 << ii)) by (bit_vector);
}

/// A chunk of the picture in progress that has arrived before changes
/// neither the mask nor the count, completes nothing and asks for no swap.
pub proof fn lemma_resend_is_harmless(rx: BitmapReceiver, data: Seq<u8>, now: i64)
    requires
        rx.wf(),
        spec_verdict(data) == Verdict::Accepted,
        !starts_new_frame(rx, spec_parse_header(data)),
        has_chunk(rx.received_mask, spec_parse_header(data).chunk_index),
    ensures
        same_assembly(spec_receiver_after(rx, data, now), rx),
        spec_receiver_after(rx, data, now).stats.frames_completed == rx.stats.frames_completed,
        spec_receiver_after(rx, data, now).stats.frames_partial == rx.stats.frames_partial,
        spec_receiver_after(rx, data, now).stats.frames_dropped == rx.stats.frames_dropped,
        !spec_swap_now(rx, data, now),
{
    let h = spec_parse_header(data);
    lemma_record_again(rx.received_mask, h.chunk_index);
    lemma_part_of(rx.received_mask, full_mask(rx.total_chunks), h.chunk_index);
    lemma_full_mask_bits(rx.total_chunks, h.chunk_index);
}

/// A datagram with the signature whose header names no chunks, more than
/// 32 chunks, or an index that is not below the count leaves the assembly
/// state and the device alone and asks for no swap. It is counted as seen
/// and as a bad header, and by no other counter.
pub proof fn lemma_malformed_header(rx: BitmapReceiver, fb: Hub75View, data: Seq<u8>, now: i64)
    requires
        has_signature(data),
        ({
            let h = spec_parse_header(data);
            h.total_chunks == 0 || h.chunk_index >= h.total_chunks || h.total_chunks > MAX_CHUNKS
        }),
    ensures
        spec_verdict(data) == Verdict::BadHeader,
        same_assembly(spec_receiver_after(rx, data, now), rx),
        spec_device_after(rx, fb, data) == fb,
        !spec_swap_now(rx, data, now),
        ({
            let before = rx.stats;
            let after = spec_receiver_after(rx, data, now).stats;
            &&& after.packets_bad_header == bump(before.packets_bad_header)
            &&& after.packets_total == bump(before.packets_total)
            &&& after.packets_valid == before.packets_valid
            &&& after.packets_bad_magic == before.packets_bad_magic
            &&& after.frames_completed == before.frames_completed
            &&& after.frames_partial == before.frames_partial
            &&& after.frames_dropped == before.frames_dropped
        }),
{
}

/// Where a picture lacks one or two chunks and a chunk of another picture
/// arrives, the halves are swapped before the new chunk is written, the
/// caller is told to swap, and the old picture is counted once as partial
/// and not as dropped.
pub proof fn lemma_partial_swap(rx: BitmapReceiver, fb: Hub75View, data: Seq<u8>, now: i64)
    requires
        rx.wf(),
        fb.wf(),
        spec_verdict(data) == Verdict::Accepted,
        spec_parse_header(data).frame_id != rx.current_frame_id,
        rx.chunks_count >= 1,
        rx.chunks_count == rx.total_chunks - 1 || rx.chunks_count == rx.total_chunks - 2,
    ensures
        previous_fate(rx, spec_parse_header(data)) == PreviousFrame::Partial,
        spec_swap_now(rx, data, now),
        spec_receiver_after(rx, data, now).stats.frames_partial == bump(rx.stats.frames_partial),
        spec_receiver_after(rx, data, now).stats.frames_dropped == rx.stats.frames_dropped,
        spec_device_after(rx, fb, data).active == 1 - fb.active,
        spec_device_after(rx, fb, data).display_side() == fb.write_side(),
{
}

/// Where a picture lacks more than two chunks and a chunk of another
/// picture arrives, the old picture is counted once as dropped and not as
/// partial, and the halves keep their roles. The caller is told to swap
/// only if the new picture has a single chunk, which completes it at once.
pub proof fn lemma_dropped_frame(rx: BitmapReceiver, fb: Hub75View, data: Seq<u8>, now: i64)
    requires
        rx.wf(),
        fb.wf(),
        spec_verdict(data) == Verdict::Accepted,
        spec_parse_header(data).frame_id != rx.current_frame_id,
        rx.chunks_count >= 1,
        rx.chunks_count < rx.total_chunks - 2,
    ensures
        previous_fate(rx, spec_parse_header(data)) == PreviousFrame::Dropped,
        spec_receiver_after(rx, data, now).stats.frames_dropped == bump(rx.stats.frames_dropped),
        spec_receiver_after(rx, data, now).stats.frames_partial == rx.stats.frames_partial,
        spec_device_after(rx, fb, data).active == fb.active,
        spec_device_after(rx, fb, data).display_side() == fb.display_side(),
        spec_swap_now(rx, data, now) == (spec_parse_header(data).total_chunks == 1),
{
    let h = spec_parse_header(data);
    let index = h.chunk_index as u32;
    let total = h.total_chunks as u32;
    assert(((0u32 | (1u32 << index)) == (if total >= 32 {
        0xFFFF_FFFFu32
    } else {
        ((1u32 << total) - 1) as u32
    })) == (total == 1)) by (bit_vector)
        requires
            index < total,
            1 <= total <= 32,
    ;
}

/// The mask of a picture of `total` chunks records exactly the chunks
/// below `total`.
pub proof fn lemma_full_mask_bits(total: u8, i: u8)
    requires
        total <= 32,
        i < 32,
    ensures
        has_chunk(full_mask(total), i) == (i < total),
{
    let tt = total as u32;
    let ii = i as u32;
    assert(((if tt >= 32 {
        0xFFFF_FFFFu32
    } else {
        ((1u32 << tt) - 1) as u32
    }) & (1u32 << ii) != 0) == (ii < tt)) by (bit_vector)
        requires
            tt <= 32,
            ii < 32,
    ;
}

/// A chunk that is recorded in a part of `whole` is recorded in `whole`.
pub proof fn lemma_part_of(mask: u32, whole: u32, i: u8)
    requires
        i < 32,
        mask & whole == mask,
        has_chunk(mask, i),
    ensures
        has_chunk(whole, i),
{
    let ii = i as u32;
    assert(whole & (1u32 << ii) != 0) by (bit_vector)
        requires
            ii < 32,
            mask & whole == mask,
            mask & (1u32 << ii) != 0,
    ;
}

proof fn lemma_low_bits_equal(a: u32, b: u32, k: u8)
    requires
        k <= 32,
        forall|i: u8| i < 32 ==> has_chunk(a, i) == has_chunk(b, i),
    ensures
        a & full_mask(k) == b & full_mask(k),
    decreases k,
{
    if k == 0 {
        assert(a & (((1u32 << 0u32) - 1) as u32) == b & (((1u32 << 0u32) - 1) as u32))
            by (bit_vector);
    } else {
        let j: u8 = (k - 1) as u8;
        lemma_low_bits_equal(a, b, j);
        assert(has_chunk(a, j) == has_chunk(b, j));
        let jj = j as u32;
        let kk = k as u32;
        assert(a & (if kk >= 32 {
            0xFFFF_FFFFu32
        } else {
            ((1u32 << kk) - 1) as u32
        }) == b & (if kk >= 32 {
            0xFFFF_FFFFu32
        } else {
            ((1u32 << kk) - 1) as u32
        })) by (bit_vector)
            requires
                jj < 32,
                kk == jj + 1,
                a & (((1u32 << jj) - 1) as u32) == b & (((1u32 << jj) - 1) as u32),
                ((a & (1u32 << jj)) != 0) == ((b & (1u32 << jj)) != 0),
        ;
    }
}

/// Two masks that record the same chunks are equal.
pub proof fn lemma_mask_ext(a: u32, b: u32)
    requires
        forall|i: u8| i < 32 ==> has_chunk(a, i) == has_chunk(b, i),
    ensures
        a == b,
{
    lemma_low_bits_equal(a, b, 32);
    assert(a & 0xFFFF_FFFFu32 == a) by (bit_vector);
    assert(b & 0xFFFF_FFFFu32 == b) by (bit_vector);
}

/// A datagram and the moment at which it is taken in.
pub struct Arrival {
    pub data: Seq<u8>,
    pub time_ms: i64,
}

/// Whether `data` is a chunk of the picture `frame_id` of `total` chunks
/// with no more pixel bytes than a datagram carries.
pub open spec fn is_chunk_of(data: Seq<u8>, frame_id: u16, total: u8) -> bool {
    &&& has_signature(data)
    &&& data.len() <= HEADER_SIZE + MAX_PAYLOAD
    &&& spec_parse_header(data).frame_id == frame_id
    &&& spec_parse_header(data).total_chunks == total
    &&& spec_parse_header(data).chunk_index < total
}

/// The chunk index of the `k`-th arrival.
pub open spec fn index_of(arrivals: Seq<Arrival>, k: int) -> u8 {
    spec_parse_header(arrivals[k].data).chunk_index
}

/// The pixels of the `k`-th arrival.
pub open spec fn pixels_of(arrivals: Seq<Arrival>, k: int) -> Seq<u32> {
    spec_pixels(arrivals[k].data.subrange(HEADER_SIZE as int, arrivals[k].data.len() as int))
}

/// Whether one of `arrivals` carries chunk `i`.
pub open spec fn appears(arrivals: Seq<Arrival>, i: u8) -> bool {
    exists|k: int| 0 <= k < arrivals.len() && #[trigger] index_of(arrivals, k) == i
}

/// Whether `arrivals` are the chunks of the picture `frame_id` of `total`
/// chunks, each index once, in any order.
pub open spec fn covers_once(arrivals: Seq<Arrival>, frame_id: u16, total: u8) -> bool {
    &&& 1 <= total <= MAX_CHUNKS
    &&& arrivals.len() == total
    &&& forall|k: int|
        0 <= k < arrivals.len() ==> is_chunk_of((#[trigger] arrivals[k]).data, frame_id, total)
    &&& forall|k1: int, k2: int|
        0 <= k1 < k2 < arrivals.len() ==> index_of(arrivals, k1) != index_of(arrivals, k2)
    &&& forall|i: u8| i < total ==> #[trigger] appears(arrivals, i)
}

/// The receiver after `arrivals` were taken in, one after the other.
pub open spec fn spec_feed(rx: BitmapReceiver, arrivals: Seq<Arrival>) -> BitmapReceiver
    decreases arrivals.len(),
{
    if arrivals.len() == 0 {
        rx
    } else {
        spec_receiver_after(
            spec_feed(rx, arrivals.drop_last()),
            arrivals.last().data,
            arrivals.last().time_ms,
        )
    }
}

/// The device after `arrivals` were taken in, one after the other, with no
/// swap by the caller in between.
pub open spec fn spec_feed_device(rx: BitmapReceiver, fb: Hub75View, arrivals: Seq<Arrival>) -> Hub75View
    decreases arrivals.len(),
{
    if arrivals.len() == 0 {
        fb
    } else {
        spec_device_after(
            spec_feed(rx, arrivals.drop_last()),
            spec_feed_device(rx, fb, arrivals.drop_last()),
            arrivals.last().data,
        )
    }
}

/// Whether the datagram `data` completes the picture in progress.
pub open spec fn completes(rx: BitmapReceiver, data: Seq<u8>, now: i64) -> bool {
    spec_verdict(data) == Verdict::Accepted && is_complete(spec_recorded(rx, data, now))
}

/// How many of `arrivals` complete a picture.
pub open spec fn spec_completions(rx: BitmapReceiver, arrivals: Seq<Arrival>) -> nat
    decreases arrivals.len(),
{
    if arrivals.len() == 0 {
        0
    } else {
        spec_completions(rx, arrivals.drop_last()) + if completes(
            spec_feed(rx, arrivals.drop_last()),
            arrivals.last().data,
            arrivals.last().time_ms,
        ) {
            1nat
        } else {
            0nat
        }
    }
}

/// The device as the first of `arrivals` finds it when it is written: with
/// the halves swapped where the old picture is shown partially.
pub open spec fn spec_start_device(rx: BitmapReceiver, fb: Hub75View, arrivals: Seq<Arrival>) -> Hub75View {
    if arrivals.len() > 0 && previous_fate(rx, spec_parse_header(arrivals[0].data))
        == PreviousFrame::Partial {
        fb.swapped()
    } else {
        fb
    }
}

/// Whether one of the first `n` arrivals writes position `p`.
pub open spec fn written_by(arrivals: Seq<Arrival>, n: int, p: int) -> bool {
    exists|k: int|
        0 <= k < n && index_of(arrivals, k) * PIXELS_PER_CHUNK <= p < index_of(arrivals, k)
            * PIXELS_PER_CHUNK + (#[trigger] pixels_of(arrivals, k)).len()
}

/// The invariant of the assembly state holds from one datagram to the
/// next, whatever the datagram is.
pub proof fn lemma_step_keeps_wf(rx: BitmapReceiver, data: Seq<u8>, now: i64)
    requires
        rx.wf(),
    ensures
        spec_receiver_after(rx, data, now).wf(),
{
    if spec_verdict(data) == Verdict::Accepted {
        let h = spec_parse_header(data);
        let rec = spec_recorded(rx, data, now);
        let t = expected_total(rx, h);
        let base_mask: u32 = if starts_new_frame(rx, h) {
            0
        } else {
            rx.received_mask
        };
        let bit = 1u32 << (h.chunk_index as u32);
        let full = full_mask(t);
        let index = h.chunk_index as u32;
        let tt = t as u32;
        assert(rec.total_chunks == t);
        assert(rec.received_mask == base_mask | bit);
        assert(h.chunk_index < t <= MAX_CHUNKS);
        assert(base_mask & full == base_mask) by {
            if starts_new_frame(rx, h) {
                assert(0u32 & full == 0) by (bit_vector);
            } else if h.chunk_index >= rx.total_chunks {
                lemma_mask_fits_larger(rx.received_mask, rx.total_chunks, t);
            }
        }
        assert(bit & (if tt >= 32 {
            0xFFFF_FFFFu32
        } else {
            ((1u32 << tt) - 1) as u32
        }) == bit) by (bit_vector)
            requires
                bit == 1u32 << index,
                index < tt,
                tt <= 32,
        ;
        assert((base_mask | bit) & full == base_mask | bit) by (bit_vector)
            requires
                base_mask & full == base_mask,
                bit & full == bit,
        ;
        assert(0u32 & full == 0) by (bit_vector);
        assert((if tt >= 32 {
            0xFFFF_FFFFu32
        } else {
            ((1u32 << tt) - 1) as u32
        }) != 0) by (bit_vector)
            requires
                1 <= tt <= 32,
        ;
        lemma_empty_mask(32);
        lemma_count_bound(rec.received_mask, 32);
        assert(rec.chunks_count == count_chunks(rec.received_mask, 32));
    }
}

/// No counter of the statistics ever falls.
pub proof fn lemma_counters_never_fall(rx: BitmapReceiver, data: Seq<u8>, now: i64)
    ensures
        ({
            let before = rx.stats;
            let after = spec_receiver_after(rx, data, now).stats;
            &&& after.packets_total >= before.packets_total
            &&& after.packets_valid >= before.packets_valid
            &&& after.packets_bad_magic >= before.packets_bad_magic
            &&& after.packets_bad_header >= before.packets_bad_header
            &&& after.frames_completed >= before.frames_completed
            &&& after.frames_partial >= before.frames_partial
            &&& after.frames_dropped >= before.frames_dropped
        }),
{
}

/// What holds of the device after the first `n` chunks of a picture were
/// taken in.
pub open spec fn layout_inv(
    rx: BitmapReceiver,
    fb: Hub75View,
    arrivals: Seq<Arrival>,
    frame_id: u16,
    n: int,
) -> bool {
    let r = spec_feed(rx, arrivals.take(n));
    let f = spec_feed_device(rx, fb, arrivals.take(n));
    let start = spec_start_device(rx, fb, arrivals);
    &&& n >= 1 ==> r.current_frame_id == frame_id && r.total_chunks != 0
    &&& n >= 1 ==> f == start.with_write_side(f.write_side())
    &&& f.write_side().len() == start.write_side().len()
    &&& forall|k: int, j: int|
        0 <= k < n && 0 <= j < pixels_of(arrivals, k).len() && index_of(arrivals, k)
            * PIXELS_PER_CHUNK + j < start.write_bound() ==> f.write_side()[index_of(arrivals, k)
            * PIXELS_PER_CHUNK + j] == #[trigger] pixels_of(arrivals, k)[j]
    &&& n >= 1 ==> forall|p: int|
        0 <= p < start.write_side().len() && !(written_by(arrivals, n, p) && p
            < start.write_bound()) ==> #[trigger] f.write_side()[p] == start.write_side()[p]
}

proof fn lemma_layout_prefix(
    rx: BitmapReceiver,
    fb: Hub75View,
    arrivals: Seq<Arrival>,
    frame_id: u16,
    total: u8,
    n: int,
)
    requires
        fb.wf(),
        covers_once(arrivals, frame_id, total),
        0 <= n <= arrivals.len(),
    ensures
        layout_inv(rx, fb, arrivals, frame_id, n),
    decreases n,
{
    if n == 0 {
        assert(arrivals.take(0).len() == 0);
    } else {
        lemma_layout_prefix(rx, fb, arrivals, frame_id, total, n - 1);
        let m = n - 1;
        let before = arrivals.take(m);
        let upto = arrivals.take(n);
        assert(upto.drop_last() =~= before);
        assert(upto.last() == arrivals[m]);
        let a = arrivals[m];
        let h = spec_parse_header(a.data);
        let r = spec_feed(rx, before);
        let f = spec_feed_device(rx, fb, before);
        let start = spec_start_device(rx, fb, arrivals);
        assert(is_chunk_of(arrivals[m].data, frame_id, total));
        assert(h.chunk_index == index_of(arrivals, m));
        assert(spec_verdict(a.data) == Verdict::Accepted);
        let r2 = spec_receiver_after(r, a.data, a.time_ms);
        let f2 = spec_device_after(r, f, a.data);
        assert(spec_feed(rx, upto) == r2);
        assert(spec_feed_device(rx, fb, upto) == f2);
        assert(r2.current_frame_id == frame_id && r2.total_chunks != 0);
        assert(m >= 1 ==> !starts_new_frame(r, h));
        let shown = if previous_fate(r, h) == PreviousFrame::Partial {
            f.swapped()
        } else {
            f
        };
        assert(m >= 1 ==> shown == f);
        assert(m == 0 ==> shown == start) by {
            if m == 0 {
                assert(before.len() == 0);
            }
        }
        let off = h.chunk_index as int * PIXELS_PER_CHUNK as int;
        let side = crate::hub75::clipped_write(
            shown.write_side(),
            off,
            pixels_of(arrivals, m),
            shown.write_bound(),
        );
        assert(f2 == shown.with_write_side(side));
        assert(f2.write_side() == side);
        assert(f2 == start.with_write_side(side));
        assert forall|k: int, j: int|
            0 <= k < n && 0 <= j < pixels_of(arrivals, k).len() && index_of(arrivals, k)
                * PIXELS_PER_CHUNK + j < start.write_bound() implies f2.write_side()[index_of(
            arrivals,
            k,
        ) * PIXELS_PER_CHUNK + j] == #[trigger] pixels_of(arrivals, k)[j] by {
            assert(is_chunk_of(arrivals[k].data, frame_id, total));
            if k < m {
                assert(index_of(arrivals, k) != index_of(arrivals, m));
            }
        }
        assert forall|p: int|
            0 <= p < start.write_side().len() && !(written_by(arrivals, n, p) && p
                < start.write_bound()) implies #[trigger] f2.write_side()[p]
            == start.write_side()[p] by {
            if p < start.write_bound() {
                assert(!written_by(arrivals, n, p));
                if written_by(arrivals, m, p) {
                    let k = choose|k: int|
                        0 <= k < m && index_of(arrivals, k) * PIXELS_PER_CHUNK <= p < index_of(
                            arrivals,
                            k,
                        ) * PIXELS_PER_CHUNK + (#[trigger] pixels_of(arrivals, k)).len();
                    assert(0 <= k < n);
                    assert(false);
                }
                assert(!(off <= p < off + pixels_of(arrivals, m).len())) by {
                    if off <= p < off + pixels_of(arrivals, m).len() {
                        assert(0 <= m < n && index_of(arrivals, m) * PIXELS_PER_CHUNK <= p
                            < index_of(arrivals, m) * PIXELS_PER_CHUNK + pixels_of(
                            arrivals,
                            m,
                        ).len());
                        assert(false);
                    }
                }
            }
        }
    }
}

/// What holds of the receiver after the first `n` chunks of a picture
/// were taken in, where the picture in progress before them was another
/// one or expected no more chunks than this one has.
pub open spec fn completion_inv(
    rx: BitmapReceiver,
    arrivals: Seq<Arrival>,
    frame_id: u16,
    total: u8,
    n: int,
) -> bool {
    let r = spec_feed(rx, arrivals.take(n));
    let c = spec_completions(rx, arrivals.take(n));
    &&& r.wf()
    &&& r.current_frame_id != frame_id || r.total_chunks <= total
    &&& n >= 1 ==> r.current_frame_id == frame_id && r.total_chunks != 0
    &&& c <= 1
    &&& r.stats.frames_completed == (if c == 0 {
        rx.stats.frames_completed
    } else {
        bump(rx.stats.frames_completed)
    })
    &&& c == 0 ==> forall|k: int|
        0 <= k < n ==> has_chunk(r.received_mask, #[trigger] index_of(arrivals, k))
    &&& c == 1 ==> exists|k: int|
        0 <= k < n && !has_chunk(r.received_mask, #[trigger] index_of(arrivals, k)) && index_of(
            arrivals,
            k,
        ) < r.total_chunks
}

proof fn lemma_completion_prefix(
    rx: BitmapReceiver,
    arrivals: Seq<Arrival>,
    frame_id: u16,
    total: u8,
    n: int,
)
    requires
        rx.wf(),
        covers_once(arrivals, frame_id, total),
        frame_id != rx.current_frame_id || rx.total_chunks <= total,
        0 <= n <= arrivals.len(),
    ensures
        completion_inv(rx, arrivals, frame_id, total, n),
    decreases n,
{
    if n == 0 {
        assert(arrivals.take(0).len() == 0);
    } else {
        lemma_completion_prefix(rx, arrivals, frame_id, total, n - 1);
        let m = n - 1;
        let before = arrivals.take(m);
        let upto = arrivals.take(n);
        assert(upto.drop_last() =~= before);
        assert(upto.last() == arrivals[m]);
        let a = arrivals[m];
        let h = spec_parse_header(a.data);
        let r = spec_feed(rx, before);
        let c = spec_completions(rx, before);
        assert(is_chunk_of(arrivals[m].data, frame_id, total));
        assert(h.chunk_index == index_of(arrivals, m));
        assert(spec_verdict(a.data) == Verdict::Accepted);
        let rec = spec_recorded(r, a.data, a.time_ms);
        let r2 = spec_receiver_after(r, a.data, a.time_ms);
        assert(spec_feed(rx, upto) == r2);
        lemma_step_keeps_wf(r, a.data, a.time_ms);
        let base_mask: u32 = if starts_new_frame(r, h) {
            0
        } else {
            r.received_mask
        };
        assert(rec.received_mask == base_mask | (1u32 << (h.chunk_index as u32)));
        assert(rec.total_chunks == expected_total(r, h));
        assert(rec.total_chunks <= total);
        assert(h.chunk_index < rec.total_chunks);
        assert(m >= 1 ==> !starts_new_frame(r, h));
        assert(!starts_new_frame(r, h) ==> rec.total_chunks >= r.total_chunks);
        assert(r2.total_chunks == rec.total_chunks);
        if c == 1 {
            let k0 = choose|k: int|
                0 <= k < m && !has_chunk(r.received_mask, #[trigger] index_of(arrivals, k))
                    && index_of(arrivals, k) < r.total_chunks;
            assert(index_of(arrivals, k0) != index_of(arrivals, m));
            lemma_set_bit(base_mask, h.chunk_index, index_of(arrivals, k0));
            lemma_full_mask_bits(rec.total_chunks, index_of(arrivals, k0));
            assert(!has_chunk(rec.received_mask, index_of(arrivals, k0)));
            assert(!is_complete(rec));
            assert(r2.received_mask == rec.received_mask);
            assert(0 <= k0 < n && !has_chunk(r2.received_mask, index_of(arrivals, k0))
                && index_of(arrivals, k0) < r2.total_chunks);
        } else {
            if is_complete(rec) {
                assert(r2.received_mask == 0);
                assert(!has_chunk(0u32, index_of(arrivals, m))) by {
                    let ii = index_of(arrivals, m) as u32;
                    assert(0u32 & (1u32 << ii) == 0) by (bit_vector);
                }
                assert(0 <= m < n && !has_chunk(r2.received_mask, index_of(arrivals, m))
                    && index_of(arrivals, m) < r2.total_chunks);
            } else {
                assert(r2.received_mask == rec.received_mask);
                assert forall|k: int| 0 <= k < n implies has_chunk(
                    r2.received_mask,
                    #[trigger] index_of(arrivals, k),
                ) by {
                    assert(is_chunk_of(arrivals[k].data, frame_id, total));
                    lemma_set_bit(base_mask, h.chunk_index, index_of(arrivals, k));
                }
            }
        }
    }
}

/// The chunks of one picture, each index once and in any order, leave the
/// write side with the pixels of every chunk at 487 times its index, up to
/// the configured pixel count, whatever was in progress before and in
/// whatever order they come. The write side is otherwise as the first
/// chunk found it, and the halves keep the roles that they had when the
/// first chunk was written: nothing is written to the display side.
pub proof fn lemma_frame_is_laid_out(
    rx: BitmapReceiver,
    fb: Hub75View,
    arrivals: Seq<Arrival>,
    frame_id: u16,
    total: u8,
)
    requires
        fb.wf(),
        covers_once(arrivals, frame_id, total),
    ensures
        ({
            let start = spec_start_device(rx, fb, arrivals);
            let end = spec_feed_device(rx, fb, arrivals);
            &&& end == start.with_write_side(end.write_side())
            &&& end.display_side() == start.display_side()
            &&& end.write_side().len() == start.write_side().len()
            &&& forall|k: int, j: int|
                0 <= k < arrivals.len() && 0 <= j < pixels_of(arrivals, k).len() && index_of(
                    arrivals,
                    k,
                ) * PIXELS_PER_CHUNK + j < start.write_bound() ==> end.write_side()[index_of(
                    arrivals,
                    k,
                ) * PIXELS_PER_CHUNK + j] == #[trigger] pixels_of(arrivals, k)[j]
            &&& forall|p: int|
                0 <= p < start.write_side().len() && !(written_by(
                    arrivals,
                    arrivals.len() as int,
                    p,
                ) && p < start.write_bound()) ==> #[trigger] end.write_side()[p]
                    == start.write_side()[p]
        }),
{
    let n = arrivals.len() as int;
    lemma_layout_prefix(rx, fb, arrivals, frame_id, total, n);
    assert(arrivals.take(n) =~= arrivals);
}

/// The chunks of one picture, each index once and in any order, complete
/// exactly one picture, and the counter of completed pictures moves on by
/// one, where the picture in progress before them is another one or
/// expects no more chunks than this one has.
pub proof fn lemma_frame_completes_once(
    rx: BitmapReceiver,
    arrivals: Seq<Arrival>,
    frame_id: u16,
    total: u8,
)
    requires
        rx.wf(),
        covers_once(arrivals, frame_id, total),
        frame_id != rx.current_frame_id || rx.total_chunks <= total,
    ensures
        spec_completions(rx, arrivals) == 1,
        spec_feed(rx, arrivals).stats.frames_completed == bump(rx.stats.frames_completed),
        spec_feed(rx, arrivals).wf(),
{
    let n = arrivals.len() as int;
    lemma_completion_prefix(rx, arrivals, frame_id, total, n);
    assert(arrivals.take(n) =~= arrivals);
    let r = spec_feed(rx, arrivals);
    if spec_completions(rx, arrivals) == 0 {
        assert(appears(arrivals, (total - 1) as u8));
        let last = choose|k: int|
            0 <= k < arrivals.len() && #[trigger] index_of(arrivals, k) == (total - 1) as u8;
        assert(has_chunk(r.received_mask, index_of(arrivals, last)));
        lemma_part_of(r.received_mask, full_mask(r.total_chunks), (total - 1) as u8);
        lemma_full_mask_bits(r.total_chunks, (total - 1) as u8);
        assert(r.total_chunks == total);
        assert forall|i: u8| i < 32 implies has_chunk(r.received_mask, i) == has_chunk(
            full_mask(total),
            i,
        ) by {
            lemma_full_mask_bits(total, i);
            if i < total {
                assert(appears(arrivals, i));
                let k = choose|k: int|
                    0 <= k < arrivals.len() && #[trigger] index_of(arrivals, k) == i;
                assert(has_chunk(r.received_mask, index_of(arrivals, k)));
            } else {
                if has_chunk(r.received_mask, i) {
                    lemma_part_of(r.received_mask, full_mask(total), i);
                }
            }
        }
        lemma_mask_ext(r.received_mask, full_mask(total));
        assert(false);
    }
}

} // verus!
