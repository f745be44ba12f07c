//! The control loop's decisions: when to drain the receive ring directly,
//! when to leave frames to the protocol stack, and when the slower chores
//! are due.

use crate::bitmap_udp::{
    spec_device_after, spec_receiver_after, spec_swap_now, BitmapReceiver, BitmapStats,
};
use crate::classify::{is_bitmap_udp, spec_is_bitmap_udp, udp_payload, FRAME_HEADER_LEN};
use crate::ethernet::{Eth, EthView, NRXSLOTS};
use crate::hub75::Hub75View;
use crate::menu::{same_settings, Animation, Context};
use vstd::prelude::*;

verus! {

/// A bitmap packet this many milliseconds ago, or longer, no longer counts
/// as a running stream.
pub const STREAMING_WINDOW_MS: i64 = 200;

/// Most rounds of the burst loop in one pass of the control loop.
pub const BURST_LIMIT: u32 = 50;

/// The slower chores run on clock ticks that this number divides.
pub const CHORE_PERIOD_MS: i64 = 5;

/// The animation moves on ticks that this number divides.
pub const ANIMATION_PERIOD_MS: i64 = 33;

/// The tick at which a fixed address is taken if no lease has come.
pub const STATIC_IP_TICK_MS: i64 = 10000;

/// The scheduler's view of recent traffic.
#[derive(Clone, Copy, Debug, PartialEq, Eq, Structural)]
pub struct Scheduler {
    /// The millisecond clock.
    pub time_ms: i64,
    /// The tick at which the last bitmap frame was taken from the ring or
    /// from the stack's socket; none as long as no such frame has come.
    pub last_bitmap_packet_ms: Option<i64>,
    /// Passes of the control loop, wrapping.
    pub loop_counter: u32,
}

/// What a pass of the control loop does with a frame that the classifier
/// did not accept.
#[derive(Clone, Copy, Debug, PartialEq, Eq, Structural)]
pub enum BurstAction {
    /// Leave the burst loop.
    Stop,
    /// Acknowledge the frame unread and drain what follows it.
    Discard,
    /// Let the protocol stack take the frame.
    PollStack,
}

/// What taking in datagrams changes.
pub struct IngestState {
    pub rx: BitmapReceiver,
    pub dev: Hub75View,
    pub animation: Animation,
}

/// The state after the datagram `payload` was taken in at `now`: the
/// receiver has processed it, and where it asked for a swap the picture is
/// shown and any animation ends.
pub open spec fn spec_ingest(s: IngestState, payload: Seq<u8>, now: i64) -> IngestState {
    let dev = spec_device_after(s.rx, s.dev, payload);
    if spec_swap_now(s.rx, payload, now) {
        IngestState {
            rx: spec_receiver_after(s.rx, payload, now),
            dev: dev.presented(),
            animation: Animation::Off,
        }
    } else {
        IngestState { rx: spec_receiver_after(s.rx, payload, now), dev, animation: s.animation }
    }
}

/// The state after the datagrams `payloads` were taken in at `now`, one
/// after the other.
pub open spec fn spec_ingest_all(s: IngestState, payloads: Seq<Seq<u8>>, now: i64) -> IngestState
    decreases payloads.len(),
{
    if payloads.len() == 0 {
        s
    } else {
        spec_ingest(spec_ingest_all(s, payloads.drop_last(), now), payloads.last(), now)
    }
}

/// The number of frames at the head of `pending` that the classifier
/// accepts, up to the first that it does not.
pub open spec fn bitmap_run(pending: Seq<Seq<u8>>) -> nat
    decreases pending.len(),
{
    if pending.len() == 0 || !spec_is_bitmap_udp(pending[0]) {
        0
    } else {
        1 + bitmap_run(pending.drop_first())
    }
}

/// The datagram payloads of the first `n` frames of `pending`.
pub open spec fn spec_payloads(pending: Seq<Seq<u8>>, n: nat) -> Seq<Seq<u8>> {
    Seq::new(
        n,
        |k: int| pending[k].subrange(FRAME_HEADER_LEN as int, pending[k].len() as int),
    )
}

/// The ring after its first `n` pending frames were acknowledged.
pub open spec fn spec_acked(eth: EthView, n: nat) -> EthView {
    EthView {
        pending: eth.pending.skip(n as int),
        rx_slot: (eth.rx_slot + n) % (NRXSLOTS as int),
        ..eth
    }
}

/// What a burst of draining changes.
pub struct BurstState {
    pub ring: EthView,
    pub ingest: IngestState,
    pub sched: Scheduler,
    /// The statistics as the context reports them.
    pub stats: BitmapStats,
}

/// The state after the bitmap frames at the head of the ring were
/// drained.
pub open spec fn spec_drained(s: BurstState) -> BurstState {
    let n = bitmap_run(s.ring.pending);
    let ingest = spec_ingest_all(s.ingest, spec_payloads(s.ring.pending, n), s.sched.time_ms);
    if n > 0 {
        BurstState {
            ring: spec_acked(s.ring, n),
            ingest,
            sched: Scheduler { last_bitmap_packet_ms: Some(s.sched.time_ms), ..s.sched },
            stats: ingest.rx.stats,
        }
    } else {
        BurstState { ring: spec_acked(s.ring, n), ingest, ..s }
    }
}

/// The state after at most `rounds` rounds of the burst loop while
/// streaming: each round acknowledges the frame at the head of the ring
/// unread and drains the bitmap frames behind it; the loop ends early
/// when the ring is empty.
pub open spec fn spec_discard_burst(s: BurstState, rounds: nat) -> BurstState
    decreases rounds,
{
    if rounds == 0 || s.ring.pending.len() == 0 {
        s
    } else {
        spec_discard_burst(
            spec_drained(BurstState { ring: spec_acked(s.ring, 1), ..s }),
            (rounds - 1) as nat,
        )
    }
}

/// Whether bitmap traffic counts as running at the scheduler's tick: a
/// bitmap frame was taken in, and that was less than 200 milliseconds
/// ago.
pub open spec fn spec_streaming(s: Scheduler) -> bool {
    match s.last_bitmap_packet_ms {
        Some(last) => s.time_ms - last < STREAMING_WINDOW_MS,
        None => false,
    }
}

pub proof fn lemma_bitmap_run_bound(pending: Seq<Seq<u8>>)
    ensures
        bitmap_run(pending) <= pending.len(),
    decreases pending.len(),
{
    if pending.len() > 0 && spec_is_bitmap_udp(pending[0]) {
        lemma_bitmap_run_bound(pending.drop_first());
    }
}

/// Takes in one datagram of the bitmap stream and shows the picture if
/// the receiver asks for it.
pub fn ingest(rx: &mut BitmapReceiver, ctx: &mut Context, payload: &[u8], time_ms: i64)
    requires
        old(ctx).hub75.wf(),
    ensures
        final(ctx).hub75.wf(),
        old(rx).wf() ==> final(rx).wf(),
        ({
            let s = spec_ingest(
                IngestState { rx: *old(rx), dev: old(ctx).hub75@, animation: old(ctx).animation },
                payload@,
                time_ms,
            );
            &&& *final(rx) == s.rx
            &&& final(ctx).hub75@ == s.dev
            &&& final(ctx).animation == s.animation
        }),
        final(ctx).bitmap_stats == final(rx).stats,
        same_settings(*final(ctx), *old(ctx)),
{
    let complete = rx.process_packet(payload, &mut ctx.hub75, time_ms);
    if complete {
        ctx.hub75.present();
        ctx.animation = Animation::Off;
    }
    ctx.bitmap_stats = rx.stats;
}

fn head_is_bitmap(eth: &Eth) -> (yes: bool)
    requires
        eth.wf(),
    ensures
        yes == (eth@.pending.len() > 0 && spec_is_bitmap_udp(eth@.pending[0])),
{
    match eth.peek_rx() {
        Some(frame) => is_bitmap_udp(frame),
        None => false,
    }
}

impl Scheduler {
    /// The clock never runs backwards and no packet comes from the
    /// future.
    pub open spec fn wf(&self) -> bool {
        &&& 0 <= self.time_ms
        &&& match self.last_bitmap_packet_ms {
            Some(last) => 0 <= last <= self.time_ms,
            None => true,
        }
    }

    pub fn new() -> (s: Self)
        ensures
            s.wf(),
            s.time_ms == 0,
            s.last_bitmap_packet_ms is None,
            s.loop_counter == 0,
    {
        Scheduler { time_ms: 0, last_bitmap_packet_ms: None, loop_counter: 0 }
    }

    /// Starts a pass of the control loop: the clock moves on by one
    /// millisecond if the timer has fired (it stays at its largest value),
    /// and the pass is counted.
    pub fn begin_pass(&mut self, timer_fired: bool)
        requires
            old(self).wf(),
        ensures
            final(self).wf(),
            final(self).time_ms == (if timer_fired && old(self).time_ms < i64::MAX {
                old(self).time_ms + 1
            } else {
                old(self).time_ms as int
            }),
            final(self).last_bitmap_packet_ms == old(self).last_bitmap_packet_ms,
            final(self).loop_counter == old(self).loop_counter.wrapping_add(1),
    {
        if timer_fired && self.time_ms < i64::MAX {
            self.time_ms = self.time_ms + 1;
        }
        self.loop_counter = self.loop_counter.wrapping_add(1);
    }

    /// Whether a bitmap packet was taken in within the last 200
    /// milliseconds.
    pub fn is_streaming(&self) -> (streaming: bool)
        requires
            self.wf(),
        ensures
            streaming == spec_streaming(*self),
    {
        match self.last_bitmap_packet_ms {
            Some(last) => self.time_ms - last < STREAMING_WINDOW_MS,
            None => false,
        }
    }

    /// Takes bitmap frames from the ring until it is empty or a frame of
    /// another kind is at its head. Each frame's payload goes to the
    /// receiver, a finished picture is shown, and the frame is
    /// acknowledged.
    pub fn drain_raw_bitmap(
        &mut self,
        eth: &mut Eth,
        rx: &mut BitmapReceiver,
        ctx: &mut Context,
    ) -> (found: bool)
        requires
            old(eth).wf(),
            old(ctx).hub75.wf(),
        ensures
            final(eth).wf(),
            final(ctx).hub75.wf(),
            old(rx).wf() ==> final(rx).wf(),
            old(self).wf() ==> final(self).wf(),
            ({
                let n = bitmap_run(old(eth)@.pending);
                let s = spec_ingest_all(
                    IngestState {
                        rx: *old(rx),
                        dev: old(ctx).hub75@,
                        animation: old(ctx).animation,
                    },
                    spec_payloads(old(eth)@.pending, n),
                    old(self).time_ms,
                );
                &&& found == (n > 0)
                &&& final(eth)@ == spec_acked(old(eth)@, n)
                &&& *final(rx) == s.rx
                &&& final(ctx).hub75@ == s.dev
                &&& final(ctx).animation == s.animation
                &&& final(ctx).bitmap_stats == (if n > 0 {
                    s.rx.stats
                } else {
                    old(ctx).bitmap_stats
                })
                &&& *final(self) == (Scheduler {
                    last_bitmap_packet_ms: if n > 0 {
                        Some(old(self).time_ms)
                    } else {
                        old(self).last_bitmap_packet_ms
                    },
                    ..*old(self)
                })
            }),
            same_settings(*final(ctx), *old(ctx)),
    {
        let ghost pending = eth@.pending;
        let ghost start = IngestState { rx: *rx, dev: ctx.hub75@, animation: ctx.animation };
        let ghost total = bitmap_run(pending);
        let now = self.time_ms;
        let mut found = false;
        let mut more = head_is_bitmap(eth);
        let mut done: usize = 0;
        proof {
            lemma_bitmap_run_bound(pending);
            assert(pending.skip(0) =~= pending);
            assert(spec_payloads(pending, 0) =~= Seq::<Seq<u8>>::empty());
        }
        while more
            invariant
                eth.wf(),
                ctx.hub75.wf(),
                old(rx).wf() ==> rx.wf(),
                pending == old(eth)@.pending,
                start == (IngestState {
                    rx: *old(rx),
                    dev: old(ctx).hub75@,
                    animation: old(ctx).animation,
                }),
                total == bitmap_run(pending),
                now == old(self).time_ms,
                done <= pending.len() <= NRXSLOTS,
                eth@ == spec_acked(old(eth)@, done as nat),
                more == (eth@.pending.len() > 0 && spec_is_bitmap_udp(eth@.pending[0])),
                total == done + bitmap_run(eth@.pending),
                found == (done > 0),
                ({
                    let s = spec_ingest_all(start, spec_payloads(pending, done as nat), now);
                    &&& *rx == s.rx
                    &&& ctx.hub75@ == s.dev
                    &&& ctx.animation == s.animation
                }),
                ctx.bitmap_stats == (if done > 0 {
                    rx.stats
                } else {
                    old(ctx).bitmap_stats
                }),
                *self == (Scheduler {
                    last_bitmap_packet_ms: if done > 0 {
                        Some(now)
                    } else {
                        old(self).last_bitmap_packet_ms
                    },
                    ..*old(self)
                }),
                same_settings(*ctx, *old(ctx)),
            decreases eth@.pending.len(),
        {
            let ghost ring = eth@;
            match eth.peek_rx() {
                Some(frame) => {
                    found = true;
                    self.last_bitmap_packet_ms = Some(now);
                    ingest(rx, ctx, udp_payload(frame), now);
                },
                None => {},
            }
            eth.ack_rx();
            proof {
                assert(ring.pending[0] == pending[done as int]);
                let before = spec_payloads(pending, done as nat);
                let after = spec_payloads(pending, (done + 1) as nat);
                assert(after.drop_last() =~= before);
                assert(after.last() == pending[done as int].subrange(
                    FRAME_HEADER_LEN as int,
                    pending[done as int].len() as int,
                ));
                assert(ring.pending.drop_first() =~= pending.skip(done + 1));
                assert(eth@.pending =~= pending.skip(done + 1));
            }
            done = done + 1;
            more = head_is_bitmap(eth);
        }
        found
    }

    /// Takes in a datagram that the protocol stack received on the bitmap
    /// port in place of the raw path.
    pub fn socket_fallback(&mut self, rx: &mut BitmapReceiver, ctx: &mut Context, data: &[u8])
        requires
            old(ctx).hub75.wf(),
        ensures
            final(ctx).hub75.wf(),
            old(rx).wf() ==> final(rx).wf(),
            old(self).wf() ==> final(self).wf(),
            *final(self) == (Scheduler {
                last_bitmap_packet_ms: Some(old(self).time_ms),
                ..*old(self)
            }),
            ({
                let s = spec_ingest(
                    IngestState {
                        rx: *old(rx),
                        dev: old(ctx).hub75@,
                        animation: old(ctx).animation,
                    },
                    data@,
                    old(self).time_ms,
                );
                &&& *final(rx) == s.rx
                &&& final(ctx).hub75@ == s.dev
                &&& final(ctx).animation == s.animation
            }),
            final(ctx).bitmap_stats == final(rx).stats,
            same_settings(*final(ctx), *old(ctx)),
    {
        self.last_bitmap_packet_ms = Some(self.time_ms);
        ingest(rx, ctx, data, self.time_ms);
    }

    /// The burst loop of a pass in which traffic is streaming: up to 50
    /// times, the frame at the head of the ring is acknowledged unread and
    /// the bitmap frames behind it are drained. The protocol stack sees
    /// none of these frames.
    pub fn streaming_burst(&mut self, eth: &mut Eth, rx: &mut BitmapReceiver, ctx: &mut Context)
        requires
            old(eth).wf(),
            old(ctx).hub75.wf(),
        ensures
            final(eth).wf(),
            final(ctx).hub75.wf(),
            old(rx).wf() ==> final(rx).wf(),
            old(self).wf() ==> final(self).wf(),
            ({
                let s = spec_discard_burst(
                    BurstState {
                        ring: old(eth)@,
                        ingest: IngestState {
                            rx: *old(rx),
                            dev: old(ctx).hub75@,
                            animation: old(ctx).animation,
                        },
                        sched: *old(self),
                        stats: old(ctx).bitmap_stats,
                    },
                    BURST_LIMIT as nat,
                );
                &&& final(eth)@ == s.ring
                &&& *final(rx) == s.ingest.rx
                &&& final(ctx).hub75@ == s.ingest.dev
                &&& final(ctx).animation == s.ingest.animation
                &&& final(ctx).bitmap_stats == s.stats
                &&& *final(self) == s.sched
            }),
            same_settings(*final(ctx), *old(ctx)),
    {
        let ghost start = BurstState {
            ring: eth@,
            ingest: IngestState { rx: *rx, dev: ctx.hub75@, animation: ctx.animation },
            sched: *self,
            stats: ctx.bitmap_stats,
        };
        let mut round: u32 = 0;
        while round < BURST_LIMIT && eth.rx_pending() > 0
            invariant
                round <= BURST_LIMIT,
                eth.wf(),
                ctx.hub75.wf(),
                old(rx).wf() ==> rx.wf(),
                old(self).wf() ==> self.wf(),
                start == (BurstState {
                    ring: old(eth)@,
                    ingest: IngestState {
                        rx: *old(rx),
                        dev: old(ctx).hub75@,
                        animation: old(ctx).animation,
                    },
                    sched: *old(self),
                    stats: old(ctx).bitmap_stats,
                }),
                spec_discard_burst(start, BURST_LIMIT as nat) == spec_discard_burst(
                    BurstState {
                        ring: eth@,
                        ingest: IngestState { rx: *rx, dev: ctx.hub75@, animation: ctx.animation },
                        sched: *self,
                        stats: ctx.bitmap_stats,
                    },
                    (BURST_LIMIT - round) as nat,
                ),
                same_settings(*ctx, *old(ctx)),
            decreases BURST_LIMIT - round,
        {
            let ghost ring = eth@;
            eth.ack_rx();
            proof {
                assert(eth@.pending =~= ring.pending.skip(1));
                assert(eth@ == spec_acked(ring, 1));
            }
            self.drain_raw_bitmap(eth, rx, ctx);
            round = round + 1;
        }
    }

    /// What the burst loop does in its round number `round`, counted from
    /// zero, with the frame at the head of the ring: that frame is not a
    /// bitmap frame when the ring was drained just before. `streaming` is
    /// what `is_streaming` said at the start of the pass.
    pub fn burst_action(&self, eth: &Eth, streaming: bool, round: u32) -> (action: BurstAction)
        ensures
            action == (if round >= BURST_LIMIT || eth@.pending.len() == 0 {
                BurstAction::Stop
            } else if streaming {
                BurstAction::Discard
            } else {
                BurstAction::PollStack
            }),
    {
        if round >= BURST_LIMIT || eth.rx_pending() == 0 {
            BurstAction::Stop
        } else if streaming {
            BurstAction::Discard
        } else {
            BurstAction::PollStack
        }
    }

    /// Whether the slower chores (address lease, configuration fetch,
    /// telemetry, the servers) run in this pass: never while streaming,
    /// and only on a fresh clock tick that 5 divides.
    pub fn chores_due(&self, streaming: bool, timer_fired: bool) -> (due: bool)
        requires
            self.wf(),
        ensures
            due == (!streaming && timer_fired && self.time_ms % CHORE_PERIOD_MS == 0),
    {
        !streaming && timer_fired && self.time_ms % CHORE_PERIOD_MS == 0
    }

    /// Whether the animation moves on in this pass.
    pub fn animation_due(&self, streaming: bool) -> (due: bool)
        requires
            self.wf(),
        ensures
            due == (!streaming && self.time_ms % ANIMATION_PERIOD_MS == 0),
    {
        !streaming && self.time_ms % ANIMATION_PERIOD_MS == 0
    }

    /// Whether this is the tick at which a sign without a lease takes its
    /// fixed address.
    pub fn static_ip_due(&self) -> (due: bool)
        ensures
            due == (self.time_ms == STATIC_IP_TICK_MS),
    {
        self.time_ms == STATIC_IP_TICK_MS
    }
}

/// Copies the device's error counters into the context, for reporting.
pub fn refresh_mac_errors(ctx: &mut Context, eth: &Eth)
    ensures
        final(ctx).mac_overflow == eth@.overflow,
        final(ctx).mac_preamble_err == eth@.preamble_errors,
        final(ctx).mac_crc_err == eth@.crc_errors,
        final(ctx).hub75 == old(ctx).hub75,
        final(ctx).mac == old(ctx).mac,
        final(ctx).animation == old(ctx).animation,
        final(ctx).quit == old(ctx).quit,
        final(ctx).debug == old(ctx).debug,
        final(ctx).bitmap_stats == old(ctx).bitmap_stats,
        final(ctx).layout == old(ctx).layout,
        final(ctx).reboot_pending == old(ctx).reboot_pending,
        final(ctx).boot_server == old(ctx).boot_server,
{
    let (overflow, preamble, crc) = eth.mac_errors();
    ctx.mac_overflow = overflow;
    ctx.mac_preamble_err = preamble;
    ctx.mac_crc_err = crc;
}

/// As long as no bitmap packet was taken in, no tick counts as streaming.
/// With the last bitmap packet at tick T, every tick from T to 199
/// milliseconds later counts as streaming, and every tick from 200
/// milliseconds later on does not.
pub proof fn lemma_streaming_window(s: Scheduler)
    requires
        s.wf(),
    ensures
        s.last_bitmap_packet_ms is None ==> !spec_streaming(s),
        s.last_bitmap_packet_ms matches Some(last) ==> (spec_streaming(s) <==> s.time_ms <= last
            + 199),
        s.last_bitmap_packet_ms matches Some(last) ==> (!spec_streaming(s) <==> s.time_ms >= last
            + 200),
{
}

/// A new scheduler is not streaming, and passes of the control loop that
/// take in no bitmap packet leave it so.
pub proof fn lemma_no_stream_at_start(s: Scheduler)
    requires
        s.last_bitmap_packet_ms is None,
    ensures
        !spec_streaming(s),
        forall|t: i64| !spec_streaming(Scheduler { time_ms: t, ..s }),
{
}

} // verus!
