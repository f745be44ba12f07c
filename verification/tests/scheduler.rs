use barsign_disp::bitmap_udp::BitmapReceiver;
use barsign_disp::ethernet::Eth;
use barsign_disp::hub75::{Hub75, OutputMode};
use barsign_disp::menu::{Animation, Context};
use barsign_disp::scheduler::{ingest, refresh_mac_errors, BurstAction, Scheduler, BURST_LIMIT};

fn bitmap_frame(frame_id: u16, index: u8, total: u8, red: u8, pixels: usize) -> Vec<u8> {
    let mut frame = vec![0u8; 42];
    frame[12] = 0x08;
    frame[14] = 0x45;
    frame[23] = 17;
    frame[36] = 0x1B;
    frame[37] = 0x58;
    frame.extend_from_slice(&[0x42, 0x4D, (frame_id & 0xFF) as u8, (frame_id >> 8) as u8, index, total, 4, 0, 2, 0]);
    for _ in 0..pixels {
        frame.extend_from_slice(&[red, 0, 0]);
    }
    frame
}

fn other_frame() -> Vec<u8> {
    let mut frame = vec![0u8; 60];
    frame[12] = 0x08;
    frame[13] = 0x06;
    frame
}

fn context() -> Context {
    let mut hub75 = Hub75::new();
    hub75.set_img_param(4, 2048);
    Context::new(hub75, [2, 0, 0, 0, 0, 1])
}

fn at(time_ms: i64, last: i64) -> Scheduler {
    Scheduler { time_ms, last_bitmap_packet_ms: Some(last), loop_counter: 0 }
}

fn idle(time_ms: i64) -> Scheduler {
    Scheduler { time_ms, last_bitmap_packet_ms: None, loop_counter: 0 }
}

#[test]
fn streaming_window_is_200_ms() {
    assert!(at(1000, 1000).is_streaming());
    assert!(at(1001, 1000).is_streaming());
    assert!(at(1199, 1000).is_streaming());
    assert!(!at(1200, 1000).is_streaming());
    assert!(!at(1201, 1000).is_streaming());
    assert!(!at(100_000, 1000).is_streaming());
    assert!(at(199, 0).is_streaming());
    assert!(!at(200, 0).is_streaming());
}

#[test]
fn no_stream_before_the_first_bitmap_packet() {
    assert!(!Scheduler::new().is_streaming());
    assert_eq!(Scheduler::new().last_bitmap_packet_ms, None);
    assert!(!idle(0).is_streaming());
    assert!(!idle(1).is_streaming());
    assert!(!idle(199).is_streaming());
    assert!(!idle(200).is_streaming());
    assert!(!idle(i64::MAX).is_streaming());
    let mut s = Scheduler::new();
    for _ in 0..10 {
        s.begin_pass(true);
        assert!(!s.is_streaming());
    }
    assert!(s.chores_due(s.is_streaming(), true));
    let mut eth = Eth::new();
    let mut rx = BitmapReceiver::new();
    let mut ctx = context();
    assert!(eth.deliver(&other_frame()));
    assert!(!s.drain_raw_bitmap(&mut eth, &mut rx, &mut ctx));
    assert!(!s.is_streaming());
    assert_eq!(s.burst_action(&eth, s.is_streaming(), 0), BurstAction::PollStack);
    eth.ack_rx();
    assert!(eth.deliver(&bitmap_frame(1, 0, 2, 7, 4)));
    assert!(s.drain_raw_bitmap(&mut eth, &mut rx, &mut ctx));
    assert!(s.is_streaming());
    assert_eq!(s.last_bitmap_packet_ms, Some(10));
}

#[test]
fn clock_moves_only_when_the_timer_fired() {
    let mut s = Scheduler::new();
    s.begin_pass(false);
    assert_eq!(s.time_ms, 0);
    assert_eq!(s.loop_counter, 1);
    s.begin_pass(true);
    assert_eq!(s.time_ms, 1);
    assert_eq!(s.loop_counter, 2);
    let mut late = Scheduler { time_ms: i64::MAX, last_bitmap_packet_ms: None, loop_counter: u32::MAX };
    late.begin_pass(true);
    assert_eq!(late.time_ms, i64::MAX);
    assert_eq!(late.loop_counter, 0);
}

#[test]
fn drain_takes_bitmap_frames_up_to_the_first_other() {
    let mut eth = Eth::new();
    let mut rx = BitmapReceiver::new();
    let mut ctx = context();
    let mut s = at(5000, 10);
    assert!(eth.deliver(&bitmap_frame(1, 0, 2, 7, 4)));
    assert!(eth.deliver(&bitmap_frame(1, 1, 2, 8, 4)));
    assert!(eth.deliver(&other_frame()));
    assert!(eth.deliver(&bitmap_frame(2, 0, 2, 9, 4)));
    ctx.animation = Animation::Rainbow { phase: 3 };
    assert!(s.drain_raw_bitmap(&mut eth, &mut rx, &mut ctx));
    assert_eq!(eth.rx_pending(), 2);
    assert_eq!(eth.peek_rx().unwrap(), &other_frame()[..]);
    assert_eq!(s.last_bitmap_packet_ms, Some(5000));
    assert_eq!(rx.stats.frames_completed, 1);
    assert_eq!(ctx.bitmap_stats.frames_completed, 1);
    assert_eq!(ctx.bitmap_stats.packets_total, 2);
    assert_eq!(ctx.animation, Animation::Off);
    assert!(ctx.hub75.is_on());
    assert_eq!(ctx.hub75.get_mode(), OutputMode::FullColor);
    let shown = ctx.hub75.read_img_data();
    assert_eq!(shown[0], 7);
    assert_eq!(shown[487], 8);
    assert!(s.is_streaming());
    assert!(!s.drain_raw_bitmap(&mut eth, &mut rx, &mut ctx));
    assert_eq!(eth.rx_pending(), 2);
}

#[test]
fn drain_of_an_empty_ring_changes_nothing() {
    let mut eth = Eth::new();
    let mut rx = BitmapReceiver::new();
    let mut ctx = context();
    let mut s = at(5000, 10);
    assert!(!s.drain_raw_bitmap(&mut eth, &mut rx, &mut ctx));
    assert_eq!(s.last_bitmap_packet_ms, Some(10));
    assert_eq!(ctx.bitmap_stats.packets_total, 0);
    assert!(!s.is_streaming());
}

#[test]
fn rejected_payload_still_counts_as_bitmap_traffic() {
    let mut eth = Eth::new();
    let mut rx = BitmapReceiver::new();
    let mut ctx = context();
    let mut s = at(700, 0);
    let mut frame = bitmap_frame(1, 0, 2, 7, 4);
    frame[42] = 0;
    assert!(eth.deliver(&frame));
    assert!(s.drain_raw_bitmap(&mut eth, &mut rx, &mut ctx));
    assert_eq!(s.last_bitmap_packet_ms, Some(700));
    assert_eq!(ctx.bitmap_stats.packets_bad_magic, 1);
    assert_eq!(eth.rx_pending(), 0);
}

#[test]
fn streaming_burst_discards_other_frames() {
    let mut eth = Eth::new();
    let mut rx = BitmapReceiver::new();
    let mut ctx = context();
    let mut s = at(100, 50);
    assert!(eth.deliver(&other_frame()));
    assert!(eth.deliver(&bitmap_frame(1, 0, 1, 5, 2)));
    assert!(eth.deliver(&other_frame()));
    assert!(eth.deliver(&other_frame()));
    assert!(eth.deliver(&bitmap_frame(2, 0, 1, 6, 2)));
    s.streaming_burst(&mut eth, &mut rx, &mut ctx);
    assert_eq!(eth.rx_pending(), 0);
    assert_eq!(rx.stats.packets_total, 2);
    assert_eq!(rx.stats.frames_completed, 2);
    assert_eq!(s.last_bitmap_packet_ms, Some(100));
    assert_eq!(ctx.hub75.read_img_data()[0], 6);
}

#[test]
fn burst_action_follows_mode_and_round() {
    let mut eth = Eth::new();
    let s = Scheduler::new();
    assert_eq!(s.burst_action(&eth, true, 0), BurstAction::Stop);
    assert_eq!(s.burst_action(&eth, false, 0), BurstAction::Stop);
    assert!(eth.deliver(&other_frame()));
    assert_eq!(s.burst_action(&eth, true, 0), BurstAction::Discard);
    assert_eq!(s.burst_action(&eth, false, 0), BurstAction::PollStack);
    assert_eq!(s.burst_action(&eth, false, BURST_LIMIT - 1), BurstAction::PollStack);
    assert_eq!(s.burst_action(&eth, false, BURST_LIMIT), BurstAction::Stop);
    assert_eq!(s.burst_action(&eth, true, BURST_LIMIT), BurstAction::Stop);
}

#[test]
fn chores_run_on_every_fifth_tick_outside_streaming() {
    assert!(at(1000, 0).chores_due(false, true));
    assert!(!at(1001, 0).chores_due(false, true));
    assert!(!at(1000, 0).chores_due(true, true));
    assert!(!at(1000, 0).chores_due(false, false));
    assert!(at(0, 0).chores_due(false, true));
    assert!(at(990, 0).animation_due(false));
    assert!(!at(991, 0).animation_due(false));
    assert!(!at(990, 0).animation_due(true));
    assert!(at(10_000, 0).static_ip_due());
    assert!(!at(10_001, 0).static_ip_due());
}

#[test]
fn socket_fallback_takes_a_datagram() {
    let mut rx = BitmapReceiver::new();
    let mut ctx = context();
    let mut s = at(900, 0);
    let frame = bitmap_frame(4, 0, 1, 3, 2);
    s.socket_fallback(&mut rx, &mut ctx, &frame[42..]);
    assert_eq!(s.last_bitmap_packet_ms, Some(900));
    assert_eq!(rx.stats.frames_completed, 1);
    assert_eq!(ctx.bitmap_stats.frames_completed, 1);
    assert!(ctx.hub75.is_on());
    assert_eq!(ctx.hub75.read_img_data()[0], 3);
}

#[test]
fn ingest_without_completion_keeps_the_animation() {
    let mut rx = BitmapReceiver::new();
    let mut ctx = context();
    ctx.animation = Animation::Rainbow { phase: 1 };
    let frame = bitmap_frame(4, 0, 2, 3, 2);
    ingest(&mut rx, &mut ctx, &frame[42..], 1);
    assert_eq!(ctx.animation, Animation::Rainbow { phase: 1 });
    assert!(!ctx.hub75.is_on());
    assert_eq!(ctx.bitmap_stats.packets_valid, 1);
}

#[test]
fn partial_swap_is_followed_by_the_callers_swap() {
    let mut rx = BitmapReceiver::new();
    let mut ctx = context();
    let first = bitmap_frame(5, 0, 2, 1, 1);
    let next = bitmap_frame(6, 0, 2, 2, 1);
    let base = ctx.hub75.display_base();
    ingest(&mut rx, &mut ctx, &first[42..], 1);
    ingest(&mut rx, &mut ctx, &next[42..], 2);
    assert_eq!(rx.stats.frames_partial, 1);
    assert_eq!(ctx.hub75.display_base(), base);
    assert_eq!(ctx.hub75.read_img_data()[0], 2);
    assert_eq!(ctx.hub75.read_write_side()[0], 1);
}

#[test]
fn mac_errors_are_copied_for_reporting() {
    let mut eth = Eth::new();
    let mut ctx = context();
    eth.count_errors(0, 2, 3);
    assert!(!eth.deliver(&vec![0u8; 4000]));
    refresh_mac_errors(&mut ctx, &eth);
    assert_eq!((ctx.mac_overflow, ctx.mac_preamble_err, ctx.mac_crc_err), (1, 2, 3));
}
