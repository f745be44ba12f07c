use barsign_disp::bitmap_udp::{
    bumped, count_received, full_mask_of, parse_header, rgb_pixels, verdict, BitmapReceiver,
    BitmapStats, Verdict, NO_FRAME, PARTIAL_SWAP_SLACK, PIXELS_PER_CHUNK,
};
use barsign_disp::hub75::Hub75;

const RED: u32 = 0x0000FF;
const BLUE: u32 = 0xFF0000;

fn chunk(frame_id: u16, index: u8, total: u8, width: u16, height: u16, rgb: [u8; 3], pixels: usize) -> Vec<u8> {
    let mut data = vec![0x42, 0x4D];
    data.push((frame_id & 0xFF) as u8);
    data.push((frame_id >> 8) as u8);
    data.push(index);
    data.push(total);
    data.push((width & 0xFF) as u8);
    data.push((width >> 8) as u8);
    data.push((height & 0xFF) as u8);
    data.push((height >> 8) as u8);
    for _ in 0..pixels {
        data.push(rgb[0]);
        data.push(rgb[1]);
        data.push(rgb[2]);
    }
    data
}

fn device(width: u16, length: u32) -> Hub75 {
    let mut hub75 = Hub75::new();
    hub75.set_img_param(width, length);
    hub75
}

#[test]
fn new_receiver_has_seen_nothing() {
    let rx = BitmapReceiver::new();
    assert_eq!(rx.current_frame_id, NO_FRAME);
    assert_eq!(rx.received_mask, 0);
    assert_eq!(rx.chunks_count, 0);
    assert_eq!(rx.total_chunks, 0);
    assert_eq!(rx.last_complete_ms, 0);
    let stats = BitmapStats::new();
    assert_eq!(stats.packets_total, 0);
    assert_eq!(rx.stats.packets_total, 0);
    assert_eq!(rx.stats.frames_completed, 0);
    assert_eq!(rx.stats.avg_interval_ms, 0);
}

#[test]
fn two_chunks_complete_a_frame_once() {
    let mut hub75 = device(4, 1024);
    let mut rx = BitmapReceiver::new();
    let first = chunk(1, 0, 2, 4, 2, [0xFF, 0, 0], 4);
    let second = chunk(1, 1, 2, 4, 2, [0, 0, 0xFF], 4);
    assert!(!rx.process_packet(&first, &mut hub75, 10));
    assert_eq!(rx.received_mask, 0b01);
    assert_eq!(rx.chunks_count, 1);
    assert!(rx.process_packet(&second, &mut hub75, 11));
    assert_eq!(rx.stats.frames_completed, 1);
    assert_eq!(rx.stats.packets_valid, 2);
    assert_eq!(rx.stats.packets_total, 2);
    assert_eq!(rx.received_mask, 0);
    assert_eq!(rx.chunks_count, 0);
    let side = hub75.read_write_side();
    for i in 0..4 {
        assert_eq!(side[i], RED);
        assert_eq!(side[PIXELS_PER_CHUNK + i], BLUE);
    }
    assert_eq!(side[4], 0);
    assert_eq!(side[PIXELS_PER_CHUNK + 4], 0);
}

#[test]
fn chunks_in_reverse_order_complete_once() {
    let mut hub75 = device(4, 2048);
    let mut rx = BitmapReceiver::new();
    let mut signals = 0;
    for index in [2u8, 0, 1] {
        let data = chunk(9, index, 3, 4, 2, [index + 1, 0, 0], 2);
        if rx.process_packet(&data, &mut hub75, 5) {
            signals += 1;
        }
    }
    assert_eq!(signals, 1);
    assert_eq!(rx.stats.frames_completed, 1);
    let side = hub75.read_write_side();
    for index in 0..3usize {
        assert_eq!(side[index * 487], index as u32 + 1);
        assert_eq!(side[index * 487 + 1], index as u32 + 1);
        assert_eq!(side[index * 487 + 2], 0);
    }
}

#[test]
fn pixels_behind_the_configured_count_are_dropped() {
    let mut hub75 = device(4, 8);
    let mut rx = BitmapReceiver::new();
    let first = chunk(1, 0, 2, 4, 2, [0xFF, 0, 0], 10);
    let second = chunk(1, 1, 2, 4, 2, [0, 0, 0xFF], 4);
    assert!(!rx.process_packet(&first, &mut hub75, 1));
    assert!(rx.process_packet(&second, &mut hub75, 1));
    let side = hub75.read_write_side();
    for i in 0..8 {
        assert_eq!(side[i], RED);
    }
    assert_eq!(side[8], 0);
    assert_eq!(side[9], 0);
    assert_eq!(side[487], 0);
}

#[test]
fn resent_chunk_leaves_mask_alone() {
    let mut hub75 = device(4, 2048);
    let mut rx = BitmapReceiver::new();
    let data = chunk(3, 1, 4, 4, 2, [1, 2, 3], 1);
    assert!(!rx.process_packet(&data, &mut hub75, 0));
    let mask = rx.received_mask;
    assert_eq!(mask, 0b10);
    assert!(!rx.process_packet(&data, &mut hub75, 0));
    assert_eq!(rx.received_mask, mask);
    assert_eq!(rx.chunks_count, 1);
    assert_eq!(rx.stats.chunks_received, 1);
    assert_eq!(rx.stats.frames_completed, 0);
    assert_eq!(rx.stats.packets_valid, 2);
}

#[test]
fn malformed_headers_change_only_counters() {
    let mut hub75 = device(4, 2048);
    let mut rx = BitmapReceiver::new();
    assert!(!rx.process_packet(&chunk(3, 0, 4, 4, 2, [1, 2, 3], 1), &mut hub75, 0));
    let bad = [
        chunk(3, 0, 0, 4, 2, [9, 9, 9], 1),
        chunk(3, 4, 4, 4, 2, [9, 9, 9], 1),
        chunk(3, 7, 4, 4, 2, [9, 9, 9], 1),
        chunk(3, 1, 33, 4, 2, [9, 9, 9], 1),
        chunk(4, 0, 200, 4, 2, [9, 9, 9], 1),
    ];
    let mut expected_bad = 0;
    for data in bad.iter() {
        assert_eq!(verdict(data), Verdict::BadHeader);
        assert!(!rx.process_packet(data, &mut hub75, 77));
        expected_bad += 1;
        assert_eq!(rx.stats.packets_bad_header, expected_bad);
        assert_eq!(rx.stats.packets_total, 1 + expected_bad);
        assert_eq!(rx.stats.packets_valid, 1);
        assert_eq!(rx.stats.packets_bad_magic, 0);
        assert_eq!(rx.stats.frames_completed, 0);
        assert_eq!(rx.stats.frames_partial, 0);
        assert_eq!(rx.stats.frames_dropped, 0);
        assert_eq!(rx.current_frame_id, 3);
        assert_eq!(rx.received_mask, 1);
        assert_eq!(rx.chunks_count, 1);
        assert_eq!(rx.total_chunks, 4);
        assert_eq!(rx.last_complete_ms, 0);
    }
    assert_eq!(rx.stats.last_total_chunks, 200);
    assert_eq!(rx.stats.last_frame_id, 4);
    let side = hub75.read_write_side();
    assert_eq!(side[0], 0x030201);
    assert_eq!(side[487], 0);
}

#[test]
fn chunk_beyond_the_expected_count_raises_it() {
    let mut hub75 = device(4, 4096);
    let mut rx = BitmapReceiver::new();
    assert!(!rx.process_packet(&chunk(3, 0, 2, 4, 2, [1, 1, 1], 1), &mut hub75, 0));
    assert_eq!(rx.total_chunks, 2);
    let later = chunk(3, 2, 3, 4, 2, [2, 2, 2], 1);
    assert_eq!(verdict(&later), Verdict::Accepted);
    assert!(!rx.process_packet(&later, &mut hub75, 0));
    assert_eq!(rx.total_chunks, 3);
    assert_eq!(rx.received_mask, 0b101);
    assert_eq!(rx.chunks_count, 2);
    assert_eq!(rx.stats.packets_bad_header, 0);
    assert_eq!(rx.stats.packets_valid, 2);
    assert_eq!(rx.stats.frames_dropped, 0);
    assert_eq!(rx.current_frame_id, 3);
    assert_eq!(hub75.read_write_side()[0], 0x010101);
    assert_eq!(hub75.read_write_side()[2 * 487], 0x020202);
    assert!(rx.process_packet(&chunk(3, 1, 3, 4, 2, [3, 3, 3], 1), &mut hub75, 0));
    assert_eq!(rx.stats.frames_completed, 1);
    assert_eq!(hub75.read_write_side()[487], 0x030303);
}

#[test]
fn chunk_below_the_expected_count_keeps_it() {
    let mut hub75 = device(4, 4096);
    let mut rx = BitmapReceiver::new();
    assert!(!rx.process_packet(&chunk(3, 4, 5, 4, 2, [1, 1, 1], 1), &mut hub75, 0));
    assert!(!rx.process_packet(&chunk(3, 0, 2, 4, 2, [2, 2, 2], 1), &mut hub75, 0));
    assert_eq!(rx.total_chunks, 5);
    assert_eq!(rx.received_mask, 0b10001);
    assert_eq!(rx.stats.packets_valid, 2);
    assert!(!rx.process_packet(&chunk(3, 1, 2, 4, 2, [2, 2, 2], 1), &mut hub75, 0));
    assert_eq!(rx.stats.frames_completed, 0);
}

#[test]
fn smaller_tracked_count_still_completes_once() {
    let mut hub75 = device(4, 4096);
    let mut rx = BitmapReceiver::new();
    assert!(!rx.process_packet(&chunk(3, 0, 2, 4, 2, [9, 9, 9], 1), &mut hub75, 0));
    let mut signals = 0;
    for index in [1u8, 2, 0] {
        if rx.process_packet(&chunk(3, index, 3, 4, 2, [index + 1, 0, 0], 1), &mut hub75, 0) {
            signals += 1;
        }
    }
    assert_eq!(signals, 1);
    assert_eq!(rx.stats.frames_completed, 1);
    let side = hub75.read_write_side();
    assert_eq!(side[0], 1);
    assert_eq!(side[487], 2);
    assert_eq!(side[2 * 487], 3);
}

#[test]
fn short_and_unsigned_datagrams_are_counted() {
    let mut hub75 = device(4, 2048);
    let mut rx = BitmapReceiver::new();
    let short = [0x42u8, 0x4D, 1, 0, 0, 1, 4, 0, 2];
    assert_eq!(verdict(&short), Verdict::TooShort);
    assert!(!rx.process_packet(&short, &mut hub75, 0));
    assert_eq!(rx.stats.packets_bad_header, 1);
    assert_eq!(rx.stats.last_data_len, 9);
    let mut unsigned = chunk(1, 0, 1, 4, 2, [1, 1, 1], 1);
    unsigned[1] = 0x4E;
    assert_eq!(verdict(&unsigned), Verdict::BadMagic);
    assert!(!rx.process_packet(&unsigned, &mut hub75, 0));
    assert_eq!(rx.stats.packets_bad_magic, 1);
    assert_eq!(rx.stats.packets_bad_header, 1);
    assert_eq!(rx.stats.packets_total, 2);
    assert_eq!(rx.stats.packets_valid, 0);
    assert_eq!(rx.stats.last_frame_id, 0);
    assert_eq!(rx.current_frame_id, NO_FRAME);
    let empty: [u8; 0] = [];
    assert!(!rx.process_packet(&empty, &mut hub75, 0));
    assert_eq!(rx.stats.last_data_len, 0);
}

#[test]
fn frame_missing_one_chunk_is_shown_partially() {
    let mut hub75 = device(4, 2048);
    let mut rx = BitmapReceiver::new();
    assert!(!rx.process_packet(&chunk(5, 0, 3, 4, 2, [1, 0, 0], 1), &mut hub75, 100));
    assert!(!rx.process_packet(&chunk(5, 1, 3, 4, 2, [2, 0, 0], 1), &mut hub75, 101));
    let base = hub75.display_base();
    assert!(rx.process_packet(&chunk(6, 0, 3, 4, 2, [3, 0, 0], 1), &mut hub75, 102));
    assert_eq!(rx.stats.frames_partial, 1);
    assert_eq!(rx.stats.frames_dropped, 0);
    assert_eq!(rx.stats.frames_completed, 0);
    assert_eq!(rx.current_frame_id, 6);
    assert_eq!(rx.received_mask, 1);
    assert_eq!(rx.last_complete_ms, 102);
    assert_ne!(hub75.display_base(), base);
    let shown = hub75.read_img_data();
    assert_eq!(shown[0], 1);
    assert_eq!(shown[487], 2);
    assert_eq!(hub75.read_write_side()[0], 3);
}

#[test]
fn frame_missing_two_chunks_is_shown_partially() {
    let mut hub75 = device(4, 2048);
    let mut rx = BitmapReceiver::new();
    assert!(!rx.process_packet(&chunk(5, 2, 4, 4, 2, [1, 0, 0], 1), &mut hub75, 0));
    assert!(!rx.process_packet(&chunk(5, 0, 4, 4, 2, [1, 0, 0], 1), &mut hub75, 0));
    assert_eq!(rx.chunks_count + PARTIAL_SWAP_SLACK, 4);
    assert!(rx.process_packet(&chunk(7, 1, 4, 4, 2, [1, 0, 0], 1), &mut hub75, 0));
    assert_eq!(rx.stats.frames_partial, 1);
    assert_eq!(rx.stats.frames_dropped, 0);
}

#[test]
fn frame_missing_three_chunks_is_dropped() {
    let mut hub75 = device(4, 2048);
    let mut rx = BitmapReceiver::new();
    assert!(!rx.process_packet(&chunk(5, 0, 4, 4, 2, [1, 0, 0], 1), &mut hub75, 0));
    let base = hub75.display_base();
    assert!(!rx.process_packet(&chunk(6, 0, 4, 4, 2, [2, 0, 0], 1), &mut hub75, 0));
    assert_eq!(rx.stats.frames_dropped, 1);
    assert_eq!(rx.stats.frames_partial, 0);
    assert_eq!(hub75.display_base(), base);
    assert_eq!(rx.current_frame_id, 6);
    assert_eq!(rx.received_mask, 1);
}

#[test]
fn dropped_frame_followed_by_single_chunk_frame_signals_completion() {
    let mut hub75 = device(4, 2048);
    let mut rx = BitmapReceiver::new();
    assert!(!rx.process_packet(&chunk(5, 0, 4, 4, 2, [1, 0, 0], 1), &mut hub75, 0));
    assert!(rx.process_packet(&chunk(6, 0, 1, 4, 2, [2, 0, 0], 1), &mut hub75, 0));
    assert_eq!(rx.stats.frames_dropped, 1);
    assert_eq!(rx.stats.frames_partial, 0);
    assert_eq!(rx.stats.frames_completed, 1);
}

#[test]
fn new_frame_after_completion_counts_nothing() {
    let mut hub75 = device(4, 2048);
    let mut rx = BitmapReceiver::new();
    assert!(rx.process_packet(&chunk(5, 0, 1, 4, 2, [1, 0, 0], 1), &mut hub75, 0));
    assert!(rx.process_packet(&chunk(6, 0, 1, 4, 2, [1, 0, 0], 1), &mut hub75, 0));
    assert_eq!(rx.stats.frames_completed, 2);
    assert_eq!(rx.stats.frames_dropped, 0);
    assert_eq!(rx.stats.frames_partial, 0);
}

#[test]
fn first_packet_may_carry_the_sentinel_identifier() {
    let mut hub75 = device(4, 2048);
    let mut rx = BitmapReceiver::new();
    assert!(!rx.process_packet(&chunk(0xFFFF, 0, 2, 4, 2, [1, 0, 0], 1), &mut hub75, 0));
    assert_eq!(rx.total_chunks, 2);
    assert!(rx.process_packet(&chunk(0xFFFF, 1, 2, 4, 2, [1, 0, 0], 1), &mut hub75, 0));
    assert_eq!(rx.stats.frames_completed, 1);
}

#[test]
fn thirty_two_chunks_fill_the_mask() {
    let mut hub75 = device(64, 487 * 32);
    let mut rx = BitmapReceiver::new();
    for index in 0..31u8 {
        assert!(!rx.process_packet(&chunk(2, index, 32, 64, 64, [index, 0, 0], 487), &mut hub75, 0));
    }
    assert_eq!(rx.received_mask, 0x7FFF_FFFF);
    assert_eq!(rx.chunks_count, 31);
    assert!(rx.process_packet(&chunk(2, 31, 32, 64, 64, [31, 0, 0], 487), &mut hub75, 0));
    let side = hub75.read_write_side();
    for index in 0..32usize {
        assert_eq!(side[index * 487], index as u32);
        assert_eq!(side[index * 487 + 486], index as u32);
    }
    assert_eq!(side[487 * 32], 0);
}

#[test]
fn timing_follows_the_moving_average() {
    let mut hub75 = device(4, 2048);
    let mut rx = BitmapReceiver::new();
    let one = |id: u16| chunk(id, 0, 1, 4, 2, [1, 0, 0], 1);
    assert!(rx.process_packet(&one(1), &mut hub75, 1000));
    assert_eq!(rx.last_complete_ms, 1000);
    assert_eq!(rx.stats.frame_interval_ms, 0);
    assert_eq!(rx.stats.avg_interval_ms, 0);
    assert!(rx.process_packet(&one(2), &mut hub75, 1040));
    assert_eq!(rx.stats.frame_interval_ms, 40);
    assert_eq!(rx.stats.avg_interval_ms, 40);
    assert_eq!(rx.stats.jitter_ms, 0);
    assert!(rx.process_packet(&one(3), &mut hub75, 1120));
    assert_eq!(rx.stats.frame_interval_ms, 80);
    assert_eq!(rx.stats.avg_interval_ms, 45);
    assert_eq!(rx.stats.jitter_ms, 35);
    assert!(rx.process_packet(&one(4), &mut hub75, 1125));
    assert_eq!(rx.stats.frame_interval_ms, 5);
    assert_eq!(rx.stats.avg_interval_ms, 40);
    assert_eq!(rx.stats.jitter_ms, 35);
}

#[test]
fn update_timing_without_earlier_finish_only_records_the_time() {
    let mut rx = BitmapReceiver::new();
    rx.update_timing(0);
    assert_eq!(rx.last_complete_ms, 0);
    rx.update_timing(50);
    assert_eq!(rx.last_complete_ms, 50);
    assert_eq!(rx.stats.frame_interval_ms, 0);
    rx.update_timing(20);
    assert_eq!(rx.stats.frame_interval_ms, 0xFFFF_FFE2);
    assert_eq!(rx.stats.avg_interval_ms, 0xFFFF_FFE2);
    assert_eq!(rx.last_complete_ms, 20);
    rx.update_timing(28);
    assert_eq!(rx.stats.frame_interval_ms, 8);
    assert_eq!(rx.stats.avg_interval_ms, 3758096358);
    assert_eq!(rx.stats.jitter_ms, 3758096350);
}

#[test]
fn counters_stay_at_the_largest_value() {
    let mut hub75 = device(4, 2048);
    let mut rx = BitmapReceiver::new();
    rx.stats.packets_total = u32::MAX;
    rx.stats.packets_bad_header = u32::MAX - 1;
    let empty: [u8; 0] = [];
    assert!(!rx.process_packet(&empty, &mut hub75, 0));
    assert_eq!(rx.stats.packets_total, u32::MAX);
    assert_eq!(rx.stats.packets_bad_header, u32::MAX);
    assert!(!rx.process_packet(&empty, &mut hub75, 0));
    assert_eq!(rx.stats.packets_bad_header, u32::MAX);
    assert_eq!(bumped(0), 1);
    assert_eq!(bumped(u32::MAX), u32::MAX);
}

#[test]
fn header_fields_are_little_endian() {
    let data = [0x42u8, 0x4D, 0x34, 0x12, 7, 9, 0x80, 0x01, 0x40, 0x00, 1, 2, 3];
    let h = parse_header(&data);
    assert_eq!(h.frame_id, 0x1234);
    assert_eq!(h.chunk_index, 7);
    assert_eq!(h.total_chunks, 9);
    assert_eq!(h.width, 384);
    assert_eq!(h.height, 64);
}

#[test]
fn pixel_bytes_pack_blue_high_red_low() {
    let pixels = rgb_pixels(&[0x11, 0x22, 0x33, 0xAA, 0xBB, 0xCC, 0x01, 0x02]);
    assert_eq!(pixels, vec![0x332211, 0xCCBBAA]);
    assert_eq!(rgb_pixels(&[1, 2]), Vec::<u32>::new());
}

#[test]
fn masks_and_counts() {
    assert_eq!(full_mask_of(0), 0);
    assert_eq!(full_mask_of(1), 1);
    assert_eq!(full_mask_of(3), 0b111);
    assert_eq!(full_mask_of(31), 0x7FFF_FFFF);
    assert_eq!(full_mask_of(32), 0xFFFF_FFFF);
    assert_eq!(full_mask_of(200), 0xFFFF_FFFF);
    assert_eq!(count_received(0), 0);
    assert_eq!(count_received(0b1011), 3);
    assert_eq!(count_received(0x8000_0001), 2);
    assert_eq!(count_received(u32::MAX), 32);
}
