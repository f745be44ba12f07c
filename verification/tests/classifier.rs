use barsign_disp::classify::{is_bitmap_udp, udp_payload, BITMAP_PORT, FRAME_HEADER_LEN, MIN_BITMAP_FRAME_LEN};

fn bitmap_frame(len: usize) -> Vec<u8> {
    let mut frame = vec![0u8; len];
    frame[12] = 0x08;
    frame[13] = 0x00;
    frame[14] = 0x45;
    frame[23] = 17;
    frame[36] = (BITMAP_PORT >> 8) as u8;
    frame[37] = (BITMAP_PORT & 0xFF) as u8;
    frame
}

#[test]
fn accepts_a_udp_datagram_for_the_bitmap_port() {
    assert_eq!(MIN_BITMAP_FRAME_LEN, FRAME_HEADER_LEN + 10);
    assert!(is_bitmap_udp(&bitmap_frame(52)));
    assert!(is_bitmap_udp(&bitmap_frame(1514)));
}

#[test]
fn rejects_short_frames() {
    assert!(!is_bitmap_udp(&bitmap_frame(51)));
    assert!(!is_bitmap_udp(&bitmap_frame(38)));
    assert!(!is_bitmap_udp(&[]));
}

#[test]
fn rejects_other_traffic() {
    let mut arp = bitmap_frame(60);
    arp[13] = 0x06;
    assert!(!is_bitmap_udp(&arp));
    let mut vlan = bitmap_frame(60);
    vlan[12] = 0x81;
    assert!(!is_bitmap_udp(&vlan));
    let mut options = bitmap_frame(60);
    options[14] = 0x46;
    assert!(!is_bitmap_udp(&options));
    let mut tcp = bitmap_frame(60);
    tcp[23] = 6;
    assert!(!is_bitmap_udp(&tcp));
    let mut other_port = bitmap_frame(60);
    other_port[37] = 0x59;
    assert!(!is_bitmap_udp(&other_port));
    let mut swapped_port = bitmap_frame(60);
    swapped_port[36] = 0x58;
    swapped_port[37] = 0x1B;
    assert!(!is_bitmap_udp(&swapped_port));
}

#[test]
fn only_the_low_nibble_of_the_version_byte_counts() {
    let mut frame = bitmap_frame(60);
    frame[14] = 0xF5;
    assert!(is_bitmap_udp(&frame));
}

#[test]
fn payload_starts_behind_the_transport_headers() {
    let mut frame = bitmap_frame(52);
    frame[42] = 0x42;
    frame[51] = 9;
    let payload = udp_payload(&frame);
    assert_eq!(payload.len(), 10);
    assert_eq!(payload[0], 0x42);
    assert_eq!(payload[9], 9);
    assert_eq!(udp_payload(&bitmap_frame(42)).len(), 0);
}
