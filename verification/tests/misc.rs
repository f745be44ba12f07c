use barsign_disp::artnet::{apply_packet, packet2hub75, PALETTE_OFFSET};
use barsign_disp::bytes::{le16, le32, push_word, read_words};
use barsign_disp::flash_id::derive_mac;
use barsign_disp::hub75::Hub75;
use barsign_disp::img_flash::{flash_page, image_pages, page_count, IMAGE_OFFSET};
use barsign_disp::text::{
    blank_end, blank_start, find_byte, find_bytes, is_blank, is_digit, matches_at, parse_decimal,
    skip_run_of, trim,
};

fn artnet(universe: u16, length: u16, payload: &[u8]) -> Vec<u8> {
    let mut data = vec![0u8; 14];
    data.push((universe & 0xFF) as u8);
    data.push((universe >> 8) as u8);
    data.push((length >> 8) as u8);
    data.push((length & 0xFF) as u8);
    data.extend_from_slice(payload);
    data
}

#[test]
fn artnet_packet_gives_offset_and_colours() {
    let (offset, pixels) = packet2hub75(&artnet(2, 6, &[1, 2, 3, 4, 5, 6, 7, 8, 9])).unwrap();
    assert_eq!(offset, 340);
    assert_eq!(pixels, vec![0x030201, 0x060504]);
    let (offset, pixels) = packet2hub75(&artnet(0x0102, 0, &[])).unwrap();
    assert_eq!(offset, 0x0102 * 170);
    assert_eq!(pixels.len(), 0);
    let (_, pixels) = packet2hub75(&artnet(0, 5, &[1, 2, 3, 4, 5])).unwrap();
    assert_eq!(pixels, vec![0x030201]);
}

#[test]
fn artnet_packet_shorter_than_declared_is_refused() {
    assert!(packet2hub75(&[0u8; 17]).is_err());
    assert!(packet2hub75(&artnet(0, 4, &[1, 2, 3])).is_err());
    assert!(packet2hub75(&artnet(0, 0x0100, &[0; 255])).is_err());
    assert!(packet2hub75(&artnet(0, 0x0100, &[0; 256])).is_ok());
}

#[test]
fn last_universes_set_the_palette() {
    let mut hub75 = Hub75::new();
    assert_eq!(PALETTE_OFFSET, 65534 * 170);
    apply_packet(&mut hub75, &artnet(65534, 6, &[1, 0, 0, 2, 0, 0]));
    assert_eq!(&hub75.get_palette()[0..3], &[1, 2, 0]);
    apply_packet(&mut hub75, &artnet(65535, 3, &[9, 0, 0]));
    assert_eq!(hub75.get_palette()[170], 9);
    apply_packet(&mut hub75, &artnet(65533, 3, &[5, 0, 0]));
    apply_packet(&mut hub75, &artnet(0, 3, &[5, 0, 0]));
    apply_packet(&mut hub75, &[1, 2, 3]);
    assert_eq!(&hub75.get_palette()[0..3], &[1, 2, 0]);
    let many = vec![7u8; 3 * 100];
    apply_packet(&mut hub75, &artnet(65535, 300, &many));
    assert_eq!(hub75.get_palette()[255], 0x070707);
    assert_eq!(hub75.get_palette()[169], 0);
}

#[test]
fn mac_is_folded_from_the_chip_number() {
    assert_eq!(derive_mac(&[0; 8]), [2, 0, 0, 0, 0, 0]);
    assert_eq!(
        derive_mac(&[0x01, 0x02, 0x04, 0x08, 0x10, 0x20, 0x40, 0x80]),
        [0x02, 0x09, 0x12, 0x24, 0x48, 0x90]
    );
    assert_eq!(derive_mac(&[0xFF; 8]), [2, 0, 0, 0, 0, 0]);
}

#[test]
fn words_and_their_bytes() {
    assert_eq!(le16(0x34, 0x12), 0x1234);
    assert_eq!(le16(0xFF, 0xFF), 0xFFFF);
    assert_eq!(le32(0x78, 0x56, 0x34, 0x12), 0x12345678);
    assert_eq!(le32(0xFF, 0xFF, 0xFF, 0xFF), u32::MAX);
    assert_eq!(read_words(&[9, 1, 0, 0, 0, 2, 0, 0, 0, 9], 1, 2), vec![1, 2]);
    assert_eq!(read_words(&[1, 2, 3], 3, 0), Vec::<u32>::new());
    let mut out = vec![5u8];
    push_word(&mut out, 0xA1B2C3D4);
    assert_eq!(out, vec![5, 0xD4, 0xC3, 0xB2, 0xA1]);
}

#[test]
fn flash_pages_of_a_picture() {
    let data: Vec<u8> = (0..600).map(|i| (i % 251) as u8).collect();
    assert_eq!(page_count(&data), 3);
    let pages = image_pages(&data);
    assert_eq!(pages.len(), 3);
    assert_eq!(pages[0].write_at as usize, IMAGE_OFFSET);
    assert_eq!(pages[0].erase_at, Some(IMAGE_OFFSET as u32 + 255));
    assert_eq!(pages[1].write_at as usize, IMAGE_OFFSET + 256);
    assert_eq!(pages[1].erase_at, None);
    assert_eq!(pages[2].write_at as usize, IMAGE_OFFSET + 512);
    assert_eq!(&pages[0].bytes[..], &data[0..256]);
    assert_eq!(&pages[2].bytes[0..88], &data[512..600]);
    assert!(pages[2].bytes[88..].iter().all(|b| *b == 0));
    assert_eq!(flash_page(&data, 1), pages[1]);
}

#[test]
fn flash_sectors_are_erased_before_their_first_page() {
    let data = vec![1u8; 4096 * 2 + 10];
    let pages = image_pages(&data);
    assert_eq!(pages.len(), 33);
    for (p, page) in pages.iter().enumerate() {
        if p % 16 == 0 {
            assert_eq!(page.erase_at, Some((IMAGE_OFFSET + 256 * p + 255) as u32));
        } else {
            assert_eq!(page.erase_at, None);
        }
    }
}

#[test]
fn flash_pages_of_edge_lengths() {
    let empty = image_pages(&[]);
    assert_eq!(empty.len(), 1);
    assert_eq!(empty[0].write_at as usize, IMAGE_OFFSET + 256);
    assert_eq!(empty[0].erase_at, None);
    assert!(empty[0].bytes.iter().all(|b| *b == 0));
    let exact = image_pages(&[9u8; 256]);
    assert_eq!(exact.len(), 2);
    assert!(exact[0].bytes.iter().all(|b| *b == 9));
    assert!(exact[1].bytes.iter().all(|b| *b == 0));
    assert_eq!(exact[1].write_at as usize, IMAGE_OFFSET + 256);
}

#[test]
fn trim_takes_every_unicode_blank() {
    let blanks = [
        "\u{0009}", "\u{000A}", "\u{000B}", "\u{000C}", "\u{000D}", "\u{0020}", "\u{0085}",
        "\u{00A0}", "\u{1680}", "\u{2000}", "\u{2001}", "\u{2002}", "\u{2003}", "\u{2004}",
        "\u{2005}", "\u{2006}", "\u{2007}", "\u{2008}", "\u{2009}", "\u{200A}", "\u{2028}",
        "\u{2029}", "\u{202F}", "\u{205F}", "\u{3000}",
    ];
    for blank in blanks.iter() {
        let text = format!("{}{}a{}b{}{}", blank, blank, blank, blank, blank);
        assert_eq!(trim(text.as_bytes()), text.trim().as_bytes());
        assert_eq!(trim(text.as_bytes()).len(), 2 + blank.len());
        assert_eq!(blank_start(blank.as_bytes()), blank.len());
        assert_eq!(blank_end(blank.as_bytes()), blank.len());
        assert_eq!(trim(blank.as_bytes()), b"");
    }
    let others = ["\u{200B}", "\u{00A1}", "\u{0084}", "\u{180E}", "\u{2060}", "\u{FEFF}", "\u{3001}", "\u{1681}", "\u{200C}"];
    for other in others.iter() {
        let text = format!(" {}x{} ", other, other);
        assert_eq!(trim(text.as_bytes()), text.trim().as_bytes());
        assert_eq!(trim(text.as_bytes()).len(), 1 + 2 * other.len());
        assert_eq!(blank_start(other.as_bytes()), 0);
        assert_eq!(blank_end(other.as_bytes()), 0);
    }
    assert_eq!(blank_start(b"\xC2"), 0);
    assert_eq!(blank_end(b"\x80\x80"), 0);
    assert_eq!(blank_start(b""), 0);
    assert_eq!(blank_end(b""), 0);
}

#[test]
fn text_tools() {
    assert!(is_blank(b' ') && is_blank(b'\t') && is_blank(b'\n') && is_blank(0x0b) && is_blank(0x0c) && is_blank(b'\r'));
    assert!(!is_blank(b'a') && !is_blank(0) && !is_blank(8) && !is_blank(14));
    assert!(is_digit(b'0') && is_digit(b'9') && !is_digit(b'/') && !is_digit(b':'));
    assert_eq!(trim(b"  a b \r\n"), b"a b");
    assert_eq!(trim(b"\t\t"), b"");
    assert_eq!(trim(b""), b"");
    assert_eq!(trim(b"x"), b"x");
    assert_eq!(find_byte(b"abcabc", b'c'), Some(2));
    assert_eq!(find_byte(b"abc", b'd'), None);
    assert_eq!(find_bytes(b"xxabxab", b"ab"), Some(2));
    assert_eq!(find_bytes(b"ab", b"abc"), None);
    assert_eq!(find_bytes(b"ab", b""), None);
    assert_eq!(find_bytes(b"aab", b"ab"), Some(1));
    assert!(matches_at(b"hello", b"ll", 2));
    assert!(!matches_at(b"hello", b"ll", 3));
    assert!(matches_at(b"hello", b"", 5));
    assert_eq!(skip_run_of(b"  x ", 0, b' ', true), 2);
    assert_eq!(skip_run_of(b"  x ", 2, b' ', true), 2);
    assert_eq!(skip_run_of(b"ab\"c", 0, b'"', false), 2);
    assert_eq!(skip_run_of(b"abc", 1, b'"', false), 3);
    assert_eq!(parse_decimal(b"18446744073709551615", u64::MAX), Some(u64::MAX));
    assert_eq!(parse_decimal(b"18446744073709551616", u64::MAX), None);
    assert_eq!(parse_decimal(b"10", 9), None);
    assert_eq!(parse_decimal(b"09", 9), Some(9));
}
