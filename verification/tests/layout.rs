use barsign_disp::hub75::Hub75;
use barsign_disp::layout::{
    bytes_equal, first_word, parse_grid, parse_grid_spec, parse_pos, parse_pos_spec, parse_u16, parse_u8,
    position, LayoutConfig, MAX_CHAIN, MAX_OUTPUTS,
};

#[test]
fn single_panel_layout() {
    let l = LayoutConfig::single_panel(96, 48);
    assert_eq!((l.panel_width, l.panel_height, l.grid_cols, l.grid_rows), (96, 48, 1, 1));
    assert_eq!(l.assignments[0][0], Some((0, 0)));
    for output in 0..MAX_OUTPUTS {
        for chain in 0..MAX_CHAIN {
            if output != 0 || chain != 0 {
                assert_eq!(l.assignments[output][chain], None);
            }
        }
    }
    assert_eq!(l.virtual_width(), 96);
    assert_eq!(l.virtual_height(), 48);
    assert_eq!(l.virtual_length(), 4608);
}

#[test]
fn virtual_size_wraps_at_16_bits() {
    let mut l = LayoutConfig::single_panel(65535, 40000);
    l.grid_cols = 2;
    l.grid_rows = 2;
    assert_eq!(l.virtual_width(), 65534);
    assert_eq!(l.virtual_height(), 14464);
    assert_eq!(l.virtual_length(), 65534 * 14464);
}

#[test]
fn parses_a_layout_file() {
    let text = "# two panels\ngrid=2x1\npanel_width=64\npanel_height: 32\nJ1=0,0 1,0\n\n  J2 : 1,0  \r\nJ7=0,0\nJ0=0,0\n";
    let l = LayoutConfig::parse(text).unwrap();
    assert_eq!((l.grid_cols, l.grid_rows), (2, 1));
    assert_eq!((l.panel_width, l.panel_height), (64, 32));
    assert_eq!(l.assignments[0], [Some((0, 0)), Some((1, 0))]);
    assert_eq!(l.assignments[1], [Some((1, 0)), None]);
    for output in 2..MAX_OUTPUTS {
        assert_eq!(l.assignments[output], [None, None]);
    }
    assert_eq!(l.virtual_width(), 128);
    assert_eq!(l.virtual_length(), 4096);
}

#[test]
fn empty_text_gives_the_blank_layout() {
    let l = LayoutConfig::parse("").unwrap();
    assert_eq!((l.panel_width, l.panel_height, l.grid_cols, l.grid_rows), (96, 48, 1, 1));
    for output in 0..MAX_OUTPUTS {
        assert_eq!(l.assignments[output], [None, None]);
    }
}

#[test]
fn unreadable_lines_are_skipped() {
    let text = "grid=300x1\ngrid=2x\ngrid\npanel_width=65536\npanel_height=4x\nJ1=0;0\nJx=0,0\nJ6=5,6 bad 7,8\nunknown=1\ngrid=3x2=9";
    let l = LayoutConfig::parse(text).unwrap();
    assert_eq!((l.panel_width, l.panel_height, l.grid_cols, l.grid_rows), (96, 48, 1, 1));
    assert_eq!(l.assignments[5], [Some((5, 6)), None]);
    assert_eq!(l.assignments[0], [None, None]);
}

#[test]
fn later_lines_win_and_third_position_is_ignored() {
    let l = LayoutConfig::parse("grid=2x2\ngrid: 4x3\nJ3=1,1\tbad\nJ3=x 2,2 3,3").unwrap();
    assert_eq!((l.grid_cols, l.grid_rows), (4, 3));
    assert_eq!(l.assignments[2], [Some((1, 1)), Some((2, 2))]);
}

#[test]
fn unicode_blanks_around_keys_and_values_are_trimmed() {
    let l = LayoutConfig::parse("\u{00A0}grid\u{2003}=\u{3000}3x2\u{0085}\n\u{2028}panel_width: 64\u{205F}").unwrap();
    assert_eq!((l.grid_cols, l.grid_rows), (3, 2));
    assert_eq!(l.panel_width, 64);
}

#[test]
fn equals_sign_wins_over_colon() {
    let l = LayoutConfig::parse("panel_width: 10=20\npanel_height=7: 8").unwrap();
    assert_eq!(l.panel_width, 96);
    assert_eq!(l.panel_height, 48);
    let l = LayoutConfig::parse("panel_width:64").unwrap();
    assert_eq!(l.panel_width, 96);
}

#[test]
fn numbers() {
    assert_eq!(parse_u8(b"0"), Ok(0));
    assert_eq!(parse_u8(b"255"), Ok(255));
    assert_eq!(parse_u8(b"007"), Ok(7));
    assert_eq!(parse_u8(b"256"), Err(()));
    assert_eq!(parse_u8(b""), Err(()));
    assert_eq!(parse_u8(b"1a"), Err(()));
    assert_eq!(parse_u8(b"+1"), Err(()));
    assert_eq!(parse_u8(b" 1"), Err(()));
    assert_eq!(parse_u16(b"65535"), Ok(65535));
    assert_eq!(parse_u16(b"65536"), Err(()));
    assert_eq!(parse_u16(b"99999999999999999999999999"), Err(()));
}

#[test]
fn grid_and_position_specs() {
    assert_eq!(parse_grid_spec("2x1"), Some((2, 1)));
    assert_eq!(parse_grid_spec("12x255"), Some((12, 255)));
    assert_eq!(parse_grid_spec("2x"), None);
    assert_eq!(parse_grid_spec("x1"), None);
    assert_eq!(parse_grid_spec("2X1"), None);
    assert_eq!(parse_grid_spec("2x1x3"), None);
    assert_eq!(parse_grid_spec("21"), None);
    assert_eq!(parse_pos_spec("3,4"), Some((3, 4)));
    assert_eq!(parse_pos_spec("3, 4"), None);
    assert_eq!(parse_pos_spec("256,0"), None);
    assert_eq!(parse_pos_spec(""), None);
    assert_eq!(parse_grid(b"1x1"), Some((1, 1)));
    assert_eq!(parse_pos(b"0,0"), Some((0, 0)));
}

#[test]
fn words_and_bytes() {
    let (word, rest) = first_word(b"  ab\tcd ");
    assert_eq!(word, b"ab");
    assert_eq!(rest, b"\tcd ");
    let (word, rest) = first_word(b"   ");
    assert_eq!(word, b"");
    assert_eq!(rest, b"");
    let (word, _) = first_word(b"a\x0bb c");
    assert_eq!(word, b"a\x0bb");
    assert!(bytes_equal(b"grid", b"grid"));
    assert!(!bytes_equal(b"grid", b"gri"));
    assert!(!bytes_equal(b"grid", b"grit"));
    assert!(bytes_equal(b"", b""));
}

#[test]
fn positions_are_in_units_of_16() {
    assert_eq!(position(0, 96), 0);
    assert_eq!(position(1, 96), 6);
    assert_eq!(position(2, 64), 8);
    assert_eq!(position(1, 15), 0);
    assert_eq!(position(255, 65535), 240);
}

#[test]
fn apply_configures_the_device() {
    let l = LayoutConfig::parse("grid=2x2\npanel_width=64\npanel_height=32\nJ1=0,0 1,0\nJ2=1,0\nJ4=1,1").unwrap();
    let mut hub75 = Hub75::new();
    hub75.set_panel_param(2, 0, 9, 9, 3);
    hub75.set_panel_param(7, 0, 8, 8, 2);
    hub75.set_panel_param(1, 0, 1, 1, 1);
    l.apply(&mut hub75);
    assert_eq!(hub75.get_img_param(), (128, 128 * 64));
    assert_eq!(hub75.get_panel_param(0, 0), (0, 0, 0));
    assert_eq!(hub75.get_panel_param(1, 0), (4, 0, 0));
    assert_eq!(hub75.get_panel_param(2, 0), (9, 9, 3));
    assert_eq!(hub75.get_panel_param(3, 0), (4, 2, 0));
    assert_eq!(hub75.get_panel_param(7, 0), (8, 8, 2));
}
