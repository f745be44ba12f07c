use barsign_disp::hub75::{
    Hub75, OutputMode, FB_BASE_WORDS, FB_HALF_WORDS, FB_TOTAL_WORDS, PALETTE_LEN,
};

#[test]
fn new_device_shows_the_first_half() {
    let hub75 = Hub75::new();
    assert_eq!(hub75.display_base(), FB_BASE_WORDS);
    assert_eq!(hub75.get_img_param(), (0, 0));
    assert!(!hub75.is_on());
    assert_eq!(hub75.get_mode(), OutputMode::FullColor);
    assert_eq!(hub75.read_write_side().len(), FB_HALF_WORDS);
    assert_eq!(FB_TOTAL_WORDS, 2 * FB_HALF_WORDS);
    assert_eq!(hub75.read_img_data().len(), 0);
    assert_eq!(hub75.get_palette().len(), PALETTE_LEN);
}

#[test]
fn swap_is_its_own_inverse() {
    let mut hub75 = Hub75::new();
    hub75.set_img_param(4, 4);
    hub75.write_img_data(0, &[1, 2, 3, 4]);
    assert_eq!(hub75.read_img_data(), vec![0, 0, 0, 0]);
    hub75.swap_buffers();
    assert_eq!(hub75.display_base(), FB_BASE_WORDS + FB_HALF_WORDS as u32);
    assert_eq!(hub75.read_img_data(), vec![1, 2, 3, 4]);
    assert_eq!(hub75.read_write_side()[0], 0);
    hub75.swap_buffers();
    assert_eq!(hub75.display_base(), FB_BASE_WORDS);
    assert_eq!(hub75.read_img_data(), vec![0, 0, 0, 0]);
    assert_eq!(&hub75.read_write_side()[0..4], &[1, 2, 3, 4]);
}

#[test]
fn display_side_is_the_other_half() {
    let mut hub75 = Hub75::new();
    hub75.set_img_param(2, 2);
    hub75.write_img_data(0, &[5, 6]);
    assert_eq!(hub75.read_display_side().len(), FB_HALF_WORDS);
    assert_eq!(&hub75.read_display_side()[0..3], &[0, 0, 0]);
    hub75.swap_buffers();
    assert_eq!(&hub75.read_display_side()[0..3], &[5, 6, 0]);
    assert_eq!(&hub75.read_write_side()[0..3], &[0, 0, 0]);
}

#[test]
fn writes_never_reach_the_display_side() {
    let mut hub75 = Hub75::new();
    hub75.set_img_param(8, 8);
    hub75.write_img_data(0, &[7; 8]);
    hub75.swap_buffers();
    hub75.write_img_data(2, &[9; 20]);
    assert_eq!(hub75.read_img_data(), vec![7; 8]);
    assert_eq!(&hub75.read_write_side()[0..9], &[0, 0, 9, 9, 9, 9, 9, 9, 0]);
}

#[test]
fn writes_are_clipped_to_the_pixel_count() {
    let mut hub75 = Hub75::new();
    hub75.set_img_param(2, 5);
    hub75.write_img_data(3, &[1, 2, 3, 4]);
    assert_eq!(&hub75.read_write_side()[0..7], &[0, 0, 0, 1, 2, 0, 0]);
    hub75.write_img_data(5, &[8]);
    hub75.write_img_data(1000, &[8]);
    hub75.write_img_data(usize::MAX, &[8, 8]);
    assert_eq!(&hub75.read_write_side()[0..7], &[0, 0, 0, 1, 2, 0, 0]);
}

#[test]
fn writes_are_clipped_to_the_half() {
    let mut hub75 = Hub75::new();
    hub75.set_img_param(512, u32::MAX);
    hub75.write_img_data(FB_HALF_WORDS - 2, &[5, 6, 7, 8]);
    let side = hub75.read_write_side();
    assert_eq!(side[FB_HALF_WORDS - 2], 5);
    assert_eq!(side[FB_HALF_WORDS - 1], 6);
    hub75.swap_buffers();
    let shown = hub75.read_img_data();
    assert_eq!(shown.len(), FB_HALF_WORDS);
    assert_eq!(shown[FB_HALF_WORDS - 1], 6);
    assert_eq!(hub75.read_write_side()[0], 0);
}

#[test]
fn parameters_do_not_clear_the_contents() {
    let mut hub75 = Hub75::new();
    hub75.set_img_param(4, 4);
    hub75.write_img_data(0, &[1, 2, 3, 4]);
    hub75.set_img_param(2, 2);
    assert_eq!(hub75.get_img_param(), (2, 2));
    assert_eq!(&hub75.read_write_side()[0..4], &[1, 2, 3, 4]);
    hub75.swap_buffers();
    assert_eq!(hub75.read_img_data(), vec![1, 2]);
}

#[test]
fn mode_and_power() {
    let mut hub75 = Hub75::new();
    hub75.on();
    assert!(hub75.is_on());
    hub75.set_mode(OutputMode::Indexed);
    assert_eq!(hub75.get_mode(), OutputMode::Indexed);
    hub75.set_mode(OutputMode::FullColor);
    assert_eq!(hub75.get_mode(), OutputMode::FullColor);
    hub75.off();
    assert!(!hub75.is_on());
}

#[test]
fn panel_parameters() {
    let mut hub75 = Hub75::new();
    assert_eq!(hub75.get_panel_param(0, 0), (0, 0, 0));
    hub75.set_panel_param(7, 0, 3, 4, 1);
    assert_eq!(hub75.get_panel_param(7, 0), (3, 4, 1));
    assert_eq!(hub75.get_panel_param(6, 0), (0, 0, 0));
    hub75.set_panel_param(8, 0, 9, 9, 9);
    hub75.set_panel_param(0, 1, 9, 9, 9);
    assert_eq!(hub75.get_panel_param(8, 0), (255, 255, 255));
    assert_eq!(hub75.get_panel_param(0, 1), (255, 255, 255));
    assert_eq!(hub75.get_panel_param(0, 0), (0, 0, 0));
}

#[test]
fn palette_writes_are_clipped() {
    let mut hub75 = Hub75::new();
    hub75.set_palette(254, &[1, 2, 3, 4]);
    let palette = hub75.get_palette();
    assert_eq!(palette[253], 0);
    assert_eq!(palette[254], 1);
    assert_eq!(palette[255], 2);
    hub75.set_palette(0, &[5]);
    assert_eq!(hub75.get_palette()[0], 5);
    assert_eq!(hub75.get_palette()[1], 0);
}
