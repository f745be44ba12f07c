//! Test pictures for the panels, as rows of packed pixels.

use vstd::prelude::*;

verus! {

/// Characters of the version text.
pub const VERSION_LEN: usize = 6;

/// Columns that one character of the version text takes, gap included.
pub const GLYPH_PITCH: usize = 6;

/// Rows of a character.
pub const GLYPH_ROWS: usize = 7;

/// The test pictures.
#[derive(Clone, Copy, Debug, PartialEq, Eq, Structural)]
pub enum Pattern {
    Grid,
    Rainbow,
    AnimatedRainbow { phase: u32 },
    Solid { r: u8, g: u8, b: u8 },
}

/// A pixel word: blue in bits 16 to 23, green in bits 8 to 15, red in the
/// low byte.
pub open spec fn spec_rgb(r: u8, g: u8, b: u8) -> u32 {
    ((b as u32) << 16) | ((g as u32) << 8) | (r as u32)
}

/// Packs three colour bytes into one pixel word.
pub fn rgb(r: u8, g: u8, b: u8) -> (pixel: u32)
    ensures
        pixel == spec_rgb(r, g, b),
{
    ((b as u32) << 16) | ((g as u32) << 8) | (r as u32)
}

/// The `i`-th character of the version text, "v0.1.0".
pub open spec fn spec_version_char(i: int) -> u8 {
    if i == 0 {
        118
    } else if i == 1 || i == 5 {
        48
    } else if i == 3 {
        49
    } else {
        46
    }
}

pub fn version_char(i: usize) -> (ch: u8)
    requires
        i < VERSION_LEN,
    ensures
        ch == spec_version_char(i as int),
{
    if i == 0 {
        118
    } else if i == 1 || i == 5 {
        48
    } else if i == 3 {
        49
    } else {
        46
    }
}

/// Row `y` of the 5x7 glyph of the character `ch`, the leftmost column in
/// bit 4. The font has the digits, the full stop and the letter v; any
/// other character has no glyph.
pub open spec fn spec_glyph_row(ch: u8, y: int) -> Option<u8> {
    let rows: Option<Seq<u8>> = if ch == 48 {
        Some(seq![0b01110u8, 0b10001, 0b10011, 0b10101, 0b11001, 0b10001, 0b01110])
    } else if ch == 49 {
        Some(seq![0b00100u8, 0b01100, 0b00100, 0b00100, 0b00100, 0b00100, 0b01110])
    } else if ch == 50 {
        Some(seq![0b01110u8, 0b10001, 0b00001, 0b00010, 0b00100, 0b01000, 0b11111])
    } else if ch == 51 {
        Some(seq![0b11111u8, 0b00010, 0b00100, 0b00010, 0b00001, 0b10001, 0b01110])
    } else if ch == 52 {
        Some(seq![0b00010u8, 0b00110, 0b01010, 0b10010, 0b11111, 0b00010, 0b00010])
    } else if ch == 53 {
        Some(seq![0b11111u8, 0b10000, 0b11110, 0b00001, 0b00001, 0b10001, 0b01110])
    } else if ch == 54 {
        Some(seq![0b00110u8, 0b01000, 0b10000, 0b11110, 0b10001, 0b10001, 0b01110])
    } else if ch == 55 {
        Some(seq![0b11111u8, 0b00001, 0b00010, 0b00100, 0b01000, 0b01000, 0b01000])
    } else if ch == 56 {
        Some(seq![0b01110u8, 0b10001, 0b10001, 0b01110, 0b10001, 0b10001, 0b01110])
    } else if ch == 57 {
        Some(seq![0b01110u8, 0b10001, 0b10001, 0b01111, 0b00001, 0b00010, 0b01100])
    } else if ch == 46 {
        Some(seq![0b00000u8, 0b00000, 0b00000, 0b00000, 0b00000, 0b01100, 0b01100])
    } else if ch == 118 {
        Some(seq![0b00000u8, 0b00000, 0b10001, 0b10001, 0b10001, 0b01010, 0b00100])
    } else {
        None
    };
    match rows {
        Some(r) => Some(r[y]),
        None => None,
    }
}

pub fn glyph_row(ch: u8, y: usize) -> (bits: Option<u8>)
    requires
        y < GLYPH_ROWS,
    ensures
        bits == spec_glyph_row(ch, y as int),
{
    let rows: [u8; 7] = if ch == 48 {
        [0b01110u8, 0b10001, 0b10011, 0b10101, 0b11001, 0b10001, 0b01110]
    } else if ch == 49 {
        [0b00100u8, 0b01100, 0b00100, 0b00100, 0b00100, 0b00100, 0b01110]
    } else if ch == 50 {
        [0b01110u8, 0b10001, 0b00001, 0b00010, 0b00100, 0b01000, 0b11111]
    } else if ch == 51 {
        [0b11111u8, 0b00010, 0b00100, 0b00010, 0b00001, 0b10001, 0b01110]
    } else if ch == 52 {
        [0b00010u8, 0b00110, 0b01010, 0b10010, 0b11111, 0b00010, 0b00010]
    } else if ch == 53 {
        [0b11111u8, 0b10000, 0b11110, 0b00001, 0b00001, 0b10001, 0b01110]
    } else if ch == 54 {
        [0b00110u8, 0b01000, 0b10000, 0b11110, 0b10001, 0b10001, 0b01110]
    } else if ch == 55 {
        [0b11111u8, 0b00001, 0b00010, 0b00100, 0b01000, 0b01000, 0b01000]
    } else if ch == 56 {
        [0b01110u8, 0b10001, 0b10001, 0b01110, 0b10001, 0b10001, 0b01110]
    } else if ch == 57 {
        [0b01110u8, 0b10001, 0b10001, 0b01111, 0b00001, 0b00010, 0b01100]
    } else if ch == 46 {
        [0b00000u8, 0b00000, 0b00000, 0b00000, 0b00000, 0b01100, 0b01100]
    } else if ch == 118 {
        [0b00000u8, 0b00000, 0b10001, 0b10001, 0b10001, 0b01010, 0b00100]
    } else {
        return None;
    };
    Some(rows[y])
}

/// Whether the pixel at (`col`, `row`) of a picture of `width` by `height`
/// belongs to the version text. The text stands centred in the box between
/// the first and second horizontal line, left of the first vertical line.
/// Where the box is too small for the text, no pixel belongs to it.
pub open spec fn spec_is_version_pixel(col: int, row: int, width: int, height: int) -> bool {
    let text_width = VERSION_LEN as int * GLYPH_PITCH as int;
    let square_left = 1int;
    let square_right = width / 4 - 1;
    let square_top = height / 4 + 1;
    let square_bottom = height / 2 - 1;
    if square_right - square_left - text_width < 0 || square_bottom - square_top - 7 < 0 {
        false
    } else {
        let start_x = square_left + (square_right - square_left - text_width) / 2;
        let start_y = square_top + (square_bottom - square_top - 7) / 2;
        if row < start_y || row >= start_y + 7 || col < start_x || col >= start_x + text_width {
            false
        } else {
            let char_idx = (col - start_x) / 6;
            let pixel_x = (col - start_x) % 6;
            let pixel_y = row - start_y;
            if pixel_x >= 5 {
                false
            } else {
                match spec_glyph_row(spec_version_char(char_idx), pixel_y) {
                    Some(bits) => (bits >> ((4 - pixel_x) as u8)) & 1 == 1,
                    None => false,
                }
            }
        }
    }
}

pub fn is_version_pixel(col: usize, row: usize, width: usize, height: usize) -> (lit: bool)
    ensures
        lit == spec_is_version_pixel(col as int, row as int, width as int, height as int),
{
    let text_width: usize = VERSION_LEN * GLYPH_PITCH;
    if width / 4 < 2 + text_width || height / 2 < height / 4 + 9 {
        return false;
    }
    let start_x: usize = 1 + (width / 4 - 2 - text_width) / 2;
    let start_y: usize = height / 4 + 1 + (height / 2 - height / 4 - 9) / 2;
    if row < start_y || row >= start_y + 7 {
        return false;
    }
    if col < start_x || col >= start_x + text_width {
        return false;
    }
    let char_idx: usize = (col - start_x) / 6;
    let pixel_x: usize = (col - start_x) % 6;
    let pixel_y: usize = row - start_y;
    if pixel_x >= 5 {
        return false;
    }
    match glyph_row(version_char(char_idx), pixel_y) {
        Some(bits) => (bits >> ((4 - pixel_x) as u8)) & 1 == 1,
        None => false,
    }
}

/// The colour of hue `h` (degrees), saturation `s` and value `v`, as red,
/// green and blue. A hue of 300 or more counts as the last sector.
pub open spec fn spec_hsv_to_rgb(h: u16, s: u8, v: u8) -> (u8, u8, u8) {
    if s == 0 {
        (v, v, v)
    } else {
        let region = h / 60;
        let remainder = ((h % 60) * 255) / 60;
        let p = ((v * (255 - s)) / 255) as u8;
        let q = ((v * (255 - (s * remainder) / 255)) / 255) as u8;
        let t = ((v * (255 - (s * (255 - remainder)) / 255)) / 255) as u8;
        if region == 0 {
            (v, t, p)
        } else if region == 1 {
            (q, v, p)
        } else if region == 2 {
            (p, v, t)
        } else if region == 3 {
            (p, q, v)
        } else if region == 4 {
            (t, p, v)
        } else {
            (v, p, q)
        }
    }
}

proof fn lemma_scaled(v: int, x: int)
    requires
        0 <= v <= 255,
        0 <= x <= 255,
    ensures
        0 <= (v * x) / 255 <= 255,
        0 <= v * x <= 65025,
{
    assert(0 <= v * x <= 65025) by (nonlinear_arith)
        requires
            0 <= v <= 255,
            0 <= x <= 255,
    ;
}

pub fn hsv_to_rgb(h: u16, s: u8, v: u8) -> (c: (u8, u8, u8))
    ensures
        c == spec_hsv_to_rgb(h, s, v),
{
    if s == 0 {
        return (v, v, v);
    }
    let region: u16 = h / 60;
    let remainder: u32 = ((h % 60) as u32 * 255) / 60;
    proof {
        lemma_scaled(s as int, remainder as int);
        lemma_scaled(s as int, 255 - remainder);
        lemma_scaled(v as int, 255 - s);
        lemma_scaled(v as int, 255 - (s * remainder) / 255);
        lemma_scaled(v as int, 255 - (s * (255 - remainder)) / 255);
    }
    let p: u32 = ((v as u32) * (255 - s as u32)) / 255;
    let q: u32 = ((v as u32) * (255 - (s as u32 * remainder) / 255)) / 255;
    let t: u32 = ((v as u32) * (255 - (s as u32 * (255 - remainder)) / 255)) / 255;
    if region == 0 {
        (v, t as u8, p as u8)
    } else if region == 1 {
        (q as u8, v, p as u8)
    } else if region == 2 {
        (p as u8, v, t as u8)
    } else if region == 3 {
        (p as u8, q as u8, v)
    } else if region == 4 {
        (t as u8, p as u8, v)
    } else {
        (v, p as u8, q as u8)
    }
}

/// The pixel at (`col`, `row`) of the grid picture: version text in white,
/// then the falling diagonal in cyan and the rising one in magenta, then
/// the five vertical lines in red, green, blue, yellow and magenta, then
/// the five horizontal lines in white, and black elsewhere.
pub open spec fn spec_grid_pixel(col: int, row: int, w: int, h: int) -> u32 {
    let is_h_line = row == 0 || row == h / 4 || row == h / 2 || row == 3 * h / 4 || row == h - 1;
    if spec_is_version_pixel(col, row, w, h) {
        spec_rgb(255, 255, 255)
    } else if col == row * w / h {
        spec_rgb(0, 255, 255)
    } else if col == w - 1 - row * w / h {
        spec_rgb(255, 0, 255)
    } else if col == 0 {
        spec_rgb(255, 0, 0)
    } else if col == w / 4 {
        spec_rgb(0, 255, 0)
    } else if col == w / 2 {
        spec_rgb(0, 0, 255)
    } else if col == 3 * w / 4 {
        spec_rgb(255, 255, 0)
    } else if col == w - 1 {
        spec_rgb(255, 0, 255)
    } else if is_h_line {
        spec_rgb(255, 255, 255)
    } else {
        spec_rgb(0, 0, 0)
    }
}

/// The hue at (`col`, `row`) of the rainbow: two turns of the colour
/// circle along the diagonal. `shift` moves the wave; the sum and the
/// products wrap at 32 bits.
pub open spec fn spec_rainbow_hue(col: u32, row: u32, w: u32, h: u32, shift: u32) -> u16 {
    (((col + row) as u32).wrapping_add(shift).wrapping_mul(360).wrapping_mul(2) / ((w + h) as u32)
        % 360) as u16
}

/// The pixel at (`col`, `row`) of the picture `kind` of `w` by `h`.
pub open spec fn spec_pattern_pixel(kind: Pattern, col: int, row: int, w: int, h: int) -> u32 {
    match kind {
        Pattern::Grid => spec_grid_pixel(col, row, w, h),
        Pattern::Rainbow => {
            let c = spec_hsv_to_rgb(
                spec_rainbow_hue(col as u32, row as u32, w as u32, h as u32, 0),
                255,
                255,
            );
            spec_rgb(c.0, c.1, c.2)
        },
        Pattern::AnimatedRainbow { phase } => {
            let c = spec_hsv_to_rgb(
                spec_rainbow_hue(col as u32, row as u32, w as u32, h as u32, phase),
                255,
                255,
            );
            spec_rgb(c.0, c.1, c.2)
        },
        Pattern::Solid { r, g, b } => spec_rgb(r, g, b),
    }
}

/// Whether `pixels` is the picture `kind` of `width` by `height`, row by
/// row.
pub open spec fn is_picture(pixels: Seq<u32>, kind: Pattern, width: u16, height: u16) -> bool {
    &&& pixels.len() == width * height
    &&& forall|row: int, col: int|
        0 <= row < height && 0 <= col < width ==> #[trigger] pixels[row * width + col]
            == spec_pattern_pixel(kind, col, row, width as int, height as int)
}

/// The picture `kind` of `width` by `height`, row by row.
pub open spec fn spec_picture(kind: Pattern, width: u16, height: u16) -> Seq<u32> {
    Seq::new(
        (width * height) as nat,
        |i: int|
            spec_pattern_pixel(
                kind,
                i % (width as int),
                i / (width as int),
                width as int,
                height as int,
            ),
    )
}

/// Only one sequence of pixels is the picture `kind` of `width` by
/// `height`.
pub proof fn lemma_picture_unique(pixels: Seq<u32>, kind: Pattern, width: u16, height: u16)
    requires
        is_picture(pixels, kind, width, height),
    ensures
        pixels == spec_picture(kind, width, height),
{
    let w = width as int;
    let h = height as int;
    assert forall|i: int| 0 <= i < pixels.len() implies pixels[i] == spec_picture(
        kind,
        width,
        height,
    )[i] by {
        assert(w > 0) by (nonlinear_arith)
            requires
                0 <= i < w * h,
                0 <= w,
                0 <= h,
        ;
        let r = i / w;
        let c = i % w;
        vstd::arithmetic::div_mod::lemma_fundamental_div_mod(i, w);
        vstd::arithmetic::div_mod::lemma_mod_bound(i, w);
        assert(0 <= r < h) by (nonlinear_arith)
            requires
                0 <= i < w * h,
                w > 0,
                i == w * r + c,
                0 <= c < w,
        ;
        assert(w * r == r * w) by (nonlinear_arith);
        assert(pixels[r * width + c] == spec_pattern_pixel(kind, c, r, w, h));
    }
    assert(pixels =~= spec_picture(kind, width, height));
}

fn grid_pixel(col: usize, row: usize, w: usize, h: usize) -> (pixel: u32)
    requires
        col < w <= 0xFFFF,
        row < h <= 0xFFFF,
    ensures
        pixel == spec_grid_pixel(col as int, row as int, w as int, h as int),
{
    assert(row * w <= 0xFFFF * 0xFFFF) by (nonlinear_arith)
        requires
            row <= 0xFFFF,
            w <= 0xFFFF,
    ;
    assert((row * w) / (h as int) < w) by (nonlinear_arith)
        requires
            0 <= row < h,
            0 < w,
    ;
    let is_h_line = row == 0 || row == h / 4 || row == h / 2 || row == 3 * h / 4 || row == h - 1;
    let diag: usize = row * w / h;
    if is_version_pixel(col, row, w, h) {
        rgb(255, 255, 255)
    } else if col == diag {
        rgb(0, 255, 255)
    } else if col == w - 1 - diag {
        rgb(255, 0, 255)
    } else if col == 0 {
        rgb(255, 0, 0)
    } else if col == w / 4 {
        rgb(0, 255, 0)
    } else if col == w / 2 {
        rgb(0, 0, 255)
    } else if col == 3 * w / 4 {
        rgb(255, 255, 0)
    } else if col == w - 1 {
        rgb(255, 0, 255)
    } else if is_h_line {
        rgb(255, 255, 255)
    } else {
        rgb(0, 0, 0)
    }
}

fn rainbow_pixel(col: u32, row: u32, w: u32, h: u32, shift: u32) -> (pixel: u32)
    requires
        col < w <= 0xFFFF,
        row < h <= 0xFFFF,
    ensures
        pixel == ({
            let c = spec_hsv_to_rgb(spec_rainbow_hue(col, row, w, h, shift), 255, 255);
            spec_rgb(c.0, c.1, c.2)
        }),
{
    let hue: u32 = (col + row).wrapping_add(shift).wrapping_mul(360).wrapping_mul(2) / (w + h)
        % 360;
    let c = hsv_to_rgb(hue as u16, 255, 255);
    rgb(c.0, c.1, c.2)
}

fn pattern_pixel(kind: Pattern, col: usize, row: usize, w: u16, h: u16) -> (pixel: u32)
    requires
        col < w,
        row < h,
    ensures
        pixel == spec_pattern_pixel(kind, col as int, row as int, w as int, h as int),
{
    match kind {
        Pattern::Grid => grid_pixel(col, row, w as usize, h as usize),
        Pattern::Rainbow => rainbow_pixel(col as u32, row as u32, w as u32, h as u32, 0),
        Pattern::AnimatedRainbow { phase } => rainbow_pixel(
            col as u32,
            row as u32,
            w as u32,
            h as u32,
            phase,
        ),
        Pattern::Solid { r, g, b } => rgb(r, g, b),
    }
}

/// Draws the picture `kind` of `width` by `height`, row by row.
pub fn render(kind: Pattern, width: u16, height: u16) -> (pixels: Vec<u32>)
    ensures
        is_picture(pixels@, kind, width, height),
        pixels@ == spec_picture(kind, width, height),
{
    let mut pixels: Vec<u32> = Vec::new();
    let mut row: usize = 0;
    while row < height as usize
        invariant
            row <= height,
            pixels@.len() == row * width,
            forall|r: int, c: int|
                0 <= r < row && 0 <= c < width ==> #[trigger] pixels@[r * width + c]
                    == spec_pattern_pixel(kind, c, r, width as int, height as int),
        decreases height - row,
    {
        let mut col: usize = 0;
        while col < width as usize
            invariant
                row < height,
                col <= width,
                pixels@.len() == row * width + col,
                forall|r: int, c: int|
                    0 <= r < row && 0 <= c < width ==> #[trigger] pixels@[r * width + c]
                        == spec_pattern_pixel(kind, c, r, width as int, height as int),
                forall|c: int|
                    0 <= c < col ==> #[trigger] pixels@[row * width + c] == spec_pattern_pixel(
                        kind,
                        c,
                        row as int,
                        width as int,
                        height as int,
                    ),
            decreases width - col,
        {
            let ghost before = pixels@;
            pixels.push(pattern_pixel(kind, col, row, width, height));
            proof {
                assert forall|r: int, c: int| 0 <= r < row && 0 <= c < width implies (
                #[trigger] pixels@[r * width + c]) == spec_pattern_pixel(
                    kind,
                    c,
                    r,
                    width as int,
                    height as int,
                ) by {
                    assert(r * width + c < row * width) by (nonlinear_arith)
                        requires
                            0 <= r < row,
                            0 <= c < width,
                    ;
                    assert(pixels@[r * width + c] == before[r * width + c]);
                }
            }
            col += 1;
        }
        proof {
            assert((row + 1) * width == row * width + width) by (nonlinear_arith);
            assert forall|r: int, c: int| 0 <= r < row + 1 && 0 <= c < width implies (
            #[trigger] pixels@[r * width + c]) == spec_pattern_pixel(
                kind,
                c,
                r,
                width as int,
                height as int,
            ) by {
                if r == row {
                    assert(pixels@[row * width + c] == spec_pattern_pixel(
                        kind,
                        c,
                        row as int,
                        width as int,
                        height as int,
                    ));
                }
            }
        }
        row += 1;
    }
    proof {
        assert(height * width == width * height) by (nonlinear_arith);
        lemma_picture_unique(pixels@, kind, width, height);
    }
    pixels
}

/// White lines on black, coloured verticals, two diagonals and the
/// version text.
pub fn grid(width: u16, height: u16) -> (pixels: Vec<u32>)
    ensures
        pixels@ == spec_picture(Pattern::Grid, width, height),
{
    render(Pattern::Grid, width, height)
}

/// A rainbow along the diagonal.
pub fn rainbow(width: u16, height: u16) -> (pixels: Vec<u32>)
    ensures
        pixels@ == spec_picture(Pattern::Rainbow, width, height),
{
    render(Pattern::Rainbow, width, height)
}

/// The rainbow, moved on by `phase`.
pub fn animated_rainbow(width: u16, height: u16, phase: u32) -> (pixels: Vec<u32>)
    ensures
        pixels@ == spec_picture(Pattern::AnimatedRainbow { phase }, width, height),
{
    render(Pattern::AnimatedRainbow { phase }, width, height)
}

/// One colour everywhere.
pub fn solid(width: u16, height: u16, r: u8, g: u8, b: u8) -> (pixels: Vec<u32>)
    ensures
        pixels@ == spec_picture(Pattern::Solid { r, g, b }, width, height),
{
    render(Pattern::Solid { r, g, b }, width, height)
}

pub fn solid_white(width: u16, height: u16) -> (pixels: Vec<u32>)
    ensures
        pixels@ == spec_picture(Pattern::Solid { r: 255, g: 255, b: 255 }, width, height),
{
    solid(width, height, 255, 255, 255)
}

pub fn solid_red(width: u16, height: u16) -> (pixels: Vec<u32>)
    ensures
        pixels@ == spec_picture(Pattern::Solid { r: 255, g: 0, b: 0 }, width, height),
{
    solid(width, height, 255, 0, 0)
}

pub fn solid_green(width: u16, height: u16) -> (pixels: Vec<u32>)
    ensures
        pixels@ == spec_picture(Pattern::Solid { r: 0, g: 255, b: 0 }, width, height),
{
    solid(width, height, 0, 255, 0)
}

pub fn solid_blue(width: u16, height: u16) -> (pixels: Vec<u32>)
    ensures
        pixels@ == spec_picture(Pattern::Solid { r: 0, g: 0, b: 255 }, width, height),
{
    solid(width, height, 0, 0, 255)
}

} // verus!
