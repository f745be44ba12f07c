//! The stored picture format: a header of 64 words, then the pixels.
//!
//! Word 0 of the header holds the width in its low 16 bits and, in bit 31,
//! the mark of an indexed picture; word 1 holds the pixel count; words 2
//! and 3 are fixed; words 4 to 63 hold the panel parameters.

use crate::bytes::{
    lemma_word_bytes_push, lemma_words_of_bytes, push_word, read_words, spec_word_bytes, spec_words,
};
use vstd::prelude::*;

verus! {

/// Bytes of the header.
pub const HEADER_BYTES: usize = 256;

/// Words of the header.
pub const HEADER_WORDS: usize = 64;

/// Bytes of the header in front of the panel parameters.
pub const PARAM_OFFSET: usize = 16;

/// Words of the header that hold panel parameters.
pub const PARAM_WORDS: usize = 60;

/// Entries of a stored palette, at most.
pub const PALETTE_WORDS: usize = 256;

/// Word 0 of an indexed picture is at least this.
pub const INDEXED_MARK: u32 = 0x8000_0000;

/// The two words written behind width and pixel count.
pub const HEADER_WORD_2: u32 = 0xD1581A40;

pub const HEADER_WORD_3: u32 = 0xDA5A0001;

/// Word `k` of the header of `data`.
pub open spec fn spec_header_word(data: Seq<u8>, k: int) -> u32 {
    spec_words(data, HEADER_WORDS as nat)[k]
}

/// Whether `data` is marked as an indexed picture.
pub open spec fn spec_is_indexed(data: Seq<u8>) -> bool {
    spec_header_word(data, 0) >= INDEXED_MARK
}

/// The width that `data` declares.
pub open spec fn spec_width(data: Seq<u8>) -> u16 {
    (spec_header_word(data, 0) % 0x1_0000) as u16
}

/// The pixel count that `data` declares.
pub open spec fn spec_length(data: Seq<u8>) -> u32 {
    spec_header_word(data, 1)
}

/// The panel parameters of `data`: words 2 to 63 of the header.
pub open spec fn spec_panel_words(data: Seq<u8>) -> Seq<u32> {
    spec_words(data.subrange(PARAM_OFFSET as int, data.len() as int), PARAM_WORDS as nat)
}

/// The smaller of two numbers.
pub open spec fn spec_min(a: int, b: int) -> int {
    if a <= b {
        a
    } else {
        b
    }
}

/// The pixels of the full-colour picture `data`: as many words behind the
/// header as the declared count, or as `data` holds whole, if that is
/// fewer.
pub open spec fn spec_pixel_words(data: Seq<u8>) -> Seq<u32> {
    spec_words(
        data.subrange(HEADER_BYTES as int, data.len() as int),
        spec_min(spec_length(data) as int, (data.len() - HEADER_BYTES) / 4) as nat,
    )
}

/// The pixels of the indexed picture `data`: one palette index for each
/// of the declared number of bytes behind the header.
pub open spec fn spec_index_pixels(data: Seq<u8>) -> Seq<u32> {
    Seq::new(spec_length(data) as nat, |i: int| data[HEADER_BYTES + i] as u32)
}

/// The palette of the indexed picture `data`: the whole words behind the
/// pixels, 256 at most.
pub open spec fn spec_palette_words(data: Seq<u8>) -> Seq<u32> {
    spec_words(
        data.subrange(HEADER_BYTES + spec_length(data), data.len() as int),
        spec_min(
            PALETTE_WORDS as int,
            (data.len() - HEADER_BYTES - spec_length(data)) / 4,
        ) as nat,
    )
}

/// The words of a stored picture: the header with width, pixel count, the
/// two fixed words and the panel parameters, filled up with zeros or cut
/// to 64 words, and then at most `length` pixels.
pub open spec fn spec_image_words(width: u16, length: u32, panel_params: Seq<u32>, img_data: Seq<u32>) -> Seq<u32> {
    Seq::new(
        HEADER_WORDS as nat,
        |i: int|
            if i == 0 {
                width as u32
            } else if i == 1 {
                length
            } else if i == 2 {
                HEADER_WORD_2
            } else if i == 3 {
                HEADER_WORD_3
            } else if i - 4 < panel_params.len() {
                panel_params[i - 4]
            } else {
                0
            },
    ) + img_data.take(spec_min(length as int, img_data.len() as int))
}

/// Reads a stored full-colour picture: width, pixel count, panel
/// parameters and pixels. A picture marked as indexed is refused.
pub fn load_image(data: &[u8]) -> (image: Result<(u16, u32, Vec<u32>, Vec<u32>), ()>)
    requires
        data@.len() >= HEADER_BYTES,
    ensures
        image is Err <==> spec_is_indexed(data@),
        match image {
            Ok((width, length, panel_params, pixels)) => {
                &&& width == spec_width(data@)
                &&& length == spec_length(data@)
                &&& panel_params@ == spec_panel_words(data@)
                &&& pixels@ == spec_pixel_words(data@)
            },
            Err(_) => true,
        },
{
    let header = read_words(data, 0, 2);
    assert(data@.subrange(0, data@.len() as int) =~= data@);
    let header_start: u32 = header[0];
    if header_start >= INDEXED_MARK {
        return Err(());
    }
    let width: u16 = (header_start % 0x1_0000) as u16;
    let length: u32 = header[1];
    let panel_params = read_words(data, PARAM_OFFSET, PARAM_WORDS);
    let whole: usize = (data.len() - HEADER_BYTES) / 4;
    let count: usize = if (length as usize) < whole {
        length as usize
    } else {
        whole
    };
    let pixels = read_words(data, HEADER_BYTES, count);
    Ok((width, length, panel_params, pixels))
}

/// Reads a stored indexed picture: width, pixel count, panel parameters,
/// palette indices and the palette. A picture that is not marked as
/// indexed is refused.
pub fn load_indexed_image(data: &[u8]) -> (image: Result<
    (u16, u32, Vec<u32>, Vec<u32>, Vec<u32>),
    (),
>)
    requires
        data@.len() >= HEADER_BYTES,
        spec_is_indexed(data@) ==> HEADER_BYTES + spec_length(data@) <= data@.len(),
    ensures
        image is Err <==> !spec_is_indexed(data@),
        match image {
            Ok((width, length, panel_params, pixels, colors)) => {
                &&& width == spec_width(data@)
                &&& length == spec_length(data@)
                &&& panel_params@ == spec_panel_words(data@)
                &&& pixels@ == spec_index_pixels(data@)
                &&& colors@ == spec_palette_words(data@)
            },
            Err(_) => true,
        },
{
    let header = read_words(data, 0, 2);
    assert(data@.subrange(0, data@.len() as int) =~= data@);
    let header_start: u32 = header[0];
    if header_start < INDEXED_MARK {
        return Err(());
    }
    let width: u16 = (header_start % 0x1_0000) as u16;
    let length: u32 = header[1];
    let panel_params = read_words(data, PARAM_OFFSET, PARAM_WORDS);
    let count: usize = length as usize;
    let total: usize = data.len();
    let mut pixels: Vec<u32> = Vec::new();
    let mut i: usize = 0;
    while i < count
        invariant
            i <= count,
            HEADER_BYTES + count <= data@.len() == total,
            pixels@.len() == i,
            forall|j: int| 0 <= j < i ==> #[trigger] pixels@[j] == data@[HEADER_BYTES + j] as u32,
        decreases count - i,
    {
        pixels.push(data[HEADER_BYTES + i] as u32);
        i += 1;
    }
    assert(pixels@ =~= spec_index_pixels(data@));
    let rest: usize = data.len() - HEADER_BYTES - count;
    let colors_count: usize = if rest / 4 < PALETTE_WORDS {
        rest / 4
    } else {
        PALETTE_WORDS
    };
    let colors = read_words(data, HEADER_BYTES + count, colors_count);
    Ok((width, length, panel_params, pixels, colors))
}

/// Writes a picture in the stored format.
pub fn write_image(width: u16, length: u32, panel_params: &[u32], img_data: &[u32]) -> (bytes:
    Result<Vec<u8>, ()>)
    ensures
        bytes is Ok,
        bytes->Ok_0@ == spec_word_bytes(
            spec_image_words(width, length, panel_params@, img_data@),
        ),
{
    let ghost want = spec_image_words(width, length, panel_params@, img_data@);
    let mut out: Vec<u8> = Vec::new();
    let mut i: usize = 0;
    assert(out@ =~= spec_word_bytes(want.take(0)));
    while i < HEADER_WORDS
        invariant
            i <= HEADER_WORDS,
            want == spec_image_words(width, length, panel_params@, img_data@),
            out@ == spec_word_bytes(want.take(i as int)),
        decreases HEADER_WORDS - i,
    {
        let word: u32 = if i == 0 {
            width as u32
        } else if i == 1 {
            length
        } else if i == 2 {
            HEADER_WORD_2
        } else if i == 3 {
            HEADER_WORD_3
        } else if i - 4 < panel_params.len() {
            panel_params[i - 4]
        } else {
            0
        };
        push_word(&mut out, word);
        proof {
            assert(want[i as int] == word);
            assert(want.take(i + 1) =~= want.take(i as int).push(word));
            lemma_word_bytes_push(want.take(i as int), word);
        }
        i += 1;
    }
    let count: usize = if (length as usize) < img_data.len() {
        length as usize
    } else {
        img_data.len()
    };
    let mut k: usize = 0;
    while k < count
        invariant
            k <= count,
            count == spec_min(length as int, img_data@.len() as int),
            want == spec_image_words(width, length, panel_params@, img_data@),
            want.len() == HEADER_WORDS + count,
            out@ == spec_word_bytes(want.take(HEADER_WORDS + k)),
        decreases count - k,
    {
        push_word(&mut out, img_data[k]);
        proof {
            assert(want[HEADER_WORDS + k] == img_data@[k as int]);
            assert(want.take(HEADER_WORDS + k + 1) =~= want.take(HEADER_WORDS + k).push(
                img_data@[k as int],
            ));
            lemma_word_bytes_push(want.take(HEADER_WORDS + k), img_data@[k as int]);
        }
        k += 1;
    }
    assert(want.take(HEADER_WORDS + count) =~= want);
    Ok(out)
}

/// The panel parameters as a stored picture holds them: `panel_params`,
/// filled up with zeros or cut to 60 words.
pub open spec fn spec_stored_params(panel_params: Seq<u32>) -> Seq<u32> {
    Seq::new(
        PARAM_WORDS as nat,
        |i: int|
            if i < panel_params.len() {
                panel_params[i]
            } else {
                0u32
            },
    )
}

/// What `write_image` writes, `load_image` reads back: the width, the
/// pixel count, the panel parameters filled up with zeros to 60 words, and
/// the first `length` pixels, where there are that many.
pub proof fn lemma_image_round_trip(
    width: u16,
    length: u32,
    panel_params: Seq<u32>,
    img_data: Seq<u32>,
)
    requires
        img_data.len() >= length,
    ensures
        ({
            let bytes = spec_word_bytes(spec_image_words(width, length, panel_params, img_data));
            &&& bytes.len() == HEADER_BYTES + 4 * length
            &&& !spec_is_indexed(bytes)
            &&& spec_width(bytes) == width
            &&& spec_length(bytes) == length
            &&& spec_panel_words(bytes) == spec_stored_params(panel_params)
            &&& spec_pixel_words(bytes) == img_data.take(length as int)
        }),
{
    let words = spec_image_words(width, length, panel_params, img_data);
    let bytes = spec_word_bytes(words);
    assert(words.len() == HEADER_WORDS + length);
    lemma_words_of_bytes(words, 0, HEADER_WORDS as int);
    assert(bytes.subrange(0, bytes.len() as int) =~= bytes);
    assert(spec_words(bytes, HEADER_WORDS as nat) =~= words.subrange(0, HEADER_WORDS as int));
    assert(spec_header_word(bytes, 0) == words[0]);
    assert(spec_header_word(bytes, 1) == words[1]);
    lemma_words_of_bytes(words, 4, PARAM_WORDS as int);
    assert(words.subrange(4, 64) =~= spec_stored_params(panel_params));
    lemma_words_of_bytes(words, HEADER_WORDS as int, length as int);
    assert(words.subrange(HEADER_WORDS as int, HEADER_WORDS + length) =~= img_data.take(
        length as int,
    ));
}

} // verus!
