//! Where a stored picture goes in the flash chip: the pages to write and
//! the sectors to erase before them.

use vstd::prelude::*;

verus! {

/// Bytes of the flash chip.
pub const FLASH_SIZE: usize = 2097152;

/// Bytes that are erased together.
pub const SECTOR_SIZE: usize = 4096;

/// Bytes that are written together.
pub const PAGE_SIZE: usize = 256;

/// Where the picture starts in the chip: at three quarters of its size.
pub const IMAGE_OFFSET: usize = 1572864;

/// Bytes of the chip from the start of the picture to its end.
pub const IMAGE_REGION: usize = 524288;

/// Most bytes of a picture whose page addresses fit 32 bits.
pub const MAX_IMAGE_BYTES: usize = 4293393920;

/// One page to write.
#[derive(Clone, Copy, Debug, PartialEq, Eq)]
pub struct FlashPage {
    /// An address in the sector to erase before the page is written, if
    /// the page is the first of its sector.
    pub erase_at: Option<u32>,
    /// The address of the page.
    pub write_at: u32,
    pub bytes: [u8; 256],
}

/// The number of pages that a picture of `len` bytes takes: one more than
/// it fills, so that the last page is filled up with zeros or is all
/// zeros.
pub open spec fn spec_page_count(len: int) -> int {
    len / 256 + 1
}

/// Byte `i` of page `p` of `data`: the byte of `data`, or zero behind its
/// end.
pub open spec fn spec_page_byte(data: Seq<u8>, p: int, i: int) -> u8 {
    if 256 * p + i < data.len() {
        data[256 * p + i]
    } else {
        0
    }
}

/// The address of page `p` of a picture of `len` bytes. The one page of
/// an empty picture goes to the second page of the region.
pub open spec fn spec_write_at(len: int, p: int) -> int {
    if len == 0 {
        IMAGE_OFFSET + 256
    } else {
        IMAGE_OFFSET + 256 * p
    }
}

/// The address that is given when the sector of page `p` is erased: the
/// last byte of the page, for the first page of each sector.
pub open spec fn spec_erase_at(len: int, p: int) -> Option<int> {
    if len > 0 && (256 * p) % 4096 == 0 {
        Some(IMAGE_OFFSET + 256 * p + 255)
    } else {
        None
    }
}

/// Whether `page` is page `p` of the picture `data`.
pub open spec fn is_page(page: FlashPage, data: Seq<u8>, p: int) -> bool {
    &&& page.write_at == spec_write_at(data.len() as int, p)
    &&& match spec_erase_at(data.len() as int, p) {
        Some(at) => page.erase_at == Some(at as u32),
        None => page.erase_at is None,
    }
    &&& forall|i: int| 0 <= i < 256 ==> #[trigger] page.bytes@[i] == spec_page_byte(data, p, i)
}

/// The number of pages that the picture `data` takes.
pub fn page_count(data: &[u8]) -> (count: usize)
    requires
        data@.len() <= MAX_IMAGE_BYTES,
    ensures
        count == spec_page_count(data@.len() as int),
{
    data.len() / PAGE_SIZE + 1
}

/// Page `p` of the picture `data`.
pub fn flash_page(data: &[u8], p: usize) -> (page: FlashPage)
    requires
        data@.len() <= MAX_IMAGE_BYTES,
        p < spec_page_count(data@.len() as int),
    ensures
        is_page(page, data@, p as int),
{
    let len: usize = data.len();
    let start: usize = PAGE_SIZE * p;
    let mut bytes: [u8; 256] = [0u8; 256];
    let mut i: usize = 0;
    while i < PAGE_SIZE
        invariant
            i <= PAGE_SIZE,
            start == 256 * p,
            start <= len == data@.len(),
            len <= MAX_IMAGE_BYTES,
            forall|k: int| 0 <= k < i ==> #[trigger] bytes@[k] == spec_page_byte(data@, p as int, k),
        decreases PAGE_SIZE - i,
    {
        if i < len - start {
            bytes[i] = data[start + i];
        } else {
            bytes[i] = 0;
        }
        i += 1;
    }
    let write_at: u64 = if len == 0 {
        IMAGE_OFFSET as u64 + 256
    } else {
        IMAGE_OFFSET as u64 + start as u64
    };
    let erase_at: Option<u32> = if len > 0 && start % SECTOR_SIZE == 0 {
        Some((IMAGE_OFFSET as u64 + start as u64 + 255) as u32)
    } else {
        None
    };
    FlashPage { erase_at, write_at: write_at as u32, bytes }
}

/// All pages of the picture `data`, in the order in which they are
/// written.
pub fn image_pages(data: &[u8]) -> (pages: Vec<FlashPage>)
    requires
        data@.len() <= MAX_IMAGE_BYTES,
    ensures
        pages@.len() == spec_page_count(data@.len() as int),
        forall|p: int| 0 <= p < pages@.len() ==> is_page(#[trigger] pages@[p], data@, p),
{
    let count = page_count(data);
    let mut pages: Vec<FlashPage> = Vec::new();
    let mut p: usize = 0;
    while p < count
        invariant
            p <= count,
            count == spec_page_count(data@.len() as int),
            data@.len() <= MAX_IMAGE_BYTES,
            pages@.len() == p,
            forall|q: int| 0 <= q < p ==> is_page(#[trigger] pages@[q], data@, q),
        decreases count - p,
    {
        pages.push(flash_page(data, p));
        p += 1;
    }
    pages
}

} // verus!
