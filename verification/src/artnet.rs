//! The lighting-control packet format: a universe number that places the
//! packet's colours in the picture or the palette.

use crate::bytes::{le16, le32, spec_le16, spec_le32};
use crate::hub75::{clipped_write, Hub75, Hub75View, PALETTE_LEN};
use vstd::prelude::*;

verus! {

/// Bytes in front of the colours.
pub const ARTNET_HEADER: usize = 18;

/// Colours that one universe holds.
pub const UNIVERSE_PIXELS: usize = 170;

/// Position of the first colour of the last universe but one: the two
/// last universes hold the palette.
pub const PALETTE_OFFSET: usize = 11140780;

/// The number of colour bytes that `data` declares: bytes 16 and 17, high
/// byte first.
pub open spec fn spec_data_length(data: Seq<u8>) -> int {
    256 * (data[16] as int) + data[17] as int
}

/// Whether `data` is long enough for its header and for the colour bytes
/// that it declares.
pub open spec fn spec_packet_ok(data: Seq<u8>) -> bool {
    data.len() >= ARTNET_HEADER && data.len() >= ARTNET_HEADER + spec_data_length(data)
}

/// The position of the packet's first colour: 170 for each universe
/// below its own.
pub open spec fn spec_packet_offset(data: Seq<u8>) -> int {
    spec_le16(data[14], data[15]) as int * UNIVERSE_PIXELS as int
}

/// The colours of the packet: one word for each whole group of three of
/// the declared colour bytes, the first byte lowest.
pub open spec fn spec_packet_pixels(data: Seq<u8>) -> Seq<u32> {
    Seq::new(
        (spec_data_length(data) / 3) as nat,
        |k: int|
            spec_le32(
                data[ARTNET_HEADER + 3 * k],
                data[ARTNET_HEADER + 3 * k + 1],
                data[ARTNET_HEADER + 3 * k + 2],
                0,
            ),
    )
}

/// Reads a lighting-control packet: where its colours go and the colours.
/// A packet that is shorter than it declares is refused.
pub fn packet2hub75(data: &[u8]) -> (parsed: Result<(usize, Vec<u32>), ()>)
    ensures
        parsed is Ok <==> spec_packet_ok(data@),
        match parsed {
            Ok((offset, pixels)) => offset == spec_packet_offset(data@) && pixels@
                == spec_packet_pixels(data@),
            Err(_) => true,
        },
{
    if data.len() < ARTNET_HEADER {
        return Err(());
    }
    let universe: u16 = le16(data[14], data[15]);
    let length: usize = 256 * (data[16] as usize) + data[17] as usize;
    if data.len() < ARTNET_HEADER + length {
        return Err(());
    }
    let count: usize = length / 3;
    let total: usize = data.len();
    let mut pixels: Vec<u32> = Vec::new();
    let mut k: usize = 0;
    while k < count
        invariant
            k <= count,
            3 * count <= length,
            ARTNET_HEADER + length <= data@.len() == total,
            pixels@.len() == k,
            forall|j: int|
                0 <= j < k ==> #[trigger] pixels@[j] == spec_le32(
                    data@[ARTNET_HEADER + 3 * j],
                    data@[ARTNET_HEADER + 3 * j + 1],
                    data@[ARTNET_HEADER + 3 * j + 2],
                    0,
                ),
        decreases count - k,
    {
        let at: usize = ARTNET_HEADER + 3 * k;
        pixels.push(le32(data[at], data[at + 1], data[at + 2], 0));
        k += 1;
    }
    assert(pixels@ =~= spec_packet_pixels(data@));
    Ok((universe as usize * UNIVERSE_PIXELS, pixels))
}

/// The device after the lighting-control packet `data`: a packet of one
/// of the two last universes writes its colours into the palette, from
/// entry 0 or from entry 170 on; any other packet changes nothing.
pub open spec fn spec_packet_applied(dev: Hub75View, data: Seq<u8>) -> Hub75View {
    if spec_packet_ok(data) && spec_packet_offset(data) >= PALETTE_OFFSET {
        Hub75View {
            palette: clipped_write(
                dev.palette,
                spec_packet_offset(data) - PALETTE_OFFSET,
                spec_packet_pixels(data),
                PALETTE_LEN as int,
            ),
            ..dev
        }
    } else {
        dev
    }
}

/// Takes in a lighting-control packet.
pub fn apply_packet(hub75: &mut Hub75, data: &[u8])
    requires
        old(hub75).wf(),
    ensures
        final(hub75).wf(),
        final(hub75)@ == spec_packet_applied(old(hub75)@, data@),
{
    match packet2hub75(data) {
        Ok((offset, pixels)) => {
            if offset >= PALETTE_OFFSET {
                hub75.set_palette((offset - PALETTE_OFFSET) as u8, pixels.as_slice());
            }
        },
        Err(_) => {},
    }
}

} // verus!
