//! Recognition of bitmap datagrams by fixed byte offsets of a raw
//! link-layer frame, with no protocol-stack parsing.

use vstd::prelude::*;

verus! {

/// Ethernet (14) + IPv4 without options (20) + UDP (8).
pub const FRAME_HEADER_LEN: usize = 42;

/// Shortest frame that can carry a chunk header behind the transport headers.
pub const MIN_BITMAP_FRAME_LEN: usize = 52;

/// UDP destination port of the bitmap stream.
pub const BITMAP_PORT: u16 = 7000;

/// What makes a raw frame a bitmap datagram: long enough, EtherType IPv4,
/// an IPv4 header of five words (no options), protocol UDP, and the
/// destination port of the bitmap stream in network byte order.
pub open spec fn spec_is_bitmap_udp(frame: Seq<u8>) -> bool {
    &&& frame.len() >= 52
    &&& frame[12] == 0x08
    &&& frame[13] == 0x00
    &&& frame[14] & 0x0F == 5
    &&& frame[23] == 17
    &&& frame[36] * 256 + frame[37] == 7000
}

/// Tells whether `frame` is an IPv4/UDP datagram for the bitmap port.
pub fn is_bitmap_udp(frame: &[u8]) -> (accepted: bool)
    ensures
        accepted == spec_is_bitmap_udp(frame@),
{
    frame.len() >= MIN_BITMAP_FRAME_LEN
        && frame[12] == 0x08 && frame[13] == 0x00
        && frame[14] & 0x0F == 5
        && frame[23] == 17
        && frame[36] == 0x1B && frame[37] == 0x58
}

/// The datagram payload of an accepted frame: everything behind the fixed
/// transport headers.
pub fn udp_payload(frame: &[u8]) -> (payload: &[u8])
    requires
        frame@.len() >= FRAME_HEADER_LEN,
    ensures
        payload@ == frame@.subrange(FRAME_HEADER_LEN as int, frame@.len() as int),
{
    &frame[FRAME_HEADER_LEN..frame.len()]
}

} // verus!
