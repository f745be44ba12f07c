//! The hardware address of the sign, made from the unique number of its
//! flash chip.

use vstd::prelude::*;

verus! {

/// The address for the chip number `unique_id`: the first byte 0x02 marks
/// a locally administered unicast address, and byte `i + 1` folds bytes
/// `i` and `i + 3` of the number together.
pub open spec fn spec_derive_mac(unique_id: Seq<u8>) -> Seq<u8> {
    seq![
        0x02u8,
        unique_id[0] ^ unique_id[3],
        unique_id[1] ^ unique_id[4],
        unique_id[2] ^ unique_id[5],
        unique_id[3] ^ unique_id[6],
        unique_id[4] ^ unique_id[7],
    ]
}

/// Derives the sign's hardware address from the number of its flash chip.
pub fn derive_mac(unique_id: &[u8; 8]) -> (mac: [u8; 6])
    ensures
        mac@ == spec_derive_mac(unique_id@),
{
    let mut mac: [u8; 6] = [0x02u8, 0, 0, 0, 0, 0];
    let mut i: usize = 0;
    while i < 5
        invariant
            i <= 5,
            mac@[0] == 0x02,
            forall|k: int| 0 <= k < i ==> #[trigger] mac@[k + 1] == unique_id@[k] ^ unique_id@[k + 3],
        decreases 5 - i,
    {
        mac[i + 1] = unique_id[i] ^ unique_id[i + 3];
        i += 1;
    }
    assert(mac@[0int + 1] == unique_id@[0int] ^ unique_id@[0int + 3]);
    assert(mac@[1int + 1] == unique_id@[1int] ^ unique_id@[1int + 3]);
    assert(mac@[2int + 1] == unique_id@[2int] ^ unique_id@[2int + 3]);
    assert(mac@[3int + 1] == unique_id@[3int] ^ unique_id@[3int + 3]);
    assert(mac@[4int + 1] == unique_id@[4int] ^ unique_id@[4int + 3]);
    assert(mac@ =~= spec_derive_mac(unique_id@));
    mac
}

} // verus!
