//! The network device's receive and transmit slots: one pending frame is
//! visible at a time, and acknowledging it is the only way on to the next.

use vstd::prelude::*;
use vstd::slice::slice_to_vec;

verus! {

/// Bytes of one slot.
pub const SLOT_SIZE: usize = 2048;

/// Receive slots of the device.
pub const NRXSLOTS: usize = 8;

/// Transmit slots of the device.
pub const NTXSLOTS: usize = 2;

/// How an attempt to transmit ended.
#[derive(Clone, Copy, Debug, PartialEq, Eq, Structural)]
pub enum TxStatus {
    /// The frame stands in the transmit slot of this number.
    Sent(u8),
    /// The device does not take a frame now; nothing was changed.
    NotReady,
    /// The frame is longer than a slot; nothing was changed.
    TooLong,
}

/// The device as contracts see it.
pub struct EthView {
    /// The frames that wait to be read, oldest first.
    pub pending: Seq<Seq<u8>>,
    /// The receive slot that holds the oldest pending frame, or that the
    /// next frame goes to where none is pending.
    pub rx_slot: int,
    /// The transmit slot that the next frame goes to.
    pub tx_slot: int,
    /// Whether the device takes a frame for transmission.
    pub tx_ready: bool,
    /// What stands in each transmit slot.
    pub tx_frames: Seq<Seq<u8>>,
    /// Frames lost because no receive slot was free.
    pub overflow: u32,
    pub preamble_errors: u32,
    pub crc_errors: u32,
}

impl EthView {
    pub open spec fn wf(self) -> bool {
        &&& self.pending.len() <= NRXSLOTS
        &&& 0 <= self.rx_slot < NRXSLOTS
        &&& 0 <= self.tx_slot < NTXSLOTS
        &&& self.tx_frames.len() == NTXSLOTS
        &&& forall|k: int| 0 <= k < self.pending.len() ==> (#[trigger] self.pending[k]).len() <= SLOT_SIZE
        &&& forall|k: int| 0 <= k < NTXSLOTS ==> (#[trigger] self.tx_frames[k]).len() <= SLOT_SIZE
    }
}

/// A counter after one more event; it stays at the largest value once it
/// has reached it.
pub open spec fn count_up(c: u32, by: u32) -> u32 {
    if c + by > u32::MAX {
        u32::MAX
    } else {
        (c + by) as u32
    }
}

/// Byte offset of receive slot `slot` in the device's buffer memory.
pub open spec fn spec_rx_slot_offset(slot: int) -> int {
    slot * SLOT_SIZE
}

/// Byte offset of transmit slot `slot` in the device's buffer memory: the
/// transmit slots lie behind all receive slots.
pub open spec fn spec_tx_slot_offset(slot: int) -> int {
    (NRXSLOTS + slot) * SLOT_SIZE
}

/// Byte offset of a receive slot, if the device has that slot.
pub fn rx_slot_offset(slot: usize) -> (offset: Option<usize>)
    ensures
        offset == (if slot < NRXSLOTS {
            Some(spec_rx_slot_offset(slot as int) as usize)
        } else {
            None
        }),
{
    if slot < NRXSLOTS {
        Some(slot * SLOT_SIZE)
    } else {
        None
    }
}

/// Byte offset of a transmit slot, if the device has that slot.
pub fn tx_slot_offset(slot: usize) -> (offset: Option<usize>)
    ensures
        offset == (if slot < NTXSLOTS {
            Some(spec_tx_slot_offset(slot as int) as usize)
        } else {
            None
        }),
{
    if slot < NTXSLOTS {
        Some((NRXSLOTS + slot) * SLOT_SIZE)
    } else {
        None
    }
}

/// The network device.
pub struct Eth {
    rx: Vec<Vec<u8>>,
    rx_slot: usize,
    rx_count: usize,
    tx: Vec<Vec<u8>>,
    tx_slot: u8,
    tx_ready: bool,
    overflow: u32,
    preamble_errors: u32,
    crc_errors: u32,
}

impl View for Eth {
    type V = EthView;

    closed spec fn view(&self) -> EthView {
        EthView {
            pending: Seq::new(
                self.rx_count as nat,
                |k: int| self.rx@[(self.rx_slot + k) % (NRXSLOTS as int)]@,
            ),
            rx_slot: self.rx_slot as int,
            tx_slot: self.tx_slot as int,
            tx_ready: self.tx_ready,
            tx_frames: Seq::new(self.tx@.len(), |k: int| self.tx@[k]@),
            overflow: self.overflow,
            preamble_errors: self.preamble_errors,
            crc_errors: self.crc_errors,
        }
    }
}

impl Eth {
    pub closed spec fn inv(&self) -> bool {
        &&& self.rx@.len() == NRXSLOTS
        &&& self.tx@.len() == NTXSLOTS
        &&& self.rx_count <= NRXSLOTS
    }

    pub open spec fn wf(&self) -> bool {
        self.inv() && self@.wf()
    }

    /// A device with nothing pending, ready to transmit into its first
    /// slot.
    pub fn new() -> (eth: Self)
        ensures
            eth.wf(),
            eth@.pending.len() == 0,
            eth@.rx_slot == 0,
            eth@.tx_slot == 0,
            eth@.tx_ready,
            eth@.tx_frames == seq![Seq::<u8>::empty(), Seq::<u8>::empty()],
            eth@.overflow == 0,
            eth@.preamble_errors == 0,
            eth@.crc_errors == 0,
    {
        let mut rx: Vec<Vec<u8>> = Vec::new();
        let mut i: usize = 0;
        while i < NRXSLOTS
            invariant
                i <= NRXSLOTS,
                rx@.len() == i,
            decreases NRXSLOTS - i,
        {
            rx.push(Vec::new());
            i += 1;
        }
        let mut tx: Vec<Vec<u8>> = Vec::new();
        tx.push(Vec::new());
        tx.push(Vec::new());
        let eth = Eth {
            rx,
            rx_slot: 0,
            rx_count: 0,
            tx,
            tx_slot: 0,
            tx_ready: true,
            overflow: 0,
            preamble_errors: 0,
            crc_errors: 0,
        };
        assert(eth@.tx_frames =~= seq![Seq::<u8>::empty(), Seq::<u8>::empty()]);
        eth
    }

    /// The error counters: frames lost to a full ring, preamble errors,
    /// checksum errors. Reading them changes nothing.
    pub fn mac_errors(&self) -> (errors: (u32, u32, u32))
        ensures
            errors == (self@.overflow, self@.preamble_errors, self@.crc_errors),
    {
        (self.overflow, self.preamble_errors, self.crc_errors)
    }

    /// The number of frames that wait to be read.
    pub fn rx_pending(&self) -> (n: usize)
        ensures
            n == self@.pending.len(),
    {
        self.rx_count
    }

    /// The oldest pending frame, if there is one. The frame stays pending.
    pub fn peek_rx(&self) -> (frame: Option<&[u8]>)
        requires
            self.wf(),
        ensures
            match frame {
                Some(bytes) => self@.pending.len() > 0 && bytes@ == self@.pending[0],
                None => self@.pending.len() == 0,
            },
    {
        if self.rx_count == 0 {
            return None;
        }
        assert(self@.pending[0] == self.rx@[(self.rx_slot + 0) % (NRXSLOTS as int)]@);
        Some(self.rx[self.rx_slot].as_slice())
    }

    /// Releases the oldest pending frame; the next one, if any, becomes
    /// visible.
    pub fn ack_rx(&mut self)
        requires
            old(self).wf(),
            old(self)@.pending.len() > 0,
        ensures
            final(self).wf(),
            final(self)@ == (EthView {
                pending: old(self)@.pending.drop_first(),
                rx_slot: (old(self)@.rx_slot + 1) % (NRXSLOTS as int),
                ..old(self)@
            }),
    {
        self.rx_slot = (self.rx_slot + 1) % NRXSLOTS;
        self.rx_count = self.rx_count - 1;
        proof {
            let before = old(self)@.pending;
            assert forall|k: int| 0 <= k < self@.pending.len() implies self@.pending[k]
                == before.drop_first()[k] by {
                assert((self.rx_slot + k) % (NRXSLOTS as int) == (old(self).rx_slot + (k + 1)) % (
                NRXSLOTS as int));
                assert(before[k + 1] == old(self).rx@[(old(self).rx_slot + (k + 1)) % (
                NRXSLOTS as int)]@);
            }
            assert(self@.pending =~= before.drop_first());
            assert(self@.tx_frames =~= old(self)@.tx_frames);
            assert forall|k: int| 0 <= k < self@.pending.len() implies (
            #[trigger] self@.pending[k]).len() <= SLOT_SIZE by {
                assert(before[k + 1].len() <= SLOT_SIZE);
            }
        }
    }

    /// The device's side of reception: puts `frame` behind the pending
    /// frames. A frame that finds no free slot, or is longer than a slot,
    /// is lost and counted as an overflow.
    pub fn deliver(&mut self, frame: &[u8]) -> (taken: bool)
        requires
            old(self).wf(),
        ensures
            final(self).wf(),
            taken == (old(self)@.pending.len() < NRXSLOTS && frame@.len() <= SLOT_SIZE),
            final(self)@ == (if taken {
                EthView { pending: old(self)@.pending.push(frame@), ..old(self)@ }
            } else {
                EthView { overflow: count_up(old(self)@.overflow, 1), ..old(self)@ }
            }),
            final(self)@.overflow >= old(self)@.overflow,
    {
        if self.rx_count >= NRXSLOTS || frame.len() > SLOT_SIZE {
            self.overflow = if self.overflow == u32::MAX {
                u32::MAX
            } else {
                self.overflow + 1
            };
            proof {
                assert(self@.pending =~= old(self)@.pending);
                assert(self@.tx_frames =~= old(self)@.tx_frames);
            }
            return false;
        }
        let at: usize = (self.rx_slot + self.rx_count) % NRXSLOTS;
        self.rx[at] = slice_to_vec(frame);
        self.rx_count = self.rx_count + 1;
        proof {
            let before = old(self)@.pending;
            assert forall|k: int| 0 <= k < self@.pending.len() implies self@.pending[k]
                == before.push(frame@)[k] by {
                if k < before.len() {
                    assert((self.rx_slot + k) % (NRXSLOTS as int) != at);
                    assert(before[k] == old(self).rx@[(old(self).rx_slot + k) % (NRXSLOTS as int)]@);
                }
            }
            assert(self@.pending =~= before.push(frame@));
            assert(self@.tx_frames =~= old(self)@.tx_frames);
            assert forall|k: int| 0 <= k < self@.pending.len() implies (
            #[trigger] self@.pending[k]).len() <= SLOT_SIZE by {
                if k < before.len() {
                    assert(before[k].len() <= SLOT_SIZE);
                }
            }
        }
        true
    }

    /// The device's side of the error counters: adds to each of them.
    pub fn count_errors(&mut self, overflow: u32, preamble: u32, crc: u32)
        ensures
            final(self).inv() == old(self).inv(),
            final(self)@ == (EthView {
                overflow: count_up(old(self)@.overflow, overflow),
                preamble_errors: count_up(old(self)@.preamble_errors, preamble),
                crc_errors: count_up(old(self)@.crc_errors, crc),
                ..old(self)@
            }),
            final(self)@.overflow >= old(self)@.overflow,
            final(self)@.preamble_errors >= old(self)@.preamble_errors,
            final(self)@.crc_errors >= old(self)@.crc_errors,
    {
        self.overflow = if overflow > u32::MAX - self.overflow {
            u32::MAX
        } else {
            self.overflow + overflow
        };
        self.preamble_errors = if preamble > u32::MAX - self.preamble_errors {
            u32::MAX
        } else {
            self.preamble_errors + preamble
        };
        self.crc_errors = if crc > u32::MAX - self.crc_errors {
            u32::MAX
        } else {
            self.crc_errors + crc
        };
        proof {
            assert(self@.pending =~= old(self)@.pending);
            assert(self@.tx_frames =~= old(self)@.tx_frames);
        }
    }

    /// The device's side of transmission: says whether a frame is taken.
    pub fn set_tx_ready(&mut self, ready: bool)
        ensures
            final(self).inv() == old(self).inv(),
            final(self)@ == (EthView { tx_ready: ready, ..old(self)@ }),
    {
        self.tx_ready = ready;
        proof {
            assert(self@.pending =~= old(self)@.pending);
            assert(self@.tx_frames =~= old(self)@.tx_frames);
        }
    }

    /// Puts `payload` into the next transmit slot and moves on to the
    /// other slot, if the device is ready and the frame fits.
    pub fn transmit(&mut self, payload: &[u8]) -> (status: TxStatus)
        requires
            old(self).wf(),
        ensures
            final(self).wf(),
            status == (if payload@.len() > SLOT_SIZE {
                TxStatus::TooLong
            } else if !old(self)@.tx_ready {
                TxStatus::NotReady
            } else {
                TxStatus::Sent(old(self)@.tx_slot as u8)
            }),
            final(self)@ == (if status is Sent {
                EthView {
                    tx_frames: old(self)@.tx_frames.update(old(self)@.tx_slot, payload@),
                    tx_slot: (old(self)@.tx_slot + 1) % (NTXSLOTS as int),
                    ..old(self)@
                }
            } else {
                old(self)@
            }),
    {
        if payload.len() > SLOT_SIZE {
            return TxStatus::TooLong;
        }
        if !self.tx_ready {
            return TxStatus::NotReady;
        }
        let slot: u8 = self.tx_slot;
        self.tx[slot as usize] = slice_to_vec(payload);
        self.tx_slot = (slot + 1) % 2;
        proof {
            assert(self@.pending =~= old(self)@.pending);
            assert(self@.tx_frames =~= old(self)@.tx_frames.update(
                old(self)@.tx_slot,
                payload@,
            ));
        }
        TxStatus::Sent(slot)
    }

    /// What stands in transmit slot `slot`.
    pub fn tx_frame(&self, slot: usize) -> (frame: &[u8])
        requires
            self.wf(),
            slot < NTXSLOTS,
        ensures
            frame@ == self@.tx_frames[slot as int],
    {
        self.tx[slot].as_slice()
    }
}

} // verus!
