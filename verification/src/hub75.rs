//! The display device: a framebuffer of two halves, of which one is written
//! and the other scanned out, and the registers that configure the scan.

use vstd::prelude::*;

verus! {

/// Words in one half of the framebuffer.
pub const FB_HALF_WORDS: usize = 262144;

/// Words in the whole framebuffer.
pub const FB_TOTAL_WORDS: usize = 524288;

/// Word address of the first half, as the scanner's base register counts.
pub const FB_BASE_WORDS: u32 = 0x80000;

/// Connectors that the scanner drives.
pub const OUTPUTS: u8 = 8;

/// Panels chained behind one connector.
pub const CHAIN_LENGTH: u8 = 1;

/// Entries of the colour palette.
pub const PALETTE_LEN: usize = 256;

#[derive(Clone, Copy, Debug, PartialEq, Eq, Structural)]
pub enum OutputMode {
    FullColor,
    Indexed,
}

/// Where a panel sits in the virtual picture, in position units, and how it
/// is turned.
#[derive(Clone, Copy, Debug, PartialEq, Eq, Structural)]
pub struct PanelParam {
    pub x: u8,
    pub y: u8,
    pub rot: u8,
}

/// The device as contracts see it.
pub struct Hub75View {
    /// Contents of the half at the lower address.
    pub half0: Seq<u32>,
    /// Contents of the half at the higher address.
    pub half1: Seq<u32>,
    /// The half that the scanner reads: 0 or 1.
    pub active: int,
    /// The scanner's base-address register.
    pub fb_base: u32,
    /// The scan width register.
    pub width: u16,
    /// Configured number of pixels of a picture.
    pub length: u32,
    pub enabled: bool,
    pub indexed: bool,
    pub panels: Seq<PanelParam>,
    pub palette: Seq<u32>,
}

/// The base register value that makes the scanner read half `active`.
pub open spec fn base_of(active: int) -> u32 {
    if active == 1 {
        0xC0000
    } else {
        0x80000
    }
}

/// `buf` after `data` was laid over it from `offset` on, as far as the
/// positions lie below `bound`; positions from `bound` on keep their value.
pub open spec fn clipped_write(buf: Seq<u32>, offset: int, data: Seq<u32>, bound: int) -> Seq<u32> {
    Seq::new(
        buf.len(),
        |i: int|
            if offset <= i < offset + data.len() && i < bound {
                data[i - offset]
            } else {
                buf[i]
            },
    )
}

/// Position of a panel register, if `output` and `chain_num` name one.
pub open spec fn panel_index(output: u8, chain_num: u8) -> Option<int> {
    if output < OUTPUTS && chain_num < CHAIN_LENGTH {
        Some(output as int * CHAIN_LENGTH as int + chain_num as int)
    } else {
        None
    }
}

impl Hub75View {
    /// The half that writes go to.
    pub open spec fn write_side(self) -> Seq<u32> {
        if self.active == 0 {
            self.half1
        } else {
            self.half0
        }
    }

    /// The half that the scanner reads.
    pub open spec fn display_side(self) -> Seq<u32> {
        if self.active == 0 {
            self.half0
        } else {
            self.half1
        }
    }

    /// First position of the write side that no write reaches.
    pub open spec fn write_bound(self) -> int {
        if self.length as int <= FB_HALF_WORDS as int {
            self.length as int
        } else {
            FB_HALF_WORDS as int
        }
    }

    /// The picture on display: the configured number of pixels of the
    /// display side.
    pub open spec fn displayed(self) -> Seq<u32> {
        self.display_side().subrange(0, self.write_bound())
    }

    /// The same device with `side` as the contents of its write side.
    pub open spec fn with_write_side(self, side: Seq<u32>) -> Hub75View {
        if self.active == 0 {
            Hub75View { half1: side, ..self }
        } else {
            Hub75View { half0: side, ..self }
        }
    }

    /// The same device after the two halves exchanged their roles.
    pub open spec fn swapped(self) -> Hub75View {
        Hub75View { active: 1 - self.active, fb_base: base_of(1 - self.active), ..self }
    }

    /// The same device after a finished picture was put on display:
    /// halves swapped, full colour, scan on.
    pub open spec fn presented(self) -> Hub75View {
        Hub75View { enabled: true, indexed: false, ..self.swapped() }
    }

    pub open spec fn wf(self) -> bool {
        &&& self.half0.len() == FB_HALF_WORDS
        &&& self.half1.len() == FB_HALF_WORDS
        &&& (self.active == 0 || self.active == 1)
        &&& self.fb_base == base_of(self.active)
        &&& self.panels.len() == OUTPUTS as int * CHAIN_LENGTH as int
        &&& self.palette.len() == PALETTE_LEN
    }
}

/// The display device. The half that is scanned out is never written; a
/// swap exchanges the halves and moves the base register with them.
pub struct Hub75 {
    mem: Vec<u32>,
    active_buf: u8,
    fb_base: u32,
    width: u16,
    length: u32,
    enabled: bool,
    indexed: bool,
    panels: Vec<PanelParam>,
    palette: Vec<u32>,
}

impl View for Hub75 {
    type V = Hub75View;

    closed spec fn view(&self) -> Hub75View {
        Hub75View {
            half0: self.mem@.subrange(0, FB_HALF_WORDS as int),
            half1: self.mem@.subrange(FB_HALF_WORDS as int, FB_TOTAL_WORDS as int),
            active: self.active_buf as int,
            fb_base: self.fb_base,
            width: self.width,
            length: self.length,
            enabled: self.enabled,
            indexed: self.indexed,
            panels: self.panels@,
            palette: self.palette@,
        }
    }
}

impl Hub75 {
    pub closed spec fn inv(&self) -> bool {
        self.mem@.len() == FB_TOTAL_WORDS
    }

    pub open spec fn wf(&self) -> bool {
        self.inv() && self@.wf()
    }

    /// A device that shows the first half, with nothing configured and
    /// everything cleared.
    pub fn new() -> (dev: Self)
        ensures
            dev.wf(),
            dev@.active == 0,
            dev@.fb_base == FB_BASE_WORDS,
            dev@.width == 0,
            dev@.length == 0,
            !dev@.enabled,
            !dev@.indexed,
            dev@.half0 == Seq::new(FB_HALF_WORDS as nat, |i: int| 0u32),
            dev@.half1 == Seq::new(FB_HALF_WORDS as nat, |i: int| 0u32),
            dev@.panels == Seq::new(8, |i: int| (PanelParam { x: 0, y: 0, rot: 0 })),
            dev@.palette == Seq::new(PALETTE_LEN as nat, |i: int| 0u32),
    {
        let mem: Vec<u32> = vec![0u32; FB_TOTAL_WORDS];
        let panels: Vec<PanelParam> = vec![PanelParam { x: 0, y: 0, rot: 0 }; 8];
        let palette: Vec<u32> = vec![0u32; PALETTE_LEN];
        let dev = Hub75 {
            mem,
            active_buf: 0,
            fb_base: FB_BASE_WORDS,
            width: 0,
            length: 0,
            enabled: false,
            indexed: false,
            panels,
            palette,
        };
        assert(dev@.half0 =~= Seq::new(FB_HALF_WORDS as nat, |i: int| 0u32));
        assert(dev@.half1 =~= Seq::new(FB_HALF_WORDS as nat, |i: int| 0u32));
        assert(dev@.panels =~= Seq::new(8, |i: int| (PanelParam { x: 0, y: 0, rot: 0 })));
        assert(dev@.palette =~= Seq::new(PALETTE_LEN as nat, |i: int| 0u32));
        dev
    }

    /// Switches the scan on.
    pub fn on(&mut self)
        ensures
            final(self)@ == (Hub75View { enabled: true, ..old(self)@ }),
            final(self).inv() == old(self).inv(),
    {
        self.enabled = true;
    }

    /// Switches the scan off.
    pub fn off(&mut self)
        ensures
            final(self)@ == (Hub75View { enabled: false, ..old(self)@ }),
            final(self).inv() == old(self).inv(),
    {
        self.enabled = false;
    }

    pub fn is_on(&self) -> (enabled: bool)
        ensures
            enabled == self@.enabled,
    {
        self.enabled
    }

    pub fn set_mode(&mut self, mode: OutputMode)
        ensures
            final(self)@ == (Hub75View { indexed: mode == OutputMode::Indexed, ..old(self)@ }),
            final(self).inv() == old(self).inv(),
    {
        self.indexed = match mode {
            OutputMode::FullColor => false,
            OutputMode::Indexed => true,
        };
    }

    pub fn get_mode(&self) -> (mode: OutputMode)
        ensures
            mode == (if self@.indexed {
                OutputMode::Indexed
            } else {
                OutputMode::FullColor
            }),
    {
        if self.indexed {
            OutputMode::Indexed
        } else {
            OutputMode::FullColor
        }
    }

    /// Writes `data` to the write side from `offset` on. What would fall at
    /// or behind the configured pixel count, or behind the end of the half,
    /// is dropped. The display side is not touched.
    pub fn write_img_data(&mut self, offset: usize, data: &[u32])
        requires
            old(self).wf(),
        ensures
            final(self).wf(),
            final(self)@ == old(self)@.with_write_side(
                clipped_write(
                    old(self)@.write_side(),
                    offset as int,
                    data@,
                    old(self)@.write_bound(),
                ),
            ),
            final(self)@.display_side() == old(self)@.display_side(),
    {
        let bound: usize = if (self.length as usize) < FB_HALF_WORDS {
            self.length as usize
        } else {
            FB_HALF_WORDS
        };
        let base: usize = if self.active_buf == 0 {
            FB_HALF_WORDS
        } else {
            0
        };
        let room: usize = if offset < bound {
            bound - offset
        } else {
            0
        };
        let count: usize = if data.len() < room {
            data.len()
        } else {
            room
        };
        let ghost before = self.mem@;
        let mut k: usize = 0;
        while k < count
            invariant
                k <= count,
                count <= data@.len(),
                count <= room,
                room == (if offset < bound {
                    bound - offset
                } else {
                    0
                }),
                bound <= FB_HALF_WORDS,
                base == 0 || base == FB_HALF_WORDS,
                before.len() == FB_TOTAL_WORDS,
                self.mem@.len() == FB_TOTAL_WORDS,
                forall|i: int|
                    0 <= i < FB_TOTAL_WORDS ==> #[trigger] self.mem@[i] == (if base + offset <= i
                        < base + offset + k {
                        data@[i - base - offset]
                    } else {
                        before[i]
                    }),
                self.active_buf == old(self).active_buf,
                self.fb_base == old(self).fb_base,
                self.width == old(self).width,
                self.length == old(self).length,
                self.enabled == old(self).enabled,
                self.indexed == old(self).indexed,
                self.panels == old(self).panels,
                self.palette == old(self).palette,
            decreases count - k,
        {
            self.mem[base + offset + k] = data[k];
            k += 1;
        }
        proof {
            let want = old(self)@.with_write_side(
                clipped_write(
                    old(self)@.write_side(),
                    offset as int,
                    data@,
                    old(self)@.write_bound(),
                ),
            );
            assert(self@.half0 =~= want.half0);
            assert(self@.half1 =~= want.half1);
        }
    }

    /// Exchanges the roles of the two halves and points the base register
    /// at the half that is now on display.
    pub fn swap_buffers(&mut self)
        requires
            old(self).wf(),
        ensures
            final(self).wf(),
            final(self)@ == old(self)@.swapped(),
    {
        self.active_buf = self.active_buf ^ 1;
        assert(self.active_buf == 1 - old(self).active_buf) by {
            assert(0u8 ^ 1 == 1) by (bit_vector);
            assert(1u8 ^ 1 == 0) by (bit_vector);
        }
        self.fb_base = if self.active_buf == 1 {
            FB_BASE_WORDS + 262144
        } else {
            FB_BASE_WORDS
        };
    }

    /// Puts the picture on the write side on display: swaps the halves,
    /// selects full colour and switches the scan on.
    pub fn present(&mut self)
        requires
            old(self).wf(),
        ensures
            final(self).wf(),
            final(self)@ == old(self)@.presented(),
    {
        self.swap_buffers();
        self.set_mode(OutputMode::FullColor);
        self.on();
    }

    /// The base-address register: the word address that the scanner reads
    /// from.
    pub fn display_base(&self) -> (base: u32)
        ensures
            base == self@.fb_base,
    {
        self.fb_base
    }

    /// The picture on display.
    pub fn read_img_data(&self) -> (pixels: Vec<u32>)
        requires
            self.wf(),
        ensures
            pixels@ == self@.displayed(),
    {
        let bound: usize = if (self.length as usize) < FB_HALF_WORDS {
            self.length as usize
        } else {
            FB_HALF_WORDS
        };
        let base: usize = if self.active_buf == 0 {
            0
        } else {
            FB_HALF_WORDS
        };
        let mut pixels: Vec<u32> = Vec::new();
        let mut k: usize = 0;
        while k < bound
            invariant
                k <= bound,
                bound <= FB_HALF_WORDS,
                base == 0 || base == FB_HALF_WORDS,
                self.mem@.len() == FB_TOTAL_WORDS,
                pixels@.len() == k,
                forall|i: int| 0 <= i < k ==> #[trigger] pixels@[i] == self.mem@[base + i],
            decreases bound - k,
        {
            pixels.push(self.mem[base + k]);
            k += 1;
        }
        assert(pixels@ =~= self@.displayed());
        pixels
    }

    /// The half that the scanner reads, whole.
    pub fn read_display_side(&self) -> (pixels: &[u32])
        requires
            self.wf(),
        ensures
            pixels@ == self@.display_side(),
    {
        if self.active_buf == 0 {
            &self.mem[0..FB_HALF_WORDS]
        } else {
            &self.mem[FB_HALF_WORDS..FB_TOTAL_WORDS]
        }
    }

    /// The half that writes go to, whole.
    pub fn read_write_side(&self) -> (pixels: &[u32])
        requires
            self.wf(),
        ensures
            pixels@ == self@.write_side(),
    {
        if self.active_buf == 0 {
            &self.mem[FB_HALF_WORDS..FB_TOTAL_WORDS]
        } else {
            &self.mem[0..FB_HALF_WORDS]
        }
    }

    /// Sets the scan width and the pixel count that bounds writes. The
    /// contents of both halves stay.
    pub fn set_img_param(&mut self, width: u16, length: u32)
        ensures
            final(self)@ == (Hub75View { width, length, ..old(self)@ }),
            final(self).inv() == old(self).inv(),
    {
        self.width = width;
        self.length = length;
    }

    pub fn get_img_param(&self) -> (param: (u16, u32))
        ensures
            param == (self@.width, self@.length),
    {
        (self.width, self.length)
    }

    /// Places the panel behind `output` at chain position `chain_num`.
    /// Nothing happens where the two name no panel.
    pub fn set_panel_param(&mut self, output: u8, chain_num: u8, x: u8, y: u8, rot: u8)
        requires
            old(self).wf(),
        ensures
            final(self).wf(),
            final(self)@ == (match panel_index(output, chain_num) {
                Some(at) => Hub75View {
                    panels: old(self)@.panels.update(at, PanelParam { x, y, rot }),
                    ..old(self)@
                },
                None => old(self)@,
            }),
    {
        if output >= OUTPUTS || chain_num >= CHAIN_LENGTH {
            return ;
        }
        let at: usize = (output * CHAIN_LENGTH + chain_num) as usize;
        self.panels[at] = PanelParam { x, y, rot };
    }

    /// The placement of a panel as `(x, y, rot)`, or all 255 where `output`
    /// and `chain_num` name no panel.
    pub fn get_panel_param(&self, output: u8, chain_num: u8) -> (param: (u8, u8, u8))
        requires
            self.wf(),
        ensures
            param == (match panel_index(output, chain_num) {
                Some(at) => (self@.panels[at].x, self@.panels[at].y, self@.panels[at].rot),
                None => (255u8, 255u8, 255u8),
            }),
    {
        if output >= OUTPUTS || chain_num >= CHAIN_LENGTH {
            return (255, 255, 255);
        }
        let at: usize = (output * CHAIN_LENGTH + chain_num) as usize;
        let p = self.panels[at];
        (p.x, p.y, p.rot)
    }

    /// Writes `data` into the palette from entry `offset` on; what would
    /// fall behind the last entry is dropped.
    pub fn set_palette(&mut self, offset: u8, data: &[u32])
        requires
            old(self).wf(),
        ensures
            final(self).wf(),
            final(self)@ == (Hub75View {
                palette: clipped_write(
                    old(self)@.palette,
                    offset as int,
                    data@,
                    PALETTE_LEN as int,
                ),
                ..old(self)@
            }),
    {
        let room: usize = PALETTE_LEN - offset as usize;
        let count: usize = if data.len() < room {
            data.len()
        } else {
            room
        };
        let ghost before = self.palette@;
        let mut k: usize = 0;
        while k < count
            invariant
                k <= count,
                count <= data@.len(),
                count <= room,
                room == PALETTE_LEN - offset,
                before.len() == PALETTE_LEN,
                self.palette@.len() == PALETTE_LEN,
                forall|i: int|
                    0 <= i < PALETTE_LEN ==> #[trigger] self.palette@[i] == (if offset <= i
                        < offset + k {
                        data@[i - offset]
                    } else {
                        before[i]
                    }),
                self.mem == old(self).mem,
                self.active_buf == old(self).active_buf,
                self.fb_base == old(self).fb_base,
                self.width == old(self).width,
                self.length == old(self).length,
                self.enabled == old(self).enabled,
                self.indexed == old(self).indexed,
                self.panels == old(self).panels,
            decreases count - k,
        {
            self.palette[offset as usize + k] = data[k];
            k += 1;
        }
        assert(self@.palette =~= clipped_write(
            old(self)@.palette,
            offset as int,
            data@,
            PALETTE_LEN as int,
        ));
    }

    pub fn get_palette(&self) -> (palette: &[u32])
        ensures
            palette@ == self@.palette,
    {
        self.palette.as_slice()
    }
}

/// Two swaps in a row give back the device as it was: each half has its
/// old role again, and the base register its old value.
pub proof fn lemma_swap_twice(v: Hub75View)
    requires
        v.wf(),
    ensures
        v.swapped().swapped() == v,
        v.swapped().wf(),
        v.swapped().write_side() == v.display_side(),
        v.swapped().display_side() == v.write_side(),
        v.swapped().fb_base == base_of(v.swapped().active),
{
}

} // verus!
