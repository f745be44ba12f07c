//! What the operator's commands and the status pages work on.

use crate::bitmap_udp::BitmapStats;
use crate::hub75::{clipped_write, Hub75, Hub75View};
use crate::layout::{
    parse_grid_spec, parse_pos_spec, spec_apply, spec_parse_grid, spec_parse_pos, LayoutConfig,
    LayoutModel, MAX_OUTPUTS,
};
use crate::text::{parse_decimal, spec_parse_decimal};
use crate::layout::bytes_equal;
use crate::patterns::{animated_rainbow, render, spec_picture, Pattern};
use vstd::prelude::*;
use vstd::string::StringSliceAdditionalSpecFns;

verus! {

/// A picture that moves by itself.
#[derive(Clone, Copy, Debug, PartialEq, Eq, Structural)]
pub enum Animation {
    Off,
    Rainbow { phase: u32 },
}

/// How the address of the boot server became known.
#[derive(Clone, Copy, Debug, PartialEq, Eq, Structural)]
pub enum BootServerSource {
    /// Not known yet.
    Unknown,
    /// The server address field of the lease.
    Siaddr,
    /// The server name option of the lease.
    Option66,
    /// The built-in address.
    Fallback,
}

/// The sign's state as commands and status pages see it.
pub struct Context {
    pub hub75: Hub75,
    pub mac: [u8; 6],
    pub animation: Animation,
    pub quit: bool,
    pub debug: bool,
    pub bitmap_stats: BitmapStats,
    pub layout: LayoutConfig,
    pub reboot_pending: bool,
    /// Address of the boot server and how it became known.
    pub boot_server: Option<([u8; 4], BootServerSource)>,
    pub mac_overflow: u32,
    pub mac_preamble_err: u32,
    pub mac_crc_err: u32,
}

/// Whether two contexts agree in what ingestion never touches.
pub open spec fn same_settings(a: Context, b: Context) -> bool {
    &&& a.mac == b.mac
    &&& a.quit == b.quit
    &&& a.debug == b.debug
    &&& a.layout == b.layout
    &&& a.reboot_pending == b.reboot_pending
    &&& a.boot_server == b.boot_server
    &&& a.mac_overflow == b.mac_overflow
    &&& a.mac_preamble_err == b.mac_preamble_err
    &&& a.mac_crc_err == b.mac_crc_err
}

/// Whether two contexts agree in all but device, animation and layout.
pub open spec fn same_identity(a: Context, b: Context) -> bool {
    &&& a.mac == b.mac
    &&& a.quit == b.quit
    &&& a.debug == b.debug
    &&& a.bitmap_stats == b.bitmap_stats
    &&& a.reboot_pending == b.reboot_pending
    &&& a.boot_server == b.boot_server
    &&& a.mac_overflow == b.mac_overflow
    &&& a.mac_preamble_err == b.mac_preamble_err
    &&& a.mac_crc_err == b.mac_crc_err
}

/// The height of a picture of `length` pixels in rows of `width`, as 16
/// bits hold it; 0 where no width is set.
pub open spec fn spec_picture_height(width: u16, length: u32) -> u16 {
    if width > 0 {
        ((length / (width as u32)) % 0x1_0000) as u16
    } else {
        0
    }
}

pub fn picture_height(width: u16, length: u32) -> (height: u16)
    ensures
        height == spec_picture_height(width, length),
{
    if width > 0 {
        ((length / (width as u32)) % 0x1_0000) as u16
    } else {
        0
    }
}

/// The device after the picture `kind` was drawn onto its write side in
/// the configured size.
pub open spec fn spec_drawn(dev: Hub75View, kind: Pattern) -> Hub75View {
    dev.with_write_side(
        clipped_write(
            dev.write_side(),
            0,
            spec_picture(kind, dev.width, spec_picture_height(dev.width, dev.length)),
            dev.write_bound(),
        ),
    )
}

/// The device after the picture `kind` was drawn in its configured size
/// and the halves were swapped.
pub open spec fn spec_show(dev: Hub75View, kind: Pattern) -> Hub75View {
    spec_drawn(dev, kind).swapped()
}

/// What became of a request to show a test picture.
#[derive(Clone, Copy, Debug, PartialEq, Eq, Structural)]
pub enum PatternOutcome {
    /// The picture is on display.
    Shown(Pattern),
    /// No picture size is configured; nothing was changed.
    NoSize,
    /// There is no picture of that name; nothing was changed.
    UnknownName,
}

/// The test picture called `name`: `grid`, `rainbow`, `rainbow_anim`
/// (the rainbow in phase 0, to be animated), `white`, `red`, `green` or
/// `blue`.
pub open spec fn spec_pattern_named(name: Seq<u8>) -> Option<Pattern> {
    if name == "grid".spec_bytes() {
        Some(Pattern::Grid)
    } else if name == "rainbow".spec_bytes() {
        Some(Pattern::Rainbow)
    } else if name == "rainbow_anim".spec_bytes() {
        Some(Pattern::AnimatedRainbow { phase: 0 })
    } else if name == "white".spec_bytes() {
        Some(Pattern::Solid { r: 255, g: 255, b: 255 })
    } else if name == "red".spec_bytes() {
        Some(Pattern::Solid { r: 255, g: 0, b: 0 })
    } else if name == "green".spec_bytes() {
        Some(Pattern::Solid { r: 0, g: 255, b: 0 })
    } else if name == "blue".spec_bytes() {
        Some(Pattern::Solid { r: 0, g: 0, b: 255 })
    } else {
        None
    }
}

pub fn pattern_named(name: &[u8]) -> (kind: Option<Pattern>)
    ensures
        kind == spec_pattern_named(name@),
{
    if bytes_equal(name, "grid".as_bytes()) {
        Some(Pattern::Grid)
    } else if bytes_equal(name, "rainbow".as_bytes()) {
        Some(Pattern::Rainbow)
    } else if bytes_equal(name, "rainbow_anim".as_bytes()) {
        Some(Pattern::AnimatedRainbow { phase: 0 })
    } else if bytes_equal(name, "white".as_bytes()) {
        Some(Pattern::Solid { r: 255, g: 255, b: 255 })
    } else if bytes_equal(name, "red".as_bytes()) {
        Some(Pattern::Solid { r: 255, g: 0, b: 0 })
    } else if bytes_equal(name, "green".as_bytes()) {
        Some(Pattern::Solid { r: 0, g: 255, b: 0 })
    } else if bytes_equal(name, "blue".as_bytes()) {
        Some(Pattern::Solid { r: 0, g: 0, b: 255 })
    } else {
        None
    }
}

/// The animation that goes with the picture `kind`.
pub open spec fn spec_animation_of(kind: Pattern) -> Animation {
    match kind {
        Pattern::AnimatedRainbow { phase } => Animation::Rainbow { phase },
        _ => Animation::Off,
    }
}

/// Whether a picture size is configured: a width, and a pixel count of a
/// row at least. With `whole_height` the height counts as it is; without
/// it, as 16 bits hold it.
pub open spec fn spec_has_size(dev: Hub75View, whole_height: bool) -> bool {
    dev.width > 0 && (if whole_height {
        dev.length / (dev.width as u32) > 0
    } else {
        spec_picture_height(dev.width, dev.length) > 0
    })
}

/// What a request to show the picture called `name` comes to.
pub open spec fn spec_pattern_outcome(dev: Hub75View, name: Seq<u8>, whole_height: bool) -> PatternOutcome {
    if !spec_has_size(dev, whole_height) {
        PatternOutcome::NoSize
    } else {
        match spec_pattern_named(name) {
            Some(kind) => PatternOutcome::Shown(kind),
            None => PatternOutcome::UnknownName,
        }
    }
}

/// The animation after one step.
pub open spec fn spec_next_animation(animation: Animation) -> Animation {
    match animation {
        Animation::Off => Animation::Off,
        Animation::Rainbow { phase } => Animation::Rainbow { phase: phase.wrapping_add(1) },
    }
}

/// The device after one step of the animation: the rainbow in its new
/// phase, on display, where a picture size is configured.
pub open spec fn spec_animated(animation: Animation, dev: Hub75View) -> Hub75View {
    match spec_next_animation(animation) {
        Animation::Off => dev,
        Animation::Rainbow { phase } => if dev.width > 0 && spec_picture_height(
            dev.width,
            dev.length,
        ) > 0 {
            spec_show(dev, Pattern::AnimatedRainbow { phase })
        } else {
            dev
        },
    }
}

/// The number that `s` spells the way numbers are written in commands:
/// digits with at most one plus sign in front.
pub open spec fn spec_parse_number(s: Seq<u8>, max: nat) -> Option<nat> {
    if s.len() > 0 && s[0] == 43 {
        spec_parse_decimal(s.skip(1), max)
    } else {
        spec_parse_decimal(s, max)
    }
}

/// Reads a number of a command that is `max` at most.
pub fn parse_number(s: &[u8], max: u64) -> (n: Option<u64>)
    ensures
        match n {
            Some(v) => spec_parse_number(s@, max as nat) == Some(v as nat),
            None => spec_parse_number(s@, max as nat) is None,
        },
{
    if s.len() > 0 && s[0] == 43 {
        let digits = &s[1..s.len()];
        assert(digits@ =~= s@.skip(1));
        parse_decimal(digits, max)
    } else {
        parse_decimal(s, max)
    }
}

/// What the `layout` command comes to.
#[derive(Clone, Copy, Debug, PartialEq, Eq, Structural)]
pub enum LayoutOutcome {
    /// The layout is to be shown; nothing was changed.
    Show,
    /// The device was configured for the layout.
    Applied,
    /// The grid has this many columns and rows now.
    GridSet(u8, u8),
    /// The argument is none of these; nothing was changed.
    Usage,
}

/// What the `panel` command comes to.
#[derive(Clone, Copy, Debug, PartialEq, Eq)]
pub enum PanelOutcome {
    /// All assignments are to be shown; nothing was changed.
    ShowAll,
    /// The argument names no connector; nothing was changed.
    InvalidOutput,
    /// The position is no grid cell; nothing was changed.
    InvalidPosition(u8),
    /// The first panel behind the connector of this number shows this
    /// column and row now.
    Assigned(u8, u8, u8),
    /// No position was given: the connector of this number and the grid
    /// cell of its first panel, if it has one.
    Current(u8, Option<(u8, u8)>),
}

/// The number of the connector that `name` names: `J1` to `J6`.
pub open spec fn spec_connector(name: Seq<u8>) -> Option<u8> {
    if name.len() > 0 && name[0] == 74 {
        match spec_parse_number(name.skip(1), 255) {
            Some(n) => if 1 <= n <= MAX_OUTPUTS {
                Some(n as u8)
            } else {
                None
            },
            None => None,
        }
    } else {
        None
    }
}

pub fn connector(name: &[u8]) -> (n: Option<u8>)
    ensures
        n == spec_connector(name@),
{
    if name.len() > 0 && name[0] == 74 {
        let rest = &name[1..name.len()];
        assert(rest@ =~= name@.skip(1));
        match parse_number(rest, 255) {
            Some(n) => if 1 <= n && n <= MAX_OUTPUTS as u64 {
                Some(n as u8)
            } else {
                None
            },
            None => None,
        }
    } else {
        None
    }
}

/// What the `layout` command with the argument `action` comes to.
pub open spec fn spec_layout_outcome(action: Seq<u8>) -> LayoutOutcome {
    if action == "show".spec_bytes() {
        LayoutOutcome::Show
    } else if action == "apply".spec_bytes() {
        LayoutOutcome::Applied
    } else {
        match spec_parse_grid(action) {
            Some((cols, rows)) => LayoutOutcome::GridSet(cols, rows),
            None => LayoutOutcome::Usage,
        }
    }
}

/// What the `panel` command comes to for the layout `l`.
pub open spec fn spec_panel_outcome(l: LayoutModel, output: Seq<u8>, pos: Option<Seq<u8>>) -> PanelOutcome {
    if output == "show".spec_bytes() {
        PanelOutcome::ShowAll
    } else {
        match spec_connector(output) {
            None => PanelOutcome::InvalidOutput,
            Some(n) => match pos {
                Some(p) => match spec_parse_pos(p) {
                    Some((col, row)) => PanelOutcome::Assigned(n, col, row),
                    None => PanelOutcome::InvalidPosition(n),
                },
                None => PanelOutcome::Current(n, l.assignments[n - 1][0]),
            },
        }
    }
}

impl Context {
    /// The `set_image_param` command: sets width and pixel count of the
    /// picture, if both arguments are numbers that fit; says whether they
    /// are.
    pub fn set_image_param(&mut self, width: &str, length: &str) -> (done: bool)
        ensures
            done == (spec_parse_number(width.spec_bytes(), 0xFFFF) is Some && spec_parse_number(
                length.spec_bytes(),
                0xFFFF_FFFF,
            ) is Some),
            final(self).hub75.inv() == old(self).hub75.inv(),
            final(self).hub75@ == (if done {
                Hub75View {
                    width: spec_parse_number(width.spec_bytes(), 0xFFFF)->0 as u16,
                    length: spec_parse_number(length.spec_bytes(), 0xFFFF_FFFF)->0 as u32,
                    ..old(self).hub75@
                }
            } else {
                old(self).hub75@
            }),
            final(self).animation == old(self).animation,
            final(self).layout == old(self).layout,
            final(self).bitmap_stats == old(self).bitmap_stats,
            same_settings(*final(self), *old(self)),
    {
        let w = parse_number(width.as_bytes(), 0xFFFF);
        let l = parse_number(length.as_bytes(), 0xFFFF_FFFF);
        match (w, l) {
            (Some(w), Some(l)) => {
                self.hub75.set_img_param(w as u16, l as u32);
                true
            },
            _ => false,
        }
    }

    /// The `get_panel_param` command: the placement of a panel, if both
    /// arguments are numbers that fit.
    pub fn get_panel_param(&self, output: &str, chain_num: &str) -> (param: Option<(u8, u8, u8)>)
        requires
            self.hub75.wf(),
        ensures
            param == (match (
                spec_parse_number(output.spec_bytes(), 255),
                spec_parse_number(chain_num.spec_bytes(), 255),
            ) {
                (Some(o), Some(c)) => Some(
                    match crate::hub75::panel_index(o as u8, c as u8) {
                        Some(at) => (
                            self.hub75@.panels[at].x,
                            self.hub75@.panels[at].y,
                            self.hub75@.panels[at].rot,
                        ),
                        None => (255u8, 255u8, 255u8),
                    },
                ),
                _ => None,
            }),
    {
        let o = parse_number(output.as_bytes(), 255);
        let c = parse_number(chain_num.as_bytes(), 255);
        match (o, c) {
            (Some(o), Some(c)) => Some(self.hub75.get_panel_param(o as u8, c as u8)),
            _ => None,
        }
    }

    /// The `set_panel_param` command: places a panel, if connector, chain
    /// position, column and row are numbers that fit; says whether they
    /// are. The rotation has to be a number that fits whenever the other
    /// four are.
    pub fn set_panel_param(
        &mut self,
        output: &str,
        chain_num: &str,
        x: &str,
        y: &str,
        rot: &str,
    ) -> (done: bool)
        requires
            old(self).hub75.wf(),
            spec_parse_number(output.spec_bytes(), 255) is Some && spec_parse_number(
                chain_num.spec_bytes(),
                255,
            ) is Some && spec_parse_number(x.spec_bytes(), 255) is Some && spec_parse_number(
                y.spec_bytes(),
                255,
            ) is Some ==> spec_parse_number(rot.spec_bytes(), 255) is Some,
        ensures
            final(self).hub75.wf(),
            done == (spec_parse_number(output.spec_bytes(), 255) is Some && spec_parse_number(
                chain_num.spec_bytes(),
                255,
            ) is Some && spec_parse_number(x.spec_bytes(), 255) is Some && spec_parse_number(
                y.spec_bytes(),
                255,
            ) is Some),
            final(self).hub75@ == (if done {
                match crate::hub75::panel_index(
                    spec_parse_number(output.spec_bytes(), 255)->0 as u8,
                    spec_parse_number(chain_num.spec_bytes(), 255)->0 as u8,
                ) {
                    Some(at) => Hub75View {
                        panels: old(self).hub75@.panels.update(
                            at,
                            crate::hub75::PanelParam {
                                x: spec_parse_number(x.spec_bytes(), 255)->0 as u8,
                                y: spec_parse_number(y.spec_bytes(), 255)->0 as u8,
                                rot: spec_parse_number(rot.spec_bytes(), 255)->0 as u8,
                            },
                        ),
                        ..old(self).hub75@
                    },
                    None => old(self).hub75@,
                }
            } else {
                old(self).hub75@
            }),
            final(self).animation == old(self).animation,
            final(self).layout == old(self).layout,
            final(self).bitmap_stats == old(self).bitmap_stats,
            same_settings(*final(self), *old(self)),
    {
        let o = parse_number(output.as_bytes(), 255);
        let c = parse_number(chain_num.as_bytes(), 255);
        let px = parse_number(x.as_bytes(), 255);
        let py = parse_number(y.as_bytes(), 255);
        let pr = parse_number(rot.as_bytes(), 255);
        match (o, c, px, py) {
            (Some(o), Some(c), Some(px), Some(py)) => {
                match pr {
                    Some(pr) => {
                        self.hub75.set_panel_param(o as u8, c as u8, px as u8, py as u8, pr as u8);
                    },
                    None => {},
                }
                true
            },
            _ => false,
        }
    }

    /// The `debug` command: switches the debug output over and says
    /// whether it is on now.
    pub fn toggle_debug(&mut self) -> (on: bool)
        ensures
            on == !old(self).debug,
            *final(self) == (Context { debug: on, ..*old(self) }),
    {
        self.debug = !self.debug;
        self.debug
    }

    /// The `layout` command: shows or applies the layout, or sets the
    /// size of the grid.
    pub fn layout_command(&mut self, action: &str) -> (outcome: LayoutOutcome)
        requires
            old(self).hub75.wf(),
        ensures
            final(self).hub75.wf(),
            outcome == spec_layout_outcome(action.spec_bytes()),
            final(self).hub75@ == (if outcome == LayoutOutcome::Applied {
                spec_apply(old(self).layout, old(self).hub75@)
            } else {
                old(self).hub75@
            }),
            final(self).layout@ == (match outcome {
                LayoutOutcome::GridSet(cols, rows) => LayoutModel {
                    grid_cols: cols,
                    grid_rows: rows,
                    ..old(self).layout@
                },
                _ => old(self).layout@,
            }),
            final(self).animation == old(self).animation,
            final(self).bitmap_stats == old(self).bitmap_stats,
            same_identity(*final(self), *old(self)),
    {
        let a = action.as_bytes();
        if bytes_equal(a, "show".as_bytes()) {
            LayoutOutcome::Show
        } else if bytes_equal(a, "apply".as_bytes()) {
            self.layout.apply(&mut self.hub75);
            LayoutOutcome::Applied
        } else {
            match parse_grid_spec(action) {
                Some((cols, rows)) => {
                    self.layout.grid_cols = cols;
                    self.layout.grid_rows = rows;
                    LayoutOutcome::GridSet(cols, rows)
                },
                None => LayoutOutcome::Usage,
            }
        }
    }

    /// The `panel` command: shows the assignments, or gives the first
    /// panel behind a connector its grid cell.
    pub fn panel_command(&mut self, output: &str, pos: Option<&str>) -> (outcome: PanelOutcome)
        ensures
            outcome == spec_panel_outcome(
                old(self).layout@,
                output.spec_bytes(),
                match pos {
                    Some(p) => Some(p.spec_bytes()),
                    None => None,
                },
            ),
            final(self).layout@ == (match outcome {
                PanelOutcome::Assigned(n, col, row) => old(self).layout@.assign(
                    n - 1,
                    0,
                    (col, row),
                ),
                _ => old(self).layout@,
            }),
            final(self).hub75 == old(self).hub75,
            final(self).animation == old(self).animation,
            final(self).bitmap_stats == old(self).bitmap_stats,
            same_identity(*final(self), *old(self)),
    {
        let o = output.as_bytes();
        if bytes_equal(o, "show".as_bytes()) {
            return PanelOutcome::ShowAll;
        }
        let n = match connector(o) {
            Some(n) => n,
            None => {
                return PanelOutcome::InvalidOutput;
            },
        };
        match pos {
            Some(p) => match parse_pos_spec(p) {
                Some((col, row)) => {
                    let ghost before = self.layout@;
                    self.layout.assignments[(n - 1) as usize][0] = Some((col, row));
                    assert(self.layout@.assignments =~~= before.assign(
                        n - 1,
                        0,
                        (col, row),
                    ).assignments);
                    PanelOutcome::Assigned(n, col, row)
                },
                None => PanelOutcome::InvalidPosition(n),
            },
            None => PanelOutcome::Current(n, self.layout.assignments[(n - 1) as usize][0]),
        }
    }

    /// Puts a stored picture on the write side and swaps the halves:
    /// width and pixel count are configured, and the pixels are written
    /// from the start.
    pub fn display_image(&mut self, width: u16, length: u32, pixels: &[u32])
        requires
            old(self).hub75.wf(),
        ensures
            final(self).hub75.wf(),
            final(self).hub75@ == ({
                let sized = Hub75View { width, length, ..old(self).hub75@ };
                sized.with_write_side(
                    clipped_write(sized.write_side(), 0, pixels@, sized.write_bound()),
                ).swapped()
            }),
            final(self).animation == old(self).animation,
            final(self).layout == old(self).layout,
            final(self).bitmap_stats == old(self).bitmap_stats,
            same_settings(*final(self), *old(self)),
    {
        self.hub75.set_img_param(width, length);
        self.hub75.write_img_data(0, pixels);
        self.hub75.swap_buffers();
    }

    /// A context around the device `hub75`, for the sign with address
    /// `mac`: no animation, nothing pending, the layout of one panel of 96
    /// by 48.
    pub fn new(hub75: Hub75, mac: [u8; 6]) -> (ctx: Self)
        ensures
            ctx.hub75 == hub75,
            ctx.mac == mac,
            ctx.animation == Animation::Off,
            !ctx.quit,
            !ctx.debug,
            !ctx.reboot_pending,
            ctx.bitmap_stats == crate::bitmap_udp::spec_zero_stats(),
            ctx.boot_server is None,
            ctx.mac_overflow == 0 && ctx.mac_preamble_err == 0 && ctx.mac_crc_err == 0,
            ctx.layout@ == crate::layout::spec_single_panel(96, 48),
    {
        Context {
            hub75,
            mac,
            animation: Animation::Off,
            quit: false,
            debug: false,
            bitmap_stats: BitmapStats::new(),
            layout: LayoutConfig::single_panel(96, 48),
            reboot_pending: false,
            boot_server: None,
            mac_overflow: 0,
            mac_preamble_err: 0,
            mac_crc_err: 0,
        }
    }

    /// Draws the test picture called `name` in the configured size and
    /// puts it on display, in full colour and with the scan on. The
    /// animation starts for `rainbow_anim` and ends for every other
    /// picture.
    pub fn show_pattern(&mut self, name: &[u8], whole_height: bool) -> (outcome: PatternOutcome)
        requires
            old(self).hub75.wf(),
        ensures
            final(self).hub75.wf(),
            outcome == spec_pattern_outcome(old(self).hub75@, name@, whole_height),
            match outcome {
                PatternOutcome::Shown(kind) => {
                    &&& final(self).hub75@ == spec_drawn(old(self).hub75@, kind).presented()
                    &&& final(self).animation == spec_animation_of(kind)
                },
                _ => final(self).hub75@ == old(self).hub75@ && final(self).animation == old(
                    self,
                ).animation,
            },
            final(self).mac == old(self).mac,
            final(self).quit == old(self).quit,
            final(self).debug == old(self).debug,
            final(self).bitmap_stats == old(self).bitmap_stats,
            final(self).layout == old(self).layout,
            final(self).reboot_pending == old(self).reboot_pending,
            final(self).boot_server == old(self).boot_server,
            final(self).mac_overflow == old(self).mac_overflow,
            final(self).mac_preamble_err == old(self).mac_preamble_err,
            final(self).mac_crc_err == old(self).mac_crc_err,
    {
        let (w, len) = self.hub75.get_img_param();
        let h = picture_height(w, len);
        if w == 0 || (if whole_height {
            len / (w as u32) == 0
        } else {
            h == 0
        }) {
            return PatternOutcome::NoSize;
        }
        let kind = match pattern_named(name) {
            Some(kind) => kind,
            None => {
                return PatternOutcome::UnknownName;
            },
        };
        let picture = render(kind, w, h);
        self.hub75.write_img_data(0, picture.as_slice());
        self.animation = match kind {
            Pattern::AnimatedRainbow { phase } => Animation::Rainbow { phase },
            _ => Animation::Off,
        };
        self.hub75.present();
        PatternOutcome::Shown(kind)
    }

    /// Moves the animation on by one step and shows the new picture.
    pub fn animation_tick(&mut self)
        requires
            old(self).hub75.wf(),
        ensures
            final(self).hub75.wf(),
            final(self).animation == spec_next_animation(old(self).animation),
            final(self).hub75@ == spec_animated(old(self).animation, old(self).hub75@),
            final(self).mac == old(self).mac,
            final(self).quit == old(self).quit,
            final(self).debug == old(self).debug,
            final(self).bitmap_stats == old(self).bitmap_stats,
            final(self).layout == old(self).layout,
            final(self).reboot_pending == old(self).reboot_pending,
            final(self).boot_server == old(self).boot_server,
            final(self).mac_overflow == old(self).mac_overflow,
            final(self).mac_preamble_err == old(self).mac_preamble_err,
            final(self).mac_crc_err == old(self).mac_crc_err,
    {
        match self.animation {
            Animation::Off => {},
            Animation::Rainbow { phase } => {
                let next: u32 = phase.wrapping_add(1);
                self.animation = Animation::Rainbow { phase: next };
                let (w, len) = self.hub75.get_img_param();
                let h = picture_height(w, len);
                if w == 0 || h == 0 {
                    return ;
                }
                let picture = animated_rainbow(w, h, next);
                self.hub75.write_img_data(0, picture.as_slice());
                self.hub75.swap_buffers();
            },
        }
    }
}

} // verus!
