//! Panel layout of a display made of several panels: which connector and
//! chain position shows which cell of the grid.

use crate::hub75::{panel_index, Hub75, Hub75View, PanelParam};
use crate::text::{
    find_byte, find_bytes, lemma_find_byte_is_first, parse_decimal, spec_find_byte, spec_find_bytes,
    spec_parse_decimal, spec_trim, trim,
};
use vstd::prelude::*;
use vstd::string::StringSliceAdditionalSpecFns;

verus! {

/// Connectors that a layout can assign.
pub const MAX_OUTPUTS: usize = 6;

/// Chain positions behind one connector.
pub const MAX_CHAIN: usize = 2;

/// Pixels in one unit of a panel position.
pub const POS_UNIT: u16 = 16;

pub struct LayoutConfig {
    /// Width of one panel in pixels.
    pub panel_width: u16,
    /// Height of one panel in pixels.
    pub panel_height: u16,
    pub grid_cols: u8,
    pub grid_rows: u8,
    /// For each connector and chain position the grid cell `(col, row)`
    /// that it shows, if any.
    pub assignments: [[Option<(u8, u8)>; 2]; 6],
}

/// A panel position in units of 16 pixels: `cell` panels of `extent`
/// pixels each, as eight bits hold it.
pub open spec fn spec_position(cell: u8, extent: u16) -> u8 {
    ((cell * extent / (POS_UNIT as int)) % 256) as u8
}

pub fn position(cell: u8, extent: u16) -> (units: u8)
    ensures
        units == spec_position(cell, extent),
{
    proof {
        lemma_product_fits(cell as int, extent as int);
    }
    ((cell as u32 * extent as u32 / POS_UNIT as u32) % 256) as u8
}

/// The product of eight bits and sixteen bits fits 32 bits.
pub proof fn lemma_product_fits(a: int, b: int)
    requires
        0 <= a <= 0xFF,
        0 <= b <= 0xFFFF,
    ensures
        0 <= a * b <= 0xFF * 0xFFFF,
{
    assert(0 <= a * b <= 0xFF * 0xFFFF) by (nonlinear_arith)
        requires
            0 <= a <= 0xFF,
            0 <= b <= 0xFFFF,
    ;
}

impl LayoutConfig {
    /// A layout of one panel, at the first connector.
    pub fn single_panel(width: u16, height: u16) -> (config: Self)
        ensures
            config@ == spec_single_panel(width, height),
    {
        let mut assignments: [[Option<(u8, u8)>; 2]; 6] = [[None; 2]; 6];
        assignments[0][0] = Some((0, 0));
        let config = Self {
            panel_width: width,
            panel_height: height,
            grid_cols: 1,
            grid_rows: 1,
            assignments,
        };
        assert(config@.assignments =~~= spec_single_panel(width, height).assignments);
        config
    }

    /// Width of the whole picture in pixels, as 16 bits hold it.
    pub fn virtual_width(&self) -> (w: u16)
        ensures
            w == self.panel_width.wrapping_mul(self.grid_cols as u16),
    {
        self.panel_width.wrapping_mul(self.grid_cols as u16)
    }

    /// Height of the whole picture in pixels, as 16 bits hold it.
    pub fn virtual_height(&self) -> (h: u16)
        ensures
            h == self.panel_height.wrapping_mul(self.grid_rows as u16),
    {
        self.panel_height.wrapping_mul(self.grid_rows as u16)
    }

    /// Pixels of the whole picture.
    pub fn virtual_length(&self) -> (n: u32)
        ensures
            n == self.panel_width.wrapping_mul(self.grid_cols as u16)
                * self.panel_height.wrapping_mul(self.grid_rows as u16),
    {
        let w = self.virtual_width();
        let h = self.virtual_height();
        assert(w * h <= 0xFFFF * 0xFFFF) by (nonlinear_arith)
            requires
                w <= 0xFFFF,
                h <= 0xFFFF,
        ;
        w as u32 * h as u32
    }

    /// Configures the device for this layout: the picture's width and
    /// pixel count, and for each assigned panel that the device has its
    /// position, unrotated. Panels that the layout does not assign, and
    /// the contents of the framebuffer, stay as they are.
    pub fn apply(&self, hub75: &mut Hub75)
        requires
            old(hub75).wf(),
        ensures
            final(hub75).wf(),
            final(hub75)@ == spec_apply(*self, old(hub75)@),
    {
        hub75.set_img_param(self.virtual_width(), self.virtual_length());
        let ghost configured = hub75@;
        let mut output: usize = 0;
        assert(hub75@.panels =~= Seq::new(
            configured.panels.len(),
            |i: int| spec_panel_after(*self, configured.panels, i, 0),
        ));
        while output < MAX_OUTPUTS
            invariant
                output <= MAX_OUTPUTS,
                hub75.wf(),
                configured.wf(),
                hub75@ == (Hub75View {
                    panels: Seq::new(
                        configured.panels.len(),
                        |i: int| spec_panel_after(*self, configured.panels, i, output as int),
                    ),
                    ..configured
                }),
            decreases MAX_OUTPUTS - output,
        {
            let mut chain: usize = 0;
            assert(hub75@.panels =~= Seq::new(
                configured.panels.len(),
                |i: int| spec_panel_after(*self, configured.panels, i, output as int),
            ));
            while chain < MAX_CHAIN
                invariant
                    output < MAX_OUTPUTS,
                    chain <= MAX_CHAIN,
                    hub75.wf(),
                    configured.wf(),
                    hub75@ == (Hub75View {
                        panels: Seq::new(
                            configured.panels.len(),
                            |i: int|
                                spec_panel_after(
                                    *self,
                                    configured.panels,
                                    i,
                                    if chain == 0 {
                                        output as int
                                    } else {
                                        output + 1
                                    },
                                ),
                        ),
                        ..configured
                    }),
                decreases MAX_CHAIN - chain,
            {
                let ghost before = hub75@;
                match self.assignments[output][chain] {
                    Some((col, row)) => {
                        let x = position(col, self.panel_width);
                        let y = position(row, self.panel_height);
                        hub75.set_panel_param(output as u8, chain as u8, x, y, 0);
                    },
                    None => {},
                }
                proof {
                    let want = Hub75View {
                        panels: Seq::new(
                            configured.panels.len(),
                            |i: int|
                                spec_panel_after(*self, configured.panels, i, output + 1),
                        ),
                        ..configured
                    };
                    if chain == 0 {
                        assert(panel_index(output as u8, 0) == Some(output as int));
                    } else {
                        assert(panel_index(output as u8, chain as u8) is None);
                    }
                    assert(hub75@.panels =~= want.panels);
                }
                chain += 1;
            }
            assert(hub75@.panels =~= Seq::new(
                configured.panels.len(),
                |i: int| spec_panel_after(*self, configured.panels, i, output + 1),
            ));
            output += 1;
        }
        proof {
            assert(hub75@.panels =~= spec_apply(*self, old(hub75)@).panels);
        }
    }
}

/// The placement of panel `i` once the first `done` connectors of the
/// layout `cfg` were applied over the placements `before`.
pub open spec fn spec_panel_after(cfg: LayoutConfig, before: Seq<PanelParam>, i: int, done: int) -> PanelParam {
    if 0 <= i < done && i < MAX_OUTPUTS {
        match cfg.assignments[i][0] {
            Some((col, row)) => PanelParam {
                x: spec_position(col, cfg.panel_width),
                y: spec_position(row, cfg.panel_height),
                rot: 0,
            },
            None => before[i],
        }
    } else {
        before[i]
    }
}

/// The device after the layout `cfg` was applied to it.
pub open spec fn spec_apply(cfg: LayoutConfig, dev: Hub75View) -> Hub75View {
    Hub75View {
        width: cfg.panel_width.wrapping_mul(cfg.grid_cols as u16),
        length: (cfg.panel_width.wrapping_mul(cfg.grid_cols as u16)
            * cfg.panel_height.wrapping_mul(cfg.grid_rows as u16)) as u32,
        panels: Seq::new(
            dev.panels.len(),
            |i: int| spec_panel_after(cfg, dev.panels, i, MAX_OUTPUTS as int),
        ),
        ..dev
    }
}

/// A layout as contracts see it.
pub struct LayoutModel {
    pub panel_width: u16,
    pub panel_height: u16,
    pub grid_cols: u8,
    pub grid_rows: u8,
    /// `assignments[output][chain]` is the grid cell of that panel.
    pub assignments: Seq<Seq<Option<(u8, u8)>>>,
}

impl View for LayoutConfig {
    type V = LayoutModel;

    open spec fn view(&self) -> LayoutModel {
        LayoutModel {
            panel_width: self.panel_width,
            panel_height: self.panel_height,
            grid_cols: self.grid_cols,
            grid_rows: self.grid_rows,
            assignments: Seq::new(
                MAX_OUTPUTS as nat,
                |output: int| Seq::new(MAX_CHAIN as nat, |chain: int| self.assignments[output][chain]),
            ),
        }
    }
}

impl LayoutModel {
    /// The layout with the panel at `output` and `chain` showing `cell`.
    pub open spec fn assign(self, output: int, chain: int, cell: (u8, u8)) -> LayoutModel {
        LayoutModel {
            assignments: self.assignments.update(
                output,
                self.assignments[output].update(chain, Some(cell)),
            ),
            ..self
        }
    }
}

/// The layout of one panel of `width` by `height` at the first connector.
pub open spec fn spec_single_panel(width: u16, height: u16) -> LayoutModel {
    LayoutModel {
        panel_width: width,
        panel_height: height,
        grid_cols: 1,
        grid_rows: 1,
        assignments: Seq::new(
            MAX_OUTPUTS as nat,
            |output: int|
                Seq::new(
                    MAX_CHAIN as nat,
                    |chain: int|
                        if output == 0 && chain == 0 {
                            Some((0u8, 0u8))
                        } else {
                            None
                        },
                ),
        ),
    }
}

/// The layout that parsing starts from: one cell of 96 by 48 and no panel
/// assigned.
pub open spec fn spec_blank_layout() -> LayoutModel {
    LayoutModel {
        panel_width: 96,
        panel_height: 48,
        grid_cols: 1,
        grid_rows: 1,
        assignments: Seq::new(
            MAX_OUTPUTS as nat,
            |output: int| Seq::new(MAX_CHAIN as nat, |chain: int| None::<(u8, u8)>),
        ),
    }
}

/// The bytes of the key `grid`.
pub open spec fn key_grid() -> Seq<u8> {
    seq![103u8, 114, 105, 100]
}

/// The bytes of the key `panel_width`.
pub open spec fn key_panel_width() -> Seq<u8> {
    seq![112u8, 97, 110, 101, 108, 95, 119, 105, 100, 116, 104]
}

/// The bytes of the key `panel_height`.
pub open spec fn key_panel_height() -> Seq<u8> {
    seq![112u8, 97, 110, 101, 108, 95, 104, 101, 105, 103, 104, 116]
}

pub open spec fn spec_parse_u8(s: Seq<u8>) -> Option<u8> {
    match spec_parse_decimal(s, 255) {
        Some(v) => Some(v as u8),
        None => None,
    }
}

pub open spec fn spec_parse_u16(s: Seq<u8>) -> Option<u16> {
    match spec_parse_decimal(s, 65535) {
        Some(v) => Some(v as u16),
        None => None,
    }
}

/// Two numbers of eight bits with the first `sep` of `s` between them.
pub open spec fn spec_parse_pair(s: Seq<u8>, sep: u8) -> Option<(u8, u8)> {
    match spec_find_byte(s, sep) {
        Some(at) => match (spec_parse_u8(s.take(at)), spec_parse_u8(s.skip(at + 1))) {
            (Some(a), Some(b)) => Some((a, b)),
            _ => None,
        },
        None => None,
    }
}

/// A grid size such as `2x1`: columns, then rows.
pub open spec fn spec_parse_grid(s: Seq<u8>) -> Option<(u8, u8)> {
    spec_parse_pair(s, 120)
}

/// A grid cell such as `1,0`: column, then row.
pub open spec fn spec_parse_pos(s: Seq<u8>) -> Option<(u8, u8)> {
    spec_parse_pair(s, 44)
}

/// Whether `b` parts the positions of one line: space, tab, line feed,
/// form feed or carriage return.
pub open spec fn spec_is_separator(b: u8) -> bool {
    b == 32 || b == 9 || b == 10 || b == 12 || b == 13
}

/// The number of bytes at the start of `s` that are separators
/// (`sep` true) or are not (`sep` false).
pub open spec fn spec_run(s: Seq<u8>, sep: bool) -> nat
    decreases s.len(),
{
    if s.len() > 0 && spec_is_separator(s[0]) == sep {
        1 + spec_run(s.drop_first(), sep)
    } else {
        0
    }
}

/// The first word of `s`: what stands between the separators at the start
/// and the next separator. It is empty where `s` holds no word.
pub open spec fn spec_first_word(s: Seq<u8>) -> Seq<u8> {
    let t = s.skip(spec_run(s, true) as int);
    t.take(spec_run(t, false) as int)
}

/// What follows the first word of `s`.
pub open spec fn spec_after_first_word(s: Seq<u8>) -> Seq<u8> {
    let t = s.skip(spec_run(s, true) as int);
    t.skip(spec_run(t, false) as int)
}

/// Where key and value of `line` part, and how many bytes part them: the
/// first `=`, or else the first colon followed by a space.
pub open spec fn spec_separator(line: Seq<u8>) -> Option<(int, int)> {
    match spec_find_byte(line, 61) {
        Some(at) => Some((at, 1int)),
        None => match spec_find_bytes(line, seq![58u8, 32u8]) {
            Some(at) => Some((at, 2int)),
            None => None,
        },
    }
}

/// The layout after the positions in `value` were given to connector
/// `output`: the first word to chain position 0, the second to position 1.
/// A word that is no grid cell changes nothing; words behind the second
/// are ignored.
pub open spec fn spec_assign_words(cfg: LayoutModel, output: int, value: Seq<u8>) -> LayoutModel {
    let first = spec_first_word(value);
    let rest = spec_after_first_word(value);
    let second = spec_first_word(rest);
    let cfg1 = match spec_parse_pos(first) {
        Some(cell) => cfg.assign(output, 0, cell),
        None => cfg,
    };
    if first.len() == 0 || second.len() == 0 {
        cfg1
    } else {
        match spec_parse_pos(second) {
            Some(cell) => cfg1.assign(output, 1, cell),
            None => cfg1,
        }
    }
}

/// The layout after the entry `key` with `value` was read. The keys are
/// `grid`, `panel_width`, `panel_height` and `J1` to `J6`; an unknown key
/// or a value that cannot be read changes nothing.
pub open spec fn spec_apply_entry(cfg: LayoutModel, key: Seq<u8>, value: Seq<u8>) -> LayoutModel {
    if key == key_grid() {
        match spec_parse_grid(value) {
            Some((cols, rows)) => LayoutModel { grid_cols: cols, grid_rows: rows, ..cfg },
            None => cfg,
        }
    } else if key == key_panel_width() {
        match spec_parse_u16(value) {
            Some(w) => LayoutModel { panel_width: w, ..cfg },
            None => cfg,
        }
    } else if key == key_panel_height() {
        match spec_parse_u16(value) {
            Some(h) => LayoutModel { panel_height: h, ..cfg },
            None => cfg,
        }
    } else if key.len() > 0 && key[0] == 74 {
        match spec_parse_u8(key.skip(1)) {
            Some(n) => if 1 <= n <= MAX_OUTPUTS {
                spec_assign_words(cfg, n - 1, value)
            } else {
                cfg
            },
            None => cfg,
        }
    } else {
        cfg
    }
}

/// The layout after the line `line`, which has no blanks at its ends, was
/// read. Empty lines, lines that start with `#` and lines without a
/// separator change nothing.
pub open spec fn spec_apply_line(cfg: LayoutModel, line: Seq<u8>) -> LayoutModel {
    if line.len() == 0 || line[0] == 35 {
        cfg
    } else {
        match spec_separator(line) {
            Some((at, skip)) => spec_apply_entry(
                cfg,
                spec_trim(line.take(at)),
                spec_trim(line.skip(at + skip)),
            ),
            None => cfg,
        }
    }
}

/// The layout after all lines of `text` were read, one after the other.
pub open spec fn spec_parse_lines(cfg: LayoutModel, text: Seq<u8>) -> LayoutModel
    decreases text.len(),
{
    if text.len() == 0 {
        cfg
    } else {
        match spec_find_byte(text, 10) {
            Some(n) => if 0 <= n < text.len() {
                spec_parse_lines(spec_apply_line(cfg, spec_trim(text.take(n))), text.skip(n + 1))
            } else {
                cfg
            },
            None => spec_apply_line(cfg, spec_trim(text)),
        }
    }
}

/// The number of leading separators, or of leading other bytes, is the
/// first position that holds a byte of the other kind.
pub proof fn lemma_run_is(s: Seq<u8>, sep: bool, n: int)
    requires
        0 <= n <= s.len(),
        forall|i: int| 0 <= i < n ==> spec_is_separator(#[trigger] s[i]) == sep,
        n < s.len() ==> spec_is_separator(s[n]) != sep,
    ensures
        spec_run(s, sep) == n,
    decreases s.len(),
{
    if n > 0 {
        assert(spec_is_separator(s[0]) == sep);
        let rest = s.drop_first();
        assert forall|i: int| 0 <= i < n - 1 implies spec_is_separator(#[trigger] rest[i])
            == sep by {
            assert(rest[i] == s[i + 1]);
        }
        if n - 1 < rest.len() {
            assert(rest[n - 1] == s[n]);
        }
        lemma_run_is(rest, sep, n - 1);
    }
}

fn is_separator(b: u8) -> (sep: bool)
    ensures
        sep == spec_is_separator(b),
{
    b == 32 || b == 9 || b == 10 || b == 12 || b == 13
}

/// Skips bytes of one kind from the start of `s`: separators if `sep`,
/// other bytes if not.
fn skip_run(s: &[u8], sep: bool) -> (n: usize)
    ensures
        n == spec_run(s@, sep),
        n <= s@.len(),
{
    let len: usize = s.len();
    let mut n: usize = 0;
    while n < len && is_separator(s[n]) == sep
        invariant
            n <= len == s@.len(),
            forall|i: int| 0 <= i < n ==> spec_is_separator(#[trigger] s@[i]) == sep,
        decreases len - n,
    {
        n += 1;
    }
    proof {
        lemma_run_is(s@, sep, n as int);
    }
    n
}

/// Parts `s` into its first word and what follows it.
pub fn first_word(s: &[u8]) -> (parts: (&[u8], &[u8]))
    ensures
        parts.0@ == spec_first_word(s@),
        parts.1@ == spec_after_first_word(s@),
{
    let a = skip_run(s, true);
    let t = &s[a..s.len()];
    assert(t@ =~= s@.skip(a as int));
    let b = skip_run(t, false);
    let word = &t[0..b];
    let rest = &t[b..t.len()];
    assert(word@ =~= t@.take(b as int));
    assert(rest@ =~= t@.skip(b as int));
    (word, rest)
}

/// Whether two byte strings are the same.
pub fn bytes_equal(a: &[u8], b: &[u8]) -> (same: bool)
    ensures
        same == (a@ == b@),
{
    if a.len() != b.len() {
        return false;
    }
    let len: usize = a.len();
    let mut i: usize = 0;
    while i < len
        invariant
            i <= len,
            len == a@.len() == b@.len(),
            forall|j: int| 0 <= j < i ==> a@[j] == b@[j],
        decreases len - i,
    {
        if a[i] != b[i] {
            return false;
        }
        i += 1;
    }
    assert(a@ =~= b@);
    true
}

/// Reads a number of eight bits.
pub fn parse_u8(s: &[u8]) -> (n: Result<u8, ()>)
    ensures
        match n {
            Ok(v) => spec_parse_u8(s@) == Some(v),
            Err(_) => spec_parse_u8(s@) is None,
        },
{
    match parse_decimal(s, 255) {
        Some(v) => Ok(v as u8),
        None => Err(()),
    }
}

/// Reads a number of sixteen bits.
pub fn parse_u16(s: &[u8]) -> (n: Result<u16, ()>)
    ensures
        match n {
            Ok(v) => spec_parse_u16(s@) == Some(v),
            Err(_) => spec_parse_u16(s@) is None,
        },
{
    match parse_decimal(s, 65535) {
        Some(v) => Ok(v as u16),
        None => Err(()),
    }
}

fn parse_pair(s: &[u8], sep: u8) -> (pair: Option<(u8, u8)>)
    ensures
        pair == spec_parse_pair(s@, sep),
{
    let at = match find_byte(s, sep) {
        Some(at) => at,
        None => {
            return None;
        },
    };
    proof {
        lemma_find_byte_is_first(s@, sep);
    }
    let len: usize = s.len();
    let left = &s[0..at];
    let right = &s[at + 1..len];
    assert(left@ =~= s@.take(at as int));
    assert(right@ =~= s@.skip(at + 1));
    let a = match parse_u8(left) {
        Ok(a) => a,
        Err(_) => {
            return None;
        },
    };
    let b = match parse_u8(right) {
        Ok(b) => b,
        Err(_) => {
            return None;
        },
    };
    Some((a, b))
}

/// Reads a grid size such as `2x1`.
pub fn parse_grid(s: &[u8]) -> (grid: Option<(u8, u8)>)
    ensures
        grid == spec_parse_grid(s@),
{
    parse_pair(s, 120)
}

/// Reads a grid cell such as `1,0`.
pub fn parse_pos(s: &[u8]) -> (cell: Option<(u8, u8)>)
    ensures
        cell == spec_parse_pos(s@),
{
    parse_pair(s, 44)
}

/// Reads a grid size such as `2x1`: columns, then rows.
pub fn parse_grid_spec(s: &str) -> (grid: Option<(u8, u8)>)
    ensures
        grid == spec_parse_grid(s.spec_bytes()),
{
    parse_grid(s.as_bytes())
}

/// Reads a grid cell such as `1,0`: column, then row.
pub fn parse_pos_spec(s: &str) -> (cell: Option<(u8, u8)>)
    ensures
        cell == spec_parse_pos(s.spec_bytes()),
{
    parse_pos(s.as_bytes())
}

fn assign(config: &mut LayoutConfig, output: usize, chain: usize, cell: (u8, u8))
    requires
        output < MAX_OUTPUTS,
        chain < MAX_CHAIN,
    ensures
        final(config)@ == old(config)@.assign(output as int, chain as int, cell),
{
    config.assignments[output][chain] = Some(cell);
    assert(config@.assignments =~~= old(config)@.assign(
        output as int,
        chain as int,
        cell,
    ).assignments);
}

fn assign_words(config: &mut LayoutConfig, output: usize, value: &[u8])
    requires
        output < MAX_OUTPUTS,
    ensures
        final(config)@ == spec_assign_words(old(config)@, output as int, value@),
{
    let (first, rest) = first_word(value);
    if first.len() == 0 {
        return ;
    }
    match parse_pos(first) {
        Some(cell) => {
            assign(config, output, 0, cell);
        },
        None => {},
    }
    let (second, _) = first_word(rest);
    if second.len() == 0 {
        return ;
    }
    match parse_pos(second) {
        Some(cell) => {
            assign(config, output, 1, cell);
        },
        None => {},
    }
}

fn apply_entry(config: &mut LayoutConfig, key: &[u8], value: &[u8])
    ensures
        final(config)@ == spec_apply_entry(old(config)@, key@, value@),
{
    let grid_key: [u8; 4] = [103, 114, 105, 100];
    let width_key: [u8; 11] = [112, 97, 110, 101, 108, 95, 119, 105, 100, 116, 104];
    let height_key: [u8; 12] = [112, 97, 110, 101, 108, 95, 104, 101, 105, 103, 104, 116];
    assert(grid_key@ =~= key_grid());
    assert(width_key@ =~= key_panel_width());
    assert(height_key@ =~= key_panel_height());
    if bytes_equal(key, grid_key.as_slice()) {
        match parse_grid(value) {
            Some((cols, rows)) => {
                config.grid_cols = cols;
                config.grid_rows = rows;
            },
            None => {},
        }
    } else if bytes_equal(key, width_key.as_slice()) {
        match parse_u16(value) {
            Ok(w) => {
                config.panel_width = w;
            },
            Err(_) => {},
        }
    } else if bytes_equal(key, height_key.as_slice()) {
        match parse_u16(value) {
            Ok(h) => {
                config.panel_height = h;
            },
            Err(_) => {},
        }
    } else if key.len() > 0 && key[0] == 74 {
        let rest = &key[1..key.len()];
        assert(rest@ =~= key@.skip(1));
        match parse_u8(rest) {
            Ok(n) => {
                if n >= 1 && n as usize <= MAX_OUTPUTS {
                    assign_words(config, (n - 1) as usize, value);
                }
            },
            Err(_) => {},
        }
    }
}

fn apply_line(config: &mut LayoutConfig, line: &[u8])
    ensures
        final(config)@ == spec_apply_line(old(config)@, line@),
{
    if line.len() == 0 || line[0] == 35 {
        return ;
    }
    let colon_space: [u8; 2] = [58, 32];
    assert(colon_space@ =~= seq![58u8, 32u8]);
    let (at, skip): (usize, usize) = match find_byte(line, 61) {
        Some(at) => (at, 1),
        None => match find_bytes(line, colon_space.as_slice()) {
            Some(at) => (at, 2),
            None => {
                return ;
            },
        },
    };
    proof {
        lemma_find_byte_is_first(line@, 61);
        if skip == 2 {
            crate::text::lemma_find_bytes_is_first(line@, seq![58u8, 32u8]);
        }
    }
    let key_part = &line[0..at];
    let value_part = &line[at + skip..line.len()];
    assert(key_part@ =~= line@.take(at as int));
    assert(value_part@ =~= line@.skip(at + skip));
    apply_entry(config, trim(key_part), trim(value_part));
}

/// Reads the first line of `rest` into `config` and says how many bytes
/// the line took, its end included.
fn read_line(config: &mut LayoutConfig, rest: &[u8]) -> (used: usize)
    requires
        rest@.len() > 0,
    ensures
        0 < used <= rest@.len(),
        spec_parse_lines(old(config)@, rest@) == spec_parse_lines(
            final(config)@,
            rest@.skip(used as int),
        ),
{
    let len: usize = rest.len();
    proof {
        lemma_find_byte_is_first(rest@, 10);
    }
    match find_byte(rest, 10) {
        Some(n) => {
            let line = &rest[0..n];
            assert(line@ =~= rest@.take(n as int));
            apply_line(config, trim(line));
            n + 1
        },
        None => {
            apply_line(config, trim(rest));
            assert(rest@.skip(len as int).len() == 0);
            len
        },
    }
}

impl LayoutConfig {
    /// Reads a layout from text with one entry on each line, written as
    /// `key=value` or `key: value`:
    ///
    /// - `grid=2x1` sets columns and rows of the grid;
    /// - `panel_width=96` and `panel_height=48` set the size of a panel;
    /// - `J1=0,0` or `J1=0,0 1,0` gives the panels behind a connector
    ///   their grid cells, the first position in the chain first.
    ///
    /// Reading starts from a grid of one cell of 96 by 48 with no panel
    /// assigned. Lines that cannot be read are skipped.
    pub fn parse(text: &str) -> (config: Option<Self>)
        ensures
            config is Some,
            config->0@ == spec_parse_lines(spec_blank_layout(), text.spec_bytes()),
    {
        let mut config = Self::single_panel(96, 48);
        config.assignments = [[None; 2]; 6];
        assert(config@.assignments =~~= spec_blank_layout().assignments);
        let bytes = text.as_bytes();
        let len: usize = bytes.len();
        let mut pos: usize = 0;
        assert(bytes@.skip(0) =~= bytes@);
        while pos < len
            invariant
                pos <= len == bytes@.len(),
                spec_parse_lines(spec_blank_layout(), bytes@) == spec_parse_lines(
                    config@,
                    bytes@.skip(pos as int),
                ),
            decreases len - pos,
        {
            let rest = &bytes[pos..len];
            assert(rest@ =~= bytes@.skip(pos as int));
            let used = read_line(&mut config, rest);
            assert(rest@.skip(used as int) =~= bytes@.skip(pos + used));
            pos = pos + used;
        }
        assert(bytes@.skip(len as int).len() == 0);
        Some(config)
    }
}

} // verus!
