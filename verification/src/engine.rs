//! The stroke engine: which make of brush draws, its settings, and the mirrored
//! or wrapped copies that draw with it. The brushes themselves are the drawing
//! core's; here is the sheet that each of them is set up from.

use vstd::prelude::*;
use crate::floats;
use crate::geom::Pt;

verus! {

/// The smallest radius that a size can ask for, as the bit pattern of a 32-bit
/// float.
pub const TINY: u32 = 0x38d1_b717;

/// A gap that no stroke covers, and the bound of a size without one: the bit
/// pattern of the infinite 32-bit float.
pub const NEVER: u32 = 0x7f80_0000;

/// How dabs are composited; modes other than Normal by the shell's number.
#[derive(Clone, Copy, PartialEq, Eq, Structural, Debug)]
pub enum Blend {
    Normal,
    Mode(u32),
}

/// A brush colour; each channel is the bit pattern of a 32-bit float.
#[derive(Clone, Copy, PartialEq, Eq, Structural, Debug)]
pub struct Ink {
    pub r: u32,
    pub g: u32,
    pub b: u32,
}

/// Brush-size randomization.
#[derive(Clone, Copy, PartialEq, Eq, Structural, Debug)]
pub struct Random {
    pub amount: u32,
    /// The pressure floor in percent.
    pub min_pct: u32,
    /// The deviation is in pixels and does not grow with the brush.
    pub absolute: bool,
}

/// Links from a stroke back to its own recent history.
#[derive(Clone, Copy, PartialEq, Eq, Structural, Debug)]
pub struct SketchParams {
    pub distance: u32,
    pub density: u32,
}

/// The view that the canvas is drawn through.
#[derive(Clone, Copy, PartialEq, Eq, Structural, Debug)]
pub struct ViewPose {
    pub zoom: u32,
    pub rotation: u32,
    pub flip_h: bool,
}

/// Stroke-level opacity: the stroke collects in a buffer of its own.
#[derive(Clone, Copy, PartialEq, Eq, Structural, Debug)]
pub struct Wash {
    pub on: bool,
    pub opacity: u32,
    pub blend: Blend,
}

/// What one brush is set up from. Numbers are bit patterns of 32-bit floats
/// where nothing else is said.
#[derive(Clone, Copy, PartialEq, Eq, Structural, Debug)]
pub struct Sheet {
    pub mask_mode: bool,
    pub sel_mode: bool,
    /// The barrier that dabs may not cross, by the shell's name.
    pub anti_overflow: Option<u64>,
    /// How dabs are recorded, by the shell's number.
    pub recording: u32,
    pub view: ViewPose,
    pub ink: Ink,
    /// The dab diameter; none before a size was asked for.
    pub size: Option<u32>,
    pub eraser: bool,
    pub opacity: u32,
    /// The pressure floor of the size in percent; none where the preset's own
    /// curve stands.
    pub size_min: Option<u32>,
    pub random: Random,
    pub hard_dab: bool,
    pub scatter: u32,
    /// The dab spacing, by the shell's name.
    pub interval: u64,
    pub density_by_gap: bool,
    /// The edge feather's level.
    pub anti_alias: u32,
    pub wash: Wash,
    pub texture_scroll: u32,
    pub sketch: Option<SketchParams>,
}

/// What the drawing core reports of a brush.
#[derive(Clone, Copy, Debug)]
pub struct Reading {
    /// The diameter that the preset ships with.
    pub base_size: u32,
    pub radius: u32,
    /// The gap between dabs.
    pub gap: u32,
    /// The edge feather that is enforced.
    pub feather: u32,
    pub size_min_pct: u32,
    pub gpu_ready: bool,
    /// The preset samples the canvas for each dab.
    pub smudge: bool,
    /// The texture stamps with each dab.
    pub anchor_dab: bool,
    pub taper: Option<(u32, u32)>,
}

/// A grayscale mask on the brush tip.
#[derive(Debug)]
pub struct TextureMask {
    pub name: String,
    pub size: u32,
    pub data: Vec<u8>,
}

/// The response of one setting to one input.
#[derive(Debug)]
pub struct Curve {
    pub setting: i32,
    pub input: i32,
    pub points: Vec<Pt>,
}

/// A MyPaint brush.
#[derive(Debug)]
pub struct Brush {
    pub name: String,
    pub sheet: Sheet,
    pub reading: Reading,
    pub texture: Option<TextureMask>,
    pub curves: Vec<Curve>,
    /// The dabs on record, by the shell's names.
    pub record: Vec<u64>,
    /// The live wash buffer, by the shell's name.
    pub wash_buffer: Option<u64>,
}

/// A procedural brush, or the plain dab that the application falls back to.
#[derive(Clone, Copy, PartialEq, Eq, Structural, Debug)]
pub struct Nib {
    /// The one number that its size goes by.
    pub reach: u32,
    /// The smallest radius as a part of the reach.
    pub ratio: u32,
    pub ink: Ink,
    /// The barrier that dabs may not cross, by the shell's name.
    pub mask: Option<u64>,
}

/// One make of stroke engine: what actually makes pixels.
#[derive(Debug)]
pub enum EngineKind {
    My(Brush),
    Dab(Nib),
    Grid(Nib),
    Hairy(Nib),
    Curve(Nib),
    Dyna(Nib),
}

/// The procedural brushes as they come.
#[derive(Clone, Copy, PartialEq, Eq, Structural, Debug)]
pub struct Stock {
    pub grid: Nib,
    pub hairy: Nib,
    pub curve: Nib,
    pub dyna: Nib,
}

/// The engine that a preset asks for by name; an unknown name, like none, is an
/// ordinary MyPaint preset.
pub open spec fn named(key: Option<Seq<char>>, stock: Stock) -> Option<EngineKind> {
    match key {
        Some(k) => if k == "grid"@ {
            Some(EngineKind::Grid(stock.grid))
        } else if k == "hairy"@ {
            Some(EngineKind::Hairy(stock.hairy))
        } else if k == "curve"@ {
            Some(EngineKind::Curve(stock.curve))
        } else if k == "dyna"@ {
            Some(EngineKind::Dyna(stock.dyna))
        } else {
            None
        },
        None => None,
    }
}

/// The text of a string, where there is one.
pub open spec fn text_of(s: Option<&str>) -> Option<Seq<char>> {
    match s {
        Some(t) => Some(t@),
        None => None,
    }
}

/// The engine that a preset asks for. A preset of a newer build falls back to
/// the MyPaint path, so that no sub tool is left without an engine.
pub fn preset_engine(key: Option<&str>, stock: Stock) -> (r: Option<EngineKind>)
    ensures
        r == named(text_of(key), stock),
{
    match key {
        Some(k) => if crate::text::same(k, "grid") {
            Some(EngineKind::Grid(stock.grid))
        } else if crate::text::same(k, "hairy") {
            Some(EngineKind::Hairy(stock.hairy))
        } else if crate::text::same(k, "curve") {
            Some(EngineKind::Curve(stock.curve))
        } else if crate::text::same(k, "dyna") {
            Some(EngineKind::Dyna(stock.dyna))
        } else {
            None
        },
        None => None,
    }
}

/// One change of a setting.
#[derive(Clone, Copy, PartialEq, Eq, Structural, Debug)]
pub enum Setting {
    MaskMode(bool),
    SelMode(bool),
    AntiOverflow(Option<u64>),
    Recording(u32),
    View(ViewPose),
    Ink(Ink),
    /// A dab diameter, and its half.
    Size(u32, u32),
    Eraser(bool),
    Opacity(u32),
    SizeMin(u32),
    Random(Random),
    HardDab(bool),
    Scatter(u32),
    Interval(u64),
    DensityByGap(bool),
    AntiAlias(u32),
    Wash(Wash),
    WashOpacity(u32),
    WashBlend(Blend),
    TextureScroll(u32),
    Sketch(Option<SketchParams>),
}

impl Sheet {
    /// The sheet with one setting changed.
    pub open spec fn with(self, s: Setting) -> Sheet {
        match s {
            Setting::MaskMode(on) => Sheet { mask_mode: on, ..self },
            Setting::SelMode(on) => Sheet { sel_mode: on, ..self },
            Setting::AntiOverflow(m) => Sheet { anti_overflow: m, ..self },
            Setting::Recording(m) => Sheet { recording: m, ..self },
            Setting::View(v) => Sheet { view: v, ..self },
            Setting::Ink(c) => Sheet { ink: c, ..self },
            Setting::Size(px, _) => Sheet { size: Some(px), ..self },
            Setting::Eraser(on) => Sheet { eraser: on, ..self },
            Setting::Opacity(o) => Sheet { opacity: o, ..self },
            Setting::SizeMin(p) => Sheet { size_min: Some(p), ..self },
            Setting::Random(r) => Sheet { random: r, ..self },
            Setting::HardDab(on) => Sheet { hard_dab: on, ..self },
            Setting::Scatter(v) => Sheet { scatter: v, ..self },
            Setting::Interval(i) => Sheet { interval: i, ..self },
            Setting::DensityByGap(on) => Sheet { density_by_gap: on, ..self },
            Setting::AntiAlias(a) => Sheet { anti_alias: a, ..self },
            Setting::Wash(w) => Sheet { wash: w, ..self },
            Setting::WashOpacity(o) => Sheet { wash: Wash { opacity: o, ..self.wash }, ..self },
            Setting::WashBlend(b) => Sheet { wash: Wash { blend: b, ..self.wash }, ..self },
            Setting::TextureScroll(v) => Sheet { texture_scroll: v, ..self },
            Setting::Sketch(p) => Sheet { sketch: p, ..self },
        }
    }

    fn set(&mut self, s: Setting)
        ensures
            *final(self) == old(self).with(s),
    {
        match s {
            Setting::MaskMode(on) => self.mask_mode = on,
            Setting::SelMode(on) => self.sel_mode = on,
            Setting::AntiOverflow(m) => self.anti_overflow = m,
            Setting::Recording(m) => self.recording = m,
            Setting::View(v) => self.view = v,
            Setting::Ink(c) => self.ink = c,
            Setting::Size(px, _) => self.size = Some(px),
            Setting::Eraser(on) => self.eraser = on,
            Setting::Opacity(o) => self.opacity = o,
            Setting::SizeMin(p) => self.size_min = Some(p),
            Setting::Random(r) => self.random = r,
            Setting::HardDab(on) => self.hard_dab = on,
            Setting::Scatter(v) => self.scatter = v,
            Setting::Interval(i) => self.interval = i,
            Setting::DensityByGap(on) => self.density_by_gap = on,
            Setting::AntiAlias(a) => self.anti_alias = a,
            Setting::Wash(w) => self.wash = w,
            Setting::WashOpacity(o) => self.wash.opacity = o,
            Setting::WashBlend(b) => self.wash.blend = b,
            Setting::TextureScroll(v) => self.texture_scroll = v,
            Setting::Sketch(p) => self.sketch = p,
        }
    }
}

/// The radius that a size asks for, from half its diameter: never less than the
/// smallest, and the smallest where there is no number.
pub open spec fn asked_radius(half: u32) -> u32 {
    if floats::nan(half) || floats::below(half, TINY) {
        TINY
    } else {
        half
    }
}

/// A number held between two bounds.
pub open spec fn held(v: u32, lo: u32, hi: u32) -> u32 {
    if floats::below(v, lo) {
        lo
    } else if floats::below(hi, v) {
        hi
    } else {
        v
    }
}

fn hold(half: u32, lo: u32, hi: u32) -> (r: u32)
    ensures
        r == held(asked_radius(half), lo, hi),
{
    let v: u32 = if floats::is_nan(half) || floats::is_below(half, TINY) {
        TINY
    } else {
        half
    };
    if floats::is_below(v, lo) {
        lo
    } else if floats::is_below(hi, v) {
        hi
    } else {
        v
    }
}

impl Nib {
    /// The nib with one setting changed; it has an ink, a barrier and a size,
    /// which it keeps between its own bounds.
    pub open spec fn with(self, s: Setting, lo: u32, hi: u32) -> Nib {
        match s {
            Setting::Ink(c) => Nib { ink: c, ..self },
            Setting::AntiOverflow(m) => Nib { mask: m, ..self },
            Setting::Size(_, half) => Nib { reach: held(asked_radius(half), lo, hi), ..self },
            _ => self,
        }
    }

    fn set(&mut self, s: Setting, lo: u32, hi: u32)
        ensures
            *final(self) == old(self).with(s, lo, hi),
    {
        match s {
            Setting::Ink(c) => self.ink = c,
            Setting::AntiOverflow(m) => self.mask = m,
            Setting::Size(_, half) => self.reach = hold(half, lo, hi),
            _ => {},
        }
    }
}

/// The bounds of the size that each procedural brush takes, as bit patterns of
/// 32-bit floats: 2 to 512 for the grid, 1 to 512 for the bristles, 2 to 1024
/// for the curve.
pub const TWO: u32 = 0x4000_0000;

pub const UNIT: u32 = 0x3f80_0000;

pub const HALF_K: u32 = 0x4400_0000;

pub const ONE_K: u32 = 0x4480_0000;

impl EngineKind {
    /// The engine with one setting changed.
    pub open spec fn with(self, s: Setting) -> EngineKind {
        match self {
            EngineKind::My(b) => EngineKind::My(Brush { sheet: b.sheet.with(s), ..b }),
            EngineKind::Dab(n) => EngineKind::Dab(n.with(s, TINY, NEVER)),
            EngineKind::Grid(n) => EngineKind::Grid(n.with(s, TWO, HALF_K)),
            EngineKind::Hairy(n) => EngineKind::Hairy(n.with(s, UNIT, HALF_K)),
            EngineKind::Curve(n) => EngineKind::Curve(n.with(s, TWO, ONE_K)),
            EngineKind::Dyna(n) => EngineKind::Dyna(n.with(s, TINY, NEVER)),
        }
    }

    /// Changes one setting.
    pub fn set(&mut self, s: Setting)
        ensures
            *final(self) == old(self).with(s),
    {
        match self {
            EngineKind::My(b) => b.sheet.set(s),
            EngineKind::Dab(n) => n.set(s, TINY, NEVER),
            EngineKind::Grid(n) => n.set(s, TWO, HALF_K),
            EngineKind::Hairy(n) => n.set(s, UNIT, HALF_K),
            EngineKind::Curve(n) => n.set(s, TWO, ONE_K),
            EngineKind::Dyna(n) => n.set(s, TINY, NEVER),
        }
    }
}

/// How one copy of the stroke moves along an axis.
#[derive(Clone, Copy, PartialEq, Eq, Structural, Debug)]
pub enum TwinAxis {
    /// Mirrored in the middle of the canvas.
    Mirror,
    /// Moved by the canvas' size to the neighbouring tile.
    Wrap,
}

/// One copy of the stroke; no entry for an axis leaves that axis alone.
#[derive(Debug)]
pub struct StrokeTwin {
    pub kind: EngineKind,
    pub x: Option<TwinAxis>,
    pub y: Option<TwinAxis>,
    /// A symmetric ruler's image in place of the axes, by the shell's name.
    pub xf: Option<u64>,
}

/// The stroke engine: the user's brush and the copies that draw with it.
#[derive(Debug)]
pub struct Engine {
    pub main: EngineKind,
    pub twins: Vec<StrokeTwin>,
    /// The diameter that a procedural brush had when it was made.
    pub base_px: u32,
}

/// The change that a setting makes of a copy.
pub open spec fn twin_with(s: Setting) -> spec_fn(StrokeTwin) -> StrokeTwin {
    |t: StrokeTwin| StrokeTwin { kind: t.kind.with(s), ..t }
}

impl Engine {
    /// Everything that draws has taken one change of a setting, and nothing else
    /// has changed.
    pub open spec fn told(self, before: Engine, s: Setting) -> bool {
        &&& self.main == before.main.with(s)
        &&& self.twins@ == before.twins@.map_values(twin_with(s))
        &&& self.base_px == before.base_px
    }

    /// Changes one setting of the brush and of every copy.
    fn each_kind(&mut self, s: Setting)
        ensures
            final(self).told(*old(self), s),
    {
        self.main.set(s);
        set_twins_to(&mut self.twins, s);
    }
}

fn set_twins_to(twins: &mut Vec<StrokeTwin>, s: Setting)
    ensures
        final(twins)@ == old(twins)@.map_values(twin_with(s)),
{
    let mut i: usize = 0;
    while i < twins.len()
        invariant
            i <= twins@.len(),
            twins@.len() == old(twins)@.len(),
            forall|k: int| 0 <= k < i ==> #[trigger] twins@[k] == twin_with(s)(old(twins)@[k]),
            forall|k: int| i <= k < twins@.len() ==> #[trigger] twins@[k] == old(twins)@[k],
        decreases twins@.len() - i,
    {
        let t = &mut twins[i];
        t.kind.set(s);
        i = i + 1;
    }
    assert(twins@ =~= old(twins)@.map_values(twin_with(s)));
}

impl Engine {
    /// Sends strokes to the layer mask.
    pub fn set_mask_mode_all(&mut self, on: bool)
        ensures
            final(self).told(*old(self), Setting::MaskMode(on)),
    {
        self.each_kind(Setting::MaskMode(on));
    }

    /// Sends strokes to the selection.
    pub fn set_sel_mode_all(&mut self, on: bool)
        ensures
            final(self).told(*old(self), Setting::SelMode(on)),
    {
        self.each_kind(Setting::SelMode(on));
    }

    /// Arms the barrier that dabs may not cross, or takes it down.
    pub fn set_anti_overflow_all(&mut self, m: Option<u64>)
        ensures
            final(self).told(*old(self), Setting::AntiOverflow(m)),
    {
        self.each_kind(Setting::AntiOverflow(m));
    }

    /// Says how dabs are recorded.
    pub fn set_dab_recording_all(&mut self, mode: u32)
        ensures
            final(self).told(*old(self), Setting::Recording(mode)),
    {
        self.each_kind(Setting::Recording(mode));
    }

    /// Makes the view known to the brushes whose dynamics go by speed and direction.
    pub fn set_view(&mut self, zoom: u32, rotation_rad: u32, flip_h: bool)
        ensures
            final(self).told(*old(self), (Setting::View(ViewPose { zoom, rotation: rotation_rad, flip_h }))),
    {
        self.each_kind(Setting::View(ViewPose { zoom, rotation: rotation_rad, flip_h }));
    }

    /// Sets the ink.
    pub fn set_color(&mut self, rgb: Ink)
        ensures
            final(self).told(*old(self), Setting::Ink(rgb)),
    {
        self.each_kind(Setting::Ink(rgb));
    }

    /// Sets the dab diameter in canvas pixels: a size, not a factor. `half` is half of it.
    pub fn set_size_px(&mut self, px: u32, half: u32)
        ensures
            final(self).told(*old(self), Setting::Size(px, half)),
    {
        self.each_kind(Setting::Size(px, half));
    }

    /// Erases instead of painting; a procedural brush cannot, and goes on painting.
    pub fn set_eraser(&mut self, on: bool)
        ensures
            final(self).told(*old(self), Setting::Eraser(on)),
    {
        self.each_kind(Setting::Eraser(on));
    }

    /// Sets the opacity of a dab.
    pub fn set_base_opacity(&mut self, o: u32)
        ensures
            final(self).told(*old(self), Setting::Opacity(o)),
    {
        self.each_kind(Setting::Opacity(o));
    }

    /// Sets the opacity of a dab inside a wash stroke.
    pub fn set_flow(&mut self, flow: u32)
        ensures
            final(self).told(*old(self), Setting::Opacity(flow)),
    {
        self.each_kind(Setting::Opacity(flow));
    }

    /// Sets the pressure floor of the size, in place of the preset's own curve.
    pub fn set_size_min_pct(&mut self, pct: u32)
        ensures
            final(self).told(*old(self), Setting::SizeMin(pct)),
    {
        self.each_kind(Setting::SizeMin(pct));
    }

    /// Sets the randomization of the brush size.
    pub fn set_randomization(&mut self, amount: u32, min_pct: u32, absolute_px: bool)
        ensures
            final(self).told(*old(self), (Setting::Random(Random { amount, min_pct, absolute: absolute_px }))),
    {
        self.each_kind(Setting::Random(Random { amount, min_pct, absolute: absolute_px }));
    }

    /// Stamps hard dabs.
    pub fn set_hard_dab(&mut self, on: bool)
        ensures
            final(self).told(*old(self), Setting::HardDab(on)),
    {
        self.each_kind(Setting::HardDab(on));
    }

    /// Scatters the dab centres by a part of the radius.
    pub fn set_scatter(&mut self, v: u32)
        ensures
            final(self).told(*old(self), Setting::Scatter(v)),
    {
        self.each_kind(Setting::Scatter(v));
    }

    /// Sets the dab spacing.
    pub fn set_interval(&mut self, interval: u64)
        ensures
            final(self).told(*old(self), Setting::Interval(interval)),
    {
        self.each_kind(Setting::Interval(interval));
    }

    /// Lets the density follow the gap.
    pub fn set_density_by_gap(&mut self, on: bool)
        ensures
            final(self).told(*old(self), Setting::DensityByGap(on)),
    {
        self.each_kind(Setting::DensityByGap(on));
    }

    /// Sets the level of the edge feather.
    pub fn set_anti_alias(&mut self, aa: u32)
        ensures
            final(self).told(*old(self), Setting::AntiAlias(aa)),
    {
        self.each_kind(Setting::AntiAlias(aa));
    }

    /// Collects strokes in a buffer that is committed at this opacity.
    pub fn set_wash(&mut self, on: bool, stroke_opacity: u32, blend: Blend)
        ensures
            final(self).told(*old(self), (Setting::Wash(Wash { on, opacity: stroke_opacity, blend }))),
    {
        self.each_kind(Setting::Wash(Wash { on, opacity: stroke_opacity, blend }));
    }

    /// Sets the opacity that a wash stroke is committed at.
    pub fn set_wash_opacity(&mut self, o: u32)
        ensures
            final(self).told(*old(self), Setting::WashOpacity(o)),
    {
        self.each_kind(Setting::WashOpacity(o));
    }

    /// Sets the blend mode that a wash stroke is committed with.
    pub fn set_wash_blend(&mut self, blend: Blend)
        ensures
            final(self).told(*old(self), Setting::WashBlend(blend)),
    {
        self.each_kind(Setting::WashBlend(blend));
    }

    /// Lets the texture crawl with each dab.
    pub fn set_texture_scroll(&mut self, px: u32)
        ensures
            final(self).told(*old(self), Setting::TextureScroll(px)),
    {
        self.each_kind(Setting::TextureScroll(px));
    }

    /// Links strokes back to their own history.
    pub fn set_sketch(&mut self, params: Option<SketchParams>)
        ensures
            final(self).told(*old(self), Setting::Sketch(params)),
    {
        self.each_kind(Setting::Sketch(params));
    }

    /// The diameter that the brush ships with: what a sub tool starts at.
    pub fn base_size_px(&self) -> (r: u32)
        ensures
            r == (match self.main {
                EngineKind::My(b) => b.reading.base_size,
                _ => self.base_px,
            }),
    {
        match &self.main {
            EngineKind::My(b) => b.reading.base_size,
            _ => self.base_px,
        }
    }

    /// The opacity of a dab.
    pub fn base_opacity(&self) -> (r: u32)
        ensures
            r == (match self.main {
                EngineKind::My(b) => b.sheet.opacity,
                _ => UNIT,
            }),
    {
        match &self.main {
            EngineKind::My(b) => b.sheet.opacity,
            _ => UNIT,
        }
    }

    /// The randomization of the brush size.
    pub fn randomization(&self) -> (r: Random)
        ensures
            r == (match self.main {
                EngineKind::My(b) => b.sheet.random,
                _ => Random { amount: 0, min_pct: 0, absolute: false },
            }),
    {
        match &self.main {
            EngineKind::My(b) => b.sheet.random,
            _ => Random { amount: 0, min_pct: 0, absolute: false },
        }
    }

    /// Are the dabs hard?
    pub fn hard_dab(&self) -> (r: bool)
        ensures
            r == (match self.main {
                EngineKind::My(b) => b.sheet.hard_dab,
                _ => false,
            }),
    {
        match &self.main {
            EngineKind::My(b) => b.sheet.hard_dab,
            _ => false,
        }
    }

    /// The tip mode that the shader goes by.
    pub fn hard_dab_main(&self) -> (r: bool)
        ensures
            r == (match self.main {
                EngineKind::My(b) => b.sheet.hard_dab,
                _ => false,
            }),
    {
        match &self.main {
            EngineKind::My(b) => b.sheet.hard_dab,
            _ => false,
        }
    }

    /// The scatter of the dab centres.
    pub fn scatter(&self) -> (r: u32)
        ensures
            r == (match self.main {
                EngineKind::My(b) => b.sheet.scatter,
                _ => 0,
            }),
    {
        match &self.main {
            EngineKind::My(b) => b.sheet.scatter,
            _ => 0,
        }
    }

    /// The gap between dabs; endless where nothing stamps by distance.
    pub fn dab_gap_px(&self) -> (r: u32)
        ensures
            r == (match self.main {
                EngineKind::My(b) => b.reading.gap,
                _ => NEVER,
            }),
    {
        match &self.main {
            EngineKind::My(b) => b.reading.gap,
            _ => NEVER,
        }
    }

    /// Does the density follow the gap?
    pub fn density_by_gap(&self) -> (r: bool)
        ensures
            r == (match self.main {
                EngineKind::My(b) => b.sheet.density_by_gap,
                _ => false,
            }),
    {
        match &self.main {
            EngineKind::My(b) => b.sheet.density_by_gap,
            _ => false,
        }
    }

    /// The edge feather that is enforced.
    pub fn anti_alias_px(&self) -> (r: u32)
        ensures
            r == (match self.main {
                EngineKind::My(b) => b.reading.feather,
                _ => 0,
            }),
    {
        match &self.main {
            EngineKind::My(b) => b.reading.feather,
            _ => 0,
        }
    }

    /// Do strokes collect in a wash buffer?
    pub fn wash(&self) -> (r: bool)
        ensures
            r == (match self.main {
                EngineKind::My(b) => b.sheet.wash.on,
                _ => false,
            }),
    {
        match &self.main {
            EngineKind::My(b) => b.sheet.wash.on,
            _ => false,
        }
    }

    /// Does the preset sample the canvas for each dab?
    pub fn smudge(&self) -> (r: bool)
        ensures
            r == (match self.main {
                EngineKind::My(b) => b.reading.smudge,
                _ => false,
            }),
    {
        match &self.main {
            EngineKind::My(b) => b.reading.smudge,
            _ => false,
        }
    }

    /// The opacity that a wash stroke is committed at.
    pub fn wash_opacity(&self) -> (r: u32)
        ensures
            r == (match self.main {
                EngineKind::My(b) => b.sheet.wash.opacity,
                _ => UNIT,
            }),
    {
        match &self.main {
            EngineKind::My(b) => b.sheet.wash.opacity,
            _ => UNIT,
        }
    }

    /// The blend mode that a wash stroke is committed with.
    pub fn wash_blend(&self) -> (r: Blend)
        ensures
            r == (match self.main {
                EngineKind::My(b) => b.sheet.wash.blend,
                _ => Blend::Normal,
            }),
    {
        match &self.main {
            EngineKind::My(b) => b.sheet.wash.blend,
            _ => Blend::Normal,
        }
    }

    /// How far the texture crawls with each dab.
    pub fn texture_scroll(&self) -> (r: u32)
        ensures
            r == (match self.main {
                EngineKind::My(b) => b.sheet.texture_scroll,
                _ => 0,
            }),
    {
        match &self.main {
            EngineKind::My(b) => b.sheet.texture_scroll,
            _ => 0,
        }
    }

    /// The links back to the stroke's own history.
    pub fn sketch(&self) -> (r: Option<SketchParams>)
        ensures
            r == (match self.main {
                EngineKind::My(b) => b.sheet.sketch,
                _ => None,
            }),
    {
        match &self.main {
            EngineKind::My(b) => b.sheet.sketch,
            _ => None,
        }
    }

    /// The entry taper that the preset carries.
    pub fn taper_hint(&self) -> (r: Option<(u32, u32)>)
        ensures
            r == (match self.main {
                EngineKind::My(b) => b.reading.taper,
                _ => None,
            }),
    {
        match &self.main {
            EngineKind::My(b) => b.reading.taper,
            _ => None,
        }
    }

    /// The pressure floor of the size in percent.
    pub fn size_min_pct(&self) -> (r: u32)
        ensures
            r == (match self.main {
                EngineKind::My(b) => b.reading.size_min_pct,
                _ => 0,
            }),
    {
        match &self.main {
            EngineKind::My(b) => b.reading.size_min_pct,
            _ => 0,
        }
    }

    /// Does the texture stamp with each dab?
    pub fn texture_anchor_dab(&self) -> (r: bool)
        ensures
            r == (match self.main {
                EngineKind::My(b) => b.reading.anchor_dab,
                _ => false,
            }),
    {
        match &self.main {
            EngineKind::My(b) => b.reading.anchor_dab,
            _ => false,
        }
    }

    /// The live wash buffer.
    pub fn wash_buffer(&self) -> (r: Option<u64>)
        ensures
            r == (match self.main {
                EngineKind::My(b) => b.wash_buffer,
                _ => None,
            }),
    {
        match &self.main {
            EngineKind::My(b) => b.wash_buffer,
            _ => None,
        }
    }
}

/// The radius that an engine draws with.
pub open spec fn radius_of(k: EngineKind) -> u32 {
    match k {
        EngineKind::My(b) => b.reading.radius,
        EngineKind::Dab(n) => n.reach,
        EngineKind::Grid(n) => n.reach,
        EngineKind::Hairy(n) => n.reach,
        EngineKind::Curve(n) => n.reach,
        EngineKind::Dyna(n) => n.reach,
    }
}

/// What the brush list and the overlay call an engine.
pub open spec fn name_of(k: EngineKind) -> Seq<char> {
    match k {
        EngineKind::My(b) => b.name@,
        EngineKind::Dab(_) => "simple dab (fallback)"@,
        EngineKind::Grid(_) => "grid dots"@,
        EngineKind::Hairy(_) => "hairy bristles"@,
        EngineKind::Curve(_) => "curve brush"@,
        EngineKind::Dyna(_) => "dyna spring"@,
    }
}

/// A brush whose dabs the graphics card can stamp.
pub open spec fn on_card(k: EngineKind) -> bool {
    k matches EngineKind::My(b) && b.reading.gpu_ready
}

fn card_takes(k: &EngineKind) -> (r: bool)
    ensures
        r == on_card(*k),
{
    match k {
        EngineKind::My(b) => b.reading.gpu_ready,
        _ => false,
    }
}

fn card_takes_all(twins: &Vec<StrokeTwin>) -> (r: bool)
    ensures
        r == (forall|k: int| 0 <= k < twins@.len() ==> on_card((#[trigger] twins@[k]).kind)),
{
    let mut i: usize = 0;
    while i < twins.len()
        invariant
            i <= twins@.len(),
            forall|k: int| 0 <= k < i ==> on_card((#[trigger] twins@[k]).kind),
        decreases twins@.len() - i,
    {
        if !card_takes(&twins[i].kind) {
            assert(!on_card(twins@[i as int].kind));
            return false;
        }
        i = i + 1;
    }
    true
}

/// Two masks that hold the same.
pub open spec fn same_mask(a: Option<TextureMask>, b: Option<TextureMask>) -> bool {
    match (a, b) {
        (Some(x), Some(y)) => x.name@ == y.name@ && x.size == y.size && x.data@ == y.data@,
        (None, None) => true,
        _ => false,
    }
}

fn copy_mask(m: &Option<TextureMask>) -> (r: Option<TextureMask>)
    ensures
        same_mask(r, *m),
{
    match m {
        Some(t) => {
            let data = t.data.clone();
            assert(data@ =~= t.data@);
            Some(TextureMask { name: t.name.clone(), size: t.size, data })
        },
        None => None,
    }
}

/// The first curve for this setting and input; no points where there is none.
pub open spec fn response(curves: Seq<Curve>, setting: i32, input: i32) -> Seq<Pt>
    decreases curves.len(),
{
    if curves.len() == 0 {
        seq![]
    } else if curves[0].setting == setting && curves[0].input == input {
        curves[0].points@
    } else {
        response(curves.skip(1), setting, input)
    }
}

/// Tool Property values. Numbers are bit patterns of 32-bit floats where
/// nothing else is said.
#[derive(Clone, Copy, PartialEq, Eq, Structural, Debug)]
pub struct ToolProps {
    pub size_px: u32,
    /// Half of the size.
    pub half: u32,
    pub opacity: u32,
    pub flow: u32,
    pub min_size: u32,
    pub random: Random,
    pub hard_dab: bool,
    pub scatter: u32,
    pub interval: u64,
    /// None leaves it as the preset ships it.
    pub density_by_gap: Option<bool>,
    pub anti_alias: u32,
    pub wash: bool,
    pub brush_blend: Blend,
    pub texture_scroll: u32,
    pub sketch: bool,
    pub sketch_params: SketchParams,
}

/// How far the sliders stand from what one brush reports of itself.
#[derive(Clone, Copy, PartialEq, Eq, Structural, Debug)]
pub struct Drift {
    /// The size floor by more than half a percent.
    pub min_size: bool,
    /// The randomization's amount by more than a thousandth, or its floor by
    /// more than half a percent.
    pub random: bool,
}

impl Sheet {
    /// The sheet under Tool Property values. What would replace a curve that the
    /// preset ships is written only where the slider was moved off the preset's
    /// own reading.
    pub open spec fn under(self, p: ToolProps, d: Drift) -> Sheet {
        Sheet {
            size: Some(p.size_px),
            opacity: if p.wash {
                p.flow
            } else {
                p.opacity
            },
            size_min: if d.min_size {
                Some(p.min_size)
            } else {
                self.size_min
            },
            random: if d.random || p.random.absolute != self.random.absolute {
                p.random
            } else {
                self.random
            },
            hard_dab: p.hard_dab,
            scatter: p.scatter,
            interval: p.interval,
            density_by_gap: match p.density_by_gap {
                Some(on) => on,
                None => self.density_by_gap,
            },
            anti_alias: p.anti_alias,
            wash: if p.wash {
                Wash { on: true, opacity: p.opacity, blend: p.brush_blend }
            } else {
                Wash { on: false, opacity: UNIT, blend: Blend::Normal }
            },
            texture_scroll: p.texture_scroll,
            sketch: if p.sketch {
                Some(p.sketch_params)
            } else {
                None
            },
            ..self
        }
    }

    fn apply(&mut self, p: &ToolProps, d: Drift)
        ensures
            *final(self) == old(self).under(*p, d),
            final(self).hard_dab == p.hard_dab,
            final(self).scatter == p.scatter,
            final(self).interval == p.interval,
            final(self).anti_alias == p.anti_alias,
            final(self).texture_scroll == p.texture_scroll,
    {
        self.set(Setting::Size(p.size_px, p.half));
        self.set(Setting::Opacity(if p.wash { p.flow } else { p.opacity }));
        if d.min_size {
            self.set(Setting::SizeMin(p.min_size));
        }
        if d.random || p.random.absolute != self.random.absolute {
            self.set(Setting::Random(p.random));
        }
        self.set(Setting::HardDab(p.hard_dab));
        self.set(Setting::Scatter(p.scatter));
        self.set(Setting::Interval(p.interval));
        if let Some(on) = p.density_by_gap {
            self.set(Setting::DensityByGap(on));
        }
        self.set(Setting::AntiAlias(p.anti_alias));
        if p.wash {
            self.set(Setting::Wash(Wash { on: true, opacity: p.opacity, blend: p.brush_blend }));
        } else {
            self.set(Setting::Wash(Wash { on: false, opacity: UNIT, blend: Blend::Normal }));
        }
        self.set(Setting::TextureScroll(p.texture_scroll));
        self.set(Setting::Sketch(if p.sketch { Some(p.sketch_params) } else { None }));
    }
}

impl EngineKind {
    /// The engine under Tool Property values; a procedural brush has no preset
    /// state and stays as it is.
    pub open spec fn applied(self, before: EngineKind, p: ToolProps, mask: Option<TextureMask>, d: Drift) -> bool {
        match before {
            EngineKind::My(b) => {
                &&& self is My
                &&& self->My_0 == (Brush { sheet: b.sheet.under(p, d), texture: self->My_0.texture, ..b })
                &&& same_mask(self->My_0.texture, mask)
            },
            _ => self == before,
        }
    }

    /// Takes over Tool Property values.
    pub fn apply_props(&mut self, p: &ToolProps, mask: &Option<TextureMask>, d: Drift)
        ensures
            final(self).applied(*old(self), *p, *mask, d),
            *old(self) is My ==> (*final(self) matches EngineKind::My(b) && {
                &&& b.sheet.size == Some(p.size_px)
                &&& b.sheet.hard_dab == p.hard_dab
                &&& b.sheet.scatter == p.scatter
                &&& b.sheet.interval == p.interval
                &&& b.sheet.anti_alias == p.anti_alias
                &&& b.sheet.texture_scroll == p.texture_scroll
                &&& b.sheet.wash.on == p.wash
            }),
    {
        match self {
            EngineKind::My(b) => {
                b.sheet.apply(p, d);
                b.texture = copy_mask(mask);
            },
            _ => {},
        }
    }

    /// The engine with another texture; only a MyPaint brush has one.
    pub open spec fn dressed(self, before: EngineKind, mask: Option<TextureMask>) -> bool {
        match before {
            EngineKind::My(b) => {
                &&& self is My
                &&& self->My_0 == (Brush { texture: self->My_0.texture, ..b })
                &&& same_mask(self->My_0.texture, mask)
            },
            _ => self == before,
        }
    }

    fn dress(&mut self, mask: &Option<TextureMask>)
        ensures
            final(self).dressed(*old(self), *mask),
    {
        match self {
            EngineKind::My(b) => {
                b.texture = copy_mask(mask);
            },
            _ => {},
        }
    }

    /// The dabs on record.
    pub open spec fn recorded(self) -> Seq<u64> {
        match self {
            EngineKind::My(b) => b.record@,
            _ => seq![],
        }
    }

    /// The engine with its record emptied.
    pub open spec fn drained(self, before: EngineKind) -> bool {
        match before {
            EngineKind::My(b) => {
                &&& self is My
                &&& self->My_0 == (Brush { record: self->My_0.record, ..b })
                &&& self->My_0.record@ == Seq::<u64>::empty()
            },
            _ => self == before,
        }
    }

    fn drain_into(&mut self, out: &mut Vec<u64>)
        ensures
            final(self).drained(*old(self)),
            final(out)@ == old(out)@ + old(self).recorded(),
    {
        match self {
            EngineKind::My(b) => {
                out.append(&mut b.record);
            },
            _ => {},
        }
        assert(out@ =~= old(out)@ + old(self).recorded());
    }

    /// The engine with another response of one setting to one input.
    pub open spec fn remapped(self, before: EngineKind, setting: i32, input: i32, points: Seq<Pt>) -> bool {
        match before {
            EngineKind::My(b) => {
                &&& self is My
                &&& self->My_0 == (Brush { curves: self->My_0.curves, ..b })
                &&& forall|s: i32, i: i32|
                    #[trigger] response(self->My_0.curves@, s, i) == if s == setting && i == input {
                        points
                    } else {
                        response(b.curves@, s, i)
                    }
            },
            _ => self == before,
        }
    }

    fn remap(&mut self, setting: i32, input: i32, points: &Vec<Pt>)
        ensures
            final(self).remapped(*old(self), setting, input, points@),
    {
        match self {
            EngineKind::My(b) => {
                set_curve(&mut b.curves, setting, input, points);
            },
            _ => {},
        }
    }
}

proof fn lemma_response_changed(a: Seq<Curve>, b: Seq<Curve>, k: int, s: i32, i: i32)
    requires
        0 <= k < a.len(),
        a.len() == b.len(),
        forall|j: int| 0 <= j < a.len() && j != k ==> a[j] == b[j],
        a[k].setting == b[k].setting,
        a[k].input == b[k].input,
        forall|j: int| 0 <= j < k ==> !((#[trigger] a[j]).setting == a[k].setting && a[j].input == a[k].input),
    ensures
        response(b, s, i) == if s == a[k].setting && i == a[k].input {
            b[k].points@
        } else {
            response(a, s, i)
        },
    decreases k,
{
    if k == 0 {
        assert(a.skip(1) =~= b.skip(1));
    } else {
        assert(a[0] == b[0]);
        assert forall|j: int| 0 <= j < k - 1 implies !((#[trigger] a.skip(1)[j]).setting == a.skip(1)[k - 1].setting
            && a.skip(1)[j].input == a.skip(1)[k - 1].input) by {
            assert(a.skip(1)[j] == a[j + 1]);
        }
        lemma_response_changed(a.skip(1), b.skip(1), k - 1, s, i);
    }
}

proof fn lemma_response_pushed(a: Seq<Curve>, c: Curve, s: i32, i: i32)
    requires
        forall|j: int| 0 <= j < a.len() ==> !((#[trigger] a[j]).setting == c.setting && a[j].input == c.input),
    ensures
        response(a.push(c), s, i) == if s == c.setting && i == c.input {
            c.points@
        } else {
            response(a, s, i)
        },
    decreases a.len(),
{
    if a.len() == 0 {
        reveal_with_fuel(response, 2);
        assert(a.push(c).skip(1) =~= a);
    } else {
        assert(a.push(c).skip(1) =~= a.skip(1).push(c));
        assert(a.push(c)[0] == a[0]);
        lemma_response_pushed(a.skip(1), c, s, i);
    }
}

fn set_curve(curves: &mut Vec<Curve>, setting: i32, input: i32, points: &Vec<Pt>)
    ensures
        forall|s: i32, i: i32|
            #[trigger] response(final(curves)@, s, i) == if s == setting && i == input {
                points@
            } else {
                response(old(curves)@, s, i)
            },
{
    let copy = points.clone();
    assert(copy@ =~= points@);
    let mut k: usize = 0;
    while k < curves.len()
        invariant
            k <= curves@.len(),
            curves@ == old(curves)@,
            forall|j: int| 0 <= j < k ==> !((#[trigger] curves@[j]).setting == setting && curves@[j].input == input),
        ensures
            curves@ == old(curves)@,
            k <= curves@.len(),
            forall|j: int| 0 <= j < k ==> !((#[trigger] curves@[j]).setting == setting && curves@[j].input == input),
            k < curves@.len() ==> curves@[k as int].setting == setting && curves@[k as int].input == input,
        decreases curves@.len() - k,
    {
        if curves[k].setting == setting && curves[k].input == input {
            break;
        }
        k = k + 1;
    }
    if k < curves.len() {
        curves[k].points = copy;
        proof {
            assert forall|s: i32, i: i32|
                #[trigger] response(curves@, s, i) == if s == setting && i == input {
                    points@
                } else {
                    response(old(curves)@, s, i)
                } by {
                lemma_response_changed(old(curves)@, curves@, k as int, s, i);
            }
        }
    } else {
        let c = Curve { setting, input, points: copy };
        curves.push(c);
        proof {
            assert forall|s: i32, i: i32|
                #[trigger] response(curves@, s, i) == if s == setting && i == input {
                    points@
                } else {
                    response(old(curves)@, s, i)
                } by {
                lemma_response_pushed(old(curves)@, c, s, i);
            }
        }
    }
}

fn find_curve(curves: &Vec<Curve>, setting: i32, input: i32) -> (r: Vec<Pt>)
    ensures
        r@ == response(curves@, setting, input),
{
    let mut i: usize = 0;
    assert(curves@.skip(0) =~= curves@);
    while i < curves.len()
        invariant
            i <= curves@.len(),
            response(curves@, setting, input) == response(curves@.skip(i as int), setting, input),
        decreases curves@.len() - i,
    {
        assert(curves@.skip(i as int)[0] == curves@[i as int]);
        assert(curves@.skip(i as int).skip(1) =~= curves@.skip(i + 1));
        if curves[i].setting == setting && curves[i].input == input {
            let r = curves[i].points.clone();
            assert(r@ =~= curves@[i as int].points@);
            return r;
        }
        i = i + 1;
    }
    Vec::new()
}

/// The dabs that the copies have on record, one copy behind the other.
pub open spec fn twin_records(twins: Seq<StrokeTwin>) -> Seq<u64>
    decreases twins.len(),
{
    if twins.len() == 0 {
        seq![]
    } else {
        twin_records(twins.drop_last()) + twins.last().kind.recorded()
    }
}

fn drain_twins(twins: &mut Vec<StrokeTwin>, out: &mut Vec<u64>)
    ensures
        final(out)@ == old(out)@ + twin_records(old(twins)@),
        final(twins)@.len() == old(twins)@.len(),
        forall|k: int|
            0 <= k < old(twins)@.len() ==> {
                &&& #[trigger] final(twins)@[k] == (StrokeTwin { kind: final(twins)@[k].kind, ..old(twins)@[k] })
                &&& final(twins)@[k].kind.drained(old(twins)@[k].kind)
            },
{
    let mut i: usize = 0;
    assert(old(twins)@.take(0) =~= seq![]);
    assert(out@ =~= old(out)@ + twin_records(old(twins)@.take(0)));
    while i < twins.len()
        invariant
            i <= twins@.len(),
            twins@.len() == old(twins)@.len(),
            out@ == old(out)@ + twin_records(old(twins)@.take(i as int)),
            forall|k: int|
                0 <= k < i ==> {
                    &&& #[trigger] twins@[k] == (StrokeTwin { kind: twins@[k].kind, ..old(twins)@[k] })
                    &&& twins@[k].kind.drained(old(twins)@[k].kind)
                },
            forall|k: int| i <= k < twins@.len() ==> #[trigger] twins@[k] == old(twins)@[k],
        decreases twins@.len() - i,
    {
        assert(old(twins)@.take(i + 1).drop_last() =~= old(twins)@.take(i as int));
        assert(old(twins)@.take(i + 1).last() == old(twins)@[i as int]);
        let t = &mut twins[i];
        t.kind.drain_into(out);
        i = i + 1;
        assert(out@ =~= old(out)@ + twin_records(old(twins)@.take(i as int)));
    }
    assert(old(twins)@.take(i as int) =~= old(twins)@);
}

fn dress_twins(twins: &mut Vec<StrokeTwin>, mask: &Option<TextureMask>)
    ensures
        final(twins)@.len() == old(twins)@.len(),
        forall|k: int|
            0 <= k < old(twins)@.len() ==> {
                &&& #[trigger] final(twins)@[k] == (StrokeTwin { kind: final(twins)@[k].kind, ..old(twins)@[k] })
                &&& final(twins)@[k].kind.dressed(old(twins)@[k].kind, *mask)
            },
{
    let mut i: usize = 0;
    while i < twins.len()
        invariant
            i <= twins@.len(),
            twins@.len() == old(twins)@.len(),
            forall|k: int|
                0 <= k < i ==> {
                    &&& #[trigger] twins@[k] == (StrokeTwin { kind: twins@[k].kind, ..old(twins)@[k] })
                    &&& twins@[k].kind.dressed(old(twins)@[k].kind, *mask)
                },
            forall|k: int| i <= k < twins@.len() ==> #[trigger] twins@[k] == old(twins)@[k],
        decreases twins@.len() - i,
    {
        let t = &mut twins[i];
        t.kind.dress(mask);
        i = i + 1;
    }
}

fn remap_twins(twins: &mut Vec<StrokeTwin>, setting: i32, input: i32, points: &Vec<Pt>)
    ensures
        final(twins)@.len() == old(twins)@.len(),
        forall|k: int|
            0 <= k < old(twins)@.len() ==> {
                &&& #[trigger] final(twins)@[k] == (StrokeTwin { kind: final(twins)@[k].kind, ..old(twins)@[k] })
                &&& final(twins)@[k].kind.remapped(old(twins)@[k].kind, setting, input, points@)
            },
{
    let mut i: usize = 0;
    while i < twins.len()
        invariant
            i <= twins@.len(),
            twins@.len() == old(twins)@.len(),
            forall|k: int|
                0 <= k < i ==> {
                    &&& #[trigger] twins@[k] == (StrokeTwin { kind: twins@[k].kind, ..old(twins)@[k] })
                    &&& twins@[k].kind.remapped(old(twins)@[k].kind, setting, input, points@)
                },
            forall|k: int| i <= k < twins@.len() ==> #[trigger] twins@[k] == old(twins)@[k],
        decreases twins@.len() - i,
    {
        let t = &mut twins[i];
        t.kind.remap(setting, input, points);
        i = i + 1;
    }
}

fn apply_twins(twins: &mut Vec<StrokeTwin>, p: &ToolProps, mask: &Option<TextureMask>, drifts: &Vec<Drift>)
    requires
        drifts@.len() == old(twins)@.len() + 1,
    ensures
        final(twins)@.len() == old(twins)@.len(),
        forall|k: int|
            0 <= k < old(twins)@.len() ==> {
                &&& #[trigger] final(twins)@[k] == (StrokeTwin { kind: final(twins)@[k].kind, ..old(twins)@[k] })
                &&& final(twins)@[k].kind.applied(old(twins)@[k].kind, *p, *mask, drifts@[k + 1])
            },
{
    let mut i: usize = 0;
    while i < twins.len()
        invariant
            i <= twins@.len(),
            twins@.len() == old(twins)@.len(),
            drifts.len() == twins@.len() + 1,
            forall|k: int|
                0 <= k < i ==> {
                    &&& #[trigger] twins@[k] == (StrokeTwin { kind: twins@[k].kind, ..old(twins)@[k] })
                    &&& twins@[k].kind.applied(old(twins)@[k].kind, *p, *mask, drifts@[k + 1])
                },
            forall|k: int| i <= k < twins@.len() ==> #[trigger] twins@[k] == old(twins)@[k],
        decreases twins@.len() - i,
    {
        let d = drifts[i + 1];
        let t = &mut twins[i];
        t.kind.apply_props(p, mask, d);
        i = i + 1;
    }
}

impl Engine {
    /// An engine without copies, and the diameter that it has.
    pub fn new(kind: EngineKind, base_px: u32) -> (r: Engine)
        ensures
            r.main == kind,
            r.twins@ == Seq::<StrokeTwin>::empty(),
            r.base_px == base_px,
    {
        Engine { main: kind, twins: Vec::new(), base_px }
    }

    /// The user's own engine.
    pub fn kind(&self) -> (r: &EngineKind)
        ensures
            *r == self.main,
    {
        &self.main
    }

    /// Swaps the whole set of copies; an empty set is plain painting.
    pub fn set_twins(&mut self, twins: Vec<StrokeTwin>)
        ensures
            *final(self) == (Engine { twins, ..*old(self) }),
    {
        self.twins = twins;
    }

    /// Takes over Tool Property values, on the brush and on every copy. The
    /// drifts are those of the brush and of each copy in turn.
    pub fn apply_props_all(&mut self, p: &ToolProps, mask: &Option<TextureMask>, drifts: &Vec<Drift>)
        requires
            drifts@.len() == old(self).twins@.len() + 1,
        ensures
            final(self).base_px == old(self).base_px,
            final(self).main.applied(old(self).main, *p, *mask, drifts@[0]),
            final(self).twins@.len() == old(self).twins@.len(),
            forall|k: int|
                0 <= k < old(self).twins@.len() ==> {
                    &&& #[trigger] final(self).twins@[k] == (StrokeTwin {
                        kind: final(self).twins@[k].kind,
                        ..old(self).twins@[k]
                    })
                    &&& final(self).twins@[k].kind.applied(old(self).twins@[k].kind, *p, *mask, drifts@[k + 1])
                },
    {
        self.main.apply_props(p, mask, drifts[0]);
        apply_twins(&mut self.twins, p, mask, drifts);
    }

    /// What the overlay calls the brush.
    pub fn name(&self) -> (r: &str)
        ensures
            r@ == name_of(self.main),
    {
        match &self.main {
            EngineKind::My(b) => b.name.as_str(),
            EngineKind::Dab(_) => "simple dab (fallback)",
            EngineKind::Grid(_) => "grid dots",
            EngineKind::Hairy(_) => "hairy bristles",
            EngineKind::Curve(_) => "curve brush",
            EngineKind::Dyna(_) => "dyna spring",
        }
    }

    /// The dab radius in canvas pixels.
    pub fn radius_px(&self) -> (r: u32)
        ensures
            r == radius_of(self.main),
    {
        match &self.main {
            EngineKind::My(b) => b.reading.radius,
            EngineKind::Dab(n) => n.reach,
            EngineKind::Grid(n) => n.reach,
            EngineKind::Hairy(n) => n.reach,
            EngineKind::Curve(n) => n.reach,
            EngineKind::Dyna(n) => n.reach,
        }
    }

    /// The answer whether the stroke goes to the graphics card.
    pub open spec fn card_ready(self, r: bool) -> bool {
        &&& r == {
            &&& on_card(self.main)
            &&& forall|k: int| 0 <= k < self.twins@.len() ==> on_card((#[trigger] self.twins@[k]).kind)
            &&& !((self.main matches EngineKind::My(b) && b.sheet.wash.on) && self.twins@.len() > 0)
        }
    }

    /// Does the stroke go to the graphics card? Everything that draws must be
    /// ready for it; a wash stroke goes there only without copies, since each
    /// copy commits a buffer of its own.
    pub fn gpu_dab_ready(&self) -> (r: bool)
        ensures
            self.card_ready(r),
    {
        if self.wash() && self.twins.len() > 0 {
            return false;
        }
        card_takes(&self.main) && card_takes_all(&self.twins)
    }

    /// The brush's texture; the copies share it.
    pub fn texture_mask(&self) -> (r: Option<&TextureMask>)
        ensures
            match self.main {
                EngineKind::My(b) => match b.texture {
                    Some(m) => r == Some(&m),
                    None => r is None,
                },
                _ => r is None,
            },
    {
        match &self.main {
            EngineKind::My(b) => match &b.texture {
                Some(m) => Some(m),
                None => None,
            },
            _ => None,
        }
    }

    /// What every consumer of dabs takes of the texture: the mask, its size and
    /// whether it stamps with each dab.
    pub fn texture_flush(&self) -> (r: Option<(&[u8], u32, bool)>)
        ensures
            match self.main {
                EngineKind::My(b) => match b.texture {
                    Some(m) => r matches Some(f) && f.0@ == m.data@ && f.1 == m.size && f.2 == b.reading.anchor_dab,
                    None => r is None,
                },
                _ => r is None,
            },
    {
        match self.texture_mask() {
            Some(m) => Some((m.data.as_slice(), m.size, self.texture_anchor_dab())),
            None => None,
        }
    }

    /// The texture's name.
    pub fn texture_name(&self) -> (r: Option<&str>)
        ensures
            match self.main {
                EngineKind::My(b) => match b.texture {
                    Some(m) => r matches Some(n) && n@ == m.name@,
                    None => r is None,
                },
                _ => r is None,
            },
    {
        match self.texture_mask() {
            Some(m) => Some(m.name.as_str()),
            None => None,
        }
    }

    /// Gives the brush and every copy a texture, or takes it away.
    pub fn set_texture_mask(&mut self, mask: &Option<TextureMask>)
        ensures
            final(self).base_px == old(self).base_px,
            final(self).main.dressed(old(self).main, *mask),
            final(self).twins@.len() == old(self).twins@.len(),
            forall|k: int|
                0 <= k < old(self).twins@.len() ==> {
                    &&& #[trigger] final(self).twins@[k] == (StrokeTwin {
                        kind: final(self).twins@[k].kind,
                        ..old(self).twins@[k]
                    })
                    &&& final(self).twins@[k].kind.dressed(old(self).twins@[k].kind, *mask)
                },
    {
        self.main.dress(mask);
        dress_twins(&mut self.twins, mask);
    }

    /// What a wash stroke is committed with: its opacity, its blend mode and
    /// whether it erases.
    pub fn wash_commit_params(&self) -> (r: (u32, Blend, bool))
        ensures
            r == (match self.main {
                EngineKind::My(b) => (b.sheet.wash.opacity, b.sheet.wash.blend, b.sheet.eraser),
                _ => (UNIT, Blend::Normal, false),
            }),
    {
        match &self.main {
            EngineKind::My(b) => (b.sheet.wash.opacity, b.sheet.wash.blend, b.sheet.eraser),
            _ => (UNIT, Blend::Normal, false),
        }
    }

    /// Drops the brush's wash buffer, so that none outlives its stroke.
    pub fn take_wash_buffer(&mut self)
        ensures
            final(self).twins == old(self).twins,
            final(self).base_px == old(self).base_px,
            final(self).main == (match old(self).main {
                EngineKind::My(b) => EngineKind::My(Brush { wash_buffer: None, ..b }),
                k => k,
            }),
    {
        match &mut self.main {
            EngineKind::My(b) => {
                b.wash_buffer = None;
            },
            _ => {},
        }
    }

    /// Takes every dab off the records: the brush's own first, behind them those
    /// of each copy.
    pub fn drain_dab_records(&mut self) -> (r: Vec<u64>)
        ensures
            r@ == old(self).main.recorded() + twin_records(old(self).twins@),
            final(self).base_px == old(self).base_px,
            final(self).main.drained(old(self).main),
            final(self).twins@.len() == old(self).twins@.len(),
            forall|k: int|
                0 <= k < old(self).twins@.len() ==> {
                    &&& #[trigger] final(self).twins@[k] == (StrokeTwin {
                        kind: final(self).twins@[k].kind,
                        ..old(self).twins@[k]
                    })
                    &&& final(self).twins@[k].kind.drained(old(self).twins@[k].kind)
                },
    {
        let mut out: Vec<u64> = Vec::new();
        self.main.drain_into(&mut out);
        assert(out@ =~= old(self).main.recorded());
        drain_twins(&mut self.twins, &mut out);
        out
    }

    /// The response of one setting to one input; no points where it has none.
    pub fn mapping(&self, setting_id: i32, input_id: i32) -> (r: Vec<Pt>)
        ensures
            r@ == (match self.main {
                EngineKind::My(b) => response(b.curves@, setting_id, input_id),
                _ => seq![],
            }),
    {
        match &self.main {
            EngineKind::My(b) => find_curve(&b.curves, setting_id, input_id),
            _ => Vec::new(),
        }
    }

    /// Sets the response of one setting to one input.
    pub fn set_mapping(&mut self, setting_id: i32, input_id: i32, points: &Vec<Pt>)
        ensures
            final(self).base_px == old(self).base_px,
            final(self).main.remapped(old(self).main, setting_id, input_id, points@),
            final(self).twins@.len() == old(self).twins@.len(),
            forall|k: int|
                0 <= k < old(self).twins@.len() ==> {
                    &&& #[trigger] final(self).twins@[k] == (StrokeTwin {
                        kind: final(self).twins@[k].kind,
                        ..old(self).twins@[k]
                    })
                    &&& final(self).twins@[k].kind.remapped(
                        old(self).twins@[k].kind,
                        setting_id,
                        input_id,
                        points@,
                    )
                },
    {
        self.main.remap(setting_id, input_id, points);
        remap_twins(&mut self.twins, setting_id, input_id, points);
    }

    /// Where a sample lands: as it is on the brush, and moved on each copy in
    /// turn. `at` and `mid` are the sample and the middle of the canvas.
    pub fn sample(&self, at: (u32, u32), mid: (u32, u32)) -> (r: Vec<Image>)
        ensures
            r@ == seq![Image::Plain] + self.twins@.map_values(image_at(at, mid)),
    {
        let mut out: Vec<Image> = vec![Image::Plain];
        let mut i: usize = 0;
        assert(self.twins@.take(0).map_values(image_at(at, mid)) =~= seq![]);
        assert(out@ =~= seq![Image::Plain] + self.twins@.take(0).map_values(image_at(at, mid)));
        while i < self.twins.len()
            invariant
                i <= self.twins@.len(),
                out@ == seq![Image::Plain] + self.twins@.take(i as int).map_values(image_at(at, mid)),
            decreases self.twins@.len() - i,
        {
            let t = &self.twins[i];
            let m = match t.xf {
                Some(x) => Image::Ruler(x),
                None => Image::Axes(along(t.x, floats::is_at_most(mid.0, at.0)), along(t.y, floats::is_at_most(mid.1, at.1))),
            };
            out.push(m);
            i = i + 1;
            assert(out@ =~= seq![Image::Plain] + self.twins@.take(i as int).map_values(image_at(at, mid)));
        }
        assert(self.twins@.take(i as int) =~= self.twins@);
        out
    }
}

/// How one coordinate of a copy comes from the sample's.
#[derive(Clone, Copy, PartialEq, Eq, Structural, Debug)]
pub enum Along {
    Stay,
    /// Mirrored in the middle.
    Mirror,
    /// Ahead by the canvas' size.
    Ahead,
    /// Back by the canvas' size.
    Back,
}

/// Where a sample lands.
#[derive(Clone, Copy, PartialEq, Eq, Structural, Debug)]
pub enum Image {
    Plain,
    Axes(Along, Along),
    /// Under a symmetric ruler's image, by the shell's name.
    Ruler(u64),
}

/// A sample in the far half wraps back, one in the near half ahead.
pub open spec fn moved_along(axis: Option<TwinAxis>, far: bool) -> Along {
    match axis {
        None => Along::Stay,
        Some(TwinAxis::Mirror) => Along::Mirror,
        Some(TwinAxis::Wrap) => if far {
            Along::Back
        } else {
            Along::Ahead
        },
    }
}

/// Where a copy puts a sample.
pub open spec fn image_at(at: (u32, u32), mid: (u32, u32)) -> spec_fn(StrokeTwin) -> Image {
    |t: StrokeTwin|
        match t.xf {
            Some(x) => Image::Ruler(x),
            None => Image::Axes(moved_along(t.x, floats::at_most(mid.0, at.0)), moved_along(t.y, floats::at_most(mid.1, at.1))),
        }
}

fn along(axis: Option<TwinAxis>, far: bool) -> (r: Along)
    ensures
        r == moved_along(axis, far),
{
    match axis {
        None => Along::Stay,
        Some(TwinAxis::Mirror) => Along::Mirror,
        Some(TwinAxis::Wrap) => if far {
            Along::Back
        } else {
            Along::Ahead
        },
    }
}

/// One image of a stroke under a symmetric ruler with n lines: turned by k full
/// turns over n, or mirrored in the line that lies k half turns over n from the
/// first.
#[derive(Clone, Copy, PartialEq, Eq, Structural, Debug)]
pub enum Symmetry {
    Turn(u32),
    Flip(u32),
}

/// The images of a stroke under n lines: every turn but the one that changes
/// nothing, and a mirror image in each line.
pub open spec fn images(n: int) -> Seq<Symmetry> {
    Seq::new(
        (2 * n - 1) as nat,
        |i: int|
            if i < n - 1 {
                Symmetry::Turn((i + 1) as u32)
            } else {
                Symmetry::Flip((i - (n - 1)) as u32)
            },
    )
}

/// The images of a stroke under a symmetric ruler; a ruler without lines counts
/// as one with one. The stroke itself is the brush's own and not among them.
pub fn symmetric_affines(lines: u32) -> (r: Vec<Symmetry>)
    requires
        lines <= 0x3fff_ffff,
    ensures
        r@ == images(if lines == 0 { 1 } else { lines as int }),
{
    let n: u32 = if lines == 0 { 1 } else { lines };
    let mut out: Vec<Symmetry> = Vec::new();
    let mut k: u32 = 1;
    while k < n
        invariant
            1 <= k <= n,
            n <= 0x3fff_ffff,
            out@ =~= images(n as int).take(k - 1),
        decreases n - k,
    {
        out.push(Symmetry::Turn(k));
        k = k + 1;
    }
    let mut j: u32 = 0;
    while j < n
        invariant
            j <= n,
            1 <= n <= 0x3fff_ffff,
            out@ =~= images(n as int).take(n - 1 + j),
        decreases n - j,
    {
        out.push(Symmetry::Flip(j));
        j = j + 1;
    }
    assert(images(n as int).take(2 * n - 1) =~= images(n as int));
    out
}

/// App-side state of a stroke on the graphics card.
#[derive(Debug)]
pub struct DabStrokeApp {
    /// Every dab of the stroke, by the shell's names: what a repair starts from.
    pub all_dabs: Vec<u64>,
    pub hard: bool,
    pub flushes: u32,
    pub wash: bool,
    pub smudge: bool,
}

/// Setting a size, or anything else, twice is setting it once.
pub proof fn law_twice_is_once(k: EngineKind, s: Setting)
    ensures
        k.with(s).with(s) == k.with(s),
{
}

/// A copy is always the same brush with the same settings: whatever is changed
/// on the engine, a copy that agreed with the brush still does.
pub proof fn law_copies_agree(before: Engine, after: Engine, s: Setting, k: int)
    requires
        after.told(before, s),
        0 <= k < before.twins@.len(),
        before.main is My,
        before.twins@[k].kind is My,
        before.twins@[k].kind->My_0.sheet == before.main->My_0.sheet,
    ensures
        after.main is My,
        after.twins@[k].kind is My,
        after.twins@[k].kind->My_0.sheet == after.main->My_0.sheet,
{
    assert(after.twins@[k] == twin_with(s)(before.twins@[k]));
}

/// Tool Property values that were taken over once change nothing when they are
/// taken over again.
pub proof fn law_props_settle(sheet: Sheet, p: ToolProps, d: Drift, again: Drift)
    requires
        d.min_size || !again.min_size,
        d.random || !again.random,
    ensures
        sheet.under(p, d).under(p, again) == sheet.under(p, d),
{
}

/// A preset's own size curve stands until the slider is moved off its reading.
pub proof fn law_preset_curve_stands(sheet: Sheet, p: ToolProps, d: Drift)
    requires
        !d.min_size,
    ensures
        sheet.under(p, d).size_min == sheet.size_min,
{
}

/// The images under n lines are 2n - 1, no two alike, and none of them is the
/// stroke itself.
pub proof fn law_images_differ(n: int, i: int, j: int)
    requires
        1 <= n <= 0x3fff_ffff,
        0 <= i < j < images(n).len(),
    ensures
        images(n).len() == 2 * n - 1,
        images(n)[i] != images(n)[j],
        images(n)[i] matches Symmetry::Turn(k) ==> 0 < k < n,
        images(n)[j] matches Symmetry::Turn(k) ==> 0 < k < n,
{
}

/// Tool Property values land each on the field of its own name. A wash keeps the
/// opacity for the stroke and gives the dab the flow; without one the opacity is
/// the dab's. What the sheet holds besides stays.
pub proof fn law_props_land_on_their_fields(
    before: EngineKind,
    after: EngineKind,
    p: ToolProps,
    mask: Option<TextureMask>,
    d: Drift,
)
    requires
        after.applied(before, p, mask, d),
        before is My,
    ensures
        after is My,
        ({
            let was = before->My_0.sheet;
            let now = after->My_0.sheet;
            &&& now.size == Some(p.size_px)
            &&& now.hard_dab == p.hard_dab
            &&& now.scatter == p.scatter
            &&& now.interval == p.interval
            &&& now.anti_alias == p.anti_alias
            &&& now.texture_scroll == p.texture_scroll
            &&& now.opacity == (if p.wash { p.flow } else { p.opacity })
            &&& now.wash.on == p.wash
            &&& p.wash ==> now.wash.opacity == p.opacity && now.wash.blend == p.brush_blend
            &&& !p.wash ==> now.wash.opacity == UNIT && now.wash.blend == Blend::Normal
            &&& now.sketch is Some == p.sketch
            &&& p.sketch ==> now.sketch == Some(p.sketch_params)
            &&& d.min_size ==> now.size_min == Some(p.min_size)
            &&& !d.min_size ==> now.size_min == was.size_min
            &&& d.random ==> now.random == p.random
            &&& !d.random ==> now.random.absolute == p.random.absolute
            &&& !d.random && p.random.absolute == was.random.absolute ==> now.random == was.random
            &&& p.density_by_gap matches Some(on) ==> now.density_by_gap == on
            &&& p.density_by_gap is None ==> now.density_by_gap == was.density_by_gap
            &&& now.mask_mode == was.mask_mode
            &&& now.sel_mode == was.sel_mode
            &&& now.anti_overflow == was.anti_overflow
            &&& now.recording == was.recording
            &&& now.view == was.view
            &&& now.ink == was.ink
            &&& now.eraser == was.eraser
        }),
        after->My_0.texture is Some == mask is Some,
        mask matches Some(m) ==> after->My_0.texture->0.data@ == m.data@ && after->My_0.texture->0.size == m.size
            && after->My_0.texture->0.name@ == m.name@,
        after->My_0.name == before->My_0.name,
        after->My_0.reading == before->My_0.reading,
        after->My_0.curves == before->My_0.curves,
        after->My_0.record == before->My_0.record,
        after->My_0.wash_buffer == before->My_0.wash_buffer,
{
}

/// Only a MyPaint brush takes Tool Property values, a texture or a response
/// curve; only it has dabs on record.
pub proof fn law_a_procedural_brush_has_no_preset(
    before: EngineKind,
    after: EngineKind,
    p: ToolProps,
    mask: Option<TextureMask>,
    d: Drift,
    setting: i32,
    input: i32,
    points: Seq<Pt>,
)
    requires
        !(before is My),
    ensures
        after.applied(before, p, mask, d) ==> after == before,
        after.dressed(before, mask) ==> after == before,
        after.remapped(before, setting, input, points) ==> after == before,
        after.drained(before) ==> after == before,
        before.recorded().len() == 0,
        !on_card(before),
{
}

/// One setting changes its own field of a MyPaint brush, to its own value, and
/// no other.
pub proof fn law_a_setting_changes_its_own_field(before: EngineKind, s: Setting)
    requires
        before is My,
    ensures
        before.with(s) is My,
        before.with(s)->My_0 == (Brush { sheet: before.with(s)->My_0.sheet, ..before->My_0 }),
        ({
            let was = before->My_0.sheet;
            let now = before.with(s)->My_0.sheet;
            &&& now.mask_mode == (if s is MaskMode { s->MaskMode_0 } else { was.mask_mode })
            &&& now.sel_mode == (if s is SelMode { s->SelMode_0 } else { was.sel_mode })
            &&& now.anti_overflow == (if s is AntiOverflow { s->AntiOverflow_0 } else { was.anti_overflow })
            &&& now.recording == (if s is Recording { s->Recording_0 } else { was.recording })
            &&& now.view == (if s is View { s->View_0 } else { was.view })
            &&& now.ink == (if s is Ink { s->Ink_0 } else { was.ink })
            &&& now.size == (if s is Size { Some(s->Size_0) } else { was.size })
            &&& now.eraser == (if s is Eraser { s->Eraser_0 } else { was.eraser })
            &&& now.opacity == (if s is Opacity { s->Opacity_0 } else { was.opacity })
            &&& now.size_min == (if s is SizeMin { Some(s->SizeMin_0) } else { was.size_min })
            &&& now.random == (if s is Random { s->Random_0 } else { was.random })
            &&& now.hard_dab == (if s is HardDab { s->HardDab_0 } else { was.hard_dab })
            &&& now.scatter == (if s is Scatter { s->Scatter_0 } else { was.scatter })
            &&& now.interval == (if s is Interval { s->Interval_0 } else { was.interval })
            &&& now.density_by_gap == (if s is DensityByGap { s->DensityByGap_0 } else { was.density_by_gap })
            &&& now.anti_alias == (if s is AntiAlias { s->AntiAlias_0 } else { was.anti_alias })
            &&& now.texture_scroll == (if s is TextureScroll { s->TextureScroll_0 } else { was.texture_scroll })
            &&& now.sketch == (if s is Sketch { s->Sketch_0 } else { was.sketch })
            &&& now.wash.on == (if s is Wash { s->Wash_0.on } else { was.wash.on })
            &&& now.wash.opacity == (if s is Wash { s->Wash_0.opacity } else if s is WashOpacity {
                s->WashOpacity_0
            } else {
                was.wash.opacity
            })
            &&& now.wash.blend == (if s is Wash { s->Wash_0.blend } else if s is WashBlend {
                s->WashBlend_0
            } else {
                was.wash.blend
            })
        }),
{
}

/// The nib of a procedural brush.
pub open spec fn nib_of(k: EngineKind) -> Nib {
    match k {
        EngineKind::My(_) => arbitrary(),
        EngineKind::Dab(n) => n,
        EngineKind::Grid(n) => n,
        EngineKind::Hairy(n) => n,
        EngineKind::Curve(n) => n,
        EngineKind::Dyna(n) => n,
    }
}

/// A procedural brush takes an ink, a barrier and a size; any other setting
/// leaves it as it is. It stays of its make, and keeps its smallest radius.
pub proof fn law_a_procedural_brush_takes_three_settings(k: EngineKind, s: Setting)
    requires
        !(k is My),
    ensures
        !(k.with(s) is My),
        k is Dab == k.with(s) is Dab,
        k is Grid == k.with(s) is Grid,
        k is Hairy == k.with(s) is Hairy,
        k is Curve == k.with(s) is Curve,
        k is Dyna == k.with(s) is Dyna,
        nib_of(k.with(s)).ink == (if s is Ink { s->Ink_0 } else { nib_of(k).ink }),
        nib_of(k.with(s)).mask == (if s is AntiOverflow { s->AntiOverflow_0 } else { nib_of(k).mask }),
        nib_of(k.with(s)).ratio == nib_of(k).ratio,
        !(s is Size) ==> nib_of(k.with(s)).reach == nib_of(k).reach,
{
}

/// A size reaches a procedural brush as half its diameter wherever that lies
/// between the brush's bounds: 2 and 512 for the grid, 1 and 512 for the
/// bristles, 2 and 1024 for the curve, and no less than the smallest radius for
/// the dab and the spring. Outside them the size is the nearer bound. No number
/// is the smallest.
pub proof fn law_a_size_stays_in_its_bounds(k: EngineKind, px: u32, half: u32)
    requires
        !(k is My),
    ensures
        ({
            let lo: u32 = if k is Grid || k is Curve {
                0x4000_0000
            } else if k is Hairy {
                0x3f80_0000
            } else {
                0x38d1_b717
            };
            let hi: u32 = if k is Grid || k is Hairy {
                0x4400_0000
            } else if k is Curve {
                0x4480_0000
            } else {
                0x7f80_0000
            };
            let got = nib_of(k.with(Setting::Size(px, half))).reach;
            &&& floats::at_most(lo, got)
            &&& floats::at_most(got, hi)
            &&& floats::at_most(lo, half) && floats::at_most(half, hi) ==> got == half
            &&& floats::below(half, lo) ==> got == lo
            &&& floats::below(hi, half) ==> got == hi
            &&& floats::nan(half) ==> got == lo
        }),
{
}

/// Everything that draws takes a setting: the brush, and each copy in its place,
/// which keeps how it moves.
pub proof fn law_every_copy_is_told(before: Engine, after: Engine, s: Setting, k: int)
    requires
        after.told(before, s),
        0 <= k < before.twins@.len(),
    ensures
        after.twins@.len() == before.twins@.len(),
        after.twins@[k].x == before.twins@[k].x,
        after.twins@[k].y == before.twins@[k].y,
        after.twins@[k].xf == before.twins@[k].xf,
        after.base_px == before.base_px,
        before.main == before.twins@[k].kind ==> after.main == after.twins@[k].kind,
        s matches Setting::Eraser(on) ==> before.twins@[k].kind is My ==> after.twins@[k].kind->My_0.sheet.eraser == on,
        s matches Setting::Ink(c) ==> before.main is My ==> after.main->My_0.sheet.ink == c,
{
}

/// A sample is mirrored along a mirrored axis, moves by the canvas along a
/// wrapped one, towards the middle, and stays along any other. A ruler's image
/// goes before both.
pub proof fn law_a_copy_moves_by_its_axes(t: StrokeTwin, at: (u32, u32), mid: (u32, u32))
    ensures
        t.xf matches Some(x) ==> image_at(at, mid)(t) == Image::Ruler(x),
        t.xf is None ==> (image_at(at, mid)(t) matches Image::Axes(x, y) && {
            &&& x is Stay == t.x is None
            &&& y is Stay == t.y is None
            &&& x is Mirror == (t.x == Some(TwinAxis::Mirror))
            &&& y is Mirror == (t.y == Some(TwinAxis::Mirror))
            &&& t.x == Some(TwinAxis::Wrap) && floats::at_most(mid.0, at.0) ==> x is Back
            &&& t.y == Some(TwinAxis::Wrap) && floats::at_most(mid.1, at.1) ==> y is Back
            &&& t.x == Some(TwinAxis::Wrap) && floats::below(at.0, mid.0) ==> x is Ahead
            &&& t.y == Some(TwinAxis::Wrap) && floats::below(at.1, mid.1) ==> y is Ahead
        }),
{
}

/// Under n lines every turn but none at all has its image, and so has every
/// line.
pub proof fn law_every_image_is_there(n: int, k: u32)
    requires
        1 <= n <= 0x3fff_ffff,
    ensures
        images(n).contains(Symmetry::Turn(k)) == (0 < k < n),
        images(n).contains(Symmetry::Flip(k)) == (k < n),
{
    if 0 < k < n {
        assert(images(n)[k - 1] == Symmetry::Turn(k));
    }
    if k < n {
        assert(images(n)[n - 1 + k] == Symmetry::Flip(k));
    }
}

/// A preset's name picks the brush of that name, as the stock has it, and a name
/// that no brush has picks none.
pub proof fn law_a_preset_names_its_engine(stock: Stock, key: Seq<char>)
    ensures
        named(Some("grid"@), stock) == Some(EngineKind::Grid(stock.grid)),
        named(Some("hairy"@), stock) == Some(EngineKind::Hairy(stock.hairy)),
        named(Some("curve"@), stock) == Some(EngineKind::Curve(stock.curve)),
        named(Some("dyna"@), stock) == Some(EngineKind::Dyna(stock.dyna)),
        named(None, stock) is None,
        named(Some(key), stock) is Some == (key == "grid"@ || key == "hairy"@ || key == "curve"@ || key == "dyna"@),
        !(named(Some(key), stock) matches Some(EngineKind::My(_))),
        !(named(Some(key), stock) matches Some(EngineKind::Dab(_))),
{
    reveal_strlit("grid");
    reveal_strlit("hairy");
    reveal_strlit("curve");
    reveal_strlit("dyna");
    assert("grid"@[0] == 'g');
    assert("curve"@[0] == 'c');
    assert("hairy"@[0] == 'h');
    assert("dyna"@[0] == 'd');
}

/// The radius of a procedural brush is the size that it goes by; that of a
/// MyPaint brush is the core's reading.
pub proof fn law_the_radius_is_the_reach(k: EngineKind)
    ensures
        k is My ==> radius_of(k) == k->My_0.reading.radius,
        !(k is My) ==> radius_of(k) == nib_of(k).reach,
        k is My ==> name_of(k) == k->My_0.name@,
        k is My ==> on_card(k) == k->My_0.reading.gpu_ready,
        k is My ==> k.recorded() == k->My_0.record@,
{
}

/// A response that was set is the one that is read, and every other stays.
pub proof fn law_a_response_is_read_back(
    before: EngineKind,
    after: EngineKind,
    setting: i32,
    input: i32,
    points: Seq<Pt>,
    s: i32,
    i: i32,
)
    requires
        before is My,
        after.remapped(before, setting, input, points),
    ensures
        after is My,
        response(after->My_0.curves@, setting, input) == points,
        s != setting || i != input ==> response(after->My_0.curves@, s, i) == response(before->My_0.curves@, s, i),
        after->My_0.sheet == before->My_0.sheet,
        after->My_0.texture == before->My_0.texture,
        after->My_0.record == before->My_0.record,
{
}

/// Emptying the records takes every dab of every copy, in the order of the
/// copies, and leaves none.
pub proof fn law_no_dab_is_lost(before: EngineKind, after: EngineKind, twins: Seq<StrokeTwin>, t: StrokeTwin)
    requires
        after.drained(before),
    ensures
        after.recorded().len() == 0,
        before is My ==> before.recorded() == before->My_0.record@,
        before is My ==> after->My_0.sheet == before->My_0.sheet,
        twin_records(twins.push(t)) == twin_records(twins) + t.kind.recorded(),
        twin_records(seq![]).len() == 0,
{
    assert(twins.push(t).drop_last() =~= twins);
}

/// A stroke goes to the graphics card where the brush and every copy can be
/// stamped there; a wash only without copies.
pub proof fn law_everything_must_be_ready_for_the_card(e: Engine, r: bool, k: int)
    requires
        e.card_ready(r),
    ensures
        r ==> e.main is My && e.main->My_0.reading.gpu_ready,
        r && 0 <= k < e.twins@.len() ==> e.twins@[k].kind is My && e.twins@[k].kind->My_0.reading.gpu_ready,
        e.main is My && e.main->My_0.sheet.wash.on && e.twins@.len() > 0 ==> !r,
        e.main is My && e.main->My_0.reading.gpu_ready && e.twins@.len() == 0 ==> r,
        e.main is My && e.main->My_0.reading.gpu_ready && !e.main->My_0.sheet.wash.on && (forall|j: int|
            0 <= j < e.twins@.len() ==> (#[trigger] e.twins@[j]).kind is My && e.twins@[j].kind->My_0.reading.gpu_ready) ==> r,
{
}

} // verus!
