//! The Figure tool: what its presses, drags and releases come to, from the
//! plain shapes over the click lists to the effect lines and the smart shape.

use vstd::prelude::*;
use crate::app::{App, AppCmd, FigureAnchor, FigureHand, FigureStage2, FigureStage2Kind, Shell, Tools};
use crate::floats;
use crate::geom::{Pt, Rgb};
use crate::modes::FigureMode;
use crate::text;

verus! {

/// The knobs of a generating figure. Fractions, lengths and angles are bit
/// patterns of 32-bit floats.
#[derive(Clone, Copy, PartialEq, Eq, Structural, Debug)]
pub struct LineOpts {
    pub count: u32,
    pub width: u32,
    pub jitter: u32,
    pub taper: u32,
    pub gap_deg: u32,
    pub gap_px: u32,
    pub group: u32,
    pub group_gap: u32,
    pub jit_gap: u32,
    pub jit_len: u32,
    pub jit_width: u32,
    pub seed: u64,
}

/// An effect-line run. For a run out of a centre, `a` and `b` are the centre,
/// `c` and `d` the radii; for a stream, `a` is the angle, `b` and `c` the
/// lengths.
#[derive(Clone, Copy, PartialEq, Eq, Structural, Debug)]
pub struct GenLinesSpec {
    pub focus: bool,
    pub kind: u8,
    pub a: u32,
    pub b: u32,
    pub c: u32,
    pub d: u32,
    pub count: u32,
    pub width: u32,
    pub jitter: u32,
    pub taper: u32,
    pub gap_deg: u32,
    pub gap_px: u32,
    pub group: u32,
    pub group_gap: u32,
    pub jit_gap: u32,
    pub jit_len: u32,
    pub jit_width: u32,
    /// Where the radius handles are shown.
    pub hand_deg: u32,
    /// Where a stream's reference line runs through.
    pub anchor: Option<Pt>,
    /// The point that the lines run together in, where one is set.
    pub converge: Option<Pt>,
    pub colour: Rgb,
    pub seed: u64,
}

/// What the shell measured of a figure's drag.
#[derive(Clone, Copy, PartialEq, Eq, Structural, Debug)]
pub struct DragFacts {
    /// A tap, not a drag.
    pub tiny: bool,
    /// Too short to place effect lines.
    pub short: bool,
    /// The figure can be turned behind its drag.
    pub can_adjust: bool,
    /// The middle of the drag.
    pub mid: Pt,
    /// The heading of the drag.
    pub hand_deg: u32,
    /// The run's geometry: centre, hole and reach, or angle and lengths.
    pub a: u32,
    pub b: u32,
    pub c: u32,
    pub d: u32,
    /// The panel that the drag started in.
    pub panel: Option<usize>,
}

/// What is to be inked, if anything.
#[derive(Debug)]
pub enum FigureAct {
    Nothing,
    /// The figure that the drag spans, closed.
    Drag { a: Pt, b: Pt },
    /// The bent line, open, or the turned figure, closed.
    Stage2(FigureStage2),
    /// The click list: a loop, or the open curve through the points.
    Poly { pts: Vec<FigureAnchor>, close: bool },
}

/// One sample of an inked figure: `k` steps of `of` from one vertex to the
/// next, `t` milliseconds behind the start.
#[derive(Clone, Copy, PartialEq, Eq, Structural, Debug)]
pub struct InkStep {
    pub from: usize,
    pub to: usize,
    pub k: usize,
    pub of: usize,
    pub t: u128,
}

/// How a figure is inked: its area first, where it has one, and then the
/// samples along its outline up to its last vertex.
#[derive(Debug)]
pub struct InkPlan {
    pub fill: bool,
    pub steps: Vec<InkStep>,
    pub end: usize,
    pub end_t: u128,
}

/// How many edges a path of `n` vertices has.
pub open spec fn edges(n: int, close: bool) -> int {
    if close {
        n
    } else {
        n - 1
    }
}

/// The samples along edge `i`.
pub open spec fn edge_steps(n: int, i: int, count: usize) -> Seq<InkStep> {
    Seq::new(
        count as nat,
        |k: int| InkStep { from: i as usize, to: ((i + 1) % n) as usize, k: k as usize, of: count, t: (i * 16 + k) as u128 },
    )
}

/// The samples along the first `m` edges.
pub open spec fn ink_steps(n: int, counts: Seq<usize>, m: int) -> Seq<InkStep>
    decreases m,
{
    if m <= 0 {
        seq![]
    } else {
        ink_steps(n, counts, m - 1) + edge_steps(n, m - 1, counts[m - 1])
    }
}

/// The plan of a figure with this many vertices.
pub open spec fn planned(n: usize, close: bool, figure_fill: bool, counts: Seq<usize>, r: Option<InkPlan>) -> bool {
    &&& r is Some == (n >= 2)
    &&& r matches Some(p) ==> {
        &&& p.fill == (close && figure_fill && n >= 3)
        &&& p.steps@ == ink_steps(n as int, counts, edges(n as int, close))
        &&& p.end == n - 1
        &&& p.end_t == p.steps@.len() * 4 + 16
    }
}

/// Lays out the samples of a figure with `n` vertices: `counts` are the
/// samples that each edge takes. With fewer than two vertices there is nothing
/// to ink. A closed figure of three or more is filled where the tool says so.
pub fn ink_plan(n: usize, close: bool, figure_fill: bool, counts: &Vec<usize>) -> (r: Option<InkPlan>)
    requires
        n >= 2 ==> counts@.len() == edges(n as int, close),
    ensures
        planned(n, close, figure_fill, counts@, r),
{
    if n < 2 {
        return None;
    }
    let mut steps: Vec<InkStep> = Vec::new();
    let mut i: usize = 0;
    while i < counts.len()
        invariant
            i <= counts@.len(),
            counts@.len() == edges(n as int, close),
            n >= 2,
            steps@ == ink_steps(n as int, counts@, i as int),
        decreases counts@.len() - i,
    {
        let d: usize = counts[i];
        let to: usize = (i + 1) % n;
        let mut k: usize = 0;
        let ghost before = steps@;
        proof {
            assert(before =~= before + edge_steps(n as int, i as int, d).take(0));
        }
        while k < d
            invariant
                k <= d,
                to == (i + 1) % (n as int),
                steps@ == before + edge_steps(n as int, i as int, d).take(k as int),
            decreases d - k,
        {
            let t: u128 = i as u128 * 16 + k as u128;
            steps.push(InkStep { from: i, to, k, of: d, t });
            proof {
                let all = edge_steps(n as int, i as int, d);
                assert(all.take(k + 1) =~= all.take(k as int).push(all[k as int]));
                assert(steps@ =~= before + all.take(k + 1));
            }
            k = k + 1;
        }
        proof {
            let all = edge_steps(n as int, i as int, d);
            assert(all.take(d as int) =~= all);
        }
        i = i + 1;
    }
    let end_t: u128 = steps.len() as u128 * 4 + 16;
    Some(InkPlan { fill: close && figure_fill && n >= 3, steps, end: n - 1, end_t })
}

/// Every vertex of the path is inked: each edge starts at its own vertex, and
/// the last edge of a closed path leads back to the first vertex.
pub proof fn law_every_vertex_is_inked(n: int, counts: Seq<usize>, close: bool, i: int)
    requires
        n >= 2,
        counts.len() == edges(n, close),
        n <= usize::MAX,
        0 <= i < counts.len(),
        counts[i] >= 1,
    ensures
        ink_steps(n, counts, edges(n, close)).contains(
            (InkStep { from: i as usize, to: ((i + 1) % n) as usize, k: 0, of: counts[i], t: (i * 16) as u128 }),
        ),
        close && i == n - 1 ==> (i + 1) % n == 0,
{
    let s = InkStep { from: i as usize, to: ((i + 1) % n) as usize, k: 0, of: counts[i], t: (i * 16) as u128 };
    assert(edge_steps(n, i, counts[i])[0] == s);
    lemma_step_in(n, counts, i, edges(n, close), s);
    if i + 1 == n {
        vstd::arithmetic::div_mod::lemma_mod_self_0(n);
    }
}

proof fn lemma_step_in(n: int, counts: Seq<usize>, i: int, m: int, s: InkStep)
    requires
        0 <= i < m,
        edge_steps(n, i, counts[i]).len() > 0,
        edge_steps(n, i, counts[i])[0] == s,
    ensures
        ink_steps(n, counts, m).contains(s),
    decreases m,
{
    let before = ink_steps(n, counts, m - 1);
    let all = ink_steps(n, counts, m);
    if i == m - 1 {
        assert(all[before.len() as int] == s);
    } else {
        lemma_step_in(n, counts, i, m - 1, s);
        let j = choose|j: int| 0 <= j < before.len() && before[j] == s;
        assert(all[j] == s);
    }
}

/// What an inked figure says.
pub open spec fn inked_text(mode: FigureMode) -> Seq<char> {
    match mode {
        FigureMode::Line => "line inked"@,
        FigureMode::Rect => "rectangle inked"@,
        FigureMode::Ellipse => "ellipse inked"@,
        FigureMode::Polygon => "polygon inked"@,
        FigureMode::Curve | FigureMode::Arc => "curve inked"@,
        FigureMode::Smart => "shape inked"@,
        FigureMode::Stream | FigureMode::Focus => "lines generated"@,
        FigureMode::Urchin | FigureMode::SolidFlash => "flash generated"@,
    }
}

/// Has the figure a path that its drag spans? The click lists and the smart
/// shape have none.
pub open spec fn has_drag_path(mode: FigureMode) -> bool {
    !(mode is Polygon || mode is Curve || mode is Smart)
}

/// The second stage that a release leads to.
pub open spec fn stage2_of(mode: FigureMode, adjust: bool, f: DragFacts) -> Option<FigureStage2Kind> {
    if f.tiny || mode.generates_spec() {
        None
    } else if mode is Arc {
        Some(FigureStage2Kind::Bend)
    } else if adjust && f.can_adjust {
        Some(FigureStage2Kind::Angle)
    } else {
        None
    }
}

/// The second stage as it begins: where committing without a move inks what
/// the drag showed.
pub open spec fn stage2_start(a: Pt, b: Pt, kind: FigureStage2Kind, mid: Pt) -> FigureStage2 {
    FigureStage2 { a, b, cur: if kind is Bend { mid } else { b }, kind, shift: false }
}

/// What a second stage says as it begins.
pub open spec fn stage2_text(kind: FigureStage2Kind) -> Seq<char> {
    match kind {
        FigureStage2Kind::Bend => "now bend it — the curve follows the pointer; click inks it, Esc cancels"@,
        FigureStage2Kind::Angle => "now set the angle — click or Enter inks it, Shift snaps 15°, Esc cancels"@,
    }
}

/// What a drag that is too short for effect lines says.
pub open spec fn short_text(radial: bool) -> Seq<char> {
    if radial {
        "drag from the centre out to size the inner hole — the lines reach the border on their own"@
    } else {
        "drag along the motion to set the angle — the lines cross the panel on their own"@
    }
}

/// The run that a drag places. A run out of a centre is spaced in degrees, a
/// stream in pixels; a flash counts its teeth and takes neither, and has no
/// taper of its own. The lines are black, and no point is set for them to run
/// together in.
pub open spec fn lines_spec(mode: FigureMode, o: LineOpts, f: DragFacts) -> GenLinesSpec {
    let radial = mode.radial_spec();
    GenLinesSpec {
        focus: radial,
        kind: mode.gen_kind_spec(),
        a: f.a,
        b: f.b,
        c: f.c,
        d: f.d,
        count: o.count,
        width: o.width,
        jitter: o.jitter,
        taper: if mode is Focus || mode is Stream { o.taper } else { 0 },
        gap_deg: if radial && mode.gen_kind_spec() == 0 { o.gap_deg } else { 0 },
        gap_px: if radial { 0 } else { o.gap_px },
        group: if radial { 0 } else { o.group },
        group_gap: if radial { 0 } else { o.group_gap },
        jit_gap: o.jit_gap,
        jit_len: o.jit_len,
        jit_width: o.jit_width,
        hand_deg: if radial { f.hand_deg } else { 0 },
        anchor: if radial { None } else { Some(f.mid) },
        converge: None,
        colour: Rgb { r: 0, g: 0, b: 0 },
        seed: o.seed,
    }
}

/// The seed behind this one.
pub open spec fn next_seed(seed: u64) -> u64 {
    if seed == u64::MAX {
        0
    } else {
        (seed + 1) as u64
    }
}

/// The knobs that a generating figure reads.
pub open spec fn opts_of(t: Tools) -> LineOpts {
    if t.figure_mode.radial_spec() {
        t.figure_focus
    } else {
        t.figure_stream
    }
}

/// The tools behind a placement: the next one is seeded anew.
pub open spec fn reseeded(t: Tools) -> Tools {
    if t.figure_mode.radial_spec() {
        Tools { figure_focus: LineOpts { seed: next_seed(t.figure_focus.seed), ..t.figure_focus }, ..t }
    } else {
        Tools { figure_stream: LineOpts { seed: next_seed(t.figure_stream.seed), ..t.figure_stream }, ..t }
    }
}

/// Two placements in a row never share a seed, and only the knobs that were
/// read move on.
pub proof fn law_placements_reroll(t: Tools)
    ensures
        opts_of(reseeded(t)).seed != opts_of(t).seed,
        opts_of(reseeded(t)) == (LineOpts { seed: opts_of(reseeded(t)).seed, ..opts_of(t) }),
        t.figure_mode.radial_spec() ==> reseeded(t).figure_stream == t.figure_stream,
        !t.figure_mode.radial_spec() ==> reseeded(t).figure_focus == t.figure_focus,
{
}

impl App {
    /// Says that the figure is inked.
    pub fn figure_inked(&mut self)
        ensures
            *final(self) == (App { shell: final(self).shell, ..*old(self) }),
            final(self).shell.says(old(self).shell, inked_text(old(self).tools.figure_mode)),
    {
        let s: &str = match self.tools.figure_mode {
            FigureMode::Line => "line inked",
            FigureMode::Rect => "rectangle inked",
            FigureMode::Ellipse => "ellipse inked",
            FigureMode::Polygon => "polygon inked",
            FigureMode::Curve | FigureMode::Arc => "curve inked",
            FigureMode::Smart => "shape inked",
            FigureMode::Stream | FigureMode::Focus => "lines generated",
            FigureMode::Urchin | FigureMode::SolidFlash => "flash generated",
        };
        self.set_status(s);
    }

    /// What the release of a generating figure makes of the state.
    pub open spec fn lines_placed(self, after: App, f: DragFacts) -> bool {
        if f.short {
            &&& after == (App { shell: after.shell, ..self })
            &&& after.shell.says(self.shell, short_text(self.tools.figure_mode.radial_spec()))
        } else {
            &&& after == (App { shell: after.shell, tools: reseeded(self.tools), ..self })
            &&& after.shell.asks(
                self.shell,
                AppCmd::GenLinesPlace {
                    spec: lines_spec(self.tools.figure_mode, opts_of(self.tools), f),
                    panel: f.panel,
                },
            )
        }
    }

    /// The release of a generating figure: a fresh effect-line layer, and the
    /// next drag is seeded anew.
    fn finish_figure_lines(&mut self, f: DragFacts)
        ensures
            old(self).lines_placed(*final(self), f),
    {
        let mode = self.tools.figure_mode;
        let radial = mode.radial();
        if f.short {
            self.set_status(
                if radial {
                    "drag from the centre out to size the inner hole — the lines reach the border on their own"
                } else {
                    "drag along the motion to set the angle — the lines cross the panel on their own"
                },
            );
            return;
        }
        let o: LineOpts = if radial { self.tools.figure_focus } else { self.tools.figure_stream };
        if radial {
            self.tools.figure_focus.seed = o.seed.wrapping_add(1);
        } else {
            self.tools.figure_stream.seed = o.seed.wrapping_add(1);
        }
        let kind: u8 = mode.gen_kind();
        let tapers = matches!(mode, FigureMode::Focus | FigureMode::Stream);
        let spec = GenLinesSpec {
            focus: radial,
            kind,
            a: f.a,
            b: f.b,
            c: f.c,
            d: f.d,
            count: o.count,
            width: o.width,
            jitter: o.jitter,
            taper: if tapers { o.taper } else { 0 },
            gap_deg: if radial && kind == 0 { o.gap_deg } else { 0 },
            gap_px: if radial { 0 } else { o.gap_px },
            group: if radial { 0 } else { o.group },
            group_gap: if radial { 0 } else { o.group_gap },
            jit_gap: o.jit_gap,
            jit_len: o.jit_len,
            jit_width: o.jit_width,
            hand_deg: if radial { f.hand_deg } else { 0 },
            anchor: if radial { None } else { Some(f.mid) },
            converge: None,
            colour: Rgb { r: 0, g: 0, b: 0 },
            seed: o.seed,
        };
        self.push_cmd(AppCmd::GenLinesPlace { spec, panel: f.panel });
    }

    /// What a one-stage release makes of the state, and what it inks.
    pub open spec fn drag_finished(self, after: App, r: FigureAct, a: Pt, b: Pt, f: DragFacts) -> bool {
        if self.tools.figure_mode.generates_spec() {
            r is Nothing && self.lines_placed(after, f)
        } else if !has_drag_path(self.tools.figure_mode) {
            r is Nothing && after == self
        } else if f.tiny {
            &&& r is Nothing
            &&& after == (App { shell: after.shell, ..self })
            &&& after.shell.says(self.shell, "drag the shape out (line: from start to end)"@)
        } else {
            r == (FigureAct::Drag { a, b }) && after == self
        }
    }

    /// A figure's release in one stage: the shape is inked, or effect lines
    /// are placed.
    pub fn finish_figure_drag(&mut self, a: Pt, b: Pt, f: DragFacts) -> (r: FigureAct)
        ensures
            old(self).drag_finished(*final(self), r, a, b, f),
    {
        if self.tools.figure_mode.generates() {
            self.finish_figure_lines(f);
            return FigureAct::Nothing;
        }
        if matches!(self.tools.figure_mode, FigureMode::Polygon | FigureMode::Curve | FigureMode::Smart) {
            return FigureAct::Nothing;
        }
        if f.tiny {
            self.set_status("drag the shape out (line: from start to end)");
            return FigureAct::Nothing;
        }
        FigureAct::Drag { a, b }
    }

    /// What a release makes of the state, and what it inks.
    pub open spec fn drag_released(self, after: App, r: FigureAct, a: Pt, b: Pt, f: DragFacts) -> bool {
        match stage2_of(self.tools.figure_mode, self.tools.figure_adjust_angle, f) {
            None => self.drag_finished(after, r, a, b, f),
            Some(kind) => {
                &&& r is Nothing
                &&& after == (App {
                    figure: (FigureHand { stage2: Some(stage2_start(a, b, kind, f.mid)), ..self.figure }),
                    shell: after.shell,
                    ..self
                })
                &&& after.shell.says(self.shell, stage2_text(kind))
            },
        }
    }

    /// What a figure's release means: for most it inks the shape, but a curve
    /// is still to be bent, and a figure may still be turned. A tap never leads
    /// to a second stage.
    pub fn release_figure_drag(&mut self, a: Pt, b: Pt, f: DragFacts) -> (r: FigureAct)
        ensures
            old(self).drag_released(*final(self), r, a, b, f),
            old(self).wf() ==> final(self).wf(),
    {
        let kind = if f.tiny || self.tools.figure_mode.generates() {
            return self.finish_figure_drag(a, b, f);
        } else if self.tools.figure_mode == FigureMode::Arc {
            FigureStage2Kind::Bend
        } else if self.tools.figure_adjust_angle && f.can_adjust {
            FigureStage2Kind::Angle
        } else {
            return self.finish_figure_drag(a, b, f);
        };
        let cur = match kind {
            FigureStage2Kind::Bend => f.mid,
            FigureStage2Kind::Angle => b,
        };
        self.figure.stage2 = Some(FigureStage2 { a, b, cur, kind, shift: false });
        self.set_status(
            match kind {
                FigureStage2Kind::Bend => "now bend it — the curve follows the pointer; click inks it, Esc cancels",
                FigureStage2Kind::Angle => "now set the angle — click or Enter inks it, Shift snaps 15°, Esc cancels",
            },
        );
        FigureAct::Nothing
    }

    /// The pointer moved with no button down: only a second stage steers by
    /// it, and not over a palette.
    pub fn figure_hover(&mut self, at: Pt, shift: bool, over_palette: bool)
        ensures
            old(self).figure.stage2 is None || over_palette ==> *final(self) == *old(self),
            old(self).figure.stage2 is Some && !over_palette ==> *final(self) == (App {
                figure: (FigureHand {
                    stage2: Some(FigureStage2 { cur: at, shift, ..old(self).figure.stage2->0 }),
                    ..old(self).figure
                }),
                shell: (Shell { needs_redraw: true, ..old(self).shell }),
                ..*old(self)
            }),
    {
        if over_palette {
            return;
        }
        if let Some(s) = self.figure.stage2 {
            self.figure.stage2 = Some(FigureStage2 { a: s.a, b: s.b, cur: at, kind: s.kind, shift });
            self.shell.needs_redraw = true;
        }
    }

    /// What ending the second stage makes of the state, and what it inks.
    pub open spec fn stage2_finished(self, after: App, r: FigureAct) -> bool {
        match self.figure.stage2 {
            None => r is Nothing && after == self,
            Some(s) => {
                &&& after == (App {
                    figure: (FigureHand { stage2: None, ..self.figure }),
                    shell: (Shell { status: after.shell.status, needs_redraw: true, ..self.shell }),
                    ..self
                })
                &&& if self.guarded() {
                    r is Nothing && after.shell.status@ == crate::canvas_input::guard_text(self.active_layer())->0
                } else {
                    r == FigureAct::Stage2(s) && after.shell.status == self.shell.status
                }
            },
        }
    }

    /// The click that ends a second stage. The layer in hand may have changed
    /// since the press, so it is asked again.
    pub fn finish_figure_stage2(&mut self) -> (r: FigureAct)
        requires
            old(self).doc.wf(),
        ensures
            old(self).stage2_finished(*final(self), r),
            old(self).wf() ==> final(self).wf(),
    {
        let s = match self.figure.stage2 {
            None => return FigureAct::Nothing,
            Some(s) => s,
        };
        self.figure.stage2 = None;
        self.shell.needs_redraw = true;
        if self.guard_frame_layer() {
            return FigureAct::Nothing;
        }
        FigureAct::Stage2(s)
    }

    /// Throws a figure in its second stage away. Nothing was inked yet.
    pub fn cancel_figure_stage2(&mut self)
        ensures
            old(self).figure.stage2 is None ==> *final(self) == *old(self),
            old(self).figure.stage2 is Some ==> ({
                &&& *final(self) == (App {
                    figure: (FigureHand { stage2: None, ..old(self).figure }),
                    shell: (Shell { status: final(self).shell.status, needs_redraw: true, ..old(self).shell }),
                    ..*old(self)
                })
                &&& final(self).shell.status@ == "figure cancelled"@
            }),
    {
        if self.figure.stage2.is_some() {
            self.figure.stage2 = None;
            self.set_status("figure cancelled");
            self.shell.needs_redraw = true;
        }
    }
}

/// The anchor that a press places: the curve runs smoothly through it.
pub open spec fn fresh_anchor(at: Pt) -> FigureAnchor {
    FigureAnchor { p: at, corner: false }
}

/// What the shell measured of a press on a click list: the distances to the
/// anchors and to the pieces of the line as it is drawn, and the reach of the
/// press.
#[derive(Debug)]
pub struct PolyHit {
    pub anchors: Vec<u32>,
    pub lines: Vec<u32>,
    pub tol: u32,
    /// The vertices of the line as it is drawn.
    pub dense: Vec<Pt>,
}

/// What a press on a click list means.
#[derive(Clone, Copy, PartialEq, Eq, Structural, Debug)]
pub enum PolyEdit {
    /// One more point.
    Append,
    /// Take hold of an anchor.
    Grab(usize),
    /// A corner was asked for where there are only corners.
    NoCorner,
    /// Turn an anchor from smooth to corner, or back.
    Corner(usize),
    Delete(usize),
    /// A new anchor in front of this place.
    Insert(usize),
}

/// The nearest of the first `n` that is within reach; of equals, the last.
pub open spec fn nearest_last(d: Seq<u32>, tol: u32, n: int) -> Option<int>
    decreases n,
{
    if n <= 0 {
        None
    } else {
        match nearest_last(d, tol, n - 1) {
            Some(b) => if floats::at_most(d[n - 1], tol) && floats::at_most(d[n - 1], d[b]) { Some(n - 1) } else { Some(b) },
            None => if floats::at_most(d[n - 1], tol) { Some(n - 1) } else { None },
        }
    }
}

/// The nearest of the first `n` that is within reach; of equals, the first.
pub open spec fn nearest_first(d: Seq<u32>, tol: u32, n: int) -> Option<int>
    decreases n,
{
    if n <= 0 {
        None
    } else {
        match nearest_first(d, tol, n - 1) {
            Some(b) => if floats::below(d[n - 1], d[b]) { Some(n - 1) } else { Some(b) },
            None => if floats::at_most(d[n - 1], tol) { Some(n - 1) } else { None },
        }
    }
}

/// The anchor that is taken is within reach, none is nearer, and of two that
/// are as near the later one is taken: it is drawn on top.
pub proof fn law_nearest_anchor(d: Seq<u32>, tol: u32, n: int)
    requires
        0 <= n <= d.len(),
    ensures
        match nearest_last(d, tol, n) {
            Some(b) => {
                &&& 0 <= b < n
                &&& floats::at_most(d[b], tol)
                &&& forall|j: int| 0 <= j < n ==> !floats::below(#[trigger] d[j], d[b])
                &&& forall|j: int| b < j < n ==> !floats::at_most(#[trigger] d[j], d[b])
            },
            None => forall|j: int| 0 <= j < n ==> !floats::at_most(#[trigger] d[j], tol),
        },
    decreases n,
{
    if n > 0 {
        law_nearest_anchor(d, tol, n - 1);
    }
}

/// The piece of the line that is taken is within reach, and none is nearer.
pub proof fn law_nearest_piece(d: Seq<u32>, tol: u32, n: int)
    requires
        0 <= n <= d.len(),
    ensures
        match nearest_first(d, tol, n) {
            Some(b) => {
                &&& 0 <= b < n
                &&& floats::at_most(d[b], tol)
                &&& forall|j: int| 0 <= j < n ==> !floats::below(#[trigger] d[j], d[b])
                &&& forall|j: int| 0 <= j < b ==> !floats::at_most(#[trigger] d[j], d[b])
            },
            None => forall|j: int| 0 <= j < n ==> !floats::at_most(#[trigger] d[j], tol),
        },
    decreases n,
{
    if n > 0 {
        law_nearest_piece(d, tol, n - 1);
    }
}

fn pick_last(d: &Vec<u32>, tol: u32) -> (r: Option<usize>)
    ensures
        match r {
            Some(i) => nearest_last(d@, tol, d@.len() as int) == Some(i as int) && i < d@.len(),
            None => nearest_last(d@, tol, d@.len() as int) is None,
        },
{
    let mut best: Option<usize> = None;
    let mut n: usize = 0;
    while n < d.len()
        invariant
            n <= d@.len(),
            match best {
                Some(i) => nearest_last(d@, tol, n as int) == Some(i as int) && i < n,
                None => nearest_last(d@, tol, n as int) is None,
            },
        decreases d@.len() - n,
    {
        best = match best {
            Some(b) => if floats::is_at_most(d[n], tol) && floats::is_at_most(d[n], d[b]) { Some(n) } else { Some(b) },
            None => if floats::is_at_most(d[n], tol) { Some(n) } else { None },
        };
        n = n + 1;
    }
    best
}

fn pick_first(d: &Vec<u32>, tol: u32) -> (r: Option<usize>)
    ensures
        match r {
            Some(i) => nearest_first(d@, tol, d@.len() as int) == Some(i as int) && i < d@.len(),
            None => nearest_first(d@, tol, d@.len() as int) is None,
        },
{
    let mut best: Option<usize> = None;
    let mut n: usize = 0;
    while n < d.len()
        invariant
            n <= d@.len(),
            match best {
                Some(i) => nearest_first(d@, tol, n as int) == Some(i as int) && i < n,
                None => nearest_first(d@, tol, n as int) is None,
            },
        decreases d@.len() - n,
    {
        best = match best {
            Some(b) => if floats::is_below(d[n], d[b]) { Some(n) } else { Some(b) },
            None => if floats::is_at_most(d[n], tol) { Some(n) } else { None },
        };
        n = n + 1;
    }
    best
}

/// Which span of the click list the first `n` vertices of the drawn line have
/// come to: it moves on where the line passes the next anchor.
pub open spec fn span_at(pts: Seq<FigureAnchor>, dense: Seq<Pt>, n: int) -> int
    decreases n,
{
    if n <= 0 {
        0
    } else {
        let s = span_at(pts, dense, n - 1);
        if s + 1 < pts.len() && floats::together(dense[n - 1], pts[s + 1].p) {
            s + 1
        } else {
            s
        }
    }
}

/// The span that vertex `j` of the drawn line belongs to.
pub open spec fn span_of(mode: FigureMode, pts: Seq<FigureAnchor>, dense: Seq<Pt>, j: int) -> int {
    let s = if mode is Curve { span_at(pts, dense, j + 1) } else { j };
    if s < pts.len() - 2 {
        s
    } else {
        pts.len() - 2
    }
}

/// The drawn line leaves anchor `k` at vertex `at[k]` and next meets an anchor
/// at vertex `at[k + 1]`, which is the one behind it.
pub open spec fn passes(pts: Seq<FigureAnchor>, dense: Seq<Pt>, at: Seq<int>, k: int) -> bool {
    &&& 0 <= at[k] < at[k + 1] < dense.len()
    &&& floats::together(dense[at[k + 1]], pts[k + 1].p)
    &&& forall|v: int| at[k] <= v < at[k + 1] ==> !floats::together(#[trigger] dense[v], pts[k + 1].p)
}

/// Where a drawn line runs through every anchor in turn, each of its vertices
/// belongs to the span between the anchors around it: `at` says where the line
/// meets each anchor.
pub proof fn law_spans_are_exact(pts: Seq<FigureAnchor>, dense: Seq<Pt>, at: Seq<int>, i: int, j: int)
    requires
        pts.len() >= 2,
        at.len() == pts.len(),
        at[0] == 0,
        forall|k: int| 0 <= k && k + 1 < pts.len() ==> #[trigger] passes(pts, dense, at, k),
        0 <= i,
        i + 1 < pts.len(),
        at[i] <= j < at[i + 1],
    ensures
        span_of(FigureMode::Curve, pts, dense, j) == i,
{
    lemma_span_at_anchor(pts, dense, at, i);
    assert(passes(pts, dense, at, i));
    lemma_span_holds(pts, dense, i, at[i] + 1, j + 1);
}

/// The span does not change over vertices away from its far anchor.
proof fn lemma_span_holds(pts: Seq<FigureAnchor>, dense: Seq<Pt>, s: int, a: int, b: int)
    requires
        0 <= a <= b,
        span_at(pts, dense, a) == s,
        forall|v: int| a <= v < b ==> !floats::together(#[trigger] dense[v], pts[s + 1].p),
    ensures
        span_at(pts, dense, b) == s,
    decreases b - a,
{
    if a < b {
        lemma_span_holds(pts, dense, s, a, b - 1);
        assert(!floats::together(dense[b - 1], pts[s + 1].p));
    }
}

/// Behind the vertex where the line meets an anchor, the span is that anchor's.
proof fn lemma_span_at_anchor(pts: Seq<FigureAnchor>, dense: Seq<Pt>, at: Seq<int>, i: int)
    requires
        at[0] == 0,
        forall|k: int| 0 <= k && k + 1 < pts.len() ==> #[trigger] passes(pts, dense, at, k),
        0 <= i,
        i + 1 < pts.len(),
    ensures
        span_at(pts, dense, at[i] + 1) == i,
    decreases i,
{
    assert(passes(pts, dense, at, i));
    if i == 0 {
        assert(span_at(pts, dense, 0) == 0);
        assert(!floats::together(dense[0], pts[1].p));
    } else {
        lemma_span_at_anchor(pts, dense, at, i - 1);
        assert(passes(pts, dense, at, i - 1));
        lemma_span_holds(pts, dense, i - 1, at[i - 1] + 1, at[i]);
        assert(floats::together(dense[at[i]], pts[i].p));
    }
}

/// Do the measurements belong to this click list?
pub open spec fn hit_fits(mode: FigureMode, pts: Seq<FigureAnchor>, h: PolyHit) -> bool {
    &&& h.anchors@.len() == pts.len()
    &&& pts.len() < 2 ==> h.lines@.len() == 0
    &&& pts.len() >= 2 ==> h.lines@.len() + 1 == h.dense@.len()
    &&& pts.len() >= 2 && !(mode is Curve) ==> h.dense@.len() == pts.len()
}

/// What a press on a click list means: with Ctrl, an anchor is taken; with
/// Alt, its corner is turned; plain, it is deleted, and the drawn line takes a
/// new anchor. A modifier over nothing still places a point.
pub open spec fn poly_edit(mode: FigureMode, pts: Seq<FigureAnchor>, ctrl: bool, alt: bool, h: PolyHit) -> PolyEdit {
    if pts.len() == 0 {
        PolyEdit::Append
    } else {
        match nearest_last(h.anchors@, h.tol, h.anchors@.len() as int) {
            Some(i) => if ctrl {
                PolyEdit::Grab(i as usize)
            } else if alt {
                if mode is Curve { PolyEdit::Corner(i as usize) } else { PolyEdit::NoCorner }
            } else {
                PolyEdit::Delete(i as usize)
            },
            None => if ctrl || alt {
                PolyEdit::Append
            } else {
                match nearest_first(h.lines@, h.tol, h.lines@.len() as int) {
                    Some(j) => PolyEdit::Insert((span_of(mode, pts, h.dense@, j) + 1) as usize),
                    None => PolyEdit::Append,
                }
            },
        }
    }
}

/// The span that vertex `j` of the drawn line belongs to.
fn span_for(mode: FigureMode, pts: &Vec<FigureAnchor>, dense: &Vec<Pt>, j: usize) -> (r: usize)
    requires
        pts@.len() >= 2,
        j < dense@.len(),
    ensures
        r == span_of(mode, pts@, dense@, j as int),
{
    let last: usize = pts.len() - 2;
    let mut s: usize = j;
    if mode == FigureMode::Curve {
        s = 0;
        let mut n: usize = 0;
        while n <= j
            invariant
                n <= j + 1,
                j < dense.len(),
                s < pts.len(),
                s == span_at(pts@, dense@, n as int),
            decreases j + 1 - n,
        {
            if s + 1 < pts.len() && floats::are_together(dense[n], pts[s + 1].p) {
                s = s + 1;
            }
            n = n + 1;
        }
    }
    if s < last { s } else { last }
}

/// What a press on a click list means.
fn plan_edit(mode: FigureMode, pts: &Vec<FigureAnchor>, ctrl: bool, alt: bool, h: &PolyHit) -> (r: PolyEdit)
    requires
        hit_fits(mode, pts@, *h),
    ensures
        r == poly_edit(mode, pts@, ctrl, alt, *h),
        match r {
            PolyEdit::Grab(i) | PolyEdit::Corner(i) | PolyEdit::Delete(i) => i < pts@.len(),
            PolyEdit::Insert(i) => 1 <= i < pts@.len(),
            _ => true,
        },
{
    if pts.len() == 0 {
        return PolyEdit::Append;
    }
    if let Some(i) = pick_last(&h.anchors, h.tol) {
        return if ctrl {
            PolyEdit::Grab(i)
        } else if alt {
            if mode == FigureMode::Curve { PolyEdit::Corner(i) } else { PolyEdit::NoCorner }
        } else {
            PolyEdit::Delete(i)
        };
    }
    if ctrl || alt {
        return PolyEdit::Append;
    }
    match pick_first(&h.lines, h.tol) {
        None => PolyEdit::Append,
        Some(j) => {
            let s: usize = span_for(mode, pts, &h.dense, j);
            proof {
                lemma_span_low(pts@, h.dense@, j + 1);
            }
            PolyEdit::Insert(s + 1)
        },
    }
}

proof fn lemma_span_low(pts: Seq<FigureAnchor>, dense: Seq<Pt>, n: int)
    ensures
        span_at(pts, dense, n) >= 0,
    decreases n,
{
    if n > 0 {
        lemma_span_low(pts, dense, n - 1);
    }
}

impl FigureHand {
    /// A click list that is under way has a point.
    pub open spec fn wf(self) -> bool {
        self.poly matches Some(p) ==> p@.len() > 0
    }

    /// The points of the click list, if there is one.
    pub open spec fn points(self) -> Seq<FigureAnchor> {
        match self.poly {
            Some(p) => p@,
            None => seq![],
        }
    }
}

impl App {
    /// What an edit makes of the click list and of what is said.
    pub open spec fn poly_edited(self, after: App, e: PolyEdit, at: Pt) -> bool {
        let pts = self.figure.points();
        let f = after.figure;
        match e {
            PolyEdit::Append => after == self,
            PolyEdit::Grab(i) => {
                &&& after == (App {
                    figure: (FigureHand { anchor_drag: Some(i), ..self.figure }),
                    shell: (Shell { status: after.shell.status, needs_redraw: true, ..self.shell }),
                    ..self
                })
                &&& after.shell.status@ == "moving that point — release to drop it"@
            },
            PolyEdit::NoCorner => {
                &&& after == (App { shell: after.shell, ..self })
                &&& after.shell.says(self.shell, "corner/curve only applies to the Continuous curve"@)
            },
            PolyEdit::Corner(i) => {
                let a = pts[i as int];
                &&& after == (App {
                    figure: (FigureHand { poly: f.poly, ..self.figure }),
                    shell: (Shell { status: after.shell.status, needs_redraw: true, ..self.shell }),
                    ..self
                })
                &&& f.poly is Some
                &&& f.points() == pts.update(i as int, FigureAnchor { corner: !a.corner, ..a })
                &&& after.shell.status@ == (if a.corner {
                    "smooth point — the curve sweeps through"@
                } else {
                    "corner point — the curve creases here"@
                })
            },
            PolyEdit::Delete(i) => {
                &&& after == (App {
                    figure: (FigureHand { poly: f.poly, ..self.figure }),
                    shell: (Shell { status: after.shell.status, needs_redraw: true, ..self.shell }),
                    ..self
                })
                &&& f.poly is Some == (pts.len() > 1)
                &&& f.points() == pts.remove(i as int)
                &&& after.shell.status@ == (if pts.len() == 1 {
                    "figure cancelled — no points left"@
                } else {
                    text::counted("point deleted — "@, (pts.len() - 1) as nat, " left"@)
                })
            },
            PolyEdit::Insert(i) => {
                &&& after == (App {
                    figure: (FigureHand { poly: f.poly, ..self.figure }),
                    shell: (Shell { status: after.shell.status, needs_redraw: true, ..self.shell }),
                    ..self
                })
                &&& f.poly is Some
                &&& f.points() == pts.insert(i as int, fresh_anchor(at))
                &&& after.shell.status@ == text::counted("point inserted — "@, pts.len() + 1, " now"@)
            },
        }
    }

    /// A press on a click list that means an edit rather than one more point;
    /// false sends the press back to be appended.
    pub fn figure_poly_edit(&mut self, at: Pt, ctrl: bool, alt: bool, h: &PolyHit) -> (r: bool)
        requires
            hit_fits(old(self).tools.figure_mode, old(self).figure.points(), *h),
        ensures
            ({
                let e = poly_edit(old(self).tools.figure_mode, old(self).figure.points(), ctrl, alt, *h);
                r == !(e is Append) && old(self).poly_edited(*final(self), e, at)
            }),
            old(self).figure.wf() ==> final(self).figure.wf(),
            old(self).wf() ==> final(self).wf(),
    {
        let mode = self.tools.figure_mode;
        let mut pts = match self.figure.poly.take() {
            None => return false,
            Some(p) => p,
        };
        let e = plan_edit(mode, &pts, ctrl, alt, h);
        match e {
            PolyEdit::Append => {
                self.figure.poly = Some(pts);
                return false;
            },
            PolyEdit::Grab(i) => {
                self.figure.poly = Some(pts);
                self.figure.anchor_drag = Some(i);
                self.set_status("moving that point — release to drop it");
            },
            PolyEdit::NoCorner => {
                self.figure.poly = Some(pts);
                self.set_status("corner/curve only applies to the Continuous curve");
                return true;
            },
            PolyEdit::Corner(i) => {
                let a: FigureAnchor = pts[i];
                pts.set(i, FigureAnchor { p: a.p, corner: !a.corner });
                self.figure.poly = Some(pts);
                self.set_status(
                    if a.corner {
                        "smooth point — the curve sweeps through"
                    } else {
                        "corner point — the curve creases here"
                    },
                );
            },
            PolyEdit::Delete(i) => {
                let _ = pts.remove(i);
                let left: usize = pts.len();
                if left == 0 {
                    proof {
                        assert(old(self).figure.points().remove(i as int) =~= seq![]);
                    }
                    self.set_status("figure cancelled — no points left");
                } else {
                    self.figure.poly = Some(pts);
                    self.shell.status = text::count_line("point deleted — ", left, " left");
                }
            },
            PolyEdit::Insert(i) => {
                pts.insert(i, FigureAnchor { p: at, corner: false });
                let n: usize = pts.len();
                self.figure.poly = Some(pts);
                self.shell.status = text::count_line("point inserted — ", n, " now");
            },
        }
        self.shell.needs_redraw = true;
        true
    }

    /// What taking the last point back makes of the state.
    pub open spec fn point_undone(self, after: App) -> bool {
        &&& self.figure.poly is None ==> after == self
        &&& self.figure.poly is Some ==> ({
            let pts = self.figure.points();
            &&& after == (App {
                figure: (FigureHand { poly: after.figure.poly, ..self.figure }),
                shell: (Shell { status: after.shell.status, needs_redraw: true, ..self.shell }),
                ..self
            })
            &&& after.figure.poly is Some == (pts.len() > 1)
            &&& pts.len() > 1 ==> after.figure.points() == pts.drop_last()
            &&& after.shell.status@ == (if pts.len() > 1 {
                text::counted(
                    "last point removed — "@,
                    (pts.len() - 1) as nat,
                    " left, Backspace again to keep walking back"@,
                )
            } else {
                "figure cancelled — nothing left to take back"@
            })
        })
        &&& after.figure.wf() || self.figure.poly is None
    }

    /// Takes the last placed point back; at the first one the figure ends.
    pub fn figure_undo_point(&mut self)
        ensures
            old(self).point_undone(*final(self)),
            old(self).wf() ==> final(self).wf(),
    {
        let mut pts = match self.figure.poly.take() {
            None => return,
            Some(p) => p,
        };
        let _ = pts.pop();
        let left: usize = pts.len();
        if left == 0 {
            self.set_status("figure cancelled — nothing left to take back");
        } else {
            self.figure.poly = Some(pts);
            self.shell.status = text::count_line(
                "last point removed — ",
                left,
                " left, Backspace again to keep walking back",
            );
        }
        self.shell.needs_redraw = true;
    }

    /// What moving the held point makes of the state.
    pub open spec fn anchor_moved(self, after: App, at: Pt) -> bool {
        &&& match self.figure.anchor_drag {
            None => after == self,
            Some(i) => {
                &&& after == (App {
                    figure: (FigureHand {
                        poly: after.figure.poly,
                        anchor_drag: if i < self.figure.points().len() { Some(i) } else { None },
                        ..self.figure
                    }),
                    shell: (Shell { needs_redraw: true, ..self.shell }),
                    ..self
                })
                &&& after.figure.poly is Some == self.figure.poly is Some
                &&& after.figure.points() == (if i < self.figure.points().len() {
                    self.figure.points().update(
                        i as int,
                        FigureAnchor { p: at, ..self.figure.points()[i as int] },
                    )
                } else {
                    self.figure.points()
                })
            },
        }
    }

    /// Puts the anchor that is held under the pointer. A hold on a list that
    /// is gone, or has grown too short, ends.
    pub fn figure_anchor_drag_move(&mut self, at: Pt)
        ensures
            old(self).anchor_moved(*final(self), at),
    {
        let i: usize = match self.figure.anchor_drag {
            None => return,
            Some(i) => i,
        };
        match self.figure.poly.take() {
            None => {
                self.figure.anchor_drag = None;
            },
            Some(mut pts) => {
                if i < pts.len() {
                    let a: FigureAnchor = pts[i];
                    pts.set(i, FigureAnchor { p: at, corner: a.corner });
                } else {
                    self.figure.anchor_drag = None;
                }
                self.figure.poly = Some(pts);
            },
        }
        self.shell.needs_redraw = true;
    }

    /// What committing the click list makes of the state, and what it inks.
    pub open spec fn poly_finished(self, after: App, r: FigureAct) -> bool {
        let curve = self.tools.figure_mode is Curve;
        match self.figure.poly {
            None => r is Nothing && after == self,
            Some(pts) => if pts@.len() < (if curve { 2int } else { 3int }) {
                &&& r is Nothing
                &&& after == (App { figure: (FigureHand { poly: None, ..self.figure }), shell: after.shell, ..self })
                &&& after.shell.says(
                    self.shell,
                    if curve { "a curve needs at least 2 points"@ } else { "a polygon needs at least 3 vertices"@ },
                )
            } else if self.guarded() {
                &&& r is Nothing
                &&& after == (App {
                    figure: (FigureHand { poly: None, ..self.figure }),
                    shell: (Shell { status: after.shell.status, needs_redraw: true, ..self.shell }),
                    ..self
                })
                &&& after.shell.status@ == crate::canvas_input::guard_text(self.active_layer())->0
            } else {
                &&& r == (FigureAct::Poly { pts, close: !curve })
                &&& after == (App {
                    figure: (FigureHand { poly: None, anchor_drag: None, ..self.figure }),
                    shell: (Shell { needs_redraw: true, ..self.shell }),
                    ..self
                })
            },
        }
    }

    /// Commits the click list: a loop for the polygon, the open curve through
    /// the points for the curve. The layer in hand is asked again, because the
    /// clicks before this one may have met another.
    pub fn finish_figure_poly(&mut self) -> (r: FigureAct)
        requires
            old(self).doc.wf(),
        ensures
            old(self).poly_finished(*final(self), r),
            old(self).wf() ==> final(self).wf(),
    {
        let curve = self.tools.figure_mode == FigureMode::Curve;
        let pts = match self.figure.poly.take() {
            None => return FigureAct::Nothing,
            Some(p) => p,
        };
        let least: usize = if curve { 2 } else { 3 };
        if pts.len() < least {
            self.set_status(
                if curve { "a curve needs at least 2 points" } else { "a polygon needs at least 3 vertices" },
            );
            return FigureAct::Nothing;
        }
        if self.guard_frame_layer() {
            self.shell.needs_redraw = true;
            return FigureAct::Nothing;
        }
        self.figure.anchor_drag = None;
        self.shell.needs_redraw = true;
        FigureAct::Poly { pts, close: !curve }
    }
}

/// An anchor whose corner is turned twice is as it was, and so is every other.
pub proof fn law_a_corner_turned_twice_is_as_it_was(a: App, b: App, c: App, i: usize, at: Pt, to: Pt)
    requires
        i < a.figure.points().len(),
        a.poly_edited(b, PolyEdit::Corner(i), at),
        b.poly_edited(c, PolyEdit::Corner(i), to),
    ensures
        c.figure.points() == a.figure.points(),
{
    assert(c.figure.points() =~= a.figure.points());
}

/// A point that is put into the list and deleted again leaves the list as it
/// was.
pub proof fn law_a_point_put_in_is_taken_out_again(a: App, b: App, c: App, i: usize, at: Pt, to: Pt)
    requires
        i <= a.figure.points().len(),
        a.poly_edited(b, PolyEdit::Insert(i), at),
        b.poly_edited(c, PolyEdit::Delete(i), to),
    ensures
        c.figure.points() == a.figure.points(),
{
    assert(c.figure.points() =~= a.figure.points());
}

/// What a press of the Figure tool came to.
#[derive(Debug)]
pub enum FigurePress {
    /// The layer in hand takes no ink.
    Refused,
    /// A stroke begins, with the smart shape behind it.
    Stroke,
    /// The press is taken, and this is to be inked.
    Act(FigureAct),
}

/// What the first point of a click list says.
pub open spec fn list_text(curve: bool) -> Seq<char> {
    if curve {
        "click along the curve; Alt+tap a point for a corner, Ctrl+drag moves; Enter inks it"@
    } else {
        "click vertices; tap one to delete it, tap an edge to insert, Ctrl+drag moves; Enter closes"@
    }
}

impl App {
    /// Does the press end the click list? A plain tap back on the first vertex
    /// closes the polygon, one on the last point ends the curve.
    pub open spec fn ends_list(self, ctrl: bool, alt: bool, near: bool) -> bool {
        let least = if self.tools.figure_mode is Curve { 2int } else { 3int };
        self.figure.points().len() >= least && !ctrl && !alt && near
    }

    /// What a press makes of a click list.
    pub open spec fn list_pressed(self, after: App, r: FigurePress, at: Pt, ctrl: bool, alt: bool, near: bool, h: PolyHit) -> bool {
        let curve = self.tools.figure_mode is Curve;
        if self.figure.poly is None {
            if self.guarded() {
                r is Refused && self.refused(after)
            } else {
                &&& r == FigurePress::Act(FigureAct::Nothing)
                &&& after == (App {
                    figure: (FigureHand { poly: after.figure.poly, ..self.figure }),
                    shell: (Shell { status: after.shell.status, needs_redraw: true, ..self.shell }),
                    ..self
                })
                &&& after.figure.poly is Some
                &&& after.figure.points() == seq![fresh_anchor(at)]
                &&& after.shell.status@ == list_text(curve)
            }
        } else if self.ends_list(ctrl, alt, near) {
            r matches FigurePress::Act(act) && self.poly_finished(after, act)
        } else {
            let e = poly_edit(self.tools.figure_mode, self.figure.points(), ctrl, alt, h);
            &&& r == FigurePress::Act(FigureAct::Nothing)
            &&& match e {
                PolyEdit::Append => {
                    &&& after == (App {
                        figure: (FigureHand { poly: after.figure.poly, ..self.figure }),
                        shell: (Shell { needs_redraw: true, ..self.shell }),
                        ..self
                    })
                    &&& after.figure.poly is Some
                    &&& after.figure.points() == self.figure.points().push(fresh_anchor(at))
                },
                PolyEdit::NoCorner => {
                    &&& after == (App {
                        shell: (Shell { status: after.shell.status, needs_redraw: true, ..self.shell }),
                        ..self
                    })
                    &&& after.shell.status@ == "corner/curve only applies to the Continuous curve"@
                },
                _ => self.poly_edited(after, e, at),
            }
        }
    }

    /// What a press of the Figure tool makes of the state.
    pub open spec fn figure_pressed(self, after: App, r: FigurePress, at: Pt, ctrl: bool, alt: bool, near: bool, h: PolyHit) -> bool {
        let mode = self.tools.figure_mode;
        if self.figure.stage2 is Some {
            let aimed = App {
                figure: (FigureHand {
                    stage2: Some(FigureStage2 { cur: at, ..self.figure.stage2->0 }),
                    ..self.figure
                }),
                ..self
            };
            r matches FigurePress::Act(act) && aimed.stage2_finished(after, act)
        } else if mode is Polygon || mode is Curve {
            self.list_pressed(after, r, at, ctrl, alt, near, h)
        } else if !mode.generates_spec() && self.guarded() {
            r is Refused && self.refused(after)
        } else if mode is Smart {
            r is Stroke && after == (App { shell: (Shell { needs_redraw: true, ..self.shell }), ..self })
        } else {
            &&& r == FigurePress::Act(FigureAct::Nothing)
            &&& after == (App {
                figure: (FigureHand { drag: Some((at, at)), ..self.figure }),
                shell: (Shell { needs_redraw: true, ..self.shell }),
                ..self
            })
        }
    }

    fn list_press(&mut self, at: Pt, ctrl: bool, alt: bool, near: bool, h: &PolyHit) -> (r: FigurePress)
        requires
            old(self).doc.wf(),
            old(self).figure.poly is Some ==> hit_fits(old(self).tools.figure_mode, old(self).figure.points(), *h),
        ensures
            old(self).list_pressed(*final(self), r, at, ctrl, alt, near, *h),
    {
        let curve = self.tools.figure_mode == FigureMode::Curve;
        let count: usize = match &self.figure.poly {
            None => {
                if self.guard_frame_layer() {
                    return FigurePress::Refused;
                }
                let mut pts: Vec<FigureAnchor> = Vec::new();
                pts.push(FigureAnchor { p: at, corner: false });
                proof {
                    assert(pts@ =~= seq![fresh_anchor(at)]);
                }
                self.figure.poly = Some(pts);
                self.set_status(
                    if curve {
                        "click along the curve; Alt+tap a point for a corner, Ctrl+drag moves; Enter inks it"
                    } else {
                        "click vertices; tap one to delete it, tap an edge to insert, Ctrl+drag moves; Enter closes"
                    },
                );
                self.shell.needs_redraw = true;
                return FigurePress::Act(FigureAct::Nothing);
            },
            Some(pts) => pts.len(),
        };
        let least: usize = if curve { 2 } else { 3 };
        if count >= least && !ctrl && !alt && near {
            let act = self.finish_figure_poly();
            return FigurePress::Act(act);
        }
        if !self.figure_poly_edit(at, ctrl, alt, h) {
            let mut pts = match self.figure.poly.take() {
                Some(pts) => pts,
                None => Vec::new(),
            };
            pts.push(FigureAnchor { p: at, corner: false });
            self.figure.poly = Some(pts);
        }
        self.shell.needs_redraw = true;
        FigurePress::Act(FigureAct::Nothing)
    }

    /// A press of the Figure tool. A figure in its second stage is committed by
    /// it; else it places or edits a point of a click list, or starts a drag
    /// or a stroke.
    pub fn figure_press(&mut self, at: Pt, ctrl: bool, alt: bool, near: bool, h: &PolyHit) -> (r: FigurePress)
        requires
            old(self).doc.wf(),
            old(self).figure.poly is Some ==> hit_fits(old(self).tools.figure_mode, old(self).figure.points(), *h),
        ensures
            old(self).figure_pressed(*final(self), r, at, ctrl, alt, near, *h),
            old(self).wf() ==> final(self).wf(),
    {
        if let Some(s) = self.figure.stage2 {
            self.figure.stage2 = Some(FigureStage2 { a: s.a, b: s.b, cur: at, kind: s.kind, shift: s.shift });
            let act = self.finish_figure_stage2();
            return FigurePress::Act(act);
        }
        let mode = self.tools.figure_mode;
        if matches!(mode, FigureMode::Polygon | FigureMode::Curve) {
            return self.list_press(at, ctrl, alt, near, h);
        }
        if !mode.generates() && self.guard_frame_layer() {
            return FigurePress::Refused;
        }
        self.shell.needs_redraw = true;
        if mode == FigureMode::Smart {
            return FigurePress::Stroke;
        }
        self.figure.drag = Some((at, at));
        FigurePress::Act(FigureAct::Nothing)
    }
}

/// A sample of the outline stands on one edge, from a vertex to the one behind
/// it, as far along as it is counted; the samples of an edge are sixteen
/// milliseconds behind those of the edge before.
pub proof fn law_every_sample_is_on_its_edge(n: int, counts: Seq<usize>, m: int, i: int, k: int)
    requires
        0 < n <= usize::MAX,
        0 <= m <= counts.len(),
        m <= n,
    ensures
        0 <= i < m && 0 <= k < counts[i] ==> ink_steps(n, counts, m).contains(
            (InkStep {
                from: i as usize,
                to: if i + 1 == n { 0 } else { (i + 1) as usize },
                k: k as usize,
                of: counts[i],
                t: (i * 16 + k) as u128,
            }),
        ),
        forall|j: int|
            0 <= j < ink_steps(n, counts, m).len() ==> {
                let s = #[trigger] ink_steps(n, counts, m)[j];
                &&& s.from < m
                &&& s.of == counts[s.from as int]
                &&& s.k < s.of
                &&& s.to == (if s.from + 1 == n { 0 } else { s.from + 1 })
            },
    decreases m,
{
    if m > 0 {
        law_every_sample_is_on_its_edge(n, counts, m - 1, i, k);
        let head = ink_steps(n, counts, m - 1);
        let tail = edge_steps(n, m - 1, counts[m - 1]);
        let all = ink_steps(n, counts, m);
        assert(all == head + tail);
        assert(m == n ==> m % n == 0) by (nonlinear_arith)
            requires
                n > 0,
        ;
        assert(m < n ==> m % n == m) by (nonlinear_arith)
            requires
                0 < m,
        ;
        assert forall|j: int| 0 <= j < all.len() implies {
            let s = #[trigger] all[j];
            &&& s.from < m
            &&& s.of == counts[s.from as int]
            &&& s.k < s.of
            &&& s.to == (if s.from + 1 == n { 0 } else { s.from + 1 })
        } by {
            if j < head.len() {
                assert(all[j] == head[j]);
            } else {
                assert(all[j] == tail[j - head.len()]);
            }
        }
        if 0 <= i < m && 0 <= k < counts[i] {
            let s = InkStep {
                from: i as usize,
                to: if i + 1 == n { 0 } else { (i + 1) as usize },
                k: k as usize,
                of: counts[i],
                t: (i * 16 + k) as u128,
            };
            if i == m - 1 {
                assert(tail[k] == s);
                assert(all[head.len() + k] == s);
            } else {
                let j = choose|j: int| 0 <= j < head.len() && head[j] == s;
                assert(all[j] == s);
            }
        }
    }
}

/// A closed outline has as many edges as vertices, an open one has one less.
pub proof fn law_an_open_outline_has_one_edge_less(n: int)
    ensures
        edges(n, true) == n,
        edges(n, false) + 1 == n,
{
}

/// What was inked is named.
pub proof fn law_a_figure_is_named(m: FigureMode)
    ensures
        m is Line ==> inked_text(m) == "line inked"@,
        m is Rect ==> inked_text(m) == "rectangle inked"@,
        m is Ellipse ==> inked_text(m) == "ellipse inked"@,
        m is Polygon ==> inked_text(m) == "polygon inked"@,
        m is Curve || m is Arc ==> inked_text(m) == "curve inked"@,
        m is Smart ==> inked_text(m) == "shape inked"@,
        m is Stream || m is Focus ==> inked_text(m) == "lines generated"@,
        m is Urchin || m is SolidFlash ==> inked_text(m) == "flash generated"@,
{
}

/// The release of a drag: an arc waits to be bent, and a figure that can be
/// turned waits to be turned where that is asked for. Nothing is inked while it
/// waits. A tap waits for nothing, and neither do generated lines.
pub proof fn law_a_second_stage_waits(app: App, after: App, r: FigureAct, a: Pt, b: Pt, f: DragFacts)
    requires
        app.drag_released(after, r, a, b, f),
        app.figure.stage2 is None,
    ensures
        ({
            let m = app.tools.figure_mode;
            let bends = !f.tiny && m is Arc;
            let turns = !f.tiny && app.tools.figure_adjust_angle && f.can_adjust && !(m is Arc) && !(m is Stream)
                && !(m is Focus) && !(m is Urchin) && !(m is SolidFlash);
            &&& after.figure.stage2 is Some == (bends || turns)
            &&& bends || turns ==> {
                let s = after.figure.stage2->0;
                &&& r is Nothing
                &&& s.a == a && s.b == b && !s.shift
                &&& after.shell.cmds == app.shell.cmds
                &&& after.tools == app.tools
                &&& s.kind is Bend == bends
                &&& s.kind is Angle == turns
                &&& bends ==> s.cur == f.mid
                &&& turns ==> s.cur == b
                &&& bends ==> after.shell.status@
                    == "now bend it — the curve follows the pointer; click inks it, Esc cancels"@
                &&& turns ==> after.shell.status@
                    == "now set the angle — click or Enter inks it, Shift snaps 15°, Esc cancels"@
            }
        }),
        after.doc == app.doc,
{
}

/// A drag that waits for nothing inks the figure between its two ends. A tap
/// inks nothing, and neither does a figure that is clicked or drawn freely.
pub proof fn law_a_drag_inks_its_figure(app: App, after: App, r: FigureAct, a: Pt, b: Pt, f: DragFacts)
    requires
        app.drag_finished(after, r, a, b, f),
    ensures
        ({
            let m = app.tools.figure_mode;
            let spans = m is Line || m is Rect || m is Ellipse || m is Arc;
            &&& r is Drag == (spans && !f.tiny)
            &&& r is Drag || r is Nothing
            &&& spans && !f.tiny ==> r->Drag_a == a && r->Drag_b == b && after == app
            &&& spans && f.tiny ==> after.shell.status@ == "drag the shape out (line: from start to end)"@
                && after.shell.cmds == app.shell.cmds && after.tools == app.tools
            &&& m is Polygon || m is Curve || m is Smart ==> after == app
        }),
        after.doc == app.doc,
        after.figure == app.figure,
{
}

/// Effect lines are asked for with what the sub tool is set to, as that figure's
/// generator takes it, in the panel that the drag started in. A drag that is too
/// short asks for nothing and keeps the seed; any other moves that sub tool's
/// seed on, and no other setting.
pub proof fn law_effect_lines_are_asked_for(app: App, after: App, r: FigureAct, a: Pt, b: Pt, f: DragFacts)
    requires
        app.drag_finished(after, r, a, b, f),
        app.tools.figure_mode is Stream || app.tools.figure_mode is Focus || app.tools.figure_mode is Urchin
            || app.tools.figure_mode is SolidFlash,
    ensures
        r is Nothing,
        f.short ==> after.tools == app.tools && after.shell.cmds == app.shell.cmds,
        f.short && app.tools.figure_mode is Stream ==> after.shell.status@
            == "drag along the motion to set the angle — the lines cross the panel on their own"@,
        f.short && !(app.tools.figure_mode is Stream) ==> after.shell.status@
            == "drag from the centre out to size the inner hole — the lines reach the border on their own"@,
        !f.short ==> ({
            let stream = app.tools.figure_mode is Stream;
            let o = if stream { app.tools.figure_stream } else { app.tools.figure_focus };
            let now = if stream { after.tools.figure_stream } else { after.tools.figure_focus };
            &&& after.shell.cmds@.len() == app.shell.cmds@.len() + 1
            &&& after.shell.status == app.shell.status
            &&& stream ==> after.tools.figure_focus == app.tools.figure_focus
            &&& !stream ==> after.tools.figure_stream == app.tools.figure_stream
            &&& now == (LineOpts { seed: now.seed, ..o })
            &&& o.seed < u64::MAX ==> now.seed == o.seed + 1
            &&& o.seed == u64::MAX ==> now.seed == 0
            &&& after.shell.cmds@.last() matches AppCmd::GenLinesPlace { spec: g, panel }
            &&& panel == f.panel
            &&& g.focus == !stream
            &&& g.kind == (if app.tools.figure_mode is Urchin {
                1u8
            } else if app.tools.figure_mode is SolidFlash {
                2
            } else {
                0
            })
            &&& g.a == f.a && g.b == f.b && g.c == f.c && g.d == f.d
            &&& g.count == o.count && g.width == o.width && g.jitter == o.jitter && g.seed == o.seed
            &&& g.jit_gap == o.jit_gap && g.jit_len == o.jit_len && g.jit_width == o.jit_width
            &&& app.tools.figure_mode is Focus || stream ==> g.taper == o.taper
            &&& app.tools.figure_mode is Urchin || app.tools.figure_mode is SolidFlash ==> g.taper == 0
            &&& app.tools.figure_mode is Focus ==> g.gap_deg == o.gap_deg
            &&& !(app.tools.figure_mode is Focus) ==> g.gap_deg == 0
            &&& stream ==> g.gap_px == o.gap_px && g.group == o.group && g.group_gap == o.group_gap && g.hand_deg == 0
                && g.anchor == Some(f.mid)
            &&& !stream ==> g.gap_px == 0 && g.group == 0 && g.group_gap == 0 && g.hand_deg == f.hand_deg && g.anchor is None
            &&& g.converge is None
            &&& g.colour.r == 0 && g.colour.g == 0 && g.colour.b == 0
        }),
{
}

/// A figure that waits is inked as it stands, once, and on no layer that cannot
/// take ink.
pub proof fn law_a_waiting_figure_is_inked_once(app: App, after: App, r: FigureAct)
    requires
        app.stage2_finished(after, r),
    ensures
        after.figure.stage2 is None,
        app.figure.stage2 is None ==> r is Nothing && after == app,
        app.figure.stage2 matches Some(s) ==> {
            let l = app.doc.layers@[app.doc.active as int];
            let closed = l.lock || l.folder || l.kind is Frame || l.kind is Balloon || l.kind is Text;
            &&& after.shell.needs_redraw
            &&& closed ==> r is Nothing
            &&& l.lock ==> after.shell.status@ == "layer is locked — unlock it in the Layers palette to edit"@
            &&& !closed ==> r == FigureAct::Stage2(s) && after.shell.status == app.shell.status
        },
        after.figure.poly == app.figure.poly,
        after.doc == app.doc,
        after.shell.cmds == app.shell.cmds,
{
}

/// The click list is inked as it stands, a curve open and a polygon closed. It
/// needs two points for the one and three for the other, and is let go in any
/// case.
pub proof fn law_a_click_list_is_inked_whole(app: App, after: App, r: FigureAct)
    requires
        app.poly_finished(after, r),
        app.figure.poly is Some,
    ensures
        after.figure.poly is None,
        after.doc == app.doc,
        after.shell.cmds == app.shell.cmds,
        ({
            let pts = app.figure.poly->0;
            let l = app.doc.layers@[app.doc.active as int];
            let closed = l.lock || l.folder || l.kind is Frame || l.kind is Balloon || l.kind is Text;
            let curve = app.tools.figure_mode is Curve;
            let enough = pts@.len() >= 3 || (curve && pts@.len() == 2);
            &&& r is Poly == (enough && !closed)
            &&& r is Poly || r is Nothing
            &&& r is Poly ==> r->pts == pts && r->close == !curve
            &&& r is Poly ==> after.figure.anchor_drag is None && after.shell.status == app.shell.status
            &&& !enough && curve ==> after.shell.status@ == "a curve needs at least 2 points"@
            &&& !enough && !curve ==> after.shell.status@ == "a polygon needs at least 3 vertices"@
            &&& enough && l.lock ==> after.shell.status@
                == "layer is locked — unlock it in the Layers palette to edit"@
        }),
{
}

/// A press on a click list, away from every point and line or with a modifier
/// away from every point, adds a point. On a point it takes hold with Ctrl,
/// makes a corner of a curve's point with Alt, and deletes the point with
/// neither. On a line it puts a point in.
pub proof fn law_a_press_edits_what_it_meets(mode: FigureMode, pts: Seq<FigureAnchor>, ctrl: bool, alt: bool, h: PolyHit, i: int)
    requires
        hit_fits(mode, pts, h),
        pts.len() > 0,
    ensures
        (forall|j: int| 0 <= j < h.anchors@.len() ==> !floats::at_most(#[trigger] h.anchors@[j], h.tol)) ==> {
            &&& ctrl || alt ==> poly_edit(mode, pts, ctrl, alt, h) is Append
            &&& (forall|j: int| 0 <= j < h.lines@.len() ==> !floats::at_most(#[trigger] h.lines@[j], h.tol))
                ==> poly_edit(mode, pts, ctrl, alt, h) is Append
            &&& !ctrl && !alt && 0 <= i < h.lines@.len() && floats::at_most(h.lines@[i], h.tol)
                ==> poly_edit(mode, pts, ctrl, alt, h) is Insert
        },
        0 <= i < h.anchors@.len() && floats::at_most(h.anchors@[i], h.tol) ==> {
            &&& ctrl == poly_edit(mode, pts, ctrl, alt, h) is Grab
            &&& !ctrl && alt && mode is Curve ==> poly_edit(mode, pts, ctrl, alt, h) is Corner
            &&& !ctrl && alt && !(mode is Curve) ==> poly_edit(mode, pts, ctrl, alt, h) is NoCorner
            &&& !ctrl && !alt ==> poly_edit(mode, pts, ctrl, alt, h) is Delete
        },
        0 <= i < h.anchors@.len() && floats::at_most(h.anchors@[i], h.tol) && (forall|j: int|
            0 <= j < h.anchors@.len() && j != i ==> !floats::at_most(#[trigger] h.anchors@[j], h.tol)) ==> {
            &&& ctrl ==> poly_edit(mode, pts, ctrl, alt, h) == PolyEdit::Grab(i as usize)
            &&& !ctrl && alt && mode is Curve ==> poly_edit(mode, pts, ctrl, alt, h) == PolyEdit::Corner(i as usize)
            &&& !ctrl && !alt ==> poly_edit(mode, pts, ctrl, alt, h) == PolyEdit::Delete(i as usize)
        },
{
    law_nearest_anchor(h.anchors@, h.tol, h.anchors@.len() as int);
    law_nearest_piece(h.lines@, h.tol, h.lines@.len() as int);
}

/// A point that is put into a polygon stands behind the vertex that its edge
/// starts at.
pub proof fn law_a_point_goes_between_its_neighbours(mode: FigureMode, pts: Seq<FigureAnchor>, h: PolyHit, i: int)
    requires
        hit_fits(mode, pts, h),
        !(mode is Curve),
        pts.len() >= 2,
        pts.len() < usize::MAX,
        0 <= i < h.lines@.len(),
        floats::at_most(h.lines@[i], h.tol),
        forall|j: int| 0 <= j < h.lines@.len() && j != i ==> !floats::at_most(#[trigger] h.lines@[j], h.tol),
        forall|j: int| 0 <= j < h.anchors@.len() ==> !floats::at_most(#[trigger] h.anchors@[j], h.tol),
    ensures
        poly_edit(mode, pts, false, false, h) == PolyEdit::Insert((i + 1) as usize),
{
    law_nearest_anchor(h.anchors@, h.tol, h.anchors@.len() as int);
    law_nearest_piece(h.lines@, h.tol, h.lines@.len() as int);
}

/// An edit touches its own point: a corner is turned, a point goes out or one
/// comes in, and every other point stays as it was, in its order.
pub proof fn law_an_edit_touches_its_own_point(app: App, after: App, e: PolyEdit, at: Pt)
    requires
        app.poly_edited(after, e, at),
    ensures
        after.doc == app.doc,
        after.tools == app.tools,
        after.shell.cmds == app.shell.cmds,
        after.figure.drag == app.figure.drag,
        after.figure.stage2 == app.figure.stage2,
        ({
            let was = app.figure.points();
            let now = after.figure.points();
            &&& e is Append ==> after == app
            &&& e is NoCorner ==> after.figure == app.figure && after.shell.status@
                == "corner/curve only applies to the Continuous curve"@
            &&& e matches PolyEdit::Grab(i) ==> after.figure.anchor_drag == Some(i) && now == was && after.shell.status@
                == "moving that point — release to drop it"@
            &&& e matches PolyEdit::Corner(i) ==> i < was.len() ==> {
                &&& now.len() == was.len()
                &&& now[i as int].corner == !was[i as int].corner
                &&& now[i as int].p == was[i as int].p
                &&& forall|j: int| 0 <= j < was.len() && j != i ==> #[trigger] now[j] == was[j]
                &&& was[i as int].corner ==> after.shell.status@ == "smooth point — the curve sweeps through"@
                &&& !was[i as int].corner ==> after.shell.status@ == "corner point — the curve creases here"@
            }
            &&& e matches PolyEdit::Delete(i) ==> i < was.len() ==> {
                &&& now.len() + 1 == was.len()
                &&& forall|j: int| 0 <= j < i ==> #[trigger] now[j] == was[j]
                &&& forall|j: int| i <= j < now.len() ==> #[trigger] now[j] == was[j + 1]
                &&& was.len() == 1 ==> after.figure.poly is None && after.shell.status@
                    == "figure cancelled — no points left"@
            }
            &&& e matches PolyEdit::Insert(i) ==> i <= was.len() ==> {
                &&& now.len() == was.len() + 1
                &&& now[i as int].p == at
                &&& !now[i as int].corner
                &&& forall|j: int| 0 <= j < i ==> #[trigger] now[j] == was[j]
                &&& forall|j: int| i < j < now.len() ==> #[trigger] now[j] == was[j - 1]
            }
        }),
{
}

/// A press of the Figure tool: a figure that waits is aimed at the press and
/// inked, the figures of the click list take a point, a free shape is drawn as a
/// stroke, and any other starts a drag where the press fell.
pub proof fn law_a_press_starts_its_figure(
    app: App,
    after: App,
    r: FigurePress,
    at: Pt,
    ctrl: bool,
    alt: bool,
    near: bool,
    h: PolyHit,
)
    requires
        app.figure_pressed(after, r, at, ctrl, alt, near, h),
    ensures
        after.doc == app.doc,
        after.tools == app.tools,
        ({
            let m = app.tools.figure_mode;
            let l = app.doc.layers@[app.doc.active as int];
            let closed = l.lock || l.folder || l.kind is Frame || l.kind is Balloon || l.kind is Text;
            let lines = m is Stream || m is Focus || m is Urchin || m is SolidFlash;
            let listed = m is Polygon || m is Curve;
            &&& app.figure.stage2 is Some && !closed ==> (r matches FigurePress::Act(FigureAct::Stage2(s)) && s.cur == at
                && s.a == app.figure.stage2->0.a && s.b == app.figure.stage2->0.b && s.kind == app.figure.stage2->0.kind
                && after.figure.stage2 is None)
            &&& app.figure.stage2 is Some && closed ==> r == FigurePress::Act(FigureAct::Nothing)
            &&& app.figure.stage2 is None && !listed && !lines && closed ==> r is Refused && after == (App {
                shell: after.shell,
                ..app
            }) && after.shell.cmds == app.shell.cmds
            &&& app.figure.stage2 is None && !listed && l.lock && !lines ==> after.shell.status@
                == "layer is locked — unlock it in the Layers palette to edit"@
            &&& app.figure.stage2 is None && m is Smart && !closed ==> r is Stroke && after.figure == app.figure
            &&& app.figure.stage2 is None && !listed && !(m is Smart) && (lines || !closed) ==> r == FigurePress::Act(
                FigureAct::Nothing,
            ) && after.figure.drag == Some((at, at)) && after.figure.poly == app.figure.poly && after.shell.needs_redraw
            &&& app.figure.stage2 is None && listed && app.figure.poly is None && closed ==> r is Refused
                && after.figure == app.figure
            &&& app.figure.stage2 is None && listed && app.figure.poly is None && !closed ==> {
                &&& r == FigurePress::Act(FigureAct::Nothing)
                &&& after.figure.poly is Some
                &&& after.figure.points().len() == 1
                &&& after.figure.points()[0].p == at
                &&& !after.figure.points()[0].corner
                &&& after.shell.needs_redraw
                &&& m is Curve ==> after.shell.status@
                    == "click along the curve; Alt+tap a point for a corner, Ctrl+drag moves; Enter inks it"@
                &&& m is Polygon ==> after.shell.status@
                    == "click vertices; tap one to delete it, tap an edge to insert, Ctrl+drag moves; Enter closes"@
            }
            &&& app.figure.stage2 is None && listed && app.figure.poly is Some ==> {
                let pts = app.figure.poly->0@;
                let ends = near && !ctrl && !alt && (pts.len() >= 3 || (m is Curve && pts.len() == 2));
                &&& ends ==> after.figure.poly is None
                &&& ends && !closed ==> (r matches FigurePress::Act(FigureAct::Poly { pts: inked, close }) && inked@ == pts
                    && close == (m is Polygon))
                &&& !ends ==> r == FigurePress::Act(FigureAct::Nothing)
                &&& !ends && poly_edit(m, pts, ctrl, alt, h) is Append ==> {
                    &&& after.figure.points().len() == pts.len() + 1
                    &&& after.figure.points().last().p == at
                    &&& !after.figure.points().last().corner
                    &&& forall|j: int| 0 <= j < pts.len() ==> #[trigger] after.figure.points()[j] == pts[j]
                }
            }
        }),
{
}

/// Backspace takes the last point back and leaves the others; with the only one
/// the figure is cancelled.
pub proof fn law_the_last_point_is_taken_back(app: App, after: App, k: int)
    requires
        app.point_undone(after),
    ensures
        app.figure.poly is None ==> after == app,
        app.figure.poly matches Some(p) ==> {
            &&& p@.len() > 1 ==> after.figure.poly is Some && after.figure.points().len() == p@.len() - 1
            &&& p@.len() > 1 && 0 <= k < p@.len() - 1 ==> after.figure.points()[k] == p@[k]
            &&& p@.len() <= 1 ==> after.figure.poly is None && after.shell.status@
                == "figure cancelled — nothing left to take back"@
            &&& after.shell.needs_redraw
            &&& after.doc == app.doc
            &&& after.figure.stage2 == app.figure.stage2
        },
{
}

/// The held point goes to the pointer and keeps its corner; every other point
/// stays. A point that is gone is let go.
pub proof fn law_the_held_point_goes_to_the_pointer(app: App, after: App, at: Pt, k: int)
    requires
        app.anchor_moved(after, at),
    ensures
        app.figure.anchor_drag is None ==> after == app,
        app.figure.anchor_drag matches Some(i) ==> {
            let was = app.figure.points();
            let now = after.figure.points();
            &&& now.len() == was.len()
            &&& i < was.len() ==> now[i as int].p == at && now[i as int].corner == was[i as int].corner
                && after.figure.anchor_drag == Some(i)
            &&& 0 <= k < was.len() && k != i ==> now[k] == was[k]
            &&& i >= was.len() ==> after.figure.anchor_drag is None
            &&& after.shell.needs_redraw
            &&& after.doc == app.doc
        },
{
}

/// A figure of two vertices or more is inked up to its last vertex; its area is
/// filled where it is closed, has one, and that is asked for.
pub proof fn law_a_figure_is_inked_to_its_end(n: usize, close: bool, figure_fill: bool, counts: Seq<usize>, r: Option<InkPlan>)
    requires
        planned(n, close, figure_fill, counts, r),
    ensures
        n < 2 ==> r is None,
        n >= 2 ==> (r matches Some(p) && {
            &&& p.end == n - 1
            &&& n == 2 || !close || !figure_fill ==> !p.fill
            &&& n > 2 && close && figure_fill ==> p.fill
            &&& p.end_t == p.steps@.len() * 4 + 16
        }),
{
}

} // verus!
