//! Canvas pointer input: what a press, a drag and a release mean, for every
//! tool. One place decides; the order of the checks is the priority of the
//! gestures.

use vstd::prelude::*;
use crate::app::{App, AppCmd, FillHand, FrameHand, Hold, PaintHand, SelectHand, Shell, Trace};
use crate::doc::Layer;
use crate::figure::{FigureAct, FigurePress, PolyHit};
use crate::fill_repair::FillRepair;
use crate::geom::{Pt, Sample};
use crate::modes::{FillMode, FrameMode, GradMode, Mods, ObjectMode, PanMode, SelectMode, SelectionOp, Tool};
use crate::text;
use crate::transform::FloatHit;

verus! {

/// What part of a frame an Object-tool drag grabbed.
#[derive(Clone, Copy, PartialEq, Eq, Structural, Debug)]
pub enum ObjectDragMode {
    MoveWhole,
    Vertex(usize),
    /// Edge i to i+1: both endpoints move together.
    Edge(usize),
    /// Rotation lollipop: the polygon spins around its centroid.
    Rotate,
    /// Bbox corner i (0=TL, 1=TR, 2=BR, 3=BL): uniform scale around the
    /// opposite corner.
    ScaleCorner(usize),
    /// Bbox edge i (0=top, 1=right, 2=bottom, 3=left): stretch of one axis
    /// around the opposite edge.
    ScaleEdge(usize),
}

/// Bbox corner `i`'s opposite corner index.
pub fn opposite_corner(i: usize) -> (r: usize)
    requires
        i + 2 <= usize::MAX,
    ensures
        r == (i + 2) % 4,
        i < 4 ==> r < 4 && (r == i + 2 || r + 2 == i),
{
    (i + 2) % 4
}

/// Which driver handle of a generated effect-line layer a drag grabbed.
#[derive(Clone, Copy, PartialEq, Eq, Structural, Debug)]
pub enum GenDragMode {
    Center,
    RIn,
    ROut,
    Angle,
    LenMin,
    LenMax,
}

/// A driver drag on a generated layer; the release generates it anew.
#[derive(Clone, Copy, PartialEq, Eq, Structural, Debug)]
pub struct GenLinesDrag {
    pub layer: usize,
    pub mode: GenDragMode,
    pub start: Pt,
    pub cur: Pt,
}

/// What part of a ruler is held.
#[derive(Clone, Copy, PartialEq, Eq, Structural, Debug)]
pub enum RulerGrab {
    Anchor(usize),
    Body,
}

/// A ruler that is being moved. `ruler` counts the items first, then the curves.
#[derive(Clone, Copy, PartialEq, Eq, Structural, Debug)]
pub struct RulerMove {
    pub ruler: usize,
    pub grab: RulerGrab,
    pub last: Pt,
    /// Did the pointer travel? A press that only grabs is not a move.
    pub moved: bool,
}

/// An Object-tool drag on a frame; the document keeps the original until release.
#[derive(Clone, Copy, PartialEq, Eq, Structural, Debug)]
pub struct ObjectDrag {
    pub layer: usize,
    pub frame: usize,
    pub mode: ObjectDragMode,
    pub start: Pt,
    pub cur: Pt,
    pub shift_snap: bool,
}

/// A drag of a whole multi-selection.
#[derive(Clone, Copy, PartialEq, Eq, Structural, Debug)]
pub struct GroupObjDrag {
    pub start: Pt,
    pub cur: Pt,
}

/// A drag of a live tone layer's lattice.
#[derive(Clone, Copy, PartialEq, Eq, Structural, Debug)]
pub struct FillLatticeDrag {
    pub layer: usize,
    pub start: Pt,
    pub cur: Pt,
}

/// A handle of a balloon.
#[derive(Clone, Copy, PartialEq, Eq, Structural, Debug)]
pub enum BalloonHandle {
    Shape(usize),
    TailTip(usize),
    TailBase(usize),
}

/// What part of a balloon an Object-tool drag grabbed.
#[derive(Clone, Copy, PartialEq, Eq, Structural, Debug)]
pub enum BalloonDragMode {
    MoveWhole,
    Handle(BalloonHandle),
    BoxCorner(usize),
    BoxEdge(usize),
    BoxRotate,
}

/// An Object-tool drag on a balloon; same lifecycle as [`ObjectDrag`].
#[derive(Clone, Copy, PartialEq, Eq, Structural, Debug)]
pub struct BalloonObjDrag {
    pub layer: usize,
    pub balloon: usize,
    pub mode: BalloonDragMode,
    pub start: Pt,
    pub cur: Pt,
    pub shift_snap: bool,
}

/// One Object-tool referent.
#[derive(Clone, Copy, PartialEq, Eq, Structural, Debug)]
pub enum ObjRef {
    Text(usize, usize),
    Gen(usize),
    Balloon(usize, usize),
    Frame(usize, usize),
}

impl ObjRef {
    /// The referent in words.
    pub open spec fn label_spec(self) -> Seq<char> {
        match self {
            ObjRef::Text(_, _) => "text"@,
            ObjRef::Gen(_) => "effect lines"@,
            ObjRef::Balloon(_, _) => "balloon"@,
            ObjRef::Frame(_, _) => "frame"@,
        }
    }

    /// The referent in words.
    pub fn label(&self) -> (r: &'static str)
        ensures
            r@ == self.label_spec(),
    {
        match self {
            ObjRef::Text(_, _) => "text",
            ObjRef::Gen(_) => "effect lines",
            ObjRef::Balloon(_, _) => "balloon",
            ObjRef::Frame(_, _) => "frame",
        }
    }
}

/// Why ink may not land on this layer: its raster would be made anew from
/// something else, or it is locked, or it holds other layers.
pub open spec fn guard_text(l: Layer) -> Option<Seq<char>> {
    if l.lock {
        Some("layer is locked — unlock it in the Layers palette to edit"@)
    } else if l.kind is Frame {
        if l.folder {
            Some("this is the frame folder itself — pick a layer inside it to draw"@)
        } else {
            Some("frame layers hold panel borders — pick a raster layer to draw"@)
        }
    } else if l.folder {
        Some("folders organise layers — pick a layer inside to draw"@)
    } else if l.kind is Balloon {
        Some("balloon layers hold speech bubbles — pick a raster layer to draw"@)
    } else if l.kind is Text {
        Some("text layers hold text boxes — T edits, pick a raster layer to draw"@)
    } else {
        None
    }
}

impl App {
    /// The layer in hand.
    pub open spec fn active_layer(self) -> Layer {
        self.doc.layers@[self.doc.active as int]
    }

    /// May ink not land on the layer in hand?
    pub open spec fn guarded(self) -> bool {
        guard_text(self.active_layer()) is Some
    }

    /// What a refused press changes: nothing but what is said.
    pub open spec fn refused(self, after: App) -> bool {
        &&& after == (App { shell: after.shell, ..self })
        &&& after.shell.says(self.shell, guard_text(self.active_layer())->0)
    }

    /// Says why ink may not land on the layer in hand, instead of eating it;
    /// true when it may not.
    pub fn guard_frame_layer(&mut self) -> (r: bool)
        requires
            old(self).doc.wf(),
        ensures
            r == old(self).guarded(),
            r ==> old(self).refused(*final(self)),
            !r ==> *final(self) == *old(self),
            old(self).doc.layers@[old(self).doc.active as int].lock ==> r,
            old(self).wf() ==> final(self).wf(),
    {
        let l = &self.doc.layers[self.doc.active];
        let why: &str = if l.lock {
            "layer is locked — unlock it in the Layers palette to edit"
        } else if l.is_frame() {
            if l.folder {
                "this is the frame folder itself — pick a layer inside it to draw"
            } else {
                "frame layers hold panel borders — pick a raster layer to draw"
            }
        } else if l.folder {
            "folders organise layers — pick a layer inside to draw"
        } else if l.is_balloon() {
            "balloon layers hold speech bubbles — pick a raster layer to draw"
        } else if l.is_text() {
            "text layers hold text boxes — T edits, pick a raster layer to draw"
        } else {
            return false;
        };
        self.set_status(why);
        true
    }
}

/// A press on the canvas, and what the shell measured of it.
#[derive(Debug)]
pub struct Press {
    pub screen: Pt,
    pub at: Pt,
    /// The pixel that the press is nearest to.
    pub px: (i32, i32),
    pub mods: Mods,
    /// How a selection meets the one that stands, with the keys that are held.
    pub op: SelectionOp,
    /// It follows the press before it at once and at the same place.
    pub again: bool,
    pub radius: u32,
    pub pressure: u32,
    /// The press is inside the selection.
    pub in_selection: bool,
    /// The press is on the point that would end the list under way.
    pub near: bool,
    pub poly: PolyHit,
    pub float: FloatHit,
    /// The brush size, and as it is shown.
    pub size_px: u32,
    pub size_shown: String,
    /// The name of the liquify mode.
    pub warp: String,
}

/// What is still to be done about a press.
#[derive(Debug)]
pub enum DownAct {
    Done,
    ZoomIn,
    ZoomOut,
    BeginRotate,
    BeginPan,
    /// Try the Object tool's grab; if it takes nothing, the press draws.
    TryObject,
    Stroke,
    SmartStroke,
    /// Start the magnetic trace, or freeze an anchor of it, or close it.
    MagneticStart,
    MagneticAnchor,
    MagneticClose,
    Ink(FigureAct),
    BeginWarp,
    FinishFramePoly,
    PickLayer,
    /// The Object tool's own steps follow.
    Object,
    TextTool,
}

/// Where a press goes. The order of the checks is the priority of the
/// gestures: the view comes before the float, the float before the modifiers,
/// and those before the tools.
#[derive(Clone, Copy, PartialEq, Eq, Structural, Debug)]
pub enum Route {
    /// The document is being rebuilt: nothing happens.
    Frozen,
    /// The stroke is a wall for the refill.
    Barrier,
    /// A ruler waits to be placed.
    Ruler,
    ZoomIn,
    ZoomOut,
    Rotate,
    Pan,
    Float,
    SizeDrag,
    TryObject,
    Eyedrop,
    Tool,
}

/// How deep into a run of clicks a press is.
pub open spec fn click_run(depth: u8, again: bool) -> u8 {
    if !again {
        1
    } else if depth == u8::MAX {
        u8::MAX
    } else {
        (depth + 1) as u8
    }
}

/// Is the next stroke a wall?
pub open spec fn barrier_armed(f: FillHand) -> bool {
    f.repair matches Some(r) && r.virtual_barrier
}

/// Where a press goes.
pub open spec fn route(app: App, m: Mods) -> Route {
    let tool = app.tools.tool;
    if app.hold.resample_job {
        Route::Frozen
    } else if barrier_armed(app.fill) {
        Route::Barrier
    } else if app.rulers.pending is Some {
        Route::Ruler
    } else if app.hold.space_down && m.ctrl {
        Route::ZoomIn
    } else if app.hold.space_down && m.alt {
        Route::ZoomOut
    } else if app.hold.space_down {
        if m.shift { Route::Rotate } else { Route::Pan }
    } else if tool is Pan {
        if app.tools.pan_mode is Rotate { Route::Rotate } else { Route::Pan }
    } else if app.hold.transform_drag is Some {
        Route::Float
    } else if tool.draws_spec() && m.ctrl && m.alt {
        Route::SizeDrag
    } else if tool.draws_spec() && m.ctrl {
        Route::TryObject
    } else if (tool.draws_spec() || tool is Fill) && m.alt {
        Route::Eyedrop
    } else {
        Route::Tool
    }
}

/// The view's gestures come first: with Space held no press reaches a tool, a
/// float or a modifier.
pub proof fn law_space_takes_the_press(app: App, m: Mods)
    requires
        app.hold.space_down,
        !app.hold.resample_job,
        !barrier_armed(app.fill),
        app.rulers.pending is None,
    ensures
        ({
            let r = route(app, m);
            r is ZoomIn || r is ZoomOut || r is Rotate || r is Pan
        }),
{
}

/// Ctrl and Alt together never pick a colour with a drawing tool.
pub proof fn law_ctrl_alt_picks_no_colour(app: App, m: Mods)
    requires
        m.ctrl,
        m.alt,
        app.tools.tool.draws_spec(),
    ensures
        !(route(app, m) is Eyedrop),
        !(route(app, m) is Tool),
{
}

/// An open float takes every press that the view does not.
pub proof fn law_the_float_owns_the_canvas(app: App, m: Mods)
    requires
        app.hold.transform_drag is Some,
        !app.hold.resample_job,
        !barrier_armed(app.fill),
        app.rulers.pending is None,
        !app.hold.space_down,
        !(app.tools.tool is Pan),
    ensures
        route(app, m) is Float,
{
}

impl App {
    /// The state as every press begins: the view is the hand's own from here
    /// on, and the run of clicks goes on or begins anew.
    pub open spec fn touched(self, again: bool) -> App {
        App {
            hold: (Hold {
                startup_fit_pending: false,
                click_depth: click_run(self.hold.click_depth, again),
                ..self.hold
            }),
            ..self
        }
    }

    /// The state with the canvas to be drawn anew.
    pub open spec fn redrawn(self) -> App {
        App { shell: (Shell { needs_redraw: true, ..self.shell }), ..self }
    }

    /// The state with a command and the canvas to be drawn anew.
    pub open spec fn asked(self, after: App, c: AppCmd) -> bool {
        &&& after == (App { shell: (Shell { cmds: after.shell.cmds, needs_redraw: true, ..self.shell }), ..self })
        &&& after.shell.cmds@ == self.shell.cmds@.push(c)
    }

    /// The state with a word and the canvas to be drawn anew.
    pub open spec fn told(self, after: App, s: Seq<char>) -> bool {
        &&& after == (App { shell: (Shell { status: after.shell.status, needs_redraw: true, ..self.shell }), ..self })
        &&& after.shell.status@ == s
    }

    /// Does a press of the Select tool move the selection? One inside it does,
    /// unless it combines, or the layer's pixels are derived.
    pub open spec fn moves_selection(self, p: Press) -> bool {
        p.op is Replace && self.doc.selection && p.in_selection && !self.active_layer().is_vector_spec()
    }

    /// What a press of the Select tool makes of the state.
    pub open spec fn select_pressed(self, after: App, r: DownAct, p: Press) -> bool {
        if self.tools.select_mode is Magnetic {
            match self.select.magnetic {
                Some(t) => if t.anchors@.len() >= 3 && p.near {
                    r is MagneticClose && after == self.redrawn()
                } else {
                    &&& r is MagneticAnchor
                    &&& after == (App {
                        select: (SelectHand { magnetic: after.select.magnetic, ..self.select }),
                        ..self.redrawn()
                    })
                    &&& after.select.magnetic matches Some(now)
                    &&& now.anchors@ == t.anchors@.push(p.px)
                },
                None => {
                    &&& r is MagneticStart
                    &&& (App { select: (SelectHand { magnetic: after.select.magnetic, ..self.select }), ..self }).told(
                        after,
                        "magnetic lasso: trace along the line — Backspace undoes an anchor, Enter closes"@,
                    )
                    &&& after.select.magnetic matches Some(now)
                    &&& now.anchors@ == seq![p.px]
                },
            }
        } else if self.moves_selection(p) {
            &&& r is Done
            &&& after == (App { select: (SelectHand { moving: Some((p.at, p.at)), ..self.select }), ..self.redrawn() })
        } else {
            &&& r is Done
            &&& after == (App { select: (SelectHand { drag: after.select.drag, ..self.select }), ..self.redrawn() })
            &&& after.select.drag matches Some(d)
            &&& d@ == seq![p.at]
        }
    }

    /// What a press of the Frame tool makes of the state.
    pub open spec fn frame_pressed(self, after: App, r: DownAct, p: Press) -> bool {
        match self.tools.frame_mode {
            FrameMode::Polyline => match self.frames.poly {
                Some(pts) => if pts@.len() >= 3 && p.near {
                    r is FinishFramePoly && after == self.redrawn()
                } else {
                    &&& r is Done
                    &&& after == (App { frames: (FrameHand { poly: after.frames.poly, ..self.frames }), ..self.redrawn() })
                    &&& after.frames.poly matches Some(now)
                    &&& now@ == pts@.push(p.at)
                },
                None => {
                    &&& r is Done
                    &&& (App { frames: (FrameHand { poly: after.frames.poly, ..self.frames }), ..self }).told(
                        after,
                        "click corners; click the first one (or Enter) to close, Esc cancels"@,
                    )
                    &&& after.frames.poly matches Some(now)
                    &&& now@ == seq![p.at]
                },
            },
            FrameMode::Pen => {
                &&& r is Done
                &&& after == (App { frames: (FrameHand { pen: after.frames.pen, ..self.frames }), ..self.redrawn() })
                &&& after.frames.pen matches Some(now)
                &&& now@ == seq![p.at]
            },
            _ => {
                &&& r is Done
                &&& after == (App { frames: (FrameHand { drag: Some((p.at, p.at)), ..self.frames }), ..self.redrawn() })
            },
        }
    }

    /// What a press of the Fill tool makes of the state.
    pub open spec fn fill_pressed(self, after: App, p: Press) -> bool {
        if self.tools.fill_mode is Click {
            self.asked(after, AppCmd::Fill(p.at))
        } else {
            &&& after == (App { fill: (FillHand { drag: after.fill.drag, ..self.fill }), ..self.redrawn() })
            &&& after.fill.drag matches Some(d)
            &&& d@ == seq![p.at]
        }
    }

    /// What the start of a balloon makes of the state.
    pub open spec fn balloon_pressed(self, after: App, p: Press) -> bool {
        let s = Sample { at: p.at, pressure: p.pressure };
        &&& after == (App { paint: (PaintHand { balloon: after.paint.balloon, ..self.paint }), ..self.redrawn() })
        &&& after.paint.balloon matches Some(d)
        &&& d@ == seq![s, s]
    }

    /// What a press makes of the state, once it has come to the tool.
    pub open spec fn tool_pressed(self, after: App, r: DownAct, p: Press) -> bool {
        let tool = self.tools.tool;
        let inks = tool is Pen || tool is Eraser || tool is Fill || tool is Gradient || tool is Liquify;
        if inks && self.guarded() {
            r is Done && self.refused(after)
        } else {
            match tool {
                Tool::Pen | Tool::Eraser | Tool::SelPen | Tool::SelEraser => r is Stroke && after == self.redrawn(),
                Tool::Fill => r is Done && self.fill_pressed(after, p),
                Tool::Tone => r is Done && self.asked(after, AppCmd::ToneRegion(p.at)),
                Tool::Wand => r is Done && self.asked(after, AppCmd::MagicSelect(p.at, p.op)),
                Tool::Eyedrop => r is Done && self.asked(after, AppCmd::PickColor(p.at)),
                Tool::Select => self.select_pressed(after, r, p),
                Tool::Figure => exists|f: FigurePress|
                    #[trigger] self.figure_pressed(after, f, p.at, p.mods.ctrl, p.mods.alt, p.near, p.poly) && r == (match f {
                        FigurePress::Refused => DownAct::Done,
                        FigurePress::Stroke => DownAct::SmartStroke,
                        FigurePress::Act(a) => DownAct::Ink(a),
                    }),
                Tool::Gradient => {
                    &&& r is Done
                    &&& if self.tools.grad_mode is Freeform {
                        self.redrawn().guide_begun(after, p.at)
                    } else {
                        after == (App { paint: (PaintHand { grad: Some((p.at, p.at)), ..self.paint }), ..self.redrawn() })
                    }
                },
                Tool::Liquify => {
                    &&& r is BeginWarp
                    &&& (App { paint: (PaintHand { liquify: Some(p.at), ..self.paint }), ..self }).told(
                        after,
                        text::framed(""@, p.warp@, " — drag to warp; hold to keep working (Alt inverts)"@),
                    )
                },
                Tool::Frame => self.frame_pressed(after, r, p),
                Tool::Balloon => r is Done && self.balloon_pressed(after, p),
                Tool::Object => {
                    &&& after == self.redrawn()
                    &&& if self.tools.object_mode is PickLayer { r is PickLayer } else { r is Object }
                },
                Tool::Text => r is TextTool && after == self.redrawn(),
                Tool::Pan => r is Done && after == self,
            }
        }
    }

    /// What a press makes of the state, once it is known where it goes.
    pub open spec fn routed(self, after: App, r: DownAct, p: Press, way: Route) -> bool {
        match way {
            Route::Frozen => r is Done && after == self,
            Route::Barrier => {
                &&& r is Done
                &&& after == (App { fill: (FillHand { repair: after.fill.repair, ..self.fill }), ..self.redrawn() })
                &&& after.fill.repair matches Some(f)
                &&& f == (FillRepair { pts: f.pts, radius: p.radius, ..self.fill.repair->0 })
                &&& f.pts@ == seq![p.at]
            },
            Route::Ruler => r is Done && self.ruler_pressed(after, p.at, self.hold.click_depth >= 2),
            Route::ZoomIn => r is ZoomIn && after == self,
            Route::ZoomOut => r is ZoomOut && after == self,
            Route::Rotate => r is BeginRotate && after == self,
            Route::Pan => r is BeginPan && after == self,
            Route::Float => {
                &&& r is Done
                &&& after == (App { hold: (Hold { transform_drag: after.hold.transform_drag, ..self.hold }), ..self.redrawn() })
                &&& after.hold.transform_drag matches Some(d)
                &&& crate::transform::float_pressed(self.hold.transform_drag->0, d, p.at, p.mods.alt, p.float)
            },
            Route::SizeDrag => {
                &&& r is Done
                &&& (App { hold: (Hold { size_drag: Some((p.screen.x, p.size_px)), ..self.hold }), ..self }).told(
                    after,
                    text::framed("brush size: "@, p.size_shown@, " px"@),
                )
            },
            Route::TryObject => r is TryObject && after == self,
            Route::Eyedrop => r is Done && self.asked(after, AppCmd::PickColor(p.at)),
            Route::Tool => self.tool_pressed(after, r, p),
        }
    }

    /// What a press makes of the state.
    pub open spec fn pressed(self, after: App, r: DownAct, p: Press) -> bool {
        let way = route(self, p.mods);
        if way is Frozen {
            r is Done && after == self
        } else {
            self.touched(p.again).routed(after, r, p, way)
        }
    }

    /// Do the measurements belong to what is under way?
    pub open spec fn press_fits(self, p: Press) -> bool {
        &&& self.figure.poly is Some ==> crate::figure::hit_fits(self.tools.figure_mode, self.figure.points(), p.poly)
        &&& self.hold.transform_drag matches Some(d) ==> crate::transform::float_fits(d, p.float)
    }

    fn ask(&mut self, c: AppCmd)
        ensures
            old(self).asked(*final(self), c),
    {
        self.push_cmd(c);
        self.shell.needs_redraw = true;
    }

    fn tell(&mut self, s: &str)
        ensures
            old(self).told(*final(self), s@),
    {
        self.set_status(s);
        self.shell.needs_redraw = true;
    }

    fn select_press(&mut self, p: &Press) -> (r: DownAct)
        requires
            old(self).doc.wf(),
        ensures
            old(self).select_pressed(*final(self), r, *p),
            old(self).wf() ==> final(self).wf(),
    {
        if self.tools.select_mode == SelectMode::Magnetic {
            match self.select.magnetic.take() {
                Some(mut t) => {
                    self.shell.needs_redraw = true;
                    if t.anchors.len() >= 3 && p.near {
                        self.select.magnetic = Some(t);
                        return DownAct::MagneticClose;
                    }
                    t.anchors.push(p.px);
                    self.select.magnetic = Some(t);
                    return DownAct::MagneticAnchor;
                },
                None => {
                    let mut anchors: Vec<(i32, i32)> = Vec::new();
                    anchors.push(p.px);
                    proof {
                        assert(anchors@ =~= seq![p.px]);
                    }
                    self.select.magnetic = Some(Trace { anchors });
                    self.tell("magnetic lasso: trace along the line — Backspace undoes an anchor, Enter closes");
                    return DownAct::MagneticStart;
                },
            }
        }
        let inside = p.op == SelectionOp::Replace && self.doc.selection && p.in_selection
            && !self.doc.layers[self.doc.active].is_vector();
        if inside {
            self.select.moving = Some((p.at, p.at));
        } else {
            self.select.drag = Some(one_point(p.at));
        }
        self.shell.needs_redraw = true;
        DownAct::Done
    }

    fn frame_press(&mut self, p: &Press) -> (r: DownAct)
        ensures
            old(self).frame_pressed(*final(self), r, *p),
            old(self).wf() ==> final(self).wf(),
    {
        match self.tools.frame_mode {
            FrameMode::Polyline => match self.frames.poly.take() {
                Some(mut pts) => {
                    self.shell.needs_redraw = true;
                    if pts.len() >= 3 && p.near {
                        self.frames.poly = Some(pts);
                        return DownAct::FinishFramePoly;
                    }
                    pts.push(p.at);
                    self.frames.poly = Some(pts);
                },
                None => {
                    self.frames.poly = Some(one_point(p.at));
                    self.tell("click corners; click the first one (or Enter) to close, Esc cancels");
                },
            },
            FrameMode::Pen => {
                self.frames.pen = Some(one_point(p.at));
                self.shell.needs_redraw = true;
            },
            _ => {
                self.frames.drag = Some((p.at, p.at));
                self.shell.needs_redraw = true;
            },
        }
        DownAct::Done
    }

    fn tool_press(&mut self, p: &Press) -> (r: DownAct)
        requires
            old(self).doc.wf(),
            old(self).press_fits(*p),
        ensures
            old(self).tool_pressed(*final(self), r, *p),
            old(self).wf() ==> final(self).wf(),
    {
        let tool = self.tools.tool;
        if matches!(tool, Tool::Pen | Tool::Eraser | Tool::Fill | Tool::Gradient | Tool::Liquify) {
            if self.guard_frame_layer() {
                return DownAct::Done;
            }
        }
        match tool {
            Tool::Pen | Tool::Eraser | Tool::SelPen | Tool::SelEraser => {
                self.shell.needs_redraw = true;
                DownAct::Stroke
            },
            Tool::Fill => {
                if self.tools.fill_mode == FillMode::Click {
                    self.ask(AppCmd::Fill(p.at));
                } else {
                    self.fill.drag = Some(one_point(p.at));
                    self.shell.needs_redraw = true;
                }
                DownAct::Done
            },
            Tool::Tone => {
                self.ask(AppCmd::ToneRegion(p.at));
                DownAct::Done
            },
            Tool::Wand => {
                self.ask(AppCmd::MagicSelect(p.at, p.op));
                DownAct::Done
            },
            Tool::Eyedrop => {
                self.ask(AppCmd::PickColor(p.at));
                DownAct::Done
            },
            Tool::Select => self.select_press(p),
            Tool::Figure => {
                let f = self.figure_press(p.at, p.mods.ctrl, p.mods.alt, p.near, &p.poly);
                let ghost g = f;
                proof {
                    assert(old(self).figure_pressed(*self, g, p.at, p.mods.ctrl, p.mods.alt, p.near, p.poly));
                }
                match f {
                    FigurePress::Refused => DownAct::Done,
                    FigurePress::Stroke => DownAct::SmartStroke,
                    FigurePress::Act(a) => DownAct::Ink(a),
                }
            },
            Tool::Gradient => {
                self.shell.needs_redraw = true;
                if self.tools.grad_mode == GradMode::Freeform {
                    self.begin_grad_free(p.at);
                } else {
                    self.paint.grad = Some((p.at, p.at));
                }
                DownAct::Done
            },
            Tool::Liquify => {
                self.paint.liquify = Some(p.at);
                let s = text::frame_line("", p.warp.as_str(), " — drag to warp; hold to keep working (Alt inverts)");
                self.shell.status = s;
                self.shell.needs_redraw = true;
                DownAct::BeginWarp
            },
            Tool::Frame => self.frame_press(p),
            Tool::Balloon => {
                let s = Sample { at: p.at, pressure: p.pressure };
                let mut d: Vec<Sample> = Vec::new();
                d.push(s);
                d.push(s);
                proof {
                    assert(d@ =~= seq![s, s]);
                }
                self.paint.balloon = Some(d);
                self.shell.needs_redraw = true;
                DownAct::Done
            },
            Tool::Object => {
                self.shell.needs_redraw = true;
                if self.tools.object_mode == ObjectMode::PickLayer {
                    DownAct::PickLayer
                } else {
                    DownAct::Object
                }
            },
            Tool::Text => {
                self.shell.needs_redraw = true;
                DownAct::TextTool
            },
            Tool::Pan => DownAct::Done,
        }
    }

    /// Where a press goes.
    pub fn press_route(&self, m: Mods) -> (r: Route)
        ensures
            r == route(*self, m),
    {
        let tool = self.tools.tool;
        if self.hold.resample_job {
            return Route::Frozen;
        }
        if let Some(r) = &self.fill.repair {
            if r.virtual_barrier {
                return Route::Barrier;
            }
        }
        if self.rulers.pending.is_some() {
            return Route::Ruler;
        }
        if self.hold.space_down {
            return if m.ctrl {
                Route::ZoomIn
            } else if m.alt {
                Route::ZoomOut
            } else if m.shift {
                Route::Rotate
            } else {
                Route::Pan
            };
        }
        if tool == Tool::Pan {
            return if self.tools.pan_mode == PanMode::Rotate { Route::Rotate } else { Route::Pan };
        }
        if self.hold.transform_drag.is_some() {
            return Route::Float;
        }
        if tool.draws() && m.ctrl {
            return if m.alt { Route::SizeDrag } else { Route::TryObject };
        }
        if (tool.draws() || tool == Tool::Fill) && m.alt {
            return Route::Eyedrop;
        }
        Route::Tool
    }

    fn press_on(&mut self, p: &Press, way: Route) -> (r: DownAct)
        requires
            old(self).doc.wf(),
            old(self).press_fits(*p),
            way is Barrier ==> old(self).fill.repair is Some,
            way is Ruler ==> old(self).rulers.pending is Some,
            way is Float ==> old(self).hold.transform_drag is Some,
        ensures
            old(self).routed(*final(self), r, *p, way),
            old(self).wf() ==> final(self).wf(),
    {
        match way {
            Route::Frozen => DownAct::Done,
            Route::Barrier => {
                if let Some(r) = self.fill.repair.take() {
                    self.fill.repair = Some(
                        FillRepair {
                            leak: r.leak,
                            virtual_barrier: r.virtual_barrier,
                            pts: one_point(p.at),
                            radius: p.radius,
                            armed_undo_len: r.armed_undo_len,
                        },
                    );
                }
                self.shell.needs_redraw = true;
                DownAct::Done
            },
            Route::Ruler => {
                let again = self.hold.click_depth >= 2;
                let _ = self.ruler_press(p.at, again);
                DownAct::Done
            },
            Route::ZoomIn => DownAct::ZoomIn,
            Route::ZoomOut => DownAct::ZoomOut,
            Route::Rotate => DownAct::BeginRotate,
            Route::Pan => DownAct::BeginPan,
            Route::Float => {
                self.transform_down(p.at, p.mods.alt, p.float);
                self.shell.needs_redraw = true;
                DownAct::Done
            },
            Route::SizeDrag => {
                self.hold.size_drag = Some((p.screen.x, p.size_px));
                self.shell.status = text::frame_line("brush size: ", p.size_shown.as_str(), " px");
                self.shell.needs_redraw = true;
                DownAct::Done
            },
            Route::TryObject => DownAct::TryObject,
            Route::Eyedrop => {
                self.ask(AppCmd::PickColor(p.at));
                DownAct::Done
            },
            Route::Tool => self.tool_press(p),
        }
    }

    /// A press on the canvas: the one place that decides what it means.
    pub fn canvas_down(&mut self, p: &Press) -> (r: DownAct)
        requires
            old(self).doc.wf(),
            old(self).press_fits(*p),
        ensures
            old(self).pressed(*final(self), r, *p),
            old(self).wf() ==> final(self).wf(),
    {
        let way = self.press_route(p.mods);
        if way == Route::Frozen {
            return DownAct::Done;
        }
        self.hold.startup_fit_pending = false;
        self.hold.click_depth = if !p.again {
            1
        } else if self.hold.click_depth == u8::MAX {
            u8::MAX
        } else {
            self.hold.click_depth + 1
        };
        self.press_on(p, way)
    }

    /// The press goes on to the drawing tool, where the Object tool's grab took
    /// nothing.
    pub fn canvas_down_draw(&mut self, p: &Press) -> (r: DownAct)
        requires
            old(self).doc.wf(),
            old(self).press_fits(*p),
        ensures
            old(self).tool_pressed(*final(self), r, *p),
            old(self).wf() ==> final(self).wf(),
    {
        self.tool_press(p)
    }
}

/// A path of one point.
fn one_point(at: Pt) -> (r: Vec<Pt>)
    ensures
        r@ == seq![at],
{
    let mut v: Vec<Pt> = Vec::new();
    v.push(at);
    proof {
        assert(v@ =~= seq![at]);
    }
    v
}

/// Can this layer not take ink? A locked layer cannot, and neither can one that
/// holds layers, panels, balloons or lettering.
pub open spec fn takes_no_ink(l: Layer) -> bool {
    l.lock || l.folder || l.kind is Frame || l.kind is Balloon || l.kind is Text
}

/// Nothing but the tool has a claim on a press: no job holds the canvas, no
/// barrier is being drawn, no ruler is asked for, and no float is open.
pub open spec fn at_rest(app: App) -> bool {
    &&& !app.hold.resample_job
    &&& app.fill.repair is None
    &&& app.rulers.pending is None
    &&& !app.hold.space_down
    &&& app.hold.transform_drag is None
}

/// The guard speaks up for exactly the layers that cannot take ink, changes
/// nothing but the status line, and a lock is what it names first.
pub proof fn law_the_guard_names_what_takes_no_ink(a: App, b: App)
    requires
        a.guarded() ==> a.refused(b),
        !a.guarded() ==> b == a,
    ensures
        ({
            let l = a.doc.layers@[a.doc.active as int];
            &&& a.guarded() == takes_no_ink(l)
            &&& b.shell.cmds == a.shell.cmds && b.shell.needs_redraw == a.shell.needs_redraw
            &&& b == (App { shell: b.shell, ..a })
            &&& !takes_no_ink(l) ==> b.shell.status == a.shell.status
            &&& l.lock ==> b.shell.status@ == "layer is locked — unlock it in the Layers palette to edit"@
            &&& !l.lock && l.folder && l.kind is Frame ==> b.shell.status@
                == "this is the frame folder itself — pick a layer inside it to draw"@
            &&& !l.lock && l.folder && !(l.kind is Frame) ==> b.shell.status@
                == "folders organise layers — pick a layer inside to draw"@
            &&& !l.lock && !l.folder && l.kind is Frame ==> b.shell.status@
                == "frame layers hold panel borders — pick a raster layer to draw"@
            &&& !l.lock && !l.folder && l.kind is Balloon ==> b.shell.status@
                == "balloon layers hold speech bubbles — pick a raster layer to draw"@
            &&& !l.lock && !l.folder && l.kind is Text ==> b.shell.status@
                == "text layers hold text boxes — T edits, pick a raster layer to draw"@
        }),
{
}

/// A tool that inks does nothing on a layer that cannot take ink, whatever its
/// mode: the press is spent, nothing starts, nothing is asked for, and only the
/// status line changes.
pub proof fn law_no_ink_where_none_may_land(a: App, b: App, r: DownAct, p: Press)
    requires
        a.tool_pressed(b, r, p),
        takes_no_ink(a.doc.layers@[a.doc.active as int]),
        a.tools.tool is Pen || a.tools.tool is Eraser || a.tools.tool is Fill || a.tools.tool is Gradient
            || a.tools.tool is Liquify,
    ensures
        r is Done,
        b == (App { shell: b.shell, ..a }),
        b.shell == (Shell { status: b.shell.status, ..a.shell }),
        a.doc.layers@[a.doc.active as int].lock ==> b.shell.status@
            == "layer is locked — unlock it in the Layers palette to edit"@,
{
}

/// The same of a whole press: with a tool that inks, on a layer that cannot take
/// ink, it does no more than count as a click.
pub proof fn law_a_press_inks_no_locked_layer(a: App, b: App, r: DownAct, p: Press)
    requires
        a.pressed(b, r, p),
        at_rest(a),
        !p.mods.ctrl,
        !p.mods.alt,
        takes_no_ink(a.doc.layers@[a.doc.active as int]),
        a.tools.tool is Pen || a.tools.tool is Eraser || a.tools.tool is Fill || a.tools.tool is Gradient
            || a.tools.tool is Liquify,
    ensures
        r is Done,
        b == (App { shell: b.shell, hold: b.hold, ..a }),
        b.hold == (Hold { startup_fit_pending: false, click_depth: b.hold.click_depth, ..a.hold }),
        b.shell == (Shell { status: b.shell.status, ..a.shell }),
        a.doc.layers@[a.doc.active as int].lock ==> b.shell.status@
            == "layer is locked — unlock it in the Layers palette to edit"@,
{
}

/// A run of clicks: the first one counts one, each further one counts one more
/// until the counter is full, and a frozen canvas counts nothing.
pub proof fn law_clicks_are_counted(a: App, b: App, r: DownAct, p: Press)
    requires
        a.pressed(b, r, p),
        at_rest(a),
        !(a.tools.tool is Figure),
        !(a.tools.tool is Gradient),
    ensures
        !p.again ==> b.hold.click_depth == 1,
        p.again && a.hold.click_depth < u8::MAX ==> b.hold.click_depth == a.hold.click_depth + 1,
        p.again && a.hold.click_depth == u8::MAX ==> b.hold.click_depth == u8::MAX,
        !b.hold.startup_fit_pending,
{
}

/// While a job holds the canvas, a press does nothing at all.
pub proof fn law_a_frozen_canvas_stays(a: App, b: App, r: DownAct, p: Press)
    requires
        a.pressed(b, r, p),
        a.hold.resample_job,
    ensures
        r is Done,
        b == a,
{
}

/// A press that draws a barrier starts the barrier over where it is, with the
/// radius in hand, before anything else has a claim on it.
pub proof fn law_a_barrier_starts_at_the_press(a: App, b: App, r: DownAct, p: Press)
    requires
        a.pressed(b, r, p),
        !a.hold.resample_job,
        a.fill.repair matches Some(f) && f.virtual_barrier,
    ensures
        r is Done,
        b.fill.repair is Some,
        b.fill.repair->0.pts@ == seq![p.at],
        b.fill.repair->0.radius == p.radius,
        b.fill.repair->0.virtual_barrier,
        b.fill.repair->0.leak == a.fill.repair->0.leak,
        b.fill.repair->0.armed_undo_len == a.fill.repair->0.armed_undo_len,
        b.doc == a.doc && b.tools == a.tools && b.shell.cmds == a.shell.cmds && b.rulers == a.rulers,
{
}

/// The space bar gives the press to the view: with Ctrl it zooms in, with Alt
/// out, with Shift it rotates, and alone it pans; the state keeps everything
/// but its count of clicks.
pub proof fn law_space_moves_the_view(a: App, b: App, r: DownAct, p: Press)
    requires
        a.pressed(b, r, p),
        !a.hold.resample_job,
        a.fill.repair is None,
        a.rulers.pending is None,
        a.hold.space_down,
    ensures
        p.mods.ctrl ==> r is ZoomIn,
        !p.mods.ctrl && p.mods.alt ==> r is ZoomOut,
        !p.mods.ctrl && !p.mods.alt && p.mods.shift ==> r is BeginRotate,
        !p.mods.ctrl && !p.mods.alt && !p.mods.shift ==> r is BeginPan,
        b == (App { hold: b.hold, ..a }),
        b.hold == (Hold { startup_fit_pending: false, click_depth: b.hold.click_depth, ..a.hold }),
{
}

/// The Pan tool pans or rotates by its mode, with any modifier.
pub proof fn law_the_hand_moves_the_view(a: App, b: App, r: DownAct, p: Press)
    requires
        a.pressed(b, r, p),
        !a.hold.resample_job,
        a.fill.repair is None,
        a.rulers.pending is None,
        !a.hold.space_down,
        a.tools.tool is Pan,
    ensures
        a.tools.pan_mode is Rotate ==> r is BeginRotate,
        a.tools.pan_mode is Hand ==> r is BeginPan,
        b == (App { hold: b.hold, ..a }),
{
}

/// The modifiers of a drawing tool: Ctrl and Alt together drag the size, Ctrl
/// alone borrows the Object tool, Alt alone picks a colour. None of them draws.
pub proof fn law_modifiers_of_a_drawing_tool(a: App, b: App, r: DownAct, p: Press)
    requires
        a.pressed(b, r, p),
        at_rest(a),
        a.tools.tool is Pen || a.tools.tool is Eraser || a.tools.tool is SelPen || a.tools.tool is SelEraser,
    ensures
        p.mods.ctrl && p.mods.alt ==> {
            &&& r is Done
            &&& b.hold.size_drag == Some((p.screen.x, p.size_px))
            &&& b.shell.cmds == a.shell.cmds
            &&& b.shell.needs_redraw
            &&& b.shell.status@ == "brush size: "@ + p.size_shown@ + " px"@
        },
        p.mods.ctrl && !p.mods.alt ==> r is TryObject && b == (App { hold: b.hold, ..a }) && b.hold.size_drag == a.hold.size_drag,
        !p.mods.ctrl && p.mods.alt ==> r is Done && b.shell.cmds@ == a.shell.cmds@.push(AppCmd::PickColor(p.at)),
        !p.mods.ctrl && !p.mods.alt && !takes_no_ink(a.doc.layers@[a.doc.active as int]) ==> r is Stroke,
        b.doc == a.doc,
{
}

/// Alt picks a colour with the Fill tool too; Ctrl means nothing to it.
pub proof fn law_alt_picks_with_the_fill_tool(a: App, b: App, r: DownAct, p: Press)
    requires
        a.pressed(b, r, p),
        at_rest(a),
        a.tools.tool is Fill,
        p.mods.alt,
    ensures
        r is Done,
        b.shell.cmds@ == a.shell.cmds@.push(AppCmd::PickColor(p.at)),
        b.fill == a.fill,
        b.doc == a.doc,
{
}

/// Where ink may land, each tool does its own: the pens start a stroke, the
/// pickers and fillers ask for their own command at the press, and the others
/// begin their own drag there.
pub proof fn law_each_tool_does_its_own(a: App, b: App, r: DownAct, p: Press)
    requires
        a.tool_pressed(b, r, p),
        !takes_no_ink(a.doc.layers@[a.doc.active as int]),
    ensures
        a.tools.tool is Pen || a.tools.tool is Eraser ==> r is Stroke && b == (App { shell: b.shell, ..a }),
        a.tools.tool is Fill && a.tools.fill_mode is Click ==> r is Done && b.shell.cmds@ == a.shell.cmds@.push(
            AppCmd::Fill(p.at),
        ) && b.fill == a.fill,
        a.tools.tool is Fill && !(a.tools.fill_mode is Click) ==> r is Done && b.fill.drag is Some
            && b.fill.drag->0@ == seq![p.at] && b.shell.cmds == a.shell.cmds,
        a.tools.tool is Gradient && !(a.tools.grad_mode is Freeform) ==> r is Done && b.paint.grad == Some((p.at, p.at))
            && b.paint.free == a.paint.free && b.shell.cmds == a.shell.cmds,
        a.tools.tool is Liquify ==> r is BeginWarp && b.paint.liquify == Some(p.at) && b.shell.cmds == a.shell.cmds,
        !(a.tools.tool is Figure) ==> b.doc == a.doc && b.tools == a.tools && b.work == a.work,
{
}

/// What the tools that need no layer do at a press, on any layer: the selection
/// pens start a stroke, and the others ask for their own command or act.
pub proof fn law_these_tools_need_no_layer(a: App, b: App, r: DownAct, p: Press)
    requires
        a.tool_pressed(b, r, p),
    ensures
        a.tools.tool is SelPen || a.tools.tool is SelEraser ==> r is Stroke && b == (App { shell: b.shell, ..a }),
        a.tools.tool is Tone ==> r is Done && b.shell.cmds@ == a.shell.cmds@.push(AppCmd::ToneRegion(p.at)),
        a.tools.tool is Wand ==> r is Done && b.shell.cmds@ == a.shell.cmds@.push(AppCmd::MagicSelect(p.at, p.op)),
        a.tools.tool is Eyedrop ==> r is Done && b.shell.cmds@ == a.shell.cmds@.push(AppCmd::PickColor(p.at)),
        a.tools.tool is Object && a.tools.object_mode is Object ==> r is Object,
        a.tools.tool is Object && a.tools.object_mode is PickLayer ==> r is PickLayer,
        a.tools.tool is Text ==> r is TextTool,
        a.tools.tool is Balloon ==> {
            &&& r is Done
            &&& b.paint.balloon is Some
            &&& b.paint.balloon->0@.len() == 2
            &&& forall|i: int| 0 <= i < 2 ==> (#[trigger] b.paint.balloon->0@[i]).at == p.at
                && b.paint.balloon->0@[i].pressure == p.pressure
        },
        a.tools.tool is Tone || a.tools.tool is Wand || a.tools.tool is Eyedrop || a.tools.tool is Object
            || a.tools.tool is Text ==> b == (App { shell: b.shell, ..a }) && b.shell.needs_redraw,
{
}

/// A press of the Select tool inside the selection moves the selection, where it
/// replaces and the layer holds pixels; any other press begins a new path at the
/// press. Never both.
pub proof fn law_a_press_inside_moves_the_selection(a: App, b: App, r: DownAct, p: Press)
    requires
        a.tool_pressed(b, r, p),
        a.tools.tool is Select,
        !(a.tools.select_mode is Magnetic),
    ensures
        ({
            let l = a.doc.layers@[a.doc.active as int];
            let drawn = l.kind is Frame || l.kind is Balloon || l.kind is Text;
            let moves = p.op is Replace && a.doc.selection && p.in_selection && !drawn;
            &&& r is Done
            &&& moves ==> b.select.moving == Some((p.at, p.at)) && b.select.drag == a.select.drag
            &&& !moves ==> b.select.drag is Some && b.select.drag->0@ == seq![p.at] && b.select.moving == a.select.moving
            &&& b.select.magnetic == a.select.magnetic
            &&& b.doc == a.doc
            &&& b.shell.cmds == a.shell.cmds
        }),
{
}

/// The magnetic lasso: the first press opens a trace, each press behind it adds
/// its own pixel to the end, and only a press near the first anchor of three or
/// more closes it, which adds none.
pub proof fn law_a_trace_grows_by_its_presses(a: App, b: App, r: DownAct, p: Press)
    requires
        a.tool_pressed(b, r, p),
        a.tools.tool is Select,
        a.tools.select_mode is Magnetic,
    ensures
        b.select.magnetic is Some,
        a.select.magnetic is None ==> r is MagneticStart && b.select.magnetic->0.anchors@ == seq![p.px],
        a.select.magnetic matches Some(t) ==> {
            let closes = t.anchors@.len() >= 3 && p.near;
            &&& closes ==> r is MagneticClose && b.select.magnetic->0.anchors@ == t.anchors@
            &&& !closes ==> r is MagneticAnchor && b.select.magnetic->0.anchors@.len() == t.anchors@.len() + 1
                && b.select.magnetic->0.anchors@.drop_last() == t.anchors@ && b.select.magnetic->0.anchors@.last() == p.px
        },
        b.select.drag == a.select.drag && b.select.moving == a.select.moving,
{
    if a.select.magnetic is Some && !(a.select.magnetic->0.anchors@.len() >= 3 && p.near) {
        assert(a.select.magnetic->0.anchors@.push(p.px).drop_last() =~= a.select.magnetic->0.anchors@);
    }
}

/// A panel polygon grows by a corner at each press, and only a press near the
/// first of three or more corners closes it. The panel pen starts a line, and
/// every other mode a drag, at the press.
pub proof fn law_a_panel_is_drawn_from_the_press(a: App, b: App, r: DownAct, p: Press)
    requires
        a.tool_pressed(b, r, p),
        a.tools.tool is Frame,
    ensures
        a.tools.frame_mode is Polyline ==> {
            &&& b.frames.poly is Some
            &&& b.frames.pen == a.frames.pen && b.frames.drag == a.frames.drag
            &&& a.frames.poly is None ==> r is Done && b.frames.poly->0@ == seq![p.at]
            &&& a.frames.poly matches Some(v) ==> {
                let closes = v@.len() >= 3 && p.near;
                &&& closes ==> r is FinishFramePoly && b.frames.poly->0@ == v@
                &&& !closes ==> r is Done && b.frames.poly->0@.len() == v@.len() + 1 && b.frames.poly->0@.drop_last() == v@
                    && b.frames.poly->0@.last() == p.at
            }
        },
        a.tools.frame_mode is Pen ==> r is Done && b.frames.pen is Some && b.frames.pen->0@ == seq![p.at]
            && b.frames.drag == a.frames.drag && b.frames.poly == a.frames.poly,
        !(a.tools.frame_mode is Polyline) && !(a.tools.frame_mode is Pen) ==> r is Done && b.frames.drag == Some(
            (p.at, p.at),
        ) && b.frames.pen == a.frames.pen && b.frames.poly == a.frames.poly,
        b.doc == a.doc && b.shell.cmds == a.shell.cmds && b.frames.order == a.frames.order,
{
    if a.tools.frame_mode is Polyline && a.frames.poly is Some && !(a.frames.poly->0@.len() >= 3 && p.near) {
        assert(a.frames.poly->0@.push(p.at).drop_last() =~= a.frames.poly->0@);
    }
}

/// A lock alone keeps ink off: on a locked layer a press with a tool that inks
/// changes nothing but the status line.
pub proof fn law_a_lock_keeps_ink_off(a: App, b: App, r: DownAct, p: Press)
    requires
        a.tool_pressed(b, r, p),
        a.doc.layers@[a.doc.active as int].lock,
        a.tools.tool is Pen || a.tools.tool is Eraser || a.tools.tool is Fill || a.tools.tool is Gradient
            || a.tools.tool is Liquify,
    ensures
        r is Done,
        b == (App { shell: (Shell { status: b.shell.status, ..a.shell }), ..a }),
        b.shell.status@ == "layer is locked — unlock it in the Layers palette to edit"@,
{
}

/// An open float takes the press, and the canvas is drawn anew.
pub proof fn law_an_open_float_takes_the_press(a: App, b: App, r: DownAct, p: Press)
    requires
        a.pressed(b, r, p),
        a.hold.transform_drag is Some,
        at_rest(App { hold: (Hold { transform_drag: None, ..a.hold }), ..a }),
        !(a.tools.tool is Pan),
    ensures
        r is Done,
        b.hold.transform_drag is Some,
        crate::transform::float_pressed(a.hold.transform_drag->0, b.hold.transform_drag->0, p.at, p.mods.alt, p.float),
        b.shell.needs_redraw,
        b.shell.cmds == a.shell.cmds && b.shell.status == a.shell.status,
        b.doc == a.doc && b.figure == a.figure && b.paint == a.paint,
{
}

/// A press that starts a trace, a panel of corners or a warp says how it goes on.
pub proof fn law_a_first_press_says_how_it_goes_on(a: App, b: App, r: DownAct, p: Press)
    requires
        a.tool_pressed(b, r, p),
    ensures
        a.tools.tool is Select && a.tools.select_mode is Magnetic && a.select.magnetic is None ==> r is MagneticStart
            && b.shell.needs_redraw && b.shell.status@
            == "magnetic lasso: trace along the line — Backspace undoes an anchor, Enter closes"@,
        a.tools.tool is Frame && a.tools.frame_mode is Polyline && a.frames.poly is None ==> b.shell.needs_redraw
            && b.shell.status@ == "click corners; click the first one (or Enter) to close, Esc cancels"@,
        a.tools.tool is Liquify && !takes_no_ink(a.doc.layers@[a.doc.active as int]) ==> r is BeginWarp && b.paint.liquify
            == Some(p.at) && b.shell.status@ == p.warp@ + " — drag to warp; hold to keep working (Alt inverts)"@,
{
    reveal_strlit("");
    assert(""@ + p.warp@ =~= p.warp@);
}

/// Every object is called by what it is.
pub proof fn law_an_object_is_called_by_its_kind(o: ObjRef)
    ensures
        o is Text ==> o.label_spec() == "text"@,
        o is Gen ==> o.label_spec() == "effect lines"@,
        o is Balloon ==> o.label_spec() == "balloon"@,
        o is Frame ==> o.label_spec() == "frame"@,
{
}

} // verus!
