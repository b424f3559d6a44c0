//! The pointer is let go: the gesture under way ends. The order of the checks
//! is the priority of the gestures.

use vstd::prelude::*;
use crate::app::{App, AppCmd, FigureHand, FillHand, FillParams, FrameHand, Hold, ObjectHand, PaintHand, SelectHand, Shell, SmartShape, Work};
use crate::balloons::{BalloonDrop, BalloonFacts};
use crate::canvas_input::{BalloonObjDrag, GenDragMode, GenLinesDrag, ObjectDrag};
use crate::doc::Document;
use crate::figure::{DragFacts, FigureAct};
use crate::fill_repair::FillRepair;
use crate::floats;
use crate::geom::{Pt, Sample};
use crate::gradient::GradAct;
use crate::modes::{FillMode, FrameMode, SelectMode, SelectionOp};
use crate::panels::{FrameDrop, FrameEnd};
use crate::rulers::{RulerFacts, RulerRelease};
use crate::text;

verus! {

/// A release on the canvas, and what the shell measured of it and of the
/// gesture that it ends.
#[derive(Debug)]
pub struct Release {
    pub at: Pt,
    /// The pixel that the pointer is nearest to.
    pub px: (i32, i32),
    pub pressure: u32,
    /// How a selection meets the one that stands, with the keys that are held.
    pub op: SelectionOp,
    /// The brush size, as it is shown.
    pub size_shown: String,
    pub ruler: RulerFacts,
    /// The ruler that is held is not where it was.
    pub ruler_changed: bool,
    /// The whole pixels that a set of objects, or the selection, is moved by.
    pub delta: (i32, i32),
    pub frame: FrameDrop,
    pub balloon: BalloonDrop,
    /// The lattice moved by a pixel or more.
    pub lattice_moved: bool,
    pub figure: DragFacts,
    /// The ramp is too short for a direction.
    pub ramp_short: bool,
    /// The freeform line, and whether it is one.
    pub guide: u64,
    pub guide_is_line: bool,
    pub new_balloon: BalloonFacts,
    /// The outline that the panel pen drew.
    pub pen: u64,
    /// The pointer on the nearer axis of the cut, where it is near one.
    pub axis: Pt,
    /// The cut is a drag, not a tap.
    pub cut: bool,
    /// The selection's drag is a tap.
    pub tap: bool,
    /// The pen has left the place where it rested.
    pub past: bool,
}

/// What is still to be done about a release.
#[derive(Debug)]
pub enum UpAct {
    Done,
    /// The closing stroke is a wall: run the fill again.
    Refill(FillRepair),
    RebuildTwins,
    Vector,
    EndRotate,
    EndPan,
    /// The last of the stroke is inked, the hold gets its last chance, and the
    /// stroke ends, and the smart shape with it.
    EndStroke,
    /// The stroke ends with the figure that its hold found, and nothing more
    /// is inked; `adjust` says that the figure follows the pen once more.
    EndShaped { adjust: bool },
    /// Fold the last motion into the float, and end its gesture.
    Float,
    TextTool,
    TextObject,
    /// Generate the run anew.
    Regenerate(GenLinesDrag),
    /// Move the art of a panel's layer by whole pixels.
    MoveArt { layer: usize, dx: i32, dy: i32 },
    EndWarp,
    Ink(FigureAct),
    Paint(GradAct),
    MagneticAnchor,
    /// Move the selection by whole pixels.
    MoveSelection(i32, i32),
    /// Make the selection that the path spans; `combine` is how it meets the
    /// one that stands, where it does not take its place.
    Select { pts: Vec<Pt>, combine: Option<SelectionOp> },
}

/// The gesture that the release ends.
#[derive(Clone, Copy, PartialEq, Eq, Structural, Debug)]
pub enum UpRoute {
    Barrier,
    Size,
    NewRuler,
    Ruler,
    Vector,
    Rotate,
    Pan,
    Stroke,
    Float,
    TextTool,
    TextObject,
    Group,
    Gen,
    Frame,
    Lattice,
    Warp,
    Balloon,
    Anchor,
    Figure,
    Ramp,
    Free,
    NewBalloon,
    FramePen,
    FrameDrag,
    Magnetic,
    SelectMove,
    Fill,
    Select,
    Nothing,
}

/// The gesture that the release ends.
pub open spec fn up_route(app: App) -> UpRoute {
    if crate::canvas_input::barrier_armed(app.fill) {
        UpRoute::Barrier
    } else if app.hold.size_drag is Some {
        UpRoute::Size
    } else if app.rulers.pending is Some && app.rulers.drag is Some {
        UpRoute::NewRuler
    } else if app.rulers.moving is Some {
        UpRoute::Ruler
    } else if app.object.vector {
        UpRoute::Vector
    } else if app.hold.rotating {
        UpRoute::Rotate
    } else if app.hold.panning {
        UpRoute::Pan
    } else if app.hold.drawing {
        UpRoute::Stroke
    } else if app.float_gesture() is Some {
        UpRoute::Float
    } else if app.object.text_gesture {
        UpRoute::TextTool
    } else if app.object.text {
        UpRoute::TextObject
    } else if app.object.group is Some {
        UpRoute::Group
    } else if app.object.gen is Some {
        UpRoute::Gen
    } else if app.object.frame is Some {
        UpRoute::Frame
    } else if app.object.lattice is Some {
        UpRoute::Lattice
    } else if app.paint.liquify is Some {
        UpRoute::Warp
    } else if app.object.balloon is Some {
        UpRoute::Balloon
    } else if app.figure.anchor_drag is Some {
        UpRoute::Anchor
    } else if app.figure.drag is Some {
        UpRoute::Figure
    } else if app.paint.grad is Some {
        UpRoute::Ramp
    } else if app.paint.free matches Some(g) && g.drawing {
        UpRoute::Free
    } else if app.paint.balloon is Some {
        UpRoute::NewBalloon
    } else if app.frames.pen is Some {
        UpRoute::FramePen
    } else if app.frames.drag is Some {
        UpRoute::FrameDrag
    } else if app.select.magnetic is Some {
        UpRoute::Magnetic
    } else if app.select.moving is Some {
        UpRoute::SelectMove
    } else if app.fill.drag is Some {
        UpRoute::Fill
    } else if app.select.drag is Some {
        UpRoute::Select
    } else {
        UpRoute::Nothing
    }
}

/// What a fill drag that is only a tap says.
pub open spec fn fill_hint(mode: FillMode) -> Seq<char> {
    match mode {
        FillMode::Lasso => "drag the shape to fill"@,
        FillMode::Leftover => "scrub across the area with holes in it"@,
        FillMode::Dust => "drag around the patch to clean"@,
        _ => "drag right around the areas to fill"@,
    }
}

/// Is this the command of a fill drag over these points?
pub open spec fn fill_cmd(mode: FillMode, c: AppCmd, pts: Seq<Pt>) -> bool {
    match mode {
        FillMode::Lasso => c matches AppCmd::LassoFill { pts: p } && p@ == pts,
        FillMode::Leftover => c matches AppCmd::LeftoverFill { pts: p } && p@ == pts,
        FillMode::Dust => c matches AppCmd::DustScrub { pts: p } && p@ == pts,
        _ => c matches AppCmd::EncloseFill { pts: p } && p@ == pts,
    }
}

/// What a generator's new parameters say.
pub open spec fn gen_text(mode: GenDragMode, made: bool) -> Seq<char> {
    if !made {
        "generator produced nothing — parameters widened"@
    } else {
        match mode {
            GenDragMode::Center => "run moved"@,
            GenDragMode::RIn => "inner radius set"@,
            GenDragMode::ROut => "outer radius set"@,
            GenDragMode::Angle => "direction set"@,
            GenDragMode::LenMin => "minimum length set"@,
            GenDragMode::LenMax => "maximum length set"@,
        }
    }
}

impl App {
    /// The state once the first of the release is done: a borrowed Object tool
    /// is given back, and a ruler that no drag placed is no longer waited for,
    /// but for a curve that is being clicked.
    pub open spec fn let_go(self) -> App {
        App {
            hold: (Hold { temp_object: false, ..self.hold }),
            rulers: (crate::app::RulerHand {
                pending: if self.rulers.pending == Some(crate::modes::RulerKind::Curve) && self.rulers.drag is None {
                    self.rulers.pending
                } else {
                    None
                },
                drag: None,
                ..self.rulers
            }),
            ..self
        }
    }

    /// What letting an object go makes of the state.
    pub open spec fn object_released(self, after: App, r: UpAct, u: Release, way: UpRoute) -> bool {
        match way {
            UpRoute::Group => {
                let now = App { object: (ObjectHand { group: None, ..self.object }), ..self };
                &&& r is Done
                &&& if u.delta == (0i32, 0i32) {
                    after == now.redrawn()
                } else {
                    now.asked(after, AppCmd::ObjectMultiMove { dx: u.delta.0, dy: u.delta.1 })
                }
            },
            UpRoute::Gen => {
                let d = self.object.gen->0;
                let live = d.layer < self.doc.layers@.len() && self.doc.layers@[d.layer as int].genlines;
                &&& after == (App {
                    object: (ObjectHand { gen: None, ..self.object }),
                    work: (Work { dirty: true, ..self.work }),
                    ..self
                })
                &&& r == (if !floats::together(d.cur, d.start) && live { UpAct::Regenerate(d) } else { UpAct::Done })
            },
            UpRoute::Frame => {
                let d = ObjectDrag { cur: u.at, ..self.object.frame->0 };
                let now = App { object: (ObjectHand { frame: None, ..self.object }), ..self };
                exists|e: FrameEnd| {
                    &&& #[trigger] now.frame_dropped(after, e, d, u.frame)
                    &&& match e {
                        FrameEnd::Done { dx, dy } => r == (if dx != 0 || dy != 0 {
                            UpAct::MoveArt { layer: d.layer, dx, dy }
                        } else {
                            UpAct::Done
                        }),
                        FrameEnd::Nothing => r is Done,
                    }
                }
            },
            UpRoute::Lattice => {
                let d = self.object.lattice->0;
                let now = App { object: (ObjectHand { lattice: None, ..self.object }), ..self };
                &&& r is Done
                &&& if u.lattice_moved && d.layer < self.doc.layers@.len() && self.doc.layers@[d.layer as int].kind is FillTone {
                    &&& after == (App {
                        shell: (Shell {
                            cmds: after.shell.cmds,
                            status: after.shell.status,
                            needs_redraw: true,
                            ..self.shell
                        }),
                        ..now
                    })
                    &&& after.shell.cmds@ == self.shell.cmds@.push(
                        AppCmd::SetFillParams(d.layer, FillParams::Shift { from: d.start, to: d.cur }),
                    )
                    &&& after.shell.status@ == "tone lattice moved — the dots slid under the art"@
                } else {
                    after == now.redrawn()
                }
            },
            _ => {
                let d = BalloonObjDrag { cur: u.at, ..self.object.balloon->0 };
                let now = App { object: (ObjectHand { balloon: None, ..self.object }), ..self };
                r is Done && now.balloon_dropped(after, d, u.balloon)
            },
        }
    }

    /// What ending a path makes of the state.
    pub open spec fn path_released(self, after: App, r: UpAct, u: Release, way: UpRoute) -> bool {
        match way {
            UpRoute::Warp => {
                &&& r is EndWarp
                &&& (App { paint: (PaintHand { liquify: None, ..self.paint }), ..self }).told(
                    after,
                    "liquified — one undo takes the whole gesture back"@,
                )
            },
            UpRoute::NewBalloon => {
                let pts = self.paint.balloon->0@.push(Sample { at: u.at, pressure: u.pressure });
                let now = App { paint: (PaintHand { balloon: None, ..self.paint }), ..self.redrawn() };
                r is Done && now.balloon_finished(after, pts, u.new_balloon)
            },
            UpRoute::FramePen => {
                let now = App { frames: (FrameHand { pen: None, ..self.frames }), ..self };
                r is Done && now.asked(after, AppCmd::FramePoly { points: u.pen })
            },
            UpRoute::FrameDrag => {
                let a = (self.frames.drag->0).0;
                let now = App { frames: (FrameHand { drag: None, ..self.frames }), ..self };
                &&& r is Done
                &&& now.asked(
                    after,
                    if self.tools.frame_mode is Rect {
                        AppCmd::FrameRect { a, b: u.at }
                    } else if u.cut {
                        AppCmd::FrameDivide { a, b: u.axis }
                    } else {
                        AppCmd::FrameExtendEdge { at: a }
                    },
                )
            },
            UpRoute::Magnetic => {
                let t = self.select.magnetic->0;
                let anew = t.anchors@.len() == 0 || t.anchors@.last() != u.px;
                &&& after == (App { select: (SelectHand { magnetic: after.select.magnetic, ..self.select }), ..self.redrawn() })
                &&& after.select.magnetic matches Some(now)
                &&& now.anchors@ == (if anew { t.anchors@.push(u.px) } else { t.anchors@ })
                &&& if anew { r is MagneticAnchor } else { r is Done }
            },
            UpRoute::SelectMove => {
                let goes = u.delta != (0i32, 0i32) && self.doc.selection;
                &&& r == (if goes { UpAct::MoveSelection(u.delta.0, u.delta.1) } else { UpAct::Done })
                &&& after == (App {
                    doc: (Document {
                        revision: if goes { crate::doc::next_revision(self.doc.revision) } else { self.doc.revision },
                        ..self.doc
                    }),
                    select: (SelectHand { moving: None, ..self.select }),
                    ..self.redrawn()
                })
            },
            UpRoute::Fill => {
                let pts = self.fill.drag->0@.push(u.at);
                let now = App { fill: (FillHand { drag: None, ..self.fill }), ..self };
                &&& r is Done
                &&& if pts.len() < 3 {
                    now.told(after, fill_hint(self.tools.fill_mode))
                } else {
                    &&& after == (App { shell: (Shell { cmds: after.shell.cmds, needs_redraw: true, ..self.shell }), ..now })
                    &&& after.shell.cmds@.len() == self.shell.cmds@.len() + 1
                    &&& after.shell.cmds@.drop_last() == self.shell.cmds@
                    &&& fill_cmd(self.tools.fill_mode, after.shell.cmds@.last(), pts)
                }
            },
            _ => self.select_released(after, r, u),
        }
    }

    /// What ending a selection's drag makes of the state.
    pub open spec fn select_released(self, after: App, r: UpAct, u: Release) -> bool {
        let had = self.select.drag->0@;
        let now = App { select: (SelectHand { drag: None, ..self.select }), ..self };
        match self.tools.select_mode {
            SelectMode::Shrink => {
                &&& r is Done
                &&& if had.len() >= 3 {
                    &&& after == (App { shell: (Shell { cmds: after.shell.cmds, needs_redraw: true, ..self.shell }), ..now })
                    &&& after.shell.cmds@.len() == self.shell.cmds@.len() + 1
                    &&& after.shell.cmds@.drop_last() == self.shell.cmds@
                    &&& after.shell.cmds@.last() matches AppCmd::MagicSelectPath { pts, op }
                    &&& pts@ == had.push(u.at)
                    &&& op == u.op
                } else {
                    now.told(after, "drag across the empty space inside the drawing"@)
                }
            },
            SelectMode::Magnetic => r is Done && now.asked(after, AppCmd::Deselect),
            _ => {
                let lasso = self.tools.select_mode is Lasso;
                let none = if lasso { had.len() + 1 < 3 } else { u.tap };
                if none {
                    r is Done && now.asked(after, AppCmd::Deselect)
                } else {
                    &&& after == now.redrawn()
                    &&& r matches UpAct::Select { pts, combine }
                    &&& pts@ == (if lasso { had.push(u.at) } else { seq![had[0], u.at] })
                    &&& combine == (if self.doc.selection && !(u.op is Replace) { Some(u.op) } else { None })
                }
            },
        }
    }

    /// What the rest of a release makes of the state, once the first of it is
    /// done.
    pub open spec fn settled(self, after: App, r: UpAct, u: Release, way: UpRoute) -> bool {
        match way {
            UpRoute::Ruler => exists|e: RulerRelease| {
                &&& #[trigger] self.ruler_dropped(after, e, u.ruler_changed)
                &&& if e is RebuildTwins { r is RebuildTwins } else { r is Done }
            },
            UpRoute::Vector => r is Vector && after == self,
            UpRoute::Rotate => r is EndRotate && after == self,
            UpRoute::Pan => r is EndPan && after == self,
            UpRoute::Stroke => match self.figure.smart {
                Some(g) if g.armed_spec() => {
                    after == self && r == (UpAct::EndShaped { adjust: g.adjust is Some || u.past })
                },
                _ => r is EndStroke && self.smart_lifted(after, u.at),
            },
            UpRoute::Float => r is Float && after == self,
            UpRoute::TextTool => r is TextTool && after == self,
            UpRoute::TextObject => r is TextObject && after == self,
            UpRoute::Group | UpRoute::Gen | UpRoute::Frame | UpRoute::Lattice | UpRoute::Balloon => self.object_released(
                after,
                r,
                u,
                way,
            ),
            UpRoute::Anchor => {
                let i = self.figure.anchor_drag->0;
                let pts = self.figure.points();
                &&& r is Done
                &&& (App {
                    figure: (FigureHand { poly: after.figure.poly, anchor_drag: None, ..self.figure }),
                    ..self
                }).told(after, "point moved — keep clicking, or Enter to ink"@)
                &&& after.figure.poly is Some == self.figure.poly is Some
                &&& after.figure.points() == (if i < pts.len() {
                    pts.update(i as int, crate::app::FigureAnchor { p: u.at, ..pts[i as int] })
                } else {
                    pts
                })
            },
            UpRoute::Figure => {
                let d = self.figure.drag->0;
                let open = App { figure: (FigureHand { drag: None, ..self.figure }), ..self.redrawn() };
                r matches UpAct::Ink(act) && open.drag_released(after, act, d.0, d.1, u.figure)
            },
            UpRoute::Ramp => {
                let d = self.paint.grad->0;
                let open = App { paint: (PaintHand { grad: None, ..self.paint }), ..self.redrawn() };
                r matches UpAct::Paint(act) && open.ramp_finished(after, act, d.0, d.1, u.ramp_short)
            },
            UpRoute::Free => {
                let g = self.paint.free->0;
                let open = self.redrawn();
                &&& r matches UpAct::Paint(act)
                &&& if !u.guide_is_line && crate::gradient::ready(g) {
                    open.field_committed(after, act, g.done)
                } else {
                    act is Nothing && open.guide_ended(after, u.guide, u.guide_is_line)
                }
            },
            UpRoute::Nothing => r is Done && after == self,
            _ => self.path_released(after, r, u, way),
        }
    }

    /// What a release makes of the state.
    pub open spec fn released(self, after: App, r: UpAct, u: Release) -> bool {
        let way = up_route(self);
        match way {
            UpRoute::Barrier => {
                let had = self.fill.repair->0;
                if had.pts@.len() >= 2 {
                    &&& after == (App { fill: (FillHand { repair: None, ..self.fill }), ..self.redrawn() })
                    &&& r matches UpAct::Refill(f)
                    &&& f == (FillRepair { pts: f.pts, ..had })
                    &&& f.pts@ == had.pts@.push(u.at)
                } else {
                    r is Done && self.told(after, "fill repair: drag the closing stroke, not a tap"@)
                }
            },
            UpRoute::Size => {
                &&& r is Done
                &&& after == (App {
                    hold: (Hold { size_drag: None, ..self.hold }),
                    shell: after.shell,
                    ..self
                })
                &&& after.shell.says(self.shell, text::framed("brush size: "@, u.size_shown@, " px"@))
            },
            UpRoute::NewRuler => exists|e: RulerRelease| {
                &&& #[trigger] (App { hold: (Hold { temp_object: false, ..self.hold }), ..self }).ruler_released(after, e, u.ruler)
                &&& if e is RebuildTwins { r is RebuildTwins } else { r is Done }
            },
            _ => self.let_go().settled(after, r, u, way),
        }
    }

    /// Do the measurements belong to what is under way?
    pub open spec fn release_fits(self, u: Release) -> bool {
        let n = self.doc.layers@.len();
        &&& self.object.frame is Some ==> u.frame.sibs@.len() == n && u.frame.frames@.len() == n
        &&& self.object.balloon is Some ==> {
            &&& u.balloon.texts@.len() == n
            &&& crate::balloons::carry_count(self.doc.layers@, u.balloon.texts@, n as int) <= usize::MAX
        }
        &&& self.paint.balloon is Some ==> u.new_balloon.under@.len() == n
        &&& self.select.drag matches Some(d) ==> d@.len() > 0
    }

    fn release_route(&self) -> (r: UpRoute)
        ensures
            r == up_route(*self),
    {
        if let Some(r) = &self.fill.repair {
            if r.virtual_barrier {
                return UpRoute::Barrier;
            }
        }
        let free = match &self.paint.free {
            Some(g) => g.drawing,
            None => false,
        };
        if self.hold.size_drag.is_some() {
            UpRoute::Size
        } else if self.rulers.pending.is_some() && self.rulers.drag.is_some() {
            UpRoute::NewRuler
        } else if self.rulers.moving.is_some() {
            UpRoute::Ruler
        } else if self.object.vector {
            UpRoute::Vector
        } else if self.hold.rotating {
            UpRoute::Rotate
        } else if self.hold.panning {
            UpRoute::Pan
        } else if self.hold.drawing {
            UpRoute::Stroke
        } else if self.transform_gesture().is_some() {
            UpRoute::Float
        } else if self.object.text_gesture {
            UpRoute::TextTool
        } else if self.object.text {
            UpRoute::TextObject
        } else if self.object.group.is_some() {
            UpRoute::Group
        } else if self.object.gen.is_some() {
            UpRoute::Gen
        } else if self.object.frame.is_some() {
            UpRoute::Frame
        } else if self.object.lattice.is_some() {
            UpRoute::Lattice
        } else if self.paint.liquify.is_some() {
            UpRoute::Warp
        } else if self.object.balloon.is_some() {
            UpRoute::Balloon
        } else if self.figure.anchor_drag.is_some() {
            UpRoute::Anchor
        } else if self.figure.drag.is_some() {
            UpRoute::Figure
        } else if self.paint.grad.is_some() {
            UpRoute::Ramp
        } else if free {
            UpRoute::Free
        } else if self.paint.balloon.is_some() {
            UpRoute::NewBalloon
        } else if self.frames.pen.is_some() {
            UpRoute::FramePen
        } else if self.frames.drag.is_some() {
            UpRoute::FrameDrag
        } else if self.select.magnetic.is_some() {
            UpRoute::Magnetic
        } else if self.select.moving.is_some() {
            UpRoute::SelectMove
        } else if self.fill.drag.is_some() {
            UpRoute::Fill
        } else if self.select.drag.is_some() {
            UpRoute::Select
        } else {
            UpRoute::Nothing
        }
    }

    fn barrier_up(&mut self, u: &Release) -> (r: UpAct)
        requires
            crate::canvas_input::barrier_armed(old(self).fill),
        ensures
            old(self).released(*final(self), r, *u),
            old(self).wf() ==> final(self).wf(),
    {
        self.shell.needs_redraw = true;
        match self.fill.repair.take() {
            Some(r) => {
                if r.pts.len() >= 2 {
                    let mut pts = r.pts;
                    pts.push(u.at);
                    return UpAct::Refill(
                        FillRepair {
                            leak: r.leak,
                            virtual_barrier: r.virtual_barrier,
                            pts,
                            radius: r.radius,
                            armed_undo_len: r.armed_undo_len,
                        },
                    );
                }
                self.fill.repair = Some(r);
                self.set_status("fill repair: drag the closing stroke, not a tap");
                UpAct::Done
            },
            None => UpAct::Done,
        }
    }

    fn object_up(&mut self, u: &Release, way: UpRoute) -> (r: UpAct)
        requires
            way is Group ==> old(self).object.group is Some,
            way is Gen ==> old(self).object.gen is Some,
            way is Lattice ==> old(self).object.lattice is Some,
            way is Group || way is Gen || way is Lattice,
        ensures
            old(self).object_released(*final(self), r, *u, way),
            old(self).wf() ==> final(self).wf(),
    {
        match way {
            UpRoute::Group => {
                self.object.group = None;
                self.shell.needs_redraw = true;
                if u.delta.0 != 0 || u.delta.1 != 0 {
                    self.push_cmd(AppCmd::ObjectMultiMove { dx: u.delta.0, dy: u.delta.1 });
                }
                UpAct::Done
            },
            UpRoute::Gen => {
                let d = self.object.gen;
                self.object.gen = None;
                self.mark_dirty();
                match d {
                    Some(d) => {
                        let live = d.layer < self.doc.layers.len() && self.doc.layers[d.layer].genlines;
                        if !floats::are_together(d.cur, d.start) && live {
                            UpAct::Regenerate(d)
                        } else {
                            UpAct::Done
                        }
                    },
                    None => UpAct::Done,
                }
            },
            _ => {
                let d = self.object.lattice;
                self.object.lattice = None;
                self.shell.needs_redraw = true;
                if let Some(d) = d {
                    if u.lattice_moved && d.layer < self.doc.layers.len() && matches!(
                        self.doc.layers[d.layer].kind,
                        crate::doc::LayerKind::FillTone
                    ) {
                        self.push_cmd(
                            AppCmd::SetFillParams(d.layer, FillParams::Shift { from: d.start, to: d.cur }),
                        );
                        self.set_status("tone lattice moved — the dots slid under the art");
                    }
                }
                UpAct::Done
            },
        }
    }

    fn shape_up(&mut self, u: Release, way: UpRoute) -> (r: UpAct)
        requires
            way is Frame ==> old(self).object.frame is Some,
            way is Balloon ==> old(self).object.balloon is Some,
            way is Frame || way is Balloon,
            old(self).release_fits(u),
        ensures
            old(self).object_released(*final(self), r, u, way),
            old(self).wf() ==> final(self).wf(),
    {
        if way == UpRoute::Frame {
            if let Some(d) = self.object.frame {
                let d = ObjectDrag {
                    layer: d.layer,
                    frame: d.frame,
                    mode: d.mode,
                    start: d.start,
                    cur: u.at,
                    shift_snap: d.shift_snap,
                };
                self.object.frame = None;
                let ghost now = *self;
                let e = self.finish_object_drag(d, u.frame);
                proof {
                    assert(now.frame_dropped(*self, e, d, u.frame));
                }
                return match e {
                    FrameEnd::Done { dx, dy } => if dx != 0 || dy != 0 {
                        UpAct::MoveArt { layer: d.layer, dx, dy }
                    } else {
                        UpAct::Done
                    },
                    FrameEnd::Nothing => UpAct::Done,
                };
            }
        } else if let Some(d) = self.object.balloon {
            let d = BalloonObjDrag {
                layer: d.layer,
                balloon: d.balloon,
                mode: d.mode,
                start: d.start,
                cur: u.at,
                shift_snap: d.shift_snap,
            };
            self.object.balloon = None;
            self.finish_balloon_obj_drag(d, u.balloon);
        }
        UpAct::Done
    }

    fn select_up(&mut self, u: &Release) -> (r: UpAct)
        requires
            old(self).select.drag matches Some(d) && d@.len() > 0,
        ensures
            old(self).select_released(*final(self), r, *u),
            old(self).wf() ==> final(self).wf(),
    {
        let mut pts = match self.select.drag.take() {
            Some(d) => d,
            None => Vec::new(),
        };
        self.shell.needs_redraw = true;
        match self.tools.select_mode {
            SelectMode::Shrink => {
                if pts.len() >= 3 {
                    pts.push(u.at);
                    let ghost before = self.shell.cmds@;
                    self.push_cmd(AppCmd::MagicSelectPath { pts, op: u.op });
                    proof {
                        assert(self.shell.cmds@.drop_last() =~= before);
                    }
                } else {
                    self.set_status("drag across the empty space inside the drawing");
                }
                UpAct::Done
            },
            SelectMode::Magnetic => {
                self.push_cmd(AppCmd::Deselect);
                UpAct::Done
            },
            _ => {
                let lasso = self.tools.select_mode == SelectMode::Lasso;
                let none = if lasso { pts.len() < 2 } else { u.tap };
                if none {
                    self.push_cmd(AppCmd::Deselect);
                    return UpAct::Done;
                }
                let combine = if self.doc.selection && u.op != SelectionOp::Replace { Some(u.op) } else { None };
                if lasso {
                    pts.push(u.at);
                } else {
                    let a: Pt = pts[0];
                    pts = Vec::new();
                    pts.push(a);
                    pts.push(u.at);
                    proof {
                        assert(pts@ =~= seq![a, u.at]);
                    }
                }
                UpAct::Select { pts, combine }
            },
        }
    }

    fn fill_up(&mut self, u: &Release)
        requires
            old(self).fill.drag is Some,
        ensures
            old(self).path_released(*final(self), UpAct::Done, *u, UpRoute::Fill),
            old(self).wf() ==> final(self).wf(),
    {
        let mut pts = match self.fill.drag.take() {
            Some(d) => d,
            None => Vec::new(),
        };
        pts.push(u.at);
        self.shell.needs_redraw = true;
        if pts.len() < 3 {
            let s: &str = match self.tools.fill_mode {
                FillMode::Lasso => "drag the shape to fill",
                FillMode::Leftover => "scrub across the area with holes in it",
                FillMode::Dust => "drag around the patch to clean",
                _ => "drag right around the areas to fill",
            };
            self.set_status(s);
            return;
        }
        let c = match self.tools.fill_mode {
            FillMode::Lasso => AppCmd::LassoFill { pts },
            FillMode::Leftover => AppCmd::LeftoverFill { pts },
            FillMode::Dust => AppCmd::DustScrub { pts },
            _ => AppCmd::EncloseFill { pts },
        };
        let ghost before = self.shell.cmds@;
        self.push_cmd(c);
        proof {
            assert(self.shell.cmds@.drop_last() =~= before);
        }
    }

    fn path_up(&mut self, u: &Release, way: UpRoute) -> (r: UpAct)
        requires
            way is Warp ==> old(self).paint.liquify is Some,
            way is FramePen ==> old(self).frames.pen is Some,
            way is FrameDrag ==> old(self).frames.drag is Some,
            way is Magnetic ==> old(self).select.magnetic is Some,
            way is SelectMove ==> old(self).select.moving is Some,
            way is Warp || way is FramePen || way is FrameDrag || way is Magnetic || way is SelectMove,
        ensures
            old(self).path_released(*final(self), r, *u, way),
            old(self).wf() ==> final(self).wf(),
    {
        self.shell.needs_redraw = true;
        match way {
            UpRoute::Warp => {
                self.paint.liquify = None;
                self.set_status("liquified — one undo takes the whole gesture back");
                UpAct::EndWarp
            },
            UpRoute::FramePen => {
                self.frames.pen = None;
                self.push_cmd(AppCmd::FramePoly { points: u.pen });
                UpAct::Done
            },
            UpRoute::FrameDrag => {
                let a: Pt = match self.frames.drag {
                    Some(d) => d.0,
                    None => u.at,
                };
                self.frames.drag = None;
                let c = if self.tools.frame_mode == FrameMode::Rect {
                    AppCmd::FrameRect { a, b: u.at }
                } else if u.cut {
                    AppCmd::FrameDivide { a, b: u.axis }
                } else {
                    AppCmd::FrameExtendEdge { at: a }
                };
                self.push_cmd(c);
                UpAct::Done
            },
            UpRoute::Magnetic => {
                if let Some(mut t) = self.select.magnetic.take() {
                    let n: usize = t.anchors.len();
                    let anew = n == 0 || t.anchors[n - 1].0 != u.px.0 || t.anchors[n - 1].1 != u.px.1;
                    if anew {
                        t.anchors.push(u.px);
                    }
                    self.select.magnetic = Some(t);
                    return if anew { UpAct::MagneticAnchor } else { UpAct::Done };
                }
                UpAct::Done
            },
            _ => {
                self.select.moving = None;
                if (u.delta.0 != 0 || u.delta.1 != 0) && self.doc.selection {
                    self.doc.touch();
                    return UpAct::MoveSelection(u.delta.0, u.delta.1);
                }
                UpAct::Done
            },
        }
    }

    fn balloon_up(&mut self, u: Release) -> (r: UpAct)
        requires
            old(self).paint.balloon is Some,
            u.new_balloon.under@.len() == old(self).doc.layers@.len(),
        ensures
            old(self).path_released(*final(self), r, u, UpRoute::NewBalloon),
            old(self).wf() ==> final(self).wf(),
    {
        let mut pts = match self.paint.balloon.take() {
            Some(d) => d,
            None => Vec::new(),
        };
        pts.push(Sample { at: u.at, pressure: u.pressure });
        self.shell.needs_redraw = true;
        self.finish_balloon_drag(&pts, u.new_balloon);
        UpAct::Done
    }

    fn anchor_up(&mut self, u: &Release)
        requires
            old(self).figure.anchor_drag is Some,
        ensures
            old(self).settled(*final(self), UpAct::Done, *u, UpRoute::Anchor),
            old(self).wf() ==> final(self).wf(),
    {
        self.figure_anchor_drag_move(u.at);
        self.figure.anchor_drag = None;
        self.set_status("point moved — keep clicking, or Enter to ink");
        self.shell.needs_redraw = true;
    }

    /// A figure or gradient ends.
    fn paint_up(&mut self, u: &Release, way: UpRoute) -> (r: UpAct)
        requires
            old(self).doc.wf(),
            way is Figure ==> old(self).figure.drag is Some,
            way is Ramp ==> old(self).paint.grad is Some,
            way is Free ==> old(self).paint.free is Some,
            way is Figure || way is Ramp || way is Free,
        ensures
            old(self).settled(*final(self), r, *u, way),
            old(self).wf() ==> final(self).wf(),
    {
        self.shell.needs_redraw = true;
        match way {
            UpRoute::Figure => {
                let d = self.figure.drag;
                self.figure.drag = None;
                match d {
                    Some(d) => {
                        let act = self.release_figure_drag(d.0, d.1, u.figure);
                        UpAct::Ink(act)
                    },
                    None => UpAct::Done,
                }
            },
            UpRoute::Ramp => {
                let d = self.paint.grad;
                self.paint.grad = None;
                match d {
                    Some(d) => {
                        let act = self.finish_gradient(d.0, d.1, u.ramp_short);
                        UpAct::Paint(act)
                    },
                    None => UpAct::Done,
                }
            },
            _ => {
                let act = self.release_grad_free(u.guide, u.guide_is_line);
                UpAct::Paint(act)
            },
        }
    }

    fn ruler_up(&mut self, f: RulerFacts) -> (r: UpAct)
        requires
            old(self).rulers.pending is Some,
            old(self).rulers.drag is Some,
        ensures
            exists|e: RulerRelease| {
                &&& #[trigger] old(self).ruler_released(*final(self), e, f)
                &&& if e is RebuildTwins { r is RebuildTwins } else { r is Done }
            },
            old(self).wf() ==> final(self).wf(),
    {
        let e = self.ruler_release(f);
        proof {
            assert(old(self).ruler_released(*self, e, f));
        }
        if e == RulerRelease::RebuildTwins {
            UpAct::RebuildTwins
        } else {
            UpAct::Done
        }
    }

    fn ruler_move_up(&mut self, u: &Release) -> (r: UpAct)
        requires
            old(self).rulers.moving is Some,
        ensures
            old(self).settled(*final(self), r, *u, UpRoute::Ruler),
            old(self).wf() ==> final(self).wf(),
    {
        let e = self.ruler_drop(u.ruler_changed);
        proof {
            assert(old(self).ruler_dropped(*self, e, u.ruler_changed));
        }
        if e == RulerRelease::RebuildTwins {
            UpAct::RebuildTwins
        } else {
            UpAct::Done
        }
    }

    /// Gives the borrowed tool back and stops waiting for a ruler.
    fn begin_release(&mut self)
        requires
            old(self).rulers.pending is None || old(self).rulers.drag is None,
        ensures
            *final(self) == old(self).let_go(),
            old(self).wf() ==> final(self).wf(),
    {
        self.hold.temp_object = false;
        let keep = match self.rulers.pending {
            Some(k) => k == crate::modes::RulerKind::Curve && self.rulers.drag.is_none(),
            None => false,
        };
        if !keep {
            self.rulers.pending = None;
        }
        self.rulers.drag = None;
    }

    fn release_on(&mut self, u: Release, way: UpRoute) -> (r: UpAct)
        requires
            old(self).doc.wf(),
            old(self).release_fits(u),
            way == up_route(*old(self)),
            !(way is Barrier || way is Size || way is NewRuler),
        ensures
            old(self).settled(*final(self), r, u, way),
            old(self).wf() ==> final(self).wf(),
    {
        match way {
            UpRoute::Ruler => self.ruler_move_up(&u),
            UpRoute::Vector => UpAct::Vector,
            UpRoute::Rotate => UpAct::EndRotate,
            UpRoute::Pan => UpAct::EndPan,
            UpRoute::Stroke => self.stroke_up(&u),
            UpRoute::Float => UpAct::Float,
            UpRoute::TextTool => UpAct::TextTool,
            UpRoute::TextObject => UpAct::TextObject,
            UpRoute::Group | UpRoute::Gen | UpRoute::Lattice => self.object_up(&u, way),
            UpRoute::Frame | UpRoute::Balloon => self.shape_up(u, way),
            UpRoute::Anchor => {
                self.anchor_up(&u);
                UpAct::Done
            },
            UpRoute::Figure | UpRoute::Ramp | UpRoute::Free => self.paint_up(&u, way),
            UpRoute::NewBalloon => self.balloon_up(u),
            UpRoute::Fill => {
                self.fill_up(&u);
                UpAct::Done
            },
            UpRoute::Select => self.select_up(&u),
            UpRoute::Warp | UpRoute::FramePen | UpRoute::FrameDrag | UpRoute::Magnetic | UpRoute::SelectMove => self.path_up(&u, way),
            _ => UpAct::Done,
        }
    }

    /// A release on the canvas.
    pub fn canvas_up(&mut self, u: Release) -> (r: UpAct)
        requires
            old(self).doc.wf(),
            old(self).release_fits(u),
        ensures
            old(self).released(*final(self), r, u),
            old(self).wf() ==> final(self).wf(),
    {
        let way = self.release_route();
        if way == UpRoute::Barrier {
            return self.barrier_up(&u);
        }
        if way == UpRoute::Size {
            self.hold.size_drag = None;
            self.shell.status = text::frame_line("brush size: ", u.size_shown.as_str(), " px");
            return UpAct::Done;
        }
        if way == UpRoute::NewRuler {
            self.hold.temp_object = false;
            return self.ruler_up(u.ruler);
        }
        self.begin_release();
        self.release_on(u, way)
    }
}

impl App {
    /// Tells how generating the run anew went. The parameters stand only where
    /// it made something.
    pub fn gen_regenerated(&mut self, mode: GenDragMode, made: bool)
        ensures
            *final(self) == (App { shell: final(self).shell, ..*old(self) }),
            final(self).shell.says(old(self).shell, gen_text(mode, made)),
    {
        let s: &str = if !made {
            "generator produced nothing — parameters widened"
        } else {
            match mode {
                GenDragMode::Center => "run moved",
                GenDragMode::RIn => "inner radius set",
                GenDragMode::ROut => "outer radius set",
                GenDragMode::Angle => "direction set",
                GenDragMode::LenMin => "minimum length set",
                GenDragMode::LenMax => "maximum length set",
            }
        };
        self.set_status(s);
    }

    /// What a drawn selection makes of the state.
    pub open spec fn selection_settled(self, after: App, made: bool, left: bool) -> bool {
        &&& if made && left {
            after == (App {
                doc: (Document {
                    selection: true,
                    revision: crate::doc::next_revision(self.doc.revision),
                    ..self.doc
                }),
                ..self.redrawn()
            })
        } else {
            self.asked(after, AppCmd::Deselect)
        }
    }

    /// Takes the selection that a path made: `made` says that it holds a
    /// pixel, and `left` that what the two selections left does. Nothing left
    /// is a deselection, since an empty selection would be everything.
    pub fn selection_made(&mut self, made: bool, left: bool)
        ensures
            old(self).selection_settled(*final(self), made, left),
            old(self).wf() ==> final(self).wf(),
    {
        self.shell.needs_redraw = true;
        if made && left {
            self.doc.selection = true;
            self.doc.touch();
        } else {
            self.push_cmd(AppCmd::Deselect);
        }
    }

    /// What the last point of a stroke makes of the smart shape's path.
    pub open spec fn smart_lifted(self, after: App, at: Pt) -> bool {
        match self.figure.smart {
            None => after == self,
            Some(g) => {
                &&& after == (App { figure: (FigureHand { smart: after.figure.smart, ..self.figure }), ..self })
                &&& after.figure.smart matches Some(now)
                &&& now == (SmartShape { pts: now.pts, ..g })
                &&& now.pts@ == g.pts@.push(at)
            },
        }
    }

    /// The pen lifts off a stroke: the last point joins the path of the smart
    /// shape.
    fn smart_shape_lift(&mut self, at: Pt)
        ensures
            old(self).smart_lifted(*final(self), at),
            old(self).wf() ==> final(self).wf(),
    {
        if let Some(mut g) = self.figure.smart.take() {
            g.pts.push(at);
            self.figure.smart = Some(g);
        }
    }

    /// A stroke ends: behind a hold that found a figure the pen adjusts it, and
    /// nothing more is recorded.
    fn stroke_up(&mut self, u: &Release) -> (r: UpAct)
        ensures
            old(self).settled(*final(self), r, *u, UpRoute::Stroke),
            old(self).wf() ==> final(self).wf(),
    {
        if let Some(g) = &self.figure.smart {
            if g.armed() {
                return UpAct::EndShaped { adjust: g.adjust.is_some() || u.past };
            }
        }
        self.smart_shape_lift(u.at);
        UpAct::EndStroke
    }

    /// The stroke has ended: an armed repair with real ink runs the fill again
    /// behind it.
    pub fn take_fill_repair(&mut self) -> (r: Option<FillRepair>)
        ensures
            r == old(self).fill.repair,
            *final(self) == (App { fill: (FillHand { repair: None, ..old(self).fill }), ..*old(self) }),
    {
        self.fill.repair.take()
    }
}

/// A release ends the gesture that it is for, and a borrowed Object tool is
/// given back.
pub proof fn law_a_release_ends_its_gesture(a: App, b: App, r: UpAct, u: Release)
    requires
        a.released(b, r, u),
    ensures
        !(up_route(a) is Barrier || up_route(a) is Size) ==> !b.hold.temp_object,
        match up_route(a) {
            UpRoute::Size => b.hold.size_drag is None,
            UpRoute::NewRuler => b.rulers.pending is None && b.rulers.drag is None,
            UpRoute::Ruler => b.rulers.moving is None,
            UpRoute::Group => b.object.group is None,
            UpRoute::Gen => b.object.gen is None,
            UpRoute::Frame => b.object.frame is None,
            UpRoute::Lattice => b.object.lattice is None,
            UpRoute::Balloon => b.object.balloon is None,
            UpRoute::Warp => b.paint.liquify is None,
            UpRoute::Anchor => b.figure.anchor_drag is None,
            UpRoute::Figure => b.figure.drag is None,
            UpRoute::Ramp => b.paint.grad is None,
            UpRoute::NewBalloon => b.paint.balloon is None,
            UpRoute::FramePen => b.frames.pen is None,
            UpRoute::FrameDrag => b.frames.drag is None,
            UpRoute::SelectMove => b.select.moving is None,
            UpRoute::Fill => b.fill.drag is None,
            UpRoute::Select => b.select.drag is None,
            _ => true,
        },
{
}

/// Behind a hold that found a figure a release records nothing more: the path
/// that was recognized stays as it is, and the figure is what a release inks.
pub proof fn law_a_found_figure_takes_no_more_ink(a: App, b: App, r: UpAct, u: Release)
    requires
        a.released(b, r, u),
        up_route(a) is Stroke,
        a.figure.smart matches Some(g) && g.armed_spec(),
    ensures
        b.figure == a.figure,
        b.doc == a.doc,
        r is EndShaped,
{
}

/// A tap is not a barrier: the repair stays armed, and waits for a drag.
pub proof fn law_a_tap_keeps_the_repair_armed(a: App, b: App, r: UpAct, u: Release)
    requires
        a.released(b, r, u),
        crate::canvas_input::barrier_armed(a.fill),
        a.fill.repair->0.pts@.len() < 2,
    ensures
        b.fill.repair == a.fill.repair,
        r is Done,
{
}

/// With nothing under way a release changes nothing but that a borrowed tool is
/// given back, and a ruler that was asked for waits no longer.
pub proof fn law_a_free_release_changes_nothing(a: App, b: App, r: UpAct, u: Release)
    requires
        a.released(b, r, u),
        crate::canvas_move::hands_empty(a),
    ensures
        r is Done,
        b == (App { hold: b.hold, ..a }),
        b.hold == (Hold { temp_object: false, ..a.hold }),
{
}

/// A release of the fill repair's barrier: with a drag behind it the fill is run
/// again along the barrier that ends at the release; a tap is told so, and the
/// repair stays.
pub proof fn law_a_barrier_ends_at_the_release(a: App, b: App, r: UpAct, u: Release)
    requires
        a.released(b, r, u),
        a.fill.repair matches Some(f) && f.virtual_barrier,
    ensures
        ({
            let f = a.fill.repair->0;
            &&& f.pts@.len() >= 2 ==> {
                &&& b.fill.repair is None
                &&& r matches UpAct::Refill(g)
                &&& g.pts@.len() == f.pts@.len() + 1 && g.pts@.drop_last() == f.pts@ && g.pts@.last() == u.at
                &&& g.leak == f.leak && g.virtual_barrier && g.radius == f.radius && g.armed_undo_len == f.armed_undo_len
            }
            &&& f.pts@.len() < 2 ==> r is Done && b.fill == a.fill && b.shell.status@
                == "fill repair: drag the closing stroke, not a tap"@
            &&& b.doc == a.doc && b.shell.cmds == a.shell.cmds && b.hold == a.hold
        }),
{
    let v = a.fill.repair->0.pts@;
    assert(v.push(u.at).drop_last() =~= v);
}

/// A size drag ends with its release, which sets nothing more.
pub proof fn law_a_size_drag_only_ends(a: App, b: App, r: UpAct, u: Release)
    requires
        a.released(b, r, u),
        a.hold.size_drag is Some,
        crate::canvas_move::hands_empty(App { hold: (Hold { size_drag: None, ..a.hold }), ..a }),
    ensures
        r is Done,
        b.hold == (Hold { size_drag: None, ..a.hold }),
        b.shell.cmds == a.shell.cmds,
        b.shell.status@ == "brush size: "@ + u.size_shown@ + " px"@,
        b.doc == a.doc,
{
}

/// What only the shell can end is handed to it, and stays held until it has.
pub proof fn law_the_shell_ends_its_own(a: App, b: App, r: UpAct, u: Release)
    requires
        a.released(b, r, u),
    ensures
        a.hold.rotating && crate::canvas_move::hands_empty(App { hold: (Hold { rotating: false, ..a.hold }), ..a }) ==> r is EndRotate && b.hold.rotating,
        a.hold.panning && crate::canvas_move::hands_empty(App { hold: (Hold { panning: false, ..a.hold }), ..a }) ==> r is EndPan && b.hold.panning,
        a.object.vector && crate::canvas_move::hands_empty(App { object: (ObjectHand { vector: false, ..a.object }), ..a }) ==> r is Vector,
        a.object.text_gesture && crate::canvas_move::hands_empty(App { object: (ObjectHand { text_gesture: false, ..a.object }), ..a }) ==> r is TextTool,
        a.object.text && crate::canvas_move::hands_empty(App { object: (ObjectHand { text: false, ..a.object }), ..a }) ==> r is TextObject,
        (a.hold.transform_drag matches Some(d) && d.gesture is Some) && crate::canvas_move::hands_empty(
            App { hold: (Hold { transform_drag: None, ..a.hold }), ..a },
        ) ==> r is Float && b.hold.transform_drag == a.hold.transform_drag,
        (a.hold.drawing && a.figure.smart is None) && crate::canvas_move::hands_empty(App { hold: (Hold { drawing: false, ..a.hold }), ..a }) ==> r is EndStroke
            && b.figure == a.figure,
        a.paint.liquify is Some && crate::canvas_move::hands_empty(App { paint: (PaintHand { liquify: None, ..a.paint }), ..a }) ==> r is EndWarp
            && b.paint.liquify is None,
{
}

/// A set of objects that was dragged moves by the whole pixels of the drag, and
/// by none where there are none.
pub proof fn law_a_set_moves_by_its_drag(a: App, b: App, r: UpAct, u: Release)
    requires
        a.released(b, r, u),
        a.object.group is Some,
        crate::canvas_move::hands_empty(App { object: (ObjectHand { group: None, ..a.object }), ..a }),
    ensures
        r is Done,
        b.object.group is None,
        u.delta.0 == 0 && u.delta.1 == 0 ==> b.shell.cmds == a.shell.cmds,
        u.delta.0 != 0 || u.delta.1 != 0 ==> b.shell.cmds@ == a.shell.cmds@.push(
            AppCmd::ObjectMultiMove { dx: u.delta.0, dy: u.delta.1 },
        ),
        b.doc == a.doc,
{
}

/// A run's handle that moved has its run generated anew, where the layer still
/// holds one.
pub proof fn law_a_moved_handle_regenerates(a: App, b: App, r: UpAct, u: Release)
    requires
        a.released(b, r, u),
        a.object.gen is Some,
        crate::canvas_move::hands_empty(App { object: (ObjectHand { gen: None, ..a.object }), ..a }),
    ensures
        ({
            let d = a.object.gen->0;
            let there = d.layer < a.doc.layers@.len() && a.doc.layers@[d.layer as int].genlines;
            &&& b.object.gen is None && b.work.dirty && b.doc == a.doc && b.shell == a.shell
            &&& there && !(floats::equal(d.cur.x, d.start.x) && floats::equal(d.cur.y, d.start.y)) ==> r == UpAct::Regenerate(d)
            &&& !there || (floats::equal(d.cur.x, d.start.x) && floats::equal(d.cur.y, d.start.y)) ==> r is Done
        }),
{
}

/// A tone lattice that was dragged is shifted by its own drag, where the layer
/// is still a live tone; else nothing is asked for.
pub proof fn law_a_lattice_shifts_by_its_drag(a: App, b: App, r: UpAct, u: Release)
    requires
        a.released(b, r, u),
        a.object.lattice is Some,
        crate::canvas_move::hands_empty(App { object: (ObjectHand { lattice: None, ..a.object }), ..a }),
    ensures
        ({
            let d = a.object.lattice->0;
            let shifts = u.lattice_moved && d.layer < a.doc.layers@.len() && a.doc.layers@[d.layer as int].kind is FillTone;
            &&& r is Done && b.object.lattice is None && b.doc == a.doc
            &&& shifts ==> b.shell.cmds@ == a.shell.cmds@.push(
                AppCmd::SetFillParams(d.layer, FillParams::Shift { from: d.start, to: d.cur }),
            )
            &&& shifts ==> b.shell.status@ == "tone lattice moved — the dots slid under the art"@
            &&& !shifts ==> b.shell.cmds == a.shell.cmds
            &&& b.shell.needs_redraw
        }),
{
}

/// The panel tools: the pen's outline becomes a panel, a box spans from the press
/// to the release, a cut runs from the press along its axis, and a tap extends
/// the border that was pressed.
pub proof fn law_a_panel_comes_of_its_drag(a: App, b: App, r: UpAct, u: Release)
    requires
        a.released(b, r, u),
    ensures
        a.frames.pen is Some && crate::canvas_move::hands_empty(App { frames: (FrameHand { pen: None, ..a.frames }), ..a }) ==> {
            &&& r is Done && b.frames.pen is None
            &&& b.shell.cmds@ == a.shell.cmds@.push(AppCmd::FramePoly { points: u.pen })
        },
        a.frames.drag matches Some(d) ==> crate::canvas_move::hands_empty(App { frames: (FrameHand { drag: None, ..a.frames }), ..a }) ==> {
            &&& r is Done && b.frames.drag is None
            &&& a.tools.frame_mode is Rect ==> b.shell.cmds@ == a.shell.cmds@.push(AppCmd::FrameRect { a: d.0, b: u.at })
            &&& !(a.tools.frame_mode is Rect) && u.cut ==> b.shell.cmds@ == a.shell.cmds@.push(
                AppCmd::FrameDivide { a: d.0, b: u.axis },
            )
            &&& !(a.tools.frame_mode is Rect) && !u.cut ==> b.shell.cmds@ == a.shell.cmds@.push(
                AppCmd::FrameExtendEdge { at: d.0 },
            )
        },
{
}

/// A fill's path ends at the release: with three points or more it asks for the
/// fill of its own mode along the whole path, with fewer for none.
pub proof fn law_a_fill_runs_along_its_path(a: App, b: App, r: UpAct, u: Release)
    requires
        a.released(b, r, u),
        a.fill.drag is Some,
        crate::canvas_move::hands_empty(App { fill: (FillHand { drag: None, ..a.fill }), ..a }),
    ensures
        ({
            let had = a.fill.drag->0@;
            let c = b.shell.cmds@.last();
            &&& r is Done && b.fill.drag is None && b.doc == a.doc
            &&& b.shell.needs_redraw
            &&& had.len() < 2 ==> {
                &&& b.shell.cmds == a.shell.cmds
                &&& a.tools.fill_mode is Lasso ==> b.shell.status@ == "drag the shape to fill"@
                &&& a.tools.fill_mode is Leftover ==> b.shell.status@ == "scrub across the area with holes in it"@
                &&& a.tools.fill_mode is Dust ==> b.shell.status@ == "drag around the patch to clean"@
                &&& a.tools.fill_mode is Enclose || a.tools.fill_mode is Click ==> b.shell.status@
                    == "drag right around the areas to fill"@
            }
            &&& had.len() >= 2 ==> {
                &&& b.shell.cmds@.len() == a.shell.cmds@.len() + 1 && b.shell.cmds@.drop_last() == a.shell.cmds@
                &&& a.tools.fill_mode is Lasso ==> c is LassoFill && c->LassoFill_pts@ == had.push(u.at)
                &&& a.tools.fill_mode is Leftover ==> c is LeftoverFill && c->LeftoverFill_pts@ == had.push(u.at)
                &&& a.tools.fill_mode is Dust ==> c is DustScrub && c->DustScrub_pts@ == had.push(u.at)
                &&& a.tools.fill_mode is Enclose || a.tools.fill_mode is Click ==> c is EncloseFill && c->EncloseFill_pts@
                    == had.push(u.at)
            }
        }),
{
}

/// A dragged selection moves by whole pixels, where there is one and it went
/// anywhere; the document counts that as a change, and else stays as it is.
pub proof fn law_a_selection_moves_by_its_drag(a: App, b: App, r: UpAct, u: Release)
    requires
        a.released(b, r, u),
        a.select.moving is Some,
        crate::canvas_move::hands_empty(App { select: (SelectHand { moving: None, ..a.select }), ..a }),
    ensures
        ({
            let goes = a.doc.selection && (u.delta.0 != 0 || u.delta.1 != 0);
            &&& b.select.moving is None && b.shell.cmds == a.shell.cmds
            &&& goes ==> r == UpAct::MoveSelection(u.delta.0, u.delta.1) && (a.doc.revision < u64::MAX ==> b.doc.revision
                == a.doc.revision + 1)
            &&& !goes ==> r is Done && b.doc == a.doc
            &&& b.doc == (Document { revision: b.doc.revision, ..a.doc })
        }),
{
}

/// A selection's path ends at the release. A box or ellipse spans the press and
/// the release; a lasso is the whole path. A tap, or a lasso of fewer than three
/// points, deselects. What stands is combined only where there is one and it is
/// not to be replaced.
pub proof fn law_a_selection_comes_of_its_path(a: App, b: App, r: UpAct, u: Release)
    requires
        a.released(b, r, u),
        a.select.drag is Some,
        a.select.drag->0@.len() > 0,
        crate::canvas_move::hands_empty(App { select: (SelectHand { drag: None, ..a.select }), ..a }),
    ensures
        ({
            let had = a.select.drag->0@;
            let mode = a.tools.select_mode;
            &&& b.select.drag is None && b.doc == a.doc
            &&& (mode is Rect || mode is Ellipse) && u.tap ==> r is Done && b.shell.cmds@ == a.shell.cmds@.push(AppCmd::Deselect)
            &&& (mode is Rect || mode is Ellipse) && !u.tap ==> r is Select && r->Select_pts@.len() == 2 && r->Select_pts@[0]
                == had[0] && r->Select_pts@[1] == u.at && b.shell.cmds == a.shell.cmds
            &&& mode is Lasso && had.len() < 2 ==> r is Done && b.shell.cmds@ == a.shell.cmds@.push(AppCmd::Deselect)
            &&& mode is Lasso && had.len() >= 2 ==> r is Select && r->Select_pts@ == had.push(u.at) && b.shell.cmds == a.shell.cmds
            &&& r is Select && (!a.doc.selection || u.op is Replace) ==> r->combine is None
            &&& r is Select && a.doc.selection && !(u.op is Replace) ==> r->combine == Some(u.op)
            &&& mode is Shrink && had.len() < 3 ==> r is Done && b.shell.cmds == a.shell.cmds && b.shell.status@
                == "drag across the empty space inside the drawing"@
            &&& mode is Magnetic ==> r is Done && b.shell.cmds@ == a.shell.cmds@.push(AppCmd::Deselect)
            &&& b.shell.needs_redraw
            &&& mode is Shrink && had.len() >= 3 ==> {
                &&& r is Done && b.shell.cmds@.len() == a.shell.cmds@.len() + 1
                &&& b.shell.cmds@.drop_last() == a.shell.cmds@
                &&& b.shell.cmds@.last() is MagicSelectPath
                &&& b.shell.cmds@.last()->MagicSelectPath_pts@ == had.push(u.at)
                &&& b.shell.cmds@.last()->op == u.op
            }
        }),
{
}

/// A release of the magnetic lasso freezes an anchor at its pixel, but not twice
/// at the same one.
pub proof fn law_a_release_freezes_one_anchor(a: App, b: App, r: UpAct, u: Release)
    requires
        a.released(b, r, u),
        a.select.magnetic is Some,
        crate::canvas_move::hands_empty(App { select: (SelectHand { magnetic: None, ..a.select }), ..a }),
    ensures
        ({
            let t = a.select.magnetic->0.anchors@;
            let now = b.select.magnetic->0.anchors@;
            let again = t.len() > 0 && t.last() == u.px;
            &&& b.select.magnetic is Some
            &&& again ==> r is Done && now == t
            &&& !again ==> r is MagneticAnchor && now.len() == t.len() + 1 && now.last() == u.px && now.drop_last() == t
        }),
{
    let t = a.select.magnetic->0.anchors@;
    assert(t.push(u.px).drop_last() =~= t);
}

/// A figure, a ramp and a dragged point end where their drags are: the figure is
/// inked between its two points, the ramp painted between its own, and the point
/// goes to the release.
pub proof fn law_a_drag_ends_between_its_points(a: App, b: App, r: UpAct, u: Release)
    requires
        a.released(b, r, u),
    ensures
        (a.figure.drag is Some && (a.tools.figure_mode is Line || a.tools.figure_mode is Rect || a.tools.figure_mode is Ellipse)
            && !a.tools.figure_adjust_angle && !u.figure.tiny) && crate::canvas_move::hands_empty(
            App { figure: (FigureHand { drag: None, ..a.figure }), ..a },
        ) ==> r is Ink && r->Ink_0 is Drag && r->Ink_0->a == (a.figure.drag->0).0 && r->Ink_0->b == (a.figure.drag->0).1
            && b.figure.drag is None,
        (a.paint.grad is Some && !a.tools.fill_live && !u.ramp_short) && crate::canvas_move::hands_empty(
            App { paint: (PaintHand { grad: None, ..a.paint }), ..a },
        ) ==> r is Paint && r->Paint_0 is Paint && (r->Paint_0->Paint_0).a == (a.paint.grad->0).0 && (r->Paint_0->Paint_0).b
            == (a.paint.grad->0).1 && b.paint.grad is None,
        (a.figure.anchor_drag matches Some(i) && a.figure.poly is Some && i < a.figure.poly->0@.len()) && crate::canvas_move::hands_empty(
            App { figure: (FigureHand { anchor_drag: None, ..a.figure }), ..a },
        ) ==> {
            let i = a.figure.anchor_drag->0 as int;
            &&& r is Done && b.figure.anchor_drag is None && b.figure.poly is Some
            &&& b.shell.status@ == "point moved — keep clicking, or Enter to ink"@
            &&& b.shell.needs_redraw
            &&& b.figure.poly->0@.len() == a.figure.poly->0@.len()
            &&& b.figure.poly->0@[i].p == u.at && b.figure.poly->0@[i].corner == a.figure.poly->0@[i].corner
            &&& forall|j: int| 0 <= j < a.figure.poly->0@.len() && j != i ==> #[trigger] b.figure.poly->0@[j]
                == a.figure.poly->0@[j]
        },
{
}

/// A run that was generated anew names the handle that did it; one that made
/// nothing says so, whatever the handle.
pub proof fn law_a_run_names_its_handle(mode: GenDragMode, other: GenDragMode)
    ensures
        gen_text(mode, false) == "generator produced nothing — parameters widened"@,
        gen_text(GenDragMode::Center, true) == "run moved"@,
        gen_text(GenDragMode::RIn, true) == "inner radius set"@,
        gen_text(GenDragMode::ROut, true) == "outer radius set"@,
        gen_text(GenDragMode::Angle, true) == "direction set"@,
        gen_text(GenDragMode::LenMin, true) == "minimum length set"@,
        gen_text(GenDragMode::LenMax, true) == "maximum length set"@,
        mode != other ==> gen_text(mode, true) != gen_text(other, true),
{
    reveal_strlit("run moved");
    reveal_strlit("inner radius set");
    reveal_strlit("outer radius set");
    reveal_strlit("direction set");
    reveal_strlit("minimum length set");
    reveal_strlit("maximum length set");
    assert("run moved"@.len() == 9 && "inner radius set"@.len() == 16 && "outer radius set"@.len() == 16);
    assert("direction set"@.len() == 13 && "minimum length set"@.len() == 18 && "maximum length set"@.len() == 18);
    assert("inner radius set"@[0] == 'i' && "outer radius set"@[0] == 'o');
    assert("minimum length set"@[1] == 'i' && "maximum length set"@[1] == 'a');
}

/// A drawn selection stands where it was made and anything is left of it; else
/// what was selected is asked to be let go.
pub proof fn law_an_empty_selection_is_let_go(app: App, after: App, made: bool, left: bool)
    requires
        app.selection_settled(after, made, left),
    ensures
        made && left ==> after.doc.selection && after.doc.layers == app.doc.layers && after.shell.cmds == app.shell.cmds,
        !made || !left ==> after.doc == app.doc && after.shell.cmds@.len() == app.shell.cmds@.len() + 1
            && after.shell.cmds@.last() is Deselect,
{
}

/// A warp that ends says that one undo takes it back.
pub proof fn law_a_warp_ends_at_the_release(a: App, b: App, r: UpAct, u: Release)
    requires
        a.released(b, r, u),
        a.paint.liquify is Some,
        crate::canvas_move::hands_empty(App { paint: (PaintHand { liquify: None, ..a.paint }), ..a }),
    ensures
        r is EndWarp,
        b.paint.liquify is None,
        b.shell.status@ == "liquified — one undo takes the whole gesture back"@,
        b.shell.needs_redraw,
        b.shell.cmds == a.shell.cmds,
        b.doc == a.doc,
{
}

} // verus!
