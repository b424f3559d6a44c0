//! The pointer moves while the canvas holds it: the gesture under way takes
//! the move. The order of the checks is the priority of the gestures.

use vstd::prelude::*;
use crate::app::{App, AppCmd, FigureHand, FillHand, FrameHand, GradFree, ObjectHand, PaintHand, SelectHand, Shell, TransformGesture};
use crate::canvas_input::{BalloonObjDrag, FillLatticeDrag, GenLinesDrag, GroupObjDrag, ObjectDrag, RulerMove};
use crate::fill_repair::FillRepair;
use crate::geom::{Pt, Sample};
use crate::modes::{BalloonMode, FrameMode, SelectMode};
use crate::smart_shape::SmartMove;
use crate::text;

verus! {

/// The bit pattern of the pressure of a pointer that has none.
pub const HALF: u32 = 0x3f00_0000u32;

/// A move on the canvas, and what the shell measured of it.
#[derive(Debug)]
pub struct Motion {
    pub screen: Pt,
    pub at: Pt,
    /// The pixel that the pointer is nearest to.
    pub px: (i32, i32),
    pub shift: bool,
    /// The pen's samples since the last move.
    pub samples: Vec<Sample>,
    /// The brush size that a size drag has come to, and as it is shown.
    pub size_px: u32,
    pub size_shown: String,
    /// The pen has left the place where it rested.
    pub past: bool,
    /// The ruler that is held moved, and what is said as it starts.
    pub travelled: bool,
    pub ruler_says: Option<String>,
    /// How far a lattice has come, as it is shown.
    pub lattice: String,
    /// The pointer with a dragged border snapped to the lines around it.
    pub border: Pt,
    /// The pointer on the nearest of the eight directions of the figure.
    pub octant: Pt,
    /// The pointer on the nearer axis of the cut, where it is near one.
    pub axis: Pt,
    /// The pointer is far enough from the last vertex of the line.
    pub far: bool,
    /// The magnetic trace has drifted far enough for an anchor.
    pub drifted: bool,
}

/// What is still to be done about a move.
#[derive(Clone, Copy, PartialEq, Eq, Structural, Debug)]
pub enum MoveAct {
    Done,
    /// Warp the pixels from one point to the other.
    Warp(Pt, Pt),
    UpdateRotate,
    UpdatePan,
    /// The figure is adjusted; no ink is laid.
    Smart(SmartMove),
    /// The stroke goes on, and the smart shape with it.
    Stroke(SmartMove),
    Float(TransformGesture),
    TextTool,
    TextObject,
    Ruler(RulerMove),
    Vector,
    MagneticTrack,
    MagneticAnchor,
}

/// The gesture that takes the move.
#[derive(Clone, Copy, PartialEq, Eq, Structural, Debug)]
pub enum MoveRoute {
    Barrier,
    Warp,
    Rotate,
    Pan,
    Size,
    Stroke,
    Float,
    TextTool,
    TextObject,
    Group,
    Ruler,
    Vector,
    Gen,
    Lattice,
    Frame,
    Balloon,
    FramePen,
    Anchor,
    Figure,
    Ramp,
    Free,
    FrameDrag,
    NewBalloon,
    Fill,
    Magnetic,
    SelectMove,
    Select,
    Nothing,
}

/// The gesture that takes the move.
pub open spec fn move_route(app: App) -> MoveRoute {
    if app.fill.repair matches Some(r) && r.virtual_barrier && r.pts@.len() > 0 {
        MoveRoute::Barrier
    } else if app.paint.liquify is Some {
        MoveRoute::Warp
    } else if app.hold.rotating {
        MoveRoute::Rotate
    } else if app.hold.panning {
        MoveRoute::Pan
    } else if app.hold.size_drag is Some {
        MoveRoute::Size
    } else if app.hold.drawing {
        MoveRoute::Stroke
    } else if app.float_gesture() is Some {
        MoveRoute::Float
    } else if app.object.text_gesture {
        MoveRoute::TextTool
    } else if app.object.text {
        MoveRoute::TextObject
    } else if app.object.group is Some {
        MoveRoute::Group
    } else if app.rulers.moving is Some {
        MoveRoute::Ruler
    } else if app.object.vector {
        MoveRoute::Vector
    } else if app.object.gen is Some {
        MoveRoute::Gen
    } else if app.object.lattice is Some {
        MoveRoute::Lattice
    } else if app.object.frame is Some {
        MoveRoute::Frame
    } else if app.object.balloon is Some {
        MoveRoute::Balloon
    } else if app.frames.pen is Some {
        MoveRoute::FramePen
    } else if app.figure.anchor_drag is Some {
        MoveRoute::Anchor
    } else if app.figure.drag is Some {
        MoveRoute::Figure
    } else if app.paint.grad is Some {
        MoveRoute::Ramp
    } else if app.paint.free is Some {
        MoveRoute::Free
    } else if app.frames.drag is Some {
        MoveRoute::FrameDrag
    } else if app.paint.balloon is Some {
        MoveRoute::NewBalloon
    } else if app.fill.drag is Some {
        MoveRoute::Fill
    } else if app.select.magnetic is Some {
        MoveRoute::Magnetic
    } else if app.select.moving is Some {
        MoveRoute::SelectMove
    } else if app.select.drag is Some {
        MoveRoute::Select
    } else {
        MoveRoute::Nothing
    }
}

/// A stroke that is a wall reaches no other gesture, and the view's gestures
/// come before any drawing.
pub proof fn law_moves_keep_their_order(app: App)
    ensures
        crate::canvas_input::barrier_armed(app.fill) && app.fill.repair->0.pts@.len() > 0 ==> move_route(app) is Barrier,
        (app.hold.rotating || app.hold.panning) && app.hold.drawing ==> !(move_route(app) is Stroke),
        app.hold.drawing && app.float_gesture() is Some ==> !(move_route(app) is Float),
{
}

/// The drag of a shape that two corners span: the press and the pointer.
pub open spec fn corners(d: Seq<Pt>, at: Pt) -> Seq<Pt> {
    if d.len() > 1 {
        d.take(1).push(at)
    } else {
        d.push(at)
    }
}

/// What a move makes of a path that is being drawn.
pub open spec fn path_moved(mode: SelectMode, d: Seq<Pt>, at: Pt) -> Seq<Pt> {
    match mode {
        SelectMode::Rect | SelectMode::Ellipse => corners(d, at),
        SelectMode::Lasso | SelectMode::Shrink => d.push(at),
        SelectMode::Magnetic => d,
    }
}

/// What a move makes of a new balloon: a drawn one takes the pen's samples, or
/// the pointer where there are none; the others keep the press and the pointer.
pub open spec fn balloon_moved(mode: BalloonMode, d: Seq<Sample>, at: Pt, samples: Seq<Sample>) -> Seq<Sample> {
    let pressure = if samples.len() > 0 { samples.last().pressure } else { HALF };
    let s = Sample { at, pressure };
    if mode is Draw {
        if samples.len() > 0 { d + samples } else { d.push(s) }
    } else if d.len() > 1 {
        d.take(1).push(s)
    } else {
        d.push(s)
    }
}

impl App {
    /// What a move makes of the objects that are held.
    pub open spec fn object_moved(self, after: App, r: MoveAct, m: Motion, way: MoveRoute) -> bool {
        &&& r is Done
        &&& match way {
            MoveRoute::Group => {
                let d = self.object.group->0;
                after == (App {
                    object: (ObjectHand { group: Some(GroupObjDrag { cur: m.at, ..d }), ..self.object }),
                    ..self.redrawn()
                })
            },
            MoveRoute::Gen => {
                let d = self.object.gen->0;
                after == (App {
                    object: (ObjectHand { gen: Some(GenLinesDrag { cur: m.at, ..d }), ..self.object }),
                    ..self.redrawn()
                })
            },
            MoveRoute::Lattice => {
                let d = self.object.lattice->0;
                (App {
                    object: (ObjectHand { lattice: Some(FillLatticeDrag { cur: m.at, ..d }), ..self.object }),
                    ..self
                }).told(after, text::framed("lattice → ("@, m.lattice@, ") px"@))
            },
            MoveRoute::Frame => {
                let d = self.object.frame->0;
                after == (App {
                    object: (ObjectHand {
                        frame: Some(
                            ObjectDrag { cur: if d.mode is Edge { m.border } else { m.at }, shift_snap: m.shift, ..d },
                        ),
                        ..self.object
                    }),
                    ..self.redrawn()
                })
            },
            _ => {
                let d = self.object.balloon->0;
                after == (App {
                    object: (ObjectHand {
                        balloon: Some(BalloonObjDrag { cur: m.at, shift_snap: m.shift, ..d }),
                        ..self.object
                    }),
                    ..self.redrawn()
                })
            },
        }
    }

    fn object_move(&mut self, m: &Motion, way: MoveRoute)
        requires
            way is Group ==> old(self).object.group is Some,
            way is Gen ==> old(self).object.gen is Some,
            way is Lattice ==> old(self).object.lattice is Some,
            way is Frame ==> old(self).object.frame is Some,
            way is Balloon ==> old(self).object.balloon is Some,
            way is Group || way is Gen || way is Lattice || way is Frame || way is Balloon,
        ensures
            old(self).object_moved(*final(self), MoveAct::Done, *m, way),
    {
        match way {
            MoveRoute::Group => {
                if let Some(d) = self.object.group {
                    self.object.group = Some(GroupObjDrag { start: d.start, cur: m.at });
                }
            },
            MoveRoute::Gen => {
                if let Some(d) = self.object.gen {
                    self.object.gen = Some(GenLinesDrag { layer: d.layer, mode: d.mode, start: d.start, cur: m.at });
                }
            },
            MoveRoute::Lattice => {
                if let Some(d) = self.object.lattice {
                    self.object.lattice = Some(FillLatticeDrag { layer: d.layer, start: d.start, cur: m.at });
                }
                self.shell.status = text::frame_line("lattice → (", m.lattice.as_str(), ") px");
            },
            MoveRoute::Frame => {
                if let Some(d) = self.object.frame {
                    let edge = matches!(d.mode, crate::canvas_input::ObjectDragMode::Edge(_));
                    self.object.frame = Some(
                        ObjectDrag {
                            layer: d.layer,
                            frame: d.frame,
                            mode: d.mode,
                            start: d.start,
                            cur: if edge { m.border } else { m.at },
                            shift_snap: m.shift,
                        },
                    );
                }
            },
            _ => {
                if let Some(d) = self.object.balloon {
                    self.object.balloon = Some(
                        BalloonObjDrag {
                            layer: d.layer,
                            balloon: d.balloon,
                            mode: d.mode,
                            start: d.start,
                            cur: m.at,
                            shift_snap: m.shift,
                        },
                    );
                }
            },
        }
        self.shell.needs_redraw = true;
    }

    /// What a move makes of what is being drawn.
    pub open spec fn path_dragged(self, after: App, r: MoveAct, m: Motion, way: MoveRoute) -> bool {
        match way {
            MoveRoute::FramePen => {
                &&& r is Done
                &&& after == (App { frames: (FrameHand { pen: after.frames.pen, ..self.frames }), ..self.redrawn() })
                &&& after.frames.pen matches Some(d)
                &&& d@ == self.frames.pen->0@.push(m.at)
            },
            MoveRoute::Figure => {
                let d = self.figure.drag->0;
                &&& r is Done
                &&& after == (App {
                    figure: (FigureHand { drag: Some((d.0, if m.shift { m.octant } else { m.at })), ..self.figure }),
                    ..self.redrawn()
                })
            },
            MoveRoute::Ramp => {
                let d = self.paint.grad->0;
                &&& r is Done
                &&& after == (App { paint: (PaintHand { grad: Some((d.0, m.at)), ..self.paint }), ..self.redrawn() })
            },
            MoveRoute::Free => {
                let g = self.paint.free->0;
                &&& r is Done
                &&& after == (App { paint: (PaintHand { free: after.paint.free, ..self.paint }), ..self.redrawn() })
                &&& after.paint.free matches Some(now)
                &&& now == (GradFree { cur: now.cur, ..g })
                &&& now.cur@ == (if g.drawing && (g.cur@.len() == 0 || m.far) { g.cur@.push(m.at) } else { g.cur@ })
            },
            MoveRoute::FrameDrag => {
                let d = self.frames.drag->0;
                let cur = if self.tools.frame_mode is Rect { m.at } else { m.axis };
                &&& r is Done
                &&& after == (App { frames: (FrameHand { drag: Some((d.0, cur)), ..self.frames }), ..self.redrawn() })
            },
            MoveRoute::NewBalloon => {
                &&& r is Done
                &&& after == (App { paint: (PaintHand { balloon: after.paint.balloon, ..self.paint }), ..self.redrawn() })
                &&& after.paint.balloon matches Some(d)
                &&& d@ == balloon_moved(self.tools.balloon_mode, self.paint.balloon->0@, m.at, m.samples@)
            },
            MoveRoute::Fill => {
                &&& r is Done
                &&& after == (App { fill: (FillHand { drag: after.fill.drag, ..self.fill }), ..self.redrawn() })
                &&& after.fill.drag matches Some(d)
                &&& d@ == self.fill.drag->0@.push(m.at)
            },
            MoveRoute::Magnetic => {
                let t = self.select.magnetic->0;
                &&& r == (if m.drifted { MoveAct::MagneticAnchor } else { MoveAct::MagneticTrack })
                &&& after == (App { select: (SelectHand { magnetic: after.select.magnetic, ..self.select }), ..self.redrawn() })
                &&& after.select.magnetic matches Some(now)
                &&& now.anchors@ == (if m.drifted { t.anchors@.push(m.px) } else { t.anchors@ })
            },
            MoveRoute::SelectMove => {
                let d = self.select.moving->0;
                &&& r is Done
                &&& after == (App { select: (SelectHand { moving: Some((d.0, m.at)), ..self.select }), ..self.redrawn() })
            },
            _ => {
                &&& r is Done
                &&& after == (App { select: (SelectHand { drag: after.select.drag, ..self.select }), ..self.redrawn() })
                &&& after.select.drag matches Some(d)
                &&& d@ == path_moved(self.tools.select_mode, self.select.drag->0@, m.at)
            },
        }
    }

    fn path_drag(&mut self, m: &Motion, way: MoveRoute) -> (r: MoveAct)
        requires
            way is FramePen ==> old(self).frames.pen is Some,
            way is Figure ==> old(self).figure.drag is Some,
            way is Ramp ==> old(self).paint.grad is Some,
            way is Free ==> old(self).paint.free is Some,
            way is FrameDrag ==> old(self).frames.drag is Some,
            way is NewBalloon ==> old(self).paint.balloon is Some,
            way is Fill ==> old(self).fill.drag is Some,
            way is Magnetic ==> old(self).select.magnetic is Some,
            way is SelectMove ==> old(self).select.moving is Some,
            way is Select ==> old(self).select.drag is Some,
            way is FramePen || way is Figure || way is Ramp || way is Free || way is FrameDrag || way is NewBalloon
                || way is Fill || way is Magnetic || way is SelectMove || way is Select,
        ensures
            old(self).path_dragged(*final(self), r, *m, way),
    {
        self.shell.needs_redraw = true;
        match way {
            MoveRoute::FramePen => {
                if let Some(mut d) = self.frames.pen.take() {
                    d.push(m.at);
                    self.frames.pen = Some(d);
                }
            },
            MoveRoute::Figure => {
                if let Some(d) = self.figure.drag {
                    self.figure.drag = Some((d.0, if m.shift { m.octant } else { m.at }));
                }
            },
            MoveRoute::Ramp => {
                if let Some(d) = self.paint.grad {
                    self.paint.grad = Some((d.0, m.at));
                }
            },
            MoveRoute::Free => {
                if let Some(mut g) = self.paint.free.take() {
                    if g.drawing && (g.cur.len() == 0 || m.far) {
                        g.cur.push(m.at);
                    }
                    self.paint.free = Some(g);
                }
            },
            MoveRoute::FrameDrag => {
                if let Some(d) = self.frames.drag {
                    let cur = if self.tools.frame_mode == FrameMode::Rect { m.at } else { m.axis };
                    self.frames.drag = Some((d.0, cur));
                }
            },
            MoveRoute::NewBalloon => {
                if let Some(mut d) = self.paint.balloon.take() {
                    move_balloon(&mut d, self.tools.balloon_mode, m);
                    self.paint.balloon = Some(d);
                }
            },
            MoveRoute::Fill => {
                if let Some(mut d) = self.fill.drag.take() {
                    d.push(m.at);
                    self.fill.drag = Some(d);
                }
            },
            MoveRoute::Magnetic => {
                if let Some(mut t) = self.select.magnetic.take() {
                    if m.drifted {
                        t.anchors.push(m.px);
                    }
                    self.select.magnetic = Some(t);
                }
                return if m.drifted { MoveAct::MagneticAnchor } else { MoveAct::MagneticTrack };
            },
            MoveRoute::SelectMove => {
                if let Some(d) = self.select.moving {
                    self.select.moving = Some((d.0, m.at));
                }
            },
            _ => {
                if let Some(mut d) = self.select.drag.take() {
                    move_path(&mut d, self.tools.select_mode, m.at);
                    self.select.drag = Some(d);
                }
            },
        }
        MoveAct::Done
    }

    /// What a move makes of the state.
    pub open spec fn moved(self, after: App, r: MoveAct, m: Motion) -> bool {
        let way = move_route(self);
        match way {
            MoveRoute::Barrier => {
                let had = self.fill.repair->0;
                &&& r is Done
                &&& after == (App { fill: (FillHand { repair: after.fill.repair, ..self.fill }), ..self.redrawn() })
                &&& after.fill.repair matches Some(f)
                &&& f == (FillRepair { pts: f.pts, ..had })
                &&& f.pts@ == had.pts@.push(m.at)
            },
            MoveRoute::Warp => {
                &&& r == MoveAct::Warp(self.paint.liquify->0, m.at)
                &&& after == (App { paint: (PaintHand { liquify: Some(m.at), ..self.paint }), ..self.redrawn() })
            },
            MoveRoute::Rotate => r is UpdateRotate && after == self,
            MoveRoute::Pan => r is UpdatePan && after == self,
            MoveRoute::Size => {
                &&& r is Done
                &&& after == (App {
                    shell: (Shell {
                        cmds: after.shell.cmds,
                        status: after.shell.status,
                        needs_redraw: true,
                        ..self.shell
                    }),
                    ..self
                })
                &&& after.shell.cmds@ == self.shell.cmds@.push(AppCmd::SetBrushSizePx(m.size_px))
                &&& after.shell.status@ == text::framed("brush size: "@, m.size_shown@, " px"@)
            },
            MoveRoute::Stroke => {
                let armed = self.figure.smart matches Some(g) && g.armed_spec();
                exists|s: SmartMove| {
                    &&& #[trigger] self.smart_moved(after, s, m.at, m.screen, m.shift, m.past)
                    &&& r == (if armed { MoveAct::Smart(s) } else { MoveAct::Stroke(s) })
                }
            },
            MoveRoute::Float => r == MoveAct::Float(self.float_gesture()->0) && after == self.redrawn(),
            MoveRoute::TextTool => r is TextTool && after == self,
            MoveRoute::TextObject => r is TextObject && after == self.redrawn(),
            MoveRoute::Ruler => {
                &&& r == MoveAct::Ruler(self.rulers.moving->0)
                &&& self.ruler_dragged(
                    after,
                    m.at,
                    m.travelled,
                    (match m.ruler_says { Some(s) => Some(s@), None => None }),
                )
            },
            MoveRoute::Vector => r is Vector && after == self,
            MoveRoute::Group | MoveRoute::Gen | MoveRoute::Lattice | MoveRoute::Frame | MoveRoute::Balloon => self.object_moved(
                after,
                r,
                m,
                way,
            ),
            MoveRoute::Anchor => {
                let i = self.figure.anchor_drag->0;
                let pts = self.figure.points();
                &&& r is Done
                &&& after == (App {
                    figure: (FigureHand {
                        poly: after.figure.poly,
                        anchor_drag: if i < pts.len() { Some(i) } else { None },
                        ..self.figure
                    }),
                    ..self.redrawn()
                })
                &&& after.figure.poly is Some == self.figure.poly is Some
                &&& after.figure.points() == (if i < pts.len() {
                    pts.update(i as int, crate::app::FigureAnchor { p: m.at, ..pts[i as int] })
                } else {
                    pts
                })
            },
            MoveRoute::Nothing => r is Done && after == (if self.frames.poly is Some { self.redrawn() } else { self }),
            _ => self.path_dragged(after, r, m, way),
        }
    }

    /// The gesture that takes the move.
    fn motion_route(&self) -> (r: MoveRoute)
        ensures
            r == move_route(*self),
    {
        if let Some(r) = &self.fill.repair {
            if r.virtual_barrier && r.pts.len() > 0 {
                return MoveRoute::Barrier;
            }
        }
        if self.paint.liquify.is_some() {
            MoveRoute::Warp
        } else if self.hold.rotating {
            MoveRoute::Rotate
        } else if self.hold.panning {
            MoveRoute::Pan
        } else if self.hold.size_drag.is_some() {
            MoveRoute::Size
        } else if self.hold.drawing {
            MoveRoute::Stroke
        } else if self.transform_gesture().is_some() {
            MoveRoute::Float
        } else if self.object.text_gesture {
            MoveRoute::TextTool
        } else if self.object.text {
            MoveRoute::TextObject
        } else if self.object.group.is_some() {
            MoveRoute::Group
        } else if self.rulers.moving.is_some() {
            MoveRoute::Ruler
        } else if self.object.vector {
            MoveRoute::Vector
        } else if self.object.gen.is_some() {
            MoveRoute::Gen
        } else if self.object.lattice.is_some() {
            MoveRoute::Lattice
        } else if self.object.frame.is_some() {
            MoveRoute::Frame
        } else if self.object.balloon.is_some() {
            MoveRoute::Balloon
        } else if self.frames.pen.is_some() {
            MoveRoute::FramePen
        } else if self.figure.anchor_drag.is_some() {
            MoveRoute::Anchor
        } else if self.figure.drag.is_some() {
            MoveRoute::Figure
        } else if self.paint.grad.is_some() {
            MoveRoute::Ramp
        } else if self.paint.free.is_some() {
            MoveRoute::Free
        } else if self.frames.drag.is_some() {
            MoveRoute::FrameDrag
        } else if self.paint.balloon.is_some() {
            MoveRoute::NewBalloon
        } else if self.fill.drag.is_some() {
            MoveRoute::Fill
        } else if self.select.magnetic.is_some() {
            MoveRoute::Magnetic
        } else if self.select.moving.is_some() {
            MoveRoute::SelectMove
        } else if self.select.drag.is_some() {
            MoveRoute::Select
        } else {
            MoveRoute::Nothing
        }
    }

    fn early_move(&mut self, m: &Motion, way: MoveRoute) -> (r: MoveAct)
        requires
            way == move_route(*old(self)),
            way is Barrier || way is Warp || way is Size || way is Stroke || way is Float || way is Anchor,
        ensures
            old(self).moved(*final(self), r, *m),
    {
        match way {
            MoveRoute::Barrier => {
                if let Some(r) = self.fill.repair.take() {
                    let mut pts = r.pts;
                    pts.push(m.at);
                    self.fill.repair = Some(
                        FillRepair {
                            leak: r.leak,
                            virtual_barrier: r.virtual_barrier,
                            pts,
                            radius: r.radius,
                            armed_undo_len: r.armed_undo_len,
                        },
                    );
                }
                self.shell.needs_redraw = true;
                MoveAct::Done
            },
            MoveRoute::Warp => {
                let from = match self.paint.liquify {
                    Some(p) => p,
                    None => m.at,
                };
                self.paint.liquify = Some(m.at);
                self.shell.needs_redraw = true;
                MoveAct::Warp(from, m.at)
            },
            MoveRoute::Size => {
                self.push_cmd(AppCmd::SetBrushSizePx(m.size_px));
                self.shell.status = text::frame_line("brush size: ", m.size_shown.as_str(), " px");
                self.shell.needs_redraw = true;
                MoveAct::Done
            },
            MoveRoute::Stroke => {
                let armed = match &self.figure.smart {
                    Some(g) => g.armed(),
                    None => false,
                };
                let s = self.smart_shape_move(m.at, m.screen, m.shift, m.past);
                proof {
                    assert(old(self).smart_moved(*self, s, m.at, m.screen, m.shift, m.past));
                }
                if armed {
                    MoveAct::Smart(s)
                } else {
                    MoveAct::Stroke(s)
                }
            },
            MoveRoute::Anchor => {
                self.figure_anchor_drag_move(m.at);
                MoveAct::Done
            },
            _ => {
                self.shell.needs_redraw = true;
                match self.transform_gesture() {
                    Some(g) => MoveAct::Float(g),
                    None => MoveAct::Done,
                }
            },
        }
    }

    /// A move while the canvas holds the pointer.
    pub fn canvas_move(&mut self, m: Motion) -> (r: MoveAct)
        ensures
            old(self).moved(*final(self), r, m),
            old(self).wf() ==> final(self).wf(),
    {
        let way = self.motion_route();
        match way {
            MoveRoute::Rotate => MoveAct::UpdateRotate,
            MoveRoute::Pan => MoveAct::UpdatePan,
            MoveRoute::TextTool => MoveAct::TextTool,
            MoveRoute::TextObject => {
                self.shell.needs_redraw = true;
                MoveAct::TextObject
            },
            MoveRoute::Vector => MoveAct::Vector,
            MoveRoute::Nothing => {
                if self.frames.poly.is_some() {
                    self.shell.needs_redraw = true;
                }
                MoveAct::Done
            },
            MoveRoute::Ruler => match self.ruler_drag_move(m.at, m.travelled, m.ruler_says) {
                Some(d) => MoveAct::Ruler(d),
                None => MoveAct::Done,
            },
            MoveRoute::Group | MoveRoute::Gen | MoveRoute::Lattice | MoveRoute::Frame | MoveRoute::Balloon => {
                self.object_move(&m, way);
                MoveAct::Done
            },
            MoveRoute::Barrier
            | MoveRoute::Warp
            | MoveRoute::Size
            | MoveRoute::Stroke
            | MoveRoute::Float
            | MoveRoute::Anchor => self.early_move(&m, way),
            _ => self.path_drag(&m, way),
        }
    }
}

fn move_path(d: &mut Vec<Pt>, mode: SelectMode, at: Pt)
    ensures
        final(d)@ == path_moved(mode, old(d)@, at),
{
    match mode {
        SelectMode::Rect | SelectMode::Ellipse => {
            if d.len() > 1 {
                d.truncate(1);
                proof {
                    assert(d@ =~= old(d)@.take(1));
                }
            }
            d.push(at);
        },
        SelectMode::Lasso | SelectMode::Shrink => {
            d.push(at);
        },
        SelectMode::Magnetic => {},
    }
}

fn move_balloon(d: &mut Vec<Sample>, mode: BalloonMode, m: &Motion)
    ensures
        final(d)@ == balloon_moved(mode, old(d)@, m.at, m.samples@),
{
    let n: usize = m.samples.len();
    if mode == BalloonMode::Draw && n > 0 {
        let mut k: usize = 0;
        proof {
            assert(d@ + m.samples@.take(0) =~= d@);
        }
        while k < n
            invariant
                n == m.samples@.len(),
                k <= n,
                d@ == old(d)@ + m.samples@.take(k as int),
            decreases n - k,
        {
            d.push(m.samples[k]);
            proof {
                assert(m.samples@.take(k + 1) =~= m.samples@.take(k as int).push(m.samples@[k as int]));
                assert(d@ =~= old(d)@ + m.samples@.take(k + 1));
            }
            k = k + 1;
        }
        proof {
            assert(m.samples@.take(n as int) =~= m.samples@);
        }
        return;
    }
    let pressure: u32 = if n > 0 { m.samples[n - 1].pressure } else { HALF };
    if mode != BalloonMode::Draw && d.len() > 1 {
        d.truncate(1);
        proof {
            assert(d@ =~= old(d)@.take(1));
        }
    }
    d.push(Sample { at: m.at, pressure });
}

/// No gesture is under way: nothing is held, drawn, dragged or steered.
pub open spec fn hands_empty(app: App) -> bool {
    &&& app.fill.repair is None && app.fill.drag is None
    &&& app.paint.liquify is None && app.paint.grad is None && app.paint.free is None && app.paint.balloon is None
    &&& !app.hold.rotating && !app.hold.panning && !app.hold.drawing
    &&& app.hold.size_drag is None && app.hold.transform_drag is None
    &&& !app.object.text_gesture && !app.object.text && !app.object.vector
    &&& app.object.group is None && app.object.gen is None && app.object.lattice is None
    &&& app.object.frame is None && app.object.balloon is None
    &&& app.rulers.moving is None && app.rulers.pending is None && app.rulers.drag is None
    &&& app.frames.pen is None && app.frames.drag is None
    &&& app.figure.anchor_drag is None && app.figure.drag is None
    &&& app.select.magnetic is None && app.select.moving is None && app.select.drag is None
}

/// With nothing under way a move does nothing, but that a panel polygon follows
/// the pointer on the screen.
pub proof fn law_a_free_pointer_changes_nothing(a: App, b: App, r: MoveAct, m: Motion)
    requires
        a.moved(b, r, m),
        hands_empty(a),
    ensures
        r is Done,
        b == (App { shell: b.shell, ..a }),
        b.shell == (Shell { needs_redraw: a.shell.needs_redraw || a.frames.poly is Some, ..a.shell }),
{
}

/// A drag between two points keeps the point that it began at and follows the
/// pointer with the other: a ramp and a moved selection go where it is, a figure
/// along the nearest direction while Shift is held, and a panel cut along the
/// nearest axis.
pub proof fn law_a_drag_keeps_its_start(a: App, b: App, r: MoveAct, m: Motion)
    requires
        a.moved(b, r, m),
    ensures
        a.paint.grad matches Some(d) ==> hands_empty(App { paint: (PaintHand { grad: None, ..a.paint }), ..a }) ==> {
            &&& b.paint.grad == Some((d.0, m.at))
            &&& r is Done && b.doc == a.doc && b.shell.cmds == a.shell.cmds && b.shell.needs_redraw
        },
        a.select.moving matches Some(d) ==> hands_empty(App { select: (SelectHand { moving: None, ..a.select }), ..a }) ==> {
            &&& b.select.moving == Some((d.0, m.at))
            &&& r is Done && b.doc == a.doc && b.shell.cmds == a.shell.cmds && b.shell.needs_redraw
        },
        a.figure.drag matches Some(d) ==> hands_empty(App { figure: (FigureHand { drag: None, ..a.figure }), ..a }) ==> {
            &&& b.figure.drag is Some && (b.figure.drag->0).0 == d.0
            &&& m.shift ==> (b.figure.drag->0).1 == m.octant
            &&& !m.shift ==> (b.figure.drag->0).1 == m.at
            &&& r is Done && b.doc == a.doc && b.shell.cmds == a.shell.cmds && b.shell.needs_redraw
        },
        a.frames.drag matches Some(d) ==> hands_empty(App { frames: (FrameHand { drag: None, ..a.frames }), ..a }) ==> {
            &&& b.frames.drag is Some && (b.frames.drag->0).0 == d.0
            &&& a.tools.frame_mode is Rect ==> (b.frames.drag->0).1 == m.at
            &&& !(a.tools.frame_mode is Rect) ==> (b.frames.drag->0).1 == m.axis
            &&& r is Done && b.doc == a.doc && b.shell.cmds == a.shell.cmds && b.shell.needs_redraw
        },
{
}

/// A path that is drawn grows by the pointer at its end and loses nothing: the
/// panel pen, the lasso fill and the fill repair's barrier.
pub proof fn law_a_drawn_path_grows_at_its_end(a: App, b: App, r: MoveAct, m: Motion)
    requires
        a.moved(b, r, m),
    ensures
        a.frames.pen matches Some(v) ==> hands_empty(App { frames: (FrameHand { pen: None, ..a.frames }), ..a }) ==> {
            &&& r is Done && b.frames.pen is Some
            &&& b.frames.pen->0@.len() == v@.len() + 1
            &&& b.frames.pen->0@.drop_last() == v@ && b.frames.pen->0@.last() == m.at
        },
        a.fill.drag matches Some(v) ==> hands_empty(App { fill: (FillHand { drag: None, ..a.fill }), ..a }) ==> {
            &&& r is Done && b.fill.drag is Some
            &&& b.fill.drag->0@.len() == v@.len() + 1
            &&& b.fill.drag->0@.drop_last() == v@ && b.fill.drag->0@.last() == m.at
        },
        a.fill.repair matches Some(f) ==> f.virtual_barrier && f.pts@.len() > 0 ==> {
            &&& r is Done && b.fill.repair is Some
            &&& b.fill.repair->0.pts@.len() == f.pts@.len() + 1
            &&& b.fill.repair->0.pts@.drop_last() == f.pts@ && b.fill.repair->0.pts@.last() == m.at
            &&& b.fill.repair->0.leak == f.leak && b.fill.repair->0.virtual_barrier && b.fill.repair->0.radius == f.radius
            &&& b.fill.repair->0.armed_undo_len == f.armed_undo_len
            &&& b.doc == a.doc && b.fill.drag == a.fill.drag
        },
{
    if a.frames.pen is Some {
        assert(a.frames.pen->0@.push(m.at).drop_last() =~= a.frames.pen->0@);
    }
    if a.fill.drag is Some {
        assert(a.fill.drag->0@.push(m.at).drop_last() =~= a.fill.drag->0@);
    }
    if a.fill.repair is Some {
        assert(a.fill.repair->0.pts@.push(m.at).drop_last() =~= a.fill.repair->0.pts@);
    }
}

/// A selection's path: a box and an ellipse are the press and the pointer, two
/// points however long the drag is; the free paths keep every point.
pub proof fn law_a_selection_follows_its_mode(a: App, b: App, r: MoveAct, m: Motion)
    requires
        a.moved(b, r, m),
        a.select.drag is Some,
        a.select.drag->0@.len() > 0,
        hands_empty(App { select: (SelectHand { drag: None, ..a.select }), ..a }),
    ensures
        ({
            let (d, e) = (a.select.drag->0@, b.select.drag->0@);
            &&& r is Done && b.select.drag is Some && b.doc == a.doc && b.shell.cmds == a.shell.cmds
            &&& a.tools.select_mode is Rect || a.tools.select_mode is Ellipse ==> e.len() == 2 && e[0] == d[0] && e[1] == m.at
            &&& a.tools.select_mode is Lasso || a.tools.select_mode is Shrink ==> e.len() == d.len() + 1 && e.drop_last() == d
                && e.last() == m.at
            &&& a.tools.select_mode is Magnetic ==> e == d
        }),
{
    let d = a.select.drag->0@;
    assert(d.push(m.at).drop_last() =~= d);
}

/// A balloon's drag: a drawn outline takes every sample of the pen and keeps
/// what it has, any other balloon is the press and the pointer. Without samples
/// the pen counts as half pressed.
pub proof fn law_a_balloon_follows_its_mode(a: App, b: App, r: MoveAct, m: Motion)
    requires
        a.moved(b, r, m),
        a.paint.balloon is Some,
        a.paint.balloon->0@.len() > 0,
        hands_empty(App { paint: (PaintHand { balloon: None, ..a.paint }), ..a }),
    ensures
        ({
            let (d, e) = (a.paint.balloon->0@, b.paint.balloon->0@);
            let n = m.samples@.len();
            &&& r is Done && b.paint.balloon is Some && b.doc == a.doc && b.shell.cmds == a.shell.cmds
            &&& a.tools.balloon_mode is Draw && n > 0 ==> e.len() == d.len() + n && e.take(d.len() as int) == d && e.skip(
                d.len() as int,
            ) == m.samples@
            &&& a.tools.balloon_mode is Draw && n == 0 ==> e.len() == d.len() + 1 && e.drop_last() == d && e.last().at == m.at
                && e.last().pressure == 0x3f00_0000
            &&& !(a.tools.balloon_mode is Draw) ==> e.len() == 2 && e[0] == d[0] && e[1].at == m.at
            &&& !(a.tools.balloon_mode is Draw) && n > 0 ==> e[1].pressure == m.samples@[n - 1].pressure
            &&& !(a.tools.balloon_mode is Draw) && n == 0 ==> e[1].pressure == 0x3f00_0000
        }),
{
    let d = a.paint.balloon->0@;
    assert((d + m.samples@).take(d.len() as int) =~= d);
    assert((d + m.samples@).skip(d.len() as int) =~= m.samples@);
    assert(forall|s: Sample| #[trigger] d.push(s).drop_last() =~= d);
}

/// What the Object tool holds follows the pointer and keeps its start, its
/// object and its mode; a panel's border alone goes to the snapped place, and
/// Shift is taken as it is held now.
pub proof fn law_an_object_drag_follows_the_pointer(a: App, b: App, r: MoveAct, m: Motion)
    requires
        a.moved(b, r, m),
    ensures
        a.object.frame matches Some(d) ==> hands_empty(App { object: (ObjectHand { frame: None, ..a.object }), ..a }) ==> {
            &&& r is Done && b.object.frame is Some && b.doc == a.doc && b.shell.cmds == a.shell.cmds
            &&& (b.object.frame->0).layer == d.layer && (b.object.frame->0).frame == d.frame && (b.object.frame->0).mode == d.mode
            &&& (b.object.frame->0).start == d.start && (b.object.frame->0).shift_snap == m.shift
            &&& d.mode is Edge ==> (b.object.frame->0).cur == m.border
            &&& !(d.mode is Edge) ==> (b.object.frame->0).cur == m.at
        },
        a.object.balloon matches Some(d) ==> hands_empty(App { object: (ObjectHand { balloon: None, ..a.object }), ..a }) ==> {
            &&& r is Done && b.object.balloon is Some && b.doc == a.doc && b.shell.cmds == a.shell.cmds
            &&& (b.object.balloon->0).layer == d.layer && (b.object.balloon->0).balloon == d.balloon
            &&& (b.object.balloon->0).mode == d.mode && (b.object.balloon->0).start == d.start
            &&& (b.object.balloon->0).cur == m.at && (b.object.balloon->0).shift_snap == m.shift
        },
        a.object.group matches Some(d) ==> hands_empty(App { object: (ObjectHand { group: None, ..a.object }), ..a }) ==> {
            &&& r is Done && b.object.group is Some && b.doc == a.doc && b.shell.cmds == a.shell.cmds
            &&& (b.object.group->0).start == d.start && (b.object.group->0).cur == m.at
        },
        a.object.gen matches Some(d) ==> hands_empty(App { object: (ObjectHand { gen: None, ..a.object }), ..a }) ==> {
            &&& r is Done && b.object.gen is Some && b.doc == a.doc && b.shell.cmds == a.shell.cmds
            &&& (b.object.gen->0).layer == d.layer && (b.object.gen->0).mode == d.mode
            &&& (b.object.gen->0).start == d.start && (b.object.gen->0).cur == m.at
        },
        a.object.lattice matches Some(d) ==> hands_empty(App { object: (ObjectHand { lattice: None, ..a.object }), ..a }) ==> {
            &&& r is Done && b.object.lattice is Some && b.doc == a.doc && b.shell.cmds == a.shell.cmds
            &&& (b.object.lattice->0).layer == d.layer && (b.object.lattice->0).start == d.start
            &&& (b.object.lattice->0).cur == m.at
        },
{
}

/// What only the shell can carry on is handed to it: the view's turns, the
/// stroke, the warp from where it was to where it is, the float, the lettering,
/// the vector's handles and the ruler.
pub proof fn law_the_shell_goes_on_with_its_own(a: App, b: App, r: MoveAct, m: Motion)
    requires
        a.moved(b, r, m),
    ensures
        a.hold.rotating && hands_empty(App { hold: (crate::app::Hold { rotating: false, ..a.hold }), ..a }) ==> r is UpdateRotate && b == a,
        a.hold.panning && hands_empty(App { hold: (crate::app::Hold { panning: false, ..a.hold }), ..a }) ==> r is UpdatePan && b == a,
        a.paint.liquify matches Some(p) ==> hands_empty(App { paint: (PaintHand { liquify: None, ..a.paint }), ..a }) ==> {
            &&& r == MoveAct::Warp(p, m.at)
            &&& b.paint.liquify == Some(m.at)
        },
        a.hold.size_drag is Some && hands_empty(App { hold: (crate::app::Hold { size_drag: None, ..a.hold }), ..a }) ==> {
            &&& r is Done && b.hold == a.hold
            &&& b.shell.cmds@ == a.shell.cmds@.push(AppCmd::SetBrushSizePx(m.size_px))
        },
        a.object.text_gesture && hands_empty(App { object: (ObjectHand { text_gesture: false, ..a.object }), ..a })
            ==> r is TextTool && b == a,
        a.object.text && hands_empty(App { object: (ObjectHand { text: false, ..a.object }), ..a }) ==> r is TextObject
            && b == (App { shell: b.shell, ..a }),
        a.object.vector && hands_empty(App { object: (ObjectHand { vector: false, ..a.object }), ..a }) ==> r is Vector && b == a,
        a.rulers.moving matches Some(d) ==> hands_empty(App { rulers: (crate::app::RulerHand { moving: None, ..a.rulers }), ..a })
            ==> r == MoveAct::Ruler(d),
        (a.hold.transform_drag matches Some(d) && d.gesture is Some) && hands_empty(
            App { hold: (crate::app::Hold { transform_drag: None, ..a.hold }), ..a },
        ) ==> r == MoveAct::Float((a.hold.transform_drag->0).gesture->0) && b == (App { shell: b.shell, ..a }),
        (a.hold.drawing && a.figure.smart is None) && hands_empty(App { hold: (crate::app::Hold { drawing: false, ..a.hold }), ..a })
            ==> r is Stroke,
{
}

/// A point of a click list that is held goes to the pointer, with its crease, and
/// no other point moves.
pub proof fn law_only_the_held_point_moves(a: App, b: App, r: MoveAct, m: Motion, j: int)
    requires
        a.moved(b, r, m),
        a.figure.anchor_drag is Some,
        a.figure.poly is Some,
        a.figure.anchor_drag->0 < a.figure.poly->0@.len(),
        0 <= j < a.figure.poly->0@.len(),
        hands_empty(App { figure: (FigureHand { anchor_drag: None, ..a.figure }), ..a }),
    ensures
        r is Done,
        b.figure.poly is Some,
        b.figure.poly->0@.len() == a.figure.poly->0@.len(),
        b.figure.poly->0@[j].corner == a.figure.poly->0@[j].corner,
        j == a.figure.anchor_drag->0 ==> b.figure.poly->0@[j].p == m.at,
        j != a.figure.anchor_drag->0 ==> b.figure.poly->0@[j].p == a.figure.poly->0@[j].p,
        b.figure.anchor_drag == a.figure.anchor_drag,
{
}

/// The magnetic trace freezes an anchor where it has drifted, at the pointer's
/// pixel, and else only follows.
pub proof fn law_the_trace_freezes_where_it_drifts(a: App, b: App, r: MoveAct, m: Motion)
    requires
        a.moved(b, r, m),
        a.select.magnetic is Some,
        hands_empty(App { select: (SelectHand { magnetic: None, ..a.select }), ..a }),
    ensures
        b.select.magnetic is Some,
        !m.drifted ==> r is MagneticTrack && b.select.magnetic->0.anchors@ == a.select.magnetic->0.anchors@,
        m.drifted ==> r is MagneticAnchor && b.select.magnetic->0.anchors@.len() == a.select.magnetic->0.anchors@.len() + 1
            && b.select.magnetic->0.anchors@.last() == m.px && b.select.magnetic->0.anchors@.drop_last()
            == a.select.magnetic->0.anchors@,
{
    let t = a.select.magnetic->0.anchors@;
    assert(t.push(m.px).drop_last() =~= t);
}

/// A freeform line takes a vertex where it is far enough from the last one, or
/// has none; between lines it takes none.
pub proof fn law_a_guide_takes_far_points(a: App, b: App, r: MoveAct, m: Motion)
    requires
        a.moved(b, r, m),
        a.paint.free is Some,
        hands_empty(App { paint: (PaintHand { free: None, ..a.paint }), ..a }),
    ensures
        ({
            let (g, h) = (a.paint.free->0, b.paint.free->0);
            &&& r is Done && b.paint.free is Some
            &&& h.done == g.done && h.drawing == g.drawing
            &&& !g.drawing ==> h.cur@ == g.cur@
            &&& g.drawing && g.cur@.len() > 0 && !m.far ==> h.cur@ == g.cur@
            &&& g.drawing && (g.cur@.len() == 0 || m.far) ==> h.cur@.len() == g.cur@.len() + 1 && h.cur@.last() == m.at
                && h.cur@.drop_last() == g.cur@
        }),
{
    let c = a.paint.free->0.cur@;
    assert(c.push(m.at).drop_last() =~= c);
}

} // verus!
