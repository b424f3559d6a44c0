//! The application's state, as far as the canvas logic reads or changes it.

use vstd::prelude::*;
use crate::canvas_input::{BalloonObjDrag, FillLatticeDrag, GenLinesDrag, GroupObjDrag, ObjRef, ObjectDrag, RulerMove};
use crate::doc::{CurveRuler, Document, LayerComp};
use crate::fill_repair::{FillRepair, LeakFill};
use crate::frames::ReadingOrder;
use crate::figure::{GenLinesSpec, LineOpts};
use crate::geom::{Colour, Pt, Sample};
use crate::layer_defaults::LayerDefaults;
use crate::modes::{BalloonMode, FigureMode, FillMode, FrameMode, GradMode, ObjectMode, PanMode, RulerKind, SelectCombine, SelectMode, SelectionOp, Tool};

verus! {

/// What a live fill layer is to show.
#[derive(Clone, Copy, PartialEq, Eq, Structural, Debug)]
pub enum FillParams {
    Ramp(Ramp),
    /// The layer's tone with its lattice moved by this much.
    Shift { from: Pt, to: Pt },
}

/// How a gradient runs between its ends: the shell's names for the stops that
/// were set there and for the options.
#[derive(Clone, Copy, PartialEq, Eq, Structural, Debug)]
pub struct Stops {
    pub mid: u64,
    pub opts: u64,
}

/// A straight ramp from one point and colour to another.
#[derive(Clone, Copy, PartialEq, Eq, Structural, Debug)]
pub struct Ramp {
    pub a: Pt,
    pub b: Pt,
    pub from: Colour,
    pub to: Colour,
    pub stops: Stops,
}

/// A balloon's tail.
#[derive(Clone, Copy, PartialEq, Eq, Structural, Debug)]
pub struct Tail {
    pub base: Pt,
    pub tip: Pt,
    /// Bit pattern of a 32-bit float.
    pub width: u32,
    /// The shell's name for its shape.
    pub kind: u64,
    /// Bit pattern of a 32-bit float.
    pub bend: u32,
}

/// A new balloon, without a tail.
#[derive(Debug)]
pub enum NewBalloon {
    /// The ellipse, or the soft-cornered box, that two corners span.
    Ellipse { a: Pt, b: Pt },
    Round { a: Pt, b: Pt },
    /// A closed outline with the pen pressure at each anchor.
    Drawn { points: Vec<Pt>, widths: Vec<u32> },
}

/// A command for the rest of the application, carried out in its turn. Where
/// one carries a shape that only the drawing core reads, it is the shell's name
/// for it.
#[derive(Debug)]
#[allow(inconsistent_fields)]
pub enum AppCmd {
    Undo,
    Deselect,
    TransformCommit,
    PickColor(Pt),
    Fill(Pt),
    ToneRegion(Pt),
    MagicSelect(Pt, SelectionOp),
    MagicSelectPath { pts: Vec<Pt>, op: SelectionOp },
    EncloseFill { pts: Vec<Pt> },
    LassoFill { pts: Vec<Pt> },
    LeftoverFill { pts: Vec<Pt> },
    DustScrub { pts: Vec<Pt> },
    SetBrushSizePx(u32),
    ObjectMultiMove { dx: i32, dy: i32 },
    FrameRect { a: Pt, b: Pt },
    FrameDivide { a: Pt, b: Pt },
    FrameExtendEdge { at: Pt },
    FramePoly { points: u64 },
    FrameCommit { layer: usize, frames: u64 },
    /// `ink` is the shell's name for the ink.
    BalloonAdd { balloon: NewBalloon, ink: u64 },
    BalloonCommit { layer: usize, balloons: u64 },
    BalloonTailAdd { layer: usize, balloon: usize, tail: Tail },
    TextCommit { layer: usize, texts: u64 },
    HistoryWrapLast { label: String, count: usize },
    SetFillParams(usize, FillParams),
    NewLiveFill(FillParams),
    GenLinesPlace { spec: GenLinesSpec, panel: Option<usize> },
}

/// The second stage of a figure: what the pointer steers.
#[derive(Clone, Copy, PartialEq, Eq, Structural, Debug)]
pub enum FigureStage2Kind {
    Bend,
    Angle,
}

/// A figure whose size is fixed and that waits for one more click.
#[derive(Clone, Copy, PartialEq, Eq, Structural, Debug)]
pub struct FigureStage2 {
    pub a: Pt,
    pub b: Pt,
    pub cur: Pt,
    pub kind: FigureStage2Kind,
    pub shift: bool,
}

/// A clicked point of a figure.
#[derive(Clone, Copy, PartialEq, Eq, Structural, Debug)]
pub struct FigureAnchor {
    pub p: Pt,
    /// The curve creases here.
    pub corner: bool,
}

/// A shape that the recognizer found in a stroke; the shell keeps its path.
#[derive(Clone, Copy, PartialEq, Eq, Structural, Debug)]
pub struct Shape {
    pub kind: u32,
    pub closed: bool,
    pub path: u64,
}

/// A stroke that may turn into a shape when the pen rests.
#[derive(Debug)]
pub struct SmartShape {
    pub pts: Vec<Pt>,
    /// Where the pen last came to rest, on the screen.
    pub anchor: Pt,
    /// The hold has matured.
    pub ripe: bool,
    pub hit: Option<Shape>,
    /// The stroke is snapped, so it stays as drawn.
    pub refused: bool,
    pub ops_at_start: u64,
    /// The shape as the drag behind the hold has left it.
    pub adjust: Option<Shape>,
}

/// One line of a freeform gradient, with its colour.
#[derive(Debug)]
pub struct Guide {
    /// The shell's name for the line.
    pub stroke: u64,
    pub colour: Colour,
}

/// A freeform gradient that is being drawn.
#[derive(Debug)]
pub struct GradFree {
    pub done: Vec<Guide>,
    pub cur: Vec<Pt>,
    pub drawing: bool,
}

/// What a press on a Transform float took hold of.
#[derive(Clone, Copy, PartialEq, Eq, Structural, Debug)]
pub enum TransformGrab {
    Move,
    Rotate,
    Pivot,
    Corner(usize),
    Edge(usize),
    MeshPoint(usize),
    PuppetPin(usize),
}

/// A Transform gesture under way.
#[derive(Clone, Copy, PartialEq, Eq, Structural, Debug)]
pub struct TransformGesture {
    pub grab: TransformGrab,
    pub start: Pt,
}

/// A pin of the puppet mesh: where it was dropped and where it is.
#[derive(Clone, Copy, PartialEq, Eq, Structural, Debug)]
pub struct PuppetPin {
    pub orig: Pt,
    pub cur: Pt,
}

/// A mesh over the float.
#[derive(Debug)]
pub struct Mesh {
    pub puppet: bool,
    pub pins: Vec<PuppetPin>,
}

/// The Transform float.
#[derive(Debug)]
pub struct TransformDrag {
    pub gesture: Option<TransformGesture>,
    pub mesh: Option<Mesh>,
    /// The Object tool lifted it: a pure move commits on release.
    pub object_lift: bool,
}

/// A magnetic trace, by the anchors that are frozen.
#[derive(Debug)]
pub struct Trace {
    pub anchors: Vec<(i32, i32)>,
}

/// A page of the work.
#[derive(Clone, Copy, PartialEq, Eq, Structural, Debug)]
pub struct PageEntry {
    pub uid: u64,
    pub spread: bool,
}

/// A document that is open beside the one on screen.
#[derive(Debug)]
pub struct Tab {
    pub doc: Document,
    pub pages: Vec<PageEntry>,
    pub page_index: usize,
    pub story: String,
    pub doc_path: Option<String>,
    pub dirty: bool,
}

/// The work on screen, and the works that are open beside it.
#[derive(Debug)]
pub struct Work {
    pub pages: Vec<PageEntry>,
    pub page_index: usize,
    pub story: String,
    pub doc_path: Option<String>,
    pub dirty: bool,
    pub parked: Vec<Tab>,
    /// The place of the work on screen among all that are open.
    pub active_doc: usize,
    pub close_requested: bool,
}

/// What the shell shows and does next.
#[derive(Debug)]
pub struct Shell {
    pub status: String,
    pub needs_redraw: bool,
    pub cmds: Vec<AppCmd>,
}

/// The tool and its settings.
#[derive(Debug)]
pub struct Tools {
    pub tool: Tool,
    pub fill_mode: FillMode,
    pub select_mode: SelectMode,
    pub figure_mode: FigureMode,
    pub grad_mode: GradMode,
    pub frame_mode: FrameMode,
    pub balloon_mode: BalloonMode,
    pub object_mode: ObjectMode,
    pub object_combine: SelectCombine,
    pub pan_mode: PanMode,
    pub figure_adjust_angle: bool,
    pub figure_fill: bool,
    /// The knobs of the figures that run out from a centre.
    pub figure_focus: LineOpts,
    /// The knobs of the stream lines.
    pub figure_stream: LineOpts,
    pub smart_shape_on: bool,
    pub fill_live: bool,
    /// The colour that the pen draws with.
    pub active_color: Colour,
    pub sub_color: Colour,
    pub symmetric_lines: u32,
    /// How a new gradient runs between its ends.
    pub grad_stops: Stops,
    /// The ink of a new balloon, and the shape and bend of a new tail; the ink
    /// and the shape are the shell's names.
    pub balloon_ink: u64,
    pub balloon_tail_kind: u64,
    pub balloon_tail_bend: u32,
}

/// What holds the canvas as a whole.
#[derive(Debug)]
pub struct Hold {
    pub resample_job: bool,
    pub startup_fit_pending: bool,
    pub space_down: bool,
    pub panning: bool,
    pub rotating: bool,
    pub drawing: bool,
    pub click_depth: u8,
    pub transform_drag: Option<TransformDrag>,
    /// The Object tool is borrowed for one press.
    pub temp_object: bool,
    /// A brush-size drag: where it began, and the size then.
    pub size_drag: Option<(u32, u32)>,
}

/// Rulers that are being placed or moved.
#[derive(Debug)]
pub struct RulerHand {
    pub pending: Option<RulerKind>,
    pub drag: Option<Pt>,
    pub curve: Option<Vec<Pt>>,
    pub moving: Option<RulerMove>,
}

/// Fills that are being drawn or repaired.
#[derive(Debug)]
pub struct FillHand {
    pub repair: Option<FillRepair>,
    pub last: Option<LeakFill>,
    pub drag: Option<Vec<Pt>>,
}

/// Selections that are being drawn or moved.
#[derive(Debug)]
pub struct SelectHand {
    pub moving: Option<(Pt, Pt)>,
    pub drag: Option<Vec<Pt>>,
    pub magnetic: Option<Trace>,
}

/// Figures that are being drawn.
#[derive(Debug)]
pub struct FigureHand {
    pub stage2: Option<FigureStage2>,
    pub poly: Option<Vec<FigureAnchor>>,
    pub anchor_drag: Option<usize>,
    pub drag: Option<(Pt, Pt)>,
    pub smart: Option<SmartShape>,
}

/// Gradients, balloons and liquify strokes that are being drawn.
#[derive(Debug)]
pub struct PaintHand {
    pub grad: Option<(Pt, Pt)>,
    pub free: Option<GradFree>,
    pub liquify: Option<Pt>,
    pub balloon: Option<Vec<Sample>>,
}

/// Panels that are being drawn, and the panels' reading order.
#[derive(Debug)]
pub struct FrameHand {
    pub poly: Option<Vec<Pt>>,
    pub pen: Option<Vec<Pt>>,
    pub drag: Option<(Pt, Pt)>,
    pub order: Option<ReadingOrder>,
    /// The document's revision when the order was computed.
    pub order_rev: u64,
    /// The curve rulers that stand for panel borders.
    pub rulers: Vec<CurveRuler>,
}

/// What the Object tool holds.
#[derive(Debug)]
pub struct ObjectHand {
    pub text_gesture: bool,
    pub text: bool,
    pub vector: bool,
    pub group: Option<GroupObjDrag>,
    pub gen: Option<GenLinesDrag>,
    pub frame: Option<ObjectDrag>,
    pub balloon: Option<BalloonObjDrag>,
    pub lattice: Option<FillLatticeDrag>,
}

/// The Object tool's selection.
#[derive(Debug)]
pub struct Picked {
    pub frame: Option<(usize, usize)>,
    pub balloon: Option<(usize, usize)>,
    pub text: Option<(usize, usize)>,
    pub gen: Option<usize>,
    pub gen_edit: bool,
    pub at: Option<Pt>,
    pub multi: Vec<ObjRef>,
}

/// The layer comps that are selected, and the look before the last one.
#[derive(Debug)]
pub struct CompHand {
    pub selected: Option<usize>,
    pub multi: Vec<usize>,
    pub last_state: Option<LayerComp>,
    /// The eye of a layer that a comp does not know.
    pub added_visible: bool,
}

/// The application.
#[derive(Debug)]
pub struct App {
    pub doc: Document,
    pub work: Work,
    pub shell: Shell,
    pub tools: Tools,
    pub layer_defaults: LayerDefaults,
    pub hold: Hold,
    pub rulers: RulerHand,
    pub fill: FillHand,
    pub select: SelectHand,
    pub figure: FigureHand,
    pub paint: PaintHand,
    pub frames: FrameHand,
    pub object: ObjectHand,
    pub picked: Picked,
    pub comps: CompHand,
}

impl Shell {
    /// The shell with nothing changed but what it says.
    pub open spec fn says(self, before: Shell, s: Seq<char>) -> bool {
        &&& self == (Shell { status: self.status, ..before })
        &&& self.status@ == s
    }

    /// The shell with nothing changed but one command more.
    pub open spec fn asks(self, before: Shell, c: AppCmd) -> bool {
        &&& self == (Shell { cmds: self.cmds, ..before })
        &&& self.cmds@ == before.cmds@.push(c)
    }

    /// Shows a line of text.
    pub fn set_status(&mut self, s: &str)
        ensures
            final(self).says(*old(self), s@),
    {
        self.status = crate::text::own(s);
    }

    /// Queues a command.
    pub fn push_cmd(&mut self, c: AppCmd)
        ensures
            final(self).asks(*old(self), c),
    {
        self.cmds.push(c);
    }
}

impl Work {
    /// The active layer of each parked work exists, and the work on screen has
    /// its place.
    pub open spec fn wf(self) -> bool {
        &&& self.active_doc <= self.parked@.len()
        &&& forall|k: int| 0 <= k < self.parked@.len() ==> (#[trigger] self.parked@[k]).doc.wf()
    }
}

impl App {
    /// Nothing is held, nothing is being drawn and nothing is picked.
    pub open spec fn idle(self) -> bool {
        &&& !self.hold.resample_job && !self.hold.startup_fit_pending && !self.hold.space_down
        &&& !self.hold.panning && !self.hold.rotating && !self.hold.drawing && !self.hold.temp_object
        &&& self.hold.click_depth == 0
        &&& self.hold.transform_drag is None
        &&& self.hold.size_drag is None
        &&& self.rulers.pending is None && self.rulers.drag is None && self.rulers.curve is None
        &&& self.rulers.moving is None
        &&& self.fill.repair is None && self.fill.last is None && self.fill.drag is None
        &&& self.select.moving is None && self.select.drag is None && self.select.magnetic is None
        &&& self.figure.stage2 is None && self.figure.poly is None && self.figure.anchor_drag is None
        &&& self.figure.drag is None && self.figure.smart is None
        &&& self.paint.grad is None && self.paint.free is None && self.paint.liquify is None
        &&& self.paint.balloon is None
        &&& self.frames.poly is None && self.frames.pen is None && self.frames.drag is None
        &&& self.frames.order is None && self.frames.rulers@.len() == 0
        &&& !self.object.text_gesture && !self.object.text && !self.object.vector
        &&& self.object.group is None && self.object.gen is None && self.object.frame is None
        &&& self.object.balloon is None && self.object.lattice is None
        &&& self.picked.frame is None && self.picked.balloon is None && self.picked.text is None
        &&& self.picked.gen is None && !self.picked.gen_edit && self.picked.at is None
        &&& self.picked.multi@.len() == 0
        &&& self.comps.selected is None && self.comps.multi@.len() == 0 && self.comps.last_state is None
    }

    /// The application with one work of one page open.
    pub fn new(doc: Document, tools: Tools, layer_defaults: LayerDefaults) -> (r: App)
        requires
            doc.wf(),
        ensures
            r.wf(),
            r.idle(),
            r.doc == doc,
            r.tools == tools,
            r.layer_defaults == layer_defaults,
            r.work.pages@ == seq![PageEntry { uid: 1, spread: false }],
            r.work.page_index == 0,
            r.work.story@ == Seq::<char>::empty(),
            r.work.doc_path is None,
            !r.work.dirty && !r.work.close_requested,
            r.work.parked@.len() == 0,
            r.shell.status@ == Seq::<char>::empty(),
            !r.shell.needs_redraw,
            r.shell.cmds@.len() == 0,
            r.comps.added_visible,
    {
        proof {
            reveal_strlit("");
        }
        let r = App {
            doc,
            work: Work {
                pages: vec![PageEntry { uid: 1, spread: false }],
                page_index: 0,
                story: crate::text::own(""),
                doc_path: None,
                dirty: false,
                parked: Vec::new(),
                active_doc: 0,
                close_requested: false,
            },
            shell: Shell { status: crate::text::own(""), needs_redraw: false, cmds: Vec::new() },
            tools,
            layer_defaults,
            hold: Hold {
                resample_job: false,
                startup_fit_pending: false,
                space_down: false,
                panning: false,
                rotating: false,
                drawing: false,
                click_depth: 0,
                transform_drag: None,
                temp_object: false,
                size_drag: None,
            },
            rulers: RulerHand { pending: None, drag: None, curve: None, moving: None },
            fill: FillHand { repair: None, last: None, drag: None },
            select: SelectHand { moving: None, drag: None, magnetic: None },
            figure: FigureHand { stage2: None, poly: None, anchor_drag: None, drag: None, smart: None },
            paint: PaintHand { grad: None, free: None, liquify: None, balloon: None },
            frames: FrameHand { poly: None, pen: None, drag: None, order: None, order_rev: 0, rulers: Vec::new() },
            object: ObjectHand {
                text_gesture: false,
                text: false,
                vector: false,
                group: None,
                gen: None,
                frame: None,
                balloon: None,
                lattice: None,
            },
            picked: Picked {
                frame: None,
                balloon: None,
                text: None,
                gen: None,
                gen_edit: false,
                at: None,
                multi: Vec::new(),
            },
            comps: CompHand { selected: None, multi: Vec::new(), last_state: None, added_visible: true },
        };
        assert(r.work.pages@ =~= seq![PageEntry { uid: 1, spread: false }]);
        r
    }

    /// The active layer of each open work exists, and the work on screen has
    /// its place.
    pub open spec fn wf(self) -> bool {
        &&& self.doc.wf()
        &&& self.work.wf()
    }

    /// Shows a line of text.
    pub fn set_status(&mut self, s: &str)
        ensures
            *final(self) == (App { shell: final(self).shell, ..*old(self) }),
            final(self).shell.says(old(self).shell, s@),
    {
        self.shell.set_status(s);
    }

    /// The work has changes that are not saved.
    pub fn mark_dirty(&mut self)
        ensures
            *final(self) == (App { work: (Work { dirty: true, ..old(self).work }), ..*old(self) }),
            old(self).wf() ==> final(self).wf(),
    {
        self.work.dirty = true;
    }

    /// Queues a command.
    pub fn push_cmd(&mut self, c: AppCmd)
        ensures
            *final(self) == (App { shell: final(self).shell, ..*old(self) }),
            final(self).shell.asks(old(self).shell, c),
    {
        self.shell.push_cmd(c);
    }
}

} // verus!
