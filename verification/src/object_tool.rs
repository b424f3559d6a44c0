//! The Object tool: what a press takes hold of, the stack of objects under a
//! point, and the selection that walks through it.

use vstd::prelude::*;
use vstd::string::StringExecFns;
use crate::app::{App, Hold, ObjectHand, Picked, RulerHand, Shell, TransformDrag, TransformGesture, TransformGrab};
use crate::balloons::AnchorFacts;
use crate::canvas_input::{BalloonDragMode, BalloonHandle, BalloonObjDrag, FillLatticeDrag, GenDragMode, GenLinesDrag, GroupObjDrag, ObjRef, ObjectDrag, ObjectDragMode, RulerGrab, RulerMove};
use crate::modes::{Mods, SelectCombine};
use crate::doc::{Document, Layer, LayerKind};
use crate::geom::{Pt, PxBox, Size};
use crate::text;

verus! {

/// What the shell measured of a press near a balloon. The lollipop, the
/// corners and the middles belong to the box of a selected balloon.
#[derive(Clone, Copy, PartialEq, Eq, Structural, Debug)]
pub struct BalloonHit {
    pub handle: Option<BalloonHandle>,
    pub lolly: bool,
    pub corner: Option<usize>,
    pub mid: Option<usize>,
    pub inside: bool,
}

/// What the shell measured of a press near a panel.
#[derive(Clone, Copy, PartialEq, Eq, Structural, Debug)]
pub struct FrameHit {
    pub vertex: Option<usize>,
    pub lolly: bool,
    pub corner: Option<usize>,
    pub mid: Option<usize>,
    pub edge: Option<usize>,
    pub inside: bool,
}

/// What the shell measured of a press on one layer.
#[derive(Debug)]
pub struct LayerHit {
    /// The first driver handle within reach, on an effect-line layer.
    pub gen_handle: Option<GenDragMode>,
    /// Ink of the layer's own pixels within reach.
    pub ink: bool,
    /// Ink of what the layer shows within reach.
    pub shown_ink: bool,
    /// For each text box, whether the point is inside.
    pub texts: Vec<bool>,
    pub balloons: Vec<BalloonHit>,
    pub frames: Vec<FrameHit>,
    /// The width and height of the populated tiles, in pixels.
    pub tiles: Option<(u32, u32)>,
    /// The box of the ink.
    pub ink_box: Option<PxBox>,
}

/// What a press took hold of.
#[derive(Clone, Copy, PartialEq, Eq, Structural, Debug)]
pub enum ObjectGrab {
    GenHandle(usize, GenDragMode),
    GenInk(usize),
    Balloon(usize, usize, BalloonDragMode),
    Frame(usize, usize, ObjectDragMode),
    /// The lattice of a live tone.
    Lattice(usize),
    /// A layer with more ink than a drag should carry.
    Oversize(usize),
    /// The ink of a layer, in this box.
    Lift(usize, PxBox),
    /// A layer without ink on the page.
    Bare(usize),
    Nothing,
}

/// What is still to be done about a press.
#[derive(Clone, Copy, PartialEq, Eq, Structural, Debug)]
pub enum ObjectAct {
    Done,
    /// Press the expand arrow of this direction; if that does nothing, the
    /// press goes on behind it.
    TryExpand(usize),
    /// Open the Transform float over this layer's box.
    Lift(usize, PxBox),
}

/// Do the measurements belong to these layers?
pub open spec fn hits_fit(layers: Seq<Layer>, hits: Seq<LayerHit>) -> bool {
    &&& hits.len() == layers.len()
    &&& forall|i: int|
        0 <= i < layers.len() ==> match (#[trigger] layers[i]).kind {
            LayerKind::Text(n) => hits[i].texts@.len() == n,
            LayerKind::Balloon(n) => hits[i].balloons@.len() == n,
            LayerKind::Frame(fs) => hits[i].frames@.len() == fs.frames,
            _ => true,
        }
}

/// Which part of a balloon a press takes: a handle, then the box of a
/// selected one, then the body.
pub open spec fn balloon_part(h: BalloonHit, selected: bool) -> Option<BalloonDragMode> {
    if h.handle is Some {
        Some(BalloonDragMode::Handle(h.handle->0))
    } else if selected && h.lolly {
        Some(BalloonDragMode::BoxRotate)
    } else if selected && h.corner is Some {
        Some(BalloonDragMode::BoxCorner(h.corner->0))
    } else if selected && h.mid is Some {
        Some(BalloonDragMode::BoxEdge(h.mid->0))
    } else if h.inside {
        Some(BalloonDragMode::MoveWhole)
    } else {
        None
    }
}

/// Which part of a panel a press takes: a vertex, then the box of a selected
/// one, then an edge, then the body.
pub open spec fn frame_part(h: FrameHit, selected: bool) -> Option<ObjectDragMode> {
    if h.vertex is Some {
        Some(ObjectDragMode::Vertex(h.vertex->0))
    } else if selected && h.lolly {
        Some(ObjectDragMode::Rotate)
    } else if selected && h.corner is Some {
        Some(ObjectDragMode::ScaleCorner(h.corner->0))
    } else if selected && h.mid is Some {
        Some(ObjectDragMode::ScaleEdge(h.mid->0))
    } else if h.edge is Some {
        Some(ObjectDragMode::Edge(h.edge->0))
    } else if h.inside {
        Some(ObjectDragMode::MoveWhole)
    } else {
        None
    }
}

/// The topmost effect-line run under the press, among the first `n` layers.
pub open spec fn top_gen(layers: Seq<Layer>, hits: Seq<LayerHit>, n: int) -> Option<ObjectGrab>
    decreases n,
{
    if n <= 0 {
        None
    } else if layers[n - 1].genlines && layers[n - 1].look.visible && hits[n - 1].gen_handle is Some {
        Some(ObjectGrab::GenHandle((n - 1) as usize, hits[n - 1].gen_handle->0))
    } else if layers[n - 1].genlines && layers[n - 1].look.visible && hits[n - 1].ink {
        Some(ObjectGrab::GenInk((n - 1) as usize))
    } else {
        top_gen(layers, hits, n - 1)
    }
}

/// The topmost of the first `m` balloons of layer `li` that the press takes.
pub open spec fn top_balloon_in(hits: Seq<BalloonHit>, li: usize, sel: Option<(usize, usize)>, m: int) -> Option<ObjectGrab>
    decreases m,
{
    if m <= 0 {
        None
    } else {
        match balloon_part(hits[m - 1], sel == Some((li, (m - 1) as usize))) {
            Some(mode) => Some(ObjectGrab::Balloon(li, (m - 1) as usize, mode)),
            None => top_balloon_in(hits, li, sel, m - 1),
        }
    }
}

/// The topmost of the first `m` panels of layer `li` that the press takes.
pub open spec fn top_frame_in(hits: Seq<FrameHit>, li: usize, sel: Option<(usize, usize)>, m: int) -> Option<ObjectGrab>
    decreases m,
{
    if m <= 0 {
        None
    } else {
        match frame_part(hits[m - 1], sel == Some((li, (m - 1) as usize))) {
            Some(mode) => Some(ObjectGrab::Frame(li, (m - 1) as usize, mode)),
            None => top_frame_in(hits, li, sel, m - 1),
        }
    }
}

/// What the press takes of one layer's shapes.
pub open spec fn shape_in(l: Layer, h: LayerHit, li: usize, p: Picked) -> Option<ObjectGrab> {
    if !l.look.visible {
        None
    } else {
        match l.kind {
            LayerKind::Balloon(_) => top_balloon_in(h.balloons@, li, p.balloon, h.balloons@.len() as int),
            LayerKind::Frame(_) => top_frame_in(h.frames@, li, p.frame, h.frames@.len() as int),
            _ => None,
        }
    }
}

/// The topmost shape under the press, among the first `n` layers.
pub open spec fn top_shape(layers: Seq<Layer>, hits: Seq<LayerHit>, p: Picked, n: int) -> Option<ObjectGrab>
    decreases n,
{
    if n <= 0 {
        None
    } else {
        match shape_in(layers[n - 1], hits[n - 1], (n - 1) as usize, p) {
            Some(g) => Some(g),
            None => top_shape(layers, hits, p, n - 1),
        }
    }
}

/// The topmost live tone under the press, among the first `n` layers.
pub open spec fn top_tone(layers: Seq<Layer>, hits: Seq<LayerHit>, n: int) -> Option<int>
    decreases n,
{
    if n <= 0 {
        None
    } else if layers[n - 1].look.visible && layers[n - 1].kind is FillTone && hits[n - 1].shown_ink {
        Some(n - 1)
    } else {
        top_tone(layers, hits, n - 1)
    }
}

/// May the ink of this layer be taken up? Shapes, effect lines, recorded
/// strokes and live fills are made from something else.
pub open spec fn liftable(l: Layer) -> bool {
    &&& l.look.visible
    &&& !l.lock
    &&& !l.folder
    &&& !l.is_vector_spec()
    &&& !l.strokes
    &&& !l.genlines
    &&& !(l.kind is FillFlat || l.kind is FillGradient || l.kind is FillTone)
}

/// The topmost ink under the press, among the first `n` layers.
pub open spec fn top_ink(layers: Seq<Layer>, hits: Seq<LayerHit>, n: int) -> Option<int>
    decreases n,
{
    if n <= 0 {
        None
    } else if liftable(layers[n - 1]) && hits[n - 1].ink {
        Some(n - 1)
    } else {
        top_ink(layers, hits, n - 1)
    }
}

/// The most populated tiles, of 64 by 64 pixels, that a drag carries.
pub const GRAB_MAX_TILES: u64 = 4096;

/// Is this more ink than a drag should carry?
pub open spec fn oversize(tiles: Option<(u32, u32)>) -> bool {
    match tiles {
        Some(t) => (t.0 / 64) * (t.1 / 64) > GRAB_MAX_TILES,
        None => true,
    }
}

/// The part of a box that is on the page.
pub open spec fn on_page(b: PxBox, size: Size) -> PxBox {
    PxBox {
        l: if b.l > 0 { b.l } else { 0 },
        t: if b.t > 0 { b.t } else { 0 },
        r: if b.r < size.w as i32 { b.r } else { size.w as i32 },
        b: if b.b < size.h as i32 { b.b } else { size.h as i32 },
    }
}

/// What a press on ink comes to.
pub open spec fn ink_grab(layers: Seq<Layer>, hits: Seq<LayerHit>, size: Size) -> ObjectGrab {
    match top_ink(layers, hits, layers.len() as int) {
        None => ObjectGrab::Nothing,
        Some(li) => if oversize(hits[li].tiles) {
            ObjectGrab::Oversize(li as usize)
        } else {
            match hits[li].ink_box {
                None => ObjectGrab::Bare(li as usize),
                Some(b) => {
                    let r = on_page(b, size);
                    if r.l < r.r && r.t < r.b {
                        ObjectGrab::Lift(li as usize, r)
                    } else {
                        ObjectGrab::Bare(li as usize)
                    }
                },
            }
        },
    }
}

/// What a press takes hold of once no balloon and no arrow has taken it: a
/// panel, then a tone's lattice, then ink.
pub open spec fn grab_behind(app: App, hits: Seq<LayerHit>) -> ObjectGrab {
    let layers = app.doc.layers@;
    let n = layers.len() as int;
    match top_shape(layers, hits, app.picked, n) {
        Some(g) => g,
        None => match top_tone(layers, hits, n) {
            Some(li) => ObjectGrab::Lattice(li as usize),
            None => ink_grab(layers, hits, app.doc.size),
        },
    }
}

/// What a press takes hold of, where no arrow is under it: effect lines come
/// first, then the shapes, topmost layer first.
pub open spec fn object_grab(app: App, hits: Seq<LayerHit>) -> ObjectGrab {
    match top_gen(app.doc.layers@, hits, app.doc.layers@.len() as int) {
        Some(g) => g,
        None => grab_behind(app, hits),
    }
}

/// The selection with an effect-line run in it and nothing else.
pub open spec fn gen_picked(p: Picked, li: usize) -> Picked {
    Picked { gen: Some(li), gen_edit: false, text: None, frame: None, balloon: None, ..p }
}

/// What a grab makes of the state.
pub open spec fn grabbed(app: App, after: App, g: ObjectGrab, at: Pt) -> bool {
    match g {
        ObjectGrab::GenHandle(li, mode) => after == (App {
            doc: app.doc.activated(li),
            picked: (Picked { at: Some(at), ..gen_picked(app.picked, li) }),
            object: (ObjectHand { gen: Some(GenLinesDrag { layer: li, mode, start: at, cur: at }), ..app.object }),
            ..app
        }),
        ObjectGrab::GenInk(li) => {
            &&& after == (App {
                doc: app.doc.activated(li),
                picked: (Picked { at: Some(at), ..gen_picked(app.picked, li) }),
                shell: after.shell,
                ..app
            })
            &&& after.shell.says(app.shell, "effect lines selected — drag the blue handles"@)
        },
        ObjectGrab::Balloon(layer, balloon, mode) => after == (App {
            picked: (Picked { balloon: Some((layer, balloon)), at: Some(at), frame: None, gen: None, ..app.picked }),
            object: (ObjectHand {
                balloon: Some(BalloonObjDrag { layer, balloon, mode, start: at, cur: at, shift_snap: false }),
                ..app.object
            }),
            ..app
        }),
        ObjectGrab::Frame(layer, frame, mode) => after == (App {
            picked: (Picked { frame: Some((layer, frame)), at: Some(at), balloon: None, gen: None, ..app.picked }),
            object: (ObjectHand {
                frame: Some(ObjectDrag { layer, frame, mode, start: at, cur: at, shift_snap: false }),
                ..app.object
            }),
            ..app
        }),
        ObjectGrab::Lattice(li) => {
            &&& after == (App {
                doc: (Document { active: li, ..app.doc }),
                picked: (Picked { at: Some(at), ..app.picked }),
                object: (ObjectHand { lattice: Some(FillLatticeDrag { layer: li, start: at, cur: at }), ..app.object }),
                shell: after.shell,
                ..app
            })
            &&& after.shell.says(app.shell, "tone lattice grabbed — drag moves the dots under the art"@)
        },
        ObjectGrab::Oversize(li) => {
            &&& after == (App {
                doc: app.doc.activated(li),
                picked: (Picked { frame: None, balloon: None, gen: None, ..app.picked }),
                shell: after.shell,
                ..app
            })
            &&& after.shell.says(
                app.shell,
                "layer selected — too much ink to grab directly; Ctrl+T transforms it"@,
            )
        },
        ObjectGrab::Lift(li, _) | ObjectGrab::Bare(li) => after == (App {
            doc: app.doc.activated(li),
            picked: (Picked { frame: None, balloon: None, gen: None, ..app.picked }),
            ..app
        }),
        ObjectGrab::Nothing => after == (App {
            picked: (Picked { frame: None, balloon: None, gen: None, ..app.picked }),
            ..app
        }),
    }
}

/// What is still to be done behind a grab.
pub open spec fn act_of(g: ObjectGrab) -> ObjectAct {
    match g {
        ObjectGrab::Lift(li, r) => ObjectAct::Lift(li, r),
        _ => ObjectAct::Done,
    }
}

fn part_of_balloon(h: &BalloonHit, selected: bool) -> (r: Option<BalloonDragMode>)
    ensures
        r == balloon_part(*h, selected),
{
    if let Some(x) = h.handle {
        return Some(BalloonDragMode::Handle(x));
    }
    if selected {
        if h.lolly {
            return Some(BalloonDragMode::BoxRotate);
        }
        if let Some(i) = h.corner {
            return Some(BalloonDragMode::BoxCorner(i));
        }
        if let Some(i) = h.mid {
            return Some(BalloonDragMode::BoxEdge(i));
        }
    }
    if h.inside {
        Some(BalloonDragMode::MoveWhole)
    } else {
        None
    }
}

fn part_of_frame(h: &FrameHit, selected: bool) -> (r: Option<ObjectDragMode>)
    ensures
        r == frame_part(*h, selected),
{
    if let Some(v) = h.vertex {
        return Some(ObjectDragMode::Vertex(v));
    }
    if selected {
        if h.lolly {
            return Some(ObjectDragMode::Rotate);
        }
        if let Some(i) = h.corner {
            return Some(ObjectDragMode::ScaleCorner(i));
        }
        if let Some(i) = h.mid {
            return Some(ObjectDragMode::ScaleEdge(i));
        }
    }
    if let Some(e) = h.edge {
        return Some(ObjectDragMode::Edge(e));
    }
    if h.inside {
        Some(ObjectDragMode::MoveWhole)
    } else {
        None
    }
}

fn is_sel(sel: Option<(usize, usize)>, li: usize, i: usize) -> (r: bool)
    ensures
        r == (sel == Some((li, i))),
{
    match sel {
        Some(s) => s.0 == li && s.1 == i,
        None => false,
    }
}

fn find_balloon(hits: &Vec<BalloonHit>, li: usize, sel: Option<(usize, usize)>) -> (r: Option<ObjectGrab>)
    ensures
        r == top_balloon_in(hits@, li, sel, hits@.len() as int),
{
    let mut m: usize = hits.len();
    while m > 0
        invariant
            m <= hits@.len(),
            top_balloon_in(hits@, li, sel, hits@.len() as int) == top_balloon_in(hits@, li, sel, m as int),
        decreases m,
    {
        if let Some(mode) = part_of_balloon(&hits[m - 1], is_sel(sel, li, m - 1)) {
            return Some(ObjectGrab::Balloon(li, m - 1, mode));
        }
        m = m - 1;
    }
    None
}

fn find_frame(hits: &Vec<FrameHit>, li: usize, sel: Option<(usize, usize)>) -> (r: Option<ObjectGrab>)
    ensures
        r == top_frame_in(hits@, li, sel, hits@.len() as int),
{
    let mut m: usize = hits.len();
    while m > 0
        invariant
            m <= hits@.len(),
            top_frame_in(hits@, li, sel, hits@.len() as int) == top_frame_in(hits@, li, sel, m as int),
        decreases m,
    {
        if let Some(mode) = part_of_frame(&hits[m - 1], is_sel(sel, li, m - 1)) {
            return Some(ObjectGrab::Frame(li, m - 1, mode));
        }
        m = m - 1;
    }
    None
}

fn find_gen(layers: &Vec<Layer>, hits: &Vec<LayerHit>) -> (r: Option<ObjectGrab>)
    requires
        hits@.len() == layers@.len(),
    ensures
        r == top_gen(layers@, hits@, layers@.len() as int),
{
    let mut n: usize = layers.len();
    while n > 0
        invariant
            n <= layers@.len() == hits@.len(),
            top_gen(layers@, hits@, layers@.len() as int) == top_gen(layers@, hits@, n as int),
        decreases n,
    {
        if layers[n - 1].genlines && layers[n - 1].look.visible {
            if let Some(mode) = hits[n - 1].gen_handle {
                return Some(ObjectGrab::GenHandle(n - 1, mode));
            }
            if hits[n - 1].ink {
                return Some(ObjectGrab::GenInk(n - 1));
            }
        }
        n = n - 1;
    }
    None
}

fn find_shape(layers: &Vec<Layer>, hits: &Vec<LayerHit>, p: &Picked) -> (r: Option<ObjectGrab>)
    requires
        hits@.len() == layers@.len(),
    ensures
        r == top_shape(layers@, hits@, *p, layers@.len() as int),
{
    let mut n: usize = layers.len();
    while n > 0
        invariant
            n <= layers@.len() == hits@.len(),
            top_shape(layers@, hits@, *p, layers@.len() as int) == top_shape(layers@, hits@, *p, n as int),
        decreases n,
    {
        let l = &layers[n - 1];
        if l.look.visible {
            let g = match l.kind {
                LayerKind::Balloon(_) => find_balloon(&hits[n - 1].balloons, n - 1, p.balloon),
                LayerKind::Frame(_) => find_frame(&hits[n - 1].frames, n - 1, p.frame),
                _ => None,
            };
            if g.is_some() {
                return g;
            }
        }
        n = n - 1;
    }
    None
}

fn find_tone(layers: &Vec<Layer>, hits: &Vec<LayerHit>) -> (r: Option<usize>)
    requires
        hits@.len() == layers@.len(),
    ensures
        match r {
            Some(i) => top_tone(layers@, hits@, layers@.len() as int) == Some(i as int) && i < layers@.len(),
            None => top_tone(layers@, hits@, layers@.len() as int) is None,
        },
{
    let mut n: usize = layers.len();
    while n > 0
        invariant
            n <= layers@.len() == hits@.len(),
            top_tone(layers@, hits@, layers@.len() as int) == top_tone(layers@, hits@, n as int),
        decreases n,
    {
        if layers[n - 1].look.visible && matches!(layers[n - 1].kind, LayerKind::FillTone) && hits[n - 1].shown_ink {
            return Some(n - 1);
        }
        n = n - 1;
    }
    None
}

fn is_liftable(l: &Layer) -> (r: bool)
    ensures
        r == liftable(*l),
{
    l.look.visible && !l.lock && !l.folder && !l.is_vector() && !l.strokes && !l.genlines && !matches!(
        l.kind,
        LayerKind::FillFlat | LayerKind::FillGradient | LayerKind::FillTone
    )
}

fn find_ink(layers: &Vec<Layer>, hits: &Vec<LayerHit>) -> (r: Option<usize>)
    requires
        hits@.len() == layers@.len(),
    ensures
        match r {
            Some(i) => top_ink(layers@, hits@, layers@.len() as int) == Some(i as int) && i < layers@.len(),
            None => top_ink(layers@, hits@, layers@.len() as int) is None,
        },
{
    let mut n: usize = layers.len();
    while n > 0
        invariant
            n <= layers@.len() == hits@.len(),
            top_ink(layers@, hits@, layers@.len() as int) == top_ink(layers@, hits@, n as int),
        decreases n,
    {
        if is_liftable(&layers[n - 1]) && hits[n - 1].ink {
            return Some(n - 1);
        }
        n = n - 1;
    }
    None
}

fn is_oversize(tiles: Option<(u32, u32)>) -> (r: bool)
    ensures
        r == oversize(tiles),
{
    match tiles {
        None => true,
        Some(t) => {
            let a: u64 = (t.0 / 64) as u64;
            let b: u64 = (t.1 / 64) as u64;
            proof {
                assert(a * b <= 67108863 * 67108863) by (nonlinear_arith)
                    requires
                        a <= 67108863,
                        b <= 67108863,
                ;
            }
            a * b > GRAB_MAX_TILES
        },
    }
}

fn clip(b: PxBox, size: Size) -> (r: PxBox)
    ensures
        r == on_page(b, size),
{
    let w: i32 = size.w as i32;
    let h: i32 = size.h as i32;
    PxBox {
        l: if b.l > 0 { b.l } else { 0 },
        t: if b.t > 0 { b.t } else { 0 },
        r: if b.r < w { b.r } else { w },
        b: if b.b < h { b.b } else { h },
    }
}

impl App {
    fn plan_ink(&self, hits: &Vec<LayerHit>) -> (r: ObjectGrab)
        requires
            hits@.len() == self.doc.layers@.len(),
        ensures
            r == ink_grab(self.doc.layers@, hits@, self.doc.size),
    {
        let li: usize = match find_ink(&self.doc.layers, hits) {
            None => return ObjectGrab::Nothing,
            Some(li) => li,
        };
        if is_oversize(hits[li].tiles) {
            return ObjectGrab::Oversize(li);
        }
        match hits[li].ink_box {
            None => ObjectGrab::Bare(li),
            Some(b) => {
                let r = clip(b, self.doc.size);
                if r.l < r.r && r.t < r.b {
                    ObjectGrab::Lift(li, r)
                } else {
                    ObjectGrab::Bare(li)
                }
            },
        }
    }

    fn plan_behind(&self, hits: &Vec<LayerHit>) -> (r: ObjectGrab)
        requires
            hits@.len() == self.doc.layers@.len(),
        ensures
            r == grab_behind(*self, hits@),
            r matches ObjectGrab::Lattice(li) ==> li < self.doc.layers@.len(),
    {
        if let Some(g) = find_shape(&self.doc.layers, hits, &self.picked) {
            proof {
                lemma_shape_kind(self.doc.layers@, hits@, self.picked, self.doc.layers@.len() as int);
            }
            return g;
        }
        match find_tone(&self.doc.layers, hits) {
            Some(li) => ObjectGrab::Lattice(li),
            None => self.plan_ink(hits),
        }
    }

    /// Selects the effect-line run on layer `li` and makes that layer the
    /// active one: what is selected on the page is the layer in hand.
    pub fn gen_select(&mut self, li: usize)
        ensures
            *final(self) == (App {
                doc: old(self).doc.activated(li),
                picked: gen_picked(old(self).picked, li),
                ..*old(self)
            }),
            old(self).wf() ==> final(self).wf(),
    {
        self.picked.gen = Some(li);
        self.picked.gen_edit = false;
        self.picked.text = None;
        self.picked.frame = None;
        self.picked.balloon = None;
        self.doc.set_active(li);
    }

    fn take(&mut self, g: ObjectGrab, at: Pt)
        requires
            g matches ObjectGrab::Lattice(li) ==> li < old(self).doc.layers@.len(),
        ensures
            grabbed(*old(self), *final(self), g, at),
    {
        match g {
            ObjectGrab::GenHandle(li, mode) => {
                self.gen_select(li);
                self.object.gen = Some(GenLinesDrag { layer: li, mode, start: at, cur: at });
                self.picked.at = Some(at);
            },
            ObjectGrab::GenInk(li) => {
                self.gen_select(li);
                self.picked.at = Some(at);
                self.set_status("effect lines selected — drag the blue handles");
            },
            ObjectGrab::Balloon(layer, balloon, mode) => {
                self.picked.balloon = Some((layer, balloon));
                self.picked.at = Some(at);
                self.object.balloon = Some(
                    BalloonObjDrag { layer, balloon, mode, start: at, cur: at, shift_snap: false },
                );
                self.picked.frame = None;
                self.picked.gen = None;
            },
            ObjectGrab::Frame(layer, frame, mode) => {
                self.picked.frame = Some((layer, frame));
                self.picked.at = Some(at);
                self.object.frame = Some(ObjectDrag { layer, frame, mode, start: at, cur: at, shift_snap: false });
                self.picked.balloon = None;
                self.picked.gen = None;
            },
            ObjectGrab::Lattice(li) => {
                self.doc.active = li;
                self.picked.at = Some(at);
                self.object.lattice = Some(FillLatticeDrag { layer: li, start: at, cur: at });
                self.set_status("tone lattice grabbed — drag moves the dots under the art");
            },
            ObjectGrab::Oversize(li) => {
                self.picked.frame = None;
                self.picked.balloon = None;
                self.picked.gen = None;
                self.doc.set_active(li);
                self.set_status("layer selected — too much ink to grab directly; Ctrl+T transforms it");
            },
            ObjectGrab::Lift(li, _) | ObjectGrab::Bare(li) => {
                self.picked.frame = None;
                self.picked.balloon = None;
                self.picked.gen = None;
                self.doc.set_active(li);
            },
            ObjectGrab::Nothing => {
                self.picked.frame = None;
                self.picked.balloon = None;
                self.picked.gen = None;
            },
        }
    }

    /// A press of the Object tool: what it takes hold of, topmost first.
    /// `arrow` is the expand arrow under the press, which comes behind the
    /// balloons and before the panels.
    pub fn object_hit(&mut self, at: Pt, hits: &Vec<LayerHit>, arrow: Option<usize>) -> (r: ObjectAct)
        requires
            hits_fit(old(self).doc.layers@, hits@),
        ensures
            object_answered(*old(self), *final(self), r, at, hits@, arrow),
            old(self).doc.wf() ==> final(self).doc.wf(),
            old(self).wf() ==> final(self).wf(),
    {
        if let Some(g) = find_gen(&self.doc.layers, hits) {
            proof {
                lemma_gen_kind(self.doc.layers@, hits@, self.doc.layers@.len() as int);
            }
            self.take(g, at);
            return ObjectAct::Done;
        }
        let g = self.plan_behind(hits);
        if let Some(dir) = arrow {
            if !matches!(g, ObjectGrab::Balloon(_, _, _)) {
                proof {
                    lemma_not_gen(*self, hits@);
                }
                return ObjectAct::TryExpand(dir);
            }
        }
        self.take(g, at);
        match g {
            ObjectGrab::Lift(li, b) => ObjectAct::Lift(li, b),
            _ => ObjectAct::Done,
        }
    }

    /// The press goes on behind an expand arrow that did nothing.
    pub fn object_hit_behind(&mut self, at: Pt, hits: &Vec<LayerHit>) -> (r: ObjectAct)
        requires
            hits_fit(old(self).doc.layers@, hits@),
        ensures
            r == act_of(grab_behind(*old(self), hits@)),
            grabbed(*old(self), *final(self), grab_behind(*old(self), hits@), at),
            old(self).doc.wf() ==> final(self).doc.wf(),
            old(self).wf() ==> final(self).wf(),
    {
        let g = self.plan_behind(hits);
        self.take(g, at);
        match g {
            ObjectGrab::Lift(li, b) => ObjectAct::Lift(li, b),
            _ => ObjectAct::Done,
        }
    }

    /// An expand arrow took the press.
    pub fn object_expanded(&mut self, at: Pt)
        ensures
            *final(self) == (App { picked: (Picked { at: Some(at), ..old(self).picked }), ..*old(self) }),
    {
        self.picked.at = Some(at);
    }

    /// What lifting the ink under a press makes of the state.
    pub open spec fn lifted(self, after: App, at: Pt) -> bool {
        &&& match self.hold.transform_drag {
            None => after == self,
            Some(d) => {
                &&& after == (App {
                    hold: (Hold {
                        transform_drag: Some(TransformDrag {
                            gesture: Some(TransformGesture { grab: TransformGrab::Move, start: at }),
                            object_lift: true,
                            ..d
                        }),
                        ..self.hold
                    }),
                    shell: after.shell,
                    ..self
                })
                &&& after.shell.says(
                    self.shell,
                    "layer lifted — drag to move, Enter commits, Esc cancels"@,
                )
            },
        }
    }

    /// The Transform float is open over the ink that was taken up: the press
    /// that opened it is the drag, and its release commits.
    pub fn object_lifted(&mut self, at: Pt)
        ensures
            old(self).lifted(*final(self), at),
    {
        if let Some(d) = self.hold.transform_drag.take() {
            self.hold.transform_drag = Some(
                TransformDrag {
                    gesture: Some(TransformGesture { grab: TransformGrab::Move, start: at }),
                    mesh: d.mesh,
                    object_lift: true,
                },
            );
            self.set_status("layer lifted — drag to move, Enter commits, Esc cancels");
        }
    }
}

proof fn lemma_gen_kind(layers: Seq<Layer>, hits: Seq<LayerHit>, n: int)
    ensures
        top_gen(layers, hits, n) matches Some(g) ==> g is GenHandle || g is GenInk,
    decreases n,
{
    if n > 0 {
        lemma_gen_kind(layers, hits, n - 1);
    }
}

proof fn lemma_balloon_kind(hits: Seq<BalloonHit>, li: usize, sel: Option<(usize, usize)>, m: int)
    ensures
        top_balloon_in(hits, li, sel, m) matches Some(g) ==> g is Balloon,
    decreases m,
{
    if m > 0 {
        lemma_balloon_kind(hits, li, sel, m - 1);
    }
}

proof fn lemma_frame_kind(hits: Seq<FrameHit>, li: usize, sel: Option<(usize, usize)>, m: int)
    ensures
        top_frame_in(hits, li, sel, m) matches Some(g) ==> g is Frame,
    decreases m,
{
    if m > 0 {
        lemma_frame_kind(hits, li, sel, m - 1);
    }
}

proof fn lemma_shape_kind(layers: Seq<Layer>, hits: Seq<LayerHit>, p: Picked, n: int)
    ensures
        top_shape(layers, hits, p, n) matches Some(g) ==> g is Balloon || g is Frame,
    decreases n,
{
    if n > 0 {
        lemma_shape_kind(layers, hits, p, n - 1);
        let h = hits[n - 1];
        lemma_balloon_kind(h.balloons@, (n - 1) as usize, p.balloon, h.balloons@.len() as int);
        lemma_frame_kind(h.frames@, (n - 1) as usize, p.frame, h.frames@.len() as int);
    }
}

proof fn lemma_not_gen(app: App, hits: Seq<LayerHit>)
    ensures
        !(grab_behind(app, hits) is GenHandle || grab_behind(app, hits) is GenInk),
{
    lemma_shape_kind(app.doc.layers@, hits, app.picked, app.doc.layers@.len() as int);
}

/// What a press of the Object tool makes of the state, and what is still to be
/// done: an expand arrow comes behind effect lines and balloons, and in front of
/// everything else.
pub open spec fn object_answered(app: App, after: App, r: ObjectAct, at: Pt, hits: Seq<LayerHit>, arrow: Option<usize>) -> bool {
    let g = object_grab(app, hits);
    if arrow is Some && !(g is GenHandle || g is GenInk || g is Balloon) {
        r == ObjectAct::TryExpand(arrow->0) && after == app
    } else {
        r == act_of(g) && grabbed(app, after, g, at)
    }
}

/// The first `m` text boxes of layer `li` that hold the point, topmost first.
pub open spec fn texts_at(inside: Seq<bool>, li: usize, m: int) -> Seq<ObjRef>
    decreases m,
{
    if m <= 0 {
        seq![]
    } else if inside[m - 1] {
        seq![ObjRef::Text(li, (m - 1) as usize)] + texts_at(inside, li, m - 1)
    } else {
        texts_at(inside, li, m - 1)
    }
}

/// The first `m` balloons of layer `li` that hold the point, topmost first.
pub open spec fn balloons_at(hits: Seq<BalloonHit>, li: usize, m: int) -> Seq<ObjRef>
    decreases m,
{
    if m <= 0 {
        seq![]
    } else if hits[m - 1].inside {
        seq![ObjRef::Balloon(li, (m - 1) as usize)] + balloons_at(hits, li, m - 1)
    } else {
        balloons_at(hits, li, m - 1)
    }
}

/// The first `m` panels of layer `li` that hold the point, topmost first.
pub open spec fn frames_at(hits: Seq<FrameHit>, li: usize, m: int) -> Seq<ObjRef>
    decreases m,
{
    if m <= 0 {
        seq![]
    } else if hits[m - 1].inside {
        seq![ObjRef::Frame(li, (m - 1) as usize)] + frames_at(hits, li, m - 1)
    } else {
        frames_at(hits, li, m - 1)
    }
}

/// The families of objects, in the order in which a press asks for them.
#[derive(Clone, Copy, PartialEq, Eq, Structural, Debug)]
pub enum Family {
    Texts,
    Gens,
    Balloons,
    Frames,
}

/// The objects of one family on one layer that hold the point.
pub open spec fn on_layer(f: Family, l: Layer, h: LayerHit, li: usize) -> Seq<ObjRef> {
    if !l.look.visible {
        seq![]
    } else {
        match f {
            Family::Texts => if l.kind is Text { texts_at(h.texts@, li, h.texts@.len() as int) } else { seq![] },
            Family::Gens => if l.genlines && h.ink { seq![ObjRef::Gen(li)] } else { seq![] },
            Family::Balloons => if l.kind is Balloon {
                balloons_at(h.balloons@, li, h.balloons@.len() as int)
            } else {
                seq![]
            },
            Family::Frames => if l.kind is Frame {
                frames_at(h.frames@, li, h.frames@.len() as int)
            } else {
                seq![]
            },
        }
    }
}

/// The objects of one family on the first `n` layers that hold the point,
/// topmost first.
pub open spec fn of_family(f: Family, layers: Seq<Layer>, hits: Seq<LayerHit>, n: int) -> Seq<ObjRef>
    decreases n,
{
    if n <= 0 {
        seq![]
    } else {
        on_layer(f, layers[n - 1], hits[n - 1], (n - 1) as usize) + of_family(f, layers, hits, n - 1)
    }
}

/// Every object that holds the point: texts, effect lines, balloons, panels,
/// topmost first within each family.
pub open spec fn candidates(layers: Seq<Layer>, hits: Seq<LayerHit>) -> Seq<ObjRef> {
    let n = layers.len() as int;
    of_family(Family::Texts, layers, hits, n) + of_family(Family::Gens, layers, hits, n)
        + of_family(Family::Balloons, layers, hits, n) + of_family(Family::Frames, layers, hits, n)
}

/// The selection as one object.
pub open spec fn selection(p: Picked) -> Option<ObjRef> {
    if p.text is Some {
        Some(ObjRef::Text((p.text->0).0, (p.text->0).1))
    } else if p.gen is Some {
        Some(ObjRef::Gen(p.gen->0))
    } else if p.balloon is Some {
        Some(ObjRef::Balloon((p.balloon->0).0, (p.balloon->0).1))
    } else if p.frame is Some {
        Some(ObjRef::Frame((p.frame->0).0, (p.frame->0).1))
    } else {
        None
    }
}

/// The selection with nothing in it.
pub open spec fn cleared(p: Picked, multi: Vec<ObjRef>) -> Picked {
    Picked { text: None, gen: None, balloon: None, frame: None, multi, at: None, ..p }
}

/// The state with one object selected.
pub open spec fn selected(app: App, r: ObjRef) -> App {
    let none = Picked { text: None, gen: None, balloon: None, frame: None, ..app.picked };
    match r {
        ObjRef::Text(li, i) => App { picked: (Picked { text: Some((li, i)), ..none }), ..app },
        ObjRef::Gen(li) => App { picked: gen_picked(none, li), doc: app.doc.activated(li), ..app },
        ObjRef::Balloon(li, i) => App { picked: (Picked { balloon: Some((li, i)), ..none }), ..app },
        ObjRef::Frame(li, i) => App { picked: (Picked { frame: Some((li, i)), ..none }), ..app },
    }
}

/// What is selected is what the selection says.
pub proof fn law_selecting_selects(app: App, r: ObjRef)
    ensures
        selection(selected(app, r).picked) == Some(r),
{
}

fn push_texts(out: &mut Vec<ObjRef>, inside: &Vec<bool>, li: usize)
    ensures
        final(out)@ == old(out)@ + texts_at(inside@, li, inside@.len() as int),
{
    let mut m: usize = inside.len();
    while m > 0
        invariant
            m <= inside@.len(),
            out@ + texts_at(inside@, li, m as int) == old(out)@ + texts_at(inside@, li, inside@.len() as int),
        decreases m,
    {
        let ghost before = out@;
        if inside[m - 1] {
            out.push(ObjRef::Text(li, m - 1));
            proof {
                assert(out@ + texts_at(inside@, li, m - 1) =~= before + texts_at(inside@, li, m as int));
            }
        }
        m = m - 1;
    }
    proof {
        assert(out@ + texts_at(inside@, li, 0) =~= out@);
    }
}

fn push_balloons(out: &mut Vec<ObjRef>, hits: &Vec<BalloonHit>, li: usize)
    ensures
        final(out)@ == old(out)@ + balloons_at(hits@, li, hits@.len() as int),
{
    let mut m: usize = hits.len();
    while m > 0
        invariant
            m <= hits@.len(),
            out@ + balloons_at(hits@, li, m as int) == old(out)@ + balloons_at(hits@, li, hits@.len() as int),
        decreases m,
    {
        let ghost before = out@;
        if hits[m - 1].inside {
            out.push(ObjRef::Balloon(li, m - 1));
            proof {
                assert(out@ + balloons_at(hits@, li, m - 1) =~= before + balloons_at(hits@, li, m as int));
            }
        }
        m = m - 1;
    }
    proof {
        assert(out@ + balloons_at(hits@, li, 0) =~= out@);
    }
}

fn push_frames(out: &mut Vec<ObjRef>, hits: &Vec<FrameHit>, li: usize)
    ensures
        final(out)@ == old(out)@ + frames_at(hits@, li, hits@.len() as int),
{
    let mut m: usize = hits.len();
    while m > 0
        invariant
            m <= hits@.len(),
            out@ + frames_at(hits@, li, m as int) == old(out)@ + frames_at(hits@, li, hits@.len() as int),
        decreases m,
    {
        let ghost before = out@;
        if hits[m - 1].inside {
            out.push(ObjRef::Frame(li, m - 1));
            proof {
                assert(out@ + frames_at(hits@, li, m - 1) =~= before + frames_at(hits@, li, m as int));
            }
        }
        m = m - 1;
    }
    proof {
        assert(out@ + frames_at(hits@, li, 0) =~= out@);
    }
}

fn push_layer(out: &mut Vec<ObjRef>, f: Family, l: &Layer, h: &LayerHit, li: usize)
    ensures
        final(out)@ == old(out)@ + on_layer(f, *l, *h, li),
{
    let ghost before = out@;
    if l.look.visible {
        match f {
            Family::Texts => if l.is_text() {
                push_texts(out, &h.texts, li);
            },
            Family::Gens => if l.genlines && h.ink {
                out.push(ObjRef::Gen(li));
            },
            Family::Balloons => if l.is_balloon() {
                push_balloons(out, &h.balloons, li);
            },
            Family::Frames => if l.is_frame() {
                push_frames(out, &h.frames, li);
            },
        }
    }
    proof {
        assert(out@ =~= before + on_layer(f, *l, *h, li));
    }
}

fn push_family(out: &mut Vec<ObjRef>, f: Family, layers: &Vec<Layer>, hits: &Vec<LayerHit>)
    requires
        hits@.len() == layers@.len(),
    ensures
        final(out)@ == old(out)@ + of_family(f, layers@, hits@, layers@.len() as int),
{
    let mut n: usize = layers.len();
    while n > 0
        invariant
            n <= layers@.len() == hits@.len(),
            out@ + of_family(f, layers@, hits@, n as int) == old(out)@ + of_family(f, layers@, hits@, layers@.len() as int),
        decreases n,
    {
        let ghost before = out@;
        push_layer(out, f, &layers[n - 1], &hits[n - 1], n - 1);
        proof {
            assert(out@ + of_family(f, layers@, hits@, n - 1) =~= before + of_family(f, layers@, hits@, n as int));
        }
        n = n - 1;
    }
    proof {
        assert(out@ + of_family(f, layers@, hits@, 0) =~= out@);
    }
}

/// Is this object in the list?
fn has_ref(v: &Vec<ObjRef>, r: ObjRef) -> (b: bool)
    ensures
        b == v@.contains(r),
{
    let mut i: usize = 0;
    while i < v.len()
        invariant
            i <= v@.len(),
            forall|j: int| 0 <= j < i ==> v@[j] != r,
        decreases v@.len() - i,
    {
        if v[i] == r {
            return true;
        }
        i = i + 1;
    }
    false
}

/// Every object but this one.
pub open spec fn other(r: ObjRef) -> spec_fn(ObjRef) -> bool {
    |x: ObjRef| x != r
}

/// The list without this object.
fn without_ref(v: &Vec<ObjRef>, r: ObjRef) -> (out: Vec<ObjRef>)
    ensures
        out@ == v@.filter(other(r)),
{
    let mut out: Vec<ObjRef> = Vec::new();
    let mut i: usize = 0;
    proof {
        reveal(Seq::filter);
        assert(v@.take(0).filter(other(r)) =~= out@);
    }
    while i < v.len()
        invariant
            i <= v@.len(),
            out@ == v@.take(i as int).filter(other(r)),
        decreases v@.len() - i,
    {
        let x: ObjRef = v[i];
        proof {
            reveal(Seq::filter);
            let t = v@.take(i + 1);
            assert(t.drop_last() =~= v@.take(i as int));
            assert(t.last() == x);
        }
        if x != r {
            out.push(x);
        }
        i = i + 1;
    }
    proof {
        assert(v@.take(i as int) =~= v@);
    }
    out
}

/// Where the walk through a stack of `n` leads from `i`.
pub open spec fn cycled(i: int, n: int, forward: bool) -> int {
    if forward {
        (i + 1) % n
    } else {
        (i + n - 1) % n
    }
}

/// The place of an object in the stack, or the top.
pub open spec fn place_of(c: Seq<ObjRef>, r: ObjRef, from: int) -> int
    decreases c.len() - from,
{
    if from < 0 || from >= c.len() {
        0
    } else if c[from] == r {
        from
    } else {
        place_of(c, r, from + 1)
    }
}

/// A step forth and a step back lead to the object where the walk began, and
/// no step leaves the stack.
pub proof fn law_cycle_there_and_back(i: int, n: int)
    requires
        0 <= i < n,
    ensures
        0 <= cycled(i, n, true) < n,
        0 <= cycled(i, n, false) < n,
        cycled(cycled(i, n, true), n, false) == i,
        cycled(cycled(i, n, false), n, true) == i,
        n > 1 ==> cycled(i, n, true) != i,
{
    vstd::arithmetic::div_mod::lemma_small_mod(i as nat, n as nat);
    if i + 1 < n {
        vstd::arithmetic::div_mod::lemma_small_mod((i + 1) as nat, n as nat);
        vstd::arithmetic::div_mod::lemma_mod_add_multiples_vanish(i, n);
    } else {
        vstd::arithmetic::div_mod::lemma_mod_self_0(n);
        vstd::arithmetic::div_mod::lemma_small_mod((n - 1) as nat, n as nat);
    }
    if i > 0 {
        vstd::arithmetic::div_mod::lemma_small_mod((i - 1) as nat, n as nat);
        vstd::arithmetic::div_mod::lemma_mod_add_multiples_vanish(i - 1, n);
    } else {
        vstd::arithmetic::div_mod::lemma_small_mod((n - 1) as nat, n as nat);
        vstd::arithmetic::div_mod::lemma_mod_self_0(n);
    }
}

/// Where a walk through the stack looks.
#[derive(Clone, Copy, PartialEq, Eq, Structural, Debug)]
pub enum CycleAnchor {
    /// Nothing is selected.
    Idle,
    /// At the point of the last press.
    At(Pt),
    /// At the middle of this object.
    Centre(ObjRef),
    Nowhere,
}

/// Does this object exist?
pub open spec fn exists_ref(layers: Seq<Layer>, r: ObjRef) -> bool {
    match r {
        ObjRef::Text(li, i) => li < layers.len() && (layers[li as int].kind matches LayerKind::Text(n) && i < n),
        ObjRef::Gen(li) => li < layers.len() && layers[li as int].genlines,
        ObjRef::Balloon(li, i) => li < layers.len() && (layers[li as int].kind matches LayerKind::Balloon(n) && i < n),
        ObjRef::Frame(li, i) => li < layers.len() && (layers[li as int].kind matches LayerKind::Frame(fs) && i < fs.frames),
    }
}

/// Where a walk through the stack looks. An effect-line run has no middle.
pub open spec fn anchor_of(app: App) -> CycleAnchor {
    match selection(app.picked) {
        None => CycleAnchor::Idle,
        Some(r) => match app.picked.at {
            Some(p) => CycleAnchor::At(p),
            None => if r is Gen || !exists_ref(app.doc.layers@, r) { CycleAnchor::Nowhere } else { CycleAnchor::Centre(r) },
        },
    }
}

/// What a walk says.
pub open spec fn cycle_text(from: ObjRef, to: ObjRef, j: nat, n: nat) -> Seq<char> {
    from.label_spec() + " → "@ + to.label_spec() + text::counted(" ("@, j + 1, " of "@) + text::dec(n) + " here)"@
}

impl App {
    /// Every object that holds the point, in the order in which a press asks
    /// for them.
    pub fn object_candidates_at(&self, hits: &Vec<LayerHit>) -> (r: Vec<ObjRef>)
        requires
            hits_fit(self.doc.layers@, hits@),
        ensures
            r@ == candidates(self.doc.layers@, hits@),
    {
        let mut out: Vec<ObjRef> = Vec::new();
        push_family(&mut out, Family::Texts, &self.doc.layers, hits);
        push_family(&mut out, Family::Gens, &self.doc.layers, hits);
        push_family(&mut out, Family::Balloons, &self.doc.layers, hits);
        push_family(&mut out, Family::Frames, &self.doc.layers, hits);
        proof {
            assert(out@ =~= candidates(self.doc.layers@, hits@));
        }
        out
    }

    /// The selection as one object.
    pub fn object_selection(&self) -> (r: Option<ObjRef>)
        ensures
            r == selection(self.picked),
    {
        if let Some(s) = self.picked.text {
            return Some(ObjRef::Text(s.0, s.1));
        }
        if let Some(li) = self.picked.gen {
            return Some(ObjRef::Gen(li));
        }
        if let Some(s) = self.picked.balloon {
            return Some(ObjRef::Balloon(s.0, s.1));
        }
        if let Some(s) = self.picked.frame {
            return Some(ObjRef::Frame(s.0, s.1));
        }
        None
    }

    /// Deselects every object; the layers stay as they are.
    pub fn clear_object_selection(&mut self)
        ensures
            *final(self) == (App { picked: cleared(old(self).picked, final(self).picked.multi), ..*old(self) }),
            final(self).picked.multi@ == Seq::<ObjRef>::empty(),
    {
        self.picked.text = None;
        self.picked.gen = None;
        self.picked.balloon = None;
        self.picked.frame = None;
        self.picked.multi = Vec::new();
        self.picked.at = None;
    }

    /// Selects one object.
    pub fn object_select_ref(&mut self, r: ObjRef)
        ensures
            *final(self) == selected(*old(self), r),
    {
        self.picked.text = None;
        self.picked.gen = None;
        self.picked.balloon = None;
        self.picked.frame = None;
        match r {
            ObjRef::Text(li, i) => {
                self.picked.text = Some((li, i));
            },
            ObjRef::Gen(li) => {
                self.gen_select(li);
            },
            ObjRef::Balloon(li, i) => {
                self.picked.balloon = Some((li, i));
            },
            ObjRef::Frame(li, i) => {
                self.picked.frame = Some((li, i));
            },
        }
    }

    /// Where a walk through the stack looks.
    pub fn cycle_anchor(&self) -> (r: CycleAnchor)
        ensures
            r == anchor_of(*self),
    {
        let r = match self.object_selection() {
            None => return CycleAnchor::Idle,
            Some(r) => r,
        };
        if let Some(p) = self.picked.at {
            return CycleAnchor::At(p);
        }
        let there = match r {
            ObjRef::Text(li, i) => li < self.doc.layers.len() && (match self.doc.layers[li].kind {
                LayerKind::Text(n) => i < n,
                _ => false,
            }),
            ObjRef::Gen(_) => false,
            ObjRef::Balloon(li, i) => li < self.doc.layers.len() && (match self.doc.layers[li].kind {
                LayerKind::Balloon(n) => i < n,
                _ => false,
            }),
            ObjRef::Frame(li, i) => li < self.doc.layers.len() && (match &self.doc.layers[li].kind {
                LayerKind::Frame(fs) => i < fs.frames,
                _ => false,
            }),
        };
        if there {
            CycleAnchor::Centre(r)
        } else {
            CycleAnchor::Nowhere
        }
    }

    /// Walks the selection one step through the objects that are stacked where
    /// [`App::cycle_anchor`] looks; `hits` are measured there, or missing where
    /// that is nowhere. Nothing but the selection changes.
    pub fn object_cycle(&mut self, forward: bool, hits: Option<Vec<LayerHit>>)
        requires
            hits matches Some(h) ==> hits_fit(old(self).doc.layers@, h@),
        ensures
            old(self).stepped(*final(self), forward, (match hits { Some(h) => Some(h@), None => None })),
            old(self).wf() ==> final(self).wf(),
    {
        let cur = match self.object_selection() {
            None => return,
            Some(r) => r,
        };
        let h = match hits {
            None => {
                self.set_status("nothing stacked here to cycle to");
                return;
            },
            Some(h) => h,
        };
        let c = self.object_candidates_at(&h);
        let n: usize = c.len();
        if n < 2 {
            return;
        }
        let i: usize = place(&c, cur);
        let j: usize = if i + 1 < n {
            if forward { i + 1 } else if i > 0 { i - 1 } else { n - 1 }
        } else if forward {
            0
        } else {
            i - 1
        };
        proof {
            lemma_cycled(i as int, n as int);
        }
        let to = c[j];
        self.object_select_ref(to);
        let mut s = text::own(cur.label());
        s.append(" → ");
        s.append(to.label());
        let count = text::count_line(" (", j + 1, " of ");
        s.append(count.as_str());
        text::push_dec(&mut s, n as u64);
        s.append(" here)");
        self.shell.status = s;
        self.shell.needs_redraw = true;
    }
}

/// The family of an object, its layer, and its number there.
pub open spec fn rank_of(r: ObjRef) -> (int, int, int) {
    match r {
        ObjRef::Text(li, i) => (0, li as int, i as int),
        ObjRef::Gen(li) => (1, li as int, 0),
        ObjRef::Balloon(li, i) => (2, li as int, i as int),
        ObjRef::Frame(li, i) => (3, li as int, i as int),
    }
}

/// Does the first object come before the second in the stack? Family by family,
/// and in each the higher layer and the later object first.
pub open spec fn comes_before(a: ObjRef, b: ObjRef) -> bool {
    let (x, y) = (rank_of(a), rank_of(b));
    x.0 < y.0 || (x.0 == y.0 && (x.1 > y.1 || (x.1 == y.1 && x.2 > y.2)))
}

/// Do the objects stand in the order of the stack?
pub open spec fn stacked(c: Seq<ObjRef>) -> bool {
    forall|i: int, j: int| 0 <= i < j < c.len() ==> comes_before(#[trigger] c[i], #[trigger] c[j])
}

/// Are all objects of this family, on layers below `n`?
spec fn all_below(c: Seq<ObjRef>, family: int, n: int) -> bool {
    forall|i: int| 0 <= i < c.len() ==> rank_of(#[trigger] c[i]).0 == family && rank_of(c[i]).1 < n
}

/// Are all objects of this family, on this layer, with numbers below `m`?
spec fn all_on(c: Seq<ObjRef>, family: int, li: int, m: int) -> bool {
    forall|i: int|
        0 <= i < c.len() ==> rank_of(#[trigger] c[i]).0 == family && rank_of(c[i]).1 == li && 0 <= rank_of(c[i]).2 < m
}

/// Two stacks, one above the other, are one.
proof fn lemma_stacked(a: Seq<ObjRef>, b: Seq<ObjRef>)
    requires
        stacked(a),
        stacked(b),
        forall|i: int, j: int| 0 <= i < a.len() && 0 <= j < b.len() ==> comes_before(#[trigger] a[i], #[trigger] b[j]),
    ensures
        stacked(a + b),
{
    let c = a + b;
    assert forall|i: int, j: int| 0 <= i < j < c.len() implies comes_before(#[trigger] c[i], #[trigger] c[j]) by {
        if j < a.len() {
            assert(c[i] == a[i] && c[j] == a[j]);
        } else if i >= a.len() {
            assert(c[i] == b[i - a.len()] && c[j] == b[j - a.len()]);
        } else {
            assert(c[i] == a[i] && c[j] == b[j - a.len()]);
        }
    }
}

proof fn lemma_texts_at(inside: Seq<bool>, li: usize, m: int)
    requires
        0 <= m <= usize::MAX,
    ensures
        stacked(texts_at(inside, li, m)),
        all_on(texts_at(inside, li, m), 0, li as int, m),
    decreases m,
{
    if m > 0 {
        lemma_texts_at(inside, li, m - 1);
        if inside[m - 1] {
            lemma_stacked(seq![ObjRef::Text(li, (m - 1) as usize)], texts_at(inside, li, m - 1));
        }
    }
}

proof fn lemma_balloons_at(hits: Seq<BalloonHit>, li: usize, m: int)
    requires
        0 <= m <= usize::MAX,
    ensures
        stacked(balloons_at(hits, li, m)),
        all_on(balloons_at(hits, li, m), 2, li as int, m),
    decreases m,
{
    if m > 0 {
        lemma_balloons_at(hits, li, m - 1);
        if hits[m - 1].inside {
            lemma_stacked(seq![ObjRef::Balloon(li, (m - 1) as usize)], balloons_at(hits, li, m - 1));
        }
    }
}

proof fn lemma_frames_at(hits: Seq<FrameHit>, li: usize, m: int)
    requires
        0 <= m <= usize::MAX,
    ensures
        stacked(frames_at(hits, li, m)),
        all_on(frames_at(hits, li, m), 3, li as int, m),
    decreases m,
{
    if m > 0 {
        lemma_frames_at(hits, li, m - 1);
        if hits[m - 1].inside {
            lemma_stacked(seq![ObjRef::Frame(li, (m - 1) as usize)], frames_at(hits, li, m - 1));
        }
    }
}

spec fn number_of(f: Family) -> int {
    match f {
        Family::Texts => 0,
        Family::Gens => 1,
        Family::Balloons => 2,
        Family::Frames => 3,
    }
}

proof fn lemma_of_family(f: Family, layers: Seq<Layer>, hits: Seq<LayerHit>, n: int)
    requires
        0 <= n <= usize::MAX,
    ensures
        stacked(of_family(f, layers, hits, n)),
        all_below(of_family(f, layers, hits, n), number_of(f), n),
    decreases n,
{
    if n > 0 {
        lemma_of_family(f, layers, hits, n - 1);
        let li = (n - 1) as usize;
        let h = hits[n - 1];
        let here = on_layer(f, layers[n - 1], h, li);
        lemma_texts_at(h.texts@, li, h.texts.len() as int);
        lemma_balloons_at(h.balloons@, li, h.balloons.len() as int);
        lemma_frames_at(h.frames@, li, h.frames.len() as int);
        assert(stacked(here));
        assert forall|i: int| 0 <= i < here.len() implies rank_of(#[trigger] here[i]).0 == number_of(f) && rank_of(here[i]).1 == n - 1 by {
        }
        lemma_stacked(here, of_family(f, layers, hits, n - 1));
    }
}

/// The stack under a point stands in the order in which a press asks for its
/// objects, family by family and topmost first, and holds no object twice.
pub proof fn law_the_stack_is_in_order(layers: Seq<Layer>, hits: Seq<LayerHit>)
    requires
        layers.len() <= usize::MAX,
    ensures
        stacked(candidates(layers, hits)),
        candidates(layers, hits).no_duplicates(),
{
    let n = layers.len() as int;
    let t = of_family(Family::Texts, layers, hits, n);
    let g = of_family(Family::Gens, layers, hits, n);
    let b = of_family(Family::Balloons, layers, hits, n);
    let f = of_family(Family::Frames, layers, hits, n);
    lemma_of_family(Family::Texts, layers, hits, n);
    lemma_of_family(Family::Gens, layers, hits, n);
    lemma_of_family(Family::Balloons, layers, hits, n);
    lemma_of_family(Family::Frames, layers, hits, n);
    lemma_stacked(t, g);
    assert(all_upto(t + g, 1));
    lemma_stacked(t + g, b);
    assert(all_upto(t + g + b, 2));
    lemma_stacked(t + g + b, f);
    let c = candidates(layers, hits);
    assert forall|i: int, j: int| 0 <= i < c.len() && 0 <= j < c.len() && i != j implies c[i] != c[j] by {
        if i < j {
            assert(comes_before(c[i], c[j]));
        } else {
            assert(comes_before(c[j], c[i]));
        }
    }
}

/// Is every object of one of the families up to this one?
spec fn all_upto(c: Seq<ObjRef>, family: int) -> bool {
    forall|i: int| 0 <= i < c.len() ==> rank_of(#[trigger] c[i]).0 <= family
}

/// The object that a step through the stack leads to.
pub open spec fn next_in(c: Seq<ObjRef>, cur: ObjRef, forward: bool) -> ObjRef {
    c[cycled(place_of(c, cur, 0), c.len() as int, forward)]
}

/// The object that a number of steps through the stack lead to.
pub open spec fn walked(c: Seq<ObjRef>, cur: ObjRef, forward: bool, steps: nat) -> ObjRef
    decreases steps,
{
    if steps == 0 {
        cur
    } else {
        next_in(c, walked(c, cur, forward, (steps - 1) as nat), forward)
    }
}

proof fn lemma_place_of(c: Seq<ObjRef>, i: int, from: int)
    requires
        c.no_duplicates(),
        0 <= from <= i < c.len(),
    ensures
        place_of(c, c[i], from) == i,
    decreases i - from,
{
    if from < i {
        assert(c[from] != c[i]);
        lemma_place_of(c, i, from + 1);
    }
}

proof fn lemma_walked(c: Seq<ObjRef>, i: int, forward: bool, k: nat)
    requires
        c.no_duplicates(),
        c.len() >= 2,
        0 <= i < c.len(),
        k <= c.len(),
    ensures
        walked(c, c[i], forward, k) == c[if forward {
            if i + k < c.len() { i + k } else { i + k - c.len() }
        } else {
            if i >= k { i - k } else { i - k + c.len() }
        }],
    decreases k,
{
    let n = c.len() as int;
    if k > 0 {
        let m = (k - 1) as nat;
        lemma_walked(c, i, forward, m);
        let at = if forward {
            if i + m < n { i + m } else { i + m - n }
        } else {
            if i >= m { i - m } else { i - m + n }
        };
        lemma_place_of(c, at, 0);
        lemma_cycled(at, n);
    }
}

/// As many steps one way as the stack has objects lead back to the object where
/// the walk began, and so do a step forth and a step back.
pub proof fn law_a_full_round_leads_back(layers: Seq<Layer>, hits: Seq<LayerHit>, cur: ObjRef, forward: bool)
    requires
        layers.len() <= usize::MAX,
        candidates(layers, hits).len() >= 2,
        candidates(layers, hits).contains(cur),
    ensures
        ({
            let c = candidates(layers, hits);
            &&& walked(c, cur, forward, c.len()) == cur
            &&& next_in(c, next_in(c, cur, forward), !forward) == cur
            &&& next_in(c, cur, forward) != cur
        }),
{
    let c = candidates(layers, hits);
    law_the_stack_is_in_order(layers, hits);
    let i = choose|i: int| 0 <= i < c.len() && c[i] == cur;
    lemma_walked(c, i, forward, c.len());
    lemma_place_of(c, i, 0);
    lemma_cycled(i, c.len() as int);
    let j = cycled(i, c.len() as int, forward);
    lemma_place_of(c, j, 0);
    lemma_cycled(j, c.len() as int);
}

proof fn lemma_cycled(i: int, n: int)
    requires
        0 <= i < n,
        n >= 2,
    ensures
        cycled(i, n, true) == (if i + 1 < n { i + 1 } else { 0 }),
        cycled(i, n, false) == (if i > 0 { i - 1 } else { n - 1 }),
{
    if i + 1 < n {
        vstd::arithmetic::div_mod::lemma_small_mod((i + 1) as nat, n as nat);
    } else {
        vstd::arithmetic::div_mod::lemma_mod_self_0(n);
    }
    if i > 0 {
        vstd::arithmetic::div_mod::lemma_small_mod((i - 1) as nat, n as nat);
        vstd::arithmetic::div_mod::lemma_mod_add_multiples_vanish(i - 1, n);
    } else {
        vstd::arithmetic::div_mod::lemma_small_mod((n - 1) as nat, n as nat);
    }
}

/// The place of an object in the stack, or the top.
fn place(c: &Vec<ObjRef>, r: ObjRef) -> (i: usize)
    requires
        c@.len() > 0,
    ensures
        i == place_of(c@, r, 0),
        i < c@.len(),
{
    let mut k: usize = 0;
    while k < c.len()
        invariant
            k <= c@.len(),
            place_of(c@, r, 0) == place_of(c@, r, k as int),
        decreases c@.len() - k,
    {
        if c[k] == r {
            return k;
        }
        k = k + 1;
    }
    0
}

/// What a plain press selects, of a grab.
pub open spec fn ref_of(g: ObjectGrab) -> Option<ObjRef> {
    match g {
        ObjectGrab::GenHandle(li, _) | ObjectGrab::GenInk(li) => Some(ObjRef::Gen(li)),
        ObjectGrab::Balloon(li, i, _) => Some(ObjRef::Balloon(li, i)),
        ObjectGrab::Frame(li, i, _) => Some(ObjRef::Frame(li, i)),
        _ => None,
    }
}

/// No handle, edge or box is within reach: a press is on bodies alone.
pub open spec fn bodies_alone(layers: Seq<Layer>, hits: Seq<LayerHit>) -> bool {
    forall|i: int|
        0 <= i < layers.len() ==> {
            let h = #[trigger] hits[i];
            &&& h.gen_handle is None
            &&& forall|k: int| 0 <= k < h.balloons@.len() ==> {
                let b = #[trigger] h.balloons@[k];
                b.handle is None && !b.lolly && b.corner is None && b.mid is None
            }
            &&& forall|k: int| 0 <= k < h.frames@.len() ==> {
                let f = #[trigger] h.frames@[k];
                f.vertex is None && !f.lolly && f.corner is None && f.mid is None && f.edge is None
            }
        }
}

/// No panel that holds the point stands above a balloon that does.
pub open spec fn balloons_above_panels(layers: Seq<Layer>, hits: Seq<LayerHit>) -> bool {
    forall|i: int, j: int|
        0 <= i < j < layers.len() && (#[trigger] on_layer(Family::Balloons, layers[i], hits[i], i as usize)).len() > 0
            ==> (#[trigger] on_layer(Family::Frames, layers[j], hits[j], j as usize)).len() == 0
}

/// The walk through the stack and a press agree: a press on bodies selects
/// the first object of the stack behind the texts, provided that no panel
/// stands above a balloon there.
pub proof fn law_press_takes_the_first_of_the_stack(app: App, hits: Seq<LayerHit>)
    requires
        hits_fit(app.doc.layers@, hits),
        app.doc.layers@.len() <= usize::MAX,
        bodies_alone(app.doc.layers@, hits),
        balloons_above_panels(app.doc.layers@, hits),
        of_family(Family::Texts, app.doc.layers@, hits, app.doc.layers@.len() as int).len() == 0,
    ensures
        candidates(app.doc.layers@, hits).len() > 0 ==> ref_of(object_grab(app, hits)) == Some(
            candidates(app.doc.layers@, hits)[0],
        ),
{
    let layers = app.doc.layers@;
    let n = layers.len() as int;
    let gens = of_family(Family::Gens, layers, hits, n);
    let balls = of_family(Family::Balloons, layers, hits, n);
    let pans = of_family(Family::Frames, layers, hits, n);
    lemma_first_gen(layers, hits, n);
    lemma_first_shape(layers, hits, app.picked, n);
    let c = candidates(layers, hits);
    assert(c =~= gens + balls + pans);
    if gens.len() > 0 {
        assert(c[0] == gens[0]);
    } else if balls.len() > 0 {
        assert(c[0] == balls[0]);
    } else if pans.len() > 0 {
        assert(c[0] == pans[0]);
    }
}

proof fn lemma_first_gen(layers: Seq<Layer>, hits: Seq<LayerHit>, n: int)
    requires
        0 <= n <= layers.len(),
        hits.len() == layers.len(),
        bodies_alone(layers, hits),
    ensures
        ({
            let s = of_family(Family::Gens, layers, hits, n);
            match top_gen(layers, hits, n) {
                Some(g) => s.len() > 0 && ref_of(g) == Some(s[0]),
                None => s.len() == 0,
            }
        }),
    decreases n,
{
    if n > 0 {
        lemma_first_gen(layers, hits, n - 1);
        let here = on_layer(Family::Gens, layers[n - 1], hits[n - 1], (n - 1) as usize);
        assert(hits[n - 1].gen_handle is None);
        if here.len() > 0 {
            assert(of_family(Family::Gens, layers, hits, n)[0] == here[0]);
        } else {
            assert(of_family(Family::Gens, layers, hits, n) =~= of_family(Family::Gens, layers, hits, n - 1));
        }
    }
}

proof fn lemma_first_balloon(hits: Seq<BalloonHit>, li: usize, sel: Option<(usize, usize)>, m: int)
    requires
        0 <= m <= hits.len(),
        forall|k: int| 0 <= k < hits.len() ==> {
            let b = #[trigger] hits[k];
            b.handle is None && !b.lolly && b.corner is None && b.mid is None
        },
    ensures
        ({
            let s = balloons_at(hits, li, m);
            match top_balloon_in(hits, li, sel, m) {
                Some(g) => s.len() > 0 && ref_of(g) == Some(s[0]),
                None => s.len() == 0,
            }
        }),
    decreases m,
{
    if m > 0 {
        lemma_first_balloon(hits, li, sel, m - 1);
        if hits[m - 1].inside {
            assert(balloons_at(hits, li, m)[0] == ObjRef::Balloon(li, (m - 1) as usize));
        }
    }
}

proof fn lemma_first_frame(hits: Seq<FrameHit>, li: usize, sel: Option<(usize, usize)>, m: int)
    requires
        0 <= m <= hits.len(),
        forall|k: int| 0 <= k < hits.len() ==> {
            let f = #[trigger] hits[k];
            f.vertex is None && !f.lolly && f.corner is None && f.mid is None && f.edge is None
        },
    ensures
        ({
            let s = frames_at(hits, li, m);
            match top_frame_in(hits, li, sel, m) {
                Some(g) => s.len() > 0 && ref_of(g) == Some(s[0]),
                None => s.len() == 0,
            }
        }),
    decreases m,
{
    if m > 0 {
        lemma_first_frame(hits, li, sel, m - 1);
        if hits[m - 1].inside {
            assert(frames_at(hits, li, m)[0] == ObjRef::Frame(li, (m - 1) as usize));
        }
    }
}

proof fn lemma_first_shape(layers: Seq<Layer>, hits: Seq<LayerHit>, p: Picked, n: int)
    requires
        0 <= n <= layers.len(),
        hits.len() == layers.len(),
        bodies_alone(layers, hits),
        balloons_above_panels(layers, hits),
    ensures
        ({
            let b = of_family(Family::Balloons, layers, hits, n);
            let f = of_family(Family::Frames, layers, hits, n);
            match top_shape(layers, hits, p, n) {
                Some(g) => {
                    &&& b.len() > 0 ==> ref_of(g) == Some(b[0])
                    &&& b.len() == 0 ==> f.len() > 0 && ref_of(g) == Some(f[0])
                },
                None => b.len() == 0 && f.len() == 0,
            }
        }),
    decreases n,
{
    if n > 0 {
        lemma_first_shape(layers, hits, p, n - 1);
        let li = (n - 1) as usize;
        let h = hits[n - 1];
        let l = layers[n - 1];
        lemma_first_balloon(h.balloons@, li, p.balloon, h.balloons@.len() as int);
        lemma_first_frame(h.frames@, li, p.frame, h.frames@.len() as int);
        let hb = on_layer(Family::Balloons, l, h, li);
        let hf = on_layer(Family::Frames, l, h, li);
        let b = of_family(Family::Balloons, layers, hits, n);
        let f = of_family(Family::Frames, layers, hits, n);
        let b0 = of_family(Family::Balloons, layers, hits, n - 1);
        let f0 = of_family(Family::Frames, layers, hits, n - 1);
        if hb.len() > 0 {
            assert(b[0] == hb[0]);
        } else {
            assert(b =~= b0);
            if hf.len() > 0 {
                assert(f[0] == hf[0]);
                lemma_none_below(layers, hits, n - 1, n - 1);
            } else {
                assert(f =~= f0);
            }
        }
    }
}

/// Under a panel that holds the point, no balloon does.
proof fn lemma_none_below(layers: Seq<Layer>, hits: Seq<LayerHit>, top: int, n: int)
    requires
        0 <= n <= top < layers.len(),
        balloons_above_panels(layers, hits),
        on_layer(Family::Frames, layers[top], hits[top], top as usize).len() > 0,
    ensures
        of_family(Family::Balloons, layers, hits, n).len() == 0,
    decreases n,
{
    if n > 0 {
        lemma_none_below(layers, hits, top, n - 1);
        assert(on_layer(Family::Balloons, layers[n - 1], hits[n - 1], (n - 1) as usize).len() == 0);
    }
}

/// What a press makes of the set of selected objects.
pub ghost struct SetPress {
    pub multi: Seq<ObjRef>,
    /// The selection is dropped altogether.
    pub clear: bool,
    /// The press is used up.
    pub stop: bool,
    pub says: Option<Seq<char>>,
}

/// What a press on the topmost object `top` makes of the set: `sel` is the
/// object that is selected.
pub open spec fn set_press(multi: Seq<ObjRef>, sel: Option<ObjRef>, how: SelectCombine, top: Option<ObjRef>) -> SetPress {
    let keep = SetPress { multi, clear: false, stop: false, says: None };
    match (how, top) {
        (SelectCombine::New, _) => SetPress { multi: seq![], ..keep },
        (_, None) => keep,
        (SelectCombine::Remove, Some(t)) => if multi.contains(t) {
            SetPress {
                multi: multi.filter(other(t)),
                clear: sel == Some(t),
                stop: true,
                says: Some("removed from the selection"@),
            }
        } else if sel == Some(t) {
            SetPress { clear: true, stop: true, says: Some("deselected"@), ..keep }
        } else {
            SetPress { stop: true, ..keep }
        },
        (SelectCombine::Toggle, Some(t)) => if multi.contains(t) || sel == Some(t) {
            SetPress {
                multi: multi.filter(other(t)),
                clear: sel == Some(t),
                stop: true,
                says: Some("toggled off"@),
            }
        } else {
            SetPress { multi: multi.push(t), ..keep }
        },
        (SelectCombine::Add, Some(t)) => if multi.contains(t) || sel == Some(t) {
            keep
        } else {
            SetPress { multi: multi.push(t), ..keep }
        },
    }
}

/// The topmost object of a stack.
pub open spec fn top_of(c: Seq<ObjRef>) -> Option<ObjRef> {
    if c.len() > 0 {
        Some(c[0])
    } else {
        None
    }
}

/// Is the whole set taken hold of? A press on a member of a set of more than
/// one does that.
pub open spec fn takes_group(multi: Seq<ObjRef>, top: Option<ObjRef>) -> bool {
    top is Some && multi.len() > 1 && multi.contains(top->0)
}

impl App {
    /// How a press meets the set: Shift adds, whatever the tool says.
    pub open spec fn combine_of(self, shift: bool) -> SelectCombine {
        if shift {
            SelectCombine::Add
        } else {
            self.tools.object_combine
        }
    }

    /// What a press makes of the set of selected objects and of the state.
    pub open spec fn set_pressed(self, after: App, r: bool, at: Pt, shift: bool, c: Seq<ObjRef>) -> bool {
        let e = set_press(self.picked.multi@, selection(self.picked), self.combine_of(shift), top_of(c));
        let multi = after.picked.multi;
        if e.stop {
            &&& r
            &&& after == (App {
                picked: if e.clear { cleared(self.picked, multi) } else { Picked { multi, ..self.picked } },
                shell: (Shell { status: after.shell.status, needs_redraw: true, ..self.shell }),
                ..self
            })
            &&& multi@ == (if e.clear { Seq::<ObjRef>::empty() } else { e.multi })
            &&& after.shell.status@ == (match e.says {
                Some(s) => s,
                None => self.shell.status@,
            })
        } else if takes_group(e.multi, top_of(c)) {
            &&& r
            &&& after == (App {
                object: (ObjectHand { group: Some(GroupObjDrag { start: at, cur: at }), ..self.object }),
                shell: (Shell { needs_redraw: true, ..self.shell }),
                ..selected((App { picked: (Picked { multi, ..self.picked }), ..self }), c[0])
            })
            &&& multi@ == e.multi
        } else {
            &&& !r
            &&& after == (App { picked: (Picked { multi, ..self.picked }), ..self })
            &&& multi@ == e.multi
        }
    }

    /// The press of the Object tool meets the set of selected objects; true
    /// when it is used up. A press on a member takes hold of the whole set.
    pub fn object_press_set(&mut self, at: Pt, shift: bool, hits: &Vec<LayerHit>) -> (r: bool)
        requires
            hits_fit(old(self).doc.layers@, hits@),
        ensures
            old(self).set_pressed(*final(self), r, at, shift, candidates(old(self).doc.layers@, hits@)),
            old(self).doc.wf() ==> final(self).doc.wf(),
            old(self).wf() ==> final(self).wf(),
    {
        let how = if shift { SelectCombine::Add } else { self.tools.object_combine };
        let c = self.object_candidates_at(hits);
        if how == SelectCombine::New {
            self.picked.multi = Vec::new();
            proof {
                assert(self.picked.multi@ =~= seq![]);
            }
            return false;
        }
        if c.len() == 0 {
            return false;
        }
        let top = c[0];
        if self.combine_press(how, top) {
            return true;
        }
        if self.picked.multi.len() > 1 && has_ref(&self.picked.multi, top) {
            self.object_select_ref(top);
            self.object.group = Some(GroupObjDrag { start: at, cur: at });
            self.shell.needs_redraw = true;
            return true;
        }
        false
    }

    /// The set's own part of the press.
    fn combine_press(&mut self, how: SelectCombine, top: ObjRef) -> (r: bool)
        requires
            !(how is New),
        ensures
            ({
                let e = set_press(old(self).picked.multi@, selection(old(self).picked), how, Some(top));
                let multi = final(self).picked.multi;
                &&& r == e.stop
                &&& e.stop ==> {
                    &&& *final(self) == (App {
                        picked: if e.clear {
                            cleared(old(self).picked, multi)
                        } else {
                            Picked { multi, ..old(self).picked }
                        },
                        shell: (Shell { status: final(self).shell.status, needs_redraw: true, ..old(self).shell }),
                        ..*old(self)
                    })
                    &&& multi@ == (if e.clear { Seq::<ObjRef>::empty() } else { e.multi })
                    &&& final(self).shell.status@ == (match e.says {
                        Some(s) => s,
                        None => old(self).shell.status@,
                    })
                }
                &&& !e.stop ==> {
                    &&& *final(self) == (App { picked: (Picked { multi, ..old(self).picked }), ..*old(self) })
                    &&& multi@ == e.multi
                }
            }),
    {
        let in_multi = has_ref(&self.picked.multi, top);
        let is_primary = match self.object_selection() {
            Some(s) => s == top,
            None => false,
        };
        match how {
            SelectCombine::Remove => {
                if in_multi {
                    self.picked.multi = without_ref(&self.picked.multi, top);
                    self.set_status("removed from the selection");
                    if is_primary {
                        self.clear_object_selection();
                    }
                } else if is_primary {
                    self.clear_object_selection();
                    self.set_status("deselected");
                }
                self.shell.needs_redraw = true;
                true
            },
            SelectCombine::Toggle => {
                if in_multi || is_primary {
                    self.picked.multi = without_ref(&self.picked.multi, top);
                    if is_primary {
                        self.clear_object_selection();
                    }
                    self.set_status("toggled off");
                    self.shell.needs_redraw = true;
                    true
                } else {
                    self.picked.multi.push(top);
                    false
                }
            },
            _ => {
                if !in_multi && !is_primary {
                    self.picked.multi.push(top);
                }
                false
            },
        }
    }

    /// Is an object held?
    pub open spec fn object_held(self) -> bool {
        self.object.text || self.object.frame is Some || self.object.balloon is Some || self.object.gen is Some
    }

    /// Ends a temporary grab out of a drawing tool: `before` is the selection
    /// from before the press was tried. Where it took hold of something, the
    /// grab lasts until the release; else the selection is put back, and the
    /// press draws.
    pub fn temp_object_try(&mut self, before: PickedCopy) -> (r: bool)
        ensures
            old(self).borrowed(*final(self), r, before),
    {
        let armed = self.object.text || self.object.frame.is_some() || self.object.balloon.is_some()
            || self.object.gen.is_some();
        if armed {
            self.hold.temp_object = true;
            self.set_status("object grab — release to keep drawing");
        } else {
            self.picked.frame = before.frame;
            self.picked.balloon = before.balloon;
            self.picked.gen = before.gen;
            self.picked.text = before.text;
            self.picked.at = before.at;
        }
        armed
    }

    /// The selection, to be put back later.
    pub fn copy_picked(&self) -> (r: PickedCopy)
        ensures
            r.frame == self.picked.frame,
            r.balloon == self.picked.balloon,
            r.gen == self.picked.gen,
            r.text == self.picked.text,
            r.at == self.picked.at,
    {
        PickedCopy {
            frame: self.picked.frame,
            balloon: self.picked.balloon,
            gen: self.picked.gen,
            text: self.picked.text,
            at: self.picked.at,
        }
    }
}

/// The selection without its set.
#[derive(Clone, Copy, Debug)]
pub struct PickedCopy {
    pub frame: Option<(usize, usize)>,
    pub balloon: Option<(usize, usize)>,
    pub gen: Option<usize>,
    pub text: Option<(usize, usize)>,
    pub at: Option<Pt>,
}

/// Taking an object out of the set takes it out for good, and leaves the
/// others; adding one that is in the set already changes nothing.
pub proof fn law_set_presses(multi: Seq<ObjRef>, sel: Option<ObjRef>, t: ObjRef)
    ensures
        !set_press(multi, sel, SelectCombine::Remove, Some(t)).multi.contains(t),
        !set_press(multi, sel, SelectCombine::Toggle, Some(t)).multi.contains(t) || !multi.contains(t),
        multi.contains(t) ==> set_press(multi, sel, SelectCombine::Add, Some(t)).multi == multi,
        forall|x: ObjRef|
            x != t && #[trigger] multi.contains(x) ==> {
                &&& set_press(multi, sel, SelectCombine::Remove, Some(t)).multi.contains(x)
                &&& set_press(multi, sel, SelectCombine::Toggle, Some(t)).multi.contains(x)
                &&& set_press(multi, sel, SelectCombine::Add, Some(t)).multi.contains(x)
            },
{
    lemma_filter_other(multi, t);
    assert forall|x: ObjRef| x != t && #[trigger] multi.contains(x) implies {
        &&& set_press(multi, sel, SelectCombine::Remove, Some(t)).multi.contains(x)
        &&& set_press(multi, sel, SelectCombine::Toggle, Some(t)).multi.contains(x)
        &&& set_press(multi, sel, SelectCombine::Add, Some(t)).multi.contains(x)
    } by {
        let k = choose|k: int| 0 <= k < multi.len() && multi[k] == x;
        assert(multi.push(t)[k] == x);
    }
}

proof fn lemma_filter_other(multi: Seq<ObjRef>, t: ObjRef)
    ensures
        !multi.filter(other(t)).contains(t),
        forall|x: ObjRef| x != t && #[trigger] multi.contains(x) ==> multi.filter(other(t)).contains(x),
    decreases multi.len(),
{
    reveal(Seq::filter);
    if multi.len() > 0 {
        let init = multi.drop_last();
        lemma_filter_other(init, t);
        let f0 = init.filter(other(t));
        let f = multi.filter(other(t));
        assert forall|x: ObjRef| x != t && #[trigger] multi.contains(x) implies f.contains(x) by {
            if x == multi.last() {
                assert(f[f.len() - 1] == x);
            } else {
                let k = choose|k: int| 0 <= k < multi.len() && multi[k] == x;
                assert(init[k] == x);
                assert(init.contains(x));
                let j = choose|j: int| 0 <= j < f0.len() && f0[j] == x;
                assert(f[j] == x);
            }
        }
    }
}

/// What is still to be done about a press of the Object tool.
#[derive(Clone, Copy, PartialEq, Eq, Structural, Debug)]
pub enum ObjectDown {
    Done,
    /// Try the strokes of the layer in hand; if none is taken, the press goes
    /// on.
    TryVector,
    /// The press goes on to the set of objects.
    Next,
}

impl App {
    /// The first steps of an Object-tool press: an edit of the selected
    /// balloon's anchors, then a ruler, then the strokes of a layer that
    /// records them.
    pub fn object_down(
        &mut self,
        at: Pt,
        m: Mods,
        f: AnchorFacts,
        ruler: Option<(usize, RulerGrab)>,
        hint: Option<String>,
    ) -> (r: ObjectDown)
        requires
            old(self).doc.wf(),
        ensures
            old(self).object_began(*final(self), r, at, m, f, ruler, (match hint { Some(s) => Some(s@), None => None })),
            old(self).wf() ==> final(self).wf(),
    {
        if self.balloon_anchor_edit(m.ctrl, m.alt, f) {
            return ObjectDown::Done;
        }
        if self.ruler_grab(ruler, at, hint) {
            return ObjectDown::Done;
        }
        if self.doc.layers[self.doc.active].strokes {
            ObjectDown::TryVector
        } else {
            ObjectDown::Next
        }
    }
}

/// Nothing of the panel is under the press. The lollipop, the corners and the
/// middles are there only while the panel is selected.
pub open spec fn panel_missed(h: FrameHit, selected: bool) -> bool {
    &&& h.vertex is None && h.edge is None && !h.inside
    &&& selected ==> !h.lolly && h.corner is None && h.mid is None
}

/// Nothing of the balloon is under the press.
pub open spec fn balloon_missed(h: BalloonHit, selected: bool) -> bool {
    &&& h.handle is None && !h.inside
    &&& selected ==> !h.lolly && h.corner is None && h.mid is None
}

/// No shape of the layer is under the press; a hidden layer shows none.
pub open spec fn shapes_missed(l: Layer, h: LayerHit, li: int, p: Picked) -> bool {
    ||| !l.look.visible
    ||| {
        &&& l.kind is Balloon ==> forall|k: int|
            0 <= k < h.balloons@.len() ==> balloon_missed(#[trigger] h.balloons@[k], p.balloon == Some((li as usize, k as usize)))
        &&& l.kind is Frame ==> forall|k: int|
            0 <= k < h.frames@.len() ==> panel_missed(#[trigger] h.frames@[k], p.frame == Some((li as usize, k as usize)))
    }
}

/// No run of effect lines that shows is under the press.
pub open spec fn runs_missed(layers: Seq<Layer>, hits: Seq<LayerHit>) -> bool {
    forall|i: int|
        0 <= i < layers.len() && (#[trigger] layers[i]).genlines && layers[i].look.visible ==> hits[i].gen_handle is None
            && !hits[i].ink
}

proof fn lemma_runs_missed(layers: Seq<Layer>, hits: Seq<LayerHit>, n: int)
    requires
        runs_missed(layers, hits),
        0 <= n <= layers.len(),
    ensures
        top_gen(layers, hits, n) is None,
    decreases n,
{
    if n > 0 {
        assert(layers[n - 1] == layers[n - 1]);
        lemma_runs_missed(layers, hits, n - 1);
    }
}

proof fn lemma_frames_above(hits: Seq<FrameHit>, li: usize, sel: Option<(usize, usize)>, k: int, m: int)
    requires
        0 <= k <= m <= hits.len(),
        forall|j: int| k <= j < m ==> panel_missed(#[trigger] hits[j], sel == Some((li, j as usize))),
    ensures
        top_frame_in(hits, li, sel, m) == top_frame_in(hits, li, sel, k),
    decreases m,
{
    if k < m {
        assert(panel_missed(hits[m - 1], sel == Some((li, (m - 1) as usize))));
        lemma_frames_above(hits, li, sel, k, m - 1);
    }
}

proof fn lemma_balloons_above(hits: Seq<BalloonHit>, li: usize, sel: Option<(usize, usize)>, k: int, m: int)
    requires
        0 <= k <= m <= hits.len(),
        forall|j: int| k <= j < m ==> balloon_missed(#[trigger] hits[j], sel == Some((li, j as usize))),
    ensures
        top_balloon_in(hits, li, sel, m) == top_balloon_in(hits, li, sel, k),
    decreases m,
{
    if k < m {
        assert(balloon_missed(hits[m - 1], sel == Some((li, (m - 1) as usize))));
        lemma_balloons_above(hits, li, sel, k, m - 1);
    }
}

proof fn lemma_shapes_above(layers: Seq<Layer>, hits: Seq<LayerHit>, p: Picked, k: int, n: int)
    requires
        0 <= k <= n <= layers.len(),
        hits.len() == layers.len(),
        forall|j: int| k <= j < n ==> shapes_missed(#[trigger] layers[j], hits[j], j, p),
    ensures
        top_shape(layers, hits, p, n) == top_shape(layers, hits, p, k),
    decreases n,
{
    if k < n {
        let (l, h) = (layers[n - 1], hits[n - 1]);
        assert(shapes_missed(l, h, n - 1, p));
        if l.look.visible && l.kind is Balloon {
            lemma_balloons_above(h.balloons@, (n - 1) as usize, p.balloon, 0, h.balloons@.len() as int);
        }
        if l.look.visible && l.kind is Frame {
            lemma_frames_above(h.frames@, (n - 1) as usize, p.frame, 0, h.frames@.len() as int);
        }
        lemma_shapes_above(layers, hits, p, k, n - 1);
    }
}

/// A press takes the topmost panel that is under it, by the part that is nearest
/// to hand: a vertex reshapes that vertex; a selected panel is turned by its
/// lollipop, scaled by that corner or stretched by that middle of its box; an
/// edge is dragged as that edge; and the body moves the whole. The drag starts
/// at the press, and that panel alone is selected.
pub proof fn law_a_press_takes_the_part_of_a_panel(
    a: App,
    b: App,
    r: ObjectAct,
    at: Pt,
    hits: Seq<LayerHit>,
    li: int,
    fi: int,
)
    requires
        a.doc.layers@.len() <= usize::MAX,
        hits_fit(a.doc.layers@, hits),
        object_answered(a, b, r, at, hits, None),
        runs_missed(a.doc.layers@, hits),
        0 <= li < a.doc.layers@.len(),
        a.doc.layers@[li].look.visible,
        a.doc.layers@[li].kind is Frame,
        0 <= fi < hits[li].frames@.len(),
        !panel_missed(hits[li].frames@[fi], a.picked.frame == Some((li as usize, fi as usize))),
        forall|j: int| li < j < a.doc.layers@.len() ==> shapes_missed(#[trigger] a.doc.layers@[j], hits[j], j, a.picked),
        forall|k: int|
            fi < k < hits[li].frames@.len() ==> panel_missed(
                #[trigger] hits[li].frames@[k],
                a.picked.frame == Some((li as usize, k as usize)),
            ),
    ensures
        ({
            let h = hits[li].frames@[fi];
            let own = a.picked.frame == Some((li as usize, fi as usize));
            let d = b.object.frame->0;
            &&& r is Done
            &&& b.object.frame is Some && d.layer == li && d.frame == fi && d.start == at && d.cur == at && !d.shift_snap
            &&& b.picked.frame == Some((li as usize, fi as usize)) && b.picked.balloon is None && b.picked.gen is None
            &&& b.picked.at == Some(at)
            &&& b.doc == a.doc && b.shell == a.shell
            &&& h.vertex matches Some(v) ==> d.mode == ObjectDragMode::Vertex(v)
            &&& h.vertex is None && own && h.lolly ==> d.mode == ObjectDragMode::Rotate
            &&& h.vertex is None && own && !h.lolly && h.corner is Some ==> d.mode == ObjectDragMode::ScaleCorner(h.corner->0)
            &&& h.vertex is None && own && !h.lolly && h.corner is None && h.mid is Some ==> d.mode == ObjectDragMode::ScaleEdge(
                h.mid->0,
            )
            &&& d.mode is Rotate || d.mode is ScaleCorner || d.mode is ScaleEdge ==> own
            &&& h.vertex is None && !own && h.edge is Some ==> d.mode == ObjectDragMode::Edge(h.edge->0)
            &&& h.vertex is None && !h.lolly && h.corner is None && h.mid is None && h.edge is Some ==> d.mode
                == ObjectDragMode::Edge(h.edge->0)
            &&& h.vertex is None && !own && h.edge is None ==> d.mode == ObjectDragMode::MoveWhole
            &&& h.vertex is None && !h.lolly && h.corner is None && h.mid is None && h.edge is None ==> d.mode
                == ObjectDragMode::MoveWhole
        }),
{
    let n = a.doc.layers@.len() as int;
    lemma_runs_missed(a.doc.layers@, hits, n);
    lemma_shapes_above(a.doc.layers@, hits, a.picked, li + 1, n);
    lemma_frames_above(hits[li].frames@, li as usize, a.picked.frame, fi + 1, hits[li].frames@.len() as int);
}

/// A press takes the topmost balloon that is under it in the same way: a handle
/// is dragged as that handle; a selected balloon is turned by its lollipop,
/// scaled by that corner or stretched by that middle of its box; and the body
/// moves the whole.
pub proof fn law_a_press_takes_the_part_of_a_balloon(
    a: App,
    b: App,
    r: ObjectAct,
    at: Pt,
    hits: Seq<LayerHit>,
    arrow: Option<usize>,
    li: int,
    bi: int,
)
    requires
        a.doc.layers@.len() <= usize::MAX,
        hits_fit(a.doc.layers@, hits),
        object_answered(a, b, r, at, hits, arrow),
        runs_missed(a.doc.layers@, hits),
        0 <= li < a.doc.layers@.len(),
        a.doc.layers@[li].look.visible,
        a.doc.layers@[li].kind is Balloon,
        0 <= bi < hits[li].balloons@.len(),
        !balloon_missed(hits[li].balloons@[bi], a.picked.balloon == Some((li as usize, bi as usize))),
        forall|j: int| li < j < a.doc.layers@.len() ==> shapes_missed(#[trigger] a.doc.layers@[j], hits[j], j, a.picked),
        forall|k: int|
            bi < k < hits[li].balloons@.len() ==> balloon_missed(
                #[trigger] hits[li].balloons@[k],
                a.picked.balloon == Some((li as usize, k as usize)),
            ),
    ensures
        ({
            let h = hits[li].balloons@[bi];
            let own = a.picked.balloon == Some((li as usize, bi as usize));
            let d = b.object.balloon->0;
            &&& r is Done
            &&& b.object.balloon is Some && d.layer == li && d.balloon == bi && d.start == at && d.cur == at && !d.shift_snap
            &&& b.picked.balloon == Some((li as usize, bi as usize)) && b.picked.frame is None && b.picked.gen is None
            &&& b.picked.at == Some(at)
            &&& b.doc == a.doc && b.shell == a.shell
            &&& h.handle matches Some(v) ==> d.mode == BalloonDragMode::Handle(v)
            &&& h.handle is None && own && h.lolly ==> d.mode == BalloonDragMode::BoxRotate
            &&& h.handle is None && own && !h.lolly && h.corner is Some ==> d.mode == BalloonDragMode::BoxCorner(h.corner->0)
            &&& h.handle is None && own && !h.lolly && h.corner is None && h.mid is Some ==> d.mode == BalloonDragMode::BoxEdge(
                h.mid->0,
            )
            &&& d.mode is BoxRotate || d.mode is BoxCorner || d.mode is BoxEdge ==> own
            &&& h.handle is None && !own ==> d.mode == BalloonDragMode::MoveWhole
            &&& h.handle is None && !h.lolly && h.corner is None && h.mid is None ==> d.mode == BalloonDragMode::MoveWhole
        }),
{
    let n = a.doc.layers@.len() as int;
    lemma_runs_missed(a.doc.layers@, hits, n);
    lemma_shapes_above(a.doc.layers@, hits, a.picked, li + 1, n);
    lemma_balloons_above(hits[li].balloons@, li as usize, a.picked.balloon, bi + 1, hits[li].balloons@.len() as int);
}

proof fn lemma_gens_above(layers: Seq<Layer>, hits: Seq<LayerHit>, k: int, n: int)
    requires
        0 <= k <= n <= layers.len(),
        forall|i: int|
            k <= i < n && (#[trigger] layers[i]).genlines && layers[i].look.visible ==> hits[i].gen_handle is None && !hits[i].ink,
    ensures
        top_gen(layers, hits, n) == top_gen(layers, hits, k),
    decreases n,
{
    if k < n {
        assert(layers[n - 1] == layers[n - 1]);
        lemma_gens_above(layers, hits, k, n - 1);
    }
}

/// Effect lines that show come before every other object, the topmost run first:
/// a handle under the press is dragged as that handle, and ink alone selects the
/// run. Either way its layer is the one in hand from then on, and nothing else
/// is selected.
pub proof fn law_effect_lines_come_first(a: App, b: App, r: ObjectAct, at: Pt, hits: Seq<LayerHit>, arrow: Option<usize>, li: int)
    requires
        a.doc.layers@.len() <= usize::MAX,
        hits_fit(a.doc.layers@, hits),
        object_answered(a, b, r, at, hits, arrow),
        0 <= li < a.doc.layers@.len(),
        a.doc.layers@[li].look.visible,
        a.doc.layers@[li].genlines,
        hits[li].gen_handle is Some || hits[li].ink,
        forall|i: int|
            li < i < a.doc.layers@.len() && (#[trigger] a.doc.layers@[i]).genlines && a.doc.layers@[i].look.visible
                ==> hits[i].gen_handle is None && !hits[i].ink,
    ensures
        r is Done,
        b.picked.gen == Some(li as usize) && b.picked.frame is None && b.picked.balloon is None && b.picked.text is None,
        b.picked.at == Some(at),
        b.doc.active == li,
        b.doc.layers == a.doc.layers,
        b.object.frame == a.object.frame && b.object.balloon == a.object.balloon,
        hits[li].gen_handle matches Some(mode) ==> {
            &&& b.object.gen is Some
            &&& (b.object.gen->0).layer == li && (b.object.gen->0).mode == mode
            &&& (b.object.gen->0).start == at && (b.object.gen->0).cur == at
        },
        hits[li].gen_handle is None ==> b.object.gen == a.object.gen && b.shell.status@
            == "effect lines selected — drag the blue handles"@,
{
    lemma_gens_above(a.doc.layers@, hits, li + 1, a.doc.layers@.len() as int);
}

/// The arrow of a selected panel is pressed before any panel, tone or ink, and
/// nothing changes until that has been tried.
pub proof fn law_an_arrow_comes_before_panels(a: App, b: App, r: ObjectAct, at: Pt, hits: Seq<LayerHit>, dir: usize)
    requires
        a.doc.layers@.len() <= usize::MAX,
        hits_fit(a.doc.layers@, hits),
        object_answered(a, b, r, at, hits, Some(dir)),
        runs_missed(a.doc.layers@, hits),
        forall|j: int|
            0 <= j < a.doc.layers@.len() && (#[trigger] a.doc.layers@[j]).kind is Balloon ==> shapes_missed(
                a.doc.layers@[j],
                hits[j],
                j,
                a.picked,
            ),
    ensures
        r == ObjectAct::TryExpand(dir),
        b == a,
{
    let n = a.doc.layers@.len() as int;
    lemma_runs_missed(a.doc.layers@, hits, n);
    lemma_no_balloon(a.doc.layers@, hits, a.picked, n);
}

proof fn lemma_no_balloon(layers: Seq<Layer>, hits: Seq<LayerHit>, p: Picked, n: int)
    requires
        0 <= n <= layers.len(),
        hits.len() == layers.len(),
        forall|j: int|
            0 <= j < layers.len() && (#[trigger] layers[j]).kind is Balloon ==> shapes_missed(layers[j], hits[j], j, p),
    ensures
        top_shape(layers, hits, p, n) matches Some(g) ==> g is Frame,
    decreases n,
{
    if n > 0 {
        let (l, h) = (layers[n - 1], hits[n - 1]);
        if l.look.visible && l.kind is Balloon {
            assert(shapes_missed(layers[n - 1], hits[n - 1], n - 1, p));
            lemma_balloons_above(h.balloons@, (n - 1) as usize, p.balloon, 0, h.balloons@.len() as int);
        }
        if l.look.visible && l.kind is Frame {
            lemma_frame_grab(h.frames@, (n - 1) as usize, p.frame, h.frames@.len() as int);
        }
        lemma_no_balloon(layers, hits, p, n - 1);
    }
}

proof fn lemma_frame_grab(hits: Seq<FrameHit>, li: usize, sel: Option<(usize, usize)>, m: int)
    ensures
        top_frame_in(hits, li, sel, m) matches Some(g) ==> g is Frame,
    decreases m,
{
    if m > 0 {
        lemma_frame_grab(hits, li, sel, m - 1);
    }
}

/// Where no shape is under the press, the topmost live tone that shows its dots
/// there gives its lattice into the hand.
pub proof fn law_a_tone_gives_its_lattice(a: App, b: App, r: ObjectAct, at: Pt, hits: Seq<LayerHit>, li: int)
    requires
        a.doc.layers@.len() <= usize::MAX,
        hits_fit(a.doc.layers@, hits),
        object_answered(a, b, r, at, hits, None),
        runs_missed(a.doc.layers@, hits),
        forall|j: int| 0 <= j < a.doc.layers@.len() ==> shapes_missed(#[trigger] a.doc.layers@[j], hits[j], j, a.picked),
        0 <= li < a.doc.layers@.len(),
        a.doc.layers@[li].look.visible && a.doc.layers@[li].kind is FillTone && hits[li].shown_ink,
        forall|j: int|
            li < j < a.doc.layers@.len() ==> !((#[trigger] a.doc.layers@[j]).look.visible && a.doc.layers@[j].kind is FillTone
                && hits[j].shown_ink),
    ensures
        r is Done,
        b.object.lattice is Some,
        (b.object.lattice->0).layer == li && (b.object.lattice->0).start == at && (b.object.lattice->0).cur == at,
        b.doc.active == li && b.doc.layers == a.doc.layers,
        b.picked.at == Some(at),
        b.shell.status@ == "tone lattice grabbed — drag moves the dots under the art"@,
        b.shell.cmds == a.shell.cmds,
{
    let n = a.doc.layers@.len() as int;
    lemma_runs_missed(a.doc.layers@, hits, n);
    lemma_shapes_above(a.doc.layers@, hits, a.picked, 0, n);
    lemma_tones_above(a.doc.layers@, hits, li + 1, n);
}

proof fn lemma_tones_above(layers: Seq<Layer>, hits: Seq<LayerHit>, k: int, n: int)
    requires
        0 <= k <= n <= layers.len(),
        forall|j: int|
            k <= j < n ==> !((#[trigger] layers[j]).look.visible && layers[j].kind is FillTone && hits[j].shown_ink),
    ensures
        top_tone(layers, hits, n) == top_tone(layers, hits, k),
    decreases n,
{
    if k < n {
        assert(layers[n - 1] == layers[n - 1]);
        lemma_tones_above(layers, hits, k, n - 1);
    }
}

/// Plain ink that may be lifted: on a layer that shows, is not locked, and holds
/// pixels of its own.
pub open spec fn bare_ink(l: Layer, h: LayerHit) -> bool {
    &&& h.ink && l.look.visible && !l.lock && !l.folder && !l.strokes && !l.genlines
    &&& l.kind is Raster || l.kind is Correction
}

proof fn lemma_inks_above(layers: Seq<Layer>, hits: Seq<LayerHit>, k: int, n: int)
    requires
        0 <= k <= n <= layers.len(),
        forall|j: int| k <= j < n ==> !bare_ink(#[trigger] layers[j], hits[j]),
    ensures
        top_ink(layers, hits, n) == top_ink(layers, hits, k),
    decreases n,
{
    if k < n {
        assert(!bare_ink(layers[n - 1], hits[n - 1]));
        lemma_inks_above(layers, hits, k, n - 1);
    }
}

/// Where neither shape nor tone is under the press, the topmost plain ink is
/// lifted with its layer, in the box of the ink cut to the page; one with more
/// tiles than a drag carries is only selected, and one whose ink lies off the
/// page too.
pub proof fn law_plain_ink_is_lifted(a: App, b: App, r: ObjectAct, at: Pt, hits: Seq<LayerHit>, li: int)
    requires
        a.doc.layers@.len() <= usize::MAX,
        hits_fit(a.doc.layers@, hits),
        object_answered(a, b, r, at, hits, None),
        runs_missed(a.doc.layers@, hits),
        forall|j: int| 0 <= j < a.doc.layers@.len() ==> shapes_missed(#[trigger] a.doc.layers@[j], hits[j], j, a.picked),
        forall|j: int|
            0 <= j < a.doc.layers@.len() ==> !((#[trigger] a.doc.layers@[j]).look.visible && a.doc.layers@[j].kind is FillTone
                && hits[j].shown_ink),
        0 <= li < a.doc.layers@.len(),
        bare_ink(a.doc.layers@[li], hits[li]),
        forall|j: int| li < j < a.doc.layers@.len() ==> !bare_ink(#[trigger] a.doc.layers@[j], hits[j]),
    ensures
        b.doc.active == li && b.doc.layers == a.doc.layers,
        b.picked.frame is None && b.picked.balloon is None && b.picked.gen is None,
        b.object == a.object,
        r is Lift ==> {
            &&& hits[li].tiles is Some && hits[li].ink_box is Some
            &&& ((hits[li].tiles->0).0 / 64) * ((hits[li].tiles->0).1 / 64) <= 4096
            &&& r->Lift_0 == li
            &&& 0 <= (r->Lift_1).l < (r->Lift_1).r && 0 <= (r->Lift_1).t < (r->Lift_1).b
            &&& (hits[li].ink_box->0).l <= (r->Lift_1).l && (r->Lift_1).r <= (hits[li].ink_box->0).r
            &&& (hits[li].ink_box->0).t <= (r->Lift_1).t && (r->Lift_1).b <= (hits[li].ink_box->0).b
            &&& (r->Lift_1).l == 0 || (r->Lift_1).l == (hits[li].ink_box->0).l
            &&& (r->Lift_1).t == 0 || (r->Lift_1).t == (hits[li].ink_box->0).t
            &&& (r->Lift_1).r <= a.doc.size.w as i32 && (r->Lift_1).b <= a.doc.size.h as i32
        },
        !(r is Lift) ==> r is Done,
        ((hits[li].tiles matches Some(t) && (t.0 / 64) * (t.1 / 64) <= 4096) && (hits[li].ink_box matches Some(x) && 0 <= x.l < x.r
            && 0 <= x.t < x.b && x.r <= a.doc.size.w as i32 && x.b <= a.doc.size.h as i32)) ==> r == ObjectAct::Lift(
            li as usize,
            hits[li].ink_box->0,
        ),
{
    let n = a.doc.layers@.len() as int;
    lemma_runs_missed(a.doc.layers@, hits, n);
    lemma_shapes_above(a.doc.layers@, hits, a.picked, 0, n);
    lemma_tones_above(a.doc.layers@, hits, 0, n);
    lemma_inks_above(a.doc.layers@, hits, li + 1, n);
}

/// A press on nothing deselects panels, balloons and runs, and holds nothing.
pub proof fn law_a_press_on_nothing_deselects(a: App, b: App, r: ObjectAct, at: Pt, hits: Seq<LayerHit>)
    requires
        a.doc.layers@.len() <= usize::MAX,
        hits_fit(a.doc.layers@, hits),
        object_answered(a, b, r, at, hits, None),
        runs_missed(a.doc.layers@, hits),
        forall|j: int| 0 <= j < a.doc.layers@.len() ==> shapes_missed(#[trigger] a.doc.layers@[j], hits[j], j, a.picked),
        forall|j: int|
            0 <= j < a.doc.layers@.len() ==> !((#[trigger] a.doc.layers@[j]).look.visible && a.doc.layers@[j].kind is FillTone
                && hits[j].shown_ink),
        forall|j: int| 0 <= j < a.doc.layers@.len() ==> !bare_ink(#[trigger] a.doc.layers@[j], hits[j]),
    ensures
        r is Done,
        b.picked.frame is None && b.picked.balloon is None && b.picked.gen is None,
        b.picked.text == a.picked.text && b.picked.at == a.picked.at,
        b.doc == a.doc && b.object == a.object && b.shell == a.shell,
{
    let n = a.doc.layers@.len() as int;
    lemma_runs_missed(a.doc.layers@, hits, n);
    lemma_shapes_above(a.doc.layers@, hits, a.picked, 0, n);
    lemma_tones_above(a.doc.layers@, hits, 0, n);
    lemma_inks_above(a.doc.layers@, hits, 0, n);
}

impl App {
    /// What a step through the stack makes of the state.
    pub open spec fn stepped(self, after: App, forward: bool, hits: Option<Seq<LayerHit>>) -> bool {
        match (selection(self.picked), hits) {
            (None, _) => after == self,
            (Some(_), None) => {
                &&& after == (App { shell: after.shell, ..self })
                &&& after.shell.says(self.shell, "nothing stacked here to cycle to"@)
            },
            (Some(cur), Some(h)) => {
                let c = candidates(self.doc.layers@, h);
                let n = c.len();
                if n < 2 {
                    after == self
                } else {
                    let j = cycled(place_of(c, cur, 0), n as int, forward);
                    &&& selection(after.picked) == Some(next_in(c, cur, forward))
                    &&& after == (App {
                        shell: (Shell { status: after.shell.status, needs_redraw: true, ..self.shell }),
                        ..selected(self, c[j])
                    })
                    &&& after.shell.status@ == cycle_text(cur, c[j], j as nat, n)
                }
            },
        }
    }

    /// What the first claims on a press of the Object tool make of the state: an
    /// anchor edit, then a ruler, then the strokes of the layer in hand.
    pub open spec fn object_began(
        self,
        after: App,
        r: ObjectDown,
        at: Pt,
        m: Mods,
        f: AnchorFacts,
        ruler: Option<(usize, RulerGrab)>,
        hint: Option<Seq<char>>,
    ) -> bool {
        let e = crate::balloons::anchor_edit(self, m.ctrl, m.alt, f);
        if !(e is Pass) {
            r is Done && self.anchor_edited(after, e)
        } else if ruler is Some {
            &&& r is Done
            &&& after == (App {
                rulers: (RulerHand {
                    moving: Some(RulerMove { ruler: (ruler->0).0, grab: (ruler->0).1, last: at, moved: false }),
                    ..self.rulers
                }),
                shell: after.shell,
                ..self
            })
            &&& after.shell.says(self.shell, App::grab_text((ruler->0).1, hint))
        } else {
            &&& after == self
            &&& r == (if self.active_layer().strokes { ObjectDown::TryVector } else { ObjectDown::Next })
        }
    }

    /// What trying the Object tool for one press makes of the state.
    pub open spec fn borrowed(self, after: App, r: bool, before: PickedCopy) -> bool {
        &&& r == self.object_held()
        &&& r ==> {
            &&& after == (App { hold: (Hold { temp_object: true, ..self.hold }), shell: after.shell, ..self })
            &&& after.shell.says(self.shell, "object grab — release to keep drawing"@)
        }
        &&& !r ==> after == (App {
            picked: (Picked {
                frame: before.frame,
                balloon: before.balloon,
                gen: before.gen,
                text: before.text,
                at: before.at,
                ..self.picked
            }),
            ..self
        })
    }
}

/// The object is under the point: it is there, its layer shows, and it was hit.
pub open spec fn under(layers: Seq<Layer>, hits: Seq<LayerHit>, x: ObjRef) -> bool {
    match x {
        ObjRef::Text(li, i) => li < layers.len() && layers[li as int].look.visible && layers[li as int].kind is Text && i
            < hits[li as int].texts@.len() && hits[li as int].texts@[i as int],
        ObjRef::Gen(li) => li < layers.len() && layers[li as int].look.visible && layers[li as int].genlines
            && hits[li as int].ink,
        ObjRef::Balloon(li, i) => li < layers.len() && layers[li as int].look.visible && layers[li as int].kind is Balloon && i
            < hits[li as int].balloons@.len() && hits[li as int].balloons@[i as int].inside,
        ObjRef::Frame(li, i) => li < layers.len() && layers[li as int].look.visible && layers[li as int].kind is Frame && i
            < hits[li as int].frames@.len() && hits[li as int].frames@[i as int].inside,
    }
}

proof fn lemma_in_sum<T>(a: Seq<T>, b: Seq<T>, x: T)
    ensures
        (a + b).contains(x) <==> a.contains(x) || b.contains(x),
{
    if a.contains(x) {
        let k = choose|k: int| 0 <= k < a.len() && a[k] == x;
        assert((a + b)[k] == x);
    }
    if b.contains(x) {
        let k = choose|k: int| 0 <= k < b.len() && b[k] == x;
        assert((a + b)[a.len() + k] == x);
    }
    if (a + b).contains(x) {
        let k = choose|k: int| 0 <= k < (a + b).len() && (a + b)[k] == x;
        if k < a.len() {
            assert(a[k] == x);
        } else {
            assert(b[k - a.len()] == x);
        }
    }
}

proof fn lemma_in_texts(v: Seq<bool>, li: usize, m: int, x: ObjRef)
    requires
        0 <= m <= v.len() <= usize::MAX,
    ensures
        texts_at(v, li, m).contains(x) <==> (x matches ObjRef::Text(l, i) && l == li && i < m && v[i as int]),
    decreases m,
{
    if m > 0 {
        lemma_in_texts(v, li, m - 1, x);
        if v[m - 1] {
            let one = seq![ObjRef::Text(li, (m - 1) as usize)];
            lemma_in_sum(one, texts_at(v, li, m - 1), x);
            assert(one.contains(x) <==> x == ObjRef::Text(li, (m - 1) as usize)) by {
                assert(one[0] == ObjRef::Text(li, (m - 1) as usize));
            }
        }
    }
}

proof fn lemma_in_balloons(v: Seq<BalloonHit>, li: usize, m: int, x: ObjRef)
    requires
        0 <= m <= v.len() <= usize::MAX,
    ensures
        balloons_at(v, li, m).contains(x) <==> (x matches ObjRef::Balloon(l, i) && l == li && i < m && v[i as int].inside),
    decreases m,
{
    if m > 0 {
        lemma_in_balloons(v, li, m - 1, x);
        if v[m - 1].inside {
            let one = seq![ObjRef::Balloon(li, (m - 1) as usize)];
            lemma_in_sum(one, balloons_at(v, li, m - 1), x);
            assert(one.contains(x) <==> x == ObjRef::Balloon(li, (m - 1) as usize)) by {
                assert(one[0] == ObjRef::Balloon(li, (m - 1) as usize));
            }
        }
    }
}

proof fn lemma_in_frames(v: Seq<FrameHit>, li: usize, m: int, x: ObjRef)
    requires
        0 <= m <= v.len() <= usize::MAX,
    ensures
        frames_at(v, li, m).contains(x) <==> (x matches ObjRef::Frame(l, i) && l == li && i < m && v[i as int].inside),
    decreases m,
{
    if m > 0 {
        lemma_in_frames(v, li, m - 1, x);
        if v[m - 1].inside {
            let one = seq![ObjRef::Frame(li, (m - 1) as usize)];
            lemma_in_sum(one, frames_at(v, li, m - 1), x);
            assert(one.contains(x) <==> x == ObjRef::Frame(li, (m - 1) as usize)) by {
                assert(one[0] == ObjRef::Frame(li, (m - 1) as usize));
            }
        }
    }
}

spec fn layer_of(x: ObjRef) -> usize {
    match x {
        ObjRef::Text(li, _) => li,
        ObjRef::Gen(li) => li,
        ObjRef::Balloon(li, _) => li,
        ObjRef::Frame(li, _) => li,
    }
}

proof fn lemma_in_family(f: Family, layers: Seq<Layer>, hits: Seq<LayerHit>, n: int, x: ObjRef)
    requires
        0 <= n <= layers.len() <= usize::MAX,
        hits.len() == layers.len(),
    ensures
        of_family(f, layers, hits, n).contains(x) <==> under(layers, hits, x) && layer_of(x) < n && (match f {
            Family::Texts => x is Text,
            Family::Gens => x is Gen,
            Family::Balloons => x is Balloon,
            Family::Frames => x is Frame,
        }),
    decreases n,
{
    if n > 0 {
        lemma_in_family(f, layers, hits, n - 1, x);
        let (l, h) = (layers[n - 1], hits[n - 1]);
        let li = (n - 1) as usize;
        let own = on_layer(f, l, h, li);
        lemma_in_sum(own, of_family(f, layers, hits, n - 1), x);
        assert(h.texts.len() == h.texts@.len() && h.balloons.len() == h.balloons@.len() && h.frames.len() == h.frames@.len());
        lemma_in_texts(h.texts@, li, h.texts@.len() as int, x);
        lemma_in_balloons(h.balloons@, li, h.balloons@.len() as int, x);
        lemma_in_frames(h.frames@, li, h.frames@.len() as int, x);
        let run = seq![ObjRef::Gen(li)];
        assert(run.contains(x) <==> x == ObjRef::Gen(li)) by {
            assert(run[0] == ObjRef::Gen(li));
        }
    }
}

/// The stack under a point holds exactly the objects that are under it: texts,
/// balloons and panels that the point is inside of, and runs with ink there, on
/// layers that show. With [`law_the_stack_is_in_order`] that leaves it no choice.
pub proof fn law_the_stack_holds_what_is_under_the_point(layers: Seq<Layer>, hits: Seq<LayerHit>, x: ObjRef)
    requires
        layers.len() <= usize::MAX,
        hits.len() == layers.len(),
    ensures
        candidates(layers, hits).contains(x) <==> under(layers, hits, x),
{
    let n = layers.len() as int;
    let t = of_family(Family::Texts, layers, hits, n);
    let g = of_family(Family::Gens, layers, hits, n);
    let b = of_family(Family::Balloons, layers, hits, n);
    let f = of_family(Family::Frames, layers, hits, n);
    lemma_in_family(Family::Texts, layers, hits, n, x);
    lemma_in_family(Family::Gens, layers, hits, n, x);
    lemma_in_family(Family::Balloons, layers, hits, n, x);
    lemma_in_family(Family::Frames, layers, hits, n, x);
    lemma_in_sum(t, g, x);
    lemma_in_sum(t + g, b, x);
    lemma_in_sum(t + g + b, f, x);
}

/// A step through the stack: from the object that is selected to the next one of
/// the stack, around its ends, or the one before it. Nothing else of the picture
/// changes. Without a selection, or with nothing else there, nothing does.
pub proof fn law_a_step_goes_to_the_next(a: App, b: App, forward: bool, hits: Seq<LayerHit>, i: int)
    requires
        a.doc.layers@.len() <= usize::MAX,
        a.stepped(b, forward, Some(hits)),
        hits.len() == a.doc.layers@.len(),
        0 <= i < candidates(a.doc.layers@, hits).len(),
        selection(a.picked) == Some(candidates(a.doc.layers@, hits)[i]),
    ensures
        ({
            let c = candidates(a.doc.layers@, hits);
            let n = c.len() as int;
            &&& n < 2 ==> b == a
            &&& n >= 2 && forward && i + 1 < n ==> selection(b.picked) == Some(c[i + 1])
            &&& n >= 2 && forward && i + 1 == n ==> selection(b.picked) == Some(c[0])
            &&& n >= 2 && !forward && i > 0 ==> selection(b.picked) == Some(c[i - 1])
            &&& n >= 2 && !forward && i == 0 ==> selection(b.picked) == Some(c[n - 1])
            &&& b.doc.layers == a.doc.layers && b.doc.undo_labels == a.doc.undo_labels && b.doc.revision == a.doc.revision
            &&& b.picked.multi == a.picked.multi && b.picked.at == a.picked.at
            &&& b.object == a.object && b.shell.cmds == a.shell.cmds && b.work == a.work
        }),
{
    let c = candidates(a.doc.layers@, hits);
    law_the_stack_is_in_order(a.doc.layers@, hits);
    lemma_place_of(c, i, 0);
    if c.len() >= 2 {
        lemma_cycled(i, c.len() as int);
    }
}

/// A walk without a selection changes nothing, and one with nowhere to look says
/// so and keeps the selection.
pub proof fn law_a_walk_needs_a_place(a: App, b: App, forward: bool, hits: Option<Seq<LayerHit>>)
    requires
        a.stepped(b, forward, hits),
    ensures
        a.picked.text is None && a.picked.gen is None && a.picked.balloon is None && a.picked.frame is None ==> b == a,
        hits is None ==> b.picked == a.picked && b.doc == a.doc && b.shell.cmds == a.shell.cmds,
        hits is None && a.picked.frame is Some ==> b.shell.status@ == "nothing stacked here to cycle to"@,
{
}

/// One object is selected at a time: a text before a run, a run before a balloon,
/// a balloon before a panel; and selecting one deselects the others, keeps the
/// set, and brings a run's layer into the hand.
pub proof fn law_one_object_is_selected(p: Picked, a: App, r: ObjRef)
    ensures
        p.text matches Some(t) ==> selection(p) == Some(ObjRef::Text(t.0, t.1)),
        p.text is None && p.gen is Some ==> selection(p) == Some(ObjRef::Gen(p.gen->0)),
        p.text is None && p.gen is None && p.balloon is Some ==> selection(p) == Some(
            ObjRef::Balloon((p.balloon->0).0, (p.balloon->0).1),
        ),
        p.text is None && p.gen is None && p.balloon is None && p.frame is Some ==> selection(p) == Some(
            ObjRef::Frame((p.frame->0).0, (p.frame->0).1),
        ),
        p.text is None && p.gen is None && p.balloon is None && p.frame is None ==> selection(p) is None,
        ({
            let b = selected(a, r);
            &&& b.picked.text == (if r is Text { Some((r->Text_0, r->Text_1)) } else { None })
            &&& b.picked.gen == (if r is Gen { Some(r->Gen_0) } else { None })
            &&& b.picked.balloon == (if r is Balloon { Some((r->Balloon_0, r->Balloon_1)) } else { None })
            &&& b.picked.frame == (if r is Frame { Some((r->Frame_0, r->Frame_1)) } else { None })
            &&& b.picked.multi == a.picked.multi && b.picked.at == a.picked.at
            &&& b.doc.layers == a.doc.layers && b.object == a.object && b.shell == a.shell
            &&& r is Gen && r->Gen_0 < a.doc.layers@.len() ==> b.doc.active == r->Gen_0
            &&& !(r is Gen) ==> b.doc == a.doc
        }),
{
}

/// Where a walk looks: at the point of the last press, else at the middle of what
/// is selected, where that still exists and is no run.
pub proof fn law_a_walk_looks_at_the_pick(a: App)
    ensures
        selection(a.picked) is None ==> anchor_of(a) is Idle,
        selection(a.picked) is Some && a.picked.at is Some ==> anchor_of(a) == CycleAnchor::At(a.picked.at->0),
        a.picked.at is None && a.picked.text is None && a.picked.gen is Some ==> anchor_of(a) is Nowhere,
        (a.picked.at is None && a.picked.text is None && a.picked.gen is None && a.picked.balloon is None) ==> (
        a.picked.frame matches Some(f) ==> {
            let there = f.0 < a.doc.layers@.len() && (a.doc.layers@[f.0 as int].kind matches LayerKind::Frame(fs) && f.1
                < fs.frames);
            &&& there ==> anchor_of(a) == CycleAnchor::Centre(ObjRef::Frame(f.0, f.1))
            &&& !there ==> anchor_of(a) is Nowhere
        }),
        (a.picked.at is None && a.picked.text is None && a.picked.gen is None) ==> (a.picked.balloon matches Some(f) ==> {
            let there = f.0 < a.doc.layers@.len() && (a.doc.layers@[f.0 as int].kind matches LayerKind::Balloon(n) && f.1 < n);
            &&& there ==> anchor_of(a) == CycleAnchor::Centre(ObjRef::Balloon(f.0, f.1))
            &&& !there ==> anchor_of(a) is Nowhere
        }),
        a.picked.at is None ==> (a.picked.text matches Some(f) ==> {
            let there = f.0 < a.doc.layers@.len() && (a.doc.layers@[f.0 as int].kind matches LayerKind::Text(n) && f.1 < n);
            &&& there ==> anchor_of(a) == CycleAnchor::Centre(ObjRef::Text(f.0, f.1))
            &&& !there ==> anchor_of(a) is Nowhere
        }),
{
}

/// A press with the set: Shift adds whatever the mode, and without it the mode
/// decides. A plain press lets the set go. A press on nothing keeps the set.
/// Adding adds the topmost object once, at the end; removing and toggling take
/// it out wherever it is, and end the press there; toggling one that is neither
/// in the set nor selected adds it.
pub proof fn law_a_press_with_the_set(a: App, b: App, r: bool, at: Pt, shift: bool, c: Seq<ObjRef>)
    requires
        a.set_pressed(b, r, at, shift, c),
    ensures
        ({
            let how = if shift { SelectCombine::Add } else { a.tools.object_combine };
            let had = a.picked.multi@;
            let now = b.picked.multi@;
            let known = c.len() > 0 && (had.contains(c[0]) || selection(a.picked) == Some(c[0]));
            &&& how is New ==> !r && now.len() == 0 && b.picked.frame == a.picked.frame && b.object == a.object
            &&& !(how is New) && c.len() == 0 ==> !r && now == had && b.shell == a.shell && b.object == a.object
            &&& how is Add && c.len() > 0 && known ==> now == had
            &&& (how is Add || how is Toggle) && c.len() > 0 && !known ==> now.len() == had.len() + 1 && now.drop_last() == had
                && now.last() == c[0]
            &&& (how is Remove || how is Toggle) && c.len() > 0 && known ==> r && !now.contains(c[0]) && b.object == a.object
            &&& (how is Remove || how is Toggle) && c.len() > 0 && selection(a.picked) == Some(c[0]) ==> selection(b.picked) is None
                && now.len() == 0
            &&& how is Remove && c.len() > 0 && !known ==> r && now == had && b.object == a.object
            &&& b.doc.layers == a.doc.layers && b.work == a.work && b.shell.cmds == a.shell.cmds
        }),
{
    let had = a.picked.multi@;
    if c.len() > 0 {
        lemma_filter_other(had, c[0]);
        assert(had.push(c[0]).drop_last() =~= had);
    }
}

/// A press on an object of a set of two or more takes the whole set, from the
/// press; a press that only selects takes nothing.
pub proof fn law_a_set_is_dragged_as_one(a: App, b: App, r: bool, at: Pt, c: Seq<ObjRef>)
    requires
        a.set_pressed(b, r, at, true, c),
        c.len() > 0,
    ensures
        b.picked.multi@.len() >= 2 && b.picked.multi@.contains(c[0]) ==> {
            &&& r
            &&& b.object.group is Some && (b.object.group->0).start == at && (b.object.group->0).cur == at
            &&& selection(b.picked) == Some(c[0])
        },
        !(b.picked.multi@.len() >= 2 && b.picked.multi@.contains(c[0])) ==> !r && b.object == a.object && b.doc == a.doc,
{
    let had = a.picked.multi@;
    assert(had.push(c[0])[had.len() as int] == c[0]);
}

/// The first claims on a press of the Object tool: a ruler under it is taken by
/// the part that was hit, from the press; a layer that records strokes is asked
/// next; else the press goes on.
pub proof fn law_a_ruler_is_taken_first(
    a: App,
    b: App,
    r: ObjectDown,
    at: Pt,
    m: Mods,
    f: AnchorFacts,
    ruler: Option<(usize, RulerGrab)>,
    hint: Option<Seq<char>>,
)
    requires
        a.object_began(b, r, at, m, f, ruler, hint),
        !m.ctrl && !m.alt,
    ensures
        ruler matches Some(x) ==> {
            &&& r is Done
            &&& b.rulers.moving is Some && (b.rulers.moving->0).ruler == x.0 && (b.rulers.moving->0).grab == x.1
            &&& (b.rulers.moving->0).last == at && !(b.rulers.moving->0).moved
            &&& b.doc == a.doc && b.picked == a.picked && b.object == a.object
        },
        ruler is None ==> b == a,
        ruler is None && a.doc.layers@[a.doc.active as int].strokes ==> r is TryVector,
        ruler is None && !a.doc.layers@[a.doc.active as int].strokes ==> r is Next,
{
}

/// The Object tool is borrowed for a press exactly where that press took hold of
/// something; else what was selected before is selected again.
pub proof fn law_the_object_tool_is_borrowed(a: App, b: App, r: bool, before: PickedCopy)
    requires
        a.borrowed(b, r, before),
    ensures
        r == (a.object.text || a.object.frame is Some || a.object.balloon is Some || a.object.gen is Some),
        r ==> b.hold.temp_object && b.picked == a.picked && b.object == a.object && b.shell.status@
            == "object grab — release to keep drawing"@,
        !r ==> b.hold == a.hold && b.picked.frame == before.frame && b.picked.balloon == before.balloon && b.picked.gen
            == before.gen && b.picked.text == before.text && b.picked.at == before.at && b.picked.multi == a.picked.multi,
        b.doc == a.doc,
{
}

/// Ink that was lifted is moved from where the press fell, as an object.
pub proof fn law_lifted_ink_is_moved(app: App, after: App, at: Pt)
    requires
        app.lifted(after, at),
    ensures
        app.hold.transform_drag is None ==> after == app,
        app.hold.transform_drag matches Some(d) ==> {
            &&& after.hold.transform_drag matches Some(now)
            &&& now.object_lift
            &&& now.gesture matches Some(g)
            &&& g.grab is Move
            &&& g.start == at
            &&& now.mesh == d.mesh
            &&& after.shell.status@ == "layer lifted — drag to move, Enter commits, Esc cancels"@
        },
        after.doc == app.doc,
        after.shell.cmds == app.shell.cmds,
{
}

} // verus!
