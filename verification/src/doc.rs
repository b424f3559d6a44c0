//! The document as the canvas logic sees it: the layer stack, the history's
//! labels, the rulers and the layer comps. Pixels live in the drawing core.

use vstd::prelude::*;
use crate::geom::{Pt, Rgb, Size};
use crate::modes::RulerKind;

verus! {

/// Full opacity: the bit pattern of one as a 32-bit float.
pub const FULL: u32 = 0x3f80_0000;

/// The panels of a frame layer.
#[derive(Debug)]
pub struct FrameSet {
    /// How many panels there are.
    pub frames: usize,
    /// A reading position that was set by hand, counted from 1.
    pub reading_pin: Option<u32>,
    /// The border is a ruler instead of ink.
    pub border_ruler: bool,
}

/// A layer whose pixels follow a picture file.
#[derive(Debug)]
pub struct FileObject {
    pub path: String,
    pub missing: bool,
}

/// What a layer holds.
#[derive(Debug)]
pub enum LayerKind {
    Raster,
    /// Text boxes, by their number.
    Text(usize),
    /// Speech balloons, by their number.
    Balloon(usize),
    Frame(FrameSet),
    FillFlat,
    FillGradient,
    FillTone,
    Correction,
}

/// How a layer looks: what a layer comp remembers of it.
#[derive(Debug)]
pub struct Look {
    pub visible: bool,
    /// Bit pattern of a 32-bit float.
    pub opacity: u32,
    /// The blend mode by its file name.
    pub blend: String,
    pub colour: Option<Rgb>,
    pub sub_colour: Option<Rgb>,
}

/// One layer of the stack.
#[derive(Debug)]
pub struct Layer {
    /// Stays with the layer wherever it moves in the stack.
    pub id: u64,
    pub name: String,
    pub look: Look,
    pub lock: bool,
    pub folder: bool,
    pub kind: LayerKind,
    /// A raster layer that records its strokes.
    pub strokes: bool,
    /// A generated effect-line run.
    pub genlines: bool,
    pub file_object: Option<FileObject>,
    /// Takes pixels: neither a folder nor derived from something else.
    pub paintable: bool,
    /// The tone effect's parameters, as they are stored.
    pub tone: Option<String>,
    /// The border effect's parameters, as they are stored.
    pub edge: Option<String>,
    /// The expression colour by its file name, where it is not full colour.
    pub expression: Option<String>,
}

/// A curve ruler's vertices.
#[derive(Debug)]
pub struct CurveRuler {
    pub pts: Vec<Pt>,
}

/// A ruler of any other kind.
#[derive(Debug)]
pub struct Ruler {
    pub kind: RulerKind,
    /// The shell's name for its geometry.
    pub at: u64,
}

/// The page's rulers, and whether strokes snap to them.
#[derive(Debug)]
pub struct Rulers {
    pub on: bool,
    pub items: Vec<Ruler>,
    pub curves: Vec<CurveRuler>,
}

/// A named snapshot of how every layer looks.
#[derive(Debug)]
pub struct LayerComp {
    pub name: String,
    pub rows: Vec<(u64, Look)>,
}

/// The open page.
#[derive(Debug)]
pub struct Document {
    pub layers: Vec<Layer>,
    pub active: usize,
    /// The labels of the steps that can be undone, newest last.
    pub undo_labels: Vec<String>,
    /// How many steps were ever pushed.
    pub op_count: u64,
    /// Moves with every change.
    pub revision: u64,
    pub comps: Vec<LayerComp>,
    pub rulers: Rulers,
    pub size: Size,
    /// Is anything selected?
    pub selection: bool,
}

impl Layer {
    /// An empty raster layer that shows as it is.
    pub fn raster(id: u64, name: &str) -> (r: Layer)
        ensures
            r.id == id,
            r.name@ == name@,
            r.look.visible,
            r.look.opacity == FULL,
            r.look.blend@ == "svg:src-over"@,
            r.look.colour is None,
            r.look.sub_colour is None,
            !r.lock && !r.folder && !r.strokes && !r.genlines,
            r.kind is Raster,
            r.file_object is None,
            r.paintable,
            r.tone is None,
            r.edge is None,
            r.expression is None,
    {
        Layer {
            id,
            name: crate::text::own(name),
            look: Look {
                visible: true,
                opacity: FULL,
                blend: crate::text::own("svg:src-over"),
                colour: None,
                sub_colour: None,
            },
            lock: false,
            folder: false,
            kind: LayerKind::Raster,
            strokes: false,
            genlines: false,
            file_object: None,
            paintable: true,
            tone: None,
            edge: None,
            expression: None,
        }
    }

    pub open spec fn is_frame_spec(self) -> bool {
        self.kind is Frame
    }

    pub open spec fn is_vector_spec(self) -> bool {
        self.kind is Frame || self.kind is Balloon || self.kind is Text
    }

    pub fn is_frame(&self) -> (r: bool)
        ensures
            r == self.is_frame_spec(),
    {
        matches!(self.kind, LayerKind::Frame(_))
    }

    pub fn is_balloon(&self) -> (r: bool)
        ensures
            r == (self.kind is Balloon),
    {
        matches!(self.kind, LayerKind::Balloon(_))
    }

    pub fn is_text(&self) -> (r: bool)
        ensures
            r == (self.kind is Text),
    {
        matches!(self.kind, LayerKind::Text(_))
    }

    /// Panels, balloons or text boxes: the raster is derived from shapes.
    pub fn is_vector(&self) -> (r: bool)
        ensures
            r == self.is_vector_spec(),
    {
        matches!(self.kind, LayerKind::Frame(_) | LayerKind::Balloon(_) | LayerKind::Text(_))
    }
}

impl Document {
    /// A page with one empty layer, which is the active one.
    pub fn new(size: Size) -> (r: Document)
        ensures
            r.wf(),
            r.layers@.len() == 1,
            r.layers@[0].id == 1,
            r.layers@[0].name@ == "Layer 1"@,
            r.layers@[0].kind is Raster,
            r.layers@[0].paintable && r.layers@[0].look.visible && !r.layers@[0].lock && !r.layers@[0].folder,
            r.active == 0,
            r.undo_labels@.len() == 0,
            r.op_count == 0,
            r.revision == 0,
            r.comps@.len() == 0,
            r.rulers.on,
            r.rulers.items@.len() == 0,
            r.rulers.curves@.len() == 0,
            r.size == size,
            !r.selection,
    {
        Document {
            layers: vec![Layer::raster(1, "Layer 1")],
            active: 0,
            undo_labels: Vec::new(),
            op_count: 0,
            revision: 0,
            comps: Vec::new(),
            rulers: Rulers { on: true, items: Vec::new(), curves: Vec::new() },
            size,
            selection: false,
        }
    }

    /// The active layer exists.
    pub open spec fn wf(self) -> bool {
        self.active < self.layers@.len()
    }

    /// Marks the document as changed.
    pub fn touch(&mut self)
        ensures
            *final(self) == (Document { revision: next_revision(old(self).revision), ..*old(self) }),
    {
        self.revision = self.revision.wrapping_add(1);
    }

    /// Records a step that can be undone.
    pub fn push_op(&mut self, label: &str)
        ensures
            *final(self) == (Document {
                undo_labels: final(self).undo_labels,
                op_count: next_revision(old(self).op_count),
                ..*old(self)
            }),
            crate::text::strings(final(self).undo_labels@) == crate::text::strings(old(self).undo_labels@).push(label@),
    {
        self.undo_labels.push(crate::text::own(label));
        self.op_count = self.op_count.wrapping_add(1);
        proof {
            assert(crate::text::strings(self.undo_labels@) =~= crate::text::strings(old(self).undo_labels@).push(label@));
        }
    }

    /// Takes the newest step out of the history, where there is one.
    pub fn pop_op(&mut self)
        ensures
            *final(self) == (Document { undo_labels: final(self).undo_labels, ..*old(self) }),
            old(self).undo_labels@.len() == 0 ==> final(self).undo_labels@ == old(self).undo_labels@,
            old(self).undo_labels@.len() > 0 ==> final(self).undo_labels@ == old(self).undo_labels@.drop_last(),
    {
        let _ = self.undo_labels.pop();
    }

    /// Makes the newest `n` steps one step under this label; with fewer steps
    /// nothing happens.
    pub fn wrap_recent(&mut self, label: &str, n: usize)
        ensures
            *final(self) == (Document { undo_labels: final(self).undo_labels, ..*old(self) }),
            crate::text::strings(final(self).undo_labels@) == wrapped(
                crate::text::strings(old(self).undo_labels@),
                label@,
                n as int,
            ),
    {
        let len: usize = self.undo_labels.len();
        if n == 0 || n > len {
            return;
        }
        self.undo_labels.truncate(len - n);
        self.undo_labels.push(crate::text::own(label));
        proof {
            assert(crate::text::strings(self.undo_labels@) =~= wrapped(
                crate::text::strings(old(self).undo_labels@),
                label@,
                n as int,
            ));
        }
    }

    /// The first layer with this id.
    pub fn layer_index_of(&self, id: u64) -> (r: Option<usize>)
        ensures
            match r {
                Some(i) => self.index_of(id) == Some(i as int) && i < self.layers@.len() && self.layers@[i as int].id == id,
                None => self.index_of(id) is None,
            },
    {
        let mut i: usize = 0;
        while i < self.layers.len()
            invariant
                i <= self.layers@.len(),
                self.index_of(id) == first_with_id(self.layers@, id, i as int),
            decreases self.layers@.len() - i,
        {
            if self.layers[i].id == id {
                return Some(i);
            }
            i = i + 1;
        }
        None
    }

    /// Makes layer `i` the active one; an index beyond the stack changes nothing.
    pub fn set_active(&mut self, i: usize)
        ensures
            *final(self) == old(self).activated(i),
    {
        if i < self.layers.len() {
            self.active = i;
        }
    }

    /// The document with layer `i` active.
    pub open spec fn activated(self, i: usize) -> Document {
        if i < self.layers@.len() {
            Document { active: i, ..self }
        } else {
            self
        }
    }

    /// The first layer with this id.
    pub open spec fn index_of(self, id: u64) -> Option<int> {
        first_with_id(self.layers@, id, 0)
    }
}

/// The history with its newest `n` steps made one.
pub open spec fn wrapped(labels: Seq<Seq<char>>, label: Seq<char>, n: int) -> Seq<Seq<char>> {
    if 0 < n <= labels.len() {
        labels.take(labels.len() - n).push(label)
    } else {
        labels
    }
}

/// The revision behind this one.
pub open spec fn next_revision(r: u64) -> u64 {
    if r == u64::MAX {
        0
    } else {
        (r + 1) as u64
    }
}

/// The first layer at or behind `from` with this id.
pub open spec fn first_with_id(layers: Seq<Layer>, id: u64, from: int) -> Option<int>
    decreases layers.len() - from,
{
    if from < 0 || from >= layers.len() {
        None
    } else if layers[from].id == id {
        Some(from)
    } else {
        first_with_id(layers, id, from + 1)
    }
}

/// Panels, balloons and text boxes are shapes; nothing else is.
pub proof fn law_shapes_are_vectors(l: Layer)
    ensures
        l.is_frame_spec() ==> l.is_vector_spec(),
        l.kind is Frame ==> l.is_frame_spec(),
        l.kind is Balloon || l.kind is Text ==> l.is_vector_spec() && !l.is_frame_spec(),
        l.kind is Raster ==> !l.is_vector_spec() && !l.is_frame_spec(),
        l.is_vector_spec() ==> l.kind is Frame || l.kind is Balloon || l.kind is Text,
{
}

/// A layer is made active where there is one, and nothing else changes.
pub proof fn law_only_a_layer_becomes_active(d: Document, i: usize)
    ensures
        i < d.layers@.len() ==> d.activated(i).active == i,
        i >= d.layers@.len() ==> d.activated(i) == d,
        d.activated(i).layers == d.layers,
        d.activated(i).undo_labels == d.undo_labels,
        d.activated(i).op_count == d.op_count,
        d.activated(i).revision == d.revision,
        d.wf() ==> d.activated(i).wf(),
{
}

/// The layer that is found for an id is the first one that has it.
pub proof fn law_the_first_of_an_id_is_found(layers: Seq<Layer>, id: u64, from: int)
    requires
        0 <= from <= layers.len(),
    ensures
        match first_with_id(layers, id, from) {
            Some(i) => {
                &&& from <= i < layers.len()
                &&& layers[i].id == id
                &&& forall|j: int| from <= j < i ==> (#[trigger] layers[j]).id != id
            },
            None => forall|j: int| from <= j < layers.len() ==> (#[trigger] layers[j]).id != id,
        },
    decreases layers.len() - from,
{
    if from < layers.len() {
        law_the_first_of_an_id_is_found(layers, id, from + 1);
    }
}

/// The whole document is searched for an id.
pub proof fn law_an_id_is_found_anywhere(d: Document, k: int)
    requires
        0 <= k < d.layers@.len(),
    ensures
        d.index_of(d.layers@[k].id) matches Some(i) && 0 <= i <= k && d.layers@[i].id == d.layers@[k].id,
{
    law_the_first_of_an_id_is_found(d.layers@, d.layers@[k].id, 0);
}

/// Wrapping makes one step of the newest ones, under the label, and leaves the
/// older ones.
pub proof fn law_wrapping_makes_one_step(labels: Seq<Seq<char>>, label: Seq<char>, n: int)
    ensures
        0 < n <= labels.len() ==> {
            let w = wrapped(labels, label, n);
            &&& w.len() == labels.len() - n + 1
            &&& w.last() == label
            &&& forall|k: int| 0 <= k < labels.len() - n ==> #[trigger] w[k] == labels[k]
        },
        n <= 0 || n > labels.len() ==> wrapped(labels, label, n) == labels,
{
}

/// A revision counts up by one and starts over behind the last.
pub proof fn law_revisions_count_up(r: u64)
    ensures
        r < u64::MAX ==> next_revision(r) == r + 1,
        r == u64::MAX ==> next_revision(r) == 0,
        next_revision(r) != r,
{
}

} // verus!
