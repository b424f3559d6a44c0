//! The tools, their sub tools, and the keys that modify a press.

use vstd::prelude::*;

verus! {

#[derive(Clone, Copy, PartialEq, Eq, Structural, Debug)]
pub enum Tool {
    Pen,
    Eraser,
    SelPen,
    SelEraser,
    Fill,
    Tone,
    Wand,
    Eyedrop,
    Select,
    Figure,
    Gradient,
    Liquify,
    Frame,
    Balloon,
    Object,
    Text,
    Pan,
}

#[derive(Clone, Copy, PartialEq, Eq, Structural, Debug)]
pub enum FillMode {
    Click,
    Enclose,
    Lasso,
    Leftover,
    Dust,
}

#[derive(Clone, Copy, PartialEq, Eq, Structural, Debug)]
pub enum SelectMode {
    Rect,
    Ellipse,
    Lasso,
    Shrink,
    Magnetic,
}

/// How a new selection meets the one that stands.
#[derive(Clone, Copy, PartialEq, Eq, Structural, Debug)]
pub enum SelectionOp {
    Replace,
    Add,
    Subtract,
    Intersect,
}

#[derive(Clone, Copy, PartialEq, Eq, Structural, Debug)]
pub enum FigureMode {
    Line,
    Rect,
    Ellipse,
    Polygon,
    Curve,
    Arc,
    Smart,
    Stream,
    Focus,
    Urchin,
    SolidFlash,
}

#[derive(Clone, Copy, PartialEq, Eq, Structural, Debug)]
pub enum GradMode {
    FgToBg,
    FgToTransparent,
    TransparentToFg,
    Freeform,
}

#[derive(Clone, Copy, PartialEq, Eq, Structural, Debug)]
pub enum FrameMode {
    Folder,
    Border,
    Rect,
    Polyline,
    Pen,
}

#[derive(Clone, Copy, PartialEq, Eq, Structural, Debug)]
pub enum BalloonMode {
    Ellipse,
    Round,
    Draw,
    Tail,
}

#[derive(Clone, Copy, PartialEq, Eq, Structural, Debug)]
pub enum ObjectMode {
    Object,
    PickLayer,
}

/// How an Object-tool click meets the objects already selected.
#[derive(Clone, Copy, PartialEq, Eq, Structural, Debug)]
pub enum SelectCombine {
    New,
    Add,
    Remove,
    Toggle,
}

#[derive(Clone, Copy, PartialEq, Eq, Structural, Debug)]
pub enum PanMode {
    Hand,
    Rotate,
}

#[derive(Clone, Copy, PartialEq, Eq, Structural, Debug)]
pub enum RulerKind {
    Line,
    VanishingPoint,
    Perspective,
    Perspective1,
    Perspective3,
    Curve,
    Parallel,
    Radial,
    Concentric,
    Symmetric,
    GuideH,
    GuideV,
}

/// The modifier keys that are held.
#[derive(Clone, Copy, PartialEq, Eq, Structural, Debug)]
pub struct Mods {
    pub ctrl: bool,
    pub alt: bool,
    pub shift: bool,
}

impl Tool {
    /// A tool that lays a stroke down.
    pub open spec fn draws_spec(self) -> bool {
        self is Pen || self is Eraser || self is SelPen || self is SelEraser
    }

    /// A tool that lays a stroke down.
    pub fn draws(self) -> (r: bool)
        ensures
            r == self.draws_spec(),
    {
        matches!(self, Tool::Pen | Tool::Eraser | Tool::SelPen | Tool::SelEraser)
    }
}

impl FigureMode {
    /// A figure whose release makes an effect-line layer instead of ink.
    pub open spec fn generates_spec(self) -> bool {
        self is Stream || self is Focus || self is Urchin || self is SolidFlash
    }

    /// A figure whose release makes an effect-line layer instead of ink.
    pub fn generates(self) -> (r: bool)
        ensures
            r == self.generates_spec(),
    {
        matches!(self, FigureMode::Stream | FigureMode::Focus | FigureMode::Urchin | FigureMode::SolidFlash)
    }

    /// A generating figure that runs out from a centre.
    pub open spec fn radial_spec(self) -> bool {
        self is Focus || self is Urchin || self is SolidFlash
    }

    /// A generating figure that runs out from a centre.
    pub fn radial(self) -> (r: bool)
        ensures
            r == self.radial_spec(),
    {
        matches!(self, FigureMode::Focus | FigureMode::Urchin | FigureMode::SolidFlash)
    }

    /// The generator's number: lines, then the two flashes.
    pub open spec fn gen_kind_spec(self) -> u8 {
        match self {
            FigureMode::Urchin => 1,
            FigureMode::SolidFlash => 2,
            _ => 0,
        }
    }

    /// The generator's number: lines, then the two flashes.
    pub fn gen_kind(self) -> (r: u8)
        ensures
            r == self.gen_kind_spec(),
    {
        match self {
            FigureMode::Urchin => 1,
            FigureMode::SolidFlash => 2,
            _ => 0,
        }
    }
}

/// The pens and erasers lay strokes down, on the page or on the selection; no
/// other tool does.
pub proof fn law_pens_and_erasers_draw(t: Tool)
    ensures
        t is Pen || t is Eraser || t is SelPen || t is SelEraser ==> t.draws_spec(),
        t is Fill || t is Tone || t is Wand || t is Eyedrop || t is Select || t is Figure || t is Gradient || t is Liquify
            ==> !t.draws_spec(),
        t is Frame || t is Balloon || t is Object || t is Text || t is Pan ==> !t.draws_spec(),
{
}

/// Stream lines, focus lines and the two flashes are generated; all of them but
/// the stream run out from a centre. What runs out from a centre is generated,
/// and each flash has a number of its own.
pub proof fn law_generated_figures(m: FigureMode, other: FigureMode)
    ensures
        m is Stream || m is Focus || m is Urchin || m is SolidFlash ==> m.generates_spec(),
        m is Line || m is Rect || m is Ellipse || m is Polygon || m is Curve || m is Arc || m is Smart
            ==> !m.generates_spec(),
        m.radial_spec() == (m.generates_spec() && !(m is Stream)),
        m is Urchin == (m.gen_kind_spec() == 1),
        m is SolidFlash == (m.gen_kind_spec() == 2),
        m.gen_kind_spec() <= 2,
{
}

} // verus!
