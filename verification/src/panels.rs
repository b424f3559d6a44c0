//! Panels under the Object tool: which panel a point lies in, how a drag
//! reshapes one, how a dragged border takes the panels along that share it or
//! face it across the gutter, and the arrows that expand a panel to the next
//! border. Coordinates that are searched come as the places of their numbers in
//! the order of all numbers (see [`crate::floats::place`]).

use vstd::prelude::*;
use crate::app::{App, AppCmd, Shell, Work};
use crate::canvas_input::{BalloonDragMode, BalloonObjDrag, ObjectDrag, ObjectDragMode};
use crate::doc::{Layer, LayerKind};
use crate::floats;
use crate::geom::Pt;

verus! {

/// A panel that a point lies in: its layer, and its area in the order of the
/// areas.
#[derive(Clone, Copy, PartialEq, Eq, Structural, Debug)]
pub struct PanelHit {
    pub layer: usize,
    pub area: u32,
}

/// The smallest of the first `n` panels; of equals, the first.
pub open spec fn smallest(v: Seq<PanelHit>, n: int) -> Option<int>
    decreases n,
{
    if n <= 0 {
        None
    } else {
        match smallest(v, n - 1) {
            None => Some(n - 1),
            Some(b) => if floats::below(v[n - 1].area, v[b].area) { Some(n - 1) } else { Some(b) },
        }
    }
}

/// The panel that a placement starts in: of those that hold the point, the
/// innermost, which is the smallest.
pub fn panel_at(v: &Vec<PanelHit>) -> (r: Option<usize>)
    ensures
        match r {
            Some(i) => smallest(v@, v@.len() as int) == Some(i as int) && i < v@.len(),
            None => smallest(v@, v@.len() as int) is None,
        },
{
    let mut best: Option<usize> = None;
    let mut n: usize = 0;
    while n < v.len()
        invariant
            n <= v@.len(),
            match best {
                Some(i) => smallest(v@, n as int) == Some(i as int) && i < n,
                None => smallest(v@, n as int) is None,
            },
        decreases v@.len() - n,
    {
        best = match best {
            None => Some(n),
            Some(b) => if floats::is_below(v[n].area, v[b].area) { Some(n) } else { Some(b) },
        };
        n = n + 1;
    }
    best
}

/// There is an innermost panel wherever there is one at all, and where every
/// area is a number none is smaller.
pub proof fn law_innermost_panel(v: Seq<PanelHit>, n: int)
    requires
        0 <= n <= v.len(),
    ensures
        smallest(v, n) is Some == (n > 0),
        smallest(v, n) matches Some(b) ==> {
            &&& 0 <= b < n
            &&& (forall|j: int| 0 <= j < n ==> !floats::nan((#[trigger] v[j]).area)) ==> forall|j: int|
                0 <= j < n ==> floats::at_most(v[b].area, #[trigger] v[j].area)
        },
    decreases n,
{
    if n > 0 {
        law_innermost_panel(v, n - 1);
    }
}

/// What a drag does to a shape, as the drawing core carries it out on the
/// shape from before the drag.
#[derive(Clone, Copy, PartialEq, Eq, Structural, Debug)]
pub enum Reshape {
    /// Moved as a whole, along one of eight directions where `snap` says so.
    Translate { snap: bool },
    /// These two vertices moved; they may be one.
    Vertices(usize, usize),
    /// The handle put under the pointer.
    Handle,
    /// Turned about its middle, in steps of an eighth where `snap` says so.
    Turn { snap: bool },
    /// Scaled evenly about this corner of its box.
    Scale { corner: usize },
    /// Stretched about this side of its box, top first, then clockwise.
    Stretch { side: usize },
}

impl ObjectDrag {
    /// How the drag reshapes a panel of `n` vertices.
    pub open spec fn preview_spec(self, n: int) -> Reshape {
        match self.mode {
            ObjectDragMode::MoveWhole => Reshape::Translate { snap: false },
            ObjectDragMode::Vertex(i) => Reshape::Vertices(i, i),
            ObjectDragMode::Edge(i) => Reshape::Vertices(i, ((i + 1) % n) as usize),
            ObjectDragMode::Rotate => Reshape::Turn { snap: self.shift_snap },
            ObjectDragMode::ScaleCorner(i) => Reshape::Scale { corner: ((i + 2) % 4) as usize },
            ObjectDragMode::ScaleEdge(i) => Reshape::Stretch { side: far_side(i as int) as usize },
        }
    }

    /// How the drag reshapes a panel of `n` vertices.
    pub fn preview(&self, n: usize) -> (r: Reshape)
        requires
            n > 0,
            self.mode matches ObjectDragMode::Edge(i) ==> i < n,
            self.mode matches ObjectDragMode::ScaleCorner(i) ==> i < 4,
        ensures
            r == self.preview_spec(n as int),
    {
        match self.mode {
            ObjectDragMode::MoveWhole => Reshape::Translate { snap: false },
            ObjectDragMode::Vertex(i) => Reshape::Vertices(i, i),
            ObjectDragMode::Edge(i) => Reshape::Vertices(i, (i + 1) % n),
            ObjectDragMode::Rotate => Reshape::Turn { snap: self.shift_snap },
            ObjectDragMode::ScaleCorner(i) => Reshape::Scale { corner: crate::canvas_input::opposite_corner(i) },
            ObjectDragMode::ScaleEdge(i) => Reshape::Stretch { side: far(i) },
        }
    }
}

impl BalloonObjDrag {
    /// How the drag reshapes the balloon.
    pub open spec fn preview_spec(self) -> Reshape {
        match self.mode {
            BalloonDragMode::MoveWhole => Reshape::Translate { snap: self.shift_snap },
            BalloonDragMode::Handle(_) => Reshape::Handle,
            BalloonDragMode::BoxCorner(i) => Reshape::Scale { corner: ((i + 2) % 4) as usize },
            BalloonDragMode::BoxEdge(i) => Reshape::Stretch { side: far_side(i as int) as usize },
            BalloonDragMode::BoxRotate => Reshape::Turn { snap: self.shift_snap },
        }
    }

    /// How the drag reshapes the balloon.
    pub fn preview(&self) -> (r: Reshape)
        requires
            self.mode matches BalloonDragMode::BoxCorner(i) ==> i < 4,
        ensures
            r == self.preview_spec(),
    {
        match self.mode {
            BalloonDragMode::MoveWhole => Reshape::Translate { snap: self.shift_snap },
            BalloonDragMode::Handle(_) => Reshape::Handle,
            BalloonDragMode::BoxCorner(i) => Reshape::Scale { corner: crate::canvas_input::opposite_corner(i) },
            BalloonDragMode::BoxEdge(i) => Reshape::Stretch { side: far(i) },
            BalloonDragMode::BoxRotate => Reshape::Turn { snap: self.shift_snap },
        }
    }

    /// Does the drag turn the balloon as a rigid body? Only the lollipop does,
    /// and only on a body that can stand askew.
    pub fn rotation(&self, rotates_exactly: bool) -> (r: bool)
        ensures
            r == (self.mode is BoxRotate && rotates_exactly),
    {
        matches!(self.mode, BalloonDragMode::BoxRotate) && rotates_exactly
    }
}

/// The side of a box across from this one: top and bottom, right and left. A
/// number beyond the sides counts as the left.
pub open spec fn far_side(i: int) -> int {
    if i == 0 {
        2
    } else if i == 2 {
        0
    } else if i == 1 {
        3
    } else {
        1
    }
}

fn far(i: usize) -> (r: usize)
    ensures
        r == far_side(i as int),
{
    if i == 0 {
        2
    } else if i == 2 {
        0
    } else if i == 1 {
        3
    } else {
        1
    }
}

/// What a scaled box is held by never moves: the corner or side across from
/// the one that is dragged, and it is another one.
pub proof fn law_the_far_end_holds(i: int)
    requires
        0 <= i < 4,
    ensures
        (i + 2) % 4 != i,
        0 <= far_side(i) < 4,
        far_side(i) != i,
        far_side(far_side(i)) == i,
        ((i + 2) % 4 + 2) % 4 == i,
{
}

/// A border line that a dragged border may snap to: how far it is, and where.
#[derive(Clone, Copy, PartialEq, Eq, Structural, Debug)]
pub struct SnapLine {
    pub dist: u32,
    pub at: u32,
    /// The line runs the same way as the dragged border.
    pub aligned: bool,
    /// The line is the dragged border itself.
    pub own: bool,
}

/// The nearest of the first `n` lines that the border snaps to; of equals, the
/// first.
pub open spec fn snap_to(v: Seq<SnapLine>, tol: u32, n: int) -> Option<int>
    decreases n,
{
    if n <= 0 {
        None
    } else {
        let l = v[n - 1];
        let near = l.aligned && !l.own && floats::at_most(l.dist, tol);
        match snap_to(v, tol, n - 1) {
            None => if near { Some(n - 1) } else { None },
            Some(b) => if near && floats::below(l.dist, v[b].dist) { Some(n - 1) } else { Some(b) },
        }
    }
}

/// Where a dragged border snaps to, if a line is near enough.
pub fn edge_snap(v: &Vec<SnapLine>, tol: u32) -> (r: Option<u32>)
    ensures
        match snap_to(v@, tol, v@.len() as int) {
            Some(i) => r == Some(v@[i].at),
            None => r is None,
        },
{
    let mut best: Option<usize> = None;
    let mut n: usize = 0;
    while n < v.len()
        invariant
            n <= v@.len(),
            match best {
                Some(i) => snap_to(v@, tol, n as int) == Some(i as int) && i < n,
                None => snap_to(v@, tol, n as int) is None,
            },
        decreases v@.len() - n,
    {
        let l: SnapLine = v[n];
        let near = l.aligned && !l.own && floats::is_at_most(l.dist, tol);
        best = match best {
            None => if near { Some(n) } else { None },
            Some(b) => if near && floats::is_below(l.dist, v[b].dist) { Some(n) } else { Some(b) },
        };
        n = n + 1;
    }
    match best {
        Some(i) => Some(v[i].at),
        None => None,
    }
}

/// The line that a border snaps to is within reach and is not its own, and no
/// such line is nearer.
pub proof fn law_snap_is_nearest(v: Seq<SnapLine>, tol: u32, n: int)
    requires
        0 <= n <= v.len(),
    ensures
        match snap_to(v, tol, n) {
            Some(b) => {
                &&& 0 <= b < n
                &&& v[b].aligned && !v[b].own && floats::at_most(v[b].dist, tol)
                &&& forall|j: int| 0 <= j < n && (#[trigger] v[j]).aligned && !v[j].own ==> !floats::below(v[j].dist, v[b].dist)
            },
            None => forall|j: int| 0 <= j < n && (#[trigger] v[j]).aligned && !v[j].own ==> !floats::at_most(v[j].dist, tol),
        },
    decreases n,
{
    if n > 0 {
        law_snap_is_nearest(v, tol, n - 1);
    }
}

/// What the shell measured of a panel beside a dragged border.
#[derive(Clone, Copy, PartialEq, Eq, Structural, Debug)]
pub struct SibHit {
    /// How many of its vertices lie on the border.
    pub on_edge: usize,
    /// Its one vertex there lies at an end of the border.
    pub at_end: bool,
    /// How far across the gutter it faces the border, if it does.
    pub facing: Option<u32>,
    /// That is more than a touch.
    pub apart: bool,
    /// It stays a panel when the vertices on the border are moved along.
    pub ok_shared: bool,
    /// It stays a panel when the vertices that face the border are moved along.
    pub ok_facing: bool,
}

/// What the shell measured at the release of a panel drag.
#[derive(Debug)]
pub struct FrameDrop {
    /// The pointer travelled.
    pub moved: bool,
    /// The reshaped panel is a panel.
    pub valid: bool,
    /// The dragged border moved.
    pub edge_moved: bool,
    /// For each layer, its panels.
    pub sibs: Vec<Vec<SibHit>>,
    /// Gutters are kept.
    pub align: bool,
    /// The widest gap that is a gutter.
    pub reach: u32,
    /// The widest gap that counts as the nearest one.
    pub limit: u32,
    /// The shell's names for the panels of each layer behind the drag.
    pub frames: Vec<u64>,
    /// The whole pixels that a panel drag moves its art by.
    pub dx: i32,
    pub dy: i32,
}

/// Does the panel share the dragged border? A border is shared with two
/// vertices, or with one between its ends; a corner that only touches its end
/// is another panel's.
pub open spec fn shares(s: SibHit) -> bool {
    s.on_edge > 0 && !(s.on_edge == 1 && s.at_end)
}

/// Does the panel face the border across the nearest gutter?
pub open spec fn faces(s: SibHit, nearest: Option<u32>, align: bool, reach: u32, limit: u32) -> bool {
    &&& align
    &&& nearest matches Some(n) && floats::finite(n) && floats::at_most(n, reach)
    &&& s.facing matches Some(d) && !floats::below(limit, d)
}

/// How a dragged border takes another panel along.
#[derive(Clone, Copy, PartialEq, Eq, Structural, Debug)]
pub enum Pull {
    /// Not at all.
    Stays,
    /// With the vertices that lie on the border.
    Shares,
    /// With the vertices that face the border across the gutter.
    Faces,
}

/// How the border takes the panel along. One that shares the border is not
/// across a gutter from it, and does not move twice.
pub open spec fn pull(s: SibHit, nearest: Option<u32>, align: bool, reach: u32, limit: u32) -> Pull {
    if shares(s) {
        Pull::Shares
    } else if faces(s, nearest, align, reach, limit) {
        Pull::Faces
    } else {
        Pull::Stays
    }
}

fn pull_of(s: SibHit, nearest: Option<u32>, align: bool, reach: u32, limit: u32) -> (r: Pull)
    ensures
        r == pull(s, nearest, align, reach, limit),
{
    if s.on_edge > 0 && !(s.on_edge == 1 && s.at_end) {
        return Pull::Shares;
    }
    let near = match nearest {
        Some(n) => floats::is_finite(n) && floats::is_at_most(n, reach),
        None => false,
    };
    let within = match s.facing {
        Some(d) => !floats::is_below(limit, d),
        None => false,
    };
    if align && near && within {
        Pull::Faces
    } else {
        Pull::Stays
    }
}

/// How the border that is dragged takes panel `si` of layer `li` along: the
/// dragged panel itself is not taken, nor is anything but a panel.
pub open spec fn pulled(
    layers: Seq<Layer>,
    sibs: Seq<Vec<SibHit>>,
    layer: int,
    frame: int,
    align: bool,
    reach: u32,
    limit: u32,
    li: int,
    si: int,
) -> Pull {
    if !(layers[li].kind is Frame) || (li == layer && si == frame) {
        Pull::Stays
    } else {
        pull(
            sibs[li]@[si],
            nearest_gap(layers, sibs, layer, frame, layers.len() as int),
            align,
            reach,
            limit,
        )
    }
}

/// For each panel of each layer, how the border that is dragged takes it along.
pub fn border_pulls(
    layers: &Vec<Layer>,
    sibs: &Vec<Vec<SibHit>>,
    layer: usize,
    frame: usize,
    align: bool,
    reach: u32,
    limit: u32,
) -> (r: Vec<Vec<Pull>>)
    requires
        sibs@.len() == layers@.len(),
    ensures
        r@.len() == layers@.len(),
        forall|li: int|
            0 <= li < r@.len() ==> {
                &&& (#[trigger] r@[li])@.len() == sibs@[li]@.len()
                &&& forall|si: int|
                    0 <= si < r@[li]@.len() ==> #[trigger] r@[li]@[si] == pulled(
                        layers@,
                        sibs@,
                        layer as int,
                        frame as int,
                        align,
                        reach,
                        limit,
                        li,
                        si,
                    )
            },
{
    let nearest = find_gap(layers, sibs, layer, frame);
    let mut out: Vec<Vec<Pull>> = Vec::new();
    while out.len() < layers.len()
        invariant
            out@.len() <= layers@.len() == sibs@.len(),
            nearest == nearest_gap(layers@, sibs@, layer as int, frame as int, layers@.len() as int),
            forall|li: int|
                0 <= li < out@.len() ==> {
                    &&& (#[trigger] out@[li])@.len() == sibs@[li]@.len()
                    &&& forall|si: int|
                        0 <= si < out@[li]@.len() ==> #[trigger] out@[li]@[si] == pulled(
                            layers@,
                            sibs@,
                            layer as int,
                            frame as int,
                            align,
                            reach,
                            limit,
                            li,
                            si,
                        )
                },
        decreases layers@.len() - out@.len(),
    {
        let li: usize = out.len();
        let mut row: Vec<Pull> = Vec::new();
        while row.len() < sibs[li].len()
            invariant
                li < layers@.len() == sibs@.len(),
                row@.len() <= sibs@[li as int]@.len(),
                nearest == nearest_gap(layers@, sibs@, layer as int, frame as int, layers@.len() as int),
                forall|si: int|
                    0 <= si < row@.len() ==> #[trigger] row@[si] == pulled(
                        layers@,
                        sibs@,
                        layer as int,
                        frame as int,
                        align,
                        reach,
                        limit,
                        li as int,
                        si,
                    ),
            decreases sibs@[li as int]@.len() - row@.len(),
        {
            let si: usize = row.len();
            row.push(
                if !layers[li].is_frame() || (li == layer && si == frame) {
                    Pull::Stays
                } else {
                    pull_of(sibs[li][si], nearest, align, reach, limit)
                },
            );
        }
        out.push(row);
    }
    out
}

/// Is the panel taken along?
pub open spec fn taken(s: SibHit, nearest: Option<u32>, d: FrameDrop) -> bool {
    !(pull(s, nearest, d.align, d.reach, d.limit) is Stays)
}

/// Is the panel taken along, and broken by it?
pub open spec fn breaks(s: SibHit, nearest: Option<u32>, d: FrameDrop) -> bool {
    match pull(s, nearest, d.align, d.reach, d.limit) {
        Pull::Stays => false,
        Pull::Shares => !s.ok_shared,
        Pull::Faces => !s.ok_facing,
    }
}

/// The nearest gap among the first `m` panels of one layer; `skip` is the
/// dragged panel.
pub open spec fn near_in(v: Seq<SibHit>, skip: Option<int>, m: int) -> Option<u32>
    decreases m,
{
    if m <= 0 {
        None
    } else {
        let before = near_in(v, skip, m - 1);
        if Some(m - 1) != skip && v[m - 1].facing is Some && v[m - 1].apart {
            nearer(before, v[m - 1].facing->0)
        } else {
            before
        }
    }
}

/// The nearer of a gap and one more.
pub open spec fn nearer(a: Option<u32>, d: u32) -> Option<u32> {
    match a {
        Some(x) => if floats::below(d, x) { Some(d) } else { Some(x) },
        None => Some(d),
    }
}

/// The panel of this layer that is dragged itself.
pub open spec fn skip_in(li: int, layer: int, frame: int) -> Option<int> {
    if li == layer {
        Some(frame)
    } else {
        None
    }
}

/// The nearest gap among the panels of the first `n` layers.
pub open spec fn nearest_gap(layers: Seq<Layer>, sibs: Seq<Vec<SibHit>>, layer: int, frame: int, n: int) -> Option<u32>
    decreases n,
{
    if n <= 0 {
        None
    } else {
        let before = nearest_gap(layers, sibs, layer, frame, n - 1);
        if layers[n - 1].kind is Frame {
            match near_in(sibs[n - 1]@, skip_in(n - 1, layer, frame), sibs[n - 1]@.len() as int) {
                Some(d) => nearer(before, d),
                None => before,
            }
        } else {
            before
        }
    }
}

/// The nearest gap that the dragged border faces.
pub fn find_gap(layers: &Vec<Layer>, sibs: &Vec<Vec<SibHit>>, layer: usize, frame: usize) -> (r: Option<u32>)
    requires
        sibs@.len() == layers@.len(),
    ensures
        r == nearest_gap(layers@, sibs@, layer as int, frame as int, layers@.len() as int),
{
    let mut best: Option<u32> = None;
    let mut n: usize = 0;
    while n < layers.len()
        invariant
            n <= layers@.len() == sibs@.len(),
            best == nearest_gap(layers@, sibs@, layer as int, frame as int, n as int),
        decreases layers@.len() - n,
    {
        if layers[n].is_frame() {
            let skip: Option<usize> = if n == layer { Some(frame) } else { None };
            let near = gap_in(&sibs[n], skip);
            if let Some(d) = near {
                best = min_gap(best, d);
            }
        }
        n = n + 1;
    }
    best
}

fn min_gap(a: Option<u32>, d: u32) -> (r: Option<u32>)
    ensures
        r == nearer(a, d),
{
    match a {
        Some(x) => if floats::is_below(d, x) { Some(d) } else { Some(x) },
        None => Some(d),
    }
}

fn gap_in(v: &Vec<SibHit>, skip: Option<usize>) -> (r: Option<u32>)
    ensures
        r == near_in(v@, (match skip { Some(i) => Some(i as int), None => None }), v@.len() as int),
{
    let ghost sk: Option<int> = match skip {
        Some(i) => Some(i as int),
        None => None,
    };
    let mut best: Option<u32> = None;
    let mut m: usize = 0;
    while m < v.len()
        invariant
            m <= v@.len(),
            sk == (match skip {
                Some(i) => Some(i as int),
                None => None,
            }),
            best == near_in(v@, sk, m as int),
        decreases v@.len() - m,
    {
        let own = match skip {
            Some(i) => i == m,
            None => false,
        };
        if !own && v[m].apart {
            if let Some(d) = v[m].facing {
                best = min_gap(best, d);
            }
        }
        m = m + 1;
    }
    best
}

/// Is any of the first `m` panels taken along?
pub open spec fn any_taken(v: Seq<SibHit>, skip: Option<int>, nearest: Option<u32>, d: FrameDrop, m: int) -> bool
    decreases m,
{
    m > 0 && ((Some(m - 1) != skip && taken(v[m - 1], nearest, d)) || any_taken(v, skip, nearest, d, m - 1))
}

/// Is any of the first `m` panels broken?
pub open spec fn any_broken(v: Seq<SibHit>, skip: Option<int>, nearest: Option<u32>, d: FrameDrop, m: int) -> bool
    decreases m,
{
    m > 0 && ((Some(m - 1) != skip && breaks(v[m - 1], nearest, d)) || any_broken(v, skip, nearest, d, m - 1))
}

fn scan(v: &Vec<SibHit>, skip: Option<usize>, nearest: Option<u32>, d: &FrameDrop) -> (r: (bool, bool))
    ensures
        ({
            let sk = match skip {
                Some(i) => Some(i as int),
                None => None,
            };
            &&& r.0 == any_taken(v@, sk, nearest, *d, v@.len() as int)
            &&& r.1 == any_broken(v@, sk, nearest, *d, v@.len() as int)
        }),
{
    let ghost sk: Option<int> = match skip {
        Some(i) => Some(i as int),
        None => None,
    };
    let mut any = false;
    let mut bad = false;
    let mut m: usize = 0;
    while m < v.len()
        invariant
            m <= v@.len(),
            sk == (match skip {
                Some(i) => Some(i as int),
                None => None,
            }),
            any == any_taken(v@, sk, nearest, *d, m as int),
            bad == any_broken(v@, sk, nearest, *d, m as int),
        decreases v@.len() - m,
    {
        let s: SibHit = v[m];
        let own = match skip {
            Some(i) => i == m,
            None => false,
        };
        if !own {
            match pull_of(s, nearest, d.align, d.reach, d.limit) {
                Pull::Stays => {},
                Pull::Shares => {
                    any = true;
                    bad = bad || !s.ok_shared;
                },
                Pull::Faces => {
                    any = true;
                    bad = bad || !s.ok_facing;
                },
            }
        }
        m = m + 1;
    }
    (any, bad)
}

/// Does the border drag break a panel on the first `n` layers?
pub open spec fn gutter_breaks(layers: Seq<Layer>, g: ObjectDrag, d: FrameDrop, nearest: Option<u32>, n: int) -> bool
    decreases n,
{
    n > 0 && ((layers[n - 1].kind is Frame && any_broken(
        d.sibs@[n - 1]@,
        skip_in(n - 1, g.layer as int, g.frame as int),
        nearest,
        d,
        d.sibs@[n - 1]@.len() as int,
    )) || gutter_breaks(layers, g, d, nearest, n - 1))
}

/// The commits of the other layers whose panels the border takes along, among
/// the first `n` layers.
pub open spec fn gutter_cmds(layers: Seq<Layer>, g: ObjectDrag, d: FrameDrop, nearest: Option<u32>, n: int) -> Seq<AppCmd>
    decreases n,
{
    if n <= 0 {
        seq![]
    } else {
        let before = gutter_cmds(layers, g, d, nearest, n - 1);
        if n - 1 != g.layer && layers[n - 1].kind is Frame && any_taken(
            d.sibs@[n - 1]@,
            None,
            nearest,
            d,
            d.sibs@[n - 1]@.len() as int,
        ) {
            before.push(AppCmd::FrameCommit { layer: (n - 1) as usize, frames: d.frames@[n - 1] })
        } else {
            before
        }
    }
}

/// What a panel drag came to.
#[derive(Clone, Copy, PartialEq, Eq, Structural, Debug)]
pub enum FrameEnd {
    Nothing,
    /// The panel is reshaped, and its art moves by this much.
    Done { dx: i32, dy: i32 },
}

/// Is there such a panel?
pub open spec fn has_frame(layers: Seq<Layer>, layer: int, frame: int) -> bool {
    0 <= layer < layers.len() && (layers[layer].kind matches LayerKind::Frame(fs) && frame < fs.frames)
}

/// Are there panels on this layer?
pub open spec fn frame_layer(layers: Seq<Layer>, layer: int) -> bool {
    0 <= layer < layers.len() && layers[layer].kind is Frame
}

impl App {
    /// Does the drag carry a border?
    pub open spec fn drags_border(g: ObjectDrag, d: FrameDrop) -> bool {
        g.mode is Edge && d.edge_moved
    }

    /// What the release of a panel drag makes of the state.
    pub open spec fn frame_dropped(self, after: App, r: FrameEnd, g: ObjectDrag, d: FrameDrop) -> bool {
        let layers = self.doc.layers@;
        let n = layers.len() as int;
        let nearest = nearest_gap(layers, d.sibs@, g.layer as int, g.frame as int, n);
        &&& after == (App {
            shell: (Shell { status: after.shell.status, cmds: after.shell.cmds, needs_redraw: true, ..self.shell }),
            ..self
        })
        &&& if !d.moved {
            r is Nothing && after.shell.cmds == self.shell.cmds && after.shell.status == self.shell.status
        } else if !d.valid || !frame_layer(layers, g.layer as int) {
            &&& r is Nothing
            &&& after.shell.cmds == self.shell.cmds
            &&& after.shell.status@ == "that edit would break the panel shape — reverted"@
        } else if !has_frame(layers, g.layer as int, g.frame as int) {
            r is Nothing && after.shell.cmds == self.shell.cmds && after.shell.status == self.shell.status
        } else if App::drags_border(g, d) && gutter_breaks(layers, g, d, nearest, n) {
            &&& r is Nothing
            &&& after.shell.cmds == self.shell.cmds
            &&& after.shell.status@ == "that edit would break a neighbouring panel — reverted"@
        } else {
            let own = AppCmd::FrameCommit { layer: g.layer, frames: d.frames@[g.layer as int] };
            let rest = if App::drags_border(g, d) { gutter_cmds(layers, g, d, nearest, n) } else { seq![] };
            &&& r == (if g.mode is MoveWhole { FrameEnd::Done { dx: d.dx, dy: d.dy } } else { FrameEnd::Done { dx: 0, dy: 0 } })
            &&& after.shell.cmds@ == self.shell.cmds@.push(own) + rest
            &&& after.shell.status == self.shell.status
        }
    }

    fn has_frame_there(&self, layer: usize, frame: usize) -> (r: bool)
        ensures
            r == has_frame(self.doc.layers@, layer as int, frame as int),
    {
        if layer >= self.doc.layers.len() {
            return false;
        }
        match &self.doc.layers[layer].kind {
            LayerKind::Frame(fs) => frame < fs.frames,
            _ => false,
        }
    }

    fn border_breaks(&self, g: &ObjectDrag, d: &FrameDrop, nearest: Option<u32>) -> (r: bool)
        requires
            d.sibs@.len() == self.doc.layers@.len(),
        ensures
            r == gutter_breaks(self.doc.layers@, *g, *d, nearest, self.doc.layers@.len() as int),
    {
        let mut bad = false;
        let mut n: usize = 0;
        while n < self.doc.layers.len()
            invariant
                n <= self.doc.layers@.len() == d.sibs@.len(),
                bad == gutter_breaks(self.doc.layers@, *g, *d, nearest, n as int),
            decreases self.doc.layers@.len() - n,
        {
            if self.doc.layers[n].is_frame() {
                let skip: Option<usize> = if n == g.layer { Some(g.frame) } else { None };
                let s = scan(&d.sibs[n], skip, nearest, d);
                if s.1 {
                    bad = true;
                }
            }
            n = n + 1;
        }
        bad
    }

    fn push_gutter(&mut self, g: &ObjectDrag, d: &FrameDrop, nearest: Option<u32>)
        requires
            d.sibs@.len() == old(self).doc.layers@.len(),
            d.frames@.len() == old(self).doc.layers@.len(),
        ensures
            *final(self) == (App { shell: (Shell { cmds: final(self).shell.cmds, ..old(self).shell }), ..*old(self) }),
            final(self).shell.cmds@ == old(self).shell.cmds@ + gutter_cmds(
                old(self).doc.layers@,
                *g,
                *d,
                nearest,
                old(self).doc.layers@.len() as int,
            ),
    {
        let ghost before = self.shell.cmds@;
        let mut n: usize = 0;
        proof {
            assert(before + gutter_cmds(self.doc.layers@, *g, *d, nearest, 0) =~= before);
        }
        while n < self.doc.layers.len()
            invariant
                n <= self.doc.layers@.len() == d.sibs@.len(),
                d.frames@.len() == self.doc.layers@.len(),
                before == old(self).shell.cmds@,
                *self == (App { shell: (Shell { cmds: self.shell.cmds, ..old(self).shell }), ..*old(self) }),
                self.shell.cmds@ == before + gutter_cmds(self.doc.layers@, *g, *d, nearest, n as int),
            decreases self.doc.layers@.len() - n,
        {
            if n != g.layer && self.doc.layers[n].is_frame() {
                let s = scan(&d.sibs[n], None, nearest, d);
                if s.0 {
                    self.shell.cmds.push(AppCmd::FrameCommit { layer: n, frames: d.frames[n] });
                    proof {
                        assert(self.shell.cmds@ =~= before + gutter_cmds(self.doc.layers@, *g, *d, nearest, n + 1));
                    }
                }
            }
            n = n + 1;
        }
    }

    /// The release of a panel drag. A dragged border takes the panels along
    /// that share it, and with kept gutters those that face it; where one of
    /// them would break, nothing is committed at all.
    pub fn finish_object_drag(&mut self, g: ObjectDrag, d: FrameDrop) -> (r: FrameEnd)
        requires
            d.sibs@.len() == old(self).doc.layers@.len(),
            d.frames@.len() == old(self).doc.layers@.len(),
        ensures
            old(self).frame_dropped(*final(self), r, g, d),
            old(self).wf() ==> final(self).wf(),
    {
        self.shell.needs_redraw = true;
        if !d.moved {
            return FrameEnd::Nothing;
        }
        let on_layer = g.layer < self.doc.layers.len() && self.doc.layers[g.layer].is_frame();
        if !d.valid || !on_layer {
            self.set_status("that edit would break the panel shape — reverted");
            return FrameEnd::Nothing;
        }
        if !self.has_frame_there(g.layer, g.frame) {
            return FrameEnd::Nothing;
        }
        let border = matches!(g.mode, ObjectDragMode::Edge(_)) && d.edge_moved;
        let nearest = find_gap(&self.doc.layers, &d.sibs, g.layer, g.frame);
        if border && self.border_breaks(&g, &d, nearest) {
            self.set_status("that edit would break a neighbouring panel — reverted");
            return FrameEnd::Nothing;
        }
        self.push_cmd(AppCmd::FrameCommit { layer: g.layer, frames: d.frames[g.layer] });
        if border {
            self.push_gutter(&g, &d, nearest);
        } else {
            proof {
                assert(self.shell.cmds@ =~= self.shell.cmds@ + Seq::<AppCmd>::empty());
            }
        }
        if matches!(g.mode, ObjectDragMode::MoveWhole) {
            FrameEnd::Done { dx: d.dx, dy: d.dy }
        } else {
            FrameEnd::Done { dx: 0, dy: 0 }
        }
    }
}

/// A border drag is committed as one gesture: with a panel that would break
/// anywhere on the page, nothing is.
pub proof fn law_a_broken_panel_stops_the_drag(a: App, b: App, r: FrameEnd, g: ObjectDrag, d: FrameDrop)
    requires
        a.frame_dropped(b, r, g, d),
        App::drags_border(g, d),
        gutter_breaks(
            a.doc.layers@,
            g,
            d,
            nearest_gap(a.doc.layers@, d.sibs@, g.layer as int, g.frame as int, a.doc.layers@.len() as int),
            a.doc.layers@.len() as int,
        ),
    ensures
        r is Nothing,
        b.shell.cmds@ == a.shell.cmds@,
        b.doc == a.doc,
{
}

/// A corner of another panel that only touches the end of the border is not
/// taken along by it.
pub proof fn law_a_touching_corner_stays(s: SibHit, d: FrameDrop)
    requires
        s.on_edge == 1,
        s.at_end,
        s.facing is None,
    ensures
        forall|nearest: Option<u32>| !#[trigger] taken(s, nearest, d),
{
}

/// Without kept gutters, only the panels that share the border go along.
pub proof fn law_gutters_close_when_not_kept(s: SibHit, nearest: Option<u32>, d: FrameDrop)
    requires
        !d.align,
    ensures
        taken(s, nearest, d) == shares(s),
{
}

/// The four sides of a box, in the order of the coordinates.
#[derive(Clone, Copy, PartialEq, Eq, Structural, Debug)]
pub struct Edges {
    pub left: i64,
    pub right: i64,
    pub top: i64,
    pub bottom: i64,
}

/// The borders that a panel can be expanded to, if there are any.
#[derive(Clone, Copy, PartialEq, Eq, Structural, Debug)]
pub struct Targets {
    pub left: Option<i64>,
    pub right: Option<i64>,
    pub top: Option<i64>,
    pub bottom: Option<i64>,
}

/// Does this panel count as a neighbour? Every panel on a visible layer but
/// the selected one does.
pub open spec fn neighbour(layers: Seq<Layer>, layer: int, fi: int, li: int, si: int) -> bool {
    &&& 0 <= li < layers.len()
    &&& layers[li].look.visible
    &&& layers[li].kind is Frame
    &&& !(li == layer && si == fi)
}

/// Is there an upright line here: a side of a page guide or of a neighbour?
pub open spec fn upright(layers: Seq<Layer>, boxes: Seq<Vec<Edges>>, guides: Seq<Edges>, layer: int, fi: int, x: i64) -> bool {
    ||| exists|k: int| 0 <= k < guides.len() && ((#[trigger] guides[k]).left == x || guides[k].right == x)
    ||| exists|li: int, si: int|
        neighbour(layers, layer, fi, li, si) && 0 <= si < boxes[li]@.len()
            && ((#[trigger] boxes[li]@[si]).left == x || boxes[li]@[si].right == x)
}

/// Is there a level line here: a side of a page guide or of a neighbour?
pub open spec fn level(layers: Seq<Layer>, boxes: Seq<Vec<Edges>>, guides: Seq<Edges>, layer: int, fi: int, y: i64) -> bool {
    ||| exists|k: int| 0 <= k < guides.len() && ((#[trigger] guides[k]).top == y || guides[k].bottom == y)
    ||| exists|li: int, si: int|
        neighbour(layers, layer, fi, li, si) && 0 <= si < boxes[li]@.len()
            && ((#[trigger] boxes[li]@[si]).top == y || boxes[li]@[si].bottom == y)
}

/// Is `t` the greatest line below the limit?
pub open spec fn greatest_below(t: Option<i64>, limit: i64, line: spec_fn(i64) -> bool) -> bool {
    match t {
        Some(m) => line(m) && m < limit && forall|x: i64| #[trigger] line(x) && x < limit ==> x <= m,
        None => forall|x: i64| #[trigger] line(x) ==> x >= limit,
    }
}

/// Is `t` the least line above the limit?
pub open spec fn least_above(t: Option<i64>, limit: i64, line: spec_fn(i64) -> bool) -> bool {
    match t {
        Some(m) => line(m) && m > limit && forall|x: i64| #[trigger] line(x) && x > limit ==> m <= x,
        None => forall|x: i64| #[trigger] line(x) ==> x <= limit,
    }
}

/// Is this one of the lines?
spec fn among(v: Seq<i64>, x: i64) -> bool {
    exists|k: int| 0 <= k < v.len() && v[k] == x
}

/// The upright and level lines on the page.
fn page_lines(layers: &Vec<Layer>, boxes: &Vec<Vec<Edges>>, guides: &Vec<Edges>, layer: usize, fi: usize) -> (r: (Vec<i64>, Vec<i64>))
    requires
        boxes@.len() == layers@.len(),
    ensures
        forall|x: i64| #[trigger] among(r.0@, x) == upright(layers@, boxes@, guides@, layer as int, fi as int, x),
        forall|x: i64| #[trigger] among(r.1@, x) == level(layers@, boxes@, guides@, layer as int, fi as int, x),
{
    let mut v: Vec<i64> = Vec::new();
    let mut h: Vec<i64> = Vec::new();
    push_sides(&mut v, &mut h, guides, None);
    let ghost lv = layers@;
    let mut li: usize = 0;
    proof {
        assert forall|x: i64| #[trigger] among(v@, x) == upright_upto(lv, boxes@, guides@, layer as int, fi as int, x, 0) by {}
        assert forall|x: i64| #[trigger] among(h@, x) == level_upto(lv, boxes@, guides@, layer as int, fi as int, x, 0) by {}
    }
    while li < layers.len()
        invariant
            li <= layers@.len() == boxes@.len(),
            forall|x: i64| #[trigger] among(v@, x) == upright_upto(layers@, boxes@, guides@, layer as int, fi as int, x, li as int),
            forall|x: i64| #[trigger] among(h@, x) == level_upto(layers@, boxes@, guides@, layer as int, fi as int, x, li as int),
        decreases layers@.len() - li,
    {
        let ghost v0 = v@;
        let ghost h0 = h@;
        if layers[li].look.visible && layers[li].is_frame() {
            let skip: Option<usize> = if li == layer { Some(fi) } else { None };
            push_sides(&mut v, &mut h, &boxes[li], skip);
            proof {
                assert forall|x: i64| #[trigger] among(v@, x) == upright_upto(
                    layers@,
                    boxes@,
                    guides@,
                    layer as int,
                    fi as int,
                    x,
                    li + 1,
                ) by {
                    lemma_upright_step(layers@, boxes@, guides@, layer as int, fi as int, x, li as int, v0, v@);
                }
                assert forall|x: i64| #[trigger] among(h@, x) == level_upto(
                    layers@,
                    boxes@,
                    guides@,
                    layer as int,
                    fi as int,
                    x,
                    li + 1,
                ) by {
                    lemma_level_step(layers@, boxes@, guides@, layer as int, fi as int, x, li as int, h0, h@);
                }
            }
        } else {
            proof {
                assert forall|x: i64| #[trigger] among(v@, x) == upright_upto(
                    layers@,
                    boxes@,
                    guides@,
                    layer as int,
                    fi as int,
                    x,
                    li + 1,
                ) by {
                    lemma_upright_skip(layers@, boxes@, guides@, layer as int, fi as int, x, li as int);
                }
                assert forall|x: i64| #[trigger] among(h@, x) == level_upto(
                    layers@,
                    boxes@,
                    guides@,
                    layer as int,
                    fi as int,
                    x,
                    li + 1,
                ) by {
                    lemma_level_skip(layers@, boxes@, guides@, layer as int, fi as int, x, li as int);
                }
            }
        }
        li = li + 1;
    }
    (v, h)
}

/// Is there an upright line here, counting the neighbours of the first `n`
/// layers?
spec fn upright_upto(layers: Seq<Layer>, boxes: Seq<Vec<Edges>>, guides: Seq<Edges>, layer: int, fi: int, x: i64, n: int) -> bool {
    ||| exists|k: int| 0 <= k < guides.len() && ((#[trigger] guides[k]).left == x || guides[k].right == x)
    ||| exists|li: int, si: int|
        li < n && neighbour(layers, layer, fi, li, si) && 0 <= si < boxes[li]@.len()
            && ((#[trigger] boxes[li]@[si]).left == x || boxes[li]@[si].right == x)
}

spec fn level_upto(layers: Seq<Layer>, boxes: Seq<Vec<Edges>>, guides: Seq<Edges>, layer: int, fi: int, y: i64, n: int) -> bool {
    ||| exists|k: int| 0 <= k < guides.len() && ((#[trigger] guides[k]).top == y || guides[k].bottom == y)
    ||| exists|li: int, si: int|
        li < n && neighbour(layers, layer, fi, li, si) && 0 <= si < boxes[li]@.len()
            && ((#[trigger] boxes[li]@[si]).top == y || boxes[li]@[si].bottom == y)
}

/// Has one of these boxes an upright side here, `skip` aside?
spec fn upright_in(b: Seq<Edges>, skip: Option<int>, x: i64) -> bool {
    exists|k: int| 0 <= k < b.len() && Some(k) != skip && ((#[trigger] b[k]).left == x || b[k].right == x)
}

spec fn level_in(b: Seq<Edges>, skip: Option<int>, y: i64) -> bool {
    exists|k: int| 0 <= k < b.len() && Some(k) != skip && ((#[trigger] b[k]).top == y || b[k].bottom == y)
}

proof fn lemma_upright_step(layers: Seq<Layer>, boxes: Seq<Vec<Edges>>, guides: Seq<Edges>, layer: int, fi: int, x: i64, li: int, v0: Seq<i64>, v1: Seq<i64>)
    requires
        0 <= li < layers.len(),
        layers[li].look.visible,
        layers[li].kind is Frame,
        among(v0, x) == upright_upto(layers, boxes, guides, layer, fi, x, li),
        among(v1, x) == (among(v0, x) || upright_in(boxes[li]@, skip_in(li, layer, fi), x)),
    ensures
        among(v1, x) == upright_upto(layers, boxes, guides, layer, fi, x, li + 1),
{
    let sk = skip_in(li, layer, fi);
    if upright_in(boxes[li]@, sk, x) {
        let k = choose|k: int|
            0 <= k < boxes[li]@.len() && Some(k) != sk && ((#[trigger] boxes[li]@[k]).left == x || boxes[li]@[k].right == x);
        assert(neighbour(layers, layer, fi, li, k));
        assert(boxes[li]@[k].left == x || boxes[li]@[k].right == x);
    }
    if upright_upto(layers, boxes, guides, layer, fi, x, li + 1) && !upright_upto(layers, boxes, guides, layer, fi, x, li) {
        let (a, s) = choose|a: int, s: int|
            a < li + 1 && neighbour(layers, layer, fi, a, s) && 0 <= s < boxes[a]@.len()
                && ((#[trigger] boxes[a]@[s]).left == x || boxes[a]@[s].right == x);
        assert(a == li);
        assert(Some(s) != sk);
    }
}

proof fn lemma_level_step(layers: Seq<Layer>, boxes: Seq<Vec<Edges>>, guides: Seq<Edges>, layer: int, fi: int, x: i64, li: int, v0: Seq<i64>, v1: Seq<i64>)
    requires
        0 <= li < layers.len(),
        layers[li].look.visible,
        layers[li].kind is Frame,
        among(v0, x) == level_upto(layers, boxes, guides, layer, fi, x, li),
        among(v1, x) == (among(v0, x) || level_in(boxes[li]@, skip_in(li, layer, fi), x)),
    ensures
        among(v1, x) == level_upto(layers, boxes, guides, layer, fi, x, li + 1),
{
    let sk = skip_in(li, layer, fi);
    if level_in(boxes[li]@, sk, x) {
        let k = choose|k: int|
            0 <= k < boxes[li]@.len() && Some(k) != sk && ((#[trigger] boxes[li]@[k]).top == x || boxes[li]@[k].bottom == x);
        assert(neighbour(layers, layer, fi, li, k));
        assert(boxes[li]@[k].top == x || boxes[li]@[k].bottom == x);
    }
    if level_upto(layers, boxes, guides, layer, fi, x, li + 1) && !level_upto(layers, boxes, guides, layer, fi, x, li) {
        let (a, s) = choose|a: int, s: int|
            a < li + 1 && neighbour(layers, layer, fi, a, s) && 0 <= s < boxes[a]@.len()
                && ((#[trigger] boxes[a]@[s]).top == x || boxes[a]@[s].bottom == x);
        assert(a == li);
        assert(Some(s) != sk);
    }
}

proof fn lemma_upright_skip(layers: Seq<Layer>, boxes: Seq<Vec<Edges>>, guides: Seq<Edges>, layer: int, fi: int, x: i64, li: int)
    requires
        0 <= li < layers.len(),
        !(layers[li].look.visible && layers[li].kind is Frame),
    ensures
        upright_upto(layers, boxes, guides, layer, fi, x, li) == upright_upto(layers, boxes, guides, layer, fi, x, li + 1),
{
    if upright_upto(layers, boxes, guides, layer, fi, x, li + 1) && !upright_upto(layers, boxes, guides, layer, fi, x, li) {
        let (a, s) = choose|a: int, s: int|
            a < li + 1 && neighbour(layers, layer, fi, a, s) && 0 <= s < boxes[a]@.len()
                && ((#[trigger] boxes[a]@[s]).left == x || boxes[a]@[s].right == x);
        assert(a == li);
    }
}

proof fn lemma_level_skip(layers: Seq<Layer>, boxes: Seq<Vec<Edges>>, guides: Seq<Edges>, layer: int, fi: int, x: i64, li: int)
    requires
        0 <= li < layers.len(),
        !(layers[li].look.visible && layers[li].kind is Frame),
    ensures
        level_upto(layers, boxes, guides, layer, fi, x, li) == level_upto(layers, boxes, guides, layer, fi, x, li + 1),
{
    if level_upto(layers, boxes, guides, layer, fi, x, li + 1) && !level_upto(layers, boxes, guides, layer, fi, x, li) {
        let (a, s) = choose|a: int, s: int|
            a < li + 1 && neighbour(layers, layer, fi, a, s) && 0 <= s < boxes[a]@.len()
                && ((#[trigger] boxes[a]@[s]).top == x || boxes[a]@[s].bottom == x);
        assert(a == li);
    }
}

/// Puts the sides of each box behind the lists, `skip` aside.
fn push_sides(v: &mut Vec<i64>, h: &mut Vec<i64>, b: &Vec<Edges>, skip: Option<usize>)
    ensures
        ({
            let sk = match skip {
                Some(i) => Some(i as int),
                None => None,
            };
            &&& forall|x: i64| #[trigger] among(final(v)@, x) == (among(old(v)@, x) || upright_in(b@, sk, x))
            &&& forall|x: i64| #[trigger] among(final(h)@, x) == (among(old(h)@, x) || level_in(b@, sk, x))
        }),
{
    let ghost sk: Option<int> = match skip {
        Some(i) => Some(i as int),
        None => None,
    };
    let mut k: usize = 0;
    while k < b.len()
        invariant
            k <= b@.len(),
            sk == (match skip {
                Some(i) => Some(i as int),
                None => None,
            }),
            forall|x: i64| #[trigger] among(v@, x) == (among(old(v)@, x) || upright_in(b@.take(k as int), sk, x)),
            forall|x: i64| #[trigger] among(h@, x) == (among(old(h)@, x) || level_in(b@.take(k as int), sk, x)),
        decreases b@.len() - k,
    {
        let own = match skip {
            Some(i) => i == k,
            None => false,
        };
        let ghost v0 = v@;
        let ghost h0 = h@;
        let e: Edges = b[k];
        if !own {
            v.push(e.left);
            v.push(e.right);
            h.push(e.top);
            h.push(e.bottom);
        }
        proof {
            assert forall|x: i64| #[trigger] among(v@, x) == (among(old(v)@, x) || upright_in(b@.take(k + 1), sk, x)) by {
                lemma_sides_step(v0, v@, b@, sk, k as int, x, e.left, e.right, !own);
                lemma_upright_grow(b@, sk, k as int, x);
            }
            assert forall|x: i64| #[trigger] among(h@, x) == (among(old(h)@, x) || level_in(b@.take(k + 1), sk, x)) by {
                lemma_sides_step(h0, h@, b@, sk, k as int, x, e.top, e.bottom, !own);
                lemma_level_grow(b@, sk, k as int, x);
            }
        }
        k = k + 1;
    }
    proof {
        assert(b@.take(k as int) =~= b@);
    }
}

/// Two lines more.
proof fn lemma_sides_step(v0: Seq<i64>, v1: Seq<i64>, b: Seq<Edges>, sk: Option<int>, k: int, x: i64, p: i64, q: i64, push: bool)
    requires
        push ==> v1 == v0.push(p).push(q),
        !push ==> v1 == v0,
    ensures
        among(v1, x) == (among(v0, x) || (push && (p == x || q == x))),
{
    if push {
        if among(v0, x) {
            let j = choose|j: int| 0 <= j < v0.len() && v0[j] == x;
            assert(v1[j] == x);
        }
        assert(v1[v0.len() as int] == p);
        assert(v1[v0.len() as int + 1] == q);
        if among(v1, x) {
            let j = choose|j: int| 0 <= j < v1.len() && v1[j] == x;
            if j < v0.len() {
                assert(v0[j] == x);
            }
        }
    }
}

proof fn lemma_upright_grow(b: Seq<Edges>, sk: Option<int>, k: int, x: i64)
    requires
        0 <= k < b.len(),
    ensures
        upright_in(b.take(k + 1), sk, x) == (upright_in(b.take(k), sk, x) || (Some(k) != sk && (b[k].left == x || b[k].right == x))),
{
    let s = b.take(k);
    let t = b.take(k + 1);
    assert(t[k] == b[k]);
    if upright_in(s, sk, x) {
        let j = choose|j: int| 0 <= j < s.len() && Some(j) != sk && ((#[trigger] s[j]).left == x || s[j].right == x);
        assert(t[j] == s[j]);
    }
    if upright_in(t, sk, x) {
        let j = choose|j: int| 0 <= j < t.len() && Some(j) != sk && ((#[trigger] t[j]).left == x || t[j].right == x);
        if j < k {
            assert(s[j] == t[j]);
        }
    }
}

proof fn lemma_level_grow(b: Seq<Edges>, sk: Option<int>, k: int, x: i64)
    requires
        0 <= k < b.len(),
    ensures
        level_in(b.take(k + 1), sk, x) == (level_in(b.take(k), sk, x) || (Some(k) != sk && (b[k].top == x || b[k].bottom == x))),
{
    let s = b.take(k);
    let t = b.take(k + 1);
    assert(t[k] == b[k]);
    if level_in(s, sk, x) {
        let j = choose|j: int| 0 <= j < s.len() && Some(j) != sk && ((#[trigger] s[j]).top == x || s[j].bottom == x);
        assert(t[j] == s[j]);
    }
    if level_in(t, sk, x) {
        let j = choose|j: int| 0 <= j < t.len() && Some(j) != sk && ((#[trigger] t[j]).top == x || t[j].bottom == x);
        if j < k {
            assert(s[j] == t[j]);
        }
    }
}

fn below(v: &Vec<i64>, limit: i64) -> (r: Option<i64>)
    ensures
        greatest_below(r, limit, |x: i64| among(v@, x)),
{
    let ghost line = |x: i64| among(v@, x);
    let mut best: Option<i64> = None;
    let mut k: usize = 0;
    while k < v.len()
        invariant
            k <= v@.len(),
            match best {
                Some(m) => {
                    &&& m < limit
                    &&& exists|j: int| 0 <= j < v@.len() && v@[j] == m
                    &&& forall|j: int| 0 <= j < k && #[trigger] v@[j] < limit ==> v@[j] <= m
                },
                None => forall|j: int| 0 <= j < k ==> #[trigger] v@[j] >= limit,
            },
        decreases v@.len() - k,
    {
        let x: i64 = v[k];
        if x < limit {
            best = match best {
                Some(m) => if x > m { Some(x) } else { Some(m) },
                None => Some(x),
            };
        }
        k = k + 1;
    }
    proof {
        if let Some(m) = best {
            assert(among(v@, m));
            assert(line(m));
        }
    }
    best
}

fn above(v: &Vec<i64>, limit: i64) -> (r: Option<i64>)
    ensures
        least_above(r, limit, |x: i64| among(v@, x)),
{
    let ghost line = |x: i64| among(v@, x);
    let mut best: Option<i64> = None;
    let mut k: usize = 0;
    while k < v.len()
        invariant
            k <= v@.len(),
            match best {
                Some(m) => {
                    &&& m > limit
                    &&& exists|j: int| 0 <= j < v@.len() && v@[j] == m
                    &&& forall|j: int| 0 <= j < k && #[trigger] v@[j] > limit ==> m <= v@[j]
                },
                None => forall|j: int| 0 <= j < k ==> #[trigger] v@[j] <= limit,
            },
        decreases v@.len() - k,
    {
        let x: i64 = v[k];
        if x > limit {
            best = match best {
                Some(m) => if x < m { Some(x) } else { Some(m) },
                None => Some(x),
            };
        }
        k = k + 1;
    }
    proof {
        if let Some(m) = best {
            assert(among(v@, m));
            assert(line(m));
        }
    }
    best
}

/// The border beyond each side of panel `fi` on layer `layer` that it can be
/// expanded to: the nearest side of a neighbour or of a page guide beyond the
/// limit, which stands a little outside the panel. A panel that is not there
/// has none.
pub fn frame_expand_targets(
    layers: &Vec<Layer>,
    boxes: &Vec<Vec<Edges>>,
    guides: &Vec<Edges>,
    layer: usize,
    fi: usize,
    limit: Edges,
) -> (r: Targets)
    requires
        boxes@.len() == layers@.len(),
    ensures
        !has_frame(layers@, layer as int, fi as int) ==> r == (Targets { left: None, right: None, top: None, bottom: None }),
        has_frame(layers@, layer as int, fi as int) ==> {
            let x = |x: i64| upright(layers@, boxes@, guides@, layer as int, fi as int, x);
            let y = |y: i64| level(layers@, boxes@, guides@, layer as int, fi as int, y);
            &&& greatest_below(r.left, limit.left, x)
            &&& least_above(r.right, limit.right, x)
            &&& greatest_below(r.top, limit.top, y)
            &&& least_above(r.bottom, limit.bottom, y)
        },
{
    let there = layer < layers.len() && (match &layers[layer].kind {
        LayerKind::Frame(fs) => fi < fs.frames,
        _ => false,
    });
    if !there {
        return Targets { left: None, right: None, top: None, bottom: None };
    }
    let (v, h) = page_lines(layers, boxes, guides, layer, fi);
    let r = Targets {
        left: below(&v, limit.left),
        right: above(&v, limit.right),
        top: below(&h, limit.top),
        bottom: above(&h, limit.bottom),
    };
    proof {
        let x = |x: i64| upright(layers@, boxes@, guides@, layer as int, fi as int, x);
        let y = |y: i64| level(layers@, boxes@, guides@, layer as int, fi as int, y);
        let av = |x: i64| among(v@, x);
        let ah = |x: i64| among(h@, x);
        assert forall|k: i64| #[trigger] x(k) == av(k) by {
            assert(among(v@, k) == upright(layers@, boxes@, guides@, layer as int, fi as int, k));
        }
        assert forall|k: i64| #[trigger] y(k) == ah(k) by {
            assert(among(h@, k) == level(layers@, boxes@, guides@, layer as int, fi as int, k));
        }
        assert(av =~= x);
        assert(ah =~= y);
    }
    r
}

/// What pressing an expand arrow came to.
#[derive(Clone, Copy, PartialEq, Eq, Structural, Debug)]
pub enum Expand {
    /// Nothing: the press goes on.
    Pass,
    /// The panel would collapse.
    Refused,
    Done,
}

/// Moves the vertices on the dragged side onto the border: sideways for the
/// left and right arrow, which are 0 and 1, and up or down for the others. Says
/// whether any moved.
pub fn expand_points(points: &mut Vec<Pt>, on_edge: &Vec<bool>, dir: usize, target: u32) -> (moved: bool)
    requires
        on_edge@.len() == old(points)@.len(),
    ensures
        final(points)@.len() == old(points)@.len(),
        forall|i: int|
            0 <= i < old(points)@.len() ==> #[trigger] final(points)@[i] == expanded(old(points)@[i], on_edge@[i], dir, target),
        moved == exists|i: int| 0 <= i < on_edge@.len() && #[trigger] on_edge@[i],
{
    let mut moved = false;
    let mut i: usize = 0;
    while i < points.len()
        invariant
            i <= points@.len() == on_edge@.len(),
            points@.len() == old(points)@.len(),
            forall|j: int| 0 <= j < i ==> #[trigger] points@[j] == expanded(old(points)@[j], on_edge@[j], dir, target),
            forall|j: int| i <= j < points@.len() ==> #[trigger] points@[j] == old(points)@[j],
            moved == exists|j: int| 0 <= j < i && #[trigger] on_edge@[j],
        decreases points@.len() - i,
    {
        let p: Pt = points[i];
        if on_edge[i] {
            let q = if dir == 0 || dir == 1 { Pt { x: target, y: p.y } } else { Pt { x: p.x, y: target } };
            points.set(i, q);
            moved = true;
        }
        i = i + 1;
    }
    moved
}

/// A vertex behind an expansion: only one on the moved side goes along.
pub open spec fn expanded(p: Pt, on_edge: bool, dir: usize, target: u32) -> Pt {
    if !on_edge {
        p
    } else if dir == 0 || dir == 1 {
        Pt { x: target, ..p }
    } else {
        Pt { y: target, ..p }
    }
}

/// The border that an arrow points to: the arrows are the left, the right, the
/// upper and the lower one.
pub open spec fn target_of(t: Targets, dir: usize) -> Option<i64> {
    if dir == 0 {
        t.left
    } else if dir == 1 {
        t.right
    } else if dir == 2 {
        t.top
    } else {
        t.bottom
    }
}

impl Targets {
    /// The border that an arrow points to.
    pub fn toward(&self, dir: usize) -> (r: Option<i64>)
        ensures
            r == target_of(*self, dir),
    {
        if dir == 0 {
            self.left
        } else if dir == 1 {
            self.right
        } else if dir == 2 {
            self.top
        } else {
            self.bottom
        }
    }
}

/// Is one of the vertices marked?
pub open spec fn any_marked(on_edge: Seq<bool>) -> bool {
    exists|i: int| 0 <= i < on_edge.len() && #[trigger] on_edge[i]
}

fn has_mark(on_edge: &Vec<bool>) -> (r: bool)
    ensures
        r == any_marked(on_edge@),
{
    let mut i: usize = 0;
    while i < on_edge.len()
        invariant
            i <= on_edge@.len(),
            forall|j: int| 0 <= j < i ==> !#[trigger] on_edge@[j],
        decreases on_edge@.len() - i,
    {
        if on_edge[i] {
            return true;
        }
        i = i + 1;
    }
    false
}

/// The panel with one side moved to a border.
pub open spec fn side_moved(dir: usize, targets: Targets, points: Seq<Pt>, on_edge: Seq<bool>, r: Option<Vec<Pt>>) -> bool {
    &&& r is Some == (target_of(targets, dir) is Some && any_marked(on_edge))
    &&& r matches Some(v) ==> {
        &&& v@.len() == points.len()
        &&& forall|i: int|
            0 <= i < v@.len() ==> #[trigger] v@[i] == expanded(
                points[i],
                on_edge[i],
                dir,
                floats::pattern(target_of(targets, dir)->0 as int),
            )
    }
}

/// The panel with the side that an arrow stands at moved to the border that it
/// points to; `on_edge` marks the vertices on that side, and only they go. There
/// is none where there is no such border or no such vertex.
pub fn frame_expanded(dir: usize, targets: Targets, points: &Vec<Pt>, on_edge: &Vec<bool>) -> (r: Option<Vec<Pt>>)
    requires
        on_edge@.len() == points@.len(),
        target_of(targets, dir) matches Some(t) ==> floats::is_place(t as int),
    ensures
        side_moved(dir, targets, points@, on_edge@, r),
{
    match targets.toward(dir) {
        None => None,
        Some(t) => {
            let target = floats::pattern_at(t);
            let mut v: Vec<Pt> = points.clone();
            assert(v@ =~= points@);
            let moved = expand_points(&mut v, on_edge, dir, target);
            if moved {
                Some(v)
            } else {
                None
            }
        },
    }
}

impl App {
    /// What the press of an expand arrow makes of the state.
    pub open spec fn expand_pressed(self, after: App, r: Expand, dir: usize, targets: Targets, on_edge: Seq<bool>, valid: bool, set: bool) -> bool {
        &&& ({
            let go = (self.picked.frame matches Some(s) && has_frame(self.doc.layers@, s.0 as int, s.1 as int))
                && target_of(targets, dir) is Some && any_marked(on_edge);
            &&& r == (if !go { Expand::Pass } else if !valid { Expand::Refused } else if set { Expand::Done } else { Expand::Pass })
            &&& r is Pass ==> after == self
            &&& r is Refused ==> {
                &&& after == (App { shell: after.shell, ..self })
                &&& after.shell.says(self.shell, "expand refused — the panel would collapse"@)
            }
            &&& r is Done ==> {
                &&& after == (App {
                    work: (Work { dirty: true, ..self.work }),
                    shell: after.shell,
                    ..self
                })
                &&& after.shell.says(self.shell, "panel expanded to the next border"@)
            }
        })
    }

    /// The press of an expand arrow on the selected panel: `targets` are the
    /// borders around it, and `on_edge` marks its vertices on the side that the
    /// arrow stands at. `valid` says that the panel of [`frame_expanded`] is
    /// one, and `set` that the document took it, with the panels in their
    /// reading order.
    pub fn frame_expand_press(&mut self, dir: usize, targets: Targets, on_edge: &Vec<bool>, valid: bool, set: bool) -> (r: Expand)
        ensures
            old(self).expand_pressed(*final(self), r, dir, targets, on_edge@, valid, set),
            old(self).wf() ==> final(self).wf(),
    {
        let sel = match self.picked.frame {
            None => return Expand::Pass,
            Some(s) => s,
        };
        if targets.toward(dir).is_none() || !self.has_frame_there(sel.0, sel.1) || !has_mark(on_edge) {
            return Expand::Pass;
        }
        if !valid {
            self.set_status("expand refused — the panel would collapse");
            return Expand::Refused;
        }
        if !set {
            return Expand::Pass;
        }
        self.set_status("panel expanded to the next border");
        self.mark_dirty();
        Expand::Done
    }
}

/// An expansion moves nothing but the side: every other vertex stays, and the
/// side lies on the border along its own axis.
pub proof fn law_only_the_side_expands(p: Pt, on_edge: bool, dir: usize, t: int)
    requires
        floats::is_place(t),
    ensures
        ({
            let q = expanded(p, on_edge, dir, floats::pattern(t));
            &&& !on_edge ==> q == p
            &&& on_edge && (dir == 0 || dir == 1) ==> floats::place(q.x) == t && q.y == p.y
            &&& on_edge && !(dir == 0 || dir == 1) ==> floats::place(q.y) == t && q.x == p.x
        }),
{
}

/// A drag of a panel reshapes what it took: a vertex moves alone, a border moves
/// with both its ends, a box is scaled from the corner across or stretched from
/// the side across, and only a turn is snapped.
pub proof fn law_a_panel_drag_reshapes_what_it_took(g: ObjectDrag, n: int)
    requires
        0 < n <= usize::MAX,
        g.mode matches ObjectDragMode::Edge(i) ==> i < n,
        g.mode matches ObjectDragMode::ScaleCorner(i) ==> i < 4,
        g.mode matches ObjectDragMode::ScaleEdge(i) ==> i < 4,
    ensures
        g.mode is MoveWhole ==> g.preview_spec(n) == (Reshape::Translate { snap: false }),
        g.mode matches ObjectDragMode::Vertex(i) ==> g.preview_spec(n) == Reshape::Vertices(i, i),
        g.mode matches ObjectDragMode::Edge(i) ==> (g.preview_spec(n) matches Reshape::Vertices(a, b) && a == i && b == (if i
            + 1 == n { 0 } else { i + 1 })),
        g.mode is Rotate ==> g.preview_spec(n) == (Reshape::Turn { snap: g.shift_snap }),
        g.mode matches ObjectDragMode::ScaleCorner(i) ==> (g.preview_spec(n) matches Reshape::Scale { corner } && corner < 4
            && (corner == i + 2 || corner + 2 == i)),
        g.mode matches ObjectDragMode::ScaleEdge(i) ==> (g.preview_spec(n) matches Reshape::Stretch { side } && side < 4
            && (side == i + 2 || side + 2 == i)),
{
    if let ObjectDragMode::Edge(i) = g.mode {
        assert((i + 1) % n == (if i + 1 == n { 0 } else { i + 1 })) by (nonlinear_arith)
            requires
                0 <= i < n,
        ;
    }
}

/// A drag of a balloon reshapes what it took in the same way; moving and turning
/// are snapped where that is asked for.
pub proof fn law_a_balloon_drag_reshapes_what_it_took(g: BalloonObjDrag)
    requires
        g.mode matches BalloonDragMode::BoxCorner(i) ==> i < 4,
        g.mode matches BalloonDragMode::BoxEdge(i) ==> i < 4,
    ensures
        g.mode is MoveWhole ==> g.preview_spec() == (Reshape::Translate { snap: g.shift_snap }),
        g.mode is Handle ==> g.preview_spec() is Handle,
        g.mode matches BalloonDragMode::BoxCorner(i) ==> (g.preview_spec() matches Reshape::Scale { corner } && corner < 4
            && (corner == i + 2 || corner + 2 == i)),
        g.mode matches BalloonDragMode::BoxEdge(i) ==> (g.preview_spec() matches Reshape::Stretch { side } && side < 4
            && (side == i + 2 || side + 2 == i)),
        g.mode is BoxRotate ==> g.preview_spec() == (Reshape::Turn { snap: g.shift_snap }),
{
}

/// A panel goes along with a border that it shares. Across a gutter it goes
/// along only where gutters are kept, where the nearest gap is a gutter, and
/// where its own gap is no wider than the nearest ones.
pub proof fn law_a_panel_goes_along_with_its_border(s: SibHit, nearest: Option<u32>, align: bool, reach: u32, limit: u32)
    ensures
        ({
            let shared = s.on_edge >= 2 || (s.on_edge == 1 && !s.at_end);
            let p = pull(s, nearest, align, reach, limit);
            &&& p is Shares == shared
            &&& !shared && !align ==> p is Stays
            &&& !shared && nearest is None ==> p is Stays
            &&& !shared && s.facing is None ==> p is Stays
            &&& nearest matches Some(n) ==> !shared && (!floats::finite(n) || floats::below(reach, n)) ==> p is Stays
            &&& s.facing matches Some(d) ==> !shared && floats::below(limit, d) ==> p is Stays
            &&& nearest matches Some(n) ==> s.facing matches Some(d) ==> !shared && align && floats::finite(n)
                && floats::at_most(n, reach) && !floats::below(limit, d) ==> p is Faces
        }),
{
}

/// A panel that goes along breaks the drag where it would be none any more, and
/// one that stays breaks nothing.
pub proof fn law_only_a_panel_that_goes_along_breaks(s: SibHit, nearest: Option<u32>, d: FrameDrop)
    ensures
        breaks(s, nearest, d) ==> taken(s, nearest, d),
        taken(s, nearest, d) && s.ok_shared && s.ok_facing ==> !breaks(s, nearest, d),
        pull(s, nearest, d.align, d.reach, d.limit) is Shares && !s.ok_shared ==> breaks(s, nearest, d),
        pull(s, nearest, d.align, d.reach, d.limit) is Faces && !s.ok_facing ==> breaks(s, nearest, d),
        (s.on_edge >= 2 || (s.on_edge == 1 && !s.at_end)) ==> taken(s, nearest, d) && breaks(s, nearest, d) == !s.ok_shared,
{
}

/// The dragged panel itself is never pulled, and neither is anything on a layer
/// that has no panels.
pub proof fn law_the_dragged_panel_is_not_pulled(
    layers: Seq<Layer>,
    sibs: Seq<Vec<SibHit>>,
    layer: int,
    frame: int,
    align: bool,
    reach: u32,
    limit: u32,
    li: int,
    si: int,
)
    ensures
        pulled(layers, sibs, layer, frame, align, reach, limit, layer, frame) is Stays,
        !(layers[li].kind is Frame) ==> pulled(layers, sibs, layer, frame, align, reach, limit, li, si) is Stays,
        layers[li].kind is Frame && (li != layer || si != frame) && sibs[li]@[si].on_edge >= 2 ==> pulled(
            layers,
            sibs,
            layer,
            frame,
            align,
            reach,
            limit,
            li,
            si,
        ) is Shares,
{
}

proof fn lemma_near_in(v: Seq<SibHit>, skip: Option<int>, m: int)
    requires
        0 <= m <= v.len(),
        forall|k: int| 0 <= k < m && (#[trigger] v[k]).facing is Some ==> !floats::nan(v[k].facing->0),
    ensures
        match near_in(v, skip, m) {
            Some(d) => {
                &&& exists|k: int| 0 <= k < m && Some(k) != skip && (#[trigger] v[k]).facing == Some(d) && v[k].apart
                &&& forall|k: int|
                    0 <= k < m && Some(k) != skip && (#[trigger] v[k]).facing is Some && v[k].apart ==> floats::at_most(
                        d,
                        v[k].facing->0,
                    )
            },
            None => forall|k: int| 0 <= k < m && Some(k) != skip && (#[trigger] v[k]).facing is Some ==> !v[k].apart,
        },
    decreases m,
{
    if m > 0 {
        lemma_near_in(v, skip, m - 1);
        if let Some(d) = near_in(v, skip, m - 1) {
            let k = choose|k: int| 0 <= k < m - 1 && Some(k) != skip && (#[trigger] v[k]).facing == Some(d) && v[k].apart;
            assert(v[k].facing == Some(d));
        }
        assert(v[m - 1] == v[m - 1]);
    }
}

/// The nearest gap on a layer is the least of those to the panels that face the
/// border from apart, the dragged one left out.
pub proof fn law_the_nearest_gap_is_the_least(v: Seq<SibHit>, skip: Option<int>, k: int)
    requires
        forall|j: int| 0 <= j < v.len() && (#[trigger] v[j]).facing is Some ==> !floats::nan(v[j].facing->0),
        0 <= k < v.len(),
        Some(k) != skip,
        v[k].facing is Some,
        v[k].apart,
    ensures
        near_in(v, skip, v.len() as int) matches Some(d) && floats::at_most(d, v[k].facing->0),
{
    lemma_near_in(v, skip, v.len() as int);
}

/// The end of a panel drag: one that moved something asks for the panels of its
/// layer, and takes the art along only where the whole panel moved. One that
/// would break the panel asks for nothing and says so.
pub proof fn law_a_panel_drag_is_committed(app: App, after: App, r: FrameEnd, g: ObjectDrag, d: FrameDrop)
    requires
        app.frame_dropped(after, r, g, d),
    ensures
        after.shell.needs_redraw,
        after.doc == app.doc,
        after.picked == app.picked,
        ({
            let l = app.doc.layers@[g.layer as int];
            let on_layer = g.layer < app.doc.layers@.len() && l.kind is Frame;
            let there = on_layer && g.frame < l.kind->Frame_0.frames;
            let broken = g.mode is Edge && d.edge_moved && gutter_breaks(
                app.doc.layers@,
                g,
                d,
                nearest_gap(app.doc.layers@, d.sibs@, g.layer as int, g.frame as int, app.doc.layers@.len() as int),
                app.doc.layers@.len() as int,
            );
            &&& r is Nothing == !(d.moved && d.valid && there && !broken)
            &&& r is Nothing ==> after.shell.cmds == app.shell.cmds
            &&& !d.moved ==> after.shell.status == app.shell.status
            &&& d.moved && (!d.valid || !on_layer) ==> after.shell.status@
                == "that edit would break the panel shape — reverted"@
            &&& d.moved && d.valid && there && broken ==> after.shell.status@
                == "that edit would break a neighbouring panel — reverted"@
            &&& d.moved && d.valid && there && !broken ==> {
                &&& after.shell.status == app.shell.status
                &&& after.shell.cmds@.len() > app.shell.cmds@.len()
                &&& after.shell.cmds@[app.shell.cmds@.len() as int] == (AppCmd::FrameCommit {
                    layer: g.layer,
                    frames: d.frames@[g.layer as int],
                })
                &&& !(g.mode is Edge && d.edge_moved) ==> after.shell.cmds@.len() == app.shell.cmds@.len() + 1
                &&& g.mode is MoveWhole ==> r == (FrameEnd::Done { dx: d.dx, dy: d.dy })
                &&& !(g.mode is MoveWhole) ==> r == (FrameEnd::Done { dx: 0, dy: 0 })
            }
        }),
{
}

proof fn lemma_any_taken(v: Seq<SibHit>, skip: Option<int>, nearest: Option<u32>, d: FrameDrop, m: int)
    requires
        0 <= m <= v.len(),
    ensures
        any_taken(v, skip, nearest, d, m) == exists|k: int|
            0 <= k < m && Some(k) != skip && taken(#[trigger] v[k], nearest, d),
        any_broken(v, skip, nearest, d, m) == exists|k: int|
            0 <= k < m && Some(k) != skip && breaks(#[trigger] v[k], nearest, d),
    decreases m,
{
    if m > 0 {
        lemma_any_taken(v, skip, nearest, d, m - 1);
        assert(v[m - 1] == v[m - 1]);
    }
}

/// One panel that would break, on any layer, is enough to stop a border drag; the
/// dragged panel is not asked.
pub proof fn law_one_broken_panel_is_enough(
    layers: Seq<Layer>,
    g: ObjectDrag,
    d: FrameDrop,
    nearest: Option<u32>,
    n: int,
    li: int,
    si: int,
)
    requires
        0 <= li < n <= layers.len(),
        d.sibs@.len() == layers.len(),
        layers[li].kind is Frame,
        0 <= si < d.sibs@[li]@.len(),
        li != g.layer || si != g.frame,
        breaks(d.sibs@[li]@[si], nearest, d),
    ensures
        gutter_breaks(layers, g, d, nearest, n),
    decreases n,
{
    if li == n - 1 {
        lemma_any_taken(
            d.sibs@[li]@,
            skip_in(li, g.layer as int, g.frame as int),
            nearest,
            d,
            d.sibs@[li]@.len() as int,
        );
        assert(breaks(d.sibs@[li]@[si], nearest, d));
    } else {
        law_one_broken_panel_is_enough(layers, g, d, nearest, n - 1, li, si);
    }
}

/// Every other layer that has a panel to go along is committed, and no layer
/// without one is.
pub proof fn law_every_pulled_layer_is_committed(
    layers: Seq<Layer>,
    g: ObjectDrag,
    d: FrameDrop,
    nearest: Option<u32>,
    n: int,
    li: int,
    si: int,
)
    requires
        0 <= n <= layers.len(),
        layers.len() <= usize::MAX,
        d.sibs@.len() == layers.len(),
    ensures
        0 <= li < n && li != g.layer && layers[li].kind is Frame && 0 <= si < d.sibs@[li]@.len() && taken(
            d.sibs@[li]@[si],
            nearest,
            d,
        ) ==> gutter_cmds(layers, g, d, nearest, n).contains(
            (AppCmd::FrameCommit { layer: li as usize, frames: d.frames@[li] }),
        ),
        forall|k: int|
            0 <= k < gutter_cmds(layers, g, d, nearest, n).len() ==> (#[trigger] gutter_cmds(
                layers,
                g,
                d,
                nearest,
                n,
            )[k] matches AppCmd::FrameCommit { layer, frames } && layer < n && layer != g.layer
                && layers[layer as int].kind is Frame && frames == d.frames@[layer as int]),
    decreases n,
{
    if n > 0 {
        law_every_pulled_layer_is_committed(layers, g, d, nearest, n - 1, li, si);
        let before = gutter_cmds(layers, g, d, nearest, n - 1);
        let all = gutter_cmds(layers, g, d, nearest, n);
        let c = AppCmd::FrameCommit { layer: li as usize, frames: d.frames@[li] };
        if 0 <= li < n && li != g.layer && layers[li].kind is Frame && 0 <= si < d.sibs@[li]@.len() && taken(
            d.sibs@[li]@[si],
            nearest,
            d,
        ) {
            if li == n - 1 {
                lemma_any_taken(d.sibs@[li]@, None, nearest, d, d.sibs@[li]@.len() as int);
                assert(taken(d.sibs@[li]@[si], nearest, d));
                assert(all[before.len() as int] == c);
            } else {
                let k = choose|k: int| 0 <= k < before.len() && before[k] == c;
                assert(all[k] == c);
            }
        }
        assert forall|k: int| 0 <= k < all.len() implies (#[trigger] all[k] matches AppCmd::FrameCommit { layer, frames }
            && layer < n && layer != g.layer && layers[layer as int].kind is Frame && frames
            == d.frames@[layer as int]) by {
            if k < before.len() {
                assert(all[k] == before[k]);
            }
        }
    }
}

/// The four arrows point left, right, up and down, in that order.
pub proof fn law_the_arrows_have_their_sides(t: Targets)
    ensures
        target_of(t, 0) == t.left,
        target_of(t, 1) == t.right,
        target_of(t, 2) == t.top,
        target_of(t, 3) == t.bottom,
{
}

/// The borders that a panel can expand to are those of the other panels on the
/// shown layers, and the guides; a hidden layer lends none.
pub proof fn law_borders_come_of_shown_panels(
    layers: Seq<Layer>,
    boxes: Seq<Vec<Edges>>,
    guides: Seq<Edges>,
    layer: int,
    fi: int,
    li: int,
    si: int,
    v: i64,
)
    requires
        boxes.len() == layers.len(),
    ensures
        0 <= li < layers.len() && layers[li].look.visible && layers[li].kind is Frame && 0 <= si < boxes[li]@.len() && !(li
            == layer && si == fi) ==> {
            &&& upright(layers, boxes, guides, layer, fi, boxes[li]@[si].left)
            &&& upright(layers, boxes, guides, layer, fi, boxes[li]@[si].right)
            &&& level(layers, boxes, guides, layer, fi, boxes[li]@[si].top)
            &&& level(layers, boxes, guides, layer, fi, boxes[li]@[si].bottom)
        },
        0 <= li < guides.len() ==> {
            &&& upright(layers, boxes, guides, layer, fi, guides[li].left)
            &&& upright(layers, boxes, guides, layer, fi, guides[li].right)
            &&& level(layers, boxes, guides, layer, fi, guides[li].top)
            &&& level(layers, boxes, guides, layer, fi, guides[li].bottom)
        },
        guides.len() == 0 && (forall|i: int, j: int|
            0 <= i < layers.len() && (#[trigger] layers[i]).look.visible && layers[i].kind is Frame && 0 <= j
                < boxes[i]@.len() && !(i == layer && j == fi) ==> (#[trigger] boxes[i]@[j]).left != v && boxes[i]@[j].right
                != v) ==> !upright(layers, boxes, guides, layer, fi, v),
        guides.len() == 0 && (forall|i: int, j: int|
            0 <= i < layers.len() && (#[trigger] layers[i]).look.visible && layers[i].kind is Frame && 0 <= j
                < boxes[i]@.len() && !(i == layer && j == fi) ==> (#[trigger] boxes[i]@[j]).top != v
                && boxes[i]@[j].bottom != v) ==> !level(layers, boxes, guides, layer, fi, v),
{
    if 0 <= li < layers.len() && layers[li].look.visible && layers[li].kind is Frame && 0 <= si < boxes[li]@.len() && !(li
        == layer && si == fi) {
        let e = boxes[li]@[si];
        assert(neighbour(layers, layer, fi, li, si));
    }
    if 0 <= li < guides.len() {
        let e = guides[li];
    }
    if upright(layers, boxes, guides, layer, fi, v) && guides.len() == 0 {
        let (i, j) = choose|i: int, j: int|
            neighbour(layers, layer, fi, i, j) && 0 <= j < boxes[i]@.len() && ((#[trigger] boxes[i]@[j]).left == v
                || boxes[i]@[j].right == v);
        assert(layers[i].look.visible);
    }
    if level(layers, boxes, guides, layer, fi, v) && guides.len() == 0 {
        let (i, j) = choose|i: int, j: int|
            neighbour(layers, layer, fi, i, j) && 0 <= j < boxes[i]@.len() && ((#[trigger] boxes[i]@[j]).top == v
                || boxes[i]@[j].bottom == v);
        assert(layers[i].look.visible);
    }
}

/// An arrow points to the next border outside its side: none lies between, and
/// where there is one outside at all the arrow points somewhere.
pub proof fn law_an_arrow_points_to_the_next_border(t: Option<i64>, limit: i64, line: spec_fn(i64) -> bool, x: i64)
    requires
        line(x),
    ensures
        greatest_below(t, limit, line) && x < limit ==> (t matches Some(m) && x <= m < limit && line(m)),
        greatest_below(t, limit, line) ==> (t matches Some(m) ==> m < limit && line(m)),
        least_above(t, limit, line) && x > limit ==> (t matches Some(m) && limit < m <= x && line(m)),
        least_above(t, limit, line) ==> (t matches Some(m) ==> limit < m && line(m)),
{
}

/// An arrow is for the selected panel, where there is one, where it points to a
/// border, and where a vertex stands on its side. A panel that would collapse is
/// refused; one that the document took makes the work unsaved.
pub proof fn law_an_arrow_expands_the_selected_panel(
    app: App,
    after: App,
    r: Expand,
    dir: usize,
    targets: Targets,
    on_edge: Seq<bool>,
    valid: bool,
    set: bool,
)
    requires
        app.expand_pressed(after, r, dir, targets, on_edge, valid, set),
    ensures
        after.doc == app.doc,
        after.shell.cmds == app.shell.cmds,
        app.picked.frame is None ==> r is Pass,
        (forall|j: int| 0 <= j < on_edge.len() ==> !#[trigger] on_edge[j]) ==> r is Pass,
        dir == 0 && targets.left is None ==> r is Pass,
        dir == 1 && targets.right is None ==> r is Pass,
        dir == 2 && targets.top is None ==> r is Pass,
        dir == 3 && targets.bottom is None ==> r is Pass,
        r is Pass ==> after == app,
        r is Refused ==> !valid && after.work == app.work && after.shell.status@
            == "expand refused — the panel would collapse"@,
        r is Done ==> valid && set && after.work.dirty && after.shell.status@ == "panel expanded to the next border"@,
        app.picked.frame matches Some(s) ==> s.0 < app.doc.layers@.len() && app.doc.layers@[s.0 as int].kind is Frame && s.1
            < app.doc.layers@[s.0 as int].kind->Frame_0.frames && dir == 0 && targets.left is Some && on_edge.len() > 0
            && on_edge[0] ==> {
            &&& !valid ==> r is Refused
            &&& valid && set ==> r is Done
        },
{
    if any_marked(on_edge) {
        let j = choose|j: int| 0 <= j < on_edge.len() && #[trigger] on_edge[j];
        assert(on_edge[j]);
    }
}

/// The vertices on the moved side go to the border, along the arrow alone, and
/// every other stays; there is no panel without such a border or such a vertex.
pub proof fn law_only_the_side_goes_to_the_border(
    dir: usize,
    targets: Targets,
    points: Seq<Pt>,
    on_edge: Seq<bool>,
    r: Option<Vec<Pt>>,
    k: int,
)
    requires
        side_moved(dir, targets, points, on_edge, r),
        on_edge.len() == points.len(),
        0 <= k < points.len(),
    ensures
        r matches Some(v) ==> v@.len() == points.len(),
        r matches Some(v) ==> !on_edge[k] ==> v@[k] == points[k],
        r matches Some(v) ==> on_edge[k] && dir <= 1 ==> v@[k].y == points[k].y,
        r matches Some(v) ==> on_edge[k] && dir > 1 ==> v@[k].x == points[k].x,
        dir == 0 && targets.left is None ==> r is None,
        dir == 1 && targets.right is None ==> r is None,
        dir == 2 && targets.top is None ==> r is None,
        dir == 3 && targets.bottom is None ==> r is None,
        on_edge[k] && dir == 0 ==> (targets.left matches Some(t) ==> floats::is_place(t as int) ==> (r matches Some(v)
            && floats::place(v@[k].x) == t)),
        on_edge[k] && dir == 1 ==> (targets.right matches Some(t) ==> floats::is_place(t as int) ==> (r matches Some(v)
            && floats::place(v@[k].x) == t)),
        on_edge[k] && dir == 2 ==> (targets.top matches Some(t) ==> floats::is_place(t as int) ==> (r matches Some(v)
            && floats::place(v@[k].y) == t)),
        on_edge[k] && dir == 3 ==> (targets.bottom matches Some(t) ==> floats::is_place(t as int) ==> (r matches Some(v)
            && floats::place(v@[k].y) == t)),
{
    if on_edge[k] {
        assert(any_marked(on_edge));
    }
}

} // verus!
