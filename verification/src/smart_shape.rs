//! The smart shape: a freehand stroke that turns into the figure it looks
//! like when the pen comes to rest. Without the rest, or without a figure, the
//! stroke stays as it was drawn, always.

use vstd::prelude::*;
use crate::app::{App, FigureHand, Shape, Shell, SmartShape};
use crate::geom::{Pt, PxBox};
use crate::text;

verus! {

impl SmartShape {
    /// A snapped stroke has no figure, and a figure comes of a matured hold.
    pub open spec fn wf(self) -> bool {
        &&& self.refused ==> self.hit is None && self.adjust is None
        &&& self.hit is Some ==> self.ripe
        &&& self.adjust is Some ==> self.hit is Some
    }

    /// The hold has found a figure: from here on the pen adjusts it.
    pub open spec fn armed_spec(self) -> bool {
        self.ripe && self.hit is Some
    }

    /// The hold has found a figure: from here on the pen adjusts it.
    pub fn armed(&self) -> (r: bool)
        ensures
            r == self.armed_spec(),
    {
        self.ripe && self.hit.is_some()
    }

    /// The figure that a release would ink.
    pub open spec fn preview_spec(self) -> Option<Shape> {
        if self.adjust is Some {
            self.adjust
        } else {
            self.hit
        }
    }

    /// The figure that a release would ink.
    pub fn preview(&self) -> (r: Option<Shape>)
        ensures
            r == self.preview_spec(),
    {
        if self.adjust.is_some() {
            self.adjust
        } else {
            self.hit
        }
    }
}

/// What a move of the pen came to.
#[derive(Clone, Copy, PartialEq, Eq, Structural, Debug)]
pub enum SmartMove {
    Nothing,
    /// The figure follows the pen; the stroke is over.
    Adjust,
    /// One more point of the stroke, with the pen at rest.
    Recorded,
    /// One more point, and the rest begins anew here.
    Restarted,
}

/// What the end of the stroke came to.
#[derive(Clone, Copy, PartialEq, Eq, Structural, Debug)]
pub enum SmartEnd {
    /// The stroke stays.
    Keep,
    /// The stroke stays, because the newest step may not be the stroke.
    Unclean,
    /// The stroke is taken back and this figure is inked in its place.
    Swap(Shape),
}

/// What a matured hold says.
pub open spec fn hold_text(refused: bool, hit: Option<Shape>, label: Seq<char>) -> Seq<char> {
    if hit is Some {
        text::framed("hold: release to make it a "@, label, " — keep moving to keep the stroke"@)
    } else if refused {
        "held, but this stroke is snapped — it stays as drawn"@
    } else {
        "held, but that is not a shape — it stays as drawn"@
    }
}

/// What an adjustment says.
pub open spec fn adjust_text(label: Seq<char>, shift: bool) -> Seq<char> {
    if shift {
        text::framed("smart shape: "@, label, " — regular while Shift is held, release inks it"@)
    } else {
        text::framed("smart shape: "@, label, " — drag to size and turn it, Shift makes it regular"@)
    }
}

/// What a swap says.
pub open spec fn swapped_text(label: Seq<char>, armed: bool) -> Seq<char> {
    if armed {
        text::framed(
            "smart shape: your stroke became a "@,
            label,
            " — drag to adjust it, Enter commits, Esc cancels"@,
        )
    } else {
        text::framed("smart shape: your stroke became a "@, label, ""@)
    }
}

impl FigureHand {
    /// The smart shape, if there is one, is sound.
    pub open spec fn smart_wf(self) -> bool {
        self.smart matches Some(g) ==> g.wf()
    }
}

impl App {
    /// Is a ruler or guide deciding where ink may land?
    pub open spec fn rulers_decide(self) -> bool {
        self.doc.rulers.on && (self.doc.rulers.items@.len() > 0 || self.doc.rulers.curves@.len() > 0)
    }

    /// Is a ruler or guide deciding where ink may land? Such strokes keep
    /// their shape.
    pub fn rulers_deciding(&self) -> (r: bool)
        ensures
            r == self.rulers_decide(),
    {
        self.doc.rulers.on && !(self.doc.rulers.items.len() == 0 && self.doc.rulers.curves.len() == 0)
    }

    /// The smart shape as a stroke begins it.
    pub open spec fn smart_started(self, at: Pt, screen: Pt, shift: bool, ops_at_start: u64, after: App) -> bool {
        &&& after == (App { figure: (FigureHand { smart: after.figure.smart, ..self.figure }), ..self })
        &&& if self.tools.smart_shape_on {
            &&& after.figure.smart matches Some(g)
            &&& g == (SmartShape {
                pts: g.pts,
                anchor: screen,
                ripe: false,
                hit: None,
                refused: shift || self.rulers_decide(),
                ops_at_start,
                adjust: None,
            })
            &&& g.pts@ == seq![at]
        } else {
            after.figure.smart == self.figure.smart
        }
    }

    /// The stroke has begun: the shape rides along, where it is switched on.
    /// Only a stroke that the pen really began comes here.
    pub fn smart_shape_start(&mut self, at: Pt, screen: Pt, shift: bool, ops_at_start: u64)
        ensures
            old(self).smart_started(at, screen, shift, ops_at_start, *final(self)),
            old(self).figure.smart_wf() ==> final(self).figure.smart_wf(),
    {
        if self.tools.smart_shape_on {
            let refused = shift || self.rulers_deciding();
            let mut pts: Vec<Pt> = Vec::new();
            pts.push(at);
            proof {
                assert(pts@ =~= seq![at]);
            }
            self.figure.smart = Some(
                SmartShape { pts, anchor: screen, ripe: false, hit: None, refused, ops_at_start, adjust: None },
            );
        }
    }

    /// What a move of the pen comes to: `past` says that the pen has left the
    /// place where it rested.
    pub open spec fn smart_moved(self, after: App, r: SmartMove, at: Pt, screen: Pt, shift: bool, past: bool) -> bool {
        match self.figure.smart {
            None => r is Nothing && after == self,
            Some(g) => if g.armed_spec() {
                &&& after == self
                &&& r == (if g.adjust is Some || past { SmartMove::Adjust } else { SmartMove::Nothing })
            } else {
                &&& r == (if past { SmartMove::Restarted } else { SmartMove::Recorded })
                &&& after == (App {
                    figure: (FigureHand { smart: after.figure.smart, ..self.figure }),
                    shell: (Shell { needs_redraw: self.shell.needs_redraw || (past && g.ripe), ..self.shell }),
                    ..self
                })
                &&& after.figure.smart matches Some(now)
                &&& now.pts@ == g.pts@.push(at)
                &&& now == (SmartShape {
                    pts: now.pts,
                    refused: g.refused || shift,
                    anchor: if past { screen } else { g.anchor },
                    ripe: g.ripe && !past,
                    hit: if past { None } else { g.hit },
                    ..g
                })
            },
        }
    }

    /// The pen moved: the path grows, and the rest begins anew where the hand
    /// has gone somewhere. Shift for any part of the stroke keeps the shape
    /// out of it. Behind a matured hold nothing more is recorded.
    pub fn smart_shape_move(&mut self, at: Pt, screen: Pt, shift: bool, past: bool) -> (r: SmartMove)
        ensures
            old(self).smart_moved(*final(self), r, at, screen, shift, past),
            old(self).figure.smart_wf() ==> final(self).figure.smart_wf(),
            old(self).wf() ==> final(self).wf(),
    {
        let mut g = match self.figure.smart.take() {
            None => return SmartMove::Nothing,
            Some(g) => g,
        };
        if g.armed() {
            let begin = g.adjust.is_some() || past;
            self.figure.smart = Some(g);
            return if begin { SmartMove::Adjust } else { SmartMove::Nothing };
        }
        g.pts.push(at);
        g.refused = g.refused || shift;
        if !past {
            self.figure.smart = Some(g);
            return SmartMove::Recorded;
        }
        if g.ripe {
            self.shell.needs_redraw = true;
        }
        g.anchor = screen;
        g.ripe = false;
        g.hit = None;
        self.figure.smart = Some(g);
        SmartMove::Restarted
    }

    /// What adjusting the recognized figure makes of the state.
    pub open spec fn shape_adjusted(self, after: App, shape: Shape, label: Seq<char>, shift: bool) -> bool {
        &&& match self.figure.smart {
            Some(g) if g.adjust is Some || g.hit is Some => {
                &&& after == (App {
                    figure: (FigureHand {
                        smart: Some(SmartShape { adjust: Some(shape), ..g }),
                        ..self.figure
                    }),
                    shell: (Shell { status: after.shell.status, needs_redraw: true, ..self.shell }),
                    ..self
                })
                &&& after.shell.status@ == adjust_text(label, shift)
            },
            _ => after == self,
        }
    }

    /// The figure as the drag behind the hold leaves it: `shape` is what was
    /// found, carried along by the pen.
    pub fn smart_shape_adjust(&mut self, shape: Shape, label: &str, shift: bool)
        ensures
            old(self).shape_adjusted(*final(self), shape, label@, shift),
            old(self).figure.smart_wf() ==> final(self).figure.smart_wf(),
    {
        let mut g = match self.figure.smart.take() {
            None => return,
            Some(g) => g,
        };
        if g.adjust.is_none() && g.hit.is_none() {
            self.figure.smart = Some(g);
            return;
        }
        g.adjust = Some(shape);
        self.figure.smart = Some(g);
        self.shell.status = if shift {
            text::frame_line("smart shape: ", label, " — regular while Shift is held, release inks it")
        } else {
            text::frame_line("smart shape: ", label, " — drag to size and turn it, Shift makes it regular")
        };
        self.shell.needs_redraw = true;
    }

    /// Is the recognizer to look at the stroke? Once per hold, and never at a
    /// stroke that is snapped.
    pub fn smart_wants_fit(&self, held: bool) -> (r: bool)
        ensures
            r == (self.figure.smart matches Some(g) && held && !g.ripe && !g.refused),
    {
        match &self.figure.smart {
            None => false,
            Some(g) => held && !g.ripe && !g.refused,
        }
    }

    /// What a rest of the pen makes of the state.
    pub open spec fn rested(self, after: App, held: bool, fit: Option<Shape>, label: Seq<char>) -> bool {
        &&& match self.figure.smart {
            Some(g) if held && !g.ripe => {
                let hit = if g.refused { None } else { fit };
                &&& after == (App {
                    figure: (FigureHand {
                        smart: Some(SmartShape { ripe: true, hit, ..g }),
                        ..self.figure
                    }),
                    shell: (Shell { status: after.shell.status, needs_redraw: true, ..self.shell }),
                    ..self
                })
                &&& after.shell.status@ == hold_text(g.refused, hit, label)
            },
            _ => after == self,
        }
    }

    /// Has the pen rested long enough? `fit` is what the recognizer made of
    /// the stroke. The answer stands until the pen moves on.
    pub fn smart_shape_tick(&mut self, held: bool, fit: Option<Shape>, label: &str)
        ensures
            old(self).rested(*final(self), held, fit, label@),
            old(self).figure.smart_wf() ==> final(self).figure.smart_wf(),
    {
        let mut g = match self.figure.smart.take() {
            None => return,
            Some(g) => g,
        };
        if g.ripe || !held {
            self.figure.smart = Some(g);
            return;
        }
        let hit = if g.refused { None } else { fit };
        self.shell.status = if hit.is_some() {
            text::frame_line("hold: release to make it a ", label, " — keep moving to keep the stroke")
        } else if g.refused {
            text::own("held, but this stroke is snapped — it stays as drawn")
        } else {
            text::own("held, but that is not a shape — it stays as drawn")
        };
        g.ripe = true;
        g.hit = hit;
        self.figure.smart = Some(g);
        self.shell.needs_redraw = true;
    }

    /// Is the newest step the stroke itself? Exactly one step since the press,
    /// and one to take back.
    pub open spec fn stroke_is_newest(self, g: SmartShape) -> bool {
        self.doc.op_count == g.ops_at_start + 1 && self.doc.undo_labels@.len() > 0
    }

    /// What the end of the stroke comes to.
    pub open spec fn smart_end(self) -> SmartEnd {
        match self.figure.smart {
            None => SmartEnd::Keep,
            Some(g) => match g.preview_spec() {
                None => SmartEnd::Keep,
                Some(shape) => if self.stroke_is_newest(g) { SmartEnd::Swap(shape) } else { SmartEnd::Unclean },
            },
        }
    }

    /// What the end of the stroke makes of the state.
    pub open spec fn smart_finished(self, after: App) -> bool {
        if self.smart_end() is Unclean {
            &&& after == (App {
                figure: (FigureHand { smart: None, ..self.figure }),
                shell: (Shell { status: after.shell.status, needs_redraw: true, ..self.shell }),
                ..self
            })
            &&& after.shell.status@ == "smart shape: the stroke could not be swapped cleanly — kept it as drawn"@
        } else {
            after == (App { figure: (FigureHand { smart: None, ..self.figure }), ..self })
        }
    }

    /// The release: where a hold found a figure, and the newest step is
    /// certain to be the stroke, the stroke is taken back for the figure.
    pub fn finish_smart_shape(&mut self) -> (r: SmartEnd)
        ensures
            r == old(self).smart_end(),
            old(self).smart_finished(*final(self)),
    {
        let g = match self.figure.smart.take() {
            None => return SmartEnd::Keep,
            Some(g) => g,
        };
        let shape = match g.preview() {
            None => return SmartEnd::Keep,
            Some(shape) => shape,
        };
        let one = g.ops_at_start < u64::MAX && self.doc.op_count == g.ops_at_start + 1;
        if !one || self.doc.undo_labels.len() == 0 {
            self.set_status("smart shape: the stroke could not be swapped cleanly — kept it as drawn");
            self.shell.needs_redraw = true;
            return SmartEnd::Unclean;
        }
        SmartEnd::Swap(shape)
    }

    /// Says what the stroke became.
    pub fn smart_shape_swapped(&mut self, label: &str, armed: bool)
        ensures
            *final(self) == (App {
                shell: (Shell { status: final(self).shell.status, needs_redraw: true, ..old(self).shell }),
                ..*old(self)
            }),
            final(self).shell.status@ == swapped_text(label@, armed),
    {
        self.shell.status = text::frame_line(
            "smart shape: your stroke became a ",
            label,
            if armed { " — drag to adjust it, Enter commits, Esc cancels" } else { "" },
        );
        self.shell.needs_redraw = true;
    }

    /// The layer whose pixels are lifted for a figure.
    pub open spec fn arms_on(self, r: PxBox, t: Option<usize>) -> bool {
        &&& ({
            let l = self.active_layer();
            t == (if l.lock || l.is_vector_spec() || l.strokes || l.folder || r.l >= r.r || r.t >= r.b {
                None
            } else {
                Some(self.doc.active)
            })
        })
    }

    /// The layer whose pixels the handles open over, once a figure has landed
    /// in the box `r`: the layer in hand, if it
    /// takes pixels, and the box is not empty.
    pub fn arm_smart_transform(&self, r: PxBox) -> (t: Option<usize>)
        requires
            self.doc.wf(),
        ensures
            self.arms_on(r, t),
    {
        let l = &self.doc.layers[self.doc.active];
        if l.lock || l.is_vector() || l.strokes || l.folder {
            return None;
        }
        if r.l < r.r && r.t < r.b {
            Some(self.doc.active)
        } else {
            None
        }
    }
}

/// A stroke whose hold did not mature, or found nothing, stays: whatever the
/// history holds.
pub proof fn law_no_shape_keeps_the_stroke(app: App)
    requires
        app.figure.smart matches Some(g) ==> g.preview_spec() is None,
    ensures
        app.smart_end() is Keep,
{
}

/// A stroke that is snapped, by Shift or by a ruler, never turns into a
/// figure.
pub proof fn law_snapped_strokes_stay(app: App)
    requires
        app.figure.smart_wf(),
        app.figure.smart matches Some(g) ==> g.refused,
    ensures
        app.smart_end() is Keep,
{
}

/// A step is taken back only where it is the stroke's own: with more or fewer
/// steps since the press, nothing is.
pub proof fn law_only_the_stroke_is_taken_back(app: App)
    requires
        app.smart_end() is Swap,
    ensures
        app.figure.smart is Some,
        app.doc.op_count == app.figure.smart->0.ops_at_start + 1,
        app.doc.undo_labels@.len() > 0,
{
}

/// Recognition starts with the stroke where it is switched on: nothing is
/// recognized yet, and a stroke that Shift or a ruler snaps is refused from the
/// start.
pub proof fn law_recognition_starts_with_the_stroke(app: App, after: App, at: Pt, screen: Pt, shift: bool, ops: u64)
    requires
        app.smart_started(at, screen, shift, ops, after),
    ensures
        after.doc == app.doc,
        after.shell == app.shell,
        !app.tools.smart_shape_on ==> after == app,
        app.tools.smart_shape_on ==> {
            &&& after.figure.smart matches Some(g)
            &&& g.pts@.len() == 1
            &&& g.pts@[0] == at
            &&& g.anchor == screen
            &&& !g.ripe
            &&& g.hit is None
            &&& g.adjust is None
            &&& g.ops_at_start == ops
            &&& shift ==> g.refused
            &&& app.doc.rulers.on && app.doc.rulers.items@.len() > 0 ==> g.refused
            &&& app.doc.rulers.on && app.doc.rulers.curves@.len() > 0 ==> g.refused
            &&& !shift && !app.doc.rulers.on ==> !g.refused
            &&& !shift && app.doc.rulers.items@.len() == 0 && app.doc.rulers.curves@.len() == 0 ==> !g.refused
        },
{
}

/// While nothing is recognized the stroke is recorded, Shift refuses it for
/// good, and moving on past the rest starts the wait anew. What is recognized
/// stands, and moving on past it adjusts it.
pub proof fn law_moving_on_starts_the_wait_anew(
    app: App,
    after: App,
    r: SmartMove,
    at: Pt,
    screen: Pt,
    shift: bool,
    past: bool,
)
    requires
        app.smart_moved(after, r, at, screen, shift, past),
    ensures
        after.doc == app.doc,
        after.shell.cmds == app.shell.cmds,
        after.shell.status == app.shell.status,
        app.figure.smart is None ==> r is Nothing && after == app,
        app.figure.smart matches Some(g) ==> {
            let held = g.ripe && g.hit is Some;
            &&& held ==> after == app
            &&& held && (past || g.adjust is Some) ==> r is Adjust
            &&& held && !past && g.adjust is None ==> r is Nothing
            &&& !held ==> {
                &&& after.figure.smart matches Some(now)
                &&& now.pts@.len() == g.pts@.len() + 1
                &&& now.pts@.last() == at
                &&& forall|k: int| 0 <= k < g.pts@.len() ==> #[trigger] now.pts@[k] == g.pts@[k]
                &&& now.refused == (g.refused || shift)
                &&& now.ops_at_start == g.ops_at_start
                &&& past ==> r is Restarted && now.anchor == screen && !now.ripe && now.hit is None
                &&& !past ==> r is Recorded && now.anchor == g.anchor && now.ripe == g.ripe && now.hit == g.hit
                &&& past && g.ripe ==> after.shell.needs_redraw
                &&& !(past && g.ripe) ==> after.shell.needs_redraw == app.shell.needs_redraw
            }
        },
{
}

/// The figure that is shown is the adjusted one, else the recognized one; only
/// what has rested and was recognized is armed.
pub proof fn law_the_adjusted_figure_is_shown(g: SmartShape)
    ensures
        g.adjust matches Some(s) ==> g.preview_spec() == Some(s),
        g.adjust is None ==> g.preview_spec() == g.hit,
        g.armed_spec() ==> g.ripe && g.hit is Some,
        g.ripe && g.hit is Some ==> g.armed_spec(),
{
}

/// At its end a recognized stroke is swapped for the figure that is shown, where
/// the stroke is the newest step; with any other step between it is kept, and
/// that is said. The recognition is over in any case.
pub proof fn law_a_recognized_stroke_is_swapped(app: App, after: App)
    requires
        app.smart_finished(after),
    ensures
        after.figure.smart is None,
        after.doc == app.doc,
        after.shell.cmds == app.shell.cmds,
        app.figure.smart is None ==> app.smart_end() is Keep,
        app.figure.smart matches Some(g) ==> {
            let newest = app.doc.op_count == g.ops_at_start + 1 && app.doc.undo_labels@.len() > 0;
            &&& g.hit is None && g.adjust is None ==> app.smart_end() is Keep
            &&& newest ==> (g.adjust matches Some(s) ==> app.smart_end() == SmartEnd::Swap(s))
            &&& newest && g.adjust is None ==> (g.hit matches Some(s) ==> app.smart_end() == SmartEnd::Swap(s))
            &&& !newest && (g.hit is Some || g.adjust is Some) ==> app.smart_end() is Unclean && after.shell.status@
                == "smart shape: the stroke could not be swapped cleanly — kept it as drawn"@
                && after.shell.needs_redraw
            &&& newest || (g.hit is None && g.adjust is None) ==> after.shell == app.shell
        },
{
}

/// What is said of a rest, of an adjusted figure and of a swap names the figure.
pub proof fn law_a_figure_is_told_by_name(s: Shape, label: Seq<char>)
    ensures
        hold_text(false, Some(s), label) == "hold: release to make it a "@ + label + " — keep moving to keep the stroke"@,
        hold_text(true, None, label) == "held, but this stroke is snapped — it stays as drawn"@,
        hold_text(false, None, label) == "held, but that is not a shape — it stays as drawn"@,
        adjust_text(label, true) == "smart shape: "@ + label + " — regular while Shift is held, release inks it"@,
        adjust_text(label, false) == "smart shape: "@ + label + " — drag to size and turn it, Shift makes it regular"@,
        swapped_text(label, true) == "smart shape: your stroke became a "@ + label
            + " — drag to adjust it, Enter commits, Esc cancels"@,
        swapped_text(label, false) == "smart shape: your stroke became a "@ + label,
{
    reveal_strlit("");
    assert("smart shape: your stroke became a "@ + label + ""@ =~= "smart shape: your stroke became a "@ + label);
}

/// A rest ripens the stroke once: what the recognizer found is kept, and nothing
/// on a stroke that is snapped.
pub proof fn law_a_rest_ripens_once(app: App, after: App, held: bool, fit: Option<Shape>, label: Seq<char>)
    requires
        app.rested(after, held, fit, label),
    ensures
        app.figure.smart is None || !held ==> after == app,
        app.figure.smart matches Some(g) ==> {
            &&& g.ripe ==> after == app
            &&& held && !g.ripe ==> {
                &&& after.figure.smart matches Some(now)
                &&& now.ripe
                &&& g.refused ==> now.hit is None
                &&& !g.refused ==> now.hit == fit
                &&& now.pts == g.pts && now.anchor == g.anchor && now.adjust == g.adjust && now.refused == g.refused
                &&& after.shell.needs_redraw
                &&& !g.refused && fit is Some ==> after.shell.status@ == "hold: release to make it a "@ + label
                    + " — keep moving to keep the stroke"@
                &&& g.refused ==> after.shell.status@ == "held, but this stroke is snapped — it stays as drawn"@
                &&& !g.refused && fit is None ==> after.shell.status@ == "held, but that is not a shape — it stays as drawn"@
            }
        },
        after.doc == app.doc,
{
}

/// Only a recognized figure is adjusted, and it is then the one that is shown.
pub proof fn law_a_recognized_figure_is_adjusted(app: App, after: App, shape: Shape, label: Seq<char>, shift: bool)
    requires
        app.shape_adjusted(after, shape, label, shift),
    ensures
        app.figure.smart is None ==> after == app,
        app.figure.smart matches Some(g) ==> {
            &&& g.hit is None && g.adjust is None ==> after == app
            &&& g.hit is Some || g.adjust is Some ==> {
                &&& after.figure.smart matches Some(now)
                &&& now.adjust == Some(shape)
                &&& now.hit == g.hit && now.pts == g.pts && now.ripe == g.ripe
                &&& after.shell.needs_redraw
            }
        },
        after.doc == app.doc,
{
}

/// The figure is lifted off the active layer where that holds plain pixels, is
/// open, and the figure covers any.
pub proof fn law_a_figure_is_lifted_off_plain_pixels(app: App, r: PxBox, t: Option<usize>)
    requires
        app.arms_on(r, t),
    ensures
        ({
            let l = app.doc.layers@[app.doc.active as int];
            &&& l.lock || l.folder || l.strokes || l.kind is Frame || l.kind is Balloon || l.kind is Text ==> t is None
            &&& r.l >= r.r || r.t >= r.b ==> t is None
            &&& !l.lock && !l.folder && !l.strokes && !(l.kind is Frame || l.kind is Balloon || l.kind is Text) && r.l < r.r
                && r.t < r.b ==> t == Some(app.doc.active)
        }),
{
}

} // verus!
