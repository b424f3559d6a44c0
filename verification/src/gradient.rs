//! The Gradient tool: the straight ramp, and the freeform gradient that is
//! drawn in several lines.

use vstd::prelude::*;
use crate::app::{App, AppCmd, FillParams, GradFree, Guide, PaintHand, Ramp, Shell, Stops, Work};
use crate::geom::{Colour, Pt};
use crate::modes::GradMode;
use crate::text;

verus! {

/// The bit pattern of 1.
pub const ONE: u32 = 0x3f80_0000u32;

/// What is to be painted, if anything.
#[derive(Debug)]
pub enum GradAct {
    Nothing,
    /// The straight ramp, into the pixels of the layer in hand.
    Paint(Ramp),
    /// A field of colour between the lines.
    Field(Vec<Guide>, Stops),
}

/// A colour with this opacity.
pub open spec fn with_alpha(c: Colour, a: u32) -> Colour {
    Colour { a, ..c }
}

/// The ramp that a drag spans.
pub open spec fn ramp_of(mode: GradMode, a: Pt, b: Pt, fg: Colour, bg: Colour, stops: Stops) -> Ramp {
    let (from, to) = match mode {
        GradMode::FgToBg | GradMode::Freeform => (with_alpha(fg, ONE), with_alpha(bg, ONE)),
        GradMode::FgToTransparent => (with_alpha(fg, ONE), with_alpha(fg, 0)),
        GradMode::TransparentToFg => (with_alpha(fg, 0), with_alpha(fg, ONE)),
    };
    Ramp { a, b, from, to, stops }
}

fn alpha(c: Colour, a: u32) -> (r: Colour)
    ensures
        r == with_alpha(c, a),
{
    Colour { r: c.r, g: c.g, b: c.b, a }
}

fn make_ramp(mode: GradMode, a: Pt, b: Pt, fg: Colour, bg: Colour, stops: Stops) -> (r: Ramp)
    ensures
        r == ramp_of(mode, a, b, fg, bg, stops),
        mode is FgToTransparent ==> r.from.a == ONE && r.to.a == 0,
        mode is TransparentToFg ==> r.from.a == 0 && r.to.a == ONE,
{
    let (from, to) = match mode {
        GradMode::FgToBg | GradMode::Freeform => (alpha(fg, ONE), alpha(bg, ONE)),
        GradMode::FgToTransparent => (alpha(fg, ONE), alpha(fg, 0)),
        GradMode::TransparentToFg => (alpha(fg, 0), alpha(fg, ONE)),
    };
    Ramp { a, b, from, to, stops }
}

/// The colour of the next line, once `drawn` are down: the pen's, then the
/// sub colour, then the pen's again for every line behind.
pub open spec fn guide_colour(drawn: int, fg: Colour, bg: Colour) -> Colour {
    with_alpha(if drawn == 1 { bg } else { fg }, ONE)
}

/// Are there enough lines for a gradient?
pub open spec fn ready(g: GradFree) -> bool {
    g.done@.len() >= 2
}

/// What a banked line says.
pub open spec fn banked_text(n: nat) -> Seq<char> {
    if n == 1 {
        "now draw the second line — the sub colour lands on it; Esc cancels"@
    } else {
        text::counted(
            ""@,
            n,
            " lines — Enter (or a click) paints; draw another line to add the main colour to it, Backspace takes one back"@,
        )
    }
}

/// What a painted field says.
pub open spec fn field_text(live: bool, n: nat) -> Seq<char> {
    if live {
        "freeform gradient painted — baked, live gradient layers are straight-line only"@
    } else if n > 2 {
        text::counted("freeform gradient painted — "@, n, " lines, a colour each"@)
    } else {
        "freeform gradient painted"@
    }
}

impl App {
    /// What the release of a ramp drag makes of the state, and what it paints.
    pub open spec fn ramp_finished(self, after: App, r: GradAct, a: Pt, b: Pt, short: bool) -> bool {
        let ramp = ramp_of(self.tools.grad_mode, a, b, self.tools.active_color, self.tools.sub_color, self.tools.grad_stops);
        if short {
            &&& r is Nothing
            &&& after == (App { shell: after.shell, ..self })
            &&& after.shell.says(self.shell, "drag the ramp direction — colour follows the line"@)
        } else if self.tools.fill_live {
            &&& r is Nothing
            &&& after == (App { shell: after.shell, ..self })
            &&& after.shell.asks(
                self.shell,
                if self.active_layer().kind is FillGradient {
                    AppCmd::SetFillParams(self.doc.active, FillParams::Ramp(ramp))
                } else {
                    AppCmd::NewLiveFill(FillParams::Ramp(ramp))
                },
            )
        } else {
            r == GradAct::Paint(ramp) && after == self
        }
    }

    /// The release of a ramp drag. With live layers on, it is parameters: on a
    /// layer that is a ramp already they replace it, and on any other a new
    /// layer is made.
    pub fn finish_gradient(&mut self, a: Pt, b: Pt, short: bool) -> (r: GradAct)
        requires
            old(self).doc.wf(),
        ensures
            old(self).ramp_finished(*final(self), r, a, b, short),
            old(self).wf() ==> final(self).wf(),
    {
        if short {
            self.set_status("drag the ramp direction — colour follows the line");
            return GradAct::Nothing;
        }
        let ramp = make_ramp(self.tools.grad_mode, a, b, self.tools.active_color, self.tools.sub_color, self.tools.grad_stops);
        if self.tools.fill_live {
            let li: usize = self.doc.active;
            if matches!(self.doc.layers[li].kind, crate::doc::LayerKind::FillGradient) {
                self.push_cmd(AppCmd::SetFillParams(li, FillParams::Ramp(ramp)));
            } else {
                self.push_cmd(AppCmd::NewLiveFill(FillParams::Ramp(ramp)));
            }
            return GradAct::Nothing;
        }
        GradAct::Paint(ramp)
    }

    /// What the painted ramp makes of the state.
    pub open spec fn ramp_told(self, after: App, painted: bool) -> bool {
        &&& after == (App {
            work: (Work { dirty: self.work.dirty || painted, ..self.work }),
            shell: after.shell,
            ..self
        })
        &&& after.shell.says(
            self.shell,
            if painted { "gradient painted"@ } else { "gradient needs a raster layer (unlocked)"@ },
        )
    }

    /// Tells how painting the ramp went.
    pub fn gradient_painted(&mut self, painted: bool)
        ensures
            old(self).ramp_told(*final(self), painted),
            old(self).wf() ==> final(self).wf(),
    {
        if painted {
            self.mark_dirty();
            self.set_status("gradient painted");
        } else {
            self.set_status("gradient needs a raster layer (unlocked)");
        }
    }

    /// What the press of a freeform line makes of the state.
    pub open spec fn guide_begun(self, after: App, at: Pt) -> bool {
        &&& after == (App { paint: (PaintHand { free: after.paint.free, ..self.paint }), ..self })
        &&& after.paint.free matches Some(g)
        &&& g == (GradFree { done: g.done, cur: g.cur, drawing: true })
        &&& g.cur@ == seq![at]
        &&& g.done@ == (match self.paint.free {
            Some(f) => f.done@,
            None => seq![],
        })
    }

    /// A freeform line begins; the lines before it stay.
    pub fn begin_grad_free(&mut self, at: Pt)
        ensures
            old(self).guide_begun(*final(self), at),
    {
        let mut cur: Vec<Pt> = Vec::new();
        cur.push(at);
        proof {
            assert(cur@ =~= seq![at]);
        }
        let done = match self.paint.free.take() {
            Some(g) => g.done,
            None => Vec::new(),
        };
        self.paint.free = Some(GradFree { done, cur, drawing: true });
    }

    /// What the end of a freeform line makes of the state, where it does not
    /// commit.
    pub open spec fn guide_ended(self, after: App, stroke: u64, is_line: bool) -> bool {
        let g = self.paint.free->0;
        let drawn = g.done@.len();
        &&& after == (App {
            paint: (PaintHand { free: after.paint.free, ..self.paint }),
            shell: after.shell,
            ..self
        })
        &&& if !is_line {
            &&& after.shell.says(
                self.shell,
                if drawn == 0 {
                    "draw the FIRST guide line — a tap is not a line"@
                } else {
                    "draw the SECOND guide line — a tap is not a line"@
                },
            )
            &&& if drawn == 0 {
                after.paint.free is None
            } else {
                &&& after.paint.free matches Some(now)
                &&& now == (GradFree { done: g.done, cur: now.cur, drawing: false })
                &&& now.cur@ == Seq::<Pt>::empty()
            }
        } else {
            &&& after.shell.says(self.shell, banked_text(drawn + 1))
            &&& after.paint.free matches Some(now)
            &&& now == (GradFree { done: now.done, cur: now.cur, drawing: false })
            &&& now.cur@ == Seq::<Pt>::empty()
            &&& now.done@ == g.done@.push(
                Guide { stroke, colour: guide_colour(drawn as int, self.tools.active_color, self.tools.sub_color) },
            )
        }
    }

    /// What the end of a freeform line makes of the state, and what is painted.
    pub open spec fn line_released(self, after: App, r: GradAct, stroke: u64, is_line: bool) -> bool {
        &&& match self.paint.free {
            None => r is Nothing && after == self,
            Some(g) => if !is_line && ready(g) {
                self.field_committed(after, r, g.done)
            } else {
                r is Nothing && self.guide_ended(after, stroke, is_line)
            },
        }
    }

    /// One line ended: `stroke` is the line, `is_line` says that it is no tap.
    /// It is banked with its colour. A tap is no line; once there are two, it
    /// paints.
    pub fn release_grad_free(&mut self, stroke: u64, is_line: bool) -> (r: GradAct)
        requires
            old(self).doc.wf(),
        ensures
            old(self).line_released(*final(self), r, stroke, is_line),
            old(self).wf() ==> final(self).wf(),
    {
        let g = match self.paint.free.take() {
            None => return GradAct::Nothing,
            Some(g) => g,
        };
        let mut done = g.done;
        let drawn: usize = done.len();
        if !is_line {
            if drawn >= 2 {
                return self.commit_field(done);
            }
            if drawn > 0 {
                self.paint.free = Some(GradFree { done, cur: Vec::new(), drawing: false });
            }
            self.set_status(
                if drawn == 0 {
                    "draw the FIRST guide line — a tap is not a line"
                } else {
                    "draw the SECOND guide line — a tap is not a line"
                },
            );
            return GradAct::Nothing;
        }
        let colour = self.grad_free_next_colour(drawn);
        done.push(Guide { stroke, colour });
        let n: usize = done.len();
        self.paint.free = Some(GradFree { done, cur: Vec::new(), drawing: false });
        if n == 1 {
            self.set_status("now draw the second line — the sub colour lands on it; Esc cancels");
        } else {
            self.shell.status = text::count_line(
                "",
                n,
                " lines — Enter (or a click) paints; draw another line to add the main colour to it, Backspace takes one back",
            );
        }
        GradAct::Nothing
    }

    /// The colour of the next line.
    fn grad_free_next_colour(&self, drawn: usize) -> (r: Colour)
        ensures
            r == guide_colour(drawn as int, self.tools.active_color, self.tools.sub_color),
    {
        alpha(if drawn == 1 { self.tools.sub_color } else { self.tools.active_color }, ONE)
    }

    /// What painting the lines makes of the state, and what is painted.
    pub open spec fn field_committed(self, after: App, r: GradAct, done: Vec<Guide>) -> bool {
        &&& after == (App {
            paint: (PaintHand { free: None, ..self.paint }),
            shell: (Shell { status: after.shell.status, needs_redraw: true, ..self.shell }),
            ..self
        })
        &&& if self.guarded() {
            r is Nothing && after.shell.status@ == crate::canvas_input::guard_text(self.active_layer())->0
        } else {
            r == GradAct::Field(done, self.tools.grad_stops) && after.shell.status == self.shell.status
        }
    }

    /// Hands the lines over to be painted; the layer in hand is asked again.
    fn commit_field(&mut self, done: Vec<Guide>) -> (r: GradAct)
        requires
            old(self).doc.wf(),
            old(self).paint.free is None,
        ensures
            old(self).field_committed(*final(self), r, done),
    {
        self.shell.needs_redraw = true;
        if self.guard_frame_layer() {
            return GradAct::Nothing;
        }
        GradAct::Field(done, self.tools.grad_stops)
    }

    /// What asking for the gradient makes of the state, and what is painted.
    pub open spec fn lines_committed(self, after: App, r: GradAct) -> bool {
        &&& match self.paint.free {
            None => r is Nothing && after == self,
            Some(g) => if ready(g) {
                self.field_committed(after, r, g.done)
            } else {
                &&& r is Nothing
                &&& after == (App { shell: after.shell, ..self })
                &&& after.shell.says(
                    self.shell,
                    "a freeform gradient needs two drawn lines — Esc cancels"@,
                )
            },
        }
    }

    /// Paints what the lines span, where there are two or more. Too early, the
    /// lines stay.
    pub fn commit_grad_free(&mut self) -> (r: GradAct)
        requires
            old(self).doc.wf(),
        ensures
            old(self).lines_committed(*final(self), r),
            old(self).wf() ==> final(self).wf(),
    {
        let g = match self.paint.free.take() {
            None => return GradAct::Nothing,
            Some(g) => g,
        };
        if g.done.len() < 2 {
            self.paint.free = Some(g);
            self.set_status("a freeform gradient needs two drawn lines — Esc cancels");
            return GradAct::Nothing;
        }
        self.commit_field(g.done)
    }

    /// What the painted lines make of the state.
    pub open spec fn field_told(self, after: App, painted: bool, n: usize) -> bool {
        &&& after == (App {
            work: (Work { dirty: self.work.dirty || painted, ..self.work }),
            shell: after.shell,
            ..self
        })
        &&& after.shell.says(
            self.shell,
            if painted {
                field_text(self.tools.fill_live, n as nat)
            } else {
                "gradient needs a raster layer (unlocked)"@
            },
        )
    }

    /// Tells how painting `n` lines went.
    pub fn finish_gradient_freeform_multi(&mut self, painted: bool, n: usize)
        ensures
            old(self).field_told(*final(self), painted, n),
            old(self).wf() ==> final(self).wf(),
    {
        if !painted {
            self.set_status("gradient needs a raster layer (unlocked)");
            return;
        }
        self.mark_dirty();
        if self.tools.fill_live {
            self.set_status("freeform gradient painted — baked, live gradient layers are straight-line only");
        } else if n > 2 {
            self.shell.status = text::count_line("freeform gradient painted — ", n, " lines, a colour each");
        } else {
            self.set_status("freeform gradient painted");
        }
    }

    /// What cancelling makes of the state.
    pub open spec fn free_cancelled(self, after: App) -> bool {
        &&& after == (App {
            paint: (PaintHand { free: None, ..self.paint }),
            shell: (Shell { status: after.shell.status, needs_redraw: true, ..self.shell }),
            ..self
        })
        &&& after.shell.status@ == "freeform gradient cancelled"@
    }

    /// What taking the last line back makes of the state.
    pub open spec fn line_undone(self, after: App) -> bool {
        &&& match self.paint.free {
            None => after == self,
            Some(g) => if g.done@.len() <= 1 {
                self.free_cancelled(after)
            } else {
                &&& after == (App {
                    paint: (PaintHand { free: after.paint.free, ..self.paint }),
                    shell: (Shell { status: after.shell.status, needs_redraw: true, ..self.shell }),
                    ..self
                })
                &&& after.paint.free matches Some(now)
                &&& now == (GradFree { done: now.done, ..g })
                &&& now.done@ == g.done@.drop_last()
                &&& after.shell.status@ == text::counted(
                    "line removed — "@,
                    (g.done@.len() - 1) as nat,
                    " left, Backspace again to keep walking back"@,
                )
            },
        }
    }

    /// Takes the last line back; at the first one the gradient is cancelled.
    pub fn grad_free_undo_guide(&mut self)
        ensures
            old(self).line_undone(*final(self)),
            old(self).wf() ==> final(self).wf(),
    {
        let mut g = match self.paint.free.take() {
            None => return,
            Some(g) => g,
        };
        let _ = g.done.pop();
        let left: usize = g.done.len();
        if left == 0 {
            self.set_status("freeform gradient cancelled");
        } else {
            self.paint.free = Some(g);
            self.shell.status = text::count_line("line removed — ", left, " left, Backspace again to keep walking back");
        }
        self.shell.needs_redraw = true;
    }

    /// Throws the lines away. Nothing was painted.
    pub fn cancel_grad_free(&mut self)
        ensures
            old(self).paint.free is None ==> *final(self) == *old(self),
            old(self).paint.free is Some ==> old(self).free_cancelled(*final(self)),
    {
        if self.paint.free.is_some() {
            self.paint.free = None;
            self.set_status("freeform gradient cancelled");
            self.shell.needs_redraw = true;
        }
    }
}

/// With two lines the colours are those of the straight ramp: the pen's at the
/// first line, the sub colour at the second.
pub proof fn law_two_lines_are_the_ramp(fg: Colour, bg: Colour, a: Pt, b: Pt, stops: Stops)
    ensures
        guide_colour(0, fg, bg) == ramp_of(GradMode::FgToBg, a, b, fg, bg, stops).from,
        guide_colour(1, fg, bg) == ramp_of(GradMode::FgToBg, a, b, fg, bg, stops).to,
        forall|n: int| n >= 2 ==> #[trigger] guide_colour(n, fg, bg) == guide_colour(0, fg, bg),
{
}

/// A ramp runs from the drag's start to its end, along its stops. Between two
/// colours both ends are opaque, the pen's first. Towards or from nothing both
/// ends are the pen's colour, and it is the far or the near end that is clear.
pub proof fn law_a_ramp_has_its_ends(mode: GradMode, a: Pt, b: Pt, fg: Colour, bg: Colour, stops: Stops)
    ensures
        ({
            let r = ramp_of(mode, a, b, fg, bg, stops);
            &&& r.a == a && r.b == b && r.stops == stops
            &&& r.from.r == fg.r && r.from.g == fg.g && r.from.b == fg.b
            &&& mode is FgToBg || mode is Freeform ==> r.from.a == ONE && r.to.a == ONE
            &&& mode is FgToBg || mode is Freeform ==> r.to.r == bg.r && r.to.g == bg.g && r.to.b == bg.b
            &&& mode is FgToTransparent || mode is TransparentToFg ==> r.to.r == fg.r && r.to.g == fg.g && r.to.b
                == fg.b
            &&& mode is FgToTransparent ==> r.from.a == ONE && r.to.a == 0
            &&& mode is TransparentToFg ==> r.from.a == 0 && r.to.a == ONE
        }),
{
}

/// The two ramps of one colour are each other backwards: what the drag from a to
/// b clears towards its end, the drag from b to a clears from its start.
pub proof fn law_clear_ramps_are_each_other_reversed(a: Pt, b: Pt, fg: Colour, bg: Colour, stops: Stops)
    ensures
        ramp_of(GradMode::FgToTransparent, a, b, fg, bg, stops).from == ramp_of(
            GradMode::TransparentToFg,
            b,
            a,
            fg,
            bg,
            stops,
        ).to,
        ramp_of(GradMode::FgToTransparent, a, b, fg, bg, stops).to == ramp_of(
            GradMode::TransparentToFg,
            b,
            a,
            fg,
            bg,
            stops,
        ).from,
{
}

/// A drag that is long enough paints its ramp at once, or, with live layers on,
/// asks for it: as the new parameters of a layer that is a ramp already, else as
/// a layer of its own. The ends have the colours of the tools. A drag that is
/// too short does neither.
pub proof fn law_a_drag_gives_one_ramp(app: App, after: App, r: GradAct, a: Pt, b: Pt, short: bool)
    requires
        app.ramp_finished(after, r, a, b, short),
    ensures
        after == (App { shell: after.shell, ..app }),
        !(r is Field),
        r is Paint == (!short && !app.tools.fill_live),
        !short && !app.tools.fill_live ==> after == app,
        after.shell.needs_redraw == app.shell.needs_redraw,
        short ==> after.shell.cmds == app.shell.cmds,
        !short && app.tools.fill_live ==> after.shell.cmds@.len() == app.shell.cmds@.len() + 1,
        !short && app.tools.fill_live && app.doc.layers@[app.doc.active as int].kind is FillGradient ==> (
        after.shell.cmds@.last() matches AppCmd::SetFillParams(li, FillParams::Ramp(ramp)) && {
            &&& li == app.doc.active
            &&& ramp.a == a && ramp.b == b
            &&& ramp.stops == app.tools.grad_stops
            &&& ramp.from.r == app.tools.active_color.r
            &&& app.tools.grad_mode is FgToTransparent ==> ramp.to.a == 0
            &&& app.tools.grad_mode is FgToBg ==> ramp.to.r == app.tools.sub_color.r
        }),
        !short && app.tools.fill_live && !(app.doc.layers@[app.doc.active as int].kind is FillGradient) ==> (
        after.shell.cmds@.last() matches AppCmd::NewLiveFill(FillParams::Ramp(ramp)) && {
            &&& ramp.a == a && ramp.b == b
            &&& ramp.stops == app.tools.grad_stops
            &&& ramp.from.r == app.tools.active_color.r
            &&& app.tools.grad_mode is FgToTransparent ==> ramp.to.a == 0
            &&& app.tools.grad_mode is FgToBg ==> ramp.to.r == app.tools.sub_color.r
        }),
        r matches GradAct::Paint(ramp) ==> {
            &&& ramp.a == a && ramp.b == b
            &&& ramp.stops == app.tools.grad_stops
            &&& ramp.from.r == app.tools.active_color.r && ramp.from.g == app.tools.active_color.g && ramp.from.b
                == app.tools.active_color.b
            &&& app.tools.grad_mode is FgToBg ==> ramp.to.r == app.tools.sub_color.r && ramp.to.a == ONE
            &&& app.tools.grad_mode is FgToTransparent ==> ramp.from.a == ONE && ramp.to.a == 0
            &&& app.tools.grad_mode is TransparentToFg ==> ramp.from.a == 0 && ramp.to.a == ONE
        },
{
}

/// Every line is opaque, the second in the sub colour and any other in the
/// pen's.
pub proof fn law_a_line_has_one_of_two_colours(drawn: int, fg: Colour, bg: Colour)
    ensures
        guide_colour(drawn, fg, bg).a == ONE,
        drawn == 1 ==> guide_colour(drawn, fg, bg) == (Colour { a: ONE, ..bg }),
        drawn != 1 ==> guide_colour(drawn, fg, bg) == (Colour { a: ONE, ..fg }),
{
}

/// The press of a line starts it where it fell and takes no line away.
pub proof fn law_a_line_starts_at_its_press(app: App, after: App, at: Pt)
    requires
        app.guide_begun(after, at),
    ensures
        after.paint.free is Some,
        after.paint.free->0.drawing,
        after.paint.free->0.cur@.len() == 1,
        after.paint.free->0.cur@[0] == at,
        app.paint.free matches Some(f) ==> after.paint.free->0.done@ == f.done@,
        app.paint.free is None ==> after.paint.free->0.done@.len() == 0,
        after.doc == app.doc,
        after.shell == app.shell,
{
}

/// A line that ends is the last of the lines, with its own colour; a tap adds
/// none. Nothing is held any more, and the lines before stay.
pub proof fn law_a_line_is_banked_last(app: App, after: App, stroke: u64, is_line: bool)
    requires
        app.paint.free is Some,
        app.guide_ended(after, stroke, is_line),
    ensures
        is_line ==> (after.paint.free matches Some(now) && {
            let was = app.paint.free->0.done@;
            &&& !now.drawing
            &&& now.cur@.len() == 0
            &&& now.done@.len() == was.len() + 1
            &&& now.done@.last().stroke == stroke
            &&& now.done@.last().colour.a == ONE
            &&& was.len() == 1 ==> now.done@.last().colour.r == app.tools.sub_color.r
            &&& was.len() != 1 ==> now.done@.last().colour.r == app.tools.active_color.r
            &&& now.done@.take(was.len() as int) == was
        }),
        !is_line && app.paint.free->0.done@.len() == 0 ==> after.paint.free is None,
        !is_line && app.paint.free->0.done@.len() > 0 ==> (after.paint.free matches Some(now) && !now.drawing
            && now.cur@.len() == 0 && now.done == app.paint.free->0.done),
        after.doc == app.doc,
        after.shell.cmds == app.shell.cmds,
        after.work == app.work,
{
}

/// The lines go to be painted as they stand, and are let go; a layer that cannot
/// take ink gets nothing.
pub proof fn law_lines_are_painted_once(app: App, after: App, r: GradAct, done: Vec<Guide>)
    requires
        app.field_committed(after, r, done),
    ensures
        after.paint.free is None,
        after.shell.needs_redraw,
        after.shell.cmds == app.shell.cmds,
        after.doc == app.doc,
        !(r is Paint),
        ({
            let l = app.doc.layers@[app.doc.active as int];
            &&& l.lock || l.folder || l.kind is Frame || l.kind is Balloon || l.kind is Text ==> r is Nothing
            &&& l.lock ==> after.shell.status@ == "layer is locked — unlock it in the Layers palette to edit"@
            &&& !(l.lock || l.folder || l.kind is Frame || l.kind is Balloon || l.kind is Text) ==> r
                == GradAct::Field(done, app.tools.grad_stops) && after.shell.status == app.shell.status
        }),
{
}

/// Cancelling lets the lines go and paints nothing.
pub proof fn law_cancelling_leaves_the_page(app: App, after: App)
    requires
        app.free_cancelled(after),
    ensures
        after.paint.free is None,
        after.doc == app.doc,
        after.work == app.work,
        after.shell.cmds == app.shell.cmds,
        after.shell.needs_redraw,
        after.shell.status@ == "freeform gradient cancelled"@,
{
}

/// Two lines are enough for a gradient, and one is not.
pub proof fn law_two_lines_are_enough(g: GradFree)
    ensures
        g.done@.len() < 2 ==> !ready(g),
        g.done@.len() >= 2 ==> ready(g),
{
}

/// What is said of the lines counts them.
pub proof fn law_the_lines_are_counted(n: nat)
    ensures
        banked_text(1) == "now draw the second line — the sub colour lands on it; Esc cancels"@,
        n != 1 ==> banked_text(n) == text::dec(n)
            + " lines — Enter (or a click) paints; draw another line to add the main colour to it, Backspace takes one back"@,
        field_text(true, n) == "freeform gradient painted — baked, live gradient layers are straight-line only"@,
        n <= 2 ==> field_text(false, n) == "freeform gradient painted"@,
        n > 2 ==> field_text(false, n) == "freeform gradient painted — "@ + text::dec(n) + " lines, a colour each"@,
{
    reveal_strlit("");
    assert(""@ + text::dec(n) =~= text::dec(n));
}

/// The end of a freeform line: a line is banked, a tap paints where there are two
/// lines and else does not count.
pub proof fn law_a_tap_paints_two_lines(app: App, after: App, r: GradAct, stroke: u64, is_line: bool)
    requires
        app.line_released(after, r, stroke, is_line),
    ensures
        app.paint.free is None ==> r is Nothing && after == app,
        app.paint.free matches Some(g) ==> {
            let l = app.doc.layers@[app.doc.active as int];
            let closed = l.lock || l.folder || l.kind is Frame || l.kind is Balloon || l.kind is Text;
            &&& is_line ==> r is Nothing && after.paint.free is Some && after.paint.free->0.done@.len() == g.done@.len() + 1
            &&& is_line ==> after.paint.free->0.done@.last().stroke == stroke
            &&& !is_line && g.done@.len() >= 2 ==> after.paint.free is None
            &&& !is_line && g.done@.len() >= 2 && !closed ==> r == GradAct::Field(g.done, app.tools.grad_stops)
            &&& !is_line && g.done@.len() >= 2 && closed ==> r is Nothing
            &&& !is_line && g.done@.len() == 1 ==> r is Nothing && after.paint.free is Some && after.paint.free->0.done
                == g.done && after.shell.status@ == "draw the SECOND guide line — a tap is not a line"@
            &&& !is_line && g.done@.len() == 0 ==> r is Nothing && after.paint.free is None && after.shell.status@
                == "draw the FIRST guide line — a tap is not a line"@
        },
        after.doc == app.doc,
{
}

/// Asking for the gradient paints the lines where there are two or more, and else
/// keeps them.
pub proof fn law_the_gradient_waits_for_two_lines(app: App, after: App, r: GradAct)
    requires
        app.lines_committed(after, r),
    ensures
        app.paint.free is None ==> r is Nothing && after == app,
        app.paint.free matches Some(g) ==> {
            let l = app.doc.layers@[app.doc.active as int];
            let closed = l.lock || l.folder || l.kind is Frame || l.kind is Balloon || l.kind is Text;
            &&& g.done@.len() < 2 ==> r is Nothing && after.paint == app.paint && after.shell.status@
                == "a freeform gradient needs two drawn lines — Esc cancels"@
            &&& g.done@.len() >= 2 ==> after.paint.free is None
            &&& g.done@.len() >= 2 && !closed ==> r == GradAct::Field(g.done, app.tools.grad_stops)
            &&& g.done@.len() >= 2 && closed ==> r is Nothing
        },
        after.doc == app.doc,
{
}

/// What was painted makes the work unsaved and is told; what was not is told too.
pub proof fn law_painting_is_told(app: App, after: App, painted: bool, n: usize)
    ensures
        app.ramp_told(after, painted) || app.field_told(after, painted, n) ==> after.work.dirty == (app.work.dirty || painted)
            && after.doc == app.doc && after.shell.cmds == app.shell.cmds,
        app.ramp_told(after, true) ==> after.shell.status@ == "gradient painted"@,
        app.ramp_told(after, false) || app.field_told(after, false, n) ==> after.shell.status@
            == "gradient needs a raster layer (unlocked)"@,
        app.field_told(after, true, n) && app.tools.fill_live ==> after.shell.status@
            == "freeform gradient painted — baked, live gradient layers are straight-line only"@,
        app.field_told(after, true, n) && !app.tools.fill_live && n <= 2 ==> after.shell.status@ == "freeform gradient painted"@,
        app.field_told(after, true, n) && !app.tools.fill_live && n > 2 ==> after.shell.status@
            == "freeform gradient painted — "@ + text::dec(n as nat) + " lines, a colour each"@,
{
}

/// Backspace takes the last line back and leaves the others; at the first one the
/// gradient is cancelled.
pub proof fn law_the_last_line_is_taken_back(app: App, after: App, k: int)
    requires
        app.line_undone(after),
    ensures
        app.paint.free is None ==> after == app,
        app.paint.free matches Some(g) ==> {
            &&& g.done@.len() <= 1 ==> after.paint.free is None && after.shell.status@ == "freeform gradient cancelled"@
            &&& g.done@.len() > 1 ==> after.paint.free is Some && after.paint.free->0.done@.len() == g.done@.len() - 1
                && after.paint.free->0.cur == g.cur && after.paint.free->0.drawing == g.drawing
            &&& g.done@.len() > 1 && 0 <= k < g.done@.len() - 1 ==> after.paint.free->0.done@[k] == g.done@[k]
            &&& g.done@.len() > 1 ==> after.shell.status@ == "line removed — "@ + text::dec((g.done@.len() - 1) as nat)
                + " left, Backspace again to keep walking back"@
            &&& after.shell.needs_redraw
        },
        after.doc == app.doc,
        after.work == app.work,
{
}

} // verus!
