//! Rulers: placing one with a drag or with clicks, and moving one with the
//! Object tool. The drawing core keeps their geometry.

use vstd::prelude::*;
use crate::app::{App, RulerHand, Shell};
use crate::canvas_input::{RulerGrab, RulerMove};
use crate::doc::{CurveRuler, Document, Ruler, Rulers};
use crate::geom::Pt;
use crate::modes::RulerKind;
use crate::text;

verus! {

/// What the shell measured of the drag that places a ruler.
#[derive(Debug)]
pub struct RulerFacts {
    /// Too short for a direction.
    pub tiny: bool,
    /// Too short for a horizon.
    pub short: bool,
    /// So short that the rings stay free.
    pub free_rings: bool,
    /// The spacing of the rings, as it is shown.
    pub rings: String,
    /// The shell's name for the ruler that the drag makes.
    pub ruler: u64,
}

/// Why the drag makes no ruler.
pub open spec fn ruler_refusal(kind: RulerKind, f: RulerFacts) -> Option<Seq<char>> {
    match kind {
        RulerKind::Line if f.tiny => Some("drag further to draw a line ruler"@),
        RulerKind::Perspective if f.short => Some("drag the horizon — both ends become vanishing points"@),
        RulerKind::Perspective1 if f.short => Some("drag from the vanishing point along the eye level"@),
        RulerKind::Perspective3 if f.short => Some("drag the horizon — both ends become vanishing points"@),
        RulerKind::Curve => Some("curve ruler: click vertices on the canvas"@),
        RulerKind::Parallel if f.tiny => Some("drag further to set the direction"@),
        RulerKind::Symmetric if f.tiny => Some("drag outward from the symmetry centre"@),
        _ => None,
    }
}

/// What a new ruler says.
pub open spec fn ruler_text(kind: RulerKind, f: RulerFacts, lines: u32) -> Seq<char> {
    match kind {
        RulerKind::Symmetric => text::counted("symmetric ruler — "@, lines as nat, " lines, mirroring ON"@),
        RulerKind::Radial => "radial line ruler — every stroke runs through the centre"@,
        RulerKind::Concentric => if f.free_rings {
            "concentric ruler — free radius: each stroke keeps the one it starts on"@
        } else {
            text::framed("concentric ruler — rings every "@, f.rings@, " px"@)
        },
        _ => "ruler created — snapping on"@,
    }
}

/// What a press came to while a ruler waits to be placed.
#[derive(Clone, Copy, PartialEq, Eq, Structural, Debug)]
pub enum RulerPress {
    /// No ruler waits: the press is for the tools.
    Pass,
    Taken,
}

/// What a release came to.
#[derive(Clone, Copy, PartialEq, Eq, Structural, Debug)]
pub enum RulerRelease {
    /// No ruler was being placed: the release is for the other gestures.
    Pass,
    Taken,
    /// The mirror images follow the new ruler.
    RebuildTwins,
}

impl App {
    /// What closing the curve ruler makes of the state.
    pub open spec fn curve_finished(self, after: App) -> bool {
        let made = self.rulers.curve matches Some(pts) && pts@.len() >= 2;
        if made {
            &&& after == (App {
                doc: (Document {
                    rulers: (Rulers { curves: after.doc.rulers.curves, on: true, ..self.doc.rulers }),
                    undo_labels: after.doc.undo_labels,
                    op_count: crate::doc::next_revision(self.doc.op_count),
                    ..self.doc
                }),
                rulers: (RulerHand { pending: None, curve: None, ..self.rulers }),
                shell: (Shell { status: after.shell.status, needs_redraw: true, ..self.shell }),
                ..self
            })
            &&& after.doc.rulers.curves@ == self.doc.rulers.curves@.push(CurveRuler { pts: self.rulers.curve->0 })
            &&& text::strings(after.doc.undo_labels@) == text::strings(self.doc.undo_labels@).push("Add ruler"@)
            &&& after.shell.status@ == "curve ruler created — snapping on"@
        } else {
            &&& after == (App {
                rulers: (RulerHand { pending: None, curve: None, ..self.rulers }),
                shell: after.shell,
                ..self
            })
            &&& after.shell.says(self.shell, "curve ruler discarded (needs 2+ vertices)"@)
        }
    }

    /// Closes the curve ruler that is being clicked, as one step; fewer than
    /// two vertices are thrown away.
    pub fn finish_curve_ruler(&mut self)
        ensures
            old(self).curve_finished(*final(self)),
    {
        self.rulers.pending = None;
        if let Some(pts) = self.rulers.curve.take() {
            if pts.len() >= 2 {
                self.doc.rulers.curves.push(CurveRuler { pts });
                self.doc.rulers.on = true;
                self.doc.push_op("Add ruler");
                self.set_status("curve ruler created — snapping on");
                self.shell.needs_redraw = true;
                return;
            }
        }
        self.set_status("curve ruler discarded (needs 2+ vertices)");
    }

    /// What a press makes of a ruler that waits to be placed.
    pub open spec fn ruler_pressed(self, after: App, at: Pt, again: bool) -> bool {
        match self.rulers.pending {
            None => after == self,
            Some(RulerKind::Curve) => if again {
                self.curve_finished(after)
            } else {
                &&& after == (App {
                    rulers: (RulerHand { curve: after.rulers.curve, ..self.rulers }),
                    shell: (Shell { status: after.shell.status, needs_redraw: true, ..self.shell }),
                    ..self
                })
                &&& after.rulers.curve matches Some(pts)
                &&& pts@ == (match self.rulers.curve {
                    Some(had) => had@.push(at),
                    None => seq![at],
                })
                &&& after.shell.status@ == "curve vertex added — double-click (or Enter) to finish"@
            },
            Some(_) => after == (App { rulers: (RulerHand { drag: Some(at), ..self.rulers }), ..self }),
        }
    }

    /// A press while a ruler waits to be placed: a vertex of the curve, or the
    /// start of the drag. `again` says that it is a double click.
    pub fn ruler_press(&mut self, at: Pt, again: bool) -> (r: RulerPress)
        ensures
            r == (if old(self).rulers.pending is Some { RulerPress::Taken } else { RulerPress::Pass }),
            old(self).ruler_pressed(*final(self), at, again),
            old(self).wf() ==> final(self).wf(),
    {
        match self.rulers.pending {
            None => RulerPress::Pass,
            Some(RulerKind::Curve) => {
                if again {
                    self.finish_curve_ruler();
                    return RulerPress::Taken;
                }
                let mut pts = match self.rulers.curve.take() {
                    Some(pts) => pts,
                    None => Vec::new(),
                };
                pts.push(at);
                proof {
                    if old(self).rulers.curve is None {
                        assert(pts@ =~= seq![at]);
                    }
                }
                self.rulers.curve = Some(pts);
                self.set_status("curve vertex added — double-click (or Enter) to finish");
                self.shell.needs_redraw = true;
                RulerPress::Taken
            },
            Some(_) => {
                self.rulers.drag = Some(at);
                RulerPress::Taken
            },
        }
    }

    /// What a release makes of a ruler that is being placed.
    pub open spec fn ruler_released(self, after: App, r: RulerRelease, f: RulerFacts) -> bool {
        let idle = App {
            rulers: (RulerHand {
                pending: if self.rulers.pending == Some(RulerKind::Curve) && self.rulers.drag is None {
                    self.rulers.pending
                } else {
                    None
                },
                drag: None,
                ..self.rulers
            }),
            ..self
        };
        if self.rulers.pending is None || self.rulers.drag is None {
            r is Pass && after == idle
        } else {
            let kind = self.rulers.pending->0;
            match ruler_refusal(kind, f) {
                Some(s) => {
                    &&& r is Taken
                    &&& after == (App { shell: after.shell, ..idle })
                    &&& after.shell.says(self.shell, s)
                },
                None => {
                    &&& r == (if kind is Symmetric { RulerRelease::RebuildTwins } else { RulerRelease::Taken })
                    &&& after == (App {
                        doc: (Document {
                            rulers: (Rulers { items: after.doc.rulers.items, on: true, ..self.doc.rulers }),
                            undo_labels: after.doc.undo_labels,
                            op_count: crate::doc::next_revision(self.doc.op_count),
                            ..self.doc
                        }),
                        shell: (Shell { status: after.shell.status, needs_redraw: true, ..self.shell }),
                        ..idle
                    })
                    &&& after.doc.rulers.items@ == self.doc.rulers.items@.push(Ruler { kind, at: f.ruler })
                    &&& text::strings(after.doc.undo_labels@) == text::strings(self.doc.undo_labels@).push("Add ruler"@)
                    &&& after.shell.status@ == ruler_text(kind, f, self.tools.symmetric_lines)
                },
            }
        }
    }

    fn refuse_ruler(&mut self, kind: RulerKind, f: &RulerFacts) -> (r: bool)
        ensures
            r == ruler_refusal(kind, *f) is Some,
            !r ==> *final(self) == *old(self),
            r ==> *final(self) == (App { shell: final(self).shell, ..*old(self) }),
            r ==> final(self).shell.says(old(self).shell, ruler_refusal(kind, *f)->0),
    {
        let s: &str = match kind {
            RulerKind::Line => if f.tiny { "drag further to draw a line ruler" } else { return false; },
            RulerKind::Perspective => if f.short {
                "drag the horizon — both ends become vanishing points"
            } else {
                return false;
            },
            RulerKind::Perspective1 => if f.short {
                "drag from the vanishing point along the eye level"
            } else {
                return false;
            },
            RulerKind::Perspective3 => if f.short {
                "drag the horizon — both ends become vanishing points"
            } else {
                return false;
            },
            RulerKind::Curve => "curve ruler: click vertices on the canvas",
            RulerKind::Parallel => if f.tiny { "drag further to set the direction" } else { return false; },
            RulerKind::Symmetric => if f.tiny { "drag outward from the symmetry centre" } else { return false; },
            _ => {
                return false;
            },
        };
        self.set_status(s);
        true
    }

    /// The release of the drag that places a ruler: the ruler and its step,
    /// with snapping on, or why there is none. A curve that is being clicked
    /// stays.
    pub fn ruler_release(&mut self, f: RulerFacts) -> (r: RulerRelease)
        ensures
            old(self).ruler_released(*final(self), r, f),
            old(self).wf() ==> final(self).wf(),
    {
        let kind = match (self.rulers.pending, self.rulers.drag) {
            (Some(kind), Some(_)) => kind,
            (p, d) => {
                let curve = match p {
                    Some(kind) => kind == RulerKind::Curve && d.is_none(),
                    None => false,
                };
                if !curve {
                    self.rulers.pending = None;
                }
                self.rulers.drag = None;
                return RulerRelease::Pass;
            },
        };
        self.rulers.pending = None;
        self.rulers.drag = None;
        if self.refuse_ruler(kind, &f) {
            return RulerRelease::Taken;
        }
        self.doc.rulers.items.push(Ruler { kind, at: f.ruler });
        self.doc.rulers.on = true;
        self.doc.push_op("Add ruler");
        self.shell.needs_redraw = true;
        match kind {
            RulerKind::Symmetric => {
                self.shell.status = text::count_line(
                    "symmetric ruler — ",
                    self.tools.symmetric_lines as usize,
                    " lines, mirroring ON",
                );
                return RulerRelease::RebuildTwins;
            },
            RulerKind::Radial => {
                self.set_status("radial line ruler — every stroke runs through the centre");
            },
            RulerKind::Concentric => {
                if f.free_rings {
                    self.set_status("concentric ruler — free radius: each stroke keeps the one it starts on");
                } else {
                    self.shell.status = text::frame_line("concentric ruler — rings every ", f.rings.as_str(), " px");
                }
            },
            _ => {
                self.set_status("ruler created — snapping on");
            },
        }
        RulerRelease::Taken
    }

    /// What a press on a ruler says.
    pub open spec fn grab_text(grab: RulerGrab, hint: Option<Seq<char>>) -> Seq<char> {
        match (grab, hint) {
            (RulerGrab::Anchor(_), Some(s)) => s,
            (RulerGrab::Anchor(_), None) => "ruler handle — drag to move this end"@,
            (RulerGrab::Body, _) => "ruler — drag to move the whole ruler"@,
        }
    }

    /// What taking hold of a ruler makes of the state.
    pub open spec fn ruler_grabbed(self, after: App, r: bool, hit: Option<(usize, RulerGrab)>, at: Pt, hint: Option<String>) -> bool {
        &&& r == hit is Some
        &&& !r ==> after == self
        &&& r ==> {
            &&& after == (App {
                rulers: (RulerHand {
                    moving: Some(RulerMove { ruler: (hit->0).0, grab: (hit->0).1, last: at, moved: false }),
                    ..self.rulers
                }),
                shell: after.shell,
                ..self
            })
            &&& after.shell.says(
                self.shell,
                App::grab_text((hit->0).1, (match hint { Some(s) => Some(s@), None => None })),
            )
        }
    }

    /// A press of the Object tool on a ruler takes hold of an anchor or of the
    /// whole; `hint` names the anchor where it has a role. True when there is
    /// a ruler under the press.
    pub fn ruler_grab(&mut self, hit: Option<(usize, RulerGrab)>, at: Pt, hint: Option<String>) -> (r: bool)
        ensures
            old(self).ruler_grabbed(*final(self), r, hit, at, hint),
            old(self).wf() ==> final(self).wf(),
    {
        let (ruler, grab) = match hit {
            None => return false,
            Some(h) => h,
        };
        self.rulers.moving = Some(RulerMove { ruler, grab, last: at, moved: false });
        match grab {
            RulerGrab::Anchor(_) => match hint {
                Some(s) => {
                    self.shell.status = s;
                },
                None => {
                    self.set_status("ruler handle — drag to move this end");
                },
            },
            RulerGrab::Body => {
                self.set_status("ruler — drag to move the whole ruler");
            },
        }
        true
    }

    /// What a move makes of a ruler that is held.
    pub open spec fn ruler_dragged(self, after: App, at: Pt, travelled: bool, says: Option<Seq<char>>) -> bool {
        match self.rulers.moving {
            None => after == self,
            Some(m) => {
                &&& after == (App {
                    rulers: (RulerHand {
                        moving: Some(RulerMove { last: at, moved: m.moved || travelled, ..m }),
                        ..self.rulers
                    }),
                    shell: (Shell { status: after.shell.status, needs_redraw: true, ..self.shell }),
                    ..self
                })
                &&& after.shell.status@ == (if !m.moved && travelled && m.grab is Anchor && says is Some {
                    says->0
                } else {
                    self.shell.status@
                })
            },
        }
    }

    /// A ruler that is held follows the pointer; what it is said to be is said
    /// once, as the drag starts. The step to apply is handed back.
    pub fn ruler_drag_move(&mut self, at: Pt, travelled: bool, says: Option<String>) -> (r: Option<RulerMove>)
        ensures
            r == old(self).rulers.moving,
            old(self).ruler_dragged(
                *final(self),
                at,
                travelled,
                (match says { Some(s) => Some(s@), None => None }),
            ),
    {
        let m = match self.rulers.moving {
            None => return None,
            Some(m) => m,
        };
        self.rulers.moving = Some(
            RulerMove { ruler: m.ruler, grab: m.grab, last: at, moved: m.moved || travelled },
        );
        if !m.moved && travelled && matches!(m.grab, RulerGrab::Anchor(_)) {
            if let Some(s) = says {
                self.shell.status = s;
            }
        }
        self.shell.needs_redraw = true;
        Some(m)
    }

    /// What letting a ruler go makes of the state.
    pub open spec fn ruler_dropped(self, after: App, r: RulerRelease, changed: bool) -> bool {
        match self.rulers.moving {
            None => r is Pass && after == self,
            Some(m) => {
                let items = self.doc.rulers.items@;
                &&& r == (if m.ruler < items.len() && items[m.ruler as int].kind is Symmetric {
                    RulerRelease::RebuildTwins
                } else {
                    RulerRelease::Taken
                })
                &&& after == (App {
                    doc: (Document {
                        undo_labels: after.doc.undo_labels,
                        op_count: if changed { crate::doc::next_revision(self.doc.op_count) } else { self.doc.op_count },
                        ..self.doc
                    }),
                    rulers: (RulerHand { moving: None, ..self.rulers }),
                    shell: (Shell { status: after.shell.status, needs_redraw: true, ..self.shell }),
                    ..self
                })
                &&& text::strings(after.doc.undo_labels@) == (if changed {
                    text::strings(self.doc.undo_labels@).push("Move ruler"@)
                } else {
                    text::strings(self.doc.undo_labels@)
                })
                &&& after.shell.status@ == (if m.moved { "ruler moved"@ } else { self.shell.status@ })
            },
        }
    }

    /// Lets a ruler go: the whole drag is one step, and none where it changed
    /// nothing.
    pub fn ruler_drop(&mut self, changed: bool) -> (r: RulerRelease)
        ensures
            old(self).ruler_dropped(*final(self), r, changed),
            old(self).wf() ==> final(self).wf(),
    {
        let m = match self.rulers.moving {
            None => return RulerRelease::Pass,
            Some(m) => m,
        };
        self.rulers.moving = None;
        let mirrors = m.ruler < self.doc.rulers.items.len() && self.doc.rulers.items[m.ruler].kind == RulerKind::Symmetric;
        if changed {
            self.doc.push_op("Move ruler");
        }
        if m.moved {
            self.set_status("ruler moved");
        }
        self.shell.needs_redraw = true;
        if mirrors {
            RulerRelease::RebuildTwins
        } else {
            RulerRelease::Taken
        }
    }
}

/// A press that only takes hold of a ruler and lets it go again leaves no
/// step and says nothing of a move.
pub proof fn law_a_grab_is_no_move(a: App, b: App, r: RulerRelease)
    requires
        a.rulers.moving matches Some(m) && !m.moved,
        a.ruler_dropped(b, r, false),
    ensures
        text::strings(b.doc.undo_labels@) == text::strings(a.doc.undo_labels@),
        b.doc.op_count == a.doc.op_count,
        b.shell.status@ == a.shell.status@,
{
}

/// A release between two clicks leaves the curve that is being clicked.
pub proof fn law_a_release_keeps_the_curve(a: App, b: App, r: RulerRelease, f: RulerFacts)
    requires
        a.rulers.pending == Some(RulerKind::Curve),
        a.rulers.drag is None,
        a.ruler_released(b, r, f),
    ensures
        b == a,
        r is Pass,
{
}

/// A drag makes the ruler that was asked for. It makes none where it is too
/// short for that kind, and what a curve is clicked out of is no drag.
pub proof fn law_a_drag_makes_the_ruler_asked_for(app: App, after: App, r: RulerRelease, f: RulerFacts)
    requires
        app.ruler_released(after, r, f),
        app.rulers.pending is Some,
        app.rulers.drag is Some,
    ensures
        after.rulers.pending is None,
        after.rulers.drag is None,
        after.rulers.curve == app.rulers.curve,
        after.doc.layers == app.doc.layers,
        after.doc.rulers.curves == app.doc.rulers.curves,
        after.shell.cmds == app.shell.cmds,
        ({
            let k = app.rulers.pending->0;
            let refused = k is Curve || (f.tiny && (k is Line || k is Parallel || k is Symmetric)) || (f.short && (
            k is Perspective || k is Perspective1 || k is Perspective3));
            &&& refused ==> {
                &&& r is Taken
                &&& after.doc == app.doc
                &&& k is Line ==> after.shell.status@ == "drag further to draw a line ruler"@
                &&& k is Perspective || k is Perspective3 ==> after.shell.status@
                    == "drag the horizon — both ends become vanishing points"@
                &&& k is Perspective1 ==> after.shell.status@ == "drag from the vanishing point along the eye level"@
                &&& k is Curve ==> after.shell.status@ == "curve ruler: click vertices on the canvas"@
                &&& k is Parallel ==> after.shell.status@ == "drag further to set the direction"@
                &&& k is Symmetric ==> after.shell.status@ == "drag outward from the symmetry centre"@
            }
            &&& !refused ==> {
                let items = after.doc.rulers.items@;
                &&& r is RebuildTwins == (k is Symmetric)
                &&& r is Taken == !(k is Symmetric)
                &&& items.len() == app.doc.rulers.items@.len() + 1
                &&& items.last().kind == k
                &&& items.last().at == f.ruler
                &&& forall|j: int| 0 <= j < app.doc.rulers.items@.len() ==> #[trigger] items[j] == app.doc.rulers.items@[j]
                &&& after.doc.rulers.on
                &&& text::strings(after.doc.undo_labels@).last() == "Add ruler"@
                &&& after.doc.undo_labels@.len() == app.doc.undo_labels@.len() + 1
                &&& app.doc.op_count < u64::MAX ==> after.doc.op_count == app.doc.op_count + 1
                &&& after.shell.needs_redraw
                &&& k is Radial ==> after.shell.status@ == "radial line ruler — every stroke runs through the centre"@
                &&& k is Concentric && f.free_rings ==> after.shell.status@
                    == "concentric ruler — free radius: each stroke keeps the one it starts on"@
                &&& k is Concentric && !f.free_rings ==> after.shell.status@ == "concentric ruler — rings every "@
                    + f.rings@ + " px"@
                &&& k is Symmetric ==> after.shell.status@ == "symmetric ruler — "@ + text::dec(
                    app.tools.symmetric_lines as nat,
                ) + " lines, mirroring ON"@
                &&& k is Line || k is VanishingPoint || k is Perspective || k is Perspective1 || k is Perspective3
                    || k is Parallel || k is GuideH || k is GuideV ==> after.shell.status@ == "ruler created — snapping on"@
            }
        }),
{
    assert(text::strings(after.doc.undo_labels@).len() == after.doc.undo_labels@.len());
    assert(text::strings(app.doc.undo_labels@).len() == app.doc.undo_labels@.len());
}

/// A release without a ruler that is being drawn goes on to whatever is next.
pub proof fn law_a_release_without_a_ruler_passes(app: App, after: App, r: RulerRelease, f: RulerFacts)
    requires
        app.ruler_released(after, r, f),
        app.rulers.pending is None || app.rulers.drag is None,
    ensures
        r is Pass,
        after.doc == app.doc,
        after.shell == app.shell,
        after.rulers.drag is None,
        app.rulers.pending is Some && !(app.rulers.pending == Some(RulerKind::Curve)) ==> after.rulers.pending is None,
        app.rulers.pending == Some(RulerKind::Curve) ==> after.rulers.pending == Some(RulerKind::Curve),
{
}

/// A press of a curve ruler adds its point behind the others; a double click
/// ends it, and makes the ruler where it has two points or more. The press of any
/// other ruler starts its drag there.
pub proof fn law_a_curve_ruler_is_clicked_out(app: App, after: App, at: Pt, again: bool)
    requires
        app.ruler_pressed(after, at, again),
    ensures
        app.rulers.pending is None ==> after == app,
        app.rulers.pending is Some && !(app.rulers.pending == Some(RulerKind::Curve)) ==> after.rulers.drag == Some(at)
            && after.rulers.pending == app.rulers.pending && after.doc == app.doc && after.shell == app.shell,
        app.rulers.pending == Some(RulerKind::Curve) && !again ==> {
            &&& after.doc == app.doc
            &&& after.rulers.pending == app.rulers.pending
            &&& after.shell.needs_redraw
            &&& after.shell.status@ == "curve vertex added — double-click (or Enter) to finish"@
            &&& after.rulers.curve matches Some(pts)
            &&& pts@.len() > 0
            &&& pts@.last() == at
            &&& app.rulers.curve matches Some(had) ==> pts@.len() == had@.len() + 1 && pts@.drop_last() == had@
            &&& app.rulers.curve is None ==> pts@.len() == 1
        },
        app.rulers.pending == Some(RulerKind::Curve) && again ==> {
            let had = app.rulers.curve;
            &&& after.rulers.pending is None
            &&& after.rulers.curve is None
            &&& had is Some && had->0@.len() >= 2 ==> {
                &&& after.doc.rulers.on
                &&& after.doc.rulers.curves@.len() == app.doc.rulers.curves@.len() + 1
                &&& after.doc.rulers.curves@.last().pts == had->0
                &&& after.doc.rulers.items == app.doc.rulers.items
                &&& text::strings(after.doc.undo_labels@).last() == "Add ruler"@
                &&& after.shell.status@ == "curve ruler created — snapping on"@
            }
            &&& had is None || had->0@.len() < 2 ==> after.doc == app.doc && after.shell.status@
                == "curve ruler discarded (needs 2+ vertices)"@
        },
{
    if app.rulers.pending == Some(RulerKind::Curve) && !again {
        if let Some(had) = app.rulers.curve {
            assert(had@.push(at).drop_last() =~= had@);
        }
    }
}

/// Taking hold of a ruler says what the drag will move.
pub proof fn law_a_grab_says_what_moves(i: usize, s: Seq<char>, hint: Option<Seq<char>>)
    ensures
        App::grab_text(RulerGrab::Body, hint) == "ruler — drag to move the whole ruler"@,
        App::grab_text(RulerGrab::Anchor(i), None) == "ruler handle — drag to move this end"@,
        App::grab_text(RulerGrab::Anchor(i), Some(s)) == s,
{
}

/// A ruler that is held follows the pointer, counts as moved once it has
/// travelled, and stays the same ruler.
pub proof fn law_a_held_ruler_follows(app: App, after: App, at: Pt, travelled: bool, says: Option<Seq<char>>)
    requires
        app.ruler_dragged(after, at, travelled, says),
    ensures
        after.doc == app.doc,
        app.rulers.moving is None ==> after == app,
        app.rulers.moving matches Some(m) ==> {
            &&& after.rulers.moving matches Some(now)
            &&& now.last == at
            &&& now.moved == (m.moved || travelled)
            &&& now.ruler == m.ruler
            &&& now.grab == m.grab
            &&& after.shell.needs_redraw
            &&& m.moved || !travelled || m.grab is Body || says is None ==> after.shell.status@ == app.shell.status@
            &&& !m.moved && travelled && m.grab is Anchor && says is Some ==> after.shell.status@ == says->0
        },
{
}

/// A ruler that is let go is let go; a change of it is one step to undo, and a
/// symmetric ruler has the copies of the stroke made anew.
pub proof fn law_a_ruler_is_let_go(app: App, after: App, r: RulerRelease, changed: bool)
    requires
        app.ruler_dropped(after, r, changed),
    ensures
        after.rulers.moving is None,
        after.doc.rulers == app.doc.rulers,
        after.doc.layers == app.doc.layers,
        app.rulers.moving is None ==> r is Pass && after == app,
        app.rulers.moving matches Some(m) ==> {
            let items = app.doc.rulers.items@;
            &&& r is RebuildTwins == (m.ruler < items.len() && items[m.ruler as int].kind is Symmetric)
            &&& !(r is Pass)
            &&& after.shell.needs_redraw
            &&& changed ==> text::strings(after.doc.undo_labels@).last() == "Move ruler"@
                && text::strings(after.doc.undo_labels@).drop_last() == text::strings(app.doc.undo_labels@)
            &&& !changed ==> text::strings(after.doc.undo_labels@) == text::strings(app.doc.undo_labels@)
            &&& changed && app.doc.op_count < u64::MAX ==> after.doc.op_count == app.doc.op_count + 1
            &&& !changed ==> after.doc.op_count == app.doc.op_count
            &&& m.moved ==> after.shell.status@ == "ruler moved"@
            &&& !m.moved ==> after.shell.status@ == app.shell.status@
        },
{
    if changed && app.rulers.moving is Some {
        assert(text::strings(app.doc.undo_labels@).push("Move ruler"@).drop_last() =~= text::strings(
            app.doc.undo_labels@,
        ));
    }
}

/// A press on a ruler takes hold of it there, not moved yet, and says so; away
/// from every ruler nothing happens.
pub proof fn law_a_press_takes_hold_of_a_ruler(
    app: App,
    after: App,
    r: bool,
    hit: Option<(usize, RulerGrab)>,
    at: Pt,
    hint: Option<String>,
)
    requires
        app.ruler_grabbed(after, r, hit, at, hint),
    ensures
        r == hit is Some,
        hit is None ==> after == app,
        hit matches Some(h) ==> {
            &&& after.rulers.moving matches Some(m)
            &&& m.ruler == h.0
            &&& m.grab == h.1
            &&& m.last == at
            &&& !m.moved
            &&& h.1 is Body ==> after.shell.status@ == "ruler — drag to move the whole ruler"@
            &&& h.1 is Anchor && hint is None ==> after.shell.status@ == "ruler handle — drag to move this end"@
            &&& h.1 is Anchor ==> (hint matches Some(s) ==> after.shell.status@ == s@)
        },
        after.doc == app.doc,
        after.shell.cmds == app.shell.cmds,
{
}

} // verus!
