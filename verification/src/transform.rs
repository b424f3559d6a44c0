//! The Transform float: while it is open, every press is for it.

use vstd::prelude::*;
use crate::app::{App, AppCmd, Hold, Mesh, PuppetPin, Shell, TransformDrag, TransformGesture, TransformGrab};
use crate::geom::Pt;

verus! {

/// What the shell measured of a press on the float.
#[derive(Clone, Copy, PartialEq, Eq, Structural, Debug)]
pub struct FloatHit {
    /// The pin under the press.
    pub pin: Option<usize>,
    /// The lattice point under the press.
    pub mesh_point: Option<usize>,
    /// What a press takes of a float without a mesh.
    pub grab: TransformGrab,
}

/// Does the hit belong to this float?
pub open spec fn float_fits(d: TransformDrag, f: FloatHit) -> bool {
    d.mesh matches Some(m) ==> (f.pin matches Some(i) ==> i < m.pins@.len())
}

/// What a press makes of the float: with pins, Alt takes one out, and a press
/// takes hold of one or drops a new one; a lattice gives its point, or else the
/// whole is moved.
pub open spec fn float_pressed(d: TransformDrag, now: TransformDrag, at: Pt, alt: bool, f: FloatHit) -> bool {
    match d.mesh {
        Some(m) if m.puppet => match (alt, f.pin) {
            (true, None) => now == d,
            (true, Some(i)) => {
                &&& now == (TransformDrag { mesh: now.mesh, ..d })
                &&& now.mesh matches Some(n)
                &&& n == (Mesh { pins: n.pins, ..m })
                &&& n.pins@ == m.pins@.remove(i as int)
            },
            (false, Some(i)) => now == (TransformDrag {
                gesture: Some(TransformGesture { grab: TransformGrab::PuppetPin(i), start: at }),
                ..d
            }),
            (false, None) => {
                &&& now == (TransformDrag {
                    mesh: now.mesh,
                    gesture: Some(TransformGesture { grab: TransformGrab::PuppetPin(m.pins.len()), start: at }),
                    ..d
                })
                &&& now.mesh matches Some(n)
                &&& n == (Mesh { pins: n.pins, ..m })
                &&& n.pins@ == m.pins@.push(PuppetPin { orig: at, cur: at })
            },
        },
        Some(m) => now == (TransformDrag {
            gesture: Some(
                TransformGesture {
                    grab: match f.mesh_point {
                        Some(i) => TransformGrab::MeshPoint(i),
                        None => TransformGrab::Move,
                    },
                    start: at,
                },
            ),
            ..d
        }),
        None => now == (TransformDrag { gesture: Some(TransformGesture { grab: f.grab, start: at }), ..d }),
    }
}

impl App {
    /// What a press makes of the open float.
    pub open spec fn float_taken(self, after: App, at: Pt, alt: bool, f: FloatHit) -> bool {
        &&& match self.hold.transform_drag {
            None => after == self,
            Some(d) => {
                &&& after == (App {
                    hold: (Hold { transform_drag: after.hold.transform_drag, ..self.hold }),
                    ..self
                })
                &&& after.hold.transform_drag matches Some(now)
                &&& float_pressed(d, now, at, alt, f)
            },
        }
    }

    /// A press while the float is open; the pins, where they changed, are then
    /// to be brought into step with the picture.
    pub fn transform_down(&mut self, at: Pt, alt: bool, f: FloatHit)
        requires
            old(self).hold.transform_drag matches Some(d) ==> float_fits(d, f),
        ensures
            old(self).float_taken(*final(self), at, alt, f),
            old(self).wf() ==> final(self).wf(),
    {
        let mut d = match self.hold.transform_drag.take() {
            None => return,
            Some(d) => d,
        };
        let grab = match d.mesh.take() {
            None => f.grab,
            Some(mut m) => {
                let grab = if !m.puppet {
                    match f.mesh_point {
                        Some(i) => TransformGrab::MeshPoint(i),
                        None => TransformGrab::Move,
                    }
                } else if alt {
                    if let Some(i) = f.pin {
                        let _ = m.pins.remove(i);
                    }
                    d.mesh = Some(m);
                    self.hold.transform_drag = Some(d);
                    return;
                } else {
                    match f.pin {
                        Some(i) => TransformGrab::PuppetPin(i),
                        None => {
                            m.pins.push(PuppetPin { orig: at, cur: at });
                            TransformGrab::PuppetPin(m.pins.len() - 1)
                        },
                    }
                };
                d.mesh = Some(m);
                grab
            },
        };
        d.gesture = Some(TransformGesture { grab, start: at });
        self.hold.transform_drag = Some(d);
    }

    /// The gesture that a move steers.
    pub open spec fn float_gesture(self) -> Option<TransformGesture> {
        match self.hold.transform_drag {
            Some(d) => d.gesture,
            None => None,
        }
    }

    /// The gesture that a move steers.
    pub fn transform_gesture(&self) -> (r: Option<TransformGesture>)
        ensures
            r == self.float_gesture(),
    {
        match &self.hold.transform_drag {
            Some(d) => d.gesture,
            None => None,
        }
    }

    /// What a release makes of the float: the gesture ends and the float
    /// stays; but ink that the Object tool took up, and that was only moved, is
    /// committed.
    pub open spec fn float_released(self, after: App, moved_only: bool) -> bool {
        let d = self.hold.transform_drag->0;
        &&& after == (App {
            hold: (Hold { transform_drag: Some(TransformDrag { gesture: None, ..d }), ..self.hold }),
            shell: (Shell { cmds: after.shell.cmds, needs_redraw: true, ..self.shell }),
            ..self
        })
        &&& after.shell.cmds@ == (if d.object_lift && moved_only {
            self.shell.cmds@.push(AppCmd::TransformCommit)
        } else {
            self.shell.cmds@
        })
    }

    /// The release of a gesture on the float: `moved_only` says that all it
    /// did was to move it.
    pub fn transform_up(&mut self, moved_only: bool)
        requires
            old(self).hold.transform_drag is Some,
        ensures
            old(self).float_released(*final(self), moved_only),
            old(self).wf() ==> final(self).wf(),
    {
        if let Some(d) = self.hold.transform_drag.take() {
            let commit = d.object_lift && moved_only;
            self.hold.transform_drag = Some(
                TransformDrag { gesture: None, mesh: d.mesh, object_lift: d.object_lift },
            );
            if commit {
                self.push_cmd(AppCmd::TransformCommit);
            }
        }
        self.shell.needs_redraw = true;
    }
}

/// A plain press on a float with pins ends with a pin in hand: one that stood
/// under it, or a new one right there. No pin is lost, and none moves yet.
pub proof fn law_a_press_holds_a_pin(d: TransformDrag, now: TransformDrag, at: Pt, f: FloatHit)
    requires
        float_fits(d, f),
        d.mesh matches Some(m) && m.puppet,
        float_pressed(d, now, at, false, f),
    ensures
        ({
            let was = d.mesh->0.pins@;
            let is = now.mesh->0.pins@;
            &&& now.mesh is Some
            &&& now.gesture matches Some(g)
            &&& g.start == at
            &&& g.grab matches TransformGrab::PuppetPin(i)
            &&& i < is.len()
            &&& was.is_prefix_of(is)
            &&& f.pin is Some ==> is == was && f.pin == Some(i)
            &&& f.pin is None ==> is.len() == was.len() + 1 && is[i as int] == (PuppetPin { orig: at, cur: at })
        }),
{
}

/// With Alt a press takes out the pin under it and changes nothing that is
/// held: on a pin that was just dropped it gives the float's pins back.
pub proof fn law_alt_takes_a_dropped_pin_back(
    d: TransformDrag,
    mid: TransformDrag,
    end: TransformDrag,
    at: Pt,
    f: FloatHit,
    g: FloatHit,
)
    requires
        d.mesh matches Some(m) && m.puppet,
        f.pin is None,
        float_pressed(d, mid, at, false, f),
        g.pin == Some(d.mesh->0.pins.len()),
        float_pressed(mid, end, at, true, g),
    ensures
        end.gesture == mid.gesture,
        end.object_lift == d.object_lift,
        end.mesh matches Some(m) && m.puppet && m.pins@ == d.mesh->0.pins@,
{
    let pins = d.mesh->0.pins@;
    assert(mid.mesh->0.pins@.remove(pins.len() as int) =~= pins);
}

/// A press on a float without pins takes what the shell found there, or a point
/// of its lattice, or the whole, from where the press fell.
pub proof fn law_a_press_takes_the_float(d: TransformDrag, now: TransformDrag, at: Pt, alt: bool, f: FloatHit)
    requires
        float_pressed(d, now, at, alt, f),
        d.mesh matches Some(m) ==> !m.puppet,
    ensures
        now == (TransformDrag { gesture: now.gesture, ..d }),
        now.gesture is Some,
        now.gesture->0.start == at,
        d.mesh is None ==> now.gesture->0.grab == f.grab,
        d.mesh is Some ==> (f.mesh_point matches Some(i) ==> now.gesture->0.grab == TransformGrab::MeshPoint(i)),
        d.mesh is Some && f.mesh_point is None ==> now.gesture->0.grab is Move,
{
}

/// Alt takes the pin under it out, and no other; away from every pin it changes
/// nothing. It starts no gesture.
pub proof fn law_alt_takes_one_pin_out(d: TransformDrag, now: TransformDrag, at: Pt, f: FloatHit)
    requires
        float_fits(d, f),
        float_pressed(d, now, at, true, f),
        d.mesh matches Some(m) && m.puppet,
    ensures
        now.gesture == d.gesture,
        f.pin is None ==> now == d,
        f.pin matches Some(i) ==> {
            let was = d.mesh->0.pins@;
            &&& now.mesh matches Some(n)
            &&& n.pins@.len() + 1 == was.len()
            &&& forall|k: int| 0 <= k < i ==> #[trigger] n.pins@[k] == was[k]
            &&& forall|k: int| i <= k < n.pins@.len() ==> #[trigger] n.pins@[k] == was[k + 1]
        },
{
}

/// The release ends the gesture and keeps the float; a lifted object that was
/// only moved is put down at once.
pub proof fn law_a_release_ends_the_gesture(app: App, after: App, moved_only: bool)
    requires
        app.float_released(after, moved_only),
        app.hold.transform_drag is Some,
    ensures
        after.hold.transform_drag matches Some(now) && now.gesture is None && now.mesh == app.hold.transform_drag->0.mesh
            && now.object_lift == app.hold.transform_drag->0.object_lift,
        after.float_gesture() is None,
        after.doc == app.doc,
        after.shell.needs_redraw,
        after.shell.status == app.shell.status,
        app.hold.transform_drag->0.object_lift && moved_only ==> after.shell.cmds@.len() == app.shell.cmds@.len() + 1
            && after.shell.cmds@.last() is TransformCommit,
        !app.hold.transform_drag->0.object_lift || !moved_only ==> after.shell.cmds@ == app.shell.cmds@,
{
}

/// While a float is open a press is for it, and without one nothing happens.
pub proof fn law_a_press_is_for_the_float(app: App, after: App, at: Pt, alt: bool, f: FloatHit)
    requires
        app.float_taken(after, at, alt, f),
    ensures
        app.hold.transform_drag is None ==> after == app,
        app.hold.transform_drag matches Some(d) ==> {
            &&& after.hold.transform_drag matches Some(now)
            &&& float_pressed(d, now, at, alt, f)
            &&& now.object_lift == d.object_lift
        },
        after.doc == app.doc,
        after.shell == app.shell,
{
}

} // verus!
