//! Repair of a leaked fill: one command takes the fill back and arms the
//! gesture, one stroke closes the gap, and the fill runs again from its
//! remembered seed. All of it is one undo press.

use vstd::prelude::*;
use crate::app::{App, FillHand, Shell, Work};
use crate::doc::Document;
use crate::geom::Pt;
use crate::text;

verus! {

/// The last seeded fill, remembered where it was committed.
#[derive(Debug)]
pub struct LeakFill {
    /// The layer, wherever it stands in the stack now.
    pub layer_id: u64,
    pub page_uid: u64,
    pub seed: Pt,
    /// The shell's name for the colour and the settings of the fill.
    pub recipe: u64,
    /// The label of the step that the fill pushed.
    pub op_label: String,
    /// How many steps there were right after it.
    pub undo_len: usize,
}

/// The armed repair.
#[derive(Debug)]
pub struct FillRepair {
    pub leak: LeakFill,
    /// The stroke is a wall that only the fill sees, instead of ink.
    pub virtual_barrier: bool,
    pub pts: Vec<Pt>,
    pub radius: u32,
    /// How many steps there were right after the fill was taken back.
    pub armed_undo_len: usize,
}

/// Why a repair cannot arm.
#[derive(Clone, Copy, PartialEq, Eq, Structural, Debug)]
pub enum Refusal {
    NoFill,
    OtherPage,
    LayerGone,
    NotPaintable,
    NotNewest,
}

impl Refusal {
    /// The refusal in words.
    pub open spec fn text_spec(self) -> Seq<char> {
        match self {
            Refusal::NoFill => "no fill to repair yet — click a fill first"@,
            Refusal::OtherPage => "the remembered fill is on another page"@,
            Refusal::LayerGone => "the filled layer is gone"@,
            Refusal::NotPaintable => "the filled layer no longer takes pixels (folder or derived)"@,
            Refusal::NotNewest => "the fill is no longer the newest undo step — undo your later work, or fill again"@,
        }
    }

    /// The refusal in words, for a status line.
    pub fn text(self) -> (r: &'static str)
        ensures
            r@ == self.text_spec(),
    {
        match self {
            Refusal::NoFill => "no fill to repair yet — click a fill first",
            Refusal::OtherPage => "the remembered fill is on another page",
            Refusal::LayerGone => "the filled layer is gone",
            Refusal::NotPaintable => "the filled layer no longer takes pixels (folder or derived)",
            Refusal::NotNewest => "the fill is no longer the newest undo step — undo your later work, or fill again",
        }
    }
}

impl LeakFill {
    /// The same memory once more.
    pub fn copy(&self) -> (r: LeakFill)
        ensures
            r == *self,
    {
        LeakFill {
            layer_id: self.layer_id,
            page_uid: self.page_uid,
            seed: self.seed,
            recipe: self.recipe,
            op_label: self.op_label.clone(),
            undo_len: self.undo_len,
        }
    }
}

/// The page that a work shows.
pub open spec fn page_uid(w: Work) -> u64 {
    if w.page_index < w.pages@.len() {
        w.pages@[w.page_index as int].uid
    } else {
        0
    }
}

/// Could a repair arm now? The leaked layer, or the first reason against it.
pub open spec fn repairable(app: App) -> Result<int, Refusal> {
    match app.fill.last {
        None => Err(Refusal::NoFill),
        Some(f) => if page_uid(app.work) != f.page_uid {
            Err(Refusal::OtherPage)
        } else {
            match app.doc.index_of(f.layer_id) {
                None => Err(Refusal::LayerGone),
                Some(li) => if !app.doc.layers@[li].paintable {
                    Err(Refusal::NotPaintable)
                } else if !newest(app.doc, f) {
                    Err(Refusal::NotNewest)
                } else {
                    Ok(li)
                },
            }
        },
    }
}

/// Is the fill still the newest step: by its label and by its depth?
pub open spec fn newest(doc: Document, f: LeakFill) -> bool {
    &&& doc.undo_labels@.len() > 0
    &&& doc.undo_labels@.last()@ == f.op_label@
    &&& doc.undo_labels@.len() == f.undo_len
}

/// What arming came to.
#[derive(Clone, Copy, PartialEq, Eq, Structural, Debug)]
pub enum Armed {
    /// It was armed already; only the kind of barrier changed.
    Again,
    Refused(Refusal),
    /// The history had nothing to take back.
    NothingToUndo,
    Now,
}

/// What the refill is to run on.
#[derive(Clone, Copy, PartialEq, Eq, Structural, Debug)]
pub enum Refill {
    LayerGone,
    PageMoved,
    /// Fill layer `layer` from the seed; `wall` says whether the stroke stands
    /// in the way.
    Run { layer: usize, wall: bool },
}

/// What a finished stroke makes of an armed repair.
pub open spec fn refill_for(app: App, r: FillRepair) -> Refill {
    match app.doc.index_of(r.leak.layer_id) {
        None => Refill::LayerGone,
        Some(li) => if page_uid(app.work) != r.leak.page_uid {
            Refill::PageMoved
        } else {
            Refill::Run { layer: li as usize, wall: r.virtual_barrier && r.pts@.len() >= 2 }
        },
    }
}

/// The history once the fill has run again.
pub open spec fn refilled(labels: Seq<Seq<char>>, r: FillRepair) -> Seq<Seq<char>> {
    let filled = labels.push(r.leak.op_label@);
    if !r.virtual_barrier && labels.len() > r.armed_undo_len {
        crate::doc::wrapped(filled, "Repair fill"@, 2)
    } else {
        filled
    }
}

/// One undo press takes the whole recovery back: the stroke and the refill
/// leave one step more than there was when the repair was armed, provided that
/// the stroke pushed at most one step, and none where it was a wall.
pub proof fn law_one_undo_takes_the_repair_back(armed: Seq<Seq<char>>, stroke: Seq<Seq<char>>, r: FillRepair)
    requires
        r.armed_undo_len == armed.len(),
        stroke.len() <= 1,
        r.virtual_barrier ==> stroke.len() == 0,
    ensures
        refilled(armed + stroke, r).drop_last() == armed,
{
    assert(refilled(armed + stroke, r).drop_last() =~= armed);
}

/// A closing stroke that changed nothing never folds earlier work into the
/// repair: every step from before it stays as it was.
pub proof fn law_earlier_work_is_not_wrapped(labels: Seq<Seq<char>>, r: FillRepair, i: int)
    requires
        r.armed_undo_len <= labels.len(),
        0 <= i < r.armed_undo_len,
    ensures
        i < refilled(labels, r).len(),
        refilled(labels, r)[i] == labels[i],
{
}

impl App {
    /// The page on screen.
    fn page_uid_now(&self) -> (r: u64)
        ensures
            r == page_uid(self.work),
    {
        if self.work.page_index < self.work.pages.len() {
            self.work.pages[self.work.page_index].uid
        } else {
            0
        }
    }

    /// Is the fill still the newest step?
    fn fill_is_newest(&self, f: &LeakFill) -> (r: bool)
        ensures
            r == newest(self.doc, *f),
    {
        let n: usize = self.doc.undo_labels.len();
        if n == 0 || n != f.undo_len {
            return false;
        }
        text::same(self.doc.undo_labels[n - 1].as_str(), f.op_label.as_str())
    }

    /// Could a repair arm now? The leaked layer's index, or the refusal. The
    /// command and the button both ask here.
    pub fn fill_repairable(&self) -> (r: Result<usize, Refusal>)
        ensures
            match r {
                Ok(li) => repairable(*self) == Ok::<int, Refusal>(li as int) && li < self.doc.layers@.len(),
                Err(e) => repairable(*self) == Err::<int, Refusal>(e),
            },
    {
        match &self.fill.last {
            None => Err(Refusal::NoFill),
            Some(f) => {
                if self.page_uid_now() != f.page_uid {
                    return Err(Refusal::OtherPage);
                }
                match self.doc.layer_index_of(f.layer_id) {
                    None => Err(Refusal::LayerGone),
                    Some(li) => {
                        if !self.doc.layers[li].paintable {
                            Err(Refusal::NotPaintable)
                        } else if !self.fill_is_newest(f) {
                            Err(Refusal::NotNewest)
                        } else {
                            Ok(li)
                        }
                    },
                }
            },
        }
    }

    /// Does arming take the leaked fill back? Only a first arming that nothing
    /// speaks against does.
    pub fn arm_undoes(&self) -> (r: bool)
        ensures
            r == (self.fill.repair is None && repairable(*self) is Ok),
    {
        self.fill.repair.is_none() && self.fill_repairable().is_ok()
    }

    /// What arming a repair makes of the state.
    pub open spec fn repair_armed(self, after: App, r: Armed, virtual_barrier: bool, undone: bool) -> bool {
        &&& r == (if self.fill.repair is Some {
            Armed::Again
        } else {
            match repairable(self) {
                Err(e) => Armed::Refused(e),
                Ok(_) => if undone { Armed::Now } else { Armed::NothingToUndo },
            }
        })
        &&& r is Again ==> ({
            let had = self.fill.repair->0;
            let now = after.fill.repair->0;
            &&& after == (App {
                fill: (FillHand { repair: after.fill.repair, ..self.fill }),
                shell: after.shell,
                ..self
            })
            &&& after.fill.repair is Some
            &&& now == (FillRepair { virtual_barrier, pts: now.pts, ..had })
            &&& now.pts@ == Seq::<Pt>::empty()
            &&& after.shell.says(self.shell, again_text(virtual_barrier))
        })
        &&& r matches Armed::Refused(e) ==> ({
            &&& after == (App { shell: after.shell, ..self })
            &&& after.shell.says(self.shell, e.text_spec())
        })
        &&& r is NothingToUndo ==> ({
            &&& after == (App { shell: after.shell, ..self })
            &&& after.shell.says(self.shell, "nothing to undo — the fill already went"@)
        })
        &&& r is Now ==> ({
            let li = repairable(self)->Ok_0;
            let now = after.fill.repair->0;
            &&& after == (App {
                doc: (Document { active: li as usize, undo_labels: after.doc.undo_labels, ..self.doc }),
                fill: (FillHand { repair: after.fill.repair, ..self.fill }),
                shell: (Shell { status: after.shell.status, needs_redraw: true, ..self.shell }),
                ..self
            })
            &&& after.doc.undo_labels@ == self.doc.undo_labels@.drop_last()
            &&& after.fill.repair is Some
            &&& now == (FillRepair {
                leak: self.fill.last->0,
                virtual_barrier,
                pts: now.pts,
                radius: 0x3f80_0000u32,
                armed_undo_len: (self.doc.undo_labels@.len() - 1) as usize,
            })
            &&& now.pts@ == Seq::<Pt>::empty()
            &&& after.shell.status@ == armed_text(virtual_barrier)
        })
    }

    /// Arms the repair. Where [`App::arm_undoes`] says so, the newest step was
    /// taken back just before; `undone` says whether that worked. An armed
    /// repair only changes its kind of barrier.
    pub fn arm_fill_repair(&mut self, virtual_barrier: bool, undone: bool) -> (r: Armed)
        ensures
            old(self).repair_armed(*final(self), r, virtual_barrier, undone),
            old(self).wf() ==> final(self).wf(),
    {
        if let Some(r) = self.fill.repair.take() {
            self.fill.repair = Some(
                FillRepair {
                    leak: r.leak,
                    virtual_barrier,
                    pts: Vec::new(),
                    radius: r.radius,
                    armed_undo_len: r.armed_undo_len,
                },
            );
            if virtual_barrier {
                self.set_status("repair re-armed: virtual barrier — draw the closing stroke");
            } else {
                self.set_status("repair re-armed: real-ink barrier — draw the closing stroke");
            }
            return Armed::Again;
        }
        let li: usize = match self.fill_repairable() {
            Ok(li) => li,
            Err(e) => {
                self.set_status(e.text());
                return Armed::Refused(e);
            },
        };
        if !undone {
            self.set_status("nothing to undo — the fill already went");
            return Armed::NothingToUndo;
        }
        self.doc.pop_op();
        self.doc.set_active(li);
        if let Some(f) = &self.fill.last {
            let leak = f.copy();
            let armed_undo_len: usize = self.doc.undo_labels.len();
            self.fill.repair = Some(FillRepair { leak, virtual_barrier, pts: Vec::new(), radius: 0x3f80_0000u32, armed_undo_len });
        }
        if virtual_barrier {
            self.set_status("fill repair armed — draw the closing stroke; the fill re-runs on release (Esc cancels)");
        } else {
            self.set_status("fill repair armed — draw the closing stroke as real ink where the fill reads it; release re-runs the fill (Esc cancels)");
        }
        self.shell.needs_redraw = true;
        Armed::Now
    }

    /// Stands down without a refill. The leaked fill stays undone.
    pub fn cancel_fill_repair(&mut self)
        ensures
            old(self).fill.repair is None ==> *final(self) == *old(self),
            old(self).fill.repair is Some ==> ({
                &&& *final(self) == (App {
                    fill: (FillHand { repair: None, ..old(self).fill }),
                    shell: (Shell { status: final(self).shell.status, needs_redraw: true, ..old(self).shell }),
                    ..*old(self)
                })
                &&& final(self).shell.status@ == "fill repair cancelled — the leaked fill stays undone"@
            }),
    {
        if self.fill.repair.is_some() {
            self.fill.repair = None;
            self.set_status("fill repair cancelled — the leaked fill stays undone");
            self.shell.needs_redraw = true;
        }
    }

    /// What the refill is to run on, once the closing stroke is done.
    pub fn refill_plan(&self, r: &FillRepair) -> (p: Refill)
        ensures
            p == refill_for(*self, *r),
            p matches Refill::Run { layer, .. } ==> layer < self.doc.layers@.len(),
    {
        match self.doc.layer_index_of(r.leak.layer_id) {
            None => Refill::LayerGone,
            Some(layer) => if self.page_uid_now() != r.leak.page_uid {
                Refill::PageMoved
            } else {
                Refill::Run { layer, wall: r.virtual_barrier && r.pts.len() >= 2 }
            },
        }
    }

    /// What the refill makes of the state.
    pub open spec fn repair_finished(self, after: App, repair: FillRepair, filled: u64) -> bool {
        &&& match refill_for(self, repair) {
            Refill::LayerGone => {
                &&& after == (App { shell: after.shell, ..self })
                &&& after.shell.says(self.shell, "the filled layer is gone — repair stood down"@)
            },
            Refill::PageMoved => {
                &&& after == (App { shell: after.shell, ..self })
                &&& after.shell.says(self.shell, "the page moved — repair stood down"@)
            },
            Refill::Run { layer, .. } => if filled == 0 {
                &&& after == (App {
                    doc: (Document { active: layer, ..self.doc }),
                    work: (Work { dirty: true, ..self.work }),
                    shell: after.shell,
                    ..self
                })
                &&& after.shell.says(
                    self.shell,
                    "repair filled nothing — the barrier may have sealed the seed"@,
                )
            } else {
                &&& after == (App {
                    doc: (Document {
                        active: layer,
                        undo_labels: after.doc.undo_labels,
                        op_count: crate::doc::next_revision(self.doc.op_count),
                        ..self.doc
                    }),
                    work: (Work { dirty: true, ..self.work }),
                    shell: (Shell { status: after.shell.status, needs_redraw: true, ..self.shell }),
                    ..self
                })
                &&& text::strings(after.doc.undo_labels@) == refilled(text::strings(self.doc.undo_labels@), repair)
                &&& after.shell.status@ == repaired_text(repair.virtual_barrier)
            },
        }
    }

    /// Lands the refill: `filled` pixels came of the run that
    /// [`App::refill_plan`] asked for. The stroke and the refill become one
    /// step; a repair whose layer or page went stands down.
    pub fn finish_fill_repair(&mut self, repair: FillRepair, filled: u64)
        ensures
            old(self).repair_finished(*final(self), repair, filled),
            old(self).wf() ==> final(self).wf(),
    {
        let layer: usize = match self.refill_plan(&repair) {
            Refill::LayerGone => {
                self.set_status("the filled layer is gone — repair stood down");
                return;
            },
            Refill::PageMoved => {
                self.set_status("the page moved — repair stood down");
                return;
            },
            Refill::Run { layer, .. } => layer,
        };
        self.doc.set_active(layer);
        if filled == 0 {
            self.set_status("repair filled nothing — the barrier may have sealed the seed");
            self.mark_dirty();
            return;
        }
        let stroke_pushed = self.doc.undo_labels.len() > repair.armed_undo_len;
        self.doc.push_op(repair.leak.op_label.as_str());
        if !repair.virtual_barrier {
            if stroke_pushed {
                self.doc.wrap_recent("Repair fill", 2);
            }
            self.set_status("fill repaired — ink kept; one undo takes it all back");
        } else {
            self.set_status("fill repaired (virtual barrier) — one undo takes it all back");
        }
        self.mark_dirty();
        self.shell.needs_redraw = true;
    }
}

/// What a second arming says.
pub open spec fn again_text(virtual_barrier: bool) -> Seq<char> {
    if virtual_barrier {
        "repair re-armed: virtual barrier — draw the closing stroke"@
    } else {
        "repair re-armed: real-ink barrier — draw the closing stroke"@
    }
}

/// What arming says.
pub open spec fn armed_text(virtual_barrier: bool) -> Seq<char> {
    if virtual_barrier {
        "fill repair armed — draw the closing stroke; the fill re-runs on release (Esc cancels)"@
    } else {
        "fill repair armed — draw the closing stroke as real ink where the fill reads it; release re-runs the fill (Esc cancels)"@
    }
}

/// What a repair says when it is done.
pub open spec fn repaired_text(virtual_barrier: bool) -> Seq<char> {
    if virtual_barrier {
        "fill repaired (virtual barrier) — one undo takes it all back"@
    } else {
        "fill repaired — ink kept; one undo takes it all back"@
    }
}

/// A fill can be repaired while it is remembered, on its own page, on its own
/// layer that still takes pixels, and while it is the newest step. Each of these
/// that fails is named, the first one first.
pub proof fn law_a_fill_is_repaired_while_it_is_newest(app: App, k: int)
    ensures
        app.fill.last is None ==> repairable(app) == Err::<int, Refusal>(Refusal::NoFill),
        app.fill.last matches Some(f) ==> {
            let here = app.work.page_index < app.work.pages@.len();
            let page = if here { app.work.pages@[app.work.page_index as int].uid } else { 0 };
            let gone = forall|j: int| 0 <= j < app.doc.layers@.len() ==> (#[trigger] app.doc.layers@[j]).id != f.layer_id;
            let labels = app.doc.undo_labels@;
            let top = labels.len() > 0 && labels.last()@ == f.op_label@ && labels.len() == f.undo_len;
            &&& page != f.page_uid ==> repairable(app) == Err::<int, Refusal>(Refusal::OtherPage)
            &&& page == f.page_uid && gone ==> repairable(app) == Err::<int, Refusal>(Refusal::LayerGone)
            &&& page == f.page_uid && 0 <= k < app.doc.layers@.len() && app.doc.layers@[k].id == f.layer_id && (forall|j: int|
                0 <= j < k ==> (#[trigger] app.doc.layers@[j]).id != f.layer_id) ==> {
                &&& !app.doc.layers@[k].paintable ==> repairable(app) == Err::<int, Refusal>(Refusal::NotPaintable)
                &&& app.doc.layers@[k].paintable && !top ==> repairable(app) == Err::<int, Refusal>(Refusal::NotNewest)
                &&& app.doc.layers@[k].paintable && top ==> repairable(app) == Ok::<int, Refusal>(k)
            }
        },
{
    if let Some(f) = app.fill.last {
        crate::doc::law_the_first_of_an_id_is_found(app.doc.layers@, f.layer_id, 0);
    }
}

/// Each refusal says why.
pub proof fn law_a_refusal_says_why(r: Refusal)
    ensures
        r is NoFill ==> r.text_spec() == "no fill to repair yet — click a fill first"@,
        r is OtherPage ==> r.text_spec() == "the remembered fill is on another page"@,
        r is LayerGone ==> r.text_spec() == "the filled layer is gone"@,
        r is NotPaintable ==> r.text_spec() == "the filled layer no longer takes pixels (folder or derived)"@,
        r is NotNewest ==> r.text_spec()
            == "the fill is no longer the newest undo step — undo your later work, or fill again"@,
{
}

/// The refill runs on the layer of the leaked fill, where that and the page are
/// still there; a barrier that was only drawn stands as a wall where it has two
/// points, and real ink needs none.
pub proof fn law_a_refill_runs_where_the_fill_leaked(app: App, r: FillRepair, k: int)
    requires
        app.doc.layers@.len() <= usize::MAX,
    ensures
        (forall|j: int| 0 <= j < app.doc.layers@.len() ==> (#[trigger] app.doc.layers@[j]).id != r.leak.layer_id)
            ==> refill_for(app, r) is LayerGone,
        0 <= k < app.doc.layers@.len() && app.doc.layers@[k].id == r.leak.layer_id && (forall|j: int|
            0 <= j < k ==> (#[trigger] app.doc.layers@[j]).id != r.leak.layer_id) ==> {
            let here = app.work.page_index < app.work.pages@.len();
            let page = if here { app.work.pages@[app.work.page_index as int].uid } else { 0 };
            &&& page != r.leak.page_uid ==> refill_for(app, r) is PageMoved
            &&& page == r.leak.page_uid ==> (refill_for(app, r) matches Refill::Run { layer, wall } && layer == k && wall
                == (r.virtual_barrier && r.pts@.len() >= 2))
        },
{
    crate::doc::law_the_first_of_an_id_is_found(app.doc.layers@, r.leak.layer_id, 0);
}

/// The refill takes the leaked fill's own name; together with a closing stroke of
/// real ink it is one step.
pub proof fn law_a_refill_is_the_newest_step(labels: Seq<Seq<char>>, r: FillRepair)
    ensures
        refilled(labels, r).len() > 0,
        r.virtual_barrier ==> refilled(labels, r) == labels.push(r.leak.op_label@),
        labels.len() <= r.armed_undo_len ==> refilled(labels, r) == labels.push(r.leak.op_label@),
        !r.virtual_barrier && labels.len() > r.armed_undo_len ==> refilled(labels, r).len() == labels.len() && refilled(
            labels,
            r,
        ).last() == "Repair fill"@,
{
}

/// What is said of a repair tells the two barriers apart.
pub proof fn law_the_barriers_are_told_apart()
    ensures
        again_text(true) == "repair re-armed: virtual barrier — draw the closing stroke"@,
        again_text(false) == "repair re-armed: real-ink barrier — draw the closing stroke"@,
        armed_text(true) == "fill repair armed — draw the closing stroke; the fill re-runs on release (Esc cancels)"@,
        armed_text(false)
            == "fill repair armed — draw the closing stroke as real ink where the fill reads it; release re-runs the fill (Esc cancels)"@,
        repaired_text(true) == "fill repaired (virtual barrier) — one undo takes it all back"@,
        repaired_text(false) == "fill repaired — ink kept; one undo takes it all back"@,
{
}

/// Arming a repair takes the leaked fill back, makes its layer active and waits
/// for the closing stroke. A repair that is armed already only changes its
/// barrier. Where nothing can be repaired nothing changes.
pub proof fn law_arming_takes_the_fill_back(app: App, after: App, r: Armed, virtual_barrier: bool, undone: bool)
    requires
        app.repair_armed(after, r, virtual_barrier, undone),
    ensures
        r is Again == app.fill.repair is Some,
        r is Refused || r is NothingToUndo ==> after == (App { shell: after.shell, ..app }) && after.shell.cmds
            == app.shell.cmds,
        r is NothingToUndo ==> after.shell.status@ == "nothing to undo — the fill already went"@,
        r is Now ==> app.fill.repair is None && app.fill.last is Some && undone,
        app.fill.repair is None && app.fill.last is None ==> r == Armed::Refused(Refusal::NoFill) && after.shell.status@
            == "no fill to repair yet — click a fill first"@,
        r is Again || r is Now ==> {
            &&& after.fill.repair matches Some(now)
            &&& now.virtual_barrier == virtual_barrier
            &&& now.pts@.len() == 0
            &&& r is Again ==> now.leak == app.fill.repair->0.leak && now.armed_undo_len == app.fill.repair->0.armed_undo_len
                && after.doc == app.doc
            &&& r is Now ==> now.leak == app.fill.last->0 && now.radius == 0x3f80_0000 && after.shell.needs_redraw
            &&& r is Now && app.doc.undo_labels@.len() > 0 ==> after.doc.undo_labels@ == app.doc.undo_labels@.drop_last()
                && now.armed_undo_len == app.doc.undo_labels@.len() - 1
            &&& r is Again && virtual_barrier ==> after.shell.status@
                == "repair re-armed: virtual barrier — draw the closing stroke"@
        },
        r is Now ==> app.doc.undo_labels@.len() > 0,
        r is Now && app.doc.layers@.len() <= usize::MAX ==> after.doc.active < app.doc.layers@.len()
            && app.doc.layers@[after.doc.active as int].id == app.fill.last->0.layer_id
            && app.doc.layers@[after.doc.active as int].paintable,
{
    if let Some(f) = app.fill.last {
        crate::doc::law_the_first_of_an_id_is_found(app.doc.layers@, f.layer_id, 0);
    }
}

/// The refill lands on the layer of the leaked fill as a step of its own, or
/// stands down where that layer or its page went. A refill of nothing leaves no
/// step.
pub proof fn law_a_refill_lands_on_its_layer(app: App, after: App, repair: FillRepair, filled: u64)
    requires
        app.repair_finished(after, repair, filled),
        app.doc.layers@.len() <= usize::MAX,
    ensures
        after.doc.layers == app.doc.layers,
        after.fill == app.fill,
        after.shell.cmds == app.shell.cmds,
        (forall|j: int| 0 <= j < app.doc.layers@.len() ==> (#[trigger] app.doc.layers@[j]).id != repair.leak.layer_id)
            ==> after.doc == app.doc && after.shell.status@ == "the filled layer is gone — repair stood down"@,
        after.doc != app.doc ==> after.work.dirty && after.doc.active < app.doc.layers@.len()
            && app.doc.layers@[after.doc.active as int].id == repair.leak.layer_id,
        filled == 0 ==> after.doc.undo_labels == app.doc.undo_labels && after.doc.op_count == app.doc.op_count,
        after.doc.op_count != app.doc.op_count ==> text::strings(after.doc.undo_labels@) == refilled(
            text::strings(app.doc.undo_labels@),
            repair,
        ) && after.shell.needs_redraw,
        after.doc.op_count != app.doc.op_count && repair.virtual_barrier ==> after.shell.status@
            == "fill repaired (virtual barrier) — one undo takes it all back"@,
        after.doc.op_count != app.doc.op_count && !repair.virtual_barrier ==> after.shell.status@
            == "fill repaired — ink kept; one undo takes it all back"@,
        filled > 0 && refill_for(app, repair) is Run ==> after.doc.op_count != app.doc.op_count,
{
    crate::doc::law_the_first_of_an_id_is_found(app.doc.layers@, repair.leak.layer_id, 0);
}

} // verus!
