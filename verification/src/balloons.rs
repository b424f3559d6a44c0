//! Speech balloons: what a Balloon-tool drag makes, which lettering goes along
//! when a balloon is turned, moved or resized, and the edits of its anchors.
//! A balloon and its lettering share no link: the lettering inside the shape
//! belongs to it.

use vstd::prelude::*;
use vstd::string::StringExecFns;
use crate::app::{App, AppCmd, NewBalloon, Shell, Tail};
use crate::canvas_input::{BalloonDragMode, BalloonHandle, BalloonObjDrag};
use crate::doc::{Layer, LayerKind};
use crate::geom::{Pt, Sample};
use crate::modes::BalloonMode;
use crate::text;

verus! {

/// What the shell measured of a Balloon-tool drag.
#[derive(Debug)]
pub struct BalloonFacts {
    /// Both sides of the dragged box are long enough.
    pub big: bool,
    /// The drawn outline and its pressures, where they make a balloon.
    pub drawn: Option<(Vec<Pt>, Vec<u32>)>,
    /// For each layer, its balloon under the press.
    pub under: Vec<Option<usize>>,
    /// The drag is long enough for a tail.
    pub long: bool,
    /// How wide a new tail is, as a bit pattern of a 32-bit float.
    pub tail_width: u32,
}

/// The topmost balloon under the press, among the first `n` layers: hidden
/// layers do not count.
pub open spec fn top_balloon(layers: Seq<Layer>, under: Seq<Option<usize>>, n: int) -> Option<(int, usize)>
    decreases n,
{
    if n <= 0 {
        None
    } else if layers[n - 1].look.visible && layers[n - 1].kind is Balloon && under[n - 1] is Some {
        Some((n - 1, under[n - 1]->0))
    } else {
        top_balloon(layers, under, n - 1)
    }
}

fn find_top_balloon(layers: &Vec<Layer>, under: &Vec<Option<usize>>) -> (r: Option<(usize, usize)>)
    requires
        under@.len() == layers@.len(),
    ensures
        match r {
            Some(t) => top_balloon(layers@, under@, layers@.len() as int) == Some((t.0 as int, t.1)) && t.0 < layers@.len(),
            None => top_balloon(layers@, under@, layers@.len() as int) is None,
        },
{
    let mut n: usize = layers.len();
    while n > 0
        invariant
            n <= layers@.len() == under@.len(),
            top_balloon(layers@, under@, layers@.len() as int) == top_balloon(layers@, under@, n as int),
        decreases n,
    {
        if layers[n - 1].look.visible && layers[n - 1].is_balloon() {
            if let Some(b) = under[n - 1] {
                return Some((n - 1, b));
            }
        }
        n = n - 1;
    }
    None
}

/// The outline of a drawn balloon closes itself: a last anchor that landed on
/// the first is dropped, and the pressures with it.
pub fn close_drawn(simple: &mut Vec<Pt>, widths: &mut Vec<u32>, meets: bool)
    ensures
        ({
            let drop = meets && old(simple)@.len() >= 2;
            let n = old(simple)@.len() - 1;
            &&& final(simple)@ == (if drop { old(simple)@.drop_last() } else { old(simple)@ })
            &&& final(widths)@ == (if drop && n < old(widths)@.len() { old(widths)@.take(n) } else { old(widths)@ })
        }),
{
    if simple.len() >= 2 && meets {
        let _ = simple.pop();
        if simple.len() < widths.len() {
            widths.truncate(simple.len());
            proof {
                assert(widths@ =~= old(widths)@.take(old(simple)@.len() - 1));
            }
        }
    }
}

impl App {
    /// What a balloon drag comes to.
    pub open spec fn balloon_finished(self, after: App, pts: Seq<Sample>, f: BalloonFacts) -> bool {
        let a = pts[0].at;
        let b = pts.last().at;
        &&& after == (App { shell: after.shell, ..self })
        &&& if pts.len() == 0 {
            after.shell == self.shell
        } else {
            match self.tools.balloon_mode {
                BalloonMode::Ellipse | BalloonMode::Round => if !f.big {
                    after.shell.says(self.shell, "drag out the balloon's size"@)
                } else {
                    after.shell.asks(
                        self.shell,
                        AppCmd::BalloonAdd {
                            balloon: if self.tools.balloon_mode is Ellipse {
                                NewBalloon::Ellipse { a, b }
                            } else {
                                NewBalloon::Round { a, b }
                            },
                            ink: self.tools.balloon_ink,
                        },
                    )
                },
                BalloonMode::Draw => match f.drawn {
                    None => after.shell.says(self.shell, "draw a closed bubble shape"@),
                    Some(d) => after.shell.asks(
                        self.shell,
                        AppCmd::BalloonAdd {
                            balloon: NewBalloon::Drawn { points: d.0, widths: d.1 },
                            ink: self.tools.balloon_ink,
                        },
                    ),
                },
                BalloonMode::Tail => match top_balloon(self.doc.layers@, f.under@, self.doc.layers@.len() as int) {
                    None => after.shell.says(self.shell, "start the tail drag inside a balloon"@),
                    Some(t) => if !f.long {
                        after.shell.says(self.shell, "drag out to where the tail should point"@)
                    } else {
                        after.shell.asks(
                            self.shell,
                            AppCmd::BalloonTailAdd {
                                layer: t.0 as usize,
                                balloon: t.1,
                                tail: Tail {
                                    base: a,
                                    tip: b,
                                    width: f.tail_width,
                                    kind: self.tools.balloon_tail_kind,
                                    bend: self.tools.balloon_tail_bend,
                                },
                            },
                        )
                    },
                },
            }
        }
    }

    /// The release of a Balloon-tool drag: a balloon, or a tail from the
    /// balloon under the press.
    pub fn finish_balloon_drag(&mut self, pts: &Vec<Sample>, f: BalloonFacts)
        requires
            f.under@.len() == old(self).doc.layers@.len(),
        ensures
            old(self).balloon_finished(*final(self), pts@, f),
            old(self).wf() ==> final(self).wf(),
    {
        if pts.len() == 0 {
            return;
        }
        let a: Pt = pts[0].at;
        let b: Pt = pts[pts.len() - 1].at;
        match self.tools.balloon_mode {
            BalloonMode::Ellipse | BalloonMode::Round => {
                if !f.big {
                    self.set_status("drag out the balloon's size");
                    return;
                }
                let balloon = if self.tools.balloon_mode == BalloonMode::Ellipse {
                    NewBalloon::Ellipse { a, b }
                } else {
                    NewBalloon::Round { a, b }
                };
                self.push_cmd(AppCmd::BalloonAdd { balloon, ink: self.tools.balloon_ink });
            },
            BalloonMode::Draw => match f.drawn {
                None => {
                    self.set_status("draw a closed bubble shape");
                },
                Some(d) => {
                    let (points, widths) = d;
                    self.push_cmd(
                        AppCmd::BalloonAdd {
                            balloon: NewBalloon::Drawn { points, widths },
                            ink: self.tools.balloon_ink,
                        },
                    );
                },
            },
            BalloonMode::Tail => match find_top_balloon(&self.doc.layers, &f.under) {
                None => {
                    self.set_status("start the tail drag inside a balloon");
                },
                Some((layer, balloon)) => {
                    if !f.long {
                        self.set_status("drag out to where the tail should point");
                        return;
                    }
                    let tail = Tail {
                        base: a,
                        tip: b,
                        width: f.tail_width,
                        kind: self.tools.balloon_tail_kind,
                        bend: self.tools.balloon_tail_bend,
                    };
                    self.push_cmd(AppCmd::BalloonTailAdd { layer, balloon, tail });
                },
            },
        }
    }
}

/// How a balloon went that takes its lettering along.
#[derive(Clone, Copy, PartialEq, Eq, Structural, Debug)]
pub enum Carry {
    Turn,
    Move,
    Resize,
}

/// What the lettering inside the balloon comes to on one layer: how many texts
/// go along, and the shell's name for the layer's texts behind it.
#[derive(Clone, Copy, PartialEq, Eq, Structural, Debug)]
pub struct TextMove {
    pub n: usize,
    pub texts: u64,
}

/// Does lettering of this layer go along? Hidden and locked layers are left
/// alone.
pub open spec fn carries(l: Layer, m: TextMove) -> bool {
    l.look.visible && !l.lock && l.kind is Text && m.n > 0
}

/// The commits of the lettering on the first `n` layers.
pub open spec fn carry_cmds(layers: Seq<Layer>, moved: Seq<TextMove>, n: int) -> Seq<AppCmd>
    decreases n,
{
    if n <= 0 {
        seq![]
    } else if carries(layers[n - 1], moved[n - 1]) {
        carry_cmds(layers, moved, n - 1).push(
            AppCmd::TextCommit { layer: (n - 1) as usize, texts: moved[n - 1].texts },
        )
    } else {
        carry_cmds(layers, moved, n - 1)
    }
}

/// How many texts of the first `n` layers go along.
pub open spec fn carry_count(layers: Seq<Layer>, moved: Seq<TextMove>, n: int) -> nat
    decreases n,
{
    if n <= 0 {
        0
    } else {
        carry_count(layers, moved, n - 1) + (if carries(layers[n - 1], moved[n - 1]) { moved[n - 1].n as nat } else { 0 })
    }
}

proof fn lemma_carry_grows(layers: Seq<Layer>, moved: Seq<TextMove>, a: int, b: int)
    requires
        0 <= a <= b,
    ensures
        carry_count(layers, moved, a) <= carry_count(layers, moved, b),
    decreases b,
{
    if a < b {
        lemma_carry_grows(layers, moved, a, b - 1);
    }
}

/// What is said of the lettering that went along.
pub open spec fn carry_text(how: Carry, n: nat) -> Seq<char> {
    let text = if n == 1 { " text"@ } else { " texts"@ };
    match how {
        Carry::Turn => text::counted("balloon turned — "@, n, text)
            + " came with it (still editable; one undo takes the turn and its lettering together)"@,
        Carry::Move => text::counted("balloon moved — "@, n, text)
            + " came with it (still editable; one undo takes the move and its lettering together)"@,
        Carry::Resize => text::counted("balloon resized — "@, n, text)
            + " kept its place in it (still editable; one undo takes the resize and its lettering together)"@,
    }
}

impl App {
    /// What taking the lettering along makes of the state.
    pub open spec fn carried(self, after: App, how: Carry, moved: Seq<TextMove>, still: bool, layers: usize) -> bool {
        let all = self.doc.layers@;
        let cmds = if still { seq![] } else { carry_cmds(all, moved, all.len() as int) };
        let n = if still { 0 } else { carry_count(all, moved, all.len() as int) };
        &&& after == (App {
            shell: (Shell { status: after.shell.status, cmds: after.shell.cmds, ..self.shell }),
            ..self
        })
        &&& after.shell.cmds@ == self.shell.cmds@ + cmds
        &&& layers == cmds.len()
        &&& after.shell.status@ == (if n > 0 { carry_text(how, n) } else { self.shell.status@ })
    }

    /// Commits the lettering that goes along; says how many layers that was.
    fn carry(&mut self, how: Carry, moved: &Vec<TextMove>) -> (r: usize)
        requires
            moved@.len() == old(self).doc.layers@.len(),
            carry_count(old(self).doc.layers@, moved@, moved@.len() as int) <= usize::MAX,
        ensures
            old(self).carried(*final(self), how, moved@, false, r),
    {
        let mut n: usize = 0;
        let mut layers: usize = 0;
        let mut li: usize = 0;
        let ghost before = self.shell.cmds@;
        proof {
            assert(before + carry_cmds(self.doc.layers@, moved@, 0) =~= before);
        }
        while li < moved.len()
            invariant
                li <= moved@.len() == self.doc.layers@.len(),
                *self == (App { shell: self.shell, ..*old(self) }),
                self.shell == (Shell { cmds: self.shell.cmds, ..old(self).shell }),
                before == old(self).shell.cmds@,
                self.shell.cmds@ == before + carry_cmds(self.doc.layers@, moved@, li as int),
                n == carry_count(self.doc.layers@, moved@, li as int),
                layers == carry_cmds(self.doc.layers@, moved@, li as int).len(),
                layers <= li,
                carry_count(self.doc.layers@, moved@, moved@.len() as int) <= usize::MAX,
            decreases moved@.len() - li,
        {
            proof {
                lemma_carry_grows(self.doc.layers@, moved@, li + 1, moved@.len() as int);
            }
            let l = &self.doc.layers[li];
            let m: TextMove = moved[li];
            if l.look.visible && !l.lock && l.is_text() && m.n > 0 {
                n = n + m.n;
                layers = layers + 1;
                self.shell.cmds.push(AppCmd::TextCommit { layer: li, texts: m.texts });
                proof {
                    assert(self.shell.cmds@ =~= before + carry_cmds(self.doc.layers@, moved@, li + 1));
                }
            }
            li = li + 1;
        }
        if n > 0 {
            let text: &str = if n == 1 { " text" } else { " texts" };
            let mut s = match how {
                Carry::Turn => text::count_line("balloon turned — ", n, text),
                Carry::Move => text::count_line("balloon moved — ", n, text),
                Carry::Resize => text::count_line("balloon resized — ", n, text),
            };
            s.append(
                match how {
                    Carry::Turn => " came with it (still editable; one undo takes the turn and its lettering together)",
                    Carry::Move => " came with it (still editable; one undo takes the move and its lettering together)",
                    Carry::Resize => " kept its place in it (still editable; one undo takes the resize and its lettering together)",
                },
            );
            self.shell.status = s;
        }
        layers
    }

    /// The lettering turns with the balloon, and stays lettering; says how
    /// many layers were committed. A balloon that did not turn takes nothing
    /// along.
    pub fn carry_texts_with_balloon(&mut self, still: bool, moved: &Vec<TextMove>) -> (r: usize)
        requires
            moved@.len() == old(self).doc.layers@.len(),
            carry_count(old(self).doc.layers@, moved@, moved@.len() as int) <= usize::MAX,
        ensures
            old(self).carried(*final(self), Carry::Turn, moved@, still, r),
            old(self).wf() ==> final(self).wf(),
    {
        if still {
            proof {
                assert(self.shell.cmds@ + Seq::<AppCmd>::empty() =~= self.shell.cmds@);
            }
            return 0;
        }
        self.carry(Carry::Turn, moved)
    }

    /// The lettering moves with the balloon; says how many layers were
    /// committed. A balloon that did not move takes nothing along.
    pub fn translate_texts_with_balloon(&mut self, still: bool, moved: &Vec<TextMove>) -> (r: usize)
        requires
            moved@.len() == old(self).doc.layers@.len(),
            carry_count(old(self).doc.layers@, moved@, moved@.len() as int) <= usize::MAX,
        ensures
            old(self).carried(*final(self), Carry::Move, moved@, still, r),
            old(self).wf() ==> final(self).wf(),
    {
        if still {
            proof {
                assert(self.shell.cmds@ + Seq::<AppCmd>::empty() =~= self.shell.cmds@);
            }
            return 0;
        }
        self.carry(Carry::Move, moved)
    }

    /// The lettering keeps its place in the resized balloon; says how many
    /// layers were committed.
    pub fn scale_texts_with_balloon(&mut self, moved: &Vec<TextMove>) -> (r: usize)
        requires
            moved@.len() == old(self).doc.layers@.len(),
            carry_count(old(self).doc.layers@, moved@, moved@.len() as int) <= usize::MAX,
        ensures
            old(self).carried(*final(self), Carry::Resize, moved@, false, r),
            old(self).wf() ==> final(self).wf(),
    {
        self.carry(Carry::Resize, moved)
    }
}

/// Only visible, unlocked text layers are committed, each at most once and
/// from the bottom up.
pub proof fn law_carry_touches_only_open_text_layers(layers: Seq<Layer>, moved: Seq<TextMove>, n: int)
    requires
        0 <= n <= layers.len(),
        layers.len() <= usize::MAX,
    ensures
        forall|i: int|
            0 <= i < carry_cmds(layers, moved, n).len() ==> {
                &&& #[trigger] carry_cmds(layers, moved, n)[i] matches AppCmd::TextCommit { layer, texts }
                &&& layer < n
                &&& carries(layers[layer as int], moved[layer as int])
                &&& texts == moved[layer as int].texts
            },
        forall|i: int, j: int|
            0 <= i < j < carry_cmds(layers, moved, n).len() ==> ({
                let a = #[trigger] carry_cmds(layers, moved, n)[i];
                let b = #[trigger] carry_cmds(layers, moved, n)[j];
                a->TextCommit_layer < b->TextCommit_layer
            }),
    decreases n,
{
    if n > 0 {
        law_carry_touches_only_open_text_layers(layers, moved, n - 1);
    }
}

/// The lettering that a balloon is fitted to, among the first `n` layers: that
/// of the topmost visible text layer with any. Locked layers count, since
/// nothing of theirs is changed.
pub open spec fn fit_target(layers: Seq<Layer>, inside: Seq<Option<usize>>, n: int) -> Option<(int, usize)>
    decreases n,
{
    if n <= 0 {
        None
    } else if layers[n - 1].look.visible && layers[n - 1].kind is Text && inside[n - 1] is Some {
        Some((n - 1, inside[n - 1]->0))
    } else {
        fit_target(layers, inside, n - 1)
    }
}

/// Is there such a balloon?
pub open spec fn has_balloon(layers: Seq<Layer>, layer: int, balloon: int) -> bool {
    0 <= layer < layers.len() && (layers[layer].kind matches LayerKind::Balloon(n) && balloon < n)
}

fn is_balloon_there(layers: &Vec<Layer>, layer: usize, balloon: usize) -> (r: bool)
    ensures
        r == has_balloon(layers@, layer as int, balloon as int),
{
    if layer >= layers.len() {
        return false;
    }
    match layers[layer].kind {
        LayerKind::Balloon(n) => balloon < n,
        _ => false,
    }
}

impl App {
    /// The lettering that the balloon is to be fitted to: `inside` is, for
    /// each layer, its text inside the balloon.
    pub fn fit_lettering(&self, layer: usize, balloon: usize, inside: &Vec<Option<usize>>) -> (r: Option<(usize, usize)>)
        requires
            inside@.len() == self.doc.layers@.len(),
        ensures
            match r {
                Some(t) => has_balloon(self.doc.layers@, layer as int, balloon as int)
                    && fit_target(self.doc.layers@, inside@, inside@.len() as int) == Some((t.0 as int, t.1)),
                None => !has_balloon(self.doc.layers@, layer as int, balloon as int)
                    || fit_target(self.doc.layers@, inside@, inside@.len() as int) is None,
            },
    {
        if !is_balloon_there(&self.doc.layers, layer, balloon) {
            return None;
        }
        let mut n: usize = inside.len();
        while n > 0
            invariant
                n <= inside@.len() == self.doc.layers@.len(),
                fit_target(self.doc.layers@, inside@, inside@.len() as int) == fit_target(self.doc.layers@, inside@, n as int),
                has_balloon(self.doc.layers@, layer as int, balloon as int),
            decreases n,
        {
            if self.doc.layers[n - 1].look.visible && self.doc.layers[n - 1].is_text() {
                if let Some(t) = inside[n - 1] {
                    return Some((n - 1, t));
                }
            }
            n = n - 1;
        }
        None
    }

    /// What fitting a balloon makes of the state.
    pub open spec fn balloon_fitted(self, after: App, layer: usize, balloon: usize, inside: Seq<Option<usize>>, fitted: Option<u64>) -> bool {
        &&& after == (App { shell: after.shell, ..self })
        &&& ({
            let target = fit_target(self.doc.layers@, inside, inside.len() as int);
            if !has_balloon(self.doc.layers@, layer as int, balloon as int) {
                after.shell == self.shell
            } else if target is None {
                after.shell.says(
                    self.shell,
                    "no lettering in this balloon — type the text into it first"@,
                )
            } else {
                match fitted {
                    None => after.shell.says(self.shell, "the balloon already fits its lettering"@),
                    Some(balloons) => {
                        &&& after.shell == (Shell {
                            status: after.shell.status,
                            cmds: after.shell.cmds,
                            ..self.shell
                        })
                        &&& after.shell.cmds@ == self.shell.cmds@.push(AppCmd::BalloonCommit { layer, balloons })
                        &&& after.shell.status@ == "balloon fitted to its lettering — the tail came with it"@
                    },
                }
            }
        })
    }

    /// Fits a balloon to its lettering: `fitted` is the shell's name for the
    /// layer's balloons with this one fitted, where that changes it.
    pub fn fit_balloon_to_text(&mut self, layer: usize, balloon: usize, inside: &Vec<Option<usize>>, fitted: Option<u64>)
        requires
            inside@.len() == old(self).doc.layers@.len(),
        ensures
            old(self).balloon_fitted(*final(self), layer, balloon, inside@, fitted),
            old(self).wf() ==> final(self).wf(),
    {
        if !is_balloon_there(&self.doc.layers, layer, balloon) {
            return;
        }
        if self.fit_lettering(layer, balloon, inside).is_none() {
            self.set_status("no lettering in this balloon — type the text into it first");
            return;
        }
        match fitted {
            None => {
                self.set_status("the balloon already fits its lettering");
            },
            Some(balloons) => {
                self.push_cmd(AppCmd::BalloonCommit { layer, balloons });
                self.set_status("balloon fitted to its lettering — the tail came with it");
            },
        }
    }
}

/// What the shell measured of a press on the selected balloon, and what the
/// edit that the press asks for would leave.
#[derive(Clone, Copy, PartialEq, Eq, Structural, Debug)]
pub struct AnchorFacts {
    /// The handle under the press.
    pub handle: Option<BalloonHandle>,
    /// The balloon is a drawn outline.
    pub drawn: bool,
    /// The layer's balloons with the handle's edit done, where it can be.
    pub edited: Option<u64>,
    /// Is the press on the outline?
    pub on_edge: bool,
    /// The layer's balloons with an anchor put in there, where it can be.
    pub inserted: Option<u64>,
}

/// What a press with a modifier does to the selected balloon.
#[derive(Clone, Copy, PartialEq, Eq, Structural, Debug)]
pub enum AnchorEdit {
    /// Nothing: the press goes on to the other tools.
    Pass,
    /// The press is used up, and nothing happens.
    Swallow,
    FewAnchors,
    PlainBody,
    NoCorners,
    DeleteAnchor(u64),
    DeleteTail(u64),
    ToggleCorner(u64),
    InsertAnchor(u64),
}

/// What a press with a modifier does: Ctrl deletes the anchor or tail under
/// it, or puts an anchor into the outline; Alt turns an anchor's corner.
pub open spec fn anchor_edit(app: App, ctrl: bool, alt: bool, f: AnchorFacts) -> AnchorEdit {
    if !(ctrl || alt) {
        AnchorEdit::Pass
    } else {
        match app.picked.balloon {
            None => AnchorEdit::Pass,
            Some(sel) => if !has_balloon(app.doc.layers@, sel.0 as int, sel.1 as int) {
                AnchorEdit::Pass
            } else {
                match f.handle {
                    Some(BalloonHandle::Shape(_)) => if ctrl {
                        match f.edited {
                            Some(e) => AnchorEdit::DeleteAnchor(e),
                            None => if f.drawn { AnchorEdit::FewAnchors } else { AnchorEdit::PlainBody },
                        }
                    } else {
                        match f.edited {
                            Some(e) => AnchorEdit::ToggleCorner(e),
                            None => AnchorEdit::NoCorners,
                        }
                    },
                    Some(_) => if ctrl {
                        match f.edited {
                            Some(e) => AnchorEdit::DeleteTail(e),
                            None => AnchorEdit::Swallow,
                        }
                    } else {
                        AnchorEdit::Pass
                    },
                    None => if ctrl && f.on_edge {
                        match f.inserted {
                            Some(e) => AnchorEdit::InsertAnchor(e),
                            None => AnchorEdit::Swallow,
                        }
                    } else {
                        AnchorEdit::Pass
                    },
                }
            },
        }
    }
}

impl App {
    /// A commit of the selected balloon's layer, with a word about it.
    pub open spec fn balloon_committed(self, after: App, balloons: u64, s: Seq<char>) -> bool {
        &&& after == (App {
            shell: (Shell { status: after.shell.status, cmds: after.shell.cmds, ..self.shell }),
            ..self
        })
        &&& after.shell.cmds@ == self.shell.cmds@.push(
            AppCmd::BalloonCommit { layer: (self.picked.balloon->0).0, balloons },
        )
        &&& after.shell.status@ == s
    }

    /// What an anchor edit makes of the state.
    pub open spec fn anchor_edited(self, after: App, e: AnchorEdit) -> bool {
        match e {
            AnchorEdit::Pass | AnchorEdit::Swallow => after == self,
            AnchorEdit::FewAnchors => {
                &&& after == (App { shell: after.shell, ..self })
                &&& after.shell.says(self.shell, "a balloon keeps at least 3 anchors"@)
            },
            AnchorEdit::PlainBody => {
                &&& after == (App { shell: after.shell, ..self })
                &&& after.shell.says(self.shell, "ellipse/rounded bodies resize by their handles"@)
            },
            AnchorEdit::NoCorners => {
                &&& after == (App { shell: after.shell, ..self })
                &&& after.shell.says(self.shell, "only drawn balloons have corner anchors"@)
            },
            AnchorEdit::DeleteAnchor(b) => self.balloon_committed(after, b, "anchor deleted"@),
            AnchorEdit::DeleteTail(b) => self.balloon_committed(after, b, "tail deleted"@),
            AnchorEdit::ToggleCorner(b) => self.balloon_committed(after, b, "anchor corner/smooth toggled"@),
            AnchorEdit::InsertAnchor(b) => self.balloon_committed(after, b, "anchor inserted"@),
        }
    }

    fn plan_anchor_edit(&self, ctrl: bool, alt: bool, f: AnchorFacts) -> (r: AnchorEdit)
        ensures
            r == anchor_edit(*self, ctrl, alt, f),
    {
        if !(ctrl || alt) {
            return AnchorEdit::Pass;
        }
        let sel = match self.picked.balloon {
            None => return AnchorEdit::Pass,
            Some(sel) => sel,
        };
        if !is_balloon_there(&self.doc.layers, sel.0, sel.1) {
            return AnchorEdit::Pass;
        }
        match f.handle {
            Some(BalloonHandle::Shape(_)) => if ctrl {
                match f.edited {
                    Some(e) => AnchorEdit::DeleteAnchor(e),
                    None => if f.drawn { AnchorEdit::FewAnchors } else { AnchorEdit::PlainBody },
                }
            } else {
                match f.edited {
                    Some(e) => AnchorEdit::ToggleCorner(e),
                    None => AnchorEdit::NoCorners,
                }
            },
            Some(_) => if ctrl {
                match f.edited {
                    Some(e) => AnchorEdit::DeleteTail(e),
                    None => AnchorEdit::Swallow,
                }
            } else {
                AnchorEdit::Pass
            },
            None => if ctrl && f.on_edge {
                match f.inserted {
                    Some(e) => AnchorEdit::InsertAnchor(e),
                    None => AnchorEdit::Swallow,
                }
            } else {
                AnchorEdit::Pass
            },
        }
    }

    fn commit_balloons(&mut self, balloons: u64, s: &str)
        requires
            old(self).picked.balloon is Some,
        ensures
            old(self).balloon_committed(*final(self), balloons, s@),
    {
        if let Some(sel) = self.picked.balloon {
            self.push_cmd(AppCmd::BalloonCommit { layer: sel.0, balloons });
        }
        self.set_status(s);
    }

    /// A press of the Object tool with a modifier edits the anchors of the
    /// selected balloon, each edit one step; true when the press is used up.
    pub fn balloon_anchor_edit(&mut self, ctrl: bool, alt: bool, f: AnchorFacts) -> (r: bool)
        ensures
            r == !(anchor_edit(*old(self), ctrl, alt, f) is Pass),
            old(self).anchor_edited(*final(self), anchor_edit(*old(self), ctrl, alt, f)),
            old(self).wf() ==> final(self).wf(),
    {
        match self.plan_anchor_edit(ctrl, alt, f) {
            AnchorEdit::Pass => {
                return false;
            },
            AnchorEdit::Swallow => {},
            AnchorEdit::FewAnchors => {
                self.set_status("a balloon keeps at least 3 anchors");
            },
            AnchorEdit::PlainBody => {
                self.set_status("ellipse/rounded bodies resize by their handles");
            },
            AnchorEdit::NoCorners => {
                self.set_status("only drawn balloons have corner anchors");
            },
            AnchorEdit::DeleteAnchor(b) => {
                self.commit_balloons(b, "anchor deleted");
            },
            AnchorEdit::DeleteTail(b) => {
                self.commit_balloons(b, "tail deleted");
            },
            AnchorEdit::ToggleCorner(b) => {
                self.commit_balloons(b, "anchor corner/smooth toggled");
            },
            AnchorEdit::InsertAnchor(b) => {
                self.commit_balloons(b, "anchor inserted");
            },
        }
        true
    }
}

/// What the shell measured at the release of a balloon drag.
#[derive(Debug)]
pub struct BalloonDrop {
    /// The pointer travelled.
    pub moved: bool,
    /// The reshaped balloon is a balloon.
    pub valid: bool,
    /// The body can stand askew.
    pub rotates_exactly: bool,
    /// It did not turn, or not move, after all.
    pub still: bool,
    /// The shell's name for the layer's balloons behind the drag.
    pub balloons: u64,
    /// For each layer, the lettering that goes along.
    pub texts: Vec<TextMove>,
}

/// Which way the lettering goes along, if it does.
pub open spec fn carry_of(g: BalloonObjDrag, d: BalloonDrop) -> Option<Carry> {
    match g.mode {
        BalloonDragMode::BoxRotate => if d.rotates_exactly { Some(Carry::Turn) } else { None },
        BalloonDragMode::MoveWhole => Some(Carry::Move),
        _ => Some(Carry::Resize),
    }
}

/// Did the balloon stay where it was? A resize is never asked.
pub open spec fn stays(g: BalloonObjDrag, d: BalloonDrop) -> bool {
    d.still && (g.mode is BoxRotate || g.mode is MoveWhole)
}

impl App {
    /// What the release of a balloon drag makes of the state.
    pub open spec fn balloon_dropped(self, after: App, g: BalloonObjDrag, d: BalloonDrop) -> bool {
        let layers = self.doc.layers@;
        let quiet = after.shell.cmds@ == self.shell.cmds@ && after.shell.status@ == self.shell.status@;
        &&& after == (App {
            shell: (Shell { status: after.shell.status, cmds: after.shell.cmds, needs_redraw: true, ..self.shell }),
            ..self
        })
        &&& if !d.moved {
            quiet
        } else if !d.valid || !(g.layer < layers.len() && layers[g.layer as int].kind is Balloon) {
            &&& after.shell.cmds@ == self.shell.cmds@
            &&& after.shell.status@ == "that edit would collapse the balloon — reverted"@
        } else if !has_balloon(layers, g.layer as int, g.balloon as int) {
            quiet
        } else {
            let own = AppCmd::BalloonCommit { layer: g.layer, balloons: d.balloons };
            let goes = carry_of(g, d) is Some && !stays(g, d);
            let texts = if goes { carry_cmds(layers, d.texts@, layers.len() as int) } else { seq![] };
            let n = if goes { carry_count(layers, d.texts@, layers.len() as int) } else { 0 };
            let cmds = self.shell.cmds@.push(own) + texts;
            &&& if texts.len() == 0 {
                after.shell.cmds@ == cmds
            } else {
                &&& after.shell.cmds@.len() == cmds.len() + 1
                &&& after.shell.cmds@.drop_last() == cmds
                &&& after.shell.cmds@.last() matches AppCmd::HistoryWrapLast { label, count }
                &&& label@ == "Balloon"@
                &&& count == 1 + texts.len()
            }
            &&& after.shell.status@ == (if n > 0 { carry_text(carry_of(g, d)->0, n) } else { self.shell.status@ })
        }
    }

    /// The release of a balloon drag: the balloon, with the lettering inside
    /// it, as one step.
    pub fn finish_balloon_obj_drag(&mut self, g: BalloonObjDrag, d: BalloonDrop)
        requires
            d.texts@.len() == old(self).doc.layers@.len(),
            carry_count(old(self).doc.layers@, d.texts@, d.texts@.len() as int) <= usize::MAX,
        ensures
            old(self).balloon_dropped(*final(self), g, d),
            old(self).wf() ==> final(self).wf(),
    {
        self.shell.needs_redraw = true;
        if !d.moved {
            return;
        }
        let on_layer = g.layer < self.doc.layers.len() && self.doc.layers[g.layer].is_balloon();
        if !d.valid || !on_layer {
            self.set_status("that edit would collapse the balloon — reverted");
            return;
        }
        if !is_balloon_there(&self.doc.layers, g.layer, g.balloon) {
            return;
        }
        self.push_cmd(AppCmd::BalloonCommit { layer: g.layer, balloons: d.balloons });
        let ghost mid = *self;
        let layers: usize = match g.mode {
            BalloonDragMode::BoxRotate => if d.rotates_exactly {
                self.carry_texts_with_balloon(d.still, &d.texts)
            } else {
                0
            },
            BalloonDragMode::MoveWhole => self.translate_texts_with_balloon(d.still, &d.texts),
            _ => self.scale_texts_with_balloon(&d.texts),
        };
        let ghost texts = if carry_of(g, d) is Some && !stays(g, d) {
            carry_cmds(self.doc.layers@, d.texts@, self.doc.layers@.len() as int)
        } else {
            seq![]
        };
        proof {
            lemma_carry_len(self.doc.layers@, d.texts@, self.doc.layers@.len() as int);
            lemma_carry_skips(self.doc.layers@, d.texts@, self.doc.layers@.len() as int, g.layer as int);
            assert(self.doc.layers@.len() == self.doc.layers.len());
            assert(self.shell.cmds@ =~= mid.shell.cmds@ + texts);
            assert(layers == texts.len());
        }
        if layers > 0 {
            let ghost before = self.shell.cmds@;
            self.push_cmd(AppCmd::HistoryWrapLast { label: text::own("Balloon"), count: 1 + layers });
            proof {
                assert(self.shell.cmds@.drop_last() =~= before);
            }
        }
    }
}

proof fn lemma_carry_len(layers: Seq<Layer>, moved: Seq<TextMove>, n: int)
    requires
        0 <= n,
    ensures
        carry_cmds(layers, moved, n).len() <= n,
        carry_count(layers, moved, n) > 0 <==> carry_cmds(layers, moved, n).len() > 0,
    decreases n,
{
    if n > 0 {
        lemma_carry_len(layers, moved, n - 1);
    }
}

/// A layer without text is not among those whose lettering goes along.
proof fn lemma_carry_skips(layers: Seq<Layer>, moved: Seq<TextMove>, n: int, li: int)
    requires
        0 <= li < n,
        !(layers[li].kind is Text),
    ensures
        carry_cmds(layers, moved, n).len() < n,
    decreases n,
{
    lemma_carry_len(layers, moved, n - 1);
    if li < n - 1 {
        lemma_carry_skips(layers, moved, n - 1, li);
    }
}

/// The turn, the move or the resize of a balloon and its lettering are one
/// undo press: the wrap counts every commit of the gesture.
pub proof fn law_balloon_and_lettering_are_one_step(a: App, b: App, g: BalloonObjDrag, d: BalloonDrop)
    requires
        a.balloon_dropped(b, g, d),
        b.shell.cmds@.len() > a.shell.cmds@.len() + 1,
    ensures
        b.shell.cmds@.last() matches AppCmd::HistoryWrapLast { count, .. }
            && count == b.shell.cmds@.len() - a.shell.cmds@.len() - 1,
{
}

/// The balloon that is taken under a point is on the topmost visible balloon
/// layer that has one there.
pub proof fn law_the_topmost_balloon_is_taken(layers: Seq<Layer>, under: Seq<Option<usize>>, n: int)
    requires
        0 <= n <= layers.len(),
        under.len() == layers.len(),
    ensures
        match top_balloon(layers, under, n) {
            Some(t) => {
                &&& 0 <= t.0 < n
                &&& layers[t.0].look.visible
                &&& layers[t.0].kind is Balloon
                &&& under[t.0] == Some(t.1)
                &&& forall|j: int|
                    t.0 < j < n && (#[trigger] layers[j]).look.visible && layers[j].kind is Balloon ==> under[j] is None
            },
            None => forall|j: int|
                0 <= j < n && (#[trigger] layers[j]).look.visible && layers[j].kind is Balloon ==> under[j] is None,
        },
    decreases n,
{
    if n > 0 {
        law_the_topmost_balloon_is_taken(layers, under, n - 1);
    }
}

/// A drag that is large enough asks for the balloon of its sub tool, from its
/// first point to its last and in the ink that is set; a smaller one asks for
/// nothing.
pub proof fn law_a_drag_adds_one_balloon(app: App, after: App, pts: Seq<Sample>, f: BalloonFacts)
    requires
        app.balloon_finished(after, pts, f),
    ensures
        after == (App { shell: after.shell, ..app }),
        pts.len() == 0 ==> after.shell == app.shell,
        pts.len() > 0 && !(app.tools.balloon_mode is Tail) ==> {
            let m = app.tools.balloon_mode;
            let asks = if m is Draw { f.drawn is Some } else { f.big };
            &&& !asks ==> after.shell.cmds == app.shell.cmds
            &&& !asks && m is Draw ==> after.shell.status@ == "draw a closed bubble shape"@
            &&& !asks && !(m is Draw) ==> after.shell.status@ == "drag out the balloon's size"@
            &&& asks ==> {
                &&& after.shell.cmds@.len() == app.shell.cmds@.len() + 1
                &&& after.shell.status == app.shell.status
                &&& after.shell.cmds@.last() matches AppCmd::BalloonAdd { balloon, ink }
                &&& ink == app.tools.balloon_ink
                &&& m is Ellipse == balloon is Ellipse
                &&& m is Round == balloon is Round
                &&& m is Draw == balloon is Drawn
                &&& balloon matches NewBalloon::Ellipse { a, b } ==> a == pts[0].at && b == pts[pts.len() - 1].at
                &&& balloon matches NewBalloon::Round { a, b } ==> a == pts[0].at && b == pts[pts.len() - 1].at
                &&& balloon matches NewBalloon::Drawn { points, widths } ==> f.drawn == Some((points, widths))
            }
        },
{
}

/// A tail goes to the topmost balloon under the start of its drag, from there to
/// the drag's end, of the kind and the bend that are set.
pub proof fn law_a_tail_points_where_it_is_dragged(app: App, after: App, pts: Seq<Sample>, f: BalloonFacts, li: int)
    requires
        app.balloon_finished(after, pts, f),
        app.tools.balloon_mode is Tail,
        pts.len() > 0,
        f.under@.len() == app.doc.layers@.len(),
        app.doc.layers@.len() <= usize::MAX,
    ensures
        (forall|j: int|
            0 <= j < app.doc.layers@.len() && (#[trigger] app.doc.layers@[j]).look.visible
                && app.doc.layers@[j].kind is Balloon ==> f.under@[j] is None) ==> after.shell.cmds == app.shell.cmds
            && after.shell.status@ == "start the tail drag inside a balloon"@,
        0 <= li < app.doc.layers@.len() && app.doc.layers@[li].look.visible && app.doc.layers@[li].kind is Balloon
            && f.under@[li] is Some && (forall|j: int|
            li < j < app.doc.layers@.len() && (#[trigger] app.doc.layers@[j]).look.visible
                && app.doc.layers@[j].kind is Balloon ==> f.under@[j] is None) ==> {
            &&& !f.long ==> after.shell.cmds == app.shell.cmds && after.shell.status@
                == "drag out to where the tail should point"@
            &&& f.long ==> {
                &&& after.shell.cmds@.len() == app.shell.cmds@.len() + 1
                &&& after.shell.cmds@.last() matches AppCmd::BalloonTailAdd { layer, balloon, tail }
                &&& layer == li
                &&& balloon == f.under@[li]->0
                &&& tail.base == pts[0].at
                &&& tail.tip == pts[pts.len() - 1].at
                &&& tail.width == f.tail_width
                &&& tail.kind == app.tools.balloon_tail_kind
                &&& tail.bend == app.tools.balloon_tail_bend
            }
        },
{
    law_the_topmost_balloon_is_taken(app.doc.layers@, f.under@, app.doc.layers@.len() as int);
}

/// Lettering goes along from a text layer that is shown and open, where any of
/// it moved, and from no other layer.
pub proof fn law_hidden_or_locked_lettering_stays(l: Layer, m: TextMove)
    ensures
        l.lock || !l.look.visible || !(l.kind is Text) || m.n == 0 ==> !carries(l, m),
        !l.lock && l.look.visible && l.kind is Text && m.n > 0 ==> carries(l, m),
{
}

/// Every layer whose lettering goes along is committed with its moved texts, and
/// its texts are counted.
pub proof fn law_every_carried_layer_is_committed(layers: Seq<Layer>, moved: Seq<TextMove>, n: int, li: int)
    requires
        0 <= n <= layers.len(),
        layers.len() <= usize::MAX,
        0 <= li < n,
        !layers[li].lock,
        layers[li].look.visible,
        layers[li].kind is Text,
        moved[li].n > 0,
    ensures
        carry_cmds(layers, moved, n).contains((AppCmd::TextCommit { layer: li as usize, texts: moved[li].texts })),
        carry_count(layers, moved, n) >= moved[li].n,
        carry_count(layers, moved, n) > 0,
    decreases n,
{
    let c = AppCmd::TextCommit { layer: li as usize, texts: moved[li].texts };
    let before = carry_cmds(layers, moved, n - 1);
    let all = carry_cmds(layers, moved, n);
    if li == n - 1 {
        assert(all[before.len() as int] == c);
    } else {
        law_every_carried_layer_is_committed(layers, moved, n - 1, li);
        let k = choose|k: int| 0 <= k < before.len() && before[k] == c;
        assert(all[k] == c);
    }
}

/// Where no lettering goes along nothing is committed and nothing is counted.
pub proof fn law_no_lettering_no_commit(layers: Seq<Layer>, moved: Seq<TextMove>, n: int)
    requires
        0 <= n <= layers.len(),
        forall|j: int|
            0 <= j < n ==> (#[trigger] layers[j]).lock || !layers[j].look.visible || !(layers[j].kind is Text)
                || moved[j].n == 0,
    ensures
        carry_cmds(layers, moved, n).len() == 0,
        carry_count(layers, moved, n) == 0,
    decreases n,
{
    if n > 0 {
        law_no_lettering_no_commit(layers, moved, n - 1);
        assert(layers[n - 1].lock || !layers[n - 1].look.visible || !(layers[n - 1].kind is Text) || moved[n - 1].n == 0);
    }
}

/// What is said of lettering that went along names what was done and counts the
/// texts.
pub proof fn law_carried_lettering_is_counted(n: nat)
    ensures
        carry_text(Carry::Turn, 1) == "balloon turned — "@ + text::dec(1) + " text"@
            + " came with it (still editable; one undo takes the turn and its lettering together)"@,
        n != 1 ==> carry_text(Carry::Turn, n) == "balloon turned — "@ + text::dec(n) + " texts"@
            + " came with it (still editable; one undo takes the turn and its lettering together)"@,
        carry_text(Carry::Move, 1) == "balloon moved — "@ + text::dec(1) + " text"@
            + " came with it (still editable; one undo takes the move and its lettering together)"@,
        n != 1 ==> carry_text(Carry::Move, n) == "balloon moved — "@ + text::dec(n) + " texts"@
            + " came with it (still editable; one undo takes the move and its lettering together)"@,
        carry_text(Carry::Resize, 1) == "balloon resized — "@ + text::dec(1) + " text"@
            + " kept its place in it (still editable; one undo takes the resize and its lettering together)"@,
        n != 1 ==> carry_text(Carry::Resize, n) == "balloon resized — "@ + text::dec(n) + " texts"@
            + " kept its place in it (still editable; one undo takes the resize and its lettering together)"@,
{
}

/// A balloon that did not move carries nothing; one that did leaves the document
/// to the commands, one for each layer that goes along.
pub proof fn law_carrying_only_asks(app: App, after: App, how: Carry, moved: Seq<TextMove>, still: bool, layers: usize)
    requires
        app.carried(after, how, moved, still, layers),
    ensures
        still ==> layers == 0 && after.shell.cmds@ == app.shell.cmds@ && after.shell.status@ == app.shell.status@,
        after.shell.cmds@.len() == app.shell.cmds@.len() + layers,
        forall|k: int| 0 <= k < app.shell.cmds@.len() ==> #[trigger] after.shell.cmds@[k] == app.shell.cmds@[k],
        after.doc == app.doc,
        after.shell.needs_redraw == app.shell.needs_redraw,
{
}

/// The lettering that a balloon is fitted to is on the topmost visible text
/// layer that has some inside it.
pub proof fn law_the_topmost_lettering_is_fitted(layers: Seq<Layer>, inside: Seq<Option<usize>>, n: int)
    requires
        0 <= n <= layers.len(),
        inside.len() == layers.len(),
    ensures
        match fit_target(layers, inside, n) {
            Some(t) => {
                &&& 0 <= t.0 < n
                &&& layers[t.0].look.visible
                &&& layers[t.0].kind is Text
                &&& inside[t.0] == Some(t.1)
                &&& forall|j: int|
                    t.0 < j < n && (#[trigger] layers[j]).look.visible && layers[j].kind is Text ==> inside[j] is None
            },
            None => forall|j: int|
                0 <= j < n && (#[trigger] layers[j]).look.visible && layers[j].kind is Text ==> inside[j] is None,
        },
    decreases n,
{
    if n > 0 {
        law_the_topmost_lettering_is_fitted(layers, inside, n - 1);
    }
}

/// Without a modifier, or without a balloon selected, a press edits no anchor.
/// With one selected, Ctrl deletes the anchor or the tail that it meets and puts
/// an anchor into an edge, and Alt turns a corner.
pub proof fn law_modifiers_edit_a_balloon(app: App, ctrl: bool, alt: bool, f: AnchorFacts)
    ensures
        !ctrl && !alt ==> anchor_edit(app, ctrl, alt, f) is Pass,
        app.picked.balloon is None ==> anchor_edit(app, ctrl, alt, f) is Pass,
        app.picked.balloon matches Some(sel) ==> (sel.0 < app.doc.layers@.len()
            && app.doc.layers@[sel.0 as int].kind is Balloon && sel.1 < app.doc.layers@[sel.0 as int].kind->Balloon_0) ==> {
            let e = anchor_edit(app, ctrl, alt, f);
            &&& ctrl && (f.handle matches Some(BalloonHandle::Shape(_))) ==> {
                &&& f.edited matches Some(b) ==> e == AnchorEdit::DeleteAnchor(b)
                &&& f.edited is None && f.drawn ==> e is FewAnchors
                &&& f.edited is None && !f.drawn ==> e is PlainBody
            }
            &&& !ctrl && alt && (f.handle matches Some(BalloonHandle::Shape(_))) ==> {
                &&& f.edited matches Some(b) ==> e == AnchorEdit::ToggleCorner(b)
                &&& f.edited is None ==> e is NoCorners
            }
            &&& ctrl && f.handle is Some && !(f.handle matches Some(BalloonHandle::Shape(_))) ==> {
                &&& f.edited matches Some(b) ==> e == AnchorEdit::DeleteTail(b)
                &&& f.edited is None ==> e is Swallow
            }
            &&& !ctrl && alt && !(f.handle matches Some(BalloonHandle::Shape(_))) ==> e is Pass
            &&& ctrl && f.handle is None && f.on_edge ==> {
                &&& f.inserted matches Some(b) ==> e == AnchorEdit::InsertAnchor(b)
                &&& f.inserted is None ==> e is Swallow
            }
            &&& f.handle is None && !f.on_edge ==> e is Pass
        },
{
}

/// An edit of an anchor asks for the balloons of the selected layer as edited,
/// once, and says what was done; an edit that cannot be made asks for nothing.
pub proof fn law_an_anchor_edit_is_committed_once(app: App, after: App, e: AnchorEdit)
    requires
        app.anchor_edited(after, e),
    ensures
        after == (App { shell: after.shell, ..app }),
        after.shell.needs_redraw == app.shell.needs_redraw,
        e is Pass || e is Swallow ==> after == app,
        e is FewAnchors || e is PlainBody || e is NoCorners ==> after.shell.cmds == app.shell.cmds,
        e is FewAnchors ==> after.shell.status@ == "a balloon keeps at least 3 anchors"@,
        e is PlainBody ==> after.shell.status@ == "ellipse/rounded bodies resize by their handles"@,
        e is NoCorners ==> after.shell.status@ == "only drawn balloons have corner anchors"@,
        e is DeleteAnchor || e is DeleteTail || e is ToggleCorner || e is InsertAnchor ==> {
            &&& after.shell.cmds@.len() == app.shell.cmds@.len() + 1
            &&& after.shell.cmds@.last() matches AppCmd::BalloonCommit { layer, balloons }
            &&& layer == (app.picked.balloon->0).0
            &&& e matches AnchorEdit::DeleteAnchor(b) ==> balloons == b && after.shell.status@ == "anchor deleted"@
            &&& e matches AnchorEdit::DeleteTail(b) ==> balloons == b && after.shell.status@ == "tail deleted"@
            &&& e matches AnchorEdit::ToggleCorner(b) ==> balloons == b && after.shell.status@
                == "anchor corner/smooth toggled"@
            &&& e matches AnchorEdit::InsertAnchor(b) ==> balloons == b && after.shell.status@ == "anchor inserted"@
        },
{
}

/// The end of a balloon drag: a drag that moved something asks for the balloons
/// of its layer as they then are, and takes the lettering along, as one step.
/// One that would collapse the balloon asks for nothing and says so.
pub proof fn law_a_balloon_drag_is_committed_once(app: App, after: App, g: BalloonObjDrag, d: BalloonDrop)
    requires
        app.balloon_dropped(after, g, d),
        app.doc.layers@.len() < usize::MAX,
        d.texts@.len() == app.doc.layers@.len(),
    ensures
        after.shell.needs_redraw,
        after.doc == app.doc,
        ({
            let l = app.doc.layers@[g.layer as int];
            let there = g.layer < app.doc.layers@.len() && l.kind is Balloon;
            &&& !d.moved ==> after.shell.cmds@ == app.shell.cmds@ && after.shell.status@ == app.shell.status@
            &&& d.moved && (!d.valid || !there) ==> after.shell.cmds@ == app.shell.cmds@ && after.shell.status@
                == "that edit would collapse the balloon — reverted"@
            &&& d.moved && d.valid && there && g.balloon >= l.kind->Balloon_0 ==> after.shell.cmds@ == app.shell.cmds@
            &&& d.moved && d.valid && there && g.balloon < l.kind->Balloon_0 ==> {
                &&& after.shell.cmds@.len() > app.shell.cmds@.len()
                &&& after.shell.cmds@[app.shell.cmds@.len() as int] == (AppCmd::BalloonCommit {
                    layer: g.layer,
                    balloons: d.balloons,
                })
                &&& (g.mode is BoxRotate && !d.rotates_exactly) || (d.still && (g.mode is BoxRotate || g.mode is MoveWhole))
                    ==> after.shell.cmds@.len() == app.shell.cmds@.len() + 1 && after.shell.status@ == app.shell.status@
                &&& !(g.mode is BoxRotate && !d.rotates_exactly) && !(d.still && (g.mode is BoxRotate || g.mode is MoveWhole))
                    ==> {
                    let n = carry_cmds(app.doc.layers@, d.texts@, app.doc.layers@.len() as int).len();
                    &&& n > 0 ==> after.shell.cmds@.len() == app.shell.cmds@.len() + n + 2
                    &&& n > 0 ==> (after.shell.cmds@.last() matches AppCmd::HistoryWrapLast { count, .. } && count == n + 1)
                    &&& n == 0 ==> after.shell.cmds@.len() == app.shell.cmds@.len() + 1
                }
            }
        }),
{
    let own = AppCmd::BalloonCommit { layer: g.layer, balloons: d.balloons };
    let layers = app.doc.layers@;
    let goes = carry_of(g, d) is Some && !stays(g, d);
    let texts = if goes { carry_cmds(layers, d.texts@, layers.len() as int) } else { seq![] };
    let k = app.shell.cmds@.len() as int;
    let cmds = app.shell.cmds@.push(own) + texts;
    assert(cmds.len() == k + 1 + texts.len());
    assert(cmds[k] == own);
    if after.shell.cmds@.len() > 0 && after.shell.cmds@.drop_last() == cmds {
        assert(after.shell.cmds@.drop_last().len() == cmds.len());
        assert(after.shell.cmds@.drop_last()[k] == after.shell.cmds@[k]);
    }
    lemma_carry_count(layers, d.texts@, layers.len() as int);
}

proof fn lemma_carry_count(layers: Seq<Layer>, moved: Seq<TextMove>, n: int)
    ensures
        carry_count(layers, moved, n) == 0 <==> carry_cmds(layers, moved, n).len() == 0,
    decreases n,
{
    if n > 0 {
        lemma_carry_count(layers, moved, n - 1);
    }
}

/// A balloon is fitted where it is there and has lettering in it: its layer is
/// then asked for as fitted. Otherwise nothing is asked for, and it is said why.
pub proof fn law_a_balloon_is_fitted_to_its_lettering(
    app: App,
    after: App,
    layer: usize,
    balloon: usize,
    inside: Seq<Option<usize>>,
    fitted: Option<u64>,
)
    requires
        app.balloon_fitted(after, layer, balloon, inside, fitted),
        inside.len() == app.doc.layers@.len(),
    ensures
        after == (App { shell: after.shell, ..app }),
        ({
            let l = app.doc.layers@[layer as int];
            let there = layer < app.doc.layers@.len() && l.kind is Balloon && balloon < l.kind->Balloon_0;
            let lettered = exists|j: int|
                0 <= j < app.doc.layers@.len() && (#[trigger] app.doc.layers@[j]).look.visible && app.doc.layers@[j].kind is Text
                    && inside[j] is Some;
            &&& !there ==> after == app
            &&& there && !lettered ==> after.shell.cmds == app.shell.cmds && after.shell.status@
                == "no lettering in this balloon — type the text into it first"@
            &&& there && lettered && fitted is None ==> after.shell.cmds == app.shell.cmds && after.shell.status@
                == "the balloon already fits its lettering"@
            &&& there && lettered ==> (fitted matches Some(balloons) ==> after.shell.cmds@.len() == app.shell.cmds@.len() + 1
                && after.shell.cmds@.last() == (AppCmd::BalloonCommit { layer, balloons }) && after.shell.status@
                == "balloon fitted to its lettering — the tail came with it"@)
        }),
{
    law_the_topmost_lettering_is_fitted(app.doc.layers@, inside, inside.len() as int);
}

} // verus!
