//! The open works, one tab each: opening, switching and closing them. The
//! work on screen stands in the application's own fields; the others are
//! parked.

use vstd::prelude::*;
use crate::app::{App, FillHand, FrameHand, Shell, Tab, Work};

verus! {

impl App {
    /// The work on screen as a tab.
    pub open spec fn current(self) -> Tab {
        Tab {
            doc: self.doc,
            pages: self.work.pages,
            page_index: self.work.page_index,
            story: self.work.story,
            doc_path: self.work.doc_path,
            dirty: self.work.dirty,
        }
    }

    /// All open works in the order of their tabs.
    pub open spec fn tabs(self) -> Seq<Tab> {
        self.work.parked@.insert(self.work.active_doc as int, self.current())
    }

    /// What a hop to another work leaves alone: everything but the work
    /// itself, an armed fill repair, and the reading order that was kept.
    pub open spec fn hopped(self, after: App) -> bool {
        &&& after == (App {
            doc: after.doc,
            work: (Work { close_requested: self.work.close_requested, ..after.work }),
            fill: (FillHand { repair: None, ..self.fill }),
            frames: (FrameHand { order: None, ..self.frames }),
            shell: after.shell,
            ..self
        })
        &&& self.fill.repair is None ==> after.shell == (Shell { needs_redraw: true, ..self.shell })
        &&& self.fill.repair is Some ==> {
            &&& after.shell == (Shell { status: after.shell.status, needs_redraw: true, ..self.shell })
            &&& after.shell.status@ == "fill repair cancelled — the leaked fill stays undone"@
        }
    }

    /// Puts a work on screen and hands back the one that was there.
    fn swap_in(&mut self, t: Tab) -> (r: Tab)
        ensures
            r == old(self).current(),
            final(self).current() == t,
            *final(self) == (App {
                doc: final(self).doc,
                work: (Work {
                    parked: old(self).work.parked,
                    active_doc: old(self).work.active_doc,
                    close_requested: old(self).work.close_requested,
                    ..final(self).work
                }),
                ..*old(self)
            }),
    {
        let mut t = t;
        std::mem::swap(&mut self.doc, &mut t.doc);
        std::mem::swap(&mut self.work.pages, &mut t.pages);
        std::mem::swap(&mut self.work.page_index, &mut t.page_index);
        std::mem::swap(&mut self.work.story, &mut t.story);
        std::mem::swap(&mut self.work.doc_path, &mut t.doc_path);
        std::mem::swap(&mut self.work.dirty, &mut t.dirty);
        t
    }

    /// Puts the parked work at `k` on screen, and the one from the screen at
    /// `j` among those that are left.
    fn trade(&mut self, k: usize, j: usize)
        requires
            k < old(self).work.parked@.len(),
            j < old(self).work.parked@.len(),
        ensures
            final(self).work.parked@ == old(self).work.parked@.remove(k as int).insert(j as int, old(self).current()),
            final(self).current() == old(self).work.parked@[k as int],
            *final(self) == (App {
                doc: final(self).doc,
                work: (Work {
                    active_doc: old(self).work.active_doc,
                    close_requested: old(self).work.close_requested,
                    ..final(self).work
                }),
                ..*old(self)
            }),
    {
        let t = self.work.parked.remove(k);
        let was = self.swap_in(t);
        self.work.parked.insert(j, was);
    }

    /// Drops what belonged to the work that was on screen.
    fn forget_document_caches(&mut self)
        ensures
            old(self).hopped(*final(self)),
            final(self).doc == old(self).doc,
            final(self).work == old(self).work,
    {
        self.cancel_fill_repair();
        self.frames.order = None;
        self.shell.needs_redraw = true;
    }

    /// How many works are open.
    pub fn doc_count(&self) -> (r: usize)
        requires
            self.work.parked@.len() < usize::MAX,
            self.wf(),
        ensures
            r == self.tabs().len(),
    {
        self.work.parked.len() + 1
    }

    /// Opens a work in a tab of its own, behind the others, and goes there.
    /// The work that was on screen is parked as it is.
    pub fn open_doc(&mut self, t: Tab)
        requires
            old(self).wf(),
            t.doc.wf(),
        ensures
            final(self).wf(),
            old(self).hopped(*final(self)),
            final(self).tabs() == old(self).tabs().push(t),
            final(self).work.active_doc == old(self).tabs().len(),
    {
        let at: usize = self.work.active_doc;
        let was = self.swap_in(t);
        self.work.parked.insert(at, was);
        self.work.active_doc = self.work.parked.len();
        self.forget_document_caches();
        proof {
            assert(self.tabs() =~= old(self).tabs().push(t));
        }
    }

    /// What going to another tab makes of the state.
    pub open spec fn tab_switched(self, after: App, r: bool, i: usize) -> bool {
        &&& r == (i < self.tabs().len())
        &&& !r || i == self.work.active_doc ==> after == self
        &&& r && i != self.work.active_doc ==> self.hopped(after)
        &&& r ==> after.tabs() == self.tabs()
        &&& r ==> after.work.active_doc == i
    }

    /// Goes to tab `i`; says whether there is such a tab. Nothing is closed or
    /// changed by it.
    pub fn switch_doc(&mut self, i: usize) -> (r: bool)
        requires
            old(self).wf(),
        ensures
            old(self).tab_switched(*final(self), r, i),
            final(self).wf(),
    {
        let a: usize = self.work.active_doc;
        if i > self.work.parked.len() {
            return false;
        }
        if i == a {
            return true;
        }
        let k: usize = if i < a { i } else { i - 1 };
        let j: usize = if a < i { a } else { a - 1 };
        self.trade(k, j);
        self.work.active_doc = i;
        self.forget_document_caches();
        proof {
            lemma_trade(old(self).work.parked@, a as int, i as int, old(self).current());
        }
        true
    }

    /// What closing a tab makes of the state.
    pub open spec fn tab_closed(self, after: App, r: bool, i: usize) -> bool {
        &&& r == (1 < self.tabs().len() && i < self.tabs().len())
        &&& !r ==> after == self
        &&& r ==> after.tabs() == self.tabs().remove(i as int)
        &&& r ==> after.work.active_doc == active_after_close(
            self.work.active_doc as int,
            i as int,
            self.tabs().len() as int,
        )
        &&& r && i == self.work.active_doc ==> self.hopped(after)
        &&& r && i != self.work.active_doc ==> after == (App {
            work: (Work {
                parked: after.work.parked,
                active_doc: after.work.active_doc,
                ..self.work
            }),
            ..self
        })
    }

    /// Closes tab `i`; says whether it did. The last open work refuses. When
    /// the work on screen goes, the neighbour behind it, or else the one in
    /// front, takes its place.
    pub fn close_doc(&mut self, i: usize) -> (r: bool)
        requires
            old(self).wf(),
        ensures
            old(self).tab_closed(*final(self), r, i),
            final(self).wf(),
    {
        let a: usize = self.work.active_doc;
        let others: usize = self.work.parked.len();
        if others == 0 || i > others {
            return false;
        }
        proof {
            lemma_close(self.work.parked@, a as int, i as int, self.current());
        }
        if i == a {
            let k: usize = if i < others { i } else { i - 1 };
            let t = self.work.parked.remove(k);
            let _ = self.swap_in(t);
            self.work.active_doc = k;
            self.forget_document_caches();
        } else if i < a {
            let _ = self.work.parked.remove(i);
            self.work.active_doc = a - 1;
        } else {
            let _ = self.work.parked.remove(i - 1);
        }
        true
    }

    /// The label of each tab, and whether its work has changes that are not
    /// saved.
    pub fn doc_tabs(&self) -> (r: Vec<(String, bool)>)
        requires
            self.wf(),
        ensures
            r@.len() == self.tabs().len(),
            forall|i: int|
                0 <= i < r@.len() ==> {
                    &&& (#[trigger] r@[i]).0@ == self.tabs()[i].story@
                    &&& r@[i].1 == self.tabs()[i].dirty
                },
    {
        let mut out: Vec<(String, bool)> = Vec::new();
        let mut k: usize = 0;
        while k < self.work.parked.len()
            invariant
                k <= self.work.parked@.len(),
                self.work.active_doc <= self.work.parked@.len(),
                out@.len() == k,
                forall|j: int|
                    0 <= j < k ==> {
                        &&& (#[trigger] out@[j]).0@ == self.work.parked@[j].story@
                        &&& out@[j].1 == self.work.parked@[j].dirty
                    },
            decreases self.work.parked@.len() - k,
        {
            out.push((self.work.parked[k].story.clone(), self.work.parked[k].dirty));
            k = k + 1;
        }
        out.insert(self.work.active_doc, (self.work.story.clone(), self.work.dirty));
        out
    }
}

/// Trading places keeps the order of the tabs.
proof fn lemma_trade(parked: Seq<Tab>, a: int, i: int, cur: Tab)
    requires
        0 <= a <= parked.len(),
        0 <= i <= parked.len(),
        a != i,
    ensures
        ({
            let k = if i < a { i } else { i - 1 };
            let j = if a < i { a } else { a - 1 };
            parked.remove(k).insert(j, cur).insert(i, parked[k]) == parked.insert(a, cur)
        }),
{
    let k = if i < a { i } else { i - 1 };
    let j = if a < i { a } else { a - 1 };
    assert(parked.remove(k).insert(j, cur).insert(i, parked[k]) =~= parked.insert(a, cur));
}

/// What is left of the tabs when one is closed.
proof fn lemma_close(parked: Seq<Tab>, a: int, i: int, cur: Tab)
    requires
        0 <= a <= parked.len(),
        0 <= i <= parked.len(),
        parked.len() > 0,
    ensures
        i < a ==> parked.remove(i).insert(a - 1, cur) == parked.insert(a, cur).remove(i),
        i > a ==> parked.remove(i - 1).insert(a, cur) == parked.insert(a, cur).remove(i),
        i == a && i < parked.len() ==> parked.remove(i).insert(i, parked[i]) == parked.insert(a, cur).remove(i),
        i == a && i == parked.len() ==> parked.remove(i - 1).insert(i - 1, parked[i - 1]) == parked.insert(a, cur).remove(i),
{
    let all = parked.insert(a, cur).remove(i);
    if i < a {
        assert(parked.remove(i).insert(a - 1, cur) =~= all);
    } else if i > a {
        assert(parked.remove(i - 1).insert(a, cur) =~= all);
    } else if i < parked.len() {
        assert(parked.remove(i).insert(i, parked[i]) =~= all);
    } else {
        assert(parked.remove(i - 1).insert(i - 1, parked[i - 1]) =~= all);
    }
}

/// The place of the work on screen once tab `i` of `n` is closed.
pub open spec fn active_after_close(active: int, i: int, n: int) -> int {
    if i < active {
        active - 1
    } else if i == active && i == n - 1 {
        i - 1
    } else {
        active
    }
}

/// A switch there and back brings every work back as it was left.
pub proof fn law_switch_there_and_back(a: App, b: App, c: App)
    requires
        a.wf(),
        b.wf(),
        c.wf(),
        b.tabs() == a.tabs(),
        c.tabs() == b.tabs(),
        c.work.active_doc == a.work.active_doc,
    ensures
        c.current() == a.current(),
        b.current() == a.tabs()[b.work.active_doc as int],
        c.work.parked@ == a.work.parked@,
{
    let at = a.work.active_doc as int;
    assert(a.tabs()[at] == a.current());
    assert(c.tabs()[at] == c.current());
    assert(b.tabs()[b.work.active_doc as int] == b.current());
    assert(a.work.parked@ =~= a.tabs().remove(at));
    assert(c.work.parked@ =~= c.tabs().remove(at));
}

/// Closing another tab leaves the work on screen on screen, as it is.
pub proof fn law_closing_another_tab_keeps_you(a: App, b: App, i: int)
    requires
        a.wf(),
        b.wf(),
        0 <= i < a.tabs().len(),
        i != a.work.active_doc,
        b.tabs() == a.tabs().remove(i),
        b.work.active_doc == active_after_close(a.work.active_doc as int, i, a.tabs().len() as int),
    ensures
        b.current() == a.current(),
{
    assert(a.tabs()[a.work.active_doc as int] == a.current());
    assert(b.tabs()[b.work.active_doc as int] == b.current());
}

/// Opening a work keeps every work that was open.
pub proof fn law_opening_keeps_the_others(a: App, b: App, t: Tab, i: int)
    requires
        a.wf(),
        b.wf(),
        b.tabs() == a.tabs().push(t),
        b.work.active_doc == a.tabs().len(),
        0 <= i < a.tabs().len(),
    ensures
        b.current() == t,
        b.tabs()[i] == a.tabs()[i],
        b.tabs()[a.work.active_doc as int] == a.current(),
{
    assert(a.tabs()[a.work.active_doc as int] == a.current());
    assert(b.tabs()[b.work.active_doc as int] == b.current());
}

/// The tab on screen is the work on screen, and stands at its own place among
/// the others.
pub proof fn law_the_screen_is_one_of_the_tabs(app: App, k: int)
    requires
        app.work.active_doc <= app.work.parked@.len(),
    ensures
        app.tabs().len() == app.work.parked@.len() + 1,
        app.tabs()[app.work.active_doc as int].doc == app.doc,
        app.tabs()[app.work.active_doc as int].pages == app.work.pages,
        app.tabs()[app.work.active_doc as int].page_index == app.work.page_index,
        app.tabs()[app.work.active_doc as int].story == app.work.story,
        app.tabs()[app.work.active_doc as int].doc_path == app.work.doc_path,
        app.tabs()[app.work.active_doc as int].dirty == app.work.dirty,
        0 <= k < app.work.active_doc ==> app.tabs()[k] == app.work.parked@[k],
        app.work.active_doc < k < app.tabs().len() ==> app.tabs()[k] == app.work.parked@[k - 1],
{
}

/// Leaving a tab ends what belongs to its page: a repair is cancelled, and the
/// reading order is forgotten. Tools, selection and settings stay.
pub proof fn law_leaving_a_tab_ends_its_work(app: App, after: App)
    requires
        app.hopped(after),
    ensures
        after.fill.repair is None,
        after.fill.last == app.fill.last,
        after.frames.order is None,
        after.tools == app.tools,
        after.picked == app.picked,
        after.work.close_requested == app.work.close_requested,
        after.shell.needs_redraw,
        after.shell.cmds == app.shell.cmds,
        app.fill.repair is None ==> after.shell.status == app.shell.status,
        app.fill.repair is Some ==> after.shell.status@ == "fill repair cancelled — the leaked fill stays undone"@,
{
}

/// Closing a tab before the one on screen moves that one up, closing one behind
/// leaves it. Where the one on screen goes, the next takes its place, or the one
/// before where it was the last.
pub proof fn law_closing_moves_the_screen(active: int, i: int, n: int)
    requires
        0 <= i < n,
        0 <= active < n,
    ensures
        i < active ==> active_after_close(active, i, n) == active - 1,
        i > active ==> active_after_close(active, i, n) == active,
        i == active && i < n - 1 ==> active_after_close(active, i, n) == i,
        i == active && i == n - 1 ==> active_after_close(active, i, n) == i - 1,
{
}

/// Going to another tab shows that one and changes none; a tab that is not there
/// is not gone to.
pub proof fn law_going_to_a_tab_shows_it(app: App, after: App, r: bool, i: usize)
    requires
        app.wf(),
        after.wf(),
        app.tab_switched(after, r, i),
    ensures
        r == (i <= app.work.parked@.len()),
        !r ==> after == app,
        i == app.work.active_doc ==> after == app,
        r ==> after.work.active_doc == i && after.tabs() == app.tabs(),
        r ==> after.current() == app.tabs()[i as int],
        r && i != app.work.active_doc ==> after.fill.repair is None && after.frames.order is None,
{
    assert(after.tabs()[after.work.active_doc as int] == after.current());
}

/// Closing a tab takes that one out; the last one stays. Closing another than the
/// one on screen leaves the screen as it is.
pub proof fn law_a_closed_tab_is_gone(app: App, after: App, r: bool, i: usize, k: int)
    requires
        app.tab_closed(after, r, i),
        app.work.active_doc <= app.work.parked@.len(),
    ensures
        r == (app.work.parked@.len() > 0 && i <= app.work.parked@.len()),
        !r ==> after == app,
        r ==> after.tabs().len() + 1 == app.tabs().len(),
        r && 0 <= k < i ==> after.tabs()[k] == app.tabs()[k],
        r && i < k < app.tabs().len() ==> after.tabs()[k - 1] == app.tabs()[k],
        r && i < app.work.active_doc ==> after.work.active_doc == app.work.active_doc - 1 && after.doc == app.doc,
        r && i > app.work.active_doc ==> after.work.active_doc == app.work.active_doc && after.doc == app.doc,
        r && i != app.work.active_doc ==> after.shell == app.shell && after.fill == app.fill,
        r && i == app.work.active_doc ==> after.fill.repair is None,
{
}

} // verus!
