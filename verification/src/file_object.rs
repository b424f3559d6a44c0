//! File objects: layers whose pixels follow a picture file. The drawing core
//! reads and derives the pictures; this is when that happens, what is repainted
//! behind it, and what is said about it.
//!
//! A page is refreshed when the application comes back to the front, when a
//! document arrives from disk, and by command. The first two are quiet: they
//! say nothing where nothing changed.

use vstd::prelude::*;
use vstd::string::StringExecFns;
use crate::app::{App, Shell, Work};
use crate::doc::Layer;
use crate::text;

verus! {

/// What a refresh of the page came to.
#[derive(Debug)]
pub struct RefreshReport {
    /// How many file objects the page has.
    pub checked: u64,
    /// Nothing changed.
    pub quiet: bool,
    /// The changes in words, where there are any to tell.
    pub status: Option<String>,
}

/// Has the page a file object?
pub open spec fn has_file_object(layers: Seq<Layer>) -> bool {
    exists|i: int| 0 <= i < layers.len() && (#[trigger] layers[i]).file_object is Some
}

/// What the explicit command answers: it always answers.
pub open spec fn update_text(r: RefreshReport) -> Seq<char> {
    if r.checked == 0 {
        "no file objects on this page"@
    } else {
        match r.status {
            None => text::dec(r.checked as nat) + " file object(s) already up to date"@,
            Some(s) => s@,
        }
    }
}

/// What a placed file object says.
pub open spec fn placed_text(name: Seq<char>, path: Seq<char>) -> Seq<char> {
    "“"@ + name + "” placed as a file object — it re-reads "@ + path + " whenever the app comes back to the front"@
}

impl App {
    /// The state once a refresh is painted: a quiet one changes nothing.
    pub open spec fn refreshed(self, after: App, quiet: bool) -> bool {
        after == (App {
            work: (Work { dirty: self.work.dirty || !quiet, ..self.work }),
            shell: (Shell { status: after.shell.status, needs_redraw: self.shell.needs_redraw || !quiet, ..self.shell }),
            ..self
        })
    }

    /// The tail of every refresh: repaints what changed.
    fn after_file_object_refresh(&mut self, quiet: bool)
        ensures
            old(self).refreshed(*final(self), quiet),
            final(self).shell.status == old(self).shell.status,
    {
        if quiet {
            return;
        }
        self.mark_dirty();
        self.shell.needs_redraw = true;
    }

    /// What placing a file object makes of the state.
    pub open spec fn object_imported(self, after: App, path: Seq<char>, placed: Result<usize, String>) -> bool {
        &&& match placed {
            Ok(at) => {
                &&& after == (App {
                    work: (Work { dirty: true, ..self.work }),
                    shell: after.shell,
                    ..self
                })
                &&& after.shell.says(self.shell, placed_text(self.doc.layers@[at as int].name@, path))
            },
            Err(e) => {
                &&& after == (App { shell: after.shell, ..self })
                &&& after.shell.says(self.shell, "file object: "@ + e@)
            },
        }
    }

    /// Tells how placing a picture as a file object went: the new layer's
    /// index, or why there is none.
    pub fn import_file_object(&mut self, path: &str, placed: Result<usize, String>)
        requires
            placed matches Ok(at) ==> at < old(self).doc.layers@.len(),
        ensures
            old(self).object_imported(*final(self), path@, placed),
            old(self).wf() ==> final(self).wf(),
    {
        match placed {
            Ok(at) => {
                self.mark_dirty();
                let mut s = text::own("“");
                s.append(self.doc.layers[at].name.as_str());
                s.append("” placed as a file object — it re-reads ");
                s.append(path);
                s.append(" whenever the app comes back to the front");
                self.shell.status = s;
            },
            Err(e) => {
                let mut s = text::own("file object: ");
                s.append(e.as_str());
                self.shell.status = s;
            },
        }
    }

    /// Is there anything to refresh? Asked before the file system is.
    pub fn wants_file_refresh(&self) -> (r: bool)
        ensures
            r == has_file_object(self.doc.layers@),
    {
        let mut i: usize = 0;
        while i < self.doc.layers.len()
            invariant
                i <= self.doc.layers@.len(),
                forall|j: int| 0 <= j < i ==> (#[trigger] self.doc.layers@[j]).file_object is None,
            decreases self.doc.layers@.len() - i,
        {
            if self.doc.layers[i].file_object.is_some() {
                proof {
                    assert(self.doc.layers@[i as int].file_object is Some);
                }
                return true;
            }
            i = i + 1;
        }
        false
    }

    /// What looking at the linked files makes of the state.
    pub open spec fn objects_refreshed(self, after: App, report: RefreshReport) -> bool {
        &&& !has_file_object(self.doc.layers@) ==> after == self
        &&& has_file_object(self.doc.layers@) ==> ({
            &&& self.refreshed(after, report.quiet)
            &&& after.shell.status@ == (match report.status {
                Some(s) => s@,
                None => self.shell.status@,
            })
        })
    }

    /// The quiet refresh: says nothing unless something moved. A page without
    /// file objects is left alone.
    pub fn refresh_file_objects_quiet(&mut self, report: RefreshReport)
        ensures
            old(self).objects_refreshed(*final(self), report),
            old(self).wf() ==> final(self).wf(),
    {
        if !self.wants_file_refresh() {
            return;
        }
        self.after_file_object_refresh(report.quiet);
        if let Some(s) = report.status {
            self.shell.status = s;
        }
    }

    /// The explicit refresh: it always answers.
    pub fn update_file_objects(&mut self, report: RefreshReport)
        ensures
            old(self).refreshed(*final(self), report.quiet),
            final(self).shell.status@ == update_text(report),
    {
        self.after_file_object_refresh(report.quiet);
        if report.checked == 0 {
            self.set_status("no file objects on this page");
        } else {
            match report.status {
                None => {
                    let mut s = String::new();
                    text::push_dec(&mut s, report.checked);
                    s.append(" file object(s) already up to date");
                    proof {
                        assert(s@ =~= update_text(report));
                    }
                    self.shell.status = s;
                },
                Some(s) => {
                    self.shell.status = s;
                },
            }
        }
    }

    /// What pointing a file object elsewhere makes of the state.
    pub open spec fn object_relinked(self, after: App, path: Seq<char>, relinked: Result<(), String>) -> bool {
        &&& match relinked {
            Ok(_) => {
                &&& after == (App {
                    work: (Work { dirty: true, ..self.work }),
                    shell: (Shell { status: after.shell.status, needs_redraw: true, ..self.shell }),
                    ..self
                })
                &&& after.shell.status@ == "file object relinked to "@ + path
            },
            Err(e) => {
                &&& after == (App { shell: after.shell, ..self })
                &&& after.shell.says(self.shell, "relink: "@ + e@)
            },
        }
    }

    /// Tells how pointing layer `li` at another file went. A layer that is no
    /// file object is an error of the relink itself.
    pub fn relink_file_object(&mut self, path: &str, relinked: Result<(), String>)
        ensures
            old(self).object_relinked(*final(self), path@, relinked),
            old(self).wf() ==> final(self).wf(),
    {
        match relinked {
            Ok(_) => {
                self.mark_dirty();
                self.shell.needs_redraw = true;
                let mut s = text::own("file object relinked to ");
                s.append(path);
                self.shell.status = s;
            },
            Err(e) => {
                let mut s = text::own("relink: ");
                s.append(e.as_str());
                self.shell.status = s;
            },
        }
    }

    /// The layer that a relink is for.
    pub open spec fn relinks(self, li: Option<usize>, r: Option<usize>) -> bool {
        &&& ({
            let at = match li {
                Some(i) => i,
                None => self.doc.active,
            };
            r == (if at < self.doc.layers@.len() && self.doc.layers@[at as int].file_object is Some {
                Some(at)
            } else {
                None
            })
        })
    }

    /// The layer that a relink aims at: the row that was named, or the active
    /// row, if it is a file object.
    pub fn relink_target(&self, li: Option<usize>) -> (r: Option<usize>)
        ensures
            self.relinks(li, r),
    {
        let at: usize = match li {
            Some(i) => i,
            None => self.doc.active,
        };
        if at < self.doc.layers.len() && self.doc.layers[at].file_object.is_some() {
            Some(at)
        } else {
            None
        }
    }

    /// The picture whose folder the relink picker opens in: where the link
    /// leads now, or else where it last pointed.
    pub fn file_object_dir(&self, li: usize, resolved: Option<String>) -> (r: Option<String>)
        ensures
            (r is Some) == (li < self.doc.layers@.len() && self.doc.layers@[li as int].file_object is Some),
            r matches Some(p) ==> p@ == (match resolved {
                Some(q) => q@,
                None => self.doc.layers@[li as int].file_object->0.path@,
            }),
    {
        if li >= self.doc.layers.len() {
            return None;
        }
        match &self.doc.layers[li].file_object {
            None => None,
            Some(fo) => match resolved {
                Some(q) => Some(q),
                None => Some(fo.path.clone()),
            },
        }
    }
}

/// What is said of an update: that there was nothing to look at, how many were
/// looked at where none had changed, else what changed.
pub proof fn law_an_update_says_what_it_did(r: RefreshReport)
    ensures
        r.checked == 0 ==> update_text(r) == "no file objects on this page"@,
        r.checked > 0 && r.status is None ==> update_text(r) == text::dec(r.checked as nat)
            + " file object(s) already up to date"@,
        r.checked > 0 ==> (r.status matches Some(s) ==> update_text(r) == s@),
{
}

/// One file object is enough for a page to have some.
pub proof fn law_one_file_object_is_enough(layers: Seq<Layer>, i: int)
    ensures
        0 <= i < layers.len() && layers[i].file_object is Some ==> has_file_object(layers),
        (forall|j: int| 0 <= j < layers.len() ==> (#[trigger] layers[j]).file_object is None) ==> !has_file_object(layers),
{
}

/// A refresh that changed nothing leaves the work as it was; any other makes it
/// unsaved and draws it anew.
pub proof fn law_a_quiet_refresh_saves_nothing(app: App, after: App, quiet: bool)
    requires
        app.refreshed(after, quiet),
    ensures
        after.doc == app.doc,
        after.shell.cmds == app.shell.cmds,
        quiet ==> after.work.dirty == app.work.dirty && after.shell.needs_redraw == app.shell.needs_redraw,
        !quiet ==> after.work.dirty && after.shell.needs_redraw,
{
}

/// A file object that was placed is named and makes the work unsaved; one that
/// could not be placed changes nothing, and it is said why.
pub proof fn law_a_placed_file_is_named(app: App, after: App, path: Seq<char>, placed: Result<usize, String>)
    requires
        app.object_imported(after, path, placed),
    ensures
        after.doc == app.doc,
        after.shell.cmds == app.shell.cmds,
        placed matches Ok(at) ==> after.work.dirty && after.shell.status@ == "“"@ + app.doc.layers@[at as int].name@
            + "” placed as a file object — it re-reads "@ + path + " whenever the app comes back to the front"@,
        placed matches Err(e) ==> after.work == app.work && after.shell.status@ == "file object: "@ + e@,
{
}

/// Without a file object on the page nothing is looked at; what changed is said.
pub proof fn law_a_page_without_links_is_not_looked_at(app: App, after: App, report: RefreshReport)
    requires
        app.objects_refreshed(after, report),
    ensures
        (forall|j: int| 0 <= j < app.doc.layers@.len() ==> (#[trigger] app.doc.layers@[j]).file_object is None) ==> after == app,
        (exists|j: int| 0 <= j < app.doc.layers@.len() && (#[trigger] app.doc.layers@[j]).file_object is Some) ==> {
            &&& report.quiet ==> after.work.dirty == app.work.dirty
            &&& !report.quiet ==> after.work.dirty && after.shell.needs_redraw
            &&& report.status matches Some(s) ==> after.shell.status@ == s@
            &&& report.status is None ==> after.shell.status@ == app.shell.status@
        },
        after.doc == app.doc,
{
    if forall|j: int| 0 <= j < app.doc.layers@.len() ==> (#[trigger] app.doc.layers@[j]).file_object is None {
        assert(!has_file_object(app.doc.layers@));
    }
}

/// A relink that worked makes the work unsaved and draws it anew; any other
/// changes nothing, and it is said why.
pub proof fn law_a_relink_is_told(app: App, after: App, path: Seq<char>, relinked: Result<(), String>)
    requires
        app.object_relinked(after, path, relinked),
    ensures
        after.doc == app.doc,
        after.shell.cmds == app.shell.cmds,
        relinked is Ok ==> after.work.dirty && after.shell.needs_redraw && after.shell.status@ == "file object relinked to "@
            + path,
        relinked matches Err(e) ==> after.work == app.work && after.shell.status@ == "relink: "@ + e@,
{
}

/// A relink is for the layer that is named, else for the active one, and only
/// where that is a file object.
pub proof fn law_a_relink_is_for_a_file_object(app: App, li: Option<usize>, r: Option<usize>)
    requires
        app.relinks(li, r),
    ensures
        r matches Some(at) ==> at < app.doc.layers@.len() && app.doc.layers@[at as int].file_object is Some,
        r matches Some(at) ==> (li matches Some(i) ==> at == i),
        r matches Some(at) ==> li is None ==> at == app.doc.active,
        li matches Some(i) ==> i < app.doc.layers@.len() && app.doc.layers@[i as int].file_object is Some ==> r == Some(i),
        li is None && app.doc.active < app.doc.layers@.len() && app.doc.layers@[app.doc.active as int].file_object is Some ==> r
            == Some(app.doc.active),
{
}

} // verus!
