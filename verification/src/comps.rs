//! Layer comps: named snapshots of how the whole stack looks, applied with
//! one tap. The comps live on the document; the application keeps only what
//! is selected among them, and the state from before the last application.

use vstd::prelude::*;
use crate::app::{App, CompHand, Work};
use crate::doc::{Document, Layer, LayerComp, Look};

verus! {

impl Look {
    /// The same look once more.
    pub fn copy(&self) -> (r: Look)
        ensures
            r == *self,
    {
        Look {
            visible: self.visible,
            opacity: self.opacity,
            blend: self.blend.clone(),
            colour: self.colour,
            sub_colour: self.sub_colour,
        }
    }
}

/// The row of this layer in a snapshot: the first with its id.
pub open spec fn row_of(rows: Seq<(u64, Look)>, id: u64) -> Option<Look>
    decreases rows.len(),
{
    if rows.len() == 0 {
        None
    } else if rows[0].0 == id {
        Some(rows[0].1)
    } else {
        row_of(rows.skip(1), id)
    }
}

/// A snapshot of these layers.
pub open spec fn rows_of(layers: Seq<Layer>) -> Seq<(u64, Look)> {
    Seq::new(layers.len(), |i: int| (layers[i].id, layers[i].look))
}

/// How a layer looks once the snapshot is applied: as its row says; without a
/// row, as it did, with its eye set where `added` says so.
pub open spec fn applied_look(rows: Seq<(u64, Look)>, l: Layer, added: Option<bool>) -> Look {
    match row_of(rows, l.id) {
        Some(look) => look,
        None => match added {
            Some(v) => Look { visible: v, ..l.look },
            None => l.look,
        },
    }
}

/// The layers once the snapshot is applied.
pub open spec fn applied(rows: Seq<(u64, Look)>, layers: Seq<Layer>, added: Option<bool>) -> Seq<Layer> {
    Seq::new(layers.len(), |i: int| Layer { look: applied_look(rows, layers[i], added), ..layers[i] })
}

/// An id tells the look: layers that share one, if any do, look alike.
pub open spec fn ids_tell(layers: Seq<Layer>) -> bool {
    forall|i: int, j: int| 0 <= i < j < layers.len() && layers[i].id == layers[j].id ==> layers[i].look == layers[j].look
}

/// No two layers share an id.
pub open spec fn ids_differ(layers: Seq<Layer>) -> bool {
    forall|i: int, j: int| 0 <= i < j < layers.len() ==> layers[i].id != layers[j].id
}

/// A search that passes over the first `k` rows finds the same row.
proof fn lemma_row_skip(rows: Seq<(u64, Look)>, id: u64, k: int)
    requires
        0 <= k <= rows.len(),
        forall|j: int| 0 <= j < k ==> rows[j].0 != id,
    ensures
        row_of(rows, id) == row_of(rows.skip(k), id),
    decreases k,
{
    if k > 0 {
        lemma_row_skip(rows, id, k - 1);
        let s = rows.skip(k - 1);
        assert(s[0] == rows[k - 1]);
        assert(s.skip(1) =~= rows.skip(k));
    } else {
        assert(rows.skip(0) =~= rows);
    }
}

/// In a snapshot of these layers, the row of layer `i` is its look.
proof fn lemma_row_of(layers: Seq<Layer>, i: int)
    requires
        ids_tell(layers),
        0 <= i < layers.len(),
    ensures
        row_of(rows_of(layers), layers[i].id) == Some(layers[i].look),
{
    lemma_row_from(layers, 0, i);
    assert(rows_of(layers).skip(0) =~= rows_of(layers));
}

proof fn lemma_row_from(layers: Seq<Layer>, k: int, i: int)
    requires
        ids_tell(layers),
        0 <= k <= i < layers.len(),
    ensures
        row_of(rows_of(layers).skip(k), layers[i].id) == Some(layers[i].look),
    decreases i - k,
{
    let rows = rows_of(layers).skip(k);
    assert(rows[0] == (layers[k].id, layers[k].look));
    if layers[k].id != layers[i].id {
        lemma_row_from(layers, k + 1, i);
        assert(rows.skip(1) =~= rows_of(layers).skip(k + 1));
    } else if k < i {
        assert(layers[k].look == layers[i].look);
    }
}

impl LayerComp {
    /// A snapshot of these layers under a name.
    pub fn capture(name: &str, layers: &Vec<Layer>) -> (r: LayerComp)
        ensures
            r.name@ == name@,
            r.rows@ == rows_of(layers@),
    {
        let mut rows: Vec<(u64, Look)> = Vec::new();
        let mut i: usize = 0;
        while i < layers.len()
            invariant
                i <= layers@.len(),
                rows@ == rows_of(layers@).take(i as int),
            decreases layers@.len() - i,
        {
            rows.push((layers[i].id, layers[i].look.copy()));
            proof {
                assert(rows@ =~= rows_of(layers@).take(i + 1));
            }
            i = i + 1;
        }
        proof {
            assert(rows_of(layers@).take(i as int) =~= rows_of(layers@));
        }
        LayerComp { name: crate::text::own(name), rows }
    }

    /// The row of this layer.
    fn look_for(&self, id: u64) -> (r: Option<Look>)
        ensures
            r == row_of(self.rows@, id),
    {
        let mut k: usize = 0;
        while k < self.rows.len()
            invariant
                k <= self.rows@.len(),
                forall|j: int| 0 <= j < k ==> self.rows@[j].0 != id,
            decreases self.rows@.len() - k,
        {
            proof {
                lemma_row_skip(self.rows@, id, k as int);
            }
            if self.rows[k].0 == id {
                assert(self.rows@.skip(k as int)[0] == self.rows@[k as int]);
                return Some(self.rows[k].1.copy());
            }
            k = k + 1;
        }
        proof {
            lemma_row_skip(self.rows@, id, k as int);
        }
        None
    }

    /// Makes the layers look as they did; a layer that the snapshot does not
    /// know takes the eye that `added` gives, or keeps its own.
    pub fn apply_to(&self, layers: &mut Vec<Layer>, added: Option<bool>)
        ensures
            final(layers)@ == applied(self.rows@, old(layers)@, added),
    {
        let mut i: usize = 0;
        while i < layers.len()
            invariant
                i <= layers@.len() == old(layers)@.len(),
                forall|j: int| 0 <= j < i ==> layers@[j] == applied(self.rows@, old(layers)@, added)[j],
                forall|j: int| i <= j < layers@.len() ==> layers@[j] == old(layers)@[j],
            decreases layers@.len() - i,
        {
            let look = match self.look_for(layers[i].id) {
                Some(look) => look,
                None => {
                    let mut own = layers[i].look.copy();
                    if let Some(v) = added {
                        own.visible = v;
                    }
                    own
                },
            };
            layers[i].look = look;
            i = i + 1;
        }
        proof {
            assert(layers@ =~= applied(self.rows@, old(layers)@, added));
        }
    }
}

/// Where index `i` goes when the item at `src` moves to `ins`.
pub open spec fn moved_index(i: int, src: int, ins: int) -> int {
    if i == src {
        ins
    } else if src < i <= ins {
        i - 1
    } else if ins <= i < src {
        i + 1
    } else {
        i
    }
}

/// The list with the item at `src` taken out and put back at `ins`.
pub open spec fn moved<T>(s: Seq<T>, src: int, ins: int) -> Seq<T> {
    s.remove(src).insert(ins, s[src])
}

/// Where an item that is dropped in front of `dst` ends up.
pub open spec fn landing(src: int, dst: int) -> int {
    if dst > src {
        dst - 1
    } else {
        dst
    }
}

/// The indices rise, each once.
pub open spec fn rising(s: Seq<usize>) -> bool {
    forall|i: int, j: int| 0 <= i < j < s.len() ==> s[i] < s[j]
}

/// The indices never fall.
pub open spec fn sorted(s: Seq<usize>) -> bool {
    forall|i: int, j: int| 0 <= i < j < s.len() ==> s[i] <= s[j]
}

/// Every index mapped.
pub open spec fn remapped(s: Seq<usize>, src: int, ins: int) -> Seq<usize> {
    s.map_values(|i: usize| moved_index(i as int, src, ins) as usize)
}

/// The same indices in rising order.
fn sorted_indices(v: &Vec<usize>) -> (r: Vec<usize>)
    ensures
        sorted(r@),
        r@.to_multiset() == v@.to_multiset(),
{
    let mut out: Vec<usize> = Vec::new();
    let mut n: usize = 0;
    proof {
        assert(v@.take(0) =~= out@);
    }
    while n < v.len()
        invariant
            n <= v@.len(),
            sorted(out@),
            out@.to_multiset() == v@.take(n as int).to_multiset(),
        decreases v@.len() - n,
    {
        let x: usize = v[n];
        let mut p: usize = 0;
        while p < out.len() && out[p] <= x
            invariant
                p <= out@.len(),
                forall|j: int| 0 <= j < p ==> out@[j] <= x,
            decreases out@.len() - p,
        {
            p = p + 1;
        }
        let ghost before = out@;
        out.insert(p, x);
        proof {
            vstd::seq_lib::to_multiset_insert(before, p as int, x);
            vstd::seq_lib::to_multiset_build(v@.take(n as int), x);
            assert(v@.take(n + 1) =~= v@.take(n as int).push(x));
        }
        n = n + 1;
    }
    proof {
        assert(v@.take(n as int) =~= v@);
    }
    out
}

/// The comp that a step leads to: the next or the previous one, around the
/// ends. With none selected, forward leads to the first.
pub open spec fn stepped(selected: Option<usize>, n: int, forward: bool) -> int {
    let cur = match selected {
        Some(i) => i as int,
        None => -1,
    };
    if forward {
        (cur + 1) % n
    } else {
        (cur - 1 + n) % n
    }
}

/// Where the comp at `s` goes when the one at `i` is deleted.
pub open spec fn shifted(s: usize, i: usize) -> usize {
    if s > i {
        (s - 1) as usize
    } else {
        s
    }
}

/// The selection once comp `i` of `n` is deleted.
pub open spec fn selection_without(sel: Option<usize>, i: usize, n: int) -> Option<usize> {
    match sel {
        Some(s) if s != i && shifted(s, i) < n - 1 => Some(shifted(s, i)),
        _ => None,
    }
}

/// Every index but this one.
pub open spec fn other(i: usize) -> spec_fn(usize) -> bool {
    |s: usize| s != i
}

/// Where each index goes when the comp at `i` is deleted.
pub open spec fn shift_by(i: usize) -> spec_fn(usize) -> usize {
    |s: usize| shifted(s, i)
}

/// The multi-selection once comp `i` is deleted.
pub open spec fn multi_without(m: Seq<usize>, i: usize) -> Seq<usize> {
    m.filter(other(i)).map_values(shift_by(i))
}

/// Every index mapped to where it goes when the item at `src` moves to `ins`.
fn remap_all(v: &Vec<usize>, src: usize, ins: usize) -> (r: Vec<usize>)
    requires
        src < usize::MAX,
    ensures
        r@ == remapped(v@, src as int, ins as int),
{
    let mut multi: Vec<usize> = Vec::new();
    let mut k: usize = 0;
    while k < v.len()
        invariant
            k <= v@.len(),
            src < usize::MAX,
            multi@ == remapped(v@, src as int, ins as int).take(k as int),
        decreases v@.len() - k,
    {
        multi.push(remap(v[k], src, ins));
        proof {
            assert(multi@ =~= remapped(v@, src as int, ins as int).take(k + 1));
        }
        k = k + 1;
    }
    proof {
        assert(multi@ =~= remapped(v@, src as int, ins as int));
    }
    multi
}

/// Is this index in the list?
fn has_index(v: &Vec<usize>, i: usize) -> (r: bool)
    ensures
        r == v@.contains(i),
{
    let mut k: usize = 0;
    while k < v.len()
        invariant
            k <= v@.len(),
            forall|j: int| 0 <= j < k ==> v@[j] != i,
        decreases v@.len() - k,
    {
        if v[k] == i {
            return true;
        }
        k = k + 1;
    }
    false
}

/// The list without this index.
fn without_index(v: &Vec<usize>, i: usize) -> (r: Vec<usize>)
    ensures
        r@ == v@.filter(other(i)),
{
    let mut kept: Vec<usize> = Vec::new();
    let mut k: usize = 0;
    proof {
        reveal(Seq::filter);
        assert(v@.take(0).filter(other(i)) =~= kept@);
    }
    while k < v.len()
        invariant
            k <= v@.len(),
            kept@ == v@.take(k as int).filter(other(i)),
        decreases v@.len() - k,
    {
        let s: usize = v[k];
        proof {
            reveal(Seq::filter);
            let t = v@.take(k + 1);
            assert(t.drop_last() =~= v@.take(k as int));
            assert(t.last() == s);
        }
        if s != i {
            kept.push(s);
        }
        k = k + 1;
    }
    proof {
        assert(v@.take(k as int) =~= v@);
    }
    kept
}

/// The list once the item at `i` is deleted.
fn delete_index(v: &Vec<usize>, i: usize) -> (r: Vec<usize>)
    ensures
        r@ == multi_without(v@, i),
{
    let kept = without_index(v, i);
    let mut out: Vec<usize> = Vec::new();
    let mut k: usize = 0;
    while k < kept.len()
        invariant
            k <= kept@.len(),
            out@ == kept@.map_values(shift_by(i)).take(k as int),
        decreases kept@.len() - k,
    {
        let s: usize = kept[k];
        out.push(if s > i { s - 1 } else { s });
        proof {
            assert(out@ =~= kept@.map_values(shift_by(i)).take(k + 1));
        }
        k = k + 1;
    }
    proof {
        assert(out@ =~= multi_without(v@, i));
    }
    out
}

/// The indices from `lo` through `hi`.
fn index_range(lo: usize, hi: usize) -> (r: Vec<usize>)
    requires
        lo <= hi < usize::MAX,
    ensures
        r@ == Seq::new((hi - lo + 1) as nat, |k: int| (lo + k) as usize),
{
    let mut multi: Vec<usize> = Vec::new();
    let mut at: usize = lo;
    while at <= hi
        invariant
            lo <= at <= hi + 1,
            hi < usize::MAX,
            multi@ == Seq::new((at - lo) as nat, |k: int| (lo + k) as usize),
        decreases hi + 1 - at,
    {
        multi.push(at);
        proof {
            assert(multi@ =~= Seq::new((at + 1 - lo) as nat, |k: int| (lo + k) as usize));
        }
        at = at + 1;
    }
    multi
}

/// The comp that a step leads to.
fn step_from(selected: Option<usize>, n: usize, forward: bool) -> (r: usize)
    requires
        n > 0,
    ensures
        r == stepped(selected, n as int, forward),
        r < n,
{
    match selected {
        Some(i) => {
            let at: u128 = if forward {
                (i as u128 + 1) % (n as u128)
            } else {
                (i as u128 + (n as u128 - 1)) % (n as u128)
            };
            proof {
                assert(i - 1 + n == i + (n - 1));
            }
            at as usize
        },
        None => {
            proof {
                vstd::arithmetic::div_mod::lemma_small_mod(0, n as nat);
                if n > 1 {
                    vstd::arithmetic::div_mod::lemma_small_mod((n - 2) as nat, n as nat);
                }
            }
            if forward || n == 1 {
                0
            } else {
                n - 2
            }
        },
    }
}

impl App {
    /// What saving a new comp makes of the state.
    pub open spec fn comp_added(self, after: App, name: Seq<char>) -> bool {
        &&& after == (App {
            doc: (Document { comps: after.doc.comps, revision: crate::doc::next_revision(self.doc.revision), ..self.doc }),
            comps: (CompHand { selected: Some(self.doc.comps.len()), ..self.comps }),
            ..self
        })
        &&& after.doc.comps@.len() == self.doc.comps@.len() + 1
        &&& after.doc.comps@.drop_last() == self.doc.comps@
        &&& after.doc.comps@.last().name@ == name
        &&& after.doc.comps@.last().rows@ == rows_of(self.doc.layers@)
    }

    /// Snapshots how the stack looks now, under a name, and selects it.
    pub fn comp_add(&mut self, name: &str)
        ensures
            old(self).comp_added(*final(self), name@),
            old(self).wf() ==> final(self).wf(),
    {
        let c = LayerComp::capture(name, &self.doc.layers);
        self.comps.selected = Some(self.doc.comps.len());
        self.doc.comps.push(c);
        self.doc.touch();
        proof {
            assert(self.doc.comps@.drop_last() =~= old(self).doc.comps@);
        }
    }

    /// What saving over a comp makes of the state.
    pub open spec fn comp_saved(self, after: App, r: bool, i: usize) -> bool {
        &&& r == (i < self.doc.comps@.len())
        &&& !r ==> after == self
        &&& r ==> after == (App {
            doc: (Document { comps: after.doc.comps, revision: crate::doc::next_revision(self.doc.revision), ..self.doc }),
            ..self
        })
        &&& r ==> after.doc.comps@ == self.doc.comps@.update(i as int, after.doc.comps@[i as int])
        &&& r ==> after.doc.comps@[i as int].name@ == self.doc.comps@[i as int].name@
        &&& r ==> after.doc.comps@[i as int].rows@ == rows_of(self.doc.layers@)
    }

    /// Overwrites comp `i` with how the stack looks now; its name stays. Says
    /// whether there is such a comp.
    pub fn comp_save(&mut self, i: usize) -> (r: bool)
        ensures
            old(self).comp_saved(*final(self), r, i),
            old(self).wf() ==> final(self).wf(),
    {
        if i >= self.doc.comps.len() {
            return false;
        }
        let c = LayerComp::capture(self.doc.comps[i].name.as_str(), &self.doc.layers);
        self.doc.comps.set(i, c);
        self.doc.touch();
        true
    }

    /// What an application of comp `i` makes of the state.
    pub open spec fn comp_applied(self, after: App, i: usize) -> bool {
        &&& after == (App {
            doc: (Document {
                layers: after.doc.layers,
                undo_labels: after.doc.undo_labels,
                op_count: crate::doc::next_revision(self.doc.op_count),
                revision: crate::doc::next_revision(self.doc.revision),
                ..self.doc
            }),
            comps: (CompHand { selected: Some(i), multi: after.comps.multi, last_state: after.comps.last_state, ..self.comps }),
            work: (Work { dirty: true, ..self.work }),
            ..self
        })
        &&& after.doc.layers@ == applied(self.doc.comps@[i as int].rows@, self.doc.layers@, Some(self.comps.added_visible))
        &&& crate::text::strings(after.doc.undo_labels@) == crate::text::strings(self.doc.undo_labels@).push("Apply layer comp"@)
        &&& after.comps.last_state is Some
        &&& after.comps.last_state->0.name@ == ""@
        &&& after.comps.last_state->0.rows@ == rows_of(self.doc.layers@)
        &&& after.comps.multi@ == Seq::<usize>::empty()
    }

    /// Applies comp `i`, as one step that can be undone; how the stack looked
    /// before is kept. Says whether there is such a comp.
    pub fn comp_apply(&mut self, i: usize) -> (r: bool)
        ensures
            r == (i < old(self).doc.comps@.len()),
            !r ==> *final(self) == *old(self),
            r ==> old(self).comp_applied(*final(self), i),
            old(self).wf() ==> final(self).wf(),
    {
        if i >= self.doc.comps.len() {
            return false;
        }
        self.doc.push_op("Apply layer comp");
        self.comps.last_state = Some(LayerComp::capture("", &self.doc.layers));
        self.doc.comps[i].apply_to(&mut self.doc.layers, Some(self.comps.added_visible));
        self.comps.selected = Some(i);
        self.comps.multi = Vec::new();
        self.doc.touch();
        self.mark_dirty();
        true
    }

    /// What going back behind the last application makes of the state.
    pub open spec fn comp_restored(self, after: App) -> bool {
        match self.comps.last_state {
            None => after == self,
            Some(snap) => {
                &&& after == (App {
                    doc: (Document { layers: after.doc.layers, revision: crate::doc::next_revision(self.doc.revision), ..self.doc }),
                    comps: (CompHand { selected: None, multi: after.comps.multi, last_state: None, ..self.comps }),
                    work: (Work { dirty: true, ..self.work }),
                    ..self
                })
                &&& after.doc.layers@ == applied(snap.rows@, self.doc.layers@, None)
                &&& after.comps.multi@ == Seq::<usize>::empty()
            },
        }
    }

    /// Goes back to how the stack looked before the last application, once.
    pub fn comp_restore_last(&mut self)
        ensures
            old(self).comp_restored(*final(self)),
            old(self).wf() ==> final(self).wf(),
    {
        let snap = match self.comps.last_state.take() {
            Some(snap) => snap,
            None => return,
        };
        snap.apply_to(&mut self.doc.layers, None);
        self.comps.selected = None;
        self.comps.multi = Vec::new();
        self.doc.touch();
        self.mark_dirty();
    }

    /// What stepping through the comps makes of the state.
    pub open spec fn comp_stepped(self, after: App, forward: bool) -> bool {
        &&& self.doc.comps@.len() == 0 ==> after == self
        &&& self.doc.comps@.len() > 0 ==> self.comp_applied(
            after,
            stepped(self.comps.selected, self.doc.comps@.len() as int, forward) as usize,
        )
    }

    /// Steps to the next or the previous comp in list order, around the ends,
    /// and applies it. Without comps nothing happens.
    pub fn comp_step(&mut self, forward: bool)
        ensures
            old(self).comp_stepped(*final(self), forward),
            old(self).wf() ==> final(self).wf(),
    {
        if self.doc.comps.len() == 0 {
            return;
        }
        let next: usize = step_from(self.comps.selected, self.doc.comps.len(), forward);
        let _ = self.comp_apply(next);
    }

    /// What dragging a comp to another place makes of the state.
    pub open spec fn comp_moved(self, after: App, src: usize, dst: usize) -> bool {
        &&& ({
            let n = self.doc.comps@.len();
            let ins = landing(src as int, dst as int);
            if src >= n || dst > n || dst == src || dst == src + 1 {
                after == self
            } else {
                &&& after == (App {
                    doc: (Document { comps: after.doc.comps, revision: crate::doc::next_revision(self.doc.revision), ..self.doc }),
                    comps: (CompHand { selected: after.comps.selected, multi: after.comps.multi, ..self.comps }),
                    work: (Work { dirty: true, ..self.work }),
                    ..self
                })
                &&& after.doc.comps@ == moved(self.doc.comps@, src as int, ins)
                &&& after.comps.selected == (match self.comps.selected {
                    Some(i) => Some(moved_index(i as int, src as int, ins) as usize),
                    None => None,
                })
                &&& sorted(after.comps.multi@)
                &&& after.comps.multi@.to_multiset() == remapped(self.comps.multi@, src as int, ins).to_multiset()
            }
        })
    }

    /// Moves comp `src` to the gap in front of `dst`, counted in the order
    /// from before. Both selections stay on their comps. Dropping a comp where
    /// it was does nothing.
    pub fn comp_move(&mut self, src: usize, dst: usize)
        ensures
            old(self).comp_moved(*final(self), src, dst),
            old(self).wf() ==> final(self).wf(),
    {
        let n: usize = self.doc.comps.len();
        if src >= n || dst > n || dst == src || dst == src + 1 {
            return;
        }
        let ins: usize = if dst > src { dst - 1 } else { dst };
        let c = self.doc.comps.remove(src);
        self.doc.comps.insert(ins, c);
        self.comps.selected = match self.comps.selected {
            Some(i) => Some(remap(i, src, ins)),
            None => None,
        };
        let multi = remap_all(&self.comps.multi, src, ins);
        self.comps.multi = sorted_indices(&multi);
        self.doc.touch();
        self.mark_dirty();
    }

    /// What adding a comp to the picked ones, or taking it out, makes of the state.
    pub open spec fn multi_toggled(self, after: App, i: usize) -> bool {
        &&& i >= self.doc.comps@.len() ==> after == self
        &&& i < self.doc.comps@.len() ==> ({
            &&& after == (App {
                comps: (CompHand { multi: after.comps.multi, selected: Some(i), ..self.comps }),
                ..self
            })
            &&& if self.comps.multi@.contains(i) {
                after.comps.multi@ == self.comps.multi@.filter(other(i))
            } else {
                &&& sorted(after.comps.multi@)
                &&& after.comps.multi@.to_multiset() == self.comps.multi@.push(i).to_multiset()
            }
        })
    }

    /// Takes comp `i` into the multi-selection or out of it; it becomes the
    /// anchor.
    pub fn comp_toggle_multi(&mut self, i: usize)
        ensures
            old(self).multi_toggled(*final(self), i),
            old(self).wf() ==> final(self).wf(),
    {
        if i >= self.doc.comps.len() {
            return;
        }
        if has_index(&self.comps.multi, i) {
            self.comps.multi = without_index(&self.comps.multi, i);
        } else {
            self.comps.multi.push(i);
            self.comps.multi = sorted_indices(&self.comps.multi);
        }
        self.comps.selected = Some(i);
    }

    /// What picking a range of comps makes of the state.
    pub open spec fn range_selected(self, after: App, i: usize) -> bool {
        &&& i >= self.doc.comps@.len() ==> after == self
        &&& i < self.doc.comps@.len() ==> ({
            let a = anchor(self.comps.selected, self.doc.comps@.len() as int);
            let lo = if a <= i { a } else { i as int };
            let hi = if a <= i { i as int } else { a };
            &&& after == (App {
                comps: (CompHand { multi: after.comps.multi, selected: Some(i), ..self.comps }),
                ..self
            })
            &&& after.comps.multi@ == Seq::new((hi - lo + 1) as nat, |k: int| (lo + k) as usize)
        })
    }

    /// Selects every comp from the anchor through `i`; `i` becomes the anchor.
    pub fn comp_range_select(&mut self, i: usize)
        ensures
            old(self).range_selected(*final(self), i),
            old(self).wf() ==> final(self).wf(),
    {
        let n: usize = self.doc.comps.len();
        if i >= n {
            return;
        }
        let a: usize = match self.comps.selected {
            Some(s) => if s < n { s } else { n - 1 },
            None => 0,
        };
        self.comps.multi = if a <= i { index_range(a, i) } else { index_range(i, a) };
        self.comps.selected = Some(i);
        proof {
            let lo = if a <= i { a as int } else { i as int };
            let hi = if a <= i { i as int } else { a as int };
            assert(self.comps.multi@ =~= Seq::new((hi - lo + 1) as nat, |k: int| (lo + k) as usize));
        }
    }

    /// What deleting a comp makes of the state.
    pub open spec fn comp_deleted(self, after: App, i: usize) -> bool {
        &&& i >= self.doc.comps@.len() ==> after == self
        &&& i < self.doc.comps@.len() ==> ({
            &&& after == (App {
                doc: (Document { comps: after.doc.comps, revision: crate::doc::next_revision(self.doc.revision), ..self.doc }),
                comps: (CompHand {
                    selected: selection_without(self.comps.selected, i, self.doc.comps@.len() as int),
                    multi: after.comps.multi,
                    ..self.comps
                }),
                ..self
            })
            &&& after.doc.comps@ == self.doc.comps@.remove(i as int)
            &&& after.comps.multi@ == multi_without(self.comps.multi@, i)
        })
    }

    /// Deletes comp `i` and keeps both selections on their comps.
    pub fn comp_delete_at(&mut self, i: usize)
        ensures
            old(self).comp_deleted(*final(self), i),
            old(self).wf() ==> final(self).wf(),
    {
        let n: usize = self.doc.comps.len();
        if i >= n {
            return;
        }
        let _ = self.doc.comps.remove(i);
        self.comps.selected = match self.comps.selected {
            Some(s) => {
                let t: usize = if s > i { s - 1 } else { s };
                if s != i && t < n - 1 {
                    Some(t)
                } else {
                    None
                }
            },
            None => None,
        };
        self.comps.multi = delete_index(&self.comps.multi, i);
        self.doc.touch();
    }
}

/// Where a range selection starts: at the selected comp, as far as there is
/// one, or at the first.
pub open spec fn anchor(selected: Option<usize>, n: int) -> int {
    match selected {
        Some(s) => if s < n { s as int } else { n - 1 },
        None => 0,
    }
}

/// Where index `i` goes when the item at `src` moves to `ins`.
fn remap(i: usize, src: usize, ins: usize) -> (r: usize)
    requires
        src < usize::MAX,
    ensures
        r == moved_index(i as int, src as int, ins as int),
{
    if i == src {
        ins
    } else if src < ins && i > src && i <= ins {
        i - 1
    } else if ins < src && i >= ins && i < src {
        i + 1
    } else {
        i
    }
}

/// Going back behind an application gives every layer the look that it had,
/// whatever the comp wrote, and fails to only where two layers that look
/// different share an id.
pub proof fn law_restore_undoes_apply(rows: Seq<(u64, Look)>, layers: Seq<Layer>, added: Option<bool>)
    ensures
        ids_tell(layers) <==> applied(rows_of(layers), applied(rows, layers, added), None) == layers,
        ids_differ(layers) ==> ids_tell(layers),
{
    let mid = applied(rows, layers, added);
    let back = applied(rows_of(layers), mid, None);
    if ids_tell(layers) {
        assert forall|i: int| 0 <= i < layers.len() implies back[i] == layers[i] by {
            lemma_row_of(layers, i);
        }
        assert(back =~= layers);
    }
    if back == layers {
        assert forall|i: int, j: int| 0 <= i < j < layers.len() && layers[i].id == layers[j].id implies layers[i].look
            == layers[j].look by {
            lemma_some_row(layers, i);
            assert(back[i].look == layers[i].look && back[j].look == layers[j].look);
        }
    }
}

proof fn lemma_some_row(layers: Seq<Layer>, i: int)
    requires
        0 <= i < layers.len(),
    ensures
        row_of(rows_of(layers), layers[i].id) is Some,
{
    lemma_some_row_from(layers, 0, i);
    assert(rows_of(layers).skip(0) =~= rows_of(layers));
}

proof fn lemma_some_row_from(layers: Seq<Layer>, k: int, i: int)
    requires
        0 <= k <= i < layers.len(),
    ensures
        row_of(rows_of(layers).skip(k), layers[i].id) is Some,
    decreases i - k,
{
    let rows = rows_of(layers).skip(k);
    assert(rows[0] == (layers[k].id, layers[k].look));
    if layers[k].id != layers[i].id {
        lemma_some_row_from(layers, k + 1, i);
        assert(rows.skip(1) =~= rows_of(layers).skip(k + 1));
    }
}

/// A comp that is applied and taken back leaves every layer as it was, where no
/// two layers that look different share an id, and nothing selected; going back
/// a second time changes nothing.
pub proof fn law_restore_gives_the_stack_back(a: App, b: App, c: App, d: App, i: usize)
    requires
        i < a.doc.comps@.len(),
        a.comp_applied(b, i),
        b.comp_restored(c),
        c.comp_restored(d),
    ensures
        ids_tell(a.doc.layers@) <==> c.doc.layers@ == a.doc.layers@,
        ids_differ(a.doc.layers@) ==> c.doc.layers@ == a.doc.layers@,
        c.comps.selected is None,
        c.comps.multi@ == Seq::<usize>::empty(),
        c.comps.last_state is None,
        d == c,
{
    law_restore_undoes_apply(a.doc.comps@[i as int].rows@, a.doc.layers@, Some(a.comps.added_visible));
}

/// A comp that was just saved changes nothing when it is applied.
pub proof fn law_saved_comp_shows_the_stack(layers: Seq<Layer>, added: Option<bool>)
    requires
        ids_tell(layers),
    ensures
        applied(rows_of(layers), layers, added) == layers,
{
    assert forall|i: int| 0 <= i < layers.len() implies applied(rows_of(layers), layers, added)[i] == layers[i] by {
        lemma_row_of(layers, i);
    }
    assert(applied(rows_of(layers), layers, added) =~= layers);
}

/// A comp that is applied a second time changes nothing more.
pub proof fn law_apply_is_settled(rows: Seq<(u64, Look)>, layers: Seq<Layer>, added: Option<bool>)
    ensures
        applied(rows, applied(rows, layers, added), added) == applied(rows, layers, added),
{
    assert(applied(rows, applied(rows, layers, added), added) =~= applied(rows, layers, added));
}

/// A layer that a comp does not know keeps everything but its eye.
pub proof fn law_unknown_layer_keeps_its_look(rows: Seq<(u64, Look)>, layers: Seq<Layer>, added: Option<bool>, i: int)
    requires
        0 <= i < layers.len(),
        forall|k: int| 0 <= k < rows.len() ==> rows[k].0 != layers[i].id,
    ensures
        applied(rows, layers, added)[i] == (Layer {
            look: Look {
                visible: (match added {
                    Some(v) => v,
                    None => layers[i].look.visible,
                }),
                ..layers[i].look
            },
            ..layers[i]
        }),
{
    lemma_row_skip(rows, layers[i].id, rows.len() as int);
}

/// Each index goes with its comp when one is moved.
pub proof fn law_move_remaps_by_identity<T>(s: Seq<T>, src: int, ins: int, i: int)
    requires
        0 <= src < s.len(),
        0 <= ins < s.len(),
        0 <= i < s.len(),
    ensures
        0 <= moved_index(i, src, ins) < s.len(),
        moved(s, src, ins).len() == s.len(),
        moved(s, src, ins)[moved_index(i, src, ins)] == s[i],
{
}

/// The multi-selection stays a set of valid indices, in rising order, when a
/// comp is moved.
pub proof fn law_move_keeps_the_multi_selection(before: Seq<usize>, after: Seq<usize>, n: int, src: int, ins: int)
    requires
        0 <= src < n,
        0 <= ins < n <= usize::MAX,
        rising(before),
        forall|i: int| 0 <= i < before.len() ==> before[i] < n,
        sorted(after),
        after.to_multiset() == remapped(before, src, ins).to_multiset(),
    ensures
        rising(after),
        forall|i: int| 0 <= i < after.len() ==> after[i] < n,
        forall|i: usize| i < n ==> (#[trigger] before.contains(i) <==> after.contains(moved_index(i as int, src, ins) as usize)),
{
    broadcast use vstd::seq_lib::group_to_multiset_ensures;
    let mid = remapped(before, src, ins);
    assert(mid.no_duplicates());
    mid.lemma_multiset_has_no_duplicates();
    after.lemma_multiset_has_no_duplicates_conv();
    assert(after.no_duplicates());
    assert forall|i: int| 0 <= i < after.len() implies after[i] < n by {
        assert(after.contains(after[i]));
        assert(after.to_multiset().count(after[i]) > 0);
        assert(mid.contains(after[i]));
        let k = choose|k: int| 0 <= k < mid.len() && mid[k] == after[i];
        assert(mid[k] == moved_index(before[k] as int, src, ins));
    }
    assert forall|i: usize| i < n implies (#[trigger] before.contains(i) <==> after.contains(moved_index(i as int, src, ins) as usize)) by {
        let m = moved_index(i as int, src, ins) as usize;
        assert(after.to_multiset().count(m) == mid.to_multiset().count(m));
        if before.contains(i) {
            let k = choose|k: int| 0 <= k < before.len() && before[k] == i;
            assert(mid[k] == m);
            assert(mid.contains(m));
        }
        if after.contains(m) {
            assert(mid.contains(m));
            let k = choose|k: int| 0 <= k < mid.len() && mid[k] == m;
            assert(before[k] == i);
        }
    }
}

/// A step forward and a step back lead to the comp that was selected.
pub proof fn law_step_there_and_back(i: usize, n: int)
    requires
        i < n <= usize::MAX,
    ensures
        stepped(Some(stepped(Some(i), n, true) as usize), n, false) == i,
        stepped(Some(stepped(Some(i), n, false) as usize), n, true) == i,
{
    vstd::arithmetic::div_mod::lemma_small_mod(i as nat, n as nat);
    if i + 1 < n {
        vstd::arithmetic::div_mod::lemma_small_mod((i + 1) as nat, n as nat);
        vstd::arithmetic::div_mod::lemma_mod_add_multiples_vanish(i as int, n);
    } else {
        vstd::arithmetic::div_mod::lemma_mod_self_0(n);
        vstd::arithmetic::div_mod::lemma_small_mod((n - 1) as nat, n as nat);
    }
    if i > 0 {
        vstd::arithmetic::div_mod::lemma_small_mod((i - 1) as nat, n as nat);
        vstd::arithmetic::div_mod::lemma_mod_add_multiples_vanish(i - 1, n);
    } else {
        vstd::arithmetic::div_mod::lemma_small_mod((n - 1) as nat, n as nat);
        vstd::arithmetic::div_mod::lemma_mod_self_0(n);
    }
}

/// A deletion leaves each other index on its comp.
pub proof fn law_delete_remaps_by_identity<T>(s: Seq<T>, i: usize, k: usize)
    requires
        i < s.len(),
        k < s.len(),
        k != i,
    ensures
        s.remove(i as int)[shifted(k, i) as int] == s[k as int],
        selection_without(Some(k), i, s.len() as int) == Some(shifted(k, i)),
        selection_without(Some(i), i, s.len() as int) is None,
{
}

/// A deletion leaves the multi-selection a set of valid indices, in rising
/// order.
pub proof fn law_delete_keeps_the_multi_selection(m: Seq<usize>, i: usize, n: int)
    requires
        rising(m),
        forall|k: int| 0 <= k < m.len() ==> m[k] < n,
        i < n,
    ensures
        rising(multi_without(m, i)),
        forall|k: int| 0 <= k < multi_without(m, i).len() ==> multi_without(m, i)[k] < n - 1,
        forall|s: usize| s != i ==> (#[trigger] m.contains(s) ==> multi_without(m, i).contains(shifted(s, i))),
    decreases m.len(),
{
    reveal(Seq::filter);
    if m.len() > 0 {
        let t = m.drop_last();
        law_delete_keeps_the_multi_selection(t, i, n);
        let before = multi_without(t, i);
        let after = multi_without(m, i);
        let last = m.last();
        lemma_without_stays_below(t, i, last);
        if last != i {
            assert(after =~= before.push(shifted(last, i)));
            assert(after[after.len() - 1] == shifted(last, i));
        } else {
            assert(after =~= before);
        }
        assert forall|s: usize| s != i && #[trigger] m.contains(s) implies after.contains(shifted(s, i)) by {
            if s != last {
                let k = choose|k: int| 0 <= k < m.len() && m[k] == s;
                assert(t[k] == s);
                assert(t.contains(s));
                assert(before.contains(shifted(s, i)));
                let j = choose|j: int| 0 <= j < before.len() && before[j] == shifted(s, i);
                assert(after[j] == before[j]);
            }
        }
    }
}

/// What is left of indices below `top` stays below the place of `top`.
proof fn lemma_without_stays_below(m: Seq<usize>, i: usize, top: usize)
    requires
        forall|k: int| 0 <= k < m.len() ==> m[k] < top,
    ensures
        top != i ==> forall|k: int| 0 <= k < multi_without(m, i).len() ==> multi_without(m, i)[k] < shifted(top, i),
    decreases m.len(),
{
    reveal(Seq::filter);
    if m.len() > 0 {
        let t = m.drop_last();
        lemma_without_stays_below(t, i, top);
        if m.last() != i {
            assert(multi_without(m, i) =~= multi_without(t, i).push(shifted(m.last(), i)));
        } else {
            assert(multi_without(m, i) =~= multi_without(t, i));
        }
    }
}

/// A layer's row is the first with its id.
pub proof fn law_a_row_is_found_by_its_id(rows: Seq<(u64, Look)>, k: int, id: u64)
    ensures
        0 <= k < rows.len() && rows[k].0 == id && (forall|j: int| 0 <= j < k ==> (#[trigger] rows[j]).0 != id) ==> row_of(
            rows,
            id,
        ) == Some(rows[k].1),
        (forall|j: int| 0 <= j < rows.len() ==> (#[trigger] rows[j]).0 != id) ==> row_of(rows, id) is None,
    decreases rows.len(),
{
    if rows.len() > 0 {
        law_a_row_is_found_by_its_id(rows.skip(1), k - 1, id);
        if 0 < k < rows.len() && rows[k].0 == id && (forall|j: int| 0 <= j < k ==> (#[trigger] rows[j]).0 != id) {
            assert(rows[0].0 != id);
            assert(rows.skip(1)[k - 1] == rows[k]);
            assert forall|j: int| 0 <= j < k - 1 implies (#[trigger] rows.skip(1)[j]).0 != id by {
                assert(rows[j + 1].0 != id);
            }
        }
        if forall|j: int| 0 <= j < rows.len() ==> (#[trigger] rows[j]).0 != id {
            assert(rows[0].0 != id);
            assert forall|j: int| 0 <= j < rows.skip(1).len() implies (#[trigger] rows.skip(1)[j]).0 != id by {
                assert(rows[j + 1].0 != id);
            }
        }
    }
}

/// A saved comp holds a row for each layer, with its id and its whole look.
pub proof fn law_a_comp_holds_every_look(layers: Seq<Layer>, i: int)
    ensures
        rows_of(layers).len() == layers.len(),
        0 <= i < layers.len() ==> rows_of(layers)[i].0 == layers[i].id && rows_of(layers)[i].1 == layers[i].look,
{
}

/// Applying a comp gives each layer the look of its row and nothing else; a layer
/// without a row is shown or hidden as is asked for.
pub proof fn law_applying_gives_the_looks(rows: Seq<(u64, Look)>, layers: Seq<Layer>, added: Option<bool>, i: int, k: int)
    requires
        0 <= i < layers.len(),
    ensures
        ({
            let now = applied(rows, layers, added)[i];
            &&& now == (Layer { look: now.look, ..layers[i] })
            &&& 0 <= k < rows.len() && rows[k].0 == layers[i].id && (forall|j: int|
                0 <= j < k ==> (#[trigger] rows[j]).0 != layers[i].id) ==> now.look == rows[k].1
            &&& (forall|j: int| 0 <= j < rows.len() ==> (#[trigger] rows[j]).0 != layers[i].id) ==> now.look == (Look {
                visible: now.look.visible,
                ..layers[i].look
            })
            &&& (forall|j: int| 0 <= j < rows.len() ==> (#[trigger] rows[j]).0 != layers[i].id) ==> (added matches Some(v)
                ==> now.look.visible == v)
        }),
        applied(rows, layers, added).len() == layers.len(),
{
    law_a_row_is_found_by_its_id(rows, k, layers[i].id);
}

/// Applying a comp selects it, is one step to undo, and remembers how the stack
/// looked.
pub proof fn law_applying_a_comp_can_be_taken_back(app: App, after: App, i: usize)
    requires
        app.comp_applied(after, i),
    ensures
        after.comps.selected == Some(i),
        after.comps.multi@.len() == 0,
        after.comps.last_state is Some,
        after.comps.last_state->0.name@ == ""@,
        after.comps.last_state->0.rows@.len() == app.doc.layers@.len(),
        forall|k: int|
            0 <= k < app.doc.layers@.len() ==> (#[trigger] after.comps.last_state->0.rows@[k]).0 == app.doc.layers@[k].id
                && after.comps.last_state->0.rows@[k].1 == app.doc.layers@[k].look,
        after.work.dirty,
        after.doc.comps == app.doc.comps,
        after.doc.active == app.doc.active,
        crate::text::strings(after.doc.undo_labels@).last() == "Apply layer comp"@,
        after.doc.layers@.len() == app.doc.layers@.len(),
        after.shell == app.shell,
{
}

/// Going back to the last state uses it up and selects no comp; without one
/// nothing happens.
pub proof fn law_the_last_state_is_used_up(app: App, after: App)
    requires
        app.comp_restored(after),
    ensures
        after.comps.last_state is None,
        app.comps.last_state is None ==> after == app,
        app.comps.last_state is Some ==> after.comps.selected is None && after.comps.multi@.len() == 0 && after.work.dirty
            && after.doc.undo_labels == app.doc.undo_labels && after.doc.comps == app.doc.comps
            && after.doc.layers@.len() == app.doc.layers@.len(),
        after.shell == app.shell,
{
}

/// A comp that is dropped before another lands there, and one place earlier where
/// it came from above.
pub proof fn law_a_drop_lands_before_its_target(src: int, dst: int)
    ensures
        dst > src ==> landing(src, dst) == dst - 1,
        dst <= src ==> landing(src, dst) == dst,
{
}

/// Stepping goes to the next comp or the one before, round the ends; from none
/// it starts at the first.
pub proof fn law_a_step_goes_round(i: usize, n: int)
    requires
        0 < n <= usize::MAX,
        i < n,
    ensures
        stepped(None, n, true) == 0,
        n > 1 ==> stepped(None, n, false) == n - 2,
        i + 1 < n ==> stepped(Some(i), n, true) == i + 1,
        i + 1 == n ==> stepped(Some(i), n, true) == 0,
        i > 0 ==> stepped(Some(i), n, false) == i - 1,
        i == 0 ==> stepped(Some(i), n, false) == n - 1,
{
    vstd::arithmetic::div_mod::lemma_small_mod(0, n as nat);
    vstd::arithmetic::div_mod::lemma_mod_self_0(n);
    if n > 1 {
        vstd::arithmetic::div_mod::lemma_small_mod((n - 2) as nat, n as nat);
    }
    if i + 1 < n {
        vstd::arithmetic::div_mod::lemma_small_mod((i + 1) as nat, n as nat);
    }
    if i > 0 {
        vstd::arithmetic::div_mod::lemma_small_mod((i - 1) as nat, n as nat);
        vstd::arithmetic::div_mod::lemma_mod_add_multiples_vanish(i - 1, n);
    } else {
        vstd::arithmetic::div_mod::lemma_small_mod((n - 1) as nat, n as nat);
    }
}

/// A range is picked from the selected comp on; without one it starts at the
/// first, and never behind the last.
pub proof fn law_a_range_starts_at_the_selection(s: usize, n: int)
    requires
        n > 0,
    ensures
        s < n ==> anchor(Some(s), n) == s,
        s >= n ==> anchor(Some(s), n) == n - 1,
        anchor(None, n) == 0,
{
}

/// What follows a comp that is deleted moves up by one; what comes before stays.
pub proof fn law_what_follows_moves_up(s: usize, i: usize)
    ensures
        s > i ==> shifted(s, i) == s - 1,
        s <= i ==> shifted(s, i) == s,
{
}

/// A new comp stands last, is selected, and holds the stack as it looks.
pub proof fn law_a_new_comp_stands_last(app: App, after: App, name: Seq<char>, k: int)
    requires
        app.comp_added(after, name),
    ensures
        after.doc.comps@.len() == app.doc.comps@.len() + 1,
        0 <= k < app.doc.comps@.len() ==> after.doc.comps@[k] == app.doc.comps@[k],
        after.doc.comps@.last().name@ == name,
        after.doc.comps@.last().rows@.len() == app.doc.layers@.len(),
        0 <= k < app.doc.layers@.len() ==> after.doc.comps@.last().rows@[k] == (app.doc.layers@[k].id, app.doc.layers@[k].look),
        after.comps.selected == Some(app.doc.comps.len()),
        after.doc.layers == app.doc.layers,
        after.doc.undo_labels == app.doc.undo_labels,
        after.shell == app.shell,
{
    assert(after.doc.comps@.drop_last().len() == app.doc.comps@.len());
    if 0 <= k < app.doc.comps@.len() {
        assert(after.doc.comps@.drop_last()[k] == after.doc.comps@[k]);
    }
}

/// Saving over a comp keeps its name and its place and takes the stack as it
/// looks; every other comp stays.
pub proof fn law_a_comp_is_saved_over(app: App, after: App, r: bool, i: usize, k: int)
    requires
        app.comp_saved(after, r, i),
    ensures
        r == (i < app.doc.comps@.len()),
        !r ==> after == app,
        after.doc.comps@.len() == app.doc.comps@.len(),
        0 <= k < app.doc.comps@.len() && k != i ==> after.doc.comps@[k] == app.doc.comps@[k],
        r ==> after.doc.comps@[i as int].name@ == app.doc.comps@[i as int].name@,
        r && 0 <= k < app.doc.layers@.len() ==> after.doc.comps@[i as int].rows@[k] == (
            app.doc.layers@[k].id,
            app.doc.layers@[k].look,
        ),
        after.doc.layers == app.doc.layers,
        after.comps == app.comps,
        after.shell == app.shell,
{
}

/// Stepping applies the comp next to the selected one; without comps it does
/// nothing.
pub proof fn law_a_step_applies_the_next_comp(app: App, after: App, forward: bool)
    requires
        app.comp_stepped(after, forward),
    ensures
        app.doc.comps@.len() == 0 ==> after == app,
        app.doc.comps@.len() > 0 ==> after.comps.selected is Some && after.doc.comps == app.doc.comps,
        app.comps.selected matches Some(s) ==> s < app.doc.comps@.len() <= usize::MAX ==> {
            let n = app.doc.comps@.len();
            &&& forward && s + 1 < n ==> after.comps.selected == Some((s + 1) as usize)
            &&& forward && s + 1 == n ==> after.comps.selected == Some(0usize)
            &&& !forward && s > 0 ==> after.comps.selected == Some((s - 1) as usize)
            &&& !forward && s == 0 ==> after.comps.selected == Some((n - 1) as usize)
        },
        app.comps.selected is None && 0 < app.doc.comps@.len() <= usize::MAX && forward ==> after.comps.selected == Some(
            0usize,
        ),
{
    let n = app.doc.comps@.len() as int;
    if 0 < n <= usize::MAX {
        law_a_step_goes_round(0, n);
        if let Some(s) = app.comps.selected {
            if s < n {
                law_a_step_goes_round(s, n);
            }
        }
    }
}

/// A comp that is dragged stands where it was dropped, every other keeps its
/// order, and the selection goes with its comp. A drop on its own place does
/// nothing.
pub proof fn law_a_dragged_comp_stands_where_it_fell(app: App, after: App, src: usize, dst: usize)
    requires
        app.comp_moved(after, src, dst),
    ensures
        src >= app.doc.comps@.len() || dst > app.doc.comps@.len() || dst == src || dst == src + 1 ==> after == app,
        src < app.doc.comps@.len() && dst <= app.doc.comps@.len() && dst != src && dst != src + 1 ==> {
            let to = if dst > src { dst - 1 } else { dst as int };
            &&& after.doc.comps@.len() == app.doc.comps@.len()
            &&& after.doc.comps@[to] == app.doc.comps@[src as int]
            &&& after.work.dirty
            &&& after.doc.layers == app.doc.layers
            &&& app.comps.selected matches Some(s) ==> s < app.doc.comps@.len() <= usize::MAX ==> (
            after.comps.selected matches Some(t) && after.doc.comps@[t as int] == app.doc.comps@[s as int])
            &&& app.comps.selected is None ==> after.comps.selected is None
            &&& after.comps.multi@.len() == app.comps.multi@.len()
        },
{
    if src < app.doc.comps@.len() && dst <= app.doc.comps@.len() && dst != src && dst != src + 1 {
        let ins = landing(src as int, dst as int);
        law_move_remaps_by_identity(app.doc.comps@, src as int, ins, src as int);
        if let Some(s) = app.comps.selected {
            if s < app.doc.comps@.len() {
                law_move_remaps_by_identity(app.doc.comps@, src as int, ins, s as int);
            }
        }
        let m = remapped(app.comps.multi@, src as int, ins);
        m.to_multiset_ensures();
        after.comps.multi@.to_multiset_ensures();
    }
}

/// A click with the modifier adds a comp to the picked ones or takes it out, and
/// selects it; every other stays picked.
pub proof fn law_a_comp_is_picked_or_dropped(app: App, after: App, i: usize)
    requires
        app.multi_toggled(after, i),
        i < app.doc.comps@.len(),
    ensures
        after.comps.selected == Some(i),
        after.doc == app.doc,
        app.comps.multi@.contains(i) ==> !after.comps.multi@.contains(i),
        !app.comps.multi@.contains(i) ==> after.comps.multi@.contains(i) && after.comps.multi@.len()
            == app.comps.multi@.len() + 1,
        forall|s: usize| s != i ==> (#[trigger] app.comps.multi@.contains(s) <==> after.comps.multi@.contains(s)),
        !app.comps.multi@.contains(i) ==> forall|j: int, k: int|
            0 <= j < k < after.comps.multi@.len() ==> after.comps.multi@[j] <= after.comps.multi@[k],
{
    let was = app.comps.multi@;
    let now = after.comps.multi@;
    if was.contains(i) {
        broadcast use vstd::seq_lib::group_filter_ensures;

        if now.contains(i) {
            let k = choose|k: int| 0 <= k < now.len() && now[k] == i;
            assert(other(i)(now[k]));
        }
        assert forall|s: usize| s != i implies (#[trigger] was.contains(s) <==> now.contains(s)) by {
            if was.contains(s) {
                let k = choose|k: int| 0 <= k < was.len() && was[k] == s;
                assert(other(i)(was[k]));
            }
            if now.contains(s) {
                was.lemma_filter_contains_rev(other(i), s);
            }
        }
    } else {
        let p = was.push(i);
        p.to_multiset_ensures();
        now.to_multiset_ensures();
        assert(p[was.len() as int] == i);
        assert(p.contains(i));
        assert(now.to_multiset().count(i) > 0);
        assert forall|s: usize| s != i implies (#[trigger] was.contains(s) <==> now.contains(s)) by {
            if was.contains(s) {
                let k = choose|k: int| 0 <= k < was.len() && was[k] == s;
                assert(p[k] == s);
                assert(p.contains(s));
                assert(now.to_multiset().count(s) > 0);
            }
            if now.contains(s) {
                assert(p.to_multiset().count(s) > 0);
                assert(p.contains(s));
                let k = choose|k: int| 0 <= k < p.len() && p[k] == s;
                assert(was[k] == s);
            }
        }
    }
}

/// A range holds every comp from the selected one to the clicked one, in either
/// direction, and no other.
pub proof fn law_a_range_holds_what_lies_between(app: App, after: App, i: usize, s: usize)
    requires
        app.range_selected(after, i),
        i < app.doc.comps@.len() <= usize::MAX,
        app.comps.selected == Some(s),
        s < app.doc.comps@.len(),
    ensures
        after.comps.selected == Some(i),
        after.doc == app.doc,
        forall|k: usize|
            #[trigger] after.comps.multi@.contains(k) <==> (if s <= i { s <= k <= i } else { i <= k <= s }),
{
    let m = after.comps.multi@;
    let lo = if s <= i { s } else { i };
    assert forall|k: usize| #[trigger] m.contains(k) <==> (if s <= i { s <= k <= i } else { i <= k <= s }) by {
        if if s <= i { s <= k <= i } else { i <= k <= s } {
            assert(m[k - lo] == k);
        }
    }
}

/// Deleting a comp takes that one out; the selection stays with its comp, or goes
/// with the deleted one.
pub proof fn law_a_deleted_comp_is_gone(app: App, after: App, i: usize, k: int)
    requires
        app.comp_deleted(after, i),
    ensures
        i >= app.doc.comps@.len() ==> after == app,
        i < app.doc.comps@.len() ==> {
            &&& after.doc.comps@.len() + 1 == app.doc.comps@.len()
            &&& 0 <= k < i ==> after.doc.comps@[k] == app.doc.comps@[k]
            &&& i < k < app.doc.comps@.len() ==> after.doc.comps@[k - 1] == app.doc.comps@[k]
            &&& app.comps.selected == Some(i) ==> after.comps.selected is None
            &&& app.comps.selected matches Some(s) ==> s != i && s < app.doc.comps@.len() ==> (
            after.comps.selected matches Some(t) && after.doc.comps@[t as int] == app.doc.comps@[s as int])
            &&& rising(app.comps.multi@) && (forall|j: int| 0 <= j < app.comps.multi@.len() ==> app.comps.multi@[j]
                < app.doc.comps@.len()) ==> {
                &&& rising(after.comps.multi@)
                &&& forall|s: usize|
                    s != i && #[trigger] app.comps.multi@.contains(s) ==> after.comps.multi@.contains(
                        if s > i { (s - 1) as usize } else { s },
                    )
            }
            &&& after.doc.layers == app.doc.layers
            &&& after.shell == app.shell
        },
{
    let m = app.comps.multi@;
    if i < app.doc.comps@.len() && rising(m) && (forall|j: int| 0 <= j < m.len() ==> m[j] < app.doc.comps@.len()) {
        law_delete_keeps_the_multi_selection(m, i, app.doc.comps@.len() as int);
    }
}

} // verus!
