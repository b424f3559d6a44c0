//! The panels' reading order: the cache that the badges read, the names that
//! follow it, the positions that were set by hand, and the rulers that stand
//! for panel borders.

use vstd::prelude::*;
use vstd::string::StringExecFns;
use crate::app::{App, FrameHand, Shell, Work};
use crate::doc::{CurveRuler, Document, FrameSet, Layer, LayerKind, Rulers};
use crate::floats;
use crate::geom::Pt;
use crate::text;

verus! {

/// The page's panels in reading order, each by the layer that holds it, and
/// for each whether the layout leaves its place open.
#[derive(Debug)]
pub struct ReadingOrder {
    pub panels: Vec<usize>,
    pub ambiguous: Vec<bool>,
}

/// The vertices of each curve.
pub open spec fn curves(v: Seq<CurveRuler>) -> Seq<Seq<Pt>> {
    Seq::new(v.len(), |i: int| v[i].pts@)
}

/// Do the two curves run through the same points?
pub open spec fn same_curve(a: Seq<Pt>, b: Seq<Pt>) -> bool {
    a.len() == b.len() && forall|i: int| 0 <= i < a.len() ==> floats::together(#[trigger] a[i], b[i])
}

/// Do the two lists hold the same curves?
pub open spec fn all_same(a: Seq<Seq<Pt>>, b: Seq<Seq<Pt>>) -> bool {
    a.len() == b.len() && forall|i: int| 0 <= i < a.len() ==> same_curve(#[trigger] a[i], b[i])
}

/// The list without the first item of this value.
pub open spec fn without_first(s: Seq<Seq<Pt>>, x: Seq<Pt>) -> Seq<Seq<Pt>>
    decreases s.len(),
{
    if s.len() == 0 {
        s
    } else if same_curve(s[0], x) {
        s.skip(1)
    } else {
        seq![s[0]] + without_first(s.skip(1), x)
    }
}

/// The list without one item for each of these values.
pub open spec fn retracted(s: Seq<Seq<Pt>>, olds: Seq<Seq<Pt>>) -> Seq<Seq<Pt>>
    decreases olds.len(),
{
    if olds.len() == 0 {
        s
    } else {
        retracted(without_first(s, olds[0]), olds.skip(1))
    }
}

/// The first item of this value, or the length.
proof fn lemma_without_first(s: Seq<Seq<Pt>>, x: Seq<Pt>, i: int)
    requires
        0 <= i <= s.len(),
        forall|j: int| 0 <= j < i ==> !same_curve(#[trigger] s[j], x),
        i < s.len() ==> same_curve(s[i], x),
    ensures
        without_first(s, x) == (if i < s.len() { s.remove(i) } else { s }),
    decreases i,
{
    if i > 0 {
        let t = s.skip(1);
        assert forall|j: int| 0 <= j < i - 1 implies !same_curve(#[trigger] t[j], x) by {
            assert(t[j] == s[j + 1]);
        }
        lemma_without_first(t, x, i - 1);
        assert(without_first(s, x) =~= (if i < s.len() { s.remove(i) } else { s }));
    } else if s.len() > 0 {
        assert(s.skip(1) =~= s.remove(0));
    }
}

fn same_pts(a: &Vec<Pt>, b: &Vec<Pt>) -> (r: bool)
    ensures
        r == same_curve(a@, b@),
{
    if a.len() != b.len() {
        return false;
    }
    let mut i: usize = 0;
    while i < a.len()
        invariant
            i <= a@.len() == b@.len(),
            forall|j: int| 0 <= j < i ==> floats::together(#[trigger] a@[j], b@[j]),
        decreases a@.len() - i,
    {
        if !floats::are_together(a[i], b[i]) {
            return false;
        }
        i = i + 1;
    }
    true
}

fn same_curves(a: &Vec<CurveRuler>, b: &Vec<CurveRuler>) -> (r: bool)
    ensures
        r == all_same(curves(a@), curves(b@)),
{
    if a.len() != b.len() {
        return false;
    }
    let mut i: usize = 0;
    while i < a.len()
        invariant
            i <= a@.len() == b@.len(),
            forall|j: int| 0 <= j < i ==> same_curve(#[trigger] curves(a@)[j], curves(b@)[j]),
        decreases a@.len() - i,
    {
        if !same_pts(&a[i].pts, &b[i].pts) {
            proof {
                assert(!same_curve(curves(a@)[i as int], curves(b@)[i as int]));
            }
            return false;
        }
        i = i + 1;
    }
    true
}

/// A copy of these points.
fn copy_pts(v: &Vec<Pt>) -> (r: Vec<Pt>)
    ensures
        r@ == v@,
{
    let mut out: Vec<Pt> = Vec::new();
    let mut i: usize = 0;
    while i < v.len()
        invariant
            i <= v@.len(),
            out@ == v@.take(i as int),
        decreases v@.len() - i,
    {
        out.push(v[i]);
        proof {
            assert(out@ =~= v@.take(i + 1));
        }
        i = i + 1;
    }
    proof {
        assert(out@ =~= v@);
    }
    out
}

/// Takes the first curve of this value out of the list.
fn remove_curve(v: &mut Vec<CurveRuler>, x: &Vec<Pt>)
    ensures
        curves(final(v)@) == without_first(curves(old(v)@), x@),
{
    let mut i: usize = 0;
    while i < v.len()
        invariant
            i <= v@.len(),
            v@ == old(v)@,
            forall|j: int| 0 <= j < i ==> !same_curve(#[trigger] curves(v@)[j], x@),
        decreases v@.len() - i,
    {
        if same_pts(&v[i].pts, x) {
            proof {
                lemma_without_first(curves(v@), x@, i as int);
            }
            let _ = v.remove(i);
            proof {
                assert(curves(v@) =~= curves(old(v)@).remove(i as int));
            }
            return;
        }
        proof {
            assert(curves(v@)[i as int] == v@[i as int].pts@);
        }
        i = i + 1;
    }
    proof {
        lemma_without_first(curves(v@), x@, i as int);
    }
}

/// Takes one curve out of the list for each of these values.
fn retract(v: &mut Vec<CurveRuler>, olds: &Vec<CurveRuler>)
    ensures
        curves(final(v)@) == retracted(curves(old(v)@), curves(olds@)),
{
    let mut k: usize = 0;
    proof {
        assert(curves(olds@).skip(0) =~= curves(olds@));
    }
    while k < olds.len()
        invariant
            k <= olds@.len(),
            retracted(curves(v@), curves(olds@).skip(k as int)) == retracted(curves(old(v)@), curves(olds@)),
        decreases olds@.len() - k,
    {
        proof {
            let rest = curves(olds@).skip(k as int);
            assert(rest[0] == olds@[k as int].pts@);
            assert(rest.skip(1) =~= curves(olds@).skip(k + 1));
        }
        remove_curve(v, &olds[k].pts);
        k = k + 1;
    }
    proof {
        assert(curves(olds@).skip(k as int).len() == 0);
    }
}

/// Puts a copy of each curve behind the list.
fn extend_curves(v: &mut Vec<CurveRuler>, more: &Vec<CurveRuler>)
    ensures
        curves(final(v)@) == curves(old(v)@) + curves(more@),
{
    let mut k: usize = 0;
    proof {
        assert(curves(old(v)@) + curves(more@).take(0) =~= curves(v@));
    }
    while k < more.len()
        invariant
            k <= more@.len(),
            curves(v@) == curves(old(v)@) + curves(more@).take(k as int),
        decreases more@.len() - k,
    {
        let ghost before = v@;
        v.push(CurveRuler { pts: copy_pts(&more[k].pts) });
        proof {
            assert(curves(v@) =~= curves(before).push(more@[k as int].pts@));
            assert(curves(more@).take(k + 1) =~= curves(more@).take(k as int).push(more@[k as int].pts@));
            assert(curves(v@) =~= curves(old(v)@) + curves(more@).take(k + 1));
        }
        k = k + 1;
    }
    proof {
        assert(curves(more@).take(k as int) =~= curves(more@));
    }
}

/// The page's rulers once those for panel borders have become `want`: what
/// was added for `had` is taken back by value, and turning the first one on
/// turns snapping on.
pub open spec fn synced(before: Rulers, had: Seq<CurveRuler>, want: Seq<CurveRuler>, after: Rulers) -> bool {
    if all_same(curves(want), curves(had)) {
        after == before
    } else {
        &&& after == (Rulers { on: before.on || want.len() > 0, curves: after.curves, ..before })
        &&& curves(after.curves@) == retracted(curves(before.curves@), curves(had)) + curves(want)
    }
}

/// The point, with one zero for both.
pub open spec fn plain_pt(p: Pt) -> Pt {
    Pt { x: floats::canonical(p.x), y: floats::canonical(p.y) }
}

/// The curve, with one zero for both.
pub open spec fn plain(c: Seq<Pt>) -> Seq<Pt> {
    Seq::new(c.len(), |i: int| plain_pt(c[i]))
}

/// The curves, with one zero for both.
pub open spec fn plain_all(s: Seq<Seq<Pt>>) -> Seq<Seq<Pt>> {
    Seq::new(s.len(), |i: int| plain(s[i]))
}

/// Does every vertex of the curve have a place?
pub open spec fn drawable(c: Seq<Pt>) -> bool {
    forall|i: int| 0 <= i < c.len() ==> floats::on_plane(#[trigger] c[i])
}

/// A curve ruler that was drawn by hand stays when the rulers for panel
/// borders change, whatever its value: as many curves of each value stay as
/// were there by hand. A panel's corners have places.
pub proof fn law_hand_drawn_rulers_stay(hand: Seq<Seq<Pt>>, had: Seq<Seq<Pt>>)
    requires
        forall|k: int| 0 <= k < had.len() ==> drawable(#[trigger] had[k]),
    ensures
        plain_all(retracted(hand + had, had)).to_multiset() == plain_all(hand).to_multiset(),
{
    assert(plain_all(hand + had) =~= plain_all(hand) + plain_all(had));
    vstd::seq_lib::lemma_multiset_commutative(plain_all(hand), plain_all(had));
    lemma_retracted(hand + had, hand, had);
}

/// Beside a curve with places, sameness is equality but for the zeros.
proof fn lemma_plain(a: Seq<Pt>, b: Seq<Pt>)
    requires
        drawable(b),
    ensures
        same_curve(a, b) == (plain(a) == plain(b)),
{
    if same_curve(a, b) {
        assert forall|i: int| 0 <= i < a.len() implies plain(a)[i] == plain(b)[i] by {
            assert(floats::together(a[i], b[i]));
            floats::lemma_equal(b[i].x, a[i].x);
            floats::lemma_equal(b[i].y, a[i].y);
            assert(floats::on_plane(b[i]));
        }
        assert(plain(a) =~= plain(b));
    }
    if plain(a) == plain(b) {
        assert(plain(a).len() == a.len() && plain(b).len() == b.len());
        assert forall|i: int| 0 <= i < a.len() implies floats::together(#[trigger] a[i], b[i]) by {
            assert(plain(a)[i] == plain(b)[i]);
            floats::lemma_equal(b[i].x, a[i].x);
            floats::lemma_equal(b[i].y, a[i].y);
            assert(floats::on_plane(b[i]));
        }
    }
}

/// Retraction takes one item for each old one.
proof fn lemma_retracted(s: Seq<Seq<Pt>>, hand: Seq<Seq<Pt>>, had: Seq<Seq<Pt>>)
    requires
        forall|k: int| 0 <= k < had.len() ==> drawable(#[trigger] had[k]),
        plain_all(s).to_multiset() =~= plain_all(hand).to_multiset().add(plain_all(had).to_multiset()),
    ensures
        plain_all(retracted(s, had)).to_multiset() == plain_all(hand).to_multiset(),
    decreases had.len(),
{
    broadcast use vstd::seq_lib::group_to_multiset_ensures;
    if had.len() > 0 {
        let x = had[0];
        let px = plain(x);
        let rest = had.skip(1);
        assert(drawable(x));
        assert(plain_all(had).remove(0) =~= plain_all(rest));
        assert(plain_all(had).to_multiset().count(px) > 0) by {
            assert(plain_all(had)[0] == px);
            assert(plain_all(had).contains(px));
        }
        assert(plain_all(s).to_multiset().count(px) > 0);
        assert(plain_all(s).contains(px));
        let i = first_at(plain_all(s), px);
        lemma_first_at(plain_all(s), px);
        assert forall|j: int| 0 <= j < i implies !same_curve(#[trigger] s[j], x) by {
            assert(plain_all(s)[j] != px);
            lemma_plain(s[j], x);
        }
        assert(plain_all(s)[i] == px);
        lemma_plain(s[i], x);
        lemma_without_first(s, x, i);
        let t = without_first(s, x);
        assert(plain_all(t) =~= plain_all(s).remove(i));
        assert(plain_all(t).to_multiset() =~= plain_all(s).to_multiset().remove(px));
        assert(plain_all(rest).to_multiset() =~= plain_all(had).to_multiset().remove(px));
        assert(plain_all(t).to_multiset() =~= plain_all(hand).to_multiset().add(plain_all(rest).to_multiset()));
        assert forall|k: int| 0 <= k < rest.len() implies drawable(#[trigger] rest[k]) by {
            assert(rest[k] == had[k + 1]);
        }
        lemma_retracted(t, hand, rest);
    } else {
        assert(plain_all(had) =~= seq![]);
        assert(plain_all(had).to_multiset() =~= vstd::multiset::Multiset::empty());
        assert(plain_all(s).to_multiset() =~= plain_all(hand).to_multiset());
    }
}

/// The first place of this value.
spec fn first_at(s: Seq<Seq<Pt>>, x: Seq<Pt>) -> int
    decreases s.len(),
{
    if s.len() == 0 || s[0] == x {
        0
    } else {
        1 + first_at(s.skip(1), x)
    }
}

proof fn lemma_first_at(s: Seq<Seq<Pt>>, x: Seq<Pt>)
    requires
        s.contains(x),
    ensures
        0 <= first_at(s, x) < s.len(),
        s[first_at(s, x)] == x,
        forall|j: int| 0 <= j < first_at(s, x) ==> s[j] != x,
    decreases s.len(),
{
    if s[0] != x {
        let t = s.skip(1);
        let k = choose|k: int| 0 <= k < s.len() && s[k] == x;
        assert(t[k - 1] == x);
        lemma_first_at(t, x);
        assert forall|j: int| 0 <= j < first_at(s, x) implies s[j] != x by {
            if j > 0 {
                assert(t[j - 1] == s[j]);
            }
        }
    }
}

/// Is this a name that the reading order writes: `Frame` and a number?
pub open spec fn default_name(s: Seq<char>) -> bool {
    "Frame "@.is_prefix_of(s) && text::all_digits(s.skip("Frame "@.len() as int))
}

/// Only names of this form are rewritten; a name that was typed by hand stays.
pub fn is_default_frame_name(s: &str) -> (r: bool)
    ensures
        r == default_name(s@),
{
    let v = text::to_chars(s);
    let p = text::to_chars("Frame ");
    if !text::starts_with(&v, &p) {
        return false;
    }
    text::digits_from(&v, p.len())
}

/// The name for a reading position.
pub open spec fn frame_name(pos: nat) -> Seq<char> {
    "Frame "@ + text::dec(pos)
}

/// The first panel of this layer in the order.
pub open spec fn first_panel(panels: Seq<usize>, li: int) -> Option<int>
    decreases panels.len(),
{
    if panels.len() == 0 {
        None
    } else if panels[0] == li {
        Some(0)
    } else {
        match first_panel(panels.skip(1), li) {
            Some(p) => Some(p + 1),
            None => None,
        }
    }
}

proof fn lemma_first_panel(panels: Seq<usize>, li: int, k: int)
    requires
        0 <= k <= panels.len(),
        forall|j: int| 0 <= j < k ==> panels[j] != li,
        k < panels.len() ==> panels[k] == li,
    ensures
        first_panel(panels, li) == (if k < panels.len() { Some(k) } else { None }),
    decreases k,
{
    if k > 0 {
        let t = panels.skip(1);
        assert forall|j: int| 0 <= j < k - 1 implies t[j] != li by {
            assert(t[j] == panels[j + 1]);
        }
        lemma_first_panel(t, li, k - 1);
    }
}

/// The first panel of this layer in the order.
fn panel_of(panels: &Vec<usize>, li: usize) -> (r: Option<usize>)
    ensures
        match r {
            Some(p) => first_panel(panels@, li as int) == Some(p as int) && p < panels.len(),
            None => first_panel(panels@, li as int) is None,
        },
{
    let mut k: usize = 0;
    while k < panels.len()
        invariant
            k <= panels@.len(),
            forall|j: int| 0 <= j < k ==> panels@[j] != li,
        decreases panels@.len() - k,
    {
        if panels[k] == li {
            proof {
                lemma_first_panel(panels@, li as int, k as int);
            }
            return Some(k);
        }
        k = k + 1;
    }
    proof {
        lemma_first_panel(panels@, li as int, k as int);
    }
    None
}

/// The name of layer `i` once the names follow the order.
pub open spec fn ordered_name(name: Seq<char>, panels: Seq<usize>, i: int) -> Seq<char> {
    match first_panel(panels, i) {
        Some(p) if default_name(name) => frame_name((p + 1) as nat),
        _ => name,
    }
}

/// The layers once the names follow the order: nothing else changes.
pub open spec fn names_follow(before: Seq<Layer>, after: Seq<Layer>, panels: Seq<usize>) -> bool {
    &&& after.len() == before.len()
    &&& forall|i: int|
        0 <= i < before.len() ==> {
            &&& #[trigger] after[i] == (Layer { name: after[i].name, ..before[i] })
            &&& after[i].name@ == ordered_name(before[i].name@, panels, i)
        }
}

/// Writes the names that follow the order.
fn rename(layers: &mut Vec<Layer>, panels: &Vec<usize>)
    ensures
        names_follow(old(layers)@, final(layers)@, panels@),
{
    let mut i: usize = 0;
    while i < layers.len()
        invariant
            i <= layers@.len() == old(layers)@.len(),
            forall|j: int|
                0 <= j < i ==> {
                    &&& #[trigger] layers@[j] == (Layer { name: layers@[j].name, ..old(layers)@[j] })
                    &&& layers@[j].name@ == ordered_name(old(layers)@[j].name@, panels@, j)
                },
            forall|j: int| i <= j < layers@.len() ==> layers@[j] == old(layers)@[j],
        decreases layers@.len() - i,
    {
        if let Some(p) = panel_of(panels, i) {
            if is_default_frame_name(layers[i].name.as_str()) {
                let mut name = text::own("Frame ");
                text::push_dec(&mut name, (p as u64) + 1);
                layers[i].name = name;
            }
        }
        i = i + 1;
    }
}

/// Renaming by the same order a second time changes no name.
pub proof fn law_renumbering_is_settled(a: Seq<Layer>, b: Seq<Layer>, c: Seq<Layer>, panels: Seq<usize>)
    requires
        names_follow(a, b, panels),
        names_follow(b, c, panels),
    ensures
        c.len() == b.len(),
        forall|i: int| 0 <= i < b.len() ==> #[trigger] c[i].name@ == b[i].name@,
{
    assert forall|i: int| 0 <= i < b.len() implies #[trigger] c[i].name@ == b[i].name@ by {
        assert(b[i] == (Layer { name: b[i].name, ..a[i] }));
        assert(c[i] == (Layer { name: c[i].name, ..b[i] }));
        if let Some(p) = first_panel(panels, i) {
            if default_name(a[i].name@) {
                lemma_frame_name((p + 1) as nat);
            }
        }
    }
}

/// A name that the order writes is one that it may write again.
proof fn lemma_frame_name(pos: nat)
    ensures
        default_name(frame_name(pos)),
{
    let head = "Frame "@;
    assert(frame_name(pos).skip(head.len() as int) =~= text::dec(pos));
    assert(head.is_prefix_of(frame_name(pos))) by {
        assert(frame_name(pos).take(head.len() as int) =~= head);
    }
    text::lemma_dec(pos);
}

/// A name that was typed by hand is never rewritten, and a layer without a
/// panel keeps its name too.
pub proof fn law_typed_names_stay(a: Seq<Layer>, b: Seq<Layer>, panels: Seq<usize>, i: int)
    requires
        names_follow(a, b, panels),
        0 <= i < a.len(),
        !default_name(a[i].name@) || first_panel(panels, i) is None,
    ensures
        b[i].name@ == a[i].name@,
{
    assert(b[i] == (Layer { name: b[i].name, ..a[i] }));
}

/// How many flags are set.
pub open spec fn count_set(v: Seq<bool>) -> nat
    decreases v.len(),
{
    if v.len() == 0 {
        0
    } else {
        count_set(v.drop_last()) + (if v.last() { 1nat } else { 0nat })
    }
}

/// How many flags are set.
fn count(v: &Vec<bool>) -> (r: usize)
    ensures
        r == count_set(v@),
{
    let mut n: usize = 0;
    let mut i: usize = 0;
    while i < v.len()
        invariant
            i <= v@.len(),
            n <= i,
            n == count_set(v@.take(i as int)),
        decreases v@.len() - i,
    {
        proof {
            assert(v@.take(i + 1).drop_last() =~= v@.take(i as int));
        }
        if v[i] {
            n = n + 1;
        }
        i = i + 1;
    }
    proof {
        assert(v@.take(i as int) =~= v@);
    }
    n
}

/// Is there a folder of panels?
pub open spec fn has_folders(layers: Seq<Layer>) -> bool {
    exists|i: int| 0 <= i < layers.len() && (#[trigger] layers[i]).folder && layers[i].is_frame_spec()
}

/// Is there a folder of panels?
fn any_folder(layers: &Vec<Layer>) -> (r: bool)
    ensures
        r == has_folders(layers@),
{
    let mut i: usize = 0;
    while i < layers.len()
        invariant
            i <= layers@.len(),
            forall|j: int| 0 <= j < i ==> !((#[trigger] layers@[j]).folder && layers@[j].is_frame_spec()),
        decreases layers@.len() - i,
    {
        if layers[i].folder && layers[i].is_frame() {
            proof {
                assert(layers@[i as int].folder);
            }
            return true;
        }
        i = i + 1;
    }
    false
}

/// The notice about a layout that leaves places open.
pub open spec fn ambiguity_notice(n: nat) -> Seq<char> {
    "panel order: "@ + text::dec(n) + " panel(s) in an ambiguous layout — check the badges"@
}

/// The layers with the reading position of `li` set by hand.
pub open spec fn pinned(layers: Seq<Layer>, li: int, pin: Option<u32>) -> Seq<Layer> {
    if 0 <= li < layers.len() {
        match layers[li].kind {
            LayerKind::Frame(fs) => layers.update(
                li,
                Layer { kind: LayerKind::Frame(FrameSet { reading_pin: pin, ..fs }), ..layers[li] },
            ),
            _ => layers,
        }
    } else {
        layers
    }
}

/// The reading position of `li` that was set by hand.
pub open spec fn pin_of(layers: Seq<Layer>, li: int) -> Option<u32> {
    if 0 <= li < layers.len() {
        match layers[li].kind {
            LayerKind::Frame(fs) => fs.reading_pin,
            _ => None,
        }
    } else {
        None
    }
}

/// The position that a step leads to: never below the first.
pub open spec fn next_pin(base: u32, delta: i32) -> u32 {
    if base + delta < 1 {
        1
    } else if base + delta > u32::MAX {
        u32::MAX
    } else {
        (base + delta) as u32
    }
}

/// Repeated steps accumulate, and a step back undoes a step forth.
pub proof fn law_pin_steps_accumulate(base: u32, a: i32, b: i32)
    requires
        1 <= base,
        1 <= base + a <= u32::MAX,
        1 <= base + a + b <= u32::MAX,
        i32::MIN <= a + b <= i32::MAX,
    ensures
        next_pin(next_pin(base, a), b) == next_pin(base, (a + b) as i32),
        a + b == 0 ==> next_pin(next_pin(base, a), b) == base,
{
}

/// The badge of a layer: its position counted from 1, whether the layout
/// leaves it open, and whether it was set by hand.
pub open spec fn badge(order: Option<ReadingOrder>, layers: Seq<Layer>, li: int) -> Option<(usize, bool, bool)> {
    match order {
        None => None,
        Some(o) => match first_panel(o.panels@, li) {
            None => None,
            Some(p) => Some((
                (p + 1) as usize,
                p < o.ambiguous@.len() && o.ambiguous@[p],
                pin_of(layers, li) is Some,
            )),
        },
    }
}

/// Two layers never carry the same number.
pub proof fn law_badges_differ(order: Option<ReadingOrder>, layers: Seq<Layer>, a: int, b: int)
    requires
        a != b,
        badge(order, layers, a) is Some,
        badge(order, layers, b) is Some,
        order->0.panels@.len() <= usize::MAX,
    ensures
        (badge(order, layers, a)->0).0 != (badge(order, layers, b)->0).0,
        1 <= (badge(order, layers, a)->0).0 <= order->0.panels@.len(),
{
    lemma_first_panel_is(order->0.panels@, a);
    lemma_first_panel_is(order->0.panels@, b);
}

proof fn lemma_first_panel_is(panels: Seq<usize>, li: int)
    ensures
        first_panel(panels, li) matches Some(p) ==> 0 <= p < panels.len() && panels[p] == li,
    decreases panels.len(),
{
    if panels.len() > 0 && panels[0] != li {
        lemma_first_panel_is(panels.skip(1), li);
    }
}

impl App {
    /// What a new reading order makes of the state, once the layers are
    /// `layers`: the border rulers are brought into step, the names follow,
    /// and the order is kept for the badges. Without panels there is no order.
    pub open spec fn reordered(
        self,
        after: App,
        layers: Seq<Layer>,
        announce: bool,
        dirty: bool,
        want: Vec<CurveRuler>,
        order: ReadingOrder,
    ) -> bool {
        let moved = !all_same(curves(want@), curves(self.frames.rulers@));
        let listed = has_folders(layers) && order.panels@.len() > 0;
        let n = count_set(order.ambiguous@);
        &&& after == (App {
            doc: (Document { layers: after.doc.layers, rulers: after.doc.rulers, ..self.doc }),
            frames: (FrameHand {
                order: if listed { Some(order) } else { None },
                order_rev: self.doc.revision,
                rulers: if moved { want } else { self.frames.rulers },
                ..self.frames
            }),
            shell: (Shell {
                status: after.shell.status,
                needs_redraw: self.shell.needs_redraw || moved || listed,
                ..self.shell
            }),
            work: (Work { dirty: self.work.dirty || dirty, ..self.work }),
            ..self
        })
        &&& synced(self.doc.rulers, self.frames.rulers@, want@, after.doc.rulers)
        &&& if listed {
            names_follow(layers, after.doc.layers@, order.panels@)
        } else {
            after.doc.layers@ == layers
        }
        &&& after.shell.status@ == (if listed && announce && n > 0 { ambiguity_notice(n) } else { self.shell.status@ })
    }

    /// Brings the curve rulers into step with the panels whose border is a
    /// ruler: `want` are the curves of all of them.
    pub fn sync_frame_rulers(&mut self, want: Vec<CurveRuler>)
        ensures
            *final(self) == (App {
                doc: (Document { rulers: final(self).doc.rulers, ..old(self).doc }),
                frames: (FrameHand {
                    rulers: if !all_same(curves(want@), curves(old(self).frames.rulers@)) { want } else { old(self).frames.rulers },
                    ..old(self).frames
                }),
                shell: (Shell {
                    needs_redraw: old(self).shell.needs_redraw || !all_same(curves(want@), curves(old(self).frames.rulers@)),
                    ..old(self).shell
                }),
                ..*old(self)
            }),
            synced(old(self).doc.rulers, old(self).frames.rulers@, want@, final(self).doc.rulers),
            old(self).wf() ==> final(self).wf(),
    {
        if same_curves(&want, &self.frames.rulers) {
            return;
        }
        retract(&mut self.doc.rulers.curves, &self.frames.rulers);
        extend_curves(&mut self.doc.rulers.curves, &want);
        if want.len() > 0 {
            self.doc.rulers.on = true;
        }
        self.frames.rulers = want;
        self.shell.needs_redraw = true;
    }

    /// Takes a new reading order; `announce` says so when the layout leaves
    /// places open.
    fn recompute_frame_order(&mut self, announce: bool, want: Vec<CurveRuler>, order: ReadingOrder)
        ensures
            old(self).reordered(*final(self), old(self).doc.layers@, announce, false, want, order),
    {
        self.sync_frame_rulers(want);
        self.frames.order = None;
        self.frames.order_rev = self.doc.revision;
        if !any_folder(&self.doc.layers) {
            return;
        }
        if order.panels.len() == 0 {
            return;
        }
        rename(&mut self.doc.layers, &order.panels);
        let n: usize = count(&order.ambiguous);
        if announce && n > 0 {
            let mut s = text::own("panel order: ");
            text::push_dec(&mut s, n as u64);
            s.append(" panel(s) in an ambiguous layout — check the badges");
            self.shell.status = s;
        }
        self.frames.order = Some(order);
        self.shell.needs_redraw = true;
    }

    /// Takes a new reading order and says where it is open. For every change
    /// of a panel: the order is computed, never assigned once.
    pub fn renumber_frames(&mut self, want: Vec<CurveRuler>, order: ReadingOrder)
        ensures
            old(self).reordered(*final(self), old(self).doc.layers@, true, false, want, order),
            old(self).wf() ==> final(self).wf(),
    {
        self.recompute_frame_order(true, want, order);
    }

    /// Is the kept order out of date?
    pub open spec fn order_is_stale(self) -> bool {
        self.frames.order is None || self.frames.order_rev != self.doc.revision
    }

    /// Is the kept order out of date? It holds layer indices, so any change of
    /// the document ends it.
    pub fn frame_order_stale(&self) -> (r: bool)
        ensures
            r == self.order_is_stale(),
    {
        self.frames.order.is_none() || self.frames.order_rev != self.doc.revision
    }

    /// Takes a new reading order where the kept one is out of date, without a
    /// notice.
    pub fn ensure_frame_order(&mut self, want: Vec<CurveRuler>, order: ReadingOrder)
        ensures
            old(self).order_is_stale() ==> old(self).reordered(
                *final(self),
                old(self).doc.layers@,
                false,
                false,
                want,
                order,
            ),
            !old(self).order_is_stale() ==> *final(self) == *old(self),
            old(self).wf() ==> final(self).wf(),
    {
        if self.frame_order_stale() {
            self.recompute_frame_order(false, want, order);
        }
    }

    /// The reading position of a layer, for its badge.
    pub fn frame_pos(&self, li: usize) -> (r: Option<(usize, bool, bool)>)
        ensures
            r == badge(self.frames.order, self.doc.layers@, li as int),
    {
        match &self.frames.order {
            None => None,
            Some(o) => match panel_of(&o.panels, li) {
                None => None,
                Some(p) => {
                    let open = p < o.ambiguous.len() && o.ambiguous[p];
                    Some((p + 1, open, frame_pin(&self.doc.layers, li).is_some()))
                },
            },
        }
    }

    /// What moving a reading position makes of the state.
    pub open spec fn pin_stepped(self, after: App, li: usize, delta: i32, want: Vec<CurveRuler>, order: ReadingOrder) -> bool {
        &&& ({
            let layers = self.doc.layers@;
            match badge(self.frames.order, layers, li as int) {
                None => after == self,
                Some(cur) => {
                    let base = match pin_of(layers, li as int) {
                        Some(p) => p,
                        None => cur.0 as u32,
                    };
                    self.reordered(
                        after,
                        pinned(layers, li as int, Some(next_pin(base, delta))),
                        true,
                        true,
                        want,
                        order,
                    )
                },
            }
        })
    }

    /// Sets the reading position of a layer one step earlier or later than it
    /// is; steps accumulate. `want` and `order` are computed for the layers
    /// with that position.
    pub fn frame_pin_step(&mut self, li: usize, delta: i32, want: Vec<CurveRuler>, order: ReadingOrder)
        ensures
            old(self).pin_stepped(*final(self), li, delta, want, order),
            old(self).wf() ==> final(self).wf(),
    {
        let cur = match self.frame_pos(li) {
            Some(cur) => cur,
            None => return,
        };
        let base: u32 = match frame_pin(&self.doc.layers, li) {
            Some(p) => p,
            None => cur.0 as u32,
        };
        let next: u32 = step_pin(base, delta);
        set_pin(&mut self.doc.layers, li, Some(next));
        self.recompute_frame_order(true, want, order);
        self.mark_dirty();
    }

    /// Gives a layer's reading position back to the order.
    pub fn frame_pin_clear(&mut self, li: usize, want: Vec<CurveRuler>, order: ReadingOrder)
        ensures
            old(self).reordered(
                *final(self),
                pinned(old(self).doc.layers@, li as int, None),
                true,
                true,
                want,
                order,
            ),
            old(self).wf() ==> final(self).wf(),
    {
        set_pin(&mut self.doc.layers, li, None);
        self.recompute_frame_order(true, want, order);
        self.mark_dirty();
    }
}

/// A folder of panels, as the reading order takes it in: its layer, and the
/// position that was set for it by hand.
#[derive(Clone, Copy, PartialEq, Eq, Structural, Debug)]
pub struct Folder {
    pub layer: usize,
    pub pin: Option<u32>,
}

/// The folders of panels among the first `n` layers, from the bottom up.
pub open spec fn folders(layers: Seq<Layer>, n: int) -> Seq<Folder>
    decreases n,
{
    if n <= 0 {
        seq![]
    } else if layers[n - 1].folder && layers[n - 1].is_frame_spec() {
        folders(layers, n - 1).push(Folder { layer: (n - 1) as usize, pin: pin_of(layers, n - 1) })
    } else {
        folders(layers, n - 1)
    }
}

/// Layers that differ in nothing that the reading order takes in have the same
/// folders.
proof fn lemma_folders(a: Seq<Layer>, b: Seq<Layer>, n: int)
    requires
        n <= a.len() == b.len(),
        forall|i: int| 0 <= i < a.len() ==> (#[trigger] a[i]).folder == b[i].folder && a[i].kind == b[i].kind,
    ensures
        folders(a, n) == folders(b, n),
        has_folders(a) == has_folders(b),
    decreases n,
{
    if n > 0 {
        lemma_folders(a, b, n - 1);
        assert(a[n - 1].kind == b[n - 1].kind);
    }
    if has_folders(a) {
        let i = choose|i: int| 0 <= i < a.len() && (#[trigger] a[i]).folder && a[i].is_frame_spec();
        assert(b[i].folder && b[i].is_frame_spec());
    }
    if has_folders(b) {
        let i = choose|i: int| 0 <= i < b.len() && (#[trigger] b[i]).folder && b[i].is_frame_spec();
        assert(a[i].folder && a[i].is_frame_spec());
    }
}

/// Is this the order that `of` gives the folders of these layers?
pub open spec fn order_of(order: ReadingOrder, of: spec_fn(Seq<Folder>) -> (Seq<usize>, Seq<bool>), layers: Seq<Layer>) -> bool {
    (order.panels@, order.ambiguous@) == of(folders(layers, layers.len() as int))
}

/// Whatever gives the reading order: once the panels are numbered, a layer with
/// a name that the order writes carries the number of its badge, every other
/// layer keeps its name, and numbering them again changes no name.
pub proof fn law_names_follow_the_badges(
    a: App,
    b: App,
    c: App,
    wants: (Vec<CurveRuler>, Vec<CurveRuler>),
    orders: (ReadingOrder, ReadingOrder),
    of: spec_fn(Seq<Folder>) -> (Seq<usize>, Seq<bool>),
    li: int,
)
    requires
        a.reordered(b, a.doc.layers@, true, false, wants.0, orders.0),
        order_of(orders.0, of, a.doc.layers@),
        b.reordered(c, b.doc.layers@, true, false, wants.1, orders.1),
        order_of(orders.1, of, b.doc.layers@),
        0 <= li < a.doc.layers@.len(),
    ensures
        b.doc.layers@.len() == a.doc.layers@.len() == c.doc.layers@.len(),
        b.doc.layers@[li].name@ == (match badge(b.frames.order, b.doc.layers@, li) {
            Some(p) if default_name(a.doc.layers@[li].name@) => frame_name(p.0 as nat),
            _ => a.doc.layers@[li].name@,
        }),
        c.doc.layers@[li].name@ == b.doc.layers@[li].name@,
{
    let (la, lb, lc) = (a.doc.layers@, b.doc.layers@, c.doc.layers@);
    assert forall|i: int| 0 <= i < la.len() implies (#[trigger] la[i]).folder == lb[i].folder && la[i].kind == lb[i].kind by {
        if b.frames.order is Some {
            assert(lb[i] == (Layer { name: lb[i].name, ..la[i] }));
        }
    }
    lemma_folders(la, lb, la.len() as int);
    assert(orders.0.panels.len() == orders.0.panels@.len());
    lemma_first_panel_is(orders.0.panels@, li);
    if b.frames.order is Some {
        assert(lb[li] == (Layer { name: lb[li].name, ..la[li] }));
        law_renumbering_is_settled(la, lb, lc, orders.0.panels@);
        assert(lc[li].name@ == lb[li].name@);
    }
}

/// Whatever gives the reading order: a position that was set by hand and then
/// given back leaves the badge as it was.
pub proof fn law_clearing_a_pin_gives_the_place_back(
    a: App,
    b: App,
    c: App,
    pin: u32,
    wants: (Vec<CurveRuler>, Vec<CurveRuler>),
    orders: (ReadingOrder, ReadingOrder, ReadingOrder),
    of: spec_fn(Seq<Folder>) -> (Seq<usize>, Seq<bool>),
    li: int,
)
    requires
        has_folders(a.doc.layers@),
        a.frames.order == Some(orders.0),
        order_of(orders.0, of, a.doc.layers@),
        badge(a.frames.order, a.doc.layers@, li) matches Some(p) && !p.2,
        a.reordered(b, pinned(a.doc.layers@, li, Some(pin)), true, true, wants.0, orders.1),
        b.reordered(c, pinned(b.doc.layers@, li, None), true, true, wants.1, orders.2),
        order_of(orders.2, of, pinned(b.doc.layers@, li, None)),
    ensures
        badge(c.frames.order, c.doc.layers@, li) == badge(a.frames.order, a.doc.layers@, li),
        pin_of(c.doc.layers@, li) is None,
{
    let la = a.doc.layers@;
    let mid = pinned(la, li, Some(pin));
    let lb = b.doc.layers@;
    let end = pinned(lb, li, None);
    let lc = c.doc.layers@;
    assert(mid.len() == la.len() && lb.len() == mid.len() && end.len() == lb.len() && lc.len() == end.len());
    assert forall|i: int| 0 <= i < mid.len() implies (#[trigger] mid[i]).folder == lb[i].folder && mid[i].kind == lb[i].kind by {
        if b.frames.order is Some {
            assert(lb[i] == (Layer { name: lb[i].name, ..mid[i] }));
        }
    }
    assert forall|i: int| 0 <= i < la.len() implies (#[trigger] la[i]).folder == end[i].folder && la[i].kind == end[i].kind by {
        assert(mid[i].folder == lb[i].folder && mid[i].kind == lb[i].kind);
    }
    lemma_folders(la, end, la.len() as int);
    lemma_first_panel_is(orders.0.panels@, li);
    assert(lc.len() == end.len());
    if 0 <= li < la.len() {
        assert(lc[li] == (Layer { name: lc[li].name, ..end[li] }));
        assert(la[li].kind == end[li].kind);
    }
}

impl App {
    /// The folders of panels that the reading order is found from, from the
    /// bottom layer up, each with the position that was set for it by hand.
    pub fn frame_folders(&self) -> (r: Vec<Folder>)
        ensures
            r@ == folders(self.doc.layers@, self.doc.layers@.len() as int),
    {
        let mut out: Vec<Folder> = Vec::new();
        let mut i: usize = 0;
        while i < self.doc.layers.len()
            invariant
                i <= self.doc.layers@.len(),
                out@ == folders(self.doc.layers@, i as int),
            decreases self.doc.layers@.len() - i,
        {
            if self.doc.layers[i].folder && self.doc.layers[i].is_frame() {
                out.push(Folder { layer: i, pin: frame_pin(&self.doc.layers, i) });
            }
            i = i + 1;
        }
        out
    }
}

/// The position that a step leads to.
fn step_pin(base: u32, delta: i32) -> (r: u32)
    ensures
        r == next_pin(base, delta),
{
    let at: i64 = base as i64 + delta as i64;
    if at < 1 {
        1
    } else if at > u32::MAX as i64 {
        u32::MAX
    } else {
        at as u32
    }
}

/// The reading position of `li` that was set by hand.
fn frame_pin(layers: &Vec<Layer>, li: usize) -> (r: Option<u32>)
    ensures
        r == pin_of(layers@, li as int),
{
    if li >= layers.len() {
        return None;
    }
    match &layers[li].kind {
        LayerKind::Frame(fs) => fs.reading_pin,
        _ => None,
    }
}

/// Sets the reading position of `li`.
fn set_pin(layers: &mut Vec<Layer>, li: usize, pin: Option<u32>)
    ensures
        final(layers)@ == pinned(old(layers)@, li as int, pin),
{
    if li < layers.len() {
        match &mut layers[li].kind {
            LayerKind::Frame(fs) => {
                fs.reading_pin = pin;
            },
            _ => {},
        }
    }
    proof {
        assert(layers@ =~= pinned(old(layers)@, li as int, pin));
    }
}

/// A name that was given by a position is one that follows the position, and a
/// name with anything but digits behind it is not.
pub proof fn law_given_names_follow(n: nat, s: Seq<char>, i: int)
    ensures
        default_name(frame_name(n)),
        0 <= i < s.len() && !text::is_digit(s[i]) ==> !default_name("Frame "@ + s),
        s.len() == 0 ==> !default_name("Frame "@ + s),
{
    text::lemma_dec(n);
    let p = "Frame "@;
    assert((p + text::dec(n)).skip(p.len() as int) =~= text::dec(n));
    assert((p + s).skip(p.len() as int) =~= s);
    assert(p.is_prefix_of(p + text::dec(n)));
}

/// A layer's place in the reading order is the first one that names it.
pub proof fn law_a_place_is_the_first(panels: Seq<usize>, li: int)
    ensures
        match first_panel(panels, li) {
            Some(p) => 0 <= p < panels.len() && panels[p] == li && forall|j: int| 0 <= j < p ==> #[trigger] panels[j] != li,
            None => forall|j: int| 0 <= j < panels.len() ==> #[trigger] panels[j] != li,
        },
    decreases panels.len(),
{
    if panels.len() > 0 && panels[0] != li {
        law_a_place_is_the_first(panels.skip(1), li);
        if let Some(p) = first_panel(panels.skip(1), li) {
            assert(panels.skip(1)[p] == panels[p + 1]);
            assert forall|j: int| 0 <= j < p + 1 implies #[trigger] panels[j] != li by {
                if j > 0 {
                    assert(panels.skip(1)[j - 1] == panels[j]);
                }
            }
        } else {
            assert forall|j: int| 0 <= j < panels.len() implies #[trigger] panels[j] != li by {
                if j > 0 {
                    assert(panels.skip(1)[j - 1] == panels[j]);
                }
            }
        }
    }
}

/// The badge of the layer at a place counts the place from one, says whether the
/// layout was ambiguous there, and whether the position was set by hand.
pub proof fn law_a_badge_tells_the_place(order: ReadingOrder, layers: Seq<Layer>, p: int)
    requires
        0 <= p < order.panels@.len() < usize::MAX,
        order.ambiguous@.len() == order.panels@.len(),
        order.panels@[p] < layers.len(),
        forall|j: int| 0 <= j < p ==> #[trigger] order.panels@[j] != order.panels@[p],
    ensures
        badge(Some(order), layers, order.panels@[p] as int) matches Some(b) && {
            &&& b.0 == p + 1
            &&& b.1 == order.ambiguous@[p]
            &&& b.2 == (layers[order.panels@[p] as int].kind is Frame
                && layers[order.panels@[p] as int].kind->Frame_0.reading_pin is Some)
        },
        badge(None, layers, p) is None,
{
    law_a_place_is_the_first(order.panels@, order.panels@[p] as int);
}

/// A layer that follows its place has the number of the place behind the word,
/// and one that is not in the order keeps its name.
pub proof fn law_a_name_has_the_number_of_its_place(name: Seq<char>, panels: Seq<usize>, i: int, p: int)
    ensures
        0 <= p < panels.len() && panels[p] == i && (forall|j: int| 0 <= j < p ==> #[trigger] panels[j] != i)
            && default_name(name) ==> ordered_name(name, panels, i) == "Frame "@ + text::dec((p + 1) as nat),
        !default_name(name) ==> ordered_name(name, panels, i) == name,
        (forall|j: int| 0 <= j < panels.len() ==> #[trigger] panels[j] != i) ==> ordered_name(name, panels, i) == name,
{
    law_a_place_is_the_first(panels, i);
}

/// A pin that was set is the one that is read, and no other layer changes; what
/// holds no panels takes none.
pub proof fn law_a_pin_is_read_back(layers: Seq<Layer>, li: int, pin: Option<u32>, j: int)
    requires
        0 <= li < layers.len(),
    ensures
        pinned(layers, li, pin).len() == layers.len(),
        layers[li].kind is Frame ==> pin_of(pinned(layers, li, pin), li) == pin,
        layers[li].kind is Frame ==> pinned(layers, li, pin)[li].kind->Frame_0.frames == layers[li].kind->Frame_0.frames,
        !(layers[li].kind is Frame) ==> pinned(layers, li, pin) == layers && pin_of(layers, li) is None,
        0 <= j < layers.len() && j != li ==> pinned(layers, li, pin)[j] == layers[j],
        pinned(layers, li, pin)[li].name == layers[li].name && pinned(layers, li, pin)[li].id == layers[li].id,
{
}

/// A step moves a pin by its size, and stops at the first place.
pub proof fn law_a_pin_steps_by_its_size(base: u32, delta: i32)
    ensures
        1 <= base + delta <= u32::MAX ==> next_pin(base, delta) == base + delta,
        base + delta < 1 ==> next_pin(base, delta) == 1,
        base + delta > u32::MAX ==> next_pin(base, delta) == u32::MAX,
{
}

/// The kept order is good only for the revision that it was made for.
pub proof fn law_an_order_ages_with_the_document(app: App)
    ensures
        app.frames.order is None ==> app.order_is_stale(),
        app.frames.order is Some ==> app.order_is_stale() == (app.frames.order_rev != app.doc.revision),
{
}

/// Panels of an ambiguous layout are counted one by one.
pub proof fn law_ambiguous_panels_are_counted(v: Seq<bool>, b: bool)
    ensures
        count_set(v.push(b)) == count_set(v) + (if b { 1nat } else { 0nat }),
        count_set(seq![]) == 0,
        count_set(v) <= v.len(),
        ambiguity_notice(count_set(v)) == "panel order: "@ + text::dec(count_set(v))
            + " panel(s) in an ambiguous layout — check the badges"@,
    decreases v.len(),
{
    assert(v.push(b).drop_last() =~= v);
    if v.len() > 0 {
        law_ambiguous_panels_are_counted(v.drop_last(), v.last());
        assert(v.drop_last().push(v.last()) =~= v);
    }
}

/// The reading order is asked for every frame folder, from the bottom up, with
/// its pin, and for nothing else.
pub proof fn law_every_frame_folder_is_asked_for(layers: Seq<Layer>, n: int, li: int)
    requires
        0 <= n <= layers.len(),
        layers.len() <= usize::MAX,
    ensures
        0 <= li < n && layers[li].folder && layers[li].kind is Frame ==> folders(layers, n).contains(
            (Folder { layer: li as usize, pin: layers[li].kind->Frame_0.reading_pin }),
        ) && has_folders(layers),
        forall|k: int|
            0 <= k < folders(layers, n).len() ==> ({
                let f = #[trigger] folders(layers, n)[k];
                f.layer < n && layers[f.layer as int].folder && layers[f.layer as int].kind is Frame && f.pin
                    == layers[f.layer as int].kind->Frame_0.reading_pin
            }),
        forall|k: int, m: int|
            0 <= k < m < folders(layers, n).len() ==> (#[trigger] folders(layers, n)[k]).layer < (#[trigger] folders(
                layers,
                n,
            )[m]).layer,
    decreases n,
{
    if n > 0 {
        law_every_frame_folder_is_asked_for(layers, n - 1, li);
        let before = folders(layers, n - 1);
        let all = folders(layers, n);
        if 0 <= li < n && layers[li].folder && layers[li].kind is Frame {
            let f = Folder { layer: li as usize, pin: layers[li].kind->Frame_0.reading_pin };
            if li == n - 1 {
                assert(all[before.len() as int] == f);
            } else {
                let k = choose|k: int| 0 <= k < before.len() && before[k] == f;
                assert(all[k] == f);
            }
            assert(layers[li].is_frame_spec());
        }
        assert forall|k: int| 0 <= k < all.len() implies ({
            let f = #[trigger] all[k];
            f.layer < n && layers[f.layer as int].folder && layers[f.layer as int].kind is Frame && f.pin
                == layers[f.layer as int].kind->Frame_0.reading_pin
        }) by {
            if k < before.len() {
                assert(all[k] == before[k]);
            }
        }
        assert forall|k: int, m: int| 0 <= k < m < all.len() implies (#[trigger] all[k]).layer < (#[trigger] all[m]).layer by {
            assert(all[k] == before[k]);
            if m < before.len() {
                assert(all[m] == before[m]);
            }
        }
    }
}

/// The border rulers that are wanted stand behind all others; where they are as
/// they were, nothing changes. Rulers that appear switch snapping on, and none
/// switches it off.
pub proof fn law_border_rulers_stand_last(before: Rulers, had: Seq<CurveRuler>, want: Seq<CurveRuler>, after: Rulers, k: int)
    requires
        synced(before, had, want, after),
    ensures
        after.items == before.items,
        before.on ==> after.on,
        (want.len() == had.len() && forall|i: int|
            0 <= i < want.len() ==> (#[trigger] want[i]).pts@.len() == had[i].pts@.len() && forall|j: int|
                0 <= j < want[i].pts@.len() ==> floats::together(#[trigger] want[i].pts@[j], had[i].pts@[j])) ==> after == before,
        want.len() != had.len() ==> {
            &&& want.len() > 0 ==> after.on
            &&& want.len() == 0 ==> after.on == before.on
            &&& after.curves@.len() >= want.len()
            &&& 0 <= k < want.len() ==> after.curves@[after.curves@.len() - want.len() + k].pts@ == want[k].pts@
        },
{
    if want.len() == had.len() && forall|i: int|
        0 <= i < want.len() ==> (#[trigger] want[i]).pts@.len() == had[i].pts@.len() && forall|j: int|
            0 <= j < want[i].pts@.len() ==> floats::together(#[trigger] want[i].pts@[j], had[i].pts@[j]) {
        assert forall|i: int| 0 <= i < curves(want).len() implies same_curve(#[trigger] curves(want)[i], curves(had)[i]) by {
            assert(want[i].pts@.len() == had[i].pts@.len());
        }
    }
    if want.len() != had.len() {
        let r = retracted(curves(before.curves@), curves(had));
        assert(curves(after.curves@).len() == r.len() + want.len());
        if 0 <= k < want.len() {
            assert(curves(after.curves@)[r.len() + k] == curves(want)[k]);
        }
    }
}

/// A new reading order is kept for its revision, where there is a frame folder
/// and a panel to order; an ambiguous one is announced where that is asked for.
pub proof fn law_a_reading_order_is_kept(
    app: App,
    after: App,
    layers: Seq<Layer>,
    announce: bool,
    dirty: bool,
    want: Vec<CurveRuler>,
    order: ReadingOrder,
)
    requires
        app.reordered(after, layers, announce, dirty, want, order),
    ensures
        after.frames.order_rev == app.doc.revision,
        after.doc.revision == app.doc.revision,
        after.doc.active == app.doc.active,
        after.doc.undo_labels == app.doc.undo_labels,
        after.shell.cmds == app.shell.cmds,
        after.work.dirty == (app.work.dirty || dirty),
        after.doc.layers@.len() == layers.len(),
        after.doc.rulers.items == app.doc.rulers.items,
        app.doc.rulers.on ==> after.doc.rulers.on,
        want@.len() > app.frames.rulers@.len() ==> after.doc.rulers.on && after.doc.rulers.curves@.len() >= want@.len()
            && after.frames.rulers == want && after.shell.needs_redraw,
        ({
            let listed = order.panels@.len() > 0 && exists|i: int|
                0 <= i < layers.len() && (#[trigger] layers[i]).folder && layers[i].kind is Frame;
            let n = count_set(order.ambiguous@);
            &&& listed ==> after.frames.order == Some(order) && after.shell.needs_redraw
            &&& !listed ==> after.frames.order is None && after.doc.layers@ == layers
            &&& listed && announce && n > 0 ==> after.shell.status@ == "panel order: "@ + text::dec(n)
                + " panel(s) in an ambiguous layout — check the badges"@
            &&& !(listed && announce && n > 0) ==> after.shell.status@ == app.shell.status@
        }),
{
    law_border_rulers_stand_last(app.doc.rulers, app.frames.rulers@, want@, after.doc.rulers, 0);
    if exists|i: int| 0 <= i < layers.len() && (#[trigger] layers[i]).folder && layers[i].kind is Frame {
        let i = choose|i: int| 0 <= i < layers.len() && (#[trigger] layers[i]).folder && layers[i].kind is Frame;
        assert(layers[i].is_frame_spec());
    }
    if has_folders(layers) {
        let i = choose|i: int| 0 <= i < layers.len() && (#[trigger] layers[i]).folder && layers[i].is_frame_spec();
        assert(layers[i].kind is Frame);
    }
}

/// A step of the reading position starts from the pin, or from the place where
/// there is none, and pins the layer there; a layer without a place stays.
pub proof fn law_a_step_pins_the_next_place(
    app: App,
    after: App,
    li: usize,
    delta: i32,
    want: Vec<CurveRuler>,
    order: ReadingOrder,
)
    requires
        app.pin_stepped(after, li, delta, want, order),
        li < app.doc.layers@.len(),
    ensures
        app.frames.order is None ==> after == app,
        app.frames.order matches Some(o) ==> (forall|j: int| 0 <= j < o.panels@.len() ==> #[trigger] o.panels@[j] != li)
            ==> after == app,
        badge(app.frames.order, app.doc.layers@, li as int) is Some && app.doc.layers@[li as int].kind is Frame ==> {
            let base = match app.doc.layers@[li as int].kind->Frame_0.reading_pin {
                Some(p) => p,
                None => (badge(app.frames.order, app.doc.layers@, li as int)->0).0 as u32,
            };
            &&& after.work.dirty
            &&& after.doc.layers@[li as int].kind is Frame
            &&& 1 <= base + delta <= u32::MAX ==> after.doc.layers@[li as int].kind->Frame_0.reading_pin == Some(
                (base + delta) as u32,
            )
            &&& base + delta < 1 ==> after.doc.layers@[li as int].kind->Frame_0.reading_pin == Some(1u32)
        },
{
    if let Some(o) = app.frames.order {
        law_a_place_is_the_first(o.panels@, li as int);
    }
    if badge(app.frames.order, app.doc.layers@, li as int) is Some && app.doc.layers@[li as int].kind is Frame {
        let base = match pin_of(app.doc.layers@, li as int) {
            Some(p) => p,
            None => (badge(app.frames.order, app.doc.layers@, li as int)->0).0 as u32,
        };
        let p = pinned(app.doc.layers@, li as int, Some(next_pin(base, delta)));
        assert(p[li as int].kind is Frame);
        if has_folders(p) && order.panels@.len() > 0 {
            assert(after.doc.layers@[li as int] == (Layer { name: after.doc.layers@[li as int].name, ..p[li as int] }));
        }
    }
}

} // verus!
