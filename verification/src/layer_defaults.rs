//! Save as default: a layer's presentation becomes the starting point for the
//! next layer of its type.
//!
//! The defaults are `type.field=value` lines. Faults cost a line or a field,
//! never the file: a line that cannot be read is dropped, a value that cannot
//! be read leaves its property alone, and a key that is not known is kept.

use vstd::prelude::*;
use crate::app::App;
use crate::doc::{Document, FULL, Layer, LayerKind};
use crate::geom::Rgb;
use crate::text;

verus! {

/// The variants of a live fill.
#[derive(Clone, Copy, PartialEq, Eq, Structural, Debug)]
pub enum FillVariant {
    Flat,
    Gradient,
    Tone,
}

/// What a save does to the file.
#[derive(Debug)]
pub enum Save {
    Nothing,
    Delete,
    Write(String),
}

/// One saved line.
#[derive(Debug)]
pub struct Row {
    pub key: String,
    pub value: String,
}

/// The saved defaults, one row per key, in the order of the keys.
#[derive(Debug)]
pub struct LayerDefaults {
    pub rows: Vec<Row>,
    pub dirty: bool,
}

/// Does `a` come before `b`, character by character?
pub open spec fn before(a: Seq<char>, b: Seq<char>) -> bool
    decreases a.len(),
{
    if b.len() == 0 {
        false
    } else if a.len() == 0 {
        true
    } else if a[0] != b[0] {
        (a[0] as int) < (b[0] as int)
    } else {
        before(a.skip(1), b.skip(1))
    }
}

pub(crate) proof fn lemma_before_irreflexive(a: Seq<char>)
    ensures
        !before(a, a),
    decreases a.len(),
{
    if a.len() > 0 {
        lemma_before_irreflexive(a.skip(1));
    }
}

pub(crate) proof fn lemma_before_transitive(a: Seq<char>, b: Seq<char>, c: Seq<char>)
    requires
        before(a, b),
        before(b, c),
    ensures
        before(a, c),
    decreases a.len(),
{
    if a.len() > 0 && b.len() > 0 && c.len() > 0 && a[0] == b[0] && b[0] == c[0] {
        lemma_before_transitive(a.skip(1), b.skip(1), c.skip(1));
    }
}

pub(crate) proof fn lemma_before_total(a: Seq<char>, b: Seq<char>)
    ensures
        before(a, b) || before(b, a) || a == b,
    decreases a.len(),
{
    if a.len() > 0 && b.len() > 0 && a[0] == b[0] {
        lemma_before_total(a.skip(1), b.skip(1));
        if a.skip(1) == b.skip(1) {
            assert(a =~= seq![a[0]] + a.skip(1));
            assert(b =~= seq![b[0]] + b.skip(1));
        }
    } else if a.len() == 0 && b.len() == 0 {
        assert(a =~= b);
    }
}

/// How two keys stand to each other.
pub(crate) enum Place {
    Below,
    Same,
    Above,
}

pub(crate) fn place(a: &str, b: &str) -> (r: Place)
    ensures
        match r {
            Place::Below => before(a@, b@),
            Place::Same => a@ == b@,
            Place::Above => before(b@, a@),
        },
{
    let x = text::to_chars(a);
    let y = text::to_chars(b);
    let mut i: usize = 0;
    proof {
        assert(x@.skip(0) =~= x@);
        assert(y@.skip(0) =~= y@);
    }
    while i < x.len() && i < y.len()
        invariant
            i <= x.len(),
            i <= y.len(),
            x@ == a@,
            y@ == b@,
            before(a@, b@) == before(x@.skip(i as int), y@.skip(i as int)),
            before(b@, a@) == before(y@.skip(i as int), x@.skip(i as int)),
            forall|j: int| 0 <= j < i ==> x@[j] == y@[j],
        decreases x.len() - i,
    {
        proof {
            assert(x@.skip(i as int).skip(1) =~= x@.skip(i as int + 1));
            assert(y@.skip(i as int).skip(1) =~= y@.skip(i as int + 1));
        }
        let c: char = x[i];
        let d: char = y[i];
        if c < d {
            return Place::Below;
        }
        if d < c {
            return Place::Above;
        }
        i = i + 1;
    }
    if x.len() == y.len() {
        assert(x@ =~= y@);
        Place::Same
    } else if x.len() < y.len() {
        Place::Below
    } else {
        Place::Above
    }
}

/// The type of layer that a default belongs to, most specific first.
pub open spec fn kind_key_spec(l: Layer) -> Seq<char> {
    if l.folder {
        if l.kind is Frame {
            "frame-folder"@
        } else {
            "folder"@
        }
    } else {
        match l.kind {
            LayerKind::Text(_) => "text"@,
            LayerKind::Balloon(_) => "balloon"@,
            LayerKind::Frame(_) => "frame"@,
            LayerKind::FillFlat => "fill"@,
            LayerKind::FillGradient => "gradient"@,
            LayerKind::FillTone => "tone"@,
            LayerKind::Correction => "correction"@,
            LayerKind::Raster => if l.strokes {
                "vector"@
            } else {
                "raster"@
            },
        }
    }
}

/// The type of layer that a default belongs to: the key's prefix.
pub fn kind_key(l: &Layer) -> (r: &'static str)
    ensures
        r@ == kind_key_spec(*l),
{
    if l.folder {
        return if l.is_frame() {
            "frame-folder"
        } else {
            "folder"
        };
    }
    match &l.kind {
        LayerKind::Text(_) => "text",
        LayerKind::Balloon(_) => "balloon",
        LayerKind::Frame(_) => "frame",
        LayerKind::FillFlat => "fill",
        LayerKind::FillGradient => "gradient",
        LayerKind::FillTone => "tone",
        LayerKind::Correction => "correction",
        LayerKind::Raster => if l.strokes {
            "vector"
        } else {
            "raster"
        },
    }
}

/// The types whose creation reads a saved default.
pub open spec fn applies_to_spec(key: Seq<char>) -> bool {
    ||| key == "raster"@
    ||| key == "vector"@
    ||| key == "folder"@
    ||| key == "fill"@
    ||| key == "gradient"@
    ||| key == "tone"@
    ||| key == "correction"@
}

/// Does creating a layer of this type read a saved default? The other types
/// are made by a tool, out of that tool's own settings.
pub fn applies_to(key: &str) -> (r: bool)
    ensures
        r == applies_to_spec(key@),
{
    text::same(key, "raster") || text::same(key, "vector") || text::same(key, "folder")
        || text::same(key, "fill") || text::same(key, "gradient") || text::same(key, "tone")
        || text::same(key, "correction")
}

/// The type in words, for a status line.
pub open spec fn kind_label_spec(key: Seq<char>) -> Seq<char> {
    if key == "raster"@ {
        "raster layers"@
    } else if key == "vector"@ {
        "vector layers"@
    } else if key == "folder"@ {
        "folders"@
    } else if key == "fill"@ {
        "fill layers"@
    } else if key == "gradient"@ {
        "gradient layers"@
    } else if key == "tone"@ {
        "tone layers"@
    } else if key == "correction"@ {
        "correction layers"@
    } else if key == "text"@ {
        "text layers"@
    } else if key == "balloon"@ {
        "balloon layers"@
    } else if key == "frame"@ {
        "frame layers"@
    } else if key == "frame-folder"@ {
        "frame folders"@
    } else {
        "layers of this type"@
    }
}

/// The type in words, for a status line: "... for new tone layers".
pub fn kind_label(key: &str) -> (r: &'static str)
    ensures
        r@ == kind_label_spec(key@),
{
    if text::same(key, "raster") {
        "raster layers"
    } else if text::same(key, "vector") {
        "vector layers"
    } else if text::same(key, "folder") {
        "folders"
    } else if text::same(key, "fill") {
        "fill layers"
    } else if text::same(key, "gradient") {
        "gradient layers"
    } else if text::same(key, "tone") {
        "tone layers"
    } else if text::same(key, "correction") {
        "correction layers"
    } else if text::same(key, "text") {
        "text layers"
    } else if text::same(key, "balloon") {
        "balloon layers"
    } else if text::same(key, "frame") {
        "frame layers"
    } else if text::same(key, "frame-folder") {
        "frame folders"
    } else {
        "layers of this type"
    }
}

/// Where the file lies, for the panel's hover text; its bare name where no
/// place is known.
pub fn path_hint(path: Option<&str>) -> (r: String)
    ensures
        r@ == (match path {
            Some(p) => p@,
            None => "layer_defaults.txt"@,
        }),
{
    match path {
        Some(p) => text::own(p),
        None => text::own("layer_defaults.txt"),
    }
}

/// The fields that a capture writes and that forgetting a type drops.
pub open spec fn is_field(f: Seq<char>) -> bool {
    ||| f == "opacity"@
    ||| f == "blend"@
    ||| f == "colour"@
    ||| f == "sub_colour"@
    ||| f == "expression"@
    ||| f == "tone"@
    ||| f == "edge"@
    ||| f == "fill"@
}

/// The key of a type's field.
pub open spec fn full_key(key: Seq<char>, field: Seq<char>) -> Seq<char> {
    key + "."@ + field
}

fn make_key(key: &str, field: &str) -> (r: String)
    ensures
        r@ == full_key(key@, field@),
{
    let mut r = text::own(key);
    r.append(".");
    r.append(field);
    r
}

impl LayerDefaults {
    /// The keys rise strictly, so none occurs twice.
    pub open spec fn wf(self) -> bool {
        forall|i: int, j: int|
            0 <= i < j < self.rows@.len() ==> before(
                #[trigger] self.rows@[i].key@,
                #[trigger] self.rows@[j].key@,
            )
    }

    /// The rows as pairs.
    pub open spec fn entries(self) -> Seq<(Seq<char>, Seq<char>)> {
        Seq::new(self.rows@.len(), |i: int| (self.rows@[i].key@, self.rows@[i].value@))
    }

    /// What each key is set to.
    pub open spec fn map(self) -> Map<Seq<char>, Seq<char>> {
        entries_map(self.entries())
    }
}

/// What each key is set to, where a later pair wins.
pub open spec fn entries_map(e: Seq<(Seq<char>, Seq<char>)>) -> Map<Seq<char>, Seq<char>>
    decreases e.len(),
{
    if e.len() == 0 {
        Map::empty()
    } else {
        entries_map(e.drop_last()).insert(e.last().0, e.last().1)
    }
}

proof fn lemma_entries_map(e: Seq<(Seq<char>, Seq<char>)>)
    requires
        forall|i: int, j: int| 0 <= i < j < e.len() ==> (#[trigger] e[i]).0 != (#[trigger] e[j]).0,
    ensures
        forall|k: Seq<char>| #[trigger]
            entries_map(e).contains_key(k) <==> exists|i: int| 0 <= i < e.len() && (#[trigger] e[i]).0 == k,
        forall|i: int| 0 <= i < e.len() ==> entries_map(e)[(#[trigger] e[i]).0] == e[i].1,
    decreases e.len(),
{
    if e.len() > 0 {
        let d = e.drop_last();
        assert forall|i: int, j: int| 0 <= i < j < d.len() implies (#[trigger] d[i]).0 != (#[trigger] d[j]).0 by {
            assert(d[i] == e[i] && d[j] == e[j]);
        }
        lemma_entries_map(d);
        assert forall|k: Seq<char>| #[trigger] entries_map(e).contains_key(k) <==> exists|i: int|
            0 <= i < e.len() && (#[trigger] e[i]).0 == k by {
            if entries_map(e).contains_key(k) {
                if k == e.last().0 {
                    assert(e[e.len() - 1].0 == k);
                } else {
                    assert(entries_map(d).contains_key(k));
                    let i = choose|i: int| 0 <= i < d.len() && (#[trigger] d[i]).0 == k;
                    assert(e[i].0 == k);
                }
            }
            if exists|i: int| 0 <= i < e.len() && (#[trigger] e[i]).0 == k {
                let i = choose|i: int| 0 <= i < e.len() && (#[trigger] e[i]).0 == k;
                if i < d.len() {
                    assert(d[i].0 == k);
                    assert(entries_map(d).contains_key(k));
                }
            }
        }
        assert forall|i: int| 0 <= i < e.len() implies entries_map(e)[(#[trigger] e[i]).0] == e[i].1 by {
            if i < d.len() {
                assert(d[i] == e[i]);
                assert(e[i].0 != e[e.len() - 1].0);
            }
        }
    }
}

/// What a line sets: nothing where it is empty, a comment, without an equals
/// sign, or where its key has no type in front of a dot.
pub open spec fn line_entry(line: Seq<char>) -> Option<(Seq<char>, Seq<char>)> {
    let t = text::trim(line);
    let k = text::find(t, '=');
    let key = text::trim(t.take(k));
    if t.len() == 0 || t[0] == '#' || k >= t.len() || key.len() == 0 || !text::holds(key, '.') {
        None
    } else {
        Some((key, text::trim(t.skip(k + 1))))
    }
}

/// What the lines set, where a later line wins.
pub open spec fn lines_map(ls: Seq<Seq<char>>) -> Map<Seq<char>, Seq<char>>
    decreases ls.len(),
{
    if ls.len() == 0 {
        Map::empty()
    } else {
        match line_entry(ls.last()) {
            Some((k, v)) => lines_map(ls.drop_last()).insert(k, v),
            None => lines_map(ls.drop_last()),
        }
    }
}

/// The rows as lines.
pub open spec fn body(e: Seq<(Seq<char>, Seq<char>)>) -> Seq<char>
    decreases e.len(),
{
    if e.len() == 0 {
        seq![]
    } else {
        body(e.drop_last()) + e.last().0 + seq!['='] + e.last().1 + seq!['\n']
    }
}

/// What a field is set to, where it is set to anything.
pub open spec fn field(
    m: Map<Seq<char>, Seq<char>>,
    key: Seq<char>,
    f: Seq<char>,
) -> Option<Seq<char>> {
    let k = full_key(key, f);
    if m.contains_key(k) && m[k].len() > 0 {
        Some(m[k])
    } else {
        None
    }
}

/// The map with a field set, or with it gone.
pub open spec fn put_field(
    m: Map<Seq<char>, Seq<char>>,
    key: Seq<char>,
    f: Seq<char>,
    v: Option<Seq<char>>,
) -> Map<Seq<char>, Seq<char>> {
    match v {
        Some(x) => m.insert(full_key(key, f), x),
        None => m.remove(full_key(key, f)),
    }
}

/// The view of an optional string.
pub open spec fn opt_view(s: Option<String>) -> Option<Seq<char>> {
    match s {
        Some(x) => Some(x@),
        None => None,
    }
}

/// Is any field of this type set?
pub open spec fn has_any(m: Map<Seq<char>, Seq<char>>, key: Seq<char>) -> bool {
    ||| field(m, key, "opacity"@) is Some
    ||| field(m, key, "blend"@) is Some
    ||| field(m, key, "colour"@) is Some
    ||| field(m, key, "sub_colour"@) is Some
    ||| field(m, key, "expression"@) is Some
    ||| field(m, key, "tone"@) is Some
    ||| field(m, key, "edge"@) is Some
    ||| field(m, key, "fill"@) is Some
}

proof fn lemma_distinct(d: LayerDefaults)
    requires
        d.wf(),
    ensures
        forall|i: int, j: int|
            0 <= i < j < d.entries().len() ==> (#[trigger] d.entries()[i]).0 != (
            #[trigger] d.entries()[j]).0,
{
    assert forall|i: int, j: int| 0 <= i < j < d.entries().len() implies (
    #[trigger] d.entries()[i]).0 != (#[trigger] d.entries()[j]).0 by {
        lemma_before_irreflexive(d.rows@[i].key@);
        assert(before(d.rows@[i].key@, d.rows@[j].key@));
    }
}

/// A key is set exactly where a row has it, to that row's value.
proof fn lemma_map_rows(d: LayerDefaults)
    requires
        d.wf(),
    ensures
        forall|k: Seq<char>| #[trigger]
            d.map().contains_key(k) <==> exists|i: int| 0 <= i < d.rows@.len() && (#[trigger] d.rows@[i]).key@ == k,
        forall|i: int| 0 <= i < d.rows@.len() ==> d.map()[(#[trigger] d.rows@[i]).key@] == d.rows@[i].value@,
{
    lemma_distinct(d);
    lemma_entries_map(d.entries());
    let e = d.entries();
    assert forall|k: Seq<char>| #[trigger] d.map().contains_key(k) <==> exists|i: int|
        0 <= i < d.rows@.len() && (#[trigger] d.rows@[i]).key@ == k by {
        if d.map().contains_key(k) {
            let i = choose|i: int| 0 <= i < e.len() && (#[trigger] e[i]).0 == k;
            assert(d.rows@[i].key@ == k);
        }
        if exists|i: int| 0 <= i < d.rows@.len() && (#[trigger] d.rows@[i]).key@ == k {
            let i = choose|i: int| 0 <= i < d.rows@.len() && (#[trigger] d.rows@[i]).key@ == k;
            assert(e[i].0 == k);
        }
    }
    assert forall|i: int| 0 <= i < d.rows@.len() implies d.map()[(#[trigger] d.rows@[i]).key@]
        == d.rows@[i].value@ by {
        assert(e[i].0 == d.rows@[i].key@);
    }
}

impl LayerDefaults {
    /// No defaults at all.
    pub fn new() -> (r: LayerDefaults)
        ensures
            r.wf(),
            r.map() == Map::<Seq<char>, Seq<char>>::empty(),
            r.rows@.len() == 0,
            !r.dirty,
    {
        let r = LayerDefaults { rows: Vec::new(), dirty: false };
        assert(r.entries() =~= seq![]);
        r
    }

    /// Where the key stands, or where it would.
    fn seek(&self, k: &str) -> (r: (usize, bool))
        requires
            self.wf(),
        ensures
            r.0 <= self.rows@.len(),
            r.1 ==> r.0 < self.rows@.len() && self.rows@[r.0 as int].key@ == k@,
            forall|i: int| 0 <= i < r.0 ==> before((#[trigger] self.rows@[i]).key@, k@),
            !r.1 ==> forall|i: int| r.0 <= i < self.rows@.len() ==> before(k@, (#[trigger] self.rows@[i]).key@),
    {
        let mut i: usize = 0;
        while i < self.rows.len()
            invariant
                self.wf(),
                i <= self.rows@.len(),
                forall|j: int| 0 <= j < i ==> before((#[trigger] self.rows@[j]).key@, k@),
            decreases self.rows.len() - i,
        {
            match place(self.rows[i].key.as_str(), k) {
                Place::Below => {},
                Place::Same => {
                    return (i, true);
                },
                Place::Above => {
                    proof {
                        assert forall|j: int| i <= j < self.rows@.len() implies before(
                            k@,
                            (#[trigger] self.rows@[j]).key@,
                        ) by {
                            if j > i {
                                lemma_before_transitive(
                                    k@,
                                    self.rows@[i as int].key@,
                                    self.rows@[j].key@,
                                );
                            }
                        }
                    }
                    return (i, false);
                },
            }
            i = i + 1;
        }
        (i, false)
    }

    proof fn lemma_not_set(self, k: Seq<char>, p: int)
        requires
            self.wf(),
            0 <= p <= self.rows@.len(),
            forall|i: int| 0 <= i < p ==> before((#[trigger] self.rows@[i]).key@, k),
            forall|i: int| p <= i < self.rows@.len() ==> before(k, (#[trigger] self.rows@[i]).key@),
        ensures
            !self.map().contains_key(k),
    {
        lemma_map_rows(self);
        if self.map().contains_key(k) {
            let i = choose|i: int| 0 <= i < self.rows@.len() && (#[trigger] self.rows@[i]).key@ == k;
            lemma_before_irreflexive(k);
            assert(false);
        }
    }

    /// Sets a key.
    fn insert(&mut self, k: String, v: String)
        requires
            old(self).wf(),
        ensures
            final(self).wf(),
            final(self).map() == old(self).map().insert(k@, v@),
            final(self).dirty == old(self).dirty,
    {
        let (p, hit) = self.seek(k.as_str());
        let ghost was = *self;
        let ghost (gk, gv) = (k@, v@);
        if hit {
            self.rows[p].value = v;
            proof {
                let now = *self;
                assert forall|i: int| 0 <= i < now.rows@.len() implies now.rows@[i].key@ == was.rows@[i].key@ by {}
                assert(now.wf()) by {
                    assert forall|i: int, j: int| 0 <= i < j < now.rows@.len() implies before(
                        #[trigger] now.rows@[i].key@,
                        #[trigger] now.rows@[j].key@,
                    ) by {
                        assert(before(was.rows@[i].key@, was.rows@[j].key@));
                    }
                }
                lemma_map_rows(was);
                lemma_map_rows(now);
                lemma_same_map(now.map(), was.map().insert(gk, gv), now, was, gk, p as int);
            }
        } else {
            self.rows.insert(p, Row { key: k, value: v });
            proof {
                let now = *self;
                let s = was.rows@;
                let t = now.rows@;
                assert(t =~= s.insert(p as int, t[p as int]));
                assert forall|i: int| 0 <= i < t.len() implies #[trigger] t[i] == (if i < p {
                    s[i]
                } else if i == p {
                    t[p as int]
                } else {
                    s[i - 1]
                }) by {}
                assert forall|i: int, j: int| 0 <= i < j < t.len() implies before(
                    #[trigger] t[i].key@,
                    #[trigger] t[j].key@,
                ) by {
                    let a = if i < p {
                        i
                    } else {
                        i - 1
                    };
                    let b = if j < p {
                        j
                    } else {
                        j - 1
                    };
                    if i != p && j != p {
                        assert(before(s[a].key@, s[b].key@));
                    } else if i == p {
                        assert(before(gk, s[b].key@));
                    } else {
                        assert(before(s[a].key@, gk));
                    }
                }
                lemma_map_rows(was);
                lemma_map_rows(now);
                assert(now.map() =~= was.map().insert(gk, gv)) by {
                    assert forall|x: Seq<char>| #[trigger] now.map().contains_key(x)
                        <==> was.map().insert(gk, gv).contains_key(x) by {
                        if now.map().contains_key(x) {
                            let i = choose|i: int| 0 <= i < t.len() && (#[trigger] t[i]).key@ == x;
                            if i < p {
                                assert(s[i].key@ == x);
                            } else if i > p {
                                assert(s[i - 1].key@ == x);
                            }
                        }
                        if was.map().contains_key(x) {
                            let i = choose|i: int| 0 <= i < s.len() && (#[trigger] s[i]).key@ == x;
                            let j = if i < p {
                                i
                            } else {
                                i + 1
                            };
                            assert(t[j].key@ == x);
                        }
                        if x == gk {
                            assert(t[p as int].key@ == gk);
                        }
                    }
                    assert forall|x: Seq<char>| #[trigger] now.map().contains_key(x) implies now.map()[x]
                        == was.map().insert(gk, gv)[x] by {
                        let i = choose|i: int| 0 <= i < t.len() && (#[trigger] t[i]).key@ == x;
                        was.lemma_not_set(gk, p as int);
                        if i < p {
                            assert(s[i].key@ == x);
                        } else if i > p {
                            assert(s[i - 1].key@ == x);
                        }
                    }
                }
            }
        }
    }

    /// Drops a key.
    fn remove(&mut self, k: &str)
        requires
            old(self).wf(),
        ensures
            final(self).wf(),
            final(self).map() == old(self).map().remove(k@),
            final(self).dirty == old(self).dirty,
    {
        let (p, hit) = self.seek(k);
        let ghost was = *self;
        if hit {
            self.rows.remove(p);
            proof {
                let now = *self;
                let s = was.rows@;
                let t = now.rows@;
                assert(t =~= s.remove(p as int));
                assert forall|i: int| 0 <= i < t.len() implies #[trigger] t[i] == (if i < p {
                    s[i]
                } else {
                    s[i + 1]
                }) by {}
                assert forall|i: int, j: int| 0 <= i < j < t.len() implies before(
                    #[trigger] t[i].key@,
                    #[trigger] t[j].key@,
                ) by {
                    let a = if i < p {
                        i
                    } else {
                        i + 1
                    };
                    let b = if j < p {
                        j
                    } else {
                        j + 1
                    };
                    assert(before(s[a].key@, s[b].key@));
                }
                lemma_map_rows(was);
                lemma_map_rows(now);
                lemma_distinct(was);
                assert(now.map() =~= was.map().remove(k@)) by {
                    assert forall|x: Seq<char>| #[trigger] now.map().contains_key(x)
                        <==> was.map().remove(k@).contains_key(x) by {
                        if now.map().contains_key(x) {
                            let i = choose|i: int| 0 <= i < t.len() && (#[trigger] t[i]).key@ == x;
                            let a = if i < p {
                                i
                            } else {
                                i + 1
                            };
                            assert(s[a].key@ == x);
                            let e = was.entries();
                            assert(e[a].0 == x && e[p as int].0 == k@);
                        }
                        if was.map().remove(k@).contains_key(x) {
                            let i = choose|i: int| 0 <= i < s.len() && (#[trigger] s[i]).key@ == x;
                            let j = if i < p {
                                i
                            } else {
                                i - 1
                            };
                            assert(t[j].key@ == x);
                        }
                    }
                    assert forall|x: Seq<char>| #[trigger] now.map().contains_key(x) implies now.map()[x]
                        == was.map().remove(k@)[x] by {
                        let i = choose|i: int| 0 <= i < t.len() && (#[trigger] t[i]).key@ == x;
                        let a = if i < p {
                            i
                        } else {
                            i + 1
                        };
                        assert(s[a].key@ == x);
                    }
                }
            }
        } else {
            proof {
                was.lemma_not_set(k@, p as int);
                assert(was.map() =~= was.map().remove(k@));
            }
        }
    }
}

proof fn lemma_same_map(
    a: Map<Seq<char>, Seq<char>>,
    b: Map<Seq<char>, Seq<char>>,
    now: LayerDefaults,
    was: LayerDefaults,
    k: Seq<char>,
    p: int,
)
    requires
        now.wf(),
        was.wf(),
        a == now.map(),
        b == was.map().insert(k, now.rows@[p].value@),
        now.rows@.len() == was.rows@.len(),
        0 <= p < now.rows@.len(),
        was.rows@[p].key@ == k,
        forall|i: int| 0 <= i < now.rows@.len() ==> (#[trigger] now.rows@[i]).key@ == was.rows@[i].key@,
        forall|i: int| 0 <= i < now.rows@.len() && i != p ==> (#[trigger] now.rows@[i]).value@ == was.rows@[i].value@,
    ensures
        a == b,
{
    lemma_map_rows(was);
    lemma_map_rows(now);
    lemma_distinct(was);
    assert forall|x: Seq<char>| #[trigger] a.contains_key(x) <==> b.contains_key(x) by {
        if a.contains_key(x) {
            let i = choose|i: int| 0 <= i < now.rows@.len() && (#[trigger] now.rows@[i]).key@ == x;
            assert(was.rows@[i].key@ == x);
        }
        if was.map().contains_key(x) {
            let i = choose|i: int| 0 <= i < was.rows@.len() && (#[trigger] was.rows@[i]).key@ == x;
            assert(now.rows@[i].key@ == x);
        }
        if x == k {
            assert(now.rows@[p].key@ == k);
        }
    }
    assert forall|x: Seq<char>| #[trigger] a.contains_key(x) implies a[x] == b[x] by {
        let i = choose|i: int| 0 <= i < now.rows@.len() && (#[trigger] now.rows@[i]).key@ == x;
        assert(was.rows@[i].key@ == x);
        if i != p {
            let e = was.entries();
            assert(e[i].0 == x && e[p].0 == k);
            assert(x != k);
        }
    }
    assert(a =~= b);
}

/// What the stored texts read as, where reading them takes more than text: a
/// number of floating point, the names of the modes, and stored parameters.
#[derive(Clone, Copy, Debug)]
pub struct Readings {
    /// The opacity, where the text is a number.
    pub opacity: Option<u32>,
    /// The blend text is the name of a mode.
    pub blend: bool,
    /// The expression text is the name of an expression.
    pub expression: bool,
    /// The tone text reads as tone parameters.
    pub tone: bool,
    /// The border text reads as border parameters.
    pub edge: bool,
}

/// The stored text where it can be read, else what stood there.
pub open spec fn taken(v: Option<Seq<char>>, ok: bool, was: Option<Seq<char>>) -> Option<Seq<char>> {
    if ok && v is Some {
        v
    } else {
        was
    }
}

/// The properties that a type's defaults cover, in words.
pub open spec fn covered(m: Map<Seq<char>, Seq<char>>, key: Seq<char>) -> Seq<Seq<char>> {
    let a: Seq<Seq<char>> = if field(m, key, "blend"@) is Some || field(m, key, "opacity"@) is Some {
        seq!["blend + opacity"@]
    } else {
        seq![]
    };
    let b = if field(m, key, "fill"@) is Some {
        a.push("fill params"@)
    } else {
        a
    };
    let c = if field(m, key, "tone"@) is Some {
        b.push("tone"@)
    } else {
        b
    };
    let d = if field(m, key, "colour"@) is Some {
        c.push("layer colour"@)
    } else {
        c
    };
    let e = if field(m, key, "edge"@) is Some {
        d.push("border effect"@)
    } else {
        d
    };
    if field(m, key, "expression"@) is Some {
        e.push("1-bit preview"@)
    } else {
        e
    }
}

/// The type that a live fill of this variant belongs to.
pub open spec fn variant_key(v: FillVariant) -> Seq<char> {
    match v {
        FillVariant::Flat => "fill"@,
        FillVariant::Gradient => "gradient"@,
        FillVariant::Tone => "tone"@,
    }
}

/// The map after every known field of a type is gone.
pub open spec fn forgotten(m: Map<Seq<char>, Seq<char>>, key: Seq<char>) -> Map<Seq<char>, Seq<char>> {
    m.remove(full_key(key, "opacity"@)).remove(full_key(key, "blend"@)).remove(
        full_key(key, "colour"@),
    ).remove(full_key(key, "sub_colour"@)).remove(full_key(key, "expression"@)).remove(
        full_key(key, "tone"@),
    ).remove(full_key(key, "edge"@)).remove(full_key(key, "fill"@))
}

/// The map after a layer's properties became its type's default.
pub open spec fn captured(
    m: Map<Seq<char>, Seq<char>>,
    l: Layer,
    opacity: Seq<char>,
    fill: Option<Seq<char>>,
) -> Map<Seq<char>, Seq<char>> {
    let k = kind_key_spec(l);
    let m1 = put_field(m, k, "opacity"@, Some(opacity));
    let m2 = put_field(m1, k, "blend"@, Some(l.look.blend@));
    let m3 = put_field(m2, k, "colour"@, opt_hex(l.look.colour));
    let m4 = put_field(m3, k, "sub_colour"@, opt_hex(l.look.sub_colour));
    let m5 = put_field(m4, k, "expression"@, opt_view(l.expression));
    let m6 = put_field(m5, k, "tone"@, opt_view(l.tone));
    let m7 = put_field(m6, k, "edge"@, opt_view(l.edge));
    put_field(
        m7,
        k,
        "fill"@,
        if l.kind is FillFlat || l.kind is FillTone {
            fill
        } else {
            None
        },
    )
}

/// The writing of an optional colour.
pub open spec fn opt_hex(c: Option<Rgb>) -> Option<Seq<char>> {
    match c {
        Some(c) => Some(hex_text(c)),
        None => None,
    }
}

/// A hexadecimal digit, in lower case.
pub open spec fn hex_digit(n: int) -> char {
    if n < 10 {
        (('0' as int) + n) as char
    } else {
        (('a' as int) + n - 10) as char
    }
}

/// What a hexadecimal digit counts; -1 for any other character.
pub open spec fn hex_value(c: char) -> int {
    if '0' <= c <= '9' {
        c as int - '0' as int
    } else if 'a' <= c <= 'f' {
        c as int - 'a' as int + 10
    } else if 'A' <= c <= 'F' {
        c as int - 'A' as int + 10
    } else {
        -1
    }
}

/// A colour as `#rrggbb`.
pub open spec fn hex_text(c: Rgb) -> Seq<char> {
    seq![
        '#',
        hex_digit(c.r as int / 16),
        hex_digit(c.r as int % 16),
        hex_digit(c.g as int / 16),
        hex_digit(c.g as int % 16),
        hex_digit(c.b as int / 16),
        hex_digit(c.b as int % 16),
    ]
}

/// A byte in two characters: two hexadecimal digits, or a plus sign and one.
pub open spec fn hex_pair(a: char, b: char) -> Option<u8> {
    if hex_value(b) < 0 {
        None
    } else if a == '+' {
        Some(hex_value(b) as u8)
    } else if hex_value(a) < 0 {
        None
    } else {
        Some((hex_value(a) * 16 + hex_value(b)) as u8)
    }
}

/// A colour out of six characters, with a `#` allowed in front.
pub open spec fn hex_colour(s: Seq<char>) -> Option<Rgb> {
    let t = if s.len() > 0 && s[0] == '#' {
        s.skip(1)
    } else {
        s
    };
    if t.len() != 6 {
        None
    } else {
        match (hex_pair(t[0], t[1]), hex_pair(t[2], t[3]), hex_pair(t[4], t[5])) {
            (Some(r), Some(g), Some(b)) => Some(Rgb { r, g, b }),
            _ => None,
        }
    }
}

fn hex_char(n: u8) -> (c: char)
    requires
        n < 16,
    ensures
        c == hex_digit(n as int),
{
    if n == 0 {
        '0'
    } else if n == 1 {
        '1'
    } else if n == 2 {
        '2'
    } else if n == 3 {
        '3'
    } else if n == 4 {
        '4'
    } else if n == 5 {
        '5'
    } else if n == 6 {
        '6'
    } else if n == 7 {
        '7'
    } else if n == 8 {
        '8'
    } else if n == 9 {
        '9'
    } else if n == 10 {
        'a'
    } else if n == 11 {
        'b'
    } else if n == 12 {
        'c'
    } else if n == 13 {
        'd'
    } else if n == 14 {
        'e'
    } else {
        'f'
    }
}

fn char_hex(c: char) -> (r: Option<u8>)
    ensures
        match r {
            Some(n) => n < 16 && n as int == hex_value(c),
            None => hex_value(c) < 0,
        },
{
    if '0' <= c && c <= '9' {
        Some((c as u32 - '0' as u32) as u8)
    } else if 'a' <= c && c <= 'f' {
        Some((c as u32 - 'a' as u32) as u8 + 10)
    } else if 'A' <= c && c <= 'F' {
        Some((c as u32 - 'A' as u32) as u8 + 10)
    } else {
        None
    }
}

/// A colour as `#rrggbb`.
pub fn hex(c: Rgb) -> (r: String)
    ensures
        r@ == hex_text(c),
{
    let mut s = String::new();
    s.push('#');
    s.push(hex_char(c.r / 16));
    s.push(hex_char(c.r % 16));
    s.push(hex_char(c.g / 16));
    s.push(hex_char(c.g % 16));
    s.push(hex_char(c.b / 16));
    s.push(hex_char(c.b % 16));
    assert(s@ =~= hex_text(c));
    s
}

fn pair(a: char, b: char) -> (r: Option<u8>)
    ensures
        r == hex_pair(a, b),
{
    match char_hex(b) {
        None => None,
        Some(y) => if a == '+' {
            Some(y)
        } else {
            match char_hex(a) {
                None => None,
                Some(x) => Some(x * 16 + y),
            }
        },
    }
}

/// Reads a colour; nothing where the text is not one.
pub fn unhex(s: &str) -> (r: Option<Rgb>)
    ensures
        r == hex_colour(s@),
{
    let v = text::to_chars(s);
    let from: usize = if v.len() > 0 && v[0] == '#' {
        1
    } else {
        0
    };
    let ghost t = if s@.len() > 0 && s@[0] == '#' {
        s@.skip(1)
    } else {
        s@
    };
    assert(t =~= v@.skip(from as int));
    if v.len() - from != 6 {
        return None;
    }
    let r = pair(v[from], v[from + 1]);
    let g = pair(v[from + 2], v[from + 3]);
    let b = pair(v[from + 4], v[from + 5]);
    match (r, g, b) {
        (Some(r), Some(g), Some(b)) => Some(Rgb { r, g, b }),
        _ => None,
    }
}

/// A colour is read back from its writing.
pub proof fn law_hex_round_trip(c: Rgb)
    ensures
        hex_colour(hex_text(c)) == Some(c),
{
    let t = hex_text(c).skip(1);
    assert(t =~= seq![
        hex_digit(c.r as int / 16),
        hex_digit(c.r as int % 16),
        hex_digit(c.g as int / 16),
        hex_digit(c.g as int % 16),
        hex_digit(c.b as int / 16),
        hex_digit(c.b as int % 16),
    ]);
    assert forall|n: int| 0 <= n < 16 implies #[trigger] hex_value(hex_digit(n)) == n && hex_digit(n)
        != '+' by {}
    assert(hex_value(hex_digit(c.r as int / 16)) == c.r as int / 16);
    assert(hex_value(hex_digit(c.r as int % 16)) == c.r as int % 16);
    assert(hex_value(hex_digit(c.g as int / 16)) == c.g as int / 16);
    assert(hex_value(hex_digit(c.g as int % 16)) == c.g as int % 16);
    assert(hex_value(hex_digit(c.b as int / 16)) == c.b as int / 16);
    assert(hex_value(hex_digit(c.b as int % 16)) == c.b as int % 16);
}

impl LayerDefaults {
    /// Reads the lines of a file; what cannot be read is skipped.
    pub fn parse(body: &str) -> (r: LayerDefaults)
        ensures
            r.wf(),
            r.map() == lines_map(text::lines(body@)),
            !r.dirty,
    {
        let ls = text::lines_of(&text::to_chars(body));
        let mut me = LayerDefaults::new();
        let mut i: usize = 0;
        let ghost all = text::lines(body@);
        assert(all.take(0) =~= seq![]);
        while i < ls.len()
            invariant
                i <= ls.len(),
                text::views(ls@) == all,
                me.wf(),
                me.map() == lines_map(all.take(i as int)),
                !me.dirty,
            decreases ls.len() - i,
        {
            let ghost line = all[i as int];
            proof {
                assert(line == ls@[i as int]@);
                assert(all.take(i as int + 1).drop_last() =~= all.take(i as int));
                assert(all.take(i as int + 1).last() == line);
            }
            let t = text::trim_chars(&ls[i]);
            i = i + 1;
            if t.len() == 0 || t[0] == '#' {
                continue;
            }
            let k: usize = text::find_from(&t, 0, '=');
            proof {
                assert(t@.skip(0) =~= t@);
            }
            if k >= t.len() {
                continue;
            }
            let key = text::trim_chars(&text::cut(&t, 0, k));
            proof {
                assert(t@.subrange(0, k as int) =~= t@.take(k as int));
                assert(key@.skip(0) =~= key@);
            }
            if key.len() == 0 || text::find_from(&key, 0, '.') >= key.len() {
                continue;
            }
            let value = text::trim_chars(&text::cut(&t, k + 1, t.len()));
            proof {
                assert(t@.subrange(k as int + 1, t@.len() as int) =~= t@.skip(k as int + 1));
            }
            me.insert(text::from_chars(&key), text::from_chars(&value));
        }
        assert(all.take(all.len() as int) =~= all);
        me
    }

    /// The file's lines, one per key.
    pub fn to_body(&self) -> (r: String)
        ensures
            r@ == body(self.entries()),
    {
        let mut out = String::new();
        let mut i: usize = 0;
        let ghost e = self.entries();
        assert(e.take(0) =~= seq![]);
        while i < self.rows.len()
            invariant
                i <= self.rows@.len(),
                e == self.entries(),
                out@ == body(e.take(i as int)),
            decreases self.rows.len() - i,
        {
            proof {
                assert(e.take(i as int + 1).drop_last() =~= e.take(i as int));
            }
            out.append(self.rows[i].key.as_str());
            out.push('=');
            out.append(self.rows[i].value.as_str());
            out.push('\n');
            proof {
                assert(out@ =~= body(e.take(i as int)) + e[i as int].0 + seq!['='] + e[i as int].1 + seq!['\n']);
            }
            i = i + 1;
        }
        assert(e.take(e.len() as int) =~= e);
        out
    }

    /// What is to be done with the file: nothing where nothing changed since
    /// the last time; away with it where no default is left; else its content.
    pub fn save_if_dirty(&mut self) -> (r: Save)
        ensures
            *final(self) == (LayerDefaults { dirty: false, ..*old(self) }),
            match r {
                Save::Nothing => !old(self).dirty,
                Save::Delete => old(self).dirty && old(self).rows@.len() == 0,
                Save::Write(b) => old(self).dirty && old(self).rows@.len() > 0 && b@ == body(
                    old(self).entries(),
                ),
            },
    {
        if !self.dirty {
            return Save::Nothing;
        }
        self.dirty = false;
        if self.rows.len() == 0 {
            return Save::Delete;
        }
        Save::Write(self.to_body())
    }

    /// What a field is set to.
    pub fn get(&self, key: &str, field_name: &str) -> (r: Option<&str>)
        requires
            self.wf(),
        ensures
            match r {
                Some(v) => field(self.map(), key@, field_name@) == Some(v@),
                None => field(self.map(), key@, field_name@) is None,
            },
    {
        let k = make_key(key, field_name);
        let (p, hit) = self.seek(k.as_str());
        proof {
            lemma_map_rows(*self);
        }
        if !hit {
            proof {
                self.lemma_not_set(k@, p as int);
            }
            return None;
        }
        assert(self.rows@[p as int].key@ == k@);
        let v = self.rows[p].value.as_str();
        if v.is_empty() {
            None
        } else {
            Some(v)
        }
    }

    /// Sets a field, or drops it.
    pub fn put(&mut self, key: &str, field_name: &str, value: Option<String>)
        requires
            old(self).wf(),
        ensures
            final(self).wf(),
            final(self).map() == put_field(old(self).map(), key@, field_name@, opt_view(value)),
            final(self).dirty == old(self).dirty,
    {
        let k = make_key(key, field_name);
        match value {
            Some(v) => self.insert(k, v),
            None => self.remove(k.as_str()),
        }
    }

    /// Is there a default for this type at all?
    pub fn has(&self, key: &str) -> (r: bool)
        requires
            self.wf(),
        ensures
            r == has_any(self.map(), key@),
    {
        self.get(key, "opacity").is_some() || self.get(key, "blend").is_some() || self.get(
            key,
            "colour",
        ).is_some() || self.get(key, "sub_colour").is_some() || self.get(
            key,
            "expression",
        ).is_some() || self.get(key, "tone").is_some() || self.get(key, "edge").is_some()
            || self.get(key, "fill").is_some()
    }

    /// Makes a layer's properties the default of its type. `opacity` is the
    /// layer's opacity in writing; `fill` its live-fill parameters, which are
    /// kept for the two kinds whose parameters are style.
    pub fn capture(&mut self, l: &Layer, opacity: &str, fill: Option<&str>)
        requires
            old(self).wf(),
        ensures
            final(self).wf(),
            final(self).map() == captured(
                old(self).map(),
                *l,
                opacity@,
                match fill {
                    Some(f) => Some(f@),
                    None => None,
                },
            ),
            final(self).dirty,
    {
        let k = kind_key(l);
        self.put(k, "opacity", Some(text::own(opacity)));
        self.put(k, "blend", Some(l.look.blend.clone()));
        self.put(
            k,
            "colour",
            match l.look.colour {
                Some(c) => Some(hex(c)),
                None => None,
            },
        );
        self.put(
            k,
            "sub_colour",
            match l.look.sub_colour {
                Some(c) => Some(hex(c)),
                None => None,
            },
        );
        self.put(k, "expression", copy_opt(&l.expression));
        self.put(k, "tone", copy_opt(&l.tone));
        self.put(k, "edge", copy_opt(&l.edge));
        let style = matches!(l.kind, LayerKind::FillFlat | LayerKind::FillTone);
        self.put(
            k,
            "fill",
            match fill {
                Some(f) => if style {
                    Some(text::own(f))
                } else {
                    None
                },
                None => None,
            },
        );
        self.dirty = true;
    }

    /// Drops every known field of one type; a key that is not known stays.
    pub fn forget(&mut self, key: &str)
        requires
            old(self).wf(),
        ensures
            final(self).wf(),
            final(self).map() == forgotten(old(self).map(), key@),
            final(self).dirty,
    {
        self.put(key, "opacity", None);
        self.put(key, "blend", None);
        self.put(key, "colour", None);
        self.put(key, "sub_colour", None);
        self.put(key, "expression", None);
        self.put(key, "tone", None);
        self.put(key, "edge", None);
        self.put(key, "fill", None);
        self.dirty = true;
    }

    /// A layer before and after it took the default of its own type.
    pub open spec fn born(self, was: Layer, l: Layer, read: Readings) -> bool {
        let key = kind_key_spec(was);
        &&& l == (Layer { look: l.look, tone: l.tone, edge: l.edge, expression: l.expression, ..was })
        &&& l.look == (crate::doc::Look {
            opacity: applied_opacity(self.map(), key, read, was.look.opacity),
            blend: l.look.blend,
            colour: applied_colour(self.map(), key, "colour"@, was.look.colour),
            sub_colour: applied_colour(self.map(), key, "sub_colour"@, was.look.sub_colour),
            ..was.look
        })
        &&& Some(l.look.blend@) == taken(field(self.map(), key, "blend"@), read.blend, Some(was.look.blend@))
        &&& opt_view(l.expression) == taken(
            field(self.map(), key, "expression"@),
            read.expression,
            opt_view(was.expression),
        )
        &&& opt_view(l.tone) == taken(
            field(self.map(), key, "tone"@),
            read.tone && !was.folder && !was.is_vector_spec(),
            opt_view(was.tone),
        )
        &&& opt_view(l.edge) == taken(
            field(self.map(), key, "edge"@),
            read.edge && !(was.folder && was.is_frame_spec()),
            opt_view(was.edge),
        )
    }

    /// Gives a new layer the default of its own type. Each field stands for
    /// itself: what cannot be read leaves its property as it was. The tone
    /// stays off folders and vector layers, the border off frame folders.
    pub fn apply(&self, l: &mut Layer, read: &Readings)
        requires
            self.wf(),
        ensures
            self.born(*old(l), *final(l), *read),
    {
        let k = kind_key(l);
        let tone_ok = read.tone && !l.folder && !l.is_vector();
        let edge_ok = read.edge && !(l.folder && l.is_frame());
        let opacity: u32 = match read.opacity {
            Some(v) => if self.get(k, "opacity").is_some() && v % 0x8000_0000 < 0x7F80_0000 {
                if v > 0x8000_0000 {
                    0
                } else if v > FULL && v < 0x8000_0000 {
                    FULL
                } else {
                    v
                }
            } else {
                l.look.opacity
            },
            None => l.look.opacity,
        };
        let blend = match self.get(k, "blend") {
            Some(v) => if read.blend {
                text::own(v)
            } else {
                l.look.blend.clone()
            },
            None => l.look.blend.clone(),
        };
        let colour = self.pick_colour(k, "colour", l.look.colour);
        let sub_colour = self.pick_colour(k, "sub_colour", l.look.sub_colour);
        let expression = self.pick(k, "expression", read.expression, &l.expression);
        let tone = self.pick(k, "tone", tone_ok, &l.tone);
        let edge = self.pick(k, "edge", edge_ok, &l.edge);
        l.look.opacity = opacity;
        l.look.blend = blend;
        l.look.colour = colour;
        l.look.sub_colour = sub_colour;
        l.expression = expression;
        l.tone = tone;
        l.edge = edge;
    }

    fn pick(&self, key: &str, f: &str, ok: bool, was: &Option<String>) -> (r: Option<String>)
        requires
            self.wf(),
        ensures
            opt_view(r) == taken(field(self.map(), key@, f@), ok, opt_view(*was)),
    {
        match self.get(key, f) {
            Some(v) => if ok {
                Some(text::own(v))
            } else {
                copy_opt(was)
            },
            None => copy_opt(was),
        }
    }

    fn pick_colour(&self, key: &str, f: &str, was: Option<Rgb>) -> (r: Option<Rgb>)
        requires
            self.wf(),
        ensures
            r == applied_colour(self.map(), key@, f@, was),
    {
        match self.get(key, f) {
            Some(v) => match unhex(v) {
                Some(c) => Some(c),
                None => was,
            },
            None => was,
        }
    }

    /// The live-fill parameters that a new fill layer is born with: the saved
    /// ones where there are any and they read as the variant that is made.
    pub fn fill_kind(&self, want: FillVariant, reads_as: Option<FillVariant>) -> (r: Option<&str>)
        requires
            self.wf(),
        ensures
            match r {
                Some(v) => field(self.map(), variant_key(want), "fill"@) == Some(v@) && reads_as
                    == Some(want),
                None => field(self.map(), variant_key(want), "fill"@) is None || reads_as
                    != Some(want),
            },
    {
        let key = match want {
            FillVariant::Flat => "fill",
            FillVariant::Gradient => "gradient",
            FillVariant::Tone => "tone",
        };
        let saved = self.get(key, "fill");
        match reads_as {
            Some(v) => if v == want {
                saved
            } else {
                None
            },
            None => None,
        }
    }

    /// The properties that the type's default covers, in one line.
    pub fn summary(&self, key: &str) -> (r: Option<String>)
        requires
            self.wf(),
        ensures
            opt_view(r) == (if has_any(self.map(), key@) {
                Some(text::join(covered(self.map(), key@), ", "@))
            } else {
                None::<Seq<char>>
            }),
    {
        if !self.has(key) {
            return None;
        }
        let mut bits: Vec<String> = Vec::new();
        if self.get(key, "blend").is_some() || self.get(key, "opacity").is_some() {
            bits.push(text::own("blend + opacity"));
        }
        if self.get(key, "fill").is_some() {
            bits.push(text::own("fill params"));
        }
        if self.get(key, "tone").is_some() {
            bits.push(text::own("tone"));
        }
        if self.get(key, "colour").is_some() {
            bits.push(text::own("layer colour"));
        }
        if self.get(key, "edge").is_some() {
            bits.push(text::own("border effect"));
        }
        if self.get(key, "expression").is_some() {
            bits.push(text::own("1-bit preview"));
        }
        assert(text::strings(bits@) =~= covered(self.map(), key@));
        Some(text::join_strings(&bits, ", "))
    }
}

/// The opacity that a layer starts with.
pub open spec fn applied_opacity(
    m: Map<Seq<char>, Seq<char>>,
    key: Seq<char>,
    read: Readings,
    was: u32,
) -> u32 {
    match read.opacity {
        Some(v) => if field(m, key, "opacity"@) is Some && finite(v) {
            to_unit(v)
        } else {
            was
        },
        None => was,
    }
}

/// A number that is neither infinite nor no number at all.
pub open spec fn finite(v: u32) -> bool {
    v % 0x8000_0000 < 0x7F80_0000
}

/// A finite number held between nought and one; the negative nought stays.
pub open spec fn to_unit(v: u32) -> u32 {
    if v > 0x8000_0000 {
        0
    } else if FULL < v < 0x8000_0000 {
        FULL
    } else {
        v
    }
}

/// The colour that a layer starts with.
pub open spec fn applied_colour(
    m: Map<Seq<char>, Seq<char>>,
    key: Seq<char>,
    f: Seq<char>,
    was: Option<Rgb>,
) -> Option<Rgb> {
    match field(m, key, f) {
        Some(v) => match hex_colour(v) {
            Some(c) => Some(c),
            None => was,
        },
        None => was,
    }
}

fn copy_opt(s: &Option<String>) -> (r: Option<String>)
    ensures
        opt_view(r) == opt_view(*s),
{
    match s {
        Some(x) => Some(x.clone()),
        None => None,
    }
}

/// A pair that a line can hold: a trimmed key with a dot and without an equals
/// sign, not a comment, and neither the key nor the value with a line feed.
pub open spec fn writable(k: Seq<char>, v: Seq<char>) -> bool {
    &&& text::trim(k) == k
    &&& k.len() > 0
    &&& k[0] != '#'
    &&& text::holds(k, '.')
    &&& !k.contains('=')
    &&& !k.contains('\n')
    &&& !v.contains('\n')
}

/// A pair that a line carries as it is: its value is trimmed too.
pub open spec fn clean(k: Seq<char>, v: Seq<char>) -> bool {
    writable(k, v) && text::trim(v) == v
}

/// Every pair can be held by a line.
pub open spec fn all_writable(e: Seq<(Seq<char>, Seq<char>)>) -> bool {
    forall|i: int| 0 <= i < e.len() ==> writable((#[trigger] e[i]).0, e[i].1)
}

/// Every setting can be held by a line.
pub open spec fn writable_map(m: Map<Seq<char>, Seq<char>>) -> bool {
    forall|k: Seq<char>| #[trigger] m.contains_key(k) ==> writable(k, m[k])
}

/// The settings with their values trimmed.
pub open spec fn trimmed_map(m: Map<Seq<char>, Seq<char>>) -> Map<Seq<char>, Seq<char>> {
    Map::new(|k: Seq<char>| m.contains_key(k), |k: Seq<char>| text::trim(m[k]))
}

/// Every setting can be carried by a line.
pub open spec fn clean_map(m: Map<Seq<char>, Seq<char>>) -> bool {
    forall|k: Seq<char>| #[trigger] m.contains_key(k) ==> clean(k, m[k])
}

proof fn lemma_trim_ends(s: Seq<char>)
    ensures
        text::trim_start(s).len() > 0 ==> !text::is_white(text::trim_start(s)[0]),
        text::trim_end(s).len() > 0 ==> !text::is_white(text::trim_end(s).last()),
        text::trim_end(s).len() <= s.len(),
        text::trim_start(s).len() <= s.len(),
        text::trim_end(s).is_prefix_of(s),
        forall|c: char| text::trim_start(s).contains(c) ==> #[trigger] s.contains(c),
        forall|c: char| text::trim_end(s).contains(c) ==> #[trigger] s.contains(c),
    decreases s.len(),
{
    if s.len() > 0 {
        lemma_trim_ends(s.skip(1));
        lemma_trim_ends(s.drop_last());
        assert forall|c: char| text::trim_start(s).contains(c) implies #[trigger] s.contains(c) by {
            if text::is_white(s[0]) {
                assert(s.skip(1).contains(c));
                let i = choose|i: int| 0 <= i < s.skip(1).len() && s.skip(1)[i] == c;
                assert(s[i + 1] == c);
            }
        }
        assert forall|c: char| text::trim_end(s).contains(c) implies #[trigger] s.contains(c) by {
            if text::is_white(s.last()) {
                assert(s.drop_last().contains(c));
                let i = choose|i: int| 0 <= i < s.drop_last().len() && s.drop_last()[i] == c;
                assert(s[i] == c);
            }
        }
    }
}

/// Trimming leaves no white space at the ends and adds no character.
proof fn lemma_trim_shape(s: Seq<char>)
    ensures
        text::trim(s).len() > 0 ==> !text::is_white(text::trim(s)[0]) && !text::is_white(
            text::trim(s).last(),
        ),
        text::trim(text::trim(s)) == text::trim(s),
        forall|c: char| text::trim(s).contains(c) ==> #[trigger] s.contains(c),
{
    let a = text::trim_start(s);
    lemma_trim_ends(s);
    lemma_trim_ends(a);
    let t = text::trim(s);
    if t.len() > 0 {
        assert(t =~= a.subrange(0, t.len() as int));
        assert(t[0] == a[0]);
    }
    text::lemma_trim_id(t);
}

proof fn lemma_lines_no_feed(s: Seq<char>)
    ensures
        forall|i: int| 0 <= i < text::lines(s).len() ==> !(#[trigger] text::lines(s)[i]).contains('\n'),
    decreases s.len(),
{
    text::lemma_find(s, '\n');
    let k = text::find(s, '\n');
    if s.len() > 0 {
        if k < s.len() {
            lemma_lines_no_feed(s.skip(k + 1));
            let c = text::chomp(s.take(k));
            assert forall|i: int| 0 <= i < text::lines(s).len() implies !(
            #[trigger] text::lines(s)[i]).contains('\n') by {
                if i == 0 {
                    assert forall|j: int| 0 <= j < c.len() implies c[j] != '\n' by {
                        assert(c[j] == s[j]);
                    }
                } else {
                    assert(text::lines(s)[i] == text::lines(s.skip(k + 1))[i - 1]);
                }
            }
        } else {
            assert(text::lines(s)[0] == s);
        }
    }
}

/// What a line sets is a pair that a line can carry.
proof fn lemma_line_entry_clean(line: Seq<char>)
    requires
        !line.contains('\n'),
    ensures
        match line_entry(line) {
            Some((k, v)) => clean(k, v),
            None => true,
        },
{
    let t = text::trim(line);
    let n = text::find(t, '=');
    if let Some((k, v)) = line_entry(line) {
        lemma_trim_shape(line);
        text::lemma_find(t, '=');
        lemma_trim_shape(t.take(n));
        lemma_trim_shape(t.skip(n + 1));
        if k.contains('=') {
            assert(t.take(n).contains('='));
            let i = choose|i: int| 0 <= i < t.take(n).len() && t.take(n)[i] == '=';
            assert(t[i] == '=');
        }
        if k.contains('\n') {
            assert(t.take(n).contains('\n'));
            let i = choose|i: int| 0 <= i < t.take(n).len() && t.take(n)[i] == '\n';
            assert(t[i] == '\n');
            assert(line.contains('\n'));
        }
        if v.contains('\n') {
            let u = t.skip(n + 1);
            assert(u.contains('\n'));
            let i = choose|i: int| 0 <= i < u.len() && u[i] == '\n';
            assert(t[n + 1 + i] == '\n');
            assert(line.contains('\n'));
        }
        // The line starts where the key does.
        let w = t.take(n);
        assert(n > 0) by {
            if n == 0 {
                assert(w =~= seq![]);
                assert(text::trim(w) =~= seq![]);
            }
        }
        assert(w[0] == t[0]);
        assert(text::trim_start(w) == w);
        lemma_trim_ends(w);
        assert(k =~= w.subrange(0, k.len() as int));
        assert(k[0] == t[0]);
    }
}

proof fn lemma_lines_map_clean(ls: Seq<Seq<char>>)
    requires
        forall|i: int| 0 <= i < ls.len() ==> !(#[trigger] ls[i]).contains('\n'),
    ensures
        clean_map(lines_map(ls)),
    decreases ls.len(),
{
    if ls.len() > 0 {
        let d = ls.drop_last();
        assert forall|i: int| 0 <= i < d.len() implies !(#[trigger] d[i]).contains('\n') by {
            assert(d[i] == ls[i]);
        }
        lemma_lines_map_clean(d);
        assert(!ls[ls.len() - 1].contains('\n'));
        lemma_line_entry_clean(ls.last());
    }
}

/// Whatever text was read, its settings can be written back line by line.
pub proof fn law_parsed_is_clean(t: Seq<char>)
    ensures
        clean_map(lines_map(text::lines(t))),
{
    lemma_lines_no_feed(t);
    lemma_lines_map_clean(text::lines(t));
}

/// A line that cannot be read costs itself and nothing else: the file reads as
/// it would without the line.
pub proof fn law_a_mangled_line_costs_itself(ls: Seq<Seq<char>>, j: int)
    requires
        0 <= j < ls.len(),
        line_entry(ls[j]) is None,
    ensures
        lines_map(ls) == lines_map(ls.remove(j)),
    decreases ls.len(),
{
    let cut = ls.remove(j);
    if j == ls.len() - 1 {
        assert(cut =~= ls.drop_last());
    } else {
        law_a_mangled_line_costs_itself(ls.drop_last(), j);
        assert(cut.drop_last() =~= ls.drop_last().remove(j));
        assert(cut.last() == ls.last());
    }
}

/// The line of a pair.
pub open spec fn line_of(k: Seq<char>, v: Seq<char>) -> Seq<char> {
    k + seq!['='] + v
}

/// How much white space stands in front.
proof fn lemma_front(s: Seq<char>) -> (n: int)
    ensures
        0 <= n <= s.len(),
        forall|j: int| 0 <= j < n ==> text::is_white(s[j]),
        n < s.len() ==> !text::is_white(s[n]),
        text::trim_start(s) == s.skip(n),
    decreases s.len(),
{
    if s.len() > 0 && text::is_white(s[0]) {
        let t = s.skip(1);
        let m = lemma_front(t);
        assert forall|j: int| 0 <= j < m + 1 implies text::is_white(s[j]) by {
            if j > 0 {
                assert(t[j - 1] == s[j]);
            }
        }
        assert(t.skip(m) =~= s.skip(m + 1));
        m + 1
    } else {
        assert(s.skip(0) =~= s);
        0
    }
}

/// Where the white space behind begins.
proof fn lemma_behind(s: Seq<char>) -> (n: int)
    ensures
        0 <= n <= s.len(),
        forall|j: int| n <= j < s.len() ==> text::is_white(s[j]),
        n > 0 ==> !text::is_white(s[n - 1]),
        text::trim_end(s) == s.take(n),
    decreases s.len(),
{
    if s.len() > 0 && text::is_white(s.last()) {
        let t = s.drop_last();
        let m = lemma_behind(t);
        assert forall|j: int| m <= j < s.len() implies text::is_white(s[j]) by {
            if j < t.len() {
                assert(t[j] == s[j]);
            }
        }
        assert(t.take(m) =~= s.take(m));
        m
    } else {
        assert(s.take(s.len() as int) =~= s);
        s.len() as int
    }
}

/// A pair's line, without the carriage return that may end it, sets the pair
/// with its value trimmed.
proof fn lemma_line_of(k: Seq<char>, v: Seq<char>)
    requires
        writable(k, v),
    ensures
        line_entry(text::chomp(line_of(k, v))) == Some((k, text::trim(v))),
{
    let l = line_of(k, v);
    let c = text::chomp(l);
    let n = k.len() as int;
    lemma_trim_shape(k);
    if v.len() > 0 {
        assert(l.last() == v.last());
    } else {
        assert(l.last() == '=');
    }
    assert(c[0] == k[0]);
    text::lemma_trim_start(c, 0);
    assert(c.skip(0) =~= c);
    let a = lemma_front(v);
    let t = v.skip(a);
    let b = lemma_behind(t);
    let end = if a == v.len() {
        n + 1
    } else {
        n + 1 + a + b
    };
    if a < v.len() {
        assert(t[0] == v[a]);
        assert(b > 0);
        assert(t[b - 1] == v[a + b - 1]);
        assert(l[end - 1] == v[a + b - 1]);
    } else {
        assert(l[n] == '=');
    }
    assert(!text::is_white(l[end - 1]));
    assert(end <= c.len()) by {
        if c.len() < l.len() {
            assert(l.last() == '\r');
            assert(text::is_white(l[l.len() - 1]));
        }
    }
    assert forall|j: int| end <= j < c.len() implies text::is_white(c[j]) by {
        assert(c[j] == v[j - n - 1]);
        if a < v.len() {
            assert(v[j - n - 1] == t[j - n - 1 - a]);
        }
    }
    assert(c[end - 1] == l[end - 1]);
    text::lemma_trim_end(c, end);
    let w = c.take(end);
    assert(text::trim(c) == w);
    assert forall|i: int| 0 <= i < n implies w[i] != '=' by {
        assert(w[i] == k[i]);
        assert(k.contains(k[i]));
    }
    assert(w[n] == '=');
    text::lemma_find_is(w, '=', n);
    assert(w.take(n) =~= k);
    let x = w.skip(n + 1);
    if a < v.len() {
        assert(x =~= v.take(a + b));
        text::lemma_trim_start(x, a);
        assert(x.skip(a) =~= t.take(b));
        text::lemma_trim_end(t.take(b), b);
        assert(t.take(b).take(b) =~= t.take(b));
    } else {
        assert(x =~= seq![]);
        assert(v.skip(a) =~= seq![]);
        assert(t.take(b) =~= seq![]);
        assert(text::trim(x) =~= seq![]);
    }
}

/// A line in front of the rest is the first of the lines.
proof fn lemma_lines_front(l: Seq<char>, rest: Seq<char>)
    requires
        !l.contains('\n'),
    ensures
        text::lines(l + seq!['\n'] + rest) == seq![text::chomp(l)] + text::lines(rest),
{
    let s = l + seq!['\n'] + rest;
    assert forall|i: int| 0 <= i < l.len() implies s[i] != '\n' by {
        assert(s[i] == l[i]);
        assert(l.contains(l[i]));
    }
    assert(s[l.len() as int] == '\n');
    text::lemma_find_is(s, '\n', l.len() as int);
    assert(s.take(l.len() as int) =~= l);
    assert(s.skip(l.len() as int + 1) =~= rest);
}

/// The lines of the pairs.
spec fn pair_lines(e: Seq<(Seq<char>, Seq<char>)>) -> Seq<Seq<char>> {
    Seq::new(e.len(), |i: int| text::chomp(line_of(e[i].0, e[i].1)))
}

/// Text that ends with a line feed, and then more text: the lines of both.
proof fn lemma_lines_append(e: Seq<(Seq<char>, Seq<char>)>, rest: Seq<char>)
    requires
        all_writable(e),
    ensures
        text::lines(body(e) + rest) == pair_lines(e) + text::lines(rest),
    decreases e.len(),
{
    if e.len() == 0 {
        assert(body(e) + rest =~= rest);
        assert(pair_lines(e) + text::lines(rest) =~= text::lines(rest));
    } else {
        let d = e.drop_last();
        let (k, v) = e.last();
        assert(writable(e[e.len() - 1].0, e[e.len() - 1].1));
        assert forall|i: int| 0 <= i < d.len() implies writable((#[trigger] d[i]).0, d[i].1) by {
            assert(d[i] == e[i]);
        }
        let l = line_of(k, v);
        if l.contains('\n') {
            let i = choose|i: int| 0 <= i < l.len() && l[i] == '\n';
            if i < k.len() {
                assert(k.contains(k[i]));
            } else if i > k.len() {
                assert(v.contains(v[i - k.len() - 1]));
            }
        }
        let more = l + seq!['\n'] + rest;
        assert(body(e) + rest =~= body(d) + more);
        lemma_lines_append(d, more);
        lemma_lines_front(l, rest);
        assert(pair_lines(d) + (seq![text::chomp(l)] + text::lines(rest)) =~= pair_lines(e) + text::lines(rest));
    }
}

proof fn lemma_lines_map_entries(e: Seq<(Seq<char>, Seq<char>)>)
    requires
        all_writable(e),
    ensures
        lines_map(pair_lines(e)) == trimmed_map(entries_map(e)),
    decreases e.len(),
{
    if e.len() > 0 {
        let d = e.drop_last();
        assert(writable(e[e.len() - 1].0, e[e.len() - 1].1));
        assert forall|i: int| 0 <= i < d.len() implies writable((#[trigger] d[i]).0, d[i].1) by {
            assert(d[i] == e[i]);
        }
        lemma_lines_map_entries(d);
        lemma_line_of(e.last().0, e.last().1);
        assert(pair_lines(e).drop_last() =~= pair_lines(d));
    }
    assert(lines_map(pair_lines(e)) =~= trimmed_map(entries_map(e)));
}

/// What is written is read back: the body of the rows sets exactly the rows,
/// each value without the white space around it.
pub proof fn law_body_carries_the_rows(e: Seq<(Seq<char>, Seq<char>)>)
    requires
        all_writable(e),
    ensures
        lines_map(text::lines(body(e))) == trimmed_map(entries_map(e)),
{
    assert(body(e) + seq![] =~= body(e));
    lemma_lines_append(e, seq![]);
    assert(pair_lines(e) + text::lines(seq![]) =~= pair_lines(e));
    lemma_lines_map_entries(e);
}

/// What is written is read back: the body of the rows of a set whose values are
/// trimmed is the set.
pub proof fn law_body_round_trip(d: LayerDefaults)
    requires
        d.wf(),
        clean_map(d.map()),
    ensures
        lines_map(text::lines(body(d.entries()))) == d.map(),
{
    lemma_rows_writable(d);
    law_body_carries_the_rows(d.entries());
    assert(trimmed_map(d.map()) =~= d.map());
}

/// The rows of a set that lines can hold.
proof fn lemma_rows_writable(d: LayerDefaults)
    requires
        d.wf(),
        writable_map(d.map()) || clean_map(d.map()),
    ensures
        all_writable(d.entries()),
{
    lemma_map_rows(d);
    let e = d.entries();
    assert forall|i: int| 0 <= i < e.len() implies writable((#[trigger] e[i]).0, e[i].1) by {
        assert(d.rows@[i].key@ == e[i].0);
        assert(d.map().contains_key(e[i].0));
    }
}

/// Reading a file and writing it back loses no setting, known or not: what
/// was read from `t` is read again from the body that is written.
pub proof fn law_reading_survives_a_save(t: Seq<char>, d: LayerDefaults)
    requires
        d.wf(),
        d.map() == lines_map(text::lines(t)),
    ensures
        lines_map(text::lines(body(d.entries()))) == d.map(),
{
    law_parsed_is_clean(t);
    law_body_round_trip(d);
}

proof fn lemma_fields_plain(f: Seq<char>)
    requires
        is_field(f),
    ensures
        !f.contains('.'),
{
    reveal_strlit("opacity");
    reveal_strlit("blend");
    reveal_strlit("colour");
    reveal_strlit("sub_colour");
    reveal_strlit("expression");
    reveal_strlit("tone");
    reveal_strlit("edge");
    reveal_strlit("fill");
    assert forall|i: int| 0 <= i < f.len() implies f[i] != '.' by {}
}

/// A type and a field can be told from the key.
proof fn lemma_full_key(k1: Seq<char>, f1: Seq<char>, k2: Seq<char>, f2: Seq<char>)
    requires
        !f1.contains('.'),
        !f2.contains('.'),
        full_key(k1, f1) == full_key(k2, f2),
    ensures
        k1 == k2,
        f1 == f2,
{
    reveal_strlit(".");
    let a = full_key(k1, f1);
    let b = full_key(k2, f2);
    assert(a.len() == k1.len() + 1 + f1.len());
    assert(b.len() == k2.len() + 1 + f2.len());
    assert(a[k1.len() as int] == '.');
    assert(b[k2.len() as int] == '.');
    if k1.len() < k2.len() {
        assert(a[k2.len() as int] == f1[k2.len() - k1.len() - 1]);
        assert(f1.contains('.'));
    }
    if k2.len() < k1.len() {
        assert(b[k1.len() as int] == f2[k1.len() - k2.len() - 1]);
        assert(f2.contains('.'));
    }
    assert(k1 =~= a.take(k1.len() as int));
    assert(k2 =~= b.take(k2.len() as int));
    assert(f1 =~= a.skip(k1.len() as int + 1));
    assert(f2 =~= b.skip(k2.len() as int + 1));
}

/// Forgetting a type leaves it without a default, and touches nothing but the
/// known fields of that type: keys that are not known and the defaults of
/// other types stay.
pub proof fn law_forget(m: Map<Seq<char>, Seq<char>>, key: Seq<char>)
    ensures
        !has_any(forgotten(m, key), key),
        forall|k: Seq<char>|
            (forall|f: Seq<char>| is_field(f) ==> k != #[trigger] full_key(key, f)) ==> (
            #[trigger] forgotten(m, key).contains_key(k) == m.contains_key(k) && forgotten(m, key)[k]
                == m[k]),
        forall|other: Seq<char>|
            other != key ==> #[trigger] has_any(forgotten(m, key), other) == has_any(m, other),
{
    assert forall|k: Seq<char>|
        (forall|f: Seq<char>| is_field(f) ==> k != #[trigger] full_key(key, f)) implies (
    #[trigger] forgotten(m, key).contains_key(k) == m.contains_key(k) && forgotten(m, key)[k]
        == m[k]) by {
        assert(k != full_key(key, "opacity"@));
        assert(k != full_key(key, "blend"@));
        assert(k != full_key(key, "colour"@));
        assert(k != full_key(key, "sub_colour"@));
        assert(k != full_key(key, "expression"@));
        assert(k != full_key(key, "tone"@));
        assert(k != full_key(key, "edge"@));
        assert(k != full_key(key, "fill"@));
    }
    assert forall|other: Seq<char>| other != key implies #[trigger] has_any(forgotten(m, key), other)
        == has_any(m, other) by {
        assert forall|f: Seq<char>| is_field(f) implies #[trigger] field(forgotten(m, key), other, f)
            == field(m, other, f) by {
            let k = full_key(other, f);
            lemma_fields_plain(f);
            assert forall|g: Seq<char>| is_field(g) implies k != #[trigger] full_key(key, g) by {
                lemma_fields_plain(g);
                if k == full_key(key, g) {
                    lemma_full_key(other, f, key, g);
                }
            }
            assert(forgotten(m, key).contains_key(k) == m.contains_key(k));
        }
        assert(field(forgotten(m, key), other, "opacity"@) == field(m, other, "opacity"@));
        assert(field(forgotten(m, key), other, "blend"@) == field(m, other, "blend"@));
        assert(field(forgotten(m, key), other, "colour"@) == field(m, other, "colour"@));
        assert(field(forgotten(m, key), other, "sub_colour"@) == field(m, other, "sub_colour"@));
        assert(field(forgotten(m, key), other, "expression"@) == field(m, other, "expression"@));
        assert(field(forgotten(m, key), other, "tone"@) == field(m, other, "tone"@));
        assert(field(forgotten(m, key), other, "edge"@) == field(m, other, "edge"@));
        assert(field(forgotten(m, key), other, "fill"@) == field(m, other, "fill"@));
    }
}

/// A capture touches nothing but the known fields of the layer's own type.
pub proof fn law_capture_keeps_the_rest(
    m: Map<Seq<char>, Seq<char>>,
    l: Layer,
    opacity: Seq<char>,
    fill: Option<Seq<char>>,
    k: Seq<char>,
)
    requires
        forall|f: Seq<char>| is_field(f) ==> k != #[trigger] full_key(kind_key_spec(l), f),
    ensures
        captured(m, l, opacity, fill).contains_key(k) == m.contains_key(k),
        m.contains_key(k) ==> captured(m, l, opacity, fill)[k] == m[k],
{
    let key = kind_key_spec(l);
    assert(k != full_key(key, "opacity"@));
    assert(k != full_key(key, "blend"@));
    assert(k != full_key(key, "colour"@));
    assert(k != full_key(key, "sub_colour"@));
    assert(k != full_key(key, "expression"@));
    assert(k != full_key(key, "tone"@));
    assert(k != full_key(key, "edge"@));
    assert(k != full_key(key, "fill"@));
}

/// What a capture saved of a layer is what the next layer of that type finds
/// in each field.
pub proof fn law_capture_is_read_back(
    m: Map<Seq<char>, Seq<char>>,
    l: Layer,
    opacity: Seq<char>,
    fill: Option<Seq<char>>,
)
    ensures
        ({
            let c = captured(m, l, opacity, fill);
            let k = kind_key_spec(l);
            &&& field(c, k, "opacity"@) == nonempty(Some(opacity))
            &&& field(c, k, "blend"@) == nonempty(Some(l.look.blend@))
            &&& field(c, k, "colour"@) == nonempty(opt_hex(l.look.colour))
            &&& field(c, k, "sub_colour"@) == nonempty(opt_hex(l.look.sub_colour))
            &&& field(c, k, "expression"@) == nonempty(opt_view(l.expression))
            &&& field(c, k, "tone"@) == nonempty(opt_view(l.tone))
            &&& field(c, k, "edge"@) == nonempty(opt_view(l.edge))
            &&& l.kind is FillFlat || l.kind is FillTone ==> field(c, k, "fill"@) == nonempty(fill)
            &&& !(l.kind is FillFlat || l.kind is FillTone) ==> field(c, k, "fill"@) is None
        }),
{
    reveal_strlit("opacity");
    reveal_strlit("blend");
    reveal_strlit("colour");
    reveal_strlit("sub_colour");
    reveal_strlit("expression");
    reveal_strlit("tone");
    reveal_strlit("edge");
    reveal_strlit("fill");
    let k = kind_key_spec(l);
    assert forall|f: Seq<char>, g: Seq<char>| is_field(f) && is_field(g) && f != g implies
        #[trigger] full_key(k, f) != #[trigger] full_key(k, g) by {
        lemma_fields_plain(f);
        lemma_fields_plain(g);
        if full_key(k, f) == full_key(k, g) {
            lemma_full_key(k, f, k, g);
        }
    }
    assert("opacity"@[0] == 'o' && "blend"@[0] == 'b' && "colour"@[0] == 'c' && "sub_colour"@[0] == 's'
        && "expression"@[0] == 'e' && "tone"@[0] == 't' && "edge"@[1] == 'd' && "fill"@[0] == 'f'
        && "expression"@[1] == 'x' && "edge"@[0] == 'e');
}

/// A setting counts only where it says something.
pub open spec fn nonempty(v: Option<Seq<char>>) -> Option<Seq<char>> {
    match v {
        Some(x) => if x.len() > 0 {
            Some(x)
        } else {
            None
        },
        None => None,
    }
}

/// Every text that a capture stores stands on one line.
pub open spec fn storable(l: Layer, opacity: Seq<char>, fill: Option<Seq<char>>) -> bool {
    &&& one_line(Some(opacity))
    &&& one_line(Some(l.look.blend@))
    &&& one_line(opt_view(l.expression))
    &&& one_line(opt_view(l.tone))
    &&& one_line(opt_view(l.edge))
    &&& one_line(fill)
}

/// A text that stands on one line.
pub open spec fn one_line(v: Option<Seq<char>>) -> bool {
    v matches Some(x) ==> !x.contains('\n')
}

/// What a file keeps of a text: all but the white space around it, where that is
/// anything. A trimmed text that says something is kept as it is.
pub open spec fn kept(v: Option<Seq<char>>) -> Option<Seq<char>> {
    match v {
        Some(x) => nonempty(Some(text::trim(x))),
        None => None,
    }
}

/// The two layers say the same in every field.
pub open spec fn same_layer(a: Layer, b: Layer) -> bool {
    &&& a == (Layer { look: a.look, tone: a.tone, edge: a.edge, expression: a.expression, ..b })
    &&& a.look == (crate::doc::Look { blend: a.look.blend, ..b.look })
    &&& a.look.blend@ == b.look.blend@
    &&& opt_view(a.tone) == opt_view(b.tone)
    &&& opt_view(a.edge) == opt_view(b.edge)
    &&& opt_view(a.expression) == opt_view(b.expression)
}

/// A small letter, a hyphen or a low line.
spec fn wordly(c: char) -> bool {
    'a' <= c <= 'z' || c == '-' || c == '_'
}

proof fn lemma_kind_word(l: Layer)
    ensures
        kind_key_spec(l).len() > 0,
        forall|i: int| 0 <= i < kind_key_spec(l).len() ==> wordly(#[trigger] kind_key_spec(l)[i]),
{
    reveal_strlit("frame-folder");
    reveal_strlit("folder");
    reveal_strlit("text");
    reveal_strlit("balloon");
    reveal_strlit("frame");
    reveal_strlit("fill");
    reveal_strlit("gradient");
    reveal_strlit("tone");
    reveal_strlit("correction");
    reveal_strlit("vector");
    reveal_strlit("raster");
}

proof fn lemma_field_word(f: Seq<char>)
    requires
        is_field(f),
    ensures
        f.len() > 0,
        forall|i: int| 0 <= i < f.len() ==> wordly(#[trigger] f[i]),
{
    reveal_strlit("opacity");
    reveal_strlit("blend");
    reveal_strlit("colour");
    reveal_strlit("sub_colour");
    reveal_strlit("expression");
    reveal_strlit("tone");
    reveal_strlit("edge");
    reveal_strlit("fill");
}

/// A line can carry any field of a layer's type.
proof fn lemma_field_writable(l: Layer, f: Seq<char>, v: Seq<char>)
    requires
        is_field(f),
        one_line(Some(v)),
    ensures
        writable(full_key(kind_key_spec(l), f), v),
{
    let t = kind_key_spec(l);
    let k = full_key(t, f);
    reveal_strlit(".");
    lemma_kind_word(l);
    lemma_field_word(f);
    assert(k.len() == t.len() + 1 + f.len());
    assert(k[t.len() as int] == '.');
    assert forall|i: int| 0 <= i < k.len() implies wordly(#[trigger] k[i]) || k[i] == '.' by {
        if i < t.len() {
            assert(k[i] == t[i]);
        } else if i > t.len() {
            assert(k[i] == f[i - t.len() - 1]);
        }
    }
    assert(wordly(k[0]) || k[0] == '.');
    assert(wordly(k.last()) || k.last() == '.');
    text::lemma_trim_id(k);
    text::lemma_holds(k, '.');
}

proof fn lemma_hex_line(c: Option<Rgb>)
    ensures
        one_line(opt_hex(c)),
        kept(opt_hex(c)) == opt_hex(c),
{
    if c is Some {
        let h = hex_text(c->0);
        assert forall|n: int| 0 <= n < 16 implies !text::is_white(#[trigger] hex_digit(n)) && hex_digit(n)
            != '\n' by {}
        assert(!text::is_white(h[0]) && !text::is_white(h.last()));
        text::lemma_trim_id(h);
        assert forall|i: int| 0 <= i < h.len() implies h[i] != '\n' by {}
    }
}

proof fn lemma_put_writable(m: Map<Seq<char>, Seq<char>>, l: Layer, f: Seq<char>, v: Option<Seq<char>>)
    requires
        writable_map(m),
        is_field(f),
        one_line(v),
    ensures
        writable_map(put_field(m, kind_key_spec(l), f, v)),
{
    if v is Some {
        lemma_field_writable(l, f, v->0);
    }
    let n = put_field(m, kind_key_spec(l), f, v);
    assert forall|k: Seq<char>| #[trigger] n.contains_key(k) implies writable(k, n[k]) by {
        if k != full_key(kind_key_spec(l), f) {
            assert(m.contains_key(k));
        }
    }
}

/// A capture leaves only what a file can hold.
proof fn lemma_captured_writable(
    m: Map<Seq<char>, Seq<char>>,
    l: Layer,
    opacity: Seq<char>,
    fill: Option<Seq<char>>,
)
    requires
        writable_map(m),
        storable(l, opacity, fill),
    ensures
        writable_map(captured(m, l, opacity, fill)),
{
    let k = kind_key_spec(l);
    lemma_hex_line(l.look.colour);
    lemma_hex_line(l.look.sub_colour);
    let m1 = put_field(m, k, "opacity"@, Some(opacity));
    lemma_put_writable(m, l, "opacity"@, Some(opacity));
    let m2 = put_field(m1, k, "blend"@, Some(l.look.blend@));
    lemma_put_writable(m1, l, "blend"@, Some(l.look.blend@));
    let m3 = put_field(m2, k, "colour"@, opt_hex(l.look.colour));
    lemma_put_writable(m2, l, "colour"@, opt_hex(l.look.colour));
    let m4 = put_field(m3, k, "sub_colour"@, opt_hex(l.look.sub_colour));
    lemma_put_writable(m3, l, "sub_colour"@, opt_hex(l.look.sub_colour));
    let m5 = put_field(m4, k, "expression"@, opt_view(l.expression));
    lemma_put_writable(m4, l, "expression"@, opt_view(l.expression));
    let m6 = put_field(m5, k, "tone"@, opt_view(l.tone));
    lemma_put_writable(m5, l, "tone"@, opt_view(l.tone));
    let m7 = put_field(m6, k, "edge"@, opt_view(l.edge));
    lemma_put_writable(m6, l, "edge"@, opt_view(l.edge));
    let last = if l.kind is FillFlat || l.kind is FillTone {
        fill
    } else {
        None
    };
    lemma_put_writable(m7, l, "fill"@, last);
}

/// A capture is read back from the file that it is saved in, each text without
/// the white space around it.
pub proof fn law_a_capture_survives_a_save(
    m: Map<Seq<char>, Seq<char>>,
    l: Layer,
    opacity: Seq<char>,
    fill: Option<Seq<char>>,
    d: LayerDefaults,
)
    requires
        writable_map(m),
        storable(l, opacity, fill),
        d.wf(),
        d.map() == captured(m, l, opacity, fill),
    ensures
        lines_map(text::lines(body(d.entries()))) == trimmed_map(captured(m, l, opacity, fill)),
{
    lemma_captured_writable(m, l, opacity, fill);
    lemma_rows_writable(d);
    law_body_carries_the_rows(d.entries());
}

/// A trimmed field is what the file keeps of it.
proof fn lemma_kept_field(m: Map<Seq<char>, Seq<char>>, key: Seq<char>, f: Seq<char>)
    ensures
        field(trimmed_map(m), key, f) == kept(field(m, key, f)),
{
    let k = full_key(key, f);
    if m.contains_key(k) && m[k].len() == 0 {
        assert(text::trim(m[k]) =~= seq![]);
    }
}

/// A layer that was captured as the default of its type, saved and read again,
/// is what the next layer of that type starts as: its opacity as its writing
/// reads, its blend mode, its colours, its expression, its tone and its border
/// come back wherever it has them and they can be read, the tone but on folders
/// and vector layers and the border but on frame folders. The name, the
/// visibility and all else stay the new layer's own.
pub proof fn law_a_saved_default_comes_back(
    m: Map<Seq<char>, Seq<char>>,
    src: Layer,
    opacity: Seq<char>,
    fill: Option<Seq<char>>,
    d: LayerDefaults,
    r: LayerDefaults,
    was: Layer,
    l: Layer,
    read: Readings,
)
    requires
        writable_map(m),
        storable(src, opacity, fill),
        d.wf(),
        d.map() == captured(m, src, opacity, fill),
        r.map() == lines_map(text::lines(body(d.entries()))),
        kind_key_spec(was) == kind_key_spec(src),
        r.born(was, l, read),
    ensures
        l == (Layer { look: l.look, tone: l.tone, edge: l.edge, expression: l.expression, ..was }),
        l.look == (crate::doc::Look {
            opacity: l.look.opacity,
            blend: l.look.blend,
            colour: l.look.colour,
            sub_colour: l.look.sub_colour,
            ..was.look
        }),
        l.look.opacity == (match read.opacity {
            Some(v) => if finite(v) && kept(Some(opacity)) is Some { to_unit(v) } else { was.look.opacity },
            None => was.look.opacity,
        }),
        Some(l.look.blend@) == taken(kept(Some(src.look.blend@)), read.blend, Some(was.look.blend@)),
        l.look.colour == (if src.look.colour is Some {
            src.look.colour
        } else {
            was.look.colour
        }),
        l.look.sub_colour == (if src.look.sub_colour is Some {
            src.look.sub_colour
        } else {
            was.look.sub_colour
        }),
        opt_view(l.expression) == taken(kept(opt_view(src.expression)), read.expression, opt_view(was.expression)),
        opt_view(l.tone) == taken(
            kept(opt_view(src.tone)),
            read.tone && !was.folder && !was.is_vector_spec(),
            opt_view(was.tone),
        ),
        opt_view(l.edge) == taken(
            kept(opt_view(src.edge)),
            read.edge && !(was.folder && was.is_frame_spec()),
            opt_view(was.edge),
        ),
{
    let key = kind_key_spec(src);
    let c = captured(m, src, opacity, fill);
    law_a_capture_survives_a_save(m, src, opacity, fill, d);
    law_capture_is_read_back(m, src, opacity, fill);
    lemma_kept_field(c, key, "opacity"@);
    lemma_kept_field(c, key, "blend"@);
    lemma_kept_field(c, key, "colour"@);
    lemma_kept_field(c, key, "sub_colour"@);
    lemma_kept_field(c, key, "expression"@);
    lemma_kept_field(c, key, "tone"@);
    lemma_kept_field(c, key, "edge"@);
    lemma_kept_nonempty(Some(opacity));
    lemma_kept_nonempty(Some(src.look.blend@));
    lemma_kept_nonempty(opt_view(src.expression));
    lemma_kept_nonempty(opt_view(src.tone));
    lemma_kept_nonempty(opt_view(src.edge));
    lemma_hex_line(src.look.colour);
    lemma_hex_line(src.look.sub_colour);
    if src.look.colour is Some {
        law_hex_round_trip(src.look.colour->0);
    }
    if src.look.sub_colour is Some {
        law_hex_round_trip(src.look.sub_colour->0);
    }
}

proof fn lemma_kept_nonempty(v: Option<Seq<char>>)
    ensures
        kept(nonempty(v)) == kept(v),
{
    if v is Some && v->0.len() == 0 {
        assert(text::trim(v->0) =~= seq![]);
    }
}

/// A default belongs to one type alone: a layer of another type starts as it
/// did before the capture, and where that type has no default of its own it
/// stays as it is.
pub proof fn law_other_types_stay(
    m: Map<Seq<char>, Seq<char>>,
    src: Layer,
    opacity: Seq<char>,
    fill: Option<Seq<char>>,
    d: LayerDefaults,
    r: LayerDefaults,
    before: LayerDefaults,
    was: Layer,
    l: Layer,
    read: Readings,
)
    requires
        writable_map(m),
        storable(src, opacity, fill),
        before.map() == trimmed_map(m),
        d.wf(),
        d.map() == captured(m, src, opacity, fill),
        r.map() == lines_map(text::lines(body(d.entries()))),
        kind_key_spec(was) != kind_key_spec(src),
        r.born(was, l, read),
    ensures
        before.born(was, l, read),
        !has_any(m, kind_key_spec(was)) ==> same_layer(l, was),
{
    law_a_capture_survives_a_save(m, src, opacity, fill, d);
    let key = kind_key_spec(was);
    let c = captured(m, src, opacity, fill);
    assert forall|f: Seq<char>| is_field(f) implies #[trigger] field(trimmed_map(c), key, f) == field(
        trimmed_map(m),
        key,
        f,
    ) && (field(m, key, f) is None ==> field(trimmed_map(c), key, f) is None) by {
        lemma_fields_plain(f);
        let k = full_key(key, f);
        assert forall|g: Seq<char>| is_field(g) implies k != #[trigger] full_key(kind_key_spec(src), g) by {
            lemma_fields_plain(g);
            if k == full_key(kind_key_spec(src), g) {
                lemma_full_key(key, f, kind_key_spec(src), g);
            }
        }
        law_capture_keeps_the_rest(m, src, opacity, fill, k);
        lemma_kept_field(c, key, f);
        lemma_kept_field(m, key, f);
    }
    assert(field(trimmed_map(c), key, "opacity"@) == field(trimmed_map(m), key, "opacity"@));
    assert(field(trimmed_map(c), key, "blend"@) == field(trimmed_map(m), key, "blend"@));
    assert(field(trimmed_map(c), key, "colour"@) == field(trimmed_map(m), key, "colour"@));
    assert(field(trimmed_map(c), key, "sub_colour"@) == field(trimmed_map(m), key, "sub_colour"@));
    assert(field(trimmed_map(c), key, "expression"@) == field(trimmed_map(m), key, "expression"@));
    assert(field(trimmed_map(c), key, "tone"@) == field(trimmed_map(m), key, "tone"@));
    assert(field(trimmed_map(c), key, "edge"@) == field(trimmed_map(m), key, "edge"@));
}

impl App {
    /// What the defaults make of a new layer.
    pub open spec fn defaults_applied(self, after: App, toned: bool, index: usize, read: Readings) -> bool {
        &&& after == (App { doc: after.doc, ..self })
        &&& after.doc == (Document { layers: after.doc.layers, ..self.doc })
        &&& index >= self.doc.layers@.len() ==> after.doc.layers@ == self.doc.layers@ && !toned
        &&& index < self.doc.layers@.len() ==> {
            &&& after.doc.layers@ == self.doc.layers@.update(
                index as int,
                after.doc.layers@[index as int],
            )
            &&& self.layer_defaults.born(
                self.doc.layers@[index as int],
                after.doc.layers@[index as int],
                read,
            )
            &&& toned == (after.doc.layers@[index as int].tone is Some)
        }
    }

    /// Gives the layer at `index`, fresh from its maker, the default of its own
    /// type; beyond the stack nothing happens. Says whether the layer has a tone
    /// now, so that the tones are to be drawn anew.
    pub fn apply_layer_defaults(&mut self, index: usize, read: &Readings) -> (toned: bool)
        requires
            old(self).layer_defaults.wf(),
        ensures
            old(self).defaults_applied(*final(self), toned, index, *read),
            old(self).wf() ==> final(self).wf(),
    {
        if index >= self.doc.layers.len() {
            return false;
        }
        let l = &mut self.doc.layers[index];
        self.layer_defaults.apply(l, read);
        self.doc.layers[index].tone.is_some()
    }
}

proof fn lemma_kinds_differ()
    ensures
        "raster"@.len() == 6 && "raster"@[0] == 'r',
        "vector"@.len() == 6 && "vector"@[0] == 'v',
        "folder"@.len() == 6 && "folder"@[0] == 'f',
        "fill"@.len() == 4 && "fill"@[0] == 'f',
        "tone"@.len() == 4 && "tone"@[1] == 'o' && "tone"@[0] == 't',
        "text"@.len() == 4 && "text"@[1] == 'e' && "text"@[0] == 't',
        "gradient"@.len() == 8,
        "correction"@.len() == 10,
        "balloon"@.len() == 7,
        "frame"@.len() == 5,
        "frame-folder"@.len() == 12,
{
    reveal_strlit("raster");
    reveal_strlit("vector");
    reveal_strlit("folder");
    reveal_strlit("fill");
    reveal_strlit("gradient");
    reveal_strlit("tone");
    reveal_strlit("correction");
    reveal_strlit("text");
    reveal_strlit("balloon");
    reveal_strlit("frame");
    reveal_strlit("frame-folder");
}

/// A layer's type is what it holds: a folder is one whatever it holds, but for
/// the frame folder; of plain pixels, strokes are a type of their own.
pub proof fn law_a_layer_has_its_type(l: Layer)
    ensures
        l.folder && l.kind is Frame ==> kind_key_spec(l) == "frame-folder"@,
        l.folder && !(l.kind is Frame) ==> kind_key_spec(l) == "folder"@,
        !l.folder && l.kind is Text ==> kind_key_spec(l) == "text"@,
        !l.folder && l.kind is Balloon ==> kind_key_spec(l) == "balloon"@,
        !l.folder && l.kind is Frame ==> kind_key_spec(l) == "frame"@,
        !l.folder && l.kind is FillFlat ==> kind_key_spec(l) == "fill"@,
        !l.folder && l.kind is FillGradient ==> kind_key_spec(l) == "gradient"@,
        !l.folder && l.kind is FillTone ==> kind_key_spec(l) == "tone"@,
        !l.folder && l.kind is Correction ==> kind_key_spec(l) == "correction"@,
        !l.folder && l.kind is Raster && l.strokes ==> kind_key_spec(l) == "vector"@,
        !l.folder && l.kind is Raster && !l.strokes ==> kind_key_spec(l) == "raster"@,
{
}

/// Defaults are for every type but those that are made of shapes.
pub proof fn law_shapes_take_no_defaults(l: Layer)
    ensures
        applies_to_spec(kind_key_spec(l)) == !(l.kind is Frame || (!l.folder && (l.kind is Balloon || l.kind is Text))),
{
    lemma_kinds_differ();
}

/// Every type is named as its layers are, and an unknown one as a type.
pub proof fn law_types_are_named(key: Seq<char>)
    ensures
        kind_label_spec("raster"@) == "raster layers"@,
        kind_label_spec("vector"@) == "vector layers"@,
        kind_label_spec("folder"@) == "folders"@,
        kind_label_spec("fill"@) == "fill layers"@,
        kind_label_spec("gradient"@) == "gradient layers"@,
        kind_label_spec("tone"@) == "tone layers"@,
        kind_label_spec("correction"@) == "correction layers"@,
        kind_label_spec("text"@) == "text layers"@,
        kind_label_spec("balloon"@) == "balloon layers"@,
        kind_label_spec("frame"@) == "frame layers"@,
        kind_label_spec("frame-folder"@) == "frame folders"@,
        key.len() > 12 || key.len() < 4 ==> kind_label_spec(key) == "layers of this type"@,
{
    lemma_kinds_differ();
}

/// The three live fills have the types of their layers.
pub proof fn law_a_fill_has_the_type_of_its_layer(l: Layer)
    requires
        !l.folder,
    ensures
        l.kind is FillFlat ==> variant_key(FillVariant::Flat) == kind_key_spec(l),
        l.kind is FillGradient ==> variant_key(FillVariant::Gradient) == kind_key_spec(l),
        l.kind is FillTone ==> variant_key(FillVariant::Tone) == kind_key_spec(l),
        variant_key(FillVariant::Flat) == "fill"@,
        variant_key(FillVariant::Gradient) == "gradient"@,
        variant_key(FillVariant::Tone) == "tone"@,
{
}

/// A type has defaults where any of its fields has a value; an empty value is
/// none.
pub proof fn law_one_field_is_enough(m: Map<Seq<char>, Seq<char>>, key: Seq<char>, f: Seq<char>)
    requires
        f == "opacity"@ || f == "blend"@ || f == "colour"@ || f == "sub_colour"@ || f == "expression"@ || f == "tone"@ || f
            == "edge"@ || f == "fill"@,
    ensures
        is_field(f),
        m.contains_key(key + "."@ + f) && m[key + "."@ + f].len() > 0 ==> has_any(m, key) && field(m, key, f) == Some(
            m[key + "."@ + f],
        ),
        !m.contains_key(key + "."@ + f) || m[key + "."@ + f].len() == 0 ==> field(m, key, f) is None,
        m == Map::<Seq<char>, Seq<char>>::empty() ==> !has_any(m, key),
{
}

/// What a summary lists: a word for each default that is set, opacity and blend
/// under one.
pub proof fn law_a_summary_lists_what_is_set(m: Map<Seq<char>, Seq<char>>, key: Seq<char>)
    ensures
        ({
            let c = covered(m, key);
            let looks = field(m, key, "blend"@) is Some || field(m, key, "opacity"@) is Some;
            let n = |b: bool| if b { 1int } else { 0int };
            &&& c.len() == n(looks) + n(field(m, key, "fill"@) is Some) + n(field(m, key, "tone"@) is Some) + n(
                field(m, key, "colour"@) is Some,
            ) + n(field(m, key, "edge"@) is Some) + n(field(m, key, "expression"@) is Some)
            &&& looks ==> c[0] == "blend + opacity"@
            &&& field(m, key, "expression"@) is Some ==> c.last() == "1-bit preview"@
            &&& field(m, key, "edge"@) is Some ==> c[c.len() - 1 - n(field(m, key, "expression"@) is Some)]
                == "border effect"@
            &&& field(m, key, "fill"@) is Some ==> c[n(looks)] == "fill params"@
            &&& field(m, key, "tone"@) is Some ==> c[n(looks) + n(field(m, key, "fill"@) is Some)] == "tone"@
            &&& field(m, key, "colour"@) is Some ==> c[n(looks) + n(field(m, key, "fill"@) is Some) + n(
                field(m, key, "tone"@) is Some,
            )] == "layer colour"@
        }),
{
}

/// A later line of the same setting counts, and a line that names none changes
/// nothing.
pub proof fn law_the_last_line_counts(ls: Seq<Seq<char>>, l: Seq<char>, k: Seq<char>, v: Seq<char>)
    ensures
        line_entry(l) == Some((k, v)) ==> lines_map(ls.push(l)) == lines_map(ls).insert(k, v),
        line_entry(l) is None ==> lines_map(ls.push(l)) == lines_map(ls),
        lines_map(seq![]) == Map::<Seq<char>, Seq<char>>::empty(),
{
    assert(ls.push(l).drop_last() =~= ls);
}

/// A line that starts with a hash, that has no sign, or whose name has no dot
/// names no setting.
pub proof fn law_these_lines_name_no_setting(l: Seq<char>)
    ensures
        text::trim(l).len() == 0 ==> line_entry(l) is None,
        text::trim(l).len() > 0 && text::trim(l)[0] == '#' ==> line_entry(l) is None,
        !l.contains('=') ==> line_entry(l) is None,
        !l.contains('.') ==> line_entry(l) is None,
        line_entry(l) matches Some(e) ==> e.0.len() > 0 && e.0.contains('.') && !e.0.contains('='),
{
    let t = text::trim(l);
    let k = text::find(t, '=');
    lemma_trim_shape(l);
    text::lemma_find(t, '=');
    lemma_trim_shape(t.take(k));
    let key = text::trim(t.take(k));
    text::lemma_holds(key, '.');
    if k < t.len() {
        assert(t[k] == '=');
        assert(t.contains('='));
    }
    if key.contains('.') {
        assert(t.take(k).contains('.'));
        let i = choose|i: int| 0 <= i < t.take(k).len() && t.take(k)[i] == '.';
        assert(t[i] == '.');
        assert(t.contains('.'));
    }
    if key.contains('=') {
        assert(t.take(k).contains('='));
        let i = choose|i: int| 0 <= i < t.take(k).len() && t.take(k)[i] == '=';
        assert(t[i] == '=');
    }
}

/// A colour is a hash and two digits for each channel, small letters for the
/// digits above nine.
pub proof fn law_a_colour_has_two_digits_a_channel(c: Rgb, i: int)
    ensures
        hex_text(c).len() == 7,
        hex_text(c)[0] == '#',
        hex_value(hex_text(c)[1]) * 16 + hex_value(hex_text(c)[2]) == c.r,
        hex_value(hex_text(c)[3]) * 16 + hex_value(hex_text(c)[4]) == c.g,
        hex_value(hex_text(c)[5]) * 16 + hex_value(hex_text(c)[6]) == c.b,
        1 <= i < 7 ==> '0' <= hex_text(c)[i] <= '9' || 'a' <= hex_text(c)[i] <= 'f',
        opt_hex(Some(c)) == Some(hex_text(c)),
        opt_hex(None) is None,
{
}

/// Six digits are a colour with or without the hash, capitals or not; any other
/// number of them is none.
pub proof fn law_a_colour_needs_six_digits(s: Seq<char>)
    ensures
        s.len() > 7 || s.len() < 6 ==> hex_colour(s) is None,
        s.len() == 7 && s[0] != '#' ==> hex_colour(s) is None,
        s.len() == 6 && s[0] != '#' ==> hex_colour(seq!['#'] + s) == hex_colour(s),
        hex_value('0') == 0 && hex_value('9') == 9 && hex_value('a') == 10 && hex_value('f') == 15 && hex_value('A') == 10
            && hex_value('F') == 15 && hex_value('g') == -1,
{
    assert((seq!['#'] + s).skip(1) =~= s);
}

/// A number between nothing and full stays as it is, a greater one is full, and
/// one below nothing is nothing.
pub proof fn law_an_opacity_is_held(v: u32)
    requires
        finite(v),
    ensures
        v <= 0x3f80_0000 ==> to_unit(v) == v,
        0x3f80_0000 <= v < 0x7f80_0000 ==> to_unit(v) == 0x3f80_0000,
        v > 0x8000_0000 ==> to_unit(v) == 0,
{
}

/// A new layer takes the defaults of its type on its look, and nothing else of
/// it changes. A folder and a layer of shapes take no tone, and a frame folder no
/// border effect. What cannot be read leaves the layer as it was.
pub proof fn law_a_new_layer_takes_its_defaults(d: LayerDefaults, was: Layer, l: Layer, read: Readings)
    requires
        d.born(was, l, read),
    ensures
        l.id == was.id && l.name == was.name && l.kind == was.kind && l.folder == was.folder && l.lock == was.lock,
        l.look.visible == was.look.visible,
        was.folder || was.kind is Frame || was.kind is Balloon || was.kind is Text || !read.tone ==> opt_view(l.tone)
            == opt_view(was.tone),
        (was.folder && was.kind is Frame) || !read.edge ==> opt_view(l.edge) == opt_view(was.edge),
        !read.blend ==> l.look.blend@ == was.look.blend@,
        !read.expression ==> opt_view(l.expression) == opt_view(was.expression),
        read.opacity is None ==> l.look.opacity == was.look.opacity,
        ({
            let m = d.map();
            let key = kind_key_spec(was);
            let given = |f: Seq<char>| m.contains_key(key + "."@ + f) && m[key + "."@ + f].len() > 0;
            &&& !given("blend"@) ==> l.look.blend@ == was.look.blend@
            &&& given("blend"@) && read.blend ==> l.look.blend@ == m[key + "."@ + "blend"@]
            &&& given("expression"@) && read.expression ==> opt_view(l.expression) == Some(m[key + "."@ + "expression"@])
            &&& given("tone"@) && read.tone && !was.folder && !(was.kind is Frame || was.kind is Balloon || was.kind is Text)
                ==> opt_view(l.tone) == Some(m[key + "."@ + "tone"@])
            &&& given("edge"@) && read.edge && !(was.folder && was.kind is Frame) ==> opt_view(l.edge) == Some(
                m[key + "."@ + "edge"@],
            )
            &&& !given("opacity"@) ==> l.look.opacity == was.look.opacity
            &&& given("opacity"@) ==> (read.opacity matches Some(v) ==> v <= 0x3f80_0000 ==> l.look.opacity == v)
            &&& !given("colour"@) ==> l.look.colour == was.look.colour
            &&& !given("sub_colour"@) ==> l.look.sub_colour == was.look.sub_colour
            &&& forall|c: Rgb| given("colour"@) && m[key + "."@ + "colour"@] == #[trigger] hex_text(c) ==> l.look.colour == Some(c)
        }),
{
    assert forall|c: Rgb| #[trigger] hex_colour(hex_text(c)) == Some(c) by {
        law_hex_round_trip(c);
    }
}

/// The defaults go to the new layer alone; a tone on it is told.
pub proof fn law_defaults_go_to_the_new_layer(app: App, after: App, toned: bool, index: usize, read: Readings, k: int)
    requires
        app.defaults_applied(after, toned, index, read),
    ensures
        after.doc.layers@.len() == app.doc.layers@.len(),
        0 <= k < app.doc.layers@.len() && k != index ==> after.doc.layers@[k] == app.doc.layers@[k],
        index >= app.doc.layers@.len() ==> !toned && after.doc.layers@ == app.doc.layers@,
        index < app.doc.layers@.len() ==> {
            &&& toned == after.doc.layers@[index as int].tone is Some
            &&& after.doc.layers@[index as int].id == app.doc.layers@[index as int].id
            &&& after.doc.layers@[index as int].kind == app.doc.layers@[index as int].kind
        },
        after.doc.active == app.doc.active,
        after.doc.undo_labels == app.doc.undo_labels,
        after.shell == app.shell,
{
}

} // verus!
