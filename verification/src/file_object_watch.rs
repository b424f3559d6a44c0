//! What the watcher over linked picture files decides: which folders to wait
//! on, which notifications count, and when a burst of them is one save.
//!
//! An editor's save is a burst: a temporary file, a rename, a modification.
//! The answer to a burst is one refresh. The waiting itself is the shell's.

use vstd::prelude::*;
use crate::layer_defaults::{before, lemma_before_irreflexive, lemma_before_total, lemma_before_transitive, place, Place};
use crate::text;

verus! {

/// `str::to_lowercase`, by Unicode's tables.
pub uninterp spec fn lower(s: Seq<char>) -> Seq<char>;

/// `str::to_lowercase`: the lower-case form of a text, which the text alone
/// decides.
#[verifier::external_body]
fn to_lower(s: &str) -> (r: String)
    ensures
        r@ == lower(s@),
{
    s.to_lowercase()
}

/// The character of a code point behind the surrogates' pairing.
pub open spec fn paired(hi: u16, lo: u16) -> char {
    (0x10000 + (hi as int - 0xd800) * 0x400 + (lo as int - 0xdc00)) as char
}

/// UTF-16 as text: a pair of surrogates is one character, a surrogate without
/// its partner is U+FFFD.
pub open spec fn utf16_text(u: Seq<u16>) -> Seq<char>
    decreases u.len(),
{
    if u.len() == 0 {
        seq![]
    } else if !(0xd800 <= u[0] <= 0xdfff) {
        seq![u[0] as char] + utf16_text(u.skip(1))
    } else if u[0] <= 0xdbff && u.len() > 1 && 0xdc00 <= u[1] <= 0xdfff {
        seq![paired(u[0], u[1])] + utf16_text(u.skip(2))
    } else {
        seq!['\u{fffd}'] + utf16_text(u.skip(1))
    }
}

/// `String::from_utf16_lossy`: UTF-16 as text, what does not pair replaced by
/// U+FFFD.
#[verifier::external_body]
fn from_utf16(u: &Vec<u16>) -> (r: String)
    ensures
        r@ == utf16_text(u@),
{
    String::from_utf16_lossy(u)
}

/// A linked file. `dir` is its folder, as the components of the path, each
/// ended by U+0000, so that the order of the texts is the order of the paths.
#[derive(Debug)]
pub struct Link {
    pub dir: String,
    pub name: Option<String>,
}

/// The folders to wait on, and the names of the linked files in them.
#[derive(Debug)]
pub struct Plan {
    pub dirs: Vec<String>,
    pub names: Vec<String>,
}

/// The texts rise strictly, so none occurs twice.
pub open spec fn rising(v: Seq<String>) -> bool {
    forall|i: int, j: int|
        0 <= i < j < v.len() ==> before((#[trigger] v[i])@, (#[trigger] v[j])@)
}

/// Is the text among these?
pub open spec fn among(v: Seq<String>, s: Seq<char>) -> bool {
    exists|i: int| 0 <= i < v.len() && (#[trigger] v[i])@ == s
}

/// Puts a text among others that rise, at its place.
fn insert_rising(v: &mut Vec<String>, s: String)
    requires
        rising(old(v)@),
    ensures
        rising(final(v)@),
        forall|t: Seq<char>| #[trigger] among(final(v)@, t) <==> among(old(v)@, t) || t == s@,
{
    let ghost was = v@;
    let ghost gs = s@;
    let mut i: usize = 0;
    while i < v.len()
        invariant
            i <= v@.len(),
            v@ == was,
            rising(was),
            gs == s@,
            forall|j: int| 0 <= j < i ==> before((#[trigger] was[j])@, gs),
        ensures
            i < was.len() ==> before(gs, was[i as int]@),
        decreases v.len() - i,
    {
        match place(v[i].as_str(), s.as_str()) {
            Place::Below => {},
            Place::Same => {
                assert(was[i as int]@ == gs);
                return;
            },
            Place::Above => {
                break;
            },
        }
        i = i + 1;
    }
    v.insert(i, s);
    proof {
        let now = v@;
        assert(now =~= was.insert(i as int, now[i as int]));
        assert forall|a: int, b: int| 0 <= a < b < now.len() implies before(
            (#[trigger] now[a])@,
            (#[trigger] now[b])@,
        ) by {
            let x = if a < i {
                a
            } else {
                a - 1
            };
            let y = if b < i {
                b
            } else {
                b - 1
            };
            if a != i && b != i {
                assert(before(was[x]@, was[y]@));
            } else if a == i {
                if y > i {
                    lemma_before_transitive(gs, was[i as int]@, was[y]@);
                }
            } else {
                assert(before(was[x]@, gs));
            }
        }
        assert forall|t: Seq<char>| #[trigger] among(now, t) <==> among(was, t) || t == gs by {
            if among(now, t) {
                let a = choose|a: int| 0 <= a < now.len() && (#[trigger] now[a])@ == t;
                if a < i {
                    assert(was[a]@ == t);
                } else if a > i {
                    assert(was[a - 1]@ == t);
                }
            }
            if among(was, t) {
                let a = choose|a: int| 0 <= a < was.len() && (#[trigger] was[a])@ == t;
                let x = if a < i {
                    a
                } else {
                    a + 1
                };
                assert(now[x]@ == t);
            }
            if t == gs {
                assert(now[i as int]@ == t);
            }
        }
    }
}

/// A folder of the links.
pub open spec fn is_dir(links: Seq<Link>, d: Seq<char>) -> bool {
    exists|i: int| 0 <= i < links.len() && (#[trigger] links[i]).dir@ == d
}

/// The lower-case name of a linked file.
pub open spec fn is_name(links: Seq<Link>, n: Seq<char>) -> bool {
    exists|i: int|
        0 <= i < links.len() && (#[trigger] links[i]).name is Some && lower(links[i].name->0@) == n
}

/// The links' folders, each once and in order; where there are more than a
/// wait can hold, the first 63 of them.
pub open spec fn parents_of(links: Seq<Link>, r: Seq<String>) -> bool {
    &&& rising(r)
    &&& r.len() <= 63
    &&& forall|i: int| 0 <= i < r.len() ==> is_dir(links, (#[trigger] r[i])@)
    &&& forall|d: Seq<char>| #[trigger]
        is_dir(links, d) ==> among(r, d) || (r.len() == 63 && forall|i: int|
            0 <= i < r.len() ==> before((#[trigger] r[i])@, d))
}

/// The names that the watcher answers to, each once and in order.
pub open spec fn names_of(links: Seq<Link>, r: Seq<String>) -> bool {
    &&& rising(r)
    &&& forall|n: Seq<char>| #[trigger] among(r, n) <==> is_name(links, n)
}

/// The distinct folders of the links, at most 63 of them.
pub fn distinct_parents(links: &[Link]) -> (r: Vec<String>)
    ensures
        parents_of(links@, r@),
{
    let mut v: Vec<String> = Vec::new();
    let mut i: usize = 0;
    while i < links.len()
        invariant
            i <= links.len(),
            rising(v@),
            forall|d: Seq<char>| #[trigger] among(v@, d) <==> is_dir(links@.take(i as int), d),
        decreases links.len() - i,
    {
        let ghost was = v@;
        insert_rising(&mut v, links[i].dir.clone());
        proof {
            let a = links@.take(i as int);
            let b = links@.take(i as int + 1);
            assert forall|d: Seq<char>| #[trigger] among(v@, d) <==> is_dir(b, d) by {
                assert(among(v@, d) <==> among(was, d) || d == links@[i as int].dir@);
                if is_dir(a, d) {
                    let k = choose|k: int| 0 <= k < a.len() && (#[trigger] a[k]).dir@ == d;
                    assert(b[k].dir@ == d);
                }
                if is_dir(b, d) {
                    let k = choose|k: int| 0 <= k < b.len() && (#[trigger] b[k]).dir@ == d;
                    if k < i {
                        assert(a[k].dir@ == d);
                    }
                }
                if d == links@[i as int].dir@ {
                    assert(b[i as int].dir@ == d);
                }
            }
        }
        i = i + 1;
    }
    let ghost all = v@;
    v.truncate(63);
    proof {
        assert(links@.take(links@.len() as int) =~= links@);
        let r = v@;
        let n: int = if all.len() <= 63 {
            all.len() as int
        } else {
            63
        };
        assert(r =~= all.take(n));
        assert forall|k: int| 0 <= k < r.len() implies is_dir(links@, (#[trigger] r[k])@) by {
            assert(all[k]@ == r[k]@);
            assert(among(all, r[k]@));
        }
        assert forall|d: Seq<char>| #[trigger] is_dir(links@, d) implies among(r, d) || (r.len() == 63
            && forall|k: int| 0 <= k < r.len() ==> before((#[trigger] r[k])@, d)) by {
            assert(among(all, d));
            let x = choose|x: int| 0 <= x < all.len() && (#[trigger] all[x])@ == d;
            if x < n {
                assert(r[x]@ == d);
            } else {
                assert forall|k: int| 0 <= k < r.len() implies before((#[trigger] r[k])@, d) by {
                    assert(before(all[k]@, all[x]@));
                }
            }
        }
        assert forall|a: int, b: int| 0 <= a < b < r.len() implies before(
            (#[trigger] r[a])@,
            (#[trigger] r[b])@,
        ) by {
            assert(before(all[a]@, all[b]@));
        }
    }
    v
}

/// The lower-case names of the linked files.
pub fn basename_set(links: &[Link]) -> (r: Vec<String>)
    ensures
        names_of(links@, r@),
{
    let mut v: Vec<String> = Vec::new();
    let mut i: usize = 0;
    while i < links.len()
        invariant
            i <= links.len(),
            rising(v@),
            forall|d: Seq<char>| #[trigger] among(v@, d) <==> is_name(links@.take(i as int), d),
        decreases links.len() - i,
    {
        let ghost was = v@;
        let ghost a = links@.take(i as int);
        let ghost b = links@.take(i as int + 1);
        match &links[i].name {
            Some(n) => {
                let l = to_lower(n.as_str());
                let ghost gl = l@;
                insert_rising(&mut v, l);
                proof {
                    assert forall|d: Seq<char>| #[trigger] among(v@, d) <==> is_name(b, d) by {
                        assert(among(v@, d) <==> among(was, d) || d == gl);
                        if is_name(a, d) {
                            let k = choose|k: int|
                                0 <= k < a.len() && (#[trigger] a[k]).name is Some && lower(
                                    a[k].name->0@,
                                ) == d;
                            assert(b[k] == a[k]);
                        }
                        if is_name(b, d) {
                            let k = choose|k: int|
                                0 <= k < b.len() && (#[trigger] b[k]).name is Some && lower(
                                    b[k].name->0@,
                                ) == d;
                            if k < i {
                                assert(a[k] == b[k]);
                            }
                        }
                        if d == gl {
                            assert(b[i as int].name is Some);
                        }
                    }
                }
            },
            None => {
                proof {
                    assert forall|d: Seq<char>| #[trigger] among(v@, d) <==> is_name(b, d) by {
                        assert(among(v@, d) <==> is_name(a, d));
                        if is_name(a, d) {
                            let k = choose|k: int|
                                0 <= k < a.len() && (#[trigger] a[k]).name is Some && lower(
                                    a[k].name->0@,
                                ) == d;
                            assert(b[k] == a[k]);
                        }
                        if is_name(b, d) {
                            let k = choose|k: int|
                                0 <= k < b.len() && (#[trigger] b[k]).name is Some && lower(
                                    b[k].name->0@,
                                ) == d;
                            assert(k < i);
                            assert(a[k] == b[k]);
                        }
                    }
                }
            },
        }
        i = i + 1;
    }
    assert(links@.take(links@.len() as int) =~= links@);
    v
}

impl Plan {
    /// The watch set of the links.
    pub fn of(links: &[Link]) -> (r: Plan)
        ensures
            parents_of(links@, r.dirs@),
            names_of(links@, r.names@),
    {
        Plan { dirs: distinct_parents(links), names: basename_set(links) }
    }

    /// The plan's texts.
    pub open spec fn spec(self) -> (Seq<Seq<char>>, Seq<Seq<char>>) {
        (text::strings(self.dirs@), text::strings(self.names@))
    }

    /// Do the two plans wait on the same folders for the same names?
    pub fn same(&self, other: &Plan) -> (r: bool)
        ensures
            r == (self.spec() == other.spec()),
    {
        crate::layout::same_list(self.dirs.as_slice(), other.dirs.as_slice())
            && crate::layout::same_list(self.names.as_slice(), other.names.as_slice())
    }

    /// A copy of the plan.
    pub fn copy(&self) -> (r: Plan)
        ensures
            r.spec() == self.spec(),
    {
        Plan {
            dirs: crate::layout::copy_list(self.dirs.as_slice()),
            names: crate::layout::copy_list(self.names.as_slice()),
        }
    }
}

proof fn lemma_first(l: Seq<Link>, a: Seq<String>, b: Seq<String>, n: int)
    requires
        rising(a),
        parents_of(l, b),
        is_dir(l, a[n]@),
        0 <= n < a.len(),
        n < b.len(),
        forall|i: int| 0 <= i < n ==> (#[trigger] a[i])@ == b[i]@,
    ensures
        !before(a[n]@, b[n]@),
{
    lemma_before_irreflexive(a[n]@);
    if before(a[n]@, b[n]@) {
        if among(b, a[n]@) {
            let k = choose|k: int| 0 <= k < b.len() && (#[trigger] b[k])@ == a[n]@;
            if k < n {
                assert(before(a[k]@, a[n]@));
            } else if k > n {
                assert(before(b[n]@, b[k]@));
                lemma_before_transitive(a[n]@, b[n]@, a[n]@);
            }
        } else {
            assert(before(b[n]@, a[n]@));
            lemma_before_transitive(a[n]@, b[n]@, a[n]@);
        }
    }
}

proof fn lemma_prefix(l: Seq<Link>, m: Seq<Link>, a: Seq<String>, b: Seq<String>, n: int)
    requires
        parents_of(l, a),
        parents_of(m, b),
        forall|d: Seq<char>| #[trigger] is_dir(l, d) <==> is_dir(m, d),
        0 <= n <= a.len(),
        n <= b.len(),
    ensures
        forall|i: int| 0 <= i < n ==> (#[trigger] a[i])@ == b[i]@,
    decreases n,
{
    if n > 0 {
        lemma_prefix(l, m, a, b, n - 1);
        assert(is_dir(l, a[n - 1]@));
        assert(is_dir(m, b[n - 1]@));
        lemma_first(m, a, b, n - 1);
        lemma_first(l, b, a, n - 1);
        lemma_before_total(a[n - 1]@, b[n - 1]@);
    }
}

proof fn lemma_not_longer(l: Seq<Link>, m: Seq<Link>, a: Seq<String>, b: Seq<String>)
    requires
        parents_of(l, a),
        parents_of(m, b),
        forall|d: Seq<char>| #[trigger] is_dir(l, d) <==> is_dir(m, d),
    ensures
        a.len() <= b.len(),
{
    if a.len() > b.len() {
        let n = b.len() as int;
        lemma_prefix(l, m, a, b, n);
        assert(is_dir(l, a[n]@));
        assert(among(b, a[n]@));
        let k = choose|k: int| 0 <= k < b.len() && (#[trigger] b[k])@ == a[n]@;
        assert(before(a[k]@, a[n]@));
        lemma_before_irreflexive(a[n]@);
    }
}

/// The folders that are watched depend on the set of the links' folders alone,
/// not on the order or the number of the links: every rebuild waits on the
/// same ones, and the limit cuts the same ones.
pub proof fn law_plan_is_deterministic(l: Seq<Link>, m: Seq<Link>, a: Seq<String>, b: Seq<String>)
    requires
        parents_of(l, a),
        parents_of(m, b),
        forall|d: Seq<char>| #[trigger] is_dir(l, d) <==> is_dir(m, d),
    ensures
        text::strings(a) == text::strings(b),
{
    lemma_not_longer(l, m, a, b);
    lemma_not_longer(m, l, b, a);
    lemma_prefix(l, m, a, b, a.len() as int);
    assert(text::strings(a) =~= text::strings(b));
}

proof fn lemma_not_first(a: Seq<String>, b: Seq<String>, n: int)
    requires
        rising(a),
        rising(b),
        among(b, a[n]@),
        0 <= n < a.len(),
        n < b.len(),
        forall|i: int| 0 <= i < n ==> (#[trigger] a[i])@ == b[i]@,
    ensures
        !before(a[n]@, b[n]@),
{
    lemma_before_irreflexive(a[n]@);
    if before(a[n]@, b[n]@) {
        let k = choose|k: int| 0 <= k < b.len() && (#[trigger] b[k])@ == a[n]@;
        if k < n {
            assert(before(a[k]@, a[n]@));
        } else if k > n {
            assert(before(b[n]@, b[k]@));
            lemma_before_transitive(a[n]@, b[n]@, a[n]@);
        }
    }
}

proof fn lemma_same_front(a: Seq<String>, b: Seq<String>, n: int)
    requires
        rising(a),
        rising(b),
        forall|t: Seq<char>| #[trigger] among(a, t) <==> among(b, t),
        0 <= n <= a.len(),
        n <= b.len(),
    ensures
        forall|i: int| 0 <= i < n ==> (#[trigger] a[i])@ == b[i]@,
    decreases n,
{
    if n > 0 {
        lemma_same_front(a, b, n - 1);
        assert(among(a, a[n - 1]@));
        assert(among(b, b[n - 1]@));
        lemma_not_first(a, b, n - 1);
        lemma_not_first(b, a, n - 1);
        lemma_before_total(a[n - 1]@, b[n - 1]@);
    }
}

proof fn lemma_no_more(a: Seq<String>, b: Seq<String>)
    requires
        rising(a),
        rising(b),
        forall|t: Seq<char>| #[trigger] among(a, t) <==> among(b, t),
    ensures
        a.len() <= b.len(),
{
    if a.len() > b.len() {
        let n = b.len() as int;
        lemma_same_front(a, b, n);
        assert(among(a, a[n]@));
        let k = choose|k: int| 0 <= k < b.len() && (#[trigger] b[k])@ == a[n]@;
        assert(before(a[k]@, a[n]@));
        lemma_before_irreflexive(a[n]@);
    }
}

/// The links have one watch set: two plans of the same links wait on the same
/// folders for the same names.
pub proof fn law_links_have_one_plan(links: Seq<Link>, p: Plan, q: Plan)
    requires
        parents_of(links, p.dirs@) && names_of(links, p.names@),
        parents_of(links, q.dirs@) && names_of(links, q.names@),
    ensures
        p.spec() == q.spec(),
{
    law_plan_is_deterministic(links, links, p.dirs@, q.dirs@);
    let (a, b) = (p.names@, q.names@);
    assert forall|t: Seq<char>| #[trigger] among(a, t) <==> among(b, t) by {
        assert(among(a, t) <==> is_name(links, t));
    }
    lemma_no_more(a, b);
    lemma_no_more(b, a);
    lemma_same_front(a, b, a.len() as int);
    assert(text::strings(a) =~= text::strings(b));
}

/// How long a burst must stay quiet before it counts as one save, in
/// nanoseconds.
pub const SETTLE: u64 = 400_000_000;

/// A wait without end.
pub const INFINITE: u32 = 0xFFFF_FFFF;

/// The half of a rename that names the file as it was.
pub const RENAMED_OLD_NAME: u32 = 4;

/// Makes one answer out of a burst of events. Times are nanoseconds of a clock
/// that never goes back.
#[derive(Clone, Copy, PartialEq, Eq, Structural, Debug)]
pub struct Debouncer {
    pub last: Option<u64>,
}

/// The time since `t`; none where the clock reads less.
pub open spec fn since(now: u64, t: u64) -> int {
    if now >= t {
        now - t
    } else {
        0
    }
}

impl Debouncer {
    /// Has the burst been quiet for long enough?
    pub open spec fn quiet(self, now: u64) -> bool {
        self.last is Some && since(now, self.last->0) >= SETTLE
    }

    /// Nothing has happened yet.
    pub fn new() -> (r: Debouncer)
        ensures
            r.last is None,
    {
        Debouncer { last: None }
    }

    /// Something happened: the quiet window starts over.
    pub fn event(&mut self, now: u64)
        ensures
            final(self).last == Some(now),
    {
        self.last = Some(now);
    }

    /// Answers once for a burst that has become quiet.
    pub fn settled(&mut self, now: u64) -> (r: bool)
        ensures
            r == old(self).quiet(now),
            r ==> final(self).last is None,
            !r ==> *final(self) == *old(self),
    {
        match self.last {
            Some(t) => if now.saturating_sub(t) >= SETTLE {
                self.last = None;
                true
            } else {
                false
            },
            None => false,
        }
    }

    /// How long the next wait may take, in milliseconds: without end while
    /// nothing is pending, else what is left of the quiet window, at least 1.
    pub fn wait_ms(&self, now: u64) -> (r: u32)
        ensures
            self.last is None ==> r == INFINITE,
            self.last is Some ==> r == (if since(now, self.last->0) + 2_000_000 > SETTLE {
                1int
            } else {
                (SETTLE - since(now, self.last->0)) / 1_000_000
            }),
    {
        match self.last {
            None => INFINITE,
            Some(t) => {
                let ms: u64 = SETTLE.saturating_sub(now.saturating_sub(t)) / 1_000_000;
                if ms < 1 {
                    1
                } else {
                    ms as u32
                }
            },
        }
    }
}

/// One burst, one answer: once it was given, no later moment gives another
/// until something happens again.
pub proof fn law_one_answer_per_burst(d: Debouncer, after: Debouncer, now: u64, later: u64)
    requires
        d.quiet(now),
        after.last is None,
    ensures
        !after.quiet(later),
{
}

/// No answer comes while the burst goes on: within the window after the last
/// event there is none, and behind the window there is one.
pub proof fn law_answer_comes_behind_the_window(t: u64, now: u64)
    requires
        t <= now,
    ensures
        (Debouncer { last: Some(t) }).quiet(now) <==> now >= t + SETTLE,
{
}

/// Four bytes as a number, the lowest first.
pub open spec fn word(b: Seq<u8>, at: int) -> int {
    b[at] as int + b[at + 1] as int * 0x100 + b[at + 2] as int * 0x1_0000 + b[at + 3] as int
        * 0x100_0000
}

/// The UTF-16 units in an even number of bytes; an odd byte at the end is left.
pub open spec fn units(b: Seq<u8>) -> Seq<u16> {
    Seq::new((b.len() / 2) as nat, |i: int| (b[2 * i] as int + b[2 * i + 1] as int * 0x100) as u16)
}

/// The notifications from `off` on: a stride to the next entry (0 for the last),
/// an action, a length in bytes, and that many bytes of UTF-16. An entry that
/// does not lie whole in the buffer ends the walk.
pub open spec fn entries_from(b: Seq<u8>, off: int) -> Seq<(u32, Seq<char>)>
    decreases b.len() - off,
{
    if off < 0 || off + 12 > b.len() || off + 12 + word(b, off + 8) > b.len() {
        seq![]
    } else {
        let one = (
            word(b, off + 4) as u32,
            utf16_text(units(b.subrange(off + 12, off + 12 + word(b, off + 8)))),
        );
        if word(b, off) <= 0 || off + word(b, off) >= b.len() {
            seq![one]
        } else {
            seq![one] + entries_from(b, off + word(b, off))
        }
    }
}

/// The notifications as plain values.
pub open spec fn notes(v: Seq<(u32, String)>) -> Seq<(u32, Seq<char>)> {
    Seq::new(v.len(), |i: int| (v[i].0, v[i].1@))
}

fn read_word(b: &[u8], at: usize) -> (r: u32)
    requires
        at + 4 <= b@.len(),
    ensures
        r as int == word(b@, at as int),
{
    b[at] as u32 + b[at + 1] as u32 * 0x100 + b[at + 2] as u32 * 0x1_0000 + b[at + 3] as u32
        * 0x100_0000
}

fn read_units(b: &[u8], from: usize, to: usize) -> (r: Vec<u16>)
    requires
        from <= to <= b@.len(),
    ensures
        r@ == units(b@.subrange(from as int, to as int)),
{
    let ghost s = b@.subrange(from as int, to as int);
    let mut r: Vec<u16> = Vec::new();
    let mut at: usize = from;
    while to - at >= 2
        invariant
            from <= at <= to <= b@.len(),
            s == b@.subrange(from as int, to as int),
            at == from + 2 * r@.len(),
            r@.len() <= s.len() / 2,
            forall|i: int| 0 <= i < r@.len() ==> #[trigger] r@[i] == units(s)[i],
        decreases to - at,
    {
        proof {
            assert(s[2 * r@.len() as int] == b@[at as int]);
            assert(s[2 * r@.len() as int + 1] == b@[at + 1]);
        }
        r.push(b[at] as u16 + b[at + 1] as u16 * 0x100);
        at = at + 2;
    }
    assert(r@ =~= units(s));
    r
}

/// Walks one buffer of notifications to its actions and names. It never reads
/// past the buffer: a torn tail is dropped.
pub fn notified_names(buf: &[u8]) -> (r: Vec<(u32, String)>)
    ensures
        notes(r@) == entries_from(buf@, 0),
{
    let mut out: Vec<(u32, String)> = Vec::new();
    let mut off: usize = 0;
    proof {
        assert(notes(out@) + entries_from(buf@, 0) =~= entries_from(buf@, 0));
    }
    loop
        invariant_except_break
            notes(out@) + entries_from(buf@, off as int) == entries_from(buf@, 0),
            off <= buf@.len(),
        ensures
            notes(out@) == entries_from(buf@, 0),
        decreases buf@.len() - off,
    {
        let len: usize = buf.len();
        if len - off < 12 {
            proof {
                assert(notes(out@) + entries_from(buf@, off as int) =~= notes(out@));
            }
            break;
        }
        let stride: u32 = read_word(buf, off);
        let action: u32 = read_word(buf, off + 4);
        let nlen: u32 = read_word(buf, off + 8);
        if (len - off - 12) as u64 <= u32::MAX as u64 && ((len - off - 12) as u32) < nlen {
            proof {
                assert(notes(out@) + entries_from(buf@, off as int) =~= notes(out@));
            }
            break;
        }
        let end: usize = off + 12 + nlen as usize;
        let name = from_utf16(&read_units(buf, off + 12, end));
        let ghost was = out@;
        let ghost one = (action, name@);
        out.push((action, name));
        proof {
            assert(notes(out@) =~= notes(was).push(one));
        }
        if stride == 0 || (len - off) as u64 <= stride as u64 {
            proof {
                assert(entries_from(buf@, off as int) =~= seq![one]);
                assert(notes(out@) =~= notes(was) + seq![one]);
            }
            break;
        }
        proof {
            assert(notes(out@) + entries_from(buf@, off + stride) =~= notes(was) + (seq![one]
                + entries_from(buf@, off + stride)));
        }
        off = off + stride as usize;
    }
    out
}

/// Does a notification name a linked file? The old half of a rename is the
/// editor's temporary file and never counts.
pub open spec fn counts(note: (u32, Seq<char>), names: Seq<String>) -> bool {
    note.0 != RENAMED_OLD_NAME && among(names, lower(note.1))
}

/// Does any notification name a linked file?
pub fn any_linked(notified: &[(u32, String)], names: &[String]) -> (r: bool)
    ensures
        r == exists|i: int|
            0 <= i < notified@.len() && counts(#[trigger] notes(notified@)[i], names@),
{
    let mut i: usize = 0;
    while i < notified.len()
        invariant
            i <= notified@.len(),
            forall|j: int| 0 <= j < i ==> !counts(#[trigger] notes(notified@)[j], names@),
        decreases notified.len() - i,
    {
        let ghost note = notes(notified@)[i as int];
        if notified[i].0 != RENAMED_OLD_NAME {
            let l = to_lower(notified[i].1.as_str());
            let mut k: usize = 0;
            while k < names.len()
                invariant
                    i < notified@.len(),
                    note == notes(notified@)[i as int],
                    note.0 != RENAMED_OLD_NAME,
                    l@ == lower(note.1),
                    k <= names@.len(),
                    forall|j: int| 0 <= j < k ==> (#[trigger] names@[j])@ != l@,
                decreases names.len() - k,
            {
                if text::same(names[k].as_str(), l.as_str()) {
                    assert(among(names@, l@));
                    assert(counts(notes(notified@)[i as int], names@));
                    return true;
                }
                k = k + 1;
            }
            assert(!among(names@, l@));
        }
        assert(!counts(note, names@));
        i = i + 1;
    }
    false
}

/// The watcher between two waits: the plan that its reads serve, and the burst
/// that is pending.
#[derive(Debug)]
pub struct Watcher {
    pub serving: Option<Plan>,
    pub debounce: Debouncer,
}

/// What the watcher does before it waits.
#[derive(Clone, Copy, PartialEq, Eq, Structural, Debug)]
pub enum Turn {
    /// The plan is gone: the thread ends.
    Stop,
    /// The plan changed: open the folders anew, then wait.
    Rebuild,
    /// Wait.
    Wait,
}

/// How a wait ended.
#[derive(Debug)]
pub enum Waited {
    Failed,
    Timeout,
    /// The plan may have changed.
    Wake,
    /// A folder's read completed, with its notifications where it succeeded.
    Read(Option<Vec<(u32, String)>>),
}

/// What the watcher does after a wait.
#[derive(Clone, Copy, PartialEq, Eq, Structural, Debug)]
pub enum Answer {
    Nothing,
    /// Sleep a moment before the folders are opened anew.
    Pause,
    /// Tell the window that a linked file settled.
    Post,
}

/// The texts of an optional plan.
pub open spec fn opt_plan(p: Option<Plan>) -> Option<(Seq<Seq<char>>, Seq<Seq<char>>)> {
    match p {
        Some(p) => Some(p.spec()),
        None => None,
    }
}

/// Do the notifications of a read hold one that counts?
pub open spec fn read_counts(w: Waited, names: Seq<String>) -> bool {
    match w {
        Waited::Read(Some(n)) => exists|i: int|
            0 <= i < n@.len() && counts(#[trigger] notes(n@)[i], names),
        _ => false,
    }
}

impl Watcher {
    /// A watcher that serves nothing yet.
    pub fn new() -> (r: Watcher)
        ensures
            r.serving is None,
            r.debounce.last is None,
    {
        Watcher { serving: None, debounce: Debouncer::new() }
    }

    /// What looking at the current plan makes of the watcher.
    pub open spec fn turned(self, after: Watcher, r: Turn, current: Option<&Plan>) -> bool {
        &&& r == (match current {
            None => Turn::Stop,
            Some(p) => if opt_plan(self.serving) == Some(p.spec()) {
                Turn::Wait
            } else {
                Turn::Rebuild
            },
        })
        &&& after.debounce == self.debounce
        &&& match current {
            None => after.serving == self.serving,
            Some(p) => opt_plan(after.serving) == Some(p.spec()),
        }
    }

    /// Looks at the current plan: stops without one, rebuilds where it is not
    /// the one that is served, else waits. A pending burst is not lost.
    pub fn turn(&mut self, current: Option<&Plan>) -> (r: Turn)
        ensures
            old(self).turned(*final(self), r, current),
    {
        match current {
            None => Turn::Stop,
            Some(p) => {
                let known = match &self.serving {
                    Some(s) => s.same(p),
                    None => false,
                };
                if known {
                    Turn::Wait
                } else {
                    self.serving = Some(p.copy());
                    Turn::Rebuild
                }
            },
        }
    }

    /// What the end of a wait makes of the watcher.
    pub open spec fn answered(self, after: Watcher, r: Answer, w: Waited, now: u64) -> bool {
        &&& r == (match w {
            Waited::Failed => Answer::Pause,
            Waited::Timeout => if self.debounce.quiet(now) {
                Answer::Post
            } else {
                Answer::Nothing
            },
            _ => Answer::Nothing,
        })
        &&& after.serving == (if w is Failed {
            None
        } else {
            self.serving
        })
        &&& after.debounce.last == (if w is Timeout && self.debounce.quiet(now) {
            None
        } else if read_counts(w, self.serving->0.names@) {
            Some(now)
        } else {
            self.debounce.last
        })
    }

    /// Takes the end of a wait: a failed one asks for a rebuild, a timeout posts
    /// where the burst has settled, a read whose notifications name a linked
    /// file starts the quiet window over.
    pub fn waited(&mut self, w: Waited, now: u64) -> (r: Answer)
        requires
            old(self).serving is Some,
        ensures
            old(self).answered(*final(self), r, w, now),
    {
        match w {
            Waited::Failed => {
                self.serving = None;
                Answer::Pause
            },
            Waited::Timeout => if self.debounce.settled(now) {
                Answer::Post
            } else {
                Answer::Nothing
            },
            Waited::Wake => Answer::Nothing,
            Waited::Read(r) => {
                let hit = match (&r, &self.serving) {
                    (Some(n), Some(p)) => any_linked(n.as_slice(), p.names.as_slice()),
                    _ => false,
                };
                if hit {
                    self.debounce.event(now);
                }
                Answer::Nothing
            },
        }
    }
}

/// What pointing the watcher at other links takes.
#[derive(Debug)]
pub struct Sync {
    /// The plan from here on; none where nothing is linked or nothing can wait.
    pub plan: Option<Plan>,
    pub spawn: bool,
    pub signal: bool,
    pub join: bool,
}

/// Points the watcher at `links`. Equal plans cost nothing; a changed plan is
/// stored, the thread is started where none runs, and the wait is interrupted;
/// an empty plan ends the thread. Without a wake event there is no watcher.
pub fn sync(current: &Option<Plan>, links: &[Link], running: bool, wake: bool) -> (r: Option<Sync>)
    ensures
        links@.len() == 0 ==> (r is None <==> current is None),
        links@.len() > 0 ==> (r is None <==> current is Some && parents_of_texts(links@, current->0)),
        match r {
            None => true,
            Some(s) => {
                &&& s.signal == wake
                &&& s.spawn == (wake && links@.len() > 0 && !running)
                &&& s.join == (wake && links@.len() == 0)
                &&& s.plan is Some <==> (wake && links@.len() > 0)
                &&& s.plan is Some ==> parents_of(links@, s.plan->0.dirs@) && names_of(
                    links@,
                    s.plan->0.names@,
                ) && opt_plan(*current) != Some(s.plan->0.spec())
            },
        },
{
    if links.len() == 0 {
        if current.is_none() {
            return None;
        }
        return Some(Sync { plan: None, spawn: false, signal: wake, join: wake });
    }
    let p = Plan::of(links);
    let known = match current {
        Some(c) => c.same(&p),
        None => false,
    };
    proof {
        if current is Some && parents_of_texts(links@, current->0) {
            let q = choose|q: Plan| #[trigger]
                parents_of(links@, q.dirs@) && names_of(links@, q.names@) && q.spec() == current->0.spec();
            law_links_have_one_plan(links@, p, q);
        }
    }
    if known {
        assert(current->0.spec() == p.spec());
        return None;
    }
    if !wake {
        return Some(Sync { plan: None, spawn: false, signal: false, join: false });
    }
    Some(Sync { plan: Some(p), spawn: !running, signal: true, join: false })
}

/// The plan waits where the links lie: its texts are those of their watch set.
pub open spec fn parents_of_texts(links: Seq<Link>, p: Plan) -> bool {
    exists|q: Plan| #[trigger]
        parents_of(links, q.dirs@) && names_of(links, q.names@) && q.spec() == p.spec()
}

/// A unit outside the surrogates is its own character, a pair of them is one
/// character beyond the first plane, and one alone is the replacement.
pub proof fn law_units_make_characters(u: Seq<u16>, rest: Seq<u16>, c: u16, hi: u16, lo: u16)
    ensures
        utf16_text(seq![]).len() == 0,
        c < 0xd800 || c > 0xdfff ==> utf16_text(seq![c] + rest) == seq![c as char] + utf16_text(rest),
        0xd800 <= hi <= 0xdbff && 0xdc00 <= lo <= 0xdfff ==> utf16_text(seq![hi, lo] + rest) == seq![paired(hi, lo)]
            + utf16_text(rest),
        0xdc00 <= lo <= 0xdfff ==> utf16_text(seq![lo] + rest) == seq!['\u{fffd}'] + utf16_text(rest),
        0xd800 <= hi <= 0xdbff && (rest.len() == 0 || !(0xdc00 <= rest[0] <= 0xdfff)) ==> utf16_text(seq![hi] + rest)
            == seq!['\u{fffd}'] + utf16_text(rest),
        0xd800 <= hi <= 0xdbff && 0xdc00 <= lo <= 0xdfff ==> paired(hi, lo) as int == 0x10000 + (hi - 0xd800) * 1024 + (lo
            - 0xdc00),
{
    assert((seq![c] + rest).skip(1) =~= rest);
    assert((seq![lo] + rest).skip(1) =~= rest);
    assert((seq![hi] + rest).skip(1) =~= rest);
    assert((seq![hi, lo] + rest).skip(2) =~= rest);
}

/// Two bytes make a unit and four a number, the lowest first.
pub proof fn law_the_lowest_byte_is_first(b: Seq<u8>, i: int)
    ensures
        units(b).len() == b.len() / 2,
        0 <= i < b.len() / 2 ==> units(b)[i] == b[2 * i] + 256 * b[2 * i + 1],
        b.len() >= 4 ==> word(b, 0) == b[0] + 256 * (b[1] + 256 * (b[2] + 256 * b[3])),
{
}

/// A buffer of notes holds, one behind the other, the way to the next note, what
/// happened, the length of the name and the name. A note that does not fit ends
/// the list.
pub proof fn law_notes_follow_each_other(b: Seq<u8>, off: int)
    requires
        0 <= off,
    ensures
        off + 12 > b.len() ==> entries_from(b, off).len() == 0,
        off + 12 <= b.len() && off + 12 + word(b, off + 8) > b.len() ==> entries_from(b, off).len() == 0,
        off + 12 <= b.len() && off + 12 + word(b, off + 8) <= b.len() ==> {
            &&& entries_from(b, off).len() > 0
            &&& entries_from(b, off)[0].0 == word(b, off + 4) as u32
            &&& entries_from(b, off)[0].1 == utf16_text(units(b.subrange(off + 12, off + 12 + word(b, off + 8))))
            &&& word(b, off) == 0 ==> entries_from(b, off).len() == 1
            &&& word(b, off) > 0 && off + word(b, off) < b.len() ==> entries_from(b, off).skip(1) == entries_from(
                b,
                off + word(b, off),
            )
        },
{
    if off + 12 <= b.len() && off + 12 + word(b, off + 8) <= b.len() && word(b, off) > 0 && off + word(b, off) < b.len() {
        assert(entries_from(b, off).skip(1) =~= entries_from(b, off + word(b, off)));
    }
}

/// A note counts where it names a linked file, capitals or not; the old name of a
/// renamed file never does.
pub proof fn law_a_note_counts_for_its_file(note: (u32, Seq<char>), names: Seq<String>, k: int)
    ensures
        note.0 == 4 ==> !counts(note, names),
        note.0 != 4 && 0 <= k < names.len() && names[k]@ == lower(note.1) ==> counts(note, names),
        (forall|j: int| 0 <= j < names.len() ==> (#[trigger] names[j])@ != lower(note.1)) ==> !counts(note, names),
{
}

/// A burst is quiet four tenths of a second behind its last event; a clock that
/// runs backwards keeps it waiting.
pub proof fn law_a_burst_settles_in_its_window(t: u64, now: u64)
    ensures
        now >= t + 400_000_000 ==> (Debouncer { last: Some(t) }).quiet(now),
        now < t + 400_000_000 ==> !(Debouncer { last: Some(t) }).quiet(now),
        !(Debouncer { last: None }).quiet(now),
        now >= t ==> since(now, t) == now - t,
        now < t ==> since(now, t) == 0,
{
}

/// The folders that are watched are folders of links, in order and without a
/// double, and no more than 63; while there are fewer, every link's folder is
/// among them. The names are those of all links, capitals made small.
pub proof fn law_every_link_is_watched(links: Seq<Link>, p: Plan, i: int)
    requires
        parents_of(links, p.dirs@),
        names_of(links, p.names@),
        0 <= i < links.len(),
    ensures
        p.dirs@.len() <= 63,
        p.dirs@.len() < 63 ==> exists|k: int| 0 <= k < p.dirs@.len() && (#[trigger] p.dirs@[k])@ == links[i].dir@,
        links[i].name matches Some(n) ==> exists|k: int|
            0 <= k < p.names@.len() && (#[trigger] p.names@[k])@ == lower(n@),
        forall|k: int| 0 <= k < p.dirs@.len() ==> is_dir(links, (#[trigger] p.dirs@[k])@),
{
    assert(is_dir(links, links[i].dir@));
    if let Some(n) = links[i].name {
        assert(is_name(links, lower(n@)));
        assert(among(p.names@, lower(n@)));
    }
}

/// Only a read that brought notes can count, and one note is enough.
pub proof fn law_one_note_is_enough(w: Waited, names: Seq<String>, i: int, k: int)
    ensures
        w is Failed || w is Timeout || w is Wake ==> !read_counts(w, names),
        w matches Waited::Read(n) ==> n is None ==> !read_counts(w, names),
        w matches Waited::Read(Some(n)) ==> 0 <= i < n@.len() && n@[i].0 != 4 && 0 <= k < names.len() && names[k]@ == lower(
            n@[i].1@,
        ) ==> read_counts(w, names),
{
    if let Waited::Read(Some(n)) = w {
        if 0 <= i < n@.len() && n@[i].0 != 4 && 0 <= k < names.len() && names[k]@ == lower(n@[i].1@) {
            assert(notes(n@)[i] == (n@[i].0, n@[i].1@));
            assert(counts(notes(n@)[i], names));
        }
    }
}

/// Without a plan the watcher stops; a plan that it serves already lets it wait,
/// and any other has it open the folders anew and serve that one. A burst that is
/// pending stays pending.
pub proof fn law_a_new_plan_opens_the_folders_anew(w: Watcher, after: Watcher, r: Turn, current: Option<&Plan>)
    requires
        w.turned(after, r, current),
    ensures
        after.debounce == w.debounce,
        current is None ==> r is Stop && after.serving == w.serving,
        current matches Some(p) ==> !(r is Stop) && after.serving is Some && after.serving->0.spec() == p.spec(),
        current matches Some(p) ==> w.serving is None ==> r is Rebuild,
        current matches Some(p) ==> (w.serving matches Some(s) ==> (r is Wait <==> s.spec() == p.spec())),
{
}

/// A wait that failed pauses and opens the folders anew. A wait that ran out
/// posts where the burst has settled, once. A read posts nothing: a note on a
/// linked file starts the quiet window over, any other leaves it.
pub proof fn law_a_post_comes_of_a_quiet_timeout(w: Watcher, after: Watcher, r: Answer, x: Waited, now: u64)
    requires
        w.serving is Some,
        w.answered(after, r, x, now),
    ensures
        r is Post ==> x is Timeout && w.debounce.last is Some && now >= w.debounce.last->0 + 400_000_000
            && after.debounce.last is None,
        x is Timeout && w.debounce.last is Some && now >= w.debounce.last->0 + 400_000_000 ==> r is Post,
        x is Timeout && !(r is Post) ==> r is Nothing && after.debounce == w.debounce,
        x is Failed ==> r is Pause && after.serving is None && after.debounce.last == w.debounce.last,
        x is Wake ==> r is Nothing && after == w,
        !(x is Failed) ==> after.serving == w.serving,
        x is Read ==> r is Nothing && (after.debounce.last == w.debounce.last || after.debounce.last == Some(now)),
        x is Read && read_counts(x, w.serving->0.names@) ==> after.debounce.last == Some(now),
        x is Read && !read_counts(x, w.serving->0.names@) ==> after.debounce.last == w.debounce.last,
{
}

} // verus!
