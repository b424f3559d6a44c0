//! Text on the level of characters: lines, trimming, splitting and decimal
//! numbers, as the settings files are written and read.

use vstd::prelude::*;
use vstd::string::StringExecFns;

verus! {

/// `String::push`: the character is appended behind what the string holds.
pub assume_specification[ String::push ](s: &mut String, c: char)
    ensures
        final(s)@ == old(s)@.push(c),
;

/// Unicode's `White_Space` property.
pub open spec fn is_white(c: char) -> bool {
    ||| 9 <= c as int <= 13
    ||| c as int == 0x20
    ||| c as int == 0x85
    ||| c as int == 0xa0
    ||| c as int == 0x1680
    ||| 0x2000 <= c as int <= 0x200a
    ||| c as int == 0x2028
    ||| c as int == 0x2029
    ||| c as int == 0x202f
    ||| c as int == 0x205f
    ||| c as int == 0x3000
}

/// Is `c` a decimal digit of ASCII?
pub open spec fn is_digit(c: char) -> bool {
    '0' <= c <= '9'
}

/// The digit for a number under ten.
pub open spec fn digit(d: nat) -> char {
    (('0' as int) + d) as char
}

/// What is left of `s` without the white space in front.
pub open spec fn trim_start(s: Seq<char>) -> Seq<char>
    decreases s.len(),
{
    if s.len() > 0 && is_white(s[0]) {
        trim_start(s.skip(1))
    } else {
        s
    }
}

/// What is left of `s` without the white space behind.
pub open spec fn trim_end(s: Seq<char>) -> Seq<char>
    decreases s.len(),
{
    if s.len() > 0 && is_white(s.last()) {
        trim_end(s.drop_last())
    } else {
        s
    }
}

/// `s` without white space at either end.
pub open spec fn trim(s: Seq<char>) -> Seq<char> {
    trim_end(trim_start(s))
}

/// Where `c` first stands in `s`; the length of `s` where it does not.
pub open spec fn find(s: Seq<char>, c: char) -> int
    decreases s.len(),
{
    if s.len() == 0 || s[0] == c {
        0
    } else {
        1 + find(s.skip(1), c)
    }
}

/// The pieces of `s` between the places where `c` stands: always one more
/// than there are such places.
pub open spec fn split(s: Seq<char>, c: char) -> Seq<Seq<char>>
    decreases s.len(),
    via split_decreases
{
    let k = find(s, c);
    if k >= s.len() {
        seq![s]
    } else {
        seq![s.take(k)] + split(s.skip(k + 1), c)
    }
}

#[via_fn]
proof fn split_decreases(s: Seq<char>, c: char) {
    lemma_find(s, c);
}

/// A line without the carriage return that may end it.
pub open spec fn chomp(s: Seq<char>) -> Seq<char> {
    if s.len() > 0 && s.last() == '\r' {
        s.drop_last()
    } else {
        s
    }
}

/// The lines of a text: what stands between line feeds, each without the
/// carriage return that ended it. A line feed at the very end opens no line.
pub open spec fn lines(s: Seq<char>) -> Seq<Seq<char>>
    decreases s.len(),
    via lines_decreases
{
    let k = find(s, '\n');
    if s.len() == 0 {
        seq![]
    } else if k >= s.len() {
        seq![s]
    } else {
        seq![chomp(s.take(k))] + lines(s.skip(k + 1))
    }
}

#[via_fn]
proof fn lines_decreases(s: Seq<char>) {
    lemma_find(s, '\n');
}

/// `s` without any `c`.
pub open spec fn without(s: Seq<char>, c: char) -> Seq<char>
    decreases s.len(),
{
    if s.len() == 0 {
        s
    } else if s.last() == c {
        without(s.drop_last(), c)
    } else {
        without(s.drop_last(), c).push(s.last())
    }
}

/// The pieces, with `sep` between each two.
pub open spec fn join(parts: Seq<Seq<char>>, sep: Seq<char>) -> Seq<char>
    decreases parts.len(),
{
    if parts.len() == 0 {
        seq![]
    } else if parts.len() == 1 {
        parts[0]
    } else {
        join(parts.drop_last(), sep) + sep + parts.last()
    }
}

/// `n` in decimal, with no leading zero.
pub open spec fn dec(n: nat) -> Seq<char>
    decreases n,
{
    if n < 10 {
        seq![digit(n)]
    } else {
        dec(n / 10).push(digit(n % 10))
    }
}

/// `n` in decimal, with a minus sign where it is negative.
pub open spec fn dec_int(n: int) -> Seq<char> {
    if n < 0 {
        seq!['-'] + dec((-n) as nat)
    } else {
        dec(n as nat)
    }
}

/// Are there characters in `s`, all of them digits?
pub open spec fn all_digits(s: Seq<char>) -> bool {
    s.len() > 0 && forall|i: int| 0 <= i < s.len() ==> is_digit(#[trigger] s[i])
}

/// The number that digits write.
pub open spec fn digits_value(s: Seq<char>) -> nat
    decreases s.len(),
{
    if s.len() == 0 {
        0
    } else {
        digits_value(s.drop_last()) * 10 + (s.last() as int - '0' as int) as nat
    }
}

/// An unsigned number up to `max`: digits, with a plus sign allowed in front.
pub open spec fn parse_nat(s: Seq<char>, max: nat) -> Option<nat> {
    let d = if s.len() > 0 && s[0] == '+' {
        s.skip(1)
    } else {
        s
    };
    if all_digits(d) && digits_value(d) <= max {
        Some(digits_value(d))
    } else {
        None
    }
}

/// A signed number of 32 bits: digits, with one sign allowed in front.
pub open spec fn parse_int(s: Seq<char>) -> Option<int> {
    let neg = s.len() > 0 && s[0] == '-';
    let d = if s.len() > 0 && (s[0] == '+' || s[0] == '-') {
        s.skip(1)
    } else {
        s
    };
    if all_digits(d) && neg && digits_value(d) <= 0x8000_0000 {
        Some(-(digits_value(d) as int))
    } else if all_digits(d) && !neg && digits_value(d) <= 0x7fff_ffff {
        Some(digits_value(d) as int)
    } else {
        None
    }
}

/// `find` stops at the first such character, or at the end.
pub proof fn lemma_find(s: Seq<char>, c: char)
    ensures
        0 <= find(s, c) <= s.len(),
        find(s, c) < s.len() ==> s[find(s, c)] == c,
        forall|i: int| 0 <= i < find(s, c) ==> s[i] != c,
    decreases s.len(),
{
    if s.len() > 0 && s[0] != c {
        let t = s.skip(1);
        lemma_find(t, c);
        assert forall|i: int| 0 <= i < find(s, c) implies s[i] != c by {
            if i > 0 {
                assert(s[i] == t[i - 1]);
            }
        }
    }
}

/// `find` is the only place that `lemma_find` describes.
pub proof fn lemma_find_is(s: Seq<char>, c: char, k: int)
    requires
        0 <= k <= s.len(),
        k < s.len() ==> s[k] == c,
        forall|i: int| 0 <= i < k ==> s[i] != c,
    ensures
        find(s, c) == k,
{
    lemma_find(s, c);
    let f = find(s, c);
    if f < k {
        assert(s[f] == c);
    }
    if k < f {
        assert(s[k] == c);
    }
}

/// The views of a list of character lists.
pub open spec fn views(v: Seq<Vec<char>>) -> Seq<Seq<char>> {
    Seq::new(v.len(), |i: int| v[i]@)
}

/// The views of a list of strings.
pub open spec fn strings(v: Seq<String>) -> Seq<Seq<char>> {
    Seq::new(v.len(), |i: int| v[i]@)
}

/// The characters of a string.
pub fn to_chars(s: &str) -> (r: Vec<char>)
    ensures
        r@ == s@,
{
    let mut r: Vec<char> = Vec::new();
    for c in it: s.chars()
        invariant
            it.seq() == s@,
            r@ == s@.take(it.index() as int),
    {
        proof {
            assert(s@.take(it.index() as int + 1) == s@.take(it.index() as int).push(s@[it.index() as int]));
        }
        r.push(c);
    }
    assert(s@.take(s@.len() as int) == s@);
    r
}

/// The string of these characters.
pub fn from_chars(v: &Vec<char>) -> (r: String)
    ensures
        r@ == v@,
{
    let mut r = String::new();
    let mut i: usize = 0;
    while i < v.len()
        invariant
            0 <= i <= v.len(),
            r@ == v@.take(i as int),
        decreases v.len() - i,
    {
        proof {
            assert(v@.take(i as int + 1) == v@.take(i as int).push(v@[i as int]));
        }
        r.push(v[i]);
        i = i + 1;
    }
    assert(v@.take(v@.len() as int) == v@);
    r
}

/// The characters from `a` up to `b`.
pub fn cut(v: &Vec<char>, a: usize, b: usize) -> (r: Vec<char>)
    requires
        a <= b <= v.len(),
    ensures
        r@ == v@.subrange(a as int, b as int),
{
    let mut r: Vec<char> = Vec::new();
    let mut i: usize = a;
    while i < b
        invariant
            a <= i <= b <= v.len(),
            r@ == v@.subrange(a as int, i as int),
        decreases b - i,
    {
        proof {
            assert(v@.subrange(a as int, i as int + 1) == v@.subrange(a as int, i as int).push(v@[i as int]));
        }
        r.push(v[i]);
        i = i + 1;
    }
    r
}

/// Do the two lists hold the same characters?
pub fn same_chars(a: &Vec<char>, b: &Vec<char>) -> (r: bool)
    ensures
        r == (a@ == b@),
{
    if a.len() != b.len() {
        return false;
    }
    let mut i: usize = 0;
    while i < a.len()
        invariant
            0 <= i <= a.len(),
            a.len() == b.len(),
            forall|j: int| 0 <= j < i ==> a@[j] == b@[j],
        decreases a.len() - i,
    {
        if a[i] != b[i] {
            return false;
        }
        i = i + 1;
    }
    assert(a@ =~= b@);
    true
}

/// Do the two strings hold the same characters?
pub fn same(a: &str, b: &str) -> (r: bool)
    ensures
        r == (a@ == b@),
{
    same_chars(&to_chars(a), &to_chars(b))
}

/// A copy of a string slice.
pub fn own(s: &str) -> (r: String)
    ensures
        r@ == s@,
{
    from_chars(&to_chars(s))
}

/// Is `c` white space?
pub fn white(c: char) -> (r: bool)
    ensures
        r == is_white(c),
{
    let n: u32 = c as u32;
    (9 <= n && n <= 13) || n == 0x20 || n == 0x85 || n == 0xa0 || n == 0x1680 || (0x2000 <= n && n
        <= 0x200a) || n == 0x2028 || n == 0x2029 || n == 0x202f || n == 0x205f || n == 0x3000
}

/// Where `c` first stands at or behind `from`; the length where it does not.
pub fn find_from(v: &Vec<char>, from: usize, c: char) -> (r: usize)
    requires
        from <= v.len(),
    ensures
        r == from + find(v@.skip(from as int), c),
        from <= r <= v.len(),
{
    let mut i: usize = from;
    while i < v.len() && v[i] != c
        invariant
            from <= i <= v.len(),
            forall|j: int| from <= j < i ==> v@[j] != c,
        decreases v.len() - i,
    {
        i = i + 1;
    }
    proof {
        let s = v@.skip(from as int);
        assert forall|j: int| 0 <= j < i - from implies s[j] != c by {
            assert(s[j] == v@[from + j]);
        }
        lemma_find_is(s, c, i - from);
    }
    i
}

/// Does `c` occur at all?
pub open spec fn holds(s: Seq<char>, c: char) -> bool {
    find(s, c) < s.len()
}

/// `holds` says that the character stands somewhere.
pub proof fn lemma_holds(s: Seq<char>, c: char)
    ensures
        holds(s, c) <==> s.contains(c),
{
    lemma_find(s, c);
    if s.contains(c) {
        let i = choose|i: int| 0 <= i < s.len() && s[i] == c;
        assert(s[i] == c);
    }
}

pub(crate) proof fn lemma_trim_start(s: Seq<char>, k: int)
    requires
        0 <= k <= s.len(),
        forall|j: int| 0 <= j < k ==> is_white(s[j]),
        k < s.len() ==> !is_white(s[k]),
    ensures
        trim_start(s) == s.skip(k),
    decreases s.len(),
{
    if k > 0 {
        let t = s.skip(1);
        assert forall|j: int| 0 <= j < k - 1 implies is_white(t[j]) by {
            assert(t[j] == s[j + 1]);
        }
        lemma_trim_start(t, k - 1);
        assert(t.skip(k - 1) =~= s.skip(k));
    } else {
        assert(s.skip(0) =~= s);
    }
}

pub(crate) proof fn lemma_trim_end(s: Seq<char>, k: int)
    requires
        0 <= k <= s.len(),
        forall|j: int| k <= j < s.len() ==> is_white(s[j]),
        k > 0 ==> !is_white(s[k - 1]),
    ensures
        trim_end(s) == s.take(k),
    decreases s.len(),
{
    if k < s.len() {
        let t = s.drop_last();
        lemma_trim_end(t, k);
        assert(t.take(k) =~= s.take(k));
    } else {
        assert(s.take(k) =~= s);
    }
}

/// `v` without white space at either end.
pub fn trim_chars(v: &Vec<char>) -> (r: Vec<char>)
    ensures
        r@ == trim(v@),
{
    let mut a: usize = 0;
    while a < v.len() && white(v[a])
        invariant
            0 <= a <= v.len(),
            forall|j: int| 0 <= j < a ==> is_white(v@[j]),
        decreases v.len() - a,
    {
        a = a + 1;
    }
    let mut b: usize = v.len();
    while b > a && white(v[b - 1])
        invariant
            a <= b <= v.len(),
            forall|j: int| b <= j < v.len() ==> is_white(v@[j]),
        decreases b - a,
    {
        b = b - 1;
    }
    proof {
        lemma_trim_start(v@, a as int);
        let t = v@.skip(a as int);
        assert forall|j: int| b - a <= j < t.len() implies is_white(t[j]) by {
            assert(t[j] == v@[a + j]);
        }
        lemma_trim_end(t, b - a);
        assert(t.take(b - a) =~= v@.subrange(a as int, b as int));
    }
    cut(v, a, b)
}

/// The pieces of `v` between the places where `c` stands.
pub fn split_chars(v: &Vec<char>, c: char) -> (r: Vec<Vec<char>>)
    ensures
        views(r@) == split(v@, c),
{
    let mut r: Vec<Vec<char>> = Vec::new();
    let mut from: usize = 0;
    proof {
        assert(v@.skip(0) =~= v@);
        assert(views(r@) + split(v@, c) =~= split(v@, c));
    }
    loop
        invariant_except_break
            views(r@) + split(v@.skip(from as int), c) == split(v@, c),
        invariant
            0 <= from <= v.len(),
        ensures
            views(r@) == split(v@, c),
        decreases v.len() - from,
    {
        let k: usize = find_from(v, from, c);
        let ghost rest = v@.skip(from as int);
        let ghost before = r@;
        proof {
            lemma_find(rest, c);
        }
        let piece = cut(v, from, k);
        r.push(piece);
        proof {
            assert(rest.take(k - from) =~= v@.subrange(from as int, k as int));
            assert(views(r@) =~= views(before).push(rest.take(k - from)));
        }
        if k >= v.len() {
            proof {
                assert(rest.take(k - from) =~= rest);
                assert(views(r@) =~= views(before) + seq![rest]);
            }
            break;
        }
        proof {
            assert(v@.skip(k + 1) =~= rest.skip(k - from + 1));
            assert(views(r@) + split(v@.skip(k + 1), c) =~= views(before) + (seq![rest.take(k - from)]
                + split(rest.skip(k - from + 1), c)));
        }
        from = k + 1;
    }
    r
}

/// The lines of a text.
pub fn lines_of(v: &Vec<char>) -> (r: Vec<Vec<char>>)
    ensures
        views(r@) == lines(v@),
{
    let mut r: Vec<Vec<char>> = Vec::new();
    let mut from: usize = 0;
    proof {
        assert(v@.skip(0) =~= v@);
        assert(views(r@) + lines(v@) =~= lines(v@));
    }
    while from < v.len()
        invariant
            0 <= from <= v.len(),
            views(r@) + lines(v@.skip(from as int)) == lines(v@),
        decreases v.len() - from,
    {
        let k: usize = find_from(v, from, '\n');
        let ghost rest = v@.skip(from as int);
        let ghost before = r@;
        proof {
            lemma_find(rest, '\n');
        }
        if k >= v.len() {
            let piece = cut(v, from, k);
            r.push(piece);
            proof {
                assert(v@.subrange(from as int, k as int) =~= rest);
                assert(views(r@) =~= views(before) + seq![rest]);
                assert(v@.skip(k as int) =~= seq![]);
                assert(views(r@) + lines(v@.skip(k as int)) =~= views(before) + seq![rest]);
            }
            from = k;
        } else {
            let end: usize = if k > from && v[k - 1] == '\r' {
                k - 1
            } else {
                k
            };
            let piece = cut(v, from, end);
            r.push(piece);
            proof {
                let line = rest.take(k - from);
                if k > from {
                    assert(line.last() == v@[k - 1]);
                }
                assert(chomp(line) =~= v@.subrange(from as int, end as int));
                assert(views(r@) =~= views(before).push(chomp(line)));
                assert(v@.skip(k + 1) =~= rest.skip(k - from + 1));
                assert(views(r@) + lines(v@.skip(k + 1)) =~= views(before) + (seq![chomp(line)]
                    + lines(rest.skip(k - from + 1))));
            }
            from = k + 1;
        }
    }
    proof {
        assert(v@.skip(from as int) =~= seq![]);
        assert(views(r@) + lines(v@.skip(from as int)) =~= views(r@));
    }
    r
}

/// Does `v` start with `p`?
pub fn starts_with(v: &Vec<char>, p: &Vec<char>) -> (r: bool)
    ensures
        r == p@.is_prefix_of(v@),
{
    if p.len() > v.len() {
        return false;
    }
    let mut i: usize = 0;
    while i < p.len()
        invariant
            0 <= i <= p.len() <= v.len(),
            forall|j: int| 0 <= j < i ==> p@[j] == v@[j],
        decreases p.len() - i,
    {
        if p[i] != v[i] {
            assert(v@.subrange(0, p@.len() as int)[i as int] != p@[i as int]);
            return false;
        }
        i = i + 1;
    }
    assert(p@ =~= v@.subrange(0, p@.len() as int));
    true
}

/// `v` without any `c`.
pub fn without_char(v: &Vec<char>, c: char) -> (r: Vec<char>)
    ensures
        r@ == without(v@, c),
{
    let mut r: Vec<char> = Vec::new();
    let mut i: usize = 0;
    while i < v.len()
        invariant
            0 <= i <= v.len(),
            r@ == without(v@.take(i as int), c),
        decreases v.len() - i,
    {
        proof {
            assert(v@.take(i as int + 1).drop_last() =~= v@.take(i as int));
        }
        if v[i] != c {
            r.push(v[i]);
        }
        i = i + 1;
    }
    assert(v@.take(v@.len() as int) =~= v@);
    r
}

/// Is `c` a digit?
pub fn digit_char(c: char) -> (r: bool)
    ensures
        r == is_digit(c),
{
    '0' <= c && c <= '9'
}

/// Are there characters in `v` at and behind `from`, all of them digits?
pub fn digits_from(v: &Vec<char>, from: usize) -> (r: bool)
    requires
        from <= v.len(),
    ensures
        r == all_digits(v@.skip(from as int)),
{
    let ghost s = v@.skip(from as int);
    if from == v.len() {
        return false;
    }
    let mut i: usize = from;
    while i < v.len()
        invariant
            from <= i <= v.len(),
            s == v@.skip(from as int),
            forall|j: int| 0 <= j < i - from ==> is_digit(#[trigger] s[j]),
        decreases v.len() - i,
    {
        if !digit_char(v[i]) {
            assert(!is_digit(s[i - from]));
            return false;
        }
        i = i + 1;
    }
    true
}

proof fn lemma_digits_prefix(s: Seq<char>, k: int)
    requires
        0 <= k <= s.len(),
        forall|i: int| 0 <= i < s.len() ==> is_digit(#[trigger] s[i]),
    ensures
        digits_value(s.take(k)) <= digits_value(s),
    decreases s.len(),
{
    if k < s.len() {
        let t = s.drop_last();
        assert forall|i: int| 0 <= i < t.len() implies is_digit(#[trigger] t[i]) by {
            assert(t[i] == s[i]);
        }
        lemma_digits_prefix(t, k);
        assert(t.take(k) =~= s.take(k));
        assert(is_digit(s[s.len() - 1]));
    } else {
        assert(s.take(k) =~= s);
    }
}

/// The number that the digits from `from` on write, where it is at most `max`.
fn digits_number(v: &Vec<char>, from: usize, max: u64) -> (r: Option<u64>)
    requires
        from <= v.len(),
        all_digits(v@.skip(from as int)),
    ensures
        r == (if digits_value(v@.skip(from as int)) <= max {
            Some(digits_value(v@.skip(from as int)) as u64)
        } else {
            None::<u64>
        }),
{
    let ghost s = v@.skip(from as int);
    let mut n: u64 = 0;
    let mut i: usize = from;
    proof {
        assert(s.take(0) =~= seq![]);
    }
    while i < v.len()
        invariant
            from <= i <= v.len(),
            s == v@.skip(from as int),
            all_digits(s),
            n == digits_value(s.take(i - from)),
            n <= max,
        decreases v.len() - i,
    {
        assert(is_digit(s[i - from]));
        let d: u64 = v[i] as u64 - '0' as u64;
        proof {
            assert(s.take(i - from + 1).drop_last() =~= s.take(i - from));
            lemma_digits_prefix(s, i - from + 1);
        }
        if n > (u64::MAX - d) / 10 {
            return None;
        }
        n = n * 10 + d;
        if n > max {
            return None;
        }
        i = i + 1;
    }
    assert(s.take(s.len() as int) =~= s);
    Some(n)
}

/// Reads an unsigned number up to `max`.
pub fn read_nat(v: &Vec<char>, max: u64) -> (r: Option<u64>)
    ensures
        match r {
            Some(n) => parse_nat(v@, max as nat) == Some(n as nat),
            None => parse_nat(v@, max as nat) is None,
        },
{
    let from: usize = if v.len() > 0 && v[0] == '+' {
        1
    } else {
        0
    };
    assert(v@.skip(0) =~= v@);
    if !digits_from(v, from) {
        return None;
    }
    digits_number(v, from, max)
}

/// Reads a signed number of 32 bits.
pub fn read_int(v: &Vec<char>) -> (r: Option<i32>)
    ensures
        match r {
            Some(n) => parse_int(v@) == Some(n as int),
            None => parse_int(v@) is None,
        },
{
    let neg = v.len() > 0 && v[0] == '-';
    let from: usize = if v.len() > 0 && (v[0] == '+' || v[0] == '-') {
        1
    } else {
        0
    };
    assert(v@.skip(0) =~= v@);
    if !digits_from(v, from) {
        return None;
    }
    let max: u64 = if neg {
        0x8000_0000
    } else {
        0x7fff_ffff
    };
    match digits_number(v, from, max) {
        None => None,
        Some(n) => {
            let m: i64 = n as i64;
            Some(
                if neg {
                    (-m) as i32
                } else {
                    m as i32
                },
            )
        },
    }
}

fn digit_of(d: u64) -> (c: char)
    requires
        d < 10,
    ensures
        c == digit(d as nat),
{
    if d == 0 {
        '0'
    } else if d == 1 {
        '1'
    } else if d == 2 {
        '2'
    } else if d == 3 {
        '3'
    } else if d == 4 {
        '4'
    } else if d == 5 {
        '5'
    } else if d == 6 {
        '6'
    } else if d == 7 {
        '7'
    } else if d == 8 {
        '8'
    } else {
        '9'
    }
}

/// Appends `n` in decimal.
pub fn push_dec(s: &mut String, n: u64)
    ensures
        final(s)@ == old(s)@ + dec(n as nat),
    decreases n,
{
    if n < 10 {
        s.push(digit_of(n));
        assert(s@ =~= old(s)@ + dec(n as nat));
    } else {
        push_dec(s, n / 10);
        s.push(digit_of(n % 10));
        assert(s@ =~= old(s)@ + dec(n as nat));
    }
}

/// Appends `n` in decimal, with its sign.
pub fn push_int(s: &mut String, n: i32)
    ensures
        final(s)@ == old(s)@ + dec_int(n as int),
{
    if n < 0 {
        s.push('-');
        let m: i64 = n as i64;
        push_dec(s, (-m) as u64);
        assert(s@ =~= old(s)@ + dec_int(n as int));
    } else {
        push_dec(s, n as u64);
    }
}

/// What `dec` writes is digits and reads back as the number.
pub proof fn lemma_dec(n: nat)
    ensures
        all_digits(dec(n)),
        digits_value(dec(n)) == n,
    decreases n,
{
    if n < 10 {
        let s = seq![digit(n)];
        assert(s.drop_last() =~= seq![]);
        assert(digits_value(seq![]) == 0);
        assert(is_digit(digit(n)));
    } else {
        lemma_dec(n / 10);
        let s = dec(n);
        assert(s.drop_last() =~= dec(n / 10));
        assert(is_digit(digit(n % 10)));
        assert forall|i: int| 0 <= i < s.len() implies is_digit(#[trigger] s[i]) by {
            if i < s.len() - 1 {
                assert(s[i] == dec(n / 10)[i]);
            }
        }
    }
}

/// A number that fits is read back from its decimal writing.
pub proof fn law_nat_round_trip(n: nat, max: nat)
    requires
        n <= max,
    ensures
        parse_nat(dec(n), max) == Some(n),
{
    lemma_dec(n);
    assert(is_digit(dec(n)[0]));
}

/// A signed number of 32 bits is read back from its decimal writing.
pub proof fn law_int_round_trip(n: int)
    requires
        i32::MIN <= n <= i32::MAX,
    ensures
        parse_int(dec_int(n)) == Some(n),
{
    if n < 0 {
        lemma_dec((-n) as nat);
        assert(dec_int(n).skip(1) =~= dec((-n) as nat));
    } else {
        lemma_dec(n as nat);
        assert(is_digit(dec(n as nat)[0]));
    }
}

/// The strings, with `sep` between each two.
pub fn join_strings(parts: &Vec<String>, sep: &str) -> (r: String)
    ensures
        r@ == join(strings(parts@), sep@),
{
    let mut r = String::new();
    let mut i: usize = 0;
    let ghost all = strings(parts@);
    assert(all.take(0) =~= seq![]);
    while i < parts.len()
        invariant
            i <= parts.len(),
            all == strings(parts@),
            r@ == join(all.take(i as int), sep@),
        decreases parts.len() - i,
    {
        proof {
            assert(all.take(i as int + 1).drop_last() =~= all.take(i as int));
        }
        if i > 0 {
            r.append(sep);
        }
        r.append(parts[i].as_str());
        proof {
            if i == 0 {
                assert(r@ =~= parts@[0]@);
            }
        }
        i = i + 1;
    }
    assert(all.take(all.len() as int) =~= all);
    r
}

/// A text without the separator is its own only piece.
pub proof fn lemma_split_one(t: Seq<char>, c: char)
    requires
        !t.contains(c),
    ensures
        split(t, c) == seq![t],
{
    assert forall|i: int| 0 <= i < t.len() implies t[i] != c by {
        if t[i] == c {
            assert(t.contains(c));
        }
    }
    lemma_find_is(t, c, t.len() as int);
}

/// A separator and a piece behind a text: one more piece.
pub proof fn lemma_split_back(s: Seq<char>, t: Seq<char>, c: char)
    requires
        !t.contains(c),
    ensures
        split(s + seq![c] + t, c) == split(s, c).push(t),
    decreases s.len(),
{
    let u = s + seq![c] + t;
    lemma_find(s, c);
    let k = find(s, c);
    assert forall|i: int| 0 <= i < k implies u[i] != c by {
        assert(u[i] == s[i]);
    }
    if k < s.len() {
        assert(u[k] == s[k]);
        lemma_find_is(u, c, k);
        assert(u.take(k) =~= s.take(k));
        assert(u.skip(k + 1) =~= s.skip(k + 1) + seq![c] + t);
        lemma_split_back(s.skip(k + 1), t, c);
        assert(seq![s.take(k)] + split(s.skip(k + 1), c).push(t) =~= (seq![s.take(k)] + split(
            s.skip(k + 1),
            c,
        )).push(t));
    } else {
        assert(u[k] == c);
        lemma_find_is(u, c, k);
        assert(u.take(k) =~= s);
        assert(u.skip(k + 1) =~= t);
        lemma_split_one(t, c);
        assert(seq![s] + seq![t] =~= seq![s].push(t));
    }
}

/// Pieces without the separator are found again in their join.
pub proof fn lemma_split_join(parts: Seq<Seq<char>>, c: char)
    requires
        parts.len() > 0,
        forall|i: int| 0 <= i < parts.len() ==> !(#[trigger] parts[i]).contains(c),
    ensures
        split(join(parts, seq![c]), c) == parts,
    decreases parts.len(),
{
    if parts.len() == 1 {
        lemma_split_one(parts[0], c);
        assert(seq![parts[0]] =~= parts);
    } else {
        let d = parts.drop_last();
        assert forall|i: int| 0 <= i < d.len() implies !(#[trigger] d[i]).contains(c) by {
            assert(d[i] == parts[i]);
        }
        lemma_split_join(d, c);
        assert(!parts[parts.len() - 1].contains(c));
        lemma_split_back(join(d, seq![c]), parts.last(), c);
        assert(d.push(parts.last()) =~= parts);
    }
}

/// A text without `c` is not changed by taking `c` out.
pub proof fn lemma_without_none(s: Seq<char>, c: char)
    requires
        !s.contains(c),
    ensures
        without(s, c) == s,
    decreases s.len(),
{
    if s.len() > 0 {
        let d = s.drop_last();
        if d.contains(c) {
            let i = choose|i: int| 0 <= i < d.len() && d[i] == c;
            assert(s[i] == c);
        }
        assert(s.last() != c) by {
            if s.last() == c {
                assert(s[s.len() - 1] == c);
            }
        }
        lemma_without_none(d, c);
        assert(d.push(s.last()) =~= s);
    }
}

/// A decimal writing holds digits, and perhaps a minus sign in front.
pub proof fn lemma_dec_int_chars(n: int)
    ensures
        dec_int(n).len() > 0,
        forall|i: int|
            0 <= i < dec_int(n).len() ==> is_digit(#[trigger] dec_int(n)[i]) || dec_int(n)[i] == '-',
{
    if n < 0 {
        lemma_dec((-n) as nat);
        let d = dec((-n) as nat);
        assert forall|i: int| 0 <= i < dec_int(n).len() implies is_digit(#[trigger] dec_int(n)[i])
            || dec_int(n)[i] == '-' by {
            if i > 0 {
                assert(dec_int(n)[i] == d[i - 1]);
            }
        }
    } else {
        lemma_dec(n as nat);
    }
}

/// What starts and ends without white space is not changed by trimming.
pub proof fn lemma_trim_id(s: Seq<char>)
    requires
        s.len() > 0 ==> !is_white(s[0]) && !is_white(s.last()),
    ensures
        trim(s) == s,
{
}

/// A line with a number in it.
pub open spec fn counted(head: Seq<char>, n: nat, tail: Seq<char>) -> Seq<char> {
    head + dec(n) + tail
}

/// A line with a number in it.
pub fn count_line(head: &str, n: usize, tail: &str) -> (r: String)
    ensures
        r@ == counted(head@, n as nat, tail@),
{
    let mut s = own(head);
    push_dec(&mut s, n as u64);
    s.append(tail);
    s
}

/// A line with a piece of text in it.
pub open spec fn framed(head: Seq<char>, s: Seq<char>, tail: Seq<char>) -> Seq<char> {
    head + s + tail
}

/// A line with a piece of text in it.
pub fn frame_line(head: &str, s: &str, tail: &str) -> (r: String)
    ensures
        r@ == framed(head@, s@, tail@),
{
    let mut r = own(head);
    r.append(s);
    r.append(tail);
    r
}

/// Blanks, tabs and line ends are white; letters, digits and signs are not.
pub proof fn law_white_is_what_shows_nothing(c: char)
    ensures
        is_white(' ') && is_white('\t') && is_white('\n') && is_white('\r'),
        0x21 <= c as int <= 0x7e ==> !is_white(c),
        is_white(c) ==> !is_digit(c),
        is_digit('0') && is_digit('9'),
        is_digit(c) ==> '0' <= c && c <= '9',
{
}

proof fn lemma_trim_start_parts(s: Seq<char>) -> (k: int)
    ensures
        0 <= k <= s.len(),
        trim_start(s) == s.skip(k),
        forall|j: int| 0 <= j < k ==> is_white(#[trigger] s[j]),
        k < s.len() ==> !is_white(s[k]),
    decreases s.len(),
{
    if s.len() > 0 && is_white(s[0]) {
        let k = lemma_trim_start_parts(s.skip(1));
        assert(s.skip(1).skip(k) =~= s.skip(k + 1));
        assert forall|j: int| 0 <= j < k + 1 implies is_white(#[trigger] s[j]) by {
            if j > 0 {
                assert(s.skip(1)[j - 1] == s[j]);
            }
        }
        if k + 1 < s.len() {
            assert(s.skip(1)[k] == s[k + 1]);
        }
        k + 1
    } else {
        assert(s.skip(0) =~= s);
        0
    }
}

proof fn lemma_trim_end_parts(s: Seq<char>) -> (k: int)
    ensures
        0 <= k <= s.len(),
        trim_end(s) == s.take(k),
        forall|j: int| k <= j < s.len() ==> is_white(#[trigger] s[j]),
        k > 0 ==> !is_white(s[k - 1]),
    decreases s.len(),
{
    if s.len() > 0 && is_white(s.last()) {
        let k = lemma_trim_end_parts(s.drop_last());
        assert(s.drop_last().take(k) =~= s.take(k));
        assert forall|j: int| k <= j < s.len() implies is_white(#[trigger] s[j]) by {
            if j < s.len() - 1 {
                assert(s.drop_last()[j] == s[j]);
            }
        }
        k
    } else {
        assert(s.take(s.len() as int) =~= s);
        s.len() as int
    }
}

/// Trimming takes the white space off both ends and nothing else: what is left
/// starts and ends without it, and stood in the text as it is.
pub proof fn law_trimming_takes_white_ends(s: Seq<char>)
    ensures
        trim(s).len() > 0 ==> !is_white(trim(s)[0]) && !is_white(trim(s).last()),
        trim(trim(s)) == trim(s),
        exists|a: int, b: int|
            #![trigger s.subrange(a, b)]
            0 <= a <= b <= s.len() && trim(s) == s.subrange(a, b) && (forall|j: int|
                0 <= j < a || b <= j < s.len() ==> is_white(#[trigger] s[j])),
{
    let a = lemma_trim_start_parts(s);
    let t = s.skip(a);
    let k = lemma_trim_end_parts(t);
    let r = trim(s);
    assert(r =~= s.subrange(a, a + k));
    assert forall|j: int| 0 <= j < a || a + k <= j < s.len() implies is_white(#[trigger] s[j]) by {
        if j >= a + k {
            assert(t[j - a] == s[j]);
        }
    }
    if r.len() > 0 {
        assert(r[0] == t[0]);
        assert(!is_white(t[k - 1]));
        assert(r.last() == t[k - 1]);
    }
    lemma_trim_id(r);
}

/// A line loses the one carriage return at its end and nothing else.
pub proof fn law_a_line_loses_its_return(s: Seq<char>)
    ensures
        chomp(s.push('\r')) == s,
        s.len() == 0 || s.last() != '\r' ==> chomp(s) == s,
{
    assert(s.push('\r').drop_last() =~= s);
}

/// A text is its lines: the first one up to the feed, and then those behind it.
pub proof fn law_a_feed_ends_a_line(l: Seq<char>, rest: Seq<char>)
    requires
        forall|i: int| 0 <= i < l.len() ==> #[trigger] l[i] != '\n',
    ensures
        lines(l + seq!['\n'] + rest) == seq![chomp(l)] + lines(rest),
        l.len() > 0 ==> lines(l) == seq![l],
        lines(seq![]).len() == 0,
{
    let s = l + seq!['\n'] + rest;
    lemma_find_is(s, '\n', l.len() as int);
    assert(s.take(l.len() as int) =~= l);
    assert(s.skip(l.len() as int + 1) =~= rest);
    lemma_find_is(l, '\n', l.len() as int);
}

/// Taking a character out leaves every other one, in its order.
pub proof fn law_taking_out_leaves_the_rest(s: Seq<char>, c: char, x: char)
    ensures
        without(s.push(x), c) == (if x == c { without(s, c) } else { without(s, c).push(x) }),
        without(seq![], c).len() == 0,
        !without(s, c).contains(c),
    decreases s.len(),
{
    assert(s.push(x).drop_last() =~= s);
    if s.len() > 0 {
        law_taking_out_leaves_the_rest(s.drop_last(), c, s.last());
        let w = without(s.drop_last(), c);
        if s.last() != c {
            assert forall|i: int| 0 <= i < w.push(s.last()).len() implies w.push(s.last())[i] != c by {
                if i < w.len() && w[i] == c {
                    assert(w.contains(c));
                }
            }
        }
    }
}

/// Joined parts have the separator between them, and none at the ends.
pub proof fn law_a_separator_stands_between(parts: Seq<Seq<char>>, p: Seq<char>, sep: Seq<char>)
    ensures
        parts.len() > 0 ==> join(parts.push(p), sep) == join(parts, sep) + sep + p,
        parts.len() == 0 ==> join(parts.push(p), sep) == p,
        join(seq![], sep).len() == 0,
{
    assert(parts.push(p).drop_last() =~= parts);
}

/// The first place of a character has none before it, and is behind the end where
/// there is none.
pub proof fn law_the_first_place_is_found(s: Seq<char>, c: char)
    ensures
        0 <= find(s, c) <= s.len(),
        find(s, c) < s.len() ==> s[find(s, c)] == c,
        forall|i: int| 0 <= i < find(s, c) ==> #[trigger] s[i] != c,
        holds(s, c) == s.contains(c),
{
    lemma_find(s, c);
    lemma_holds(s, c);
}

/// A number is written in tens, the lowest digit last, and read so.
pub proof fn law_a_number_is_written_in_tens(n: nat, d: nat)
    requires
        d < 10,
        n > 0,
    ensures
        dec(n * 10 + d) == dec(n).push(digit(d)),
        dec(d) == seq![digit(d)],
        digit(d) as int == '0' as int + d,
        digits_value(dec(n)) == n,
{
    lemma_dec(n);
    assert((n * 10 + d) / 10 == n) by (nonlinear_arith)
        requires
            d < 10,
    ;
    assert((n * 10 + d) % 10 == d) by (nonlinear_arith)
        requires
            d < 10,
    ;
}

/// A number below zero is written with a sign in front of its size.
pub proof fn law_a_sign_stands_in_front(n: nat)
    ensures
        n > 0 ==> dec_int(-(n as int)) == seq!['-'] + dec(n),
        dec_int(n as int) == dec(n),
{
}

/// A number that is too great, that holds anything but digits, or that has none
/// is not read; a plus sign in front does no harm.
pub proof fn law_only_digits_are_read(s: Seq<char>, max: nat, i: int)
    ensures
        s.len() == 0 ==> parse_nat(s, max) is None,
        0 < i < s.len() && !is_digit(s[i]) ==> parse_nat(s, max) is None,
        s.len() > 0 && !is_digit(s[0]) && s[0] != '+' ==> parse_nat(s, max) is None,
        s.len() > 0 && s[0] != '+' ==> parse_nat(seq!['+'] + s, max) == parse_nat(s, max),
        parse_nat(s, max) matches Some(n) ==> n <= max,
        all_digits(s) && digits_value(s) <= max ==> parse_nat(s, max) == Some(digits_value(s)),
        all_digits(s) && digits_value(s) > max ==> parse_nat(s, max) is None,
{
    assert((seq!['+'] + s).skip(1) =~= s);
    if 0 < i < s.len() && s[0] == '+' {
        assert(s.skip(1)[i - 1] == s[i]);
    }
    if all_digits(s) {
        assert(is_digit(s[0]));
    }
}

} // verus!
