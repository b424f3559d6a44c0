//! Krita presets: what of their dynamics carries over, and an honest list of
//! what does not.
//!
//! The brush tip is not in the file, so an import puts the preset's dynamics on
//! the default round tip. A pressure curve counts by its presence only, never by
//! its geometry, and a paint engine other than the Pixel Brush comes in as a
//! plain brush.
//!
//! Numbers are the bit patterns of the 64-bit floats that the texts read as.

use vstd::prelude::*;
use crate::text;

verus! {

/// The bit that makes a number negative.
pub const SIGN: u64 = 0x8000_0000_0000_0000;

/// The bit pattern of the infinite float; a greater magnitude is no number.
pub const INFINITE: u64 = 0x7ff0_0000_0000_0000;

/// One.
pub const ONE: u64 = 0x3ff0_0000_0000_0000;

/// The least diameter that a preset can state: a tenth of a pixel.
pub const LEAST_SIZE: u64 = 0x3fb9_9999_9999_999a;

/// The greatest diameter that a preset can state: ten thousand pixels.
pub const MOST_SIZE: u64 = 0x40c3_8800_0000_0000;

/// The diameter of a preset that states none: twenty pixels.
pub const DEFAULT_DIAMETER: u64 = 0x4034_0000_0000_0000;

/// A number without its sign.
pub open spec fn magnitude(n: u64) -> int {
    n as int % SIGN as int
}

/// Zero, of either sign.
pub open spec fn zero(n: u64) -> bool {
    magnitude(n) == 0
}

/// A number held between zero and one; what is no number stays so.
pub open spec fn unit_of(n: u64) -> u64 {
    if magnitude(n) > INFINITE {
        n
    } else if n >= SIGN {
        if n == SIGN {
            n
        } else {
            0
        }
    } else if n > ONE {
        ONE
    } else {
        n
    }
}

fn is_zero(n: u64) -> (r: bool)
    ensures
        r == zero(n),
{
    n % SIGN == 0
}

fn to_unit(n: u64) -> (r: u64)
    ensures
        r == unit_of(n),
{
    if n % SIGN > INFINITE {
        n
    } else if n >= SIGN {
        if n == SIGN {
            n
        } else {
            0
        }
    } else if n > ONE {
        ONE
    } else {
        n
    }
}

/// One parameter of a preset.
#[derive(Debug)]
pub struct Param {
    pub key: String,
    pub value: String,
    /// What the value reads as without the white space around it, where it is a
    /// plain number.
    pub number: Option<u64>,
}

/// A preset as the parser hands it over; the parameters in the order of their
/// keys, no key twice.
#[derive(Debug)]
pub struct KppPreset {
    pub name: String,
    pub paintop_id: String,
    pub params: Vec<Param>,
}

/// Where a key first stands.
pub open spec fn place(params: Seq<Param>, key: Seq<char>) -> Option<int>
    decreases params.len(),
{
    if params.len() == 0 {
        None
    } else if params[0].key@ == key {
        Some(0)
    } else {
        match place(params.skip(1), key) {
            Some(i) => Some(i + 1),
            None => None,
        }
    }
}

fn find_param(params: &Vec<Param>, key: &str) -> (r: Option<usize>)
    ensures
        match r {
            Some(i) => i < params@.len() && place(params@, key@) == Some(i as int) && params@[i as int].key@ == key@,
            None => place(params@, key@) is None,
        },
{
    let mut i: usize = 0;
    assert(params@.skip(0) =~= params@);
    while i < params.len()
        invariant
            i <= params@.len(),
            place(params@, key@) == (match place(params@.skip(i as int), key@) {
                Some(k) => Some(k + i),
                None => None,
            }),
        decreases params@.len() - i,
    {
        assert(params@.skip(i as int)[0] == params@[i as int]);
        assert(params@.skip(i as int).skip(1) =~= params@.skip(i + 1));
        if text::same(params[i].key.as_str(), key) {
            return Some(i);
        }
        i = i + 1;
    }
    None
}

/// The number that a parameter states.
pub open spec fn num_spec(params: Seq<Param>, key: Seq<char>) -> Option<u64> {
    match place(params, key) {
        Some(i) => params[i].number,
        None => None,
    }
}

/// The number that a parameter states.
pub fn num(params: &Vec<Param>, key: &str) -> (r: Option<u64>)
    ensures
        r == num_spec(params@, key@),
{
    match find_param(params, key) {
        Some(i) => params[i].number,
        None => None,
    }
}

/// The number that a parameter states, between zero and one.
pub open spec fn unit_spec(params: Seq<Param>, key: Seq<char>) -> Option<u64> {
    match num_spec(params, key) {
        Some(n) => Some(unit_of(n)),
        None => None,
    }
}

/// The number that a parameter states, between zero and one.
pub fn unit(params: &Vec<Param>, key: &str) -> (r: Option<u64>)
    ensures
        r == unit_spec(params@, key@),
{
    match num(params, key) {
        Some(n) => Some(to_unit(n)),
        None => None,
    }
}

/// A character's code with the capitals of the alphabet made small.
pub open spec fn folded(c: char) -> int {
    if 'A' <= c <= 'Z' {
        c as int + 32
    } else {
        c as int
    }
}

fn fold(c: char) -> (r: u32)
    ensures
        r == folded(c),
{
    if 'A' <= c && c <= 'Z' {
        c as u32 + 32
    } else {
        c as u32
    }
}

/// The text stands at a place, capitals or not.
pub open spec fn folded_at(s: Seq<char>, at: int, p: Seq<char>) -> bool {
    &&& 0 <= at
    &&& at + p.len() <= s.len()
    &&& forall|k: int| 0 <= k < p.len() ==> folded(#[trigger] p[k]) == folded(s[at + k])
}

fn is_folded_at(s: &Vec<char>, at: usize, p: &Vec<char>) -> (r: bool)
    requires
        at <= s@.len(),
    ensures
        r == folded_at(s@, at as int, p@),
{
    if p.len() > s.len() - at {
        return false;
    }
    let mut k: usize = 0;
    while k < p.len()
        invariant
            k <= p@.len(),
            at + p@.len() <= s.len(),
            forall|j: int| 0 <= j < k ==> folded(#[trigger] p@[j]) == folded(s@[at + j]),
        decreases p@.len() - k,
    {
        if fold(p[k]) != fold(s[at + k]) {
            assert(folded(p@[k as int]) != folded(s@[at + k]));
            return false;
        }
        k = k + 1;
    }
    true
}

/// Two texts that differ in capitals at most.
pub open spec fn same_folded(s: Seq<char>, p: Seq<char>) -> bool {
    s.len() == p.len() && folded_at(s, 0, p)
}

fn is_same_folded(s: &Vec<char>, p: &str) -> (r: bool)
    ensures
        r == same_folded(s@, p@),
{
    let w = text::to_chars(p);
    s.len() == w.len() && is_folded_at(s, 0, &w)
}

/// The text stands somewhere, capitals or not.
pub open spec fn holds_folded(s: Seq<char>, p: Seq<char>) -> bool {
    exists|at: int| #[trigger] folded_at(s, at, p)
}

fn has_folded(s: &Vec<char>, p: &str) -> (r: bool)
    ensures
        r == holds_folded(s@, p@),
{
    let w = text::to_chars(p);
    let mut at: usize = 0;
    loop
        invariant
            at <= s@.len(),
            w@ == p@,
            forall|j: int| 0 <= j < at ==> !#[trigger] folded_at(s@, j, p@),
        decreases s@.len() - at,
    {
        if is_folded_at(s, at, &w) {
            return true;
        }
        if at >= s.len() {
            return false;
        }
        at = at + 1;
    }
}

/// A curve option that is switched on: a number other than zero, the word true,
/// or a sensor that names the pressure.
pub open spec fn flag_spec(params: Seq<Param>, key: Seq<char>) -> bool {
    match place(params, key) {
        Some(i) => match params[i].number {
            Some(n) => !zero(n),
            None => {
                let v = text::trim(params[i].value@);
                same_folded(v, "true"@) || (!same_folded(v, "false"@) && holds_folded(v, "pressure"@))
            },
        },
        None => false,
    }
}

/// Is a curve option switched on?
pub fn flag(params: &Vec<Param>, key: &str) -> (r: bool)
    ensures
        r == flag_spec(params@, key@),
{
    match find_param(params, key) {
        Some(i) => match params[i].number {
            Some(n) => !is_zero(n),
            None => {
                let v = text::trim_chars(&text::to_chars(params[i].value.as_str()));
                is_same_folded(&v, "true") || (!is_same_folded(&v, "false") && has_folded(&v, "pressure"))
            },
        },
        None => false,
    }
}

/// An option that was off: empty, false, or a plain zero.
pub open spec fn inert(v: Seq<char>, number: Option<u64>) -> bool {
    ||| text::trim(v).len() == 0
    ||| same_folded(text::trim(v), "false"@)
    ||| (number matches Some(n) && zero(n))
}

/// Was the option off, so that nothing was lost with it?
pub fn is_inert(v: &str, number: Option<u64>) -> (r: bool)
    ensures
        r == inert(v@, number),
{
    let t = text::trim_chars(&text::to_chars(v));
    if t.len() == 0 || is_same_folded(&t, "false") {
        return true;
    }
    match number {
        Some(n) => is_zero(n),
        None => false,
    }
}

/// The diameter that a preset states plainly: the first of its two size
/// parameters that is a number, where that lies within reason.
pub open spec fn size_spec(params: Seq<Param>) -> Option<u64> {
    let d = match num_spec(params, "BrushSize"@) {
        Some(n) => Some(n),
        None => num_spec(params, "Size"@),
    };
    match d {
        Some(n) => if LEAST_SIZE <= n <= MOST_SIZE {
            Some(n)
        } else {
            None
        },
        None => None,
    }
}

/// The diameter that a preset states plainly.
pub fn size_px(params: &Vec<Param>) -> (r: Option<u64>)
    ensures
        r == size_spec(params@),
{
    let d = match num(params, "BrushSize") {
        Some(n) => Some(n),
        None => num(params, "Size"),
    };
    match d {
        Some(n) => if LEAST_SIZE <= n && n <= MOST_SIZE {
            Some(n)
        } else {
            None
        },
        None => None,
    }
}

/// The spacing as a part of the diameter: the parameter, else what the tip's
/// definition states, where it is above zero and finite.
pub open spec fn spacing_spec(params: Seq<Param>, attr: Option<u64>) -> Option<u64> {
    let f = match num_spec(params, "Spacing"@) {
        Some(n) => Some(n),
        None => if place(params, "brush_definition"@) is Some {
            attr
        } else {
            None
        },
    };
    match f {
        Some(n) => if 0 < n < INFINITE {
            Some(n)
        } else {
            None
        },
        None => None,
    }
}

/// The spacing as a part of the diameter. `attr` is the number that the
/// `spacing` attribute of the tip's definition reads as.
pub fn spacing_fraction(params: &Vec<Param>, attr: Option<u64>) -> (r: Option<u64>)
    ensures
        r == spacing_spec(params@, attr),
{
    let f = match num(params, "Spacing") {
        Some(n) => Some(n),
        None => match find_param(params, "brush_definition") {
            Some(_) => attr,
            None => None,
        },
    };
    match f {
        Some(n) => if 0 < n && n < INFINITE {
            Some(n)
        } else {
            None
        },
        None => None,
    }
}

/// The text stands at a place.
pub open spec fn stands_at(s: Seq<char>, at: int, p: Seq<char>) -> bool {
    &&& 0 <= at
    &&& at + p.len() <= s.len()
    &&& s.subrange(at, at + p.len()) == p
}

/// An attribute's name begins at a place: at the start, behind white space or
/// behind the opening bracket of its element.
pub open spec fn word_at(s: Seq<char>, at: int) -> bool {
    at == 0 || (0 < at <= s.len() && (text::is_white(s[at - 1]) || s[at - 1] == '<'))
}

/// The attribute `key="` begins at a place.
pub open spec fn attr_at(s: Seq<char>, at: int, key: Seq<char>) -> bool {
    stands_at(s, at, key + "=\""@) && word_at(s, at)
}

/// The attribute's text from the first place where it begins; none where its
/// closing quote is missing.
pub open spec fn attr_from(s: Seq<char>, at: int, key: Seq<char>) -> Option<Seq<char>>
    decreases s.len() - at,
{
    if at < 0 || at >= s.len() {
        None
    } else if attr_at(s, at, key) {
        let value = s.skip(at + (key + "=\""@).len());
        if text::find(value, '"') < value.len() {
            Some(text::trim(value.take(text::find(value, '"'))))
        } else {
            None
        }
    } else {
        attr_from(s, at + 1, key)
    }
}

fn is_at(s: &Vec<char>, at: usize, p: &Vec<char>) -> (r: bool)
    requires
        at <= s@.len(),
    ensures
        r == stands_at(s@, at as int, p@),
{
    if p.len() > s.len() - at {
        return false;
    }
    let c = text::cut(s, at, at + p.len());
    text::same_chars(&c, p)
}

/// One attribute out of an XML blob, without the white space around it. The
/// name must start a word, so that `spacing` is not found in a longer name.
pub fn xml_attr(blob: &str, key: &str) -> (r: Option<String>)
    ensures
        match r {
            Some(t) => attr_from(blob@, 0, key@) == Some(t@),
            None => attr_from(blob@, 0, key@) is None,
        },
{
    let s = text::to_chars(blob);
    let p = text::to_chars(text::frame_line("", key, "=\"").as_str());
    proof {
        reveal_strlit("");
        assert(p@ =~= key@ + "=\""@);
    }
    let mut at: usize = 0;
    while at < s.len()
        invariant
            at <= s.len(),
            s@ == blob@,
            p@ == key@ + "=\""@,
            attr_from(blob@, 0, key@) == attr_from(blob@, at as int, key@),
        decreases s@.len() - at,
    {
        let word = at == 0 || text::white(s[at - 1]) || s[at - 1] == '<';
        if word && is_at(&s, at, &p) {
            let value = text::cut(&s, at + p.len(), s.len());
            assert(value@ =~= blob@.skip(at + (key@ + "=\""@).len()));
            let end: usize = text::find_from(&value, 0, '"');
            assert(value@.skip(0) =~= value@);
            if end < value.len() {
                let inner = text::cut(&value, 0, end);
                let t = text::trim_chars(&inner);
                assert(inner@ =~= value@.take(end as int));
                return Some(text::from_chars(&t));
            }
            return None;
        }
        at = at + 1;
    }
    None
}

/// The parameters that are read; anything else is reported by its name.
pub open spec fn is_read(key: Seq<char>) -> bool {
    ||| key == "Spacing"@
    ||| key == "BrushSize"@
    ||| key == "Size"@
    ||| key == "OpacityValue"@
    ||| key == "FlowValue"@
    ||| key == "PressureSize"@
    ||| key == "PressureOpacity"@
    ||| key == "PressureFlow"@
}

fn reads(key: &str) -> (r: bool)
    ensures
        r == is_read(key@),
{
    text::same(key, "Spacing") || text::same(key, "BrushSize") || text::same(key, "Size") || text::same(
        key,
        "OpacityValue",
    ) || text::same(key, "FlowValue") || text::same(key, "PressureSize") || text::same(key, "PressureOpacity")
        || text::same(key, "PressureFlow")
}

/// What is reported of a parameter that does not carry over: of the tip that it
/// is a resource of its own, of anything else its name. An option that was off
/// is not reported, since nothing was lost with it.
pub open spec fn note_of(p: Param) -> Seq<Seq<char>> {
    if is_read(p.key@) {
        seq![]
    } else if p.key@ == "brush_definition"@ {
        seq!["brush_definition (the tip itself — a separate Krita resource)"@]
    } else if inert(p.value@, p.number) {
        seq![]
    } else {
        seq![p.key@]
    }
}

/// What is reported of the parameters, one behind the other.
pub open spec fn notes_of(params: Seq<Param>) -> Seq<Seq<char>>
    decreases params.len(),
{
    if params.len() == 0 {
        seq![]
    } else {
        notes_of(params.drop_last()) + note_of(params.last())
    }
}

/// What is reported of a Pixel Brush preset: first that its size is not plain,
/// where it is not.
pub open spec fn all_notes(params: Seq<Param>) -> Seq<Seq<char>> {
    let size = if size_spec(params) is None {
        seq!["brush size (no plainly numeric Size/BrushSize; the default is used)"@]
    } else {
        seq![]
    };
    size + notes_of(params)
}

/// The dynamics of a Pixel Brush preset.
#[derive(Clone, Copy, PartialEq, Eq, Structural, Debug)]
pub struct Dynamics {
    pub diameter: u64,
    /// A part of the diameter; none keeps the default gap.
    pub spacing: Option<u64>,
    pub size_by_pressure: bool,
    /// The stroke's alpha.
    pub opaque: u64,
    /// The alpha of a dab.
    pub flow: u64,
    /// The alpha of a dab runs from nothing to the flow with the pressure.
    pub opaque_by_pressure: bool,
}

/// A value, or another where there is none.
pub open spec fn or(v: Option<u64>, d: u64) -> u64 {
    match v {
        Some(n) => n,
        None => d,
    }
}

fn one_or(v: Option<u64>, d: u64) -> (r: u64)
    ensures
        r == or(v, d),
{
    match v {
        Some(n) => n,
        None => d,
    }
}

/// The dynamics that a Pixel Brush preset states.
pub open spec fn dynamics_of(params: Seq<Param>, attr: Option<u64>) -> Dynamics {
    Dynamics {
        diameter: or(size_spec(params), DEFAULT_DIAMETER),
        spacing: spacing_spec(params, attr),
        size_by_pressure: flag_spec(params, "PressureSize"@),
        opaque: or(unit_spec(params, "OpacityValue"@), ONE),
        flow: or(unit_spec(params, "FlowValue"@), ONE),
        opaque_by_pressure: flag_spec(params, "PressureOpacity"@) || flag_spec(params, "PressureFlow"@),
    }
}

/// A Pixel Brush preset's dynamics, and what did not carry over. `attr` is the
/// number that the `spacing` attribute of the tip's definition reads as.
pub fn translate(params: &Vec<Param>, attr: Option<u64>) -> (r: (Dynamics, Vec<String>))
    ensures
        r.0 == dynamics_of(params@, attr),
        text::strings(r.1@) == all_notes(params@),
{
    let mut notes: Vec<String> = Vec::new();
    let size = size_px(params);
    if size.is_none() {
        notes.push(text::own("brush size (no plainly numeric Size/BrushSize; the default is used)"));
    }
    let d = Dynamics {
        diameter: one_or(size, DEFAULT_DIAMETER),
        spacing: spacing_fraction(params, attr),
        size_by_pressure: flag(params, "PressureSize"),
        opaque: one_or(unit(params, "OpacityValue"), ONE),
        flow: one_or(unit(params, "FlowValue"), ONE),
        opaque_by_pressure: flag(params, "PressureOpacity") || flag(params, "PressureFlow"),
    };
    let ghost first = text::strings(notes@);
    assert(first =~= all_notes(params@).take(first.len() as int));
    let mut i: usize = 0;
    assert(params@.take(0) =~= seq![]);
    assert(text::strings(notes@) =~= first + notes_of(params@.take(0)));
    while i < params.len()
        invariant
            i <= params@.len(),
            text::strings(notes@) == first + notes_of(params@.take(i as int)),
        decreases params@.len() - i,
    {
        let p = &params[i];
        let ghost before = text::strings(notes@);
        if reads(p.key.as_str()) {
        } else if text::same(p.key.as_str(), "brush_definition") {
            notes.push(text::own("brush_definition (the tip itself — a separate Krita resource)"));
        } else if !is_inert(p.value.as_str(), p.number) {
            notes.push(p.key.clone());
        }
        proof {
            assert(text::strings(notes@) =~= before + note_of(*p));
            assert(params@.take(i + 1).drop_last() =~= params@.take(i as int));
            assert(params@.take(i + 1).last() == *p);
            assert(text::strings(notes@) =~= first + notes_of(params@.take(i + 1)));
        }
        i = i + 1;
    }
    assert(params@.take(i as int) =~= params@);
    assert(text::strings(notes@) =~= all_notes(params@));
    (d, notes)
}

/// The brush that a preset becomes.
#[derive(Clone, Copy, PartialEq, Eq, Structural, Debug)]
pub enum Planned {
    /// A plain brush of this diameter.
    Plain(u64),
    Dynamics(Dynamics),
}

/// What is written of a preset.
#[derive(Debug)]
pub struct KppPlan {
    pub name: String,
    pub brush: Planned,
    pub notes: Vec<String>,
}

/// What was imported.
#[derive(Clone, Copy, PartialEq, Eq, Structural, Debug)]
pub struct ImportSummary {
    pub imported: usize,
    pub translated: usize,
    pub notes: usize,
}

/// What a preset becomes.
pub open spec fn planned(preset: KppPreset, set_name: Seq<char>, attr: Option<u64>, r: KppPlan) -> bool {
    &&& r.name@ == (if text::trim(preset.name@).len() == 0 {
        set_name
    } else {
        text::trim(preset.name@)
    })
    &&& preset.paintop_id@ == "paintbrush"@ ==> {
        &&& r.brush == Planned::Dynamics(dynamics_of(preset.params@, attr))
        &&& text::strings(r.notes@) == all_notes(preset.params@)
    }
    &&& preset.paintop_id@ != "paintbrush"@ ==> {
        &&& r.brush == Planned::Plain(or(size_spec(preset.params@), DEFAULT_DIAMETER))
        &&& text::strings(r.notes@) == seq![
            text::framed("Krita paint engine \""@, preset.paintop_id@, "\" (imported as a plain brush)"@),
        ]
    }
}

/// What is to be written of a preset. One without a name takes the name of its
/// set; only the Pixel Brush has dynamics that are read, and the note on any
/// other paint engine names it.
pub fn plan_kpp_import(preset: &KppPreset, set_name: &str, attr: Option<u64>) -> (r: KppPlan)
    ensures
        planned(*preset, set_name@, attr, r),
{
    let t = text::trim_chars(&text::to_chars(preset.name.as_str()));
    let name = if t.len() == 0 {
        text::own(set_name)
    } else {
        text::from_chars(&t)
    };
    if text::same(preset.paintop_id.as_str(), "paintbrush") {
        let (d, notes) = translate(&preset.params, attr);
        return KppPlan { name, brush: Planned::Dynamics(d), notes };
    }
    let note = text::frame_line(
        "Krita paint engine \"",
        preset.paintop_id.as_str(),
        "\" (imported as a plain brush)",
    );
    let ghost line = note@;
    let notes = vec![note];
    assert(text::strings(notes@) =~= seq![line]);
    KppPlan { name, brush: Planned::Plain(one_or(size_px(&preset.params), DEFAULT_DIAMETER)), notes }
}

/// What an import comes to.
pub open spec fn summed(plan: KppPlan, written: bool, r: ImportSummary) -> bool {
    &&& r == (if written {
        ImportSummary {
            imported: 1,
            translated: if plan.brush is Dynamics {
                1
            } else {
                0
            },
            notes: plan.notes.len(),
        }
    } else {
        ImportSummary { imported: 0, translated: 0, notes: 0 }
    })
}

/// What an import comes to: nothing where the brush could not be written.
pub fn import_summary(plan: &KppPlan, written: bool) -> (r: ImportSummary)
    ensures
        summed(*plan, written, r),
{
    if !written {
        return ImportSummary { imported: 0, translated: 0, notes: 0 };
    }
    let translated: usize = match plan.brush {
        Planned::Dynamics(_) => 1,
        Planned::Plain(_) => 0,
    };
    ImportSummary { imported: 1, translated, notes: plan.notes.len() }
}

proof fn lemma_noted(params: Seq<Param>, k: int, i: int)
    requires
        0 <= k < params.len(),
        0 <= i < note_of(params[k]).len(),
    ensures
        notes_of(params).contains(note_of(params[k])[i]),
    decreases params.len(),
{
    let head = notes_of(params.drop_last());
    let tail = note_of(params.last());
    if k == params.len() - 1 {
        assert((head + tail)[head.len() + i] == tail[i]);
    } else {
        assert(params.drop_last()[k] == params[k]);
        lemma_noted(params.drop_last(), k, i);
        let n = note_of(params[k])[i];
        let j = choose|j: int| 0 <= j < head.len() && head[j] == n;
        assert((head + tail)[j] == n);
    }
}

/// Nothing is lost in silence: every parameter that is neither read nor off is
/// reported under its own name, and a tip is reported as a resource of its own.
pub proof fn law_nothing_is_lost_in_silence(params: Seq<Param>, k: int)
    requires
        0 <= k < params.len(),
        !is_read(params[k].key@),
        params[k].key@ == "brush_definition"@ || !inert(params[k].value@, params[k].number),
    ensures
        params[k].key@ != "brush_definition"@ ==> all_notes(params).contains(params[k].key@),
        params[k].key@ == "brush_definition"@ ==> all_notes(params).contains(
            "brush_definition (the tip itself — a separate Krita resource)"@,
        ),
{
    lemma_noted(params, k, 0);
    let n = note_of(params[k])[0];
    let rest = notes_of(params);
    let j = choose|j: int| 0 <= j < rest.len() && rest[j] == n;
    let shift = all_notes(params).len() - rest.len();
    assert(all_notes(params)[shift + j] == n);
}

proof fn lemma_source(params: Seq<Param>, n: Seq<char>)
    requires
        notes_of(params).contains(n),
    ensures
        exists|k: int| 0 <= k < params.len() && note_of(#[trigger] params[k]).contains(n),
    decreases params.len(),
{
    if params.len() > 0 {
        let head = notes_of(params.drop_last());
        let tail = note_of(params.last());
        let j = choose|j: int| 0 <= j < (head + tail).len() && (head + tail)[j] == n;
        if j < head.len() {
            assert(head[j] == n);
            lemma_source(params.drop_last(), n);
            let k = choose|k: int|
                0 <= k < params.drop_last().len() && note_of(#[trigger] params.drop_last()[k]).contains(n);
            assert(params[k] == params.drop_last()[k]);
        } else {
            assert(tail[j - head.len()] == n);
            assert(note_of(params[params.len() - 1]).contains(n));
        }
    }
}

/// Nothing is reported that was not lost: whatever is reported of the parameters
/// comes from one that is neither read nor, but for the tip, off.
pub proof fn law_nothing_is_reported_that_was_kept(params: Seq<Param>, n: Seq<char>)
    requires
        notes_of(params).contains(n),
    ensures
        exists|k: int|
            0 <= k < params.len() && !is_read((#[trigger] params[k]).key@) && (params[k].key@ == "brush_definition"@
                || (!inert(params[k].value@, params[k].number) && n == params[k].key@)),
{
    lemma_source(params, n);
    let k = choose|k: int| 0 <= k < params.len() && note_of(#[trigger] params[k]).contains(n);
    assert(!is_read(params[k].key@));
}

/// A preset that states nothing still becomes a brush, at the default size, the
/// default gap and full opacity.
pub proof fn law_empty_presets_are_usable(attr: Option<u64>)
    ensures
        dynamics_of(seq![], attr) == (Dynamics {
            diameter: DEFAULT_DIAMETER,
            spacing: None,
            size_by_pressure: false,
            opaque: ONE,
            flow: ONE,
            opaque_by_pressure: false,
        }),
{
}

/// No key stands twice.
pub open spec fn keyed(params: Seq<Param>) -> bool {
    forall|i: int, j: int| 0 <= i < j < params.len() ==> (#[trigger] params[i]).key@ != (#[trigger] params[j]).key@
}

proof fn lemma_place(params: Seq<Param>, key: Seq<char>, k: int)
    requires
        keyed(params),
        0 <= k < params.len(),
        params[k].key@ == key,
    ensures
        place(params, key) == Some(k),
    decreases params.len(),
{
    if k > 0 {
        assert(params[0].key@ != params[k].key@);
        assert(params.skip(1)[k - 1] == params[k]);
        assert(keyed(params.skip(1))) by {
            assert forall|i: int, j: int| 0 <= i < j < params.skip(1).len() implies (#[trigger] params.skip(1)[i]).key@
                != (#[trigger] params.skip(1)[j]).key@ by {
                assert(params[i + 1].key@ != params[j + 1].key@);
            }
        }
        lemma_place(params.skip(1), key, k - 1);
    }
}

proof fn lemma_no_place(params: Seq<Param>, key: Seq<char>)
    requires
        forall|k: int| 0 <= k < params.len() ==> (#[trigger] params[k]).key@ != key,
    ensures
        place(params, key) is None,
    decreases params.len(),
{
    if params.len() > 0 {
        assert(params[0].key@ != key);
        assert forall|k: int| 0 <= k < params.skip(1).len() implies (#[trigger] params.skip(1)[k]).key@ != key by {
            assert(params[k + 1].key@ != key);
        }
        lemma_no_place(params.skip(1), key);
    }
}

proof fn lemma_place_is(params: Seq<Param>, key: Seq<char>)
    ensures
        place(params, key) matches Some(i) ==> 0 <= i < params.len() && params[i].key@ == key,
    decreases params.len(),
{
    if params.len() > 0 && params[0].key@ != key {
        lemma_place_is(params.skip(1), key);
        if let Some(i) = place(params.skip(1), key) {
            assert(params.skip(1)[i] == params[i + 1]);
        }
    }
}

proof fn lemma_words()
    ensures
        text::trim("true"@) == "true"@,
        text::trim("false"@) == "false"@,
        same_folded("true"@, "true"@),
        !same_folded("false"@, "true"@),
        same_folded("false"@, "false"@),
        !same_folded("true"@, "false"@),
{
    reveal_strlit("true");
    reveal_strlit("false");
    text::lemma_trim_id("true"@);
    text::lemma_trim_id("false"@);
}

/// An option that is switched on: by a number other than the two zeros, or by
/// the word true.
pub open spec fn switched_on(p: Param) -> bool {
    match p.number {
        Some(n) => n != 0 && n != 0x8000_0000_0000_0000,
        None => p.value@ == "true"@,
    }
}

/// An option that is switched off: by either zero, or by the word false.
pub open spec fn switched_off(p: Param) -> bool {
    match p.number {
        Some(n) => n == 0 || n == 0x8000_0000_0000_0000,
        None => p.value@ == "false"@,
    }
}

/// What a switch does, whichever option it belongs to.
pub proof fn law_a_switch_is_read(params: Seq<Param>, k: int)
    requires
        keyed(params),
        0 <= k < params.len(),
    ensures
        switched_on(params[k]) ==> flag_spec(params, params[k].key@),
        switched_off(params[k]) ==> !flag_spec(params, params[k].key@),
{
    lemma_place(params, params[k].key@, k);
    lemma_words();
    if let Some(n) = params[k].number {
        assert((n as int % 0x8000_0000_0000_0000int == 0) == (n == 0 || n == 0x8000_0000_0000_0000));
    } else if params[k].value@ == "false"@ {
        assert(same_folded(text::trim(params[k].value@), "false"@));
    }
}

/// An option that the preset does not have is off.
pub proof fn law_a_missing_option_is_off(params: Seq<Param>, key: Seq<char>)
    requires
        forall|k: int| 0 <= k < params.len() ==> (#[trigger] params[k]).key@ != key,
    ensures
        !flag_spec(params, key),
        num_spec(params, key) is None,
        unit_spec(params, key) is None,
{
    lemma_no_place(params, key);
}

/// The pressure drives the alpha of a dab where the opacity or the flow is set to
/// follow it, whatever the other one says, and not where neither is.
pub proof fn law_pressure_on_opacity_or_flow_drives_the_dab(params: Seq<Param>, attr: Option<u64>, k: int)
    requires
        keyed(params),
        0 <= k < params.len(),
    ensures
        params[k].key@ == "PressureOpacity"@ && switched_on(params[k]) ==> dynamics_of(params, attr).opaque_by_pressure,
        params[k].key@ == "PressureFlow"@ && switched_on(params[k]) ==> dynamics_of(params, attr).opaque_by_pressure,
        params[k].key@ == "PressureSize"@ && switched_on(params[k]) ==> dynamics_of(params, attr).size_by_pressure,
        params[k].key@ == "PressureSize"@ && switched_off(params[k]) ==> !dynamics_of(params, attr).size_by_pressure,
        (forall|j: int|
            0 <= j < params.len() && ((#[trigger] params[j]).key@ == "PressureOpacity"@ || params[j].key@
                == "PressureFlow"@) ==> switched_off(params[j])) ==> !dynamics_of(params, attr).opaque_by_pressure,
{
    law_a_switch_is_read(params, k);
    if forall|j: int|
        0 <= j < params.len() && ((#[trigger] params[j]).key@ == "PressureOpacity"@ || params[j].key@ == "PressureFlow"@)
            ==> switched_off(params[j]) {
        lemma_place_is(params, "PressureOpacity"@);
        lemma_place_is(params, "PressureFlow"@);
        if let Some(i) = place(params, "PressureOpacity"@) {
            law_a_switch_is_read(params, i);
        }
        if let Some(i) = place(params, "PressureFlow"@) {
            law_a_switch_is_read(params, i);
        }
    }
}

/// A number between zero and one stays as it is, a greater one is one, and one
/// below zero is zero.
pub proof fn law_a_part_is_held_to_the_whole(n: u64)
    ensures
        n <= 0x3ff0_0000_0000_0000 ==> unit_of(n) == n,
        0x3ff0_0000_0000_0000 <= n <= 0x7ff0_0000_0000_0000 ==> unit_of(n) == 0x3ff0_0000_0000_0000,
        0x8000_0000_0000_0000 < n <= 0xfff0_0000_0000_0000 ==> unit_of(n) == 0,
{
}

/// A number that a preset states lands on the field that it is stated for: the
/// opacity on the stroke's alpha, the flow on the dab's, the spacing on the gap,
/// and the size on the diameter, where the brush's own size goes before the
/// plain one.
pub proof fn law_numbers_land_on_their_fields(params: Seq<Param>, attr: Option<u64>, k: int, n: u64)
    requires
        keyed(params),
        0 <= k < params.len(),
        params[k].number == Some(n),
    ensures
        params[k].key@ == "OpacityValue"@ ==> dynamics_of(params, attr).opaque == unit_of(n),
        params[k].key@ == "FlowValue"@ ==> dynamics_of(params, attr).flow == unit_of(n),
        params[k].key@ == "Spacing"@ && 0 < n < 0x7ff0_0000_0000_0000 ==> dynamics_of(params, attr).spacing == Some(n),
        params[k].key@ == "Spacing"@ && !(0 < n < 0x7ff0_0000_0000_0000) ==> dynamics_of(params, attr).spacing is None,
        params[k].key@ == "BrushSize"@ && 0x3fb9_9999_9999_999a <= n <= 0x40c3_8800_0000_0000 ==> dynamics_of(
            params,
            attr,
        ).diameter == n,
        params[k].key@ == "BrushSize"@ && !(0x3fb9_9999_9999_999a <= n <= 0x40c3_8800_0000_0000) ==> dynamics_of(
            params,
            attr,
        ).diameter == 0x4034_0000_0000_0000,
        params[k].key@ == "Size"@ && (forall|j: int|
            0 <= j < params.len() && (#[trigger] params[j]).key@ == "BrushSize"@ ==> params[j].number is None) ==> {
            &&& 0x3fb9_9999_9999_999a <= n <= 0x40c3_8800_0000_0000 ==> dynamics_of(params, attr).diameter == n
            &&& !(0x3fb9_9999_9999_999a <= n <= 0x40c3_8800_0000_0000) ==> dynamics_of(params, attr).diameter
                == 0x4034_0000_0000_0000
        },
{
    lemma_place(params, params[k].key@, k);
    lemma_place_is(params, "BrushSize"@);
}

/// Without a spacing of its own a preset takes the one that its tip states, and
/// without a tip none.
pub proof fn law_the_tip_states_the_spacing(params: Seq<Param>, attr: Option<u64>, k: int)
    requires
        forall|j: int| 0 <= j < params.len() ==> (#[trigger] params[j]).key@ != "Spacing"@,
    ensures
        keyed(params) && 0 <= k < params.len() && params[k].key@ == "brush_definition"@ ==> (match attr {
            Some(n) => dynamics_of(params, attr).spacing == (if 0 < n < 0x7ff0_0000_0000_0000 {
                Some(n)
            } else {
                None
            }),
            None => dynamics_of(params, attr).spacing is None,
        }),
        (forall|j: int| 0 <= j < params.len() ==> (#[trigger] params[j]).key@ != "brush_definition"@) ==> dynamics_of(
            params,
            attr,
        ).spacing is None,
{
    lemma_no_place(params, "Spacing"@);
    if keyed(params) && 0 <= k < params.len() && params[k].key@ == "brush_definition"@ {
        lemma_place(params, "brush_definition"@, k);
    }
    if forall|j: int| 0 <= j < params.len() ==> (#[trigger] params[j]).key@ != "brush_definition"@ {
        lemma_no_place(params, "brush_definition"@);
    }
}

/// A parameter that is read is not reported, and one that is off is not either.
pub proof fn law_what_carries_over_is_not_reported(p: Param)
    ensures
        p.key@ == "Spacing"@ || p.key@ == "BrushSize"@ || p.key@ == "Size"@ || p.key@ == "OpacityValue"@ || p.key@
            == "FlowValue"@ || p.key@ == "PressureSize"@ || p.key@ == "PressureOpacity"@ || p.key@ == "PressureFlow"@
            ==> note_of(p).len() == 0,
        p.key@ != "brush_definition"@ && (p.number == Some(0u64) || p.value@ == "false"@) ==> note_of(p).len() == 0,
        p.key@ != "brush_definition"@ && text::trim(p.value@).len() == 0 ==> note_of(p).len() == 0,
        note_of(p).len() <= 1,
{
    lemma_words();
}

/// An option that was on and is not read is reported by its name.
pub proof fn law_what_was_on_is_reported(p: Param)
    requires
        !is_read(p.key@),
        p.key@ != "brush_definition"@,
        text::trim(p.value@).len() > 0,
        !same_folded(text::trim(p.value@), "false"@),
        p.number matches Some(n) ==> n != 0 && n != 0x8000_0000_0000_0000,
    ensures
        note_of(p) == seq![p.key@],
{
    if let Some(n) = p.number {
        assert((n as int % 0x8000_0000_0000_0000int == 0) == (n == 0 || n == 0x8000_0000_0000_0000));
    }
}

/// The same preset with one parameter's number set to zero.
pub open spec fn zeroed(params: Seq<Param>, k: int) -> Seq<Param> {
    params.update(k, Param { number: Some(0), ..params[k] })
}

proof fn lemma_zeroed(params: Seq<Param>, k: int, key: Seq<char>)
    requires
        keyed(params),
        0 <= k < params.len(),
    ensures
        keyed(zeroed(params, k)),
        key == params[k].key@ ==> place(params, key) == Some(k) && place(zeroed(params, k), key) == Some(k),
        key != params[k].key@ ==> num_spec(zeroed(params, k), key) == num_spec(params, key) && flag_spec(
            zeroed(params, k),
            key,
        ) == flag_spec(params, key),
{
    let z = zeroed(params, k);
    assert forall|i: int, j: int| 0 <= i < j < z.len() implies (#[trigger] z[i]).key@ != (#[trigger] z[j]).key@ by {
        assert(params[i].key@ != params[j].key@);
    }
    if key == params[k].key@ {
        lemma_place(params, key, k);
        lemma_place(z, key, k);
    } else {
        lemma_place_is(params, key);
        lemma_place_is(z, key);
        if let Some(i) = place(params, key) {
            lemma_place(z, key, i);
        } else if let Some(i) = place(z, key) {
            lemma_place(params, key, i);
        }
    }
}

proof fn lemma_keys_differ()
    ensures
        "Spacing"@.len() == 7,
        "Size"@.len() == 4,
        "BrushSize"@.len() == 9 && "BrushSize"@[0] == 'B',
        "FlowValue"@.len() == 9 && "FlowValue"@[0] == 'F',
        "OpacityValue"@.len() == 12 && "OpacityValue"@[0] == 'O',
        "PressureSize"@.len() == 12 && "PressureSize"@[8] == 'S',
        "PressureFlow"@.len() == 12 && "PressureFlow"@[8] == 'F',
        "PressureSize"@[0] == 'P' && "PressureFlow"@[0] == 'P',
        "PressureOpacity"@.len() == 15,
{
    reveal_strlit("Spacing");
    reveal_strlit("Size");
    reveal_strlit("BrushSize");
    reveal_strlit("FlowValue");
    reveal_strlit("OpacityValue");
    reveal_strlit("PressureSize");
    reveal_strlit("PressureFlow");
    reveal_strlit("PressureOpacity");
}

/// No parameter that is read is read for nothing: set to a number that it can
/// take, and again to zero, it gives other dynamics or another report. Of the
/// two sizes the brush's own must not state a number for the plain one to count,
/// and of the two that drive a dab's alpha the other must be off.
pub proof fn law_every_parameter_counts(params: Seq<Param>, attr: Option<u64>, k: int, n: u64)
    requires
        keyed(params),
        0 <= k < params.len(),
        params[k].number == Some(n),
        ({
            let key = params[k].key@;
            ||| key == "Spacing"@ && 0 < n < INFINITE
            ||| key == "BrushSize"@ && LEAST_SIZE <= n <= MOST_SIZE
            ||| key == "Size"@ && LEAST_SIZE <= n <= MOST_SIZE && num_spec(params, "BrushSize"@) is None
            ||| (key == "OpacityValue"@ || key == "FlowValue"@) && 0 < n < SIGN
            ||| key == "PressureSize"@ && !zero(n)
            ||| key == "PressureOpacity"@ && !zero(n) && !flag_spec(params, "PressureFlow"@)
            ||| key == "PressureFlow"@ && !zero(n) && !flag_spec(params, "PressureOpacity"@)
        }),
    ensures
        dynamics_of(params, attr) != dynamics_of(zeroed(params, k), attr) || all_notes(params) != all_notes(
            zeroed(params, k),
        ),
{
    let z = zeroed(params, k);
    let key = params[k].key@;
    lemma_keys_differ();
    lemma_zeroed(params, k, key);
    lemma_zeroed(params, k, "BrushSize"@);
    lemma_zeroed(params, k, "PressureFlow"@);
    lemma_zeroed(params, k, "PressureOpacity"@);
    assert(z[k].number == Some(0u64));
    if key == "BrushSize"@ || key == "Size"@ {
        lemma_notes_zeroed(params, k);
        assert(size_spec(params) == Some(n));
        assert(size_spec(z) is None);
        assert(all_notes(z).len() == all_notes(params).len() + 1);
    }
}

proof fn lemma_notes_zeroed(params: Seq<Param>, k: int)
    requires
        0 <= k < params.len(),
        is_read(params[k].key@),
    ensures
        notes_of(zeroed(params, k)) == notes_of(params),
    decreases params.len(),
{
    let z = zeroed(params, k);
    if k == params.len() - 1 {
        assert(z.drop_last() =~= params.drop_last());
    } else {
        assert(z.drop_last() =~= zeroed(params.drop_last(), k));
        assert(params.drop_last()[k] == params[k]);
        lemma_notes_zeroed(params.drop_last(), k);
    }
}

/// A size that is not plain is reported, and it is reported first.
pub proof fn law_a_size_that_is_not_plain_is_reported(params: Seq<Param>)
    ensures
        size_spec(params) is None ==> all_notes(params).len() == notes_of(params).len() + 1 && all_notes(params)[0]
            == "brush size (no plainly numeric Size/BrushSize; the default is used)"@,
        size_spec(params) is Some ==> all_notes(params) == notes_of(params),
        size_spec(params) is None ==> dynamics_of(params, None).diameter == 0x4034_0000_0000_0000,
{
    assert(seq![] + notes_of(params) =~= notes_of(params));
}

/// Capitals do not count: a text agrees with itself, and two that agree with a
/// third agree.
pub proof fn law_capitals_do_not_count(s: Seq<char>, t: Seq<char>, u: Seq<char>, c: char)
    ensures
        same_folded(s, s),
        same_folded(s, t) == same_folded(t, s),
        same_folded(s, t) && same_folded(t, u) ==> same_folded(s, u),
        same_folded(s, t) ==> holds_folded(s, t),
        folded('A') == 'a' as int && folded('Z') == 'z' as int,
        'a' <= c <= 'z' ==> folded(c) == c as int,
        'A' <= c <= 'Z' ==> folded(c) - 'a' as int == c as int - 'A' as int,
{
    if same_folded(s, t) {
        assert(folded_at(s, 0, t));
        assert forall|k: int| 0 <= k < s.len() implies folded(#[trigger] s[k]) == folded(t[0 + k]) by {
            assert(folded(t[k]) == folded(s[0 + k]));
        }
        assert(folded_at(t, 0, s));
    }
    if same_folded(t, s) {
        assert forall|k: int| 0 <= k < t.len() implies folded(#[trigger] t[k]) == folded(s[0 + k]) by {
            assert(folded(s[k]) == folded(t[0 + k]));
        }
        assert(folded_at(s, 0, t));
    }
    if same_folded(s, t) && same_folded(t, u) {
        assert forall|k: int| 0 <= k < u.len() implies folded(#[trigger] u[k]) == folded(s[0 + k]) by {
            assert(folded(u[k]) == folded(t[0 + k]));
            assert(folded(t[k]) == folded(s[0 + k]));
        }
    }
}

/// An attribute at the start of a text gives what stands between its quotes,
/// without the white space around it.
pub proof fn law_an_attribute_is_what_is_quoted(key: Seq<char>, v: Seq<char>, rest: Seq<char>)
    requires
        forall|i: int| 0 <= i < v.len() ==> #[trigger] v[i] != '"',
    ensures
        attr_from(key + "=\""@ + v + seq!['"'] + rest, 0, key) == Some(text::trim(v)),
{
    reveal_strlit("=\"");
    let p = key + "=\""@;
    let s = p + v + seq!['"'] + rest;
    assert(s.subrange(0, p.len() as int) =~= p);
    let value = s.skip(p.len() as int);
    assert(value =~= v + seq!['"'] + rest);
    text::lemma_find_is(value, '"', v.len() as int);
    assert(value.take(v.len() as int) =~= v);
}

/// A name inside a longer one is not found there.
pub proof fn law_a_name_starts_a_word(s: Seq<char>, at: int, key: Seq<char>)
    requires
        0 < at < s.len(),
        text::is_digit(s[at - 1]) || 'a' <= s[at - 1] <= 'z' || 'A' <= s[at - 1] <= 'Z' || s[at - 1] == '_',
    ensures
        !attr_at(s, at, key),
{
}

/// A preset keeps its name, without the white space around it, or takes that of
/// its set. Only a Pixel Brush brings its dynamics; any other paint engine is a
/// plain brush of the stated size, and the one note on it names the engine.
pub proof fn law_a_preset_becomes_a_brush(preset: KppPreset, set_name: Seq<char>, attr: Option<u64>, r: KppPlan)
    requires
        planned(preset, set_name, attr, r),
    ensures
        text::trim(preset.name@).len() > 0 ==> r.name@ == text::trim(preset.name@),
        text::trim(preset.name@).len() == 0 ==> r.name@ == set_name,
        preset.paintop_id@ == "paintbrush"@ ==> r.brush is Dynamics,
        preset.paintop_id@ != "paintbrush"@ ==> r.brush is Plain,
        r.brush matches Planned::Dynamics(d) ==> {
            &&& d.opaque_by_pressure == (flag_spec(preset.params@, "PressureOpacity"@) || flag_spec(
                preset.params@,
                "PressureFlow"@,
            ))
            &&& d.size_by_pressure == flag_spec(preset.params@, "PressureSize"@)
            &&& text::strings(r.notes@) == all_notes(preset.params@)
        },
        r.brush matches Planned::Plain(size) ==> {
            &&& size_spec(preset.params@) is None ==> size == 0x4034_0000_0000_0000
            &&& size_spec(preset.params@) matches Some(n) ==> size == n
            &&& r.notes@.len() == 1
            &&& r.notes@[0]@ == "Krita paint engine \""@ + preset.paintop_id@ + "\" (imported as a plain brush)"@
        },
{
    if preset.paintop_id@ != "paintbrush"@ {
        assert(text::strings(r.notes@).len() == r.notes@.len());
        assert(text::strings(r.notes@)[0] == r.notes@[0]@);
    }
}

/// A brush that was written counts once, as translated where it brought its
/// dynamics, with its notes; one that was not counts for nothing.
pub proof fn law_what_was_written_counts(plan: KppPlan, written: bool, r: ImportSummary)
    requires
        summed(plan, written, r),
    ensures
        written ==> r.imported == 1 && r.notes == plan.notes@.len(),
        written ==> r.translated == (if plan.brush is Dynamics { 1int } else { 0int }),
        !written ==> r.imported == 0 && r.translated == 0 && r.notes == 0,
{
}

} // verus!
