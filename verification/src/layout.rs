//! The persisted palette layout: plain `key=value` lines in a file beside the
//! program. A key never changes once it was written; a key that is not known
//! is ignored; a value that cannot be read costs itself and nothing else.

use vstd::prelude::*;
use crate::layer_defaults::{body, line_of};
use crate::text;

verus! {

/// The keys of the file.
#[derive(Clone, Copy, PartialEq, Eq, Structural, Debug)]
pub enum Key {
    LeftW,
    RightW,
    DockLeft,
    DockRight,
    PropHidden,
    Win,
    GpuDabs,
    RecentFonts,
    MaterialFolders,
    MaterialUses,
    QuickPins,
    Workspaces,
    WorkspaceCurrent,
    TouchGestures,
    ColorHistory,
    AutoSwatch,
    ReaderPage,
    GuidesHidden,
    TestStrokeHidden,
    Gradients,
    FigurePresets,
    SubToolSizePx,
}

/// A key as it is written.
pub open spec fn key_text(k: Key) -> Seq<char> {
    match k {
        Key::LeftW => "left_w"@,
        Key::RightW => "right_w"@,
        Key::DockLeft => "dock_left"@,
        Key::DockRight => "dock_right"@,
        Key::PropHidden => "prop_hidden"@,
        Key::Win => "win"@,
        Key::GpuDabs => "gpu_dabs"@,
        Key::RecentFonts => "recent_fonts"@,
        Key::MaterialFolders => "material_folders"@,
        Key::MaterialUses => "material_uses"@,
        Key::QuickPins => "quick_pins"@,
        Key::Workspaces => "workspaces"@,
        Key::WorkspaceCurrent => "workspace_current"@,
        Key::TouchGestures => "touch_gestures"@,
        Key::ColorHistory => "color_history"@,
        Key::AutoSwatch => "auto_swatch"@,
        Key::ReaderPage => "reader_page"@,
        Key::GuidesHidden => "guides_hidden"@,
        Key::TestStrokeHidden => "test_stroke_hidden"@,
        Key::Gradients => "gradients"@,
        Key::FigurePresets => "figure_presets"@,
        Key::SubToolSizePx => "sub_tool_size_px"@,
    }
}

/// A key as it is written.
fn key_name(k: Key) -> (r: &'static str)
    ensures
        r@ == key_text(k),
{
    match k {
        Key::LeftW => "left_w",
        Key::RightW => "right_w",
        Key::DockLeft => "dock_left",
        Key::DockRight => "dock_right",
        Key::PropHidden => "prop_hidden",
        Key::Win => "win",
        Key::GpuDabs => "gpu_dabs",
        Key::RecentFonts => "recent_fonts",
        Key::MaterialFolders => "material_folders",
        Key::MaterialUses => "material_uses",
        Key::QuickPins => "quick_pins",
        Key::Workspaces => "workspaces",
        Key::WorkspaceCurrent => "workspace_current",
        Key::TouchGestures => "touch_gestures",
        Key::ColorHistory => "color_history",
        Key::AutoSwatch => "auto_swatch",
        Key::ReaderPage => "reader_page",
        Key::GuidesHidden => "guides_hidden",
        Key::TestStrokeHidden => "test_stroke_hidden",
        Key::Gradients => "gradients",
        Key::FigurePresets => "figure_presets",
        Key::SubToolSizePx => "sub_tool_size_px",
    }
}

/// The key that a text writes.
pub open spec fn key_of(s: Seq<char>) -> Option<Key> {
    if s == key_text(Key::LeftW) {
        Some(Key::LeftW)
    } else if s == key_text(Key::RightW) {
        Some(Key::RightW)
    } else if s == key_text(Key::DockLeft) {
        Some(Key::DockLeft)
    } else if s == key_text(Key::DockRight) {
        Some(Key::DockRight)
    } else if s == key_text(Key::PropHidden) {
        Some(Key::PropHidden)
    } else if s == key_text(Key::Win) {
        Some(Key::Win)
    } else if s == key_text(Key::GpuDabs) {
        Some(Key::GpuDabs)
    } else if s == key_text(Key::RecentFonts) {
        Some(Key::RecentFonts)
    } else if s == key_text(Key::MaterialFolders) {
        Some(Key::MaterialFolders)
    } else if s == key_text(Key::MaterialUses) {
        Some(Key::MaterialUses)
    } else if s == key_text(Key::QuickPins) {
        Some(Key::QuickPins)
    } else if s == key_text(Key::Workspaces) {
        Some(Key::Workspaces)
    } else if s == key_text(Key::WorkspaceCurrent) {
        Some(Key::WorkspaceCurrent)
    } else if s == key_text(Key::TouchGestures) {
        Some(Key::TouchGestures)
    } else if s == key_text(Key::ColorHistory) {
        Some(Key::ColorHistory)
    } else if s == key_text(Key::AutoSwatch) {
        Some(Key::AutoSwatch)
    } else if s == key_text(Key::ReaderPage) {
        Some(Key::ReaderPage)
    } else if s == key_text(Key::GuidesHidden) {
        Some(Key::GuidesHidden)
    } else if s == key_text(Key::TestStrokeHidden) {
        Some(Key::TestStrokeHidden)
    } else if s == key_text(Key::Gradients) {
        Some(Key::Gradients)
    } else if s == key_text(Key::FigurePresets) {
        Some(Key::FigurePresets)
    } else if s == key_text(Key::SubToolSizePx) {
        Some(Key::SubToolSizePx)
    } else {
        None
    }
}

/// The key that a text writes.
fn read_key(s: &str) -> (r: Option<Key>)
    ensures
        r == key_of(s@),
{
    if text::same(s, "left_w") {
        Some(Key::LeftW)
    } else if text::same(s, "right_w") {
        Some(Key::RightW)
    } else if text::same(s, "dock_left") {
        Some(Key::DockLeft)
    } else if text::same(s, "dock_right") {
        Some(Key::DockRight)
    } else if text::same(s, "prop_hidden") {
        Some(Key::PropHidden)
    } else if text::same(s, "win") {
        Some(Key::Win)
    } else if text::same(s, "gpu_dabs") {
        Some(Key::GpuDabs)
    } else if text::same(s, "recent_fonts") {
        Some(Key::RecentFonts)
    } else if text::same(s, "material_folders") {
        Some(Key::MaterialFolders)
    } else if text::same(s, "material_uses") {
        Some(Key::MaterialUses)
    } else if text::same(s, "quick_pins") {
        Some(Key::QuickPins)
    } else if text::same(s, "workspaces") {
        Some(Key::Workspaces)
    } else if text::same(s, "workspace_current") {
        Some(Key::WorkspaceCurrent)
    } else if text::same(s, "touch_gestures") {
        Some(Key::TouchGestures)
    } else if text::same(s, "color_history") {
        Some(Key::ColorHistory)
    } else if text::same(s, "auto_swatch") {
        Some(Key::AutoSwatch)
    } else if text::same(s, "reader_page") {
        Some(Key::ReaderPage)
    } else if text::same(s, "guides_hidden") {
        Some(Key::GuidesHidden)
    } else if text::same(s, "test_stroke_hidden") {
        Some(Key::TestStrokeHidden)
    } else if text::same(s, "gradients") {
        Some(Key::Gradients)
    } else if text::same(s, "figure_presets") {
        Some(Key::FigurePresets)
    } else if text::same(s, "sub_tool_size_px") {
        Some(Key::SubToolSizePx)
    } else {
        None
    }
}

proof fn lemma_key_of(k: Key)
    ensures
        key_of(key_text(k)) == Some(k),
        text::trim(key_text(k)) == key_text(k),
        !key_text(k).contains('='),
        !key_text(k).contains('\n'),
        key_text(k).len() > 0,
{
    reveal_strlit("left_w");
    reveal_strlit("right_w");
    reveal_strlit("dock_left");
    reveal_strlit("dock_right");
    reveal_strlit("prop_hidden");
    reveal_strlit("win");
    reveal_strlit("gpu_dabs");
    reveal_strlit("recent_fonts");
    reveal_strlit("material_folders");
    reveal_strlit("material_uses");
    reveal_strlit("quick_pins");
    reveal_strlit("workspaces");
    reveal_strlit("workspace_current");
    reveal_strlit("touch_gestures");
    reveal_strlit("color_history");
    reveal_strlit("auto_swatch");
    reveal_strlit("reader_page");
    reveal_strlit("guides_hidden");
    reveal_strlit("test_stroke_hidden");
    reveal_strlit("gradients");
    reveal_strlit("figure_presets");
    reveal_strlit("sub_tool_size_px");
    let s = key_text(k);
    assert forall|i: int| 0 <= i < s.len() implies s[i] != '=' && s[i] != '\n' && !text::is_white(s[i]) by {}
    assert(key_text(Key::DockLeft)[0] == 'd' && key_text(Key::Gradients)[0] == 'g');
    assert(key_text(Key::DockRight)[0] == 'd' && key_text(Key::QuickPins)[0] == 'q');
    assert(key_text(Key::DockRight)[0] == 'd' && key_text(Key::Workspaces)[0] == 'w');
    assert(key_text(Key::PropHidden)[0] == 'p' && key_text(Key::AutoSwatch)[0] == 'a');
    assert(key_text(Key::PropHidden)[0] == 'p' && key_text(Key::ReaderPage)[0] == 'r');
    assert(key_text(Key::MaterialFolders)[0] == 'm' && key_text(Key::SubToolSizePx)[0] == 's');
    assert(key_text(Key::MaterialUses)[0] == 'm' && key_text(Key::ColorHistory)[0] == 'c');
    assert(key_text(Key::MaterialUses)[0] == 'm' && key_text(Key::GuidesHidden)[0] == 'g');
    assert(key_text(Key::QuickPins)[0] == 'q' && key_text(Key::Workspaces)[0] == 'w');
    assert(key_text(Key::TouchGestures)[0] == 't' && key_text(Key::FigurePresets)[0] == 'f');
    assert(key_text(Key::ColorHistory)[0] == 'c' && key_text(Key::GuidesHidden)[0] == 'g');
    assert(key_text(Key::AutoSwatch)[0] == 'a' && key_text(Key::ReaderPage)[0] == 'r');
    assert(key_text(Key::LeftW).len() == 6);
    assert(key_text(Key::RightW).len() == 7);
    assert(key_text(Key::DockLeft).len() == 9);
    assert(key_text(Key::DockRight).len() == 10);
    assert(key_text(Key::PropHidden).len() == 11);
    assert(key_text(Key::Win).len() == 3);
    assert(key_text(Key::GpuDabs).len() == 8);
    assert(key_text(Key::RecentFonts).len() == 12);
    assert(key_text(Key::MaterialFolders).len() == 16);
    assert(key_text(Key::MaterialUses).len() == 13);
    assert(key_text(Key::QuickPins).len() == 10);
    assert(key_text(Key::Workspaces).len() == 10);
    assert(key_text(Key::WorkspaceCurrent).len() == 17);
    assert(key_text(Key::TouchGestures).len() == 14);
    assert(key_text(Key::ColorHistory).len() == 13);
    assert(key_text(Key::AutoSwatch).len() == 11);
    assert(key_text(Key::ReaderPage).len() == 11);
    assert(key_text(Key::GuidesHidden).len() == 13);
    assert(key_text(Key::TestStrokeHidden).len() == 18);
    assert(key_text(Key::Gradients).len() == 9);
    assert(key_text(Key::FigurePresets).len() == 14);
    assert(key_text(Key::SubToolSizePx).len() == 16);
}

/// What `serde_json` writes for a list of strings.
pub uninterp spec fn json_text(list: Seq<Seq<char>>) -> Seq<char>;

/// The list of strings that `serde_json` reads from a text, where it is one.
pub uninterp spec fn json_list(s: Seq<char>) -> Option<Seq<Seq<char>>>;

/// `serde_json::to_string` on a list of strings. It writes the array in
/// compact form on one line, control characters escaped, so that reading the
/// text gives the list back.
#[verifier::external_body]
fn list_to_json(list: &Vec<String>) -> (r: String)
    ensures
        r@ == json_text(text::strings(list@)),
        json_list(r@) == Some(text::strings(list@)),
        !r@.contains('\n'),
        r@.len() > 0 && r@.last() == ']',
{
    serde_json::to_string(list).unwrap_or_default()
}

/// `serde_json::from_str` for a list of strings: the list where the text is a
/// JSON array of strings and nothing more, else nothing.
#[verifier::external_body]
fn list_from_json(s: &str) -> (r: Option<Vec<String>>)
    ensures
        match r {
            Some(list) => json_list(s@) == Some(text::strings(list@)),
            None => json_list(s@) is None,
        },
{
    serde_json::from_str(s).ok()
}

/// The size of one sub tool's brush: the preset's key, and the diameter as the
/// bit pattern of a 32-bit float.
#[derive(Debug)]
pub struct SizeRow {
    pub key: String,
    pub px: u32,
}

/// The sizes that a line holds, and the range of the size control: the bit
/// patterns of two positive numbers.
#[derive(Debug)]
pub struct ReadSizes {
    pub rows: Vec<SizeRow>,
    pub min: u32,
    pub max: u32,
}

/// What a line's value reads as where that takes floating point.
#[derive(Debug)]
pub struct LineRead {
    /// The value as a number.
    pub width: Option<u32>,
    /// The value as a map of sizes.
    pub sizes: Option<ReadSizes>,
}

/// Is this a size that the control can mean? A finite number within its range.
pub open spec fn in_range(px: u32, min: u32, max: u32) -> bool {
    px < 0x7F80_0000 && min <= px <= max
}

/// The rows that the control can mean; the others are dropped rather than
/// brought into the range.
pub open spec fn kept(rows: Seq<SizeRow>, min: u32, max: u32) -> Seq<SizeRow>
    decreases rows.len(),
{
    if rows.len() == 0 {
        seq![]
    } else if in_range(rows.last().px, min, max) {
        kept(rows.drop_last(), min, max).push(rows.last())
    } else {
        kept(rows.drop_last(), min, max)
    }
}

proof fn lemma_kept(rows: Seq<SizeRow>, min: u32, max: u32)
    requires
        unique_sizes(rows),
    ensures
        unique_sizes(kept(rows, min, max)),
        forall|i: int|
            0 <= i < kept(rows, min, max).len() ==> exists|j: int|
                0 <= j < rows.len() && #[trigger] rows[j] == (#[trigger] kept(rows, min, max)[i]),
    decreases rows.len(),
{
    if rows.len() > 0 {
        let d = rows.drop_last();
        lemma_kept(d, min, max);
        let k = kept(d, min, max);
        assert forall|i: int| 0 <= i < k.len() implies exists|j: int|
            0 <= j < rows.len() - 1 && #[trigger] rows[j] == (#[trigger] k[i]) by {
            let j = choose|j: int| 0 <= j < d.len() && #[trigger] d[j] == k[i];
            assert(rows[j] == k[i]);
        }
        if in_range(rows.last().px, min, max) {
            let all = kept(rows, min, max);
            assert(all[k.len() as int] == rows[rows.len() - 1]);
            assert forall|i: int| 0 <= i < k.len() implies #[trigger] all[i] == k[i] by {
            }
        }
    }
}

/// Leaves out the rows that the control cannot mean.
fn keep(given: ReadSizes) -> (r: Vec<SizeRow>)
    requires
        unique_sizes(given.rows@),
    ensures
        r@ == kept(given.rows@, given.min, given.max),
        unique_sizes(r@),
{
    let min = given.min;
    let max = given.max;
    let ghost all = given.rows@;
    let mut rest = given.rows;
    let mut out: Vec<SizeRow> = Vec::new();
    let ghost mut i: int = 0;
    proof {
        assert(all.skip(0) =~= all);
        assert(all.take(0) =~= seq![]);
    }
    while rest.len() > 0
        invariant
            0 <= i <= all.len(),
            rest@ == all.skip(i),
            out@ == kept(all.take(i), min, max),
        decreases rest@.len(),
    {
        let row = rest.remove(0);
        proof {
            assert(row == all[i]);
            assert(rest@ =~= all.skip(i + 1));
            assert(all.take(i + 1).drop_last() =~= all.take(i));
            assert(all.take(i + 1).last() == row);
            i = i + 1;
        }
        if row.px < 0x7F80_0000 && min <= row.px && row.px <= max {
            out.push(row);
        }
    }
    proof {
        assert(all.take(i) =~= all);
        lemma_kept(all, min, max);
    }
    out
}

/// The floating-point parts of the layout in writing.
#[derive(Debug)]
pub struct Written {
    pub left_w: String,
    pub right_w: String,
    pub sizes: String,
}

/// The palette layout.
#[derive(Debug)]
pub struct UiLayout {
    pub left_w: u32,
    pub right_w: u32,
    pub dock_left: String,
    pub dock_right: String,
    pub prop_hidden: String,
    pub win: String,
    pub gpu_dabs: bool,
    /// The switch was set by hand, or the file carried it.
    pub gpu_dabs_explicit: bool,
    pub recent_fonts: Vec<String>,
    pub material_folders: Vec<String>,
    pub material_uses: String,
    pub quick_pins: String,
    pub workspaces: String,
    pub workspace_current: String,
    pub touch_gestures: u8,
    pub color_history: Vec<String>,
    pub auto_swatch: bool,
    pub reader_page: usize,
    pub guides_hidden: bool,
    pub test_stroke_hidden: bool,
    pub gradients: String,
    pub figure_presets: String,
    pub sub_tool_size_px: Vec<SizeRow>,
    pub dirty: bool,
}

/// The layout as a mathematical value.
#[verifier::ext_equal]
pub struct Ui {
    pub left_w: u32,
    pub right_w: u32,
    pub dock_left: Seq<char>,
    pub dock_right: Seq<char>,
    pub prop_hidden: Seq<char>,
    pub win: Seq<char>,
    pub gpu_dabs: bool,
    pub gpu_dabs_explicit: bool,
    pub recent_fonts: Seq<Seq<char>>,
    pub material_folders: Seq<Seq<char>>,
    pub material_uses: Seq<char>,
    pub quick_pins: Seq<char>,
    pub workspaces: Seq<char>,
    pub workspace_current: Seq<char>,
    pub touch_gestures: u8,
    pub color_history: Seq<Seq<char>>,
    pub auto_swatch: bool,
    pub reader_page: usize,
    pub guides_hidden: bool,
    pub test_stroke_hidden: bool,
    pub gradients: Seq<char>,
    pub figure_presets: Seq<char>,
    pub sizes: Map<Seq<char>, u32>,
}

/// The sizes by key, where a later row wins.
pub open spec fn sizes_map(rows: Seq<SizeRow>) -> Map<Seq<char>, u32>
    decreases rows.len(),
{
    if rows.len() == 0 {
        Map::empty()
    } else {
        sizes_map(rows.drop_last()).insert(rows.last().key@, rows.last().px)
    }
}

/// The readings of a line.
#[verifier::ext_equal]
pub struct Read {
    pub width: Option<u32>,
    pub sizes: Option<Map<Seq<char>, u32>>,
}

impl LineRead {
    pub open spec fn read(self) -> Read {
        Read {
            width: self.width,
            sizes: match self.sizes {
                Some(v) => Some(sizes_map(kept(v.rows@, v.min, v.max))),
                None => None,
            },
        }
    }
}

/// The readings of the lines.
pub open spec fn reads(v: Seq<LineRead>) -> Seq<Read> {
    Seq::new(v.len(), |i: int| v[i].read())
}

impl UiLayout {
    pub open spec fn ui(self) -> Ui {
        Ui {
            left_w: self.left_w,
            right_w: self.right_w,
            dock_left: self.dock_left@,
            dock_right: self.dock_right@,
            prop_hidden: self.prop_hidden@,
            win: self.win@,
            gpu_dabs: self.gpu_dabs,
            gpu_dabs_explicit: self.gpu_dabs_explicit,
            recent_fonts: text::strings(self.recent_fonts@),
            material_folders: text::strings(self.material_folders@),
            material_uses: self.material_uses@,
            quick_pins: self.quick_pins@,
            workspaces: self.workspaces@,
            workspace_current: self.workspace_current@,
            touch_gestures: self.touch_gestures,
            color_history: text::strings(self.color_history@),
            auto_swatch: self.auto_swatch,
            reader_page: self.reader_page,
            guides_hidden: self.guides_hidden,
            test_stroke_hidden: self.test_stroke_hidden,
            gradients: self.gradients@,
            figure_presets: self.figure_presets@,
            sizes: sizes_map(self.sub_tool_size_px@),
        }
    }

    /// No preset has two sizes.
    pub open spec fn wf(self) -> bool {
        unique_sizes(self.sub_tool_size_px@)
    }
}

/// No key occurs twice.
pub open spec fn unique_sizes(rows: Seq<SizeRow>) -> bool {
    forall|i: int, j: int|
        0 <= i < j < rows.len() ==> (#[trigger] rows[i]).key@ != (#[trigger] rows[j]).key@
}

/// The pieces of a comma-joined list, trimmed, the empty ones left out.
pub open spec fn list_items(pieces: Seq<Seq<char>>) -> Seq<Seq<char>>
    decreases pieces.len(),
{
    if pieces.len() == 0 {
        seq![]
    } else if text::trim(pieces.last()).len() == 0 {
        list_items(pieces.drop_last())
    } else {
        list_items(pieces.drop_last()).push(text::trim(pieces.last()))
    }
}

/// The layout with one key set to what its value reads as.
pub open spec fn set_key(u: Ui, k: Key, v: Seq<char>, r: Read) -> Ui {
    let t = text::trim(v);
    match k {
        Key::LeftW => Ui {
            left_w: match r.width {
                Some(w) => w,
                None => u.left_w,
            },
            ..u
        },
        Key::RightW => Ui {
            right_w: match r.width {
                Some(w) => w,
                None => u.right_w,
            },
            ..u
        },
        Key::DockLeft => Ui { dock_left: v, ..u },
        Key::DockRight => Ui { dock_right: v, ..u },
        Key::PropHidden => Ui { prop_hidden: t, ..u },
        Key::Win => Ui { win: t, ..u },
        Key::GpuDabs => Ui { gpu_dabs: t == "1"@, gpu_dabs_explicit: true, ..u },
        Key::RecentFonts => Ui {
            recent_fonts: match json_list(v) {
                Some(f) => f,
                None => u.recent_fonts,
            },
            ..u
        },
        Key::MaterialFolders => Ui {
            material_folders: match json_list(v) {
                Some(f) => f,
                None => u.material_folders,
            },
            ..u
        },
        Key::MaterialUses => Ui { material_uses: v, ..u },
        Key::QuickPins => Ui { quick_pins: t, ..u },
        Key::Workspaces => Ui { workspaces: t, ..u },
        Key::WorkspaceCurrent => Ui { workspace_current: t, ..u },
        Key::TouchGestures => Ui {
            touch_gestures: match text::parse_nat(t, 255) {
                Some(n) => n as u8,
                None => 0,
            },
            ..u
        },
        Key::ColorHistory => Ui { color_history: list_items(text::split(v, ',')), ..u },
        Key::AutoSwatch => Ui { auto_swatch: t == "1"@, ..u },
        Key::ReaderPage => Ui {
            reader_page: match text::parse_nat(t, usize::MAX as nat) {
                Some(n) => n as usize,
                None => u.reader_page,
            },
            ..u
        },
        Key::GuidesHidden => Ui { guides_hidden: t == "1"@, ..u },
        Key::TestStrokeHidden => Ui { test_stroke_hidden: t == "1"@, ..u },
        Key::Gradients => Ui { gradients: v, ..u },
        Key::FigurePresets => Ui { figure_presets: v, ..u },
        Key::SubToolSizePx => Ui {
            sizes: match r.sizes {
                Some(m) => m,
                None => u.sizes,
            },
            ..u
        },
    }
}

/// A key whose value must lie on one line.
pub open spec fn one_line(k: Key) -> bool {
    k is DockLeft || k is DockRight || k is RecentFonts || k is MaterialFolders || k is MaterialUses
        || k is Gradients || k is FigurePresets || k is SubToolSizePx
}

/// The layout after one line.
pub open spec fn apply_line(u: Ui, line: Seq<char>, r: Read) -> Ui {
    let i = text::find(line, '=');
    if i >= line.len() {
        u
    } else {
        match key_of(text::trim(line.take(i))) {
            Some(k) => if one_line(k) && line.contains('\n') {
                u
            } else {
                set_key(u, k, line.skip(i + 1), r)
            },
            None => u,
        }
    }
}

/// The layout after a number of lines, each with its readings.
pub open spec fn apply_lines(u: Ui, ls: Seq<Seq<char>>, rs: Seq<Read>) -> Ui
    decreases ls.len(),
{
    if ls.len() == 0 || ls.len() != rs.len() {
        u
    } else {
        apply_line(apply_lines(u, ls.drop_last(), rs.drop_last()), ls.last(), rs.last())
    }
}

/// A line of a key that is not known, or of none at all.
pub open spec fn foreign(line: Seq<char>) -> bool {
    let i = text::find(line, '=');
    i >= line.len() || key_of(text::trim(line.take(i))) is None
}

/// A line of a key that is not known costs nothing: the layout reads as it
/// would without the line.
pub proof fn law_foreign_lines_are_ignored(u: Ui, ls: Seq<Seq<char>>, rs: Seq<Read>, j: int)
    requires
        0 <= j < ls.len(),
        rs.len() == ls.len(),
        foreign(ls[j]),
    ensures
        apply_lines(u, ls, rs) == apply_lines(u, ls.remove(j), rs.remove(j)),
    decreases ls.len(),
{
    let cut = ls.remove(j);
    let reads = rs.remove(j);
    if j == ls.len() - 1 {
        assert(cut =~= ls.drop_last());
        assert(reads =~= rs.drop_last());
    } else {
        law_foreign_lines_are_ignored(u, ls.drop_last(), rs.drop_last(), j);
        assert(cut.drop_last() =~= ls.drop_last().remove(j));
        assert(reads.drop_last() =~= rs.drop_last().remove(j));
        assert(cut.last() == ls.last() && reads.last() == rs.last());
    }
}

/// Only a line of the GPU switch is a choice of it: no other line turns the
/// switch, or makes a choice that nobody made.
pub proof fn law_only_its_line_chooses_the_gpu(u: Ui, line: Seq<char>, r: Read)
    requires
        foreign(line) || key_of(text::trim(line.take(text::find(line, '=')))) != Some(Key::GpuDabs),
    ensures
        apply_line(u, line, r).gpu_dabs == u.gpu_dabs,
        apply_line(u, line, r).gpu_dabs_explicit == u.gpu_dabs_explicit,
{
}

/// The layout that nothing was saved of.
pub open spec fn fresh(left_w: u32, right_w: u32) -> Ui {
    Ui {
        left_w,
        right_w,
        dock_left: seq![],
        dock_right: seq![],
        prop_hidden: seq![],
        win: seq![],
        gpu_dabs: false,
        gpu_dabs_explicit: false,
        recent_fonts: seq![],
        material_folders: seq![],
        material_uses: seq![],
        quick_pins: seq![],
        workspaces: seq![],
        workspace_current: seq![],
        touch_gestures: 0,
        color_history: seq![],
        auto_swatch: false,
        reader_page: 0,
        guides_hidden: false,
        test_stroke_hidden: false,
        gradients: seq![],
        figure_presets: seq![],
        sizes: Map::empty(),
    }
}

/// A switch as it is written.
pub open spec fn flag(b: bool) -> Seq<char> {
    if b {
        "1"@
    } else {
        "0"@
    }
}

/// The lines of the file as pairs. The GPU switch is written only where it was
/// chosen: its absence is what says that nobody chose.
pub open spec fn pairs(u: Ui, left: Seq<char>, right: Seq<char>, sizes: Seq<char>) -> Seq<(Seq<char>, Seq<char>)> {
    seq![
        (key_text(Key::LeftW), left),
        (key_text(Key::RightW), right),
        (key_text(Key::DockLeft), u.dock_left),
        (key_text(Key::DockRight), u.dock_right),
        (key_text(Key::PropHidden), u.prop_hidden),
        (key_text(Key::Win), u.win),
    ] + (if u.gpu_dabs_explicit {
        seq![(key_text(Key::GpuDabs), flag(u.gpu_dabs))]
    } else {
        seq![]
    }) + seq![
        (key_text(Key::RecentFonts), json_text(u.recent_fonts)),
        (key_text(Key::MaterialFolders), json_text(u.material_folders)),
        (key_text(Key::MaterialUses), u.material_uses),
        (key_text(Key::QuickPins), text::without(u.quick_pins, '\n')),
        (key_text(Key::Workspaces), text::without(u.workspaces, '\n')),
        (key_text(Key::WorkspaceCurrent), text::without(u.workspace_current, '\n')),
        (key_text(Key::TouchGestures), text::dec(u.touch_gestures as nat)),
        (key_text(Key::ColorHistory), text::join(u.color_history, ","@)),
        (key_text(Key::AutoSwatch), flag(u.auto_swatch)),
        (key_text(Key::ReaderPage), text::dec(u.reader_page as nat)),
        (key_text(Key::GuidesHidden), flag(u.guides_hidden)),
        (key_text(Key::TestStrokeHidden), flag(u.test_stroke_hidden)),
        (key_text(Key::Gradients), text::without(u.gradients, '\n')),
        (key_text(Key::FigurePresets), text::without(u.figure_presets, '\n')),
        (key_text(Key::SubToolSizePx), sizes),
    ]
}

proof fn lemma_strings_empty()
    ensures
        text::strings(Seq::<String>::empty()) == Seq::<Seq<char>>::empty(),
{
    assert(text::strings(Seq::<String>::empty()) =~= Seq::<Seq<char>>::empty());
}

fn push_line(out: &mut String, k: Key, v: &str, Ghost(e): Ghost<Seq<(Seq<char>, Seq<char>)>>)
    requires
        old(out)@ == body(e),
    ensures
        final(out)@ == body(e.push((key_text(k), v@))),
{
    out.append(key_name(k));
    out.push('=');
    out.append(v);
    out.push('\n');
    proof {
        let f = e.push((key_text(k), v@));
        assert(f.drop_last() =~= e);
        assert(out@ =~= body(e) + key_text(k) + seq!['='] + v@ + seq!['\n']);
    }
}

fn flag_text(b: bool) -> (r: &'static str)
    ensures
        r@ == flag(b),
{
    if b {
        "1"
    } else {
        "0"
    }
}

fn one_line_of(s: &String) -> (r: String)
    ensures
        r@ == text::without(s@, '\n'),
{
    text::from_chars(&text::without_char(&text::to_chars(s.as_str()), '\n'))
}

fn number(n: u64) -> (r: String)
    ensures
        r@ == text::dec(n as nat),
{
    let mut s = String::new();
    text::push_dec(&mut s, n);
    assert(s@ =~= text::dec(n as nat));
    s
}

/// The trimmed pieces between the commas, the empty ones left out.
fn read_list(v: &Vec<char>) -> (r: Vec<String>)
    ensures
        text::strings(r@) == list_items(text::split(v@, ',')),
{
    let pieces = text::split_chars(v, ',');
    let ghost all = text::split(v@, ',');
    let mut r: Vec<String> = Vec::new();
    let mut i: usize = 0;
    proof {
        lemma_strings_empty();
        assert(all.take(0) =~= seq![]);
    }
    while i < pieces.len()
        invariant
            i <= pieces.len(),
            text::views(pieces@) == all,
            text::strings(r@) == list_items(all.take(i as int)),
        decreases pieces.len() - i,
    {
        let ghost was = r@;
        proof {
            assert(all.take(i as int + 1).drop_last() =~= all.take(i as int));
            assert(all[i as int] == pieces@[i as int]@);
        }
        let t = text::trim_chars(&pieces[i]);
        if t.len() > 0 {
            r.push(text::from_chars(&t));
            proof {
                assert(text::strings(r@) =~= text::strings(was).push(t@));
            }
        }
        i = i + 1;
    }
    assert(all.take(all.len() as int) =~= all);
    r
}

impl UiLayout {
    /// The layout that nothing was saved of, with the columns' own widths.
    pub fn new(left_w: u32, right_w: u32) -> (r: UiLayout)
        ensures
            r.ui() == fresh(left_w, right_w),
            r.wf(),
            !r.dirty,
    {
        proof {
            lemma_strings_empty();
        }
        let r = UiLayout {
            left_w,
            right_w,
            dock_left: String::new(),
            dock_right: String::new(),
            prop_hidden: String::new(),
            win: String::new(),
            gpu_dabs: false,
            gpu_dabs_explicit: false,
            recent_fonts: Vec::new(),
            material_folders: Vec::new(),
            material_uses: String::new(),
            quick_pins: String::new(),
            workspaces: String::new(),
            workspace_current: String::new(),
            touch_gestures: 0,
            color_history: Vec::new(),
            auto_swatch: false,
            reader_page: 0,
            guides_hidden: false,
            test_stroke_hidden: false,
            gradients: String::new(),
            figure_presets: String::new(),
            sub_tool_size_px: Vec::new(),
            dirty: false,
        };
        assert(r.ui() =~= fresh(left_w, right_w));
        r
    }

    #[verifier::rlimit(60)]
    fn write_body(&self, w: &Written) -> (r: String)
        ensures
            r@ == body(pairs(self.ui(), w.left_w@, w.right_w@, w.sizes@)),
            json_ok(self.ui().recent_fonts),
            json_ok(self.ui().material_folders),
    {
        let mut out = String::new();
        let ghost mut e: Seq<(Seq<char>, Seq<char>)> = seq![];
        let fonts = list_to_json(&self.recent_fonts);
        let folders = list_to_json(&self.material_folders);
        let pins = one_line_of(&self.quick_pins);
        let spaces = one_line_of(&self.workspaces);
        let space = one_line_of(&self.workspace_current);
        let touch = number(self.touch_gestures as u64);
        let colours = text::join_strings(&self.color_history, ",");
        let page = number(self.reader_page as u64);
        let gradients = one_line_of(&self.gradients);
        let presets = one_line_of(&self.figure_presets);
        push_line(&mut out, Key::LeftW, w.left_w.as_str(), Ghost(e));
        proof {
            e = e.push((key_text(Key::LeftW), w.left_w@));
        }
        push_line(&mut out, Key::RightW, w.right_w.as_str(), Ghost(e));
        proof {
            e = e.push((key_text(Key::RightW), w.right_w@));
        }
        push_line(&mut out, Key::DockLeft, self.dock_left.as_str(), Ghost(e));
        proof {
            e = e.push((key_text(Key::DockLeft), self.dock_left@));
        }
        push_line(&mut out, Key::DockRight, self.dock_right.as_str(), Ghost(e));
        proof {
            e = e.push((key_text(Key::DockRight), self.dock_right@));
        }
        push_line(&mut out, Key::PropHidden, self.prop_hidden.as_str(), Ghost(e));
        proof {
            e = e.push((key_text(Key::PropHidden), self.prop_hidden@));
        }
        push_line(&mut out, Key::Win, self.win.as_str(), Ghost(e));
        proof {
            e = e.push((key_text(Key::Win), self.win@));
        }
        if self.gpu_dabs_explicit {
            push_line(&mut out, Key::GpuDabs, flag_text(self.gpu_dabs), Ghost(e));
            proof {
                e = e.push((key_text(Key::GpuDabs), flag(self.gpu_dabs)));
            }
        }
        push_line(&mut out, Key::RecentFonts, fonts.as_str(), Ghost(e));
        proof {
            e = e.push((key_text(Key::RecentFonts), fonts@));
        }
        push_line(&mut out, Key::MaterialFolders, folders.as_str(), Ghost(e));
        proof {
            e = e.push((key_text(Key::MaterialFolders), folders@));
        }
        push_line(&mut out, Key::MaterialUses, self.material_uses.as_str(), Ghost(e));
        proof {
            e = e.push((key_text(Key::MaterialUses), self.material_uses@));
        }
        push_line(&mut out, Key::QuickPins, pins.as_str(), Ghost(e));
        proof {
            e = e.push((key_text(Key::QuickPins), pins@));
        }
        push_line(&mut out, Key::Workspaces, spaces.as_str(), Ghost(e));
        proof {
            e = e.push((key_text(Key::Workspaces), spaces@));
        }
        push_line(&mut out, Key::WorkspaceCurrent, space.as_str(), Ghost(e));
        proof {
            e = e.push((key_text(Key::WorkspaceCurrent), space@));
        }
        push_line(&mut out, Key::TouchGestures, touch.as_str(), Ghost(e));
        proof {
            e = e.push((key_text(Key::TouchGestures), touch@));
        }
        push_line(&mut out, Key::ColorHistory, colours.as_str(), Ghost(e));
        proof {
            e = e.push((key_text(Key::ColorHistory), colours@));
        }
        push_line(&mut out, Key::AutoSwatch, flag_text(self.auto_swatch), Ghost(e));
        proof {
            e = e.push((key_text(Key::AutoSwatch), flag(self.auto_swatch)));
        }
        push_line(&mut out, Key::ReaderPage, page.as_str(), Ghost(e));
        proof {
            e = e.push((key_text(Key::ReaderPage), page@));
        }
        push_line(&mut out, Key::GuidesHidden, flag_text(self.guides_hidden), Ghost(e));
        proof {
            e = e.push((key_text(Key::GuidesHidden), flag(self.guides_hidden)));
        }
        push_line(&mut out, Key::TestStrokeHidden, flag_text(self.test_stroke_hidden), Ghost(e));
        proof {
            e = e.push((key_text(Key::TestStrokeHidden), flag(self.test_stroke_hidden)));
        }
        push_line(&mut out, Key::Gradients, gradients.as_str(), Ghost(e));
        proof {
            e = e.push((key_text(Key::Gradients), gradients@));
        }
        push_line(&mut out, Key::FigurePresets, presets.as_str(), Ghost(e));
        proof {
            e = e.push((key_text(Key::FigurePresets), presets@));
        }
        push_line(&mut out, Key::SubToolSizePx, w.sizes.as_str(), Ghost(e));
        proof {
            e = e.push((key_text(Key::SubToolSizePx), w.sizes@));
        }
        assert(e =~= pairs(self.ui(), w.left_w@, w.right_w@, w.sizes@));
        out
    }

    /// The file's whole content.
    ///
    /// Where no text breaks its line, every key has one line, and reading the
    /// content gives each text back as a line can carry it; a GPU switch that
    /// nobody chose is not turned into a choice. The figure shelf has one line
    /// wherever no other text hides one.
    pub fn to_body(&self, w: &Written) -> (r: String)
        ensures
            r@ == body(pairs(self.ui(), w.left_w@, w.right_w@, w.sizes@)),
            unbroken_ui(self.ui()) && unbroken(w.left_w@) && unbroken(w.right_w@) && unbroken(w.sizes@) ==> {
                &&& forall|rs: Seq<Read>|
                    #[trigger] line_for_line(rs, self.ui()) ==> apply_lines(fresh(LEFT_W, RIGHT_W), text::lines(r@), rs)
                        == read_back(self.ui(), rs, LEFT_W, RIGHT_W)
                &&& text::lines(r@).len() == line_count(self.ui())
                &&& forall|k: Key, i: int|
                    0 <= i < text::lines(r@).len() ==> (#[trigger] starts_line(text::lines(r@)[i], k) <==> i == slot(self.ui(), k))
            },
            unbroken(w.left_w@) && unbroken(w.right_w@) && unbroken(w.sizes@) && !hidden_in(self.ui(), Key::FigurePresets) ==> {
                forall|i: int|
                    0 <= i < text::lines(r@).len() ==> (#[trigger] starts_line(text::lines(r@)[i], Key::FigurePresets) <==> i
                        == text::lines(r@).len() - 2)
            },
    {
        let out = self.write_body(w);
        proof {
            let u = self.ui();
            if unbroken_ui(u) && unbroken(w.left_w@) && unbroken(w.right_w@) && unbroken(w.sizes@) {
                assert forall|rs: Seq<Read>| #[trigger] line_for_line(rs, u) implies apply_lines(
                    fresh(LEFT_W, RIGHT_W),
                    text::lines(out@),
                    rs,
                ) == read_back(u, rs, LEFT_W, RIGHT_W) by {
                    lemma_body_read_back(u, w.left_w@, w.right_w@, w.sizes@, fresh(LEFT_W, RIGHT_W), rs);
                }
                lemma_body_lines(u, w.left_w@, w.right_w@, w.sizes@);
                let e = chomped(pairs(u, w.left_w@, w.right_w@, w.sizes@));
                assert forall|k: Key, i: int| 0 <= i < e.len() implies (#[trigger] starts_line(lines_of_pairs(e)[i], k) <==> i
                    == slot(u, k)) by {
                    lemma_starts_line(u, w.left_w@, w.right_w@, w.sizes@, k, i);
                }
            }
            if unbroken(w.left_w@) && unbroken(w.right_w@) && unbroken(w.sizes@) && !hidden_in(u, Key::FigurePresets) {
                lemma_nothing_sheltered(u, w.left_w@, w.right_w@, w.sizes@, Key::FigurePresets);
                law_the_figure_shelf_comes_back(u, w.left_w@, w.right_w@, w.sizes@, reads_for(text::lines(out@).len()));
            }
        }
        out
    }

    /// Takes one `key=value` line; a key that is not known changes nothing.
    pub fn apply_kv(&mut self, line: &str, read: LineRead)
        requires
            old(self).wf(),
            match read.sizes {
                Some(v) => unique_sizes(v.rows@),
                None => true,
            },
        ensures
            final(self).ui() == apply_line(old(self).ui(), line@, read.read()),
            final(self).wf(),
            final(self).dirty == old(self).dirty,
    {
        let l = text::to_chars(line);
        let i: usize = text::find_from(&l, 0, '=');
        assert(l@.skip(0) =~= l@);
        if i >= l.len() {
            return;
        }
        let name = text::from_chars(&text::trim_chars(&text::cut(&l, 0, i)));
        assert(l@.subrange(0, i as int) =~= l@.take(i as int));
        let k = match read_key(name.as_str()) {
            Some(k) => k,
            None => {
                return;
            },
        };
        let single = text::find_from(&l, 0, '\n') >= l.len();
        proof {
            text::lemma_holds(l@, '\n');
        }
        if is_one_line(k) && !single {
            return;
        }
        let v = text::cut(&l, i + 1, l.len());
        assert(l@.subrange(i as int + 1, l@.len() as int) =~= l@.skip(i as int + 1));
        self.set(k, v, read);
    }

    fn set(&mut self, k: Key, v: Vec<char>, read: LineRead)
        requires
            old(self).wf(),
            match read.sizes {
                Some(v) => unique_sizes(v.rows@),
                None => true,
            },
        ensures
            final(self).ui() == set_key(old(self).ui(), k, v@, read.read()),
            final(self).wf(),
            final(self).dirty == old(self).dirty,
    {
        let t = text::trim_chars(&v);
        match k {
            Key::LeftW => {
                if let Some(w) = read.width {
                    self.left_w = w;
                }
            },
            Key::RightW => {
                if let Some(w) = read.width {
                    self.right_w = w;
                }
            },
            Key::DockLeft => {
                self.dock_left = text::from_chars(&v);
            },
            Key::DockRight => {
                self.dock_right = text::from_chars(&v);
            },
            Key::PropHidden => {
                self.prop_hidden = text::from_chars(&t);
            },
            Key::Win => {
                self.win = text::from_chars(&t);
            },
            Key::GpuDabs => {
                self.gpu_dabs = is_on(&t);
                self.gpu_dabs_explicit = true;
            },
            Key::RecentFonts => {
                if let Some(f) = list_from_json(text::from_chars(&v).as_str()) {
                    self.recent_fonts = f;
                }
            },
            Key::MaterialFolders => {
                if let Some(f) = list_from_json(text::from_chars(&v).as_str()) {
                    self.material_folders = f;
                }
            },
            Key::MaterialUses => {
                self.material_uses = text::from_chars(&v);
            },
            Key::QuickPins => {
                self.quick_pins = text::from_chars(&t);
            },
            Key::Workspaces => {
                self.workspaces = text::from_chars(&t);
            },
            Key::WorkspaceCurrent => {
                self.workspace_current = text::from_chars(&t);
            },
            Key::TouchGestures => {
                self.touch_gestures = match text::read_nat(&t, 255) {
                    Some(n) => n as u8,
                    None => 0,
                };
            },
            Key::ColorHistory => {
                self.color_history = read_list(&v);
            },
            Key::AutoSwatch => {
                self.auto_swatch = is_on(&t);
            },
            Key::ReaderPage => {
                if let Some(n) = text::read_nat(&t, usize::MAX as u64) {
                    self.reader_page = n as usize;
                }
            },
            Key::GuidesHidden => {
                self.guides_hidden = is_on(&t);
            },
            Key::TestStrokeHidden => {
                self.test_stroke_hidden = is_on(&t);
            },
            Key::Gradients => {
                self.gradients = text::from_chars(&v);
            },
            Key::FigurePresets => {
                self.figure_presets = text::from_chars(&v);
            },
            Key::SubToolSizePx => {
                if let Some(m) = read.sizes {
                    self.sub_tool_size_px = keep(m);
                }
            },
        }
        assert(self.ui() =~= set_key(old(self).ui(), k, v@, read.read()));
    }
}

fn is_one_line(k: Key) -> (r: bool)
    ensures
        r == one_line(k),
{
    matches!(k, Key::DockLeft | Key::DockRight | Key::RecentFonts | Key::MaterialFolders | Key::MaterialUses
        | Key::Gradients | Key::FigurePresets | Key::SubToolSizePx)
}

fn is_on(t: &Vec<char>) -> (r: bool)
    ensures
        r == (t@ == "1"@),
{
    text::same_chars(t, &text::to_chars("1"))
}

pub(crate) fn same_list(a: &[String], b: &[String]) -> (r: bool)
    ensures
        r == (text::strings(a@) == text::strings(b@)),
{
    if a.len() != b.len() {
        assert(text::strings(a@).len() != text::strings(b@).len());
        return false;
    }
    let mut i: usize = 0;
    while i < a.len()
        invariant
            i <= a.len(),
            a.len() == b.len(),
            forall|j: int| 0 <= j < i ==> (#[trigger] a@[j])@ == b@[j]@,
        decreases a.len() - i,
    {
        if !text::same(a[i].as_str(), b[i].as_str()) {
            assert(text::strings(a@)[i as int] != text::strings(b@)[i as int]);
            return false;
        }
        i = i + 1;
    }
    assert(text::strings(a@) =~= text::strings(b@));
    true
}

pub(crate) fn copy_list(a: &[String]) -> (r: Vec<String>)
    ensures
        text::strings(r@) == text::strings(a@),
{
    let mut r: Vec<String> = Vec::new();
    let mut i: usize = 0;
    while i < a.len()
        invariant
            i <= a.len(),
            r@.len() == i,
            forall|j: int| 0 <= j < i ==> (#[trigger] r@[j])@ == a@[j]@,
        decreases a.len() - i,
    {
        r.push(a[i].clone());
        i = i + 1;
    }
    assert(text::strings(r@) =~= text::strings(a@));
    r
}

/// Bit pattern of the left column's own width, 186.
pub const LEFT_W: u32 = 0x433A_0000;

/// Bit pattern of the right column's own width, 208.
pub const RIGHT_W: u32 = 0x4350_0000;

/// The narrowest left column: 150 pixels.
pub const LEFT_MIN: u32 = 0x4316_0000;

/// The narrowest right column: 160 pixels.
pub const RIGHT_MIN: u32 = 0x4320_0000;

/// The widest column: 420 pixels.
pub const WIDTH_MAX: u32 = 0x43D2_0000;

/// A width held between two others; what is not a number stays as it is.
pub open spec fn held(w: u32, lo: u32, hi: u32) -> u32 {
    if w % 0x8000_0000 > 0x7F80_0000 {
        w
    } else if w >= 0x8000_0000 || w < lo {
        lo
    } else if w > hi {
        hi
    } else {
        w
    }
}

fn hold(w: u32, lo: u32, hi: u32) -> (r: u32)
    ensures
        r == held(w, lo, hi),
{
    if w % 0x8000_0000 > 0x7F80_0000 {
        w
    } else if w >= 0x8000_0000 || w < lo {
        lo
    } else if w > hi {
        hi
    } else {
        w
    }
}

/// A layout whose columns have widths that can be used.
pub open spec fn usable(u: Ui) -> Ui {
    Ui {
        left_w: held(u.left_w, LEFT_MIN, WIDTH_MAX),
        right_w: held(u.right_w, RIGHT_MIN, WIDTH_MAX),
        ..u
    }
}

/// Widths that were held once are held for good, and widths within their range
/// are left alone: a layout that was loaded is loaded again as it is.
pub proof fn law_usable_widths_stay(u: Ui)
    ensures
        usable(usable(u)) == usable(u),
        !crate::floats::nan(u.left_w) ==> LEFT_MIN <= usable(u).left_w <= WIDTH_MAX,
        !crate::floats::nan(u.right_w) ==> RIGHT_MIN <= usable(u).right_w <= WIDTH_MAX,
        LEFT_MIN <= u.left_w <= WIDTH_MAX && RIGHT_MIN <= u.right_w <= WIDTH_MAX ==> usable(u) == u,
{
}

impl Default for UiLayout {
    /// The layout that nothing was saved of.
    fn default() -> (r: UiLayout)
        ensures
            r.ui() == fresh(LEFT_W, RIGHT_W),
            r.wf(),
            !r.dirty,
    {
        UiLayout::new(LEFT_W, RIGHT_W)
    }
}

/// What a save does: nothing where nothing changed, else the file's content.
#[derive(Debug)]
pub enum SaveLayout {
    Nothing,
    Write(String),
}

proof fn lemma_sizes(rows: Seq<SizeRow>)
    requires
        unique_sizes(rows),
    ensures
        forall|k: Seq<char>| #[trigger]
            sizes_map(rows).contains_key(k) <==> exists|i: int| 0 <= i < rows.len() && (#[trigger] rows[i]).key@ == k,
        forall|i: int| 0 <= i < rows.len() ==> sizes_map(rows)[(#[trigger] rows[i]).key@] == rows[i].px,
    decreases rows.len(),
{
    if rows.len() > 0 {
        let d = rows.drop_last();
        assert forall|i: int, j: int| 0 <= i < j < d.len() implies (#[trigger] d[i]).key@ != (
        #[trigger] d[j]).key@ by {
            assert(d[i] == rows[i] && d[j] == rows[j]);
        }
        lemma_sizes(d);
        assert forall|k: Seq<char>| #[trigger] sizes_map(rows).contains_key(k) <==> exists|i: int|
            0 <= i < rows.len() && (#[trigger] rows[i]).key@ == k by {
            if sizes_map(rows).contains_key(k) {
                if k == rows.last().key@ {
                    assert(rows[rows.len() - 1].key@ == k);
                } else {
                    assert(sizes_map(d).contains_key(k));
                    let i = choose|i: int| 0 <= i < d.len() && (#[trigger] d[i]).key@ == k;
                    assert(rows[i].key@ == k);
                }
            }
            if exists|i: int| 0 <= i < rows.len() && (#[trigger] rows[i]).key@ == k {
                let i = choose|i: int| 0 <= i < rows.len() && (#[trigger] rows[i]).key@ == k;
                if i < d.len() {
                    assert(d[i].key@ == k);
                    assert(sizes_map(d).contains_key(k));
                }
            }
        }
        assert forall|i: int| 0 <= i < rows.len() implies sizes_map(rows)[(#[trigger] rows[i]).key@]
            == rows[i].px by {
            if i < d.len() {
                assert(d[i] == rows[i]);
                assert(rows[i].key@ != rows[rows.len() - 1].key@);
            }
        }
    }
}

impl UiLayout {
    /// The column widths; `moved` says that either moved by more than half a
    /// pixel, and only then they are taken.
    pub fn note_widths(&mut self, left: u32, right: u32, moved: bool)
        requires
            old(self).wf(),
        ensures
            final(self).ui() == (if moved {
                Ui { left_w: left, right_w: right, ..old(self).ui() }
            } else {
                old(self).ui()
            }),
            final(self).dirty == (old(self).dirty || moved),
            final(self).wf(),
    {
        if moved {
            self.left_w = left;
            self.right_w = right;
            self.dirty = true;
        }
    }

    /// The serialized dock columns.
    pub fn note_docks(&mut self, left: &str, right: &str)
        requires
            old(self).wf(),
        ensures
            final(self).ui() == (Ui { dock_left: left@, dock_right: right@, ..old(self).ui() }),
            final(self).dirty == (old(self).dirty || old(self).dock_left@ != left@ || old(self).dock_right@ != right@),
            final(self).wf(),
    {
        if !text::same(self.dock_left.as_str(), left) || !text::same(self.dock_right.as_str(), right) {
            self.dock_left = text::own(left);
            self.dock_right = text::own(right);
            self.dirty = true;
        }
        assert(self.ui() =~= (Ui { dock_left: left@, dock_right: right@, ..old(self).ui() }));
    }

    /// The hidden property sections.
    pub fn note_prop_hidden(&mut self, hidden: &str)
        requires
            old(self).wf(),
        ensures
            final(self).ui() == (Ui { prop_hidden: hidden@, ..old(self).ui() }),
            final(self).dirty == (old(self).dirty || old(self).prop_hidden@ != hidden@),
            final(self).wf(),
    {
        if !text::same(self.prop_hidden.as_str(), hidden) {
            self.prop_hidden = text::own(hidden);
            self.dirty = true;
        }
        assert(self.ui() =~= (Ui { prop_hidden: hidden@, ..old(self).ui() }));
    }

    /// The window geometry.
    pub fn note_win(&mut self, line: &str)
        requires
            old(self).wf(),
        ensures
            final(self).ui() == (Ui { win: line@, ..old(self).ui() }),
            final(self).dirty == (old(self).dirty || old(self).win@ != line@),
            final(self).wf(),
    {
        if !text::same(self.win.as_str(), line) {
            self.win = text::own(line);
            self.dirty = true;
        }
        assert(self.ui() =~= (Ui { win: line@, ..old(self).ui() }));
    }

    /// The GPU switch. To set it at all is to choose, even where the value
    /// stays: the key is written from here on.
    pub fn note_gpu_dabs(&mut self, on: bool)
        requires
            old(self).wf(),
        ensures
            final(self).ui() == (Ui { gpu_dabs: on, gpu_dabs_explicit: true, ..old(self).ui() }),
            final(self).dirty == (old(self).dirty || old(self).gpu_dabs != on || !old(
                self,
            ).gpu_dabs_explicit),
            final(self).wf(),
    {
        if self.gpu_dabs != on || !self.gpu_dabs_explicit {
            self.gpu_dabs = on;
            self.gpu_dabs_explicit = true;
            self.dirty = true;
        }
    }

    /// The recently used fonts.
    pub fn note_recent_fonts(&mut self, fonts: &[String])
        requires
            old(self).wf(),
        ensures
            final(self).ui() == (Ui { recent_fonts: text::strings(fonts@), ..old(self).ui() }),
            final(self).dirty == (old(self).dirty || text::strings(old(self).recent_fonts@)
                != text::strings(fonts@)),
            final(self).wf(),
    {
        if !same_list(self.recent_fonts.as_slice(), fonts) {
            self.recent_fonts = copy_list(fonts);
            self.dirty = true;
        }
    }

    /// The workspaces and the name of the current one.
    pub fn note_workspaces(&mut self, ws: &str, current: &str)
        requires
            old(self).wf(),
        ensures
            final(self).ui() == (Ui { workspaces: ws@, workspace_current: current@, ..old(self).ui() }),
            final(self).dirty == (old(self).dirty || old(self).workspaces@ != ws@ || old(self).workspace_current@ != current@),
            final(self).wf(),
    {
        if !text::same(self.workspaces.as_str(), ws) || !text::same(self.workspace_current.as_str(), current) {
            self.workspaces = text::own(ws);
            self.workspace_current = text::own(current);
            self.dirty = true;
        }
        assert(self.ui() =~= (Ui { workspaces: ws@, workspace_current: current@, ..old(self).ui() }));
    }

    /// The Quick Access pins.
    pub fn note_quick_pins(&mut self, pins: &str)
        requires
            old(self).wf(),
        ensures
            final(self).ui() == (Ui { quick_pins: pins@, ..old(self).ui() }),
            final(self).dirty == (old(self).dirty || old(self).quick_pins@ != pins@),
            final(self).wf(),
    {
        if !text::same(self.quick_pins.as_str(), pins) {
            self.quick_pins = text::own(pins);
            self.dirty = true;
        }
        assert(self.ui() =~= (Ui { quick_pins: pins@, ..old(self).ui() }));
    }

    /// The material folders and the use counters.
    pub fn note_materials(&mut self, folders: &[String], uses: &str)
        requires
            old(self).wf(),
        ensures
            final(self).ui() == (Ui {
                material_folders: text::strings(folders@),
                material_uses: uses@,
                ..old(self).ui()
            }),
            final(self).dirty == (old(self).dirty || text::strings(old(self).material_folders@)
                != text::strings(folders@) || old(self).material_uses@ != uses@),
            final(self).wf(),
    {
        if !same_list(self.material_folders.as_slice(), folders) || !text::same(
            self.material_uses.as_str(),
            uses,
        ) {
            self.material_folders = copy_list(folders);
            self.material_uses = text::own(uses);
            self.dirty = true;
        }
    }

    /// The recent colours.
    pub fn note_color_history(&mut self, hex: &[String])
        requires
            old(self).wf(),
        ensures
            final(self).ui() == (Ui { color_history: text::strings(hex@), ..old(self).ui() }),
            final(self).dirty == (old(self).dirty || text::strings(old(self).color_history@)
                != text::strings(hex@)),
            final(self).wf(),
    {
        if !same_list(self.color_history.as_slice(), hex) {
            self.color_history = copy_list(hex);
            self.dirty = true;
        }
    }

    /// The switch that puts picked colours into the set.
    pub fn note_auto_swatch(&mut self, on: bool)
        requires
            old(self).wf(),
        ensures
            final(self).ui() == (Ui { auto_swatch: on, ..old(self).ui() }),
            final(self).dirty == (old(self).dirty || old(self).auto_swatch != on),
            final(self).wf(),
    {
        if self.auto_swatch != on {
            self.auto_swatch = on;
            self.dirty = true;
        }
    }

    /// The page last read.
    pub fn note_reader_page(&mut self, page: usize)
        requires
            old(self).wf(),
        ensures
            final(self).ui() == (Ui { reader_page: page, ..old(self).ui() }),
            final(self).dirty == (old(self).dirty || old(self).reader_page != page),
            final(self).wf(),
    {
        if self.reader_page != page {
            self.reader_page = page;
            self.dirty = true;
        }
    }

    /// The switch that hides the page guides.
    pub fn note_guides_hidden(&mut self, hidden: bool)
        requires
            old(self).wf(),
        ensures
            final(self).ui() == (Ui { guides_hidden: hidden, ..old(self).ui() }),
            final(self).dirty == (old(self).dirty || old(self).guides_hidden != hidden),
            final(self).wf(),
    {
        if self.guides_hidden != hidden {
            self.guides_hidden = hidden;
            self.dirty = true;
        }
    }

    /// The fold of the test stroke.
    pub fn note_test_stroke_hidden(&mut self, hidden: bool)
        requires
            old(self).wf(),
        ensures
            final(self).ui() == (Ui { test_stroke_hidden: hidden, ..old(self).ui() }),
            final(self).dirty == (old(self).dirty || old(self).test_stroke_hidden != hidden),
            final(self).wf(),
    {
        if self.test_stroke_hidden != hidden {
            self.test_stroke_hidden = hidden;
            self.dirty = true;
        }
    }

    /// The saved gradients.
    pub fn note_gradients(&mut self, json: &str)
        requires
            old(self).wf(),
        ensures
            final(self).ui() == (Ui { gradients: json@, ..old(self).ui() }),
            final(self).dirty == (old(self).dirty || old(self).gradients@ != json@),
            final(self).wf(),
    {
        if !text::same(self.gradients.as_str(), json) {
            self.gradients = text::own(json);
            self.dirty = true;
        }
        assert(self.ui() =~= (Ui { gradients: json@, ..old(self).ui() }));
    }

    /// The artist's own effect-line presets.
    pub fn note_figure_presets(&mut self, json: &str)
        requires
            old(self).wf(),
        ensures
            final(self).ui() == (Ui { figure_presets: json@, ..old(self).ui() }),
            final(self).dirty == (old(self).dirty || old(self).figure_presets@ != json@),
            final(self).wf(),
    {
        if !text::same(self.figure_presets.as_str(), json) {
            self.figure_presets = text::own(json);
            self.dirty = true;
        }
        assert(self.ui() =~= (Ui { figure_presets: json@, ..old(self).ui() }));
    }

    /// Remembers the size of one sub tool's brush, or forgets it: back to the
    /// preset deletes the entry, so that the preset's own size counts again.
    pub fn note_sub_tool_size(&mut self, key: &str, px: Option<u32>)
        requires
            old(self).wf(),
        ensures
            final(self).ui() == (Ui {
                sizes: match px {
                    Some(p) => old(self).ui().sizes.insert(key@, p),
                    None => old(self).ui().sizes.remove(key@),
                },
                ..old(self).ui()
            }),
            final(self).dirty == (old(self).dirty || match px {
                Some(p) => !(old(self).ui().sizes.contains_key(key@) && crate::floats::equal(old(self).ui().sizes[key@], p)),
                None => old(self).ui().sizes.contains_key(key@),
            }),
            final(self).wf(),
    {
        let ghost was = self.sub_tool_size_px@;
        let mut i: usize = 0;
        while i < self.sub_tool_size_px.len() && !text::same(
            self.sub_tool_size_px[i].key.as_str(),
            key,
        )
            invariant
                i <= self.sub_tool_size_px@.len(),
                self.sub_tool_size_px@ == was,
                *self == *old(self),
                forall|j: int| 0 <= j < i ==> (#[trigger] was[j]).key@ != key@,
            decreases self.sub_tool_size_px.len() - i,
        {
            i = i + 1;
        }
        proof {
            lemma_sizes(was);
        }
        let hit = i < self.sub_tool_size_px.len();
        proof {
            if hit {
                assert(was[i as int].key@ == key@);
            } else if sizes_map(was).contains_key(key@) {
                let j = choose|j: int| 0 <= j < was.len() && (#[trigger] was[j]).key@ == key@;
                assert(false);
            }
        }
        match px {
            Some(p) => {
                if hit {
                    if !crate::floats::is_equal(self.sub_tool_size_px[i].px, p) {
                        self.dirty = true;
                    }
                    self.sub_tool_size_px[i].px = p;
                    proof {
                        let now = self.sub_tool_size_px@;
                        assert forall|a: int, b: int| 0 <= a < b < now.len() implies (
                        #[trigger] now[a]).key@ != (#[trigger] now[b]).key@ by {
                            assert(was[a].key@ != was[b].key@);
                        }
                        lemma_sizes(now);
                        lemma_sizes_set(was, now, i as int);
                    }
                } else {
                    self.dirty = true;
                    self.sub_tool_size_px.push(SizeRow { key: text::own(key), px: p });
                    proof {
                        let now = self.sub_tool_size_px@;
                        assert(now.drop_last() =~= was);
                        assert forall|a: int, b: int| 0 <= a < b < now.len() implies (
                        #[trigger] now[a]).key@ != (#[trigger] now[b]).key@ by {
                            if b < was.len() {
                                assert(was[a].key@ != was[b].key@);
                            } else {
                                assert(was[a].key@ != key@);
                            }
                        }
                    }
                }
            },
            None => {
                if hit {
                    self.dirty = true;
                    self.sub_tool_size_px.remove(i);
                    proof {
                        let now = self.sub_tool_size_px@;
                        assert(now =~= was.remove(i as int));
                        assert forall|a: int, b: int| 0 <= a < b < now.len() implies (
                        #[trigger] now[a]).key@ != (#[trigger] now[b]).key@ by {
                            let x = if a < i {
                                a
                            } else {
                                a + 1
                            };
                            let y = if b < i {
                                b
                            } else {
                                b + 1
                            };
                            assert(was[x].key@ != was[y].key@);
                        }
                        lemma_sizes(now);
                        lemma_sizes_removed(was, now, i as int);
                    }
                } else {
                    assert(sizes_map(was).remove(key@) =~= sizes_map(was));
                }
            },
        }
    }

    /// What is to be written, where anything changed since the last time.
    pub fn save_if_dirty(&mut self, w: &Written) -> (r: SaveLayout)
        requires
            old(self).wf(),
        ensures
            *final(self) == (UiLayout { dirty: false, ..*old(self) }),
            match r {
                SaveLayout::Nothing => !old(self).dirty,
                SaveLayout::Write(b) => old(self).dirty && b@ == body(
                    pairs(old(self).ui(), w.left_w@, w.right_w@, w.sizes@),
                ),
            },
    {
        if !self.dirty {
            return SaveLayout::Nothing;
        }
        self.dirty = false;
        assert(self.ui() =~= old(self).ui());
        SaveLayout::Write(self.to_body(w))
    }

    /// Reads a whole file, line by line; `rs` holds the readings of each line.
    /// The columns then get widths that can be used.
    pub fn from_body(content: &str, rs: Vec<LineRead>) -> (r: UiLayout)
        requires
            rs@.len() == text::lines(content@).len(),
            forall|i: int|
                0 <= i < rs@.len() ==> match (#[trigger] rs@[i]).sizes {
                    Some(v) => unique_sizes(v.rows@),
                    None => true,
                },
        ensures
            r.ui() == usable(apply_lines(fresh(LEFT_W, RIGHT_W), text::lines(content@), reads(rs@))),
            r.wf(),
            !r.dirty,
    {
        let ls = text::lines_of(&text::to_chars(content));
        let ghost all = text::lines(content@);
        let ghost given = rs@;
        let mut me = UiLayout::new(LEFT_W, RIGHT_W);
        let mut rest = rs;
        let mut i: usize = 0;
        proof {
            assert(text::views(ls@).len() == ls@.len());
            assert(all.take(0) =~= seq![]);
            assert(given.skip(0) =~= given);
        }
        while i < ls.len()
            invariant
                i <= ls.len(),
                ls@.len() == all.len(),
                text::views(ls@) == all,
                given.len() == all.len(),
                rest@ == given.skip(i as int),
                forall|j: int|
                    0 <= j < given.len() ==> match (#[trigger] given[j]).sizes {
                        Some(v) => unique_sizes(v.rows@),
                        None => true,
                    },
                me.wf(),
                !me.dirty,
                me.ui() == apply_lines(
                    fresh(LEFT_W, RIGHT_W),
                    all.take(i as int),
                    reads(given).take(i as int),
                ),
            decreases ls.len() - i,
        {
            let r = rest.remove(0);
            proof {
                assert(r == given[i as int]);
                assert(rest@ =~= given.skip(i as int + 1));
                assert(all[i as int] == ls@[i as int]@);
                let a = all.take(i as int + 1);
                let b = reads(given).take(i as int + 1);
                assert(a.drop_last() =~= all.take(i as int));
                assert(b.drop_last() =~= reads(given).take(i as int));
                assert(b.last() == r.read());
            }
            me.apply_kv(text::from_chars(&ls[i]).as_str(), r);
            i = i + 1;
        }
        proof {
            assert(all.take(all.len() as int) =~= all);
            assert(reads(given).take(given.len() as int) =~= reads(given));
        }
        let ghost read = me.ui();
        me.left_w = hold(me.left_w, LEFT_MIN, WIDTH_MAX);
        me.right_w = hold(me.right_w, RIGHT_MIN, WIDTH_MAX);
        assert(me.ui() =~= usable(read));
        me
    }
}

proof fn lemma_sizes_set(was: Seq<SizeRow>, now: Seq<SizeRow>, i: int)
    requires
        unique_sizes(was),
        unique_sizes(now),
        now.len() == was.len(),
        0 <= i < was.len(),
        forall|j: int| 0 <= j < was.len() ==> (#[trigger] now[j]).key@ == was[j].key@,
        forall|j: int| 0 <= j < was.len() && j != i ==> (#[trigger] now[j]).px == was[j].px,
    ensures
        sizes_map(now) == sizes_map(was).insert(was[i].key@, now[i].px),
{
    lemma_sizes(was);
    lemma_sizes(now);
    let a = sizes_map(now);
    let b = sizes_map(was).insert(was[i].key@, now[i].px);
    assert forall|k: Seq<char>| #[trigger] a.contains_key(k) <==> b.contains_key(k) by {
        if a.contains_key(k) {
            let j = choose|j: int| 0 <= j < now.len() && (#[trigger] now[j]).key@ == k;
            assert(was[j].key@ == k);
        }
        if sizes_map(was).contains_key(k) {
            let j = choose|j: int| 0 <= j < was.len() && (#[trigger] was[j]).key@ == k;
            assert(now[j].key@ == k);
        }
        assert(now[i].key@ == was[i].key@);
    }
    assert forall|k: Seq<char>| #[trigger] a.contains_key(k) implies a[k] == b[k] by {
        let j = choose|j: int| 0 <= j < now.len() && (#[trigger] now[j]).key@ == k;
        assert(was[j].key@ == k);
        if j != i {
            if j < i {
                assert(was[j].key@ != was[i].key@);
            } else {
                assert(was[i].key@ != was[j].key@);
            }
        }
    }
    assert(a =~= b);
}

proof fn lemma_sizes_removed(was: Seq<SizeRow>, now: Seq<SizeRow>, i: int)
    requires
        unique_sizes(was),
        unique_sizes(now),
        0 <= i < was.len(),
        now == was.remove(i),
    ensures
        sizes_map(now) == sizes_map(was).remove(was[i].key@),
{
    lemma_sizes(was);
    lemma_sizes(now);
    let a = sizes_map(now);
    let b = sizes_map(was).remove(was[i].key@);
    assert forall|k: Seq<char>| #[trigger] a.contains_key(k) <==> b.contains_key(k) by {
        if a.contains_key(k) {
            let j = choose|j: int| 0 <= j < now.len() && (#[trigger] now[j]).key@ == k;
            let x = if j < i {
                j
            } else {
                j + 1
            };
            assert(was[x].key@ == k);
            if x < i {
                assert(was[x].key@ != was[i].key@);
            } else {
                assert(was[i].key@ != was[x].key@);
            }
        }
        if b.contains_key(k) {
            let j = choose|j: int| 0 <= j < was.len() && (#[trigger] was[j]).key@ == k;
            let x = if j < i {
                j
            } else {
                j - 1
            };
            assert(now[x].key@ == k);
        }
    }
    assert forall|k: Seq<char>| #[trigger] a.contains_key(k) implies a[k] == b[k] by {
        let j = choose|j: int| 0 <= j < now.len() && (#[trigger] now[j]).key@ == k;
        let x = if j < i {
            j
        } else {
            j + 1
        };
        assert(was[x].key@ == k);
    }
    assert(a =~= b);
}

/// The main window's geometry in screen pixels; the restored rectangle where
/// the window is maximized.
#[derive(Clone, Copy, PartialEq, Eq, Structural, Debug)]
pub struct WinGeom {
    pub x: i32,
    pub y: i32,
    pub w: i32,
    pub h: i32,
    pub max: bool,
}

/// A monitor: left, top, right, bottom.
pub type ScreenRect = (i32, i32, i32, i32);

/// The geometry as `x,y,w,h,max`.
pub open spec fn geom_line(g: WinGeom) -> Seq<char> {
    text::dec_int(g.x as int) + seq![','] + text::dec_int(g.y as int) + seq![','] + text::dec_int(
        g.w as int,
    ) + seq![','] + text::dec_int(g.h as int) + seq![','] + text::dec_int(
        if g.max {
            1
        } else {
            0
        },
    )
}

/// The number in a piece between commas.
pub open spec fn piece(s: Seq<char>) -> Option<int> {
    text::parse_int(text::trim(s))
}

/// The geometry that five comma-joined numbers write.
pub open spec fn geom_of(s: Seq<char>) -> Option<WinGeom> {
    let p = text::split(s, ',');
    if p.len() == 5 && piece(p[0]) is Some && piece(p[1]) is Some && piece(p[2]) is Some && piece(
        p[3],
    ) is Some && piece(p[4]) is Some {
        Some(
            WinGeom {
                x: piece(p[0])->0 as i32,
                y: piece(p[1])->0 as i32,
                w: piece(p[2])->0 as i32,
                h: piece(p[3])->0 as i32,
                max: piece(p[4])->0 != 0,
            },
        )
    } else {
        None
    }
}

/// Does the window, of a sane size, share area with this monitor?
pub open spec fn lands_on(g: WinGeom, m: ScreenRect) -> bool {
    g.x + g.w > m.0 && g.y + g.h > m.1 && g.x < m.2 && g.y < m.3
}

fn read_piece(v: &Vec<char>) -> (r: Option<i32>)
    ensures
        match r {
            Some(n) => piece(v@) == Some(n as int),
            None => piece(v@) is None,
        },
{
    text::read_int(&text::trim_chars(v))
}

impl WinGeom {
    pub fn to_line(&self) -> (r: String)
        ensures
            r@ == geom_line(*self),
    {
        let mut s = String::new();
        text::push_int(&mut s, self.x);
        s.push(',');
        text::push_int(&mut s, self.y);
        s.push(',');
        text::push_int(&mut s, self.w);
        s.push(',');
        text::push_int(&mut s, self.h);
        s.push(',');
        text::push_int(
            &mut s,
            if self.max {
                1
            } else {
                0
            },
        );
        assert(s@ =~= geom_line(*self));
        s
    }

    pub fn parse(s: &str) -> (r: Option<WinGeom>)
        ensures
            r == geom_of(s@),
    {
        let p = text::split_chars(&text::to_chars(s), ',');
        proof {
            assert(text::views(p@).len() == p@.len());
            assert forall|i: int| 0 <= i < p@.len() implies text::split(s@, ',')[i] == (
            #[trigger] p@[i])@ by {}
        }
        if p.len() != 5 {
            return None;
        }
        let x = read_piece(&p[0]);
        let y = read_piece(&p[1]);
        let w = read_piece(&p[2]);
        let h = read_piece(&p[3]);
        let m = read_piece(&p[4]);
        match (x, y, w, h, m) {
            (Some(x), Some(y), Some(w), Some(h), Some(m)) => Some(
                WinGeom { x, y, w, h, max: m != 0 },
            ),
            _ => None,
        }
    }

    /// Would the window land on a monitor that is there, at a sane size?
    pub fn fits_some_monitor(&self, monitors: &[ScreenRect]) -> (r: bool)
        requires
            i32::MIN <= self.x + self.w <= i32::MAX,
            i32::MIN <= self.y + self.h <= i32::MAX,
        ensures
            r == (self.w >= 320 && self.h >= 240 && exists|i: int|
                0 <= i < monitors@.len() && lands_on(*self, #[trigger] monitors@[i])),
    {
        let right: i32 = self.x + self.w;
        let bottom: i32 = self.y + self.h;
        if self.w < 320 || self.h < 240 {
            return false;
        }
        let mut i: usize = 0;
        while i < monitors.len()
            invariant
                i <= monitors.len(),
                self.w >= 320 && self.h >= 240,
                right == self.x + self.w,
                bottom == self.y + self.h,
                forall|j: int| 0 <= j < i ==> !lands_on(*self, #[trigger] monitors@[j]),
            decreases monitors.len() - i,
        {
            let m = monitors[i];
            if right > m.0 && bottom > m.1 && self.x < m.2 && self.y < m.3 {
                assert(lands_on(*self, monitors@[i as int]));
                return true;
            }
            i = i + 1;
        }
        false
    }
}

/// The window geometry that a line carries.
pub open spec fn win_line(line: Seq<char>) -> Option<WinGeom> {
    let i = text::find(line, '=');
    if i < line.len() && text::trim(line.take(i)) == "win"@ {
        geom_of(text::trim(line.skip(i + 1)))
    } else {
        None
    }
}

/// The first geometry among the lines.
pub open spec fn first_win(ls: Seq<Seq<char>>) -> Option<WinGeom>
    decreases ls.len(),
{
    if ls.len() == 0 {
        None
    } else if win_line(ls[0]) is Some {
        win_line(ls[0])
    } else {
        first_win(ls.skip(1))
    }
}

/// The saved window geometry out of a file's content: the first line of the
/// key that can be read.
pub fn peek_win(content: &str) -> (r: Option<WinGeom>)
    ensures
        r == first_win(text::lines(content@)),
{
    let ls = text::lines_of(&text::to_chars(content));
    let ghost all = text::lines(content@);
    let mut i: usize = 0;
    proof {
        assert(text::views(ls@).len() == ls@.len());
        assert(all.skip(0) =~= all);
    }
    while i < ls.len()
        invariant
            i <= ls.len(),
            all == text::lines(content@),
            ls@.len() == all.len(),
            text::views(ls@) == all,
            first_win(all) == first_win(all.skip(i as int)),
        decreases ls.len() - i,
    {
        let l = &ls[i];
        proof {
            assert(all[i as int] == l@);
            assert(all.skip(i as int)[0] == l@);
            assert(all.skip(i as int).skip(1) =~= all.skip(i as int + 1));
            assert(l@.skip(0) =~= l@);
        }
        let k: usize = text::find_from(l, 0, '=');
        if k < l.len() {
            let name = text::trim_chars(&text::cut(l, 0, k));
            assert(l@.subrange(0, k as int) =~= l@.take(k as int));
            if text::same_chars(&name, &text::to_chars("win")) {
                let v = text::trim_chars(&text::cut(l, k + 1, l.len()));
                assert(l@.subrange(k as int + 1, l@.len() as int) =~= l@.skip(k as int + 1));
                if let Some(g) = WinGeom::parse(text::from_chars(&v).as_str()) {
                    return Some(g);
                }
            }
        }
        i = i + 1;
    }
    None
}

/// The geometry that was written is read back.
pub proof fn law_win_round_trip(g: WinGeom)
    ensures
        geom_of(geom_line(g)) == Some(g),
{
    let m: int = if g.max {
        1
    } else {
        0
    };
    let p = seq![
        text::dec_int(g.x as int),
        text::dec_int(g.y as int),
        text::dec_int(g.w as int),
        text::dec_int(g.h as int),
        text::dec_int(m),
    ];
    let c = seq![','];
    text::lemma_dec_int_chars(g.x as int);
    text::lemma_dec_int_chars(g.y as int);
    text::lemma_dec_int_chars(g.w as int);
    text::lemma_dec_int_chars(g.h as int);
    text::lemma_dec_int_chars(m);
    text::law_int_round_trip(g.x as int);
    text::law_int_round_trip(g.y as int);
    text::law_int_round_trip(g.w as int);
    text::law_int_round_trip(g.h as int);
    text::law_int_round_trip(m);
    assert forall|i: int| 0 <= i < p.len() implies !(#[trigger] p[i]).contains(',') && text::trim(p[i])
        == p[i] by {
        let s = p[i];
        assert forall|j: int| 0 <= j < s.len() implies s[j] != ',' && !text::is_white(s[j]) by {
            assert(text::is_digit(s[j]) || s[j] == '-');
        }
        text::lemma_trim_id(s);
    }
    text::lemma_split_join(p, ',');
    assert(text::join(p, c) == geom_line(g)) by {
        let p1 = p.take(1);
        let p2 = p.take(2);
        let p3 = p.take(3);
        let p4 = p.take(4);
        assert(p.drop_last() =~= p4);
        assert(p4.drop_last() =~= p3);
        assert(p3.drop_last() =~= p2);
        assert(p2.drop_last() =~= p1);
        assert(text::join(p1, c) == p[0]);
        assert(text::join(p2, c) == text::join(p1, c) + c + p[1]);
        assert(text::join(p3, c) == text::join(p2, c) + c + p[2]);
        assert(text::join(p4, c) == text::join(p3, c) + c + p[3]);
        assert(text::join(p, c) == text::join(p4, c) + c + p[4]);
    }
    assert(piece(p[0]) == Some(g.x as int));
    assert(piece(p[1]) == Some(g.y as int));
    assert(piece(p[2]) == Some(g.w as int));
    assert(piece(p[3]) == Some(g.h as int));
    assert(piece(p[4]) == Some(m));
}

/// A value that stays on its line as it is.
pub open spec fn tidy(v: Seq<char>) -> bool {
    !v.contains('\n') && (v.len() > 0 ==> v.last() != '\r')
}

/// A value that stays on its line as it is and has no white space around it.
pub open spec fn trimmed(v: Seq<char>) -> bool {
    !v.contains('\n') && text::trim(v) == v
}

/// A value without a line break.
pub open spec fn unbroken(v: Seq<char>) -> bool {
    !v.contains('\n')
}

/// A layout whose texts do not break their lines. The texts that are written
/// without their line breaks never do.
pub open spec fn unbroken_ui(u: Ui) -> bool {
    &&& unbroken(u.dock_left)
    &&& unbroken(u.dock_right)
    &&& unbroken(u.prop_hidden)
    &&& unbroken(u.win)
    &&& unbroken(u.material_uses)
    &&& forall|i: int| 0 <= i < u.color_history.len() ==> unbroken(#[trigger] u.color_history[i])
}

/// Colours that a comma-joined list can carry.
pub open spec fn listable(h: Seq<Seq<char>>) -> bool {
    forall|i: int| 0 <= i < h.len() ==> trimmed(#[trigger] h[i]) && h[i].len() > 0 && !h[i].contains(',')
}

/// How many lines a layout has.
pub open spec fn line_count(u: Ui) -> int {
    if u.gpu_dabs_explicit {
        22
    } else {
        21
    }
}

/// Is there a reading for each line?
pub open spec fn line_for_line(rs: Seq<Read>, u: Ui) -> bool {
    rs.len() == line_count(u)
}

/// What a line leaves of a text that is read as it stands.
pub open spec fn carried(v: Seq<char>) -> Seq<char> {
    text::chomp(v)
}

/// What a line leaves of a text that is read without the white space around it.
pub open spec fn carried_word(v: Seq<char>) -> Seq<char> {
    text::trim(text::chomp(v))
}

/// What a save and a load leave of a layout, field by field. The columns and
/// the sizes are what their lines read as.
pub open spec fn read_back(u: Ui, rs: Seq<Read>, left: u32, right: u32) -> Ui {
    Ui {
        left_w: match rs[0].width {
            Some(w) => w,
            None => left,
        },
        right_w: match rs[1].width {
            Some(w) => w,
            None => right,
        },
        dock_left: carried(u.dock_left),
        dock_right: carried(u.dock_right),
        prop_hidden: carried_word(u.prop_hidden),
        win: carried_word(u.win),
        gpu_dabs: u.gpu_dabs && u.gpu_dabs_explicit,
        gpu_dabs_explicit: u.gpu_dabs_explicit,
        recent_fonts: u.recent_fonts,
        material_folders: u.material_folders,
        material_uses: carried(u.material_uses),
        quick_pins: carried_word(text::without(u.quick_pins, '\n')),
        workspaces: carried_word(text::without(u.workspaces, '\n')),
        workspace_current: carried_word(text::without(u.workspace_current, '\n')),
        touch_gestures: u.touch_gestures,
        color_history: list_items(text::split(carried(text::join(u.color_history, ","@)), ',')),
        auto_swatch: u.auto_swatch,
        reader_page: u.reader_page,
        guides_hidden: u.guides_hidden,
        test_stroke_hidden: u.test_stroke_hidden,
        gradients: carried(text::without(u.gradients, '\n')),
        figure_presets: carried(text::without(u.figure_presets, '\n')),
        sizes: match rs.last().sizes {
            Some(m) => m,
            None => Map::empty(),
        },
    }
}

/// Each field of a layout that was saved and is loaded comes back on its own: a
/// number, a switch and a list of names always does, and a text does where its
/// own line can carry it, whatever the others hold. A width that reads as a
/// number is one that can be used.
pub proof fn law_each_field_comes_back(u: Ui, rs: Seq<Read>)
    ensures
        ({
            let b = usable(read_back(u, rs, LEFT_W, RIGHT_W));
            &&& b.recent_fonts == u.recent_fonts
            &&& b.material_folders == u.material_folders
            &&& b.touch_gestures == u.touch_gestures
            &&& b.auto_swatch == u.auto_swatch
            &&& b.reader_page == u.reader_page
            &&& b.guides_hidden == u.guides_hidden
            &&& b.test_stroke_hidden == u.test_stroke_hidden
            &&& b.gpu_dabs_explicit == u.gpu_dabs_explicit
            &&& b.gpu_dabs == (u.gpu_dabs && u.gpu_dabs_explicit)
            &&& tidy(u.dock_left) ==> b.dock_left == u.dock_left
            &&& tidy(u.dock_right) ==> b.dock_right == u.dock_right
            &&& tidy(u.material_uses) ==> b.material_uses == u.material_uses
            &&& tidy(u.gradients) ==> b.gradients == u.gradients
            &&& tidy(u.figure_presets) ==> b.figure_presets == u.figure_presets
            &&& trimmed(u.prop_hidden) ==> b.prop_hidden == u.prop_hidden
            &&& trimmed(u.win) ==> b.win == u.win
            &&& trimmed(u.quick_pins) ==> b.quick_pins == u.quick_pins
            &&& trimmed(u.workspaces) ==> b.workspaces == u.workspaces
            &&& trimmed(u.workspace_current) ==> b.workspace_current == u.workspace_current
            &&& listable(u.color_history) ==> b.color_history == u.color_history
            &&& rs[0].width == Some(u.left_w) && LEFT_MIN <= u.left_w <= WIDTH_MAX ==> b.left_w == u.left_w
            &&& rs[1].width == Some(u.right_w) && RIGHT_MIN <= u.right_w <= WIDTH_MAX ==> b.right_w == u.right_w
            &&& (rs[0].width matches Some(w) ==> !crate::floats::nan(w)) ==> LEFT_MIN <= b.left_w <= WIDTH_MAX
            &&& (rs[1].width matches Some(w) ==> !crate::floats::nan(w)) ==> RIGHT_MIN <= b.right_w <= WIDTH_MAX
            &&& rs.last().sizes == Some(u.sizes) ==> b.sizes == u.sizes
        }),
{
    if tidy(u.gradients) {
        text::lemma_without_none(u.gradients, '\n');
    }
    if tidy(u.figure_presets) {
        text::lemma_without_none(u.figure_presets, '\n');
    }
    lemma_word(u.prop_hidden);
    lemma_word(u.win);
    lemma_word(u.quick_pins);
    lemma_word(u.workspaces);
    lemma_word(u.workspace_current);
    if listable(u.color_history) {
        reveal_strlit(",");
        assert(","@ =~= seq![',']);
        lemma_colours(u.color_history);
    }
}

proof fn lemma_word(v: Seq<char>)
    ensures
        trimmed(v) ==> carried_word(v) == v && text::without(v, '\n') == v,
{
    if trimmed(v) {
        lemma_trimmed_tidy(v);
        text::lemma_without_none(v, '\n');
    }
}

/// Does the line begin with this key and its equals sign?
pub open spec fn starts_line(l: Seq<char>, k: Key) -> bool {
    (key_text(k) + seq!['=']).is_prefix_of(l)
}

/// Does the text hide a line of this key, behind one of its line breaks?
pub open spec fn hides(v: Seq<char>, k: Key) -> bool {
    exists|i: int| 0 <= i < v.len() && #[trigger] v[i] == '\n' && starts_line(v.skip(i + 1), k)
}

/// Does one of the values hide a line of this key?
pub open spec fn sheltered(e: Seq<(Seq<char>, Seq<char>)>, k: Key) -> bool {
    exists|n: int| 0 <= n < e.len() && hides((#[trigger] e[n]).1, k)
}

/// Does one of the layout's texts that may break their lines hide a line of this
/// key?
pub open spec fn hidden_in(u: Ui, k: Key) -> bool {
    ||| hides(u.dock_left, k)
    ||| hides(u.dock_right, k)
    ||| hides(u.prop_hidden, k)
    ||| hides(u.win, k)
    ||| hides(u.material_uses, k)
    ||| hides(text::join(u.color_history, ","@), k)
}

/// The number of the line that a key has, or -1 where it has none.
pub open spec fn slot(u: Ui, k: Key) -> int {
    let o = if u.gpu_dabs_explicit { 1int } else { 0int };
    match k {
        Key::LeftW => 0,
        Key::RightW => 1,
        Key::DockLeft => 2,
        Key::DockRight => 3,
        Key::PropHidden => 4,
        Key::Win => 5,
        Key::GpuDabs => if u.gpu_dabs_explicit { 6 } else { -1 },
        Key::RecentFonts => 6 + o,
        Key::MaterialFolders => 7 + o,
        Key::MaterialUses => 8 + o,
        Key::QuickPins => 9 + o,
        Key::Workspaces => 10 + o,
        Key::WorkspaceCurrent => 11 + o,
        Key::TouchGestures => 12 + o,
        Key::ColorHistory => 13 + o,
        Key::AutoSwatch => 14 + o,
        Key::ReaderPage => 15 + o,
        Key::GuidesHidden => 16 + o,
        Key::TestStrokeHidden => 17 + o,
        Key::Gradients => 18 + o,
        Key::FigurePresets => 19 + o,
        Key::SubToolSizePx => 20 + o,
    }
}

/// The pairs as their lines carry them.
spec fn chomped(e: Seq<(Seq<char>, Seq<char>)>) -> Seq<(Seq<char>, Seq<char>)> {
    Seq::new(e.len(), |i: int| (e[i].0, text::chomp(e[i].1)))
}

/// The lines of the pairs.
spec fn lines_of_pairs(e: Seq<(Seq<char>, Seq<char>)>) -> Seq<Seq<char>> {
    Seq::new(e.len(), |i: int| line_of(e[i].0, e[i].1))
}

proof fn lemma_apply_key(u: Ui, k: Key, v: Seq<char>, r: Read)
    requires
        !v.contains('\n'),
    ensures
        apply_line(u, line_of(key_text(k), v), r) == set_key(u, k, v, r),
{
    lemma_key_of(k);
    let t = key_text(k);
    let l = line_of(t, v);
    assert forall|i: int| 0 <= i < t.len() implies l[i] != '=' by {
        assert(l[i] == t[i]);
        if t[i] == '=' {
            assert(t.contains('='));
        }
    }
    assert(l[t.len() as int] == '=');
    text::lemma_find_is(l, '=', t.len() as int);
    assert(l.take(t.len() as int) =~= t);
    assert(l.skip(t.len() as int + 1) =~= v);
    if l.contains('\n') {
        let i = choose|i: int| 0 <= i < l.len() && l[i] == '\n';
        if i < t.len() {
            assert(t[i] == '\n');
            assert(t.contains('\n'));
        } else if i > t.len() {
            assert(v[i - t.len() - 1] == '\n');
            assert(v.contains('\n'));
        }
    }
}

/// No value breaks its line.
spec fn all_unbroken(e: Seq<(Seq<char>, Seq<char>)>) -> bool {
    forall|i: int| 0 <= i < e.len() ==> unbroken((#[trigger] e[i]).1)
}

proof fn lemma_apply_next(
    u: Ui,
    e: Seq<(Seq<char>, Seq<char>)>,
    rs: Seq<Read>,
    n: int,
    k: Key,
    v: Seq<char>,
)
    requires
        0 <= n < e.len(),
        e.len() == rs.len(),
        e[n] == (key_text(k), v),
        all_unbroken(e),
    ensures
        apply_lines(u, lines_of_pairs(e).take(n + 1), rs.take(n + 1)) == set_key(
            apply_lines(u, lines_of_pairs(e).take(n), rs.take(n)),
            k,
            v,
            rs[n],
        ),
{
    let ls = lines_of_pairs(e);
    assert(unbroken(e[n].1));
    assert(ls.take(n + 1).drop_last() =~= ls.take(n));
    assert(rs.take(n + 1).drop_last() =~= rs.take(n));
    lemma_apply_key(apply_lines(u, ls.take(n), rs.take(n)), k, v, rs[n]);
}

proof fn lemma_items(h: Seq<Seq<char>>)
    requires
        forall|i: int| 0 <= i < h.len() ==> text::trim(#[trigger] h[i]) == h[i] && h[i].len() > 0,
    ensures
        list_items(h) == h,
    decreases h.len(),
{
    if h.len() > 0 {
        let d = h.drop_last();
        assert forall|i: int| 0 <= i < d.len() implies text::trim(#[trigger] d[i]) == d[i] && d[i].len()
            > 0 by {
            assert(d[i] == h[i]);
        }
        lemma_items(d);
        assert(text::trim(h[h.len() - 1]) == h[h.len() - 1]);
        assert(d.push(h.last()) =~= h);
    } else {
        assert(list_items(h) =~= h);
    }
}

/// A list of colours is found again in its writing.
proof fn lemma_colours(h: Seq<Seq<char>>)
    requires
        listable(h),
    ensures
        list_items(text::split(text::join(h, seq![',']), ',')) == h,
        !text::join(h, seq![',']).contains('\n'),
        tidy(text::join(h, seq![','])),
    decreases h.len(),
{
    let j = text::join(h, seq![',']);
    if h.len() == 0 {
        text::lemma_split_one(j, ',');
        assert(seq![j].drop_last() =~= seq![]);
        assert(text::trim(j) =~= seq![]);
        assert(list_items(seq![j]) == list_items(seq![j].drop_last()));
        assert(list_items(seq![j]) =~= h);
    } else {
        lemma_items(h);
        text::lemma_split_join(h, ',');
        let d = h.drop_last();
        assert forall|i: int| 0 <= i < d.len() implies trimmed(#[trigger] d[i]) && d[i].len() > 0
            && !d[i].contains(',') by {
            assert(d[i] == h[i]);
        }
        assert(trimmed(h[h.len() - 1]));
        let l = h.last();
        assert(!text::is_white(l.last())) by {
            lemma_last_not_white(l);
        }
        if h.len() > 1 {
            lemma_colours(d);
            let a = text::join(d, seq![',']);
            assert(j == a + seq![','] + l);
            if j.contains('\n') {
                let i = choose|i: int| 0 <= i < j.len() && j[i] == '\n';
                if i < a.len() {
                    assert(a[i] == '\n');
                    assert(a.contains('\n'));
                } else if i > a.len() {
                    assert(l[i - a.len() - 1] == '\n');
                    assert(l.contains('\n'));
                }
            }
            assert(j.last() == l.last());
        } else {
            assert(j == l);
        }
    }
}

proof fn lemma_trim_end_last(s: Seq<char>)
    ensures
        text::trim_end(s).len() > 0 ==> !text::is_white(text::trim_end(s).last()),
    decreases s.len(),
{
    if s.len() > 0 && text::is_white(s.last()) {
        lemma_trim_end_last(s.drop_last());
    }
}

proof fn lemma_last_not_white(s: Seq<char>)
    requires
        text::trim(s) == s,
        s.len() > 0,
    ensures
        !text::is_white(s.last()),
{
    lemma_trim_end_last(text::trim_start(s));
}

proof fn lemma_trimmed_tidy(v: Seq<char>)
    requires
        trimmed(v),
    ensures
        tidy(v),
{
    if v.len() > 0 {
        lemma_last_not_white(v);
    }
}

proof fn lemma_number(n: nat, max: nat)
    requires
        n <= max,
    ensures
        text::parse_nat(text::trim(text::dec(n)), max) == Some(n),
        tidy(text::dec(n)),
{
    text::lemma_dec(n);
    text::law_nat_round_trip(n, max);
    let s = text::dec(n);
    assert(text::is_digit(s[0]) && text::is_digit(s[s.len() - 1]));
    text::lemma_trim_id(s);
    assert forall|i: int| 0 <= i < s.len() implies s[i] != '\n' by {
        assert(text::is_digit(s[i]));
    }
}

proof fn lemma_flag(b: bool)
    ensures
        (text::trim(flag(b)) == "1"@) == b,
        tidy(flag(b)),
{
    reveal_strlit("1");
    reveal_strlit("0");
    text::lemma_trim_id(flag(b));
    assert forall|i: int| 0 <= i < flag(b).len() implies flag(b)[i] != '\n' by {}
}

/// What `serde_json` does for a list: one line that gives the list back.
spec fn json_ok(list: Seq<Seq<char>>) -> bool {
    &&& json_list(json_text(list)) == Some(list)
    &&& tidy(json_text(list))
}

/// A text without its line breaks has none.
proof fn lemma_without_is_unbroken(v: Seq<char>)
    ensures
        unbroken(text::without(v, '\n')),
    decreases v.len(),
{
    if v.len() > 0 {
        let d = text::without(v.drop_last(), '\n');
        lemma_without_is_unbroken(v.drop_last());
        if v.last() != '\n' {
            let w = d.push(v.last());
            if w.contains('\n') {
                let i = choose|i: int| 0 <= i < w.len() && w[i] == '\n';
                assert(d[i] == '\n');
                assert(d.contains('\n'));
            }
        }
    }
}

/// A list of texts without line breaks has none either.
proof fn lemma_join_is_unbroken(h: Seq<Seq<char>>)
    requires
        forall|i: int| 0 <= i < h.len() ==> unbroken(#[trigger] h[i]),
    ensures
        unbroken(text::join(h, seq![','])),
    decreases h.len(),
{
    let j = text::join(h, seq![',']);
    if h.len() == 1 {
        assert(unbroken(h[0]));
    } else if h.len() > 1 {
        let d = h.drop_last();
        let l = h.last();
        assert(unbroken(h[h.len() - 1]));
        assert forall|i: int| 0 <= i < d.len() implies unbroken(#[trigger] d[i]) by {
            assert(d[i] == h[i]);
        }
        lemma_join_is_unbroken(d);
        let a = text::join(d, seq![',']);
        if j.contains('\n') {
            let i = choose|i: int| 0 <= i < j.len() && j[i] == '\n';
            if i < a.len() {
                assert(a[i] == '\n');
                assert(a.contains('\n'));
            } else if i > a.len() {
                assert(l[i - a.len() - 1] == '\n');
                assert(l.contains('\n'));
            }
        }
    }
}

#[verifier::rlimit(40)]
proof fn lemma_pairs_unbroken(u: Ui, left: Seq<char>, right: Seq<char>, sizes: Seq<char>)
    requires
        unbroken_ui(u),
        unbroken(left),
        unbroken(right),
        unbroken(sizes),
        json_ok(u.recent_fonts),
        json_ok(u.material_folders),
    ensures
        forall|i: int|
            0 <= i < pairs(u, left, right, sizes).len() ==> unbroken(
                (#[trigger] pairs(u, left, right, sizes)[i]).1,
            ) && unbroken(pairs(u, left, right, sizes)[i].0),
        all_unbroken(chomped(pairs(u, left, right, sizes))),
{
    let e = pairs(u, left, right, sizes);
    reveal_strlit(",");
    assert(","@ =~= seq![',']);
    lemma_join_is_unbroken(u.color_history);
    lemma_without_is_unbroken(u.quick_pins);
    lemma_without_is_unbroken(u.workspaces);
    lemma_without_is_unbroken(u.workspace_current);
    lemma_without_is_unbroken(u.gradients);
    lemma_without_is_unbroken(u.figure_presets);
    lemma_number(u.touch_gestures as nat, 255);
    lemma_number(u.reader_page as nat, usize::MAX as nat);
    lemma_flag(u.gpu_dabs);
    lemma_flag(u.auto_swatch);
    lemma_flag(u.guides_hidden);
    lemma_flag(u.test_stroke_hidden);
    assert forall|k: Key| !(#[trigger] key_text(k)).contains('\n') by {
        lemma_key_of(k);
    }
    assert forall|i: int| 0 <= i < e.len() implies unbroken((#[trigger] e[i]).1) && unbroken(e[i].0) by {
        if u.gpu_dabs_explicit {
            assert(e.len() == 22);
        } else {
            assert(e.len() == 21);
        }
    }
    assert forall|i: int| 0 <= i < e.len() implies unbroken((#[trigger] chomped(e)[i]).1) by {
        let v = e[i].1;
        assert(unbroken(v));
        let c = text::chomp(v);
        if c.contains('\n') {
            let k = choose|k: int| 0 <= k < c.len() && c[k] == '\n';
            assert(v[k] == '\n');
        }
    }
}

/// The lines of pairs without line breaks are theirs, each without the carriage
/// return that may end it.
proof fn lemma_lines_of(e: Seq<(Seq<char>, Seq<char>)>, rest: Seq<char>)
    requires
        forall|i: int| 0 <= i < e.len() ==> unbroken((#[trigger] e[i]).0) && unbroken(e[i].1),
    ensures
        text::lines(body(e) + rest) == lines_of_pairs(chomped(e)) + text::lines(rest),
    decreases e.len(),
{
    if e.len() == 0 {
        assert(body(e) + rest =~= rest);
        assert(lines_of_pairs(chomped(e)) + text::lines(rest) =~= text::lines(rest));
    } else {
        let d = e.drop_last();
        let (k, v) = e.last();
        assert(unbroken(e[e.len() - 1].0) && unbroken(e[e.len() - 1].1));
        assert forall|i: int| 0 <= i < d.len() implies unbroken((#[trigger] d[i]).0) && unbroken(d[i].1) by {
            assert(d[i] == e[i]);
        }
        let l = line_of(k, v);
        let more = l + seq!['\n'] + rest;
        assert(body(e) + rest =~= body(d) + more);
        lemma_lines_of(d, more);
        assert forall|i: int| 0 <= i < l.len() implies more[i] != '\n' by {
            assert(more[i] == l[i]);
            if i < k.len() {
                assert(l[i] == k[i]);
                assert(k.contains(k[i]));
            } else if i > k.len() {
                assert(l[i] == v[i - k.len() - 1]);
                assert(v.contains(v[i - k.len() - 1]));
            }
        }
        assert(more[l.len() as int] == '\n');
        text::lemma_find_is(more, '\n', l.len() as int);
        assert(more.take(l.len() as int) =~= l);
        assert(more.skip(l.len() as int + 1) =~= rest);
        assert(text::chomp(l) =~= line_of(k, text::chomp(v))) by {
            if v.len() > 0 {
                assert(l.last() == v.last());
            } else {
                assert(l.last() == '=');
            }
        }
        assert(lines_of_pairs(chomped(d)) + (seq![text::chomp(l)] + text::lines(rest))
            =~= lines_of_pairs(chomped(e)) + text::lines(rest));
    }
}

proof fn lemma_body_lines(u: Ui, left: Seq<char>, right: Seq<char>, sizes: Seq<char>)
    requires
        unbroken_ui(u),
        unbroken(left),
        unbroken(right),
        unbroken(sizes),
        json_ok(u.recent_fonts),
        json_ok(u.material_folders),
    ensures
        text::lines(body(pairs(u, left, right, sizes))) == lines_of_pairs(chomped(pairs(u, left, right, sizes))),
        pairs(u, left, right, sizes).len() == line_count(u),
{
    let e = pairs(u, left, right, sizes);
    lemma_pairs_unbroken(u, left, right, sizes);
    assert(body(e) + seq![] =~= body(e));
    lemma_lines_of(e, seq![]);
    assert(lines_of_pairs(chomped(e)) + text::lines(seq![]) =~= lines_of_pairs(chomped(e)));
}

/// The key of a line.
spec fn key_at(u: Ui, i: int) -> Key {
    let n = if u.gpu_dabs_explicit && i > 6 { i - 1 } else { i };
    if i == 0 {
        Key::LeftW
    } else if i == 1 {
        Key::RightW
    } else if i == 2 {
        Key::DockLeft
    } else if i == 3 {
        Key::DockRight
    } else if i == 4 {
        Key::PropHidden
    } else if i == 5 {
        Key::Win
    } else if i == 6 && u.gpu_dabs_explicit {
        Key::GpuDabs
    } else if n == 6 {
        Key::RecentFonts
    } else if n == 7 {
        Key::MaterialFolders
    } else if n == 8 {
        Key::MaterialUses
    } else if n == 9 {
        Key::QuickPins
    } else if n == 10 {
        Key::Workspaces
    } else if n == 11 {
        Key::WorkspaceCurrent
    } else if n == 12 {
        Key::TouchGestures
    } else if n == 13 {
        Key::ColorHistory
    } else if n == 14 {
        Key::AutoSwatch
    } else if n == 15 {
        Key::ReaderPage
    } else if n == 16 {
        Key::GuidesHidden
    } else if n == 17 {
        Key::TestStrokeHidden
    } else if n == 18 {
        Key::Gradients
    } else if n == 19 {
        Key::FigurePresets
    } else {
        Key::SubToolSizePx
    }
}

proof fn lemma_key_at(u: Ui, left: Seq<char>, right: Seq<char>, sizes: Seq<char>, i: int)
    requires
        0 <= i < line_count(u),
    ensures
        pairs(u, left, right, sizes)[i].0 == key_text(key_at(u, i)),
        slot(u, key_at(u, i)) == i,
{
    let e = pairs(u, left, right, sizes);
    if u.gpu_dabs_explicit {
        assert(e.len() == 22);
    } else {
        assert(e.len() == 21);
    }
}

proof fn lemma_starts_line(u: Ui, left: Seq<char>, right: Seq<char>, sizes: Seq<char>, k: Key, i: int)
    requires
        0 <= i < line_count(u),
        pairs(u, left, right, sizes).len() == line_count(u),
    ensures
        starts_line(lines_of_pairs(chomped(pairs(u, left, right, sizes)))[i], k) <==> i == slot(u, k),
{
    let e = chomped(pairs(u, left, right, sizes));
    let l = lines_of_pairs(e)[i];
    let here = key_at(u, i);
    lemma_key_at(u, left, right, sizes, i);
    assert(l == line_of(key_text(here), e[i].1));
    if here == k {
        let p = key_text(k) + seq!['='];
        assert(l.subrange(0, p.len() as int) =~= p);
    } else {
        lemma_other_key(here, k, e[i].1);
    }
    if i == slot(u, k) {
        lemma_slot(u, k);
    }
}

proof fn lemma_slot(u: Ui, k: Key)
    requires
        slot(u, k) >= 0,
    ensures
        key_at(u, slot(u, k)) == k,
{
}

/// The layout after the first lines of the pairs.
spec fn part(start: Ui, e: Seq<(Seq<char>, Seq<char>)>, rs: Seq<Read>, n: int) -> Ui {
    apply_lines(start, lines_of_pairs(e).take(n), rs.take(n))
}

/// Is the GPU switch among the lines?
spec fn gpu_line(u: Ui) -> int {
    if u.gpu_dabs_explicit {
        1
    } else {
        0
    }
}

proof fn lemma_part_head(u: Ui, left: Seq<char>, right: Seq<char>, sizes: Seq<char>, start: Ui, rs: Seq<Read>)
    requires
        start == fresh(start.left_w, start.right_w),
        unbroken_ui(u),
        unbroken(left),
        unbroken(right),
        unbroken(sizes),
        json_ok(u.recent_fonts),
        json_ok(u.material_folders),
        line_for_line(rs, u),
    ensures
        part(start, chomped(pairs(u, left, right, sizes)), rs, 6 + gpu_line(u)) == (Ui {
            left_w: read_back(u, rs, start.left_w, start.right_w).left_w,
            right_w: read_back(u, rs, start.left_w, start.right_w).right_w,
            dock_left: read_back(u, rs, start.left_w, start.right_w).dock_left,
            dock_right: read_back(u, rs, start.left_w, start.right_w).dock_right,
            prop_hidden: read_back(u, rs, start.left_w, start.right_w).prop_hidden,
            win: read_back(u, rs, start.left_w, start.right_w).win,
            gpu_dabs: u.gpu_dabs && u.gpu_dabs_explicit,
            gpu_dabs_explicit: u.gpu_dabs_explicit,
            ..start
        }),
{
    let e = chomped(pairs(u, left, right, sizes));
    lemma_pairs_unbroken(u, left, right, sizes);
    assert(lines_of_pairs(e).take(0) =~= seq![]);
    assert(part(start, e, rs, 0) == start);
    lemma_flag(u.gpu_dabs);
    lemma_apply_next(start, e, rs, 0, Key::LeftW, text::chomp(left));
    lemma_apply_next(start, e, rs, 1, Key::RightW, text::chomp(right));
    lemma_apply_next(start, e, rs, 2, Key::DockLeft, text::chomp(u.dock_left));
    lemma_apply_next(start, e, rs, 3, Key::DockRight, text::chomp(u.dock_right));
    lemma_apply_next(start, e, rs, 4, Key::PropHidden, text::chomp(u.prop_hidden));
    lemma_apply_next(start, e, rs, 5, Key::Win, text::chomp(u.win));
    if u.gpu_dabs_explicit {
        lemma_apply_next(start, e, rs, 6, Key::GpuDabs, text::chomp(flag(u.gpu_dabs)));
    }
}

proof fn lemma_part_6(u: Ui, left: Seq<char>, right: Seq<char>, sizes: Seq<char>, start: Ui, rs: Seq<Read>)
    requires
        start == fresh(start.left_w, start.right_w),
        unbroken_ui(u),
        unbroken(left),
        unbroken(right),
        unbroken(sizes),
        json_ok(u.recent_fonts),
        json_ok(u.material_folders),
        line_for_line(rs, u),
    ensures
        part(start, chomped(pairs(u, left, right, sizes)), rs, 10 + gpu_line(u)) == (Ui {
            recent_fonts: read_back(u, rs, start.left_w, start.right_w).recent_fonts,
            material_folders: read_back(u, rs, start.left_w, start.right_w).material_folders,
            material_uses: read_back(u, rs, start.left_w, start.right_w).material_uses,
            quick_pins: read_back(u, rs, start.left_w, start.right_w).quick_pins,
            ..part(start, chomped(pairs(u, left, right, sizes)), rs, 6 + gpu_line(u))
        }),
{
    let e = chomped(pairs(u, left, right, sizes));
    lemma_pairs_unbroken(u, left, right, sizes);
    let o = gpu_line(u);
    lemma_apply_next(start, e, rs, 6 + o, Key::RecentFonts, text::chomp(json_text(u.recent_fonts)));
    lemma_apply_next(start, e, rs, 7 + o, Key::MaterialFolders, text::chomp(json_text(u.material_folders)));
    lemma_apply_next(start, e, rs, 8 + o, Key::MaterialUses, text::chomp(u.material_uses));
    lemma_apply_next(start, e, rs, 9 + o, Key::QuickPins, text::chomp(text::without(u.quick_pins, '\n')));
}

proof fn lemma_part_10(u: Ui, left: Seq<char>, right: Seq<char>, sizes: Seq<char>, start: Ui, rs: Seq<Read>)
    requires
        start == fresh(start.left_w, start.right_w),
        unbroken_ui(u),
        unbroken(left),
        unbroken(right),
        unbroken(sizes),
        json_ok(u.recent_fonts),
        json_ok(u.material_folders),
        line_for_line(rs, u),
    ensures
        part(start, chomped(pairs(u, left, right, sizes)), rs, 14 + gpu_line(u)) == (Ui {
            workspaces: read_back(u, rs, start.left_w, start.right_w).workspaces,
            workspace_current: read_back(u, rs, start.left_w, start.right_w).workspace_current,
            touch_gestures: read_back(u, rs, start.left_w, start.right_w).touch_gestures,
            color_history: read_back(u, rs, start.left_w, start.right_w).color_history,
            ..part(start, chomped(pairs(u, left, right, sizes)), rs, 10 + gpu_line(u))
        }),
{
    let e = chomped(pairs(u, left, right, sizes));
    lemma_pairs_unbroken(u, left, right, sizes);
    let o = gpu_line(u);
    lemma_number(u.touch_gestures as nat, 255);
    reveal_strlit(",");
    assert(","@ =~= seq![',']);
    lemma_apply_next(start, e, rs, 10 + o, Key::Workspaces, text::chomp(text::without(u.workspaces, '\n')));
    lemma_apply_next(start, e, rs, 11 + o, Key::WorkspaceCurrent, text::chomp(text::without(u.workspace_current, '\n')));
    lemma_apply_next(start, e, rs, 12 + o, Key::TouchGestures, text::chomp(text::dec(u.touch_gestures as nat)));
    lemma_apply_next(start, e, rs, 13 + o, Key::ColorHistory, text::chomp(text::join(u.color_history, ","@)));
}

proof fn lemma_part_14(u: Ui, left: Seq<char>, right: Seq<char>, sizes: Seq<char>, start: Ui, rs: Seq<Read>)
    requires
        start == fresh(start.left_w, start.right_w),
        unbroken_ui(u),
        unbroken(left),
        unbroken(right),
        unbroken(sizes),
        json_ok(u.recent_fonts),
        json_ok(u.material_folders),
        line_for_line(rs, u),
    ensures
        part(start, chomped(pairs(u, left, right, sizes)), rs, 18 + gpu_line(u)) == (Ui {
            auto_swatch: read_back(u, rs, start.left_w, start.right_w).auto_swatch,
            reader_page: read_back(u, rs, start.left_w, start.right_w).reader_page,
            guides_hidden: read_back(u, rs, start.left_w, start.right_w).guides_hidden,
            test_stroke_hidden: read_back(u, rs, start.left_w, start.right_w).test_stroke_hidden,
            ..part(start, chomped(pairs(u, left, right, sizes)), rs, 14 + gpu_line(u))
        }),
{
    let e = chomped(pairs(u, left, right, sizes));
    lemma_pairs_unbroken(u, left, right, sizes);
    let o = gpu_line(u);
    lemma_flag(u.auto_swatch);
    lemma_number(u.reader_page as nat, usize::MAX as nat);
    lemma_flag(u.guides_hidden);
    lemma_flag(u.test_stroke_hidden);
    lemma_apply_next(start, e, rs, 14 + o, Key::AutoSwatch, text::chomp(flag(u.auto_swatch)));
    lemma_apply_next(start, e, rs, 15 + o, Key::ReaderPage, text::chomp(text::dec(u.reader_page as nat)));
    lemma_apply_next(start, e, rs, 16 + o, Key::GuidesHidden, text::chomp(flag(u.guides_hidden)));
    lemma_apply_next(start, e, rs, 17 + o, Key::TestStrokeHidden, text::chomp(flag(u.test_stroke_hidden)));
}

proof fn lemma_part_18(u: Ui, left: Seq<char>, right: Seq<char>, sizes: Seq<char>, start: Ui, rs: Seq<Read>)
    requires
        start == fresh(start.left_w, start.right_w),
        unbroken_ui(u),
        unbroken(left),
        unbroken(right),
        unbroken(sizes),
        json_ok(u.recent_fonts),
        json_ok(u.material_folders),
        line_for_line(rs, u),
    ensures
        part(start, chomped(pairs(u, left, right, sizes)), rs, 21 + gpu_line(u)) == (Ui {
            gradients: read_back(u, rs, start.left_w, start.right_w).gradients,
            figure_presets: read_back(u, rs, start.left_w, start.right_w).figure_presets,
            sizes: match rs.last().sizes {
                Some(m) => m,
                None => part(start, chomped(pairs(u, left, right, sizes)), rs, 18 + gpu_line(u)).sizes,
            },
            ..part(start, chomped(pairs(u, left, right, sizes)), rs, 18 + gpu_line(u))
        }),
{
    let e = chomped(pairs(u, left, right, sizes));
    lemma_pairs_unbroken(u, left, right, sizes);
    let o = gpu_line(u);
    assert(rs[20 + o] == rs.last());
    lemma_apply_next(start, e, rs, 18 + o, Key::Gradients, text::chomp(text::without(u.gradients, '\n')));
    lemma_apply_next(start, e, rs, 19 + o, Key::FigurePresets, text::chomp(text::without(u.figure_presets, '\n')));
    lemma_apply_next(start, e, rs, 20 + o, Key::SubToolSizePx, text::chomp(sizes));
}

/// What is written is read back.
proof fn lemma_body_read_back(u: Ui, left: Seq<char>, right: Seq<char>, sizes: Seq<char>, start: Ui, rs: Seq<Read>)
    requires
        start == fresh(start.left_w, start.right_w),
        unbroken_ui(u),
        unbroken(left),
        unbroken(right),
        unbroken(sizes),
        json_ok(u.recent_fonts),
        json_ok(u.material_folders),
        line_for_line(rs, u),
    ensures
        apply_lines(start, text::lines(body(pairs(u, left, right, sizes))), rs) == read_back(
            u,
            rs,
            start.left_w,
            start.right_w,
        ),
{
    let e = chomped(pairs(u, left, right, sizes));
    lemma_body_lines(u, left, right, sizes);
    let ls = lines_of_pairs(e);
    lemma_part_head(u, left, right, sizes, start, rs);
    lemma_part_6(u, left, right, sizes, start, rs);
    lemma_part_10(u, left, right, sizes, start, rs);
    lemma_part_14(u, left, right, sizes, start, rs);
    lemma_part_18(u, left, right, sizes, start, rs);
    let o = gpu_line(u);
    assert(part(start, e, rs, 21 + o) =~= read_back(u, rs, start.left_w, start.right_w));
    assert(ls.take(21 + o) =~= ls);
    assert(rs.take(21 + o) =~= rs);
}

/// Text that ends with a line feed, and then more text: the lines of both.
proof fn lemma_lines_join(a: Seq<char>, b: Seq<char>)
    requires
        a.len() > 0 ==> a.last() == '\n',
    ensures
        text::lines(a + b) == text::lines(a) + text::lines(b),
    decreases a.len(),
{
    if a.len() == 0 {
        assert(a + b =~= b);
        assert(text::lines(a) + text::lines(b) =~= text::lines(b));
    } else {
        text::lemma_find(a, '\n');
        let k = text::find(a, '\n');
        assert(k < a.len()) by {
            assert(a[a.len() - 1] == '\n');
        }
        let s = a + b;
        assert forall|i: int| 0 <= i < k implies s[i] != '\n' by {
            assert(s[i] == a[i]);
        }
        assert(s[k] == '\n');
        text::lemma_find_is(s, '\n', k);
        let rest = a.skip(k + 1);
        assert(s.take(k) =~= a.take(k));
        assert(s.skip(k + 1) =~= rest + b);
        if rest.len() > 0 {
            assert(rest.last() == a.last());
        }
        lemma_lines_join(rest, b);
        assert(seq![text::chomp(a.take(k))] + (text::lines(rest) + text::lines(b)) =~= (seq![text::chomp(a.take(k))]
            + text::lines(rest)) + text::lines(b));
    }
}

proof fn lemma_body_ends(e: Seq<(Seq<char>, Seq<char>)>)
    ensures
        body(e).len() > 0 ==> body(e).last() == '\n',
{
}

/// Where the key stands at the front of no piece of the text, no line of the
/// text starts with it.
proof fn lemma_no_line_starts(t: Seq<char>, k: Key)
    requires
        !starts_line(t, k),
        !hides(t, k),
    ensures
        forall|i: int| 0 <= i < text::lines(t).len() ==> !starts_line(#[trigger] text::lines(t)[i], k),
    decreases t.len(),
{
    text::lemma_find(t, '\n');
    let n = text::find(t, '\n');
    let p = key_text(k) + seq!['='];
    if t.len() > 0 && n < t.len() {
        let first = text::chomp(t.take(n));
        let rest = t.skip(n + 1);
        assert(t[n] == '\n');
        assert(!starts_line(rest, k));
        assert forall|i: int| 0 <= i < rest.len() && #[trigger] rest[i] == '\n' implies !starts_line(rest.skip(i + 1), k) by {
            assert(t[n + 1 + i] == '\n');
            assert(rest.skip(i + 1) =~= t.skip(n + 1 + i + 1));
        }
        lemma_no_line_starts(rest, k);
        if starts_line(first, k) {
            assert(first =~= t.take(first.len() as int));
            assert(p.is_prefix_of(t)) by {
                assert(first.subrange(0, p.len() as int) =~= t.subrange(0, p.len() as int));
            }
        }
        assert forall|i: int| 0 <= i < text::lines(t).len() implies !starts_line(#[trigger] text::lines(t)[i], k) by {
            if i > 0 {
                assert(text::lines(t)[i] == text::lines(rest)[i - 1]);
            }
        }
    }
}

/// The line of one key does not start with another.
proof fn lemma_other_key(a: Key, k: Key, v: Seq<char>)
    requires
        a != k,
    ensures
        !starts_line(line_of(key_text(a), v), k),
{
    lemma_key_of(a);
    lemma_key_of(k);
    let (x, y) = (key_text(a), key_text(k));
    let l = line_of(x, v);
    let p = y + seq!['='];
    if starts_line(l, k) {
        assert(l[x.len() as int] == '=');
        assert(p[y.len() as int] == '=');
        assert forall|n: int| 0 <= n < p.len() implies p[n] == l[n] by {
            assert(l.subrange(0, p.len() as int) =~= p);
        }
        if y.len() < x.len() {
            assert(l[y.len() as int] == x[y.len() as int]);
            assert(x.contains('='));
        } else if y.len() > x.len() {
            assert(p[x.len() as int] == y[x.len() as int]);
            assert(y.contains('='));
        }
        assert(x =~= y) by {
            assert forall|n: int| 0 <= n < x.len() implies x[n] == y[n] by {
                assert(l[n] == x[n] && p[n] == y[n]);
            }
        }
    }
}

/// A pair of another key that hides no line of this one has none.
proof fn lemma_pair_without(a: Key, k: Key, v: Seq<char>)
    requires
        a != k,
        !hides(v, k),
    ensures
        ({
            let ls = text::lines(line_of(key_text(a), v) + seq!['\n']);
            forall|i: int| 0 <= i < ls.len() ==> !starts_line(#[trigger] ls[i], k)
        }),
{
    lemma_key_of(a);
    lemma_key_of(k);
    let x = key_text(a);
    let l = line_of(x, v);
    let t = l + seq!['\n'];
    let p = key_text(k) + seq!['='];
    assert forall|n: int| 0 <= n < p.len() implies p[n] != '\n' by {
        if n < key_text(k).len() {
            assert(p[n] == key_text(k)[n]);
            assert(key_text(k).contains(key_text(k)[n]));
        }
    }
    lemma_other_key(a, k, v + seq!['\n']);
    assert(t =~= line_of(x, v + seq!['\n']));
    assert forall|i: int| 0 <= i < t.len() && #[trigger] t[i] == '\n' implies !starts_line(t.skip(i + 1), k) by {
        let rest = t.skip(i + 1);
        if starts_line(rest, k) {
            assert forall|n: int| 0 <= n < p.len() implies p[n] == rest[n] by {
                assert(rest.subrange(0, p.len() as int) =~= p);
            }
            if i < x.len() {
                assert(x[i] == '\n');
                assert(x.contains('\n'));
            }
            let j = i - x.len() - 1;
            assert(0 <= j < v.len() && v[j] == '\n');
            let own = v.skip(j + 1);
            assert(rest =~= own + seq!['\n']);
            if p.len() > own.len() {
                assert(p[own.len() as int] == '\n');
            }
            assert(own.subrange(0, p.len() as int) =~= p);
            assert(starts_line(own, k));
        }
    }
    lemma_no_line_starts(t, k);
}

/// Pairs of other keys that hide no line of this one have none.
proof fn lemma_pairs_without(e: Seq<(Seq<char>, Seq<char>)>, keys: Seq<Key>, k: Key)
    requires
        keys.len() == e.len(),
        forall|n: int| 0 <= n < e.len() ==> (#[trigger] e[n]).0 == key_text(keys[n]) && keys[n] != k && !hides(e[n].1, k),
    ensures
        forall|i: int| 0 <= i < text::lines(body(e)).len() ==> !starts_line(#[trigger] text::lines(body(e))[i], k),
    decreases e.len(),
{
    if e.len() > 0 {
        let d = e.drop_last();
        let (t, v) = e.last();
        assert(e[e.len() - 1].0 == key_text(keys.last()) && keys[e.len() - 1] != k);
        assert forall|n: int| 0 <= n < d.len() implies (#[trigger] d[n]).0 == key_text(keys.drop_last()[n])
            && keys.drop_last()[n] != k && !hides(d[n].1, k) by {
            assert(d[n] == e[n]);
        }
        lemma_pairs_without(d, keys.drop_last(), k);
        let own = line_of(t, v) + seq!['\n'];
        assert(body(e) =~= body(d) + own);
        lemma_body_ends(d);
        lemma_lines_join(body(d), own);
        lemma_pair_without(keys.last(), k, v);
        let (x, y) = (text::lines(body(d)), text::lines(own));
        assert forall|i: int| 0 <= i < text::lines(body(e)).len() implies !starts_line(#[trigger] text::lines(body(e))[i], k) by {
            if i < x.len() {
                assert(text::lines(body(e))[i] == x[i]);
            } else {
                assert(text::lines(body(e))[i] == y[i - x.len()]);
            }
        }
    }
}

proof fn lemma_unbroken_hides_nothing(v: Seq<char>, k: Key)
    requires
        unbroken(v),
    ensures
        !hides(v, k),
{
    assert forall|i: int| 0 <= i < v.len() implies v[i] != '\n' by {
        assert(v.contains(v[i]));
    }
}

/// The pairs hide no more than the layout's own texts do.
proof fn lemma_nothing_sheltered(u: Ui, left: Seq<char>, right: Seq<char>, sizes: Seq<char>, k: Key)
    requires
        !hidden_in(u, k),
        unbroken(left),
        unbroken(right),
        unbroken(sizes),
        json_ok(u.recent_fonts),
        json_ok(u.material_folders),
    ensures
        !sheltered(pairs(u, left, right, sizes), k),
{
    let plain = Ui {
        dock_left: seq![],
        dock_right: seq![],
        prop_hidden: seq![],
        win: seq![],
        material_uses: seq![],
        color_history: seq![],
        ..u
    };
    let e = pairs(u, left, right, sizes);
    let f = pairs(plain, left, right, sizes);
    lemma_pairs_unbroken(plain, left, right, sizes);
    assert forall|n: int| 0 <= n < e.len() implies !hides((#[trigger] e[n]).1, k) by {
        assert(f.len() == e.len());
        assert(unbroken(f[n].1));
        lemma_unbroken_hides_nothing(f[n].1, k);
    }
}

/// As many readings as there are lines.
spec fn reads_for(n: nat) -> Seq<Read> {
    Seq::new(n, |i: int| Read { width: None, sizes: None })
}

/// The keys of the lines in front of the figure shelf.
spec fn front_keys(u: Ui) -> Seq<Key> {
    Seq::new((19 + gpu_line(u)) as nat, |i: int| key_at(u, i))
}

/// The figure shelf comes back from a layout that was saved, whatever the other
/// texts hold: its line is the last but one and decides. Where none of them
/// hides such a line, it is the only one.
pub proof fn law_the_figure_shelf_comes_back(u: Ui, left: Seq<char>, right: Seq<char>, sizes: Seq<char>, rs: Seq<Read>)
    requires
        unbroken(sizes),
        rs.len() == text::lines(body(pairs(u, left, right, sizes))).len(),
    ensures
        ({
            let ls = text::lines(body(pairs(u, left, right, sizes)));
            let b = usable(apply_lines(fresh(LEFT_W, RIGHT_W), ls, rs));
            &&& ls.len() >= 2
            &&& starts_line(ls[ls.len() - 2], Key::FigurePresets)
            &&& b.figure_presets == carried(text::without(u.figure_presets, '\n'))
            &&& tidy(u.figure_presets) ==> b.figure_presets == u.figure_presets
            &&& !sheltered(pairs(u, left, right, sizes), Key::FigurePresets) ==> forall|i: int|
                0 <= i < ls.len() ==> (#[trigger] starts_line(ls[i], Key::FigurePresets) <==> i == ls.len() - 2)
        }),
{
    let k = Key::FigurePresets;
    let e = pairs(u, left, right, sizes);
    let o = gpu_line(u);
    let m = 19 + o;
    let front = e.take(m);
    let shelf = text::without(u.figure_presets, '\n');
    let back = seq![(key_text(k), shelf), (key_text(Key::SubToolSizePx), sizes)];
    assert(e =~= front + back);
    assert(back.drop_last() =~= seq![(key_text(k), shelf)]);
    assert(back.drop_last().drop_last() =~= Seq::<(Seq<char>, Seq<char>)>::empty());
    lemma_body_join(front, back);
    lemma_body_ends(front);
    lemma_lines_join(body(front), body(back));
    lemma_without_is_unbroken(u.figure_presets);
    lemma_key_of(k);
    lemma_key_of(Key::SubToolSizePx);
    assert(body(back) + seq![] =~= body(back));
    lemma_lines_of(back, seq![]);
    let a = line_of(key_text(k), text::chomp(shelf));
    let z = line_of(key_text(Key::SubToolSizePx), text::chomp(sizes));
    let fl = text::lines(body(front));
    let ls = text::lines(body(e));
    assert(lines_of_pairs(chomped(back)) + text::lines(seq![]) =~= seq![a, z]);
    assert(ls =~= fl + seq![a, z]);
    lemma_chomp_unbroken(shelf);
    lemma_chomp_unbroken(sizes);
    let start = fresh(LEFT_W, RIGHT_W);
    let u1 = apply_lines(start, ls.drop_last().drop_last(), rs.drop_last().drop_last());
    assert(ls.drop_last().last() == a && ls.last() == z);
    lemma_apply_key(u1, k, text::chomp(shelf), rs.drop_last().last());
    let u2 = set_key(u1, k, text::chomp(shelf), rs.drop_last().last());
    assert(apply_lines(start, ls.drop_last(), rs.drop_last()) == u2);
    lemma_apply_key(u2, Key::SubToolSizePx, text::chomp(sizes), rs.last());
    if tidy(u.figure_presets) {
        text::lemma_without_none(u.figure_presets, '\n');
    }
    assert(starts_line(a, k)) by {
        let p = key_text(k) + seq!['='];
        assert(a.subrange(0, p.len() as int) =~= p);
    }
    lemma_other_key(Key::SubToolSizePx, k, text::chomp(sizes));
    if !sheltered(e, k) {
        let keys = front_keys(u);
        assert forall|j: int| 0 <= j < front.len() implies (#[trigger] front[j]).0 == key_text(keys[j]) && keys[j] != k
            && !hides(front[j].1, k) by {
            assert(front[j] == e[j]);
            lemma_key_at(u, left, right, sizes, j);
        }
        lemma_pairs_without(front, keys, k);
        assert forall|i: int| 0 <= i < ls.len() implies (#[trigger] starts_line(ls[i], k) <==> i == ls.len() - 2) by {
            if i < fl.len() {
                assert(ls[i] == fl[i]);
            }
        }
    }
}

proof fn lemma_chomp_unbroken(v: Seq<char>)
    requires
        unbroken(v),
    ensures
        unbroken(text::chomp(v)),
{
    let c = text::chomp(v);
    if c.contains('\n') {
        let i = choose|i: int| 0 <= i < c.len() && c[i] == '\n';
        assert(v[i] == '\n');
    }
}

proof fn lemma_body_join(a: Seq<(Seq<char>, Seq<char>)>, b: Seq<(Seq<char>, Seq<char>)>)
    ensures
        body(a + b) == body(a) + body(b),
    decreases b.len(),
{
    if b.len() == 0 {
        assert(a + b =~= a);
        assert(body(a) + body(b) =~= body(a));
    } else {
        assert((a + b).drop_last() =~= a + b.drop_last());
        lemma_body_join(a, b.drop_last());
        assert(body(a + b) =~= body(a) + body(b));
    }
}

/// Every setting has a line of its own, under its own name.
pub proof fn law_settings_have_their_names(k: Key, other: Key)
    ensures
        key_of("left_w"@) == Some(Key::LeftW),
        key_of("right_w"@) == Some(Key::RightW),
        key_of("dock_left"@) == Some(Key::DockLeft),
        key_of("dock_right"@) == Some(Key::DockRight),
        key_of("prop_hidden"@) == Some(Key::PropHidden),
        key_of("win"@) == Some(Key::Win),
        key_of("gpu_dabs"@) == Some(Key::GpuDabs),
        key_of("recent_fonts"@) == Some(Key::RecentFonts),
        key_of("material_folders"@) == Some(Key::MaterialFolders),
        key_of("material_uses"@) == Some(Key::MaterialUses),
        key_of("quick_pins"@) == Some(Key::QuickPins),
        key_of("workspaces"@) == Some(Key::Workspaces),
        key_of("workspace_current"@) == Some(Key::WorkspaceCurrent),
        key_of("touch_gestures"@) == Some(Key::TouchGestures),
        key_of("color_history"@) == Some(Key::ColorHistory),
        key_of("auto_swatch"@) == Some(Key::AutoSwatch),
        key_of("reader_page"@) == Some(Key::ReaderPage),
        key_of("guides_hidden"@) == Some(Key::GuidesHidden),
        key_of("test_stroke_hidden"@) == Some(Key::TestStrokeHidden),
        key_of("gradients"@) == Some(Key::Gradients),
        key_of("figure_presets"@) == Some(Key::FigurePresets),
        key_of("sub_tool_size_px"@) == Some(Key::SubToolSizePx),
        key_of(key_text(k)) == Some(k),
        key_text(k) == key_text(other) ==> k == other,
{
    lemma_key_of(k);
    lemma_key_of(other);
    lemma_key_of(Key::LeftW);
    lemma_key_of(Key::RightW);
    lemma_key_of(Key::DockLeft);
    lemma_key_of(Key::DockRight);
    lemma_key_of(Key::PropHidden);
    lemma_key_of(Key::Win);
    lemma_key_of(Key::GpuDabs);
    lemma_key_of(Key::RecentFonts);
    lemma_key_of(Key::MaterialFolders);
    lemma_key_of(Key::MaterialUses);
    lemma_key_of(Key::QuickPins);
    lemma_key_of(Key::Workspaces);
    lemma_key_of(Key::WorkspaceCurrent);
    lemma_key_of(Key::TouchGestures);
    lemma_key_of(Key::ColorHistory);
    lemma_key_of(Key::AutoSwatch);
    lemma_key_of(Key::ReaderPage);
    lemma_key_of(Key::GuidesHidden);
    lemma_key_of(Key::TestStrokeHidden);
    lemma_key_of(Key::Gradients);
    lemma_key_of(Key::FigurePresets);
    lemma_key_of(Key::SubToolSizePx);
}

/// A line sets the setting that it names, to what stands behind the sign, and no
/// other: texts as they are or trimmed, switches on by a one alone, numbers where
/// they can be read.
pub proof fn law_a_line_sets_its_own_setting(u: Ui, k: Key, v: Seq<char>, r: Read)
    requires
        !v.contains('\n'),
    ensures
        ({
            let now = apply_line(u, key_text(k) + seq!['='] + v, r);
            &&& now.left_w == (if k is LeftW { if r.width is Some { r.width->0 } else { u.left_w } } else { u.left_w })
            &&& now.right_w == (if k is RightW { if r.width is Some { r.width->0 } else { u.right_w } } else { u.right_w })
            &&& now.dock_left == (if k is DockLeft { v } else { u.dock_left })
            &&& now.dock_right == (if k is DockRight { v } else { u.dock_right })
            &&& now.prop_hidden == (if k is PropHidden { text::trim(v) } else { u.prop_hidden })
            &&& now.win == (if k is Win { text::trim(v) } else { u.win })
            &&& now.gpu_dabs == (if k is GpuDabs { text::trim(v) == "1"@ } else { u.gpu_dabs })
            &&& now.gpu_dabs_explicit == (if k is GpuDabs { true } else { u.gpu_dabs_explicit })
            &&& now.recent_fonts == (if k is RecentFonts { if json_list(v) is Some { json_list(v)->0 } else { u.recent_fonts } } else { u.recent_fonts })
            &&& now.material_folders == (if k is MaterialFolders { if json_list(v) is Some { json_list(v)->0 } else { u.material_folders } } else { u.material_folders })
            &&& now.material_uses == (if k is MaterialUses { v } else { u.material_uses })
            &&& now.quick_pins == (if k is QuickPins { text::trim(v) } else { u.quick_pins })
            &&& now.workspaces == (if k is Workspaces { text::trim(v) } else { u.workspaces })
            &&& now.workspace_current == (if k is WorkspaceCurrent { text::trim(v) } else { u.workspace_current })
            &&& now.color_history == (if k is ColorHistory { list_items(text::split(v, ',')) } else { u.color_history })
            &&& now.auto_swatch == (if k is AutoSwatch { text::trim(v) == "1"@ } else { u.auto_swatch })
            &&& now.guides_hidden == (if k is GuidesHidden { text::trim(v) == "1"@ } else { u.guides_hidden })
            &&& now.test_stroke_hidden == (if k is TestStrokeHidden { text::trim(v) == "1"@ } else { u.test_stroke_hidden })
            &&& now.gradients == (if k is Gradients { v } else { u.gradients })
            &&& now.figure_presets == (if k is FigurePresets { v } else { u.figure_presets })
            &&& now.sizes == (if k is SubToolSizePx { if r.sizes is Some { r.sizes->0 } else { u.sizes } } else { u.sizes })
            &&& !(k is TouchGestures) ==> now.touch_gestures == u.touch_gestures
            &&& !(k is ReaderPage) ==> now.reader_page == u.reader_page
            &&& k is TouchGestures ==> (match text::parse_nat(text::trim(v), 255) {
                Some(n) => now.touch_gestures == n,
                None => now.touch_gestures == 0,
            })
            &&& k is ReaderPage ==> (match text::parse_nat(text::trim(v), usize::MAX as nat) {
                Some(n) => now.reader_page == n,
                None => now.reader_page == u.reader_page,
            })
        }),
{
    lemma_apply_key(u, k, v, r);
}

/// The settings that are written as they are take no value over a line's end.
pub proof fn law_a_broken_value_is_not_taken(u: Ui, line: Seq<char>, r: Read, k: Key)
    requires
        line.contains('\n'),
        text::find(line, '=') < line.len(),
        key_of(text::trim(line.take(text::find(line, '=')))) == Some(k),
        k is DockLeft || k is DockRight || k is RecentFonts || k is MaterialFolders || k is MaterialUses || k is Gradients
            || k is FigurePresets || k is SubToolSizePx,
    ensures
        apply_line(u, line, r) == u,
{
}

/// A line that names no setting changes none.
pub proof fn law_a_line_without_a_sign_is_ignored(u: Ui, line: Seq<char>, r: Read)
    requires
        !line.contains('='),
    ensures
        apply_line(u, line, r) == u,
        foreign(line),
{
    text::lemma_find(line, '=');
    if text::find(line, '=') < line.len() {
        assert(line[text::find(line, '=')] == '=');
    }
}

/// The lines are taken in their order, so that the last one of a setting counts.
pub proof fn law_the_last_line_counts(u: Ui, ls: Seq<Seq<char>>, rs: Seq<Read>, l: Seq<char>, r: Read)
    requires
        ls.len() == rs.len(),
    ensures
        apply_lines(u, ls.push(l), rs.push(r)) == apply_line(apply_lines(u, ls, rs), l, r),
        apply_lines(u, seq![], seq![]) == u,
{
    assert(ls.push(l).drop_last() =~= ls);
    assert(rs.push(r).drop_last() =~= rs);
}

/// A size is kept where it is a finite number within its bounds; a later row of
/// the same key counts.
pub proof fn law_sizes_are_kept_within_bounds(rows: Seq<SizeRow>, row: SizeRow, min: u32, max: u32)
    requires
        max < 0x7f80_0000,
    ensures
        min <= row.px <= max ==> kept(rows.push(row), min, max) == kept(rows, min, max).push(row),
        row.px < min || row.px > max ==> kept(rows.push(row), min, max) == kept(rows, min, max),
        sizes_map(rows.push(row)) == sizes_map(rows).insert(row.key@, row.px),
        kept(seq![], min, max).len() == 0,
        sizes_map(seq![]) == Map::<Seq<char>, u32>::empty(),
{
    assert(rows.push(row).drop_last() =~= rows);
}

/// A list of texts holds the pieces between the commas, trimmed, without the
/// empty ones.
pub proof fn law_empty_pieces_are_left_out(pieces: Seq<Seq<char>>, p: Seq<char>)
    ensures
        text::trim(p).len() == 0 ==> list_items(pieces.push(p)) == list_items(pieces),
        text::trim(p).len() > 0 ==> list_items(pieces.push(p)) == list_items(pieces).push(text::trim(p)),
        list_items(seq![]).len() == 0,
{
    assert(pieces.push(p).drop_last() =~= pieces);
}

/// Nothing was saved: the columns have their own widths and everything else is
/// empty and off.
pub proof fn law_a_fresh_layout_is_empty()
    ensures
        ({
            let u = fresh(LEFT_W, RIGHT_W);
            &&& u.left_w == 0x433a_0000 && u.right_w == 0x4350_0000
            &&& u.dock_left.len() == 0 && u.dock_right.len() == 0 && u.prop_hidden.len() == 0 && u.win.len() == 0
            &&& !u.gpu_dabs && !u.gpu_dabs_explicit && !u.auto_swatch && !u.guides_hidden && !u.test_stroke_hidden
            &&& u.recent_fonts.len() == 0 && u.material_folders.len() == 0 && u.material_uses.len() == 0
            &&& u.quick_pins.len() == 0 && u.workspaces.len() == 0 && u.workspace_current.len() == 0
            &&& u.touch_gestures == 0 && u.reader_page == 0 && u.color_history.len() == 0
            &&& u.gradients.len() == 0 && u.figure_presets.len() == 0
            &&& u.sizes == Map::<Seq<char>, u32>::empty()
        }),
{
}

/// A width is held between its bounds, 150 or 160 and 420, and is the nearer of
/// them outside.
pub proof fn law_widths_are_held(u: Ui)
    ensures
        0x4316_0000 <= u.left_w <= 0x43d2_0000 ==> usable(u).left_w == u.left_w,
        0x43d2_0000 <= u.left_w <= 0x7f80_0000 ==> usable(u).left_w == 0x43d2_0000,
        u.left_w <= 0x4316_0000 ==> usable(u).left_w == 0x4316_0000,
        0x8000_0000 <= u.left_w <= 0xff80_0000 ==> usable(u).left_w == 0x4316_0000,
        0x4320_0000 <= u.right_w <= 0x43d2_0000 ==> usable(u).right_w == u.right_w,
        0x43d2_0000 <= u.right_w <= 0x7f80_0000 ==> usable(u).right_w == 0x43d2_0000,
        u.right_w <= 0x4320_0000 ==> usable(u).right_w == 0x4320_0000,
        0x8000_0000 <= u.right_w <= 0xff80_0000 ==> usable(u).right_w == 0x4320_0000,
        usable(u) == (Ui { left_w: usable(u).left_w, right_w: usable(u).right_w, ..u }),
{
}

/// A window lands on a monitor where they have a pixel in common.
pub proof fn law_a_window_lands_where_it_shows(g: WinGeom, m: ScreenRect, x: int, y: int)
    requires
        g.w > 0,
        g.h > 0,
        m.0 < m.2,
        m.1 < m.3,
    ensures
        g.x <= x < g.x + g.w && g.y <= y < g.y + g.h && m.0 <= x < m.2 && m.1 <= y < m.3 ==> lands_on(g, m),
        lands_on(g, m) ==> ({
            let px = if g.x > m.0 { g.x as int } else { m.0 as int };
            let py = if g.y > m.1 { g.y as int } else { m.1 as int };
            g.x <= px < g.x + g.w && g.y <= py < g.y + g.h && m.0 <= px < m.2 && m.1 <= py < m.3
        }),
{
}

/// The window's place is that of the first line that has one.
pub proof fn law_the_first_window_line_counts(ls: Seq<Seq<char>>, k: int, g: WinGeom)
    ensures
        0 <= k < ls.len() && win_line(ls[k]) == Some(g) && (forall|j: int| 0 <= j < k ==> win_line(#[trigger] ls[j]) is None)
            ==> first_win(ls) == Some(g),
        (forall|j: int| 0 <= j < ls.len() ==> win_line(#[trigger] ls[j]) is None) ==> first_win(ls) is None,
    decreases ls.len(),
{
    if ls.len() > 0 {
        law_the_first_window_line_counts(ls.skip(1), k - 1, g);
        if 0 < k < ls.len() && (forall|j: int| 0 <= j < k ==> win_line(#[trigger] ls[j]) is None) {
            assert(win_line(ls[0]) is None);
            assert(ls.skip(1)[k - 1] == ls[k]);
            assert forall|j: int| 0 <= j < k - 1 implies win_line(#[trigger] ls.skip(1)[j]) is None by {
                assert(win_line(ls[j + 1]) is None);
            }
        }
        if forall|j: int| 0 <= j < ls.len() ==> win_line(#[trigger] ls[j]) is None {
            assert(win_line(ls[0]) is None);
            assert forall|j: int| 0 <= j < ls.skip(1).len() implies win_line(#[trigger] ls.skip(1)[j]) is None by {
                assert(win_line(ls[j + 1]) is None);
            }
        }
    }
}

/// A window's place that was written under its name is found again.
pub proof fn law_a_window_line_is_read(g: WinGeom)
    ensures
        win_line("win="@ + geom_line(g)) == Some(g),
{
    lemma_key_of(Key::Win);
    reveal_strlit("win");
    reveal_strlit("win=");
    let l = "win="@ + geom_line(g);
    text::lemma_find_is(l, '=', 3);
    assert(l.take(3) =~= "win"@);
    assert(l.skip(4) =~= geom_line(g));
    lemma_geom_trimmed(g);
    law_win_round_trip(g);
}

proof fn lemma_geom_trimmed(g: WinGeom)
    ensures
        text::trim(geom_line(g)) == geom_line(g),
{
    let l = geom_line(g);
    let m: int = if g.max { 1 } else { 0 };
    text::lemma_dec_int_chars(g.x as int);
    text::lemma_dec_int_chars(m);
    assert(l[0] == text::dec_int(g.x as int)[0]);
    assert(l.last() == text::dec_int(m).last());
    text::lemma_trim_id(l);
}

} // verus!
