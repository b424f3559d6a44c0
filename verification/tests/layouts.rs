//! The palette layout and its file.

use mn_app::layout::{LEFT_W, LineRead, RIGHT_W, ReadSizes, SaveLayout, SizeRow, UiLayout, WinGeom, Written, peek_win};
use std::collections::BTreeMap;

fn fresh() -> UiLayout {
    UiLayout::new(LEFT_W, RIGHT_W)
}

/// What a line's value reads as where that takes floating point.
fn read(line: &str) -> LineRead {
    let v = line.split_once('=').map(|(_, v)| v).unwrap_or("");
    LineRead {
        width: v.trim().parse::<f32>().ok().map(|w| w.to_bits()),
        sizes: serde_json::from_str::<BTreeMap<String, f32>>(v).ok().map(|m| ReadSizes {
            rows: m.into_iter().map(|(key, px)| SizeRow { key, px: px.to_bits() }).collect(),
            min: 0.5f32.to_bits(),
            max: 2000f32.to_bits(),
        }),
    }
}

fn apply(me: &mut UiLayout, line: &str) {
    me.apply_kv(line, read(line));
}

/// The floating-point parts of a layout in writing.
fn written(me: &UiLayout) -> Written {
    let sizes: BTreeMap<&str, f32> =
        me.sub_tool_size_px.iter().map(|r| (r.key.as_str(), f32::from_bits(r.px))).collect();
    Written {
        left_w: format!("{:.0}", f32::from_bits(me.left_w)),
        right_w: format!("{:.0}", f32::from_bits(me.right_w)),
        sizes: serde_json::to_string(&sizes).unwrap(),
    }
}

fn body(me: &UiLayout) -> String {
    me.to_body(&written(me))
}

fn load(body: &str) -> UiLayout {
    UiLayout::from_body(body, body.lines().map(read).collect())
}

fn size(me: &UiLayout, key: &str) -> Option<f32> {
    me.sub_tool_size_px.iter().find(|r| r.key == key).map(|r| f32::from_bits(r.px))
}

fn note_size(me: &mut UiLayout, key: &str, px: Option<f32>) {
    me.note_sub_tool_size(key, px.map(f32::to_bits));
}

#[test]
fn win_geom_line_roundtrip() {
    let g = WinGeom { x: -1920, y: 37, w: 1280, h: 860, max: true };
    assert_eq!(WinGeom::parse(&g.to_line()), Some(g));
    let g2 = WinGeom { x: 5, y: 6, w: 700, h: 500, max: false };
    assert_eq!(WinGeom::parse(&g2.to_line()), Some(g2));
}

#[test]
fn win_geom_parse_junk() {
    assert_eq!(WinGeom::parse(""), None);
    assert_eq!(WinGeom::parse("1,2,3"), None);
    assert_eq!(WinGeom::parse("a,b,c,d,e"), None);
    assert_eq!(WinGeom::parse("1,2,3,4,5,6"), None);
}

#[test]
fn win_geom_fits_monitor_rules() {
    let monitors = [(0, 0, 1920, 1080), (1920, 0, 3840, 1080)];
    let on_second = WinGeom { x: 2000, y: 10, w: 800, h: 600, max: false };
    let straddling = WinGeom { x: 1800, y: 0, w: 400, h: 600, max: false };
    assert!(on_second.fits_some_monitor(&monitors));
    assert!(straddling.fits_some_monitor(&monitors));
    // Saved on a monitor that is no longer connected.
    let gone = WinGeom { x: -1920, y: 0, w: 800, h: 600, max: false };
    assert!(!gone.fits_some_monitor(&monitors));
    // Degenerate sizes are not restored.
    let tiny = WinGeom { x: 0, y: 0, w: 100, h: 600, max: false };
    assert!(!tiny.fits_some_monitor(&monitors));
    assert!(!on_second.fits_some_monitor(&[]));
}

#[test]
fn no_multiplier_era_key_is_ever_read() {
    const OLD: [&str; 4] = ["size", "brush_size", "tool_size", "size_multiplier"];
    let mut me = fresh();
    let before = body(&me);
    for k in OLD {
        apply(&mut me, &format!("{k}=2.0"));
    }
    assert_eq!(before, body(&me), "stale size keys must change nothing");
    assert!(me.sub_tool_size_px.is_empty(), "and none of them may seed a sub tool's size");
    for k in OLD {
        assert!(
            !body(&me).lines().any(|l| l.starts_with(&format!("{k}="))),
            "the file must not persist a brush size under `{k}`"
        );
    }
}

#[test]
fn sub_tool_sizes_roundtrip_through_the_body() {
    let mut me = fresh();
    assert!(me.sub_tool_size_px.is_empty(), "nothing until the user acts");
    note_size(&mut me, "csp/g-pen.myb", Some(37.5));
    assert!(me.dirty);
    // An untouched sub tool is an ABSENT entry, not a written default.
    note_size(&mut me, "mypaint/pen.myb", None);
    assert_eq!(me.sub_tool_size_px.len(), 1);

    let text = body(&me);
    assert!(
        text.contains("\nsub_tool_size_px={\"csp/g-pen.myb\":37.5}\n"),
        "one JSON line, `/`-separated relative keys: {text}"
    );

    let mut back = load(&text);
    assert_eq!(size(&back, "csp/g-pen.myb"), Some(37.5));
    assert_eq!(size(&back, "mypaint/pen.myb"), None);
    assert!(!back.dirty, "a fresh load is not a pending save");

    // Re-noting the same size must not re-dirty a clean layout...
    note_size(&mut back, "csp/g-pen.myb", Some(37.5));
    assert!(!back.dirty);
    // ...and "back to the preset" removes the entry.
    note_size(&mut back, "csp/g-pen.myb", None);
    assert!(back.dirty && back.sub_tool_size_px.is_empty());
    let cleared = load(&body(&back));
    assert!(cleared.sub_tool_size_px.is_empty());

    // Junk: a mangled line costs the map, and entries out of range are dropped.
    let mut junk = fresh();
    apply(&mut junk, "sub_tool_size_px=not json");
    assert!(junk.sub_tool_size_px.is_empty());
    apply(&mut junk, r#"sub_tool_size_px={"a.myb":0,"b.myb":999999,"d.myb":24}"#);
    assert_eq!(junk.sub_tool_size_px.len(), 1, "only the sane entry lands");
    assert_eq!(size(&junk, "d.myb"), Some(24.0));
}

#[test]
fn gpu_dabs_roundtrips_through_the_body() {
    let mut me = fresh();
    assert!(!me.gpu_dabs, "default off");
    me.note_gpu_dabs(true);
    assert!(me.gpu_dabs);
    let text = body(&me);
    assert!(text.contains("\ngpu_dabs=1\n"), "{text}");

    let mut back = fresh();
    for line in text.lines() {
        apply(&mut back, line);
    }
    assert!(back.gpu_dabs, "the saved body must restore the switch");
    // `note` with the same value must not re-dirty a clean layout.
    back.dirty = false;
    back.note_gpu_dabs(true);
    assert!(!back.dirty);

    // An absent key keeps the default: off.
    let mut plain = fresh();
    apply(&mut plain, "left_w=200");
    assert!(!plain.gpu_dabs, "no gpu_dabs key = off");

    let mut junk = fresh();
    apply(&mut junk, "gpu_dabs=0");
    assert!(!junk.gpu_dabs);
    apply(&mut junk, "gpu_dabs=yes"); // anything but "1" stays off
    assert!(!junk.gpu_dabs);
    apply(&mut junk, "gpu_dabs=something-newer");
    assert!(!junk.gpu_dabs, "unknown values degrade to off, never on");
}

#[test]
fn an_untouched_gpu_dabs_key_is_not_written_back() {
    let me = fresh();
    let text = body(&me);
    assert!(!text.contains("gpu_dabs="), "an unchosen switch must not be written down: {text}");
    let mut back = fresh();
    for line in text.lines() {
        apply(&mut back, line);
    }
    assert!(!back.gpu_dabs_explicit, "a round trip must not forge a choice");

    // Using the toggle IS the choice, even when it picks the value that the
    // layout already held.
    let mut chose_off = fresh();
    chose_off.note_gpu_dabs(false);
    assert!(chose_off.gpu_dabs_explicit);
    assert!(chose_off.dirty, "the choice must reach the disk");
    assert!(body(&chose_off).contains("\ngpu_dabs=0\n"));
}

#[test]
fn recent_fonts_roundtrip_through_the_body() {
    let mut me = fresh();
    assert!(me.recent_fonts.is_empty());
    let fonts: Vec<String> = ["源暎アンチックv5", "Meiryo", "Yu Gothic"].map(|s| s.to_string()).to_vec();
    me.note_recent_fonts(&fonts);
    let text = body(&me);
    assert!(
        text.lines().any(|l| l.starts_with("recent_fonts=") && l.contains("源暎")),
        "one line, JP intact: {text}"
    );

    let mut back = fresh();
    for line in text.lines() {
        apply(&mut back, line);
    }
    assert_eq!(back.recent_fonts, fonts, "the body restores the list");

    // Junk / non-array values leave the current list alone.
    let mut junk = fresh();
    apply(&mut junk, "recent_fonts=[not json");
    assert!(junk.recent_fonts.is_empty());
    apply(&mut junk, "recent_fonts=\"scalar\"");
    assert!(junk.recent_fonts.is_empty());

    // `note` with the same list must not re-dirty a clean layout.
    back.dirty = false;
    back.note_recent_fonts(&fonts);
    assert!(!back.dirty);
}

#[test]
fn color_history_and_auto_swatch_roundtrip_through_the_body() {
    let mut me = fresh();
    assert!(me.color_history.is_empty());
    assert!(!me.auto_swatch, "picks do not join the set unless asked");

    let hist: Vec<String> = ["#000000", "#4f8cd2", "#ffffff"].map(|s| s.to_string()).to_vec();
    me.note_color_history(&hist);
    me.note_auto_swatch(true);
    let text = body(&me);
    assert!(text.contains("\ncolor_history=#000000,#4f8cd2,#ffffff\n"), "one line, newest first: {text}");
    assert!(text.contains("\nauto_swatch=1\n"), "{text}");

    let mut back = fresh();
    for line in text.lines() {
        apply(&mut back, line);
    }
    assert_eq!(back.color_history, hist);
    assert!(back.auto_swatch);

    // `note` with the same values must not re-dirty a clean layout.
    back.dirty = false;
    back.note_color_history(&hist);
    back.note_auto_swatch(true);
    assert!(!back.dirty);

    // An emptied history is a real state and must persist as one.
    back.note_color_history(&[]);
    assert!(back.dirty);
    let mut cleared = fresh();
    for line in body(&back).lines() {
        apply(&mut cleared, line);
    }
    assert!(cleared.color_history.is_empty());

    // Junk: blanks are dropped, the rest is carried and rejected later.
    let mut junk = fresh();
    apply(&mut junk, "color_history=,,#00ff00 , bananas,");
    assert_eq!(junk.color_history, ["#00ff00", "bananas"]);
    apply(&mut junk, "auto_swatch=yes");
    assert!(!junk.auto_swatch, "unknown values degrade to off, never on");
}

#[test]
fn guides_hidden_roundtrips_and_degrades_to_shown() {
    let mut me = fresh();
    assert!(!me.guides_hidden, "default: guides shown");
    me.note_guides_hidden(true);
    assert!(me.guides_hidden);
    let text = body(&me);
    assert!(text.contains("\nguides_hidden=1\n"), "{text}");

    let mut back = fresh();
    for line in text.lines() {
        apply(&mut back, line);
    }
    assert!(back.guides_hidden, "the saved body must restore the switch");
    back.dirty = false;
    back.note_guides_hidden(true);
    assert!(!back.dirty);
    back.note_guides_hidden(false);
    assert!(back.dirty && !back.guides_hidden);

    // A file of an older build has no such key: guides stay shown.
    let mut plain = fresh();
    apply(&mut plain, "left_w=200");
    assert!(!plain.guides_hidden, "no guides_hidden key = shown");

    let mut junk = fresh();
    for line in ["guides_hidden=0", "guides_hidden=yes", "guides_hidden="] {
        apply(&mut junk, line);
        assert!(!junk.guides_hidden, "{line} must not hide the guides");
    }
}

#[test]
fn test_stroke_fold_roundtrips_and_degrades_to_shown() {
    let mut me = fresh();
    assert!(!me.test_stroke_hidden, "default: the strip is shown");
    me.note_test_stroke_hidden(true);
    let text = body(&me);
    assert!(text.contains("\ntest_stroke_hidden=1\n"), "{text}");

    let mut back = fresh();
    for line in text.lines() {
        apply(&mut back, line);
    }
    assert!(back.test_stroke_hidden, "the saved body restores the fold");
    back.dirty = false;
    back.note_test_stroke_hidden(true);
    assert!(!back.dirty, "an unchanged fold must not re-dirty the file");

    let mut junk = fresh();
    for line in ["test_stroke_hidden=0", "test_stroke_hidden=no", "left_w=200"] {
        apply(&mut junk, line);
        assert!(!junk.test_stroke_hidden, "{line} must not fold the strip");
    }
}

#[test]
fn widths_are_held_within_reason_and_saved_when_they_moved() {
    let mut me = fresh();
    me.note_widths(200f32.to_bits(), 210f32.to_bits(), false);
    assert!(!me.dirty, "half a pixel is no move");
    me.note_widths(200f32.to_bits(), 210f32.to_bits(), true);
    assert!(me.dirty);
    assert_eq!(f32::from_bits(me.left_w), 200.0);
    match me.save_if_dirty(&written(&me)) {
        SaveLayout::Write(text) => assert!(text.starts_with("left_w=200\nright_w=210\n"), "{text}"),
        s => panic!("{s:?}"),
    }
    assert!(matches!(me.save_if_dirty(&written(&me)), SaveLayout::Nothing));
    let widths = |body: &str| {
        let me = load(body);
        assert!(!me.dirty);
        (f32::from_bits(me.left_w), f32::from_bits(me.right_w))
    };
    assert_eq!(widths("left_w=200\nright_w=210\n"), (200.0, 210.0));
    assert_eq!(widths("left_w=20\nright_w=20\n"), (150.0, 160.0));
    assert_eq!(widths("left_w=9000\nright_w=9000\n"), (420.0, 420.0));
    assert_eq!(widths("left_w=-7\nright_w=-0.0\n"), (150.0, 160.0));
    assert_eq!(widths("left_w=inf\nright_w=-inf\n"), (420.0, 160.0));
    assert_eq!(widths("left_w=junk\nright_w=155\n"), (186.0, 160.0));
    assert!(widths("left_w=NaN\n").0.is_nan());
}

#[test]
fn the_window_is_known_before_the_layout_is() {
    assert_eq!(
        peek_win("left_w=200\nwin= 5,6,700,500,0 \nauto_swatch=1\n"),
        Some(WinGeom { x: 5, y: 6, w: 700, h: 500, max: false })
    );
    assert_eq!(peek_win("left_w=200\n"), None);
    assert_eq!(peek_win("win=junk\n"), None);
}

#[test]
fn every_other_note_is_saved_on_change_only() {
    let mut me = fresh();
    me.note_docks("a", "b");
    me.note_prop_hidden("p");
    me.note_win("5,6,700,500,0");
    me.note_workspaces("w", "one");
    me.note_quick_pins("q");
    me.note_materials(&["f".to_string()], "{}");
    me.note_reader_page(7);
    me.note_gradients("[1]");
    me.note_figure_presets("[2]");
    assert!(me.dirty);
    let back = load(&body(&me));
    assert_eq!((back.dock_left.as_str(), back.dock_right.as_str()), ("a", "b"));
    assert_eq!(back.prop_hidden, "p");
    assert_eq!(back.win, "5,6,700,500,0");
    assert_eq!((back.workspaces.as_str(), back.workspace_current.as_str()), ("w", "one"));
    assert_eq!(back.quick_pins, "q");
    assert_eq!(back.material_folders, ["f"]);
    assert_eq!(back.reader_page, 7);
    assert_eq!((back.gradients.as_str(), back.figure_presets.as_str()), ("[1]", "[2]"));
    me.dirty = false;
    me.note_docks("a", "b");
    me.note_prop_hidden("p");
    me.note_win("5,6,700,500,0");
    me.note_workspaces("w", "one");
    me.note_quick_pins("q");
    me.note_materials(&["f".to_string()], "{}");
    me.note_reader_page(7);
    me.note_gradients("[1]");
    me.note_figure_presets("[2]");
    assert!(!me.dirty);
}

#[test]
fn sizes_change_by_their_numbers() {
    let mut me = fresh();
    note_size(&mut me, "a.myb", Some(0.0));
    me.dirty = false;
    note_size(&mut me, "a.myb", Some(-0.0));
    assert!(!me.dirty, "the two zeros are one");
    note_size(&mut me, "a.myb", Some(f32::NAN));
    assert!(me.dirty);
    me.dirty = false;
    note_size(&mut me, "a.myb", Some(f32::NAN));
    assert!(me.dirty, "what is no number equals nothing");
}

#[test]
fn an_emptied_shelf_of_figures_comes_back_empty() {
    let mut me = fresh();
    me.note_figure_presets("[1]");
    me.note_figure_presets("[]");
    let text = body(&me);
    assert_eq!(text.lines().filter(|l| l.starts_with("figure_presets=")).count(), 1, "{text}");
    assert_eq!(load(&text).figure_presets, "[]");
}

#[test]
fn the_figure_shelf_comes_back_whatever_the_other_texts_hold() {
    let mut me = fresh();
    me.note_figure_presets("[3]");
    me.note_docks("a\nfigure_presets=[9]", "b\nc");
    let text = body(&me);
    assert_eq!(load(&text).figure_presets, "[3]", "its own line is the later one");
    assert_eq!(text.lines().filter(|l| l.starts_with("figure_presets=")).count(), 2, "a text hid one");
    me.note_docks("a\n figure_presets", "b\nc");
    let text = body(&me);
    assert_eq!(text.lines().filter(|l| l.starts_with("figure_presets=")).count(), 1);
    assert_eq!(load(&text).figure_presets, "[3]");
}
