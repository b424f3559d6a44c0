//! The panels of a page and the order that they are read in.

use mn_app::app::{App, Stops, Tools};
use mn_app::doc::{CurveRuler, Document, FrameSet, Layer, LayerKind};
use mn_app::figure::LineOpts;
use mn_app::frames::{ReadingOrder, is_default_frame_name};
use mn_app::geom::{Colour, Pt, Size};
use mn_app::layer_defaults::LayerDefaults;
use mn_app::modes::{
    BalloonMode, FigureMode, FillMode, FrameMode, GradMode, ObjectMode, PanMode, SelectCombine,
    SelectMode, Tool,
};

fn no_lines() -> LineOpts {
    LineOpts {
        count: 0,
        width: 0,
        jitter: 0,
        taper: 0,
        gap_deg: 0,
        gap_px: 0,
        group: 0,
        group_gap: 0,
        jit_gap: 0,
        jit_len: 0,
        jit_width: 0,
        seed: 1,
    }
}

fn colour(r: f32, g: f32, b: f32) -> Colour {
    Colour { r: r.to_bits(), g: g.to_bits(), b: b.to_bits(), a: 1f32.to_bits() }
}

fn tools(tool: Tool) -> Tools {
    Tools {
        tool,
        fill_mode: FillMode::Click,
        select_mode: SelectMode::Rect,
        figure_mode: FigureMode::Line,
        grad_mode: GradMode::FgToBg,
        frame_mode: FrameMode::Folder,
        balloon_mode: BalloonMode::Ellipse,
        object_mode: ObjectMode::Object,
        object_combine: SelectCombine::New,
        pan_mode: PanMode::Hand,
        figure_adjust_angle: false,
        figure_fill: false,
        figure_focus: no_lines(),
        figure_stream: no_lines(),
        smart_shape_on: false,
        fill_live: false,
        active_color: colour(1.0, 0.0, 0.0),
        sub_color: colour(0.0, 0.0, 1.0),
        symmetric_lines: 2,
        grad_stops: Stops { mid: 31, opts: 32 },
        balloon_ink: 33,
        balloon_tail_kind: 34,
        balloon_tail_bend: 0.25f32.to_bits(),
    }
}

fn headless(tool: Tool) -> App {
    App::new(Document::new(Size { w: 400, h: 400 }), tools(tool), LayerDefaults::new())
}

fn pt(x: f32, y: f32) -> Pt {
    Pt { x: x.to_bits(), y: y.to_bits() }
}

fn add_layer(app: &mut App, name: &str, kind: LayerKind) -> usize {
    let id = app.doc.layers.iter().map(|l| l.id).max().unwrap_or(0) + 1;
    let mut l = Layer::raster(id, name);
    l.paintable = matches!(kind, LayerKind::Raster);
    l.kind = kind;
    app.doc.layers.push(l);
    app.doc.layers.len() - 1
}

fn frame_folder(app: &mut App, name: &str) -> usize {
    let li = add_layer(app, name, LayerKind::Frame(FrameSet { frames: 1, reading_pin: None, border_ruler: false }));
    app.doc.layers[li].folder = true;
    app.doc.touch();
    li
}

/// The geometric order, with pinned panels put where they are pinned: what the
/// core computes.
fn order(app: &App, rtl: &[usize]) -> ReadingOrder {
    let mut panels: Vec<usize> = rtl
        .iter()
        .copied()
        .filter(|&li| pin(app, li).is_none())
        .collect();
    let mut pinned: Vec<(u32, usize)> = rtl.iter().filter_map(|&li| pin(app, li).map(|p| (p, li))).collect();
    pinned.sort();
    for (p, li) in pinned {
        let at = (p as usize - 1).min(panels.len());
        panels.insert(at, li);
    }
    let n = panels.len();
    ReadingOrder { panels, ambiguous: vec![false; n] }
}

fn pin(app: &App, li: usize) -> Option<u32> {
    match &app.doc.layers[li].kind {
        LayerKind::Frame(fs) => fs.reading_pin,
        _ => None,
    }
}

#[test]
fn frames_renumber_by_reading_order_not_creation() {
    let mut app = headless(Tool::Pen);
    // Created LEFT first, RIGHT second: a reader from the right starts there.
    let tl = frame_folder(&mut app, "Frame 1");
    let tr = frame_folder(&mut app, "Frame 2");
    let rtl = [tr, tl];
    let o = order(&app, &rtl);
    app.renumber_frames(Vec::new(), o);
    assert_eq!(
        (app.doc.layers[tr].name.as_str(), app.doc.layers[tl].name.as_str()),
        ("Frame 1", "Frame 2"),
        "RTL: the top-right folder reads first regardless of creation order"
    );
    assert_eq!(app.frame_pos(tr), Some((1, false, false)));
    assert_eq!(app.frame_pos(tl), Some((2, false, false)));

    // A hand-typed name is the owner's: the number moves to the badge.
    app.doc.layers[tr].name = "splash".into();
    let o = order(&app, &rtl);
    app.renumber_frames(Vec::new(), o);
    assert_eq!(app.doc.layers[tr].name, "splash", "never clobbered");
    assert_eq!(app.frame_pos(tr).unwrap().0, 1, "the badge carries it");

    // A pin overrules the computed order and survives recompute.
    let pinned = ReadingOrder { panels: vec![tl, tr], ambiguous: vec![false, false] };
    app.frame_pin_step(tl, -1, Vec::new(), pinned); // TL pinned to reading position 1
    assert_eq!(pin(&app, tl), Some(1));
    assert_eq!(app.frame_pos(tl), Some((1, false, true)));
    assert_eq!(app.frame_pos(tr).unwrap().0, 2);
    let auto = ReadingOrder { panels: vec![tr, tl], ambiguous: vec![false, false] };
    app.frame_pin_clear(tl, Vec::new(), auto);
    assert_eq!(app.frame_pos(tl), Some((2, false, false)), "back to automatic");
}

/// Two frame folders side by side, with hand-typed names.
fn two_frame_folders() -> App {
    let mut app = headless(Tool::Pen);
    let a = frame_folder(&mut app, "alpha");
    let b = frame_folder(&mut app, "beta");
    let o = order(&app, &[b, a]);
    app.renumber_frames(Vec::new(), o);
    app
}

fn header(app: &App, name: &str) -> usize {
    app.doc.layers.iter().position(|l| l.name == name).expect("folder header")
}

/// Recomputes the order where it is stale, as the head of a frame does.
fn ensure(app: &mut App) {
    let o = order(app, &[header(app, "beta"), header(app, "alpha")]);
    app.ensure_frame_order(Vec::new(), o);
}

#[test]
fn adding_a_layer_does_not_leave_the_reading_order_pointing_at_strangers() {
    let mut app = two_frame_folders();
    let before = app.frames.order.as_ref().unwrap().panels.len();
    let (pos_a, pos_b) = (app.frame_pos(header(&app, "alpha")), app.frame_pos(header(&app, "beta")));
    assert_eq!((pos_a.unwrap().0, pos_b.unwrap().0), (2, 1), "RTL");

    // A layer inside alpha: every index at or above it shifts.
    let at = header(&app, "alpha");
    app.doc.layers.insert(at, Layer::raster(50, "Layer"));
    app.doc.touch();
    assert!(app.frame_order_stale());
    ensure(&mut app);

    let after = app.frames.order.as_ref().unwrap();
    assert_eq!(after.panels.len(), before, "same panels on the page");
    for &li in &after.panels {
        assert!(app.doc.layers[li].is_frame(), "panel {li} points at a layer that is not a frame folder");
    }
    assert_eq!(app.frame_pos(header(&app, "alpha")), pos_a);
    assert_eq!(app.frame_pos(header(&app, "beta")), pos_b);
}

#[test]
fn moving_a_folder_in_the_stack_keeps_each_badge_on_its_own_panel() {
    let mut app = two_frame_folders();
    let (pos_a, pos_b) = (app.frame_pos(header(&app, "alpha")), app.frame_pos(header(&app, "beta")));
    let from = header(&app, "alpha");
    let l = app.doc.layers.remove(from);
    app.doc.layers.push(l);
    app.doc.touch();
    ensure(&mut app);
    assert!(header(&app, "alpha") > header(&app, "beta"), "the move happened");
    assert_eq!(app.frame_pos(header(&app, "alpha")), pos_a);
    assert_eq!(app.frame_pos(header(&app, "beta")), pos_b);
}

#[test]
fn a_dropped_cache_comes_back_without_a_frame_command() {
    let mut app = two_frame_folders();
    app.frames.order = None;
    assert_eq!(app.frame_pos(header(&app, "beta")), None, "no cache, no badge");
    ensure(&mut app);
    assert_eq!(app.frame_pos(header(&app, "beta")).map(|p| p.0), Some(1));
}

#[test]
fn only_a_plain_numbered_name_is_a_default_name() {
    assert!(is_default_frame_name("Frame 1"));
    assert!(is_default_frame_name("Frame 120"));
    for s in ["Frame ", "Frame 3 — reaction", "frame 1", "Frame -1", "Frame 1 ", "splash", ""] {
        assert!(!is_default_frame_name(s), "{s:?}");
    }
}

#[test]
fn border_rulers_follow_the_panels_and_hand_drawn_ones_stay() {
    let mut app = headless(Tool::Pen);
    app.doc.rulers.curves.push(CurveRuler { pts: vec![pt(1.0, 1.0), pt(2.0, 2.0)] });
    app.sync_frame_rulers(vec![CurveRuler { pts: vec![pt(5.0, 5.0), pt(6.0, 6.0)] }]);
    assert_eq!(app.doc.rulers.curves.len(), 2);
    app.sync_frame_rulers(Vec::new());
    assert_eq!(app.doc.rulers.curves.len(), 1);
    assert_eq!(app.doc.rulers.curves[0].pts, [pt(1.0, 1.0), pt(2.0, 2.0)]);
}

#[test]
fn pin_steps_add_up_and_stop_at_the_first_place() {
    let mut app = headless(Tool::Pen);
    let a = frame_folder(&mut app, "Frame 1");
    let same = || ReadingOrder { panels: vec![1], ambiguous: vec![false] };
    app.renumber_frames(Vec::new(), same());
    app.frame_pin_step(a, 1, Vec::new(), same());
    assert_eq!(pin(&app, a), Some(2));
    app.frame_pin_step(a, 2, Vec::new(), same());
    assert_eq!(pin(&app, a), Some(4));
    app.frame_pin_step(a, -9, Vec::new(), same());
    assert_eq!(pin(&app, a), Some(1));
    assert!(app.work.dirty);
}

#[test]
fn the_order_is_found_from_the_folders_and_their_pins() {
    let mut app = headless(Tool::Pen);
    let a = frame_folder(&mut app, "alpha");
    add_layer(&mut app, "ink", LayerKind::Raster);
    let flat = add_layer(&mut app, "flat", LayerKind::Frame(FrameSet { frames: 1, reading_pin: Some(9), border_ruler: false }));
    let b = frame_folder(&mut app, "beta");
    if let LayerKind::Frame(fs) = &mut app.doc.layers[b].kind {
        fs.reading_pin = Some(2);
    }
    let found: Vec<(usize, Option<u32>)> = app.frame_folders().iter().map(|f| (f.layer, f.pin)).collect();
    assert_eq!(found, [(a, None), (b, Some(2))], "panels outside a folder do not count");
    assert!(!found.iter().any(|f| f.0 == flat));
}

#[test]
fn names_follow_the_badges_and_stay() {
    let mut app = headless(Tool::Pen);
    let a = frame_folder(&mut app, "Frame 7");
    let b = frame_folder(&mut app, "Frame 1");
    let c = frame_folder(&mut app, "splash");
    for _ in 0..2 {
        let o = order(&app, &[c, b, a]);
        app.renumber_frames(Vec::new(), o);
        let names: Vec<&str> = [a, b, c].iter().map(|&l| app.doc.layers[l].name.as_str()).collect();
        assert_eq!(names, ["Frame 3", "Frame 2", "splash"]);
        assert_eq!([a, b, c].map(|l| app.frame_pos(l).unwrap().0), [3, 2, 1]);
    }
}

#[test]
fn clearing_a_pin_gives_the_place_back() {
    let mut app = headless(Tool::Pen);
    let a = frame_folder(&mut app, "alpha");
    let b = frame_folder(&mut app, "beta");
    let o = order(&app, &[b, a]);
    app.renumber_frames(Vec::new(), o);
    let before = app.frame_pos(a);
    app.frame_pin_step(a, -1, Vec::new(), ReadingOrder { panels: vec![a, b], ambiguous: vec![false, false] });
    assert_eq!(app.frame_pos(a), Some((1, false, true)));
    app.frame_pin_clear(a, Vec::new(), ReadingOrder { panels: vec![b, a], ambiguous: vec![false, false] });
    assert_eq!(app.frame_pos(a), before);
    assert_eq!(pin(&app, a), None);
}

#[test]
fn a_border_ruler_is_taken_back_by_the_numbers_of_its_points() {
    let mut app = headless(Tool::Pen);
    frame_folder(&mut app, "alpha");
    let line = |x: f32| CurveRuler { pts: vec![pt(x, 1.0), pt(2.0, 2.0)] };
    let o = order(&app, &[1]);
    app.renumber_frames(vec![line(0.0)], o);
    assert_eq!(app.doc.rulers.curves.len(), 1);
    app.doc.rulers.curves[0] = line(-0.0);
    let o = order(&app, &[1]);
    app.renumber_frames(Vec::new(), o);
    assert!(app.doc.rulers.curves.is_empty(), "the two zeros are one");
}
