//! Rulers that are placed and moved.

use mn_app::app::{App, Stops, Tools};
use mn_app::canvas_input::RulerGrab;
use mn_app::doc::Document;
use mn_app::figure::LineOpts;
use mn_app::geom::{Colour, Pt, Size};
use mn_app::layer_defaults::LayerDefaults;
use mn_app::modes::{
    BalloonMode, FigureMode, FillMode, FrameMode, GradMode, ObjectMode, PanMode, RulerKind,
    SelectCombine, SelectMode, Tool,
};
use mn_app::rulers::{RulerFacts, RulerPress, RulerRelease};

fn no_lines() -> LineOpts {
    LineOpts {
        count: 0,
        width: 0,
        jitter: 0,
        taper: 0,
        gap_deg: 0,
        gap_px: 0,
        group: 0,
        group_gap: 0,
        jit_gap: 0,
        jit_len: 0,
        jit_width: 0,
        seed: 1,
    }
}

fn colour(r: f32, g: f32, b: f32) -> Colour {
    Colour { r: r.to_bits(), g: g.to_bits(), b: b.to_bits(), a: 1f32.to_bits() }
}

fn tools(tool: Tool) -> Tools {
    Tools {
        tool,
        fill_mode: FillMode::Click,
        select_mode: SelectMode::Rect,
        figure_mode: FigureMode::Line,
        grad_mode: GradMode::FgToBg,
        frame_mode: FrameMode::Folder,
        balloon_mode: BalloonMode::Ellipse,
        object_mode: ObjectMode::Object,
        object_combine: SelectCombine::New,
        pan_mode: PanMode::Hand,
        figure_adjust_angle: false,
        figure_fill: false,
        figure_focus: no_lines(),
        figure_stream: no_lines(),
        smart_shape_on: false,
        fill_live: false,
        active_color: colour(1.0, 0.0, 0.0),
        sub_color: colour(0.0, 0.0, 1.0),
        symmetric_lines: 2,
        grad_stops: Stops { mid: 31, opts: 32 },
        balloon_ink: 33,
        balloon_tail_kind: 34,
        balloon_tail_bend: 0.25f32.to_bits(),
    }
}

fn headless(tool: Tool) -> App {
    App::new(Document::new(Size { w: 400, h: 400 }), tools(tool), LayerDefaults::new())
}

fn pt(x: f32, y: f32) -> Pt {
    Pt { x: x.to_bits(), y: y.to_bits() }
}

fn facts(tiny: bool) -> RulerFacts {
    RulerFacts { tiny, short: tiny, free_rings: false, rings: "40".to_string(), ruler: 12 }
}

fn pending(kind: RulerKind) -> App {
    let mut app = headless(Tool::Pen);
    app.doc.rulers.on = false;
    app.rulers.pending = Some(kind);
    app
}

#[test]
fn a_drag_places_a_ruler_and_turns_snapping_on() {
    let mut app = pending(RulerKind::Line);
    assert_eq!(app.ruler_press(pt(10.0, 10.0), false), RulerPress::Taken);
    assert_eq!(app.ruler_release(facts(false)), RulerRelease::Taken);
    assert_eq!(app.doc.rulers.items.len(), 1);
    assert_eq!((app.doc.rulers.items[0].kind, app.doc.rulers.items[0].at), (RulerKind::Line, 12));
    assert!(app.doc.rulers.on);
    assert_eq!(app.doc.undo_labels, ["Add ruler"]);
    assert_eq!(app.shell.status, "ruler created — snapping on");
    assert!(app.rulers.pending.is_none());
}

#[test]
fn a_drag_that_is_too_short_places_none() {
    for (kind, says) in [
        (RulerKind::Line, "drag further to draw a line ruler"),
        (RulerKind::Parallel, "drag further to set the direction"),
        (RulerKind::Symmetric, "drag outward from the symmetry centre"),
        (RulerKind::Perspective, "drag the horizon — both ends become vanishing points"),
        (RulerKind::Perspective1, "drag from the vanishing point along the eye level"),
    ] {
        let mut app = pending(kind);
        app.ruler_press(pt(10.0, 10.0), false);
        assert_eq!(app.ruler_release(facts(true)), RulerRelease::Taken);
        assert_eq!(app.shell.status, says);
        assert!(app.doc.rulers.items.is_empty());
    }
}

#[test]
fn special_rulers_say_what_they_do() {
    let mut app = pending(RulerKind::Symmetric);
    app.ruler_press(pt(10.0, 10.0), false);
    assert_eq!(app.ruler_release(facts(false)), RulerRelease::RebuildTwins);
    assert_eq!(app.shell.status, "symmetric ruler — 2 lines, mirroring ON");
    let mut app = pending(RulerKind::Concentric);
    app.ruler_press(pt(10.0, 10.0), false);
    app.ruler_release(facts(false));
    assert_eq!(app.shell.status, "concentric ruler — rings every 40 px");
}

#[test]
fn a_curve_ruler_is_clicked_and_finished_with_a_double_click() {
    let mut app = pending(RulerKind::Curve);
    for (x, y) in [(10.0, 10.0), (50.0, 20.0), (90.0, 10.0)] {
        app.ruler_press(pt(x, y), false);
        app.ruler_release(facts(true));
    }
    assert_eq!(app.rulers.curve.as_ref().map(Vec::len), Some(3), "a release keeps the curve");
    app.ruler_press(pt(90.0, 10.0), true);
    assert!(app.rulers.pending.is_none());
    assert_eq!(app.doc.rulers.curves.len(), 1);
    assert_eq!(app.doc.rulers.curves[0].pts.len(), 3);
}

#[test]
fn a_ruler_is_taken_and_moved() {
    let mut app = headless(Tool::Object);
    assert!(!app.ruler_grab(None, pt(0.0, 0.0), None));
    assert!(app.ruler_grab(Some((0, RulerGrab::Body)), pt(1.0, 1.0), None));
    assert_eq!(app.shell.status, "ruler — drag to move the whole ruler");
    let m = app.ruler_drag_move(pt(2.0, 2.0), true, None).expect("a move");
    assert_eq!((m.ruler, m.last), (0, pt(1.0, 1.0)));
    assert_eq!(app.ruler_drop(true), RulerRelease::Taken);
    assert!(app.rulers.moving.is_none());
}

#[test]
fn a_press_alone_is_no_move() {
    let mut app = headless(Tool::Object);
    app.ruler_grab(Some((0, RulerGrab::Anchor(1))), pt(1.0, 1.0), None);
    app.ruler_drag_move(pt(1.0, 1.0), false, None);
    assert!(!app.rulers.moving.unwrap().moved);
    let steps = app.doc.undo_labels.len();
    app.ruler_drop(false);
    assert_eq!(app.doc.undo_labels.len(), steps);
}
