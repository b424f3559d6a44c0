//! Strokes that turn into shapes when the pen rests.

use mn_app::app::{App, Shape, Stops, Tools};
use mn_app::doc::{CurveRuler, Document};
use mn_app::figure::LineOpts;
use mn_app::geom::{Colour, Pt, PxBox, Size};
use mn_app::layer_defaults::LayerDefaults;
use mn_app::modes::{
    BalloonMode, FigureMode, FillMode, FrameMode, GradMode, ObjectMode, PanMode, SelectCombine,
    SelectMode, Tool,
};
use mn_app::smart_shape::{SmartEnd, SmartMove};

fn no_lines() -> LineOpts {
    LineOpts {
        count: 0,
        width: 0,
        jitter: 0,
        taper: 0,
        gap_deg: 0,
        gap_px: 0,
        group: 0,
        group_gap: 0,
        jit_gap: 0,
        jit_len: 0,
        jit_width: 0,
        seed: 1,
    }
}

fn colour(r: f32, g: f32, b: f32) -> Colour {
    Colour { r: r.to_bits(), g: g.to_bits(), b: b.to_bits(), a: 1f32.to_bits() }
}

fn tools(tool: Tool) -> Tools {
    Tools {
        tool,
        fill_mode: FillMode::Click,
        select_mode: SelectMode::Rect,
        figure_mode: FigureMode::Line,
        grad_mode: GradMode::FgToBg,
        frame_mode: FrameMode::Folder,
        balloon_mode: BalloonMode::Ellipse,
        object_mode: ObjectMode::Object,
        object_combine: SelectCombine::New,
        pan_mode: PanMode::Hand,
        figure_adjust_angle: false,
        figure_fill: false,
        figure_focus: no_lines(),
        figure_stream: no_lines(),
        smart_shape_on: false,
        fill_live: false,
        active_color: colour(1.0, 0.0, 0.0),
        sub_color: colour(0.0, 0.0, 1.0),
        symmetric_lines: 2,
        grad_stops: Stops { mid: 31, opts: 32 },
        balloon_ink: 33,
        balloon_tail_kind: 34,
        balloon_tail_bend: 0.25f32.to_bits(),
    }
}

fn headless(tool: Tool) -> App {
    App::new(Document::new(Size { w: 400, h: 400 }), tools(tool), LayerDefaults::new())
}

fn pt(x: f32, y: f32) -> Pt {
    Pt { x: x.to_bits(), y: y.to_bits() }
}

const CIRCLE: Shape = Shape { kind: 3, closed: true, path: 9 };

fn drawing() -> App {
    let mut app = headless(Tool::Pen);
    app.tools.smart_shape_on = true;
    let ops = app.doc.op_count;
    app.smart_shape_start(pt(0.0, 0.0), pt(0.0, 0.0), false, ops);
    app
}

#[test]
fn a_rested_stroke_becomes_its_shape() {
    let mut app = drawing();
    assert_eq!(app.smart_shape_move(pt(9.0, 0.0), pt(9.0, 0.0), false, true), SmartMove::Restarted);
    assert_eq!(app.smart_shape_move(pt(9.1, 0.0), pt(9.1, 0.0), false, false), SmartMove::Recorded);
    assert!(app.smart_wants_fit(true) && !app.smart_wants_fit(false));
    app.smart_shape_tick(true, Some(CIRCLE), "circle");
    assert_eq!(app.shell.status, "hold: release to make it a circle — keep moving to keep the stroke");
    assert!(!app.smart_wants_fit(true), "once per hold");
    app.doc.push_op("Brush");
    assert_eq!(app.finish_smart_shape(), SmartEnd::Swap(CIRCLE));
    app.smart_shape_swapped("circle", true);
    assert_eq!(
        app.shell.status,
        "smart shape: your stroke became a circle — drag to adjust it, Enter commits, Esc cancels"
    );
}

#[test]
fn no_shape_keeps_the_stroke() {
    let mut app = drawing();
    app.smart_shape_tick(true, None, "");
    assert_eq!(app.shell.status, "held, but that is not a shape — it stays as drawn");
    app.doc.push_op("Brush");
    assert_eq!(app.finish_smart_shape(), SmartEnd::Keep);
}

#[test]
fn a_snapped_stroke_stays_as_drawn() {
    let mut app = headless(Tool::Pen);
    app.tools.smart_shape_on = true;
    app.doc.rulers.curves.push(CurveRuler { pts: vec![pt(0.0, 0.0)] });
    assert!(app.rulers_deciding());
    app.smart_shape_start(pt(0.0, 0.0), pt(0.0, 0.0), false, 0);
    assert!(!app.smart_wants_fit(true));
    app.smart_shape_tick(true, Some(CIRCLE), "circle");
    assert_eq!(app.shell.status, "held, but this stroke is snapped — it stays as drawn");
    app.doc.push_op("Brush");
    assert_eq!(app.finish_smart_shape(), SmartEnd::Keep);
}

#[test]
fn only_the_stroke_itself_is_ever_taken_back() {
    let mut app = drawing();
    app.smart_shape_tick(true, Some(CIRCLE), "circle");
    // The stroke pushed nothing: the newest step is someone else's.
    assert_eq!(app.finish_smart_shape(), SmartEnd::Unclean);
}

#[test]
fn the_drag_behind_the_hold_adjusts_the_shape() {
    let mut app = drawing();
    app.smart_shape_tick(true, Some(CIRCLE), "circle");
    assert_eq!(app.smart_shape_move(pt(20.0, 0.0), pt(20.0, 0.0), false, true), SmartMove::Adjust);
    let bigger = Shape { path: 10, ..CIRCLE };
    app.smart_shape_adjust(bigger, "circle", true);
    assert_eq!(app.shell.status, "smart shape: circle — regular while Shift is held, release inks it");
    let g = app.figure.smart.as_ref().unwrap();
    assert!(g.armed());
    assert_eq!(g.preview(), Some(bigger));
    app.doc.push_op("Brush");
    assert_eq!(app.finish_smart_shape(), SmartEnd::Swap(bigger));
}

#[test]
fn a_shape_off_the_page_arms_no_transform() {
    let app = headless(Tool::Pen);
    assert!(app.arm_smart_transform(PxBox { l: 10, t: 10, r: 60, b: 60 }).is_some());
    assert!(app.arm_smart_transform(PxBox { l: 60, t: 10, r: 60, b: 60 }).is_none());
}
