//! What a press, a drag and a release mean.

use mn_app::app::{App, AppCmd, Stops, Tools, TransformDrag, TransformGesture, TransformGrab};
use mn_app::balloons::{BalloonDrop, BalloonFacts, TextMove};
use mn_app::canvas_input::{DownAct, GenDragMode, GenLinesDrag, Press, Route};
use mn_app::canvas_move::{HALF, Motion, MoveAct};
use mn_app::canvas_up::{Release, UpAct};
use mn_app::doc::{Document, LayerKind};
use mn_app::figure::{DragFacts, LineOpts, PolyHit};
use mn_app::geom::{Colour, Pt, Size};
use mn_app::layer_defaults::LayerDefaults;
use mn_app::modes::{
    BalloonMode, FigureMode, FillMode, FrameMode, GradMode, Mods, ObjectMode, PanMode,
    SelectCombine, SelectMode, SelectionOp, Tool,
};
use mn_app::panels::FrameDrop;
use mn_app::rulers::RulerFacts;
use mn_app::transform::FloatHit;

fn no_lines() -> LineOpts {
    LineOpts {
        count: 0,
        width: 0,
        jitter: 0,
        taper: 0,
        gap_deg: 0,
        gap_px: 0,
        group: 0,
        group_gap: 0,
        jit_gap: 0,
        jit_len: 0,
        jit_width: 0,
        seed: 1,
    }
}

fn colour(r: f32, g: f32, b: f32) -> Colour {
    Colour { r: r.to_bits(), g: g.to_bits(), b: b.to_bits(), a: 1f32.to_bits() }
}

fn tools(tool: Tool) -> Tools {
    Tools {
        tool,
        fill_mode: FillMode::Click,
        select_mode: SelectMode::Rect,
        figure_mode: FigureMode::Line,
        grad_mode: GradMode::FgToBg,
        frame_mode: FrameMode::Folder,
        balloon_mode: BalloonMode::Ellipse,
        object_mode: ObjectMode::Object,
        object_combine: SelectCombine::New,
        pan_mode: PanMode::Hand,
        figure_adjust_angle: false,
        figure_fill: false,
        figure_focus: no_lines(),
        figure_stream: no_lines(),
        smart_shape_on: false,
        fill_live: false,
        active_color: colour(1.0, 0.0, 0.0),
        sub_color: colour(0.0, 0.0, 1.0),
        symmetric_lines: 2,
        grad_stops: Stops { mid: 31, opts: 32 },
        balloon_ink: 33,
        balloon_tail_kind: 34,
        balloon_tail_bend: 0.25f32.to_bits(),
    }
}

fn headless(tool: Tool) -> App {
    App::new(Document::new(Size { w: 400, h: 400 }), tools(tool), LayerDefaults::new())
}

fn pt(x: f32, y: f32) -> Pt {
    Pt { x: x.to_bits(), y: y.to_bits() }
}

/// What the shell measures of a press at this point.
fn press(app: &App, x: f32, y: f32) -> Press {
    let pts = app.figure.poly.as_ref().map(|v| v.len()).unwrap_or(0);
    let far = 1000f32.to_bits();
    Press {
        screen: pt(x, y),
        at: pt(x, y),
        px: (x as i32, y as i32),
        mods: Mods { ctrl: false, alt: false, shift: false },
        op: SelectionOp::Replace,
        again: false,
        radius: 2f32.to_bits(),
        pressure: 1f32.to_bits(),
        in_selection: false,
        near: false,
        poly: PolyHit {
            anchors: vec![far; pts],
            lines: if pts < 2 { Vec::new() } else { vec![far; pts - 1] },
            tol: 10f32.to_bits(),
            dense: if pts < 2 { Vec::new() } else { vec![pt(0.0, 0.0); pts] },
        },
        float: FloatHit { pin: None, mesh_point: None, grab: TransformGrab::Move },
        size_px: 10f32.to_bits(),
        size_shown: "10 px".to_string(),
        warp: "liquify".to_string(),
    }
}

/// What the shell measures of a move to this point.
fn motion(x: f32, y: f32) -> Motion {
    Motion {
        screen: pt(x, y),
        at: pt(x, y),
        px: (x as i32, y as i32),
        shift: false,
        samples: Vec::new(),
        size_px: 20f32.to_bits(),
        size_shown: "20 px".to_string(),
        past: true,
        travelled: true,
        ruler_says: None,
        lattice: String::new(),
        border: pt(x, y),
        octant: pt(x, y),
        axis: pt(x, y),
        far: true,
        drifted: true,
    }
}

fn drag_facts(a: (f32, f32), b: (f32, f32)) -> DragFacts {
    let len = (b.0 - a.0).hypot(b.1 - a.1);
    DragFacts {
        tiny: len < 2.0,
        short: len < 8.0,
        can_adjust: true,
        mid: pt((a.0 + b.0) * 0.5, (a.1 + b.1) * 0.5),
        hand_deg: 0,
        a: a.0.to_bits(),
        b: a.1.to_bits(),
        c: 20f32.to_bits(),
        d: len.to_bits(),
        panel: None,
    }
}

/// What the shell measures of a release at this point, of a drag from `a`.
fn release(app: &App, a: (f32, f32), b: (f32, f32)) -> Release {
    let n = app.doc.layers.len();
    let tap = (b.0 - a.0).hypot(b.1 - a.1) < 2.0;
    Release {
        at: pt(b.0, b.1),
        px: (b.0 as i32, b.1 as i32),
        pressure: 1f32.to_bits(),
        op: SelectionOp::Replace,
        size_shown: "20 px".to_string(),
        ruler: RulerFacts { tiny: tap, short: tap, free_rings: false, rings: String::new(), ruler: 1 },
        ruler_changed: true,
        delta: ((b.0 - a.0) as i32, (b.1 - a.1) as i32),
        frame: FrameDrop {
            moved: !tap,
            valid: true,
            edge_moved: false,
            sibs: (0..n).map(|_| Vec::new()).collect(),
            align: false,
            reach: 0,
            limit: 0,
            frames: vec![77; n],
            dx: 0,
            dy: 0,
        },
        balloon: BalloonDrop {
            moved: !tap,
            valid: true,
            rotates_exactly: true,
            still: false,
            balloons: 55,
            texts: (0..n).map(|_| TextMove { n: 0, texts: 0 }).collect(),
        },
        lattice_moved: !tap,
        figure: drag_facts(a, b),
        ramp_short: tap,
        guide: 9,
        guide_is_line: !tap,
        new_balloon: BalloonFacts { big: !tap, drawn: None, under: vec![None; n], long: !tap, tail_width: 12f32.to_bits() },
        pen: 8,
        axis: pt(b.0, b.1),
        cut: !tap,
        tap,
        past: !tap,
    }
}

fn drag(app: &mut App, a: (f32, f32), b: (f32, f32)) -> UpAct {
    let p = press(app, a.0, a.1);
    app.canvas_down(&p);
    app.canvas_move(motion(b.0, b.1));
    let u = release(app, a, b);
    app.canvas_up(u)
}

fn mods(ctrl: bool, alt: bool, shift: bool) -> Mods {
    Mods { ctrl, alt, shift }
}

#[test]
fn space_belongs_to_the_view() {
    let mut app = headless(Tool::Pen);
    app.hold.space_down = true;
    assert_eq!(app.press_route(mods(true, false, false)), Route::ZoomIn);
    assert_eq!(app.press_route(mods(false, true, false)), Route::ZoomOut);
    assert_eq!(app.press_route(mods(false, false, true)), Route::Rotate);
    assert_eq!(app.press_route(mods(false, false, false)), Route::Pan);
    app.hold.resample_job = true;
    assert_eq!(app.press_route(mods(false, false, false)), Route::Frozen);
}

#[test]
fn modifiers_of_a_drawing_tool() {
    let app = headless(Tool::Pen);
    assert_eq!(app.press_route(mods(true, true, false)), Route::SizeDrag);
    assert_eq!(app.press_route(mods(true, false, false)), Route::TryObject);
    assert_eq!(app.press_route(mods(false, true, false)), Route::Eyedrop);
    assert_eq!(app.press_route(mods(false, false, true)), Route::Tool);
    let app = headless(Tool::Figure);
    assert_eq!(app.press_route(mods(true, true, false)), Route::Tool);
}

#[test]
fn a_size_drag_asks_for_a_size_and_ends_with_the_release() {
    let mut app = headless(Tool::Pen);
    let mut p = press(&app, 100.0, 200.0);
    p.mods = mods(true, true, false);
    app.canvas_down(&p);
    assert!(app.hold.size_drag.is_some(), "the drag is armed");
    app.canvas_move(motion(340.0, 200.0));
    assert!(
        matches!(app.shell.cmds.last(), Some(AppCmd::SetBrushSizePx(px)) if *px == 20f32.to_bits()),
        "the size grew"
    );
    let u = release(&app, (100.0, 200.0), (340.0, 200.0));
    app.canvas_up(u);
    assert!(app.hold.size_drag.is_none(), "release ends the drag");
    assert_eq!(app.tools.tool, Tool::Pen);
}

#[test]
fn alt_with_the_pen_picks_a_colour() {
    let mut app = headless(Tool::Pen);
    let mut p = press(&app, 10.0, 20.0);
    p.mods = mods(false, true, false);
    app.canvas_down(&p);
    assert!(matches!(app.shell.cmds.last(), Some(AppCmd::PickColor(q)) if *q == pt(10.0, 20.0)));
}

#[test]
fn a_pen_press_is_a_stroke() {
    let mut app = headless(Tool::Pen);
    let p = press(&app, 10.0, 20.0);
    assert!(matches!(app.canvas_down(&p), DownAct::Stroke));
}

#[test]
fn a_click_fill_and_a_lasso_fill() {
    let mut app = headless(Tool::Fill);
    let p = press(&app, 60.0, 60.0);
    app.canvas_down(&p);
    assert!(matches!(app.shell.cmds.last(), Some(AppCmd::Fill(q)) if *q == pt(60.0, 60.0)));

    let mut app = headless(Tool::Fill);
    app.tools.fill_mode = FillMode::Lasso;
    let p = press(&app, 10.0, 10.0);
    app.canvas_down(&p);
    assert_eq!(app.fill.drag.as_ref().map(Vec::len), Some(1));
    app.canvas_move(motion(50.0, 10.0));
    app.canvas_move(motion(50.0, 50.0));
    let u = release(&app, (10.0, 10.0), (50.0, 50.0));
    app.canvas_up(u);
    assert!(app.fill.drag.is_none());
    match app.shell.cmds.last() {
        Some(AppCmd::LassoFill { pts }) => assert_eq!(pts[3], pt(50.0, 50.0), "up to the release"),
        c => panic!("{c:?}"),
    }
}

#[test]
fn a_press_on_a_frame_layer_is_refused_in_words() {
    let mut app = headless(Tool::Gradient);
    app.doc.layers[0].kind =
        LayerKind::Frame(mn_app::doc::FrameSet { frames: 1, reading_pin: None, border_ruler: false });
    assert!(app.guard_frame_layer());
    assert!(!app.shell.status.is_empty());
    app.doc.layers[0].kind = LayerKind::Raster;
    assert!(!app.guard_frame_layer());
}

#[test]
fn an_open_float_owns_the_press() {
    let mut app = headless(Tool::Pen);
    app.hold.transform_drag = Some(TransformDrag { gesture: None, mesh: None, object_lift: true });
    let p = press(&app, 10.0, 20.0);
    app.canvas_down(&p);
    assert_eq!(
        app.transform_gesture(),
        Some(TransformGesture { grab: TransformGrab::Move, start: pt(10.0, 20.0) })
    );
    assert!(matches!(app.canvas_move(motion(15.0, 20.0)), MoveAct::Float(_)));
    let u = release(&app, (10.0, 20.0), (15.0, 20.0));
    assert!(matches!(app.canvas_up(u), UpAct::Float));
    app.transform_up(true);
    assert!(
        matches!(app.shell.cmds.last(), Some(AppCmd::TransformCommit)),
        "a pure move of a lifted object commits on release"
    );
}

#[test]
fn a_selection_drag_hands_over_its_path() {
    let mut app = headless(Tool::Select);
    app.tools.select_mode = SelectMode::Lasso;
    let p = press(&app, 10.0, 10.0);
    app.canvas_down(&p);
    app.canvas_move(motion(90.0, 10.0));
    app.canvas_move(motion(90.0, 90.0));
    let u = release(&app, (10.0, 10.0), (90.0, 90.0));
    match app.canvas_up(u) {
        UpAct::Select { pts, combine } => {
            assert!(pts.len() >= 3);
            assert_eq!(combine, None, "a plain lasso replaces");
        }
        a => panic!("{a:?}"),
    }
    app.selection_made(true, true);
    assert!(app.doc.selection);
    let p = press(&app, 10.0, 10.0);
    app.canvas_down(&p);
    app.canvas_move(motion(90.0, 10.0));
    let mut u = release(&app, (10.0, 10.0), (90.0, 90.0));
    u.op = SelectionOp::Subtract;
    match app.canvas_up(u) {
        UpAct::Select { pts, combine } => {
            assert_eq!(pts, vec![pt(10.0, 10.0), pt(90.0, 10.0), pt(90.0, 90.0)]);
            assert_eq!(combine, Some(SelectionOp::Subtract));
        }
        a => panic!("{a:?}"),
    }
    app.selection_made(true, false);
    assert!(matches!(app.shell.cmds.last(), Some(AppCmd::Deselect)), "nothing left is a deselection");
}

#[test]
fn a_magnetic_press_opens_a_trace() {
    let mut app = headless(Tool::Select);
    app.tools.select_mode = SelectMode::Magnetic;
    let p = press(&app, 54.0, 54.0);
    assert!(matches!(app.canvas_down(&p), DownAct::MagneticStart));
}

#[test]
fn presses_and_moves_on_a_panel_polygon() {
    let mut app = headless(Tool::Frame);
    app.tools.frame_mode = FrameMode::Polyline;
    for (x, y) in [(10.0, 10.0), (90.0, 10.0), (90.0, 90.0)] {
        let p = press(&app, x, y);
        app.canvas_down(&p);
        let u = release(&app, (x, y), (x, y));
        app.canvas_up(u);
    }
    assert_eq!(app.frames.poly.as_ref().map(Vec::len), Some(3));
}

#[test]
fn a_dragged_panel_becomes_a_command() {
    let mut app = headless(Tool::Frame);
    app.tools.frame_mode = FrameMode::Rect;
    drag(&mut app, (10.0, 10.0), (200.0, 300.0));
    assert!(
        matches!(app.shell.cmds.last(), Some(AppCmd::FrameRect { a, b }) if *a == pt(10.0, 10.0) && *b == pt(200.0, 300.0)),
        "{:?}",
        app.shell.cmds
    );
}

#[test]
fn half_is_half() {
    assert_eq!(f32::from_bits(HALF), 0.5);
}

#[test]
fn a_run_is_generated_anew_only_where_its_handle_moved() {
    let release_of = |start: Pt, cur: Pt| {
        let mut app = headless(Tool::Object);
        app.doc.layers[0].genlines = true;
        app.object.gen = Some(GenLinesDrag { layer: 0, mode: GenDragMode::Center, start, cur });
        let u = release(&app, (0.0, 0.0), (0.0, 0.0));
        let r = app.canvas_up(u);
        assert!(app.object.gen.is_none());
        matches!(r, UpAct::Regenerate(_))
    };
    assert!(release_of(pt(1.0, 2.0), pt(1.0, 3.0)));
    assert!(!release_of(pt(1.0, 2.0), pt(1.0, 2.0)));
    assert!(!release_of(pt(0.0, 2.0), pt(-0.0, 2.0)), "the two zeros are one");
    assert!(release_of(pt(f32::NAN, 2.0), pt(f32::NAN, 2.0)), "what is no number equals nothing");
}
