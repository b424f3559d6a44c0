//! Figures whose mark is not finished when the button comes up.

use mn_app::app::{App, AppCmd, FigureStage2Kind, Stops, Tools, TransformGrab};
use mn_app::balloons::{BalloonDrop, BalloonFacts, TextMove};
use mn_app::canvas_input::{DownAct, Press};
use mn_app::canvas_move::Motion;
use mn_app::canvas_up::{Release, UpAct};
use mn_app::doc::Document;
use mn_app::figure::{DragFacts, FigureAct, LineOpts, PolyHit, ink_plan};
use mn_app::geom::{Colour, Pt, Rgb, Size};
use mn_app::layer_defaults::LayerDefaults;
use mn_app::modes::{
    BalloonMode, FigureMode, FillMode, FrameMode, GradMode, Mods, ObjectMode, PanMode,
    SelectCombine, SelectMode, SelectionOp, Tool,
};
use mn_app::panels::FrameDrop;
use mn_app::rulers::RulerFacts;
use mn_app::transform::FloatHit;

fn no_lines() -> LineOpts {
    LineOpts {
        count: 0,
        width: 0,
        jitter: 0,
        taper: 0,
        gap_deg: 0,
        gap_px: 0,
        group: 0,
        group_gap: 0,
        jit_gap: 0,
        jit_len: 0,
        jit_width: 0,
        seed: 1,
    }
}

fn colour(r: f32, g: f32, b: f32) -> Colour {
    Colour { r: r.to_bits(), g: g.to_bits(), b: b.to_bits(), a: 1f32.to_bits() }
}

fn tools(tool: Tool) -> Tools {
    Tools {
        tool,
        fill_mode: FillMode::Click,
        select_mode: SelectMode::Rect,
        figure_mode: FigureMode::Line,
        grad_mode: GradMode::FgToBg,
        frame_mode: FrameMode::Folder,
        balloon_mode: BalloonMode::Ellipse,
        object_mode: ObjectMode::Object,
        object_combine: SelectCombine::New,
        pan_mode: PanMode::Hand,
        figure_adjust_angle: false,
        figure_fill: false,
        figure_focus: no_lines(),
        figure_stream: no_lines(),
        smart_shape_on: false,
        fill_live: false,
        active_color: colour(1.0, 0.0, 0.0),
        sub_color: colour(0.0, 0.0, 1.0),
        symmetric_lines: 2,
        grad_stops: Stops { mid: 31, opts: 32 },
        balloon_ink: 33,
        balloon_tail_kind: 34,
        balloon_tail_bend: 0.25f32.to_bits(),
    }
}

fn headless(tool: Tool) -> App {
    App::new(Document::new(Size { w: 400, h: 400 }), tools(tool), LayerDefaults::new())
}

fn pt(x: f32, y: f32) -> Pt {
    Pt { x: x.to_bits(), y: y.to_bits() }
}

/// What the shell measures of a press at this point.
fn press(app: &App, x: f32, y: f32) -> Press {
    let pts = app.figure.poly.as_ref().map(|v| v.len()).unwrap_or(0);
    let far = 1000f32.to_bits();
    Press {
        screen: pt(x, y),
        at: pt(x, y),
        px: (x as i32, y as i32),
        mods: Mods { ctrl: false, alt: false, shift: false },
        op: SelectionOp::Replace,
        again: false,
        radius: 2f32.to_bits(),
        pressure: 1f32.to_bits(),
        in_selection: false,
        near: false,
        poly: PolyHit {
            anchors: vec![far; pts],
            lines: if pts < 2 { Vec::new() } else { vec![far; pts - 1] },
            tol: 10f32.to_bits(),
            dense: if pts < 2 { Vec::new() } else { vec![pt(0.0, 0.0); pts] },
        },
        float: FloatHit { pin: None, mesh_point: None, grab: TransformGrab::Move },
        size_px: 10f32.to_bits(),
        size_shown: "10 px".to_string(),
        warp: "liquify".to_string(),
    }
}

/// What the shell measures of a move to this point.
fn motion(x: f32, y: f32) -> Motion {
    Motion {
        screen: pt(x, y),
        at: pt(x, y),
        px: (x as i32, y as i32),
        shift: false,
        samples: Vec::new(),
        size_px: 20f32.to_bits(),
        size_shown: "20 px".to_string(),
        past: true,
        travelled: true,
        ruler_says: None,
        lattice: String::new(),
        border: pt(x, y),
        octant: pt(x, y),
        axis: pt(x, y),
        far: true,
        drifted: true,
    }
}

fn drag_facts(a: (f32, f32), b: (f32, f32)) -> DragFacts {
    let len = (b.0 - a.0).hypot(b.1 - a.1);
    DragFacts {
        tiny: len < 2.0,
        short: len < 8.0,
        can_adjust: true,
        mid: pt((a.0 + b.0) * 0.5, (a.1 + b.1) * 0.5),
        hand_deg: 0,
        a: a.0.to_bits(),
        b: a.1.to_bits(),
        c: 20f32.to_bits(),
        d: len.to_bits(),
        panel: None,
    }
}

/// What the shell measures of a release at this point, of a drag from `a`.
fn release(app: &App, a: (f32, f32), b: (f32, f32)) -> Release {
    let n = app.doc.layers.len();
    let tap = (b.0 - a.0).hypot(b.1 - a.1) < 2.0;
    Release {
        at: pt(b.0, b.1),
        px: (b.0 as i32, b.1 as i32),
        pressure: 1f32.to_bits(),
        op: SelectionOp::Replace,
        size_shown: "20 px".to_string(),
        ruler: RulerFacts { tiny: tap, short: tap, free_rings: false, rings: String::new(), ruler: 1 },
        ruler_changed: true,
        delta: ((b.0 - a.0) as i32, (b.1 - a.1) as i32),
        frame: FrameDrop {
            moved: !tap,
            valid: true,
            edge_moved: false,
            sibs: (0..n).map(|_| Vec::new()).collect(),
            align: false,
            reach: 0,
            limit: 0,
            frames: vec![77; n],
            dx: 0,
            dy: 0,
        },
        balloon: BalloonDrop {
            moved: !tap,
            valid: true,
            rotates_exactly: true,
            still: false,
            balloons: 55,
            texts: (0..n).map(|_| TextMove { n: 0, texts: 0 }).collect(),
        },
        lattice_moved: !tap,
        figure: drag_facts(a, b),
        ramp_short: tap,
        guide: 9,
        guide_is_line: !tap,
        new_balloon: BalloonFacts { big: !tap, drawn: None, under: vec![None; n], long: !tap, tail_width: 12f32.to_bits() },
        pen: 8,
        axis: pt(b.0, b.1),
        cut: !tap,
        tap,
        past: !tap,
    }
}

fn drag(app: &mut App, a: (f32, f32), b: (f32, f32)) -> UpAct {
    let p = press(app, a.0, a.1);
    app.canvas_down(&p);
    app.canvas_move(motion(b.0, b.1));
    let u = release(app, a, b);
    app.canvas_up(u)
}

fn app_with_figure(mode: FigureMode) -> App {
    let mut app = headless(Tool::Figure);
    app.tools.figure_mode = mode;
    app
}

/// Inks what the application asks for, as the core does: one step.
fn ink(app: &mut App, act: FigureAct) -> FigureAct {
    if !matches!(act, FigureAct::Nothing) {
        app.doc.push_op("Figure");
        app.figure_inked();
    }
    act
}

fn stage_one(app: &mut App, a: (f32, f32), b: (f32, f32)) -> FigureAct {
    match drag(app, a, b) {
        UpAct::Ink(act) => ink(app, act),
        UpAct::Done => FigureAct::Nothing,
        u => panic!("{u:?}"),
    }
}

fn click(app: &mut App, p: (f32, f32)) -> FigureAct {
    let down = press(app, p.0, p.1);
    let act = match app.canvas_down(&down) {
        DownAct::Ink(act) => ink(app, act),
        _ => FigureAct::Nothing,
    };
    let up = release(app, p, p);
    app.canvas_up(up);
    act
}

#[test]
fn curve_tool_bends_its_baseline_through_the_second_stage_pointer() {
    let mut app = app_with_figure(FigureMode::Arc);
    let steps = app.doc.undo_labels.len();

    stage_one(&mut app, (60.0, 300.0), (340.0, 300.0));

    // The release did NOT ink.
    let s = app.figure.stage2.expect("the release opened stage two");
    assert_eq!(s.kind, FigureStage2Kind::Bend);
    assert_eq!(s.a, pt(60.0, 300.0));
    assert_eq!(s.b, pt(340.0, 300.0));
    assert_eq!(
        s.cur,
        pt(200.0, 300.0),
        "seeded at the baseline's midpoint, so committing without moving reproduces stage one"
    );
    assert!(app.figure.drag.is_none(), "stage one is over");
    assert_eq!(app.doc.undo_labels.len(), steps, "and nothing inked yet");

    // Aim well above the baseline and commit.
    app.figure_hover(pt(200.0, 140.0), false, false);
    assert_eq!(app.figure.stage2.expect("still open").cur, pt(200.0, 140.0), "hover steers it with no button held");
    let inked = click(&mut app, (200.0, 140.0));

    assert!(app.figure.stage2.is_none(), "the gesture is over");
    match inked {
        FigureAct::Stage2(s) => {
            assert_eq!(s.a, pt(60.0, 300.0), "inked from the dragged start");
            assert_eq!(s.b, pt(340.0, 300.0), "to the dragged end");
            assert_eq!(s.cur, pt(200.0, 140.0), "and THROUGH the point the pointer aimed at");
        }
        a => panic!("{a:?}"),
    }
    assert_eq!(app.doc.undo_labels.len(), steps + 1, "one curve, one undo press");
    assert!(app.shell.status.contains("curve inked"), "status: {}", app.shell.status);
}

#[test]
fn committing_a_curve_without_bending_it_inks_the_baseline() {
    let mut app = app_with_figure(FigureMode::Arc);
    stage_one(&mut app, (60.0, 200.0), (340.0, 200.0));
    let s = app.figure.stage2.expect("stage two");
    for p in [s.a, s.cur, s.b] {
        assert!((f32::from_bits(p.y) - 200.0).abs() < 0.01, "an unbent curve is the baseline, got {p:?}");
    }
}

#[test]
fn adjust_angle_after_fixed_is_opt_in_and_spins_the_fixed_shape() {
    let mut app = app_with_figure(FigureMode::Rect);
    let steps = app.doc.undo_labels.len();

    // Off: the release inks, no second stage.
    assert!(!app.tools.figure_adjust_angle, "opt-in");
    stage_one(&mut app, (100.0, 150.0), (300.0, 250.0));
    assert!(app.figure.stage2.is_none(), "no second stage when off");
    assert_eq!(app.doc.undo_labels.len(), steps + 1, "it inked on release");

    // On: the same drag freezes the size and waits.
    app.tools.figure_adjust_angle = true;
    let steps = app.doc.undo_labels.len();
    stage_one(&mut app, (100.0, 150.0), (300.0, 250.0));
    let s = app.figure.stage2.expect("the release opened stage two");
    assert_eq!(s.kind, FigureStage2Kind::Angle);
    assert_eq!(s.cur, s.b, "seeded at the dragged corner — zero turn");
    assert_eq!(app.doc.undo_labels.len(), steps, "nothing inked yet");

    // Aim a quarter turn round the centre.
    app.figure_hover(pt(150.0, 300.0), false, false);
    let inked = click(&mut app, (150.0, 300.0));
    assert!(app.figure.stage2.is_none(), "the gesture is over");
    match inked {
        FigureAct::Stage2(s) => {
            assert_eq!((s.a, s.b, s.cur), (pt(100.0, 150.0), pt(300.0, 250.0), pt(150.0, 300.0)));
        }
        a => panic!("{a:?}"),
    }
    assert_eq!(app.doc.undo_labels.len(), steps + 1, "one rectangle, one undo press");
}

#[test]
fn esc_during_the_second_stage_leaves_no_ink_and_no_undo_step() {
    let mut app = app_with_figure(FigureMode::Arc);
    let steps = app.doc.undo_labels.len();
    stage_one(&mut app, (60.0, 300.0), (340.0, 300.0));
    app.figure_hover(pt(200.0, 140.0), false, false);
    assert!(app.figure.stage2.is_some());

    app.cancel_figure_stage2();

    assert!(app.figure.stage2.is_none(), "aborted clean");
    assert!(app.figure.drag.is_none(), "and stage one is not left behind");
    assert_eq!(app.doc.undo_labels.len(), steps, "no undo press spent");
    // A second Esc is inert rather than an error.
    app.cancel_figure_stage2();
    assert!(app.figure.stage2.is_none());
}

#[test]
fn a_tap_never_opens_a_second_stage() {
    let mut app = app_with_figure(FigureMode::Arc);
    let steps = app.doc.undo_labels.len();
    stage_one(&mut app, (200.0, 200.0), (200.5, 200.5));
    assert!(app.figure.stage2.is_none(), "no stage two on a tap");
    assert_eq!(app.doc.undo_labels.len(), steps, "and nothing inked");
    assert!(app.shell.status.contains("drag the shape out"), "{}", app.shell.status);
}

#[test]
fn backspace_takes_back_one_point_without_ending_the_figure() {
    let mut app = app_with_figure(FigureMode::Polygon);
    let steps = app.doc.undo_labels.len();
    for p in [(60.0, 60.0), (300.0, 60.0), (300.0, 300.0), (240.0, 200.0)] {
        click(&mut app, p);
    }
    assert_eq!(app.figure.poly.as_ref().map(Vec::len), Some(4));

    app.figure_undo_point();

    assert_eq!(app.figure.poly.as_ref().map(Vec::len), Some(3), "one point back, figure still alive");
    assert_eq!(
        app.figure.poly.as_ref().expect("alive").last().map(|a| a.p),
        Some(pt(300.0, 300.0)),
        "and it is the LAST one that went"
    );
    assert!(app.shell.status.contains("3 left"), "status: {}", app.shell.status);
    assert_eq!(app.doc.undo_labels.len(), steps, "no history was touched");

    // Placing continues from where the walk-back left off, and the commit inks
    // the REDUCED list.
    click(&mut app, (60.0, 300.0));
    let act = app.finish_figure_poly();
    match ink(&mut app, act) {
        FigureAct::Poly { pts, close } => {
            assert!(close, "the closing edge is inked");
            let at: Vec<Pt> = pts.iter().map(|a| a.p).collect();
            assert_eq!(at, [pt(60.0, 60.0), pt(300.0, 60.0), pt(300.0, 300.0), pt(60.0, 300.0)]);
        }
        a => panic!("{a:?}"),
    }
    assert!(app.figure.poly.is_none(), "the gesture is over");
    assert_eq!(app.doc.undo_labels.len(), steps + 1, "one undo press");
}

#[test]
fn backspace_past_the_first_point_ends_the_figure_cleanly() {
    let mut app = app_with_figure(FigureMode::Curve);
    let steps = app.doc.undo_labels.len();
    for p in [(60.0, 300.0), (200.0, 120.0), (340.0, 300.0)] {
        click(&mut app, p);
    }
    assert_eq!(app.figure.poly.as_ref().map(Vec::len), Some(3));

    app.figure_undo_point();
    app.figure_undo_point();
    assert_eq!(app.figure.poly.as_ref().map(Vec::len), Some(1));
    app.figure_undo_point();

    assert!(app.figure.poly.is_none(), "the gesture ended, not stalled");
    assert!(app.shell.status.contains("cancelled"), "status: {}", app.shell.status);
    assert_eq!(app.doc.undo_labels.len(), steps, "and inked nothing");
    // Inert once there is no figure.
    app.figure_undo_point();
    assert!(app.figure.poly.is_none());
}

#[test]
fn every_vertex_of_a_closed_path_is_inked() {
    let p = ink_plan(3, true, false, &vec![2, 1, 3]).expect("a path");
    assert!(!p.fill);
    let ends: Vec<(usize, usize)> = p.steps.iter().map(|s| (s.from, s.to)).collect();
    assert_eq!(ends, [(0, 1), (0, 1), (1, 2), (2, 0), (2, 0), (2, 0)]);
    assert_eq!((p.end, p.end_t), (2, 6 * 4 + 16), "the last sample lies on the last vertex");
    assert!(ink_plan(1, false, false, &Vec::new()).is_none(), "a point is no path");
}

#[test]
fn effect_lines_ask_for_a_layer_and_roll_their_seed() {
    let mut app = app_with_figure(FigureMode::Focus);
    let seed = app.tools.figure_focus.seed;
    stage_one(&mut app, (300.0, 200.0), (300.0, 80.0));
    assert_eq!(app.shell.cmds.len(), 1);
    assert_ne!(app.tools.figure_focus.seed, seed);
    stage_one(&mut app, (300.0, 200.0), (301.0, 200.0));
    assert_eq!(app.shell.cmds.len(), 1, "too short to place anything");
}

#[test]
fn a_drag_places_black_lines_and_rolls_the_next_seed() {
    for (mode, kind, radial) in [
        (FigureMode::Focus, 0, true),
        (FigureMode::Urchin, 1, true),
        (FigureMode::SolidFlash, 2, true),
        (FigureMode::Stream, 0, false),
    ] {
        let mut app = App::new(Document::new(Size { w: 400, h: 400 }), tools(Tool::Figure), LayerDefaults::new());
        app.tools.figure_mode = mode;
        for o in [&mut app.tools.figure_focus, &mut app.tools.figure_stream] {
            *o = LineOpts { count: 12, taper: 7, gap_deg: 3, gap_px: 4, group: 5, seed: u64::MAX, ..*o };
        }
        let f = drag_facts((10.0, 20.0), (110.0, 20.0));
        app.release_figure_drag(pt(10.0, 20.0), pt(110.0, 20.0), f);
        let Some(AppCmd::GenLinesPlace { spec, panel: None }) = app.shell.cmds.last() else {
            panic!("{mode:?} places lines");
        };
        assert_eq!((spec.colour, spec.converge), (Rgb { r: 0, g: 0, b: 0 }, None), "{mode:?}");
        assert_eq!((spec.focus, spec.kind, spec.count, spec.seed), (radial, kind, 12, u64::MAX));
        assert_eq!(spec.taper, if kind == 0 { 7 } else { 0 });
        assert_eq!((spec.gap_deg, spec.gap_px, spec.group), match (radial, kind) {
            (true, 0) => (3, 0, 0),
            (true, _) => (0, 0, 0),
            _ => (0, 4, 5),
        });
        assert_eq!(spec.anchor, if radial { None } else { Some(pt(60.0, 20.0)) });
        let next = if radial { app.tools.figure_focus.seed } else { app.tools.figure_stream.seed };
        assert_eq!(next, 0, "the seed goes around");
    }
}
