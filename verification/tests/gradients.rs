//! The freeform gradient: lines first, paint on commit.

use mn_app::app::{App, Stops, Tools, TransformGrab};
use mn_app::balloons::{BalloonDrop, BalloonFacts, TextMove};
use mn_app::canvas_input::Press;
use mn_app::canvas_move::Motion;
use mn_app::canvas_up::{Release, UpAct};
use mn_app::doc::Document;
use mn_app::figure::{DragFacts, LineOpts, PolyHit};
use mn_app::geom::{Colour, Pt, Size};
use mn_app::gradient::GradAct;
use mn_app::layer_defaults::LayerDefaults;
use mn_app::modes::{
    BalloonMode, FigureMode, FillMode, FrameMode, GradMode, Mods, ObjectMode, PanMode,
    SelectCombine, SelectMode, SelectionOp, Tool,
};
use mn_app::panels::FrameDrop;
use mn_app::rulers::RulerFacts;
use mn_app::transform::FloatHit;

fn no_lines() -> LineOpts {
    LineOpts {
        count: 0,
        width: 0,
        jitter: 0,
        taper: 0,
        gap_deg: 0,
        gap_px: 0,
        group: 0,
        group_gap: 0,
        jit_gap: 0,
        jit_len: 0,
        jit_width: 0,
        seed: 1,
    }
}

fn colour(r: f32, g: f32, b: f32) -> Colour {
    Colour { r: r.to_bits(), g: g.to_bits(), b: b.to_bits(), a: 1f32.to_bits() }
}

fn tools(tool: Tool) -> Tools {
    Tools {
        tool,
        fill_mode: FillMode::Click,
        select_mode: SelectMode::Rect,
        figure_mode: FigureMode::Line,
        grad_mode: GradMode::FgToBg,
        frame_mode: FrameMode::Folder,
        balloon_mode: BalloonMode::Ellipse,
        object_mode: ObjectMode::Object,
        object_combine: SelectCombine::New,
        pan_mode: PanMode::Hand,
        figure_adjust_angle: false,
        figure_fill: false,
        figure_focus: no_lines(),
        figure_stream: no_lines(),
        smart_shape_on: false,
        fill_live: false,
        active_color: colour(1.0, 0.0, 0.0),
        sub_color: colour(0.0, 0.0, 1.0),
        symmetric_lines: 2,
        grad_stops: Stops { mid: 31, opts: 32 },
        balloon_ink: 33,
        balloon_tail_kind: 34,
        balloon_tail_bend: 0.25f32.to_bits(),
    }
}

fn headless(tool: Tool) -> App {
    App::new(Document::new(Size { w: 400, h: 400 }), tools(tool), LayerDefaults::new())
}

fn pt(x: f32, y: f32) -> Pt {
    Pt { x: x.to_bits(), y: y.to_bits() }
}

/// What the shell measures of a press at this point.
fn press(app: &App, x: f32, y: f32) -> Press {
    let pts = app.figure.poly.as_ref().map(|v| v.len()).unwrap_or(0);
    let far = 1000f32.to_bits();
    Press {
        screen: pt(x, y),
        at: pt(x, y),
        px: (x as i32, y as i32),
        mods: Mods { ctrl: false, alt: false, shift: false },
        op: SelectionOp::Replace,
        again: false,
        radius: 2f32.to_bits(),
        pressure: 1f32.to_bits(),
        in_selection: false,
        near: false,
        poly: PolyHit {
            anchors: vec![far; pts],
            lines: if pts < 2 { Vec::new() } else { vec![far; pts - 1] },
            tol: 10f32.to_bits(),
            dense: if pts < 2 { Vec::new() } else { vec![pt(0.0, 0.0); pts] },
        },
        float: FloatHit { pin: None, mesh_point: None, grab: TransformGrab::Move },
        size_px: 10f32.to_bits(),
        size_shown: "10 px".to_string(),
        warp: "liquify".to_string(),
    }
}

/// What the shell measures of a move to this point.
fn motion(x: f32, y: f32) -> Motion {
    Motion {
        screen: pt(x, y),
        at: pt(x, y),
        px: (x as i32, y as i32),
        shift: false,
        samples: Vec::new(),
        size_px: 20f32.to_bits(),
        size_shown: "20 px".to_string(),
        past: true,
        travelled: true,
        ruler_says: None,
        lattice: String::new(),
        border: pt(x, y),
        octant: pt(x, y),
        axis: pt(x, y),
        far: true,
        drifted: true,
    }
}

fn drag_facts(a: (f32, f32), b: (f32, f32)) -> DragFacts {
    let len = (b.0 - a.0).hypot(b.1 - a.1);
    DragFacts {
        tiny: len < 2.0,
        short: len < 8.0,
        can_adjust: true,
        mid: pt((a.0 + b.0) * 0.5, (a.1 + b.1) * 0.5),
        hand_deg: 0,
        a: a.0.to_bits(),
        b: a.1.to_bits(),
        c: 20f32.to_bits(),
        d: len.to_bits(),
        panel: None,
    }
}

/// What the shell measures of a release at this point, of a drag from `a`.
fn release(app: &App, a: (f32, f32), b: (f32, f32)) -> Release {
    let n = app.doc.layers.len();
    let tap = (b.0 - a.0).hypot(b.1 - a.1) < 2.0;
    Release {
        at: pt(b.0, b.1),
        px: (b.0 as i32, b.1 as i32),
        pressure: 1f32.to_bits(),
        op: SelectionOp::Replace,
        size_shown: "20 px".to_string(),
        ruler: RulerFacts { tiny: tap, short: tap, free_rings: false, rings: String::new(), ruler: 1 },
        ruler_changed: true,
        delta: ((b.0 - a.0) as i32, (b.1 - a.1) as i32),
        frame: FrameDrop {
            moved: !tap,
            valid: true,
            edge_moved: false,
            sibs: (0..n).map(|_| Vec::new()).collect(),
            align: false,
            reach: 0,
            limit: 0,
            frames: vec![77; n],
            dx: 0,
            dy: 0,
        },
        balloon: BalloonDrop {
            moved: !tap,
            valid: true,
            rotates_exactly: true,
            still: false,
            balloons: 55,
            texts: (0..n).map(|_| TextMove { n: 0, texts: 0 }).collect(),
        },
        lattice_moved: !tap,
        figure: drag_facts(a, b),
        ramp_short: tap,
        guide: 9,
        guide_is_line: !tap,
        new_balloon: BalloonFacts { big: !tap, drawn: None, under: vec![None; n], long: !tap, tail_width: 12f32.to_bits() },
        pen: 8,
        axis: pt(b.0, b.1),
        cut: !tap,
        tap,
        past: !tap,
    }
}

fn app_with_freeform() -> App {
    let mut app = headless(Tool::Gradient);
    app.tools.grad_mode = GradMode::Freeform;
    app
}

/// Paints what the application asks for, as the core does: one step.
fn paint(app: &mut App, act: GradAct) -> GradAct {
    if let GradAct::Field(lines, _) = &act {
        let n = lines.len();
        app.doc.push_op("Freeform gradient");
        app.finish_gradient_freeform_multi(true, n);
    }
    act
}

/// One line: press, a few moves, release. The colours of what was painted.
fn stroke(app: &mut App, pts: &[(f32, f32)]) -> GradAct {
    let first = pts[0];
    let last = *pts.last().unwrap();
    let p = press(app, first.0, first.1);
    app.canvas_down(&p);
    for m in &pts[1..] {
        app.canvas_move(motion(m.0, m.1));
    }
    let u = release(app, first, last);
    match app.canvas_up(u) {
        UpAct::Paint(act) => paint(app, act),
        _ => GradAct::Nothing,
    }
}

fn commit(app: &mut App) -> GradAct {
    let act = app.commit_grad_free();
    paint(app, act)
}

fn lines(app: &App) -> Option<usize> {
    app.paint.free.as_ref().map(|g| g.done.len())
}

#[test]
fn two_strokes_lay_a_gradient_between_the_guides_in_one_undo_press() {
    let mut app = app_with_freeform();
    let steps = app.doc.undo_labels.len();

    stroke(&mut app, &[(80.0, 20.0), (80.0, 200.0), (80.0, 380.0)]);

    // The release banked a guide and put no pixels anywhere.
    let g = app.paint.free.as_ref().expect("the first guide is banked");
    assert_eq!(g.done.len(), 1, "guide 1 is recorded");
    assert!(!g.drawing, "and the stroke is over");
    assert!(g.cur.is_empty(), "with nothing left half-drawn");
    assert_eq!(app.doc.undo_labels.len(), steps, "nothing inked yet");
    assert!(app.paint.grad.is_none(), "the one-drag path stayed out of it");

    stroke(&mut app, &[(320.0, 20.0), (320.0, 200.0), (320.0, 380.0)]);

    // Two lines are ENOUGH, not DONE: nothing is painted until the commit.
    assert_eq!(lines(&app), Some(2), "two lines are banked and the gesture is still open");
    assert_eq!(app.doc.undo_labels.len(), steps, "still nothing inked");
    // Guide 1 got the main colour, guide 2 the sub colour.
    match commit(&mut app) {
        GradAct::Field(v, stops) => {
            assert_eq!(stops, Stops { mid: 31, opts: 32 });
            assert_eq!(v[0].colour, colour(1.0, 0.0, 0.0), "guide 1 is main (red)");
            assert_eq!(v[1].colour, colour(0.0, 0.0, 1.0), "guide 2 is sub (blue)");
        }
        a => panic!("{a:?}"),
    }
    assert!(app.paint.free.is_none(), "the gesture is spent");
    assert_eq!(app.doc.undo_labels.len(), steps + 1, "the whole apply is ONE undo press");
}

#[test]
fn a_cancelled_gesture_leaves_nothing_behind() {
    let mut app = app_with_freeform();
    let steps = app.doc.undo_labels.len();
    stroke(&mut app, &[(80.0, 20.0), (80.0, 380.0)]);
    assert!(app.paint.free.is_some());
    app.cancel_grad_free();
    assert!(app.paint.free.is_none(), "Esc drops the gesture");
    assert_eq!(app.doc.undo_labels.len(), steps, "and banks no history");
    // The next stroke is a FIRST guide again, not a stranded second one.
    stroke(&mut app, &[(120.0, 20.0), (120.0, 380.0)]);
    assert_eq!(app.doc.undo_labels.len(), steps, "still nothing painted");
    assert_eq!(lines(&app), Some(1), "it started a fresh gesture");
}

#[test]
fn a_tap_is_refused_without_losing_the_gesture() {
    let mut app = app_with_freeform();
    let steps = app.doc.undo_labels.len();

    // A tap with no gesture open starts nothing.
    stroke(&mut app, &[(200.0, 200.0)]);
    assert!(app.paint.free.is_none(), "a tap does not open a gesture");
    assert_eq!(app.doc.undo_labels.len(), steps);

    // A real first guide, then a tap: the gesture SURVIVES, still waiting.
    stroke(&mut app, &[(80.0, 20.0), (80.0, 380.0)]);
    stroke(&mut app, &[(200.0, 200.0)]);
    assert_eq!(lines(&app), Some(1), "the banked guide survives a stray click");
    assert_eq!(app.doc.undo_labels.len(), steps, "and nothing was painted");

    // The real second guide still lands, and makes the gesture ready.
    stroke(&mut app, &[(320.0, 20.0), (320.0, 380.0)]);
    assert_eq!(app.doc.undo_labels.len(), steps, "two lines, no paint yet");
    commit(&mut app);
    assert_eq!(app.doc.undo_labels.len(), steps + 1);
}

#[test]
fn a_third_line_adds_a_third_colour_and_commits_in_one_press() {
    let mut app = app_with_freeform();
    let steps = app.doc.undo_labels.len();

    stroke(&mut app, &[(40.0, 20.0), (40.0, 380.0)]); // main: red
    stroke(&mut app, &[(200.0, 20.0), (200.0, 380.0)]); // sub: blue
    // A new colour BEFORE the third line: the colour is recorded when the line
    // is drawn.
    app.tools.active_color = colour(0.0, 1.0, 0.0);
    stroke(&mut app, &[(360.0, 20.0), (360.0, 380.0)]);

    let g = app.paint.free.as_ref().expect("still open");
    assert_eq!(g.done.len(), 3, "three lines banked");
    assert_eq!(g.done[0].colour, colour(1.0, 0.0, 0.0), "line 1 = main");
    assert_eq!(g.done[1].colour, colour(0.0, 0.0, 1.0), "line 2 = sub");
    assert_eq!(
        g.done[2].colour,
        colour(0.0, 1.0, 0.0),
        "line 3 = the main colour AS IT WAS when the line was drawn"
    );
    assert_eq!(app.doc.undo_labels.len(), steps, "nothing painted yet");

    assert!(matches!(commit(&mut app), GradAct::Field(v, _) if v.len() == 3));
    assert!(app.paint.free.is_none(), "the gesture is spent");
    assert_eq!(app.doc.undo_labels.len(), steps + 1, "ONE undo press");
    assert_eq!(app.shell.status, "freeform gradient painted — 3 lines, a colour each");
}

#[test]
fn a_click_away_from_the_lines_commits() {
    let mut app = app_with_freeform();
    let steps = app.doc.undo_labels.len();
    stroke(&mut app, &[(40.0, 20.0), (40.0, 380.0)]);
    stroke(&mut app, &[(200.0, 20.0), (200.0, 380.0)]);
    // A tap, which with one line down would have been refused.
    let painted = stroke(&mut app, &[(300.0, 300.0)]);
    assert!(app.paint.free.is_none(), "the click committed the gesture");
    assert_eq!(app.doc.undo_labels.len(), steps + 1);
    assert!(matches!(painted, GradAct::Field(v, _) if v.len() == 2), "and it really painted");
}

#[test]
fn backspace_walks_the_lines_back_and_then_cancels() {
    let mut app = app_with_freeform();
    let steps = app.doc.undo_labels.len();
    stroke(&mut app, &[(40.0, 20.0), (40.0, 380.0)]);
    stroke(&mut app, &[(200.0, 20.0), (200.0, 380.0)]);
    stroke(&mut app, &[(360.0, 20.0), (360.0, 380.0)]);

    app.grad_free_undo_guide();
    assert_eq!(lines(&app), Some(2), "one line came off, the rest stayed");
    app.grad_free_undo_guide();
    assert_eq!(lines(&app), Some(1));
    app.grad_free_undo_guide();
    assert!(app.paint.free.is_none(), "the last one cancels the gesture");
    assert_eq!(app.doc.undo_labels.len(), steps, "none of it was history");

    // The line that was taken back is not in the painted field.
    let mut app = app_with_freeform();
    stroke(&mut app, &[(40.0, 20.0), (40.0, 380.0)]);
    stroke(&mut app, &[(200.0, 20.0), (200.0, 380.0)]);
    app.tools.active_color = colour(0.0, 1.0, 0.0);
    stroke(&mut app, &[(360.0, 20.0), (360.0, 380.0)]);
    app.grad_free_undo_guide();
    match commit(&mut app) {
        GradAct::Field(v, _) => {
            assert_eq!(v.len(), 2);
            assert!(v.iter().all(|g| g.colour != colour(0.0, 1.0, 0.0)), "the dropped line left no trace");
        }
        a => panic!("{a:?}"),
    }
}

#[test]
fn committing_one_line_paints_nothing() {
    let mut app = app_with_freeform();
    let steps = app.doc.undo_labels.len();
    stroke(&mut app, &[(40.0, 20.0), (40.0, 380.0)]);
    assert!(matches!(commit(&mut app), GradAct::Nothing));
    assert_eq!(lines(&app), Some(1), "the gesture survives a premature commit");
    assert_eq!(app.doc.undo_labels.len(), steps);
}

#[test]
fn a_drag_paints_a_ramp_from_main_to_sub() {
    let mut app = headless(Tool::Gradient);
    let p = press(&app, 10.0, 10.0);
    app.canvas_down(&p);
    app.canvas_move(motion(300.0, 10.0));
    let u = release(&app, (10.0, 10.0), (300.0, 10.0));
    match app.canvas_up(u) {
        UpAct::Paint(GradAct::Paint(r)) => {
            assert_eq!((r.a, r.b), (pt(10.0, 10.0), pt(300.0, 10.0)));
            assert_eq!((r.from, r.to), (colour(1.0, 0.0, 0.0), colour(0.0, 0.0, 1.0)));
            assert_eq!(r.stops, Stops { mid: 31, opts: 32 });
        }
        u => panic!("{u:?}"),
    }
    app.gradient_painted(true);
    assert!(app.work.dirty);
}
