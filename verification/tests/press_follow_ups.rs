//! What follows a press once the shell has answered it.

use mn_app::app::{App, AppCmd, Shape, Stops, Tools, TransformDrag, TransformGrab};
use mn_app::balloons::{AnchorFacts, BalloonDrop, BalloonFacts, TextMove};
use mn_app::canvas_input::{GenDragMode, RulerGrab};
use mn_app::canvas_up::{Release, UpAct};
use mn_app::doc::{Document, FileObject, Layer, LayerKind};
use mn_app::figure::{DragFacts, LineOpts};
use mn_app::geom::{Colour, Pt, PxBox, Size};
use mn_app::layer_defaults::LayerDefaults;
use mn_app::modes::{
    BalloonMode, FigureMode, FillMode, FrameMode, GradMode, Mods, ObjectMode, PanMode,
    SelectCombine, SelectMode, SelectionOp, Tool,
};
use mn_app::object_tool::{LayerHit, ObjectAct, ObjectDown};
use mn_app::panels::FrameDrop;
use mn_app::rulers::RulerFacts;

fn no_lines() -> LineOpts {
    LineOpts {
        count: 0,
        width: 0,
        jitter: 0,
        taper: 0,
        gap_deg: 0,
        gap_px: 0,
        group: 0,
        group_gap: 0,
        jit_gap: 0,
        jit_len: 0,
        jit_width: 0,
        seed: 1,
    }
}

fn colour(r: f32, g: f32, b: f32) -> Colour {
    Colour { r: r.to_bits(), g: g.to_bits(), b: b.to_bits(), a: 1f32.to_bits() }
}

fn tools(tool: Tool) -> Tools {
    Tools {
        tool,
        fill_mode: FillMode::Click,
        select_mode: SelectMode::Rect,
        figure_mode: FigureMode::Line,
        grad_mode: GradMode::FgToBg,
        frame_mode: FrameMode::Folder,
        balloon_mode: BalloonMode::Ellipse,
        object_mode: ObjectMode::Object,
        object_combine: SelectCombine::New,
        pan_mode: PanMode::Hand,
        figure_adjust_angle: false,
        figure_fill: false,
        figure_focus: no_lines(),
        figure_stream: no_lines(),
        smart_shape_on: false,
        fill_live: false,
        active_color: colour(1.0, 0.0, 0.0),
        sub_color: colour(0.0, 0.0, 1.0),
        symmetric_lines: 2,
        grad_stops: Stops { mid: 31, opts: 32 },
        balloon_ink: 33,
        balloon_tail_kind: 34,
        balloon_tail_bend: 0.25f32.to_bits(),
    }
}

fn headless(tool: Tool) -> App {
    App::new(Document::new(Size { w: 400, h: 400 }), tools(tool), LayerDefaults::new())
}

fn pt(x: f32, y: f32) -> Pt {
    Pt { x: x.to_bits(), y: y.to_bits() }
}

fn add_layer(app: &mut App, name: &str, kind: LayerKind) -> usize {
    let id = app.doc.layers.iter().map(|l| l.id).max().unwrap_or(0) + 1;
    let mut l = Layer::raster(id, name);
    l.paintable = matches!(kind, LayerKind::Raster);
    l.kind = kind;
    app.doc.layers.push(l);
    app.doc.layers.len() - 1
}

fn drag_facts(a: (f32, f32), b: (f32, f32)) -> DragFacts {
    let len = (b.0 - a.0).hypot(b.1 - a.1);
    DragFacts {
        tiny: len < 2.0,
        short: len < 8.0,
        can_adjust: true,
        mid: pt((a.0 + b.0) * 0.5, (a.1 + b.1) * 0.5),
        hand_deg: 0,
        a: a.0.to_bits(),
        b: a.1.to_bits(),
        c: 20f32.to_bits(),
        d: len.to_bits(),
        panel: None,
    }
}

/// What the shell measures of a release at this point, of a drag from `a`.
fn release(app: &App, a: (f32, f32), b: (f32, f32)) -> Release {
    let n = app.doc.layers.len();
    let tap = (b.0 - a.0).hypot(b.1 - a.1) < 2.0;
    Release {
        at: pt(b.0, b.1),
        px: (b.0 as i32, b.1 as i32),
        pressure: 1f32.to_bits(),
        op: SelectionOp::Replace,
        size_shown: "20 px".to_string(),
        ruler: RulerFacts { tiny: tap, short: tap, free_rings: false, rings: String::new(), ruler: 1 },
        ruler_changed: true,
        delta: ((b.0 - a.0) as i32, (b.1 - a.1) as i32),
        frame: FrameDrop {
            moved: !tap,
            valid: true,
            edge_moved: false,
            sibs: (0..n).map(|_| Vec::new()).collect(),
            align: false,
            reach: 0,
            limit: 0,
            frames: vec![77; n],
            dx: 0,
            dy: 0,
        },
        balloon: BalloonDrop {
            moved: !tap,
            valid: true,
            rotates_exactly: true,
            still: false,
            balloons: 55,
            texts: (0..n).map(|_| TextMove { n: 0, texts: 0 }).collect(),
        },
        lattice_moved: !tap,
        figure: drag_facts(a, b),
        ramp_short: tap,
        guide: 9,
        guide_is_line: !tap,
        new_balloon: BalloonFacts { big: !tap, drawn: None, under: vec![None; n], long: !tap, tail_width: 12f32.to_bits() },
        pen: 8,
        axis: pt(b.0, b.1),
        cut: !tap,
        tap,
        past: !tap,
    }
}

fn no_hit() -> LayerHit {
    LayerHit {
        gen_handle: None,
        ink: false,
        shown_ink: false,
        texts: Vec::new(),
        balloons: Vec::new(),
        frames: Vec::new(),
        tiles: None,
        ink_box: None,
    }
}

fn no_anchor() -> AnchorFacts {
    AnchorFacts { handle: None, drawn: true, edited: None, on_edge: true, inserted: Some(31) }
}

const PLAIN: Mods = Mods { ctrl: false, alt: false, shift: false };

const CTRL: Mods = Mods { ctrl: true, alt: false, shift: false };

#[test]
fn a_balloon_is_fitted_to_its_lettering() {
    let mut app = headless(Tool::Object);
    let b = add_layer(&mut app, "balloons", LayerKind::Balloon(1));
    let t = add_layer(&mut app, "text", LayerKind::Text(1));
    let none = vec![None; app.doc.layers.len()];
    app.fit_balloon_to_text(b, 0, &none, Some(7));
    assert_eq!(app.shell.status, "no lettering in this balloon — type the text into it first");
    assert!(app.shell.cmds.is_empty());
    let mut inside = none;
    inside[t] = Some(0);
    app.fit_balloon_to_text(b, 0, &inside, None);
    assert_eq!(app.shell.status, "the balloon already fits its lettering");
    app.fit_balloon_to_text(b, 0, &inside, Some(7));
    assert_eq!(app.shell.status, "balloon fitted to its lettering — the tail came with it");
    assert!(matches!(app.shell.cmds[..], [AppCmd::BalloonCommit { layer, balloons: 7 }] if layer == b));
    app.doc.layers[t].look.visible = false;
    app.fit_balloon_to_text(b, 0, &inside, Some(7));
    assert_eq!(app.shell.status, "no lettering in this balloon — type the text into it first");
    app.shell.status.clear();
    app.fit_balloon_to_text(b, 1, &inside, Some(7));
    assert!(app.shell.status.is_empty(), "there is no second balloon");
}

#[test]
fn a_run_that_was_generated_anew_says_what_changed() {
    let mut app = headless(Tool::Object);
    for (mode, says) in [
        (GenDragMode::Center, "run moved"),
        (GenDragMode::RIn, "inner radius set"),
        (GenDragMode::ROut, "outer radius set"),
        (GenDragMode::Angle, "direction set"),
        (GenDragMode::LenMin, "minimum length set"),
        (GenDragMode::LenMax, "maximum length set"),
    ] {
        app.gen_regenerated(mode, true);
        assert_eq!(app.shell.status, says);
        app.gen_regenerated(mode, false);
        assert_eq!(app.shell.status, "generator produced nothing — parameters widened");
    }
}

#[test]
fn the_last_point_of_a_stroke_joins_its_shape() {
    let mut app = headless(Tool::Pen);
    app.hold.drawing = true;
    let u = release(&app, (0.0, 0.0), (5.0, 5.0));
    assert!(matches!(app.canvas_up(u), UpAct::EndStroke));
    assert!(app.figure.smart.is_none());
    app.tools.smart_shape_on = true;
    app.smart_shape_start(pt(0.0, 0.0), pt(0.0, 0.0), false, 0);
    let u = release(&app, (0.0, 0.0), (5.0, 5.0));
    assert!(matches!(app.canvas_up(u), UpAct::EndStroke));
    let pts = &app.figure.smart.as_ref().unwrap().pts;
    assert_eq!(*pts, vec![pt(0.0, 0.0), pt(5.0, 5.0)]);
}

#[test]
fn a_found_figure_takes_no_more_ink() {
    let mut app = headless(Tool::Pen);
    app.hold.drawing = true;
    app.tools.smart_shape_on = true;
    app.smart_shape_start(pt(0.0, 0.0), pt(0.0, 0.0), false, 0);
    app.smart_shape_tick(true, Some(Shape { kind: 3, closed: true, path: 9 }), "circle");
    let u = release(&app, (0.0, 0.0), (5.0, 5.0));
    assert!(matches!(app.canvas_up(u), UpAct::EndShaped { adjust: true }));
    let mut u = release(&app, (0.0, 0.0), (0.0, 0.0));
    u.past = false;
    assert!(matches!(app.canvas_up(u), UpAct::EndShaped { adjust: false }), "the pen is still where it rested");
    assert_eq!(app.figure.smart.as_ref().unwrap().pts, vec![pt(0.0, 0.0)]);
}

#[test]
fn the_relink_picker_opens_where_the_link_leads() {
    let mut app = headless(Tool::Object);
    let li = add_layer(&mut app, "bg", LayerKind::Raster);
    assert_eq!(app.file_object_dir(li, Some("C:/now/bg.png".to_string())), None);
    app.doc.layers[li].file_object = Some(FileObject { path: "C:/old/bg.png".to_string(), missing: true });
    assert_eq!(app.file_object_dir(li, None).as_deref(), Some("C:/old/bg.png"));
    assert_eq!(app.file_object_dir(li, Some("C:/now/bg.png".to_string())).as_deref(), Some("C:/now/bg.png"));
    assert_eq!(app.file_object_dir(li + 1, None), None);
}

#[test]
fn a_press_behind_a_dead_arrow_lifts_the_ink() {
    let mut app = headless(Tool::Object);
    let li = app.doc.layers.len() - 1;
    let mut hits: Vec<LayerHit> = app.doc.layers.iter().map(|_| no_hit()).collect();
    let ink = PxBox { l: 10, t: 10, r: 40, b: 40 };
    hits[li].ink = true;
    hits[li].shown_ink = true;
    hits[li].tiles = Some((64, 64));
    hits[li].ink_box = Some(ink);
    assert_eq!(app.object_hit_behind(pt(20.0, 20.0), &hits), ObjectAct::Lift(li, ink));
    app.object_lifted(pt(20.0, 20.0));
    assert!(app.hold.transform_drag.is_none(), "no float was opened");
    app.hold.transform_drag = Some(TransformDrag { gesture: None, mesh: None, object_lift: false });
    app.object_lifted(pt(20.0, 20.0));
    let d = app.hold.transform_drag.as_ref().unwrap();
    let g = d.gesture.as_ref().unwrap();
    assert!(d.object_lift && matches!(g.grab, TransformGrab::Move) && g.start == pt(20.0, 20.0));
    assert_eq!(app.shell.status, "layer lifted — drag to move, Enter commits, Esc cancels");
}

#[test]
fn an_expand_arrow_that_took_the_press_leaves_its_place() {
    let mut app = headless(Tool::Object);
    app.object_expanded(pt(3.0, 4.0));
    assert_eq!(app.picked.at, Some(pt(3.0, 4.0)));
}

#[test]
fn an_object_press_asks_anchors_then_rulers_then_strokes() {
    let mut app = headless(Tool::Object);
    assert!(matches!(app.object_down(pt(1.0, 1.0), PLAIN, no_anchor(), None, None), ObjectDown::Next));
    let li = app.doc.active;
    app.doc.layers[li].strokes = true;
    assert!(matches!(app.object_down(pt(1.0, 1.0), PLAIN, no_anchor(), None, None), ObjectDown::TryVector));
    let ruler = Some((2, RulerGrab::Body));
    assert!(matches!(app.object_down(pt(1.0, 1.0), PLAIN, no_anchor(), ruler, None), ObjectDown::Done));
    let m = app.rulers.moving.as_ref().unwrap();
    assert!(m.ruler == 2 && !m.moved && m.last == pt(1.0, 1.0));
    assert_eq!(app.shell.status, "ruler — drag to move the whole ruler");
    app.rulers.moving = None;
    let b = add_layer(&mut app, "balloons", LayerKind::Balloon(1));
    app.picked.balloon = Some((b, 0));
    let ruler = Some((2, RulerGrab::Anchor(0)));
    assert!(matches!(app.object_down(pt(1.0, 1.0), CTRL, no_anchor(), ruler, None), ObjectDown::Done));
    assert!(app.rulers.moving.is_none(), "the anchor edit came first");
    assert!(matches!(app.shell.cmds.last(), Some(AppCmd::BalloonCommit { layer, balloons: 31 }) if *layer == b));
}
