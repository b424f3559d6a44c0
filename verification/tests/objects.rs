//! The Object tool: what a press takes and how the selection moves on.

use mn_app::app::{App, Stops, Tools};
use mn_app::balloons::{BalloonDrop, BalloonFacts, TextMove};
use mn_app::canvas_input::{BalloonDragMode, ObjRef, ObjectDragMode, opposite_corner};
use mn_app::canvas_up::Release;
use mn_app::doc::{Document, FrameSet, Layer, LayerKind};
use mn_app::figure::{DragFacts, LineOpts};
use mn_app::geom::{Colour, Pt, PxBox, Size};
use mn_app::layer_defaults::LayerDefaults;
use mn_app::modes::{
    BalloonMode, FigureMode, FillMode, FrameMode, GradMode, ObjectMode, PanMode, SelectCombine,
    SelectMode, SelectionOp, Tool,
};
use mn_app::object_tool::{BalloonHit, CycleAnchor, FrameHit, LayerHit, ObjectAct};
use mn_app::panels::FrameDrop;
use mn_app::rulers::RulerFacts;

fn no_lines() -> LineOpts {
    LineOpts {
        count: 0,
        width: 0,
        jitter: 0,
        taper: 0,
        gap_deg: 0,
        gap_px: 0,
        group: 0,
        group_gap: 0,
        jit_gap: 0,
        jit_len: 0,
        jit_width: 0,
        seed: 1,
    }
}

fn colour(r: f32, g: f32, b: f32) -> Colour {
    Colour { r: r.to_bits(), g: g.to_bits(), b: b.to_bits(), a: 1f32.to_bits() }
}

fn tools(tool: Tool) -> Tools {
    Tools {
        tool,
        fill_mode: FillMode::Click,
        select_mode: SelectMode::Rect,
        figure_mode: FigureMode::Line,
        grad_mode: GradMode::FgToBg,
        frame_mode: FrameMode::Folder,
        balloon_mode: BalloonMode::Ellipse,
        object_mode: ObjectMode::Object,
        object_combine: SelectCombine::New,
        pan_mode: PanMode::Hand,
        figure_adjust_angle: false,
        figure_fill: false,
        figure_focus: no_lines(),
        figure_stream: no_lines(),
        smart_shape_on: false,
        fill_live: false,
        active_color: colour(1.0, 0.0, 0.0),
        sub_color: colour(0.0, 0.0, 1.0),
        symmetric_lines: 2,
        grad_stops: Stops { mid: 31, opts: 32 },
        balloon_ink: 33,
        balloon_tail_kind: 34,
        balloon_tail_bend: 0.25f32.to_bits(),
    }
}

fn headless(tool: Tool) -> App {
    App::new(Document::new(Size { w: 400, h: 400 }), tools(tool), LayerDefaults::new())
}

fn pt(x: f32, y: f32) -> Pt {
    Pt { x: x.to_bits(), y: y.to_bits() }
}

fn add_layer(app: &mut App, name: &str, kind: LayerKind) -> usize {
    let id = app.doc.layers.iter().map(|l| l.id).max().unwrap_or(0) + 1;
    let mut l = Layer::raster(id, name);
    l.paintable = matches!(kind, LayerKind::Raster);
    l.kind = kind;
    app.doc.layers.push(l);
    app.doc.layers.len() - 1
}

fn drag_facts(a: (f32, f32), b: (f32, f32)) -> DragFacts {
    let len = (b.0 - a.0).hypot(b.1 - a.1);
    DragFacts {
        tiny: len < 2.0,
        short: len < 8.0,
        can_adjust: true,
        mid: pt((a.0 + b.0) * 0.5, (a.1 + b.1) * 0.5),
        hand_deg: 0,
        a: a.0.to_bits(),
        b: a.1.to_bits(),
        c: 20f32.to_bits(),
        d: len.to_bits(),
        panel: None,
    }
}

/// What the shell measures of a release at this point, of a drag from `a`.
fn release(app: &App, a: (f32, f32), b: (f32, f32)) -> Release {
    let n = app.doc.layers.len();
    let tap = (b.0 - a.0).hypot(b.1 - a.1) < 2.0;
    Release {
        at: pt(b.0, b.1),
        px: (b.0 as i32, b.1 as i32),
        pressure: 1f32.to_bits(),
        op: SelectionOp::Replace,
        size_shown: "20 px".to_string(),
        ruler: RulerFacts { tiny: tap, short: tap, free_rings: false, rings: String::new(), ruler: 1 },
        ruler_changed: true,
        delta: ((b.0 - a.0) as i32, (b.1 - a.1) as i32),
        frame: FrameDrop {
            moved: !tap,
            valid: true,
            edge_moved: false,
            sibs: (0..n).map(|_| Vec::new()).collect(),
            align: false,
            reach: 0,
            limit: 0,
            frames: vec![77; n],
            dx: 0,
            dy: 0,
        },
        balloon: BalloonDrop {
            moved: !tap,
            valid: true,
            rotates_exactly: true,
            still: false,
            balloons: 55,
            texts: (0..n).map(|_| TextMove { n: 0, texts: 0 }).collect(),
        },
        lattice_moved: !tap,
        figure: drag_facts(a, b),
        ramp_short: tap,
        guide: 9,
        guide_is_line: !tap,
        new_balloon: BalloonFacts { big: !tap, drawn: None, under: vec![None; n], long: !tap, tail_width: 12f32.to_bits() },
        pen: 8,
        axis: pt(b.0, b.1),
        cut: !tap,
        tap,
        past: !tap,
    }
}

fn no_hit() -> LayerHit {
    LayerHit {
        gen_handle: None,
        ink: false,
        shown_ink: false,
        texts: Vec::new(),
        balloons: Vec::new(),
        frames: Vec::new(),
        tiles: None,
        ink_box: None,
    }
}

fn balloon(inside: bool) -> BalloonHit {
    BalloonHit { handle: None, lolly: false, corner: None, mid: None, inside }
}

fn panel(inside: bool) -> FrameHit {
    FrameHit { vertex: None, lolly: false, corner: None, mid: None, edge: None, inside }
}

fn frames(n: usize) -> LayerKind {
    LayerKind::Frame(FrameSet { frames: n, reading_pin: None, border_ruler: false })
}

/// The stack, bottom-up: paper, a panel, a balloon, a text, all under the pick.
fn stack(app: &mut App) -> (usize, usize, usize) {
    let f = add_layer(app, "Frame 1", frames(1));
    let b = add_layer(app, "Balloons", LayerKind::Balloon(1));
    let t = add_layer(app, "Text", LayerKind::Text(1));
    (f, b, t)
}

fn all_hit(app: &App) -> Vec<LayerHit> {
    app.doc
        .layers
        .iter()
        .map(|l| {
            let mut h = no_hit();
            match &l.kind {
                LayerKind::Text(n) => h.texts = vec![true; *n],
                LayerKind::Balloon(n) => h.balloons = (0..*n).map(|_| balloon(true)).collect(),
                LayerKind::Frame(fs) => h.frames = (0..fs.frames).map(|_| panel(true)).collect(),
                _ => {}
            }
            h
        })
        .collect()
}

fn none_hit(app: &App) -> Vec<LayerHit> {
    let mut v = all_hit(app);
    for h in &mut v {
        for t in &mut h.texts {
            *t = false;
        }
        for b in &mut h.balloons {
            *b = balloon(false);
        }
        for f in &mut h.frames {
            *f = panel(false);
        }
    }
    v
}

#[test]
fn the_key_cycles_the_stack_under_the_pick() {
    let mut app = headless(Tool::Object);
    let (f, b, t) = stack(&mut app);
    let hits = all_hit(&app);
    assert_eq!(
        app.object_candidates_at(&hits),
        [ObjRef::Text(t, 0), ObjRef::Balloon(b, 0), ObjRef::Frame(f, 0)],
        "texts first, then balloons, then panels"
    );
    app.object_select_ref(ObjRef::Text(t, 0));
    app.picked.at = Some(pt(300.0, 200.0));
    assert_eq!(app.picked.text, Some((t, 0)), "the text claims the click");

    // Cycle forward: text → balloon → frame → wrap to text.
    app.object_cycle(true, Some(all_hit(&app)));
    assert!(app.picked.text.is_none() && app.picked.balloon.is_some(), "→ balloon");
    app.object_cycle(true, Some(all_hit(&app)));
    assert!(app.picked.balloon.is_none() && app.picked.frame.is_some(), "→ frame");
    app.object_cycle(true, Some(all_hit(&app)));
    assert_eq!(app.picked.text, Some((t, 0)), "wraps to the text");
    // Backward goes back to the frame.
    app.object_cycle(false, Some(all_hit(&app)));
    assert!(app.picked.frame.is_some() && app.picked.text.is_none(), "back to the frame");
    // Selection only: no document mutation, no undo step.
    assert_eq!(app.doc.undo_labels.len(), 0, "cycling is not an undo step");
}

#[test]
fn cycling_asks_for_the_pick_or_for_the_centre_of_what_is_selected() {
    let mut app = headless(Tool::Object);
    let (_, b, _) = stack(&mut app);
    assert_eq!(app.cycle_anchor(), CycleAnchor::Idle);
    app.object_select_ref(ObjRef::Balloon(b, 0));
    assert_eq!(app.cycle_anchor(), CycleAnchor::Centre(ObjRef::Balloon(b, 0)));
    app.picked.at = Some(pt(3.0, 4.0));
    assert_eq!(app.cycle_anchor(), CycleAnchor::At(pt(3.0, 4.0)));
}

#[test]
fn selecting_one_object_forgets_the_others() {
    let mut app = headless(Tool::Object);
    let (f, b, t) = stack(&mut app);
    for r in [ObjRef::Frame(f, 0), ObjRef::Balloon(b, 0), ObjRef::Text(t, 0), ObjRef::Gen(0)] {
        app.object_select_ref(r);
        assert_eq!(app.object_selection(), Some(r));
    }
    app.clear_object_selection();
    assert_eq!(app.object_selection(), None);
}

#[test]
fn every_object_has_a_name_for_the_status_line() {
    let names = [ObjRef::Text(0, 0).label(), ObjRef::Gen(0).label(), ObjRef::Balloon(0, 0).label(), ObjRef::Frame(0, 0).label()];
    for (i, a) in names.iter().enumerate() {
        assert!(!a.is_empty());
        assert!(names[i + 1..].iter().all(|b| a != b));
    }
}

#[test]
fn a_press_takes_the_topmost_shape() {
    let mut app = headless(Tool::Object);
    let (_, b, _) = stack(&mut app);
    let hits = all_hit(&app);
    assert!(matches!(app.object_hit(pt(300.0, 200.0), &hits, None), ObjectAct::Done));
    let d = app.object.balloon.as_ref().expect("the balloon is held");
    assert_eq!((d.layer, d.balloon), (b, 0));
    assert!(matches!(d.mode, BalloonDragMode::MoveWhole));
}

#[test]
fn a_border_is_taken_from_the_gutter_side() {
    let mut app = headless(Tool::Pen);
    let f = add_layer(&mut app, "Frame 1", frames(1));
    let mut hits = none_hit(&app);
    hits[f].frames[0] = FrameHit { edge: Some(3), ..panel(false) };
    let before = app.copy_picked();
    app.object_hit(pt(270.0, 550.0), &hits, None);
    assert!(app.temp_object_try(before), "the gutter-side press grabs the border, not the pen");
    assert!(
        matches!(app.object.frame.as_ref().map(|d| d.mode), Some(ObjectDragMode::Edge(3))),
        "the grab armed an edge drag"
    );
    assert!(app.hold.temp_object);
    assert_eq!(app.tools.tool, Tool::Pen, "the tool never changes");
    let u = release(&app, (270.0, 550.0), (270.0, 550.0));
    app.canvas_up(u);
    assert!(!app.hold.temp_object, "release clears the temp flag");

    // A miss far from everything keeps the standing selection.
    app.picked.frame = Some((f, 0));
    let before = app.copy_picked();
    let miss = none_hit(&app);
    app.object_hit(pt(20.0, 20.0), &miss, None);
    assert!(!app.temp_object_try(before), "empty space declines");
    assert_eq!(app.picked.frame, Some((f, 0)), "the declined press left the selection standing");
}

#[test]
fn a_click_near_the_ink_of_a_run_selects_it() {
    let mut app = headless(Tool::Object);
    let li = add_layer(&mut app, "Focus", LayerKind::Raster);
    app.doc.layers[li].genlines = true;
    app.doc.active = 0;
    let mut hits = none_hit(&app);
    hits[li].ink = true;
    app.object_hit(pt(200.0, 200.0), &hits, None);
    assert_eq!(app.picked.gen, Some(li), "the run under the pointer is picked");
    assert_eq!(app.doc.active, li, "and the Layers palette moved to it");

    // Empty paper well away from the burst still selects nothing.
    app.picked.gen = None;
    let miss = none_hit(&app);
    app.object_hit(pt(20.0, 380.0), &miss, None);
    assert_eq!(app.picked.gen, None, "far from the ink, nothing is picked");
}

#[test]
fn plain_ink_is_lifted_unless_it_is_too_much() {
    let mut app = headless(Tool::Object);
    let mut hits = none_hit(&app);
    hits[0].ink = true;
    hits[0].tiles = Some((128, 128));
    hits[0].ink_box = Some(PxBox { l: -5, t: 10, r: 90, b: 80 });
    let act = app.object_hit(pt(40.0, 40.0), &hits, None);
    assert!(matches!(act, ObjectAct::Lift(0, PxBox { l: 0, t: 10, r: 90, b: 80 })), "{act:?}");
    hits[0].tiles = Some((64 * 64, 64 * 65));
    let act = app.object_hit(pt(40.0, 40.0), &hits, None);
    assert!(matches!(act, ObjectAct::Done), "{act:?}");
}

#[test]
fn a_set_grows_shrinks_and_moves_as_one() {
    let mut app = headless(Tool::Object);
    let (_, b, t) = stack(&mut app);
    let mut text_only = none_hit(&app);
    text_only[t].texts[0] = true;
    let mut balloon_only = none_hit(&app);
    balloon_only[b].balloons[0] = balloon(true);

    app.object_press_set(pt(1.0, 1.0), true, &text_only);
    app.object_press_set(pt(1.0, 1.0), true, &balloon_only);
    assert_eq!(app.picked.multi, [ObjRef::Text(t, 0), ObjRef::Balloon(b, 0)]);

    app.tools.object_combine = SelectCombine::Remove;
    app.object_press_set(pt(1.0, 1.0), false, &text_only);
    assert!(!app.picked.multi.contains(&ObjRef::Text(t, 0)));

    app.tools.object_combine = SelectCombine::New;
    app.object_press_set(pt(1.0, 1.0), false, &none_hit(&app));
    assert!(app.picked.multi.is_empty(), "a plain press begins anew");
}

#[test]
fn corners_face_each_other() {
    assert_eq!([0, 1, 2, 3].map(opposite_corner), [2, 3, 0, 1]);
}

#[test]
fn a_full_round_visits_every_object_once() {
    let mut app = headless(Tool::Object);
    let (f, b, t) = stack(&mut app);
    let all = app.object_candidates_at(&all_hit(&app));
    for (i, c) in all.iter().enumerate() {
        assert!(!all[i + 1..].contains(c), "{c:?} is there twice");
    }
    for forward in [true, false] {
        for start in [ObjRef::Text(t, 0), ObjRef::Balloon(b, 0), ObjRef::Frame(f, 0)] {
            app.object_select_ref(start);
            app.picked.at = Some(pt(300.0, 200.0));
            let now = |app: &App| (app.picked.text, app.picked.balloon, app.picked.frame);
            let first = now(&app);
            for step in 1..=all.len() {
                app.object_cycle(forward, Some(all_hit(&app)));
                assert_eq!(now(&app) == first, step == all.len(), "step {step}");
            }
        }
    }
}
