//! Repair of a leaked fill.

use mn_app::app::{App, Stops, Tools, TransformGrab};
use mn_app::canvas_input::{DownAct, Press};
use mn_app::canvas_move::Motion;
use mn_app::doc::{Document, Layer, LayerKind};
use mn_app::figure::{LineOpts, PolyHit};
use mn_app::fill_repair::{Armed, FillRepair, LeakFill, Refill, Refusal};
use mn_app::geom::{Colour, Pt, Size};
use mn_app::layer_defaults::LayerDefaults;
use mn_app::modes::{
    BalloonMode, FigureMode, FillMode, FrameMode, GradMode, Mods, ObjectMode, PanMode,
    SelectCombine, SelectMode, SelectionOp, Tool,
};
use mn_app::transform::FloatHit;

fn no_lines() -> LineOpts {
    LineOpts {
        count: 0,
        width: 0,
        jitter: 0,
        taper: 0,
        gap_deg: 0,
        gap_px: 0,
        group: 0,
        group_gap: 0,
        jit_gap: 0,
        jit_len: 0,
        jit_width: 0,
        seed: 1,
    }
}

fn colour(r: f32, g: f32, b: f32) -> Colour {
    Colour { r: r.to_bits(), g: g.to_bits(), b: b.to_bits(), a: 1f32.to_bits() }
}

fn tools(tool: Tool) -> Tools {
    Tools {
        tool,
        fill_mode: FillMode::Click,
        select_mode: SelectMode::Rect,
        figure_mode: FigureMode::Line,
        grad_mode: GradMode::FgToBg,
        frame_mode: FrameMode::Folder,
        balloon_mode: BalloonMode::Ellipse,
        object_mode: ObjectMode::Object,
        object_combine: SelectCombine::New,
        pan_mode: PanMode::Hand,
        figure_adjust_angle: false,
        figure_fill: false,
        figure_focus: no_lines(),
        figure_stream: no_lines(),
        smart_shape_on: false,
        fill_live: false,
        active_color: colour(1.0, 0.0, 0.0),
        sub_color: colour(0.0, 0.0, 1.0),
        symmetric_lines: 2,
        grad_stops: Stops { mid: 31, opts: 32 },
        balloon_ink: 33,
        balloon_tail_kind: 34,
        balloon_tail_bend: 0.25f32.to_bits(),
    }
}

fn headless(tool: Tool) -> App {
    App::new(Document::new(Size { w: 400, h: 400 }), tools(tool), LayerDefaults::new())
}

fn pt(x: f32, y: f32) -> Pt {
    Pt { x: x.to_bits(), y: y.to_bits() }
}

fn add_layer(app: &mut App, name: &str, kind: LayerKind) -> usize {
    let id = app.doc.layers.iter().map(|l| l.id).max().unwrap_or(0) + 1;
    let mut l = Layer::raster(id, name);
    l.paintable = matches!(kind, LayerKind::Raster);
    l.kind = kind;
    app.doc.layers.push(l);
    app.doc.layers.len() - 1
}

/// What the shell measures of a press at this point.
fn press(app: &App, x: f32, y: f32) -> Press {
    let pts = app.figure.poly.as_ref().map(|v| v.len()).unwrap_or(0);
    let far = 1000f32.to_bits();
    Press {
        screen: pt(x, y),
        at: pt(x, y),
        px: (x as i32, y as i32),
        mods: Mods { ctrl: false, alt: false, shift: false },
        op: SelectionOp::Replace,
        again: false,
        radius: 2f32.to_bits(),
        pressure: 1f32.to_bits(),
        in_selection: false,
        near: false,
        poly: PolyHit {
            anchors: vec![far; pts],
            lines: if pts < 2 { Vec::new() } else { vec![far; pts - 1] },
            tol: 10f32.to_bits(),
            dense: if pts < 2 { Vec::new() } else { vec![pt(0.0, 0.0); pts] },
        },
        float: FloatHit { pin: None, mesh_point: None, grab: TransformGrab::Move },
        size_px: 10f32.to_bits(),
        size_shown: "10 px".to_string(),
        warp: "liquify".to_string(),
    }
}

/// What the shell measures of a move to this point.
fn motion(x: f32, y: f32) -> Motion {
    Motion {
        screen: pt(x, y),
        at: pt(x, y),
        px: (x as i32, y as i32),
        shift: false,
        samples: Vec::new(),
        size_px: 20f32.to_bits(),
        size_shown: "20 px".to_string(),
        past: true,
        travelled: true,
        ruler_says: None,
        lattice: String::new(),
        border: pt(x, y),
        octant: pt(x, y),
        axis: pt(x, y),
        far: true,
        drifted: true,
    }
}

/// Line art below, a flats layer above it, active for the fill.
fn u_shaped_gap(app: &mut App) {
    app.doc.layers[0].name = "lineart".into();
    let flats = add_layer(app, "flats", LayerKind::Raster);
    app.doc.set_active(flats);
}

fn scribble(app: &mut App) {
    app.doc.push_op("Brush");
}

/// A click fill on the active layer, remembered as the last one.
fn fill(app: &mut App, x: f32, y: f32) {
    app.doc.push_op("Fill");
    app.fill.last = Some(LeakFill {
        layer_id: app.doc.layers[app.doc.active].id,
        page_uid: app.work.pages[app.work.page_index].uid,
        seed: pt(x, y),
        recipe: 3,
        op_label: "Fill".into(),
        undo_len: app.doc.undo_labels.len(),
    });
}

#[test]
fn arming_refuses_when_it_cannot_be_safe() {
    let mut app = headless(Tool::Fill);
    u_shaped_gap(&mut app);

    // Nothing remembered yet.
    assert_eq!(app.arm_fill_repair(true, true), Armed::Refused(Refusal::NoFill));
    assert!(app.shell.status.contains("no fill to repair"), "{:?}", app.shell.status);
    assert!(app.fill.repair.is_none());

    // A fill, then more work on top: the fill is no longer the newest.
    fill(&mut app, 60.0, 60.0);
    scribble(&mut app);
    assert_eq!(app.arm_fill_repair(true, true), Armed::Refused(Refusal::NotNewest));
    assert!(app.shell.status.contains("no longer the newest"), "{:?}", app.shell.status);
    assert!(app.fill.repair.is_none());

    // A wrong page in the memory: refused.
    let true_page = app.work.pages[app.work.page_index].uid;
    app.fill.last.as_mut().unwrap().page_uid = 999;
    assert_eq!(app.arm_fill_repair(true, true), Armed::Refused(Refusal::OtherPage));
    assert!(app.shell.status.contains("another page"), "{:?}", app.shell.status);
    app.fill.last.as_mut().unwrap().page_uid = true_page;

    // The filled layer deleted: refused.
    let id = app.fill.last.as_ref().unwrap().layer_id;
    let li = app.doc.layer_index_of(id).expect("the flats layer exists");
    app.doc.layers.remove(li);
    app.doc.set_active(0);
    assert_eq!(app.arm_fill_repair(true, true), Armed::Refused(Refusal::LayerGone));
    assert!(app.shell.status.contains("layer is gone"), "{:?}", app.shell.status);
    assert!(app.fill.repair.is_none());
}

#[test]
fn a_folder_is_no_place_for_a_refill() {
    let mut app = headless(Tool::Fill);
    u_shaped_gap(&mut app);
    fill(&mut app, 60.0, 60.0);
    app.doc.layers[1].paintable = false;
    assert_eq!(app.fill_repairable(), Err(Refusal::NotPaintable));
    assert_eq!(app.arm_fill_repair(true, true), Armed::Refused(Refusal::NotPaintable));
    assert!(!app.arm_undoes());
}

#[test]
fn a_virtual_barrier_repair_is_one_undo_press() {
    let mut app = headless(Tool::Fill);
    u_shaped_gap(&mut app);
    scribble(&mut app);
    let pre_leak = app.doc.undo_labels.clone();
    fill(&mut app, 60.0, 60.0);

    assert!(app.arm_undoes());
    assert_eq!(app.arm_fill_repair(true, true), Armed::Now);
    assert_eq!(app.doc.undo_labels, pre_leak, "arming undid the leaked fill first");
    assert_eq!(app.doc.active, 1, "and the filled layer is the active one");

    // The closing stroke, through the canvas.
    assert_eq!(drag_through(&mut app, &[52.0, 56.0, 60.0, 64.0, 68.0, 72.0, 76.0], 106.0).len(), 7);
    let repair = app.take_fill_repair().expect("still armed");
    assert_eq!(app.refill_plan(&repair), Refill::Run { layer: 1, wall: true });
    app.finish_fill_repair(repair, 4000);
    assert!(app.fill.repair.is_none(), "the gesture closed");
    assert_eq!(app.shell.status, "fill repaired (virtual barrier) — one undo takes it all back");

    app.doc.pop_op();
    assert_eq!(app.doc.undo_labels, pre_leak, "one undo returns the pre-leak state");
}

/// The points that the barrier has collected after a drag along a line.
fn drag_through(app: &mut App, xs: &[f32], y: f32) -> Vec<Pt> {
    let p = press(app, xs[0], y);
    assert!(matches!(app.canvas_down(&p), DownAct::Done));
    for x in &xs[1..] {
        app.canvas_move(motion(*x, y));
    }
    app.fill.repair.as_ref().unwrap().pts.clone()
}

#[test]
fn a_real_ink_repair_folds_its_stroke_into_one_step() {
    let mut app = headless(Tool::Fill);
    u_shaped_gap(&mut app);
    fill(&mut app, 60.0, 60.0);
    assert_eq!(app.arm_fill_repair(false, true), Armed::Now);
    app.doc.push_op("Brush"); // the closing stroke on the line art
    let repair = app.take_fill_repair().unwrap();
    assert_eq!(app.refill_plan(&repair), Refill::Run { layer: 1, wall: false });
    app.finish_fill_repair(repair, 1);
    assert_eq!(app.doc.undo_labels, ["Repair fill"]);
    assert_eq!(app.shell.status, "fill repaired — ink kept; one undo takes it all back");
}

#[test]
fn a_stroke_that_changed_nothing_takes_no_earlier_work_along() {
    let mut app = headless(Tool::Fill);
    u_shaped_gap(&mut app);
    scribble(&mut app);
    fill(&mut app, 60.0, 60.0);
    app.arm_fill_repair(false, true);
    let repair = app.take_fill_repair().unwrap();
    app.finish_fill_repair(repair, 1);
    assert_eq!(app.doc.undo_labels, ["Brush", "Fill"]);
}

#[test]
fn arming_again_only_changes_the_barrier() {
    let mut app = headless(Tool::Fill);
    u_shaped_gap(&mut app);
    fill(&mut app, 60.0, 60.0);
    app.arm_fill_repair(true, true);
    let labels = app.doc.undo_labels.clone();
    assert!(!app.arm_undoes());
    assert_eq!(app.arm_fill_repair(false, true), Armed::Again);
    assert!(!app.fill.repair.as_ref().unwrap().virtual_barrier);
    assert_eq!(app.doc.undo_labels, labels);
    assert_eq!(app.shell.status, "repair re-armed: real-ink barrier — draw the closing stroke");
}

#[test]
fn an_undo_that_failed_arms_nothing() {
    let mut app = headless(Tool::Fill);
    u_shaped_gap(&mut app);
    fill(&mut app, 60.0, 60.0);
    assert_eq!(app.arm_fill_repair(true, false), Armed::NothingToUndo);
    assert!(app.fill.repair.is_none());
    assert_eq!(app.shell.status, "nothing to undo — the fill already went");
}

#[test]
fn a_repair_stands_down_when_its_layer_or_page_went() {
    let mut app = headless(Tool::Fill);
    u_shaped_gap(&mut app);
    fill(&mut app, 60.0, 60.0);
    app.arm_fill_repair(true, true);
    let mut repair = app.take_fill_repair().unwrap();
    repair.leak.page_uid = 5;
    assert_eq!(app.refill_plan(&repair), Refill::PageMoved);
    repair.leak.layer_id = 99;
    assert_eq!(app.refill_plan(&repair), Refill::LayerGone);
    app.finish_fill_repair(repair, 10);
    assert_eq!(app.shell.status, "the filled layer is gone — repair stood down");
    assert!(app.doc.undo_labels.is_empty());
}

#[test]
fn a_refill_of_nothing_says_so() {
    let mut app = headless(Tool::Fill);
    u_shaped_gap(&mut app);
    fill(&mut app, 60.0, 60.0);
    app.arm_fill_repair(true, true);
    let repair: FillRepair = app.take_fill_repair().unwrap();
    app.finish_fill_repair(repair, 0);
    assert_eq!(app.shell.status, "repair filled nothing — the barrier may have sealed the seed");
    assert!(app.doc.undo_labels.is_empty());
}

#[test]
fn cancelling_leaves_the_leak_undone() {
    let mut app = headless(Tool::Fill);
    u_shaped_gap(&mut app);
    fill(&mut app, 60.0, 60.0);
    app.arm_fill_repair(true, true);
    app.cancel_fill_repair();
    assert!(app.fill.repair.is_none());
    assert!(app.doc.undo_labels.is_empty());
    assert_eq!(app.shell.status, "fill repair cancelled — the leaked fill stays undone");
}
