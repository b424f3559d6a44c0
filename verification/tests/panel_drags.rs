//! Panels under the Object tool.

use mn_app::app::{App, AppCmd, Stops, Tools};
use mn_app::canvas_input::{BalloonDragMode, BalloonHandle, BalloonObjDrag, ObjectDrag, ObjectDragMode};
use mn_app::doc::{Document, FrameSet, Layer, LayerKind};
use mn_app::figure::LineOpts;
use mn_app::floats::place_of;
use mn_app::geom::{Colour, Pt, Size};
use mn_app::layer_defaults::LayerDefaults;
use mn_app::modes::{
    BalloonMode, FigureMode, FillMode, FrameMode, GradMode, ObjectMode, PanMode, SelectCombine,
    SelectMode, Tool,
};
use mn_app::panels::{
    Edges, Expand, FrameDrop, FrameEnd, PanelHit, Pull, Reshape, SibHit, SnapLine, Targets, border_pulls,
    edge_snap, expand_points, find_gap, frame_expand_targets, frame_expanded, panel_at,
};

fn no_lines() -> LineOpts {
    LineOpts {
        count: 0,
        width: 0,
        jitter: 0,
        taper: 0,
        gap_deg: 0,
        gap_px: 0,
        group: 0,
        group_gap: 0,
        jit_gap: 0,
        jit_len: 0,
        jit_width: 0,
        seed: 1,
    }
}

fn colour(r: f32, g: f32, b: f32) -> Colour {
    Colour { r: r.to_bits(), g: g.to_bits(), b: b.to_bits(), a: 1f32.to_bits() }
}

fn tools(tool: Tool) -> Tools {
    Tools {
        tool,
        fill_mode: FillMode::Click,
        select_mode: SelectMode::Rect,
        figure_mode: FigureMode::Line,
        grad_mode: GradMode::FgToBg,
        frame_mode: FrameMode::Folder,
        balloon_mode: BalloonMode::Ellipse,
        object_mode: ObjectMode::Object,
        object_combine: SelectCombine::New,
        pan_mode: PanMode::Hand,
        figure_adjust_angle: false,
        figure_fill: false,
        figure_focus: no_lines(),
        figure_stream: no_lines(),
        smart_shape_on: false,
        fill_live: false,
        active_color: colour(1.0, 0.0, 0.0),
        sub_color: colour(0.0, 0.0, 1.0),
        symmetric_lines: 2,
        grad_stops: Stops { mid: 31, opts: 32 },
        balloon_ink: 33,
        balloon_tail_kind: 34,
        balloon_tail_bend: 0.25f32.to_bits(),
    }
}

fn headless(tool: Tool) -> App {
    App::new(Document::new(Size { w: 400, h: 400 }), tools(tool), LayerDefaults::new())
}

fn pt(x: f32, y: f32) -> Pt {
    Pt { x: x.to_bits(), y: y.to_bits() }
}

fn add_layer(app: &mut App, name: &str, kind: LayerKind) -> usize {
    let id = app.doc.layers.iter().map(|l| l.id).max().unwrap_or(0) + 1;
    let mut l = Layer::raster(id, name);
    l.paintable = matches!(kind, LayerKind::Raster);
    l.kind = kind;
    app.doc.layers.push(l);
    app.doc.layers.len() - 1
}

fn frame_layer(app: &mut App, n: usize) -> usize {
    add_layer(app, "Frames", LayerKind::Frame(FrameSet { frames: n, reading_pin: None, border_ruler: false }))
}

fn frame_drag(layer: usize, mode: ObjectDragMode) -> ObjectDrag {
    ObjectDrag { layer, frame: 0, mode, start: pt(0.0, 0.0), cur: pt(9.0, 0.0), shift_snap: true }
}

fn drop_of(app: &App) -> FrameDrop {
    let n = app.doc.layers.len();
    FrameDrop {
        moved: true,
        valid: true,
        edge_moved: true,
        sibs: (0..n).map(|_| Vec::new()).collect(),
        align: true,
        reach: 1f32.to_bits(),
        limit: 100f32.to_bits(),
        frames: vec![70; n],
        dx: 0,
        dy: 0,
    }
}

fn apart() -> SibHit {
    SibHit { on_edge: 0, at_end: false, facing: None, apart: true, ok_shared: true, ok_facing: true }
}

#[test]
fn the_innermost_panel_is_the_smallest() {
    let v = vec![
        PanelHit { layer: 1, area: 900f32.to_bits() },
        PanelHit { layer: 2, area: 100f32.to_bits() },
        PanelHit { layer: 3, area: 100f32.to_bits() },
    ];
    assert_eq!(panel_at(&v), Some(1));
    assert_eq!(panel_at(&Vec::new()), None);
}

#[test]
fn each_handle_reshapes_in_its_own_way() {
    assert_eq!(frame_drag(0, ObjectDragMode::MoveWhole).preview(4), Reshape::Translate { snap: false });
    assert_eq!(frame_drag(0, ObjectDragMode::Vertex(2)).preview(4), Reshape::Vertices(2, 2));
    assert_eq!(frame_drag(0, ObjectDragMode::Edge(3)).preview(4), Reshape::Vertices(3, 0));
    assert_eq!(frame_drag(0, ObjectDragMode::Rotate).preview(4), Reshape::Turn { snap: true });
    assert_eq!(frame_drag(0, ObjectDragMode::ScaleCorner(1)).preview(4), Reshape::Scale { corner: 3 });
    assert_eq!(frame_drag(0, ObjectDragMode::ScaleEdge(0)).preview(4), Reshape::Stretch { side: 2 });
    let b = BalloonObjDrag {
        layer: 0,
        balloon: 0,
        mode: BalloonDragMode::MoveWhole,
        start: pt(0.0, 0.0),
        cur: pt(1.0, 1.0),
        shift_snap: true,
    };
    assert_eq!(b.preview(), Reshape::Translate { snap: true });
    let b = BalloonObjDrag { mode: BalloonDragMode::Handle(BalloonHandle::TailTip(0)), ..b };
    assert_eq!(b.preview(), Reshape::Handle);
    let b = BalloonObjDrag { mode: BalloonDragMode::BoxRotate, ..b };
    assert!(b.rotation(true) && !b.rotation(false));
}

#[test]
fn a_border_snaps_to_the_nearest_line_of_its_own_direction() {
    let line = |dist: f32, at: f32, aligned: bool, own: bool| SnapLine {
        dist: dist.to_bits(),
        at: at.to_bits(),
        aligned,
        own,
    };
    let v = vec![line(1.0, 10.0, false, false), line(4.0, 20.0, true, false), line(3.0, 30.0, true, false), line(0.5, 40.0, true, true)];
    assert_eq!(edge_snap(&v, 8f32.to_bits()), Some(30f32.to_bits()));
    assert_eq!(edge_snap(&v, 2f32.to_bits()), None);
}

#[test]
fn a_dragged_border_takes_the_panels_along_that_share_it() {
    let mut app = headless(Tool::Object);
    let a = frame_layer(&mut app, 1);
    let b = frame_layer(&mut app, 1);
    let mut d = drop_of(&app);
    d.sibs[a].push(apart());
    d.sibs[b].push(SibHit { on_edge: 2, ..apart() });
    assert_eq!(find_gap(&app.doc.layers, &d.sibs, a, 0), None);
    let r = app.finish_object_drag(frame_drag(a, ObjectDragMode::Edge(0)), d);
    assert!(matches!(r, FrameEnd::Done { .. }), "{r:?}");
    let moved: Vec<usize> = app
        .shell
        .cmds
        .iter()
        .filter_map(|c| match c {
            AppCmd::FrameCommit { layer, .. } => Some(*layer),
            _ => None,
        })
        .collect();
    assert!(moved.contains(&a) && moved.contains(&b), "{moved:?}");
}

#[test]
fn a_panel_that_would_collapse_stops_the_drag() {
    let mut app = headless(Tool::Object);
    let a = frame_layer(&mut app, 1);
    let b = frame_layer(&mut app, 1);
    let mut d = drop_of(&app);
    d.sibs[a].push(apart());
    d.sibs[b].push(SibHit { on_edge: 2, ok_shared: false, ..apart() });
    app.finish_object_drag(frame_drag(a, ObjectDragMode::Edge(0)), d);
    assert!(app.shell.cmds.is_empty());
    assert!(!app.shell.status.is_empty(), "and says why");
}

#[test]
fn a_drag_that_went_nowhere_changes_nothing() {
    let mut app = headless(Tool::Object);
    let a = frame_layer(&mut app, 1);
    let mut d = drop_of(&app);
    d.moved = false;
    assert!(matches!(app.finish_object_drag(frame_drag(a, ObjectDragMode::Edge(0)), d), FrameEnd::Nothing));
    assert!(app.shell.cmds.is_empty());
}

#[test]
fn a_panel_expands_to_the_next_border() {
    let mut app = headless(Tool::Object);
    let a = frame_layer(&mut app, 2);
    let me = Edges { left: 100, right: 200, top: 100, bottom: 200 };
    let other = Edges { left: 300, right: 400, top: 0, bottom: 50 };
    let page = Edges { left: 0, right: 1000, top: 0, bottom: 1000 };
    let boxes: Vec<Vec<Edges>> = (0..app.doc.layers.len()).map(|li| if li == a { vec![me, other] } else { Vec::new() }).collect();
    let t = frame_expand_targets(&app.doc.layers, &boxes, &vec![page], a, 0, me);
    assert_eq!(t, Targets { left: Some(0), right: Some(300), top: Some(50), bottom: Some(1000) });
    let none = frame_expand_targets(&app.doc.layers, &boxes, &vec![page], 0, 0, me);
    assert_eq!(none, Targets { left: None, right: None, top: None, bottom: None });

    let mut points = vec![pt(100.0, 100.0), pt(200.0, 100.0), pt(200.0, 200.0), pt(100.0, 200.0)];
    assert!(expand_points(&mut points, &vec![false, true, true, false], 1, 300f32.to_bits()));
    assert_eq!(points, [pt(100.0, 100.0), pt(300.0, 100.0), pt(300.0, 200.0), pt(100.0, 200.0)]);

    app.picked.frame = Some((a, 0));
    let side = vec![false, true, true, false];
    assert_eq!(app.frame_expand_press(1, t, &side, false, false), Expand::Refused);
    assert_eq!(app.shell.status, "expand refused — the panel would collapse");
    assert!(!app.work.dirty);
    assert_eq!(app.frame_expand_press(1, t, &side, true, true), Expand::Done);
    assert_eq!(app.shell.status, "panel expanded to the next border");
    assert!(app.work.dirty);
    assert_eq!(app.frame_expand_press(1, none, &side, true, true), Expand::Pass, "no border");
    assert_eq!(app.frame_expand_press(1, t, &vec![false; 4], true, true), Expand::Pass, "no vertex on the side");
    assert_eq!(app.frame_expand_press(1, t, &side, true, false), Expand::Pass, "the document did not take it");
}

#[test]
fn an_arrow_moves_its_own_side_to_its_own_border() {
    let place = |v: f32| place_of(v.to_bits());
    let t = Targets { left: Some(place(-12.5)), right: Some(place(300.0)), top: None, bottom: Some(place(900.0)) };
    let points = vec![pt(100.0, 100.0), pt(200.0, 100.0), pt(200.0, 200.0), pt(100.0, 200.0)];
    assert_eq!(
        frame_expanded(0, t, &points, &vec![true, false, false, true]),
        Some(vec![pt(-12.5, 100.0), pt(200.0, 100.0), pt(200.0, 200.0), pt(-12.5, 200.0)])
    );
    assert_eq!(
        frame_expanded(1, t, &points, &vec![false, true, true, false]),
        Some(vec![pt(100.0, 100.0), pt(300.0, 100.0), pt(300.0, 200.0), pt(100.0, 200.0)])
    );
    assert_eq!(frame_expanded(2, t, &points, &vec![true, true, false, false]), None, "nothing above");
    assert_eq!(
        frame_expanded(3, t, &points, &vec![false, false, true, true]),
        Some(vec![pt(100.0, 100.0), pt(200.0, 100.0), pt(200.0, 900.0), pt(100.0, 900.0)])
    );
    assert_eq!(frame_expanded(3, t, &points, &vec![false; 4]), None, "no vertex on the side");
}

#[test]
fn each_panel_shares_the_border_faces_it_or_stays() {
    let mut app = headless(Tool::Object);
    let a = frame_layer(&mut app, 2);
    let b = frame_layer(&mut app, 4);
    let across = |d: f32| SibHit { facing: Some(d.to_bits()), apart: true, ..apart() };
    let mut sibs: Vec<Vec<SibHit>> = app.doc.layers.iter().map(|_| Vec::new()).collect();
    sibs[a] = vec![SibHit { on_edge: 2, ..apart() }, SibHit { on_edge: 1, at_end: true, ..apart() }];
    sibs[b] = vec![SibHit { on_edge: 2, ..across(6.0) }, across(6.0), across(7.0), across(40.0)];
    let pulls = |align: bool, reach: f32| {
        border_pulls(&app.doc.layers, &sibs, a, 0, align, reach.to_bits(), 7.5f32.to_bits())
    };
    assert_eq!(find_gap(&app.doc.layers, &sibs, a, 0), Some(6f32.to_bits()));
    let p = pulls(true, 20.0);
    assert_eq!(p[a], [Pull::Stays, Pull::Stays], "neither the panel itself nor a corner at the end");
    assert_eq!(p[b], [Pull::Shares, Pull::Faces, Pull::Faces, Pull::Stays]);
    assert_eq!(pulls(false, 20.0)[b], [Pull::Shares, Pull::Stays, Pull::Stays, Pull::Stays]);
    assert_eq!(pulls(true, 5.0)[b], [Pull::Shares, Pull::Stays, Pull::Stays, Pull::Stays], "wider than a gutter");
}
