//! Speech balloons and the lettering that goes along.

use mn_app::app::{App, AppCmd, NewBalloon, Stops, Tail, Tools};
use mn_app::balloons::{AnchorFacts, BalloonDrop, BalloonFacts, TextMove, close_drawn};
use mn_app::canvas_input::{BalloonDragMode, BalloonHandle, BalloonObjDrag};
use mn_app::doc::{Document, Layer, LayerKind};
use mn_app::figure::LineOpts;
use mn_app::geom::{Colour, Pt, Sample, Size};
use mn_app::layer_defaults::LayerDefaults;
use mn_app::modes::{
    BalloonMode, FigureMode, FillMode, FrameMode, GradMode, ObjectMode, PanMode, SelectCombine,
    SelectMode, Tool,
};

fn no_lines() -> LineOpts {
    LineOpts {
        count: 0,
        width: 0,
        jitter: 0,
        taper: 0,
        gap_deg: 0,
        gap_px: 0,
        group: 0,
        group_gap: 0,
        jit_gap: 0,
        jit_len: 0,
        jit_width: 0,
        seed: 1,
    }
}

fn colour(r: f32, g: f32, b: f32) -> Colour {
    Colour { r: r.to_bits(), g: g.to_bits(), b: b.to_bits(), a: 1f32.to_bits() }
}

fn tools(tool: Tool) -> Tools {
    Tools {
        tool,
        fill_mode: FillMode::Click,
        select_mode: SelectMode::Rect,
        figure_mode: FigureMode::Line,
        grad_mode: GradMode::FgToBg,
        frame_mode: FrameMode::Folder,
        balloon_mode: BalloonMode::Ellipse,
        object_mode: ObjectMode::Object,
        object_combine: SelectCombine::New,
        pan_mode: PanMode::Hand,
        figure_adjust_angle: false,
        figure_fill: false,
        figure_focus: no_lines(),
        figure_stream: no_lines(),
        smart_shape_on: false,
        fill_live: false,
        active_color: colour(1.0, 0.0, 0.0),
        sub_color: colour(0.0, 0.0, 1.0),
        symmetric_lines: 2,
        grad_stops: Stops { mid: 31, opts: 32 },
        balloon_ink: 33,
        balloon_tail_kind: 34,
        balloon_tail_bend: 0.25f32.to_bits(),
    }
}

fn headless(tool: Tool) -> App {
    App::new(Document::new(Size { w: 400, h: 400 }), tools(tool), LayerDefaults::new())
}

fn pt(x: f32, y: f32) -> Pt {
    Pt { x: x.to_bits(), y: y.to_bits() }
}

fn add_layer(app: &mut App, name: &str, kind: LayerKind) -> usize {
    let id = app.doc.layers.iter().map(|l| l.id).max().unwrap_or(0) + 1;
    let mut l = Layer::raster(id, name);
    l.paintable = matches!(kind, LayerKind::Raster);
    l.kind = kind;
    app.doc.layers.push(l);
    app.doc.layers.len() - 1
}

fn path(pts: &[(f32, f32)]) -> Vec<Sample> {
    pts.iter().map(|p| Sample { at: pt(p.0, p.1), pressure: 1f32.to_bits() }).collect()
}

fn facts(app: &App) -> BalloonFacts {
    BalloonFacts { big: true, drawn: None, under: vec![None; app.doc.layers.len()], long: true, tail_width: 12f32.to_bits() }
}

fn moves(app: &App, at: usize, n: usize) -> Vec<TextMove> {
    (0..app.doc.layers.len()).map(|li| TextMove { n: if li == at { n } else { 0 }, texts: 500 + li as u64 }).collect()
}

#[test]
fn a_drag_spans_a_balloon_and_a_tap_does_not() {
    let mut app = headless(Tool::Balloon);
    let f = facts(&app);
    app.finish_balloon_drag(&path(&[(10.0, 10.0), (90.0, 60.0)]), f);
    assert!(matches!(
        app.shell.cmds.last(),
        Some(AppCmd::BalloonAdd { balloon: NewBalloon::Ellipse { a, b }, ink: 33 }) if *a == pt(10.0, 10.0) && *b == pt(90.0, 60.0)
    ));
    app.tools.balloon_mode = BalloonMode::Round;
    let f = BalloonFacts { big: false, ..facts(&app) };
    app.finish_balloon_drag(&path(&[(10.0, 10.0)]), f);
    assert_eq!(app.shell.cmds.len(), 1);
    assert_eq!(app.shell.status, "drag out the balloon's size");
}

#[test]
fn a_drawn_outline_closes_on_itself() {
    let mut pts = vec![pt(0.0, 0.0), pt(5.0, 0.0), pt(5.0, 5.0), pt(0.1, 0.1)];
    let mut widths = vec![1, 2, 3, 4];
    close_drawn(&mut pts, &mut widths, true);
    assert_eq!(pts.len(), 3);
    assert_eq!(widths, [1, 2, 3]);
    close_drawn(&mut pts, &mut widths, false);
    assert_eq!(pts.len(), 3);
}

#[test]
fn a_tail_goes_to_the_topmost_balloon_that_shows() {
    let mut app = headless(Tool::Balloon);
    app.tools.balloon_mode = BalloonMode::Tail;
    let low = add_layer(&mut app, "low", LayerKind::Balloon(1));
    let top = add_layer(&mut app, "top", LayerKind::Balloon(2));
    let mut f = facts(&app);
    f.under[low] = Some(0);
    f.under[top] = Some(1);
    app.finish_balloon_drag(&path(&[(10.0, 10.0), (90.0, 60.0)]), f);
    assert!(matches!(app.shell.cmds.last(), Some(AppCmd::BalloonTailAdd { layer, balloon: 1, .. }) if *layer == top));
    let tail = Tail {
        base: pt(10.0, 10.0),
        tip: pt(90.0, 60.0),
        width: 12f32.to_bits(),
        kind: 34,
        bend: 0.25f32.to_bits(),
    };
    assert!(matches!(app.shell.cmds.last(), Some(AppCmd::BalloonTailAdd { tail: t, .. }) if *t == tail));
    app.doc.layers[top].look.visible = false;
    let mut f = facts(&app);
    f.under[low] = Some(0);
    f.under[top] = Some(1);
    app.finish_balloon_drag(&path(&[(10.0, 10.0), (90.0, 60.0)]), f);
    assert!(matches!(app.shell.cmds.last(), Some(AppCmd::BalloonTailAdd { layer, balloon: 0, .. }) if *layer == low));
}

#[test]
fn lettering_goes_along_with_its_balloon_in_one_step() {
    let mut app = headless(Tool::Object);
    let b = add_layer(&mut app, "balloons", LayerKind::Balloon(1));
    let t = add_layer(&mut app, "text", LayerKind::Text(2));
    let g = BalloonObjDrag {
        layer: b,
        balloon: 0,
        mode: BalloonDragMode::MoveWhole,
        start: pt(0.0, 0.0),
        cur: pt(60.0, 50.0),
        shift_snap: false,
    };
    let d = BalloonDrop { moved: true, valid: true, rotates_exactly: true, still: false, balloons: 40, texts: moves(&app, t, 2) };
    app.finish_balloon_obj_drag(g, d);
    let cmds = &app.shell.cmds;
    assert!(matches!(cmds[0], AppCmd::BalloonCommit { layer, balloons: 40 } if layer == b));
    assert!(matches!(cmds[1], AppCmd::TextCommit { layer, texts } if layer == t && texts == 500 + t as u64));
    assert!(matches!(cmds.last(), Some(AppCmd::HistoryWrapLast { count: 2, .. })), "{cmds:?}");
}

#[test]
fn locked_lettering_stays_where_it_is() {
    let mut app = headless(Tool::Object);
    add_layer(&mut app, "balloons", LayerKind::Balloon(1));
    let t = add_layer(&mut app, "text", LayerKind::Text(2));
    app.doc.layers[t].lock = true;
    let texts = moves(&app, t, 2);
    assert_eq!(app.translate_texts_with_balloon(false, &texts), 0);
    assert!(app.shell.cmds.is_empty());
}

#[test]
fn a_balloon_that_would_collapse_is_put_back() {
    let mut app = headless(Tool::Object);
    let b = add_layer(&mut app, "balloons", LayerKind::Balloon(1));
    let g = BalloonObjDrag {
        layer: b,
        balloon: 0,
        mode: BalloonDragMode::BoxCorner(1),
        start: pt(0.0, 0.0),
        cur: pt(60.0, 50.0),
        shift_snap: false,
    };
    let d = BalloonDrop { moved: true, valid: false, rotates_exactly: true, still: false, balloons: 40, texts: moves(&app, b, 0) };
    app.finish_balloon_obj_drag(g, d);
    assert_eq!(app.shell.status, "that edit would collapse the balloon — reverted");
    assert!(app.shell.cmds.is_empty());
}

#[test]
fn anchors_are_deleted_turned_and_added() {
    let mut app = headless(Tool::Object);
    let b = add_layer(&mut app, "balloons", LayerKind::Balloon(1));
    app.picked.balloon = Some((b, 0));
    let on = AnchorFacts {
        handle: Some(BalloonHandle::Shape(1)),
        drawn: true,
        edited: Some(61),
        on_edge: false,
        inserted: None,
    };
    assert!(app.balloon_anchor_edit(true, false, on));
    assert!(matches!(app.shell.cmds.last(), Some(AppCmd::BalloonCommit { balloons: 61, .. })));
    assert!(!app.shell.status.is_empty());
    let off = AnchorFacts { handle: None, drawn: true, edited: None, on_edge: false, inserted: None };
    assert!(!app.balloon_anchor_edit(false, false, off), "a plain press is not an edit");
}
