//! Edits of a figure's click list, pins of a float, and numbers in a file.

use mn_app::text;
use mn_app::app::{App, FigureAnchor, Mesh, PuppetPin, Stops, Tools, TransformDrag, TransformGrab};
use mn_app::doc::Document;
use mn_app::figure::{FigureAct, FigurePress, LineOpts, PolyHit};
use mn_app::geom::{Colour, Pt, Size};
use mn_app::layer_defaults::LayerDefaults;
use mn_app::layout::{LEFT_W, LineRead, RIGHT_W, UiLayout};
use mn_app::modes::{
    BalloonMode, FigureMode, FillMode, FrameMode, GradMode, ObjectMode, PanMode, SelectCombine,
    SelectMode, Tool,
};
use mn_app::transform::FloatHit;

fn no_lines() -> LineOpts {
    LineOpts {
        count: 0,
        width: 0,
        jitter: 0,
        taper: 0,
        gap_deg: 0,
        gap_px: 0,
        group: 0,
        group_gap: 0,
        jit_gap: 0,
        jit_len: 0,
        jit_width: 0,
        seed: 1,
    }
}

fn colour(r: f32, g: f32, b: f32) -> Colour {
    Colour { r: r.to_bits(), g: g.to_bits(), b: b.to_bits(), a: 1f32.to_bits() }
}

fn tools(tool: Tool) -> Tools {
    Tools {
        tool,
        fill_mode: FillMode::Click,
        select_mode: SelectMode::Rect,
        figure_mode: FigureMode::Line,
        grad_mode: GradMode::FgToBg,
        frame_mode: FrameMode::Folder,
        balloon_mode: BalloonMode::Ellipse,
        object_mode: ObjectMode::Object,
        object_combine: SelectCombine::New,
        pan_mode: PanMode::Hand,
        figure_adjust_angle: false,
        figure_fill: false,
        figure_focus: no_lines(),
        figure_stream: no_lines(),
        smart_shape_on: false,
        fill_live: false,
        active_color: colour(1.0, 0.0, 0.0),
        sub_color: colour(0.0, 0.0, 1.0),
        symmetric_lines: 2,
        grad_stops: Stops { mid: 31, opts: 32 },
        balloon_ink: 33,
        balloon_tail_kind: 34,
        balloon_tail_bend: 0.25f32.to_bits(),
    }
}

fn headless(tool: Tool) -> App {
    App::new(Document::new(Size { w: 400, h: 400 }), tools(tool), LayerDefaults::new())
}

fn pt(x: f32, y: f32) -> Pt {
    Pt { x: x.to_bits(), y: y.to_bits() }
}

/// A figure of three clicked points.
fn clicked(mode: FigureMode) -> App {
    let mut app = headless(Tool::Figure);
    app.tools.figure_mode = mode;
    app.figure.poly =
        Some([(10.0, 10.0), (50.0, 10.0), (50.0, 50.0)].map(|(x, y)| FigureAnchor { p: pt(x, y), corner: false }).to_vec());
    app
}

fn reach(anchors: &[f32], lines: &[f32], dense: &[(f32, f32)]) -> PolyHit {
    PolyHit {
        anchors: anchors.iter().map(|d| d.to_bits()).collect(),
        lines: lines.iter().map(|d| d.to_bits()).collect(),
        tol: 10f32.to_bits(),
        dense: dense.iter().map(|p| pt(p.0, p.1)).collect(),
    }
}

const DENSE: [(f32, f32); 3] = [(10.0, 10.0), (50.0, 10.0), (50.0, 50.0)];

fn points(app: &App) -> Vec<Pt> {
    app.figure.poly.as_ref().unwrap().iter().map(|a| a.p).collect()
}

#[test]
fn of_two_anchors_as_near_the_later_is_taken() {
    let mut app = clicked(FigureMode::Polygon);
    let h = reach(&[9.0, 4.0, 4.0], &[30.0, 30.0], &DENSE);
    assert!(app.figure_poly_edit(pt(50.0, 30.0), true, false, &h));
    assert_eq!(app.figure.anchor_drag, Some(2));
    assert_eq!(app.shell.status, "moving that point — release to drop it");
    app.figure_anchor_drag_move(pt(60.0, 60.0));
    assert_eq!(points(&app), vec![pt(10.0, 10.0), pt(50.0, 10.0), pt(60.0, 60.0)]);
}

#[test]
fn a_tap_on_an_anchor_deletes_it_down_to_none() {
    let mut app = clicked(FigureMode::Polygon);
    assert!(app.figure_poly_edit(pt(50.0, 10.0), false, false, &reach(&[40.0, 0.0, 40.0], &[0.0, 0.0], &DENSE)));
    assert_eq!(app.shell.status, "point deleted — 2 left");
    let h = reach(&[0.0, 90.0], &[0.0], &[(10.0, 10.0), (50.0, 50.0)]);
    assert!(app.figure_poly_edit(pt(10.0, 10.0), false, false, &h));
    assert_eq!(app.shell.status, "point deleted — 1 left");
    assert!(app.figure_poly_edit(pt(50.0, 50.0), false, false, &reach(&[0.0], &[], &[])));
    assert!(app.figure.poly.is_none());
    assert_eq!(app.shell.status, "figure cancelled — no points left");
}

#[test]
fn a_tap_on_the_line_puts_a_point_into_its_own_span() {
    let mut app = clicked(FigureMode::Polygon);
    let h = reach(&[28.0, 28.0, 30.0], &[40.0, 1.0], &DENSE);
    assert!(app.figure_poly_edit(pt(50.0, 30.0), false, false, &h));
    assert_eq!(points(&app), vec![pt(10.0, 10.0), pt(50.0, 10.0), pt(50.0, 30.0), pt(50.0, 50.0)]);
    assert_eq!(app.shell.status, "point inserted — 4 now");
    let dense = [(10.0, 10.0), (50.0, 10.0), (50.0, 30.0), (50.0, 50.0)];
    let h = reach(&[40.0, 20.0, 0.0, 20.0], &[40.0, 0.0, 0.0], &dense);
    assert!(app.figure_poly_edit(pt(50.0, 30.0), false, false, &h));
    assert_eq!(points(&app), points(&clicked(FigureMode::Polygon)), "the point is taken out again");
}

#[test]
fn a_span_of_a_curve_ends_where_the_line_meets_its_anchor() {
    let mut app = clicked(FigureMode::Curve);
    let dense = [(10.0, 10.0), (30.0, 8.0), (50.0, 10.0), (52.0, 30.0), (50.0, 50.0)];
    let h = reach(&[40.0, 20.0, 20.0], &[40.0, 20.0, 1.0, 1.0], &dense);
    assert!(app.figure_poly_edit(pt(51.0, 28.0), false, false, &h));
    assert_eq!(points(&app)[2], pt(51.0, 28.0));
}

#[test]
fn alt_turns_a_corner_of_a_curve_and_only_explains_itself_on_a_polygon() {
    let mut app = clicked(FigureMode::Curve);
    let h = reach(&[40.0, 0.0, 40.0], &[0.0, 0.0], &DENSE);
    assert!(app.figure_poly_edit(pt(50.0, 10.0), false, true, &h));
    assert!(app.figure.poly.as_ref().unwrap()[1].corner);
    assert_eq!(app.shell.status, "corner point — the curve creases here");
    assert!(app.figure_poly_edit(pt(50.0, 10.0), false, true, &h));
    assert!(!app.figure.poly.as_ref().unwrap()[1].corner);
    assert_eq!(app.shell.status, "smooth point — the curve sweeps through");
    let mut app = clicked(FigureMode::Polygon);
    assert!(app.figure_poly_edit(pt(50.0, 10.0), false, true, &h), "the press is used up all the same");
    assert_eq!(points(&app).len(), 3);
    assert_eq!(app.shell.status, "corner/curve only applies to the Continuous curve");
}

#[test]
fn a_press_that_is_no_edit_appends_a_point() {
    let mut app = clicked(FigureMode::Polygon);
    let far = reach(&[90.0, 90.0, 90.0], &[90.0, 90.0], &DENSE);
    assert!(!app.figure_poly_edit(pt(90.0, 90.0), true, false, &far), "a held key over nothing is no dead click");
    let press = app.figure_press(pt(90.0, 90.0), false, false, false, &far);
    assert!(matches!(press, FigurePress::Act(FigureAct::Nothing)));
    assert_eq!(points(&app).len(), 4);
    assert_eq!(points(&app)[3], pt(90.0, 90.0));
}

#[test]
fn pins_are_dropped_held_and_taken_out() {
    let mut app = headless(Tool::Object);
    let none = FloatHit { pin: None, mesh_point: None, grab: TransformGrab::Move };
    app.transform_down(pt(1.0, 1.0), false, none);
    assert!(app.hold.transform_drag.is_none(), "there is no float");
    let pin = PuppetPin { orig: pt(5.0, 5.0), cur: pt(6.0, 6.0) };
    app.hold.transform_drag =
        Some(TransformDrag { gesture: None, mesh: Some(Mesh { puppet: true, pins: vec![pin] }), object_lift: false });
    let pins = |app: &App| app.hold.transform_drag.as_ref().unwrap().mesh.as_ref().unwrap().pins.clone();
    app.transform_down(pt(9.0, 9.0), false, none);
    assert_eq!(pins(&app), vec![pin, PuppetPin { orig: pt(9.0, 9.0), cur: pt(9.0, 9.0) }]);
    let g = app.transform_gesture().unwrap();
    assert!(g.grab == TransformGrab::PuppetPin(1) && g.start == pt(9.0, 9.0));
    app.transform_down(pt(9.0, 9.0), true, FloatHit { pin: Some(1), ..none });
    assert_eq!(pins(&app), vec![pin]);
    app.transform_down(pt(6.0, 6.0), false, FloatHit { pin: Some(0), ..none });
    assert_eq!(pins(&app), vec![pin]);
    assert_eq!(app.transform_gesture().unwrap().grab, TransformGrab::PuppetPin(0));
    app.transform_down(pt(6.0, 6.0), true, none);
    assert_eq!(pins(&app), vec![pin]);
}

#[test]
fn a_lattice_gives_its_point_or_the_whole() {
    let mut app = headless(Tool::Object);
    app.hold.transform_drag =
        Some(TransformDrag { gesture: None, mesh: Some(Mesh { puppet: false, pins: Vec::new() }), object_lift: false });
    let hit = FloatHit { pin: None, mesh_point: Some(4), grab: TransformGrab::Rotate };
    app.transform_down(pt(1.0, 1.0), false, hit);
    assert_eq!(app.transform_gesture().unwrap().grab, TransformGrab::MeshPoint(4));
    app.transform_down(pt(1.0, 1.0), false, FloatHit { mesh_point: None, ..hit });
    assert_eq!(app.transform_gesture().unwrap().grab, TransformGrab::Move);
    app.hold.transform_drag.as_mut().unwrap().mesh = None;
    app.transform_down(pt(1.0, 1.0), false, hit);
    assert_eq!(app.transform_gesture().unwrap().grab, TransformGrab::Rotate);
}

#[test]
fn numbers_are_read_as_they_are_written() {
    for n in [0, 7, -7, 1280, i32::MAX, i32::MIN] {
        let mut s = String::new();
        text::push_int(&mut s, n);
        assert_eq!(s, n.to_string());
        assert_eq!(text::read_int(&s.chars().collect()), Some(n));
    }
    let chars = |s: &str| s.chars().collect::<Vec<char>>();
    assert_eq!(text::read_int(&chars("2147483648")), None);
    assert_eq!(text::read_int(&chars("-")), None);
    assert_eq!(text::read_int(&chars("+5")), Some(5));
    assert_eq!(text::read_nat(&chars("255"), 255), Some(255));
    assert_eq!(text::read_nat(&chars("256"), 255), None);
    assert_eq!(text::read_nat(&chars(""), 255), None);
    assert_eq!(text::read_nat(&chars("1x"), 255), None);
}

#[test]
fn a_foreign_line_costs_nothing() {
    let none = |n: usize| (0..n).map(|_| LineRead { width: None, sizes: None }).collect::<Vec<_>>();
    let with = UiLayout::from_body("guides_hidden=1\nfrom_the_future=9\nno key at all\nwin=1,2,3,4,0\n", none(4));
    let without = UiLayout::from_body("guides_hidden=1\nwin=1,2,3,4,0\n", none(2));
    assert!(with.guides_hidden && with.win == "1,2,3,4,0");
    assert!(without.guides_hidden && without.win == "1,2,3,4,0");
    assert!(!with.gpu_dabs_explicit && !without.gpu_dabs_explicit);
    assert!(!UiLayout::new(LEFT_W, RIGHT_W).guides_hidden);
}

#[test]
fn a_mangled_line_costs_itself() {
    let with = LayerDefaults::parse("raster.opacity=0.5\nno dot=1\n= =\nraster\nfill.blend=multiply\n");
    let without = LayerDefaults::parse("raster.opacity=0.5\nfill.blend=multiply\n");
    assert_eq!(with.to_body(), without.to_body());
    assert_eq!(with.get("raster", "opacity"), Some("0.5"));
    assert_eq!(with.get("fill", "blend"), Some("multiply"));
}
