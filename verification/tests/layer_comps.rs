//! Layer comps: named snapshots of how every layer looks.

use mn_app::app::{App, Stops, Tools};
use mn_app::doc::{Document, Layer, LayerKind};
use mn_app::figure::LineOpts;
use mn_app::geom::{Colour, Size};
use mn_app::layer_defaults::LayerDefaults;
use mn_app::modes::{
    BalloonMode, FigureMode, FillMode, FrameMode, GradMode, ObjectMode, PanMode, SelectCombine,
    SelectMode, Tool,
};

fn no_lines() -> LineOpts {
    LineOpts {
        count: 0,
        width: 0,
        jitter: 0,
        taper: 0,
        gap_deg: 0,
        gap_px: 0,
        group: 0,
        group_gap: 0,
        jit_gap: 0,
        jit_len: 0,
        jit_width: 0,
        seed: 1,
    }
}

fn colour(r: f32, g: f32, b: f32) -> Colour {
    Colour { r: r.to_bits(), g: g.to_bits(), b: b.to_bits(), a: 1f32.to_bits() }
}

fn tools(tool: Tool) -> Tools {
    Tools {
        tool,
        fill_mode: FillMode::Click,
        select_mode: SelectMode::Rect,
        figure_mode: FigureMode::Line,
        grad_mode: GradMode::FgToBg,
        frame_mode: FrameMode::Folder,
        balloon_mode: BalloonMode::Ellipse,
        object_mode: ObjectMode::Object,
        object_combine: SelectCombine::New,
        pan_mode: PanMode::Hand,
        figure_adjust_angle: false,
        figure_fill: false,
        figure_focus: no_lines(),
        figure_stream: no_lines(),
        smart_shape_on: false,
        fill_live: false,
        active_color: colour(1.0, 0.0, 0.0),
        sub_color: colour(0.0, 0.0, 1.0),
        symmetric_lines: 2,
        grad_stops: Stops { mid: 31, opts: 32 },
        balloon_ink: 33,
        balloon_tail_kind: 34,
        balloon_tail_bend: 0.25f32.to_bits(),
    }
}

fn headless(tool: Tool) -> App {
    App::new(Document::new(Size { w: 400, h: 400 }), tools(tool), LayerDefaults::new())
}

fn add_layer(app: &mut App, name: &str, kind: LayerKind) -> usize {
    let id = app.doc.layers.iter().map(|l| l.id).max().unwrap_or(0) + 1;
    let mut l = Layer::raster(id, name);
    l.paintable = matches!(kind, LayerKind::Raster);
    l.kind = kind;
    app.doc.layers.push(l);
    app.doc.layers.len() - 1
}

fn eyes(app: &App) -> Vec<bool> {
    app.doc.layers.iter().map(|l| l.look.visible).collect()
}

fn three_layers() -> App {
    let mut app = headless(Tool::Pen);
    add_layer(&mut app, "B", LayerKind::Raster);
    add_layer(&mut app, "C", LayerKind::Raster);
    app
}

fn names(app: &App) -> Vec<&str> {
    app.doc.comps.iter().map(|c| c.name.as_str()).collect()
}

#[test]
fn a_comp_brings_its_look_back_and_restore_undoes_it() {
    let mut app = three_layers();
    app.doc.layers[1].look.visible = false;
    app.comp_add("night");
    app.doc.layers[1].look.visible = true;
    app.doc.layers[0].look.opacity = 0.5f32.to_bits();
    assert!(app.comp_apply(0));
    assert_eq!(eyes(&app), [true, false, true]);
    assert_eq!(f32::from_bits(app.doc.layers[0].look.opacity), 1.0);
    app.comp_restore_last();
    assert_eq!(eyes(&app), [true, true, true], "the look before the comp");
    assert_eq!(f32::from_bits(app.doc.layers[0].look.opacity), 0.5);
    assert!(!app.comp_apply(9), "no such comp");
}

#[test]
fn a_layer_that_the_comp_does_not_know_follows_the_switch() {
    let mut app = three_layers();
    app.comp_add("day");
    add_layer(&mut app, "new", LayerKind::Raster);
    app.comps.added_visible = false;
    app.comp_apply(0);
    assert_eq!(eyes(&app), [true, true, true, false]);
}

#[test]
fn a_comp_follows_its_layer_through_the_stack() {
    let mut app = three_layers();
    app.doc.layers[2].look.visible = false;
    app.comp_add("one");
    app.doc.layers[2].look.visible = true;
    app.doc.layers.swap(0, 2);
    app.comp_apply(0);
    assert_eq!(eyes(&app), [false, true, true], "by the layer's own id, not by its place");
}

#[test]
fn saving_over_a_comp_takes_the_look_of_now() {
    let mut app = three_layers();
    app.comp_add("one");
    app.doc.layers[0].look.visible = false;
    assert!(app.comp_save(0));
    app.doc.layers[0].look.visible = true;
    app.comp_apply(0);
    assert_eq!(eyes(&app), [false, true, true]);
    assert!(!app.comp_save(4));
}

#[test]
fn steps_wrap_around() {
    let mut app = three_layers();
    for n in ["a", "b", "c"] {
        app.comp_add(n);
    }
    app.comp_apply(0);
    app.comp_step(true);
    assert_eq!(app.comps.selected, Some(1));
    app.comp_step(false);
    assert_eq!(app.comps.selected, Some(0));
    app.comp_step(false);
    assert_eq!(app.comps.selected, Some(2));
    app.comp_step(true);
    assert_eq!(app.comps.selected, Some(0));
}

#[test]
fn moving_and_deleting_keep_the_selection_on_its_own_comps() {
    let mut app = three_layers();
    for n in ["a", "b", "c", "d"] {
        app.comp_add(n);
    }
    app.comp_toggle_multi(3);
    app.comp_toggle_multi(1);
    app.comp_move(0, 2);
    let picked = |app: &App| -> Vec<String> { app.comps.multi.iter().map(|&i| app.doc.comps[i].name.clone()).collect() };
    assert_eq!(app.comps.selected.map(|i| names(&app)[i]), Some("b"));
    assert_eq!(picked(&app), ["b", "d"]);
    let a = names(&app).iter().position(|n| *n == "a").unwrap();
    app.comp_delete_at(a);
    assert_eq!(names(&app), ["b", "c", "d"]);
    assert_eq!(app.comps.selected.map(|i| names(&app)[i]), Some("b"));
    assert_eq!(picked(&app), ["b", "d"]);
}

#[test]
fn a_range_runs_from_the_selected_comp() {
    let mut app = three_layers();
    for n in ["a", "b", "c", "d"] {
        app.comp_add(n);
    }
    app.comp_apply(1);
    app.comp_range_select(3);
    assert_eq!(app.comps.multi, [1, 2, 3]);
}

#[test]
fn a_restore_gives_every_look_back_and_happens_once() {
    let mut app = three_layers();
    app.comp_add("night");
    app.doc.layers[0].look.visible = false;
    app.doc.layers[1].look.opacity = 0.25f32.to_bits();
    app.doc.layers[2].look.blend = "svg:multiply".into();
    let looks = |app: &App| -> Vec<(bool, u32, String)> {
        app.doc.layers.iter().map(|l| (l.look.visible, l.look.opacity, l.look.blend.clone())).collect()
    };
    let before = looks(&app);
    app.comp_apply(0);
    assert_ne!(looks(&app), before);
    app.comp_restore_last();
    assert_eq!(looks(&app), before);
    assert!(app.comps.selected.is_none() && app.comps.multi.is_empty() && app.comps.last_state.is_none());
    app.doc.layers[0].look.visible = true;
    let now = looks(&app);
    app.comp_restore_last();
    assert_eq!(looks(&app), now, "there is nothing left to restore");
}

#[test]
fn layers_that_share_an_id_get_one_look_back() {
    let mut app = three_layers();
    let id = app.doc.layers[0].id;
    app.doc.layers[1].id = id;
    app.doc.layers[1].look.visible = false;
    app.comp_add("night");
    app.comp_apply(0);
    app.comp_restore_last();
    assert_eq!(eyes(&app), [true, true, true], "the first of the two decides");
}
