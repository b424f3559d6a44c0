//! Layers that follow a picture file.

use mn_app::app::{App, Stops, Tools};
use mn_app::doc::{Document, FileObject, Layer, LayerKind};
use mn_app::figure::LineOpts;
use mn_app::file_object::RefreshReport;
use mn_app::geom::{Colour, Size};
use mn_app::layer_defaults::LayerDefaults;
use mn_app::modes::{
    BalloonMode, FigureMode, FillMode, FrameMode, GradMode, ObjectMode, PanMode, SelectCombine,
    SelectMode, Tool,
};

fn no_lines() -> LineOpts {
    LineOpts {
        count: 0,
        width: 0,
        jitter: 0,
        taper: 0,
        gap_deg: 0,
        gap_px: 0,
        group: 0,
        group_gap: 0,
        jit_gap: 0,
        jit_len: 0,
        jit_width: 0,
        seed: 1,
    }
}

fn colour(r: f32, g: f32, b: f32) -> Colour {
    Colour { r: r.to_bits(), g: g.to_bits(), b: b.to_bits(), a: 1f32.to_bits() }
}

fn tools(tool: Tool) -> Tools {
    Tools {
        tool,
        fill_mode: FillMode::Click,
        select_mode: SelectMode::Rect,
        figure_mode: FigureMode::Line,
        grad_mode: GradMode::FgToBg,
        frame_mode: FrameMode::Folder,
        balloon_mode: BalloonMode::Ellipse,
        object_mode: ObjectMode::Object,
        object_combine: SelectCombine::New,
        pan_mode: PanMode::Hand,
        figure_adjust_angle: false,
        figure_fill: false,
        figure_focus: no_lines(),
        figure_stream: no_lines(),
        smart_shape_on: false,
        fill_live: false,
        active_color: colour(1.0, 0.0, 0.0),
        sub_color: colour(0.0, 0.0, 1.0),
        symmetric_lines: 2,
        grad_stops: Stops { mid: 31, opts: 32 },
        balloon_ink: 33,
        balloon_tail_kind: 34,
        balloon_tail_bend: 0.25f32.to_bits(),
    }
}

fn headless(tool: Tool) -> App {
    App::new(Document::new(Size { w: 400, h: 400 }), tools(tool), LayerDefaults::new())
}

fn add_layer(app: &mut App, name: &str, kind: LayerKind) -> usize {
    let id = app.doc.layers.iter().map(|l| l.id).max().unwrap_or(0) + 1;
    let mut l = Layer::raster(id, name);
    l.paintable = matches!(kind, LayerKind::Raster);
    l.kind = kind;
    app.doc.layers.push(l);
    app.doc.layers.len() - 1
}

/// What the shell does of an import: the layer lands on top, in one step.
fn import(app: &mut App, path: &str) {
    app.doc.push_op("Import file object");
    let at = add_layer(app, "bg", LayerKind::Raster);
    app.doc.layers[at].paintable = false;
    app.doc.layers[at].file_object = Some(FileObject { path: path.to_string(), missing: false });
    app.doc.set_active(at);
    app.import_file_object(path, Ok(at));
}

fn report(status: Option<&str>) -> RefreshReport {
    RefreshReport { checked: 1, quiet: status.is_none(), status: status.map(|s| s.to_string()) }
}

#[test]
fn an_import_says_what_it_placed() {
    let mut app = headless(Tool::Pen);
    import(&mut app, "C:/art/bg.png");
    assert!(app.work.dirty);
    assert_eq!(app.doc.undo_labels.len(), 1, "one press takes it back");
    assert_eq!(
        app.shell.status,
        "“bg” placed as a file object — it re-reads C:/art/bg.png whenever the app comes back to the front"
    );
}

#[test]
fn a_failed_import_says_why() {
    let mut app = headless(Tool::Pen);
    app.import_file_object("C:/art/bg.png", Err("no such file".to_string()));
    assert!(app.shell.status.contains("no such file"), "{:?}", app.shell.status);
    assert_eq!(app.doc.layers.len(), 1);
}

#[test]
fn regaining_focus_is_quiet_when_nothing_changed() {
    let mut app = headless(Tool::Pen);
    import(&mut app, "C:/art/bg.png");
    app.set_status("something else entirely");
    assert!(app.wants_file_refresh());
    app.refresh_file_objects_quiet(report(None));
    assert_eq!(app.shell.status, "something else entirely", "an idle alt-tab must not talk");
    app.refresh_file_objects_quiet(report(Some("1 file object updated")));
    assert!(app.shell.status.contains("updated"), "{:?}", app.shell.status);
}

#[test]
fn a_page_without_links_asks_for_no_refresh() {
    assert!(!headless(Tool::Pen).wants_file_refresh());
}

#[test]
fn the_update_command_always_answers() {
    let mut app = headless(Tool::Pen);
    import(&mut app, "C:/art/bg.png");
    app.update_file_objects(report(None));
    assert!(app.shell.status.contains("up to date"), "{:?}", app.shell.status);
    app.update_file_objects(report(Some("1 file object updated")));
    assert!(app.shell.status.contains("updated"), "{:?}", app.shell.status);
}

#[test]
fn only_a_file_object_can_be_relinked() {
    let mut app = headless(Tool::Pen);
    import(&mut app, "C:/art/bg.png");
    assert_eq!(app.relink_target(Some(1)), Some(1));
    let plain = add_layer(&mut app, "plain", LayerKind::Raster);
    assert_eq!(app.relink_target(Some(plain)), None);
    app.relink_file_object("D:/new.png", Ok(()));
    assert!(app.work.dirty);
    app.relink_file_object("D:/new.png", Err("not a picture".to_string()));
    assert!(app.shell.status.contains("not a picture"), "{:?}", app.shell.status);
}
