//! The open works, one tab each.

use mn_app::app::{App, PageEntry, Stops, Tab, Tools};
use mn_app::doc::Document;
use mn_app::figure::LineOpts;
use mn_app::geom::{Colour, Size};
use mn_app::layer_defaults::LayerDefaults;
use mn_app::modes::{
    BalloonMode, FigureMode, FillMode, FrameMode, GradMode, ObjectMode, PanMode, SelectCombine,
    SelectMode, Tool,
};

fn no_lines() -> LineOpts {
    LineOpts {
        count: 0,
        width: 0,
        jitter: 0,
        taper: 0,
        gap_deg: 0,
        gap_px: 0,
        group: 0,
        group_gap: 0,
        jit_gap: 0,
        jit_len: 0,
        jit_width: 0,
        seed: 1,
    }
}

fn colour(r: f32, g: f32, b: f32) -> Colour {
    Colour { r: r.to_bits(), g: g.to_bits(), b: b.to_bits(), a: 1f32.to_bits() }
}

fn tools(tool: Tool) -> Tools {
    Tools {
        tool,
        fill_mode: FillMode::Click,
        select_mode: SelectMode::Rect,
        figure_mode: FigureMode::Line,
        grad_mode: GradMode::FgToBg,
        frame_mode: FrameMode::Folder,
        balloon_mode: BalloonMode::Ellipse,
        object_mode: ObjectMode::Object,
        object_combine: SelectCombine::New,
        pan_mode: PanMode::Hand,
        figure_adjust_angle: false,
        figure_fill: false,
        figure_focus: no_lines(),
        figure_stream: no_lines(),
        smart_shape_on: false,
        fill_live: false,
        active_color: colour(1.0, 0.0, 0.0),
        sub_color: colour(0.0, 0.0, 1.0),
        symmetric_lines: 2,
        grad_stops: Stops { mid: 31, opts: 32 },
        balloon_ink: 33,
        balloon_tail_kind: 34,
        balloon_tail_bend: 0.25f32.to_bits(),
    }
}

fn headless(tool: Tool) -> App {
    App::new(Document::new(Size { w: 400, h: 400 }), tools(tool), LayerDefaults::new())
}

/// A stroke on the page.
fn scribble(app: &mut App) {
    app.doc.push_op("Brush");
    app.doc.touch();
    app.mark_dirty();
}

/// The art on the page, as far as its history tells.
fn all_ink(app: &App) -> (usize, u64, u64) {
    (app.doc.undo_labels.len(), app.doc.op_count, app.doc.revision)
}

fn new_comic(app: &mut App, pages: u64, story: &str) {
    app.open_doc(Tab {
        doc: Document::new(Size { w: 200, h: 200 }),
        pages: (1..=pages).map(|uid| PageEntry { uid, spread: false }).collect(),
        page_index: 0,
        story: story.to_string(),
        doc_path: None,
        dirty: false,
    });
}

#[test]
fn a_new_project_opens_in_its_own_tab_and_the_old_art_survives() {
    let mut app = headless(Tool::Pen);
    scribble(&mut app);
    let before = all_ink(&app);
    assert!(before.0 > 0);

    new_comic(&mut app, 1, "Tab two");

    assert_eq!(app.doc_count(), 2, "the new project is a second tab");
    assert_eq!(app.work.active_doc, 1, "and it is the one you are looking at");

    assert!(app.switch_doc(0));
    assert_eq!(all_ink(&app), before, "the old art came back untouched");
    assert_eq!(app.doc_count(), 2, "switching does not close anything");
}

#[test]
fn each_tab_keeps_its_own_identity() {
    let mut app = headless(Tool::Pen);
    app.work.story = "First".into();
    new_comic(&mut app, 3, "Second");
    assert_eq!(app.work.story, "Second");
    assert_eq!(app.work.pages.len(), 3);

    assert!(app.switch_doc(0));
    assert_eq!(app.work.story, "First");
    assert_eq!(app.work.pages.len(), 1, "tab 1 is still a single page");

    assert!(app.switch_doc(1));
    assert_eq!(app.work.story, "Second");
    assert_eq!(app.work.pages.len(), 3);
}

#[test]
fn tab_labels_read_from_each_document_not_just_the_active_one() {
    let mut app = headless(Tool::Pen);
    app.work.story = "Alpha".into();
    new_comic(&mut app, 1, "Beta");

    let tabs = app.doc_tabs();
    assert_eq!(tabs.len(), 2);
    assert!(tabs[0].0.contains("Alpha"), "parked tab: {:?}", tabs[0].0);
    assert!(tabs[1].0.contains("Beta"), "active tab: {:?}", tabs[1].0);
}

#[test]
fn closing_a_tab_leaves_the_app_running_and_moves_to_a_neighbour() {
    let mut app = headless(Tool::Pen);
    app.work.story = "Keep me".into();
    scribble(&mut app);
    let kept = all_ink(&app);

    new_comic(&mut app, 1, "Throwaway");
    assert_eq!(app.doc_count(), 2);

    assert!(app.close_doc(1), "the second tab closes");
    assert_eq!(app.doc_count(), 1);
    assert_eq!(app.work.story, "Keep me", "we landed on the neighbour");
    assert_eq!(all_ink(&app), kept, "with its art intact");
    assert!(!app.work.close_requested, "closing a TAB is not quitting");
}

#[test]
fn the_last_document_refuses_to_close_itself() {
    let mut app = headless(Tool::Pen);
    assert!(!app.close_doc(0));
    assert_eq!(app.doc_count(), 1);
}

#[test]
fn closing_an_earlier_tab_keeps_you_on_the_document_you_were_in() {
    let mut app = headless(Tool::Pen);
    app.work.story = "One".into();
    new_comic(&mut app, 1, "Two");
    new_comic(&mut app, 1, "Three");
    assert_eq!(app.doc_count(), 3);
    assert_eq!(app.work.story, "Three");

    assert!(app.close_doc(0));
    assert_eq!(app.doc_count(), 2);
    assert_eq!(app.work.story, "Three", "still in the document I was editing");
    assert_eq!(app.work.active_doc, 1);
    assert!(app.switch_doc(0));
    assert_eq!(app.work.story, "Two");
}

#[test]
fn a_tab_that_is_not_there_is_neither_shown_nor_closed() {
    let mut app = headless(Tool::Pen);
    new_comic(&mut app, 1, "Two");
    assert!(!app.switch_doc(2));
    assert!(!app.close_doc(2));
    assert_eq!(app.work.active_doc, 1);
    assert!(app.switch_doc(1), "the tab on screen is there");
}

#[test]
fn closing_the_middle_tab_moves_to_the_one_behind_it() {
    let mut app = headless(Tool::Pen);
    app.work.story = "One".into();
    new_comic(&mut app, 1, "Two");
    new_comic(&mut app, 1, "Three");
    assert!(app.switch_doc(1));
    assert!(app.close_doc(1));
    assert_eq!((app.work.story.as_str(), app.work.active_doc), ("Three", 1));
    let labels: Vec<String> = app.doc_tabs().into_iter().map(|t| t.0).collect();
    assert_eq!(labels, ["One", "Three"]);
}
