//! Save as default: the defaults file and what a new layer takes from it.

use mn_app::app::{App, Stops, Tools};
use mn_app::doc::{Document, FrameSet, Layer, LayerKind};
use mn_app::figure::LineOpts;
use mn_app::geom::{Colour, Rgb, Size};
use mn_app::layer_defaults::{
    FillVariant, LayerDefaults, Readings, Save, applies_to, hex, kind_key, kind_label, path_hint,
    unhex,
};
use mn_app::modes::{
    BalloonMode, FigureMode, FillMode, FrameMode, GradMode, ObjectMode, PanMode, SelectCombine,
    SelectMode, Tool,
};

fn no_lines() -> LineOpts {
    LineOpts {
        count: 0,
        width: 0,
        jitter: 0,
        taper: 0,
        gap_deg: 0,
        gap_px: 0,
        group: 0,
        group_gap: 0,
        jit_gap: 0,
        jit_len: 0,
        jit_width: 0,
        seed: 1,
    }
}

fn colour(r: f32, g: f32, b: f32) -> Colour {
    Colour { r: r.to_bits(), g: g.to_bits(), b: b.to_bits(), a: 1f32.to_bits() }
}

fn tools(tool: Tool) -> Tools {
    Tools {
        tool,
        fill_mode: FillMode::Click,
        select_mode: SelectMode::Rect,
        figure_mode: FigureMode::Line,
        grad_mode: GradMode::FgToBg,
        frame_mode: FrameMode::Folder,
        balloon_mode: BalloonMode::Ellipse,
        object_mode: ObjectMode::Object,
        object_combine: SelectCombine::New,
        pan_mode: PanMode::Hand,
        figure_adjust_angle: false,
        figure_fill: false,
        figure_focus: no_lines(),
        figure_stream: no_lines(),
        smart_shape_on: false,
        fill_live: false,
        active_color: colour(1.0, 0.0, 0.0),
        sub_color: colour(0.0, 0.0, 1.0),
        symmetric_lines: 2,
        grad_stops: Stops { mid: 31, opts: 32 },
        balloon_ink: 33,
        balloon_tail_kind: 34,
        balloon_tail_bend: 0.25f32.to_bits(),
    }
}

fn headless(tool: Tool) -> App {
    App::new(Document::new(Size { w: 400, h: 400 }), tools(tool), LayerDefaults::new())
}

fn raster() -> Layer {
    Layer::raster(1, "Layer 1")
}

fn tone_fill() -> Layer {
    let mut l = Layer::raster(1, "Tone");
    l.kind = LayerKind::FillTone;
    l
}

const TONE: &str = "{\"pattern\":\"dots\",\"lpi\":72.5,\"angle_deg\":15.0}";
const EDGE: &str = "{\"width_px\":3.5}";

/// Does the text read as a JSON object?
fn is_object(s: Option<&str>) -> bool {
    s.and_then(|s| serde_json::from_str::<serde_json::Value>(s).ok()).is_some_and(|v| v.is_object())
}

/// What the stored texts of a layer's type read as.
fn readings(d: &LayerDefaults, l: &Layer) -> Readings {
    let k = kind_key(l);
    Readings {
        opacity: d.get(k, "opacity").and_then(|s| s.parse::<f32>().ok()).map(f32::to_bits),
        blend: matches!(d.get(k, "blend"), Some("svg:src-over" | "svg:multiply" | "svg:screen")),
        expression: matches!(d.get(k, "expression"), Some("mono" | "gray")),
        tone: is_object(d.get(k, "tone")),
        edge: is_object(d.get(k, "edge")),
    }
}

fn apply(d: &LayerDefaults, l: &mut Layer) {
    let r = readings(d, l);
    d.apply(l, &r);
}

fn capture(d: &mut LayerDefaults, l: &Layer, fill: Option<&str>) {
    let opacity = format!("{:.4}", f32::from_bits(l.look.opacity));
    d.capture(l, &opacity, fill);
}

#[test]
fn every_layer_kind_has_its_own_key() {
    assert_eq!(kind_key(&raster()), "raster");

    let mut v = raster();
    v.strokes = true;
    assert_eq!(kind_key(&v), "vector");

    let mut f = raster();
    f.folder = true;
    assert_eq!(kind_key(&f), "folder");
    f.kind = LayerKind::Frame(FrameSet { frames: 1, reading_pin: None, border_ruler: false });
    assert_eq!(kind_key(&f), "frame-folder");

    assert_eq!(kind_key(&tone_fill()), "tone");
    let mut flat = raster();
    flat.kind = LayerKind::FillFlat;
    assert_eq!(kind_key(&flat), "fill");
    let mut text = raster();
    text.kind = LayerKind::Text(0);
    assert_eq!(kind_key(&text), "text");

    // A toned RASTER is still a raster: the tone is a property the default
    // carries, not a type of its own.
    let mut toned = raster();
    toned.tone = Some(TONE.into());
    assert_eq!(kind_key(&toned), "raster");
}

#[test]
fn a_saved_default_round_trips_through_the_file() {
    let mut src = raster();
    src.look.opacity = 0.42f32.to_bits();
    src.look.blend = "svg:multiply".into();
    src.look.colour = Some(Rgb { r: 0x2a, g: 0x6f, b: 0xf4 });
    src.look.sub_colour = Some(Rgb { r: 0xff, g: 0xff, b: 0x00 });
    src.expression = Some("mono".into());
    src.tone = Some(TONE.into());
    src.edge = Some(EDGE.into());

    let mut d = LayerDefaults::new();
    capture(&mut d, &src, None);
    let reloaded = LayerDefaults::parse(&d.to_body());

    let mut fresh = raster();
    apply(&reloaded, &mut fresh);
    let opacity = f32::from_bits(fresh.look.opacity);
    assert!((opacity - 0.42).abs() < 1e-4, "{opacity}");
    assert_eq!(fresh.look.blend, "svg:multiply");
    assert_eq!(fresh.look.colour, Some(Rgb { r: 0x2a, g: 0x6f, b: 0xf4 }));
    assert_eq!(fresh.look.sub_colour, Some(Rgb { r: 0xff, g: 0xff, b: 0x00 }));
    assert_eq!(fresh.expression.as_deref(), Some("mono"));
    let tone: serde_json::Value = serde_json::from_str(fresh.tone.as_deref().expect("tone default")).unwrap();
    assert_eq!(tone["lpi"], 72.5);
    let edge: serde_json::Value = serde_json::from_str(fresh.edge.as_deref().expect("edge default")).unwrap();
    assert_eq!(edge["width_px"], 3.5);

    // Identity and safety fields are NOT part of the deal.
    assert_eq!(fresh.name, "Layer 1");
    assert!(fresh.look.visible && !fresh.lock);
}

#[test]
fn only_the_saved_type_picks_the_default_up() {
    let mut src = raster();
    src.look.opacity = 0.25f32.to_bits();
    src.look.blend = "svg:screen".into();
    let mut d = LayerDefaults::new();
    capture(&mut d, &src, None);

    let mut other = tone_fill();
    let (was_op, was_blend) = (other.look.opacity, other.look.blend.clone());
    apply(&d, &mut other);
    assert_eq!(other.look.opacity, was_op, "a tone layer is not a raster layer");
    assert_eq!(other.look.blend, was_blend);

    let mut mine = raster();
    apply(&d, &mut mine);
    assert_eq!(mine.look.blend, "svg:screen", "its own type does pick it up");

    capture(&mut d, &tone_fill(), Some("{\"Tone\":{}}"));
    assert!(d.has("raster") && d.has("tone"));
    d.forget("tone");
    assert!(d.has("raster"), "forgetting one type keeps the others");
    assert!(!d.has("tone"));
}

#[test]
fn one_bad_line_does_not_take_the_file_down() {
    let d = LayerDefaults::parse(
        "raster.opacity=0.5\n\
         this line has no equals sign at all\n\
         raster.blend=svg:not-a-mode\n\
         =0.9\n\
         bare_key_with_no_type=1\n\
         raster.colour=nonsense\n\
         raster.tone={\"pattern\":\n\
         \n\
         raster.expression=mono\n",
    );
    let mut l = raster();
    apply(&d, &mut l);
    assert_eq!(f32::from_bits(l.look.opacity), 0.5, "the good line before the mess still loads");
    assert_eq!(
        l.look.blend, "svg:src-over",
        "an unknown blend name keeps the layer's own mode, it does not reset it"
    );
    assert_eq!(l.look.colour, None, "a mangled colour is skipped");
    assert_eq!(l.tone, None, "half a JSON object is not a tone default");
    assert_eq!(l.expression.as_deref(), Some("mono"), "and the good line AFTER the mess still loads");
}

#[test]
fn unknown_keys_survive_a_downgrade() {
    let mut d = LayerDefaults::parse("raster.opacity=0.5\nraster.from_2027=on\nhologram.opacity=0.1\n");
    capture(&mut d, &raster(), None);
    let body = d.to_body();
    assert!(body.contains("raster.from_2027=on"), "{body}");
    assert!(body.contains("hologram.opacity=0.1"), "{body}");
    d.forget("raster");
    let body = d.to_body();
    assert!(body.contains("raster.from_2027=on"), "{body}");
    assert!(!body.contains("raster.opacity"), "{body}");
}

#[test]
fn a_tone_default_is_refused_where_the_tone_command_would_be() {
    let mut src = raster();
    src.tone = Some(TONE.into());
    src.edge = Some(EDGE.into());
    let mut d = LayerDefaults::new();
    capture(&mut d, &src, None);
    // Re-file the same block under the folder and frame-folder types, so that
    // `apply` is the thing under test and not `kind_key`.
    let folder_defaults = LayerDefaults::parse(&d.to_body().replace("raster.", "folder."));

    let mut f = raster();
    f.folder = true;
    apply(&folder_defaults, &mut f);
    assert_eq!(f.tone, None, "folders cannot be tones");
    assert!(f.edge.is_some(), "a plain folder DOES take the edge effect");

    let frame_body = d.to_body().replace("raster.", "frame-folder.");
    let mut ff = raster();
    ff.folder = true;
    ff.kind = LayerKind::Frame(FrameSet { frames: 1, reading_pin: None, border_ruler: false });
    apply(&LayerDefaults::parse(&frame_body), &mut ff);
    assert_eq!(ff.tone, None);
    assert_eq!(ff.edge, None, "frame folders refuse the border effect");
}

#[test]
fn fill_params_default_for_fill_and_tone_but_not_gradient() {
    let payload = "{\"Tone\":{\"tone\":{\"lpi\":30.0},\"density\":0.9}}";
    let mut d = LayerDefaults::new();
    capture(&mut d, &tone_fill(), Some(payload));
    let back = d.fill_kind(FillVariant::Tone, Some(FillVariant::Tone)).expect("the saved parameters");
    let back: serde_json::Value = serde_json::from_str(back).unwrap();
    assert_eq!(back["Tone"]["tone"]["lpi"], 30.0);
    assert_eq!(back["Tone"]["density"], 0.9);

    // A flat fill keys apart and is untouched by the tone default.
    assert_eq!(d.fill_kind(FillVariant::Flat, None), None);

    // Gradients save the generic properties but no payload.
    let mut g = raster();
    g.kind = LayerKind::FillGradient;
    g.look.opacity = 0.5f32.to_bits();
    capture(&mut d, &g, None);
    assert!(d.has("gradient"), "the generic properties are saved");
    assert!(
        d.summary("gradient").is_some_and(|s| !s.contains("fill")),
        "…but not the ramp geometry"
    );
}

#[test]
fn save_as_default_is_offered_where_it_is_read() {
    for k in ["raster", "vector", "folder", "fill", "gradient", "tone", "correction"] {
        assert!(applies_to(k), "{k}");
    }
    for k in ["text", "balloon", "frame", "frame-folder"] {
        assert!(!applies_to(k), "{k}");
    }
}

/// Raster layers at 40 % Multiply with a 30 LPI tone, and nothing said about
/// any other type.
const RASTER_BODY: &str = "raster.opacity=0.4000\n\
     raster.blend=svg:multiply\n\
     raster.tone={\"pattern\":\"dots\",\"lpi\":30.0,\"angle_deg\":15.0}\n";

/// A new layer on top, with the default of its type.
fn add_defaulted(app: &mut App, l: Layer) -> bool {
    app.doc.push_op("Add layer");
    app.doc.layers.push(l);
    let at = app.doc.layers.len() - 1;
    app.doc.set_active(at);
    let r = readings(&app.layer_defaults, &app.doc.layers[at]);
    app.apply_layer_defaults(at, &r)
}

fn active(app: &App) -> &Layer {
    &app.doc.layers[app.doc.active]
}

#[test]
fn a_new_raster_layer_starts_from_the_saved_default() {
    let mut app = headless(Tool::Pen);
    app.layer_defaults = LayerDefaults::parse(RASTER_BODY);

    assert!(add_defaulted(&mut app, Layer::raster(2, "Layer 2")), "the tones are to be drawn anew");

    let l = active(&app);
    assert!((f32::from_bits(l.look.opacity) - 0.4).abs() < 1e-4);
    assert_eq!(l.look.blend, "svg:multiply");
    let tone: serde_json::Value = serde_json::from_str(l.tone.as_deref().expect("the tone default landed")).unwrap();
    assert_eq!(tone["lpi"], 30.0);
    // Identity and safety are never defaulted.
    assert!(l.look.visible && !l.lock);
    assert!(l.name.starts_with("Layer"));
}

#[test]
fn other_types_do_not_pick_up_a_raster_default() {
    let mut app = headless(Tool::Pen);
    app.layer_defaults = LayerDefaults::parse(RASTER_BODY);

    let mut folder = Layer::raster(2, "Folder");
    folder.folder = true;
    assert!(!add_defaulted(&mut app, folder));

    let f = active(&app);
    assert!(f.folder, "the folder was made");
    assert_eq!(f32::from_bits(f.look.opacity), 1.0, "a raster default is not a folder default");
    assert_eq!(f.look.blend, "svg:src-over");
    assert_eq!(f.tone, None);
}

#[test]
fn applying_defaults_records_no_step_of_its_own() {
    let mut app = headless(Tool::Pen);
    app.layer_defaults = LayerDefaults::parse(RASTER_BODY);
    let steps = app.doc.undo_labels.len();
    add_defaulted(&mut app, Layer::raster(2, "Layer 2"));
    assert_eq!(app.doc.undo_labels.len(), steps + 1);
}

#[test]
fn a_layer_that_is_not_there_takes_no_default() {
    let mut app = headless(Tool::Pen);
    app.layer_defaults = LayerDefaults::parse(RASTER_BODY);
    let r = readings(&app.layer_defaults, &app.doc.layers[0]);
    assert!(!app.apply_layer_defaults(1, &r));
    assert_eq!(app.doc.layers[0].look.blend, "svg:src-over");
}

#[test]
fn save_and_forget_go_through_the_active_layer() {
    let mut app = headless(Tool::Pen);
    let i = app.doc.active;
    app.doc.layers[i].look.blend = "svg:screen".into();
    app.doc.layers[i].look.opacity = 0.5f32.to_bits();

    let mut d = std::mem::replace(&mut app.layer_defaults, LayerDefaults::new());
    capture(&mut d, active(&app), None);
    app.layer_defaults = d;
    assert!(app.layer_defaults.has("raster"));

    add_defaulted(&mut app, Layer::raster(2, "Layer 2"));
    assert_eq!(active(&app).look.blend, "svg:screen");
    assert_eq!(f32::from_bits(active(&app).look.opacity), 0.5);

    app.layer_defaults.forget("raster");
    assert!(!app.layer_defaults.has("raster"));

    add_defaulted(&mut app, Layer::raster(3, "Layer 3"));
    assert_eq!(active(&app).look.blend, "svg:src-over", "stock again");
    assert_eq!(f32::from_bits(active(&app).look.opacity), 1.0);
}

#[test]
fn colours_read_as_they_are_written() {
    assert_eq!(hex(Rgb { r: 0x2a, g: 0x6f, b: 0xf4 }), "#2a6ff4");
    assert_eq!(unhex("#2a6ff4"), Some(Rgb { r: 0x2a, g: 0x6f, b: 0xf4 }));
    assert_eq!(unhex("2A6FF4"), Some(Rgb { r: 0x2a, g: 0x6f, b: 0xf4 }));
    assert_eq!(unhex("#2a6ff"), None);
    assert_eq!(unhex("#2a6fg4"), None);
}

#[test]
fn an_emptied_file_is_deleted_and_a_clean_one_is_left_alone() {
    let mut d = LayerDefaults::parse("raster.opacity=0.5\n");
    assert!(matches!(d.save_if_dirty(), Save::Nothing));
    d.forget("raster");
    assert!(matches!(d.save_if_dirty(), Save::Delete));
    capture(&mut d, &raster(), None);
    match d.save_if_dirty() {
        Save::Write(body) => assert!(body.contains("raster.opacity=1.0000"), "{body}"),
        s => panic!("{s:?}"),
    }
    assert!(matches!(d.save_if_dirty(), Save::Nothing), "saved once is saved");
}

#[test]
fn the_panel_names_types_and_the_file() {
    assert_eq!(path_hint(None), "layer_defaults.txt");
    assert_eq!(path_hint(Some("C:/app/layer_defaults.txt")), "C:/app/layer_defaults.txt");
    assert_ne!(kind_label("raster"), kind_label("tone"));
}

#[test]
fn an_opacity_is_held_between_nought_and_one() {
    let read = |v: &str| {
        let mut l = Layer::raster(1, "Layer 1");
        l.look.opacity = 0.75f32.to_bits();
        apply(&LayerDefaults::parse(&format!("raster.opacity={v}\n")), &mut l);
        f32::from_bits(l.look.opacity)
    };
    assert_eq!(read("0.25"), 0.25);
    assert_eq!(read("3"), 1.0);
    assert_eq!(read("-3"), 0.0);
    for unread in ["inf", "-inf", "NaN", "junk"] {
        assert_eq!(read(unread), 0.75, "{unread} leaves the layer as it was");
    }
}

#[test]
fn a_default_leaves_a_layer_of_another_type_as_it_is() {
    let mut src = raster();
    src.look.opacity = 0.5f32.to_bits();
    src.look.blend = "svg:screen".into();
    src.look.colour = Some(Rgb { r: 1, g: 2, b: 3 });
    src.expression = Some("gray".into());
    src.tone = Some(TONE.into());
    src.edge = Some(EDGE.into());
    let mut d = LayerDefaults::new();
    capture(&mut d, &src, None);
    let d = LayerDefaults::parse(&d.to_body());

    let mut mine = Layer::raster(9, "mine");
    mine.look.visible = false;
    apply(&d, &mut mine);
    assert_eq!(mine.look.opacity, 0.5f32.to_bits(), "four places hold this one");
    assert_eq!((mine.tone.as_deref(), mine.edge.as_deref()), (Some(TONE), Some(EDGE)));
    assert_eq!((mine.id, mine.name.as_str(), mine.look.visible), (9, "mine", false));

    for kind in [LayerKind::FillFlat, LayerKind::FillGradient, LayerKind::Correction, LayerKind::Text(1)] {
        let mut other = raster();
        other.kind = kind;
        let was = format!("{other:?}");
        apply(&d, &mut other);
        assert_eq!(format!("{other:?}"), was);
    }
}

#[test]
fn a_text_comes_back_without_the_white_space_around_it() {
    let mut src = raster();
    src.look.blend = " svg:multiply\t".into();
    src.tone = Some(format!("  {TONE} \r"));
    src.edge = Some("   ".into());
    let mut d = LayerDefaults::new();
    capture(&mut d, &src, None);
    let d = LayerDefaults::parse(&d.to_body());
    let mut l = raster();
    l.edge = Some(EDGE.into());
    apply(&d, &mut l);
    assert_eq!(l.look.blend, "svg:multiply");
    assert_eq!(l.tone.as_deref(), Some(TONE));
    assert_eq!(l.edge.as_deref(), Some(EDGE), "a blank text says nothing");
}
