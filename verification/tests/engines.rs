//! The stroke engine and its copies.

use mn_app::engine::{
    Along, Blend, Brush, Drift, Engine, EngineKind, Image, Ink, NEVER, Nib, Random, Reading, Sheet,
    SketchParams, Stock, StrokeTwin, Symmetry, TINY, TextureMask, ToolProps, TwinAxis, ViewPose,
    Wash, preset_engine, symmetric_affines,
};
use mn_app::geom::Pt;

fn bits(v: f32) -> u32 {
    v.to_bits()
}

fn ink() -> Ink {
    Ink { r: 0, g: 0, b: 0 }
}

fn nib(reach: f32) -> Nib {
    Nib { reach: bits(reach), ratio: bits(0.25), ink: ink(), mask: None }
}

fn sheet() -> Sheet {
    Sheet {
        mask_mode: false,
        sel_mode: false,
        anti_overflow: None,
        recording: 0,
        view: ViewPose { zoom: bits(1.0), rotation: 0, flip_h: false },
        ink: ink(),
        size: None,
        eraser: false,
        opacity: bits(1.0),
        size_min: None,
        random: Random { amount: 0, min_pct: 0, absolute: false },
        hard_dab: false,
        scatter: 0,
        interval: 0,
        density_by_gap: false,
        anti_alias: 1,
        wash: Wash { on: false, opacity: bits(1.0), blend: Blend::Normal },
        texture_scroll: 0,
        sketch: None,
    }
}

fn my(name: &str, gpu_ready: bool) -> EngineKind {
    EngineKind::My(Brush {
        name: name.to_string(),
        sheet: sheet(),
        reading: Reading {
            base_size: bits(12.0),
            radius: bits(6.0),
            gap: bits(2.0),
            feather: bits(0.5),
            size_min_pct: bits(20.0),
            gpu_ready,
            smudge: false,
            anchor_dab: true,
            taper: Some((3, 4)),
        },
        texture: None,
        curves: Vec::new(),
        record: vec![1, 2],
        wash_buffer: Some(8),
    })
}

fn mirrored(kind: EngineKind) -> StrokeTwin {
    StrokeTwin { kind, x: Some(TwinAxis::Mirror), y: None, xf: None }
}

fn sheet_of(k: &EngineKind) -> Sheet {
    match k {
        EngineKind::My(b) => b.sheet,
        k => panic!("{k:?}"),
    }
}

fn nib_of(k: &EngineKind) -> Nib {
    match k {
        EngineKind::Dab(n) | EngineKind::Grid(n) | EngineKind::Hairy(n) | EngineKind::Curve(n) | EngineKind::Dyna(n) => *n,
        k => panic!("{k:?}"),
    }
}

fn stock() -> Stock {
    Stock { grid: nib(8.0), hairy: nib(9.0), curve: nib(10.0), dyna: nib(11.0) }
}

/// Which arm a preset landed on, as a name that a table can compare.
fn arm(k: &EngineKind) -> &'static str {
    match k {
        EngineKind::My(_) => "my",
        EngineKind::Dab(_) => "dab",
        EngineKind::Grid(_) => "grid",
        EngineKind::Hairy(_) => "hairy",
        EngineKind::Curve(_) => "curve",
        EngineKind::Dyna(_) => "dyna",
    }
}

/// The engine of a preset's text.
fn engine_of(json: &str) -> Option<EngineKind> {
    let v: Option<serde_json::Value> = serde_json::from_str(json).ok();
    let key = v.as_ref().and_then(|v| v.get("mn-engine")).and_then(|v| v.as_str());
    preset_engine(key, stock())
}

#[test]
fn the_mn_engine_key_selects_its_engine() {
    let cases: [(&str, Option<&str>); 8] = [
        (r#"{"version":3,"mn-engine":"grid"}"#, Some("grid")),
        (r#"{"version":3,"mn-engine":"hairy"}"#, Some("hairy")),
        (r#"{"version":3,"mn-engine":"curve"}"#, Some("curve")),
        (r#"{"version":3,"mn-engine":"dyna"}"#, Some("dyna")),
        // A name this build does not know falls back to MyPaint rather than
        // leaving the sub tool with no engine at all.
        (r#"{"version":3,"mn-engine":"sparkle"}"#, None),
        // The key is optional: an ordinary preset is a MyPaint preset.
        (r#"{"version":3,"settings":{}}"#, None),
        // Wrong type, and not JSON at all — neither may panic.
        (r#"{"mn-engine":7}"#, None),
        ("not json", None),
    ];
    for (i, (json, want)) in cases.iter().enumerate() {
        assert_eq!(engine_of(json).as_ref().map(arm), *want, "case {i}: {json}");
    }
    assert_eq!(nib_of(&engine_of(cases[1].0).unwrap()), nib(9.0));
}

#[test]
fn a_setting_reaches_the_brush_and_every_copy() {
    let mut e = Engine::new(my("G-pen", true), bits(12.0));
    e.set_twins(vec![mirrored(my("G-pen", true)), mirrored(EngineKind::Dab(nib(5.0)))]);
    e.set_eraser(true);
    e.set_color(Ink { r: 7, g: 8, b: 9 });
    e.set_mask_mode_all(true);
    e.set_sel_mode_all(true);
    e.set_anti_overflow_all(Some(4));
    e.set_dab_recording_all(2);
    e.set_view(bits(0.5), 0, true);
    e.set_interval(3);
    e.set_hard_dab(true);
    e.set_scatter(bits(0.3));
    e.set_density_by_gap(true);
    e.set_anti_alias(2);
    e.set_flow(bits(0.4));
    e.set_size_min_pct(bits(10.0));
    e.set_randomization(bits(0.2), bits(5.0), true);
    e.set_wash(true, bits(0.8), Blend::Mode(2));
    e.set_texture_scroll(bits(3.0));
    e.set_sketch(Some(SketchParams { distance: 1, density: 2 }));
    assert_eq!(sheet_of(e.kind()), sheet_of(&e.twins[0].kind), "a copy is always the same brush");
    let s = sheet_of(e.kind());
    assert!(s.eraser && s.mask_mode && s.sel_mode);
    assert_eq!((s.anti_overflow, s.recording, s.interval), (Some(4), 2, 3));
    assert_eq!(s.size_min, Some(bits(10.0)));
    assert_eq!(e.base_opacity(), bits(0.4));
    assert_eq!(e.randomization(), Random { amount: bits(0.2), min_pct: bits(5.0), absolute: true });
    assert!(e.hard_dab() && e.hard_dab_main() && e.density_by_gap() && e.wash());
    assert_eq!((e.scatter(), e.texture_scroll()), (bits(0.3), bits(3.0)));
    assert_eq!(e.wash_commit_params(), (bits(0.8), Blend::Mode(2), true));
    assert_eq!(e.sketch(), Some(SketchParams { distance: 1, density: 2 }));
    e.set_wash_opacity(bits(0.1));
    e.set_wash_blend(Blend::Normal);
    assert_eq!((e.wash_opacity(), e.wash_blend()), (bits(0.1), Blend::Normal));
    e.set_base_opacity(bits(0.9));
    assert_eq!(e.base_opacity(), bits(0.9));
    // The fallback dab has an ink and a barrier, and nothing else of it.
    let n = nib_of(&e.twins[1].kind);
    assert_eq!((n.ink, n.mask), (Ink { r: 7, g: 8, b: 9 }, Some(4)));
    assert_eq!(n.reach, bits(5.0));
}

#[test]
fn sizes_are_absolute_and_each_brush_keeps_its_bounds() {
    let set = |kind: EngineKind, px: f32| {
        let mut e = Engine::new(kind, bits(10.0));
        e.set_size_px(bits(px), bits(px * 0.5));
        let once = nib_of(e.kind());
        e.set_size_px(bits(px), bits(px * 0.5));
        assert_eq!(nib_of(e.kind()), once, "setting it twice is setting it once");
        f32::from_bits(e.radius_px())
    };
    assert_eq!(set(EngineKind::Grid(nib(8.0)), 40.0), 20.0);
    assert_eq!(set(EngineKind::Grid(nib(8.0)), 1.0), 2.0);
    assert_eq!(set(EngineKind::Grid(nib(8.0)), 4000.0), 512.0);
    assert_eq!(set(EngineKind::Hairy(nib(8.0)), 1.0), 1.0);
    assert_eq!(set(EngineKind::Curve(nib(8.0)), 4000.0), 1024.0);
    assert_eq!(set(EngineKind::Dyna(nib(8.0)), 4000.0), 2000.0);
    assert_eq!(set(EngineKind::Dab(nib(8.0)), 0.0), f32::from_bits(TINY));
    assert_eq!(f32::from_bits(TINY), 1e-4);
    let mut e = Engine::new(my("G-pen", true), bits(12.0));
    e.set_size_px(bits(30.0), bits(15.0));
    assert_eq!(sheet_of(e.kind()).size, Some(bits(30.0)));
}

#[test]
fn a_fallback_reads_as_stock() {
    let e = Engine::new(EngineKind::Grid(nib(8.0)), bits(16.0));
    assert_eq!(e.name(), "grid dots");
    assert_eq!(e.base_size_px(), bits(16.0));
    assert_eq!((e.base_opacity(), e.wash_opacity()), (bits(1.0), bits(1.0)));
    assert_eq!(f32::from_bits(e.dab_gap_px()), f32::INFINITY);
    assert_eq!(f32::from_bits(NEVER), f32::INFINITY);
    assert_eq!((e.anti_alias_px(), e.size_min_pct()), (0, 0));
    assert!(e.taper_hint().is_none() && e.wash_buffer().is_none() && !e.smudge() && !e.wash());
    assert!(e.texture_mask().is_none() && e.texture_flush().is_none() && e.texture_name().is_none());
    assert!(e.mapping(1, 1).is_empty());
    for (kind, name) in [
        (EngineKind::Dab(nib(1.0)), "simple dab (fallback)"),
        (EngineKind::Hairy(nib(1.0)), "hairy bristles"),
        (EngineKind::Curve(nib(1.0)), "curve brush"),
        (EngineKind::Dyna(nib(1.0)), "dyna spring"),
        (my("G-pen", true), "G-pen"),
    ] {
        assert_eq!(Engine::new(kind, 0).name(), name);
    }
    let e = Engine::new(my("G-pen", true), bits(1.0));
    assert_eq!((e.base_size_px(), e.radius_px(), e.dab_gap_px()), (bits(12.0), bits(6.0), bits(2.0)));
    assert_eq!((e.anti_alias_px(), e.size_min_pct(), e.taper_hint()), (bits(0.5), bits(20.0), Some((3, 4))));
}

#[test]
fn the_card_takes_a_stroke_only_as_a_whole() {
    let mut e = Engine::new(my("G-pen", true), 0);
    assert!(e.gpu_dab_ready());
    e.set_twins(vec![mirrored(my("G-pen", true))]);
    assert!(e.gpu_dab_ready());
    e.set_wash(true, bits(1.0), Blend::Normal);
    assert!(!e.gpu_dab_ready(), "a wash stroke with copies stays off the card");
    e.set_twins(Vec::new());
    assert!(e.gpu_dab_ready());
    e.set_twins(vec![mirrored(EngineKind::Dab(nib(1.0)))]);
    e.set_wash(false, bits(1.0), Blend::Normal);
    assert!(!e.gpu_dab_ready());
    assert!(!Engine::new(my("G-pen", false), 0).gpu_dab_ready());
}

#[test]
fn textures_and_responses_reach_every_copy() {
    let mask = Some(TextureMask { name: "paper".to_string(), size: 2, data: vec![0, 1, 2, 3] });
    let mut e = Engine::new(my("G-pen", true), 0);
    e.set_twins(vec![mirrored(my("G-pen", true))]);
    e.set_texture_mask(&mask);
    assert_eq!(e.texture_name(), Some("paper"));
    assert_eq!(e.texture_flush(), Some((&[0u8, 1, 2, 3][..], 2, true)));
    match &e.twins[0].kind {
        EngineKind::My(b) => assert_eq!(b.texture.as_ref().unwrap().data, [0, 1, 2, 3]),
        k => panic!("{k:?}"),
    }
    e.set_texture_mask(&None);
    assert!(e.texture_mask().is_none());

    let curve = vec![Pt { x: bits(0.0), y: bits(0.5) }, Pt { x: bits(1.0), y: bits(1.0) }];
    e.set_mapping(3, 0, &curve);
    e.set_mapping(4, 0, &curve[..1].to_vec());
    assert_eq!(e.mapping(3, 0), curve);
    e.set_mapping(3, 0, &Vec::new());
    assert!(e.mapping(3, 0).is_empty());
    assert_eq!(e.mapping(4, 0).len(), 1, "and no other response");
    assert!(e.mapping(3, 1).is_empty());
}

#[test]
fn records_drain_brush_first() {
    let mut e = Engine::new(my("G-pen", true), 0);
    e.set_twins(vec![mirrored(EngineKind::Dab(nib(1.0))), mirrored(my("G-pen", true))]);
    assert_eq!(e.drain_dab_records(), [1, 2, 1, 2]);
    assert!(e.drain_dab_records().is_empty());
    assert_eq!(e.wash_buffer(), Some(8));
    e.take_wash_buffer();
    assert_eq!(e.wash_buffer(), None);
}

fn props() -> ToolProps {
    ToolProps {
        size_px: bits(20.0),
        half: bits(10.0),
        opacity: bits(0.8),
        flow: bits(0.3),
        min_size: bits(15.0),
        random: Random { amount: bits(0.5), min_pct: 0, absolute: false },
        hard_dab: true,
        scatter: bits(0.1),
        interval: 6,
        density_by_gap: None,
        anti_alias: 3,
        wash: false,
        brush_blend: Blend::Mode(4),
        texture_scroll: bits(1.0),
        sketch: true,
        sketch_params: SketchParams { distance: 5, density: 6 },
    }
}

#[test]
fn props_keep_what_the_preset_ships_until_a_slider_moves() {
    let still = Drift { min_size: false, random: false };
    let mut e = Engine::new(my("Real G-pen", true), 0);
    e.apply_props_all(&props(), &None, &vec![still]);
    let s = sheet_of(e.kind());
    assert_eq!(s.size, Some(bits(20.0)));
    assert_eq!(s.opacity, bits(0.8), "in build-up the one slider is the dab's own");
    assert_eq!(s.size_min, None, "the preset's curve stands");
    assert_eq!(s.random.amount, 0);
    assert!(!s.density_by_gap, "as the preset ships it");
    assert_eq!(s.wash, Wash { on: false, opacity: bits(1.0), blend: Blend::Normal });
    assert_eq!(s.sketch, Some(SketchParams { distance: 5, density: 6 }));

    let moved = Drift { min_size: true, random: true };
    let mut p = props();
    p.wash = true;
    p.density_by_gap = Some(true);
    e.set_twins(vec![mirrored(EngineKind::Grid(nib(8.0)))]);
    e.apply_props_all(&p, &None, &vec![moved, still]);
    let s = sheet_of(e.kind());
    assert_eq!((s.size_min, s.random.amount), (Some(bits(15.0)), bits(0.5)));
    assert_eq!(s.opacity, bits(0.3), "in a wash the dab's own is the flow");
    assert_eq!(s.wash, Wash { on: true, opacity: bits(0.8), blend: Blend::Mode(4) });
    assert!(s.density_by_gap);
    assert_eq!(nib_of(&e.twins[0].kind), nib(8.0), "a procedural brush has no preset state");

    // A changed unit of the randomization counts as moved.
    let mut e = Engine::new(my("Real G-pen", true), 0);
    let mut p = props();
    p.random.absolute = true;
    e.apply_props_all(&p, &None, &vec![still]);
    assert_eq!(sheet_of(e.kind()).random, p.random);
}

#[test]
fn samples_land_mirrored_and_wrapped() {
    let mut e = Engine::new(my("G-pen", true), 0);
    e.set_twins(vec![
        mirrored(my("G-pen", true)),
        StrokeTwin { kind: my("G-pen", true), x: Some(TwinAxis::Wrap), y: Some(TwinAxis::Wrap), xf: None },
        StrokeTwin { kind: my("G-pen", true), x: None, y: None, xf: Some(5) },
    ]);
    assert_eq!(
        e.sample((bits(300.0), bits(10.0)), (bits(200.0), bits(200.0))),
        [Image::Plain, Image::Axes(Along::Mirror, Along::Stay), Image::Axes(Along::Back, Along::Ahead), Image::Ruler(5)]
    );
    assert_eq!(e.sample((bits(200.0), bits(200.0)), (bits(200.0), bits(200.0)))[2], Image::Axes(Along::Back, Along::Back), "the middle counts as far");
}

#[test]
fn a_symmetric_ruler_has_every_image_but_the_stroke_itself() {
    assert_eq!(
        symmetric_affines(3),
        [Symmetry::Turn(1), Symmetry::Turn(2), Symmetry::Flip(0), Symmetry::Flip(1), Symmetry::Flip(2)]
    );
    assert_eq!(symmetric_affines(0), [Symmetry::Flip(0)]);
    assert_eq!(symmetric_affines(1), [Symmetry::Flip(0)]);
}

#[test]
fn a_size_that_is_none_leaves_the_smallest() {
    let set = |kind: EngineKind, half: f32| {
        let mut e = Engine::new(kind, bits(10.0));
        e.set_size_px(bits(half * 2.0), bits(half));
        f32::from_bits(e.radius_px())
    };
    for half in [-3.0, -0.0, 0.0, f32::NAN, -f32::NAN, f32::NEG_INFINITY] {
        assert_eq!(set(EngineKind::Grid(nib(8.0)), half), 2.0, "{half}");
        assert_eq!(set(EngineKind::Hairy(nib(8.0)), half), 1.0, "{half}");
        assert_eq!(set(EngineKind::Curve(nib(8.0)), half), 2.0, "{half}");
        assert_eq!(set(EngineKind::Dab(nib(8.0)), half), f32::from_bits(TINY), "{half}");
        assert_eq!(set(EngineKind::Dyna(nib(8.0)), half), f32::from_bits(TINY), "{half}");
    }
    assert_eq!(set(EngineKind::Grid(nib(8.0)), f32::INFINITY), 512.0);
}
