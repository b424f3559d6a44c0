//! Krita presets.

use mn_app::kpp_import::{
    DEFAULT_DIAMETER, Dynamics, ImportSummary, KppPreset, Param, Planned, flag, import_summary,
    is_inert, num, plan_kpp_import, size_px, spacing_fraction, translate, unit, xml_attr,
};

fn param(k: &str, v: &str) -> Param {
    Param { key: k.to_string(), value: v.to_string(), number: v.trim().parse::<f64>().ok().map(f64::to_bits) }
}

fn params(list: &[(&str, &str)]) -> Vec<Param> {
    let mut v: Vec<Param> = list.iter().map(|(k, v)| param(k, v)).collect();
    v.sort_by(|a, b| a.key.cmp(&b.key));
    v
}

fn preset(paintop: &str, list: &[(&str, &str)]) -> KppPreset {
    KppPreset { name: "Ink_gpen".into(), paintop_id: paintop.into(), params: params(list) }
}

/// The number of the tip definition's own spacing.
fn attr(p: &KppPreset) -> Option<u64> {
    let blob = p.params.iter().find(|q| q.key == "brush_definition")?;
    xml_attr(&blob.value, "spacing")?.parse::<f64>().ok().map(f64::to_bits)
}

fn dynamics(b: &Planned) -> Dynamics {
    match b {
        Planned::Dynamics(d) => *d,
        p => panic!("{p:?}"),
    }
}

#[test]
fn pixel_brush_dynamics_translate_and_the_rest_is_noted() {
    let p = preset(
        "paintbrush",
        &[
            ("BrushSize", "40"),
            ("Spacing", "0.25"),
            ("PressureSize", "1"),
            ("OpacityValue", "0.8"),
            ("FlowValue", "1.0"),
            ("LightnessStrengthValue", "0.42"),
            ("PressureRotation", "0"),
        ],
    );
    let plan = plan_kpp_import(&p, "ink", attr(&p));
    let sum = import_summary(&plan, true);
    assert_eq!((sum.imported, sum.translated), (1, 1));
    assert_eq!(plan.name, "Ink_gpen");
    let d = dynamics(&plan.brush);
    assert_eq!(f64::from_bits(d.diameter), 40.0);
    assert!(d.size_by_pressure);
    assert_eq!(d.spacing.map(f64::from_bits), Some(0.25));
    // Opacity is the stroke alpha; no pressure transfer → flat flow.
    assert_eq!(f64::from_bits(d.opaque), 0.8);
    assert_eq!(f64::from_bits(d.flow), 1.0);
    assert!(!d.opaque_by_pressure);
    // Honest notes: the unmodelled param verbatim, the OFF one silent.
    assert!(plan.notes.iter().any(|n| n == "LightnessStrengthValue"), "{:?}", plan.notes);
    assert!(!plan.notes.iter().any(|n| n.contains("PressureRotation")), "{:?}", plan.notes);
}

#[test]
fn pressure_transfer_and_brush_definition_spacing() {
    let p = preset(
        "paintbrush",
        &[
            ("BrushSize", "20"),
            ("FlowValue", "0.5"),
            ("PressureFlow", "true"),
            (
                "brush_definition",
                "<Brush autoSpacing=\"0\" autoSpacingCoeff=\"1\" spacing=\"0.1\" type=\"auto_brush\"/>",
            ),
        ],
    );
    let plan = plan_kpp_import(&p, "flow", attr(&p));
    assert_eq!(import_summary(&plan, true).imported, 1);
    let d = dynamics(&plan.brush);
    assert!(d.opaque_by_pressure);
    assert_eq!(f64::from_bits(d.flow), 0.5);
    // 0.1 = 10 %, NOT autoSpacingCoeff's 1.
    assert_eq!(d.spacing.map(f64::from_bits), Some(0.1));
    assert!(
        plan.notes.iter().any(|n| n.starts_with("brush_definition")),
        "the tip is a separate resource and must say so"
    );
}

#[test]
fn other_paintops_import_plain_with_the_engine_named() {
    let p = preset("colorsmudge", &[("BrushSize", "60"), ("SmudgeRate", "0.7")]);
    let plan = plan_kpp_import(&p, "smudge", attr(&p));
    let sum = import_summary(&plan, true);
    assert_eq!((sum.imported, sum.translated, sum.notes), (1, 0, 1));
    // The size it stated plainly still applies; nothing else does.
    assert_eq!(plan.brush, Planned::Plain(60f64.to_bits()));
    assert_eq!(plan.notes.len(), 1);
    assert!(plan.notes[0].contains("colorsmudge"), "{:?}", plan.notes);
}

#[test]
fn empty_params_still_import_a_plain_brush() {
    let p = preset("paintbrush", &[]);
    let plan = plan_kpp_import(&p, "empty", attr(&p));
    let sum = import_summary(&plan, true);
    assert_eq!((sum.imported, sum.translated), (1, 1));
    let d = dynamics(&plan.brush);
    assert_eq!(f64::from_bits(d.diameter), 20.0);
    assert_eq!(d.diameter, DEFAULT_DIAMETER);
    assert!(!d.size_by_pressure && !d.opaque_by_pressure, "no dynamics");
    assert_eq!(d.spacing, None, "default gap");
    assert_eq!(f64::from_bits(d.flow), 1.0);
}

#[test]
fn a_nameless_preset_takes_the_name_of_its_set() {
    let mut p = preset("paintbrush", &[]);
    p.name = "  ".into();
    assert_eq!(plan_kpp_import(&p, "set", None).name, "set");
    p.name = " Round ".into();
    assert_eq!(plan_kpp_import(&p, "set", None).name, "Round");
}

#[test]
fn a_brush_that_was_not_written_counts_for_nothing() {
    let p = preset("paintbrush", &[("Texture/Pattern", "x")]);
    let plan = plan_kpp_import(&p, "ink", None);
    assert_eq!(import_summary(&plan, false), ImportSummary { imported: 0, translated: 0, notes: 0 });
    assert_eq!(import_summary(&plan, true).notes, 2, "the size and the texture");
}

#[test]
fn switches_read_as_numbers_words_and_sensors() {
    let p = params(&[
        ("a", "1"),
        ("b", "0.0"),
        ("c", "TRUE"),
        ("d", "False"),
        ("e", "<sensor id=\"Pressure\"/>"),
        ("f", "tilt"),
        ("g", " nan "),
    ]);
    let on: Vec<bool> = ["a", "b", "c", "d", "e", "f", "g", "h"].iter().map(|k| flag(&p, k)).collect();
    assert_eq!(on, [true, false, true, false, true, false, true, false]);
    for (v, off) in [("", true), ("  ", true), ("FALSE", true), ("0", true), ("-0.0", true), ("no", false), ("0.1", false)] {
        assert_eq!(is_inert(v, param("k", v).number), off, "{v:?}");
    }
}

#[test]
fn numbers_are_held_to_their_ranges() {
    let one = |k: &str, v: &str| params(&[(k, v)]);
    assert_eq!(num(&one("x", " 2.5 "), "x").map(f64::from_bits), Some(2.5));
    assert_eq!(unit(&one("x", "2.5"), "x").map(f64::from_bits), Some(1.0));
    assert_eq!(unit(&one("x", "-2.5"), "x").map(f64::from_bits), Some(0.0));
    assert!(f64::from_bits(unit(&one("x", "nan"), "x").unwrap()).is_nan());
    assert_eq!(size_px(&one("Size", "0.1")).map(f64::from_bits), Some(0.1));
    assert_eq!(size_px(&one("Size", "0.05")), None);
    assert_eq!(size_px(&one("Size", "10000")).map(f64::from_bits), Some(10000.0));
    assert_eq!(size_px(&one("Size", "10001")), None);
    assert_eq!(size_px(&one("Size", "-40")), None);
    assert_eq!(size_px(&params(&[("BrushSize", "99999"), ("Size", "40")])), None, "the first number decides");
    assert_eq!(size_px(&params(&[("BrushSize", "big"), ("Size", "40")])).map(f64::from_bits), Some(40.0));
    assert_eq!(spacing_fraction(&one("Spacing", "0"), Some(1)), None);
    assert_eq!(spacing_fraction(&one("Spacing", "inf"), None), None);
    assert_eq!(spacing_fraction(&one("Other", "1"), Some(0.5f64.to_bits())), None, "no tip definition");
}

#[test]
fn attributes_start_a_word() {
    assert_eq!(xml_attr("<a spacing=\" 0.2 \"/>", "spacing").as_deref(), Some("0.2"));
    assert_eq!(xml_attr("spacing=\"1\"", "spacing").as_deref(), Some("1"));
    assert_eq!(xml_attr("<spacing=\"1\"", "spacing").as_deref(), Some("1"));
    assert_eq!(xml_attr("<a xspacing=\"1\"/>", "spacing"), None);
    assert_eq!(xml_attr("<a spacing=\"1", "spacing"), None, "no closing quote");
    assert_eq!(xml_attr("", "spacing"), None);
}

#[test]
fn nothing_is_lost_in_silence() {
    let p = params(&[("Size", "3"), ("Zeta", "on"), ("Alpha", "7"), ("Off", "0"), ("brush_definition", "")]);
    let (_, notes) = translate(&p, None);
    assert_eq!(notes, ["Alpha", "Zeta", "brush_definition (the tip itself — a separate Krita resource)"]);
}
