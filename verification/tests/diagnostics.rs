//! Input diagnostics and the margin stamp.

use mn_app::diag::{Diag, HALF_SECOND, Newest, PenHealth, StrokeStats, TWO_SECONDS};
use mn_app::export_stamp::{stamp_dpi, stamp_size, stamp_story};

#[test]
fn a_stroke_counts_its_samples_and_batches() {
    let mut s = StrokeStats::new("pen", (3, 4), 7);
    assert_eq!(s.pressures(), (0, 0), "no sample, no pressure");
    s.note_batch(3);
    s.note_batch(5);
    s.note_batch(2);
    for p in [0.5f32, 0.25, 0.75] {
        s.note_sample(p.to_bits());
    }
    assert_eq!((s.samples, s.batches, s.batch_total, s.batch_max), (3, 3, 10, 5));
    assert_eq!(s.pressures(), (0.25f32.to_bits(), 0.75f32.to_bits()));
    assert_eq!((s.kind, s.at, s.dropped_at_start), ("pen", (3, 4), 7));
}

#[test]
fn rates_come_from_full_windows() {
    assert_eq!(f32::from_bits(HALF_SECOND), 0.5);
    let mut d = Diag::default();
    assert_eq!(d.pointer, "-");
    let newest = Some(Newest { pressure: 0.5f32.to_bits(), t_ms: 100f64.to_bits() });
    assert!(!d.note_batch("pen", 4, newest, 0.2f32.to_bits()));
    assert_eq!((d.events, d.rate), (4, None));
    assert!(d.note_batch("pen", 6, None, 0.6f32.to_bits()), "the window is full");
    assert_eq!((d.events, d.rate), (0, Some((10, 0.6f32.to_bits()))));
    assert_eq!((d.last_batch, d.max_batch, d.batches, d.batch_total), (6, 6, 2, 10));
    assert_eq!(d.last_pressure, 0.5f32.to_bits(), "an empty batch keeps it");
}

#[test]
fn only_a_plausible_age_is_a_latency() {
    assert_eq!(f64::from_bits(TWO_SECONDS), 2000.0);
    let age = |ms: f64| ms.to_bits();
    let mut d = Diag::default();
    d.note_frame(16f32.to_bits(), age(10.0));
    assert_eq!(d.latency_ms, None, "no sample yet");
    d.note_batch("pen", 1, Some(Newest { pressure: 0, t_ms: 100f64.to_bits() }), 0);
    d.note_frame(16f32.to_bits(), age(30.0));
    d.note_frame(16f32.to_bits(), age(12.0));
    assert_eq!((d.latency_ms, d.latency_max_ms), (Some(age(12.0)), 30f64.to_bits()));
    d.note_frame(16f32.to_bits(), age(2000.0));
    assert_eq!(d.latency_ms, None);
    d.note_frame(16f32.to_bits(), age(-1.0));
    assert_eq!((d.latency_ms, d.frames), (None, 5));
    d.note_frame(16f32.to_bits(), age(f64::NAN));
    assert_eq!(d.latency_ms, None);
    d.note_frame(16f32.to_bits(), age(-0.0));
    assert_eq!(d.latency_ms, Some(age(-0.0)), "nothing has passed");
    assert_eq!(d.latency_max_ms, 30f64.to_bits());
}

#[test]
fn a_sample_from_before_the_clock_has_no_latency() {
    for t in [-5.0, -0.0, f64::NAN] {
        let mut d = Diag::default();
        d.note_batch("pen", 1, Some(Newest { pressure: 0, t_ms: f64::to_bits(t) }), 0);
        d.note_frame(16f32.to_bits(), 10f64.to_bits());
        assert_eq!(d.latency_ms, None, "{t}");
    }
}

#[test]
fn pressures_go_by_their_numbers() {
    let read = |ps: &[f32]| {
        let mut s = StrokeStats::new("pen", (0, 0), 0);
        for p in ps {
            s.note_sample(p.to_bits());
        }
        let (lo, hi) = s.pressures();
        (f32::from_bits(lo), f32::from_bits(hi))
    };
    assert_eq!(read(&[-0.25, 0.5]), (-0.25, 0.5), "below nought is less");
    assert_eq!(read(&[-0.25, -0.5]), (-0.5, -0.25));
    assert_eq!(read(&[f32::NAN, 0.5, f32::NAN, 0.25]), (0.25, 0.5), "what is no number is passed over");
    assert_eq!(read(&[f32::NAN]), (0.0, 0.0));
}

#[test]
fn a_pen_that_was_never_seen_claims_nothing() {
    let p = PenHealth::default();
    assert!(!p.seen && !p.pressure_reported && !p.tilt_reported && !p.inverted);
    assert_eq!((p.dropped, p.dropped_at_last_report), (0, 0));
    assert!(p.tool_before_tail.is_none());
}

#[test]
fn a_stamp_is_legible_at_any_scale() {
    assert_eq!(stamp_dpi(None, 600), 96);
    assert_eq!(stamp_dpi(Some(0), 600), 96);
    assert_eq!(stamp_dpi(Some(600), 300), 300);
    assert_eq!(stamp_dpi(Some(600), 3), 36);
    assert_eq!(stamp_dpi(Some(600), 9000), 2400);
}

#[test]
fn a_blank_title_has_no_line() {
    assert_eq!(stamp_story("  My story \n"), Some("My story".to_string()));
    assert_eq!(stamp_story(" \u{3000}\t"), None);
    assert_eq!(stamp_size(Some((40, 12))), (40, 12));
    assert_eq!(stamp_size(None), (0, 0));
}
