//! The order of floating-point numbers by their bit patterns.

use mn_app::floats::{are_together, is_at_most, is_below, is_below_64, is_equal, is_finite, is_nan, pattern_at, place_of};
use mn_app::geom::Pt;

const SOME: [f32; 11] = [
    f32::NEG_INFINITY,
    f32::MIN,
    -1.5,
    -1e-40,
    -0.0,
    0.0,
    1e-40,
    1.5,
    f32::MAX,
    f32::INFINITY,
    f32::NAN,
];

#[test]
fn patterns_compare_as_their_numbers_do() {
    for a in SOME {
        for b in SOME {
            let (x, y) = (a.to_bits(), b.to_bits());
            assert_eq!(is_equal(x, y), a == b, "{a} {b}");
            assert_eq!(is_below(x, y), a < b, "{a} {b}");
            assert_eq!(is_at_most(x, y), a <= b, "{a} {b}");
            let (v, w) = ((a as f64).to_bits(), (b as f64).to_bits());
            assert_eq!(is_below_64(v, w), a < b, "{a} {b}");
        }
        assert_eq!(is_nan(a.to_bits()), a.is_nan());
        assert_eq!(is_finite(a.to_bits()), a.is_finite());
    }
    assert!(is_nan((-f32::NAN).to_bits()));
}

#[test]
fn a_place_leads_back_to_its_number() {
    for a in SOME.into_iter().filter(|a| !a.is_nan()) {
        assert_eq!(f32::from_bits(pattern_at(place_of(a.to_bits()))), a);
    }
}

#[test]
fn points_are_together_where_their_numbers_are() {
    let pt = |x: f32, y: f32| Pt { x: x.to_bits(), y: y.to_bits() };
    assert!(are_together(pt(0.0, 3.0), pt(-0.0, 3.0)));
    assert!(!are_together(pt(1.0, 3.0), pt(-1.0, 3.0)));
    assert!(!are_together(pt(f32::NAN, 3.0), pt(f32::NAN, 3.0)));
}
