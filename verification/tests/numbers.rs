//! Comparisons of numbers by their bit patterns, against the machine's own.

use looking_glass_ng::geometry::{Point3, Quaternion, Vector3};
use looking_glass_ng::scalar::{Scalar, Scalar64};

fn samples() -> Vec<f32> {
    vec![
        0.0,
        -0.0,
        1.0,
        -1.0,
        0.5,
        -0.5,
        1e-8,
        -1e-8,
        1.5,
        f32::MIN_POSITIVE,
        -f32::MIN_POSITIVE,
        f32::from_bits(1),
        f32::from_bits(0x8000_0001),
        f32::MAX,
        f32::MIN,
        f32::INFINITY,
        f32::NEG_INFINITY,
        f32::NAN,
        f32::from_bits(0xffc0_0001),
    ]
}

fn s(x: f32) -> Scalar {
    Scalar::from_bits(x.to_bits())
}

#[test]
fn comparisons_agree_with_the_machine() {
    for a in samples() {
        for b in samples() {
            assert_eq!(s(a).less_than(s(b)), a < b, "{} < {}", a, b);
            assert_eq!(s(a).at_least(s(b)), a >= b, "{} >= {}", a, b);
            assert_eq!(s(a) == s(b), a == b, "{} == {}", a, b);
            let (x, y) = (a as f64, b as f64);
            let (wide_x, wide_y) = (Scalar64 { bits: x.to_bits() }, Scalar64 { bits: y.to_bits() });
            assert_eq!(wide_x == wide_y, x == y, "{} == {}", x, y);
        }
        assert_eq!(s(a).is_nan(), a.is_nan());
        assert_eq!(s(a).abs().bits, a.abs().to_bits());
    }
}

#[test]
fn limits_agree_with_the_machine() {
    for a in samples() {
        for b in samples() {
            if !a.is_nan() && !b.is_nan() && a != b {
                assert_eq!(s(a).min(s(b)).bits, a.min(b).to_bits());
                assert_eq!(s(a).max(s(b)).bits, a.max(b).to_bits());
            }
        }
        assert_eq!(s(a).clamp(s(-1.5), s(1.5)).bits, a.clamp(-1.5, 1.5).to_bits());
    }
    assert_eq!(s(f32::NAN).min(s(2.0)), s(2.0));
    assert_eq!(s(2.0).min(s(f32::NAN)), s(2.0));
    assert_eq!(s(f32::NAN).max(s(2.0)), s(2.0));
    assert_eq!(s(2.0).max(s(f32::NAN)), s(2.0));
}

#[test]
fn coordinates_compare_as_numbers() {
    let p = |x: f32| Point3 { x: s(x), y: s(1.0), z: s(2.0) };
    let v = |x: f32| Vector3 { x: s(x), y: s(1.0), z: s(2.0) };
    let q = |x: f32| Quaternion { s: s(1.0), v: v(x) };
    assert_eq!(p(0.0), p(-0.0));
    assert_eq!(v(0.0), v(-0.0));
    assert_eq!(q(0.0), q(-0.0));
    assert_ne!(p(0.0), p(1.0));
    assert_ne!(v(f32::NAN), v(f32::NAN));
    assert_ne!(q(0.0), q(3.0));
}
