use map_generator::fixed::Fixed;
use map_generator::interpolation::{cosine, cubic, lerp, quintic, Interpolation};
use map_generator::trig::{sine_of_quarter, unit_direction};

fn fx(num: i64, den: i64) -> Fixed {
    Fixed::from_ratio(num, den)
}

const KINDS: [Interpolation; 4] = [
    Interpolation::Linear,
    Interpolation::Cubic,
    Interpolation::Quintic,
    Interpolation::Cosine,
];

#[test]
fn linear_interpolation_is_the_weighted_mean() {
    assert_eq!(lerp(Fixed::from_int(2), Fixed::from_int(6), fx(1, 4)), Fixed::from_int(3));
    assert_eq!(lerp(Fixed::from_int(6), Fixed::from_int(2), fx(1, 4)), Fixed::from_int(5));
    assert_eq!(lerp(fx(1, 4), fx(3, 4), fx(1, 2)), fx(1, 2));
}

#[test]
fn cubic_weight_is_smoothstep() {
    let zero = Fixed::zero();
    let one = Fixed::one();
    // 3 t^2 - 2 t^3 at t = 1/4 is 5/32
    assert_eq!(cubic(zero, one, fx(1, 4)), fx(5, 32));
    assert_eq!(cubic(zero, one, fx(1, 2)), fx(1, 2));
    assert_eq!(cubic(zero, one, fx(3, 4)), fx(27, 32));
}

#[test]
fn quintic_weight_is_smootherstep() {
    let zero = Fixed::zero();
    let one = Fixed::one();
    // 6 t^5 - 15 t^4 + 10 t^3 at t = 1/4 is 53/512
    assert_eq!(quintic(zero, one, fx(1, 4)), fx(53, 512));
    assert_eq!(quintic(zero, one, fx(1, 2)), fx(1, 2));
    assert_eq!(quintic(zero, one, fx(3, 4)), fx(459, 512));
}

#[test]
fn cosine_weight_is_half_of_one_minus_cosine() {
    let zero = Fixed::zero();
    let one = Fixed::one();
    assert_eq!(cosine(zero, one, fx(1, 2)), fx(1, 2));
    // (1 - cos(pi / 3)) / 2 = 1/4 and (1 - cos(2 pi / 3)) / 2 = 3/4
    let third = cosine(zero, one, fx(1, 3)).raw();
    let two_thirds = cosine(zero, one, fx(2, 3)).raw();
    let tolerance = fx(1, 2000).raw();
    assert!((third - fx(1, 4).raw()).abs() < tolerance);
    assert!((two_thirds - fx(3, 4).raw()).abs() < tolerance);
    // the weight is even in t
    assert_eq!(cosine(zero, one, fx(1, 3).negated()).raw(), third);
}

#[test]
fn every_kernel_returns_the_ends_at_the_ends() {
    let a = fx(1, 8);
    let b = fx(7, 8);
    for kind in KINDS {
        assert_eq!(kind.apply(a, b, Fixed::zero()), a);
        assert_eq!(kind.apply(a, b, Fixed::one()), b);
        assert_eq!(kind.apply(a, b, fx(1, 2)), fx(1, 2));
    }
}

#[test]
fn every_kernel_is_monotone_on_the_unit_interval() {
    for kind in KINDS {
        let mut previous = Fixed::zero();
        for step in 0..=64 {
            let value = kind.apply(Fixed::zero(), Fixed::one(), fx(step, 64));
            assert!(value.ge(previous));
            assert!(value.le(Fixed::one()));
            previous = value;
        }
    }
}

#[test]
fn apply_dispatches_to_the_kernels() {
    let a = fx(1, 8);
    let b = fx(5, 8);
    let t = fx(3, 10);
    assert_eq!(Interpolation::Linear.apply(a, b, t), lerp(a, b, t));
    assert_eq!(Interpolation::Cubic.apply(a, b, t), cubic(a, b, t));
    assert_eq!(Interpolation::Quintic.apply(a, b, t), quintic(a, b, t));
    assert_eq!(Interpolation::Cosine.apply(a, b, t), cosine(a, b, t));
    assert_eq!(Interpolation::default(), Interpolation::Linear);
}

#[test]
fn quarter_sine_is_exact_at_the_ends_and_close_in_between() {
    assert_eq!(sine_of_quarter(Fixed::zero()), Fixed::zero());
    assert_eq!(sine_of_quarter(Fixed::one()), Fixed::one());
    // sin(pi / 6) = 1/2 at a third of the quarter turn
    let tolerance = fx(1, 2000).raw();
    assert!((sine_of_quarter(fx(1, 3)).raw() - fx(1, 2).raw()).abs() < tolerance);
    for step in 0..=100 {
        let expected = (std::f64::consts::FRAC_PI_2 * step as f64 / 100.0).sin();
        let got = sine_of_quarter(fx(step, 100)).raw() as f64 / 4294967296.0;
        assert!((got - expected).abs() < 0.0005);
    }
}

#[test]
fn unit_directions_follow_the_quadrants() {
    let one = Fixed::one();
    let zero = Fixed::zero();
    assert_eq!(unit_direction(0), (one, zero));
    assert_eq!(unit_direction(0x4000_0000), (zero, one));
    assert_eq!(unit_direction(0x8000_0000), (one.negated(), zero));
    assert_eq!(unit_direction(0xC000_0000), (zero, one.negated()));
    for step in 0..64u32 {
        let angle = step.wrapping_mul(0x0400_0000).wrapping_add(0x0123_4567);
        let (c, s) = unit_direction(angle);
        let radians = angle as f64 / 4294967296.0 * std::f64::consts::TAU;
        assert!((c.raw() as f64 / 4294967296.0 - radians.cos()).abs() < 0.0005);
        assert!((s.raw() as f64 / 4294967296.0 - radians.sin()).abs() < 0.0005);
    }
}
