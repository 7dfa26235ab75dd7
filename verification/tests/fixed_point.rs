use map_generator::fixed::{Fixed, HALF_RAW, ONE_RAW};

fn fx(num: i64, den: i64) -> Fixed {
    Fixed::from_ratio(num, den)
}

#[test]
fn constants_are_one_and_one_half() {
    assert_eq!(Fixed::one().raw(), 1i64 << 32);
    assert_eq!(Fixed::half().raw(), 1i64 << 31);
    assert_eq!(ONE_RAW, 2 * HALF_RAW);
    assert_eq!(Fixed::zero().raw(), 0);
}

#[test]
fn from_ratio_rounds_down() {
    assert_eq!(fx(1, 2), Fixed::half());
    assert_eq!(fx(3, 1), Fixed::from_int(3));
    assert_eq!(fx(1, 3).raw(), 1431655765);
    assert_eq!(fx(-1, 3).raw(), -1431655766);
    assert_eq!(fx(1, -3).raw(), -1431655766);
    assert_eq!(fx(-1, -2), Fixed::half());
}

#[test]
fn sums_and_differences_are_exact() {
    assert_eq!(fx(1, 4).plus(fx(1, 2)), fx(3, 4));
    assert_eq!(fx(1, 4).minus(fx(1, 2)), fx(-1, 4));
    assert_eq!(fx(1, 4).negated(), fx(-1, 4));
    assert_eq!(fx(-1, 4).abs(), fx(1, 4));
}

#[test]
fn sums_saturate() {
    let max = Fixed::from_raw(i64::MAX);
    let min = Fixed::from_raw(i64::MIN);
    assert_eq!(max.plus(Fixed::one()), max);
    assert_eq!(min.minus(Fixed::one()), min);
    assert_eq!(min.negated(), max);
    assert_eq!(min.abs(), max);
    assert_eq!(Fixed::from_int(i64::MAX), max);
    assert_eq!(Fixed::from_int(i64::MIN), min);
    assert_eq!(Fixed::from_usize(usize::MAX), max);
}

#[test]
fn products_round_down_and_saturate() {
    assert_eq!(fx(1, 2).times(fx(1, 2)), fx(1, 4));
    assert_eq!(fx(-3, 2).times(Fixed::from_int(2)), Fixed::from_int(-3));
    assert_eq!(Fixed::from_raw(1).times(fx(1, 2)).raw(), 0);
    assert_eq!(Fixed::from_raw(-1).times(fx(1, 2)).raw(), -1);
    let big = Fixed::from_int(1 << 20);
    assert_eq!(big.times(big).raw(), i64::MAX);
    assert_eq!(big.times(big.negated()).raw(), i64::MIN);
}

#[test]
fn multiplying_by_one_changes_nothing() {
    for raw in [0, 1, -1, 12345678901, -98765432101, i64::MAX, i64::MIN] {
        let v = Fixed::from_raw(raw);
        assert_eq!(v.times(Fixed::one()), v);
        assert_eq!(Fixed::one().times(v), v);
    }
}

#[test]
fn quotients_round_down_and_saturate() {
    assert_eq!(Fixed::one().over(Fixed::from_int(4)), fx(1, 4));
    assert_eq!(Fixed::from_int(-1).over(Fixed::from_int(4)), fx(-1, 4));
    assert_eq!(Fixed::one().over(Fixed::from_int(-4)), fx(-1, 4));
    assert_eq!(Fixed::one().over(Fixed::from_int(3)).raw(), 1431655765);
    assert_eq!(Fixed::from_int(-1).over(Fixed::from_int(3)).raw(), -1431655766);
    assert_eq!(Fixed::from_int(1 << 20).over(Fixed::from_raw(1)).raw(), i64::MAX);
}

#[test]
fn comparisons_follow_the_raw_values() {
    let a = fx(1, 4);
    let b = fx(1, 2);
    assert!(a.lt(b) && a.le(b) && !a.gt(b) && !a.ge(b));
    assert!(a.le(a) && a.ge(a) && !a.lt(a) && !a.gt(a));
    assert_eq!(a.max(b), b);
    assert_eq!(a.min(b), a);
}

#[test]
fn whole_and_fractional_parts() {
    assert_eq!(fx(7, 2).int_part(), 3);
    assert_eq!(fx(7, 2).fract(), fx(1, 2));
    assert_eq!(fx(-7, 2).int_part(), 0);
    assert_eq!(fx(-7, 2).fract(), fx(-1, 2));
    assert_eq!(Fixed::from_int(5).fract(), Fixed::zero());
    assert_eq!(Fixed::from_raw(i64::MAX).int_part(), (1usize << 31) - 1);
}

#[test]
fn square_roots_round_down() {
    assert_eq!(Fixed::from_int(4).sqrt(), Fixed::from_int(2));
    assert_eq!(fx(1, 4).sqrt(), fx(1, 2));
    assert_eq!(Fixed::from_int(2).sqrt().raw(), 6074000999);
    assert_eq!(Fixed::zero().sqrt(), Fixed::zero());
    assert_eq!(Fixed::from_int(-4).sqrt(), Fixed::zero());
    assert_eq!(Fixed::from_raw(1).sqrt().raw(), 65536);
    let root = Fixed::from_raw(i64::MAX).sqrt().raw() as i128;
    let radicand = (i64::MAX as i128) << 32;
    assert!(root * root <= radicand && radicand < (root + 1) * (root + 1));
}

#[test]
fn channels_clamp_to_a_byte() {
    assert_eq!(Fixed::zero().to_channel(), 0);
    assert_eq!(Fixed::one().to_channel(), 255);
    assert_eq!(Fixed::half().to_channel(), 127);
    assert_eq!(fx(-1, 10).to_channel(), 0);
    assert_eq!(Fixed::from_int(2).to_channel(), 255);
    assert_eq!(fx(1, 255).to_channel(), 0);
    assert_eq!(fx(2, 255).to_channel(), 1);
}
