use map_generator::fixed::Fixed;
use map_generator::interpolation::Interpolation;
use map_generator::noise::gradient::{Gradient, Vector};
use map_generator::noise::permutation::PermutationTable;
use map_generator::noise::simplex::{grad, Simplex};
use map_generator::noise::value::Value;
use map_generator::noise::{Noise, NoiseKind, NoiseType};
use map_generator::rng::{displacement, uniform};
use rand::rngs::StdRng;
use rand::SeedableRng;

fn fx(num: i64, den: i64) -> Fixed {
    Fixed::from_ratio(num, den)
}

#[test]
fn identity_table_hashes_by_addition() {
    let table = PermutationTable::identity();
    for i in 0..=255u8 {
        assert_eq!(table.entry(i), i);
    }
    assert_eq!(table.index(3, 4), 7);
    assert_eq!(table.index(200, 100), 44);
    assert_eq!(table.index(256 + 3, 512 + 4), 7);
    assert_eq!(table.index(usize::MAX, usize::MAX), 254);
}

#[test]
fn shuffled_table_is_a_permutation_and_not_the_identity() {
    let mut rng = StdRng::seed_from_u64(5);
    let table = PermutationTable::shuffled(&mut rng);
    let mut seen = [false; 256];
    let mut moved = 0;
    for i in 0..=255u8 {
        let entry = table.entry(i);
        assert!(!seen[entry as usize]);
        seen[entry as usize] = true;
        if entry != i {
            moved += 1;
        }
    }
    assert!(seen.iter().all(|&s| s));
    assert!(moved > 200);
}

#[test]
fn shuffled_table_hashes_through_two_lookups() {
    let mut rng = StdRng::seed_from_u64(11);
    let table = PermutationTable::shuffled(&mut rng);
    for (x, y) in [(0usize, 0usize), (1, 2), (255, 255), (300, 7), (12345, 54321)] {
        let first = table.entry((x & 255) as u8) as usize;
        let expected = table.entry(((first + y) & 255) as u8);
        assert_eq!(table.index(x, y), expected);
    }
}

#[test]
fn uniform_draws_lie_in_the_range_and_vary() {
    let mut rng = StdRng::seed_from_u64(1);
    let low = fx(1, 4);
    let high = fx(3, 4);
    let mut distinct = std::collections::BTreeSet::new();
    for _ in 0..200 {
        let v = uniform(&mut rng, low, high);
        assert!(v.ge(low) && v.le(high));
        distinct.insert(v.raw());
    }
    assert!(distinct.len() > 100);
    assert_eq!(uniform(&mut rng, low, low), low);
}

#[test]
fn displacements_lie_on_both_sides_of_zero() {
    let mut rng = StdRng::seed_from_u64(2);
    let delta = fx(1, 8);
    let mut below = 0;
    let mut above = 0;
    for _ in 0..200 {
        let v = displacement(&mut rng, delta);
        assert!(v.ge(delta.negated()) && v.le(delta));
        if v.lt(Fixed::zero()) {
            below += 1;
        } else {
            above += 1;
        }
    }
    assert!(below > 50 && above > 50);
    assert_eq!(displacement(&mut rng, Fixed::zero()), Fixed::zero());
}

#[test]
fn grad_projects_on_eight_directions() {
    let x = fx(3, 8);
    let y = fx(1, 8);
    assert_eq!(grad(0, x, y), fx(4, 8));
    assert_eq!(grad(1, x, y), fx(3, 8));
    assert_eq!(grad(2, x, y), fx(2, 8));
    assert_eq!(grad(3, x, y), fx(1, 8));
    assert_eq!(grad(4, x, y), fx(-1, 8));
    assert_eq!(grad(5, x, y), fx(-2, 8));
    assert_eq!(grad(6, x, y), fx(-3, 8));
    assert_eq!(grad(7, x, y), fx(-4, 8));
    // only the low three bits of the hash count
    assert_eq!(grad(8 + 5, x, y), grad(5, x, y));
    assert_eq!(grad(255, x, y), grad(7, x, y));
}

#[test]
fn vector_dot_product() {
    let v = Vector::new(fx(1, 2), fx(-1, 4));
    assert_eq!(v.dot(Vector::new(Fixed::from_int(2), Fixed::from_int(4))), Fixed::zero());
    assert_eq!(v.dot(Vector::new(Fixed::one(), Fixed::zero())), fx(1, 2));
    assert_eq!(Vector::zero().dot(v), Fixed::zero());
}

#[test]
fn simplex_index_is_the_lattice_hash() {
    let mut rng = StdRng::seed_from_u64(5);
    let field = Simplex::new(&mut rng);
    let mut rng = StdRng::seed_from_u64(5);
    let table = PermutationTable::shuffled(&mut rng);
    for (x, y) in [(0usize, 0usize), (1, 0), (0, 1), (17, 250), (1000, 2000)] {
        assert_eq!(field.index(x, y), table.index(x, y));
    }
}

#[test]
fn simplex_noise_is_one_half_at_the_origin() {
    let mut rng = StdRng::seed_from_u64(5);
    let field = Simplex::new(&mut rng);
    assert_eq!(field.noise(Fixed::zero(), Fixed::zero()), Fixed::half());
}

#[test]
fn simplex_noise_stays_near_the_unit_interval() {
    let mut rng = StdRng::seed_from_u64(9);
    let field = Simplex::new(&mut rng);
    let mut lowest = Fixed::one();
    let mut highest = Fixed::zero();
    for i in 0..64 {
        for j in 0..64 {
            let v = field.noise(fx(i * 13, 32), fx(j * 7, 32));
            assert!(v.ge(fx(-1, 10)) && v.le(fx(11, 10)));
            lowest = lowest.min(v);
            highest = highest.max(v);
        }
    }
    assert!(lowest.lt(fx(1, 4)) && highest.gt(fx(3, 4)));
}

#[test]
fn gradient_noise_is_one_half_on_the_lattice() {
    for kernel in [Interpolation::Linear, Interpolation::Cubic, Interpolation::Cosine] {
        let mut rng = StdRng::seed_from_u64(5);
        let field = Gradient::new(&mut rng, kernel);
        for (x, y) in [(0, 0), (1, 0), (0, 1), (7, 9), (300, 2)] {
            assert_eq!(field.noise(Fixed::from_int(x), Fixed::from_int(y)), Fixed::half());
        }
    }
}

#[test]
fn gradient_noise_stays_in_the_unit_interval() {
    let mut rng = StdRng::seed_from_u64(3);
    let field = Gradient::new(&mut rng, Interpolation::Quintic);
    let mut lowest = Fixed::one();
    let mut highest = Fixed::zero();
    for i in 0..64 {
        for j in 0..64 {
            let v = field.noise(fx(i * 11, 32), fx(j * 5, 32));
            assert!(v.ge(Fixed::zero()) && v.le(Fixed::one()));
            lowest = lowest.min(v);
            highest = highest.max(v);
        }
    }
    assert!(lowest.lt(fx(2, 5)) && highest.gt(fx(3, 5)));
}

#[test]
fn value_noise_stays_in_the_unit_interval_and_has_period_256() {
    let mut rng = StdRng::seed_from_u64(3);
    let field = Value::new(&mut rng, Interpolation::Cubic);
    for i in 0..40 {
        for j in 0..40 {
            let x = fx(i * 9, 16);
            let y = fx(j * 7, 16);
            let v = field.noise(x, y);
            assert!(v.ge(Fixed::zero()) && v.le(Fixed::one()));
            assert_eq!(field.noise(x.plus(Fixed::from_int(256)), y), v);
            assert_eq!(field.noise(x, y.plus(Fixed::from_int(512))), v);
        }
    }
}

#[test]
fn value_noise_has_no_seam_across_lattice_lines() {
    let mut rng = StdRng::seed_from_u64(4);
    let field = Value::new(&mut rng, Interpolation::Linear);
    let tiny = Fixed::from_raw(16);
    for i in 1..20 {
        let line = Fixed::from_int(i);
        let y = fx(i * 3, 7);
        let before = field.noise(line.minus(tiny), y).raw();
        let on = field.noise(line, y).raw();
        assert!((before - on).abs() < 64);
        let before = field.noise(y, line.minus(tiny)).raw();
        let on = field.noise(y, line).raw();
        assert!((before - on).abs() < 64);
    }
}

#[test]
fn negative_coordinates_sample_the_first_cell() {
    let mut rng = StdRng::seed_from_u64(4);
    let field = Value::new(&mut rng, Interpolation::Linear);
    // a whole negative coordinate has no fractional part and maps to lattice point zero
    assert_eq!(
        field.noise(Fixed::from_int(-3), Fixed::zero()),
        field.noise(Fixed::zero(), Fixed::zero())
    );
}

#[test]
fn fields_of_one_seed_are_equal() {
    for kind in [NoiseKind::Value, NoiseKind::Gradient, NoiseKind::Simplex] {
        let mut first = StdRng::seed_from_u64(77);
        let mut second = StdRng::seed_from_u64(77);
        let a = kind.into(&mut first, Interpolation::Cubic);
        let b = kind.into(&mut second, Interpolation::Cubic);
        for i in 0..50 {
            let x = fx(i * 17, 10);
            let y = fx(i * 3, 10);
            assert_eq!(a.noise(x, y), b.noise(x, y));
        }
    }
}

#[test]
fn fields_of_different_seeds_differ() {
    for kind in [NoiseKind::Value, NoiseKind::Gradient, NoiseKind::Simplex] {
        let mut first = StdRng::seed_from_u64(1);
        let mut second = StdRng::seed_from_u64(2);
        let a = kind.into(&mut first, Interpolation::Cubic);
        let b = kind.into(&mut second, Interpolation::Cubic);
        let differing = (0..50)
            .filter(|&i| {
                let x = fx(i * 17 + 3, 10);
                let y = fx(i * 3 + 1, 10);
                a.noise(x, y) != b.noise(x, y)
            })
            .count();
        assert!(differing > 25);
    }
}

#[test]
fn kind_builds_the_field_of_its_kind() {
    let mut rng = StdRng::seed_from_u64(1);
    assert!(matches!(NoiseKind::Value.into(&mut rng, Interpolation::Linear), NoiseType::Value(_)));
    assert!(matches!(
        NoiseKind::Gradient.into(&mut rng, Interpolation::Linear),
        NoiseType::Gradient(_)
    ));
    assert!(matches!(
        NoiseKind::Simplex.into(&mut rng, Interpolation::Linear),
        NoiseType::Simplex(_)
    ));
    assert_eq!(NoiseKind::default(), NoiseKind::Value);
}

#[test]
fn simplex_ignores_the_kernel() {
    let mut first = StdRng::seed_from_u64(8);
    let mut second = StdRng::seed_from_u64(8);
    let a = NoiseKind::Simplex.into(&mut first, Interpolation::Linear);
    let b = NoiseKind::Simplex.into(&mut second, Interpolation::Cosine);
    for i in 0..50 {
        let x = fx(i * 17, 10);
        let y = fx(i * 3, 10);
        assert_eq!(a.noise(x, y), b.noise(x, y));
    }
}
