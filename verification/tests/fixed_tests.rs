use fluid::fixed::{MAX_INDEX, ONE};
use fluid::{bilerp, relax, DiscreteField, Fixed, FluidSolver, Quantity, Scalar, Vector, Vector2};

/// The fixed-point number nearest to `x` towards zero.
fn fx(x: f64) -> Fixed {
    Fixed::new((x * ONE as f64) as i64)
}

fn bits(b: i64) -> Fixed {
    Fixed::new(b)
}

const MAX: i64 = i64::MAX;
const MIN: i64 = i64::MIN;

#[test]
fn one_has_the_bits_of_two_to_the_32() {
    assert_eq!(ONE, 4294967296);
    assert_eq!(Fixed::from_index(1), bits(ONE));
    assert_eq!(fx(1.0), bits(ONE));
    assert_eq!(fx(-0.5), bits(-2147483648));
}

#[test]
fn plus_and_minus_are_exact() {
    assert_eq!(fx(1.5).plus(fx(2.25)), fx(3.75));
    assert_eq!(fx(1.5).minus(fx(2.25)), fx(-0.75));
    assert_eq!(bits(1).plus(bits(-3)), bits(-2));
    assert_eq!(bits(MAX).minus(bits(MAX)), bits(0));
    assert_eq!(bits(MIN).plus(bits(MAX)), bits(-1));
}

#[test]
fn plus_and_minus_stop_at_the_ends() {
    assert_eq!(bits(MAX).plus(bits(1)), bits(MAX));
    assert_eq!(bits(MAX).plus(bits(MAX)), bits(MAX));
    assert_eq!(bits(MIN).plus(bits(-1)), bits(MIN));
    assert_eq!(bits(MIN).plus(bits(MIN)), bits(MIN));
    assert_eq!(bits(MIN).minus(bits(1)), bits(MIN));
    assert_eq!(bits(MAX).minus(bits(MIN)), bits(MAX));
    assert_eq!(bits(MIN).minus(bits(MAX)), bits(MIN));
    assert_eq!(bits(0).minus(bits(MIN)), bits(MAX));
}

#[test]
fn times_multiplies() {
    assert_eq!(fx(1.5).times(fx(-2.25)), fx(-3.375));
    assert_eq!(fx(1.5).times(fx(-2.25)), bits(-14495514624));
    assert_eq!(fx(-4.0).times(fx(-0.125)), fx(0.5));
    assert_eq!(fx(123.0).times(fx(1.0)), fx(123.0));
    assert_eq!(fx(123.0).times(fx(0.0)), fx(0.0));
    assert_eq!(bits(MIN).times(fx(1.0)), bits(MIN));
    assert_eq!(bits(MAX).times(fx(1.0)), bits(MAX));
}

#[test]
fn times_rounds_towards_zero() {
    assert_eq!(bits(1).times(bits(1)), bits(0));
    assert_eq!(bits(-1).times(bits(1)), bits(0));
    assert_eq!(bits(3).times(fx(0.5)), bits(1));
    assert_eq!(bits(-3).times(fx(0.5)), bits(-1));
    assert_eq!(bits(3).times(fx(-0.5)), bits(-1));
    assert_eq!(bits(-3).times(fx(-0.5)), bits(1));
}

#[test]
fn times_stops_at_the_ends() {
    assert_eq!(bits(MAX).times(fx(2.0)), bits(MAX));
    assert_eq!(bits(MIN).times(fx(2.0)), bits(MIN));
    assert_eq!(bits(MIN).times(fx(-1.0)), bits(MAX));
    assert_eq!(bits(MIN).times(bits(MIN)), bits(MAX));
    assert_eq!(bits(MAX).times(bits(MIN)), bits(MIN));
    assert_eq!(fx(65536.0).times(fx(65536.0)), bits(MAX));
    assert_eq!(fx(-65536.0).times(fx(65536.0)), bits(MIN));
}

#[test]
fn over_divides() {
    assert_eq!(fx(7.5).over(fx(2.5)), fx(3.0));
    assert_eq!(fx(-7.5).over(fx(2.5)), fx(-3.0));
    assert_eq!(fx(1.0).over(fx(-4.0)), fx(-0.25));
    assert_eq!(fx(1.0).over(fx(3.0)), bits(1431655765));
    assert_eq!(fx(-1.0).over(fx(3.0)), bits(-1431655765));
    assert_eq!(bits(1).over(fx(2.0)), bits(0));
    assert_eq!(bits(-1).over(fx(2.0)), bits(0));
    assert_eq!(bits(MIN).over(fx(1.0)), bits(MIN));
}

#[test]
fn over_stops_at_the_ends() {
    assert_eq!(bits(MAX).over(fx(0.5)), bits(MAX));
    assert_eq!(bits(MIN).over(fx(0.5)), bits(MIN));
    assert_eq!(bits(MIN).over(fx(-1.0)), bits(MAX));
    assert_eq!(fx(1.0).over(bits(1)), bits(MAX));
    assert_eq!(fx(-1.0).over(bits(1)), bits(MIN));
}

#[test]
fn over_zero_goes_to_the_end_on_the_side_of_the_dividend() {
    assert_eq!(fx(1.0).over(fx(0.0)), bits(MAX));
    assert_eq!(bits(1).over(fx(0.0)), bits(MAX));
    assert_eq!(fx(-1.0).over(fx(0.0)), bits(MIN));
    assert_eq!(fx(0.0).over(fx(0.0)), bits(0));
}

#[test]
fn from_index_and_back() {
    assert_eq!(Fixed::from_index(0), bits(0));
    assert_eq!(Fixed::from_index(7), fx(7.0));
    assert_eq!(Fixed::from_index(MAX_INDEX), bits(MAX - (ONE - 1)));
    assert_eq!(Fixed::from_index(MAX_INDEX + 1), bits(MAX));
    assert_eq!(Fixed::from_index(usize::MAX), bits(MAX));
    for n in [0, 1, 2, 99, 65536, MAX_INDEX] {
        assert_eq!(Fixed::from_index(n).to_index(), n);
    }
    assert_eq!(MAX_INDEX, 2147483647);
}

#[test]
fn to_index_drops_the_fraction_and_what_is_below_zero() {
    assert_eq!(fx(2.75).to_index(), 2);
    assert_eq!(fx(0.999).to_index(), 0);
    assert_eq!(fx(-0.5).to_index(), 0);
    assert_eq!(fx(-7.0).to_index(), 0);
    assert_eq!(bits(MIN).to_index(), 0);
    assert_eq!(bits(MAX).to_index(), MAX_INDEX);
}

#[test]
fn floor_rounds_down() {
    assert_eq!(fx(2.75).floor(), fx(2.0));
    assert_eq!(fx(2.0).floor(), fx(2.0));
    assert_eq!(fx(0.25).floor(), fx(0.0));
    assert_eq!(fx(-0.25).floor(), fx(-1.0));
    assert_eq!(fx(-2.75).floor(), fx(-3.0));
    assert_eq!(fx(-3.0).floor(), fx(-3.0));
    assert_eq!(bits(-1).floor(), fx(-1.0));
    assert_eq!(bits(MIN).floor(), bits(MIN));
    assert_eq!(bits(MAX).floor(), bits(9223372032559808512));
}

#[test]
fn sqrt_is_the_root_rounded_down() {
    assert_eq!(fx(0.0).sqrt(), fx(0.0));
    assert_eq!(fx(1.0).sqrt(), fx(1.0));
    assert_eq!(fx(4.0).sqrt(), fx(2.0));
    assert_eq!(fx(0.25).sqrt(), fx(0.5));
    assert_eq!(fx(2.0).sqrt(), bits(6074000999));
    assert_eq!(fx(3.0).sqrt(), bits(7439101573));
    assert_eq!(bits(1).sqrt(), bits(65536));
    assert_eq!(bits(MAX).sqrt(), bits(199032864766430));
}

#[test]
fn sqrt_below_zero_is_zero() {
    assert_eq!(fx(-1.0).sqrt(), bits(0));
    assert_eq!(bits(-1).sqrt(), bits(0));
    assert_eq!(bits(MIN).sqrt(), bits(0));
}

#[test]
fn less_than_and_equals_compare_the_bits() {
    assert!(fx(1.0).less_than(fx(1.5)));
    assert!(!fx(1.5).less_than(fx(1.5)));
    assert!(!fx(1.5).less_than(fx(1.0)));
    assert!(fx(-2.0).less_than(fx(-1.0)));
    assert!(bits(MIN).less_than(bits(MAX)));
    assert!(fx(1.5).equals(fx(1.5)));
    assert!(!fx(1.5).equals(fx(-1.5)));
    assert!(bits(0).equals(fx(0.0)));
}

#[test]
fn vectors_of_fixed_point_numbers() {
    let v: Vector2<Fixed> = Vector::new([fx(3.0), fx(4.0)]);
    assert_eq!(v.magnitude2(), fx(25.0));
    assert_eq!(v.magnitude(), fx(5.0));
    assert_eq!(v.normal().v, [bits(2576980377), bits(3435973836)]);
    let z: Vector2<Fixed> = Vector::new([fx(0.0), fx(0.0)]);
    assert_eq!(z.normal().v, [bits(0), bits(0)]);
}

#[test]
fn bilerp_on_a_cell_is_exact_in_fixed_point() {
    let mut field = DiscreteField::new(4, 5, bits(0));
    for x in 0..4 {
        for y in 0..5 {
            field.put(x, y, bits(MAX / 7 * (x as i64 - 2) + 12345 * y as i64));
        }
    }
    field.put(1, 1, bits(MAX));
    field.put(2, 2, bits(MIN));
    for x in 0..3 {
        for y in 0..4 {
            let at = Vector::new([Fixed::from_index(x), Fixed::from_index(y)]);
            assert_eq!(bilerp(&field, at), field.get(x, y));
        }
    }
    let halfway = Vector::new([fx(0.5), fx(0.0)]);
    let mut field = DiscreteField::new(2, 2, fx(1.0));
    field.put(1, 0, fx(2.0));
    assert_eq!(bilerp(&field, halfway), fx(1.5));
}

#[test]
fn relax_with_alpha_zero_is_exact_in_fixed_point() {
    let mut b = DiscreteField::new(4, 4, bits(0));
    let mut x = DiscreteField::new(4, 4, bits(0));
    for i in 0..4 {
        for j in 0..4 {
            b.put(i, j, fx(i as f64 + 0.25 * j as f64));
            x.put(i, j, bits(MAX - (i * 4 + j) as i64));
        }
    }
    relax(&mut x, &b, fx(0.0), fx(3.0), fx(2.0), 5);
    for i in 0..4 {
        for j in 0..4 {
            if i == 0 || i == 3 || j == 0 || j == 3 {
                assert_eq!(x.get(i, j), bits(MAX - (i * 4 + j) as i64));
            } else {
                assert_eq!(x.get(i, j), b.get(i, j).times(fx(3.0)).over(fx(2.0)));
            }
        }
    }
    assert_eq!(x.get(1, 2), fx(2.25));
}

#[test]
fn unit_force_in_fixed_point() {
    let mut s = FluidSolver::new(10, 10, fx(1.0), fx(0.0));
    s.insert_force(5, 5, fx(1.0), fx(0.0));
    s.update();
    assert_eq!(s.velocity().get(5, 5).v, [bits(649345544), bits(-372723)]);
    assert_eq!(s.velocity().get(4, 5).v, [bits(59657448), bits(-86837)]);
    assert_eq!(s.pressure().get(5, 5), bits(27722107));
    assert_eq!(s.time(), fx(1.0));
    for x in 0..10 {
        for y in 0..10 {
            if x == 0 || x == 9 || y == 0 || y == 9 {
                assert_eq!(s.velocity().get(x, y).v, [bits(0), bits(0)]);
            }
        }
    }
}

#[test]
fn dye_spreads_in_fixed_point() {
    let mut s = FluidSolver::new(6, 6, fx(0.5), fx(0.25));
    s.insert_density(3, 3, fx(1.0), fx(0.0), fx(0.0));
    s.update();
    assert_eq!(s.density().get(3, 3).v, [bits(2947878904), bits(0), bits(0)]);
    assert_eq!(s.density().get(2, 3).v, [bits(254676376), bits(0), bits(0)]);
    assert_eq!(s.density().get(3, 2).v, [bits(254676376), bits(0), bits(0)]);
    assert_eq!(s.density().get(4, 3).v, [bits(252727864), bits(0), bits(0)]);
    assert_eq!(s.density().get(3, 4).v, [bits(252727864), bits(0), bits(0)]);
    assert_eq!(s.density().get(1, 1).v, [bits(922583), bits(0), bits(0)]);
    for x in 0..6 {
        for y in 0..6 {
            assert!(!s.density().get(x, y).v[0].less_than(bits(0)));
        }
    }
}

#[test]
fn one_step_in_fixed_point() {
    let mut s = FluidSolver::new(4, 5, fx(0.5), fx(0.125));
    s.set_need_vort(true);
    s.insert_force(1, 2, fx(1.0), fx(-0.5));
    s.insert_density(2, 2, fx(0.25), fx(0.5), fx(1.0));
    s.update();
    assert_eq!(s.velocity().get(1, 2).v, [bits(2486371125), bits(-1085574070)]);
    assert_eq!(s.velocity().get(2, 2).v, [bits(354256355), bits(-16276476)]);
    assert_eq!(s.density().get(2, 2).v, [bits(839391723), bits(1678783449), bits(3357566901)]);
    assert_eq!(s.pressure().get(2, 2), bits(318468081));
    assert_eq!(s.vorticity().get(2, 2), bits(3350052284));
}

#[test]
fn untouched_solver_stays_at_rest_in_fixed_point() {
    for (w, h) in [(0, 0), (1, 1), (3, 3), (5, 8)] {
        let mut s = FluidSolver::new(w, h, fx(1.5), fx(0.15));
        for _ in 0..10 {
            s.update();
        }
        for x in 0..w {
            for y in 0..h {
                assert_eq!(s.velocity().get(x, y).v, [bits(0), bits(0)]);
                assert_eq!(s.density().get(x, y).v, [bits(0), bits(0), bits(0)]);
            }
        }
        assert_eq!(s.time(), Fixed::from_index(10).times(fx(1.5)));
        assert_eq!(s.time(), fx(15.0));
    }
}
