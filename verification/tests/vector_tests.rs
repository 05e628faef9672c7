use fluid::quantity::clamp;
use fluid::{Quantity, Scalar, Vector, Vector2, Vector3};

/// Double-precision numbers as the number type of the library. The items that
/// end in `_spec` say what each operation means; the others compute it.
#[derive(Clone, Copy, Debug, PartialEq)]
struct Real(f64);

impl Quantity<Real> for Real {
    fn plus_spec(self, other: Self) -> Self {
        Real(self.0 + other.0)
    }

    fn minus_spec(self, other: Self) -> Self {
        Real(self.0 - other.0)
    }

    fn times_spec(self, k: Real) -> Self {
        Real(self.0 * k.0)
    }

    fn over_spec(self, k: Real) -> Self {
        Real(self.0 / k.0)
    }

    fn plus(self, other: Self) -> Self {
        self.plus_spec(other)
    }

    fn minus(self, other: Self) -> Self {
        self.minus_spec(other)
    }

    fn times(self, k: Real) -> Self {
        self.times_spec(k)
    }

    fn over(self, k: Real) -> Self {
        self.over_spec(k)
    }
}

impl Scalar for Real {
    fn from_index_spec(n: usize) -> Self {
        Real(n as f64)
    }

    fn to_index_spec(self) -> usize {
        self.0 as usize
    }

    fn floor_spec(self) -> Self {
        Real(self.0.floor())
    }

    fn sqrt_spec(self) -> Self {
        Real(self.0.sqrt())
    }

    fn less_than_spec(self, other: Self) -> bool {
        self.0 < other.0
    }

    fn equals_spec(self, other: Self) -> bool {
        self.0 == other.0
    }

    fn from_index(n: usize) -> Self {
        Self::from_index_spec(n)
    }

    fn to_index(self) -> usize {
        self.to_index_spec()
    }

    fn floor(self) -> Self {
        self.floor_spec()
    }

    fn sqrt(self) -> Self {
        self.sqrt_spec()
    }

    fn less_than(self, other: Self) -> bool {
        self.less_than_spec(other)
    }

    fn equals(self, other: Self) -> bool {
        self.equals_spec(other)
    }
}

fn v2(x: f64, y: f64) -> Vector2<Real> {
    Vector::new([Real(x), Real(y)])
}

fn v3(x: f64, y: f64, z: f64) -> Vector3<Real> {
    Vector::new([Real(x), Real(y), Real(z)])
}

fn parts2(v: Vector2<Real>) -> [f64; 2] {
    [v.v[0].0, v.v[1].0]
}

fn parts3(v: Vector3<Real>) -> [f64; 3] {
    [v.v[0].0, v.v[1].0, v.v[2].0]
}

#[test]
fn new_keeps_the_components_in_order() {
    let v = v3(1.5, -2.0, 7.0);
    assert_eq!(parts3(v), [1.5, -2.0, 7.0]);
    assert_eq!(v.get(0), Real(1.5));
    assert_eq!(v.get(1), Real(-2.0));
    assert_eq!(v.get(2), Real(7.0));
}

#[test]
fn put_replaces_one_component() {
    let mut v = v3(1.0, 2.0, 3.0);
    v.put(1, Real(-8.5));
    assert_eq!(parts3(v), [1.0, -8.5, 3.0]);
    v.put(2, Real(0.25));
    v.put(0, Real(4.0));
    assert_eq!(parts3(v), [4.0, -8.5, 0.25]);
}

#[test]
fn a_copy_keeps_its_components_when_its_source_changes() {
    let mut v = v2(1.0, 2.0);
    let kept = v;
    let cloned = v.clone();
    v.put(0, Real(9.0));
    assert_eq!(parts2(kept), [1.0, 2.0]);
    assert_eq!(parts2(cloned), [1.0, 2.0]);
    assert_eq!(parts2(v), [9.0, 2.0]);
}

#[test]
fn plus_adds_component_by_component() {
    assert_eq!(parts2(v2(1.5, -2.0).plus(v2(0.25, 4.0))), [1.75, 2.0]);
    assert_eq!(parts3(v3(1.0, 2.0, 3.0).plus(v3(10.0, 20.0, 30.0))), [11.0, 22.0, 33.0]);
}

#[test]
fn minus_subtracts_component_by_component() {
    assert_eq!(parts2(v2(1.5, -2.0).minus(v2(0.25, 4.0))), [1.25, -6.0]);
    assert_eq!(parts3(v3(1.0, 2.0, 3.0).minus(v3(10.0, 20.0, 30.0))), [-9.0, -18.0, -27.0]);
}

#[test]
fn times_scales_every_component() {
    assert_eq!(parts2(v2(1.5, -2.0).times(Real(4.0))), [6.0, -8.0]);
    assert_eq!(parts3(v3(1.0, 2.0, 3.0).times(Real(-0.5))), [-0.5, -1.0, -1.5]);
}

#[test]
fn over_divides_every_component() {
    assert_eq!(parts2(v2(1.5, -2.0).over(Real(4.0))), [0.375, -0.5]);
    assert_eq!(parts3(v3(1.0, 2.0, 3.0).over(Real(8.0))), [0.125, 0.25, 0.375]);
}

#[test]
fn over_zero_follows_the_number_type() {
    let r = parts2(v2(1.0, -1.0).over(Real(0.0)));
    assert_eq!(r, [f64::INFINITY, f64::NEG_INFINITY]);
    let n = parts2(v2(0.0, 1.0).over(Real(0.0)));
    assert!(n[0].is_nan());
    assert_eq!(n[1], f64::INFINITY);
}

#[test]
fn times_each_multiplies_component_by_component() {
    assert_eq!(parts2(v2(1.5, -2.0).times_each(v2(2.0, 0.25))), [3.0, -0.5]);
    assert_eq!(parts3(v3(1.0, 2.0, 3.0).times_each(v3(4.0, 5.0, 6.0))), [4.0, 10.0, 18.0]);
}

#[test]
fn over_each_divides_component_by_component() {
    assert_eq!(parts2(v2(1.5, -2.0).over_each(v2(2.0, 0.25))), [0.75, -8.0]);
    assert_eq!(parts3(v3(1.0, 2.0, 3.0).over_each(v3(4.0, 8.0, 2.0))), [0.25, 0.25, 1.5]);
}

#[test]
fn plus_each_adds_the_number_to_every_component() {
    assert_eq!(parts2(v2(1.5, -2.0).plus_each(Real(0.5))), [2.0, -1.5]);
    assert_eq!(parts3(v3(1.0, 2.0, 3.0).plus_each(Real(-1.0))), [0.0, 1.0, 2.0]);
}

#[test]
fn minus_each_takes_the_number_from_every_component() {
    assert_eq!(parts2(v2(1.5, -2.0).minus_each(Real(0.5))), [1.0, -2.5]);
    assert_eq!(parts3(v3(1.0, 2.0, 3.0).minus_each(Real(-1.0))), [2.0, 3.0, 4.0]);
}

#[test]
fn sum_adds_the_components() {
    assert_eq!(v2(1.5, -2.0).sum(), Real(-0.5));
    assert_eq!(v3(1.0, 2.0, 3.5).sum(), Real(6.5));
    assert_eq!(Vector::<Real, 1>::new([Real(-0.0)]).sum().0.to_bits(), (-0.0f64).to_bits());
}

#[test]
fn sum_adds_from_left_to_right() {
    // 1e16 + 1 rounds to 1e16, so the order of the additions shows.
    assert_eq!(v3(1e16, 1.0, -1e16).sum(), Real(0.0));
    assert_eq!(v3(1e16, -1e16, 1.0).sum(), Real(1.0));
}

#[test]
fn sum_of_no_components_is_zero() {
    let v = Vector::<Real, 0>::new([]);
    assert_eq!(v.sum(), Real(0.0));
    assert_eq!(v.magnitude(), Real(0.0));
}

#[test]
fn dot_is_the_sum_of_the_products() {
    assert_eq!(v2(1.5, -2.0).dot(v2(2.0, 0.25)), Real(2.5));
    assert_eq!(v3(1.0, 2.0, 3.0).dot(v3(4.0, 5.0, 6.0)), Real(32.0));
    assert_eq!(v3(1.0, 0.0, 0.0).dot(v3(0.0, 1.0, 0.0)), Real(0.0));
}

#[test]
fn magnitude2_is_the_dot_product_with_itself() {
    assert_eq!(v2(3.0, 4.0).magnitude2(), Real(25.0));
    assert_eq!(v3(1.0, 2.0, 2.0).magnitude2(), Real(9.0));
    assert_eq!(v2(-0.5, 0.0).magnitude2(), Real(0.25));
}

#[test]
fn magnitude_is_the_root_of_magnitude2() {
    assert_eq!(v2(3.0, 4.0).magnitude(), Real(5.0));
    assert_eq!(v3(1.0, 2.0, 2.0).magnitude(), Real(3.0));
    assert_eq!(v2(1.0, 1.0).magnitude(), Real(2.0f64.sqrt()));
    assert_eq!(v2(1.0, 1.0).magnitude(), Real(1.4142135623730951));
}

#[test]
fn normal_divides_by_the_magnitude() {
    assert_eq!(parts2(v2(3.0, 4.0).normal()), [0.6, 0.8]);
    assert_eq!(parts2(v2(0.0, -2.5).normal()), [0.0, -1.0]);
    assert_eq!(parts3(v3(2.0, 4.0, 4.0).normal()), [2.0 / 6.0, 4.0 / 6.0, 4.0 / 6.0]);
    assert_eq!(v3(2.0, 4.0, 4.0).normal().v[0], Real(0.3333333333333333));
}

#[test]
fn normal_of_the_zero_vector_is_the_zero_vector() {
    assert_eq!(parts2(v2(0.0, 0.0).normal()), [0.0, 0.0]);
    assert_eq!(parts3(v3(0.0, 0.0, 0.0).normal()), [0.0, 0.0, 0.0]);
    let n = parts2(v2(-0.0, 0.0).normal());
    assert_eq!(n[0].to_bits(), (-0.0f64).to_bits());
    assert_eq!(n[1].to_bits(), 0.0f64.to_bits());
}

#[test]
fn normal_of_a_vector_too_short_to_square_is_itself() {
    // The squares underflow to zero, so the magnitude is zero.
    assert_eq!(parts2(v2(1e-200, 0.0).normal()), [1e-200, 0.0]);
}

#[test]
fn normal_with_a_magnitude_that_is_no_number_divides() {
    let n = parts2(v2(f64::NAN, 1.0).normal());
    assert!(n[0].is_nan());
    assert!(n[1].is_nan());
}

#[test]
fn clamp_holds_a_number_between_its_bounds() {
    assert_eq!(clamp(Real(0.5), Real(1.0), Real(3.0)), Real(1.0));
    assert_eq!(clamp(Real(1.0), Real(1.0), Real(3.0)), Real(1.0));
    assert_eq!(clamp(Real(2.25), Real(1.0), Real(3.0)), Real(2.25));
    assert_eq!(clamp(Real(3.0), Real(1.0), Real(3.0)), Real(3.0));
    assert_eq!(clamp(Real(3.5), Real(1.0), Real(3.0)), Real(3.0));
    assert_eq!(clamp(Real(f64::INFINITY), Real(1.0), Real(3.0)), Real(3.0));
    assert_eq!(clamp(Real(f64::NEG_INFINITY), Real(1.0), Real(3.0)), Real(1.0));
}

#[test]
fn clamp_leaves_what_is_no_number() {
    assert!(clamp(Real(f64::NAN), Real(1.0), Real(3.0)).0.is_nan());
}

#[test]
fn clamp_with_crossed_bounds_gives_the_upper_one() {
    assert_eq!(clamp(Real(0.0), Real(3.0), Real(1.0)), Real(1.0));
    assert_eq!(clamp(Real(2.0), Real(3.0), Real(1.0)), Real(1.0));
    assert_eq!(clamp(Real(5.0), Real(3.0), Real(1.0)), Real(1.0));
}

#[test]
fn vector_clamp_holds_each_component_between_its_own_bounds() {
    let r = v2(-4.0, 9.5).clamp(v2(1.0, 2.0), v2(8.0, 6.0));
    assert_eq!(parts2(r), [1.0, 6.0]);
    let r = v3(0.5, 2.5, 7.0).clamp(v3(0.0, 3.0, -1.0), v3(1.0, 4.0, 6.5));
    assert_eq!(parts3(r), [0.5, 3.0, 6.5]);
    let r = v2(3.25, 4.75).clamp(v2(1.0, 1.0), v2(8.0, 8.0));
    assert_eq!(parts2(r), [3.25, 4.75]);
}

#[test]
fn wedge_is_the_signed_area() {
    assert_eq!(v2(1.0, 0.0).wedge(v2(0.0, 1.0)), Real(1.0));
    assert_eq!(v2(0.0, 1.0).wedge(v2(1.0, 0.0)), Real(-1.0));
    assert_eq!(v2(2.0, 3.0).wedge(v2(4.0, 5.0)), Real(-2.0));
    assert_eq!(v2(2.0, 3.0).wedge(v2(2.0, 3.0)), Real(0.0));
}

#[test]
fn cross_of_unit_x_and_unit_y_is_unit_z() {
    assert_eq!(parts3(v3(1.0, 0.0, 0.0).cross(v3(0.0, 1.0, 0.0))), [0.0, 0.0, 1.0]);
    assert_eq!(parts3(v3(0.0, 1.0, 0.0).cross(v3(1.0, 0.0, 0.0))), [0.0, 0.0, -1.0]);
}

#[test]
fn cross_of_two_vectors_in_general_position() {
    assert_eq!(parts3(v3(1.0, 2.0, 3.0).cross(v3(4.0, 5.0, 6.0))), [-3.0, 6.0, -3.0]);
    assert_eq!(parts3(v3(2.0, -1.0, 0.5).cross(v3(0.0, 4.0, 8.0))), [-10.0, -16.0, 8.0]);
}
