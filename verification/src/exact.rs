use crate::field::{
    bilerp_in_range, bilerp_value, blend_keeps_first, interior, is_grid, is_index,
    lemma_bilerp_on_cell,
};
use crate::fixed::{
    lemma_floor_root_is_unique, magnitude, quotient, saturated, Fixed, MAX_INDEX, ONE,
};
use crate::quantity::{clamped, one, zero, Quantity, Scalar};
use crate::relax::{lemma_relaxed_without_neighbours, relaxed, settled};
use crate::state::{advected_at, backtraced, clock, is_still, vec2, vec3, FluidState};
use crate::vector::{Vector, Vector2};
use vstd::prelude::*;

verus! {

/// Zero is the number with no bits and one the number with the bits `ONE`;
/// one times a number is that number, zero times it zero, and a number plus
/// zero that number.
pub proof fn lemma_zero_and_one(q: Fixed)
    ensures
        zero::<Fixed>().bits == 0,
        one::<Fixed>().bits == ONE,
        q.times(one::<Fixed>()) == q,
        q.times(zero::<Fixed>()) == zero::<Fixed>(),
        q.plus(zero::<Fixed>()) == q,
        zero::<Fixed>().plus(q) == q,
        one::<Fixed>().minus(one::<Fixed>()) == zero::<Fixed>(),
        zero::<Fixed>().sqrt() == zero::<Fixed>(),
{
    assert(quotient(q.bits * ONE, ONE as int) == q.bits) by (nonlinear_arith)
        requires
            ONE == 0x1_0000_0000,
    {
        assert((magnitude(q.bits as int) * 0x1_0000_0000) / 0x1_0000_0000 == magnitude(
            q.bits as int,
        ));
    }
    lemma_floor_root_is_unique(0, 0);
}

/// The number made from an index below `MAX_INDEX` is exactly that index.
pub proof fn lemma_index_is_exact(n: usize)
    requires
        n < MAX_INDEX,
    ensures
        is_index(Fixed::from_index(n), n),
{
    assert(n * ONE < 0x7fff_ffff * 0x1_0000_0000) by (nonlinear_arith)
        requires
            n < 0x7fff_ffff,
            ONE == 0x1_0000_0000,
    ;
    assert((n * ONE) % (ONE as int) == 0 && (n * ONE) / (ONE as int) == n) by (nonlinear_arith)
        requires
            ONE == 0x1_0000_0000,
            n >= 0,
    ;
}

/// A blend of fixed-point numbers with the weights one and zero keeps the
/// first.
pub proof fn lemma_blend_is_exact(q: Fixed, r: Fixed)
    ensures
        blend_keeps_first::<Fixed, Fixed>(q, r),
{
    lemma_zero_and_one(q);
    lemma_zero_and_one(r);
}

/// A blend of vectors of fixed-point numbers with the weights one and zero
/// keeps the first.
pub proof fn lemma_vector_blend_is_exact<const D: usize>(q: Vector<Fixed, D>, r: Vector<Fixed, D>)
    ensures
        blend_keeps_first::<Fixed, Vector<Fixed, D>>(q, r),
{
    let unit = one::<Fixed>();
    let none = unit.minus(unit);
    let kept = Seq::new(D as nat, |i: int| q@[i].times(unit));
    let gone = Seq::new(D as nat, |i: int| r@[i].times(none));
    Vector::<Fixed, D>::lemma_from_seq(kept);
    Vector::<Fixed, D>::lemma_from_seq(gone);
    let sum = Seq::new(D as nat, |i: int| q.times(unit)@[i].plus(r.times(none)@[i]));
    Vector::<Fixed, D>::lemma_from_seq(sum);
    assert forall|i: int| 0 <= i < D implies sum[i] == q@[i] by {
        lemma_blend_is_exact(q@[i], r@[i]);
    }
    assert(sum =~= q@);
    Vector::lemma_same_components(q.times(unit).plus(r.times(none)), q);
}

/// In fixed-point numbers, sampling a grid of numbers at the cell `(i, j)`
/// gives the value of that cell.
pub proof fn lemma_bilerp_on_cell_is_exact(g: Seq<Seq<Fixed>>, p: Vector2<Fixed>, i: usize, j: usize)
    requires
        i < MAX_INDEX,
        j < MAX_INDEX,
        p@[0] == Fixed::from_index(i),
        p@[1] == Fixed::from_index(j),
    ensures
        bilerp_value(g, p) == g[i as int][j as int],
{
    lemma_index_is_exact(i);
    lemma_index_is_exact(j);
    assert forall|q: Fixed, r: Fixed| #[trigger] blend_keeps_first::<Fixed, Fixed>(q, r) by {
        lemma_blend_is_exact(q, r);
    }
    lemma_bilerp_on_cell(g, p, i, j);
}

/// In fixed-point numbers, sampling a grid of vectors at the cell `(i, j)`
/// gives the vector of that cell.
pub proof fn lemma_vector_bilerp_on_cell_is_exact<const D: usize>(
    g: Seq<Seq<Vector<Fixed, D>>>,
    p: Vector2<Fixed>,
    i: usize,
    j: usize,
)
    requires
        i < MAX_INDEX,
        j < MAX_INDEX,
        p@[0] == Fixed::from_index(i),
        p@[1] == Fixed::from_index(j),
    ensures
        bilerp_value(g, p) == g[i as int][j as int],
{
    lemma_index_is_exact(i);
    lemma_index_is_exact(j);
    assert forall|q: Vector<Fixed, D>, r: Vector<Fixed, D>| #[trigger]
        blend_keeps_first::<Fixed, Vector<Fixed, D>>(q, r) by {
        lemma_vector_blend_is_exact(q, r);
    }
    lemma_bilerp_on_cell(g, p, i, j);
}

/// In fixed-point numbers, the unit vector of the zero vector is the zero
/// vector.
pub proof fn lemma_normal_of_zero_is_zero<const D: usize>()
    ensures
        Vector::<Fixed, D>::uniform(zero::<Fixed>()).normal() == Vector::<Fixed, D>::uniform(
            zero::<Fixed>(),
        ),
{
    lemma_zero_and_one(zero::<Fixed>());
    Vector::<Fixed, D>::lemma_normal_of_zero();
}

/// In fixed-point numbers, relaxation of a grid of numbers with `alpha` zero
/// settles in one pass: after any number of passes but none, each cell inside
/// the outer ring holds `b[i][j] * beta / gamma`, and the outer ring holds what
/// it held in `x`.
pub proof fn lemma_relaxed_with_alpha_zero(
    x: Seq<Seq<Fixed>>,
    b: Seq<Seq<Fixed>>,
    w: int,
    h: int,
    beta: Fixed,
    gamma: Fixed,
    n: nat,
)
    requires
        0 <= w,
        0 <= h,
        is_grid(x, w, h),
        n >= 1,
    ensures
        relaxed(x, b, w, h, zero::<Fixed>(), beta, gamma, n) == settled(x, b, w, h, beta, gamma),
{
    assert forall|s: Fixed, c: Fixed| #[trigger] s.times(zero::<Fixed>()).plus(c) == c by {
        lemma_zero_and_one(s);
        lemma_zero_and_one(c);
    }
    lemma_relaxed_without_neighbours(x, b, w, h, zero::<Fixed>(), beta, gamma, n);
}

/// In fixed-point numbers, relaxation of a grid of vectors with `alpha` zero
/// settles in one pass, as that of a grid of numbers does.
pub proof fn lemma_vector_relaxed_with_alpha_zero<const D: usize>(
    x: Seq<Seq<Vector<Fixed, D>>>,
    b: Seq<Seq<Vector<Fixed, D>>>,
    w: int,
    h: int,
    beta: Fixed,
    gamma: Fixed,
    n: nat,
)
    requires
        0 <= w,
        0 <= h,
        is_grid(x, w, h),
        n >= 1,
    ensures
        relaxed(x, b, w, h, zero::<Fixed>(), beta, gamma, n) == settled(x, b, w, h, beta, gamma),
{
    assert forall|s: Vector<Fixed, D>, c: Vector<Fixed, D>| #[trigger]
        s.times(zero::<Fixed>()).plus(c) == c by {
        let gone = Seq::new(D as nat, |i: int| s@[i].times(zero::<Fixed>()));
        Vector::<Fixed, D>::lemma_from_seq(gone);
        let sum = Seq::new(D as nat, |i: int| s.times(zero::<Fixed>())@[i].plus(c@[i]));
        Vector::<Fixed, D>::lemma_from_seq(sum);
        assert forall|i: int| 0 <= i < D implies sum[i] == c@[i] by {
            lemma_zero_and_one(s@[i]);
            lemma_zero_and_one(c@[i]);
        }
        assert(sum =~= c@);
        Vector::lemma_same_components(s.times(zero::<Fixed>()).plus(c), c);
    }
    lemma_relaxed_without_neighbours(x, b, w, h, zero::<Fixed>(), beta, gamma, n);
}

/// The fixed-point zero is still.
pub proof fn lemma_zero_is_still()
    ensures
        is_still::<Fixed, Fixed>(zero::<Fixed>()),
{
    lemma_zero_and_one(zero::<Fixed>());
}

/// A vector of fixed-point zeros is still.
pub proof fn lemma_zero_vector_is_still<const D: usize>(z: Vector<Fixed, D>)
    requires
        forall|i: int| 0 <= i < D ==> z@[i] == zero::<Fixed>(),
    ensures
        is_still::<Fixed, Vector<Fixed, D>>(z),
{
    lemma_zero_is_still();
    Vector::<Fixed, D>::lemma_from_seq(Seq::new(D as nat, |i: int| z@[i].plus(z@[i])));
    assert(z.plus(z)@ =~= z@);
    Vector::lemma_same_components(z.plus(z), z);
    Vector::<Fixed, D>::lemma_from_seq(Seq::new(D as nat, |i: int| z@[i].minus(z@[i])));
    assert(z.minus(z)@ =~= z@);
    Vector::lemma_same_components(z.minus(z), z);
    assert forall|k: Fixed| #[trigger] z.times(k) == z by {
        Vector::<Fixed, D>::lemma_from_seq(Seq::new(D as nat, |i: int| z@[i].times(k)));
        assert(z.times(k)@ =~= z@);
        Vector::lemma_same_components(z.times(k), z);
    }
    assert forall|k: Fixed| #[trigger] z.over(k) == z by {
        Vector::<Fixed, D>::lemma_from_seq(Seq::new(D as nat, |i: int| z@[i].over(k)));
        assert(z.over(k)@ =~= z@);
        Vector::lemma_same_components(z.over(k), z);
    }
}

/// A clock that starts at zero and adds the time step `dt` one by one shows,
/// after `n` steps, `n` times `dt`: where the sum passes the largest or the
/// smallest number, both stop there.
pub proof fn lemma_clock_is_exact(dt: Fixed, n: nat)
    requires
        n <= MAX_INDEX,
    ensures
        clock(zero::<Fixed>(), dt, n) == Fixed::from_index(n as usize).times(dt),
        clock(zero::<Fixed>(), dt, n).bits == saturated(n * dt.bits),
    decreases n,
{
    let d = dt.bits as int;
    assert(quotient(n * ONE * d, ONE as int) == n * d) by (nonlinear_arith)
        requires
            ONE == 0x1_0000_0000,
            n >= 0,
    ;
    assert(n * ONE <= 0x7fff_ffff * 0x1_0000_0000) by (nonlinear_arith)
        requires
            n <= 0x7fff_ffff,
            ONE == 0x1_0000_0000,
    ;
    if n > 0 {
        lemma_clock_is_exact(dt, (n - 1) as nat);
        assert((n - 1) * d + d == n * d) by (nonlinear_arith);
        assert(saturated(saturated((n - 1) * d) + d) == saturated(n * d)) by (nonlinear_arith)
            requires
                (n - 1) * d + d == n * d,
                n >= 1,
                i64::MIN <= d <= i64::MAX,
        ;
    }
}

/// In fixed-point numbers, a new solver that nothing stirs stays at rest: after
/// any number of steps, whatever its size, its time step and its viscosity,
/// every grid holds zero everywhere, and the clock shows the number of steps
/// times the time step.
pub proof fn lemma_new_solver_stays_at_rest(w: int, h: int, dt: Fixed, viscosity: Fixed, n: nat)
    requires
        0 <= w,
        0 <= h,
        n <= MAX_INDEX,
    ensures
        FluidState::initial(w, h, dt, viscosity).stepped_times(n).at_rest(),
        FluidState::initial(w, h, dt, viscosity).stepped_times(n).time == Fixed::from_index(
            n as usize,
        ).times(dt),
{
    let nought = zero::<Fixed>();
    lemma_zero_is_still();
    Vector::<Fixed, 2>::lemma_from_seq(seq![nought, nought]);
    Vector::<Fixed, 3>::lemma_from_seq(seq![nought, nought, nought]);
    lemma_zero_vector_is_still(vec2(nought, nought));
    lemma_zero_vector_is_still(vec3(nought, nought, nought));
    FluidState::initial(w, h, dt, viscosity).lemma_rest_stays_at_rest(n);
    lemma_clock_is_exact(dt, n);
}

/// A fixed-point number held between two whole ones lies between two cells
/// that the bounds enclose: its own cell is not below the lower bound, and the
/// next one is at most one above the upper.
proof fn lemma_clamped_is_in_range(x: Fixed, lo: usize, hi: usize)
    requires
        lo <= hi < MAX_INDEX,
    ensures
        ({
            let held = clamped(x, Fixed::from_index(lo), Fixed::from_index(hi)).floor();
            &&& lo <= held.to_index() <= hi
            &&& held.plus(one::<Fixed>()).to_index() <= hi + 1
        }),
{
    let held = clamped(x, Fixed::from_index(lo), Fixed::from_index(hi));
    assert(lo * ONE <= hi * ONE < 0x7fff_ffff * 0x1_0000_0000) by (nonlinear_arith)
        requires
            lo <= hi < 0x7fff_ffff,
            ONE == 0x1_0000_0000,
    ;
    assert(lo * ONE <= held.bits <= hi * ONE);
    let down = held.floor().bits as int;
    assert(lo * ONE <= down <= hi * ONE && down / (ONE as int) <= hi && lo <= down / (ONE as int)
        && (down + ONE) / (ONE as int) <= hi + 1) by (nonlinear_arith)
        requires
            lo * ONE <= held.bits <= hi * ONE,
            down == held.bits - (held.bits as int) % (ONE as int),
            ONE == 0x1_0000_0000,
            0 <= lo,
    ;
}

/// In fixed-point numbers, advection never looks outside the grid: the place
/// that a cell inside the outer ring is traced back to lies between four cells
/// of the grid, so that the cell always gets the value sampled there.
pub proof fn lemma_backtraced_is_in_range<T: Quantity<Fixed>>(
    vel: Seq<Seq<Vector2<Fixed>>>,
    source: Seq<Seq<T>>,
    target: Seq<Seq<T>>,
    dt: Fixed,
    w: int,
    h: int,
    i: int,
    j: int,
)
    requires
        w <= MAX_INDEX,
        h <= MAX_INDEX,
        interior(w, h, i, j),
    ensures
        bilerp_in_range(backtraced(vel, dt, w, h, i, j), w, h),
        advected_at(vel, source, target, dt, w, h, i, j) == bilerp_value(
            source,
            backtraced(vel, dt, w, h, i, j),
        ),
{
    let unit = one::<Fixed>();
    let position = vec2(Fixed::from_index(i as usize), Fixed::from_index(j as usize));
    let previous = position.minus(vel[i][j].times(dt));
    let min = vec2(unit, unit);
    let max = vec2(Fixed::from_index((w - 2) as usize), Fixed::from_index((h - 2) as usize));
    Vector::<Fixed, 2>::lemma_from_seq(seq![unit, unit]);
    Vector::<Fixed, 2>::lemma_from_seq(
        seq![Fixed::from_index((w - 2) as usize), Fixed::from_index((h - 2) as usize)],
    );
    Vector::<Fixed, 2>::lemma_from_seq(
        Seq::new(2, |k: int| clamped(previous@[k], min@[k], max@[k])),
    );
    lemma_clamped_is_in_range(previous@[0], 1, (w - 2) as usize);
    lemma_clamped_is_in_range(previous@[1], 1, (h - 2) as usize);
}

} // verus!
