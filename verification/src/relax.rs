use crate::field::{inside_replaced, interior, is_grid, passed, same_ring, DiscreteField};
use crate::quantity::Quantity;
use vstd::prelude::*;

verus! {

/// The value that one pass of relaxation leaves in the cell `(i, j)` of the grid
/// `x`, with the source grid `b`.
///
/// A cell on the outer ring keeps its value. A cell inside gets
/// `(neighbours * alpha + b[i][j] * beta) / gamma`, where `neighbours` is the sum
/// of its four axis neighbours. The pass walks the cells column by column and
/// upwards in each, and writes in place, so the neighbours at `(i - 1, j)` and
/// `(i, j - 1)` already hold what the pass left in them, while those at
/// `(i + 1, j)` and `(i, j + 1)` still hold the values of `x`.
pub open spec fn relaxed_cell<S, T: Quantity<S>>(
    x: Seq<Seq<T>>,
    b: Seq<Seq<T>>,
    w: int,
    h: int,
    alpha: S,
    beta: S,
    gamma: S,
    i: int,
    j: int,
) -> T
    decreases i, j,
{
    if interior(w, h, i, j) {
        let neighbours = x[i + 1][j].plus(relaxed_cell(x, b, w, h, alpha, beta, gamma, i - 1, j)).plus(
            x[i][j + 1],
        ).plus(relaxed_cell(x, b, w, h, alpha, beta, gamma, i, j - 1));
        neighbours.times(alpha).plus(b[i][j].times(beta)).over(gamma)
    } else {
        x[i][j]
    }
}

/// The grid that one pass of relaxation makes of `x`.
pub open spec fn swept<S, T: Quantity<S>>(
    x: Seq<Seq<T>>,
    b: Seq<Seq<T>>,
    w: int,
    h: int,
    alpha: S,
    beta: S,
    gamma: S,
) -> Seq<Seq<T>> {
    Seq::new(
        w as nat,
        |i: int| Seq::new(h as nat, |j: int| relaxed_cell(x, b, w, h, alpha, beta, gamma, i, j)),
    )
}

/// The grid that `n` passes of relaxation make of `x`.
pub open spec fn relaxed<S, T: Quantity<S>>(
    x: Seq<Seq<T>>,
    b: Seq<Seq<T>>,
    w: int,
    h: int,
    alpha: S,
    beta: S,
    gamma: S,
    n: nat,
) -> Seq<Seq<T>>
    decreases n,
{
    if n == 0 {
        x
    } else {
        swept(relaxed(x, b, w, h, alpha, beta, gamma, (n - 1) as nat), b, w, h, alpha, beta, gamma)
    }
}

/// Relaxation keeps the size of the grid and never writes the outer ring:
/// after any number of passes, the grid has the size of `x`, and its cells on
/// the outer ring hold what they held in `x`.
pub proof fn lemma_relaxed_keeps_ring<S, T: Quantity<S>>(
    x: Seq<Seq<T>>,
    b: Seq<Seq<T>>,
    w: int,
    h: int,
    alpha: S,
    beta: S,
    gamma: S,
    n: nat,
)
    requires
        0 <= w,
        0 <= h,
        is_grid(x, w, h),
    ensures
        is_grid(relaxed(x, b, w, h, alpha, beta, gamma, n), w, h),
        same_ring(relaxed(x, b, w, h, alpha, beta, gamma, n), x, w, h),
    decreases n,
{
    if n > 0 {
        lemma_relaxed_keeps_ring(x, b, w, h, alpha, beta, gamma, (n - 1) as nat);
    }
}

/// The grid that relaxation settles on where the neighbour term vanishes: `x`
/// on the outer ring, and `b[i][j] * beta / gamma` in each cell inside it.
pub open spec fn settled<S, T: Quantity<S>>(
    x: Seq<Seq<T>>,
    b: Seq<Seq<T>>,
    w: int,
    h: int,
    beta: S,
    gamma: S,
) -> Seq<Seq<T>> {
    inside_replaced(x, w, h, |i: int, j: int| b[i][j].times(beta).over(gamma))
}

/// Whether the neighbour term vanishes in a pass over a grid whose cells still
/// to come hold the values of `ahead` and whose cells already written hold
/// those of `behind`: in each cell inside the outer ring, adding `alpha` times
/// the sum of the four neighbours to `b[i][j] * beta` gives `b[i][j] * beta`.
pub open spec fn neighbours_vanish<S, T: Quantity<S>>(
    ahead: Seq<Seq<T>>,
    behind: Seq<Seq<T>>,
    b: Seq<Seq<T>>,
    w: int,
    h: int,
    alpha: S,
    beta: S,
) -> bool {
    forall|i: int, j: int|
        interior(w, h, i, j) ==> ahead[i + 1][j].plus(behind[i - 1][j]).plus(ahead[i][j + 1]).plus(
            behind[i][j - 1],
        ).times(alpha).plus((#[trigger] b[i][j]).times(beta)) == b[i][j].times(beta)
}

/// With a coefficient `alpha` for which the neighbour term vanishes, as it
/// does for `alpha = 0` in exact arithmetic, one pass of relaxation settles
/// the grid and every further pass leaves it unchanged: after any number of
/// passes but none, each cell inside the outer ring holds
/// `b[i][j] * beta / gamma`, and the outer ring holds what it held in `x`.
///
/// The neighbour term has to vanish in the first pass, which reads `x` ahead
/// of it and the settled grid behind it, and in the later ones, which read the
/// settled grid on both sides.
pub proof fn lemma_relaxed_without_neighbours<S, T: Quantity<S>>(
    x: Seq<Seq<T>>,
    b: Seq<Seq<T>>,
    w: int,
    h: int,
    alpha: S,
    beta: S,
    gamma: S,
    n: nat,
)
    requires
        0 <= w,
        0 <= h,
        is_grid(x, w, h),
        neighbours_vanish(x, settled(x, b, w, h, beta, gamma), b, w, h, alpha, beta),
        neighbours_vanish(
            settled(x, b, w, h, beta, gamma),
            settled(x, b, w, h, beta, gamma),
            b,
            w,
            h,
            alpha,
            beta,
        ),
        n >= 1,
    ensures
        relaxed(x, b, w, h, alpha, beta, gamma, n) == settled(x, b, w, h, beta, gamma),
    decreases n,
{
    let y = settled(x, b, w, h, beta, gamma);
    let prev = relaxed(x, b, w, h, alpha, beta, gamma, (n - 1) as nat);
    if n > 1 {
        lemma_relaxed_without_neighbours(x, b, w, h, alpha, beta, gamma, (n - 1) as nat);
    }
    if w > 0 && h > 0 {
        lemma_swept_without_neighbours(prev, y, b, w, h, alpha, beta, gamma, w - 1, h - 1);
    }
    assert(swept(prev, b, w, h, alpha, beta, gamma) =~~= y);
}

/// In a pass over `ahead` in which the neighbour term vanishes, each cell up to
/// `(i, j)` comes to hold what `y` holds, where `y` has `b[i][j] * beta / gamma`
/// inside the outer ring and the values of `ahead` on it.
proof fn lemma_swept_without_neighbours<S, T: Quantity<S>>(
    ahead: Seq<Seq<T>>,
    y: Seq<Seq<T>>,
    b: Seq<Seq<T>>,
    w: int,
    h: int,
    alpha: S,
    beta: S,
    gamma: S,
    i: int,
    j: int,
)
    requires
        0 <= w,
        0 <= h,
        is_grid(ahead, w, h),
        is_grid(y, w, h),
        same_ring(y, ahead, w, h),
        forall|a: int, c: int|
            interior(w, h, a, c) ==> #[trigger] y[a][c] == b[a][c].times(beta).over(gamma),
        neighbours_vanish(ahead, y, b, w, h, alpha, beta),
        0 <= i < w,
        0 <= j < h,
    ensures
        forall|a: int, c: int|
            0 <= a <= i && 0 <= c <= j ==> relaxed_cell(
                ahead,
                b,
                w,
                h,
                alpha,
                beta,
                gamma,
                a,
                c,
            ) == #[trigger] y[a][c],
    decreases i, j,
{
    assert forall|a: int, c: int| 0 <= a <= i && 0 <= c <= j implies relaxed_cell(
        ahead,
        b,
        w,
        h,
        alpha,
        beta,
        gamma,
        a,
        c,
    ) == #[trigger] y[a][c] by {
        if interior(w, h, a, c) {
            lemma_swept_without_neighbours(ahead, y, b, w, h, alpha, beta, gamma, a - 1, c);
            lemma_swept_without_neighbours(ahead, y, b, w, h, alpha, beta, gamma, a, c - 1);
        }
    }
}

/// One pass of relaxation over the cells inside the outer ring, in place.
fn sweep<S: Copy, T: Quantity<S>>(
    x: &mut DiscreteField<T>,
    b: &DiscreteField<T>,
    alpha: S,
    beta: S,
    gamma: S,
)
    requires
        old(x).wf(),
        b.wf(),
        b.width() == old(x).width(),
        b.height() == old(x).height(),
    ensures
        final(x).wf(),
        final(x).width() == old(x).width(),
        final(x).height() == old(x).height(),
        final(x)@ == swept(
            old(x)@,
            b@,
            old(x).width() as int,
            old(x).height() as int,
            alpha,
            beta,
            gamma,
        ),
{
    let w = x.width();
    let h = x.height();
    let ghost x0 = x@;
    let mut i: usize = 1;
    while i + 1 < w
        invariant
            1 <= i,
            i == 1 || i < w,
            x.wf(),
            b.wf(),
            x.width() == w,
            x.height() == h,
            b.width() == w,
            b.height() == h,
            is_grid(x0, w as int, h as int),
            forall|a: int, c: int|
                0 <= a < w && 0 <= c < h ==> #[trigger] x@[a][c] == (if passed(a, c, i as int, 1) {
                    relaxed_cell(x0, b@, w as int, h as int, alpha, beta, gamma, a, c)
                } else {
                    x0[a][c]
                }),
        decreases w - i,
    {
        let mut j: usize = 1;
        while j + 1 < h
            invariant
                1 <= i,
                i + 1 < w,
                1 <= j,
                j == 1 || j < h,
                x.wf(),
                b.wf(),
                x.width() == w,
                x.height() == h,
                b.width() == w,
                b.height() == h,
                is_grid(x0, w as int, h as int),
                forall|a: int, c: int|
                    0 <= a < w && 0 <= c < h ==> #[trigger] x@[a][c] == (if passed(
                        a,
                        c,
                        i as int,
                        j as int,
                    ) {
                        relaxed_cell(x0, b@, w as int, h as int, alpha, beta, gamma, a, c)
                    } else {
                        x0[a][c]
                    }),
            decreases h - j,
        {
            let neighbours = x.get(i + 1, j).plus(x.get(i - 1, j)).plus(x.get(i, j + 1)).plus(
                x.get(i, j - 1),
            );
            let np = neighbours.times(alpha).plus(b.get(i, j).times(beta)).over(gamma);
            x.put(i, j, np);
            j += 1;
        }
        i += 1;
    }
    assert(x@ =~~= swept(x0, b@, w as int, h as int, alpha, beta, gamma));
}

/// The relaxation primitive: `iter_count` passes over `x`, each of which
/// replaces every cell inside the outer ring by
/// `(neighbours * alpha + b[i][j] * beta) / gamma`. The outer ring of `x` is
/// never written.
pub fn relax<S: Copy, T: Quantity<S>>(
    x: &mut DiscreteField<T>,
    b: &DiscreteField<T>,
    alpha: S,
    beta: S,
    gamma: S,
    iter_count: usize,
)
    requires
        old(x).wf(),
        b.wf(),
        b.width() == old(x).width(),
        b.height() == old(x).height(),
    ensures
        final(x).wf(),
        final(x).width() == old(x).width(),
        final(x).height() == old(x).height(),
        final(x)@ == relaxed(
            old(x)@,
            b@,
            old(x).width() as int,
            old(x).height() as int,
            alpha,
            beta,
            gamma,
            iter_count as nat,
        ),
        same_ring(final(x)@, old(x)@, old(x).width() as int, old(x).height() as int),
{
    proof {
        lemma_relaxed_keeps_ring(
            x@,
            b@,
            x.width() as int,
            x.height() as int,
            alpha,
            beta,
            gamma,
            iter_count as nat,
        );
    }
    let ghost x0 = x@;
    let ghost w = x.width() as int;
    let ghost h = x.height() as int;
    let mut n: usize = 0;
    while n < iter_count
        invariant
            n <= iter_count,
            x.wf(),
            b.wf(),
            x.width() == w,
            x.height() == h,
            b.width() == w,
            b.height() == h,
            x@ == relaxed(x0, b@, w, h, alpha, beta, gamma, n as nat),
        decreases iter_count - n,
    {
        sweep(x, b, alpha, beta, gamma);
        n += 1;
    }
}

} // verus!
