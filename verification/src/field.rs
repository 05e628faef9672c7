use crate::quantity::{one, Quantity, Scalar};
use crate::vector::Vector2;
use vstd::prelude::*;
use vstd::slice::slice_subrange;

verus! {

/// Whether `g` is a grid of `w` columns that each hold `h` cells, so that `g[x][y]`
/// is defined exactly for `0 <= x < w` and `0 <= y < h`.
pub open spec fn is_grid<T>(g: Seq<Seq<T>>, w: int, h: int) -> bool {
    &&& g.len() == w
    &&& forall|x: int| 0 <= x < w ==> (#[trigger] g[x]).len() == h
}

/// Whether `(x, y)` lies inside the outer ring of a grid of `w` by `h` cells.
pub open spec fn interior(w: int, h: int, x: int, y: int) -> bool {
    1 <= x <= w - 2 && 1 <= y <= h - 2
}

/// Whether the grids `a` and `b` of `w` by `h` cells hold the same values on the
/// outer ring.
pub open spec fn same_ring<T>(a: Seq<Seq<T>>, b: Seq<Seq<T>>, w: int, h: int) -> bool {
    forall|x: int, y: int|
        0 <= x < w && 0 <= y < h && !interior(w, h, x, y) ==> #[trigger] a[x][y] == b[x][y]
}

/// Whether the walk over the cells, column by column and upwards in each, that
/// stands at `(i, j)` has already been at `(a, c)`.
pub open spec fn passed(a: int, c: int, i: int, j: int) -> bool {
    a < i || (a == i && c < j)
}

/// The grid of `w` by `h` cells that all hold `v`.
pub open spec fn uniform_grid<T>(w: int, h: int, v: T) -> Seq<Seq<T>> {
    Seq::new(w as nat, |x: int| Seq::new(h as nat, |y: int| v))
}

/// The grid of `w` by `h` cells that keeps the outer ring of `g` and holds
/// `f(x, y)` in each cell `(x, y)` inside it.
pub open spec fn inside_replaced<T>(g: Seq<Seq<T>>, w: int, h: int, f: spec_fn(int, int) -> T) -> Seq<
    Seq<T>,
> {
    Seq::new(
        w as nat,
        |x: int|
            Seq::new(
                h as nat,
                |y: int|
                    if interior(w, h, x, y) {
                        f(x, y)
                    } else {
                        g[x][y]
                    },
            ),
    )
}

/// The grid `g` with the cell at `(x, y)` replaced by `v`.
pub open spec fn with_cell<T>(g: Seq<Seq<T>>, x: int, y: int, v: T) -> Seq<Seq<T>> {
    g.update(x, g[x].update(y, v))
}

/// Cell `(x, y)` of a grid with columns of `h` cells lies at `x * h + y` in the
/// backing storage: inside it, and at a place no other cell has.
proof fn lemma_cell_offset(w: int, h: int, x: int, y: int)
    requires
        0 <= x < w,
        0 <= y < h,
    ensures
        0 <= x * h <= x * h + y < w * h,
        forall|x2: int, y2: int|
            0 <= x2 < w && 0 <= y2 < h && #[trigger] (x2 * h + y2) == x * h + y ==> x2 == x && y2
                == y,
{
    assert(0 <= x * h <= x * h + y < w * h) by (nonlinear_arith)
        requires
            0 <= x < w,
            0 <= y < h,
    ;
    assert forall|x2: int, y2: int|
        0 <= x2 < w && 0 <= y2 < h && #[trigger] (x2 * h + y2) == x * h + y implies x2 == x && y2
        == y by {
        assert(x2 == x) by (nonlinear_arith)
            requires
                0 <= y < h,
                0 <= y2 < h,
                x2 * h + y2 == x * h + y,
        ;
    }
}

/// A dense two-dimensional grid of `width` by `height` cells of one type. Every
/// cell holds a value at all times, and the size never changes.
pub struct DiscreteField<T: Copy> {
    /// The cells, column after column.
    data: Vec<T>,
    /// The number of columns.
    pub width: usize,
    /// The number of cells in a column.
    pub height: usize,
}

impl<T: Copy> View for DiscreteField<T> {
    type V = Seq<Seq<T>>;

    /// The cells as columns: `self@[x][y]` is the cell at `(x, y)`.
    closed spec fn view(&self) -> Seq<Seq<T>> {
        Seq::new(
            self.width as nat,
            |x: int| Seq::new(self.height as nat, |y: int| self.data@[x * self.height + y]),
        )
    }
}

impl<T: Copy> DiscreteField<T> {
    /// The backing storage holds exactly one value for each cell, and their
    /// number is one that the machine can count.
    pub closed spec fn storage_fits(&self) -> bool {
        &&& self.data@.len() == self.width * self.height
        &&& self.width * self.height <= usize::MAX
    }

    /// The number of columns, as contracts see it.
    pub closed spec fn spec_width(&self) -> usize {
        self.width
    }

    /// The number of cells in a column, as contracts see it.
    pub closed spec fn spec_height(&self) -> usize {
        self.height
    }

    /// The field is well formed: it stores one value per cell, and its view has
    /// `width()` columns of `height()` cells.
    pub open spec fn wf(&self) -> bool {
        &&& self.storage_fits()
        &&& is_grid(self@, self.width() as int, self.height() as int)
    }

    /// The number of columns.
    #[verifier::when_used_as_spec(spec_width)]
    pub fn width(&self) -> (w: usize)
        ensures
            w == self.spec_width(),
    {
        self.width
    }

    /// The number of cells in a column.
    #[verifier::when_used_as_spec(spec_height)]
    pub fn height(&self) -> (h: usize)
        ensures
            h == self.spec_height(),
    {
        self.height
    }

    /// A field of `w` by `h` cells that all hold `default`.
    pub fn new(w: usize, h: usize, default: T) -> (r: Self)
        requires
            w * h <= usize::MAX,
        ensures
            r.wf(),
            r.width() == w,
            r.height() == h,
            r@ == uniform_grid(w as int, h as int, default),
    {
        let cap: usize = w * h;
        let mut d: Vec<T> = Vec::with_capacity(cap);
        let mut k: usize = 0;
        while k < cap
            invariant
                k <= cap,
                d@.len() == k,
                forall|i: int| 0 <= i < k ==> d@[i] == default,
            decreases cap - k,
        {
            d.push(default);
            k += 1;
        }
        let r = Self { data: d, width: w, height: h };
        proof {
            assert forall|x: int, y: int| 0 <= x < w && 0 <= y < h implies #[trigger] r@[x][y]
                == default by {
                lemma_cell_offset(w as int, h as int, x, y);
            }
            assert(r@ =~~= uniform_grid(w as int, h as int, default));
        }
        r
    }

    /// Overwrites every cell with `v`.
    pub fn set(&mut self, v: T)
        requires
            old(self).wf(),
        ensures
            final(self).wf(),
            final(self).width() == old(self).width(),
            final(self).height() == old(self).height(),
            final(self)@ == uniform_grid(old(self).width() as int, old(self).height() as int, v),
    {
        let n: usize = self.data.len();
        let mut k: usize = 0;
        while k < n
            invariant
                k <= n,
                n == self.data@.len(),
                self.width == old(self).width,
                self.height == old(self).height,
                self.data@.len() == self.width * self.height,
                forall|i: int| 0 <= i < k ==> self.data@[i] == v,
            decreases n - k,
        {
            self.data[k] = v;
            k += 1;
        }
        proof {
            let w = self.width as int;
            let h = self.height as int;
            assert forall|x: int, y: int| 0 <= x < w && 0 <= y < h implies #[trigger] self@[x][y]
                == v by {
                lemma_cell_offset(w, h, x, y);
            }
            assert(self@ =~~= uniform_grid(w, h, v));
        }
    }

    /// The value of the cell at `(x, y)`.
    pub fn get(&self, x: usize, y: usize) -> (r: T)
        requires
            self.wf(),
            x < self.width(),
            y < self.height(),
        ensures
            r == self@[x as int][y as int],
    {
        proof {
            lemma_cell_offset(self.width as int, self.height as int, x as int, y as int);
        }
        self.data[x * self.height + y]
    }

    /// The column `x`: the cells `(x, 0)` to `(x, height - 1)` in order, so that
    /// `row(x)[y]` is the cell at `(x, y)`.
    pub fn row(&self, x: usize) -> (r: &[T])
        requires
            self.wf(),
            x < self.width(),
        ensures
            r@ == self@[x as int],
    {
        proof {
            if self.height > 0 {
                lemma_cell_offset(self.width as int, self.height as int, x as int, 0);
                lemma_cell_offset(
                    self.width as int,
                    self.height as int,
                    x as int,
                    self.height - 1,
                );
            } else {
                assert(x * self.height == 0) by (nonlinear_arith)
                    requires
                        self.height == 0,
                ;
                assert(self.width * self.height == 0) by (nonlinear_arith)
                    requires
                        self.height == 0,
                ;
            }
        }
        let start: usize = x * self.height;
        let r = slice_subrange(self.data.as_slice(), start, start + self.height);
        r
    }

    /// Writes `v` to the cell at `(x, y)` and leaves every other cell as it was.
    pub fn put(&mut self, x: usize, y: usize, v: T)
        requires
            old(self).wf(),
            x < old(self).width(),
            y < old(self).height(),
        ensures
            final(self).wf(),
            final(self).width() == old(self).width(),
            final(self).height() == old(self).height(),
            final(self)@ == with_cell(old(self)@, x as int, y as int, v),
    {
        proof {
            lemma_cell_offset(self.width as int, self.height as int, x as int, y as int);
        }
        let k: usize = x * self.height + y;
        self.data[k] = v;
        proof {
            let w = self.width as int;
            let h = self.height as int;
            assert forall|x2: int, y2: int| 0 <= x2 < w && 0 <= y2 < h implies #[trigger] self@[x2][y2]
                == with_cell(old(self)@, x as int, y as int, v)[x2][y2] by {
                lemma_cell_offset(w, h, x2, y2);
            }
            assert(self@ =~~= with_cell(old(self)@, x as int, y as int, v));
        }
    }
}

/// The four cells that enclose the position `p`, as column and row indices:
/// the column at or left of `p`, the column right of it, the row at or below
/// `p`, and the row above it.
pub open spec fn bilerp_corners<S: Scalar>(p: Vector2<S>) -> (usize, usize, usize, usize) {
    let x1 = p@[0].floor();
    let y1 = p@[1].floor();
    (x1.to_index(), x1.plus(one::<S>()).to_index(), y1.to_index(), y1.plus(one::<S>()).to_index())
}

/// Whether the four cells that enclose `p` all lie in a grid of `w` by `h` cells.
pub open spec fn bilerp_in_range<S: Scalar>(p: Vector2<S>, w: int, h: int) -> bool {
    let (x1, x2, y1, y2) = bilerp_corners(p);
    x1 < w && x2 < w && y1 < h && y2 < h
}

/// The value of the grid `g` at the position `p` between its cells: the four
/// enclosing cells blended along x by the distance of `p` from the right column,
/// then along y by its distance from the upper row.
pub open spec fn bilerp_value<S: Scalar, T: Quantity<S>>(g: Seq<Seq<T>>, p: Vector2<S>) -> T {
    let (x1, x2, y1, y2) = bilerp_corners(p);
    let grad_x = p@[0].floor().plus(one::<S>()).minus(p@[0]);
    let grad_y = p@[1].floor().plus(one::<S>()).minus(p@[1]);
    let q11 = g[x1 as int][y1 as int];
    let q12 = g[x1 as int][y2 as int];
    let q21 = g[x2 as int][y1 as int];
    let q22 = g[x2 as int][y2 as int];
    let fx1 = q11.times(grad_x).plus(q21.times(one::<S>().minus(grad_x)));
    let fx2 = q12.times(grad_x).plus(q22.times(one::<S>().minus(grad_x)));
    fx1.times(grad_y).plus(fx2.times(one::<S>().minus(grad_y)))
}

/// Samples `field` at the position `p` between its cells by bilinear
/// interpolation. The four cells that enclose `p` must lie in the field.
pub fn bilerp<S: Scalar, T: Quantity<S>>(field: &DiscreteField<T>, p: Vector2<S>) -> (r: T)
    requires
        field.wf(),
        bilerp_in_range(p, field.width() as int, field.height() as int),
    ensures
        r == bilerp_value(field@, p),
{
    let unit = S::from_index(1);
    let x1 = p.v[0].floor();
    let y1 = p.v[1].floor();
    let x2 = x1.plus(unit);
    let y2 = y1.plus(unit);

    let grad_x = x2.minus(p.v[0]);
    let grad_y = y2.minus(p.v[1]);

    let q11 = field.get(x1.to_index(), y1.to_index());
    let q12 = field.get(x1.to_index(), y2.to_index());
    let q21 = field.get(x2.to_index(), y1.to_index());
    let q22 = field.get(x2.to_index(), y2.to_index());

    let fx1 = q11.times(grad_x).plus(q21.times(unit.minus(grad_x)));
    let fx2 = q12.times(grad_x).plus(q22.times(unit.minus(grad_x)));
    fx1.times(grad_y).plus(fx2.times(unit.minus(grad_y)))
}

/// Samples `field` at `p` as `bilerp` does where the four cells that enclose `p`
/// lie in the field, and returns `None` where one of them does not.
pub fn checked_bilerp<S: Scalar, T: Quantity<S>>(field: &DiscreteField<T>, p: Vector2<S>) -> (r:
    Option<T>)
    requires
        field.wf(),
    ensures
        r == if bilerp_in_range(p, field.width() as int, field.height() as int) {
            Some(bilerp_value(field@, p))
        } else {
            None
        },
{
    let unit = S::from_index(1);
    let x1 = p.v[0].floor();
    let y1 = p.v[1].floor();
    let w = field.width();
    let h = field.height();
    if x1.to_index() < w && x1.plus(unit).to_index() < w && y1.to_index() < h && y1.plus(
        unit,
    ).to_index() < h {
        Some(bilerp(field, p))
    } else {
        None
    }
}

/// Whether `x` is, to the arithmetic of `S`, exactly the index `n`: rounding it
/// down changes nothing, it converts to `n`, and the next whole number lies
/// exactly one above it.
pub open spec fn is_index<S: Scalar>(x: S, n: usize) -> bool {
    &&& x.floor() == x
    &&& x.to_index() == n
    &&& x.plus(one::<S>()).minus(x) == one::<S>()
}

/// Whether blending `q` with the weight one and `r` with the weight that is
/// left gives exactly `q`.
pub open spec fn blend_keeps_first<S: Scalar, T: Quantity<S>>(q: T, r: T) -> bool {
    q.times(one::<S>()).plus(r.times(one::<S>().minus(one::<S>()))) == q
}

/// Sampling at a position that is exactly the cell `(i, j)` gives the value
/// stored in that cell: the weights degenerate to one and zero.
///
/// This holds where the arithmetic is exact on what it meets here: the two
/// coordinates are the indices `i` and `j`, and a blend with the weights one
/// and zero keeps its first value. Arithmetic that rounds breaks the second
/// where a neighbouring cell holds a value that zero does not annul.
pub proof fn lemma_bilerp_on_cell<S: Scalar, T: Quantity<S>>(
    g: Seq<Seq<T>>,
    p: Vector2<S>,
    i: usize,
    j: usize,
)
    requires
        is_index(p@[0], i),
        is_index(p@[1], j),
        ({
            let (x1, x2, y1, y2) = bilerp_corners(p);
            &&& blend_keeps_first::<S, T>(g[x1 as int][y1 as int], g[x2 as int][y1 as int])
            &&& blend_keeps_first::<S, T>(g[x1 as int][y2 as int], g[x2 as int][y2 as int])
            &&& blend_keeps_first::<S, T>(g[x1 as int][y1 as int], g[x1 as int][y2 as int])
        }),
    ensures
        bilerp_value(g, p) == g[i as int][j as int],
{
}

} // verus!
