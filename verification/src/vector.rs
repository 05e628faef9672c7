use crate::quantity::{clamp, clamped, zero, Quantity, Scalar};
use vstd::array::spec_array_update;
use vstd::prelude::*;

verus! {

/// A vector in the plane.
pub type Vector2<S> = Vector<S, 2>;

/// A vector in space.
pub type Vector3<S> = Vector<S, 3>;

/// A tuple of `D` numbers, copied wherever it goes.
#[derive(Copy)]
pub struct Vector<S: Scalar, const D: usize> {
    /// The components in order.
    pub v: [S; D],
}

impl<S: Scalar, const D: usize> Clone for Vector<S, D> {
    fn clone(&self) -> (r: Self)
        ensures
            r == *self,
    {
        *self
    }
}

/// An array that agrees with `s` on its first `n` places.
spec fn array_from<S, const D: usize>(s: Seq<S>, n: nat) -> [S; D]
    decreases n,
{
    if n == 0 {
        arbitrary()
    } else {
        spec_array_update(array_from::<S, D>(s, (n - 1) as nat), n - 1, s[n - 1])
    }
}

proof fn lemma_array_from<S, const D: usize>(s: Seq<S>, n: nat)
    requires
        n <= D,
    ensures
        forall|i: int| 0 <= i < n ==> array_from::<S, D>(s, n)@[i] == s[i],
    decreases n,
{
    if n > 0 {
        lemma_array_from::<S, D>(s, (n - 1) as nat);
    }
}

impl<S: Scalar, const D: usize> View for Vector<S, D> {
    type V = Seq<S>;

    /// The components in order.
    open spec fn view(&self) -> Seq<S> {
        self.v@
    }
}

impl<S: Scalar, const D: usize> Vector<S, D> {
    /// The vector whose components are those of `s`, a sequence of length `D`.
    pub closed spec fn from_seq(s: Seq<S>) -> Self {
        Vector { v: array_from::<S, D>(s, D as nat) }
    }

    /// The vector made from `s` has the components of `s`.
    pub proof fn lemma_from_seq(s: Seq<S>)
        requires
            s.len() == D,
        ensures
            Self::from_seq(s)@ == s,
    {
        lemma_array_from::<S, D>(s, D as nat);
    }

    /// Two vectors with the same components are the same vector.
    pub proof fn lemma_same_components(a: Self, b: Self)
        requires
            a@ == b@,
        ensures
            a == b,
    {
        assert(a.v =~= b.v);
    }

    /// The vector whose component `i` is `f(i)`.
    pub open spec fn tabulate(f: spec_fn(int) -> S) -> Self {
        Self::from_seq(Seq::new(D as nat, f))
    }

    /// The vector with the components `v`.
    pub fn new(v: [S; D]) -> (r: Self)
        ensures
            r.v == v,
    {
        Self { v }
    }

    /// Component `i`.
    pub fn get(&self, i: usize) -> (r: S)
        requires
            i < D,
        ensures
            r == self@[i as int],
    {
        self.v[i]
    }

    /// Replaces component `i` by `x`.
    pub fn put(&mut self, i: usize, x: S)
        requires
            i < D,
        ensures
            final(self)@ == old(self)@.update(i as int, x),
    {
        self.v[i] = x;
    }

    /// A vector whose component `i` is `f(i)` is the vector `tabulate(f)`.
    pub proof fn lemma_is_tabulate(v: Self, f: spec_fn(int) -> S)
        requires
            forall|i: int| 0 <= i < D ==> v@[i] == f(i),
        ensures
            v == Self::tabulate(f),
    {
        Self::lemma_from_seq(Seq::new(D as nat, f));
        assert(v@ =~= Seq::new(D as nat, f));
        Self::lemma_same_components(v, Self::tabulate(f));
    }

    /// The vector whose component `i` is what `f` makes of component `i` of
    /// `self` and of `other`.
    fn zip_with<F: Fn(S, S) -> S>(self, other: Self, f: F, Ghost(g): Ghost<spec_fn(S, S) -> S>) -> (r:
        Self)
        requires
            forall|a: S, b: S| f.requires((a, b)),
            forall|a: S, b: S, c: S| f.ensures((a, b), c) ==> c == g(a, b),
        ensures
            forall|i: int| 0 <= i < D ==> r@[i] == g(self@[i], other@[i]),
    {
        let mut x = self.v;
        let mut i: usize = 0;
        while i < D
            invariant
                i <= D,
                forall|a: S, b: S| f.requires((a, b)),
                forall|a: S, b: S, c: S| f.ensures((a, b), c) ==> c == g(a, b),
                forall|j: int| 0 <= j < i ==> x@[j] == g(self@[j], other@[j]),
            decreases D - i,
        {
            x[i] = f(self.v[i], other.v[i]);
            i += 1;
        }
        Self { v: x }
    }

    /// The vector whose component `i` is what `f` makes of component `i` of
    /// `self`.
    fn map_with<F: Fn(S) -> S>(self, f: F, Ghost(g): Ghost<spec_fn(S) -> S>) -> (r: Self)
        requires
            forall|a: S| f.requires((a,)),
            forall|a: S, c: S| f.ensures((a,), c) ==> c == g(a),
        ensures
            forall|i: int| 0 <= i < D ==> r@[i] == g(self@[i]),
    {
        let mut x = self.v;
        let mut i: usize = 0;
        while i < D
            invariant
                i <= D,
                forall|a: S| f.requires((a,)),
                forall|a: S, c: S| f.ensures((a,), c) ==> c == g(a),
                forall|j: int| 0 <= j < i ==> x@[j] == g(self@[j]),
            decreases D - i,
        {
            x[i] = f(self.v[i]);
            i += 1;
        }
        Self { v: x }
    }

    /// What `times_each` computes.
    pub open spec fn times_each_spec(self, other: Self) -> Self {
        Self::tabulate(|i: int| self@[i].times(other@[i]))
    }

    /// The product of the two vectors, component by component.
    #[verifier::when_used_as_spec(times_each_spec)]
    pub fn times_each(self, other: Self) -> (r: Self)
        ensures
            r == self.times_each_spec(other),
    {
        let each = |a: S, b: S| -> (c: S)
            ensures
                c == a.times(b)
            { a.times(b) };
        let r = self.zip_with(other, each, Ghost(|a: S, b: S| a.times(b)));
        proof {
            Self::lemma_is_tabulate(r, |i: int| self@[i].times(other@[i]));
        }
        r
    }

    /// What `over_each` computes.
    pub open spec fn over_each_spec(self, other: Self) -> Self {
        Self::tabulate(|i: int| self@[i].over(other@[i]))
    }

    /// The quotient of the two vectors, component by component.
    #[verifier::when_used_as_spec(over_each_spec)]
    pub fn over_each(self, other: Self) -> (r: Self)
        ensures
            r == self.over_each_spec(other),
    {
        let each = |a: S, b: S| -> (c: S)
            ensures
                c == a.over(b)
            { a.over(b) };
        let r = self.zip_with(other, each, Ghost(|a: S, b: S| a.over(b)));
        proof {
            Self::lemma_is_tabulate(r, |i: int| self@[i].over(other@[i]));
        }
        r
    }

    /// What `plus_each` computes.
    pub open spec fn plus_each_spec(self, k: S) -> Self {
        Self::tabulate(|i: int| self@[i].plus(k))
    }

    /// The vector with `k` added to each component.
    #[verifier::when_used_as_spec(plus_each_spec)]
    pub fn plus_each(self, k: S) -> (r: Self)
        ensures
            r == self.plus_each_spec(k),
    {
        let each = |a: S| -> (c: S)
            ensures
                c == a.plus(k)
            { a.plus(k) };
        let r = self.map_with(each, Ghost(|a: S| a.plus(k)));
        proof {
            Self::lemma_is_tabulate(r, |i: int| self@[i].plus(k));
        }
        r
    }

    /// What `minus_each` computes.
    pub open spec fn minus_each_spec(self, k: S) -> Self {
        Self::tabulate(|i: int| self@[i].minus(k))
    }

    /// The vector with `k` taken from each component.
    #[verifier::when_used_as_spec(minus_each_spec)]
    pub fn minus_each(self, k: S) -> (r: Self)
        ensures
            r == self.minus_each_spec(k),
    {
        let each = |a: S| -> (c: S)
            ensures
                c == a.minus(k)
            { a.minus(k) };
        let r = self.map_with(each, Ghost(|a: S| a.minus(k)));
        proof {
            Self::lemma_is_tabulate(r, |i: int| self@[i].minus(k));
        }
        r
    }

    /// The first `n` components of `s` added up from left to right; zero where
    /// there is none.
    pub open spec fn sum_of_first(s: Seq<S>, n: nat) -> S
        decreases n,
    {
        if n == 0 {
            zero::<S>()
        } else if n == 1 {
            s[0]
        } else {
            Self::sum_of_first(s, (n - 1) as nat).plus(s[n - 1])
        }
    }

    /// What `sum` computes.
    pub open spec fn sum_spec(self) -> S {
        Self::sum_of_first(self@, D as nat)
    }

    /// The sum of the components.
    #[verifier::when_used_as_spec(sum_spec)]
    pub fn sum(self) -> (r: S)
        ensures
            r == self.sum_spec(),
    {
        if D == 0 {
            return S::from_index(0);
        }
        let mut total = self.v[0];
        let mut i: usize = 1;
        while i < D
            invariant
                1 <= i <= D,
                total == Self::sum_of_first(self@, i as nat),
            decreases D - i,
        {
            total = total.plus(self.v[i]);
            i += 1;
        }
        total
    }

    /// What `dot` computes.
    pub open spec fn dot_spec(self, other: Self) -> S {
        self.times_each(other).sum()
    }

    /// The dot product: the sum of the products of the components.
    #[verifier::when_used_as_spec(dot_spec)]
    pub fn dot(self, other: Self) -> (r: S)
        ensures
            r == self.dot_spec(other),
    {
        self.times_each(other).sum()
    }

    /// What `magnitude2` computes.
    pub open spec fn magnitude2_spec(self) -> S {
        self.dot(self)
    }

    /// The square of the length.
    #[verifier::when_used_as_spec(magnitude2_spec)]
    pub fn magnitude2(self) -> (r: S)
        ensures
            r == self.magnitude2_spec(),
    {
        self.dot(self)
    }

    /// What `magnitude` computes.
    pub open spec fn magnitude_spec(self) -> S {
        self.magnitude2().sqrt()
    }

    /// The length.
    #[verifier::when_used_as_spec(magnitude_spec)]
    pub fn magnitude(self) -> (r: S)
        ensures
            r == self.magnitude_spec(),
    {
        self.magnitude2().sqrt()
    }

    /// What `normal` computes.
    pub open spec fn normal_spec(self) -> Self {
        if self.magnitude().equals(zero::<S>()) {
            self
        } else {
            self.over(self.magnitude())
        }
    }

    /// The vector of length one in the same direction. A vector whose length is
    /// zero has no direction and is returned as it is.
    #[verifier::when_used_as_spec(normal_spec)]
    pub fn normal(self) -> (r: Self)
        ensures
            r == self.normal_spec(),
    {
        let m = self.magnitude();
        if m.equals(S::from_index(0)) {
            self
        } else {
            self.over(m)
        }
    }

    /// What `clamp` computes.
    pub open spec fn clamp_spec(self, min: Self, max: Self) -> Self {
        Self::tabulate(|i: int| clamped(self@[i], min@[i], max@[i]))
    }

    /// Holds each component between the same component of `min` and of `max`.
    #[verifier::when_used_as_spec(clamp_spec)]
    pub fn clamp(self, min: Self, max: Self) -> (r: Self)
        ensures
            r == self.clamp_spec(min, max),
    {
        let mut x = self.v;
        let mut i: usize = 0;
        while i < D
            invariant
                i <= D,
                forall|j: int| 0 <= j < i ==> x@[j] == clamped(self@[j], min@[j], max@[j]),
            decreases D - i,
        {
            x[i] = clamp(self.v[i], min.v[i], max.v[i]);
            i += 1;
        }
        let r = Self { v: x };
        proof {
            Self::lemma_is_tabulate(r, |i: int| clamped(self@[i], min@[i], max@[i]));
        }
        r
    }
}

impl<S: Scalar, const D: usize> Vector<S, D> {
    /// The vector whose components are all `x`.
    pub open spec fn uniform(x: S) -> Self {
        Self::tabulate(|i: int| x)
    }

    /// Zeros add up to zero, where zero and zero do.
    proof fn lemma_sum_of_zeros(s: Seq<S>, n: nat)
        requires
            zero::<S>().plus(zero::<S>()) == zero::<S>(),
            forall|i: int| 0 <= i < n ==> s[i] == zero::<S>(),
        ensures
            Self::sum_of_first(s, n) == zero::<S>(),
        decreases n,
    {
        if n > 1 {
            Self::lemma_sum_of_zeros(s, (n - 1) as nat);
        }
    }

    /// The unit vector of the zero vector is the zero vector: nothing is
    /// divided by its length.
    ///
    /// This holds where `S` computes with zero as arithmetic does: zero times
    /// zero and zero plus zero are zero, and the root of zero equals zero.
    pub proof fn lemma_normal_of_zero()
        requires
            zero::<S>().times(zero::<S>()) == zero::<S>(),
            zero::<S>().plus(zero::<S>()) == zero::<S>(),
            zero::<S>().sqrt().equals(zero::<S>()),
        ensures
            Self::uniform(zero::<S>()).normal() == Self::uniform(zero::<S>()),
    {
        let z = Self::uniform(zero::<S>());
        Self::lemma_from_seq(Seq::new(D as nat, |i: int| zero::<S>()));
        let squares = Seq::new(D as nat, |i: int| z@[i].times(z@[i]));
        Self::lemma_from_seq(squares);
        Self::lemma_sum_of_zeros(squares, D as nat);
    }
}

/// A vector is a quantity: vectors add and subtract component by component, and a
/// number multiplies or divides every component.
impl<S: Scalar, const D: usize> Quantity<S> for Vector<S, D> {
    open spec fn plus_spec(self, other: Self) -> Self {
        Self::tabulate(|i: int| self@[i].plus(other@[i]))
    }

    /// The sum of the two vectors, component by component.
    fn plus(self, other: Self) -> (r: Self) {
        let each = |a: S, b: S| -> (c: S)
            ensures
                c == a.plus(b)
            { a.plus(b) };
        let r = self.zip_with(other, each, Ghost(|a: S, b: S| a.plus(b)));
        proof {
            Self::lemma_is_tabulate(r, |i: int| self@[i].plus(other@[i]));
        }
        r
    }

    open spec fn minus_spec(self, other: Self) -> Self {
        Self::tabulate(|i: int| self@[i].minus(other@[i]))
    }

    /// The difference of the two vectors, component by component.
    fn minus(self, other: Self) -> (r: Self) {
        let each = |a: S, b: S| -> (c: S)
            ensures
                c == a.minus(b)
            { a.minus(b) };
        let r = self.zip_with(other, each, Ghost(|a: S, b: S| a.minus(b)));
        proof {
            Self::lemma_is_tabulate(r, |i: int| self@[i].minus(other@[i]));
        }
        r
    }

    open spec fn times_spec(self, k: S) -> Self {
        Self::tabulate(|i: int| self@[i].times(k))
    }

    /// The vector with each component multiplied by `k`.
    fn times(self, k: S) -> (r: Self) {
        let each = |a: S| -> (c: S)
            ensures
                c == a.times(k)
            { a.times(k) };
        let r = self.map_with(each, Ghost(|a: S| a.times(k)));
        proof {
            Self::lemma_is_tabulate(r, |i: int| self@[i].times(k));
        }
        r
    }

    open spec fn over_spec(self, k: S) -> Self {
        Self::tabulate(|i: int| self@[i].over(k))
    }

    /// The vector with each component divided by `k`.
    fn over(self, k: S) -> (r: Self) {
        let each = |a: S| -> (c: S)
            ensures
                c == a.over(k)
            { a.over(k) };
        let r = self.map_with(each, Ghost(|a: S| a.over(k)));
        proof {
            Self::lemma_is_tabulate(r, |i: int| self@[i].over(k));
        }
        r
    }
}

impl<S: Scalar> Vector<S, 2> {
    /// What `wedge` computes.
    pub open spec fn wedge_spec(self, other: Self) -> S {
        self@[0].times(other@[1]).minus(self@[1].times(other@[0]))
    }

    /// The wedge product of two plane vectors: the signed area that they span.
    #[verifier::when_used_as_spec(wedge_spec)]
    pub fn wedge(self, other: Self) -> (r: S)
        ensures
            r == self.wedge_spec(other),
    {
        self.v[0].times(other.v[1]).minus(self.v[1].times(other.v[0]))
    }
}

impl<S: Scalar> Vector<S, 3> {
    /// What `cross` computes.
    pub open spec fn cross_spec(self, other: Self) -> Self {
        Self::from_seq(
            seq![
                self@[1].times(other@[2]).minus(self@[2].times(other@[1])),
                self@[2].times(other@[0]).minus(self@[0].times(other@[2])),
                self@[0].times(other@[1]).minus(self@[1].times(other@[0])),
            ],
        )
    }

    /// The cross product of two space vectors.
    #[verifier::when_used_as_spec(cross_spec)]
    pub fn cross(self, other: Self) -> (r: Self)
        ensures
            r == self.cross_spec(other),
    {
        let r = Self::new(
            [
                self.v[1].times(other.v[2]).minus(self.v[2].times(other.v[1])),
                self.v[2].times(other.v[0]).minus(self.v[0].times(other.v[2])),
                self.v[0].times(other.v[1]).minus(self.v[1].times(other.v[0])),
            ],
        );
        proof {
            let want = seq![
                self@[1].times(other@[2]).minus(self@[2].times(other@[1])),
                self@[2].times(other@[0]).minus(self@[0].times(other@[2])),
                self@[0].times(other@[1]).minus(self@[1].times(other@[0])),
            ];
            Self::lemma_from_seq(want);
            Self::lemma_same_components(r, self.cross(other));
        }
        r
    }
}

} // verus!
