use vstd::prelude::*;

verus! {

/// A value that the cells of a grid can carry: it can be added to and subtracted
/// from another value of its kind, and multiplied or divided by a number of type
/// `S`. Both the numbers themselves and the small vectors built from them are
/// quantities.
///
/// Each operation has a meaning (`plus_spec` and so on) that depends on its
/// arguments alone, and the executable method returns exactly that. Nothing else
/// is promised: no law of algebra is taken for granted, so that arithmetic which
/// rounds satisfies the interface too. In a contract the name of a method
/// stands for its meaning: `a.plus(b)` there is `a.plus_spec(b)`.
pub trait Quantity<S>: Copy {
    /// What `plus` computes.
    spec fn plus_spec(self, other: Self) -> Self;

    /// What `minus` computes.
    spec fn minus_spec(self, other: Self) -> Self;

    /// What `times` computes.
    spec fn times_spec(self, k: S) -> Self;

    /// What `over` computes.
    spec fn over_spec(self, k: S) -> Self;

    /// `self + other`.
    #[verifier::when_used_as_spec(plus_spec)]
    fn plus(self, other: Self) -> (r: Self)
        ensures
            r == self.plus_spec(other),
    ;

    /// `self - other`.
    #[verifier::when_used_as_spec(minus_spec)]
    fn minus(self, other: Self) -> (r: Self)
        ensures
            r == self.minus_spec(other),
    ;

    /// `self * k`.
    #[verifier::when_used_as_spec(times_spec)]
    fn times(self, k: S) -> (r: Self)
        ensures
            r == self.times_spec(k),
    ;

    /// `self / k`.
    #[verifier::when_used_as_spec(over_spec)]
    fn over(self, k: S) -> (r: Self)
        ensures
            r == self.over_spec(k),
    ;
}

/// A number: a quantity that is scaled by its own kind, can be made from a grid
/// index and turned back into one, and can be compared, rounded down and rooted.
pub trait Scalar: Quantity<Self> {
    /// What `from_index` computes.
    spec fn from_index_spec(n: usize) -> Self;

    /// What `to_index` computes.
    spec fn to_index_spec(self) -> usize;

    /// What `floor` computes.
    spec fn floor_spec(self) -> Self;

    /// What `sqrt` computes.
    spec fn sqrt_spec(self) -> Self;

    /// What `less_than` computes.
    spec fn less_than_spec(self, other: Self) -> bool;

    /// What `equals` computes. This is the number type's own comparison, which
    /// need not be identity: it may hold of two values that differ, and fail of a
    /// value and itself.
    spec fn equals_spec(self, other: Self) -> bool;

    /// The number that stands for the index `n`.
    #[verifier::when_used_as_spec(from_index_spec)]
    fn from_index(n: usize) -> (r: Self)
        ensures
            r == Self::from_index_spec(n),
    ;

    /// The index that the number stands for, whatever the number is.
    #[verifier::when_used_as_spec(to_index_spec)]
    fn to_index(self) -> (r: usize)
        ensures
            r == self.to_index_spec(),
    ;

    /// The largest whole number that is not above `self`.
    #[verifier::when_used_as_spec(floor_spec)]
    fn floor(self) -> (r: Self)
        ensures
            r == self.floor_spec(),
    ;

    /// The square root of `self`.
    #[verifier::when_used_as_spec(sqrt_spec)]
    fn sqrt(self) -> (r: Self)
        ensures
            r == self.sqrt_spec(),
    ;

    /// Whether `self < other`.
    #[verifier::when_used_as_spec(less_than_spec)]
    fn less_than(self, other: Self) -> (r: bool)
        ensures
            r == self.less_than_spec(other),
    ;

    /// Whether `self == other` as numbers.
    #[verifier::when_used_as_spec(equals_spec)]
    fn equals(self, other: Self) -> (r: bool)
        ensures
            r == self.equals_spec(other),
    ;
}

/// The number zero of `S`.
pub open spec fn zero<S: Scalar>() -> S {
    S::from_index(0)
}

/// The number one of `S`.
pub open spec fn one<S: Scalar>() -> S {
    S::from_index(1)
}

/// One half, as `S` computes it from one and two.
pub open spec fn half<S: Scalar>() -> S {
    one::<S>().over(S::from_index(2))
}

/// `x` held between `lo` and `hi`: `lo` where `x` is below it, then `hi` where
/// the outcome is above it.
pub open spec fn clamped<S: Scalar>(x: S, lo: S, hi: S) -> S {
    let raised = if x.less_than(lo) {
        lo
    } else {
        x
    };
    if hi.less_than(raised) {
        hi
    } else {
        raised
    }
}

/// Holds `x` between `lo` and `hi`.
pub fn clamp<S: Scalar>(x: S, lo: S, hi: S) -> (r: S)
    ensures
        r == clamped(x, lo, hi),
{
    let raised = if x.less_than(lo) {
        lo
    } else {
        x
    };
    if hi.less_than(raised) {
        hi
    } else {
        raised
    }
}

} // verus!
