//! The arithmetic abstraction the network is built over.
//!
//! Every numeric operation the trainer performs goes through this trait.
//! Each implementation fixes the meaning of the operations by defining the
//! `sp_*` spec functions; the executable methods are then proved to return
//! exactly those values.  Contracts elsewhere in the crate are stated over
//! the spec operations, so they hold for any implementation.

use vstd::prelude::*;

verus! {

/// The magnitude of a scalar: `v` negated when `v` is at most zero.
pub open spec fn sp_abs<S: Scalar>(v: S) -> S {
    if S::sp_le(v, S::sp_zero()) {
        S::sp_neg(v)
    } else {
        v
    }
}

pub trait Scalar: Sized + Copy {
    /// The additive identity, as this implementation defines it.
    spec fn sp_zero() -> Self;

    /// The multiplicative identity, as this implementation defines it.
    spec fn sp_one() -> Self;

    /// The sum of two scalars.
    spec fn sp_add(a: Self, b: Self) -> Self;

    /// The additive inverse.
    spec fn sp_neg(a: Self) -> Self;

    /// The product of two scalars.
    spec fn sp_mul(a: Self, b: Self) -> Self;

    /// The quotient of two scalars; total, with an
    /// implementation-defined value when the divisor is zero.
    spec fn sp_div(a: Self, b: Self) -> Self;

    /// The square root (an implementation's approximation of it).
    spec fn sp_sqrt(a: Self) -> Self;

    /// The exponential (an implementation's approximation of it).
    spec fn sp_exp(a: Self) -> Self;

    /// The scalar standing for the natural number `n`.
    spec fn sp_from_usize(n: usize) -> Self;

    /// The implementation's total order.
    spec fn sp_le(a: Self, b: Self) -> bool;

    fn zero() -> (r: Self)
        ensures
            r == Self::sp_zero(),
    ;

    fn one() -> (r: Self)
        ensures
            r == Self::sp_one(),
    ;

    fn add(self, other: Self) -> (r: Self)
        ensures
            r == Self::sp_add(self, other),
    ;

    fn sub(self, other: Self) -> (r: Self)
        ensures
            r == Self::sp_add(self, Self::sp_neg(other)),
    ;

    fn neg(self) -> (r: Self)
        ensures
            r == Self::sp_neg(self),
    ;

    fn mul(self, other: Self) -> (r: Self)
        ensures
            r == Self::sp_mul(self, other),
    ;

    fn div(self, other: Self) -> (r: Self)
        ensures
            r == Self::sp_div(self, other),
    ;

    fn sqrt(self) -> (r: Self)
        ensures
            r == Self::sp_sqrt(self),
            Self::sp_le(Self::sp_zero(), r),
    ;

    fn exp(self) -> (r: Self)
        ensures
            r == Self::sp_exp(self),
    ;

    fn from_usize(n: usize) -> (r: Self)
        ensures
            r == Self::sp_from_usize(n),
    ;

    fn abs(self) -> (r: Self)
        ensures
            r == (if Self::sp_le(self, Self::sp_zero()) {
                Self::sp_neg(self)
            } else {
                self
            }),
    ;

    /// Draws a value between `-limit` and `limit`.  The draw may be
    /// random: nothing beyond the bounds is promised, and the bounds are
    /// promised only when `limit` is nonnegative.
    fn uniform_symmetric(limit: Self) -> (r: Self)
        ensures
            Self::sp_le(Self::sp_zero(), limit) ==> Self::sp_le(Self::sp_neg(limit), r)
                && Self::sp_le(r, limit),
    ;
}

} // verus!
