//! The numerics that a caller provides.
//!
//! This library compares binary64 numbers and decides what to do, but it
//! does not compute their sums, quotients or logarithms: a caller hands in
//! the operations, and each contract says which operation returned each
//! result, and on which operands.

use crate::binary64::Binary64;
use vstd::prelude::*;

verus! {

/// The operations, as the caller computes them.
pub struct Numerics<Add, Sub, Mul, Div, Sqrt, Ln, Exp, Cdf> {
    /// `sum(a, b)` is `a + b`.
    pub sum: Add,
    /// `difference(a, b)` is `a - b`.
    pub difference: Sub,
    /// `product(a, b)` is `a * b`.
    pub product: Mul,
    /// `quotient(a, b)` is `a / b`.
    pub quotient: Div,
    /// The square root.
    pub square_root: Sqrt,
    /// The natural logarithm.
    pub logarithm: Ln,
    /// The exponential function.
    pub exponential: Exp,
    /// The cumulative distribution function of the standard normal
    /// distribution.
    pub normal_cdf: Cdf,
}

/// The operations, as functions: what the numerics compute when each
/// operation always returns the same result on the same operands.
pub struct Functions {
    pub sum: spec_fn(Binary64, Binary64) -> Binary64,
    pub difference: spec_fn(Binary64, Binary64) -> Binary64,
    pub product: spec_fn(Binary64, Binary64) -> Binary64,
    pub quotient: spec_fn(Binary64, Binary64) -> Binary64,
    pub square_root: spec_fn(Binary64) -> Binary64,
    pub logarithm: spec_fn(Binary64) -> Binary64,
    pub exponential: spec_fn(Binary64) -> Binary64,
    pub normal_cdf: spec_fn(Binary64) -> Binary64,
}

impl<Add, Sub, Mul, Div, Sqrt, Ln, Exp, Cdf> Numerics<Add, Sub, Mul, Div, Sqrt, Ln, Exp, Cdf> where
    Add: Fn(Binary64, Binary64) -> Binary64,
    Sub: Fn(Binary64, Binary64) -> Binary64,
    Mul: Fn(Binary64, Binary64) -> Binary64,
    Div: Fn(Binary64, Binary64) -> Binary64,
    Sqrt: Fn(Binary64) -> Binary64,
    Ln: Fn(Binary64) -> Binary64,
    Exp: Fn(Binary64) -> Binary64,
    Cdf: Fn(Binary64) -> Binary64,
 {
    /// Every operation takes every operand.
    pub open spec fn total(self) -> bool {
        &&& forall|a: Binary64, b: Binary64| self.sum.requires((a, b))
        &&& forall|a: Binary64, b: Binary64| self.difference.requires((a, b))
        &&& forall|a: Binary64, b: Binary64| self.product.requires((a, b))
        &&& forall|a: Binary64, b: Binary64| self.quotient.requires((a, b))
        &&& forall|a: Binary64| self.square_root.requires((a,))
        &&& forall|a: Binary64| self.logarithm.requires((a,))
        &&& forall|a: Binary64| self.exponential.requires((a,))
        &&& forall|a: Binary64| self.normal_cdf.requires((a,))
    }

    /// Whether `sum(a, b)` may return `r`.
    pub open spec fn adds(self, a: Binary64, b: Binary64, r: Binary64) -> bool {
        self.sum.ensures((a, b), r)
    }

    /// Whether `difference(a, b)` may return `r`.
    pub open spec fn subtracts(self, a: Binary64, b: Binary64, r: Binary64) -> bool {
        self.difference.ensures((a, b), r)
    }

    /// Whether `product(a, b)` may return `r`.
    pub open spec fn multiplies(self, a: Binary64, b: Binary64, r: Binary64) -> bool {
        self.product.ensures((a, b), r)
    }

    /// Whether `quotient(a, b)` may return `r`.
    pub open spec fn divides(self, a: Binary64, b: Binary64, r: Binary64) -> bool {
        self.quotient.ensures((a, b), r)
    }

    /// Whether `square_root(a)` may return `r`.
    pub open spec fn roots(self, a: Binary64, r: Binary64) -> bool {
        self.square_root.ensures((a,), r)
    }

    /// Whether `logarithm(a)` may return `r`.
    pub open spec fn logs(self, a: Binary64, r: Binary64) -> bool {
        self.logarithm.ensures((a,), r)
    }

    /// Whether `exponential(a)` may return `r`.
    pub open spec fn exponentiates(self, a: Binary64, r: Binary64) -> bool {
        self.exponential.ensures((a,), r)
    }

    /// Whether `normal_cdf(a)` may return `r`.
    pub open spec fn distributes(self, a: Binary64, r: Binary64) -> bool {
        self.normal_cdf.ensures((a,), r)
    }

    /// Whether each operation returns nothing but what `functions` gives.
    pub open spec fn computes(self, functions: Functions) -> bool {
        &&& forall|a: Binary64, b: Binary64, r: Binary64| #[trigger]
            self.adds(a, b, r) ==> r == (functions.sum)(a, b)
        &&& forall|a: Binary64, b: Binary64, r: Binary64| #[trigger]
            self.subtracts(a, b, r) ==> r == (functions.difference)(a, b)
        &&& forall|a: Binary64, b: Binary64, r: Binary64| #[trigger]
            self.multiplies(a, b, r) ==> r == (functions.product)(a, b)
        &&& forall|a: Binary64, b: Binary64, r: Binary64| #[trigger]
            self.divides(a, b, r) ==> r == (functions.quotient)(a, b)
        &&& forall|a: Binary64, r: Binary64| #[trigger]
            self.roots(a, r) ==> r == (functions.square_root)(a)
        &&& forall|a: Binary64, r: Binary64| #[trigger]
            self.logs(a, r) ==> r == (functions.logarithm)(a)
        &&& forall|a: Binary64, r: Binary64| #[trigger]
            self.exponentiates(a, r) ==> r == (functions.exponential)(a)
        &&& forall|a: Binary64, r: Binary64| #[trigger]
            self.distributes(a, r) ==> r == (functions.normal_cdf)(a)
    }
}

} // verus!
