//! Arithmetic on single-precision values, written down and not yet done.

use crate::binary32::Binary32;
use vstd::prelude::*;

verus! {

/// A product and quotient of single-precision values, as an expression.
///
/// Its value is what IEEE 754 arithmetic gives when each operation is done
/// in single precision, operands first, in the order the expression shows.
#[derive(Debug, PartialEq, Eq)]
pub enum ScaleExpr {
    Value(Binary32),
    Product(Box<ScaleExpr>, Box<ScaleExpr>),
    Quotient(Box<ScaleExpr>, Box<ScaleExpr>),
}

impl ScaleExpr {
    pub open spec fn spec_times(self, rhs: ScaleExpr) -> ScaleExpr {
        ScaleExpr::Product(Box::new(self), Box::new(rhs))
    }

    pub open spec fn spec_over(self, rhs: ScaleExpr) -> ScaleExpr {
        ScaleExpr::Quotient(Box::new(self), Box::new(rhs))
    }

    /// The expression `self * rhs`.
    #[verifier::when_used_as_spec(spec_times)]
    pub fn times(self, rhs: ScaleExpr) -> (product: ScaleExpr)
        ensures
            product == self.spec_times(rhs),
    {
        ScaleExpr::Product(Box::new(self), Box::new(rhs))
    }

    /// The expression `self / rhs`.
    #[verifier::when_used_as_spec(spec_over)]
    pub fn over(self, rhs: ScaleExpr) -> (quotient: ScaleExpr)
        ensures
            quotient == self.spec_over(rhs),
    {
        ScaleExpr::Quotient(Box::new(self), Box::new(rhs))
    }
}

impl Clone for ScaleExpr {
    fn clone(&self) -> (copy: ScaleExpr)
        ensures
            copy == *self,
        decreases self,
    {
        match self {
            ScaleExpr::Value(value) => ScaleExpr::Value(*value),
            ScaleExpr::Product(left, right) => {
                let left_copy = (**left).clone();
                let right_copy = (**right).clone();
                ScaleExpr::Product(Box::new(left_copy), Box::new(right_copy))
            },
            ScaleExpr::Quotient(left, right) => {
                let left_copy = (**left).clone();
                let right_copy = (**right).clone();
                ScaleExpr::Quotient(Box::new(left_copy), Box::new(right_copy))
            },
        }
    }
}

} // verus!
