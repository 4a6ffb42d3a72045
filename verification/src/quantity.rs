//! Quantities: a magnitude together with the unit it is measured in.

use crate::algebra::{
    absorb, absorbable, combinable, dimension_of, product, quotient, same_factors,
    scale_factor_of, Factor,
};
use crate::binary32::Binary32;
use crate::composite::CompositeUnit;
use crate::error::UnitError;
use crate::scale::ScaleExpr;
use crate::single::SingleUnit;
use vstd::prelude::*;

verus! {

/// What a quantity is: the value that a [`SingleQuantity`] stands for.
pub struct Quantity {
    pub unit: Seq<Factor>,
    pub scalar: Binary32,
}

/// A single quantity, such as 13 metres: one magnitude and its unit.
#[derive(Debug)]
pub struct SingleQuantity {
    unit: CompositeUnit,
    scalar: Binary32,
}

impl View for SingleQuantity {
    type V = Quantity;

    closed spec fn view(&self) -> Quantity {
        Quantity { unit: self.unit@, scalar: self.scalar }
    }
}

/// A quantity whose magnitude is arithmetic still to be done.
#[derive(Debug)]
pub struct PendingQuantity {
    pub unit: CompositeUnit,
    pub scalar: ScaleExpr,
}

impl PendingQuantity {
    /// The quantity, once `scalar` has been found as the value of the
    /// pending arithmetic.
    pub fn settle(self, scalar: Binary32) -> (quantity: SingleQuantity)
        ensures
            quantity@ == (Quantity { unit: self.unit@, scalar }),
    {
        SingleQuantity { unit: self.unit, scalar }
    }
}

/// The magnitude of `q` in the coherent SI unit of its dimension, as the
/// arithmetic that gives it. Two quantities are the same physical amount
/// where these magnitudes have the same value.
pub open spec fn magnitude_of(q: Quantity) -> ScaleExpr {
    ScaleExpr::Value(q.scalar).times(scale_factor_of(q.unit))
}

/// The magnitude of `q` once it is expressed in the unit `target`, as the
/// arithmetic that gives it: the magnitude times the scale factor of its
/// own unit, over the scale factor of the new one.
pub open spec fn converted(q: Quantity, target: Seq<Factor>) -> ScaleExpr {
    magnitude_of(q).over(scale_factor_of(target))
}

impl Clone for SingleQuantity {
    fn clone(&self) -> (copy: SingleQuantity)
        ensures
            copy@ == self@,
    {
        SingleQuantity { unit: self.unit.clone(), scalar: self.scalar }
    }
}

impl SingleQuantity {
    pub fn new(unit: CompositeUnit, scalar: Binary32) -> (quantity: SingleQuantity)
        ensures
            quantity@ == (Quantity { unit: unit@, scalar }),
    {
        SingleQuantity { unit, scalar }
    }

    pub fn unit(&self) -> (unit: &CompositeUnit)
        ensures
            unit@ == self@.unit,
    {
        &self.unit
    }

    pub fn scalar(&self) -> (scalar: Binary32)
        ensures
            scalar == self@.scalar,
    {
        self.scalar
    }

    /// The quantity expressed in another unit of the same dimension. The
    /// unit is replaced, and the magnitude is rescaled so that the result
    /// is the same physical amount.
    pub fn to(&self, unit: CompositeUnit) -> (result: Result<PendingQuantity, UnitError>)
        ensures
            result is Ok <==> dimension_of(unit@) == dimension_of(self@.unit),
            result matches Ok(pending) ==> pending.unit@ == unit@ && pending.scalar == converted(
                self@,
                unit@,
            ),
            result matches Err(e) ==> e == UnitError::DimensionMismatch,
    {
        if !self.unit.same_dimension(&unit) {
            return Err(UnitError::DimensionMismatch);
        }
        let scalar = self.magnitude().over(unit.scale_factor());
        Ok(PendingQuantity { unit, scalar })
    }

    /// The magnitude in the coherent SI unit of the quantity's dimension.
    pub fn magnitude(&self) -> (magnitude: ScaleExpr)
        ensures
            magnitude == magnitude_of(self@),
    {
        ScaleExpr::Value(self.scalar).times(self.unit.scale_factor())
    }

    /// Whether two quantities are alike in magnitude and in unit: the
    /// magnitudes have the same value, and the units are written with the
    /// same units to the same powers in the same order. So 12 cm and
    /// 0.12 m, one length, are not alike.
    pub fn unit_eq(&self, other: SingleQuantity) -> (same: bool)
        ensures
            same == (self@.scalar.same_value(other@.scalar) && same_factors(
                self@.unit,
                other@.unit,
            )),
    {
        self.scalar.same_value(other.scalar) && self.unit.eq(&other.unit)
    }

    /// The product of two quantities: the product of the units, and the
    /// product of the magnitudes, with no rescaling.
    pub fn mul(self, rhs: SingleQuantity) -> (pending: PendingQuantity)
        requires
            combinable(self@.unit, rhs@.unit, false),
        ensures
            pending.unit@ == product(self@.unit, rhs@.unit),
            pending.scalar == ScaleExpr::Value(self@.scalar).times(ScaleExpr::Value(rhs@.scalar)),
    {
        self.checked_mul(rhs).unwrap()
    }

    /// The quotient of two quantities: the quotient of the units, and the
    /// quotient of the magnitudes, with no rescaling.
    pub fn div(self, rhs: SingleQuantity) -> (pending: PendingQuantity)
        requires
            combinable(self@.unit, rhs@.unit, true),
        ensures
            pending.unit@ == quotient(self@.unit, rhs@.unit),
            pending.scalar == ScaleExpr::Value(self@.scalar).over(ScaleExpr::Value(rhs@.scalar)),
    {
        self.checked_div(rhs).unwrap()
    }

    /// The quantity times a unit: the magnitude stays as it is.
    pub fn mul_unit(self, rhs: SingleUnit) -> (quantity: SingleQuantity)
        requires
            absorbable(self@.unit, rhs@, 1),
        ensures
            quantity@ == (Quantity { unit: absorb(self@.unit, rhs@, 1), scalar: self@.scalar }),
    {
        self.checked_mul_unit(rhs).unwrap()
    }

    /// The quantity divided by a unit: the magnitude stays as it is.
    pub fn div_unit(self, rhs: SingleUnit) -> (quantity: SingleQuantity)
        requires
            absorbable(self@.unit, rhs@, -1),
        ensures
            quantity@ == (Quantity { unit: absorb(self@.unit, rhs@, -1), scalar: self@.scalar }),
    {
        self.checked_div_unit(rhs).unwrap()
    }

    /// The product of two quantities, where its unit can be held.
    pub fn checked_mul(self, rhs: SingleQuantity) -> (pending: Option<PendingQuantity>)
        ensures
            pending is Some <==> combinable(self@.unit, rhs@.unit, false),
            pending matches Some(p) ==> p.unit@ == product(self@.unit, rhs@.unit) && p.scalar
                == ScaleExpr::Value(self@.scalar).times(ScaleExpr::Value(rhs@.scalar)),
    {
        let scalar = ScaleExpr::Value(self.scalar).times(ScaleExpr::Value(rhs.scalar));
        match self.unit.checked_mul(rhs.unit) {
            Some(unit) => Some(PendingQuantity { unit, scalar }),
            None => None,
        }
    }

    /// The quotient of two quantities, where its unit can be held.
    pub fn checked_div(self, rhs: SingleQuantity) -> (pending: Option<PendingQuantity>)
        ensures
            pending is Some <==> combinable(self@.unit, rhs@.unit, true),
            pending matches Some(p) ==> p.unit@ == quotient(self@.unit, rhs@.unit) && p.scalar
                == ScaleExpr::Value(self@.scalar).over(ScaleExpr::Value(rhs@.scalar)),
    {
        let scalar = ScaleExpr::Value(self.scalar).over(ScaleExpr::Value(rhs.scalar));
        match self.unit.checked_div(rhs.unit) {
            Some(unit) => Some(PendingQuantity { unit, scalar }),
            None => None,
        }
    }

    /// The quantity times a unit, where the new unit can be held.
    pub fn checked_mul_unit(self, rhs: SingleUnit) -> (quantity: Option<SingleQuantity>)
        ensures
            quantity is Some <==> absorbable(self@.unit, rhs@, 1),
            quantity matches Some(q) ==> q@ == (Quantity {
                unit: absorb(self@.unit, rhs@, 1),
                scalar: self@.scalar,
            }),
    {
        match self.unit.checked_mul_unit(rhs) {
            Some(unit) => Some(SingleQuantity { unit, scalar: self.scalar }),
            None => None,
        }
    }

    /// The quantity divided by a unit, where the new unit can be held.
    pub fn checked_div_unit(self, rhs: SingleUnit) -> (quantity: Option<SingleQuantity>)
        ensures
            quantity is Some <==> absorbable(self@.unit, rhs@, -1),
            quantity matches Some(q) ==> q@ == (Quantity {
                unit: absorb(self@.unit, rhs@, -1),
                scalar: self@.scalar,
            }),
    {
        match self.unit.checked_div_unit(rhs) {
            Some(unit) => Some(SingleQuantity { unit, scalar: self.scalar }),
            None => None,
        }
    }
}

} // verus!
