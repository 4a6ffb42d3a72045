//! A single named unit, such as the metre or the newton.

use crate::binary32::{lemma_scales_equal_by_bits, Binary32};
use crate::error::UnitError;
use crate::kind::{Dimension, DynKind, UnitKind};
use vstd::prelude::*;

verus! {

/// What a unit is: the value that a [`SingleUnit`] stands for.
pub struct UnitTerm {
    pub kind: Dimension,
    /// How many coherent SI units make one of this unit.
    pub scale: Binary32,
    pub abbreviation: Seq<char>,
    pub name: Seq<char>,
}

/// What tells one unit from another: dimension, scale and name. Two units
/// with the same key are the same unit, whatever their abbreviations.
pub struct UnitKey {
    pub kind: Dimension,
    pub scale: Binary32,
    pub name: Seq<char>,
}

impl UnitTerm {
    pub open spec fn key(self) -> UnitKey {
        UnitKey { kind: self.kind, scale: self.scale, name: self.name }
    }
}

/// A single unit. It need not be a base unit: the newton is one too.
///
/// The scale of a unit is finite and not zero.
#[derive(Debug)]
pub struct SingleUnit {
    kind: DynKind,
    scale: Binary32,
    abbreviation: String,
    name: String,
}

impl View for SingleUnit {
    type V = UnitTerm;

    closed spec fn view(&self) -> UnitTerm {
        UnitTerm {
            kind: self.kind@,
            scale: self.scale,
            abbreviation: self.abbreviation@,
            name: self.name@,
        }
    }
}

impl Clone for SingleUnit {
    fn clone(&self) -> (copy: SingleUnit)
        ensures
            copy@ == self@,
    {
        proof {
            use_type_invariant(self);
        }
        SingleUnit {
            kind: self.kind,
            scale: self.scale,
            abbreviation: self.abbreviation.clone(),
            name: self.name.clone(),
        }
    }
}

impl SingleUnit {
    #[verifier::type_invariant]
    spec fn scale_is_usable(self) -> bool {
        self.scale.is_scale()
    }

    /// Declares a unit. A scale that is zero, infinite or not a number is
    /// refused here, so that no conversion ever divides by it.
    pub fn new(
        kind: DynKind,
        scale: Binary32,
        abbreviation: &str,
        name: &str,
    ) -> (unit: Result<SingleUnit, UnitError>)
        ensures
            unit is Ok <==> scale.is_scale(),
            unit matches Ok(u) ==> u@ == (UnitTerm {
                kind: kind@,
                scale,
                abbreviation: abbreviation@,
                name: name@,
            }),
            unit matches Err(e) ==> e == UnitError::InvalidScale,
    {
        if scale.is_scale() {
            Ok(
                SingleUnit {
                    kind,
                    scale,
                    abbreviation: String::from_str(abbreviation),
                    name: String::from_str(name),
                },
            )
        } else {
            Err(UnitError::InvalidScale)
        }
    }

    /// Declares a unit of the dimension that the type `K` stands for: the
    /// one that `K::to_dynkind` gives.
    pub fn of_kind<K: UnitKind>(
        scale: Binary32,
        abbreviation: &str,
        name: &str,
    ) -> (unit: Result<SingleUnit, UnitError>)
        ensures
            unit is Ok <==> scale.is_scale(),
            unit matches Ok(u) ==> exists|kind: DynKind|
                call_ensures(K::to_dynkind, (), kind) && u@ == (UnitTerm {
                    kind: kind@,
                    scale,
                    abbreviation: abbreviation@,
                    name: name@,
                }),
            unit matches Err(e) ==> e == UnitError::InvalidScale,
    {
        SingleUnit::new(K::to_dynkind(), scale, abbreviation, name)
    }

    pub fn kind(&self) -> (kind: DynKind)
        ensures
            kind@ == self@.kind,
    {
        self.kind
    }

    pub fn scale(&self) -> (scale: Binary32)
        ensures
            scale == self@.scale,
            scale.is_scale(),
    {
        proof {
            use_type_invariant(self);
        }
        self.scale
    }

    pub fn abbreviation(&self) -> (abbreviation: &str)
        ensures
            abbreviation@ == self@.abbreviation,
    {
        self.abbreviation.as_str()
    }

    pub fn name(&self) -> (name: &str)
        ensures
            name@ == self@.name,
    {
        self.name.as_str()
    }

    /// Whether two units are the same unit: they have the same dimension,
    /// scales of the same value, and the same name.
    pub fn eq(&self, other: &SingleUnit) -> (same: bool)
        ensures
            same == (self@.key() == other@.key()),
            same == (self@.kind == other@.kind && self@.scale.same_value(other@.scale)
                && self@.name == other@.name),
    {
        proof {
            use_type_invariant(self);
            use_type_invariant(other);
            lemma_scales_equal_by_bits(self.scale, other.scale);
        }
        self.kind.eq(&other.kind) && self.scale.bits == other.scale.bits && self.name == other.name
    }

    /// How the unit is displayed: by its abbreviation.
    pub fn to_string(&self) -> (text: String)
        ensures
            text@ == self@.abbreviation,
    {
        self.abbreviation.clone()
    }
}

} // verus!
