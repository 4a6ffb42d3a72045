//! Dimensional analysis: units built from the seven SI base dimensions,
//! their products and quotients, and quantities measured in them.
//!
//! A unit ([`SingleUnit`]) has a dimension ([`DynKind`]), a scale, an
//! abbreviation and a name. Units multiply and divide into composite units
//! ([`CompositeUnit`]), in which equal units merge and cancel; a quantity
//! ([`SingleQuantity`]) is a magnitude in such a unit. What the operations
//! give is stated over sequences of factors in [`algebra`], and what holds
//! of them for all units is proved in [`laws`].
//!
//! Magnitudes and scales are IEEE 754 single-precision values. This crate
//! does no arithmetic on them: it holds them by their bit patterns
//! ([`Binary32`]) and hands out every computation on them as an expression
//! ([`ScaleExpr`]) that says which values are multiplied and divided in
//! which order. The caller evaluates it.

pub mod algebra;
pub mod binary32;
pub mod composite;
pub mod define;
pub mod display;
pub mod error;
pub mod kind;
pub mod laws;
pub mod quantity;
pub mod scale;
pub mod single;

pub use binary32::Binary32;
pub use composite::CompositeUnit;
pub use error::UnitError;
pub use kind::{
    Amount, Current, Dimension, DynKind, Length, Luminosity, Mass, Temperature, Time, UnitKind,
};
pub use quantity::{PendingQuantity, Quantity, SingleQuantity};
pub use scale::ScaleExpr;
pub use single::{SingleUnit, UnitKey, UnitTerm};
