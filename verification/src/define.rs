//! Declaring units: one at a time, or a whole family of metric prefixes.
//!
//! A unit is declared with a scale that is a number or arithmetic over
//! units declared before, such as `kg * m / (s * s)` for the newton. What
//! comes out is a declaration whose scale is still an expression; once its
//! value is known, the declaration becomes a unit.

use crate::binary32::Binary32;
use crate::error::UnitError;
use crate::kind::{Dimension, DynKind};
use crate::scale::ScaleExpr;
use crate::single::{SingleUnit, UnitTerm};
use vstd::prelude::*;

verus! {

/// An operator between two operands of an expression.
#[derive(Clone, Copy, Debug, PartialEq, Eq, Structural)]
pub enum Operator {
    Mul,
    Div,
    /// Any operator that units do not have.
    Other,
}

/// The expression that gives a unit its scale and its dimension.
#[derive(Debug)]
pub enum UnitExpr {
    /// A number.
    Literal(Binary32),
    /// A unit declared before.
    Unit(SingleUnit),
    Binary(Operator, Box<UnitExpr>, Box<UnitExpr>),
    /// Anything else.
    Other,
}

/// An expression over dimensions, such as length times mass over time
/// over time for a force.
#[derive(Debug)]
pub enum KindExpr {
    Kind(DynKind),
    Binary(Operator, Box<KindExpr>, Box<KindExpr>),
    /// Anything else.
    Other,
}

/// The scale that a unit expression stands for, as arithmetic on numbers:
/// each unit gives its scale. The operands are looked at before the
/// operator, the left one first.
pub open spec fn scale_of(expr: UnitExpr) -> Result<ScaleExpr, UnitError>
    decreases expr,
{
    match expr {
        UnitExpr::Literal(value) => Ok(ScaleExpr::Value(value)),
        UnitExpr::Unit(unit) => Ok(ScaleExpr::Value(unit@.scale)),
        UnitExpr::Binary(operator, left, right) => match scale_of(*left) {
            Err(e) => Err(e),
            Ok(l) => match scale_of(*right) {
                Err(e) => Err(e),
                Ok(r) => match operator {
                    Operator::Mul => Ok(l.times(r)),
                    Operator::Div => Ok(l.over(r)),
                    Operator::Other => Err(UnitError::UnsupportedOperator),
                },
            },
        },
        UnitExpr::Other => Err(UnitError::UnsupportedExpression),
    }
}

/// Two dimensions under an operator: their sum for a product and their
/// difference for a quotient, where every exponent of it fits eight bits.
pub open spec fn kinds_joined(
    operator: Operator,
    l: Dimension,
    r: Dimension,
) -> Result<Dimension, UnitError> {
    match operator {
        Operator::Mul => if l.plus(r).representable() {
            Ok(l.plus(r))
        } else {
            Err(UnitError::ExponentOverflow)
        },
        Operator::Div => if l.minus(r).representable() {
            Ok(l.minus(r))
        } else {
            Err(UnitError::ExponentOverflow)
        },
        Operator::Other => Err(UnitError::UnsupportedOperator),
    }
}

/// The dimension that a unit expression stands for: a number has none, a
/// unit has its own, a product has the sum and a quotient the difference.
pub open spec fn kind_of(expr: UnitExpr) -> Result<Dimension, UnitError>
    decreases expr,
{
    match expr {
        UnitExpr::Literal(value) => Ok(Dimension::zero()),
        UnitExpr::Unit(unit) => Ok(unit@.kind),
        UnitExpr::Binary(operator, left, right) => match kind_of(*left) {
            Err(e) => Err(e),
            Ok(l) => match kind_of(*right) {
                Err(e) => Err(e),
                Ok(r) => kinds_joined(operator, l, r),
            },
        },
        UnitExpr::Other => Err(UnitError::UnsupportedExpression),
    }
}

/// The dimension that an expression over dimensions stands for.
pub open spec fn kind_arith(expr: KindExpr) -> Result<Dimension, UnitError>
    decreases expr,
{
    match expr {
        KindExpr::Kind(kind) => Ok(kind@),
        KindExpr::Binary(operator, left, right) => match kind_arith(*left) {
            Err(e) => Err(e),
            Ok(l) => match kind_arith(*right) {
                Err(e) => Err(e),
                Ok(r) => kinds_joined(operator, l, r),
            },
        },
        KindExpr::Other => Err(UnitError::UnsupportedExpression),
    }
}

/// Whether a unit expression names a unit anywhere, so that it has a
/// dimension of its own.
pub open spec fn names_unit(expr: UnitExpr) -> bool
    decreases expr,
{
    match expr {
        UnitExpr::Literal(value) => false,
        UnitExpr::Unit(unit) => true,
        UnitExpr::Binary(operator, left, right) => names_unit(*left) || names_unit(*right),
        UnitExpr::Other => false,
    }
}

/// A dimension that was found, or the error that was, as mathematics sees
/// it.
pub open spec fn viewed(kind: Result<DynKind, UnitError>) -> Result<Dimension, UnitError> {
    match kind {
        Ok(k) => Ok(k@),
        Err(e) => Err(e),
    }
}

fn join_kinds(operator: Operator, l: DynKind, r: DynKind) -> (kind: Result<DynKind, UnitError>)
    ensures
        viewed(kind) == kinds_joined(operator, l@, r@),
{
    match operator {
        Operator::Mul => match l.checked_add(r) {
            Some(kind) => Ok(kind),
            None => Err(UnitError::ExponentOverflow),
        },
        Operator::Div => match l.checked_sub(r) {
            Some(kind) => Ok(kind),
            None => Err(UnitError::ExponentOverflow),
        },
        Operator::Other => Err(UnitError::UnsupportedOperator),
    }
}

/// The scale of a unit expression, as arithmetic on numbers.
pub fn create_scale(expr: &UnitExpr) -> (scale: Result<ScaleExpr, UnitError>)
    ensures
        scale == scale_of(*expr),
    decreases expr,
{
    match expr {
        UnitExpr::Literal(value) => Ok(ScaleExpr::Value(*value)),
        UnitExpr::Unit(unit) => Ok(ScaleExpr::Value(unit.scale())),
        UnitExpr::Binary(operator, left, right) => {
            let l = match create_scale(left) {
                Ok(l) => l,
                Err(e) => {
                    return Err(e);
                },
            };
            let r = match create_scale(right) {
                Ok(r) => r,
                Err(e) => {
                    return Err(e);
                },
            };
            match operator {
                Operator::Mul => Ok(l.times(r)),
                Operator::Div => Ok(l.over(r)),
                Operator::Other => Err(UnitError::UnsupportedOperator),
            }
        },
        UnitExpr::Other => Err(UnitError::UnsupportedExpression),
    }
}

/// The dimension of a unit expression.
pub fn create_unit_kind(expr: &UnitExpr) -> (kind: Result<DynKind, UnitError>)
    ensures
        viewed(kind) == kind_of(*expr),
    decreases expr,
{
    match expr {
        UnitExpr::Literal(value) => Ok(DynKind::default()),
        UnitExpr::Unit(unit) => Ok(unit.kind()),
        UnitExpr::Binary(operator, left, right) => {
            let l = match create_unit_kind(left) {
                Ok(l) => l,
                Err(e) => {
                    return Err(e);
                },
            };
            let r = match create_unit_kind(right) {
                Ok(r) => r,
                Err(e) => {
                    return Err(e);
                },
            };
            join_kinds(*operator, l, r)
        },
        UnitExpr::Other => Err(UnitError::UnsupportedExpression),
    }
}

/// The dimension of an expression over dimensions.
pub fn type_arith(expr: &KindExpr) -> (kind: Result<DynKind, UnitError>)
    ensures
        viewed(kind) == kind_arith(*expr),
    decreases expr,
{
    match expr {
        KindExpr::Kind(kind) => Ok(*kind),
        KindExpr::Binary(operator, left, right) => {
            let l = match type_arith(left) {
                Ok(l) => l,
                Err(e) => {
                    return Err(e);
                },
            };
            let r = match type_arith(right) {
                Ok(r) => r,
                Err(e) => {
                    return Err(e);
                },
            };
            join_kinds(*operator, l, r)
        },
        KindExpr::Other => Err(UnitError::UnsupportedExpression),
    }
}

/// Whether a unit expression names a unit anywhere.
fn mentions_unit(expr: &UnitExpr) -> (found: bool)
    ensures
        found == names_unit(*expr),
    decreases expr,
{
    match expr {
        UnitExpr::Literal(value) => false,
        UnitExpr::Unit(unit) => true,
        UnitExpr::Binary(operator, left, right) => mentions_unit(left) || mentions_unit(right),
        UnitExpr::Other => false,
    }
}

/// A metric prefix: what it multiplies a scale by, what it puts before
/// an abbreviation, and what it puts before a name.
#[derive(Clone, Copy, Debug)]
pub struct Prefix {
    /// The power of ten that the prefix stands for, in single precision.
    pub multiplier: Binary32,
    /// The exponent of that power of ten.
    pub power_of_ten: i8,
    pub symbol: &'static str,
    pub word: &'static str,
}

/// The metric prefixes from yotta down to yocto, the empty prefix among
/// them.
pub open spec fn metric_prefix_table() -> Seq<Prefix> {
    seq![
        Prefix { multiplier: Binary32 { bits: 0x6753_c21c }, power_of_ten: 24, symbol: "Y", word: "yotta" },
        Prefix { multiplier: Binary32 { bits: 0x6258_d727 }, power_of_ten: 21, symbol: "Z", word: "zetta" },
        Prefix { multiplier: Binary32 { bits: 0x5d5e_0b6b }, power_of_ten: 18, symbol: "E", word: "exa" },
        Prefix { multiplier: Binary32 { bits: 0x5863_5fa9 }, power_of_ten: 15, symbol: "P", word: "peta" },
        Prefix { multiplier: Binary32 { bits: 0x5368_d4a5 }, power_of_ten: 12, symbol: "T", word: "tera" },
        Prefix { multiplier: Binary32 { bits: 0x4e6e_6b28 }, power_of_ten: 9, symbol: "G", word: "giga" },
        Prefix { multiplier: Binary32 { bits: 0x4974_2400 }, power_of_ten: 6, symbol: "M", word: "mega" },
        Prefix { multiplier: Binary32 { bits: 0x447a_0000 }, power_of_ten: 3, symbol: "k", word: "kilo" },
        Prefix { multiplier: Binary32 { bits: 0x42c8_0000 }, power_of_ten: 2, symbol: "h", word: "hecto" },
        Prefix { multiplier: Binary32 { bits: 0x4120_0000 }, power_of_ten: 1, symbol: "da", word: "deka" },
        Prefix { multiplier: Binary32 { bits: 0x3f80_0000 }, power_of_ten: 0, symbol: "", word: "" },
        Prefix { multiplier: Binary32 { bits: 0x3dcc_cccd }, power_of_ten: (-1) as i8, symbol: "d", word: "deci" },
        Prefix { multiplier: Binary32 { bits: 0x3c23_d70a }, power_of_ten: (-2) as i8, symbol: "c", word: "centi" },
        Prefix { multiplier: Binary32 { bits: 0x3a83_126f }, power_of_ten: (-3) as i8, symbol: "m", word: "milli" },
        Prefix { multiplier: Binary32 { bits: 0x3586_37bd }, power_of_ten: (-6) as i8, symbol: "\u{3bc}", word: "micro" },
        Prefix { multiplier: Binary32 { bits: 0x3089_705f }, power_of_ten: (-9) as i8, symbol: "n", word: "nano" },
        Prefix { multiplier: Binary32 { bits: 0x2b8c_bccc }, power_of_ten: (-12) as i8, symbol: "p", word: "pico" },
        Prefix { multiplier: Binary32 { bits: 0x2690_1d7d }, power_of_ten: (-15) as i8, symbol: "f", word: "femto" },
        Prefix { multiplier: Binary32 { bits: 0x2193_92ef }, power_of_ten: (-18) as i8, symbol: "a", word: "atto" },
        Prefix { multiplier: Binary32 { bits: 0x1c97_1da0 }, power_of_ten: (-21) as i8, symbol: "z", word: "zepto" },
        Prefix { multiplier: Binary32 { bits: 0x179a_be15 }, power_of_ten: (-24) as i8, symbol: "y", word: "yocto" },
    ]
}

/// The metric prefixes, largest first.
pub fn metric_prefixes() -> (table: Vec<Prefix>)
    ensures
        table@ == metric_prefix_table(),
{
    let table = vec![
        Prefix { multiplier: Binary32 { bits: 0x6753_c21c }, power_of_ten: 24, symbol: "Y", word: "yotta" },
        Prefix { multiplier: Binary32 { bits: 0x6258_d727 }, power_of_ten: 21, symbol: "Z", word: "zetta" },
        Prefix { multiplier: Binary32 { bits: 0x5d5e_0b6b }, power_of_ten: 18, symbol: "E", word: "exa" },
        Prefix { multiplier: Binary32 { bits: 0x5863_5fa9 }, power_of_ten: 15, symbol: "P", word: "peta" },
        Prefix { multiplier: Binary32 { bits: 0x5368_d4a5 }, power_of_ten: 12, symbol: "T", word: "tera" },
        Prefix { multiplier: Binary32 { bits: 0x4e6e_6b28 }, power_of_ten: 9, symbol: "G", word: "giga" },
        Prefix { multiplier: Binary32 { bits: 0x4974_2400 }, power_of_ten: 6, symbol: "M", word: "mega" },
        Prefix { multiplier: Binary32 { bits: 0x447a_0000 }, power_of_ten: 3, symbol: "k", word: "kilo" },
        Prefix { multiplier: Binary32 { bits: 0x42c8_0000 }, power_of_ten: 2, symbol: "h", word: "hecto" },
        Prefix { multiplier: Binary32 { bits: 0x4120_0000 }, power_of_ten: 1, symbol: "da", word: "deka" },
        Prefix { multiplier: Binary32 { bits: 0x3f80_0000 }, power_of_ten: 0, symbol: "", word: "" },
        Prefix { multiplier: Binary32 { bits: 0x3dcc_cccd }, power_of_ten: -1, symbol: "d", word: "deci" },
        Prefix { multiplier: Binary32 { bits: 0x3c23_d70a }, power_of_ten: -2, symbol: "c", word: "centi" },
        Prefix { multiplier: Binary32 { bits: 0x3a83_126f }, power_of_ten: -3, symbol: "m", word: "milli" },
        Prefix { multiplier: Binary32 { bits: 0x3586_37bd }, power_of_ten: -6, symbol: "\u{3bc}", word: "micro" },
        Prefix { multiplier: Binary32 { bits: 0x3089_705f }, power_of_ten: -9, symbol: "n", word: "nano" },
        Prefix { multiplier: Binary32 { bits: 0x2b8c_bccc }, power_of_ten: -12, symbol: "p", word: "pico" },
        Prefix { multiplier: Binary32 { bits: 0x2690_1d7d }, power_of_ten: -15, symbol: "f", word: "femto" },
        Prefix { multiplier: Binary32 { bits: 0x2193_92ef }, power_of_ten: -18, symbol: "a", word: "atto" },
        Prefix { multiplier: Binary32 { bits: 0x1c97_1da0 }, power_of_ten: -21, symbol: "z", word: "zepto" },
        Prefix { multiplier: Binary32 { bits: 0x179a_be15 }, power_of_ten: -24, symbol: "y", word: "yocto" },
    ];
    assert(table@ =~= metric_prefix_table());
    table
}

/// What is given to declare a unit.
#[derive(Debug)]
pub struct UnitDef {
    /// The name that programs call the unit by.
    pub ident: String,
    pub abbreviation: String,
    pub name: String,
    /// The dimension that the unit is declared to have.
    pub kind: DynKind,
    /// What gives the unit its scale.
    pub initializer: UnitExpr,
}

/// A unit as declared: all of it is known but the value of its scale.
#[derive(Debug)]
pub struct UnitDecl {
    pub ident: String,
    pub abbreviation: String,
    pub name: String,
    pub kind: DynKind,
    /// The scale, as arithmetic still to be done.
    pub scale: ScaleExpr,
}

/// The declaration that `def` makes when its initializer has the scale
/// `scale`.
pub open spec fn declared(def: UnitDef, scale: ScaleExpr, decl: UnitDecl) -> bool {
    &&& decl.ident@ == def.ident@
    &&& decl.abbreviation@ == def.abbreviation@
    &&& decl.name@ == def.name@
    &&& decl.kind == def.kind
    &&& decl.scale == scale
}

/// The declaration that `def` makes under the prefix `prefix` when its
/// initializer has the scale `scale`: the prefix stands before identifier,
/// abbreviation and name, and its multiplier before the scale.
pub open spec fn declared_with_prefix(
    def: UnitDef,
    prefix: Prefix,
    scale: ScaleExpr,
    decl: UnitDecl,
) -> bool {
    &&& decl.ident@ == prefix.symbol@ + def.ident@
    &&& decl.abbreviation@ == prefix.symbol@ + def.abbreviation@
    &&& decl.name@ == prefix.word@ + def.name@
    &&& decl.kind == def.kind
    &&& decl.scale == ScaleExpr::Value(prefix.multiplier).times(scale)
}

/// What declaring `def` checks: the scale of the initializer must be
/// arithmetic on numbers and units, and where it names units, their
/// dimension must be the declared one.
pub open spec fn checked_scale(def: UnitDef) -> Result<ScaleExpr, UnitError> {
    match scale_of(def.initializer) {
        Err(e) => Err(e),
        Ok(scale) => if !names_unit(def.initializer) {
            Ok(scale)
        } else {
            match kind_of(def.initializer) {
                Err(e) => Err(e),
                Ok(kind) => if kind == def.kind@ {
                    Ok(scale)
                } else {
                    Err(UnitError::DimensionMismatch)
                },
            }
        },
    }
}

impl UnitDef {
    /// What is given to declare a unit. Without an abbreviation of its
    /// own the unit is abbreviated by its identifier.
    pub fn new(
        ident: &str,
        kind: DynKind,
        initializer: UnitExpr,
        name: &str,
        abbreviation: Option<&str>,
    ) -> (def: UnitDef)
        ensures
            def.ident@ == ident@,
            def.kind == kind,
            def.initializer == initializer,
            def.name@ == name@,
            def.abbreviation@ == (match abbreviation {
                Some(a) => a@,
                None => ident@,
            }),
    {
        let abbreviation = match abbreviation {
            Some(a) => String::from_str(a),
            None => String::from_str(ident),
        };
        UnitDef {
            ident: String::from_str(ident),
            abbreviation,
            name: String::from_str(name),
            kind,
            initializer,
        }
    }

    /// The scale of the initializer, once the declaration has been found
    /// sound.
    fn check(&self) -> (scale: Result<ScaleExpr, UnitError>)
        ensures
            scale == checked_scale(*self),
    {
        let scale = match create_scale(&self.initializer) {
            Ok(scale) => scale,
            Err(e) => {
                return Err(e);
            },
        };
        if mentions_unit(&self.initializer) {
            match create_unit_kind(&self.initializer) {
                Ok(kind) => {
                    if !kind.eq(&self.kind) {
                        return Err(UnitError::DimensionMismatch);
                    }
                },
                Err(e) => {
                    return Err(e);
                },
            }
        }
        Ok(scale)
    }
}

impl UnitDecl {
    /// The declared unit, once `scale` has been found as the value of its
    /// scale. A scale that is zero, infinite or not a number is refused.
    pub fn build(&self, scale: Binary32) -> (unit: Result<SingleUnit, UnitError>)
        ensures
            unit is Ok <==> scale.is_scale(),
            unit matches Ok(u) ==> u@ == (UnitTerm {
                kind: self.kind@,
                scale,
                abbreviation: self.abbreviation@,
                name: self.name@,
            }),
            unit matches Err(e) ==> e == UnitError::InvalidScale,
    {
        SingleUnit::new(self.kind, scale, self.abbreviation.as_str(), self.name.as_str())
    }
}

/// Declares one unit: identifier, abbreviation, name and dimension are
/// those of `def`, and the scale is the arithmetic that its initializer
/// writes down. An initializer that is not arithmetic on numbers and units,
/// or whose units have another dimension than the declared one, is refused.
pub fn create_unit(def: &UnitDef) -> (result: Result<UnitDecl, UnitError>)
    ensures
        result is Ok <==> checked_scale(*def) is Ok,
        result matches Ok(decl) ==> declared(*def, checked_scale(*def)->Ok_0, decl),
        result matches Err(e) ==> checked_scale(*def) == Err::<ScaleExpr, UnitError>(e),
{
    match def.check() {
        Ok(scale) => Ok(
            UnitDecl {
                ident: def.ident.clone(),
                abbreviation: def.abbreviation.clone(),
                name: def.name.clone(),
                kind: def.kind,
                scale,
            },
        ),
        Err(e) => Err(e),
    }
}

/// Declares the unit that `def` describes under one metric prefix, where
/// `base_scale` is the scale of the unit without a prefix.
pub fn create_unit_prefix(def: &UnitDef, prefix: &Prefix, base_scale: &ScaleExpr) -> (decl: UnitDecl)
    ensures
        declared_with_prefix(*def, *prefix, *base_scale, decl),
{
    let mut ident = String::from_str(prefix.symbol);
    ident.append(def.ident.as_str());
    let mut abbreviation = String::from_str(prefix.symbol);
    abbreviation.append(def.abbreviation.as_str());
    let mut name = String::from_str(prefix.word);
    name.append(def.name.as_str());
    let scale = ScaleExpr::Value(prefix.multiplier).times(base_scale.clone());
    UnitDecl { ident, abbreviation, name, kind: def.kind, scale }
}

/// Declares a unit under every metric prefix: one declaration for each
/// entry of the prefix table, in its order. Each has the prefix before its
/// identifier, abbreviation and name, and for its scale the multiplier of
/// the prefix times the scale of the initializer. What `create_unit`
/// refuses is refused here.
pub fn create_unit_with_prefixes(def: &UnitDef) -> (result: Result<Vec<UnitDecl>, UnitError>)
    ensures
        result is Ok <==> checked_scale(*def) is Ok,
        result matches Ok(decls) ==> decls@.len() == metric_prefix_table().len() && forall|i: int|
            0 <= i < decls@.len() ==> declared_with_prefix(
                *def,
                metric_prefix_table()[i],
                checked_scale(*def)->Ok_0,
                #[trigger] decls@[i],
            ),
        result matches Err(e) ==> checked_scale(*def) == Err::<ScaleExpr, UnitError>(e),
{
    let scale = match def.check() {
        Ok(scale) => scale,
        Err(e) => {
            return Err(e);
        },
    };
    let prefixes = metric_prefixes();
    let mut decls: Vec<UnitDecl> = Vec::new();
    let mut i: usize = 0;
    while i < prefixes.len()
        invariant
            i <= prefixes.len(),
            prefixes@ == metric_prefix_table(),
            decls@.len() == i,
            forall|j: int|
                0 <= j < i ==> declared_with_prefix(*def, prefixes@[j], scale, #[trigger] decls@[j]),
        decreases prefixes.len() - i,
    {
        let decl = create_unit_prefix(def, &prefixes[i], &scale);
        decls.push(decl);
        i += 1;
    }
    Ok(decls)
}

} // verus!
