//! The dimension of a unit: one exponent for each SI base dimension.

use vstd::prelude::*;

verus! {

/// A dimension as mathematics sees it: seven unbounded exponents.
pub struct Dimension {
    pub length: int,
    pub mass: int,
    pub time: int,
    pub current: int,
    pub temperature: int,
    pub amount: int,
    pub luminosity: int,
}

pub open spec fn fits_i8(n: int) -> bool {
    i8::MIN <= n <= i8::MAX
}

impl Dimension {
    /// The dimension of a pure number.
    pub open spec fn zero() -> Dimension {
        Dimension {
            length: 0,
            mass: 0,
            time: 0,
            current: 0,
            temperature: 0,
            amount: 0,
            luminosity: 0,
        }
    }

    /// The dimension of a product of units.
    pub open spec fn plus(self, other: Dimension) -> Dimension {
        Dimension {
            length: self.length + other.length,
            mass: self.mass + other.mass,
            time: self.time + other.time,
            current: self.current + other.current,
            temperature: self.temperature + other.temperature,
            amount: self.amount + other.amount,
            luminosity: self.luminosity + other.luminosity,
        }
    }

    /// The dimension of a quotient of units.
    pub open spec fn minus(self, other: Dimension) -> Dimension {
        Dimension {
            length: self.length - other.length,
            mass: self.mass - other.mass,
            time: self.time - other.time,
            current: self.current - other.current,
            temperature: self.temperature - other.temperature,
            amount: self.amount - other.amount,
            luminosity: self.luminosity - other.luminosity,
        }
    }

    /// The dimension of a unit raised to the power `n`.
    pub open spec fn times(self, n: int) -> Dimension {
        Dimension {
            length: self.length * n,
            mass: self.mass * n,
            time: self.time * n,
            current: self.current * n,
            temperature: self.temperature * n,
            amount: self.amount * n,
            luminosity: self.luminosity * n,
        }
    }

    /// Every exponent fits the eight bits of a `DynKind` field.
    pub open spec fn representable(self) -> bool {
        &&& fits_i8(self.length)
        &&& fits_i8(self.mass)
        &&& fits_i8(self.time)
        &&& fits_i8(self.current)
        &&& fits_i8(self.temperature)
        &&& fits_i8(self.amount)
        &&& fits_i8(self.luminosity)
    }
}

/// A dimension as a program holds it.
#[derive(Clone, Copy, Debug, PartialEq, Eq, Structural)]
pub struct DynKind {
    pub length: i8,
    pub mass: i8,
    pub time: i8,
    pub current: i8,
    pub temperature: i8,
    pub amount: i8,
    pub luminosity: i8,
}

impl View for DynKind {
    type V = Dimension;

    open spec fn view(&self) -> Dimension {
        Dimension {
            length: self.length as int,
            mass: self.mass as int,
            time: self.time as int,
            current: self.current as int,
            temperature: self.temperature as int,
            amount: self.amount as int,
            luminosity: self.luminosity as int,
        }
    }
}

impl Default for DynKind {
    fn default() -> (kind: DynKind)
        ensures
            kind@ == Dimension::zero(),
    {
        DynKind {
            length: 0,
            mass: 0,
            time: 0,
            current: 0,
            temperature: 0,
            amount: 0,
            luminosity: 0,
        }
    }
}

/// `a + b` where it fits eight bits.
fn checked_sum(a: i8, b: i8) -> (sum: Option<i8>)
    ensures
        sum is Some <==> fits_i8(a + b),
        sum matches Some(s) ==> s == a + b,
{
    let wide: i16 = a as i16 + b as i16;
    if -128 <= wide && wide <= 127 {
        Some(wide as i8)
    } else {
        None
    }
}

/// `a - b` where it fits eight bits.
fn checked_difference(a: i8, b: i8) -> (difference: Option<i8>)
    ensures
        difference is Some <==> fits_i8(a - b),
        difference matches Some(d) ==> d == a - b,
{
    let wide: i16 = a as i16 - b as i16;
    if -128 <= wide && wide <= 127 {
        Some(wide as i8)
    } else {
        None
    }
}

impl DynKind {
    /// The dimension of the product of two units, where every exponent of it
    /// fits eight bits.
    pub fn checked_add(self, rhs: DynKind) -> (sum: Option<DynKind>)
        ensures
            sum is Some <==> self@.plus(rhs@).representable(),
            sum matches Some(kind) ==> kind@ == self@.plus(rhs@),
    {
        let length = checked_sum(self.length, rhs.length);
        let mass = checked_sum(self.mass, rhs.mass);
        let time = checked_sum(self.time, rhs.time);
        let current = checked_sum(self.current, rhs.current);
        let temperature = checked_sum(self.temperature, rhs.temperature);
        let amount = checked_sum(self.amount, rhs.amount);
        let luminosity = checked_sum(self.luminosity, rhs.luminosity);
        match (length, mass, time, current, temperature, amount, luminosity) {
            (
                Some(length),
                Some(mass),
                Some(time),
                Some(current),
                Some(temperature),
                Some(amount),
                Some(luminosity),
            ) => Some(DynKind { length, mass, time, current, temperature, amount, luminosity }),
            _ => None,
        }
    }

    /// The dimension of the quotient of two units, where every exponent of
    /// it fits eight bits.
    pub fn checked_sub(self, rhs: DynKind) -> (difference: Option<DynKind>)
        ensures
            difference is Some <==> self@.minus(rhs@).representable(),
            difference matches Some(kind) ==> kind@ == self@.minus(rhs@),
    {
        let length = checked_difference(self.length, rhs.length);
        let mass = checked_difference(self.mass, rhs.mass);
        let time = checked_difference(self.time, rhs.time);
        let current = checked_difference(self.current, rhs.current);
        let temperature = checked_difference(self.temperature, rhs.temperature);
        let amount = checked_difference(self.amount, rhs.amount);
        let luminosity = checked_difference(self.luminosity, rhs.luminosity);
        match (length, mass, time, current, temperature, amount, luminosity) {
            (
                Some(length),
                Some(mass),
                Some(time),
                Some(current),
                Some(temperature),
                Some(amount),
                Some(luminosity),
            ) => Some(DynKind { length, mass, time, current, temperature, amount, luminosity }),
            _ => None,
        }
    }

    /// The dimension of the product of two units.
    pub fn add(self, rhs: DynKind) -> (sum: DynKind)
        requires
            self@.plus(rhs@).representable(),
        ensures
            sum@ == self@.plus(rhs@),
    {
        DynKind {
            length: self.length + rhs.length,
            mass: self.mass + rhs.mass,
            time: self.time + rhs.time,
            current: self.current + rhs.current,
            temperature: self.temperature + rhs.temperature,
            amount: self.amount + rhs.amount,
            luminosity: self.luminosity + rhs.luminosity,
        }
    }

    /// The dimension of the quotient of two units.
    pub fn sub(self, rhs: DynKind) -> (difference: DynKind)
        requires
            self@.minus(rhs@).representable(),
        ensures
            difference@ == self@.minus(rhs@),
    {
        DynKind {
            length: self.length - rhs.length,
            mass: self.mass - rhs.mass,
            time: self.time - rhs.time,
            current: self.current - rhs.current,
            temperature: self.temperature - rhs.temperature,
            amount: self.amount - rhs.amount,
            luminosity: self.luminosity - rhs.luminosity,
        }
    }

    /// Whether two dimensions are the same: all seven exponents agree.
    pub fn eq(&self, other: &DynKind) -> (same: bool)
        ensures
            same == (self@ == other@),
    {
        self.length == other.length && self.mass == other.mass && self.time == other.time
            && self.current == other.current && self.temperature == other.temperature
            && self.amount == other.amount && self.luminosity == other.luminosity
    }
}

/// A type that stands for a dimension, so that the dimension of a unit can
/// be part of its type.
pub trait UnitKind {
    /// The dimension that the type stands for. An impl says in its own
    /// `ensures` which one that is.
    fn to_dynkind() -> DynKind;
}

#[derive(Clone, Copy, Debug, Default, PartialEq, Eq)]
pub struct Length;

#[derive(Clone, Copy, Debug, Default, PartialEq, Eq)]
pub struct Mass;

#[derive(Clone, Copy, Debug, Default, PartialEq, Eq)]
pub struct Time;

#[derive(Clone, Copy, Debug, Default, PartialEq, Eq)]
pub struct Current;

#[derive(Clone, Copy, Debug, Default, PartialEq, Eq)]
pub struct Temperature;

#[derive(Clone, Copy, Debug, Default, PartialEq, Eq)]
pub struct Amount;

#[derive(Clone, Copy, Debug, Default, PartialEq, Eq)]
pub struct Luminosity;

impl UnitKind for Length {
    fn to_dynkind() -> (kind: DynKind)
        ensures
            kind@ == (Dimension { length: 1, ..Dimension::zero() }),
    {
        DynKind { length: 1, ..DynKind::default() }
    }
}

impl UnitKind for Mass {
    fn to_dynkind() -> (kind: DynKind)
        ensures
            kind@ == (Dimension { mass: 1, ..Dimension::zero() }),
    {
        DynKind { mass: 1, ..DynKind::default() }
    }
}

impl UnitKind for Time {
    fn to_dynkind() -> (kind: DynKind)
        ensures
            kind@ == (Dimension { time: 1, ..Dimension::zero() }),
    {
        DynKind { time: 1, ..DynKind::default() }
    }
}

impl UnitKind for Current {
    fn to_dynkind() -> (kind: DynKind)
        ensures
            kind@ == (Dimension { current: 1, ..Dimension::zero() }),
    {
        DynKind { current: 1, ..DynKind::default() }
    }
}

impl UnitKind for Temperature {
    fn to_dynkind() -> (kind: DynKind)
        ensures
            kind@ == (Dimension { temperature: 1, ..Dimension::zero() }),
    {
        DynKind { temperature: 1, ..DynKind::default() }
    }
}

impl UnitKind for Amount {
    fn to_dynkind() -> (kind: DynKind)
        ensures
            kind@ == (Dimension { amount: 1, ..Dimension::zero() }),
    {
        DynKind { amount: 1, ..DynKind::default() }
    }
}

impl UnitKind for Luminosity {
    fn to_dynkind() -> (kind: DynKind)
        ensures
            kind@ == (Dimension { luminosity: 1, ..Dimension::zero() }),
    {
        DynKind { luminosity: 1, ..DynKind::default() }
    }
}

} // verus!
