//! Products and quotients of units, such as `m/s` or `kg m s^-2`.

use crate::algebra::{
    absorb, absorbable, canonical, combinable, combined, combined_dimension, combined_power,
    dimension_of, lemma_absorb_canonical, lemma_absorb_dimension, lemma_absorb_single,
    lemma_combined_canonical, lemma_combined_dimension, lemma_combined_power,
    lemma_dimension_of_push, lemma_position, lemma_power_of_absent, lemma_power_of_canonical,
    lemma_power_of_present, position, position_from, power_of, product, quotient, raised,
    same_factors, scale_factor_of, Factor,
};
use crate::binary32::{Binary32, ONE_BITS};
use crate::display::{lemma_rendered_push, push_power, rendered, shown};
use crate::kind::{fits_i8, DynKind};
use crate::scale::ScaleExpr;
use crate::single::{SingleUnit, UnitKey};
use vstd::prelude::*;

verus! {

/// The factor that one entry of a composite unit stands for.
pub open spec fn factor_of(entry: (SingleUnit, i8)) -> Factor {
    Factor { unit: entry.0@, power: entry.1 as int }
}

/// The factors that the entries of a composite unit stand for.
pub open spec fn factors_of(entries: Seq<(SingleUnit, i8)>) -> Seq<Factor> {
    entries.map_values(|entry: (SingleUnit, i8)| factor_of(entry))
}

/// A product and quotient of units, held as units with their powers.
///
/// No unit occurs twice, no power is zero, and the dimension held beside
/// the factors is the one that they add up to.
#[derive(Debug)]
pub struct CompositeUnit {
    component_units: Vec<(SingleUnit, i8)>,
    kind: DynKind,
}

impl View for CompositeUnit {
    type V = Seq<Factor>;

    closed spec fn view(&self) -> Seq<Factor> {
        factors_of(self.component_units@)
    }
}

/// Where the unit stands among the entries, or their number where it does
/// not occur.
fn find(units: &Vec<(SingleUnit, i8)>, unit: &SingleUnit) -> (at: usize)
    ensures
        at == position(factors_of(units@), unit@.key()),
{
    let ghost s = factors_of(units@);
    let ghost k = unit@.key();
    let mut i: usize = 0;
    while i < units.len()
        invariant
            i <= units.len(),
            s == factors_of(units@),
            k == unit@.key(),
            position(s, k) == position_from(s, k, i as int),
        decreases units.len() - i,
    {
        if units[i].0.eq(unit) {
            return i;
        }
        i += 1;
    }
    i
}

/// Multiplies the entries by `unit` to the power `power`, unless the new
/// exponent of the unit does not fit eight bits.
fn absorb_into(units: &mut Vec<(SingleUnit, i8)>, unit: &SingleUnit, power: i16) -> (done: bool)
    requires
        -128 <= power <= 128,
        canonical(factors_of(old(units)@)),
    ensures
        done <==> fits_i8(power_of(factors_of(old(units)@), unit@.key()) + power),
        done ==> factors_of(final(units)@) == absorb(factors_of(old(units)@), unit@, power as int),
        !done ==> final(units)@ == old(units)@,
{
    let ghost s = factors_of(units@);
    proof {
        lemma_position(s, unit@.key());
        lemma_power_of_canonical(s, unit@.key());
    }
    let at = find(units, unit);
    if at < units.len() {
        let sum: i16 = units[at].1 as i16 + power;
        if sum < -128 || sum > 127 {
            return false;
        }
        if sum == 0 {
            units.remove(at);
            assert(factors_of(units@) =~= s.remove(at as int));
        } else {
            let same = units[at].0.clone();
            units.set(at, (same, sum as i8));
            assert(factors_of(units@) =~= s.update(
                at as int,
                Factor { unit: s[at as int].unit, power: sum as int },
            ));
        }
        true
    } else if power == 0 {
        true
    } else if power > 127 {
        false
    } else {
        units.push((unit.clone(), power as i8));
        assert(factors_of(units@) =~= s.push(Factor { unit: unit@, power: power as int }));
        true
    }
}

/// Writes out units with their powers, in their order and with one space
/// between each two; those with the power zero are left out.
pub fn render(units: &Vec<(SingleUnit, i8)>) -> (text: String)
    ensures
        text@ == rendered(factors_of(units@)),
{
    let ghost s = factors_of(units@);
    let mut text = String::new();
    let mut first = true;
    let mut i: usize = 0;
    assert(s.take(0) =~= Seq::<Factor>::empty());
    while i < units.len()
        invariant
            i <= units.len(),
            s == factors_of(units@),
            text@ == rendered(s.take(i as int)),
            first == (shown(s.take(i as int)).len() == 0),
        decreases units.len() - i,
    {
        let power = units[i].1;
        proof {
            assert(s.take(i + 1) =~= s.take(i as int).push(s[i as int]));
            lemma_rendered_push(s.take(i as int), s[i as int]);
        }
        if power != 0 {
            if !first {
                text.append(" ");
                proof {
                    reveal_strlit(" ");
                    assert(" "@ =~= seq![' ']);
                }
            }
            text.append(units[i].0.abbreviation());
            if power != 1 {
                text.append("^");
                proof {
                    reveal_strlit("^");
                    assert("^"@ =~= seq!['^']);
                }
                push_power(&mut text, power);
            }
            first = false;
            assert(text@ =~= rendered(s.take(i + 1)));
        }
        i += 1;
    }
    assert(s.take(i as int) =~= s);
    text
}

impl Clone for CompositeUnit {
    fn clone(&self) -> (copy: CompositeUnit)
        ensures
            copy@ == self@,
    {
        proof {
            use_type_invariant(self);
        }
        let mut units: Vec<(SingleUnit, i8)> = Vec::new();
        let mut i: usize = 0;
        while i < self.component_units.len()
            invariant
                i <= self.component_units.len(),
                factors_of(units@) == factors_of(self.component_units@).take(i as int),
            decreases self.component_units.len() - i,
        {
            let ghost before = factors_of(units@);
            units.push((self.component_units[i].0.clone(), self.component_units[i].1));
            assert(factors_of(units@) =~= before.push(factors_of(self.component_units@)[i as int]));
            i += 1;
            assert(factors_of(units@) =~= factors_of(self.component_units@).take(i as int));
        }
        assert(factors_of(self.component_units@).take(i as int) =~= factors_of(
            self.component_units@,
        ));
        CompositeUnit { component_units: units, kind: self.kind }
    }
}

impl CompositeUnit {
    #[verifier::type_invariant]
    spec fn well_formed(self) -> bool {
        &&& canonical(self@)
        &&& self.kind@ == dimension_of(self@)
    }

    /// The unit of a pure number: no factor at all.
    pub fn dimensionless() -> (unit: CompositeUnit)
        ensures
            unit@ == Seq::<Factor>::empty(),
    {
        let unit = CompositeUnit { component_units: Vec::new(), kind: DynKind::default() };
        assert(unit@ =~= Seq::<Factor>::empty());
        unit
    }

    /// A single unit as a composite unit: the unit to the power one.
    pub fn from(other: SingleUnit) -> (unit: CompositeUnit)
        ensures
            unit@ == seq![Factor { unit: other@, power: 1 }],
    {
        let kind = other.kind();
        let ghost f = Factor { unit: other@, power: 1 };
        let mut units: Vec<(SingleUnit, i8)> = Vec::new();
        units.push((other, 1));
        proof {
            assert(factors_of(units@) =~= seq![f]);
            assert(seq![f] =~= Seq::<Factor>::empty().push(f));
            lemma_dimension_of_push(Seq::<Factor>::empty(), f);
        }
        CompositeUnit { component_units: units, kind }
    }

    /// How many factors the unit has.
    pub fn len(&self) -> (n: usize)
        ensures
            n == self@.len(),
            canonical(self@),
    {
        proof {
            use_type_invariant(self);
        }
        self.component_units.len()
    }

    /// The factor at place `i`: its unit and its power, which is not zero.
    pub fn get(&self, i: usize) -> (factor: Option<(&SingleUnit, i8)>)
        ensures
            factor is Some <==> i < self@.len(),
            factor matches Some(f) ==> f.0@ == self@[i as int].unit && f.1 == self@[i as int].power
                && f.1 != 0,
    {
        proof {
            use_type_invariant(self);
        }
        if i < self.component_units.len() {
            assert(self@[i as int].power != 0);
            Some((&self.component_units[i].0, self.component_units[i].1))
        } else {
            None
        }
    }

    /// The dimension of the unit.
    pub fn kind(&self) -> (kind: DynKind)
        ensures
            kind@ == dimension_of(self@),
    {
        proof {
            use_type_invariant(self);
        }
        self.kind
    }

    /// Whether two units measure the same physical kind.
    pub fn same_dimension(&self, other: &CompositeUnit) -> (same: bool)
        ensures
            same == (dimension_of(self@) == dimension_of(other@)),
    {
        proof {
            use_type_invariant(self);
            use_type_invariant(other);
        }
        self.kind.eq(&other.kind)
    }

    /// Whether two units are written alike: the same units to the same
    /// powers in the same order.
    pub fn eq(&self, other: &CompositeUnit) -> (same: bool)
        ensures
            same == same_factors(self@, other@),
    {
        if self.component_units.len() != other.component_units.len() {
            return false;
        }
        let mut i: usize = 0;
        while i < self.component_units.len()
            invariant
                i <= self.component_units.len(),
                self.component_units.len() == other.component_units.len(),
                forall|j: int|
                    0 <= j < i ==> (#[trigger] self@[j]).unit.key() == other@[j].unit.key()
                        && self@[j].power == other@[j].power,
            decreases self.component_units.len() - i,
        {
            if !self.component_units[i].0.eq(&other.component_units[i].0)
                || self.component_units[i].1 != other.component_units[i].1 {
                assert(!(self@[i as int].unit.key() == other@[i as int].unit.key()
                    && self@[i as int].power == other@[i as int].power));
                return false;
            }
            i += 1;
        }
        true
    }

    /// How the unit is displayed, such as `kg m s^-2`.
    pub fn to_string(&self) -> (text: String)
        ensures
            text@ == rendered(self@),
    {
        render(&self.component_units)
    }

    /// The factor that converts a magnitude in this unit to one in the
    /// coherent SI unit of the same dimension, as the arithmetic that gives
    /// it: one, times the scale of each factor as often as its power says,
    /// or divided by it where the power is negative, in the order of the
    /// factors. In single precision the value depends on that order in its
    /// last digits, so a conversion there and back need not give the very
    /// number it started from.
    pub fn scale_factor(&self) -> (factor: ScaleExpr)
        ensures
            factor == scale_factor_of(self@),
    {
        let ghost s = self@;
        let mut factor = ScaleExpr::Value(Binary32::from_bits(ONE_BITS));
        let mut i: usize = 0;
        assert(s.take(0) =~= Seq::<Factor>::empty());
        while i < self.component_units.len()
            invariant
                i <= self.component_units.len(),
                s == self@,
                factor == scale_factor_of(s.take(i as int)),
            decreases self.component_units.len() - i,
        {
            let scale = self.component_units[i].0.scale();
            let power = self.component_units[i].1;
            let ghost base = factor;
            let mut n: i8 = 0;
            if power > 0 {
                while n < power
                    invariant
                        0 <= n <= power,
                        factor == raised(base, scale, n as int),
                    decreases power - n,
                {
                    factor = factor.times(ScaleExpr::Value(scale));
                    n += 1;
                }
            } else {
                while n > power
                    invariant
                        power <= n <= 0,
                        factor == raised(base, scale, n as int),
                    decreases n - power,
                {
                    factor = factor.over(ScaleExpr::Value(scale));
                    n -= 1;
                }
            }
            proof {
                assert(s.take(i + 1).drop_last() =~= s.take(i as int));
                assert(s.take(i + 1).last() == s[i as int]);
            }
            i += 1;
        }
        assert(s.take(i as int) =~= s);
        factor
    }

    /// The unit times `rhs` to the power one, where that can be held.
    pub fn checked_mul_unit(self, rhs: SingleUnit) -> (unit: Option<CompositeUnit>)
        ensures
            unit is Some <==> absorbable(self@, rhs@, 1),
            unit matches Some(u) ==> u@ == absorb(self@, rhs@, 1) && canonical(u@)
                && dimension_of(u@) == dimension_of(self@).plus(rhs@.kind),
    {
        self.checked_absorb(&rhs, 1)
    }

    /// The unit divided by `rhs`, where that can be held.
    pub fn checked_div_unit(self, rhs: SingleUnit) -> (unit: Option<CompositeUnit>)
        ensures
            unit is Some <==> absorbable(self@, rhs@, -1),
            unit matches Some(u) ==> u@ == absorb(self@, rhs@, -1) && canonical(u@)
                && dimension_of(u@) == dimension_of(self@).minus(rhs@.kind),
    {
        self.checked_absorb(&rhs, -1)
    }

    /// The unit times `rhs` to the power one: the power of `rhs` in it grows
    /// by one, and `rhs` leaves it where that power was minus one.
    pub fn mul_unit(self, rhs: SingleUnit) -> (unit: CompositeUnit)
        requires
            absorbable(self@, rhs@, 1),
        ensures
            unit@ == absorb(self@, rhs@, 1),
            canonical(unit@),
            dimension_of(unit@) == dimension_of(self@).plus(rhs@.kind),
    {
        self.checked_absorb(&rhs, 1).unwrap()
    }

    /// The unit divided by `rhs`: the power of `rhs` in it falls by one,
    /// and `rhs` leaves it where that power was one.
    pub fn div_unit(self, rhs: SingleUnit) -> (unit: CompositeUnit)
        requires
            absorbable(self@, rhs@, -1),
        ensures
            unit@ == absorb(self@, rhs@, -1),
            canonical(unit@),
            dimension_of(unit@) == dimension_of(self@).minus(rhs@.kind),
    {
        self.checked_absorb(&rhs, -1).unwrap()
    }

    /// The product of two composite units, where it can be held.
    pub fn checked_mul(self, rhs: CompositeUnit) -> (unit: Option<CompositeUnit>)
        ensures
            unit is Some <==> combinable(self@, rhs@, false),
            unit matches Some(u) ==> u@ == product(self@, rhs@) && canonical(u@) && dimension_of(
                u@,
            ) == dimension_of(self@).plus(dimension_of(rhs@)),
    {
        self.checked_combine(&rhs, false)
    }

    /// The quotient of two composite units, where it can be held.
    pub fn checked_div(self, rhs: CompositeUnit) -> (unit: Option<CompositeUnit>)
        ensures
            unit is Some <==> combinable(self@, rhs@, true),
            unit matches Some(u) ==> u@ == quotient(self@, rhs@) && canonical(u@) && dimension_of(
                u@,
            ) == dimension_of(self@).minus(dimension_of(rhs@)),
    {
        self.checked_combine(&rhs, true)
    }

    /// The product of two composite units: every factor of `rhs` is
    /// looked up in `self`; where its unit occurs the powers are added, and
    /// the factor leaves where they add up to zero; where it does not, the
    /// factor is appended.
    pub fn mul(self, rhs: CompositeUnit) -> (unit: CompositeUnit)
        requires
            combinable(self@, rhs@, false),
        ensures
            unit@ == product(self@, rhs@),
            canonical(unit@),
            dimension_of(unit@) == dimension_of(self@).plus(dimension_of(rhs@)),
    {
        self.checked_combine(&rhs, false).unwrap()
    }

    /// The quotient of two composite units: their product with the powers
    /// of `rhs` negated.
    pub fn div(self, rhs: CompositeUnit) -> (unit: CompositeUnit)
        requires
            combinable(self@, rhs@, true),
        ensures
            unit@ == quotient(self@, rhs@),
            canonical(unit@),
            dimension_of(unit@) == dimension_of(self@).minus(dimension_of(rhs@)),
    {
        self.checked_combine(&rhs, true).unwrap()
    }

    fn checked_combine(self, rhs: &CompositeUnit, invert: bool) -> (unit: Option<CompositeUnit>)
        ensures
            unit is Some <==> combinable(self@, rhs@, invert),
            unit matches Some(u) ==> u@ == combined(self@, rhs@, invert) && canonical(u@)
                && dimension_of(u@) == combined_dimension(self@, rhs@, invert),
    {
        proof {
            use_type_invariant(&self);
            use_type_invariant(rhs);
        }
        let ghost a = self@;
        let ghost b = rhs@;
        let kind = if invert {
            self.kind.checked_sub(rhs.kind)
        } else {
            self.kind.checked_add(rhs.kind)
        };
        let kind = match kind {
            Some(kind) => kind,
            None => {
                return None;
            },
        };
        let CompositeUnit { component_units: mut units, kind: _ } = self;
        let mut j: usize = 0;
        while j < rhs.component_units.len()
            invariant
                j <= rhs.component_units.len(),
                a == self@,
                b == rhs@,
                b == factors_of(rhs.component_units@),
                canonical(a),
                canonical(b),
                factors_of(units@) == combined(a, b.take(j as int), invert),
            decreases rhs.component_units.len() - j,
        {
            let power: i16 = if invert {
                -(rhs.component_units[j].1 as i16)
            } else {
                rhs.component_units[j].1 as i16
            };
            let ghost k = b[j as int].unit.key();
            let ghost front = b.take(j as int);
            proof {
                lemma_combined_canonical(a, front, invert);
                assert(b.take(j + 1).drop_last() =~= front);
                assert(b.take(j + 1).last() == b[j as int]);
            }
            let done = absorb_into(&mut units, &rhs.component_units[j].0, power);
            if !done {
                proof {
                    lemma_combined_power(a, front, invert, k);
                    assert forall|i: int| 0 <= i < front.len() implies (#[trigger] front[i]).unit.key()
                        != k by {
                        assert(front[i] == b[i]);
                    }
                    lemma_power_of_absent(front, k);
                    lemma_power_of_present(b, j as int);
                    assert(!fits_i8(combined_power(a, b, invert, k)));
                }
                return None;
            }
            j += 1;
        }
        proof {
            assert(b.take(j as int) =~= b);
            let r = factors_of(units@);
            lemma_combined_canonical(a, b, invert);
            lemma_combined_dimension(a, b, invert);
            assert forall|k: UnitKey| fits_i8(#[trigger] combined_power(a, b, invert, k)) by {
                lemma_combined_power(a, b, invert, k);
                lemma_power_of_canonical(r, k);
                lemma_position(r, k);
            }
        }
        Some(CompositeUnit { component_units: units, kind })
    }

    fn checked_absorb(self, rhs: &SingleUnit, power: i8) -> (unit: Option<CompositeUnit>)
        requires
            power == 1 || power == -1,
        ensures
            unit is Some <==> absorbable(self@, rhs@, power as int),
            unit matches Some(u) ==> u@ == absorb(self@, rhs@, power as int) && canonical(u@)
                && dimension_of(u@) == dimension_of(self@).plus(rhs@.kind.times(power as int)),
    {
        proof {
            use_type_invariant(&self);
            lemma_absorb_canonical(self@, rhs@, power as int);
            lemma_absorb_dimension(self@, rhs@, power as int);
        }
        let kind = if power == 1 {
            self.kind.checked_add(rhs.kind())
        } else {
            self.kind.checked_sub(rhs.kind())
        };
        let CompositeUnit { component_units: mut units, kind: _ } = self;
        match kind {
            Some(kind) => {
                if absorb_into(&mut units, rhs, power as i16) {
                    Some(CompositeUnit { component_units: units, kind })
                } else {
                    None
                }
            },
            None => None,
        }
    }
}

impl SingleUnit {
    /// The product of two single units: the unit squared where they are
    /// the same unit, else one behind the other.
    pub fn mul(self, rhs: SingleUnit) -> (unit: CompositeUnit)
        requires
            absorbable(seq![Factor { unit: self@, power: 1 }], rhs@, 1),
        ensures
            unit@ == absorb(seq![Factor { unit: self@, power: 1 }], rhs@, 1),
            unit@ == (if self@.key() == rhs@.key() {
                seq![Factor { unit: self@, power: 2 }]
            } else {
                seq![Factor { unit: self@, power: 1 }, Factor { unit: rhs@, power: 1 }]
            }),
    {
        proof {
            lemma_absorb_single(self@, rhs@, 1);
        }
        CompositeUnit::from(self).mul_unit(rhs)
    }

    /// The quotient of two single units: the unit of a pure number where
    /// they are the same unit, else the first over the second.
    pub fn div(self, rhs: SingleUnit) -> (unit: CompositeUnit)
        requires
            absorbable(seq![Factor { unit: self@, power: 1 }], rhs@, -1),
        ensures
            unit@ == absorb(seq![Factor { unit: self@, power: 1 }], rhs@, -1),
            unit@ == (if self@.key() == rhs@.key() {
                Seq::<Factor>::empty()
            } else {
                seq![Factor { unit: self@, power: 1 }, Factor { unit: rhs@, power: -1 }]
            }),
    {
        proof {
            lemma_absorb_single(self@, rhs@, -1);
        }
        CompositeUnit::from(self).div_unit(rhs)
    }
}

} // verus!
