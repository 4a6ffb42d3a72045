//! The algebra of composite units, over sequences of factors.
//!
//! A composite unit is a product of unit terms raised to integer powers.
//! Here it is a sequence of factors; what it denotes is the exponent that
//! it gives to every unit ([`power_of`]), and its order is the order in which
//! it is displayed.

use crate::binary32::Binary32;
use crate::kind::{fits_i8, Dimension};
use crate::scale::ScaleExpr;
use crate::single::{UnitKey, UnitTerm};
use vstd::prelude::*;

verus! {

/// One unit raised to a power.
pub struct Factor {
    pub unit: UnitTerm,
    pub power: int,
}

/// What the factor `f` adds to the exponent of the unit `k`.
pub open spec fn contribution(f: Factor, k: UnitKey) -> int {
    if f.unit.key() == k {
        f.power
    } else {
        0
    }
}

/// The exponent that the factors `s` give to the unit `k`: zero where the
/// unit does not occur.
pub open spec fn power_of(s: Seq<Factor>, k: UnitKey) -> int
    decreases s.len(),
{
    if s.len() == 0 {
        0
    } else {
        power_of(s.drop_last(), k) + contribution(s.last(), k)
    }
}

/// The dimension of one factor.
pub open spec fn factor_dimension(f: Factor) -> Dimension {
    f.unit.kind.times(f.power)
}

/// The dimension of a composite unit: the sum, over its factors, of the
/// unit's dimension times its power.
pub open spec fn dimension_of(s: Seq<Factor>) -> Dimension
    decreases s.len(),
{
    if s.len() == 0 {
        Dimension::zero()
    } else {
        dimension_of(s.drop_last()).plus(factor_dimension(s.last()))
    }
}

/// No unit occurs twice and no power is zero.
pub open spec fn canonical(s: Seq<Factor>) -> bool {
    &&& forall|i: int| 0 <= i < s.len() ==> (#[trigger] s[i]).power != 0
    &&& forall|i: int, j: int|
        0 <= i < j < s.len() ==> (#[trigger] s[i]).unit.key() != (#[trigger] s[j]).unit.key()
}

/// The first place at or after `start` where the unit `k` stands in `s`, or
/// the length of `s` where there is none.
pub open spec fn position_from(s: Seq<Factor>, k: UnitKey, start: int) -> int
    decreases s.len() - start,
{
    if start < 0 || start >= s.len() {
        s.len() as int
    } else if s[start].unit.key() == k {
        start
    } else {
        position_from(s, k, start + 1)
    }
}

/// The first place where the unit `k` stands in `s`, or the length of `s`
/// where it does not occur.
pub open spec fn position(s: Seq<Factor>, k: UnitKey) -> int {
    position_from(s, k, 0)
}

/// The factors `s` times `unit` to the power `power`: where the unit
/// occurs, its power grows by `power`, and the factor leaves if that makes
/// its power zero; where it does not, the new factor comes last.
pub open spec fn absorb(s: Seq<Factor>, unit: UnitTerm, power: int) -> Seq<Factor> {
    let at = position(s, unit.key());
    if at < s.len() {
        let sum = s[at].power + power;
        if sum == 0 {
            s.remove(at)
        } else {
            s.update(at, Factor { unit: s[at].unit, power: sum })
        }
    } else if power == 0 {
        s
    } else {
        s.push(Factor { unit, power })
    }
}

/// `power`, or its negative for a division.
pub open spec fn signed(power: int, invert: bool) -> int {
    if invert {
        -power
    } else {
        power
    }
}

/// `a` with every factor of `b` absorbed in turn, the powers of `b` negated
/// where `invert` is set.
pub open spec fn combined(a: Seq<Factor>, b: Seq<Factor>, invert: bool) -> Seq<Factor>
    decreases b.len(),
{
    if b.len() == 0 {
        a
    } else {
        absorb(combined(a, b.drop_last(), invert), b.last().unit, signed(b.last().power, invert))
    }
}

/// The product of two composite units.
pub open spec fn product(a: Seq<Factor>, b: Seq<Factor>) -> Seq<Factor> {
    combined(a, b, false)
}

/// The quotient of two composite units.
pub open spec fn quotient(a: Seq<Factor>, b: Seq<Factor>) -> Seq<Factor> {
    combined(a, b, true)
}

/// The exponent that the unit `k` has in `a` combined with `b`.
pub open spec fn combined_power(a: Seq<Factor>, b: Seq<Factor>, invert: bool, k: UnitKey) -> int {
    power_of(a, k) + signed(power_of(b, k), invert)
}

/// The dimension of `a` combined with `b`.
pub open spec fn combined_dimension(a: Seq<Factor>, b: Seq<Factor>, invert: bool) -> Dimension {
    if invert {
        dimension_of(a).minus(dimension_of(b))
    } else {
        dimension_of(a).plus(dimension_of(b))
    }
}

/// Whether `s` times `unit` to the power `power` can be held: the new
/// exponent of the unit and the new dimension fit eight bits each.
pub open spec fn absorbable(s: Seq<Factor>, unit: UnitTerm, power: int) -> bool {
    &&& fits_i8(power_of(s, unit.key()) + power)
    &&& dimension_of(s).plus(unit.kind.times(power)).representable()
}

/// Whether `a` combined with `b` can be held: every exponent of the result
/// and its dimension fit eight bits each.
pub open spec fn combinable(a: Seq<Factor>, b: Seq<Factor>, invert: bool) -> bool {
    &&& combined_dimension(a, b, invert).representable()
    &&& forall|k: UnitKey| fits_i8(#[trigger] combined_power(a, b, invert, k))
}

/// `acc` multiplied `power` times by `scale`, or, where `power` is
/// negative, divided that many times by it.
pub open spec fn raised(acc: ScaleExpr, scale: Binary32, power: int) -> ScaleExpr
    decreases
            (if power >= 0 {
                power
            } else {
                -power
            }),
{
    if power > 0 {
        raised(acc, scale, power - 1).times(ScaleExpr::Value(scale))
    } else if power < 0 {
        raised(acc, scale, power + 1).over(ScaleExpr::Value(scale))
    } else {
        acc
    }
}

/// The factor that converts a composite unit to the coherent SI unit of
/// its dimension: one, multiplied or divided in turn by the scale of each
/// factor as often as its power says.
pub open spec fn scale_factor_of(s: Seq<Factor>) -> ScaleExpr
    decreases s.len(),
{
    if s.len() == 0 {
        ScaleExpr::Value(Binary32::one())
    } else {
        raised(scale_factor_of(s.drop_last()), s.last().unit.scale, s.last().power)
    }
}

/// Whether two composite units are written with the same units to the same
/// powers in the same order.
pub open spec fn same_factors(a: Seq<Factor>, b: Seq<Factor>) -> bool {
    &&& a.len() == b.len()
    &&& forall|i: int|
        0 <= i < a.len() ==> (#[trigger] a[i]).unit.key() == b[i].unit.key() && a[i].power
            == b[i].power
}

// Sums over a sequence that changes in one place.

pub proof fn lemma_power_of_push(s: Seq<Factor>, f: Factor, k: UnitKey)
    ensures
        power_of(s.push(f), k) == power_of(s, k) + contribution(f, k),
{
    assert(s.push(f).drop_last() =~= s);
}

pub proof fn lemma_power_of_update(s: Seq<Factor>, i: int, f: Factor, k: UnitKey)
    requires
        0 <= i < s.len(),
    ensures
        power_of(s.update(i, f), k) == power_of(s, k) - contribution(s[i], k) + contribution(f, k),
    decreases s.len(),
{
    if i == s.len() - 1 {
        assert(s.update(i, f).drop_last() =~= s.drop_last());
    } else {
        assert(s.update(i, f).drop_last() =~= s.drop_last().update(i, f));
        lemma_power_of_update(s.drop_last(), i, f, k);
    }
}

pub proof fn lemma_power_of_remove(s: Seq<Factor>, i: int, k: UnitKey)
    requires
        0 <= i < s.len(),
    ensures
        power_of(s.remove(i), k) == power_of(s, k) - contribution(s[i], k),
    decreases s.len(),
{
    if i == s.len() - 1 {
        assert(s.remove(i) =~= s.drop_last());
    } else {
        assert(s.remove(i).drop_last() =~= s.drop_last().remove(i));
        assert(s.remove(i).last() == s.last());
        lemma_power_of_remove(s.drop_last(), i, k);
    }
}

pub proof fn lemma_dimension_of_push(s: Seq<Factor>, f: Factor)
    ensures
        dimension_of(s.push(f)) == dimension_of(s).plus(factor_dimension(f)),
{
    assert(s.push(f).drop_last() =~= s);
}

pub proof fn lemma_dimension_of_update(s: Seq<Factor>, i: int, f: Factor)
    requires
        0 <= i < s.len(),
    ensures
        dimension_of(s.update(i, f)) == dimension_of(s).minus(factor_dimension(s[i])).plus(
            factor_dimension(f),
        ),
    decreases s.len(),
{
    if i == s.len() - 1 {
        assert(s.update(i, f).drop_last() =~= s.drop_last());
    } else {
        assert(s.update(i, f).drop_last() =~= s.drop_last().update(i, f));
        lemma_dimension_of_update(s.drop_last(), i, f);
    }
}

pub proof fn lemma_dimension_of_remove(s: Seq<Factor>, i: int)
    requires
        0 <= i < s.len(),
    ensures
        dimension_of(s.remove(i)) == dimension_of(s).minus(factor_dimension(s[i])),
    decreases s.len(),
{
    if i == s.len() - 1 {
        assert(s.remove(i) =~= s.drop_last());
    } else {
        assert(s.remove(i).drop_last() =~= s.drop_last().remove(i));
        assert(s.remove(i).last() == s.last());
        lemma_dimension_of_remove(s.drop_last(), i);
    }
}

/// A dimension times a sum is the sum of the dimension times each part.
pub proof fn lemma_times_distributes(d: Dimension, m: int, n: int)
    ensures
        d.times(m + n) == d.times(m).plus(d.times(n)),
{
    assert(d.length * (m + n) == d.length * m + d.length * n) by (nonlinear_arith);
    assert(d.mass * (m + n) == d.mass * m + d.mass * n) by (nonlinear_arith);
    assert(d.time * (m + n) == d.time * m + d.time * n) by (nonlinear_arith);
    assert(d.current * (m + n) == d.current * m + d.current * n) by (nonlinear_arith);
    assert(d.temperature * (m + n) == d.temperature * m + d.temperature * n) by (nonlinear_arith);
    assert(d.amount * (m + n) == d.amount * m + d.amount * n) by (nonlinear_arith);
    assert(d.luminosity * (m + n) == d.luminosity * m + d.luminosity * n) by (nonlinear_arith);
}

/// A dimension times a negated power is the negative of the dimension
/// times the power.
pub proof fn lemma_times_negated(d: Dimension, n: int)
    ensures
        d.times(-n) == Dimension::zero().minus(d.times(n)),
{
    assert(d.length * (-n) == -(d.length * n)) by (nonlinear_arith);
    assert(d.mass * (-n) == -(d.mass * n)) by (nonlinear_arith);
    assert(d.time * (-n) == -(d.time * n)) by (nonlinear_arith);
    assert(d.current * (-n) == -(d.current * n)) by (nonlinear_arith);
    assert(d.temperature * (-n) == -(d.temperature * n)) by (nonlinear_arith);
    assert(d.amount * (-n) == -(d.amount * n)) by (nonlinear_arith);
    assert(d.luminosity * (-n) == -(d.luminosity * n)) by (nonlinear_arith);
}

// Where a unit stands.

/// What `position_from` finds.
pub proof fn lemma_position_from(s: Seq<Factor>, k: UnitKey, start: int)
    requires
        0 <= start <= s.len(),
    ensures
        start <= position_from(s, k, start) <= s.len(),
        position_from(s, k, start) < s.len() ==> s[position_from(s, k, start)].unit.key() == k,
        forall|j: int| start <= j < position_from(s, k, start) ==> (#[trigger] s[j]).unit.key() != k,
    decreases s.len() - start,
{
    if start < s.len() && s[start].unit.key() != k {
        lemma_position_from(s, k, start + 1);
    }
}

/// What `position` finds: the first factor of the unit, or nothing.
pub proof fn lemma_position(s: Seq<Factor>, k: UnitKey)
    ensures
        0 <= position(s, k) <= s.len(),
        position(s, k) < s.len() ==> s[position(s, k)].unit.key() == k,
        forall|j: int| 0 <= j < position(s, k) ==> (#[trigger] s[j]).unit.key() != k,
{
    lemma_position_from(s, k, 0);
}

/// A unit that stands nowhere in `s` has the exponent zero.
pub proof fn lemma_power_of_absent(s: Seq<Factor>, k: UnitKey)
    requires
        forall|j: int| 0 <= j < s.len() ==> (#[trigger] s[j]).unit.key() != k,
    ensures
        power_of(s, k) == 0,
    decreases s.len(),
{
    if s.len() > 0 {
        assert(s.last() == s[s.len() - 1]);
        assert forall|j: int| 0 <= j < s.drop_last().len() implies (#[trigger] s.drop_last()[j]).unit.key()
            != k by {
            assert(s.drop_last()[j] == s[j]);
        }
        lemma_power_of_absent(s.drop_last(), k);
    }
}

/// In a canonical sequence the exponent of a unit that occurs is the power
/// of its one factor.
pub proof fn lemma_power_of_present(s: Seq<Factor>, i: int)
    requires
        canonical(s),
        0 <= i < s.len(),
    ensures
        power_of(s, s[i].unit.key()) == s[i].power,
    decreases s.len(),
{
    let k = s[i].unit.key();
    let front = s.drop_last();
    assert(s.last() == s[s.len() - 1]);
    if i == s.len() - 1 {
        assert forall|j: int| 0 <= j < front.len() implies (#[trigger] front[j]).unit.key() != k by {
            assert(front[j] == s[j]);
        }
        lemma_power_of_absent(front, k);
    } else {
        assert(canonical(front)) by {
            assert forall|a: int| 0 <= a < front.len() implies (#[trigger] front[a]).power != 0 by {
                assert(front[a] == s[a]);
            }
            assert forall|a: int, b: int| 0 <= a < b < front.len() implies (#[trigger] front[a]).unit.key()
                != (#[trigger] front[b]).unit.key() by {
                assert(front[a] == s[a]);
                assert(front[b] == s[b]);
            }
        }
        assert(front[i] == s[i]);
        lemma_power_of_present(front, i);
    }
}

/// In a canonical sequence every exponent is zero or the power of a
/// factor.
pub proof fn lemma_power_of_canonical(s: Seq<Factor>, k: UnitKey)
    requires
        canonical(s),
    ensures
        position(s, k) < s.len() ==> power_of(s, k) == s[position(s, k)].power,
        position(s, k) >= s.len() ==> power_of(s, k) == 0,
{
    lemma_position(s, k);
    if position(s, k) < s.len() {
        lemma_power_of_present(s, position(s, k));
    } else {
        lemma_power_of_absent(s, k);
    }
}

// One factor absorbed.

/// Absorbing a factor adds its power to the exponent of its unit and
/// leaves every other exponent as it was.
pub proof fn lemma_absorb_power(s: Seq<Factor>, unit: UnitTerm, power: int, k: UnitKey)
    ensures
        power_of(absorb(s, unit, power), k) == power_of(s, k) + (if k == unit.key() {
            power
        } else {
            0
        }),
{
    let at = position(s, unit.key());
    lemma_position(s, unit.key());
    if at < s.len() {
        let sum = s[at].power + power;
        if sum == 0 {
            lemma_power_of_remove(s, at, k);
        } else {
            lemma_power_of_update(s, at, Factor { unit: s[at].unit, power: sum }, k);
        }
    } else if power != 0 {
        lemma_power_of_push(s, Factor { unit, power }, k);
    }
}

/// Absorbing a factor keeps a sequence canonical.
pub proof fn lemma_absorb_canonical(s: Seq<Factor>, unit: UnitTerm, power: int)
    requires
        canonical(s),
    ensures
        canonical(absorb(s, unit, power)),
{
    let at = position(s, unit.key());
    let r = absorb(s, unit, power);
    lemma_position(s, unit.key());
    if at < s.len() {
        let sum = s[at].power + power;
        if sum == 0 {
            assert forall|i: int| 0 <= i < r.len() implies (#[trigger] r[i]).power != 0 by {
                if i < at {
                    assert(r[i] == s[i]);
                } else {
                    assert(r[i] == s[i + 1]);
                }
            }
            assert forall|i: int, j: int| 0 <= i < j < r.len() implies (#[trigger] r[i]).unit.key() != (
            #[trigger] r[j]).unit.key() by {
                let si = if i < at {
                    i
                } else {
                    i + 1
                };
                let sj = if j < at {
                    j
                } else {
                    j + 1
                };
                assert(r[i] == s[si]);
                assert(r[j] == s[sj]);
            }
        } else {
            assert forall|i: int| 0 <= i < r.len() implies (#[trigger] r[i]).power != 0 by {
                if i != at {
                    assert(r[i] == s[i]);
                }
            }
            assert forall|i: int, j: int| 0 <= i < j < r.len() implies (#[trigger] r[i]).unit.key() != (
            #[trigger] r[j]).unit.key() by {
                assert(r[i].unit == s[i].unit);
                assert(r[j].unit == s[j].unit);
            }
        }
    } else if power != 0 {
        assert forall|i: int| 0 <= i < r.len() implies (#[trigger] r[i]).power != 0 by {
            if i < s.len() {
                assert(r[i] == s[i]);
            }
        }
        assert forall|i: int, j: int| 0 <= i < j < r.len() implies (#[trigger] r[i]).unit.key() != (
        #[trigger] r[j]).unit.key() by {
            assert(r[i] == s[i]);
            if j < s.len() {
                assert(r[j] == s[j]);
            }
        }
    }
}

/// Absorbing a factor adds its dimension.
pub proof fn lemma_absorb_dimension(s: Seq<Factor>, unit: UnitTerm, power: int)
    ensures
        dimension_of(absorb(s, unit, power)) == dimension_of(s).plus(unit.kind.times(power)),
{
    let at = position(s, unit.key());
    lemma_position(s, unit.key());
    if at < s.len() {
        let sum = s[at].power + power;
        let kind = s[at].unit.kind;
        assert(kind == unit.kind);
        lemma_times_distributes(kind, s[at].power, power);
        if sum == 0 {
            lemma_dimension_of_remove(s, at);
            assert(kind.times(0) == Dimension::zero());
        } else {
            lemma_dimension_of_update(s, at, Factor { unit: s[at].unit, power: sum });
        }
    } else if power != 0 {
        lemma_dimension_of_push(s, Factor { unit, power });
    } else {
        assert(unit.kind.times(0) == Dimension::zero());
    }
}

/// What a single unit becomes when it absorbs a factor: with the same unit
/// the powers are added, and nothing is left where they cancel; with
/// another unit the new factor comes second.
pub proof fn lemma_absorb_single(first: UnitTerm, unit: UnitTerm, power: int)
    requires
        power != 0,
    ensures
        absorb(seq![Factor { unit: first, power: 1 }], unit, power) == (if first.key()
            == unit.key() {
            if power == -1 {
                Seq::<Factor>::empty()
            } else {
                seq![Factor { unit: first, power: 1 + power }]
            }
        } else {
            seq![Factor { unit: first, power: 1 }, Factor { unit, power }]
        }),
{
    let s = seq![Factor { unit: first, power: 1 }];
    lemma_position(s, unit.key());
    let at = position(s, unit.key());
    if first.key() == unit.key() {
        assert(s[0].unit.key() == unit.key());
        assert(at == 0);
        if power == -1 {
            assert(s.remove(0) =~= Seq::<Factor>::empty());
        } else {
            assert(s.update(0, Factor { unit: first, power: 1 + power }) =~= seq![
                Factor { unit: first, power: 1 + power },
            ]);
        }
    } else {
        if at < s.len() {
            assert(s[at].unit.key() == unit.key());
        }
        assert(s.push(Factor { unit, power }) =~= seq![
            Factor { unit: first, power: 1 },
            Factor { unit, power },
        ]);
    }
}

// Two composite units combined.

/// Combining adds exponents, unit by unit; for a division it subtracts.
pub proof fn lemma_combined_power(a: Seq<Factor>, b: Seq<Factor>, invert: bool, k: UnitKey)
    ensures
        power_of(combined(a, b, invert), k) == combined_power(a, b, invert, k),
    decreases b.len(),
{
    if b.len() > 0 {
        lemma_combined_power(a, b.drop_last(), invert, k);
        lemma_absorb_power(
            combined(a, b.drop_last(), invert),
            b.last().unit,
            signed(b.last().power, invert),
            k,
        );
    }
}

/// Combining keeps a sequence canonical.
pub proof fn lemma_combined_canonical(a: Seq<Factor>, b: Seq<Factor>, invert: bool)
    requires
        canonical(a),
    ensures
        canonical(combined(a, b, invert)),
    decreases b.len(),
{
    if b.len() > 0 {
        lemma_combined_canonical(a, b.drop_last(), invert);
        lemma_absorb_canonical(
            combined(a, b.drop_last(), invert),
            b.last().unit,
            signed(b.last().power, invert),
        );
    }
}

/// The dimension of a product is the sum of the dimensions, that of a
/// quotient their difference.
pub proof fn lemma_combined_dimension(a: Seq<Factor>, b: Seq<Factor>, invert: bool)
    ensures
        dimension_of(combined(a, b, invert)) == combined_dimension(a, b, invert),
    decreases b.len(),
{
    if b.len() > 0 {
        lemma_combined_dimension(a, b.drop_last(), invert);
        lemma_absorb_dimension(
            combined(a, b.drop_last(), invert),
            b.last().unit,
            signed(b.last().power, invert),
        );
        if invert {
            lemma_times_negated(b.last().unit.kind, b.last().power);
        }
    }
}

} // verus!
