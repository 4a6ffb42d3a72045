//! What holds of the algebra of units, whatever the units are.

use crate::algebra::{
    absorb, canonical, combined, dimension_of, lemma_absorb_single, lemma_combined_canonical,
    lemma_combined_dimension, lemma_combined_power, lemma_position, lemma_power_of_canonical,
    lemma_power_of_present, position, power_of, product, quotient, scale_factor_of, signed, Factor,
};
use crate::binary32::Binary32;
use crate::kind::Dimension;
use crate::scale::ScaleExpr;
use crate::single::{UnitKey, UnitTerm};
use vstd::prelude::*;

verus! {

/// A unit stands somewhere in `s`.
pub open spec fn has_unit(s: Seq<Factor>, unit: UnitTerm) -> bool {
    exists|j: int| 0 <= j < s.len() && (#[trigger] s[j]).unit == unit
}

/// Where `a` and `b` hold the same unit, they write it alike: no unit has
/// one abbreviation in `a` and another in `b`.
pub open spec fn agree(a: Seq<Factor>, b: Seq<Factor>) -> bool {
    forall|i: int, j: int|
        0 <= i < a.len() && 0 <= j < b.len() && (#[trigger] a[i]).unit.key() == (
        #[trigger] b[j]).unit.key() ==> a[i].unit == b[j].unit
}

/// A canonical composite unit in which every exponent is zero has no
/// factor.
proof fn lemma_no_power_no_factor(s: Seq<Factor>)
    requires
        canonical(s),
        forall|k: UnitKey| power_of(s, k) == 0,
    ensures
        s == Seq::<Factor>::empty(),
{
    if s.len() > 0 {
        lemma_power_of_present(s, 0);
        assert(power_of(s, s[0].unit.key()) == 0);
    }
    assert(s =~= Seq::<Factor>::empty());
}

/// Every unit of `absorb(s, unit, power)` is a unit of `s` or is `unit`.
proof fn lemma_absorb_units(s: Seq<Factor>, unit: UnitTerm, power: int, i: int)
    requires
        0 <= i < absorb(s, unit, power).len(),
    ensures
        has_unit(s, absorb(s, unit, power)[i].unit) || absorb(s, unit, power)[i].unit == unit,
{
    let at = position(s, unit.key());
    let r = absorb(s, unit, power);
    lemma_position(s, unit.key());
    if at < s.len() {
        if s[at].power + power == 0 {
            if i < at {
                assert(r[i] == s[i]);
            } else {
                assert(r[i] == s[i + 1]);
            }
        } else {
            assert(r[i].unit == s[i].unit);
        }
    } else if power != 0 {
        if i < s.len() {
            assert(r[i] == s[i]);
        }
    } else {
        assert(r[i] == s[i]);
    }
}

/// Every unit of `a` combined with `b` is a unit of `a` or of `b`.
proof fn lemma_combined_units(a: Seq<Factor>, b: Seq<Factor>, invert: bool, i: int)
    requires
        0 <= i < combined(a, b, invert).len(),
    ensures
        has_unit(a, combined(a, b, invert)[i].unit) || has_unit(b, combined(a, b, invert)[i].unit),
    decreases b.len(),
{
    if b.len() > 0 {
        let front = b.drop_last();
        let r = combined(a, front, invert);
        let unit = combined(a, b, invert)[i].unit;
        lemma_absorb_units(r, b.last().unit, signed(b.last().power, invert), i);
        if has_unit(r, unit) {
            let j = choose|j: int| 0 <= j < r.len() && (#[trigger] r[j]).unit == unit;
            lemma_combined_units(a, front, invert, j);
            if has_unit(front, unit) {
                let n = choose|n: int| 0 <= n < front.len() && (#[trigger] front[n]).unit == unit;
                assert(b[n].unit == unit);
            }
        } else {
            assert(b[b.len() - 1].unit == unit);
        }
    }
}

/// Every factor of `a * b` is a factor of `b * a`.
proof fn lemma_product_within(a: Seq<Factor>, b: Seq<Factor>, i: int)
    requires
        canonical(a),
        canonical(b),
        agree(a, b),
        0 <= i < product(a, b).len(),
    ensures
        product(b, a).contains(product(a, b)[i]),
{
    let r = product(a, b);
    let t = product(b, a);
    let f = r[i];
    let k = f.unit.key();
    lemma_combined_canonical(a, b, false);
    lemma_combined_canonical(b, a, false);
    lemma_combined_power(a, b, false, k);
    lemma_combined_power(b, a, false, k);
    lemma_power_of_present(r, i);
    lemma_power_of_canonical(t, k);
    lemma_position(t, k);
    let at = position(t, k);
    assert(at < t.len());
    lemma_combined_units(a, b, false, i);
    lemma_combined_units(b, a, false, at);
    // Both units have the key `k` and stand in `a` or in `b`: they are one.
    let u = f.unit;
    let v = t[at].unit;
    if has_unit(a, u) {
        let x = choose|x: int| 0 <= x < a.len() && (#[trigger] a[x]).unit == u;
        if has_unit(a, v) {
            let y = choose|y: int| 0 <= y < a.len() && (#[trigger] a[y]).unit == v;
            assert(x == y);
        } else {
            let y = choose|y: int| 0 <= y < b.len() && (#[trigger] b[y]).unit == v;
            assert(a[x].unit == b[y].unit);
        }
    } else {
        let x = choose|x: int| 0 <= x < b.len() && (#[trigger] b[x]).unit == u;
        if has_unit(a, v) {
            let y = choose|y: int| 0 <= y < a.len() && (#[trigger] a[y]).unit == v;
            assert(a[y].unit == b[x].unit);
        } else {
            let y = choose|y: int| 0 <= y < b.len() && (#[trigger] b[y]).unit == v;
            assert(x == y);
        }
    }
    assert(t[at] == f);
}

/// A canonical sequence holds no factor twice.
proof fn lemma_canonical_no_duplicates(s: Seq<Factor>)
    requires
        canonical(s),
    ensures
        s.no_duplicates(),
{
    assert forall|i: int, j: int| 0 <= i < s.len() && 0 <= j < s.len() && i != j implies s[i]
        != s[j] by {
        if i < j {
            assert(s[i].unit.key() != s[j].unit.key());
        } else {
            assert(s[j].unit.key() != s[i].unit.key());
        }
    }
}

/// Multiplication of units commutes in all but the order of the factors:
/// `a * b` and `b * a` give every unit the same exponent and have the same
/// dimension, and neither holds a unit twice or to the power zero.
pub proof fn law_product_commutes(a: Seq<Factor>, b: Seq<Factor>)
    requires
        canonical(a),
        canonical(b),
    ensures
        canonical(product(a, b)),
        canonical(product(b, a)),
        forall|k: UnitKey| power_of(product(a, b), k) == #[trigger] power_of(product(b, a), k),
        dimension_of(product(a, b)) == dimension_of(product(b, a)),
{
    lemma_combined_canonical(a, b, false);
    lemma_combined_canonical(b, a, false);
    lemma_combined_dimension(a, b, false);
    lemma_combined_dimension(b, a, false);
    assert forall|k: UnitKey| power_of(product(a, b), k) == #[trigger] power_of(
        product(b, a),
        k,
    ) by {
        lemma_combined_power(a, b, false, k);
        lemma_combined_power(b, a, false, k);
    }
}

/// Where the operands write their common units alike, `a * b` and `b * a`
/// hold the same factors, each once: one is the other in another order,
/// and so is what is displayed of them.
pub proof fn law_product_commutes_in_factors(a: Seq<Factor>, b: Seq<Factor>)
    requires
        canonical(a),
        canonical(b),
        agree(a, b),
    ensures
        product(a, b).to_multiset() == product(b, a).to_multiset(),
        product(a, b).len() == product(b, a).len(),
{
    let r = product(a, b);
    let t = product(b, a);
    assert(agree(b, a)) by {
        assert forall|i: int, j: int|
            0 <= i < b.len() && 0 <= j < a.len() && (#[trigger] b[i]).unit.key() == (
            #[trigger] a[j]).unit.key() implies b[i].unit == a[j].unit by {
            assert(a[j].unit == b[i].unit);
        }
    }
    lemma_combined_canonical(a, b, false);
    lemma_combined_canonical(b, a, false);
    lemma_canonical_no_duplicates(r);
    lemma_canonical_no_duplicates(t);
    r.lemma_multiset_has_no_duplicates();
    t.lemma_multiset_has_no_duplicates();
    r.to_multiset_ensures();
    t.to_multiset_ensures();
    assert forall|f: Factor| r.to_multiset().count(f) == t.to_multiset().count(f) by {
        if r.contains(f) {
            let i = choose|i: int| 0 <= i < r.len() && r[i] == f;
            lemma_product_within(a, b, i);
        }
        if t.contains(f) {
            let i = choose|i: int| 0 <= i < t.len() && t[i] == f;
            lemma_product_within(b, a, i);
        }
    }
    assert(r.to_multiset() =~= t.to_multiset());
}

/// A unit divided by itself is the unit of a pure number: it has no
/// factor, its dimension is zero, and its scale factor is one.
pub proof fn law_self_quotient(a: Seq<Factor>)
    requires
        canonical(a),
    ensures
        quotient(a, a) == Seq::<Factor>::empty(),
        dimension_of(quotient(a, a)) == Dimension::zero(),
        scale_factor_of(quotient(a, a)) == ScaleExpr::Value(Binary32::one()),
{
    let r = quotient(a, a);
    lemma_combined_canonical(a, a, true);
    assert forall|k: UnitKey| power_of(r, k) == 0 by {
        lemma_combined_power(a, a, true, k);
    }
    lemma_no_power_no_factor(r);
}

/// A single unit divided by itself is the unit of a pure number.
pub proof fn law_single_self_quotient(unit: UnitTerm)
    ensures
        absorb(seq![Factor { unit, power: 1 }], unit, -1) == Seq::<Factor>::empty(),
        quotient(seq![Factor { unit, power: 1 }], seq![Factor { unit, power: 1 }]) == Seq::<
            Factor,
        >::empty(),
{
    let s = seq![Factor { unit, power: 1 }];
    lemma_absorb_single(unit, unit, -1);
    assert(canonical(s));
    law_self_quotient(s);
}

/// A unit times itself is one factor, the unit squared, and not the unit
/// twice.
pub proof fn law_unit_squared(unit: UnitTerm)
    ensures
        absorb(seq![Factor { unit, power: 1 }], unit, 1) == seq![Factor { unit, power: 2 }],
        product(seq![Factor { unit, power: 1 }], seq![Factor { unit, power: 1 }]) == seq![
            Factor { unit, power: 2 },
        ],
{
    let s = seq![Factor { unit, power: 1 }];
    lemma_absorb_single(unit, unit, 1);
    assert(s.drop_last() =~= Seq::<Factor>::empty());
    assert(combined(s, s.drop_last(), false) == s);
    assert(s.last() == Factor { unit, power: 1 });
}

} // verus!
