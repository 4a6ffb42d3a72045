use units::{
    Amount, Binary32, CompositeUnit, Current, DynKind, Length, Luminosity, Mass, ScaleExpr,
    SingleUnit, Temperature, Time, UnitError, UnitKind,
};

fn value(x: f32) -> Binary32 {
    Binary32::from_bits(x.to_bits())
}

fn number(b: Binary32) -> f32 {
    f32::from_bits(b.to_bits())
}

fn eval(expr: &ScaleExpr) -> f32 {
    match expr {
        ScaleExpr::Value(v) => number(*v),
        ScaleExpr::Product(l, r) => eval(l) * eval(r),
        ScaleExpr::Quotient(l, r) => eval(l) / eval(r),
    }
}

fn kind(length: i8, mass: i8, time: i8) -> DynKind {
    DynKind { length, mass, time, current: 0, temperature: 0, amount: 0, luminosity: 0 }
}

fn unit(kind: DynKind, scale: f32, abbreviation: &str, name: &str) -> SingleUnit {
    SingleUnit::new(kind, value(scale), abbreviation, name).unwrap()
}

fn m() -> SingleUnit {
    unit(kind(1, 0, 0), 1., "m", "meter")
}

fn cm() -> SingleUnit {
    unit(kind(1, 0, 0), 0.01, "cm", "centimeter")
}

fn kg() -> SingleUnit {
    unit(kind(0, 1, 0), 1., "kg", "kilogram")
}

fn s() -> SingleUnit {
    unit(kind(0, 0, 1), 1., "s", "second")
}

/// The factors of a unit, by name and power.
fn factors(unit: &CompositeUnit) -> Vec<(String, i8)> {
    let mut out = Vec::new();
    let mut i = 0;
    while let Some((u, p)) = unit.get(i) {
        out.push((u.name().to_string(), p));
        i += 1;
    }
    out
}

fn named(pairs: &[(&str, i8)]) -> Vec<(String, i8)> {
    pairs.iter().map(|(n, p)| (n.to_string(), *p)).collect()
}

#[test]
fn dimension_vectors_add_and_subtract() {
    let force = kind(1, 1, -2);
    let length = kind(1, 0, 0);
    assert_eq!(force.add(length), kind(2, 1, -2));
    assert_eq!(force.sub(length), kind(0, 1, -2));
    assert_eq!(force.checked_add(length), Some(kind(2, 1, -2)));
    assert_eq!(force.checked_sub(length), Some(kind(0, 1, -2)));
    assert!(force.eq(&kind(1, 1, -2)));
    assert!(!force.eq(&length));
    assert_eq!(DynKind::default(), kind(0, 0, 0));
}

#[test]
fn dimension_vectors_refuse_what_does_not_fit() {
    assert_eq!(kind(127, 0, 0).checked_add(kind(1, 0, 0)), None);
    assert_eq!(kind(0, -128, 0).checked_sub(kind(0, 1, 0)), None);
    assert_eq!(kind(0, 0, -128).checked_sub(kind(0, 0, -1)), Some(kind(0, 0, -127)));
    assert_eq!(kind(100, 0, 0).checked_add(kind(27, 0, 0)), Some(kind(127, 0, 0)));
}

#[test]
fn the_base_kinds_have_one_exponent_each() {
    let zero = DynKind::default();
    assert_eq!(Length::to_dynkind(), DynKind { length: 1, ..zero });
    assert_eq!(Mass::to_dynkind(), DynKind { mass: 1, ..zero });
    assert_eq!(Time::to_dynkind(), DynKind { time: 1, ..zero });
    assert_eq!(Current::to_dynkind(), DynKind { current: 1, ..zero });
    assert_eq!(Temperature::to_dynkind(), DynKind { temperature: 1, ..zero });
    assert_eq!(Amount::to_dynkind(), DynKind { amount: 1, ..zero });
    assert_eq!(Luminosity::to_dynkind(), DynKind { luminosity: 1, ..zero });
    let second = SingleUnit::of_kind::<Time>(value(1.), "s", "second").unwrap();
    assert_eq!(second.kind(), kind(0, 0, 1));
}

#[test]
fn a_unit_is_told_by_dimension_scale_and_name() {
    assert!(m().eq(&m()));
    assert!(m().eq(&unit(kind(1, 0, 0), 1., "mtr", "meter")));
    assert!(!m().eq(&unit(kind(1, 0, 0), 1., "m", "metre")));
    assert!(!m().eq(&unit(kind(1, 0, 0), 100. * 0.01, "m", "hundred centimeters").clone()));
    assert!(!m().eq(&unit(kind(1, 0, 0), 2., "m", "meter")));
    assert!(!m().eq(&unit(kind(0, 1, 0), 1., "m", "meter")));
    assert!(!m().eq(&cm()));
}

#[test]
fn a_scale_must_be_a_number_other_than_zero() {
    let length = kind(1, 0, 0);
    for bad in [0.0f32, -0.0, f32::NAN, f32::INFINITY, f32::NEG_INFINITY] {
        let refused = SingleUnit::new(length, value(bad), "x", "ex");
        assert_eq!(refused.err(), Some(UnitError::InvalidScale));
    }
    for good in [1.0f32, -1.0, 1e-24, 1e24, f32::MIN_POSITIVE, f32::MAX, 1e-45] {
        assert!(SingleUnit::new(length, value(good), "x", "ex").is_ok());
    }
}

#[test]
fn multiplication_merges_equal_units() {
    let m2 = m().mul(m());
    assert_eq!(factors(&m2), named(&[("meter", 2)]));
    assert_eq!(m2.kind(), kind(2, 0, 0));
    let m3 = m2.mul_unit(m());
    assert_eq!(factors(&m3), named(&[("meter", 3)]));
    assert_eq!(m3.to_string(), "m^3");
    assert_eq!(m3.kind(), kind(3, 0, 0));
}

#[test]
fn multiplication_appends_new_units() {
    let product = m().mul(s());
    assert_eq!(factors(&product), named(&[("meter", 1), ("second", 1)]));
    assert_eq!(product.to_string(), "m s");
    assert_eq!(product.kind(), kind(1, 0, 1));
}

#[test]
fn division_of_a_unit_by_itself_leaves_nothing() {
    let none = cm().div(cm());
    assert_eq!(none.len(), 0);
    assert_eq!(none.to_string(), "");
    assert_eq!(none.kind(), DynKind::default());
    assert_eq!(none.scale_factor(), ScaleExpr::Value(value(1.0)));
    assert_eq!(eval(&none.scale_factor()), 1.0);
    assert!(none.eq(&CompositeUnit::dimensionless()));
}

#[test]
fn division_of_a_composite_unit_by_itself_leaves_nothing() {
    let force = CompositeUnit::from(kg()).mul_unit(cm()).div_unit(s()).div_unit(s());
    let none = force.clone().div(force);
    assert_eq!(none.len(), 0);
    assert_eq!(none.kind(), DynKind::default());
    assert_eq!(eval(&none.scale_factor()), 1.0);
}

#[test]
fn a_cancelled_unit_leaves_and_the_others_keep_their_order() {
    let unit = CompositeUnit::from(m()).mul_unit(s()).mul_unit(kg());
    let without_m = unit.clone().div_unit(m());
    assert_eq!(factors(&without_m), named(&[("second", 1), ("kilogram", 1)]));
    assert_eq!(without_m.to_string(), "s kg");
    let without_s = unit.div_unit(s());
    assert_eq!(factors(&without_s), named(&[("meter", 1), ("kilogram", 1)]));
    let inverse = CompositeUnit::dimensionless().div_unit(s());
    assert_eq!(factors(&inverse.mul_unit(s())), named(&[]));
}

#[test]
fn composite_units_multiply_and_divide() {
    let speed = m().div(s());
    let momentum_per_length = kg().div(s());
    let product = speed.clone().mul(momentum_per_length.clone());
    assert_eq!(factors(&product), named(&[("meter", 1), ("second", -2), ("kilogram", 1)]));
    assert_eq!(product.to_string(), "m s^-2 kg");
    assert_eq!(product.kind(), kind(1, 1, -2));
    let quotient = speed.div(momentum_per_length);
    assert_eq!(factors(&quotient), named(&[("meter", 1), ("kilogram", -1)]));
    assert_eq!(quotient.to_string(), "m kg^-1");
    assert_eq!(quotient.kind(), kind(1, -1, 0));
}

#[test]
fn multiplication_commutes_but_for_the_order() {
    let a = CompositeUnit::from(kg()).mul_unit(m()).div_unit(s());
    let b = CompositeUnit::from(s()).mul_unit(s()).div_unit(cm()).mul_unit(m());
    let ab = a.clone().mul(b.clone());
    let ba = b.mul(a);
    let mut left = factors(&ab);
    let mut right = factors(&ba);
    assert_eq!(left, named(&[("kilogram", 1), ("meter", 2), ("second", 1), ("centimeter", -1)]));
    assert_eq!(right, named(&[("second", 1), ("centimeter", -1), ("meter", 2), ("kilogram", 1)]));
    left.sort();
    right.sort();
    assert_eq!(left, right);
    assert_eq!(ab.kind(), ba.kind());
    assert!(ab.same_dimension(&ba));
    assert!(!ab.eq(&ba));
}

#[test]
fn two_single_units_commute() {
    let ab = m().mul(s());
    let ba = s().mul(m());
    assert_eq!(ab.to_string(), "m s");
    assert_eq!(ba.to_string(), "s m");
    let mut left = factors(&ab);
    let mut right = factors(&ba);
    left.sort();
    right.sort();
    assert_eq!(left, right);
}

#[test]
fn display_writes_powers_other_than_one() {
    let mut unit = CompositeUnit::dimensionless();
    for _ in 0..12 {
        unit = unit.mul_unit(m());
    }
    for _ in 0..127 {
        unit = unit.div_unit(s());
    }
    unit = unit.mul_unit(kg());
    assert_eq!(unit.to_string(), "m^12 s^-127 kg");
    assert_eq!(unit.kind(), kind(12, 1, -127));
    let down = unit.div_unit(s());
    assert_eq!(down.to_string(), "m^12 s^-128 kg");
}

#[test]
fn display_leaves_out_the_power_zero() {
    let entries = vec![(kg(), 0), (m(), 1), (s(), 0), (s(), -2), (cm(), 0)];
    assert_eq!(units::composite::render(&entries), "m s^-2");
    assert_eq!(units::composite::render(&vec![(m(), 0)]), "");
    assert_eq!(units::composite::render(&vec![(m(), 100), (s(), -100), (kg(), 10)]), "m^100 s^-100 kg^10");
    assert_eq!(units::composite::render(&Vec::new()), "");
}

#[test]
fn exponents_that_do_not_fit_are_refused() {
    let mut unit = CompositeUnit::dimensionless();
    for _ in 0..127 {
        unit = unit.checked_mul_unit(m()).unwrap();
    }
    assert!(unit.clone().checked_mul_unit(m()).is_none());
    assert!(unit.clone().checked_mul(CompositeUnit::from(m())).is_none());
    assert!(unit.clone().checked_div(CompositeUnit::dimensionless().div_unit(m())).is_none());
    assert!(unit.clone().checked_mul(CompositeUnit::from(s())).is_some());
    let mut inverse = CompositeUnit::dimensionless();
    for _ in 0..128 {
        inverse = inverse.checked_div_unit(m()).unwrap();
    }
    assert_eq!(inverse.to_string(), "m^-128");
    assert!(inverse.clone().checked_div_unit(m()).is_none());
    assert!(CompositeUnit::dimensionless().checked_div(inverse.clone()).is_none());
    assert!(CompositeUnit::dimensionless().checked_mul(inverse).is_some());
}

#[test]
fn dimensions_that_do_not_fit_are_refused() {
    let steep = unit(kind(100, 0, 0), 1., "x", "ex");
    let other = unit(kind(100, 0, 0), 1., "y", "why");
    let one = CompositeUnit::from(steep.clone());
    assert!(one.clone().checked_mul_unit(steep.clone()).is_none());
    assert!(one.clone().checked_mul_unit(other.clone()).is_none());
    assert!(one.clone().checked_div_unit(other.clone()).is_some());
    assert!(one.clone().checked_mul(CompositeUnit::from(other)).is_none());
    assert_eq!(one.checked_div_unit(steep).map(|u| u.len()), Some(0));
}

#[test]
fn the_scale_factor_multiplies_and_divides_in_order() {
    let v = |x: f32| Box::new(ScaleExpr::Value(value(x)));
    let unit = CompositeUnit::from(cm()).mul_unit(cm()).div_unit(s());
    let expected = ScaleExpr::Quotient(
        Box::new(ScaleExpr::Product(
            Box::new(ScaleExpr::Product(v(1.), v(0.01))),
            v(0.01),
        )),
        v(1.),
    );
    assert_eq!(unit.scale_factor(), expected);
    assert_eq!(eval(&unit.scale_factor()), 1. * 0.01 * 0.01 / 1.);
    let per_cm = CompositeUnit::dimensionless().div_unit(cm());
    assert_eq!(per_cm.scale_factor(), ScaleExpr::Quotient(v(1.), v(0.01)));
    assert_eq!(eval(&per_cm.scale_factor()), 1. / 0.01);
    assert_eq!(ScaleExpr::Value(value(2.)).times(ScaleExpr::Value(value(3.))), ScaleExpr::Product(v(2.), v(3.)));
    assert_eq!(ScaleExpr::Value(value(2.)).over(ScaleExpr::Value(value(3.))), ScaleExpr::Quotient(v(2.), v(3.)));
    assert_eq!(unit.scale_factor().clone(), expected);
}

#[test]
fn units_are_compared_factor_by_factor() {
    let a = m().div(s());
    let b = CompositeUnit::from(m()).div_unit(s());
    assert!(a.eq(&b));
    assert!(a.eq(&a.clone()));
    assert!(!a.eq(&s().div(m())));
    assert!(!a.eq(&cm().div(s())));
    assert!(!a.eq(&CompositeUnit::from(m())));
    assert!(a.same_dimension(&cm().div(s())));
    assert!(!a.same_dimension(&m().mul(s())));
    assert!(CompositeUnit::from(m()).get(1).is_none());
}
