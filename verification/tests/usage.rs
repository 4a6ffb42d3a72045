use units::define::{create_unit, create_unit_with_prefixes, Operator, UnitDef, UnitExpr};
use units::{
    Binary32, CompositeUnit, DynKind, PendingQuantity, ScaleExpr, SingleQuantity, SingleUnit,
};

fn value(x: f32) -> Binary32 {
    Binary32::from_bits(x.to_bits())
}

fn number(b: Binary32) -> f32 {
    f32::from_bits(b.to_bits())
}

fn eval(expr: &ScaleExpr) -> f32 {
    match expr {
        ScaleExpr::Value(v) => number(*v),
        ScaleExpr::Product(l, r) => eval(l) * eval(r),
        ScaleExpr::Quotient(l, r) => eval(l) / eval(r),
    }
}

fn kind(length: i8, mass: i8, time: i8) -> DynKind {
    DynKind { length, mass, time, current: 0, temperature: 0, amount: 0, luminosity: 0 }
}

/// A unit of a family of metric prefixes, found by its abbreviation.
fn prefixed(ident: &str, kind: DynKind, scale: f32, name: &str, abbreviation: &str) -> SingleUnit {
    let def = UnitDef::new(ident, kind, UnitExpr::Literal(value(scale)), name, None);
    let decls = create_unit_with_prefixes(&def).unwrap();
    let decl = decls.iter().find(|d| d.abbreviation == abbreviation).unwrap();
    decl.build(value(eval(&decl.scale))).unwrap()
}

fn m() -> SingleUnit {
    prefixed("m", kind(1, 0, 0), 1., "meter", "m")
}

fn km() -> SingleUnit {
    prefixed("m", kind(1, 0, 0), 1., "meter", "km")
}

fn cm() -> SingleUnit {
    prefixed("m", kind(1, 0, 0), 1., "meter", "cm")
}

fn kg() -> SingleUnit {
    prefixed("g", kind(0, 1, 0), 1e-3, "gram", "kg")
}

fn s() -> SingleUnit {
    prefixed("s", kind(0, 0, 1), 1., "second", "s")
}

fn times(l: UnitExpr, r: UnitExpr) -> UnitExpr {
    UnitExpr::Binary(Operator::Mul, Box::new(l), Box::new(r))
}

fn over(l: UnitExpr, r: UnitExpr) -> UnitExpr {
    UnitExpr::Binary(Operator::Div, Box::new(l), Box::new(r))
}

fn derived(ident: &str, kind: DynKind, initializer: UnitExpr, name: &str) -> SingleUnit {
    let decl = create_unit(&UnitDef::new(ident, kind, initializer, name, None)).unwrap();
    decl.build(value(eval(&decl.scale))).unwrap()
}

#[allow(non_snake_case)]
fn N() -> SingleUnit {
    let initializer = over(
        times(UnitExpr::Unit(kg()), UnitExpr::Unit(m())),
        times(UnitExpr::Unit(s()), UnitExpr::Unit(s())),
    );
    derived("N", kind(1, 1, -2), initializer, "Newton")
}

#[allow(non_snake_case)]
fn J() -> SingleUnit {
    derived("J", kind(2, 1, -2), times(UnitExpr::Unit(N()), UnitExpr::Unit(m())), "Joule")
}

fn quantity(scalar: f32, unit: SingleUnit) -> SingleQuantity {
    SingleQuantity::new(CompositeUnit::from(unit), value(scalar))
}

fn settle(pending: PendingQuantity) -> SingleQuantity {
    let scalar = value(eval(&pending.scalar));
    pending.settle(scalar)
}

fn convert(quantity: &SingleQuantity, unit: CompositeUnit) -> SingleQuantity {
    settle(quantity.to(unit).unwrap())
}

fn show(quantity: &SingleQuantity) -> String {
    format!("{} {}", number(quantity.scalar()), quantity.unit().to_string())
}

/// Whether two quantities are the same physical amount.
fn same_amount(a: &SingleQuantity, b: &SingleQuantity) -> bool {
    eval(&a.magnitude()) == eval(&b.magnitude())
}

#[test]
fn multiple_meter() {
    let m2 = m().mul(m());
    println!("{}", m2.to_string());
    assert_eq!(m2.to_string(), "m^2");
}

#[test]
fn single_multiple_meter() {
    let m2 = CompositeUnit::from(m()).mul_unit(m());
    println!("{}", m2.to_string());
    assert_eq!(m2.to_string(), "m^2");
    assert_eq!(m2.len(), 1);
}

#[test]
fn use_km() {
    println!("{}", km().to_string());
    assert_eq!(km().to_string(), "km");
}

#[test]
fn single_use_km() {
    let unit = km();
    println!("{}", unit.to_string());
    assert_eq!(unit.abbreviation(), "km");
    assert_eq!(unit.name(), "kilometer");
    assert_eq!(number(unit.scale()), 1e3 * (1.));
}

#[test]
fn create_quantity() {
    let meter = quantity(1., m());
    println!("{}", show(&meter));
    assert_eq!(show(&meter), "1 m");
}

#[test]
fn use_create_quantity() {
    let meter = SingleQuantity::new(CompositeUnit::from(m()), value(1.));
    println!("{}", show(&meter));
    assert_eq!(number(meter.scalar()), 1.);
    assert_eq!(meter.unit().to_string(), "m");
}

#[test]
fn combine_units() {
    let area = quantity(1., m()).mul_unit(m());
    println!("{}", show(&area));
    assert_eq!(show(&area), "1 m^2");
}

#[test]
fn use_combine_units() {
    let area = quantity(1., m()).mul_unit(m());
    println!("{}", show(&area));
    assert_eq!(number(area.scalar()), 1.);
    assert_eq!(area.unit().len(), 1);
    let (unit, power) = area.unit().get(0).unwrap();
    assert_eq!(unit.name(), "meter");
    assert_eq!(power, 2);
}

#[test]
fn using_non_base_units() {
    let energy = quantity(1., J());
    println!("{}", show(&energy));
    assert_eq!(show(&energy), "1 J");
    assert_eq!(energy.unit().kind(), kind(2, 1, -2));
}

#[test]
fn combine_quantities() {
    let length = quantity(2., m());
    let width = quantity(4., m());
    let area = settle(length.mul(width));
    println!("{}", show(&area));
    assert_eq!(show(&area), "8 m^2");
}

#[test]
fn using_to() {
    let distance = quantity(12., cm());
    let time = quantity(2., s());
    let velocity1 = settle(distance.div(time));
    let velocity2 = quantity(0.12 / 2., m()).div_unit(s());
    let converted = convert(&velocity1, m().div(s()));
    assert!(same_amount(&converted, &velocity2));
    assert_eq!(number(converted.scalar()), 0.06);
    assert_eq!(converted.unit().to_string(), "m s^-1");
    assert!(converted.unit_eq(velocity2));
}

#[test]
fn equality_different_units() {
    let distance = quantity(12., cm());
    let time = quantity(2., s());
    let velocity1 = settle(distance.clone().div(time.clone()));
    let velocity2 = settle(convert(&distance, CompositeUnit::from(m())).div(time));
    assert!(same_amount(&velocity1, &velocity2));
}

#[test]
fn equality_same_units() {
    let distance = quantity(12., cm());
    let time = quantity(2., s());
    let velocity1 = settle(distance.clone().div(time.clone()));
    let velocity2 = settle(convert(&distance, CompositeUnit::from(m())).div(time));
    assert!(!velocity1.unit_eq(velocity2));
}

#[test]
fn newton_is_coherent() {
    let newton = quantity(1., N());
    let expanded = CompositeUnit::from(kg()).mul_unit(m()).div_unit(s()).div_unit(s());
    assert_eq!(expanded.to_string(), "kg m s^-2");
    assert_eq!(eval(&expanded.scale_factor()), 1.0);
    assert_eq!(number(N().scale()), 1.0);
    let in_base_units = convert(&newton, expanded);
    assert_eq!(number(in_base_units.scalar()), 1.0);
    assert!(same_amount(&newton, &in_base_units));
}

#[test]
fn conversion_goes_through_any_unit_of_the_dimension() {
    let q = quantity(2.5, km());
    let direct = convert(&q, CompositeUnit::from(cm()));
    let by_way_of_meters = convert(&convert(&q, CompositeUnit::from(m())), CompositeUnit::from(cm()));
    let a = number(direct.scalar());
    let b = number(by_way_of_meters.scalar());
    assert!((a - b).abs() <= 1e-6 * a.abs());
    assert!((a - 250_000.).abs() <= 1e-6 * a);
    assert!(direct.unit().eq(by_way_of_meters.unit()));
}
