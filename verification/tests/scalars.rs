use units::binary32::ONE_BITS;
use units::define::metric_prefixes;
use units::{
    Binary32, CompositeUnit, DynKind, PendingQuantity, ScaleExpr, SingleQuantity, SingleUnit,
    UnitError,
};

fn value(x: f32) -> Binary32 {
    Binary32::from_bits(x.to_bits())
}

fn number(b: Binary32) -> f32 {
    f32::from_bits(b.to_bits())
}

fn eval(expr: &ScaleExpr) -> f32 {
    match expr {
        ScaleExpr::Value(v) => number(*v),
        ScaleExpr::Product(l, r) => eval(l) * eval(r),
        ScaleExpr::Quotient(l, r) => eval(l) / eval(r),
    }
}

fn kind(length: i8, mass: i8, time: i8) -> DynKind {
    DynKind { length, mass, time, current: 0, temperature: 0, amount: 0, luminosity: 0 }
}

fn m() -> SingleUnit {
    SingleUnit::new(kind(1, 0, 0), value(1.), "m", "meter").unwrap()
}

fn cm() -> SingleUnit {
    SingleUnit::new(kind(1, 0, 0), value(0.01), "cm", "centimeter").unwrap()
}

fn s() -> SingleUnit {
    SingleUnit::new(kind(0, 0, 1), value(1.), "s", "second").unwrap()
}

fn quantity(scalar: f32, unit: CompositeUnit) -> SingleQuantity {
    SingleQuantity::new(unit, value(scalar))
}

fn settle(pending: PendingQuantity) -> SingleQuantity {
    let scalar = value(eval(&pending.scalar));
    pending.settle(scalar)
}

const SAMPLES: [f32; 16] = [
    0.0,
    -0.0,
    1.0,
    -1.0,
    0.06,
    12.0,
    1e-45,
    -1e-45,
    f32::MIN_POSITIVE,
    f32::MAX,
    f32::MIN,
    f32::EPSILON,
    f32::INFINITY,
    f32::NEG_INFINITY,
    f32::NAN,
    -f32::NAN,
];

#[test]
fn bit_patterns_are_classed_as_the_numbers_they_hold() {
    for x in SAMPLES {
        let b = value(x);
        assert_eq!(b.to_bits(), x.to_bits());
        assert_eq!(b.is_nan(), x.is_nan());
        assert_eq!(b.is_finite(), x.is_finite());
        assert_eq!(b.is_zero(), x == 0.0);
        assert_eq!(b.is_scale(), x.is_finite() && x != 0.0);
    }
    assert!(Binary32::from_bits(0x7f80_0001).is_nan());
    assert!(Binary32::from_bits(0xffff_ffff).is_nan());
    assert!(!Binary32::from_bits(0x7f7f_ffff).is_nan());
    assert_eq!(number(Binary32::from_bits(ONE_BITS)), 1.0);
}

#[test]
fn numeric_equality_is_that_of_the_numbers() {
    for x in SAMPLES {
        for y in SAMPLES {
            assert_eq!(value(x).same_value(value(y)), x == y);
        }
    }
    assert!(value(0.0).same_value(value(-0.0)));
    assert!(value(0.0) != value(-0.0));
    assert!(!value(f32::NAN).same_value(value(f32::NAN)));
}

#[test]
fn the_prefix_table_holds_the_powers_of_ten() {
    let expected: [(f32, &str, &str); 21] = [
        (1e24, "Y", "yotta"),
        (1e21, "Z", "zetta"),
        (1e18, "E", "exa"),
        (1e15, "P", "peta"),
        (1e12, "T", "tera"),
        (1e9, "G", "giga"),
        (1e6, "M", "mega"),
        (1e3, "k", "kilo"),
        (1e2, "h", "hecto"),
        (1e1, "da", "deka"),
        (1e0, "", ""),
        (1e-1, "d", "deci"),
        (1e-2, "c", "centi"),
        (1e-3, "m", "milli"),
        (1e-6, "\u{3bc}", "micro"),
        (1e-9, "n", "nano"),
        (1e-12, "p", "pico"),
        (1e-15, "f", "femto"),
        (1e-18, "a", "atto"),
        (1e-21, "z", "zepto"),
        (1e-24, "y", "yocto"),
    ];
    let table = metric_prefixes();
    assert_eq!(table.len(), 21);
    for (prefix, (multiplier, symbol, word)) in table.iter().zip(expected) {
        assert_eq!(number(prefix.multiplier), multiplier);
        assert_eq!(prefix.symbol, symbol);
        assert_eq!(prefix.word, word);
        let written: f32 = format!("1e{}", prefix.power_of_ten).parse().unwrap();
        assert_eq!(number(prefix.multiplier), written);
    }
}

#[test]
fn quantities_multiply_and_divide_without_rescaling() {
    let distance = quantity(12., CompositeUnit::from(cm()));
    let time = quantity(2., CompositeUnit::from(s()));
    let pending = distance.clone().div(time.clone());
    let two = |a: f32, b: f32| (Box::new(ScaleExpr::Value(value(a))), Box::new(ScaleExpr::Value(value(b))));
    let (a, b) = two(12., 2.);
    assert_eq!(pending.scalar, ScaleExpr::Quotient(a, b));
    assert_eq!(pending.unit.to_string(), "cm s^-1");
    let speed = settle(pending);
    assert_eq!(number(speed.scalar()), 6.);
    let pending = distance.mul(time);
    let (a, b) = two(12., 2.);
    assert_eq!(pending.scalar, ScaleExpr::Product(a, b));
    assert_eq!(pending.unit.to_string(), "cm s");
    assert_eq!(number(settle(pending).scalar()), 24.);
}

#[test]
fn a_quantity_times_a_unit_keeps_its_magnitude() {
    let q = quantity(3.5, CompositeUnit::from(m())).mul_unit(m()).div_unit(s());
    assert_eq!(number(q.scalar()), 3.5);
    assert_eq!(q.unit().to_string(), "m^2 s^-1");
    assert_eq!(q.clone().unit().to_string(), "m^2 s^-1");
}

#[test]
fn conversion_multiplies_by_the_old_scale_and_divides_by_the_new() {
    let q = quantity(12., CompositeUnit::from(cm()));
    let pending = q.to(CompositeUnit::from(m())).unwrap();
    let v = |x: f32| Box::new(ScaleExpr::Value(value(x)));
    let old_scale = Box::new(ScaleExpr::Product(v(1.), v(0.01)));
    let new_scale = Box::new(ScaleExpr::Product(v(1.), v(1.)));
    let magnitude = ScaleExpr::Product(v(12.), old_scale);
    assert_eq!(q.magnitude(), magnitude);
    assert_eq!(pending.scalar, ScaleExpr::Quotient(Box::new(magnitude), new_scale));
    assert_eq!(pending.unit.to_string(), "m");
    let in_meters = settle(pending);
    assert_eq!(number(in_meters.scalar()), 12. * (1. * 0.01) / (1. * 1.));
    assert_eq!(number(in_meters.scalar()), 0.12);
    let back = settle(in_meters.to(CompositeUnit::from(cm())).unwrap());
    assert!((number(back.scalar()) - 12.).abs() < 1e-5);
}

#[test]
fn conversion_to_another_dimension_is_refused() {
    let q = quantity(12., CompositeUnit::from(cm()));
    assert_eq!(q.to(CompositeUnit::from(s())).err(), Some(UnitError::DimensionMismatch));
    assert_eq!(q.to(m().mul(m())).err(), Some(UnitError::DimensionMismatch));
    assert_eq!(q.to(CompositeUnit::dimensionless()).err(), Some(UnitError::DimensionMismatch));
    assert!(q.to(m().mul(s()).div_unit(s())).is_ok());
}

#[test]
fn strict_equality_wants_the_same_unit_and_the_same_number() {
    let q = quantity(12., CompositeUnit::from(cm()));
    assert!(q.unit_eq(quantity(12., CompositeUnit::from(cm()))));
    assert!(!q.unit_eq(quantity(0.12, CompositeUnit::from(m()))));
    assert!(!q.unit_eq(quantity(12., CompositeUnit::from(m()))));
    assert!(!q.unit_eq(quantity(13., CompositeUnit::from(cm()))));
    let zero = quantity(0., CompositeUnit::from(m()));
    assert!(zero.unit_eq(quantity(-0., CompositeUnit::from(m()))));
    let nan = quantity(f32::NAN, CompositeUnit::from(m()));
    assert!(!nan.unit_eq(nan.clone()));
}
