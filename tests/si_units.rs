use gafro_modern::si_units::units;
use gafro_modern::si_units::{div_scalar, mul_scalar, Dimension, DimensionMismatch};

#[test]
fn test_basic_units() {
    let length = units::meters(5.0);
    let time = units::seconds(2.0);
    let velocity = length / time;

    assert_eq!(*velocity.value(), 2.5);
}

#[test]
fn test_unit_arithmetic() {
    let l1 = units::meters(3.0);
    let l2 = units::meters(4.0);
    let sum = (l1 + l2).unwrap();

    assert_eq!(*sum.value(), 7.0);

    let area = l1 * l2;
    assert_eq!(*area.value(), 12.0);
}

#[test]
fn velocity_from_length_over_time() {
    let v = units::meters(10.0) / units::seconds(2.0);
    assert_eq!(*v.value(), 5.0);
    assert_eq!(v.dimension(), Dimension::velocity());
    assert_eq!((v.mass_dim(), v.length_dim(), v.time_dim()), (0, 1, -1));
}

#[test]
fn product_and_quotient_dimensions_add_and_subtract() {
    let f = units::newtons(2.0);
    let d = units::meters(3.0);
    let e = f * d;
    assert_eq!(e.dimension(), Dimension::energy());
    let p = e / units::seconds(2.0);
    assert_eq!(p.dimension(), Dimension::power());
    assert_eq!(*p.value(), 3.0);
    let q = units::kilograms(1.0) / units::kilograms(4.0);
    assert!(q.is_dimensionless());
    assert_eq!(*q.value(), 0.25);
}

#[test]
fn mismatched_dimensions_are_reported() {
    let l = units::meters(1.0);
    let t = units::seconds(1.0);
    assert_eq!(l + t, Err(DimensionMismatch { lhs: Dimension::length(), rhs: Dimension::time() }));
    assert_eq!(t - l, Err(DimensionMismatch { lhs: Dimension::time(), rhs: Dimension::length() }));
    assert_eq!(*(l - units::meters(0.25)).unwrap().value(), 0.75);
}

#[test]
fn negation_and_scalar_scaling_keep_dimension() {
    let w = units::watts(4.0);
    let n = -w;
    assert_eq!(*n.value(), -4.0);
    assert_eq!(n.dimension(), Dimension::power());
    let s = mul_scalar(w, 2.5);
    assert_eq!((*s.value(), s.dimension()), (10.0, Dimension::power()));
    let h = div_scalar(units::radians_per_second(3.0), 2.0);
    assert_eq!((h.into_value(), h.dimension()), (1.5, Dimension::angular_velocity()));
}

#[test]
fn base_unit_dimensions() {
    assert_eq!(units::kilograms(1.0).dimension(), Dimension::mass());
    assert_eq!(units::meters_per_second(1.0).dimension(), Dimension::velocity());
    assert_eq!(units::joules(1.0).dimension(), Dimension::energy());
    assert!(units::radians(1.0).is_dimensionless());
    assert_eq!(Dimension::force(), Dimension::new(1, 1, -2, 0, 0, 0, 0));
    assert_eq!(Dimension::acceleration().product(&Dimension::mass()), Dimension::force());
    assert_eq!(Dimension::force().quotient(&Dimension::acceleration()), Dimension::mass());
    assert!(!Dimension::current().is_dimensionless());
    assert_eq!(Dimension::temperature().temperature, 1);
}

#[test]
fn value_in_checks_the_dimension() {
    let q = units::meters(2.0);
    assert_eq!(q.value_in(Dimension::length()), Ok(2.0));
    assert_eq!(
        q.value_in(Dimension::time()),
        Err(DimensionMismatch { lhs: Dimension::length(), rhs: Dimension::time() })
    );
}

#[test]
fn mutable_value_keeps_the_dimension() {
    let mut q = units::seconds(1.0);
    *q.value_mut() = 4.0;
    assert_eq!(*q.value(), 4.0);
    assert_eq!(q.dimension(), Dimension::time());
    let d: gafro_modern::si_units::Quantity<f64> = 0.5.into();
    assert!(d.is_dimensionless());
    assert_eq!(d.into_value(), 0.5);
}
