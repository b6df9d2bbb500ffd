use ohmcalc::circuit::URI;
use ohmcalc::conductor::Elect;
use ohmcalc::geometry::Area;
use ohmcalc::rat::Qty;

fn q(num: u128, den: u128) -> Qty {
    Qty { neg: false, num, den }
}

#[test]
fn circuit_solves_voltage() {
    let mut uri = URI { u: None, i: Some(q(2, 1)), r: Some(q(5, 1)) };
    let num = uri.calc();
    assert_eq!(num, 0);
    let u = uri.u.unwrap();
    assert!(!u.neg);
    assert_eq!(u.num, 10);
    assert_eq!(u.den, 1);
}

#[test]
fn circuit_solves_current() {
    let mut uri = URI { u: Some(q(10, 1)), i: None, r: Some(q(5, 1)) };
    let num = uri.calc();
    assert_eq!(num, 1);
    let i = uri.i.unwrap();
    assert!(!i.neg);
    // the value is 2: cross-multiplied against 2/1
    assert_eq!(i.num * 1, 2 * i.den);
}

#[test]
fn circuit_solves_resistance() {
    let mut uri = URI { u: Some(q(10, 1)), i: Some(q(2, 1)), r: None };
    let num = uri.calc();
    assert_eq!(num, 2);
    let r = uri.r.unwrap();
    assert!(!r.neg);
    assert_eq!(r.num * 1, 5 * r.den);
}

#[test]
fn circuit_zero_inputs_unsolved() {
    // R = 0 and I = 0 are not strictly positive: U stays absent.
    let mut uri = URI { u: None, i: Some(q(0, 1)), r: Some(q(0, 1)) };
    let num = uri.calc();
    assert_eq!(num, -1);
    assert!(uri.u.is_none());
}

#[test]
fn circuit_wrong_count_unsolved() {
    let mut one = URI { u: Some(q(10, 1)), i: None, r: None };
    assert_eq!(one.calc(), -1);
    assert!(one.i.is_none());
    assert!(one.r.is_none());
    let mut three = URI { u: Some(q(10, 1)), i: Some(q(2, 1)), r: Some(q(5, 1)) };
    assert_eq!(three.calc(), -1);
}

#[test]
fn conductor_solves_resistance() {
    let mut e = Elect {
        resistor: None,
        rho: Some(q(2, 1)),
        length: Some(q(3, 1)),
        area: Some(Area { d: None, a: Some(q(1, 1)) }),
    };
    let num = e.calc();
    assert_eq!(num, 0);
    let r = e.resistor.unwrap();
    assert!(!r.neg);
    // R = rho * L / A = 6
    assert_eq!(r.num * 1, 6 * r.den);
}

#[test]
fn conductor_resolve_round_trip() {
    // Solve R from (rho, L, A), then re-solve rho treating R as known.
    let mut e = Elect {
        resistor: None,
        rho: Some(q(2, 1)),
        length: Some(q(3, 1)),
        area: Some(Area { d: None, a: Some(q(1, 1)) }),
    };
    assert_eq!(e.calc(), 0);
    let r = e.resistor.unwrap();
    let mut e2 = Elect {
        resistor: Some(r),
        rho: None,
        length: Some(q(3, 1)),
        area: Some(Area { d: None, a: Some(q(1, 1)) }),
    };
    assert_eq!(e2.calc(), 1);
    let rho = e2.rho.unwrap();
    assert!(!rho.neg);
    assert_eq!(rho.num * 1, 2 * rho.den);
}

#[test]
fn conductor_two_known_unsolved() {
    let mut e = Elect {
        resistor: None,
        rho: Some(q(2, 1)),
        length: Some(q(3, 1)),
        area: None,
    };
    assert_eq!(e.calc(), -1);
    assert!(e.resistor.is_none());
    assert!(e.area.is_none());
}

#[test]
fn conductor_four_known_unsolved() {
    let mut e = Elect {
        resistor: Some(q(6, 1)),
        rho: Some(q(2, 1)),
        length: Some(q(3, 1)),
        area: Some(Area { d: None, a: Some(q(1, 1)) }),
    };
    assert_eq!(e.calc(), -1);
    // the record is left as it was
    assert_eq!(e.resistor.unwrap().num, 6);
}

#[test]
fn conductor_guard_boundary_unsolved() {
    // rho = 1.721e-2, L = 10, A = 1e-9: exactly at the near-zero guard.
    let mut e = Elect {
        resistor: None,
        rho: Some(q(1721, 100000)),
        length: Some(q(10, 1)),
        area: Some(Area { d: None, a: Some(q(1, 1000000000)) }),
    };
    assert_eq!(e.calc(), -1);
    assert!(e.resistor.is_none());
}

#[test]
fn conductor_solves_area_without_diameter() {
    let mut e = Elect {
        resistor: Some(q(6, 1)),
        rho: Some(q(2, 1)),
        length: Some(q(3, 1)),
        area: None,
    };
    assert_eq!(e.calc(), 3);
    let ar = e.area.unwrap();
    // the diameter is not derived back
    assert!(ar.d.is_none());
    let a = ar.a.unwrap();
    assert_eq!(a.num * 1, 1 * a.den);
}

#[test]
fn geometry_round_trip_exact() {
    // d = 3/2: the derived area leads back to exactly d.
    let mut ar = Area { d: Some(q(3, 2)), a: None };
    ar.calc_area();
    let a = ar.a.unwrap();
    assert_eq!(a.num, 3141 * 9);
    assert_eq!(a.den, 4000 * 4);
    ar.calc_d();
    let d = ar.d.unwrap();
    assert!(!d.neg);
    assert_eq!(d.num * 2, 3 * d.den);
}

#[test]
fn geometry_nonpositive_area_no_diameter() {
    let mut zero = Area { d: None, a: Some(q(0, 1)) };
    zero.calc_d();
    assert!(zero.d.is_none());
    let mut negative = Area { d: None, a: Some(Qty { neg: true, num: 4, den: 1 }) };
    negative.calc_d();
    assert!(negative.d.is_none());
}

#[test]
fn conductor_solves_length() {
    let mut e = Elect {
        resistor: Some(q(6, 1)),
        rho: Some(q(2, 1)),
        length: None,
        area: Some(Area { d: None, a: Some(q(1, 1)) }),
    };
    assert_eq!(e.calc(), 2);
    let l = e.length.unwrap();
    // L = R * A / rho = 3
    assert_eq!(l.num * 1, 3 * l.den);
}

#[test]
fn circuit_current_exact_representation() {
    // I = U / R is stored as the exact unreduced fraction 10/5.
    let mut uri = URI { u: Some(q(10, 1)), i: None, r: Some(q(5, 1)) };
    assert_eq!(uri.calc(), 1);
    let i = uri.i.unwrap();
    assert_eq!((i.num, i.den), (10, 5));
}

#[test]
fn conductor_accepts_negative_values() {
    // the conductor guard is on magnitude only: a negative resistivity
    // passes through and signs the result
    let mut e = Elect {
        resistor: None,
        rho: Some(Qty { neg: true, num: 2, den: 1 }),
        length: Some(q(3, 1)),
        area: Some(Area { d: None, a: Some(q(1, 1)) }),
    };
    assert_eq!(e.calc(), 0);
    let r = e.resistor.unwrap();
    assert!(r.neg);
    assert_eq!(r.num * 1, 6 * r.den);
}

#[test]
fn quantity_from_parts() {
    assert!(Qty::from_parts(false, 1, 0).is_none());
    let v = Qty::from_parts(true, 7, 2).unwrap();
    assert!(v.is_negative());
    assert_eq!(v.numerator(), 7);
    assert_eq!(v.denominator(), 2);
}
