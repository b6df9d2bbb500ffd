//! Circular cross-section geometry: diameter and area, each derivable
//! from the other.

use crate::rat::{
    is_isqrt, isqrt_u128, lemma_isqrt_unique, q_div, q_mul, q_val_eq, spec_div, spec_isqrt,
    spec_mul, Qty,
};
use vstd::prelude::*;

verus! {

/// The circle constant used throughout: 3.141, kept exact as 3141/1000.
pub open spec fn pi_qty() -> Qty {
    Qty { neg: false, num: 3141, den: 1000 }
}

pub open spec fn four_qty() -> Qty {
    Qty { neg: false, num: 4, den: 1 }
}

/// A circular cross-section: diameter `d` (mm) and area `a` (mm2).
#[derive(Clone, Copy, Debug)]
pub struct Area {
    pub d: Option<Qty>,
    pub a: Option<Qty>,
}

/// The area of a circle of diameter `d`: `pi * d * d / 4`, exactly;
/// `None` when the products leave `u128`.
pub open spec fn spec_area_from_d(d: Qty) -> Option<Qty> {
    match spec_mul(d, d) {
        None => None,
        Some(t1) => match spec_mul(pi_qty(), t1) {
            None => None,
            Some(t2) => spec_div(t2, four_qty()),
        },
    }
}

/// The diameter of a circle of area `a`: the integer square root of
/// `4 * a / pi` at denominator granularity; `None` for `a <= 0` and when
/// the products leave `u128`.
pub open spec fn spec_d_from_a(a: Qty) -> Option<Qty> {
    match spec_mul(a, four_qty()) {
        None => None,
        Some(t1) => match spec_div(t1, pi_qty()) {
            None => None,
            Some(x) => if x.neg || x.num == 0 {
                None
            } else if x.num * x.den > u128::MAX {
                None
            } else {
                Some(
                    Qty {
                        neg: false,
                        num: spec_isqrt((x.num * x.den) as nat) as u128,
                        den: x.den,
                    },
                )
            },
        },
    }
}

impl Area {
    /// Derive the area slot from the diameter slot.
    pub fn calc_area(&mut self)
        ensures
            final(self).d == old(self).d,
            final(self).a == (match old(self).d {
                Some(dv) => spec_area_from_d(dv),
                None => None,
            }),
            final(self).a matches Some(av) ==> (old(self).d matches Some(dv) && !av.neg
                && av.num == 3141 * (dv.num * dv.num) && av.den == 4000 * (dv.den * dv.den)),
            final(self).a matches Some(av) ==> (old(self).d.unwrap().wf() ==> av.wf()),
    {
        self.a = match &self.d {
            Some(dv) => {
                match q_mul(dv, dv) {
                    Some(t1) => {
                        match q_mul(&Qty { neg: false, num: 3141, den: 1000 }, &t1) {
                            Some(t2) => q_div(&t2, &Qty { neg: false, num: 4, den: 1 }),
                            None => None,
                        }
                    },
                    None => None,
                }
            },
            None => None,
        };
        proof {
            if self.a is Some {
                let dv = old(self).d.unwrap();
                let av = self.a.unwrap();
                assert(av.num == 3141 * (dv.num * dv.num) && av.den == 4000 * (dv.den
                    * dv.den)) by (nonlinear_arith)
                    requires
                        av.num == (3141 * (dv.num * dv.num)) * 1,
                        av.den == (1000 * (dv.den * dv.den)) * 4,
                ;
                if dv.wf() {
                    assert(av.den >= 1) by (nonlinear_arith)
                        requires
                            av.den == 4000 * (dv.den * dv.den),
                            dv.den >= 1,
                    ;
                }
            }
        }
    }

    /// Derive the diameter slot from the area slot; for `a <= 0` the
    /// diameter is undefined and the slot is cleared.
    pub fn calc_d(&mut self)
        ensures
            final(self).a == old(self).a,
            final(self).d == (match old(self).a {
                Some(av) => spec_d_from_a(av),
                None => None,
            }),
            final(self).d matches Some(dv) ==> (old(self).a matches Some(av) && !dv.neg
                && dv.den == (av.den * 3141) as u128 && is_isqrt(
                (av.num * 4000) * (av.den * 3141),
                dv.num as int,
            )),
            final(self).d matches Some(dv) ==> (old(self).a.unwrap().wf() ==> dv.wf()),
    {
        self.d = match &self.a {
            Some(av) => {
                match q_mul(av, &Qty { neg: false, num: 4, den: 1 }) {
                    Some(t1) => {
                        match q_div(&t1, &Qty { neg: false, num: 3141, den: 1000 }) {
                            Some(x) => {
                                if x.neg || x.num == 0 {
                                    None
                                } else {
                                    match x.num.checked_mul(x.den) {
                                        Some(t) => {
                                            let s = isqrt_u128(t);
                                            Some(Qty { neg: false, num: s, den: x.den })
                                        },
                                        None => None,
                                    }
                                }
                            },
                            None => None,
                        }
                    },
                    None => None,
                }
            },
            None => None,
        };
        proof {
            if self.d is Some {
                let av = old(self).a.unwrap();
                let dv = self.d.unwrap();
                assert(spec_mul(av, four_qty()) is Some);
                let t1s = spec_mul(av, four_qty()).unwrap();
                assert(t1s.num == av.num * 4);
                assert(t1s.den == av.den * 1);
                assert(spec_div(t1s, pi_qty()) is Some);
                let xs = spec_div(t1s, pi_qty()).unwrap();
                assert(xs.num == (av.num * 4) * 1000);
                assert(xs.den == (av.den * 1) * 3141);
                assert(xs.num == av.num * 4000) by (nonlinear_arith)
                    requires
                        xs.num == (av.num * 4) * 1000,
                ;
                assert(xs.den == av.den * 3141) by (nonlinear_arith)
                    requires
                        xs.den == (av.den * 1) * 3141,
                ;
                assert((xs.num as int) * (xs.den as int) == (av.num * 4000) * (av.den * 3141));
                assert(dv.den == (av.den * 1) * 3141);
                if av.wf() {
                    assert((av.den * 1) * 3141 >= 1) by (nonlinear_arith)
                        requires
                            av.den >= 1,
                    ;
                }
            }
        }
    }
}

/// The geometry round trip is exact: deriving the area from a positive
/// diameter and then the diameter back from that area reproduces the
/// original diameter as the same rational value.
pub proof fn lemma_geometry_round_trip(d0: Qty, a: Qty, d1: Qty)
    requires
        d0.wf(),
        d0.pos(),
        !a.neg,
        a.num == 3141 * (d0.num * d0.num),
        a.den == 4000 * (d0.den * d0.den),
        !d1.neg,
        d1.den == a.den * 3141,
        is_isqrt((a.num * 4000) * (a.den * 3141), d1.num as int),
    ensures
        q_val_eq(d1, d0),
{
    let k = 12564000 * (d0.num * d0.den);
    assert((a.num * 4000) * (a.den * 3141) == k * k) by (nonlinear_arith)
        requires
            a.num == 3141 * (d0.num * d0.num),
            a.den == 4000 * (d0.den * d0.den),
            k == 12564000 * (d0.num * d0.den),
    ;
    assert(is_isqrt(k * k, k)) by (nonlinear_arith)
        requires
            k >= 0,
    ;
    lemma_isqrt_unique(k * k, d1.num as int, k);
    assert(d1.n() * d0.d() == d0.n() * d1.d()) by (nonlinear_arith)
        requires
            !d1.neg,
            !d0.neg,
            d1.num as int == 12564000 * (d0.num * d0.den),
            d1.den == a.den * 3141,
            a.den == 4000 * (d0.den * d0.den),
            d1.n() == d1.num as int,
            d0.n() == d0.num as int,
            d1.d() == d1.den as int,
            d0.d() == d0.den as int,
    ;
}

} // verus!
