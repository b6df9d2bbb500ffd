//! Exact rational quantities and the checked arithmetic the solvers use.

use vstd::prelude::*;

verus! {

/// An exact rational quantity: `(-1 if neg else 1) * num / den`.
#[derive(Clone, Copy, Debug)]
pub struct Qty {
    pub neg: bool,
    pub num: u128,
    pub den: u128,
}

impl Qty {
    /// Signed numerator as a mathematical integer.
    pub open spec fn n(self) -> int {
        if self.neg {
            -(self.num as int)
        } else {
            self.num as int
        }
    }

    /// Denominator as a mathematical integer.
    pub open spec fn d(self) -> int {
        self.den as int
    }

    /// Every quantity this crate constructs has a nonzero denominator.
    pub open spec fn wf(self) -> bool {
        self.den >= 1
    }

    /// The value is strictly positive.
    pub open spec fn pos(self) -> bool {
        !self.neg && self.num > 0
    }

    /// The conductor solver's division guard: |value| <= 1e-9.
    pub open spec fn near_zero(self) -> bool {
        self.num * 1000000000 <= self.den
    }

    /// Build a quantity from its parts; `None` exactly when the
    /// denominator is zero.
    pub fn from_parts(neg: bool, num: u128, den: u128) -> (r: Option<Qty>)
        ensures
            r is Some <==> den >= 1,
            r matches Some(q) ==> q == (Qty { neg, num, den }) && q.wf(),
    {
        if den >= 1 {
            Some(Qty { neg, num, den })
        } else {
            None
        }
    }

    pub fn is_negative(&self) -> (r: bool)
        ensures
            r == self.neg,
    {
        self.neg
    }

    pub fn numerator(&self) -> (r: u128)
        ensures
            r == self.num,
    {
        self.num
    }

    pub fn denominator(&self) -> (r: u128)
        ensures
            r == self.den,
    {
        self.den
    }
}

/// `a` and `b` denote the same rational: cross-multiplication.
pub open spec fn q_val_eq(a: Qty, b: Qty) -> bool {
    a.n() * b.d() == b.n() * a.d()
}

/// `s` denotes `(x * y) / z`, stated by cross-multiplication so that it
/// is meaningful for any sign of `z`.
pub open spec fn q_is_mul_div(s: Qty, x: Qty, y: Qty, z: Qty) -> bool {
    s.n() * (x.d() * y.d() * z.n()) == (x.n() * y.n() * z.d()) * s.d()
}

/// The exact product representation, when it fits in `u128`.
pub open spec fn spec_mul(a: Qty, b: Qty) -> Option<Qty> {
    if a.num * b.num <= u128::MAX && a.den * b.den <= u128::MAX {
        Some(
            Qty {
                neg: a.neg != b.neg,
                num: (a.num * b.num) as u128,
                den: (a.den * b.den) as u128,
            },
        )
    } else {
        None
    }
}

/// The exact quotient representation `a / b`, when it fits in `u128`.
pub open spec fn spec_div(a: Qty, b: Qty) -> Option<Qty> {
    if a.num * b.den <= u128::MAX && a.den * b.num <= u128::MAX {
        Some(
            Qty {
                neg: a.neg != b.neg,
                num: (a.num * b.den) as u128,
                den: (a.den * b.num) as u128,
            },
        )
    } else {
        None
    }
}

pub(crate) fn q_mul(a: &Qty, b: &Qty) -> (r: Option<Qty>)
    ensures
        r == spec_mul(*a, *b),
        r matches Some(p) ==> p.n() == a.n() * b.n() && p.d() == a.d() * b.d(),
        r matches Some(p) ==> (a.wf() && b.wf() ==> p.wf()),
{
    let r = match (a.num.checked_mul(b.num), a.den.checked_mul(b.den)) {
        (Some(n), Some(d)) => Some(Qty { neg: a.neg != b.neg, num: n, den: d }),
        _ => None,
    };
    proof {
        if a.num * b.num <= u128::MAX && a.den * b.den <= u128::MAX {
            let p = spec_mul(*a, *b).unwrap();
            assert(p.n() == a.n() * b.n()) by (nonlinear_arith)
                requires
                    p.num == a.num * b.num,
                    p.neg == (a.neg != b.neg),
                    p.n() == (if p.neg { -(p.num as int) } else { p.num as int }),
                    a.n() == (if a.neg { -(a.num as int) } else { a.num as int }),
                    b.n() == (if b.neg { -(b.num as int) } else { b.num as int }),
            ;
            if a.wf() && b.wf() {
                assert(a.den * b.den >= 1) by (nonlinear_arith)
                    requires
                        a.den >= 1,
                        b.den >= 1,
                ;
            }
        }
    }
    r
}

pub(crate) fn q_div(a: &Qty, b: &Qty) -> (r: Option<Qty>)
    ensures
        r == spec_div(*a, *b),
        r matches Some(p) ==> p.n() * (a.d() * b.n()) == (a.n() * b.d()) * p.d(),
        r matches Some(p) ==> (a.wf() && b.num > 0 ==> p.wf()),
{
    let r = match (a.num.checked_mul(b.den), a.den.checked_mul(b.num)) {
        (Some(n), Some(d)) => Some(Qty { neg: a.neg != b.neg, num: n, den: d }),
        _ => None,
    };
    proof {
        if a.num * b.den <= u128::MAX && a.den * b.num <= u128::MAX {
            let p = spec_div(*a, *b).unwrap();
            if a.wf() && b.num > 0 {
                assert(p.den >= 1) by (nonlinear_arith)
                    requires
                        p.den == a.den * b.num,
                        a.den >= 1,
                        b.num >= 1,
                ;
            }
            assert(p.n() * (a.d() * b.n()) == (a.n() * b.d()) * p.d()) by (nonlinear_arith)
                requires
                    p.num == a.num * b.den,
                    p.den == a.den * b.num,
                    p.neg == (a.neg != b.neg),
                    p.n() == (if p.neg { -(p.num as int) } else { p.num as int }),
                    a.n() == (if a.neg { -(a.num as int) } else { a.num as int }),
                    b.n() == (if b.neg { -(b.num as int) } else { b.num as int }),
                    p.d() == p.den as int,
                    a.d() == a.den as int,
                    b.d() == b.den as int,
            ;
        }
    }
    r
}

/// The guard check, total over all representations: `false` whenever the
/// product would not even fit in `u128` (then the magnitude is far above
/// the threshold).
pub(crate) fn near_zero_check(z: &Qty) -> (b: bool)
    ensures
        b == z.near_zero(),
{
    match z.num.checked_mul(1000000000) {
        Some(p) => p <= z.den,
        None => false,
    }
}

/// The conductor formulas all have the shape `(x * y) / z`, with the
/// near-zero guard applied to the divisor `z`.
pub open spec fn spec_solve_ratio(x: Qty, y: Qty, z: Qty) -> Option<Qty> {
    if z.near_zero() {
        None
    } else {
        match spec_mul(x, y) {
            None => None,
            Some(p) => spec_div(p, z),
        }
    }
}

pub(crate) fn solve_ratio(x: &Qty, y: &Qty, z: &Qty) -> (r: Option<Qty>)
    ensures
        r == spec_solve_ratio(*x, *y, *z),
        r matches Some(s) ==> q_is_mul_div(s, *x, *y, *z),
        r matches Some(s) ==> (x.wf() && y.wf() ==> s.wf()),
{
    if near_zero_check(z) {
        None
    } else {
        match q_mul(x, y) {
            None => None,
            Some(p) => {
                let r = q_div(&p, z);
                proof {
                    if r is Some {
                        let s = r.unwrap();
                        assert(s.n() * (x.d() * y.d() * z.n()) == (x.n() * y.n() * z.d())
                            * s.d()) by (nonlinear_arith)
                            requires
                                s.n() * (p.d() * z.n()) == (p.n() * z.d()) * s.d(),
                                p.n() == x.n() * y.n(),
                                p.d() == x.d() * y.d(),
                        ;
                    }
                }
                r
            },
        }
    }
}

/// `s` is the integer square root of `t`: the greatest integer whose
/// square does not exceed `t`.
pub open spec fn is_isqrt(t: int, s: int) -> bool {
    0 <= s && s * s <= t && t < (s + 1) * (s + 1)
}

pub proof fn lemma_isqrt_exists(t: nat)
    ensures
        exists|s: int| #[trigger] is_isqrt(t as int, s),
    decreases t,
{
    if t == 0 {
        assert(is_isqrt(0, 0));
    } else {
        lemma_isqrt_exists((t - 1) as nat);
        let s = choose|s: int| #[trigger] is_isqrt(t - 1, s);
        if (s + 1) * (s + 1) <= t {
            assert(is_isqrt(t as int, s + 1)) by (nonlinear_arith)
                requires
                    is_isqrt(t - 1, s),
                    (s + 1) * (s + 1) <= t,
            ;
        } else {
            assert(is_isqrt(t as int, s));
        }
    }
}

pub proof fn lemma_isqrt_unique(t: int, s1: int, s2: int)
    requires
        is_isqrt(t, s1),
        is_isqrt(t, s2),
    ensures
        s1 == s2,
{
    assert(s1 == s2) by (nonlinear_arith)
        requires
            0 <= s1 && s1 * s1 <= t && t < (s1 + 1) * (s1 + 1),
            0 <= s2 && s2 * s2 <= t && t < (s2 + 1) * (s2 + 1),
    ;
}

/// The integer square root as a spec-level function; well defined by the
/// two lemmas above.
pub open spec fn spec_isqrt(t: nat) -> int {
    choose|s: int| #[trigger] is_isqrt(t as int, s)
}

pub(crate) fn isqrt_u128(t: u128) -> (s: u128)
    ensures
        is_isqrt(t as int, s as int),
        s as int == spec_isqrt(t as nat),
{
    let mut lo: u128 = 0;
    let mut hi: u128 = 0x1_0000_0000_0000_0000;
    proof {
        assert((0x1_0000_0000_0000_0000 as int) * (0x1_0000_0000_0000_0000 as int) > u128::MAX
            as int) by (nonlinear_arith);
    }
    while hi - lo > 1
        invariant
            lo < hi,
            hi <= 0x1_0000_0000_0000_0000,
            (lo as int) * (lo as int) <= t as int,
            (t as int) < (hi as int) * (hi as int),
        decreases hi - lo,
    {
        let mid = lo + (hi - lo) / 2;
        proof {
            assert((mid as int) * (mid as int) <= u128::MAX as int) by (nonlinear_arith)
                requires
                    mid < 0x1_0000_0000_0000_0000,
            ;
        }
        if mid * mid <= t {
            lo = mid;
        } else {
            hi = mid;
        }
    }
    proof {
        assert(is_isqrt(t as int, lo as int));
        lemma_isqrt_exists(t as nat);
        lemma_isqrt_unique(t as int, lo as int, spec_isqrt(t as nat));
    }
    lo
}

/// Equality of fractions carries across a common fraction with a nonzero
/// denominator.
pub proof fn lemma_frac_trans(an: int, ad: int, bn: int, bd: int, cn: int, cd: int)
    requires
        an * bd == bn * ad,
        bn * cd == cn * bd,
        bd != 0,
    ensures
        an * cd == cn * ad,
{
    assert(an * cd == cn * ad) by (nonlinear_arith)
        requires
            an * bd == bn * ad,
            bn * cd == cn * bd,
            bd != 0,
    ;
}

/// Two quantities that both denote `(x * y) / z` denote the same rational.
pub proof fn lemma_mul_div_unique(s1: Qty, s2: Qty, x: Qty, y: Qty, z: Qty)
    requires
        q_is_mul_div(s1, x, y, z),
        q_is_mul_div(s2, x, y, z),
        x.wf(),
        y.wf(),
        z.num != 0,
    ensures
        q_val_eq(s1, s2),
{
    assert(x.d() * y.d() * z.n() != 0) by (nonlinear_arith)
        requires
            x.d() >= 1,
            y.d() >= 1,
            z.n() != 0,
    ;
    lemma_frac_trans(
        s1.n(),
        s1.d(),
        x.n() * y.n() * z.d(),
        x.d() * y.d() * z.n(),
        s2.n(),
        s2.d(),
    );
}

} // verus!
