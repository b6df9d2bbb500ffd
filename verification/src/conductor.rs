//! The conductor record: resistance, resistivity, length and
//! cross-section, tied together by `R = rho * L / A`.

use crate::geometry::{spec_area_from_d, spec_d_from_a, Area};
use crate::material::{material_of_span, select_rho, spec_material, spec_rho};
use crate::numfmt::{push_opt_qty, spec_opt_qty_chars};
use crate::parse::{
    alpha_end, alpha_from, digit_from, dot_start, kw_at, lower_chars, lower_seq, num_end,
    parse_decimal, span_eq, spec_alpha_end, spec_alpha_from, spec_decimal, spec_digit_from,
    spec_kw_at, spec_num_span, tok_views, ErrorKind, ParseError,
};
use crate::rat::{lemma_mul_div_unique, q_is_mul_div, q_val_eq, solve_ratio, spec_solve_ratio, Qty};
use vstd::prelude::*;

verus! {

/// A partial conductor record: resistance (Ohm), resistivity
/// (Ohm*mm2/m), length (m) and cross-section (mm / mm2).
#[derive(Clone, Copy, Debug)]
pub struct Elect {
    pub resistor: Option<Qty>,
    pub rho: Option<Qty>,
    pub length: Option<Qty>,
    pub area: Option<Area>,
}

/// How many of the four logical slots are filled.
pub open spec fn elect_count(e: Elect) -> int {
    (if e.resistor is Some {
        1int
    } else {
        0int
    }) + (if e.rho is Some {
        1int
    } else {
        0int
    }) + (if e.length is Some {
        1int
    } else {
        0int
    }) + (if e.area is Some {
        1int
    } else {
        0int
    })
}

/// The area value a record effectively carries: the explicit area slot,
/// or one derived from the diameter slot.
pub open spec fn spec_eff_area(e: Elect) -> Option<Qty> {
    match e.area {
        None => None,
        Some(ar) => match ar.a {
            Some(av) => Some(av),
            None => match ar.d {
                Some(dv) => spec_area_from_d(dv),
                None => None,
            },
        },
    }
}

/// `R = rho * L / A`, guarded against a near-zero area.
pub open spec fn spec_calc_resistor(e: Elect) -> Option<Qty> {
    match (spec_eff_area(e), e.rho, e.length) {
        (Some(av), Some(pv), Some(lv)) => spec_solve_ratio(pv, lv, av),
        _ => None,
    }
}

/// `rho = R * A / L`, guarded against a near-zero length.
pub open spec fn spec_calc_rho(e: Elect) -> Option<Qty> {
    match (spec_eff_area(e), e.resistor, e.length) {
        (Some(av), Some(rv), Some(lv)) => spec_solve_ratio(rv, av, lv),
        _ => None,
    }
}

/// `L = R * A / rho`, guarded against a near-zero resistivity.
pub open spec fn spec_calc_length(e: Elect) -> Option<Qty> {
    match (spec_eff_area(e), e.resistor, e.rho) {
        (Some(av), Some(rv), Some(pv)) => spec_solve_ratio(rv, av, pv),
        _ => None,
    }
}

/// `A = rho * L / R`, guarded against a near-zero resistance.
pub open spec fn spec_calc_area(e: Elect) -> Option<Qty> {
    match (e.rho, e.length, e.resistor) {
        (Some(pv), Some(lv), Some(rv)) => spec_solve_ratio(pv, lv, rv),
        _ => None,
    }
}

/// One token, already lowered, applied to a conductor record under
/// construction. A token holding a digit must be a decimal number
/// followed by a unit keyword; a token without a digit names a
/// material, either bare or as `material=<name>`.
pub open spec fn spec_apply_elect(e: Elect, s: Seq<char>, idx: usize) -> Result<
    Elect,
    ParseError,
> {
    if spec_digit_from(s, 0) < s.len() {
        let sp = spec_num_span(s);
        let q = spec_decimal(s.subrange(sp.start, sp.end), sp.neg);
        if spec_kw_at(s, sp.end, "ohmxmm2/m"@) {
            match q {
                Some(qv) => Ok(Elect { rho: Some(qv), ..e }),
                None => Err(ParseError { kind: ErrorKind::InvalidNumber, token: idx }),
            }
        } else if spec_kw_at(s, sp.end, "ohm"@) {
            match q {
                Some(qv) => Ok(Elect { resistor: Some(qv), ..e }),
                None => Err(ParseError { kind: ErrorKind::InvalidNumber, token: idx }),
            }
        } else if spec_kw_at(s, sp.end, "mm2"@) {
            match q {
                Some(qv) => Ok(
                    Elect { area: Some(Area { d: spec_d_from_a(qv), a: Some(qv) }), ..e },
                ),
                None => Err(ParseError { kind: ErrorKind::InvalidNumber, token: idx }),
            }
        } else if spec_kw_at(s, sp.end, "mm"@) {
            match q {
                Some(qv) => Ok(
                    Elect { area: Some(Area { d: Some(qv), a: spec_area_from_d(qv) }), ..e },
                ),
                None => Err(ParseError { kind: ErrorKind::InvalidNumber, token: idx }),
            }
        } else if spec_kw_at(s, sp.end, "m"@) {
            match q {
                Some(qv) => Ok(Elect { length: Some(qv), ..e }),
                None => Err(ParseError { kind: ErrorKind::InvalidNumber, token: idx }),
            }
        } else {
            Err(ParseError { kind: ErrorKind::InvalidUnit, token: idx })
        }
    } else {
        let w0 = spec_alpha_from(s, 0);
        if w0 >= s.len() {
            Err(ParseError { kind: ErrorKind::InvalidUnit, token: idx })
        } else {
            let w1 = spec_alpha_end(s, w0);
            let ns = if s.subrange(w0, w1) == "material"@ && w1 < s.len() && s[w1] == '=' {
                spec_alpha_from(s, w1 + 1)
            } else {
                w0
            };
            let ne = if s.subrange(w0, w1) == "material"@ && w1 < s.len() && s[w1] == '=' {
                spec_alpha_end(s, ns)
            } else {
                w1
            };
            match spec_material(s.subrange(ns, ne)) {
                Some(mat) => Ok(Elect { rho: Some(spec_rho(mat)), ..e }),
                None => Err(ParseError { kind: ErrorKind::UnknownMaterial, token: idx }),
            }
        }
    }
}

/// The first `n` tokens of a batch folded into a record; the first
/// faulty token aborts the batch.
pub open spec fn spec_parse_elect(toks: Seq<Seq<char>>, n: int) -> Result<Elect, ParseError>
    decreases n when 0 <= n <= toks.len()
{
    if n <= 0 {
        Ok(Elect { resistor: None, rho: None, length: None, area: None })
    } else {
        match spec_parse_elect(toks, n - 1) {
            Err(pe) => Err(pe),
            Ok(acc) => spec_apply_elect(acc, lower_seq(toks[n - 1]), (n - 1) as usize),
        }
    }
}

/// A faulty token keeps the whole batch faulty.
pub proof fn lemma_parse_elect_err(toks: Seq<Seq<char>>, i: int, n: int)
    requires
        0 <= i <= n <= toks.len(),
        spec_parse_elect(toks, i) is Err,
    ensures
        spec_parse_elect(toks, n) == spec_parse_elect(toks, i),
    decreases n - i,
{
    if i < n {
        lemma_parse_elect_err(toks, i, n - 1);
    }
}

fn apply_elect_token(e: Elect, lt: &Vec<char>, idx: usize) -> (r: Result<Elect, ParseError>)
    ensures
        r == spec_apply_elect(e, lt@, idx),
{
    let n = lt.len();
    let i0 = digit_from(lt, 0);
    if i0 < n {
        let start = dot_start(lt, i0);
        let neg = start > 0 && lt[start - 1] == '-';
        let end = num_end(lt, i0);
        if kw_at(lt, end, "ohmxmm2/m") {
            match parse_decimal(lt, start, end, neg) {
                Some(qv) => Ok(Elect { rho: Some(qv), ..e }),
                None => Err(ParseError { kind: ErrorKind::InvalidNumber, token: idx }),
            }
        } else if kw_at(lt, end, "ohm") {
            match parse_decimal(lt, start, end, neg) {
                Some(qv) => Ok(Elect { resistor: Some(qv), ..e }),
                None => Err(ParseError { kind: ErrorKind::InvalidNumber, token: idx }),
            }
        } else if kw_at(lt, end, "mm2") {
            match parse_decimal(lt, start, end, neg) {
                Some(qv) => {
                    let mut ar = Area { d: None, a: Some(qv) };
                    ar.calc_d();
                    Ok(Elect { area: Some(ar), ..e })
                },
                None => Err(ParseError { kind: ErrorKind::InvalidNumber, token: idx }),
            }
        } else if kw_at(lt, end, "mm") {
            match parse_decimal(lt, start, end, neg) {
                Some(qv) => {
                    let mut ar = Area { d: Some(qv), a: None };
                    ar.calc_area();
                    Ok(Elect { area: Some(ar), ..e })
                },
                None => Err(ParseError { kind: ErrorKind::InvalidNumber, token: idx }),
            }
        } else if kw_at(lt, end, "m") {
            match parse_decimal(lt, start, end, neg) {
                Some(qv) => Ok(Elect { length: Some(qv), ..e }),
                None => Err(ParseError { kind: ErrorKind::InvalidNumber, token: idx }),
            }
        } else {
            Err(ParseError { kind: ErrorKind::InvalidUnit, token: idx })
        }
    } else {
        let w0 = alpha_from(lt, 0);
        if w0 >= n {
            Err(ParseError { kind: ErrorKind::InvalidUnit, token: idx })
        } else {
            let w1 = alpha_end(lt, w0);
            let combined = span_eq(lt, w0, w1, "material") && w1 < n && lt[w1] == '=';
            let ns = if combined {
                alpha_from(lt, w1 + 1)
            } else {
                w0
            };
            let ne = if combined {
                alpha_end(lt, ns)
            } else {
                w1
            };
            match material_of_span(lt, ns, ne) {
                Some(mat) => Ok(Elect { rho: Some(select_rho(mat)), ..e }),
                None => Err(ParseError { kind: ErrorKind::UnknownMaterial, token: idx }),
            }
        }
    }
}


/// The sentence the formatter renders for a solved slot; every other
/// slot index renders nothing. Absent values read `0`.
pub open spec fn spec_elect_sentence(e: Elect, num: i8) -> Seq<char> {
    let a = spec_opt_qty_chars(match e.area {
        Some(ar) => ar.a,
        None => None,
    });
    let d = spec_opt_qty_chars(match e.area {
        Some(ar) => ar.d,
        None => None,
    });
    let rho = spec_opt_qty_chars(e.rho);
    let res = spec_opt_qty_chars(e.resistor);
    let len = spec_opt_qty_chars(e.length);
    if num == 0 {
        "The resistenz of the "@ + len + " m long cable with the area of "@ + a
            + " mm2 and the diameter "@ + d + " mm with the specific resistenz of "@ + rho
            + " Ohm*mm2/m is: "@ + res + " Ohm"@
    } else if num == 1 {
        "The specific resistenz of the "@ + len + " m long cable with the area of "@ + a
            + " mm2 and the diameter "@ + d + " mm for the resistenz of "@ + res + " Ohm is: "@
            + rho + " Ohm*mm2/m"@
    } else if num == 2 {
        "The length of the cable with the area of "@ + a + " mm2 and the diameter of "@ + d
            + " mm for the resistenz of "@ + res + " Ohm and the specific resistenz of "@ + rho
            + " Ohm*mm2/m is: "@ + len + " m"@
    } else if num == 3 {
        "The area and the diameter for the cable with the length of "@ + len
            + " m for the resistenz of "@ + res + " Ohm and the specific resistenz of "@ + rho
            + " Ohm*mm2/m is: "@ + a + " mm2 and "@ + d + " mm"@
    } else {
        Seq::empty()
    }
}

impl Elect {
    /// Build a conductor record from a batch of tokens; the first token
    /// that parses to nothing aborts the batch and names its fault.
    pub fn new(s: Vec<String>) -> (r: Result<Elect, ParseError>)
        ensures
            r == spec_parse_elect(tok_views(s@), s@.len() as int),
    {
        let mut e = Elect { resistor: None, rho: None, length: None, area: None };
        let mut k: usize = 0;
        while k < s.len()
            invariant
                k <= s@.len(),
                spec_parse_elect(tok_views(s@), k as int) == Result::<Elect, ParseError>::Ok(e),
            decreases s@.len() - k,
        {
            let lt = lower_chars(s[k].as_str());
            proof {
                assert(tok_views(s@)[k as int] == s@[k as int]@);
            }
            match apply_elect_token(e, &lt, k) {
                Ok(e2) => {
                    e = e2;
                },
                Err(pe) => {
                    proof {
                        lemma_parse_elect_err(tok_views(s@), k + 1, s@.len() as int);
                    }
                    return Err(pe);
                },
            }
            k += 1;
        }
        Ok(e)
    }

    /// The effective area: the stored one, or the one the diameter
    /// yields.
    fn eff_area(&self) -> (r: Option<Qty>)
        ensures
            r == spec_eff_area(*self),
    {
        match &self.area {
            None => None,
            Some(ar) => match &ar.a {
                Some(av) => Some(*av),
                None => match &ar.d {
                    Some(dv) => {
                        let mut tmp = Area { d: Some(*dv), a: None };
                        tmp.calc_area();
                        tmp.a
                    },
                    None => None,
                },
            },
        }
    }

    /// Fill the resistance slot from resistivity, length and area.
    pub fn calc_resistor(&mut self)
        ensures
            final(self).rho == old(self).rho,
            final(self).length == old(self).length,
            final(self).area == old(self).area,
            final(self).resistor == spec_calc_resistor(*old(self)),
            final(self).resistor matches Some(q) ==> (spec_eff_area(*old(self)) matches Some(av)
                && old(self).rho matches Some(pv) && old(self).length matches Some(lv)
                && q_is_mul_div(q, pv, lv, av) && (pv.wf() && lv.wf() ==> q.wf())),
    {
        let a = self.eff_area();
        self.resistor = match (&a, &self.rho, &self.length) {
            (Some(av), Some(pv), Some(lv)) => solve_ratio(pv, lv, av),
            _ => None,
        };
    }

    /// Fill the resistivity slot from resistance, length and area.
    pub fn calc_rho(&mut self)
        ensures
            final(self).resistor == old(self).resistor,
            final(self).length == old(self).length,
            final(self).area == old(self).area,
            final(self).rho == spec_calc_rho(*old(self)),
            final(self).rho matches Some(q) ==> (spec_eff_area(*old(self)) matches Some(av) && old(self).resistor matches Some(rv) && old(self).length matches Some(lv) && q_is_mul_div(
                q,
                rv,
                av,
                lv,
            ) && (rv.wf() && av.wf() ==> q.wf())),
    {
        let a = self.eff_area();
        self.rho = match (&a, &self.resistor, &self.length) {
            (Some(av), Some(rv), Some(lv)) => solve_ratio(rv, av, lv),
            _ => None,
        };
    }

    /// Fill the length slot from resistance, resistivity and area.
    pub fn calc_length(&mut self)
        ensures
            final(self).resistor == old(self).resistor,
            final(self).rho == old(self).rho,
            final(self).area == old(self).area,
            final(self).length == spec_calc_length(*old(self)),
            final(self).length matches Some(q) ==> (spec_eff_area(*old(self)) matches Some(av)
                && old(self).resistor matches Some(rv) && old(self).rho matches Some(pv)
                && q_is_mul_div(q, rv, av, pv) && (rv.wf() && av.wf() ==> q.wf())),
    {
        let a = self.eff_area();
        self.length = match (&a, &self.resistor, &self.rho) {
            (Some(av), Some(rv), Some(pv)) => solve_ratio(rv, av, pv),
            _ => None,
        };
    }

    /// Fill the area slot from resistance, resistivity and length. Only
    /// the area field of the cross-section is set; the diameter is not
    /// derived back from it.
    pub fn calc_area(&mut self)
        ensures
            final(self).resistor == old(self).resistor,
            final(self).rho == old(self).rho,
            final(self).length == old(self).length,
            final(self).area == (match spec_calc_area(*old(self)) {
                Some(q) => Some(Area { d: None, a: Some(q) }),
                None => None,
            }),
            spec_calc_area(*old(self)) matches Some(q) ==> (old(self).rho matches Some(pv) && old(self).length matches Some(lv) && old(self).resistor matches Some(rv) && q_is_mul_div(
                q,
                pv,
                lv,
                rv,
            ) && (pv.wf() && lv.wf() ==> q.wf())),
    {
        let r = match (&self.rho, &self.length, &self.resistor) {
            (Some(pv), Some(lv), Some(rv)) => solve_ratio(pv, lv, rv),
            _ => None,
        };
        self.area = match r {
            Some(q) => Some(Area { d: None, a: Some(q) }),
            None => None,
        };
    }


    /// Render the solved record as a sentence.
    pub fn print_res(&self, num: i8) -> (r: String)
        ensures
            r@ == spec_elect_sentence(*self, num),
    {
        let aa: Option<Qty> = match &self.area {
            Some(ar) => ar.a,
            None => None,
        };
        let dd: Option<Qty> = match &self.area {
            Some(ar) => ar.d,
            None => None,
        };
        let mut out = String::new();
        if num == 0 {
            out.append("The resistenz of the ");
            push_opt_qty(&mut out, &self.length);
            out.append(" m long cable with the area of ");
            push_opt_qty(&mut out, &aa);
            out.append(" mm2 and the diameter ");
            push_opt_qty(&mut out, &dd);
            out.append(" mm with the specific resistenz of ");
            push_opt_qty(&mut out, &self.rho);
            out.append(" Ohm*mm2/m is: ");
            push_opt_qty(&mut out, &self.resistor);
            out.append(" Ohm");
        } else if num == 1 {
            out.append("The specific resistenz of the ");
            push_opt_qty(&mut out, &self.length);
            out.append(" m long cable with the area of ");
            push_opt_qty(&mut out, &aa);
            out.append(" mm2 and the diameter ");
            push_opt_qty(&mut out, &dd);
            out.append(" mm for the resistenz of ");
            push_opt_qty(&mut out, &self.resistor);
            out.append(" Ohm is: ");
            push_opt_qty(&mut out, &self.rho);
            out.append(" Ohm*mm2/m");
        } else if num == 2 {
            out.append("The length of the cable with the area of ");
            push_opt_qty(&mut out, &aa);
            out.append(" mm2 and the diameter of ");
            push_opt_qty(&mut out, &dd);
            out.append(" mm for the resistenz of ");
            push_opt_qty(&mut out, &self.resistor);
            out.append(" Ohm and the specific resistenz of ");
            push_opt_qty(&mut out, &self.rho);
            out.append(" Ohm*mm2/m is: ");
            push_opt_qty(&mut out, &self.length);
            out.append(" m");
        } else if num == 3 {
            out.append("The area and the diameter for the cable with the length of ");
            push_opt_qty(&mut out, &self.length);
            out.append(" m for the resistenz of ");
            push_opt_qty(&mut out, &self.resistor);
            out.append(" Ohm and the specific resistenz of ");
            push_opt_qty(&mut out, &self.rho);
            out.append(" Ohm*mm2/m is: ");
            push_opt_qty(&mut out, &aa);
            out.append(" mm2 and ");
            push_opt_qty(&mut out, &dd);
            out.append(" mm");
        }
        proof {
            assert(out@ =~= spec_elect_sentence(*self, num));
        }
        out
    }

    /// Solve the record: exactly three known slots are required, and
    /// then the one missing slot is computed. The result identifies the
    /// solved slot (0 resistance, 1 resistivity, 2 length, 3 area) and
    /// is -1 when the record is under- or over-determined or a guard
    /// tripped.
    pub fn calc(&mut self) -> (num: i8)
        ensures
            elect_count(*old(self)) != 3 ==> *final(self) == *old(self) && num == -1,
            elect_count(*old(self)) == 3 && old(self).resistor is None ==> final(self).resistor
                == spec_calc_resistor(*old(self)) && final(self).rho == old(self).rho && final(self).length == old(self).length && final(self).area == old(self).area && num == (
            if spec_calc_resistor(*old(self)) is Some {
                0
            } else {
                -1
            }),
            elect_count(*old(self)) == 3 && old(self).rho is None ==> final(self).rho
                == spec_calc_rho(*old(self)) && final(self).resistor == old(self).resistor
                && final(self).length == old(self).length && final(self).area == old(self).area
                && num == (if spec_calc_rho(*old(self)) is Some {
                1
            } else {
                -1
            }),
            elect_count(*old(self)) == 3 && old(self).length is None ==> final(self).length
                == spec_calc_length(*old(self)) && final(self).resistor == old(self).resistor
                && final(self).rho == old(self).rho && final(self).area == old(self).area && num
                == (if spec_calc_length(*old(self)) is Some {
                2
            } else {
                -1
            }),
            elect_count(*old(self)) == 3 && old(self).area is None ==> final(self).area == (
            match spec_calc_area(*old(self)) {
                Some(q) => Some(Area { d: None, a: Some(q) }),
                None => None,
            }) && final(self).resistor == old(self).resistor && final(self).rho == old(self).rho
                && final(self).length == old(self).length && num == (if spec_calc_area(
                *old(self),
            ) is Some {
                3
            } else {
                -1
            }),
    {
        let counter: i8 = (if self.resistor.is_some() {
            1
        } else {
            0
        }) + (if self.rho.is_some() {
            1
        } else {
            0
        }) + (if self.length.is_some() {
            1
        } else {
            0
        }) + (if self.area.is_some() {
            1
        } else {
            0
        });
        let mut num: i8 = -1;
        if counter == 3 {
            if self.resistor.is_none() {
                self.calc_resistor();
                if self.resistor.is_some() {
                    num = 0;
                }
            } else if self.rho.is_none() {
                self.calc_rho();
                if self.rho.is_some() {
                    num = 1;
                }
            } else if self.length.is_none() {
                self.calc_length();
                if self.length.is_some() {
                    num = 2;
                }
            } else {
                self.calc_area();
                if self.area.is_some() {
                    num = 3;
                }
            }
        }
        num
    }
}

/// The solver's defining relation is symmetric: when `r` is exactly
/// `rho * l / a` (all four values positive), each of the other three
/// slots satisfies the relation its own solve formula targets. Together
/// with `lemma_mul_div_unique` this says that solving for the missing
/// slot and then re-solving for any of the original three reproduces
/// the original value exactly.
#[verifier::rlimit(50)]
pub proof fn lemma_conductor_round_trip(r: Qty, p: Qty, l: Qty, a: Qty)
    requires
        r.wf(),
        p.wf(),
        l.wf(),
        a.wf(),
        r.pos(),
        p.pos(),
        l.pos(),
        a.pos(),
        q_is_mul_div(r, p, l, a),
    ensures
        q_is_mul_div(p, r, a, l),
        q_is_mul_div(l, r, a, p),
        q_is_mul_div(a, p, l, r),
{
    assert(p.n() * (r.d() * a.d() * l.n()) == (r.n() * a.n() * l.d()) * p.d()) by (nonlinear_arith)
        requires
            r.n() * (p.d() * l.d() * a.n()) == (p.n() * l.n() * a.d()) * r.d(),
    ;
    assert(l.n() * (r.d() * a.d() * p.n()) == (r.n() * a.n() * p.d()) * l.d()) by (nonlinear_arith)
        requires
            r.n() * (p.d() * l.d() * a.n()) == (p.n() * l.n() * a.d()) * r.d(),
    ;
    assert(a.n() * (p.d() * l.d() * r.n()) == (p.n() * l.n() * r.d()) * a.d()) by (nonlinear_arith)
        requires
            r.n() * (p.d() * l.d() * a.n()) == (p.n() * l.n() * a.d()) * r.d(),
    ;
}

/// The composed law: when `r` was solved as `rho * l / a` from positive
/// values and one of the original slots is then re-solved from the
/// others (so that it satisfies its own formula's defining relation),
/// the value obtained denotes the same rational as the original.
pub proof fn lemma_conductor_resolve_unique(r: Qty, p: Qty, l: Qty, a: Qty, s: Qty)
    requires
        r.wf(),
        p.wf(),
        l.wf(),
        a.wf(),
        r.pos(),
        p.pos(),
        l.pos(),
        a.pos(),
        s.wf(),
        q_is_mul_div(r, p, l, a),
        q_is_mul_div(s, r, a, l) || q_is_mul_div(s, r, a, p) || q_is_mul_div(s, p, l, r),
    ensures
        q_is_mul_div(s, r, a, l) ==> q_val_eq(s, p),
        q_is_mul_div(s, r, a, p) ==> q_val_eq(s, l),
        q_is_mul_div(s, p, l, r) ==> q_val_eq(s, a),
{
    lemma_conductor_round_trip(r, p, l, a);
    if q_is_mul_div(s, r, a, l) {
        lemma_mul_div_unique(s, p, r, a, l);
    }
    if q_is_mul_div(s, r, a, p) {
        lemma_mul_div_unique(s, l, r, a, p);
    }
    if q_is_mul_div(s, p, l, r) {
        lemma_mul_div_unique(s, a, p, l, r);
    }
}

} // verus!
