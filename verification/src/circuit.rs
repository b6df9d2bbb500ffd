//! The circuit record: voltage, current, resistance, and Ohm's law.

use crate::parse::{
    digit_from, dot_start, kw_at, lower_chars, lower_seq, num_end, parse_decimal, spec_decimal,
    spec_digit_from, spec_kw_at, spec_num_span, tok_views, ErrorKind, ParseError,
};
use crate::numfmt::{push_opt_qty, spec_opt_qty_chars};
use crate::rat::{q_div, q_mul, spec_div, spec_mul, Qty};
use vstd::prelude::*;

verus! {

/// A partial circuit record: voltage `u` (V), current `i` (A) and
/// resistance `r` (Ohm).
#[derive(Clone, Copy, Debug)]
pub struct URI {
    pub u: Option<Qty>,
    pub i: Option<Qty>,
    pub r: Option<Qty>,
}

/// How many of the three slots are filled.
pub open spec fn uri_count(s: URI) -> int {
    (if s.u is Some {
        1int
    } else {
        0int
    }) + (if s.i is Some {
        1int
    } else {
        0int
    }) + (if s.r is Some {
        1int
    } else {
        0int
    })
}

/// `U = I * R`, defined only when both inputs are strictly positive.
pub open spec fn spec_calc_u(s: URI) -> Option<Qty> {
    match (s.i, s.r) {
        (Some(iv), Some(rv)) => if iv.pos() && rv.pos() {
            spec_mul(iv, rv)
        } else {
            None
        },
        _ => None,
    }
}

/// `I = U / R`, defined only when both inputs are strictly positive.
pub open spec fn spec_calc_i(s: URI) -> Option<Qty> {
    match (s.u, s.r) {
        (Some(uv), Some(rv)) => if uv.pos() && rv.pos() {
            spec_div(uv, rv)
        } else {
            None
        },
        _ => None,
    }
}

/// `R = U / I`, defined only when both inputs are strictly positive.
pub open spec fn spec_calc_r(s: URI) -> Option<Qty> {
    match (s.u, s.i) {
        (Some(uv), Some(iv)) => if uv.pos() && iv.pos() {
            spec_div(uv, iv)
        } else {
            None
        },
        _ => None,
    }
}

/// One token, already lowered, applied to a circuit record under
/// construction: a decimal number followed by one of the unit keywords
/// `ohm`, `a` or `v`.
pub open spec fn spec_apply_uri(u: URI, s: Seq<char>, idx: usize) -> Result<URI, ParseError> {
    if spec_digit_from(s, 0) < s.len() {
        let sp = spec_num_span(s);
        let q = spec_decimal(s.subrange(sp.start, sp.end), sp.neg);
        if spec_kw_at(s, sp.end, "ohm"@) {
            match q {
                Some(qv) => Ok(URI { r: Some(qv), ..u }),
                None => Err(ParseError { kind: ErrorKind::InvalidNumber, token: idx }),
            }
        } else if spec_kw_at(s, sp.end, "a"@) {
            match q {
                Some(qv) => Ok(URI { i: Some(qv), ..u }),
                None => Err(ParseError { kind: ErrorKind::InvalidNumber, token: idx }),
            }
        } else if spec_kw_at(s, sp.end, "v"@) {
            match q {
                Some(qv) => Ok(URI { u: Some(qv), ..u }),
                None => Err(ParseError { kind: ErrorKind::InvalidNumber, token: idx }),
            }
        } else {
            Err(ParseError { kind: ErrorKind::InvalidUnit, token: idx })
        }
    } else {
        Err(ParseError { kind: ErrorKind::InvalidUnit, token: idx })
    }
}

/// The first `n` tokens of a batch folded into a record; the first
/// faulty token aborts the batch.
pub open spec fn spec_parse_uri(toks: Seq<Seq<char>>, n: int) -> Result<URI, ParseError>
    decreases n when 0 <= n <= toks.len()
{
    if n <= 0 {
        Ok(URI { u: None, i: None, r: None })
    } else {
        match spec_parse_uri(toks, n - 1) {
            Err(pe) => Err(pe),
            Ok(acc) => spec_apply_uri(acc, lower_seq(toks[n - 1]), (n - 1) as usize),
        }
    }
}

/// A faulty token keeps the whole batch faulty.
pub proof fn lemma_parse_uri_err(toks: Seq<Seq<char>>, i: int, n: int)
    requires
        0 <= i <= n <= toks.len(),
        spec_parse_uri(toks, i) is Err,
    ensures
        spec_parse_uri(toks, n) == spec_parse_uri(toks, i),
    decreases n - i,
{
    if i < n {
        lemma_parse_uri_err(toks, i, n - 1);
    }
}

fn apply_uri_token(u: URI, lt: &Vec<char>, idx: usize) -> (r: Result<URI, ParseError>)
    ensures
        r == spec_apply_uri(u, lt@, idx),
{
    let n = lt.len();
    let i0 = digit_from(lt, 0);
    if i0 < n {
        let start = dot_start(lt, i0);
        let neg = start > 0 && lt[start - 1] == '-';
        let end = num_end(lt, i0);
        if kw_at(lt, end, "ohm") {
            match parse_decimal(lt, start, end, neg) {
                Some(qv) => Ok(URI { r: Some(qv), ..u }),
                None => Err(ParseError { kind: ErrorKind::InvalidNumber, token: idx }),
            }
        } else if kw_at(lt, end, "a") {
            match parse_decimal(lt, start, end, neg) {
                Some(qv) => Ok(URI { i: Some(qv), ..u }),
                None => Err(ParseError { kind: ErrorKind::InvalidNumber, token: idx }),
            }
        } else if kw_at(lt, end, "v") {
            match parse_decimal(lt, start, end, neg) {
                Some(qv) => Ok(URI { u: Some(qv), ..u }),
                None => Err(ParseError { kind: ErrorKind::InvalidNumber, token: idx }),
            }
        } else {
            Err(ParseError { kind: ErrorKind::InvalidUnit, token: idx })
        }
    } else {
        Err(ParseError { kind: ErrorKind::InvalidUnit, token: idx })
    }
}


/// The sentence the formatter renders for a solved slot; every other
/// slot index renders nothing. Absent values read `0`.
pub open spec fn spec_uri_sentence(s: URI, num: i8) -> Seq<char> {
    let u = spec_opt_qty_chars(s.u);
    let i = spec_opt_qty_chars(s.i);
    let r = spec_opt_qty_chars(s.r);
    if num == 0 {
        "The voltage for the current of "@ + i + " A and the resistenz of "@ + r + " Ohm is: "@
            + u + " V"@
    } else if num == 1 {
        "The current for the voltage of "@ + u + " V and the resistenz of "@ + r + " Ohm is: "@
            + i + " A"@
    } else if num == 2 {
        "The resistenz for the current of "@ + i + " A and the voltage of "@ + u + " V is: "@ + r
            + " Ohm"@
    } else {
        Seq::empty()
    }
}

impl URI {
    /// Build a circuit record from a batch of tokens; the first token
    /// that parses to nothing aborts the batch and names its fault.
    pub fn new(s: Vec<String>) -> (r: Result<URI, ParseError>)
        ensures
            r == spec_parse_uri(tok_views(s@), s@.len() as int),
    {
        let mut u = URI { u: None, i: None, r: None };
        let mut k: usize = 0;
        while k < s.len()
            invariant
                k <= s@.len(),
                spec_parse_uri(tok_views(s@), k as int) == Result::<URI, ParseError>::Ok(u),
            decreases s@.len() - k,
        {
            let lt = lower_chars(s[k].as_str());
            proof {
                assert(tok_views(s@)[k as int] == s@[k as int]@);
            }
            match apply_uri_token(u, &lt, k) {
                Ok(u2) => {
                    u = u2;
                },
                Err(pe) => {
                    proof {
                        lemma_parse_uri_err(tok_views(s@), k + 1, s@.len() as int);
                    }
                    return Err(pe);
                },
            }
            k += 1;
        }
        Ok(u)
    }

    /// Fill the voltage slot from current and resistance.
    pub fn calc_u(&mut self)
        ensures
            final(self).i == old(self).i,
            final(self).r == old(self).r,
            final(self).u == spec_calc_u(*old(self)),
            final(self).u matches Some(q) ==> (old(self).i matches Some(iv) && old(
                self,
            ).r matches Some(rv) && q.n() == iv.n() * rv.n() && q.d() == iv.d() * rv.d() && (
            iv.wf() && rv.wf() ==> q.wf())),
    {
        self.u = match (&self.i, &self.r) {
            (Some(iv), Some(rv)) => {
                if !iv.is_negative() && iv.numerator() > 0 && !rv.is_negative() && rv.numerator()
                    > 0 {
                    q_mul(iv, rv)
                } else {
                    None
                }
            },
            _ => None,
        };
    }

    /// Fill the current slot from voltage and resistance.
    pub fn calc_i(&mut self)
        ensures
            final(self).u == old(self).u,
            final(self).r == old(self).r,
            final(self).i == spec_calc_i(*old(self)),
            final(self).i matches Some(q) ==> (old(self).u matches Some(uv) && old(
                self,
            ).r matches Some(rv) && q.n() * (uv.d() * rv.n()) == (uv.n() * rv.d()) * q.d() && (
            uv.wf() ==> q.wf())),
    {
        self.i = match (&self.u, &self.r) {
            (Some(uv), Some(rv)) => {
                if !uv.is_negative() && uv.numerator() > 0 && !rv.is_negative() && rv.numerator()
                    > 0 {
                    q_div(uv, rv)
                } else {
                    None
                }
            },
            _ => None,
        };
    }

    /// Fill the resistance slot from voltage and current.
    pub fn calc_r(&mut self)
        ensures
            final(self).u == old(self).u,
            final(self).i == old(self).i,
            final(self).r == spec_calc_r(*old(self)),
            final(self).r matches Some(q) ==> (old(self).u matches Some(uv) && old(
                self,
            ).i matches Some(iv) && q.n() * (uv.d() * iv.n()) == (uv.n() * iv.d()) * q.d() && (
            uv.wf() ==> q.wf())),
    {
        self.r = match (&self.u, &self.i) {
            (Some(uv), Some(iv)) => {
                if !uv.is_negative() && uv.numerator() > 0 && !iv.is_negative() && iv.numerator()
                    > 0 {
                    q_div(uv, iv)
                } else {
                    None
                }
            },
            _ => None,
        };
    }


    /// Render the solved record as a sentence.
    pub fn print_res(&self, num: i8) -> (r: String)
        ensures
            r@ == spec_uri_sentence(*self, num),
    {
        let mut out = String::new();
        if num == 0 {
            out.append("The voltage for the current of ");
            push_opt_qty(&mut out, &self.i);
            out.append(" A and the resistenz of ");
            push_opt_qty(&mut out, &self.r);
            out.append(" Ohm is: ");
            push_opt_qty(&mut out, &self.u);
            out.append(" V");
        } else if num == 1 {
            out.append("The current for the voltage of ");
            push_opt_qty(&mut out, &self.u);
            out.append(" V and the resistenz of ");
            push_opt_qty(&mut out, &self.r);
            out.append(" Ohm is: ");
            push_opt_qty(&mut out, &self.i);
            out.append(" A");
        } else if num == 2 {
            out.append("The resistenz for the current of ");
            push_opt_qty(&mut out, &self.i);
            out.append(" A and the voltage of ");
            push_opt_qty(&mut out, &self.u);
            out.append(" V is: ");
            push_opt_qty(&mut out, &self.r);
            out.append(" Ohm");
        }
        proof {
            assert(out@ =~= spec_uri_sentence(*self, num));
        }
        out
    }

    /// Solve the record: exactly two known slots are required, and then
    /// the one missing slot is computed. The result identifies the
    /// solved slot (0 voltage, 1 current, 2 resistance) and is -1 when
    /// the record is under- or over-determined or a guard tripped.
    pub fn calc(&mut self) -> (num: i8)
        ensures
            uri_count(*old(self)) != 2 ==> *final(self) == *old(self) && num == -1,
            uri_count(*old(self)) == 2 && old(self).u is None ==> final(self).u == spec_calc_u(
                *old(self),
            ) && final(self).i == old(self).i && final(self).r == old(self).r && num == (
            if spec_calc_u(*old(self)) is Some {
                0
            } else {
                -1
            }),
            uri_count(*old(self)) == 2 && old(self).i is None ==> final(self).i == spec_calc_i(
                *old(self),
            ) && final(self).u == old(self).u && final(self).r == old(self).r && num == (
            if spec_calc_i(*old(self)) is Some {
                1
            } else {
                -1
            }),
            uri_count(*old(self)) == 2 && old(self).r is None ==> final(self).r == spec_calc_r(
                *old(self),
            ) && final(self).u == old(self).u && final(self).i == old(self).i && num == (
            if spec_calc_r(*old(self)) is Some {
                2
            } else {
                -1
            }),
    {
        let counter: i8 = (if self.u.is_some() {
            1
        } else {
            0
        }) + (if self.i.is_some() {
            1
        } else {
            0
        }) + (if self.r.is_some() {
            1
        } else {
            0
        });
        let mut num: i8 = -1;
        if counter == 2 {
            if self.u.is_none() {
                self.calc_u();
                if self.u.is_some() {
                    num = 0;
                }
            } else if self.i.is_none() {
                self.calc_i();
                if self.i.is_some() {
                    num = 1;
                }
            } else {
                self.calc_r();
                if self.r.is_some() {
                    num = 2;
                }
            }
        }
        num
    }
}

} // verus!
