//! Decimal unit prefixes for scaled voltage and current readings.

use crate::parse::{chars_of, eq_lit, is_digit_c};
use vstd::prelude::*;

verus! {

/// A character that may occur in a plain decimal float literal.
pub open spec fn spec_is_ascii_float(c: char) -> bool {
    is_digit_c(c) || c == 'e' || c == '-' || c == '.'
}

pub fn is_ascii_float(c: char) -> (r: bool)
    ensures
        r == spec_is_ascii_float(c),
{
    (c >= '0' && c <= '9') || c == 'e' || c == '-' || c == '.'
}

/// The recognized decimal unit prefixes; `No` stands for an absent
/// prefix.
#[allow(non_camel_case_types)]
#[derive(Clone, Copy, Debug, PartialEq, Eq, Structural)]
pub enum PreUnits {
    P,
    T,
    G,
    M,
    k,
    No,
    d,
    z,
    m,
    my,
    n,
}

/// The decimal exponent each prefix scales by.
pub open spec fn spec_pow_of(p: PreUnits) -> int {
    match p {
        PreUnits::P => 15,
        PreUnits::T => 12,
        PreUnits::G => 9,
        PreUnits::M => 6,
        PreUnits::k => 3,
        PreUnits::No => 0,
        PreUnits::d => -1,
        PreUnits::z => -2,
        PreUnits::m => -3,
        PreUnits::my => -6,
        PreUnits::n => -9,
    }
}

/// The prefix a marker string denotes; the empty string and unknown
/// markers mean no scaling. The micro prefix is written either `my` or
/// as the micro sign (U+00B5).
pub open spec fn spec_pre_unit(s: Seq<char>) -> PreUnits {
    if s == "P"@ {
        PreUnits::P
    } else if s == "T"@ {
        PreUnits::T
    } else if s == "G"@ {
        PreUnits::G
    } else if s == "M"@ {
        PreUnits::M
    } else if s == "k"@ {
        PreUnits::k
    } else if s == "d"@ {
        PreUnits::d
    } else if s == "z"@ {
        PreUnits::z
    } else if s == "m"@ {
        PreUnits::m
    } else if (s.len() == 1 && s[0] as u32 == 181) || s == "my"@ {
        PreUnits::my
    } else if s == "n"@ {
        PreUnits::n
    } else {
        PreUnits::No
    }
}

impl PreUnits {
    /// The decimal exponent of this prefix.
    pub fn return_pow(&self) -> (r: i16)
        ensures
            r as int == spec_pow_of(*self),
    {
        match self {
            PreUnits::P => 15,
            PreUnits::T => 12,
            PreUnits::G => 9,
            PreUnits::M => 6,
            PreUnits::k => 3,
            PreUnits::No => 0,
            PreUnits::d => -1,
            PreUnits::z => -2,
            PreUnits::m => -3,
            PreUnits::my => -6,
            PreUnits::n => -9,
        }
    }

    /// Parse a prefix marker.
    pub fn new(pre_unit: String) -> (r: PreUnits)
        ensures
            r == spec_pre_unit(pre_unit@),
    {
        let v = chars_of(pre_unit.as_str());
        if eq_lit(&v, "P") {
            PreUnits::P
        } else if eq_lit(&v, "T") {
            PreUnits::T
        } else if eq_lit(&v, "G") {
            PreUnits::G
        } else if eq_lit(&v, "M") {
            PreUnits::M
        } else if eq_lit(&v, "k") {
            PreUnits::k
        } else if eq_lit(&v, "d") {
            PreUnits::d
        } else if eq_lit(&v, "z") {
            PreUnits::z
        } else if eq_lit(&v, "m") {
            PreUnits::m
        } else if (v.len() == 1 && (v[0] as u32) == 181) || eq_lit(&v, "my") {
            PreUnits::my
        } else if eq_lit(&v, "n") {
            PreUnits::n
        } else {
            PreUnits::No
        }
    }
}

} // verus!
