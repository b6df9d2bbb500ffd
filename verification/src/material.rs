//! The material catalog: names (English and German synonyms) to
//! resistivity constants.

use crate::parse::{lower_chars, lower_seq, span_eq};
use crate::rat::Qty;
use vstd::prelude::*;

verus! {

/// The materials of the catalog.
#[derive(Clone, Copy, Debug, PartialEq, Eq, Structural)]
pub enum RhoMaterial {
    Copper,
    Iron,
    Aluminium,
    Gold,
    Graphit,
    Silver,
    Platinum,
    Lead,
    Tungsten,
}

/// The resistivity constant of each material, in Ohm*mm2/m, as an exact
/// decimal.
pub open spec fn spec_rho(m: RhoMaterial) -> Qty {
    match m {
        RhoMaterial::Copper => Qty { neg: false, num: 1721, den: 100000 },
        RhoMaterial::Iron => Qty { neg: false, num: 1, den: 10 },
        RhoMaterial::Aluminium => Qty { neg: false, num: 265, den: 10000 },
        RhoMaterial::Gold => Qty { neg: false, num: 2214, den: 100000 },
        RhoMaterial::Graphit => Qty { neg: false, num: 8, den: 1 },
        RhoMaterial::Silver => Qty { neg: false, num: 1587, den: 100000 },
        RhoMaterial::Platinum => Qty { neg: false, num: 105, den: 1000 },
        RhoMaterial::Lead => Qty { neg: false, num: 208, den: 1000 },
        RhoMaterial::Tungsten => Qty { neg: false, num: 603, den: 10000 },
    }
}

/// The resistivity a material resolves to.
pub fn select_rho(rho: RhoMaterial) -> (r: Qty)
    ensures
        r == spec_rho(rho),
        r.wf(),
        r.pos(),
{
    match rho {
        RhoMaterial::Copper => Qty { neg: false, num: 1721, den: 100000 },
        RhoMaterial::Iron => Qty { neg: false, num: 1, den: 10 },
        RhoMaterial::Aluminium => Qty { neg: false, num: 265, den: 10000 },
        RhoMaterial::Gold => Qty { neg: false, num: 2214, den: 100000 },
        RhoMaterial::Graphit => Qty { neg: false, num: 8, den: 1 },
        RhoMaterial::Silver => Qty { neg: false, num: 1587, den: 100000 },
        RhoMaterial::Platinum => Qty { neg: false, num: 105, den: 1000 },
        RhoMaterial::Lead => Qty { neg: false, num: 208, den: 1000 },
        RhoMaterial::Tungsten => Qty { neg: false, num: 603, den: 10000 },
    }
}

/// The catalog, keyed by lower-case name. The names `tungsten` and
/// `nickel` share one entry, as the catalog has always had it.
pub open spec fn spec_material(name: Seq<char>) -> Option<RhoMaterial> {
    if name == "iron"@ || name == "eisen"@ {
        Some(RhoMaterial::Iron)
    } else if name == "copper"@ || name == "kupfer"@ {
        Some(RhoMaterial::Copper)
    } else if name == "aluminium"@ || name == "alu"@ {
        Some(RhoMaterial::Aluminium)
    } else if name == "gold"@ {
        Some(RhoMaterial::Gold)
    } else if name == "graphit"@ || name == "graphite"@ {
        Some(RhoMaterial::Graphit)
    } else if name == "silver"@ || name == "silber"@ {
        Some(RhoMaterial::Silver)
    } else if name == "platinum"@ || name == "platin"@ {
        Some(RhoMaterial::Platinum)
    } else if name == "lead"@ || name == "blei"@ {
        Some(RhoMaterial::Lead)
    } else if name == "tungsten"@ || name == "nickel"@ {
        Some(RhoMaterial::Tungsten)
    } else {
        None
    }
}

/// Look a lowered name span up in the catalog.
pub(crate) fn material_of_span(v: &Vec<char>, start: usize, end: usize) -> (r: Option<
    RhoMaterial,
>)
    requires
        start <= end <= v@.len(),
    ensures
        r == spec_material(v@.subrange(start as int, end as int)),
{
    if span_eq(v, start, end, "iron") || span_eq(v, start, end, "eisen") {
        Some(RhoMaterial::Iron)
    } else if span_eq(v, start, end, "copper") || span_eq(v, start, end, "kupfer") {
        Some(RhoMaterial::Copper)
    } else if span_eq(v, start, end, "aluminium") || span_eq(v, start, end, "alu") {
        Some(RhoMaterial::Aluminium)
    } else if span_eq(v, start, end, "gold") {
        Some(RhoMaterial::Gold)
    } else if span_eq(v, start, end, "graphit") || span_eq(v, start, end, "graphite") {
        Some(RhoMaterial::Graphit)
    } else if span_eq(v, start, end, "silver") || span_eq(v, start, end, "silber") {
        Some(RhoMaterial::Silver)
    } else if span_eq(v, start, end, "platinum") || span_eq(v, start, end, "platin") {
        Some(RhoMaterial::Platinum)
    } else if span_eq(v, start, end, "lead") || span_eq(v, start, end, "blei") {
        Some(RhoMaterial::Lead)
    } else if span_eq(v, start, end, "tungsten") || span_eq(v, start, end, "nickel") {
        Some(RhoMaterial::Tungsten)
    } else {
        None
    }
}

/// Resolve a material name, case-insensitively, to its catalog entry.
pub fn lookup_material(name: &str) -> (r: Option<RhoMaterial>)
    ensures
        r == spec_material(lower_seq(name@)),
{
    let v = lower_chars(name);
    let n = v.len();
    let r = material_of_span(&v, 0, n);
    proof {
        assert(v@.subrange(0, n as int) =~= v@);
    }
    r
}

} // verus!
