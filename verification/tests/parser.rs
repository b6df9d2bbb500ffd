use ohmcalc::circuit::URI;
use ohmcalc::conductor::Elect;
use ohmcalc::material::{lookup_material, select_rho, RhoMaterial};
use ohmcalc::numfmt::qty_to_string;
use ohmcalc::parse::ErrorKind;
use ohmcalc::prefix::{is_ascii_float, PreUnits};
use ohmcalc::rat::Qty;

fn toks(ts: &[&str]) -> Vec<String> {
    ts.iter().map(|t| t.to_string()).collect()
}

#[test]
fn conductor_parse_batch() {
    let e = Elect::new(toks(&["3ohmxmm2/m", "10m", "2mm"])).unwrap();
    let rho = e.rho.unwrap();
    assert_eq!((rho.num, rho.den, rho.neg), (3, 1, false));
    let len = e.length.unwrap();
    assert_eq!((len.num, len.den), (10, 1));
    let ar = e.area.unwrap();
    let d = ar.d.unwrap();
    assert_eq!((d.num, d.den), (2, 1));
    // the area is derived at once: pi * d * d / 4 with pi = 3141/1000
    let a = ar.a.unwrap();
    assert_eq!((a.num, a.den), (3141 * 4, 4000));
}

#[test]
fn conductor_parse_decimal_and_sign() {
    let e = Elect::new(toks(&["1.5ohm", "-5m"])).unwrap();
    let r = e.resistor.unwrap();
    assert_eq!((r.num, r.den, r.neg), (15, 10, false));
    let l = e.length.unwrap();
    assert_eq!((l.num, l.den, l.neg), (5, 1, true));
}

#[test]
fn conductor_parse_area_derives_diameter() {
    // 4mm2 given directly: the diameter slot is filled from it
    let e = Elect::new(toks(&["4mm2"])).unwrap();
    let ar = e.area.unwrap();
    let a = ar.a.unwrap();
    assert_eq!((a.num, a.den), (4, 1));
    assert!(ar.d.is_some());
}

#[test]
fn conductor_parse_invalid_number() {
    let err = Elect::new(toks(&["10m", "1.2.3mm"])).unwrap_err();
    assert_eq!(err.kind, ErrorKind::InvalidNumber);
    assert_eq!(err.token, 1);
}

#[test]
fn conductor_parse_invalid_unit() {
    let err = Elect::new(toks(&["5xyz"])).unwrap_err();
    assert_eq!(err.kind, ErrorKind::InvalidUnit);
    let err2 = Elect::new(toks(&["###"])).unwrap_err();
    assert_eq!(err2.kind, ErrorKind::InvalidUnit);
}

#[test]
fn conductor_parse_unknown_material() {
    let err = Elect::new(toks(&["xyz"])).unwrap_err();
    assert_eq!(err.kind, ErrorKind::UnknownMaterial);
    assert_eq!(err.token, 0);
}

#[test]
fn conductor_parse_material_word() {
    let e = Elect::new(toks(&["kupfer"])).unwrap();
    let rho = e.rho.unwrap();
    assert_eq!((rho.num, rho.den), (1721, 100000));
}

#[test]
fn conductor_parse_material_combined() {
    let e = Elect::new(toks(&["material=silber"])).unwrap();
    let rho = e.rho.unwrap();
    assert_eq!((rho.num, rho.den), (1587, 100000));
}

#[test]
fn conductor_parse_case_insensitive() {
    let e = Elect::new(toks(&["5OHM", "KUPFER"])).unwrap();
    assert_eq!(e.resistor.unwrap().num, 5);
    assert_eq!(e.rho.unwrap().num, 1721);
}

#[test]
fn conductor_parse_last_token_wins() {
    let e = Elect::new(toks(&["kupfer", "3ohmxmm2/m"])).unwrap();
    assert_eq!((e.rho.unwrap().num, e.rho.unwrap().den), (3, 1));
    let e2 = Elect::new(toks(&["3ohmxmm2/m", "kupfer"])).unwrap();
    assert_eq!((e2.rho.unwrap().num, e2.rho.unwrap().den), (1721, 100000));
}

#[test]
fn circuit_parse_batch() {
    let uri = URI::new(toks(&["10v", "5ohm"])).unwrap();
    assert_eq!(uri.u.unwrap().num, 10);
    assert_eq!(uri.r.unwrap().num, 5);
    assert!(uri.i.is_none());
}

#[test]
fn circuit_parse_upper_case_unit() {
    let uri = URI::new(toks(&["2A"])).unwrap();
    assert_eq!(uri.i.unwrap().num, 2);
}

#[test]
fn circuit_parse_invalid() {
    let err = URI::new(toks(&["abc"])).unwrap_err();
    assert_eq!(err.kind, ErrorKind::InvalidUnit);
    let err2 = URI::new(toks(&["1.2.3v"])).unwrap_err();
    assert_eq!(err2.kind, ErrorKind::InvalidNumber);
}

#[test]
fn circuit_parse_then_solve() {
    let mut uri = URI::new(toks(&["10v", "5ohm"])).unwrap();
    assert_eq!(uri.calc(), 1);
    let i = uri.i.unwrap();
    assert_eq!(i.num * 1, 2 * i.den);
}

#[test]
fn empty_batch_and_empty_token() {
    let e = Elect::new(Vec::new()).unwrap();
    assert!(e.resistor.is_none() && e.rho.is_none() && e.length.is_none() && e.area.is_none());
    let err = Elect::new(toks(&[""])).unwrap_err();
    assert_eq!(err.kind, ErrorKind::InvalidUnit);
}

#[test]
fn conductor_parse_number_too_large() {
    // more digits than u128 can hold: the number is rejected, not bent
    let err = Elect::new(toks(&["999999999999999999999999999999999999999mm"])).unwrap_err();
    assert_eq!(err.kind, ErrorKind::InvalidNumber);
}

#[test]
fn material_lookup_synonyms() {
    assert_eq!(lookup_material("kupfer"), Some(RhoMaterial::Copper));
    assert_eq!(lookup_material("copper"), Some(RhoMaterial::Copper));
    let rho = select_rho(RhoMaterial::Copper);
    assert_eq!((rho.num, rho.den), (1721, 100000));
    assert_eq!(lookup_material("xyz"), None);
}

#[test]
fn material_tungsten_nickel_share_entry() {
    assert_eq!(lookup_material("tungsten"), Some(RhoMaterial::Tungsten));
    assert_eq!(lookup_material("nickel"), Some(RhoMaterial::Tungsten));
    let rho = select_rho(RhoMaterial::Tungsten);
    assert_eq!((rho.num, rho.den), (603, 10000));
}

#[test]
fn prefix_exponents() {
    assert_eq!(PreUnits::new("P".to_string()).return_pow(), 15);
    assert_eq!(PreUnits::new("T".to_string()).return_pow(), 12);
    assert_eq!(PreUnits::new("G".to_string()).return_pow(), 9);
    assert_eq!(PreUnits::new("M".to_string()).return_pow(), 6);
    assert_eq!(PreUnits::new("k".to_string()).return_pow(), 3);
    assert_eq!(PreUnits::new("".to_string()).return_pow(), 0);
    assert_eq!(PreUnits::new("d".to_string()).return_pow(), -1);
    assert_eq!(PreUnits::new("z".to_string()).return_pow(), -2);
    assert_eq!(PreUnits::new("m".to_string()).return_pow(), -3);
    assert_eq!(PreUnits::new("my".to_string()).return_pow(), -6);
    assert_eq!(PreUnits::new("\u{b5}".to_string()), PreUnits::my);
    assert_eq!(PreUnits::new("n".to_string()).return_pow(), -9);
    assert_eq!(PreUnits::new("q".to_string()), PreUnits::No);
}

#[test]
fn float_characters() {
    assert!(is_ascii_float('5'));
    assert!(is_ascii_float('e'));
    assert!(is_ascii_float('-'));
    assert!(is_ascii_float('.'));
    assert!(!is_ascii_float('x'));
}

#[test]
fn quantity_rendering() {
    assert_eq!(qty_to_string(&Qty { neg: false, num: 10, den: 1 }), "10");
    assert_eq!(qty_to_string(&Qty { neg: false, num: 10, den: 4 }), "10/4");
    assert_eq!(qty_to_string(&Qty { neg: false, num: 10, den: 5 }), "2");
    assert_eq!(qty_to_string(&Qty { neg: true, num: 3, den: 1 }), "-3");
    assert_eq!(qty_to_string(&Qty { neg: false, num: 1721, den: 100000 }), "1721/100000");
}

#[test]
fn circuit_sentence() {
    let mut uri = URI::new(toks(&["2a", "5ohm"])).unwrap();
    let num = uri.calc();
    assert_eq!(num, 0);
    let text = uri.print_res(num);
    assert_eq!(
        text,
        "The voltage for the current of 2 A and the resistenz of 5 Ohm is: 10 V"
    );
    assert_eq!(uri.print_res(-1), "");
}

#[test]
fn conductor_sentence() {
    let mut e = Elect::new(toks(&["2ohmxmm2/m", "3m", "1mm2"])).unwrap();
    let num = e.calc();
    assert_eq!(num, 0);
    let text = e.print_res(num);
    assert!(text.starts_with("The resistenz of the 3 m long cable"));
    assert!(text.ends_with("is: 6 Ohm"));
}
