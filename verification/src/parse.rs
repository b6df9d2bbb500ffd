//! Token scanning: characters, spans and exact decimal numbers.

use crate::rat::Qty;
use vstd::prelude::*;

verus! {

/// ASCII decimal digit.
pub open spec fn is_digit_c(c: char) -> bool {
    '0' <= c && c <= '9'
}

/// ASCII lower-case letter.
pub open spec fn is_alpha_c(c: char) -> bool {
    'a' <= c && c <= 'z'
}

/// A character of a numeric span: a digit or a decimal point.
pub open spec fn is_num_c(c: char) -> bool {
    is_digit_c(c) || c == '.'
}

/// ASCII lowering; every other character is unchanged.
pub open spec fn lower_c(c: char) -> char {
    match c {
        'A' => 'a',
        'B' => 'b',
        'C' => 'c',
        'D' => 'd',
        'E' => 'e',
        'F' => 'f',
        'G' => 'g',
        'H' => 'h',
        'I' => 'i',
        'J' => 'j',
        'K' => 'k',
        'L' => 'l',
        'M' => 'm',
        'N' => 'n',
        'O' => 'o',
        'P' => 'p',
        'Q' => 'q',
        'R' => 'r',
        'S' => 's',
        'T' => 't',
        'U' => 'u',
        'V' => 'v',
        'W' => 'w',
        'X' => 'x',
        'Y' => 'y',
        'Z' => 'z',
        _ => c,
    }
}

/// The sequence, character-wise ASCII-lowered.
pub open spec fn lower_seq(s: Seq<char>) -> Seq<char> {
    s.map_values(|c: char| lower_c(c))
}

fn lower_char(c: char) -> (r: char)
    ensures
        r == lower_c(c),
{
    match c {
        'A' => 'a',
        'B' => 'b',
        'C' => 'c',
        'D' => 'd',
        'E' => 'e',
        'F' => 'f',
        'G' => 'g',
        'H' => 'h',
        'I' => 'i',
        'J' => 'j',
        'K' => 'k',
        'L' => 'l',
        'M' => 'm',
        'N' => 'n',
        'O' => 'o',
        'P' => 'p',
        'Q' => 'q',
        'R' => 'r',
        'S' => 's',
        'T' => 't',
        'U' => 'u',
        'V' => 'v',
        'W' => 'w',
        'X' => 'x',
        'Y' => 'y',
        'Z' => 'z',
        _ => c,
    }
}

/// The characters of a string, as a vector.
pub fn chars_of(s: &str) -> (v: Vec<char>)
    ensures
        v@ == s@,
{
    let n = s.unicode_len();
    let mut v: Vec<char> = Vec::new();
    let mut i: usize = 0;
    while i < n
        invariant
            i <= n,
            n == s@.len(),
            v@ == s@.subrange(0, i as int),
        decreases n - i,
    {
        let c = s.get_char(i);
        v.push(c);
        proof {
            assert(v@ =~= s@.subrange(0, i + 1));
        }
        i += 1;
    }
    proof {
        assert(v@ =~= s@);
    }
    v
}

/// The characters of a string, ASCII-lowered.
pub fn lower_chars(s: &str) -> (v: Vec<char>)
    ensures
        v@ == lower_seq(s@),
{
    let cs = chars_of(s);
    let mut v: Vec<char> = Vec::new();
    let mut i: usize = 0;
    while i < cs.len()
        invariant
            i <= cs@.len(),
            cs@ == s@,
            v@ == lower_seq(s@).subrange(0, i as int),
        decreases cs@.len() - i,
    {
        let c = lower_char(cs[i]);
        v.push(c);
        proof {
            assert(v@ =~= lower_seq(s@).subrange(0, i + 1));
        }
        i += 1;
    }
    proof {
        assert(v@ =~= lower_seq(s@));
    }
    v
}

/// The first index at or after `i` holding a digit, or the length.
pub open spec fn spec_digit_from(s: Seq<char>, i: int) -> int
    decreases s.len() - i when 0 <= i <= s.len()
{
    if i < 0 || i >= s.len() {
        s.len() as int
    } else if is_digit_c(s[i]) {
        i
    } else {
        spec_digit_from(s, i + 1)
    }
}

pub(crate) fn digit_from(v: &Vec<char>, from: usize) -> (r: usize)
    requires
        from <= v@.len(),
    ensures
        r == spec_digit_from(v@, from as int),
        from <= r <= v@.len(),
        r < v@.len() ==> is_digit_c(v@[r as int]),
{
    let mut i = from;
    while i < v.len() && !(v[i] >= '0' && v[i] <= '9')
        invariant
            from <= i <= v@.len(),
            spec_digit_from(v@, from as int) == spec_digit_from(v@, i as int),
        decreases v@.len() - i,
    {
        i += 1;
    }
    i
}

/// The first index at or after `i` outside the numeric class, or the
/// length.
pub open spec fn spec_num_end(s: Seq<char>, i: int) -> int
    decreases s.len() - i when 0 <= i <= s.len()
{
    if i < 0 || i >= s.len() {
        s.len() as int
    } else if is_num_c(s[i]) {
        spec_num_end(s, i + 1)
    } else {
        i
    }
}

pub(crate) fn num_end(v: &Vec<char>, from: usize) -> (r: usize)
    requires
        from <= v@.len(),
    ensures
        r == spec_num_end(v@, from as int),
        from <= r <= v@.len(),
{
    let mut i = from;
    while i < v.len() && ((v[i] >= '0' && v[i] <= '9') || v[i] == '.')
        invariant
            from <= i <= v@.len(),
            spec_num_end(v@, from as int) == spec_num_end(v@, i as int),
        decreases v@.len() - i,
    {
        i += 1;
    }
    i
}

/// Walk left over decimal points: the least index `j <= i` such that
/// every character in `[j, i)` is a point.
pub open spec fn spec_dot_start(s: Seq<char>, i: int) -> int
    decreases i when 0 <= i <= s.len()
{
    if 0 < i <= s.len() && s[i - 1] == '.' {
        spec_dot_start(s, i - 1)
    } else {
        i
    }
}

pub(crate) fn dot_start(v: &Vec<char>, from: usize) -> (r: usize)
    requires
        from <= v@.len(),
    ensures
        r == spec_dot_start(v@, from as int),
        r <= from,
{
    let mut i = from;
    while i > 0 && v[i - 1] == '.'
        invariant
            i <= from <= v@.len(),
            spec_dot_start(v@, from as int) == spec_dot_start(v@, i as int),
        decreases i,
    {
        i -= 1;
    }
    i
}

/// The first index at or after `i` holding a letter, or the length.
pub open spec fn spec_alpha_from(s: Seq<char>, i: int) -> int
    decreases s.len() - i when 0 <= i <= s.len()
{
    if i < 0 || i >= s.len() {
        s.len() as int
    } else if is_alpha_c(s[i]) {
        i
    } else {
        spec_alpha_from(s, i + 1)
    }
}

pub(crate) fn alpha_from(v: &Vec<char>, from: usize) -> (r: usize)
    requires
        from <= v@.len(),
    ensures
        r == spec_alpha_from(v@, from as int),
        from <= r <= v@.len(),
{
    let mut i = from;
    while i < v.len() && !(v[i] >= 'a' && v[i] <= 'z')
        invariant
            from <= i <= v@.len(),
            spec_alpha_from(v@, from as int) == spec_alpha_from(v@, i as int),
        decreases v@.len() - i,
    {
        i += 1;
    }
    i
}

/// The first index at or after `i` not holding a letter, or the length.
pub open spec fn spec_alpha_end(s: Seq<char>, i: int) -> int
    decreases s.len() - i when 0 <= i <= s.len()
{
    if i < 0 || i >= s.len() {
        s.len() as int
    } else if is_alpha_c(s[i]) {
        spec_alpha_end(s, i + 1)
    } else {
        i
    }
}

pub(crate) fn alpha_end(v: &Vec<char>, from: usize) -> (r: usize)
    requires
        from <= v@.len(),
    ensures
        r == spec_alpha_end(v@, from as int),
        from <= r <= v@.len(),
{
    let mut i = from;
    while i < v.len() && (v[i] >= 'a' && v[i] <= 'z')
        invariant
            from <= i <= v@.len(),
            spec_alpha_end(v@, from as int) == spec_alpha_end(v@, i as int),
        decreases v@.len() - i,
    {
        i += 1;
    }
    i
}

/// Does the keyword `k` stand in `s` starting at index `i`?
pub open spec fn spec_kw_at(s: Seq<char>, i: int, k: Seq<char>) -> bool {
    0 <= i && i + k.len() <= s.len() && s.subrange(i, i + k.len()) == k
}

pub(crate) fn kw_at(v: &Vec<char>, i: usize, kw: &str) -> (b: bool)
    ensures
        b == spec_kw_at(v@, i as int, kw@),
{
    let kn = kw.unicode_len();
    let n = v.len();
    if kn > n || i > n - kn {
        return false;
    }
    let mut j: usize = 0;
    while j < kn
        invariant
            j <= kn,
            kn == kw@.len(),
            n == v@.len(),
            i + kn <= n,
            forall|x: int| 0 <= x < j ==> v@[i + x] == kw@[x],
        decreases kn - j,
    {
        if v[i + j] != kw.get_char(j) {
            proof {
                assert(v@.subrange(i as int, i + kn)[j as int] != kw@[j as int]);
            }
            return false;
        }
        j += 1;
    }
    proof {
        assert(v@.subrange(i as int, i + kn) =~= kw@);
    }
    true
}

/// Is `v` exactly the keyword `kw`?
pub(crate) fn eq_lit(v: &Vec<char>, kw: &str) -> (b: bool)
    ensures
        b == (v@ == kw@),
{
    let kn = kw.unicode_len();
    if v.len() != kn {
        return false;
    }
    let r = kw_at(v, 0, kw);
    proof {
        assert(v@.subrange(0, kn as int) =~= v@);
    }
    r
}

/// Is the span `[start, end)` of `v` exactly the keyword `kw`?
pub(crate) fn span_eq(v: &Vec<char>, start: usize, end: usize, kw: &str) -> (b: bool)
    requires
        start <= end <= v@.len(),
    ensures
        b == (v@.subrange(start as int, end as int) == kw@),
{
    let kn = kw.unicode_len();
    if end - start != kn {
        proof {
            assert(v@.subrange(start as int, end as int).len() != kw@.len());
        }
        return false;
    }
    let r = kw_at(v, start, kw);
    proof {
        if r {
            assert(v@.subrange(start as int, start + kn) =~= v@.subrange(
                start as int,
                end as int,
            ));
        } else {
            if v@.subrange(start as int, end as int) == kw@ {
                assert(v@.subrange(start as int, start + kn) =~= v@.subrange(
                    start as int,
                    end as int,
                ));
            }
        }
    }
    r
}

/// Why a token was rejected.
#[derive(Clone, Copy, Debug, PartialEq, Eq, Structural)]
pub enum ErrorKind {
    InvalidNumber,
    InvalidUnit,
    UnknownMaterial,
}

/// A rejected token: the kind of fault and the token's index in the
/// input batch.
#[derive(Clone, Copy, Debug, PartialEq, Eq, Structural)]
pub struct ParseError {
    pub kind: ErrorKind,
    pub token: usize,
}

/// The numeric span of a token that contains a digit: it starts at the
/// first digit, extends left over decimal points (with an optional sign
/// just before it) and right over digits and points.
pub struct NumSpan {
    pub start: int,
    pub end: int,
    pub neg: bool,
}

pub open spec fn spec_num_span(s: Seq<char>) -> NumSpan {
    let i0 = spec_digit_from(s, 0);
    let start = spec_dot_start(s, i0);
    NumSpan {
        start,
        end: spec_num_end(s, i0),
        neg: start > 0 && s[start - 1] == '-',
    }
}

/// The views of the tokens of a batch.
pub open spec fn tok_views(s: Seq<String>) -> Seq<Seq<char>> {
    Seq::new(s.len(), |k: int| s[k]@)
}

pub open spec fn digit_val(c: char) -> int {
    c as u32 - 48
}

/// Powers of ten.
pub open spec fn pow10(e: int) -> int
    decreases e when e >= 0
{
    if e <= 0 {
        1
    } else {
        10 * pow10(e - 1)
    }
}

pub proof fn lemma_pow10_pos(e: int)
    requires
        e >= 0,
    ensures
        pow10(e) >= 1,
    decreases e,
{
    if e > 0 {
        lemma_pow10_pos(e - 1);
        assert(pow10(e) == 10 * pow10(e - 1));
        assert(10 * pow10(e - 1) >= 1) by (nonlinear_arith)
            requires
                pow10(e - 1) >= 1,
        ;
    }
}

pub proof fn lemma_pow10_mono(a: int, b: int)
    requires
        0 <= a <= b,
    ensures
        pow10(a) <= pow10(b),
    decreases b,
{
    if a < b && b > 0 {
        lemma_pow10_mono(a, b - 1);
        lemma_pow10_pos(b - 1);
        assert(pow10(b) == 10 * pow10(b - 1));
        assert(10 * pow10(b - 1) >= pow10(b - 1)) by (nonlinear_arith)
            requires
                pow10(b - 1) >= 1,
        ;
    }
}

/// State of the left-to-right scan of a numeric span.
pub struct DecState {
    pub mant: int,
    pub frac: int,
    pub dots: int,
    pub digits: int,
}

/// Scan the first `i` characters of a numeric span: accumulated
/// mantissa (digits with the point ignored), count of digits after the
/// first point, count of points, count of digits.
pub open spec fn dec_scan(s: Seq<char>, i: int) -> DecState
    decreases i when 0 <= i <= s.len()
{
    if i <= 0 || i > s.len() {
        DecState { mant: 0, frac: 0, dots: 0, digits: 0 }
    } else {
        let st = dec_scan(s, i - 1);
        let c = s[i - 1];
        if c == '.' {
            DecState { mant: st.mant, frac: st.frac, dots: st.dots + 1, digits: st.digits }
        } else if is_digit_c(c) {
            DecState {
                mant: 10 * st.mant + digit_val(c),
                frac: if st.dots >= 1 {
                    st.frac + 1
                } else {
                    st.frac
                },
                dots: st.dots,
                digits: st.digits + 1,
            }
        } else {
            st
        }
    }
}

pub proof fn lemma_dec_scan_mono(s: Seq<char>, i: int, j: int)
    requires
        0 <= i <= j <= s.len(),
    ensures
        dec_scan(s, i).mant <= dec_scan(s, j).mant,
        dec_scan(s, i).frac <= dec_scan(s, j).frac,
        dec_scan(s, i).dots <= dec_scan(s, j).dots,
        dec_scan(s, i).mant >= 0,
        dec_scan(s, j).mant >= 0,
    decreases j - i,
{
    if i == 0 {
        lemma_dec_scan_nonneg(s, j);
    } else if i < j {
        lemma_dec_scan_mono(s, i, j - 1);
        let st = dec_scan(s, j - 1);
        let c = s[j - 1];
        if c != '.' && is_digit_c(c) {
            assert(10 * st.mant + digit_val(c) >= st.mant) by (nonlinear_arith)
                requires
                    st.mant >= 0,
                    digit_val(c) >= 0,
            ;
        }
    } else {
        lemma_dec_scan_nonneg(s, i);
    }
}

pub proof fn lemma_dec_scan_nonneg(s: Seq<char>, i: int)
    requires
        0 <= i <= s.len(),
    ensures
        dec_scan(s, i).mant >= 0,
        dec_scan(s, i).frac >= 0,
        dec_scan(s, i).dots >= 0,
        dec_scan(s, i).digits >= 0,
    decreases i,
{
    if 0 < i <= s.len() {
        lemma_dec_scan_nonneg(s, i - 1);
        let st = dec_scan(s, i - 1);
        let c = s[i - 1];
        if c != '.' && is_digit_c(c) {
            assert(10 * st.mant + digit_val(c) >= 0) by (nonlinear_arith)
                requires
                    st.mant >= 0,
                    digit_val(c) >= 0,
            ;
        }
    }
}

/// The exact decimal a numeric span denotes: mantissa over a power of
/// ten; `None` when the span is not one plain decimal number (no digit,
/// or more than one point) or its parts do not fit in `u128`.
pub open spec fn spec_decimal(s: Seq<char>, neg: bool) -> Option<Qty> {
    let st = dec_scan(s, s.len() as int);
    if st.dots <= 1 && st.digits >= 1 && st.mant <= u128::MAX && pow10(st.frac) <= u128::MAX {
        Some(Qty { neg, num: st.mant as u128, den: pow10(st.frac) as u128 })
    } else {
        None
    }
}

/// Parse the numeric span `[start, end)` of `v` into an exact decimal.
pub(crate) fn parse_decimal(v: &Vec<char>, start: usize, end: usize, neg: bool) -> (r: Option<
    Qty,
>)
    requires
        start <= end <= v@.len(),
    ensures
        r == spec_decimal(v@.subrange(start as int, end as int), neg),
{
    let ghost sub = v@.subrange(start as int, end as int);
    let mut mant: u128 = 0;
    let mut den: u128 = 1;
    let mut dots: usize = 0;
    let mut digits: usize = 0;
    let mut j: usize = start;
    while j < end
        invariant
            start <= j <= end <= v@.len(),
            sub == v@.subrange(start as int, end as int),
            mant == dec_scan(sub, j - start).mant,
            den as int == pow10(dec_scan(sub, j - start).frac),
            dots == dec_scan(sub, j - start).dots,
            digits == dec_scan(sub, j - start).digits,
            dots <= j - start,
            digits <= j - start,
        decreases end - j,
    {
        let c = v[j];
        proof {
            assert(sub[j - start] == v@[j as int]);
        }
        if c == '.' {
            dots += 1;
        } else if c >= '0' && c <= '9' {
            let d = (c as u32 - 48) as u128;
            let m2 = match mant.checked_mul(10) {
                Some(m) => m.checked_add(d),
                None => None,
            };
            match m2 {
                Some(m) => {
                    mant = m;
                },
                None => {
                    proof {
                        lemma_dec_scan_mono(sub, j + 1 - start, sub.len() as int);
                        assert(dec_scan(sub, j + 1 - start).mant > u128::MAX);
                    }
                    return None;
                },
            }
            if dots >= 1 {
                match den.checked_mul(10) {
                    Some(d2) => {
                        den = d2;
                    },
                    None => {
                        proof {
                            let stj = dec_scan(sub, j - start);
                            let stn = dec_scan(sub, j + 1 - start);
                            lemma_dec_scan_nonneg(sub, j - start);
                            assert(stn.frac == stj.frac + 1);
                            assert(pow10(stn.frac) == 10 * pow10(stj.frac));
                            lemma_dec_scan_mono(sub, j + 1 - start, sub.len() as int);
                            lemma_pow10_mono(stn.frac, dec_scan(sub, sub.len() as int).frac);
                        }
                        return None;
                    },
                }
            }
            digits += 1;
        }
        proof {
            let stj = dec_scan(sub, j - start);
            let stn = dec_scan(sub, j + 1 - start);
            lemma_dec_scan_nonneg(sub, j - start);
            if sub[j - start] != '.' && is_digit_c(sub[j - start]) && stn.frac == stj.frac + 1 {
                assert(pow10(stn.frac) == 10 * pow10(stj.frac));
            }
        }
        j += 1;
    }
    proof {
        assert(sub.len() == end - start);
    }
    if dots <= 1 && digits >= 1 {
        Some(Qty { neg, num: mant, den })
    } else {
        None
    }
}

} // verus!
