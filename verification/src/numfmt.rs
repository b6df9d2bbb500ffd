//! Rendering quantities as decimal text.

use crate::rat::Qty;
use vstd::prelude::*;

verus! {

/// The character of one decimal digit.
pub open spec fn digit_char(n: int) -> char {
    if n == 0 {
        '0'
    } else if n == 1 {
        '1'
    } else if n == 2 {
        '2'
    } else if n == 3 {
        '3'
    } else if n == 4 {
        '4'
    } else if n == 5 {
        '5'
    } else if n == 6 {
        '6'
    } else if n == 7 {
        '7'
    } else if n == 8 {
        '8'
    } else {
        '9'
    }
}

/// The decimal digits of `n`, most significant first.
pub open spec fn spec_digits(n: int) -> Seq<char>
    decreases n when n >= 0
{
    if n < 10 {
        seq![digit_char(n)]
    } else {
        spec_digits(n / 10).push(digit_char(n % 10))
    }
}

fn push_digit(out: &mut String, d: u128)
    requires
        d < 10,
    ensures
        final(out)@ == old(out)@ + seq![digit_char(d as int)],
{
    if d == 0 {
        out.append("0");
        proof {
            reveal_strlit("0");
            assert(old(out)@ + "0"@ =~= old(out)@ + seq![digit_char(0)]);
        }
    } else if d == 1 {
        out.append("1");
        proof {
            reveal_strlit("1");
            assert(old(out)@ + "1"@ =~= old(out)@ + seq![digit_char(1)]);
        }
    } else if d == 2 {
        out.append("2");
        proof {
            reveal_strlit("2");
            assert(old(out)@ + "2"@ =~= old(out)@ + seq![digit_char(2)]);
        }
    } else if d == 3 {
        out.append("3");
        proof {
            reveal_strlit("3");
            assert(old(out)@ + "3"@ =~= old(out)@ + seq![digit_char(3)]);
        }
    } else if d == 4 {
        out.append("4");
        proof {
            reveal_strlit("4");
            assert(old(out)@ + "4"@ =~= old(out)@ + seq![digit_char(4)]);
        }
    } else if d == 5 {
        out.append("5");
        proof {
            reveal_strlit("5");
            assert(old(out)@ + "5"@ =~= old(out)@ + seq![digit_char(5)]);
        }
    } else if d == 6 {
        out.append("6");
        proof {
            reveal_strlit("6");
            assert(old(out)@ + "6"@ =~= old(out)@ + seq![digit_char(6)]);
        }
    } else if d == 7 {
        out.append("7");
        proof {
            reveal_strlit("7");
            assert(old(out)@ + "7"@ =~= old(out)@ + seq![digit_char(7)]);
        }
    } else if d == 8 {
        out.append("8");
        proof {
            reveal_strlit("8");
            assert(old(out)@ + "8"@ =~= old(out)@ + seq![digit_char(8)]);
        }
    } else {
        out.append("9");
        proof {
            reveal_strlit("9");
            assert(old(out)@ + "9"@ =~= old(out)@ + seq![digit_char(9)]);
        }
    }
}

/// Append the decimal digits of `n`.
fn push_digits(out: &mut String, n: u128)
    ensures
        final(out)@ == old(out)@ + spec_digits(n as int),
    decreases n,
{
    if n < 10 {
        push_digit(out, n);
    } else {
        push_digits(out, n / 10);
        push_digit(out, n % 10);
        proof {
            assert(final(out)@ =~= old(out)@ + spec_digits(n as int));
        }
    }
}

/// The text of a quantity: an integer when the denominator divides the
/// numerator, otherwise a plain fraction.
pub open spec fn spec_qty_chars(q: Qty) -> Seq<char> {
    let sign: Seq<char> = if q.neg && q.num > 0 {
        seq!['-']
    } else {
        Seq::empty()
    };
    if q.den != 0 && q.num % q.den == 0 {
        sign + spec_digits((q.num / q.den) as int)
    } else {
        sign + spec_digits(q.num as int) + seq!['/'] + spec_digits(q.den as int)
    }
}

/// The text of an optional quantity; an absent one reads `0`.
pub open spec fn spec_opt_qty_chars(o: Option<Qty>) -> Seq<char> {
    match o {
        Some(q) => spec_qty_chars(q),
        None => seq!['0'],
    }
}

/// Render a quantity.
pub fn qty_to_string(q: &Qty) -> (r: String)
    ensures
        r@ == spec_qty_chars(*q),
{
    let mut out = String::new();
    if q.neg && q.num > 0 {
        out.append("-");
        proof {
            reveal_strlit("-");
            assert(out@ =~= (if q.neg && q.num > 0 {
                seq!['-']
            } else {
                Seq::<char>::empty()
            }));
        }
    }
    if q.den != 0 && q.num % q.den == 0 {
        push_digits(&mut out, q.num / q.den);
    } else {
        push_digits(&mut out, q.num);
        out.append("/");
        proof {
            reveal_strlit("/");
        }
        push_digits(&mut out, q.den);
    }
    proof {
        assert(out@ =~= spec_qty_chars(*q));
    }
    out
}

/// Append the text of an optional quantity.
pub(crate) fn push_opt_qty(out: &mut String, o: &Option<Qty>)
    ensures
        final(out)@ == old(out)@ + spec_opt_qty_chars(*o),
{
    match o {
        Some(q) => {
            let t = qty_to_string(q);
            out.append(t.as_str());
        },
        None => {
            out.append("0");
            proof {
                reveal_strlit("0");
                assert(final(out)@ =~= old(out)@ + seq!['0']);
            }
        },
    }
}

} // verus!
