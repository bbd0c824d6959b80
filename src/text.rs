//! Decimal rendering of whole numbers and of fixed-point amounts.
use vstd::prelude::*;

verus! {

/// The character of a decimal digit.
pub open spec fn digit_char(d: nat) -> char {
    if d == 0 {
        '0'
    } else if d == 1 {
        '1'
    } else if d == 2 {
        '2'
    } else if d == 3 {
        '3'
    } else if d == 4 {
        '4'
    } else if d == 5 {
        '5'
    } else if d == 6 {
        '6'
    } else if d == 7 {
        '7'
    } else if d == 8 {
        '8'
    } else {
        '9'
    }
}

/// The decimal digits of `n`, without leading zeros.
pub open spec fn decimal_text(n: nat) -> Seq<char>
    decreases n,
{
    if n < 10 {
        seq![digit_char(n)]
    } else {
        decimal_text(n / 10).push(digit_char(n % 10))
    }
}

/// `n / unit` rounded to one decimal place, halves up: `fixed1(2500, 1000)`
/// is `2.5`, `fixed1(2449, 100)` is `24.5`.
pub open spec fn fixed1(n: nat, unit: nat) -> Seq<char> {
    let tenths = (n * 10 + unit / 2) / unit;
    decimal_text(tenths / 10) + "."@ + decimal_text(tenths % 10)
}

/// `n / unit` rounded to a whole number, halves up.
pub open spec fn rounded(n: nat, unit: nat) -> nat {
    (n + unit / 2) / unit
}

fn digit_str(d: u64) -> (r: &'static str)
    requires
        d < 10,
    ensures
        r@ == seq![digit_char(d as nat)],
{
    if d == 0 {
        proof {
            reveal_strlit("0");
        }
        "0"
    } else if d == 1 {
        proof {
            reveal_strlit("1");
        }
        "1"
    } else if d == 2 {
        proof {
            reveal_strlit("2");
        }
        "2"
    } else if d == 3 {
        proof {
            reveal_strlit("3");
        }
        "3"
    } else if d == 4 {
        proof {
            reveal_strlit("4");
        }
        "4"
    } else if d == 5 {
        proof {
            reveal_strlit("5");
        }
        "5"
    } else if d == 6 {
        proof {
            reveal_strlit("6");
        }
        "6"
    } else if d == 7 {
        proof {
            reveal_strlit("7");
        }
        "7"
    } else if d == 8 {
        proof {
            reveal_strlit("8");
        }
        "8"
    } else {
        proof {
            reveal_strlit("9");
        }
        "9"
    }
}

/// Appends the decimal digits of `n` to `out`.
pub fn push_decimal(out: &mut String, n: u64)
    ensures
        final(out)@ == old(out)@ + decimal_text(n as nat),
    decreases n,
{
    if n < 10 {
        out.append(digit_str(n));
    } else {
        push_decimal(out, n / 10);
        out.append(digit_str(n % 10));
        assert(decimal_text(n as nat) == decimal_text((n / 10) as nat).push(digit_char((n % 10) as nat)));
    }
    assert(final(out)@ =~= old(out)@ + decimal_text(n as nat));
}

/// Appends `n / unit`, rounded to one decimal place, to `out`.
pub fn push_fixed1(out: &mut String, n: u64, unit: u64)
    requires
        1 <= unit <= 0xffff_ffff,
        n <= 0xffff_ffff,
    ensures
        final(out)@ == old(out)@ + fixed1(n as nat, unit as nat),
{
    let tenths = (n * 10 + unit / 2) / unit;
    push_decimal(out, tenths / 10);
    out.append(".");
    push_decimal(out, tenths % 10);
    assert(final(out)@ =~= old(out)@ + fixed1(n as nat, unit as nat));
}

} // verus!
