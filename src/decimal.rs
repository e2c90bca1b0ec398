//! Decimal text of fixed-point numbers.
use vstd::prelude::*;
use vstd::string::StringExecFns;

verus! {

/// The character of decimal digit `d`.
pub open spec fn digit_char(d: int) -> char {
    if d == 0 {
        '0'
    } else if d == 1 {
        '1'
    } else if d == 2 {
        '2'
    } else if d == 3 {
        '3'
    } else if d == 4 {
        '4'
    } else if d == 5 {
        '5'
    } else if d == 6 {
        '6'
    } else if d == 7 {
        '7'
    } else if d == 8 {
        '8'
    } else {
        '9'
    }
}

/// Decimal digits of `n`, without leading zeros ("0" for zero).
pub open spec fn decimal(n: nat) -> Seq<char>
    decreases n,
{
    if n < 10 {
        seq![digit_char(n as int)]
    } else {
        decimal(n / 10).push(digit_char((n % 10) as int))
    }
}

/// The last `w` decimal digits of `n`, with leading zeros.
pub open spec fn padded(n: nat, w: nat) -> Seq<char>
    decreases w,
{
    if w == 0 {
        Seq::empty()
    } else {
        padded(n / 10, (w - 1) as nat).push(digit_char((n % 10) as int))
    }
}

/// The fraction `f / 10^w` as digits after the point, trailing zeros removed.
pub open spec fn fraction_digits(f: nat, w: nat) -> Seq<char>
    decreases w,
{
    if w > 0 && f % 10 == 0 {
        fraction_digits(f / 10, (w - 1) as nat)
    } else {
        padded(f, w)
    }
}

/// Decimal text of `v` millionths: the whole part, then, where the
/// fraction is not zero, a point and its digits without trailing zeros
/// (`7500000` is "7.5", `5000000` is "5").
pub open spec fn micro_text(v: nat) -> Seq<char> {
    let f = v % 1_000_000;
    if f == 0 {
        decimal(v / 1_000_000)
    } else {
        decimal(v / 1_000_000) + seq!['.'] + fraction_digits(f, 6)
    }
}

/// The one-character text of digit `d`.
fn digit_str(d: u64) -> (r: &'static str)
    requires
        d < 10,
    ensures
        r@ == seq![digit_char(d as int)],
{
    if d == 0 {
        proof {
            reveal_strlit("0");
        }
        "0"
    } else if d == 1 {
        proof {
            reveal_strlit("1");
        }
        "1"
    } else if d == 2 {
        proof {
            reveal_strlit("2");
        }
        "2"
    } else if d == 3 {
        proof {
            reveal_strlit("3");
        }
        "3"
    } else if d == 4 {
        proof {
            reveal_strlit("4");
        }
        "4"
    } else if d == 5 {
        proof {
            reveal_strlit("5");
        }
        "5"
    } else if d == 6 {
        proof {
            reveal_strlit("6");
        }
        "6"
    } else if d == 7 {
        proof {
            reveal_strlit("7");
        }
        "7"
    } else if d == 8 {
        proof {
            reveal_strlit("8");
        }
        "8"
    } else {
        proof {
            reveal_strlit("9");
        }
        "9"
    }
}

/// Appends the decimal digits of `n`.
pub fn push_decimal(s: &mut String, n: u64)
    ensures
        final(s)@ == old(s)@ + decimal(n as nat),
    decreases n,
{
    if n >= 10 {
        push_decimal(s, n / 10);
    }
    s.append(digit_str(n % 10));
    proof {
        if n >= 10 {
            assert(decimal(n as nat) == decimal((n / 10) as nat).push(digit_char((n % 10) as int)));
            assert(final(s)@ =~= old(s)@ + decimal(n as nat));
        } else {
            assert(final(s)@ =~= old(s)@ + decimal(n as nat));
        }
    }
}

/// Appends the last `w` decimal digits of `n`, with leading zeros.
fn push_padded(s: &mut String, n: u64, w: u64)
    ensures
        final(s)@ == old(s)@ + padded(n as nat, w as nat),
    decreases w,
{
    if w > 0 {
        push_padded(s, n / 10, w - 1);
        s.append(digit_str(n % 10));
        proof {
            assert(final(s)@ =~= old(s)@ + padded(n as nat, w as nat));
        }
    } else {
        proof {
            assert(final(s)@ =~= old(s)@ + padded(n as nat, w as nat));
        }
    }
}

/// Appends the decimal text of `v` millionths (see `micro_text`).
pub fn push_micro(s: &mut String, v: u64)
    ensures
        final(s)@ == old(s)@ + micro_text(v as nat),
{
    let whole = v / 1_000_000;
    let mut f = v % 1_000_000;
    push_decimal(s, whole);
    if f != 0 {
        proof {
            reveal_strlit(".");
        }
        s.append(".");
        let mut w: u64 = 6;
        while w > 0 && f % 10 == 0
            invariant
                w <= 6,
                fraction_digits(f as nat, w as nat) == fraction_digits((v % 1_000_000) as nat, 6),
            decreases w,
        {
            f = f / 10;
            w = w - 1;
        }
        push_padded(s, f, w);
        proof {
            assert(s@ =~= old(s)@ + micro_text(v as nat));
        }
    }
}

/// The decimal text of `v` millionths (see `micro_text`).
pub fn micro_string(v: u64) -> (r: String)
    ensures
        r@ == micro_text(v as nat),
{
    let mut s = String::new();
    push_micro(&mut s, v);
    proof {
        assert(s@ =~= micro_text(v as nat));
    }
    s
}

} // verus!
