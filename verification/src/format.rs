//! Decimal text for sizes and indices, as carried by error values.

use vstd::prelude::*;
use vstd::string::StringExecFns;

verus! {

/// The character that writes the digit `d`.
pub open spec fn digit_char(d: nat) -> char {
    if d == 0 {
        '0'
    } else if d == 1 {
        '1'
    } else if d == 2 {
        '2'
    } else if d == 3 {
        '3'
    } else if d == 4 {
        '4'
    } else if d == 5 {
        '5'
    } else if d == 6 {
        '6'
    } else if d == 7 {
        '7'
    } else if d == 8 {
        '8'
    } else {
        '9'
    }
}

/// The decimal digits of `n`, most significant first, without leading zeros.
pub open spec fn decimal(n: nat) -> Seq<char>
    decreases n,
{
    if n < 10 {
        seq![digit_char(n)]
    } else {
        decimal(n / 10).push(digit_char(n % 10))
    }
}

/// The text `RxC` of a shape with `rows` rows and `cols` columns.
pub open spec fn shape_text(rows: nat, cols: nat) -> Seq<char> {
    decimal(rows) + seq!['x'] + decimal(cols)
}

fn digit_str(d: usize) -> (s: &'static str)
    requires
        d < 10,
    ensures
        s@ == seq![digit_char(d as nat)],
{
    proof {
        reveal_strlit("0");
        reveal_strlit("1");
        reveal_strlit("2");
        reveal_strlit("3");
        reveal_strlit("4");
        reveal_strlit("5");
        reveal_strlit("6");
        reveal_strlit("7");
        reveal_strlit("8");
        reveal_strlit("9");
    }
    let s = if d == 0 {
        "0"
    } else if d == 1 {
        "1"
    } else if d == 2 {
        "2"
    } else if d == 3 {
        "3"
    } else if d == 4 {
        "4"
    } else if d == 5 {
        "5"
    } else if d == 6 {
        "6"
    } else if d == 7 {
        "7"
    } else if d == 8 {
        "8"
    } else {
        "9"
    };
    assert(s@ =~= seq![digit_char(d as nat)]);
    s
}

/// Writes `n` in decimal.
pub fn decimal_string(n: usize) -> (s: String)
    ensures
        s@ == decimal(n as nat),
{
    let mut s = String::from_str(digit_str(n % 10));
    let mut rest: usize = n / 10;
    assert(n >= 10 ==> decimal(n as nat) =~= decimal(rest as nat) + s@);
    while rest > 0
        invariant
            rest > 0 ==> decimal(n as nat) == decimal(rest as nat) + s@,
            rest == 0 ==> decimal(n as nat) == s@,
        decreases rest,
    {
        let lead = String::from_str(digit_str(rest % 10));
        s = lead.concat(s.as_str());
        proof {
            if rest >= 10 {
                assert(decimal(rest as nat) == decimal((rest / 10) as nat).push(
                    digit_char((rest % 10) as nat),
                ));
                assert(decimal(n as nat) =~= decimal((rest / 10) as nat) + s@);
            } else {
                assert(decimal(n as nat) =~= s@);
            }
        }
        rest = rest / 10;
    }
    s
}

/// Writes the shape `RxC`.
pub fn shape_string(rows: usize, cols: usize) -> (s: String)
    ensures
        s@ == shape_text(rows as nat, cols as nat),
{
    let left = decimal_string(rows);
    let right = decimal_string(cols);
    let s = left.concat("x").concat(right.as_str());
    proof {
        reveal_strlit("x");
        assert(s@ =~= shape_text(rows as nat, cols as nat));
    }
    s
}

} // verus!
