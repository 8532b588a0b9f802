//! Decimal text for node titles and pin labels.

use vstd::prelude::*;
use vstd::string::StringExecFns;

verus! {

/// The character for the digit `d`.
pub open spec fn spec_digit(d: int) -> char {
    if d == 0 {
        '0'
    } else if d == 1 {
        '1'
    } else if d == 2 {
        '2'
    } else if d == 3 {
        '3'
    } else if d == 4 {
        '4'
    } else if d == 5 {
        '5'
    } else if d == 6 {
        '6'
    } else if d == 7 {
        '7'
    } else if d == 8 {
        '8'
    } else {
        '9'
    }
}

/// The decimal digits of `n`, without leading zeros.
pub open spec fn spec_decimal(n: nat) -> Seq<char>
    decreases n,
{
    if n < 10 {
        seq![spec_digit(n as int)]
    } else {
        spec_decimal(n / 10).push(spec_digit((n % 10) as int))
    }
}

/// `m` millionths as a whole number of hundredths, rounded to the nearest;
/// a tie goes to the even side.
pub open spec fn spec_hundredths(m: nat) -> nat {
    let whole = m / 10_000;
    let rest = m % 10_000;
    if rest > 5_000 || (rest == 5_000 && whole % 2 == 1) {
        whole + 1
    } else {
        whole
    }
}

/// The fixed-point number `v` with two places after the point: a minus sign
/// for a negative number, the whole part, a point and two digits.
pub open spec fn spec_two_places(v: int) -> Seq<char> {
    let h = spec_hundredths((if v < 0 { -v } else { v }) as nat);
    let sign = if v < 0 { seq!['-'] } else { Seq::<char>::empty() };
    let tenths = spec_digit(((h % 100) / 10) as int);
    let hundredths = spec_digit((h % 10) as int);
    sign + spec_decimal(h / 100) + seq!['.', tenths, hundredths]
}

/// The text of one digit.
pub fn digit_str(d: u64) -> (r: &'static str)
    requires
        d < 10,
    ensures
        r@ == seq![spec_digit(d as int)],
{
    proof {
        reveal_strlit("0");
        reveal_strlit("1");
        reveal_strlit("2");
        reveal_strlit("3");
        reveal_strlit("4");
        reveal_strlit("5");
        reveal_strlit("6");
        reveal_strlit("7");
        reveal_strlit("8");
        reveal_strlit("9");
    }
    let r: &'static str = if d == 0 {
        "0"
    } else if d == 1 {
        "1"
    } else if d == 2 {
        "2"
    } else if d == 3 {
        "3"
    } else if d == 4 {
        "4"
    } else if d == 5 {
        "5"
    } else if d == 6 {
        "6"
    } else if d == 7 {
        "7"
    } else if d == 8 {
        "8"
    } else {
        "9"
    };
    assert(r@ =~= seq![spec_digit(d as int)]);
    r
}

/// Writes `n` in decimal.
pub fn decimal(n: u64) -> (r: String)
    ensures
        r@ == spec_decimal(n as nat),
    decreases n,
{
    if n < 10 {
        String::from_str(digit_str(n))
    } else {
        let mut text: String = decimal(n / 10);
        text.append(digit_str(n % 10));
        assert(text@ =~= spec_decimal(n as nat));
        text
    }
}

/// Rounds millionths to hundredths, ties to even.
pub fn hundredths(m: u64) -> (r: u64)
    ensures
        r == spec_hundredths(m as nat),
{
    let whole: u64 = m / 10_000;
    let rest: u64 = m % 10_000;
    if rest > 5_000 || (rest == 5_000 && whole % 2 == 1) {
        whole + 1
    } else {
        whole
    }
}

/// Writes the fixed-point number `v` with two places after the point.
pub fn two_places(v: i64) -> (r: String)
    ensures
        r@ == spec_two_places(v as int),
{
    let magnitude: u64 = if v < 0 {
        (-(v as i128)) as u64
    } else {
        v as u64
    };
    let h: u64 = hundredths(magnitude);
    let mut text: String = if v < 0 {
        proof {
            reveal_strlit("-");
        }
        String::from_str("-")
    } else {
        String::new()
    };
    let whole: String = decimal(h / 100);
    text.append(whole.as_str());
    proof {
        reveal_strlit(".");
    }
    text.append(".");
    text.append(digit_str((h % 100) / 10));
    text.append(digit_str(h % 10));
    assert(text@ =~= spec_two_places(v as int));
    text
}

} // verus!
