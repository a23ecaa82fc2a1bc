//! Decimal rendering of integers, and the two-figure fields built from it.

use vstd::prelude::*;

verus! {

/// The character that stands for the digit `d`.
pub open spec fn digit_char(d: int) -> char {
    if d == 0 {
        '0'
    } else if d == 1 {
        '1'
    } else if d == 2 {
        '2'
    } else if d == 3 {
        '3'
    } else if d == 4 {
        '4'
    } else if d == 5 {
        '5'
    } else if d == 6 {
        '6'
    } else if d == 7 {
        '7'
    } else if d == 8 {
        '8'
    } else {
        '9'
    }
}

/// Whether `c` is one of the ten decimal digits.
pub open spec fn is_digit(c: char) -> bool {
    c == '0' || c == '1' || c == '2' || c == '3' || c == '4' || c == '5' || c == '6' || c == '7'
        || c == '8' || c == '9'
}

/// The number that the digit `c` stands for.
pub open spec fn digit_value(c: char) -> nat {
    if c == '1' {
        1
    } else if c == '2' {
        2
    } else if c == '3' {
        3
    } else if c == '4' {
        4
    } else if c == '5' {
        5
    } else if c == '6' {
        6
    } else if c == '7' {
        7
    } else if c == '8' {
        8
    } else if c == '9' {
        9
    } else {
        0
    }
}

/// The number that a sequence of digits stands for, read in base ten.
pub open spec fn numeral_value(digits: Seq<char>) -> nat
    decreases digits.len(),
{
    if digits.len() == 0 {
        0
    } else {
        numeral_value(digits.drop_last()) * 10 + digit_value(digits.last())
    }
}

/// Whether every character of `text` is a decimal digit.
pub open spec fn all_digits(text: Seq<char>) -> bool {
    forall|i: int| 0 <= i < text.len() ==> is_digit(#[trigger] text[i])
}

/// The decimal numeral of `n`: no sign, no leading zero but for zero itself.
pub open spec fn decimal(n: nat) -> Seq<char>
    decreases n,
{
    if n < 10 {
        seq![digit_char(n as int)]
    } else {
        decimal(n / 10).push(digit_char((n % 10) as int))
    }
}

/// The decimal numeral of `v`, with a leading `-` where `v` is negative.
pub open spec fn signed_decimal(v: int) -> Seq<char> {
    if v < 0 {
        seq!['-'] + decimal((-v) as nat)
    } else {
        decimal(v as nat)
    }
}

/// A field of at least two figures: the numeral of `n`, with a `0` put in
/// front of a single figure.
pub open spec fn two_figures(n: nat) -> Seq<char> {
    if n < 10 {
        seq!['0'] + decimal(n)
    } else {
        decimal(n)
    }
}

/// The hours of a time zone offset: the sign, then the magnitude in two
/// figures. Only an offset above zero gets `+`; zero gets `-`.
pub open spec fn tz_hours(h: int) -> Seq<char> {
    if h > 0 {
        seq!['+'] + two_figures(h as nat)
    } else {
        seq!['-'] + two_figures((-h) as nat)
    }
}

/// A decimal numeral is made of digits, at least one, and begins with
/// `0` only where it is the numeral of zero. Read in base ten it gives
/// the number back.
pub proof fn lemma_decimal(n: nat)
    ensures
        decimal(n).len() >= 1,
        decimal(n).len() == 1 <==> n < 10,
        decimal(n).len() == 2 <==> 10 <= n < 100,
        all_digits(decimal(n)),
        decimal(n)[0] == '0' <==> n == 0,
        numeral_value(decimal(n)) == n,
    decreases n,
{
    if n < 10 {
        assert(decimal(n).drop_last() =~= Seq::<char>::empty());
        assert(numeral_value(decimal(n).drop_last()) == 0);
    } else {
        lemma_decimal(n / 10);
        assert(decimal(n).drop_last() =~= decimal(n / 10));
        assert(decimal(n)[0] == decimal(n / 10)[0]);
    }
}

/// A field of two figures: below ten a `0` and the digit, from ten to
/// ninety-nine the two digits of the number as they are. From a hundred
/// on the numeral stands as it is, longer than two figures.
pub proof fn lemma_two_figures(n: nat)
    ensures
        n < 10 ==> two_figures(n) == seq!['0', digit_char(n as int)],
        10 <= n < 100 ==> two_figures(n) == decimal(n),
        n < 100 ==> two_figures(n) == seq![
            digit_char((n / 10) as int),
            digit_char((n % 10) as int),
        ],
        n >= 100 ==> two_figures(n) == decimal(n) && two_figures(n).len() > 2,
        n < 100 <==> two_figures(n).len() == 2,
        all_digits(two_figures(n)),
{
    lemma_decimal(n);
    if n < 10 {
        assert(two_figures(n) =~= seq!['0', digit_char(n as int)]);
    } else if n < 100 {
        assert(decimal(n / 10) == seq![digit_char((n / 10) as int)]);
        assert(two_figures(n) =~= seq![digit_char((n / 10) as int), digit_char((n % 10) as int)]);
    }
}

fn digit_text(d: u64) -> (text: &'static str)
    requires
        d < 10,
    ensures
        text@ == seq![digit_char(d as int)],
{
    proof {
        reveal_strlit("0");
        reveal_strlit("1");
        reveal_strlit("2");
        reveal_strlit("3");
        reveal_strlit("4");
        reveal_strlit("5");
        reveal_strlit("6");
        reveal_strlit("7");
        reveal_strlit("8");
        reveal_strlit("9");
    }
    let text = if d == 0 {
        "0"
    } else if d == 1 {
        "1"
    } else if d == 2 {
        "2"
    } else if d == 3 {
        "3"
    } else if d == 4 {
        "4"
    } else if d == 5 {
        "5"
    } else if d == 6 {
        "6"
    } else if d == 7 {
        "7"
    } else if d == 8 {
        "8"
    } else {
        "9"
    };
    assert(text@ =~= seq![digit_char(d as int)]);
    text
}

/// Renders `n` as its decimal numeral.
pub fn decimal_string(n: u64) -> (text: String)
    ensures
        text@ == decimal(n as nat),
    decreases n,
{
    if n < 10 {
        String::from_str(digit_text(n))
    } else {
        let mut text = decimal_string(n / 10);
        text.append(digit_text(n % 10));
        assert(text@ =~= decimal(n as nat));
        text
    }
}

/// Renders `v` as its decimal numeral, with `-` before a negative one.
pub fn signed_decimal_string(v: i64) -> (text: String)
    ensures
        text@ == signed_decimal(v as int),
{
    if v < 0 {
        let magnitude: u64 = ((-(v + 1)) as u64) + 1;
        let digits = decimal_string(magnitude);
        proof {
            reveal_strlit("-");
        }
        let text = String::from_str("-").concat(digits.as_str());
        assert(text@ =~= signed_decimal(v as int));
        text
    } else {
        decimal_string(v as u64)
    }
}

/// Renders `input` in at least two figures, a single figure with a `0` in
/// front of it.
pub fn fill_double_figure(input: u32) -> (text: String)
    ensures
        text@ == two_figures(input as nat),
{
    let digits = decimal_string(input as u64);
    if input < 10 {
        proof {
            reveal_strlit("0");
        }
        let text = String::from_str("0").concat(digits.as_str());
        assert(text@ =~= two_figures(input as nat));
        text
    } else {
        digits
    }
}

/// Renders the hours of a time zone offset: `+` for an offset above zero
/// and `-` for zero or below, then the magnitude in two figures.
pub fn fill_tz_hours(input: i32) -> (text: String)
    ensures
        text@ == tz_hours(input as int),
{
    if input > 0 {
        let figures = fill_double_figure(input as u32);
        proof {
            reveal_strlit("+");
        }
        let text = String::from_str("+").concat(figures.as_str());
        assert(text@ =~= tz_hours(input as int));
        text
    } else {
        let magnitude: u32 = (-(input as i64)) as u32;
        let figures = fill_double_figure(magnitude);
        proof {
            reveal_strlit("-");
        }
        let text = String::from_str("-").concat(figures.as_str());
        assert(text@ =~= tz_hours(input as int));
        text
    }
}

} // verus!
