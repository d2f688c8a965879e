//! Numbers as text.

use vstd::prelude::*;
use crate::units::{pow10, power_of_ten, round_half_away, round_to_count};

verus! {

/// `String::push` of the standard library: appends one character to the end
/// of the string and leaves what was there as it was.
pub assume_specification[ String::push ](s: &mut String, c: char)
    ensures
        final(s)@ == old(s)@.push(c),
;

/// The character for a digit below sixteen, letters in lower case.
pub open spec fn digit_char(d: int) -> char {
    if d == 0 {
        '0'
    } else if d == 1 {
        '1'
    } else if d == 2 {
        '2'
    } else if d == 3 {
        '3'
    } else if d == 4 {
        '4'
    } else if d == 5 {
        '5'
    } else if d == 6 {
        '6'
    } else if d == 7 {
        '7'
    } else if d == 8 {
        '8'
    } else if d == 9 {
        '9'
    } else if d == 10 {
        'a'
    } else if d == 11 {
        'b'
    } else if d == 12 {
        'c'
    } else if d == 13 {
        'd'
    } else if d == 14 {
        'e'
    } else {
        'f'
    }
}

/// A natural number in decimal, without padding.
pub open spec fn decimal(n: nat) -> Seq<char>
    decreases n,
{
    if n < 10 {
        seq![digit_char(n as int)]
    } else {
        decimal(n / 10).push(digit_char((n % 10) as int))
    }
}

/// A number below a thousand as three decimal digits.
pub open spec fn three_digits(n: nat) -> Seq<char>
    recommends
        n < 1000,
{
    seq![
        digit_char((n / 100) as int),
        digit_char(((n / 10) % 10) as int),
        digit_char((n % 10) as int),
    ]
}

/// A count of thousandths as a decimal number with three decimal places.
pub open spec fn thousandths(count: int) -> Seq<char> {
    if count < 0 {
        seq!['-'] + decimal(((-count) / 1000) as nat) + seq!['.'] + three_digits(
            ((-count) % 1000) as nat,
        )
    } else {
        decimal((count / 1000) as nat) + seq!['.'] + three_digits((count % 1000) as nat)
    }
}

/// A quantity in millionths as a decimal number rounded to three decimal
/// places, halves going away from zero.
pub open spec fn three_places(value: int) -> Seq<char> {
    thousandths(round_half_away(value, 1000))
}

/// A byte as two hexadecimal digits in lower case.
pub open spec fn two_hex(byte: u8) -> Seq<char> {
    seq![digit_char(byte as int / 16), digit_char(byte as int % 16)]
}

fn digit(d: u8) -> (c: char)
    requires
        d < 16,
    ensures
        c == digit_char(d as int),
{
    if d == 0 {
        '0'
    } else if d == 1 {
        '1'
    } else if d == 2 {
        '2'
    } else if d == 3 {
        '3'
    } else if d == 4 {
        '4'
    } else if d == 5 {
        '5'
    } else if d == 6 {
        '6'
    } else if d == 7 {
        '7'
    } else if d == 8 {
        '8'
    } else if d == 9 {
        '9'
    } else if d == 10 {
        'a'
    } else if d == 11 {
        'b'
    } else if d == 12 {
        'c'
    } else if d == 13 {
        'd'
    } else if d == 14 {
        'e'
    } else {
        'f'
    }
}

/// Appends `n` in decimal.
pub fn push_decimal(s: &mut String, n: u64)
    ensures
        final(s)@ == old(s)@ + decimal(n as nat),
    decreases n,
{
    if n >= 10 {
        push_decimal(s, n / 10);
    }
    s.push(digit((n % 10) as u8));
    assert(s@ =~= old(s)@ + decimal(n as nat));
}

fn push_three_digits(s: &mut String, n: u64)
    requires
        n < 1000,
    ensures
        final(s)@ == old(s)@ + three_digits(n as nat),
{
    s.push(digit((n / 100) as u8));
    s.push(digit(((n / 10) % 10) as u8));
    s.push(digit((n % 10) as u8));
    assert(s@ =~= old(s)@ + three_digits(n as nat));
}

/// Appends a quantity in millionths as a decimal number with three decimal places.
pub fn push_three_places(s: &mut String, value: i64)
    ensures
        final(s)@ == old(s)@ + three_places(value as int),
{
    let count: i64 = round_to_count(value, 1000);
    let size: u64 = if count < 0 {
        s.push('-');
        ((-(count as i128)) as u64)
    } else {
        count as u64
    };
    push_decimal(s, size / 1000);
    s.push('.');
    push_three_digits(s, size % 1000);
    assert(s@ =~= old(s)@ + three_places(value as int));
}

/// Appends a byte as two hexadecimal digits in lower case.
pub fn push_two_hex(s: &mut String, byte: u8)
    ensures
        final(s)@ == old(s)@ + two_hex(byte),
{
    s.push(digit(byte / 16));
    s.push(digit(byte % 16));
    assert(s@ =~= old(s)@ + two_hex(byte));
}

/// A fraction below one, held as a number below ten to the power `places`,
/// as its decimal digits without the zeros at the end.
pub open spec fn fraction_digits(fraction: nat, places: nat) -> Seq<char>
    decreases places,
{
    if fraction == 0 || places == 0 {
        Seq::empty()
    } else {
        seq![digit_char((fraction / pow10((places - 1) as nat)) as int)] + fraction_digits(
            fraction % pow10((places - 1) as nat),
            (places - 1) as nat,
        )
    }
}

/// A quantity in millionths as a decimal number, written as short as it can
/// be: no decimal point for a whole number, no zeros at the end.
pub open spec fn plain_decimal(value: int) -> Seq<char> {
    let size = if value < 0 {
        -value
    } else {
        value
    };
    let sign = if value < 0 {
        seq!['-']
    } else {
        Seq::<char>::empty()
    };
    let whole = decimal((size / 1_000_000) as nat);
    if size % 1_000_000 == 0 {
        sign + whole
    } else {
        sign + whole + seq!['.'] + fraction_digits((size % 1_000_000) as nat, 6)
    }
}

fn push_fraction(s: &mut String, fraction: u64, places: u8)
    requires
        places <= 6,
        fraction < pow10(places as nat),
    ensures
        final(s)@ == old(s)@ + fraction_digits(fraction as nat, places as nat),
    decreases places,
{
    if fraction == 0 || places == 0 {
        assert(s@ =~= old(s)@ + fraction_digits(fraction as nat, places as nat));
        return ;
    }
    let unit: u64 = power_of_ten(places - 1) as u64;
    assert(pow10(places as nat) == 10 * pow10((places - 1) as nat));
    let first: u64 = fraction / unit;
    proof {
        vstd::arithmetic::div_mod::lemma_fundamental_div_mod(fraction as int, unit as int);
        vstd::arithmetic::div_mod::lemma_mod_bound(fraction as int, unit as int);
        assert(first < 10) by (nonlinear_arith)
            requires
                unit * first <= fraction,
                fraction < 10 * unit,
                unit > 0,
        ;
    }
    s.push(digit(first as u8));
    push_fraction(s, fraction % unit, places - 1);
    assert(s@ =~= old(s)@ + fraction_digits(fraction as nat, places as nat));
}

/// Appends a quantity in millionths as a decimal number, as short as it can be.
pub fn push_plain_decimal(s: &mut String, value: i64)
    ensures
        final(s)@ == old(s)@ + plain_decimal(value as int),
{
    let size: u64 = if value < 0 {
        s.push('-');
        ((-(value as i128)) as u64)
    } else {
        value as u64
    };
    push_decimal(s, size / 1_000_000);
    let fraction: u64 = size % 1_000_000;
    if fraction != 0 {
        s.push('.');
        proof {
            crate::units::lemma_pow10_values();
        }
        push_fraction(s, fraction, 6);
    }
    assert(s@ =~= old(s)@ + plain_decimal(value as int));
}

} // verus!
