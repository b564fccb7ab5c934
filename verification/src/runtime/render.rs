//! Values as text.
//!
//! A number is written with as many digits behind the point as it needs, a
//! tolerance behind a `~`. A boolean is `true` or `false`. A function is an
//! `@` and its place among the functions.

use vstd::prelude::*;
use vstd::arithmetic::div_mod::lemma_mod_breakdown;

use crate::errors::runtime::RuntimeError;
use crate::runtime::number::{
    all_digits,
    digit_of,
    in_range,
    is_numeral,
    lemma_ten_to_at_most,
    literal,
    magnitude_of,
    point_of,
    spelled,
    ten_to,
    Number,
    SCALE,
};
use crate::unicode::is_ascii_digit;
use crate::runtime::value::Value;

verus! {

/// The character that stands for the digit `digit`.
pub open spec fn digit_char(digit: nat) -> char {
    if digit == 0 {
        '0'
    } else if digit == 1 {
        '1'
    } else if digit == 2 {
        '2'
    } else if digit == 3 {
        '3'
    } else if digit == 4 {
        '4'
    } else if digit == 5 {
        '5'
    } else if digit == 6 {
        '6'
    } else if digit == 7 {
        '7'
    } else if digit == 8 {
        '8'
    } else {
        '9'
    }
}

/// The decimal digits of `n`, without zeros before them.
pub open spec fn decimal(n: nat) -> Seq<char>
    decreases n,
{
    if n < 10 {
        seq![digit_char(n)]
    } else {
        decimal(n / 10).push(digit_char(n % 10))
    }
}

/// The last `width` decimal digits of `n`, with zeros before them where `n`
/// has fewer.
pub open spec fn padded(n: nat, width: nat) -> Seq<char>
    decreases width,
{
    if width == 0 {
        Seq::empty()
    } else {
        padded(n / 10, (width - 1) as nat).push(digit_char(n % 10))
    }
}

/// The digits behind the point of a fraction of `n` parts in ten to the
/// power of `width`, without zeros behind them.
pub open spec fn fraction(n: nat, width: nat) -> Seq<char>
    decreases width,
{
    if width > 0 && n % 10 == 0 {
        fraction(n / 10, (width - 1) as nat)
    } else {
        padded(n, width)
    }
}

/// A count of units as text: the whole part, and behind a point the
/// fraction, if there is one.
pub open spec fn written(units: nat) -> Seq<char> {
    let whole = units / (SCALE as nat);
    let part = units % (SCALE as nat);
    if part == 0 {
        decimal(whole)
    } else {
        decimal(whole) + seq!['.'] + fraction(part, 15)
    }
}

/// A number as text.
pub open spec fn number_text(number: Number) -> Seq<char> {
    let sign = if number.units < 0 {
        seq!['-']
    } else {
        Seq::empty()
    };
    let value = sign + written(magnitude_of(number.units as int));
    if number.tolerance == 0 {
        value
    } else {
        value + seq![' ', '~', ' '] + written(number.tolerance as nat)
    }
}

/// A value as text.
pub open spec fn value_text(value: Value) -> Seq<char> {
    match value {
        Value::Number(number) => number_text(number),
        Value::Boolean(true) => seq!['t', 'r', 'u', 'e'],
        Value::Boolean(false) => seq!['f', 'a', 'l', 's', 'e'],
        Value::FunctionReference(group) => seq!['@'] + decimal(group as nat),
    }
}

/// See [`digit_char`].
fn digit(value: u128) -> (c: char)
    requires
        value < 10,
    ensures
        c == digit_char(value as nat),
{
    if value == 0 {
        '0'
    } else if value == 1 {
        '1'
    } else if value == 2 {
        '2'
    } else if value == 3 {
        '3'
    } else if value == 4 {
        '4'
    } else if value == 5 {
        '5'
    } else if value == 6 {
        '6'
    } else if value == 7 {
        '7'
    } else if value == 8 {
        '8'
    } else {
        '9'
    }
}

/// Writes [`decimal`] of `n` behind `text`.
fn push_decimal(text: &mut String, n: u128)
    ensures
        final(text)@ == old(text)@ + decimal(n as nat),
    decreases n,
{
    if n >= 10 {
        push_decimal(text, n / 10);
    }
    text.push(digit(n % 10));
    assert(text@ =~= old(text)@ + decimal(n as nat));
}

/// Writes [`padded`] of `n` and `width` behind `text`.
fn push_padded(text: &mut String, n: u128, width: usize)
    ensures
        final(text)@ == old(text)@ + padded(n as nat, width as nat),
    decreases width,
{
    if width > 0 {
        push_padded(text, n / 10, width - 1);
        text.push(digit(n % 10));
    }
    assert(text@ =~= old(text)@ + padded(n as nat, width as nat));
}

/// Writes [`fraction`] of `n` and `width` behind `text`.
fn push_fraction(text: &mut String, n: u128, width: usize)
    ensures
        final(text)@ == old(text)@ + fraction(n as nat, width as nat),
    decreases width,
{
    if width > 0 && n % 10 == 0 {
        push_fraction(text, n / 10, width - 1);
    } else {
        push_padded(text, n, width);
    }
}

/// Writes [`written`] of `units` behind `text`.
fn push_written(text: &mut String, units: u128)
    ensures
        final(text)@ == old(text)@ + written(units as nat),
{
    let whole = units / SCALE;
    let part = units % SCALE;
    push_decimal(text, whole);
    if part != 0 {
        text.push('.');
        push_fraction(text, part, 15);
    }
    assert(text@ =~= old(text)@ + written(units as nat));
}

impl Number {
    /// See [`number_text`].
    pub fn to_string(&self) -> (text: String)
        ensures
            text@ == number_text(*self),
    {
        let mut text = String::new();
        let size = if self.units >= 0 {
            self.units as u128
        } else {
            text.push('-');
            (-(self.units + 1)) as u128 + 1
        };
        push_written(&mut text, size);
        if self.tolerance != 0 {
            text.push(' ');
            text.push('~');
            text.push(' ');
            push_written(&mut text, self.tolerance);
        }
        assert(text@ =~= number_text(*self));
        text
    }
}

impl Value {
    /// See [`value_text`].
    pub fn to_string(&self) -> (text: String)
        ensures
            text@ == value_text(*self),
    {
        match self {
            Value::Number(number) => number.to_string(),
            Value::Boolean(holds) => {
                let mut text = String::new();
                if *holds {
                    text.push('t');
                    text.push('r');
                    text.push('u');
                    text.push('e');
                } else {
                    text.push('f');
                    text.push('a');
                    text.push('l');
                    text.push('s');
                    text.push('e');
                }
                assert(text@ =~= value_text(*self));
                text
            },
            Value::FunctionReference(group) => {
                let mut text = String::new();
                text.push('@');
                push_decimal(&mut text, *group as u128);
                assert(text@ =~= value_text(*self));
                text
            },
        }
    }
}

/// A digit is written as the character that is read as that digit.
proof fn lemma_digit_char(digit: nat)
    requires
        digit < 10,
    ensures
        is_ascii_digit(digit_char(digit)),
        digit_of(digit_char(digit)) == digit,
        digit_char(digit) != '.',
{
}

/// What digits spell depends on nothing but the digits.
proof fn lemma_spelled_of_equal_digits(a: Seq<char>, i: int, b: Seq<char>, j: int, count: int)
    requires
        0 <= count,
        0 <= i,
        0 <= j,
        i + count <= a.len(),
        j + count <= b.len(),
        forall|k: int| i <= k < i + count ==> #[trigger] a[k] == b[k - i + j],
    ensures
        spelled(a, i, i + count) == spelled(b, j, j + count),
    decreases count,
{
    if count > 0 {
        lemma_spelled_of_equal_digits(a, i, b, j, count - 1);
        assert(a[i + count - 1] == b[i + count - 1 - i + j]);
    }
}

/// The digits of a whole number spell it.
proof fn lemma_decimal_spells(n: nat)
    ensures
        decimal(n).len() >= 1,
        all_digits(decimal(n), 0, decimal(n).len() as int),
        forall|i: int| 0 <= i < decimal(n).len() ==> #[trigger] decimal(n)[i] != '.',
        spelled(decimal(n), 0, decimal(n).len() as int) == n,
    decreases n,
{
    if n < 10 {
        lemma_digit_char(n);
        let text = decimal(n);
        assert(spelled(text, 0, 0) == 0);
        assert(spelled(text, 0, 1) == spelled(text, 0, 0) * 10 + digit_of(text[0]));
    } else {
        let front = decimal(n / 10);
        let text = decimal(n);
        lemma_decimal_spells(n / 10);
        lemma_digit_char(n % 10);
        let length = front.len() as int;
        assert(text == front.push(digit_char(n % 10)));
        assert forall|i: int| 0 <= i < text.len() implies is_ascii_digit(#[trigger] text[i])
            && text[i] != '.' by {
            if i < length {
                assert(text[i] == front[i]);
            }
        }
        lemma_spelled_of_equal_digits(text, 0, front, 0, length);
        assert(spelled(text, 0, length + 1) == spelled(text, 0, length) * 10 + digit_of(
            text[length],
        ));
    }
}

/// The last digits of a whole number, written with zeros before them, spell
/// what is left of the number when the digits before them are dropped.
proof fn lemma_padded_spells(n: nat, width: nat)
    ensures
        padded(n, width).len() == width,
        all_digits(padded(n, width), 0, width as int),
        forall|i: int| 0 <= i < width ==> #[trigger] padded(n, width)[i] != '.',
        spelled(padded(n, width), 0, width as int) == n % ten_to(width),
    decreases width,
{
    if width > 0 {
        let less = (width - 1) as nat;
        let front = padded(n / 10, less);
        let text = padded(n, width);
        lemma_padded_spells(n / 10, less);
        lemma_digit_char(n % 10);
        lemma_ten_to_at_most(0, less);
        assert(text == front.push(digit_char(n % 10)));
        assert forall|i: int| 0 <= i < text.len() implies is_ascii_digit(#[trigger] text[i])
            && text[i] != '.' by {
            if i < less {
                assert(text[i] == front[i]);
            }
        }
        lemma_spelled_of_equal_digits(text, 0, front, 0, less as int);
        assert(spelled(text, 0, width as int) == spelled(text, 0, less as int) * 10 + digit_of(
            text[less as int],
        ));
        let power = ten_to(less);
        assert(ten_to(width) == 10 * power);
        lemma_mod_breakdown(n as int, 10, power as int);
    } else {
        assert(ten_to(0) == 1);
    }
}

/// The digits of a fraction spell it, once as many zeros are put behind them
/// as were left out.
proof fn lemma_fraction_spells(n: nat, width: nat)
    requires
        n < ten_to(width),
    ensures
        fraction(n, width).len() <= width,
        n != 0 ==> fraction(n, width).len() >= 1,
        all_digits(fraction(n, width), 0, fraction(n, width).len() as int),
        forall|i: int| 0 <= i < fraction(n, width).len() ==> #[trigger] fraction(n, width)[i] != '.',
        spelled(fraction(n, width), 0, fraction(n, width).len() as int) * ten_to(
            (width - fraction(n, width).len()) as nat,
        ) == n,
    decreases width,
{
    if width > 0 && n % 10 == 0 {
        let less = (width - 1) as nat;
        assert(ten_to(width) == 10 * ten_to(less));
        lemma_fraction_spells(n / 10, less);
        let text = fraction(n, width);
        let zeros = (less - text.len()) as nat;
        assert(ten_to((width - text.len()) as nat) == 10 * ten_to(zeros));
        assert(spelled(text, 0, text.len() as int) * (10 * ten_to(zeros)) == 10 * (spelled(
            text,
            0,
            text.len() as int,
        ) * ten_to(zeros))) by (nonlinear_arith);
    } else {
        lemma_padded_spells(n, width);
        assert(ten_to(0) == 1);
        assert(n % ten_to(width) == n) by (nonlinear_arith)
            requires
                n < ten_to(width),
        ;
        assert(spelled(padded(n, width), 0, width as int) * 1 == n);
    }
}

/// The first point of a text stands behind the characters before it that are
/// no points.
proof fn lemma_point_is_found(text: Seq<char>, from: int, point: int)
    requires
        0 <= from <= point <= text.len(),
        forall|i: int| from <= i < point ==> #[trigger] text[i] != '.',
        point < text.len() ==> text[point] == '.',
    ensures
        point_of(text, from) == point,
    decreases point - from,
{
    if from < point {
        assert(text[from] != '.');
        lemma_point_is_found(text, from + 1, point);
    }
}

/// What is written of a number can be read again: the text of a number that
/// is not negative, within the range and without a tolerance is a numeral,
/// and the numeral spells the number.
pub proof fn lemma_written_is_read(number: Number)
    requires
        0 <= number.units,
        in_range(number.units as int),
        number.tolerance == 0,
    ensures
        is_numeral(number_text(number)),
        literal(number_text(number)) == Ok::<Number, RuntimeError>(number),
{
    let units = number.units as nat;
    let whole = units / (SCALE as nat);
    let part = units % (SCALE as nat);
    let text = number_text(number);
    let front = decimal(whole);
    let length = front.len() as int;
    assert(text =~= written(units));
    assert(ten_to(15) == SCALE) by {
        reveal_with_fuel(ten_to, 16);
    }
    lemma_decimal_spells(whole);
    if part == 0 {
        assert(text == front);
        lemma_point_is_found(text, 0, length);
        assert(spelled(text, length + 1, length) == 0);
        assert(ten_to(15) == SCALE);
        assert(units == whole * SCALE) by (nonlinear_arith)
            requires
                whole == units / (SCALE as nat),
                0 == units % (SCALE as nat),
                SCALE > 0,
        ;
    } else {
        let back = fraction(part, 15);
        lemma_fraction_spells(part, 15);
        let places = back.len() as int;
        assert(text =~= front + seq!['.'] + back);
        assert(text.len() == length + 1 + places);
        assert forall|i: int| 0 <= i < length implies #[trigger] text[i] != '.' by {
            assert(text[i] == front[i]);
        }
        assert(text[length] == '.');
        lemma_point_is_found(text, 0, length);
        assert forall|i: int| 0 <= i < length implies is_ascii_digit(#[trigger] text[i]) by {
            assert(text[i] == front[i]);
        }
        assert forall|i: int| length + 1 <= i < text.len() implies is_ascii_digit(
            #[trigger] text[i],
        ) by {
            assert(text[i] == back[i - length - 1]);
        }
        lemma_spelled_of_equal_digits(text, 0, front, 0, length);
        assert forall|k: int| length + 1 <= k < length + 1 + places implies #[trigger] text[k]
            == back[k - (length + 1) + 0] by {}
        lemma_spelled_of_equal_digits(text, length + 1, back, 0, places);
        assert(units == whole * SCALE + part) by (nonlinear_arith)
            requires
                whole == units / (SCALE as nat),
                part == units % (SCALE as nat),
                SCALE > 0,
        ;
    }
}

} // verus!
