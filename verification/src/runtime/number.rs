//! Numbers: decimal fractions with fifteen digits before the point and
//! fifteen behind it.
//!
//! A number is a whole count of units, each the smallest fraction that can be
//! written, and a tolerance in the same units. Arithmetic is exact where the
//! result can be written and rounds to the nearest unit, halves away from
//! zero, where it cannot. Nothing wraps: a result beyond the range is an
//! error.

use vstd::prelude::*;
use vstd::arithmetic::div_mod::{
    lemma_div_is_ordered,
    lemma_div_multiples_vanish,
    lemma_fundamental_div_mod,
    lemma_fundamental_div_mod_converse,
};
use crate::errors::runtime::RuntimeError;
use crate::unicode::{ascii_digit, is_ascii_digit};

verus! {

/// How many units make one.
pub const SCALE: u128 = 1_000_000_000_000_000;

/// The largest magnitude of a number, in units: a thousand million
/// millions.
pub const LIMIT: u128 = 1_000_000_000_000_000_000_000_000_000_000;

/// A number, with the tolerance within which it counts as equal to another.
#[derive(Clone, Copy, Debug, PartialEq, Eq, Structural)]
pub struct Number {
    /// The value, in units.
    pub units: i128,
    /// The tolerance, in units.
    pub tolerance: u128,
}

/// The magnitude of a whole number.
pub open spec fn magnitude_of(x: int) -> nat {
    if x < 0 {
        (-x) as nat
    } else {
        x as nat
    }
}

/// The whole number of the given magnitude and sign.
pub open spec fn signed_of(negative: bool, magnitude: nat) -> int {
    if negative {
        -(magnitude as int)
    } else {
        magnitude as int
    }
}

/// `n / d`, rounded to the nearest whole number, halves upwards.
pub open spec fn rounded(n: nat, d: nat) -> nat {
    if 2 * (n % d) >= d {
        n / d + 1
    } else {
        n / d
    }
}

/// Whether a number of `units` units is within the range.
pub open spec fn in_range(units: int) -> bool {
    -(LIMIT as int) <= units <= LIMIT as int
}

/// The number of exactly `units` units, if it is within the range.
pub open spec fn exact(units: int) -> Result<Number, RuntimeError> {
    if in_range(units) {
        Ok(Number { units: units as i128, tolerance: 0 })
    } else {
        Err(RuntimeError::Overflow)
    }
}

/// The product of two counts of units, in units.
pub open spec fn product_of(a: int, b: int) -> int {
    signed_of((a < 0) != (b < 0), rounded(magnitude_of(a) * magnitude_of(b), SCALE as nat))
}

/// The quotient of two counts of units, in units.
pub open spec fn quotient_of(a: int, b: int) -> int {
    signed_of((a < 0) != (b < 0), rounded(magnitude_of(a) * SCALE as nat, magnitude_of(b)))
}

/// What is left of `a` when `b` is taken from its magnitude as often as it
/// goes; it has the sign of `a`.
pub open spec fn remainder_of(a: int, b: int) -> int {
    signed_of(a < 0, magnitude_of(a) % magnitude_of(b))
}

/// Whether `root` is the whole number nearest to the square root of `n`.
pub open spec fn is_rounded_root(n: nat, root: nat) -> bool {
    n <= root * root + root && (root == 0 || root * root - root < n)
}

/// The whole number nearest to the square root of `n`.
pub open spec fn rounded_root(n: nat) -> nat {
    choose|root: nat| is_rounded_root(n, root)
}

/// Only one whole number is nearest to a square root.
pub proof fn lemma_rounded_root_is_unique(n: nat, a: nat, b: nat)
    requires
        is_rounded_root(n, a),
        is_rounded_root(n, b),
    ensures
        a == b,
{
    if a < b {
        assert(b * b - b >= a * a + a) by (nonlinear_arith)
            requires
                a < b,
        ;
    } else if b < a {
        assert(a * a - a >= b * b + b) by (nonlinear_arith)
            requires
                b < a,
        ;
    }
}

/// The sum of two numbers.
pub open spec fn sum_of(a: Number, b: Number) -> Result<Number, RuntimeError> {
    exact(a.units + b.units)
}

/// The difference of two numbers.
pub open spec fn difference_of(a: Number, b: Number) -> Result<Number, RuntimeError> {
    exact(a.units - b.units)
}

/// The product of two numbers, rounded to the nearest unit.
pub open spec fn times(a: Number, b: Number) -> Result<Number, RuntimeError> {
    if in_range(a.units as int) && in_range(b.units as int) {
        exact(product_of(a.units as int, b.units as int))
    } else {
        Err(RuntimeError::Overflow)
    }
}

/// The quotient of two numbers, rounded to the nearest unit.
pub open spec fn divided(a: Number, b: Number) -> Result<Number, RuntimeError> {
    if b.units == 0 {
        Err(RuntimeError::DivisionByZero)
    } else if in_range(a.units as int) && in_range(b.units as int) {
        exact(quotient_of(a.units as int, b.units as int))
    } else {
        Err(RuntimeError::Overflow)
    }
}

/// The remainder of the division of two numbers.
pub open spec fn modulo(a: Number, b: Number) -> Result<Number, RuntimeError> {
    if b.units == 0 {
        Err(RuntimeError::DivisionByZero)
    } else {
        exact(remainder_of(a.units as int, b.units as int))
    }
}

/// The square root of a number, rounded to the nearest unit.
pub open spec fn root_of(a: Number) -> Result<Number, RuntimeError> {
    if a.units < 0 {
        Err(RuntimeError::Unrepresentable)
    } else if in_range(a.units as int) {
        exact(rounded_root(a.units as nat * SCALE as nat) as int)
    } else {
        Err(RuntimeError::Overflow)
    }
}

/// `a` to the power of the whole number `count`. The power of an even count
/// is the square of the power of half the count, that of an odd count the
/// power of the count before it times `a`; each product is rounded.
pub open spec fn repeated(a: Number, count: nat) -> Result<Number, RuntimeError>
    decreases count,
{
    if count == 0 {
        Ok(Number { units: SCALE as i128, tolerance: 0 })
    } else if count % 2 == 0 {
        match repeated(a, count / 2) {
            Ok(root) => times(root, root),
            Err(error) => Err(error),
        }
    } else {
        match repeated(a, (count - 1) as nat) {
            Ok(power) => times(power, a),
            Err(error) => Err(error),
        }
    }
}

/// `a` to the power of a fraction of `part` units, which is less than one.
/// The power is made of square roots: `weight` is the fraction that the
/// square root of `a` is the power of, and `steps` is how many roots may
/// still be taken. A fraction that is no sum of halves, quarters and so on
/// down to the last of them cannot be represented.
pub open spec fn rooted(a: Number, part: nat, weight: nat, steps: nat) -> Result<
    Number,
    RuntimeError,
>
    decreases steps,
{
    if part == 0 {
        Ok(Number { units: SCALE as i128, tolerance: 0 })
    } else if steps == 0 {
        Err(RuntimeError::Unrepresentable)
    } else {
        match root_of(a) {
            Err(error) => Err(error),
            Ok(root) => if part >= weight {
                match rooted(root, (part - weight) as nat, weight / 2, (steps - 1) as nat) {
                    Err(error) => Err(error),
                    Ok(rest) => times(root, rest),
                }
            } else {
                rooted(root, part, weight / 2, (steps - 1) as nat)
            },
        }
    }
}

/// `a` to the power of `e`. The whole part of the exponent is a power by
/// products, the fraction a power by square roots: fifteen roots are taken
/// at most, so the fraction is a sum of halves, quarters and so on down to
/// one part in two to the power of fifteen, or else the power cannot be
/// represented. A negative exponent gives one divided by the power.
pub open spec fn raised(a: Number, e: Number) -> Result<Number, RuntimeError> {
    let size = magnitude_of(e.units as int);
    let part = size % (SCALE as nat);
    if !in_range(e.units as int) {
        Err(RuntimeError::Overflow)
    } else {
        let whole = repeated(a, size / (SCALE as nat));
        let power = if part == 0 {
            whole
        } else {
            match (whole, rooted(a, part, SCALE as nat / 2, 15)) {
                (Ok(power), Ok(root)) => times(power, root),
                (Err(error), _) => Err(error),
                (_, Err(error)) => Err(error),
            }
        };
        if e.units < 0 {
            match power {
                Ok(power) => divided(Number { units: SCALE as i128, tolerance: 0 }, power),
                Err(error) => Err(error),
            }
        } else {
            power
        }
    }
}

/// Whether two numbers are equal: whether they differ by no more than their
/// tolerances together.
pub open spec fn same(a: Number, b: Number) -> bool {
    magnitude_of(a.units - b.units) <= a.tolerance + b.tolerance
}

/// Whether `a` is less than `b`: below it and not equal to it.
pub open spec fn below(a: Number, b: Number) -> bool {
    a.units < b.units && !same(a, b)
}


/// The digit that the character `c` stands for.
pub open spec fn digit_of(c: char) -> nat {
    (c as int - '0' as int) as nat
}

/// The whole number that the characters of `text` from `from` up to `to`
/// spell in decimal digits.
pub open spec fn spelled(text: Seq<char>, from: int, to: int) -> nat
    decreases to - from,
{
    if from >= to {
        0
    } else {
        spelled(text, from, to - 1) * 10 + digit_of(text[to - 1])
    }
}

/// Whether the characters of `text` from `from` up to `to` are digits.
pub open spec fn all_digits(text: Seq<char>, from: int, to: int) -> bool {
    forall|i: int| from <= i < to ==> is_ascii_digit(#[trigger] text[i])
}

/// Where the first point of `text` stands from `from` on; the length of
/// `text` if there is none.
pub open spec fn point_of(text: Seq<char>, from: int) -> int
    decreases text.len() - from,
{
    if 0 <= from < text.len() && text[from] != '.' {
        point_of(text, from + 1)
    } else {
        from
    }
}

/// Ten to the power of `n`.
pub open spec fn ten_to(n: nat) -> nat
    decreases n,
{
    if n == 0 {
        1
    } else {
        10 * ten_to((n - 1) as nat)
    }
}

/// Whether `text` is a numeral: digits, with at most one point among them,
/// which has a digit behind it.
pub open spec fn is_numeral(text: Seq<char>) -> bool {
    let point = point_of(text, 0);
    &&& text.len() > 0
    &&& all_digits(text, 0, point)
    &&& all_digits(text, point + 1, text.len() as int)
    &&& point != text.len() - 1
}

/// The number that the numeral `text` spells. A numeral with more digits
/// behind the point than a number has cannot be represented.
pub open spec fn literal(text: Seq<char>) -> Result<Number, RuntimeError> {
    let point = point_of(text, 0);
    let places = if point < text.len() {
        text.len() - point - 1
    } else {
        0
    };
    if !is_numeral(text) || places > 15 {
        Err(RuntimeError::Unrepresentable)
    } else {
        exact(
            spelled(text, 0, point) * SCALE + spelled(text, point + 1, text.len() as int) * ten_to(
                (15 - places) as nat,
            ),
        )
    }
}

/// A numeral spells no less than any of its beginnings.
pub proof fn lemma_spelled_grows(text: Seq<char>, from: int, middle: int, to: int)
    requires
        from <= middle <= to,
    ensures
        spelled(text, from, middle) <= spelled(text, from, to),
    decreases to - middle,
{
    if middle < to {
        lemma_spelled_grows(text, from, middle, to - 1);
    }
}

/// A numeral of `count` digits spells less than ten to the power of `count`.
pub proof fn lemma_spelled_bound(text: Seq<char>, from: int, to: int)
    requires
        from <= to,
        all_digits(text, from, to),
    ensures
        spelled(text, from, to) < ten_to((to - from) as nat),
    decreases to - from,
{
    if from < to {
        lemma_spelled_bound(text, from, to - 1);
        assert(is_ascii_digit(text[to - 1]));
    }
}

/// See [`point_of`].
fn find_point(text: &str) -> (point: usize)
    ensures
        point == point_of(text@, 0),
        point <= text@.len(),
{
    let length = text.unicode_len();
    let mut point: usize = 0;
    while point < length && text.get_char(point) != '.'
        invariant
            point <= length == text@.len(),
            point_of(text@, point as int) == point_of(text@, 0),
        decreases length - point,
    {
        point += 1;
    }
    point
}

/// The whole number that the characters of `text` from `from` up to `to`
/// spell, or `None` if one of them is no digit. Beyond `limit` nothing is
/// added up: the result is then some number beyond `limit`.
fn read_digits(text: &str, from: usize, to: usize, limit: u128) -> (value: Option<u128>)
    requires
        from <= to <= text@.len(),
        limit <= 1_000_000_000_000_000,
    ensures
        value is Some <==> all_digits(text@, from as int, to as int),
        value is Some && spelled(text@, from as int, to as int) <= limit ==> value->0 == spelled(
            text@,
            from as int,
            to as int,
        ),
        value is Some && spelled(text@, from as int, to as int) > limit ==> value->0 > limit,
{
    let mut value: u128 = 0;
    let mut i: usize = from;
    while i < to
        invariant
            from <= i <= to <= text@.len(),
            limit <= 1_000_000_000_000_000,
            all_digits(text@, from as int, i as int),
            value <= 10 * limit + 9,
            spelled(text@, from as int, i as int) <= limit ==> value == spelled(
                text@,
                from as int,
                i as int,
            ),
            spelled(text@, from as int, i as int) > limit ==> value > limit,
        decreases to - i,
    {
        let c = text.get_char(i);
        if !ascii_digit(c) {
            assert(!is_ascii_digit(text@[i as int]));
            return None;
        }
        proof {
            lemma_spelled_grows(text@, from as int, i as int, i + 1);
        }
        if value <= limit {
            value = value * 10 + (c as u32 - '0' as u32) as u128;
        }
        i += 1;
    }
    Some(value)
}

/// See [`ten_to`].
fn ten_power(n: usize) -> (power: u128)
    requires
        n <= 15,
    ensures
        power == ten_to(n as nat),
        0 < power <= 1_000_000_000_000_000,
{
    let mut power: u128 = 1;
    let mut k: usize = 0;
    while k < n
        invariant
            k <= n <= 15,
            power == ten_to(k as nat),
        decreases n - k,
    {
        proof {
            lemma_ten_to_at_most(k as nat + 1, 15);
            assert(ten_to(15) == 1_000_000_000_000_000) by {
                reveal_with_fuel(ten_to, 16);
            }
        }
        power = power * 10;
        k += 1;
    }
    proof {
        lemma_ten_to_at_most(n as nat, 15);
        assert(ten_to(15) == 1_000_000_000_000_000) by {
            reveal_with_fuel(ten_to, 16);
        }
    }
    power
}

/// The magnitude of `x`.
fn magnitude(x: i128) -> (m: u128)
    ensures
        m == magnitude_of(x as int),
{
    if x >= 0 {
        x as u128
    } else {
        (-(x + 1)) as u128 + 1
    }
}

/// The number of `magnitude` units with the given sign.
fn signed(negative: bool, magnitude: u128) -> (result: Result<Number, RuntimeError>)
    ensures
        result == exact(signed_of(negative, magnitude as nat)),
{
    if magnitude > LIMIT {
        Err(RuntimeError::Overflow)
    } else if negative {
        Ok(Number { units: -(magnitude as i128), tolerance: 0 })
    } else {
        Ok(Number { units: magnitude as i128, tolerance: 0 })
    }
}

/// The product of two numbers of two digits, digit by digit.
proof fn lemma_product_by_digits(xh: int, xl: int, yh: int, yl: int, base: int)
    ensures
        (xh * base + xl) * (yh * base + yl) == (xh * yh) * base * base + (xh * yl + xl * yh) * base
            + xl * yl,
{
    let x = xh * base + xl;
    let shifted = yh * base;
    assert(x * (shifted + yl) == x * shifted + x * yl) by (nonlinear_arith);
    assert((xh * base + xl) * shifted == xh * base * shifted + xl * shifted) by (nonlinear_arith);
    assert((xh * base + xl) * yl == xh * base * yl + xl * yl) by (nonlinear_arith);
    assert(xh * base * (yh * base) == (xh * yh) * base * base) by (nonlinear_arith);
    assert(xl * (yh * base) == (xl * yh) * base) by (nonlinear_arith);
    assert(xh * base * yl == (xh * yl) * base) by (nonlinear_arith);
    assert((xh * yl) * base + (xl * yh) * base == (xh * yl + xl * yh) * base) by (nonlinear_arith);
}

/// Carries from one digit to the next leave a number as it is.
proof fn lemma_carries(high: int, middle: int, low: int, carry1: int, d1: int, carry0: int, d0: int, base: int)
    requires
        low == carry0 * base + d0,
        middle + carry0 == carry1 * base + d1,
    ensures
        high * base * base + middle * base + low == (high + carry1) * base * base + d1 * base + d0,
{
    assert(high * base * base + middle * base + (carry0 * base + d0) == (high + carry1) * base
        * base + d1 * base + d0) by (nonlinear_arith)
        requires
            middle + carry0 == carry1 * base + d1,
    ;
}

/// Long division in three steps: what the steps leave is what the division
/// of the whole leaves.
proof fn lemma_long_division(
    a: int,
    b: int,
    wholes: int,
    first: int,
    upper: int,
    second: int,
    lower: int,
    rest: int,
)
    requires
        a == b * wholes + first,
        first * 100_000_000 == b * upper + second,
        second * 10_000_000 == b * lower + rest,
    ensures
        a * SCALE == (wholes * SCALE + upper * 10_000_000 + lower) * b + rest,
{
    let base = SCALE as int;
    assert(a * base == b * wholes * base + first * base) by (nonlinear_arith)
        requires
            a == b * wholes + first,
    ;
    assert(first * base == (first * 100_000_000) * 10_000_000) by (nonlinear_arith)
        requires
            base == 100_000_000 * 10_000_000,
    ;
    assert((b * upper + second) * 10_000_000 == b * upper * 10_000_000 + second * 10_000_000)
        by (nonlinear_arith);
    assert((wholes * base + upper * 10_000_000 + lower) * b == b * wholes * base + b * upper
        * 10_000_000 + b * lower) by (nonlinear_arith);
}

/// How two whole numbers stand to one another.
#[derive(Clone, Copy, Debug, PartialEq, Eq, Structural)]
pub enum Sign {
    Less,
    Equal,
    Greater,
}

/// How the whole numbers `x` and `y` stand to one another.
pub open spec fn sign_of(x: int, y: int) -> Sign {
    if x < y {
        Sign::Less
    } else if x == y {
        Sign::Equal
    } else {
        Sign::Greater
    }
}

/// Numbers of three digits to the base of [`SCALE`] stand to one another as
/// their first digits that differ do.
proof fn lemma_digits_compare(a2: int, a1: int, a0: int, b2: int, b1: int, b0: int)
    requires
        0 <= a1 < SCALE,
        0 <= a0 < SCALE,
        0 <= b1 < SCALE,
        0 <= b0 < SCALE,
    ensures
        sign_of(a2 * SCALE * SCALE + a1 * SCALE + a0, b2 * SCALE * SCALE + b1 * SCALE + b0) == if a2
            != b2 {
            sign_of(a2, b2)
        } else if a1 != b1 {
            sign_of(a1, b1)
        } else {
            sign_of(a0, b0)
        },
{
    let base = SCALE as int;
    if a2 < b2 {
        assert(a2 * base * base + a1 * base + a0 < b2 * base * base + b1 * base + b0) by (
            nonlinear_arith)
            requires
                a2 + 1 <= b2,
                0 <= a1 < base,
                0 <= a0 < base,
                0 <= b1,
                0 <= b0,
                base > 0,
        ;
    } else if a2 > b2 {
        assert(a2 * base * base + a1 * base + a0 > b2 * base * base + b1 * base + b0) by (
            nonlinear_arith)
            requires
                b2 + 1 <= a2,
                0 <= b1 < base,
                0 <= b0 < base,
                0 <= a1,
                0 <= a0,
                base > 0,
        ;
    } else if a1 < b1 {
        assert(a1 * base + a0 < b1 * base + b0) by (nonlinear_arith)
            requires
                a1 + 1 <= b1,
                0 <= a0 < base,
                0 <= b0,
        ;
    } else if a1 > b1 {
        assert(a1 * base + a0 > b1 * base + b0) by (nonlinear_arith)
            requires
                b1 + 1 <= a1,
                0 <= b0 < base,
                0 <= a0,
        ;
    }
}

/// How the product of `x` and `y` stands to `a` times [`SCALE`]. Neither is
/// multiplied out: both are compared digit by digit to the base of
/// [`SCALE`].
fn compare_product(x: u128, y: u128, a: u128) -> (sign: Sign)
    requires
        x <= 100_000_000_000_000_000_000_000,
        y <= 100_000_000_000_000_000_000_000,
        a <= LIMIT,
    ensures
        sign == sign_of(x * y, a * SCALE),
{
    let xh = x / SCALE;
    let xl = x % SCALE;
    let yh = y / SCALE;
    let yl = y % SCALE;
    let ah = a / SCALE;
    let al = a % SCALE;
    assert(xl * yl <= 1_000_000_000_000_000_000_000_000_000_000) by (nonlinear_arith)
        requires
            xl <= 1_000_000_000_000_000,
            yl <= 1_000_000_000_000_000,
    ;
    assert(xh * yl <= 100_000_000_000_000_000_000_000) by (nonlinear_arith)
        requires
            xh <= 100_000_000,
            yl <= 1_000_000_000_000_000,
    ;
    assert(xl * yh <= 100_000_000_000_000_000_000_000) by (nonlinear_arith)
        requires
            yh <= 100_000_000,
            xl <= 1_000_000_000_000_000,
    ;
    assert(xh * yh <= 10_000_000_000_000_000) by (nonlinear_arith)
        requires
            xh <= 100_000_000,
            yh <= 100_000_000,
    ;
    let low = xl * yl;
    let d0 = low % SCALE;
    let middle = xh * yl + xl * yh + low / SCALE;
    let d1 = middle % SCALE;
    let d2 = xh * yh + middle / SCALE;
    proof {
        let base = SCALE as int;
        lemma_product_by_digits(xh as int, xl as int, yh as int, yl as int, base);
        lemma_carries(
            xh * yh,
            xh * yl + xl * yh,
            low as int,
            (middle / SCALE) as int,
            d1 as int,
            (low / SCALE) as int,
            d0 as int,
            base,
        );
        assert(x * y == d2 * base * base + d1 * base + d0);
        assert(a * SCALE == ah * base * base + al * base + 0) by (nonlinear_arith)
            requires
                a == ah * base + al,
                base == SCALE,
        ;
        lemma_digits_compare(d2 as int, d1 as int, d0 as int, ah as int, al as int, 0);
    }
    if d2 != ah {
        if d2 < ah {
            Sign::Less
        } else {
            Sign::Greater
        }
    } else if d1 != al {
        if d1 < al {
            Sign::Less
        } else {
            Sign::Greater
        }
    } else if d0 == 0 {
        Sign::Equal
    } else {
        Sign::Greater
    }
}

/// The whole number nearest to the square root of `a` times [`SCALE`].
fn nearest_root(a: u128) -> (root: u128)
    requires
        a <= LIMIT,
    ensures
        root == rounded_root(a as nat * SCALE as nat),
        root <= 100_000_000_000_000_000_000_000,
{
    let ghost n = a as nat * SCALE as nat;
    let mut low: u128 = 0;
    let mut high: u128 = 100_000_000_000_000_000_000_000;
    assert(100_000_000_000_000_000_000_000u128 * 100_000_000_000_000_000_000_000u128 > n) by (
        nonlinear_arith)
        requires
            n == a * SCALE,
            a <= 1_000_000_000_000_000_000_000_000_000_000,
            SCALE == 1_000_000_000_000_000,
    ;
    while high - low > 1
        invariant
            low < high <= 100_000_000_000_000_000_000_000,
            a <= LIMIT,
            n == a as nat * SCALE as nat,
            low * low <= n < high * high,
        decreases high - low,
    {
        let middle = low + (high - low) / 2;
        match compare_product(middle, middle, a) {
            Sign::Greater => {
                high = middle;
            },
            _ => {
                low = middle;
            },
        }
    }
    let up = match compare_product(low, low + 1, a) {
        Sign::Less => true,
        _ => false,
    };
    let root = if up {
        low + 1
    } else {
        low
    };
    proof {
        let r = root as nat;
        assert(is_rounded_root(n, r)) by (nonlinear_arith)
            requires
                low * low <= n < (low + 1) * (low + 1),
                up == (low * (low + 1) < n),
                r == if up {
                    low + 1
                } else {
                    low as int
                },
        ;
        lemma_rounded_root_is_unique(n, r, rounded_root(n));
    }
    root
}

impl Number {
    /// The number of `units` units, with no tolerance.
    pub fn new(units: i128) -> (number: Number)
        ensures
            number == (Number { units, tolerance: 0 }),
    {
        Number { units, tolerance: 0 }
    }

    /// The whole number `value`.
    pub fn from_integer(value: i32) -> (number: Number)
        ensures
            number == (Number { units: (value * SCALE) as i128, tolerance: 0 }),
    {
        assert(-2_147_483_648 * SCALE <= value * SCALE <= 2_147_483_647 * SCALE) by (
            nonlinear_arith)
            requires
                -2_147_483_648 <= value <= 2_147_483_647,
                SCALE == 1_000_000_000_000_000,
        ;
        Number { units: (value as i128) * (SCALE as i128), tolerance: 0 }
    }

    /// See [`literal`].
    pub fn parse(text: &str) -> (result: Result<Number, RuntimeError>)
        ensures
            result == literal(text@),
    {
        let length = text.unicode_len();
        let point = find_point(text);
        if length == 0 || (point < length && point + 1 == length) {
            return Err(RuntimeError::Unrepresentable);
        }
        let whole = match read_digits(text, 0, point, 1_000_000_000_000_000) {
            Some(whole) => whole,
            None => {
                return Err(RuntimeError::Unrepresentable);
            },
        };
        let first = if point < length {
            point + 1
        } else {
            length
        };
        let fraction = match read_digits(text, first, length, 1_000_000_000_000_000) {
            Some(fraction) => fraction,
            None => {
                return Err(RuntimeError::Unrepresentable);
            },
        };
        let places = length - first;
        if places > 15 {
            return Err(RuntimeError::Unrepresentable);
        }
        if whole > 1_000_000_000_000_000 {
            assert(spelled(text@, 0, point as int) * SCALE > LIMIT) by (nonlinear_arith)
                requires
                    spelled(text@, 0, point as int) > 1_000_000_000_000_000,
                    SCALE == 1_000_000_000_000_000,
                    LIMIT == 1_000_000_000_000_000_000_000_000_000_000,
            ;
            return Err(RuntimeError::Overflow);
        }
        let weight = ten_power(15 - places);
        proof {
            lemma_spelled_bound(text@, first as int, length as int);
            lemma_ten_to_product(places as nat, (15 - places) as nat);
            lemma_ten_to_at_most(places as nat, 15);
            assert(ten_to(15) == 1_000_000_000_000_000) by {
                reveal_with_fuel(ten_to, 16);
            }
            assert(fraction * weight < 1_000_000_000_000_000) by (nonlinear_arith)
                requires
                    fraction < ten_to(places as nat),
                    ten_to(places as nat) * weight == 1_000_000_000_000_000,
                    weight > 0,
            ;
            assert(whole * SCALE <= 1_000_000_000_000_000_000_000_000_000_000) by (
                nonlinear_arith)
                requires
                    whole <= 1_000_000_000_000_000,
                    SCALE == 1_000_000_000_000_000,
            ;
        }
        signed(false, whole * SCALE + fraction * weight)
    }

    /// Whether this number is within the range.
    pub fn is_in_range(&self) -> (within: bool)
        ensures
            within == in_range(self.units as int),
    {
        -(LIMIT as i128) <= self.units && self.units <= LIMIT as i128
    }

    /// See [`sum_of`].
    pub fn add(self, other: Number) -> (result: Result<Number, RuntimeError>)
        ensures
            result == sum_of(self, other),
    {
        match self.units.checked_add(other.units) {
            Some(units) => if -(LIMIT as i128) <= units && units <= LIMIT as i128 {
                Ok(Number { units, tolerance: 0 })
            } else {
                Err(RuntimeError::Overflow)
            },
            None => Err(RuntimeError::Overflow),
        }
    }

    /// See [`difference_of`].
    pub fn subtract(self, other: Number) -> (result: Result<Number, RuntimeError>)
        ensures
            result == difference_of(self, other),
    {
        match self.units.checked_sub(other.units) {
            Some(units) => if -(LIMIT as i128) <= units && units <= LIMIT as i128 {
                Ok(Number { units, tolerance: 0 })
            } else {
                Err(RuntimeError::Overflow)
            },
            None => Err(RuntimeError::Overflow),
        }
    }

    /// See [`times`].
    pub fn multiply(self, other: Number) -> (result: Result<Number, RuntimeError>)
        ensures
            result == times(self, other),
    {
        if !self.is_in_range() || !other.is_in_range() {
            return Err(RuntimeError::Overflow);
        }
        let a = magnitude(self.units);
        let b = magnitude(other.units);
        let ah = a / SCALE;
        let al = a % SCALE;
        let bh = b / SCALE;
        let bl = b % SCALE;
        assert(ah * bh <= 1_000_000_000_000_000_000_000_000_000_000) by (nonlinear_arith)
            requires
                ah <= 1_000_000_000_000_000,
                bh <= 1_000_000_000_000_000,
        ;
        let wholes = ah * bh;
        if wholes > SCALE {
            proof {
                let base = SCALE as int;
                lemma_product_by_digits(ah as int, al as int, bh as int, bl as int, base);
                assert((ah * bh) * base * base + (ah * bl + al * bh) * base + al * bl >= base * (
                    wholes * base)) by (nonlinear_arith)
                    requires
                        wholes == ah * bh,
                        al >= 0,
                        bl >= 0,
                        ah >= 0,
                        bh >= 0,
                        base > 0,
                ;
                lemma_div_is_ordered(base * (wholes * base), (a * b) as int, base);
                lemma_div_multiples_vanish(wholes * base, base);
                assert(wholes * base > LIMIT) by (nonlinear_arith)
                    requires
                        wholes >= 1_000_000_000_000_001,
                        base == 1_000_000_000_000_000,
                        LIMIT == 1_000_000_000_000_000_000_000_000_000_000,
                ;
            }
            return Err(RuntimeError::Overflow);
        }
        assert(wholes * SCALE <= 1_000_000_000_000_000_000_000_000_000_000) by (nonlinear_arith)
            requires
                wholes <= 1_000_000_000_000_000,
                SCALE == 1_000_000_000_000_000,
        ;
        assert(ah * bl <= 1_000_000_000_000_000_000_000_000_000_000) by (nonlinear_arith)
            requires
                ah <= 1_000_000_000_000_000,
                bl <= 1_000_000_000_000_000,
        ;
        assert(al * bh <= 1_000_000_000_000_000_000_000_000_000_000) by (nonlinear_arith)
            requires
                al <= 1_000_000_000_000_000,
                bh <= 1_000_000_000_000_000,
        ;
        assert(al * bl <= 1_000_000_000_000_000_000_000_000_000_000) by (nonlinear_arith)
            requires
                al <= 1_000_000_000_000_000,
                bl <= 1_000_000_000_000_000,
        ;
        let parts = al * bl;
        let quotient = wholes * SCALE + ah * bl + al * bh + parts / SCALE;
        let rest = parts % SCALE;
        proof {
            let base = SCALE as int;
            lemma_product_by_digits(ah as int, al as int, bh as int, bl as int, base);
            assert(quotient * base + rest == (ah * bh) * base * base + (ah * bl + al * bh) * base
                + parts) by (nonlinear_arith)
                requires
                    parts == (parts / SCALE) * base + rest,
                    quotient == (ah * bh) * base + ah * bl + al * bh + parts / SCALE,
            ;
            assert(a * b == quotient * base + rest);
            lemma_fundamental_div_mod_converse(
                (a * b) as int,
                SCALE as int,
                quotient as int,
                rest as int,
            );
        }
        let nearest = if 2 * rest >= SCALE {
            quotient + 1
        } else {
            quotient
        };
        signed((self.units < 0) != (other.units < 0), nearest)
    }

    /// See [`divided`].
    pub fn divide(self, other: Number) -> (result: Result<Number, RuntimeError>)
        ensures
            result == divided(self, other),
    {
        if other.units == 0 {
            return Err(RuntimeError::DivisionByZero);
        }
        if !self.is_in_range() || !other.is_in_range() {
            return Err(RuntimeError::Overflow);
        }
        let a = magnitude(self.units);
        let b = magnitude(other.units);
        // Long division, the fifteen digits behind the point in two steps.
        let wholes = a / b;
        let first = a % b;
        proof {
            lemma_fundamental_div_mod(a as int, b as int);
        }
        if wholes > SCALE {
            proof {
                let base = SCALE as int;
                assert(a * base >= b * (wholes * base)) by (nonlinear_arith)
                    requires
                        a == b * wholes + first,
                        first >= 0,
                        base > 0,
                ;
                lemma_div_is_ordered(b * (wholes * base), a * base, b as int);
                lemma_div_multiples_vanish(wholes * base, b as int);
                assert(wholes * base > LIMIT) by (nonlinear_arith)
                    requires
                        wholes >= 1_000_000_000_000_001,
                        base == 1_000_000_000_000_000,
                        LIMIT == 1_000_000_000_000_000_000_000_000_000_000,
                ;
            }
            return Err(RuntimeError::Overflow);
        }
        assert(first * 100_000_000 <= 100_000_000_000_000_000_000_000_000_000_000_000_000) by (
            nonlinear_arith)
            requires
                first <= 1_000_000_000_000_000_000_000_000_000_000,
        ;
        let upper = (first * 100_000_000) / b;
        let second = (first * 100_000_000) % b;
        proof {
            lemma_fundamental_div_mod(first * 100_000_000, b as int);
        }
        assert(second * 10_000_000 <= 10_000_000_000_000_000_000_000_000_000_000_000_000) by (
            nonlinear_arith)
            requires
                second <= 1_000_000_000_000_000_000_000_000_000_000,
        ;
        let lower = (second * 10_000_000) / b;
        let rest = (second * 10_000_000) % b;
        proof {
            lemma_fundamental_div_mod(second * 10_000_000, b as int);
        }
        proof {
            assert(upper < 100_000_000) by (nonlinear_arith)
                requires
                    first * 100_000_000 == b * upper + second,
                    first < b,
                    second >= 0,
            ;
            assert(lower < 10_000_000) by (nonlinear_arith)
                requires
                    second * 10_000_000 == b * lower + rest,
                    second < b,
                    rest >= 0,
            ;
        }
        assert(wholes * SCALE <= 1_000_000_000_000_000_000_000_000_000_000) by (nonlinear_arith)
            requires
                wholes <= 1_000_000_000_000_000,
                SCALE == 1_000_000_000_000_000,
        ;
        let quotient = wholes * SCALE + upper * 10_000_000 + lower;
        proof {
            let base = SCALE as int;
            lemma_long_division(
                a as int,
                b as int,
                wholes as int,
                first as int,
                upper as int,
                second as int,
                lower as int,
                rest as int,
            );
            lemma_fundamental_div_mod_converse(
                a * base,
                b as int,
                quotient as int,
                rest as int,
            );
        }
        let nearest = if 2 * rest >= b {
            quotient + 1
        } else {
            quotient
        };
        signed((self.units < 0) != (other.units < 0), nearest)
    }

    /// See [`modulo`].
    pub fn remainder(self, other: Number) -> (result: Result<Number, RuntimeError>)
        ensures
            result == modulo(self, other),
    {
        if other.units == 0 {
            return Err(RuntimeError::DivisionByZero);
        }
        let a = magnitude(self.units);
        let b = magnitude(other.units);
        signed(self.units < 0, a % b)
    }

    /// See [`root_of`].
    pub fn square_root(self) -> (result: Result<Number, RuntimeError>)
        ensures
            result == root_of(self),
    {
        if self.units < 0 {
            return Err(RuntimeError::Unrepresentable);
        }
        if !self.is_in_range() {
            return Err(RuntimeError::Overflow);
        }
        signed(false, nearest_root(self.units as u128))
    }

    /// See [`repeated`].
    pub fn repeat(self, count: u128) -> (result: Result<Number, RuntimeError>)
        ensures
            result == repeated(self, count as nat),
        decreases count,
    {
        if count == 0 {
            Ok(Number { units: SCALE as i128, tolerance: 0 })
        } else if count % 2 == 0 {
            match self.repeat(count / 2) {
                Ok(root) => root.multiply(root),
                Err(error) => Err(error),
            }
        } else {
            match self.repeat(count - 1) {
                Ok(power) => power.multiply(self),
                Err(error) => Err(error),
            }
        }
    }

    /// See [`rooted`].
    pub fn root(self, part: u128, weight: u128, steps: usize) -> (result: Result<
        Number,
        RuntimeError,
    >)
        ensures
            result == rooted(self, part as nat, weight as nat, steps as nat),
        decreases steps,
    {
        if part == 0 {
            return Ok(Number { units: SCALE as i128, tolerance: 0 });
        }
        if steps == 0 {
            return Err(RuntimeError::Unrepresentable);
        }
        let root = match self.square_root() {
            Ok(root) => root,
            Err(error) => {
                return Err(error);
            },
        };
        if part >= weight {
            match root.root(part - weight, weight / 2, steps - 1) {
                Ok(rest) => root.multiply(rest),
                Err(error) => Err(error),
            }
        } else {
            root.root(part, weight / 2, steps - 1)
        }
    }

    /// See [`raised`].
    pub fn power(self, exponent: Number) -> (result: Result<Number, RuntimeError>)
        ensures
            result == raised(self, exponent),
    {
        if !exponent.is_in_range() {
            return Err(RuntimeError::Overflow);
        }
        let size = magnitude(exponent.units);
        let part = size % SCALE;
        let whole = self.repeat(size / SCALE);
        let positive = if part == 0 {
            whole
        } else {
            let root = self.root(part, SCALE / 2, 15);
            match whole {
                Ok(power) => match root {
                    Ok(root) => power.multiply(root),
                    Err(error) => Err(error),
                },
                Err(error) => Err(error),
            }
        };
        if exponent.units < 0 {
            match positive {
                Ok(power) => Number { units: SCALE as i128, tolerance: 0 }.divide(power),
                Err(error) => Err(error),
            }
        } else {
            positive
        }
    }

    /// This number with the opposite sign. Its tolerance stays.
    pub fn negate(self) -> (result: Result<Number, RuntimeError>)
        ensures
            result == if in_range(self.units as int) {
                Ok::<Number, RuntimeError>(
                    Number { units: (-self.units) as i128, tolerance: self.tolerance },
                )
            } else {
                Err::<Number, RuntimeError>(RuntimeError::Overflow)
            },
    {
        if self.is_in_range() {
            Ok(Number { units: -self.units, tolerance: self.tolerance })
        } else {
            Err(RuntimeError::Overflow)
        }
    }

    /// This number, to be taken for equal to every number that is no further
    /// from it than the magnitude of `tolerance`.
    pub fn within(self, tolerance: Number) -> (number: Number)
        ensures
            number == (Number {
                units: self.units,
                tolerance: magnitude_of(tolerance.units as int) as u128,
            }),
    {
        Number { units: self.units, tolerance: magnitude(tolerance.units) }
    }

    /// See [`same`].
    pub fn equals(self, other: Number) -> (equal: bool)
        ensures
            equal == same(self, other),
    {
        let distance = if (self.units >= 0) == (other.units >= 0) {
            if self.units >= other.units {
                (self.units - other.units) as u128
            } else {
                (other.units - self.units) as u128
            }
        } else {
            magnitude(self.units) + magnitude(other.units)
        };
        match self.tolerance.checked_add(other.tolerance) {
            Some(tolerance) => distance <= tolerance,
            None => true,
        }
    }

    /// See [`below`].
    pub fn less_than(self, other: Number) -> (less: bool)
        ensures
            less == below(self, other),
    {
        self.units < other.units && !self.equals(other)
    }
}

/// Of two numbers, one is less than the other or they are equal, and only
/// one of the three holds.
pub proof fn lemma_order_is_total(a: Number, b: Number)
    ensures
        below(a, b) || same(a, b) || below(b, a),
        !(below(a, b) && same(a, b)),
        !(below(b, a) && same(a, b)),
        !(below(a, b) && below(b, a)),
{
}

/// Equality within tolerance holds of every number and itself, and in both
/// directions or in none.
pub proof fn lemma_same_is_reflexive_and_symmetric(a: Number, b: Number)
    ensures
        same(a, a),
        same(a, b) == same(b, a),
{
}

/// Without tolerances, equality and order are those of the values.
pub proof fn lemma_exact_numbers_compare_by_value(a: Number, b: Number)
    requires
        a.tolerance == 0,
        b.tolerance == 0,
    ensures
        same(a, b) <==> a.units == b.units,
        below(a, b) <==> a.units < b.units,
{
}

/// Sums and products do not depend on the order of their operands.
pub proof fn lemma_sum_and_product_commute(a: Number, b: Number)
    ensures
        sum_of(a, b) == sum_of(b, a),
        times(a, b) == times(b, a),
{
    assert(magnitude_of(a.units as int) * magnitude_of(b.units as int) == magnitude_of(
        b.units as int,
    ) * magnitude_of(a.units as int)) by (nonlinear_arith);
}

/// Powers of ten grow with their exponents.
pub proof fn lemma_ten_to_at_most(n: nat, m: nat)
    requires
        n <= m,
    ensures
        0 < ten_to(n) <= ten_to(m),
    decreases m,
{
    if n < m {
        lemma_ten_to_at_most(n, (m - 1) as nat);
    } else if n > 0 {
        lemma_ten_to_at_most((n - 1) as nat, (m - 1) as nat);
    }
}

/// The product of two powers of ten is the power of the sum of their
/// exponents.
pub proof fn lemma_ten_to_product(n: nat, m: nat)
    ensures
        ten_to(n) * ten_to(m) == ten_to(n + m),
    decreases n,
{
    if n > 0 {
        let less = (n - 1) as nat;
        lemma_ten_to_product(less, m);
        let a = ten_to(less);
        let b = ten_to(m);
        assert(ten_to(n) == 10 * a);
        assert(ten_to(n + m) == 10 * ten_to(less + m));
        assert((10 * a) * b == 10 * (a * b)) by (nonlinear_arith);
    } else {
        assert(ten_to(0) == 1);
        assert(1 * ten_to(m) == ten_to(m)) by (nonlinear_arith);
    }
}

} // verus!
