use tortuga::errors::runtime::RuntimeError;
use tortuga::runtime::number::{Number, LIMIT, SCALE};

fn number(text: &str) -> Number {
    Number::parse(text).unwrap()
}

#[test]
fn numerals_spell_units() {
    assert_eq!(number("0"), Number::new(0));
    assert_eq!(number("1"), Number::new(SCALE as i128));
    assert_eq!(number("42"), Number::from_integer(42));
    assert_eq!(number(".5"), Number::new(500_000_000_000_000));
    assert_eq!(number("6.4"), Number::new(6_400_000_000_000_000));
    assert_eq!(number("10.403124237432849"), Number::new(10_403_124_237_432_849));
    assert_eq!(number("0.000000000000001"), Number::new(1));
    assert_eq!(number("1000000000000000"), Number::new(LIMIT as i128));
    assert_eq!(
        number("123456789012345.678901234567891"),
        Number::new(123_456_789_012_345_678_901_234_567_891)
    );
}

#[test]
fn numerals_beyond_the_digits_or_the_range_are_errors() {
    assert_eq!(Number::parse("0.0000000000000001"), Err(RuntimeError::Unrepresentable));
    assert_eq!(Number::parse(""), Err(RuntimeError::Unrepresentable));
    assert_eq!(Number::parse("."), Err(RuntimeError::Unrepresentable));
    assert_eq!(Number::parse("1."), Err(RuntimeError::Unrepresentable));
    assert_eq!(Number::parse("1.2.3"), Err(RuntimeError::Unrepresentable));
    assert_eq!(Number::parse("12a"), Err(RuntimeError::Unrepresentable));
    assert_eq!(Number::parse("-1"), Err(RuntimeError::Unrepresentable));
    assert_eq!(
        Number::parse("1000000000000000.000000000000001"),
        Err(RuntimeError::Overflow)
    );
    assert_eq!(Number::parse("1000000000000001"), Err(RuntimeError::Overflow));
    assert_eq!(
        Number::parse("123456789012345678901234567890123456789012345678901234567890"),
        Err(RuntimeError::Overflow)
    );
}

#[test]
fn sums_and_differences_are_exact() {
    assert_eq!(number("4").add(number("6.4")), Ok(number("10.4")));
    assert_eq!(number("0.1").add(number("0.2")), Ok(number("0.3")));
    assert_eq!(number("1").subtract(number("2.5")), Ok(Number::new(-1_500_000_000_000_000)));
    assert_eq!(
        number("1000000000000000").add(number("0.000000000000001")),
        Err(RuntimeError::Overflow)
    );
    assert_eq!(
        number("999999999999999.999999999999999").add(number("0.000000000000001")),
        Ok(number("1000000000000000"))
    );
    assert_eq!(
        Number::new(-(LIMIT as i128)).subtract(Number::new(1)),
        Err(RuntimeError::Overflow)
    );
    assert_eq!(Number::new(i128::MAX).add(Number::new(i128::MAX)), Err(RuntimeError::Overflow));
}

#[test]
fn products_round_to_the_nearest_unit() {
    assert_eq!(number("2").multiply(number("2")), Ok(number("4")));
    assert_eq!(number("1.5").multiply(number("1.5")), Ok(number("2.25")));
    assert_eq!(
        number("0.000000000000001").multiply(number("0.5")),
        Ok(number("0.000000000000001"))
    );
    assert_eq!(number("0.000000000000001").multiply(number("0.4")), Ok(number("0")));
    assert_eq!(
        Number::new(-12_345_678_901_234_567_891).multiply(number("3")),
        Ok(Number::new(-37_037_036_703_703_703_673))
    );
    assert_eq!(number("20000").multiply(number("20000")), Ok(number("400000000")));
    assert_eq!(
        number("100000000").multiply(number("100000000")),
        Err(RuntimeError::Overflow)
    );
    assert_eq!(
        number("31622776").multiply(number("31622776")),
        Ok(number("999999961946176"))
    );
    assert_eq!(
        number("31622776.601683793319989").multiply(number("31622776.601683793319989")),
        Err(RuntimeError::Overflow)
    );
    assert_eq!(
        number("1234567.123456789012345").multiply(number("7654321.987654321098765")),
        Ok(number("9449774278310.446898331739521"))
    );
    assert_eq!(
        number("3.141592653589793").multiply(number("3.141592653589793")),
        Ok(number("9.869604401089357"))
    );
    assert_eq!(
        number("1000000000000000").multiply(number("0.000000000000001")),
        Ok(number("1"))
    );
    assert_eq!(Number::new(i128::MIN).multiply(number("1")), Err(RuntimeError::Overflow));
}

#[test]
fn quotients_round_to_the_nearest_unit() {
    assert_eq!(number("1").divide(number("3")), Ok(number("0.333333333333333")));
    assert_eq!(number("2").divide(number("3")), Ok(number("0.666666666666667")));
    assert_eq!(
        number("2").negate().unwrap().divide(number("3")),
        Ok(Number::new(-666_666_666_666_667))
    );
    assert_eq!(
        number("1").divide(number("0.000000000000001")),
        Ok(number("1000000000000000"))
    );
    assert_eq!(number("10").divide(number("0.000000000000001")), Err(RuntimeError::Overflow));
    assert_eq!(number("1").divide(number("7")), Ok(number("0.142857142857143")));
    assert_eq!(
        number("1000000000000000").divide(number("3")),
        Ok(number("333333333333333.333333333333333"))
    );
    assert_eq!(
        number("123456789012345.678901234567891").divide(number("0.000123")),
        Err(RuntimeError::Overflow)
    );
    assert_eq!(
        number("0.000000000000001").divide(number("1000000000000000")),
        Ok(number("0"))
    );
    assert_eq!(number("1").divide(number("0")), Err(RuntimeError::DivisionByZero));
    assert_eq!(number("100000000").divide(number("100000000")), Ok(number("1")));
}

#[test]
fn remainders_have_the_sign_of_the_dividend() {
    assert_eq!(number("7").remainder(number("3")), Ok(number("1")));
    assert_eq!(number("7.5").remainder(number("2")), Ok(number("1.5")));
    assert_eq!(
        number("7").negate().unwrap().remainder(number("3")),
        Ok(Number::new(-(SCALE as i128)))
    );
    assert_eq!(number("7").remainder(number("3").negate().unwrap()), Ok(number("1")));
    assert_eq!(number("7").remainder(number("0")), Err(RuntimeError::DivisionByZero));
}

#[test]
fn roots_round_to_the_nearest_unit() {
    assert_eq!(number("41").square_root(), Ok(number("6.403124237432849")));
    assert_eq!(number("2").square_root(), Ok(number("1.414213562373095")));
    assert_eq!(number("9").square_root(), Ok(number("3")));
    assert_eq!(number("0").square_root(), Ok(number("0")));
    assert_eq!(number("0.25").square_root(), Ok(number("0.5")));
    assert_eq!(number("100000000").square_root(), Ok(number("10000")));
    assert_eq!(
        number("1000000000000000").square_root(),
        Ok(number("31622776.601683793319989"))
    );
    assert_eq!(number("12345678.9").square_root(), Ok(number("3513.641828644462162")));
    assert_eq!(
        number("0.000000000000001").square_root(),
        Ok(number("0.000000031622777"))
    );
    assert_eq!(
        number("4").negate().unwrap().square_root(),
        Err(RuntimeError::Unrepresentable)
    );
}

#[test]
fn powers_by_roots_take_halves_quarters_and_so_on() {
    assert_eq!(number("16").power(number("0.25")), Ok(number("2")));
    assert_eq!(number("81").power(number("0.75")), Ok(number("27")));
    assert_eq!(number("2").power(number("0.75")), Ok(number("1.681792830507429")));
    assert_eq!(number("10").power(number("0.125")), Ok(number("1.333521432163324")));
    assert_eq!(
        number("2").power(number("0.000030517578125")),
        Ok(number("1.000021153396965"))
    );
    assert_eq!(
        number("2").power(number("0.999969482421875")),
        Ok(number("1.999957694100984"))
    );
    assert_eq!(number("16").power(number("1.25")), Ok(number("32")));
    assert_eq!(number("3").power(number("0.3")), Err(RuntimeError::Unrepresentable));
    assert_eq!(
        number("2").power(Number::new(15_258_789_063)),
        Err(RuntimeError::Unrepresentable)
    );
    assert_eq!(
        number("16").negate().unwrap().power(number("0.25")),
        Err(RuntimeError::Unrepresentable)
    );
    assert_eq!(
        number("16").power(number("0.25").negate().unwrap()),
        Ok(number("0.5"))
    );
}

#[test]
fn powers_are_whole_or_half() {
    assert_eq!(number("2").power(number("10")), Ok(number("1024")));
    assert_eq!(number("4").power(number("2")), Ok(number("16")));
    assert_eq!(number("41").power(number(".5")), Ok(number("6.403124237432849")));
    assert_eq!(number("2").power(number("1.5")), Ok(number("2.82842712474619")));
    assert_eq!(number("2").power(number("0")), Ok(number("1")));
    assert_eq!(number("0").power(number("0")), Ok(number("1")));
    assert_eq!(number("2").power(number("1").negate().unwrap()), Ok(number("0.5")));
    assert_eq!(
        number("4").power(number("0.5").negate().unwrap()),
        Ok(number("0.5"))
    );
    assert_eq!(number("2").power(number("0.3")), Err(RuntimeError::Unrepresentable));
    assert_eq!(number("10").power(number("15")), Ok(number("1000000000000000")));
    assert_eq!(number("10").power(number("16")), Err(RuntimeError::Overflow));
    assert_eq!(number("1").power(number("1000000000000000")), Ok(number("1")));
    assert_eq!(number("0.5").power(number("1000000000000000")), Ok(number("0")));
    assert_eq!(number("3").power(number("5")), Ok(number("243")));
    assert_eq!(
        number("0").power(number("1").negate().unwrap()),
        Err(RuntimeError::DivisionByZero)
    );
    assert_eq!(
        number("2").negate().unwrap().power(number("0.5")),
        Err(RuntimeError::Unrepresentable)
    );
    assert_eq!(
        number("2").negate().unwrap().power(number("3")),
        Ok(number("8").negate().unwrap())
    );
}

#[test]
fn numbers_are_equal_within_their_tolerances() {
    let approximate = number("10.4").within(number("0.1"));

    assert!(approximate.equals(number("10.403124237432849")));
    assert!(number("10.403124237432849").equals(approximate));
    assert!(approximate.equals(number("10.5")));
    assert!(approximate.equals(number("10.3")));
    assert!(!approximate.equals(number("10.500000000000001")));
    assert!(!number("10.4").equals(number("10.403124237432849")));
    assert!(number("10.4").equals(number("10.4")));
    assert!(number("10.4").within(number("0.1").negate().unwrap()).equals(number("10.5")));
}

#[test]
fn numbers_within_tolerance_are_neither_less_nor_greater() {
    let approximate = number("10.4").within(number("0.1"));

    assert!(!approximate.less_than(number("10.45")));
    assert!(!number("10.45").less_than(approximate));
    assert!(approximate.less_than(number("10.6")));
    assert!(number("10").less_than(approximate));
    assert!(number("1").less_than(number("2")));
    assert!(!number("2").less_than(number("1")));
    assert!(!number("2").less_than(number("2")));
    assert!(Number::new(i128::MIN).less_than(Number::new(i128::MAX)));
    assert!(!Number::new(i128::MIN).equals(Number::new(i128::MAX)));
}
