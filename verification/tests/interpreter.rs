use tortuga::errors::runtime::RuntimeError;
use tortuga::errors::syntactical::SyntacticalError;
use tortuga::parser::parse;
use tortuga::runtime::interpret::Interpreter;
use tortuga::runtime::number::Number;
use tortuga::runtime::value::Value;

fn number(text: &str) -> Value {
    Value::Number(Number::parse(text).unwrap())
}

fn negative(text: &str) -> Value {
    Value::Number(Number::parse(text).unwrap().negate().unwrap())
}

#[test]
fn pythagorean_function() {
    let source = r###"@x = 2
            @f(@a, @b) = (a^2 + b^2)^.5

            x^2 + f(4, 5) ; = 4 + 6.4 ~ 0.1"###;
    assert_eq!(
        Interpreter::build_then_run(source),
        Ok(number("10.403124237432849"))
    );
}

#[test]
fn anonymous_parameter() {
    let source = r###"@f(_ > 3) = 42

            f(7)"###;
    assert_eq!(Interpreter::build_then_run(source), Ok(42.into()));
}

#[test]
fn no_matching_definition() {
    let source = r###"@f(_ > 3) = 42

            f(2)"###;
    assert_eq!(
        Interpreter::build_then_run(source),
        Err(RuntimeError::NoMatchingDefinition)
    );
}

#[test]
fn anonymous_function() {
    let source = r###"@f = _(@a, @b) = (a^2 + b^2)^.5
            
            f(4, 5)"###;
    assert_eq!(
        Interpreter::build_then_run(source),
        Ok(number("6.403124237432849"))
    );
}

#[test]
fn comparisons() {
    let source = "2*2 + (4^2 + 5^2)^.5  = 4 + 6.4 ~ 0.1";

    assert_eq!(Interpreter::build_then_run(source), Ok(true.into()));
}

#[test]
fn arithmetic_folds_from_the_left() {
    assert_eq!(
        Interpreter::build_then_run("2*2 + (4^2 + 5^2)^.5"),
        Ok(number("10.403124237432849"))
    );
    assert_eq!(Interpreter::build_then_run("10 - 4 - 3"), Ok(3.into()));
    assert_eq!(Interpreter::build_then_run("100 / 10 / 5"), Ok(2.into()));
    assert_eq!(Interpreter::build_then_run("2 ^ 3 ^ 2"), Ok(64.into()));
    assert_eq!(Interpreter::build_then_run("2 + 3 * 4"), Ok(14.into()));
    assert_eq!(Interpreter::build_then_run("(2 + 3) * 4"), Ok(20.into()));
    assert_eq!(Interpreter::build_then_run("2 * 3 ^ 2"), Ok(18.into()));
    assert_eq!(Interpreter::build_then_run("17 % 5 % 2"), Ok(0.into()));
    assert_eq!(Interpreter::build_then_run("1 + 17 % 5"), Ok(3.into()));
    assert_eq!(Interpreter::build_then_run("-3 + 5"), Ok(2.into()));
    assert_eq!(Interpreter::build_then_run("2 - -3"), Ok(5.into()));
    assert_eq!(Interpreter::build_then_run("1 / 3"), Ok(number("0.333333333333333")));
    assert_eq!(Interpreter::build_then_run("0 - 1.5"), Ok(negative("1.5")));
}

#[test]
fn a_program_has_the_value_of_its_last_expression() {
    assert_eq!(Interpreter::build_then_run("1 2 3"), Ok(3.into()));
    assert_eq!(Interpreter::build_then_run("@x = 2 @y = x * 3 y + x"), Ok(8.into()));
    assert_eq!(Interpreter::build_then_run("@x = 2"), Ok(2.into()));
}

#[test]
fn a_plain_definition_replaces_the_one_before() {
    assert_eq!(Interpreter::build_then_run("@x = 2 @x = 3 x"), Ok(3.into()));
    assert_eq!(Interpreter::build_then_run("@x = 2 @x = x + 1 x"), Ok(3.into()));
}

#[test]
fn a_block_has_a_scope_of_its_own() {
    assert_eq!(Interpreter::build_then_run("@x = [ @y = 2 y * 3 ] x"), Ok(6.into()));
    assert_eq!(
        Interpreter::build_then_run("@x = [ @y = 2 y * 3 ] y"),
        Err(RuntimeError::UnboundName)
    );
    assert_eq!(Interpreter::build_then_run("@y = 1 @x = [ @y = 2 y ] y"), Ok(1.into()));
    assert_eq!(Interpreter::build_then_run("@h(@a) = [ @b = a * 2 b + 1 ] h(3)"), Ok(7.into()));
}

#[test]
fn the_first_clause_that_accepts_is_called() {
    let factorial = "@factorial(@n = 0) = 1 @factorial(@n > 0) = n * factorial(n - 1) ";

    assert_eq!(
        Interpreter::build_then_run(format!("{}factorial(5)", factorial).as_str()),
        Ok(120.into())
    );
    assert_eq!(
        Interpreter::build_then_run(format!("{}factorial(0)", factorial).as_str()),
        Ok(1.into())
    );
    assert_eq!(
        Interpreter::build_then_run(format!("{}factorial(17)", factorial).as_str()),
        Ok(number("355687428096000"))
    );
    assert_eq!(
        Interpreter::build_then_run(format!("{}factorial(18)", factorial).as_str()),
        Err(RuntimeError::Overflow)
    );
    assert_eq!(
        Interpreter::build_then_run(format!("{}factorial(-1)", factorial).as_str()),
        Err(RuntimeError::NoMatchingDefinition)
    );
    assert_eq!(
        Interpreter::build_then_run("@f(@n) = 1 @f(@n) = 2 f(0)"),
        Ok(1.into())
    );
    assert_eq!(
        Interpreter::build_then_run("@f(@n > 0) = 1 @f(@n) = 2 f(0)"),
        Ok(2.into())
    );
    assert_eq!(
        Interpreter::build_then_run("@f(@a) = 1 @f(@a, @b) = 2 f(0, 0)"),
        Ok(2.into())
    );
}

#[test]
fn fibonacci() {
    let source = "@fibonacci(@n <= 1) = n
        @fibonacci(@n) = fibonacci(n - 2) + fibonacci(n - 1)
        fibonacci(12)";

    assert_eq!(Interpreter::build_then_run(source), Ok(144.into()));
}

#[test]
fn bounds_hold_on_both_sides() {
    let source = "@g(0 < @x <= 10) = x ";

    assert_eq!(
        Interpreter::build_then_run(format!("{}g(5)", source).as_str()),
        Ok(5.into())
    );
    assert_eq!(
        Interpreter::build_then_run(format!("{}g(10)", source).as_str()),
        Ok(10.into())
    );
    assert_eq!(
        Interpreter::build_then_run(format!("{}g(0)", source).as_str()),
        Err(RuntimeError::NoMatchingDefinition)
    );
    assert_eq!(
        Interpreter::build_then_run(format!("{}g(11)", source).as_str()),
        Err(RuntimeError::NoMatchingDefinition)
    );
    assert_eq!(
        Interpreter::build_then_run("@g(1 < @x < y) = x g(0)"),
        Err(RuntimeError::NoMatchingDefinition)
    );
    assert_eq!(
        Interpreter::build_then_run("@g(1 < @x < y) = x g(2)"),
        Err(RuntimeError::UnboundName)
    );
}

#[test]
fn a_pattern_can_speak_of_the_parameters_before_it() {
    assert_eq!(
        Interpreter::build_then_run("@ordered(@a, @b > a) = 1 @ordered(@a, @b) = 0 ordered(1, 2)"),
        Ok(1.into())
    );
    assert_eq!(
        Interpreter::build_then_run("@ordered(@a, @b > a) = 1 @ordered(@a, @b) = 0 ordered(2, 1)"),
        Ok(0.into())
    );
}

#[test]
fn a_function_can_be_an_argument() {
    let source = "@twice(@f(@a), @x) = f(f(x)) @double(@n) = n * 2 ";

    assert_eq!(
        Interpreter::build_then_run(format!("{}twice(double, 3)", source).as_str()),
        Ok(12.into())
    );
    assert_eq!(
        Interpreter::build_then_run(format!("{}twice(3, 3)", source).as_str()),
        Err(RuntimeError::NoMatchingDefinition)
    );
    assert_eq!(
        Interpreter::build_then_run(format!("{}@pair(@a, @b) = a twice(pair, 3)", source).as_str()),
        Err(RuntimeError::NoMatchingDefinition)
    );
}

#[test]
fn a_function_keeps_the_scope_of_its_definition() {
    assert_eq!(
        Interpreter::build_then_run("@add(@a) = _(@b) = a + b add(1)(2)"),
        Ok(3.into())
    );
    assert_eq!(
        Interpreter::build_then_run("@add(@a) = _(@b) = a + b @increment = add(1) increment(41)"),
        Ok(42.into())
    );
    assert_eq!(
        Interpreter::build_then_run("@f(@n) = n + later @later = 1 f(1)"),
        Ok(2.into())
    );
    assert_eq!(
        Interpreter::build_then_run(
            "@even(@n = 0) = 1 @even(@n) = odd(n - 1) @odd(@n = 0) = 0 @odd(@n) = even(n - 1) even(10)"
        ),
        Ok(1.into())
    );
}

#[test]
fn a_chain_stops_at_the_first_comparison_that_fails() {
    assert_eq!(Interpreter::build_then_run("1 > 2 < missing"), Ok(false.into()));
    assert_eq!(
        Interpreter::build_then_run("1 < 2 < missing"),
        Err(RuntimeError::UnboundName)
    );
    assert_eq!(Interpreter::build_then_run("1 > 2 = 1 / 0"), Ok(false.into()));
    assert_eq!(Interpreter::build_then_run("1 < 2 < 3"), Ok(true.into()));
    assert_eq!(Interpreter::build_then_run("1 < 3 < 2"), Ok(false.into()));
    assert_eq!(Interpreter::build_then_run("1 < 2 <= 2 <> 3 >= 3 > 1 = 1"), Ok(true.into()));
    assert_eq!(Interpreter::build_then_run("3 >= 4"), Ok(false.into()));
}

#[test]
fn errors_of_evaluation() {
    assert_eq!(Interpreter::build_then_run("x"), Err(RuntimeError::UnboundName));
    assert_eq!(Interpreter::build_then_run("f(1)"), Err(RuntimeError::UnboundName));
    assert_eq!(Interpreter::build_then_run("@x = 2 x(1)"), Err(RuntimeError::TypeMismatch));
    assert_eq!(
        Interpreter::build_then_run("@f(@a) = a f + 1"),
        Err(RuntimeError::TypeMismatch)
    );
    assert_eq!(
        Interpreter::build_then_run("@f(@a) = a f ~ 1"),
        Err(RuntimeError::TypeMismatch)
    );
    let mut session = Interpreter::default();
    assert_eq!(
        session.run(parse("@f(@a) = a").unwrap()),
        Ok(Value::FunctionReference(0))
    );
    assert_eq!(session.run(parse("f < 1").unwrap()), Err(RuntimeError::TypeMismatch));
    assert_eq!(session.run(parse("f = f").unwrap()), Ok(true.into()));
    assert_eq!(session.run(parse("f < f").unwrap()), Err(RuntimeError::TypeMismatch));
    assert_eq!(Interpreter::build_then_run("1 / 0"), Err(RuntimeError::DivisionByZero));
    assert_eq!(Interpreter::build_then_run("1 % 0"), Err(RuntimeError::DivisionByZero));
    assert_eq!(Interpreter::build_then_run("10 ^ 16"), Err(RuntimeError::Overflow));
    assert_eq!(
        Interpreter::build_then_run("1000000000000000 + 1"),
        Err(RuntimeError::Overflow)
    );
    assert_eq!(Interpreter::build_then_run("2 ^ 0.3"), Err(RuntimeError::Unrepresentable));
    assert_eq!(
        Interpreter::build_then_run("0.0000000000000001"),
        Err(RuntimeError::Unrepresentable)
    );
    assert_eq!(
        Interpreter::build_then_run("@f(@n) = f(n) f(1)"),
        Err(RuntimeError::DepthExceeded)
    );
}

#[test]
fn errors_of_syntax() {
    assert_eq!(
        Interpreter::build_then_run(""),
        Err(RuntimeError::Syntax(SyntacticalError::Incomplete))
    );
    assert_eq!(
        Interpreter::build_then_run("(1 + 2"),
        Err(RuntimeError::Syntax(SyntacticalError::Incomplete))
    );
    assert_eq!(
        Interpreter::build_then_run("1 +"),
        Err(RuntimeError::Syntax(SyntacticalError::Incomplete))
    );
    assert_eq!(
        Interpreter::build_then_run(")"),
        Err(RuntimeError::Syntax(SyntacticalError::NoMatch))
    );
    assert_eq!(
        Interpreter::build_then_run("1 + * 2"),
        Err(RuntimeError::Syntax(SyntacticalError::NoMatch))
    );
    assert_eq!(
        Interpreter::build_then_run("f()"),
        Err(RuntimeError::Syntax(SyntacticalError::NoMatch))
    );
    assert_eq!(
        Interpreter::build_then_run("2#10"),
        Err(RuntimeError::Syntax(SyntacticalError::NoMatch))
    );
    assert_eq!(
        Interpreter::build_then_run("0008"),
        Err(RuntimeError::Syntax(SyntacticalError::NoMatch))
    );
    assert_eq!(
        Interpreter::build_then_run("@f(@a = 1"),
        Err(RuntimeError::Syntax(SyntacticalError::Incomplete))
    );
    assert_eq!(
        Interpreter::build_then_run("@x = [ 1 2"),
        Err(RuntimeError::Syntax(SyntacticalError::Incomplete))
    );
}

#[test]
fn a_session_lasts_from_one_program_to_the_next() {
    let mut interpreter = Interpreter::default();

    assert_eq!(interpreter.run(parse("@x = 2").unwrap()), Ok(2.into()));
    assert_eq!(
        interpreter.run(parse("@f(@a) = a * x").unwrap()),
        Ok(Value::FunctionReference(0))
    );
    assert_eq!(interpreter.run(parse("y").unwrap()), Err(RuntimeError::UnboundName));
    assert_eq!(interpreter.run(parse("f(21)").unwrap()), Ok(42.into()));
    assert_eq!(interpreter.run(parse("@x = 3").unwrap()), Ok(3.into()));
    assert_eq!(interpreter.run(parse("f(2) = 6").unwrap()), Ok(true.into()));
}

#[test]
fn calls_nest_as_deep_as_the_session_allows() {
    let count = "@count(@n = 0) = 0 @count(@n) = 1 + count(n - 1) ";
    let mut shallow = Interpreter::new(3);

    assert_eq!(
        shallow.run(parse(format!("{}count(2)", count).as_str()).unwrap()),
        Ok(2.into())
    );
    assert_eq!(
        shallow.run(parse("count(3)").unwrap()),
        Err(RuntimeError::DepthExceeded)
    );
    assert_eq!(
        Interpreter::new(0).run(parse("1 + 1").unwrap()),
        Ok(2.into())
    );
}

#[test]
fn runtime_errors_say_what_went_wrong() {
    assert_eq!(RuntimeError::DivisionByZero.to_string(), "Division by zero");
    assert_eq!(
        RuntimeError::Syntax(SyntacticalError::Incomplete).to_string(),
        SyntacticalError::Incomplete.to_string()
    );
}

#[test]
fn the_example_of_the_language() {
    let source = "@factorial(@n = 0) = 1
        @factorial(@n > 0) = n * factorial(n - 1)

        factorial(5)";

    assert_eq!(Interpreter::build_then_run(source), Ok(120.into()));
    assert_eq!(
        Interpreter::build_then_run("2 * 2 + (4 ^ 2 + 5 ^ 2) ^ .5 = 4 + 6.4 ~ 0.1"),
        Ok(true.into())
    );
}
