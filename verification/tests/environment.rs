use std::rc::Rc;

use tortuga::grammar::assignment::Assignment;
use tortuga::grammar::expression::Expression;
use tortuga::grammar::program::Program;
use tortuga::parser::parse;
use tortuga::runtime::environment::Environment;
use tortuga::runtime::interpret::call::get_function;
use tortuga::runtime::interpret::{execute_program, Interpret, DEPTH};
use tortuga::runtime::number::Number;
use tortuga::runtime::value::{compare, compare_inequality, Operator, Value};
use tortuga::errors::runtime::RuntimeError;
use tortuga::grammar::assignment::Inequality;
use tortuga::grammar::comparison::Comparator;

fn number(text: &str) -> Value {
    Value::Number(Number::parse(text).unwrap())
}

fn definition(source: &str) -> Rc<Assignment> {
    match parse(source) {
        Ok(Program::Expressions(list)) => match list.head() {
            Expression::Assignment(definition) => definition.clone(),
            _ => panic!("{} is no definition", source),
        },
        _ => panic!("{} is no definition", source),
    }
}

#[test]
fn a_new_environment_has_a_root_and_nothing_else() {
    let environment = Environment::new();

    assert_eq!(environment.scopes(), 1);
    assert_eq!(environment.functions(), 0);
    assert_eq!(environment.value(0, "x"), None);
    assert_eq!(environment.value(7, "x"), None);
}

#[test]
fn a_scope_gives_way_to_the_scope_around_it() {
    let mut environment = Environment::new();
    environment.define_value(0, "x", number("1"));
    environment.define_value(0, "y", number("2"));
    let child = environment.new_child(0);
    let grandchild = environment.new_child(child);
    environment.define_value(child, "x", number("3"));

    assert_eq!(child, 1);
    assert_eq!(grandchild, 2);
    assert_eq!(environment.scopes(), 3);
    assert_eq!(environment.value(0, "x"), Some(number("1")));
    assert_eq!(environment.value(child, "x"), Some(number("3")));
    assert_eq!(environment.value(grandchild, "x"), Some(number("3")));
    assert_eq!(environment.value(grandchild, "y"), Some(number("2")));
    assert_eq!(environment.local(grandchild, "y"), None);
    assert_eq!(environment.local(child, "x"), Some(number("3")));
    assert_eq!(environment.value(grandchild, "z"), None);
}

#[test]
fn a_definition_replaces_the_one_before_in_its_scope() {
    let mut environment = Environment::new();
    environment.define_value(0, "x", number("1"));
    environment.define_value(0, "x", number("2"));
    environment.define_value(5, "x", number("3"));

    assert_eq!(environment.value(0, "x"), Some(number("2")));
    assert_eq!(environment.scopes(), 1);
}

#[test]
fn a_function_keeps_its_clauses_in_the_order_of_their_definition() {
    let mut environment = Environment::new();
    let first = definition("@f(@a) = 1");
    let second = definition("@f(@a, @b) = 2");

    let group = environment.new_function(&first, 0);
    environment.add_clause(group, &second, 0);
    environment.add_clause(group + 1, &second, 0);

    assert_eq!(group, 0);
    assert_eq!(environment.functions(), 1);
    assert!(environment.takes(group, 0));
    assert!(!environment.takes(group, 1));
    assert!(!environment.takes(group + 1, 0));

    let clauses = environment.function(group).unwrap();
    assert_eq!(clauses.len(), 2);
    assert!(Rc::ptr_eq(&clauses[0].definition, &first));
    assert!(Rc::ptr_eq(&clauses[1].definition, &second));
    assert!(environment.function(group + 1).is_none());

    let found = get_function(&Value::FunctionReference(group), &environment).unwrap();
    assert_eq!(found.len(), 2);
    assert!(matches!(
        get_function(&Value::FunctionReference(9), &environment),
        Err(RuntimeError::TypeMismatch)
    ));
    assert!(matches!(
        get_function(&number("1"), &environment),
        Err(RuntimeError::TypeMismatch)
    ));
}

#[test]
fn the_scopes_of_an_evaluation_are_given_up_when_it_returns() {
    let mut environment = Environment::new();
    let program = parse(
        "@fibonacci(@n <= 1) = n
         @fibonacci(@n) = fibonacci(n - 2) + fibonacci(n - 1)
         @x = [ @y = fibonacci(10) y + 1 ]
         fibonacci(x - 50)",
    )
    .unwrap();

    assert_eq!(execute_program(&program, &mut environment, DEPTH), Ok(number("8")));
    assert_eq!(environment.scopes(), 1);
    assert_eq!(environment.functions(), 1);
    assert_eq!(environment.value(0, "x"), Some(number("56")));
    assert_eq!(environment.value(0, "y"), None);

    assert_eq!(
        execute_program(&parse("fibonacci(x / 0)").unwrap(), &mut environment, DEPTH),
        Err(RuntimeError::DivisionByZero)
    );
    assert_eq!(
        execute_program(&parse("@z = fibonacci(missing)").unwrap(), &mut environment, DEPTH),
        Err(RuntimeError::UnboundName)
    );
    assert_eq!(environment.scopes(), 1);
}

#[test]
fn a_function_keeps_the_scopes_that_were_open_at_its_definition() {
    let mut environment = Environment::new();
    let program = parse("@add(@a) = _(@b) = a + b @increment = add(1) increment(41)").unwrap();

    assert_eq!(execute_program(&program, &mut environment, DEPTH), Ok(number("42")));
    assert_eq!(environment.scopes(), 3);
    assert_eq!(environment.value(2, "a"), Some(number("1")));

    assert_eq!(
        execute_program(&parse("increment(1) + increment(2)").unwrap(), &mut environment, DEPTH),
        Ok(number("5"))
    );
    assert_eq!(environment.scopes(), 3);
}

#[test]
fn marks_and_releases_nest() {
    let mut environment = Environment::new();
    let definition = definition("@f(@a) = 1");

    let outer = environment.mark();
    let first = environment.new_child(0);
    let inner = environment.mark();
    environment.new_child(first);
    environment.release(2, inner);
    assert_eq!(environment.scopes(), 2);
    environment.new_function(&definition, first);
    let innermost = environment.mark();
    environment.new_child(first);
    environment.release(2, innermost);
    assert_eq!(environment.scopes(), 2);
    environment.release(1, outer);
    assert_eq!(environment.scopes(), 2);
    assert!(!outer);
    assert!(!inner);
    assert!(innermost);
}

#[test]
fn what_was_defined_before_an_error_stays_defined() {
    let mut environment = Environment::new();

    assert_eq!(
        execute_program(&parse("@x = 2 @y = 1 / 0").unwrap(), &mut environment, DEPTH),
        Err(RuntimeError::DivisionByZero)
    );
    assert_eq!(environment.value(0, "x"), Some(number("2")));
    assert_eq!(environment.value(0, "y"), None);
}

#[test]
fn a_tree_can_be_evaluated_on_its_own() {
    let mut environment = Environment::new();
    let program = parse("@x = 20 x + 1").unwrap();

    assert_eq!(program.execute(&mut environment), Ok(number("21")));
    match parse("x * 2").unwrap() {
        Program::Expressions(list) => {
            assert_eq!(list.head().execute(&mut environment), Ok(number("40")))
        }
        Program::Comparisons(_) => panic!("an expression is expected"),
    }
    assert_eq!("x + x".parse::<Program>().unwrap().execute(&mut environment), Ok(number("40")));
}

#[test]
fn values_of_two_kinds_do_not_compare() {
    let one = number("1");
    let two = number("2");

    assert_eq!(compare(one, &Comparator::LessThan, two), Ok(true));
    assert_eq!(compare(one, &Comparator::LessThanOrEqualTo, one), Ok(true));
    assert_eq!(compare(one, &Comparator::GreaterThan, two), Ok(false));
    assert_eq!(compare(two, &Comparator::GreaterThanOrEqualTo, one), Ok(true));
    assert_eq!(compare(one, &Comparator::EqualTo, two), Ok(false));
    assert_eq!(compare(one, &Comparator::NotEqualTo, two), Ok(true));
    assert_eq!(compare_inequality(one, &Inequality::LessThan, two), Ok(true));
    assert_eq!(compare_inequality(one, &Inequality::GreaterThanOrEqualTo, two), Ok(false));
    assert_eq!(
        compare(Value::Boolean(true), &Comparator::EqualTo, Value::Boolean(true)),
        Ok(true)
    );
    assert_eq!(
        compare(Value::Boolean(true), &Comparator::NotEqualTo, Value::Boolean(false)),
        Ok(true)
    );
    assert_eq!(
        compare(Value::Boolean(true), &Comparator::LessThan, Value::Boolean(false)),
        Err(RuntimeError::TypeMismatch)
    );
    assert_eq!(
        compare(Value::FunctionReference(0), &Comparator::EqualTo, Value::FunctionReference(1)),
        Ok(false)
    );
    assert_eq!(
        compare(one, &Comparator::EqualTo, Value::Boolean(true)),
        Err(RuntimeError::TypeMismatch)
    );
    assert_eq!(
        Value::Boolean(true).apply(Operator::Add, one),
        Err(RuntimeError::TypeMismatch)
    );
    assert_eq!(one.apply(Operator::Add, two), Ok(number("3")));
    assert_eq!(one.epsilon(Value::Boolean(true)), Err(RuntimeError::TypeMismatch));
}

#[test]
fn values_are_written_as_text() {
    assert_eq!(number("42").to_string(), "42");
    assert_eq!(number("0").to_string(), "0");
    assert_eq!(number("10.403124237432849").to_string(), "10.403124237432849");
    assert_eq!(number("0.5").to_string(), "0.5");
    assert_eq!(number("0.000000000000001").to_string(), "0.000000000000001");
    assert_eq!(number("1000000000000000").to_string(), "1000000000000000");
    assert_eq!(
        number("123456789012345.678901234567891").to_string(),
        "123456789012345.678901234567891"
    );
    assert_eq!(number("1200.0340").to_string(), "1200.034");
    assert_eq!(
        Number::parse("1.5").unwrap().negate().unwrap().to_string(),
        "-1.5"
    );
    assert_eq!(
        Number::parse("10.4").unwrap().within(Number::parse("0.1").unwrap()).to_string(),
        "10.4 ~ 0.1"
    );
    assert_eq!(Value::Boolean(true).to_string(), "true");
    assert_eq!(Value::Boolean(false).to_string(), "false");
    assert_eq!(Value::FunctionReference(12).to_string(), "@12");
    assert_eq!(Number::new(i128::MIN).to_string(), "-170141183460469231731687.303715884105728");
}
