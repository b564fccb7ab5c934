use tortuga::errors::syntactical::SyntacticalError;
use tortuga::grammar::assignment::{Inequality, Name, Pattern};
use tortuga::grammar::comparison::Comparator;
use tortuga::grammar::expression::{
    AddOrSubtract, Epsilon, Expression, MultiplyOrDivide, Primary, Sum,
};
use tortuga::grammar::program::Program;
use tortuga::parser::{parse, Parser};
use tortuga::scanner::Scanner;

fn expressions(source: &str) -> Vec<Expression> {
    match parse(source) {
        Ok(Program::Expressions(list)) => {
            let tortuga::grammar::list::List(head, tail) = list;
            let mut all = vec![head];
            all.extend(tail);
            all
        }
        Ok(Program::Comparisons(_)) => panic!("{} is a chain of comparisons", source),
        Err(error) => panic!("{} does not parse: {:?}", source, error),
    }
}

fn arithmetic(expression: &Expression) -> &Epsilon {
    match expression {
        Expression::Arithmetic(arithmetic) => arithmetic.epsilon(),
        Expression::Assignment(_) => panic!("a definition where arithmetic is expected"),
    }
}

fn sum(expression: &Expression) -> &Sum {
    let epsilon = arithmetic(expression);
    assert!(epsilon.rhs().is_none());
    assert!(epsilon.lhs().tail().is_empty());
    epsilon.lhs().head()
}

fn numeral(primary: &Primary) -> (bool, &str) {
    match primary {
        Primary::Number(number) => (number.is_negative(), number.number().as_str()),
        _ => panic!("a number is expected"),
    }
}

#[test]
fn product_binds_tighter_than_sum() {
    let parsed = expressions("1 + 2 * 3");
    assert_eq!(parsed.len(), 1);
    let sum = sum(&parsed[0]);

    assert!(sum.head().tail().is_empty());
    assert_eq!(numeral(sum.head().head().head()), (false, "1"));
    assert_eq!(sum.tail().len(), 1);
    match &sum.tail()[0] {
        AddOrSubtract::Add(product) => {
            assert_eq!(numeral(product.head().head()), (false, "2"));
            assert_eq!(product.tail().len(), 1);
            match &product.tail()[0] {
                MultiplyOrDivide::Multiply(power) => {
                    assert_eq!(numeral(power.head()), (false, "3"));
                    assert!(power.tail().is_empty());
                }
                MultiplyOrDivide::Divide(_) => panic!("a multiplication is expected"),
            }
        }
        AddOrSubtract::Subtract(_) => panic!("an addition is expected"),
    }
}

#[test]
fn operators_of_one_level_make_one_list() {
    let parsed = expressions("1 - 2 + 3 - 4");
    let terms = sum(&parsed[0]);

    assert_eq!(terms.tail().len(), 3);
    assert!(matches!(terms.tail()[0], AddOrSubtract::Subtract(_)));
    assert!(matches!(terms.tail()[1], AddOrSubtract::Add(_)));
    assert!(matches!(terms.tail()[2], AddOrSubtract::Subtract(_)));

    let parsed = expressions("2 ^ 3 ^ 4");
    let power = sum(&parsed[0]).head().head();
    assert_eq!(power.tail().len(), 2);
    assert_eq!(numeral(&power.tail()[1]), (false, "4"));
}

#[test]
fn a_minus_before_a_numeral_is_its_sign() {
    let parsed = expressions("-3");
    assert_eq!(numeral(sum(&parsed[0]).head().head().head()), (true, "3"));

    let parsed = expressions("2 - -3");
    let sum = sum(&parsed[0]);
    match &sum.tail()[0] {
        AddOrSubtract::Subtract(product) => {
            assert_eq!(numeral(product.head().head()), (true, "3"))
        }
        AddOrSubtract::Add(_) => panic!("a subtraction is expected"),
    }
}

#[test]
fn a_grouping_holds_an_expression() {
    let parsed = expressions("(1 + 2) * 3");
    let product = sum(&parsed[0]).head();

    match product.head().head() {
        Primary::Grouping(grouping) => assert_eq!(sum(grouping.inner()).tail().len(), 1),
        _ => panic!("a grouping is expected"),
    }
    assert_eq!(product.tail().len(), 1);
}

#[test]
fn epsilon_binds_loosest() {
    let parsed = expressions("4 + 6.4 ~ 0.1 % 2");
    let epsilon = arithmetic(&parsed[0]);

    assert_eq!(epsilon.lhs().head().tail().len(), 1);
    let tolerance = epsilon.rhs().unwrap();
    assert_eq!(tolerance.tail().len(), 1);
    assert_eq!(numeral(tolerance.head().head().head().head()), (false, "0.1"));
}

#[test]
fn a_call_has_a_list_of_arguments_for_each_pair_of_parentheses() {
    let parsed = expressions("f g(1) h(1, 2)(3)");
    assert_eq!(parsed.len(), 3);

    let mut counts = Vec::new();
    for expression in &parsed {
        match sum(expression).head().head().head() {
            Primary::Call(call) => {
                let mut lists = Vec::new();
                for arguments in call.arguments() {
                    lists.push(arguments.tail().len() + 1);
                }
                counts.push((call.identifier().as_str().to_string(), lists));
            }
            _ => panic!("a call is expected"),
        }
    }

    assert_eq!(
        counts,
        vec![
            ("f".to_string(), vec![]),
            ("g".to_string(), vec![1]),
            ("h".to_string(), vec![2, 1]),
        ]
    );
}

#[test]
fn a_definition_has_a_name_parameters_and_a_block() {
    let parsed = expressions("@x = 2 @f(@a, _ > 3, 0 < @c <= 10, @g(@h)) = [ a c ] _(@z) = z");
    assert_eq!(parsed.len(), 3);

    match &parsed[0] {
        Expression::Assignment(assignment) => {
            assert!(matches!(assignment.function().name(), Name::Identified(name) if name.as_str() == "x"));
            assert!(assignment.function().parameters().is_none());
            assert!(assignment.block().tail().is_empty());
        }
        _ => panic!("a definition is expected"),
    }
    match &parsed[1] {
        Expression::Assignment(assignment) => {
            assert!(matches!(assignment.function().name(), Name::Identified(name) if name.as_str() == "f"));
            let parameters = assignment.function().parameters().unwrap();
            assert_eq!(parameters.tail().len(), 3);
            match parameters.head() {
                Pattern::Function(shape) => {
                    assert!(matches!(shape.name(), Name::Identified(name) if name.as_str() == "a"));
                    assert!(shape.parameters().is_none());
                }
                _ => panic!("a name is expected"),
            }
            match &parameters.tail()[0] {
                Pattern::Refinement(refinement) => {
                    assert!(matches!(refinement.name(), Name::Anonymous));
                    assert_eq!(*refinement.comparator(), Comparator::GreaterThan);
                    assert_eq!(
                        numeral(sum(refinement.constraint()).head().head().head()),
                        (false, "3")
                    );
                }
                _ => panic!("a refinement is expected"),
            }
            match &parameters.tail()[1] {
                Pattern::Bounds(bounds) => {
                    assert!(matches!(bounds.name(), Name::Identified(name) if name.as_str() == "c"));
                    assert_eq!(*bounds.left().inequality(), Inequality::LessThan);
                    assert_eq!(*bounds.right().inequality(), Inequality::LessThanOrEqualTo);
                    assert_eq!(
                        numeral(sum(bounds.left().value()).head().head().head()),
                        (false, "0")
                    );
                    assert_eq!(
                        numeral(sum(bounds.right().value()).head().head().head()),
                        (false, "10")
                    );
                }
                _ => panic!("bounds are expected"),
            }
            match &parameters.tail()[2] {
                Pattern::Function(shape) => {
                    assert!(matches!(shape.name(), Name::Identified(name) if name.as_str() == "g"));
                    assert!(shape.parameters().unwrap().tail().is_empty());
                }
                _ => panic!("the shape of a function is expected"),
            }
            assert_eq!(assignment.block().tail().len(), 1);
        }
        _ => panic!("a definition is expected"),
    }
    match &parsed[2] {
        Expression::Assignment(assignment) => {
            assert!(matches!(assignment.function().name(), Name::Anonymous));
            assert!(assignment.function().parameters().unwrap().tail().is_empty());
        }
        _ => panic!("a definition is expected"),
    }
}

#[test]
fn a_comparator_behind_the_first_expression_makes_a_chain() {
    match parse("1 < 2 <= 3 <> 4") {
        Ok(Program::Comparisons(chain)) => {
            assert_eq!(sum(chain.lhs()).tail().len(), 0);
            assert_eq!(*chain.comparisons().head().comparator(), Comparator::LessThan);
            assert_eq!(chain.comparisons().tail().len(), 2);
            assert_eq!(
                *chain.comparisons().tail()[0].comparator(),
                Comparator::LessThanOrEqualTo
            );
            assert_eq!(*chain.comparisons().tail()[1].comparator(), Comparator::NotEqualTo);
            assert_eq!(
                numeral(sum(chain.comparisons().tail()[1].rhs()).head().head().head()),
                (false, "4")
            );
        }
        _ => panic!("a chain of comparisons is expected"),
    }
    assert!(matches!(parse("1 < 2 3"), Err(SyntacticalError::NoMatch)));
    assert!(matches!(parse("1 <"), Err(SyntacticalError::Incomplete)));
}

#[test]
fn the_end_of_the_input_is_incomplete_and_a_wrong_token_is_no_match() {
    assert!(matches!(parse(""), Err(SyntacticalError::Incomplete)));
    assert!(matches!(parse("; only a comment"), Err(SyntacticalError::Incomplete)));
    assert!(matches!(parse("(1"), Err(SyntacticalError::Incomplete)));
    assert!(matches!(parse("f(1,"), Err(SyntacticalError::Incomplete)));
    assert!(matches!(parse("@"), Err(SyntacticalError::Incomplete)));
    assert!(matches!(parse("@f"), Err(SyntacticalError::Incomplete)));
    assert!(matches!(parse("@f ="), Err(SyntacticalError::Incomplete)));
    assert!(matches!(parse("1 ~"), Err(SyntacticalError::Incomplete)));
    assert!(matches!(parse("-"), Err(SyntacticalError::Incomplete)));
    assert!(matches!(parse("@f(1 < @x) = x"), Err(SyntacticalError::NoMatch)));
    assert!(matches!(parse("@1 = 2"), Err(SyntacticalError::NoMatch)));
    assert!(matches!(parse("@f 2"), Err(SyntacticalError::NoMatch)));
    assert!(matches!(parse("1 }"), Err(SyntacticalError::NoMatch)));
    assert!(matches!(parse("1 ~ 2 ~ 3"), Err(SyntacticalError::NoMatch)));
    assert!(matches!(parse("\u{0E01EF}"), Err(SyntacticalError::NoMatch)));
    assert!(matches!(parse("1 \u{0E01EF}"), Err(SyntacticalError::NoMatch)));
    assert_eq!(
        SyntacticalError::Incomplete.to_string(),
        "Reached the end of the input in the middle of a rule"
    );
}

#[test]
fn a_parser_reads_the_tokens_that_it_is_given() {
    let tokens = Scanner::scan("1 + 2");

    assert!(matches!(Parser::new(tokens).parse(), Ok(Program::Expressions(_))));
    assert!(matches!(
        Parser::from_source("1 = 2").parse(),
        Ok(Program::Comparisons(_))
    ));
    assert!(matches!(
        Parser::new(Vec::new()).parse(),
        Err(SyntacticalError::Incomplete)
    ));
}
