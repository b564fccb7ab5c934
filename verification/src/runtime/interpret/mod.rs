//! The interpreter: evaluation of syntax trees in an environment.
//!
//! Every function here does to the environment, and returns, what
//! [`semantics`] says of the tree that it is given.

pub mod arithmetic;
pub mod call;

use vstd::prelude::*;
use std::rc::Rc;
use crate::errors::runtime::RuntimeError;
use crate::grammar::assignment::{Assignment, Block, Name};
use crate::grammar::comparison::Comparisons;
use crate::grammar::expression::Expression;
use crate::grammar::program::Program;
use crate::grammar::view::{
    assignment_view,
    comparison_views,
    comparisons_view,
    expression_view,
    expression_views,
    expressions_view,
    program_view,
};
use crate::parser::rules;
use crate::runtime::environment::{Environment, EnvironmentView};
use crate::runtime::semantics;
use crate::runtime::value::{compare, Value};
use crate::runtime::whole::{lemma_initial_is_whole, lemma_program_keeps};
use crate::scanner::scan_of;

verus! {

/// How deep calls may be nested unless a session asks for another limit.
pub const DEPTH: usize = 200;

/// Whether `result` and the environment `after` are what the meaning of a
/// tree gave as `expected`.
pub open spec fn holds<T>(
    result: Result<T, RuntimeError>,
    after: EnvironmentView,
    expected: Result<(T, EnvironmentView), semantics::Failed>,
) -> bool {
    match result {
        Ok(value) => expected == Ok::<(T, EnvironmentView), semantics::Failed>((value, after)),
        Err(error) => expected == Err::<(T, EnvironmentView), semantics::Failed>((error, after)),
    }
}

/// What a source text evaluates to in a new session: the value of the
/// program that it holds, or the first error on the way there.
pub open spec fn meaning(source: Seq<char>) -> Result<Value, RuntimeError> {
    match rules::program(scan_of(source), 0) {
        Err(error) => Err(RuntimeError::Syntax(error)),
        Ok(tree) => match semantics::program(tree, EnvironmentView::initial(), DEPTH as nat) {
            Err((error, _)) => Err(error),
            Ok((value, _)) => Ok(value),
        },
    }
}

/// A session: an environment that lasts from one program to the next.
#[derive(Debug)]
pub struct Interpreter {
    environment: Environment,
    depth: usize,
}

impl Interpreter {
    /// What this session has defined so far.
    pub closed spec fn environment(&self) -> EnvironmentView {
        self.environment@
    }

    /// How deep this session lets calls be nested.
    pub closed spec fn depth(&self) -> nat {
        self.depth as nat
    }

    /// A new session that lets calls be nested `depth` deep.
    pub fn new(depth: usize) -> (interpreter: Interpreter)
        ensures
            interpreter.environment() == EnvironmentView::initial(),
            interpreter.environment().well_formed(),
            interpreter.depth() == depth,
    {
        proof {
            lemma_initial_is_whole();
        }
        Interpreter { environment: Environment::new(), depth }
    }

    /// Evaluates `program` in the root scope of this session. An
    /// environment that is whole stays whole, whether the program has a value
    /// or not.
    pub fn run(&mut self, program: Program) -> (result: Result<Value, RuntimeError>)
        ensures
            final(self).depth() == old(self).depth(),
            holds(
                result,
                final(self).environment(),
                semantics::program(program_view(program), old(self).environment(), old(self).depth()),
            ),
            old(self).environment().well_formed() ==> final(self).environment().well_formed(),
    {
        proof {
            if self.environment().well_formed() {
                lemma_program_keeps(program_view(program), self.environment(), self.depth());
            }
        }
        execute_program(&program, &mut self.environment, self.depth)
    }

    /// Evaluates `source` in a new session. See [`meaning`].
    pub fn build_then_run(source: &str) -> (result: Result<Value, RuntimeError>)
        ensures
            result == meaning(source@),
    {
        let program = match crate::parser::parse(source) {
            Ok(program) => program,
            Err(error) => {
                return Err(RuntimeError::Syntax(error));
            },
        };
        let mut interpreter = Interpreter::new(DEPTH);
        interpreter.run(program)
    }
}

impl Default for Interpreter {
    fn default() -> (interpreter: Interpreter)
        ensures
            interpreter.environment() == EnvironmentView::initial(),
            interpreter.depth() == DEPTH,
    {
        Interpreter::new(DEPTH)
    }
}

/// The trees that can be evaluated on their own, in the root scope of a
/// session and with the usual limit on the depth of calls.
pub trait Interpret {
    /// What evaluating this tree in `environment` gives.
    spec fn meaning(&self, environment: EnvironmentView) -> semantics::Evaluated;

    /// Evaluates this tree in `environment`.
    fn execute(&self, environment: &mut Environment) -> (result: Result<Value, RuntimeError>)
        ensures
            holds(result, final(environment)@, self.meaning(old(environment)@)),
    ;
}

impl Interpret for Program {
    open spec fn meaning(&self, environment: EnvironmentView) -> semantics::Evaluated {
        semantics::program(program_view(*self), environment, DEPTH as nat)
    }

    fn execute(&self, environment: &mut Environment) -> (result: Result<Value, RuntimeError>) {
        execute_program(self, environment, DEPTH)
    }
}

impl Interpret for Expression {
    open spec fn meaning(&self, environment: EnvironmentView) -> semantics::Evaluated {
        semantics::expression(expression_view(*self), environment, 0, DEPTH as nat)
    }

    fn execute(&self, environment: &mut Environment) -> (result: Result<Value, RuntimeError>) {
        execute_expression(self, environment, 0, DEPTH)
    }
}

/// Evaluates a program in the root scope.
pub fn execute_program(tree: &Program, environment: &mut Environment, depth: usize) -> (result:
    Result<Value, RuntimeError>)
    ensures
        holds(
            result,
            final(environment)@,
            semantics::program(program_view(*tree), old(environment)@, depth as nat),
        ),
{
    match tree {
        Program::Expressions(list) => execute_block(list, environment, 0, depth),
        Program::Comparisons(chain) => execute_chain(chain, environment, 0, depth),
    }
}

/// Evaluates expressions one after another and returns the value of the
/// last.
pub fn execute_block(
    list: &Block,
    environment: &mut Environment,
    scope: usize,
    depth: usize,
) -> (result: Result<Value, RuntimeError>)
    ensures
        holds(
            result,
            final(environment)@,
            semantics::block(expressions_view(*list), old(environment)@, scope, depth as nat),
        ),
    decreases depth, 0nat, 0nat, list, 0nat,
{
    proof {
        reveal(semantics::block);
        reveal(semantics::block_tail);
        reveal(semantics::expression);
    }
    let mut value = match execute_expression(&list.0, environment, scope, depth) {
        Ok(value) => value,
        Err(error) => {
            return Err(error);
        },
    };
    let mut i: usize = 0;
    while i < list.1.len()
        invariant
            i <= list.1.len(),
            semantics::block(expressions_view(*list), old(environment)@, scope, depth as nat)
                == semantics::block_tail(
                expression_views(list.1@),
                i as nat,
                value,
                environment@,
                scope,
                depth as nat,
            ),
        decreases list.1.len() - i,
    {
        proof {
            reveal(semantics::block_tail);
            reveal(semantics::expression);
        }
        value = match execute_expression(&list.1[i], environment, scope, depth) {
            Ok(value) => value,
            Err(error) => {
                return Err(error);
            },
        };
        i += 1;
    }
    proof {
        reveal(semantics::block_tail);
    }
    Ok(value)
}

/// Evaluates a chain of comparisons. Behind the first comparison that does
/// not hold, nothing is evaluated.
pub fn execute_chain(
    chain: &Comparisons,
    environment: &mut Environment,
    scope: usize,
    depth: usize,
) -> (result: Result<Value, RuntimeError>)
    ensures
        holds(
            result,
            final(environment)@,
            semantics::chain(comparisons_view(*chain), old(environment)@, scope, depth as nat),
        ),
{
    proof {
        reveal(semantics::chain);
        reveal(semantics::chain_tail);
        reveal(semantics::expression);
    }
    let lhs = match execute_expression(&chain.lhs, environment, scope, depth) {
        Ok(lhs) => lhs,
        Err(error) => {
            return Err(error);
        },
    };
    let mut previous = match execute_expression(
        &chain.comparisons.0.rhs,
        environment,
        scope,
        depth,
    ) {
        Ok(rhs) => rhs,
        Err(error) => {
            return Err(error);
        },
    };
    let mut holding = match compare(lhs, &chain.comparisons.0.comparator, previous) {
        Ok(holding) => holding,
        Err(error) => {
            return Err(error);
        },
    };
    let mut i: usize = 0;
    while i < chain.comparisons.1.len() && holding
        invariant
            i <= chain.comparisons.1.len(),
            semantics::chain(comparisons_view(*chain), old(environment)@, scope, depth as nat)
                == semantics::chain_tail(
                comparison_views(chain.comparisons.1@),
                i as nat,
                previous,
                holding,
                environment@,
                scope,
                depth as nat,
            ),
        decreases chain.comparisons.1.len() - i,
    {
        proof {
            reveal(semantics::chain_tail);
            reveal(semantics::expression);
        }
        let next = match execute_expression(
            &chain.comparisons.1[i].rhs,
            environment,
            scope,
            depth,
        ) {
            Ok(next) => next,
            Err(error) => {
                return Err(error);
            },
        };
        holding = match compare(previous, &chain.comparisons.1[i].comparator, next) {
            Ok(holding) => holding,
            Err(error) => {
                return Err(error);
            },
        };
        previous = next;
        i += 1;
    }
    proof {
        reveal(semantics::chain_tail);
    }
    Ok(Value::Boolean(holding))
}

/// Evaluates an expression in the scope `scope`.
pub fn execute_expression(
    tree: &Expression,
    environment: &mut Environment,
    scope: usize,
    depth: usize,
) -> (result: Result<Value, RuntimeError>)
    ensures
        holds(
            result,
            final(environment)@,
            semantics::expression(expression_view(*tree), old(environment)@, scope, depth as nat),
        ),
    decreases depth, 0nat, 0nat, tree, 0nat,
{
    proof {
        reveal(semantics::expression);
        reveal(semantics::epsilon);
        reveal(semantics::assignment);
    }
    match tree {
        Expression::Arithmetic(arithmetic) => arithmetic::execute_epsilon(
            &arithmetic.0,
            environment,
            scope,
            depth,
        ),
        Expression::Assignment(definition) => execute_assignment(
            definition,
            environment,
            scope,
            depth,
        ),
    }
}

/// Evaluates a definition: binds a plain value to its name, or makes the
/// definition a clause of the function that it names.
pub fn execute_assignment(
    tree: &Rc<Assignment>,
    environment: &mut Environment,
    scope: usize,
    depth: usize,
) -> (result: Result<Value, RuntimeError>)
    ensures
        holds(
            result,
            final(environment)@,
            semantics::assignment(assignment_view(**tree), old(environment)@, scope, depth as nat),
        ),
    decreases depth, 0nat, 0nat, tree, 0nat,
{
    proof {
        reveal(semantics::assignment);
        reveal(semantics::block);
        reveal_with_fuel(assignment_view, 3);
    }
    if tree.function.parameters.is_some() {
        return Ok(define_function(tree, environment, scope));
    }
    let length = environment.scopes();
    let before = environment.mark();
    let opened = environment.new_child(scope);
    let result = execute_block(&tree.block, environment, opened, depth);
    environment.release(length, before);
    let value = match result {
        Ok(value) => value,
        Err(error) => {
            return Err(error);
        },
    };
    match &tree.function.name {
        Name::Identified(lexeme) => {
            environment.define_value(scope, lexeme.as_str(), value);
        },
        Name::Anonymous => {},
    }
    Ok(value)
}

/// Makes a definition with parameters a clause of the function that it
/// names, and returns the function. See [`semantics::defined`].
pub fn define_function(tree: &Rc<Assignment>, environment: &mut Environment, scope: usize) -> (value:
    Value)
    ensures
        (value, final(environment)@) == semantics::defined(
            assignment_view(**tree),
            old(environment)@,
            scope,
        ),
{
    proof {
        reveal_with_fuel(assignment_view, 3);
    }
    match &tree.function.name {
        Name::Anonymous => Value::FunctionReference(environment.new_function(tree, scope)),
        Name::Identified(lexeme) => {
            let known = match environment.value(scope, lexeme.as_str()) {
                Some(Value::FunctionReference(group)) => if group < environment.functions() {
                    Some(group)
                } else {
                    None
                },
                _ => None,
            };
            match known {
                Some(group) => {
                    environment.add_clause(group, tree, scope);
                    Value::FunctionReference(group)
                },
                None => {
                    let group = environment.new_function(tree, scope);
                    environment.define_value(
                        scope,
                        lexeme.as_str(),
                        Value::FunctionReference(group),
                    );
                    Value::FunctionReference(group)
                },
            }
        },
    }
}

} // verus!
