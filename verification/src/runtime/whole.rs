//! Evaluation keeps an environment whole: whatever a program does, each
//! scope still hangs on a scope that is there and each function still has
//! the scopes that its clauses were defined in. The scopes that an
//! evaluation gives up are scopes that nothing has kept.

use vstd::prelude::*;
use crate::grammar::view::{
    AddOrSubtractView,
    AssignmentView,
    CallView,
    ComparisonView,
    ComparisonsView,
    EpsilonView,
    ExpressionView,
    ExpressionsView,
    ModuloView,
    MultiplyOrDivideView,
    NameView,
    PatternView,
    PowerView,
    PrimaryView,
    ProductView,
    ProgramView,
    SumView,
};
use crate::runtime::environment::{ClauseView, EnvironmentView};
use crate::runtime::semantics::{
    accept,
    accept_tail,
    apply,
    assignment,
    attempt,
    block,
    block_tail,
    call,
    call_tail,
    chain,
    chain_tail,
    defined,
    dispatch,
    epsilon,
    expression,
    modulo,
    modulo_tail,
    name_of,
    power,
    power_tail,
    primary,
    product,
    product_tail,
    program,
    sum,
    sum_tail,
    values,
    values_tail,
    Failed,
};
use crate::runtime::value::{applied, approximated, comparator_for, compared, Operator, Value};

verus! {

/// Whether `after` can come of `before` by evaluation: it is whole, it has
/// the scopes of `before`, and it has the functions of `before` as they
/// were unless it says that a clause was defined.
pub open spec fn follows(before: EnvironmentView, after: EnvironmentView) -> bool {
    &&& after.well_formed()
    &&& before.scopes.len() <= after.scopes.len()
    &&& before.captured ==> after.captured
    &&& !after.captured ==> after.groups == before.groups
}

/// The environment behind an evaluation, whether it gave a value or an
/// error.
pub open spec fn behind<T>(evaluated: Result<(T, EnvironmentView), Failed>) -> EnvironmentView {
    match evaluated {
        Ok((_, after)) => after,
        Err((_, after)) => after,
    }
}

/// The environment of a new session is whole.
pub proof fn lemma_initial_is_whole()
    ensures
        EnvironmentView::initial().well_formed(),
{
    reveal(EnvironmentView::well_formed);
}

/// A definition of a value keeps an environment whole.
pub proof fn lemma_define_keeps(
    environment: EnvironmentView,
    scope: int,
    name: Seq<char>,
    value: Value,
)
    requires
        environment.well_formed(),
    ensures
        follows(environment, environment.define(scope, name, value)),
        environment.define(scope, name, value).captured == environment.captured,
        environment.define(scope, name, value).groups == environment.groups,
        environment.define(scope, name, value).scopes.len() == environment.scopes.len(),
{
    reveal(EnvironmentView::well_formed);
    let after = environment.define(scope, name, value);
    assert forall|i: int| 0 <= i < after.scopes.len() implies match (#[trigger] after.scopes[i]).parent {
        Some(parent) => parent < i,
        None => true,
    } by {
        assert(after.scopes[i].parent == environment.scopes[i].parent);
    }
}

/// A scope that is opened in a scope that is there keeps an environment
/// whole.
pub proof fn lemma_open_keeps(environment: EnvironmentView, parent: usize)
    requires
        environment.well_formed(),
        parent < environment.scopes.len(),
    ensures
        follows(environment, environment.open(parent)),
        environment.open(parent).captured == environment.captured,
        environment.open(parent).groups == environment.groups,
        environment.open(parent).scopes.len() == environment.scopes.len() + 1,
{
    reveal(EnvironmentView::well_formed);
    let after = environment.open(parent);
    assert forall|i: int| 0 <= i < after.scopes.len() implies match (#[trigger] after.scopes[i]).parent {
        Some(parent) => parent < i,
        None => true,
    } by {
        if i < environment.scopes.len() {
            assert(after.scopes[i] == environment.scopes[i]);
        }
    }
}

/// A clause that is defined in a scope that is there keeps an environment
/// whole, be it the first of a function or one more.
pub proof fn lemma_clause_keeps(environment: EnvironmentView, group: int, clause: ClauseView)
    requires
        environment.well_formed(),
        clause.scope < environment.scopes.len(),
    ensures
        follows(environment, environment.found(clause)),
        follows(environment, environment.extend(group, clause)),
        environment.found(clause).scopes.len() == environment.scopes.len(),
        environment.extend(group, clause).scopes.len() == environment.scopes.len(),
        environment.found(clause).well_formed(),
{
    reveal(EnvironmentView::well_formed);
    let first = environment.found(clause);
    assert forall|g: int, k: int|
        0 <= g < first.groups.len() && 0 <= k < first.groups[g].len() implies (
    #[trigger] first.groups[g][k]).scope < first.scopes.len() by {
        if g < environment.groups.len() {
            assert(first.groups[g][k] == environment.groups[g][k]);
        }
    }
    let more = environment.extend(group, clause);
    assert forall|g: int, k: int|
        0 <= g < more.groups.len() && 0 <= k < more.groups[g].len() implies (
    #[trigger] more.groups[g][k]).scope < more.scopes.len() by {
        if g != group || k < environment.groups[g].len() {
            assert(more.groups[g][k] == environment.groups[g][k]);
        }
    }
}

/// At the end of an evaluation the scopes that it opened can be given up if
/// no clause was defined in the meantime: no clause is defined in one of
/// them, and no scope that stays hangs on one of them.
pub proof fn lemma_release_keeps(environment: EnvironmentView, inner: EnvironmentView)
    requires
        environment.well_formed(),
        follows(environment.marked(), inner),
    ensures
        follows(
            environment,
            inner.released(environment.scopes.len() as int, environment.captured),
        ),
{
    reveal(EnvironmentView::well_formed);
    let length = environment.scopes.len() as int;
    let after = inner.released(length, environment.captured);
    if !inner.captured {
        assert(inner.groups == environment.groups);
        assert forall|i: int| 0 <= i < after.scopes.len() implies match (#[trigger] after.scopes[i]).parent {
            Some(parent) => parent < i,
            None => true,
        } by {
            assert(after.scopes[i] == inner.scopes[i]);
        }
        assert forall|g: int, k: int|
            0 <= g < after.groups.len() && 0 <= k < after.groups[g].len() implies (
        #[trigger] after.groups[g][k]).scope < after.scopes.len() by {
            assert(after.groups[g][k] == environment.groups[g][k]);
        }
    }
}

/// The clauses of a function of a whole environment were defined in scopes
/// that are there.
pub proof fn lemma_clauses_are_kept(environment: EnvironmentView, group: int)
    requires
        environment.well_formed(),
        0 <= group < environment.groups.len(),
    ensures
        kept(environment.groups[group], environment),
{
    reveal(EnvironmentView::well_formed);
    assert forall|k: int| 0 <= k < environment.groups[group].len() implies (
    #[trigger] environment.groups[group][k]).scope < environment.scopes.len() by {
        assert(environment.groups[group][k].scope < environment.scopes.len());
    }
}

/// Whether the scopes that `clauses` were defined in are among the scopes of
/// `environment`.
pub open spec fn kept(clauses: Seq<ClauseView>, environment: EnvironmentView) -> bool {
    forall|k: int| 0 <= k < clauses.len() ==> (#[trigger] clauses[k]).scope
        < environment.scopes.len()
}

/// A block keeps a whole environment whole.
pub proof fn lemma_block_keeps(
    list: ExpressionsView,
    environment: EnvironmentView,
    scope: usize,
    depth: nat,
)
    requires
        environment.well_formed(),
        scope < environment.scopes.len(),
    ensures
        follows(environment, behind(block(list, environment, scope, depth))),
    decreases depth, 0nat, 0nat, list, 0nat,
{
    reveal(block);
    reveal(block_tail);
    reveal(expression);
    lemma_expression_keeps(list.head, environment, scope, depth);
    match expression(list.head, environment, scope, depth) {
        Ok((value, after)) => {
            lemma_block_tail_keeps(list.tail, 0, value, after, scope, depth);
        },
        Err(_) => {},
    }
}

/// The rest of a block keeps a whole environment whole.
pub proof fn lemma_block_tail_keeps(
    tail: Seq<ExpressionView>,
    i: nat,
    last: Value,
    environment: EnvironmentView,
    scope: usize,
    depth: nat,
)
    requires
        environment.well_formed(),
        scope < environment.scopes.len(),
    ensures
        follows(environment, behind(block_tail(tail, i, last, environment, scope, depth))),
    decreases depth, 0nat, 0nat, tail, tail.len() - i,
{
    reveal(block_tail);
    reveal(expression);
    if i < tail.len() {
        lemma_expression_keeps(tail[i as int], environment, scope, depth);
        match expression(tail[i as int], environment, scope, depth) {
            Ok((value, after)) => {
                lemma_block_tail_keeps(tail, i + 1, value, after, scope, depth);
            },
            Err(_) => {},
        }
    }
}

/// A chain of comparisons keeps a whole environment whole.
pub proof fn lemma_chain_keeps(
    list: ComparisonsView,
    environment: EnvironmentView,
    scope: usize,
    depth: nat,
)
    requires
        environment.well_formed(),
        scope < environment.scopes.len(),
    ensures
        follows(environment, behind(chain(list, environment, scope, depth))),
    decreases depth, 0nat, 0nat, list, 0nat,
{
    reveal(chain);
    reveal(chain_tail);
    reveal(expression);
    lemma_expression_keeps(list.lhs, environment, scope, depth);
    match expression(list.lhs, environment, scope, depth) {
        Ok((lhs, first)) => {
            lemma_expression_keeps(list.comparisons.head.rhs, first, scope, depth);
            match expression(list.comparisons.head.rhs, first, scope, depth) {
                Ok((rhs, second)) => match compared(lhs, list.comparisons.head.comparator, rhs) {
                    Ok(holds) => {
                        lemma_chain_tail_keeps(
                            list.comparisons.tail,
                            0,
                            rhs,
                            holds,
                            second,
                            scope,
                            depth,
                        );
                    },
                    Err(_) => {},
                },
                Err(_) => {},
            }
        },
        Err(_) => {},
    }
}

/// The rest of a chain of comparisons keeps a whole environment whole.
pub proof fn lemma_chain_tail_keeps(
    tail: Seq<ComparisonView>,
    i: nat,
    previous: Value,
    holds: bool,
    environment: EnvironmentView,
    scope: usize,
    depth: nat,
)
    requires
        environment.well_formed(),
        scope < environment.scopes.len(),
    ensures
        follows(environment, behind(chain_tail(tail, i, previous, holds, environment, scope, depth))),
    decreases depth, 0nat, 0nat, tail, tail.len() - i,
{
    reveal(chain_tail);
    reveal(expression);
    if i < tail.len() && holds {
        lemma_expression_keeps(tail[i as int].rhs, environment, scope, depth);
        match expression(tail[i as int].rhs, environment, scope, depth) {
            Ok((next, after)) => match compared(previous, tail[i as int].comparator, next) {
                Ok(still) => {
                    lemma_chain_tail_keeps(tail, i + 1, next, still, after, scope, depth);
                },
                Err(_) => {},
            },
            Err(_) => {},
        }
    }
}

/// An expression keeps a whole environment whole.
pub proof fn lemma_expression_keeps(
    tree: ExpressionView,
    environment: EnvironmentView,
    scope: usize,
    depth: nat,
)
    requires
        environment.well_formed(),
        scope < environment.scopes.len(),
    ensures
        follows(environment, behind(expression(tree, environment, scope, depth))),
    decreases depth, 0nat, 0nat, tree, 0nat,
{
    reveal(expression);
    reveal(epsilon);
    reveal(assignment);
    match tree {
        ExpressionView::Arithmetic(arithmetic) => {
            lemma_epsilon_keeps(*arithmetic, environment, scope, depth);
        },
        ExpressionView::Assignment(definition) => {
            lemma_assignment_keeps(*definition, environment, scope, depth);
        },
    }
}

/// A definition keeps a whole environment whole.
pub proof fn lemma_assignment_keeps(
    tree: AssignmentView,
    environment: EnvironmentView,
    scope: usize,
    depth: nat,
)
    requires
        environment.well_formed(),
        scope < environment.scopes.len(),
    ensures
        follows(environment, behind(assignment(tree, environment, scope, depth))),
    decreases depth, 0nat, 0nat, tree, 0nat,
{
    reveal(assignment);
    reveal(block);
    match tree.function.parameters {
        Some(_) => {
            lemma_defined_keeps(tree, environment, scope);
        },
        None => {
            let length = environment.scopes.len() as int;
            let before = environment.captured;
            let marked = environment.marked();
            assert(marked.well_formed()) by {
                reveal(EnvironmentView::well_formed);
            }
            lemma_open_keeps(marked, scope);
            lemma_block_keeps(tree.block, marked.open(scope), length as usize, depth);
            let inner = behind(block(tree.block, marked.open(scope), length as usize, depth));
            lemma_release_keeps(environment, inner);
            let released = inner.released(length, before);
            match tree.function.name {
                NameView::Identified(lexeme) => {
                    lemma_define_keeps(released, scope as int, lexeme.text, arbitrary());
                    match block(tree.block, marked.open(scope), length as usize, depth) {
                        Ok((value, _)) => {
                            lemma_define_keeps(released, scope as int, lexeme.text, value);
                        },
                        Err(_) => {},
                    }
                },
                NameView::Anonymous => {},
            }
        },
    }
}

/// A definition of a function keeps an environment whole.
pub proof fn lemma_defined_keeps(tree: AssignmentView, environment: EnvironmentView, scope: usize)
    requires
        environment.well_formed(),
        scope < environment.scopes.len(),
    ensures
        follows(environment, defined(tree, environment, scope).1),
{
    let clause = ClauseView { definition: tree, scope };
    lemma_clause_keeps(environment, 0, clause);
    match tree.function.name {
        NameView::Anonymous => {},
        NameView::Identified(lexeme) => {
            match environment.lookup(scope as int, lexeme.text) {
                Some(Value::FunctionReference(group)) => {
                    lemma_clause_keeps(environment, group as int, clause);
                },
                _ => {},
            }
            let fresh = environment.groups.len() as usize;
            lemma_define_keeps(
                environment.found(clause),
                scope as int,
                lexeme.text,
                Value::FunctionReference(fresh),
            );
        },
    }
}

/// An approximation keeps a whole environment whole.
pub proof fn lemma_epsilon_keeps(
    tree: EpsilonView,
    environment: EnvironmentView,
    scope: usize,
    depth: nat,
)
    requires
        environment.well_formed(),
        scope < environment.scopes.len(),
    ensures
        follows(environment, behind(epsilon(tree, environment, scope, depth))),
    decreases depth, 0nat, 0nat, tree, 0nat,
{
    reveal(epsilon);
    reveal(modulo);
    lemma_modulo_keeps(tree.lhs, environment, scope, depth);
    match modulo(tree.lhs, environment, scope, depth) {
        Ok((_, first)) => match tree.rhs {
            Some(rhs) => {
                lemma_modulo_keeps(rhs, first, scope, depth);
            },
            None => {},
        },
        Err(_) => {},
    }
}

/// A chain of remainders keeps a whole environment whole.
pub proof fn lemma_modulo_keeps(
    tree: ModuloView,
    environment: EnvironmentView,
    scope: usize,
    depth: nat,
)
    requires
        environment.well_formed(),
        scope < environment.scopes.len(),
    ensures
        follows(environment, behind(modulo(tree, environment, scope, depth))),
    decreases depth, 0nat, 0nat, tree, 0nat,
{
    reveal(modulo);
    reveal(modulo_tail);
    reveal(sum);
    lemma_sum_keeps(tree.head, environment, scope, depth);
    match sum(tree.head, environment, scope, depth) {
        Ok((value, after)) => {
            lemma_modulo_tail_keeps(tree.tail, 0, value, after, scope, depth);
        },
        Err(_) => {},
    }
}

/// The rest of a chain of remainders keeps a whole environment whole.
pub proof fn lemma_modulo_tail_keeps(
    tail: Seq<SumView>,
    i: nat,
    left: Value,
    environment: EnvironmentView,
    scope: usize,
    depth: nat,
)
    requires
        environment.well_formed(),
        scope < environment.scopes.len(),
    ensures
        follows(environment, behind(modulo_tail(tail, i, left, environment, scope, depth))),
    decreases depth, 0nat, 0nat, tail, tail.len() - i,
{
    reveal(modulo_tail);
    reveal(sum);
    if i < tail.len() {
        lemma_sum_keeps(tail[i as int], environment, scope, depth);
        match sum(tail[i as int], environment, scope, depth) {
            Ok((right, after)) => match applied(Operator::Modulo, left, right) {
                Ok(value) => {
                    lemma_modulo_tail_keeps(tail, i + 1, value, after, scope, depth);
                },
                Err(_) => {},
            },
            Err(_) => {},
        }
    }
}

/// A sum keeps a whole environment whole.
pub proof fn lemma_sum_keeps(
    tree: SumView,
    environment: EnvironmentView,
    scope: usize,
    depth: nat,
)
    requires
        environment.well_formed(),
        scope < environment.scopes.len(),
    ensures
        follows(environment, behind(sum(tree, environment, scope, depth))),
    decreases depth, 0nat, 0nat, tree, 0nat,
{
    reveal(sum);
    reveal(sum_tail);
    reveal(product);
    lemma_product_keeps(tree.head, environment, scope, depth);
    match product(tree.head, environment, scope, depth) {
        Ok((value, after)) => {
            lemma_sum_tail_keeps(tree.tail, 0, value, after, scope, depth);
        },
        Err(_) => {},
    }
}

/// The rest of a sum keeps a whole environment whole.
pub proof fn lemma_sum_tail_keeps(
    tail: Seq<AddOrSubtractView>,
    i: nat,
    left: Value,
    environment: EnvironmentView,
    scope: usize,
    depth: nat,
)
    requires
        environment.well_formed(),
        scope < environment.scopes.len(),
    ensures
        follows(environment, behind(sum_tail(tail, i, left, environment, scope, depth))),
    decreases depth, 0nat, 0nat, tail, tail.len() - i,
{
    reveal(sum_tail);
    reveal(product);
    if i < tail.len() {
        let (operator, operand) = match tail[i as int] {
            AddOrSubtractView::Add(operand) => (Operator::Add, operand),
            AddOrSubtractView::Subtract(operand) => (Operator::Subtract, operand),
        };
        lemma_product_keeps(operand, environment, scope, depth);
        match product(operand, environment, scope, depth) {
            Ok((right, after)) => match applied(operator, left, right) {
                Ok(value) => {
                    lemma_sum_tail_keeps(tail, i + 1, value, after, scope, depth);
                },
                Err(_) => {},
            },
            Err(_) => {},
        }
    }
}

/// A product keeps a whole environment whole.
pub proof fn lemma_product_keeps(
    tree: ProductView,
    environment: EnvironmentView,
    scope: usize,
    depth: nat,
)
    requires
        environment.well_formed(),
        scope < environment.scopes.len(),
    ensures
        follows(environment, behind(product(tree, environment, scope, depth))),
    decreases depth, 0nat, 0nat, tree, 0nat,
{
    reveal(product);
    reveal(product_tail);
    reveal(power);
    lemma_power_keeps(tree.head, environment, scope, depth);
    match power(tree.head, environment, scope, depth) {
        Ok((value, after)) => {
            lemma_product_tail_keeps(tree.tail, 0, value, after, scope, depth);
        },
        Err(_) => {},
    }
}

/// The rest of a product keeps a whole environment whole.
pub proof fn lemma_product_tail_keeps(
    tail: Seq<MultiplyOrDivideView>,
    i: nat,
    left: Value,
    environment: EnvironmentView,
    scope: usize,
    depth: nat,
)
    requires
        environment.well_formed(),
        scope < environment.scopes.len(),
    ensures
        follows(environment, behind(product_tail(tail, i, left, environment, scope, depth))),
    decreases depth, 0nat, 0nat, tail, tail.len() - i,
{
    reveal(product_tail);
    reveal(power);
    if i < tail.len() {
        let (operator, operand) = match tail[i as int] {
            MultiplyOrDivideView::Multiply(operand) => (Operator::Multiply, operand),
            MultiplyOrDivideView::Divide(operand) => (Operator::Divide, operand),
        };
        lemma_power_keeps(operand, environment, scope, depth);
        match power(operand, environment, scope, depth) {
            Ok((right, after)) => match applied(operator, left, right) {
                Ok(value) => {
                    lemma_product_tail_keeps(tail, i + 1, value, after, scope, depth);
                },
                Err(_) => {},
            },
            Err(_) => {},
        }
    }
}

/// A power keeps a whole environment whole.
pub proof fn lemma_power_keeps(
    tree: PowerView,
    environment: EnvironmentView,
    scope: usize,
    depth: nat,
)
    requires
        environment.well_formed(),
        scope < environment.scopes.len(),
    ensures
        follows(environment, behind(power(tree, environment, scope, depth))),
    decreases depth, 0nat, 0nat, tree, 0nat,
{
    reveal(power);
    reveal(power_tail);
    reveal(primary);
    lemma_primary_keeps(tree.head, environment, scope, depth);
    match primary(tree.head, environment, scope, depth) {
        Ok((value, after)) => {
            lemma_power_tail_keeps(tree.tail, 0, value, after, scope, depth);
        },
        Err(_) => {},
    }
}

/// The rest of a power keeps a whole environment whole.
pub proof fn lemma_power_tail_keeps(
    tail: Seq<PrimaryView>,
    i: nat,
    left: Value,
    environment: EnvironmentView,
    scope: usize,
    depth: nat,
)
    requires
        environment.well_formed(),
        scope < environment.scopes.len(),
    ensures
        follows(environment, behind(power_tail(tail, i, left, environment, scope, depth))),
    decreases depth, 0nat, 0nat, tail, tail.len() - i,
{
    reveal(power_tail);
    reveal(primary);
    if i < tail.len() {
        lemma_primary_keeps(tail[i as int], environment, scope, depth);
        match primary(tail[i as int], environment, scope, depth) {
            Ok((right, after)) => match applied(Operator::Power, left, right) {
                Ok(value) => {
                    lemma_power_tail_keeps(tail, i + 1, value, after, scope, depth);
                },
                Err(_) => {},
            },
            Err(_) => {},
        }
    }
}

/// An operand keeps a whole environment whole.
pub proof fn lemma_primary_keeps(
    tree: PrimaryView,
    environment: EnvironmentView,
    scope: usize,
    depth: nat,
)
    requires
        environment.well_formed(),
        scope < environment.scopes.len(),
    ensures
        follows(environment, behind(primary(tree, environment, scope, depth))),
    decreases depth, 0nat, 0nat, tree, 0nat,
{
    reveal(primary);
    reveal(call);
    reveal(expression);
    match tree {
        PrimaryView::Number(_) => {},
        PrimaryView::Call(reference) => {
            lemma_call_keeps(reference, environment, scope, depth);
        },
        PrimaryView::Grouping(inner) => {
            lemma_expression_keeps(inner, environment, scope, depth);
        },
    }
}

/// A call keeps a whole environment whole.
pub proof fn lemma_call_keeps(
    tree: CallView,
    environment: EnvironmentView,
    scope: usize,
    depth: nat,
)
    requires
        environment.well_formed(),
        scope < environment.scopes.len(),
    ensures
        follows(environment, behind(call(tree, environment, scope, depth))),
    decreases depth, 0nat, 0nat, tree, 0nat,
{
    reveal(call);
    reveal(call_tail);
    match environment.lookup(scope as int, tree.identifier.text) {
        Some(value) => {
            lemma_call_tail_keeps(tree.arguments, 0, value, environment, scope, depth);
        },
        None => {},
    }
}

/// The rest of a call keeps a whole environment whole.
pub proof fn lemma_call_tail_keeps(
    lists: Seq<ExpressionsView>,
    i: nat,
    callee: Value,
    environment: EnvironmentView,
    scope: usize,
    depth: nat,
)
    requires
        environment.well_formed(),
        scope < environment.scopes.len(),
    ensures
        follows(environment, behind(call_tail(lists, i, callee, environment, scope, depth))),
    decreases depth, 0nat, 0nat, lists, lists.len() - i,
{
    reveal(call_tail);
    reveal(apply);
    if i < lists.len() {
        lemma_apply_keeps(callee, lists[i as int], environment, scope, depth);
        match apply(callee, lists[i as int], environment, scope, depth) {
            Ok((value, after)) => {
                lemma_call_tail_keeps(lists, i + 1, value, after, scope, depth);
            },
            Err(_) => {},
        }
    }
}

/// The call of a function keeps a whole environment whole.
pub proof fn lemma_apply_keeps(
    callee: Value,
    arguments: ExpressionsView,
    environment: EnvironmentView,
    scope: usize,
    depth: nat,
)
    requires
        environment.well_formed(),
        scope < environment.scopes.len(),
    ensures
        follows(environment, behind(apply(callee, arguments, environment, scope, depth))),
    decreases depth, 0nat, 0nat, arguments, 1nat,
{
    reveal(apply);
    reveal(values);
    reveal(dispatch);
    match callee {
        Value::FunctionReference(group) => {
            if group < environment.groups.len() {
                lemma_clauses_are_kept(environment, group as int);
                lemma_values_keeps(arguments, environment, scope, depth);
                match values(arguments, environment, scope, depth) {
                    Ok((given, after)) => {
                        if depth > 0 {
                            lemma_dispatch_keeps(
                                environment.groups[group as int],
                                0,
                                given,
                                after,
                                (depth - 1) as nat,
                            );
                        }
                    },
                    Err(_) => {},
                }
            }
        },
        _ => {},
    }
}

/// A list of arguments keeps a whole environment whole.
pub proof fn lemma_values_keeps(
    list: ExpressionsView,
    environment: EnvironmentView,
    scope: usize,
    depth: nat,
)
    requires
        environment.well_formed(),
        scope < environment.scopes.len(),
    ensures
        follows(environment, behind(values(list, environment, scope, depth))),
    decreases depth, 0nat, 0nat, list, 0nat,
{
    reveal(values);
    reveal(values_tail);
    reveal(expression);
    lemma_expression_keeps(list.head, environment, scope, depth);
    match expression(list.head, environment, scope, depth) {
        Ok((value, after)) => {
            lemma_values_tail_keeps(list.tail, 0, seq![value], after, scope, depth);
        },
        Err(_) => {},
    }
}

/// The rest of a list of arguments keeps a whole environment whole.
pub proof fn lemma_values_tail_keeps(
    tail: Seq<ExpressionView>,
    i: nat,
    seen: Seq<Value>,
    environment: EnvironmentView,
    scope: usize,
    depth: nat,
)
    requires
        environment.well_formed(),
        scope < environment.scopes.len(),
    ensures
        follows(environment, behind(values_tail(tail, i, seen, environment, scope, depth))),
    decreases depth, 0nat, 0nat, tail, tail.len() - i,
{
    reveal(values_tail);
    reveal(expression);
    if i < tail.len() {
        lemma_expression_keeps(tail[i as int], environment, scope, depth);
        match expression(tail[i as int], environment, scope, depth) {
            Ok((value, after)) => {
                lemma_values_tail_keeps(tail, i + 1, seen.push(value), after, scope, depth);
            },
            Err(_) => {},
        }
    }
}

/// The choice of a clause keeps a whole environment whole.
pub proof fn lemma_dispatch_keeps(
    clauses: Seq<ClauseView>,
    k: nat,
    given: Seq<Value>,
    environment: EnvironmentView,
    depth: nat,
)
    requires
        environment.well_formed(),
        kept(clauses, environment),
    ensures
        follows(environment, behind(dispatch(clauses, k, given, environment, depth))),
    decreases depth, 3nat, clauses.len() - k, clauses, 0nat,
{
    reveal(dispatch);
    reveal(attempt);
    reveal(block);
    if k < clauses.len() {
        let length = environment.scopes.len() as int;
        let marked = environment.marked();
        assert(marked.well_formed()) by {
            reveal(EnvironmentView::well_formed);
        }
        assert(clauses[k as int].scope < marked.scopes.len());
        lemma_attempt_keeps(clauses[k as int], given, marked, depth);
        match attempt(clauses[k as int], given, marked, depth) {
            Err((_, after)) => {
                lemma_release_keeps(environment, after);
            },
            Ok((None, after)) => {
                lemma_release_keeps(environment, after);
                let released = after.released(length, environment.captured);
                lemma_dispatch_keeps(clauses, k + 1, given, released, depth);
            },
            Ok((Some(opened), after)) => {
                lemma_block_keeps(clauses[k as int].definition.block, after, opened, depth);
                let last = behind(block(clauses[k as int].definition.block, after, opened, depth));
                lemma_release_keeps(environment, last);
            },
        }
    }
}

/// The attempt of a clause keeps a whole environment whole.
pub proof fn lemma_attempt_keeps(
    clause: ClauseView,
    given: Seq<Value>,
    environment: EnvironmentView,
    depth: nat,
)
    requires
        environment.well_formed(),
        clause.scope < environment.scopes.len(),
    ensures
        follows(environment, behind(attempt(clause, given, environment, depth))),
        attempt(clause, given, environment, depth) matches Ok((Some(opened), after)) ==> opened
            < after.scopes.len(),
    decreases depth, 2nat, 0nat, clause, 0nat,
{
    reveal(attempt);
    reveal(accept);
    reveal(accept_tail);
    match clause.definition.function.parameters {
        None => {},
        Some(parameters) => {
            if parameters.tail.len() + 1 == given.len() {
                let opened = environment.scopes.len() as usize;
                lemma_open_keeps(environment, clause.scope);
                let inside = environment.open(clause.scope);
                lemma_accept_keeps(parameters.head, given[0], inside, opened, depth);
                match accept(parameters.head, given[0], inside, opened, depth) {
                    Ok((true, after)) => {
                        lemma_accept_tail_keeps(parameters.tail, 0, given, after, opened, depth);
                    },
                    _ => {},
                }
            }
        },
    }
}

/// The test of the rest of the patterns keeps a whole environment whole.
pub proof fn lemma_accept_tail_keeps(
    patterns: Seq<PatternView>,
    i: nat,
    given: Seq<Value>,
    environment: EnvironmentView,
    opened: usize,
    depth: nat,
)
    requires
        environment.well_formed(),
        opened < environment.scopes.len(),
    ensures
        follows(environment, behind(accept_tail(patterns, i, given, environment, opened, depth))),
        accept_tail(patterns, i, given, environment, opened, depth) matches Ok(
            (Some(scope), after),
        ) ==> scope < after.scopes.len(),
    decreases depth, 1nat, patterns.len() - i + 1, patterns, 0nat,
{
    reveal(accept_tail);
    reveal(accept);
    if i < patterns.len() {
        lemma_accept_keeps(patterns[i as int], given[i as int + 1], environment, opened, depth);
        match accept(patterns[i as int], given[i as int + 1], environment, opened, depth) {
            Ok((true, after)) => {
                lemma_accept_tail_keeps(patterns, i + 1, given, after, opened, depth);
            },
            _ => {},
        }
    }
}

/// The test of a pattern keeps a whole environment whole.
pub proof fn lemma_accept_keeps(
    pattern: PatternView,
    given: Value,
    environment: EnvironmentView,
    opened: usize,
    depth: nat,
)
    requires
        environment.well_formed(),
        opened < environment.scopes.len(),
    ensures
        follows(environment, behind(accept(pattern, given, environment, opened, depth))),
    decreases depth, 1nat, 0nat, pattern, 0nat,
{
    reveal(accept);
    reveal(expression);
    let bound = match name_of(pattern) {
        NameView::Identified(lexeme) => environment.define(opened as int, lexeme.text, given),
        NameView::Anonymous => environment,
    };
    match name_of(pattern) {
        NameView::Identified(lexeme) => {
            lemma_define_keeps(environment, opened as int, lexeme.text, given);
        },
        NameView::Anonymous => {},
    }
    match pattern {
        PatternView::Function(_) => {},
        PatternView::Refinement(refinement) => {
            lemma_expression_keeps(refinement.constraint, bound, opened, depth);
        },
        PatternView::Bounds(bounds) => {
            lemma_expression_keeps(bounds.left.constraint, bound, opened, depth);
            let lower = expression(bounds.left.constraint, bound, opened, depth);
            if lower is Ok {
                lemma_expression_keeps(bounds.right.constraint, lower->Ok_0.1, opened, depth);
            }
        },
    }
}

/// Evaluating a program in a whole environment leaves a whole environment:
/// the scopes that were given up were kept by nothing.
pub proof fn lemma_program_keeps(tree: ProgramView, environment: EnvironmentView, depth: nat)
    requires
        environment.well_formed(),
    ensures
        follows(environment, behind(program(tree, environment, depth))),
{
    assert(environment.scopes.len() >= 1) by {
        reveal(EnvironmentView::well_formed);
    }
    match tree {
        ProgramView::Expressions(list) => {
            lemma_block_keeps(list, environment, 0, depth);
        },
        ProgramView::Comparisons(list) => {
            lemma_chain_keeps(list, environment, 0, depth);
        },
    }
}

} // verus!
