//! Scopes and the functions that live in them.
//!
//! An environment holds the scopes of a session, each with a link to the one
//! that it was opened in, and every group of clauses that a function name
//! stands for. A scope is known by its place among the scopes and a group by
//! its place among the groups, so a function can keep the scope that it was
//! defined in without owning it.
//!
//! Scopes are opened and given up in the order of a stack. The scopes that an
//! evaluation opened are given up when it returns, unless a function was
//! defined in the meantime: that function may have kept one of them.

use vstd::prelude::*;
use vstd::string::StringExecFns;
use std::rc::Rc;
use crate::grammar::assignment::Assignment;
use crate::grammar::view::{assignment_view, AssignmentView};
use crate::runtime::value::Value;

verus! {

/// A name and the value that it stands for.
#[derive(Debug)]
pub struct Binding {
    pub name: String,
    pub value: Value,
}

/// What a [`Binding`] holds.
pub struct BindingView {
    pub name: Seq<char>,
    pub value: Value,
}

/// The names that one block or one call defines.
#[derive(Debug)]
pub struct Scope {
    /// The scope that this one was opened in; `None` for the root.
    pub parent: Option<usize>,
    pub bindings: Vec<Binding>,
}

/// What a [`Scope`] holds.
pub struct ScopeView {
    pub parent: Option<usize>,
    pub bindings: Seq<BindingView>,
}

/// One definition of a function: its patterns, its body, and the scope that
/// it was defined in.
#[derive(Debug)]
pub struct Clause {
    pub definition: Rc<Assignment>,
    pub scope: usize,
}

/// What a [`Clause`] holds.
pub struct ClauseView {
    pub definition: AssignmentView,
    pub scope: usize,
}

impl ClauseView {
    /// How many parameters this clause has.
    pub open spec fn arity(self) -> nat {
        match self.definition.function.parameters {
            Some(parameters) => parameters.tail.len() + 1,
            None => 0,
        }
    }
}

/// What an [`Environment`] holds.
pub struct EnvironmentView {
    pub scopes: Seq<ScopeView>,
    /// The clauses of each function, in the order of their definition.
    pub groups: Seq<Seq<ClauseView>>,
    /// Whether a clause was defined since this was last asked: see
    /// [`EnvironmentView::marked`].
    pub captured: bool,
}

/// What bindings hold, in order.
pub open spec fn binding_views(bindings: Seq<Binding>) -> Seq<BindingView> {
    Seq::new(
        bindings.len(),
        |i: int| BindingView { name: bindings[i].name@, value: bindings[i].value },
    )
}

/// What a scope holds.
pub open spec fn scope_view(scope: Scope) -> ScopeView {
    ScopeView { parent: scope.parent, bindings: binding_views(scope.bindings@) }
}

/// What scopes hold, in order.
pub open spec fn scope_views(scopes: Seq<Scope>) -> Seq<ScopeView> {
    Seq::new(scopes.len(), |i: int| scope_view(scopes[i]))
}

/// What a clause holds.
pub open spec fn clause_view(clause: Clause) -> ClauseView {
    ClauseView { definition: assignment_view(*clause.definition), scope: clause.scope }
}

/// What clauses hold, in order.
pub open spec fn clause_views(clauses: Seq<Clause>) -> Seq<ClauseView> {
    Seq::new(clauses.len(), |i: int| clause_view(clauses[i]))
}

/// What the clauses of each function hold.
pub open spec fn group_views(groups: Seq<Vec<Clause>>) -> Seq<Seq<ClauseView>> {
    Seq::new(groups.len(), |i: int| clause_views(groups[i]@))
}

/// The place of the first binding of `name` from `from` on; the number of
/// bindings if there is none.
pub open spec fn slot_of(bindings: Seq<BindingView>, name: Seq<char>, from: int) -> int
    decreases bindings.len() - from,
{
    if 0 <= from < bindings.len() && bindings[from].name != name {
        slot_of(bindings, name, from + 1)
    } else {
        from
    }
}

impl EnvironmentView {
    /// The environment of a new session: the root scope, with nothing
    /// defined.
    pub open spec fn initial() -> EnvironmentView {
        EnvironmentView {
            scopes: seq![ScopeView { parent: None, bindings: Seq::empty() }],
            groups: Seq::empty(),
            captured: false,
        }
    }

    /// The value that `name` stands for in the scope `scope` itself.
    pub open spec fn local(self, scope: int, name: Seq<char>) -> Option<Value> {
        if 0 <= scope < self.scopes.len() {
            let bindings = self.scopes[scope].bindings;
            let slot = slot_of(bindings, name, 0);
            if 0 <= slot < bindings.len() {
                Some(bindings[slot].value)
            } else {
                None
            }
        } else {
            None
        }
    }

    /// The value that `name` stands for in the scope `scope`: the one that
    /// the scope itself gives it, or else the one that it has in the scope
    /// around.
    pub open spec fn lookup(self, scope: int, name: Seq<char>) -> Option<Value>
        decreases scope,
    {
        if 0 <= scope < self.scopes.len() {
            match self.local(scope, name) {
                Some(value) => Some(value),
                None => match self.scopes[scope].parent {
                    Some(parent) => if parent < scope {
                        self.lookup(parent as int, name)
                    } else {
                        None
                    },
                    None => None,
                },
            }
        } else {
            None
        }
    }

    /// This environment with `name` standing for `value` in the scope
    /// `scope`, in the place of what it stood for there before. The scopes
    /// around are as they were.
    pub open spec fn define(self, scope: int, name: Seq<char>, value: Value) -> EnvironmentView {
        if 0 <= scope < self.scopes.len() {
            let bindings = self.scopes[scope].bindings;
            let slot = slot_of(bindings, name, 0);
            let binding = BindingView { name, value };
            let bound = if 0 <= slot < bindings.len() {
                bindings.update(slot, binding)
            } else {
                bindings.push(binding)
            };
            EnvironmentView {
                scopes: self.scopes.update(
                    scope,
                    ScopeView { parent: self.scopes[scope].parent, bindings: bound },
                ),
                groups: self.groups,
                captured: self.captured,
            }
        } else {
            self
        }
    }

    /// This environment with one more scope, opened in `parent` and empty.
    /// The new scope is the last.
    pub open spec fn open(self, parent: usize) -> EnvironmentView {
        EnvironmentView {
            scopes: self.scopes.push(ScopeView { parent: Some(parent), bindings: Seq::empty() }),
            groups: self.groups,
            captured: self.captured,
        }
    }

    /// This environment with one more function, of the single clause
    /// `clause`. The new function is the last.
    pub open spec fn found(self, clause: ClauseView) -> EnvironmentView {
        EnvironmentView {
            scopes: self.scopes,
            groups: self.groups.push(seq![clause]),
            captured: true,
        }
    }

    /// This environment at the start of an evaluation: no clause was defined
    /// since.
    pub open spec fn marked(self) -> EnvironmentView {
        EnvironmentView { scopes: self.scopes, groups: self.groups, captured: false }
    }

    /// This environment at the end of an evaluation that began with
    /// `length` scopes. If no clause was defined in the meantime, the scopes
    /// that were opened since are given up: nothing can have kept them.
    /// `before` is whether a clause was defined before the evaluation.
    pub open spec fn released(self, length: int, before: bool) -> EnvironmentView {
        EnvironmentView {
            scopes: if !self.captured && 0 <= length <= self.scopes.len() {
                self.scopes.take(length)
            } else {
                self.scopes
            },
            groups: self.groups,
            captured: before || self.captured,
        }
    }

    /// Whether every link of this environment points at what is there: the
    /// root is there, each scope was opened in a scope before it, and each
    /// clause was defined in a scope that the environment still has.
    #[verifier::opaque]
    pub open spec fn well_formed(self) -> bool {
        &&& self.scopes.len() >= 1
        &&& forall|i: int|
            0 <= i < self.scopes.len() ==> match (#[trigger] self.scopes[i]).parent {
                Some(parent) => parent < i,
                None => true,
            }
        &&& forall|g: int, k: int|
            0 <= g < self.groups.len() && 0 <= k < self.groups[g].len() ==> (
            #[trigger] self.groups[g][k]).scope < self.scopes.len()
    }

    /// This environment with `clause` behind the clauses of the function
    /// `group`.
    pub open spec fn extend(self, group: int, clause: ClauseView) -> EnvironmentView {
        if 0 <= group < self.groups.len() {
            EnvironmentView {
                scopes: self.scopes,
                groups: self.groups.update(group, self.groups[group].push(clause)),
                captured: true,
            }
        } else {
            self
        }
    }
}

/// The first binding of a name is found where it stands.
proof fn lemma_slot_of(bindings: Seq<BindingView>, name: Seq<char>, from: int)
    requires
        0 <= from <= bindings.len(),
    ensures
        from <= slot_of(bindings, name, from) <= bindings.len(),
        slot_of(bindings, name, from) < bindings.len() ==> bindings[slot_of(
            bindings,
            name,
            from,
        )].name == name,
        forall|i: int| from <= i < slot_of(bindings, name, from) ==> (#[trigger] bindings[i]).name != name,
    decreases bindings.len() - from,
{
    if from < bindings.len() && bindings[from].name != name {
        lemma_slot_of(bindings, name, from + 1);
    }
}

/// The first binding of a name stands where no binding before it has the
/// name.
proof fn lemma_slot_of_agrees(after: Seq<BindingView>, name: Seq<char>, from: int, slot: int)
    requires
        0 <= from <= slot < after.len(),
        forall|i: int| from <= i < slot ==> (#[trigger] after[i]).name != name,
        after[slot].name == name,
    ensures
        slot_of(after, name, from) == slot,
    decreases slot - from,
{
    if from < slot {
        lemma_slot_of_agrees(after, name, from + 1, slot);
    }
}

/// What is defined in a scope is found there again, and from every scope
/// that gives way to it without a definition of its own for the name.
pub proof fn lemma_defined_is_found(
    environment: EnvironmentView,
    scope: int,
    name: Seq<char>,
    value: Value,
)
    requires
        0 <= scope < environment.scopes.len(),
    ensures
        environment.define(scope, name, value).local(scope, name) == Some(value),
        environment.define(scope, name, value).lookup(scope, name) == Some(value),
{
    let bindings = environment.scopes[scope].bindings;
    let slot = slot_of(bindings, name, 0);
    lemma_slot_of(bindings, name, 0);
    let after = environment.define(scope, name, value).scopes[scope].bindings;
    lemma_slot_of_agrees(after, name, 0, slot);
}

/// A definition changes the scope that it is made in and no other: a scope
/// never changes the scope around it, and no function changes either.
pub proof fn lemma_define_is_local(
    environment: EnvironmentView,
    scope: int,
    name: Seq<char>,
    value: Value,
    other: int,
)
    requires
        0 <= other < environment.scopes.len(),
        other != scope,
    ensures
        environment.define(scope, name, value).scopes.len() == environment.scopes.len(),
        environment.define(scope, name, value).scopes[other] == environment.scopes[other],
        environment.define(scope, name, value).groups == environment.groups,
        environment.define(scope, name, value).local(other, name) == environment.local(
            other,
            name,
        ),
{
}

/// A definition gives other names the values that they had.
pub proof fn lemma_define_keeps_other_names(
    environment: EnvironmentView,
    scope: int,
    name: Seq<char>,
    value: Value,
    other: Seq<char>,
)
    requires
        0 <= scope < environment.scopes.len(),
        other != name,
    ensures
        environment.define(scope, name, value).local(scope, other) == environment.local(
            scope,
            other,
        ),
{
    let bindings = environment.scopes[scope].bindings;
    let after = environment.define(scope, name, value).scopes[scope].bindings;
    let slot = slot_of(bindings, other, 0);
    lemma_slot_of(bindings, other, 0);
    lemma_slot_of(bindings, name, 0);
    if slot < bindings.len() {
        assert(after[slot] == bindings[slot]);
        assert forall|i: int| 0 <= i < slot implies (#[trigger] after[i]).name != other by {
            if i < bindings.len() && i != slot_of(bindings, name, 0) {
                assert(after[i] == bindings[i]);
            }
        }
        lemma_slot_of_agrees(after, other, 0, slot);
    } else {
        lemma_slot_of(after, other, 0);
        let found = slot_of(after, other, 0);
        if found < after.len() {
            if found < bindings.len() && found != slot_of(bindings, name, 0) {
                assert(after[found] == bindings[found]);
            }
        }
    }
}

/// `Rc::clone` makes another handle on the same allocation: what the new
/// handle points to is what the old one points to.
#[verifier::external_body]
fn share(definition: &Rc<Assignment>) -> (shared: Rc<Assignment>)
    ensures
        shared == *definition,
{
    Rc::clone(definition)
}

/// The scopes and functions of a session.
#[derive(Debug)]
pub struct Environment {
    scopes: Vec<Scope>,
    groups: Vec<Vec<Clause>>,
    captured: bool,
}

impl View for Environment {
    type V = EnvironmentView;

    closed spec fn view(&self) -> EnvironmentView {
        EnvironmentView {
            scopes: scope_views(self.scopes@),
            groups: group_views(self.groups@),
            captured: self.captured,
        }
    }
}

impl Environment {
    /// The environment of a new session.
    pub fn new() -> (environment: Environment)
        ensures
            environment@ == EnvironmentView::initial(),
    {
        let mut scopes: Vec<Scope> = Vec::new();
        scopes.push(Scope { parent: None, bindings: Vec::new() });
        let environment = Environment { scopes, groups: Vec::new(), captured: false };
        assert(binding_views(environment.scopes@[0].bindings@) =~= Seq::<BindingView>::empty());
        assert(environment@.scopes =~= EnvironmentView::initial().scopes);
        assert(environment@.groups =~~= EnvironmentView::initial().groups);
        environment
    }

    /// How many scopes there are.
    pub fn scopes(&self) -> (count: usize)
        ensures
            count == self@.scopes.len(),
    {
        self.scopes.len()
    }

    /// How many functions there are.
    pub fn functions(&self) -> (count: usize)
        ensures
            count == self@.groups.len(),
    {
        self.groups.len()
    }

    /// See [`EnvironmentView::local`].
    pub fn local(&self, scope: usize, name: &str) -> (value: Option<Value>)
        ensures
            value == self@.local(scope as int, name@),
    {
        if scope >= self.scopes.len() {
            return None;
        }
        let bindings = &self.scopes[scope].bindings;
        let slot = find_slot(bindings, name);
        if slot < bindings.len() {
            Some(bindings[slot].value)
        } else {
            None
        }
    }

    /// See [`EnvironmentView::lookup`].
    pub fn value(&self, scope: usize, name: &str) -> (value: Option<Value>)
        ensures
            value == self@.lookup(scope as int, name@),
        decreases scope,
    {
        if scope >= self.scopes.len() {
            return None;
        }
        match self.local(scope, name) {
            Some(value) => Some(value),
            None => match self.scopes[scope].parent {
                Some(parent) => if parent < scope {
                    self.value(parent, name)
                } else {
                    None
                },
                None => None,
            },
        }
    }

    /// See [`EnvironmentView::define`].
    pub fn define_value(&mut self, scope: usize, name: &str, value: Value)
        ensures
            final(self)@ == old(self)@.define(scope as int, name@, value),
    {
        if scope >= self.scopes.len() {
            return ;
        }
        let target = &mut self.scopes[scope];
        let slot = find_slot(&target.bindings, name);
        let binding = Binding { name: String::from_str(name), value };
        let ghost before = binding_views(target.bindings@);
        let ghost entry = BindingView { name: name@, value };
        if slot < target.bindings.len() {
            target.bindings[slot] = binding;
            assert(binding_views(target.bindings@) =~= before.update(slot as int, entry));
        } else {
            target.bindings.push(binding);
            assert(binding_views(target.bindings@) =~= before.push(entry));
        }
        assert(self@.scopes =~= old(self)@.define(scope as int, name@, value).scopes);
        assert(self@.groups =~~= old(self)@.groups);
    }

    /// Opens a scope in `parent` and returns its place. See
    /// [`EnvironmentView::open`].
    pub fn new_child(&mut self, parent: usize) -> (child: usize)
        ensures
            final(self)@ == old(self)@.open(parent),
            child == old(self)@.scopes.len(),
    {
        let child = self.scopes.len();
        self.scopes.push(Scope { parent: Some(parent), bindings: Vec::new() });
        assert(binding_views(self.scopes@[child as int].bindings@) =~= Seq::<
            BindingView,
        >::empty());
        assert(self@.scopes =~= old(self)@.open(parent).scopes);
        assert(self@.groups =~~= old(self)@.groups);
        child
    }

    /// Makes a function of the single clause that `definition` in `scope`
    /// is, and returns its place. See [`EnvironmentView::found`].
    pub fn new_function(&mut self, definition: &Rc<Assignment>, scope: usize) -> (group: usize)
        ensures
            final(self)@ == old(self)@.found(
                ClauseView { definition: assignment_view(**definition), scope },
            ),
            group == old(self)@.groups.len(),
    {
        let group = self.groups.len();
        let mut clauses: Vec<Clause> = Vec::new();
        clauses.push(Clause { definition: share(definition), scope });
        self.groups.push(clauses);
        self.captured = true;
        assert(self@.groups =~~= old(self)@.found(
            ClauseView { definition: assignment_view(**definition), scope },
        ).groups);
        assert(self@.scopes =~~= old(self)@.scopes);
        group
    }

    /// Puts the clause that `definition` in `scope` is behind the clauses
    /// of the function `group`. See [`EnvironmentView::extend`].
    pub fn add_clause(&mut self, group: usize, definition: &Rc<Assignment>, scope: usize)
        ensures
            final(self)@ == old(self)@.extend(
                group as int,
                ClauseView { definition: assignment_view(**definition), scope },
            ),
    {
        if group >= self.groups.len() {
            return ;
        }
        let target = &mut self.groups[group];
        target.push(Clause { definition: share(definition), scope });
        self.captured = true;
        assert(self@.groups =~~= old(self)@.extend(
            group as int,
            ClauseView { definition: assignment_view(**definition), scope },
        ).groups);
        assert(self@.scopes =~~= old(self)@.scopes);
    }

    /// See [`EnvironmentView::marked`]. Returns whether a clause was defined
    /// before.
    pub fn mark(&mut self) -> (before: bool)
        ensures
            final(self)@ == old(self)@.marked(),
            before == old(self)@.captured,
    {
        let before = self.captured;
        self.captured = false;
        before
    }

    /// See [`EnvironmentView::released`].
    pub fn release(&mut self, length: usize, before: bool)
        ensures
            final(self)@ == old(self)@.released(length as int, before),
    {
        if !self.captured && length <= self.scopes.len() {
            self.scopes.truncate(length);
            assert(self@.scopes =~= old(self)@.scopes.take(length as int));
        }
        self.captured = before || self.captured;
    }

    /// Whether there is a function `group` whose first clause has one
    /// parameter and `others` more.
    pub fn takes(&self, group: usize, others: usize) -> (fits: bool)
        ensures
            fits == (group < self@.groups.len() && self@.groups[group as int].len() > 0
                && self@.groups[group as int][0].arity() == others + 1),
    {
        if group >= self.groups.len() {
            return false;
        }
        let clauses = &self.groups[group];
        if clauses.len() == 0 {
            return false;
        }
        proof {
            reveal_with_fuel(assignment_view, 3);
        }
        match &clauses[0].definition.function.parameters {
            Some(parameters) => parameters.1.len() == others,
            None => false,
        }
    }

    /// The clauses of the function `group`, in the order of their
    /// definition; `None` if there is no such function.
    pub fn function(&self, group: usize) -> (clauses: Option<Vec<Clause>>)
        ensures
            match clauses {
                Some(clauses) => group < self@.groups.len() && clause_views(clauses@)
                    == self@.groups[group as int],
                None => group >= self@.groups.len(),
            },
    {
        if group >= self.groups.len() {
            return None;
        }
        let stored = &self.groups[group];
        let mut clauses: Vec<Clause> = Vec::new();
        let mut i: usize = 0;
        while i < stored.len()
            invariant
                i <= stored.len(),
                clauses.len() == i,
                forall|j: int| 0 <= j < i ==> clause_view(#[trigger] clauses[j]) == clause_view(stored[j]),
            decreases stored.len() - i,
        {
            clauses.push(Clause { definition: share(&stored[i].definition), scope: stored[i].scope });
            i += 1;
        }
        assert(clause_views(clauses@) =~= clause_views(stored@));
        Some(clauses)
    }
}

/// See [`slot_of`].
fn find_slot(bindings: &Vec<Binding>, name: &str) -> (slot: usize)
    ensures
        slot == slot_of(binding_views(bindings@), name@, 0),
        slot <= bindings@.len(),
{
    let mut slot: usize = 0;
    while slot < bindings.len() && !same_text(&bindings[slot].name, name)
        invariant
            slot <= bindings.len(),
            slot_of(binding_views(bindings@), name@, slot as int) == slot_of(
                binding_views(bindings@),
                name@,
                0,
            ),
        decreases bindings.len() - slot,
    {
        slot += 1;
    }
    slot
}

/// Whether two texts hold the same characters.
fn same_text(a: &String, b: &str) -> (equal: bool)
    ensures
        equal == (a@ == b@),
{
    let length = a.as_str().unicode_len();
    if length != b.unicode_len() {
        return false;
    }
    let mut i: usize = 0;
    while i < length
        invariant
            i <= length,
            length == a@.len() == b@.len(),
            forall|j: int| 0 <= j < i ==> a@[j] == b@[j],
        decreases length - i,
    {
        if a.as_str().get_char(i) != b.get_char(i) {
            return false;
        }
        i += 1;
    }
    assert(a@ =~= b@);
    true
}

} // verus!
