//! One function or method body, treated as a flat namespace of bindings.

use crate::binding::{first_is_original, Case, Count};
use vstd::prelude::*;

verus! {

/// The model of one identifier's history: its text and its occurrences.
pub struct History {
    pub name: Seq<char>,
    pub cases: Seq<Case>,
}

/// The model of a scope: the histories in the order in which their
/// identifiers were first declared.
pub struct Scope {
    pub name: Seq<char>,
    pub loc: usize,
    pub vars: Seq<History>,
    pub has_shadow: bool,
}

impl Scope {
    /// Whether `ident` has been declared in this scope.
    pub open spec fn declares(self, ident: Seq<char>) -> bool {
        exists|i: int| 0 <= i < self.vars.len() && (#[trigger] self.vars[i]).name == ident
    }

    /// The position of the history of `ident`, where it is declared.
    pub open spec fn slot(self, ident: Seq<char>) -> int {
        choose|i: int| 0 <= i < self.vars.len() && (#[trigger] self.vars[i]).name == ident
    }

    /// Whether some identifier has been declared more than once.
    pub open spec fn shadowed(self) -> bool {
        exists|i: int| 0 <= i < self.vars.len() && (#[trigger] self.vars[i]).cases.len() > 1
    }

    /// The invariant of a scope: no identifier has two histories, no history
    /// is empty, each marks exactly its first occurrence as the original, and
    /// the flag is set exactly when some identifier occurs more than once.
    pub open spec fn wf(self) -> bool {
        &&& forall|i: int, j: int|
            0 <= i < j < self.vars.len() ==> (#[trigger] self.vars[i]).name
                != (#[trigger] self.vars[j]).name
        &&& forall|i: int|
            0 <= i < self.vars.len() ==> (#[trigger] self.vars[i]).cases.len() > 0
                && first_is_original(self.vars[i].cases)
        &&& self.has_shadow == self.shadowed()
    }

    /// A scope in which nothing has been declared yet.
    pub open spec fn empty(name: Seq<char>, loc: usize) -> Scope {
        Scope { name, loc, vars: Seq::empty(), has_shadow: false }
    }

    /// The scope after one more declaration of `ident` at `line`.
    pub open spec fn record(self, ident: Seq<char>, line: usize) -> Scope {
        if self.declares(ident) {
            let i = self.slot(ident);
            let shadow = Case { loc: line, is_original: false };
            Scope {
                vars: self.vars.update(
                    i,
                    History { name: ident, cases: self.vars[i].cases.push(shadow) },
                ),
                has_shadow: true,
                ..self
            }
        } else {
            let original = Case { loc: line, is_original: true };
            Scope {
                vars: self.vars.push(History { name: ident, cases: seq![original] }),
                ..self
            }
        }
    }
}

/// Recording a declaration keeps a scope well formed.
pub proof fn lemma_record_wf(scope: Scope, ident: Seq<char>, line: usize)
    requires
        scope.wf(),
    ensures
        scope.record(ident, line).wf(),
{
    let after = scope.record(ident, line);
    if scope.declares(ident) {
        let i = scope.slot(ident);
        assert(after.vars[i].cases.len() > 1);
        assert forall|k: int| 0 <= k < after.vars.len() implies (#[trigger] after.vars[k]).cases.len()
            > 0 && first_is_original(after.vars[k].cases) by {
            assert(scope.vars[k].cases.len() > 0);
        }
    } else {
        assert forall|k: int| 0 <= k < after.vars.len() implies (#[trigger] after.vars[k]).cases.len()
            > 0 && first_is_original(after.vars[k].cases) by {
            if k < scope.vars.len() {
                assert(scope.vars[k].cases.len() > 0);
            }
        }
        if scope.shadowed() {
            let w = choose|w: int|
                0 <= w < scope.vars.len() && (#[trigger] scope.vars[w]).cases.len() > 1;
            assert(after.vars[w].cases.len() > 1);
        }
        if after.shadowed() {
            let w = choose|w: int|
                0 <= w < after.vars.len() && (#[trigger] after.vars[w]).cases.len() > 1;
            assert(scope.vars[w].cases.len() > 1);
        }
    }
}

/// The history of one identifier within a scope.
#[derive(Clone, Debug)]
pub struct Variable {
    name: String,
    count: Count,
}

impl View for Variable {
    type V = History;

    closed spec fn view(&self) -> History {
        History { name: self.name@, cases: self.count@ }
    }
}

impl Variable {
    pub fn name(&self) -> (name: &String)
        ensures
            name@ == self@.name,
    {
        &self.name
    }

    pub fn count(&self) -> (count: &Count)
        ensures
            count@ == self@.cases,
    {
        &self.count
    }
}

/// One function or method with the local bindings found in its body.
#[derive(Clone, Debug)]
pub struct Function {
    name: String,
    loc: usize,
    vars: Vec<Variable>,
    has_shadow: bool,
}

impl View for Function {
    type V = Scope;

    closed spec fn view(&self) -> Scope {
        Scope {
            name: self.name@,
            loc: self.loc,
            vars: Seq::new(self.vars@.len(), |i: int| self.vars@[i]@),
            has_shadow: self.has_shadow,
        }
    }
}

impl Default for Function {
    fn default() -> (function: Function)
        ensures
            function@ == Scope::empty(Seq::empty(), 0),
            function.wf(),
    {
        Function::new(String::new(), 0)
    }
}

impl Function {
    pub open spec fn wf(&self) -> bool {
        self@.wf()
    }

    pub fn new(name: String, loc: usize) -> (function: Function)
        ensures
            function@ == Scope::empty(name@, loc),
            function.wf(),
    {
        let function = Function { name, loc, vars: Vec::new(), has_shadow: false };
        assert(function@.vars =~= Seq::empty());
        function
    }

    /// Records a declaration of `ident` at `line` and says whether it shadows
    /// an earlier declaration of the same identifier in this scope.
    pub fn record(&mut self, ident: String, line: usize) -> (is_shadow: bool)
        requires
            old(self).wf(),
        ensures
            final(self)@ == old(self)@.record(ident@, line),
            is_shadow == old(self)@.declares(ident@),
            final(self).wf(),
    {
        let mut i: usize = 0;
        while i < self.vars.len()
            invariant
                *self == *old(self),
                self.wf(),
                i <= self.vars@.len(),
                forall|k: int| 0 <= k < i ==> (#[trigger] self@.vars[k]).name != ident@,
            decreases self.vars@.len() - i,
        {
            if self.vars[i].name == ident {
                proof {
                    let found = self@.slot(ident@);
                    assert(self@.vars[i as int].name == ident@);
                    assert(self@.declares(ident@));
                    assert(0 <= found < self@.vars.len() && self@.vars[found].name == ident@);
                    if found > i {
                        assert(self@.vars[i as int].name != self@.vars[found].name);
                    }
                    assert(found == i);
                    lemma_record_wf(self@, ident@, line);
                }
                let is_shadow = self.vars[i].count.push(line);
                self.has_shadow = true;
                assert(self@.vars =~= old(self)@.record(ident@, line).vars);
                return is_shadow;
            }
            i += 1;
        }
        proof {
            lemma_record_wf(self@, ident@, line);
        }
        let mut count = Count::new();
        let is_shadow = count.push(line);
        self.vars.push(Variable { name: ident, count });
        assert(self@.vars =~= old(self)@.record(ident@, line).vars);
        is_shadow
    }

    pub fn name(&self) -> (name: &String)
        ensures
            name@ == self@.name,
    {
        &self.name
    }

    pub fn loc(&self) -> (loc: usize)
        ensures
            loc == self@.loc,
    {
        self.loc
    }

    pub fn has_shadow(&self) -> (flag: bool)
        ensures
            flag == self@.has_shadow,
    {
        self.has_shadow
    }

    /// The histories, in the order in which their identifiers were first
    /// declared.
    pub fn vars(&self) -> (vars: &Vec<Variable>)
        ensures
            vars@.len() == self@.vars.len(),
            forall|i: int| 0 <= i < vars@.len() ==> (#[trigger] vars@[i])@ == self@.vars[i],
    {
        &self.vars
    }
}

} // verus!
