//! The occurrences of one identifier within one scope.

use vstd::prelude::*;

verus! {

/// One declaration of a local variable.
#[derive(Clone, Copy, Debug, PartialEq, Eq, Structural)]
pub struct Case {
    /// The source line of the declared identifier.
    pub loc: usize,
    /// Whether this is the first declaration of its identifier in its scope.
    pub is_original: bool,
}

impl Default for Case {
    fn default() -> (case: Case)
        ensures
            case == (Case { loc: 0, is_original: false }),
    {
        Case { loc: 0, is_original: false }
    }
}

impl Case {
    pub fn new(loc: usize, is_original: bool) -> (case: Case)
        ensures
            case == (Case { loc, is_original }),
    {
        Case { loc, is_original }
    }
}

/// Exactly the first occurrence is marked as the original.
pub open spec fn first_is_original(cases: Seq<Case>) -> bool {
    forall|k: int| 0 <= k < cases.len() ==> (#[trigger] cases[k]).is_original == (k == 0)
}

/// All recorded occurrences of one identifier, in the order of discovery.
#[derive(Clone, Debug)]
pub struct Count {
    locs: Vec<Case>,
}

impl View for Count {
    type V = Seq<Case>;

    closed spec fn view(&self) -> Seq<Case> {
        self.locs@
    }
}

impl Default for Count {
    fn default() -> (count: Count)
        ensures
            count@ == Seq::<Case>::empty(),
    {
        Count::new()
    }
}

impl Count {
    /// The invariant of a history: the first occurrence is the original and
    /// no other is.
    pub open spec fn wf(&self) -> bool {
        first_is_original(self@)
    }

    pub fn new() -> (count: Count)
        ensures
            count@ == Seq::<Case>::empty(),
            count.wf(),
    {
        Count { locs: Vec::new() }
    }

    /// Appends a declaration at `line`. It is the original exactly when the
    /// history was empty; the result says whether it shadows an earlier one.
    pub fn push(&mut self, line: usize) -> (is_shadow: bool)
        ensures
            final(self)@ == old(self)@.push(
                Case { loc: line, is_original: old(self)@.len() == 0 },
            ),
            is_shadow == (old(self)@.len() > 0),
            old(self).wf() ==> final(self).wf(),
    {
        let is_original = self.locs.len() == 0;
        self.locs.push(Case::new(line, is_original));
        !is_original
    }

    pub fn len(&self) -> (n: usize)
        ensures
            n == self@.len(),
    {
        self.locs.len()
    }

    /// The occurrences, in the order of discovery.
    pub fn locs(&self) -> (cases: &Vec<Case>)
        ensures
            cases@ == self@,
    {
        &self.locs
    }
}

} // verus!
