//! The analysis of one file: the scopes opened so far, and the routing of
//! each local binding to the scope that was opened last.

use crate::scope::{lemma_record_wf, Function, Scope};
use vstd::prelude::*;

verus! {

/// The model of a named binding: the identifier's text and its line.
pub struct Declaration {
    pub name: Seq<char>,
    pub line: usize,
}

/// An identifier bound by a pattern, with the line on which it stands.
#[derive(Clone, Debug)]
pub struct Binding {
    pub name: String,
    pub line: usize,
}

impl View for Binding {
    type V = Declaration;

    open spec fn view(&self) -> Declaration {
        Declaration { name: self.name@, line: self.line }
    }
}

/// One alternative of the pattern of a local declaration. Only a pattern
/// that is a single identifier binds a name here; every other form of
/// pattern is `Other`, whatever it holds.
#[derive(Clone, Debug)]
pub enum Pattern {
    Ident(Binding),
    Other,
}

impl View for Pattern {
    type V = Option<Declaration>;

    open spec fn view(&self) -> Option<Declaration> {
        match self {
            Pattern::Ident(binding) => Some(binding@),
            Pattern::Other => None,
        }
    }
}

/// The models of a sequence of patterns.
pub open spec fn pattern_views(patterns: Seq<Pattern>) -> Seq<Option<Declaration>> {
    patterns.map_values(|p: Pattern| p@)
}

/// The models of a sequence of bindings.
pub open spec fn binding_views(bindings: Seq<Binding>) -> Seq<Declaration> {
    bindings.map_values(|b: Binding| b@)
}

/// The identifiers that a sequence of patterns binds, in order: those of the
/// patterns that are a single identifier.
pub open spec fn idents_of(patterns: Seq<Option<Declaration>>) -> Seq<Declaration>
    decreases patterns.len(),
{
    if patterns.len() == 0 {
        Seq::empty()
    } else {
        let before = idents_of(patterns.drop_last());
        match patterns.last() {
            Some(declaration) => before.push(declaration),
            None => before,
        }
    }
}

/// Collects the identifiers that the patterns of one local declaration bind.
pub fn get_idents(patterns: &Vec<Pattern>) -> (idents: Vec<Binding>)
    ensures
        binding_views(idents@) == idents_of(pattern_views(patterns@)),
{
    let mut idents: Vec<Binding> = Vec::new();
    let mut i: usize = 0;
    assert(pattern_views(patterns@).take(0) =~= Seq::empty());
    assert(binding_views(idents@) =~= Seq::empty());
    while i < patterns.len()
        invariant
            i <= patterns@.len(),
            binding_views(idents@) == idents_of(pattern_views(patterns@).take(i as int)),
        decreases patterns@.len() - i,
    {
        let ghost before = binding_views(idents@);
        assert(pattern_views(patterns@).take(i + 1).drop_last() =~= pattern_views(patterns@).take(
            i as int,
        ));
        assert(pattern_views(patterns@).take(i + 1).last() == patterns@[i as int]@);
        match &patterns[i] {
            Pattern::Ident(binding) => {
                idents.push(Binding { name: binding.name.clone(), line: binding.line });
                assert(binding_views(idents@) =~= before.push(binding@));
            },
            Pattern::Other => {},
        }
        i += 1;
    }
    assert(pattern_views(patterns@).take(i as int) =~= pattern_views(patterns@));
    idents
}

/// Why the analysis of a file was given up.
#[derive(Clone, Copy, Debug, PartialEq, Eq, Structural)]
pub enum LogicError {
    /// A local binding was found before any function or method was opened.
    BindingOutsideScope,
}

impl LogicError {
    pub fn message(&self) -> (text: &'static str)
        ensures
            text@ == "binding outside any scope"@,
    {
        "binding outside any scope"
    }
}

/// The model of the analysis of one file.
pub struct Analysis {
    pub filename: Seq<char>,
    pub funcs: Seq<Scope>,
    pub has_shadow: bool,
}

impl Analysis {
    /// Whether some scope holds a shadow.
    pub open spec fn shadowed(self) -> bool {
        exists|i: int| 0 <= i < self.funcs.len() && (#[trigger] self.funcs[i]).has_shadow
    }

    /// The invariant of an analysis: every scope is well formed, and the
    /// file's flag is set exactly when some scope's flag is.
    pub open spec fn wf(self) -> bool {
        &&& forall|i: int| 0 <= i < self.funcs.len() ==> (#[trigger] self.funcs[i]).wf()
        &&& self.has_shadow == self.shadowed()
    }

    /// The analysis of a file in which nothing has been visited yet.
    pub open spec fn empty(filename: Seq<char>) -> Analysis {
        Analysis { filename, funcs: Seq::empty(), has_shadow: false }
    }

    /// The analysis after a function or method has been entered.
    pub open spec fn open_scope(self, name: Seq<char>, line: usize) -> Analysis {
        Analysis { funcs: self.funcs.push(Scope::empty(name, line)), ..self }
    }

    /// The analysis after one declaration has been recorded in the scope
    /// that was opened last.
    pub open spec fn record(self, ident: Seq<char>, line: usize) -> Analysis
        recommends
            self.funcs.len() > 0,
    {
        Analysis {
            funcs: self.funcs.update(
                self.funcs.len() - 1,
                self.funcs.last().record(ident, line),
            ),
            has_shadow: self.has_shadow || self.funcs.last().declares(ident),
            ..self
        }
    }

    /// The analysis after the declarations `bindings` have been recorded, in
    /// order, in the scope that was opened last.
    pub open spec fn record_all(self, bindings: Seq<Declaration>) -> Analysis
        recommends
            self.funcs.len() > 0,
        decreases bindings.len(),
    {
        if bindings.len() == 0 {
            self
        } else {
            self.record_all(bindings.drop_last()).record(
                bindings.last().name,
                bindings.last().line,
            )
        }
    }
}

/// Opening a scope keeps an analysis well formed.
pub proof fn lemma_open_scope_wf(analysis: Analysis, name: Seq<char>, line: usize)
    requires
        analysis.wf(),
    ensures
        analysis.open_scope(name, line).wf(),
{
    let after = analysis.open_scope(name, line);
    assert forall|i: int| 0 <= i < after.funcs.len() implies (#[trigger] after.funcs[i]).wf() by {
        if i < analysis.funcs.len() {
            assert(analysis.funcs[i].wf());
        }
    }
    if analysis.shadowed() {
        let w = choose|w: int| 0 <= w < analysis.funcs.len() && (#[trigger] analysis.funcs[w]).has_shadow;
        assert(after.funcs[w].has_shadow);
    }
    if after.shadowed() {
        let w = choose|w: int| 0 <= w < after.funcs.len() && (#[trigger] after.funcs[w]).has_shadow;
        assert(analysis.funcs[w].has_shadow);
    }
}

/// Recording a declaration keeps an analysis well formed and opens no scope.
pub proof fn lemma_analysis_record_wf(analysis: Analysis, ident: Seq<char>, line: usize)
    requires
        analysis.wf(),
        analysis.funcs.len() > 0,
    ensures
        analysis.record(ident, line).wf(),
        analysis.record(ident, line).funcs.len() == analysis.funcs.len(),
{
    let after = analysis.record(ident, line);
    let last = analysis.funcs.len() - 1;
    assert(analysis.funcs[last].wf());
    lemma_record_wf(analysis.funcs[last], ident, line);
    assert forall|i: int| 0 <= i < after.funcs.len() implies (#[trigger] after.funcs[i]).wf() by {
        if i < last {
            assert(analysis.funcs[i].wf());
        }
    }
    if analysis.shadowed() {
        let w = choose|w: int| 0 <= w < analysis.funcs.len() && (#[trigger] analysis.funcs[w]).has_shadow;
        assert(after.funcs[w].has_shadow);
    }
    if analysis.funcs[last].declares(ident) {
        assert(after.funcs[last].has_shadow);
    }
    if after.shadowed() {
        let w = choose|w: int| 0 <= w < after.funcs.len() && (#[trigger] after.funcs[w]).has_shadow;
        if w < last {
            assert(analysis.funcs[w].has_shadow);
        } else if !analysis.funcs[last].declares(ident) {
            assert(analysis.funcs[last].has_shadow);
        }
    }
}

/// Recording several declarations keeps an analysis well formed and opens
/// no scope.
pub proof fn lemma_record_all_wf(analysis: Analysis, bindings: Seq<Declaration>)
    requires
        analysis.wf(),
        analysis.funcs.len() > 0,
    ensures
        analysis.record_all(bindings).wf(),
        analysis.record_all(bindings).funcs.len() == analysis.funcs.len(),
    decreases bindings.len(),
{
    if bindings.len() > 0 {
        lemma_record_all_wf(analysis, bindings.drop_last());
        lemma_analysis_record_wf(
            analysis.record_all(bindings.drop_last()),
            bindings.last().name,
            bindings.last().line,
        );
    }
}

/// The state of the analysis of one file: its scopes in the order of
/// discovery, and whether any of them holds a shadow.
#[derive(Debug)]
pub struct ShadowCounter<'a> {
    funcs: Vec<Function>,
    filename: &'a str,
    has_shadow: bool,
}

impl<'a> View for ShadowCounter<'a> {
    type V = Analysis;

    closed spec fn view(&self) -> Analysis {
        Analysis {
            filename: self.filename@,
            funcs: Seq::new(self.funcs@.len(), |i: int| self.funcs@[i]@),
            has_shadow: self.has_shadow,
        }
    }
}

impl<'a> Default for ShadowCounter<'a> {
    fn default() -> (counter: ShadowCounter<'a>)
        ensures
            counter@ == Analysis::empty(Seq::empty()),
            counter.wf(),
    {
        proof {
            reveal_strlit("");
        }
        let counter = ShadowCounter::new("");
        assert(counter@.filename =~= Seq::empty());
        counter
    }
}

impl<'a> ShadowCounter<'a> {
    pub open spec fn wf(&self) -> bool {
        self@.wf()
    }

    pub fn new(filename: &'a str) -> (counter: ShadowCounter<'a>)
        ensures
            counter@ == Analysis::empty(filename@),
            counter.wf(),
    {
        let counter = ShadowCounter { filename, funcs: Vec::new(), has_shadow: false };
        assert(counter@.funcs =~= Seq::empty());
        counter
    }

    /// Opens a scope named `name`, declared at `line`. It receives every
    /// binding recorded from now on, until another scope is opened.
    pub fn open_scope(&mut self, name: String, line: usize)
        requires
            old(self).wf(),
        ensures
            final(self)@ == old(self)@.open_scope(name@, line),
            final(self).wf(),
    {
        proof {
            lemma_open_scope_wf(self@, name@, line);
        }
        self.funcs.push(Function::new(name, line));
        assert(self@.funcs =~= old(self)@.open_scope(name@, line).funcs);
    }

    /// Enters a function item.
    pub fn visit_item_fn(&mut self, name: String, line: usize)
        requires
            old(self).wf(),
        ensures
            final(self)@ == old(self)@.open_scope(name@, line),
            final(self).wf(),
    {
        self.open_scope(name, line)
    }

    /// Enters a method of an implementation block. A method is a scope like
    /// any function.
    pub fn visit_impl_item_method(&mut self, name: String, line: usize)
        requires
            old(self).wf(),
        ensures
            final(self)@ == old(self)@.open_scope(name@, line),
            final(self).wf(),
    {
        self.open_scope(name, line)
    }

    /// The scope that was opened last, or an error where none was opened.
    pub fn current_scope(&self) -> (result: Result<&Function, LogicError>)
        ensures
            match result {
                Ok(scope) => self@.funcs.len() > 0 && scope@ == self@.funcs.last(),
                Err(error) => self@.funcs.len() == 0 && error == LogicError::BindingOutsideScope,
            },
    {
        let n: usize = self.funcs.len();
        if n == 0 {
            Err(LogicError::BindingOutsideScope)
        } else {
            Ok(&self.funcs[n - 1])
        }
    }

    /// Records a declaration of `ident` at `line` in the scope that was
    /// opened last, and says whether it shadows an earlier one there. Where
    /// no scope was opened, nothing changes and the error is returned.
    pub fn record(&mut self, ident: String, line: usize) -> (result: Result<bool, LogicError>)
        requires
            old(self).wf(),
        ensures
            match result {
                Ok(is_shadow) => {
                    &&& old(self)@.funcs.len() > 0
                    &&& final(self)@ == old(self)@.record(ident@, line)
                    &&& is_shadow == old(self)@.funcs.last().declares(ident@)
                },
                Err(error) => {
                    &&& old(self)@.funcs.len() == 0
                    &&& error == LogicError::BindingOutsideScope
                    &&& final(self)@ == old(self)@
                },
            },
            final(self).wf(),
    {
        let n: usize = self.funcs.len();
        if n == 0 {
            return Err(LogicError::BindingOutsideScope);
        }
        proof {
            lemma_analysis_record_wf(self@, ident@, line);
            assert(self.funcs@[n - 1]@ == self@.funcs.last());
        }
        let is_shadow = self.funcs[n - 1].record(ident, line);
        if is_shadow {
            self.has_shadow = true;
        }
        assert(self@.funcs =~= old(self)@.record(ident@, line).funcs);
        Ok(is_shadow)
    }

    /// Visits one local declaration: records every identifier that its
    /// patterns bind, in order, in the scope that was opened last. Where no
    /// scope was opened, nothing changes and the error is returned.
    pub fn visit_local(&mut self, patterns: &Vec<Pattern>) -> (result: Result<(), LogicError>)
        requires
            old(self).wf(),
        ensures
            match result {
                Ok(_) => {
                    &&& old(self)@.funcs.len() > 0
                    &&& final(self)@ == old(self)@.record_all(
                        idents_of(pattern_views(patterns@)),
                    )
                },
                Err(error) => {
                    &&& old(self)@.funcs.len() == 0
                    &&& error == LogicError::BindingOutsideScope
                    &&& final(self)@ == old(self)@
                },
            },
            final(self).wf(),
    {
        if self.funcs.len() == 0 {
            return Err(LogicError::BindingOutsideScope);
        }
        let ids = get_idents(patterns);
        let ghost all = binding_views(ids@);
        let mut i: usize = 0;
        assert(all.take(0) =~= Seq::empty());
        while i < ids.len()
            invariant
                i <= ids@.len(),
                all == binding_views(ids@),
                self.wf(),
                self@.funcs.len() > 0,
                self@ == old(self)@.record_all(all.take(i as int)),
            decreases ids@.len() - i,
        {
            proof {
                assert(all.take(i + 1).drop_last() =~= all.take(i as int));
                assert(all.take(i + 1).last() == ids@[i as int]@);
                lemma_analysis_record_wf(self@, ids@[i as int]@.name, ids@[i as int]@.line);
            }
            let _ = self.record(ids[i].name.clone(), ids[i].line);
            i += 1;
        }
        assert(all.take(i as int) =~= all);
        Ok(())
    }

    pub fn filename(&self) -> (filename: &'a str)
        ensures
            filename@ == self@.filename,
    {
        self.filename
    }

    pub fn has_shadow(&self) -> (flag: bool)
        ensures
            flag == self@.has_shadow,
    {
        self.has_shadow
    }

    /// The scopes, in the order of discovery.
    pub fn funcs(&self) -> (funcs: &Vec<Function>)
        ensures
            funcs@.len() == self@.funcs.len(),
            forall|i: int| 0 <= i < funcs@.len() ==> (#[trigger] funcs@[i])@ == self@.funcs[i],
    {
        &self.funcs
    }
}

} // verus!
