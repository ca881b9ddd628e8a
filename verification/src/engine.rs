//! The engine: one pass over the functions, methods and local declarations
//! of a file, in the order in which a depth-first walk meets them.

use crate::visitor::{
    idents_of, lemma_open_scope_wf, lemma_record_all_wf, pattern_views, Analysis, Declaration,
    LogicError, Pattern, ShadowCounter,
};
use vstd::prelude::*;

verus! {

/// The model of what a walk meets: the entry of a function or method, or a
/// local declaration with the models of its patterns.
pub enum Step {
    Open { name: Seq<char>, line: usize },
    Local { patterns: Seq<Option<Declaration>> },
}

/// What a walk over a file's syntax tree meets, one node at a time.
#[derive(Clone, Debug)]
pub enum Event {
    /// A function item: its name and the line of its name.
    ItemFn { name: String, line: usize },
    /// A method of an implementation block: its name and the line of its name.
    ImplItemMethod { name: String, line: usize },
    /// A local declaration, with the alternatives of its pattern.
    Local { patterns: Vec<Pattern> },
}

impl View for Event {
    type V = Step;

    open spec fn view(&self) -> Step {
        match self {
            Event::ItemFn { name, line } => Step::Open { name: name@, line: *line },
            Event::ImplItemMethod { name, line } => Step::Open { name: name@, line: *line },
            Event::Local { patterns } => Step::Local { patterns: pattern_views(patterns@) },
        }
    }
}

/// The models of a sequence of events.
pub open spec fn event_views(events: Seq<Event>) -> Seq<Step> {
    events.map_values(|e: Event| e@)
}

impl Analysis {
    /// The analysis after one step, or `None` where the step is a local
    /// declaration and no scope has been opened.
    pub open spec fn step(self, step: Step) -> Option<Analysis> {
        match step {
            Step::Open { name, line } => Some(self.open_scope(name, line)),
            Step::Local { patterns } => if self.funcs.len() == 0 {
                None
            } else {
                Some(self.record_all(idents_of(patterns)))
            },
        }
    }

    /// The analysis after `steps`, in order, or `None` where one of them
    /// fails.
    pub open spec fn run(self, steps: Seq<Step>) -> Option<Analysis>
        decreases steps.len(),
    {
        if steps.len() == 0 {
            Some(self)
        } else {
            match self.run(steps.drop_last()) {
                Some(before) => before.step(steps.last()),
                None => None,
            }
        }
    }
}

/// A walk that has failed stays failed, whatever follows.
pub proof fn lemma_run_stays_failed(start: Analysis, steps: Seq<Step>, n: int)
    requires
        0 <= n <= steps.len(),
        start.run(steps.take(n)).is_none(),
    ensures
        start.run(steps).is_none(),
    decreases steps.len(),
{
    if n == steps.len() {
        assert(steps.take(n) =~= steps);
    } else {
        assert(steps.drop_last().take(n) =~= steps.take(n));
        lemma_run_stays_failed(start, steps.drop_last(), n);
    }
}

/// Every analysis that a walk reaches from a well-formed one is well formed.
pub proof fn lemma_run_wf(start: Analysis, steps: Seq<Step>)
    requires
        start.wf(),
    ensures
        start.run(steps).is_some() ==> start.run(steps).unwrap().wf(),
    decreases steps.len(),
{
    if steps.len() > 0 {
        lemma_run_wf(start, steps.drop_last());
        match start.run(steps.drop_last()) {
            Some(before) => {
                match steps.last() {
                    Step::Open { name, line } => {
                        lemma_open_scope_wf(before, name, line);
                    },
                    Step::Local { patterns } => {
                        if before.funcs.len() > 0 {
                            lemma_record_all_wf(before, idents_of(patterns));
                        }
                    },
                }
            },
            None => {},
        }
    }
}

/// Whatever a walk met: in every scope of the analysis it gives, the first
/// occurrence recorded for an identifier is marked as the original, and no
/// later occurrence of that identifier is.
pub proof fn lemma_first_occurrence_is_original(
    filename: Seq<char>,
    steps: Seq<Step>,
    analysis: Analysis,
    scope: int,
    var: int,
    k: int,
)
    requires
        Analysis::empty(filename).run(steps) == Some(analysis),
        0 <= scope < analysis.funcs.len(),
        0 <= var < analysis.funcs[scope].vars.len(),
        0 <= k < analysis.funcs[scope].vars[var].cases.len(),
    ensures
        analysis.funcs[scope].vars[var].cases[k].is_original == (k == 0),
{
    lemma_run_wf(Analysis::empty(filename), steps);
    assert(analysis.funcs[scope].wf());
    let cases = analysis.funcs[scope].vars[var].cases;
    assert(cases[k].is_original == (k == 0));
}

/// Whatever a walk met: a scope of the analysis it gives is flagged exactly
/// when some identifier occurs more than once in it, and the file is flagged
/// exactly when some scope is.
pub proof fn lemma_has_shadow_iff_repeated(
    filename: Seq<char>,
    steps: Seq<Step>,
    analysis: Analysis,
    scope: int,
)
    requires
        Analysis::empty(filename).run(steps) == Some(analysis),
        0 <= scope < analysis.funcs.len(),
    ensures
        analysis.funcs[scope].has_shadow <==> exists|v: int|
            0 <= v < analysis.funcs[scope].vars.len() && (
            #[trigger] analysis.funcs[scope].vars[v]).cases.len() > 1,
        analysis.has_shadow <==> exists|f: int|
            0 <= f < analysis.funcs.len() && (#[trigger] analysis.funcs[f]).has_shadow,
{
    lemma_run_wf(Analysis::empty(filename), steps);
    assert(analysis.funcs[scope].wf());
}

/// Two runs over the same file and the same walk give the same analysis:
/// the same scopes, and in each the same identifiers, occurrences and lines.
pub proof fn lemma_analysis_is_repeatable(
    filename: Seq<char>,
    steps: Seq<Step>,
    first: ShadowCounter,
    second: ShadowCounter,
)
    requires
        Analysis::empty(filename).run(steps) == Some(first@),
        Analysis::empty(filename).run(steps) == Some(second@),
    ensures
        first@ == second@,
{
}

/// Runs the analysis of the file `filename` over `events`, which a
/// depth-first walk of its syntax tree met in this order. The analysis is
/// given up at the first local declaration that stands before any function
/// or method.
pub fn analyze<'a>(filename: &'a str, events: &Vec<Event>) -> (result: Result<
    ShadowCounter<'a>,
    LogicError,
>)
    ensures
        match result {
            Ok(counter) => {
                &&& Analysis::empty(filename@).run(event_views(events@)) == Some(counter@)
                &&& counter.wf()
            },
            Err(error) => {
                &&& Analysis::empty(filename@).run(event_views(events@)).is_none()
                &&& error == LogicError::BindingOutsideScope
            },
        },
{
    let mut counter = ShadowCounter::new(filename);
    let ghost start = Analysis::empty(filename@);
    let ghost steps = event_views(events@);
    let mut i: usize = 0;
    assert(steps.take(0) =~= Seq::empty());
    while i < events.len()
        invariant
            i <= events@.len(),
            steps == event_views(events@),
            start == Analysis::empty(filename@),
            counter.wf(),
            start.run(steps.take(i as int)) == Some(counter@),
        decreases events@.len() - i,
    {
        proof {
            assert(steps.take(i + 1).drop_last() =~= steps.take(i as int));
            assert(steps.take(i + 1).last() == events@[i as int]@);
        }
        match &events[i] {
            Event::ItemFn { name, line } => {
                counter.visit_item_fn(name.clone(), *line);
            },
            Event::ImplItemMethod { name, line } => {
                counter.visit_impl_item_method(name.clone(), *line);
            },
            Event::Local { patterns } => {
                match counter.visit_local(patterns) {
                    Ok(_) => {},
                    Err(error) => {
                        proof {
                            lemma_run_stays_failed(start, steps, i + 1);
                        }
                        return Err(error);
                    },
                }
            },
        }
        i += 1;
    }
    assert(steps.take(i as int) =~= steps);
    Ok(counter)
}

} // verus!
