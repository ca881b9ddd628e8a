//! The report on one file: which text stands where, and in which tone.
//!
//! A report is first laid out as a sequence of spans, each a text with the
//! tone it is to be shown in. Only then is it painted, span by span.

use crate::binding::Case;
use crate::layout::{clip, clipped, decimal, decimal_text, pad_left, pad_right, padded_left, padded_right};
use crate::paint;
use crate::paint::may_paint;
use crate::scope::{Function, History, Scope, Variable};
use crate::visitor::{Analysis, ShadowCounter};
use vstd::prelude::*;
use vstd::string::*;

verus! {

/// The part that a text plays in a report, by which it is coloured.
#[derive(Clone, Copy, Debug, PartialEq, Eq, Structural)]
pub enum Tone {
    /// Spacing, brackets and headings.
    Plain,
    /// The line of the first declaration of an identifier.
    Original,
    /// The line of a declaration that shadows an earlier one.
    Shadow,
    /// The line on which a function is declared, and its label.
    Line,
    /// The name of a function.
    Name,
    /// An identifier that is declared more than once.
    Ident,
    /// The number of declarations of an identifier.
    Total,
    /// The sign between that number and the lines.
    At,
}

/// The model of a span.
pub struct Piece {
    pub tone: Tone,
    pub text: Seq<char>,
}

/// A text and the tone it is shown in.
#[derive(Clone, Debug)]
pub struct Span {
    pub tone: Tone,
    pub text: String,
}

impl View for Span {
    type V = Piece;

    open spec fn view(&self) -> Piece {
        Piece { tone: self.tone, text: self.text@ }
    }
}

/// The models of a sequence of spans.
pub open spec fn span_views(spans: Seq<Span>) -> Seq<Piece> {
    spans.map_values(|s: Span| s@)
}

/// The views of a sequence of strings.
pub open spec fn string_views(parts: Seq<String>) -> Seq<Seq<char>> {
    parts.map_values(|s: String| s@)
}

pub open spec fn piece(tone: Tone, text: Seq<char>) -> Piece {
    Piece { tone, text }
}

/// One occurrence: its line, as an original or as a shadow.
pub open spec fn case_piece(case: Case) -> Piece {
    Piece {
        tone: if case.is_original {
            Tone::Original
        } else {
            Tone::Shadow
        },
        text: decimal(case.loc as nat),
    }
}

/// The occurrences of one identifier in order, with `", "` between them.
pub open spec fn cases_pieces(cases: Seq<Case>) -> Seq<Piece>
    decreases cases.len(),
{
    if cases.len() == 0 {
        Seq::empty()
    } else if cases.len() == 1 {
        seq![case_piece(cases[0])]
    } else {
        cases_pieces(cases.drop_last()).push(piece(Tone::Plain, ", "@)).push(
            case_piece(cases.last()),
        )
    }
}

/// The line of one identifier: nothing where it occurs once; else its name
/// in a column of 15 characters, the number of its occurrences in a column
/// of 5, and their lines in square brackets.
pub open spec fn history_pieces(history: History) -> Seq<Piece> {
    if history.cases.len() > 1 {
        (seq![
            piece(Tone::Plain, "    "@),
            piece(Tone::Ident, pad_right(clip(history.name, 15), 15)),
            piece(Tone::Plain, " "@),
            piece(Tone::Total, pad_left(decimal(history.cases.len()), 5)),
            piece(Tone::Plain, " "@),
            piece(Tone::At, "@"@),
            piece(Tone::Plain, " "@),
            piece(Tone::Plain, "["@),
        ] + cases_pieces(history.cases)).push(piece(Tone::Plain, "]"@)).push(
            piece(Tone::Plain, "\n"@),
        )
    } else {
        Seq::empty()
    }
}

/// The lines of the identifiers of a scope, in the order of their first
/// declaration.
pub open spec fn vars_pieces(vars: Seq<History>) -> Seq<Piece>
    decreases vars.len(),
{
    if vars.len() == 0 {
        Seq::empty()
    } else {
        vars_pieces(vars.drop_last()) + history_pieces(vars.last())
    }
}

/// The heading of a scope: the line of its declaration in a column of 3
/// characters and its name in a column of 15.
pub open spec fn head_pieces(scope: Scope) -> Seq<Piece> {
    seq![
        piece(Tone::Plain, "  "@),
        piece(Tone::Line, "line:"@),
        piece(Tone::Plain, " "@),
        piece(Tone::Line, pad_left(decimal(scope.loc as nat), 3)),
        piece(Tone::Plain, " "@),
        piece(Tone::Name, pad_right(scope.name, 15)),
        piece(Tone::Plain, "\n"@),
    ]
}

/// The report on one scope: its heading, then its identifiers.
pub open spec fn scope_pieces(scope: Scope) -> Seq<Piece> {
    head_pieces(scope) + vars_pieces(scope.vars)
}

/// The reports on the scopes that hold a shadow, in the order of discovery,
/// each followed by an empty line. A scope without a shadow is left out.
pub open spec fn scopes_pieces(funcs: Seq<Scope>) -> Seq<Piece>
    decreases funcs.len(),
{
    if funcs.len() == 0 {
        Seq::empty()
    } else if funcs.last().has_shadow {
        (scopes_pieces(funcs.drop_last()) + scope_pieces(funcs.last())).push(
            piece(Tone::Plain, "\n"@),
        )
    } else {
        scopes_pieces(funcs.drop_last())
    }
}

/// The report on a file: a heading with its name, then its scopes.
pub open spec fn report_pieces(analysis: Analysis) -> Seq<Piece> {
    seq![
        piece(Tone::Plain, analysis.filename),
        piece(Tone::Plain, " contains shadowed variable(s):\n\n"@),
    ] + scopes_pieces(analysis.funcs)
}

/// The texts of a sequence, one after the other.
pub open spec fn concat(parts: Seq<Seq<char>>) -> Seq<char>
    decreases parts.len(),
{
    if parts.len() == 0 {
        Seq::empty()
    } else {
        concat(parts.drop_last()) + parts.last()
    }
}

/// The parameters of the escape sequence that a tone is painted with.
pub open spec fn code_of(tone: Tone) -> Seq<char> {
    match tone {
        Tone::Plain => Seq::empty(),
        Tone::Original => "36"@,
        Tone::Shadow => "33"@,
        Tone::Line => "95"@,
        Tone::Name => "92"@,
        Tone::Ident => "1;97"@,
        Tone::Total => "1;96"@,
        Tone::At => "2"@,
    }
}

/// What is known of one painted span: a plain span is its own text; a
/// coloured one without an escape character is its own text too, or stands
/// within the codes of its tone.
pub open spec fn painted_as(piece: Piece, part: Seq<char>) -> bool {
    if piece.tone == Tone::Plain {
        part == piece.text
    } else {
        may_paint(code_of(piece.tone), piece.text, part)
    }
}

/// What is known of painted spans: there is one text for each span, and
/// each is painted as its span asks.
pub open spec fn painted(pieces: Seq<Piece>, parts: Seq<Seq<char>>) -> bool {
    &&& parts.len() == pieces.len()
    &&& forall|i: int| 0 <= i < pieces.len() ==> painted_as(#[trigger] pieces[i], parts[i])
}

fn put(out: &mut Vec<Span>, tone: Tone, text: String)
    ensures
        span_views(final(out)@) == span_views(old(out)@).push(piece(tone, text@)),
{
    out.push(Span { tone, text });
    assert(span_views(out@) =~= span_views(old(out)@).push(piece(tone, text@)));
}

fn put_str(out: &mut Vec<Span>, tone: Tone, text: &str)
    ensures
        span_views(final(out)@) == span_views(old(out)@).push(piece(tone, text@)),
{
    put(out, tone, String::from_str(text));
}

fn cases_into(cases: &Vec<Case>, out: &mut Vec<Span>)
    ensures
        span_views(final(out)@) == span_views(old(out)@) + cases_pieces(cases@),
{
    let ghost base = span_views(out@);
    let mut i: usize = 0;
    assert(span_views(out@) =~= base + cases_pieces(cases@.take(0)));
    while i < cases.len()
        invariant
            i <= cases@.len(),
            span_views(out@) == base + cases_pieces(cases@.take(i as int)),
        decreases cases@.len() - i,
    {
        proof {
            assert(cases@.take(i + 1).drop_last() =~= cases@.take(i as int));
            assert(cases@.take(i + 1).last() == cases@[i as int]);
        }
        if i > 0 {
            put_str(out, Tone::Plain, ", ");
        }
        let span = cases[i].span();
        put(out, span.tone, span.text);
        i += 1;
        assert(span_views(out@) =~= base + cases_pieces(cases@.take(i as int)));
    }
    assert(cases@.take(i as int) =~= cases@);
}

fn vars_into(vars: &Vec<Variable>, out: &mut Vec<Span>)
    ensures
        span_views(final(out)@) == span_views(old(out)@) + vars_pieces(
            vars@.map_values(|v: Variable| v@),
        ),
{
    let ghost base = span_views(out@);
    let ghost all = vars@.map_values(|v: Variable| v@);
    let mut i: usize = 0;
    assert(span_views(out@) =~= base + vars_pieces(all.take(0)));
    while i < vars.len()
        invariant
            i <= vars@.len(),
            all == vars@.map_values(|v: Variable| v@),
            span_views(out@) == base + vars_pieces(all.take(i as int)),
        decreases vars@.len() - i,
    {
        proof {
            assert(all.take(i + 1).drop_last() =~= all.take(i as int));
            assert(all.take(i + 1).last() == vars@[i as int]@);
        }
        vars[i].layout_into(out);
        i += 1;
        assert(span_views(out@) =~= base + vars_pieces(all.take(i as int)));
    }
    assert(all.take(i as int) =~= all);
}

impl Case {
    /// The span of this occurrence.
    pub fn span(&self) -> (span: Span)
        ensures
            span@ == case_piece(*self),
    {
        let tone = if self.is_original {
            Tone::Original
        } else {
            Tone::Shadow
        };
        Span { tone, text: decimal_text(self.loc) }
    }

    /// The line of this occurrence, painted as an original or as a shadow.
    pub fn render(&self) -> (text: String)
        ensures
            painted_as(case_piece(*self), text@),
    {
        self.span().paint()
    }
}

impl Variable {
    fn layout_into(&self, out: &mut Vec<Span>)
        ensures
            span_views(final(out)@) == span_views(old(out)@) + history_pieces(self@),
    {
        let n: usize = self.count().len();
        if n > 1 {
            put_str(out, Tone::Plain, "    ");
            put(out, Tone::Ident, padded_right(clipped(self.name().as_str(), 15), 15));
            put_str(out, Tone::Plain, " ");
            put(out, Tone::Total, padded_left(decimal_text(n).as_str(), 5));
            put_str(out, Tone::Plain, " ");
            put_str(out, Tone::At, "@");
            put_str(out, Tone::Plain, " ");
            put_str(out, Tone::Plain, "[");
            cases_into(self.count().locs(), out);
            put_str(out, Tone::Plain, "]");
            put_str(out, Tone::Plain, "\n");
        }
        assert(span_views(out@) =~= span_views(old(out)@) + history_pieces(self@));
    }

    /// The spans of this identifier's line of a report: none where it occurs
    /// once.
    pub fn layout(&self) -> (spans: Vec<Span>)
        ensures
            span_views(spans@) == history_pieces(self@),
    {
        let mut spans: Vec<Span> = Vec::new();
        self.layout_into(&mut spans);
        assert(span_views(spans@) =~= history_pieces(self@));
        spans
    }
}

impl Function {
    fn layout_into(&self, out: &mut Vec<Span>)
        ensures
            span_views(final(out)@) == span_views(old(out)@) + scope_pieces(self@),
    {
        put_str(out, Tone::Plain, "  ");
        put_str(out, Tone::Line, "line:");
        put_str(out, Tone::Plain, " ");
        put(out, Tone::Line, padded_left(decimal_text(self.loc()).as_str(), 3));
        put_str(out, Tone::Plain, " ");
        put(out, Tone::Name, padded_right(self.name().as_str(), 15));
        put_str(out, Tone::Plain, "\n");
        assert(span_views(out@) =~= span_views(old(out)@) + head_pieces(self@));
        let vars = self.vars();
        assert(vars@.map_values(|v: Variable| v@) =~= self@.vars);
        vars_into(vars, out);
        assert(span_views(out@) =~= span_views(old(out)@) + scope_pieces(self@));
    }

    /// The spans of the report on this scope: its heading, then one line for
    /// each identifier that is declared more than once.
    pub fn layout(&self) -> (spans: Vec<Span>)
        ensures
            span_views(spans@) == scope_pieces(self@),
    {
        let mut spans: Vec<Span> = Vec::new();
        self.layout_into(&mut spans);
        assert(span_views(spans@) =~= scope_pieces(self@));
        spans
    }

    /// The report on this scope as painted text.
    pub fn render(&self) -> (text: String)
        ensures
            exists|parts: Seq<Seq<char>>|
                painted(scope_pieces(self@), parts) && text@ == concat(parts),
    {
        let parts = paint_each(&self.layout());
        join(&parts)
    }
}

impl<'a> ShadowCounter<'a> {
    /// The spans of the report on this file: a heading, then the report on
    /// each scope that holds a shadow.
    pub fn layout(&self) -> (spans: Vec<Span>)
        ensures
            span_views(spans@) == report_pieces(self@),
    {
        let mut spans: Vec<Span> = Vec::new();
        put_str(&mut spans, Tone::Plain, self.filename());
        put_str(&mut spans, Tone::Plain, " contains shadowed variable(s):\n\n");
        let funcs = self.funcs();
        let ghost base = span_views(spans@);
        let ghost all = self@.funcs;
        let mut i: usize = 0;
        assert(span_views(spans@) =~= base + scopes_pieces(all.take(0)));
        while i < funcs.len()
            invariant
                i <= funcs@.len(),
                funcs@.len() == all.len(),
                forall|k: int| 0 <= k < funcs@.len() ==> (#[trigger] funcs@[k])@ == all[k],
                span_views(spans@) == base + scopes_pieces(all.take(i as int)),
            decreases funcs@.len() - i,
        {
            proof {
                assert(all.take(i + 1).drop_last() =~= all.take(i as int));
                assert(all.take(i + 1).last() == funcs@[i as int]@);
            }
            if funcs[i].has_shadow() {
                funcs[i].layout_into(&mut spans);
                put_str(&mut spans, Tone::Plain, "\n");
            }
            i += 1;
            assert(span_views(spans@) =~= base + scopes_pieces(all.take(i as int)));
        }
        assert(all.take(i as int) =~= all);
        assert(span_views(spans@) =~= report_pieces(self@));
        spans
    }

    /// The report on this file as painted text.
    pub fn render(&self) -> (text: String)
        ensures
            exists|parts: Seq<Seq<char>>|
                painted(report_pieces(self@), parts) && text@ == concat(parts),
    {
        let parts = paint_each(&self.layout());
        join(&parts)
    }
}

impl Span {
    /// This span as text for a terminal.
    pub fn paint(&self) -> (text: String)
        ensures
            painted_as(self@, text@),
    {
        match self.tone {
            Tone::Plain => self.text.clone(),
            Tone::Original => paint::cyan(self.text.as_str()),
            Tone::Shadow => paint::yellow(self.text.as_str()),
            Tone::Line => paint::bright_magenta(self.text.as_str()),
            Tone::Name => paint::bright_green(self.text.as_str()),
            Tone::Ident => paint::bold_bright_white(self.text.as_str()),
            Tone::Total => paint::bold_bright_cyan(self.text.as_str()),
            Tone::At => paint::dimmed(self.text.as_str()),
        }
    }
}

/// Paints each span of a report.
pub fn paint_each(spans: &Vec<Span>) -> (parts: Vec<String>)
    ensures
        painted(span_views(spans@), string_views(parts@)),
{
    let mut parts: Vec<String> = Vec::new();
    let mut i: usize = 0;
    while i < spans.len()
        invariant
            i <= spans@.len(),
            parts@.len() == i,
            forall|k: int| 0 <= k < i ==> painted_as((#[trigger] spans@[k])@, parts@[k]@),
        decreases spans@.len() - i,
    {
        parts.push(spans[i].paint());
        i += 1;
    }
    parts
}

/// Joins the painted parts of a report into one text.
pub fn join(parts: &Vec<String>) -> (text: String)
    ensures
        text@ == concat(string_views(parts@)),
{
    let ghost all = string_views(parts@);
    let mut text = String::new();
    let mut i: usize = 0;
    assert(all.take(0) =~= Seq::empty());
    while i < parts.len()
        invariant
            i <= parts@.len(),
            all == string_views(parts@),
            text@ == concat(all.take(i as int)),
        decreases parts@.len() - i,
    {
        proof {
            assert(all.take(i + 1).drop_last() =~= all.take(i as int));
            assert(all.take(i + 1).last() == parts@[i as int]@);
        }
        text.append(parts[i].as_str());
        i += 1;
    }
    assert(all.take(i as int) =~= all);
    text
}

} // verus!
