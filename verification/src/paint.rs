//! Terminal colours, as the `colored` crate gives them.
//!
//! Whether `colored` emits escape codes at all depends on the terminal and
//! on the environment of the process. So of a painted text only this is
//! stated: it is the text itself, or the text between the code of its
//! colour and the code that resets it.

use colored::Colorize;
use vstd::prelude::*;

verus! {

/// Whether `text` holds the escape character. `colored` rewrites reset
/// codes that stand inside a text, so nothing is stated of such a text.
pub open spec fn has_escape(text: Seq<char>) -> bool {
    exists|i: int| 0 <= i < text.len() && text[i] == '\u{1b}'
}

/// `text` between the escape sequence of the parameters `code` and the
/// sequence that resets them.
pub open spec fn coloured(code: Seq<char>, text: Seq<char>) -> Seq<char> {
    "\u{1b}["@ + code + "m"@ + text + "\u{1b}[0m"@
}

/// What painting `text` with `code` may give: the text as it is, where
/// colours are switched off, or the text within its codes.
pub open spec fn may_paint(code: Seq<char>, text: Seq<char>, painted: Seq<char>) -> bool {
    !has_escape(text) ==> painted == text || painted == coloured(code, text)
}

/// `Colorize::cyan`, written out as text by the `Display` of
/// `ColoredString`. Claimed: a text without an escape character comes back
/// unchanged or within the codes `ESC [ 36 m` and `ESC [ 0 m`.
#[verifier::external_body]
pub(crate) fn cyan(text: &str) -> (painted: String)
    ensures
        may_paint("36"@, text@, painted@),
{
    text.cyan().to_string()
}

/// `Colorize::yellow`, written out as text by the `Display` of
/// `ColoredString`. Claimed: a text without an escape character comes back
/// unchanged or within the codes `ESC [ 33 m` and `ESC [ 0 m`.
#[verifier::external_body]
pub(crate) fn yellow(text: &str) -> (painted: String)
    ensures
        may_paint("33"@, text@, painted@),
{
    text.yellow().to_string()
}

/// `Colorize::bright_magenta`, written out as text by the `Display` of
/// `ColoredString`. Claimed: a text without an escape character comes back
/// unchanged or within the codes `ESC [ 95 m` and `ESC [ 0 m`.
#[verifier::external_body]
pub(crate) fn bright_magenta(text: &str) -> (painted: String)
    ensures
        may_paint("95"@, text@, painted@),
{
    text.bright_magenta().to_string()
}

/// `Colorize::bright_green`, written out as text by the `Display` of
/// `ColoredString`. Claimed: a text without an escape character comes back
/// unchanged or within the codes `ESC [ 92 m` and `ESC [ 0 m`.
#[verifier::external_body]
pub(crate) fn bright_green(text: &str) -> (painted: String)
    ensures
        may_paint("92"@, text@, painted@),
{
    text.bright_green().to_string()
}

/// `Colorize::bright_white` followed by `Colorize::bold`, written out as text by the `Display` of
/// `ColoredString`. Claimed: a text without an escape character comes back
/// unchanged or within the codes `ESC [ 1;97 m` and `ESC [ 0 m`.
#[verifier::external_body]
pub(crate) fn bold_bright_white(text: &str) -> (painted: String)
    ensures
        may_paint("1;97"@, text@, painted@),
{
    text.bright_white().bold().to_string()
}

/// `Colorize::bright_cyan` followed by `Colorize::bold`, written out as text by the `Display` of
/// `ColoredString`. Claimed: a text without an escape character comes back
/// unchanged or within the codes `ESC [ 1;96 m` and `ESC [ 0 m`.
#[verifier::external_body]
pub(crate) fn bold_bright_cyan(text: &str) -> (painted: String)
    ensures
        may_paint("1;96"@, text@, painted@),
{
    text.bright_cyan().bold().to_string()
}

/// `Colorize::dimmed`, written out as text by the `Display` of
/// `ColoredString`. Claimed: a text without an escape character comes back
/// unchanged or within the codes `ESC [ 2 m` and `ESC [ 0 m`.
#[verifier::external_body]
pub(crate) fn dimmed(text: &str) -> (painted: String)
    ensures
        may_paint("2"@, text@, painted@),
{
    text.dimmed().to_string()
}

} // verus!
