//! Colored text for terminals.

use owo_colors::{OwoColorize, Style};

use vstd::prelude::*;

verus! {

/// A text between an escape sequence that changes how text is shown and the one
/// that ends all such changes.
pub open spec fn painted(start: Seq<char>, s: Seq<char>) -> Seq<char> {
    start + s + "\x1b[0m"@
}

/// The escape sequence that starts dim text.
pub open spec fn dim() -> Seq<char> {
    "\x1b[2m"@
}

/// The escape sequence that starts bold text in cyan.
pub open spec fn cyan() -> Seq<char> {
    "\x1b[36;1m"@
}

/// The escape sequence that starts bold text in green.
pub open spec fn green() -> Seq<char> {
    "\x1b[32;1m"@
}

/// The escape sequence that starts bold text in yellow.
pub open spec fn yellow() -> Seq<char> {
    "\x1b[33;1m"@
}

/// The escape sequence that starts bold text in red.
pub open spec fn red() -> Seq<char> {
    "\x1b[31;1m"@
}

/// `OwoColorize::dimmed`, displayed: the text between the sequence for dim text and
/// the reset sequence.
#[verifier::external_body]
pub(crate) fn dimmed(s: &str) -> (out: String)
    ensures
        out@ == painted(dim(), s@),
{
    format!("{}", s.dimmed())
}

/// `OwoColorize::style` with `Style::bold` and `Style::cyan`, displayed: the text
/// between one sequence for both, color first, and the reset sequence.
#[verifier::external_body]
pub(crate) fn bold_cyan(s: &str) -> (out: String)
    ensures
        out@ == painted(cyan(), s@),
{
    format!("{}", s.style(Style::new().bold().cyan()))
}

/// `OwoColorize::style` with `Style::bold` and `Style::green`, displayed: the text
/// between one sequence for both, color first, and the reset sequence.
#[verifier::external_body]
pub(crate) fn bold_green(s: &str) -> (out: String)
    ensures
        out@ == painted(green(), s@),
{
    format!("{}", s.style(Style::new().bold().green()))
}

/// `OwoColorize::style` with `Style::bold` and `Style::yellow`, displayed: the text
/// between one sequence for both, color first, and the reset sequence.
#[verifier::external_body]
pub(crate) fn bold_yellow(s: &str) -> (out: String)
    ensures
        out@ == painted(yellow(), s@),
{
    format!("{}", s.style(Style::new().bold().yellow()))
}

/// `OwoColorize::style` with `Style::bold` and `Style::red`, displayed: the text
/// between one sequence for both, color first, and the reset sequence.
#[verifier::external_body]
pub(crate) fn bold_red(s: &str) -> (out: String)
    ensures
        out@ == painted(red(), s@),
{
    format!("{}", s.style(Style::new().bold().red()))
}

} // verus!
