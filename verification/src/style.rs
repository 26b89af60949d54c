//! Severity styling: ANSI escape sequences for color-capable sinks.
//!
//! Width computation never sees these sequences: the table model measures
//! plain labels only and wraps them in a prefix and a reset suffix, so a
//! plain sink gets the same alignment with both left empty.

use vstd::prelude::*;

verus! {

use crate::types::CheckResult;

/// The SGR sequence that turns on bold.
pub open spec fn bold_seq() -> Seq<char> {
    seq!['\u{1b}', '[', '1', 'm']
}

/// The SGR sequence that resets all styling.
pub open spec fn reset_seq() -> Seq<char> {
    seq!['\u{1b}', '[', '0', 'm']
}

/// The SGR sequence for a green foreground.
pub open spec fn green_seq() -> Seq<char> {
    seq!['\u{1b}', '[', '3', '2', 'm']
}

/// The SGR sequence for a yellow foreground.
pub open spec fn yellow_seq() -> Seq<char> {
    seq!['\u{1b}', '[', '3', '3', 'm']
}

/// The SGR sequence for a red foreground.
pub open spec fn red_seq() -> Seq<char> {
    seq!['\u{1b}', '[', '3', '1', 'm']
}

/// The style prefix of a severity: `Ok` and `Info` share the nominal green,
/// `Warning` is yellow, `Error` and `Fatal` share the severe red.
pub open spec fn style_prefix(s: CheckResult) -> Seq<char> {
    match s {
        CheckResult::Okay => green_seq(),
        CheckResult::Info => green_seq(),
        CheckResult::Warning => yellow_seq(),
        CheckResult::Error => red_seq(),
        CheckResult::Fatal => red_seq(),
    }
}

/// No styling sequence holds a line break, and each is at most five long.
pub proof fn lemma_style_seq_props(s: CheckResult)
    ensures
        forall|i: int| 0 <= i < bold_seq().len() ==> bold_seq()[i] != '\n',
        forall|i: int| 0 <= i < reset_seq().len() ==> reset_seq()[i] != '\n',
        forall|i: int| 0 <= i < style_prefix(s).len() ==> style_prefix(s)[i] != '\n',
{
}

/// Relies on anstyle's `Effects::BOLD.render()`: the bold SGR sequence.
#[verifier::external_body]
pub(crate) fn render_bold() -> (r: String)
    ensures
        r@ == bold_seq(),
{
    anstyle::Effects::BOLD.render().to_string()
}

/// Relies on anstyle's `Reset.render()`: the SGR sequence resetting styling.
#[verifier::external_body]
pub(crate) fn render_reset() -> (r: String)
    ensures
        r@ == reset_seq(),
{
    anstyle::Reset.render().to_string()
}

/// Relies on anstyle's `Style::render()` for a green-foreground style.
#[verifier::external_body]
pub(crate) fn render_green() -> (r: String)
    ensures
        r@ == green_seq(),
{
    anstyle::AnsiColor::Green.on_default().render().to_string()
}

/// Relies on anstyle's `Style::render()` for a yellow-foreground style.
#[verifier::external_body]
pub(crate) fn render_yellow() -> (r: String)
    ensures
        r@ == yellow_seq(),
{
    anstyle::AnsiColor::Yellow.on_default().render().to_string()
}

/// Relies on anstyle's `Style::render()` for a red-foreground style.
#[verifier::external_body]
pub(crate) fn render_red() -> (r: String)
    ensures
        r@ == red_seq(),
{
    anstyle::AnsiColor::Red.on_default().render().to_string()
}

/// The style prefix of a severity, as written to a color-capable sink.
pub(crate) fn style_prefix_string(s: CheckResult) -> (r: String)
    ensures
        r@ == style_prefix(s),
{
    match s {
        CheckResult::Okay => render_green(),
        CheckResult::Info => render_green(),
        CheckResult::Warning => render_yellow(),
        CheckResult::Error => render_red(),
        CheckResult::Fatal => render_red(),
    }
}

} // verus!
