//! Trusted boundary to the `colored` crate, which decorates plain text with
//! ANSI escapes. A `StyledText` carries the decorated value beside the plain
//! characters it was built from, and whether any decoration has been
//! requested; the trusted functions below keep the two in step. What the
//! decorated text looks like depends on the process environment (whether
//! colours are enabled at all), so rendering promises only what holds of
//! every outcome: an undecorated value spells out exactly its text, and the
//! text's characters always stand in the result, in order — the backend only
//! wraps and re-styles, never drops or reorders them.

use vstd::prelude::*;

use crate::text::is_subseq_of;

verus! {

#[verifier::external_type_specification]
#[verifier::external_body]
pub struct ExColoredString(colored::ColoredString);

/// A plain text beside its decorated form.
pub struct StyledText {
    inner: colored::ColoredString,
    text: Vec<char>,
    plain: bool,
}

/// The plain characters a `StyledText` was built from.
pub closed spec fn text_of(s: StyledText) -> Seq<char> {
    s.text@
}

/// Whether no decoration has been requested of the backend yet.
pub closed spec fn undecorated(s: StyledText) -> bool {
    s.plain
}

/// Relies on `colored::Colorize::normal` for `&str`: a cleared style around
/// exactly the given text.
#[verifier::external_body]
pub(crate) fn st_new(text: Vec<char>) -> (r: StyledText)
    ensures
        text_of(r) == text@,
        undecorated(r),
{
    let s: String = text.iter().collect();
    let inner = colored::Colorize::normal(s.as_str());
    StyledText { inner, text, plain: true }
}

/// Relies on `colored::Colorize::bold`: adds the bold attribute and keeps
/// the text.
#[verifier::external_body]
pub(crate) fn st_bold(s: StyledText) -> (r: StyledText)
    ensures
        text_of(r) == text_of(s),
        !undecorated(r),
{
    StyledText { inner: colored::Colorize::bold(s.inner), text: s.text, plain: false }
}

/// Relies on `colored::Colorize::underline`: adds the underline attribute
/// and keeps the text.
#[verifier::external_body]
pub(crate) fn st_underline(s: StyledText) -> (r: StyledText)
    ensures
        text_of(r) == text_of(s),
        !undecorated(r),
{
    StyledText { inner: colored::Colorize::underline(s.inner), text: s.text, plain: false }
}

/// Relies on `colored::Colorize::italic`: adds the italic attribute and
/// keeps the text.
#[verifier::external_body]
pub(crate) fn st_italic(s: StyledText) -> (r: StyledText)
    ensures
        text_of(r) == text_of(s),
        !undecorated(r),
{
    StyledText { inner: colored::Colorize::italic(s.inner), text: s.text, plain: false }
}

/// Relies on `colored::Colorize::dimmed`: adds the dimmed attribute and
/// keeps the text.
#[verifier::external_body]
pub(crate) fn st_dimmed(s: StyledText) -> (r: StyledText)
    ensures
        text_of(r) == text_of(s),
        !undecorated(r),
{
    StyledText { inner: colored::Colorize::dimmed(s.inner), text: s.text, plain: false }
}

/// Relies on `colored::Colorize::reversed`: adds the reversed attribute and
/// keeps the text.
#[verifier::external_body]
pub(crate) fn st_reversed(s: StyledText) -> (r: StyledText)
    ensures
        text_of(r) == text_of(s),
        !undecorated(r),
{
    StyledText { inner: colored::Colorize::reversed(s.inner), text: s.text, plain: false }
}

/// Relies on `colored::Colorize::blink`: adds the blink attribute and keeps
/// the text.
#[verifier::external_body]
pub(crate) fn st_blink(s: StyledText) -> (r: StyledText)
    ensures
        text_of(r) == text_of(s),
        !undecorated(r),
{
    StyledText { inner: colored::Colorize::blink(s.inner), text: s.text, plain: false }
}

/// Relies on `colored::Colorize::hidden`: adds the hidden attribute and
/// keeps the text.
#[verifier::external_body]
pub(crate) fn st_hidden(s: StyledText) -> (r: StyledText)
    ensures
        text_of(r) == text_of(s),
        !undecorated(r),
{
    StyledText { inner: colored::Colorize::hidden(s.inner), text: s.text, plain: false }
}

/// Relies on `colored::Colorize::strikethrough`: adds the strikethrough
/// attribute and keeps the text.
#[verifier::external_body]
pub(crate) fn st_strikethrough(s: StyledText) -> (r: StyledText)
    ensures
        text_of(r) == text_of(s),
        !undecorated(r),
{
    StyledText { inner: colored::Colorize::strikethrough(s.inner), text: s.text, plain: false }
}

/// Relies on `colored::Colorize::color`, with a colour name that
/// `colored::Color`'s `From<&str>` recognises: sets the foreground colour
/// (overwriting any earlier one) and keeps the text.
#[verifier::external_body]
pub(crate) fn st_fg(s: StyledText, name: &str) -> (r: StyledText)
    ensures
        text_of(r) == text_of(s),
        !undecorated(r),
{
    StyledText { inner: colored::Colorize::color(s.inner, name), text: s.text, plain: false }
}

/// Relies on `colored::Colorize::on_color`, with a colour name that
/// `colored::Color`'s `From<&str>` recognises: sets the background colour
/// (overwriting any earlier one) and keeps the text.
#[verifier::external_body]
pub(crate) fn st_bg(s: StyledText, name: &str) -> (r: StyledText)
    ensures
        text_of(r) == text_of(s),
        !undecorated(r),
{
    StyledText { inner: colored::Colorize::on_color(s.inner, name), text: s.text, plain: false }
}

/// Relies on `colored::ColoredString`'s `Display`: an undecorated value (and
/// any value when the environment disables colours) spells out exactly its
/// text; a decorated one wraps the text in an ANSI style prefix and a reset,
/// re-styling after any reset sequences inside the text — insertions only,
/// so the text's characters stand in the result in order.
#[verifier::external_body]
pub(crate) fn st_render(s: &StyledText) -> (r: String)
    ensures
        undecorated(*s) ==> r@ == text_of(*s),
        is_subseq_of(text_of(*s), r@),
{
    s.inner.to_string()
}

} // verus!
