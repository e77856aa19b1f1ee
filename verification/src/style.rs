//! Colored terminal text, as the `colored` crate writes it.

use vstd::prelude::*;

use colored::Colorize;

verus! {

/// The escape sequence that ends a colored span.
pub open spec fn ansi_reset() -> Seq<char> {
    seq!['\u{1b}', '[', '0', 'm']
}

/// The escape sequence that starts a span with the SGR code `code`.
pub open spec fn ansi_open(code: Seq<char>) -> Seq<char> {
    seq!['\u{1b}', '['] + code + seq!['m']
}

/// What the `colored` crate makes of the text `s` with style `code`:
/// either `s` itself (when coloring is off for this process) or `s`
/// wrapped in the style's escape sequences; when `s` holds no reset
/// sequence of its own, it stands unchanged between them.
pub open spec fn styled(r: Seq<char>, s: Seq<char>, code: Seq<char>) -> bool {
    ||| r == s
    ||| {
        &&& crate::tags::starts_with(r, ansi_open(code))
        &&& r.len() >= ansi_open(code).len() + ansi_reset().len()
        &&& r.skip(r.len() - ansi_reset().len()) == ansi_reset()
        &&& (!crate::text::contains_text(s, ansi_reset()) ==> r == ansi_open(code) + s + ansi_reset())
    }
}

/// The SGR code of dim text.
pub open spec fn dim_code() -> Seq<char> {
    seq!['2']
}

/// The SGR code of cyan text.
pub open spec fn cyan_code() -> Seq<char> {
    seq!['3', '6']
}

/// The SGR code of green text.
pub open spec fn green_code() -> Seq<char> {
    seq!['3', '2']
}

/// The SGR code of red text.
pub open spec fn red_code() -> Seq<char> {
    seq!['3', '1']
}

/// `colored::Colorize::dimmed` followed by `to_string`. Whether escape
/// sequences are written depends on the environment and the terminal, so
/// only the two possible forms are stated.
#[verifier::external_body]
pub(crate) fn dimmed(s: &str) -> (r: String)
    ensures
        styled(r@, s@, dim_code()),
{
    s.dimmed().to_string()
}

/// `colored::Colorize::cyan` followed by `to_string`. Whether escape
/// sequences are written depends on the environment and the terminal, so
/// only the two possible forms are stated.
#[verifier::external_body]
pub(crate) fn cyan(s: &str) -> (r: String)
    ensures
        styled(r@, s@, cyan_code()),
{
    s.cyan().to_string()
}

/// `colored::Colorize::green` followed by `to_string`. Whether escape
/// sequences are written depends on the environment and the terminal, so
/// only the two possible forms are stated.
#[verifier::external_body]
pub(crate) fn green(s: &str) -> (r: String)
    ensures
        styled(r@, s@, green_code()),
{
    s.green().to_string()
}

/// `colored::Colorize::red` followed by `to_string`. Whether escape
/// sequences are written depends on the environment and the terminal, so
/// only the two possible forms are stated.
#[verifier::external_body]
pub(crate) fn red(s: &str) -> (r: String)
    ensures
        styled(r@, s@, red_code()),
{
    s.red().to_string()
}

} // verus!
