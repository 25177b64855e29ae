//! Coloured text for the terminal, through the `colored` crate.
//!
//! Whether colours are written depends on the environment and the terminal,
//! which `colored` checks for itself; so each contract here states what holds
//! of both outcomes.

use vstd::prelude::*;

verus! {

/// The foreground colours this library writes in.
pub enum Hue {
    Red,
    Yellow,
    BrightRed,
    BrightGreen,
}

/// The parameter of the escape sequence that selects `h`.
pub open spec fn hue_code(h: Hue) -> Seq<char> {
    match h {
        Hue::Red => seq!['3', '1'],
        Hue::Yellow => seq!['3', '3'],
        Hue::BrightRed => seq!['9', '1'],
        Hue::BrightGreen => seq!['9', '2'],
    }
}

/// The escape sequence that ends a coloured span.
pub open spec fn reset_code() -> Seq<char> {
    seq!['\x1b', '[', '0', 'm']
}

/// `s` wrapped in the escape sequences that colour it with `h`.
pub open spec fn styled(s: Seq<char>, h: Hue) -> Seq<char> {
    seq!['\x1b', '['] + hue_code(h) + seq!['m'] + s + reset_code()
}

/// `s` holds the reset sequence somewhere.
pub open spec fn holds_reset(s: Seq<char>) -> bool {
    exists|i: int| 0 <= i && i + 4 <= s.len() && #[trigger] s.subrange(i, i + 4) == reset_code()
}

/// `r` is what `s` looks like when written in colour `h`: `s` itself when
/// colours are off, `s` wrapped in escape sequences when they are on. A reset
/// sequence inside `s` is re-coloured, which this does not describe.
pub open spec fn painted(r: Seq<char>, s: Seq<char>, h: Hue) -> bool {
    r == s || r == styled(s, h) || holds_reset(s)
}

/// Relies on `colored::Colorize::red` and the `Display` impl of
/// `ColoredString`.
#[verifier::external_body]
pub(crate) fn red(s: &str) -> (r: String)
    ensures
        painted(r@, s@, Hue::Red),
{
    colored::Colorize::red(s).to_string()
}

/// Relies on `colored::Colorize::yellow` and the `Display` impl of
/// `ColoredString`.
#[verifier::external_body]
pub(crate) fn yellow(s: &str) -> (r: String)
    ensures
        painted(r@, s@, Hue::Yellow),
{
    colored::Colorize::yellow(s).to_string()
}

/// Relies on `colored::Colorize::bright_red` and the `Display` impl of
/// `ColoredString`.
#[verifier::external_body]
pub(crate) fn bright_red(s: &str) -> (r: String)
    ensures
        painted(r@, s@, Hue::BrightRed),
{
    colored::Colorize::bright_red(s).to_string()
}

/// Relies on `colored::Colorize::bright_green` and the `Display` impl of
/// `ColoredString`.
#[verifier::external_body]
pub(crate) fn bright_green(s: &str) -> (r: String)
    ensures
        painted(r@, s@, Hue::BrightGreen),
{
    colored::Colorize::bright_green(s).to_string()
}

} // verus!
