//! Terminal styling through `console`. Each function styles a text one
//! way; whether escape codes are written is passed in, so the result is a
//! function of the arguments alone. With styling forced on, `Display`
//! writes the code of the colour, then that of the attribute, the text and
//! the reset code; with styling off the text comes back unchanged.

use vstd::prelude::*;

verus! {

/// Calls `console::colors_enabled`: whether colours are on for standard
/// output. It depends on the terminal and the environment, so nothing is
/// stated of the result.
#[verifier::external_body]
pub(crate) fn colors_enabled() -> (r: bool) {
    console::colors_enabled()
}

/// What `console::style(text).green().bold().force_styling(colored)` displays.
pub open spec fn console_green_bold(text: Seq<char>, colored: bool) -> Seq<char> {
    if colored { "\u{1b}[32m\u{1b}[1m"@ + text + "\u{1b}[0m"@ } else { text }
}

/// Calls `console::style` on the text, makes it green and bold, forces styling on or
/// off, and displays it.
#[verifier::external_body]
pub(crate) fn style_green_bold(text: &str, colored: bool) -> (r: String)
    ensures
        r@ == console_green_bold(text@, colored),
        !colored ==> r@ == text@,
{
    console::style(text).green().bold().force_styling(colored).to_string()
}

/// What `console::style(text).red().bold().force_styling(colored)` displays.
pub open spec fn console_red_bold(text: Seq<char>, colored: bool) -> Seq<char> {
    if colored { "\u{1b}[31m\u{1b}[1m"@ + text + "\u{1b}[0m"@ } else { text }
}

/// Calls `console::style` on the text, makes it red and bold, forces styling on or
/// off, and displays it.
#[verifier::external_body]
pub(crate) fn style_red_bold(text: &str, colored: bool) -> (r: String)
    ensures
        r@ == console_red_bold(text@, colored),
        !colored ==> r@ == text@,
{
    console::style(text).red().bold().force_styling(colored).to_string()
}

/// What `console::style(text).yellow().force_styling(colored)` displays.
pub open spec fn console_yellow(text: Seq<char>, colored: bool) -> Seq<char> {
    if colored { "\u{1b}[33m"@ + text + "\u{1b}[0m"@ } else { text }
}

/// Calls `console::style` on the text, makes it yellow, forces styling on or
/// off, and displays it.
#[verifier::external_body]
pub(crate) fn style_yellow(text: &str, colored: bool) -> (r: String)
    ensures
        r@ == console_yellow(text@, colored),
        !colored ==> r@ == text@,
{
    console::style(text).yellow().force_styling(colored).to_string()
}

/// What `console::style(text).blue().force_styling(colored)` displays.
pub open spec fn console_blue(text: Seq<char>, colored: bool) -> Seq<char> {
    if colored { "\u{1b}[34m"@ + text + "\u{1b}[0m"@ } else { text }
}

/// Calls `console::style` on the text, makes it blue, forces styling on or
/// off, and displays it.
#[verifier::external_body]
pub(crate) fn style_blue(text: &str, colored: bool) -> (r: String)
    ensures
        r@ == console_blue(text@, colored),
        !colored ==> r@ == text@,
{
    console::style(text).blue().force_styling(colored).to_string()
}

/// What `console::style(text).cyan().force_styling(colored)` displays.
pub open spec fn console_cyan(text: Seq<char>, colored: bool) -> Seq<char> {
    if colored { "\u{1b}[36m"@ + text + "\u{1b}[0m"@ } else { text }
}

/// Calls `console::style` on the text, makes it cyan, forces styling on or
/// off, and displays it.
#[verifier::external_body]
pub(crate) fn style_cyan(text: &str, colored: bool) -> (r: String)
    ensures
        r@ == console_cyan(text@, colored),
        !colored ==> r@ == text@,
{
    console::style(text).cyan().force_styling(colored).to_string()
}

/// What `console::style(text).dim().force_styling(colored)` displays.
pub open spec fn console_dim(text: Seq<char>, colored: bool) -> Seq<char> {
    if colored { "\u{1b}[2m"@ + text + "\u{1b}[0m"@ } else { text }
}

/// Calls `console::style` on the text, makes it dimmed, forces styling on or
/// off, and displays it.
#[verifier::external_body]
pub(crate) fn style_dim(text: &str, colored: bool) -> (r: String)
    ensures
        r@ == console_dim(text@, colored),
        !colored ==> r@ == text@,
{
    console::style(text).dim().force_styling(colored).to_string()
}

/// What `console::style(text).bold().force_styling(colored)` displays.
pub open spec fn console_bold(text: Seq<char>, colored: bool) -> Seq<char> {
    if colored { "\u{1b}[1m"@ + text + "\u{1b}[0m"@ } else { text }
}

/// Calls `console::style` on the text, makes it bold, forces styling on or
/// off, and displays it.
#[verifier::external_body]
pub(crate) fn style_bold(text: &str, colored: bool) -> (r: String)
    ensures
        r@ == console_bold(text@, colored),
        !colored ==> r@ == text@,
{
    console::style(text).bold().force_styling(colored).to_string()
}

} // verus!
