//! Colours for what is shown.

use vstd::prelude::*;

verus! {

/// The colours in use.
#[derive(Debug, Clone, Copy, PartialEq, Eq, Structural)]
pub enum Colour {
    Green,
    Yellow,
    Red,
}

impl Colour {
    /// The code that switches the colour on.
    pub open spec fn code(self) -> Seq<char> {
        match self {
            Colour::Green => "\x1b[32m"@,
            Colour::Yellow => "\x1b[33m"@,
            Colour::Red => "\x1b[31m"@,
        }
    }
}

/// Either the text itself or, where colours are on, the text between the code of a colour and the
/// code that ends it.
pub open spec fn is_coloured(text: Seq<char>, colour: Colour, r: Seq<char>) -> bool {
    r == text || r == colour.code() + text + "\x1b[0m"@
}

/// `console::style` with `green`, `yellow` or `red`, as text. Whether colours are on depends on the
/// terminal and the environment, and is left open.
#[verifier::external_body]
fn paint(text: &str, colour: Colour) -> (r: String)
    ensures
        is_coloured(text@, colour, r@),
{
    match colour {
        Colour::Green => console::style(text).green().to_string(),
        Colour::Yellow => console::style(text).yellow().to_string(),
        Colour::Red => console::style(text).red().to_string(),
    }
}

/// Green: a step succeeded.
pub fn ok(text: &str) -> (r: String)
    ensures
        is_coloured(text@, Colour::Green, r@),
{
    paint(text, Colour::Green)
}

/// Amber: worth noticing, not a failure.
pub fn warn(text: &str) -> (r: String)
    ensures
        is_coloured(text@, Colour::Yellow, r@),
{
    paint(text, Colour::Yellow)
}

/// Red: a step failed.
pub fn err(text: &str) -> (r: String)
    ensures
        is_coloured(text@, Colour::Red, r@),
{
    paint(text, Colour::Red)
}

} // verus!
