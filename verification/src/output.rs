//! Lines that are shown to the user.

use vstd::prelude::*;

verus! {

/// One line, for the standard output or for the standard error stream.
#[derive(Debug)]
pub enum Line {
    Out(String),
    Alert(String),
}

/// The stream and the characters of a line.
pub enum LineText {
    Out(Seq<char>),
    Alert(Seq<char>),
}

impl View for Line {
    type V = LineText;

    open spec fn view(&self) -> LineText {
        match *self {
            Line::Out(s) => LineText::Out(s@),
            Line::Alert(s) => LineText::Alert(s@),
        }
    }
}

/// The stream and the characters of an optional line.
pub open spec fn opt_line(o: Option<Line>) -> Option<LineText> {
    match o {
        Some(l) => Some(l@),
        None => None,
    }
}

} // verus!
