//! The atomic unit of display state: a character together with its style.
use vstd::prelude::*;

verus! {

/// An RGB colour triple.
#[derive(Debug, Clone, Copy, PartialEq, Eq, Structural)]
pub struct Rgb {
    pub r: u8,
    pub g: u8,
    pub b: u8,
}

impl Rgb {
    /// The colour with the given components.
    pub fn new(r: u8, g: u8, b: u8) -> (c: Rgb)
        ensures
            c == (Rgb { r, g, b }),
    {
        Rgb { r, g, b }
    }
}

/// The default foreground: a light grey.
pub open spec fn spec_default_foreground() -> Rgb {
    Rgb { r: 200, g: 200, b: 200 }
}

/// The default background: black.
pub open spec fn spec_default_background() -> Rgb {
    Rgb { r: 0, g: 0, b: 0 }
}

/// One cell of the screen grid: a character plus its style attributes.
#[derive(Debug, Clone, Copy, PartialEq, Eq, Structural)]
pub struct TerminalCell {
    pub character: char,
    pub foreground_color: Rgb,
    pub background_color: Rgb,
    pub bold: bool,
    pub italic: bool,
    pub underline: bool,
}

/// The default cell: a space on the default foreground and background with
/// no attributes set.
pub open spec fn spec_default_cell() -> TerminalCell {
    TerminalCell {
        character: ' ',
        foreground_color: spec_default_foreground(),
        background_color: spec_default_background(),
        bold: false,
        italic: false,
        underline: false,
    }
}

impl Default for TerminalCell {
    fn default() -> (c: TerminalCell)
        ensures
            c == spec_default_cell(),
    {
        TerminalCell {
            character: ' ',
            foreground_color: Rgb { r: 200, g: 200, b: 200 },
            background_color: Rgb { r: 0, g: 0, b: 0 },
            bold: false,
            italic: false,
            underline: false,
        }
    }
}

} // verus!
