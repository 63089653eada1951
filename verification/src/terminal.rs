//! The terminal dimensions the editor renders into.
//!
//! The library never talks to a terminal itself: the driver outside the
//! library measures the screen and hands the dimensions in as plain values.

use vstd::prelude::*;

verus! {

/// A terminal extent in character cells.
#[derive(Clone, Copy, Debug, PartialEq, Eq, Structural)]
pub struct Size {
    pub columns: u16,
    pub rows: u16,
}

/// The render target: a fixed text area of `columns` by `rows` cells, with
/// two screen rows already set aside below it for the status bar area.
pub struct Terminal {
    size: Size,
}

impl Terminal {
    /// The text area of the terminal.
    pub closed spec fn spec_size(self) -> Size {
        self.size
    }

    /// Builds the render target from measured screen dimensions, reserving
    /// two rows at the bottom of the screen.
    pub fn from_screen(columns: u16, rows: u16) -> (t: Terminal)
        ensures
            t.spec_size().columns == columns,
            t.spec_size().rows == if rows >= 2 {
                rows - 2
            } else {
                0
            },
    {
        Terminal {
            size: Size {
                columns,
                rows: if rows >= 2 {
                    rows - 2
                } else {
                    0
                },
            },
        }
    }

    /// The text area's dimensions.
    pub fn size(&self) -> (s: &Size)
        ensures
            *s == self.spec_size(),
    {
        &self.size
    }
}

} // verus!
