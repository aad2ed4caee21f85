//! The status display as the tasks see it: a device that takes short
//! texts, each on a row of its own, and where each text goes on its glass.

use vstd::prelude::*;

verus! {

/// The height of a text row in pixels.
pub const ROW_HEIGHT: i32 = 8;

/// The rightmost pixel column of the display.
pub const LAST_COLUMN: i32 = 127;

/// The highest row number whose pixels can still be counted in 32 bits.
pub const MAX_ROW: i32 = 268_435_454;

/// The lowest row number whose pixels can still be counted in 32 bits.
pub const MIN_ROW: i32 = -268_435_456;

/// A device that shows short texts.
pub trait Console {
    /// Shows `t`. With a row given, that row is cleared first and the text
    /// drawn on it; without one, the text is drawn at the top over what is
    /// there.
    fn write(&mut self, t: &str, line: Option<i32>);
}

/// A rectangle of pixels, given by two opposite corners, both inside it.
#[derive(Clone, Copy, Debug, PartialEq, Eq, Structural)]
pub struct Region {
    pub left: i32,
    pub top: i32,
    pub right: i32,
    pub bottom: i32,
}

/// Where a text goes: the region to blank first, if any, and the top left
/// corner of the text.
#[derive(Clone, Copy, Debug, PartialEq, Eq, Structural)]
pub struct Placement {
    pub clear: Option<Region>,
    pub x: i32,
    pub y: i32,
}

/// A text and the row it is shown on.
pub struct DisplayLine {
    pub row: i32,
    pub text: String,
}

/// Whether the pixels of row `line` can be counted in 32 bits.
pub open spec fn row_fits(line: Option<i32>) -> bool {
    line matches Some(l) ==> MIN_ROW <= l <= MAX_ROW
}

/// Where a text for `line` goes. A given row is blanked over the full width
/// and its own eight pixel rows, and no others; without a row nothing is
/// blanked and the text starts at the top left corner.
pub open spec fn placement(line: Option<i32>) -> Placement {
    match line {
        Some(l) => Placement {
            clear: Some(Region { left: 0, top: (l * 8) as i32, right: 127, bottom: (l * 8 + 7) as i32 }),
            x: 0,
            y: (l * 8) as i32,
        },
        None => Placement { clear: None, x: 0, y: 0 },
    }
}

/// Where a text for `line` goes.
pub fn place_line(line: Option<i32>) -> (p: Placement)
    requires
        row_fits(line),
    ensures
        p == placement(line),
{
    match line {
        Some(l) => {
            let y: i32 = l * ROW_HEIGHT;
            Placement {
                clear: Some(Region { left: 0, top: y, right: LAST_COLUMN, bottom: y + (ROW_HEIGHT - 1) }),
                x: 0,
                y,
            }
        },
        None => Placement { clear: None, x: 0, y: 0 },
    }
}

} // verus!
