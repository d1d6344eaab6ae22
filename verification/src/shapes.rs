//! The shapes of the overlays: what a renderer is to draw, as plain numbers.

use crate::vector::Point2;
use vstd::prelude::*;

verus! {

/// A colour, by its red, green and blue parts.
#[derive(Clone, Copy, Debug, PartialEq, Eq, Structural)]
pub struct Colour {
    pub red: u8,
    pub green: u8,
    pub blue: u8,
}

/// A shape of the plane, in fixed-point coordinates.
#[derive(Clone, Copy, Debug, PartialEq, Eq, Structural)]
pub enum Shape {
    /// The outline of a circle.
    Ring { centre: Point2, radius: i64 },
    /// A filled circle.
    Disc { centre: Point2, radius: i64 },
    /// A straight line.
    Line { from: Point2, to: Point2 },
}

/// A shape in a colour.
#[derive(Clone, Copy, Debug, PartialEq, Eq, Structural)]
pub struct Mark {
    pub shape: Shape,
    pub colour: Colour,
}

/// Red.
pub open spec fn red() -> Colour {
    Colour { red: 255, green: 0, blue: 0 }
}

/// Green.
pub open spec fn green() -> Colour {
    Colour { red: 0, green: 255, blue: 0 }
}

/// Blue.
pub open spec fn blue() -> Colour {
    Colour { red: 0, green: 0, blue: 255 }
}

/// Yellow.
pub open spec fn yellow() -> Colour {
    Colour { red: 255, green: 255, blue: 0 }
}

} // verus!
