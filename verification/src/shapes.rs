//! Rectangles: their area, and whether one holds another.

use vstd::prelude::*;

verus! {

/// A rectangle with sides of whole length.
#[derive(Clone, Copy, PartialEq, Eq, Debug, Structural)]
pub struct Rectangle {
    pub width: u32,
    pub height: u32,
}

impl Rectangle {
    /// The area as a number without bound.
    pub open spec fn spec_area(&self) -> int {
        self.width * self.height
    }

    /// The square with sides of length `size`.
    pub fn square(size: u32) -> (r: Rectangle)
        ensures
            r == (Rectangle { width: size, height: size }),
    {
        Rectangle { width: size, height: size }
    }

    /// The area of the rectangle, where it fits the result's type.
    pub fn area(&self) -> (a: u32)
        requires
            self.spec_area() <= u32::MAX,
        ensures
            a == self.spec_area(),
    {
        self.width * self.height
    }

    /// Whether `other` fits into this rectangle: it is neither wider nor
    /// higher.
    pub fn can_hold(&self, other: &Rectangle) -> (fits: bool)
        ensures
            fits == (self.width >= other.width && self.height >= other.height),
    {
        self.width >= other.width && self.height >= other.height
    }
}

/// The area of `rect`, where it fits the result's type.
pub fn rect_area(rect: &Rectangle) -> (a: u32)
    requires
        rect.spec_area() <= u32::MAX,
    ensures
        a == rect.spec_area(),
{
    rect.width * rect.height
}

} // verus!
