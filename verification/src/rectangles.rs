//! Axis-aligned rectangles with width, height, area and containment.

use vstd::prelude::*;

verus! {

/// A rectangle given by its side lengths.
#[derive(Debug, Clone, Copy)]
pub struct Rectangle {
    pub width: u32,
    pub height: u32,
}

impl Rectangle {
    /// The rectangle's area.
    pub fn area(&self) -> (a: u32)
        requires
            self.width * self.height <= u32::MAX,
        ensures
            a == self.width * self.height,
    {
        self.width * self.height
    }

    /// Whether the rectangle has any width at all.
    pub fn width(&self) -> (b: bool)
        ensures
            b == (self.width > 0),
    {
        self.width > 0
    }

    /// Whether `other` fits strictly inside this rectangle, in either
    /// orientation.
    pub fn can_hold(&self, other: &Rectangle) -> (b: bool)
        ensures
            b == ((self.width > other.width && self.height > other.height) || (self.width
                > other.height && self.height > other.width)),
    {
        (self.width > other.width && self.height > other.height) || (self.width > other.height
            && self.height > other.width)
    }

    /// A square with the given side length.
    pub fn square(size: u32) -> (r: Rectangle)
        ensures
            r.width == size,
            r.height == size,
    {
        Rectangle { width: size, height: size }
    }
}

} // verus!
