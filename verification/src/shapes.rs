use vstd::prelude::*;

verus! {

/// An axis-aligned rectangle, measured in whole units.
#[derive(Debug)]
pub struct Rectangle {
    pub width: u64,
    pub height: u64,
}

impl Rectangle {
    /// The area is width times height.
    pub fn area(&self) -> (a: u64)
        requires
            self.width * self.height <= u64::MAX,
        ensures
            a == self.width * self.height,
    {
        self.width * self.height
    }

    /// Whether `other` fits strictly inside `self` in both dimensions.
    pub fn can_hold(&self, other: &Rectangle) -> (r: bool)
        ensures
            r == (self.width > other.width && self.height > other.height),
    {
        self.width > other.width && self.height > other.height
    }

    /// A square of the given side length.
    pub fn square(size: u64) -> (r: Rectangle)
        ensures
            r.width == size,
            r.height == size,
    {
        Rectangle { width: size, height: size }
    }
}

} // verus!
