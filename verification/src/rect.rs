//! A rectangle with a computed area and a legality check.

use vstd::prelude::*;

verus! {

/// A rectangle given by its side lengths.
#[derive(Debug)]
pub struct Rect {
    pub width: u32,
    pub height: u32,
}

impl Rect {
    /// The area of the rectangle.
    pub fn area(&self) -> (a: u32)
        requires
            self.width as int * self.height as int <= u32::MAX as int,
        ensures
            a as int == self.width as int * self.height as int,
    {
        self.width * self.height
    }

    /// A rectangle is legal when both sides are positive.
    pub fn is_legal(&self) -> (r: bool)
        ensures
            r == (self.width > 0 && self.height > 0),
    {
        self.width > 0 && self.height > 0
    }
}

} // verus!
