use vstd::prelude::*;

verus! {

/// A pair of signed 32-bit coordinates.
#[derive(Clone, Copy, Debug, PartialEq, Eq, Structural)]
pub struct IVec2 {
    pub x: i32,
    pub y: i32,
}

/// Whether `v` fits in an `i32`.
pub open spec fn fits_i32(v: int) -> bool {
    i32::MIN <= v <= i32::MAX
}

impl IVec2 {
    pub fn new(x: i32, y: i32) -> (r: Self)
        ensures
            r.x == x,
            r.y == y,
    {
        IVec2 { x, y }
    }

    /// Component-wise sum; both components must fit in an `i32`.
    pub fn plus(self, other: IVec2) -> (r: Self)
        requires
            fits_i32(self.x + other.x),
            fits_i32(self.y + other.y),
        ensures
            r.x == self.x + other.x,
            r.y == self.y + other.y,
    {
        IVec2 { x: self.x + other.x, y: self.y + other.y }
    }

    /// Component-wise difference; both components must fit in an `i32`.
    pub fn minus(self, other: IVec2) -> (r: Self)
        requires
            fits_i32(self.x - other.x),
            fits_i32(self.y - other.y),
        ensures
            r.x == self.x - other.x,
            r.y == self.y - other.y,
    {
        IVec2 { x: self.x - other.x, y: self.y - other.y }
    }
}

} // verus!
