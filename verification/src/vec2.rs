//! Two-dimensional integer offsets and positions.

use vstd::prelude::*;
use vstd::std_specs::ops::AddSpecImpl;

verus! {

/// An offset or a position on the playfield, in cells.
#[derive(Copy, Clone, Debug, PartialEq, Eq, Structural)]
pub struct Vec2 {
    pub x: i8,
    pub y: i8,
}

impl Vec2 {
    pub fn new(x: i8, y: i8) -> (v: Vec2)
        ensures
            v == (Vec2 { x, y }),
    {
        Vec2 { x, y }
    }

    /// The vector with the given components, where both fit in `i8`.
    pub open spec fn at(x: int, y: int) -> Vec2 {
        Vec2 { x: x as i8, y: y as i8 }
    }

    /// The component-wise sum, where both components fit in `i8`.
    pub open spec fn sum(self, rhs: Vec2) -> Vec2 {
        Vec2 { x: (self.x + rhs.x) as i8, y: (self.y + rhs.y) as i8 }
    }

    /// Both components of the sum fit in `i8`.
    pub open spec fn sum_fits(self, rhs: Vec2) -> bool {
        &&& i8::MIN <= self.x + rhs.x <= i8::MAX
        &&& i8::MIN <= self.y + rhs.y <= i8::MAX
    }
}

impl Default for Vec2 {
    fn default() -> (v: Vec2)
        ensures
            v == (Vec2 { x: 0, y: 0 }),
    {
        Vec2 { x: 0, y: 0 }
    }
}

impl core::ops::Add for Vec2 {
    type Output = Vec2;

    fn add(self, rhs: Vec2) -> (v: Vec2) {
        Vec2 { x: self.x + rhs.x, y: self.y + rhs.y }
    }
}

impl AddSpecImpl for Vec2 {
    open spec fn obeys_add_spec() -> bool {
        true
    }

    open spec fn add_req(self, rhs: Vec2) -> bool {
        self.sum_fits(rhs)
    }

    open spec fn add_spec(self, rhs: Vec2) -> Vec2 {
        self.sum(rhs)
    }
}

} // verus!
