//! Points of the plane with coordinates of one numeric type.

use std::ops::{Add, Sub};
use vstd::prelude::*;
use vstd::std_specs::ops::{AddSpec, SubSpec};

verus! {

/// A point, or a vector, given by its two coordinates.
#[derive(Debug, Copy, Clone, PartialEq, Eq, Structural)]
pub struct Point<T> {
    pub x: T,
    pub y: T,
}

impl<T> Point<T> {
    /// Makes the point with the coordinates `x` and `y`.
    pub fn from_coords(x: T, y: T) -> (p: Self)
        ensures
            p.x == x,
            p.y == y,
    {
        Point { x, y }
    }
}

impl<T: Add<Output = T>> Add for Point<T> {
    type Output = Point<T>;

    /// Adds coordinate by coordinate. Defined where the sum of each pair of
    /// coordinates is: for integers, where neither overflows.
    fn add(self, p: Point<T>) -> (r: Point<T>) {
        Point { x: self.x + p.x, y: self.y + p.y }
    }
}

impl<T: Add<Output = T>> vstd::std_specs::ops::AddSpecImpl for Point<T> {
    open spec fn obeys_add_spec() -> bool {
        T::obeys_add_spec()
    }

    open spec fn add_req(self, p: Point<T>) -> bool {
        self.x.add_req(p.x) && self.y.add_req(p.y)
    }

    open spec fn add_spec(self, p: Point<T>) -> Point<T> {
        Point { x: self.x.add_spec(p.x), y: self.y.add_spec(p.y) }
    }
}

impl<T: Sub<Output = T>> Sub for Point<T> {
    type Output = Point<T>;

    /// Subtracts coordinate by coordinate. Defined where the difference of
    /// each pair of coordinates is: for integers, where neither overflows.
    fn sub(self, p: Point<T>) -> (r: Point<T>) {
        Point { x: self.x - p.x, y: self.y - p.y }
    }
}

impl<T: Sub<Output = T>> vstd::std_specs::ops::SubSpecImpl for Point<T> {
    open spec fn obeys_sub_spec() -> bool {
        T::obeys_sub_spec()
    }

    open spec fn sub_req(self, p: Point<T>) -> bool {
        self.x.sub_req(p.x) && self.y.sub_req(p.y)
    }

    open spec fn sub_spec(self, p: Point<T>) -> Point<T> {
        Point { x: self.x.sub_spec(p.x), y: self.y.sub_spec(p.y) }
    }
}

} // verus!
