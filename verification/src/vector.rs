use vstd::prelude::*;

verus! {

/// A point of the integer lattice in space, with unbounded coordinates.
pub struct Point3 {
    pub x: int,
    pub y: int,
    pub z: int,
}

/// A point of the integer lattice in the plane, with unbounded coordinates.
pub struct Point2 {
    pub x: int,
    pub y: int,
}

/// Whether `v` can be stored in an `i32`.
pub open spec fn fits_i32(v: int) -> bool {
    i32::MIN <= v <= i32::MAX
}

impl Point3 {
    pub open spec fn plus(self, other: Point3) -> Point3 {
        Point3 { x: self.x + other.x, y: self.y + other.y, z: self.z + other.z }
    }

    pub open spec fn dot(self, other: Point3) -> int {
        self.x * other.x + self.y * other.y + self.z * other.z
    }

    /// Every coordinate can be stored in an `i32`.
    pub open spec fn fits(self) -> bool {
        fits_i32(self.x) && fits_i32(self.y) && fits_i32(self.z)
    }
}

/// A vector of three machine integers.
#[derive(Clone, Copy, Debug, PartialEq, Eq, Structural)]
pub struct IVec3 {
    pub x: i32,
    pub y: i32,
    pub z: i32,
}

/// A vector of two machine integers.
#[derive(Clone, Copy, Debug, PartialEq, Eq, Structural)]
pub struct IVec2 {
    pub x: i32,
    pub y: i32,
}

impl View for IVec3 {
    type V = Point3;

    open spec fn view(&self) -> Point3 {
        Point3 { x: self.x as int, y: self.y as int, z: self.z as int }
    }
}

impl View for IVec2 {
    type V = Point2;

    open spec fn view(&self) -> Point2 {
        Point2 { x: self.x as int, y: self.y as int }
    }
}

impl IVec3 {
    pub fn new(x: i32, y: i32, z: i32) -> (v: IVec3)
        ensures
            v.x == x,
            v.y == y,
            v.z == z,
    {
        IVec3 { x, y, z }
    }

    /// The vector with the three entries of `a`, in order.
    pub fn from_array(a: [i32; 3]) -> (v: IVec3)
        ensures
            v.x == a[0],
            v.y == a[1],
            v.z == a[2],
    {
        IVec3 { x: a[0], y: a[1], z: a[2] }
    }

    /// The sum of two vectors, where it can be stored.
    pub fn plus(self, other: IVec3) -> (sum: IVec3)
        requires
            self@.plus(other@).fits(),
        ensures
            sum@ == self@.plus(other@),
    {
        IVec3 { x: self.x + other.x, y: self.y + other.y, z: self.z + other.z }
    }

    /// The sum of two vectors, or `None` where a coordinate of it cannot be stored.
    pub fn checked_plus(self, other: IVec3) -> (sum: Option<IVec3>)
        ensures
            sum is Some <==> self@.plus(other@).fits(),
            sum matches Some(s) ==> s@ == self@.plus(other@),
    {
        match (self.x.checked_add(other.x), self.y.checked_add(other.y), self.z.checked_add(other.z)) {
            (Some(x), Some(y), Some(z)) => Some(IVec3 { x, y, z }),
            _ => None,
        }
    }
}

impl IVec2 {
    pub fn new(x: i32, y: i32) -> (v: IVec2)
        ensures
            v.x == x,
            v.y == y,
    {
        IVec2 { x, y }
    }
}

} // verus!
