use vstd::prelude::*;
use crate::vector::Point3;

verus! {

/// A linear map of space, given by the three rows of its matrix.
pub struct Matrix3 {
    pub row_x: Point3,
    pub row_y: Point3,
    pub row_z: Point3,
}

impl Matrix3 {
    /// The image of `p` under this map.
    pub open spec fn apply(self, p: Point3) -> Point3 {
        Point3 { x: self.row_x.dot(p), y: self.row_y.dot(p), z: self.row_z.dot(p) }
    }

    /// A quarter turn about the x axis that takes the y axis to the z axis.
    pub open spec fn x_pos_90() -> Matrix3 {
        Matrix3 {
            row_x: Point3 { x: 1, y: 0, z: 0 },
            row_y: Point3 { x: 0, y: 0, z: -1 },
            row_z: Point3 { x: 0, y: 1, z: 0 },
        }
    }

    /// The inverse of [`Matrix3::x_pos_90`].
    pub open spec fn x_neg_90() -> Matrix3 {
        Matrix3 {
            row_x: Point3 { x: 1, y: 0, z: 0 },
            row_y: Point3 { x: 0, y: 0, z: 1 },
            row_z: Point3 { x: 0, y: -1, z: 0 },
        }
    }

    /// A quarter turn about the z axis that takes the x axis to the y axis.
    pub open spec fn z_pos_90() -> Matrix3 {
        Matrix3 {
            row_x: Point3 { x: 0, y: -1, z: 0 },
            row_y: Point3 { x: 1, y: 0, z: 0 },
            row_z: Point3 { x: 0, y: 0, z: 1 },
        }
    }

    /// The inverse of [`Matrix3::z_pos_90`].
    pub open spec fn z_neg_90() -> Matrix3 {
        Matrix3 {
            row_x: Point3 { x: 0, y: 1, z: 0 },
            row_y: Point3 { x: -1, y: 0, z: 0 },
            row_z: Point3 { x: 0, y: 0, z: 1 },
        }
    }

    /// One of the four quarter turns a player can ask for.
    pub open spec fn is_quarter_turn(self) -> bool {
        self == Self::x_pos_90() || self == Self::x_neg_90() || self == Self::z_pos_90() || self
            == Self::z_neg_90()
    }
}

/// The map whose matrix has the rows `m[0]`, `m[1]`, `m[2]`.
pub open spec fn matrix_of(m: [[i32; 3]; 3]) -> Matrix3 {
    Matrix3 {
        row_x: Point3 { x: m[0][0] as int, y: m[0][1] as int, z: m[0][2] as int },
        row_y: Point3 { x: m[1][0] as int, y: m[1][1] as int, z: m[1][2] as int },
        row_z: Point3 { x: m[2][0] as int, y: m[2][1] as int, z: m[2][2] as int },
    }
}

/// A rotation of the falling piece about its center cube.
#[derive(Clone, Copy, Debug)]
pub struct Rotation {
    pub matrix: [[i32; 3]; 3],
}

impl View for Rotation {
    type V = Matrix3;

    open spec fn view(&self) -> Matrix3 {
        matrix_of(self.matrix)
    }
}

impl Rotation {
    pub fn rotate_x_pos_90() -> (r: Self)
        ensures
            r@ == Matrix3::x_pos_90(),
    {
        Self { matrix: [[1, 0, 0], [0, 0, -1], [0, 1, 0]] }
    }

    pub fn rotate_x_neg_90() -> (r: Self)
        ensures
            r@ == Matrix3::x_neg_90(),
    {
        Self { matrix: [[1, 0, 0], [0, 0, 1], [0, -1, 0]] }
    }

    pub fn rotate_z_pos_90() -> (r: Self)
        ensures
            r@ == Matrix3::z_pos_90(),
    {
        Self { matrix: [[0, -1, 0], [1, 0, 0], [0, 0, 1]] }
    }

    pub fn rotate_z_neg_90() -> (r: Self)
        ensures
            r@ == Matrix3::z_neg_90(),
    {
        Self { matrix: [[0, 1, 0], [-1, 0, 0], [0, 0, 1]] }
    }
}

/// Four quarter turns in a row bring every point back to where it was.
pub proof fn lemma_four_quarter_turns_of_point(m: Matrix3, p: Point3)
    requires
        m.is_quarter_turn(),
    ensures
        m.apply(m.apply(m.apply(m.apply(p)))) == p,
{
}

} // verus!
