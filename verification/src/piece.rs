use vstd::prelude::*;
use crate::vector::Point3;

verus! {

/// The eight shapes a falling piece can take.
#[derive(Clone, Copy, Debug, PartialEq, Eq, Structural)]
pub enum PieceType {
    Stick,
    Box,
    Jay,
    Zee,
    Tee,
    Chi,
    Ral,
    Legs,
}

/// Every piece type, once, in catalog order.
pub const ALL_PIECE_TYPES: [PieceType; 8] = [
    PieceType::Stick,
    PieceType::Box,
    PieceType::Jay,
    PieceType::Zee,
    PieceType::Tee,
    PieceType::Chi,
    PieceType::Ral,
    PieceType::Legs,
];

impl PieceType {
    /// The position of this type in the catalog.
    pub open spec fn ordinal(self) -> int {
        match self {
            PieceType::Stick => 0,
            PieceType::Box => 1,
            PieceType::Jay => 2,
            PieceType::Zee => 3,
            PieceType::Tee => 4,
            PieceType::Chi => 5,
            PieceType::Ral => 6,
            PieceType::Legs => 7,
        }
    }

    /// The position of this type in the catalog.
    pub fn index(self) -> (i: usize)
        ensures
            i == self.ordinal(),
            i < 8,
            ALL_PIECE_TYPES[i as int] == self,
    {
        match self {
            PieceType::Stick => 0,
            PieceType::Box => 1,
            PieceType::Jay => 2,
            PieceType::Zee => 3,
            PieceType::Tee => 4,
            PieceType::Chi => 5,
            PieceType::Ral => 6,
            PieceType::Legs => 7,
        }
    }

    /// The three cubes of a piece of this type, relative to its center cube.
    pub open spec fn shape(self) -> Seq<Point3> {
        match self {
            PieceType::Stick => seq![
                Point3 { x: -1, y: 0, z: 0 },
                Point3 { x: 1, y: 0, z: 0 },
                Point3 { x: 2, y: 0, z: 0 },
            ],
            PieceType::Box => seq![
                Point3 { x: 0, y: 0, z: 1 },
                Point3 { x: 1, y: 0, z: 0 },
                Point3 { x: 1, y: 0, z: 1 },
            ],
            PieceType::Jay => seq![
                Point3 { x: -1, y: 0, z: 0 },
                Point3 { x: 1, y: 0, z: 0 },
                Point3 { x: 1, y: 0, z: 1 },
            ],
            PieceType::Zee => seq![
                Point3 { x: -1, y: 0, z: 0 },
                Point3 { x: 0, y: 0, z: 1 },
                Point3 { x: 1, y: 0, z: 1 },
            ],
            PieceType::Tee => seq![
                Point3 { x: -1, y: 0, z: 0 },
                Point3 { x: 1, y: 0, z: 0 },
                Point3 { x: 0, y: 0, z: 1 },
            ],
            PieceType::Chi => seq![
                Point3 { x: -1, y: 0, z: 0 },
                Point3 { x: 0, y: 0, z: 1 },
                Point3 { x: 0, y: -1, z: 1 },
            ],
            PieceType::Ral => seq![
                Point3 { x: 1, y: 0, z: 0 },
                Point3 { x: 0, y: 0, z: 1 },
                Point3 { x: 0, y: -1, z: 1 },
            ],
            PieceType::Legs => seq![
                Point3 { x: -1, y: 0, z: 0 },
                Point3 { x: 0, y: 0, z: 1 },
                Point3 { x: 0, y: -1, z: 0 },
            ],
        }
    }

    /// The three cube offsets of this type, each as `[x, y, z]`.
    pub fn cube_configuration(&self) -> (offsets: [[i32; 3]; 3])
        ensures
            forall|i: int|
                0 <= i < 3 ==> (#[trigger] offsets[i])[0] == self.shape()[i].x && offsets[i][1]
                    == self.shape()[i].y && offsets[i][2] == self.shape()[i].z,
    {
        match self {
            PieceType::Stick => [[-1, 0, 0], [1, 0, 0], [2, 0, 0]],
            PieceType::Box => [[0, 0, 1], [1, 0, 0], [1, 0, 1]],
            PieceType::Jay => [[-1, 0, 0], [1, 0, 0], [1, 0, 1]],
            PieceType::Zee => [[-1, 0, 0], [0, 0, 1], [1, 0, 1]],
            PieceType::Tee => [[-1, 0, 0], [1, 0, 0], [0, 0, 1]],
            PieceType::Chi => [[-1, 0, 0], [0, 0, 1], [0, -1, 1]],
            PieceType::Ral => [[1, 0, 0], [0, 0, 1], [0, -1, 1]],
            PieceType::Legs => [[-1, 0, 0], [0, 0, 1], [0, -1, 0]],
        }
    }
}

} // verus!
