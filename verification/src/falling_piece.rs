use vstd::prelude::*;
use crate::piece::PieceType;
use crate::rotation::{matrix_of, Matrix3, Rotation};
use crate::vector::{fits_i32, IVec3, Point3};

verus! {

/// One step down: the displacement that gravity asks for.
pub open spec fn one_row_down() -> Point3 {
    Point3 { x: 0, y: -1, z: 0 }
}

/// The falling piece as a mathematical value: a center cube and three more
/// cubes, each given relative to the center.
pub struct PieceModel {
    pub piece_type: PieceType,
    pub center: Point3,
    pub offsets: Seq<Point3>,
}

impl PieceModel {
    /// A piece of the given type in its catalog orientation.
    pub open spec fn fresh(piece_type: PieceType, center: Point3) -> PieceModel {
        PieceModel { piece_type, center, offsets: piece_type.shape() }
    }

    /// The piece has exactly three cubes besides its center.
    pub open spec fn wf(self) -> bool {
        self.offsets.len() == 3
    }

    /// The four cubes of the piece: the center first, then one per offset.
    pub open spec fn cells(self) -> Seq<Point3> {
        seq![
            self.center,
            self.center.plus(self.offsets[0]),
            self.center.plus(self.offsets[1]),
            self.center.plus(self.offsets[2]),
        ]
    }

    /// The piece can be stored: it has three offsets, and every coordinate of
    /// its offsets and of its four cubes is an `i32`.
    pub open spec fn fits(self) -> bool {
        &&& self.wf()
        &&& self.center.fits()
        &&& self.offsets[0].fits()
        &&& self.offsets[1].fits()
        &&& self.offsets[2].fits()
        &&& self.center.plus(self.offsets[0]).fits()
        &&& self.center.plus(self.offsets[1]).fits()
        &&& self.center.plus(self.offsets[2]).fits()
    }

    /// The piece displaced by `delta`, in the same orientation.
    pub open spec fn translate(self, delta: Point3) -> PieceModel {
        PieceModel { center: self.center.plus(delta), ..self }
    }

    /// The piece `rows` rows further down.
    pub open spec fn down(self, rows: int) -> PieceModel {
        self.translate(Point3 { x: 0, y: -rows, z: 0 })
    }

    /// The piece turned about its center cube by the map `m`.
    pub open spec fn rotate(self, m: Matrix3) -> PieceModel {
        PieceModel {
            offsets: seq![
                m.apply(self.offsets[0]),
                m.apply(self.offsets[1]),
                m.apply(self.offsets[2]),
            ],
            ..self
        }
    }

    /// The displaced piece, where it can be stored.
    pub open spec fn moved(self, delta: Point3) -> Option<PieceModel> {
        if self.translate(delta).fits() {
            Some(self.translate(delta))
        } else {
            None
        }
    }

    /// The piece `rows` rows further down, where it can be stored.
    pub open spec fn moved_down(self, rows: int) -> Option<PieceModel> {
        if self.down(rows).fits() {
            Some(self.down(rows))
        } else {
            None
        }
    }

    /// The turned piece, where it can be stored.
    pub open spec fn turned(self, m: Matrix3) -> Option<PieceModel> {
        if self.rotate(m).fits() {
            Some(self.rotate(m))
        } else {
            None
        }
    }
}

/// The piece that is falling: its type, where its center cube is, and where
/// its three other cubes are relative to the center.
#[derive(Clone, Copy, Debug)]
pub struct FallingPiece {
    piece_type: PieceType,
    center_position: IVec3,
    offsets: [IVec3; 3],
}

impl View for FallingPiece {
    type V = PieceModel;

    closed spec fn view(&self) -> PieceModel {
        PieceModel {
            piece_type: self.piece_type,
            center: self.center_position@,
            offsets: seq![self.offsets[0]@, self.offsets[1]@, self.offsets[2]@],
        }
    }
}

/// What can happen to the falling piece.
#[derive(Clone, Copy, Debug)]
pub enum FallingPieceEvent {
    /// Replace the piece by a new one at the top of the boards.
    Spawn,
    /// Gravity pulls the piece one row down.
    Drop,
    /// The player lets the piece fall until every board has locked it.
    FastDrop,
    /// The player pushes the piece sideways.
    Translate(IVec3),
    /// The player turns the piece.
    Rotate(Rotation),
}

/// An event as a mathematical value.
pub enum EventModel {
    Spawn,
    Drop,
    FastDrop,
    Translate(Point3),
    Rotate(Matrix3),
}

impl View for FallingPieceEvent {
    type V = EventModel;

    open spec fn view(&self) -> EventModel {
        match *self {
            FallingPieceEvent::Spawn => EventModel::Spawn,
            FallingPieceEvent::Drop => EventModel::Drop,
            FallingPieceEvent::FastDrop => EventModel::FastDrop,
            FallingPieceEvent::Translate(delta) => EventModel::Translate(delta@),
            FallingPieceEvent::Rotate(rotation) => EventModel::Rotate(rotation@),
        }
    }
}

proof fn lemma_product_bound(a: int, b: int)
    requires
        fits_i32(a),
        fits_i32(b),
    ensures
        -0x4000_0000_0000_0000 <= a * b <= 0x4000_0000_0000_0000,
{
    assert(-0x4000_0000_0000_0000 <= a * b <= 0x4000_0000_0000_0000) by (nonlinear_arith)
        requires
            -0x8000_0000 <= a <= 0x8000_0000,
            -0x8000_0000 <= b <= 0x8000_0000,
    ;
}

/// The dot product of a matrix row with a vector, wide enough not to overflow.
fn dot_wide(row: &[i32; 3], p: IVec3) -> (d: i128)
    ensures
        d == (Point3 { x: row[0] as int, y: row[1] as int, z: row[2] as int }).dot(p@),
{
    proof {
        lemma_product_bound(row[0] as int, p.x as int);
        lemma_product_bound(row[1] as int, p.y as int);
        lemma_product_bound(row[2] as int, p.z as int);
    }
    let a: i64 = (row[0] as i64) * (p.x as i64);
    let b: i64 = (row[1] as i64) * (p.y as i64);
    let c: i64 = (row[2] as i64) * (p.z as i64);
    (a as i128) + (b as i128) + (c as i128)
}

/// A wide integer as an `i32`, where it is one.
fn narrow(v: i128) -> (n: Option<i32>)
    ensures
        n is Some <==> fits_i32(v as int),
        n matches Some(w) ==> w == v,
{
    if -0x8000_0000 <= v && v <= 0x7fff_ffff {
        Some(v as i32)
    } else {
        None
    }
}

/// The image of `p` under the map with matrix `matrix`, where it can be stored.
fn apply_matrix(matrix: &[[i32; 3]; 3], p: IVec3) -> (image: Option<IVec3>)
    ensures
        image is Some <==> matrix_of(*matrix).apply(p@).fits(),
        image matches Some(q) ==> q@ == matrix_of(*matrix).apply(p@),
{
    let x = narrow(dot_wide(&matrix[0], p));
    let y = narrow(dot_wide(&matrix[1], p));
    let z = narrow(dot_wide(&matrix[2], p));
    match (x, y, z) {
        (Some(x), Some(y), Some(z)) => Some(IVec3 { x, y, z }),
        _ => None,
    }
}

impl FallingPiece {
    /// The piece can be stored with all its cubes.
    pub open spec fn wf(&self) -> bool {
        self@.fits()
    }

    /// A piece of the given type in its catalog orientation, centered at
    /// `center_position`.
    pub fn new(piece_type: PieceType, center_position: IVec3) -> (piece: Self)
        requires
            PieceModel::fresh(piece_type, center_position@).fits(),
        ensures
            piece@ == PieceModel::fresh(piece_type, center_position@),
            piece.wf(),
    {
        let c = piece_type.cube_configuration();
        let piece = FallingPiece {
            piece_type,
            center_position,
            offsets: [IVec3::from_array(c[0]), IVec3::from_array(c[1]), IVec3::from_array(c[2])],
        };
        assert(piece@.offsets =~= piece_type.shape());
        piece
    }

    pub fn piece_type(&self) -> (t: PieceType)
        ensures
            t == self@.piece_type,
    {
        self.piece_type
    }

    /// Where the center cube is.
    pub fn center_position(&self) -> (c: IVec3)
        ensures
            c@ == self@.center,
    {
        self.center_position
    }

    /// Where the three other cubes are, relative to the center.
    pub fn offsets(&self) -> (o: [IVec3; 3])
        ensures
            self@.wf(),
            forall|i: int| 0 <= i < 3 ==> (#[trigger] o[i])@ == self@.offsets[i],
    {
        self.offsets
    }

    /// The piece displaced by `offset`, or `None` where that piece cannot be
    /// stored.
    pub fn translated(&self, offset: IVec3) -> (moved: Option<FallingPiece>)
        ensures
            moved is Some <==> self@.moved(offset@) is Some,
            moved matches Some(p) ==> Some(p@) == self@.moved(offset@) && p.wf(),
    {
        let center = match self.center_position.checked_plus(offset) {
            Some(c) => c,
            None => { return None; },
        };
        if center.checked_plus(self.offsets[0]).is_none() || center.checked_plus(
            self.offsets[1],
        ).is_none() || center.checked_plus(self.offsets[2]).is_none() {
            return None;
        }
        Some(FallingPiece { center_position: center, ..*self })
    }

    /// The piece turned by the map with matrix `matrix`, or `None` where that
    /// piece cannot be stored.
    pub fn rotated(&self, matrix: &[[i32; 3]; 3]) -> (turned: Option<FallingPiece>)
        ensures
            turned is Some <==> self@.turned(matrix_of(*matrix)) is Some,
            turned matches Some(p) ==> Some(p@) == self@.turned(matrix_of(*matrix)) && p.wf(),
    {
        let a = apply_matrix(matrix, self.offsets[0]);
        let b = apply_matrix(matrix, self.offsets[1]);
        let c = apply_matrix(matrix, self.offsets[2]);
        match (a, b, c) {
            (Some(a), Some(b), Some(c)) => {
                let center = self.center_position;
                if center.checked_plus(a).is_none() || center.checked_plus(b).is_none()
                    || center.checked_plus(c).is_none() {
                    return None;
                }
                let turned = FallingPiece { offsets: [a, b, c], ..*self };
                assert(turned@.offsets =~= self@.rotate(matrix_of(*matrix)).offsets);
                Some(turned)
            },
            _ => None,
        }
    }

    pub fn translate(&mut self, offset: IVec3)
        requires
            old(self)@.translate(offset@).fits(),
        ensures
            final(self)@ == old(self)@.translate(offset@),
            final(self).wf(),
    {
        if let Some(p) = self.translated(offset) {
            *self = p;
        }
    }

    pub fn translate_n_rows(&mut self, n: i32)
        requires
            old(self)@.down(-n).fits(),
        ensures
            final(self)@ == old(self)@.down(-n),
            final(self).wf(),
    {
        self.translate(IVec3::new(0, n, 0));
    }

    pub fn rotate(&mut self, matrix: [[i32; 3]; 3])
        requires
            old(self)@.rotate(matrix_of(matrix)).fits(),
        ensures
            final(self)@ == old(self)@.rotate(matrix_of(matrix)),
            final(self).wf(),
    {
        if let Some(p) = self.rotated(&matrix) {
            *self = p;
        }
    }

    /// The four cubes of the piece, the center first.
    pub fn cell_positions(&self) -> (positions: [IVec3; 4])
        requires
            self.wf(),
        ensures
            forall|i: int| 0 <= i < 4 ==> (#[trigger] positions[i])@ == self@.cells()[i],
    {
        let c = self.center_position;
        [c, c.plus(self.offsets[0]), c.plus(self.offsets[1]), c.plus(self.offsets[2])]
    }
}

/// Four equal quarter turns bring a piece back to the orientation it had.
pub proof fn lemma_four_quarter_turns(piece: PieceModel, m: Matrix3)
    requires
        piece.wf(),
        m.is_quarter_turn(),
    ensures
        piece.rotate(m).rotate(m).rotate(m).rotate(m) == piece,
{
    crate::rotation::lemma_four_quarter_turns_of_point(m, piece.offsets[0]);
    crate::rotation::lemma_four_quarter_turns_of_point(m, piece.offsets[1]);
    crate::rotation::lemma_four_quarter_turns_of_point(m, piece.offsets[2]);
    assert(piece.rotate(m).rotate(m).rotate(m).rotate(m).offsets =~= piece.offsets);
}

} // verus!
