use vstd::prelude::*;
use crate::falling_piece::PieceModel;
use crate::piece::PieceType;
use crate::vector::{IVec2, IVec3, Point2, Point3};

verus! {

/// What one cell of a board holds.
#[derive(Clone, Copy, Debug, PartialEq, Eq, Structural)]
pub enum CellValue {
    /// A cube of a piece of the given type.
    Piece(PieceType),
    /// A mark that shows where the falling piece would land.
    DropHint,
    Empty,
}

impl CellValue {
    pub fn is_piece(&self) -> (b: bool)
        ensures
            b == (*self is Piece),
    {
        matches!(self, CellValue::Piece(_))
    }
}

/// What a board answers when asked whether a piece can be where it is.
#[derive(Clone, Copy, Debug, PartialEq, Eq, Structural)]
pub enum PieceCollisionResult {
    HitOtherPiece,
    OutOfBounds,
    NoCollision,
}

/// The plane on which a board sees the falling piece.
#[derive(Clone, Copy, Debug, PartialEq, Eq, Structural)]
pub enum Projection {
    /// The board shows the x axis across and the y axis up.
    LeftFace,
    /// The board shows the z axis across and the y axis up.
    RightFace,
}

impl Projection {
    /// Where the board sees the cube at `p`.
    pub open spec fn image(self, p: Point3) -> Point2 {
        match self {
            Projection::LeftFace => Point2 { x: p.x, y: p.y },
            Projection::RightFace => Point2 { x: p.z, y: p.y },
        }
    }

    pub fn project(&self, p: IVec3) -> (q: IVec2)
        ensures
            q@ == self.image(p@),
    {
        match self {
            Projection::LeftFace => IVec2 { x: p.x, y: p.y },
            Projection::RightFace => IVec2 { x: p.z, y: p.y },
        }
    }
}

/// A row is full when none of its cells is empty.
pub open spec fn row_is_full(row: Seq<CellValue>) -> bool {
    forall|x: int| 0 <= x < row.len() ==> #[trigger] row[x] != CellValue::Empty
}

/// A row of `width` empty cells.
pub open spec fn empty_row(width: int) -> Seq<CellValue> {
    Seq::new(width as nat, |x: int| CellValue::Empty)
}

/// The rows that are not full, in the order in which they stood.
pub open spec fn surviving(rows: Seq<Seq<CellValue>>) -> Seq<Seq<CellValue>> {
    rows.filter(|row: Seq<CellValue>| !row_is_full(row))
}

/// The board after its full rows are taken out: the rows that are not full
/// move down to close the gaps, and empty rows fill the top.
pub open spec fn compact(rows: Seq<Seq<CellValue>>, width: int) -> Seq<Seq<CellValue>> {
    let kept = surviving(rows);
    Seq::new(
        rows.len(),
        |r: int|
            if r < kept.len() {
                kept[r]
            } else {
                empty_row(width)
            },
    )
}

/// A layer has `height` rows of `width` cells.
pub open spec fn layer_wf(layer: Seq<Seq<CellValue>>, width: int, height: int) -> bool {
    &&& layer.len() == height
    &&& forall|r: int| 0 <= r < height ==> (#[trigger] layer[r]).len() == width
}

/// No cell of the layer holds a drop hint.
pub open spec fn has_no_hint(layer: Seq<Seq<CellValue>>) -> bool {
    forall|r: int, x: int|
        0 <= r < layer.len() && 0 <= x < layer[r].len() ==> #[trigger] layer[r][x]
            != CellValue::DropHint
}

/// One board as a mathematical value. A layer is a sequence of rows, the
/// bottom row first; a row is a sequence of cells, from left to right.
pub struct GridModel {
    pub width: int,
    pub height: int,
    /// The committed cells, against which moves are checked.
    pub master: Seq<Seq<CellValue>>,
    /// The cells that are shown: the committed ones, the falling piece and
    /// its drop hint.
    pub visible: Seq<Seq<CellValue>>,
    pub projection: Projection,
    /// Whether the board still follows the falling piece.
    pub active: bool,
}

impl GridModel {
    /// An active board without any piece on it.
    pub open spec fn blank(width: int, height: int, projection: Projection) -> GridModel {
        GridModel {
            width,
            height,
            master: Seq::new(height as nat, |r: int| empty_row(width)),
            visible: Seq::new(height as nat, |r: int| empty_row(width)),
            projection,
            active: true,
        }
    }

    /// Both layers have the board's size, and the committed layer holds no
    /// drop hint.
    pub open spec fn wf(self) -> bool {
        &&& 0 < self.width
        &&& 0 < self.height
        &&& layer_wf(self.master, self.width, self.height)
        &&& layer_wf(self.visible, self.width, self.height)
        &&& has_no_hint(self.master)
    }

    pub open spec fn in_bounds(self, p: Point2) -> bool {
        0 <= p.x < self.width && 0 <= p.y < self.height
    }

    /// Where the board sees cube `i` of the piece.
    pub open spec fn cell(self, piece: PieceModel, i: int) -> Point2 {
        self.projection.image(piece.cells()[i])
    }

    /// Some cube of the piece lies outside the board.
    pub open spec fn out_of_bounds(self, piece: PieceModel) -> bool {
        ||| !self.in_bounds(self.cell(piece, 0))
        ||| !self.in_bounds(self.cell(piece, 1))
        ||| !self.in_bounds(self.cell(piece, 2))
        ||| !self.in_bounds(self.cell(piece, 3))
    }

    /// The committed cell at `p` holds a cube.
    pub open spec fn occupied(self, p: Point2) -> bool {
        self.in_bounds(p) && self.master[p.y][p.x] is Piece
    }

    /// Some cube of the piece lies on a committed cube.
    pub open spec fn hits(self, piece: PieceModel) -> bool {
        ||| self.occupied(self.cell(piece, 0))
        ||| self.occupied(self.cell(piece, 1))
        ||| self.occupied(self.cell(piece, 2))
        ||| self.occupied(self.cell(piece, 3))
    }

    /// The board's verdict on the piece. Leaving the board counts before
    /// touching a committed cube.
    pub open spec fn check(self, piece: PieceModel) -> PieceCollisionResult {
        if self.out_of_bounds(piece) {
            PieceCollisionResult::OutOfBounds
        } else if self.hits(piece) {
            PieceCollisionResult::HitOtherPiece
        } else {
            PieceCollisionResult::NoCollision
        }
    }

    pub open spec fn accepts(self, piece: PieceModel) -> bool {
        self.check(piece) == PieceCollisionResult::NoCollision
    }

    /// The board sees a cube of the piece in column `x` of row `y`.
    pub open spec fn covers(self, piece: PieceModel, x: int, y: int) -> bool {
        let p = Point2 { x, y };
        ||| self.cell(piece, 0) == p
        ||| self.cell(piece, 1) == p
        ||| self.cell(piece, 2) == p
        ||| self.cell(piece, 3) == p
    }

    /// The board sees one of the first `n` cubes of the piece in column `x` of
    /// row `y`.
    pub open spec fn covers_first(self, piece: PieceModel, n: int, x: int, y: int) -> bool {
        let p = Point2 { x, y };
        ||| 0 < n && self.cell(piece, 0) == p
        ||| 1 < n && self.cell(piece, 1) == p
        ||| 2 < n && self.cell(piece, 2) == p
        ||| 3 < n && self.cell(piece, 3) == p
    }

    /// The board with `value` shown wherever it sees one of the first `n`
    /// cubes of the piece.
    pub open spec fn write_first(self, piece: PieceModel, value: CellValue, n: int) -> GridModel {
        GridModel {
            visible: Seq::new(
                self.visible.len(),
                |r: int|
                    Seq::new(
                        self.visible[r].len(),
                        |x: int|
                            if self.covers_first(piece, n, x, r) {
                                value
                            } else {
                                self.visible[r][x]
                            },
                    ),
            ),
            ..self
        }
    }

    /// The board with `value` shown wherever it sees a cube of the piece.
    /// Cubes outside the board leave no trace.
    pub open spec fn write(self, piece: PieceModel, value: CellValue) -> GridModel {
        GridModel {
            visible: Seq::new(
                self.visible.len(),
                |r: int|
                    Seq::new(
                        self.visible[r].len(),
                        |x: int|
                            if self.covers(piece, x, r) {
                                value
                            } else {
                                self.visible[r][x]
                            },
                    ),
            ),
            ..self
        }
    }

    /// The board showing its committed cells and nothing else.
    pub open spec fn reset(self) -> GridModel {
        GridModel { visible: self.master, ..self }
    }

    pub open spec fn activate(self) -> GridModel {
        GridModel { active: true, ..self }
    }

    /// The board after what it shows became permanent and its full rows went.
    pub open spec fn commit(self) -> GridModel {
        GridModel {
            master: compact(self.visible, self.width),
            visible: compact(self.visible, self.width),
            ..self
        }
    }

    pub open spec fn deactivate(self) -> GridModel {
        GridModel { active: false, ..self.commit() }
    }
}

/// Taking out full rows after one more row is known: a full row goes, any
/// other stays on top of those kept before.
pub proof fn lemma_surviving_push(rows: Seq<Seq<CellValue>>, row: Seq<CellValue>)
    ensures
        surviving(rows.push(row)) == if row_is_full(row) {
            surviving(rows)
        } else {
            surviving(rows).push(row)
        },
{
    reveal(Seq::filter);
    assert(rows.push(row).drop_last() =~= rows);
}

/// What survives of the first `k + 1` rows, from what survives of the first `k`.
pub proof fn lemma_surviving_take(rows: Seq<Seq<CellValue>>, k: int)
    requires
        0 <= k < rows.len(),
    ensures
        surviving(rows.take(k + 1)) == if row_is_full(rows[k]) {
            surviving(rows.take(k))
        } else {
            surviving(rows.take(k)).push(rows[k])
        },
{
    assert(rows.take(k + 1) =~= rows.take(k).push(rows[k]));
    lemma_surviving_push(rows.take(k), rows[k]);
}

/// Every surviving row is one of the rows, and there are no more of them
/// than there were rows.
pub proof fn lemma_surviving_rows(rows: Seq<Seq<CellValue>>)
    ensures
        surviving(rows).len() <= rows.len(),
        forall|i: int|
            0 <= i < surviving(rows).len() ==> rows.contains(#[trigger] surviving(rows)[i])
                && !row_is_full(surviving(rows)[i]),
    decreases rows.len(),
{
    if rows.len() > 0 {
        let front = rows.drop_last();
        lemma_surviving_rows(front);
        assert(rows =~= front.push(rows.last()));
        lemma_surviving_push(front, rows.last());
        assert forall|i: int| 0 <= i < surviving(rows).len() implies rows.contains(
            #[trigger] surviving(rows)[i],
        ) && !row_is_full(surviving(rows)[i]) by {
            if i < surviving(front).len() {
                let row = surviving(front)[i];
                assert(front.contains(row));
                let j = choose|j: int| 0 <= j < front.len() && front[j] == row;
                assert(rows[j] == row);
            } else {
                assert(surviving(rows)[i] == rows.last());
                assert(rows[rows.len() - 1] == rows.last());
            }
        }
    }
}

/// Committing keeps a board well formed, as long as it shows no drop hint.
pub proof fn lemma_commit_wf(g: GridModel)
    requires
        g.wf(),
        has_no_hint(g.visible),
    ensures
        g.commit().wf(),
        g.deactivate().wf(),
        has_no_hint(g.commit().visible),
{
    lemma_surviving_rows(g.visible);
    let after = compact(g.visible, g.width);
    assert forall|r: int| 0 <= r < g.height implies (#[trigger] after[r]).len() == g.width
        && forall|x: int| 0 <= x < g.width ==> after[r][x] != CellValue::DropHint by {
        if r < surviving(g.visible).len() {
            let row = surviving(g.visible)[r];
            assert(g.visible.contains(row));
            let j = choose|j: int| 0 <= j < g.visible.len() && g.visible[j] == row;
            assert(g.visible[j].len() == g.width);
            assert forall|x: int| 0 <= x < g.width implies row[x] != CellValue::DropHint by {
                assert(g.visible[j][x] != CellValue::DropHint);
            }
        }
    }
}

/// Where exactly one row is full, taking it out leaves the rows below it
/// as they were, moves every row above it down by one, and leaves the top
/// row empty.
pub proof fn lemma_single_full_row(rows: Seq<Seq<CellValue>>, width: int, full: int)
    requires
        0 <= full < rows.len(),
        row_is_full(rows[full]),
        forall|r: int| 0 <= r < rows.len() && r != full ==> !row_is_full(#[trigger] rows[r]),
    ensures
        compact(rows, width).len() == rows.len(),
        forall|r: int| 0 <= r < full ==> #[trigger] compact(rows, width)[r] == rows[r],
        forall|r: int|
            full <= r < rows.len() - 1 ==> #[trigger] compact(rows, width)[r] == rows[r + 1],
        compact(rows, width)[rows.len() - 1] == empty_row(width),
{
    lemma_surviving_without(rows, full, rows.len() as int);
    assert(rows.take(rows.len() as int) =~= rows);
}

/// What survives of the first `k` rows when row `full` is the only full one.
proof fn lemma_surviving_without(rows: Seq<Seq<CellValue>>, full: int, k: int)
    requires
        0 <= full < rows.len(),
        0 <= k <= rows.len(),
        row_is_full(rows[full]),
        forall|r: int| 0 <= r < rows.len() && r != full ==> !row_is_full(#[trigger] rows[r]),
    ensures
        k <= full ==> surviving(rows.take(k)) == rows.take(k),
        k > full ==> surviving(rows.take(k)) == rows.take(k).remove(full),
    decreases k,
{
    if k == 0 {
        assert(rows.take(0).len() == 0);
    } else {
        lemma_surviving_without(rows, full, k - 1);
        lemma_surviving_take(rows, k - 1);
        if k - 1 < full {
            assert(rows.take(k) =~= rows.take(k - 1).push(rows[k - 1]));
        } else if k - 1 == full {
            assert(rows.take(k).remove(full) =~= rows.take(k - 1));
        } else {
            assert(rows.take(k).remove(full) =~= rows.take(k - 1).remove(full).push(rows[k - 1]));
        }
    }
}

/// A board that shows exactly one full row, `full`, commits to this: the
/// rows below `full` stay, every row above it comes down by one, the top row
/// is empty, and the board shows what it committed.
pub proof fn lemma_commit_clears_full_row(g: GridModel, full: int)
    requires
        g.wf(),
        0 <= full < g.height,
        row_is_full(g.visible[full]),
        forall|r: int| 0 <= r < g.height && r != full ==> !row_is_full(#[trigger] g.visible[r]),
    ensures
        g.commit().visible == g.commit().master,
        g.commit().master.len() == g.height,
        forall|r: int| 0 <= r < full ==> #[trigger] g.commit().master[r] == g.visible[r],
        forall|r: int|
            full <= r < g.height - 1 ==> #[trigger] g.commit().master[r] == g.visible[r + 1],
        g.commit().master[g.height - 1] == empty_row(g.width),
{
    lemma_single_full_row(g.visible, g.width, full);
}

} // verus!
