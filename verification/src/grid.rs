use vstd::prelude::*;
use crate::falling_piece::FallingPiece;
use crate::grid_model::{
    compact, empty_row, has_no_hint, lemma_commit_wf, lemma_surviving_take, row_is_full,
    surviving, CellValue, GridModel, PieceCollisionResult, Projection,
};
use crate::vector::{IVec2, Point2};

verus! {

/// A rectangle of cells: its lowest corner and its size.
#[derive(Clone, Copy, Debug, PartialEq, Eq, Structural)]
struct Extent {
    min: IVec2,
    shape: IVec2,
}

impl Extent {
    /// The rectangle is not empty and its corners can be stored.
    spec fn wf(&self) -> bool {
        &&& 0 < self.shape.x
        &&& 0 < self.shape.y
        &&& self.min.x + self.shape.x <= i32::MAX
        &&& self.min.y + self.shape.y <= i32::MAX
        &&& self.shape.x * self.shape.y <= i32::MAX
    }

    spec fn holds(&self, p: Point2) -> bool {
        &&& self.min.x <= p.x < self.min.x + self.shape.x
        &&& self.min.y <= p.y < self.min.y + self.shape.y
    }

    fn new(min: IVec2, shape: IVec2) -> (e: Self)
        ensures
            e.min == min,
            e.shape == shape,
    {
        Self { min, shape }
    }

    /// The number of cells.
    fn size(&self) -> (n: usize)
        requires
            self.wf(),
        ensures
            n == self.shape.x * self.shape.y,
    {
        (self.shape.x * self.shape.y) as usize
    }

    /// The highest corner.
    fn max(&self) -> (m: IVec2)
        requires
            self.wf(),
        ensures
            m.x == self.min.x + self.shape.x - 1,
            m.y == self.min.y + self.shape.y - 1,
    {
        IVec2 { x: self.min.x + self.shape.x - 1, y: self.min.y + self.shape.y - 1 }
    }

    fn contains(&self, p: IVec2) -> (b: bool)
        requires
            self.wf(),
        ensures
            b == self.holds(p@),
    {
        let max = self.max();
        self.min.x <= p.x && p.x <= max.x && self.min.y <= p.y && p.y <= max.y
    }
}

/// The rows of a layer that is stored row after row, the bottom row first.
pub open spec fn rows_of(cells: Seq<CellValue>, width: int, height: int) -> Seq<Seq<CellValue>> {
    Seq::new(height as nat, |r: int| Seq::new(width as nat, |x: int| cells[width * r + x]))
}

proof fn lemma_cell_index(width: int, height: int, x: int, y: int)
    requires
        0 <= x < width,
        0 <= y < height,
    ensures
        0 <= width * y + x < width * height,
{
    assert(0 <= width * y && width * y + width <= width * height) by (nonlinear_arith)
        requires
            0 <= y < height,
            0 < width,
    ;
}

proof fn lemma_cell_index_injective(width: int, x1: int, y1: int, x2: int, y2: int)
    requires
        0 <= x1 < width,
        0 <= x2 < width,
        width * y1 + x1 == width * y2 + x2,
    ensures
        x1 == x2,
        y1 == y2,
{
    assert(y1 == y2) by (nonlinear_arith)
        requires
            0 <= x1 < width,
            0 <= x2 < width,
            width * y1 + x1 == width * y2 + x2,
    ;
}

/// The place of cell `p` in a layer of the given shape.
fn index2(shape: IVec2, p: IVec2) -> (i: usize)
    requires
        0 < shape.x,
        0 < shape.y,
        shape.x * shape.y <= i32::MAX,
        0 <= p.x < shape.x,
        0 <= p.y < shape.y,
    ensures
        i == shape.x * p.y + p.x,
        i < shape.x * shape.y,
{
    proof {
        lemma_cell_index(shape.x as int, shape.y as int, p.x as int, p.y as int);
    }
    (shape.x * p.y + p.x) as usize
}

fn get_cell(cells: &Vec<CellValue>, shape: IVec2, p: IVec2) -> (value: CellValue)
    requires
        0 < shape.x,
        0 < shape.y,
        shape.x * shape.y <= i32::MAX,
        cells.len() == shape.x * shape.y,
        0 <= p.x < shape.x,
        0 <= p.y < shape.y,
    ensures
        value == rows_of(cells@, shape.x as int, shape.y as int)[p.y as int][p.x as int],
{
    cells[index2(shape, p)]
}

fn set_cell(cells: &mut Vec<CellValue>, shape: IVec2, p: IVec2, value: CellValue)
    requires
        0 < shape.x,
        0 < shape.y,
        shape.x * shape.y <= i32::MAX,
        old(cells).len() == shape.x * shape.y,
        0 <= p.x < shape.x,
        0 <= p.y < shape.y,
    ensures
        final(cells).len() == old(cells).len(),
        rows_of(final(cells)@, shape.x as int, shape.y as int) == rows_of(
            old(cells)@,
            shape.x as int,
            shape.y as int,
        ).update(
            p.y as int,
            rows_of(old(cells)@, shape.x as int, shape.y as int)[p.y as int].update(
                p.x as int,
                value,
            ),
        ),
{
    let i = index2(shape, p);
    cells[i] = value;
    proof {
        let w = shape.x as int;
        let h = shape.y as int;
        let before = rows_of(old(cells)@, w, h);
        let after = rows_of(cells@, w, h);
        let expected = before.update(p.y as int, before[p.y as int].update(p.x as int, value));
        assert forall|r: int, x: int| 0 <= r < h && 0 <= x < w implies after[r][x]
            == expected[r][x] by {
            lemma_cell_index(w, h, x, r);
            if w * r + x == w * p.y + p.x {
                lemma_cell_index_injective(w, x, r, p.x as int, p.y as int);
            }
        }
        assert(after =~~= expected);
    }
}

/// Whether boards of `grid_size[0]` by `grid_size[1]` cells can be built: they
/// are not empty, and their cells can be counted in an `i32`.
pub fn grid_size_fits(grid_size: [usize; 2]) -> (fits: bool)
    ensures
        fits == (0 < grid_size[0] && 0 < grid_size[1] && grid_size[0] * grid_size[1]
            <= i32::MAX),
{
    let width = grid_size[0];
    let height = grid_size[1];
    if width == 0 || height == 0 {
        return false;
    }
    if width > 0x7fff_ffff || height > 0x7fff_ffff {
        assert(width * height > i32::MAX) by (nonlinear_arith)
            requires
                0 < width,
                0 < height,
                width > 0x7fff_ffff || height > 0x7fff_ffff,
        ;
        return false;
    }
    assert(width * height <= 0x7fff_ffff * 0x7fff_ffff) by (nonlinear_arith)
        requires
            0 < width <= 0x7fff_ffff,
            0 < height <= 0x7fff_ffff,
    ;
    (width as u64) * (height as u64) <= 0x7fff_ffff
}

/// One board: its committed cells, the cells it shows, the plane on which it
/// sees the falling piece, and whether it still follows the piece.
pub struct Grid {
    extent: Extent,
    master: Vec<CellValue>,
    visible: Vec<CellValue>,
    projection: Projection,
    active: bool,
}

impl View for Grid {
    type V = GridModel;

    closed spec fn view(&self) -> GridModel {
        GridModel {
            width: self.extent.shape.x as int,
            height: self.extent.shape.y as int,
            master: rows_of(self.master@, self.extent.shape.x as int, self.extent.shape.y as int),
            visible: rows_of(
                self.visible@,
                self.extent.shape.x as int,
                self.extent.shape.y as int,
            ),
            projection: self.projection,
            active: self.active,
        }
    }
}

impl Grid {
    /// The board starts at the origin and both layers hold one cell for each
    /// place on it.
    pub closed spec fn layout_ok(&self) -> bool {
        &&& self.extent.min == IVec2 { x: 0, y: 0 }
        &&& self.extent.wf()
        &&& self.master.len() == self.extent.shape.x * self.extent.shape.y
        &&& self.visible.len() == self.extent.shape.x * self.extent.shape.y
    }

    pub open spec fn wf(&self) -> bool {
        self.layout_ok() && self@.wf()
    }

    /// The same board, but for what it shows, what it has committed and
    /// whether it is active.
    spec fn same_frame(&self, other: &Grid) -> bool {
        &&& self.extent == other.extent
        &&& self.projection == other.projection
    }

    /// An active board of `width` by `height` empty cells.
    pub fn new(width: i32, height: i32, projection: Projection) -> (grid: Grid)
        requires
            0 < width,
            0 < height,
            width * height <= i32::MAX,
        ensures
            grid.wf(),
            grid@ == GridModel::blank(width as int, height as int, projection),
    {
        let extent = Extent::new(IVec2::new(0, 0), IVec2::new(width, height));
        let n_cells = extent.size();
        let master = vec![CellValue::Empty; n_cells];
        let visible = vec![CellValue::Empty; n_cells];
        let grid = Grid { extent, master, visible, projection, active: true };
        proof {
            let blank = GridModel::blank(width as int, height as int, projection);
            assert forall|r: int, x: int| 0 <= r < height && 0 <= x < width implies grid@.master[r][x]
                == CellValue::Empty && grid@.visible[r][x] == CellValue::Empty by {
                lemma_cell_index(width as int, height as int, x, r);
            }
            assert(grid@.master =~~= blank.master);
            assert(grid@.visible =~~= blank.visible);
        }
        grid
    }

    pub fn width(&self) -> (w: i32)
        ensures
            w == self@.width,
    {
        self.extent.shape.x
    }

    pub fn height(&self) -> (h: i32)
        ensures
            h == self@.height,
    {
        self.extent.shape.y
    }

    /// The plane on which the board sees the falling piece.
    pub fn projection(&self) -> (p: Projection)
        ensures
            p == self@.projection,
    {
        self.projection
    }

    pub fn is_active(&self) -> (b: bool)
        ensures
            b == self@.active,
    {
        self.active
    }

    pub fn activate(&mut self)
        ensures
            final(self)@ == old(self)@.activate(),
            old(self).wf() ==> final(self).wf(),
    {
        self.active = true;
    }

    /// The committed value in column `x` of row `y`, or `None` outside the
    /// board.
    pub fn master_at(&self, x: i32, y: i32) -> (value: Option<CellValue>)
        requires
            self.wf(),
        ensures
            value == if self@.in_bounds(Point2 { x: x as int, y: y as int }) {
                Some(self@.master[y as int][x as int])
            } else {
                None
            },
    {
        let p = IVec2::new(x, y);
        if self.extent.contains(p) {
            Some(get_cell(&self.master, self.extent.shape, p))
        } else {
            None
        }
    }

    /// The value shown in column `x` of row `y`, or `None` outside the board.
    pub fn visible_at(&self, x: i32, y: i32) -> (value: Option<CellValue>)
        requires
            self.wf(),
        ensures
            value == if self@.in_bounds(Point2 { x: x as int, y: y as int }) {
                Some(self@.visible[y as int][x as int])
            } else {
                None
            },
    {
        let p = IVec2::new(x, y);
        if self.extent.contains(p) {
            Some(get_cell(&self.visible, self.extent.shape, p))
        } else {
            None
        }
    }

    pub fn copy_master_to_visible(&mut self)
        requires
            old(self).wf(),
        ensures
            final(self).wf(),
            final(self)@ == old(self)@.reset(),
    {
        let n = self.master.len();
        let mut k: usize = 0;
        while k < n
            invariant
                self.layout_ok(),
                self.same_frame(old(self)),
                self.active == old(self).active,
                self.master@ == old(self).master@,
                n == self.master.len(),
                k <= n,
                forall|j: int| 0 <= j < k ==> self.visible@[j] == self.master@[j],
            decreases n - k,
        {
            self.visible[k] = self.master[k];
            k += 1;
        }
        assert(self.visible@ =~= self.master@);
    }

    fn copy_visible_to_master(&mut self)
        requires
            old(self).layout_ok(),
        ensures
            final(self).layout_ok(),
            final(self)@ == (GridModel { master: old(self)@.visible, ..old(self)@ }),
            final(self).visible@ == old(self).visible@,
    {
        let n = self.master.len();
        let mut k: usize = 0;
        while k < n
            invariant
                self.layout_ok(),
                self.same_frame(old(self)),
                self.active == old(self).active,
                self.visible@ == old(self).visible@,
                n == self.master.len(),
                k <= n,
                forall|j: int| 0 <= j < k ==> self.master@[j] == self.visible@[j],
            decreases n - k,
        {
            self.master[k] = self.visible[k];
            k += 1;
        }
        assert(self.master@ =~= self.visible@);
    }

    /// Makes what the board shows permanent and takes out the full rows.
    fn commit(&mut self)
        requires
            old(self).layout_ok(),
        ensures
            final(self).layout_ok(),
            final(self)@ == old(self)@.commit(),
    {
        self.copy_visible_to_master();
        self.eliminate_full_rows();
        let n = self.master.len();
        let mut k: usize = 0;
        while k < n
            invariant
                self.layout_ok(),
                self.same_frame(old(self)),
                self.active == old(self).active,
                self@.master == compact(old(self)@.visible, old(self)@.width),
                n == self.master.len(),
                k <= n,
                forall|j: int| 0 <= j < k ==> self.visible@[j] == self.master@[j],
            decreases n - k,
        {
            self.visible[k] = self.master[k];
            k += 1;
        }
        assert(self.visible@ =~= self.master@);
    }

    /// Takes every full row out of the committed cells: the rows above it come
    /// down by one and the top row becomes empty.
    fn eliminate_full_rows(&mut self)
        requires
            old(self).layout_ok(),
        ensures
            final(self).layout_ok(),
            final(self)@ == (GridModel {
                master: compact(old(self)@.master, old(self)@.width),
                ..old(self)@
            }),
            final(self).visible@ == old(self).visible@,
    {
        let ghost orig = self@.master;
        let ghost w = self@.width;
        let height = self.height();
        let mut rows_to_check: i32 = height;
        let mut check_row: i32 = 0;
        proof {
            assert(orig.take(0) =~= Seq::empty());
            lemma_surviving_empty();
            assert(self@.master.take(0) =~= Seq::empty());
        }
        while check_row < rows_to_check
            invariant
                self.layout_ok(),
                self.same_frame(old(self)),
                self.active == old(self).active,
                self.visible@ == old(self).visible@,
                orig == old(self)@.master,
                w == old(self)@.width,
                height == old(self)@.height,
                0 <= check_row <= rows_to_check <= height,
                self@.master.take(check_row as int) == surviving(
                    orig.take(check_row + height - rows_to_check),
                ),
                forall|r: int|
                    check_row <= r < rows_to_check ==> #[trigger] self@.master[r] == orig[r
                        + height - rows_to_check],
                forall|r: int|
                    rows_to_check <= r < height ==> #[trigger] self@.master[r] == empty_row(w),
            decreases rows_to_check - check_row,
        {
            let ghost before = self@.master;
            let ghost taken = check_row + height - rows_to_check;
            proof {
                lemma_surviving_take(orig, taken);
                assert(before[check_row as int] == orig[taken]);
            }
            if self.row_is_full(check_row) {
                self.clear_row(check_row);
                self.shift_rows_down(check_row + 1, rows_to_check);
                rows_to_check -= 1;
                proof {
                    assert(self@.master.take(check_row as int) =~= before.take(check_row as int));
                    assert forall|r: int| check_row <= r < rows_to_check implies #[trigger] self@.master[r]
                        == orig[r + height - rows_to_check] by {
                        assert(self@.master[r] == before[r + 1]);
                    }
                }
            } else {
                check_row += 1;
                proof {
                    assert(self@.master.take(check_row as int) =~= before.take(check_row - 1).push(
                        before[check_row - 1],
                    ));
                }
            }
        }
        proof {
            assert(orig.take(height as int) =~= orig);
            let kept = surviving(orig);
            assert(self@.master.take(check_row as int).len() == check_row);
            assert forall|r: int| 0 <= r < height implies #[trigger] self@.master[r] == compact(
                orig,
                w,
            )[r] by {
                if r < check_row {
                    assert(self@.master.take(check_row as int)[r] == self@.master[r]);
                }
            }
            assert(self@.master =~= compact(orig, w));
        }
    }

    /// Moves the committed rows from `start_row` up to, not including,
    /// `end_row` down by one, and empties the row below `end_row`.
    fn shift_rows_down(&mut self, start_row: i32, end_row: i32)
        requires
            old(self).layout_ok(),
            1 <= start_row <= end_row <= old(self)@.height,
        ensures
            final(self).layout_ok(),
            final(self).same_frame(old(self)),
            final(self).active == old(self).active,
            final(self).visible@ == old(self).visible@,
            final(self)@.master.len() == old(self)@.master.len(),
            forall|r: int|
                0 <= r < old(self)@.height ==> #[trigger] final(self)@.master[r] == if start_row
                    - 1 <= r < end_row - 1 {
                    old(self)@.master[r + 1]
                } else if r == end_row - 1 {
                    empty_row(old(self)@.width)
                } else {
                    old(self)@.master[r]
                },
    {
        let mut row: i32 = start_row;
        while row < end_row
            invariant
                self.layout_ok(),
                self.same_frame(old(self)),
                self.active == old(self).active,
                self.visible@ == old(self).visible@,
                1 <= start_row <= row <= end_row <= old(self)@.height,
                self@.master.len() == old(self)@.master.len(),
                forall|r: int|
                    0 <= r < old(self)@.height ==> #[trigger] self@.master[r] == if start_row - 1
                        <= r < row - 1 {
                        old(self)@.master[r + 1]
                    } else {
                        old(self)@.master[r]
                    },
            decreases end_row - row,
        {
            self.shift_row_down(row);
            row += 1;
        }
        self.clear_row(end_row - 1);
    }

    /// Copies committed row `row` onto the row below it.
    fn shift_row_down(&mut self, row: i32)
        requires
            old(self).layout_ok(),
            1 <= row < old(self)@.height,
        ensures
            final(self).layout_ok(),
            final(self).same_frame(old(self)),
            final(self).active == old(self).active,
            final(self).visible@ == old(self).visible@,
            final(self)@.master == old(self)@.master.update(
                row - 1,
                old(self)@.master[row as int],
            ),
    {
        let shape = self.extent.shape;
        let ghost before = self@.master;
        let mut x: i32 = 0;
        assert(before =~~= before.update(
            row - 1,
            Seq::new(shape.x as nat, |k: int| if k < 0 { before[row as int][k] } else { before[row - 1][k] }),
        ));
        while x < shape.x
            invariant
                self.layout_ok(),
                self.same_frame(old(self)),
                self.active == old(self).active,
                self.visible@ == old(self).visible@,
                shape == self.extent.shape,
                before == old(self)@.master,
                1 <= row < shape.y,
                0 <= x <= shape.x,
                self@.master == before.update(
                    row - 1,
                    Seq::new(
                        shape.x as nat,
                        |k: int|
                            if k < x {
                                before[row as int][k]
                            } else {
                                before[row - 1][k]
                            },
                    ),
                ),
            decreases shape.x - x,
        {
            let p = IVec2::new(x, row);
            let p_val = get_cell(&self.master, shape, p);
            set_cell(&mut self.master, shape, IVec2::new(x, row - 1), p_val);
            x += 1;
            assert(self@.master =~~= before.update(
                row - 1,
                Seq::new(
                    shape.x as nat,
                    |k: int|
                        if k < x {
                            before[row as int][k]
                        } else {
                            before[row - 1][k]
                        },
                ),
            ));
        }
        assert(self@.master =~~= before.update(row - 1, before[row as int]));
    }

    /// Empties committed row `row`.
    fn clear_row(&mut self, row: i32)
        requires
            old(self).layout_ok(),
            0 <= row < old(self)@.height,
        ensures
            final(self).layout_ok(),
            final(self).same_frame(old(self)),
            final(self).active == old(self).active,
            final(self).visible@ == old(self).visible@,
            final(self)@.master == old(self)@.master.update(
                row as int,
                empty_row(old(self)@.width),
            ),
    {
        let shape = self.extent.shape;
        let ghost before = self@.master;
        let mut x: i32 = 0;
        assert(before =~~= before.update(
            row as int,
            Seq::new(shape.x as nat, |k: int| if k < 0 { CellValue::Empty } else { before[row as int][k] }),
        ));
        while x < shape.x
            invariant
                self.layout_ok(),
                self.same_frame(old(self)),
                self.active == old(self).active,
                self.visible@ == old(self).visible@,
                shape == self.extent.shape,
                before == old(self)@.master,
                0 <= row < shape.y,
                0 <= x <= shape.x,
                self@.master == before.update(
                    row as int,
                    Seq::new(
                        shape.x as nat,
                        |k: int|
                            if k < x {
                                CellValue::Empty
                            } else {
                                before[row as int][k]
                            },
                    ),
                ),
            decreases shape.x - x,
        {
            set_cell(&mut self.master, shape, IVec2::new(x, row), CellValue::Empty);
            x += 1;
            assert(self@.master =~~= before.update(
                row as int,
                Seq::new(
                    shape.x as nat,
                    |k: int|
                        if k < x {
                            CellValue::Empty
                        } else {
                            before[row as int][k]
                        },
                ),
            ));
        }
        assert(self@.master =~~= before.update(row as int, empty_row(shape.x as int)));
    }

    /// Whether no cell of committed row `row` is empty.
    fn row_is_full(&self, row: i32) -> (full: bool)
        requires
            self.layout_ok(),
            0 <= row < self@.height,
        ensures
            full == row_is_full(self@.master[row as int]),
    {
        let shape = self.extent.shape;
        let mut x: i32 = 0;
        while x < shape.x
            invariant
                self.layout_ok(),
                shape == self.extent.shape,
                0 <= row < shape.y,
                0 <= x <= shape.x,
                forall|k: int| 0 <= k < x ==> #[trigger] self@.master[row as int][k]
                    != CellValue::Empty,
            decreases shape.x - x,
        {
            if get_cell(&self.master, shape, IVec2::new(x, row)) == CellValue::Empty {
                assert(self@.master[row as int][x as int] == CellValue::Empty);
                return false;
            }
            x += 1;
        }
        true
    }

    /// Whether one of the four cells holds a committed cube.
    fn any_cells_colliding(&self, check_cells: &[IVec2; 4]) -> (hit: bool)
        requires
            self.layout_ok(),
            forall|i: int| 0 <= i < 4 ==> self@.in_bounds(#[trigger] check_cells[i]@),
        ensures
            hit == (self@.occupied(check_cells[0]@) || self@.occupied(check_cells[1]@)
                || self@.occupied(check_cells[2]@) || self@.occupied(check_cells[3]@)),
    {
        let mut i: usize = 0;
        while i < 4
            invariant
                self.layout_ok(),
                0 <= i <= 4,
                forall|j: int| 0 <= j < 4 ==> self@.in_bounds(#[trigger] check_cells[j]@),
                forall|j: int| 0 <= j < i ==> !self@.occupied(#[trigger] check_cells[j]@),
            decreases 4 - i,
        {
            assert(self@.in_bounds(check_cells[i as int]@));
            if get_cell(&self.master, self.extent.shape, check_cells[i]).is_piece() {
                assert(self@.occupied(check_cells[i as int]@));
                return true;
            }
            i += 1;
        }
        false
    }

    /// Whether one of the four cells lies outside the board.
    fn any_cells_out_of_bounds(&self, check_cells: &[IVec2; 4]) -> (out: bool)
        requires
            self.layout_ok(),
        ensures
            out == (!self@.in_bounds(check_cells[0]@) || !self@.in_bounds(check_cells[1]@)
                || !self@.in_bounds(check_cells[2]@) || !self@.in_bounds(check_cells[3]@)),
    {
        let mut i: usize = 0;
        while i < 4
            invariant
                self.layout_ok(),
                0 <= i <= 4,
                forall|j: int| 0 <= j < i ==> self@.in_bounds(#[trigger] check_cells[j]@),
            decreases 4 - i,
        {
            if !self.extent.contains(check_cells[i]) {
                assert(!self@.in_bounds(check_cells[i as int]@));
                return true;
            }
            i += 1;
        }
        false
    }

    /// The board's verdict on the piece: whether it leaves the board, lies on
    /// a committed cube, or neither.
    pub fn check_piece_collision(&self, piece: &FallingPiece) -> (verdict: PieceCollisionResult)
        requires
            self.wf(),
            piece.wf(),
        ensures
            verdict == self@.check(piece@),
    {
        let projected_cells = self.project_piece(piece);

        if self.any_cells_out_of_bounds(&projected_cells) {
            return PieceCollisionResult::OutOfBounds;
        }
        if self.any_cells_colliding(&projected_cells) {
            return PieceCollisionResult::HitOtherPiece;
        }
        PieceCollisionResult::NoCollision
    }

    /// Shows the piece, as cubes of its type, where the board sees it.
    pub fn write_piece(&mut self, piece: &FallingPiece)
        requires
            old(self).wf(),
            piece.wf(),
        ensures
            final(self).wf(),
            final(self)@ == old(self)@.write(piece@, CellValue::Piece(piece@.piece_type)),
    {
        self.write_piece_with_value(piece, CellValue::Piece(piece.piece_type()))
    }

    /// Shows `value` wherever the board sees a cube of the piece.
    pub fn write_piece_with_value(&mut self, piece: &FallingPiece, value: CellValue)
        requires
            old(self).wf(),
            piece.wf(),
        ensures
            final(self).wf(),
            final(self)@ == old(self)@.write(piece@, value),
    {
        let shape = self.extent.shape;
        let projected_cells = self.project_piece(piece);
        let ghost before = self@;
        let mut i: usize = 0;
        assert(before.visible =~~= before.write_first(piece@, value, 0).visible);
        while i < 4
            invariant
                self.layout_ok(),
                self.same_frame(old(self)),
                self.active == old(self).active,
                self.master@ == old(self).master@,
                shape == self.extent.shape,
                before == old(self)@,
                before.wf(),
                0 <= i <= 4,
                forall|j: int| 0 <= j < 4 ==> (#[trigger] projected_cells[j])@ == before.cell(piece@, j),
                self@.visible == before.write_first(piece@, value, i as int).visible,
            decreases 4 - i,
        {
            let cell_p = projected_cells[i];
            if self.extent.contains(cell_p) {
                set_cell(&mut self.visible, shape, cell_p, value);
            }
            i += 1;
            assert(self@.visible =~~= before.write_first(piece@, value, i as int).visible);
        }
        assert(self@.visible =~~= before.write(piece@, value).visible);
    }

    /// The board stops following the piece: what it shows becomes permanent
    /// and its full rows go.
    pub fn deactivate(&mut self)
        requires
            old(self).wf(),
            has_no_hint(old(self)@.visible),
        ensures
            final(self).wf(),
            final(self)@ == old(self)@.deactivate(),
    {
        proof {
            lemma_commit_wf(self@);
        }
        self.commit();
        self.active = false;
    }

    /// Where the board sees the four cubes of the piece.
    fn project_piece(&self, piece: &FallingPiece) -> (cells: [IVec2; 4])
        requires
            piece.wf(),
        ensures
            forall|i: int| 0 <= i < 4 ==> (#[trigger] cells[i])@ == self@.cell(piece@, i),
    {
        let positions = piece.cell_positions();
        [
            self.projection.project(positions[0]),
            self.projection.project(positions[1]),
            self.projection.project(positions[2]),
            self.projection.project(positions[3]),
        ]
    }
}

proof fn lemma_surviving_empty()
    ensures
        surviving(Seq::empty()) == Seq::<Seq<CellValue>>::empty(),
{
    reveal(Seq::filter);
}

} // verus!
