use vstd::prelude::*;
use crate::cell::{default_cell, Cell, CellV};

verus! {

/// One full rendered frame: an ordered sequence of rows of cells, indexed
/// `[row][col]`. Rows are pre-allocated to the fixed grid height at frame
/// start; a row grows past the configured width when a column beyond its
/// current length is painted.
pub struct GridBuffer {
    pub rows: Vec<Vec<Cell>>,
}

/// The model of one row: the cells' views in order.
pub open spec fn row_v(r: Seq<Cell>) -> Seq<CellV> {
    r.map(|x: int, c: Cell| c@)
}

impl View for GridBuffer {
    type V = Seq<Seq<CellV>>;

    open spec fn view(&self) -> Seq<Seq<CellV>> {
        self.rows@.map(|y: int, r: Vec<Cell>| row_v(r@))
    }
}

/// The configured width of a grid: the length of its first row.
pub open spec fn grid_width(g: Seq<Seq<CellV>>) -> int {
    if g.len() == 0 {
        0
    } else {
        g[0].len() as int
    }
}

/// A grid of exactly `h` rows, each exactly `w` cells long.
pub open spec fn grid_is_rect(g: Seq<Seq<CellV>>, w: int, h: int) -> bool {
    &&& g.len() == h
    &&& forall|y: int| 0 <= y < h ==> (#[trigger] g[y]).len() == w
}

/// The row after writing `cell` at column `col`: a write inside the row
/// replaces the cell; a write past the end pads the row with blank cells up
/// to `col` and stores the cell there.
pub open spec fn row_paint(r: Seq<CellV>, col: int, cell: CellV) -> Seq<CellV> {
    if col < r.len() {
        r.update(col, cell)
    } else {
        r + Seq::new((col - r.len()) as nat, |k: int| default_cell()) + seq![cell]
    }
}

/// The grid after one paint instruction at `(col, row)`.
pub open spec fn paint_model(g: Seq<Seq<CellV>>, col: int, row: int, cell: CellV) -> Seq<
    Seq<CellV>,
> {
    g.update(row, row_paint(g[row], col, cell))
}

/// A fresh blank grid of the given dimensions, every cell the blank cell.
pub fn get_sized_buffer(width: u16, height: u16) -> (r: GridBuffer)
    ensures
        r@.len() == height,
        forall|y: int| 0 <= y < height ==> (#[trigger] r@[y]).len() == width,
        forall|y: int, x: int|
            0 <= y < height && 0 <= x < width ==> #[trigger] r@[y][x] == default_cell(),
        grid_is_rect(r@, width as int, height as int),
{
    let mut rows: Vec<Vec<Cell>> = Vec::new();
    let mut y: u16 = 0;
    while y < height
        invariant
            y <= height,
            rows@.len() == y,
            forall|i: int| 0 <= i < y ==> (#[trigger] row_v(rows@[i]@)).len() == width,
            forall|i: int, x: int|
                0 <= i < y && 0 <= x < width ==> #[trigger] row_v(rows@[i]@)[x] == default_cell(),
        decreases height - y,
    {
        let mut row: Vec<Cell> = Vec::new();
        let mut x: u16 = 0;
        while x < width
            invariant
                x <= width,
                row@.len() == x,
                forall|j: int| 0 <= j < x ==> #[trigger] row@[j]@ == default_cell(),
            decreases width - x,
        {
            row.push(Cell::default());
            x = x + 1;
        }
        rows.push(row);
        y = y + 1;
    }
    let r = GridBuffer { rows };
    proof {
        assert(forall|y0: int| 0 <= y0 < height ==> r@[y0] == row_v(rows@[y0]@));
    }
    r
}

impl GridBuffer {
    /// Number of rows.
    pub fn height(&self) -> (r: usize)
        ensures
            r == self@.len(),
    {
        self.rows.len()
    }

    /// Length of row `row`.
    pub fn row_len(&self, row: usize) -> (r: usize)
        requires
            row < self@.len(),
        ensures
            r == self@[row as int].len(),
    {
        self.rows[row].len()
    }

    /// Reads the cell at `(row, col)`.
    pub fn get(&self, row: usize, col: usize) -> (r: &Cell)
        requires
            row < self@.len(),
            col < self@[row as int].len(),
        ensures
            r@ == self@[row as int][col as int],
    {
        &self.rows[row][col]
    }

    /// Writes `cell` at `(col, row)`. The row must already exist; the column
    /// may lie past the row's current end, in which case the row is padded
    /// with blank cells up to `col` first.
    pub fn paint(&mut self, col: usize, row: usize, cell: Cell)
        requires
            row < old(self)@.len(),
            col < usize::MAX,
        ensures
            final(self)@ == paint_model(old(self)@, col as int, row as int, cell@),
    {
        let ghost old_row = self@[row as int];
        let ghost oldg = self@;
        let line = &mut self.rows[row];
        proof {
            assert(row_v(line@) == old_row);
        }
        while line.len() < col
            invariant
                old_row.len() <= col ==> old_row.len() <= line@.len() <= col,
                old_row.len() > col ==> line@.len() == old_row.len(),
                forall|j: int| 0 <= j < old_row.len() ==> #[trigger] row_v(line@)[j] == old_row[j],
                forall|j: int|
                    old_row.len() <= j < line@.len() ==> #[trigger] row_v(line@)[j]
                        == default_cell(),
            decreases col - line@.len(),
        {
            let ghost prev = line@;
            line.push(Cell::default());
            proof {
                assert forall|j: int| 0 <= j < prev.len() implies #[trigger] row_v(line@)[j]
                    == row_v(prev)[j] by {
                    assert(line@[j] == prev[j]);
                }
                assert(row_v(line@)[prev.len() as int] == default_cell());
            }
        }
        let ghost padded = line@;
        if col < line.len() {
            line[col] = cell;
        } else {
            line.push(cell);
        }
        proof {
            let fin = self.rows@[row as int]@;
            let rp = row_paint(old_row, col as int, cell@);
            assert(fin.len() == rp.len());
            assert forall|j: int| 0 <= j < fin.len() implies #[trigger] row_v(fin)[j] == rp[j] by {
                if j == col {
                    assert(fin[j] == cell);
                } else if j < old_row.len() {
                    assert(fin[j] == padded[j]);
                    assert(row_v(padded)[j] == old_row[j]);
                } else {
                    assert(fin[j] == padded[j]);
                    assert(row_v(padded)[j] == default_cell());
                }
            }
            assert(row_v(fin) =~= rp);
            assert forall|i: int| 0 <= i < self@.len() implies self@[i] == paint_model(
                oldg,
                col as int,
                row as int,
                cell@,
            )[i] by {
                if i != row {
                    assert(self.rows@[i] == old(self).rows@[i]);
                    assert(self@[i] == row_v(self.rows@[i]@));
                    assert(oldg[i] == row_v(old(self).rows@[i]@));
                } else {
                    assert(self@[i] == row_v(fin));
                }
            }
            assert(self@ =~= paint_model(oldg, col as int, row as int, cell@));
        }
    }

    /// Reports the grid dimensions as `(first row length - 1, row count - 1)`,
    /// each saturating at zero; the off-by-one mirrors what the host layout
    /// expects from this backend.
    pub fn size(&self) -> (r: (u16, u16))
        requires
            self@.len() > 0,
            self@[0].len() <= u16::MAX as int + 1,
            self@.len() <= u16::MAX as int + 1,
        ensures
            r.0 == if self@[0].len() == 0 {
                0int
            } else {
                self@[0].len() - 1
            },
            r.1 == self@.len() - 1,
    {
        let w = self.rows[0].len();
        let h = self.rows.len();
        let w1: usize = if w == 0 {
            0
        } else {
            w - 1
        };
        ((w1 as u16), ((h - 1) as u16))
    }
}

/// Content preservation: a position written by `paint` reads back exactly
/// the written cell until the grid is next discarded, and no other
/// position of the grid is disturbed (columns newly created by padding
/// hold the blank cell).
pub proof fn lemma_paint_read_back(g: Seq<Seq<CellV>>, col: int, row: int, cell: CellV)
    requires
        0 <= row < g.len(),
        0 <= col,
    ensures
        paint_model(g, col, row, cell).len() == g.len(),
        paint_model(g, col, row, cell)[row][col] == cell,
        forall|y: int|
            0 <= y < g.len() && y != row ==> #[trigger] paint_model(g, col, row, cell)[y] == g[y],
        forall|x: int|
            0 <= x < g[row].len() && x != col ==> #[trigger] paint_model(g, col, row, cell)[row][x]
                == g[row][x],
        forall|x: int|
            g[row].len() <= x < col ==> #[trigger] paint_model(g, col, row, cell)[row][x]
                == default_cell(),
{
    let rp = row_paint(g[row], col, cell);
    if col < g[row].len() {
        assert(rp[col] == cell);
    } else {
        let pad = Seq::new((col - g[row].len()) as nat, |k: int| default_cell());
        assert(rp[col] == seq![cell][0]);
        assert forall|x: int| 0 <= x < g[row].len() implies #[trigger] rp[x] == g[row][x] by {
            assert(rp[x] == (g[row] + pad)[x]);
        }
        assert forall|x: int| g[row].len() <= x < col implies #[trigger] rp[x] == default_cell() by {
            assert(rp[x] == (g[row] + pad)[x]);
            assert((g[row] + pad)[x] == pad[x - g[row].len()]);
        }
    }
}

impl Clone for GridBuffer {
    /// A deep copy: the clone models the same grid.
    fn clone(&self) -> (r: GridBuffer)
        ensures
            r@ == self@,
    {
        let mut rows: Vec<Vec<Cell>> = Vec::new();
        let h = self.rows.len();
        let mut y: usize = 0;
        while y < h
            invariant
                y <= h,
                self.rows@.len() == h,
                rows@.len() == y,
                forall|i: int| 0 <= i < y ==> #[trigger] row_v(rows@[i]@) == row_v(self.rows@[i]@),
            decreases h - y,
        {
            let src = &self.rows[y];
            let wl = src.len();
            let mut row: Vec<Cell> = Vec::new();
            let mut x: usize = 0;
            while x < wl
                invariant
                    x <= wl,
                    src@.len() == wl,
                    row@.len() == x,
                    forall|j: int| 0 <= j < x ==> #[trigger] row@[j]@ == src@[j]@,
                decreases wl - x,
            {
                row.push(src[x].clone());
                x = x + 1;
            }
            proof {
                assert(row_v(row@) =~= row_v(src@));
            }
            rows.push(row);
            y = y + 1;
        }
        let r = GridBuffer { rows };
        proof {
            assert(r@ =~= self@);
        }
        r
    }
}

/// Structural equality of two whole frames: true exactly when the two grids
/// agree row for row and cell for cell.
pub fn grids_equal(a: &GridBuffer, b: &GridBuffer) -> (r: bool)
    ensures
        r <==> a@ == b@,
{
    if a.rows.len() != b.rows.len() {
        proof {
            assert(a@.len() != b@.len());
        }
        return false;
    }
    let h = a.rows.len();
    let mut y: usize = 0;
    while y < h
        invariant
            y <= h,
            a@.len() == h,
            b@.len() == h,
            a.rows@.len() == h,
            b.rows@.len() == h,
            forall|i: int| 0 <= i < y ==> #[trigger] a@[i] == b@[i],
        decreases h - y,
    {
        if a.rows[y].len() != b.rows[y].len() {
            proof {
                assert(a@[y as int].len() != b@[y as int].len());
            }
            return false;
        }
        let wl = a.rows[y].len();
        let mut x: usize = 0;
        while x < wl
            invariant
                x <= wl,
                y < h,
                a@.len() == h,
                b@.len() == h,
                a.rows@.len() == h,
                b.rows@.len() == h,
                a@[y as int].len() == wl,
                b@[y as int].len() == wl,
                a.rows@[y as int]@.len() == wl,
                b.rows@[y as int]@.len() == wl,
                forall|j: int| 0 <= j < x ==> #[trigger] a@[y as int][j] == b@[y as int][j],
            decreases wl - x,
        {
            if !(a.rows[y][x] == b.rows[y][x]) {
                proof {
                    assert(a@[y as int][x as int] != b@[y as int][x as int]);
                }
                return false;
            }
            x = x + 1;
        }
        proof {
            assert(a@[y as int] =~= b@[y as int]);
        }
        y = y + 1;
    }
    proof {
        assert(a@ =~~= b@);
    }
    true
}

} // verus!
