//! The grid: a rectangle of cells stored row after row.
use vstd::prelude::*;
use vstd::arithmetic::div_mod::lemma_fundamental_div_mod_converse;

use crate::cell::Cell;
use crate::error::{GridSizeError, ParseGridError};
use crate::life::{alive_at, is_rectangular, live_neighbors, one_if, step, survives, Board};
use crate::text::{
    board_text, cell_rows, is_first_mismatch, is_live_char, lines, push_char, read_rows, read_text,
    row_text, visible, visible_lines, DEAD,
};

verus! {

broadcast use crate::cell::group_cell_flags;

/// A rectangular grid of [`Cell`]s for playing the Game of Life.
///
/// The cells are stored in row-major order.
#[derive(Clone, Debug, PartialEq, Eq)]
pub struct Grid {
    /// The cells, row after row.
    cells: Vec<Cell>,
    /// Number of rows in the grid.
    nrow: usize,
    /// Number of columns in the grid.
    ncol: usize,
}

impl View for Grid {
    type V = Board;

    /// The board of living and dead cells, row by row.
    closed spec fn view(&self) -> Board {
        Seq::new(
            self.nrow as nat,
            |i: int| Seq::new(self.ncol as nat, |j: int| self.cells@[i * self.ncol + j]@),
        )
    }
}

/// Cell `(i, j)` of an `nrow` by `ncol` grid lies in the buffer at `i * ncol + j`,
/// and that place gives back its row and column.
proof fn lemma_flat_index(i: int, j: int, nrow: int, ncol: int)
    requires
        0 <= i < nrow,
        0 <= j < ncol,
    ensures
        0 <= i * ncol + j < nrow * ncol,
        (i * ncol + j) / ncol == i,
        (i * ncol + j) % ncol == j,
{
    assert(0 <= i * ncol + j < nrow * ncol) by (nonlinear_arith)
        requires
            0 <= i < nrow,
            0 <= j < ncol,
    ;
    lemma_fundamental_div_mod_converse(i * ncol + j, ncol, i, j);
}

/// The living cells in columns `lo .. hi` of row `m`, leaving out `(i, j)` itself.
spec fn row_count(b: Board, i: int, j: int, m: int, lo: int, hi: int) -> nat
    decreases hi - lo,
{
    if hi <= lo {
        0
    } else {
        row_count(b, i, j, m, lo, hi - 1) + one_if(alive_at(b, m, hi - 1) && (m != i || hi - 1 != j))
    }
}

/// The living cells in rows `top .. bottom` and columns `lo .. hi`, leaving out `(i, j)` itself.
spec fn block_count(b: Board, i: int, j: int, top: int, bottom: int, lo: int, hi: int) -> nat
    decreases bottom - top,
{
    if bottom <= top {
        0
    } else {
        block_count(b, i, j, top, bottom - 1, lo, hi) + row_count(b, i, j, bottom - 1, lo, hi)
    }
}

/// The neighbourhood of `(i, j)` clipped to the board holds every living neighbour.
proof fn lemma_clipped_block(b: Board, i: int, j: int, top: int, bottom: int, lo: int, hi: int)
    requires
        0 <= i < b.len(),
        0 <= j < b[i].len(),
        forall|m: int| 0 <= m < b.len() ==> (#[trigger] b[m]).len() == b[i].len(),
        top == if i > 0 { i - 1 } else { 0 },
        bottom == if i + 1 < b.len() { i + 2 } else { b.len() as int },
        lo == if j > 0 { j - 1 } else { 0 },
        hi == if j + 1 < b[i].len() { j + 2 } else { b[i].len() as int },
    ensures
        block_count(b, i, j, top, bottom, lo, hi) == live_neighbors(b, i, j),
{
    reveal_with_fuel(block_count, 4);
    reveal_with_fuel(row_count, 4);
}

impl Grid {
    /// The buffer holds exactly `nrow * ncol` cells, and neither dimension is 0.
    closed spec fn is_shaped(&self) -> bool {
        &&& self.nrow >= 1
        &&& self.ncol >= 1
        &&& self.cells.len() == self.nrow * self.ncol
    }

    /// The grid is well formed: shaped, and no cell is in the middle of a tick.
    pub closed spec fn wf(&self) -> bool {
        &&& self.is_shaped()
        &&& forall|k: int| 0 <= k < self.cells.len() ==> (#[trigger] self.cells@[k]).is_settled()
    }

    /// The view of a well-formed grid is a rectangular board of its dimensions.
    pub proof fn lemma_view_shape(&self)
        requires
            self.wf(),
        ensures
            is_rectangular(self@),
            self@.len() == self.spec_dim().0,
            self@[0].len() == self.spec_dim().1,
    {
    }

    /// The number of rows and the number of columns.
    pub closed spec fn spec_dim(&self) -> (usize, usize) {
        (self.nrow, self.ncol)
    }

    /// Creates a `Grid` from its cells in row-major order and its dimensions.
    pub(crate) fn from_parts(cells: Vec<Cell>, dim: (usize, usize)) -> (r: Grid)
        requires
            dim.0 >= 1,
            dim.1 >= 1,
            cells.len() == dim.0 * dim.1,
            forall|k: int| 0 <= k < cells.len() ==> (#[trigger] cells@[k]).is_settled(),
        ensures
            r.wf(),
            r.spec_dim() == dim,
            forall|i: int, j: int|
                0 <= i < dim.0 && 0 <= j < dim.1 ==> #[trigger] r@[i][j] == cells@[i * dim.1 + j]@,
    {
        Grid { cells, nrow: dim.0, ncol: dim.1 }
    }

    /// Creates a grid of `nrow` rows and `ncol` columns of dead cells.
    ///
    /// Fails with [`GridSizeError::Zero`] when either dimension is 0.
    pub fn new(nrow: usize, ncol: usize) -> (r: Result<Grid, GridSizeError>)
        requires
            nrow * ncol <= usize::MAX,
        ensures
            r is Err <==> nrow == 0 || ncol == 0,
            r is Err ==> r == Err::<Grid, GridSizeError>(GridSizeError::Zero),
            r matches Ok(g) ==> {
                &&& g.wf()
                &&& g.spec_dim() == (nrow, ncol)
                &&& forall|i: int, j: int| 0 <= i < nrow && 0 <= j < ncol ==> !(#[trigger] g@[i][j])
            },
    {
        if nrow == 0 || ncol == 0 {
            return Err(GridSizeError::Zero);
        }
        let len: usize = nrow * ncol;
        let mut cells: Vec<Cell> = Vec::new();
        while cells.len() < len
            invariant
                cells.len() <= len,
                forall|k: int| 0 <= k < cells.len() ==> !(#[trigger] cells@[k])@ && cells@[k].is_settled(),
            decreases len - cells.len(),
        {
            cells.push(Cell::new_dead());
        }
        let g = Grid::from_parts(cells, (nrow, ncol));
        assert forall|i: int, j: int| 0 <= i < nrow && 0 <= j < ncol implies !(#[trigger] g@[i][j]) by {
            lemma_flat_index(i, j, nrow as int, ncol as int);
        }
        Ok(g)
    }

    /// Creates a grid from rows of cell characters, one row for each line,
    /// whitespace already left out: '·' (U+00B7 MIDDLE DOT) is a dead cell and
    /// anything else a living one.
    ///
    /// Fails with [`ParseGridError::NotRectangular`] at the first row whose
    /// length differs from that of the first row, and with
    /// [`ParseGridError::Empty`] when the rows hold no cell.
    pub fn from_rows(rows: &Vec<Vec<char>>) -> (r: Result<Grid, ParseGridError>)
        ensures
            match r {
                Ok(g) => g.wf() && read_rows(rows.deep_view()) == Ok::<Board, ParseGridError>(g@),
                Err(e) => read_rows(rows.deep_view()) == Err::<Board, ParseGridError>(e),
            },
    {
        let ghost dv = rows.deep_view();
        let mut nrow: usize = 0;
        let mut ncol: usize = 0;
        let mut cells: Vec<Cell> = Vec::new();
        while nrow < rows.len()
            invariant
                dv == rows.deep_view(),
                nrow <= rows.len(),
                nrow >= 1 ==> ncol == dv[0].len(),
                forall|m: int| 1 <= m < nrow ==> (#[trigger] dv[m]).len() == ncol,
                cells.len() == nrow * ncol,
                forall|k: int| 0 <= k < cells.len() ==> (#[trigger] cells@[k]).is_settled(),
                forall|a: int, b: int|
                    0 <= a < nrow && 0 <= b < ncol ==> cells@[a * ncol + b]@ == is_live_char(
                        #[trigger] dv[a][b],
                    ),
            decreases rows.len() - nrow,
        {
            let line = &rows[nrow];
            proof {
                assert(dv[nrow as int] =~= line@);
            }
            let ncell = line.len();
            if nrow == 0 {
                ncol = ncell;
            } else if ncell != ncol {
                proof {
                    assert(is_first_mismatch(dv, nrow as int));
                    let k = choose|k: int| is_first_mismatch(dv, k);
                    assert(k == nrow) by {
                        if k < nrow {
                            assert(dv[k].len() == ncol);
                        } else if k > nrow {
                            assert(dv[nrow as int].len() == dv[0].len());
                        }
                    }
                }
                return Err(ParseGridError::NotRectangular { line: nrow + 1, found: ncell, expected: ncol });
            }
            let ghost start = cells.len();
            let mut b: usize = 0;
            while b < ncell
                invariant
                    dv == rows.deep_view(),
                    nrow < rows.len(),
                    line@ == dv[nrow as int],
                    ncell == line.len(),
                    ncell == ncol,
                    nrow >= 1 ==> ncol == dv[0].len(),
                    start == nrow * ncol,
                    b <= ncell,
                    cells.len() == start + b,
                    forall|k: int| 0 <= k < cells.len() ==> (#[trigger] cells@[k]).is_settled(),
                    forall|a: int, c: int|
                        0 <= a < nrow && 0 <= c < ncol ==> cells@[a * ncol + c]@ == is_live_char(
                            #[trigger] dv[a][c],
                        ),
                    forall|c: int| 0 <= c < b ==> cells@[start + c]@ == is_live_char(#[trigger] dv[nrow as int][c]),
                decreases ncell - b,
            {
                let cell = if line[b] == DEAD {
                    Cell::new_dead()
                } else {
                    Cell::new_alive()
                };
                let ghost before = cells@;
                cells.push(cell);
                proof {
                    assert forall|a: int, c: int| 0 <= a < nrow && 0 <= c < ncol implies cells@[a * ncol + c]@
                        == is_live_char(#[trigger] dv[a][c]) by {
                        lemma_flat_index(a, c, nrow as int, ncol as int);
                        assert(cells@[a * ncol + c] == before[a * ncol + c]);
                    }
                }
                b += 1;
            }
            proof {
                assert((nrow + 1) * ncol == nrow * ncol + ncol) by (nonlinear_arith);
                assert forall|a: int, c: int| 0 <= a < nrow + 1 && 0 <= c < ncol implies cells@[a * ncol + c]@
                    == is_live_char(#[trigger] dv[a][c]) by {
                    if a == nrow {
                        assert(a * ncol + c == start + c);
                    }
                }
            }
            nrow += 1;
        }
        proof {
            assert(!exists|k: int| 1 <= k < dv.len() && (#[trigger] dv[k]).len() != dv[0].len());
        }
        if cells.len() == 0 {
            proof {
                if nrow >= 1 && ncol >= 1 {
                    assert(nrow * ncol >= 1) by (nonlinear_arith)
                        requires
                            nrow >= 1,
                            ncol >= 1,
                    ;
                }
            }
            return Err(ParseGridError::Empty);
        }
        proof {
            if ncol == 0 {
                assert(nrow * ncol == 0) by (nonlinear_arith)
                    requires
                        ncol == 0,
                ;
            }
            if nrow == 0 {
                assert(nrow * ncol == 0);
            }
        }
        let g = Grid::from_parts(cells, (nrow, ncol));
        proof {
            let board = dv.map_values(|row: Seq<char>| row.map_values(|c: char| is_live_char(c)));
            assert forall|a: int, c: int| 0 <= a < nrow && 0 <= c < ncol implies #[trigger] g@[a][c]
                == board[a][c] by {
                assert(dv[a].len() == ncol);
            }
            assert(g@ =~~= board);
        }
        Ok(g)
    }

    /// Reads a grid from text: one row for each line, whitespace ignored,
    /// '·' (U+00B7 MIDDLE DOT) a dead cell and anything else a living one.
    ///
    /// Fails with [`ParseGridError::NotRectangular`] at the first line whose
    /// number of cells differs from that of the first line, and with
    /// [`ParseGridError::Empty`] when the text holds no cell.
    pub fn parse(s: &str) -> (r: Result<Grid, ParseGridError>)
        ensures
            match r {
                Ok(g) => g.wf() && read_text(s@) == Ok::<Board, ParseGridError>(g@),
                Err(e) => read_text(s@) == Err::<Board, ParseGridError>(e),
            },
    {
        let rows = visible_lines(s);
        Grid::from_rows(&rows)
    }

    /// Writes the grid as text: one line for each row, each cell written as a
    /// space followed by 'X' when alive or '·' when dead, each line ended by a
    /// line feed.
    pub fn to_string(&self) -> (r: String)
        requires
            self.wf(),
        ensures
            r@ == board_text(self@),
    {
        let ghost b = self@;
        let mut out = String::new();
        let mut i: usize = 0;
        while i < self.nrow
            invariant
                self.wf(),
                b == self@,
                i <= self.nrow,
                out@ == board_text(b.take(i as int)),
            decreases self.nrow - i,
        {
            let mut j: usize = 0;
            while j < self.ncol
                invariant
                    self.wf(),
                    b == self@,
                    i < self.nrow,
                    j <= self.ncol,
                    out@ == board_text(b.take(i as int)) + row_text(b[i as int].take(j as int)),
                decreases self.ncol - j,
            {
                proof {
                    lemma_flat_index(i as int, j as int, self.nrow as int, self.ncol as int);
                    assert(b[i as int].take(j + 1).drop_last() =~= b[i as int].take(j as int));
                }
                push_char(&mut out, ' ');
                if self.cells[i * self.ncol + j].alive {
                    push_char(&mut out, 'X');
                } else {
                    push_char(&mut out, DEAD);
                }
                j += 1;
            }
            push_char(&mut out, '\n');
            proof {
                assert(b.take(i + 1).drop_last() =~= b.take(i as int));
                assert(b[i as int].take(self.ncol as int) =~= b[i as int]);
            }
            i += 1;
        }
        proof {
            assert(b.take(self.nrow as int) =~= b);
        }
        out
    }

    /// Returns the number of rows and columns of the grid.
    pub fn dim(&self) -> (r: (usize, usize))
        ensures
            r == self.spec_dim(),
    {
        (self.nrow, self.ncol)
    }

    /// Returns the cell in row `i` and column `j`.
    pub fn get(&self, i: usize, j: usize) -> (r: Cell)
        requires
            self.wf(),
            i < self.spec_dim().0,
            j < self.spec_dim().1,
        ensures
            r@ == self@[i as int][j as int],
            r.is_settled(),
    {
        proof {
            lemma_flat_index(i as int, j as int, self.nrow as int, self.ncol as int);
        }
        self.cells[i * self.ncol + j]
    }

    /// Replaces the cell in row `i` and column `j`.
    pub fn set(&mut self, i: usize, j: usize, cell: Cell)
        requires
            old(self).wf(),
            i < old(self).spec_dim().0,
            j < old(self).spec_dim().1,
            cell.is_settled(),
        ensures
            final(self).wf(),
            final(self).spec_dim() == old(self).spec_dim(),
            final(self)@ == old(self)@.update(i as int, old(self)@[i as int].update(j as int, cell@)),
    {
        let ghost before = self@;
        proof {
            lemma_flat_index(i as int, j as int, self.nrow as int, self.ncol as int);
        }
        let k = i * self.ncol + j;
        self.cells.set(k, cell);
        proof {
            assert forall|a: int, b: int| 0 <= a < self.nrow && 0 <= b < self.ncol implies
                #[trigger] self@[a][b] == before.update(i as int, before[i as int].update(j as int, cell@))[a][b] by {
                lemma_flat_index(a, b, self.nrow as int, self.ncol as int);
                lemma_flat_index(i as int, j as int, self.nrow as int, self.ncol as int);
                if a != i || b != j {
                    assert(a * self.ncol + b != k) by {
                        assert((a * self.ncol + b) / (self.ncol as int) == a);
                        assert((a * self.ncol + b) % (self.ncol as int) == b);
                    }
                }
            }
            assert(self@ =~~= before.update(i as int, before[i as int].update(j as int, cell@)));
        }
    }

    /// Returns the number of living neighbours of a cell.
    fn live_neighbors(&self, pos: (usize, usize)) -> (r: u8)
        requires
            self.is_shaped(),
            pos.0 < self.nrow,
            pos.1 < self.ncol,
        ensures
            r as nat == live_neighbors(self@, pos.0 as int, pos.1 as int),
    {
        let (i, j) = pos;
        let ghost b = self@;
        let top = i.saturating_sub(1);
        let bottom = if i + 1 < self.nrow { i + 2 } else { self.nrow };
        let lo = j.saturating_sub(1);
        let hi = if j + 1 < self.ncol { j + 2 } else { self.ncol };
        let mut live_neighbors: u8 = 0;
        let mut m = top;
        while m < bottom
            invariant
                self.is_shaped(),
                b == self@,
                i < self.nrow,
                j < self.ncol,
                top <= m <= bottom <= self.nrow,
                bottom <= i + 2,
                top + 1 >= i,
                lo <= hi <= self.ncol,
                hi <= j + 2,
                lo + 1 >= j,
                live_neighbors as nat == block_count(b, i as int, j as int, top as int, m as int, lo as int, hi as int),
                live_neighbors <= 3 * (m - top),
            decreases bottom - m,
        {
            let mut n = lo;
            while n < hi
                invariant
                    self.is_shaped(),
                    b == self@,
                    top <= m < bottom <= self.nrow,
                    bottom <= i + 2,
                    top + 1 >= i,
                    lo <= n <= hi <= self.ncol,
                    hi <= j + 2,
                    lo + 1 >= j,
                    live_neighbors as nat == block_count(b, i as int, j as int, top as int, m as int, lo as int, hi as int)
                        + row_count(b, i as int, j as int, m as int, lo as int, n as int),
                    live_neighbors <= 3 * (m - top) + (n - lo),
                decreases hi - n,
            {
                proof {
                    lemma_flat_index(m as int, n as int, self.nrow as int, self.ncol as int);
                }
                if self.cells[m * self.ncol + n].alive && (m != i || n != j) {
                    live_neighbors += 1;
                }
                n += 1;
            }
            m += 1;
        }
        proof {
            lemma_clipped_block(b, i as int, j as int, top as int, bottom as int, lo as int, hi as int);
        }
        live_neighbors
    }

    /// Makes time tick: the next generation of cells replaces the current one.
    ///
    /// Births and deaths happen simultaneously according to the rules of
    /// Conway's Game of Life: every successor is worked out from the cells as
    /// they were before the tick, and only then do all cells take it on.
    pub fn tick(&mut self)
        requires
            old(self).wf(),
        ensures
            final(self).wf(),
            final(self).spec_dim() == old(self).spec_dim(),
            final(self)@ == step(old(self)@),
    {
        let ghost b = self@;
        let ghost alive0 = self.cells@.map_values(|c: Cell| c@);
        let nrow = self.nrow;
        let ncol = self.ncol;
        let mut i: usize = 0;
        while i < nrow
            invariant
                self.is_shaped(),
                self.nrow == nrow,
                self.ncol == ncol,
                i <= nrow,
                b == self@,
                alive0.len() == self.cells.len(),
                forall|k: int| 0 <= k < self.cells.len() ==> (#[trigger] self.cells@[k])@ == alive0[k],
                forall|k: int| i * ncol <= k < self.cells.len() ==> (#[trigger] self.cells@[k]).is_settled(),
                forall|k: int| 0 <= k < i * ncol ==> (#[trigger] self.cells@[k]).lives == survives(
                    b[k / ncol as int][k % ncol as int], live_neighbors(b, k / ncol as int, k % ncol as int)),
            decreases nrow - i,
        {
            let mut j: usize = 0;
            while j < ncol
                invariant
                    self.is_shaped(),
                    self.nrow == nrow,
                    self.ncol == ncol,
                    i < nrow,
                    j <= ncol,
                    b == self@,
                    alive0.len() == self.cells.len(),
                    forall|k: int| 0 <= k < self.cells.len() ==> (#[trigger] self.cells@[k])@ == alive0[k],
                    forall|k: int| i * ncol + j <= k < self.cells.len() ==> (#[trigger] self.cells@[k]).is_settled(),
                    forall|k: int| 0 <= k < i * ncol + j ==> (#[trigger] self.cells@[k]).lives == survives(
                        b[k / ncol as int][k % ncol as int], live_neighbors(b, k / ncol as int, k % ncol as int)),
                decreases ncol - j,
            {
                let live_neighbors = self.live_neighbors((i, j));
                proof {
                    lemma_flat_index(i as int, j as int, nrow as int, ncol as int);
                }
                let k = i * ncol + j;
                let mut cell = self.cells[k];
                if !cell.alive {
                    if live_neighbors == 3 {
                        cell.lives = true;
                    }
                } else if live_neighbors != 2 && live_neighbors != 3 {
                    cell.lives = false;
                }
                self.cells.set(k, cell);
                proof {
                    assert forall|a: int, c: int| 0 <= a < nrow && 0 <= c < ncol implies
                        #[trigger] self@[a][c] == b[a][c] by {
                        lemma_flat_index(a, c, nrow as int, ncol as int);
                    }
                    assert(self@ =~~= b);
                }
                j += 1;
            }
            proof {
                assert((i + 1) * ncol == i * ncol + ncol) by (nonlinear_arith);
            }
            i += 1;
        }
        let mut k: usize = 0;
        while k < self.cells.len()
            invariant
                self.is_shaped(),
                self.nrow == nrow,
                self.ncol == ncol,
                nrow * ncol == self.cells.len(),
                forall|k: int| 0 <= k < self.cells.len() ==> (#[trigger] self.cells@[k]).lives == survives(
                    b[k / ncol as int][k % ncol as int], live_neighbors(b, k / ncol as int, k % ncol as int)),
                forall|m: int| 0 <= m < k ==> (#[trigger] self.cells@[m]).is_settled(),
            decreases self.cells.len() - k,
        {
            let mut cell = self.cells[k];
            cell.alive = cell.lives;
            self.cells.set(k, cell);
            k += 1;
        }
        proof {
            assert forall|a: int, c: int| 0 <= a < nrow && 0 <= c < ncol implies #[trigger] self@[a][c]
                == step(b)[a][c] by {
                lemma_flat_index(a, c, nrow as int, ncol as int);
            }
            assert(self@ =~~= step(b));
        }
    }
}

/// Reading keeps the shape of a rectangular text: when a text has at least one
/// line, every line has as many cells as the first and the first has at
/// least one, reading it succeeds, and the grid read has one row for each
/// line and one column for each cell of the first line.
pub proof fn lemma_parse_dimensions(s: Seq<char>)
    requires
        lines(s).len() >= 1,
        visible(lines(s)[0]).len() >= 1,
        forall|k: int|
            0 <= k < lines(s).len() ==> (#[trigger] visible(lines(s)[k])).len() == visible(
                lines(s)[0],
            ).len(),
    ensures
        read_text(s) is Ok,
        forall|g: Grid|
            g.wf() && read_text(s) == Ok::<Board, ParseGridError>(g@) ==> {
                &&& (#[trigger] g.spec_dim()).0 == lines(s).len()
                &&& g.spec_dim().1 == visible(lines(s)[0]).len()
            },
{
    let rows = cell_rows(s);
    assert forall|k: int| 0 <= k < rows.len() implies (#[trigger] rows[k]).len() == rows[0].len() by {
        assert(rows[k] == visible(lines(s)[k]));
    }
    assert forall|g: Grid| g.wf() && read_text(s) == Ok::<Board, ParseGridError>(g@) implies {
        &&& (#[trigger] g.spec_dim()).0 == lines(s).len()
        &&& g.spec_dim().1 == visible(lines(s)[0]).len()
    } by {
        g.lemma_view_shape();
    }
}

impl std::str::FromStr for Grid {
    type Err = ParseGridError;

    fn from_str(s: &str) -> Result<Grid, ParseGridError> {
        Grid::parse(s)
    }
}

} // verus!
