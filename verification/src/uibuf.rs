//! The screen buffer: an addressable grid of character cells that
//! remembers which cells changed since the last physical repaint.
//!
//! Each cell carries its content, a foreground and a background colour,
//! and a `dirty` flag.  `update_cell_content` sets the flag; the host
//! repaints every dirty cell and clears the flag with `clear_dirty`.
//! A write outside the grid is a silent no-op: it never touches any
//! other cell.

use vstd::prelude::*;
use vstd::pervasive::VecAdditionalExecFns;

verus! {

/// The closed set of colours the core ever selects from; the host
/// translates them to the terminal's native palette.
#[derive(Clone, Copy, PartialEq, Eq, Debug)]
pub enum CharColor {
    Default,
    Blue,
    Black,
}

/// The closed set of styles the core ever selects from.
#[derive(Clone, Copy, PartialEq, Eq, Debug)]
pub enum CharStyle {
    Normal,
}

/// One character cell of the grid.  `x` and `y` are the cell's own
/// position, kept so the host can repaint from the cell alone.
#[derive(Clone, Copy, PartialEq, Eq, Debug)]
pub struct Cell {
    pub x: usize,
    pub y: usize,
    pub ch: char,
    pub fg: CharColor,
    pub bg: CharColor,
    pub dirty: bool,
}

/// A width x height grid of cells, stored row by row.
pub struct UIBuffer {
    width: usize,
    height: usize,
    cells: Vec<Cell>,
}

/// The blank cell a fresh buffer is filled with.
pub open spec fn blank_cell(x: int, y: int) -> Cell {
    Cell {
        x: x as usize,
        y: y as usize,
        ch: ' ',
        fg: CharColor::Default,
        bg: CharColor::Default,
        dirty: false,
    }
}

/// `c0` with its content replaced by `ch` and its changed-flag set:
/// what `update_cell_content` leaves in the targeted cell.
pub open spec fn written(c0: Cell, ch: char) -> Cell {
    Cell { x: c0.x, y: c0.y, ch: ch, fg: c0.fg, bg: c0.bg, dirty: true }
}

/// `c0` with its changed-flag cleared: what `clear_dirty` leaves in
/// the targeted cell.
pub open spec fn cleaned(c0: Cell) -> Cell {
    Cell { x: c0.x, y: c0.y, ch: c0.ch, fg: c0.fg, bg: c0.bg, dirty: false }
}

/// Position of the cell (x, y) in the row-by-row storage of a grid
/// that is `w` columns wide.
pub open spec fn cell_index(w: int, x: int, y: int) -> int {
    y * w + x
}

/// A cell index stays inside a `w * h` grid.
proof fn lemma_index_bound(w: int, h: int, x: int, y: int)
    by (nonlinear_arith)
    requires
        0 <= x < w,
        0 <= y < h,
    ensures
        0 <= cell_index(w, x, y) < w * h,
{
}

/// Distinct coordinates give distinct cell indices.
proof fn lemma_index_injective(w: int, x1: int, y1: int, x2: int, y2: int)
    by (nonlinear_arith)
    requires
        0 <= x1 < w,
        0 <= x2 < w,
        0 <= y1,
        0 <= y2,
        x1 != x2 || y1 != y2,
    ensures
        cell_index(w, x1, y1) != cell_index(w, x2, y2),
{
}

impl UIBuffer {
    /// The configured number of columns.
    pub closed spec fn spec_width(self) -> nat {
        self.width as nat
    }

    /// The configured number of rows.
    pub closed spec fn spec_height(self) -> nat {
        self.height as nat
    }

    /// The cell at column `x`, row `y`.
    pub closed spec fn spec_cell(self, x: int, y: int) -> Cell {
        self.cells@[cell_index(self.width as int, x, y)]
    }

    /// Whether (x, y) addresses a cell of the grid.
    pub open spec fn in_bounds(self, x: int, y: int) -> bool {
        0 <= x < self.spec_width() && 0 <= y < self.spec_height()
    }

    /// Well-formedness: the storage holds exactly width * height cells,
    /// and every cell records its own position.
    pub closed spec fn wf(self) -> bool {
        &&& self.cells@.len() == self.spec_width() * self.spec_height()
        &&& forall|x: int, y: int|
            self.in_bounds(x, y) ==> (#[trigger] self.spec_cell(x, y)).x == x
                && self.spec_cell(x, y).y == y
    }

    /// No cell of the grid is marked as changed.
    pub open spec fn all_clean(self) -> bool {
        forall|x: int, y: int|
            self.in_bounds(x, y) ==> !(#[trigger] self.spec_cell(x, y)).dirty
    }

    /// The grid dimensions each fit in one machine word.
    pub proof fn lemma_dims_bounded(self)
        ensures
            self.spec_width() <= usize::MAX,
            self.spec_height() <= usize::MAX,
    {
    }

    /// A fresh grid of blank, clean cells.
    pub fn new(width: usize, height: usize) -> (buf: UIBuffer)
        requires
            width * height <= usize::MAX,
        ensures
            buf.wf(),
            buf.spec_width() == width as nat,
            buf.spec_height() == height as nat,
            forall|x: int, y: int|
                buf.in_bounds(x, y) ==> #[trigger] buf.spec_cell(x, y) == blank_cell(x, y),
    {
        let mut cells: Vec<Cell> = Vec::new();
        let mut y: usize = 0;
        while y < height
            invariant
                y <= height,
                width * height <= usize::MAX,
                cells@.len() == y * width,
                forall|xx: int, yy: int|
                    0 <= xx < width && 0 <= yy < y ==> cells@[#[trigger] cell_index(
                        width as int,
                        xx,
                        yy,
                    )] == blank_cell(xx, yy),
            decreases height - y,
        {
            let mut x: usize = 0;
            while x < width
                invariant
                    x <= width,
                    y < height,
                    width * height <= usize::MAX,
                    cells@.len() == y * width + x,
                    forall|xx: int, yy: int|
                        0 <= xx < width && 0 <= yy < y ==> cells@[#[trigger] cell_index(
                            width as int,
                            xx,
                            yy,
                        )] == blank_cell(xx, yy),
                    forall|xx: int|
                        0 <= xx < x ==> cells@[#[trigger] cell_index(width as int, xx, y as int)]
                            == blank_cell(xx, y as int),
                decreases width - x,
            {
                let c = Cell {
                    x: x,
                    y: y,
                    ch: ' ',
                    fg: CharColor::Default,
                    bg: CharColor::Default,
                    dirty: false,
                };
                let ghost cells0 = cells@;
                cells.push(c);
                proof {
                    assert forall|xx: int, yy: int| 0 <= xx < width && 0 <= yy < y implies cells@[
                        #[trigger] cell_index(width as int, xx, yy)] == blank_cell(xx, yy) by {
                        lemma_index_bound(width as int, y as int, xx, yy);
                        assert(width * y == y * width) by (nonlinear_arith);
                        assert(cell_index(width as int, xx, yy) < cells0.len());
                        assert(cells@[cell_index(width as int, xx, yy)] == cells0[cell_index(
                            width as int,
                            xx,
                            yy,
                        )]);
                    }
                    assert forall|xx: int| 0 <= xx < x + 1 implies cells@[#[trigger] cell_index(
                        width as int,
                        xx,
                        y as int,
                    )] == blank_cell(xx, y as int) by {
                        if xx < x {
                            assert(cell_index(width as int, xx, y as int) < cells0.len());
                            assert(cells@[cell_index(width as int, xx, y as int)] == cells0[
                                cell_index(width as int, xx, y as int)]);
                        } else {
                            assert(cell_index(width as int, xx, y as int) == cells0.len() as int);
                        }
                    }
                }
                x = x + 1;
            }
            y = y + 1;
            proof {
                assert(cells@.len() == (y - 1) * width + width == y * width) by (nonlinear_arith)
                    requires cells@.len() == (y - 1) * width + width, y >= 1;
            }
        }
        let buf = UIBuffer { width, height, cells };
        proof {
            assert(buf.cells@.len() == buf.spec_width() * buf.spec_height()) by (nonlinear_arith)
                requires buf.cells@.len() == buf.height * buf.width;
            assert forall|x: int, y: int| buf.in_bounds(x, y) implies #[trigger] buf.spec_cell(x, y)
                == blank_cell(x, y) by {
                lemma_index_bound(buf.width as int, buf.height as int, x, y);
            }
        }
        buf
    }

    /// The configured number of columns; fixed for the buffer's lifetime.
    pub fn get_width(&self) -> (w: usize)
        ensures
            w as nat == self.spec_width(),
    {
        self.width
    }

    /// The configured number of rows; fixed for the buffer's lifetime.
    pub fn get_height(&self) -> (h: usize)
        ensures
            h as nat == self.spec_height(),
    {
        self.height
    }

    /// Read one cell of the grid.
    pub fn get_cell(&self, x: usize, y: usize) -> (c: Cell)
        requires
            self.wf(),
            self.in_bounds(x as int, y as int),
        ensures
            c == self.spec_cell(x as int, y as int),
    {
        let n = self.cells.len();
        proof {
            lemma_index_bound(self.width as int, self.height as int, x as int, y as int);
            assert(cell_index(self.width as int, x as int, y as int) < n);
        }
        let idx: usize = y * self.width + x;
        self.cells[idx]
    }

    /// Write `ch` into the cell at (x, y) and mark that cell changed;
    /// its colours and position are untouched, as is every other cell.
    /// A position outside the grid is a silent no-op.
    pub fn update_cell_content(&mut self, x: usize, y: usize, ch: char)
        requires
            old(self).wf(),
        ensures
            final(self).wf(),
            final(self).spec_width() == old(self).spec_width(),
            final(self).spec_height() == old(self).spec_height(),
            old(self).in_bounds(x as int, y as int) ==> final(self).spec_cell(x as int, y as int)
                == written(old(self).spec_cell(x as int, y as int), ch),
            forall|i: int, j: int|
                old(self).in_bounds(i, j) && (i != x || j != y)
                    ==> #[trigger] final(self).spec_cell(i, j) == old(self).spec_cell(i, j),
            !old(self).in_bounds(x as int, y as int) ==> *final(self) == *old(self),
    {
        if x < self.width && y < self.height {
            let n = self.cells.len();
            proof {
                lemma_index_bound(self.width as int, self.height as int, x as int, y as int);
                assert(cell_index(self.width as int, x as int, y as int) < n);
            }
            let idx: usize = y * self.width + x;
            let mut c: Cell = self.cells[idx];
            c.ch = ch;
            c.dirty = true;
            self.cells.set(idx, c);
            proof {
                assert forall|i: int, j: int|
                    old(self).in_bounds(i, j) && (i != x || j != y)
                        implies #[trigger] self.spec_cell(i, j) == old(self).spec_cell(i, j) by {
                    lemma_index_bound(self.width as int, self.height as int, i, j);
                    lemma_index_injective(self.width as int, i, j, x as int, y as int);
                }
            }
        }
    }

    /// Clear the changed-flag of the cell at (x, y): the host calls this
    /// once it has physically repainted that cell.  Nothing else of the
    /// cell, and no other cell, is touched.
    pub fn clear_dirty(&mut self, x: usize, y: usize)
        requires
            old(self).wf(),
            old(self).in_bounds(x as int, y as int),
        ensures
            final(self).wf(),
            final(self).spec_width() == old(self).spec_width(),
            final(self).spec_height() == old(self).spec_height(),
            final(self).spec_cell(x as int, y as int) == cleaned(
                old(self).spec_cell(x as int, y as int),
            ),
            forall|i: int, j: int|
                old(self).in_bounds(i, j) && (i != x || j != y)
                    ==> #[trigger] final(self).spec_cell(i, j) == old(self).spec_cell(i, j),
    {
        let n = self.cells.len();
        proof {
            lemma_index_bound(self.width as int, self.height as int, x as int, y as int);
            assert(cell_index(self.width as int, x as int, y as int) < n);
        }
        let idx: usize = y * self.width + x;
        let mut c: Cell = self.cells[idx];
        c.dirty = false;
        self.cells.set(idx, c);
        proof {
            assert forall|i: int, j: int|
                old(self).in_bounds(i, j) && (i != x || j != y)
                    implies #[trigger] self.spec_cell(i, j) == old(self).spec_cell(i, j) by {
                lemma_index_bound(self.width as int, self.height as int, i, j);
                lemma_index_injective(self.width as int, i, j, x as int, y as int);
            }
        }
    }

    /// A flattened copy of the rows in `start .. stop` (clamped to the
    /// grid) for bulk scanning, row by row: the cell (i, j) of the grid
    /// sits at position `(j - start) * width + i` of the result.
    pub fn rows_in_range(&self, start: usize, stop: usize) -> (r: Vec<Cell>)
        requires
            self.wf(),
        ensures
            ({
                let stop2 = if stop <= self.spec_height() { stop as int } else { self.spec_height() as int };
                if start >= stop2 {
                    r@.len() == 0
                } else {
                    r@.len() == (stop2 - start) * self.spec_width()
                        && forall|i: int, j: int|
                        0 <= i < self.spec_width() && start <= j < stop2
                            ==> r@[#[trigger] cell_index(self.spec_width() as int, i, j - start)]
                            == self.spec_cell(i, j)
                }
            }),
    {
        let stop2: usize = if stop <= self.height { stop } else { self.height };
        let mut r: Vec<Cell> = Vec::new();
        if start >= stop2 {
            return r;
        }
        let mut j: usize = start;
        while j < stop2
            invariant
                self.wf(),
                start <= j <= stop2,
                stop2 <= self.spec_height(),
                start < stop2,
                r@.len() == (j - start) * self.spec_width(),
                forall|ii: int, jj: int|
                    0 <= ii < self.spec_width() && start <= jj < j ==> r@[#[trigger] cell_index(
                        self.spec_width() as int,
                        ii,
                        jj - start,
                    )] == self.spec_cell(ii, jj),
            decreases stop2 - j,
        {
            let mut i: usize = 0;
            while i < self.get_width()
                invariant
                    self.wf(),
                    start <= j < stop2,
                    stop2 <= self.spec_height(),
                    i <= self.spec_width(),
                    r@.len() == (j - start) * self.spec_width() + i,
                    forall|ii: int, jj: int|
                        0 <= ii < self.spec_width() && start <= jj < j ==> r@[#[trigger] cell_index(
                            self.spec_width() as int,
                            ii,
                            jj - start,
                        )] == self.spec_cell(ii, jj),
                    forall|ii: int|
                        0 <= ii < i ==> r@[#[trigger] cell_index(
                            self.spec_width() as int,
                            ii,
                            j - start,
                        )] == self.spec_cell(ii, j as int),
                decreases self.spec_width() - i,
            {
                let c = self.get_cell(i, j);
                let ghost r0 = r@;
                r.push(c);
                proof {
                    let ghost w = self.spec_width() as int;
                    assert forall|ii: int, jj: int| 0 <= ii < w && start <= jj < j implies r@[
                        #[trigger] cell_index(w, ii, jj - start)] == self.spec_cell(ii, jj) by {
                        lemma_index_bound(w, (j - start) as int, ii, jj - start);
                        assert(w * (j - start) == (j - start) * w) by (nonlinear_arith);
                        assert(cell_index(w, ii, jj - start) < r0.len());
                        assert(r@[cell_index(w, ii, jj - start)] == r0[cell_index(w, ii, jj - start)]);
                    }
                    assert forall|ii: int| 0 <= ii < i + 1 implies r@[#[trigger] cell_index(
                        w,
                        ii,
                        j - start,
                    )] == self.spec_cell(ii, j as int) by {
                        if ii < i {
                            assert(cell_index(w, ii, j - start) < r0.len());
                            assert(r@[cell_index(w, ii, j - start)] == r0[cell_index(w, ii, j - start)]);
                        } else {
                            assert(cell_index(w, ii, j - start) == r0.len() as int);
                        }
                    }
                }
                i = i + 1;
            }
            j = j + 1;
            proof {
                assert(r@.len() == (j - 1 - start) * self.spec_width() + self.spec_width()
                    == (j - start) * self.spec_width()) by (nonlinear_arith)
                    requires
                        r@.len() == (j - 1 - start) * self.spec_width() + self.spec_width(),
                        j >= start + 1;
            }
        }
        r
    }
}

/// Law of the dirty-tracking cycle: starting from a buffer with no
/// changed cell, one in-bounds content update leaves exactly the
/// targeted cell marked changed, and once the host clears that one
/// flag no cell reports a change any more.
///
/// `b1` is related to `b0` exactly as `update_cell_content(x, y, ch)`
/// relates its final buffer to its initial one, and `b2` to `b1` as
/// `clear_dirty(x, y)` does.
pub proof fn lemma_dirty_round_trip(
    b0: UIBuffer,
    b1: UIBuffer,
    b2: UIBuffer,
    x: int,
    y: int,
    ch: char,
)
    requires
        b0.wf(),
        b0.all_clean(),
        b0.in_bounds(x, y),
        b1.spec_width() == b0.spec_width(),
        b1.spec_height() == b0.spec_height(),
        b1.spec_cell(x, y) == written(b0.spec_cell(x, y), ch),
        forall|i: int, j: int|
            b0.in_bounds(i, j) && (i != x || j != y) ==> #[trigger] b1.spec_cell(i, j)
                == b0.spec_cell(i, j),
        b2.spec_width() == b1.spec_width(),
        b2.spec_height() == b1.spec_height(),
        b2.spec_cell(x, y) == cleaned(b1.spec_cell(x, y)),
        forall|i: int, j: int|
            b1.in_bounds(i, j) && (i != x || j != y) ==> #[trigger] b2.spec_cell(i, j)
                == b1.spec_cell(i, j),
    ensures
        forall|i: int, j: int|
            b1.in_bounds(i, j) ==> ((#[trigger] b1.spec_cell(i, j)).dirty <==> i == x && j == y),
        b2.all_clean(),
{
}

} // verus!
