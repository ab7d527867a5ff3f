use vstd::prelude::*;

use crate::index::{Col, Row};

verus! {

/// What a `Matrix` holds: its full size, the window that its operations see, and its
/// cells in row-major order over the full width.
pub struct MatrixView<T> {
    pub width: nat,
    pub height: nat,
    pub start_x: nat,
    pub start_y: nat,
    pub end_x: nat,
    pub end_y: nat,
    pub cells: Seq<T>,
}

impl<T> MatrixView<T> {
    /// The cell at row `r` and column `c` of the full matrix.
    pub open spec fn cell(self, r: int, c: int) -> T {
        self.cells[c + r * self.width]
    }

    pub open spec fn in_rows(self, r: int) -> bool {
        self.start_y <= r < self.end_y
    }

    pub open spec fn in_cols(self, c: int) -> bool {
        self.start_x <= c < self.end_x
    }

    /// Same size and window; the cells may differ.
    pub open spec fn same_frame(self, other: MatrixView<T>) -> bool {
        &&& self.width == other.width
        &&& self.height == other.height
        &&& self.start_x == other.start_x
        &&& self.start_y == other.start_y
        &&& self.end_x == other.end_x
        &&& self.end_y == other.end_y
        &&& self.cells.len() == other.cells.len()
    }
}

/// A dense matrix stored row by row, with a window (`sub`) that narrows what the
/// row operations and index ranges see. Storage keeps the full width throughout.
pub struct Matrix<T> {
    start_x: usize,
    start_y: usize,
    end_x: usize,
    end_y: usize,
    total_width: usize,
    total_height: usize,
    coeffs: Vec<T>,
}

impl<T> View for Matrix<T> {
    type V = MatrixView<T>;

    closed spec fn view(&self) -> MatrixView<T> {
        MatrixView {
            width: self.total_width as nat,
            height: self.total_height as nat,
            start_x: self.start_x as nat,
            start_y: self.start_y as nat,
            end_x: self.end_x as nat,
            end_y: self.end_y as nat,
            cells: self.coeffs@,
        }
    }
}

proof fn lemma_offset_in_bounds(r: int, c: int, w: int, h: int)
    requires
        0 <= r < h,
        0 <= c < w,
    ensures
        0 <= r * w <= c + r * w < w * h,
{
    assert(r * w <= (h - 1) * w) by (nonlinear_arith)
        requires
            0 <= r < h,
            0 <= c < w,
    ;
    assert((h - 1) * w + w == w * h) by (nonlinear_arith);
    assert(0 <= r * w) by (nonlinear_arith)
        requires
            0 <= r,
            0 <= c < w,
    ;
}

proof fn lemma_offset_unique(r1: int, c1: int, r2: int, c2: int, w: int)
    requires
        0 <= r1,
        0 <= r2,
        0 <= c1 < w,
        0 <= c2 < w,
        c1 + r1 * w == c2 + r2 * w,
    ensures
        r1 == r2,
        c1 == c2,
{
    if r1 < r2 {
        assert(r1 * w + w <= r2 * w) by (nonlinear_arith)
            requires
                r1 < r2,
                0 < w,
        ;
    } else if r2 < r1 {
        assert(r2 * w + w <= r1 * w) by (nonlinear_arith)
            requires
                r2 < r1,
                0 < w,
        ;
    }
}

/// `is_zero` said true of every window cell of row `r`.
pub open spec fn zero_row_at<T, F: Fn(T) -> bool>(m: MatrixView<T>, r: int, is_zero: F) -> bool {
    forall|c: int| m.in_cols(c) ==> is_zero.ensures((#[trigger] m.cell(r, c),), true)
}

/// `is_zero` said false of some window cell of row `r`.
pub open spec fn nonzero_cell_at<T, F: Fn(T) -> bool>(m: MatrixView<T>, r: int, is_zero: F) -> bool {
    exists|c: int| m.in_cols(c) && is_zero.ensures((#[trigger] m.cell(r, c),), false)
}

impl<T: Copy> Matrix<T> {
    /// The fields agree with one another: the buffer covers the full size and the
    /// window is a non-empty block that ends at the lower-right corner.
    pub open spec fn wf(&self) -> bool {
        &&& self@.cells.len() == self@.width * self@.height
        &&& self@.start_x < self@.end_x
        &&& self@.end_x == self@.width
        &&& self@.start_y < self@.end_y
        &&& self@.end_y == self@.height
        &&& self@.width <= usize::MAX
        &&& self@.height <= usize::MAX
    }

    pub fn new(width: usize, height: usize, coeffs: Vec<T>) -> (m: Matrix<T>)
        requires
            width * height == coeffs@.len(),
            width > 2,
            height > 2,
        ensures
            m.wf(),
            m@.width == width,
            m@.height == height,
            m@.start_x == 0,
            m@.start_y == 0,
            m@.cells == coeffs@,
    {
        Matrix {
            start_x: 0,
            start_y: 0,
            end_x: width,
            end_y: height,
            total_width: width,
            total_height: height,
            coeffs,
        }
    }

    /// Narrows the window so that it starts at column `start_x` and row `start_y`;
    /// its lower-right corner stays where it is.
    pub fn sub(&mut self, start_x: usize, start_y: usize)
        requires
            old(self).wf(),
            start_x < old(self)@.end_x,
            start_y < old(self)@.end_y,
        ensures
            final(self).wf(),
            final(self)@ == (MatrixView {
                start_x: start_x as nat,
                start_y: start_y as nat,
                ..old(self)@
            }),
    {
        self.start_x = start_x;
        self.start_y = start_y;
    }

    pub fn last_row(&self) -> (r: Row)
        requires
            self.wf(),
        ensures
            r@ == self@.end_y - 1,
    {
        Row::new(self.end_y - 1)
    }

    pub fn last_col(&self) -> (c: Col)
        requires
            self.wf(),
        ensures
            c@ == self@.end_x - 1,
    {
        Col::new(self.end_x - 1)
    }

    pub fn first_col(&self) -> (c: Col)
        ensures
            c@ == self@.start_x,
    {
        Col::new(self.start_x)
    }

    pub fn first_row(&self) -> (r: Row)
        ensures
            r@ == self@.start_y,
    {
        Row::new(self.start_y)
    }

    /// The columns from `start` up to, not including, `end`.
    pub fn cols_range(&self, start: Col, end: Col) -> (cols: Vec<Col>)
        ensures
            cols@.len() == if start@ < end@ { end@ - start@ } else { 0 },
            forall|i: int| 0 <= i < cols@.len() ==> #[trigger] cols@[i]@ == start@ + i,
    {
        col_span(start.index(), end.index())
    }

    /// The columns from `start` to the window's right edge.
    pub fn cols_from(&self, start: Col) -> (cols: Vec<Col>)
        ensures
            cols@.len() == if start@ < self@.end_x { self@.end_x - start@ } else { 0 },
            forall|i: int| 0 <= i < cols@.len() ==> #[trigger] cols@[i]@ == start@ + i,
    {
        col_span(start.index(), self.end_x)
    }

    /// The rows numbered from `start` up to, not including, `end`.
    pub fn rows_range(&self, start: Col, end: Col) -> (rows: Vec<Row>)
        ensures
            rows@.len() == if start@ < end@ { end@ - start@ } else { 0 },
            forall|i: int| 0 <= i < rows@.len() ==> #[trigger] rows@[i]@ == start@ + i,
    {
        row_span(start.index(), end.index())
    }

    /// The rows from `start` to the window's bottom edge.
    pub fn rows_from(&self, start: Row) -> (rows: Vec<Row>)
        ensures
            rows@.len() == if start@ < self@.end_y { self@.end_y - start@ } else { 0 },
            forall|i: int| 0 <= i < rows@.len() ==> #[trigger] rows@[i]@ == start@ + i,
    {
        row_span(start.index(), self.end_y)
    }

    /// The window's columns, left to right.
    pub fn cols(&self) -> (cols: Vec<Col>)
        requires
            self.wf(),
        ensures
            cols@.len() == self@.end_x - self@.start_x,
            forall|i: int| 0 <= i < cols@.len() ==> #[trigger] cols@[i]@ == self@.start_x + i,
    {
        col_span(self.start_x, self.end_x)
    }

    /// The window's rows, top to bottom.
    pub fn rows(&self) -> (rows: Vec<Row>)
        requires
            self.wf(),
        ensures
            rows@.len() == self@.end_y - self@.start_y,
            forall|i: int| 0 <= i < rows@.len() ==> #[trigger] rows@[i]@ == self@.start_y + i,
    {
        row_span(self.start_y, self.end_y)
    }

    /// The number of columns in the window.
    pub fn width(&self) -> (w: usize)
        requires
            self.wf(),
        ensures
            w == self@.end_x - self@.start_x,
    {
        self.end_x - self.start_x
    }

    /// The number of rows in the window.
    pub fn height(&self) -> (h: usize)
        requires
            self.wf(),
        ensures
            h == self@.end_y - self@.start_y,
    {
        self.end_y - self.start_y
    }

    pub fn value(&self, row: Row, col: Col) -> (v: T)
        requires
            self.wf(),
            self@.in_rows(row@ as int),
            self@.in_cols(col@ as int),
        ensures
            v == self@.cell(row@ as int, col@ as int),
    {
        let len = self.coeffs.len();
        proof {
            lemma_offset_in_bounds(row@ as int, col@ as int, self@.width as int, self@.height as int);
        }
        self.coeffs[col.index() + row.index() * self.total_width]
    }

    /// Writes one cell by its position in the full matrix, inside the window or not;
    /// meant for filling a matrix before it is worked on.
    pub fn set_value_raw(&mut self, row: usize, col: usize, value: T)
        requires
            old(self).wf(),
            row < old(self)@.height,
            col < old(self)@.width,
        ensures
            final(self).wf(),
            final(self)@.same_frame(old(self)@),
            final(self)@.cell(row as int, col as int) == value,
            forall|r: int, c: int|
                0 <= r < old(self)@.height && 0 <= c < old(self)@.width && (r != row || c != col)
                    ==> #[trigger] final(self)@.cell(r, c) == old(self)@.cell(r, c),
    {
        let ghost w = self@.width as int;
        let len = self.coeffs.len();
        proof {
            lemma_offset_in_bounds(row as int, col as int, w, self@.height as int);
        }
        self.coeffs.set(col + row * self.total_width, value);
        proof {
            assert forall|r: int, c: int|
                0 <= r < old(self)@.height && 0 <= c < w && (r != row || c != col)
                    implies #[trigger] self@.cell(r, c) == old(self)@.cell(r, c) by {
                lemma_offset_in_bounds(r, c, w, self@.height as int);
                if c + r * w == col + row * w {
                    lemma_offset_unique(r, c, row as int, col as int, w);
                }
            }
        }
    }

    /// Writes one cell of the window.
    pub fn set_value(&mut self, row: Row, col: Col, value: T)
        requires
            old(self).wf(),
            old(self)@.in_rows(row@ as int),
            old(self)@.in_cols(col@ as int),
        ensures
            final(self).wf(),
            final(self)@.same_frame(old(self)@),
            final(self)@.cell(row@ as int, col@ as int) == value,
            forall|r: int, c: int|
                0 <= r < old(self)@.height && 0 <= c < old(self)@.width && (r != row@ || c != col@)
                    ==> #[trigger] final(self)@.cell(r, c) == old(self)@.cell(r, c),
    {
        self.set_value_raw(row.index(), col.index(), value);
    }

    fn swap_values(&mut self, row1: Row, col1: Col, row2: Row, col2: Col)
        requires
            old(self).wf(),
            old(self)@.in_rows(row1@ as int),
            old(self)@.in_cols(col1@ as int),
            old(self)@.in_rows(row2@ as int),
            old(self)@.in_cols(col2@ as int),
        ensures
            final(self).wf(),
            final(self)@.same_frame(old(self)@),
            final(self)@.cell(row1@ as int, col1@ as int) == old(self)@.cell(row2@ as int, col2@ as int),
            final(self)@.cell(row2@ as int, col2@ as int) == old(self)@.cell(row1@ as int, col1@ as int),
            forall|r: int, c: int|
                0 <= r < old(self)@.height && 0 <= c < old(self)@.width
                    && (r != row1@ || c != col1@) && (r != row2@ || c != col2@)
                    ==> #[trigger] final(self)@.cell(r, c) == old(self)@.cell(r, c),
    {
        let temp = self.value(row1, col1);
        let other = self.value(row2, col2);
        self.set_value(row1, col1, other);
        self.set_value(row2, col2, temp);
    }

    /// One of the three elementary row operations: exchanges the window's cells of
    /// `row1` and `row2`.
    pub fn swap_rows(&mut self, row1: Row, row2: Row)
        requires
            old(self).wf(),
            old(self)@.in_rows(row1@ as int),
            old(self)@.in_rows(row2@ as int),
        ensures
            final(self).wf(),
            final(self)@.same_frame(old(self)@),
            forall|r: int, c: int|
                0 <= r < old(self)@.height && 0 <= c < old(self)@.width
                    ==> #[trigger] final(self)@.cell(r, c) == if old(self)@.in_cols(c) && r == row1@ {
                        old(self)@.cell(row2@ as int, c)
                    } else if old(self)@.in_cols(c) && r == row2@ {
                        old(self)@.cell(row1@ as int, c)
                    } else {
                        old(self)@.cell(r, c)
                    },
    {
        let ghost before = self@;
        let mut c: usize = self.start_x;
        while c < self.end_x
            invariant
                self.wf(),
                self@.same_frame(before),
                before.start_x <= c <= before.end_x,
                before.in_rows(row1@ as int),
                before.in_rows(row2@ as int),
                forall|r: int, k: int|
                    0 <= r < before.height && 0 <= k < before.width
                        ==> #[trigger] self@.cell(r, k) == if before.start_x <= k < c && r == row1@ {
                            before.cell(row2@ as int, k)
                        } else if before.start_x <= k < c && r == row2@ {
                            before.cell(row1@ as int, k)
                        } else {
                            before.cell(r, k)
                        },
            decreases before.end_x - c,
        {
            self.swap_values(row1, Col::new(c), row2, Col::new(c));
            c = c + 1;
        }
    }

    /// Whether some row of the window has `is_zero` hold of every cell.
    pub fn has_zero_row<F: Fn(T) -> bool>(&self, is_zero: F) -> (b: bool)
        requires
            self.wf(),
            forall|v: T| #[trigger] is_zero.requires((v,)),
        ensures
            b ==> exists|r: int| self@.in_rows(r) && #[trigger] zero_row_at(self@, r, is_zero),
            !b ==> forall|r: int| self@.in_rows(r) ==> #[trigger] nonzero_cell_at(self@, r, is_zero),
    {
        let mut row: usize = self.start_y;
        while row < self.end_y
            invariant
                self.wf(),
                self@.start_y <= row <= self@.end_y,
                forall|v: T| #[trigger] is_zero.requires((v,)),
                forall|r: int| self@.start_y <= r < row ==> #[trigger] nonzero_cell_at(self@, r, is_zero),
            decreases self@.end_y - row,
        {
            let mut zero_row = true;
            let mut col: usize = self.start_x;
            while col < self.end_x
                invariant
                    self.wf(),
                    self@.in_rows(row as int),
                    self@.start_x <= col <= self@.end_x,
                    forall|v: T| #[trigger] is_zero.requires((v,)),
                    zero_row ==> forall|c: int|
                        self@.start_x <= c < col ==> is_zero.ensures(
                            (#[trigger] self@.cell(row as int, c),),
                            true,
                        ),
                    !zero_row ==> nonzero_cell_at(self@, row as int, is_zero),
                decreases self@.end_x - col,
            {
                let v = self.value(Row::new(row), Col::new(col));
                if !is_zero(v) {
                    zero_row = false;
                }
                col = col + 1;
            }
            if zero_row {
                assert(zero_row_at(self@, row as int, is_zero));
                return true;
            }
            row = row + 1;
        }
        false
    }

    /// Replaces each window cell `v` of `row` by `f(v)`.
    pub fn map_row<F: Fn(T) -> T>(&mut self, row: Row, f: F)
        requires
            old(self).wf(),
            old(self)@.in_rows(row@ as int),
            forall|v: T| #[trigger] f.requires((v,)),
        ensures
            final(self).wf(),
            final(self)@.same_frame(old(self)@),
            forall|c: int|
                old(self)@.in_cols(c) ==> f.ensures(
                    (old(self)@.cell(row@ as int, c),),
                    #[trigger] final(self)@.cell(row@ as int, c),
                ),
            forall|r: int, c: int|
                0 <= r < old(self)@.height && 0 <= c < old(self)@.width && (r != row@
                    || !old(self)@.in_cols(c)) ==> #[trigger] final(self)@.cell(r, c) == old(
                    self,
                )@.cell(r, c),
    {
        let ghost before = self@;
        let mut c: usize = self.start_x;
        while c < self.end_x
            invariant
                self.wf(),
                self@.same_frame(before),
                before.start_x <= c <= before.end_x,
                before.in_rows(row@ as int),
                forall|v: T| #[trigger] f.requires((v,)),
                forall|k: int|
                    before.start_x <= k < c ==> f.ensures(
                        (before.cell(row@ as int, k),),
                        #[trigger] self@.cell(row@ as int, k),
                    ),
                forall|r: int, k: int|
                    0 <= r < before.height && 0 <= k < before.width && (r != row@ || k < before.start_x
                        || k >= c) ==> #[trigger] self@.cell(r, k) == before.cell(r, k),
            decreases before.end_x - c,
        {
            let col = Col::new(c);
            let v = self.value(row, col);
            let w = f(v);
            self.set_value(row, col, w);
            c = c + 1;
        }
    }

    /// Replaces each window cell `d` of `dest` by `f(s, d)`, where `s` is the cell of
    /// `src` in the same column.
    pub fn combine_rows<F: Fn(T, T) -> T>(&mut self, src: Row, dest: Row, f: F)
        requires
            old(self).wf(),
            old(self)@.in_rows(src@ as int),
            old(self)@.in_rows(dest@ as int),
            forall|s: T, d: T| #[trigger] f.requires((s, d)),
        ensures
            final(self).wf(),
            final(self)@.same_frame(old(self)@),
            forall|c: int|
                old(self)@.in_cols(c) ==> f.ensures(
                    (old(self)@.cell(src@ as int, c), old(self)@.cell(dest@ as int, c)),
                    #[trigger] final(self)@.cell(dest@ as int, c),
                ),
            forall|r: int, c: int|
                0 <= r < old(self)@.height && 0 <= c < old(self)@.width && (r != dest@
                    || !old(self)@.in_cols(c)) ==> #[trigger] final(self)@.cell(r, c) == old(
                    self,
                )@.cell(r, c),
    {
        let ghost before = self@;
        let mut c: usize = self.start_x;
        while c < self.end_x
            invariant
                self.wf(),
                self@.same_frame(before),
                before.start_x <= c <= before.end_x,
                before.in_rows(src@ as int),
                before.in_rows(dest@ as int),
                forall|s: T, d: T| #[trigger] f.requires((s, d)),
                forall|k: int|
                    before.start_x <= k < c ==> f.ensures(
                        (before.cell(src@ as int, k), before.cell(dest@ as int, k)),
                        #[trigger] self@.cell(dest@ as int, k),
                    ),
                forall|r: int, k: int|
                    0 <= r < before.height && 0 <= k < before.width && (r != dest@ || k
                        < before.start_x || k >= c) ==> #[trigger] self@.cell(r, k) == before.cell(r, k),
            decreases before.end_x - c,
        {
            let col = Col::new(c);
            let s = self.value(src, col);
            let d = self.value(dest, col);
            let v = f(s, d);
            self.set_value(dest, col, v);
            c = c + 1;
        }
    }
}

impl Row {
    /// Whether this row lies above the matrix's bottom edge.
    pub fn is_valid<T: Copy>(&self, matrix: &Matrix<T>) -> (b: bool)
        ensures
            b == (self@ < matrix@.end_y),
    {
        self.index() < matrix.end_y
    }
}

impl Col {
    /// Whether this column lies left of the matrix's right edge.
    pub fn is_valid<T: Copy>(&self, matrix: &Matrix<T>) -> (b: bool)
        ensures
            b == (self@ < matrix@.end_x),
    {
        self.index() < matrix.end_x
    }
}

fn col_span(start: usize, end: usize) -> (cols: Vec<Col>)
    ensures
        cols@.len() == if start < end { end - start } else { 0 },
        forall|i: int| 0 <= i < cols@.len() ==> #[trigger] cols@[i]@ == start + i,
{
    let mut cols: Vec<Col> = Vec::new();
    let mut i: usize = start;
    while i < end
        invariant
            start <= end ==> start <= i <= end,
            start > end ==> i == start,
            cols@.len() == i - start,
            forall|k: int| 0 <= k < cols@.len() ==> #[trigger] cols@[k]@ == start + k,
        decreases end - i,
    {
        cols.push(Col::new(i));
        i = i + 1;
    }
    cols
}

fn row_span(start: usize, end: usize) -> (rows: Vec<Row>)
    ensures
        rows@.len() == if start < end { end - start } else { 0 },
        forall|i: int| 0 <= i < rows@.len() ==> #[trigger] rows@[i]@ == start + i,
{
    let mut rows: Vec<Row> = Vec::new();
    let mut i: usize = start;
    while i < end
        invariant
            start <= end ==> start <= i <= end,
            start > end ==> i == start,
            rows@.len() == i - start,
            forall|k: int| 0 <= k < rows@.len() ==> #[trigger] rows@[k]@ == start + k,
        decreases end - i,
    {
        rows.push(Row::new(i));
        i = i + 1;
    }
    rows
}

} // verus!
