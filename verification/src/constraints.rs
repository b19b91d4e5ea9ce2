//! Offsets into a backing matrix, quadrant splits, and the read-only view
//! that binds an offset to a backing matrix without copying it.

use vstd::prelude::*;

verus! {

/// A square sub-region of a backing matrix: its top-left corner and its side
/// length. Indexing a view at logical `(i, j)` reads physical coordinate
/// `(row_start + i, col_start + j)`.
#[derive(Clone, Copy, PartialEq, Eq, Debug, Structural)]
pub struct Offset {
    pub row_start: usize,
    pub col_start: usize,
    pub n: usize,
}

/// A grouping of four quadrants of a region: top-left, top-right,
/// bottom-left, bottom-right.
pub struct Split<T> {
    pub s11: T,
    pub s12: T,
    pub s21: T,
    pub s22: T,
}

/// Every row of `m` is exactly as long as `m` has rows.
pub open spec fn is_square<T>(m: Seq<Vec<T>>) -> bool {
    forall|r: int| 0 <= r < m.len() ==> (#[trigger] m[r]@.len()) == m.len()
}

/// The region described by `off` lies inside a square matrix of `m.len()`
/// rows: rows `row_start..row_start + n` and columns `col_start..col_start + n`
/// all exist.
pub open spec fn off_in<T>(m: Seq<Vec<T>>, off: Offset) -> bool {
    off.row_start + off.n <= m.len() && off.col_start + off.n <= m.len()
}

/// Physical coordinate `(r, c)` lies inside the region described by `off`.
pub open spec fn in_region(off: Offset, r: int, c: int) -> bool {
    off.row_start <= r < off.row_start + off.n && off.col_start <= c < off.col_start + off.n
}

/// The element of `m` that a view with offset `off` reads at logical `(i, j)`.
pub open spec fn view_ent(m: Seq<Vec<i64>>, off: Offset, i: int, j: int) -> i64 {
    m[off.row_start + i]@[off.col_start + j]
}

/// A read-only view: a borrowed backing matrix together with the offset of
/// the square sub-region the view exposes.
pub struct MatrixWithOffset<'a> {
    pub matrix: &'a Vec<Vec<i64>>,
    pub offset: Offset,
}

impl<'a> MatrixWithOffset<'a> {
    /// The backing matrix is square and the viewed region lies inside it.
    pub open spec fn valid(self) -> bool {
        is_square(self.matrix@) && off_in(self.matrix@, self.offset)
    }

    /// Reads the element at logical position `(i, j)` of the view.
    pub fn at(&self, i: usize, j: usize) -> (v: i64)
        requires
            self.valid(),
            i < self.offset.n,
            j < self.offset.n,
        ensures
            v == view_ent(self.matrix@, self.offset, i as int, j as int),
    {
        // binding the backing length shows the offset additions fit in usize
        let rows = self.matrix.len();
        self.matrix[self.offset.row_start + i][self.offset.col_start + j]
    }

    /// Binds each offset of a split to this view's backing matrix, giving the
    /// four quadrant views.
    pub fn create_from_split(&self, split: &Split<Offset>) -> (s: Split<MatrixWithOffset<'a>>)
        ensures
            s.s11.matrix == self.matrix && s.s11.offset == split.s11,
            s.s12.matrix == self.matrix && s.s12.offset == split.s12,
            s.s21.matrix == self.matrix && s.s21.offset == split.s21,
            s.s22.matrix == self.matrix && s.s22.offset == split.s22,
    {
        Split {
            s11: split.s11.as_matrix_with_offset(self.matrix),
            s12: split.s12.as_matrix_with_offset(self.matrix),
            s21: split.s21.as_matrix_with_offset(self.matrix),
            s22: split.s22.as_matrix_with_offset(self.matrix),
        }
    }
}

impl Offset {
    /// The whole-matrix offset. It trusts the matrix to be square; callers
    /// validate before building views from it.
    pub fn new_unchecked<T>(matrix: &Vec<Vec<T>>) -> (o: Offset)
        ensures
            o.row_start == 0,
            o.col_start == 0,
            o.n == matrix@.len(),
    {
        Offset { row_start: 0, col_start: 0, n: matrix.len() }
    }

    /// Binds this offset to a backing matrix for read access.
    pub fn as_matrix_with_offset<'a>(&self, data: &'a Vec<Vec<i64>>) -> (v: MatrixWithOffset<'a>)
        ensures
            v.matrix == data,
            v.offset == *self,
    {
        MatrixWithOffset { matrix: data, offset: *self }
    }

    /// Splits the region into its four quadrants of side `n / 2`, positioned
    /// at the four quadrant corners. The quadrants are disjoint, and when `n`
    /// is even they exactly tile the region.
    pub fn split(&self) -> (s: Split<Offset>)
        requires
            self.row_start + self.n <= usize::MAX,
            self.col_start + self.n <= usize::MAX,
        ensures
            s.s11 == (Offset { row_start: self.row_start, col_start: self.col_start, n: (self.n / 2) as usize }),
            s.s12 == (Offset {
                row_start: self.row_start,
                col_start: (self.col_start + self.n / 2) as usize,
                n: (self.n / 2) as usize,
            }),
            s.s21 == (Offset {
                row_start: (self.row_start + self.n / 2) as usize,
                col_start: self.col_start,
                n: (self.n / 2) as usize,
            }),
            s.s22 == (Offset {
                row_start: (self.row_start + self.n / 2) as usize,
                col_start: (self.col_start + self.n / 2) as usize,
                n: (self.n / 2) as usize,
            }),
    {
        let mid = self.n / 2;
        let s11 = Offset { row_start: self.row_start, col_start: self.col_start, n: mid };
        let s12 = Offset { row_start: self.row_start, col_start: self.col_start + mid, n: mid };
        let s21 = Offset { row_start: self.row_start + mid, col_start: self.col_start, n: mid };
        let s22 = Offset {
            row_start: self.row_start + mid,
            col_start: self.col_start + mid,
            n: mid,
        };
        Split { s11, s12, s21, s22 }
    }
}

} // verus!
