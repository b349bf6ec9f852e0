//! Dense row-major matrices of 64-bit integers.

use vstd::prelude::*;

verus! {

/// A dense matrix stored as one flat row-major buffer.
///
/// Invariant (`wf`): the buffer holds exactly `row * col` elements; the
/// element at row `i`, column `j` sits at flat index `i * col + j`.
#[derive(Debug, PartialEq, Eq)]
pub struct Matrix {
    pub data: Vec<i64>,
    pub row: usize,
    pub col: usize,
}

impl Matrix {
    /// The flat buffer holds exactly one element per cell.
    pub open spec fn wf(self) -> bool {
        self.data@.len() == self.row * self.col
    }

    pub open spec fn spec_row(self) -> int {
        self.row as int
    }

    pub open spec fn spec_col(self) -> int {
        self.col as int
    }

    pub open spec fn spec_data(self) -> Seq<i64> {
        self.data@
    }

    /// The element at row `i`, column `j` of the row-major layout.
    pub open spec fn cell(self, i: int, j: int) -> i64 {
        self.data@[i * self.spec_col() + j]
    }

    /// Builds a matrix from a flat row-major buffer and its dimensions.
    pub fn new(data: Vec<i64>, row: usize, col: usize) -> (m: Matrix)
        requires
            data@.len() == row * col,
        ensures
            m.wf(),
            m.spec_row() == row,
            m.spec_col() == col,
            m.spec_data() == data@,
    {
        Matrix { data, row, col }
    }

    pub fn row_count(&self) -> (r: usize)
        ensures
            r == self.spec_row(),
    {
        self.row
    }

    pub fn col_count(&self) -> (c: usize)
        ensures
            c == self.spec_col(),
    {
        self.col
    }

    /// Read-only access to the flat row-major buffer.
    pub fn data(&self) -> (d: &Vec<i64>)
        ensures
            d@ == self.spec_data(),
    {
        &self.data
    }

    /// A square matrix with ones on the diagonal and zeros elsewhere.
    pub open spec fn is_identity(self) -> bool {
        &&& self.wf()
        &&& self.spec_row() == self.spec_col()
        &&& forall|i: int, j: int|
            0 <= i < self.spec_row() && 0 <= j < self.spec_col() ==> #[trigger] self.cell(i, j)
                == if i == j {
                1i64
            } else {
                0i64
            }
    }

    /// Builds the `n` by `n` identity matrix.
    pub fn identity(n: usize) -> (m: Matrix)
        requires
            n * n <= usize::MAX,
        ensures
            m.is_identity(),
            m.spec_row() == n,
            m.spec_col() == n,
    {
        let nn = n * n;
        let mut data: Vec<i64> = Vec::new();
        let mut idx: usize = 0;
        while idx < nn
            invariant
                nn == n * n,
                idx <= nn,
                data@.len() == idx,
                forall|t: int|
                    0 <= t < idx ==> #[trigger] data@[t] == if t / (n as int) == t % (n as int) {
                        1i64
                    } else {
                        0i64
                    },
            decreases nn - idx,
        {
            proof {
                if n == 0 {
                    assert((n as int) * (n as int) == 0) by (nonlinear_arith)
                        requires
                            n == 0,
                    ;
                }
            }
            let i = idx / n;
            let j = idx % n;
            data.push(if i == j { 1i64 } else { 0i64 });
            idx = idx + 1;
        }
        let m = Matrix::new(data, n, n);
        proof {
            assert forall|i: int, j: int|
                0 <= i < m.spec_row() && 0 <= j < m.spec_col() implies #[trigger] m.cell(i, j)
                == if i == j {
                1i64
            } else {
                0i64
            } by {
                lemma_flat_index_in_range(i, j, n as int, n as int);
                lemma_flat_index_decompose(i * (n as int) + j, n as int, n as int);
                lemma_flat_index_unique(
                    i,
                    j,
                    (i * (n as int) + j) / (n as int),
                    (i * (n as int) + j) % (n as int),
                    n as int,
                );
            }
        }
        m
    }

    /// The element at row `i`, column `j`.
    pub fn get(&self, i: usize, j: usize) -> (v: i64)
        requires
            self.wf(),
            i < self.spec_row(),
            j < self.spec_col(),
        ensures
            v == self.cell(i as int, j as int),
    {
        let n = self.data.len();
        proof {
            lemma_flat_index_in_range(i as int, j as int, self.spec_row(), self.spec_col());
        }
        assert(i * self.spec_col() + j < n);
        self.data[i * self.col + j]
    }
}

/// Row `i` of `m` as a sequence of `m.col` elements.
pub open spec fn row_seq(m: Matrix, i: int) -> Seq<i64> {
    Seq::new(m.spec_col() as nat, |k: int| m.cell(i, k))
}

/// Column `j` of `m` as a sequence of `m.row` elements.
pub open spec fn col_seq(m: Matrix, j: int) -> Seq<i64> {
    Seq::new(m.spec_row() as nat, |k: int| m.cell(k, j))
}

/// The flat index of a cell lies inside the buffer of a `row * col` matrix.
pub proof fn lemma_flat_index_in_range(i: int, j: int, row: int, col: int)
    requires
        0 <= i < row,
        0 <= j < col,
    ensures
        0 <= i * col + j < row * col,
{
    assert(0 <= i * col + j < row * col) by (nonlinear_arith)
        requires
            0 <= i < row,
            0 <= j < col,
    ;
}

/// Each output cell owns exactly one flat index: two cells of a `col`-wide
/// matrix share a flat index only if they are the same cell. Together with
/// the range fact above, `(i, j) <-> i * col + j` is a bijection between
/// cells and flat indices, so a collector that writes once per flat index
/// writes every cell exactly once, with no duplicate and no gap.
pub proof fn lemma_flat_index_unique(i1: int, j1: int, i2: int, j2: int, col: int)
    requires
        0 <= j1 < col,
        0 <= j2 < col,
        0 <= i1,
        0 <= i2,
        i1 * col + j1 == i2 * col + j2,
    ensures
        i1 == i2,
        j1 == j2,
{
    assert(i1 == i2 && j1 == j2) by (nonlinear_arith)
        requires
            0 <= j1 < col,
            0 <= j2 < col,
            0 <= i1,
            0 <= i2,
            i1 * col + j1 == i2 * col + j2,
    ;
}

/// Cell `(i, j)` of a `row` by `col` output owns the flat index
/// `i * col + j` alone: the index addresses a slot of the buffer, and no
/// other cell's index coincides with it. One task and one write per flat
/// index is therefore exactly one write into every cell — no duplicate
/// write and no gap.
pub proof fn lemma_one_write_per_cell(row: int, col: int, i: int, j: int)
    requires
        0 <= i < row,
        0 <= j < col,
    ensures
        0 <= i * col + j < row * col,
        forall|i2: int, j2: int|
            0 <= i2 < row && 0 <= j2 < col && #[trigger] (i2 * col + j2) == i * col + j ==> i2 == i
                && j2 == j,
{
    lemma_flat_index_in_range(i, j, row, col);
    assert forall|i2: int, j2: int|
        0 <= i2 < row && 0 <= j2 < col && #[trigger] (i2 * col + j2) == i * col + j implies i2 == i
        && j2 == j by {
        lemma_flat_index_unique(i2, j2, i, j, col);
    }
}

/// A flat index below `row * col` decomposes into the cell it addresses.
pub proof fn lemma_flat_index_decompose(idx: int, row: int, col: int)
    requires
        0 <= idx < row * col,
        0 < col,
    ensures
        0 <= idx / col < row,
        0 <= idx % col < col,
        idx == (idx / col) * col + idx % col,
{
    assert(0 <= idx / col < row && 0 <= idx % col < col && idx == (idx / col) * col + idx % col)
        by (nonlinear_arith)
        requires
            0 <= idx < row * col,
            0 < col,
    ;
}

} // verus!
