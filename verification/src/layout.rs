//! Bidirectional row-major/column-major conversion of flat matrices.
//!
//! Both directions are pure: they allocate a fresh buffer (never convert in
//! place) and satisfy `dst[col*rows + row] == src[row*cols + col]`, with the
//! inverse for the way back. Converting one way and then the other returns
//! the original buffer, which [`lemma_layout_round_trip`] states and proves.

use vstd::arithmetic::div_mod::lemma_fundamental_div_mod_converse;
use vstd::prelude::*;

use crate::error::MatmulError;

verus! {

/// The column-major reading of `src`, a flat row-major rows×cols matrix:
/// element (row, col) moves from index row·cols + col to index
/// col·rows + row.
pub open spec fn to_col_major_spec<T>(src: Seq<T>, rows: int, cols: int) -> Seq<T> {
    Seq::new((rows * cols) as nat, |x: int| src[(x % rows) * cols + x / rows])
}

/// The row-major reading of `src`, a flat column-major rows×cols matrix:
/// element (row, col) moves from index col·rows + row to index
/// row·cols + col.
pub open spec fn to_row_major_spec<T>(src: Seq<T>, rows: int, cols: int) -> Seq<T> {
    Seq::new((rows * cols) as nat, |x: int| src[(x % cols) * rows + x / cols])
}

/// For an index x of a flat rows×cols matrix, the transposed index
/// (x % rows)·cols + x / rows is again an index of that matrix.
proof fn lemma_transpose_index_bounds(x: int, rows: int, cols: int)
    requires
        rows >= 1,
        cols >= 1,
        0 <= x < rows * cols,
    ensures
        0 <= x % rows < rows,
        0 <= x / rows < cols,
        0 <= (x % rows) * cols + x / rows < rows * cols,
{
    vstd::arithmetic::div_mod::lemma_mod_bound(x, rows);
    vstd::arithmetic::div_mod::lemma_fundamental_div_mod(x, rows);
    assert(x == (x / rows) * rows + x % rows);
    assert(0 <= x / rows < cols) by (nonlinear_arith)
        requires
            rows >= 1,
            cols >= 1,
            0 <= x < rows * cols,
            x == (x / rows) * rows + x % rows,
            0 <= x % rows < rows,
    ;
    assert((x % rows) * cols + x / rows < rows * cols) by (nonlinear_arith)
        requires
            rows >= 1,
            cols >= 1,
            0 <= x % rows < rows,
            0 <= x / rows < cols,
    ;
}

/// Transposing an index twice leads back to itself: the transposed index
/// of the transposed index of y is y again.
proof fn lemma_transpose_index_involution(y: int, rows: int, cols: int)
    requires
        rows >= 1,
        cols >= 1,
        0 <= y < rows * cols,
    ensures
        ((y % rows) * cols + y / rows) % cols == y / rows,
        ((y % rows) * cols + y / rows) / cols == y % rows,
{
    lemma_transpose_index_bounds(y, rows, cols);
    let x = (y % rows) * cols + y / rows;
    lemma_fundamental_div_mod_converse(x, cols, y % rows, y / rows);
}

/// Round trip: converting a flat rows×cols buffer to column-major order and
/// back to row-major order returns the buffer unchanged, and likewise in the
/// other direction.
pub proof fn lemma_layout_round_trip<T>(src: Seq<T>, rows: int, cols: int)
    requires
        rows >= 1,
        cols >= 1,
        src.len() == rows * cols,
    ensures
        to_row_major_spec(to_col_major_spec(src, rows, cols), rows, cols) == src,
        to_col_major_spec(to_row_major_spec(src, rows, cols), rows, cols) == src,
{
    assert(rows * cols == cols * rows) by (nonlinear_arith);
    let col = to_col_major_spec(src, rows, cols);
    let row = to_row_major_spec(src, rows, cols);
    assert forall|y: int| 0 <= y < rows * cols implies to_row_major_spec(
        col,
        rows,
        cols,
    )[y] == src[y] by {
        let x1 = (y % cols) * rows + y / cols;
        lemma_transpose_index_bounds(y, cols, rows);
        lemma_transpose_index_involution(y, cols, rows);
        assert(to_row_major_spec(col, rows, cols)[y] == col[x1]);
        assert(col[x1] == src[(x1 % rows) * cols + x1 / rows]);
        assert(x1 % rows == y / cols && x1 / rows == y % cols);
        assert((y / cols) * cols + y % cols == y) by {
            vstd::arithmetic::div_mod::lemma_fundamental_div_mod(y, cols);
        };
    };
    assert(to_row_major_spec(col, rows, cols) =~= src);
    assert forall|x: int| 0 <= x < rows * cols implies to_col_major_spec(
        row,
        rows,
        cols,
    )[x] == src[x] by {
        let y1 = (x % rows) * cols + x / rows;
        lemma_transpose_index_bounds(x, rows, cols);
        lemma_transpose_index_involution(x, rows, cols);
        assert(to_col_major_spec(row, rows, cols)[x] == row[y1]);
        assert(row[y1] == src[(y1 % cols) * rows + y1 / cols]);
        assert(y1 % cols == x / rows && y1 / cols == x % rows);
        assert((x / rows) * rows + x % rows == x) by {
            vstd::arithmetic::div_mod::lemma_fundamental_div_mod(x, rows);
        };
    };
    assert(to_col_major_spec(row, rows, cols) =~= src);
}

/// Converts a flat row-major rows×cols matrix to column-major order,
/// failing with `InvalidInput` — and exactly then — when the source is
/// empty or its length does not equal rows·cols.
pub fn row_major_to_col_major<T: Copy>(src: &Vec<T>, rows: usize, cols: usize) -> (r: Result<
    Vec<T>,
    MatmulError,
>)
    ensures
        match r {
            Ok(dst) => {
                &&& src@.len() > 0
                &&& src@.len() == rows * cols
                &&& dst@ == to_col_major_spec(src@, rows as int, cols as int)
            },
            Err(e) => {
                &&& (src@.len() == 0 || src@.len() != rows * cols)
                &&& e is InvalidInput
            },
        },
{
    let total = check_layout_input(src.len(), rows, cols)?;
    let ghost rows_i = rows as int;
    let ghost cols_i = cols as int;
    let mut dst: Vec<T> = Vec::new();
    let mut x: usize = 0;
    while x < total
        invariant
            1 <= rows,
            1 <= cols,
            total == rows_i * cols_i,
            total <= usize::MAX,
            rows_i == rows as int,
            cols_i == cols as int,
            src@.len() == total,
            0 <= x <= total,
            dst@.len() == x,
            forall|j: int|
                0 <= j < x ==> dst@[j] == to_col_major_spec(src@, rows_i, cols_i)[j],
        decreases total - x,
    {
        proof {
            lemma_transpose_index_bounds(x as int, rows_i, cols_i);
        }
        let v = src[(x % rows) * cols + x / rows];
        dst.push(v);
        x = x + 1;
    }
    assert(dst@ =~= to_col_major_spec(src@, rows_i, cols_i));
    Ok(dst)
}

/// Converts a flat column-major rows×cols matrix to row-major order,
/// failing with `InvalidInput` — and exactly then — when the source is
/// empty or its length does not equal rows·cols.
pub fn col_major_to_row_major<T: Copy>(src: &Vec<T>, rows: usize, cols: usize) -> (r: Result<
    Vec<T>,
    MatmulError,
>)
    ensures
        match r {
            Ok(dst) => {
                &&& src@.len() > 0
                &&& src@.len() == rows * cols
                &&& dst@ == to_row_major_spec(src@, rows as int, cols as int)
            },
            Err(e) => {
                &&& (src@.len() == 0 || src@.len() != rows * cols)
                &&& e is InvalidInput
            },
        },
{
    let total = check_layout_input(src.len(), rows, cols)?;
    let ghost rows_i = rows as int;
    let ghost cols_i = cols as int;
    let mut dst: Vec<T> = Vec::new();
    let mut x: usize = 0;
    while x < total
        invariant
            1 <= rows,
            1 <= cols,
            total == rows_i * cols_i,
            total <= usize::MAX,
            rows_i == rows as int,
            cols_i == cols as int,
            src@.len() == total,
            0 <= x <= total,
            dst@.len() == x,
            forall|j: int|
                0 <= j < x ==> dst@[j] == to_row_major_spec(src@, rows_i, cols_i)[j],
        decreases total - x,
    {
        proof {
            lemma_transpose_index_bounds(x as int, cols_i, rows_i);
            assert(rows_i * cols_i == cols_i * rows_i) by (nonlinear_arith);
        }
        let v = src[(x % cols) * rows + x / cols];
        dst.push(v);
        x = x + 1;
    }
    assert(dst@ =~= to_row_major_spec(src@, rows_i, cols_i));
    Ok(dst)
}

/// The shared fail-fast guard of both conversions: the source must be
/// non-empty and hold exactly rows·cols elements. Returns that element
/// count on success.
fn check_layout_input(src_len: usize, rows: usize, cols: usize) -> (r: Result<
    usize,
    MatmulError,
>)
    ensures
        match r {
            Ok(total) => {
                &&& src_len > 0
                &&& src_len == rows * cols
                &&& total == src_len
                &&& rows >= 1
                &&& cols >= 1
            },
            Err(e) => {
                &&& (src_len == 0 || src_len != rows * cols)
                &&& e is InvalidInput
            },
        },
{
    if src_len == 0 {
        return Err(MatmulError::InvalidInput("source buffer is empty".to_owned()));
    }
    match rows.checked_mul(cols) {
        Some(total) if total == src_len => {
            assert(rows >= 1 && cols >= 1) by (nonlinear_arith)
                requires
                    rows * cols == src_len,
                    src_len > 0,
            ;
            Ok(total)
        },
        _ => Err(
            MatmulError::InvalidInput("source length does not equal rows*cols".to_owned()),
        ),
    }
}

} // verus!
