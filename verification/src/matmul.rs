//! The reference multiply: a naive triple-loop matrix product on flat
//! row-major buffers, with its mathematical specification.
//!
//! The product entry at (row, col) is the dot product of A's row and B's
//! column; [`matmul_spec`] states it over sequences and exact integers, and
//! [`native_matmul`] computes it. The element and inner-dimension bounds in
//! its precondition keep every intermediate sum within `i64`, so the
//! computed entries equal the mathematical ones exactly.
//!
//! The algebraic laws of the product — multiplying by an identity matrix
//! returns the left operand, multiplying by a zero matrix returns zeros —
//! are proved here as well.

use vstd::arithmetic::div_mod::lemma_fundamental_div_mod;
use vstd::arithmetic::div_mod::lemma_fundamental_div_mod_converse;
use vstd::arithmetic::div_mod::lemma_mod_bound;
use vstd::prelude::*;

use crate::error::MatmulError;
use crate::layout::to_col_major_spec;
use crate::layout::to_row_major_spec;
use crate::shape::shapes_compatible;
use crate::shape::validate_shapes;

verus! {

/// Largest element magnitude the reference multiply accepts.
pub const ELEMENT_BOUND: i64 = 1_000_000;

/// Largest inner dimension (k) the reference multiply accepts.
pub const INNER_BOUND: usize = 1_000_000;

/// Largest magnitude of a single product of two bounded elements.
pub const PRODUCT_BOUND: i64 = 1_000_000_000_000;

/// Every element of the buffer lies within ±[`ELEMENT_BOUND`].
pub open spec fn entries_bounded(s: Seq<i64>) -> bool {
    forall|i: int| 0 <= i < s.len() ==> -ELEMENT_BOUND <= #[trigger] s[i] <= ELEMENT_BOUND
}

/// The sum of the first `t` terms of the dot product of A's `row` and B's
/// `col`: sum over p < t of a[row·k + p] · b[p·n + col].
pub open spec fn entry_prefix(
    a: Seq<i64>,
    b: Seq<i64>,
    n: int,
    k: int,
    row: int,
    col: int,
    t: int,
) -> int
    decreases t,
{
    if t <= 0 {
        0
    } else {
        entry_prefix(a, b, n, k, row, col, t - 1) + a[row * k + (t - 1)] * b[(t - 1) * n + col]
    }
}

/// The (row, col) entry of the m×n product of A (m×k) and B (k×n), both
/// flat row-major.
pub open spec fn product_entry(
    a: Seq<i64>,
    b: Seq<i64>,
    n: int,
    k: int,
    row: int,
    col: int,
) -> int {
    entry_prefix(a, b, n, k, row, col, k)
}

/// The full m×n product matrix, flat row-major, in exact integers.
pub open spec fn matmul_spec(a: Seq<i64>, b: Seq<i64>, m: int, n: int, k: int) -> Seq<int> {
    Seq::new((m * n) as nat, |x: int| product_entry(a, b, n, k, x / n, x % n))
}

/// The buffer's elements read as exact integers.
pub open spec fn widen_seq(s: Seq<i64>) -> Seq<int> {
    Seq::new(s.len(), |i: int| s[i] as int)
}

/// The sz×sz identity matrix, flat row-major (equally column-major).
pub open spec fn identity_seq(sz: int) -> Seq<i64> {
    Seq::new((sz * sz) as nat, |x: int| if x / sz == x % sz { 1i64 } else { 0i64 })
}

/// A zero matrix of `len` elements.
pub open spec fn zero_seq(len: int) -> Seq<i64> {
    Seq::new(len as nat, |x: int| 0i64)
}

/// A zero product matrix of `len` exact-integer entries.
pub open spec fn zero_product(len: int) -> Seq<int> {
    Seq::new(len as nat, |x: int| 0int)
}

/// A partial dot product against an identity matrix collapses to the one
/// term the diagonal keeps: a[row·sz + col] once t has passed col, else 0.
proof fn lemma_identity_entry_prefix(a: Seq<i64>, sz: int, row: int, col: int, t: int)
    requires
        sz >= 1,
        a.len() == sz * sz,
        0 <= row < sz,
        0 <= col < sz,
        0 <= t <= sz,
    ensures
        entry_prefix(a, identity_seq(sz), sz, sz, row, col, t) == if t > col {
            a[row * sz + col] as int
        } else {
            0
        },
    decreases t,
{
    if t > 0 {
        lemma_identity_entry_prefix(a, sz, row, col, t - 1);
        let p = t - 1;
        assert(0 <= p * sz + col < sz * sz) by (nonlinear_arith)
            requires
                0 <= p < sz,
                0 <= col < sz,
        ;
        lemma_fundamental_div_mod_converse(p * sz + col, sz, p, col);
        assert(identity_seq(sz)[p * sz + col] == if p == col { 1i64 } else { 0i64 });
    }
}

/// A partial dot product against a zero matrix is zero.
proof fn lemma_zero_entry_prefix(a: Seq<i64>, n: int, k: int, row: int, col: int, t: int)
    requires
        n >= 1,
        k >= 1,
        0 <= col < n,
        0 <= t <= k,
    ensures
        entry_prefix(a, zero_seq(k * n), n, k, row, col, t) == 0,
    decreases t,
{
    if t > 0 {
        lemma_zero_entry_prefix(a, n, k, row, col, t - 1);
        let p = t - 1;
        assert(0 <= p * n + col < k * n) by (nonlinear_arith)
            requires
                0 <= p < k,
                0 <= col < n,
        ;
        assert(zero_seq(k * n)[p * n + col] == 0i64);
    }
}

/// Identity law: multiplying any square matrix A by the identity matrix of
/// matching size returns A unchanged.
pub proof fn lemma_multiply_identity(a: Seq<i64>, sz: int)
    requires
        sz >= 1,
        a.len() == sz * sz,
    ensures
        matmul_spec(a, identity_seq(sz), sz, sz, sz) == widen_seq(a),
{
    assert forall|x: int| 0 <= x < sz * sz implies matmul_spec(
        a,
        identity_seq(sz),
        sz,
        sz,
        sz,
    )[x] == a[x] as int by {
        let r = x / sz;
        let c = x % sz;
        lemma_mod_bound(x, sz);
        lemma_fundamental_div_mod(x, sz);
        assert(0 <= r < sz) by (nonlinear_arith)
            requires
                sz >= 1,
                0 <= x < sz * sz,
                x == sz * r + c,
                0 <= c < sz,
        ;
        lemma_identity_entry_prefix(a, sz, r, c, sz);
        assert(r * sz + c == x) by (nonlinear_arith)
            requires
                x == sz * r + c,
        ;
    };
    assert(matmul_spec(a, identity_seq(sz), sz, sz, sz) =~= widen_seq(a));
}

/// Zero law: multiplying any matrix A by a zero matrix returns a zero
/// matrix.
pub proof fn lemma_multiply_zero(a: Seq<i64>, m: int, n: int, k: int)
    requires
        m >= 1,
        n >= 1,
        k >= 1,
        a.len() == m * k,
    ensures
        matmul_spec(a, zero_seq(k * n), m, n, k) == zero_product(m * n),
{
    assert forall|x: int| 0 <= x < m * n implies #[trigger] matmul_spec(
        a,
        zero_seq(k * n),
        m,
        n,
        k,
    )[x] == 0 by {
        let r = x / n;
        let c = x % n;
        lemma_mod_bound(x, n);
        lemma_zero_entry_prefix(a, n, k, r, c, k);
    };
    assert(matmul_spec(a, zero_seq(k * n), m, n, k) =~= zero_product(m * n));
}

/// The sum of the first `t` terms of the dot product, read from
/// column-major operands: sum over p < t of
/// a_cm[p·m + row] · b_cm[col·k + p].
pub open spec fn entry_prefix_col(
    a_cm: Seq<i64>,
    b_cm: Seq<i64>,
    m: int,
    k: int,
    row: int,
    col: int,
    t: int,
) -> int
    decreases t,
{
    if t <= 0 {
        0
    } else {
        entry_prefix_col(a_cm, b_cm, m, k, row, col, t - 1) + a_cm[(t - 1) * m + row] * b_cm[col * k
            + (t - 1)]
    }
}

/// The m×n product of column-major operands, itself flat column-major —
/// the layout in which a compiled kernel computes it.
pub open spec fn matmul_col_spec(a_cm: Seq<i64>, b_cm: Seq<i64>, m: int, n: int, k: int) -> Seq<
    int,
> {
    Seq::new((m * n) as nat, |x: int| entry_prefix_col(a_cm, b_cm, m, k, x % m, x / m, k))
}

/// Each partial column-major dot product equals its row-major
/// counterpart: the two layouts read the same elements in the same order.
proof fn lemma_entry_prefix_col_equals_row(
    a: Seq<i64>,
    b: Seq<i64>,
    m: int,
    n: int,
    k: int,
    row: int,
    col: int,
    t: int,
)
    requires
        m >= 1,
        n >= 1,
        k >= 1,
        a.len() == m * k,
        b.len() == k * n,
        0 <= row < m,
        0 <= col < n,
        0 <= t <= k,
    ensures
        entry_prefix_col(to_col_major_spec(a, m, k), to_col_major_spec(b, k, n), m, k, row, col, t)
            == entry_prefix(a, b, n, k, row, col, t),
    decreases t,
{
    if t > 0 {
        lemma_entry_prefix_col_equals_row(a, b, m, n, k, row, col, t - 1);
        let p = t - 1;
        let a_cm = to_col_major_spec(a, m, k);
        let b_cm = to_col_major_spec(b, k, n);
        assert(0 <= p * m + row < m * k) by (nonlinear_arith)
            requires
                0 <= p < k,
                0 <= row < m,
        ;
        lemma_fundamental_div_mod_converse(p * m + row, m, p, row);
        assert(a_cm[p * m + row] == a[row * k + p]);
        assert(0 <= col * k + p < k * n) by (nonlinear_arith)
            requires
                0 <= col < n,
                0 <= p < k,
        ;
        lemma_fundamental_div_mod_converse(col * k + p, k, col, p);
        assert(b_cm[col * k + p] == b[p * n + col]);
    }
}

/// The column-major pipeline computes the reference product: convert both
/// row-major operands to column-major order, multiply there — as a
/// compiled kernel does — and convert the column-major result back, and
/// the outcome is exactly the row-major reference multiply.
pub proof fn lemma_col_pipeline_equals_reference(a: Seq<i64>, b: Seq<i64>, m: int, n: int, k: int)
    requires
        m >= 1,
        n >= 1,
        k >= 1,
        a.len() == m * k,
        b.len() == k * n,
    ensures
        to_row_major_spec(
            matmul_col_spec(to_col_major_spec(a, m, k), to_col_major_spec(b, k, n), m, n, k),
            m,
            n,
        ) == matmul_spec(a, b, m, n, k),
{
    let a_cm = to_col_major_spec(a, m, k);
    let b_cm = to_col_major_spec(b, k, n);
    let c_cm = matmul_col_spec(a_cm, b_cm, m, n, k);
    assert(c_cm.len() == m * n);
    assert forall|y: int| 0 <= y < m * n implies to_row_major_spec(c_cm, m, n)[y] == matmul_spec(
        a,
        b,
        m,
        n,
        k,
    )[y] by {
        let r = y / n;
        let c = y % n;
        lemma_mod_bound(y, n);
        lemma_fundamental_div_mod(y, n);
        assert(0 <= r < m) by (nonlinear_arith)
            requires
                n >= 1,
                0 <= y < m * n,
                y == n * r + c,
                0 <= c < n,
        ;
        let x_cm = c * m + r;
        assert(0 <= c * m + r < m * n) by (nonlinear_arith)
            requires
                0 <= c < n,
                0 <= r < m,
        ;
        assert(to_row_major_spec(c_cm, m, n)[y] == c_cm[x_cm]);
        lemma_fundamental_div_mod_converse(x_cm, m, c, r);
        assert(c_cm[x_cm] == entry_prefix_col(a_cm, b_cm, m, k, r, c, k));
        lemma_entry_prefix_col_equals_row(a, b, m, n, k, r, c, k);
    };
    assert(to_row_major_spec(c_cm, m, n) =~= matmul_spec(a, b, m, n, k));
}

/// The naive triple-loop reference multiply on flat row-major buffers:
/// C(m×n) = A(m×k) × B(k×n), exactly as [`matmul_spec`] states it.
///
/// Fails with `InvalidInput` — and exactly then — when an operand is empty,
/// the inner dimensions disagree, or a buffer's length does not match its
/// shape. The element and inner-dimension bounds keep every intermediate
/// sum within `i64`, so no overflow can occur.
#[verifier::loop_isolation(false)]
pub fn native_matmul(
    a: &Vec<i64>,
    a_dims: (usize, usize),
    b: &Vec<i64>,
    b_dims: (usize, usize),
) -> (r: Result<Vec<i64>, MatmulError>)
    requires
        entries_bounded(a@),
        entries_bounded(b@),
        a_dims.1 <= INNER_BOUND,
    ensures
        match r {
            Ok(c) => {
                &&& shapes_compatible(a@.len() as int, a_dims, b@.len() as int, b_dims)
                &&& c@.len() == a_dims.0 * b_dims.1
                &&& widen_seq(c@) == matmul_spec(
                    a@,
                    b@,
                    a_dims.0 as int,
                    b_dims.1 as int,
                    a_dims.1 as int,
                )
            },
            Err(e) => {
                &&& !shapes_compatible(a@.len() as int, a_dims, b@.len() as int, b_dims)
                &&& e is InvalidInput
            },
        },
{
    let key = validate_shapes(a.len(), a_dims, b.len(), b_dims)?;
    let m = key.m;
    let n = key.n;
    let k = key.k;
    let ghost mi = m as int;
    let ghost ni = n as int;
    let ghost ki = k as int;
    let mut result: Vec<i64> = Vec::new();
    let mut i: usize = 0;
    while i < m
        invariant
            0 <= i <= m,
            result@.len() == i * ni,
            forall|x: int|
                0 <= x < result@.len() ==> #[trigger] result@[x] == product_entry(
                    a@,
                    b@,
                    ni,
                    ki,
                    x / ni,
                    x % ni,
                ),
        decreases m - i,
    {
        let mut j: usize = 0;
        while j < n
            invariant
                0 <= i < m,
                0 <= j <= n,
                result@.len() == i * ni + j,
                forall|x: int|
                    0 <= x < result@.len() ==> #[trigger] result@[x] == product_entry(
                        a@,
                        b@,
                        ni,
                        ki,
                        x / ni,
                        x % ni,
                    ),
            decreases n - j,
        {
            let mut sum: i64 = 0;
            let mut p: usize = 0;
            while p < k
                invariant
                    0 <= i < m,
                    0 <= j < n,
                    0 <= p <= k,
                    sum == entry_prefix(a@, b@, ni, ki, i as int, j as int, p as int),
                    -(p as int) * PRODUCT_BOUND <= sum <= (p as int) * PRODUCT_BOUND,
                decreases k - p,
            {
                proof {
                    assert(0 <= (i as int) * ki + p < mi * ki) by (nonlinear_arith)
                        requires
                            0 <= i < mi,
                            0 <= p < ki,
                    ;
                    assert(0 <= (p as int) * ni + j < ki * ni) by (nonlinear_arith)
                        requires
                            0 <= p < ki,
                            0 <= j < ni,
                    ;
                }
                let av = a[i * k + p];
                let bv = b[p * n + j];
                proof {
                    assert(-PRODUCT_BOUND <= (av as int) * (bv as int) <= PRODUCT_BOUND)
                        by (nonlinear_arith)
                        requires
                            -ELEMENT_BOUND <= av <= ELEMENT_BOUND,
                            -ELEMENT_BOUND <= bv <= ELEMENT_BOUND,
                    ;
                    assert((p as int) * PRODUCT_BOUND + PRODUCT_BOUND == ((p + 1) as int)
                        * PRODUCT_BOUND) by (nonlinear_arith);
                    assert(((p + 1) as int) * PRODUCT_BOUND <= (INNER_BOUND as int)
                        * PRODUCT_BOUND) by (nonlinear_arith)
                        requires
                            0 <= p + 1 <= INNER_BOUND,
                    ;
                }
                let prod = av * bv;
                sum = sum + prod;
                p = p + 1;
            }
            proof {
                let x = (i as int) * ni + j;
                lemma_fundamental_div_mod_converse(x, ni, i as int, j as int);
            }
            result.push(sum);
            j = j + 1;
        }
        proof {
            assert((i as int) * ni + ni == ((i + 1) as int) * ni) by (nonlinear_arith);
        }
        i = i + 1;
    }
    proof {
        assert(widen_seq(result@) =~= matmul_spec(a@, b@, mi, ni, ki)) by {
            assert forall|x: int| 0 <= x < mi * ni implies widen_seq(result@)[x] == matmul_spec(
                a@,
                b@,
                mi,
                ni,
                ki,
            )[x] by {
                assert(result@[x] == product_entry(a@, b@, ni, ki, x / ni, x % ni));
            };
        };
    }
    Ok(result)
}

} // verus!
