//! Shape keys and the fail-fast validation of operand shapes.
//!
//! A multiply C(m×n) = A(m×k) × B(k×n) is identified by the triple
//! (m, n, k); the triple is also the lookup key of the kernel caches.
//! Inputs that violate the shape invariants are rejected here, before any
//! compilation or device work is attempted.

use vstd::prelude::*;

use crate::error::MatmulError;

verus! {

/// The (m, n, k) triple identifying a matrix-multiply shape
/// C(m×n) = A(m×k) × B(k×n).
///
/// Invariant: all three dimensions are positive, and k equals both A's
/// column count and B's row count; inputs violating this never produce
/// a `ShapeKey` (see [`validate_shapes`]).
#[derive(Debug, Clone, Copy, PartialEq, Eq, Structural, Hash)]
pub struct ShapeKey {
    pub m: usize,
    pub n: usize,
    pub k: usize,
}

impl ShapeKey {
    /// All three dimensions are positive.
    pub open spec fn wf(self) -> bool {
        self.m >= 1 && self.n >= 1 && self.k >= 1
    }

    /// Element count of the A operand: m·k.
    pub open spec fn a_count(self) -> int {
        self.m * self.k
    }

    /// Element count of the B operand: k·n.
    pub open spec fn b_count(self) -> int {
        self.k * self.n
    }

    /// Element count of the result: m·n.
    pub open spec fn c_count(self) -> int {
        self.m * self.n
    }

    /// Element count of the A operand, computed at run time.
    pub fn vec_a_size(&self) -> (r: usize)
        requires
            self.a_count() <= usize::MAX,
        ensures
            r == self.a_count(),
    {
        self.m * self.k
    }

    /// Element count of the B operand, computed at run time.
    pub fn vec_b_size(&self) -> (r: usize)
        requires
            self.b_count() <= usize::MAX,
        ensures
            r == self.b_count(),
    {
        self.k * self.n
    }

    /// Element count of the result, computed at run time.
    pub fn vec_c_size(&self) -> (r: usize)
        requires
            self.c_count() <= usize::MAX,
        ensures
            r == self.c_count(),
    {
        self.m * self.n
    }
}

/// The operands describe a well-formed multiply: both shapes are non-empty,
/// the inner dimensions agree, and each flat buffer holds exactly
/// rows·cols elements.
pub open spec fn shapes_compatible(
    a_len: int,
    a_shape: (usize, usize),
    b_len: int,
    b_shape: (usize, usize),
) -> bool {
    &&& a_shape.0 >= 1
    &&& a_shape.1 >= 1
    &&& b_shape.0 >= 1
    &&& b_shape.1 >= 1
    &&& a_shape.1 == b_shape.0
    &&& a_len == a_shape.0 * a_shape.1
    &&& b_len == b_shape.0 * b_shape.1
}

/// The key that a compatible pair of operand shapes determines.
pub open spec fn key_of_shapes(a_shape: (usize, usize), b_shape: (usize, usize)) -> ShapeKey {
    ShapeKey { m: a_shape.0, n: b_shape.1, k: a_shape.1 }
}

/// Checks operand shapes against their buffer lengths and derives the
/// shape key, failing fast with `InvalidInput` — and exactly then — when
/// an operand is empty, the inner dimensions disagree, or a buffer's
/// length does not match its declared shape.
pub fn validate_shapes(
    a_len: usize,
    a_shape: (usize, usize),
    b_len: usize,
    b_shape: (usize, usize),
) -> (r: Result<ShapeKey, MatmulError>)
    ensures
        match r {
            Ok(key) => {
                &&& shapes_compatible(a_len as int, a_shape, b_len as int, b_shape)
                &&& key == key_of_shapes(a_shape, b_shape)
                &&& key.wf()
                &&& key.a_count() == a_len
                &&& key.b_count() == b_len
            },
            Err(e) => {
                &&& !shapes_compatible(a_len as int, a_shape, b_len as int, b_shape)
                &&& e is InvalidInput
            },
        },
{
    if a_shape.0 == 0 || a_shape.1 == 0 || b_shape.0 == 0 || b_shape.1 == 0 {
        return Err(MatmulError::InvalidInput("empty operands are not supported".to_owned()));
    }
    if a_shape.1 != b_shape.0 {
        return Err(
            MatmulError::InvalidInput("operand inner dimensions do not match".to_owned()),
        );
    }
    let a_expected = a_shape.0.checked_mul(a_shape.1);
    let b_expected = b_shape.0.checked_mul(b_shape.1);
    match (a_expected, b_expected) {
        (Some(ae), Some(be)) if ae == a_len && be == b_len => {
            Ok(ShapeKey { m: a_shape.0, n: b_shape.1, k: a_shape.1 })
        },
        _ => Err(
            MatmulError::InvalidInput("operand length does not match its shape".to_owned()),
        ),
    }
}

} // verus!
