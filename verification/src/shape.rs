//! Dimension rules of the dense vector and matrix operations that forward and
//! backward propagation are made of. A vector is known by its length, a matrix
//! by its `(rows, columns)` pair.

use vstd::prelude::*;
use crate::error::Error;

verus! {

/// Reads a pair of machine integers as a mathematical shape.
pub open spec fn shape_of(m: (usize, usize)) -> (nat, nat) {
    (m.0 as nat, m.1 as nat)
}

/// Length of the product of a matrix of shape `m` and a column vector of
/// length `v`: the number of rows, where the matrix has as many columns as the
/// vector has entries.
pub fn matvec(m: (usize, usize), v: usize) -> (len: Result<usize, Error>)
    ensures
        len == if m.1 == v {
            Ok::<usize, Error>(m.0)
        } else {
            Err::<usize, Error>(Error::ShapeMismatch)
        },
{
    if m.1 == v {
        Ok(m.0)
    } else {
        Err(Error::ShapeMismatch)
    }
}

/// Length of an element-wise combination (sum, difference, product) of
/// vectors of lengths `a` and `b`, which must be equal.
pub fn elementwise(a: usize, b: usize) -> (len: Result<usize, Error>)
    ensures
        len == if a == b {
            Ok::<usize, Error>(a)
        } else {
            Err::<usize, Error>(Error::ShapeMismatch)
        },
{
    if a == b {
        Ok(a)
    } else {
        Err(Error::ShapeMismatch)
    }
}

/// Shape of the outer product of a column of length `u` and a row of length
/// `v`.
pub fn outer(u: usize, v: usize) -> (m: (usize, usize))
    ensures
        m == (u, v),
{
    (u, v)
}

/// Shape of the transpose of a matrix of shape `m`.
pub fn transpose(m: (usize, usize)) -> (t: (usize, usize))
    ensures
        t == (m.1, m.0),
{
    (m.1, m.0)
}

} // verus!
