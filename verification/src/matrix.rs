//! The dense byte matrix that holds a set of images, one image row per matrix
//! row. The matrix itself is `rulinalg`'s; what is said of it here is taken on
//! trust from that crate's source.

use vstd::prelude::*;
use rulinalg::matrix::{BaseMatrix, Matrix};

verus! {

#[verifier::external_type_specification]
#[verifier::external_body]
#[verifier::reject_recursive_types(T)]
pub struct ExMatrix<T>(rulinalg::matrix::Matrix<T>);

/// The rows of a matrix, top to bottom, each with as many entries as the
/// matrix has columns.
pub uninterp spec fn matrix_rows(m: Matrix<u8>) -> Seq<Seq<u8>>;

/// `data` cut into `rows` consecutive pieces of `cols` entries each.
pub open spec fn chunks(data: Seq<u8>, rows: nat, cols: nat) -> Seq<Seq<u8>> {
    Seq::new(rows, |r: int| data.subrange(r * cols, (r + 1) * cols))
}

/// `Matrix::new`: a matrix of the given dimensions over `data` in row-major
/// order. The outside function panics unless `data` holds exactly
/// `rows * cols` entries, so that is required here.
#[verifier::external_body]
pub(crate) fn matrix_new(rows: usize, cols: usize, data: Vec<u8>) -> (m: Matrix<u8>)
    requires
        rows * cols == data@.len(),
    ensures
        matrix_rows(m) == chunks(data@, rows as nat, cols as nat),
{
    Matrix::new(rows, cols, data)
}

/// `BaseMatrix::select_rows`: the matrix made of the rows named by `rows`, in
/// the order given and with repetitions kept. The outside function panics on
/// an index that is not below the number of rows, and it multiplies the
/// number of picked rows by the number of columns, which must stay within
/// `usize`.
#[verifier::external_body]
pub(crate) fn matrix_select_rows(m: &Matrix<u8>, rows: &Vec<usize>) -> (picked: Matrix<u8>)
    requires
        forall|k: int| 0 <= k < rows@.len() ==> rows@[k] < matrix_rows(*m).len(),
        forall|r: int|
            0 <= r < matrix_rows(*m).len() ==> rows@.len() * (#[trigger] matrix_rows(*m)[r]).len()
                <= usize::MAX,
    ensures
        matrix_rows(picked) == Seq::new(rows@.len(), |k: int| matrix_rows(*m)[rows@[k] as int]),
{
    m.select_rows(rows)
}

/// `Matrix::into_vec`: the entries in row-major order.
#[verifier::external_body]
pub(crate) fn matrix_into_vec(m: Matrix<u8>) -> (data: Vec<u8>)
    ensures
        data@ == matrix_rows(m).flatten(),
{
    m.into_vec()
}

} // verus!
