//! A labelled image data set held in memory: raw pixel bytes, one label per
//! image, split into a training and a test part.

use vstd::prelude::*;
use vstd::seq_lib::lemma_flatten_concat;
use rulinalg::matrix::Matrix;
use crate::matrix::{chunks, matrix_into_vec, matrix_new, matrix_rows, matrix_select_rows};

verus! {

/// Every row has `cols` entries.
pub open spec fn uniform(rows: Seq<Seq<u8>>, cols: nat) -> bool {
    forall|r: int| 0 <= r < rows.len() ==> (#[trigger] rows[r]).len() == cols
}

/// Rows of equal length flatten to `rows.len() * cols` entries.
pub proof fn lemma_flatten_len(rows: Seq<Seq<u8>>, cols: nat)
    requires
        uniform(rows, cols),
    ensures
        rows.flatten().len() == rows.len() * cols,
    decreases rows.len(),
{
    if rows.len() > 0 {
        let head = rows.drop_last();
        assert(rows =~= head.push(rows.last()));
        head.lemma_flatten_push(rows.last());
        lemma_flatten_len(head, cols);
        assert((head.len() + 1) * cols == head.len() * cols + cols) by (nonlinear_arith);
    } else {
        assert(rows.len() * cols == 0) by (nonlinear_arith)
            requires
                rows.len() == 0,
        ;
    }
}

/// Flattening a run of rows gives the matching run of entries.
pub proof fn lemma_flatten_subrange(rows: Seq<Seq<u8>>, cols: nat, a: int, b: int)
    requires
        uniform(rows, cols),
        0 <= a <= b <= rows.len(),
    ensures
        0 <= a * cols <= b * cols <= rows.flatten().len(),
        rows.subrange(a, b).flatten() == rows.flatten().subrange(a * cols, b * cols),
{
    let x = rows.subrange(0, a);
    let y = rows.subrange(a, b);
    let z = rows.subrange(b, rows.len() as int);
    assert(rows =~= x + y + z);
    lemma_flatten_concat(x + y, z);
    lemma_flatten_concat(x, y);
    lemma_flatten_len(x, cols);
    lemma_flatten_len(y, cols);
    lemma_flatten_len(z, cols);
    lemma_flatten_len(rows, cols);
    assert((b - a) * cols == b * cols - a * cols) by (nonlinear_arith);
    assert(0 <= a * cols <= b * cols) by (nonlinear_arith)
        requires
            0 <= a <= b,
    ;
    assert(rows.flatten() =~= x.flatten() + y.flatten() + z.flatten());
    assert(y.flatten() =~= rows.flatten().subrange(a * cols, b * cols));
}

/// Cutting `data` into rows and flattening the rows gives `data` back.
pub proof fn lemma_chunks_flatten(data: Seq<u8>, rows: nat, cols: nat)
    requires
        data.len() == rows * cols,
    ensures
        chunks(data, rows, cols).len() == rows,
        uniform(chunks(data, rows, cols), cols),
        chunks(data, rows, cols).flatten() == data,
    decreases rows,
{
    let cut = chunks(data, rows, cols);
    assert forall|r: int| 0 <= r < cut.len() implies (#[trigger] cut[r]).len() == cols by {
        assert(0 <= r * cols && (r + 1) * cols == r * cols + cols && (r + 1) * cols <= rows
            * cols) by (nonlinear_arith)
            requires
                0 <= r < rows,
        ;
    }
    if rows == 0 {
        assert(data.len() == 0) by (nonlinear_arith)
            requires
                data.len() == rows * cols,
                rows == 0,
        ;
        assert(cut.flatten() =~= data);
    } else {
        let n = (rows - 1) as nat;
        assert(n * cols + cols == rows * cols && 0 <= n * cols) by (nonlinear_arith)
            requires
                n + 1 == rows,
        ;
        let head = data.subrange(0, (n * cols) as int);
        let last = data.subrange((n * cols) as int, (rows * cols) as int);
        lemma_chunks_flatten(head, n, cols);
        let head_cut = chunks(head, n, cols);
        assert forall|r: int| 0 <= r < n implies #[trigger] head_cut[r] == cut[r] by {
            assert(0 <= r * cols && (r + 1) * cols == r * cols + cols && (r + 1) * cols <= n
                * cols) by (nonlinear_arith)
                requires
                    0 <= r < n,
            ;
            assert(head.subrange(r * cols, (r + 1) * cols) =~= data.subrange(
                r * cols,
                (r + 1) * cols,
            ));
        }
        assert(cut =~= head_cut.push(last));
        head_cut.lemma_flatten_push(last);
        assert(data =~= head + last);
    }
}

/// The images and labels of a training part and of a test part.
///
/// An image is `rows * cols` pixel bytes, row after row; the images of a part
/// follow one another without gaps.
pub struct Dataset {
    trn_img: Matrix<u8>,
    trn_lbl: Vec<u8>,
    tst_img: Matrix<u8>,
    tst_lbl: Vec<u8>,
    rows: u32,
    cols: u32,
}

/// Whether the raw parts make up a data set: every image has its label, and
/// all counts are within the machine's reach.
pub open spec fn consistent(
    trn_img: Seq<u8>,
    trn_lbl: Seq<u8>,
    tst_img: Seq<u8>,
    tst_lbl: Seq<u8>,
    rows: u32,
    cols: u32,
) -> bool {
    &&& trn_lbl.len() <= u32::MAX
    &&& tst_lbl.len() <= u32::MAX
    &&& rows * cols <= usize::MAX
    &&& trn_lbl.len() * rows <= usize::MAX
    &&& tst_lbl.len() * rows <= usize::MAX
    &&& trn_img.len() == trn_lbl.len() * rows * cols
    &&& tst_img.len() == tst_lbl.len() * rows * cols
}

impl Dataset {
    #[verifier::type_invariant]
    spec fn inv(self) -> bool {
        &&& self.trn_lbl@.len() <= u32::MAX
        &&& self.tst_lbl@.len() <= u32::MAX
        &&& self.rows * self.cols <= usize::MAX
        &&& self.trn_lbl@.len() * self.rows <= usize::MAX
        &&& self.tst_lbl@.len() * self.rows <= usize::MAX
        &&& matrix_rows(self.trn_img).len() == self.trn_lbl@.len() * self.rows
        &&& matrix_rows(self.tst_img).len() == self.tst_lbl@.len() * self.rows
        &&& uniform(matrix_rows(self.trn_img), self.cols as nat)
        &&& uniform(matrix_rows(self.tst_img), self.cols as nat)
    }

    /// All training pixels, image after image.
    pub closed spec fn trn_pixels(&self) -> Seq<u8> {
        matrix_rows(self.trn_img).flatten()
    }

    /// All test pixels, image after image.
    pub closed spec fn tst_pixels(&self) -> Seq<u8> {
        matrix_rows(self.tst_img).flatten()
    }

    /// The class of every training image.
    pub closed spec fn trn_labels(&self) -> Seq<u8> {
        self.trn_lbl@
    }

    /// The class of every test image.
    pub closed spec fn tst_labels(&self) -> Seq<u8> {
        self.tst_lbl@
    }

    /// Pixel rows per image.
    pub closed spec fn spec_rows(&self) -> nat {
        self.rows as nat
    }

    /// Pixel columns per image.
    pub closed spec fn spec_cols(&self) -> nat {
        self.cols as nat
    }

    /// Pixels per image.
    pub open spec fn spec_pixels(&self) -> nat {
        self.spec_rows() * self.spec_cols()
    }

    /// The pixels of image `id` within `pixels`.
    pub open spec fn image(&self, pixels: Seq<u8>, id: int) -> Seq<u8> {
        pixels.subrange(id * self.spec_pixels(), (id + 1) * self.spec_pixels())
    }

    /// Builds the data set from its raw parts, or `None` where they are not
    /// [`consistent`].
    pub fn new(
        trn_img: Vec<u8>,
        trn_lbl: Vec<u8>,
        tst_img: Vec<u8>,
        tst_lbl: Vec<u8>,
        rows: u32,
        cols: u32,
    ) -> (set: Option<Dataset>)
        ensures
            set.is_some() <==> consistent(trn_img@, trn_lbl@, tst_img@, tst_lbl@, rows, cols),
            set matches Some(d) ==> {
                &&& d.trn_pixels() == trn_img@
                &&& d.trn_labels() == trn_lbl@
                &&& d.tst_pixels() == tst_img@
                &&& d.tst_labels() == tst_lbl@
                &&& d.spec_rows() == rows
                &&& d.spec_cols() == cols
            },
    {
        if (rows as usize).checked_mul(cols as usize).is_none() {
            return None;
        }
        let trn_rows = match matrix_height(trn_img.len(), trn_lbl.len(), rows, cols) {
            Some(n) => n,
            None => { return None; },
        };
        let tst_rows = match matrix_height(tst_img.len(), tst_lbl.len(), rows, cols) {
            Some(n) => n,
            None => { return None; },
        };
        proof {
            lemma_chunks_flatten(trn_img@, trn_rows as nat, cols as nat);
            lemma_chunks_flatten(tst_img@, tst_rows as nat, cols as nat);
        }
        let trn = matrix_new(trn_rows, cols as usize, trn_img);
        let tst = matrix_new(tst_rows, cols as usize, tst_img);
        Some(Dataset { trn_img: trn, trn_lbl, tst_img: tst, tst_lbl, rows, cols })
    }

    /// Number of training images.
    pub fn trn_size(&self) -> (n: u32)
        ensures
            n == self.trn_labels().len(),
            self.trn_pixels().len() == n * self.spec_pixels(),
    {
        proof {
            use_type_invariant(self);
            lemma_flatten_len(matrix_rows(self.trn_img), self.cols as nat);
            assert(self.trn_lbl@.len() * self.rows * self.cols == self.trn_lbl@.len() * (self.rows
                * self.cols)) by (nonlinear_arith);
        }
        self.trn_lbl.len() as u32
    }

    /// Number of test images.
    pub fn tst_size(&self) -> (n: u32)
        ensures
            n == self.tst_labels().len(),
            self.tst_pixels().len() == n * self.spec_pixels(),
    {
        proof {
            use_type_invariant(self);
            lemma_flatten_len(matrix_rows(self.tst_img), self.cols as nat);
            assert(self.tst_lbl@.len() * self.rows * self.cols == self.tst_lbl@.len() * (self.rows
                * self.cols)) by (nonlinear_arith);
        }
        self.tst_lbl.len() as u32
    }

    /// Pixel rows per image.
    pub fn rows(&self) -> (n: u32)
        ensures
            n == self.spec_rows(),
    {
        self.rows
    }

    /// Pixel columns per image.
    pub fn cols(&self) -> (n: u32)
        ensures
            n == self.spec_cols(),
    {
        self.cols
    }

    /// Pixels per image.
    pub fn pixels(&self) -> (n: usize)
        ensures
            n == self.spec_pixels(),
    {
        proof {
            use_type_invariant(self);
        }
        (self.rows as usize) * (self.cols as usize)
    }

    /// The training images as one matrix: `rows` matrix rows per image, each
    /// of `cols` pixels.
    pub fn get_trn_mat(&self) -> (mat: &Matrix<u8>)
        ensures
            matrix_rows(*mat).len() == self.trn_labels().len() * self.spec_rows(),
            uniform(matrix_rows(*mat), self.spec_cols()),
            matrix_rows(*mat).flatten() == self.trn_pixels(),
    {
        proof {
            use_type_invariant(self);
        }
        &self.trn_img
    }

    /// The test images as one matrix: `rows` matrix rows per image, each of
    /// `cols` pixels.
    pub fn get_tst_mat(&self) -> (mat: &Matrix<u8>)
        ensures
            matrix_rows(*mat).len() == self.tst_labels().len() * self.spec_rows(),
            uniform(matrix_rows(*mat), self.spec_cols()),
            matrix_rows(*mat).flatten() == self.tst_pixels(),
    {
        proof {
            use_type_invariant(self);
        }
        &self.tst_img
    }

    /// The class of training image `id`.
    pub fn trn_label(&self, id: u32) -> (label: u8)
        requires
            id < self.trn_labels().len(),
        ensures
            label == self.trn_labels()[id as int],
    {
        self.trn_lbl[id as usize]
    }

    /// The class of test image `id`.
    pub fn tst_label(&self, id: u32) -> (label: u8)
        requires
            id < self.tst_labels().len(),
        ensures
            label == self.tst_labels()[id as int],
    {
        self.tst_lbl[id as usize]
    }

    /// The pixels of training image `id`.
    pub fn trn_example(&self, id: u32) -> (pixels: Vec<u8>)
        requires
            id < self.trn_labels().len(),
        ensures
            pixels@ == self.image(self.trn_pixels(), id as int),
            pixels@.len() == self.spec_pixels(),
    {
        proof {
            use_type_invariant(self);
            lemma_image_rows(
                matrix_rows(self.trn_img),
                self.trn_lbl@.len(),
                self.rows as nat,
                self.cols as nat,
                id as int,
            );
        }
        select_image(&self.trn_img, id as usize, self.rows as usize, Ghost(self.cols as nat))
    }

    /// The pixels of test image `id`.
    pub fn tst_example(&self, id: u32) -> (pixels: Vec<u8>)
        requires
            id < self.tst_labels().len(),
        ensures
            pixels@ == self.image(self.tst_pixels(), id as int),
            pixels@.len() == self.spec_pixels(),
    {
        proof {
            use_type_invariant(self);
            lemma_image_rows(
                matrix_rows(self.tst_img),
                self.tst_lbl@.len(),
                self.rows as nat,
                self.cols as nat,
                id as int,
            );
        }
        select_image(&self.tst_img, id as usize, self.rows as usize, Ghost(self.cols as nat))
    }
}

/// Number of matrix rows that `count` images of `rows` by `cols` pixels take,
/// where `len` pixels are exactly those images and the number is within
/// `usize`.
fn matrix_height(len: usize, count: usize, rows: u32, cols: u32) -> (height: Option<usize>)
    ensures
        height.is_some() <==> count <= u32::MAX && count * rows <= usize::MAX && len == count
            * rows * cols,
        height matches Some(n) ==> n == count * rows,
{
    if count > u32::MAX as usize {
        return None;
    }
    let height = match count.checked_mul(rows as usize) {
        Some(n) => n,
        None => { return None; },
    };
    match height.checked_mul(cols as usize) {
        Some(n) => if n == len {
            Some(height)
        } else {
            None
        },
        None => None,
    }
}

/// Image `id` of a matrix of `count` images is its matrix rows
/// `id * rows .. (id + 1) * rows`, flattened.
proof fn lemma_image_rows(m: Seq<Seq<u8>>, count: nat, rows: nat, cols: nat, id: int)
    requires
        m.len() == count * rows,
        uniform(m, cols),
        0 <= id < count,
    ensures
        0 <= id * rows <= (id + 1) * rows <= m.len(),
        m.subrange(id * rows, (id + 1) * rows).flatten() == m.flatten().subrange(
            id * (rows * cols),
            (id + 1) * (rows * cols),
        ),
        m.subrange(id * rows, (id + 1) * rows).flatten().len() == rows * cols,
{
    assert(0 <= id * rows <= (id + 1) * rows <= count * rows && (id + 1) * rows == id * rows
        + rows) by (nonlinear_arith)
        requires
            0 <= id < count,
    ;
    assert(id * rows * cols == id * (rows * cols) && (id + 1) * rows * cols == (id + 1) * (rows
        * cols)) by (nonlinear_arith);
    lemma_flatten_subrange(m, cols, id * rows, (id + 1) * rows);
    let part = m.subrange(id * rows, (id + 1) * rows);
    assert(uniform(part, cols));
    lemma_flatten_len(part, cols);
}

/// Selects the `rows` matrix rows of image `id` and lines their entries up.
fn select_image(mat: &Matrix<u8>, id: usize, rows: usize, Ghost(cols): Ghost<nat>) -> (pixels:
    Vec<u8>)
    requires
        (id + 1) * rows <= matrix_rows(*mat).len() <= usize::MAX,
        uniform(matrix_rows(*mat), cols),
        rows * cols <= usize::MAX,
    ensures
        pixels@ == matrix_rows(*mat).subrange(id * rows, (id + 1) * rows).flatten(),
{
    assert(0 <= id * rows && id * rows + rows == (id + 1) * rows) by (nonlinear_arith);
    let row_begin = id * rows;
    let mut picked: Vec<usize> = Vec::new();
    let mut r: usize = 0;
    while r < rows
        invariant
            r <= rows,
            row_begin + rows <= matrix_rows(*mat).len() <= usize::MAX,
            picked@.len() == r,
            forall|k: int| 0 <= k < r ==> picked@[k] == row_begin + k,
        decreases rows - r,
    {
        picked.push(row_begin + r);
        r += 1;
    }
    let image = matrix_select_rows(mat, &picked);
    assert(matrix_rows(image) =~= matrix_rows(*mat).subrange(
        row_begin as int,
        row_begin + rows,
    ));
    matrix_into_vec(image)
}

} // verus!
