//! Convolution kernels: the array that holds one, and what it is to a
//! contract.

use vstd::prelude::*;
use crate::error::FilterError;
use crate::weight::{ratio_products, Weight};

verus! {

/// A convolution kernel: a rectangle of weights, held in an
/// `ndarray::Array2`. The array is reached only through the functions of this
/// module, and `new`, the one way to a kernel, makes none without rows or
/// columns.
#[verifier::external_body]
pub struct Kernel {
    cells: ndarray::Array2<Weight>,
}

/// The shape of the array of `k`: the length of the first axis, the rows,
/// then that of the second, the columns.
pub uninterp spec fn kernel_shape(k: Kernel) -> (usize, usize);

/// The tables of the weights the array of `k` holds, by row and column.
pub uninterp spec fn kernel_cells(k: Kernel) -> Map<(int, int), Seq<i32>>;

/// What a kernel is to a contract: its shape and the tables of its weights,
/// the weight in row `row` and column `col` under the key `(row, col)`.
pub struct KernelView {
    pub rows: nat,
    pub cols: nat,
    pub cells: Map<(int, int), Seq<i32>>,
}

impl KernelView {
    /// The table of the weight that applies `dx` pixels to the right of and
    /// `dy` pixels below the target pixel: a column of the kernel is a step
    /// in x, a row a step in y.
    pub open spec fn weight(self, dx: int, dy: int) -> Seq<i32> {
        self.cells[(dy, dx)]
    }
}

/// The kernel of `rows` by `cols` weights that `weights` lists row by row.
pub open spec fn kernel_view(rows: nat, cols: nat, weights: Seq<Seq<i32>>) -> KernelView {
    KernelView {
        rows,
        cols,
        cells: Map::new(
            |p: (int, int)| 0 <= p.0 < rows && 0 <= p.1 < cols,
            |p: (int, int)| weights[p.0 * cols + p.1],
        ),
    }
}

/// The kernel of `rows` by `cols` weights whose weight `k`, counted row by
/// row, is `numerators[k] / den`.
pub open spec fn ratio_kernel(rows: nat, cols: nat, numerators: Seq<i32>, den: int) -> KernelView {
    kernel_view(
        rows,
        cols,
        Seq::new(numerators.len(), |k: int| ratio_products(numerators[k] as int, den)),
    )
}

/// The tables of a list of weights.
pub open spec fn tables(weights: Seq<Weight>) -> Seq<Seq<i32>> {
    weights.map_values(|w: Weight| w@)
}

impl View for Kernel {
    type V = KernelView;

    open spec fn view(&self) -> KernelView {
        KernelView {
            rows: kernel_shape(*self).0 as nat,
            cols: kernel_shape(*self).1 as nat,
            cells: Map::new(
                |p: (int, int)|
                    0 <= p.0 < kernel_shape(*self).0 && 0 <= p.1 < kernel_shape(*self).1,
                |p: (int, int)| kernel_cells(*self)[p],
            ),
        }
    }
}

/// `Array2::from_shape_vec` with the shape `(rows, cols)`: an array in row
/// order over `weights` when `rows * cols` is their number and does not
/// exceed `isize::MAX`, else an error, which is dropped here. Element
/// `[row, col]` is `weights[row * cols + col]`.
#[verifier::external_body]
fn array_from_shape_vec(rows: usize, cols: usize, weights: Vec<Weight>) -> (r: Option<Kernel>)
    requires
        rows >= 1,
        cols >= 1,
    ensures
        r.is_some() <==> (rows * cols == weights.len() && rows * cols <= isize::MAX),
        r matches Some(k) ==> kernel_shape(k) == (rows, cols)
            && forall|row: int, col: int|
            0 <= row < rows && 0 <= col < cols ==> #[trigger] kernel_cells(k)[(row, col)]
                == weights[row * cols + col]@,
{
    match ndarray::Array2::from_shape_vec((rows, cols), weights) {
        Ok(cells) => Some(Kernel { cells }),
        Err(_) => None,
    }
}

/// `ArrayBase::dim`: the lengths of the two axes, rows first.
#[verifier::external_body]
fn array_dim(k: &Kernel) -> (d: (usize, usize))
    ensures
        d == kernel_shape(*k),
{
    k.cells.dim()
}

/// `ArrayBase::len`: the number of elements, the product of the two axis
/// lengths.
#[verifier::external_body]
fn array_len(k: &Kernel) -> (n: usize)
    ensures
        n == kernel_shape(*k).0 * kernel_shape(*k).1,
{
    k.cells.len()
}

/// Indexing of `Array2` by `[row, col]`. It panics outside the array, so the
/// index must lie inside.
#[verifier::external_body]
fn array_index(k: &Kernel, row: usize, col: usize) -> (w: &Weight)
    requires
        row < kernel_shape(*k).0,
        col < kernel_shape(*k).1,
    ensures
        w@ == kernel_cells(*k)[(row as int, col as int)],
{
    &k.cells[[row, col]]
}

impl Kernel {
    /// The kernel of `rows` by `cols` weights that `weights` lists row by
    /// row. A kernel without rows or columns, one whose shape the weights do
    /// not fill exactly, or one of more than `isize::MAX` weights is refused.
    pub fn new(rows: usize, cols: usize, weights: Vec<Weight>) -> (r: Result<Kernel, FilterError>)
        ensures
            r.is_ok() <==> (rows >= 1 && cols >= 1 && rows * cols == weights.len()
                && weights.len() <= isize::MAX),
            r matches Ok(k) ==> k@ == kernel_view(rows as nat, cols as nat, tables(weights@)),
            r matches Err(e) ==> e == FilterError::InvalidKernel,
    {
        if rows == 0 || cols == 0 {
            return Err(FilterError::InvalidKernel);
        }
        let ghost listed = tables(weights@);
        match array_from_shape_vec(rows, cols, weights) {
            Some(k) => {
                proof {
                    let want = kernel_view(rows as nat, cols as nat, listed);
                    assert forall|p: (int, int)| k@.cells.dom().contains(p) implies k@.cells[p]
                        == want.cells[p] by {
                        assert(kernel_cells(k)[(p.0, p.1)] == listed[p.0 * cols + p.1]) by {
                            assert(0 <= p.0 * cols + p.1 < rows * cols) by (nonlinear_arith)
                                requires
                                    0 <= p.0 < rows,
                                    0 <= p.1 < cols,
                            ;
                        }
                    }
                    assert(k@.cells =~= want.cells);
                }
                Ok(k)
            },
            None => Err(FilterError::InvalidKernel),
        }
    }

    /// The kernel of `rows` by `cols` exact weights `numerators[k] / den`,
    /// listed row by row. It is refused as `new` refuses it, and when `den`
    /// is 0.
    pub fn from_ratios(rows: usize, cols: usize, numerators: &Vec<i32>, den: i32) -> (r: Result<
        Kernel,
        FilterError,
    >)
        ensures
            r.is_ok() <==> (den != 0 && rows >= 1 && cols >= 1 && rows * cols == numerators.len()
                && numerators.len() <= isize::MAX),
            r matches Ok(k) ==> k@ == ratio_kernel(rows as nat, cols as nat, numerators@, den as int),
            r matches Err(e) ==> e == FilterError::InvalidKernel,
    {
        if den == 0 {
            return Err(FilterError::InvalidKernel);
        }
        let mut weights: Vec<Weight> = Vec::new();
        let mut k: usize = 0;
        while k < numerators.len()
            invariant
                k <= numerators.len(),
                den != 0,
                weights@.len() == k,
                forall|t: int|
                    0 <= t < k ==> (#[trigger] weights@[t])@ == ratio_products(
                        numerators@[t] as int,
                        den as int,
                    ),
            decreases numerators.len() - k,
        {
            let w = Weight::ratio(numerators[k] as i64, den as i64).unwrap();
            weights.push(w);
            k = k + 1;
        }
        proof {
            assert(tables(weights@) =~= Seq::new(
                numerators@.len(),
                |k: int| ratio_products(numerators@[k] as int, den as int),
            ));
        }
        Kernel::new(rows, cols, weights)
    }

    /// The number of rows: how far the kernel reaches in y.
    pub fn rows(&self) -> (n: usize)
        ensures
            n == self@.rows,
    {
        array_dim(self).0
    }

    /// The number of columns: how far the kernel reaches in x.
    pub fn cols(&self) -> (n: usize)
        ensures
            n == self@.cols,
    {
        array_dim(self).1
    }

    /// The number of weights, `rows * cols`.
    pub fn len(&self) -> (n: usize)
        ensures
            n == self@.rows * self@.cols,
    {
        array_len(self)
    }

    /// The weight that applies `dx` pixels to the right of and `dy` pixels
    /// below the target pixel.
    pub fn weight(&self, dx: usize, dy: usize) -> (w: &Weight)
        requires
            dx < self@.cols,
            dy < self@.rows,
        ensures
            w@ == self@.weight(dx as int, dy as int),
    {
        array_index(self, dy, dx)
    }
}

} // verus!
