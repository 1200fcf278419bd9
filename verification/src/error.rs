//! The errors of the library.

use vstd::prelude::*;

verus! {

/// Why an operation refused its arguments.
#[derive(Clone, Copy, Debug, PartialEq, Eq, Structural)]
pub enum FilterError {
    /// Two images that must share width and height do not.
    DimensionMismatch,
    /// A kernel has no rows, no columns, or a shape that its weights do not fill.
    InvalidKernel,
    /// A scalar argument lies outside the range the operation accepts.
    InvalidParameter,
}

} // verus!
