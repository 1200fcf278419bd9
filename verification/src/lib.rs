//! Kernel convolution and saturating pixel arithmetic on RGBA images.
//!
//! Every operation is a pure function: it reads its inputs and returns a new
//! image of the same dimensions. Contracts are stated over the mathematical
//! view of an image (`Raster`) and of a kernel (`KernelView`).

pub mod convolution;
pub mod error;
pub mod filters;
pub mod image_ops;
pub mod kernel;
pub mod pixel;
pub mod rank_filter;
pub mod raster;
pub mod weight;
