//! The named filters: blurs, gradients, sharpening and edge detection.

use vstd::prelude::*;
use crate::convolution::{apply_matrix, convolved};
use crate::image_ops::{
    adjust_contrast, difference_of, image_add, image_sub, same_dimensions, scaled, shifted, sum_of,
};
use crate::kernel::{ratio_kernel, Kernel, KernelView};
use crate::rank_filter::median_filtered;
use crate::raster::{Image, Raster};
use crate::weight::{ratio_products, Weight};

verus! {

/// The 3 by 3 binomial kernel: the outer product of `1 2 1` with itself,
/// over 16.
pub open spec fn binomial_3() -> KernelView {
    ratio_kernel(3, 3, seq![1i32, 2, 1, 2, 4, 2, 1, 2, 1], 16)
}

/// The 5 by 5 binomial kernel: the outer product of `1 4 6 4 1` with itself,
/// over 256.
pub open spec fn binomial_5() -> KernelView {
    ratio_kernel(
        5,
        5,
        seq![
            1i32, 4, 6, 4, 1,
            4, 16, 24, 16, 4,
            6, 24, 36, 24, 6,
            4, 16, 24, 16, 4,
            1, 4, 6, 4, 1,
        ],
        256,
    )
}

/// One row, two columns, `-1 1`: the pixel to the right minus the pixel.
pub open spec fn forward_x() -> KernelView {
    ratio_kernel(1, 2, seq![-1i32, 1], 1)
}

/// Two rows, one column, `1` over `-1`: the pixel minus the pixel below.
pub open spec fn forward_y() -> KernelView {
    ratio_kernel(2, 1, seq![1i32, -1i32], 1)
}

/// Unsharp masking: the detail that a 3 by 3 blur removes from `img`,
/// multiplied by `amount` and added back to `img`.
pub open spec fn sharpened(img: Raster, amount: Seq<i32>) -> Raster {
    sum_of(img, scaled(difference_of(img, convolved(img, binomial_3())), amount))
}

/// The edges of `img`: contrast doubled, sharpened tenfold, then the sum of
/// the two forward differences.
pub open spec fn edges(img: Raster) -> Raster {
    let sharp = sharpened(scaled(img, ratio_products(2, 1)), ratio_products(10, 1));
    sum_of(convolved(sharp, forward_x()), convolved(sharp, forward_y()))
}

/// Blurs with the 3 by 3 binomial kernel.
pub fn bilinear_filter(input: &Image) -> (out: Image)
    ensures
        out@ == convolved(input@, binomial_3()),
        out@.width == input@.width,
        out@.height == input@.height,
{
    let numerators: Vec<i32> = vec![1, 2, 1, 2, 4, 2, 1, 2, 1];
    let kernel = Kernel::from_ratios(3, 3, &numerators, 16).unwrap();
    apply_matrix(input, &kernel)
}

/// Blurs with the 5 by 5 binomial kernel.
pub fn gaussian_blur(input: &Image) -> (out: Image)
    ensures
        out@ == convolved(input@, binomial_5()),
        out@.width == input@.width,
        out@.height == input@.height,
{
    let numerators: Vec<i32> = vec![
        1, 4, 6, 4, 1,
        4, 16, 24, 16, 4,
        6, 24, 36, 24, 6,
        4, 16, 24, 16, 4,
        1, 4, 6, 4, 1,
    ];
    assert(numerators@ =~= seq![
        1i32, 4, 6, 4, 1,
        4, 16, 24, 16, 4,
        6, 24, 36, 24, 6,
        4, 16, 24, 16, 4,
        1, 4, 6, 4, 1,
    ]);
    let kernel = Kernel::from_ratios(5, 5, &numerators, 256).unwrap();
    apply_matrix(input, &kernel)
}

/// The forward difference along x: at each pixel, the pixel to its right
/// minus the pixel itself, saturated. In the last column the difference is 0.
pub fn x_grad(input: &Image) -> (out: Image)
    ensures
        out@ == convolved(input@, forward_x()),
        out@.width == input@.width,
        out@.height == input@.height,
{
    let numerators: Vec<i32> = vec![-1, 1];
    let kernel = Kernel::from_ratios(1, 2, &numerators, 1).unwrap();
    apply_matrix(input, &kernel)
}

/// The forward difference along y: at each pixel, the pixel itself minus the
/// pixel below it, saturated. In the last row the difference is 0.
pub fn y_grad(input: &Image) -> (out: Image)
    ensures
        out@ == convolved(input@, forward_y()),
        out@.width == input@.width,
        out@.height == input@.height,
{
    let numerators: Vec<i32> = vec![1, -1];
    assert(numerators@ =~= seq![1i32, -1i32]);
    let kernel = Kernel::from_ratios(2, 1, &numerators, 1).unwrap();
    apply_matrix(input, &kernel)
}

/// Sharpens by unsharp masking: blurs `input` with the 3 by 3 binomial
/// kernel, takes what the blur removed, multiplies it by `value` and adds it
/// back to `input`.
pub fn sharpen(input: &Image, value: &Weight) -> (out: Image)
    ensures
        out@ == sharpened(input@, value@),
        out@.width == input@.width,
        out@.height == input@.height,
{
    let filtered = bilinear_filter(input);
    let detail = image_sub(input, &filtered).unwrap();
    let detail = adjust_contrast(&detail, value);
    image_add(input, &detail).unwrap()
}

/// Detects edges: doubles the contrast, sharpens tenfold, takes the forward
/// differences along x and along y, and adds the two.
pub fn edge_detect(input: &Image) -> (out: Image)
    ensures
        out@ == edges(input@),
        out@.width == input@.width,
        out@.height == input@.height,
{
    let double = Weight::ratio(2, 1).unwrap();
    let tenfold = Weight::ratio(10, 1).unwrap();
    let cleaned = adjust_contrast(input, &double);
    let sharp = sharpen(&cleaned, &tenfold);
    let gradient_x = x_grad(&sharp);
    let gradient_y = y_grad(&sharp);
    image_add(&gradient_x, &gradient_y).unwrap()
}

/// Every filter returns an image of the dimensions of its input: the two
/// blurs, both gradients, any other convolution, sharpening, edge detection,
/// the brightness shift, the contrast scale and the median filter.
pub proof fn lemma_filters_keep_dimensions(
    img: Raster,
    k: KernelView,
    amount: Seq<i32>,
    delta: int,
    window: int,
)
    ensures
        same_dimensions(convolved(img, binomial_3()), img),
        same_dimensions(convolved(img, binomial_5()), img),
        same_dimensions(convolved(img, forward_x()), img),
        same_dimensions(convolved(img, forward_y()), img),
        same_dimensions(convolved(img, k), img),
        same_dimensions(sharpened(img, amount), img),
        same_dimensions(edges(img), img),
        same_dimensions(shifted(img, delta), img),
        same_dimensions(scaled(img, amount), img),
        same_dimensions(median_filtered(img, window), img),
{
}

} // verus!
