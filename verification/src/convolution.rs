//! Convolution of an image with a kernel.

use vstd::prelude::*;
use crate::kernel::{Kernel, KernelView};
use crate::pixel::{channel, clamp_channel, Rgba8};
use crate::raster::{
    clamp_coordinate, lemma_agreement_complete, lemma_agreement_grows, Image, Raster,
};
use crate::weight::product_of;

verus! {

/// The term of one kernel cell for the pixel at `(x, y)`: the sample `dx` to
/// the right and `dy` below, clamped into the image, times the cell's weight,
/// rounded toward zero.
pub open spec fn cell_term(img: Raster, k: KernelView, x: int, y: int, dx: int, dy: int, ch: int) -> int {
    product_of(k.weight(dx, dy), channel(img.sample(x + dx, y + dy), ch))
}

/// The sum of the terms of the first `n` cells of kernel row `dy`.
pub open spec fn row_sum(img: Raster, k: KernelView, x: int, y: int, dy: int, n: nat, ch: int) -> int
    decreases n,
{
    if n == 0 {
        0
    } else {
        row_sum(img, k, x, y, dy, (n - 1) as nat, ch) + cell_term(img, k, x, y, n - 1, dy, ch)
    }
}

/// The sum of the terms of the first `rows` rows of the kernel.
pub open spec fn kernel_sum(img: Raster, k: KernelView, x: int, y: int, rows: nat, ch: int) -> int
    decreases rows,
{
    if rows == 0 {
        0
    } else {
        kernel_sum(img, k, x, y, (rows - 1) as nat, ch) + row_sum(img, k, x, y, rows - 1, k.cols, ch)
    }
}

/// The convolved pixel at `(x, y)`: each colour channel is the saturated sum
/// of all the kernel's terms, and alpha is opaque whatever the input held.
pub open spec fn convolved_pixel(img: Raster, k: KernelView, x: int, y: int) -> Rgba8 {
    Rgba8 {
        r: clamp_channel(kernel_sum(img, k, x, y, k.rows, 0)),
        g: clamp_channel(kernel_sum(img, k, x, y, k.rows, 1)),
        b: clamp_channel(kernel_sum(img, k, x, y, k.rows, 2)),
        a: 255,
    }
}

/// `img` convolved with `k`.
pub open spec fn convolved(img: Raster, k: KernelView) -> Raster {
    img.remap(|x: int, y: int| convolved_pixel(img, k, x, y))
}

/// `v + d` brought into `[0, n - 1]`, for a position `v` inside.
fn clamped_step(v: u32, d: usize, n: u32) -> (r: u32)
    requires
        v < n,
    ensures
        r == clamp_coordinate(v + d, n as int),
        r < n,
{
    let room: u32 = n - 1 - v;
    if d > room as usize {
        n - 1
    } else {
        v + d as u32
    }
}

/// The saturated value of a sum of terms.
fn saturate(total: i128) -> (r: u8)
    ensures
        r == clamp_channel(total as int),
{
    if total < 0 {
        0
    } else if total > 255 {
        255
    } else {
        total as u8
    }
}

/// The three colour sums of one kernel row for the pixel at `(x, y)`.
fn row_sums(input: &Image, kernel: &Kernel, x: u32, y: u32, dy: usize) -> (sums: (i128, i128, i128))
    requires
        input@.contains(x as int, y as int),
        dy < kernel@.rows,
    ensures
        sums.0 == row_sum(input@, kernel@, x as int, y as int, dy as int, kernel@.cols, 0),
        sums.1 == row_sum(input@, kernel@, x as int, y as int, dy as int, kernel@.cols, 1),
        sums.2 == row_sum(input@, kernel@, x as int, y as int, dy as int, kernel@.cols, 2),
        -0x8000_0000 * kernel@.cols <= sums.0 <= 0x8000_0000 * kernel@.cols,
        -0x8000_0000 * kernel@.cols <= sums.1 <= 0x8000_0000 * kernel@.cols,
        -0x8000_0000 * kernel@.cols <= sums.2 <= 0x8000_0000 * kernel@.cols,
{
    let (width, height) = input.dimensions();
    let cols: usize = kernel.cols();
    let sy: u32 = clamped_step(y, dy, height);
    let mut red: i128 = 0;
    let mut green: i128 = 0;
    let mut blue: i128 = 0;
    let mut dx: usize = 0;
    while dx < cols
        invariant
            dx <= cols,
            cols == kernel@.cols,
            dy < kernel@.rows,
            width == input@.width,
            height == input@.height,
            x < width,
            sy < height,
            sy == clamp_coordinate(y + dy, height as int),
            red == row_sum(input@, kernel@, x as int, y as int, dy as int, dx as nat, 0),
            green == row_sum(input@, kernel@, x as int, y as int, dy as int, dx as nat, 1),
            blue == row_sum(input@, kernel@, x as int, y as int, dy as int, dx as nat, 2),
            -0x8000_0000 * dx <= red <= 0x8000_0000 * dx,
            -0x8000_0000 * dx <= green <= 0x8000_0000 * dx,
            -0x8000_0000 * dx <= blue <= 0x8000_0000 * dx,
        decreases cols - dx,
    {
        let sx: u32 = clamped_step(x, dx, width);
        let p = input.get_pixel(sx, sy);
        let w = kernel.weight(dx, dy);
        red = red + w.product(p.r) as i128;
        green = green + w.product(p.g) as i128;
        blue = blue + w.product(p.b) as i128;
        dx = dx + 1;
    }
    (red, green, blue)
}

/// Applies `kernel` to every pixel of `input`. The kernel is anchored at the
/// target pixel and reaches to the right and down; samples beyond an edge
/// read the edge. Each term is rounded toward zero before the terms are
/// added, the sum of each colour channel is saturated, and alpha is set to
/// 255.
pub fn apply_matrix(input: &Image, kernel: &Kernel) -> (out: Image)
    ensures
        out@ == convolved(input@, kernel@),
        out@.width == input@.width,
        out@.height == input@.height,
        forall|x: int, y: int| out@.contains(x, y) ==> (#[trigger] out@.at(x, y)).a == 255,
{
    let (width, height) = input.dimensions();
    let rows: usize = kernel.rows();
    let count: usize = kernel.len();
    let ghost want = convolved(input@, kernel@);
    let mut out = input.duplicate();
    let mut y: u32 = 0;
    while y < height
        invariant
            y <= height,
            width == want.width,
            height == want.height,
            width == input@.width,
            height == input@.height,
            rows == kernel@.rows,
            count == kernel@.rows * kernel@.cols,
            want == convolved(input@, kernel@),
            out@.agrees_before(want, 0, y as int),
        decreases height - y,
    {
        let mut x: u32 = 0;
        while x < width
            invariant
                x <= width,
                y < height,
                width == want.width,
                height == want.height,
                width == input@.width,
                height == input@.height,
                rows == kernel@.rows,
                count == kernel@.rows * kernel@.cols,
                want == convolved(input@, kernel@),
                out@.agrees_before(want, x as int, y as int),
            decreases width - x,
        {
            let mut red: i128 = 0;
            let mut green: i128 = 0;
            let mut blue: i128 = 0;
            let mut dy: usize = 0;
            while dy < rows
                invariant
                    dy <= rows,
                    x < width,
                    y < height,
                    width == input@.width,
                    height == input@.height,
                    rows == kernel@.rows,
                    count == kernel@.rows * kernel@.cols,
                    red == kernel_sum(input@, kernel@, x as int, y as int, dy as nat, 0),
                    green == kernel_sum(input@, kernel@, x as int, y as int, dy as nat, 1),
                    blue == kernel_sum(input@, kernel@, x as int, y as int, dy as nat, 2),
                    -0x8000_0000 * (dy * kernel@.cols) <= red <= 0x8000_0000 * (dy * kernel@.cols),
                    -0x8000_0000 * (dy * kernel@.cols) <= green <= 0x8000_0000 * (dy
                        * kernel@.cols),
                    -0x8000_0000 * (dy * kernel@.cols) <= blue <= 0x8000_0000 * (dy * kernel@.cols),
                decreases rows - dy,
            {
                let sums = row_sums(input, kernel, x, y, dy);
                proof {
                    let cols = kernel@.cols as int;
                    assert((dy + 1) * cols == dy * cols + cols) by (nonlinear_arith);
                    assert((dy + 1) * cols <= rows * cols) by (nonlinear_arith)
                        requires
                            dy + 1 <= rows,
                            cols >= 0,
                    ;
                }
                red = red + sums.0;
                green = green + sums.1;
                blue = blue + sums.2;
                dy = dy + 1;
            }
            let p = Rgba8 { r: saturate(red), g: saturate(green), b: saturate(blue), a: 255 };
            let ghost before = out@;
            out.put_pixel(x, y, p);
            proof {
                lemma_agreement_grows(before, out@, want, x as int, y as int);
            }
            x = x + 1;
        }
        y = y + 1;
    }
    proof {
        lemma_agreement_complete(out@, want);
    }
    out
}

/// The sum of the products of channel value `c` with the first `n` weights
/// of kernel row `dy`.
pub open spec fn row_products(k: KernelView, dy: int, n: nat, c: u8) -> int
    decreases n,
{
    if n == 0 {
        0
    } else {
        row_products(k, dy, (n - 1) as nat, c) + product_of(k.weight(n - 1, dy), c)
    }
}

/// The sum of the products of channel value `c` with the weights of the first
/// `rows` rows of the kernel.
pub open spec fn kernel_products(k: KernelView, rows: nat, c: u8) -> int
    decreases rows,
{
    if rows == 0 {
        0
    } else {
        kernel_products(k, (rows - 1) as nat, c) + row_products(k, rows - 1, k.cols, c)
    }
}

proof fn lemma_single_pixel_row(img: Raster, k: KernelView, dy: int, n: nat, ch: int)
    requires
        img.width == 1,
        img.height == 1,
        0 <= dy,
    ensures
        row_sum(img, k, 0, 0, dy, n, ch) == row_products(k, dy, n, channel(img.at(0, 0), ch)),
    decreases n,
{
    if n > 0 {
        lemma_single_pixel_row(img, k, dy, (n - 1) as nat, ch);
    }
}

proof fn lemma_single_pixel_rows(img: Raster, k: KernelView, rows: nat, ch: int)
    requires
        img.width == 1,
        img.height == 1,
    ensures
        kernel_sum(img, k, 0, 0, rows, ch) == kernel_products(k, rows, channel(img.at(0, 0), ch)),
    decreases rows,
{
    if rows > 0 {
        lemma_single_pixel_rows(img, k, (rows - 1) as nat, ch);
        lemma_single_pixel_row(img, k, rows - 1, k.cols, ch);
    }
}

/// On an image of a single pixel every sample is that pixel, so each colour
/// channel of the convolved pixel is the saturated sum of the channel's
/// products with all the weights of the kernel.
pub proof fn lemma_single_pixel_convolution(img: Raster, k: KernelView, ch: int)
    requires
        img.width == 1,
        img.height == 1,
        0 <= ch <= 2,
    ensures
        convolved(img, k).width == 1,
        convolved(img, k).height == 1,
        channel(convolved(img, k).at(0, 0), ch) == clamp_channel(
            kernel_products(k, k.rows, channel(img.at(0, 0), ch)),
        ),
{
    lemma_single_pixel_rows(img, k, k.rows, ch);
}

/// Convolution keeps the dimensions and makes every pixel opaque, whatever
/// alpha the input held.
pub proof fn lemma_convolution_sets_alpha(img: Raster, k: KernelView, x: int, y: int)
    requires
        img.contains(x, y),
    ensures
        convolved(img, k).width == img.width,
        convolved(img, k).height == img.height,
        convolved(img, k).at(x, y).a == 255,
{
}

} // verus!
