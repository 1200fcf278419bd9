//! Pixel-wise operations on one image or on two of equal dimensions.

use vstd::prelude::*;
use crate::error::FilterError;
use crate::pixel::{
    pixel_add, pixel_add_spec, pixel_scale, pixel_scale_spec, pixel_shift, pixel_shift_spec,
    pixel_sub, pixel_sub_spec, Rgba8,
};
use crate::raster::{lemma_agreement_complete, lemma_agreement_grows, Image, Raster};
use crate::weight::{
    identity_products, lemma_unit_ratios, ratio_products, zero_products, Weight,
};

verus! {

/// Whether two images share width and height.
pub open spec fn same_dimensions(a: Raster, b: Raster) -> bool {
    a.width == b.width && a.height == b.height
}

/// `a` with each pixel replaced by its saturating sum with the pixel of `b`
/// in its place; alpha stays that of `a`.
pub open spec fn sum_of(a: Raster, b: Raster) -> Raster {
    a.remap(|x: int, y: int| pixel_add_spec(a.at(x, y), b.at(x, y)))
}

/// `a` with each pixel replaced by its saturating difference with the pixel
/// of `b` in its place; alpha stays that of `a`.
pub open spec fn difference_of(a: Raster, b: Raster) -> Raster {
    a.remap(|x: int, y: int| pixel_sub_spec(a.at(x, y), b.at(x, y)))
}

/// The pixel of a blend: each operand is scaled and saturated on its own, and
/// the two results are then added and saturated again.
pub open spec fn blend_pixel(p: Rgba8, q: Rgba8, keep: Seq<i32>, mix: Seq<i32>) -> Rgba8 {
    pixel_add_spec(pixel_scale_spec(p, keep), pixel_scale_spec(q, mix))
}

/// `a` scaled by `keep` plus `b` scaled by `mix`, pixel by pixel.
pub open spec fn blend_of(a: Raster, b: Raster, keep: Seq<i32>, mix: Seq<i32>) -> Raster {
    a.remap(|x: int, y: int| blend_pixel(a.at(x, y), b.at(x, y), keep, mix))
}

/// The blend of `a` and `b` at `num / den`: `a` scaled by the complement
/// `(den - num) / den` plus `b` scaled by `num / den`.
pub open spec fn blend_at(a: Raster, b: Raster, num: int, den: int) -> Raster {
    blend_of(a, b, ratio_products(den - num, den), ratio_products(num, den))
}

/// `img` with the colour channels of every pixel moved by `delta`.
pub open spec fn shifted(img: Raster, delta: int) -> Raster {
    img.remap(|x: int, y: int| pixel_shift_spec(img.at(x, y), delta))
}

/// `img` with the colour channels of every pixel multiplied by `w`.
pub open spec fn scaled(img: Raster, w: Seq<i32>) -> Raster {
    img.remap(|x: int, y: int| pixel_scale_spec(img.at(x, y), w))
}

/// The saturating sum of two images of equal dimensions, pixel by pixel;
/// alpha is taken from `input_1`.
pub fn image_add(input_1: &Image, input_2: &Image) -> (r: Result<Image, FilterError>)
    ensures
        r.is_ok() <==> same_dimensions(input_1@, input_2@),
        r matches Ok(out) ==> out@ == sum_of(input_1@, input_2@) && same_dimensions(out@, input_1@),
        r matches Err(e) ==> e == FilterError::DimensionMismatch,
{
    let (width, height) = input_1.dimensions();
    let (width_2, height_2) = input_2.dimensions();
    if width != width_2 || height != height_2 {
        return Err(FilterError::DimensionMismatch);
    }
    let ghost want = sum_of(input_1@, input_2@);
    let mut out = input_1.duplicate();
    let mut y: u32 = 0;
    while y < height
        invariant
            y <= height,
            width == want.width,
            height == want.height,
            same_dimensions(input_1@, input_2@),
            want == sum_of(input_1@, input_2@),
            out@.agrees_before(want, 0, y as int),
        decreases height - y,
    {
        let mut x: u32 = 0;
        while x < width
            invariant
                x <= width,
                y < height,
                width == want.width,
                height == want.height,
                same_dimensions(input_1@, input_2@),
                want == sum_of(input_1@, input_2@),
                out@.agrees_before(want, x as int, y as int),
            decreases width - x,
        {
            let p = pixel_add(input_1.get_pixel(x, y), input_2.get_pixel(x, y));
            let ghost before = out@;
            out.put_pixel(x, y, p);
            proof {
                lemma_agreement_grows(before, out@, want, x as int, y as int);
            }
            x = x + 1;
        }
        y = y + 1;
    }
    proof {
        lemma_agreement_complete(out@, want);
    }
    Ok(out)
}

/// The saturating difference of two images of equal dimensions, pixel by
/// pixel; alpha is taken from `input_1`.
pub fn image_sub(input_1: &Image, input_2: &Image) -> (r: Result<Image, FilterError>)
    ensures
        r.is_ok() <==> same_dimensions(input_1@, input_2@),
        r matches Ok(out) ==> out@ == difference_of(input_1@, input_2@) && same_dimensions(
            out@,
            input_1@,
        ),
        r matches Err(e) ==> e == FilterError::DimensionMismatch,
{
    let (width, height) = input_1.dimensions();
    let (width_2, height_2) = input_2.dimensions();
    if width != width_2 || height != height_2 {
        return Err(FilterError::DimensionMismatch);
    }
    let ghost want = difference_of(input_1@, input_2@);
    let mut out = input_1.duplicate();
    let mut y: u32 = 0;
    while y < height
        invariant
            y <= height,
            width == want.width,
            height == want.height,
            same_dimensions(input_1@, input_2@),
            want == difference_of(input_1@, input_2@),
            out@.agrees_before(want, 0, y as int),
        decreases height - y,
    {
        let mut x: u32 = 0;
        while x < width
            invariant
                x <= width,
                y < height,
                width == want.width,
                height == want.height,
                same_dimensions(input_1@, input_2@),
                want == difference_of(input_1@, input_2@),
                out@.agrees_before(want, x as int, y as int),
            decreases width - x,
        {
            let p = pixel_sub(input_1.get_pixel(x, y), input_2.get_pixel(x, y));
            let ghost before = out@;
            out.put_pixel(x, y, p);
            proof {
                lemma_agreement_grows(before, out@, want, x as int, y as int);
            }
            x = x + 1;
        }
        y = y + 1;
    }
    proof {
        lemma_agreement_complete(out@, want);
    }
    Ok(out)
}

/// The blend of two images of equal dimensions: `input_1` scaled by `keep`
/// plus `input_2` scaled by `mix`. For a blend at `t`, `keep` is the
/// multiplier `1 - t` and `mix` the multiplier `t`. Each scaling saturates
/// before the sum does; alpha is taken from `input_1`.
pub fn linear_blend(input_1: &Image, input_2: &Image, keep: &Weight, mix: &Weight) -> (r: Result<Image, FilterError>)
    ensures
        r.is_ok() <==> same_dimensions(input_1@, input_2@),
        r matches Ok(out) ==> out@ == blend_of(input_1@, input_2@, keep@, mix@)
            && same_dimensions(out@, input_1@),
        r matches Err(e) ==> e == FilterError::DimensionMismatch,
{
    let (width, height) = input_1.dimensions();
    let (width_2, height_2) = input_2.dimensions();
    if width != width_2 || height != height_2 {
        return Err(FilterError::DimensionMismatch);
    }
    let ghost want = blend_of(input_1@, input_2@, keep@, mix@);
    let mut out = input_1.duplicate();
    let mut y: u32 = 0;
    while y < height
        invariant
            y <= height,
            width == want.width,
            height == want.height,
            same_dimensions(input_1@, input_2@),
            want == blend_of(input_1@, input_2@, keep@, mix@),
            out@.agrees_before(want, 0, y as int),
        decreases height - y,
    {
        let mut x: u32 = 0;
        while x < width
            invariant
                x <= width,
                y < height,
                width == want.width,
                height == want.height,
                same_dimensions(input_1@, input_2@),
                want == blend_of(input_1@, input_2@, keep@, mix@),
                out@.agrees_before(want, x as int, y as int),
            decreases width - x,
        {
            let scaled_1 = pixel_scale(input_1.get_pixel(x, y), keep);
            let scaled_2 = pixel_scale(input_2.get_pixel(x, y), mix);
            let p = pixel_add(scaled_1, scaled_2);
            let ghost before = out@;
            out.put_pixel(x, y, p);
            proof {
                lemma_agreement_grows(before, out@, want, x as int, y as int);
            }
            x = x + 1;
        }
        y = y + 1;
    }
    proof {
        lemma_agreement_complete(out@, want);
    }
    Ok(out)
}

/// The blend of two images of equal dimensions at the exact ratio
/// `num / den`: `input_1` scaled by `1 - num / den` plus `input_2` scaled by
/// `num / den`. At 0 that is `input_1`. A zero `den` is refused, then unequal
/// dimensions.
pub fn linear_blend_ratio(input_1: &Image, input_2: &Image, num: i32, den: i32) -> (r: Result<
    Image,
    FilterError,
>)
    ensures
        r.is_ok() <==> (den != 0 && same_dimensions(input_1@, input_2@)),
        r matches Ok(out) ==> out@ == blend_at(input_1@, input_2@, num as int, den as int)
            && same_dimensions(out@, input_1@),
        r matches Ok(out) ==> (num == 0 ==> out@ == input_1@),
        r matches Ok(out) ==> (num == den ==> forall|x: int, y: int|
            out@.contains(x, y) ==> #[trigger] out@.at(x, y) == (Rgba8 {
                r: input_2@.at(x, y).r,
                g: input_2@.at(x, y).g,
                b: input_2@.at(x, y).b,
                a: input_1@.at(x, y).a,
            })),
        r matches Err(e) ==> e == (if den == 0 {
            FilterError::InvalidParameter
        } else {
            FilterError::DimensionMismatch
        }),
{
    if den == 0 {
        return Err(FilterError::InvalidParameter);
    }
    let keep = Weight::ratio(den as i64 - num as i64, den as i64).unwrap();
    let mix = Weight::ratio(num as i64, den as i64).unwrap();
    let r = linear_blend(input_1, input_2, &keep, &mix);
    proof {
        if r.is_ok() && num == 0 {
            lemma_blend_at_zero(input_1@, input_2@, den as int);
        }
        if r.is_ok() && num == den {
            let out = r.unwrap()@;
            assert forall|x: int, y: int| out.contains(x, y) implies #[trigger] out.at(x, y) == (Rgba8 {
                r: input_2@.at(x, y).r,
                g: input_2@.at(x, y).g,
                b: input_2@.at(x, y).b,
                a: input_1@.at(x, y).a,
            }) by {
                lemma_blend_at_one(input_1@, input_2@, den as int, x, y);
            }
        }
    }
    r
}

/// Moves the colour channels of every pixel by `value`, saturating; alpha
/// is kept.
pub fn adjust_brightness(input: &Image, value: i32) -> (out: Image)
    ensures
        out@ == shifted(input@, value as int),
        out@.width == input@.width,
        out@.height == input@.height,
{
    let (width, height) = input.dimensions();
    let ghost want = shifted(input@, value as int);
    let mut out = input.duplicate();
    let mut y: u32 = 0;
    while y < height
        invariant
            y <= height,
            width == want.width,
            height == want.height,
            want == shifted(input@, value as int),
            out@.agrees_before(want, 0, y as int),
        decreases height - y,
    {
        let mut x: u32 = 0;
        while x < width
            invariant
                x <= width,
                y < height,
                width == want.width,
                height == want.height,
                want == shifted(input@, value as int),
                out@.agrees_before(want, x as int, y as int),
            decreases width - x,
        {
            let p = pixel_shift(input.get_pixel(x, y), value);
            let ghost before = out@;
            out.put_pixel(x, y, p);
            proof {
                lemma_agreement_grows(before, out@, want, x as int, y as int);
            }
            x = x + 1;
        }
        y = y + 1;
    }
    proof {
        lemma_agreement_complete(out@, want);
    }
    out
}

/// Multiplies the colour channels of every pixel by `value`, saturating;
/// alpha is kept.
pub fn adjust_contrast(input: &Image, value: &Weight) -> (out: Image)
    ensures
        out@ == scaled(input@, value@),
        out@.width == input@.width,
        out@.height == input@.height,
{
    let (width, height) = input.dimensions();
    let ghost want = scaled(input@, value@);
    let mut out = input.duplicate();
    let mut y: u32 = 0;
    while y < height
        invariant
            y <= height,
            width == want.width,
            height == want.height,
            want == scaled(input@, value@),
            out@.agrees_before(want, 0, y as int),
        decreases height - y,
    {
        let mut x: u32 = 0;
        while x < width
            invariant
                x <= width,
                y < height,
                width == want.width,
                height == want.height,
                want == scaled(input@, value@),
                out@.agrees_before(want, x as int, y as int),
            decreases width - x,
        {
            let p = pixel_scale(input.get_pixel(x, y), value);
            let ghost before = out@;
            out.put_pixel(x, y, p);
            proof {
                lemma_agreement_grows(before, out@, want, x as int, y as int);
            }
            x = x + 1;
        }
        y = y + 1;
    }
    proof {
        lemma_agreement_complete(out@, want);
    }
    out
}

/// A blend that keeps all of the first image and mixes in none of the second
/// is the first image.
pub proof fn lemma_blend_keeps_first(a: Raster, b: Raster)
    requires
        a.well_formed(),
    ensures
        blend_of(a, b, identity_products(), zero_products()) == a,
{
    let out = blend_of(a, b, identity_products(), zero_products());
    assert(out.pixels =~= a.pixels);
}

/// A blend that keeps none of the first image and mixes in all of the second
/// has the dimensions of the first and, at each position, the colour channels
/// of the second image with the alpha of the first.
pub proof fn lemma_blend_takes_second(a: Raster, b: Raster, x: int, y: int)
    requires
        a.contains(x, y),
    ensures
        same_dimensions(blend_of(a, b, zero_products(), identity_products()), a),
        blend_of(a, b, zero_products(), identity_products()).at(x, y) == (Rgba8 {
            r: b.at(x, y).r,
            g: b.at(x, y).g,
            b: b.at(x, y).b,
            a: a.at(x, y).a,
        }),
{
}

/// A blend at 0 is the first image.
pub proof fn lemma_blend_at_zero(a: Raster, b: Raster, den: int)
    requires
        a.well_formed(),
        den != 0,
    ensures
        blend_at(a, b, 0, den) == a,
{
    lemma_unit_ratios(den);
    lemma_blend_keeps_first(a, b);
}

/// A blend at 1 has, at each position, the colour channels of the second
/// image with the alpha of the first.
pub proof fn lemma_blend_at_one(a: Raster, b: Raster, den: int, x: int, y: int)
    requires
        a.contains(x, y),
        den != 0,
    ensures
        same_dimensions(blend_at(a, b, den, den), a),
        blend_at(a, b, den, den).at(x, y) == (Rgba8 {
            r: b.at(x, y).r,
            g: b.at(x, y).g,
            b: b.at(x, y).b,
            a: a.at(x, y).a,
        }),
{
    lemma_unit_ratios(den);
    lemma_blend_takes_second(a, b, x, y);
}

} // verus!
