//! Pixels and saturating arithmetic on their channels.

use vstd::prelude::*;
use crate::weight::{product_of, Weight};

verus! {

/// One pixel: red, green, blue and alpha, eight bits each.
#[derive(Clone, Copy, Debug, PartialEq, Eq, Structural)]
pub struct Rgba8 {
    pub r: u8,
    pub g: u8,
    pub b: u8,
    pub a: u8,
}

/// A colour channel of a pixel: 0 is red, 1 is green, anything else is blue.
pub open spec fn channel(p: Rgba8, ch: int) -> u8 {
    if ch == 0 {
        p.r
    } else if ch == 1 {
        p.g
    } else {
        p.b
    }
}

/// The channel value nearest to `v`: `v` itself inside `[0, 255]`, else the
/// bound it crossed.
pub open spec fn clamp_channel(v: int) -> u8 {
    if v < 0 {
        0u8
    } else if v > 255 {
        255u8
    } else {
        v as u8
    }
}

/// Channel-wise saturating sum; alpha is the first operand's.
pub open spec fn pixel_add_spec(p: Rgba8, q: Rgba8) -> Rgba8 {
    Rgba8 {
        r: clamp_channel(p.r + q.r),
        g: clamp_channel(p.g + q.g),
        b: clamp_channel(p.b + q.b),
        a: p.a,
    }
}

/// Channel-wise saturating difference; alpha is the first operand's.
pub open spec fn pixel_sub_spec(p: Rgba8, q: Rgba8) -> Rgba8 {
    Rgba8 {
        r: clamp_channel(p.r - q.r),
        g: clamp_channel(p.g - q.g),
        b: clamp_channel(p.b - q.b),
        a: p.a,
    }
}

/// Each colour channel moved by `delta` and saturated; alpha kept.
pub open spec fn pixel_shift_spec(p: Rgba8, delta: int) -> Rgba8 {
    Rgba8 {
        r: clamp_channel(p.r + delta),
        g: clamp_channel(p.g + delta),
        b: clamp_channel(p.b + delta),
        a: p.a,
    }
}

/// Each colour channel replaced by its saturated product in the table `w`;
/// alpha kept.
pub open spec fn pixel_scale_spec(p: Rgba8, w: Seq<i32>) -> Rgba8 {
    Rgba8 {
        r: clamp_channel(product_of(w, p.r)),
        g: clamp_channel(product_of(w, p.g)),
        b: clamp_channel(product_of(w, p.b)),
        a: p.a,
    }
}

/// Adds `b` to `a` in the integers and saturates the sum to a channel value.
pub fn safe_add(a: u8, b: i32) -> (r: u8)
    ensures
        r == clamp_channel(a + b),
{
    let c: i64 = a as i64 + b as i64;
    if c < 0 {
        0
    } else if c > 255 {
        255
    } else {
        c as u8
    }
}

/// Multiplies `a` by `b` and saturates the product to a channel value.
pub fn safe_mult(a: u8, b: &Weight) -> (r: u8)
    ensures
        r == clamp_channel(product_of(b@, a)),
{
    let c: i32 = b.product(a);
    if c < 0 {
        0
    } else if c > 255 {
        255
    } else {
        c as u8
    }
}

/// Saturating sum of two pixels, channel by channel; alpha from `pixel_1`.
pub fn pixel_add(pixel_1: Rgba8, pixel_2: Rgba8) -> (r: Rgba8)
    ensures
        r == pixel_add_spec(pixel_1, pixel_2),
{
    Rgba8 {
        r: safe_add(pixel_1.r, pixel_2.r as i32),
        g: safe_add(pixel_1.g, pixel_2.g as i32),
        b: safe_add(pixel_1.b, pixel_2.b as i32),
        a: pixel_1.a,
    }
}

/// Saturating difference of two pixels, channel by channel; alpha from
/// `pixel_1`.
pub fn pixel_sub(pixel_1: Rgba8, pixel_2: Rgba8) -> (r: Rgba8)
    ensures
        r == pixel_sub_spec(pixel_1, pixel_2),
{
    Rgba8 {
        r: safe_add(pixel_1.r, -(pixel_2.r as i32)),
        g: safe_add(pixel_1.g, -(pixel_2.g as i32)),
        b: safe_add(pixel_1.b, -(pixel_2.b as i32)),
        a: pixel_1.a,
    }
}

/// Moves the three colour channels by `value`, saturating; alpha is kept.
pub fn pixel_shift(pixel: Rgba8, value: i32) -> (r: Rgba8)
    ensures
        r == pixel_shift_spec(pixel, value as int),
{
    Rgba8 {
        r: safe_add(pixel.r, value),
        g: safe_add(pixel.g, value),
        b: safe_add(pixel.b, value),
        a: pixel.a,
    }
}

/// Multiplies the three colour channels by `value`, saturating; alpha is
/// kept.
pub fn pixel_scale(pixel: Rgba8, value: &Weight) -> (r: Rgba8)
    ensures
        r == pixel_scale_spec(pixel, value@),
{
    Rgba8 {
        r: safe_mult(pixel.r, value),
        g: safe_mult(pixel.g, value),
        b: safe_mult(pixel.b, value),
        a: pixel.a,
    }
}

/// The element in the middle of `numbers`: the one at index `len / 2`. On a
/// sorted list that is its median.
pub fn median(numbers: &Vec<u8>) -> (r: u8)
    requires
        numbers.len() > 0,
    ensures
        r == numbers[numbers.len() as int / 2],
{
    let mid: usize = numbers.len() / 2;
    numbers[mid]
}

/// Every channel of every pixel lies in `[0, 255]`.
pub proof fn lemma_channels_in_range(p: Rgba8)
    ensures
        0 <= p.r <= 255,
        0 <= p.g <= 255,
        0 <= p.b <= 255,
        0 <= p.a <= 255,
{
}

} // verus!
