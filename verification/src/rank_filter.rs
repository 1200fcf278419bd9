//! The median filter: a rank filter over a square window.

use vstd::prelude::*;
use vstd::arithmetic::div_mod::lemma_fundamental_div_mod_converse;
use vstd::relations::total_ordering;
use vstd::seq_lib::lemma_sorted_unique;
use crate::error::FilterError;
use crate::pixel::{channel, median, Rgba8};
use crate::raster::{
    clamp_coordinate, lemma_agreement_complete, lemma_agreement_grows, Image, Raster,
};

verus! {

/// The order of channel values.
pub open spec fn at_most() -> spec_fn(u8, u8) -> bool {
    |a: u8, b: u8| a <= b
}

/// `s` in ascending order.
pub open spec fn ascending(s: Seq<u8>) -> Seq<u8> {
    s.sort_by(at_most())
}

/// The median of `s`: the element at index `len / 2` once `s` is in
/// ascending order.
pub open spec fn median_of(s: Seq<u8>) -> u8 {
    ascending(s)[s.len() as int / 2]
}

/// Sample `k` of the square of half-width `window` around `(x, y)`. The
/// square has `2 * window + 1` positions a side; they are counted down each
/// column in turn, and each position is clamped into the image.
pub open spec fn window_sample(img: Raster, x: int, y: int, window: int, k: int, ch: int) -> u8 {
    let side = 2 * window + 1;
    channel(img.sample(x + k / side - window, y + k % side - window), ch)
}

/// The samples of one colour channel over the square of half-width `window`
/// around `(x, y)`, `(2 * window + 1)` squared of them.
pub open spec fn window_samples(img: Raster, x: int, y: int, window: int, ch: int) -> Seq<u8> {
    let side = 2 * window + 1;
    Seq::new((side * side) as nat, |k: int| window_sample(img, x, y, window, k, ch))
}

/// The median-filtered pixel at `(x, y)`: each colour channel is the median
/// of its samples over the window; alpha is that of the pixel itself.
pub open spec fn median_pixel(img: Raster, x: int, y: int, window: int) -> Rgba8 {
    Rgba8 {
        r: median_of(window_samples(img, x, y, window, 0)),
        g: median_of(window_samples(img, x, y, window, 1)),
        b: median_of(window_samples(img, x, y, window, 2)),
        a: img.at(x, y).a,
    }
}

/// `img` with every pixel replaced by the median over its window.
pub open spec fn median_filtered(img: Raster, window: int) -> Raster {
    img.remap(|x: int, y: int| median_pixel(img, x, y, window))
}

/// `<[u8]>::sort`: the same values, in ascending order.
#[verifier::external_body]
fn sort_values(values: &mut Vec<u8>)
    ensures
        final(values)@.to_multiset() == old(values)@.to_multiset(),
        forall|i: int, j: int|
            0 <= i < j < final(values)@.len() ==> final(values)@[i] <= final(values)@[j],
{
    values.sort();
}

/// `ascending(s)` holds the values of `s`, each as often as `s` holds it, and
/// none of them before a smaller one.
pub proof fn lemma_ascending_orders(s: Seq<u8>)
    ensures
        ascending(s).len() == s.len(),
        ascending(s).to_multiset() == s.to_multiset(),
        forall|i: int, j: int| 0 <= i < j < s.len() ==> ascending(s)[i] <= ascending(s)[j],
{
    lemma_at_most_is_total();
    s.lemma_sort_by_ensures(at_most());
    s.to_multiset_ensures();
    ascending(s).to_multiset_ensures();
    assert forall|i: int, j: int| 0 <= i < j < s.len() implies ascending(s)[i] <= ascending(
        s,
    )[j] by {
        assert(at_most()(ascending(s)[i], ascending(s)[j]));
    }
}

proof fn lemma_at_most_is_total()
    ensures
        total_ordering(at_most()),
{
    let leq = at_most();
    assert forall|a: u8, b: u8| #[trigger] leq(a, b) && #[trigger] leq(b, a) implies a == b by {}
    assert forall|a: u8, b: u8, c: u8| #[trigger] leq(a, b) && #[trigger] leq(b, c) implies leq(
        a,
        c,
    ) by {}
    assert forall|a: u8, b: u8| #[trigger] leq(a, b) || #[trigger] leq(b, a) by {}
    assert forall|a: u8| #[trigger] leq(a, a) by {}
}

/// The median of `values`, which must not be empty.
fn median_value(values: Vec<u8>) -> (m: u8)
    requires
        values.len() > 0,
    ensures
        m == median_of(values@),
{
    let mut values = values;
    let ghost given = values@;
    sort_values(&mut values);
    proof {
        lemma_at_most_is_total();
        given.lemma_sort_by_ensures(at_most());
        lemma_sorted_unique(values@, ascending(given), at_most());
        values@.to_multiset_ensures();
        given.to_multiset_ensures();
    }
    median(&values)
}

/// `v + d` brought into `[0, n - 1]`, for a position `v` inside.
fn clamped_offset(v: u32, d: i64, n: u32) -> (r: u32)
    requires
        v < n,
        -0x1_0000_0000 <= d <= 0x1_0000_0000,
    ensures
        r == clamp_coordinate(v + d, n as int),
        r < n,
{
    let t: i64 = v as i64 + d;
    if t < 0 {
        0
    } else if t >= n as i64 {
        n - 1
    } else {
        t as u32
    }
}

/// The samples of the three colour channels over the window around `(x, y)`.
fn gather(input: &Image, x: u32, y: u32, window: i32) -> (vals: (Vec<u8>, Vec<u8>, Vec<u8>))
    requires
        input@.contains(x as int, y as int),
        window >= 0,
    ensures
        vals.0@ == window_samples(input@, x as int, y as int, window as int, 0),
        vals.1@ == window_samples(input@, x as int, y as int, window as int, 1),
        vals.2@ == window_samples(input@, x as int, y as int, window as int, 2),
{
    let (width, height) = input.dimensions();
    let side: u64 = 2 * (window as u64) + 1;
    let mut r_vals: Vec<u8> = Vec::new();
    let mut g_vals: Vec<u8> = Vec::new();
    let mut b_vals: Vec<u8> = Vec::new();
    let mut i: u64 = 0;
    while i < side
        invariant
            i <= side,
            side == 2 * window + 1,
            window >= 0,
            width == input@.width,
            height == input@.height,
            x < width,
            y < height,
            r_vals@.len() == i * side,
            g_vals@.len() == i * side,
            b_vals@.len() == i * side,
            forall|k: int|
                0 <= k < r_vals@.len() ==> r_vals@[k] == window_sample(
                    input@,
                    x as int,
                    y as int,
                    window as int,
                    k,
                    0,
                ),
            forall|k: int|
                0 <= k < g_vals@.len() ==> g_vals@[k] == window_sample(
                    input@,
                    x as int,
                    y as int,
                    window as int,
                    k,
                    1,
                ),
            forall|k: int|
                0 <= k < b_vals@.len() ==> b_vals@[k] == window_sample(
                    input@,
                    x as int,
                    y as int,
                    window as int,
                    k,
                    2,
                ),
        decreases side - i,
    {
        let sx: u32 = clamped_offset(x, i as i64 - window as i64, width);
        let ghost base: int = i * side;
        let mut j: u64 = 0;
        while j < side
            invariant
                j <= side,
                i < side,
                side == 2 * window + 1,
                window >= 0,
                width == input@.width,
                height == input@.height,
                sx < width,
                sx == clamp_coordinate(x + i - window, width as int),
                y < height,
                base == i * side,
                r_vals@.len() == base + j,
                g_vals@.len() == base + j,
                b_vals@.len() == base + j,
                forall|k: int|
                0 <= k < r_vals@.len() ==> r_vals@[k] == window_sample(
                    input@,
                    x as int,
                    y as int,
                    window as int,
                    k,
                    0,
                ),
                forall|k: int|
                0 <= k < g_vals@.len() ==> g_vals@[k] == window_sample(
                    input@,
                    x as int,
                    y as int,
                    window as int,
                    k,
                    1,
                ),
                forall|k: int|
                0 <= k < b_vals@.len() ==> b_vals@[k] == window_sample(
                    input@,
                    x as int,
                    y as int,
                    window as int,
                    k,
                    2,
                ),
            decreases side - j,
        {
            let sy: u32 = clamped_offset(y, j as i64 - window as i64, height);
            let p = input.get_pixel(sx, sy);
            proof {
                lemma_fundamental_div_mod_converse(base + j, side as int, i as int, j as int);
            }
            r_vals.push(p.r);
            g_vals.push(p.g);
            b_vals.push(p.b);
            j = j + 1;
        }
        proof {
            assert((i + 1) * side == i * side + side) by (nonlinear_arith);
        }
        i = i + 1;
    }
    proof {
        assert(r_vals@ =~= window_samples(input@, x as int, y as int, window as int, 0));
        assert(g_vals@ =~= window_samples(input@, x as int, y as int, window as int, 1));
        assert(b_vals@ =~= window_samples(input@, x as int, y as int, window as int, 2));
    }
    (r_vals, g_vals, b_vals)
}

/// Replaces each colour channel of every pixel by the median of that channel
/// over the square of half-width `window` around the pixel, with positions
/// beyond an edge reading the edge. Alpha is kept. A negative `window` is
/// refused.
pub fn median_filter(input: &Image, window: i32) -> (r: Result<Image, FilterError>)
    ensures
        r.is_ok() <==> window >= 0,
        r matches Ok(out) ==> out@ == median_filtered(input@, window as int) && out@.width
            == input@.width && out@.height == input@.height,
        r matches Ok(out) ==> (window == 0 ==> out@ == input@),
        r matches Err(e) ==> e == FilterError::InvalidParameter,
{
    if window < 0 {
        return Err(FilterError::InvalidParameter);
    }
    proof {
        if window == 0 {
            lemma_median_zero_window_is_identity(input@);
        }
    }
    let (width, height) = input.dimensions();
    let ghost want = median_filtered(input@, window as int);
    let mut out = input.duplicate();
    let mut y: u32 = 0;
    while y < height
        invariant
            y <= height,
            window >= 0,
            width == want.width,
            height == want.height,
            width == input@.width,
            height == input@.height,
            want == median_filtered(input@, window as int),
            out@.agrees_before(want, 0, y as int),
        decreases height - y,
    {
        let mut x: u32 = 0;
        while x < width
            invariant
                x <= width,
                y < height,
                window >= 0,
                width == want.width,
                height == want.height,
                width == input@.width,
                height == input@.height,
                want == median_filtered(input@, window as int),
                out@.agrees_before(want, x as int, y as int),
            decreases width - x,
        {
            let (r_vals, g_vals, b_vals) = gather(input, x, y, window);
            proof {
                let side = 2 * window + 1;
                assert(side * side >= 1) by (nonlinear_arith)
                    requires
                        side >= 1,
                ;
            }
            let r_median = median_value(r_vals);
            let g_median = median_value(g_vals);
            let b_median = median_value(b_vals);
            let input_pixel = input.get_pixel(x, y);
            let p = Rgba8 { r: r_median, g: g_median, b: b_median, a: input_pixel.a };
            let ghost before = out@;
            out.put_pixel(x, y, p);
            proof {
                lemma_agreement_grows(before, out@, want, x as int, y as int);
            }
            x = x + 1;
        }
        y = y + 1;
    }
    proof {
        lemma_agreement_complete(out@, want);
    }
    Ok(out)
}

/// The median of a single value is that value.
pub proof fn lemma_median_of_one(s: Seq<u8>)
    requires
        s.len() == 1,
    ensures
        median_of(s) == s[0],
{
    lemma_at_most_is_total();
    s.lemma_sort_by_ensures(at_most());
    let t = ascending(s);
    s.to_multiset_ensures();
    t.to_multiset_ensures();
    assert(t.contains(t[0]));
}

/// With a window of half-width 0 the neighbourhood of a pixel is the pixel
/// itself, and the median filter returns the image unchanged.
pub proof fn lemma_median_zero_window_is_identity(img: Raster)
    requires
        img.well_formed(),
    ensures
        median_filtered(img, 0) == img,
{
    let out = median_filtered(img, 0);
    assert forall|p: (int, int)| out.pixels.dom().contains(p) implies out.pixels[p]
        == img.pixels[p] by {
        let x = p.0;
        let y = p.1;
        assert forall|ch: int| median_of(#[trigger] window_samples(img, x, y, 0, ch)) == channel(
            img.at(x, y),
            ch,
        ) by {
            let s = window_samples(img, x, y, 0, ch);
            let side: int = 2 * 0int + 1;
            assert(side * side == 1) by (nonlinear_arith)
                requires
                    side == 1,
            ;
            lemma_median_of_one(s);
        }
    }
    assert(out.pixels =~= img.pixels);
}

} // verus!
