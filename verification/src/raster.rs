//! Images: the buffer that holds one, and what it is to a contract.

use vstd::prelude::*;
use crate::pixel::Rgba8;

verus! {

/// An RGBA image with eight bits per channel, held in an
/// `image::ImageBuffer`. The buffer is reached only through the functions of
/// this module.
#[verifier::external_body]
pub struct Image {
    buffer: image::RgbaImage,
}

/// The dimensions the buffer of `img` reports: width, then height.
pub uninterp spec fn image_dimensions(img: Image) -> (u32, u32);

/// The pixels the buffer of `img` holds, by column `x` and row `y`.
pub uninterp spec fn image_pixels(img: Image) -> Map<(int, int), Rgba8>;

/// What an image is to a contract: its dimensions and its pixels, the pixel
/// in column `x` of row `y` under the key `(x, y)`.
pub struct Raster {
    pub width: nat,
    pub height: nat,
    pub pixels: Map<(int, int), Rgba8>,
}

impl Raster {
    /// Whether `(x, y)` names a pixel of the image.
    pub open spec fn contains(self, x: int, y: int) -> bool {
        0 <= x < self.width && 0 <= y < self.height
    }

    /// The pixel in column `x` of row `y`.
    pub open spec fn at(self, x: int, y: int) -> Rgba8 {
        self.pixels[(x, y)]
    }

    /// The pixel nearest to `(x, y)`: each coordinate is brought into the
    /// image on its own, so a position beyond an edge reads the edge.
    pub open spec fn sample(self, x: int, y: int) -> Rgba8 {
        self.at(clamp_coordinate(x, self.width as int), clamp_coordinate(y, self.height as int))
    }

    /// Whether the image holds a pixel for each of its positions and for
    /// nothing else.
    pub open spec fn well_formed(self) -> bool {
        forall|p: (int, int)| self.pixels.dom().contains(p) <==> self.contains(p.0, p.1)
    }

    /// Whether `self` has the dimensions of `want` and agrees with it on
    /// every pixel that comes before `(x, y)` when the image is read row by
    /// row.
    pub open spec fn agrees_before(self, want: Raster, x: int, y: int) -> bool {
        &&& self.width == want.width
        &&& self.height == want.height
        &&& forall|px: int, py: int|
            want.contains(px, py) && (py < y || (py == y && px < x)) ==> #[trigger] self.at(px, py)
                == want.at(px, py)
    }

    /// The image of the same dimensions whose pixel at `(x, y)` is `f(x, y)`.
    pub open spec fn remap(self, f: spec_fn(int, int) -> Rgba8) -> Raster {
        Raster {
            width: self.width,
            height: self.height,
            pixels: Map::new(|p: (int, int)| self.contains(p.0, p.1), |p: (int, int)| f(p.0, p.1)),
        }
    }
}

/// `v` brought into `[0, n - 1]`.
pub open spec fn clamp_coordinate(v: int, n: int) -> int {
    if v < 0 {
        0
    } else if v >= n {
        n - 1
    } else {
        v
    }
}

/// The pixel that four consecutive samples of `data` spell, from `start` on.
pub open spec fn rgba_at(data: Seq<u8>, start: int) -> Rgba8 {
    Rgba8 { r: data[start], g: data[start + 1], b: data[start + 2], a: data[start + 3] }
}

impl View for Image {
    type V = Raster;

    open spec fn view(&self) -> Raster {
        Raster {
            width: image_dimensions(*self).0 as nat,
            height: image_dimensions(*self).1 as nat,
            pixels: Map::new(
                |p: (int, int)|
                    0 <= p.0 < image_dimensions(*self).0 && 0 <= p.1 < image_dimensions(*self).1,
                |p: (int, int)| image_pixels(*self)[p],
            ),
        }
    }
}

/// `ImageBuffer::from_raw`: a buffer over `data` when `data` holds at least
/// four samples for each of the `width * height` pixels, else nothing. The
/// pixel at `(x, y)` is spelled by the four samples from `4 * (y * width + x)`
/// on.
#[verifier::external_body]
fn buffer_from_raw(width: u32, height: u32, data: Vec<u8>) -> (r: Option<Image>)
    ensures
        r.is_some() <==> 4 * width * height <= data.len(),
        r matches Some(img) ==> image_dimensions(img) == (width, height)
            && forall|x: int, y: int|
            0 <= x < width && 0 <= y < height ==> #[trigger] image_pixels(img)[(x, y)] == rgba_at(
                data@,
                4 * (y * width + x),
            ),
{
    match image::RgbaImage::from_raw(width, height, data) {
        Some(buffer) => Some(Image { buffer }),
        None => None,
    }
}

/// `ImageBuffer::into_raw`: the samples of the buffer, at least four for each
/// pixel, the pixel at `(x, y)` from `4 * (y * width + x)` on.
#[verifier::external_body]
fn buffer_into_raw(img: Image) -> (data: Vec<u8>)
    ensures
        4 * image_dimensions(img).0 * image_dimensions(img).1 <= data.len(),
        forall|x: int, y: int|
            0 <= x < image_dimensions(img).0 && 0 <= y < image_dimensions(img).1 ==> rgba_at(
                data@,
                4 * (y * image_dimensions(img).0 + x),
            ) == #[trigger] image_pixels(img)[(x, y)],
{
    img.buffer.into_raw()
}

/// `ImageBuffer::dimensions`: width, then height.
#[verifier::external_body]
fn buffer_dimensions(img: &Image) -> (d: (u32, u32))
    ensures
        d == image_dimensions(*img),
{
    img.buffer.dimensions()
}

/// `ImageBuffer::get_pixel`: the pixel at `(x, y)`. It panics outside the
/// image, so the position must lie inside.
#[verifier::external_body]
fn buffer_get_pixel(img: &Image, x: u32, y: u32) -> (p: Rgba8)
    requires
        x < image_dimensions(*img).0,
        y < image_dimensions(*img).1,
    ensures
        p == image_pixels(*img)[(x as int, y as int)],
{
    let px = img.buffer.get_pixel(x, y);
    Rgba8 { r: px.0[0], g: px.0[1], b: px.0[2], a: px.0[3] }
}

/// `ImageBuffer::put_pixel`: the pixel at `(x, y)` becomes `p`, every other
/// pixel and the dimensions stay. It panics outside the image, so the
/// position must lie inside.
#[verifier::external_body]
fn buffer_put_pixel(img: &mut Image, x: u32, y: u32, p: Rgba8)
    requires
        x < image_dimensions(*old(img)).0,
        y < image_dimensions(*old(img)).1,
    ensures
        image_dimensions(*final(img)) == image_dimensions(*old(img)),
        image_pixels(*final(img)) == image_pixels(*old(img)).insert((x as int, y as int), p),
{
    img.buffer.put_pixel(x, y, image::Rgba([p.r, p.g, p.b, p.a]));
}

/// `Clone::clone` of `ImageBuffer`: a second buffer with the same
/// dimensions and pixels.
#[verifier::external_body]
fn buffer_clone(img: &Image) -> (copy: Image)
    ensures
        image_dimensions(copy) == image_dimensions(*img),
        image_pixels(copy) == image_pixels(*img),
{
    Image { buffer: img.buffer.clone() }
}

impl Image {
    /// The image of `width` by `height` pixels over `data`, which holds the
    /// pixels row by row, four samples each: red, green, blue, alpha. There
    /// is none when `data` is too short for that many pixels.
    pub fn from_raw(width: u32, height: u32, data: Vec<u8>) -> (r: Option<Image>)
        ensures
            r.is_some() <==> 4 * width * height <= data.len(),
            r matches Some(img) ==> img@.width == width && img@.height == height
                && forall|x: int, y: int|
                0 <= x < width && 0 <= y < height ==> #[trigger] img@.at(x, y) == rgba_at(
                    data@,
                    4 * (y * width + x),
                ),
    {
        buffer_from_raw(width, height, data)
    }

    /// The samples of the image, row by row, four for each pixel.
    pub fn into_raw(self) -> (data: Vec<u8>)
        ensures
            4 * self@.width * self@.height <= data.len(),
            forall|x: int, y: int|
                self@.contains(x, y) ==> rgba_at(data@, 4 * (y * self@.width + x))
                    == #[trigger] self@.at(x, y),
    {
        buffer_into_raw(self)
    }

    /// An image holds a pixel at each of its positions and nowhere else.
    pub proof fn lemma_well_formed(self)
        ensures
            self@.well_formed(),
    {
    }

    /// Width, then height.
    pub fn dimensions(&self) -> (d: (u32, u32))
        ensures
            d.0 == self@.width,
            d.1 == self@.height,
    {
        buffer_dimensions(self)
    }

    /// The pixel in column `x` of row `y`.
    pub fn get_pixel(&self, x: u32, y: u32) -> (p: Rgba8)
        requires
            self@.contains(x as int, y as int),
        ensures
            p == self@.at(x as int, y as int),
    {
        buffer_get_pixel(self, x, y)
    }

    /// Replaces the pixel in column `x` of row `y` by `p`.
    pub(crate) fn put_pixel(&mut self, x: u32, y: u32, p: Rgba8)
        requires
            old(self)@.contains(x as int, y as int),
        ensures
            final(self)@.width == old(self)@.width,
            final(self)@.height == old(self)@.height,
            final(self)@.pixels == old(self)@.pixels.insert((x as int, y as int), p),
    {
        buffer_put_pixel(self, x, y, p);
    }

    /// A second image with the same dimensions and pixels.
    pub fn duplicate(&self) -> (copy: Image)
        ensures
            copy@ == self@,
    {
        let copy = buffer_clone(self);
        copy
    }
}

/// Writing the wanted pixel at `(x, y)` extends the agreement by one pixel.
pub proof fn lemma_agreement_grows(before: Raster, after: Raster, want: Raster, x: int, y: int)
    requires
        before.agrees_before(want, x, y),
        want.contains(x, y),
        after.width == before.width,
        after.height == before.height,
        after.pixels == before.pixels.insert((x, y), want.at(x, y)),
    ensures
        after.agrees_before(want, x + 1, y),
{
    assert forall|px: int, py: int|
        want.contains(px, py) && (py < y || (py == y && px < x + 1)) implies #[trigger] after.at(
        px,
        py,
    ) == want.at(px, py) by {
        if px == x && py == y {
        } else {
            assert(before.at(px, py) == want.at(px, py));
        }
    }
}

/// Two well-formed images that agree on every pixel are one image.
pub proof fn lemma_agreement_complete(out: Raster, want: Raster)
    requires
        out.well_formed(),
        want.well_formed(),
        out.agrees_before(want, 0, want.height as int),
    ensures
        out == want,
{
    assert forall|p: (int, int)| out.pixels.dom().contains(p) implies out.pixels[p]
        == want.pixels[p] by {
        assert(out.at(p.0, p.1) == want.at(p.0, p.1));
    }
    assert(out.pixels =~= want.pixels);
}

} // verus!
