use raster_filters::filters::{edge_detect, sharpen};
use raster_filters::image_ops::{adjust_contrast, image_add, image_sub};
use raster_filters::filters::bilinear_filter;
use raster_filters::pixel::Rgba8;
use raster_filters::raster::Image;
use raster_filters::weight::Weight;

fn weight_of(factor: f32) -> Weight {
    let mut products = [0i32; 256];
    for c in 0..256usize {
        products[c] = ((c as f32) * factor) as i32;
    }
    Weight::from_products(products)
}

fn px(r: u8, g: u8, b: u8, a: u8) -> Rgba8 {
    Rgba8 { r, g, b, a }
}

fn grey(v: u8, a: u8) -> Rgba8 {
    px(v, v, v, a)
}

fn image_of(width: u32, height: u32, pixels: &[Rgba8]) -> Image {
    let mut data = Vec::new();
    for p in pixels {
        data.extend_from_slice(&[p.r, p.g, p.b, p.a]);
    }
    Image::from_raw(width, height, data).unwrap()
}

fn pixels_of(img: &Image) -> Vec<Rgba8> {
    let (width, height) = img.dimensions();
    let mut out = Vec::new();
    for y in 0..height {
        for x in 0..width {
            out.push(img.get_pixel(x, y));
        }
    }
    out
}

fn noise(width: u32, height: u32, seed: u32) -> Image {
    let mut state = seed;
    let mut data = Vec::new();
    for _ in 0..(width * height * 4) {
        state = state.wrapping_mul(1664525).wrapping_add(1013904223);
        data.push((state >> 24) as u8);
    }
    Image::from_raw(width, height, data).unwrap()
}

#[test]
fn sharpen_adds_the_amplified_detail() {
    let flat = image_of(2, 2, &[grey(10, 9), grey(10, 8), grey(10, 7), grey(10, 6)]);
    let out = sharpen(&flat, &weight_of(10.0));
    assert_eq!(out.dimensions(), (2, 2));
    assert_eq!(pixels_of(&out), vec![grey(50, 9), grey(50, 8), grey(50, 7), grey(50, 6)]);
}

#[test]
fn sharpen_of_an_image_the_blur_keeps() {
    let flat = image_of(2, 1, &[grey(16, 1), grey(16, 2)]);
    assert_eq!(pixels_of(&sharpen(&flat, &weight_of(10.0))), vec![grey(16, 1), grey(16, 2)]);
}

#[test]
fn sharpen_by_nothing_returns_the_image() {
    let img = noise(4, 3, 21);
    assert_eq!(pixels_of(&sharpen(&img, &weight_of(0.0))), pixels_of(&img));
}

#[test]
fn sharpen_is_blur_subtract_scale_add() {
    let img = noise(5, 5, 22);
    let amount = weight_of(2.5);
    let blurred = bilinear_filter(&img);
    let detail = adjust_contrast(&image_sub(&img, &blurred).unwrap(), &amount);
    let want = image_add(&img, &detail).unwrap();
    assert_eq!(pixels_of(&sharpen(&img, &amount)), pixels_of(&want));
}

#[test]
fn edges_of_a_flat_image_are_black() {
    let flat = image_of(2, 2, &[grey(10, 9), grey(10, 8), grey(10, 7), grey(10, 6)]);
    let out = edge_detect(&flat);
    assert_eq!(out.dimensions(), (2, 2));
    assert_eq!(pixels_of(&out), vec![grey(0, 255); 4]);
}

#[test]
fn edges_of_a_step() {
    let step = image_of(4, 1, &[grey(0, 255), grey(0, 255), grey(100, 255), grey(100, 255)]);
    let out = edge_detect(&step);
    assert_eq!(
        pixels_of(&out),
        vec![grey(0, 255), grey(220, 255), grey(0, 255), grey(0, 255)]
    );
}

#[test]
fn edges_add_both_gradients() {
    let img = image_of(2, 2, &[grey(100, 0), grey(0, 0), grey(0, 0), grey(0, 0)]);
    let sharp = sharpen(&adjust_contrast(&img, &weight_of(2.0)), &weight_of(10.0));
    let gx = raster_filters::filters::x_grad(&sharp);
    let gy = raster_filters::filters::y_grad(&sharp);
    let want = image_add(&gx, &gy).unwrap();
    assert_eq!(pixels_of(&edge_detect(&img)), pixels_of(&want));
}

#[test]
fn filters_keep_dimensions() {
    for (width, height) in [(1u32, 1u32), (1, 4), (5, 1), (3, 2), (0, 0), (0, 2), (2, 0)] {
        let img = Image::from_raw(width, height, vec![7; (width * height * 4) as usize]).unwrap();
        assert_eq!(sharpen(&img, &weight_of(10.0)).dimensions(), (width, height));
        assert_eq!(edge_detect(&img).dimensions(), (width, height));
    }
}
