use raster_filters::error::FilterError;
use raster_filters::pixel::Rgba8;
use raster_filters::rank_filter::median_filter;
use raster_filters::raster::Image;

fn px(r: u8, g: u8, b: u8, a: u8) -> Rgba8 {
    Rgba8 { r, g, b, a }
}

fn image_of(width: u32, height: u32, pixels: &[Rgba8]) -> Image {
    let mut data = Vec::new();
    for p in pixels {
        data.extend_from_slice(&[p.r, p.g, p.b, p.a]);
    }
    Image::from_raw(width, height, data).unwrap()
}

fn pixels_of(img: &Image) -> Vec<Rgba8> {
    let (width, height) = img.dimensions();
    let mut out = Vec::new();
    for y in 0..height {
        for x in 0..width {
            out.push(img.get_pixel(x, y));
        }
    }
    out
}

fn noise(width: u32, height: u32, seed: u32) -> Image {
    let mut state = seed;
    let mut data = Vec::new();
    for _ in 0..(width * height * 4) {
        state = state.wrapping_mul(1664525).wrapping_add(1013904223);
        data.push((state >> 24) as u8);
    }
    Image::from_raw(width, height, data).unwrap()
}

fn counting() -> Image {
    let pixels: Vec<Rgba8> =
        (1..=9u8).map(|v| px(v, 10 * (10 - v), if v % 2 == 0 { 0 } else { 200 }, 100 + v)).collect();
    image_of(3, 3, &pixels)
}

#[test]
fn window_zero_returns_the_image() {
    let img = noise(5, 4, 11);
    let out = median_filter(&img, 0).unwrap();
    assert_eq!(out.dimensions(), (5, 4));
    assert_eq!(pixels_of(&out), pixels_of(&img));
}

#[test]
fn negative_window_is_refused() {
    let img = noise(2, 2, 12);
    assert_eq!(median_filter(&img, -1).err(), Some(FilterError::InvalidParameter));
    assert_eq!(median_filter(&img, i32::MIN).err(), Some(FilterError::InvalidParameter));
}

#[test]
fn centre_of_three_by_three() {
    let out = median_filter(&counting(), 1).unwrap();
    assert_eq!(out.get_pixel(1, 1), px(5, 50, 200, 105));
}

#[test]
fn corner_counts_clamped_samples_again() {
    let out = median_filter(&counting(), 1).unwrap();
    assert_eq!(out.get_pixel(0, 0), px(2, 80, 200, 101));
    assert_eq!(out.get_pixel(2, 2), px(8, 20, 200, 109));
    assert_eq!(out.get_pixel(2, 0), px(3, 70, 200, 103));
    assert_eq!(out.get_pixel(1, 0), px(3, 70, 200, 102));
}

#[test]
fn alpha_is_the_centre_pixels() {
    let img = counting();
    let out = median_filter(&img, 2).unwrap();
    for y in 0..3 {
        for x in 0..3 {
            assert_eq!(out.get_pixel(x, y).a, img.get_pixel(x, y).a);
        }
    }
}

#[test]
fn a_spike_is_removed() {
    let mut pixels = vec![px(10, 10, 10, 255); 25];
    pixels[12] = px(250, 0, 250, 7);
    let out = median_filter(&image_of(5, 5, &pixels), 1).unwrap();
    let mut want = vec![px(10, 10, 10, 255); 25];
    want[12] = px(10, 10, 10, 7);
    assert_eq!(pixels_of(&out), want);
}

#[test]
fn a_window_wider_than_the_image() {
    let img = image_of(2, 1, &[px(1, 200, 3, 4), px(9, 100, 3, 8)]);
    let out = median_filter(&img, 3).unwrap();
    assert_eq!(pixels_of(&out), vec![px(1, 200, 3, 4), px(9, 100, 3, 8)]);
    let single = image_of(1, 1, &[px(1, 2, 3, 4)]);
    assert_eq!(pixels_of(&median_filter(&single, 4).unwrap()), vec![px(1, 2, 3, 4)]);
}

#[test]
fn median_filter_keeps_dimensions() {
    for (width, height) in [(1u32, 1u32), (1, 4), (5, 1), (3, 2), (0, 0), (0, 2), (2, 0)] {
        let img = Image::from_raw(width, height, vec![7; (width * height * 4) as usize]).unwrap();
        assert_eq!(median_filter(&img, 1).unwrap().dimensions(), (width, height));
    }
}
