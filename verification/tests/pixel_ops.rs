use raster_filters::pixel::{
    median, pixel_add, pixel_scale, pixel_shift, pixel_sub, safe_add, safe_mult, Rgba8,
};
use raster_filters::weight::Weight;

fn weight_of(factor: f32) -> Weight {
    let mut products = [0i32; 256];
    for c in 0..256usize {
        products[c] = ((c as f32) * factor) as i32;
    }
    Weight::from_products(products)
}

fn px(r: u8, g: u8, b: u8, a: u8) -> Rgba8 {
    Rgba8 { r, g, b, a }
}

#[test]
fn safe_add_saturates_at_both_ends() {
    assert_eq!(safe_add(250, 20), 255);
    assert_eq!(safe_add(5, -20), 0);
}

#[test]
fn safe_add_is_exact_inside_the_range() {
    assert_eq!(safe_add(100, 50), 150);
    assert_eq!(safe_add(100, -50), 50);
    assert_eq!(safe_add(0, 0), 0);
    assert_eq!(safe_add(0, 255), 255);
    assert_eq!(safe_add(255, -255), 0);
}

#[test]
fn safe_add_takes_the_widest_deltas() {
    assert_eq!(safe_add(255, i32::MAX), 255);
    assert_eq!(safe_add(0, i32::MIN), 0);
    assert_eq!(safe_add(255, i32::MIN), 0);
    assert_eq!(safe_add(0, i32::MAX), 255);
}

#[test]
fn safe_mult_saturates_at_both_ends() {
    assert_eq!(safe_mult(100, &weight_of(3.0)), 255);
    assert_eq!(safe_mult(10, &weight_of(-1.0)), 0);
}

#[test]
fn safe_mult_rounds_toward_zero() {
    assert_eq!(safe_mult(100, &weight_of(0.5)), 50);
    assert_eq!(safe_mult(7, &weight_of(0.5)), 3);
    assert_eq!(safe_mult(255, &weight_of(1.0)), 255);
    assert_eq!(safe_mult(255, &weight_of(0.0)), 0);
    assert_eq!(safe_mult(3, &weight_of(0.3)), 0);
}

#[test]
fn safe_mult_of_unbounded_factors() {
    assert_eq!(safe_mult(1, &weight_of(f32::INFINITY)), 255);
    assert_eq!(safe_mult(1, &weight_of(f32::NEG_INFINITY)), 0);
    assert_eq!(safe_mult(1, &weight_of(f32::NAN)), 0);
}

#[test]
fn pixel_add_keeps_first_alpha() {
    let p = pixel_add(px(10, 200, 255, 7), px(20, 100, 1, 99));
    assert_eq!(p, px(30, 255, 255, 7));
}

#[test]
fn pixel_sub_keeps_first_alpha() {
    let p = pixel_sub(px(10, 200, 0, 7), px(20, 100, 1, 99));
    assert_eq!(p, px(0, 100, 0, 7));
}

#[test]
fn pixel_shift_moves_colour_only() {
    assert_eq!(pixel_shift(px(10, 200, 250, 42), 50), px(60, 250, 255, 42));
    assert_eq!(pixel_shift(px(10, 200, 250, 42), -50), px(0, 150, 200, 42));
}

#[test]
fn pixel_scale_multiplies_colour_only() {
    assert_eq!(pixel_scale(px(10, 100, 200, 42), &weight_of(2.0)), px(20, 200, 255, 42));
    assert_eq!(pixel_scale(px(10, 100, 200, 42), &weight_of(-2.0)), px(0, 0, 0, 42));
}

#[test]
fn median_takes_the_middle_index() {
    assert_eq!(median(&vec![1, 2, 3]), 2);
    assert_eq!(median(&vec![1, 2, 3, 4]), 3);
    assert_eq!(median(&vec![9]), 9);
    assert_eq!(median(&vec![4, 8]), 8);
}

#[test]
fn ratio_agrees_with_single_precision_products() {
    let cases: [(i64, i64, f32); 12] = [
        (1, 16, 1. / 16.),
        (2, 16, 2. / 16.),
        (4, 16, 4. / 16.),
        (1, 256, 1. / 256.),
        (6, 256, 6. / 256.),
        (24, 256, 24. / 256.),
        (36, 256, 36. / 256.),
        (1, 1, 1.),
        (-1, 1, -1.),
        (2, 1, 2.),
        (10, 1, 10.),
        (1, 2, 0.5),
    ];
    for (num, den, factor) in cases {
        let exact = Weight::ratio(num, den).unwrap();
        let float = weight_of(factor);
        for c in 0..=255u8 {
            assert_eq!(exact.product(c), float.product(c));
        }
    }
}

#[test]
fn ratio_rounds_toward_zero() {
    let w = Weight::ratio(-7, 2).unwrap();
    assert_eq!(w.product(0), 0);
    assert_eq!(w.product(1), -3);
    assert_eq!(w.product(3), -10);
    let w = Weight::ratio(7, -2).unwrap();
    assert_eq!(w.product(3), -10);
    let w = Weight::ratio(-7, -2).unwrap();
    assert_eq!(w.product(3), 10);
    let w = Weight::ratio(1, 3).unwrap();
    assert_eq!(w.product(2), 0);
    assert_eq!(w.product(255), 85);
}

#[test]
fn ratio_saturates_and_refuses_zero() {
    assert!(Weight::ratio(1, 0).is_none());
    assert!(Weight::ratio(0, 0).is_none());
    let w = Weight::ratio(i32::MAX as i64, 1).unwrap();
    assert_eq!(w.product(0), 0);
    assert_eq!(w.product(1), i32::MAX);
    assert_eq!(w.product(255), i32::MAX);
    let w = Weight::ratio(i32::MIN as i64, 1).unwrap();
    assert_eq!(w.product(1), i32::MIN);
    assert_eq!(w.product(255), i32::MIN);
    let w = Weight::ratio(i32::MIN as i64, -1).unwrap();
    assert_eq!(w.product(1), i32::MAX);
    let w = Weight::ratio(i32::MIN as i64 + 1, 1).unwrap();
    assert_eq!(w.product(1), i32::MIN + 1);
    assert_eq!(w.product(2), i32::MIN);
    let w = Weight::ratio(i64::MIN, i64::MIN).unwrap();
    assert_eq!(w.product(200), 200);
    let w = Weight::ratio(i64::MAX, i64::MIN).unwrap();
    assert_eq!(w.product(200), -199);
    let w = Weight::ratio(i64::MIN, 1).unwrap();
    assert_eq!(w.product(0), 0);
    assert_eq!(w.product(1), i32::MIN);
    let w = Weight::ratio(i64::MAX, 1).unwrap();
    assert_eq!(w.product(255), i32::MAX);
    let w = Weight::ratio(i64::MAX, i64::MAX).unwrap();
    assert_eq!(w.product(255), 255);
}

#[test]
fn from_products_keeps_the_table() {
    let mut products = [0i32; 256];
    for c in 0..256usize {
        products[c] = 1000 - (c as i32) * 3;
    }
    let w = Weight::from_products(products);
    assert_eq!(w.product(0), 1000);
    assert_eq!(w.product(1), 997);
    assert_eq!(w.product(255), 235);
}
