use memetopia::fixed::{
    clamp_coordinate, clamp_to, div_toward_zero, integer_sqrt, pixels, COORD_MAX, SCALE_MAX, UNIT,
};

#[test]
fn one_pixel_is_a_million_units() {
    assert_eq!(UNIT, 1_000_000);
    assert_eq!(pixels(1), 1_000_000);
    assert_eq!(pixels(375), 375_000_000);
    assert_eq!(pixels(-50), -50_000_000);
    assert_eq!(pixels(0), 0);
}

#[test]
fn pixels_of_the_extreme_whole_numbers_are_in_range() {
    assert_eq!(pixels(i32::MAX), 2_147_483_647_000_000);
    assert_eq!(pixels(i32::MIN), -2_147_483_648_000_000);
    assert!(pixels(i32::MAX) <= COORD_MAX);
    assert!(pixels(i32::MIN) >= -COORD_MAX);
}

#[test]
fn limits_are_what_the_documentation_says() {
    assert_eq!(COORD_MAX, 4_294_967_296 * UNIT);
    assert_eq!(SCALE_MAX, 1_000 * UNIT);
}

#[test]
fn division_rounds_toward_zero() {
    assert_eq!(div_toward_zero(7, 2), 3);
    assert_eq!(div_toward_zero(-7, 2), -3);
    assert_eq!(div_toward_zero(6, 3), 2);
    assert_eq!(div_toward_zero(-6, 3), -2);
    assert_eq!(div_toward_zero(0, 5), 0);
    assert_eq!(div_toward_zero(1, 1_000_000), 0);
    assert_eq!(div_toward_zero(-1, 1_000_000), 0);
    assert_eq!(div_toward_zero(-999_999, 1_000_000), 0);
    assert_eq!(div_toward_zero(-1_000_000, 1_000_000), -1);
}

#[test]
fn clamp_holds_a_value_between_its_bounds() {
    assert_eq!(clamp_to(5, 0, 10), 5);
    assert_eq!(clamp_to(-5, 0, 10), 0);
    assert_eq!(clamp_to(15, 0, 10), 10);
    assert_eq!(clamp_to(0, 0, 10), 0);
    assert_eq!(clamp_to(10, 0, 10), 10);
    assert_eq!(clamp_to(i128::MAX, -3, 3), 3);
    assert_eq!(clamp_to(i128::MIN, -3, 3), -3);
    assert_eq!(clamp_to(7, 7, 7), 7);
}

#[test]
fn clamp_coordinate_keeps_what_is_in_range() {
    assert_eq!(clamp_coordinate(0), 0);
    assert_eq!(clamp_coordinate(123_456_789), 123_456_789);
    assert_eq!(clamp_coordinate(COORD_MAX), COORD_MAX);
    assert_eq!(clamp_coordinate(-COORD_MAX), -COORD_MAX);
    assert_eq!(clamp_coordinate(COORD_MAX + 1), COORD_MAX);
    assert_eq!(clamp_coordinate(-COORD_MAX - 1), -COORD_MAX);
    assert_eq!(clamp_coordinate(i64::MAX), COORD_MAX);
    assert_eq!(clamp_coordinate(i64::MIN), -COORD_MAX);
}

#[test]
fn integer_sqrt_of_squares_is_exact() {
    assert_eq!(integer_sqrt(0), 0);
    assert_eq!(integer_sqrt(1), 1);
    assert_eq!(integer_sqrt(4), 2);
    assert_eq!(integer_sqrt(25), 5);
    assert_eq!(integer_sqrt(1_000_000_000_000), 1_000_000);
    assert_eq!(integer_sqrt(25_000_000_000_000), 5_000_000);
}

#[test]
fn integer_sqrt_rounds_down() {
    assert_eq!(integer_sqrt(2), 1);
    assert_eq!(integer_sqrt(3), 1);
    assert_eq!(integer_sqrt(8), 2);
    assert_eq!(integer_sqrt(24), 4);
    assert_eq!(integer_sqrt(26), 5);
    assert_eq!(integer_sqrt(2_000_000_000_000), 1_414_213);
}

#[test]
fn integer_sqrt_of_the_largest_number() {
    assert_eq!(integer_sqrt(u128::MAX), 18_446_744_073_709_551_615);
    let r = integer_sqrt(u128::MAX - 1);
    assert_eq!(r, 18_446_744_073_709_551_615);
    assert!(r * r <= u128::MAX - 1);
}

#[test]
fn integer_sqrt_has_its_defining_property() {
    let samples: [u128; 8] = [
        5,
        99,
        100,
        101,
        65_535,
        4_294_967_296,
        123_456_789_012_345_678_901_234,
        340_282_366_920_938_463_463_374_607_431,
    ];
    for n in samples {
        let r = integer_sqrt(n);
        assert!(r * r <= n);
        assert!((r + 1) * (r + 1) > n);
    }
}
