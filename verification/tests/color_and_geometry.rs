use round_display::color::rgb565_const;
use round_display::geometry::{ellipse_test, iabs, in_ellipse, in_rect};

#[test]
fn encodes_primaries_with_swapped_bytes() {
    assert_eq!(rgb565_const(0xFF, 0x00, 0x00), 0x00F8);
    assert_eq!(rgb565_const(0x00, 0xFF, 0x00), 0xE007);
    assert_eq!(rgb565_const(0x00, 0x00, 0xFF), 0x1F00);
    assert_eq!(rgb565_const(0xFF, 0xFF, 0xFF), 0xFFFF);
    assert_eq!(rgb565_const(0x00, 0x00, 0x00), 0x0000);
}

#[test]
fn encodes_the_palettes() {
    assert_eq!(rgb565_const(0x00, 0xFF, 0x41), 0xE807);
    assert_eq!(rgb565_const(0x00, 0x60, 0x20), 0x0403);
    assert_eq!(rgb565_const(0x1A, 0x1A, 0x1A), 0xC318);
    assert_eq!(rgb565_const(0x2E, 0x2E, 0x2E), 0x6529);
    assert_eq!(rgb565_const(0x48, 0x48, 0x48), 0x494A);
    assert_eq!(rgb565_const(0xC8, 0x84, 0x5A), 0x2BCC);
    assert_eq!(rgb565_const(0x0C, 0x0C, 0x0C), 0x6108);
    assert_eq!(rgb565_const(0xFF, 0xFF, 0x00), 0xE0FF);
}

#[test]
fn encoding_drops_the_low_bits() {
    assert_eq!(rgb565_const(0x07, 0x03, 0x07), 0x0000);
    assert_eq!(rgb565_const(0x08, 0x00, 0x00), 0x0008);
    assert_eq!(rgb565_const(0x00, 0x04, 0x00), 0x2000);
    assert_eq!(rgb565_const(0x00, 0x00, 0x08), 0x0100);
}

#[test]
fn rectangle_includes_both_ends() {
    assert!(in_rect(14, 9, 14, 9, 18, 10));
    assert!(in_rect(18, 10, 14, 9, 18, 10));
    assert!(!in_rect(13, 9, 14, 9, 18, 10));
    assert!(!in_rect(19, 10, 14, 9, 18, 10));
    assert!(!in_rect(14, 8, 14, 9, 18, 10));
    assert!(!in_rect(14, 11, 14, 9, 18, 10));
    assert!(!in_rect(0, 0, 5, 5, 4, 4));
}

#[test]
fn ellipse_follows_the_implicit_equation() {
    // A disc of radius 6 about (16, 6).
    assert!(in_ellipse(16, 6, 16, 6, 6, 6));
    assert!(in_ellipse(22, 6, 16, 6, 6, 6));
    assert!(in_ellipse(16, 0, 16, 6, 6, 6));
    assert!(!in_ellipse(23, 6, 16, 6, 6, 6));
    assert!(in_ellipse(20, 10, 16, 6, 6, 6));
    assert!(!in_ellipse(21, 10, 16, 6, 6, 6));
    // 5 by 6: (4, 3) gives 16 * 36 + 9 * 25 = 801 <= 900, (4, 4) gives 976.
    assert!(in_ellipse(25, 32, 21, 29, 5, 6));
    assert!(!in_ellipse(25, 33, 21, 29, 5, 6));
}

#[test]
fn ellipse_is_decided_at_the_ends_of_the_range() {
    assert!(!in_ellipse(i32::MAX, i32::MIN, i32::MIN, i32::MAX, i32::MAX, i32::MAX));
    assert!(in_ellipse(i32::MAX, i32::MAX, i32::MAX, i32::MAX, i32::MIN, i32::MIN));
    assert!(in_ellipse(0, 0, i32::MAX, 0, i32::MIN, 1));
    assert!(!ellipse_test(i64::MAX, i64::MIN, 7, 7));
    assert!(!ellipse_test(i64::MIN, 0, i32::MIN, i32::MIN));
}

#[test]
fn ellipse_without_extent() {
    // Both semi-axes zero: the equation reads 0 <= 0.
    assert!(in_ellipse(9, 9, 0, 0, 0, 0));
    // One semi-axis zero: only the other coordinate is bound.
    assert!(in_ellipse(100, 5, 0, 5, 3, 0));
    assert!(!in_ellipse(100, 6, 0, 5, 3, 0));
    assert!(in_ellipse(0, 50, 0, 5, 0, 3));
    assert!(!in_ellipse(1, 5, 0, 5, 0, 3));
    assert!(!in_ellipse(100, 5, 0, 5, 0, 3));
}

#[test]
fn absolute_value() {
    assert_eq!(iabs(-3), 3);
    assert_eq!(iabs(3), 3);
    assert_eq!(iabs(0), 0);
    assert_eq!(iabs(i32::MIN + 1), i32::MAX);
}
