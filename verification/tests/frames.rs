use round_display::matrix_frames::{
    figure_regions, idle_pixel, idle_regions, make_idle_frame, make_walk_frame, render_idle_frame,
    render_walk_frame, walk_pixel, walk_regions, BLACK, COAT_DK, COAT_HL, COAT_MID, GREEN_DIM, HAIR,
    MATRIX_GREEN, SKIN,
};
use round_display::sprites::{make_frame_a, make_frame_b, pixel_a, pixel_b, BG, RD, WH, YL};

#[test]
fn idle_figure_from_head_to_foot() {
    assert_eq!(idle_pixel(16, 1, true), HAIR);
    assert_eq!(idle_pixel(16, 4, true), HAIR);
    assert_eq!(idle_pixel(16, 5, true), SKIN);
    assert_eq!(idle_pixel(12, 5, true), MATRIX_GREEN);
    assert_eq!(idle_pixel(13, 5, true), MATRIX_GREEN);
    assert_eq!(idle_pixel(19, 5, true), MATRIX_GREEN);
    assert_eq!(idle_pixel(20, 5, true), MATRIX_GREEN);
    assert_eq!(idle_pixel(14, 5, true), SKIN);
    assert_eq!(idle_pixel(16, 9, true), SKIN);
    assert_eq!(idle_pixel(13, 9, true), SKIN);
    assert_eq!(idle_pixel(13, 10, true), SKIN);
    assert_eq!(idle_pixel(16, 12, true), SKIN);
    assert_eq!(idle_pixel(16, 13, true), COAT_HL);
    assert_eq!(idle_pixel(14, 12, true), COAT_MID);
    assert_eq!(idle_pixel(12, 13, true), COAT_DK);
    assert_eq!(idle_pixel(6, 11, true), COAT_DK);
    assert_eq!(idle_pixel(5, 11, true), BLACK);
    assert_eq!(idle_pixel(16, 15, true), COAT_HL);
    assert_eq!(idle_pixel(15, 15, true), COAT_MID);
    assert_eq!(idle_pixel(18, 15, true), COAT_MID);
    assert_eq!(idle_pixel(19, 15, true), COAT_DK);
    assert_eq!(idle_pixel(8, 20, true), COAT_DK);
    assert_eq!(idle_pixel(7, 20, true), BLACK);
    assert_eq!(idle_pixel(7, 22, true), BLACK);
    assert_eq!(idle_pixel(7, 23, true), COAT_DK);
    assert_eq!(idle_pixel(25, 25, true), COAT_DK);
    assert_eq!(idle_pixel(26, 25, true), BLACK);
    assert_eq!(idle_pixel(9, 26, true), COAT_DK);
    assert_eq!(idle_pixel(8, 26, true), BLACK);
    assert_eq!(idle_pixel(16, 29, true), COAT_DK);
    assert_eq!(idle_pixel(16, 30, true), BLACK);
    assert_eq!(idle_pixel(23, 31, true), COAT_DK);
}

#[test]
fn blink_dims_the_eyes_only() {
    let open = make_idle_frame(true);
    let shut = make_idle_frame(false);
    let mut differing = 0;
    for k in 0..1024 {
        if open[k] != shut[k] {
            differing += 1;
            assert_eq!(open[k], MATRIX_GREEN);
            assert_eq!(shut[k], GREEN_DIM);
            assert_eq!(k / 32, 5);
        }
    }
    assert_eq!(differing, 4);
    assert_eq!(idle_pixel(12, 5, false), GREEN_DIM);
}

#[test]
fn idle_background_is_black() {
    assert_eq!(idle_pixel(0, 0, true), BLACK);
    assert_eq!(idle_pixel(31, 31, false), BLACK);
    assert_eq!(idle_pixel(0, 16, true), BLACK);
    assert_eq!(idle_pixel(-5, 40, true), BLACK);
    assert_eq!(idle_pixel(i32::MIN, i32::MAX, true), BLACK);
    assert_eq!(walk_pixel(i32::MAX, 28, 0), BLACK);
    assert_eq!(walk_pixel(i32::MIN, 28, 2), BLACK);
}

#[test]
fn idle_frame_is_row_major() {
    let frame = make_idle_frame(true);
    assert_eq!(frame.len(), 1024);
    for y in 0..32 {
        for x in 0..32 {
            assert_eq!(frame[(y * 32 + x) as usize], idle_pixel(x, y, true));
        }
    }
    assert_eq!(frame[5 * 32 + 12], MATRIX_GREEN);
    assert_eq!(frame[15 * 32 + 16], COAT_HL);
}

#[test]
fn walk_frames_are_row_major() {
    for step in 0..4u8 {
        let frame = make_walk_frame(step);
        for y in 0..32 {
            for x in 0..32 {
                assert_eq!(frame[(y * 32 + x) as usize], walk_pixel(x, y, step));
            }
        }
    }
}

#[test]
fn stride_shifts_the_legs_within_their_band() {
    // Level steps show the legs of the idle pose.
    for step in [1u8, 3u8] {
        for y in 0..32 {
            for x in 0..32 {
                assert_eq!(walk_pixel(x, y, step), idle_pixel(x, y, true));
            }
        }
    }
    // Step 0: the left leg is tested one to the right and one up, so it shows
    // one column to the left and one row lower, cut at the band.
    assert_eq!(walk_pixel(8, 27, 0), COAT_DK);
    assert_eq!(walk_pixel(8, 26, 0), BLACK);
    assert_eq!(walk_pixel(13, 28, 0), BLACK);
    assert_eq!(walk_pixel(12, 31, 0), COAT_DK);
    // The right leg goes the other way.
    assert_eq!(walk_pixel(24, 26, 0), COAT_DK);
    assert_eq!(walk_pixel(24, 31, 0), BLACK);
    assert_eq!(walk_pixel(19, 27, 0), BLACK);
    // Step 2 mirrors step 0.
    assert_eq!(walk_pixel(14, 26, 2), COAT_DK);
    assert_eq!(walk_pixel(9, 26, 2), BLACK);
    assert_eq!(walk_pixel(10, 31, 2), BLACK);
    assert_eq!(walk_pixel(18, 27, 2), COAT_DK);
    assert_eq!(walk_pixel(23, 27, 2), BLACK);
    assert_eq!(walk_pixel(22, 26, 2), BLACK);
    // The figure above the legs does not move.
    for step in 0..4u8 {
        for y in 0..26 {
            for x in 0..32 {
                assert_eq!(walk_pixel(x, y, step), idle_pixel(x, y, true));
            }
        }
    }
}

#[test]
fn mascot_features() {
    assert_eq!(pixel_a(0, 0), BG);
    assert_eq!(pixel_a(63, 63), BG);
    assert_eq!(pixel_a(32, 50), YL);
    // Ear tip and ear stripe.
    assert_eq!(pixel_a(14, 0), YL);
    assert_eq!(pixel_a(12, 0), YL);
    assert_eq!(pixel_a(11, 0), BG);
    assert_eq!(pixel_a(14, 2), BG);
    assert_eq!(pixel_a(14, 1), YL);
    assert_eq!(pixel_a(50, 10), BG);
    assert_eq!(pixel_a(54, 10), YL);
    // Eyes: dark with a white shine.
    assert_eq!(pixel_a(21, 33), BG);
    assert_eq!(pixel_a(23, 27), WH);
    assert_eq!(pixel_a(45, 27), WH);
    assert_eq!(pixel_b(21, 33), YL);
    assert_eq!(pixel_b(23, 27), YL);
    assert_eq!(pixel_b(21, 30), BG);
    assert_eq!(pixel_b(43, 30), BG);
    assert_eq!(pixel_b(25, 30), YL);
    // Cheeks, nose and mouth.
    assert_eq!(pixel_a(17, 40), RD);
    assert_eq!(pixel_b(47, 40), RD);
    assert_eq!(pixel_a(31, 33), BG);
    assert_eq!(pixel_a(32, 37), BG);
    assert_eq!(pixel_a(26, 38), BG);
    assert_eq!(pixel_a(25, 39), BG);
    assert_eq!(pixel_a(27, 38), YL);
    assert_eq!(pixel_a(16, 0), YL);
    assert_eq!(pixel_a(17, 0), BG);
    assert_eq!(pixel_a(2, 20), YL);
    assert_eq!(pixel_a(1, 20), BG);
}

#[test]
fn mascot_frames_are_row_major() {
    let a = make_frame_a();
    let b = make_frame_b();
    assert_eq!(a.len(), 4096);
    assert_eq!(b.len(), 4096);
    for y in 0..64 {
        for x in 0..64 {
            assert_eq!(a[(y * 64 + x) as usize], pixel_a(x, y));
            assert_eq!(b[(y * 64 + x) as usize], pixel_b(x, y));
        }
    }
    assert_eq!(a[27 * 64 + 23], WH);
    assert_eq!(b[30 * 64 + 21], BG);
}

#[test]
fn rasteriser_renders_the_idle_frames() {
    for eyes_open in [true, false] {
        let b = render_idle_frame(eyes_open);
        assert_eq!((b.width(), b.height()), (32, 32));
        assert_eq!(*b.pixels(), make_idle_frame(eyes_open).to_vec());
    }
}

#[test]
fn rasteriser_renders_the_walk_frames() {
    for step in 0..4u8 {
        let b = render_walk_frame(step);
        assert_eq!((b.width(), b.height()), (32, 32));
        assert_eq!(*b.pixels(), make_walk_frame(step).to_vec());
    }
}

#[test]
fn figure_is_ten_regions_front_to_back() {
    let set = idle_regions(true);
    assert_eq!(set.background, BLACK);
    assert_eq!(set.regions.len(), 10);
    let colors: Vec<u16> = set.regions.iter().map(|r| r.color).collect();
    assert_eq!(
        colors,
        vec![HAIR, MATRIX_GREEN, SKIN, SKIN, COAT_HL, COAT_MID, COAT_DK, COAT_DK, COAT_DK, COAT_DK]
    );
    assert_eq!(idle_regions(false).regions[1].color, GREEN_DIM);
    let walking = walk_regions(0);
    for y in 0..32 {
        for x in 0..32 {
            assert_eq!(set.pixel_at(x, y), idle_pixel(x, y, true));
            assert_eq!(walking.pixel_at(x, y), walk_pixel(x, y, 0));
        }
    }
    let shifted = figure_regions(SKIN, 1, -1);
    assert_eq!(shifted.regions[1].color, SKIN);
    assert_eq!(shifted.pixel_at(14, 27), COAT_DK);
}

fn digest(pixels: &[u16]) -> u32 {
    pixels.iter().fold(0u32, |h, p| h.wrapping_mul(31).wrapping_add(*p as u32))
}

fn count(pixels: &[u16], color: u16) -> usize {
    pixels.iter().filter(|p| **p == color).count()
}

#[test]
fn character_frames_pixel_for_pixel() {
    assert_eq!(digest(&make_idle_frame(true)), 1110258878);
    assert_eq!(digest(&make_idle_frame(false)), 3818497214);
    assert_eq!(digest(&make_walk_frame(0)), 985919150);
    assert_eq!(digest(&make_walk_frame(1)), 1110258878);
    assert_eq!(digest(&make_walk_frame(2)), 2593555286);
    assert_eq!(digest(&make_walk_frame(3)), 1110258878);
    let frame = make_idle_frame(true);
    assert_eq!(count(&frame, BLACK), 570);
    assert_eq!(count(&frame, COAT_DK), 272);
    assert_eq!(count(&frame, SKIN), 70);
    assert_eq!(count(&frame, COAT_MID), 56);
    assert_eq!(count(&frame, HAIR), 39);
    assert_eq!(count(&frame, COAT_HL), 13);
    assert_eq!(count(&frame, MATRIX_GREEN), 4);
}

#[test]
fn mascot_frames_pixel_for_pixel() {
    let a = make_frame_a();
    let b = make_frame_b();
    assert_eq!(digest(&a), 3949183442);
    assert_eq!(digest(&b), 2038272694);
    assert_eq!((count(&a, BG), count(&a, YL), count(&a, RD), count(&a, WH)), (2058, 1720, 292, 26));
    assert_eq!((count(&b, BG), count(&b, YL), count(&b, RD), count(&b, WH)), (1916, 1882, 298, 0));
}
