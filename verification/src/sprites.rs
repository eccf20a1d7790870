//! Pixel art of the yellow mascot: a 64x64 sprite with two frames, eyes
//! open and eyes closed.

use vstd::prelude::*;
use crate::geometry::{abs, ellipse_contains, iabs, in_ellipse};

verus! {

/// Width and height of the sprite in pixels.
pub const SPRITE_SIDE: i32 = 64;

/// Background, and every dark feature drawn on the figure.
pub const BG: u16 = 0x0000;

/// Yellow: the encoding of (0xFF, 0xFF, 0x00).
pub const YL: u16 = 0xE0FF;

/// Red: the encoding of (0xFF, 0x00, 0x00).
pub const RD: u16 = 0x00F8;

/// White: the encoding of (0xFF, 0xFF, 0xFF).
pub const WH: u16 = 0xFFFF;

/// The palette holds the panel encodings of the colours it is named after.
pub proof fn lemma_palette_encoded()
    ensures
        BG == crate::color::encoded(0x00, 0x00, 0x00),
        YL == crate::color::encoded(0xFF, 0xFF, 0x00),
        RD == crate::color::encoded(0xFF, 0x00, 0x00),
        WH == crate::color::encoded(0xFF, 0xFF, 0xFF),
{
}

/// An ear: a triangle about column `tip`, five pixels wide at the top and
/// one pixel wider on each side every two rows, down to row 20.
pub open spec fn ear(x: int, y: int, tip: int) -> bool {
    y <= 20 && abs(x - tip) <= y / 2 + 2
}

/// The dark stripe inside an ear.
pub open spec fn ear_stripe(x: int, y: int, tip: int) -> bool {
    2 <= y <= 18 && abs(x - tip) <= y / 3
}

/// The outline of the figure: the head and the two ears.
pub open spec fn figure(x: int, y: int) -> bool {
    ellipse_contains(x, y, 32, 36, 26, 24) || ear(x, y, 14) || ear(x, y, 50)
}

/// The two open eyes.
pub open spec fn open_eyes(x: int, y: int) -> bool {
    ellipse_contains(x, y, 21, 29, 5, 6) || ellipse_contains(x, y, 43, 29, 5, 6)
}

/// The shine in each open eye.
pub open spec fn eye_shine(x: int, y: int) -> bool {
    ellipse_contains(x, y, 23, 27, 2, 2) || ellipse_contains(x, y, 45, 27, 2, 2)
}

/// The two closed eyes: a short line each.
pub open spec fn closed_eyes(x: int, y: int) -> bool {
    y == 30 && (18 <= x <= 24 || 40 <= x <= 46)
}

/// The two cheeks.
pub open spec fn cheeks(x: int, y: int) -> bool {
    ellipse_contains(x, y, 17, 40, 7, 7) || ellipse_contains(x, y, 47, 40, 7, 7)
}

/// The nose and the smile.
pub open spec fn nose_or_mouth(x: int, y: int) -> bool {
    (30 <= x <= 33 && y == 33) || (y == 37 && 27 <= x <= 37) || (y == 38 && (x == 26 || x == 38))
        || (y == 39 && (x == 25 || x == 39))
}

/// The colour of the face below the ear stripes and the eyes.
pub open spec fn skin_color(x: int, y: int) -> u16 {
    if nose_or_mouth(x, y) {
        BG
    } else if cheeks(x, y) {
        RD
    } else {
        YL
    }
}

/// The colour of the frame with open eyes at `(x, y)`: within the figure,
/// the first feature that holds the point decides.
pub open spec fn color_a(x: int, y: int) -> u16 {
    if !figure(x, y) {
        BG
    } else if ear_stripe(x, y, 14) || ear_stripe(x, y, 50) {
        BG
    } else if open_eyes(x, y) {
        if eye_shine(x, y) {
            WH
        } else {
            BG
        }
    } else {
        skin_color(x, y)
    }
}

/// The colour of the frame with closed eyes at `(x, y)`.
pub open spec fn color_b(x: int, y: int) -> u16 {
    if !figure(x, y) {
        BG
    } else if ear_stripe(x, y, 14) || ear_stripe(x, y, 50) {
        BG
    } else if closed_eyes(x, y) {
        BG
    } else {
        skin_color(x, y)
    }
}

/// Outside the figure both frames show the background.
pub proof fn lemma_background(x: int, y: int)
    requires
        !figure(x, y),
    ensures
        color_a(x, y) == BG,
        color_b(x, y) == BG,
{
}

/// The two frames differ in the eyes alone.
pub proof fn lemma_frames_differ_in_eyes(x: int, y: int)
    requires
        !open_eyes(x, y),
        !closed_eyes(x, y),
    ensures
        color_a(x, y) == color_b(x, y),
{
}

/// Whether the head or an ear holds `(x, y)`.
fn in_figure(x: i32, y: i32) -> (r: bool)
    requires
        0 <= x < SPRITE_SIDE,
        0 <= y < SPRITE_SIDE,
    ensures
        r == figure(x as int, y as int),
{
    let in_left_ear = y <= 20 && iabs(x - 14) <= y / 2 + 2;
    let in_right_ear = y <= 20 && iabs(x - 50) <= y / 2 + 2;
    let in_head = in_ellipse(x, y, 32, 36, 26, 24);
    in_head || in_left_ear || in_right_ear
}

/// Whether the stripe of either ear holds `(x, y)`.
fn in_ear_stripe(x: i32, y: i32) -> (r: bool)
    requires
        0 <= x < SPRITE_SIDE,
        0 <= y < SPRITE_SIDE,
    ensures
        r == (ear_stripe(x as int, y as int, 14) || ear_stripe(x as int, y as int, 50)),
{
    let in_left_ear_inner = y >= 2 && y <= 18 && iabs(x - 14) <= y / 3;
    let in_right_ear_inner = y >= 2 && y <= 18 && iabs(x - 50) <= y / 3;
    in_left_ear_inner || in_right_ear_inner
}

/// The pixel of the face below the ear stripes and the eyes.
fn skin_pixel(x: i32, y: i32) -> (px: u16)
    ensures
        px == skin_color(x as int, y as int),
{
    let in_left_cheek = in_ellipse(x, y, 17, 40, 7, 7);
    let in_right_cheek = in_ellipse(x, y, 47, 40, 7, 7);
    let in_nose = x >= 30 && x <= 33 && y == 33;
    let in_mouth = (y == 37 && x >= 27 && x <= 37) || (y == 38 && (x == 26 || x == 38)) || (y
        == 39 && (x == 25 || x == 39));
    if in_nose || in_mouth {
        BG
    } else if in_left_cheek || in_right_cheek {
        RD
    } else {
        YL
    }
}

/// The pixel at `(x, y)` of the frame with open eyes.
pub fn pixel_a(x: i32, y: i32) -> (px: u16)
    requires
        0 <= x < SPRITE_SIDE,
        0 <= y < SPRITE_SIDE,
    ensures
        px == color_a(x as int, y as int),
        !figure(x as int, y as int) ==> px == BG,
{
    let in_left_eye = in_ellipse(x, y, 21, 29, 5, 6);
    let in_right_eye = in_ellipse(x, y, 43, 29, 5, 6);
    let in_left_hl = in_ellipse(x, y, 23, 27, 2, 2);
    let in_right_hl = in_ellipse(x, y, 45, 27, 2, 2);

    if in_figure(x, y) {
        if in_ear_stripe(x, y) {
            BG
        } else if in_left_eye || in_right_eye {
            if in_left_hl || in_right_hl {
                WH
            } else {
                BG
            }
        } else {
            skin_pixel(x, y)
        }
    } else {
        BG
    }
}

/// The pixel at `(x, y)` of the frame with closed eyes.
pub fn pixel_b(x: i32, y: i32) -> (px: u16)
    requires
        0 <= x < SPRITE_SIDE,
        0 <= y < SPRITE_SIDE,
    ensures
        px == color_b(x as int, y as int),
        !figure(x as int, y as int) ==> px == BG,
{
    let in_left_eye_closed = y == 30 && x >= 18 && x <= 24;
    let in_right_eye_closed = y == 30 && x >= 40 && x <= 46;

    if in_figure(x, y) {
        if in_ear_stripe(x, y) {
            BG
        } else if in_left_eye_closed || in_right_eye_closed {
            BG
        } else {
            skin_pixel(x, y)
        }
    } else {
        BG
    }
}

/// What the frame with open eyes holds: the pixel of `(x, y)` stands at
/// `y * 64 + x`.
pub open spec fn is_frame_a(p: Seq<u16>) -> bool {
    &&& p.len() == 4096
    &&& forall|x: int, y: int|
        0 <= x < SPRITE_SIDE && 0 <= y < SPRITE_SIDE ==> #[trigger] p[y * SPRITE_SIDE + x]
            == color_a(x, y)
}

/// What the frame with closed eyes holds, row by row.
pub open spec fn is_frame_b(p: Seq<u16>) -> bool {
    &&& p.len() == 4096
    &&& forall|x: int, y: int|
        0 <= x < SPRITE_SIDE && 0 <= y < SPRITE_SIDE ==> #[trigger] p[y * SPRITE_SIDE + x]
            == color_b(x, y)
}

/// Renders the frame with open eyes, row by row.
pub fn make_frame_a() -> (p: [u16; 4096])
    ensures
        is_frame_a(p@),
{
    let mut p = [BG; 4096];
    let mut y: i32 = 0;
    while y < 64
        invariant
            0 <= y <= 64,
            forall|k: int| 0 <= k < y * 64 ==> #[trigger] p@[k] == color_a(k % 64, k / 64),
        decreases 64 - y,
    {
        let mut x: i32 = 0;
        while x < 64
            invariant
                0 <= y < 64,
                0 <= x <= 64,
                forall|k: int| 0 <= k < y * 64 + x ==> #[trigger] p@[k] == color_a(k % 64, k / 64),
            decreases 64 - x,
        {
            p[(y * 64 + x) as usize] = pixel_a(x, y);
            x += 1;
        }
        y += 1;
    }
    assert forall|x: int, y: int| 0 <= x < SPRITE_SIDE && 0 <= y < SPRITE_SIDE implies #[trigger] p@[y
        * SPRITE_SIDE + x] == color_a(x, y) by {
        let k = y * SPRITE_SIDE + x;
        assert(k % 64 == x && k / 64 == y);
    }
    p
}

/// Renders the frame with closed eyes, row by row.
pub fn make_frame_b() -> (p: [u16; 4096])
    ensures
        is_frame_b(p@),
{
    let mut p = [BG; 4096];
    let mut y: i32 = 0;
    while y < 64
        invariant
            0 <= y <= 64,
            forall|k: int| 0 <= k < y * 64 ==> #[trigger] p@[k] == color_b(k % 64, k / 64),
        decreases 64 - y,
    {
        let mut x: i32 = 0;
        while x < 64
            invariant
                0 <= y < 64,
                0 <= x <= 64,
                forall|k: int| 0 <= k < y * 64 + x ==> #[trigger] p@[k] == color_b(k % 64, k / 64),
            decreases 64 - x,
        {
            p[(y * 64 + x) as usize] = pixel_b(x, y);
            x += 1;
        }
        y += 1;
    }
    assert forall|x: int, y: int| 0 <= x < SPRITE_SIDE && 0 <= y < SPRITE_SIDE implies #[trigger] p@[y
        * SPRITE_SIDE + x] == color_b(x, y) by {
        let k = y * SPRITE_SIDE + x;
        assert(k % 64 == x && k / 64 == y);
    }
    p
}

} // verus!
